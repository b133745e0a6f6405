//! BbCode to HTML: a lexer, a parser that builds an element tree, and a
//! constructor that renders the tree.
pub mod constructor;
pub mod element;
pub mod instruction;
pub mod lexer;
pub mod parser;
pub mod read_mode;
pub mod tag;
pub mod token;

pub use constructor::Constructor;
pub use element::{Element, ElementDisplay};
pub use instruction::Instruction;
pub use lexer::Lexer;
pub use parser::{Ast, Parser};
pub use read_mode::ReadMode;
pub use tag::Tag;
pub use token::Token;

use vstd::prelude::*;

verus! {

/// The HTML of a BbCode text: its tokens, parsed into a tree, rendered.
pub open spec fn bbcode_html(input: Seq<char>) -> Seq<char> {
    constructor::render(parser::parse_tree(lexer::lex(input)), 0)
}

/// Generates a string of HTML from an &str of BbCode.
pub fn parse(input: &str) -> (html: String)
    ensures
        html@ == bbcode_html(input@),
{
    let mut lexer = Lexer::new();
    let tokens = lexer.tokenize(input);

    let mut parser = Parser::new();
    let ast = parser.parse(tokens.as_slice());

    let constructor = Constructor::new();
    constructor.build(&ast)
}

} // verus!
