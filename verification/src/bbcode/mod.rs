//! BBCode rendering building blocks: HTML sanitation, smilies, tokens, elements
//! and HTML construction.
pub mod ast;
pub mod bbcode_lexer;
pub mod bbcode_tokenizer;
pub mod constructor;
pub mod element;
pub mod html_constructor;
pub mod instruction;
pub mod read_mode;
pub mod sanitation;
pub mod smilie;
pub mod tag;
pub mod token;
pub mod tokenize;
pub mod tree;

pub use bbcode_lexer::BBCodeLexer;
pub use bbcode_tokenizer::BBCodeTokenizer;
pub use constructor::Constructor;
pub use element::Element;
pub use html_constructor::HTMLConstructor;
pub use instruction::Instruction;
pub use sanitation::SafeHtml;
pub use smilie::Smilies;
pub use tag::Tag;
pub use token::Token;
