//! Instructions output by the character tokenizer.
use vstd::prelude::*;

verus! {

/// A single Instruction output by the tokenizer.
#[derive(Debug, PartialEq, Clone)]
pub enum Instruction {
    Null,
    Tag(String, Option<String>),
    TagClose(String),
    Text(String),
    Linebreak,
    /// A paragraph break and the whitespace that made it.
    Parabreak(String),
}

/// The value of an instruction, with strings as character sequences.
pub enum InstructionV {
    Null,
    Tag(Seq<char>, Option<Seq<char>>),
    TagClose(Seq<char>),
    Text(Seq<char>),
    Linebreak,
    Parabreak(Seq<char>),
}

impl View for Instruction {
    type V = InstructionV;

    open spec fn view(&self) -> InstructionV {
        match self {
            Instruction::Null => InstructionV::Null,
            Instruction::Tag(t, a) => InstructionV::Tag(t@, match a { Some(a) => Some(a@), None => None }),
            Instruction::TagClose(t) => InstructionV::TagClose(t@),
            Instruction::Text(t) => InstructionV::Text(t@),
            Instruction::Linebreak => InstructionV::Linebreak,
            Instruction::Parabreak(p) => InstructionV::Parabreak(p@),
        }
    }
}

impl Default for Instruction {
    fn default() -> (i: Self)
        ensures
            i is Null,
    {
        Instruction::Null
    }
}

} // verus!
