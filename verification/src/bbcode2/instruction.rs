//! Instructions output by a tokenizer.
use vstd::prelude::*;

verus! {

/// A single Instruction output by the tokenizer.
#[derive(Debug, PartialEq, Clone)]
pub enum Instruction {
    Null,
    Tag(String, Option<String>),
    TagClose(String),
    Text(String),
    Linebreak,
}

impl Default for Instruction {
    fn default() -> (i: Self)
        ensures
            i is Null,
    {
        Instruction::Null
    }
}

} // verus!
