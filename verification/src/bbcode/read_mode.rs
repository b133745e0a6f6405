//! Tokenizer modes.
use vstd::prelude::*;

verus! {

/// Tokenizer modes.
#[derive(Debug, PartialEq, Eq, Structural, Clone, Copy)]
pub enum ReadMode {
    Text,
    Linebreak,
    Tag,
    TagArg,
    TagArgQuote,
    TagClose,
    Url(bool),
}

impl Default for ReadMode {
    fn default() -> (m: Self)
        ensures
            m == ReadMode::Text,
    {
        Self::Text
    }
}

} // verus!
