//! Tokens that keep slices of the text they were read from.
use vstd::prelude::*;

verus! {

/// A single Token output by the tokenizer. Each variant keeps the raw text it
/// was read from first.
#[derive(Debug, PartialEq, Clone)]
pub enum Token<'a> {
    Null,
    Linebreak(&'a str),
    /// Raw text, tag name, and the argument text after the name.
    Tag(&'a str, &'a str, Option<&'a str>),
    /// Raw text and tag name.
    TagClose(&'a str, &'a str),
    Text(&'a str),
    Url(&'a str),
}

/// The value of a token, with each slice as its characters.
pub enum TokenV {
    Null,
    Linebreak(Seq<char>),
    Tag(Seq<char>, Seq<char>, Option<Seq<char>>),
    TagClose(Seq<char>, Seq<char>),
    Text(Seq<char>),
    Url(Seq<char>),
}

impl<'a> View for Token<'a> {
    type V = TokenV;

    open spec fn view(&self) -> TokenV {
        match self {
            Token::Null => TokenV::Null,
            Token::Linebreak(raw) => TokenV::Linebreak(raw@),
            Token::Tag(raw, tag, arg) => TokenV::Tag(raw@, tag@, match arg { Some(a) => Some(a@), None => None }),
            Token::TagClose(raw, tag) => TokenV::TagClose(raw@, tag@),
            Token::Text(text) => TokenV::Text(text@),
            Token::Url(url) => TokenV::Url(url@),
        }
    }
}

/// The raw text of a token.
pub open spec fn token_raw(t: Token) -> Seq<char> {
    match t {
        Token::Null => Seq::empty(),
        Token::Linebreak(raw) => raw@,
        Token::Tag(raw, _, _) => raw@,
        Token::TagClose(raw, _) => raw@,
        Token::Text(text) => text@,
        Token::Url(url) => url@,
    }
}

/// The token holds nothing.
pub open spec fn token_empty(t: Token) -> bool {
    match t {
        Token::Null => true,
        Token::Linebreak(_) => false,
        Token::Tag(_, tag, arg) => tag@.len() == 0 && arg is None,
        Token::TagClose(_, tag) => tag@.len() == 0,
        Token::Text(text) => text@.len() == 0,
        Token::Url(url) => url@.len() == 0,
    }
}

impl<'a> Token<'a> {
    /// The text the token was read from.
    pub fn as_raw(&'a self) -> (s: &'a str)
        ensures
            s@ == token_raw(*self),
    {
        proof { reveal_strlit(""); }
        match self {
            Self::Null => "",
            Self::Linebreak(raw) => raw,
            Self::Tag(raw, _, _) => raw,
            Self::TagClose(raw, _) => raw,
            Self::Text(text) => text,
            Self::Url(url) => url,
        }
    }

    /// Whether the token holds nothing.
    pub fn is_empty(self) -> (b: bool)
        ensures
            b == token_empty(self),
    {
        match self {
            Self::Null => true,
            Self::Linebreak(_) => false,
            Self::Tag(_, tag, arg) => tag.is_empty() && arg.is_none(),
            Self::TagClose(_, tag) => tag.is_empty(),
            Self::Text(text) => text.is_empty(),
            Self::Url(url) => url.is_empty(),
        }
    }
}

impl<'a> Default for Token<'a> {
    fn default() -> (t: Self)
        ensures
            t is Null,
    {
        Token::Null
    }
}

} // verus!
