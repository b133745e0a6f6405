//! Tokens produced by the lexer.
use crate::text::push_str;
use vstd::prelude::*;

verus! {

/// A single Token output by the tokenizer.
#[derive(Debug, PartialEq, Clone)]
pub enum Token {
    Null,
    Linebreak,
    /// Tag name and the raw argument text after it (starting with ` ` or `=`).
    Tag(String, Option<String>),
    TagClose(String),
    Text(String),
    /// A URL written between `<` and `>`.
    Url(String),
}

/// The value of a token, with strings as character sequences.
pub enum TokenV {
    Null,
    Linebreak,
    Tag(Seq<char>, Option<Seq<char>>),
    TagClose(Seq<char>),
    Text(Seq<char>),
    Url(Seq<char>),
}

impl View for Token {
    type V = TokenV;

    open spec fn view(&self) -> TokenV {
        match self {
            Token::Null => TokenV::Null,
            Token::Linebreak => TokenV::Linebreak,
            Token::Tag(t, a) => TokenV::Tag(t@, match a { Some(a) => Some(a@), None => None }),
            Token::TagClose(t) => TokenV::TagClose(t@),
            Token::Text(t) => TokenV::Text(t@),
            Token::Url(u) => TokenV::Url(u@),
        }
    }
}

/// The token's text without BBCode syntax.
pub open spec fn token_inner(t: TokenV) -> Seq<char> {
    match t {
        TokenV::Null => Seq::empty(),
        TokenV::Linebreak => seq!['\n', '\r'],
        TokenV::Tag(tag, arg) => match arg {
            Some(arg) => tag + arg,
            None => tag,
        },
        TokenV::TagClose(tag) => tag,
        TokenV::Text(text) => text,
        TokenV::Url(url) => url,
    }
}

/// The token written back as BBCode.
pub open spec fn token_bbcode(t: TokenV) -> Seq<char> {
    match t {
        TokenV::Tag(_, _) => seq!['['] + token_inner(t) + seq![']'],
        TokenV::TagClose(_) => seq!['[', '/'] + token_inner(t) + seq![']'],
        _ => token_inner(t),
    }
}

/// The token holds nothing.
pub open spec fn token_is_empty(t: TokenV) -> bool {
    match t {
        TokenV::Null => true,
        TokenV::Linebreak => false,
        TokenV::Tag(tag, arg) => tag.len() == 0 && arg is None,
        TokenV::TagClose(tag) => tag.len() == 0,
        TokenV::Text(text) => text.len() == 0,
        TokenV::Url(url) => url.len() == 0,
    }
}

impl Token {
    /// An empty BbCode tag token.
    pub fn empty_tag() -> (t: Self)
        ensures
            t@ == TokenV::Tag(Seq::empty(), None),
    {
        Self::Tag(String::new(), None)
    }

    /// An empty BbCode closing tag token.
    pub fn empty_tag_close() -> (t: Self)
        ensures
            t@ == TokenV::TagClose(Seq::empty()),
    {
        Self::TagClose(String::new())
    }

    /// Whether the token holds nothing.
    pub fn is_empty(&self) -> (b: bool)
        ensures
            b == token_is_empty(self@),
    {
        match self {
            Self::Null => true,
            Self::Linebreak => false,
            Self::Tag(tag, arg) => tag.as_str().is_empty() && arg.is_none(),
            Self::TagClose(tag) => tag.as_str().is_empty(),
            Self::Text(text) => text.as_str().is_empty(),
            Self::Url(url) => url.as_str().is_empty(),
        }
    }

    /// Converts token to string, without syntax.
    pub fn to_inner_string(&self) -> (s: String)
        ensures
            s@ == token_inner(self@),
    {
        match self {
            Self::Null => String::new(),
            Self::Linebreak => {
                let mut s = String::new();
                push_str(&mut s, "\n\r");
                proof { reveal_strlit("\n\r"); }
                s
            },
            Self::Tag(tag, arg) => match arg {
                Some(arg) => {
                    let mut s = tag.clone();
                    push_str(&mut s, arg.as_str());
                    s
                },
                None => tag.clone(),
            },
            Self::TagClose(tag) => tag.clone(),
            Self::Text(text) => text.clone(),
            Self::Url(url) => url.clone(),
        }
    }

    /// Reverses token to string.
    pub fn to_tag_string(&self) -> (s: String)
        ensures
            s@ == token_bbcode(self@),
    {
        match self {
            Self::Tag(_, _) => {
                let mut s = String::new();
                push_str(&mut s, "[");
                let inner = self.to_inner_string();
                push_str(&mut s, inner.as_str());
                push_str(&mut s, "]");
                proof { reveal_strlit("["); reveal_strlit("]"); }
                s
            },
            Self::TagClose(_) => {
                let mut s = String::new();
                push_str(&mut s, "[/");
                let inner = self.to_inner_string();
                push_str(&mut s, inner.as_str());
                push_str(&mut s, "]");
                proof { reveal_strlit("[/"); reveal_strlit("]"); }
                s
            },
            _ => self.to_inner_string(),
        }
    }
}

impl Default for Token {
    fn default() -> (t: Self)
        ensures
            t@ == TokenV::Null,
    {
        Token::Null
    }
}

} // verus!
