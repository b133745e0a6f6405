//! BbCode tokenization: a character-driven state machine.
use super::token::{token_inner, token_is_empty, Token, TokenV};
use super::ReadMode;
use crate::bbcode::sanitation::{escape_char, escape_html, has_markup_char, html_unescape, lemma_escape_html_no_markup, lemma_unescape_sanitized};
use crate::text::{push_char, push_str, to_chars};
use crate::weburl::{parse_url, url_parse};
use vstd::prelude::*;

verus! {

/// The value of a lexer: its mode, the token being built and the tokens committed.
#[verifier::ext_equal]
pub struct LexState {
    pub mode: ReadMode,
    pub cur: TokenV,
    pub tokens: Seq<TokenV>,
}

/// The values of a sequence of tokens.
pub open spec fn tokens_view(v: Seq<Token>) -> Seq<TokenV> {
    v.map_values(|t: Token| t@)
}

/// A character that the lexer replaces with an HTML entity in text.
pub open spec fn is_html_special(c: char) -> bool {
    c == '>' || c == '<' || c == '&' || c == '"' || c == '\''
}

/// ASCII letter.
pub open spec fn is_ascii_letter(c: char) -> bool {
    ('a' <= c && c <= 'z') || ('A' <= c && c <= 'Z')
}

/// Moves the token being built to the committed tokens. A URL that does not parse
/// becomes text; an empty one is dropped.
pub open spec fn lex_commit(st: LexState) -> LexState {
    let tokens = match st.cur {
        TokenV::Null => st.tokens,
        TokenV::Url(url) => if url_parse(url) is Some {
            st.tokens.push(st.cur)
        } else if url.len() > 0 {
            st.tokens.push(TokenV::Text(url))
        } else {
            st.tokens
        },
        _ => st.tokens.push(st.cur),
    };
    LexState { mode: st.mode, cur: TokenV::Null, tokens }
}

/// Commits `tok` directly and clears the token being built.
pub open spec fn lex_insert(st: LexState, tok: TokenV) -> LexState {
    LexState { mode: st.mode, cur: TokenV::Null, tokens: st.tokens.push(tok) }
}

/// Appends text to the token being built, which becomes text if it was not.
pub open spec fn lex_append_text(st: LexState, s: Seq<char>) -> LexState {
    match st.cur {
        TokenV::Text(t) => LexState { cur: TokenV::Text(t + s), ..st },
        _ => LexState { cur: TokenV::Text(s), ..st },
    }
}

/// A character read as plain text.
pub open spec fn lex_text(st: LexState, c: char) -> LexState {
    if c == '[' {
        let s = lex_commit(st);
        LexState { mode: ReadMode::Tag, cur: TokenV::Tag(Seq::empty(), None), ..s }
    } else if c == '\r' {
        st
    } else if c == '\n' {
        let s = lex_commit(st);
        LexState { mode: ReadMode::Linebreak, ..s }
    } else if is_html_special(c) {
        let s = lex_append_text(st, escape_char(c));
        if c == '<' {
            let s2 = lex_commit(s);
            LexState { mode: ReadMode::Url(true), ..s2 }
        } else {
            s
        }
    } else {
        lex_append_text(st, seq![c])
    }
}

/// A character read after a line ending: blanks are consumed, anything else ends
/// the line break.
pub open spec fn lex_linebreak(st: LexState, c: char) -> LexState {
    if c == '\t' || c == '\r' || c == ' ' {
        st
    } else {
        let s = lex_insert(st, TokenV::Linebreak);
        lex_text(LexState { mode: ReadMode::Text, ..s }, c)
    }
}

/// Gives up on the tag being read: its text so far becomes plain text and the
/// character that broke it is read as text.
pub open spec fn lex_reset(st: LexState, c: char) -> LexState {
    let text = match st.cur {
        TokenV::Text(t) => t,
        TokenV::Tag(tag, arg) => match arg {
            Some(arg) => seq!['['] + tag + arg,
            None => seq!['['] + tag,
        },
        TokenV::TagClose(tag) => seq!['[', '/'] + tag,
        _ => token_inner(st.cur),
    };
    lex_text(LexState { mode: ReadMode::Text, cur: TokenV::Text(text), tokens: st.tokens }, c)
}

/// A character read inside a tag name.
pub open spec fn lex_tag(st: LexState, c: char) -> LexState {
    if c == ']' {
        let s = lex_commit(st);
        LexState { mode: ReadMode::Text, ..s }
    } else if c == '/' {
        if token_is_empty(st.cur) {
            LexState { mode: ReadMode::TagClose, cur: TokenV::TagClose(Seq::empty()), ..st }
        } else {
            lex_reset(st, c)
        }
    } else if c == ' ' || c == '=' {
        if !token_is_empty(st.cur) {
            match st.cur {
                TokenV::Tag(tag, _) => LexState { mode: ReadMode::TagArg, cur: TokenV::Tag(tag, Some(seq![c])), ..st },
                _ => st,
            }
        } else {
            lex_reset(st, c)
        }
    } else if c == '\n' || c == '\r' {
        lex_reset(st, c)
    } else {
        match st.cur {
            TokenV::Tag(tag, arg) => LexState { cur: TokenV::Tag(tag.push(c), arg), ..st },
            _ => LexState { cur: TokenV::Tag(seq![c], None), ..st },
        }
    }
}

/// Appends a character to the argument of the tag being built.
pub open spec fn lex_push_arg(st: LexState, c: char) -> LexState {
    match st.cur {
        TokenV::Tag(tag, arg) => match arg {
            Some(arg) => LexState { cur: TokenV::Tag(tag, Some(arg.push(c))), ..st },
            None => LexState { cur: TokenV::Tag(tag, Some(seq![c])), ..st },
        },
        _ => st,
    }
}

/// A character read inside a tag's arguments; `literal` inside double quotes.
pub open spec fn lex_tag_arg(st: LexState, c: char, literal: bool) -> LexState {
    if c == ']' && !literal {
        let s = lex_commit(st);
        LexState { mode: ReadMode::Text, ..s }
    } else if c == '[' && !literal {
        lex_reset(st, c)
    } else if c == '\n' || c == '\r' {
        lex_reset(st, c)
    } else if c == '"' {
        lex_push_arg(LexState { mode: if literal { ReadMode::TagArg } else { ReadMode::TagArgQuote }, ..st }, c)
    } else {
        lex_push_arg(st, c)
    }
}

/// A character read inside a closing tag.
pub open spec fn lex_tag_close(st: LexState, c: char) -> LexState {
    if c == ']' {
        let s = lex_commit(st);
        LexState { mode: ReadMode::Text, ..s }
    } else if is_ascii_letter(c) {
        match st.cur {
            TokenV::TagClose(tag) => LexState { cur: TokenV::TagClose(tag.push(c)), ..st },
            _ => LexState { cur: TokenV::TagClose(seq![c]), ..st },
        }
    } else {
        lex_reset(st, c)
    }
}

/// A character read inside a URL; `explicit` when it was opened by `<`.
pub open spec fn lex_url(st: LexState, c: char, explicit: bool) -> LexState {
    if c == '\n' {
        let s = lex_commit(st);
        lex_linebreak(LexState { mode: ReadMode::Text, ..s }, c)
    } else if c == '>' || (c == ' ' && !explicit) {
        let s = lex_commit(st);
        lex_text(LexState { mode: ReadMode::Text, ..s }, c)
    } else {
        match st.cur {
            TokenV::Url(url) => LexState { cur: TokenV::Url(url.push(c)), ..st },
            _ => LexState { cur: TokenV::Url(seq![c]), ..st },
        }
    }
}

/// One character read in the lexer's current mode.
pub open spec fn lex_step(st: LexState, c: char) -> LexState {
    match st.mode {
        ReadMode::Linebreak => lex_linebreak(st, c),
        ReadMode::Tag => lex_tag(st, c),
        ReadMode::TagClose => lex_tag_close(st, c),
        ReadMode::TagArg => lex_tag_arg(st, c, false),
        ReadMode::TagArgQuote => lex_tag_arg(st, c, true),
        ReadMode::Text => lex_text(st, c),
        ReadMode::Url(explicit) => lex_url(st, c, explicit),
    }
}

/// The lexer after reading every character of `s`.
pub open spec fn lex_run(st: LexState, s: Seq<char>) -> LexState
    decreases s.len(),
{
    if s.len() == 0 {
        st
    } else {
        lex_step(lex_run(st, s.drop_last()), s.last())
    }
}

/// The lexer state of a new lexer.
pub open spec fn lex_initial() -> LexState {
    LexState { mode: ReadMode::Text, cur: TokenV::Null, tokens: Seq::empty() }
}

/// The tokens of a BbCode text.
pub open spec fn lex(s: Seq<char>) -> Seq<TokenV> {
    lex_commit(lex_run(lex_initial(), s)).tokens
}

/// Struct for BbCode tokenization.
pub struct Lexer {
    mode: ReadMode,
    current_token: Token,
    tokens: Vec<Token>,
}

impl View for Lexer {
    type V = LexState;

    closed spec fn view(&self) -> LexState {
        LexState { mode: self.mode, cur: self.current_token@, tokens: tokens_view(self.tokens@) }
    }
}

impl Default for Lexer {
    fn default() -> (l: Self)
        ensures
            l@ == lex_initial(),
    {
        Self::new()
    }
}

/// Whether a character is an ASCII letter (`char::is_ascii_alphabetic`).
pub fn ascii_letter(c: char) -> (b: bool)
    ensures
        b == is_ascii_letter(c),
{
    ('a' <= c && c <= 'z') || ('A' <= c && c <= 'Z')
}

impl Lexer {
    /// A lexer with no tokens, reading text.
    pub fn new() -> (l: Self)
        ensures
            l@ == lex_initial(),
    {
        let l = Lexer { mode: ReadMode::Text, current_token: Token::Null, tokens: Vec::new() };
        assert(tokens_view(l.tokens@) =~= Seq::<TokenV>::empty());
        l
    }

    /// The tokens committed so far.
    pub fn tokens(&self) -> (t: &Vec<Token>)
        ensures
            tokens_view(t@) == self@.tokens,
    {
        &self.tokens
    }

    /// Reads and tokenizes BbCode into individual Tokens, appending them to the
    /// tokens already read.
    pub fn tokenize(&mut self, bbcode: &str) -> (t: &Vec<Token>)
        ensures
            final(self)@ == lex_commit(lex_run(old(self)@, bbcode@)),
            tokens_view(t@) == final(self)@.tokens,
    {
        let chars = to_chars(bbcode);
        let mut i: usize = 0;
        let ghost start = self@;
        while i < chars.len()
            invariant
                i <= chars@.len(),
                chars@ == bbcode@,
                self@ == lex_run(start, chars@.take(i as int)),
            decreases chars@.len() - i,
        {
            self.parse(chars[i]);
            assert(chars@.take(i + 1).drop_last() =~= chars@.take(i as int));
            i = i + 1;
        }
        assert(chars@.take(chars@.len() as int) =~= chars@);
        self.commit_token();
        &self.tokens
    }

    fn take_token(&mut self) -> (t: Token)
        ensures
            t == old(self).current_token,
            final(self).current_token == Token::Null,
            final(self).mode == old(self).mode,
            final(self).tokens == old(self).tokens,
    {
        let mut t = Token::Null;
        std::mem::swap(&mut t, &mut self.current_token);
        t
    }

    /// Adds `current_token` to `tokens` and resets `current_token`.
    fn commit_token(&mut self)
        ensures
            final(self)@ == lex_commit(old(self)@),
    {
        let cur = self.take_token();
        match cur {
            Token::Null => {},
            Token::Url(url) => {
                let parsed = parse_url(url.as_str());
                if parsed.is_some() {
                    self.tokens.push(Token::Url(url));
                } else if !url.as_str().is_empty() {
                    self.tokens.push(Token::Text(url));
                }
            },
            _ => {
                self.tokens.push(cur);
            },
        }
        assert(self@ =~= lex_commit(old(self)@));
    }

    /// Inserts a token directly into `tokens` and resets `current_token`.
    fn insert_token(&mut self, token: Token)
        ensures
            final(self)@ == lex_insert(old(self)@, token@),
    {
        self.tokens.push(token);
        self.current_token = Token::Null;
        assert(self@ =~= lex_insert(old(self)@, token@));
    }

    /// Appends text to the token being built.
    fn append_text(&mut self, s: &str)
        ensures
            final(self)@ == lex_append_text(old(self)@, s@),
    {
        let cur = self.take_token();
        match cur {
            Token::Text(mut t) => {
                push_str(&mut t, s);
                self.current_token = Token::Text(t);
            },
            _ => {
                self.current_token = Token::Text(s.to_owned());
            },
        }
        assert(self@ =~= lex_append_text(old(self)@, s@));
    }

    fn parse(&mut self, character: char)
        ensures
            final(self)@ == lex_step(old(self)@, character),
    {
        match self.mode {
            ReadMode::Linebreak => self.parse_linebreak(character),
            ReadMode::Tag => self.parse_tag(character),
            ReadMode::TagClose => self.parse_tag_close(character),
            ReadMode::TagArg => self.parse_tag_arg(character, false),
            ReadMode::TagArgQuote => self.parse_tag_arg(character, true),
            ReadMode::Text => self.parse_text(character),
            ReadMode::Url(explicit) => self.parse_url(character, explicit),
        }
    }

    /// Interprets char as plain text input, expecting new tokens.
    fn parse_text(&mut self, character: char)
        ensures
            final(self)@ == lex_text(old(self)@, character),
    {
        if character == '[' {
            self.commit_token();
            self.mode = ReadMode::Tag;
            self.current_token = Token::empty_tag();
        } else if character == '\r' {
        } else if character == '\n' {
            self.commit_token();
            self.mode = ReadMode::Linebreak;
        } else if character == '>' || character == '<' || character == '&' || character == '"' || character == '\'' {
            let s = Self::sanitize(character);
            self.append_text(s);
            if character == '<' {
                self.commit_token();
                self.mode = ReadMode::Url(true);
            }
        } else {
            let cur = self.take_token();
            match cur {
                Token::Text(mut t) => {
                    let ghost t0 = t@;
                    push_char(&mut t, character);
                    assert(t@ =~= t0 + seq![character]);
                    self.current_token = Token::Text(t);
                },
                _ => {
                    let mut t = String::new();
                    push_char(&mut t, character);
                    assert(t@ =~= seq![character]);
                    self.current_token = Token::Text(t);
                },
            }
        }
        assert(self@ =~= lex_text(old(self)@, character));
    }

    /// Parses new lines and discards whitespace until next token.
    fn parse_linebreak(&mut self, character: char)
        ensures
            final(self)@ == lex_linebreak(old(self)@, character),
    {
        if character == '\t' || character == '\r' || character == ' ' {
        } else {
            self.insert_token(Token::Linebreak);
            self.mode = ReadMode::Text;
            self.parse_text(character);
        }
    }

    fn parse_tag(&mut self, character: char)
        ensures
            final(self)@ == lex_tag(old(self)@, character),
    {
        if character == ']' {
            self.commit_token();
            self.mode = ReadMode::Text;
        } else if character == '/' {
            if self.current_token.is_empty() {
                self.mode = ReadMode::TagClose;
                self.current_token = Token::empty_tag_close();
            } else {
                self.reset_parse_to_text(character);
            }
        } else if character == ' ' || character == '=' {
            if !self.current_token.is_empty() {
                let cur = self.take_token();
                match cur {
                    Token::Tag(tag, _) => {
                        let mut a = String::new();
                        push_char(&mut a, character);
                        self.current_token = Token::Tag(tag, Some(a));
                        self.mode = ReadMode::TagArg;
                    },
                    other => {
                        self.current_token = other;
                    },
                }
            } else {
                self.reset_parse_to_text(character);
            }
        } else if character == '\n' || character == '\r' {
            self.reset_parse_to_text(character);
        } else {
            let cur = self.take_token();
            match cur {
                Token::Tag(mut tag, arg) => {
                    push_char(&mut tag, character);
                    self.current_token = Token::Tag(tag, arg);
                },
                _ => {
                    let mut t = String::new();
                    push_char(&mut t, character);
                    self.current_token = Token::Tag(t, None);
                },
            }
        }
        assert(self@ =~= lex_tag(old(self)@, character));
    }

    /// Parse arguments in a tag.
    /// Arguments are any text after the tag name, before the ].
    fn parse_tag_arg(&mut self, character: char, literal: bool)
        ensures
            final(self)@ == lex_tag_arg(old(self)@, character, literal),
    {
        if character == ']' && !literal {
            self.commit_token();
            self.mode = ReadMode::Text;
            return;
        } else if character == '[' && !literal {
            self.reset_parse_to_text(character);
            return;
        } else if character == '\n' || character == '\r' {
            self.reset_parse_to_text(character);
            return;
        } else if character == '"' {
            self.mode = if literal { ReadMode::TagArg } else { ReadMode::TagArgQuote };
        }
        let cur = self.take_token();
        match cur {
            Token::Tag(tag, arg) => match arg {
                Some(mut a) => {
                    push_char(&mut a, character);
                    self.current_token = Token::Tag(tag, Some(a));
                },
                None => {
                    let mut a = String::new();
                    push_char(&mut a, character);
                    self.current_token = Token::Tag(tag, Some(a));
                },
            },
            other => {
                self.current_token = other;
            },
        }
        assert(self@ =~= lex_tag_arg(old(self)@, character, literal));
    }

    fn parse_tag_close(&mut self, character: char)
        ensures
            final(self)@ == lex_tag_close(old(self)@, character),
    {
        if character == ']' {
            self.commit_token();
            self.mode = ReadMode::Text;
        } else if ascii_letter(character) {
            let cur = self.take_token();
            match cur {
                Token::TagClose(mut tag) => {
                    push_char(&mut tag, character);
                    self.current_token = Token::TagClose(tag);
                },
                _ => {
                    let mut t = String::new();
                    push_char(&mut t, character);
                    self.current_token = Token::TagClose(t);
                },
            }
        } else {
            self.reset_parse_to_text(character);
        }
        assert(self@ =~= lex_tag_close(old(self)@, character));
    }

    /// Accepts a character expecting to build a URL.
    /// `explicit` is set when the URL is to be encapsulated in an <> like email.
    fn parse_url(&mut self, character: char, explicit: bool)
        ensures
            final(self)@ == lex_url(old(self)@, character, explicit),
    {
        if character == '\n' {
            self.commit_token();
            self.mode = ReadMode::Text;
            self.parse_linebreak(character);
        } else if character == '>' || (character == ' ' && !explicit) {
            self.commit_token();
            self.mode = ReadMode::Text;
            self.parse_text(character);
        } else {
            let cur = self.take_token();
            match cur {
                Token::Url(mut url) => {
                    push_char(&mut url, character);
                    self.current_token = Token::Url(url);
                },
                _ => {
                    let mut t = String::new();
                    push_char(&mut t, character);
                    self.current_token = Token::Url(t);
                },
            }
            assert(self@ =~= lex_url(old(self)@, character, explicit));
        }
    }

    /// Aborts the current ReadMode to Text and converts current token to Text.
    /// Supplied char is what choked the parser.
    fn reset_parse_to_text(&mut self, character: char)
        ensures
            final(self)@ == lex_reset(old(self)@, character),
    {
        let cur = self.take_token();
        let text: String = match cur {
            Token::Text(content) => content,
            Token::Tag(tag, arg) => {
                let mut s = String::new();
                push_str(&mut s, "[");
                proof { reveal_strlit("["); }
                push_str(&mut s, tag.as_str());
                assert(s@ =~= seq!['['] + tag@);
                match arg {
                    Some(arg) => {
                        push_str(&mut s, arg.as_str());
                    },
                    None => {},
                }
                s
            },
            Token::TagClose(tag) => {
                let mut s = String::new();
                push_str(&mut s, "[/");
                proof { reveal_strlit("[/"); }
                push_str(&mut s, tag.as_str());
                assert(s@ =~= seq!['[', '/'] + tag@);
                s
            },
            other => other.to_inner_string(),
        };
        self.mode = ReadMode::Text;
        self.current_token = Token::Text(text);
        assert(self@ =~= LexState { mode: ReadMode::Text, cur: TokenV::Text(text@), tokens: old(self)@.tokens });
        self.parse_text(character);
    }

    /// Sanitizes a char for HTML.
    fn sanitize(character: char) -> (s: &'static str)
        requires
            is_html_special(character),
        ensures
            s@ == escape_char(character),
    {
        proof {
            reveal_strlit("&lt;");
            reveal_strlit("&gt;");
            reveal_strlit("&amp;");
            reveal_strlit("&quot;");
            reveal_strlit("&#x27;");
        }
        if character == '<' {
            "&lt;"
        } else if character == '>' {
            "&gt;"
        } else if character == '&' {
            "&amp;"
        } else if character == '"' {
            "&quot;"
        } else {
            "&#x27;"
        }
    }
}

} // verus!

verus! {

/// Plain text: no tag opener, line ending, carriage return or `<`.
pub open spec fn is_plain_text(s: Seq<char>) -> bool {
    forall|k: int| 0 <= k < s.len() ==> {
        let c = #[trigger] s[k];
        c != '[' && c != '\r' && c != '\n' && c != '<'
    }
}

/// Lexing plain text builds a single text token of the text escaped.
proof fn lemma_plain_run(s: Seq<char>)
    requires
        is_plain_text(s),
    ensures
        lex_run(lex_initial(), s) == (LexState {
            mode: ReadMode::Text,
            cur: if s.len() == 0 { TokenV::Null } else { TokenV::Text(escape_html(s)) },
            tokens: Seq::empty(),
        }),
    decreases s.len(),
{
    if s.len() > 0 {
        let p = s.drop_last();
        assert(is_plain_text(p)) by {
            assert forall|k: int| 0 <= k < p.len() implies ({
                let c = #[trigger] p[k];
                c != '[' && c != '\r' && c != '\n' && c != '<'
            }) by {
                assert(p[k] == s[k]);
            }
        }
        lemma_plain_run(p);
        let c = s.last();
        assert(s[s.len() - 1] == c);
        if p.len() == 0 {
            assert(escape_html(p) == Seq::<char>::empty());
            assert(escape_html(s) == escape_html(p) + escape_char(c));
            assert(escape_html(s) =~= escape_char(c));
        }
    }
}

/// Text without tags, line endings or `<` lexes to one text token (none when
/// empty) that holds no markup character and shows, unescaped, exactly the
/// characters typed: every `&`, `<`, `>`, `"` and `'` of it is escaped.
pub proof fn lemma_plain_text_shows_as_typed(s: Seq<char>)
    requires
        is_plain_text(s),
    ensures
        s.len() == 0 ==> lex(s) == Seq::<TokenV>::empty(),
        s.len() > 0 ==> lex(s) == seq![TokenV::Text(escape_html(s))],
        html_unescape(escape_html(s)) == s,
        !has_markup_char(escape_html(s)),
{
    lemma_plain_run(s);
    lemma_unescape_sanitized(s);
    lemma_escape_html_no_markup(s);
    if s.len() > 0 {
        assert(Seq::<TokenV>::empty().push(TokenV::Text(escape_html(s))) =~= seq![TokenV::Text(escape_html(s))]);
    }
}

} // verus!
