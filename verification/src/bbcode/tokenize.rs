//! Splits BbCode text into tokens that keep slices of the text.
//!
//! At each position the first of these readings that applies gives the next
//! token: a line ending; a closing tag `[/name]`; an opening tag `[...]`; a URL
//! starting with `http`; a run of text; a run of text that begins with `[`.
//! Reading stops where none applies.
use super::token::{Token, TokenV};
use crate::text::{occurs_at, occurs_at_exec, to_chars};
use crate::weburl::{parse_url, url_parse};
use vstd::prelude::*;
use vstd::string::StrSliceExecFns;

verus! {

/// The classes of characters the tokenizer reads runs of.
#[derive(PartialEq, Eq, Structural, Clone, Copy)]
pub enum CharClass {
    /// ASCII letters: tag names.
    Letter,
    /// Anything but `\r`, `\n`, `[` and `]`: the inside of a tag.
    TagChar,
    /// Anything but space, `\r`, `\n`, `[`, `>` and `,`: a URL.
    UrlChar,
    /// Anything but `\r`, `\n` and `[`: plain text.
    TextChar,
    /// A carriage return.
    CarriageReturn,
}

pub open spec fn in_class(cls: CharClass, c: char) -> bool {
    match cls {
        CharClass::Letter => ('a' <= c && c <= 'z') || ('A' <= c && c <= 'Z'),
        CharClass::TagChar => !(c == '\r' || c == '\n' || c == '[' || c == ']'),
        CharClass::UrlChar => !(c == ' ' || c == '\r' || c == '\n' || c == '[' || c == '>' || c == ','),
        CharClass::TextChar => !(c == '\r' || c == '\n' || c == '['),
        CharClass::CarriageReturn => c == '\r',
    }
}

/// Number of characters of class `cls` in a row from `i`, before `end`.
pub open spec fn run_len(s: Seq<char>, i: int, end: int, cls: CharClass) -> int
    decreases end - i,
{
    if 0 <= i < end && i < s.len() && in_class(cls, s[i]) {
        1 + run_len(s, i + 1, end, cls)
    } else {
        0
    }
}

/// A line ending at `p`: `\n` or `\r\n`.
pub open spec fn read_linebreak(s: Seq<char>, p: int) -> Option<(int, TokenV)> {
    if p + 1 <= s.len() && s[p] == '\n' {
        Some((1, TokenV::Linebreak(s.subrange(p, p + 1))))
    } else if p + 2 <= s.len() && s[p] == '\r' && s[p + 1] == '\n' {
        Some((2, TokenV::Linebreak(s.subrange(p, p + 2))))
    } else {
        None
    }
}

/// A closing tag at `p`: `[/`, one or more letters, `]`.
pub open spec fn read_tag_close(s: Seq<char>, p: int) -> Option<(int, TokenV)> {
    let l = run_len(s, p + 2, s.len() as int, CharClass::Letter);
    if p + 2 <= s.len() && s[p] == '[' && s[p + 1] == '/' && l >= 1 && p + 2 + l < s.len() && s[p + 2 + l] == ']' {
        Some((3 + l, TokenV::TagClose(s.subrange(p, p + 3 + l), s.subrange(p + 2, p + 2 + l))))
    } else {
        None
    }
}

/// An opening tag at `p`: `[`, one or more characters of a tag, `]`. When the
/// inside starts with letters, they are the name and the rest, if any, the
/// argument; otherwise the whole is text.
pub open spec fn read_tag_open(s: Seq<char>, p: int) -> Option<(int, TokenV)> {
    let m = run_len(s, p + 1, s.len() as int, CharClass::TagChar);
    if p + 1 <= s.len() && s[p] == '[' && m >= 1 && p + 1 + m < s.len() && s[p + 1 + m] == ']' {
        let l = run_len(s, p + 1, p + 1 + m, CharClass::Letter);
        let raw = s.subrange(p, p + 2 + m);
        Some((2 + m, if l >= 1 {
            TokenV::Tag(raw, s.subrange(p + 1, p + 1 + l),
                if l < m { Some(s.subrange(p + 1 + l, p + 1 + m)) } else { None })
        } else {
            TokenV::Text(raw)
        }))
    } else {
        None
    }
}

/// A URL at `p`: starts with `http` and runs over URL characters; text when it
/// does not parse as a URL.
pub open spec fn read_url(s: Seq<char>, p: int) -> Option<(int, TokenV)> {
    if occurs_at(s, "http"@, p) {
        let u = run_len(s, p, s.len() as int, CharClass::UrlChar);
        let url = s.subrange(p, p + u);
        Some((u, if url_parse(url) is Some { TokenV::Url(url) } else { TokenV::Text(url) }))
    } else {
        None
    }
}

/// The first `http` that starts at or after `i` and ends by `end`.
pub open spec fn first_http(s: Seq<char>, i: int, end: int) -> Option<int>
    decreases end - i,
{
    if i < 0 || i + 4 > end || end > s.len() {
        None
    } else if occurs_at(s, "http"@, i) {
        Some(i)
    } else {
        first_http(s, i + 1, end)
    }
}

/// One step of reading text in `s[a..b]`: up to the first `http` when one starts
/// after `a`; otherwise the text characters from `a`, when there is one.
/// Gives the end of what was read.
pub open spec fn text_step(s: Seq<char>, a: int, b: int) -> Option<int> {
    let r = run_len(s, a, b, CharClass::TextChar);
    let run = if r >= 1 { Some(a + r) } else { None };
    match first_http(s, a, b) {
        Some(k) => if k > a { Some(k) } else { run },
        None => run,
    }
}

/// Reading text again within what was read, until it reads the same.
pub open spec fn shrink(s: Seq<char>, a: int, b: int) -> int
    decreases b - a,
{
    match text_step(s, a, b) {
        Some(e) => if a <= e < b { shrink(s, a, e) } else { b },
        None => b,
    }
}

/// Text at `p`: leading carriage returns, then text read until it reads the same.
pub open spec fn read_text(s: Seq<char>, p: int) -> Option<(int, TokenV)> {
    let g = run_len(s, p, s.len() as int, CharClass::CarriageReturn);
    match text_step(s, p + g, s.len() as int) {
        Some(e) => {
            let b = shrink(s, p + g, e);
            Some((b - p, TokenV::Text(s.subrange(p, b))))
        },
        None => None,
    }
}

/// The characters of a `[` and of the text run that comes with it; the count is
/// that of the run's UTF-8 bytes plus one.
pub open spec fn bracket_count(run: Seq<char>) -> int {
    1 + (vstd::utf8::encode_utf8(run).len() as usize) as int
}

/// Text that takes one `[` at `p`: `[` and the text after it, or text and the `[`
/// after it; as many characters are taken as `bracket_count` gives.
pub open spec fn read_text_literally(s: Seq<char>, p: int) -> Option<(int, TokenV)> {
    if p + 1 <= s.len() && s[p] == '[' {
        let r = run_len(s, p + 1, s.len() as int, CharClass::TextChar);
        let n = bracket_count(s.subrange(p + 1, p + 1 + r));
        if p + n <= s.len() { Some((n, TokenV::Text(s.subrange(p, p + n)))) } else { None }
    } else {
        let r = run_len(s, p, s.len() as int, CharClass::TextChar);
        if p + r < s.len() && s[p + r] == '[' {
            let n = bracket_count(s.subrange(p, p + r));
            if p + n <= s.len() { Some((n, TokenV::Text(s.subrange(p, p + n)))) } else { None }
        } else {
            None
        }
    }
}

/// The next token at `p` and how many characters it takes: the first reading
/// that applies, in order of priority.
pub open spec fn read_token(s: Seq<char>, p: int) -> Option<(int, TokenV)> {
    if read_linebreak(s, p) is Some {
        read_linebreak(s, p)
    } else if read_tag_close(s, p) is Some {
        read_tag_close(s, p)
    } else if read_tag_open(s, p) is Some {
        read_tag_open(s, p)
    } else if read_url(s, p) is Some {
        read_url(s, p)
    } else if read_text(s, p) is Some {
        read_text(s, p)
    } else {
        read_text_literally(s, p)
    }
}

/// Tokens read from `p` on, and where reading stopped.
pub open spec fn tokens_from(s: Seq<char>, p: int) -> (int, Seq<TokenV>)
    decreases s.len() - p,
{
    match read_token(s, p) {
        Some((n, t)) => if 0 < n && p + n <= s.len() {
            let (stop, ts) = tokens_from(s, p + n);
            (stop, seq![t] + ts)
        } else {
            (p, Seq::empty())
        },
        None => (p, Seq::empty()),
    }
}

/// The values of a list of tokens.
pub open spec fn tokens_view<'a>(v: Seq<Token<'a>>) -> Seq<TokenV> {
    v.map_values(|t: Token<'a>| t@)
}

/// A run never reaches past `end` or the sequence.
proof fn lemma_run_len_bounds(s: Seq<char>, i: int, end: int, cls: CharClass)
    ensures
        0 <= run_len(s, i, end, cls),
        0 <= i && i < end && i < s.len() ==> i + run_len(s, i, end, cls) <= end && i + run_len(s, i, end, cls) <= s.len(),
        forall|k: int| i <= k < i + run_len(s, i, end, cls) ==> in_class(cls, #[trigger] s[k]),
    decreases end - i,
{
    if 0 <= i < end && i < s.len() && in_class(cls, s[i]) {
        lemma_run_len_bounds(s, i + 1, end, cls);
    }
}

/// The raw text a token value was read from.
pub open spec fn raw_of(t: TokenV) -> Seq<char> {
    match t {
        TokenV::Null => Seq::empty(),
        TokenV::Linebreak(raw) => raw,
        TokenV::Tag(raw, _, _) => raw,
        TokenV::TagClose(raw, _) => raw,
        TokenV::Text(text) => text,
        TokenV::Url(url) => url,
    }
}

/// The raw texts of tokens, one after another.
pub open spec fn raws(ts: Seq<TokenV>) -> Seq<char>
    decreases ts.len(),
{
    if ts.len() == 0 {
        Seq::empty()
    } else {
        raw_of(ts[0]) + raws(ts.skip(1))
    }
}

/// A step of reading text ends after where it starts and within its window.
proof fn lemma_text_step_bounds(s: Seq<char>, a: int, b: int)
    requires
        0 <= a <= b <= s.len(),
    ensures
        text_step(s, a, b) matches Some(e) ==> a < e <= b,
{
    lemma_first_http_bounds(s, a, b);
    lemma_run_len_bounds(s, a, b, CharClass::TextChar);
}

/// Reading text again stays within what was first read.
proof fn lemma_shrink_bounds(s: Seq<char>, a: int, b: int)
    requires
        0 <= a < b <= s.len(),
    ensures
        a < shrink(s, a, b) <= b,
    decreases b - a,
{
    lemma_text_step_bounds(s, a, b);
    match text_step(s, a, b) {
        Some(e) => if a <= e < b {
            lemma_shrink_bounds(s, a, e);
        },
        None => {},
    }
}

/// A token takes at least one character, and its raw text is the characters it took.
proof fn lemma_read_token_raw(s: Seq<char>, p: int)
    requires
        0 <= p <= s.len(),
    ensures
        read_token(s, p) matches Some((n, t)) ==> 0 < n && p + n <= s.len() && raw_of(t) == s.subrange(p, p + n),
{
    reveal_strlit("http");
    lemma_run_len_bounds(s, p + 2, s.len() as int, CharClass::Letter);
    lemma_run_len_bounds(s, p + 1, s.len() as int, CharClass::TagChar);
    lemma_run_len_bounds(s, p, s.len() as int, CharClass::UrlChar);
    lemma_run_len_bounds(s, p, s.len() as int, CharClass::CarriageReturn);
    let g = run_len(s, p, s.len() as int, CharClass::CarriageReturn);
    lemma_text_step_bounds(s, p + g, s.len() as int);
    if let Some(e) = text_step(s, p + g, s.len() as int) {
        lemma_shrink_bounds(s, p + g, e);
    }
    lemma_run_len_bounds(s, p + 1, s.len() as int, CharClass::UrlChar);
    if occurs_at(s, "http"@, p) {
        assert(s.subrange(p, p + 4)[0] == 'h');
        assert(s[p] == 'h');
    }
    if let Some((n, t)) = read_linebreak(s, p) {
        assert(0 < n && p + n <= s.len() && raw_of(t) == s.subrange(p, p + n));
    }
    if let Some((n, t)) = read_tag_close(s, p) {
        assert(0 < n && p + n <= s.len() && raw_of(t) == s.subrange(p, p + n));
    }
    if let Some((n, t)) = read_tag_open(s, p) {
        assert(0 < n && p + n <= s.len() && raw_of(t) == s.subrange(p, p + n));
    }
    if let Some((n, t)) = read_url(s, p) {
        assert(0 < n && p + n <= s.len() && raw_of(t) == s.subrange(p, p + n));
    }
    if let Some((n, t)) = read_text(s, p) {
        assert(0 < n && p + n <= s.len() && raw_of(t) == s.subrange(p, p + n));
    }
    if let Some((n, t)) = read_text_literally(s, p) {
        assert(0 < n && p + n <= s.len() && raw_of(t) == s.subrange(p, p + n));
    }
}

/// Reading tokens from `p` stops within the text, and the tokens' raw texts are
/// exactly the characters read.
proof fn lemma_tokens_from_raw(s: Seq<char>, p: int)
    requires
        0 <= p <= s.len(),
    ensures
        p <= tokens_from(s, p).0 <= s.len(),
        raws(tokens_from(s, p).1) == s.subrange(p, tokens_from(s, p).0),
    decreases s.len() - p,
{
    lemma_read_token_raw(s, p);
    match read_token(s, p) {
        Some((n, t)) => if 0 < n && p + n <= s.len() {
            lemma_tokens_from_raw(s, p + n);
            let (stop, ts) = tokens_from(s, p + n);
            let all = seq![t] + ts;
            assert(all[0] == t);
            assert(all.skip(1) =~= ts);
            assert(s.subrange(p, p + n) + s.subrange(p + n, stop) =~= s.subrange(p, stop));
        } else {
            assert(s.subrange(p, p) =~= Seq::<char>::empty());
        },
        None => {
            assert(s.subrange(p, p) =~= Seq::<char>::empty());
        },
    }
}

/// Tokenizing loses no text: the raw texts of the tokens, followed by the
/// unread rest, give back the input.
pub proof fn lemma_tokenize_keeps_text(s: Seq<char>)
    ensures
        tokens_from(s, 0).0 <= s.len(),
        raws(tokens_from(s, 0).1) + s.skip(tokens_from(s, 0).0) == s,
{
    lemma_tokens_from_raw(s, 0);
    assert(s.subrange(0, tokens_from(s, 0).0) + s.skip(tokens_from(s, 0).0) =~= s);
}

fn in_class_exec(cls: CharClass, c: char) -> (b: bool)
    ensures
        b == in_class(cls, c),
{
    match cls {
        CharClass::Letter => ('a' <= c && c <= 'z') || ('A' <= c && c <= 'Z'),
        CharClass::TagChar => !(c == '\r' || c == '\n' || c == '[' || c == ']'),
        CharClass::UrlChar => !(c == ' ' || c == '\r' || c == '\n' || c == '[' || c == '>' || c == ','),
        CharClass::TextChar => !(c == '\r' || c == '\n' || c == '['),
        CharClass::CarriageReturn => c == '\r',
    }
}

/// `run_len` of a slice.
fn run_len_exec(c: &[char], i: usize, end: usize, cls: CharClass) -> (r: usize)
    requires
        i <= end <= c@.len(),
    ensures
        r as int == run_len(c@, i as int, end as int, cls),
        i + r <= end,
{
    let mut j = i;
    while j < end && in_class_exec(cls, c[j])
        invariant
            i <= j <= end,
            end <= c@.len(),
            run_len(c@, i as int, end as int, cls) == (j - i) + run_len(c@, j as int, end as int, cls),
        decreases end - j,
    {
        j = j + 1;
    }
    j - i
}

/// The first `http` in `c[i..end)`.
fn first_http_exec(c: &[char], http: &[char], i: usize, end: usize) -> (r: Option<usize>)
    requires
        http@ == "http"@,
        i <= end <= c@.len(),
    ensures
        match r {
            Some(k) => first_http(c@, i as int, end as int) == Some(k as int),
            None => first_http(c@, i as int, end as int) is None,
        },
{
    proof { reveal_strlit("http"); }
    let mut j = i;
    while end >= 4 && j <= end - 4
        invariant
            i <= j,
            end <= c@.len(),
            http@ == "http"@,
            http@.len() == 4,
            first_http(c@, i as int, end as int) == first_http(c@, j as int, end as int),
        decreases end - j,
    {
        if occurs_at_exec(c, http, j) {
            return Some(j);
        }
        j = j + 1;
    }
    None
}

/// `text_step` of a slice.
fn text_step_exec(c: &[char], http: &[char], a: usize, b: usize) -> (r: Option<usize>)
    requires
        http@ == "http"@,
        a <= b <= c@.len(),
    ensures
        match r {
            Some(e) => text_step(c@, a as int, b as int) == Some(e as int) && a < e <= b,
            None => text_step(c@, a as int, b as int) is None,
        },
{
    proof { lemma_first_http_bounds(c@, a as int, b as int); }
    let r = run_len_exec(c, a, b, CharClass::TextChar);
    let run = if r >= 1 { Some(a + r) } else { None };
    match first_http_exec(c, http, a, b) {
        Some(k) => if k > a { Some(k) } else { run },
        None => run,
    }
}

/// A found `http` lies within the window.
proof fn lemma_first_http_bounds(s: Seq<char>, i: int, end: int)
    ensures
        first_http(s, i, end) matches Some(k) ==> i <= k && k + 4 <= end,
    decreases end - i,
{
    if !(i < 0 || i + 4 > end || end > s.len()) && !occurs_at(s, "http"@, i) {
        lemma_first_http_bounds(s, i + 1, end);
    }
}

/// Pure text at `p`, as in `read_text`.
fn text_at<'a>(input: &'a str, c: &[char], http: &[char], p: usize) -> (r: Option<(usize, Token<'a>)>)
    requires
        c@ == input@,
        http@ == "http"@,
        p <= c@.len(),
    ensures
        match r {
            Some((n, t)) => read_text(c@, p as int) == Some((n as int, t@)),
            None => read_text(c@, p as int) is None,
        },
{
    let n = c.len();
    let g = run_len_exec(c, p, n, CharClass::CarriageReturn);
    let a = p + g;
    match text_step_exec(c, http, a, n) {
        Some(e) => {
            let mut b = e;
            loop
                invariant
                    a < b <= n,
                    n == c@.len(),
                    http@ == "http"@,
                    shrink(c@, a as int, b as int) == shrink(c@, a as int, e as int),
                ensures
                    shrink(c@, a as int, b as int) == b,
                decreases b - a,
            {
                match text_step_exec(c, http, a, b) {
                    Some(e2) => {
                        if e2 < b {
                            b = e2;
                        } else {
                            break;
                        }
                    },
                    None => {
                        break;
                    },
                }
            }
            let text = input.substring_char(p, b);
            Some((b - p, Token::Text(text)))
        },
        None => None,
    }
}

/// The next token at `p`, as in `read_token`.
fn token_at<'a>(input: &'a str, c: &[char], http: &[char], p: usize) -> (r: Option<(usize, Token<'a>)>)
    requires
        c@ == input@,
        http@ == "http"@,
        p < c@.len(),
    ensures
        match r {
            Some((n, t)) => read_token(c@, p as int) == Some((n as int, t@)),
            None => read_token(c@, p as int) is None,
        },
{
    let n = c.len();
    // Line ending.
    if c[p] == '\n' {
        return Some((1, Token::Linebreak(input.substring_char(p, p + 1))));
    }
    if n - p >= 2 && c[p] == '\r' && c[p + 1] == '\n' {
        return Some((2, Token::Linebreak(input.substring_char(p, p + 2))));
    }
    // Closing tag.
    if n - p >= 2 && c[p] == '[' && c[p + 1] == '/' {
        let l = run_len_exec(c, p + 2, n, CharClass::Letter);
        if l >= 1 && p + 2 + l < n && c[p + 2 + l] == ']' {
            let raw = input.substring_char(p, p + 3 + l);
            let name = input.substring_char(p + 2, p + 2 + l);
            return Some((3 + l, Token::TagClose(raw, name)));
        }
    }
    // Opening tag.
    if c[p] == '[' {
        let m = run_len_exec(c, p + 1, n, CharClass::TagChar);
        if m >= 1 && p + 1 + m < n && c[p + 1 + m] == ']' {
            let l = run_len_exec(c, p + 1, p + 1 + m, CharClass::Letter);
            let raw = input.substring_char(p, p + 2 + m);
            if l >= 1 {
                let name = input.substring_char(p + 1, p + 1 + l);
                let arg = if l < m { Some(input.substring_char(p + 1 + l, p + 1 + m)) } else { None };
                return Some((2 + m, Token::Tag(raw, name, arg)));
            } else {
                return Some((2 + m, Token::Text(raw)));
            }
        }
    }
    // URL.
    if occurs_at_exec(c, http, p) {
        let u = run_len_exec(c, p, n, CharClass::UrlChar);
        proof { reveal_strlit("http"); lemma_run_len_bounds(c@, p as int, n as int, CharClass::UrlChar); }
        let url = input.substring_char(p, p + u);
        return match parse_url(url) {
            Some(_) => Some((u, Token::Url(url))),
            None => Some((u, Token::Text(url))),
        };
    }
    // Text.
    if let Some(r) = text_at(input, c, http, p) {
        return Some(r);
    }
    // Text with one bracket.
    let (from, to) = if c[p] == '[' {
        let r = run_len_exec(c, p + 1, n, CharClass::TextChar);
        (p + 1, p + 1 + r)
    } else {
        let r = run_len_exec(c, p, n, CharClass::TextChar);
        if !(p + r < n && c[p + r] == '[') {
            return None;
        }
        (p, p + r)
    };
    let run = input.substring_char(from, to);
    match run.len().checked_add(1) {
        Some(count) => {
            if count <= n - p {
                Some((count, Token::Text(input.substring_char(p, p + count))))
            } else {
                None
            }
        },
        None => None,
    }
}

/// Tokenizer accepts string primitive and returns the unread rest and the
/// tokens, in the shape of a parser result; it never fails.
pub fn tokenize<'a>(input: &'a str) -> (r: Result<(&'a str, Vec<Token<'a>>), ()>)
    ensures
        match r {
            Ok((rest, tokens)) => {
                let (stop, ts) = tokens_from(input@, 0);
                &&& rest@ == input@.skip(stop)
                &&& tokens_view(tokens@) == ts
            },
            Err(_) => false,
        },
{
    let c = to_chars(input);
    let http = to_chars("http");
    proof { reveal_strlit("http"); }
    let n = c.len();
    let mut tokens: Vec<Token<'a>> = Vec::new();
    let mut p: usize = 0;
    loop
        invariant
            c@ == input@,
            http@ == "http"@,
            n == c@.len(),
            p <= n,
            tokens_from(input@, 0) == ({
                let (stop, ts) = tokens_from(input@, p as int);
                (stop, tokens_view(tokens@) + ts)
            }),
        ensures
            p <= n,
            tokens_from(input@, p as int) == (p as int, Seq::<TokenV>::empty()),
        decreases n - p,
    {
        if p == n {
            break;
        }
        match token_at(input, c.as_slice(), http.as_slice(), p) {
            Some((len, t)) => {
                if len == 0 || len > n - p {
                    break;
                }
                let ghost old_tokens = tokens@;
                tokens.push(t);
                proof {
                    assert(tokens_view(tokens@) =~= tokens_view(old_tokens).push(t@));
                    let (stop, ts) = tokens_from(input@, p + len);
                    assert(tokens_view(old_tokens) + (seq![t@] + ts) =~= tokens_view(tokens@) + ts);
                }
                p = p + len;
            },
            None => {
                break;
            },
        }
    }
    assert(tokens_view(tokens@) + Seq::<TokenV>::empty() =~= tokens_view(tokens@));
    Ok((input.substring_char(p, n), tokens))
}

} // verus!
