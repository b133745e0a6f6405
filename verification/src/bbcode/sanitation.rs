//! HTML escaping, and a string type that only holds escaped or trusted HTML.
use crate::bbcode::smilie::Smilies;
use crate::text::{
    contains_seq, extend_chars, occurs_at, occurs_at_exec, push_str, string_from_chars, to_chars,
};
use vstd::prelude::*;

verus! {

/// The HTML entity that replaces a character, or the character itself.
pub open spec fn escape_char(c: char) -> Seq<char> {
    if c == '<' {
        seq!['&', 'l', 't', ';']
    } else if c == '>' {
        seq!['&', 'g', 't', ';']
    } else if c == '&' {
        seq!['&', 'a', 'm', 'p', ';']
    } else if c == '"' {
        seq!['&', 'q', 'u', 'o', 't', ';']
    } else if c == '\'' {
        seq!['&', '#', 'x', '2', '7', ';']
    } else {
        seq![c]
    }
}

/// `s` with each of `<`, `>`, `&`, `"` and `'` replaced by its HTML entity.
pub open spec fn escape_html(s: Seq<char>) -> Seq<char>
    decreases s.len(),
{
    if s.len() == 0 {
        Seq::empty()
    } else {
        escape_html(s.drop_last()) + escape_char(s.last())
    }
}

/// A character that would start or end markup or an attribute value.
pub open spec fn is_markup_char(c: char) -> bool {
    c == '<' || c == '>' || c == '"' || c == '\''
}

/// Characters of `s` that would start or end markup or an attribute value.
pub open spec fn has_markup_char(s: Seq<char>) -> bool {
    exists|i: int| 0 <= i < s.len() && is_markup_char(#[trigger] s[i])
}

/// Escaping distributes over concatenation.
pub proof fn lemma_escape_html_concat(a: Seq<char>, b: Seq<char>)
    ensures
        escape_html(a + b) == escape_html(a) + escape_html(b),
    decreases b.len(),
{
    if b.len() == 0 {
        assert(a + b =~= a);
    } else {
        lemma_escape_html_concat(a, b.drop_last());
        assert((a + b).drop_last() =~= a + b.drop_last());
        assert((a + b).last() == b.last());
    }
}

/// Escaped text never holds a character that opens or closes markup or an attribute
/// value: sanitized user input cannot inject HTML.
pub proof fn lemma_escape_html_no_markup(s: Seq<char>)
    ensures
        !has_markup_char(escape_html(s)),
    decreases s.len(),
{
    if s.len() > 0 {
        lemma_escape_html_no_markup(s.drop_last());
        let a = escape_html(s.drop_last());
        let b = escape_char(s.last());
        assert(!has_markup_char(b));
        assert forall|i: int| 0 <= i < (a + b).len() implies !is_markup_char(#[trigger] (a + b)[i]) by {
            if i < a.len() {
                assert((a + b)[i] == a[i]);
            } else {
                assert((a + b)[i] == b[i - a.len()]);
            }
        }
    }
}

/// `s` starts with `p`.
pub open spec fn starts_with(s: Seq<char>, p: Seq<char>) -> bool {
    p.len() <= s.len() && s.take(p.len() as int) == p
}

/// HTML text with the entities that escaping writes turned back into their
/// characters, read left to right.
pub open spec fn html_unescape(s: Seq<char>) -> Seq<char>
    decreases s.len(),
{
    if s.len() == 0 {
        Seq::empty()
    } else if starts_with(s, escape_char('<')) {
        seq!['<'] + html_unescape(s.skip(4))
    } else if starts_with(s, escape_char('>')) {
        seq!['>'] + html_unescape(s.skip(4))
    } else if starts_with(s, escape_char('&')) {
        seq!['&'] + html_unescape(s.skip(5))
    } else if starts_with(s, escape_char('"')) {
        seq!['"'] + html_unescape(s.skip(6))
    } else if starts_with(s, escape_char('\'')) {
        seq!['\''] + html_unescape(s.skip(6))
    } else {
        seq![s[0]] + html_unescape(s.skip(1))
    }
}

/// Unescaping an escaped character and what follows gives the character back.
proof fn lemma_unescape_char(c: char, rest: Seq<char>)
    ensures
        html_unescape(escape_char(c) + rest) == seq![c] + html_unescape(rest),
{
    let e = escape_char(c);
    let s = e + rest;
    assert(s.take(e.len() as int) =~= e);
    assert(s.skip(e.len() as int) =~= rest);
    if c != '<' && c != '>' && c != '&' && c != '"' && c != '\'' {
        assert(s[0] == c);
        assert(!starts_with(s, escape_char('<')));
        assert(!starts_with(s, escape_char('>')));
        assert(!starts_with(s, escape_char('&')));
        assert(!starts_with(s, escape_char('"')));
        assert(!starts_with(s, escape_char('\'')));
    } else {
        assert(s.take(4)[1] == s[1]);
        assert(s.take(4)[2] == s[2]);
        if c == '&' {
            assert(!starts_with(s, escape_char('<')));
            assert(!starts_with(s, escape_char('>')));
        } else if c == '"' || c == '\'' {
            assert(!starts_with(s, escape_char('<')));
            assert(!starts_with(s, escape_char('>')));
            assert(s.take(5)[1] == s[1]);
            assert(!starts_with(s, escape_char('&')));
            if c == '\'' {
                assert(s.take(6)[1] == s[1]);
                assert(!starts_with(s, escape_char('"')));
            }
        } else if c == '>' {
            assert(!starts_with(s, escape_char('<')));
        }
    }
}

/// Sanitizing loses nothing: unescaping the escaped text gives the input back.
pub proof fn lemma_unescape_sanitized(s: Seq<char>)
    ensures
        html_unescape(escape_html(s)) == s,
    decreases s.len(),
{
    if s.len() > 0 {
        let rest = s.skip(1);
        lemma_unescape_sanitized(rest);
        lemma_escape_html_concat(seq![s[0]], rest);
        assert(seq![s[0]] + rest =~= s);
        assert(seq![s[0]].drop_last() =~= Seq::<char>::empty());
        assert(escape_html(Seq::<char>::empty()) == Seq::<char>::empty());
        assert(escape_html(seq![s[0]]) == escape_html(Seq::<char>::empty()) + escape_char(s[0]));
        assert(escape_html(seq![s[0]]) =~= escape_char(s[0]));
        lemma_unescape_char(s[0], escape_html(rest));
    }
}

/// With no smilies, replacing smilies only sanitizes: the text is escaped and
/// nothing else changes.
pub proof fn lemma_no_smilies_is_sanitize(s: Seq<char>)
    ensures
        replace_smilies(s, Seq::empty()) == escape_html(s),
{
    let x = SmiliePieceV::Text(escape_html(s));
    assert(mark_all(seq![x], Seq::empty()) == seq![x]);
    lemma_pieces_small(x, x);
}

/// Escapes `<`, `>`, `&`, `"` and `'` for HTML.
pub fn sanitize(input: &str) -> (out: String)
    ensures
        out@ == escape_html(input@),
{
    let chars = to_chars(input);
    let out = escape_chars(chars.as_slice());
    string_from_chars(out.as_slice())
}

/// Escapes a character sequence for HTML.
pub fn escape_chars(input: &[char]) -> (out: Vec<char>)
    ensures
        out@ == escape_html(input@),
{
    let mut out: Vec<char> = Vec::new();
    let mut i: usize = 0;
    while i < input.len()
        invariant
            i <= input@.len(),
            out@ == escape_html(input@.take(i as int)),
        decreases input@.len() - i,
    {
        let c = input[i];
        if c == '<' {
            out.push('&'); out.push('l'); out.push('t'); out.push(';');
        } else if c == '>' {
            out.push('&'); out.push('g'); out.push('t'); out.push(';');
        } else if c == '&' {
            out.push('&'); out.push('a'); out.push('m'); out.push('p'); out.push(';');
        } else if c == '"' {
            out.push('&'); out.push('q'); out.push('u'); out.push('o'); out.push('t'); out.push(';');
        } else if c == '\'' {
            out.push('&'); out.push('#'); out.push('x'); out.push('2'); out.push('7'); out.push(';');
        } else {
            out.push(c);
        }
        assert(input@.take(i + 1).drop_last() =~= input@.take(i as int));
        i = i + 1;
        assert(out@ =~= escape_html(input@.take(i as int)));
    }
    assert(input@.take(input@.len() as int) =~= input@);
    out
}

/// A string that holds only HTML that is safe to emit: text escaped by `sanitize`,
/// trusted literals, and concatenations of these.
#[derive(Debug)]
pub struct SafeHtml(String);

impl View for SafeHtml {
    type V = Seq<char>;

    closed spec fn view(&self) -> Seq<char> {
        self.0@
    }
}

/// A piece of text during smilie replacement: escaped text, or a smilie found
/// in it, with its code and its replacement.
pub enum SmiliePieceV {
    Text(Seq<char>),
    Smilie(Seq<char>, Seq<char>),
}

/// The pieces of `t` cut at the occurrences of a non-empty `code`, found left
/// to right from index `i` on; the text from `start` on is not cut yet.
pub open spec fn cut_from(t: Seq<char>, code: Seq<char>, rep: Seq<char>, start: int, i: int) -> Seq<SmiliePieceV>
    decreases t.len() - i,
{
    if code.len() == 0 || start < 0 || i < start || i > t.len() {
        seq![SmiliePieceV::Text(t.subrange(start, t.len() as int))]
    } else if occurs_at(t, code, i) {
        seq![SmiliePieceV::Text(t.subrange(start, i)), SmiliePieceV::Smilie(code, rep)]
            + cut_from(t, code, rep, i + code.len(), i + code.len())
    } else if i < t.len() {
        cut_from(t, code, rep, start, i + 1)
    } else {
        seq![SmiliePieceV::Text(t.subrange(start, t.len() as int))]
    }
}

/// The pieces of `t` for the empty code: it occurs before every character and
/// at the end (as `str::replace` finds it).
pub open spec fn cut_empty(t: Seq<char>, rep: Seq<char>) -> Seq<SmiliePieceV>
    decreases t.len(),
{
    if t.len() == 0 {
        seq![SmiliePieceV::Smilie(Seq::empty(), rep)]
    } else {
        seq![SmiliePieceV::Smilie(Seq::empty(), rep), SmiliePieceV::Text(seq![t[0]])] + cut_empty(t.skip(1), rep)
    }
}

/// The pieces of text `t` with every occurrence of `code`, left to right and
/// not overlapping, taken out as a smilie.
pub open spec fn cut(t: Seq<char>, code: Seq<char>, rep: Seq<char>) -> Seq<SmiliePieceV> {
    if code.len() == 0 {
        cut_empty(t, rep)
    } else {
        cut_from(t, code, rep, 0, 0)
    }
}

/// A piece after looking for `code` in it: text is cut, a smilie stays.
pub open spec fn piece_marked(p: SmiliePieceV, code: Seq<char>, rep: Seq<char>) -> Seq<SmiliePieceV> {
    match p {
        SmiliePieceV::Text(t) => cut(t, code, rep),
        SmiliePieceV::Smilie(_, _) => seq![p],
    }
}

/// The pieces after looking for `code` in each text piece.
pub open spec fn mark_code(ps: Seq<SmiliePieceV>, code: Seq<char>, rep: Seq<char>) -> Seq<SmiliePieceV>
    decreases ps.len(),
{
    if ps.len() == 0 {
        Seq::empty()
    } else {
        mark_code(ps.drop_last(), code, rep) + piece_marked(ps.last(), code, rep)
    }
}

/// The pieces after looking for each smilie code in turn, in list order; a
/// code is only looked for in text that no earlier code took.
pub open spec fn mark_all(ps: Seq<SmiliePieceV>, smilies: Seq<(Seq<char>, Seq<char>)>) -> Seq<SmiliePieceV>
    decreases smilies.len(),
{
    if smilies.len() == 0 {
        ps
    } else {
        mark_code(mark_all(ps, smilies.drop_last()), smilies.last().0, smilies.last().1)
    }
}

/// The pieces of sanitized text `s` once the smilies are found.
pub open spec fn smilie_pieces(s: Seq<char>, smilies: Seq<(Seq<char>, Seq<char>)>) -> Seq<SmiliePieceV> {
    mark_all(seq![SmiliePieceV::Text(escape_html(s))], smilies)
}

/// The HTML of a piece: text as it is, a smilie as its replacement.
pub open spec fn piece_html(p: SmiliePieceV) -> Seq<char> {
    match p {
        SmiliePieceV::Text(t) => t,
        SmiliePieceV::Smilie(_, r) => r,
    }
}

/// The text of a piece: a smilie as the code it was found as.
pub open spec fn piece_text(p: SmiliePieceV) -> Seq<char> {
    match p {
        SmiliePieceV::Text(t) => t,
        SmiliePieceV::Smilie(c, _) => c,
    }
}

/// The HTML of the pieces: text as it is, each smilie as its replacement.
pub open spec fn pieces_html(ps: Seq<SmiliePieceV>) -> Seq<char>
    decreases ps.len(),
{
    if ps.len() == 0 {
        Seq::empty()
    } else {
        pieces_html(ps.drop_last()) + piece_html(ps.last())
    }
}

/// The text of the pieces: each smilie as the code it was found as.
pub open spec fn pieces_text(ps: Seq<SmiliePieceV>) -> Seq<char>
    decreases ps.len(),
{
    if ps.len() == 0 {
        Seq::empty()
    } else {
        pieces_text(ps.drop_last()) + piece_text(ps.last())
    }
}

/// Sanitized text with every smilie code replaced by its replacement.
pub open spec fn replace_smilies(s: Seq<char>, smilies: Seq<(Seq<char>, Seq<char>)>) -> Seq<char> {
    pieces_html(smilie_pieces(s, smilies))
}

/// The text of pieces put one after the other.
proof fn lemma_pieces_text_concat(a: Seq<SmiliePieceV>, b: Seq<SmiliePieceV>)
    ensures
        pieces_text(a + b) == pieces_text(a) + pieces_text(b),
    decreases b.len(),
{
    if b.len() == 0 {
        assert(a + b =~= a);
    } else {
        lemma_pieces_text_concat(a, b.drop_last());
        assert((a + b).drop_last() =~= a + b.drop_last());
    }
}

/// The HTML of pieces put one after the other.
proof fn lemma_pieces_html_concat(a: Seq<SmiliePieceV>, b: Seq<SmiliePieceV>)
    ensures
        pieces_html(a + b) == pieces_html(a) + pieces_html(b),
    decreases b.len(),
{
    if b.len() == 0 {
        assert(a + b =~= a);
    } else {
        lemma_pieces_html_concat(a, b.drop_last());
        assert((a + b).drop_last() =~= a + b.drop_last());
    }
}

/// The text and HTML of one piece, and of two.
proof fn lemma_pieces_small(x: SmiliePieceV, y: SmiliePieceV)
    ensures
        pieces_text(seq![x]) == piece_text(x),
        pieces_html(seq![x]) == piece_html(x),
        pieces_text(seq![x, y]) == piece_text(x) + piece_text(y),
        pieces_html(seq![x, y]) == piece_html(x) + piece_html(y),
{
    assert(seq![x].drop_last() =~= Seq::<SmiliePieceV>::empty());
    assert(seq![x, y].drop_last() =~= seq![x]);
    assert(pieces_text(Seq::<SmiliePieceV>::empty()) == Seq::<char>::empty());
    assert(pieces_html(Seq::<SmiliePieceV>::empty()) == Seq::<char>::empty());
    assert(pieces_text(seq![x]) =~= piece_text(x));
    assert(pieces_html(seq![x]) =~= piece_html(x));
}

proof fn lemma_cut_from_text(t: Seq<char>, code: Seq<char>, rep: Seq<char>, start: int, i: int)
    requires
        code.len() > 0,
        0 <= start <= i <= t.len(),
    ensures
        pieces_text(cut_from(t, code, rep, start, i)) == t.subrange(start, t.len() as int),
    decreases t.len() - i,
{
    let a = SmiliePieceV::Text(t.subrange(start, i));
    let b = SmiliePieceV::Smilie(code, rep);
    lemma_pieces_small(a, b);
    lemma_pieces_small(SmiliePieceV::Text(t.subrange(start, t.len() as int)), b);
    if occurs_at(t, code, i) {
        let rest = cut_from(t, code, rep, i + code.len(), i + code.len());
        lemma_cut_from_text(t, code, rep, i + code.len(), i + code.len());
        lemma_pieces_text_concat(seq![a, b], rest);
        assert(t.subrange(start, t.len() as int) =~= t.subrange(start, i) + code
            + t.subrange(i + code.len(), t.len() as int));
    } else if i < t.len() {
        lemma_cut_from_text(t, code, rep, start, i + 1);
    }
}

proof fn lemma_cut_empty_text(t: Seq<char>, rep: Seq<char>)
    ensures
        pieces_text(cut_empty(t, rep)) == t,
    decreases t.len(),
{
    let e = SmiliePieceV::Smilie(Seq::empty(), rep);
    if t.len() == 0 {
        lemma_pieces_small(e, e);
    } else {
        let x = SmiliePieceV::Text(seq![t[0]]);
        lemma_pieces_small(e, x);
        lemma_cut_empty_text(t.skip(1), rep);
        lemma_pieces_text_concat(seq![e, x], cut_empty(t.skip(1), rep));
        assert(t =~= Seq::<char>::empty() + seq![t[0]] + t.skip(1));
    }
}

proof fn lemma_mark_code_text(ps: Seq<SmiliePieceV>, code: Seq<char>, rep: Seq<char>)
    ensures
        pieces_text(mark_code(ps, code, rep)) == pieces_text(ps),
    decreases ps.len(),
{
    if ps.len() > 0 {
        lemma_mark_code_text(ps.drop_last(), code, rep);
        let last = piece_marked(ps.last(), code, rep);
        lemma_pieces_text_concat(mark_code(ps.drop_last(), code, rep), last);
        match ps.last() {
            SmiliePieceV::Text(t) => {
                if code.len() == 0 {
                    lemma_cut_empty_text(t, rep);
                } else {
                    lemma_cut_from_text(t, code, rep, 0, 0);
                    assert(t.subrange(0, t.len() as int) =~= t);
                }
            },
            SmiliePieceV::Smilie(_, _) => {
                lemma_pieces_small(ps.last(), ps.last());
            },
        }
    }
}

proof fn lemma_mark_all_text(ps: Seq<SmiliePieceV>, smilies: Seq<(Seq<char>, Seq<char>)>)
    ensures
        pieces_text(mark_all(ps, smilies)) == pieces_text(ps),
    decreases smilies.len(),
{
    if smilies.len() > 0 {
        lemma_mark_all_text(ps, smilies.drop_last());
        lemma_mark_code_text(mark_all(ps, smilies.drop_last()), smilies.last().0, smilies.last().1);
    }
}

/// Smilie replacement changes nothing but smilie codes: putting back the code
/// of each smilie found gives the input, escaped.
pub proof fn lemma_smilies_only_replace_codes(s: Seq<char>, smilies: Seq<(Seq<char>, Seq<char>)>)
    ensures
        pieces_text(smilie_pieces(s, smilies)) == escape_html(s),
{
    let x = SmiliePieceV::Text(escape_html(s));
    lemma_mark_all_text(seq![x], smilies);
    lemma_pieces_small(x, x);
}

/// A piece of text during smilie replacement.
enum SmiliePiece {
    Text(Vec<char>),
    Smilie(Vec<char>, Vec<char>),
}

impl View for SmiliePiece {
    type V = SmiliePieceV;

    closed spec fn view(&self) -> SmiliePieceV {
        match self {
            SmiliePiece::Text(t) => SmiliePieceV::Text(t@),
            SmiliePiece::Smilie(c, r) => SmiliePieceV::Smilie(c@, r@),
        }
    }
}

/// The values of a vector of pieces.
spec fn piece_views(v: Seq<SmiliePiece>) -> Seq<SmiliePieceV> {
    v.map_values(|p: SmiliePiece| p@)
}

/// Pushing a piece adds its value to the values.
proof fn lemma_piece_views_push(v: Seq<SmiliePiece>, x: SmiliePiece)
    ensures
        piece_views(v.push(x)) == piece_views(v).push(x@),
{
    assert(piece_views(v.push(x)) =~= piece_views(v).push(x@));
}

/// Appends the pieces of `t` cut at the occurrences of `code` (`cut`).
fn cut_exec(t: &[char], code: &[char], rep: &[char], out: &mut Vec<SmiliePiece>)
    ensures
        piece_views(final(out)@) == piece_views(old(out)@) + cut(t@, code@, rep@),
{
    let ghost base = piece_views(old(out)@);
    if code.len() == 0 {
        let ghost e = SmiliePieceV::Smilie(Seq::empty(), rep@);
        let mut k: usize = 0;
        let ghost mut done: Seq<SmiliePieceV> = Seq::empty();
        assert(t@.skip(0) =~= t@);
        assert(code@ =~= Seq::<char>::empty());
        while k < t.len()
            invariant
                k <= t@.len(),
                code@ == Seq::<char>::empty(),
                e == SmiliePieceV::Smilie(Seq::empty(), rep@),
                cut(t@, code@, rep@) == done + cut_empty(t@.skip(k as int), rep@),
                piece_views(out@) == base + done,
            decreases t@.len() - k,
        {
            let ghost rest = t@.skip(k as int);
            assert(rest.skip(1) =~= t@.skip(k + 1));
            let ghost x = SmiliePieceV::Text(seq![rest[0]]);
            let ghost prev = out@;
            let p1 = SmiliePiece::Smilie(Vec::new(), vstd::slice::slice_to_vec(rep));
            assert(p1@ == e);
            out.push(p1);
            let mut one: Vec<char> = Vec::new();
            one.push(t[k]);
            assert(one@ =~= seq![rest[0]]);
            let p2 = SmiliePiece::Text(one);
            assert(p2@ == x);
            let ghost mid = out@;
            out.push(p2);
            proof {
                lemma_piece_views_push(prev, p1);
                lemma_piece_views_push(mid, p2);
                assert(cut_empty(rest, rep@) == seq![e, x] + cut_empty(rest.skip(1), rep@));
                assert(done + (seq![e, x] + cut_empty(t@.skip(k + 1), rep@)) =~= (done + seq![e, x])
                    + cut_empty(t@.skip(k + 1), rep@));
                done = done + seq![e, x];
                assert(piece_views(out@) =~= base + done);
            }
            k = k + 1;
        }
        let ghost prev = out@;
        let p = SmiliePiece::Smilie(Vec::new(), vstd::slice::slice_to_vec(rep));
        assert(p@ == e);
        out.push(p);
        proof {
            lemma_piece_views_push(prev, p);
            assert(t@.skip(k as int) =~= Seq::<char>::empty());
            assert(cut_empty(t@.skip(k as int), rep@) == seq![e]);
            assert(piece_views(out@) =~= base + cut(t@, code@, rep@));
        }
        return;
    }
    let n = t.len();
    let mut start: usize = 0;
    let mut i: usize = 0;
    let ghost mut done: Seq<SmiliePieceV> = Seq::empty();
    while i < n
        invariant
            n == t@.len(),
            code@.len() > 0,
            start <= i <= n,
            cut(t@, code@, rep@) == done + cut_from(t@, code@, rep@, start as int, i as int),
            piece_views(out@) == base + done,
        decreases n - i,
    {
        if code.len() <= n - i && occurs_at_exec(t, code, i) {
            let ghost x = SmiliePieceV::Text(t@.subrange(start as int, i as int));
            let ghost y = SmiliePieceV::Smilie(code@, rep@);
            let ghost prev = out@;
            let p1 = SmiliePiece::Text(vstd::slice::slice_to_vec(vstd::slice::slice_subrange(t, start, i)));
            assert(p1@ == x);
            out.push(p1);
            let ghost mid = out@;
            let p2 = SmiliePiece::Smilie(vstd::slice::slice_to_vec(code), vstd::slice::slice_to_vec(rep));
            assert(p2@ == y);
            out.push(p2);
            let ghost old_i = i as int;
            i = i + code.len();
            proof {
                lemma_piece_views_push(prev, p1);
                lemma_piece_views_push(mid, p2);
                assert(cut_from(t@, code@, rep@, start as int, old_i) == seq![x, y]
                    + cut_from(t@, code@, rep@, i as int, i as int));
                assert(done + (seq![x, y] + cut_from(t@, code@, rep@, i as int, i as int)) =~= (done + seq![x, y])
                    + cut_from(t@, code@, rep@, i as int, i as int));
                done = done + seq![x, y];
                assert(piece_views(out@) =~= base + done);
            }
            start = i;
        } else {
            assert(!occurs_at(t@, code@, i as int));
            i = i + 1;
        }
    }
    let ghost prev = out@;
    let p = SmiliePiece::Text(vstd::slice::slice_to_vec(vstd::slice::slice_subrange(t, start, n)));
    out.push(p);
    proof {
        lemma_piece_views_push(prev, p);
        assert(!occurs_at(t@, code@, i as int));
        assert(piece_views(out@) =~= base + cut(t@, code@, rep@));
    }
}

/// The pieces after looking for `code` in each text piece (`mark_code`).
fn mark_code_exec(ps: &Vec<SmiliePiece>, code: &[char], rep: &[char]) -> (out: Vec<SmiliePiece>)
    ensures
        piece_views(out@) == mark_code(piece_views(ps@), code@, rep@),
{
    let mut out: Vec<SmiliePiece> = Vec::new();
    let mut j: usize = 0;
    while j < ps.len()
        invariant
            j <= ps@.len(),
            piece_views(out@) == mark_code(piece_views(ps@).take(j as int), code@, rep@),
        decreases ps@.len() - j,
    {
        let ghost before = piece_views(out@);
        assert(piece_views(ps@).take(j + 1).drop_last() =~= piece_views(ps@).take(j as int));
        assert(piece_views(ps@).take(j + 1).last() == ps@[j as int]@);
        match &ps[j] {
            SmiliePiece::Text(t) => {
                cut_exec(t.as_slice(), code, rep, &mut out);
            },
            SmiliePiece::Smilie(c, r) => {
                out.push(SmiliePiece::Smilie(vstd::slice::slice_to_vec(c.as_slice()), vstd::slice::slice_to_vec(r.as_slice())));
                assert(piece_views(out@) =~= before + seq![ps@[j as int]@]);
            },
        }
        j = j + 1;
    }
    assert(piece_views(ps@).take(ps@.len() as int) =~= piece_views(ps@));
    out
}

/// The HTML of the pieces (`pieces_html`).
fn pieces_html_exec(ps: &Vec<SmiliePiece>) -> (out: Vec<char>)
    ensures
        out@ == pieces_html(piece_views(ps@)),
{
    let mut out: Vec<char> = Vec::new();
    let mut j: usize = 0;
    while j < ps.len()
        invariant
            j <= ps@.len(),
            out@ == pieces_html(piece_views(ps@).take(j as int)),
        decreases ps@.len() - j,
    {
        assert(piece_views(ps@).take(j + 1).drop_last() =~= piece_views(ps@).take(j as int));
        assert(piece_views(ps@).take(j + 1).last() == ps@[j as int]@);
        match &ps[j] {
            SmiliePiece::Text(t) => extend_chars(&mut out, t.as_slice()),
            SmiliePiece::Smilie(_, r) => extend_chars(&mut out, r.as_slice()),
        }
        j = j + 1;
    }
    assert(piece_views(ps@).take(ps@.len() as int) =~= piece_views(ps@));
    out
}

impl SafeHtml {
    /// An empty string.
    pub fn new() -> (r: Self)
        ensures
            r@ == Seq::<char>::empty(),
    {
        Self(String::new())
    }

    /// An empty string; `capacity` is only a hint for allocation.
    pub fn with_capacity(capacity: usize) -> (r: Self)
        ensures
            r@ == Seq::<char>::empty(),
    {
        Self(string_with_capacity(capacity))
    }

    /// Trusts a literal as HTML: the caller vouches that it is safe.
    pub fn from_literal(trusted: &'static str) -> (r: Self)
        ensures
            r@ == trusted@,
    {
        Self(trusted.to_owned())
    }

    /// The input with HTML characters escaped.
    pub fn sanitize(input: &str) -> (r: Self)
        ensures
            r@ == escape_html(input@),
    {
        Self(sanitize(input))
    }

    /// The input escaped, with smilie codes replaced in the same step, so that a
    /// replacement is never applied to unescaped text.
    pub fn sanitize_and_replace_smilies(input: &str, smilies: &Smilies) -> (r: Self)
        ensures
            r@ == replace_smilies(input@, smilies@),
    {
        let chars = to_chars(input);
        let escaped = escape_chars(chars.as_slice());
        let mut pieces: Vec<SmiliePiece> = Vec::new();
        pieces.push(SmiliePiece::Text(escaped));
        let n = smilies.count();
        let ghost sm = smilies@;
        let mut i: usize = 0;
        proof {
            assert(sm.take(0) =~= Seq::<(Seq<char>, Seq<char>)>::empty());
            assert(piece_views(pieces@) =~= seq![SmiliePieceV::Text(escape_html(input@))]);
        }
        while i < n
            invariant
                n == sm.len(),
                sm == smilies@,
                i <= n,
                piece_views(pieces@) == mark_all(seq![SmiliePieceV::Text(escape_html(input@))], sm.take(i as int)),
            decreases n - i,
        {
            let (code, replace_with) = smilies.get(i);
            let code_chars = to_chars(code);
            let rep_chars = to_chars(replace_with);
            assert(sm.take(i + 1).drop_last() =~= sm.take(i as int));
            pieces = mark_code_exec(&pieces, code_chars.as_slice(), rep_chars.as_slice());
            i = i + 1;
        }
        assert(sm.take(n as int) =~= sm);
        let html = pieces_html_exec(&pieces);
        Self(string_from_chars(html.as_slice()))
    }

    /// Appends another safe string.
    pub fn push(&mut self, string: &Self)
        ensures
            final(self)@ == old(self)@ + string@,
    {
        push_str(&mut self.0, string.0.as_str());
    }

    /// Appends a trusted literal.
    pub fn push_literal(&mut self, string: &'static str)
        ensures
            final(self)@ == old(self)@ + string@,
    {
        push_str(&mut self.0, string);
    }

    /// Length in bytes of the UTF-8 encoding.
    pub fn len(&self) -> (n: usize)
        ensures
            n == vstd::utf8::encode_utf8(self@).len() as usize,
    {
        self.0.as_str().len()
    }

    /// The underlying string.
    pub fn take(self) -> (s: String)
        ensures
            s@ == self@,
    {
        self.0
    }

    /// The HTML as a string slice.
    pub fn as_ref(&self) -> (s: &str)
        ensures
            s@ == self@,
    {
        self.0.as_str()
    }
}

/// `String::with_capacity`: an empty string; the capacity is unobservable.
#[verifier::external_body]
pub(crate) fn string_with_capacity(capacity: usize) -> (s: String)
    ensures
        s@ == Seq::<char>::empty(),
{
    String::with_capacity(capacity)
}

impl<'a> vstd::std_specs::ops::AddSpecImpl<&'a SafeHtml> for SafeHtml {
    open spec fn obeys_add_spec() -> bool {
        false
    }

    open spec fn add_req(self, rhs: &'a SafeHtml) -> bool {
        true
    }

    /// A string whose text is this text followed by `rhs`'s (what `add`'s
    /// `ensures` states of its result).
    open spec fn add_spec(self, rhs: &'a SafeHtml) -> SafeHtml {
        choose|r: SafeHtml| r@ == self@ + rhs@
    }
}

impl vstd::std_specs::ops::AddSpecImpl<&'static str> for SafeHtml {
    open spec fn obeys_add_spec() -> bool {
        false
    }

    open spec fn add_req(self, rhs: &'static str) -> bool {
        true
    }

    /// A string whose text is this text followed by `rhs` (what `add`'s
    /// `ensures` states of its result).
    open spec fn add_spec(self, rhs: &'static str) -> SafeHtml {
        choose|r: SafeHtml| r@ == self@ + rhs@
    }
}

impl<'a> std::ops::Add<&'a SafeHtml> for SafeHtml {
    type Output = SafeHtml;

    fn add(self, rhs: &'a SafeHtml) -> (r: SafeHtml)
        ensures
            r@ == self@ + rhs@,
    {
        let mut s = self;
        s.push(rhs);
        s
    }
}

impl std::ops::Add<&'static str> for SafeHtml {
    type Output = SafeHtml;

    fn add(self, rhs: &'static str) -> (r: SafeHtml)
        ensures
            r@ == self@ + rhs@,
    {
        let mut s = self;
        s.push_literal(rhs);
        s
    }
}

} // verus!

verus! {

/// No text piece contains `x`.
pub open spec fn text_free(ps: Seq<SmiliePieceV>, x: Seq<char>) -> bool {
    forall|k: int| 0 <= k < ps.len() ==> match #[trigger] ps[k] {
        SmiliePieceV::Text(u) => !contains_seq(u, x),
        SmiliePieceV::Smilie(_, _) => true,
    }
}

proof fn lemma_text_free_concat(a: Seq<SmiliePieceV>, b: Seq<SmiliePieceV>, x: Seq<char>)
    requires
        text_free(a, x),
        text_free(b, x),
    ensures
        text_free(a + b, x),
{
    assert forall|k: int| 0 <= k < (a + b).len() implies match #[trigger] (a + b)[k] {
        SmiliePieceV::Text(u) => !contains_seq(u, x),
        SmiliePieceV::Smilie(_, _) => true,
    } by {
        if k < a.len() {
            assert((a + b)[k] == a[k]);
        } else {
            assert((a + b)[k] == b[k - a.len()]);
        }
    }
}

/// An occurrence inside a part of a text is an occurrence in the text.
proof fn lemma_occurs_in_part(t: Seq<char>, x: Seq<char>, a: int, b: int, q: int)
    requires
        0 <= a <= b <= t.len(),
        occurs_at(t.subrange(a, b), x, q),
    ensures
        occurs_at(t, x, a + q),
{
    assert(t.subrange(a, b).subrange(q, q + x.len()) =~= t.subrange(a + q, a + q + x.len()));
}

/// A part of a text that does not contain `x` does not contain it either.
proof fn lemma_part_free(t: Seq<char>, x: Seq<char>, a: int, b: int)
    requires
        0 <= a <= b <= t.len(),
        !contains_seq(t, x),
    ensures
        !contains_seq(t.subrange(a, b), x),
{
    if contains_seq(t.subrange(a, b), x) {
        let q = choose|q: int| occurs_at(t.subrange(a, b), x, q);
        lemma_occurs_in_part(t, x, a, b, q);
    }
}

/// A part of a text with no occurrence of a non-empty `x` starting inside it
/// does not contain `x`.
proof fn lemma_window_free(t: Seq<char>, x: Seq<char>, a: int, b: int)
    requires
        x.len() > 0,
        0 <= a <= b <= t.len(),
        forall|p: int| a <= p < b ==> !occurs_at(t, x, p),
    ensures
        !contains_seq(t.subrange(a, b), x),
{
    if contains_seq(t.subrange(a, b), x) {
        let q = choose|q: int| occurs_at(t.subrange(a, b), x, q);
        lemma_occurs_in_part(t, x, a, b, q);
        assert(a <= a + q < b);
    }
}

proof fn lemma_cut_from_free(t: Seq<char>, code: Seq<char>, rep: Seq<char>, start: int, i: int, x: Seq<char>)
    requires
        code.len() > 0,
        0 <= start <= i <= t.len(),
        forall|p: int| start <= p < i ==> !occurs_at(t, code, p),
        x == code || !contains_seq(t, x),
    ensures
        text_free(cut_from(t, code, rep, start, i), x),
    decreases t.len() - i,
{
    let whole = seq![SmiliePieceV::Text(t.subrange(start, t.len() as int))];
    if occurs_at(t, code, i) {
        let j = i + code.len();
        let head = seq![SmiliePieceV::Text(t.subrange(start, i)), SmiliePieceV::Smilie(code, rep)];
        if x == code {
            lemma_window_free(t, code, start, i);
        } else {
            lemma_part_free(t, x, start, i);
        }
        assert(text_free(head, x)) by {
            assert forall|k: int| 0 <= k < head.len() implies match #[trigger] head[k] {
                SmiliePieceV::Text(u) => !contains_seq(u, x),
                SmiliePieceV::Smilie(_, _) => true,
            } by {}
        }
        lemma_cut_from_free(t, code, rep, j, j, x);
        lemma_text_free_concat(head, cut_from(t, code, rep, j, j), x);
    } else if i < t.len() {
        lemma_cut_from_free(t, code, rep, start, i + 1, x);
    } else {
        if x == code {
            lemma_window_free(t, code, start, t.len() as int);
        } else {
            lemma_part_free(t, x, start, t.len() as int);
        }
        assert(text_free(whole, x)) by {
            assert forall|k: int| 0 <= k < whole.len() implies match #[trigger] whole[k] {
                SmiliePieceV::Text(u) => !contains_seq(u, x),
                SmiliePieceV::Smilie(_, _) => true,
            } by {}
        }
    }
}

proof fn lemma_cut_empty_free(t: Seq<char>, rep: Seq<char>, x: Seq<char>)
    requires
        !contains_seq(t, x),
    ensures
        text_free(cut_empty(t, rep), x),
    decreases t.len(),
{
    let e = SmiliePieceV::Smilie(Seq::empty(), rep);
    if t.len() == 0 {
        assert(text_free(seq![e], x)) by {
            assert forall|k: int| 0 <= k < seq![e].len() implies match #[trigger] seq![e][k] {
                SmiliePieceV::Text(u) => !contains_seq(u, x),
                SmiliePieceV::Smilie(_, _) => true,
            } by {}
        }
    } else {
        lemma_part_free(t, x, 0, 1);
        assert(t.subrange(0, 1) =~= seq![t[0]]);
        lemma_part_free(t, x, 1, t.len() as int);
        assert(t.subrange(1, t.len() as int) =~= t.skip(1));
        lemma_cut_empty_free(t.skip(1), rep, x);
        let head = seq![e, SmiliePieceV::Text(seq![t[0]])];
        assert(text_free(head, x)) by {
            assert forall|k: int| 0 <= k < head.len() implies match #[trigger] head[k] {
                SmiliePieceV::Text(u) => !contains_seq(u, x),
                SmiliePieceV::Smilie(_, _) => true,
            } by {}
        }
        lemma_text_free_concat(head, cut_empty(t.skip(1), rep), x);
    }
}

proof fn lemma_mark_code_free(ps: Seq<SmiliePieceV>, code: Seq<char>, rep: Seq<char>, x: Seq<char>)
    requires
        (x == code && code.len() > 0) || text_free(ps, x),
    ensures
        text_free(mark_code(ps, code, rep), x),
    decreases ps.len(),
{
    if ps.len() == 0 {
        assert(text_free(Seq::<SmiliePieceV>::empty(), x));
    } else {
        let init = ps.drop_last();
        assert((x == code && code.len() > 0) || text_free(init, x)) by {
            if !(x == code && code.len() > 0) {
                assert forall|k: int| 0 <= k < init.len() implies match #[trigger] init[k] {
                    SmiliePieceV::Text(u) => !contains_seq(u, x),
                    SmiliePieceV::Smilie(_, _) => true,
                } by {
                    assert(init[k] == ps[k]);
                }
            }
        }
        lemma_mark_code_free(init, code, rep, x);
        let last = ps.last();
        assert(ps[ps.len() - 1] == last);
        match last {
            SmiliePieceV::Text(t) => {
                if code.len() == 0 {
                    lemma_cut_empty_free(t, rep, x);
                } else {
                    lemma_cut_from_free(t, code, rep, 0, 0, x);
                }
            },
            SmiliePieceV::Smilie(_, _) => {
                assert(text_free(seq![last], x)) by {
                    assert forall|k: int| 0 <= k < seq![last].len() implies match #[trigger] seq![last][k] {
                        SmiliePieceV::Text(u) => !contains_seq(u, x),
                        SmiliePieceV::Smilie(_, _) => true,
                    } by {}
                }
            },
        }
        lemma_text_free_concat(mark_code(init, code, rep), piece_marked(last, code, rep), x);
    }
}

proof fn lemma_mark_all_free(ps: Seq<SmiliePieceV>, smilies: Seq<(Seq<char>, Seq<char>)>, j: int)
    requires
        0 <= j < smilies.len(),
        smilies[j].0.len() > 0,
    ensures
        text_free(mark_all(ps, smilies), smilies[j].0),
    decreases smilies.len(),
{
    let x = smilies[j].0;
    let init = smilies.drop_last();
    if j < smilies.len() - 1 {
        assert(init[j] == smilies[j]);
        lemma_mark_all_free(ps, init, j);
    }
    lemma_mark_code_free(mark_all(ps, init), smilies.last().0, smilies.last().1, x);
}

/// Smilie replacement replaces every occurrence: no text left between the
/// smilies found contains the code of any smilie of the list (empty codes
/// aside).
pub proof fn lemma_no_code_left(s: Seq<char>, smilies: Seq<(Seq<char>, Seq<char>)>, j: int, k: int)
    requires
        0 <= j < smilies.len(),
        smilies[j].0.len() > 0,
        0 <= k < smilie_pieces(s, smilies).len(),
    ensures
        smilie_pieces(s, smilies)[k] matches SmiliePieceV::Text(u) ==> !contains_seq(u, smilies[j].0),
{
    lemma_mark_all_free(seq![SmiliePieceV::Text(escape_html(s))], smilies, j);
}

} // verus!
