//! Character-sequence helpers shared by the BBCode modules.
use vstd::prelude::*;
use vstd::std_specs::iter::IteratorSpec;

verus! {

/// Appends one character to a `String` (std `String::push`).
#[verifier::external_body]
pub(crate) fn push_char(s: &mut String, c: char)
    ensures
        final(s)@ == old(s)@.push(c),
{
    s.push(c);
}

/// Appends a string slice to a `String`.
pub fn push_str(s: &mut String, t: &str)
    ensures
        final(s)@ == old(s)@ + t@,
{
    s.append(t);
}

/// The characters of a string slice, in order.
pub fn to_chars(s: &str) -> (v: Vec<char>)
    ensures
        v@ == s@,
{
    broadcast use vstd::string::group_string_axioms;
    let mut v: Vec<char> = Vec::new();
    for c in iter: s.chars()
        invariant
            v@ == iter.seq().take(iter.index() as int),
    {
        v.push(c);
    }
    v
}

} // verus!

verus! {

/// `p` occurs in `s` starting at index `i`.
pub open spec fn occurs_at(s: Seq<char>, p: Seq<char>, i: int) -> bool {
    0 <= i && i + p.len() <= s.len() && s.subrange(i, i + p.len()) == p
}

/// `p` occurs somewhere in `s` (the empty pattern occurs in every sequence).
pub open spec fn contains_seq(s: Seq<char>, p: Seq<char>) -> bool {
    exists|i: int| occurs_at(s, p, i)
}

/// Replacement of the empty pattern: `r` before every character and at the end.
pub open spec fn replace_empty(s: Seq<char>, r: Seq<char>) -> Seq<char>
    decreases s.len(),
{
    if s.len() == 0 {
        r
    } else {
        r + seq![s[0]] + replace_empty(s.skip(1), r)
    }
}

/// Replaces every non-overlapping occurrence of `p` in `s`, scanning left to right,
/// with `r` (the meaning of `str::replace`).
pub open spec fn replace_all(s: Seq<char>, p: Seq<char>, r: Seq<char>) -> Seq<char>
    decreases s.len(),
{
    if p.len() == 0 {
        replace_empty(s, r)
    } else if s.len() < p.len() {
        s
    } else if s.take(p.len() as int) == p {
        r + replace_all(s.skip(p.len() as int), p, r)
    } else {
        seq![s[0]] + replace_all(s.skip(1), p, r)
    }
}

/// Decimal digit character for `d < 10`.
pub open spec fn digit_char(d: nat) -> char {
    if d == 0 { '0' }
    else if d == 1 { '1' }
    else if d == 2 { '2' }
    else if d == 3 { '3' }
    else if d == 4 { '4' }
    else if d == 5 { '5' }
    else if d == 6 { '6' }
    else if d == 7 { '7' }
    else if d == 8 { '8' }
    else { '9' }
}

/// Decimal representation of a natural number, without leading zeros.
pub open spec fn decimal(n: nat) -> Seq<char>
    decreases n,
{
    if n < 10 {
        seq![digit_char(n)]
    } else {
        decimal(n / 10).push(digit_char(n % 10))
    }
}

/// The characters of `s`, as a `String`.
pub fn string_from_chars(s: &[char]) -> (r: String)
    ensures
        r@ == s@,
{
    let mut r = String::new();
    let mut i: usize = 0;
    while i < s.len()
        invariant
            i <= s@.len(),
            r@ == s@.take(i as int),
        decreases s@.len() - i,
    {
        push_char(&mut r, s[i]);
        i = i + 1;
        assert(r@ == s@.take(i as int));
    }
    assert(s@.take(s@.len() as int) == s@);
    r
}

/// Appends the characters of `t` to `v`.
pub fn extend_chars(v: &mut Vec<char>, t: &[char])
    ensures
        final(v)@ == old(v)@ + t@,
{
    let mut i: usize = 0;
    while i < t.len()
        invariant
            i <= t@.len(),
            v@ == old(v)@ + t@.take(i as int),
        decreases t@.len() - i,
    {
        v.push(t[i]);
        i = i + 1;
        assert(v@ == old(v)@ + t@.take(i as int));
    }
    assert(t@.take(t@.len() as int) == t@);
}

/// True when `p` occurs in `s` at index `i`.
pub fn occurs_at_exec(s: &[char], p: &[char], i: usize) -> (b: bool)
    requires
        i <= s@.len(),
    ensures
        b == occurs_at(s@, p@, i as int),
{
    if p.len() > s.len() - i {
        return false;
    }
    let n = s.len();
    let mut j: usize = 0;
    while j < p.len()
        invariant
            n == s@.len(),
            i <= s@.len(),
            i + p@.len() <= s@.len(),
            j <= p@.len(),
            forall|k: int| 0 <= k < j ==> s@[i + k] == p@[k],
        decreases p@.len() - j,
    {
        if s[i + j] != p[j] {
            assert(s@.subrange(i as int, i + p@.len())[j as int] != p@[j as int]);
            return false;
        }
        j = j + 1;
    }
    assert(s@.subrange(i as int, i + p@.len()) =~= p@);
    true
}

/// Whether `p` occurs anywhere in `s` (`str::contains`).
pub fn contains_exec(s: &[char], p: &[char]) -> (b: bool)
    ensures
        b == contains_seq(s@, p@),
{
    if p.len() == 0 {
        assert(s@.subrange(0, 0) =~= p@);
        assert(occurs_at(s@, p@, 0));
        return true;
    }
    let mut i: usize = 0;
    while i < s.len()
        invariant
            p@.len() > 0,
            i <= s@.len(),
            forall|k: int| 0 <= k < i ==> !occurs_at(s@, p@, k),
        decreases s@.len() - i,
    {
        if occurs_at_exec(s, p, i) {
            return true;
        }
        i = i + 1;
    }
    false
}

/// Replaces every occurrence of `p` in `s` with `r` (`str::replace`).
pub fn replace_all_exec(s: &[char], p: &[char], r: &[char]) -> (out: Vec<char>)
    ensures
        out@ == replace_all(s@, p@, r@),
{
    let mut out: Vec<char> = Vec::new();
    let mut i: usize = 0;
    assert(s@.skip(0) =~= s@);
    if p.len() == 0 {
        while i < s.len()
            invariant
                p@.len() == 0,
                i <= s@.len(),
                out@ + replace_empty(s@.skip(i as int), r@) == replace_all(s@, p@, r@),
            decreases s@.len() - i,
        {
            let ghost before = s@.skip(i as int);
            extend_chars(&mut out, r);
            out.push(s[i]);
            assert(before.skip(1) =~= s@.skip(i + 1));
            i = i + 1;
            assert(out@ + replace_empty(s@.skip(i as int), r@) =~= replace_all(s@, p@, r@));
        }
        extend_chars(&mut out, r);
        assert(s@.skip(i as int) =~= Seq::<char>::empty());
        assert(out@ =~= replace_all(s@, p@, r@));
        return out;
    }
    assert(s@.skip(0) =~= s@);
    while i < s.len()
        invariant
            p@.len() > 0,
            i <= s@.len(),
            out@ + replace_all(s@.skip(i as int), p@, r@) == replace_all(s@, p@, r@),
        decreases s@.len() - i,
    {
        let ghost rest = s@.skip(i as int);
        if occurs_at_exec(s, p, i) {
            assert(rest.take(p@.len() as int) =~= s@.subrange(i as int, i + p@.len()));
            assert(rest.skip(p@.len() as int) =~= s@.skip(i + p@.len()));
            extend_chars(&mut out, r);
            i = i + p.len();
            assert(out@ + replace_all(s@.skip(i as int), p@, r@) =~= replace_all(s@, p@, r@));
        } else {
            assert(rest.len() >= p@.len() ==> rest.take(p@.len() as int) =~= s@.subrange(i as int, i + p@.len()));
            assert(rest.skip(1) =~= s@.skip(i + 1));
            out.push(s[i]);
            i = i + 1;
            assert(out@ + replace_all(s@.skip(i as int), p@, r@) =~= replace_all(s@, p@, r@));
        }
    }
    assert(s@.skip(i as int) =~= Seq::<char>::empty());
    assert(out@ =~= replace_all(s@, p@, r@));
    out
}

/// Decimal representation of `n` (`u128::to_string`).
pub fn u128_to_decimal(n: u128) -> (r: Vec<char>)
    ensures
        r@ == decimal(n as nat),
    decreases n,
{
    let d: u128 = n % 10;
    let c = if d == 0 { '0' } else if d == 1 { '1' } else if d == 2 { '2' } else if d == 3 { '3' }
        else if d == 4 { '4' } else if d == 5 { '5' } else if d == 6 { '6' } else if d == 7 { '7' }
        else if d == 8 { '8' } else { '9' };
    if n < 10 {
        assert(c == digit_char(n as nat));
        let mut r = Vec::new();
        r.push(c);
        r
    } else {
        let mut r = u128_to_decimal(n / 10);
        r.push(c);
        r
    }
}

} // verus!

verus! {

/// Whether two string slices hold the same characters (`str == str`).
pub fn str_eq(a: &str, b: &str) -> (r: bool)
    ensures
        r == (a@ == b@),
{
    let x = to_chars(a);
    let y = to_chars(b);
    if x.len() != y.len() {
        return false;
    }
    let mut i: usize = 0;
    while i < x.len()
        invariant
            x@ == a@,
            y@ == b@,
            x@.len() == y@.len(),
            i <= x@.len(),
            forall|k: int| 0 <= k < i ==> x@[k] == y@[k],
        decreases x@.len() - i,
    {
        if x[i] != y[i] {
            assert(x@[i as int] != y@[i as int]);
            assert(a@ != b@);
            return false;
        }
        i = i + 1;
    }
    assert(x@ =~= y@);
    true
}

} // verus!

verus! {

/// An ASCII decimal digit.
pub open spec fn is_ascii_digit(c: char) -> bool {
    '0' <= c && c <= '9'
}

/// An ASCII letter or digit (`char::is_ascii_alphanumeric`).
pub open spec fn is_ascii_alnum(c: char) -> bool {
    ||| is_ascii_digit(c)
    ||| ('a' <= c && c <= 'z')
    ||| ('A' <= c && c <= 'Z')
}

/// Every character is an ASCII letter or digit (true of the empty sequence).
pub open spec fn all_ascii_alnum(s: Seq<char>) -> bool {
    forall|i: int| 0 <= i < s.len() ==> is_ascii_alnum(#[trigger] s[i])
}

/// Every character is an ASCII digit.
pub open spec fn all_ascii_digits(s: Seq<char>) -> bool {
    forall|i: int| 0 <= i < s.len() ==> is_ascii_digit(#[trigger] s[i])
}

/// The number that a sequence of ASCII digits spells in base ten.
pub open spec fn digits_value(s: Seq<char>) -> nat
    decreases s.len(),
{
    if s.len() == 0 {
        0
    } else {
        digits_value(s.drop_last()) * 10 + (s.last() as int - '0' as int) as nat
    }
}

/// The value of an unsigned decimal numeral as `str::parse` reads it for an
/// unsigned integer type, before its bound is checked: an optional `+`, then
/// one or more ASCII digits.
pub open spec fn unsigned_numeral(s: Seq<char>) -> Option<nat> {
    let d = if s.len() > 0 && s[0] == '+' { s.skip(1) } else { s };
    if d.len() > 0 && all_ascii_digits(d) {
        Some(digits_value(d))
    } else {
        None
    }
}

/// `str::parse::<T>` for an unsigned integer type whose largest value is `max`.
pub open spec fn parse_unsigned(s: Seq<char>, max: nat) -> Option<nat> {
    match unsigned_numeral(s) {
        Some(v) => if v <= max { Some(v) } else { None },
        None => None,
    }
}

/// ASCII lower case of one character (`char::to_ascii_lowercase`).
pub open spec fn ascii_lower(c: char) -> char {
    if 'A' <= c && c <= 'Z' {
        ((c as u32) + 32) as char
    } else {
        c
    }
}

/// ASCII lower case of a character sequence (`str::to_ascii_lowercase`).
pub open spec fn ascii_lower_seq(s: Seq<char>) -> Seq<char> {
    s.map_values(|c: char| ascii_lower(c))
}

/// Whether `c` is an ASCII letter or digit.
pub fn ascii_alnum(c: char) -> (b: bool)
    ensures
        b == is_ascii_alnum(c),
{
    ('0' <= c && c <= '9') || ('a' <= c && c <= 'z') || ('A' <= c && c <= 'Z')
}

/// The ASCII lower case of `c`.
pub fn to_ascii_lower(c: char) -> (r: char)
    ensures
        r == ascii_lower(c),
{
    if 'A' <= c && c <= 'Z' {
        ((c as u8) + 32) as char
    } else {
        c
    }
}

/// The ASCII lower case of `s`, as a `String`.
pub fn ascii_lowercase(s: &[char]) -> (r: String)
    ensures
        r@ == ascii_lower_seq(s@),
{
    let mut r = String::new();
    let mut i: usize = 0;
    while i < s.len()
        invariant
            i <= s@.len(),
            r@ == ascii_lower_seq(s@.take(i as int)),
        decreases s@.len() - i,
    {
        push_char(&mut r, to_ascii_lower(s[i]));
        i = i + 1;
        assert(ascii_lower_seq(s@.take(i as int)) =~= ascii_lower_seq(s@.take(i - 1)).push(ascii_lower(s@[i - 1])));
    }
    assert(s@.take(s@.len() as int) =~= s@);
    r
}

/// `str::parse` for an unsigned integer type whose largest value is `max`.
pub fn parse_unsigned_exec(s: &str, max: u64) -> (r: Option<u64>)
    ensures
        match parse_unsigned(s@, max as nat) {
            Some(v) => r == Some(v as u64),
            None => r is None,
        },
{
    let c = to_chars(s);
    parse_unsigned_chars(c.as_slice(), max)
}

/// `str::parse` of the text `c` for an unsigned integer type whose largest value
/// is `max`.
pub fn parse_unsigned_chars(c: &[char], max: u64) -> (r: Option<u64>)
    ensures
        match parse_unsigned(c@, max as nat) {
            Some(v) => r == Some(v as u64),
            None => r is None,
        },
{
    let start: usize = if c.len() > 0 && c[0] == '+' { 1 } else { 0 };
    let ghost d = if c@.len() > 0 && c@[0] == '+' { c@.skip(1) } else { c@ };
    assert(d =~= c@.skip(start as int));
    if start >= c.len() {
        return None;
    }
    let mut v: u64 = 0;
    let mut over = false;
    let mut i: usize = start;
    while i < c.len()
        invariant
            start <= i <= c@.len(),
            d =~= c@.skip(start as int),
            d == (if c@.len() > 0 && c@[0] == '+' { c@.skip(1) } else { c@ }),
            all_ascii_digits(c@.subrange(start as int, i as int)),
            over ==> digits_value(c@.subrange(start as int, i as int)) > max,
            !over ==> v == digits_value(c@.subrange(start as int, i as int)) && v <= max,
        decreases c@.len() - i,
    {
        let ch = c[i];
        if !('0' <= ch && ch <= '9') {
            assert(d[i - start] == ch);
            assert(!is_ascii_digit(d[i - start]));
            return None;
        }
        let ghost prev = c@.subrange(start as int, i as int);
        let ghost next = c@.subrange(start as int, i + 1);
        assert(next.drop_last() =~= prev);
        assert(next.last() == ch);
        if !over {
            let digit: u64 = ((ch as u32) - ('0' as u32)) as u64;
            if v > max / 10 || (v == max / 10 && digit > max % 10) {
                over = true;
                assert(v * 10 + digit > max) by (nonlinear_arith)
                    requires v > max / 10 || (v == max / 10 && digit > max % 10);
            } else {
                assert(v * 10 + digit <= max) by (nonlinear_arith)
                    requires v <= max / 10, v < max / 10 || digit <= max % 10, digit < 10;
                v = v * 10 + digit;
            }
        }
        i = i + 1;
        assert(all_ascii_digits(next));
    }
    assert(c@.subrange(start as int, c@.len() as int) =~= d);
    if over {
        None
    } else {
        Some(v)
    }
}

} // verus!

verus! {

/// The number of bytes of the UTF-8 encoding of `s` (`str::len`).
pub open spec fn utf8_len(s: Seq<char>) -> nat {
    vstd::utf8::encode_utf8(s).len()
}

/// The number of bytes of the UTF-8 encoding of `c` (`char::len_utf8`).
pub fn char_utf8_len(c: char) -> (n: usize)
    ensures
        n == vstd::utf8::encode_scalar(c as u32).len(),
        1 <= n <= 4,
{
    proof {
        vstd::utf8::char_is_scalar(c);
    }
    let u = c as u32;
    if u <= 0x7F {
        1
    } else if u <= 0x7FF {
        2
    } else if u <= 0xFFFF {
        3
    } else {
        4
    }
}

/// The bytes of a suffix: those of its first character and of the rest.
proof fn lemma_utf8_len_skip(s: Seq<char>, i: int)
    requires
        0 <= i < s.len(),
    ensures
        utf8_len(s.skip(i)) == vstd::utf8::encode_scalar(s[i] as u32).len() + utf8_len(s.skip(i + 1)),
{
    assert(s.skip(i).drop_first() =~= s.skip(i + 1));
    assert(s.skip(i)[0] == s[i]);
}

/// A longer suffix takes at least as many bytes.
proof fn lemma_utf8_len_skip_mono(s: Seq<char>, i: int, j: int)
    requires
        0 <= i <= j <= s.len(),
    ensures
        utf8_len(s.skip(i)) >= utf8_len(s.skip(j)),
    decreases j - i,
{
    if i < j {
        lemma_utf8_len_skip(s, i);
        lemma_utf8_len_skip_mono(s, i + 1, j);
    }
}

/// Whether the UTF-8 encoding of `s` takes more than `limit` bytes.
pub fn utf8_len_exceeds(s: &[char], limit: usize) -> (b: bool)
    ensures
        b == (utf8_len(s@) > limit),
{
    let mut acc: usize = 0;
    let mut i: usize = s.len();
    assert(s@.skip(s@.len() as int) =~= Seq::<char>::empty());
    while i > 0
        invariant
            i <= s@.len(),
            acc == utf8_len(s@.skip(i as int)),
            acc <= limit,
        decreases i,
    {
        let w = char_utf8_len(s[i - 1]);
        proof {
            lemma_utf8_len_skip(s@, i - 1);
        }
        if w > limit - acc {
            proof {
                lemma_utf8_len_skip_mono(s@, 0, i - 1);
                assert(s@.skip(0) =~= s@);
            }
            return true;
        }
        acc = acc + w;
        i = i - 1;
    }
    assert(s@.skip(0) =~= s@);
    false
}

} // verus!

verus! {

/// Appends the decimal representation of `n`.
pub fn push_decimal(s: &mut String, n: u128)
    ensures
        final(s)@ == old(s)@ + decimal(n as nat),
{
    let digits = u128_to_decimal(n);
    let t = string_from_chars(digits.as_slice());
    push_str(s, t.as_str());
}

/// A character with the Unicode `White_Space` property (`char::is_whitespace`).
pub open spec fn is_unicode_whitespace(c: char) -> bool {
    ||| ('\u{9}' <= c && c <= '\u{d}')
    ||| c == ' '
    ||| c == '\u{85}'
    ||| c == '\u{a0}'
    ||| c == '\u{1680}'
    ||| ('\u{2000}' <= c && c <= '\u{200a}')
    ||| c == '\u{2028}'
    ||| c == '\u{2029}'
    ||| c == '\u{202f}'
    ||| c == '\u{205f}'
    ||| c == '\u{3000}'
}

/// Whether `c` has the Unicode `White_Space` property.
pub fn unicode_whitespace(c: char) -> (b: bool)
    ensures
        b == is_unicode_whitespace(c),
{
    ('\u{9}' <= c && c <= '\u{d}') || c == ' ' || c == '\u{85}' || c == '\u{a0}' || c == '\u{1680}'
        || ('\u{2000}' <= c && c <= '\u{200a}') || c == '\u{2028}' || c == '\u{2029}' || c == '\u{202f}'
        || c == '\u{205f}' || c == '\u{3000}'
}

/// The first index from `i` on whose character is not white space (or the end).
pub open spec fn skip_space(s: Seq<char>, i: int) -> int
    decreases s.len() - i,
{
    if i < 0 || i >= s.len() || !is_unicode_whitespace(s[i]) {
        i
    } else {
        skip_space(s, i + 1)
    }
}

/// The first index from `i` on whose character is white space (or the end).
pub open spec fn word_end(s: Seq<char>, i: int) -> int
    decreases s.len() - i,
{
    if i < 0 || i >= s.len() || is_unicode_whitespace(s[i]) {
        i
    } else {
        word_end(s, i + 1)
    }
}

/// Where the scans stop: never before where they start, never past the end.
pub proof fn lemma_scan_bounds(s: Seq<char>, i: int)
    requires
        0 <= i <= s.len(),
    ensures
        i <= skip_space(s, i) <= s.len(),
        i <= word_end(s, i) <= s.len(),
        skip_space(s, i) < s.len() ==> !is_unicode_whitespace(s[skip_space(s, i)]),
    decreases s.len() - i,
{
    if i < s.len() {
        lemma_scan_bounds(s, i + 1);
    }
}

/// The words of `s` from index `i` on: its maximal runs of characters that are
/// not white space (`str::split_whitespace`).
pub open spec fn words_from(s: Seq<char>, i: int) -> Seq<Seq<char>>
    decreases s.len() - i,
{
    if 0 <= i <= s.len() {
        proof {
            lemma_scan_bounds(s, i);
        }
        let a = skip_space(s, i);
        if a >= s.len() {
            Seq::empty()
        } else {
            proof {
                lemma_scan_bounds(s, a);
                lemma_scan_bounds(s, a + 1);
            }
            let b = word_end(s, a + 1);
            seq![s.subrange(a, b)] + words_from(s, b)
        }
    } else {
        Seq::empty()
    }
}

/// Every word from index `i` on is non-empty and holds no white space.
proof fn lemma_words_from_shape(s: Seq<char>, i: int)
    requires
        0 <= i <= s.len(),
    ensures
        forall|k: int| 0 <= k < words_from(s, i).len() ==> {
            &&& (#[trigger] words_from(s, i)[k]).len() > 0
            &&& forall|j: int| 0 <= j < words_from(s, i)[k].len() ==> !is_unicode_whitespace(#[trigger] words_from(s, i)[k][j])
        },
    decreases s.len() - i,
{
    lemma_scan_bounds(s, i);
    let a = skip_space(s, i);
    if a < s.len() {
        lemma_scan_bounds(s, a + 1);
        let b = word_end(s, a + 1);
        lemma_word_end_run(s, a + 1);
        lemma_words_from_shape(s, b);
        let w = words_from(s, i);
        assert(w == seq![s.subrange(a, b)] + words_from(s, b));
        assert forall|k: int| 0 <= k < w.len() implies {
            &&& (#[trigger] w[k]).len() > 0
            &&& forall|j: int| 0 <= j < w[k].len() ==> !is_unicode_whitespace(#[trigger] w[k][j])
        } by {
            if k > 0 {
                assert(w[k] == words_from(s, b)[k - 1]);
            } else {
                assert forall|j: int| 0 <= j < w[0].len() implies !is_unicode_whitespace(#[trigger] w[0][j]) by {
                    assert(w[0][j] == s[a + j]);
                }
            }
        }
    }
}

/// The characters from `i` up to `word_end(s, i)` are not white space.
proof fn lemma_word_end_run(s: Seq<char>, i: int)
    requires
        0 <= i <= s.len(),
    ensures
        forall|j: int| i <= j < word_end(s, i) ==> !is_unicode_whitespace(#[trigger] s[j]),
    decreases s.len() - i,
{
    if i < s.len() && !is_unicode_whitespace(s[i]) {
        lemma_word_end_run(s, i + 1);
    }
}

/// The words of a text are non-empty and hold no white space.
pub proof fn lemma_words_shape(s: Seq<char>)
    ensures
        forall|k: int| 0 <= k < words(s).len() ==> {
            &&& (#[trigger] words(s)[k]).len() > 0
            &&& forall|j: int| 0 <= j < words(s)[k].len() ==> !is_unicode_whitespace(#[trigger] words(s)[k][j])
        },
{
    lemma_words_from_shape(s, 0);
}

/// The words of `s` (`str::split_whitespace`).
pub open spec fn words(s: Seq<char>) -> Seq<Seq<char>> {
    words_from(s, 0)
}

/// The words of `s`, in order.
pub fn split_whitespace(s: &str) -> (r: Vec<String>)
    ensures
        r@.len() == words(s@).len(),
        forall|k: int| 0 <= k < r@.len() ==> #[trigger] r@[k]@ == words(s@)[k],
{
    let c = to_chars(s);
    let n = c.len();
    let mut r: Vec<String> = Vec::new();
    let ghost done: Seq<Seq<char>> = Seq::empty();
    let mut i: usize = 0;
    while i < n
        invariant
            c@ == s@,
            n == c@.len(),
            i <= n,
            words(s@) == done + words_from(s@, i as int),
            r@.len() == done.len(),
            forall|k: int| 0 <= k < r@.len() ==> #[trigger] r@[k]@ == done[k],
        decreases n - i,
    {
        proof {
            lemma_scan_bounds(s@, i as int);
        }
        let mut a = i;
        while a < n && unicode_whitespace(c[a])
            invariant
                c@ == s@,
                n == c@.len(),
                i <= a <= n,
                skip_space(s@, i as int) == skip_space(s@, a as int),
            decreases n - a,
        {
            a = a + 1;
        }
        if a >= n {
            i = n;
            proof {
                lemma_scan_bounds(s@, n as int);
            }
            assert(words_from(s@, i as int) =~= Seq::<Seq<char>>::empty());
            assert(words_from(s@, a as int) =~= Seq::<Seq<char>>::empty());
        } else {
            let mut b = a + 1;
            while b < n && !unicode_whitespace(c[b])
                invariant
                    c@ == s@,
                    n == c@.len(),
                    a < b <= n,
                    word_end(s@, a + 1) == word_end(s@, b as int),
                decreases n - b,
            {
                b = b + 1;
            }
            proof {
                lemma_scan_bounds(s@, a + 1);
            }
            let word = string_from_chars(vstd::slice::slice_subrange(c.as_slice(), a, b));
            r.push(word);
            proof {
                done = done.push(s@.subrange(a as int, b as int));
            }
            assert(words_from(s@, i as int) == seq![s@.subrange(a as int, b as int)] + words_from(s@, b as int));
            assert(words(s@) =~= done + words_from(s@, b as int));
            i = b;
        }
    }
    proof {
        lemma_scan_bounds(s@, n as int);
    }
    assert(words_from(s@, n as int) =~= Seq::<Seq<char>>::empty());
    assert(done + words_from(s@, n as int) =~= done);
    r
}

} // verus!
