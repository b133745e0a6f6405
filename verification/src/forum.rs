//! What a new thread is stored with: its title and subtitle as submitted, and
//! where the poster is sent afterwards.
use vstd::prelude::*;
use crate::text::{decimal, is_unicode_whitespace, push_decimal, push_str, skip_space, string_from_chars, to_chars, unicode_whitespace};

verus! {

/// The index just after the last character before `e` that is not white space
/// (0 where there is none).
pub open spec fn trim_end(s: Seq<char>, e: int) -> int
    decreases e,
{
    if e <= 0 || e > s.len() || !is_unicode_whitespace(s[e - 1]) {
        e
    } else {
        trim_end(s, e - 1)
    }
}

/// `s` without leading and trailing white space (`str::trim`).
pub open spec fn trimmed(s: Seq<char>) -> Seq<char> {
    let a = skip_space(s, 0);
    if a >= s.len() {
        Seq::empty()
    } else {
        s.subrange(a, trim_end(s, s.len() as int))
    }
}

/// Where the scan from the end stops: never past where it starts, never
/// before a character that is not white space.
proof fn lemma_trim_end(s: Seq<char>, e: int, k: int)
    requires
        0 <= k < e <= s.len(),
        !is_unicode_whitespace(s[k]),
    ensures
        k < trim_end(s, e) <= e,
    decreases e,
{
    if is_unicode_whitespace(s[e - 1]) {
        lemma_trim_end(s, e - 1, k);
    }
}

/// The scan from the end never passes where it starts.
proof fn lemma_trim_end_le(s: Seq<char>, e: int)
    ensures
        trim_end(s, e) <= e,
    decreases e,
{
    if !(e <= 0 || e > s.len() || !is_unicode_whitespace(s[e - 1])) {
        lemma_trim_end_le(s, e - 1);
    }
}

/// `s` without leading and trailing white space (`trimmed`).
pub fn trim(s: &str) -> (r: String)
    ensures
        r@ == trimmed(s@),
{
    let c = to_chars(s);
    let n = c.len();
    proof {
        crate::text::lemma_scan_bounds(s@, 0);
    }
    let mut a: usize = 0;
    while a < n && unicode_whitespace(c[a])
        invariant
            c@ == s@,
            n == c@.len(),
            a <= n,
            skip_space(s@, 0) == skip_space(s@, a as int),
        decreases n - a,
    {
        a = a + 1;
    }
    if a >= n {
        return String::new();
    }
    assert(skip_space(s@, a as int) == a);
    proof {
        lemma_trim_end(s@, n as int, a as int);
    }
    let mut e: usize = n;
    while e > a && unicode_whitespace(c[e - 1])
        invariant
            c@ == s@,
            n == c@.len(),
            a < n,
            !is_unicode_whitespace(s@[a as int]),
            a <= e <= n,
            a < trim_end(s@, n as int),
            trim_end(s@, n as int) == trim_end(s@, e as int),
        decreases e,
    {
        e = e - 1;
    }
    proof {
        lemma_trim_end_le(s@, e as int);
    }
    assert(e > a);
    assert(trim_end(s@, e as int) == e);
    assert(trimmed(s@) == s@.subrange(a as int, e as int));
    string_from_chars(vstd::slice::slice_subrange(c.as_slice(), a, e))
}

/// The title a new thread is stored with: the submitted one, trimmed.
pub fn new_thread_title(title: &str) -> (r: String)
    ensures
        r@ == trimmed(title@),
{
    trim(title)
}

/// The subtitle a new thread is stored with: a submitted subtitle is trimmed
/// and kept only where nothing is left of it, so the stored subtitle is either
/// none or empty.
pub fn new_thread_subtitle(subtitle: Option<&str>) -> (r: Option<String>)
    ensures
        match subtitle {
            Some(s) => if trimmed(s@).len() == 0 {
                r matches Some(t) && t@ == Seq::<char>::empty()
            } else {
                r is None
            },
            None => r is None,
        },
{
    match subtitle {
        Some(s) => {
            let t = trim(s);
            if t.as_str().is_empty() {
                Some(t)
            } else {
                None
            }
        },
        None => None,
    }
}

/// The decimal representation of a signed number.
pub open spec fn signed_decimal(i: int) -> Seq<char> {
    if i < 0 {
        "-"@ + decimal((-i) as nat)
    } else {
        decimal(i as nat)
    }
}

/// Where the poster of a new thread is sent: the thread's page.
pub fn thread_location(thread_id: i32) -> (r: String)
    ensures
        r@ == "/threads/"@ + signed_decimal(thread_id as int) + "/"@,
{
    let mut r = String::new();
    push_str(&mut r, "/threads/");
    if thread_id < 0 {
        push_str(&mut r, "-");
        let magnitude: i64 = -(thread_id as i64);
        push_decimal(&mut r, magnitude as u128);
    } else {
        push_decimal(&mut r, thread_id as u128);
    }
    push_str(&mut r, "/");
    r
}

} // verus!
