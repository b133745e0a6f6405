//! File naming for uploads: which extension a stored file gets, and the URL
//! under which it is served.
use vstd::prelude::*;
use crate::text::{
    all_ascii_alnum, ascii_alnum, ascii_lower_seq, ascii_lowercase, parse_unsigned,
    parse_unsigned_chars, str_eq, to_chars, utf8_len, utf8_len_exceeds,
};

verus! {

/// The longest extension, sub-extensions and dots included, that a guess takes.
pub const MAX_EXT_LEN: usize = 24;

/// The longest single sub-extension that a guess takes.
pub const MAX_SUB_EXT_LEN: usize = 9;

/// Extensions that are taken as they stand, with the extension a file that
/// bears one is stored under.
pub const EXT_LOOKUP: [(&'static str, &'static str); 35] = [
    ("aac", "aac"),
    ("apng", "apng"),
    ("avi", "avi"),
    ("avif", "avif"),
    ("bmp", "bmp"),
    ("djvu", "djvu"),
    ("flac", "flac"),
    ("gif", "gif"),
    ("htm", "html"),
    ("html", "html"),
    ("ico", "ico"),
    ("jpeg", "jpeg"),
    ("jpg", "jpeg"),
    ("jfif", "jpeg"),
    ("json", "json"),
    ("ktx", "ktx"),
    ("m4a", "m4a"),
    ("mka", "mka"),
    ("mkv", "mkv"),
    ("mov", "mov"),
    ("mp3", "mp3"),
    ("mp4", "mp4"),
    ("ogg", "ogg"),
    ("ogv", "ogv"),
    ("pdf", "pdf"),
    ("png", "png"),
    ("rm", "rm"),
    ("sh", "sh"),
    ("svg", "svg"),
    ("txt", "txt"),
    ("weba", "weba"),
    ("webm", "webm"),
    ("webp", "webp"),
    ("xml", "xml"),
    ("zip", "zip"),
];

/// MIME types whose files are stored under one extension.
pub const MIME_LOOKUP: [(&'static str, &'static str); 33] = [
    ("application/json", "json"),
    ("application/pdf", "pdf"),
    ("application/vnd.rn-realmedia", "rm"),
    ("application/x-sh", "sh"),
    ("application/zip", "zip"),
    ("audio/aac", "aac"),
    ("audio/flac", "flac"),
    ("audio/m4a", "m4a"),
    ("audio/mp4", "mp4"),
    ("audio/mpeg", "mp3"),
    ("audio/ogg", "ogg"),
    ("audio/webm", "weba"),
    ("audio/x-matroska", "mka"),
    ("image/apng", "apng"),
    ("image/avif", "avif"),
    ("image/bmp", "bmp"),
    ("image/gif", "gif"),
    ("image/jpeg", "jpeg"),
    ("image/ktx", "ktx"),
    ("image/png", "png"),
    ("image/svg+xml", "svg"),
    ("image/vnd.djvu", "djvu"),
    ("image/webp", "webp"),
    ("image/x-icon", "ico"),
    ("text/html", "html"),
    ("text/plain", "txt"),
    ("text/xml", "xml"),
    ("video/mp4", "mp4"),
    ("video/ogg", "ogv"),
    ("video/quicktime", "mov"),
    ("video/webm", "webm"),
    ("video/x-matroska", "mkv"),
    ("video/x-msvideo", "avi"),
];

/// The value of the first entry of `t` whose key is `k`.
pub open spec fn table_lookup(t: Seq<(&'static str, &'static str)>, k: Seq<char>) -> Option<Seq<char>>
    decreases t.len(),
{
    if t.len() == 0 {
        None
    } else if t[0].0@ == k {
        Some(t[0].1@)
    } else {
        table_lookup(t.drop_first(), k)
    }
}

/// The value of the first entry of `t` whose key is the text `k`.
fn lookup(t: &[(&'static str, &'static str)], k: &str) -> (r: Option<&'static str>)
    ensures
        match table_lookup(t@, k@) {
            Some(v) => r matches Some(s) && s@ == v,
            None => r is None,
        },
{
    let mut i: usize = 0;
    assert(t@.skip(0) =~= t@);
    while i < t.len()
        invariant
            i <= t@.len(),
            table_lookup(t@, k@) == table_lookup(t@.skip(i as int), k@),
        decreases t@.len() - i,
    {
        assert(t@.skip(i as int).drop_first() =~= t@.skip(i + 1));
        let (key, value) = t[i];
        if str_eq(key, k) {
            return Some(value);
        }
        i = i + 1;
    }
    None
}

/// The index of the last `.` in `s` before `end`.
pub open spec fn last_dot(s: Seq<char>, end: int) -> Option<int>
    decreases end,
{
    if end <= 0 {
        None
    } else if s[end - 1] == '.' {
        Some(end - 1)
    } else {
        last_dot(s, end - 1)
    }
}

/// The last `.` before `end` lies before it and is a `.`.
pub proof fn lemma_last_dot(s: Seq<char>, end: int)
    requires
        end <= s.len(),
    ensures
        last_dot(s, end) matches Some(k) ==> 0 <= k < end && s[k] == '.',
    decreases end,
{
    if end > 0 && s[end - 1] != '.' {
        lemma_last_dot(s, end - 1);
    }
}

/// The extension that a guess settles on in `f` when the extension found so far
/// starts after the `.` at `b`: the part before it is taken in, a sub-extension
/// at a time, while that part is a plausible sub-extension (ASCII letters and
/// digits, not a number, not too long). The result is in ASCII lower case.
pub open spec fn guess_from(f: Seq<char>, b: int) -> Seq<char>
    decreases b,
{
    if 0 <= b <= f.len() {
        match last_dot(f, b) {
            None => ascii_lower_seq(f.skip(b + 1)),
            Some(n) => {
                proof {
                    lemma_last_dot(f, b);
                }
                let sub = f.subrange(n + 1, b);
                if n == b - 1 || utf8_len(f.skip(n)) > MAX_EXT_LEN || utf8_len(sub) > MAX_SUB_EXT_LEN
                    || parse_unsigned(sub, u32::MAX as nat) is Some || !all_ascii_alnum(sub) {
                    ascii_lower_seq(f.skip(b + 1))
                } else {
                    guess_from(f, n)
                }
            },
        }
    } else {
        ascii_lower_seq(f.skip(b + 1))
    }
}

/// The extension guessed from a file name: none where the name has no `.`,
/// starts with its last `.`, or where what follows that `.` is longer than a
/// sub-extension or holds more than ASCII letters and digits. An extension of
/// `EXT_LOOKUP` is taken as it stands; any other is widened by `guess_from`.
pub open spec fn extension_guess(f: Seq<char>) -> Option<Seq<char>> {
    match last_dot(f, f.len() as int) {
        None => None,
        Some(i) => {
            let ext = f.skip(i + 1);
            if i == 0 || utf8_len(f.skip(i)) > MAX_SUB_EXT_LEN + 1 || !all_ascii_alnum(ext) {
                None
            } else {
                match table_lookup(EXT_LOOKUP@, ext) {
                    Some(v) => Some(v),
                    None => Some(guess_from(f, i)),
                }
            }
        },
    }
}

/// A value found in a table is the value of one of its entries.
pub proof fn lemma_table_lookup(t: Seq<(&'static str, &'static str)>, k: Seq<char>)
    ensures
        table_lookup(t, k) matches Some(v) ==> exists|j: int| 0 <= j < t.len() && (#[trigger] t[j]).1@ == v,
    decreases t.len(),
{
    if t.len() > 0 && t[0].0@ != k {
        lemma_table_lookup(t.drop_first(), k);
        if let Some(v) = table_lookup(t, k) {
            let j = choose|j: int| 0 <= j < t.drop_first().len() && (#[trigger] t.drop_first()[j]).1@ == v;
            assert(t[j + 1] == t.drop_first()[j]);
        }
    }
}

/// What a guess settles on from the `.` at `b` is, in lower case, what follows
/// a `.` of the name at or before `b`.
proof fn lemma_guess_from_dot(f: Seq<char>, b: int)
    requires
        0 <= b < f.len(),
        f[b] == '.',
    ensures
        exists|k: int| 0 <= k <= b && f[k] == '.' && guess_from(f, b) == ascii_lower_seq(#[trigger] f.skip(k + 1)),
    decreases b,
{
    lemma_last_dot(f, b);
    match last_dot(f, b) {
        None => {
            assert(guess_from(f, b) == ascii_lower_seq(f.skip(b + 1)));
        },
        Some(n) => {
            if guess_from(f, b) == ascii_lower_seq(f.skip(b + 1)) {
            } else {
                lemma_guess_from_dot(f, n);
            }
        },
    }
}

/// A guessed extension is either the stored form of an extension of
/// `EXT_LOOKUP`, or, in ASCII lower case, what follows a `.` of the name.
pub proof fn lemma_extension_guess_is_suffix(f: Seq<char>)
    ensures
        extension_guess(f) matches Some(e) ==> {
            ||| exists|j: int| 0 <= j < EXT_LOOKUP@.len() && (#[trigger] EXT_LOOKUP@[j]).1@ == e
            ||| exists|k: int| 0 <= k < f.len() && f[k] == '.' && e == ascii_lower_seq(#[trigger] f.skip(k + 1))
        },
{
    lemma_last_dot(f, f.len() as int);
    if let Some(i) = last_dot(f, f.len() as int) {
        lemma_table_lookup(EXT_LOOKUP@, f.skip(i + 1));
        lemma_guess_from_dot(f, i);
    }
}

/// The extension a file is stored under: that of its MIME type (in ASCII lower
/// case) where `MIME_LOOKUP` has one, else the one guessed from its name.
pub open spec fn extension_for(filename: Seq<char>, mime: Seq<char>) -> Option<Seq<char>> {
    match table_lookup(MIME_LOOKUP@, ascii_lower_seq(mime)) {
        Some(v) => Some(v),
        None => extension_guess(filename),
    }
}

/// The index of the last `.` in `s` before `end`.
fn find_last_dot(s: &[char], end: usize) -> (r: Option<usize>)
    requires
        end <= s@.len(),
    ensures
        match last_dot(s@, end as int) {
            Some(k) => r == Some(k as usize),
            None => r is None,
        },
{
    let mut e = end;
    while e > 0
        invariant
            e <= end <= s@.len(),
            last_dot(s@, end as int) == last_dot(s@, e as int),
        decreases e,
    {
        if s[e - 1] == '.' {
            return Some(e - 1);
        }
        e = e - 1;
    }
    None
}

/// Whether every character of `s` is an ASCII letter or digit.
fn all_alnum(s: &[char]) -> (b: bool)
    ensures
        b == all_ascii_alnum(s@),
{
    let mut i: usize = 0;
    while i < s.len()
        invariant
            i <= s@.len(),
            forall|k: int| 0 <= k < i ==> crate::text::is_ascii_alnum(#[trigger] s@[k]),
        decreases s@.len() - i,
    {
        if !ascii_alnum(s[i]) {
            return false;
        }
        i = i + 1;
    }
    true
}

/// The extension that a guess settles on when the extension found so far
/// starts after the `.` at `begin` (`guess_from`).
fn guess_from_exec(f: &[char], begin: usize) -> (r: String)
    requires
        begin < f@.len(),
    ensures
        r@ == guess_from(f@, begin as int),
{
    let len = f.len();
    let mut b = begin;
    loop
        invariant
            len == f@.len(),
            b < f@.len(),
            guess_from(f@, begin as int) == guess_from(f@, b as int),
        decreases b,
    {
        proof {
            lemma_last_dot(f@, b as int);
        }
        let found = find_last_dot(f, b);
        let after: usize = b + 1;
        if found.is_none() {
            return ascii_lowercase(vstd::slice::slice_subrange(f, after, f.len()));
        }
        let n = found.unwrap();
        let sub = vstd::slice::slice_subrange(f, n + 1, b);
        let tail = vstd::slice::slice_subrange(f, n, f.len());
        if n + 1 == b || utf8_len_exceeds(tail, MAX_EXT_LEN) || utf8_len_exceeds(sub, MAX_SUB_EXT_LEN)
            || parse_unsigned_chars(sub, 0xFFFF_FFFF).is_some() || !all_alnum(sub) {
            return ascii_lowercase(vstd::slice::slice_subrange(f, after, f.len()));
        }
        b = n;
    }
}

/// The extension guessed from a file name (`extension_guess`).
pub fn get_extension_guess(filename: &str) -> (r: Option<String>)
    ensures
        match extension_guess(filename@) {
            Some(e) => r matches Some(s) && s@ == e,
            None => r is None,
        },
{
    let f = to_chars(filename);
    proof {
        lemma_last_dot(f@, f@.len() as int);
    }
    let i = match find_last_dot(f.as_slice(), f.len()) {
        Some(i) => i,
        None => return None,
    };
    let ext = vstd::slice::slice_subrange(f.as_slice(), i + 1, f.len());
    let dotted = vstd::slice::slice_subrange(f.as_slice(), i, f.len());
    if i == 0 || utf8_len_exceeds(dotted, MAX_SUB_EXT_LEN + 1) || !all_alnum(ext) {
        return None;
    }
    let ext_text = crate::text::string_from_chars(ext);
    match lookup(&EXT_LOOKUP, ext_text.as_str()) {
        Some(v) => Some(v.to_string()),
        None => Some(guess_from_exec(f.as_slice(), i)),
    }
}

/// The URL under which a stored file is served: `/content/`, the first 64
/// bytes of `key` (a content hash), `/` and the file name. `key` must have a
/// character boundary at byte 64.
pub fn get_file_url_by_filename(key: &str, filename: &str) -> (r: String)
    requires
        vstd::utf8::is_char_boundary(vstd::utf8::encode_utf8(key@), 64),
    ensures
        r@ == "/content/"@ + vstd::utf8::decode_utf8(vstd::utf8::encode_utf8(key@).subrange(0, 64)) + "/"@
            + filename@,
{
    let (head, _) = key.split_at(64);
    proof {
        vstd::utf8::encode_utf8_decode_utf8(head@);
    }
    let mut r = String::new();
    crate::text::push_str(&mut r, "/content/");
    crate::text::push_str(&mut r, head);
    crate::text::push_str(&mut r, "/");
    crate::text::push_str(&mut r, filename);
    r
}

/// The extension a file is stored under, from its name and its MIME type
/// (`extension_for`).
pub fn get_extension(filename: &str, mime: &str) -> (r: Option<String>)
    ensures
        match extension_for(filename@, mime@) {
            Some(e) => r matches Some(s) && s@ == e,
            None => r is None,
        },
{
    let m = to_chars(mime);
    let lower = ascii_lowercase(m.as_slice());
    match lookup(&MIME_LOOKUP, lower.as_str()) {
        Some(v) => Some(v.to_string()),
        None => get_extension_guess(filename),
    }
}

} // verus!
