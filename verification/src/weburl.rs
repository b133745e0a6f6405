//! Absolute URL parsing, through the `url` crate.
use vstd::prelude::*;

verus! {

/// A parsed absolute URL: its lower-case scheme and its serialization.
pub struct ParsedUrl {
    pub scheme: String,
    pub serialization: String,
}

/// What `url::Url::parse` gives for an input: `None` when the input is not an
/// absolute URL, otherwise the scheme (`Url::scheme`) and the serialization
/// (`Url::as_str`) of the parsed URL.
pub uninterp spec fn url_parse(input: Seq<char>) -> Option<(Seq<char>, Seq<char>)>;

/// `url::Url::parse`, with the result's `scheme()` and `as_str()` copied out.
/// Claimed: the result is `url_parse` of the input (the crate's parse depends on the
/// input alone), and the scheme is the prefix of the serialization (`scheme()`
/// slices the serialization up to the scheme's end).
#[verifier::external_body]
pub(crate) fn parse_url(input: &str) -> (r: Option<ParsedUrl>)
    ensures
        r is None <==> url_parse(input@) is None,
        r matches Some(u) ==> url_parse(input@) == Some((u.scheme@, u.serialization@)),
        r matches Some(u) ==> u.serialization@.take(u.scheme@.len() as int) == u.scheme@,
{
    match url::Url::parse(input) {
        Ok(u) => Some(ParsedUrl { scheme: u.scheme().to_string(), serialization: u.as_str().to_string() }),
        Err(_) => None,
    }
}

/// The scheme is `http` or `https`.
pub open spec fn is_web_scheme(scheme: Seq<char>) -> bool {
    scheme == seq!['h', 't', 't', 'p'] || scheme == seq!['h', 't', 't', 'p', 's']
}

/// Whether a scheme is `http` or `https`.
pub fn web_scheme(scheme: &str) -> (b: bool)
    ensures
        b == is_web_scheme(scheme@),
{
    let c = crate::text::to_chars(scheme);
    let http = c.len() >= 4 && c[0] == 'h' && c[1] == 't' && c[2] == 't' && c[3] == 'p';
    if c.len() == 4 && http {
        assert(c@ =~= seq!['h', 't', 't', 'p']);
        true
    } else if c.len() == 5 && http && c[4] == 's' {
        assert(c@ =~= seq!['h', 't', 't', 'p', 's']);
        true
    } else {
        false
    }
}

} // verus!
