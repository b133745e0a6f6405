//! Link tags with an argument.
use super::super::element::{Element, ElementV};
use super::Tag;
use crate::text::push_str;
use crate::weburl::{parse_url, url_parse, ParsedUrl};
use vstd::prelude::*;
use vstd::string::StrSliceExecFns;

verus! {

/// The serialization of the URL an argument names after its leading `=`.
pub open spec fn url_of_arg(arg: Seq<char>) -> Option<Seq<char>> {
    if arg.len() > 0 && arg[0] == '=' {
        match url_parse(arg.drop_first()) {
            Some((_, ser)) => Some(ser),
            None => None,
        }
    } else {
        None
    }
}

/// The URL of a link element: the argument's, or else its contents'.
pub open spec fn link_target(el: ElementV) -> Option<Seq<char>> {
    let from_arg = match el.argument {
        Some(a) => url_of_arg(a),
        None => None,
    };
    if from_arg is Some {
        from_arg
    } else {
        match el.contents {
            Some(c) => match url_parse(c) {
                Some((_, ser)) => Some(ser),
                None => None,
            },
            None => None,
        }
    }
}

/// The BbCode that opened an element: `[`, its name, its argument, `]`.
pub open spec fn bbcode_open(el: ElementV) -> Seq<char> {
    "["@ + match el.tag { Some(t) => t, None => Seq::empty() }
        + match el.argument { Some(a) => a, None => Seq::empty() } + "]"@
}

/// What opens a link element given the URL it names (`None` for none): an
/// anchor to the URL, or the element's own BbCode.
pub open spec fn link_open_to(el: ElementV, target: Option<Seq<char>>) -> Seq<char> {
    match target {
        Some(url) => "<a class=\"bbCode tagUrl\" ref=\"nofollow\" href=\""@ + url + "\">"@,
        None => bbcode_open(el),
    }
}

/// What opens a link element: an anchor to its URL, or its own BbCode when it
/// names no URL.
pub open spec fn link_open(el: ElementV) -> Seq<char> {
    link_open_to(el, link_target(el))
}

impl Tag {
    pub fn open_url_tag(el: &Element) -> (s: String)
        ensures
            s@ == link_open(el@),
    {
        let mut url: Option<ParsedUrl> = None;
        if let Some(arg) = el.get_argument() {
            url = url_arg(arg.as_str());
            // Unfurling options are not read.
        }
        if url.is_none() {
            if let Some(content) = el.get_contents() {
                url = parse_url(content.as_str());
            }
        }
        Self::open_url_tag_to(el, match &url { Some(u) => Some(u.serialization.as_str()), None => None })
    }

    /// What opens a link element given the serialization of the URL it names
    /// (`link_open_to`).
    pub fn open_url_tag_to(el: &Element, target: Option<&str>) -> (s: String)
        ensures
            s@ == link_open_to(el@, match target { Some(t) => Some(t@), None => None }),
    {
        match target {
            Some(url) => {
                let mut s = "<a class=\"bbCode tagUrl\" ref=\"nofollow\" href=\"".to_owned();
                push_str(&mut s, url);
                push_str(&mut s, "\">");
                s
            },
            // If we have no content, we are broken.
            None => {
                let mut s = "[".to_owned();
                if let Some(tag) = el.get_tag_name() {
                    push_str(&mut s, tag.as_str());
                }
                if let Some(arg) = el.get_argument() {
                    push_str(&mut s, arg.as_str());
                }
                push_str(&mut s, "]");
                assert(s@ =~= bbcode_open(el@));
                s
            },
        }
    }
}

/// The URL an argument names after its leading `=`.
fn url_arg(input: &str) -> (r: Option<ParsedUrl>)
    ensures
        match r {
            Some(u) => url_of_arg(input@) == Some(u.serialization@),
            None => url_of_arg(input@) is None,
        },
{
    let n = input.unicode_len();
    if n == 0 || input.get_char(0) != '=' {
        return None;
    }
    let rest = input.substring_char(1, n);
    assert(rest@ =~= input@.drop_first());
    parse_url(rest)
}

} // verus!
