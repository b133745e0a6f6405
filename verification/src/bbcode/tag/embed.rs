//! The `[img]` and `[url]` tags.
use super::super::element::{ev_open_str, Element, ElementV};
use super::super::sanitation::{escape_html, SafeHtml};
use super::{ev_broken, Tag};
use crate::weburl::{is_web_scheme, parse_url, url_parse, web_scheme, ParsedUrl};
use vstd::prelude::*;
use vstd::string::StrSliceExecFns;

verus! {

/// `<img src="URL" />`
pub open spec fn img_html(url: Seq<char>) -> Seq<char> {
    "<img src=\""@ + url + "\" />"@
}

/// `<a class="bbCode tagUrl" ref="nofollow" href="URL">`
pub open spec fn link_open_html(url: Seq<char>) -> Seq<char> {
    "<a class=\"bbCode tagUrl\" ref=\"nofollow\" href=\""@ + url + "\">"@
}

/// What filling an `[img]` element with its raw contents gives: the image when
/// the contents are an `http` or `https` URL (the element's contents are then
/// cleared), otherwise the escaped contents, with the element marked broken.
pub open spec fn fill_img(el: ElementV, contents: Seq<char>) -> (Seq<char>, ElementV) {
    match url_parse(contents) {
        Some((scheme, ser)) => if is_web_scheme(scheme) {
            (img_html(escape_html(ser)), ElementV { contents: None, ..el })
        } else {
            (escape_html(contents), ev_broken(el))
        },
        None => (escape_html(contents), ev_broken(el)),
    }
}

/// What opening a `[url]` element gives: its escaped raw tag when it is broken,
/// otherwise nothing (the link opens with the contents).
pub open spec fn open_url(el: ElementV) -> Seq<char> {
    if el.broken {
        escape_html(ev_open_str(el))
    } else {
        Seq::empty()
    }
}

/// The URL named by a `[url=...]` argument: nothing without a leading `=` or when
/// the rest does not parse; the serialization when its scheme is `http` or
/// `https`; an error for any other scheme.
pub open spec fn url_arg_of(arg: Seq<char>) -> Option<Result<Seq<char>, ()>> {
    if arg.len() > 0 && arg[0] == '=' {
        match url_parse(arg.drop_first()) {
            Some((scheme, ser)) => Some(if is_web_scheme(scheme) { Ok(ser) } else { Err(()) }),
            None => None,
        }
    } else {
        None
    }
}

/// What filling a `[url]` element gives, from its raw and its escaped contents:
/// a link to the argument's URL, or else to the contents when they parse as a
/// URL, followed by the escaped contents; otherwise the escaped contents alone,
/// with the element marked broken.
pub open spec fn fill_url(el: ElementV, contents: Seq<char>, sanitized: Seq<char>) -> (Seq<char>, ElementV) {
    let from_arg = match el.argument {
        Some(arg) => url_arg_of(arg),
        None => None,
    };
    match from_arg {
        Some(Err(_)) => (sanitized, ev_broken(el)),
        Some(Ok(url)) => (link_open_html(escape_html(url)) + sanitized, el),
        None => match url_parse(contents) {
            Some((_, ser)) => (link_open_html(escape_html(ser)) + sanitized, el),
            None => (sanitized, ev_broken(el)),
        },
    }
}

impl Tag {
    pub fn open_img_tag(_el: &Element) -> (s: SafeHtml)
        ensures
            s@ == Seq::<char>::empty(),
    {
        SafeHtml::new()
    }

    pub fn fill_img_tag(el: &mut Element, contents: &str) -> (s: SafeHtml)
        ensures
            (s@, final(el)@) == fill_img(old(el)@, contents@),
    {
        // Our URL comes from inside the tag.
        if let Some(url) = parse_url(contents) {
            if web_scheme(url.scheme.as_str()) {
                el.clear_contents();
                let sanitized_url = SafeHtml::sanitize(url.serialization.as_str());
                let mut s = SafeHtml::with_capacity(32);
                s.push_literal("<img src=\"");
                s.push(&sanitized_url);
                s.push_literal("\" />");
                return s;
            }
        }
        el.set_broken();
        SafeHtml::sanitize(contents)
    }

    pub fn open_url_tag(el: &Element) -> (s: SafeHtml)
        ensures
            s@ == open_url(el@),
    {
        if el.is_broken() {
            SafeHtml::sanitize(el.get_raw())
        } else {
            SafeHtml::new()
        }
    }

    pub fn fill_url_tag(el: &mut Element, contents: &str, sanitized: SafeHtml) -> (s: SafeHtml)
        ensures
            (s@, final(el)@) == fill_url(old(el)@, contents@, sanitized@),
    {
        let mut url: Option<ParsedUrl> = None;
        if let Some(arg) = el.get_argument() {
            match url_arg(arg) {
                Some(Ok(u)) => url = Some(u),
                Some(Err(_)) => {
                    el.set_broken();
                    return sanitized;
                },
                None => {},
            }
            // Unfurling options are not read.
        }
        if url.is_none() {
            url = parse_url(contents);
        }
        match url {
            Some(u) => {
                let sanitized_url = SafeHtml::sanitize(u.serialization.as_str());
                let mut s = SafeHtml::with_capacity(64);
                s.push_literal("<a class=\"bbCode tagUrl\" ref=\"nofollow\" href=\"");
                s.push(&sanitized_url);
                s.push_literal("\">");
                s.push(&sanitized);
                s
            },
            // If we have no content, we are broken.
            None => {
                el.set_broken();
                sanitized
            },
        }
    }
}

/// The URL named by a `[url=...]` argument (see `url_arg_of`).
fn url_arg(input: &str) -> (r: Option<Result<ParsedUrl, &'static str>>)
    ensures
        match (r, url_arg_of(input@)) {
            (None, None) => true,
            (Some(Ok(u)), Some(Ok(ser))) => u.serialization@ == ser,
            (Some(Err(_)), Some(Err(_))) => true,
            _ => false,
        },
{
    let n = input.unicode_len();
    if n == 0 || input.get_char(0) != '=' {
        return None;
    }
    let rest = input.substring_char(1, n);
    assert(rest@ =~= input@.drop_first());
    match parse_url(rest) {
        Some(url) => Some(if web_scheme(url.scheme.as_str()) { Ok(url) } else { Err("Unsupported scheme") }),
        None => None,
    }
}

} // verus!
