//! The `[color]` tag.
use super::super::element::{ev_open_str, Element, ElementV};
use super::super::sanitation::{escape_html, SafeHtml};
use super::{ev_broken, Tag};
use crate::text::str_eq;
use vstd::prelude::*;
use vstd::string::StrSliceExecFns;

verus! {

/// A hexadecimal digit.
pub open spec fn is_hex_digit(c: char) -> bool {
    ('0' <= c && c <= '9') || ('a' <= c && c <= 'f') || ('A' <= c && c <= 'F')
}

/// An ASCII letter.
pub open spec fn is_ascii_letter(c: char) -> bool {
    ('a' <= c && c <= 'z') || ('A' <= c && c <= 'Z')
}

/// `#` followed by exactly six hexadecimal digits.
pub open spec fn is_hex_color(s: Seq<char>) -> bool {
    s.len() == 7 && s[0] == '#' && forall|i: int| 1 <= i < 7 ==> is_hex_digit(#[trigger] s[i])
}

/// One or more ASCII letters that spell a name of the web-safe list, exactly.
pub open spec fn is_websafe_color(s: Seq<char>) -> bool {
    &&& s.len() > 0
    &&& forall|i: int| 0 <= i < s.len() ==> is_ascii_letter(#[trigger] s[i])
    &&& exists|k: int| 0 <= k < WEBSAFE_COLORS@.len() && (#[trigger] WEBSAFE_COLORS@[k])@ == s
}

/// The color an argument names: the text after a leading `=` when it is a hex
/// color or a web-safe color name.
pub open spec fn color_of(arg: Seq<char>) -> Option<Seq<char>> {
    if arg.len() > 0 && arg[0] == '=' && (is_hex_color(arg.drop_first()) || is_websafe_color(arg.drop_first())) {
        Some(arg.drop_first())
    } else {
        None
    }
}

/// `<span class="bbCode tagColor" style="color: COLOR">`
pub open spec fn color_span(color: Seq<char>) -> Seq<char> {
    "<span class=\"bbCode tagColor\" style=\"color: "@ + color + "\">"@
}

/// What opening a `[color]` element gives: the span when its argument names a
/// color, otherwise the escaped raw tag, with the element marked broken.
pub open spec fn open_color(el: ElementV) -> (Seq<char>, ElementV) {
    match el.argument {
        Some(arg) => match color_of(arg) {
            Some(color) => (color_span(color), el),
            None => (escape_html(ev_open_str(el)), ev_broken(el)),
        },
        None => (escape_html(ev_open_str(el)), ev_broken(el)),
    }
}

impl Tag {
    pub fn open_color_tag(el: &mut Element) -> (s: SafeHtml)
        ensures
            (s@, final(el)@) == open_color(old(el)@),
    {
        if let Some(arg) = el.get_argument() {
            if let Some(color) = color_from(arg) {
                proof { lemma_escape_identity(color@); }
                let mut s = SafeHtml::from_literal("<span class=\"bbCode tagColor\" style=\"color: ");
                s.push(&SafeHtml::sanitize(color));
                s.push_literal("\">");
                return s;
            }
        }
        Self::open_broken_tag(el)
    }
}

/// Escaping leaves a string of letters, digits and `#` unchanged.
proof fn lemma_escape_identity(s: Seq<char>)
    requires
        forall|i: int| 0 <= i < s.len() ==> (is_hex_digit(#[trigger] s[i]) || is_ascii_letter(s[i]) || s[i] == '#'),
    ensures
        escape_html(s) == s,
    decreases s.len(),
{
    if s.len() > 0 {
        lemma_escape_identity(s.drop_last());
        assert(s.drop_last().push(s.last()) =~= s);
    }
}

//
// Lexer logic
//

/// The color named by an argument: the text after `=` when it is a hex color or
/// a web-safe name.
fn color_from(input: &str) -> (r: Option<&str>)
    ensures
        match r {
            Some(c) => color_of(input@) == Some(c@),
            None => color_of(input@) is None,
        },
{
    let n = input.unicode_len();
    if n == 0 || input.get_char(0) != '=' {
        return None;
    }
    let color = input.substring_char(1, n);
    assert(color@ =~= input@.drop_first());
    if color_hex(color) || color_websafe(color) {
        Some(color)
    } else {
        None
    }
}

/// `#` and six hexadecimal digits, nothing more.
fn color_hex(input: &str) -> (b: bool)
    ensures
        b == is_hex_color(input@),
{
    let n = input.unicode_len();
    if n != 7 || input.get_char(0) != '#' {
        return false;
    }
    let mut i: usize = 1;
    while i < 7
        invariant
            input@.len() == 7,
            input@[0] == '#',
            1 <= i <= 7,
            forall|k: int| 1 <= k < i ==> is_hex_digit(#[trigger] input@[k]),
        decreases 7 - i,
    {
        if !is_hex_digit_exec(input.get_char(i)) {
            return false;
        }
        i = i + 1;
    }
    true
}

fn is_hex_digit_exec(c: char) -> (b: bool)
    ensures
        b == is_hex_digit(c),
{
    ('0' <= c && c <= '9') || ('a' <= c && c <= 'f') || ('A' <= c && c <= 'F')
}

/// Letters only, and a name of the web-safe list.
fn color_websafe(input: &str) -> (b: bool)
    ensures
        b == is_websafe_color(input@),
{
    let n = input.unicode_len();
    if n == 0 {
        return false;
    }
    let mut i: usize = 0;
    while i < n
        invariant
            n == input@.len(),
            i <= n,
            forall|k: int| 0 <= k < i ==> is_ascii_letter(#[trigger] input@[k]),
        decreases n - i,
    {
        let c = input.get_char(i);
        if !(('a' <= c && c <= 'z') || ('A' <= c && c <= 'Z')) {
            return false;
        }
        i = i + 1;
    }
    let mut k: usize = 0;
    while k < WEBSAFE_COLORS.len()
        invariant
            n == input@.len(),
            n > 0,
            forall|j: int| 0 <= j < n ==> is_ascii_letter(#[trigger] input@[j]),
            k <= WEBSAFE_COLORS@.len(),
            forall|j: int| 0 <= j < k ==> (#[trigger] WEBSAFE_COLORS@[j])@ != input@,
        decreases WEBSAFE_COLORS@.len() - k,
    {
        if str_eq(WEBSAFE_COLORS[k], input) {
            assert(WEBSAFE_COLORS@[k as int]@ == input@);
            return true;
        }
        k = k + 1;
    }
    false
}

/// Color names accepted by `[color=name]`.
pub const WEBSAFE_COLORS: [&'static str; 149] = [
    "aliceblue",
    "antiquewhite",
    "aqua",
    "aquamarine",
    "azure",
    "beige",
    "bisque",
    "black",
    "blanchedalmond",
    "blue",
    "blueviolet",
    "brown",
    "burlywood",
    "cadetblue",
    "chartreuse",
    "chocolate",
    "coral",
    "cornflowerblue",
    "cornsilk",
    "crimson",
    "cyan",
    "darkblue",
    "darkcyan",
    "darkgoldenrod",
    "darkgray",
    "darkgrey",
    "darkgreen",
    "darkkhaki",
    "darkmagenta",
    "darkolivegreen",
    "darkorange",
    "darkorchid",
    "darkred",
    "darksalmon",
    "darkseagreen",
    "darkslateblue",
    "darkslategray",
    "darkslategrey",
    "darkturquoise",
    "darkviolet",
    "deeppink",
    "deepskyblue",
    "dimgray",
    "dimgrey",
    "dodgerblue",
    "firebrick",
    "floralwhite",
    "forestgreen",
    "fuchsia",
    "gainsboro",
    "ghostwhite",
    "gold",
    "goldenrod",
    "gray",
    "grey",
    "green",
    "greenyellow",
    "honeydew",
    "hotpink",
    "indianred ",
    "indigo ",
    "ivory",
    "khaki",
    "lavender",
    "lavenderblush",
    "lawngreen",
    "lemonchiffon",
    "lightblue",
    "lightcoral",
    "lightcyan",
    "lightgoldenrodyellow",
    "lightgray",
    "lightgrey",
    "lightgreen",
    "lightpink",
    "lightsalmon",
    "lightseagreen",
    "lightskyblue",
    "lightslategray",
    "lightslategrey",
    "lightsteelblue",
    "lightyellow",
    "lime",
    "limegreen",
    "linen",
    "magenta",
    "maroon",
    "mediumaquamarine",
    "mediumblue",
    "mediumorchid",
    "mediumpurple",
    "mediumseagreen",
    "mediumslateblue",
    "mediumspringgreen",
    "mediumturquoise",
    "mediumvioletred",
    "midnightblue",
    "mintcream",
    "mistyrose",
    "moccasin",
    "navajowhite",
    "navy",
    "oldlace",
    "olive",
    "olivedrab",
    "orange",
    "orangered",
    "orchid",
    "palegoldenrod",
    "palegreen",
    "paleturquoise",
    "palevioletred",
    "papayawhip",
    "peachpuff",
    "peru",
    "pink",
    "plum",
    "powderblue",
    "purple",
    "rebeccapurple",
    "red",
    "rosybrown",
    "royalblue",
    "saddlebrown",
    "salmon",
    "sandybrown",
    "seagreen",
    "seashell",
    "sienna",
    "silver",
    "skyblue",
    "slateblue",
    "slategray",
    "slategrey",
    "snow",
    "springgreen",
    "steelblue",
    "tan",
    "teal",
    "thistle",
    "tomato",
    "turquoise",
    "transparant",
    "violet",
    "wheat",
    "white",
    "whitesmoke",
    "yellow",
    "yellowgreen",
];

} // verus!
