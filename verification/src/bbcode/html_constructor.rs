//! Generates HTML from a grouped syntax tree, each group opening and closing
//! around its children.
use super::ast::{ASTElement, ASTElementV, GroupType};
use super::sanitation::string_with_capacity;
use super::tree::{lemma_tree_child, tree_wf, NodeV, Tree};
use crate::text::{push_str, str_eq};
use vstd::prelude::*;

verus! {

/// `pre`, the argument and `post` when the element has an argument; nothing otherwise.
pub open spec fn with_arg(el: ASTElementV, pre: Seq<char>, post: Seq<char>) -> Seq<char> {
    match el.argument {
        Some(a) => pre + a + post,
        None => Seq::empty(),
    }
}

/// `close` when the element has an argument (its opening was written); nothing otherwise.
pub open spec fn close_if_arg(el: ASTElementV, close: Seq<char>) -> Seq<char> {
    match el.argument {
        Some(_) => close,
        None => Seq::empty(),
    }
}

/// A list argument that names an ordered list's numbering.
pub open spec fn is_ordered_type(a: Seq<char>) -> bool {
    a == "1"@ || a == "a"@ || a == "A"@ || a == "i"@ || a == "I"@
}

/// A list argument that names an unordered list's marker.
pub open spec fn is_list_style(a: Seq<char>) -> bool {
    a == "circle"@ || a == "square"@ || a == "none"@
}

/// The BbCode of a group that cannot be rendered: `[tag]` or `[tag=arg]`, then its text.
pub open spec fn kaput_html(tag: Seq<char>, arg: Option<Seq<char>>, text: Option<Seq<char>>) -> Seq<char> {
    let open = match arg {
        Some(a) => "["@ + tag + "="@ + a + "]"@,
        None => "["@ + tag + "]"@,
    };
    match text {
        Some(t) => open + t,
        None => open,
    }
}

/// The HTML that opens an element; `pretty` hides groups that cannot be rendered.
pub open spec fn start_html(el: ASTElementV, pretty: bool) -> Seq<char> {
    match el.ele_type {
        GroupType::Text => match el.text_contents {
            Some(t) => t,
            None => Seq::empty(),
        },
        GroupType::Bold => "<b>"@,
        GroupType::Strong => "<strong>"@,
        GroupType::Italic => "<i>"@,
        GroupType::Emphasis => "<em>"@,
        GroupType::Underline => "<span class=\"underline\">"@,
        GroupType::Strikethrough => "<s>"@,
        GroupType::Smallcaps => "<span class=\"smallcaps\">"@,
        GroupType::Monospace => "<span class=\"monospace\">"@,
        GroupType::Subscript => "<sub>"@,
        GroupType::Superscript => "<sup>"@,
        GroupType::Spoiler => "<span class=\"spoiler\">"@,
        GroupType::Hr => "<hr />"@,
        GroupType::Br => "<br />"@,
        GroupType::Center => "<div class=\"center\">"@,
        GroupType::Right => "<div class=\"right\">"@,
        GroupType::Pre => "<pre>"@,
        GroupType::Code => "<code>"@,
        GroupType::Table => "<table>"@,
        GroupType::TableRow => "<tr>"@,
        GroupType::TableHeader => "<th>"@,
        GroupType::TableData => "<td>"@,
        GroupType::TableCaption => "<caption>"@,
        GroupType::Header => with_arg(el, "<h"@, ">"@),
        GroupType::Colour => with_arg(el, "<span style=\"color:"@, ";\">"@),
        GroupType::Url => with_arg(el, "<a href=\""@, "\" rel=\"nofollow\">"@),
        GroupType::Email => with_arg(el, "<a href=\""@, "\">"@),
        GroupType::Opacity => with_arg(el, "<span style=\"opacity:"@, ";\">"@),
        GroupType::Size => with_arg(el, "<span style=\"font-size:"@, "rem;\">"@),
        GroupType::Image => with_arg(el, "<img src=\""@, "\">"@),
        GroupType::Figure => with_arg(el, "<figure class=\"figure-"@, "\">"@),
        GroupType::Quote => match el.argument {
            Some(a) => "<blockquote data-author=\""@ + a + "\">"@,
            None => "<blockquote>"@,
        },
        GroupType::Footnote => match el.argument {
            Some(a) => "<span class=\"footnote\" data-symbol=\""@ + a + "\">"@,
            None => "<span class=\"footnote\">"@,
        },
        GroupType::CodeBlock => match el.argument {
            Some(a) => "<pre data-language=\""@ + a + "\">"@,
            None => "<pre>"@,
        },
        GroupType::List => match el.argument {
            Some(a) => if is_ordered_type(a) {
                "<ol type=\""@ + a + "\">"@
            } else if is_list_style(a) {
                "<ul style=\"list-style-type:"@ + a + ";\">"@
            } else {
                "<ul>"@
            },
            None => "<ul>"@,
        },
        GroupType::Indent => with_arg(el, "<div class=\"indent-"@, "\">"@),
        GroupType::ListItem => "<li>"@,
        GroupType::Math => "<span class=\"math_container\">"@,
        GroupType::MathBlock => "<div class=\"math_container\">"@,
        GroupType::Embed => with_arg(el, "<div class=\"embed\" data-content=\""@, "\">"@),
        GroupType::Kaput(_, tag) => if !pretty {
            kaput_html(tag@, el.argument, el.text_contents)
        } else {
            Seq::empty()
        },
        _ => Seq::empty(),
    }
}

/// The HTML that closes an element.
pub open spec fn end_html(el: ASTElementV, pretty: bool) -> Seq<char> {
    match el.ele_type {
        GroupType::Bold => "</b>"@,
        GroupType::Strong => "</strong>"@,
        GroupType::Italic => "</i>"@,
        GroupType::Emphasis => "</em>"@,
        GroupType::Subscript => "</sub>"@,
        GroupType::Superscript => "</sup>"@,
        GroupType::Strikethrough => "</s>"@,
        GroupType::Quote => "</blockquote>"@,
        GroupType::Code => "</code>"@,
        GroupType::Figure => close_if_arg(el, "</figure>"@),
        GroupType::Table => "</table>"@,
        GroupType::TableRow => "</tr>"@,
        GroupType::TableHeader => "</th>"@,
        GroupType::TableData => "</td>"@,
        GroupType::TableCaption => "</caption>"@,
        GroupType::List => match el.argument {
            Some(a) => if is_ordered_type(a) { "</ol>"@ } else { "</ul>"@ },
            None => "</ul>"@,
        },
        GroupType::ListItem => "</li>"@,
        GroupType::Header => with_arg(el, "</h"@, ">"@),
        GroupType::Url | GroupType::Email => close_if_arg(el, "</a>"@),
        GroupType::Pre | GroupType::CodeBlock => "</pre>"@,
        GroupType::Underline | GroupType::Smallcaps | GroupType::Monospace | GroupType::Spoiler
        | GroupType::Footnote | GroupType::Math => "</span>"@,
        GroupType::Colour | GroupType::Opacity | GroupType::Size => close_if_arg(el, "</span>"@),
        GroupType::Center | GroupType::Right | GroupType::MathBlock => "</div>"@,
        GroupType::Indent | GroupType::Embed => close_if_arg(el, "</div>"@),
        GroupType::Kaput(_, tag) => if !pretty && !el.is_void {
            "[/"@ + tag@ + "]"@
        } else {
            Seq::empty()
        },
        _ => Seq::empty(),
    }
}

/// What opening an element writes of user text and of groups that cannot be
/// rendered: a text element writes its text (nothing without one), and with
/// `pretty` a group that cannot be rendered writes nothing. (`construct` only
/// appends `node_html`, built from these openings, to what was written before.)
pub proof fn lemma_start_html_text_and_hidden(el: ASTElementV, pretty: bool)
    ensures
        el.ele_type is Text ==> start_html(el, pretty) == match el.text_contents {
            Some(t) => t,
            None => Seq::<char>::empty(),
        },
        (el.ele_type is Kaput && pretty) ==> start_html(el, pretty) == Seq::<char>::empty(),
        (el.ele_type is Kaput && pretty) ==> end_html(el, pretty) == Seq::<char>::empty(),
{
}

/// A list numbered `1`, `a`, `A`, `i` or `I` is an ordered list of that
/// numbering; a list marked `circle`, `square` or `none` is an unordered list
/// with that marker; any other list is a plain unordered list.
pub proof fn lemma_list_html(el: ASTElementV, pretty: bool, a: Seq<char>)
    requires
        el.ele_type is List,
    ensures
        el.argument == Some(a) && (a == "1"@ || a == "a"@ || a == "A"@ || a == "i"@ || a == "I"@) ==> {
            &&& start_html(el, pretty) == "<ol type=\""@ + a + "\">"@
            &&& end_html(el, pretty) == "</ol>"@
        },
        el.argument == Some(a) && !(a == "1"@ || a == "a"@ || a == "A"@ || a == "i"@ || a == "I"@)
            && (a == "circle"@ || a == "square"@ || a == "none"@) ==> {
            &&& start_html(el, pretty) == "<ul style=\"list-style-type:"@ + a + ";\">"@
            &&& end_html(el, pretty) == "</ul>"@
        },
        el.argument == Some(a) && !(a == "1"@ || a == "a"@ || a == "A"@ || a == "i"@ || a == "I"@
            || a == "circle"@ || a == "square"@ || a == "none"@) ==> {
            &&& start_html(el, pretty) == "<ul>"@
            &&& end_html(el, pretty) == "</ul>"@
        },
        el.argument is None ==> {
            &&& start_html(el, pretty) == "<ul>"@
            &&& end_html(el, pretty) == "</ul>"@
        },
{
}

/// A void tag: one that closes itself.
pub open spec fn is_void_group(t: GroupType) -> bool {
    t is Hr || t is Br || t is Image
}

/// The name of the HTML element that opening `el` starts, for the kinds of
/// group that open one.
pub open spec fn html_tag_name(el: ASTElementV) -> Seq<char> {
    match el.ele_type {
        GroupType::Bold => "b"@,
        GroupType::Strong => "strong"@,
        GroupType::Italic => "i"@,
        GroupType::Emphasis => "em"@,
        GroupType::Strikethrough => "s"@,
        GroupType::Subscript => "sub"@,
        GroupType::Superscript => "sup"@,
        GroupType::Underline | GroupType::Smallcaps | GroupType::Monospace | GroupType::Spoiler
        | GroupType::Colour | GroupType::Opacity | GroupType::Size | GroupType::Footnote
        | GroupType::Math => "span"@,
        GroupType::Center | GroupType::Right | GroupType::Indent | GroupType::MathBlock
        | GroupType::Embed => "div"@,
        GroupType::Pre | GroupType::CodeBlock => "pre"@,
        GroupType::Code => "code"@,
        GroupType::Table => "table"@,
        GroupType::TableRow => "tr"@,
        GroupType::TableHeader => "th"@,
        GroupType::TableData => "td"@,
        GroupType::TableCaption => "caption"@,
        GroupType::Header => match el.argument {
            Some(a) => "h"@ + a,
            None => Seq::empty(),
        },
        GroupType::Url | GroupType::Email => "a"@,
        GroupType::Figure => "figure"@,
        GroupType::Quote => "blockquote"@,
        GroupType::List => match el.argument {
            Some(a) => if is_ordered_type(a) { "ol"@ } else { "ul"@ },
            None => "ul"@,
        },
        GroupType::ListItem => "li"@,
        _ => Seq::empty(),
    }
}

/// Openings and closings come in pairs: for every kind of group but text and
/// groups that cannot be rendered, nothing closes exactly where nothing opened
/// or the opening is a void tag.
pub proof fn lemma_open_close_paired(el: ASTElementV, pretty: bool)
    requires
        !(el.ele_type is Text),
        !(el.ele_type is Kaput),
    ensures
        end_html(el, pretty).len() == 0 <==> (start_html(el, pretty).len() == 0 || is_void_group(el.ele_type)),
{
    reveal_strlit(";\">");
    reveal_strlit("</a>");
    reveal_strlit("</b>");
    reveal_strlit("</blockquote>");
    reveal_strlit("</caption>");
    reveal_strlit("</code>");
    reveal_strlit("</div>");
    reveal_strlit("</em>");
    reveal_strlit("</figure>");
    reveal_strlit("</h");
    reveal_strlit("</i>");
    reveal_strlit("</li>");
    reveal_strlit("</ol>");
    reveal_strlit("</pre>");
    reveal_strlit("</s>");
    reveal_strlit("</span>");
    reveal_strlit("</strong>");
    reveal_strlit("</sub>");
    reveal_strlit("</sup>");
    reveal_strlit("</table>");
    reveal_strlit("</td>");
    reveal_strlit("</th>");
    reveal_strlit("</tr>");
    reveal_strlit("</ul>");
    reveal_strlit("<a href=\"");
    reveal_strlit("<b>");
    reveal_strlit("<blockquote data-author=\"");
    reveal_strlit("<blockquote>");
    reveal_strlit("<br />");
    reveal_strlit("<caption>");
    reveal_strlit("<code>");
    reveal_strlit("<div class=\"center\">");
    reveal_strlit("<div class=\"embed\" data-content=\"");
    reveal_strlit("<div class=\"indent-");
    reveal_strlit("<div class=\"math_container\">");
    reveal_strlit("<div class=\"right\">");
    reveal_strlit("<em>");
    reveal_strlit("<figure class=\"figure-");
    reveal_strlit("<h");
    reveal_strlit("<hr />");
    reveal_strlit("<i>");
    reveal_strlit("<img src=\"");
    reveal_strlit("<li>");
    reveal_strlit("<ol type=\"");
    reveal_strlit("<pre data-language=\"");
    reveal_strlit("<pre>");
    reveal_strlit("<s>");
    reveal_strlit("<span class=\"footnote\" data-symbol=\"");
    reveal_strlit("<span class=\"footnote\">");
    reveal_strlit("<span class=\"math_container\">");
    reveal_strlit("<span class=\"monospace\">");
    reveal_strlit("<span class=\"smallcaps\">");
    reveal_strlit("<span class=\"spoiler\">");
    reveal_strlit("<span class=\"underline\">");
    reveal_strlit("<span style=\"color:");
    reveal_strlit("<span style=\"font-size:");
    reveal_strlit("<span style=\"opacity:");
    reveal_strlit("<strong>");
    reveal_strlit("<sub>");
    reveal_strlit("<sup>");
    reveal_strlit("<table>");
    reveal_strlit("<td>");
    reveal_strlit("<th>");
    reveal_strlit("<tr>");
    reveal_strlit("<ul style=\"list-style-type:");
    reveal_strlit("<ul>");
    reveal_strlit(">");
    reveal_strlit("[/");
    reveal_strlit("\" rel=\"nofollow\">");
    reveal_strlit("\">");
    reveal_strlit("]");
    reveal_strlit("rem;\">");
}

/// An opening `<`, a name and the rest, where the rest starts with a space or `>`.
proof fn lemma_opens(o: Seq<char>, n: Seq<char>, rest: Seq<char>)
    requires
        o == "<"@ + n + rest,
        rest.len() > 0,
        rest[0] == ' ' || rest[0] == '>',
    ensures
        o.len() > n.len() + 1,
        o.take(n.len() + 1 as int) == "<"@ + n,
        o[n.len() + 1 as int] == ' ' || o[n.len() + 1 as int] == '>',
{
    reveal_strlit("<");
    assert(o.take(n.len() + 1 as int) =~= "<"@ + n);
    assert(o[n.len() + 1 as int] == rest[0]);
}

/// Each opening tag is closed by its own name: for every kind of group but
/// text and groups that cannot be rendered, an opening that writes something
/// other than a void tag writes `<`, the element's name and then a space or
/// `>`, and the closing writes `</`, the same name and `>`.
#[verifier::spinoff_prover]
#[verifier::rlimit(50)]
pub proof fn lemma_open_close_names(el: ASTElementV, pretty: bool)
    requires
        !(el.ele_type is Text),
        !(el.ele_type is Kaput),
        start_html(el, pretty).len() > 0,
        !is_void_group(el.ele_type),
    ensures
        ({
            let n = html_tag_name(el);
            let o = start_html(el, pretty);
            let k = n.len() + 1;
            &&& o.len() > k
            &&& o.take(k as int) == "<"@ + n
            &&& (o[k as int] == ' ' || o[k as int] == '>')
            &&& end_html(el, pretty) == "</"@ + n + ">"@
        }),
{
    reveal_strlit(";\">");
    reveal_strlit("</a>");
    reveal_strlit("</b>");
    reveal_strlit("</blockquote>");
    reveal_strlit("</caption>");
    reveal_strlit("</code>");
    reveal_strlit("</div>");
    reveal_strlit("</em>");
    reveal_strlit("</figure>");
    reveal_strlit("</h");
    reveal_strlit("</i>");
    reveal_strlit("</li>");
    reveal_strlit("</ol>");
    reveal_strlit("</pre>");
    reveal_strlit("</s>");
    reveal_strlit("</span>");
    reveal_strlit("</strong>");
    reveal_strlit("</sub>");
    reveal_strlit("</sup>");
    reveal_strlit("</table>");
    reveal_strlit("</td>");
    reveal_strlit("</th>");
    reveal_strlit("</tr>");
    reveal_strlit("</ul>");
    reveal_strlit("<a href=\"");
    reveal_strlit("<b>");
    reveal_strlit("<blockquote data-author=\"");
    reveal_strlit("<blockquote>");
    reveal_strlit("<br />");
    reveal_strlit("<caption>");
    reveal_strlit("<code>");
    reveal_strlit("<div class=\"center\">");
    reveal_strlit("<div class=\"embed\" data-content=\"");
    reveal_strlit("<div class=\"indent-");
    reveal_strlit("<div class=\"math_container\">");
    reveal_strlit("<div class=\"right\">");
    reveal_strlit("<em>");
    reveal_strlit("<figure class=\"figure-");
    reveal_strlit("<h");
    reveal_strlit("<hr />");
    reveal_strlit("<i>");
    reveal_strlit("<img src=\"");
    reveal_strlit("<li>");
    reveal_strlit("<ol type=\"");
    reveal_strlit("<pre data-language=\"");
    reveal_strlit("<pre>");
    reveal_strlit("<s>");
    reveal_strlit("<span class=\"footnote\" data-symbol=\"");
    reveal_strlit("<span class=\"footnote\">");
    reveal_strlit("<span class=\"math_container\">");
    reveal_strlit("<span class=\"monospace\">");
    reveal_strlit("<span class=\"smallcaps\">");
    reveal_strlit("<span class=\"spoiler\">");
    reveal_strlit("<span class=\"underline\">");
    reveal_strlit("<span style=\"color:");
    reveal_strlit("<span style=\"font-size:");
    reveal_strlit("<span style=\"opacity:");
    reveal_strlit("<strong>");
    reveal_strlit("<sub>");
    reveal_strlit("<sup>");
    reveal_strlit("<table>");
    reveal_strlit("<td>");
    reveal_strlit("<th>");
    reveal_strlit("<tr>");
    reveal_strlit("<ul style=\"list-style-type:");
    reveal_strlit("<ul>");
    reveal_strlit(">");
    reveal_strlit("[/");
    reveal_strlit("\" rel=\"nofollow\">");
    reveal_strlit("\">");
    reveal_strlit("]");
    reveal_strlit("a");
    reveal_strlit("b");
    reveal_strlit("blockquote");
    reveal_strlit("caption");
    reveal_strlit("code");
    reveal_strlit("div");
    reveal_strlit("em");
    reveal_strlit("figure");
    reveal_strlit("h");
    reveal_strlit("i");
    reveal_strlit("li");
    reveal_strlit("ol");
    reveal_strlit("pre");
    reveal_strlit("rem;\">");
    reveal_strlit("s");
    reveal_strlit("span");
    reveal_strlit("strong");
    reveal_strlit("sub");
    reveal_strlit("sup");
    reveal_strlit("table");
    reveal_strlit("td");
    reveal_strlit("th");
    reveal_strlit("tr");
    reveal_strlit("ul");
    reveal_strlit("<");
    reveal_strlit("</");
    reveal_strlit("<b>");
    reveal_strlit("<strong>");
    reveal_strlit("<i>");
    reveal_strlit("b");
    reveal_strlit("strong");
    reveal_strlit("i");
    reveal_strlit("</b>");
    reveal_strlit("</strong>");
    reveal_strlit("</i>");
    reveal_strlit(" class=\"center\">");
    reveal_strlit(" class=\"embed\" data-content=\"");
    reveal_strlit(" class=\"figure-");
    reveal_strlit(" class=\"footnote\" data-symbol=\"");
    reveal_strlit(" class=\"footnote\">");
    reveal_strlit(" class=\"indent-");
    reveal_strlit(" class=\"math_container\">");
    reveal_strlit(" class=\"monospace\">");
    reveal_strlit(" class=\"right\">");
    reveal_strlit(" class=\"smallcaps\">");
    reveal_strlit(" class=\"spoiler\">");
    reveal_strlit(" class=\"underline\">");
    reveal_strlit(" data-author=\"");
    reveal_strlit(" data-language=\"");
    reveal_strlit(" href=\"");
    reveal_strlit(" style=\"color:");
    reveal_strlit(" style=\"font-size:");
    reveal_strlit(" style=\"list-style-type:");
    reveal_strlit(" style=\"opacity:");
    reveal_strlit(" type=\"");
    reveal_strlit(";\">");
    reveal_strlit("<");
    reveal_strlit("</");
    reveal_strlit(">");
    reveal_strlit("\" rel=\"nofollow\">");
    reveal_strlit("\">");
    reveal_strlit("rem;\">");
    let n = html_tag_name(el);
    let o = start_html(el, pretty);
    match el.ele_type {
        GroupType::Bold => {
            assert(o =~= "<"@ + n + ">"@);
            lemma_opens(o, n, ">"@);
        },
        GroupType::Strong => {
            assert(o =~= "<"@ + n + ">"@);
            lemma_opens(o, n, ">"@);
        },
        GroupType::Italic => {
            assert(o =~= "<"@ + n + ">"@);
            lemma_opens(o, n, ">"@);
        },
        GroupType::Emphasis => {
            assert(o =~= "<"@ + n + ">"@);
            lemma_opens(o, n, ">"@);
        },
        GroupType::Strikethrough => {
            assert(o =~= "<"@ + n + ">"@);
            lemma_opens(o, n, ">"@);
        },
        GroupType::Subscript => {
            assert(o =~= "<"@ + n + ">"@);
            lemma_opens(o, n, ">"@);
        },
        GroupType::Superscript => {
            assert(o =~= "<"@ + n + ">"@);
            lemma_opens(o, n, ">"@);
        },
        GroupType::Pre => {
            assert(o =~= "<"@ + n + ">"@);
            lemma_opens(o, n, ">"@);
        },
        GroupType::Code => {
            assert(o =~= "<"@ + n + ">"@);
            lemma_opens(o, n, ">"@);
        },
        GroupType::Table => {
            assert(o =~= "<"@ + n + ">"@);
            lemma_opens(o, n, ">"@);
        },
        GroupType::TableRow => {
            assert(o =~= "<"@ + n + ">"@);
            lemma_opens(o, n, ">"@);
        },
        GroupType::TableHeader => {
            assert(o =~= "<"@ + n + ">"@);
            lemma_opens(o, n, ">"@);
        },
        GroupType::TableData => {
            assert(o =~= "<"@ + n + ">"@);
            lemma_opens(o, n, ">"@);
        },
        GroupType::TableCaption => {
            assert(o =~= "<"@ + n + ">"@);
            lemma_opens(o, n, ">"@);
        },
        GroupType::ListItem => {
            assert(o =~= "<"@ + n + ">"@);
            lemma_opens(o, n, ">"@);
        },
        GroupType::Underline => {
            assert(o =~= "<"@ + n + " class=\"underline\">"@);
            lemma_opens(o, n, " class=\"underline\">"@);
        },
        GroupType::Smallcaps => {
            assert(o =~= "<"@ + n + " class=\"smallcaps\">"@);
            lemma_opens(o, n, " class=\"smallcaps\">"@);
        },
        GroupType::Monospace => {
            assert(o =~= "<"@ + n + " class=\"monospace\">"@);
            lemma_opens(o, n, " class=\"monospace\">"@);
        },
        GroupType::Spoiler => {
            assert(o =~= "<"@ + n + " class=\"spoiler\">"@);
            lemma_opens(o, n, " class=\"spoiler\">"@);
        },
        GroupType::Center => {
            assert(o =~= "<"@ + n + " class=\"center\">"@);
            lemma_opens(o, n, " class=\"center\">"@);
        },
        GroupType::Right => {
            assert(o =~= "<"@ + n + " class=\"right\">"@);
            lemma_opens(o, n, " class=\"right\">"@);
        },
        GroupType::Math => {
            assert(o =~= "<"@ + n + " class=\"math_container\">"@);
            lemma_opens(o, n, " class=\"math_container\">"@);
        },
        GroupType::MathBlock => {
            assert(o =~= "<"@ + n + " class=\"math_container\">"@);
            lemma_opens(o, n, " class=\"math_container\">"@);
        },
        GroupType::Header => match el.argument {
            Some(a) => {
                assert(o =~= "<"@ + n + ">"@);
                lemma_opens(o, n, ">"@);
            },
            None => {},
        },
        GroupType::Colour => match el.argument {
            Some(a) => {
                assert(o =~= "<"@ + n + (" style=\"color:"@ + a + ";\">"@));
                lemma_opens(o, n, " style=\"color:"@ + a + ";\">"@);
            },
            None => {},
        },
        GroupType::Url => match el.argument {
            Some(a) => {
                assert(o =~= "<"@ + n + (" href=\""@ + a + "\" rel=\"nofollow\">"@));
                lemma_opens(o, n, " href=\""@ + a + "\" rel=\"nofollow\">"@);
            },
            None => {},
        },
        GroupType::Email => match el.argument {
            Some(a) => {
                assert(o =~= "<"@ + n + (" href=\""@ + a + "\">"@));
                lemma_opens(o, n, " href=\""@ + a + "\">"@);
            },
            None => {},
        },
        GroupType::Opacity => match el.argument {
            Some(a) => {
                assert(o =~= "<"@ + n + (" style=\"opacity:"@ + a + ";\">"@));
                lemma_opens(o, n, " style=\"opacity:"@ + a + ";\">"@);
            },
            None => {},
        },
        GroupType::Size => match el.argument {
            Some(a) => {
                assert(o =~= "<"@ + n + (" style=\"font-size:"@ + a + "rem;\">"@));
                lemma_opens(o, n, " style=\"font-size:"@ + a + "rem;\">"@);
            },
            None => {},
        },
        GroupType::Figure => match el.argument {
            Some(a) => {
                assert(o =~= "<"@ + n + (" class=\"figure-"@ + a + "\">"@));
                lemma_opens(o, n, " class=\"figure-"@ + a + "\">"@);
            },
            None => {},
        },
        GroupType::Quote => match el.argument {
            Some(a) => {
                assert(o =~= "<"@ + n + (" data-author=\""@ + a + "\">"@));
                lemma_opens(o, n, " data-author=\""@ + a + "\">"@);
            },
            None => {
                assert(o =~= "<"@ + n + ">"@);
                lemma_opens(o, n, ">"@);
            },
        },
        GroupType::Footnote => match el.argument {
            Some(a) => {
                assert(o =~= "<"@ + n + (" class=\"footnote\" data-symbol=\""@ + a + "\">"@));
                lemma_opens(o, n, " class=\"footnote\" data-symbol=\""@ + a + "\">"@);
            },
            None => {
                assert(o =~= "<"@ + n + " class=\"footnote\">"@);
                lemma_opens(o, n, " class=\"footnote\">"@);
            },
        },
        GroupType::CodeBlock => match el.argument {
            Some(a) => {
                assert(o =~= "<"@ + n + (" data-language=\""@ + a + "\">"@));
                lemma_opens(o, n, " data-language=\""@ + a + "\">"@);
            },
            None => {
                assert(o =~= "<"@ + n + ">"@);
                lemma_opens(o, n, ">"@);
            },
        },
        GroupType::Indent => match el.argument {
            Some(a) => {
                assert(o =~= "<"@ + n + (" class=\"indent-"@ + a + "\">"@));
                lemma_opens(o, n, " class=\"indent-"@ + a + "\">"@);
            },
            None => {},
        },
        GroupType::Embed => match el.argument {
            Some(a) => {
                assert(o =~= "<"@ + n + (" class=\"embed\" data-content=\""@ + a + "\">"@));
                lemma_opens(o, n, " class=\"embed\" data-content=\""@ + a + "\">"@);
            },
            None => {},
        },
        GroupType::List => match el.argument {
            Some(a) => if is_ordered_type(a) {
                assert(o =~= "<"@ + n + (" type=\""@ + a + "\">"@));
                lemma_opens(o, n, " type=\""@ + a + "\">"@);
            } else if is_list_style(a) {
                assert(o =~= "<"@ + n + (" style=\"list-style-type:"@ + a + ";\">"@));
                lemma_opens(o, n, " style=\"list-style-type:"@ + a + ";\">"@);
            } else {
                assert(o =~= "<"@ + n + ">"@);
                lemma_opens(o, n, ">"@);
            },
            None => {
                assert(o =~= "<"@ + n + ">"@);
                lemma_opens(o, n, ">"@);
            },
        },
        _ => {},
    }
}

/// The HTML of node `i`: its opening, its children's HTML in order, its closing.
pub open spec fn node_html(nodes: Seq<NodeV<ASTElementV>>, i: int, pretty: bool) -> Seq<char>
    decreases nodes.len() - i, 1int, 0int,
{
    if 0 <= i < nodes.len() {
        start_html(nodes[i].el, pretty)
            + children_html(nodes, i, nodes[i].children.len() as int, pretty)
            + end_html(nodes[i].el, pretty)
    } else {
        Seq::empty()
    }
}

/// The HTML of the first `k` children of node `i`, in order.
pub open spec fn children_html(nodes: Seq<NodeV<ASTElementV>>, i: int, k: int, pretty: bool) -> Seq<char>
    decreases nodes.len() - i, 0int, k,
{
    if k <= 0 || !(0 <= i < nodes.len()) || k > nodes[i].children.len() {
        Seq::empty()
    } else {
        let c = nodes[i].children[k - 1] as int;
        children_html(nodes, i, k - 1, pretty) + if i < c < nodes.len() {
            node_html(nodes, c, pretty)
        } else {
            Seq::empty()
        }
    }
}

/// Struct for generation of HTML strings.
pub struct HTMLConstructor {
    output_string: String,
    pretty_print: bool,
}

/// The value of a constructor: the HTML generated so far, and whether groups
/// that cannot be rendered are hidden.
pub struct HTMLConstructorV {
    pub output: Seq<char>,
    pub pretty_print: bool,
}

impl View for HTMLConstructor {
    type V = HTMLConstructorV;

    closed spec fn view(&self) -> HTMLConstructorV {
        HTMLConstructorV { output: self.output_string@, pretty_print: self.pretty_print }
    }
}

/// `pre`, `a` and `post`.
fn wrap(pre: &str, a: &str, post: &str) -> (s: String)
    ensures
        s@ == pre@ + a@ + post@,
{
    let mut s = pre.to_owned();
    push_str(&mut s, a);
    push_str(&mut s, post);
    s
}

/// `pre`, the argument and `post` when there is an argument; nothing otherwise.
fn wrap_arg(el: &ASTElement, pre: &str, post: &str) -> (s: String)
    ensures
        s@ == with_arg(el@, pre@, post@),
{
    match el.argument() {
        Some(arg) => wrap(pre, arg.as_str(), post),
        None => String::new(),
    }
}

/// `close` when there is an argument; nothing otherwise.
fn close_after_arg(el: &ASTElement, close: &str) -> (s: String)
    ensures
        s@ == close_if_arg(el@, close@),
{
    match el.argument() {
        Some(_) => close.to_owned(),
        None => String::new(),
    }
}

fn ordered_type(a: &str) -> (b: bool)
    ensures
        b == is_ordered_type(a@),
{
    str_eq(a, "1") || str_eq(a, "a") || str_eq(a, "A") || str_eq(a, "i") || str_eq(a, "I")
}

fn list_style(a: &str) -> (b: bool)
    ensures
        b == is_list_style(a@),
{
    str_eq(a, "circle") || str_eq(a, "square") || str_eq(a, "none")
}

impl HTMLConstructor {
    /// Creates a new HTMLConstructor.
    pub fn new(out_len: usize, pretty_print: bool) -> (c: HTMLConstructor)
        requires
            out_len + out_len / 2 <= usize::MAX,
        ensures
            c@ == (HTMLConstructorV { output: Seq::empty(), pretty_print }),
    {
        let output_string = string_with_capacity(out_len + out_len / 2);
        HTMLConstructor { output_string, pretty_print }
    }

    /// Generates an HTML string from node `node` of an ASTElement tree and the
    /// nodes under it; the HTML is added to what this constructor generated
    /// before, and the whole is returned.
    pub fn construct(&mut self, ast: &Tree<ASTElement>, node: usize) -> (html: String)
        requires
            ast.inv(),
            tree_wf(ast@),
            node < ast@.len(),
        ensures
            final(self)@ == (HTMLConstructorV {
                output: old(self)@.output + node_html(ast@, node as int, old(self)@.pretty_print),
                ..old(self)@
            }),
            html@ == final(self)@.output,
    {
        self.construct_node(ast, node);
        self.output_string.clone()
    }

    /// Generates the HTML of node `i` and its descendants.
    fn construct_node(&mut self, ast: &Tree<ASTElement>, i: usize)
        requires
            ast.inv(),
            tree_wf(ast@),
            i < ast@.len(),
        ensures
            final(self)@ == (HTMLConstructorV {
                output: old(self)@.output + node_html(ast@, i as int, old(self)@.pretty_print),
                ..old(self)@
            }),
        decreases ast@.len() - i,
    {
        let ghost start = self@.output;
        let ghost pretty = self@.pretty_print;
        self.start_element(ast.element(i));
        let n = ast.child_count(i);
        let mut j: usize = 0;
        while j < n
            invariant
                ast.inv(),
                tree_wf(ast@),
                i < ast@.len(),
                n == ast@[i as int].children.len(),
                j <= n,
                self@.pretty_print == pretty,
                self@.output == start + start_html(ast@[i as int].el, pretty)
                    + children_html(ast@, i as int, j as int, pretty),
            decreases n - j,
        {
            let c = ast.child(i, j);
            proof { lemma_tree_child(ast@, i as int, j as int); }
            self.construct_node(ast, c);
            j = j + 1;
            assert(self@.output =~= start + start_html(ast@[i as int].el, pretty)
                + children_html(ast@, i as int, j as int, pretty));
        }
        self.end_element(ast.element(i));
        assert(self@.output =~= start + node_html(ast@, i as int, pretty));
    }

    /// Opens an HTML tag.
    pub fn start_element(&mut self, element: &ASTElement)
        ensures
            final(self)@ == (HTMLConstructorV {
                output: old(self)@.output + start_html(element@, old(self)@.pretty_print),
                ..old(self)@
            }),
    {
        let piece = self.start_piece(element);
        push_str(&mut self.output_string, piece.as_str());
    }

    /// The HTML that opens an element.
    fn start_piece(&self, element: &ASTElement) -> (s: String)
        ensures
            s@ == start_html(element@, self@.pretty_print),
    {
        match element.ele_type() {
            GroupType::Text => {
                match element.text_contents() {
                    Some(text) => text.clone(),
                    None => String::new(),
                }
            },
            GroupType::Bold => "<b>".to_owned(),
            GroupType::Strong => "<strong>".to_owned(),
            GroupType::Italic => "<i>".to_owned(),
            GroupType::Emphasis => "<em>".to_owned(),
            GroupType::Underline => "<span class=\"underline\">".to_owned(),
            GroupType::Strikethrough => "<s>".to_owned(),
            GroupType::Smallcaps => "<span class=\"smallcaps\">".to_owned(),
            GroupType::Monospace => "<span class=\"monospace\">".to_owned(),
            GroupType::Subscript => "<sub>".to_owned(),
            GroupType::Superscript => "<sup>".to_owned(),
            GroupType::Spoiler => "<span class=\"spoiler\">".to_owned(),
            GroupType::Hr => "<hr />".to_owned(),
            GroupType::Br => "<br />".to_owned(),
            GroupType::Center => "<div class=\"center\">".to_owned(),
            GroupType::Right => "<div class=\"right\">".to_owned(),
            GroupType::Pre => "<pre>".to_owned(),
            GroupType::Code => "<code>".to_owned(),
            GroupType::Table => "<table>".to_owned(),
            GroupType::TableRow => "<tr>".to_owned(),
            GroupType::TableHeader => "<th>".to_owned(),
            GroupType::TableData => "<td>".to_owned(),
            GroupType::TableCaption => "<caption>".to_owned(),
            GroupType::Header => wrap_arg(element, "<h", ">"),
            GroupType::Colour => wrap_arg(element, "<span style=\"color:", ";\">"),
            GroupType::Url => wrap_arg(element, "<a href=\"", "\" rel=\"nofollow\">"),
            GroupType::Email => wrap_arg(element, "<a href=\"", "\">"),
            GroupType::Opacity => wrap_arg(element, "<span style=\"opacity:", ";\">"),
            GroupType::Size => wrap_arg(element, "<span style=\"font-size:", "rem;\">"),
            GroupType::Image => wrap_arg(element, "<img src=\"", "\">"),
            GroupType::Figure => wrap_arg(element, "<figure class=\"figure-", "\">"),
            GroupType::Quote => {
                match element.argument() {
                    Some(arg) => wrap("<blockquote data-author=\"", arg.as_str(), "\">"),
                    None => "<blockquote>".to_owned(),
                }
            },
            GroupType::Footnote => {
                match element.argument() {
                    Some(arg) => wrap("<span class=\"footnote\" data-symbol=\"", arg.as_str(), "\">"),
                    None => "<span class=\"footnote\">".to_owned(),
                }
            },
            GroupType::CodeBlock => {
                match element.argument() {
                    Some(arg) => wrap("<pre data-language=\"", arg.as_str(), "\">"),
                    None => "<pre>".to_owned(),
                }
            },
            GroupType::List => {
                match element.argument() {
                    Some(arg) => {
                        if ordered_type(arg.as_str()) {
                            wrap("<ol type=\"", arg.as_str(), "\">")
                        } else if list_style(arg.as_str()) {
                            wrap("<ul style=\"list-style-type:", arg.as_str(), ";\">")
                        } else {
                            "<ul>".to_owned()
                        }
                    },
                    None => "<ul>".to_owned(),
                }
            },
            GroupType::Indent => wrap_arg(element, "<div class=\"indent-", "\">"),
            GroupType::ListItem => "<li>".to_owned(),
            GroupType::Math => "<span class=\"math_container\">".to_owned(),
            GroupType::MathBlock => "<div class=\"math_container\">".to_owned(),
            GroupType::Embed => wrap_arg(element, "<div class=\"embed\" data-content=\"", "\">"),
            GroupType::Kaput(_, tag) => {
                if !self.pretty_print {
                    let mut s = match element.argument() {
                        Some(arg) => {
                            let mut s = wrap("[", tag, "=");
                            push_str(&mut s, arg.as_str());
                            push_str(&mut s, "]");
                            s
                        },
                        None => wrap("[", tag, "]"),
                    };
                    match element.text_contents() {
                        Some(text) => push_str(&mut s, text.as_str()),
                        None => {},
                    }
                    s
                } else {
                    String::new()
                }
            },
            _ => String::new(),
        }
    }

    /// Closes an HTML tag.
    pub fn end_element(&mut self, element: &ASTElement)
        ensures
            final(self)@ == (HTMLConstructorV {
                output: old(self)@.output + end_html(element@, old(self)@.pretty_print),
                ..old(self)@
            }),
    {
        let piece = self.end_piece(element);
        push_str(&mut self.output_string, piece.as_str());
    }

    /// The HTML that closes an element.
    fn end_piece(&self, element: &ASTElement) -> (s: String)
        ensures
            s@ == end_html(element@, self@.pretty_print),
    {
        match element.ele_type() {
            GroupType::Bold => "</b>".to_owned(),
            GroupType::Strong => "</strong>".to_owned(),
            GroupType::Italic => "</i>".to_owned(),
            GroupType::Emphasis => "</em>".to_owned(),
            GroupType::Subscript => "</sub>".to_owned(),
            GroupType::Superscript => "</sup>".to_owned(),
            GroupType::Strikethrough => "</s>".to_owned(),
            GroupType::Quote => "</blockquote>".to_owned(),
            GroupType::Code => "</code>".to_owned(),
            GroupType::Figure => close_after_arg(element, "</figure>"),
            GroupType::Table => "</table>".to_owned(),
            GroupType::TableRow => "</tr>".to_owned(),
            GroupType::TableHeader => "</th>".to_owned(),
            GroupType::TableData => "</td>".to_owned(),
            GroupType::TableCaption => "</caption>".to_owned(),
            GroupType::List => {
                match element.argument() {
                    Some(arg) => {
                        if ordered_type(arg.as_str()) {
                            "</ol>".to_owned()
                        } else {
                            "</ul>".to_owned()
                        }
                    },
                    None => "</ul>".to_owned(),
                }
            },
            GroupType::ListItem => "</li>".to_owned(),
            GroupType::Header => wrap_arg(element, "</h", ">"),
            GroupType::Url | GroupType::Email => close_after_arg(element, "</a>"),
            GroupType::Pre | GroupType::CodeBlock => "</pre>".to_owned(),
            GroupType::Underline | GroupType::Smallcaps | GroupType::Monospace | GroupType::Spoiler
            | GroupType::Footnote | GroupType::Math => "</span>".to_owned(),
            GroupType::Colour | GroupType::Opacity | GroupType::Size => close_after_arg(element, "</span>"),
            GroupType::Center | GroupType::Right | GroupType::MathBlock => "</div>".to_owned(),
            GroupType::Indent | GroupType::Embed => close_after_arg(element, "</div>"),
            GroupType::Kaput(_, tag) => {
                if !self.pretty_print && !element.is_void() {
                    wrap("[/", tag, "]")
                } else {
                    String::new()
                }
            },
            _ => String::new(),
        }
    }
}

} // verus!
