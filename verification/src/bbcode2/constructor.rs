//! Renders an element tree as HTML.
use super::element::{Element, ElementV};
use super::parser::{ast_wf, lemma_ast_child, lemma_ast_nonempty, Ast, NodeV};
use super::tag::{
    broken_embed, close_simple, close_simple_tag, embed_html, get_tag_by_name, open_img_tag, open_simple,
    open_simple_tag, open_url_tag, self_closing, self_closing_tag, tag_of, Tag,
};
use crate::text::push_str;
use crate::weburl::{is_web_scheme, url_parse};
use vstd::prelude::*;

verus! {

/// The URL parse of optional contents.
pub open spec fn parse_contents(c: Option<Seq<char>>) -> Option<(Seq<char>, Seq<char>)> {
    match c {
        Some(c) => url_parse(c),
        None => None,
    }
}

/// The HTML that opens an element.
pub open spec fn el_open(el: ElementV) -> Seq<char> {
    match el.tag {
        None => Seq::empty(),
        Some(t) => match tag_of(t) {
            Tag::HorizontalRule => self_closing(seq!['h', 'r']),
            Tag::Linebreak => self_closing(seq!['b', 'r']),
            Tag::Bold => open_simple(seq!['b']),
            Tag::Italics => open_simple(seq!['i']),
            Tag::Underline => open_simple(seq!['u']),
            Tag::Strikethrough => open_simple(seq!['s']),
            Tag::Code => open_simple(seq!['p', 'r', 'e']),
            _ => Seq::empty(),
        },
    }
}

/// The HTML that closes an element.
pub open spec fn el_close(el: ElementV) -> Seq<char> {
    match el.tag {
        None => Seq::empty(),
        Some(t) => match tag_of(t) {
            Tag::Bold => close_simple(seq!['b']),
            Tag::Italics => close_simple(seq!['i']),
            Tag::Underline => close_simple(seq!['u']),
            Tag::Strikethrough => close_simple(seq!['s']),
            Tag::Code => close_simple(seq!['p', 'r', 'e']),
            _ => Seq::empty(),
        },
    }
}

/// The element embeds a URL taken from its contents.
pub open spec fn is_embed(el: ElementV) -> bool {
    match el.tag {
        Some(t) => tag_of(t) == Tag::Image || tag_of(t) == Tag::Link,
        None => false,
    }
}

/// The HTML of an element whose inside renders as `body`.
pub open spec fn el_html(el: ElementV, body: Seq<char>) -> Seq<char> {
    if is_embed(el) {
        let t = el.tag->0;
        embed_html(t, el.contents, parse_contents(el.contents), el.is_explicit, tag_of(t) == Tag::Link)
    } else {
        el_open(el) + body + el_close(el)
    }
}

/// The HTML of node `i`: its element around its rendered children, or around its
/// text when it has no children.
pub open spec fn render(nodes: Seq<NodeV>, i: int) -> Seq<char>
    decreases nodes.len() - i, 1int, 0int,
{
    if 0 <= i < nodes.len() {
        let body = if nodes[i].children.len() > 0 {
            render_children(nodes, i, nodes[i].children.len() as int)
        } else {
            match nodes[i].el.contents {
                Some(c) => c,
                None => Seq::empty(),
            }
        };
        el_html(nodes[i].el, body)
    } else {
        Seq::empty()
    }
}

/// The HTML of the first `k` children of node `i`, in order.
pub open spec fn render_children(nodes: Seq<NodeV>, i: int, k: int) -> Seq<char>
    decreases nodes.len() - i, 0int, k,
{
    if k <= 0 || !(0 <= i < nodes.len()) || k > nodes[i].children.len() {
        Seq::empty()
    } else {
        let c = nodes[i].children[k - 1] as int;
        render_children(nodes, i, k - 1) + if i < c < nodes.len() {
            render(nodes, c)
        } else {
            Seq::empty()
        }
    }
}

/// Converts a Parser's AST into rendered HTML.
pub struct Constructor {}

impl Constructor {
    pub fn new() -> (c: Self) {
        Self {}
    }

    /// The HTML of the whole tree.
    pub fn build(&self, node: &Ast) -> (html: String)
        requires
            ast_wf(node@),
        ensures
            html@ == render(node@, 0),
    {
        proof { lemma_ast_nonempty(node@); }
        self.build_node(node, 0)
    }

    /// The HTML of node `i` and its descendants.
    pub fn build_node(&self, ast: &Ast, i: usize) -> (html: String)
        requires
            ast_wf(ast@),
            i < ast@.len(),
        ensures
            html@ == render(ast@, i as int),
        decreases ast@.len() - i,
    {
        let el = ast.element(i);
        let mut body = String::new();
        if ast.has_children(i) {
            let n = ast.child_count(i);
            let mut j: usize = 0;
            while j < n
                invariant
                    ast_wf(ast@),
                    i < ast@.len(),
                    n == ast@[i as int].children.len(),
                    j <= n,
                    body@ == render_children(ast@, i as int, j as int),
                decreases n - j,
            {
                let c = ast.child(i, j);
                proof { lemma_ast_child(ast@, i as int, j as int); }
                let child_html = self.build_node(ast, c);
                push_str(&mut body, child_html.as_str());
                j = j + 1;
            }
        } else {
            match el.get_contents() {
                Some(c) => push_str(&mut body, c.as_str()),
                None => {},
            }
        }
        let html = self.element_html(el, body);
        html
    }

    /// The HTML of an element whose inside renders as `body`.
    fn element_html(&self, el: &Element, body: String) -> (html: String)
        ensures
            html@ == el_html(el@, body@),
    {
        match el.get_tag_name() {
            Some(tag) => {
                let kind = get_tag_by_name(tag.as_str());
                if kind == Tag::Image || kind == Tag::Link {
                    return self.embed_element_html(el, kind == Tag::Link);
                }
            },
            None => {},
        }
        let mut html = self.element_open(el);
        push_str(&mut html, body.as_str());
        let close = self.element_close(el);
        push_str(&mut html, close.as_str());
        html
    }

    /// The HTML of an `[img]` or `[url]` element: nothing when it has no
    /// contents, else what opening it gives, followed by its closing BbCode when
    /// it stayed broken and was closed explicitly.
    fn embed_element_html(&self, el: &Element, is_link: bool) -> (html: String)
        requires
            el@.tag matches Some(t) && tag_of(t) == (if is_link { Tag::Link } else { Tag::Image }),
        ensures
            html@ == el_html(el@, Seq::empty()),
    {
        proof {
            reveal_strlit("[/");
            reveal_strlit("]");
            reveal_strlit("img");
            reveal_strlit("url");
        }
        let ghost t = el@.tag->0;
        assert(is_embed(el@));
        match el.get_contents() {
            None => return String::new(),
            Some(c) => {
                if c.as_str().is_empty() {
                    return String::new();
                }
            },
        }
        let mut e = el.duplicate();
        let mut html = if is_link { open_url_tag(&mut e) } else { open_img_tag(&mut e) };
        let name = if is_link { "url" } else { "img" };
        assert(t == name@);
        if e.get_contents().is_some() && el.is_explicit() {
            push_str(&mut html, "[/");
            push_str(&mut html, name);
            push_str(&mut html, "]");
        }
        proof {
            let c = el@.contents->0;
            match url_parse(c) {
                Some((scheme, ser)) => if !is_web_scheme(scheme) {
                    assert(html@ =~= broken_embed(t, c, el@.is_explicit));
                },
                None => {
                    assert(html@ =~= broken_embed(t, c, el@.is_explicit));
                },
            }
        }
        html
    }

    fn element_open(&self, el: &Element) -> (s: String)
        ensures
            s@ == el_open(el@),
    {
        proof {
            reveal_strlit("hr");
            reveal_strlit("br");
            reveal_strlit("b");
            reveal_strlit("i");
            reveal_strlit("u");
            reveal_strlit("s");
            reveal_strlit("pre");
        }
        if let Some(tag) = el.get_tag_name() {
            match get_tag_by_name(tag.as_str()) {
                Tag::HorizontalRule => return self_closing_tag("hr"),
                Tag::Linebreak => return self_closing_tag("br"),
                Tag::Bold => return open_simple_tag("b"),
                Tag::Italics => return open_simple_tag("i"),
                Tag::Underline => return open_simple_tag("u"),
                Tag::Strikethrough => return open_simple_tag("s"),
                Tag::Code => return open_simple_tag("pre"),
                _ => {},
            }
        }
        String::new()
    }

    fn element_close(&self, el: &Element) -> (s: String)
        ensures
            s@ == el_close(el@),
    {
        proof {
            reveal_strlit("b");
            reveal_strlit("i");
            reveal_strlit("u");
            reveal_strlit("s");
            reveal_strlit("pre");
        }
        if let Some(tag) = el.get_tag_name() {
            match get_tag_by_name(tag.as_str()) {
                Tag::Bold => return close_simple_tag("b"),
                Tag::Italics => return close_simple_tag("i"),
                Tag::Underline => return close_simple_tag("u"),
                Tag::Strikethrough => return close_simple_tag("s"),
                Tag::Code => return close_simple_tag("pre"),
                _ => {},
            }
        }
        String::new()
    }
}

} // verus!
