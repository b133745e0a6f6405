//! Renders an element tree as safe HTML.
use super::element::{ev_can_parent, ev_can_parent_tag, ev_close_str, ev_open_str, Element, ElementV};
use super::sanitation::{escape_html, lemma_escape_html_concat, lemma_no_smilies_is_sanitize, replace_smilies, SafeHtml};
use super::smilie::Smilies;
use super::tag::embed::{fill_img, fill_url, open_url};
use super::tag::font::open_color;
use super::tag::{close_simple, open_simple, self_closing, tag_kind, Tag};
use super::tree::{lemma_tree_child, lemma_tree_nonempty, lemma_tree_parent, tree_wf, NodeV, Tree};
use vstd::prelude::*;

verus! {

/// Node `i` and every node above it accept a child element tagged `tag`.
pub open spec fn accepts_tag(nodes: Seq<NodeV<ElementV>>, i: int, tag: Seq<char>) -> bool
    decreases i,
{
    if 0 <= i < nodes.len() {
        &&& ev_can_parent_tag(nodes[i].el, tag)
        &&& match nodes[i].parent {
            Some(p) => if p < i { accepts_tag(nodes, p as int, tag) } else { true },
            None => true,
        }
    } else {
        true
    }
}

/// The raw text of the first `k` children of node `i`, in order.
pub open spec fn children_raw(nodes: Seq<NodeV<ElementV>>, i: int, k: int) -> Seq<char>
    decreases k,
{
    if k <= 0 || !(0 <= i < nodes.len()) || k > nodes[i].children.len() {
        Seq::empty()
    } else {
        let c = nodes[i].children[k - 1] as int;
        children_raw(nodes, i, k - 1) + if 0 <= c < nodes.len() { ev_open_str(nodes[c].el) } else { Seq::empty() }
    }
}

/// Child `c` of node `i` is rendered as HTML (rather than as its escaped raw text).
pub open spec fn renders_child(nodes: Seq<NodeV<ElementV>>, i: int, c: int) -> bool {
    &&& ev_can_parent(nodes[i].el)
    &&& match nodes[c].el.tag {
        Some(t) => accepts_tag(nodes, i, t),
        None => true,
    }
}

/// What an element's contents render as, given its rendered inside and its raw
/// inside; the embed tags may mark the element broken or clear its contents.
pub open spec fn el_contents(el: ElementV, safe: Seq<char>, raw: Seq<char>) -> (Seq<char>, ElementV) {
    match el.tag {
        Some(t) => match tag_kind(t) {
            Tag::Image => fill_img(el, raw),
            Tag::Link => fill_url(el, raw, safe),
            _ => (safe, el),
        },
        None => (safe, el),
    }
}

/// The HTML that opens an element; a `[color]` without a color marks it broken.
pub open spec fn el_open(el: ElementV) -> (Seq<char>, ElementV) {
    match el.tag {
        Some(t) => if !el.broken {
            match tag_kind(t) {
                Tag::HorizontalRule => (self_closing("hr"@), el),
                Tag::Linebreak => (self_closing("br"@), el),
                Tag::Plain => (Seq::empty(), el),
                Tag::Bold => (open_simple("b"@), el),
                Tag::Color => open_color(el),
                Tag::Italics => (open_simple("i"@), el),
                Tag::Underline => (open_simple("u"@), el),
                Tag::Strikethrough => (open_simple("s"@), el),
                Tag::Code => (open_simple("pre"@), el),
                Tag::Image => (Seq::empty(), el),
                Tag::Link => (open_url(el), el),
                _ => (escape_html(ev_open_str(el)), el),
            }
        } else {
            (escape_html(ev_open_str(el)), el)
        },
        None => (Seq::empty(), el),
    }
}

/// The HTML that closes an element: broken and unknown tags give back their
/// BbCode, escaped.
pub open spec fn el_close(el: ElementV) -> Seq<char> {
    match el.tag {
        Some(t) => if !el.broken {
            match tag_kind(t) {
                Tag::Invalid => escape_html(ev_close_str(el)),
                Tag::Bold => close_simple("b"@),
                Tag::Color => close_simple("span"@),
                Tag::Italics => close_simple("i"@),
                Tag::Underline => close_simple("u"@),
                Tag::Strikethrough => close_simple("s"@),
                Tag::Code => close_simple("pre"@),
                Tag::Link => close_simple("a"@),
                _ => Seq::empty(),
            }
        } else {
            escape_html(ev_close_str(el))
        },
        None => Seq::empty(),
    }
}

/// An element around its contents: contents first (they may change the element),
/// then its opening and closing HTML.
pub open spec fn el_html(el: ElementV, safe: Seq<char>, raw: Seq<char>) -> Seq<char> {
    let (contents, el1) = el_contents(el, safe, raw);
    let (open, el2) = el_open(el1);
    open + contents + el_close(el2)
}

/// The HTML of node `i`: with children, the element around its rendered
/// children; without, the element around its text, escaped and with smilies.
pub open spec fn render(nodes: Seq<NodeV<ElementV>>, i: int, sm: Seq<(Seq<char>, Seq<char>)>) -> Seq<char>
    decreases nodes.len() - i, 1int, 0int,
{
    if 0 <= i < nodes.len() {
        let el = nodes[i].el;
        let n = nodes[i].children.len() as int;
        if n > 0 {
            el_html(el, render_children(nodes, i, n, sm), children_raw(nodes, i, n))
        } else {
            match el.contents {
                Some(c) => el_html(el, replace_smilies(c, sm), c),
                None => el_html(el, Seq::empty(), Seq::empty()),
            }
        }
    } else {
        Seq::empty()
    }
}

/// The HTML of the first `k` children of node `i`, in order: a child that may
/// not stand there gives its raw text, escaped.
pub open spec fn render_children(nodes: Seq<NodeV<ElementV>>, i: int, k: int, sm: Seq<(Seq<char>, Seq<char>)>) -> Seq<char>
    decreases nodes.len() - i, 0int, k,
{
    if k <= 0 || !(0 <= i < nodes.len()) || k > nodes[i].children.len() {
        Seq::empty()
    } else {
        let c = nodes[i].children[k - 1] as int;
        render_children(nodes, i, k - 1, sm) + if i < c < nodes.len() {
            if renders_child(nodes, i, c) {
                render(nodes, c, sm)
            } else {
                escape_html(ev_open_str(nodes[c].el))
            }
        } else {
            Seq::empty()
        }
    }
}

/// Node `c` is a leaf of user text: an element without tag or children whose
/// contents are its raw text.
pub open spec fn is_text_leaf(nodes: Seq<NodeV<ElementV>>, c: int) -> bool {
    &&& 0 <= c < nodes.len()
    &&& nodes[c].children.len() == 0
    &&& nodes[c].el.tag is None
    &&& nodes[c].el.raw is Some
    &&& nodes[c].el.contents == nodes[c].el.raw
}

proof fn lemma_render_text_leaf(nodes: Seq<NodeV<ElementV>>, c: int)
    requires
        is_text_leaf(nodes, c),
    ensures
        render(nodes, c, Seq::empty()) == escape_html(ev_open_str(nodes[c].el)),
{
    let t = nodes[c].el.raw.unwrap();
    lemma_no_smilies_is_sanitize(t);
    assert(Seq::<char>::empty() + escape_html(t) + Seq::<char>::empty() =~= escape_html(t));
}

proof fn lemma_render_text_children(nodes: Seq<NodeV<ElementV>>, i: int, k: int)
    requires
        tree_wf(nodes),
        0 <= i < nodes.len(),
        0 <= k <= nodes[i].children.len(),
        forall|j: int| 0 <= j < nodes[i].children.len() ==> is_text_leaf(nodes, #[trigger] nodes[i].children[j] as int),
    ensures
        render_children(nodes, i, k, Seq::empty()) == escape_html(children_raw(nodes, i, k)),
    decreases k,
{
    if k > 0 {
        let c = nodes[i].children[k - 1] as int;
        assert(is_text_leaf(nodes, c));
        lemma_tree_child(nodes, i, k - 1);
        lemma_render_text_children(nodes, i, k - 1);
        lemma_render_text_leaf(nodes, c);
        lemma_escape_html_concat(children_raw(nodes, i, k - 1), ev_open_str(nodes[c].el));
    } else {
        assert(escape_html(Seq::<char>::empty()) == Seq::<char>::empty());
    }
}

/// With no smilies, user text reaches the HTML escaped and in order: a text
/// leaf renders as its text escaped, and an untagged node whose children are
/// all text leaves renders as their texts, one after the other, escaped.
pub proof fn lemma_build_escapes_text(nodes: Seq<NodeV<ElementV>>, i: int)
    requires
        tree_wf(nodes),
        0 <= i < nodes.len(),
        nodes[i].el.tag is None,
        forall|j: int| 0 <= j < nodes[i].children.len() ==> is_text_leaf(nodes, #[trigger] nodes[i].children[j] as int),
    ensures
        is_text_leaf(nodes, i) ==> render(nodes, i, Seq::empty()) == escape_html(ev_open_str(nodes[i].el)),
        nodes[i].children.len() > 0 ==> render(nodes, i, Seq::empty())
            == escape_html(children_raw(nodes, i, nodes[i].children.len() as int)),
{
    if is_text_leaf(nodes, i) {
        lemma_render_text_leaf(nodes, i);
    }
    if nodes[i].children.len() > 0 {
        let n = nodes[i].children.len() as int;
        lemma_render_text_children(nodes, i, n);
        let safe = render_children(nodes, i, n, Seq::empty());
        assert(Seq::<char>::empty() + safe + Seq::<char>::empty() =~= safe);
    }
}

/// Converts a Parser's AST into rendered HTML.
pub struct Constructor {
    pub smilies: Smilies,
}

impl Default for Constructor {
    fn default() -> (c: Self)
        ensures
            c.smilies@ == Seq::<(Seq<char>, Seq<char>)>::empty(),
    {
        Self { smilies: Smilies::default() }
    }
}

impl Constructor {
    pub fn new() -> (c: Self)
        ensures
            c.smilies@ == Seq::<(Seq<char>, Seq<char>)>::empty(),
    {
        Self::default()
    }

    /// The HTML of the whole tree.
    pub fn build(&self, tree: &Tree<Element>) -> (html: SafeHtml)
        requires
            tree.inv(),
            tree_wf(tree@),
        ensures
            html@ == render(tree@, 0, self.smilies@),
    {
        proof { lemma_tree_nonempty(tree@); }
        self.build_node(tree, 0)
    }

    /// The HTML of node `i` and its descendants.
    pub fn build_node(&self, tree: &Tree<Element>, i: usize) -> (html: SafeHtml)
        requires
            tree.inv(),
            tree_wf(tree@),
            i < tree@.len(),
        ensures
            html@ == render(tree@, i as int, self.smilies@),
        decreases tree@.len() - i,
    {
        let ghost nodes = tree@;
        let ghost sm = self.smilies@;
        let mut el = *tree.element(i);
        let ghost el0 = el@;
        let ghost safe0: Seq<char>;
        let ghost raw0: Seq<char>;
        let contents;
        // If we have children, loop through them.
        if tree.has_children(i) {
            // Both sanitized HTML and raw strings are kept: links are read from the
            // raw text, and escaped only after.
            let mut raw_contents = String::new();
            let mut safe_contents = SafeHtml::new();
            let can_parent = el.can_parent();
            let n = tree.child_count(i);
            let mut j: usize = 0;
            while j < n
                invariant
                    tree.inv(),
                    tree_wf(nodes),
                    nodes == tree@,
                    sm == self.smilies@,
                    i < nodes.len(),
                    el@ == nodes[i as int].el,
                    can_parent == ev_can_parent(el@),
                    n == nodes[i as int].children.len(),
                    j <= n,
                    raw_contents@ == children_raw(nodes, i as int, j as int),
                    safe_contents@ == render_children(nodes, i as int, j as int, sm),
                decreases n - j,
            {
                let c = tree.child(i, j);
                proof {
                    lemma_tree_child(nodes, i as int, j as int);
                }
                let child = *tree.element(c);
                // Sanity check on tag-in-tag logic.
                let render = can_parent && match child.get_tag_name() {
                    Some(tag) => self.accepts(tree, i, tag),
                    None => true,
                };
                let item = child.get_raw();
                crate::text::push_str(&mut raw_contents, item);
                if render {
                    let html = self.build_node(tree, c);
                    safe_contents.push(&html);
                } else {
                    safe_contents.push(&SafeHtml::sanitize(item));
                }
                j = j + 1;
            }
            proof {
                safe0 = safe_contents@;
                raw0 = raw_contents@;
            }
            contents = Self::element_contents(&mut el, safe_contents, raw_contents.as_str());
            assert((contents@, el@) == el_contents(el0, safe0, raw0));
        }
        // If we do not have children, add our text.
        else {
            contents = match el.get_contents() {
                Some(text) => {
                    let sanitized = SafeHtml::sanitize_and_replace_smilies(text, &self.smilies);
                    proof {
                        safe0 = sanitized@;
                        raw0 = text@;
                    }
                    let r = Self::element_contents(&mut el, sanitized, text);
                    assert((r@, el@) == el_contents(el0, safe0, raw0));
                    r
                },
                None => {
                    proof {
                        reveal_strlit("");
                        assert(""@ =~= Seq::<char>::empty());
                        safe0 = Seq::empty();
                        raw0 = Seq::empty();
                    }
                    let r = Self::element_contents(&mut el, SafeHtml::new(), "");
                    assert((r@, el@) == el_contents(el0, safe0, raw0));
                    r
                },
            };
        }
        let ghost el1 = el@;
        assert((contents@, el1) == el_contents(el0, safe0, raw0));
        let mut output = Self::element_open(&mut el);
        let ghost open = output@;
        assert((open, el@) == el_open(el1));
        output.push(&contents);
        let close = Self::element_close(&el);
        output.push(&close);
        assert(output@ == el_html(el0, safe0, raw0));
        output
    }

    /// Whether node `i` and each node above it accept a child tagged `tag`.
    fn accepts(&self, tree: &Tree<Element>, i: usize, tag: &str) -> (b: bool)
        requires
            tree.inv(),
            tree_wf(tree@),
            i < tree@.len(),
        ensures
            b == accepts_tag(tree@, i as int, tag@),
        decreases i,
    {
        // Check first if this node can accept this tag, then each parent upwards.
        if !tree.element(i).can_parent_tag(tag) {
            return false;
        }
        proof { lemma_tree_parent(tree@, i as int); }
        match tree.parent(i) {
            Some(p) => self.accepts(tree, p, tag),
            None => true,
        }
    }

    fn element_open(el: &mut Element) -> (s: SafeHtml)
        ensures
            (s@, final(el)@) == el_open(old(el)@),
    {
        if let Some(tag) = el.get_tag_name() {
            if !el.is_broken() {
                match Tag::get_by_name(tag) {
                    Tag::HorizontalRule => Tag::self_closing_tag("hr"),
                    Tag::Linebreak => Tag::self_closing_tag("br"),
                    Tag::Plain => SafeHtml::new(), // Not rendered.

                    Tag::Bold => Tag::open_simple_tag("b"),
                    Tag::Color => Tag::open_color_tag(el),
                    Tag::Italics => Tag::open_simple_tag("i"),
                    Tag::Underline => Tag::open_simple_tag("u"),
                    Tag::Strikethrough => Tag::open_simple_tag("s"),

                    Tag::Code => Tag::open_simple_tag("pre"),

                    Tag::Image => Tag::open_img_tag(el),
                    Tag::Link => Tag::open_url_tag(el),

                    _ => SafeHtml::sanitize(el.get_raw()),
                }
            }
            // Always render broken tags as raw.
            else {
                SafeHtml::sanitize(el.get_raw())
            }
        } else {
            SafeHtml::new()
        }
    }

    fn element_contents(el: &mut Element, safe_contents: SafeHtml, raw_contents: &str) -> (s: SafeHtml)
        ensures
            (s@, final(el)@) == el_contents(old(el)@, safe_contents@, raw_contents@),
    {
        if let Some(tag) = el.get_tag_name() {
            match Tag::get_by_name(tag) {
                Tag::Image => Tag::fill_img_tag(el, raw_contents),
                Tag::Link => Tag::fill_url_tag(el, raw_contents, safe_contents),
                _ => safe_contents,
            }
        } else {
            safe_contents
        }
    }

    fn element_close(el: &Element) -> (s: SafeHtml)
        ensures
            s@ == el_close(el@),
    {
        // Only named elements close with output.
        if let Some(tag) = el.get_tag_name() {
            // Only unbroken tags render HTML.
            if !el.is_broken() {
                match Tag::get_by_name(tag) {
                    Tag::Invalid => SafeHtml::sanitize(el.to_close_str().as_str()),

                    Tag::Bold => Tag::close_simple_tag("b"),
                    Tag::Color => Tag::close_simple_tag("span"),
                    Tag::Italics => Tag::close_simple_tag("i"),
                    Tag::Underline => Tag::close_simple_tag("u"),
                    Tag::Strikethrough => Tag::close_simple_tag("s"),

                    Tag::Code => Tag::close_simple_tag("pre"),

                    Tag::Link => Tag::close_simple_tag("a"),

                    // Self-closing tags do not close.
                    _ => SafeHtml::new(),
                }
            }
            // Broken tags are written back as their raw input.
            else {
                SafeHtml::sanitize(el.to_close_str().as_str())
            }
        }
        // Unnamed tags reverse to nothing.
        else {
            SafeHtml::new()
        }
    }
}

} // verus!
