//! Builds the element tree from tokens, closing tags that were left open and
//! keeping stray BbCode as text.
use super::element::{
    el_add_text, el_can_have_content, el_can_linebreak, el_can_parent, el_from_token, el_is_tag,
    el_root, el_text, Element, ElementDisplay, ElementV,
};
use super::tag::{get_tag_by_name, tag_of, Tag};
use super::token::{token_bbcode, Token, TokenV};
use super::lexer::tokens_view;
use vstd::prelude::*;

verus! {

/// A node of the tree: its element, its parent and its children, in order.
pub struct Node {
    el: Element,
    parent: Option<usize>,
    children: Vec<usize>,
}

/// The value of a node.
#[verifier::ext_equal]
pub struct NodeV {
    pub el: ElementV,
    pub parent: Option<nat>,
    pub children: Seq<nat>,
}

impl View for Node {
    type V = NodeV;

    closed spec fn view(&self) -> NodeV {
        NodeV {
            el: self.el@,
            parent: match self.parent { Some(p) => Some(p as nat), None => None },
            children: self.children@.map_values(|c: usize| c as nat),
        }
    }
}

/// A tree of elements held in a vector; node 0 is the root.
pub struct Ast {
    nodes: Vec<Node>,
}

/// The values of the nodes of a tree.
pub open spec fn nodes_view(v: Seq<Node>) -> Seq<NodeV> {
    v.map_values(|n: Node| n@)
}

impl View for Ast {
    type V = Seq<NodeV>;

    closed spec fn view(&self) -> Seq<NodeV> {
        nodes_view(self.nodes@)
    }
}

/// A well-formed tree: the root comes first and has no parent, every other node's
/// parent comes before it, and each child lists its parent.
#[verifier::opaque]
pub open spec fn ast_wf(nodes: Seq<NodeV>) -> bool {
    &&& nodes.len() > 0
    &&& nodes[0].parent is None
    &&& forall|i: int| #![trigger nodes[i]] 0 < i < nodes.len() ==> (nodes[i].parent matches Some(p) && p < i)
    &&& forall|i: int, j: int| #![trigger nodes[i].children[j]]
        0 <= i < nodes.len() && 0 <= j < nodes[i].children.len() ==> {
            let c = nodes[i].children[j] as int;
            &&& i < c < nodes.len()
            &&& nodes[c].parent == Some(i as nat)
        }
}

/// The tree with node `i`'s element replaced.
pub open spec fn set_el(nodes: Seq<NodeV>, i: int, el: ElementV) -> Seq<NodeV> {
    nodes.update(i, NodeV { el, ..nodes[i] })
}

/// The tree with a new last node holding `el` as the last child of `parent`.
pub open spec fn append_node(nodes: Seq<NodeV>, parent: int, el: ElementV) -> Seq<NodeV> {
    let n = nodes.len();
    nodes.update(parent, NodeV { children: nodes[parent].children.push(n), ..nodes[parent] })
        .push(NodeV { el, parent: Some(parent as nat), children: Seq::empty() })
}

proof fn lemma_set_el_wf(nodes: Seq<NodeV>, i: int, el: ElementV)
    requires
        ast_wf(nodes),
        0 <= i < nodes.len(),
    ensures
        ast_wf(set_el(nodes, i, el)),
        set_el(nodes, i, el).len() == nodes.len(),
{
    reveal(ast_wf);
    reveal(parents_not_void);
    reveal(ps_wf);
    let r = set_el(nodes, i, el);
    assert forall|a: int| #![trigger r[a]] 0 < a < r.len() implies (r[a].parent matches Some(p) && p < a) by {
        assert(r[a].parent == nodes[a].parent);
    }
    assert forall|a: int, j: int| #![trigger r[a].children[j]]
        0 <= a < r.len() && 0 <= j < r[a].children.len() implies {
            let c = r[a].children[j] as int;
            &&& a < c < r.len()
            &&& r[c].parent == Some(a as nat)
        } by {
        assert(r[a].children == nodes[a].children);
        let c = nodes[a].children[j] as int;
        assert(r[c].parent == nodes[c].parent);
    }
}

proof fn lemma_append_node_wf(nodes: Seq<NodeV>, parent: int, el: ElementV)
    requires
        ast_wf(nodes),
        0 <= parent < nodes.len(),
    ensures
        ast_wf(append_node(nodes, parent, el)),
        append_node(nodes, parent, el).len() == nodes.len() + 1,
{
    reveal(ast_wf);
    reveal(parents_not_void);
    reveal(ps_wf);
    let n = nodes.len() as int;
    let r = append_node(nodes, parent, el);
    assert forall|a: int| #![trigger r[a]] 0 < a < r.len() implies (r[a].parent matches Some(p) && p < a) by {
        if a < n {
            assert(r[a].parent == nodes[a].parent);
        }
    }
    assert forall|a: int, j: int| #![trigger r[a].children[j]]
        0 <= a < r.len() && 0 <= j < r[a].children.len() implies {
            let c = r[a].children[j] as int;
            &&& a < c < r.len()
            &&& r[c].parent == Some(a as nat)
        } by {
        if a == n {
        } else if a == parent && j == nodes[a].children.len() {
            assert(r[a].children[j] == n);
        } else {
            assert(r[a].children[j] == nodes[a].children[j]);
            let c = nodes[a].children[j] as int;
            assert(r[c].parent == nodes[c].parent);
        }
    }
}

/// The value of a parser: the tree and the node being filled.
#[verifier::ext_equal]
pub struct ParseState {
    pub nodes: Seq<NodeV>,
    pub cur: nat,
}

/// No void element has children.
#[verifier::opaque]
pub open spec fn parents_not_void(nodes: Seq<NodeV>) -> bool {
    forall|i: int| #![trigger nodes[i]] 0 < i < nodes.len() ==> (nodes[i].parent matches Some(p)
        && 0 <= p < nodes.len() && !nodes[p as int].el.is_void)
}

/// A parser state in which the tree is well formed and the current node exists
/// and can hold text.
#[verifier::opaque]
pub open spec fn ps_wf(st: ParseState) -> bool {
    &&& ast_wf(st.nodes)
    &&& parents_not_void(st.nodes)
    &&& st.cur < st.nodes.len()
    &&& !st.nodes[st.cur as int].el.is_void
}

/// What the parser relies on from a well-formed state.
pub proof fn lemma_ps_wf_facts(st: ParseState)
    requires
        ps_wf(st),
    ensures
        ast_wf(st.nodes),
        st.cur < st.nodes.len(),
        !st.nodes[st.cur as int].el.is_void,
        st.nodes[st.cur as int].parent matches Some(p) ==> p < st.cur,
{
    reveal(ps_wf);
    reveal(ast_wf);
    if st.cur > 0 {
        assert(st.nodes[st.cur as int].parent matches Some(p) && p < st.cur);
    } else {
    }
}

/// A well-formed tree has a root.
pub proof fn lemma_ast_nonempty(nodes: Seq<NodeV>)
    requires
        ast_wf(nodes),
    ensures
        nodes.len() > 0,
{
    reveal(ast_wf);
}

/// The initial parser state is well formed.
pub proof fn lemma_initial_wf()
    ensures
        ps_wf(ps_initial()),
{
    reveal(ps_wf);
    reveal(ast_wf);
    reveal(parents_not_void);
}

/// The parent of a node comes before it; the root has none.
pub proof fn lemma_ast_parent(nodes: Seq<NodeV>, i: int)
    requires
        ast_wf(nodes),
        0 <= i < nodes.len(),
    ensures
        nodes[i].parent matches Some(p) ==> p < i,
        i == 0 <==> nodes[i].parent is None,
{
    reveal(ast_wf);
}

/// The children of a node come after it.
pub proof fn lemma_ast_child(nodes: Seq<NodeV>, i: int, j: int)
    requires
        ast_wf(nodes),
        0 <= i < nodes.len(),
        0 <= j < nodes[i].children.len(),
    ensures
        i < nodes[i].children[j] < nodes.len(),
{
    reveal(ast_wf);
}

/// The element of the current node.
pub open spec fn ps_el(st: ParseState) -> ElementV {
    st.nodes[st.cur as int].el
}

/// Text added to the current node.
pub open spec fn ps_add_text(st: ParseState, text: Seq<char>) -> ParseState {
    ParseState { nodes: set_el(st.nodes, st.cur as int, el_add_text(ps_el(st), text)), ..st }
}

/// The current node's text moved to a new last text child.
pub open spec fn ps_insert_contents(st: ParseState) -> ParseState {
    match ps_el(st).contents {
        Some(t) => {
            let cleared = set_el(st.nodes, st.cur as int, ElementV { contents: None, ..ps_el(st) });
            ParseState { nodes: append_node(cleared, st.cur as int, el_text(t)), ..st }
        },
        None => st,
    }
}

/// A new child element after the current node's text.
pub open spec fn ps_insert_element(st: ParseState, el: ElementV) -> ParseState {
    let s = ps_insert_contents(st);
    ParseState { nodes: append_node(s.nodes, s.cur as int, el), ..s }
}

/// An opening tag: a child element (entered unless it is void), or its BbCode as
/// text inside a literal element.
pub open spec fn ps_open_tag(st: ParseState, bbcode: Seq<char>, el: ElementV) -> ParseState {
    if el_can_parent(ps_el(st)) {
        let s = ps_insert_element(st, el);
        if !el_can_have_content(el) {
            s
        } else {
            ParseState { cur: (s.nodes.len() - 1) as nat, ..s }
        }
    } else if el_can_have_content(ps_el(st)) {
        ps_add_text(st, bbcode)
    } else {
        st
    }
}

/// A line break: a `br` element, or a newline as text inside a literal element.
pub open spec fn ps_linebreak(st: ParseState) -> ParseState {
    if el_can_linebreak(ps_el(st)) {
        ps_insert_element(st, el_from_token(TokenV::Linebreak))
    } else if el_can_have_content(ps_el(st)) {
        ps_add_text(st, seq!['\n', '\r'])
    } else {
        st
    }
}

/// A bare URL: a `url` element, or its text inside a literal element.
pub open spec fn ps_url(st: ParseState, url: Seq<char>) -> ParseState {
    if el_can_parent(ps_el(st)) {
        ps_insert_element(st, el_from_token(TokenV::Url(url)))
    } else if el_can_have_content(ps_el(st)) {
        ps_add_text(st, url)
    } else {
        st
    }
}

/// Leaves the current node for its parent; `explicit` when its own closing tag
/// closed it. A node that can hold children moves its text to a text child.
pub open spec fn ps_close_open_tag(st: ParseState, explicit: bool) -> ParseState {
    match st.nodes[st.cur as int].parent {
        Some(p) => {
            let s1 = if explicit {
                ParseState { nodes: set_el(st.nodes, st.cur as int, ElementV { is_explicit: true, ..ps_el(st) }), ..st }
            } else {
                st
            };
            let s2 = if el_can_parent(ps_el(s1)) { ps_insert_contents(s1) } else { s1 };
            ParseState { cur: p, ..s2 }
        },
        None => st,
    }
}

/// Walks up from node `i` while nodes can be closed by a closing `tag`: inline
/// elements, or the element of that tag, which ends the walk. Returns whether the
/// tag was found and how many nodes are closed.
pub open spec fn close_search(nodes: Seq<NodeV>, i: int, tag: Seq<char>, count: nat) -> (bool, nat)
    decreases i,
{
    if 0 <= i < nodes.len() {
        let el = nodes[i].el;
        let matched = el_is_tag(el, tag);
        if el.display == ElementDisplay::Inline || matched {
            if matched {
                (true, count + 1)
            } else {
                match nodes[i].parent {
                    Some(p) => if p < i { close_search(nodes, p as int, tag, count + 1) } else { (false, count + 1) },
                    None => (false, count + 1),
                }
            }
        } else {
            (false, count)
        }
    } else {
        (false, count)
    }
}

/// Closes `n` nodes, the last one explicitly.
pub open spec fn ps_close_n(st: ParseState, n: nat) -> ParseState
    decreases n,
{
    if n == 0 || st.nodes[st.cur as int].parent is None {
        st
    } else {
        ps_close_n(ps_close_open_tag(st, n == 1), (n - 1) as nat)
    }
}

/// A closing tag: closes its element and every inline element inside it. A closing
/// tag with no open element is kept as text when its name is unknown or inside a
/// literal element, and dropped otherwise.
pub open spec fn ps_close_tag(st: ParseState, tag: Seq<char>, bbcode: Seq<char>) -> ParseState {
    let (matched, n) = close_search(st.nodes, st.cur as int, tag, 0);
    if !matched {
        if !el_can_parent(ps_el(st)) || tag_of(tag) == Tag::Invalid {
            ps_add_text(st, bbcode)
        } else {
            st
        }
    } else {
        ps_close_n(st, n)
    }
}

/// One token read.
pub open spec fn ps_token(st: ParseState, tok: TokenV) -> ParseState {
    match tok {
        TokenV::Null => st,
        TokenV::Linebreak => ps_linebreak(st),
        TokenV::Tag(_, _) => ps_open_tag(st, token_bbcode(tok), el_from_token(tok)),
        TokenV::TagClose(tag) => ps_close_tag(st, tag, token_bbcode(tok)),
        TokenV::Text(text) => ps_add_text(st, text),
        TokenV::Url(url) => ps_url(st, url),
    }
}

/// The parser after reading every token.
pub open spec fn ps_run(st: ParseState, toks: Seq<TokenV>) -> ParseState
    decreases toks.len(),
{
    if toks.len() == 0 {
        st
    } else {
        ps_token(ps_run(st, toks.drop_last()), toks.last())
    }
}

/// Closes every open node, up to the root.
pub open spec fn ps_close_all(st: ParseState) -> ParseState
    decreases st.cur,
{
    match st.nodes[st.cur as int].parent {
        Some(p) => if p < st.cur { ps_close_all(ps_close_open_tag(st, false)) } else { st },
        None => st,
    }
}

/// A tree holding only a root.
pub open spec fn ps_initial() -> ParseState {
    ParseState { nodes: seq![NodeV { el: el_root(), parent: None, children: Seq::empty() }], cur: 0 }
}

/// The tree of a token sequence: every token read, every tag closed, and the
/// root's own text moved to a last text child.
pub open spec fn parse_tree(toks: Seq<TokenV>) -> Seq<NodeV> {
    ps_insert_contents(ps_close_all(ps_run(ps_initial(), toks))).nodes
}

#[verifier::rlimit(40)]
proof fn lemma_ps_set_el(st: ParseState, el: ElementV)
    requires
        ps_wf(st),
        el.is_void == ps_el(st).is_void,
    ensures
        ps_wf(ParseState { nodes: set_el(st.nodes, st.cur as int, el), ..st }),
        set_el(st.nodes, st.cur as int, el)[st.cur as int].parent == st.nodes[st.cur as int].parent,
{
    reveal(ast_wf);
    reveal(parents_not_void);
    reveal(ps_wf);
    let r = set_el(st.nodes, st.cur as int, el);
    lemma_set_el_wf(st.nodes, st.cur as int, el);
    assert forall|i: int| #![trigger r[i]] 0 < i < r.len() implies (r[i].parent matches Some(p)
        && 0 <= p < r.len() && !r[p as int].el.is_void) by {
        assert(r[i].parent == st.nodes[i].parent);
        let p = st.nodes[i].parent->0;
        assert(st.nodes[i].parent matches Some(q) && !st.nodes[q as int].el.is_void);
    }
}

proof fn lemma_append_parents(nodes: Seq<NodeV>, parent: int, el: ElementV)
    requires
        parents_not_void(nodes),
        0 <= parent < nodes.len(),
        !nodes[parent].el.is_void,
    ensures
        parents_not_void(append_node(nodes, parent, el)),
{
    reveal(ast_wf);
    reveal(parents_not_void);
    reveal(ps_wf);
    let r = append_node(nodes, parent, el);
    let n = nodes.len() as int;
    assert forall|i: int| #![trigger r[i]] 0 < i < r.len() implies (r[i].parent matches Some(p)
        && 0 <= p < r.len() && !r[p as int].el.is_void) by {
        if i < n {
            assert(r[i] == (if i == parent { NodeV { children: nodes[parent].children.push(n as nat), ..nodes[parent] } } else { nodes[i] }));
            assert(nodes[i].parent matches Some(q) && 0 <= q < nodes.len() && !nodes[q as int].el.is_void);
            let q = nodes[i].parent->0;
            assert(r[q as int].el == nodes[q as int].el);
        } else {
            assert(r[i].parent == Some(parent as nat));
            assert(r[parent].el == nodes[parent].el);
        }
    }
}

proof fn lemma_ps_append(st: ParseState, el: ElementV)
    requires
        ps_wf(st),
    ensures
        ps_wf(ParseState { nodes: append_node(st.nodes, st.cur as int, el), ..st }),
        append_node(st.nodes, st.cur as int, el)[st.cur as int].parent == st.nodes[st.cur as int].parent,
        append_node(st.nodes, st.cur as int, el)[st.cur as int].el == ps_el(st),
        append_node(st.nodes, st.cur as int, el).last().el == el,
        append_node(st.nodes, st.cur as int, el).len() == st.nodes.len() + 1,
        !el.is_void ==> ps_wf(ParseState { nodes: append_node(st.nodes, st.cur as int, el), cur: st.nodes.len() }),
{
    reveal(ast_wf);
    reveal(parents_not_void);
    reveal(ps_wf);
    lemma_append_node_wf(st.nodes, st.cur as int, el);
    lemma_append_parents(st.nodes, st.cur as int, el);
}

proof fn lemma_insert_contents_wf(st: ParseState)
    requires
        ps_wf(st),
    ensures
        ps_wf(ps_insert_contents(st)),
        ps_insert_contents(st).cur == st.cur,
        ps_insert_contents(st).nodes[st.cur as int].parent == st.nodes[st.cur as int].parent,
        ps_el(st).contents is None ==> ps_insert_contents(st) == st,
        ps_el(ps_insert_contents(st)).is_void == ps_el(st).is_void,
{
    reveal(ast_wf);
    reveal(parents_not_void);
    reveal(ps_wf);
    if let Some(t) = ps_el(st).contents {
        let e2 = ElementV { contents: None, ..ps_el(st) };
        lemma_ps_set_el(st, e2);
        let s1 = ParseState { nodes: set_el(st.nodes, st.cur as int, e2), ..st };
        lemma_ps_append(s1, el_text(t));
    }
}

proof fn lemma_insert_element_wf(st: ParseState, el: ElementV)
    requires
        ps_wf(st),
    ensures
        ps_wf(ps_insert_element(st, el)),
        ps_insert_element(st, el).cur == st.cur,
        ps_insert_element(st, el).nodes.last().el == el,
        !el.is_void ==> ps_wf(ParseState { cur: (ps_insert_element(st, el).nodes.len() - 1) as nat, ..ps_insert_element(st, el) }),
{
    reveal(ast_wf);
    reveal(parents_not_void);
    reveal(ps_wf);
    lemma_insert_contents_wf(st);
    let s = ps_insert_contents(st);
    lemma_ps_append(s, el);
}

proof fn lemma_close_n_wf(st: ParseState, n: nat)
    requires
        ps_wf(st),
    ensures
        ps_wf(ps_close_n(st, n)),
    decreases n,
{
    reveal(ast_wf);
    reveal(parents_not_void);
    reveal(ps_wf);
    if n == 0 || st.nodes[st.cur as int].parent is None {
    } else {
        lemma_close_open_tag_wf(st, n == 1);
        lemma_close_n_wf(ps_close_open_tag(st, n == 1), (n - 1) as nat);
    }
}

proof fn lemma_token_wf(st: ParseState, tok: TokenV)
    requires
        ps_wf(st),
    ensures
        ps_wf(ps_token(st, tok)),
{
    reveal(ast_wf);
    reveal(parents_not_void);
    reveal(ps_wf);
    match tok {
        TokenV::Null => {},
        TokenV::Linebreak => {
            if el_can_linebreak(ps_el(st)) {
                lemma_insert_element_wf(st, el_from_token(TokenV::Linebreak));
            } else if el_can_have_content(ps_el(st)) {
                lemma_ps_set_el(st, el_add_text(ps_el(st), seq!['\n', '\r']));
            }
        },
        TokenV::Tag(_, _) => {
            let el = el_from_token(tok);
            if el_can_parent(ps_el(st)) {
                lemma_insert_element_wf(st, el);
            } else if el_can_have_content(ps_el(st)) {
                lemma_ps_set_el(st, el_add_text(ps_el(st), token_bbcode(tok)));
            }
        },
        TokenV::TagClose(tag) => {
            let (matched, n) = close_search(st.nodes, st.cur as int, tag, 0);
            if !matched {
                lemma_ps_set_el(st, el_add_text(ps_el(st), token_bbcode(tok)));
            } else {
                lemma_close_n_wf(st, n);
            }
        },
        TokenV::Text(text) => {
            lemma_ps_set_el(st, el_add_text(ps_el(st), text));
        },
        TokenV::Url(url) => {
            if el_can_parent(ps_el(st)) {
                lemma_insert_element_wf(st, el_from_token(TokenV::Url(url)));
            } else if el_can_have_content(ps_el(st)) {
                lemma_ps_set_el(st, el_add_text(ps_el(st), url));
            }
        },
    }
}

proof fn lemma_close_open_tag_wf(st: ParseState, explicit: bool)
    requires
        ps_wf(st),
    ensures
        ps_wf(ps_close_open_tag(st, explicit)),
        st.nodes[st.cur as int].parent matches Some(p) ==> ps_close_open_tag(st, explicit).cur == p,
        st.nodes[st.cur as int].parent is None ==> ps_close_open_tag(st, explicit) == st,
{
    reveal(ast_wf);
    reveal(parents_not_void);
    reveal(ps_wf);
    if let Some(p) = st.nodes[st.cur as int].parent {
        if explicit {
            lemma_ps_set_el(st, ElementV { is_explicit: true, ..ps_el(st) });
        }
        let s1 = if explicit {
            ParseState { nodes: set_el(st.nodes, st.cur as int, ElementV { is_explicit: true, ..ps_el(st) }), ..st }
        } else {
            st
        };
        if el_can_parent(ps_el(s1)) {
            lemma_insert_contents_wf(s1);
        }
        let s2 = if el_can_parent(ps_el(s1)) { ps_insert_contents(s1) } else { s1 };
        assert(s2.nodes[st.cur as int].parent == Some(p));
        assert(st.cur > 0);
    }
}


/// Closing every open node ends at the root: whatever the tokens left open, the
/// parser returns to the root of the tree, which stays well formed.
pub proof fn lemma_close_all_at_root(st: ParseState)
    requires
        ps_wf(st),
    ensures
        ps_close_all(st).cur == 0,
        ps_wf(ps_close_all(st)),
    decreases st.cur,
{
    lemma_ps_wf_facts(st);
    match st.nodes[st.cur as int].parent {
        Some(p) => {
            lemma_close_open_tag_wf(st, false);
            lemma_close_all_at_root(ps_close_open_tag(st, false));
        },
        None => {
            lemma_ast_parent(st.nodes, st.cur as int);
        },
    }
}

impl Ast {
    /// A tree holding only `root`.
    pub fn new(root: Element) -> (t: Ast)
        ensures
            t@ == seq![NodeV { el: root@, parent: None, children: Seq::empty() }],
            ast_wf(t@),
    {
        let mut nodes: Vec<Node> = Vec::new();
        nodes.push(Node { el: root, parent: None, children: Vec::new() });
        let t = Ast { nodes };
        assert(t.nodes@[0].children@.map_values(|c: usize| c as nat) =~= Seq::<nat>::empty());
        assert(t@ =~= seq![NodeV { el: t.nodes@[0].el@, parent: None, children: Seq::empty() }]);
        proof { reveal(ast_wf); }
        t
    }

    /// Number of nodes.
    pub fn len(&self) -> (n: usize)
        ensures
            n == self@.len(),
    {
        self.nodes.len()
    }

    /// The element of node `i`.
    pub fn element(&self, i: usize) -> (el: &Element)
        requires
            i < self@.len(),
        ensures
            el@ == self@[i as int].el,
    {
        &self.nodes[i].el
    }

    /// The parent of node `i`.
    pub fn parent(&self, i: usize) -> (p: Option<usize>)
        requires
            i < self@.len(),
        ensures
            match p { Some(q) => self@[i as int].parent == Some(q as nat), None => self@[i as int].parent is None },
    {
        self.nodes[i].parent
    }

    /// Number of children of node `i`.
    pub fn child_count(&self, i: usize) -> (n: usize)
        requires
            i < self@.len(),
        ensures
            n == self@[i as int].children.len(),
    {
        self.nodes[i].children.len()
    }

    /// The `j`-th child of node `i`.
    pub fn child(&self, i: usize, j: usize) -> (c: usize)
        requires
            i < self@.len(),
            j < self@[i as int].children.len(),
        ensures
            c as nat == self@[i as int].children[j as int],
    {
        self.nodes[i].children[j]
    }

    /// Whether node `i` has children.
    pub fn has_children(&self, i: usize) -> (b: bool)
        requires
            i < self@.len(),
        ensures
            b == (self@[i as int].children.len() > 0),
    {
        self.nodes[i].children.len() > 0
    }

    /// Appends `el` as the last child of `parent`; returns the new node.
    pub fn append(&mut self, parent: usize, el: Element) -> (i: usize)
        requires
            parent < old(self)@.len(),
        ensures
            final(self)@ == append_node(old(self)@, parent as int, el@),
            i as nat == old(self)@.len(),
    {
        let n = self.nodes.len();
        let mut tmp = Node { el: Element::new_root(), parent: None, children: Vec::new() };
        std::mem::swap(&mut tmp, &mut self.nodes[parent]);
        tmp.children.push(n);
        std::mem::swap(&mut tmp, &mut self.nodes[parent]);
        self.nodes.push(Node { el, parent: Some(parent), children: Vec::new() });
        proof {
            let ghost v = self@;
            let ghost e = append_node(old(self)@, parent as int, el@);
            assert(v.len() == e.len());
            assert forall|k: int| 0 <= k < v.len() implies v[k] == e[k] by {
                if k == parent as int {
                    assert(self.nodes@[k].children@.map_values(|c: usize| c as nat)
                        =~= old(self).nodes@[k].children@.map_values(|c: usize| c as nat).push(n as nat));
                } else if k == n as int {
                    assert(self.nodes@[k].children@.map_values(|c: usize| c as nat) =~= Seq::<nat>::empty());
                }
            }
            assert(v =~= e);
        }
        n
    }

    /// Replaces the element of node `i`; returns the old element.
    pub fn replace_element(&mut self, i: usize, el: Element) -> (old_el: Element)
        requires
            i < old(self)@.len(),
        ensures
            final(self)@ == set_el(old(self)@, i as int, el@),
            old_el@ == old(self)@[i as int].el,
    {
        let mut tmp = Node { el, parent: None, children: Vec::new() };
        std::mem::swap(&mut tmp.el, &mut self.nodes[i].el);
        proof {
            assert(self@ =~= set_el(old(self)@, i as int, el@));
        }
        tmp.el
    }
}

/// Struct for parsing BbCode Tokens into an Element tree.
pub struct Parser {
    /// The tree being built; its node 0 is the DOM root.
    ast: Ast,
    /// Current traversal node.
    node: usize,
}

impl View for Parser {
    type V = ParseState;

    closed spec fn view(&self) -> ParseState {
        ParseState { nodes: self.ast@, cur: self.node as nat }
    }
}

impl Parser {
    /// The parser's tree is well formed and its current node can hold text.
    pub closed spec fn wf(&self) -> bool {
        ps_wf(self@)
    }

    /// A parser with an empty tree.
    pub fn new() -> (p: Self)
        ensures
            p@ == ps_initial(),
            p.wf(),
    {
        let p = Parser { ast: Ast::new(Element::new_root()), node: 0 };
        assert(p@ =~= ps_initial());
        proof { lemma_initial_wf(); }
        p
    }

    /// Whether the current traversal node is the root.
    pub fn is_at_root(&self) -> (b: bool)
        ensures
            b == (self@.cur == 0),
    {
        self.node == 0
    }

    /// Builds the element tree of the tokens; the parser is left with an empty tree.
    pub fn parse(&mut self, tokens: &[Token]) -> (ast: Ast)
        requires
            old(self).wf(),
        ensures
            ast@ == ps_insert_contents(ps_close_all(ps_run(old(self)@, tokens_view(tokens@)))).nodes,
            ast_wf(ast@),
            final(self)@ == ps_initial(),
            final(self).wf(),
    {
        self.read_tokens(tokens);
        self.close_all();
        proof { lemma_insert_contents_wf(self@); }
        self.insert_contents_as_node();
        proof { lemma_ps_wf_facts(self@); }
        // Unbind and return
        let mut ast = Ast::new(Element::new_root());
        std::mem::swap(&mut ast, &mut self.ast);
        self.node = 0;
        assert(self@ =~= ps_initial());
        proof { lemma_initial_wf(); }
        ast
    }

    fn read_tokens(&mut self, tokens: &[Token])
        requires
            old(self).wf(),
        ensures
            final(self).wf(),
            final(self)@ == ps_run(old(self)@, tokens_view(tokens@)),
    {
        let ghost start = self@;
        let ghost toks = tokens_view(tokens@);
        let mut i: usize = 0;
        assert(toks.take(0) =~= Seq::<TokenV>::empty());
        while i < tokens.len()
            invariant
                i <= tokens@.len(),
                toks == tokens_view(tokens@),
                self.wf(),
                self@ == ps_run(start, toks.take(i as int)),
            decreases tokens@.len() - i,
        {
            let token = &tokens[i];
            proof { lemma_token_wf(self@, token@); lemma_ps_wf_facts(self@); }
            match token {
                Token::Null => {},
                Token::Linebreak => self.add_linebreak(),
                Token::Tag(_, _) => {
                    let el = Element::new_from_token(token);
                    self.open_tag(token, el);
                },
                Token::TagClose(tag) => self.close_tag(token, tag),
                Token::Text(text) => self.add_text(text),
                Token::Url(url) => self.add_url(token, url),
            }
            assert(toks.take(i + 1).drop_last() =~= toks.take(i as int));
            assert(toks[i as int] == token@);
            i = i + 1;
        }
        assert(toks.take(tokens@.len() as int) =~= toks);
    }

    /// Cleanly closes all open tags.
    fn close_all(&mut self)
        requires
            old(self).wf(),
        ensures
            final(self).wf(),
            final(self)@ == ps_close_all(old(self)@),
    {
        let ghost before_close = self@;
        proof { lemma_ps_wf_facts(self@); }
        while self.ast.parent(self.node).is_some()
            invariant
                self.wf(),
                self.node < self@.nodes.len(),
                ps_close_all(before_close) == ps_close_all(self@),
            decreases self.node,
        {
            proof { lemma_close_open_tag_wf(self@, false); lemma_ps_wf_facts(self@); }
            self.close_open_tag(false);
            proof { lemma_ps_wf_facts(self@); }
        }
    }

    fn add_linebreak(&mut self)
        requires
            old(self).wf(),
        ensures
            final(self)@ == ps_linebreak(old(self)@),
    {
        proof { lemma_ps_wf_facts(self@); }
        if self.ast.element(self.node).can_linebreak() {
            let el = Element::new_from_token(&Token::Linebreak);
            self.insert_element(el);
        } else if self.ast.element(self.node).can_have_content() {
            let mut s = String::new();
            crate::text::push_str(&mut s, "\n\r");
            proof { reveal_strlit("\n\r"); }
            assert(s@ =~= seq!['\n', '\r']);
            self.add_text(&s);
        }
    }

    fn add_url(&mut self, token: &Token, url: &String)
        requires
            old(self).wf(),
            token@ == TokenV::Url(url@),
        ensures
            final(self)@ == ps_url(old(self)@, url@),
    {
        proof { lemma_ps_wf_facts(self@); }
        if self.ast.element(self.node).can_parent(self.ast.element(self.node)) {
            let el = Element::new_from_token(token);
            self.insert_element(el);
        } else if self.ast.element(self.node).can_have_content() {
            self.add_text(url);
        }
    }

    fn add_text(&mut self, text: &String)
        requires
            old(self).wf(),
        ensures
            final(self)@ == ps_add_text(old(self)@, text@),
    {
        proof { lemma_ps_wf_facts(self@); }
        let mut el = self.ast.replace_element(self.node, Element::new_root());
        el.add_text(text);
        self.ast.replace_element(self.node, el);
        proof {
            assert(self@.nodes =~= set_el(old(self)@.nodes, old(self)@.cur as int, el_add_text(ps_el(old(self)@), text@)));
        }
    }

    // Attempts to close the currently open tag.
    // If explicit is true, the user has explicitly closed this element.
    fn close_open_tag(&mut self, explicit: bool)
        requires
            old(self).wf(),
        ensures
            final(self)@ == ps_close_open_tag(old(self)@, explicit),
    {
        proof { lemma_ps_wf_facts(self@); }
        match self.ast.parent(self.node) {
            Some(parent) => {
                if explicit {
                    let mut el = self.ast.replace_element(self.node, Element::new_root());
                    el.set_explicit();
                    self.ast.replace_element(self.node, el);
                    assert(self@.nodes =~= set_el(old(self)@.nodes, old(self)@.cur as int,
                        ElementV { is_explicit: true, ..ps_el(old(self)@) }));
                    proof { lemma_ps_set_el(old(self)@, ElementV { is_explicit: true, ..ps_el(old(self)@) }); }
                }
                if self.ast.element(self.node).can_parent(self.ast.element(self.node)) {
                    self.insert_contents_as_node();
                }
                self.node = parent;
            },
            None => {},
        }
    }

    /// Attempts to close tag, or all tags to tag we are closing.
    fn close_tag(&mut self, token: &Token, tag: &String)
        requires
            old(self).wf(),
            token@ == TokenV::TagClose(tag@),
        ensures
            final(self)@ == ps_close_tag(old(self)@, tag@, token_bbcode(token@)),
    {
        proof { lemma_ps_wf_facts(self@); }
        let ghost nodes = self@.nodes;
        let ghost target = close_search(nodes, self.node as int, tag@, 0);
        let mut tag_matched = false;
        let mut closed_tags: usize = 0;
        let mut cursor: usize = self.node;
        let mut go = true;
        let n = self.ast.len();
        while go
            invariant
                self@.nodes == nodes,
                ps_wf(self@),
                n == nodes.len(),
                cursor < nodes.len(),
                ast_wf(nodes),
                cursor <= old(self).node,
                old(self).node < nodes.len(),
                go ==> closed_tags <= old(self).node - cursor,
                !go ==> closed_tags <= old(self).node - cursor + 1,
                go ==> target == close_search(nodes, cursor as int, tag@, closed_tags as nat),
                !go ==> target == (tag_matched, closed_tags as nat),
                go ==> !tag_matched,
                self@ == old(self)@,
            decreases cursor + if go { 1int } else { 0int },
        {
            let el = self.ast.element(cursor);
            let matched = el.is_tag(tag);
            assert(close_search(nodes, cursor as int, tag@, closed_tags as nat) == {
                let e = nodes[cursor as int].el;
                let m = el_is_tag(e, tag@);
                if e.display == ElementDisplay::Inline || m {
                    if m {
                        (true, closed_tags as nat + 1)
                    } else {
                        match nodes[cursor as int].parent {
                            Some(p) => if p < cursor { close_search(nodes, p as int, tag@, closed_tags as nat + 1) } else { (false, closed_tags as nat + 1) },
                            None => (false, closed_tags as nat + 1),
                        }
                    }
                } else {
                    (false, closed_tags as nat)
                }
            });
            if el.get_display_type() == ElementDisplay::Inline || matched {
                closed_tags = closed_tags + 1;
                if matched {
                    tag_matched = true;
                    go = false;
                } else {
                    proof { lemma_ast_parent(nodes, cursor as int); }
                    match self.ast.parent(cursor) {
                        Some(p) => {
                            cursor = p;
                        },
                        None => {
                            go = false;
                        },
                    }
                }
            } else {
                go = false;
            }
        }

        // If we did not find the tag, we add the closing tag as text instead,
        // unless it is a known tag outside a literal element.
        if !tag_matched {
            if !self.ast.element(self.node).can_parent(self.ast.element(self.node))
                || get_tag_by_name(tag.as_str()) == Tag::Invalid {
                let text = token.to_tag_string();
                self.add_text(&text);
            }
            return;
        }

        // Close all tags needed.
        let ghost s0 = self@;
        while closed_tags > 0
            invariant
                self.wf(),
                ps_close_n(s0, target.1) == ps_close_n(self@, closed_tags as nat),
            decreases closed_tags,
        {
            proof { lemma_ps_wf_facts(self@); }
            match self.ast.parent(self.node) {
                Some(_) => {
                    proof { lemma_close_open_tag_wf(self@, closed_tags == 1); lemma_ps_wf_facts(self@); }
                    self.close_open_tag(closed_tags == 1);
                    closed_tags = closed_tags - 1;
                },
                None => {
                    closed_tags = 0;
                },
            }
        }
    }

    fn insert_contents_as_node(&mut self)
        requires
            old(self).wf(),
        ensures
            final(self)@ == ps_insert_contents(old(self)@),
    {
        proof { lemma_ps_wf_facts(self@); }
        let mut el = self.ast.replace_element(self.node, Element::new_root());
        let extracted = el.extract_contents();
        self.ast.replace_element(self.node, el);
        match extracted {
            Some(text_el) => {
                self.ast.append(self.node, text_el);
            },
            None => {
                assert(self@.nodes =~= old(self)@.nodes);
            },
        }
    }

    fn insert_element(&mut self, el: Element) -> (i: usize)
        requires
            old(self).wf(),
        ensures
            final(self)@ == ps_insert_element(old(self)@, el@),
            i as nat == final(self)@.nodes.len() - 1,
    {
        proof { lemma_ps_wf_facts(self@); }
        proof { lemma_insert_contents_wf(self@); }
        self.insert_contents_as_node();
        self.ast.append(self.node, el)
    }

    /// Attempts to add element as child to current node and move current node to new element.
    fn open_tag(&mut self, token: &Token, el: Element)
        requires
            old(self).wf(),
            el@ == el_from_token(token@),
            token@ is Tag,
        ensures
            final(self)@ == ps_open_tag(old(self)@, token_bbcode(token@), el@),
    {
        proof { lemma_ps_wf_facts(self@); }
        if self.ast.element(self.node).can_parent(self.ast.element(self.node)) {
            // Insert the new element as a child.
            if !el.can_have_content() {
                // If we are inserting a void element, do not move pointer.
                self.insert_element(el);
            } else {
                // Otherwise, insert the element and move our pointer.
                self.node = self.insert_element(el);
            }
        } else if self.ast.element(self.node).can_have_content() {
            // Literals consume tags as literal text instead of parsing them.
            let text = token.to_tag_string();
            self.add_text(&text);
        }
    }
}

} // verus!
