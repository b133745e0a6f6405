//! A tree of elements held in vectors, with parent and child links by index.
use vstd::prelude::*;

verus! {

/// The value of a node: its element, its parent and its children, in order.
#[verifier::ext_equal]
pub struct NodeV<V> {
    pub el: V,
    pub parent: Option<nat>,
    pub children: Seq<nat>,
}

/// A tree of elements held in vectors; node 0 is the root. The element, parent
/// and children of node `i` stand at index `i` of each vector.
pub struct Tree<T> {
    elements: Vec<T>,
    parents: Vec<Option<usize>>,
    children: Vec<Vec<usize>>,
}

impl<T: View> View for Tree<T> {
    type V = Seq<NodeV<T::V>>;

    closed spec fn view(&self) -> Seq<NodeV<T::V>> {
        Seq::new(self.elements@.len(), |i: int| NodeV {
            el: self.elements@[i]@,
            parent: match self.parents@[i] { Some(p) => Some(p as nat), None => None },
            children: self.children@[i]@.map_values(|c: usize| c as nat),
        })
    }
}

impl<T> Tree<T> {
    /// The vectors have one entry per node.
    pub closed spec fn inv(&self) -> bool {
        self.elements@.len() == self.parents@.len() && self.elements@.len() == self.children@.len()
    }
}

/// A well-formed tree: the root comes first and has no parent, a node's parent
/// comes before it, and each child lists its parent. A node taken out of the
/// tree has no parent.
#[verifier::opaque]
pub open spec fn tree_wf<V>(nodes: Seq<NodeV<V>>) -> bool {
    &&& nodes.len() > 0
    &&& nodes[0].parent is None
    &&& forall|i: int| #![trigger nodes[i]] 0 < i < nodes.len() ==> (nodes[i].parent matches Some(p) ==> p < i)
    &&& forall|i: int, j: int| #![trigger nodes[i].children[j]]
        0 <= i < nodes.len() && 0 <= j < nodes[i].children.len() ==> {
            let c = nodes[i].children[j] as int;
            &&& i < c < nodes.len()
            &&& nodes[c].parent == Some(i as nat)
        }
}

/// The tree with a new last node holding `el` as the last child of `parent`.
pub open spec fn append_node<V>(nodes: Seq<NodeV<V>>, parent: int, el: V) -> Seq<NodeV<V>> {
    nodes.update(parent, NodeV { children: nodes[parent].children.push(nodes.len()), ..nodes[parent] })
        .push(NodeV { el, parent: Some(parent as nat), children: Seq::empty() })
}

/// The tree with node `i`'s element replaced.
pub open spec fn set_el<V>(nodes: Seq<NodeV<V>>, i: int, el: V) -> Seq<NodeV<V>> {
    nodes.update(i, NodeV { el, ..nodes[i] })
}

/// Keeps the indices other than `i`.
pub open spec fn other_than(i: int) -> spec_fn(nat) -> bool {
    |c: nat| c != i
}

/// The tree with node `i` taken out of its parent's children, and left without a
/// parent; the node and its own children stay, out of reach from the root.
pub open spec fn detach_node<V>(nodes: Seq<NodeV<V>>, i: int) -> Seq<NodeV<V>> {
    match nodes[i].parent {
        Some(p) => if 0 <= p < nodes.len() {
            let n1 = nodes.update(p as int, NodeV { children: nodes[p as int].children.filter(other_than(i)), ..nodes[p as int] });
            n1.update(i, NodeV { parent: None, ..n1[i] })
        } else {
            nodes
        },
        None => nodes,
    }
}

/// Replacing an element keeps a tree well formed.
pub proof fn lemma_set_el_wf<V>(nodes: Seq<NodeV<V>>, i: int, el: V)
    requires
        tree_wf(nodes),
        0 <= i < nodes.len(),
    ensures
        tree_wf(set_el(nodes, i, el)),
{
    reveal(tree_wf);
    let t = set_el(nodes, i, el);
    assert forall|a: int, b: int| 0 <= a < t.len() && 0 <= b < t[a].children.len() implies {
        let c = #[trigger] t[a].children[b] as int;
        &&& a < c < t.len()
        &&& t[c].parent == Some(a as nat)
    } by {
        assert(t[a].children[b] == nodes[a].children[b]);
    }
}

/// Detaching a node keeps a tree well formed.
pub proof fn lemma_detach_wf<V>(nodes: Seq<NodeV<V>>, i: int)
    requires
        tree_wf(nodes),
        0 <= i < nodes.len(),
    ensures
        tree_wf(detach_node(nodes, i)),
        detach_node(nodes, i).len() == nodes.len(),
        forall|k: int| 0 <= k < nodes.len() ==> (#[trigger] detach_node(nodes, i)[k]).el == nodes[k].el,
{
    reveal(tree_wf);
    let t = detach_node(nodes, i);
    if let Some(p) = nodes[i].parent {
        if 0 <= p < nodes.len() {
            let f = nodes[p as int].children.filter(other_than(i));
            assert forall|a: int, b: int| 0 <= a < t.len() && 0 <= b < t[a].children.len() implies {
                let c = #[trigger] t[a].children[b] as int;
                &&& a < c < t.len()
                &&& t[c].parent == Some(a as nat)
            } by {
                if a == p {
                    assert(f.contains(f[b]));
                    nodes[p as int].children.lemma_filter_contains_rev(other_than(i), f[b]);
                    let k = choose|k: int| 0 <= k < nodes[p as int].children.len() && nodes[p as int].children[k] == f[b];
                    assert(nodes[a].children[k] == t[a].children[b]);
                } else {
                    assert(t[a].children[b] == nodes[a].children[b]);
                }
            }
        }
    }
}

/// Appending a child keeps a tree well formed.
pub proof fn lemma_append_wf<V>(nodes: Seq<NodeV<V>>, parent: int, el: V)
    requires
        tree_wf(nodes),
        0 <= parent < nodes.len(),
    ensures
        tree_wf(append_node(nodes, parent, el)),
{
    reveal(tree_wf);
    let t = append_node(nodes, parent, el);
    let n = nodes.len() as int;
    assert forall|i: int, j: int| 0 <= i < t.len() && 0 <= j < t[i].children.len() implies {
        let c = #[trigger] t[i].children[j] as int;
        &&& i < c < t.len()
        &&& t[c].parent == Some(i as nat)
    } by {
        if i == parent && j == nodes[i].children.len() {
        } else {
            assert(t[i].children[j] == nodes[i].children[j]);
        }
    }
}

/// A well-formed tree has a root.
pub proof fn lemma_tree_nonempty<V>(nodes: Seq<NodeV<V>>)
    requires
        tree_wf(nodes),
    ensures
        nodes.len() > 0,
{
    reveal(tree_wf);
}

/// The parent of a node comes before it; only the root has none.
pub proof fn lemma_tree_parent<V>(nodes: Seq<NodeV<V>>, i: int)
    requires
        tree_wf(nodes),
        0 <= i < nodes.len(),
    ensures
        nodes[i].parent matches Some(p) ==> p < i,
        i == 0 ==> nodes[i].parent is None,
{
    reveal(tree_wf);
}

/// The children of a node come after it.
pub proof fn lemma_tree_child<V>(nodes: Seq<NodeV<V>>, i: int, j: int)
    requires
        tree_wf(nodes),
        0 <= i < nodes.len(),
        0 <= j < nodes[i].children.len(),
    ensures
        i < nodes[i].children[j] < nodes.len(),
{
    reveal(tree_wf);
}

impl<T: View> Tree<T> {
    /// A tree holding only `root`.
    pub fn new(root: T) -> (t: Self)
        ensures
            t@ == seq![NodeV { el: root@, parent: None, children: Seq::empty() }],
            tree_wf(t@),
            t.inv(),
    {
        let ghost r = root@;
        let mut elements: Vec<T> = Vec::new();
        elements.push(root);
        let mut parents: Vec<Option<usize>> = Vec::new();
        parents.push(None);
        let mut children: Vec<Vec<usize>> = Vec::new();
        children.push(Vec::new());
        let t = Tree { elements, parents, children };
        assert(t.children@[0]@.map_values(|c: usize| c as nat) =~= Seq::<nat>::empty());
        assert(t@ =~= seq![NodeV { el: r, parent: None, children: Seq::empty() }]);
        proof { reveal(tree_wf); }
        t
    }

    /// Number of nodes.
    pub fn len(&self) -> (n: usize)
        requires
            self.inv(),
        ensures
            n == self@.len(),
    {
        self.elements.len()
    }

    /// The element of node `i`.
    pub fn element(&self, i: usize) -> (el: &T)
        requires
            self.inv(),
            i < self@.len(),
        ensures
            el@ == self@[i as int].el,
    {
        &self.elements[i]
    }

    /// The parent of node `i`.
    pub fn parent(&self, i: usize) -> (p: Option<usize>)
        requires
            self.inv(),
            i < self@.len(),
        ensures
            match p { Some(q) => self@[i as int].parent == Some(q as nat), None => self@[i as int].parent is None },
    {
        self.parents[i]
    }

    /// Number of children of node `i`.
    pub fn child_count(&self, i: usize) -> (n: usize)
        requires
            self.inv(),
            i < self@.len(),
        ensures
            n == self@[i as int].children.len(),
    {
        self.children[i].len()
    }

    /// The `j`-th child of node `i`.
    pub fn child(&self, i: usize, j: usize) -> (c: usize)
        requires
            self.inv(),
            i < self@.len(),
            j < self@[i as int].children.len(),
        ensures
            c as nat == self@[i as int].children[j as int],
    {
        self.children[i][j]
    }

    /// Whether node `i` has children.
    pub fn has_children(&self, i: usize) -> (b: bool)
        requires
            self.inv(),
            i < self@.len(),
        ensures
            b == (self@[i as int].children.len() > 0),
    {
        self.children[i].len() > 0
    }

    /// The last child of node `i`, if any.
    pub fn last_child(&self, i: usize) -> (c: Option<usize>)
        requires
            self.inv(),
            i < self@.len(),
        ensures
            match c {
                Some(k) => self@[i as int].children.len() > 0 && k as nat == self@[i as int].children.last(),
                None => self@[i as int].children.len() == 0,
            },
    {
        let n = self.children[i].len();
        if n == 0 {
            None
        } else {
            Some(self.children[i][n - 1])
        }
    }

    /// Replaces the element of node `i`; returns the old element.
    pub fn replace_element(&mut self, i: usize, el: T) -> (old_el: T)
        requires
            old(self).inv(),
            i < old(self)@.len(),
        ensures
            final(self).inv(),
            final(self)@ == set_el(old(self)@, i as int, el@),
            old_el@ == old(self)@[i as int].el,
    {
        let ghost e = el@;
        let mut tmp = el;
        std::mem::swap(&mut tmp, &mut self.elements[i]);
        proof {
            assert(self@ =~= set_el(old(self)@, i as int, e));
        }
        tmp
    }

    /// Takes node `i` out of its parent's children.
    pub fn detach(&mut self, i: usize)
        requires
            old(self).inv(),
            i < old(self)@.len(),
        ensures
            final(self).inv(),
            final(self)@ == detach_node(old(self)@, i as int),
    {
        if let Some(p) = self.parents[i] {
            if p < self.elements.len() {
                let mut kids: Vec<usize> = Vec::new();
                std::mem::swap(&mut kids, &mut self.children[p]);
                let ghost old_kids = kids@.map_values(|c: usize| c as nat);
                let mut kept: Vec<usize> = Vec::new();
                let mut j: usize = 0;
                while j < kids.len()
                    invariant
                        j <= kids@.len(),
                        old_kids == kids@.map_values(|c: usize| c as nat),
                        kept@.map_values(|c: usize| c as nat) == old_kids.take(j as int).filter(other_than(i as int)),
                    decreases kids@.len() - j,
                {
                    proof {
                        assert(old_kids.take(j + 1).drop_last() =~= old_kids.take(j as int));
                        reveal(Seq::filter);
                        assert(old_kids.take(j + 1) =~= old_kids.take(j as int).push(old_kids[j as int]));
                    }
                    if kids[j] != i {
                        kept.push(kids[j]);
                        assert(kept@.map_values(|c: usize| c as nat) =~= old_kids.take(j as int).filter(other_than(i as int)).push(kids@[j as int] as nat));
                    }
                    j = j + 1;
                }
                assert(old_kids.take(kids@.len() as int) =~= old_kids);
                std::mem::swap(&mut kept, &mut self.children[p]);
                self.parents.set(i, None);
                proof {
                    assert(self@ =~= detach_node(old(self)@, i as int));
                }
            }
        }
    }

    /// Appends `el` as the last child of `parent`; returns the new node.
    pub fn append(&mut self, parent: usize, el: T) -> (i: usize)
        requires
            old(self).inv(),
            parent < old(self)@.len(),
        ensures
            final(self).inv(),
            final(self)@ == append_node(old(self)@, parent as int, el@),
            i as nat == old(self)@.len(),
    {
        let ghost e = el@;
        let n = self.elements.len();
        let mut kids: Vec<usize> = Vec::new();
        std::mem::swap(&mut kids, &mut self.children[parent]);
        kids.push(n);
        std::mem::swap(&mut kids, &mut self.children[parent]);
        self.elements.push(el);
        self.parents.push(Some(parent));
        self.children.push(Vec::new());
        proof {
            let ghost v = self@;
            let ghost w = append_node(old(self)@, parent as int, e);
            assert(v.len() == w.len());
            assert forall|k: int| 0 <= k < v.len() implies v[k] == w[k] by {
                if k == parent as int {
                    assert(self.children@[k]@.map_values(|c: usize| c as nat)
                        =~= old(self).children@[k]@.map_values(|c: usize| c as nat).push(n as nat));
                } else if k == n as int {
                    assert(self.children@[k]@.map_values(|c: usize| c as nat) =~= Seq::<nat>::empty());
                }
            }
            assert(v =~= w);
        }
        n
    }
}

} // verus!
