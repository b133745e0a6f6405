//! Lexes BBCode Instructions into a tree of groups.
//!
//! Groups open and close around the current node. Closing a group that is not
//! the current one closes the groups inside it and opens them again after, so
//! that formatting carries over; paragraphs, lists and the document stop the
//! closing.
use super::ast::{ast_new, group_eq, ASTElement, ASTElementV, GroupType};
use super::instruction::{Instruction, InstructionV};
use super::tree::{
    append_node, detach_node, lemma_append_wf, lemma_detach_wf, lemma_set_el_wf, lemma_tree_child,
    lemma_tree_nonempty, lemma_tree_parent, set_el, tree_wf, NodeV, Tree,
};
use crate::text::{occurs_at, occurs_at_exec, push_str, str_eq, to_chars};
use vstd::string::StrSliceExecFns;
use vstd::prelude::*;

verus! {

/// What the text after a tag is read as.
#[derive(Debug, PartialEq, Eq, Structural, Clone, Copy)]
pub enum ArgCommand {
    Url,
    Email,
    Image,
    Embed,
}

/// A simplified representation of an element used when closing and reopening groups.
pub struct GroupShorthand {
    pub ele_type: GroupType,
    pub arg: Option<String>,
}

/// The value of a shorthand.
pub open spec fn shorthand_view(g: GroupShorthand) -> (GroupType, Option<Seq<char>>) {
    (g.ele_type, match g.arg { Some(a) => Some(a@), None => None })
}

/// The values of a stack of shorthands.
pub open spec fn stack_view(v: Seq<GroupShorthand>) -> Seq<(GroupType, Option<Seq<char>>)> {
    v.map_values(|g: GroupShorthand| shorthand_view(g))
}

/// The value of the lexer: its tree and current node, and its settings.
pub struct LexV {
    pub nodes: Seq<NodeV<ASTElementV>>,
    pub cur: nat,
    pub next_arg: Option<ArgCommand>,
    pub ignore_tags: Option<Seq<char>>,
    pub ignore_formatting: bool,
    pub linebreaks_allowed: bool,
    pub preserve_empty: bool,
}

/// The lexer's tree is well formed and its current node is in it.
pub open spec fn lex_wf(st: LexV) -> bool {
    tree_wf(st.nodes) && st.cur < st.nodes.len()
}

/// The element of the current node.
pub open spec fn cur_el(st: LexV) -> ASTElementV {
    st.nodes[st.cur as int].el
}

/// The kind of the current node.
pub open spec fn cur_type(st: LexV) -> GroupType {
    cur_el(st).ele_type
}

/// A new group of kind `t`, as the last child of the current node, becomes current.
pub open spec fn lx_ng(st: LexV, t: GroupType) -> LexV {
    LexV { nodes: append_node(st.nodes, st.cur as int, ast_new(t)), cur: st.nodes.len(), ..st }
}

/// The current element replaced.
pub open spec fn lx_set(st: LexV, el: ASTElementV) -> LexV {
    LexV { nodes: set_el(st.nodes, st.cur as int, el), ..st }
}

/// The current element's argument set.
pub open spec fn lx_set_arg(st: LexV, a: Seq<char>) -> LexV {
    lx_set(st, ASTElementV { argument: Some(a), ..cur_el(st) })
}

/// Text added to the current element.
pub open spec fn lx_add_text(st: LexV, t: Seq<char>) -> LexV {
    lx_set(st, ASTElementV {
        text_contents: Some(match cur_el(st).text_contents { Some(x) => x + t, None => t }),
        ..cur_el(st)
    })
}

/// The current element marked void, or not.
pub open spec fn lx_set_void(st: LexV, v: bool) -> LexV {
    lx_set(st, ASTElementV { is_void: v, ..cur_el(st) })
}

/// The current element's kind changed.
pub open spec fn lx_set_type(st: LexV, t: GroupType) -> LexV {
    lx_set(st, ASTElementV { ele_type: t, ..cur_el(st) })
}

/// The current element made detachable, or not.
pub open spec fn lx_set_detachable(st: LexV, d: bool) -> LexV {
    lx_set(st, ASTElementV { detachable: d, ..cur_el(st) })
}

/// A whitespace character (`char::is_whitespace`: Unicode White_Space).
pub open spec fn is_white(c: char) -> bool {
    ('\u{9}' <= c && c <= '\u{d}') || c == ' ' || c == '\u{85}' || c == '\u{a0}' || c == '\u{1680}'
        || ('\u{2000}' <= c && c <= '\u{200a}') || c == '\u{2028}' || c == '\u{2029}' || c == '\u{202f}'
        || c == '\u{205f}' || c == '\u{3000}'
}

/// Text with nothing but whitespace (`str::trim` leaves it empty).
pub open spec fn is_blank(t: Seq<char>) -> bool {
    forall|k: int| 0 <= k < t.len() ==> is_white(#[trigger] t[k])
}

/// A group that is left empty is removed when it closes: when empty groups are
/// not kept, an empty, detachable, non-void group with blank text (text counts
/// as blank only outside unformatted text), or an empty broken group; when they
/// are kept, an empty paragraph.
pub open spec fn should_detach(st: LexV) -> bool {
    let el = cur_el(st);
    let empty = st.nodes[st.cur as int].children.len() == 0;
    if !st.preserve_empty {
        (empty && (!st.ignore_formatting && match el.text_contents {
            Some(t) => is_blank(t),
            None => true,
        }) && !el.is_void && el.detachable) || (el.ele_type is Broken && empty)
    } else {
        group_eq(el.ele_type, GroupType::Paragraph) && empty
    }
}

/// The current node taken out of the tree when it should be.
pub open spec fn detach_if_empty(st: LexV) -> Seq<NodeV<ASTElementV>> {
    if should_detach(st) {
        detach_node(st.nodes, st.cur as int)
    } else {
        st.nodes
    }
}

/// Closes the current group: it is removed when left empty, and its parent
/// becomes current. The root stays current.
pub open spec fn lx_close_same(st: LexV) -> LexV {
    match st.nodes[st.cur as int].parent {
        Some(p) => LexV { nodes: detach_if_empty(st), cur: p, ..st },
        None => st,
    }
}

/// Closes groups from the current one up to the group of kind `t`, which is
/// closed too; each group closed on the way, but for broken list items, is
/// pushed on the stack to be opened again. A paragraph (when `t` is none),
/// a list or the document stops the closing; an empty paragraph that stops it
/// is removed but stays current.
pub open spec fn lx_close_diff(st: LexV, stack: Seq<(GroupType, Option<Seq<char>>)>, t: GroupType)
    -> (LexV, Seq<(GroupType, Option<Seq<char>>)>)
    decreases st.cur,
{
    let my = cur_type(st);
    if group_eq(my, GroupType::Paragraph) && !group_eq(t, GroupType::Paragraph) {
        if st.nodes[st.cur as int].children.len() == 0 {
            (LexV { nodes: detach_node(st.nodes, st.cur as int), ..st }, stack)
        } else {
            (st, stack)
        }
    } else if group_eq(my, GroupType::List) && !group_eq(t, GroupType::List) {
        (st, stack)
    } else if group_eq(my, GroupType::Document) && !group_eq(t, GroupType::Document) {
        (st, stack)
    } else {
        let entry = (my, cur_el(st).argument);
        let (stop, stack2) = if group_eq(my, t) {
            (true, stack)
        } else {
            match my {
                GroupType::Broken(inner, _) => if group_eq(*inner, t) {
                    (true, stack)
                } else if !group_eq(*inner, GroupType::ListItem) {
                    (false, stack.push(entry))
                } else {
                    (false, stack)
                },
                _ => (false, stack.push(entry)),
            }
        };
        match st.nodes[st.cur as int].parent {
            None => (st, stack2),
            Some(p) => {
                let st2 = LexV { nodes: detach_if_empty(st), cur: p, ..st };
                if !stop && p < st.cur {
                    lx_close_diff(st2, stack2, t)
                } else {
                    (st2, stack2)
                }
            },
        }
    }
}

/// Opens the groups of the stack again, the last pushed first.
pub open spec fn lx_reopen(st: LexV, stack: Seq<(GroupType, Option<Seq<char>>)>) -> LexV
    decreases stack.len(),
{
    if stack.len() == 0 {
        st
    } else {
        let (t, a) = stack.last();
        let s1 = lx_ng(st, t);
        let s2 = match a {
            Some(x) => lx_set_arg(s1, x),
            None => s1,
        };
        lx_reopen(s2, stack.drop_last())
    }
}

/// A line break left last in the current group is removed.
pub open spec fn lx_drop_br(st: LexV) -> LexV {
    let kids = st.nodes[st.cur as int].children;
    if kids.len() > 0 && 0 <= kids.last() < st.nodes.len()
        && group_eq(st.nodes[kids.last() as int].el.ele_type, GroupType::Br) {
        LexV { nodes: detach_node(st.nodes, kids.last() as int), ..st }
    } else {
        st
    }
}

/// The current group is of kind `t`, or is a broken group meant to be of kind `t`.
pub open spec fn closes_as(st: LexV, t: GroupType) -> bool {
    group_eq(cur_type(st), t) || match cur_type(st) {
        GroupType::Broken(inner, _) => group_eq(*inner, t),
        _ => false,
    }
}

/// Ends the group of kind `t`, reopening the groups closed inside it.
pub open spec fn lx_eg(st: LexV, t: GroupType) -> LexV {
    let s = lx_drop_br(st);
    if closes_as(s, t) {
        lx_close_same(s)
    } else {
        let (s2, stack) = lx_close_diff(s, Seq::empty(), t);
        lx_reopen(s2, stack)
    }
}

/// Ends the group of kind `t` and opens a group of kind `nt`, reopening the
/// groups closed inside the first one within the new one.
pub open spec fn lx_eng(st: LexV, t: GroupType, nt: GroupType) -> LexV {
    let s = lx_drop_br(st);
    if closes_as(s, t) {
        lx_ng(lx_close_same(s), nt)
    } else {
        let (s2, stack) = lx_close_diff(s, Seq::empty(), t);
        lx_reopen(lx_ng(s2, nt), stack)
    }
}

/// Ends the group of kind `t` and opens a group of kind `nt`; the groups closed
/// inside the first one stay closed.
pub open spec fn lx_ekg(st: LexV, t: GroupType, nt: GroupType) -> LexV {
    let s = lx_drop_br(st);
    if closes_as(s, t) {
        lx_ng(lx_close_same(s), nt)
    } else {
        let (s2, _) = lx_close_diff(s, Seq::empty(), t);
        lx_ng(s2, nt)
    }
}

/// A text group holding `t`.
pub open spec fn lx_text(st: LexV, t: Seq<char>) -> LexV {
    lx_eg(lx_add_text(lx_ng(st, GroupType::Text), t), GroupType::Text)
}

proof fn lemma_ng_wf(st: LexV, t: GroupType)
    requires
        lex_wf(st),
    ensures
        lex_wf(lx_ng(st, t)),
{
    lemma_append_wf(st.nodes, st.cur as int, ast_new(t));
}

proof fn lemma_set_wf(st: LexV, el: ASTElementV)
    requires
        lex_wf(st),
    ensures
        lex_wf(lx_set(st, el)),
{
    lemma_set_el_wf(st.nodes, st.cur as int, el);
}

proof fn lemma_close_same_wf(st: LexV)
    requires
        lex_wf(st),
    ensures
        lex_wf(lx_close_same(st)),
{
    lemma_tree_parent(st.nodes, st.cur as int);
    lemma_detach_wf(st.nodes, st.cur as int);
}

proof fn lemma_close_diff_wf(st: LexV, stack: Seq<(GroupType, Option<Seq<char>>)>, t: GroupType)
    requires
        lex_wf(st),
    ensures
        lex_wf(lx_close_diff(st, stack, t).0),
    decreases st.cur,
{
    lemma_tree_parent(st.nodes, st.cur as int);
    lemma_detach_wf(st.nodes, st.cur as int);
    let my = cur_type(st);
    if group_eq(my, GroupType::Paragraph) && !group_eq(t, GroupType::Paragraph) {
    } else if group_eq(my, GroupType::List) && !group_eq(t, GroupType::List) {
    } else if group_eq(my, GroupType::Document) && !group_eq(t, GroupType::Document) {
    } else {
        let entry = (my, cur_el(st).argument);
        let (stop, stack2) = if group_eq(my, t) {
            (true, stack)
        } else {
            match my {
                GroupType::Broken(inner, _) => if group_eq(*inner, t) {
                    (true, stack)
                } else if !group_eq(*inner, GroupType::ListItem) {
                    (false, stack.push(entry))
                } else {
                    (false, stack)
                },
                _ => (false, stack.push(entry)),
            }
        };
        if let Some(p) = st.nodes[st.cur as int].parent {
            let st2 = LexV { nodes: detach_if_empty(st), cur: p, ..st };
            if !stop && p < st.cur {
                lemma_close_diff_wf(st2, stack2, t);
            }
        }
    }
}

proof fn lemma_reopen_wf(st: LexV, stack: Seq<(GroupType, Option<Seq<char>>)>)
    requires
        lex_wf(st),
    ensures
        lex_wf(lx_reopen(st, stack)),
    decreases stack.len(),
{
    if stack.len() > 0 {
        let (t, a) = stack.last();
        lemma_ng_wf(st, t);
        let s1 = lx_ng(st, t);
        if let Some(x) = a {
            lemma_set_wf(s1, ASTElementV { argument: Some(x), ..cur_el(s1) });
        }
        let s2 = match a {
            Some(x) => lx_set_arg(s1, x),
            None => s1,
        };
        lemma_reopen_wf(s2, stack.drop_last());
    }
}

proof fn lemma_drop_br_wf(st: LexV)
    requires
        lex_wf(st),
    ensures
        lex_wf(lx_drop_br(st)),
{
    let kids = st.nodes[st.cur as int].children;
    if kids.len() > 0 && 0 <= kids.last() < st.nodes.len() {
        lemma_detach_wf(st.nodes, kids.last() as int);
    }
}

proof fn lemma_eg_wf(st: LexV, t: GroupType)
    requires
        lex_wf(st),
    ensures
        lex_wf(lx_eg(st, t)),
        lex_wf(lx_eng(st, t, GroupType::Paragraph)),
{
    lemma_drop_br_wf(st);
    let s = lx_drop_br(st);
    lemma_close_same_wf(s);
    lemma_close_diff_wf(s, Seq::empty(), t);
    let (s2, stack) = lx_close_diff(s, Seq::empty(), t);
    lemma_reopen_wf(s2, stack);
    lemma_ng_wf(lx_close_same(s), GroupType::Paragraph);
    lemma_ng_wf(s2, GroupType::Paragraph);
    lemma_reopen_wf(lx_ng(s2, GroupType::Paragraph), stack);
}

proof fn lemma_eng_wf(st: LexV, t: GroupType, nt: GroupType)
    requires
        lex_wf(st),
    ensures
        lex_wf(lx_eng(st, t, nt)),
        lex_wf(lx_ekg(st, t, nt)),
{
    lemma_drop_br_wf(st);
    let s = lx_drop_br(st);
    lemma_close_same_wf(s);
    lemma_close_diff_wf(s, Seq::empty(), t);
    let (s2, stack) = lx_close_diff(s, Seq::empty(), t);
    lemma_ng_wf(lx_close_same(s), nt);
    lemma_ng_wf(s2, nt);
    lemma_reopen_wf(lx_ng(s2, nt), stack);
}

/// Struct for lexing BBCode Instructions into an ASTElement tree.
pub struct BBCodeLexer {
    /// The tree; node 0 is the anchor that holds the documents.
    tree: Tree<ASTElement>,
    current_node: usize,
    next_text_as_arg: Option<ArgCommand>,
    ignore_tags: Option<&'static str>,
    ignore_formatting: bool,
    linebreaks_allowed: bool,
    preserve_empty: bool,
}

impl View for BBCodeLexer {
    type V = LexV;

    closed spec fn view(&self) -> LexV {
        LexV {
            nodes: self.tree@,
            cur: self.current_node as nat,
            next_arg: self.next_text_as_arg,
            ignore_tags: match self.ignore_tags { Some(t) => Some(t@), None => None },
            ignore_formatting: self.ignore_formatting,
            linebreaks_allowed: self.linebreaks_allowed,
            preserve_empty: self.preserve_empty,
        }
    }
}

impl BBCodeLexer {
    /// The lexer's tree and current node are consistent.
    pub closed spec fn wf(&self) -> bool {
        self.tree.inv() && lex_wf(self@)
    }

    /// Creates a new BBCodeLexer.
    pub fn new(preserve_empty: bool) -> (l: BBCodeLexer)
        ensures
            l.wf(),
            l@ == (LexV {
                nodes: seq![NodeV { el: ast_new(GroupType::Anchor), parent: None, children: Seq::empty() }],
                cur: 0,
                next_arg: None,
                ignore_tags: None,
                ignore_formatting: false,
                linebreaks_allowed: true,
                preserve_empty,
            }),
    {
        BBCodeLexer {
            tree: Tree::new(ASTElement::new(GroupType::Anchor)),
            current_node: 0,
            next_text_as_arg: None,
            ignore_tags: None,
            ignore_formatting: false,
            linebreaks_allowed: true,
            preserve_empty,
        }
    }

    /// The tree built so far; node 0 is the anchor.
    pub fn tree(&self) -> (t: &Tree<ASTElement>)
        requires
            self.wf(),
        ensures
            t@ == self@.nodes,
            t.inv(),
            tree_wf(t@),
    {
        &self.tree
    }

    /// Creates a new ASTElement.
    fn new_group(&mut self, ele_type: GroupType)
        requires
            old(self).wf(),
        ensures
            final(self).wf(),
            final(self)@ == lx_ng(old(self)@, ele_type),
    {
        proof { lemma_ng_wf(self@, ele_type); }
        let i = self.tree.append(self.current_node, ASTElement::new(ele_type));
        self.current_node = i;
    }

    /// Changes the current element with `f`, given as the new element value.
    fn take_current(&mut self) -> (el: ASTElement)
        requires
            old(self).wf(),
        ensures
            final(self).wf(),
            el@ == cur_el(old(self)@),
            final(self)@ == lx_set(old(self)@, ast_new(GroupType::Anchor)),
    {
        proof { lemma_set_wf(self@, ast_new(GroupType::Anchor)); }
        self.tree.replace_element(self.current_node, ASTElement::new(GroupType::Anchor))
    }

    fn put_current(&mut self, el: ASTElement)
        requires
            old(self).wf(),
        ensures
            final(self).wf(),
            final(self)@ == lx_set(old(self)@, el@),
    {
        proof { lemma_set_wf(self@, el@); }
        self.tree.replace_element(self.current_node, el);
    }

    fn set_arg(&mut self, arg: &str)
        requires
            old(self).wf(),
        ensures
            final(self).wf(),
            final(self)@ == lx_set_arg(old(self)@, arg@),
    {
        let ghost st = self@;
        let mut el = self.take_current();
        el.set_arg(arg);
        self.put_current(el);
        assert(self@.nodes =~= lx_set_arg(st, arg@).nodes);
    }

    fn add_text(&mut self, text: &str)
        requires
            old(self).wf(),
        ensures
            final(self).wf(),
            final(self)@ == lx_add_text(old(self)@, text@),
    {
        let ghost st = self@;
        let mut el = self.take_current();
        el.add_text(text);
        self.put_current(el);
        assert(self@.nodes =~= lx_add_text(st, text@).nodes);
    }

    fn set_void(&mut self, void: bool)
        requires
            old(self).wf(),
        ensures
            final(self).wf(),
            final(self)@ == lx_set_void(old(self)@, void),
    {
        let ghost st = self@;
        let mut el = self.take_current();
        el.set_void(void);
        self.put_current(el);
        assert(self@.nodes =~= lx_set_void(st, void).nodes);
    }

    fn set_ele_type(&mut self, ele_type: GroupType)
        requires
            old(self).wf(),
        ensures
            final(self).wf(),
            final(self)@ == lx_set_type(old(self)@, ele_type),
    {
        let ghost st = self@;
        let mut el = self.take_current();
        el.set_ele_type(ele_type);
        self.put_current(el);
        assert(self@.nodes =~= lx_set_type(st, ele_type).nodes);
    }

    fn set_detachable(&mut self, detachable: bool)
        requires
            old(self).wf(),
        ensures
            final(self).wf(),
            final(self)@ == lx_set_detachable(old(self)@, detachable),
    {
        let ghost st = self@;
        let mut el = self.take_current();
        el.set_detachable(detachable);
        self.put_current(el);
        assert(self@.nodes =~= lx_set_detachable(st, detachable).nodes);
    }

    /// Whether the current element is of kind `t`.
    fn current_is(&self, t: &GroupType) -> (b: bool)
        requires
            self.wf(),
        ensures
            b == group_eq(cur_type(self@), *t),
    {
        self.tree.element(self.current_node).ele_type().same_as(t)
    }

    /// Whether the current group, left empty, is removed when it closes.
    fn should_detach_current(&self) -> (b: bool)
        requires
            self.wf(),
        ensures
            b == should_detach(self@),
    {
        let el = self.tree.element(self.current_node);
        let empty = !self.tree.has_children(self.current_node);
        if !self.preserve_empty {
            let blank = match el.text_contents() {
                Some(text) => is_blank_exec(text.as_str()),
                None => true,
            };
            (empty && (!self.ignore_formatting && blank) && !el.is_void() && el.is_detachable())
                || (el.is_broken() && empty)
        } else {
            el.ele_type().same_as(&GroupType::Paragraph) && empty
        }
    }

    // Closes groups when the current group is the target group.
    fn close_same_group(&mut self)
        requires
            old(self).wf(),
        ensures
            final(self).wf(),
            final(self)@ == lx_close_same(old(self)@),
    {
        proof { lemma_close_same_wf(self@); }
        match self.tree.parent(self.current_node) {
            None => {},
            Some(parent) => {
                if self.should_detach_current() {
                    self.tree.detach(self.current_node);
                }
                self.current_node = parent;
            },
        }
    }

    // Closes groups when the current group is not the target group.
    fn close_diff_group(&mut self, group_stack: &mut Vec<GroupShorthand>, ele_type: &GroupType)
        requires
            old(self).wf(),
        ensures
            final(self).wf(),
            (final(self)@, stack_view(final(group_stack)@))
                == lx_close_diff(old(self)@, stack_view(old(group_stack)@), *ele_type),
        decreases old(self)@.cur,
    {
        proof {
            lemma_close_diff_wf(self@, stack_view(group_stack@), *ele_type);
            lemma_tree_parent(self@.nodes, self@.cur as int);
            lemma_detach_wf(self@.nodes, self@.cur as int);
        }
        let ghost st = self@;
        let ghost stack0 = stack_view(group_stack@);
        let cur0 = self.current_node;
        if self.current_is(&GroupType::Paragraph) && !ele_type.same_as(&GroupType::Paragraph) {
            if !self.tree.has_children(self.current_node) {
                self.tree.detach(self.current_node);
            }
            return;
        }
        if self.current_is(&GroupType::List) && !ele_type.same_as(&GroupType::List) {
            return;
        }
        if self.current_is(&GroupType::Document) && !ele_type.same_as(&GroupType::Document) {
            return;
        }
        let my_type = self.tree.element(self.current_node).ele_type().duplicate();
        let arg = match self.tree.element(self.current_node).argument() {
            Some(a) => Some(a.clone()),
            None => None,
        };
        let mut stop = false;
        if my_type.same_as(ele_type) {
            stop = true;
        } else {
            let pushed = match &my_type {
                GroupType::Broken(inner, _) => {
                    if inner.same_as(ele_type) {
                        stop = true;
                        false
                    } else {
                        !inner.same_as(&GroupType::ListItem)
                    }
                },
                _ => true,
            };
            if pushed {
                let ghost before = group_stack@;
                group_stack.push(GroupShorthand { ele_type: my_type, arg });
                assert(stack_view(group_stack@) =~= stack_view(before).push((cur_type(st), cur_el(st).argument)));
            }
        }
        match self.tree.parent(self.current_node) {
            None => {},
            Some(parent) => {
                if self.should_detach_current() {
                    self.tree.detach(self.current_node);
                }
                self.current_node = parent;
                if !stop && parent < cur0 {
                    self.close_diff_group(group_stack, ele_type);
                }
            },
        }
    }

    // Reopens closed groups after another element has closed.
    fn reopen_groups(&mut self, group_stack: &mut Vec<GroupShorthand>)
        requires
            old(self).wf(),
        ensures
            final(self).wf(),
            final(self)@ == lx_reopen(old(self)@, stack_view(old(group_stack)@)),
    {
        let ghost st = self@;
        let ghost stack0 = stack_view(group_stack@);
        while !group_stack.is_empty()
            invariant
                self.wf(),
                lx_reopen(st, stack0) == lx_reopen(self@, stack_view(group_stack@)),
            decreases group_stack@.len(),
        {
            let ghost before = group_stack@;
            let group = group_stack.pop().unwrap();
            assert(stack_view(group_stack@) =~= stack_view(before).drop_last());
            assert(shorthand_view(group) == stack_view(before).last());
            self.new_group(group.ele_type);
            if let Some(arg) = group.arg {
                self.set_arg(arg.as_str());
            }
        }
        assert(stack_view(group_stack@) =~= Seq::<(GroupType, Option<Seq<char>>)>::empty());
    }

    /// Removes a line break left last in the current group.
    fn drop_last_br(&mut self)
        requires
            old(self).wf(),
        ensures
            final(self).wf(),
            final(self)@ == lx_drop_br(old(self)@),
    {
        proof { lemma_drop_br_wf(self@); }
        if let Some(kid) = self.tree.last_child(self.current_node) {
            proof { lemma_tree_child(self@.nodes, self@.cur as int, self@.nodes[self@.cur as int].children.len() - 1); }
            if self.tree.element(kid).ele_type().same_as(&GroupType::Br) {
                self.tree.detach(kid);
            }
        }
    }

    /// Moves current working node up to the current node's parent and then creates a new element,
    /// preserving the formatting from the previous.
    fn end_and_new_group(&mut self, ele_type: &GroupType, new_type: GroupType)
        requires
            old(self).wf(),
        ensures
            final(self).wf(),
            final(self)@ == lx_eng(old(self)@, *ele_type, new_type),
    {
        proof { lemma_eng_wf(self@, *ele_type, new_type); }
        self.drop_last_br();
        if self.closes_as_current(ele_type) {
            self.close_same_group();
            self.new_group(new_type);
        } else {
            let mut group_stack = Vec::new();
            assert(stack_view(group_stack@) =~= Seq::<(GroupType, Option<Seq<char>>)>::empty());
            self.close_diff_group(&mut group_stack, ele_type);
            self.new_group(new_type);
            self.reopen_groups(&mut group_stack);
        }
    }

    /// Moves current working node up to the current node's parent and then creates a new element,
    /// *without* preserving formatting from the previous element.
    fn end_and_kill_new_group(&mut self, ele_type: &GroupType, new_type: GroupType)
        requires
            old(self).wf(),
        ensures
            final(self).wf(),
            final(self)@ == lx_ekg(old(self)@, *ele_type, new_type),
    {
        proof { lemma_eng_wf(self@, *ele_type, new_type); }
        self.drop_last_br();
        if self.closes_as_current(ele_type) {
            self.close_same_group();
            self.new_group(new_type);
        } else {
            let mut group_stack = Vec::new();
            assert(stack_view(group_stack@) =~= Seq::<(GroupType, Option<Seq<char>>)>::empty());
            self.close_diff_group(&mut group_stack, ele_type);
            self.new_group(new_type);
        }
    }

    /// Moves current working node up to the current node's parent.
    fn end_group(&mut self, ele_type: &GroupType)
        requires
            old(self).wf(),
        ensures
            final(self).wf(),
            final(self)@ == lx_eg(old(self)@, *ele_type),
    {
        proof { lemma_eg_wf(self@, *ele_type); }
        self.drop_last_br();
        if self.closes_as_current(ele_type) {
            self.close_same_group();
        } else {
            let mut group_stack = Vec::new();
            assert(stack_view(group_stack@) =~= Seq::<(GroupType, Option<Seq<char>>)>::empty());
            self.close_diff_group(&mut group_stack, ele_type);
            self.reopen_groups(&mut group_stack);
        }
    }

    /// Whether the current group closes as a group of kind `t`.
    fn closes_as_current(&self, t: &GroupType) -> (b: bool)
        requires
            self.wf(),
        ensures
            b == closes_as(self@, *t),
    {
        let el = self.tree.element(self.current_node);
        if el.ele_type().same_as(t) {
            return true;
        }
        match el.ele_type() {
            GroupType::Broken(inner, _) => inner.same_as(t),
            _ => false,
        }
    }

    /// A text group holding `text`.
    fn text_group(&mut self, text: &str)
        requires
            old(self).wf(),
        ensures
            final(self).wf(),
            final(self)@ == lx_text(old(self)@, text@),
    {
        self.new_group(GroupType::Text);
        self.add_text(text);
        self.end_group(&GroupType::Text);
    }
}

/// Whether text holds nothing but whitespace.
fn is_blank_exec(text: &str) -> (b: bool)
    ensures
        b == is_blank(text@),
{
    let c = to_chars(text);
    let mut i: usize = 0;
    while i < c.len()
        invariant
            c@ == text@,
            i <= c@.len(),
            forall|k: int| 0 <= k < i ==> is_white(#[trigger] c@[k]),
        decreases c@.len() - i,
    {
        let ch = c[i];
        let white = ('\u{9}' <= ch && ch <= '\u{d}') || ch == ' ' || ch == '\u{85}' || ch == '\u{a0}'
            || ch == '\u{1680}' || ('\u{2000}' <= ch && ch <= '\u{200a}') || ch == '\u{2028}'
            || ch == '\u{2029}' || ch == '\u{202f}' || ch == '\u{205f}' || ch == '\u{3000}';
        if !white {
            return false;
        }
        i = i + 1;
    }
    true
}


/// A group that closes without an argument becomes broken and stays.
pub open spec fn mark_unfilled(st: LexV, t: GroupType, broken: GroupType) -> LexV {
    if cur_el(st).argument is None && group_eq(cur_type(st), t) {
        lx_set_detachable(lx_set_type(st, broken), false)
    } else {
        st
    }
}

pub open spec fn lx_cmd_url_close(st: LexV) -> LexV {
    lx_eg(mark_unfilled(st, GroupType::Url, GroupType::Broken(Box::new(GroupType::Url), "url")), GroupType::Url)
}

pub open spec fn lx_cmd_email_close(st: LexV) -> LexV {
    lx_eg(mark_unfilled(st, GroupType::Email, GroupType::Broken(Box::new(GroupType::Email), "email")), GroupType::Email)
}

pub open spec fn lx_cmd_img_close(st: LexV) -> LexV {
    lx_eg(mark_unfilled(st, GroupType::Image, GroupType::Broken(Box::new(GroupType::Image), "img")), GroupType::Image)
}

/// A list item: a new item of the list, or of the item the current paragraph is
/// in; anywhere else a broken, void item.
pub open spec fn lx_cmd_list_item(st: LexV) -> LexV {
    if group_eq(cur_type(st), GroupType::List) {
        lx_ng(lx_eng(st, GroupType::ListItem, GroupType::ListItem), GroupType::Paragraph)
    } else {
        match st.nodes[st.cur as int].parent {
            Some(p) => if 0 <= p < st.nodes.len() && group_eq(st.nodes[p as int].el.ele_type, GroupType::ListItem) {
                let s1 = if group_eq(cur_type(st), GroupType::Paragraph) { lx_eg(st, GroupType::Paragraph) } else { st };
                lx_ng(lx_eng(s1, GroupType::ListItem, GroupType::ListItem), GroupType::Paragraph)
            } else {
                lx_set_void(lx_ng(st, GroupType::Broken(Box::new(GroupType::ListItem), "*")), true)
            },
            None => lx_set_void(lx_ng(st, GroupType::Broken(Box::new(GroupType::ListItem), "*")), true),
        }
    }
}

pub open spec fn lx_cmd_table_row_open(st: LexV) -> LexV {
    if group_eq(cur_type(st), GroupType::Table) {
        lx_ng(st, GroupType::TableRow)
    } else {
        lx_ng(st, GroupType::Broken(Box::new(GroupType::TableRow), "tr"))
    }
}

/// A table cell or caption inside the group of kind `within`: the cell and a
/// paragraph in it; anywhere else a broken cell.
pub open spec fn table_part_open(st: LexV, within: GroupType, t: GroupType, broken: GroupType) -> LexV {
    if group_eq(cur_type(st), within) {
        lx_ng(lx_ng(st, t), GroupType::Paragraph)
    } else {
        lx_ng(st, broken)
    }
}

/// Ends a table cell or caption, with the paragraph in it.
pub open spec fn table_part_close(st: LexV, t: GroupType) -> LexV {
    let s1 = if group_eq(cur_type(st), GroupType::Paragraph) { lx_eg(st, GroupType::Paragraph) } else { st };
    lx_eg(s1, t)
}

pub open spec fn lx_cmd_table_header_open(st: LexV) -> LexV {
    table_part_open(st, GroupType::TableRow, GroupType::TableHeader, GroupType::Broken(Box::new(GroupType::TableHeader), "th"))
}

pub open spec fn lx_cmd_table_header_close(st: LexV) -> LexV {
    table_part_close(st, GroupType::TableHeader)
}

pub open spec fn lx_cmd_table_data_open(st: LexV) -> LexV {
    table_part_open(st, GroupType::TableRow, GroupType::TableData, GroupType::Broken(Box::new(GroupType::TableData), "td"))
}

pub open spec fn lx_cmd_table_data_close(st: LexV) -> LexV {
    table_part_close(st, GroupType::TableData)
}

pub open spec fn lx_cmd_table_caption_open(st: LexV) -> LexV {
    table_part_open(st, GroupType::Table, GroupType::TableCaption, GroupType::Broken(Box::new(GroupType::TableCaption), "caption"))
}

pub open spec fn lx_cmd_table_caption_close(st: LexV) -> LexV {
    table_part_close(st, GroupType::TableCaption)
}

/// Starts with `https://` or `http://`.
pub open spec fn is_web_url(a: Seq<char>) -> bool {
    occurs_at(a, "https://"@, 0) || occurs_at(a, "http://"@, 0)
}

/// A character that a URL without a scheme may not hold.
pub open spec fn is_forbidden_url_char(c: char) -> bool {
    c == ':' || c == ';' || c == '*' || c == '#' || c == '{' || c == '}' || c == '|' || c == '^'
        || c == '~' || c == '[' || c == ']' || c == '`'
}

/// The text holds a character that a URL without a scheme may not hold.
pub open spec fn has_forbidden_url_char(a: Seq<char>) -> bool {
    exists|k: int| 0 <= k < a.len() && is_forbidden_url_char(#[trigger] a[k])
}

/// The index of the last `.` of the text.
pub open spec fn last_dot(a: Seq<char>) -> Option<int>
    decreases a.len(),
{
    if a.len() == 0 {
        None
    } else if a.last() == '.' {
        Some(a.len() - 1)
    } else {
        last_dot(a.drop_last())
    }
}

/// The text ends with an accepted image extension: from its last `.` on, it is
/// one of the extensions.
pub open spec fn has_image_extension(a: Seq<char>) -> bool {
    match last_dot(a) {
        Some(k) => exists|j: int| 0 <= j < ACCEPTED_IMAGE_TYPES@.len() && (#[trigger] ACCEPTED_IMAGE_TYPES@[j])@ == a.skip(k),
        None => false,
    }
}

/// The number of `#` the text starts with.
pub open spec fn leading_hashes(a: Seq<char>, i: int) -> int
    decreases a.len() - i,
{
    if 0 <= i < a.len() && a[i] == '#' { 1 + leading_hashes(a, i + 1) } else { 0 }
}

/// An ASCII hexadecimal digit.
pub open spec fn is_hex(c: char) -> bool {
    ('0' <= c && c <= '9') || ('a' <= c && c <= 'f') || ('A' <= c && c <= 'F')
}

/// The UTF-8 length of the text, as `str::len` gives it.
pub open spec fn byte_len(a: Seq<char>) -> usize {
    vstd::utf8::encode_utf8(a).len() as usize
}

/// A colour argument: `#` and six more bytes, four bytes that are hexadecimal
/// digits after any leading `#`, or a web colour name.
pub open spec fn is_colour(a: Seq<char>) -> bool {
    ||| (a.len() > 0 && a[0] == '#' && byte_len(a) == 7)
    ||| (byte_len(a) == 4 && forall|k: int| leading_hashes(a, 0) <= k < a.len() ==> is_hex(#[trigger] a[k]))
    ||| exists|j: int| 0 <= j < WEB_COLOURS@.len() && (#[trigger] WEB_COLOURS@[j])@ == a
}

/// A list argument.
pub open spec fn is_list_type(a: Seq<char>) -> bool {
    a == "1"@ || a == "a"@ || a == "A"@ || a == "i"@ || a == "I"@ || a == "circle"@ || a == "square"@
        || a == "none"@
}

/// Measures scaled with floating point: opacity and size.
#[derive(Debug, PartialEq, Eq, Structural, Clone, Copy)]
pub enum ScaleKind {
    Opacity,
    Size,
}

/// A `[color=...]` or `[colour=...]` tag: the colour, or a broken colour group,
/// holding the argument.
pub open spec fn lx_colour_open(st: LexV, a: Seq<char>, tag: &'static str) -> LexV {
    if is_colour(a) {
        lx_set_arg(lx_ng(st, GroupType::Colour), a)
    } else {
        lx_set_arg(lx_ng(st, GroupType::Broken(Box::new(GroupType::Colour), tag)), a)
    }
}

/// A `[url=...]` tag: a link to the argument, prefixed with `http://` when it has
/// no scheme; an argument without a scheme holding a forbidden character makes
/// a broken link.
pub open spec fn lx_url_open(st: LexV, a: Seq<char>) -> LexV {
    if is_web_url(a) {
        lx_set_arg(lx_ng(st, GroupType::Url), a)
    } else if has_forbidden_url_char(a) {
        lx_set_arg(lx_ng(st, GroupType::Broken(Box::new(GroupType::Url), "url")), a)
    } else {
        lx_set_arg(lx_ng(st, GroupType::Url), "http://"@ + a)
    }
}

/// A group with an argument that is valid when `ok`: ends the paragraph and
/// opens the group holding the argument, then a paragraph when `para`; otherwise
/// a broken group holding the argument.
pub open spec fn block_with_arg(st: LexV, a: Seq<char>, ok: bool, t: GroupType, broken: GroupType, para: bool) -> LexV {
    if ok {
        let s = lx_set_arg(lx_eng(st, GroupType::Paragraph, t), a);
        if para { lx_ng(s, GroupType::Paragraph) } else { s }
    } else {
        lx_set_arg(lx_ng(st, broken), a)
    }
}

/// The command a tag with an argument runs, if it names one: the new state, and
/// a measure to scale when the tag is an opacity or a size.
pub open spec fn one_arg_cmd(st: LexV, tag: Seq<char>, a: Seq<char>) -> Option<(LexV, Option<(ScaleKind, Seq<char>)>)> {
    if tag == "color"@ {
        Some((lx_colour_open(st, a, "color"), None))
    } else if tag == "colour"@ {
        Some((lx_colour_open(st, a, "colour"), None))
    } else if tag == "url"@ {
        Some((lx_url_open(st, a), None))
    } else if tag == "opacity"@ {
        Some((st, Some((ScaleKind::Opacity, a))))
    } else if tag == "size"@ {
        Some((st, Some((ScaleKind::Size, a))))
    } else if tag == "quote"@ {
        Some((lx_ng(lx_set_arg(lx_eng(st, GroupType::Paragraph, GroupType::Quote), a), GroupType::Paragraph), None))
    } else if tag == "codeblock"@ {
        let s = lx_ekg(st, GroupType::Paragraph, GroupType::CodeBlock);
        Some((lx_set_arg(LexV { ignore_tags: Some("/codeblock"@), ignore_formatting: true, ..s }, a), None))
    } else if tag == "footnote"@ {
        Some((lx_set_arg(lx_ng(st, GroupType::Footnote), a), None))
    } else if tag == "figure"@ {
        Some((block_with_arg(st, a, a == "right"@ || a == "left"@, GroupType::Figure,
            GroupType::Broken(Box::new(GroupType::Figure), "figure"), true), None))
    } else if tag == "list"@ {
        let s = block_with_arg(st, a, is_list_type(a), GroupType::List,
            GroupType::Broken(Box::new(GroupType::List), "list"), false);
        Some((if is_list_type(a) { LexV { linebreaks_allowed: false, ..s } } else { s }, None))
    } else if tag == "indent"@ {
        Some((block_with_arg(st, a, a == "1"@ || a == "2"@ || a == "3"@ || a == "4"@, GroupType::Indent,
            GroupType::Broken(Box::new(GroupType::Indent), "indent"), true), None))
    } else {
        None
    }
}

/// A group of a scaled measure, from the measure's value as text, or a broken
/// group holding the argument when the argument is not a number.
pub open spec fn lx_scaled(st: LexV, kind: ScaleKind, a: Seq<char>, value: Option<Seq<char>>) -> LexV {
    match value {
        Some(v) => lx_set_arg(lx_ng(st, match kind { ScaleKind::Opacity => GroupType::Opacity, ScaleKind::Size => GroupType::Size }), v),
        None => lx_set_arg(lx_ng(st, match kind {
            ScaleKind::Opacity => GroupType::Broken(Box::new(GroupType::Opacity), "opacity"),
            ScaleKind::Size => GroupType::Broken(Box::new(GroupType::Size), "size"),
        }), a),
    }
}

/// The text after `[url]`: the link's argument, prefixed with `http://` when it
/// has no scheme, and the text itself; text without a scheme holding a forbidden
/// character makes the link broken and becomes its text.
pub open spec fn lx_url_arg(st: LexV, a: Seq<char>) -> LexV {
    if is_web_url(a) {
        lx_text(lx_set_arg(st, a), a)
    } else if has_forbidden_url_char(a) {
        let s = if group_eq(cur_type(st), GroupType::Url) {
            lx_set_type(st, GroupType::Broken(Box::new(GroupType::Url), "url"))
        } else {
            lx_ng(st, GroupType::Broken(Box::new(GroupType::Url), "url"))
        };
        lx_add_text(s, a)
    } else {
        lx_text(lx_set_arg(st, "http://"@ + a), a)
    }
}

/// The text after `[email]`: a `mailto:` argument and the text itself.
pub open spec fn lx_email_arg(st: LexV, a: Seq<char>) -> LexV {
    lx_text(lx_set_arg(st, "mailto:"@ + a), a)
}

/// The text after `[embed]`: the embed's argument, prefixed with `http://` when
/// it has no scheme; a forbidden character in text without a scheme makes a
/// broken embed.
pub open spec fn lx_embed_arg(st: LexV, a: Seq<char>) -> LexV {
    if is_web_url(a) {
        lx_set_arg(st, a)
    } else if has_forbidden_url_char(a) {
        lx_set_arg(lx_ng(st, GroupType::Broken(Box::new(GroupType::Embed), "embed")), a)
    } else {
        lx_set_arg(st, "http://"@ + a)
    }
}

/// A void image of the URL.
pub open spec fn img_good(st: LexV, url: Seq<char>) -> LexV {
    lx_eg(lx_set_arg(lx_set_void(lx_ng(st, GroupType::Image), true), url), GroupType::Image)
}

/// A broken image holding the text, after ending the image group it was meant for.
pub open spec fn img_broken(st: LexV, a: Seq<char>) -> LexV {
    let s = if group_eq(cur_type(st), GroupType::Image) { lx_eg(st, GroupType::Image) } else { st };
    let b = GroupType::Broken(Box::new(GroupType::Image), "img");
    lx_eg(lx_add_text(lx_ng(s, b), a), b)
}

/// The text after `[img]`: an image when it names an accepted image file (with
/// `http://` added when it has no scheme), otherwise a broken image.
pub open spec fn lx_img_arg(st: LexV, a: Seq<char>) -> LexV {
    if is_web_url(a) {
        if has_image_extension(a) { img_good(st, a) } else { img_broken(st, a) }
    } else if has_forbidden_url_char(a) {
        img_broken(st, a)
    } else if has_image_extension(a) {
        img_good(st, "http://"@ + a)
    } else {
        img_broken(st, a)
    }
}

/// Text read as the argument of the tag before it.
pub open spec fn lx_text_arg(st: LexV, cmd: ArgCommand, a: Seq<char>) -> LexV {
    match cmd {
        ArgCommand::Url => lx_url_arg(st, a),
        ArgCommand::Email => lx_email_arg(st, a),
        ArgCommand::Image => lx_img_arg(st, a),
        ArgCommand::Embed => lx_embed_arg(st, a),
    }
}

/// The text of a tag written back: `[`, the tag, its argument, `]`.
pub open spec fn tag_text(param: Seq<char>, arg: Option<Seq<char>>) -> Seq<char> {
    "["@ + param + match arg { Some(a) => a, None => Seq::empty() } + "]"@
}

/// A tag: the command it names, or its text.
pub open spec fn lx_parse_tag(st: LexV, tag: Seq<char>, args: Option<Seq<char>>) -> (LexV, Option<(ScaleKind, Seq<char>)>) {
    match args {
        Some(a) => match one_arg_cmd(st, tag, a) {
            Some(r) => r,
            None => (lx_text(st, "["@ + tag + "="@ + a + "]"@), None),
        },
        None => match no_arg_cmd(st, tag) {
            Some(s) => (s, None),
            None => (lx_text(st, "["@ + tag + "]"@), None),
        },
    }
}

/// An instruction read while no tag waits for its text.
pub open spec fn lx_execute_plain(st: LexV, inst: InstructionV) -> (LexV, Option<(ScaleKind, Seq<char>)>) {
    match inst {
        InstructionV::Text(p) => (lx_text(st, p), None),
        InstructionV::Tag(param, arg) => match st.ignore_tags {
            Some(cmd) => if param == cmd {
                lx_parse_tag(st, param, arg)
            } else {
                (lx_text(st, tag_text(param, arg)), None)
            },
            None => lx_parse_tag(st, param, arg),
        },
        InstructionV::Parabreak(p) => (if st.ignore_formatting {
            lx_text(st, p)
        } else {
            lx_eng(st, GroupType::Paragraph, GroupType::Paragraph)
        }, None),
        InstructionV::Linebreak => (if st.ignore_formatting {
            lx_text(st, "\n"@)
        } else if st.linebreaks_allowed {
            lx_eg(lx_set_void(lx_ng(st, GroupType::Br), true), GroupType::Br)
        } else {
            st
        }, None),
        _ => (st, None),
    }
}

/// An instruction read: text goes to the tag waiting for it, if any; anything
/// else stops the waiting. A tag of a scaled measure is left for its value.
pub open spec fn lx_execute(st: LexV, inst: InstructionV) -> (LexV, Option<(ScaleKind, Seq<char>)>) {
    match st.next_arg {
        Some(cmd) => match inst {
            InstructionV::Text(p) => (lx_text_arg(st, cmd, p), None),
            _ => lx_execute_plain(LexV { next_arg: None, ..st }, inst),
        },
        None => lx_execute_plain(st, inst),
    }
}

/// Starts a document: a new document under the anchor; the anchor's first
/// document becomes current, with a new paragraph in it.
pub open spec fn lx_start(st: LexV) -> LexV {
    let nodes = append_node(st.nodes, 0, ast_new(GroupType::Document));
    lx_ng(LexV { nodes, cur: nodes[0].children[0], ..st }, GroupType::Paragraph)
}

/// Ends a document: ends the paragraph.
pub open spec fn lx_finish(st: LexV) -> LexV {
    lx_eg(st, GroupType::Paragraph)
}

/// The topmost node above node `i`.
pub open spec fn root_of(nodes: Seq<NodeV<ASTElementV>>, i: int) -> int
    decreases i,
{
    match nodes[i].parent {
        Some(p) => if 0 <= p < i { root_of(nodes, p as int) } else { i },
        None => i,
    }
}

pub open spec fn lx_cmd_bold_open(st: LexV) -> LexV {
    let s1 = lx_ng(st, GroupType::Bold);
    s1
}

pub open spec fn lx_cmd_bold_close(st: LexV) -> LexV {
    let s1 = lx_eg(st, GroupType::Bold);
    s1
}

pub open spec fn lx_cmd_italic_open(st: LexV) -> LexV {
    let s1 = lx_ng(st, GroupType::Italic);
    s1
}

pub open spec fn lx_cmd_italic_close(st: LexV) -> LexV {
    let s1 = lx_eg(st, GroupType::Italic);
    s1
}

pub open spec fn lx_cmd_strikethrough_open(st: LexV) -> LexV {
    let s1 = lx_ng(st, GroupType::Strikethrough);
    s1
}

pub open spec fn lx_cmd_strikethrough_close(st: LexV) -> LexV {
    let s1 = lx_eg(st, GroupType::Strikethrough);
    s1
}

pub open spec fn lx_cmd_strong_open(st: LexV) -> LexV {
    let s1 = lx_ng(st, GroupType::Strong);
    s1
}

pub open spec fn lx_cmd_strong_close(st: LexV) -> LexV {
    let s1 = lx_eg(st, GroupType::Strong);
    s1
}

pub open spec fn lx_cmd_emphasis_open(st: LexV) -> LexV {
    let s1 = lx_ng(st, GroupType::Emphasis);
    s1
}

pub open spec fn lx_cmd_emphasis_close(st: LexV) -> LexV {
    let s1 = lx_eg(st, GroupType::Emphasis);
    s1
}

pub open spec fn lx_cmd_underline_open(st: LexV) -> LexV {
    let s1 = lx_ng(st, GroupType::Underline);
    s1
}

pub open spec fn lx_cmd_underline_close(st: LexV) -> LexV {
    let s1 = lx_eg(st, GroupType::Underline);
    s1
}

pub open spec fn lx_cmd_smallcaps_open(st: LexV) -> LexV {
    let s1 = lx_ng(st, GroupType::Smallcaps);
    s1
}

pub open spec fn lx_cmd_smallcaps_close(st: LexV) -> LexV {
    let s1 = lx_eg(st, GroupType::Smallcaps);
    s1
}

pub open spec fn lx_cmd_monospace_open(st: LexV) -> LexV {
    let s1 = lx_ng(st, GroupType::Monospace);
    s1
}

pub open spec fn lx_cmd_monospace_close(st: LexV) -> LexV {
    let s1 = lx_eg(st, GroupType::Monospace);
    s1
}

pub open spec fn lx_cmd_subscript_open(st: LexV) -> LexV {
    let s1 = lx_ng(st, GroupType::Subscript);
    s1
}

pub open spec fn lx_cmd_subscript_close(st: LexV) -> LexV {
    let s1 = lx_eg(st, GroupType::Subscript);
    s1
}

pub open spec fn lx_cmd_superscript_open(st: LexV) -> LexV {
    let s1 = lx_ng(st, GroupType::Superscript);
    s1
}

pub open spec fn lx_cmd_superscript_close(st: LexV) -> LexV {
    let s1 = lx_eg(st, GroupType::Superscript);
    s1
}

pub open spec fn lx_cmd_spoiler_open(st: LexV) -> LexV {
    let s1 = lx_ng(st, GroupType::Spoiler);
    s1
}

pub open spec fn lx_cmd_spoiler_close(st: LexV) -> LexV {
    let s1 = lx_eg(st, GroupType::Spoiler);
    s1
}

pub open spec fn lx_cmd_hr(st: LexV) -> LexV {
    let s1 = lx_eg(st, GroupType::Paragraph);
    let s2 = lx_ng(s1, GroupType::Hr);
    let s3 = lx_set_void(s2, true);
    let s4 = lx_eg(s3, GroupType::Hr);
    let s5 = lx_ng(s4, GroupType::Paragraph);
    s5
}

pub open spec fn lx_cmd_center_open(st: LexV) -> LexV {
    let s1 = lx_eng(st, GroupType::Paragraph, GroupType::Center);
    let s2 = lx_ng(s1, GroupType::Paragraph);
    s2
}

pub open spec fn lx_cmd_center_close(st: LexV) -> LexV {
    let s1 = lx_eg(st, GroupType::Paragraph);
    let s2 = lx_eng(s1, GroupType::Center, GroupType::Paragraph);
    s2
}

pub open spec fn lx_cmd_right_open(st: LexV) -> LexV {
    let s1 = lx_eng(st, GroupType::Paragraph, GroupType::Right);
    let s2 = lx_ng(s1, GroupType::Paragraph);
    s2
}

pub open spec fn lx_cmd_right_close(st: LexV) -> LexV {
    let s1 = lx_eg(st, GroupType::Paragraph);
    let s2 = lx_eng(s1, GroupType::Right, GroupType::Paragraph);
    s2
}

pub open spec fn lx_cmd_color_bare_open(st: LexV) -> LexV {
    let s1 = lx_ng(st, GroupType::Broken(Box::new(GroupType::Colour), "color"));
    s1
}

pub open spec fn lx_cmd_colour_bare_open(st: LexV) -> LexV {
    let s1 = lx_ng(st, GroupType::Broken(Box::new(GroupType::Colour), "colour"));
    s1
}

pub open spec fn lx_cmd_colour_close(st: LexV) -> LexV {
    let s1 = lx_eg(st, GroupType::Colour);
    s1
}

pub open spec fn lx_cmd_opacity_bare_open(st: LexV) -> LexV {
    let s1 = lx_ng(st, GroupType::Broken(Box::new(GroupType::Opacity), "opacity"));
    s1
}

pub open spec fn lx_cmd_opacity_close(st: LexV) -> LexV {
    let s1 = lx_eg(st, GroupType::Opacity);
    s1
}

pub open spec fn lx_cmd_size_bare_open(st: LexV) -> LexV {
    let s1 = lx_ng(st, GroupType::Broken(Box::new(GroupType::Size), "size"));
    s1
}

pub open spec fn lx_cmd_size_close(st: LexV) -> LexV {
    let s1 = lx_eg(st, GroupType::Size);
    s1
}

pub open spec fn lx_cmd_url_bare_open(st: LexV) -> LexV {
    let s1 = LexV { next_arg: Some(ArgCommand::Url), ..st };
    let s2 = lx_ng(s1, GroupType::Url);
    s2
}

pub open spec fn lx_cmd_quote_open(st: LexV) -> LexV {
    let s1 = lx_eng(st, GroupType::Paragraph, GroupType::Quote);
    let s2 = lx_ng(s1, GroupType::Paragraph);
    s2
}

pub open spec fn lx_cmd_quote_close(st: LexV) -> LexV {
    let s1 = lx_eg(st, GroupType::Paragraph);
    let s2 = lx_eg(s1, GroupType::Quote);
    s2
}

pub open spec fn lx_cmd_code_open(st: LexV) -> LexV {
    let s1 = LexV { ignore_tags: Some("/code"@), ..st };
    let s2 = lx_ng(s1, GroupType::Code);
    s2
}

pub open spec fn lx_cmd_code_close(st: LexV) -> LexV {
    let s1 = lx_eg(st, GroupType::Code);
    let s2 = LexV { ignore_tags: None, ..s1 };
    s2
}

pub open spec fn lx_cmd_codeblock_bare_open(st: LexV) -> LexV {
    let s1 = lx_ekg(st, GroupType::Paragraph, GroupType::CodeBlock);
    let s2 = LexV { ignore_tags: Some("/codeblock"@), ..s1 };
    let s3 = LexV { ignore_formatting: true, ..s2 };
    s3
}

pub open spec fn lx_cmd_codeblock_close(st: LexV) -> LexV {
    let s1 = lx_eng(st, GroupType::CodeBlock, GroupType::Paragraph);
    let s2 = LexV { ignore_tags: None, ..s1 };
    let s3 = LexV { ignore_formatting: false, ..s2 };
    s3
}

pub open spec fn lx_cmd_img_open(st: LexV) -> LexV {
    let s1 = LexV { next_arg: Some(ArgCommand::Image), ..st };
    let s2 = lx_ng(s1, GroupType::Image);
    s2
}

pub open spec fn lx_cmd_h1_open(st: LexV) -> LexV {
    let s1 = lx_eg(st, GroupType::Paragraph);
    let s2 = lx_ng(s1, GroupType::Header);
    let s3 = lx_set_arg(s2, "1"@);
    s3
}

pub open spec fn lx_cmd_h1_close(st: LexV) -> LexV {
    let s1 = lx_eg(st, GroupType::Header);
    let s2 = lx_ng(s1, GroupType::Paragraph);
    s2
}

pub open spec fn lx_cmd_h2_open(st: LexV) -> LexV {
    let s1 = lx_eg(st, GroupType::Paragraph);
    let s2 = lx_ng(s1, GroupType::Header);
    let s3 = lx_set_arg(s2, "2"@);
    s3
}

pub open spec fn lx_cmd_h2_close(st: LexV) -> LexV {
    let s1 = lx_eg(st, GroupType::Header);
    let s2 = lx_ng(s1, GroupType::Paragraph);
    s2
}

pub open spec fn lx_cmd_h3_open(st: LexV) -> LexV {
    let s1 = lx_eg(st, GroupType::Paragraph);
    let s2 = lx_ng(s1, GroupType::Header);
    let s3 = lx_set_arg(s2, "3"@);
    s3
}

pub open spec fn lx_cmd_h3_close(st: LexV) -> LexV {
    let s1 = lx_eg(st, GroupType::Header);
    let s2 = lx_ng(s1, GroupType::Paragraph);
    s2
}

pub open spec fn lx_cmd_h4_open(st: LexV) -> LexV {
    let s1 = lx_eg(st, GroupType::Paragraph);
    let s2 = lx_ng(s1, GroupType::Header);
    let s3 = lx_set_arg(s2, "4"@);
    s3
}

pub open spec fn lx_cmd_h4_close(st: LexV) -> LexV {
    let s1 = lx_eg(st, GroupType::Header);
    let s2 = lx_ng(s1, GroupType::Paragraph);
    s2
}

pub open spec fn lx_cmd_h5_open(st: LexV) -> LexV {
    let s1 = lx_eg(st, GroupType::Paragraph);
    let s2 = lx_ng(s1, GroupType::Header);
    let s3 = lx_set_arg(s2, "5"@);
    s3
}

pub open spec fn lx_cmd_h5_close(st: LexV) -> LexV {
    let s1 = lx_eg(st, GroupType::Header);
    let s2 = lx_ng(s1, GroupType::Paragraph);
    s2
}

pub open spec fn lx_cmd_h6_open(st: LexV) -> LexV {
    let s1 = lx_eg(st, GroupType::Paragraph);
    let s2 = lx_ng(s1, GroupType::Header);
    let s3 = lx_set_arg(s2, "6"@);
    s3
}

pub open spec fn lx_cmd_h6_close(st: LexV) -> LexV {
    let s1 = lx_eg(st, GroupType::Header);
    let s2 = lx_ng(s1, GroupType::Paragraph);
    s2
}

pub open spec fn lx_cmd_plain_open(st: LexV) -> LexV {
    let s1 = lx_eng(st, GroupType::Paragraph, GroupType::Plain);
    let s2 = LexV { ignore_formatting: true, ..s1 };
    s2
}

pub open spec fn lx_cmd_plain_close(st: LexV) -> LexV {
    let s1 = lx_eg(st, GroupType::Plain);
    let s2 = LexV { ignore_formatting: false, ..s1 };
    let s3 = lx_ng(s2, GroupType::Plain);
    s3
}

pub open spec fn lx_cmd_pre_open(st: LexV) -> LexV {
    let s1 = lx_eng(st, GroupType::Paragraph, GroupType::Pre);
    let s2 = LexV { ignore_formatting: true, ..s1 };
    s2
}

pub open spec fn lx_cmd_pre_close(st: LexV) -> LexV {
    let s1 = lx_eg(st, GroupType::Pre);
    let s2 = LexV { ignore_formatting: false, ..s1 };
    let s3 = lx_ng(s2, GroupType::Paragraph);
    s3
}

pub open spec fn lx_cmd_footnote_bare_open(st: LexV) -> LexV {
    let s1 = lx_ng(st, GroupType::Footnote);
    s1
}

pub open spec fn lx_cmd_footnote_close(st: LexV) -> LexV {
    let s1 = lx_eg(st, GroupType::Footnote);
    s1
}

pub open spec fn lx_cmd_figure_close(st: LexV) -> LexV {
    let s1 = lx_eg(st, GroupType::Paragraph);
    let s2 = lx_eng(s1, GroupType::Figure, GroupType::Paragraph);
    s2
}

pub open spec fn lx_cmd_list_bare_open(st: LexV) -> LexV {
    let s1 = lx_eng(st, GroupType::Paragraph, GroupType::List);
    let s2 = LexV { linebreaks_allowed: false, ..s1 };
    s2
}

pub open spec fn lx_cmd_list_close(st: LexV) -> LexV {
    let s1 = lx_eng(st, GroupType::List, GroupType::Paragraph);
    let s2 = LexV { linebreaks_allowed: true, ..s1 };
    s2
}

pub open spec fn lx_cmd_table_open(st: LexV) -> LexV {
    let s1 = lx_eng(st, GroupType::Paragraph, GroupType::Table);
    let s2 = LexV { linebreaks_allowed: false, ..s1 };
    s2
}

pub open spec fn lx_cmd_table_close(st: LexV) -> LexV {
    let s1 = lx_eng(st, GroupType::Table, GroupType::Paragraph);
    let s2 = LexV { linebreaks_allowed: true, ..s1 };
    s2
}

pub open spec fn lx_cmd_table_row_close(st: LexV) -> LexV {
    let s1 = lx_eg(st, GroupType::TableRow);
    s1
}

pub open spec fn lx_cmd_preline_open(st: LexV) -> LexV {
    let s1 = lx_ng(st, GroupType::PreLine);
    let s2 = LexV { ignore_formatting: true, ..s1 };
    s2
}

pub open spec fn lx_cmd_preline_close(st: LexV) -> LexV {
    let s1 = LexV { ignore_formatting: false, ..st };
    let s2 = lx_eg(s1, GroupType::PreLine);
    s2
}

pub open spec fn lx_cmd_indent_bare_open(st: LexV) -> LexV {
    let s1 = lx_eng(st, GroupType::Paragraph, GroupType::Indent);
    let s2 = lx_set_arg(s1, "1"@);
    let s3 = lx_ng(s2, GroupType::Paragraph);
    s3
}

pub open spec fn lx_cmd_indent_close(st: LexV) -> LexV {
    let s1 = lx_eng(st, GroupType::Indent, GroupType::Paragraph);
    s1
}

pub open spec fn lx_cmd_math_open(st: LexV) -> LexV {
    let s1 = lx_ng(st, GroupType::Math);
    let s2 = LexV { ignore_tags: Some("/math"@), ..s1 };
    let s3 = LexV { ignore_formatting: true, ..s2 };
    s3
}

pub open spec fn lx_cmd_math_close(st: LexV) -> LexV {
    let s1 = lx_eg(st, GroupType::Math);
    let s2 = LexV { ignore_tags: None, ..s1 };
    let s3 = LexV { ignore_formatting: false, ..s2 };
    s3
}

pub open spec fn lx_cmd_mathblock_open(st: LexV) -> LexV {
    let s1 = lx_ekg(st, GroupType::Paragraph, GroupType::MathBlock);
    let s2 = LexV { ignore_tags: Some("/mathblock"@), ..s1 };
    let s3 = LexV { ignore_formatting: true, ..s2 };
    s3
}

pub open spec fn lx_cmd_mathblock_close(st: LexV) -> LexV {
    let s1 = LexV { ignore_tags: Some("/mathblock"@), ..st };
    let s2 = LexV { ignore_formatting: false, ..s1 };
    let s3 = lx_eng(s2, GroupType::MathBlock, GroupType::Paragraph);
    s3
}

pub open spec fn lx_cmd_embed_open(st: LexV) -> LexV {
    let s1 = LexV { next_arg: Some(ArgCommand::Embed), ..st };
    let s2 = lx_eng(s1, GroupType::Paragraph, GroupType::Embed);
    let s3 = lx_set_void(s2, true);
    s3
}

pub open spec fn lx_cmd_embed_close(st: LexV) -> LexV {
    let s1 = lx_eng(st, GroupType::Embed, GroupType::Paragraph);
    s1
}

pub open spec fn lx_cmd_email_open(st: LexV) -> LexV {
    let s1 = LexV { next_arg: Some(ArgCommand::Email), ..st };
    let s2 = lx_ng(s1, GroupType::Email);
    s2
}

/// The command a tag without an argument runs, if it names one.
pub open spec fn no_arg_cmd(st: LexV, tag: Seq<char>) -> Option<LexV> {
    if tag == "b"@ {
        Some(lx_cmd_bold_open(st))
    } else if tag == "/b"@ {
        Some(lx_cmd_bold_close(st))
    } else if tag == "i"@ {
        Some(lx_cmd_italic_open(st))
    } else if tag == "/i"@ {
        Some(lx_cmd_italic_close(st))
    } else if tag == "s"@ {
        Some(lx_cmd_strikethrough_open(st))
    } else if tag == "/s"@ {
        Some(lx_cmd_strikethrough_close(st))
    } else if tag == "strong"@ {
        Some(lx_cmd_strong_open(st))
    } else if tag == "/strong"@ {
        Some(lx_cmd_strong_close(st))
    } else if tag == "em"@ {
        Some(lx_cmd_emphasis_open(st))
    } else if tag == "/em"@ {
        Some(lx_cmd_emphasis_close(st))
    } else if tag == "u"@ {
        Some(lx_cmd_underline_open(st))
    } else if tag == "/u"@ {
        Some(lx_cmd_underline_close(st))
    } else if tag == "smcaps"@ {
        Some(lx_cmd_smallcaps_open(st))
    } else if tag == "/smcaps"@ {
        Some(lx_cmd_smallcaps_close(st))
    } else if tag == "mono"@ {
        Some(lx_cmd_monospace_open(st))
    } else if tag == "/mono"@ {
        Some(lx_cmd_monospace_close(st))
    } else if tag == "sub"@ {
        Some(lx_cmd_subscript_open(st))
    } else if tag == "/sub"@ {
        Some(lx_cmd_subscript_close(st))
    } else if tag == "sup"@ {
        Some(lx_cmd_superscript_open(st))
    } else if tag == "/sup"@ {
        Some(lx_cmd_superscript_close(st))
    } else if tag == "spoiler"@ {
        Some(lx_cmd_spoiler_open(st))
    } else if tag == "/spoiler"@ {
        Some(lx_cmd_spoiler_close(st))
    } else if tag == "hr"@ {
        Some(lx_cmd_hr(st))
    } else if tag == "center"@ {
        Some(lx_cmd_center_open(st))
    } else if tag == "/center"@ {
        Some(lx_cmd_center_close(st))
    } else if tag == "right"@ {
        Some(lx_cmd_right_open(st))
    } else if tag == "/right"@ {
        Some(lx_cmd_right_close(st))
    } else if tag == "color"@ {
        Some(lx_cmd_color_bare_open(st))
    } else if tag == "colour"@ {
        Some(lx_cmd_colour_bare_open(st))
    } else if tag == "/color"@ {
        Some(lx_cmd_colour_close(st))
    } else if tag == "/colour"@ {
        Some(lx_cmd_colour_close(st))
    } else if tag == "opacity"@ {
        Some(lx_cmd_opacity_bare_open(st))
    } else if tag == "/opacity"@ {
        Some(lx_cmd_opacity_close(st))
    } else if tag == "size"@ {
        Some(lx_cmd_size_bare_open(st))
    } else if tag == "/size"@ {
        Some(lx_cmd_size_close(st))
    } else if tag == "url"@ {
        Some(lx_cmd_url_bare_open(st))
    } else if tag == "/url"@ {
        Some(lx_cmd_url_close(st))
    } else if tag == "quote"@ {
        Some(lx_cmd_quote_open(st))
    } else if tag == "/quote"@ {
        Some(lx_cmd_quote_close(st))
    } else if tag == "code"@ {
        Some(lx_cmd_code_open(st))
    } else if tag == "/code"@ {
        Some(lx_cmd_code_close(st))
    } else if tag == "codeblock"@ {
        Some(lx_cmd_codeblock_bare_open(st))
    } else if tag == "/codeblock"@ {
        Some(lx_cmd_codeblock_close(st))
    } else if tag == "img"@ {
        Some(lx_cmd_img_open(st))
    } else if tag == "/img"@ {
        Some(lx_cmd_img_close(st))
    } else if tag == "h1"@ {
        Some(lx_cmd_h1_open(st))
    } else if tag == "/h1"@ {
        Some(lx_cmd_h1_close(st))
    } else if tag == "h2"@ {
        Some(lx_cmd_h2_open(st))
    } else if tag == "/h2"@ {
        Some(lx_cmd_h2_close(st))
    } else if tag == "h3"@ {
        Some(lx_cmd_h3_open(st))
    } else if tag == "/h3"@ {
        Some(lx_cmd_h3_close(st))
    } else if tag == "h4"@ {
        Some(lx_cmd_h4_open(st))
    } else if tag == "/h4"@ {
        Some(lx_cmd_h4_close(st))
    } else if tag == "h5"@ {
        Some(lx_cmd_h5_open(st))
    } else if tag == "/h5"@ {
        Some(lx_cmd_h5_close(st))
    } else if tag == "h6"@ {
        Some(lx_cmd_h6_open(st))
    } else if tag == "/h6"@ {
        Some(lx_cmd_h6_close(st))
    } else if tag == "plain"@ {
        Some(lx_cmd_plain_open(st))
    } else if tag == "/plain"@ {
        Some(lx_cmd_plain_close(st))
    } else if tag == "pre"@ {
        Some(lx_cmd_pre_open(st))
    } else if tag == "/pre"@ {
        Some(lx_cmd_pre_close(st))
    } else if tag == "footnote"@ {
        Some(lx_cmd_footnote_bare_open(st))
    } else if tag == "/footnote"@ {
        Some(lx_cmd_footnote_close(st))
    } else if tag == "/figure"@ {
        Some(lx_cmd_figure_close(st))
    } else if tag == "list"@ {
        Some(lx_cmd_list_bare_open(st))
    } else if tag == "/list"@ {
        Some(lx_cmd_list_close(st))
    } else if tag == "*"@ {
        Some(lx_cmd_list_item(st))
    } else if tag == "table"@ {
        Some(lx_cmd_table_open(st))
    } else if tag == "/table"@ {
        Some(lx_cmd_table_close(st))
    } else if tag == "tr"@ {
        Some(lx_cmd_table_row_open(st))
    } else if tag == "/tr"@ {
        Some(lx_cmd_table_row_close(st))
    } else if tag == "th"@ {
        Some(lx_cmd_table_header_open(st))
    } else if tag == "/th"@ {
        Some(lx_cmd_table_header_close(st))
    } else if tag == "td"@ {
        Some(lx_cmd_table_data_open(st))
    } else if tag == "/td"@ {
        Some(lx_cmd_table_data_close(st))
    } else if tag == "caption"@ {
        Some(lx_cmd_table_caption_open(st))
    } else if tag == "/caption"@ {
        Some(lx_cmd_table_caption_close(st))
    } else if tag == "pre-line"@ {
        Some(lx_cmd_preline_open(st))
    } else if tag == "/pre-line"@ {
        Some(lx_cmd_preline_close(st))
    } else if tag == "indent"@ {
        Some(lx_cmd_indent_bare_open(st))
    } else if tag == "/indent"@ {
        Some(lx_cmd_indent_close(st))
    } else if tag == "math"@ {
        Some(lx_cmd_math_open(st))
    } else if tag == "/math"@ {
        Some(lx_cmd_math_close(st))
    } else if tag == "mathblock"@ {
        Some(lx_cmd_mathblock_open(st))
    } else if tag == "/mathblock"@ {
        Some(lx_cmd_mathblock_close(st))
    } else if tag == "embed"@ {
        Some(lx_cmd_embed_open(st))
    } else if tag == "/embed"@ {
        Some(lx_cmd_embed_close(st))
    } else if tag == "email"@ {
        Some(lx_cmd_email_open(st))
    } else if tag == "/email"@ {
        Some(lx_cmd_email_close(st))
    } else {
        None
    }
}

/// A measure to scale, handed back by the lexer: its kind and the argument.
pub struct ScaleRequest {
    pub kind: ScaleKind,
    pub arg: String,
}

/// The value of a scale request.
pub open spec fn request_view(q: ScaleRequest) -> (ScaleKind, Seq<char>) {
    (q.kind, q.arg@)
}

/// The value of an optional scale request.
pub open spec fn opt_request_view(o: Option<ScaleRequest>) -> Option<(ScaleKind, Seq<char>)> {
    match o {
        Some(q) => Some(request_view(q)),
        None => None,
    }
}

/// Whether the text starts with `https://` or `http://`.
fn web_url(arg: &str) -> (b: bool)
    ensures
        b == is_web_url(arg@),
{
    let c = to_chars(arg);
    let https = to_chars("https://");
    let http = to_chars("http://");
    occurs_at_exec(c.as_slice(), https.as_slice(), 0) || occurs_at_exec(c.as_slice(), http.as_slice(), 0)
}

/// Whether the text holds a character that a URL without a scheme may not hold.
fn forbidden_url_char(arg: &str) -> (b: bool)
    ensures
        b == has_forbidden_url_char(arg@),
{
    let c = to_chars(arg);
    let mut i: usize = 0;
    while i < c.len()
        invariant
            c@ == arg@,
            i <= c@.len(),
            forall|k: int| 0 <= k < i ==> !is_forbidden_url_char(#[trigger] c@[k]),
        decreases c@.len() - i,
    {
        let ch = c[i];
        if ch == ':' || ch == ';' || ch == '*' || ch == '#' || ch == '{' || ch == '}' || ch == '|'
            || ch == '^' || ch == '~' || ch == '[' || ch == ']' || ch == '`' {
            assert(is_forbidden_url_char(c@[i as int]));
            return true;
        }
        i = i + 1;
    }
    false
}

/// `http://` and the text.
fn with_http(arg: &str) -> (s: String)
    ensures
        s@ == "http://"@ + arg@,
{
    let mut s = "http://".to_owned();
    push_str(&mut s, arg);
    s
}

/// Whether the text ends with an accepted image extension.
fn image_extension(arg: &str) -> (b: bool)
    ensures
        b == has_image_extension(arg@),
{
    let n = arg.unicode_len();
    let mut i = n;
    let c = to_chars(arg);
    assert(arg@.take(n as int) =~= arg@);
    while i > 0
        invariant
            c@ == arg@,
            n == arg@.len(),
            i <= n,
            last_dot(arg@) == last_dot(arg@.take(i as int)),
        decreases i,
    {
        assert(arg@.take(i as int).drop_last() =~= arg@.take(i - 1));
        if c[i - 1] == '.' {
            assert(arg@.take(i as int).last() == '.');
            assert(last_dot(arg@) == Some(i - 1));
            let suffix = arg.substring_char(i - 1, n);
            assert(suffix@ =~= arg@.skip((i - 1) as int));
            let mut j: usize = 0;
            while j < ACCEPTED_IMAGE_TYPES.len()
                invariant
                    0 < i <= n,
                    suffix@ == arg@.skip((i - 1) as int),
                    last_dot(arg@) == Some((i - 1) as int),
                    j <= ACCEPTED_IMAGE_TYPES@.len(),
                    forall|k: int| 0 <= k < j ==> (#[trigger] ACCEPTED_IMAGE_TYPES@[k])@ != suffix@,
                decreases ACCEPTED_IMAGE_TYPES@.len() - j,
            {
                if str_eq(ACCEPTED_IMAGE_TYPES[j], suffix) {
                    assert(ACCEPTED_IMAGE_TYPES@[j as int]@ == suffix@);
                    assert(ACCEPTED_IMAGE_TYPES@[j as int]@ == arg@.skip((i - 1) as int));
                    assert(last_dot(arg@) == Some((i - 1) as int));
                    return true;
                }
                j = j + 1;
            }
            return false;
        }
        i = i - 1;
    }
    assert(arg@.take(0) =~= Seq::<char>::empty());
    false
}

/// Whether the text is a colour argument.
fn colour_arg(arg: &str) -> (b: bool)
    ensures
        b == is_colour(arg@),
{
    let c = to_chars(arg);
    let bytes = arg.len();
    if c.len() > 0 && c[0] == '#' && bytes == 7 {
        return true;
    }
    if bytes == 4 {
        let mut h: usize = 0;
        while h < c.len() && c[h] == '#'
            invariant
                c@ == arg@,
                h <= c@.len(),
                leading_hashes(arg@, 0) == h + leading_hashes(arg@, h as int),
            decreases c@.len() - h,
        {
            h = h + 1;
        }
        let mut k = h;
        let mut all_hex = true;
        while k < c.len()
            invariant
                c@ == arg@,
                h <= k <= c@.len(),
                leading_hashes(arg@, 0) == h,
                all_hex == (forall|m: int| h <= m < k ==> is_hex(#[trigger] arg@[m])),
            decreases c@.len() - k,
        {
            let ch = c[k];
            if !(('0' <= ch && ch <= '9') || ('a' <= ch && ch <= 'f') || ('A' <= ch && ch <= 'F')) {
                all_hex = false;
            }
            k = k + 1;
        }
        if all_hex {
            return true;
        }
    }
    let mut j: usize = 0;
    while j < WEB_COLOURS.len()
        invariant
            j <= WEB_COLOURS@.len(),
            forall|k: int| 0 <= k < j ==> (#[trigger] WEB_COLOURS@[k])@ != arg@,
        decreases WEB_COLOURS@.len() - j,
    {
        if str_eq(WEB_COLOURS[j], arg) {
            assert(WEB_COLOURS@[j as int]@ == arg@);
            return true;
        }
        j = j + 1;
    }
    false
}

/// Whether the text is a list argument.
fn list_type(arg: &str) -> (b: bool)
    ensures
        b == is_list_type(arg@),
{
    str_eq(arg, "1") || str_eq(arg, "a") || str_eq(arg, "A") || str_eq(arg, "i") || str_eq(arg, "I")
        || str_eq(arg, "circle") || str_eq(arg, "square") || str_eq(arg, "none")
}

/// Image extensions accepted by `[img]`.
pub const ACCEPTED_IMAGE_TYPES: [&'static str; 10] = [
    ".jpg",
    ".jpeg",
    ".pjpeg",
    ".pjp",
    ".jfif",
    ".png",
    ".apng",
    ".gif",
    ".bmp",
    ".webp",
];

/// Web colour names accepted by `[colour=name]`.
pub const WEB_COLOURS: [&'static str; 298] = [
    "aliceblue",
    "antiquewhite",
    "aqua",
    "aquamarine",
    "azure",
    "beige",
    "bisque",
    "black",
    "blanchedalmond",
    "blue",
    "blueviolet",
    "brown",
    "burlywood",
    "cadetblue",
    "chartreuse",
    "chocolate",
    "coral",
    "cornflowerblue",
    "cornsilk",
    "crimson",
    "cyan",
    "darkblue",
    "darkcyan",
    "darkgoldenrod",
    "darkgray",
    "darkgrey",
    "darkgreen",
    "darkkhaki",
    "darkmagenta",
    "darkolivegreen",
    "darkorange",
    "darkorchid",
    "darkred",
    "darksalmon",
    "darkseagreen",
    "darkslateblue",
    "darkslategray",
    "darkslategrey",
    "darkturquoise",
    "darkviolet",
    "deeppink",
    "deepskyblue",
    "dimgray",
    "dimgrey",
    "dodgerblue",
    "firebrick",
    "floralwhite",
    "forestgreen",
    "fuchsia",
    "gainsboro",
    "ghostwhite",
    "gold",
    "goldenrod",
    "gray",
    "grey",
    "green",
    "greenyellow",
    "honeydew",
    "hotpink",
    "indianred ",
    "indigo ",
    "ivory",
    "khaki",
    "lavender",
    "lavenderblush",
    "lawngreen",
    "lemonchiffon",
    "lightblue",
    "lightcoral",
    "lightcyan",
    "lightgoldenrodyellow",
    "lightgray",
    "lightgrey",
    "lightgreen",
    "lightpink",
    "lightsalmon",
    "lightseagreen",
    "lightskyblue",
    "lightslategray",
    "lightslategrey",
    "lightsteelblue",
    "lightyellow",
    "lime",
    "limegreen",
    "linen",
    "magenta",
    "maroon",
    "mediumaquamarine",
    "mediumblue",
    "mediumorchid",
    "mediumpurple",
    "mediumseagreen",
    "mediumslateblue",
    "mediumspringgreen",
    "mediumturquoise",
    "mediumvioletred",
    "midnightblue",
    "mintcream",
    "mistyrose",
    "moccasin",
    "navajowhite",
    "navy",
    "oldlace",
    "olive",
    "olivedrab",
    "orange",
    "orangered",
    "orchid",
    "palegoldenrod",
    "palegreen",
    "paleturquoise",
    "palevioletred",
    "papayawhip",
    "peachpuff",
    "peru",
    "pink",
    "plum",
    "powderblue",
    "purple",
    "rebeccapurple",
    "red",
    "rosybrown",
    "royalblue",
    "saddlebrown",
    "salmon",
    "sandybrown",
    "seagreen",
    "seashell",
    "sienna",
    "silver",
    "skyblue",
    "slateblue",
    "slategray",
    "slategrey",
    "snow",
    "springgreen",
    "steelblue",
    "tan",
    "teal",
    "thistle",
    "tomato",
    "turquoise",
    "transparant",
    "violet",
    "wheat",
    "white",
    "whitesmoke",
    "yellow",
    "yellowgreen",
    "Aliceblue",
    "Antiquewhite",
    "Aqua",
    "Aquamarine",
    "Azure",
    "Beige",
    "Bisque",
    "Black",
    "Blanchedalmond",
    "Blue",
    "Blueviolet",
    "Brown",
    "Burlywood",
    "Cadetblue",
    "Chartreuse",
    "Chocolate",
    "Coral",
    "Cornflowerblue",
    "Cornsilk",
    "Crimson",
    "Cyan",
    "Darkblue",
    "Darkcyan",
    "Darkgoldenrod",
    "Darkgray",
    "Darkgrey",
    "Darkgreen",
    "Darkkhaki",
    "Darkmagenta",
    "Darkolivegreen",
    "Darkorange",
    "Darkorchid",
    "Darkred",
    "Darksalmon",
    "Darkseagreen",
    "Darkslateblue",
    "Darkslategray",
    "Darkslategrey",
    "Darkturquoise",
    "Darkviolet",
    "Deeppink",
    "Deepskyblue",
    "Dimgray",
    "Dimgrey",
    "Dodgerblue",
    "Firebrick",
    "Floralwhite",
    "Forestgreen",
    "Fuchsia",
    "Gainsboro",
    "Ghostwhite",
    "Gold",
    "Goldenrod",
    "Gray",
    "Grey",
    "Green",
    "Greenyellow",
    "Honeydew",
    "Hotpink",
    "Indianred ",
    "Indigo ",
    "Ivory",
    "Khaki",
    "Lavender",
    "Lavenderblush",
    "Lawngreen",
    "Lemonchiffon",
    "Lightblue",
    "Lightcoral",
    "Lightcyan",
    "Lightgoldenrodyellow",
    "Lightgray",
    "Lightgrey",
    "Lightgreen",
    "Lightpink",
    "Lightsalmon",
    "Lightseagreen",
    "Lightskyblue",
    "Lightslategray",
    "Lightslategrey",
    "Lightsteelblue",
    "Lightyellow",
    "Lime",
    "Limegreen",
    "Linen",
    "Magenta",
    "Maroon",
    "Mediumaquamarine",
    "Mediumblue",
    "Mediumorchid",
    "Mediumpurple",
    "Mediumseagreen",
    "Mediumslateblue",
    "Mediumspringgreen",
    "Mediumturquoise",
    "Mediumvioletred",
    "Midnightblue",
    "Mintcream",
    "Mistyrose",
    "Moccasin",
    "Navajowhite",
    "Navy",
    "Oldlace",
    "Olive",
    "Olivedrab",
    "Orange",
    "Orangered",
    "Orchid",
    "Palegoldenrod",
    "Palegreen",
    "Paleturquoise",
    "Palevioletred",
    "Papayawhip",
    "Peachpuff",
    "Peru",
    "Pink",
    "Plum",
    "Powderblue",
    "Purple",
    "Rebeccapurple",
    "Red",
    "Rosybrown",
    "Royalblue",
    "Saddlebrown",
    "Salmon",
    "Sandybrown",
    "Seagreen",
    "Seashell",
    "Sienna",
    "Silver",
    "Skyblue",
    "Slateblue",
    "Slategray",
    "Slategrey",
    "Snow",
    "Springgreen",
    "Steelblue",
    "Tan",
    "Teal",
    "Thistle",
    "Tomato",
    "Turquoise",
    "Transparant",
    "Violet",
    "Wheat",
    "White",
    "Whitesmoke",
    "Yellow",
    "Yellowgreen"
];


impl BBCodeLexer {
    fn cmd_bold_open(&mut self)
        requires
            old(self).wf(),
        ensures
            final(self).wf(),
            final(self)@ == lx_cmd_bold_open(old(self)@),
    {
        self.new_group(GroupType::Bold);
    }

    fn cmd_bold_close(&mut self)
        requires
            old(self).wf(),
        ensures
            final(self).wf(),
            final(self)@ == lx_cmd_bold_close(old(self)@),
    {
        self.end_group(&GroupType::Bold);
    }

    fn cmd_italic_open(&mut self)
        requires
            old(self).wf(),
        ensures
            final(self).wf(),
            final(self)@ == lx_cmd_italic_open(old(self)@),
    {
        self.new_group(GroupType::Italic);
    }

    fn cmd_italic_close(&mut self)
        requires
            old(self).wf(),
        ensures
            final(self).wf(),
            final(self)@ == lx_cmd_italic_close(old(self)@),
    {
        self.end_group(&GroupType::Italic);
    }

    fn cmd_strikethrough_open(&mut self)
        requires
            old(self).wf(),
        ensures
            final(self).wf(),
            final(self)@ == lx_cmd_strikethrough_open(old(self)@),
    {
        self.new_group(GroupType::Strikethrough);
    }

    fn cmd_strikethrough_close(&mut self)
        requires
            old(self).wf(),
        ensures
            final(self).wf(),
            final(self)@ == lx_cmd_strikethrough_close(old(self)@),
    {
        self.end_group(&GroupType::Strikethrough);
    }

    fn cmd_strong_open(&mut self)
        requires
            old(self).wf(),
        ensures
            final(self).wf(),
            final(self)@ == lx_cmd_strong_open(old(self)@),
    {
        self.new_group(GroupType::Strong);
    }

    fn cmd_strong_close(&mut self)
        requires
            old(self).wf(),
        ensures
            final(self).wf(),
            final(self)@ == lx_cmd_strong_close(old(self)@),
    {
        self.end_group(&GroupType::Strong);
    }

    fn cmd_emphasis_open(&mut self)
        requires
            old(self).wf(),
        ensures
            final(self).wf(),
            final(self)@ == lx_cmd_emphasis_open(old(self)@),
    {
        self.new_group(GroupType::Emphasis);
    }

    fn cmd_emphasis_close(&mut self)
        requires
            old(self).wf(),
        ensures
            final(self).wf(),
            final(self)@ == lx_cmd_emphasis_close(old(self)@),
    {
        self.end_group(&GroupType::Emphasis);
    }

    fn cmd_underline_open(&mut self)
        requires
            old(self).wf(),
        ensures
            final(self).wf(),
            final(self)@ == lx_cmd_underline_open(old(self)@),
    {
        self.new_group(GroupType::Underline);
    }

    fn cmd_underline_close(&mut self)
        requires
            old(self).wf(),
        ensures
            final(self).wf(),
            final(self)@ == lx_cmd_underline_close(old(self)@),
    {
        self.end_group(&GroupType::Underline);
    }

    fn cmd_smallcaps_open(&mut self)
        requires
            old(self).wf(),
        ensures
            final(self).wf(),
            final(self)@ == lx_cmd_smallcaps_open(old(self)@),
    {
        self.new_group(GroupType::Smallcaps);
    }

    fn cmd_smallcaps_close(&mut self)
        requires
            old(self).wf(),
        ensures
            final(self).wf(),
            final(self)@ == lx_cmd_smallcaps_close(old(self)@),
    {
        self.end_group(&GroupType::Smallcaps);
    }

    fn cmd_monospace_open(&mut self)
        requires
            old(self).wf(),
        ensures
            final(self).wf(),
            final(self)@ == lx_cmd_monospace_open(old(self)@),
    {
        self.new_group(GroupType::Monospace);
    }

    fn cmd_monospace_close(&mut self)
        requires
            old(self).wf(),
        ensures
            final(self).wf(),
            final(self)@ == lx_cmd_monospace_close(old(self)@),
    {
        self.end_group(&GroupType::Monospace);
    }

    fn cmd_subscript_open(&mut self)
        requires
            old(self).wf(),
        ensures
            final(self).wf(),
            final(self)@ == lx_cmd_subscript_open(old(self)@),
    {
        self.new_group(GroupType::Subscript);
    }

    fn cmd_subscript_close(&mut self)
        requires
            old(self).wf(),
        ensures
            final(self).wf(),
            final(self)@ == lx_cmd_subscript_close(old(self)@),
    {
        self.end_group(&GroupType::Subscript);
    }

    fn cmd_superscript_open(&mut self)
        requires
            old(self).wf(),
        ensures
            final(self).wf(),
            final(self)@ == lx_cmd_superscript_open(old(self)@),
    {
        self.new_group(GroupType::Superscript);
    }

    fn cmd_superscript_close(&mut self)
        requires
            old(self).wf(),
        ensures
            final(self).wf(),
            final(self)@ == lx_cmd_superscript_close(old(self)@),
    {
        self.end_group(&GroupType::Superscript);
    }

    fn cmd_spoiler_open(&mut self)
        requires
            old(self).wf(),
        ensures
            final(self).wf(),
            final(self)@ == lx_cmd_spoiler_open(old(self)@),
    {
        self.new_group(GroupType::Spoiler);
    }

    fn cmd_spoiler_close(&mut self)
        requires
            old(self).wf(),
        ensures
            final(self).wf(),
            final(self)@ == lx_cmd_spoiler_close(old(self)@),
    {
        self.end_group(&GroupType::Spoiler);
    }

    fn cmd_hr(&mut self)
        requires
            old(self).wf(),
        ensures
            final(self).wf(),
            final(self)@ == lx_cmd_hr(old(self)@),
    {
        self.end_group(&GroupType::Paragraph);
        self.new_group(GroupType::Hr);
        self.set_void(true);
        self.end_group(&GroupType::Hr);
        self.new_group(GroupType::Paragraph);
    }

    fn cmd_center_open(&mut self)
        requires
            old(self).wf(),
        ensures
            final(self).wf(),
            final(self)@ == lx_cmd_center_open(old(self)@),
    {
        self.end_and_new_group(&GroupType::Paragraph, GroupType::Center);
        self.new_group(GroupType::Paragraph);
    }

    fn cmd_center_close(&mut self)
        requires
            old(self).wf(),
        ensures
            final(self).wf(),
            final(self)@ == lx_cmd_center_close(old(self)@),
    {
        self.end_group(&GroupType::Paragraph);
        self.end_and_new_group(&GroupType::Center, GroupType::Paragraph);
    }

    fn cmd_right_open(&mut self)
        requires
            old(self).wf(),
        ensures
            final(self).wf(),
            final(self)@ == lx_cmd_right_open(old(self)@),
    {
        self.end_and_new_group(&GroupType::Paragraph, GroupType::Right);
        self.new_group(GroupType::Paragraph);
    }

    fn cmd_right_close(&mut self)
        requires
            old(self).wf(),
        ensures
            final(self).wf(),
            final(self)@ == lx_cmd_right_close(old(self)@),
    {
        self.end_group(&GroupType::Paragraph);
        self.end_and_new_group(&GroupType::Right, GroupType::Paragraph);
    }

    fn cmd_color_bare_open(&mut self)
        requires
            old(self).wf(),
        ensures
            final(self).wf(),
            final(self)@ == lx_cmd_color_bare_open(old(self)@),
    {
        self.new_group(GroupType::Broken(Box::new(GroupType::Colour), "color"));
    }

    fn cmd_colour_bare_open(&mut self)
        requires
            old(self).wf(),
        ensures
            final(self).wf(),
            final(self)@ == lx_cmd_colour_bare_open(old(self)@),
    {
        self.new_group(GroupType::Broken(Box::new(GroupType::Colour), "colour"));
    }

    fn cmd_colour_close(&mut self)
        requires
            old(self).wf(),
        ensures
            final(self).wf(),
            final(self)@ == lx_cmd_colour_close(old(self)@),
    {
        self.end_group(&GroupType::Colour);
    }

    fn cmd_opacity_bare_open(&mut self)
        requires
            old(self).wf(),
        ensures
            final(self).wf(),
            final(self)@ == lx_cmd_opacity_bare_open(old(self)@),
    {
        self.new_group(GroupType::Broken(Box::new(GroupType::Opacity), "opacity"));
    }

    fn cmd_opacity_close(&mut self)
        requires
            old(self).wf(),
        ensures
            final(self).wf(),
            final(self)@ == lx_cmd_opacity_close(old(self)@),
    {
        self.end_group(&GroupType::Opacity);
    }

    fn cmd_size_bare_open(&mut self)
        requires
            old(self).wf(),
        ensures
            final(self).wf(),
            final(self)@ == lx_cmd_size_bare_open(old(self)@),
    {
        self.new_group(GroupType::Broken(Box::new(GroupType::Size), "size"));
    }

    fn cmd_size_close(&mut self)
        requires
            old(self).wf(),
        ensures
            final(self).wf(),
            final(self)@ == lx_cmd_size_close(old(self)@),
    {
        self.end_group(&GroupType::Size);
    }

    fn cmd_url_bare_open(&mut self)
        requires
            old(self).wf(),
        ensures
            final(self).wf(),
            final(self)@ == lx_cmd_url_bare_open(old(self)@),
    {
        self.next_text_as_arg = Some(ArgCommand::Url);
        self.new_group(GroupType::Url);
    }

    fn cmd_quote_open(&mut self)
        requires
            old(self).wf(),
        ensures
            final(self).wf(),
            final(self)@ == lx_cmd_quote_open(old(self)@),
    {
        self.end_and_new_group(&GroupType::Paragraph, GroupType::Quote);
        self.new_group(GroupType::Paragraph);
    }

    fn cmd_quote_close(&mut self)
        requires
            old(self).wf(),
        ensures
            final(self).wf(),
            final(self)@ == lx_cmd_quote_close(old(self)@),
    {
        self.end_group(&GroupType::Paragraph);
        self.end_group(&GroupType::Quote);
    }

    fn cmd_code_open(&mut self)
        requires
            old(self).wf(),
        ensures
            final(self).wf(),
            final(self)@ == lx_cmd_code_open(old(self)@),
    {
        self.ignore_tags = Some("/code");
        self.new_group(GroupType::Code);
    }

    fn cmd_code_close(&mut self)
        requires
            old(self).wf(),
        ensures
            final(self).wf(),
            final(self)@ == lx_cmd_code_close(old(self)@),
    {
        self.end_group(&GroupType::Code);
        self.ignore_tags = None;
    }

    fn cmd_codeblock_bare_open(&mut self)
        requires
            old(self).wf(),
        ensures
            final(self).wf(),
            final(self)@ == lx_cmd_codeblock_bare_open(old(self)@),
    {
        self.end_and_kill_new_group(&GroupType::Paragraph, GroupType::CodeBlock);
        self.ignore_tags = Some("/codeblock");
        self.ignore_formatting = true;
    }

    fn cmd_codeblock_close(&mut self)
        requires
            old(self).wf(),
        ensures
            final(self).wf(),
            final(self)@ == lx_cmd_codeblock_close(old(self)@),
    {
        self.end_and_new_group(&GroupType::CodeBlock, GroupType::Paragraph);
        self.ignore_tags = None;
        self.ignore_formatting = false;
    }

    fn cmd_img_open(&mut self)
        requires
            old(self).wf(),
        ensures
            final(self).wf(),
            final(self)@ == lx_cmd_img_open(old(self)@),
    {
        self.next_text_as_arg = Some(ArgCommand::Image);
        self.new_group(GroupType::Image);
    }

    fn cmd_h1_open(&mut self)
        requires
            old(self).wf(),
        ensures
            final(self).wf(),
            final(self)@ == lx_cmd_h1_open(old(self)@),
    {
        self.end_group(&GroupType::Paragraph);
        self.new_group(GroupType::Header);
        self.set_arg("1");
    }

    fn cmd_h1_close(&mut self)
        requires
            old(self).wf(),
        ensures
            final(self).wf(),
            final(self)@ == lx_cmd_h1_close(old(self)@),
    {
        self.end_group(&GroupType::Header);
        self.new_group(GroupType::Paragraph);
    }

    fn cmd_h2_open(&mut self)
        requires
            old(self).wf(),
        ensures
            final(self).wf(),
            final(self)@ == lx_cmd_h2_open(old(self)@),
    {
        self.end_group(&GroupType::Paragraph);
        self.new_group(GroupType::Header);
        self.set_arg("2");
    }

    fn cmd_h2_close(&mut self)
        requires
            old(self).wf(),
        ensures
            final(self).wf(),
            final(self)@ == lx_cmd_h2_close(old(self)@),
    {
        self.end_group(&GroupType::Header);
        self.new_group(GroupType::Paragraph);
    }

    fn cmd_h3_open(&mut self)
        requires
            old(self).wf(),
        ensures
            final(self).wf(),
            final(self)@ == lx_cmd_h3_open(old(self)@),
    {
        self.end_group(&GroupType::Paragraph);
        self.new_group(GroupType::Header);
        self.set_arg("3");
    }

    fn cmd_h3_close(&mut self)
        requires
            old(self).wf(),
        ensures
            final(self).wf(),
            final(self)@ == lx_cmd_h3_close(old(self)@),
    {
        self.end_group(&GroupType::Header);
        self.new_group(GroupType::Paragraph);
    }

    fn cmd_h4_open(&mut self)
        requires
            old(self).wf(),
        ensures
            final(self).wf(),
            final(self)@ == lx_cmd_h4_open(old(self)@),
    {
        self.end_group(&GroupType::Paragraph);
        self.new_group(GroupType::Header);
        self.set_arg("4");
    }

    fn cmd_h4_close(&mut self)
        requires
            old(self).wf(),
        ensures
            final(self).wf(),
            final(self)@ == lx_cmd_h4_close(old(self)@),
    {
        self.end_group(&GroupType::Header);
        self.new_group(GroupType::Paragraph);
    }

    fn cmd_h5_open(&mut self)
        requires
            old(self).wf(),
        ensures
            final(self).wf(),
            final(self)@ == lx_cmd_h5_open(old(self)@),
    {
        self.end_group(&GroupType::Paragraph);
        self.new_group(GroupType::Header);
        self.set_arg("5");
    }

    fn cmd_h5_close(&mut self)
        requires
            old(self).wf(),
        ensures
            final(self).wf(),
            final(self)@ == lx_cmd_h5_close(old(self)@),
    {
        self.end_group(&GroupType::Header);
        self.new_group(GroupType::Paragraph);
    }

    fn cmd_h6_open(&mut self)
        requires
            old(self).wf(),
        ensures
            final(self).wf(),
            final(self)@ == lx_cmd_h6_open(old(self)@),
    {
        self.end_group(&GroupType::Paragraph);
        self.new_group(GroupType::Header);
        self.set_arg("6");
    }

    fn cmd_h6_close(&mut self)
        requires
            old(self).wf(),
        ensures
            final(self).wf(),
            final(self)@ == lx_cmd_h6_close(old(self)@),
    {
        self.end_group(&GroupType::Header);
        self.new_group(GroupType::Paragraph);
    }

    fn cmd_plain_open(&mut self)
        requires
            old(self).wf(),
        ensures
            final(self).wf(),
            final(self)@ == lx_cmd_plain_open(old(self)@),
    {
        self.end_and_new_group(&GroupType::Paragraph, GroupType::Plain);
        self.ignore_formatting = true;
    }

    fn cmd_plain_close(&mut self)
        requires
            old(self).wf(),
        ensures
            final(self).wf(),
            final(self)@ == lx_cmd_plain_close(old(self)@),
    {
        self.end_group(&GroupType::Plain);
        self.ignore_formatting = false;
        self.new_group(GroupType::Plain);
    }

    fn cmd_pre_open(&mut self)
        requires
            old(self).wf(),
        ensures
            final(self).wf(),
            final(self)@ == lx_cmd_pre_open(old(self)@),
    {
        self.end_and_new_group(&GroupType::Paragraph, GroupType::Pre);
        self.ignore_formatting = true;
    }

    fn cmd_pre_close(&mut self)
        requires
            old(self).wf(),
        ensures
            final(self).wf(),
            final(self)@ == lx_cmd_pre_close(old(self)@),
    {
        self.end_group(&GroupType::Pre);
        self.ignore_formatting = false;
        self.new_group(GroupType::Paragraph);
    }

    fn cmd_footnote_bare_open(&mut self)
        requires
            old(self).wf(),
        ensures
            final(self).wf(),
            final(self)@ == lx_cmd_footnote_bare_open(old(self)@),
    {
        self.new_group(GroupType::Footnote);
    }

    fn cmd_footnote_close(&mut self)
        requires
            old(self).wf(),
        ensures
            final(self).wf(),
            final(self)@ == lx_cmd_footnote_close(old(self)@),
    {
        self.end_group(&GroupType::Footnote);
    }

    fn cmd_figure_close(&mut self)
        requires
            old(self).wf(),
        ensures
            final(self).wf(),
            final(self)@ == lx_cmd_figure_close(old(self)@),
    {
        self.end_group(&GroupType::Paragraph);
        self.end_and_new_group(&GroupType::Figure, GroupType::Paragraph);
    }

    fn cmd_list_bare_open(&mut self)
        requires
            old(self).wf(),
        ensures
            final(self).wf(),
            final(self)@ == lx_cmd_list_bare_open(old(self)@),
    {
        self.end_and_new_group(&GroupType::Paragraph, GroupType::List);
        self.linebreaks_allowed = false;
    }

    fn cmd_list_close(&mut self)
        requires
            old(self).wf(),
        ensures
            final(self).wf(),
            final(self)@ == lx_cmd_list_close(old(self)@),
    {
        self.end_and_new_group(&GroupType::List, GroupType::Paragraph);
        self.linebreaks_allowed = true;
    }

    fn cmd_table_open(&mut self)
        requires
            old(self).wf(),
        ensures
            final(self).wf(),
            final(self)@ == lx_cmd_table_open(old(self)@),
    {
        self.end_and_new_group(&GroupType::Paragraph, GroupType::Table);
        self.linebreaks_allowed = false;
    }

    fn cmd_table_close(&mut self)
        requires
            old(self).wf(),
        ensures
            final(self).wf(),
            final(self)@ == lx_cmd_table_close(old(self)@),
    {
        self.end_and_new_group(&GroupType::Table, GroupType::Paragraph);
        self.linebreaks_allowed = true;
    }

    fn cmd_table_row_close(&mut self)
        requires
            old(self).wf(),
        ensures
            final(self).wf(),
            final(self)@ == lx_cmd_table_row_close(old(self)@),
    {
        self.end_group(&GroupType::TableRow);
    }

    fn cmd_preline_open(&mut self)
        requires
            old(self).wf(),
        ensures
            final(self).wf(),
            final(self)@ == lx_cmd_preline_open(old(self)@),
    {
        self.new_group(GroupType::PreLine);
        self.ignore_formatting = true;
    }

    fn cmd_preline_close(&mut self)
        requires
            old(self).wf(),
        ensures
            final(self).wf(),
            final(self)@ == lx_cmd_preline_close(old(self)@),
    {
        self.ignore_formatting = false;
        self.end_group(&GroupType::PreLine);
    }

    fn cmd_indent_bare_open(&mut self)
        requires
            old(self).wf(),
        ensures
            final(self).wf(),
            final(self)@ == lx_cmd_indent_bare_open(old(self)@),
    {
        self.end_and_new_group(&GroupType::Paragraph, GroupType::Indent);
        self.set_arg("1");
        self.new_group(GroupType::Paragraph);
    }

    fn cmd_indent_close(&mut self)
        requires
            old(self).wf(),
        ensures
            final(self).wf(),
            final(self)@ == lx_cmd_indent_close(old(self)@),
    {
        self.end_and_new_group(&GroupType::Indent, GroupType::Paragraph);
    }

    fn cmd_math_open(&mut self)
        requires
            old(self).wf(),
        ensures
            final(self).wf(),
            final(self)@ == lx_cmd_math_open(old(self)@),
    {
        self.new_group(GroupType::Math);
        self.ignore_tags = Some("/math");
        self.ignore_formatting = true;
    }

    fn cmd_math_close(&mut self)
        requires
            old(self).wf(),
        ensures
            final(self).wf(),
            final(self)@ == lx_cmd_math_close(old(self)@),
    {
        self.end_group(&GroupType::Math);
        self.ignore_tags = None;
        self.ignore_formatting = false;
    }

    fn cmd_mathblock_open(&mut self)
        requires
            old(self).wf(),
        ensures
            final(self).wf(),
            final(self)@ == lx_cmd_mathblock_open(old(self)@),
    {
        self.end_and_kill_new_group(&GroupType::Paragraph, GroupType::MathBlock);
        self.ignore_tags = Some("/mathblock");
        self.ignore_formatting = true;
    }

    fn cmd_mathblock_close(&mut self)
        requires
            old(self).wf(),
        ensures
            final(self).wf(),
            final(self)@ == lx_cmd_mathblock_close(old(self)@),
    {
        self.ignore_tags = Some("/mathblock");
        self.ignore_formatting = false;
        self.end_and_new_group(&GroupType::MathBlock, GroupType::Paragraph);
    }

    fn cmd_embed_open(&mut self)
        requires
            old(self).wf(),
        ensures
            final(self).wf(),
            final(self)@ == lx_cmd_embed_open(old(self)@),
    {
        self.next_text_as_arg = Some(ArgCommand::Embed);
        self.end_and_new_group(&GroupType::Paragraph, GroupType::Embed);
        self.set_void(true);
    }

    fn cmd_embed_close(&mut self)
        requires
            old(self).wf(),
        ensures
            final(self).wf(),
            final(self)@ == lx_cmd_embed_close(old(self)@),
    {
        self.end_and_new_group(&GroupType::Embed, GroupType::Paragraph);
    }

    fn cmd_email_open(&mut self)
        requires
            old(self).wf(),
        ensures
            final(self).wf(),
            final(self)@ == lx_cmd_email_open(old(self)@),
    {
        self.next_text_as_arg = Some(ArgCommand::Email);
        self.new_group(GroupType::Email);
    }

    /// Runs the command of a tag without an argument; false when the tag names none.
    fn no_arg_command(&mut self, tag: &str) -> (known: bool)
        requires
            old(self).wf(),
        ensures
            final(self).wf(),
            match no_arg_cmd(old(self)@, tag@) {
                Some(s) => known && final(self)@ == s,
                None => !known && final(self)@ == old(self)@,
            },
    {
        if str_eq(tag, "b") {
            self.cmd_bold_open();
            true
        } else if str_eq(tag, "/b") {
            self.cmd_bold_close();
            true
        } else if str_eq(tag, "i") {
            self.cmd_italic_open();
            true
        } else if str_eq(tag, "/i") {
            self.cmd_italic_close();
            true
        } else if str_eq(tag, "s") {
            self.cmd_strikethrough_open();
            true
        } else if str_eq(tag, "/s") {
            self.cmd_strikethrough_close();
            true
        } else if str_eq(tag, "strong") {
            self.cmd_strong_open();
            true
        } else if str_eq(tag, "/strong") {
            self.cmd_strong_close();
            true
        } else if str_eq(tag, "em") {
            self.cmd_emphasis_open();
            true
        } else if str_eq(tag, "/em") {
            self.cmd_emphasis_close();
            true
        } else if str_eq(tag, "u") {
            self.cmd_underline_open();
            true
        } else if str_eq(tag, "/u") {
            self.cmd_underline_close();
            true
        } else if str_eq(tag, "smcaps") {
            self.cmd_smallcaps_open();
            true
        } else if str_eq(tag, "/smcaps") {
            self.cmd_smallcaps_close();
            true
        } else if str_eq(tag, "mono") {
            self.cmd_monospace_open();
            true
        } else if str_eq(tag, "/mono") {
            self.cmd_monospace_close();
            true
        } else if str_eq(tag, "sub") {
            self.cmd_subscript_open();
            true
        } else if str_eq(tag, "/sub") {
            self.cmd_subscript_close();
            true
        } else if str_eq(tag, "sup") {
            self.cmd_superscript_open();
            true
        } else if str_eq(tag, "/sup") {
            self.cmd_superscript_close();
            true
        } else if str_eq(tag, "spoiler") {
            self.cmd_spoiler_open();
            true
        } else if str_eq(tag, "/spoiler") {
            self.cmd_spoiler_close();
            true
        } else if str_eq(tag, "hr") {
            self.cmd_hr();
            true
        } else if str_eq(tag, "center") {
            self.cmd_center_open();
            true
        } else if str_eq(tag, "/center") {
            self.cmd_center_close();
            true
        } else if str_eq(tag, "right") {
            self.cmd_right_open();
            true
        } else if str_eq(tag, "/right") {
            self.cmd_right_close();
            true
        } else if str_eq(tag, "color") {
            self.cmd_color_bare_open();
            true
        } else if str_eq(tag, "colour") {
            self.cmd_colour_bare_open();
            true
        } else if str_eq(tag, "/color") {
            self.cmd_colour_close();
            true
        } else if str_eq(tag, "/colour") {
            self.cmd_colour_close();
            true
        } else if str_eq(tag, "opacity") {
            self.cmd_opacity_bare_open();
            true
        } else if str_eq(tag, "/opacity") {
            self.cmd_opacity_close();
            true
        } else if str_eq(tag, "size") {
            self.cmd_size_bare_open();
            true
        } else if str_eq(tag, "/size") {
            self.cmd_size_close();
            true
        } else if str_eq(tag, "url") {
            self.cmd_url_bare_open();
            true
        } else if str_eq(tag, "/url") {
            self.cmd_url_close();
            true
        } else if str_eq(tag, "quote") {
            self.cmd_quote_open();
            true
        } else if str_eq(tag, "/quote") {
            self.cmd_quote_close();
            true
        } else if str_eq(tag, "code") {
            self.cmd_code_open();
            true
        } else if str_eq(tag, "/code") {
            self.cmd_code_close();
            true
        } else if str_eq(tag, "codeblock") {
            self.cmd_codeblock_bare_open();
            true
        } else if str_eq(tag, "/codeblock") {
            self.cmd_codeblock_close();
            true
        } else if str_eq(tag, "img") {
            self.cmd_img_open();
            true
        } else if str_eq(tag, "/img") {
            self.cmd_img_close();
            true
        } else if str_eq(tag, "h1") {
            self.cmd_h1_open();
            true
        } else if str_eq(tag, "/h1") {
            self.cmd_h1_close();
            true
        } else if str_eq(tag, "h2") {
            self.cmd_h2_open();
            true
        } else if str_eq(tag, "/h2") {
            self.cmd_h2_close();
            true
        } else if str_eq(tag, "h3") {
            self.cmd_h3_open();
            true
        } else if str_eq(tag, "/h3") {
            self.cmd_h3_close();
            true
        } else if str_eq(tag, "h4") {
            self.cmd_h4_open();
            true
        } else if str_eq(tag, "/h4") {
            self.cmd_h4_close();
            true
        } else if str_eq(tag, "h5") {
            self.cmd_h5_open();
            true
        } else if str_eq(tag, "/h5") {
            self.cmd_h5_close();
            true
        } else if str_eq(tag, "h6") {
            self.cmd_h6_open();
            true
        } else if str_eq(tag, "/h6") {
            self.cmd_h6_close();
            true
        } else if str_eq(tag, "plain") {
            self.cmd_plain_open();
            true
        } else if str_eq(tag, "/plain") {
            self.cmd_plain_close();
            true
        } else if str_eq(tag, "pre") {
            self.cmd_pre_open();
            true
        } else if str_eq(tag, "/pre") {
            self.cmd_pre_close();
            true
        } else if str_eq(tag, "footnote") {
            self.cmd_footnote_bare_open();
            true
        } else if str_eq(tag, "/footnote") {
            self.cmd_footnote_close();
            true
        } else if str_eq(tag, "/figure") {
            self.cmd_figure_close();
            true
        } else if str_eq(tag, "list") {
            self.cmd_list_bare_open();
            true
        } else if str_eq(tag, "/list") {
            self.cmd_list_close();
            true
        } else if str_eq(tag, "*") {
            self.cmd_list_item();
            true
        } else if str_eq(tag, "table") {
            self.cmd_table_open();
            true
        } else if str_eq(tag, "/table") {
            self.cmd_table_close();
            true
        } else if str_eq(tag, "tr") {
            self.cmd_table_row_open();
            true
        } else if str_eq(tag, "/tr") {
            self.cmd_table_row_close();
            true
        } else if str_eq(tag, "th") {
            self.cmd_table_header_open();
            true
        } else if str_eq(tag, "/th") {
            self.cmd_table_header_close();
            true
        } else if str_eq(tag, "td") {
            self.cmd_table_data_open();
            true
        } else if str_eq(tag, "/td") {
            self.cmd_table_data_close();
            true
        } else if str_eq(tag, "caption") {
            self.cmd_table_caption_open();
            true
        } else if str_eq(tag, "/caption") {
            self.cmd_table_caption_close();
            true
        } else if str_eq(tag, "pre-line") {
            self.cmd_preline_open();
            true
        } else if str_eq(tag, "/pre-line") {
            self.cmd_preline_close();
            true
        } else if str_eq(tag, "indent") {
            self.cmd_indent_bare_open();
            true
        } else if str_eq(tag, "/indent") {
            self.cmd_indent_close();
            true
        } else if str_eq(tag, "math") {
            self.cmd_math_open();
            true
        } else if str_eq(tag, "/math") {
            self.cmd_math_close();
            true
        } else if str_eq(tag, "mathblock") {
            self.cmd_mathblock_open();
            true
        } else if str_eq(tag, "/mathblock") {
            self.cmd_mathblock_close();
            true
        } else if str_eq(tag, "embed") {
            self.cmd_embed_open();
            true
        } else if str_eq(tag, "/embed") {
            self.cmd_embed_close();
            true
        } else if str_eq(tag, "email") {
            self.cmd_email_open();
            true
        } else if str_eq(tag, "/email") {
            self.cmd_email_close();
            true
        } else {
            false
        }
    }

    /// Marks a group that closes without an argument broken, and keeps it.
    fn mark_unfilled(&mut self, t: &GroupType, broken: GroupType)
        requires
            old(self).wf(),
        ensures
            final(self).wf(),
            final(self)@ == mark_unfilled(old(self)@, *t, broken),
    {
        let has_arg = self.tree.element(self.current_node).has_arg();
        if !has_arg && self.current_is(t) {
            self.set_ele_type(broken);
            self.set_detachable(false);
        }
    }

    fn cmd_url_close(&mut self)
        requires
            old(self).wf(),
        ensures
            final(self).wf(),
            final(self)@ == lx_cmd_url_close(old(self)@),
    {
        self.mark_unfilled(&GroupType::Url, GroupType::Broken(Box::new(GroupType::Url), "url"));
        self.end_group(&GroupType::Url);
    }

    fn cmd_email_close(&mut self)
        requires
            old(self).wf(),
        ensures
            final(self).wf(),
            final(self)@ == lx_cmd_email_close(old(self)@),
    {
        self.mark_unfilled(&GroupType::Email, GroupType::Broken(Box::new(GroupType::Email), "email"));
        self.end_group(&GroupType::Email);
    }

    fn cmd_img_close(&mut self)
        requires
            old(self).wf(),
        ensures
            final(self).wf(),
            final(self)@ == lx_cmd_img_close(old(self)@),
    {
        self.mark_unfilled(&GroupType::Image, GroupType::Broken(Box::new(GroupType::Image), "img"));
        self.end_group(&GroupType::Image);
    }

    fn cmd_list_item(&mut self)
        requires
            old(self).wf(),
        ensures
            final(self).wf(),
            final(self)@ == lx_cmd_list_item(old(self)@),
    {
        if self.current_is(&GroupType::List) {
            self.end_and_new_group(&GroupType::ListItem, GroupType::ListItem);
            self.new_group(GroupType::Paragraph);
        } else if let Some(parent) = self.tree.parent(self.current_node) {
            proof { lemma_tree_parent(self@.nodes, self@.cur as int); }
            if self.tree.element(parent).ele_type().same_as(&GroupType::ListItem) {
                if self.current_is(&GroupType::Paragraph) {
                    self.end_group(&GroupType::Paragraph);
                }
                self.end_and_new_group(&GroupType::ListItem, GroupType::ListItem);
                self.new_group(GroupType::Paragraph);
            } else {
                self.new_group(GroupType::Broken(Box::new(GroupType::ListItem), "*"));
                self.set_void(true);
            }
        } else {
            self.new_group(GroupType::Broken(Box::new(GroupType::ListItem), "*"));
            self.set_void(true);
        }
    }

    fn cmd_table_row_open(&mut self)
        requires
            old(self).wf(),
        ensures
            final(self).wf(),
            final(self)@ == lx_cmd_table_row_open(old(self)@),
    {
        if self.current_is(&GroupType::Table) {
            self.new_group(GroupType::TableRow);
        } else {
            self.new_group(GroupType::Broken(Box::new(GroupType::TableRow), "tr"));
        }
    }

    /// Opens a table cell or caption inside `within`, or a broken one.
    fn table_part_open(&mut self, within: &GroupType, t: GroupType, broken: GroupType)
        requires
            old(self).wf(),
        ensures
            final(self).wf(),
            final(self)@ == table_part_open(old(self)@, *within, t, broken),
    {
        if self.current_is(within) {
            self.new_group(t);
            self.new_group(GroupType::Paragraph);
        } else {
            self.new_group(broken);
        }
    }

    /// Closes a table cell or caption, with the paragraph in it.
    fn table_part_close(&mut self, t: &GroupType)
        requires
            old(self).wf(),
        ensures
            final(self).wf(),
            final(self)@ == table_part_close(old(self)@, *t),
    {
        if self.current_is(&GroupType::Paragraph) {
            self.end_group(&GroupType::Paragraph);
        }
        self.end_group(t);
    }

    fn cmd_table_header_open(&mut self)
        requires
            old(self).wf(),
        ensures
            final(self).wf(),
            final(self)@ == lx_cmd_table_header_open(old(self)@),
    {
        self.table_part_open(&GroupType::TableRow, GroupType::TableHeader, GroupType::Broken(Box::new(GroupType::TableHeader), "th"));
    }

    fn cmd_table_header_close(&mut self)
        requires
            old(self).wf(),
        ensures
            final(self).wf(),
            final(self)@ == lx_cmd_table_header_close(old(self)@),
    {
        self.table_part_close(&GroupType::TableHeader);
    }

    fn cmd_table_data_open(&mut self)
        requires
            old(self).wf(),
        ensures
            final(self).wf(),
            final(self)@ == lx_cmd_table_data_open(old(self)@),
    {
        self.table_part_open(&GroupType::TableRow, GroupType::TableData, GroupType::Broken(Box::new(GroupType::TableData), "td"));
    }

    fn cmd_table_data_close(&mut self)
        requires
            old(self).wf(),
        ensures
            final(self).wf(),
            final(self)@ == lx_cmd_table_data_close(old(self)@),
    {
        self.table_part_close(&GroupType::TableData);
    }

    fn cmd_table_caption_open(&mut self)
        requires
            old(self).wf(),
        ensures
            final(self).wf(),
            final(self)@ == lx_cmd_table_caption_open(old(self)@),
    {
        self.table_part_open(&GroupType::Table, GroupType::TableCaption, GroupType::Broken(Box::new(GroupType::TableCaption), "caption"));
    }

    fn cmd_table_caption_close(&mut self)
        requires
            old(self).wf(),
        ensures
            final(self).wf(),
            final(self)@ == lx_cmd_table_caption_close(old(self)@),
    {
        self.table_part_close(&GroupType::TableCaption);
    }

    /// A `[color=...]` or `[colour=...]` tag.
    fn cmd_colour_open(&mut self, arg: &str, tag: &'static str)
        requires
            old(self).wf(),
        ensures
            final(self).wf(),
            final(self)@ == lx_colour_open(old(self)@, arg@, tag),
    {
        if colour_arg(arg) {
            self.new_group(GroupType::Colour);
        } else {
            self.new_group(GroupType::Broken(Box::new(GroupType::Colour), tag));
        }
        self.set_arg(arg);
    }

    /// A `[url=...]` tag.
    fn cmd_url_open(&mut self, arg: &str)
        requires
            old(self).wf(),
        ensures
            final(self).wf(),
            final(self)@ == lx_url_open(old(self)@, arg@),
    {
        if web_url(arg) {
            self.new_group(GroupType::Url);
            self.set_arg(arg);
        } else if forbidden_url_char(arg) {
            self.new_group(GroupType::Broken(Box::new(GroupType::Url), "url"));
            self.set_arg(arg);
        } else {
            self.new_group(GroupType::Url);
            let url = with_http(arg);
            self.set_arg(url.as_str());
        }
    }

    /// A group with an argument, valid when `ok`.
    fn block_with_arg(&mut self, arg: &str, ok: bool, t: GroupType, broken: GroupType, para: bool)
        requires
            old(self).wf(),
        ensures
            final(self).wf(),
            final(self)@ == block_with_arg(old(self)@, arg@, ok, t, broken, para),
    {
        if ok {
            self.end_and_new_group(&GroupType::Paragraph, t);
            self.set_arg(arg);
            if para {
                self.new_group(GroupType::Paragraph);
            }
        } else {
            self.new_group(broken);
            self.set_arg(arg);
        }
    }

    /// Runs the command of a tag with an argument; `None` when the tag names none.
    /// A tag of a scaled measure changes nothing and asks for the measure's value.
    fn one_arg_command(&mut self, tag: &str, arg: &str) -> (r: Option<Option<ScaleRequest>>)
        requires
            old(self).wf(),
        ensures
            final(self).wf(),
            match one_arg_cmd(old(self)@, tag@, arg@) {
                Some((s, req)) => r matches Some(q) && final(self)@ == s && opt_request_view(q) == req,
                None => r is None && final(self)@ == old(self)@,
            },
    {
        if str_eq(tag, "color") {
            self.cmd_colour_open(arg, "color");
            Some(None)
        } else if str_eq(tag, "colour") {
            self.cmd_colour_open(arg, "colour");
            Some(None)
        } else if str_eq(tag, "url") {
            self.cmd_url_open(arg);
            Some(None)
        } else if str_eq(tag, "opacity") {
            Some(Some(ScaleRequest { kind: ScaleKind::Opacity, arg: arg.to_owned() }))
        } else if str_eq(tag, "size") {
            Some(Some(ScaleRequest { kind: ScaleKind::Size, arg: arg.to_owned() }))
        } else if str_eq(tag, "quote") {
            self.end_and_new_group(&GroupType::Paragraph, GroupType::Quote);
            self.set_arg(arg);
            self.new_group(GroupType::Paragraph);
            Some(None)
        } else if str_eq(tag, "codeblock") {
            self.end_and_kill_new_group(&GroupType::Paragraph, GroupType::CodeBlock);
            self.ignore_tags = Some("/codeblock");
            self.ignore_formatting = true;
            self.set_arg(arg);
            Some(None)
        } else if str_eq(tag, "footnote") {
            self.new_group(GroupType::Footnote);
            self.set_arg(arg);
            Some(None)
        } else if str_eq(tag, "figure") {
            let ok = str_eq(arg, "right") || str_eq(arg, "left");
            self.block_with_arg(arg, ok, GroupType::Figure, GroupType::Broken(Box::new(GroupType::Figure), "figure"), true);
            Some(None)
        } else if str_eq(tag, "list") {
            let ok = list_type(arg);
            self.block_with_arg(arg, ok, GroupType::List, GroupType::Broken(Box::new(GroupType::List), "list"), false);
            if ok {
                self.linebreaks_allowed = false;
            }
            Some(None)
        } else if str_eq(tag, "indent") {
            let ok = str_eq(arg, "1") || str_eq(arg, "2") || str_eq(arg, "3") || str_eq(arg, "4");
            self.block_with_arg(arg, ok, GroupType::Indent, GroupType::Broken(Box::new(GroupType::Indent), "indent"), true);
            Some(None)
        } else {
            None
        }
    }

    /// Opens the group of a scaled measure from its value as text, or a broken
    /// group holding the argument when `value` is `None` (the argument is not a
    /// number).
    pub fn resolve_scale(&mut self, request: &ScaleRequest, value: Option<&str>)
        requires
            old(self).wf(),
        ensures
            final(self).wf(),
            final(self)@ == lx_scaled(old(self)@, request.kind, request.arg@, match value { Some(v) => Some(v@), None => None }),
    {
        match value {
            Some(v) => {
                match request.kind {
                    ScaleKind::Opacity => self.new_group(GroupType::Opacity),
                    ScaleKind::Size => self.new_group(GroupType::Size),
                }
                self.set_arg(v);
            },
            None => {
                match request.kind {
                    ScaleKind::Opacity => self.new_group(GroupType::Broken(Box::new(GroupType::Opacity), "opacity")),
                    ScaleKind::Size => self.new_group(GroupType::Broken(Box::new(GroupType::Size), "size")),
                }
                self.set_arg(request.arg.as_str());
            },
        }
    }

    fn cmd_url_arg(&mut self, arg: &str)
        requires
            old(self).wf(),
        ensures
            final(self).wf(),
            final(self)@ == lx_url_arg(old(self)@, arg@),
    {
        if web_url(arg) {
            self.set_arg(arg);
        } else {
            if forbidden_url_char(arg) {
                if self.current_is(&GroupType::Url) {
                    self.set_ele_type(GroupType::Broken(Box::new(GroupType::Url), "url"));
                } else {
                    self.new_group(GroupType::Broken(Box::new(GroupType::Url), "url"));
                }
                self.add_text(arg);
                return;
            }
            let url = with_http(arg);
            self.set_arg(url.as_str());
        }
        self.text_group(arg);
    }

    fn cmd_email_arg(&mut self, arg: &str)
        requires
            old(self).wf(),
        ensures
            final(self).wf(),
            final(self)@ == lx_email_arg(old(self)@, arg@),
    {
        let mut mail = "mailto:".to_owned();
        push_str(&mut mail, arg);
        self.set_arg(mail.as_str());
        self.text_group(arg);
    }

    fn cmd_embed_arg(&mut self, arg: &str)
        requires
            old(self).wf(),
        ensures
            final(self).wf(),
            final(self)@ == lx_embed_arg(old(self)@, arg@),
    {
        if web_url(arg) {
            self.set_arg(arg);
        } else {
            if forbidden_url_char(arg) {
                self.new_group(GroupType::Broken(Box::new(GroupType::Embed), "embed"));
                self.set_arg(arg);
                return;
            }
            let url = with_http(arg);
            self.set_arg(url.as_str());
        }
    }

    /// A void image of `url`.
    fn img_good(&mut self, url: &str)
        requires
            old(self).wf(),
        ensures
            final(self).wf(),
            final(self)@ == img_good(old(self)@, url@),
    {
        self.new_group(GroupType::Image);
        self.set_void(true);
        self.set_arg(url);
        self.end_group(&GroupType::Image);
    }

    /// A broken image holding `arg`.
    fn img_broken(&mut self, arg: &str)
        requires
            old(self).wf(),
        ensures
            final(self).wf(),
            final(self)@ == img_broken(old(self)@, arg@),
    {
        if self.current_is(&GroupType::Image) {
            self.end_group(&GroupType::Image);
        }
        self.new_group(GroupType::Broken(Box::new(GroupType::Image), "img"));
        self.add_text(arg);
        self.end_group(&GroupType::Broken(Box::new(GroupType::Image), "img"));
    }

    fn cmd_img_arg(&mut self, arg: &str)
        requires
            old(self).wf(),
        ensures
            final(self).wf(),
            final(self)@ == lx_img_arg(old(self)@, arg@),
    {
        if web_url(arg) {
            if image_extension(arg) {
                self.img_good(arg);
            } else {
                self.img_broken(arg);
            }
        } else {
            if forbidden_url_char(arg) {
                self.img_broken(arg);
                return;
            }
            if image_extension(arg) {
                let url = with_http(arg);
                self.img_good(url.as_str());
            } else {
                self.img_broken(arg);
            }
        }
    }

    /// Reads text as the argument of the tag before it.
    fn text_arg(&mut self, cmd: ArgCommand, arg: &str)
        requires
            old(self).wf(),
        ensures
            final(self).wf(),
            final(self)@ == lx_text_arg(old(self)@, cmd, arg@),
    {
        match cmd {
            ArgCommand::Url => self.cmd_url_arg(arg),
            ArgCommand::Email => self.cmd_email_arg(arg),
            ArgCommand::Image => self.cmd_img_arg(arg),
            ArgCommand::Embed => self.cmd_embed_arg(arg),
        }
    }

    /// Parses tag Instructions.
    fn parse_tag(&mut self, tag: &str, args: &Option<String>) -> (r: Option<ScaleRequest>)
        requires
            old(self).wf(),
        ensures
            final(self).wf(),
            (final(self)@, opt_request_view(r))
                == lx_parse_tag(old(self)@, tag@, match args { Some(a) => Some(a@), None => None }),
    {
        match args {
            Some(primary_arg) => match self.one_arg_command(tag, primary_arg.as_str()) {
                Some(req) => req,
                None => {
                    let mut text = "[".to_owned();
                    push_str(&mut text, tag);
                    push_str(&mut text, "=");
                    push_str(&mut text, primary_arg.as_str());
                    push_str(&mut text, "]");
                    self.text_group(text.as_str());
                    None
                },
            },
            None => {
                if !self.no_arg_command(tag) {
                    let mut text = "[".to_owned();
                    push_str(&mut text, tag);
                    push_str(&mut text, "]");
                    self.text_group(text.as_str());
                }
                None
            },
        }
    }

    /// Matches Instruction types while no tag waits for its text.
    fn execute_plain(&mut self, instruction: &Instruction) -> (r: Option<ScaleRequest>)
        requires
            old(self).wf(),
        ensures
            final(self).wf(),
            (final(self)@, opt_request_view(r))
                == lx_execute_plain(old(self)@, instruction@),
    {
        match instruction {
            Instruction::Text(param) => {
                self.text_group(param.as_str());
                None
            },
            Instruction::Tag(param, arg) => {
                if let Some(command) = self.ignore_tags {
                    if str_eq(param.as_str(), command) {
                        self.parse_tag(param.as_str(), arg)
                    } else {
                        let mut tag_text = "[".to_owned();
                        push_str(&mut tag_text, param.as_str());
                        if let Some(argu) = arg {
                            push_str(&mut tag_text, argu.as_str());
                        }
                        push_str(&mut tag_text, "]");
                        self.text_group(tag_text.as_str());
                        None
                    }
                } else {
                    self.parse_tag(param.as_str(), arg)
                }
            },
            Instruction::Parabreak(param) => {
                if self.ignore_formatting {
                    self.text_group(param.as_str());
                } else {
                    self.end_and_new_group(&GroupType::Paragraph, GroupType::Paragraph);
                }
                None
            },
            Instruction::Linebreak => {
                if self.ignore_formatting {
                    self.text_group("\n");
                } else if self.linebreaks_allowed {
                    self.new_group(GroupType::Br);
                    self.set_void(true);
                    self.end_group(&GroupType::Br);
                }
                None
            },
            _ => None,
        }
    }

    /// Lexes one Instruction. Text after a tag that waits for it is that tag's
    /// argument. A tag of a scaled measure (opacity or size with an argument)
    /// is not lexed: it is handed back, to be finished with `resolve_scale`.
    pub fn execute(&mut self, instruction: &Instruction) -> (r: Option<ScaleRequest>)
        requires
            old(self).wf(),
        ensures
            final(self).wf(),
            (final(self)@, opt_request_view(r))
                == lx_execute(old(self)@, instruction@),
    {
        if let Some(arg_cmd) = self.next_text_as_arg {
            match instruction {
                Instruction::Text(param) => {
                    self.text_arg(arg_cmd, param.as_str());
                    None
                },
                _ => {
                    self.next_text_as_arg = None;
                    self.execute_plain(instruction)
                },
            }
        } else {
            self.execute_plain(instruction)
        }
    }

    /// Starts lexing a document: a new document under the anchor, and a paragraph
    /// in the anchor's first document.
    pub fn start(&mut self)
        requires
            old(self).wf(),
        ensures
            final(self).wf(),
            final(self)@ == lx_start(old(self)@),
    {
        proof {
            lemma_tree_nonempty(self@.nodes);
            lemma_append_wf(self@.nodes, 0, ast_new(GroupType::Document));
        }
        self.tree.append(0, ASTElement::new(GroupType::Document));
        let first = self.tree.child(0, 0);
        proof { lemma_tree_child(self.tree@, 0, 0); }
        self.current_node = first;
        self.new_group(GroupType::Paragraph);
    }

    /// Ends lexing a document; returns the topmost node above the current one.
    pub fn finish(&mut self) -> (root: usize)
        requires
            old(self).wf(),
        ensures
            final(self).wf(),
            final(self)@ == lx_finish(old(self)@),
            root as int == root_of(final(self)@.nodes, final(self)@.cur as int),
            root < final(self)@.nodes.len(),
    {
        self.end_group(&GroupType::Paragraph);
        let ghost done = self@;
        let mut i = self.current_node;
        loop
            invariant
                self.wf(),
                self@ == done,
                done == lx_finish(old(self)@),
                i < self@.nodes.len(),
                root_of(self@.nodes, self@.cur as int) == root_of(self@.nodes, i as int),
            decreases i,
        {
            proof { lemma_tree_parent(self@.nodes, i as int); }
            match self.tree.parent(i) {
                Some(p) => {
                    i = p;
                },
                None => {
                    return i;
                },
            }
        }
    }
}

} // verus!

verus! {

/// The command that the tag `[h1]` runs.
#[verifier::spinoff_prover]
proof fn lemma_h1_command(st: LexV)
    ensures
        no_arg_cmd(st, seq!['h', '1']) == Some(lx_cmd_h1_open(st)),
{
    reveal_strlit("b");
    reveal_strlit("/b");
    reveal_strlit("i");
    reveal_strlit("/i");
    reveal_strlit("s");
    reveal_strlit("/s");
    reveal_strlit("strong");
    reveal_strlit("/strong");
    reveal_strlit("em");
    reveal_strlit("/em");
    reveal_strlit("u");
    reveal_strlit("/u");
    reveal_strlit("smcaps");
    reveal_strlit("/smcaps");
    reveal_strlit("mono");
    reveal_strlit("/mono");
    reveal_strlit("sub");
    reveal_strlit("/sub");
    reveal_strlit("sup");
    reveal_strlit("/sup");
    reveal_strlit("spoiler");
    reveal_strlit("/spoiler");
    reveal_strlit("hr");
    reveal_strlit("center");
    reveal_strlit("/center");
    reveal_strlit("right");
    reveal_strlit("/right");
    reveal_strlit("color");
    reveal_strlit("colour");
    reveal_strlit("/color");
    reveal_strlit("/colour");
    reveal_strlit("opacity");
    reveal_strlit("/opacity");
    reveal_strlit("size");
    reveal_strlit("/size");
    reveal_strlit("url");
    reveal_strlit("/url");
    reveal_strlit("quote");
    reveal_strlit("/quote");
    reveal_strlit("code");
    reveal_strlit("/code");
    reveal_strlit("codeblock");
    reveal_strlit("/codeblock");
    reveal_strlit("img");
    reveal_strlit("/img");
    reveal_strlit("h1");
    assert(seq!['h', '1'] =~= "h1"@);
}

/// The command that the tag `[h2]` runs.
#[verifier::spinoff_prover]
proof fn lemma_h2_command(st: LexV)
    ensures
        no_arg_cmd(st, seq!['h', '2']) == Some(lx_cmd_h2_open(st)),
{
    reveal_strlit("b");
    reveal_strlit("/b");
    reveal_strlit("i");
    reveal_strlit("/i");
    reveal_strlit("s");
    reveal_strlit("/s");
    reveal_strlit("strong");
    reveal_strlit("/strong");
    reveal_strlit("em");
    reveal_strlit("/em");
    reveal_strlit("u");
    reveal_strlit("/u");
    reveal_strlit("smcaps");
    reveal_strlit("/smcaps");
    reveal_strlit("mono");
    reveal_strlit("/mono");
    reveal_strlit("sub");
    reveal_strlit("/sub");
    reveal_strlit("sup");
    reveal_strlit("/sup");
    reveal_strlit("spoiler");
    reveal_strlit("/spoiler");
    reveal_strlit("hr");
    reveal_strlit("center");
    reveal_strlit("/center");
    reveal_strlit("right");
    reveal_strlit("/right");
    reveal_strlit("color");
    reveal_strlit("colour");
    reveal_strlit("/color");
    reveal_strlit("/colour");
    reveal_strlit("opacity");
    reveal_strlit("/opacity");
    reveal_strlit("size");
    reveal_strlit("/size");
    reveal_strlit("url");
    reveal_strlit("/url");
    reveal_strlit("quote");
    reveal_strlit("/quote");
    reveal_strlit("code");
    reveal_strlit("/code");
    reveal_strlit("codeblock");
    reveal_strlit("/codeblock");
    reveal_strlit("img");
    reveal_strlit("/img");
    reveal_strlit("h1");
    reveal_strlit("/h1");
    reveal_strlit("h2");
    assert(seq!['h', '2'] =~= "h2"@);
}

/// The command that the tag `[h3]` runs.
#[verifier::spinoff_prover]
proof fn lemma_h3_command(st: LexV)
    ensures
        no_arg_cmd(st, seq!['h', '3']) == Some(lx_cmd_h3_open(st)),
{
    reveal_strlit("b");
    reveal_strlit("/b");
    reveal_strlit("i");
    reveal_strlit("/i");
    reveal_strlit("s");
    reveal_strlit("/s");
    reveal_strlit("strong");
    reveal_strlit("/strong");
    reveal_strlit("em");
    reveal_strlit("/em");
    reveal_strlit("u");
    reveal_strlit("/u");
    reveal_strlit("smcaps");
    reveal_strlit("/smcaps");
    reveal_strlit("mono");
    reveal_strlit("/mono");
    reveal_strlit("sub");
    reveal_strlit("/sub");
    reveal_strlit("sup");
    reveal_strlit("/sup");
    reveal_strlit("spoiler");
    reveal_strlit("/spoiler");
    reveal_strlit("hr");
    reveal_strlit("center");
    reveal_strlit("/center");
    reveal_strlit("right");
    reveal_strlit("/right");
    reveal_strlit("color");
    reveal_strlit("colour");
    reveal_strlit("/color");
    reveal_strlit("/colour");
    reveal_strlit("opacity");
    reveal_strlit("/opacity");
    reveal_strlit("size");
    reveal_strlit("/size");
    reveal_strlit("url");
    reveal_strlit("/url");
    reveal_strlit("quote");
    reveal_strlit("/quote");
    reveal_strlit("code");
    reveal_strlit("/code");
    reveal_strlit("codeblock");
    reveal_strlit("/codeblock");
    reveal_strlit("img");
    reveal_strlit("/img");
    reveal_strlit("h1");
    reveal_strlit("/h1");
    reveal_strlit("h2");
    reveal_strlit("/h2");
    reveal_strlit("h3");
    assert(seq!['h', '3'] =~= "h3"@);
}

/// The command that the tag `[h4]` runs.
#[verifier::spinoff_prover]
proof fn lemma_h4_command(st: LexV)
    ensures
        no_arg_cmd(st, seq!['h', '4']) == Some(lx_cmd_h4_open(st)),
{
    reveal_strlit("b");
    reveal_strlit("/b");
    reveal_strlit("i");
    reveal_strlit("/i");
    reveal_strlit("s");
    reveal_strlit("/s");
    reveal_strlit("strong");
    reveal_strlit("/strong");
    reveal_strlit("em");
    reveal_strlit("/em");
    reveal_strlit("u");
    reveal_strlit("/u");
    reveal_strlit("smcaps");
    reveal_strlit("/smcaps");
    reveal_strlit("mono");
    reveal_strlit("/mono");
    reveal_strlit("sub");
    reveal_strlit("/sub");
    reveal_strlit("sup");
    reveal_strlit("/sup");
    reveal_strlit("spoiler");
    reveal_strlit("/spoiler");
    reveal_strlit("hr");
    reveal_strlit("center");
    reveal_strlit("/center");
    reveal_strlit("right");
    reveal_strlit("/right");
    reveal_strlit("color");
    reveal_strlit("colour");
    reveal_strlit("/color");
    reveal_strlit("/colour");
    reveal_strlit("opacity");
    reveal_strlit("/opacity");
    reveal_strlit("size");
    reveal_strlit("/size");
    reveal_strlit("url");
    reveal_strlit("/url");
    reveal_strlit("quote");
    reveal_strlit("/quote");
    reveal_strlit("code");
    reveal_strlit("/code");
    reveal_strlit("codeblock");
    reveal_strlit("/codeblock");
    reveal_strlit("img");
    reveal_strlit("/img");
    reveal_strlit("h1");
    reveal_strlit("/h1");
    reveal_strlit("h2");
    reveal_strlit("/h2");
    reveal_strlit("h3");
    reveal_strlit("/h3");
    reveal_strlit("h4");
    assert(seq!['h', '4'] =~= "h4"@);
}

/// The command that the tag `[h5]` runs.
#[verifier::spinoff_prover]
proof fn lemma_h5_command(st: LexV)
    ensures
        no_arg_cmd(st, seq!['h', '5']) == Some(lx_cmd_h5_open(st)),
{
    reveal_strlit("b");
    reveal_strlit("/b");
    reveal_strlit("i");
    reveal_strlit("/i");
    reveal_strlit("s");
    reveal_strlit("/s");
    reveal_strlit("strong");
    reveal_strlit("/strong");
    reveal_strlit("em");
    reveal_strlit("/em");
    reveal_strlit("u");
    reveal_strlit("/u");
    reveal_strlit("smcaps");
    reveal_strlit("/smcaps");
    reveal_strlit("mono");
    reveal_strlit("/mono");
    reveal_strlit("sub");
    reveal_strlit("/sub");
    reveal_strlit("sup");
    reveal_strlit("/sup");
    reveal_strlit("spoiler");
    reveal_strlit("/spoiler");
    reveal_strlit("hr");
    reveal_strlit("center");
    reveal_strlit("/center");
    reveal_strlit("right");
    reveal_strlit("/right");
    reveal_strlit("color");
    reveal_strlit("colour");
    reveal_strlit("/color");
    reveal_strlit("/colour");
    reveal_strlit("opacity");
    reveal_strlit("/opacity");
    reveal_strlit("size");
    reveal_strlit("/size");
    reveal_strlit("url");
    reveal_strlit("/url");
    reveal_strlit("quote");
    reveal_strlit("/quote");
    reveal_strlit("code");
    reveal_strlit("/code");
    reveal_strlit("codeblock");
    reveal_strlit("/codeblock");
    reveal_strlit("img");
    reveal_strlit("/img");
    reveal_strlit("h1");
    reveal_strlit("/h1");
    reveal_strlit("h2");
    reveal_strlit("/h2");
    reveal_strlit("h3");
    reveal_strlit("/h3");
    reveal_strlit("h4");
    reveal_strlit("/h4");
    reveal_strlit("h5");
    assert(seq!['h', '5'] =~= "h5"@);
}

/// The command that the tag `[h6]` runs.
#[verifier::spinoff_prover]
proof fn lemma_h6_command(st: LexV)
    ensures
        no_arg_cmd(st, seq!['h', '6']) == Some(lx_cmd_h6_open(st)),
{
    reveal_strlit("b");
    reveal_strlit("/b");
    reveal_strlit("i");
    reveal_strlit("/i");
    reveal_strlit("s");
    reveal_strlit("/s");
    reveal_strlit("strong");
    reveal_strlit("/strong");
    reveal_strlit("em");
    reveal_strlit("/em");
    reveal_strlit("u");
    reveal_strlit("/u");
    reveal_strlit("smcaps");
    reveal_strlit("/smcaps");
    reveal_strlit("mono");
    reveal_strlit("/mono");
    reveal_strlit("sub");
    reveal_strlit("/sub");
    reveal_strlit("sup");
    reveal_strlit("/sup");
    reveal_strlit("spoiler");
    reveal_strlit("/spoiler");
    reveal_strlit("hr");
    reveal_strlit("center");
    reveal_strlit("/center");
    reveal_strlit("right");
    reveal_strlit("/right");
    reveal_strlit("color");
    reveal_strlit("colour");
    reveal_strlit("/color");
    reveal_strlit("/colour");
    reveal_strlit("opacity");
    reveal_strlit("/opacity");
    reveal_strlit("size");
    reveal_strlit("/size");
    reveal_strlit("url");
    reveal_strlit("/url");
    reveal_strlit("quote");
    reveal_strlit("/quote");
    reveal_strlit("code");
    reveal_strlit("/code");
    reveal_strlit("codeblock");
    reveal_strlit("/codeblock");
    reveal_strlit("img");
    reveal_strlit("/img");
    reveal_strlit("h1");
    reveal_strlit("/h1");
    reveal_strlit("h2");
    reveal_strlit("/h2");
    reveal_strlit("h3");
    reveal_strlit("/h3");
    reveal_strlit("h4");
    reveal_strlit("/h4");
    reveal_strlit("h5");
    reveal_strlit("/h5");
    reveal_strlit("h6");
    assert(seq!['h', '6'] =~= "h6"@);
}

/// The current element after a new group of kind `t` is opened and given the
/// argument `a`: a new element of that kind with that argument.
proof fn lemma_new_group_with_arg(st: LexV, t: GroupType, a: Seq<char>)
    requires
        st.cur < st.nodes.len(),
    ensures
        cur_el(lx_set_arg(lx_ng(st, t), a)) == (ASTElementV { argument: Some(a), ..ast_new(t) }),
{
}

/// Opening a header tag `[hN]`, for a level `N` from 1 to 6, makes a header
/// group current whose argument is that level's digit.
pub proof fn lemma_header_level(st: LexV, d: char)
    requires
        lex_wf(st),
        '1' <= d <= '6',
    ensures
        no_arg_cmd(st, seq!['h', d]) matches Some(s) && cur_type(s) == GroupType::Header
            && cur_el(s).argument == Some(seq![d]),
{
    let s1 = lx_eg(st, GroupType::Paragraph);
    lemma_eg_wf(st, GroupType::Paragraph);
    lemma_new_group_with_arg(s1, GroupType::Header, seq![d]);
    if d == '1' {
        lemma_h1_command(st);
        reveal_strlit("1");
        assert("1"@ =~= seq![d]);
    } else if d == '2' {
        lemma_h2_command(st);
        reveal_strlit("2");
        assert("2"@ =~= seq![d]);
    } else if d == '3' {
        lemma_h3_command(st);
        reveal_strlit("3");
        assert("3"@ =~= seq![d]);
    } else if d == '4' {
        lemma_h4_command(st);
        reveal_strlit("4");
        assert("4"@ =~= seq![d]);
    } else if d == '5' {
        lemma_h5_command(st);
        reveal_strlit("5");
        assert("5"@ =~= seq![d]);
    } else {
        lemma_h6_command(st);
        reveal_strlit("6");
        assert("6"@ =~= seq![d]);
    }
}

} // verus!
