//! Elements of the grouped syntax tree: each names the kind of group it opens.
use crate::text::{push_str, str_eq};
use vstd::prelude::*;

verus! {

/// The kinds of groups of the syntax tree.
#[derive(Debug)]
pub enum GroupType {
    Anchor,
    Document,
    Paragraph,
    Text,
    Plain,
    PreLine,
    Attachment,
    Bold,
    Strong,
    Italic,
    Emphasis,
    Underline,
    Strikethrough,
    Smallcaps,
    Monospace,
    Subscript,
    Superscript,
    Spoiler,
    Hr,
    Br,
    Center,
    Right,
    Pre,
    Code,
    Table,
    TableRow,
    TableHeader,
    TableData,
    TableCaption,
    Header,
    Colour,
    Url,
    Email,
    Opacity,
    Size,
    Image,
    Figure,
    Quote,
    Footnote,
    CodeBlock,
    List,
    Indent,
    ListItem,
    Math,
    MathBlock,
    Embed,
    /// A group whose argument was refused: the group it was meant to be, and its tag.
    Broken(Box<GroupType>, &'static str),
    /// A group that cannot be rendered: the group it was meant to be, and its tag.
    Kaput(Box<GroupType>, &'static str),
}

/// The position of a group kind among the kinds without a group inside them;
/// the two kinds with one give none.
pub open spec fn group_index(t: GroupType) -> int {
    match t {
        GroupType::Anchor => 0,
        GroupType::Document => 1,
        GroupType::Paragraph => 2,
        GroupType::Text => 3,
        GroupType::Plain => 4,
        GroupType::PreLine => 5,
        GroupType::Attachment => 6,
        GroupType::Bold => 7,
        GroupType::Strong => 8,
        GroupType::Italic => 9,
        GroupType::Emphasis => 10,
        GroupType::Underline => 11,
        GroupType::Strikethrough => 12,
        GroupType::Smallcaps => 13,
        GroupType::Monospace => 14,
        GroupType::Subscript => 15,
        GroupType::Superscript => 16,
        GroupType::Spoiler => 17,
        GroupType::Hr => 18,
        GroupType::Br => 19,
        GroupType::Center => 20,
        GroupType::Right => 21,
        GroupType::Pre => 22,
        GroupType::Code => 23,
        GroupType::Table => 24,
        GroupType::TableRow => 25,
        GroupType::TableHeader => 26,
        GroupType::TableData => 27,
        GroupType::TableCaption => 28,
        GroupType::Header => 29,
        GroupType::Colour => 30,
        GroupType::Url => 31,
        GroupType::Email => 32,
        GroupType::Opacity => 33,
        GroupType::Size => 34,
        GroupType::Image => 35,
        GroupType::Figure => 36,
        GroupType::Quote => 37,
        GroupType::Footnote => 38,
        GroupType::CodeBlock => 39,
        GroupType::List => 40,
        GroupType::Indent => 41,
        GroupType::ListItem => 42,
        GroupType::Math => 43,
        GroupType::MathBlock => 44,
        GroupType::Embed => 45,
        GroupType::Broken(..) => -1,
        GroupType::Kaput(..) => -2,
    }
}

/// Two group kinds are the same: the same kind, and for a kind with a group
/// inside, the same group inside and the same tag.
pub open spec fn group_eq(a: GroupType, b: GroupType) -> bool
    decreases a,
{
    match (a, b) {
        (GroupType::Broken(x, s), GroupType::Broken(y, u)) => group_eq(*x, *y) && s@ == u@,
        (GroupType::Kaput(x, s), GroupType::Kaput(y, u)) => group_eq(*x, *y) && s@ == u@,
        _ => group_index(a) >= 0 && group_index(a) == group_index(b),
    }
}

impl GroupType {
    /// The position of the kind (see `group_index`).
    pub fn index(&self) -> (i: i8)
        ensures
            i as int == group_index(*self),
    {
        match self {
            GroupType::Anchor => 0,
            GroupType::Document => 1,
            GroupType::Paragraph => 2,
            GroupType::Text => 3,
            GroupType::Plain => 4,
            GroupType::PreLine => 5,
            GroupType::Attachment => 6,
            GroupType::Bold => 7,
            GroupType::Strong => 8,
            GroupType::Italic => 9,
            GroupType::Emphasis => 10,
            GroupType::Underline => 11,
            GroupType::Strikethrough => 12,
            GroupType::Smallcaps => 13,
            GroupType::Monospace => 14,
            GroupType::Subscript => 15,
            GroupType::Superscript => 16,
            GroupType::Spoiler => 17,
            GroupType::Hr => 18,
            GroupType::Br => 19,
            GroupType::Center => 20,
            GroupType::Right => 21,
            GroupType::Pre => 22,
            GroupType::Code => 23,
            GroupType::Table => 24,
            GroupType::TableRow => 25,
            GroupType::TableHeader => 26,
            GroupType::TableData => 27,
            GroupType::TableCaption => 28,
            GroupType::Header => 29,
            GroupType::Colour => 30,
            GroupType::Url => 31,
            GroupType::Email => 32,
            GroupType::Opacity => 33,
            GroupType::Size => 34,
            GroupType::Image => 35,
            GroupType::Figure => 36,
            GroupType::Quote => 37,
            GroupType::Footnote => 38,
            GroupType::CodeBlock => 39,
            GroupType::List => 40,
            GroupType::Indent => 41,
            GroupType::ListItem => 42,
            GroupType::Math => 43,
            GroupType::MathBlock => 44,
            GroupType::Embed => 45,
            GroupType::Broken(..) => -1,
            GroupType::Kaput(..) => -2,
        }
    }

    /// Whether two group kinds are the same (see `group_eq`).
    pub fn same_as(&self, other: &GroupType) -> (b: bool)
        ensures
            b == group_eq(*self, *other),
        decreases self,
    {
        match (self, other) {
            (GroupType::Broken(x, s), GroupType::Broken(y, u)) => x.same_as(y) && str_eq(s, u),
            (GroupType::Kaput(x, s), GroupType::Kaput(y, u)) => x.same_as(y) && str_eq(s, u),
            _ => {
                let i = self.index();
                i >= 0 && i == other.index()
            },
        }
    }

    /// A copy of the kind.
    pub fn duplicate(&self) -> (t: GroupType)
        ensures
            t == *self,
        decreases self,
    {
        match self {
            GroupType::Anchor => GroupType::Anchor,
            GroupType::Document => GroupType::Document,
            GroupType::Paragraph => GroupType::Paragraph,
            GroupType::Text => GroupType::Text,
            GroupType::Plain => GroupType::Plain,
            GroupType::PreLine => GroupType::PreLine,
            GroupType::Attachment => GroupType::Attachment,
            GroupType::Bold => GroupType::Bold,
            GroupType::Strong => GroupType::Strong,
            GroupType::Italic => GroupType::Italic,
            GroupType::Emphasis => GroupType::Emphasis,
            GroupType::Underline => GroupType::Underline,
            GroupType::Strikethrough => GroupType::Strikethrough,
            GroupType::Smallcaps => GroupType::Smallcaps,
            GroupType::Monospace => GroupType::Monospace,
            GroupType::Subscript => GroupType::Subscript,
            GroupType::Superscript => GroupType::Superscript,
            GroupType::Spoiler => GroupType::Spoiler,
            GroupType::Hr => GroupType::Hr,
            GroupType::Br => GroupType::Br,
            GroupType::Center => GroupType::Center,
            GroupType::Right => GroupType::Right,
            GroupType::Pre => GroupType::Pre,
            GroupType::Code => GroupType::Code,
            GroupType::Table => GroupType::Table,
            GroupType::TableRow => GroupType::TableRow,
            GroupType::TableHeader => GroupType::TableHeader,
            GroupType::TableData => GroupType::TableData,
            GroupType::TableCaption => GroupType::TableCaption,
            GroupType::Header => GroupType::Header,
            GroupType::Colour => GroupType::Colour,
            GroupType::Url => GroupType::Url,
            GroupType::Email => GroupType::Email,
            GroupType::Opacity => GroupType::Opacity,
            GroupType::Size => GroupType::Size,
            GroupType::Image => GroupType::Image,
            GroupType::Figure => GroupType::Figure,
            GroupType::Quote => GroupType::Quote,
            GroupType::Footnote => GroupType::Footnote,
            GroupType::CodeBlock => GroupType::CodeBlock,
            GroupType::List => GroupType::List,
            GroupType::Indent => GroupType::Indent,
            GroupType::ListItem => GroupType::ListItem,
            GroupType::Math => GroupType::Math,
            GroupType::MathBlock => GroupType::MathBlock,
            GroupType::Embed => GroupType::Embed,
            GroupType::Broken(inner, tag) => GroupType::Broken(Box::new(inner.duplicate()), tag),
            GroupType::Kaput(inner, tag) => GroupType::Kaput(Box::new(inner.duplicate()), tag),
        }
    }
}

/// A single element of the grouped syntax tree.
pub struct ASTElement {
    ele_type: GroupType,
    argument: Option<String>,
    text_contents: Option<String>,
    is_void: bool,
    detachable: bool,
}

/// The value of an element.
pub struct ASTElementV {
    pub ele_type: GroupType,
    pub argument: Option<Seq<char>>,
    pub text_contents: Option<Seq<char>>,
    pub is_void: bool,
    pub detachable: bool,
}

/// The view of an optional string.
pub open spec fn opt_string(o: Option<String>) -> Option<Seq<char>> {
    match o {
        Some(s) => Some(s@),
        None => None,
    }
}

impl View for ASTElement {
    type V = ASTElementV;

    closed spec fn view(&self) -> ASTElementV {
        ASTElementV {
            ele_type: self.ele_type,
            argument: opt_string(self.argument),
            text_contents: opt_string(self.text_contents),
            is_void: self.is_void,
            detachable: self.detachable,
        }
    }
}

/// A new element of a kind: no argument, no text, not void, detachable.
pub open spec fn ast_new(ele_type: GroupType) -> ASTElementV {
    ASTElementV { ele_type, argument: None, text_contents: None, is_void: false, detachable: true }
}

impl ASTElement {
    /// A new element of a kind.
    pub fn new(ele_type: GroupType) -> (el: Self)
        ensures
            el@ == ast_new(ele_type),
    {
        ASTElement { ele_type, argument: None, text_contents: None, is_void: false, detachable: true }
    }

    /// The kind of the element.
    pub fn ele_type(&self) -> (t: &GroupType)
        ensures
            *t == self@.ele_type,
    {
        &self.ele_type
    }

    /// Changes the kind of the element.
    pub fn set_ele_type(&mut self, ele_type: GroupType)
        ensures
            final(self)@ == (ASTElementV { ele_type, ..old(self)@ }),
    {
        self.ele_type = ele_type;
    }

    /// The argument of the element.
    pub fn argument(&self) -> (a: &Option<String>)
        ensures
            opt_string(*a) == self@.argument,
    {
        &self.argument
    }

    /// Sets the argument of the element.
    pub fn set_arg(&mut self, arg: &str)
        ensures
            final(self)@ == (ASTElementV { argument: Some(arg@), ..old(self)@ }),
    {
        self.argument = Some(arg.to_owned());
    }

    /// Whether the element has an argument.
    pub fn has_arg(&self) -> (b: bool)
        ensures
            b == self@.argument is Some,
    {
        self.argument.is_some()
    }

    /// The text of the element.
    pub fn text_contents(&self) -> (t: &Option<String>)
        ensures
            opt_string(*t) == self@.text_contents,
    {
        &self.text_contents
    }

    /// Appends text to the element.
    pub fn add_text(&mut self, text: &str)
        ensures
            final(self)@ == (ASTElementV {
                text_contents: Some(match old(self)@.text_contents {
                    Some(t) => t + text@,
                    None => text@,
                }),
                ..old(self)@
            }),
    {
        let mut contents = match self.text_contents.take() {
            Some(t) => t,
            None => String::new(),
        };
        push_str(&mut contents, text);
        self.text_contents = Some(contents);
    }

    /// Whether the element has no content and no closing.
    pub fn is_void(&self) -> (b: bool)
        ensures
            b == self@.is_void,
    {
        self.is_void
    }

    /// Marks the element void, or not.
    pub fn set_void(&mut self, void: bool)
        ensures
            final(self)@ == (ASTElementV { is_void: void, ..old(self)@ }),
    {
        self.is_void = void;
    }

    /// Whether the element is a group whose argument was refused.
    pub fn is_broken(&self) -> (b: bool)
        ensures
            b == self@.ele_type is Broken,
    {
        matches!(self.ele_type, GroupType::Broken(..))
    }

    /// Whether the element is a group that cannot be rendered.
    pub fn is_kaput(&self) -> (b: bool)
        ensures
            b == self@.ele_type is Kaput,
    {
        matches!(self.ele_type, GroupType::Kaput(..))
    }

    /// Whether the element may be removed when it is left empty.
    pub fn is_detachable(&self) -> (b: bool)
        ensures
            b == self@.detachable,
    {
        self.detachable
    }

    /// Lets the element be removed when it is left empty, or not.
    pub fn set_detachable(&mut self, detachable: bool)
        ensures
            final(self)@ == (ASTElementV { detachable, ..old(self)@ }),
    {
        self.detachable = detachable;
    }
}

} // verus!
