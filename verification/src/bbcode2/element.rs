//! Elements of the BbCode syntax tree.
use super::tag::{tag_of, Tag};
use super::token::{Token, TokenV};
use crate::text::push_str;
use super::tag::get_tag_by_name;
use vstd::prelude::*;

verus! {

/// How an element may be closed by the closing of others.
#[derive(Debug, PartialEq, Eq, Structural, Clone, Copy)]
pub enum ElementDisplay {
    /// May be closed early when an enclosing tag closes.
    Inline,
    /// Closed only by its own closing tag.
    Block,
}

impl Default for ElementDisplay {
    fn default() -> (d: Self)
        ensures
            d == ElementDisplay::Inline,
    {
        Self::Inline
    }
}

/// The value of an element.
#[verifier::ext_equal]
pub struct ElementV {
    pub tag: Option<Seq<char>>,
    pub argument: Option<Seq<char>>,
    pub contents: Option<Seq<char>>,
    pub display: ElementDisplay,
    pub is_broken: bool,
    pub is_literal: bool,
    pub is_void: bool,
    pub is_explicit: bool,
}

/// A single element of a BbCode Abstract Syntax Tree (AST).
#[derive(Debug)]
pub struct Element {
    /// Tag name.
    /// If set, this element should defer some logic to BbCode tags.
    tag: Option<String>,
    /// Tag arguments.
    /// If set, this element contains content after the tag name.
    argument: Option<String>,
    /// Tag content.
    /// If set, this element contains text.
    contents: Option<String>,
    /// Types determine what other elements this one can safely embed in or close.
    display: ElementDisplay,
    /// If true, this tag is malformed and should revert to text.
    is_broken: bool,
    /// If true, the contents of this tag are always literal.
    is_literal: bool,
    /// If true, this element is not allowed to contain anything at all, including text.
    is_void: bool,
    /// If true, the element was closed by its own closing tag.
    is_explicit: bool,
}

/// The view of an optional string.
pub open spec fn opt_view(o: Option<String>) -> Option<Seq<char>> {
    match o {
        Some(s) => Some(s@),
        None => None,
    }
}

impl View for Element {
    type V = ElementV;

    closed spec fn view(&self) -> ElementV {
        ElementV {
            tag: opt_view(self.tag),
            argument: opt_view(self.argument),
            contents: opt_view(self.contents),
            display: self.display,
            is_broken: self.is_broken,
            is_literal: self.is_literal,
            is_void: self.is_void,
            is_explicit: self.is_explicit,
        }
    }
}

/// An element with nothing set.
pub open spec fn el_default() -> ElementV {
    ElementV {
        tag: None,
        argument: None,
        contents: None,
        display: ElementDisplay::Inline,
        is_broken: false,
        is_literal: false,
        is_void: false,
        is_explicit: false,
    }
}

/// A text-only element.
pub open spec fn el_text(text: Seq<char>) -> ElementV {
    ElementV { contents: Some(text), ..el_default() }
}

/// The root of a tree.
pub open spec fn el_root() -> ElementV {
    ElementV { display: ElementDisplay::Block, ..el_default() }
}

/// Tags that hold nothing.
pub open spec fn is_void_tag(t: Tag) -> bool {
    t == Tag::Linebreak || t == Tag::HorizontalRule
}

/// Tags whose contents are never parsed.
pub open spec fn is_literal_tag(t: Tag) -> bool {
    t == Tag::Image || t == Tag::Link || t == Tag::Code || t == Tag::Plain
}

/// The element a tag token opens.
pub open spec fn el_tag(tag: Seq<char>, arg: Option<Seq<char>>) -> ElementV {
    ElementV {
        tag: Some(tag),
        argument: arg,
        is_void: is_void_tag(tag_of(tag)),
        is_literal: is_literal_tag(tag_of(tag)),
        ..el_default()
    }
}

/// The element a token becomes (closing tags and `Null` become nothing).
pub open spec fn el_from_token(t: TokenV) -> ElementV {
    match t {
        TokenV::Linebreak => ElementV { tag: Some(seq!['b', 'r']), is_void: true, ..el_default() },
        TokenV::Tag(tag, arg) => el_tag(tag, arg),
        TokenV::Text(text) => el_text(text),
        TokenV::Url(url) => ElementV {
            tag: Some(seq!['u', 'r', 'l']),
            contents: Some(url),
            is_literal: true,
            ..el_default()
        },
        _ => el_default(),
    }
}

/// Text appended to an element's contents.
pub open spec fn el_add_text(el: ElementV, text: Seq<char>) -> ElementV {
    match el.contents {
        Some(c) => ElementV { contents: Some(c + text), ..el },
        None => ElementV { contents: Some(text), ..el },
    }
}

/// The element accepts child elements.
pub open spec fn el_can_parent(el: ElementV) -> bool {
    !el.is_literal && !el.is_void
}

/// The element accepts text.
pub open spec fn el_can_have_content(el: ElementV) -> bool {
    !el.is_void
}

/// The element accepts `<br />` children.
pub open spec fn el_can_linebreak(el: ElementV) -> bool {
    !el.is_literal && !el.is_void
}

/// The element's tag is `other`.
pub open spec fn el_is_tag(el: ElementV, other: Seq<char>) -> bool {
    el.tag == Some(other)
}

fn clone_opt(o: &Option<String>) -> (r: Option<String>)
    ensures
        opt_view(r) == opt_view(*o),
{
    match o {
        Some(s) => Some(s.clone()),
        None => None,
    }
}

impl Element {
    /// Converts a Lexer's Token into a Parser's Element.
    pub fn new_from_token(token: &Token) -> (el: Self)
        requires
            !(token@ is Null),
            !(token@ is TagClose),
        ensures
            el@ == el_from_token(token@),
    {
        match token {
            Token::Linebreak => {
                let mut t = String::new();
                push_str(&mut t, "br");
                proof { reveal_strlit("br"); }
                Self {
                    tag: Some(t),
                    argument: None,
                    contents: None,
                    display: ElementDisplay::Inline,
                    is_broken: false,
                    is_literal: false,
                    is_void: true,
                    is_explicit: false,
                }
            },
            Token::Tag(tag, arg) => {
                let kind = get_tag_by_name(tag.as_str());
                let is_void = kind == Tag::Linebreak || kind == Tag::HorizontalRule;
                let is_literal = kind == Tag::Image || kind == Tag::Link || kind == Tag::Code || kind == Tag::Plain;
                Self {
                    tag: Some(tag.clone()),
                    argument: clone_opt(arg),
                    contents: None,
                    display: ElementDisplay::Inline,
                    is_broken: false,
                    is_literal,
                    is_void,
                    is_explicit: false,
                }
            },
            Token::Text(text) => Self::new_text(text),
            Token::Url(url) => {
                let mut t = String::new();
                push_str(&mut t, "url");
                proof { reveal_strlit("url"); }
                Self {
                    tag: Some(t),
                    argument: None,
                    contents: Some(url.clone()),
                    display: ElementDisplay::Inline,
                    is_broken: false,
                    is_literal: true,
                    is_void: false,
                    is_explicit: false,
                }
            },
            _ => Self::new_text(&String::new()),
        }
    }

    /// Text-only element
    pub fn new_text(text: &String) -> (el: Self)
        ensures
            el@ == el_text(text@),
    {
        Self {
            tag: None,
            argument: None,
            contents: Some(text.clone()),
            display: ElementDisplay::Inline,
            is_broken: false,
            is_literal: false,
            is_void: false,
            is_explicit: false,
        }
    }

    /// DOM Root
    pub fn new_root() -> (el: Self)
        ensures
            el@ == el_root(),
    {
        Self {
            tag: None,
            argument: None,
            contents: None,
            display: ElementDisplay::Block,
            is_broken: false,
            is_literal: false,
            is_void: false,
            is_explicit: false,
        }
    }

    /// Adds text to the element's contents.
    pub fn add_text(&mut self, text: &String)
        requires
            !old(self)@.is_void,
        ensures
            final(self)@ == el_add_text(old(self)@, text@),
    {
        match self.contents.take() {
            Some(mut contents) => {
                push_str(&mut contents, text.as_str());
                self.contents = Some(contents);
            },
            None => {
                self.contents = Some(text.clone());
            },
        }
    }

    /// If true, this node can accept the given element as a child.
    pub fn can_parent(&self, node: &Element) -> (b: bool)
        ensures
            b == el_can_parent(self@),
    {
        !self.is_literal && !self.is_void
    }

    /// If true, this node can have text.
    pub fn can_have_content(&self) -> (b: bool)
        ensures
            b == el_can_have_content(self@),
    {
        !self.is_void
    }

    /// If true, this node can accept `<br />` children.
    pub fn can_linebreak(&self) -> (b: bool)
        ensures
            b == el_can_linebreak(self@),
    {
        !self.is_literal && !self.is_void
    }

    /// Moves the contents to a new text element.
    pub fn extract_contents(&mut self) -> (r: Option<Element>)
        ensures
            final(self)@ == (ElementV { contents: None, ..old(self)@ }),
            match old(self)@.contents {
                Some(t) => r matches Some(e) && e@ == el_text(t),
                None => r is None,
            },
    {
        let res = match &self.contents {
            Some(text) => Some(Self::new_text(text)),
            None => None,
        };
        self.contents = None;
        res
    }

    pub fn get_contents(&self) -> (r: Option<&String>)
        ensures
            match r { Some(s) => self@.contents == Some(s@), None => self@.contents is None },
    {
        self.contents.as_ref()
    }

    pub fn get_argument(&self) -> (r: Option<&String>)
        ensures
            match r { Some(s) => self@.argument == Some(s@), None => self@.argument is None },
    {
        self.argument.as_ref()
    }

    pub fn get_display_type(&self) -> (d: ElementDisplay)
        ensures
            d == self@.display,
    {
        self.display
    }

    pub fn get_tag_name(&self) -> (r: Option<&String>)
        ensures
            match r { Some(s) => self@.tag == Some(s@), None => self@.tag is None },
    {
        self.tag.as_ref()
    }

    /// If true, all contents must never be parsed.
    pub fn is_literal(&self) -> (b: bool)
        ensures
            b == self@.is_literal,
    {
        self.is_literal
    }

    pub fn is_tag(&self, other: &String) -> (b: bool)
        ensures
            b == el_is_tag(self@, other@),
    {
        match &self.tag {
            Some(ours) => crate::text::str_eq(ours.as_str(), other.as_str()),
            None => false,
        }
    }

    /// If true, no element or text may be added to this element.
    pub fn is_void(&self) -> (b: bool)
        ensures
            b == self@.is_void,
    {
        self.is_void
    }

    /// If true, the element was closed by its own closing tag.
    pub fn is_explicit(&self) -> (b: bool)
        ensures
            b == self@.is_explicit,
    {
        self.is_explicit
    }

    /// Marks the element as closed by its own closing tag.
    pub fn set_explicit(&mut self)
        ensures
            final(self)@ == (ElementV { is_explicit: true, ..old(self)@ }),
    {
        self.is_explicit = true;
    }

    /// Whether the element could not be rendered.
    pub fn is_broken(&self) -> (b: bool)
        ensures
            b == self@.is_broken,
    {
        self.is_broken
    }

    /// Removes the element's contents.
    pub fn clear_contents(&mut self)
        ensures
            final(self)@ == (ElementV { contents: None, ..old(self)@ }),
    {
        self.contents = None;
    }

    /// Marks the element as one that could not be rendered.
    pub fn set_broken(&mut self)
        ensures
            final(self)@ == (ElementV { is_broken: true, ..old(self)@ }),
    {
        self.is_broken = true;
    }

    /// An owned copy of the element.
    pub fn duplicate(&self) -> (r: Element)
        ensures
            r@ == self@,
    {
        Element {
            tag: clone_opt(&self.tag),
            argument: clone_opt(&self.argument),
            contents: clone_opt(&self.contents),
            display: self.display,
            is_broken: self.is_broken,
            is_literal: self.is_literal,
            is_void: self.is_void,
            is_explicit: self.is_explicit,
        }
    }
}

impl Default for Element {
    fn default() -> (el: Self)
        ensures
            el@ == el_default(),
    {
        Self {
            tag: None,
            argument: None,
            contents: None,
            display: ElementDisplay::Inline,
            is_broken: false,
            is_literal: false,
            is_void: false,
            is_explicit: false,
        }
    }
}

} // verus!
