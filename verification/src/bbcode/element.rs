//! Elements of the syntax tree that keep slices of the text they were read from.
use super::tag::{tag_kind, Tag};
use super::token::Token;
use vstd::prelude::*;

verus! {

#[derive(Debug, PartialEq, Eq, Structural, Clone, Copy)]
pub enum ElementDisplay {
    /// Element which may not be closed by its interiors.
    Block,
    /// Element which renders inline may be closed automatically in some situations.
    Inline,
    /// Element with content not parsed to BBCode.
    Plain,
    /// Element with content which whitespace is always preserved.
    Preformatted,
    /// Element with no content.
    Selfclosing,
}

impl Default for ElementDisplay {
    fn default() -> (d: Self)
        ensures
            d == ElementDisplay::Inline,
    {
        Self::Inline
    }
}

/// A single element of a BbCode Abstract Syntax Tree (AST).
#[derive(Debug, Clone, Copy)]
pub struct Element<'str> {
    /// Raw data provided by the token.
    raw: Option<&'str str>,
    /// Tag name.
    /// If set, this element should defer some logic to BbCode tags.
    tag: Option<&'str str>,
    /// Tag arguments.
    /// If set, this element contains content after the tag name.
    argument: Option<&'str str>,
    /// Tag content.
    /// If set, this element contains text.
    contents: Option<&'str str>,
    /// Types determine what other elements this one can safely embed in or close.
    display: ElementDisplay,
    /// When parsing arguments, elements may break, which defaults rendering as text.
    broken: bool,
    /// If true, this element was explicitly defined and closed.
    explicit: bool,
}

/// The value of an element.
pub struct ElementV {
    pub raw: Option<Seq<char>>,
    pub tag: Option<Seq<char>>,
    pub argument: Option<Seq<char>>,
    pub contents: Option<Seq<char>>,
    pub display: ElementDisplay,
    pub broken: bool,
    pub explicit: bool,
}

/// The view of an optional string slice.
pub open spec fn opt_str(o: Option<&str>) -> Option<Seq<char>> {
    match o {
        Some(s) => Some(s@),
        None => None,
    }
}

impl<'str> View for Element<'str> {
    type V = ElementV;

    closed spec fn view(&self) -> ElementV {
        ElementV {
            raw: opt_str(self.raw),
            tag: opt_str(self.tag),
            argument: opt_str(self.argument),
            contents: opt_str(self.contents),
            display: self.display,
            broken: self.broken,
            explicit: self.explicit,
        }
    }
}

/// An element with nothing set.
pub open spec fn ev_default() -> ElementV {
    ElementV {
        raw: None,
        tag: None,
        argument: None,
        contents: None,
        display: ElementDisplay::Inline,
        broken: false,
        explicit: false,
    }
}

/// A text element.
pub open spec fn ev_text(text: Seq<char>) -> ElementV {
    ElementV { raw: Some(text), contents: Some(text), ..ev_default() }
}

/// The display of a tag element.
pub open spec fn tag_display(t: Tag) -> ElementDisplay {
    match t {
        Tag::Linebreak => ElementDisplay::Selfclosing,
        Tag::HorizontalRule => ElementDisplay::Selfclosing,
        Tag::Plain => ElementDisplay::Plain,
        Tag::Code => ElementDisplay::Preformatted,
        Tag::Image => ElementDisplay::Plain,
        _ => ElementDisplay::Inline,
    }
}

/// The element of a tag: an unknown tag is broken.
pub open spec fn ev_tag(raw: Seq<char>, tag: Seq<char>, arg: Option<Seq<char>>) -> ElementV {
    ElementV {
        raw: Some(raw),
        tag: Some(tag),
        argument: arg,
        display: tag_display(tag_kind(tag)),
        broken: tag_kind(tag) == Tag::Invalid,
        ..ev_default()
    }
}

/// The element a token becomes.
pub open spec fn ev_from_token(t: Token) -> ElementV {
    match t {
        Token::Linebreak(raw) => ElementV {
            raw: Some(raw@),
            tag: Some("br"@),
            display: ElementDisplay::Selfclosing,
            ..ev_default()
        },
        Token::Tag(raw, tag, arg) => ev_tag(raw@, tag@, opt_str(arg)),
        Token::TagClose(raw, _) => ev_text(raw@),
        Token::Text(text) => ev_text(text@),
        Token::Url(url) => ElementV {
            raw: Some(url@),
            tag: Some("url"@),
            contents: Some(url@),
            explicit: true,
            ..ev_default()
        },
        Token::Null => ev_default(),
    }
}

/// The element accepts child tag elements.
pub open spec fn ev_can_parent(el: ElementV) -> bool {
    !(el.display == ElementDisplay::Plain || el.display == ElementDisplay::Preformatted
        || el.display == ElementDisplay::Selfclosing)
}

/// The element accepts a child with tag `theirs`: a link never holds a link.
pub open spec fn ev_can_parent_tag(el: ElementV, theirs: Seq<char>) -> bool {
    match el.tag {
        Some(ours) => !(tag_kind(ours) == Tag::Link && tag_kind(theirs) == Tag::Link),
        None => true,
    }
}

/// The raw text that opened the element.
pub open spec fn ev_open_str(el: ElementV) -> Seq<char> {
    match el.raw {
        Some(raw) => raw,
        None => Seq::empty(),
    }
}

/// The BbCode that closes the element, when it was closed explicitly.
pub open spec fn ev_close_str(el: ElementV) -> Seq<char> {
    if el.explicit {
        match el.tag {
            Some(tag) => seq!['[', '/'] + tag + seq![']'],
            None => seq!['[', '/', ']'],
        }
    } else {
        Seq::empty()
    }
}

impl<'str> Element<'str> {
    fn new_for_tag(raw: &'str str, tag: &'str str, arg: Option<&'str str>) -> (el: Self)
        ensures
            el@ == ev_tag(raw@, tag@, opt_str(arg)),
    {
        let kind = Tag::get_by_name(tag);
        let mut el = Self {
            raw: Some(raw),
            tag: Some(tag),
            argument: arg,
            contents: None,
            display: ElementDisplay::Inline,
            broken: false,
            explicit: false,
        };
        // Adjust display
        el.display = match kind {
            Tag::Invalid => {
                el.broken = true;
                ElementDisplay::Inline
            },
            Tag::Linebreak => ElementDisplay::Selfclosing,
            Tag::HorizontalRule => ElementDisplay::Selfclosing,
            Tag::Plain => ElementDisplay::Plain,
            Tag::Code => ElementDisplay::Preformatted,
            Tag::Image => ElementDisplay::Plain,
            Tag::Link => ElementDisplay::Inline,
            _ => ElementDisplay::Inline,
        };
        el
    }

    /// Text-only element
    pub fn new_from_text(text: &'str str) -> (el: Self)
        ensures
            el@ == ev_text(text@),
    {
        Self {
            raw: Some(text),
            tag: None,
            argument: None,
            contents: Some(text),
            display: ElementDisplay::Inline,
            broken: false,
            explicit: false,
        }
    }

    /// Converts a Lexer's Token into a Parser's Element.
    pub fn new_from_token(token: &'str Token) -> (el: Self)
        requires
            !(*token is Null),
        ensures
            el@ == ev_from_token(*token),
    {
        match token {
            Token::Linebreak(raw) => Self {
                raw: Some(raw),
                tag: Some("br"),
                argument: None,
                contents: None,
                display: ElementDisplay::Selfclosing,
                broken: false,
                explicit: false,
            },
            Token::Tag(raw, tag, arg) => Self::new_for_tag(raw, tag, *arg),
            // Closing tags are consumed unless they are unpaired.
            Token::TagClose(raw, _) => Self::new_from_text(raw),
            Token::Text(text) => Self::new_from_text(text),
            Token::Url(url) => Self {
                raw: Some(url),
                tag: Some("url"),
                argument: None,
                contents: Some(url),
                display: ElementDisplay::Inline,
                broken: false,
                explicit: true,
            },
            Token::Null => Self::new_root(),
        }
    }

    /// DOM Root
    pub fn new_root() -> (el: Self)
        ensures
            el@ == (ElementV { display: ElementDisplay::Block, ..ev_default() }),
    {
        Self {
            raw: None,
            tag: None,
            argument: None,
            contents: None,
            display: ElementDisplay::Block,
            broken: false,
            explicit: false,
        }
    }

    /// If true, this node can have text.
    /// If false, it should never contain anything.
    pub fn can_have_content(&self) -> (b: bool)
        ensures
            b == (self@.display != ElementDisplay::Selfclosing),
    {
        match self.display {
            ElementDisplay::Selfclosing => false,
            _ => true,
        }
    }

    /// If true, this node can accept <br/> tags.
    /// If false, it depends on other checks what it can accept.
    pub fn can_linebreak(&self) -> (b: bool)
        ensures
            b == !(self@.display == ElementDisplay::Preformatted || self@.display == ElementDisplay::Selfclosing),
    {
        match self.display {
            ElementDisplay::Preformatted => false,
            ElementDisplay::Selfclosing => false,
            _ => true,
        }
    }

    /// If true, this node can accept the given element as a child.
    /// If false, it should never have child tag elements.
    pub fn can_parent(&self) -> (b: bool)
        ensures
            b == ev_can_parent(self@),
    {
        match self.display {
            ElementDisplay::Plain => false,
            ElementDisplay::Preformatted => false,
            ElementDisplay::Selfclosing => false,
            _ => true,
        }
    }

    /// Exceptions list for tags.
    pub fn can_parent_tag(&self, theirs: &str) -> (b: bool)
        ensures
            b == ev_can_parent_tag(self@, theirs@),
    {
        // A last resort for exceptional tags.
        // Almost all cases for parentage should be handled through ElementDisplay.
        match self.tag {
            Some(ours) => match Tag::get_by_name(ours) {
                Tag::Link => match Tag::get_by_name(theirs) {
                    Tag::Link => false,
                    _ => true,
                },
                _ => true,
            },
            None => true,
        }
    }

    pub fn clear_contents(&mut self)
        ensures
            final(self)@ == (ElementV { contents: None, ..old(self)@ }),
    {
        self.contents = None;
    }

    pub fn extract_contents(&mut self) -> (r: Option<Element<'str>>)
        ensures
            final(self)@ == (ElementV { contents: None, ..old(self)@ }),
            match old(self)@.contents {
                Some(t) => r matches Some(e) && e@ == ev_text(t),
                None => r is None,
            },
    {
        let res = match self.contents {
            Some(text) => Some(Self::new_from_text(text)),
            None => None,
        };
        self.contents = None;
        res
    }

    pub fn get_argument(&self) -> (r: Option<&'str str>)
        ensures
            opt_str(r) == self@.argument,
    {
        self.argument
    }

    pub fn get_contents(&self) -> (r: Option<&'str str>)
        ensures
            opt_str(r) == self@.contents,
    {
        self.contents
    }

    pub fn get_display_type(&self) -> (d: ElementDisplay)
        ensures
            d == self@.display,
    {
        self.display
    }

    pub fn get_tag_name(&self) -> (r: Option<&'str str>)
        ensures
            opt_str(r) == self@.tag,
    {
        self.tag
    }

    pub fn get_raw(&self) -> (r: &'str str)
        ensures
            r@ == ev_open_str(self@),
    {
        proof { reveal_strlit(""); }
        match self.raw {
            Some(raw) => raw,
            None => "",
        }
    }

    pub fn has_argument(&self) -> (b: bool)
        ensures
            b == (self@.argument matches Some(a) && a.len() > 0),
    {
        match self.argument {
            Some(a) => !a.is_empty(),
            None => false,
        }
    }

    pub fn has_contents(&self) -> (b: bool)
        ensures
            b == (self@.contents matches Some(c) && c.len() > 0),
    {
        match self.contents {
            Some(c) => !c.is_empty(),
            None => false,
        }
    }

    pub fn is_broken(&self) -> (b: bool)
        ensures
            b == self@.broken,
    {
        self.broken
    }

    pub fn is_explicit(&self) -> (b: bool)
        ensures
            b == self@.explicit,
    {
        self.explicit
    }

    pub fn is_tag(&self, other: &str) -> (b: bool)
        ensures
            b == (self@.tag == Some(other@)),
    {
        match self.tag {
            Some(ours) => crate::text::str_eq(ours, other),
            None => false,
        }
    }

    pub fn set_argument(&mut self, input: &'str str)
        ensures
            final(self)@ == (ElementV { argument: Some(input@), ..old(self)@ }),
    {
        self.argument = Some(input);
    }

    pub fn set_broken(&mut self)
        ensures
            final(self)@ == (ElementV { broken: true, ..old(self)@ }),
    {
        self.broken = true;
    }

    pub fn set_contents(&mut self, input: &'str str)
        ensures
            final(self)@ == (ElementV { contents: Some(input@), ..old(self)@ }),
    {
        self.contents = Some(input);
    }

    pub fn set_explicit(&mut self)
        ensures
            final(self)@ == (ElementV { explicit: true, ..old(self)@ }),
    {
        self.explicit = true;
    }

    /// Unwinds element into an opening tag string.
    pub fn to_open_str(&self) -> (s: String)
        ensures
            s@ == ev_open_str(self@),
    {
        self.get_raw().to_owned()
    }

    /// Unwinds element into an closing tag string.
    pub fn to_close_str(&self) -> (s: String)
        ensures
            s@ == ev_close_str(self@),
    {
        proof { reveal_strlit("[/"); reveal_strlit("]"); reveal_strlit("[/]"); }
        // Only explicitly closed tags reverse to BbCode
        if self.is_explicit() {
            match self.tag {
                Some(tag) => {
                    let mut s = String::new();
                    crate::text::push_str(&mut s, "[/");
                    crate::text::push_str(&mut s, tag);
                    crate::text::push_str(&mut s, "]");
                    s
                },
                None => "[/]".to_owned(),
            }
        }
        // Broken, implicitly closed tags reverse to nothing.
        else {
            String::new()
        }
    }
}

impl<'str> Default for Element<'str> {
    fn default() -> (el: Self)
        ensures
            el@ == ev_default(),
    {
        Self {
            raw: None,
            tag: None,
            argument: None,
            contents: None,
            display: ElementDisplay::Inline,
            broken: false,
            explicit: false,
        }
    }
}

} // verus!
