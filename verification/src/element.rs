//! A single typed line or paragraph of the screenplay: its element type and
//! its content, a sequence of Unicode scalar values addressed by character
//! offset.

use vstd::prelude::*;
use crate::text::{chars_blank, chars_to_string, is_blank, str_to_chars, upper_of};

verus! {

/// The closed set of screenplay element types.
#[derive(Debug, Clone, Copy, PartialEq, Eq, Structural)]
pub enum ElementType {
    SceneHeading,
    Action,
    Character,
    Dialogue,
    Parenthetical,
    Transition,
}

impl ElementType {
    /// The element types whose content is displayed in upper case.
    pub open spec fn is_uppercase_spec(self) -> bool {
        self == ElementType::SceneHeading || self == ElementType::Character || self
            == ElementType::Transition
    }

    pub fn is_uppercase(&self) -> (r: bool)
        ensures
            r == self.is_uppercase_spec(),
    {
        match self {
            ElementType::SceneHeading | ElementType::Character | ElementType::Transition => true,
            _ => false,
        }
    }

    /// The display name of each element type.
    pub open spec fn as_str_spec(self) -> Seq<char> {
        match self {
            ElementType::SceneHeading => "Scene Heading"@,
            ElementType::Action => "Action"@,
            ElementType::Character => "Character"@,
            ElementType::Dialogue => "Dialogue"@,
            ElementType::Parenthetical => "Parenthetical"@,
            ElementType::Transition => "Transition"@,
        }
    }

    pub fn as_str(&self) -> (r: &'static str)
        ensures
            r@ == self.as_str_spec(),
    {
        match self {
            ElementType::SceneHeading => "Scene Heading",
            ElementType::Action => "Action",
            ElementType::Character => "Character",
            ElementType::Dialogue => "Dialogue",
            ElementType::Parenthetical => "Parenthetical",
            ElementType::Transition => "Transition",
        }
    }
}

impl Default for ElementType {
    /// A fresh line defaults to an action line.
    fn default() -> (r: Self)
        ensures
            r == ElementType::Action,
    {
        ElementType::Action
    }
}

/// The mathematical value of an element: its type and its text.
pub ghost struct ElementView {
    pub element_type: ElementType,
    pub content: Seq<char>,
}

/// One typed line of the screenplay. The content is held as a vector of
/// characters so that the cursor can address it by character offset.
#[derive(Debug, Clone)]
pub struct Element {
    pub element_type: ElementType,
    pub content: Vec<char>,
}

impl View for Element {
    type V = ElementView;

    open spec fn view(&self) -> ElementView {
        ElementView { element_type: self.element_type, content: self.content@ }
    }
}

impl Element {
    pub fn new(element_type: ElementType, content: String) -> (e: Element)
        ensures
            e@.element_type == element_type,
            e@.content == content@,
    {
        Element { element_type, content: str_to_chars(content.as_str()) }
    }

    pub fn empty(element_type: ElementType) -> (e: Element)
        ensures
            e@.element_type == element_type,
            e@.content == Seq::<char>::empty(),
    {
        Element { element_type, content: Vec::new() }
    }

    /// An element is empty exactly when its content, with leading and
    /// trailing whitespace stripped, has zero length — that is, when every
    /// character of the content is whitespace.
    pub fn is_empty(&self) -> (r: bool)
        ensures
            r == is_blank(self@.content),
    {
        chars_blank(&self.content)
    }

    /// The content as displayed: uppercased exactly when the element type
    /// calls for upper case, unchanged otherwise.
    pub fn formatted_content(&self) -> (r: String)
        ensures
            self.element_type.is_uppercase_spec() ==> r@ == upper_of(self@.content),
            !self.element_type.is_uppercase_spec() ==> r@ == self@.content,
    {
        let s = chars_to_string(&self.content);
        if self.element_type.is_uppercase() {
            s.as_str().to_uppercase()
        } else {
            s
        }
    }

    /// The raw content as a `String`.
    pub fn content_string(&self) -> (r: String)
        ensures
            r@ == self@.content,
    {
        chars_to_string(&self.content)
    }

    /// The number of characters in the content.
    pub fn content_len(&self) -> (r: usize)
        ensures
            r == self@.content.len(),
    {
        self.content.len()
    }
}

} // verus!
