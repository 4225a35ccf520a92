//! The read-only snapshot handed to the display layer: the ordered element
//! list together with the cursor's place. The drawing itself lives outside
//! the core.

use vstd::prelude::*;
use crate::element::Element;

verus! {

/// Everything a renderer needs to draw one frame of the editor.
pub struct ScreenplayEditor {
    pub elements: Vec<Element>,
    pub cursor_position: usize,
    pub cursor_offset: usize,
}

impl ScreenplayEditor {
    pub fn new(elements: Vec<Element>, cursor_position: usize, cursor_offset: usize) -> (s:
        ScreenplayEditor)
        ensures
            s.elements == elements,
            s.cursor_position == cursor_position,
            s.cursor_offset == cursor_offset,
    {
        ScreenplayEditor { elements, cursor_position, cursor_offset }
    }
}

} // verus!
