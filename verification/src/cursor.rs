//! The editing cursor: a position among the document's elements, a
//! character offset inside the current element, and a remembered column for
//! vertical movement. Every operation is a single atomic step on the cursor
//! and the document together, and boundary conditions resolve to doing
//! nothing rather than to an error.

use vstd::prelude::*;
use crate::element::{Element, ElementType, ElementView};
use crate::screenplay::{elems_view, Screenplay};
use crate::text::is_blank;

verus! {

/// The cursor's place in the document: the index of the element under edit,
/// the character offset inside it, the remembered column consulted by
/// vertical moves, and the running element type.
#[derive(Debug, Clone, Copy, PartialEq, Eq, Structural)]
pub struct CursorState {
    pub position: usize,
    pub offset: usize,
    pub desired_offset: usize,
    pub element_type: ElementType,
}

/// The outcome of one editing step: the new cursor, the new element
/// sequence, and whether the document was touched at all.
pub ghost struct EditStep {
    pub cursor: CursorState,
    pub elements: Seq<ElementView>,
    pub mutated: bool,
}

/// The document fields that no cursor operation ever changes.
pub open spec fn same_meta(a: Screenplay, b: Screenplay) -> bool {
    a.title == b.title && a.author == b.author && a.contact == b.contact && a.file_path
        == b.file_path
}

/// Moving left steps the offset back by one and remembers the new column;
/// at the start of an element it does nothing (no wrap to the previous
/// element).
pub open spec fn move_left_spec(c: CursorState) -> CursorState {
    if c.offset > 0 {
        CursorState {
            offset: (c.offset - 1) as usize,
            desired_offset: (c.offset - 1) as usize,
            ..c
        }
    } else {
        c
    }
}

/// Moving right steps the offset forward within the current element, or
/// advances to the start of the next element when at the end of one; at the
/// end of the last element it does nothing.
pub open spec fn move_right_spec(c: CursorState, elems: Seq<ElementView>) -> CursorState {
    if c.position < elems.len() {
        let e = elems[c.position as int];
        if c.offset < e.content.len() {
            CursorState {
                offset: (c.offset + 1) as usize,
                desired_offset: (c.offset + 1) as usize,
                ..c
            }
        } else if c.position + 1 < elems.len() {
            CursorState {
                position: (c.position + 1) as usize,
                offset: 0,
                desired_offset: 0,
                element_type: elems[c.position + 1].element_type,
            }
        } else {
            c
        }
    } else {
        c
    }
}

/// Moving up steps to the previous element, clamping the offset to the
/// shorter of the remembered column and that element's length; the
/// remembered column itself is not changed.
pub open spec fn move_up_spec(c: CursorState, elems: Seq<ElementView>) -> CursorState {
    if c.position > 0 {
        let p = (c.position - 1) as usize;
        if p < elems.len() {
            let e = elems[p as int];
            CursorState {
                position: p,
                offset: if c.desired_offset <= e.content.len() {
                    c.desired_offset
                } else {
                    e.content.len() as usize
                },
                desired_offset: c.desired_offset,
                element_type: e.element_type,
            }
        } else {
            CursorState { position: p, ..c }
        }
    } else {
        c
    }
}

/// Moving down is symmetric to moving up, bounded by the last element.
pub open spec fn move_down_spec(c: CursorState, elems: Seq<ElementView>) -> CursorState {
    if c.position + 1 < elems.len() {
        let p = (c.position + 1) as usize;
        let e = elems[p as int];
        CursorState {
            position: p,
            offset: if c.desired_offset <= e.content.len() {
                c.desired_offset
            } else {
                e.content.len() as usize
            },
            desired_offset: c.desired_offset,
            element_type: e.element_type,
        }
    } else {
        c
    }
}

/// Inserting a character first appends a fresh empty element of the running
/// type when the cursor has run past the last element, then inserts the
/// character at the offset and advances the cursor by one.
pub open spec fn insert_char_spec(c: CursorState, elems: Seq<ElementView>, ch: char) -> EditStep {
    let appended = c.position >= elems.len();
    let elems1 = if appended {
        elems.push(ElementView { element_type: c.element_type, content: Seq::<char>::empty() })
    } else {
        elems
    };
    if c.position < elems1.len() && c.offset <= elems1[c.position as int].content.len() {
        let e = elems1[c.position as int];
        EditStep {
            cursor: CursorState {
                offset: (c.offset + 1) as usize,
                desired_offset: (c.offset + 1) as usize,
                ..c
            },
            elements: elems1.update(
                c.position as int,
                ElementView { content: e.content.insert(c.offset as int, ch), ..e },
            ),
            mutated: true,
        }
    } else {
        EditStep { cursor: c, elements: elems1, mutated: appended }
    }
}

/// Backspace with a positive offset removes the character before the
/// cursor. At offset zero it merges into the previous element: a blank
/// current element is deleted, and either way the cursor lands at the end
/// of the previous element, adopting its length and type. At the start of
/// the document it does nothing.
pub open spec fn backspace_spec(c: CursorState, elems: Seq<ElementView>) -> EditStep {
    if c.offset > 0 {
        if c.position < elems.len() {
            let e = elems[c.position as int];
            EditStep {
                cursor: CursorState {
                    offset: (c.offset - 1) as usize,
                    desired_offset: (c.offset - 1) as usize,
                    ..c
                },
                elements: elems.update(
                    c.position as int,
                    ElementView { content: e.content.remove(c.offset - 1), ..e },
                ),
                mutated: true,
            }
        } else {
            EditStep { cursor: c, elements: elems, mutated: false }
        }
    } else if c.position > 0 {
        let blank = c.position < elems.len() && is_blank(elems[c.position as int].content);
        let elems2 = if blank {
            elems.remove(c.position as int)
        } else {
            elems
        };
        let p = (c.position - 1) as usize;
        if p < elems2.len() {
            let e = elems2[p as int];
            EditStep {
                cursor: CursorState {
                    position: p,
                    offset: e.content.len() as usize,
                    desired_offset: e.content.len() as usize,
                    element_type: e.element_type,
                },
                elements: elems2,
                mutated: blank,
            }
        } else {
            EditStep { cursor: CursorState { position: p, ..c }, elements: elems2, mutated: blank }
        }
    } else {
        EditStep { cursor: c, elements: elems, mutated: false }
    }
}

/// Delete removes the character at the offset when there is one; it never
/// merges with the next element, and the cursor does not move.
pub open spec fn delete_spec(c: CursorState, elems: Seq<ElementView>) -> EditStep {
    if c.position < elems.len() && c.offset < elems[c.position as int].content.len() {
        let e = elems[c.position as int];
        EditStep {
            cursor: c,
            elements: elems.update(
                c.position as int,
                ElementView { content: e.content.remove(c.offset as int), ..e },
            ),
            mutated: true,
        }
    } else {
        EditStep { cursor: c, elements: elems, mutated: false }
    }
}

impl CursorState {
    pub fn move_left(&mut self)
        ensures
            *final(self) == move_left_spec(*old(self)),
    {
        if self.offset > 0 {
            self.offset -= 1;
            self.desired_offset = self.offset;
        }
    }

    pub fn move_right(&mut self, screenplay: &Screenplay)
        ensures
            *final(self) == move_right_spec(*old(self), elems_view(screenplay.elements@)),
    {
        if self.position < screenplay.elements.len() {
            let content_len = screenplay.elements[self.position].content.len();
            if self.offset < content_len {
                self.offset += 1;
                self.desired_offset = self.offset;
            } else if self.position < screenplay.elements.len() - 1 {
                self.position += 1;
                self.offset = 0;
                self.desired_offset = 0;
                self.element_type = screenplay.elements[self.position].element_type;
            }
        }
    }

    pub fn move_up(&mut self, screenplay: &Screenplay)
        ensures
            *final(self) == move_up_spec(*old(self), elems_view(screenplay.elements@)),
    {
        if self.position > 0 {
            self.position -= 1;
            if self.position < screenplay.elements.len() {
                let content_len = screenplay.elements[self.position].content.len();
                self.offset = if self.desired_offset <= content_len {
                    self.desired_offset
                } else {
                    content_len
                };
                self.element_type = screenplay.elements[self.position].element_type;
            }
        }
    }

    pub fn move_down(&mut self, screenplay: &Screenplay)
        ensures
            *final(self) == move_down_spec(*old(self), elems_view(screenplay.elements@)),
    {
        if screenplay.elements.len() > 0 && self.position < screenplay.elements.len() - 1 {
            self.position += 1;
            let content_len = screenplay.elements[self.position].content.len();
            self.offset = if self.desired_offset <= content_len {
                self.desired_offset
            } else {
                content_len
            };
            self.element_type = screenplay.elements[self.position].element_type;
        }
    }

    /// Inserts `c` at the cursor, appending a fresh empty element first when
    /// the cursor has run past the last one, and marks the document
    /// modified.
    pub fn insert_char(&mut self, screenplay: &mut Screenplay, c: char)
        requires
            old(self).position < old(screenplay).elements@.len() ==> old(self).offset <= old(
                screenplay,
            ).elements@[old(self).position as int]@.content.len(),
            old(self).position == old(screenplay).elements@.len() ==> old(self).offset == 0,
        ensures
            ({
                let step = insert_char_spec(
                    *old(self),
                    elems_view(old(screenplay).elements@),
                    c,
                );
                &&& *final(self) == step.cursor
                &&& elems_view(final(screenplay).elements@) == step.elements
                &&& final(screenplay).modified == (old(screenplay).modified || step.mutated)
                &&& same_meta(*final(screenplay), *old(screenplay))
            }),
    {
        if self.position >= screenplay.elements.len() {
            let element = Element::empty(self.element_type);
            screenplay.add_element(element);
        }
        if self.position < screenplay.elements.len() {
            let elem = &mut screenplay.elements[self.position];
            elem.content.insert(self.offset, c);
            let new_len = elem.content.len();
            proof {
                assert(self.offset < new_len);
            }
            screenplay.modified = true;
            self.offset += 1;
            self.desired_offset = self.offset;
        }
        proof {
            let step = insert_char_spec(*old(self), elems_view(old(screenplay).elements@), c);
            assert(elems_view(final(screenplay).elements@) =~~= step.elements);
        }
    }

    /// Removes the character before the cursor, or at offset zero merges
    /// into the previous element as `backspace_spec` describes, marking the
    /// document modified whenever an element changes.
    pub fn backspace(&mut self, screenplay: &mut Screenplay)
        requires
            old(self).offset > 0 && old(self).position < old(screenplay).elements@.len() ==> old(
                self,
            ).offset <= old(screenplay).elements@[old(self).position as int]@.content.len(),
        ensures
            ({
                let step = backspace_spec(*old(self), elems_view(old(screenplay).elements@));
                &&& *final(self) == step.cursor
                &&& elems_view(final(screenplay).elements@) == step.elements
                &&& final(screenplay).modified == (old(screenplay).modified || step.mutated)
                &&& same_meta(*final(screenplay), *old(screenplay))
            }),
    {
        if self.offset > 0 {
            if self.position < screenplay.elements.len() {
                let elem = &mut screenplay.elements[self.position];
                self.offset -= 1;
                elem.content.remove(self.offset);
                self.desired_offset = self.offset;
                screenplay.modified = true;
            }
        } else if self.position > 0 {
            let current_is_blank = if self.position < screenplay.elements.len() {
                screenplay.elements[self.position].is_empty()
            } else {
                false
            };
            if current_is_blank {
                screenplay.elements.remove(self.position);
                screenplay.modified = true;
            }
            self.position -= 1;
            if self.position < screenplay.elements.len() {
                let content_len = screenplay.elements[self.position].content.len();
                self.offset = content_len;
                self.element_type = screenplay.elements[self.position].element_type;
                self.desired_offset = self.offset;
            }
        }
        proof {
            let step = backspace_spec(*old(self), elems_view(old(screenplay).elements@));
            assert(elems_view(final(screenplay).elements@) =~~= step.elements);
        }
    }

    /// Removes the character at the cursor when there is one; deliberately
    /// asymmetric to backspace, it never merges with the next element.
    pub fn delete(&mut self, screenplay: &mut Screenplay)
        ensures
            ({
                let step = delete_spec(*old(self), elems_view(old(screenplay).elements@));
                &&& *final(self) == step.cursor
                &&& elems_view(final(screenplay).elements@) == step.elements
                &&& final(screenplay).modified == (old(screenplay).modified || step.mutated)
                &&& same_meta(*final(screenplay), *old(screenplay))
            }),
    {
        if self.position < screenplay.elements.len() {
            let elem = &mut screenplay.elements[self.position];
            if self.offset < elem.content.len() {
                elem.content.remove(self.offset);
                screenplay.modified = true;
            }
        }
        proof {
            let step = delete_spec(*old(self), elems_view(old(screenplay).elements@));
            assert(elems_view(final(screenplay).elements@) =~~= step.elements);
        }
    }
}

/// Moving right with the cursor just after the last character of the last
/// element changes nothing: neither position nor offset nor the remembered
/// column.
pub proof fn lemma_move_right_at_end_is_noop(c: CursorState, elems: Seq<ElementView>)
    requires
        c.position + 1 == elems.len(),
        c.offset == elems[c.position as int].content.len(),
    ensures
        move_right_spec(c, elems) == c,
{
}

/// Backspace at offset zero on a non-blank element merges into the previous
/// element: no element is deleted, and the cursor lands at the end of the
/// previous element, adopting its length and type.
pub proof fn lemma_backspace_merges_without_deleting(c: CursorState, elems: Seq<ElementView>)
    requires
        c.offset == 0,
        0 < c.position < elems.len(),
        !is_blank(elems[c.position as int].content),
        elems[c.position - 1].content.len() <= usize::MAX,
    ensures
        backspace_spec(c, elems).elements == elems,
        backspace_spec(c, elems).cursor.position == c.position - 1,
        backspace_spec(c, elems).cursor.offset == elems[c.position - 1].content.len(),
        backspace_spec(c, elems).cursor.element_type == elems[c.position - 1].element_type,
        !backspace_spec(c, elems).mutated,
{
}

/// Backspace at offset zero on a blank element deletes that element and
/// lands the cursor at the end of the previous element.
pub proof fn lemma_backspace_deletes_blank_element(c: CursorState, elems: Seq<ElementView>)
    requires
        c.offset == 0,
        0 < c.position < elems.len(),
        is_blank(elems[c.position as int].content),
        elems[c.position - 1].content.len() <= usize::MAX,
    ensures
        backspace_spec(c, elems).elements == elems.remove(c.position as int),
        backspace_spec(c, elems).cursor.position == c.position - 1,
        backspace_spec(c, elems).cursor.offset == elems[c.position - 1].content.len(),
        backspace_spec(c, elems).cursor.element_type == elems[c.position - 1].element_type,
        backspace_spec(c, elems).mutated,
{
}

/// Vertical moves consult the remembered column but never change it, even
/// through elements shorter than the column.
pub proof fn lemma_vertical_moves_preserve_desired_offset(c: CursorState, elems: Seq<ElementView>)
    ensures
        move_up_spec(c, elems).desired_offset == c.desired_offset,
        move_down_spec(c, elems).desired_offset == c.desired_offset,
{
}

/// Moving up to the previous element (however short) and back down restores
/// the cursor to its element and to the remembered column, whenever that
/// element is long enough to hold it.
pub proof fn lemma_column_restored_after_up_down(c: CursorState, elems: Seq<ElementView>)
    requires
        0 < c.position < elems.len(),
        c.desired_offset <= elems[c.position as int].content.len(),
    ensures
        ({
            let back = move_down_spec(move_up_spec(c, elems), elems);
            &&& back.position == c.position
            &&& back.offset == c.desired_offset
            &&& back.desired_offset == c.desired_offset
        }),
{
}

} // verus!
