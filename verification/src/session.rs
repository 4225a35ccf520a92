//! The editing session: the document, the running element type, and the
//! cursor fields, driven one abstract command at a time. Each command is
//! applied atomically — the document and the cursor are read, the new state
//! of both is computed, and both are committed together.

use vstd::prelude::*;
use crate::cursor::{
    backspace_spec, delete_spec, insert_char_spec, move_down_spec, move_left_spec, move_right_spec,
    move_up_spec, same_meta, CursorState,
};
use crate::element::{Element, ElementType, ElementView};
use crate::screenplay::{elems_view, Screenplay};
use crate::transitions::{
    detect_next_element_type, detect_next_element_type_spec, next_element_type,
    next_element_type_spec,
};

verus! {

/// The abstract commands the session consumes, one per discrete input.
/// Decoding raw input events into these commands is the caller's business.
#[derive(Debug, Clone, Copy, PartialEq, Eq)]
pub enum Message {
    TabPressed,
    EnterPressed,
    CharacterTyped(char),
    BackspacePressed,
    DeletePressed,
    ArrowLeft,
    ArrowRight,
    ArrowUp,
    ArrowDown,
    Tick,
}

/// One editing session over one document. The session always holds at
/// least one element; the cursor always rests on an existing element, at an
/// offset no greater than that element's length.
#[derive(Debug, Clone)]
pub struct App {
    pub screenplay: Screenplay,
    pub current_element_type: ElementType,
    pub cursor_position: usize,
    pub cursor_offset: usize,
    pub cursor_visible: bool,
    pub desired_cursor_offset: usize,
}

/// The cursor value carried by the session's fields.
pub open spec fn app_cursor(a: App) -> CursorState {
    CursorState {
        position: a.cursor_position,
        offset: a.cursor_offset,
        desired_offset: a.desired_cursor_offset,
        element_type: a.current_element_type,
    }
}

/// The mathematical contents of the session's document.
pub open spec fn app_elems(a: App) -> Seq<ElementView> {
    elems_view(a.screenplay.elements@)
}

/// The session invariant: the document is never element-less, the cursor
/// rests on an existing element, and its offset stays within that
/// element's content. Every command preserves it.
pub open spec fn app_inv(a: App) -> bool {
    &&& a.screenplay.elements@.len() > 0
    &&& a.cursor_position < a.screenplay.elements@.len()
    &&& a.cursor_offset <= app_elems(a)[a.cursor_position as int].content.len()
}

/// The outcome of one command: the new cursor, the new element sequence,
/// the modified flag, and the blink visibility.
pub ghost struct SessionStep {
    pub cursor: CursorState,
    pub elements: Seq<ElementView>,
    pub modified: bool,
    pub cursor_visible: bool,
}

/// What each command does to the session, stated over the mathematical
/// contents of the document.
pub open spec fn update_spec(a: App, message: Message) -> SessionStep {
    let c = app_cursor(a);
    let elems = app_elems(a);
    let modified = a.screenplay.modified;
    let visible = a.cursor_visible;
    match message {
        Message::Tick => SessionStep {
            cursor: c,
            elements: elems,
            modified,
            cursor_visible: !visible,
        },
        Message::TabPressed => {
            let t = next_element_type_spec(a.current_element_type);
            if c.position < elems.len() {
                SessionStep {
                    cursor: CursorState { element_type: t, ..c },
                    elements: elems.update(
                        c.position as int,
                        ElementView { element_type: t, ..elems[c.position as int] },
                    ),
                    modified: true,
                    cursor_visible: visible,
                }
            } else {
                SessionStep {
                    cursor: CursorState { element_type: t, ..c },
                    elements: elems,
                    modified,
                    cursor_visible: visible,
                }
            }
        },
        Message::EnterPressed => {
            let t = if c.position < elems.len() {
                detect_next_element_type_spec(
                    a.current_element_type,
                    elems[c.position as int].content,
                )
            } else {
                a.current_element_type
            };
            let created = ElementView { element_type: t, content: Seq::<char>::empty() };
            if c.position + 1 <= elems.len() {
                SessionStep {
                    cursor: CursorState {
                        position: (c.position + 1) as usize,
                        offset: 0,
                        desired_offset: 0,
                        element_type: t,
                    },
                    elements: elems.insert(c.position + 1, created),
                    modified: true,
                    cursor_visible: visible,
                }
            } else {
                SessionStep {
                    cursor: CursorState {
                        position: (c.position + 1) as usize,
                        offset: 0,
                        desired_offset: 0,
                        element_type: t,
                    },
                    elements: elems,
                    modified,
                    cursor_visible: visible,
                }
            }
        },
        Message::CharacterTyped(ch) => {
            let step = insert_char_spec(c, elems, ch);
            SessionStep {
                cursor: step.cursor,
                elements: step.elements,
                modified: modified || step.mutated,
                cursor_visible: visible,
            }
        },
        Message::BackspacePressed => {
            let step = backspace_spec(c, elems);
            SessionStep {
                cursor: step.cursor,
                elements: step.elements,
                modified: modified || step.mutated,
                cursor_visible: visible,
            }
        },
        Message::DeletePressed => {
            let step = delete_spec(c, elems);
            SessionStep {
                cursor: step.cursor,
                elements: step.elements,
                modified: modified || step.mutated,
                cursor_visible: visible,
            }
        },
        Message::ArrowLeft => SessionStep {
            cursor: move_left_spec(c),
            elements: elems,
            modified,
            cursor_visible: visible,
        },
        Message::ArrowRight => SessionStep {
            cursor: move_right_spec(c, elems),
            elements: elems,
            modified,
            cursor_visible: visible,
        },
        Message::ArrowUp => SessionStep {
            cursor: move_up_spec(c, elems),
            elements: elems,
            modified,
            cursor_visible: visible,
        },
        Message::ArrowDown => SessionStep {
            cursor: move_down_spec(c, elems),
            elements: elems,
            modified,
            cursor_visible: visible,
        },
    }
}

impl App {
    fn cursor_state(&self) -> (c: CursorState)
        ensures
            c == app_cursor(*self),
    {
        CursorState {
            position: self.cursor_position,
            offset: self.cursor_offset,
            desired_offset: self.desired_cursor_offset,
            element_type: self.current_element_type,
        }
    }

    fn apply_cursor_state(&mut self, cursor: CursorState)
        ensures
            app_cursor(*final(self)) == cursor,
            final(self).screenplay == old(self).screenplay,
            final(self).cursor_visible == old(self).cursor_visible,
    {
        self.cursor_position = cursor.position;
        self.cursor_offset = cursor.offset;
        self.desired_cursor_offset = cursor.desired_offset;
        self.current_element_type = cursor.element_type;
    }

    /// Applies one command to the document and the cursor together. The
    /// session invariant is preserved, and the rest of the document's
    /// metadata is untouched.
    pub fn update(&mut self, message: Message)
        requires
            app_inv(*old(self)),
        ensures
            app_inv(*final(self)),
            ({
                let step = update_spec(*old(self), message);
                &&& app_cursor(*final(self)) == step.cursor
                &&& app_elems(*final(self)) == step.elements
                &&& final(self).screenplay.modified == step.modified
                &&& final(self).cursor_visible == step.cursor_visible
                &&& same_meta(final(self).screenplay, old(self).screenplay)
            }),
    {
        match message {
            Message::Tick => {
                self.cursor_visible = !self.cursor_visible;
            },
            Message::TabPressed => {
                let t = next_element_type(self.current_element_type);
                self.current_element_type = t;
                match self.screenplay.get_element_mut(self.cursor_position) {
                    Some(element) => {
                        element.element_type = t;
                    },
                    None => {},
                }
                proof {
                    let step = update_spec(*old(self), message);
                    assert(app_elems(*self) =~~= step.elements);
                }
            },
            Message::EnterPressed => {
                let count = self.screenplay.element_count();
                proof {
                    // The invariant puts the cursor on an existing element,
                    // so stepping one past it stays within bounds.
                    assert(self.cursor_position < count);
                }
                let detected = match self.screenplay.get_element(self.cursor_position) {
                    Some(element) => {
                        let content = element.content_string();
                        detect_next_element_type(self.current_element_type, content.as_str())
                    },
                    None => self.current_element_type,
                };
                self.current_element_type = detected;
                let element = Element::empty(detected);
                self.screenplay.insert_element(self.cursor_position + 1, element);
                self.cursor_position += 1;
                self.cursor_offset = 0;
                self.desired_cursor_offset = 0;
                proof {
                    let step = update_spec(*old(self), message);
                    assert(app_elems(*self) =~~= step.elements);
                }
            },
            Message::CharacterTyped(ch) => {
                let mut cursor = self.cursor_state();
                cursor.insert_char(&mut self.screenplay, ch);
                self.apply_cursor_state(cursor);
                proof {
                    assert(app_inv(*self));
                }
            },
            Message::BackspacePressed => {
                let mut cursor = self.cursor_state();
                cursor.backspace(&mut self.screenplay);
                self.apply_cursor_state(cursor);
                proof {
                    assert(app_inv(*self));
                }
            },
            Message::DeletePressed => {
                let mut cursor = self.cursor_state();
                cursor.delete(&mut self.screenplay);
                self.apply_cursor_state(cursor);
                proof {
                    assert(app_inv(*self));
                }
            },
            Message::ArrowLeft => {
                let mut cursor = self.cursor_state();
                cursor.move_left();
                self.apply_cursor_state(cursor);
                proof {
                    assert(app_inv(*self));
                }
            },
            Message::ArrowRight => {
                let mut cursor = self.cursor_state();
                cursor.move_right(&self.screenplay);
                self.apply_cursor_state(cursor);
                proof {
                    assert(app_inv(*self));
                }
            },
            Message::ArrowUp => {
                let mut cursor = self.cursor_state();
                cursor.move_up(&self.screenplay);
                self.apply_cursor_state(cursor);
                proof {
                    assert(app_inv(*self));
                }
            },
            Message::ArrowDown => {
                let mut cursor = self.cursor_state();
                cursor.move_down(&self.screenplay);
                self.apply_cursor_state(cursor);
                proof {
                    assert(app_inv(*self));
                }
            },
        }
    }
}

impl Default for App {
    /// A fresh session: an untitled document holding one empty action
    /// line, with the cursor at its start.
    fn default() -> (a: Self)
        ensures
            app_inv(a),
            a.screenplay.title@ == "Untitled"@,
            a.screenplay.author is None,
            a.screenplay.contact is None,
            a.screenplay.elements@.len() == 1,
            app_elems(a)[0].element_type == ElementType::Action,
            app_elems(a)[0].content.len() == 0,
            a.current_element_type == ElementType::Action,
            a.cursor_position == 0,
            a.cursor_offset == 0,
            a.desired_cursor_offset == 0,
            a.cursor_visible,
    {
        let mut screenplay = Screenplay::empty();
        screenplay.add_element(Element::empty(ElementType::Action));
        App {
            screenplay,
            current_element_type: ElementType::Action,
            cursor_position: 0,
            cursor_offset: 0,
            cursor_visible: true,
            desired_cursor_offset: 0,
        }
    }
}

} // verus!
