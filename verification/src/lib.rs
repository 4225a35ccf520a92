//! A structured screenplay editor core: a document made of typed elements
//! (scene headings, action, dialogue, and so on), pure element-type
//! transition rules, and a cursor-driven editing state machine that applies
//! abstract commands to the document.

pub mod cursor;
pub mod display;
pub mod element;
pub mod error;
pub mod json;
pub mod screenplay;
pub mod session;
pub mod text;
pub mod transitions;

pub use cursor::CursorState;
pub use display::ScreenplayEditor;
pub use element::{Element, ElementType};
pub use error::ScreenplayError;
pub use screenplay::Screenplay;
pub use session::{App, Message};
pub use transitions::{detect_next_element_type, next_element_type};
