//! Editing core of an interactive single-line prompt: a grapheme-aware text
//! buffer with a caret, a bounded history of submitted lines, and the state
//! machine that turns input events into edits and redraw requests.
use vstd::prelude::*;

pub mod editor;
pub mod history;
pub mod linebuffer;

pub use editor::{Editor, Effect, Event, KeyCode, State};
pub use history::{History, HISTORY_SIZE};
pub use linebuffer::{BufferError, LineBuffer};

verus! {

} // verus!
