use crate::history::History;
use crate::linebuffer::LineBuffer;
use vstd::prelude::*;
use vstd::utf8::*;

verus! {

/// The key of a key press.
#[derive(Clone, Copy, Debug, PartialEq, Eq)]
pub enum KeyCode {
    Char(char),
    Backspace,
    Delete,
    Left,
    Right,
    Up,
    Down,
    Home,
    End,
    Enter,
    Other,
}

/// One input event. `ctrl` and `alt` are set when that modifier, and no
/// other, was held.
#[derive(Clone, Debug, PartialEq, Eq)]
pub enum Event {
    Key { code: KeyCode, ctrl: bool, alt: bool },
    Resize(u16, u16),
    Paste(String),
    Mouse,
}

/// What the front end is asked to do after an event.
#[derive(Clone, Debug, PartialEq, Eq)]
pub enum Effect {
    /// Nothing to draw.
    Nothing,
    /// Redraw the line, with the terminal caret at this byte offset.
    Repaint(usize),
    /// Only move the terminal caret to this offset.
    MoveCaret(usize),
    /// A line was submitted; a fresh prompt follows.
    Submitted(String),
    /// The terminal was resized; the current prompt is abandoned.
    Interrupted(u16, u16),
    /// The session is over.
    Terminated,
}

#[derive(Clone, Copy, Debug, PartialEq, Eq, Structural)]
pub enum State {
    Prompting,
    Terminated,
}

/// The bytes of the line that ends the session.
pub open spec fn exit_bytes() -> Seq<u8> {
    seq![0x65u8, 0x78u8, 0x69u8, 0x74u8]
}

/// Whether `s` is the line that ends the session.
pub fn is_exit_line(s: &str) -> (r: bool)
    ensures
        r == (encode_utf8(s@) == exit_bytes()),
{
    let b = s.as_bytes();
    let r = b.len() == 4 && b[0] == 0x65u8 && b[1] == 0x78u8 && b[2] == 0x69u8 && b[3] == 0x74u8;
    proof {
        if r {
            assert(b@ =~= exit_bytes());
        }
    }
    r
}

/// The editing session: the line, the history, and whether it is over.
pub struct Editor {
    buffer: LineBuffer,
    history: History,
    state: State,
    keep_empty_lines: bool,
}

impl Editor {
    pub closed spec fn line(&self) -> LineBuffer {
        self.buffer
    }

    pub closed spec fn hist(&self) -> History {
        self.history
    }

    pub closed spec fn state_of(&self) -> State {
        self.state
    }

    /// Whether an empty line is put in the history when submitted.
    pub closed spec fn keeps_empty_lines(&self) -> bool {
        self.keep_empty_lines
    }

    pub open spec fn wf(&self) -> bool {
        self.hist().wf()
    }

    /// A session waiting for input, with an empty line and an empty history
    /// of the given capacity.
    pub fn new(capacity: usize, keep_empty_lines: bool) -> (r: Editor)
        requires
            capacity > 0,
        ensures
            r.wf(),
            r.state_of() == State::Prompting,
            r.line().text() == Seq::<char>::empty(),
            r.line().caret() == 0,
            r.hist().entries() == Seq::<Seq<char>>::empty(),
            r.hist().cursor() is None,
            r.hist().capacity() == capacity,
            r.keeps_empty_lines() == keep_empty_lines,
    {
        Editor {
            buffer: LineBuffer::new(),
            history: History::new(capacity),
            state: State::Prompting,
            keep_empty_lines,
        }
    }

    pub fn buffer(&self) -> (r: &LineBuffer)
        ensures
            *r == self.line(),
    {
        &self.buffer
    }

    pub fn history(&self) -> (r: &History)
        ensures
            *r == self.hist(),
    {
        &self.history
    }

    pub fn state(&self) -> (r: State)
        ensures
            r == self.state_of(),
    {
        self.state
    }

    /// Handles one key press while prompting.
    fn handle_key(&mut self, code: KeyCode, ctrl: bool, alt: bool) -> (r: Effect)
        requires
            old(self).wf(),
            old(self).state_of() == State::Prompting,
        ensures
            final(self).wf(),
            final(self).keeps_empty_lines() == old(self).keeps_empty_lines(),
            final(self).hist().capacity() == old(self).hist().capacity(),
            key_effect(*old(self), code, ctrl, alt, *final(self), r),
    {
        let len = self.buffer.get_buffer_len();
        let caret = self.buffer.get_insertion_pos();
        match code {
            KeyCode::Char(c) => {
                if ctrl {
                    if c == 'd' {
                        self.state = State::Terminated;
                        return Effect::Terminated;
                    }
                    return Effect::Nothing;
                }
                if caret > len || !self.buffer.get_buffer().is_char_boundary(caret) {
                    return Effect::Nothing;
                }
                self.buffer.insert_char(caret, c);
                self.buffer.inc_insertion_pos();
                Effect::Repaint(self.buffer.get_insertion_pos())
            },
            KeyCode::Backspace => {
                if self.buffer.is_buffer_empty() || caret > len {
                    return Effect::Nothing;
                }
                if caret == len {
                    self.buffer.dec_insertion_pos();
                    self.buffer.pop();
                } else {
                    self.buffer.dec_insertion_pos();
                    let at = self.buffer.get_insertion_pos();
                    let _ = self.buffer.remove_char(at);
                }
                Effect::Repaint(self.buffer.get_insertion_pos())
            },
            KeyCode::Delete => {
                if caret < len {
                    let _ = self.buffer.remove_char(caret);
                    Effect::Repaint(caret)
                } else {
                    Effect::Nothing
                }
            },
            KeyCode::Left => {
                if caret == 0 {
                    return Effect::Nothing;
                }
                if alt {
                    Effect::MoveCaret(self.buffer.move_word_left())
                } else {
                    self.buffer.dec_insertion_pos();
                    Effect::Repaint(self.buffer.get_insertion_pos())
                }
            },
            KeyCode::Right => {
                if caret >= len {
                    return Effect::Nothing;
                }
                if alt {
                    Effect::MoveCaret(self.buffer.move_word_right())
                } else {
                    self.buffer.inc_insertion_pos();
                    Effect::Repaint(self.buffer.get_insertion_pos())
                }
            },
            KeyCode::Home => {
                self.buffer.set_insertion_pos(0);
                Effect::MoveCaret(0)
            },
            KeyCode::End => {
                self.buffer.set_insertion_pos(len);
                Effect::Repaint(len)
            },
            KeyCode::Enter => {
                if is_exit_line(self.buffer.get_buffer()) {
                    self.state = State::Terminated;
                    return Effect::Terminated;
                }
                let line = self.buffer.get_buffer().to_owned();
                if self.keep_empty_lines || !self.buffer.is_buffer_empty() {
                    self.history.push(line.clone());
                }
                self.buffer.clear_buffer();
                self.buffer.set_insertion_pos(0);
                Effect::Submitted(line)
            },
            KeyCode::Up => {
                match self.history.browse_up() {
                    Some(entry) => {
                        self.buffer.set_buffer(entry);
                        self.buffer.move_to_end();
                        Effect::Repaint(self.buffer.get_insertion_pos())
                    },
                    None => Effect::Nothing,
                }
            },
            KeyCode::Down => {
                match self.history.browse_down() {
                    Some(entry) => {
                        self.buffer.set_buffer(entry);
                        self.buffer.move_to_end();
                        Effect::Repaint(self.buffer.get_insertion_pos())
                    },
                    None => Effect::Nothing,
                }
            },
            KeyCode::Other => Effect::Nothing,
        }
    }

    /// Handles one input event and says what the front end should do next.
    /// Once the session is over, events change nothing.
    pub fn handle(&mut self, event: Event) -> (r: Effect)
        requires
            old(self).wf(),
        ensures
            final(self).wf(),
            final(self).keeps_empty_lines() == old(self).keeps_empty_lines(),
            final(self).hist().capacity() == old(self).hist().capacity(),
            old(self).state_of() == State::Terminated ==> *final(self) == *old(self) && r
                == Effect::Nothing,
            old(self).state_of() == State::Prompting ==> match event {
                Event::Key { code, ctrl, alt } => key_effect(
                    *old(self),
                    code,
                    ctrl,
                    alt,
                    *final(self),
                    r,
                ),
                Event::Resize(w, h) => *final(self) == *old(self) && r == Effect::Interrupted(w, h),
                _ => *final(self) == *old(self) && r == Effect::Nothing,
            },
    {
        if self.state == State::Terminated {
            return Effect::Nothing;
        }
        match event {
            Event::Key { code, ctrl, alt } => self.handle_key(code, ctrl, alt),
            Event::Resize(w, h) => Effect::Interrupted(w, h),
            _ => Effect::Nothing,
        }
    }
}

/// The session is over; the line and the history stay as they were.
pub open spec fn ends(a: Editor, b: Editor) -> bool {
    &&& b.line() == a.line()
    &&& b.hist() == a.hist()
    &&& b.state_of() == State::Terminated
}

/// The rest of the state stays as it was, but for the line.
pub open spec fn only_line_changes(a: Editor, b: Editor) -> bool {
    &&& b.hist() == a.hist()
    &&& b.state_of() == a.state_of()
}

/// What a key press does while prompting: `a` before, `b` after, `r` the effect.
pub open spec fn key_effect(a: Editor, code: KeyCode, ctrl: bool, alt: bool, b: Editor, r: Effect) -> bool {
    let t = a.line().text();
    let bytes = a.line().bytes();
    let len = bytes.len() as int;
    let caret = a.line().caret();
    let g = a.line().graphemes();
    match code {
        KeyCode::Char(c) => if ctrl {
            if c == 'd' {
                ends(a, b) && r == Effect::Terminated
            } else {
                b == a && r == Effect::Nothing
            }
        } else if caret <= len && is_char_boundary(bytes, caret as int) {
            &&& only_line_changes(a, b)
            &&& b.line().bytes() == bytes.take(caret as int) + encode_utf8(seq![c]) + bytes.skip(caret as int)
            &&& b.line().caret() == crate::linebuffer::advance_target(
                b.line().graphemes(),
                caret,
                b.line().bytes().len() as int,
            )
            &&& b.line().caret_on_boundary()
            &&& r == Effect::Repaint(b.line().caret())
        } else {
            b == a && r == Effect::Nothing
        },
        KeyCode::Backspace => if t.len() == 0 || caret > len {
            b == a && r == Effect::Nothing
        } else {
            let at = crate::linebuffer::retreat_target(g, caret, len);
            &&& only_line_changes(a, b)
            &&& b.line().caret() == at
            &&& caret == len ==> b.line().text() == t.drop_last()
            &&& caret < len && is_char_boundary(bytes, at) ==> b.line().bytes() == bytes.take(at)
                + bytes.skip(at + length_of_first_scalar(bytes.skip(at)))
            &&& caret < len && !is_char_boundary(bytes, at) ==> b.line().text() == t
            &&& r == Effect::Repaint(b.line().caret())
        },
        KeyCode::Delete => if caret < len {
            &&& only_line_changes(a, b)
            &&& b.line().caret() == caret
            &&& is_char_boundary(bytes, caret as int) ==> b.line().bytes() == bytes.take(
                caret as int,
            ) + bytes.skip(caret + length_of_first_scalar(bytes.skip(caret as int)))
            &&& r == Effect::Repaint(caret)
        } else {
            b == a && r == Effect::Nothing
        },
        KeyCode::Left => if caret == 0 {
            b == a && r == Effect::Nothing
        } else if alt {
            let to = crate::linebuffer::word_left_target(bytes, caret as int);
            &&& only_line_changes(a, b)
            &&& b.line().text() == t
            &&& b.line().caret() == to
            &&& r == Effect::MoveCaret(to as usize)
        } else {
            &&& only_line_changes(a, b)
            &&& b.line().text() == t
            &&& b.line().caret() == crate::linebuffer::retreat_target(g, caret, len)
            &&& r == Effect::Repaint(b.line().caret())
        },
        KeyCode::Right => if caret >= len {
            b == a && r == Effect::Nothing
        } else if alt {
            let to = crate::linebuffer::word_right_target(bytes, caret as int);
            &&& only_line_changes(a, b)
            &&& b.line().text() == t
            &&& b.line().caret() == to
            &&& r == Effect::MoveCaret(to as usize)
        } else {
            &&& only_line_changes(a, b)
            &&& b.line().text() == t
            &&& b.line().caret() == crate::linebuffer::advance_target(g, caret, len)
            &&& r == Effect::Repaint(b.line().caret())
        },
        KeyCode::Home => {
            &&& only_line_changes(a, b)
            &&& b.line().text() == t
            &&& b.line().caret() == 0
            &&& r == Effect::MoveCaret(0)
        },
        KeyCode::End => {
            &&& only_line_changes(a, b)
            &&& b.line().text() == t
            &&& b.line().caret() == len
            &&& r == Effect::Repaint(len as usize)
        },
        KeyCode::Enter => if bytes == exit_bytes() {
            ends(a, b) && r == Effect::Terminated
        } else {
            &&& b.state_of() == State::Prompting
            &&& b.line().text() == Seq::<char>::empty()
            &&& b.line().caret() == 0
            &&& r is Submitted && r->Submitted_0@ == t
            &&& if a.keeps_empty_lines() || t.len() > 0 {
                &&& b.hist().entries() == crate::history::pushed(
                    a.hist().entries(),
                    t,
                    a.hist().capacity(),
                )
                &&& b.hist().cursor() is None
            } else {
                b.hist() == a.hist()
            }
        },
        KeyCode::Up => {
            &&& b.state_of() == State::Prompting
            &&& b.hist().entries() == a.hist().entries()
            &&& if b.hist().cursor() == a.hist().cursor() {
                b.line() == a.line() && r == Effect::Nothing
            } else {
                &&& b.hist().cursor() is Some
                &&& b.line().text() == b.hist().entries()[b.hist().cursor()->Some_0 as int]
                &&& b.line().caret() == b.line().bytes().len()
                &&& r == Effect::Repaint(b.line().caret())
            }
            &&& a.hist().entries().len() > 0 && a.hist().cursor() is None ==> b.hist().cursor()
                == Some(0usize)
            &&& a.hist().cursor() is Some ==> if a.hist().cursor()->Some_0 + 1 < a.hist().entries().len() {
                b.hist().cursor() == Some((a.hist().cursor()->Some_0 + 1) as usize)
            } else {
                b.hist().cursor() == a.hist().cursor()
            }
        },
        KeyCode::Down => {
            &&& b.state_of() == State::Prompting
            &&& b.hist().entries() == a.hist().entries()
            &&& if a.hist().cursor() is None {
                b == a && r == Effect::Nothing
            } else {
                let i = a.hist().cursor()->Some_0;
                &&& b.hist().cursor() == if i == 0 {
                    None
                } else {
                    Some((i - 1) as usize)
                }
                &&& b.line().text() == if i == 0 {
                    Seq::<char>::empty()
                } else {
                    a.hist().entries()[i - 1]
                }
                &&& b.line().caret() == b.line().bytes().len()
                &&& r == Effect::Repaint(b.line().caret())
            }
        },
        KeyCode::Other => b == a && r == Effect::Nothing,
    }
}

} // verus!
