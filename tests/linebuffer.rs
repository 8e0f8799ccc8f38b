use linebuffer::{BufferError, Editor, Effect, Event, History, KeyCode, LineBuffer, State};

fn key(code: KeyCode) -> Event {
    Event::Key { code, ctrl: false, alt: false }
}

fn alt(code: KeyCode) -> Event {
    Event::Key { code, ctrl: false, alt: true }
}

fn type_text(ed: &mut Editor, s: &str) {
    for c in s.chars() {
        ed.handle(key(KeyCode::Char(c)));
    }
}

fn buffer_with(s: &str, caret: usize) -> LineBuffer {
    let mut b = LineBuffer::new();
    b.set_buffer(String::from(s));
    b.set_insertion_pos(caret);
    b
}

#[test]
fn new_buffer_is_empty() {
    let b = LineBuffer::new();
    assert!(b.is_buffer_empty());
    assert_eq!(b.get_buffer_len(), 0);
    assert_eq!(b.get_insertion_pos(), 0);
    assert_eq!(b.get_buffer(), "");
}

#[test]
fn alt_left_twice_from_end() {
    let mut b = buffer_with("ab cd", 5);
    assert_eq!(b.move_word_left(), 3);
    assert_eq!(b.get_insertion_pos(), 3);
    assert_eq!(b.move_word_left(), 0);
    assert_eq!(b.get_insertion_pos(), 0);
}

#[test]
fn alt_left_twice_through_editor() {
    let mut ed = Editor::new(10, true);
    type_text(&mut ed, "ab cd");
    assert_eq!(ed.buffer().get_insertion_pos(), 5);
    assert_eq!(ed.handle(alt(KeyCode::Left)), Effect::MoveCaret(3));
    assert_eq!(ed.handle(alt(KeyCode::Left)), Effect::MoveCaret(0));
    assert_eq!(ed.handle(alt(KeyCode::Left)), Effect::Nothing);
}

#[test]
fn word_right_moves_past_next_separator() {
    let mut b = buffer_with("ab cd\tef", 0);
    assert_eq!(b.move_word_right(), 3);
    assert_eq!(b.move_word_right(), 6);
    assert_eq!(b.move_word_right(), 8);
}

#[test]
fn word_moves_at_edges_are_no_ops() {
    let mut b = buffer_with("ab cd", 0);
    assert_eq!(b.move_word_left(), 0);
    assert_eq!(b.get_buffer(), "ab cd");
    b.move_to_end();
    assert_eq!(b.move_word_right(), 5);
    assert_eq!(b.get_insertion_pos(), 5);
}

#[test]
fn retreat_over_two_byte_character() {
    let mut ed = Editor::new(10, true);
    type_text(&mut ed, "h\u{e9}llo");
    assert_eq!(ed.buffer().get_buffer(), "h\u{e9}llo");
    assert_eq!(ed.buffer().get_insertion_pos(), 6);
    let mut b = buffer_with(ed.buffer().get_buffer(), 6);
    b.dec_insertion_pos();
    assert_eq!(b.get_insertion_pos(), 5);
    b.dec_insertion_pos();
    assert_eq!(b.get_insertion_pos(), 4);
    b.dec_insertion_pos();
    // just after the two bytes of the accented letter, before "llo"
    assert_eq!(b.get_insertion_pos(), 3);
    assert!(b.get_buffer().is_char_boundary(b.get_insertion_pos()));
}

#[test]
fn retreat_skips_second_grapheme_start() {
    let mut b = buffer_with("abc", 1);
    b.dec_insertion_pos();
    assert_eq!(b.get_insertion_pos(), 0);
    let mut b = buffer_with("abc", 2);
    b.dec_insertion_pos();
    assert_eq!(b.get_insertion_pos(), 1);
}

#[test]
fn advance_steps_over_grapheme_clusters() {
    // "a" + combining ring, then "b": the first cluster is 3 bytes long
    let mut b = buffer_with("a\u{30a}b", 0);
    b.inc_insertion_pos();
    assert_eq!(b.get_insertion_pos(), 3);
    b.inc_insertion_pos();
    assert_eq!(b.get_insertion_pos(), 4);
    b.inc_insertion_pos();
    assert_eq!(b.get_insertion_pos(), 4);
}

#[test]
fn grapheme_indices_of_mixed_text() {
    let b = buffer_with("a\u{310}\u{e9}\r\n", 0);
    assert_eq!(b.get_grapheme_indices(), vec![0, 3, 5]);
    let e = LineBuffer::new();
    assert_eq!(e.get_grapheme_indices(), Vec::<usize>::new());
}

#[test]
fn grapheme_neighbours_of_caret() {
    let b = buffer_with("h\u{e9}llo", 3);
    assert_eq!(b.get_grapheme_idx_left(), 1);
    assert_eq!(b.get_grapheme_idx_right(), 4);
    let b = buffer_with("h\u{e9}llo", 0);
    assert_eq!(b.get_grapheme_idx_left(), 0);
    assert_eq!(b.get_grapheme_idx_right(), 1);
    let b = buffer_with("h\u{e9}llo", 6);
    assert_eq!(b.get_grapheme_idx_left(), 5);
    assert_eq!(b.get_grapheme_idx_right(), 6);
}

#[test]
fn insert_then_remove_restores() {
    let mut b = buffer_with("hllo", 1);
    b.insert_char(1, '\u{e9}');
    assert_eq!(b.get_buffer(), "h\u{e9}llo");
    assert_eq!(b.get_insertion_pos(), 1);
    assert_eq!(b.remove_char(1), Ok('\u{e9}'));
    assert_eq!(b.get_buffer(), "hllo");
    assert_eq!(b.get_insertion_pos(), 1);
}

#[test]
fn remove_char_errors() {
    let mut b = buffer_with("h\u{e9}", 0);
    assert_eq!(b.remove_char(3), Err(BufferError::OutOfRange));
    assert_eq!(b.remove_char(7), Err(BufferError::OutOfRange));
    assert_eq!(b.remove_char(2), Err(BufferError::NotCharBoundary));
    assert_eq!(b.get_buffer(), "h\u{e9}");
}

#[test]
fn pop_and_slice() {
    let mut b = buffer_with("ab\u{e9}", 0);
    assert_eq!(b.slice_buffer(1), "b\u{e9}");
    assert_eq!(b.pop(), Some('\u{e9}'));
    assert_eq!(b.pop(), Some('b'));
    assert_eq!(b.pop(), Some('a'));
    assert_eq!(b.pop(), None);
    b.set_buffer(String::from("xyz"));
    b.clear_buffer();
    assert!(b.is_buffer_empty());
}

#[test]
fn backspace_and_delete() {
    let mut ed = Editor::new(10, true);
    type_text(&mut ed, "abc");
    assert_eq!(ed.handle(key(KeyCode::Backspace)), Effect::Repaint(2));
    assert_eq!(ed.buffer().get_buffer(), "ab");
    assert_eq!(ed.handle(key(KeyCode::Home)), Effect::MoveCaret(0));
    assert_eq!(ed.handle(key(KeyCode::Delete)), Effect::Repaint(0));
    assert_eq!(ed.buffer().get_buffer(), "b");
    assert_eq!(ed.handle(key(KeyCode::End)), Effect::Repaint(1));
    assert_eq!(ed.handle(key(KeyCode::Delete)), Effect::Nothing);
}

#[test]
fn enter_exit_terminates_without_history() {
    let mut ed = Editor::new(10, true);
    type_text(&mut ed, "exit");
    assert_eq!(ed.handle(key(KeyCode::Enter)), Effect::Terminated);
    assert_eq!(ed.state(), State::Terminated);
    assert!(ed.history().is_empty());
    assert_eq!(ed.handle(key(KeyCode::Char('x'))), Effect::Nothing);
}

#[test]
fn ctrl_d_terminates() {
    let mut ed = Editor::new(10, true);
    let ev = Event::Key { code: KeyCode::Char('d'), ctrl: true, alt: false };
    assert_eq!(ed.handle(ev), Effect::Terminated);
    assert_eq!(ed.state(), State::Terminated);
}

#[test]
fn enter_submits_and_records() {
    let mut ed = Editor::new(10, true);
    type_text(&mut ed, "ls");
    assert_eq!(ed.handle(key(KeyCode::Enter)), Effect::Submitted(String::from("ls")));
    assert_eq!(ed.buffer().get_buffer(), "");
    assert_eq!(ed.buffer().get_insertion_pos(), 0);
    assert_eq!(ed.history().get(0), Some(String::from("ls")));
    assert_eq!(ed.state(), State::Prompting);
}

#[test]
fn empty_lines_recorded_only_when_asked() {
    let mut ed = Editor::new(10, false);
    assert_eq!(ed.handle(key(KeyCode::Enter)), Effect::Submitted(String::new()));
    assert!(ed.history().is_empty());
    let mut ed = Editor::new(10, true);
    ed.handle(key(KeyCode::Enter));
    assert_eq!(ed.history().len(), 1);
}

#[test]
fn up_on_empty_history_does_nothing() {
    let mut ed = Editor::new(10, true);
    type_text(&mut ed, "ab");
    assert_eq!(ed.handle(key(KeyCode::Up)), Effect::Nothing);
    assert_eq!(ed.buffer().get_buffer(), "ab");
    assert_eq!(ed.buffer().get_insertion_pos(), 2);
}

#[test]
fn history_evicts_oldest() {
    let mut h = History::new(100);
    for i in 0..101 {
        h.push(format!("line{}", i));
    }
    assert_eq!(h.len(), 100);
    assert_eq!(h.get(0), Some(String::from("line100")));
    assert_eq!(h.get(99), Some(String::from("line1")));
    assert_eq!(h.get(100), None);
}

#[test]
fn browsing_up_reaches_oldest_and_stays() {
    let mut h = History::new(10);
    h.push(String::from("a"));
    h.push(String::from("b"));
    h.push(String::from("c"));
    assert_eq!(h.browse_up(), Some(String::from("c")));
    assert_eq!(h.browse_up(), Some(String::from("b")));
    assert_eq!(h.browse_up(), Some(String::from("a")));
    assert_eq!(h.browse_cursor(), Some(2));
    assert_eq!(h.browse_up(), None);
    assert_eq!(h.browse_cursor(), Some(2));
}

#[test]
fn browsing_down() {
    let mut h = History::new(10);
    h.push(String::from("a"));
    h.push(String::from("b"));
    h.push(String::from("c"));
    assert_eq!(h.browse_down(), None);
    assert_eq!(h.browse_cursor(), None);
    h.browse_up();
    h.browse_up();
    h.browse_up();
    assert_eq!(h.browse_down(), Some(String::from("b")));
    assert_eq!(h.browse_cursor(), Some(1));
    assert_eq!(h.browse_down(), Some(String::from("c")));
    assert_eq!(h.browse_down(), Some(String::new()));
    assert_eq!(h.browse_cursor(), None);
}

#[test]
fn up_and_down_through_editor() {
    let mut ed = Editor::new(10, true);
    type_text(&mut ed, "one");
    ed.handle(key(KeyCode::Enter));
    type_text(&mut ed, "two");
    ed.handle(key(KeyCode::Enter));
    assert_eq!(ed.handle(key(KeyCode::Up)), Effect::Repaint(3));
    assert_eq!(ed.buffer().get_buffer(), "two");
    ed.handle(key(KeyCode::Up));
    assert_eq!(ed.buffer().get_buffer(), "one");
    assert_eq!(ed.handle(key(KeyCode::Up)), Effect::Nothing);
    ed.handle(key(KeyCode::Down));
    assert_eq!(ed.buffer().get_buffer(), "two");
    assert_eq!(ed.handle(key(KeyCode::Down)), Effect::Repaint(0));
    assert_eq!(ed.buffer().get_buffer(), "");
    assert_eq!(ed.handle(key(KeyCode::Down)), Effect::Nothing);
}

#[test]
fn resize_and_paste() {
    let mut ed = Editor::new(10, true);
    type_text(&mut ed, "x");
    assert_eq!(ed.handle(Event::Resize(80, 24)), Effect::Interrupted(80, 24));
    assert_eq!(ed.handle(Event::Paste(String::from("yz"))), Effect::Nothing);
    assert_eq!(ed.buffer().get_buffer(), "x");
}
