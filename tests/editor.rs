use rust_editor::editor::Editor;
use rust_editor::keys::{Action, Key, KeyEvent, KeyKind, ALT, CONTROL};
use rust_editor::search::{find_folded, search_lines};
use rust_editor::frame::display_line;
use rust_editor::text::{join_lines, split_lines};

fn chars(s: &str) -> Vec<char> {
    s.chars().collect()
}

fn text(lines: &[&str]) -> Vec<Vec<char>> {
    lines.iter().map(|l| chars(l)).collect()
}

fn press(code: Key) -> KeyEvent {
    KeyEvent { code, modifiers: 0, kind: KeyKind::Press }
}

fn press_with(code: Key, modifiers: u8) -> KeyEvent {
    KeyEvent { code, modifiers, kind: KeyKind::Press }
}

fn loaded(body: &str) -> Editor {
    let mut e = Editor::new(24, 80);
    e.load(&chars(body), chars("file.txt"));
    e
}

#[test]
fn new_editor_has_one_empty_line() {
    let e = Editor::new(24, 80);
    assert_eq!(e.lines(), text(&[""]));
    assert_eq!(e.cursor(), (0, 0));
    assert!(!e.is_dirty());
    assert_eq!(e.filename(), None);
}

#[test]
fn enter_at_end_of_line_opens_empty_line() {
    let mut e = loaded("abc");
    for _ in 0..3 {
        e.move_right();
    }
    assert_eq!(e.cursor(), (0, 3));
    let a = e.process_keypress(press(Key::Enter), 1000);
    assert_eq!(a, Action::Continue);
    assert_eq!(e.lines(), text(&["abc", ""]));
    assert_eq!(e.cursor(), (1, 0));
    assert!(e.is_dirty());
}

#[test]
fn backspace_at_line_start_joins_lines() {
    let mut e = loaded("ab\ncd");
    e.move_down();
    assert_eq!(e.cursor(), (1, 0));
    e.process_keypress(press(Key::Backspace), 1000);
    assert_eq!(e.lines(), text(&["abcd"]));
    assert_eq!(e.cursor(), (0, 2));
}

#[test]
fn backspace_at_origin_changes_nothing() {
    let mut e = loaded("ab");
    e.backspace();
    assert_eq!(e.lines(), text(&["ab"]));
    assert_eq!(e.cursor(), (0, 0));
    assert!(!e.is_dirty());
}

#[test]
fn search_cycles_through_matches() {
    let mut e = loaded("abc\nxyz\nabd");
    e.set_query(chars("b"));
    assert_eq!(e.search_results(), vec![(0, 1), (2, 1)]);
    assert_eq!(e.cursor(), (0, 1));
    e.next_match();
    assert_eq!(e.cursor(), (2, 1));
    e.next_match();
    assert_eq!(e.cursor(), (0, 1));
    assert_eq!(e.current_match(), 0);
}

#[test]
fn save_without_filename_is_noop() {
    let mut e = Editor::new(24, 80);
    e.insert_char('x');
    assert!(e.is_dirty());
    let a = e.process_keypress(press_with(Key::Char('s'), ALT), 1000);
    assert_eq!(a, Action::Save);
    assert!(e.save_request().is_none());
    assert!(e.is_dirty());
    assert_eq!(e.lines(), text(&["x"]));
}

#[test]
fn save_request_joins_lines() {
    let mut e = loaded("a\nb");
    e.insert_char('z');
    let (name, data) = e.save_request().unwrap();
    assert_eq!(name, chars("file.txt"));
    assert_eq!(data, chars("za\nb"));
    e.mark_saved();
    assert!(!e.is_dirty());
}

#[test]
fn undo_restores_state_before_keystroke_and_redo_after() {
    let mut e = loaded("hello");
    e.move_right();
    e.move_right();
    let before = (e.lines(), e.cursor());
    e.process_keypress(press(Key::Char('X')), 1000);
    let after = (e.lines(), e.cursor());
    assert_eq!(after, (text(&["heXllo"]), (0, 3)));
    e.process_keypress(press_with(Key::Char('z'), CONTROL), 2000);
    assert_eq!((e.lines(), e.cursor()), before);
    e.process_keypress(press_with(Key::Char('x'), CONTROL), 3000);
    assert_eq!((e.lines(), e.cursor()), after);
}

#[test]
fn undo_of_enter_and_backspace() {
    let mut e = loaded("ab\ncd");
    e.move_right();
    e.enter();
    assert_eq!(e.lines(), text(&["a", "b", "cd"]));
    e.undo();
    assert_eq!(e.lines(), text(&["ab", "cd"]));
    assert_eq!(e.cursor(), (0, 1));
    e.move_down();
    e.backspace();
    e.undo();
    assert_eq!(e.lines(), text(&["ab", "cd"]));
}

#[test]
fn edit_after_undo_clears_redo() {
    let mut e = Editor::new(24, 80);
    e.insert_char('a');
    e.insert_char('b');
    e.undo();
    assert_eq!(e.redo_depth(), 1);
    e.insert_char('c');
    assert_eq!(e.redo_depth(), 0);
    let state = (e.lines(), e.cursor());
    e.redo();
    assert_eq!((e.lines(), e.cursor()), state);
    assert_eq!(e.lines(), text(&["ac"]));
}

#[test]
fn undo_with_empty_history_is_noop() {
    let mut e = loaded("q");
    e.undo();
    e.redo();
    assert_eq!(e.lines(), text(&["q"]));
    assert!(!e.is_dirty());
}

#[test]
fn empty_query_finds_nothing_and_keeps_cursor() {
    let mut e = loaded("abc\nabc");
    e.move_down();
    e.move_right();
    e.set_query(Vec::new());
    assert!(e.search_results().is_empty());
    assert_eq!(e.cursor(), (1, 1));
}

#[test]
fn search_is_case_insensitive() {
    let mut e = loaded("Hello\nsay HELLO");
    e.set_query(chars("hElLo"));
    assert_eq!(e.search_results(), vec![(0, 0), (1, 4)]);
}

#[test]
fn search_matches_do_not_overlap() {
    let r = search_lines(&text(&["aaaa", "xaax"]), &chars("aa"));
    assert_eq!(r, vec![(0, 0), (0, 2), (1, 1)]);
}

#[test]
fn search_without_match_keeps_cursor() {
    let mut e = loaded("abc");
    e.move_right();
    e.set_query(chars("zz"));
    assert!(e.search_results().is_empty());
    assert_eq!(e.cursor(), (0, 1));
}

#[test]
fn find_folded_scans_left_to_right() {
    let t = vec![vec!['a'], vec!['b'], vec!['a'], vec!['b'], vec!['a']];
    let q = vec![vec!['a'], vec!['b']];
    assert_eq!(find_folded(&t, &q), vec![0, 2]);
    assert!(find_folded(&t, &Vec::new()).is_empty());
    let long = vec![vec!['a'], vec!['b'], vec!['a'], vec!['b'], vec!['a'], vec!['b']];
    assert!(find_folded(&q, &long).is_empty());
}

#[test]
fn search_mode_keys() {
    let mut e = loaded("one\ntwo\none");
    let a = e.handle_key(press_with(Key::Char('f'), ALT), 1000);
    assert_eq!(a, Action::Continue);
    assert!(e.is_searching());
    e.handle_key(press(Key::Char('o')), 1010);
    e.handle_key(press(Key::Char('n')), 1020);
    assert_eq!(e.search_results(), vec![(0, 0), (2, 0)]);
    e.handle_key(press(Key::Enter), 1030);
    assert_eq!(e.cursor(), (2, 0));
    e.handle_key(press(Key::Backspace), 1040);
    assert_eq!(e.search_results(), vec![(0, 0), (1, 2), (2, 0)]);
    e.handle_key(press(Key::Esc), 1050);
    assert!(!e.is_searching());
    assert!(e.search_results().is_empty());
    assert_eq!(e.lines(), text(&["one", "two", "one"]));
}

#[test]
fn quit_key() {
    let mut e = Editor::new(24, 80);
    assert_eq!(e.process_keypress(press_with(Key::Char('q'), ALT), 10), Action::Quit);
    assert_eq!(e.lines(), text(&[""]));
}

#[test]
fn repeated_key_within_interval_is_dropped() {
    let mut e = Editor::new(24, 80);
    e.process_keypress(press(Key::Char('a')), 1000);
    e.process_keypress(press(Key::Char('a')), 1020);
    assert_eq!(e.lines(), text(&["a"]));
    e.process_keypress(press(Key::Char('a')), 1070);
    assert_eq!(e.lines(), text(&["aa"]));
    e.process_keypress(press(Key::Char('b')), 1071);
    assert_eq!(e.lines(), text(&["aab"]));
}

#[test]
fn release_and_repeat_events_are_ignored() {
    let mut e = Editor::new(24, 80);
    e.process_keypress(KeyEvent { code: Key::Char('a'), modifiers: 0, kind: KeyKind::Release }, 10);
    e.process_keypress(KeyEvent { code: Key::Char('a'), modifiers: 0, kind: KeyKind::Repeat }, 20);
    assert_eq!(e.lines(), text(&[""]));
}

#[test]
fn arrows_wrap_and_clamp() {
    let mut e = loaded("abcd\nx");
    e.move_left();
    assert_eq!(e.cursor(), (0, 0));
    for _ in 0..4 {
        e.move_right();
    }
    assert_eq!(e.cursor(), (0, 4));
    e.move_right();
    assert_eq!(e.cursor(), (1, 0));
    e.move_left();
    assert_eq!(e.cursor(), (0, 4));
    e.move_down();
    assert_eq!(e.cursor(), (1, 1));
    e.move_down();
    assert_eq!(e.cursor(), (1, 1));
    e.move_up();
    assert_eq!(e.cursor(), (0, 1));
    assert!(!e.is_dirty());
}

#[test]
fn view_scrolls_with_cursor() {
    let mut e = Editor::new(10, 5);
    for c in "abcdefgh".chars() {
        e.insert_char(c);
    }
    assert_eq!(e.col_offset(), 4);
    let row: String = e.row_tokens(0).iter().flat_map(|t| t.text.iter()).collect();
    assert_eq!(row, "efgh");
    assert_eq!(e.screen_cursor(), (4, 0));
    for _ in 0..8 {
        e.move_left();
    }
    assert_eq!(e.col_offset(), 0);
    let row: String = e.row_tokens(0).iter().flat_map(|t| t.text.iter()).collect();
    assert_eq!(row, "abcde");
    let filler: String = e.row_tokens(3).iter().flat_map(|t| t.text.iter()).collect();
    assert_eq!(filler, "~");
}

#[test]
fn status_bar_text() {
    let e = Editor::new(24, 30);
    let s: String = e.status_text().into_iter().collect();
    assert_eq!(s, "[No Name]          Ln 1, Col 1");
    let mut e = loaded("abc\ndef");
    e.move_down();
    e.insert_char('x');
    let s: String = e.status_text().into_iter().collect();
    assert_eq!(s.chars().count(), 80);
    assert!(s.starts_with("file.txt [Modified]"));
    assert!(s.ends_with("Ln 2, Col 2"));
    let p: String = e.prompt_text().into_iter().collect();
    assert_eq!(p, "Search: ");
}

#[test]
fn screen_cursor_stays_on_screen() {
    let mut e = loaded("a\nb\nc\nd");
    for _ in 0..3 {
        e.move_down();
    }
    let small = Editor::new(2, 10);
    assert_eq!(small.screen_cursor(), (0, 0));
    assert_eq!(e.screen_cursor(), (0, 3));
}

#[test]
fn load_splits_lines() {
    assert_eq!(split_lines(&chars("a\r\nb\n")), text(&["a", "b"]));
    assert_eq!(split_lines(&chars("")), text(&[""]));
    assert_eq!(split_lines(&chars("\n\nx")), text(&["", "", "x"]));
    assert_eq!(split_lines(&chars("a\rb")), text(&["a\rb"]));
    assert_eq!(join_lines(&text(&["a", "", "b"])), chars("a\n\nb"));
    let e = loaded("");
    assert_eq!(e.lines(), text(&[""]));
}

#[test]
fn insert_multibyte_characters() {
    let mut e = loaded("né");
    e.move_right();
    e.move_right();
    e.insert_char('ü');
    assert_eq!(e.lines(), text(&["néü"]));
    assert_eq!(e.cursor(), (0, 3));
}

#[test]
fn scrolled_row_starts_at_offset() {
    assert_eq!(display_line(&chars("ab"), 1, 1), chars("b"));
    assert_eq!(display_line(&chars("abcdef"), 2, 3), chars("cde"));
    assert_eq!(display_line(&chars("ab"), 5, 3), Vec::<char>::new());
    assert_eq!(display_line(&chars("ab"), 0, 10), chars("ab"));
}

#[test]
fn load_after_save_gives_same_lines() {
    let mut e = loaded("first\n\nlast");
    e.move_down();
    e.insert_char('m');
    let (_, data) = e.save_request().unwrap();
    assert_eq!(split_lines(&data), e.lines());
    assert_eq!(split_lines(&data), text(&["first", "m", "last"]));
}
