use kibi::cursor::{move_position, scroll};
use kibi::{Document, Editor, Movement, Position, Size, Terminal};

fn doc_of(lines: &[&str]) -> Document {
    Document::from_contents("t.txt", &lines.join("\n"))
}

fn texts(doc: &Document) -> Vec<String> {
    let mut out = Vec::new();
    let mut i = 0;
    while let Some(row) = doc.row(i) {
        out.push(row.render(0, row.len()));
        i += 1;
    }
    out
}

const SIZE: Size = Size { width: 10, height: 5 };

fn at(x: usize, y: usize) -> Position {
    Position { x, y }
}

#[test]
fn left_at_line_start_goes_to_previous_end() {
    let doc = doc_of(&["abc", "de"]);
    assert_eq!(move_position(&at(0, 1), Movement::Left, &doc, &SIZE), at(3, 0));
    assert_eq!(move_position(&at(0, 0), Movement::Left, &doc, &SIZE), at(0, 0));
    assert_eq!(move_position(&at(2, 1), Movement::Left, &doc, &SIZE), at(1, 1));
}

#[test]
fn right_at_end_of_last_row_goes_past_it() {
    let doc = doc_of(&["abc", "de"]);
    assert_eq!(move_position(&at(2, 1), Movement::Right, &doc, &SIZE), at(0, 2));
    assert_eq!(move_position(&at(0, 2), Movement::Right, &doc, &SIZE), at(0, 2));
    assert_eq!(move_position(&at(3, 0), Movement::Right, &doc, &SIZE), at(0, 1));
}

#[test]
fn up_and_down_clamp_column_and_saturate() {
    let doc = doc_of(&["abcdef", "ab"]);
    assert_eq!(move_position(&at(5, 0), Movement::Down, &doc, &SIZE), at(2, 1));
    assert_eq!(move_position(&at(2, 1), Movement::Down, &doc, &SIZE), at(0, 2));
    assert_eq!(move_position(&at(0, 2), Movement::Down, &doc, &SIZE), at(0, 2));
    assert_eq!(move_position(&at(1, 0), Movement::Up, &doc, &SIZE), at(1, 0));
}

#[test]
fn home_end_and_pages() {
    let lines: Vec<String> = (0..20).map(|i| format!("line {i}")).collect();
    let refs: Vec<&str> = lines.iter().map(|s| s.as_str()).collect();
    let doc = doc_of(&refs);
    assert_eq!(move_position(&at(3, 4), Movement::Home, &doc, &SIZE), at(0, 4));
    assert_eq!(move_position(&at(0, 4), Movement::End, &doc, &SIZE), at(6, 4));
    assert_eq!(move_position(&at(0, 4), Movement::PageDown, &doc, &SIZE), at(0, 9));
    assert_eq!(move_position(&at(0, 18), Movement::PageDown, &doc, &SIZE), at(0, 20));
    assert_eq!(move_position(&at(0, 9), Movement::PageUp, &doc, &SIZE), at(0, 4));
    assert_eq!(move_position(&at(0, 3), Movement::PageUp, &doc, &SIZE), at(0, 0));
}

#[test]
fn cursor_crosses_flag_in_one_step() {
    let doc = doc_of(&["a🇷🇺b"]);
    assert_eq!(move_position(&at(1, 0), Movement::Right, &doc, &SIZE), at(2, 0));
    assert_eq!(move_position(&at(2, 0), Movement::Left, &doc, &SIZE), at(1, 0));
    assert_eq!(move_position(&at(0, 0), Movement::End, &doc, &SIZE), at(3, 0));
}

#[test]
fn out_of_range_position_is_clamped() {
    let doc = doc_of(&["ab"]);
    assert_eq!(move_position(&at(9, 7), Movement::Up, &doc, &SIZE), at(0, 1));
    assert_eq!(move_position(&at(9, 0), Movement::Home, &doc, &SIZE), at(0, 0));
}

#[test]
fn scroll_keeps_offset_while_visible() {
    let offset = at(2, 3);
    assert_eq!(scroll(&at(2, 3), &offset, &SIZE), offset);
    assert_eq!(scroll(&at(11, 7), &offset, &SIZE), offset);
}

#[test]
fn scroll_moves_minimally_to_show_cursor() {
    let offset = at(2, 3);
    assert_eq!(scroll(&at(1, 2), &offset, &SIZE), at(1, 2));
    assert_eq!(scroll(&at(12, 8), &offset, &SIZE), at(3, 4));
    assert_eq!(scroll(&at(30, 20), &at(0, 0), &SIZE), at(21, 16));
}

#[test]
fn terminal_keeps_two_lines_for_bars() {
    let t = Terminal::new(80, 24);
    assert_eq!(*t.size(), Size { width: 80, height: 22 });
    assert_eq!(*Terminal::new(5, 1).size(), Size { width: 5, height: 0 });
}

#[test]
fn editor_typing_moves_cursor() {
    let mut ed = Editor::new(Document::default());
    ed.insert_char('h', &SIZE);
    ed.insert_char('i', &SIZE);
    assert_eq!(texts(&ed.document), vec!["hi"]);
    assert_eq!(ed.cursor_position, at(2, 0));
    assert!(ed.document.is_dirty());
}

#[test]
fn editor_tab_inserts_spaces() {
    let mut ed = Editor::new(doc_of(&["x"]));
    ed.insert_tab(&SIZE);
    assert_eq!(texts(&ed.document), vec!["    x"]);
    assert_eq!(ed.cursor_position, at(4, 0));
}

#[test]
fn editor_enter_and_backspace() {
    let mut ed = Editor::new(doc_of(&["abcd"]));
    ed.cursor_position = at(2, 0);
    ed.enter(&SIZE);
    assert_eq!(texts(&ed.document), vec!["ab", "cd"]);
    assert_eq!(ed.cursor_position, at(0, 1));
    ed.backspace(&SIZE);
    assert_eq!(texts(&ed.document), vec!["abcd"]);
    assert_eq!(ed.cursor_position, at(2, 0));
    ed.backspace(&SIZE);
    assert_eq!(texts(&ed.document), vec!["acd"]);
    assert_eq!(ed.cursor_position, at(1, 0));
}

#[test]
fn editor_backspace_at_start_does_nothing() {
    let mut ed = Editor::new(doc_of(&["ab"]));
    ed.backspace(&SIZE);
    assert_eq!(texts(&ed.document), vec!["ab"]);
    assert!(!ed.document.is_dirty());
}

#[test]
fn editor_delete_forward() {
    let mut ed = Editor::new(doc_of(&["ab", "c"]));
    ed.cursor_position = at(2, 0);
    ed.delete_forward();
    assert_eq!(texts(&ed.document), vec!["abc"]);
    assert_eq!(ed.cursor_position, at(2, 0));
}

#[test]
fn editor_word_jumps() {
    let mut ed = Editor::new(doc_of(&["foo  bar"]));
    assert_eq!(ed.jump_to_next_word(&SIZE), 3);
    assert_eq!(ed.cursor_position, at(3, 0));
    assert_eq!(ed.jump_to_next_word(&SIZE), 5);
    assert_eq!(ed.cursor_position, at(8, 0));
    assert_eq!(ed.jump_to_word_start(&SIZE), 3);
    assert_eq!(ed.cursor_position, at(5, 0));
}

#[test]
fn editor_delete_word() {
    let mut ed = Editor::new(doc_of(&["foo bar baz"]));
    ed.cursor_position = at(7, 0);
    ed.delete_word(&SIZE);
    assert_eq!(texts(&ed.document), vec!["foo  baz"]);
    assert_eq!(ed.cursor_position, at(4, 0));
}

#[test]
fn editor_scrolls_when_cursor_leaves_view() {
    let mut ed = Editor::new(doc_of(&["0123456789abcdef"]));
    ed.move_cursor(Movement::End, &SIZE);
    assert_eq!(ed.cursor_position, at(16, 0));
    assert_eq!(ed.offset, at(7, 0));
    ed.move_cursor(Movement::Left, &SIZE);
    assert_eq!(ed.offset, at(7, 0));
    ed.move_cursor(Movement::Home, &SIZE);
    assert_eq!(ed.offset, at(0, 0));
}
