use kibi::text::graphemes;
use kibi::Row;

#[test]
fn from_counts_ascii_graphemes() {
    let row = Row::from("hello");
    assert_eq!(row.len(), 5);
    assert!(!row.is_empty());
}

#[test]
fn empty_row_has_no_graphemes() {
    let row = Row::default();
    assert_eq!(row.len(), 0);
    assert!(row.is_empty());
    assert_eq!(row.render(0, 10), "");
}

#[test]
fn flag_emoji_is_one_grapheme() {
    let row = Row::from("a🇷🇺b");
    assert_eq!(row.len(), 3);
    assert_eq!(row.render(1, 2), "🇷🇺");
}

#[test]
fn combining_accent_is_one_grapheme() {
    let row = Row::from("e\u{301}x");
    assert_eq!(row.len(), 2);
    assert_eq!(row.render(0, 1), "e\u{301}");
}

#[test]
fn graphemes_split_text_into_clusters() {
    let parts = graphemes("a\r\nb🇷🇺🇸🇹");
    assert_eq!(parts, vec!["a", "\r\n", "b", "🇷🇺", "🇸🇹"]);
}

#[test]
fn render_clamps_and_expands_tabs() {
    let row = Row::from("a\tbc");
    assert_eq!(row.render(0, 100), "a bc");
    assert_eq!(row.render(1, 3), " b");
    assert_eq!(row.render(3, 2), "");
    assert_eq!(row.render(10, 20), "");
}

#[test]
fn render_clamps_end_by_graphemes_not_bytes() {
    let row = Row::from("ééé");
    assert_eq!(row.render(0, 4), "ééé");
    assert_eq!(row.render(2, 4), "é");
}

#[test]
fn insert_in_middle_and_past_end() {
    let mut row = Row::from("ac");
    row.insert(1, 'b');
    assert_eq!(row.render(0, row.len()), "abc");
    row.insert(99, 'd');
    assert_eq!(row.render(0, row.len()), "abcd");
    assert_eq!(row.len(), 4);
    row.insert(0, 'z');
    assert_eq!(row.render(0, row.len()), "zabcd");
}

#[test]
fn insert_before_multi_codepoint_cluster() {
    let mut row = Row::from("🇷🇺");
    row.insert(0, 'x');
    assert_eq!(row.render(0, row.len()), "x🇷🇺");
    assert_eq!(row.len(), 2);
}

#[test]
fn delete_removes_whole_cluster() {
    let mut row = Row::from("a🇷🇺b");
    row.delete(1);
    assert_eq!(row.render(0, row.len()), "ab");
    assert_eq!(row.len(), 2);
    row.delete(5);
    assert_eq!(row.render(0, row.len()), "ab");
    let mut accent = Row::from("e\u{301}");
    accent.delete(0);
    assert!(accent.is_empty());
}

#[test]
fn delete_then_insert_replaces_one_grapheme() {
    let original = Row::from("héllo");
    let mut row = Row::from("héllo");
    row.delete(1);
    row.insert(1, 'a');
    assert_eq!(row.render(0, row.len()), "hallo");
    assert_eq!(row.len(), original.len());
    assert_eq!(row.render(0, 1), original.render(0, 1));
    assert_eq!(row.render(2, 5), original.render(2, 5));
}

#[test]
fn split_keeps_head_and_returns_tail() {
    let mut row = Row::from("hello");
    let tail = row.split(2);
    assert_eq!(row.render(0, row.len()), "he");
    assert_eq!(tail.render(0, tail.len()), "llo");
    assert_eq!(row.len(), 2);
    assert_eq!(tail.len(), 3);
}

#[test]
fn split_past_end_gives_empty_tail() {
    let mut row = Row::from("abc");
    let tail = row.split(10);
    assert_eq!(row.render(0, 10), "abc");
    assert!(tail.is_empty());
}

#[test]
fn append_joins_text_and_counts() {
    let mut row = Row::from("ab");
    row.append(&Row::from("🇷🇺c"));
    assert_eq!(row.render(0, row.len()), "ab🇷🇺c");
    assert_eq!(row.len(), 4);
}

#[test]
fn append_recounts_merged_clusters() {
    let mut row = Row::from("\r");
    row.append(&Row::from("\n"));
    assert_eq!(row.len(), 1);
}

#[test]
fn as_bytes_gives_utf8() {
    let row = Row::from("aé");
    assert_eq!(row.as_bytes(), &[b'a', 0xc3, 0xa9][..]);
    assert_eq!(row.as_str(), "aé");
}

#[test]
fn is_alphanumeric_by_grapheme() {
    let row = Row::from("a1 !é");
    assert!(row.is_alphanumeric(0));
    assert!(row.is_alphanumeric(1));
    assert!(!row.is_alphanumeric(2));
    assert!(!row.is_alphanumeric(3));
    assert!(row.is_alphanumeric(4));
    assert!(!row.is_alphanumeric(5));
}

#[test]
fn distance_to_end_skips_separators_then_word() {
    let row = Row::from("foo  bar, baz");
    assert_eq!(row.distance_to_end(0), 3);
    assert_eq!(row.distance_to_end(3), 5);
    assert_eq!(row.distance_to_end(8), 5);
    assert_eq!(row.distance_to_end(13), 0);
    assert_eq!(row.distance_to_end(20), 0);
}

#[test]
fn distance_to_start_skips_separators_then_word() {
    let row = Row::from("foo  bar, baz");
    assert_eq!(row.distance_to_start(13), 3);
    assert_eq!(row.distance_to_start(10), 5);
    assert_eq!(row.distance_to_start(3), 3);
    assert_eq!(row.distance_to_start(0), 0);
    assert_eq!(row.distance_to_start(20), 0);
}
