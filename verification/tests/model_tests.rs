use hexscope::buffer::{FileBuffer, FlushError};
use hexscope::model::{EditMode, HexApp, SearchStatus, Slot};

fn app_with(primary: Option<Vec<u8>>, secondary: Option<Vec<u8>>) -> HexApp {
    let mut app = HexApp::default();
    if let Some(data) = primary {
        app.set_buffer(Slot::Primary, FileBuffer::from_bytes(Some(1), data));
    }
    if let Some(data) = secondary {
        app.set_buffer(Slot::Secondary, FileBuffer::from_bytes(Some(2), data));
    }
    app
}

#[test]
fn fresh_model_is_empty() {
    let app = HexApp::default();
    assert!(app.primary.is_none());
    assert!(app.secondary.is_none());
    assert!(app.cursor.is_none());
    assert!(app.sync_scroll);
    assert_eq!(app.scroll_row, 0);
    assert_eq!(app.edit_mode, EditMode::Hex);
    assert_eq!(app.search_status, SearchStatus::Idle);
}

#[test]
fn new_empty_buffer_has_no_origin_and_is_clean() {
    let buf = FileBuffer::new_empty();
    assert!(buf.origin.is_none());
    assert!(buf.data.is_empty());
    assert!(!buf.dirty);
}

#[test]
fn two_hex_digits_write_one_byte_and_advance() {
    let mut app = app_with(Some(vec![0x00, 0x00]), None);
    app.on_byte_click(Slot::Primary, 0, EditMode::Hex);
    app.on_text_input('a');
    app.on_text_input('b');
    assert_eq!(app.primary.as_ref().unwrap().data[0], 0xAB);
    let cur = app.cursor.unwrap();
    assert_eq!((cur.slot, cur.offset), (Slot::Primary, 1));
    assert!(!app.cursor_low_nibble);
    assert!(app.primary.as_ref().unwrap().dirty);
}

#[test]
fn high_nibble_keeps_low_bits_and_stays_put() {
    let mut app = app_with(Some(vec![0x5C, 0x00]), None);
    app.on_byte_click(Slot::Primary, 0, EditMode::Hex);
    app.on_text_input('F');
    assert_eq!(app.primary.as_ref().unwrap().data[0], 0xFC);
    assert_eq!(app.cursor.unwrap().offset, 0);
    assert!(app.cursor_low_nibble);
}

#[test]
fn cursor_stays_on_last_byte_after_second_digit() {
    let mut app = app_with(Some(vec![0x00]), None);
    app.on_byte_click(Slot::Primary, 0, EditMode::Hex);
    app.on_text_input('1');
    app.on_text_input('2');
    assert_eq!(app.primary.as_ref().unwrap().data[0], 0x12);
    assert_eq!(app.cursor.unwrap().offset, 0);
    assert!(!app.cursor_low_nibble);
}

#[test]
fn non_hex_keystroke_is_ignored_in_hex_mode() {
    let mut app = app_with(Some(vec![0x7F]), None);
    app.on_byte_click(Slot::Primary, 0, EditMode::Hex);
    app.on_text_input('g');
    assert_eq!(app.primary.as_ref().unwrap().data[0], 0x7F);
    assert!(!app.primary.as_ref().unwrap().dirty);
    assert_eq!(app.cursor.unwrap().offset, 0);
    assert!(!app.cursor_low_nibble);
}

#[test]
fn ascii_keystroke_overwrites_byte_and_advances() {
    let mut app = app_with(Some(vec![0x00, 0x00]), None);
    app.on_byte_click(Slot::Primary, 0, EditMode::Ascii);
    app.on_text_input('X');
    assert_eq!(app.primary.as_ref().unwrap().data[0], b'X');
    assert_eq!(app.cursor.unwrap().offset, 1);
}

#[test]
fn wide_character_is_truncated_to_a_byte() {
    let mut app = app_with(Some(vec![0x00, 0x00]), None);
    app.on_byte_click(Slot::Primary, 0, EditMode::Ascii);
    // U+0141 has code point 0x141; only the low byte 0x41 lands.
    app.on_text_input('\u{141}');
    assert_eq!(app.primary.as_ref().unwrap().data[0], 0x41);
}

#[test]
fn keystroke_without_cursor_changes_nothing() {
    let mut app = app_with(Some(vec![0x10]), None);
    app.on_text_input('a');
    assert_eq!(app.primary.as_ref().unwrap().data[0], 0x10);
    assert!(app.cursor.is_none());
}

#[test]
fn closing_cursor_slot_clears_cursor() {
    let mut app = app_with(Some(vec![1, 2]), Some(vec![3, 4]));
    app.on_byte_click(Slot::Secondary, 1, EditMode::Hex);
    app.close_file(Slot::Secondary);
    assert!(app.cursor.is_none());
    assert!(app.secondary.is_none());
    assert!(app.primary.is_some());
}

#[test]
fn closing_other_slot_keeps_cursor() {
    let mut app = app_with(Some(vec![1, 2]), Some(vec![3, 4]));
    app.on_byte_click(Slot::Primary, 1, EditMode::Hex);
    app.close_file(Slot::Secondary);
    let cur = app.cursor.unwrap();
    assert_eq!((cur.slot, cur.offset), (Slot::Primary, 1));
}

#[test]
fn closing_primary_compacts_secondary_and_cursor_follows() {
    let mut app = app_with(Some(vec![1, 2]), Some(vec![3, 4]));
    app.on_byte_click(Slot::Secondary, 1, EditMode::Hex);
    app.close_file(Slot::Primary);
    assert_eq!(app.primary.as_ref().unwrap().data, vec![3, 4]);
    assert!(app.secondary.is_none());
    let cur = app.cursor.unwrap();
    assert_eq!((cur.slot, cur.offset), (Slot::Primary, 1));
}

#[test]
fn search_moves_cursor_and_scroll_to_hit() {
    let mut app = app_with(Some(b"ABABAB".to_vec()), None);
    app.search_query = "AB".to_string();
    app.on_byte_click(Slot::Primary, 0, EditMode::Hex);
    app.perform_search();
    let cur = app.cursor.unwrap();
    assert_eq!((cur.slot, cur.offset), (Slot::Primary, 2));
    assert_eq!(app.search_status, SearchStatus::Found(2));
    assert_eq!(app.scroll_row, 0);
}

#[test]
fn repeated_search_wraps_to_first_occurrence() {
    let mut app = app_with(Some(b"ABABAB".to_vec()), None);
    app.search_query = "AB".to_string();
    app.on_byte_click(Slot::Primary, 0, EditMode::Hex);
    app.perform_search();
    app.perform_search();
    assert_eq!(app.cursor.unwrap().offset, 4);
    app.perform_search();
    assert_eq!(app.cursor.unwrap().offset, 0);
    assert_eq!(app.search_status, SearchStatus::Found(0));
}

#[test]
fn search_without_cursor_starts_at_top() {
    let mut app = app_with(Some(b"xxAB".to_vec()), None);
    app.search_query = "AB".to_string();
    app.perform_search();
    assert_eq!(app.cursor.unwrap().offset, 2);
}

#[test]
fn failed_search_reports_and_leaves_cursor() {
    let mut app = app_with(Some(b"ABAB".to_vec()), None);
    app.search_query = "ZZ".to_string();
    app.on_byte_click(Slot::Primary, 1, EditMode::Hex);
    app.perform_search();
    assert_eq!(app.search_status, SearchStatus::NotFound);
    assert_eq!(app.cursor.unwrap().offset, 1);
}

#[test]
fn empty_query_search_is_a_no_op() {
    let mut app = app_with(Some(b"ABAB".to_vec()), None);
    app.search_query = String::new();
    app.perform_search();
    assert_eq!(app.search_status, SearchStatus::Idle);
    assert!(app.cursor.is_none());
}

#[test]
fn hex_mode_search_scans_for_byte_pairs() {
    let mut app = app_with(Some(vec![0x00, 0xDE, 0xAD, 0x00]), None);
    app.search_query = "dead".to_string();
    app.search_hex_mode = true;
    app.perform_search();
    assert_eq!(app.cursor.unwrap().offset, 1);
    assert_eq!(app.search_status, SearchStatus::Found(1));
}

#[test]
fn search_targets_secondary_when_it_is_the_only_buffer() {
    let mut app = app_with(None, Some(b"xAB".to_vec()));
    app.search_query = "AB".to_string();
    app.perform_search();
    let cur = app.cursor.unwrap();
    assert_eq!((cur.slot, cur.offset), (Slot::Secondary, 1));
}

#[test]
fn jump_sets_scroll_row_and_cursor() {
    let mut app = app_with(Some(vec![0u8; 64]), None);
    app.jump_offset_str = "0x1A".to_string();
    app.perform_jump();
    assert_eq!(app.scroll_row, 1);
    let cur = app.cursor.unwrap();
    assert_eq!((cur.slot, cur.offset), (Slot::Primary, 26));
}

#[test]
fn malformed_jump_changes_nothing() {
    let mut app = app_with(Some(vec![0u8; 64]), None);
    app.on_byte_click(Slot::Primary, 5, EditMode::Hex);
    let before_scroll = app.scroll_row;
    app.jump_offset_str = "0xZZ".to_string();
    app.perform_jump();
    assert_eq!(app.scroll_row, before_scroll);
    assert_eq!(app.cursor.unwrap().offset, 5);
}

#[test]
fn jump_beyond_buffer_scrolls_but_keeps_cursor() {
    let mut app = app_with(Some(vec![0u8; 8]), None);
    app.on_byte_click(Slot::Primary, 3, EditMode::Hex);
    app.jump_offset_str = "100".to_string();
    app.perform_jump();
    assert_eq!(app.scroll_row, 6);
    assert_eq!(app.cursor.unwrap().offset, 3);
}

#[test]
fn scroll_report_follows_sync_setting() {
    let mut app = app_with(Some(vec![0u8; 64]), None);
    app.on_scroll_report(Slot::Primary, 3);
    assert_eq!(app.scroll_row, 3);
    app.set_sync_scroll(false);
    app.on_scroll_report(Slot::Secondary, 9);
    assert_eq!(app.scroll_row, 3);
}

#[test]
fn write_byte_marks_buffer_dirty_and_saving_clears_it() {
    let mut app = app_with(Some(vec![0x00]), None);
    assert!(!app.primary.as_ref().unwrap().dirty);
    app.on_byte_click(Slot::Primary, 0, EditMode::Ascii);
    app.on_text_input('!');
    assert!(app.primary.as_ref().unwrap().dirty);
    app.mark_saved(Slot::Primary);
    assert!(!app.primary.as_ref().unwrap().dirty);
    assert_eq!(app.primary.as_ref().unwrap().data[0], b'!');
}

#[test]
fn flush_target_requires_an_origin() {
    let with_origin = FileBuffer::from_bytes(Some(7), vec![1]);
    assert_eq!(with_origin.flush_target(), Ok(7));
    let in_memory = FileBuffer::new_empty();
    assert_eq!(in_memory.flush_target(), Err(FlushError::NoOrigin));
}

#[test]
fn loading_into_cursor_slot_clears_cursor() {
    let mut app = app_with(Some(vec![1, 2, 3]), None);
    app.on_byte_click(Slot::Primary, 2, EditMode::Hex);
    app.set_buffer(Slot::Primary, FileBuffer::from_bytes(None, vec![9]));
    assert!(app.cursor.is_none());
    assert_eq!(app.primary.as_ref().unwrap().data, vec![9]);
}
