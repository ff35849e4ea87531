use hexscope::buffer::FileBuffer;
use hexscope::hexchars::{byte_display_char, hex_digit_of_char, nibble_to_hex_char};
use hexscope::model::{EditMode, HexApp, Slot};
use hexscope::rowview::RowView;

fn app_with(primary: Option<Vec<u8>>, secondary: Option<Vec<u8>>) -> HexApp {
    let mut app = HexApp::default();
    if let Some(data) = primary {
        app.set_buffer(Slot::Primary, FileBuffer::from_bytes(Some(1), data));
    }
    if let Some(data) = secondary {
        app.set_buffer(Slot::Secondary, FileBuffer::from_bytes(Some(2), data));
    }
    app
}

fn rows_equal(a: &RowView, b: &RowView) -> bool {
    a.offset == b.offset && a.bytes == b.bytes && a.diff_flags == b.diff_flags
        && a.cursor_col == b.cursor_col && a.cursor_low_nibble == b.cursor_low_nibble
        && a.edit_mode == b.edit_mode
}

#[test]
fn row_view_slices_by_rows() {
    let data: Vec<u8> = (0u8..40).collect();
    let app = app_with(Some(data.clone()), None);
    let row0 = app.row_view(Slot::Primary, 0).unwrap();
    assert_eq!(row0.offset, 0);
    assert_eq!(row0.bytes, data[0..16].to_vec());
    let row2 = app.row_view(Slot::Primary, 2).unwrap();
    assert_eq!(row2.offset, 32);
    assert_eq!(row2.bytes, data[32..40].to_vec());
    assert!(app.row_view(Slot::Primary, 3).is_none());
    assert!(app.row_view(Slot::Secondary, 0).is_none());
}

#[test]
fn row_view_is_idempotent_without_events() {
    let mut app = app_with(Some((0u8..40).collect()), Some((5u8..25).collect()));
    app.on_byte_click(Slot::Primary, 17, EditMode::Hex);
    let first = app.row_view(Slot::Primary, 1).unwrap();
    let second = app.row_view(Slot::Primary, 1).unwrap();
    assert!(rows_equal(&first, &second));
}

#[test]
fn diff_flags_mark_differing_positions() {
    let app = app_with(Some(vec![1, 2, 3, 4]), Some(vec![1, 9, 3, 7]));
    let row = app.row_view(Slot::Primary, 0).unwrap();
    assert_eq!(row.diff_flags, vec![false, true, false, true]);
}

#[test]
fn diff_flags_are_symmetric_between_panes() {
    let a: Vec<u8> = vec![0, 1, 2, 3, 4, 5];
    let b: Vec<u8> = vec![0, 9, 2, 9, 4, 9];
    let app = app_with(Some(a), Some(b));
    let row_a = app.row_view(Slot::Primary, 0).unwrap();
    let row_b = app.row_view(Slot::Secondary, 0).unwrap();
    assert_eq!(row_a.diff_flags, row_b.diff_flags);
}

#[test]
fn positions_beyond_shorter_buffer_are_not_flagged() {
    let app = app_with(Some(vec![1, 2, 3, 4]), Some(vec![1, 2]));
    let row = app.row_view(Slot::Primary, 0).unwrap();
    assert_eq!(row.diff_flags, vec![false, false, false, false]);
}

#[test]
fn diff_flags_empty_other_slot_flags_nothing() {
    let app = app_with(Some(vec![1, 2, 3]), None);
    let row = app.row_view(Slot::Primary, 0).unwrap();
    assert_eq!(row.diff_flags, vec![false, false, false]);
}

#[test]
fn cursor_appears_in_its_row_only() {
    let mut app = app_with(Some((0u8..40).collect()), None);
    app.on_byte_click(Slot::Primary, 17, EditMode::Hex);
    let row1 = app.row_view(Slot::Primary, 1).unwrap();
    assert_eq!(row1.cursor_col, Some(1));
    let row0 = app.row_view(Slot::Primary, 0).unwrap();
    assert_eq!(row0.cursor_col, None);
    let other_pane = app.row_view(Slot::Secondary, 1);
    assert!(other_pane.is_none());
}

#[test]
fn row_view_reflects_nibble_state() {
    let mut app = app_with(Some(vec![0x00, 0x00]), None);
    app.on_byte_click(Slot::Primary, 0, EditMode::Hex);
    assert!(!app.row_view(Slot::Primary, 0).unwrap().cursor_low_nibble);
    app.on_text_input('5');
    assert!(app.row_view(Slot::Primary, 0).unwrap().cursor_low_nibble);
}

#[test]
fn status_line_shows_cursor_byte() {
    let mut app = app_with(Some(vec![0x41, 0x42, 0x43]), None);
    assert!(app.status_line().is_none());
    app.on_byte_click(Slot::Primary, 2, EditMode::Ascii);
    let status = app.status_line().unwrap();
    assert_eq!(status.slot, Slot::Primary);
    assert_eq!(status.offset, 2);
    assert_eq!(status.value, 0x43);
    assert_eq!(status.mode, EditMode::Ascii);
}

#[test]
fn display_char_shows_printable_ascii_and_dots() {
    assert_eq!(byte_display_char(b'A'), 'A');
    assert_eq!(byte_display_char(0x20), ' ');
    assert_eq!(byte_display_char(0x7E), '~');
    assert_eq!(byte_display_char(0x1F), '.');
    assert_eq!(byte_display_char(0x7F), '.');
    assert_eq!(byte_display_char(0xFF), '.');
}

#[test]
fn nibble_round_trip_through_hex_chars() {
    for v in 0u8..16 {
        let c = nibble_to_hex_char(v);
        assert_eq!(hex_digit_of_char(c), Some(v));
    }
    assert_eq!(nibble_to_hex_char(0xA), 'A');
    assert_eq!(hex_digit_of_char('f'), Some(15));
    assert_eq!(hex_digit_of_char('G'), None);
}
