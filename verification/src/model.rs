//! The dual-pane model: two buffer slots, the shared edit cursor and its
//! nibble state machine, search and jump plumbing, and scroll
//! synchronization.

use vstd::prelude::*;

use crate::buffer::{BufView, FileBuffer};
use crate::hexchars::{hex_digit_of_char, hex_digit_value, is_hex_digit};
use crate::navigate::{parse_offset, parse_offset_spec, row_of_offset, BYTES_PER_ROW};
use crate::search::{encode_needle, needle_of, search, search_spec, lemma_search_within_bounds};

verus! {

/// One of the two fixed buffer positions.
#[derive(Clone, Copy, PartialEq, Eq, Structural, Debug)]
pub enum Slot {
    /// The left/main position.
    Primary,
    /// The right/diff position.
    Secondary,
}

/// How keystrokes edit the addressed byte.
#[derive(Clone, Copy, PartialEq, Eq, Structural, Debug)]
pub enum EditMode {
    /// Hex digits set one nibble at a time.
    Hex,
    /// A printable character overwrites the whole byte.
    Ascii,
}

/// Outcome of the most recent search, for the status display.
#[derive(Clone, Copy, PartialEq, Eq, Structural, Debug)]
pub enum SearchStatus {
    /// No search performed yet.
    Idle,
    /// The needle was found at this offset.
    Found(usize),
    /// The needle occurs nowhere in the active buffer.
    NotFound,
}

/// Position of the edit cursor: a byte within one slot's buffer.
#[derive(Clone, Copy, PartialEq, Eq, Structural, Debug)]
pub struct Cursor {
    /// Which buffer the cursor addresses.
    pub slot: Slot,
    /// Byte offset within that buffer, always in bounds.
    pub offset: usize,
}

/// Mathematical view of a [`Cursor`].
pub struct CursorView {
    /// Which buffer the cursor addresses.
    pub slot: Slot,
    /// Byte offset within that buffer.
    pub offset: int,
}

/// Mathematical view of a [`SearchStatus`].
pub struct SearchView {
    /// Whether a search outcome is being shown at all.
    pub shown: bool,
    /// The found offset; `None` on a failed search.
    pub found: Option<int>,
}

/// Mathematical view of the whole model.
#[verifier::ext_equal]
pub struct ModelView {
    /// The `Primary` slot.
    pub primary: Option<BufView>,
    /// The `Secondary` slot.
    pub secondary: Option<BufView>,
    /// Whether both panes follow one shared scroll position.
    pub sync_scroll: bool,
    /// The shared scroll target, as a display row.
    pub scroll_row: int,
    /// The edit cursor, if a byte is selected.
    pub cursor: Option<CursorView>,
    /// In hex mode, whether the next digit sets the low nibble.
    pub cursor_low_nibble: bool,
    /// Current keystroke interpretation.
    pub edit_mode: EditMode,
    /// The search box text.
    pub search_query: Seq<char>,
    /// Whether the query is read as hex digits rather than text.
    pub search_hex_mode: bool,
    /// Outcome of the most recent search.
    pub search_status: SearchView,
    /// The jump box text.
    pub jump_text: Seq<char>,
}

/// The whole editor model: the two slots, the shared cursor, and the
/// search/jump/scroll state the event sinks fold user input into.
pub struct HexApp {
    /// Buffer in the `Primary` slot.
    pub primary: Option<FileBuffer>,
    /// Buffer in the `Secondary` slot.
    pub secondary: Option<FileBuffer>,
    /// Whether both panes follow one shared scroll position.
    pub sync_scroll: bool,
    /// The shared scroll target, as a display row.
    pub scroll_row: usize,
    /// The edit cursor, if a byte is selected.
    pub cursor: Option<Cursor>,
    /// In hex mode, whether the next digit sets the low nibble.
    pub cursor_low_nibble: bool,
    /// Current keystroke interpretation.
    pub edit_mode: EditMode,
    /// The search box text.
    pub search_query: String,
    /// Whether the query is read as hex digits rather than text.
    pub search_hex_mode: bool,
    /// Outcome of the most recent search.
    pub search_status: SearchStatus,
    /// The jump box text.
    pub jump_offset_str: String,
}

impl View for HexApp {
    type V = ModelView;

    open spec fn view(&self) -> ModelView {
        ModelView {
            primary: match self.primary {
                Some(b) => Some(b@),
                None => None,
            },
            secondary: match self.secondary {
                Some(b) => Some(b@),
                None => None,
            },
            sync_scroll: self.sync_scroll,
            scroll_row: self.scroll_row as int,
            cursor: match self.cursor {
                Some(c) => Some(CursorView { slot: c.slot, offset: c.offset as int }),
                None => None,
            },
            cursor_low_nibble: self.cursor_low_nibble,
            edit_mode: self.edit_mode,
            search_query: self.search_query@,
            search_hex_mode: self.search_hex_mode,
            search_status: match self.search_status {
                SearchStatus::Idle => SearchView { shown: false, found: None },
                SearchStatus::Found(o) => SearchView { shown: true, found: Some(o as int) },
                SearchStatus::NotFound => SearchView { shown: true, found: None },
            },
            jump_text: self.jump_offset_str@,
        }
    }
}

impl ModelView {
    /// The buffer a slot holds, if any.
    pub open spec fn slot(self, s: Slot) -> Option<BufView> {
        match s {
            Slot::Primary => self.primary,
            Slot::Secondary => self.secondary,
        }
    }

    /// Cursor invariant: whenever a cursor exists, its slot holds a buffer
    /// and its offset addresses a byte of that buffer.
    pub open spec fn wf(self) -> bool {
        match self.cursor {
            Some(c) => self.slot(c.slot) is Some && 0 <= c.offset < self.slot(
                c.slot,
            )->0.data.len(),
            None => true,
        }
    }

    /// The slot search and jump act on: the cursor's slot, else the sole
    /// active buffer — `Primary` when it holds one, falling back to
    /// `Secondary`, which is treated as the sole active buffer without
    /// requiring a compaction step.
    pub open spec fn active_slot(self) -> Option<Slot> {
        match self.cursor {
            Some(c) => Some(c.slot),
            None => if self.primary is Some {
                Some(Slot::Primary)
            } else if self.secondary is Some {
                Some(Slot::Secondary)
            } else {
                None
            },
        }
    }
}

/// The freshly started model: both slots empty, no cursor, hex keystroke
/// mode, synchronized scrolling on, empty query and jump text.
pub open spec fn init_spec() -> ModelView {
    ModelView {
        primary: None,
        secondary: None,
        sync_scroll: true,
        scroll_row: 0,
        cursor: None,
        cursor_low_nibble: false,
        edit_mode: EditMode::Hex,
        search_query: Seq::empty(),
        search_hex_mode: false,
        search_status: SearchView { shown: false, found: None },
        jump_text: Seq::empty(),
    }
}

impl Default for HexApp {
    /// The freshly started model.
    fn default() -> (r: Self)
        ensures
            r@ == init_spec(),
            r@.wf(),
    {
        HexApp {
            primary: None,
            secondary: None,
            sync_scroll: true,
            scroll_row: 0,
            cursor: None,
            cursor_low_nibble: false,
            edit_mode: EditMode::Hex,
            search_query: String::new(),
            search_hex_mode: false,
            search_status: SearchStatus::Idle,
            jump_offset_str: String::new(),
        }
    }
}

/// A buffer placed into a slot: the slot takes the new buffer, and a cursor
/// that addressed the replaced buffer is cleared (its bytes are gone).
pub open spec fn load_spec(m: ModelView, s: Slot, b: BufView) -> ModelView {
    let m1 = match s {
        Slot::Primary => ModelView { primary: Some(b), ..m },
        Slot::Secondary => ModelView { secondary: Some(b), ..m },
    };
    match m.cursor {
        Some(c) => if c.slot == s {
            ModelView { cursor: None, ..m1 }
        } else {
            m1
        },
        None => m1,
    }
}

/// A slot closed: its buffer is discarded; removing `Primary` while
/// `Secondary` holds a buffer moves that buffer into `Primary`, so a single
/// active buffer always occupies `Primary`. A cursor addressing the closed
/// slot is cleared; a cursor addressing the moved buffer follows it.
pub open spec fn close_spec(m: ModelView, s: Slot) -> ModelView {
    let compacted = s == Slot::Primary && m.secondary is Some;
    let m1 = match s {
        Slot::Primary => if compacted {
            ModelView { primary: m.secondary, secondary: None, ..m }
        } else {
            ModelView { primary: None, ..m }
        },
        Slot::Secondary => ModelView { secondary: None, ..m },
    };
    match m.cursor {
        Some(c) => if c.slot == s {
            ModelView { cursor: None, ..m1 }
        } else if compacted && c.slot == Slot::Secondary {
            ModelView {
                cursor: Some(CursorView { slot: Slot::Primary, offset: c.offset }),
                ..m1
            }
        } else {
            m1
        },
        None => m1,
    }
}

/// A successful save of a slot's buffer: its modified flag clears, nothing
/// else changes. A save of an empty slot changes nothing.
pub open spec fn saved_spec(m: ModelView, s: Slot) -> ModelView {
    match m.slot(s) {
        Some(b) => {
            let nb = BufView { dirty: false, ..b };
            match s {
                Slot::Primary => ModelView { primary: Some(nb), ..m },
                Slot::Secondary => ModelView { secondary: Some(nb), ..m },
            }
        },
        None => m,
    }
}

/// One byte overwritten in a slot's buffer, which becomes modified.
pub open spec fn write_spec(m: ModelView, s: Slot, off: int, v: u8) -> ModelView
    recommends
        m.slot(s) is Some,
        0 <= off < m.slot(s)->0.data.len(),
{
    let b = m.slot(s)->0;
    let nb = BufView { data: b.data.update(off, v), dirty: true, origin: b.origin };
    match s {
        Slot::Primary => ModelView { primary: Some(nb), ..m },
        Slot::Secondary => ModelView { secondary: Some(nb), ..m },
    }
}

/// A byte clicked in one of the two visual columns: the cursor moves there
/// and the keystroke mode follows the column; entering hex mode starts at
/// the high nibble. A click outside any loaded byte changes nothing.
pub open spec fn click_spec(m: ModelView, s: Slot, off: int, mode: EditMode) -> ModelView {
    match m.slot(s) {
        Some(b) => if 0 <= off < b.data.len() {
            let m1 = ModelView {
                cursor: Some(CursorView { slot: s, offset: off }),
                edit_mode: mode,
                ..m
            };
            if mode == EditMode::Hex {
                ModelView { cursor_low_nibble: false, ..m1 }
            } else {
                m1
            }
        } else {
            m
        },
        None => m,
    }
}

/// A text keystroke folded into the model, per the edit state machine:
///
/// - in hex mode, a hex digit sets the high nibble and moves to the low one,
///   or sets the low nibble, returns to the high one and advances the cursor
///   by one byte — unless the cursor sits on the last byte, where it stays;
///   any other character is ignored;
/// - in raw-character mode, the character's code point, truncated to a byte,
///   overwrites the addressed byte and the cursor advances under the same
///   bounds rule;
/// - with no cursor the keystroke changes nothing.
pub open spec fn input_spec(m: ModelView, c: char) -> ModelView {
    match m.cursor {
        None => m,
        Some(cur) => match m.slot(cur.slot) {
            None => m,
            Some(b) => if !(0 <= cur.offset < b.data.len()) {
                m
            } else {
                match m.edit_mode {
                    EditMode::Hex => if is_hex_digit(c) {
                        let v = hex_digit_value(c);
                        let old_b = b.data[cur.offset];
                        if !m.cursor_low_nibble {
                            let m1 = write_spec(
                                m,
                                cur.slot,
                                cur.offset,
                                (v * 16 + old_b % 16) as u8,
                            );
                            ModelView { cursor_low_nibble: true, ..m1 }
                        } else {
                            let m1 = write_spec(
                                m,
                                cur.slot,
                                cur.offset,
                                (old_b / 16 * 16 + v) as u8,
                            );
                            let m2 = ModelView { cursor_low_nibble: false, ..m1 };
                            if cur.offset + 1 < b.data.len() {
                                ModelView {
                                    cursor: Some(
                                        CursorView { slot: cur.slot, offset: cur.offset + 1 },
                                    ),
                                    ..m2
                                }
                            } else {
                                m2
                            }
                        }
                    } else {
                        m
                    },
                    EditMode::Ascii => {
                        let m1 = write_spec(
                            m,
                            cur.slot,
                            cur.offset,
                            (c as u32 % 256) as u8,
                        );
                        if cur.offset + 1 < b.data.len() {
                            ModelView {
                                cursor: Some(
                                    CursorView { slot: cur.slot, offset: cur.offset + 1 },
                                ),
                                ..m1
                            }
                        } else {
                            m1
                        }
                    },
                }
            },
        },
    }
}

/// Typing two hex digits fully specifies one byte: with the cursor on the
/// high nibble, feeding digits `d1` then `d2` leaves the addressed byte
/// holding `d1` in its top four bits and `d2` in its bottom four, and the
/// cursor one byte further — unless it sat on the last byte, where it stays.
/// The nibble state is back at the high nibble either way.
pub proof fn lemma_hex_pair_input(m: ModelView, d1: char, d2: char)
    requires
        m.wf(),
        m.cursor is Some,
        m.edit_mode == EditMode::Hex,
        !m.cursor_low_nibble,
        is_hex_digit(d1),
        is_hex_digit(d2),
    ensures
        ({
            let cur = m.cursor->0;
            let len = m.slot(cur.slot)->0.data.len();
            let m2 = input_spec(input_spec(m, d1), d2);
            &&& m2.slot(cur.slot) is Some
            &&& m2.slot(cur.slot)->0.data.len() == len
            &&& m2.slot(cur.slot)->0.data[cur.offset] == hex_digit_value(d1) * 16
                + hex_digit_value(d2)
            &&& m2.cursor is Some
            &&& m2.cursor->0.slot == cur.slot
            &&& m2.cursor->0.offset == if cur.offset + 1 < len {
                cur.offset + 1
            } else {
                cur.offset
            }
            &&& m2.edit_mode == EditMode::Hex
            &&& !m2.cursor_low_nibble
        }),
{
    let cur = m.cursor->0;
    let b = m.slot(cur.slot)->0;
    let v1 = hex_digit_value(d1);
    let v2 = hex_digit_value(d2);
    let old_b = b.data[cur.offset];
    let b1 = (v1 * 16 + old_b % 16) as u8;
    assert(v1 < 16 && v2 < 16);
    assert(b1 / 16 == v1);
    let m1 = input_spec(m, d1);
    assert(m1.slot(cur.slot)->0.data[cur.offset] == b1);
}

/// Closing the slot the cursor addresses clears the cursor; closing the
/// other slot leaves the cursor on the same byte of the same buffer — when
/// the buffer moved from `Secondary` into `Primary`, the cursor followed it.
pub proof fn lemma_close_cursor(m: ModelView, s: Slot)
    requires
        m.wf(),
    ensures
        m.cursor is Some && m.cursor->0.slot == s ==> close_spec(m, s).cursor is None,
        m.cursor is Some && m.cursor->0.slot != s ==> ({
            let c = m.cursor->0;
            let mc = close_spec(m, s);
            &&& mc.cursor is Some
            &&& mc.cursor->0.offset == c.offset
            &&& mc.slot(mc.cursor->0.slot) == m.slot(c.slot)
        }),
        m.cursor is None ==> close_spec(m, s).cursor is None,
{
}

/// A scroll position reported by a pane: when synchronization is enabled the
/// reported row becomes the new shared target; when disabled each pane keeps
/// its own position and the model does not reconcile them.
pub open spec fn scroll_report_spec(m: ModelView, row: int) -> ModelView {
    if m.sync_scroll {
        ModelView { scroll_row: row, ..m }
    } else {
        m
    }
}

/// Where a search starts: just past the cursor, so the scan moves strictly
/// forward and never re-matches the current position first; from the top
/// when no cursor exists.
pub open spec fn search_start_spec(m: ModelView) -> int {
    match m.cursor {
        Some(c) => c.offset + 1,
        None => 0,
    }
}

/// A search performed over the active buffer: the query resolves to a byte
/// needle; an empty needle makes the search a no-op; otherwise the circular
/// scan runs from just past the cursor. A hit moves the cursor and the
/// scroll target to the found offset and reports it; a miss only reports
/// that nothing was found.
pub open spec fn search_model_spec(m: ModelView) -> ModelView {
    match m.active_slot() {
        None => m,
        Some(s) => match m.slot(s) {
            None => m,
            Some(b) => {
                let needle = needle_of(m.search_query, m.search_hex_mode);
                if needle.len() == 0 {
                    m
                } else {
                    match search_spec(b.data, needle, search_start_spec(m)) {
                        Some(i) => ModelView {
                            scroll_row: i / (BYTES_PER_ROW as int),
                            cursor: Some(CursorView { slot: s, offset: i }),
                            search_status: SearchView { shown: true, found: Some(i) },
                            ..m
                        },
                        None => ModelView {
                            search_status: SearchView { shown: true, found: None },
                            ..m
                        },
                    }
                }
            },
        },
    }
}

/// A search is owed a hit whenever the resolved needle occurs anywhere in
/// the active buffer: the circular scan covers every start position. The
/// hit is shown, and the cursor lands on an occurrence.
pub proof fn lemma_search_model_finds(m: ModelView, p: int)
    requires
        m.wf(),
        m.active_slot() is Some,
        needle_of(m.search_query, m.search_hex_mode).len() > 0,
        ({
            let s = m.active_slot()->0;
            let needle = needle_of(m.search_query, m.search_hex_mode);
            &&& m.slot(s) is Some
            &&& crate::search::matches_at(m.slot(s)->0.data, needle, p)
        }),
    ensures
        search_model_spec(m).search_status.shown,
        search_model_spec(m).search_status.found is Some,
        search_model_spec(m).cursor is Some,
        ({
            let s = m.active_slot()->0;
            let needle = needle_of(m.search_query, m.search_hex_mode);
            crate::search::matches_at(
                m.slot(s)->0.data,
                needle,
                search_model_spec(m).cursor->0.offset,
            )
        }),
{
    let s = m.active_slot()->0;
    let needle = needle_of(m.search_query, m.search_hex_mode);
    let data = m.slot(s)->0.data;
    let start = search_start_spec(m);
    crate::search::lemma_search_finds(data, needle, start, p);
    crate::search::lemma_search_within_bounds(data, needle, start);
}

/// A jump performed from the jump box: malformed text changes nothing;
/// otherwise the scroll target becomes the offset's display row, and the
/// cursor moves to the offset when the active buffer has such a byte.
pub open spec fn jump_spec(m: ModelView) -> ModelView {
    match parse_offset_spec(m.jump_text) {
        None => m,
        Some(off) => {
            let m1 = ModelView { scroll_row: off / (BYTES_PER_ROW as int), ..m };
            match m.active_slot() {
                Some(s) => match m.slot(s) {
                    Some(b) => if off < b.data.len() {
                        ModelView { cursor: Some(CursorView { slot: s, offset: off }), ..m1 }
                    } else {
                        m1
                    },
                    None => m1,
                },
                None => m1,
            }
        },
    }
}

impl HexApp {
    /// Length of the buffer in a slot.
    pub(crate) fn slot_len(&self, s: Slot) -> (n: usize)
        requires
            self@.slot(s) is Some,
        ensures
            n == self@.slot(s)->0.data.len(),
    {
        match s {
            Slot::Primary => match &self.primary {
                Some(b) => b.len(),
                None => {
                    assert(false);
                    0
                },
            },
            Slot::Secondary => match &self.secondary {
                Some(b) => b.len(),
                None => {
                    assert(false);
                    0
                },
            },
        }
    }

    /// The byte at an offset of a slot's buffer.
    pub(crate) fn read_at(&self, s: Slot, off: usize) -> (r: u8)
        requires
            self@.slot(s) is Some,
            off < self@.slot(s)->0.data.len(),
        ensures
            r == self@.slot(s)->0.data[off as int],
    {
        match s {
            Slot::Primary => match &self.primary {
                Some(b) => b.data[off],
                None => {
                    assert(false);
                    0
                },
            },
            Slot::Secondary => match &self.secondary {
                Some(b) => b.data[off],
                None => {
                    assert(false);
                    0
                },
            },
        }
    }

    /// Overwrites the byte at an offset of a slot's buffer.
    fn write_at(&mut self, s: Slot, off: usize, v: u8)
        requires
            old(self)@.slot(s) is Some,
            off < old(self)@.slot(s)->0.data.len(),
        ensures
            final(self)@ == write_spec(old(self)@, s, off as int, v),
    {
        match s {
            Slot::Primary => match &mut self.primary {
                Some(b) => b.write_byte(off, v),
                None => {
                    assert(false);
                },
            },
            Slot::Secondary => match &mut self.secondary {
                Some(b) => b.write_byte(off, v),
                None => {
                    assert(false);
                },
            },
        }
        assert(self@ =~= write_spec(old(self)@, s, off as int, v));
    }

    /// Places a freshly loaded buffer into a slot.
    pub fn set_buffer(&mut self, s: Slot, buf: FileBuffer)
        requires
            old(self)@.wf(),
        ensures
            final(self)@ == load_spec(old(self)@, s, buf@),
            final(self)@.wf(),
    {
        let clear = match self.cursor {
            Some(c) => c.slot == s,
            None => false,
        };
        match s {
            Slot::Primary => {
                self.primary = Some(buf);
            },
            Slot::Secondary => {
                self.secondary = Some(buf);
            },
        }
        if clear {
            self.cursor = None;
        }
        assert(self@ =~= load_spec(old(self)@, s, buf@));
    }

    /// Closes a slot, compacting a remaining `Secondary` buffer into
    /// `Primary` and keeping the cursor invariant.
    pub fn close_file(&mut self, s: Slot)
        requires
            old(self)@.wf(),
        ensures
            final(self)@ == close_spec(old(self)@, s),
            final(self)@.wf(),
    {
        let compacted = match s {
            Slot::Primary => {
                match self.secondary.take() {
                    Some(b) => {
                        self.primary = Some(b);
                        true
                    },
                    None => {
                        self.primary = None;
                        false
                    },
                }
            },
            Slot::Secondary => {
                self.secondary = None;
                false
            },
        };
        match self.cursor {
            Some(c) => {
                if c.slot == s {
                    self.cursor = None;
                } else if compacted && c.slot == Slot::Secondary {
                    self.cursor = Some(Cursor { slot: Slot::Primary, offset: c.offset });
                }
            },
            None => {},
        }
        assert(self@ =~= close_spec(old(self)@, s));
    }

    /// Records a successful save of a slot's buffer: the host has written
    /// the bytes to their origin, so the buffer is no longer modified.
    pub fn mark_saved(&mut self, s: Slot)
        requires
            old(self)@.wf(),
        ensures
            final(self)@ == saved_spec(old(self)@, s),
            final(self)@.wf(),
    {
        match s {
            Slot::Primary => match &mut self.primary {
                Some(b) => b.mark_flushed(),
                None => {},
            },
            Slot::Secondary => match &mut self.secondary {
                Some(b) => b.mark_flushed(),
                None => {},
            },
        }
        assert(self@ =~= saved_spec(old(self)@, s));
    }

    /// Folds a byte click from one of the visual columns into the model.
    pub fn on_byte_click(&mut self, s: Slot, off: usize, mode: EditMode)
        requires
            old(self)@.wf(),
        ensures
            final(self)@ == click_spec(old(self)@, s, off as int, mode),
            final(self)@.wf(),
    {
        let present = match s {
            Slot::Primary => self.primary.is_some(),
            Slot::Secondary => self.secondary.is_some(),
        };
        if !present {
            return;
        }
        let len = self.slot_len(s);
        if off >= len {
            return;
        }
        self.cursor = Some(Cursor { slot: s, offset: off });
        self.edit_mode = mode;
        if mode == EditMode::Hex {
            self.cursor_low_nibble = false;
        }
        assert(self@ =~= click_spec(old(self)@, s, off as int, mode));
    }

    /// Folds one text keystroke into the model, per the edit state machine.
    pub fn on_text_input(&mut self, c: char)
        requires
            old(self)@.wf(),
        ensures
            final(self)@ == input_spec(old(self)@, c),
            final(self)@.wf(),
    {
        let cur = match self.cursor {
            Some(cu) => cu,
            None => {
                return;
            },
        };
        let len = self.slot_len(cur.slot);
        match self.edit_mode {
            EditMode::Hex => {
                let v = match hex_digit_of_char(c) {
                    Some(v) => v,
                    None => {
                        return;
                    },
                };
                let old_b = self.read_at(cur.slot, cur.offset);
                if !self.cursor_low_nibble {
                    self.write_at(cur.slot, cur.offset, v * 16 + old_b % 16);
                    self.cursor_low_nibble = true;
                } else {
                    self.write_at(cur.slot, cur.offset, old_b / 16 * 16 + v);
                    self.cursor_low_nibble = false;
                    if cur.offset + 1 < len {
                        self.cursor = Some(Cursor { slot: cur.slot, offset: cur.offset + 1 });
                    }
                }
            },
            EditMode::Ascii => {
                let b = ((c as u32) % 256) as u8;
                self.write_at(cur.slot, cur.offset, b);
                if cur.offset + 1 < len {
                    self.cursor = Some(Cursor { slot: cur.slot, offset: cur.offset + 1 });
                }
            },
        }
        assert(self@ =~= input_spec(old(self)@, c));
    }

    /// Folds a pane's reported scroll position into the shared target.
    pub fn on_scroll_report(&mut self, _slot: Slot, row: usize)
        requires
            old(self)@.wf(),
        ensures
            final(self)@ == scroll_report_spec(old(self)@, row as int),
            final(self)@.wf(),
    {
        if self.sync_scroll {
            self.scroll_row = row;
        }
        assert(self@ =~= scroll_report_spec(old(self)@, row as int));
    }

    /// The slot search and jump act on, if any buffer is loaded.
    fn active_slot(&self) -> (r: Option<Slot>)
        ensures
            r == self@.active_slot(),
    {
        match self.cursor {
            Some(c) => Some(c.slot),
            None => if self.primary.is_some() {
                Some(Slot::Primary)
            } else if self.secondary.is_some() {
                Some(Slot::Secondary)
            } else {
                None
            },
        }
    }

    /// Moves the shared scroll target to the display row of an offset.
    pub fn jump_to_offset(&mut self, offset: usize)
        requires
            old(self)@.wf(),
        ensures
            final(self)@ == (ModelView {
                scroll_row: offset as int / (BYTES_PER_ROW as int),
                ..old(self)@
            }),
            final(self)@.wf(),
    {
        self.scroll_row = row_of_offset(offset);
        assert(self@ =~= (ModelView {
            scroll_row: offset as int / (BYTES_PER_ROW as int),
            ..old(self)@
        }));
    }

    /// Runs a search from the search box over the active buffer, moving the
    /// cursor and scroll target to a hit and recording the outcome.
    pub fn perform_search(&mut self)
        requires
            old(self)@.wf(),
        ensures
            final(self)@ == search_model_spec(old(self)@),
            final(self)@.wf(),
    {
        let target = match self.active_slot() {
            Some(s) => s,
            None => {
                return;
            },
        };
        let tlen = self.slot_len(target);
        let needle = encode_needle(self.search_query.as_str(), self.search_hex_mode);
        if needle.len() == 0 {
            return;
        }
        let start = match self.cursor {
            Some(c) => c.offset + 1,
            None => 0,
        };
        let ghost data = self@.slot(target)->0.data;
        let found = match target {
            Slot::Primary => match &self.primary {
                Some(b) => search(&b.data, &needle, start),
                None => {
                    assert(false);
                    None
                },
            },
            Slot::Secondary => match &self.secondary {
                Some(b) => search(&b.data, &needle, start),
                None => {
                    assert(false);
                    None
                },
            },
        };
        match found {
            Some(i) => {
                proof {
                    lemma_search_within_bounds(data, needle@, start as int);
                }
                self.scroll_row = row_of_offset(i);
                self.cursor = Some(Cursor { slot: target, offset: i });
                self.search_status = SearchStatus::Found(i);
            },
            None => {
                self.search_status = SearchStatus::NotFound;
            },
        }
        assert(self@ =~= search_model_spec(old(self)@));
    }

    /// Runs a jump from the jump box: on malformed text nothing changes; on
    /// success the scroll target follows the offset's row and the cursor
    /// moves there when the active buffer has such a byte.
    pub fn perform_jump(&mut self)
        requires
            old(self)@.wf(),
        ensures
            final(self)@ == jump_spec(old(self)@),
            final(self)@.wf(),
    {
        let off = match parse_offset(self.jump_offset_str.as_str()) {
            Ok(o) => o,
            Err(_) => {
                return;
            },
        };
        self.scroll_row = row_of_offset(off);
        match self.active_slot() {
            Some(s) => {
                let l = self.slot_len(s);
                if off < l {
                    self.cursor = Some(Cursor { slot: s, offset: off });
                }
            },
            None => {},
        }
        assert(self@ =~= jump_spec(old(self)@));
    }

    /// Turns synchronized scrolling on or off.
    pub fn set_sync_scroll(&mut self, on: bool)
        requires
            old(self)@.wf(),
        ensures
            final(self)@ == (ModelView { sync_scroll: on, ..old(self)@ }),
            final(self)@.wf(),
    {
        self.sync_scroll = on;
        assert(self@ =~= (ModelView { sync_scroll: on, ..old(self)@ }));
    }
}

} // verus!
