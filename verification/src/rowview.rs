//! Row-scoped paint data: bytes, diff flags, cursor position and the status
//! line, computed on demand and never persisted.

use vstd::prelude::*;

use crate::model::{EditMode, HexApp, ModelView, Slot};
use crate::navigate::BYTES_PER_ROW;

verus! {

/// The pane a slot is diffed against.
pub open spec fn other_slot(s: Slot) -> Slot {
    match s {
        Slot::Primary => Slot::Secondary,
        Slot::Secondary => Slot::Primary,
    }
}

/// The two buffers disagree at absolute position `i`: both hold a byte
/// there and the bytes differ. A position beyond either buffer's end is
/// never flagged — absence is not a mismatch.
pub open spec fn diff_at(a: Seq<u8>, b: Seq<u8>, i: int) -> bool {
    0 <= i < a.len() && i < b.len() && a[i] != b[i]
}

/// Diff flags are symmetric: flagging position `i` between two buffers does
/// not depend on which buffer is compared against which, and a position
/// beyond either buffer's length is never flagged.
pub proof fn lemma_diff_symmetric(a: Seq<u8>, b: Seq<u8>, i: int)
    ensures
        diff_at(a, b, i) == diff_at(b, a, i),
        i >= a.len() || i >= b.len() ==> !diff_at(a, b, i),
{
}

/// Mathematical view of a [`RowView`].
#[verifier::ext_equal]
pub struct RowSpec {
    /// Absolute offset of the row's first byte.
    pub offset: int,
    /// The row's bytes, between one and a full row of them.
    pub bytes: Seq<u8>,
    /// Per byte, whether the other pane's buffer disagrees there.
    pub diff: Seq<bool>,
    /// Column of the cursor within this row, when it addresses one of these
    /// bytes of this slot.
    pub cursor_col: Option<int>,
    /// In hex mode, whether the low nibble is the one being edited.
    pub cursor_low_nibble: bool,
    /// Current keystroke interpretation.
    pub edit_mode: EditMode,
}

/// Everything the rendering surface needs to paint one row of one pane.
pub struct RowView {
    /// Absolute offset of the row's first byte.
    pub offset: usize,
    /// The row's bytes.
    pub bytes: Vec<u8>,
    /// Per byte, whether the other pane's buffer disagrees there.
    pub diff_flags: Vec<bool>,
    /// Column of the cursor within this row, if it addresses one of these
    /// bytes of this slot.
    pub cursor_col: Option<usize>,
    /// In hex mode, whether the low nibble is the one being edited.
    pub cursor_low_nibble: bool,
    /// Current keystroke interpretation.
    pub edit_mode: EditMode,
}

impl View for RowView {
    type V = RowSpec;

    open spec fn view(&self) -> RowSpec {
        RowSpec {
            offset: self.offset as int,
            bytes: self.bytes@,
            diff: self.diff_flags@,
            cursor_col: match self.cursor_col {
                Some(c) => Some(c as int),
                None => None,
            },
            cursor_low_nibble: self.cursor_low_nibble,
            edit_mode: self.edit_mode,
        }
    }
}

/// What painting a row of a pane shows: `None` when the slot is empty or
/// the row starts beyond the buffer; otherwise the row's bytes aligned at
/// `row * BYTES_PER_ROW`, their diff flags against the other pane's buffer
/// by absolute offset, and where the cursor falls within the row.
pub open spec fn row_view_spec(m: ModelView, s: Slot, row: int) -> Option<RowSpec> {
    match m.slot(s) {
        None => None,
        Some(b) => {
            let off = row * (BYTES_PER_ROW as int);
            if !(0 <= row && off < b.data.len()) {
                None
            } else {
                let end = if off + (BYTES_PER_ROW as int) <= b.data.len() {
                    off + (BYTES_PER_ROW as int)
                } else {
                    b.data.len() as int
                };
                let bytes = b.data.subrange(off, end);
                let diff = Seq::new(
                    bytes.len(),
                    |i: int|
                        match m.slot(other_slot(s)) {
                            Some(o) => diff_at(b.data, o.data, off + i),
                            None => false,
                        },
                );
                let cursor_col = match m.cursor {
                    Some(c) => if c.slot == s && off <= c.offset < end {
                        Some(c.offset - off)
                    } else {
                        None
                    },
                    None => None,
                };
                Some(
                    RowSpec {
                        offset: off,
                        bytes,
                        diff,
                        cursor_col,
                        cursor_low_nibble: m.cursor_low_nibble,
                        edit_mode: m.edit_mode,
                    },
                )
            }
        },
    }
}

/// Reading a row view is idempotent: without intervening events the model
/// is the same value, and equal models yield equal row views.
pub proof fn lemma_row_view_idempotent(m1: ModelView, m2: ModelView, s: Slot, row: int)
    requires
        m1 == m2,
    ensures
        row_view_spec(m1, s, row) == row_view_spec(m2, s, row),
{
}

/// Within the offsets both panes' rows share, the diff flags of the two
/// panes' row views are the same flags: the positional diff is one relation,
/// however it is asked for.
pub proof fn lemma_row_diff_symmetric(m: ModelView, row: int, i: int)
    requires
        row_view_spec(m, Slot::Primary, row) is Some,
        row_view_spec(m, Slot::Secondary, row) is Some,
        0 <= i < row_view_spec(m, Slot::Primary, row)->0.diff.len(),
        i < row_view_spec(m, Slot::Secondary, row)->0.diff.len(),
    ensures
        row_view_spec(m, Slot::Primary, row)->0.diff[i] == row_view_spec(
            m,
            Slot::Secondary,
            row,
        )->0.diff[i],
{
    let a = m.primary->0.data;
    let b = m.secondary->0.data;
    let off = row * (BYTES_PER_ROW as int);
    lemma_diff_symmetric(a, b, off + i);
}

/// Mathematical view of a [`StatusLine`].
pub struct StatusSpec {
    /// The slot the cursor addresses.
    pub slot: Slot,
    /// The cursor's byte offset.
    pub offset: int,
    /// The byte currently at that offset.
    pub value: u8,
    /// Current keystroke interpretation.
    pub mode: EditMode,
}

/// What the footer shows while a byte is selected.
pub struct StatusLine {
    /// The slot the cursor addresses.
    pub slot: Slot,
    /// The cursor's byte offset.
    pub offset: usize,
    /// The byte currently at that offset.
    pub value: u8,
    /// Current keystroke interpretation.
    pub mode: EditMode,
}

impl View for StatusLine {
    type V = StatusSpec;

    open spec fn view(&self) -> StatusSpec {
        StatusSpec {
            slot: self.slot,
            offset: self.offset as int,
            value: self.value,
            mode: self.mode,
        }
    }
}

/// What the footer shows: the cursor's slot, offset, the byte under it and
/// the edit mode, or nothing when no byte is selected.
pub open spec fn status_spec(m: ModelView) -> Option<StatusSpec> {
    match m.cursor {
        Some(c) => Some(
            StatusSpec {
                slot: c.slot,
                offset: c.offset,
                value: m.slot(c.slot)->0.data[c.offset],
                mode: m.edit_mode,
            },
        ),
        None => None,
    }
}

impl HexApp {
    /// Computes the paint data for one row of one pane.
    pub fn row_view(&self, s: Slot, row: usize) -> (r: Option<RowView>)
        requires
            self@.wf(),
        ensures
            match r {
                Some(v) => row_view_spec(self@, s, row as int) == Some(v@),
                None => row_view_spec(self@, s, row as int) is None,
            },
    {
        let present = match s {
            Slot::Primary => self.primary.is_some(),
            Slot::Secondary => self.secondary.is_some(),
        };
        if !present {
            return None;
        }
        let len = self.slot_len(s);
        if len == 0 {
            return None;
        }
        if row > (len - 1) / BYTES_PER_ROW {
            proof {
                let q = ((len - 1) as int) / (BYTES_PER_ROW as int);
                assert(q * 16 <= len - 1) by {
                    vstd::arithmetic::div_mod::lemma_fundamental_div_mod((len - 1) as int, 16);
                };
                assert(row * 16 >= (q + 1) * 16);
            }
            return None;
        }
        proof {
            let q = ((len - 1) as int) / (BYTES_PER_ROW as int);
            assert(q * 16 <= len - 1) by {
                vstd::arithmetic::div_mod::lemma_fundamental_div_mod((len - 1) as int, 16);
            };
            assert(row * 16 <= q * 16);
        }
        let off = row * BYTES_PER_ROW;
        let end = if len - off > BYTES_PER_ROW {
            off + BYTES_PER_ROW
        } else {
            len
        };

        let other = match s {
            Slot::Primary => Slot::Secondary,
            Slot::Secondary => Slot::Primary,
        };
        let other_present = match other {
            Slot::Primary => self.primary.is_some(),
            Slot::Secondary => self.secondary.is_some(),
        };
        let other_len = if other_present {
            self.slot_len(other)
        } else {
            0
        };

        let ghost data = self@.slot(s)->0.data;
        let mut bytes: Vec<u8> = Vec::new();
        let mut diff_flags: Vec<bool> = Vec::new();
        let mut i: usize = off;
        proof {
            assert(bytes@ =~= data.subrange(off as int, off as int));
        }
        while i < end
            invariant
                self@.wf(),
                off <= i <= end,
                self@.slot(s) is Some,
                data == self@.slot(s)->0.data,
                end <= data.len(),
                other == other_slot(s),
                other_present == (self@.slot(other) is Some),
                other_present ==> other_len == self@.slot(other)->0.data.len(),
                bytes@ == data.subrange(off as int, i as int),
                diff_flags@ == Seq::new(
                    (i - off) as nat,
                    |k: int|
                        match self@.slot(other_slot(s)) {
                            Some(o) => diff_at(data, o.data, off + k),
                            None => false,
                        },
                ),
            decreases end - i,
        {
            let by = self.read_at(s, i);
            let flag = if other_present && i < other_len {
                self.read_at(other, i) != by
            } else {
                false
            };
            bytes.push(by);
            diff_flags.push(flag);
            proof {
                assert(bytes@ =~= data.subrange(off as int, i + 1));
                assert(diff_flags@ =~= Seq::new(
                    (i + 1 - off) as nat,
                    |k: int|
                        match self@.slot(other_slot(s)) {
                            Some(o) => diff_at(data, o.data, off + k),
                            None => false,
                        },
                ));
            }
            i += 1;
        }

        let cursor_col = match self.cursor {
            Some(c) => if c.slot == s && c.offset >= off && c.offset < end {
                Some(c.offset - off)
            } else {
                None
            },
            None => None,
        };

        let rv = RowView {
            offset: off,
            bytes,
            diff_flags,
            cursor_col,
            cursor_low_nibble: self.cursor_low_nibble,
            edit_mode: self.edit_mode,
        };
        proof {
            assert(row_view_spec(self@, s, row as int) is Some);
            assert(rv@ =~= row_view_spec(self@, s, row as int)->0);
        }
        Some(rv)
    }

    /// Computes the footer's status data.
    pub fn status_line(&self) -> (r: Option<StatusLine>)
        requires
            self@.wf(),
        ensures
            match r {
                Some(v) => status_spec(self@) == Some(v@),
                None => status_spec(self@) is None,
            },
    {
        match self.cursor {
            Some(c) => {
                let value = self.read_at(c.slot, c.offset);
                Some(StatusLine { slot: c.slot, offset: c.offset, value, mode: self.edit_mode })
            },
            None => None,
        }
    }
}

} // verus!
