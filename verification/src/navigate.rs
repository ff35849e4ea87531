//! Offset-jump parsing and row derivation.

use vstd::prelude::*;

use crate::hexchars::{hex_digit_of_char, hex_digit_value, is_hex_digit};

verus! {

/// Number of byte offsets shown per display row.
pub const BYTES_PER_ROW: usize = 16;

/// Error of a malformed offset expression.
#[derive(Clone, Copy, PartialEq, Eq, Structural, Debug)]
pub struct ParseError;

/// Whitespace, the characters trimmed around an offset expression: the
/// code points with the Unicode `White_Space` property.
pub open spec fn is_space(c: char) -> bool {
    let u = c as u32;
    (9 <= u && u <= 13) || u == 0x20 || u == 0x85 || u == 0xA0 || u == 0x1680 || (0x2000 <= u
        && u <= 0x200A) || u == 0x2028 || u == 0x2029 || u == 0x202F || u == 0x205F || u == 0x3000
}

/// A decimal digit.
pub open spec fn is_dec_digit(c: char) -> bool {
    '0' <= c && c <= '9'
}

pub open spec fn trim_front(s: Seq<char>) -> Seq<char>
    decreases s.len(),
{
    if s.len() > 0 && is_space(s[0]) {
        trim_front(s.skip(1))
    } else {
        s
    }
}

pub open spec fn trim_back(s: Seq<char>) -> Seq<char>
    decreases s.len(),
{
    if s.len() > 0 && is_space(s.last()) {
        trim_back(s.drop_last())
    } else {
        s
    }
}

/// The expression with surrounding whitespace removed.
pub open spec fn trimmed(s: Seq<char>) -> Seq<char> {
    trim_back(trim_front(s))
}

/// A valid digit under the chosen base.
pub open spec fn valid_digit(c: char, hex: bool) -> bool {
    if hex {
        is_hex_digit(c)
    } else {
        is_dec_digit(c)
    }
}

/// Numeric value of one digit under the chosen base.
pub open spec fn digit_value(c: char, hex: bool) -> int
    recommends
        valid_digit(c, hex),
{
    if hex {
        hex_digit_value(c) as int
    } else {
        c as int - '0' as int
    }
}

/// Value of a digit string read most-significant first.
pub open spec fn digits_value(ds: Seq<char>, hex: bool) -> int
    decreases ds.len(),
{
    if ds.len() == 0 {
        0
    } else if hex {
        digits_value(ds.drop_last(), hex) * 16 + digit_value(ds.last(), hex)
    } else {
        digits_value(ds.drop_last(), hex) * 10 + digit_value(ds.last(), hex)
    }
}

/// What a non-empty digit string denotes: its value, provided every
/// character is a valid digit and the value fits the offset type.
pub open spec fn digits_parse_spec(ds: Seq<char>, hex: bool) -> Option<int> {
    if ds.len() > 0 && (forall|j: int| 0 <= j < ds.len() ==> valid_digit(ds[j], hex))
        && digits_value(ds, hex) <= usize::MAX {
        Some(digits_value(ds, hex))
    } else {
        None
    }
}

/// What an offset expression denotes, if anything: trim surrounding
/// whitespace; a `0x`/`0X` prefix selects base 16, otherwise base 10; one
/// leading `+` before the digits is allowed; the digits must be non-empty,
/// all valid under the base, and denote a value that fits the machine's
/// offset type.
pub open spec fn parse_offset_spec(s: Seq<char>) -> Option<int> {
    let t = trimmed(s);
    let hex = t.len() >= 2 && t[0] == '0' && (t[1] == 'x' || t[1] == 'X');
    let body = if hex {
        t.skip(2)
    } else {
        t
    };
    let ds = if body.len() > 0 && body[0] == '+' {
        body.skip(1)
    } else {
        body
    };
    digits_parse_spec(ds, hex)
}

proof fn lemma_digits_value_nonneg(ds: Seq<char>, hex: bool)
    requires
        forall|j: int| 0 <= j < ds.len() ==> valid_digit(ds[j], hex),
    ensures
        digits_value(ds, hex) >= 0,
    decreases ds.len(),
{
    if ds.len() > 0 {
        assert(forall|j: int| 0 <= j < ds.drop_last().len() ==> valid_digit(
            ds.drop_last()[j],
            hex,
        ));
        lemma_digits_value_nonneg(ds.drop_last(), hex);
    }
}

proof fn lemma_digits_prefix_le(ds: Seq<char>, hex: bool, i: int)
    requires
        0 <= i <= ds.len(),
        forall|j: int| 0 <= j < ds.len() ==> valid_digit(ds[j], hex),
    ensures
        digits_value(ds.subrange(0, i), hex) <= digits_value(ds, hex),
    decreases ds.len() - i,
{
    if i == ds.len() {
        assert(ds.subrange(0, i) =~= ds);
    } else {
        lemma_digits_prefix_le(ds, hex, i + 1);
        let p1 = ds.subrange(0, i + 1);
        assert(p1.drop_last() =~= ds.subrange(0, i));
        assert(forall|j: int| 0 <= j < ds.subrange(0, i).len() ==> valid_digit(
            ds.subrange(0, i)[j],
            hex,
        ));
        lemma_digits_value_nonneg(ds.subrange(0, i), hex);
    }
}

/// Whether a character counts as trimmable whitespace.
fn is_space_char(c: char) -> (r: bool)
    ensures
        r == is_space(c),
{
    let u = c as u32;
    (9 <= u && u <= 13) || u == 0x20 || u == 0x85 || u == 0xA0 || u == 0x1680 || (0x2000 <= u
        && u <= 0x200A) || u == 0x2028 || u == 0x2029 || u == 0x202F || u == 0x205F || u == 0x3000
}

/// Bounds of the expression once surrounding whitespace is dropped.
fn trim_bounds(text: &str) -> (r: (usize, usize))
    ensures
        r.0 <= r.1 <= text@.len(),
        trimmed(text@) == text@.subrange(r.0 as int, r.1 as int),
{
    let len = text.unicode_len();
    let mut lo: usize = 0;
    proof {
        assert(text@.skip(0) =~= text@);
    }
    while lo < len && is_space_char(text.get_char(lo))
        invariant
            lo <= len,
            len == text@.len(),
            trim_front(text@) == trim_front(text@.skip(lo as int)),
        decreases len - lo,
    {
        proof {
            assert(text@.skip(lo as int).skip(1) =~= text@.skip(lo + 1));
        }
        lo += 1;
    }
    proof {
        if lo == len {
            assert(text@.skip(lo as int) =~= Seq::<char>::empty());
        }
        assert(trim_front(text@) == text@.skip(lo as int));
        assert(text@.skip(lo as int) =~= text@.subrange(lo as int, len as int));
    }
    let mut hi: usize = len;
    while hi > lo && is_space_char(text.get_char(hi - 1))
        invariant
            lo <= hi <= len,
            len == text@.len(),
            trim_front(text@) == text@.subrange(lo as int, len as int),
            trim_back(text@.subrange(lo as int, len as int)) == trim_back(
                text@.subrange(lo as int, hi as int),
            ),
        decreases hi,
    {
        proof {
            assert(text@.subrange(lo as int, hi as int).drop_last() =~= text@.subrange(
                lo as int,
                hi - 1,
            ));
        }
        hi -= 1;
    }
    proof {
        if hi > lo {
            assert(text@.subrange(lo as int, hi as int).last() == text@[hi - 1]);
        } else {
            assert(text@.subrange(lo as int, hi as int) =~= Seq::<char>::empty());
        }
        assert(trim_back(text@.subrange(lo as int, hi as int)) == text@.subrange(
            lo as int,
            hi as int,
        ));
    }
    (lo, hi)
}

/// Parses the digit run `text[d_lo..hi]` under the chosen base, rejecting
/// stray characters and values too large for the offset type.
fn parse_digits(text: &str, d_lo: usize, hi: usize, hex: bool) -> (r: Result<usize, ParseError>)
    requires
        d_lo < hi <= text@.len(),
    ensures
        r matches Ok(v) ==> digits_parse_spec(text@.subrange(d_lo as int, hi as int), hex)
            == Some(v as int),
        r is Err <==> digits_parse_spec(text@.subrange(d_lo as int, hi as int), hex) is None,
{
    let ghost ds = text@.subrange(d_lo as int, hi as int);
    let mut acc: u128 = 0;
    let mut j: usize = d_lo;
    proof {
        assert(ds.subrange(0, 0) =~= Seq::<char>::empty());
    }
    while j < hi
        invariant
            d_lo <= j <= hi <= text@.len(),
            ds == text@.subrange(d_lo as int, hi as int),
            acc <= usize::MAX as u128,
            forall|k: int| 0 <= k < j - d_lo ==> valid_digit(ds[k], hex),
            acc as int == digits_value(ds.subrange(0, j - d_lo), hex),
        decreases hi - j,
    {
        let c = text.get_char(j);
        proof {
            assert(ds[j - d_lo] == text@[j as int]);
            assert(ds.subrange(0, j - d_lo + 1).drop_last() =~= ds.subrange(0, j - d_lo));
            assert(ds.subrange(0, j - d_lo + 1).last() == ds[j - d_lo]);
        }
        let d: u128 = if hex {
            match hex_digit_of_char(c) {
                Some(v) => v as u128,
                None => {
                    return Err(ParseError);
                },
            }
        } else {
            if '0' <= c && c <= '9' {
                (c as u8 - '0' as u8) as u128
            } else {
                return Err(ParseError);
            }
        };
        acc = if hex {
            acc * 16 + d
        } else {
            acc * 10 + d
        };
        j += 1;
        if acc > usize::MAX as u128 {
            proof {
                if forall|m: int| 0 <= m < ds.len() ==> valid_digit(ds[m], hex) {
                    lemma_digits_prefix_le(ds, hex, j - d_lo);
                }
            }
            return Err(ParseError);
        }
    }
    proof {
        assert(ds.subrange(0, ds.len() as int) =~= ds);
    }
    Ok(acc as usize)
}

/// Parses a user-supplied offset expression. Returns the denoted offset, or
/// [`ParseError`] exactly when the expression denotes nothing: empty or
/// all-whitespace text, a stray non-digit character, or a value too large
/// for the offset type.
pub fn parse_offset(text: &str) -> (r: Result<usize, ParseError>)
    ensures
        r matches Ok(v) ==> parse_offset_spec(text@) == Some(v as int),
        r is Err <==> parse_offset_spec(text@) is None,
{
    let (lo, hi) = trim_bounds(text);
    let ghost t = text@.subrange(lo as int, hi as int);

    // Base prefix.
    let hex = hi - lo >= 2 && text.get_char(lo) == '0' && {
        let c1 = text.get_char(lo + 1);
        c1 == 'x' || c1 == 'X'
    };
    let body_lo = if hex {
        lo + 2
    } else {
        lo
    };
    proof {
        assert(t.len() >= 2 ==> t[0] == text@[lo as int] && t[1] == text@[lo + 1]);
        if hex {
            assert(t.skip(2) =~= text@.subrange(body_lo as int, hi as int));
        } else {
            assert(t =~= text@.subrange(body_lo as int, hi as int));
        }
    }
    let ghost body = text@.subrange(body_lo as int, hi as int);

    // Optional sign.
    let d_lo = if body_lo < hi && text.get_char(body_lo) == '+' {
        body_lo + 1
    } else {
        body_lo
    };
    proof {
        assert(body.len() > 0 ==> body[0] == text@[body_lo as int]);
        if d_lo != body_lo {
            assert(body.skip(1) =~= text@.subrange(d_lo as int, hi as int));
        } else {
            assert(body =~= text@.subrange(d_lo as int, hi as int));
        }
    }

    if d_lo == hi {
        proof {
            assert(text@.subrange(d_lo as int, hi as int) =~= Seq::<char>::empty());
        }
        return Err(ParseError);
    }
    parse_digits(text, d_lo, hi, hex)
}

/// Display row of an offset: positions are presented row-wise, a fixed
/// number of bytes per row.
pub open spec fn row_of_offset_spec(offset: int) -> int {
    offset / (BYTES_PER_ROW as int)
}

/// Derives the display row an offset falls in.
pub fn row_of_offset(offset: usize) -> (r: usize)
    ensures
        r == row_of_offset_spec(offset as int),
{
    offset / BYTES_PER_ROW
}

} // verus!
