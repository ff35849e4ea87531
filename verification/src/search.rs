//! Pattern search: query encoding and circular forward scan.

use vstd::prelude::*;

use crate::hexchars::{hex_digit_of_char, hex_digit_value, is_hex_digit};

verus! {

/// The hexadecimal digits of a query, other characters discarded.
pub open spec fn hex_digits_of(q: Seq<char>) -> Seq<char> {
    q.filter(|c: char| is_hex_digit(c))
}

/// Byte formed by a high and a low hexadecimal digit.
pub open spec fn hex_pair_value(hi: char, lo: char) -> u8
    recommends
        is_hex_digit(hi),
        is_hex_digit(lo),
{
    (hex_digit_value(hi) * 16 + hex_digit_value(lo)) as u8
}

/// Bytes formed by pairing consecutive digits from the front; an unpaired
/// trailing digit contributes no byte.
pub open spec fn paired_bytes(ds: Seq<char>) -> Seq<u8>
    decreases ds.len(),
{
    if ds.len() % 2 == 1 {
        paired_bytes(ds.drop_last())
    } else if ds.len() == 0 {
        seq![]
    } else {
        paired_bytes(ds.drop_last().drop_last()).push(
            hex_pair_value(ds[ds.len() - 2], ds[ds.len() - 1]),
        )
    }
}

/// The byte needle a query resolves to: in hex interpretation, its
/// hexadecimal digits paired into bytes; in text interpretation, the UTF-8
/// bytes of the query.
pub open spec fn needle_of(q: Seq<char>, hex_mode: bool) -> Seq<u8> {
    if hex_mode {
        paired_bytes(hex_digits_of(q))
    } else {
        vstd::utf8::encode_utf8(q)
    }
}

proof fn lemma_hex_digits_push(q: Seq<char>, c: char)
    ensures
        is_hex_digit(c) ==> hex_digits_of(q.push(c)) == hex_digits_of(q).push(c),
        !is_hex_digit(c) ==> hex_digits_of(q.push(c)) == hex_digits_of(q),
{
    reveal(Seq::filter);
    assert(q.push(c).drop_last() =~= q);
    assert(q.push(c).last() == c);
}

proof fn lemma_paired_bytes_push(ds: Seq<char>, c: char)
    ensures
        ds.len() % 2 == 0 ==> paired_bytes(ds.push(c)) == paired_bytes(ds),
        ds.len() % 2 == 1 ==> paired_bytes(ds.push(c)) == paired_bytes(ds).push(
            hex_pair_value(ds.last(), c),
        ),
{
    assert(ds.push(c).drop_last() =~= ds);
    if ds.len() % 2 == 1 {
        assert(ds.push(c).len() % 2 == 0);
        assert(ds.push(c)[ds.push(c).len() - 2] == ds.last());
        assert(ds.push(c)[ds.push(c).len() - 1] == c);
    }
}

/// Resolves a query into the byte needle to scan for. In hex interpretation,
/// non-hex characters are discarded and consecutive digits are paired into
/// bytes, an odd trailing digit contributing nothing; in text interpretation,
/// the query's UTF-8 bytes are taken verbatim.
pub fn encode_needle(query: &str, hex_mode: bool) -> (r: Vec<u8>)
    ensures
        r@ == needle_of(query@, hex_mode),
{
    if !hex_mode {
        return query.as_bytes_vec();
    }
    let len = query.unicode_len();
    let mut out: Vec<u8> = Vec::new();
    let mut pending: Option<u8> = None;
    let mut i: usize = 0;
    while i < len
        invariant
            i <= len,
            len == query@.len(),
            pending is None ==> hex_digits_of(query@.subrange(0, i as int)).len() % 2 == 0,
            pending matches Some(hi) ==> {
                let ds = hex_digits_of(query@.subrange(0, i as int));
                &&& ds.len() % 2 == 1
                &&& hi == hex_digit_value(ds.last())
                &&& hi < 16
            },
            out@ == paired_bytes(hex_digits_of(query@.subrange(0, i as int))),
        decreases len - i,
    {
        let c = query.get_char(i);
        proof {
            assert(query@.subrange(0, i + 1) =~= query@.subrange(0, i as int).push(query@[i as int]));
            lemma_hex_digits_push(query@.subrange(0, i as int), c);
            lemma_paired_bytes_push(hex_digits_of(query@.subrange(0, i as int)), c);
        }
        match hex_digit_of_char(c) {
            Some(v) => {
                match pending {
                    None => {
                        pending = Some(v);
                    },
                    Some(hi) => {
                        out.push(hi * 16 + v);
                        pending = None;
                    },
                }
            },
            None => {},
        }
        i += 1;
    }
    proof {
        assert(query@.subrange(0, len as int) =~= query@);
    }
    out
}

/// The needle occurs in `data` at position `i`.
pub open spec fn matches_at(data: Seq<u8>, needle: Seq<u8>, i: int) -> bool {
    &&& 0 <= i
    &&& i + needle.len() <= data.len()
    &&& forall|j: int| 0 <= j < needle.len() ==> data[i + j] == needle[j]
}

/// First position in `[lo, hi)` where the needle occurs, if any.
pub open spec fn first_match_in(data: Seq<u8>, needle: Seq<u8>, lo: int, hi: int) -> Option<int>
    decreases hi - lo,
{
    if lo >= hi {
        None
    } else if matches_at(data, needle, lo) {
        Some(lo)
    } else {
        first_match_in(data, needle, lo + 1, hi)
    }
}

/// What a whole search returns: the first occurrence starting at or after
/// `start`, else — wrapping around — the first occurrence starting in
/// `[0, start)`; `None` for an empty needle. Every occurrence starts either
/// at/after `start` or before it, so a present needle is always found —
/// including one that starts before `start` and ends past it.
pub open spec fn search_spec(data: Seq<u8>, needle: Seq<u8>, start: int) -> Option<int> {
    if needle.len() == 0 {
        None
    } else {
        let hi = data.len() - needle.len() + 1;
        let fwd = first_match_in(data, needle, start, hi);
        if fwd is Some {
            fwd
        } else {
            first_match_in(data, needle, 0, if start < hi { start } else { hi })
        }
    }
}

/// What `first_match_in` returns is the first occurrence in its range:
/// a returned position is in range, the needle occurs there, and at no
/// earlier position of the range; `None` means the needle occurs nowhere
/// in the range.
pub proof fn lemma_first_match_props(data: Seq<u8>, needle: Seq<u8>, lo: int, hi: int)
    ensures
        match first_match_in(data, needle, lo, hi) {
            Some(i) => lo <= i < hi && matches_at(data, needle, i) && (forall|p: int|
                lo <= p < i ==> !matches_at(data, needle, p)),
            None => forall|p: int| lo <= p < hi ==> !matches_at(data, needle, p),
        },
    decreases hi - lo,
{
    if lo < hi && !matches_at(data, needle, lo) {
        lemma_first_match_props(data, needle, lo + 1, hi);
    }
}

proof fn lemma_first_match_is(data: Seq<u8>, needle: Seq<u8>, lo: int, hi: int, i: int)
    requires
        lo <= i < hi,
        matches_at(data, needle, i),
        forall|p: int| lo <= p < i ==> !matches_at(data, needle, p),
    ensures
        first_match_in(data, needle, lo, hi) == Some(i),
    decreases i - lo,
{
    if lo < i {
        lemma_first_match_is(data, needle, lo + 1, hi, i);
    }
}

proof fn lemma_first_match_none(data: Seq<u8>, needle: Seq<u8>, lo: int, hi: int)
    requires
        forall|p: int| lo <= p < hi ==> !matches_at(data, needle, p),
    ensures
        first_match_in(data, needle, lo, hi) is None,
    decreases hi - lo,
{
    if lo < hi {
        lemma_first_match_none(data, needle, lo + 1, hi);
    }
}

/// The needle occurs at position `i`, checked byte for byte.
fn match_at(data: &Vec<u8>, needle: &Vec<u8>, i: usize) -> (r: bool)
    requires
        i + needle@.len() <= data@.len(),
    ensures
        r == matches_at(data@, needle@, i as int),
{
    let n = needle.len();
    let dl = data.len();
    let mut j: usize = 0;
    while j < n
        invariant
            j <= n,
            n == needle@.len(),
            dl == data@.len(),
            i + n <= dl,
            forall|k: int| 0 <= k < j ==> data@[i + k] == needle@[k],
        decreases n - j,
    {
        if data[i + j] != needle[j] {
            return false;
        }
        j += 1;
    }
    true
}

/// First occurrence of the needle at a position in `[lo, hi)`.
fn find_first_in(data: &Vec<u8>, needle: &Vec<u8>, lo: usize, hi: usize) -> (r: Option<usize>)
    requires
        needle@.len() >= 1,
        hi + needle@.len() <= data@.len() + 1,
    ensures
        match r {
            Some(i) => first_match_in(data@, needle@, lo as int, hi as int) == Some(i as int),
            None => first_match_in(data@, needle@, lo as int, hi as int) is None,
        },
{
    let mut i: usize = lo;
    while i < hi
        invariant
            lo <= i,
            needle@.len() >= 1,
            hi + needle@.len() <= data@.len() + 1,
            forall|p: int| lo <= p < i ==> !matches_at(data@, needle@, p),
        decreases hi - i,
    {
        if match_at(data, needle, i) {
            proof {
                lemma_first_match_is(data@, needle@, lo as int, hi as int, i as int);
            }
            return Some(i);
        }
        i += 1;
    }
    proof {
        lemma_first_match_none(data@, needle@, lo as int, hi as int);
    }
    None
}

/// Circular forward scan. Scans for the first occurrence starting in
/// `[start, len)`, then wraps and scans the start positions in `[0, start)`;
/// returns the first match in that scan order — so an occurrence beginning
/// before `start` is still found after wrapping, even when it ends past
/// `start`. An empty needle never matches.
pub fn search(data: &Vec<u8>, needle: &Vec<u8>, start: usize) -> (r: Option<usize>)
    requires
        start <= data@.len(),
    ensures
        match r {
            Some(i) => search_spec(data@, needle@, start as int) == Some(i as int),
            None => search_spec(data@, needle@, start as int) is None,
        },
{
    let n = needle.len();
    if n == 0 {
        return None;
    }
    if n > data.len() {
        proof {
            let hi = data@.len() - n + 1;
            lemma_first_match_none(data@, needle@, start as int, hi);
            lemma_first_match_none(
                data@,
                needle@,
                0,
                if (start as int) < hi {
                    start as int
                } else {
                    hi
                },
            );
        }
        return None;
    }
    let hi_fwd = data.len() - n + 1;
    let lo_fwd = if start < hi_fwd {
        start
    } else {
        hi_fwd
    };
    proof {
        if lo_fwd != start {
            lemma_first_match_none(data@, needle@, start as int, hi_fwd as int);
        }
    }
    let fwd = find_first_in(data, needle, lo_fwd, hi_fwd);
    match fwd {
        Some(i) => Some(i),
        None => {
            let wrap_hi = if start < hi_fwd {
                start
            } else {
                hi_fwd
            };
            find_first_in(data, needle, 0, wrap_hi)
        },
    }
}

/// A returned search offset is always a real occurrence inside the buffer:
/// it lies in `[0, data.len() - needle.len()]` and the needle occurs there.
pub proof fn lemma_search_within_bounds(data: Seq<u8>, needle: Seq<u8>, start: int)
    ensures
        search_spec(data, needle, start) matches Some(i) ==> 0 <= i && i + needle.len()
            <= data.len() && matches_at(data, needle, i),
{
    if needle.len() > 0 {
        let hi = data.len() - needle.len() + 1;
        lemma_first_match_props(data, needle, start, hi);
        lemma_first_match_props(
            data,
            needle,
            0,
            if start < hi {
                start
            } else {
                hi
            },
        );
    }
}

/// The circular scan covers every start position, so a search finds a hit
/// whenever the needle occurs anywhere in the buffer: every occurrence
/// starts either at/after the start offset (forward segment) or before it
/// (wrap segment).
pub proof fn lemma_search_finds(data: Seq<u8>, needle: Seq<u8>, start: int, p: int)
    requires
        needle.len() > 0,
        matches_at(data, needle, p),
    ensures
        search_spec(data, needle, start) is Some,
{
    let hi = data.len() - needle.len() + 1;
    lemma_first_match_props(data, needle, start, hi);
    lemma_first_match_props(
        data,
        needle,
        0,
        if start < hi {
            start
        } else {
            hi
        },
    );
}

/// Repeating a search from just past a returned occurrence finds another
/// hit — the next occurrence forward, or one reached by wrapping around,
/// the same occurrence again when it is the only one.
pub proof fn lemma_search_repeat(data: Seq<u8>, needle: Seq<u8>, i: int)
    requires
        needle.len() > 0,
        matches_at(data, needle, i),
    ensures
        search_spec(data, needle, i + 1) is Some,
        search_spec(data, needle, i + 1) matches Some(j) ==> matches_at(data, needle, j),
{
    lemma_search_finds(data, needle, i + 1, i);
    lemma_search_within_bounds(data, needle, i + 1);
}

/// When the needle occurs at exactly one position, every search returns
/// exactly that position — in particular, a repeated search wraps back to
/// the same lone occurrence.
pub proof fn lemma_search_unique(data: Seq<u8>, needle: Seq<u8>, start: int, p: int)
    requires
        needle.len() > 0,
        matches_at(data, needle, p),
        forall|q: int| matches_at(data, needle, q) ==> q == p,
    ensures
        search_spec(data, needle, start) == Some(p),
{
    lemma_search_finds(data, needle, start, p);
    lemma_search_within_bounds(data, needle, start);
}

} // verus!
