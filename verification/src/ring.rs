//! Circular-cursor arithmetic shared by the transmit and receive
//! descriptor rings.
//!
//! A ring of `n` descriptors carries cursors that are always kept in
//! `[0, n)`. The distance from one cursor to another, walking forward
//! around the ring, is `dist`; a half-open window of slots starting at
//! one cursor and ending before another is `in_window`. Because cursors
//! are stored reduced modulo `n`, every fact here is plain linear
//! arithmetic over a case split, with no modulo operator at run time.

use vstd::prelude::*;

verus! {

/// Hardware length registers constrain a ring to a power-of-two number
/// of descriptors in this range.
pub open spec fn valid_ring_size(n: usize) -> bool {
    8 <= n && n <= 4096 && (n & ((n - 1) as usize)) == 0
}

/// Runtime check mirroring `valid_ring_size`.
pub fn check_ring_size(n: usize) -> (r: bool)
    ensures
        r == valid_ring_size(n),
{
    8 <= n && n <= 4096 && (n & (n - 1)) == 0
}

/// Forward distance from cursor `from` to cursor `to` on a ring of `n`
/// slots; both cursors reduced, result in `[0, n)`.
pub open spec fn dist(from: int, to: int, n: int) -> int {
    if to >= from {
        to - from
    } else {
        to - from + n
    }
}

/// Slot index `k` steps forward of `start` on a ring of `n` slots.
pub open spec fn slot_add(start: int, k: int, n: int) -> int {
    if start + k < n {
        start + k
    } else {
        start + k - n
    }
}

/// True when slot `i` lies in the half-open window that starts at
/// `start` and ends just before `end`, walking forward.
pub open spec fn in_window(start: int, end: int, i: int, n: int) -> bool {
    dist(start, i, n) < dist(start, end, n)
}

/// A ring never holds more in-flight slots than its capacity: the
/// forward distance between two reduced cursors is at most `n - 1`.
pub proof fn lemma_dist_bounded(from: int, to: int, n: int)
    requires
        0 <= from < n,
        0 <= to < n,
    ensures
        0 <= dist(from, to, n) <= n - 1,
{
}

/// Two cursors at the same forward distance from a common origin are
/// the same cursor.
pub proof fn lemma_dist_injective(from: int, a: int, b: int, n: int)
    requires
        0 <= from < n,
        0 <= a < n,
        0 <= b < n,
        dist(from, a, n) == dist(from, b, n),
    ensures
        a == b,
{
}

/// Splitting a window at an interior cursor: when `mid` lies no further
/// from `start` than `end` does, the window from `mid` to `end` holds
/// exactly the slots of the window from `start` to `end` that the
/// window from `start` to `mid` does not.
pub proof fn lemma_window_split(start: int, mid: int, end: int, i: int, n: int)
    requires
        0 <= start < n,
        0 <= mid < n,
        0 <= end < n,
        0 <= i < n,
        dist(start, mid, n) <= dist(start, end, n),
    ensures
        in_window(mid, end, i, n) <==> (in_window(start, end, i, n) && !in_window(start, mid, i, n)),
{
}

/// Runtime forward distance between two reduced cursors.
pub fn ring_dist(from: usize, to: usize, n: usize) -> (r: usize)
    requires
        from < n,
        to < n,
    ensures
        r == dist(from as int, to as int, n as int),
{
    if to >= from {
        to - from
    } else {
        (n - from) + to
    }
}

/// Runtime successor of a reduced cursor.
pub fn ring_next(i: usize, n: usize) -> (r: usize)
    requires
        i < n,
    ensures
        r == slot_add(i as int, 1, n as int),
        r < n,
{
    if i + 1 == n {
        0
    } else {
        i + 1
    }
}

} // verus!
