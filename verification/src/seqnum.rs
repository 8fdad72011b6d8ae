//! Modular 32-bit sequence-number arithmetic and the window-acceptance test.
//!
//! All sequence comparisons wrap modulo 2^32. `accepts` is the single source
//! of truth for window membership; every check in the connection state
//! machine delegates to it.

use vstd::prelude::*;

verus! {

/// Addition on the 32-bit sequence-number circle.
pub open spec fn wrap_add(a: u32, k: u32) -> u32 {
    if a + k > u32::MAX {
        (a + k - 0x1_0000_0000) as u32
    } else {
        (a + k) as u32
    }
}

/// Subtraction on the 32-bit sequence-number circle.
pub open spec fn wrap_sub(a: u32, k: u32) -> u32 {
    if a - k < 0 {
        (a - k + 0x1_0000_0000) as u32
    } else {
        (a - k) as u32
    }
}

/// Forward distance from `a` to `b` on the circle: how many steps forward
/// from `a` until `b` is reached. Always in `[0, 2^32)`.
pub open spec fn wrap_dist(a: u32, b: u32) -> int {
    if b >= a {
        b - a
    } else {
        b + 0x1_0000_0000 - a
    }
}

/// Whether `x` lies on the open directed arc from `start` forward to `end`
/// on the sequence circle, exclusive of both ends: the arc leaving `start`
/// reaches `x` before it reaches `end`. This is the one comparison rule the
/// whole state machine delegates to.
pub open spec fn accepts(start: u32, x: u32, end: u32) -> bool {
    if start == x {
        false
    } else if start < x {
        !(end <= x && start <= end)
    } else {
        x < end && end < start
    }
}

/// Executable form of [`accepts`].
pub fn is_between_wrapped(start: u32, x: u32, end: u32) -> (r: bool)
    ensures
        r == accepts(start, x, end),
{
    if start == x {
        false
    } else if start < x {
        !(end <= x && start <= end)
    } else {
        x < end && end < start
    }
}

/// The window never admits its own base point: `accepts(a, b, c)` is false
/// whenever `a == b`, for every `a` and `c`.
pub proof fn lemma_accepts_excludes_start(a: u32, c: u32)
    ensures
        !accepts(a, a, c),
{
}

/// The window never admits its own end point: `accepts(a, c, c)` is false
/// for every `a` and `c` — the end is exclusive.
pub proof fn lemma_accepts_excludes_end(a: u32, c: u32)
    ensures
        !accepts(a, c, c),
{
}

/// Directed-arc consistency: for distinct `a`, `x`, `c`, membership of `x`
/// in the arc from `a` to `c` is the opposite of its membership in the
/// reversed arc from `c` to `a` — the two arcs split the circle between
/// them.
pub proof fn lemma_accepts_arc_antisymmetry(a: u32, x: u32, c: u32)
    requires
        a != x,
        a != c,
        x != c,
    ensures
        accepts(a, x, c) == !accepts(c, x, a),
{
}

} // verus!


