//! The choices behind the alternating procedural patterns. Each pattern
//! shows one of two colours, chosen by the parity of the unit cell that a
//! point falls in: its coordinates rounded down, or for rings its distance
//! from the axis rounded down.
use vstd::prelude::*;

verus! {

/// Whether `n` is even (negative numbers included).
pub open spec fn is_even(n: int) -> bool {
    n % 2 == 0
}

/// The colour of a stripe pattern in the band whose x coordinate rounds down to `cell_x`.
pub open spec fn stripe_pick<C>(a: C, b: C, cell_x: int) -> C {
    if is_even(cell_x) {
        a
    } else {
        b
    }
}

/// The colour of a checker pattern in the cube whose coordinates round down
/// to `(cell_x, cell_y, cell_z)`.
pub open spec fn checker_pick<C>(a: C, b: C, cell_x: int, cell_y: int, cell_z: int) -> C {
    if is_even(cell_x + cell_y + cell_z) {
        a
    } else {
        b
    }
}

fn even(n: i64) -> (r: bool)
    ensures
        r == is_even(n as int),
{
    n % 2 == 0
}

/// Stripes along x: `a` where the x coordinate rounds down to an even
/// number, `b` where it rounds down to an odd one.
pub fn stripe_at<C: Copy>(a: C, b: C, cell_x: i64) -> (c: C)
    ensures
        c == stripe_pick(a, b, cell_x as int),
{
    if even(cell_x) {
        a
    } else {
        b
    }
}

/// Concentric rings about the y axis: `a` where the distance from the axis
/// rounds down to an even number `ring`, `b` where it rounds down to an odd one.
pub fn ring_at<C: Copy>(a: C, b: C, ring: i64) -> (c: C)
    ensures
        c == stripe_pick(a, b, ring as int),
{
    if even(ring) {
        a
    } else {
        b
    }
}

/// A three-dimensional checker board: `a` where the rounded-down
/// coordinates have an even sum, `b` where the sum is odd.
pub fn checker_at<C: Copy>(a: C, b: C, cell_x: i64, cell_y: i64, cell_z: i64) -> (c: C)
    ensures
        c == checker_pick(a, b, cell_x as int, cell_y as int, cell_z as int),
{
    let parity: i64 = cell_x % 2 + cell_y % 2 + cell_z % 2;
    assert(is_even(cell_x + cell_y + cell_z) == (parity % 2 == 0));
    if even(parity) {
        a
    } else {
        b
    }
}

/// A stripe pattern of two distinct colours changes colour at every integer
/// boundary of x, and repeats every two units.
pub proof fn lemma_stripe_alternates<C>(a: C, b: C, cell_x: int)
    requires
        a != b,
    ensures
        stripe_pick(a, b, cell_x) != stripe_pick(a, b, cell_x + 1),
        stripe_pick(a, b, cell_x) == stripe_pick(a, b, cell_x + 2),
{
}

/// A checker pattern of two distinct colours shows the same colour in two
/// cubes exactly when the sums of their rounded-down coordinates have the
/// same parity; so stepping one cube along any axis changes the colour.
pub proof fn lemma_checker_follows_parity<C>(
    a: C,
    b: C,
    x1: int,
    y1: int,
    z1: int,
    x2: int,
    y2: int,
    z2: int,
)
    requires
        a != b,
    ensures
        (checker_pick(a, b, x1, y1, z1) == checker_pick(a, b, x2, y2, z2)) <==> (is_even(
            x1 + y1 + z1,
        ) == is_even(x2 + y2 + z2)),
        checker_pick(a, b, x1, y1, z1) != checker_pick(a, b, x1 + 1, y1, z1),
        checker_pick(a, b, x1, y1, z1) != checker_pick(a, b, x1, y1 + 1, z1),
        checker_pick(a, b, x1, y1, z1) != checker_pick(a, b, x1, y1, z1 + 1),
{
}

} // verus!
