//! Per-axis coordinate arithmetic shared by every position type.
//!
//! One tree level splits an axis by 4, so moving a coordinate toward the
//! root is an arithmetic shift right by 2, and moving it toward the leaves
//! is a shift left by 2 followed by OR-ing in the two child-selector bits.
//! The low two bits of an axis select the child slot within the parent.

use vstd::prelude::*;

verus! {

/// The two child-selector bits of one axis: `x & 3`, always in `[0, 4)`.
pub open spec fn axis_low2(x: i64) -> i64 {
    x & 3
}

/// One level toward the root: arithmetic shift right by 2 (Euclidean
/// division by 4, also for negative coordinates).
pub open spec fn axis_down(x: i64) -> i64 {
    x >> 2
}

/// One level toward the leaves: shift left by 2, then OR in two
/// child-selector bits.
pub open spec fn axis_up(x: i64, b: i64) -> i64 {
    (x << 2) | (b & 3)
}

/// The selector bits are the Euclidean remainder of the axis by 4.
pub proof fn lemma_axis_low2(x: i64)
    ensures
        0 <= axis_low2(x) < 4,
        axis_low2(x) == (x as int) % 4,
{
    assert(0 <= (x & 3) < 4 && (x & 3) == (x as int) % 4) by (bit_vector);
}

/// Descending one level is Euclidean division by 4 and keeps the axis
/// inside one quarter of the `i64` range.
pub proof fn lemma_axis_down(x: i64)
    ensures
        axis_down(x) == (x as int) / 4,
        -0x2000_0000_0000_0000 <= axis_down(x) < 0x2000_0000_0000_0000,
{
    assert((x >> 2) == (x as int) / 4 && -0x2000_0000_0000_0000 <= (x >> 2)
        < 0x2000_0000_0000_0000) by (bit_vector);
}

/// On an axis that came out of `axis_down`, ascending is plain
/// arithmetic: multiply by 4 and add the selector bits.
pub proof fn lemma_axis_up(x: i64, b: i64)
    requires
        -0x2000_0000_0000_0000 <= x < 0x2000_0000_0000_0000,
        0 <= b < 4,
    ensures
        axis_up(x, b) == 4 * (x as int) + b,
{
    assert(((x << 2) | (b & 3)) == 4 * (x as int) + b) by (bit_vector)
        requires
            -0x2000_0000_0000_0000 <= x < 0x2000_0000_0000_0000 && 0 <= b < 4,
    ;
}

/// Splitting an axis into parent and selector bits and re-joining them
/// restores the axis exactly, for every representable value.
pub proof fn lemma_axis_roundtrip(x: i64)
    ensures
        axis_up(axis_down(x), axis_low2(x)) == x,
{
    assert(((x >> 2) << 2) | ((x & 3) & 3) == x) by (bit_vector);
}

/// Packs three per-axis selectors into one 6-bit tree index:
/// `x | (y << 2) | (z << 4)`.
pub open spec fn pack_sel(a: u8, b: u8, c: u8) -> u8 {
    a | (b << 2) | (c << 4)
}

/// The x-axis selector stored in a tree index.
pub open spec fn sel_x(i: u8) -> u8 {
    i & 3
}

/// The y-axis selector stored in a tree index.
pub open spec fn sel_y(i: u8) -> u8 {
    (i >> 2) & 3
}

/// The z-axis selector stored in a tree index.
pub open spec fn sel_z(i: u8) -> u8 {
    (i >> 4) & 3
}

/// The fourth-lane selector of a tree index; zero on every index below 64.
pub open spec fn sel_w(i: u8) -> u8 {
    (i >> 6) & 3
}

/// A tree index below 64 carries no fourth-lane selector.
pub proof fn lemma_sel_w(i: u8)
    ensures
        sel_w(i) < 4,
        i < 64 ==> sel_w(i) == 0,
{
    assert(((i >> 6) & 3) < 4 && (i < 64 ==> ((i >> 6) & 3) == 0)) by (bit_vector);
}

/// Extracts the x-axis selector of a tree index.
pub fn part_x(i: u8) -> (r: u8)
    ensures
        r == sel_x(i),
        r < 4,
{
    proof {
        lemma_unpack_sel(i);
    }
    i & 3
}

/// Extracts the y-axis selector of a tree index.
pub fn part_y(i: u8) -> (r: u8)
    ensures
        r == sel_y(i),
        r < 4,
{
    proof {
        lemma_unpack_sel(i);
    }
    (i >> 2) & 3
}

/// Extracts the z-axis selector of a tree index.
pub fn part_z(i: u8) -> (r: u8)
    ensures
        r == sel_z(i),
        r < 4,
{
    proof {
        lemma_unpack_sel(i);
    }
    (i >> 4) & 3
}

/// Extracts the fourth-lane selector of a tree index.
pub fn part_w(i: u8) -> (r: u8)
    ensures
        r == sel_w(i),
        r < 4,
{
    proof {
        lemma_sel_w(i);
    }
    (i >> 6) & 3
}

/// A packed tree index is below 64, equals the base-4 sum of its
/// selectors, and unpacking recovers each selector.
pub proof fn lemma_pack_sel(a: u8, b: u8, c: u8)
    requires
        a < 4,
        b < 4,
        c < 4,
    ensures
        pack_sel(a, b, c) < 64,
        pack_sel(a, b, c) == a + 4 * b + 16 * c,
        sel_x(pack_sel(a, b, c)) == a,
        sel_y(pack_sel(a, b, c)) == b,
        sel_z(pack_sel(a, b, c)) == c,
{
    assert((a | (b << 2) | (c << 4)) < 64 && (a | (b << 2) | (c << 4)) == a + 4 * b + 16 * c
        && ((a | (b << 2) | (c << 4)) & 3) == a && (((a | (b << 2) | (c << 4)) >> 2) & 3) == b
        && (((a | (b << 2) | (c << 4)) >> 4) & 3) == c) by (bit_vector)
        requires
            a < 4 && b < 4 && c < 4,
    ;
}

/// Every tree index below 64 is the packing of its own selectors, and
/// each selector is below 4.
pub proof fn lemma_unpack_sel(i: u8)
    ensures
        sel_x(i) < 4,
        sel_y(i) < 4,
        sel_z(i) < 4,
        i < 64 ==> pack_sel(sel_x(i), sel_y(i), sel_z(i)) == i,
{
    assert((i & 3) < 4 && ((i >> 2) & 3) < 4 && ((i >> 4) & 3) < 4 && (i < 64 ==> ((i & 3) | ((
    (i >> 2) & 3) << 2) | (((i >> 4) & 3) << 4)) == i)) by (bit_vector);
}

/// Packs three per-axis selectors into one tree index.
pub fn pack(a: u8, b: u8, c: u8) -> (r: u8)
    requires
        a < 4,
        b < 4,
        c < 4,
    ensures
        r == pack_sel(a, b, c),
        r == a + 4 * b + 16 * c,
        r < 64,
{
    proof {
        lemma_pack_sel(a, b, c);
    }
    a | (b << 2) | (c << 4)
}

/// Extracts the child-selector bits of one axis.
pub fn low2(x: i64) -> (r: u8)
    ensures
        r as i64 == axis_low2(x),
        r < 4,
{
    proof {
        lemma_axis_low2(x);
        assert((x & 3) as u8 as i64 == (x & 3)) by (bit_vector);
    }
    (x & 3) as u8
}

/// Moves one axis a level toward the root.
pub fn down(x: i64) -> (r: i64)
    ensures
        r == axis_down(x),
{
    x >> 2
}

/// Moves one axis a level toward the leaves, installing selector bits.
pub fn up(x: i64, b: u8) -> (r: i64)
    requires
        b < 4,
    ensures
        r == axis_up(x, b as i64),
{
    proof {
        assert((b as i64 & 3) == b as i64 && (b & 3) == b) by (bit_vector)
            requires
                b < 4,
        ;
    }
    (x << 2) | (b as i64)
}

} // verus!
