//! A three-lane coordinate pair for walking the tree: a position and a
//! distance, each one plain signed coordinate per axis.
//!
//! This flavour doubles as the carrier of per-level child selectors: a
//! position whose axes all lie in `[0, 4)` is the unpacked form of one
//! 6-bit tree index.

use vstd::prelude::*;

use crate::codec::{
    axis_down, axis_low2, axis_up, lemma_axis_low2, lemma_axis_roundtrip, lemma_pack_sel, low2,
    pack, pack_sel, part_x, part_y, part_z, sel_x, sel_y, sel_z,
};

verus! {

/// A block position with one signed coordinate per axis.
#[derive(Debug, Clone, Copy, PartialEq, Eq, Hash)]
pub struct BlockPos {
    pub x: i64,
    pub y: i64,
    pub z: i64,
}

/// The position of the parent container of `p`.
pub open spec fn grid_parent(p: BlockPos) -> BlockPos {
    BlockPos { x: axis_down(p.x), y: axis_down(p.y), z: axis_down(p.z) }
}

/// The child-selector triple of `p` within its parent, one value in
/// `[0, 4)` per axis.
pub open spec fn grid_inner(p: BlockPos) -> BlockPos {
    BlockPos { x: axis_low2(p.x), y: axis_low2(p.y), z: axis_low2(p.z) }
}

/// The position selected by the triple `inner` under the parent `p`.
pub open spec fn grid_merge(p: BlockPos, inner: BlockPos) -> BlockPos {
    BlockPos {
        x: axis_up(p.x, inner.x),
        y: axis_up(p.y, inner.y),
        z: axis_up(p.z, inner.z),
    }
}

impl BlockPos {
    /// Builds a position from its three axes.
    pub fn new(x: i64, y: i64, z: i64) -> (r: Self)
        ensures
            r == (BlockPos { x, y, z }),
    {
        Self { x, y, z }
    }

    /// Packs a selector triple into its 6-bit tree index.
    pub fn as_64index(&self) -> (r: u8)
        requires
            0 <= self.x < 4,
            0 <= self.y < 4,
            0 <= self.z < 4,
        ensures
            r == pack_sel(self.x as u8, self.y as u8, self.z as u8),
            r == self.x + 4 * self.y + 16 * self.z,
            r < 64,
    {
        pack(self.x as u8, self.y as u8, self.z as u8)
    }

    /// Unpacks a 6-bit tree index into its selector triple.
    pub fn from_64index(pos: u8) -> (r: Self)
        ensures
            r.x == sel_x(pos),
            r.y == sel_y(pos),
            r.z == sel_z(pos),
            0 <= r.x < 4,
            0 <= r.y < 4,
            0 <= r.z < 4,
    {
        Self::new(part_x(pos) as i64, part_y(pos) as i64, part_z(pos) as i64)
    }

    /// The x axis.
    pub fn get_x(&self) -> (r: i64)
        ensures
            r == self.x,
    {
        self.x
    }

    /// The y axis.
    pub fn get_y(&self) -> (r: i64)
        ensures
            r == self.y,
    {
        self.y
    }

    /// The z axis.
    pub fn get_z(&self) -> (r: i64)
        ensures
            r == self.z,
    {
        self.z
    }

    /// Replaces the x axis.
    pub fn set_x(&mut self, x: i64)
        ensures
            *final(self) == (BlockPos { x, ..*old(self) }),
    {
        self.x = x;
    }

    /// Replaces the y axis.
    pub fn set_y(&mut self, y: i64)
        ensures
            *final(self) == (BlockPos { y, ..*old(self) }),
    {
        self.y = y;
    }

    /// Replaces the z axis.
    pub fn set_z(&mut self, z: i64)
        ensures
            *final(self) == (BlockPos { z, ..*old(self) }),
    {
        self.z = z;
    }

    /// Ascends one tree level: the parent position and the selector
    /// triple of `self` within it.
    pub fn split_inner(&self) -> (r: (BlockPos, BlockPos))
        ensures
            r.0 == grid_parent(*self),
            r.1 == grid_inner(*self),
            0 <= r.1.x < 4,
            0 <= r.1.y < 4,
            0 <= r.1.z < 4,
    {
        proof {
            lemma_axis_low2(self.x);
            lemma_axis_low2(self.y);
            lemma_axis_low2(self.z);
        }
        let to = Self::new(self.x >> 2, self.y >> 2, self.z >> 2);
        let inner = Self::new(low2(self.x) as i64, low2(self.y) as i64, low2(self.z) as i64);
        (to, inner)
    }

    /// Descends one tree level: the position that the selector triple
    /// `inner` picks under the parent `self`.
    pub fn merge_inner(&self, inner: BlockPos) -> (r: BlockPos)
        requires
            0 <= inner.x < 4,
            0 <= inner.y < 4,
            0 <= inner.z < 4,
        ensures
            r == grid_merge(*self, inner),
    {
        Self::new(
            crate::codec::up(self.x, inner.x as u8),
            crate::codec::up(self.y, inner.y as u8),
            crate::codec::up(self.z, inner.z as u8),
        )
    }

    /// Shifts every axis `shift` tree levels toward the leaves.
    pub fn up_level(&self, shift: u8) -> (r: Self)
        requires
            shift < 32,
        ensures
            r.x == self.x << (2 * shift),
            r.y == self.y << (2 * shift),
            r.z == self.z << (2 * shift),
    {
        Self::new(self.x << (2 * shift), self.y << (2 * shift), self.z << (2 * shift))
    }

    /// Shifts every axis `shift` tree levels toward the root.
    pub fn down_level(&self, shift: u8) -> (r: Self)
        requires
            shift < 32,
        ensures
            r.x == self.x >> (2 * shift),
            r.y == self.y >> (2 * shift),
            r.z == self.z >> (2 * shift),
    {
        Self::new(self.x >> (2 * shift), self.y >> (2 * shift), self.z >> (2 * shift))
    }

    /// The displacement from `rhs` to `self`.
    pub fn sub(self, rhs: BlockPos) -> (r: BlockDist)
        requires
            i64::MIN <= self.x - rhs.x <= i64::MAX,
            i64::MIN <= self.y - rhs.y <= i64::MAX,
            i64::MIN <= self.z - rhs.z <= i64::MAX,
        ensures
            r.x == self.x - rhs.x,
            r.y == self.y - rhs.y,
            r.z == self.z - rhs.z,
    {
        BlockDist { x: self.x - rhs.x, y: self.y - rhs.y, z: self.z - rhs.z }
    }

    /// The position displaced from `self` by `rhs`.
    pub fn add(self, rhs: BlockDist) -> (r: BlockPos)
        requires
            i64::MIN <= self.x + rhs.x <= i64::MAX,
            i64::MIN <= self.y + rhs.y <= i64::MAX,
            i64::MIN <= self.z + rhs.z <= i64::MAX,
        ensures
            r.x == self.x + rhs.x,
            r.y == self.y + rhs.y,
            r.z == self.z + rhs.z,
    {
        BlockPos { x: self.x + rhs.x, y: self.y + rhs.y, z: self.z + rhs.z }
    }
}

/// A displacement between block positions, one signed count per axis.
#[derive(Debug, Clone, Copy, PartialEq, Eq, Hash)]
pub struct BlockDist {
    pub x: i64,
    pub y: i64,
    pub z: i64,
}

impl BlockDist {
    /// Builds a displacement from its three axes.
    pub fn new(x: i64, y: i64, z: i64) -> (r: Self)
        ensures
            r == (BlockDist { x, y, z }),
    {
        Self { x, y, z }
    }

    /// The x axis.
    pub fn get_x(&self) -> (r: i64)
        ensures
            r == self.x,
    {
        self.x
    }

    /// The y axis.
    pub fn get_y(&self) -> (r: i64)
        ensures
            r == self.y,
    {
        self.y
    }

    /// The z axis.
    pub fn get_z(&self) -> (r: i64)
        ensures
            r == self.z,
    {
        self.z
    }

    /// Replaces the x axis.
    pub fn set_x(&mut self, x: i64)
        ensures
            *final(self) == (BlockDist { x, ..*old(self) }),
    {
        self.x = x;
    }

    /// Replaces the y axis.
    pub fn set_y(&mut self, y: i64)
        ensures
            *final(self) == (BlockDist { y, ..*old(self) }),
    {
        self.y = y;
    }

    /// Replaces the z axis.
    pub fn set_z(&mut self, z: i64)
        ensures
            *final(self) == (BlockDist { z, ..*old(self) }),
    {
        self.z = z;
    }

    /// Scales the displacement `shift` tree levels toward the leaves.
    pub fn up_level(&self, shift: u8) -> (r: Self)
        requires
            shift < 32,
        ensures
            r.x == self.x << (2 * shift),
            r.y == self.y << (2 * shift),
            r.z == self.z << (2 * shift),
    {
        Self::new(self.x << (2 * shift), self.y << (2 * shift), self.z << (2 * shift))
    }

    /// Scales the displacement `shift` tree levels toward the root.
    pub fn down_level(&self, shift: u8) -> (r: Self)
        requires
            shift < 32,
        ensures
            r.x == self.x >> (2 * shift),
            r.y == self.y >> (2 * shift),
            r.z == self.z >> (2 * shift),
    {
        Self::new(self.x >> (2 * shift), self.y >> (2 * shift), self.z >> (2 * shift))
    }

    /// The componentwise sum of two displacements.
    pub fn add(self, rhs: BlockDist) -> (r: Self)
        requires
            i64::MIN <= self.x + rhs.x <= i64::MAX,
            i64::MIN <= self.y + rhs.y <= i64::MAX,
            i64::MIN <= self.z + rhs.z <= i64::MAX,
        ensures
            r.x == self.x + rhs.x,
            r.y == self.y + rhs.y,
            r.z == self.z + rhs.z,
    {
        Self::new(self.x + rhs.x, self.y + rhs.y, self.z + rhs.z)
    }

    /// The componentwise difference of two displacements.
    pub fn sub(self, rhs: BlockDist) -> (r: Self)
        requires
            i64::MIN <= self.x - rhs.x <= i64::MAX,
            i64::MIN <= self.y - rhs.y <= i64::MAX,
            i64::MIN <= self.z - rhs.z <= i64::MAX,
        ensures
            r.x == self.x - rhs.x,
            r.y == self.y - rhs.y,
            r.z == self.z - rhs.z,
    {
        Self::new(self.x - rhs.x, self.y - rhs.y, self.z - rhs.z)
    }
}

/// Splitting a position into its parent and selector triple and merging
/// them back restores the position exactly, for every representable
/// position, negative axes included.
pub proof fn lemma_split_merge_roundtrip(p: BlockPos)
    ensures
        grid_merge(grid_parent(p), grid_inner(p)) == p,
{
    lemma_axis_roundtrip(p.x);
    lemma_axis_roundtrip(p.y);
    lemma_axis_roundtrip(p.z);
}

/// Packing the selector triple of any position yields an index below 64,
/// and unpacking that index restores the triple.
pub proof fn lemma_index_roundtrip(p: BlockPos)
    ensures
        pack_sel(grid_inner(p).x as u8, grid_inner(p).y as u8, grid_inner(p).z as u8) < 64,
        grid_inner(p) == (BlockPos {
            x: sel_x(pack_sel(grid_inner(p).x as u8, grid_inner(p).y as u8, grid_inner(p).z as u8))
                as i64,
            y: sel_y(pack_sel(grid_inner(p).x as u8, grid_inner(p).y as u8, grid_inner(p).z as u8))
                as i64,
            z: sel_z(pack_sel(grid_inner(p).x as u8, grid_inner(p).y as u8, grid_inner(p).z as u8))
                as i64,
        }),
{
    lemma_axis_low2(p.x);
    lemma_axis_low2(p.y);
    lemma_axis_low2(p.z);
    lemma_pack_sel(grid_inner(p).x as u8, grid_inner(p).y as u8, grid_inner(p).z as u8);
}

} // verus!
