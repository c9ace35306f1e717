//! Positions inside the 64-ary subdivision tree, with an explicit
//! child-selector type.
//!
//! A [`BlockPos`] is a signed coordinate per axis, padded to four lanes;
//! the fourth lane exists for alignment only and is kept at zero by the
//! constructor.  A [`Tree64InnerPos`] is the 6-bit selector of a child
//! within its parent container.

use vstd::prelude::*;

use crate::codec::{
    axis_down, axis_low2, axis_up, lemma_axis_low2, lemma_axis_roundtrip, lemma_pack_sel,
    lemma_sel_w, low2, pack, pack_sel, part_w, part_x, part_y, part_z, sel_w, sel_x, sel_y, sel_z,
};

verus! {

/// A 6-bit child selector within one tree level.
#[derive(Debug, Clone, Copy, PartialEq, Eq, Hash)]
pub struct Tree64InnerPos(pub u8);

impl Tree64InnerPos {
    /// Wraps a raw selector, masking it into the valid range `[0, 64)`.
    pub fn new(pos: u8) -> (r: Self)
        ensures
            r.0 == pos & 63,
            r.0 < 64,
    {
        proof {
            assert((pos & 63) < 64) by (bit_vector);
        }
        Self(pos & 63)
    }

    /// The reserved out-of-range selector.
    pub fn invalid() -> (r: Self)
        ensures
            r.0 == u8::MAX,
    {
        Self(u8::MAX)
    }

    /// Whether the selector addresses one of the 64 children.
    pub fn is_valid(&self) -> (r: bool)
        ensures
            r == (self.0 < 64),
    {
        self.0 < 64
    }
}

/// A distance between two child selectors of the same tree level.
#[derive(Debug, Clone, Copy, PartialEq, Eq, Hash)]
pub struct Tree64InnerDist(pub u8);

/// A block position: one signed coordinate per axis, with a fourth
/// alignment lane that carries no meaning and stays zero.
#[derive(Debug, Clone, Copy, PartialEq, Eq, Hash)]
pub struct BlockPos {
    pub x: i64,
    pub y: i64,
    pub z: i64,
    pub w: i64,
}

/// The child selector of a position within its parent: the low two bits
/// of each axis, packed base-4.
pub open spec fn inner_index(p: BlockPos) -> u8 {
    pack_sel(axis_low2(p.x) as u8, axis_low2(p.y) as u8, axis_low2(p.z) as u8)
}

/// The position of the parent container: every axis one level toward
/// the root.
pub open spec fn parent_pos(p: BlockPos) -> BlockPos {
    BlockPos { x: axis_down(p.x), y: axis_down(p.y), z: axis_down(p.z), w: axis_down(p.w) }
}

/// The position of the child that `i` selects under parent `p`.
pub open spec fn child_pos(p: BlockPos, i: u8) -> BlockPos {
    BlockPos {
        x: axis_up(p.x, sel_x(i) as i64),
        y: axis_up(p.y, sel_y(i) as i64),
        z: axis_up(p.z, sel_z(i) as i64),
        w: axis_up(p.w, sel_w(i) as i64),
    }
}

impl BlockPos {
    /// Builds a position; the alignment lane is zeroed.
    pub fn new(x: i64, y: i64, z: i64) -> (r: Self)
        ensures
            r == (BlockPos { x, y, z, w: 0 }),
    {
        Self { x, y, z, w: 0 }
    }

    /// The x axis.
    pub fn x(&self) -> (r: &i64)
        ensures
            *r == self.x,
    {
        &self.x
    }

    /// The y axis.
    pub fn y(&self) -> (r: &i64)
        ensures
            *r == self.y,
    {
        &self.y
    }

    /// The z axis.
    pub fn z(&self) -> (r: &i64)
        ensures
            *r == self.z,
    {
        &self.z
    }

    /// The alignment lane.
    pub fn w(&self) -> (r: &i64)
        ensures
            *r == self.w,
    {
        &self.w
    }

    /// Mutable access to the x axis.
    pub fn x_mut(&mut self) -> (r: &mut i64)
        ensures
            *r == old(self).x,
            *final(self) == (BlockPos { x: *final(r), ..*old(self) }),
    {
        &mut self.x
    }

    /// Mutable access to the y axis.
    pub fn y_mut(&mut self) -> (r: &mut i64)
        ensures
            *r == old(self).y,
            *final(self) == (BlockPos { y: *final(r), ..*old(self) }),
    {
        &mut self.y
    }

    /// Mutable access to the z axis.
    pub fn z_mut(&mut self) -> (r: &mut i64)
        ensures
            *r == old(self).z,
            *final(self) == (BlockPos { z: *final(r), ..*old(self) }),
    {
        &mut self.z
    }

    /// Mutable access to the alignment lane.
    pub fn w_mut(&mut self) -> (r: &mut i64)
        ensures
            *r == old(self).w,
            *final(self) == (BlockPos { w: *final(r), ..*old(self) }),
    {
        &mut self.w
    }

    /// Descends one tree level: the position of the child that
    /// `inner_pos` selects under `self`.
    pub fn insert_innerpos(&self, inner_pos: Tree64InnerPos) -> (r: Self)
        ensures
            r == child_pos(*self, inner_pos.0),
    {
        Self {
            x: crate::codec::up(self.x, part_x(inner_pos.0)),
            y: crate::codec::up(self.y, part_y(inner_pos.0)),
            z: crate::codec::up(self.z, part_z(inner_pos.0)),
            w: crate::codec::up(self.w, part_w(inner_pos.0)),
        }
    }

    /// Ascends one tree level: the child selector of `self` within its
    /// parent, and the parent's position.
    pub fn split_innerpos(&self) -> (r: (Tree64InnerPos, Self))
        ensures
            r.0.0 == inner_index(*self),
            r.0.0 < 64,
            r.1 == parent_pos(*self),
    {
        proof {
            lemma_axis_low2(self.x);
            lemma_axis_low2(self.y);
            lemma_axis_low2(self.z);
            lemma_pack_sel(
                axis_low2(self.x) as u8,
                axis_low2(self.y) as u8,
                axis_low2(self.z) as u8,
            );
        }
        (
            Tree64InnerPos(pack(low2(self.x), low2(self.y), low2(self.z))),
            Self { x: self.x >> 2, y: self.y >> 2, z: self.z >> 2, w: self.w >> 2 },
        )
    }

    /// Shifts every axis `level` tree levels toward the leaves.
    pub fn level_up(&self, level: u8) -> (r: Self)
        requires
            level < 32,
        ensures
            r.x == self.x << (level * 2),
            r.y == self.y << (level * 2),
            r.z == self.z << (level * 2),
            r.w == self.w << (level * 2),
    {
        Self {
            x: self.x << (level * 2),
            y: self.y << (level * 2),
            z: self.z << (level * 2),
            w: self.w << (level * 2),
        }
    }

    /// Shifts every axis `level` tree levels toward the root.
    pub fn level_down(&self, level: u8) -> (r: Self)
        requires
            level < 32,
        ensures
            r.x == self.x >> (level * 2),
            r.y == self.y >> (level * 2),
            r.z == self.z >> (level * 2),
            r.w == self.w >> (level * 2),
    {
        Self {
            x: self.x >> (level * 2),
            y: self.y >> (level * 2),
            z: self.z >> (level * 2),
            w: self.w >> (level * 2),
        }
    }
}

/// A distance between block positions, padded like [`BlockPos`].
#[derive(Debug, Clone, Copy, PartialEq, Eq, Hash)]
pub struct BlockDist {
    pub x: i64,
    pub y: i64,
    pub z: i64,
    pub w: i64,
}

/// Splitting a position into its parent and child selector and
/// descending again restores the position exactly, for every
/// representable position whose alignment lane is clear in its low bits.
pub proof fn lemma_split_insert_roundtrip(p: BlockPos)
    requires
        axis_low2(p.w) == 0,
    ensures
        child_pos(parent_pos(p), inner_index(p)) == p,
{
    lemma_axis_low2(p.x);
    lemma_axis_low2(p.y);
    lemma_axis_low2(p.z);
    lemma_pack_sel(axis_low2(p.x) as u8, axis_low2(p.y) as u8, axis_low2(p.z) as u8);
    lemma_sel_w(inner_index(p));
    lemma_axis_roundtrip(p.x);
    lemma_axis_roundtrip(p.y);
    lemma_axis_roundtrip(p.z);
    lemma_axis_roundtrip(p.w);
}

/// The child selector of any position addresses one of the 64 children.
pub proof fn lemma_inner_index_range(p: BlockPos)
    ensures
        inner_index(p) < 64,
{
    lemma_axis_low2(p.x);
    lemma_axis_low2(p.y);
    lemma_axis_low2(p.z);
    lemma_pack_sel(axis_low2(p.x) as u8, axis_low2(p.y) as u8, axis_low2(p.z) as u8);
}

} // verus!
