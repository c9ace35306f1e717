//! The engine's block coordinates: a four-lane position and distance.
//!
//! These are the coordinates that the block store addresses.  The fourth
//! lane pads the position for alignment, carries no meaning and stays
//! zero; a position is well formed when that lane is zero, and only then
//! does its tree index stay below 64.

use vstd::prelude::*;

use crate::codec::{
    axis_down, axis_low2, axis_up, lemma_axis_low2, lemma_axis_roundtrip, lemma_pack_sel, low2,
    pack, pack_sel, sel_x, sel_y, sel_z,
};

verus! {

/// A block position: one signed coordinate per axis plus an alignment
/// lane that stays zero.
#[derive(Debug, Clone, Copy, PartialEq, Eq, Hash)]
pub struct BlockPos {
    pub x: i64,
    pub y: i64,
    pub z: i64,
    pub w: i64,
}

impl BlockPos {
    /// A position is well formed when its alignment lane is zero.
    pub open spec fn wf(&self) -> bool {
        self.w == 0
    }

    /// The 6-bit child selector of a position within its parent.
    pub open spec fn tree_index(&self) -> u8 {
        pack_sel(axis_low2(self.x) as u8, axis_low2(self.y) as u8, axis_low2(self.z) as u8)
    }

    /// The position of the parent container, one level toward the root.
    pub open spec fn parent(&self) -> BlockPos {
        BlockPos {
            x: axis_down(self.x),
            y: axis_down(self.y),
            z: axis_down(self.z),
            w: axis_down(self.w),
        }
    }

    /// Builds a position; the alignment lane is zeroed.
    pub fn new(xyz: [i64; 3]) -> (r: Self)
        ensures
            r == (BlockPos { x: xyz[0], y: xyz[1], z: xyz[2], w: 0 }),
            r.wf(),
    {
        Self { x: xyz[0], y: xyz[1], z: xyz[2], w: 0 }
    }

    /// The x axis.
    pub fn x(&self) -> (r: i64)
        ensures
            r == self.x,
    {
        self.x
    }

    /// The y axis.
    pub fn y(&self) -> (r: i64)
        ensures
            r == self.y,
    {
        self.y
    }

    /// The z axis.
    pub fn z(&self) -> (r: i64)
        ensures
            r == self.z,
    {
        self.z
    }

    /// A reference to the x axis.
    pub fn x_ref(&self) -> (r: &i64)
        ensures
            *r == self.x,
    {
        &self.x
    }

    /// A reference to the y axis.
    pub fn y_ref(&self) -> (r: &i64)
        ensures
            *r == self.y,
    {
        &self.y
    }

    /// A reference to the z axis.
    pub fn z_ref(&self) -> (r: &i64)
        ensures
            *r == self.z,
    {
        &self.z
    }

    /// Mutable access to the x axis.
    pub fn x_mut(&mut self) -> (r: &mut i64)
        ensures
            *r == old(self).x,
            *final(self) == (BlockPos { x: *final(r), ..*old(self) }),
    {
        &mut self.x
    }

    /// Mutable access to the y axis.
    pub fn y_mut(&mut self) -> (r: &mut i64)
        ensures
            *r == old(self).y,
            *final(self) == (BlockPos { y: *final(r), ..*old(self) }),
    {
        &mut self.y
    }

    /// Mutable access to the z axis.
    pub fn z_mut(&mut self) -> (r: &mut i64)
        ensures
            *r == old(self).z,
            *final(self) == (BlockPos { z: *final(r), ..*old(self) }),
    {
        &mut self.z
    }

    /// The three meaningful axes as an array.
    pub fn xyz(&self) -> (r: [i64; 3])
        ensures
            r[0] == self.x,
            r[1] == self.y,
            r[2] == self.z,
    {
        [self.x, self.y, self.z]
    }

    /// The child selector of this position within its parent container.
    /// Stays below 64 for every well-formed position.
    pub fn as_64tree_index(&self) -> (r: u8)
        requires
            self.wf(),
        ensures
            r == self.tree_index(),
            r < 64,
    {
        proof {
            lemma_axis_low2(self.x);
            lemma_axis_low2(self.y);
            lemma_axis_low2(self.z);
        }
        pack(low2(self.x), low2(self.y), low2(self.z))
    }

    /// Moves the position one tree level toward the root.
    pub fn down_level(&self) -> (r: Self)
        ensures
            r == self.parent(),
            self.wf() ==> r.wf(),
    {
        proof {
            if self.w == 0 {
                assert(0i64 >> 2 == 0i64) by (bit_vector);
            }
        }
        Self { x: self.x >> 2, y: self.y >> 2, z: self.z >> 2, w: self.w >> 2 }
    }

    /// Moves the position one tree level toward the leaves, onto its
    /// first child.
    pub fn up_level(&self) -> (r: Self)
        ensures
            r.x == self.x << 2,
            r.y == self.y << 2,
            r.z == self.z << 2,
            r.w == self.w << 2,
            self.wf() ==> r.wf(),
    {
        proof {
            if self.w == 0 {
                assert(0i64 << 2 == 0i64) by (bit_vector);
            }
        }
        Self { x: self.x << 2, y: self.y << 2, z: self.z << 2, w: self.w << 2 }
    }

    /// The displacement from `rhs` to `self`.
    pub fn sub(self, rhs: BlockPos) -> (r: BlockDist)
        requires
            i64::MIN <= self.x - rhs.x <= i64::MAX,
            i64::MIN <= self.y - rhs.y <= i64::MAX,
            i64::MIN <= self.z - rhs.z <= i64::MAX,
            i64::MIN <= self.w - rhs.w <= i64::MAX,
        ensures
            r == (BlockDist {
                x: (self.x - rhs.x) as i64,
                y: (self.y - rhs.y) as i64,
                z: (self.z - rhs.z) as i64,
                w: (self.w - rhs.w) as i64,
            }),
    {
        BlockDist { x: self.x - rhs.x, y: self.y - rhs.y, z: self.z - rhs.z, w: self.w - rhs.w }
    }

    /// The position displaced from `self` by `rhs`.
    pub fn add(self, rhs: BlockDist) -> (r: BlockPos)
        requires
            i64::MIN <= self.x + rhs.x <= i64::MAX,
            i64::MIN <= self.y + rhs.y <= i64::MAX,
            i64::MIN <= self.z + rhs.z <= i64::MAX,
            i64::MIN <= self.w + rhs.w <= i64::MAX,
        ensures
            r == (BlockPos {
                x: (self.x + rhs.x) as i64,
                y: (self.y + rhs.y) as i64,
                z: (self.z + rhs.z) as i64,
                w: (self.w + rhs.w) as i64,
            }),
    {
        BlockPos { x: self.x + rhs.x, y: self.y + rhs.y, z: self.z + rhs.z, w: self.w + rhs.w }
    }
}

/// The absolute value of a signed axis, as a mathematical integer.
pub open spec fn iabs(v: i64) -> int {
    if v >= 0 {
        v as int
    } else {
        -(v as int)
    }
}

/// A displacement between block positions, padded like [`BlockPos`].
#[derive(Debug, Clone, Copy, PartialEq, Eq, Hash)]
pub struct BlockDist {
    pub x: i64,
    pub y: i64,
    pub z: i64,
    pub w: i64,
}

impl BlockDist {
    /// Builds a displacement; the alignment lane is zeroed.
    pub fn new(xyz: [i64; 3]) -> (r: Self)
        ensures
            r == (BlockDist { x: xyz[0], y: xyz[1], z: xyz[2], w: 0 }),
    {
        Self { x: xyz[0], y: xyz[1], z: xyz[2], w: 0 }
    }

    /// The x axis.
    pub fn x(&self) -> (r: i64)
        ensures
            r == self.x,
    {
        self.x
    }

    /// The y axis.
    pub fn y(&self) -> (r: i64)
        ensures
            r == self.y,
    {
        self.y
    }

    /// The z axis.
    pub fn z(&self) -> (r: i64)
        ensures
            r == self.z,
    {
        self.z
    }

    /// A reference to the x axis.
    pub fn x_ref(&self) -> (r: &i64)
        ensures
            *r == self.x,
    {
        &self.x
    }

    /// A reference to the y axis.
    pub fn y_ref(&self) -> (r: &i64)
        ensures
            *r == self.y,
    {
        &self.y
    }

    /// A reference to the z axis.
    pub fn z_ref(&self) -> (r: &i64)
        ensures
            *r == self.z,
    {
        &self.z
    }

    /// Mutable access to the x axis.
    pub fn x_mut(&mut self) -> (r: &mut i64)
        ensures
            *r == old(self).x,
            *final(self) == (BlockDist { x: *final(r), ..*old(self) }),
    {
        &mut self.x
    }

    /// Mutable access to the y axis.
    pub fn y_mut(&mut self) -> (r: &mut i64)
        ensures
            *r == old(self).y,
            *final(self) == (BlockDist { y: *final(r), ..*old(self) }),
    {
        &mut self.y
    }

    /// Mutable access to the z axis.
    pub fn z_mut(&mut self) -> (r: &mut i64)
        ensures
            *r == old(self).z,
            *final(self) == (BlockDist { z: *final(r), ..*old(self) }),
    {
        &mut self.z
    }

    /// The three meaningful axes as an array.
    pub fn xyz(&self) -> (r: [i64; 3])
        ensures
            r[0] == self.x,
            r[1] == self.y,
            r[2] == self.z,
    {
        [self.x, self.y, self.z]
    }

    /// The Manhattan length of the displacement.
    pub fn dist(&self) -> (r: u64)
        requires
            self.x != i64::MIN,
            self.y != i64::MIN,
            self.z != i64::MIN,
            iabs(self.x) + iabs(self.y) + iabs(self.z) <= u64::MAX,
        ensures
            r == iabs(self.x) + iabs(self.y) + iabs(self.z),
    {
        let ax: u64 = if self.x >= 0 {
            self.x as u64
        } else {
            (-self.x) as u64
        };
        let ay: u64 = if self.y >= 0 {
            self.y as u64
        } else {
            (-self.y) as u64
        };
        let az: u64 = if self.z >= 0 {
            self.z as u64
        } else {
            (-self.z) as u64
        };
        ax + ay + az
    }
}

/// The position that tree index `i` selects under the parent `p`.
pub open spec fn child_of(p: BlockPos, i: u8) -> BlockPos {
    BlockPos {
        x: axis_up(p.x, sel_x(i) as i64),
        y: axis_up(p.y, sel_y(i) as i64),
        z: axis_up(p.z, sel_z(i) as i64),
        w: p.w,
    }
}

/// Descending to the parent and re-selecting by the tree index restores
/// every well-formed position exactly, negative coordinates included.
pub proof fn lemma_parent_index_roundtrip(p: BlockPos)
    requires
        p.wf(),
    ensures
        child_of(p.parent(), p.tree_index()) == p,
{
    lemma_tree_index_decomposition(p);
    lemma_axis_roundtrip(p.x);
    lemma_axis_roundtrip(p.y);
    lemma_axis_roundtrip(p.z);
    assert(0i64 >> 2 == 0i64) by (bit_vector);
}

/// The tree index of a well-formed position, decomposed per axis: it
/// selects exactly the low two bits of each meaningful axis.
pub proof fn lemma_tree_index_decomposition(p: BlockPos)
    ensures
        p.tree_index() < 64,
        sel_x(p.tree_index()) == axis_low2(p.x),
        sel_y(p.tree_index()) == axis_low2(p.y),
        sel_z(p.tree_index()) == axis_low2(p.z),
{
    lemma_axis_low2(p.x);
    lemma_axis_low2(p.y);
    lemma_axis_low2(p.z);
    lemma_pack_sel(axis_low2(p.x) as u8, axis_low2(p.y) as u8, axis_low2(p.z) as u8);
}

} // verus!
