//! The block data model.
//!
//! A block is the smallest addressable voxel unit.  Its identifier is a
//! 16-bit value of which 15 bits are effective; identifier `0` is the
//! reserved "air" sentinel.  The split low/high identifier bytes and the
//! tag bytes exist for tightly packed per-level stores.

use vstd::prelude::*;

verus! {

/// A block data object: identifier plus optional tag bytes.
#[derive(Debug, Clone, Copy, PartialEq, Eq, Hash)]
pub struct Block {
    /// The block-kind identifier; 15 bits are effective.
    pub id: u16,
    /// The generalised block tag, when the kind carries one.
    pub gen_tag: Option<u8>,
    /// The system tag.
    pub sys_tag: u8,
    /// The user tag, when one was assigned.
    pub user_tag: Option<u8>,
}

/// The low byte of a block identifier.
#[derive(Debug, Clone, Copy, PartialEq, Eq, Hash)]
pub struct BlockLoID(pub u8);

/// The high byte of a block identifier.
#[derive(Debug, Clone, Copy, PartialEq, Eq, Hash)]
pub struct BlockHiID(pub u8);

/// A system tag byte.
#[derive(Debug, Clone, Copy, PartialEq, Eq, Hash)]
pub struct BlockSysTag(pub u8);

/// A user tag byte.
#[derive(Debug, Clone, Copy, PartialEq, Eq, Hash)]
pub struct BlockUserTag(pub u8);

/// The coarse kind of a block, derived from its identifier range.
#[derive(Debug, Clone, Copy, PartialEq, Eq, Hash)]
pub enum BlockType {
    /// The air block (identifier 0).
    Air,
    /// A generalised block (identifier below 127, not 0).
    GenericBlock,
    /// A normal block (identifier 128 or above).
    NormalBlock,
}

} // verus!
