//! The face vocabulary of a block tile.

use vstd::prelude::*;

verus! {

/// The face of a block that a tile covers.
#[derive(Debug, Clone, Copy, PartialEq, Eq, Hash)]
pub enum TileFace {
    /// West (x-).
    WST,
    /// East (x+).
    EST,
    /// South (y-).
    STH,
    /// North (y+).
    NTH,
    /// Bottom (z-).
    BTM,
    /// Top (z+).
    TOP,
    /// No defined face.
    UNDEF,
}

/// The face encoded by a face number; numbers above 5 carry no face.
pub open spec fn face_of(value: u8) -> TileFace {
    match value {
        0u8 => TileFace::WST,
        1u8 => TileFace::EST,
        2u8 => TileFace::STH,
        3u8 => TileFace::NTH,
        4u8 => TileFace::BTM,
        5u8 => TileFace::TOP,
        _ => TileFace::UNDEF,
    }
}

impl From<u8> for TileFace {
    /// Decodes a face number.
    fn from(value: u8) -> (r: Self) {
        match value {
            0 => Self::WST,
            1 => Self::EST,
            2 => Self::STH,
            3 => Self::NTH,
            4 => Self::BTM,
            5 => Self::TOP,
            _ => Self::UNDEF,
        }
    }
}

impl vstd::std_specs::convert::FromSpecImpl<u8> for TileFace {
    open spec fn obeys_from_spec() -> bool {
        true
    }

    open spec fn from_spec(value: u8) -> Self {
        face_of(value)
    }
}

} // verus!
