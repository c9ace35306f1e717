//! The dimension data model and world initialisation.
//!
//! A world is created under a name that may hold only alphanumeric
//! characters, `-`, `_` and spaces.  The per-level identifier stores
//! here keep the low byte of each block identifier.

use vstd::prelude::*;
use vstd::string::StrSliceExecFns;

verus! {

/// The failures of world initialisation.
#[derive(Debug, Clone, Copy, PartialEq, Eq, Structural)]
pub enum WorldInitError {
    /// The requested world name holds a forbidden character.
    BadWorldName,
}

impl WorldInitError {
    /// A human-readable description of the failure.
    pub fn message(&self) -> (r: String)
        ensures
            r@ == "Bad world name inputted"@,
    {
        "Bad world name inputted".to_owned()
    }
}

/// Whether a character counts as alphanumeric.
pub uninterp spec fn alphanumeric(c: char) -> bool;

/// Relies on char::is_alphanumeric: the Unicode alphanumeric classes
/// are a pure function of the character.
#[verifier::external_body]
fn char_is_alphanumeric(c: char) -> (r: bool)
    ensures
        r == alphanumeric(c),
{
    c.is_alphanumeric()
}

/// A character acceptable in a world name.
pub open spec fn valid_name_char(c: char) -> bool {
    alphanumeric(c) || c == '-' || c == '_' || c == ' '
}

/// A name acceptable for a world: every character acceptable.
pub open spec fn valid_name(s: Seq<char>) -> bool {
    forall|i: int| 0 <= i < s.len() ==> valid_name_char(#[trigger] s[i])
}

/// The low byte of one block identifier.
#[derive(Debug, Clone, Copy, PartialEq, Eq, Structural, Hash)]
pub struct BlkIDLo(pub u8);

/// A cell of low identifier bytes: 64 block slots.
#[derive(Debug, Clone, PartialEq, Eq, Hash)]
pub struct CellBlkIDLo {
    cells: Vec<BlkIDLo>,
}

impl View for CellBlkIDLo {
    type V = Seq<BlkIDLo>;

    /// The stored low bytes, slot by slot.
    closed spec fn view(&self) -> Seq<BlkIDLo> {
        self.cells@
    }
}

impl CellBlkIDLo {
    /// Well formed: exactly 64 slots.
    pub open spec fn wf(&self) -> bool {
        self@.len() == 64
    }

    /// The slot that a position selects within this cell.
    pub fn get(&self, pos: &crate::pos::BlockPos) -> (r: Option<&BlkIDLo>)
        requires
            self.wf(),
            pos.wf(),
        ensures
            r == Some(&self@[pos.tree_index() as int]),
    {
        let i = pos.as_64tree_index();
        if (i as usize) < self.cells.len() {
            Some(&self.cells[i as usize])
        } else {
            None
        }
    }

    /// Mutable access to the slot that a position selects.
    pub fn get_mut(&mut self, pos: &crate::pos::BlockPos) -> (r: Option<&mut BlkIDLo>)
        requires
            old(self).wf(),
            pos.wf(),
        ensures
            r is Some,
            *r.unwrap() == old(self)@[pos.tree_index() as int],
            final(self)@ == old(self)@.update(pos.tree_index() as int, *final(r.unwrap())),
            final(self).wf(),
    {
        let i = pos.as_64tree_index();
        if (i as usize) < self.cells.len() {
            Some(&mut self.cells[i as usize])
        } else {
            None
        }
    }
}

impl Default for CellBlkIDLo {
    /// A cell of 64 zero bytes.
    fn default() -> (r: Self)
        ensures
            r.wf(),
            forall|i: int| 0 <= i < 64 ==> (#[trigger] r@[i]) == BlkIDLo(0u8),
    {
        let mut cells: Vec<BlkIDLo> = Vec::new();
        let mut i: usize = 0;
        while i < 64
            invariant
                i <= 64,
                cells@.len() == i,
                forall|j: int| 0 <= j < i ==> (#[trigger] cells@[j]) == BlkIDLo(0u8),
            decreases 64 - i,
        {
            cells.push(BlkIDLo(0));
            i = i + 1;
        }
        Self { cells }
    }
}

/// A chunk of low identifier bytes: 64 cells.
#[derive(Debug, Clone, PartialEq, Eq, Hash)]
pub struct ChunkBlkIDLo {
    pub cells: Vec<CellBlkIDLo>,
}

/// A chunk whose low-byte store is allocated on demand.
#[derive(Debug, Clone, PartialEq, Eq, Hash)]
pub struct Chunk {
    pub blk_id_lo: Option<Box<ChunkBlkIDLo>>,
}

/// A sector of 64 chunks.
pub struct Sector {
    pub chunks: Vec<Chunk>,
}

/// A dimension: the sectors that make up one space.
pub struct Dimension {
    pub sectors: Vec<Option<Sector>>,
}

/// A world, known by its validated name.
pub struct World {
    name: String,
}

impl View for World {
    type V = Seq<char>;

    /// The world's name.
    closed spec fn view(&self) -> Seq<char> {
        self.name@
    }
}

impl World {
    /// Creates the world itself.  Succeeds exactly when every character
    /// of `name` is alphanumeric, `-`, `_` or a space; the name is kept.
    pub fn initialize(name: &str) -> (r: Result<Self, WorldInitError>)
        ensures
            match r {
                Ok(w) => valid_name(name@) && w@ == name@,
                Err(e) => !valid_name(name@) && e == WorldInitError::BadWorldName,
            },
    {
        let n = name.unicode_len();
        let mut i: usize = 0;
        while i < n
            invariant
                i <= n,
                n == name@.len(),
                forall|t: int| 0 <= t < i ==> valid_name_char(#[trigger] name@[t]),
            decreases n - i,
        {
            let c = name.get_char(i);
            if !(char_is_alphanumeric(c) || c == '-' || c == '_' || c == ' ') {
                return Err(WorldInitError::BadWorldName);
            }
            i = i + 1;
        }
        Ok(Self { name: name.to_owned() })
    }
}

} // verus!
