//! The block store: leaf cells, lazily materialised chunks, sectors,
//! and the slot-map arena that keys sectors by position.
//!
//! A cell holds 64 block identifier bytes together with a 64-bit
//! occupancy mask that is maintained on every write: bit `i` is set
//! exactly when slot `i` holds a non-zero identifier.  A chunk holds 64
//! lazily allocated cells, a sector holds 64 chunks, and the arena maps
//! sector positions to stable slot indices with free-slot reuse.

use vstd::prelude::*;

use crate::codec::{axis_down, axis_low2, lemma_axis_low2, lemma_axis_roundtrip};
use crate::pos::BlockPos;

verus! {

/// Whether bit `i` of `m` is set.
pub open spec fn bit_set(m: u64, i: u64) -> bool {
    (m >> i) & 1 == 1
}

/// The number of set bits among the low `n` bits of `m`.
pub open spec fn count_bits(m: u64, n: int) -> int
    decreases n,
{
    if n <= 0 {
        0
    } else {
        count_bits(m, n - 1) + if bit_set(m, (n - 1) as u64) {
            1int
        } else {
            0int
        }
    }
}

/// The number of non-zero bytes among the first `n` of `s`.
pub open spec fn count_nonzero(s: Seq<u8>, n: int) -> int
    decreases n,
{
    if n <= 0 {
        0
    } else {
        count_nonzero(s, n - 1) + if s[n - 1] != 0 {
            1int
        } else {
            0int
        }
    }
}

/// At most `n` of the low `n` bits are set.
pub proof fn lemma_count_bits_bound(m: u64, n: int)
    ensures
        0 <= count_bits(m, n) <= if n <= 0 {
            0int
        } else {
            n
        },
    decreases n,
{
    if n > 0 {
        lemma_count_bits_bound(m, n - 1);
    }
}

/// Setting or clearing one bit changes exactly that bit.
pub proof fn lemma_bit_update(m: u64, i: u64, j: u64)
    requires
        i < 64,
        j < 64,
    ensures
        bit_set(m | (1u64 << i), j) == (j == i || bit_set(m, j)),
        bit_set(m & !(1u64 << i), j) == (j != i && bit_set(m, j)),
{
    assert((((m | (1u64 << i)) >> j) & 1 == 1) == (j == i || (m >> j) & 1 == 1)) by (bit_vector)
        requires
            i < 64 && j < 64,
    ;
    assert((((m & !(1u64 << i)) >> j) & 1 == 1) == (j != i && (m >> j) & 1 == 1)) by (bit_vector)
        requires
            i < 64 && j < 64,
    ;
}

/// Under the occupancy invariant, the mask count equals the count of
/// non-zero block bytes.
proof fn lemma_count_equiv(m: u64, s: Seq<u8>, n: int)
    requires
        n <= 64,
        s.len() == 64,
        forall|i: int| 0 <= i < 64 ==> (bit_set(m, i as u64) <==> s[i] != 0),
    ensures
        count_bits(m, n) == count_nonzero(s, n),
    decreases n,
{
    if n > 0 {
        lemma_count_equiv(m, s, n - 1);
    }
}

/// A leaf cell: 64 block identifier slots plus the occupancy mask that
/// every write keeps in step.
#[derive(Debug, Clone, PartialEq, Eq, Hash)]
pub struct CellBlkIDLo {
    blocks: Vec<u8>,
    mask: u64,
}

impl View for CellBlkIDLo {
    type V = Seq<u8>;

    /// The stored block identifiers, slot by slot.
    closed spec fn view(&self) -> Seq<u8> {
        self.blocks@
    }
}

impl CellBlkIDLo {
    /// The maintained occupancy mask.
    pub closed spec fn occ_mask(&self) -> u64 {
        self.mask
    }

    /// A cell is well formed when it has exactly 64 slots and bit `i`
    /// of the mask is set exactly when slot `i` is occupied.
    pub open spec fn wf(&self) -> bool {
        &&& self@.len() == 64
        &&& forall|i: int| 0 <= i < 64 ==> (bit_set(self.occ_mask(), i as u64) <==> self@[i] != 0)
    }

    /// The stored identifier, or 0 where nothing was ever written.
    pub fn get(&self, index: u8) -> (r: u8)
        requires
            self.wf(),
            index < 64,
        ensures
            r == self@[index as int],
    {
        self.blocks[index as usize]
    }

    /// Writes an identifier and updates the occupancy bit of the slot:
    /// set when the identifier is non-zero, cleared when it is 0.
    pub fn set(&mut self, index: u8, id: u8)
        requires
            old(self).wf(),
            index < 64,
        ensures
            final(self).wf(),
            final(self)@ == old(self)@.update(index as int, id),
            final(self).occ_mask() == if id != 0 {
                old(self).occ_mask() | (1u64 << (index as u64))
            } else {
                old(self).occ_mask() & !(1u64 << (index as u64))
            },
    {
        self.blocks.set(index as usize, id);
        if id != 0 {
            self.mask = self.mask | (1u64 << (index as u64));
        } else {
            self.mask = self.mask & !(1u64 << (index as u64));
        }
        proof {
            assert forall|i: int| 0 <= i < 64 implies (bit_set(self.occ_mask(), i as u64) <==> self@[i]
                != 0) by {
                lemma_bit_update(old(self).occ_mask(), index as u64, i as u64);
            }
        }
    }

    /// The occupancy mask, returned directly without recomputation.
    pub fn occupancy(&self) -> (r: u64)
        ensures
            r == self.occ_mask(),
    {
        self.mask
    }

    /// The number of occupied slots, read off the occupancy mask.
    pub fn block_count(&self) -> (r: u8)
        ensures
            r == count_bits(self.occ_mask(), 64),
    {
        let m = self.mask;
        let mut c: u8 = 0;
        let mut i: u64 = 0;
        while i < 64
            invariant
                i <= 64,
                c == count_bits(m, i as int),
            decreases 64 - i,
        {
            proof {
                lemma_count_bits_bound(m, i as int);
                assert(((m >> i) & 1) < 2) by (bit_vector);
            }
            c = c + ((m >> i) & 1) as u8;
            i = i + 1;
        }
        c
    }

    /// The number of occupied slots, counted from the slots themselves.
    pub fn sum_block(&self) -> (r: usize)
        requires
            self.wf(),
        ensures
            r == count_nonzero(self@, 64),
            r == count_bits(self.occ_mask(), 64),
            r <= 64,
    {
        let mut c: usize = 0;
        let mut i: usize = 0;
        while i < 64
            invariant
                i <= 64,
                c == count_nonzero(self@, i as int),
                c <= i,
                self.wf(),
            decreases 64 - i,
        {
            if self.blocks[i] != 0 {
                c = c + 1;
            }
            i = i + 1;
        }
        proof {
            lemma_count_equiv(self.occ_mask(), self@, 64);
        }
        c
    }

    /// The stored identifiers as one vector, slot by slot.
    pub fn iter(&self) -> (r: Vec<u8>)
        requires
            self.wf(),
        ensures
            r@ == self@,
    {
        let mut out: Vec<u8> = Vec::new();
        let mut i: usize = 0;
        while i < 64
            invariant
                i <= 64,
                self.wf(),
                out@ == self@.take(i as int),
            decreases 64 - i,
        {
            out.push(self.blocks[i]);
            proof {
                assert(self@.take(i + 1) == self@.take(i as int).push(self@[i as int]));
            }
            i = i + 1;
        }
        proof {
            assert(self@.take(64) == self@);
        }
        out
    }

    /// Consumes the cell into the vector of its identifiers.
    pub fn into_iter(self) -> (r: Vec<u8>)
        requires
            self.wf(),
        ensures
            r@ == self@,
    {
        self.blocks
    }
}

impl Default for CellBlkIDLo {
    /// The empty cell: every slot 0, mask clear.
    fn default() -> (r: Self)
        ensures
            r.wf(),
            r@ == Seq::new(64, |i: int| 0u8),
            r.occ_mask() == 0,
    {
        let mut blocks: Vec<u8> = Vec::new();
        let mut i: usize = 0;
        while i < 64
            invariant
                i <= 64,
                blocks@ == Seq::new(i as nat, |j: int| 0u8),
            decreases 64 - i,
        {
            blocks.push(0);
            proof {
                assert(blocks@ =~= Seq::new((i + 1) as nat, |j: int| 0u8));
            }
            i = i + 1;
        }
        proof {
            assert(forall|j: u64| j < 64 ==> !bit_set(0u64, j)) by (bit_vector);
        }
        Self { blocks, mask: 0 }
    }
}

/// The occupancy summary of one cell.
#[derive(Debug, Clone, Copy, PartialEq, Eq, Hash)]
pub struct CellInfo {
    /// The cell's occupancy mask.
    pub occupancy: u64,
}

impl CellInfo {
    /// The number of blocks the summarised cell holds: the population
    /// count of the occupancy mask.
    pub fn calc_blocks(&self) -> (r: u8)
        ensures
            r == count_bits(self.occupancy, 64),
    {
        let m = self.occupancy;
        let mut c: u8 = 0;
        let mut i: u64 = 0;
        while i < 64
            invariant
                i <= 64,
                c == count_bits(m, i as int),
            decreases 64 - i,
        {
            proof {
                lemma_count_bits_bound(m, i as int);
                assert(((m >> i) & 1) < 2) by (bit_vector);
            }
            c = c + ((m >> i) & 1) as u8;
            i = i + 1;
        }
        c
    }
}

impl Default for CellInfo {
    /// The summary of an empty cell.
    fn default() -> (r: Self)
        ensures
            r.occupancy == 0,
    {
        Self { occupancy: 0 }
    }
}

/// The cell slots of one chunk, each allocated on first write.
#[derive(Debug, Clone, PartialEq, Eq, Hash)]
pub struct ChunkBlkIDLo {
    cells: Vec<Option<CellBlkIDLo>>,
}

impl View for ChunkBlkIDLo {
    type V = Seq<Option<CellBlkIDLo>>;

    /// The cell slots, materialised or not.
    closed spec fn view(&self) -> Seq<Option<CellBlkIDLo>> {
        self.cells@
    }
}

impl ChunkBlkIDLo {
    /// Well formed: 64 cell slots, every materialised cell well formed.
    pub open spec fn wf(&self) -> bool {
        &&& self@.len() == 64
        &&& forall|ci: int|
            0 <= ci < 64 ==> ((#[trigger] self@[ci]) matches Some(c) ==> c.wf())
    }

    /// The block identifier stored at cell `ci`, slot `s`; 0 where the
    /// cell was never materialised.
    pub open spec fn block_at(&self, ci: int, s: int) -> u8 {
        match self@[ci] {
            Some(c) => c@[s],
            None => 0,
        }
    }

    /// A chunk store with no cell materialised.
    pub fn new_empty() -> (r: Self)
        ensures
            r.wf(),
            r@ == Seq::new(64, |ci: int| None::<CellBlkIDLo>),
    {
        let mut cells: Vec<Option<CellBlkIDLo>> = Vec::new();
        let mut i: usize = 0;
        while i < 64
            invariant
                i <= 64,
                cells@ == Seq::new(i as nat, |ci: int| None::<CellBlkIDLo>),
            decreases 64 - i,
        {
            cells.push(None);
            proof {
                assert(cells@ =~= Seq::new((i + 1) as nat, |ci: int| None::<CellBlkIDLo>));
            }
            i = i + 1;
        }
        Self { cells }
    }

    /// Mutable access to cell `index`, materialising it empty first if
    /// it was never written.
    pub fn cell_mut(&mut self, index: u8) -> (r: &mut CellBlkIDLo)
        requires
            old(self).wf(),
            index < 64,
        ensures
            (*r).wf(),
            (*r)@ == Seq::new(64, |s: int| old(self).block_at(index as int, s)),
            final(self)@ == old(self)@.update(index as int, Some(*final(r))),
    {
        if self.cells[index as usize].is_none() {
            let empty = CellBlkIDLo::default();
            proof {
                assert(empty@ =~= Seq::new(64, |s: int| old(self).block_at(index as int, s)));
            }
            self.cells.set(index as usize, Some(empty));
        } else {
            proof {
                let c = old(self)@[index as int]->Some_0;
                assert(c@ =~= Seq::new(64, |s: int| old(self).block_at(index as int, s)));
            }
        }
        match &mut self.cells[index as usize] {
            Some(c) => c,
            None => vstd::pervasive::unreached(),
        }
    }
}

/// The occupancy summaries of one chunk's 64 cells.
#[derive(Debug, Clone, PartialEq, Eq, Hash)]
pub struct ChunkInfo {
    /// One summary per cell slot.
    pub cell_info: Vec<CellInfo>,
}

impl Default for ChunkInfo {
    /// The summary of a fully empty chunk.
    fn default() -> (r: Self)
        ensures
            r.cell_info@.len() == 64,
            forall|i: int| 0 <= i < 64 ==> (#[trigger] r.cell_info@[i]).occupancy == 0,
    {
        let mut cell_info: Vec<CellInfo> = Vec::new();
        let mut i: usize = 0;
        while i < 64
            invariant
                i <= 64,
                cell_info@.len() == i,
                forall|j: int| 0 <= j < i ==> (#[trigger] cell_info@[j]).occupancy == 0,
            decreases 64 - i,
        {
            cell_info.push(CellInfo { occupancy: 0 });
            i = i + 1;
        }
        Self { cell_info }
    }
}

/// A chunk: 64 cells whose backing store is allocated on first write.
/// An unmaterialised store stands for a fully empty 16-unit cube.
#[derive(Debug, Clone, PartialEq, Eq, Hash)]
pub struct Chunk {
    blk_loid: Option<ChunkBlkIDLo>,
}

impl Chunk {
    /// The lazily allocated cell store, for specification purposes.
    pub closed spec fn store(&self) -> Option<ChunkBlkIDLo> {
        self.blk_loid
    }

    /// Well formed: the store, if materialised, is well formed.
    pub open spec fn wf(&self) -> bool {
        self.store() matches Some(b) ==> b.wf()
    }

    /// The cell at `ci`, when materialised.
    pub open spec fn child_spec(&self, ci: int) -> Option<CellBlkIDLo> {
        match self.store() {
            Some(b) => b@[ci],
            None => None,
        }
    }

    /// The block identifier stored at cell `ci`, slot `s`; 0 wherever
    /// nothing was materialised.
    pub open spec fn block_at(&self, ci: int, s: int) -> u8 {
        match self.store() {
            Some(b) => b.block_at(ci, s),
            None => 0,
        }
    }

    /// A chunk holds no block at all.
    pub open spec fn all_empty(&self) -> bool {
        forall|ci: int, s: int| 0 <= ci < 64 && 0 <= s < 64 ==> self.block_at(ci, s) == 0
    }

    /// A fully empty chunk that owns no cell storage.
    pub fn empty() -> (r: Self)
        ensures
            r.wf(),
            r.store() is None,
            r.all_empty(),
    {
        Self { blk_loid: None }
    }

    /// The cell that `index` selects, or `None` when that cell was
    /// never materialised; never allocates.
    pub fn get_child(&self, index: u8) -> (r: Option<&CellBlkIDLo>)
        requires
            self.wf(),
            index < 64,
        ensures
            match r {
                Some(c) => self.child_spec(index as int) == Some(*c),
                None => self.child_spec(index as int) is None,
            },
    {
        match &self.blk_loid {
            None => None,
            Some(b) => b.cells[index as usize].as_ref(),
        }
    }

    /// Mutable access to the cell that `index` selects, materialising
    /// the store and the cell, both empty, where they are missing.
    /// This is the only chunk operation that allocates.
    pub fn get_or_create_child(&mut self, index: u8) -> (r: &mut CellBlkIDLo)
        requires
            old(self).wf(),
            index < 64,
        ensures
            (*r).wf(),
            (*r)@ == Seq::new(64, |s: int| old(self).block_at(index as int, s)),
            final(self).store() is Some,
            final(self).child_spec(index as int) == Some(*final(r)),
            forall|ci: int|
                0 <= ci < 64 && ci != index ==> final(self).child_spec(ci) == old(self).child_spec(
                    ci,
                ),
            forall|ci: int, s: int|
                0 <= ci < 64 && 0 <= s < 64 && ci != index ==> final(self).block_at(ci, s) == old(
                    self,
                ).block_at(ci, s),
            forall|s: int| 0 <= s < 64 ==> final(self).block_at(index as int, s) == (*final(r))@[s],
            (*final(r)).wf() ==> final(self).wf(),
    {
        if self.blk_loid.is_none() {
            self.blk_loid = Some(ChunkBlkIDLo::new_empty());
        }
        match &mut self.blk_loid {
            Some(b) => b.cell_mut(index),
            None => vstd::pervasive::unreached(),
        }
    }

    /// Whether the chunk holds no block: its store was never
    /// materialised, or every materialised cell is fully unoccupied.
    pub fn is_empty(&self) -> (r: bool)
        requires
            self.wf(),
        ensures
            r == self.all_empty(),
    {
        match &self.blk_loid {
            None => {
                proof {
                    assert(self.all_empty());
                }
                true
            },
            Some(b) => {
                let mut i: usize = 0;
                let mut empty = true;
                while i < 64
                    invariant
                        i <= 64,
                        self.wf(),
                        self.store() == Some(*b),
                        b.wf(),
                        empty == forall|ci: int, s: int|
                            0 <= ci < i && 0 <= s < 64 ==> self.block_at(ci, s) == 0,
                    decreases 64 - i,
                {
                    match &b.cells[i] {
                        None => {
                        },
                        Some(c) => {
                            if c.occupancy() != 0 {
                                proof {
                                    lemma_nonzero_mask_has_bit(c.occ_mask());
                                    let j = choose|j: u64| j < 64 && bit_set(c.occ_mask(), j);
                                    assert(c@[j as int] != 0);
                                    assert(self.block_at(i as int, j as int) != 0);
                                }
                                empty = false;
                            } else {
                                proof {
                                    assert forall|s: int| 0 <= s < 64 implies self.block_at(
                                        i as int,
                                        s,
                                    ) == 0 by {
                                        lemma_zero_mask_has_no_bit(s as u64);
                                    }
                                }
                            }
                        },
                    }
                    if !empty {
                        proof {
                            assert(!self.all_empty());
                        }
                        return false;
                    }
                    i = i + 1;
                }
                empty
            },
        }
    }
}

/// The position of a sector: block coordinates shifted three tree
/// levels toward the root, padded to four lanes.  The padding lane
/// carries no meaning and stays zero.
#[derive(Debug, Clone, Copy, PartialEq, Eq, Structural, Hash)]
pub struct SectorPos {
    pub x: i64,
    pub y: i64,
    pub z: i64,
    pub w: i64,
}

impl SectorPos {
    /// A key is well formed when its padding lane is zero.
    pub open spec fn wf(&self) -> bool {
        self.w == 0
    }

    /// Builds a sector key; the padding lane is zeroed.
    pub fn new(x: i64, y: i64, z: i64) -> (r: Self)
        ensures
            r == (SectorPos { x, y, z, w: 0 }),
            r.wf(),
    {
        Self { x, y, z, w: 0 }
    }
}

/// A sector: 64 chunks, always present as objects, each with its own
/// lazily allocated cell storage.
#[derive(Debug, Clone)]
pub struct Sector {
    chunks: Vec<Chunk>,
}

impl View for Sector {
    type V = Seq<Chunk>;

    /// The 64 chunks, in tree-index order.
    closed spec fn view(&self) -> Seq<Chunk> {
        self.chunks@
    }
}

impl Sector {
    /// Well formed: exactly 64 chunks, every chunk well formed.
    pub open spec fn wf(&self) -> bool {
        &&& self@.len() == 64
        &&& forall|chi: int| 0 <= chi < 64 ==> (#[trigger] self@[chi]).wf()
    }

    /// The block identifier at chunk `chi`, cell `ci`, slot `s`.
    pub open spec fn block_at(&self, chi: int, ci: int, s: int) -> u8 {
        self@[chi].block_at(ci, s)
    }

    /// A sector holds no block at all.
    pub open spec fn all_empty(&self) -> bool {
        forall|chi: int, ci: int, s: int|
            0 <= chi < 64 && 0 <= ci < 64 && 0 <= s < 64 ==> self.block_at(chi, ci, s) == 0
    }

    /// The chunk that `index` selects; indices wrap modulo 64.
    pub fn get(&self, index: u8) -> (r: &Chunk)
        requires
            self.wf(),
        ensures
            *r == self@[(index % 64) as int],
    {
        &self.chunks[(index % 64) as usize]
    }

    /// Mutable access to the chunk that `index` selects; indices wrap
    /// modulo 64.
    pub fn get_mut(&mut self, index: u8) -> (r: &mut Chunk)
        requires
            old(self).wf(),
        ensures
            *r == old(self)@[(index % 64) as int],
            final(self)@ == old(self)@.update((index % 64) as int, *final(r)),
            (*final(r)).wf() ==> final(self).wf(),
    {
        &mut self.chunks[(index % 64) as usize]
    }

    /// The 64 chunks in tree-index order.
    pub fn iter(&self) -> (r: Vec<&Chunk>)
        requires
            self.wf(),
        ensures
            r@.len() == 64,
            forall|i: int| 0 <= i < 64 ==> *(#[trigger] r@[i]) == self@[i],
    {
        let mut out: Vec<&Chunk> = Vec::new();
        let mut i: usize = 0;
        while i < 64
            invariant
                i <= 64,
                self.wf(),
                out@.len() == i,
                forall|j: int| 0 <= j < i ==> *(#[trigger] out@[j]) == self@[j],
            decreases 64 - i,
        {
            out.push(&self.chunks[i]);
            i = i + 1;
        }
        out
    }

    /// Whether the sector holds no block at all.
    pub fn is_empty(&self) -> (r: bool)
        requires
            self.wf(),
        ensures
            r == self.all_empty(),
    {
        let mut i: usize = 0;
        while i < 64
            invariant
                i <= 64,
                self.wf(),
                forall|chi: int, ci: int, s: int|
                    0 <= chi < i && 0 <= ci < 64 && 0 <= s < 64 ==> self.block_at(chi, ci, s) == 0,
            decreases 64 - i,
        {
            if !self.chunks[i].is_empty() {
                proof {
                    let (ci, s) = choose|ci: int, s: int|
                        0 <= ci < 64 && 0 <= s < 64 && self@[i as int].block_at(ci, s) != 0;
                    assert(self.block_at(i as int, ci, s) != 0);
                }
                return false;
            }
            i = i + 1;
        }
        true
    }
}

impl Default for Sector {
    /// A sector of 64 fully empty chunks that own no cell storage.
    fn default() -> (r: Self)
        ensures
            r.wf(),
            r.all_empty(),
            forall|chi: int| 0 <= chi < 64 ==> (#[trigger] r@[chi]).store() is None,
    {
        let mut chunks: Vec<Chunk> = Vec::new();
        let mut i: usize = 0;
        while i < 64
            invariant
                i <= 64,
                chunks@.len() == i,
                forall|j: int|
                    0 <= j < i ==> (#[trigger] chunks@[j]).store() is None && chunks@[j].wf(),
            decreases 64 - i,
        {
            chunks.push(Chunk::empty());
            i = i + 1;
        }
        Self { chunks }
    }
}

/// No two entries of a key table carry the same key.
pub open spec fn distinct_keys(s: Seq<(SectorPos, usize)>) -> bool {
    forall|j1: int, j2: int|
        0 <= j1 < j2 < s.len() ==> (#[trigger] s[j1]).0 != (#[trigger] s[j2]).0
}

/// The key-to-slot mapping that a key table denotes; later entries
/// shadow earlier ones, and the tables kept here never repeat a key.
pub open spec fn assoc_map(s: Seq<(SectorPos, usize)>) -> Map<SectorPos, usize>
    decreases s.len(),
{
    if s.len() == 0 {
        Map::empty()
    } else {
        assoc_map(s.drop_last()).insert(s.last().0, s.last().1)
    }
}

/// A key is in the denoted mapping exactly when some entry carries it.
proof fn lemma_assoc_contains(s: Seq<(SectorPos, usize)>, k: SectorPos)
    ensures
        assoc_map(s).contains_key(k) <==> exists|j: int|
            0 <= j < s.len() && (#[trigger] s[j]).0 == k,
    decreases s.len(),
{
    if s.len() > 0 {
        lemma_assoc_contains(s.drop_last(), k);
        if s.last().0 == k {
            assert((s[s.len() - 1]).0 == k);
        } else {
            if exists|j: int| 0 <= j < s.drop_last().len() && (#[trigger] s.drop_last()[j]).0
                == k {
                let j = choose|j: int|
                    0 <= j < s.drop_last().len() && (#[trigger] s.drop_last()[j]).0 == k;
                assert((s[j]).0 == k);
            }
            if exists|j: int| 0 <= j < s.len() && (#[trigger] s[j]).0 == k {
                let j = choose|j: int| 0 <= j < s.len() && (#[trigger] s[j]).0 == k;
                assert(j < s.len() - 1);
                assert((s.drop_last()[j]).0 == k);
            }
        }
    }
}

/// In a table without repeated keys, every entry is reflected exactly
/// in the denoted mapping.
proof fn lemma_assoc_value(s: Seq<(SectorPos, usize)>, j: int)
    requires
        distinct_keys(s),
        0 <= j < s.len(),
    ensures
        assoc_map(s).contains_key(s[j].0),
        assoc_map(s)[s[j].0] == s[j].1,
    decreases s.len(),
{
    if j == s.len() - 1 {
    } else {
        assert(distinct_keys(s.drop_last())) by {
            assert(forall|j1: int, j2: int|
                0 <= j1 < j2 < s.drop_last().len() ==> (#[trigger] s.drop_last()[j1]).0 != (
                #[trigger] s.drop_last()[j2]).0);
        }
        lemma_assoc_value(s.drop_last(), j);
        assert(s.drop_last()[j] == s[j]);
        assert(s[j].0 != s.last().0);
    }
}

/// Removing one entry of a table without repeated keys removes exactly
/// its key from the denoted mapping.
proof fn lemma_assoc_remove(s: Seq<(SectorPos, usize)>, j: int)
    requires
        distinct_keys(s),
        0 <= j < s.len(),
    ensures
        assoc_map(s.remove(j)) == assoc_map(s).remove(s[j].0),
    decreases s.len(),
{
    lemma_assoc_contains(s.drop_last(), s[j].0);
    if j == s.len() - 1 {
        assert(s.remove(j) =~= s.drop_last());
        assert(!assoc_map(s.drop_last()).contains_key(s[j].0)) by {
            if exists|t: int| 0 <= t < s.drop_last().len() && (#[trigger] s.drop_last()[t]).0
                == s[j].0 {
                let t = choose|t: int|
                    0 <= t < s.drop_last().len() && (#[trigger] s.drop_last()[t]).0 == s[j].0;
                assert((s[t]).0 == (s[j]).0);
                assert(false);
            }
        }
        assert(assoc_map(s.drop_last()).insert(s.last().0, s.last().1).remove(s.last().0)
            =~= assoc_map(s.drop_last()));
    } else {
        assert(distinct_keys(s.drop_last())) by {
            assert(forall|j1: int, j2: int|
                0 <= j1 < j2 < s.drop_last().len() ==> (#[trigger] s.drop_last()[j1]).0 != (
                #[trigger] s.drop_last()[j2]).0);
        }
        lemma_assoc_remove(s.drop_last(), j);
        assert(s.drop_last()[j] == s[j]);
        assert(s.remove(j).drop_last() =~= s.drop_last().remove(j));
        assert(s.remove(j).last() == s.last());
        assert(s[j].0 != s.last().0);
        assert(assoc_map(s.remove(j)) == assoc_map(s.drop_last().remove(j)).insert(
            s.last().0,
            s.last().1,
        ));
        assert(assoc_map(s.drop_last()).remove(s[j].0).insert(s.last().0, s.last().1)
            =~= assoc_map(s.drop_last()).insert(s.last().0, s.last().1).remove(s[j].0));
    }
}

/// The spatial arena: sectors live in a dense slot array with stable
/// indices; a key table maps each live sector position to its slot, a
/// reverse table maps slots back to positions, and freed slots queue up
/// for reuse.
pub struct World {
    sector_map: Vec<(SectorPos, usize)>,
    sector_mem: Vec<Option<Sector>>,
    sector_rev: Vec<SectorPos>,
    remove_que: Vec<usize>,
}

impl World {
    /// The key table, entry by entry.
    pub closed spec fn entries(&self) -> Seq<(SectorPos, usize)> {
        self.sector_map@
    }

    /// The key-to-slot mapping the arena currently realises.
    pub open spec fn index_map(&self) -> Map<SectorPos, usize> {
        assoc_map(self.entries())
    }

    /// The slot array: `None` marks a vacated slot.
    pub closed spec fn slots(&self) -> Seq<Option<Sector>> {
        self.sector_mem@
    }

    /// The slot-to-position reverse table.
    pub closed spec fn rev_keys(&self) -> Seq<SectorPos> {
        self.sector_rev@
    }

    /// The freed slot indices awaiting reuse, oldest first.
    pub closed spec fn free_list(&self) -> Seq<usize> {
        self.remove_que@
    }

    /// The arena invariant: tables sized alike, keys unique and well
    /// formed, every key table entry pointing at a live slot whose
    /// reverse entry points back, every live slot reachable through the
    /// key table, every live sector well formed, and the free list
    /// holding distinct vacated in-range slots.
    pub open spec fn wf(&self) -> bool {
        &&& self.rev_keys().len() == self.slots().len()
        &&& distinct_keys(self.entries())
        &&& forall|j: int|
            0 <= j < self.entries().len() ==> ((#[trigger] self.entries()[j]).1 as int)
                < self.slots().len() && self.slots()[self.entries()[j].1 as int] is Some
                && self.rev_keys()[self.entries()[j].1 as int] == self.entries()[j].0
                && self.entries()[j].0.wf()
        &&& forall|i: int|
            0 <= i < self.slots().len() && (#[trigger] self.slots()[i]) is Some ==> exists|j: int|
                0 <= j < self.entries().len() && (#[trigger] self.entries()[j]).0
                    == self.rev_keys()[i] && (self.entries()[j].1 as int) == i
        &&& forall|i: int|
            0 <= i < self.slots().len() && (#[trigger] self.slots()[i]) is Some
                ==> self.slots()[i]->Some_0.wf()
        &&& forall|q: int|
            0 <= q < self.free_list().len() ==> ((#[trigger] self.free_list()[q]) as int)
                < self.slots().len() && self.slots()[self.free_list()[q] as int] is None
        &&& forall|q1: int, q2: int|
            0 <= q1 < q2 < self.free_list().len() ==> (#[trigger] self.free_list()[q1]) != (
            #[trigger] self.free_list()[q2])
    }

    /// An arena with no sector and no slot.
    pub fn new() -> (r: Self)
        ensures
            r.wf(),
            r.entries().len() == 0,
            r.index_map() == Map::<SectorPos, usize>::empty(),
            r.slots().len() == 0,
            r.free_list().len() == 0,
            forall|q: BlockPos| #[trigger] r.block_at_pos(q) == 0,
    {
        Self {
            sector_map: Vec::new(),
            sector_mem: Vec::new(),
            sector_rev: Vec::new(),
            remove_que: Vec::new(),
        }
    }

    /// The position of `key` in the key table, if some entry carries it.
    fn find_pos(&self, key: &SectorPos) -> (r: Option<usize>)
        ensures
            match r {
                Some(j) => (j as int) < self.entries().len() && self.entries()[j as int].0 == *key,
                None => forall|j: int|
                    0 <= j < self.entries().len() ==> (#[trigger] self.entries()[j]).0 != *key,
            },
    {
        let mut j: usize = 0;
        while j < self.sector_map.len()
            invariant
                j <= self.entries().len(),
                forall|t: int| 0 <= t < j ==> (#[trigger] self.entries()[t]).0 != *key,
            decreases self.entries().len() - j,
        {
            if self.sector_map[j].0 == *key {
                return Some(j);
            }
            j = j + 1;
        }
        None
    }

    /// The slot index that `key` maps to, for callers that cache it.
    pub fn idx_get(&self, key: &SectorPos) -> (r: Option<usize>)
        requires
            self.wf(),
        ensures
            match r {
                Some(i) => self.index_map().contains_key(*key) && self.index_map()[*key] == i,
                None => !self.index_map().contains_key(*key),
            },
    {
        proof {
            lemma_assoc_contains(self.entries(), *key);
        }
        match self.find_pos(key) {
            Some(j) => {
                proof {
                    lemma_assoc_value(self.entries(), j as int);
                }
                Some(self.sector_map[j].1)
            },
            None => None,
        }
    }

    /// The sector in slot `idx`: `None` for an out-of-range index or a
    /// vacated slot, never a fault.
    pub fn get(&self, idx: usize) -> (r: Option<&Sector>)
        ensures
            match r {
                Some(s) => (idx as int) < self.slots().len() && self.slots()[idx as int] == Some(
                    *s,
                ),
                None => (idx as int) >= self.slots().len() || self.slots()[idx as int] is None,
            },
    {
        if idx < self.sector_mem.len() {
            self.sector_mem[idx].as_ref()
        } else {
            None
        }
    }

    /// Mutable access to the sector in slot `idx`; `None` for an
    /// out-of-range index or a vacated slot.
    pub fn get_mut(&mut self, idx: usize) -> (r: Option<&mut Sector>)
        requires
            old(self).wf(),
        ensures
            r is None ==> ((idx as int) >= old(self).slots().len() || old(self).slots()[idx as int]
                is None) && final(self).wf() && final(self).entries() == old(self).entries()
                && final(self).slots() == old(self).slots()
                && final(self).rev_keys() == old(self).rev_keys()
                && final(self).free_list() == old(self).free_list(),
            r is Some ==> (idx as int) < old(self).slots().len()
                && old(self).slots()[idx as int] == Some(*r.unwrap())
                && final(self).slots() == old(self).slots().update(idx as int, Some(*final(r.unwrap())))
                && final(self).entries() == old(self).entries()
                && final(self).rev_keys() == old(self).rev_keys()
                && final(self).free_list() == old(self).free_list()
                && ((*final(r.unwrap())).wf() ==> final(self).wf()),
    {
        if idx < self.sector_mem.len() {
            if self.sector_mem[idx].is_some() {
                match &mut self.sector_mem[idx] {
                    Some(s) => Some(s),
                    None => vstd::pervasive::unreached(),
                }
            } else {
                None
            }
        } else {
            None
        }
    }

    /// A key in the mapping always points at an in-range, live slot
    /// whose reverse entry carries the key back.
    pub proof fn lemma_mapped_slot_live(&self, k: SectorPos)
        requires
            self.wf(),
            self.index_map().contains_key(k),
        ensures
            (self.index_map()[k] as int) < self.slots().len(),
            self.slots()[self.index_map()[k] as int] is Some,
            self.rev_keys()[self.index_map()[k] as int] == k,
            exists|j: int|
                0 <= j < self.entries().len() && (#[trigger] self.entries()[j]) == (
                k,
                self.index_map()[k],
                ),
    {
        lemma_assoc_contains(self.entries(), k);
        let j = choose|j: int| 0 <= j < self.entries().len() && (#[trigger] self.entries()[j]).0
            == k;
        lemma_assoc_value(self.entries(), j);
        assert(self.entries()[j] == (k, self.index_map()[k]));
    }

    /// The sector that `key` maps to, or `None` where `key` is absent.
    pub fn get_by_key(&self, key: &SectorPos) -> (r: Option<&Sector>)
        requires
            self.wf(),
        ensures
            match r {
                Some(s) => self.index_map().contains_key(*key)
                    && self.slots()[self.index_map()[*key] as int] == Some(*s),
                None => !self.index_map().contains_key(*key),
            },
    {
        match self.idx_get(key) {
            Some(i) => {
                proof {
                    self.lemma_mapped_slot_live(*key);
                }
                self.get(i)
            },
            None => None,
        }
    }

    /// Mutable access to the sector that `key` maps to.
    pub fn get_by_key_mut(&mut self, key: &SectorPos) -> (r: Option<&mut Sector>)
        requires
            old(self).wf(),
        ensures
            r is None ==> !old(self).index_map().contains_key(*key) && final(self).wf()
                && final(self).entries() == old(self).entries()
                && final(self).slots() == old(self).slots()
                && final(self).rev_keys() == old(self).rev_keys()
                && final(self).free_list() == old(self).free_list(),
            r is Some ==> old(self).index_map().contains_key(*key)
                && old(self).slots()[old(self).index_map()[*key] as int] == Some(*r.unwrap())
                && final(self).slots() == old(self).slots().update(old(self).index_map()[*key] as int, Some(*final(r.unwrap())))
                && final(self).entries() == old(self).entries()
                && final(self).rev_keys() == old(self).rev_keys()
                && final(self).free_list() == old(self).free_list()
                && ((*final(r.unwrap())).wf() ==> final(self).wf()),
    {
        match self.idx_get(key) {
            Some(i) => {
                proof {
                    self.lemma_mapped_slot_live(*key);
                }
                self.get_mut(i)
            },
            None => None,
        }
    }
}

/// How one `insert` call moves the arena: a present key has its slot
/// overwritten in place; an absent key takes the most recently freed
/// slot if one waits, and a fresh slot at the end otherwise.
pub open spec fn insert_step(pre: World, post: World, pos: SectorPos, sector: Sector) -> bool {
    if pre.index_map().contains_key(pos) {
        &&& post.index_map() == pre.index_map()
        &&& post.slots() == pre.slots().update(
            pre.index_map()[pos] as int,
            Some(sector),
        )
        &&& post.rev_keys() == pre.rev_keys()
        &&& post.free_list() == pre.free_list()
    } else if pre.free_list().len() > 0 {
        &&& post.index_map() == pre.index_map().insert(pos, pre.free_list().last())
        &&& post.slots() == pre.slots().update(pre.free_list().last() as int, Some(sector))
        &&& post.rev_keys() == pre.rev_keys().update(pre.free_list().last() as int, pos)
        &&& post.free_list() == pre.free_list().drop_last()
    } else {
        &&& post.index_map() == pre.index_map().insert(pos, pre.slots().len() as usize)
        &&& post.slots() == pre.slots().push(Some(sector))
        &&& post.rev_keys() == pre.rev_keys().push(pos)
        &&& post.free_list() == pre.free_list()
    }
}

/// How one `remove` call moves the arena: a present key gives up its
/// sector, its slot is vacated and queued for reuse; an absent key
/// changes nothing.
pub open spec fn remove_step(pre: World, post: World, pos: SectorPos, r: Option<Sector>) -> bool {
    if pre.index_map().contains_key(pos) {
        &&& r == pre.slots()[pre.index_map()[pos] as int]
        &&& post.index_map() == pre.index_map().remove(pos)
        &&& post.slots() == pre.slots().update(pre.index_map()[pos] as int, None::<Sector>)
        &&& post.rev_keys() == pre.rev_keys()
        &&& post.free_list() == pre.free_list().push(pre.index_map()[pos])
    } else {
        &&& r is None
        &&& post.index_map() == pre.index_map()
        &&& post.slots() == pre.slots()
        &&& post.rev_keys() == pre.rev_keys()
        &&& post.free_list() == pre.free_list()
    }
}

/// The live sectors of a slot array, in slot order.
pub open spec fn live_sectors(s: Seq<Option<Sector>>) -> Seq<Sector>
    decreases s.len(),
{
    if s.len() == 0 {
        Seq::empty()
    } else {
        match s.last() {
            Some(x) => live_sectors(s.drop_last()).push(x),
            None => live_sectors(s.drop_last()),
        }
    }
}

impl World {
    /// Binds `pos` to `sector`.  A live key keeps its slot and has the
    /// sector replaced in place; otherwise the most recently freed slot
    /// is reused, and only when none waits does the slot array grow.
    pub fn insert(&mut self, pos: SectorPos, sector: Sector)
        requires
            old(self).wf(),
            pos.wf(),
            sector.wf(),
        ensures
            final(self).wf(),
            insert_step(*old(self), *final(self), pos, sector),
            final(self).index_map().contains_key(pos),
            final(self).slots()[final(self).index_map()[pos] as int] == Some(sector),
            final(self).index_map() == old(self).index_map().insert(
                pos,
                final(self).index_map()[pos],
            ),
    {
        let ghost pre = *self;
        match self.find_pos(&pos) {
            Some(j) => {
                proof {
                    lemma_assoc_value(self.entries(), j as int);
                }
                let i = self.sector_map[j].1;
                self.sector_mem.set(i, Some(sector));
                proof {
                    assert forall|i2: int|
                        0 <= i2 < self.slots().len() && (#[trigger] self.slots()[i2])
                            is Some implies exists|t: int|
                        0 <= t < self.entries().len() && (#[trigger] self.entries()[t]).0
                            == self.rev_keys()[i2] && (self.entries()[t].1 as int) == i2 by {
                        if i2 != i as int {
                            assert(pre.slots()[i2] is Some);
                            let t0 = choose|t: int|
                                0 <= t < pre.entries().len() && (#[trigger] pre.entries()[t]).0
                                    == pre.rev_keys()[i2] && (pre.entries()[t].1 as int) == i2;
                            assert(self.entries()[t0].0 == self.rev_keys()[i2] && (
                            self.entries()[t0].1 as int) == i2);
                        } else {
                            assert(self.entries()[j as int].0 == self.rev_keys()[i2]
                                && (self.entries()[j as int].1 as int) == i2);
                        }
                    }
                    assert(self.index_map() =~= pre.index_map().insert(pos, i));
                    assert(pre.index_map().insert(pos, i) =~= pre.index_map());
                }
            },
            None => {
                proof {
                    lemma_assoc_contains(self.entries(), pos);
                }
                let popped = self.remove_que.pop();
                match popped {
                    Some(i) => {
                        self.sector_mem.set(i, Some(sector));
                        self.sector_rev.set(i, pos);
                        self.sector_map.push((pos, i));
                        proof {
                            lemma_insert_wf_reused(pre, *self, pos, sector, i);
                            assert(self.entries().drop_last() =~= pre.entries());
                            assert(self.index_map() =~= pre.index_map().insert(pos, i));
                        }
                    },
                    None => {
                        let i = self.sector_mem.len();
                        self.sector_mem.push(Some(sector));
                        self.sector_rev.push(pos);
                        self.sector_map.push((pos, i));
                        proof {
                            lemma_insert_wf_fresh(pre, *self, pos, sector, i);
                            assert(self.entries().drop_last() =~= pre.entries());
                            assert(self.index_map() =~= pre.index_map().insert(pos, i));
                        }
                    },
                }
            },
        }
    }

    /// Unbinds `pos` and hands its sector back; the vacated slot joins
    /// the free list.  Absent keys leave the arena untouched.
    pub fn remove(&mut self, pos: SectorPos) -> (r: Option<Sector>)
        requires
            old(self).wf(),
        ensures
            final(self).wf(),
            remove_step(*old(self), *final(self), pos, r),
            r is Some <==> old(self).index_map().contains_key(pos),
    {
        let ghost pre = *self;
        proof {
            lemma_assoc_contains(self.entries(), pos);
        }
        match self.find_pos(&pos) {
            None => None,
            Some(j) => {
                proof {
                    lemma_assoc_value(self.entries(), j as int);
                    lemma_assoc_remove(self.entries(), j as int);
                }
                let i = self.sector_map[j].1;
                self.sector_map.remove(j);
                let mut taken: Option<Sector> = None;
                core::mem::swap(&mut taken, &mut self.sector_mem[i]);
                self.remove_que.push(i);
                proof {
                    lemma_remove_wf(pre, *self, pos, j as int, i);
                }
                taken
            },
        }
    }

    /// Unbinds the key living in slot `idx` and hands back the pair;
    /// `None` when the slot is vacated.
    pub fn remove_idx(&mut self, idx: usize) -> (r: Option<(SectorPos, Sector)>)
        requires
            old(self).wf(),
            (idx as int) < old(self).slots().len(),
        ensures
            final(self).wf(),
            old(self).slots()[idx as int] is Some ==> r == Some(
                (old(self).rev_keys()[idx as int], old(self).slots()[idx as int]->Some_0),
            ) && remove_step(
                *old(self),
                *final(self),
                old(self).rev_keys()[idx as int],
                Some(old(self).slots()[idx as int]->Some_0),
            ),
            old(self).slots()[idx as int] is None ==> r is None && final(self).entries() == old(
                self,
            ).entries() && final(self).slots() == old(self).slots() && final(self).rev_keys()
                == old(self).rev_keys() && final(self).free_list() == old(self).free_list(),
    {
        if self.sector_mem[idx].is_some() {
            let pos = self.sector_rev[idx];
            proof {
                let j = choose|j: int|
                    0 <= j < self.entries().len() && (#[trigger] self.entries()[j]) == (
                    pos,
                    idx,
                    );
                lemma_assoc_value(self.entries(), j);
            }
            match self.remove(pos) {
                Some(sec) => Some((pos, sec)),
                None => vstd::pervasive::unreached(),
            }
        } else {
            None
        }
    }

    /// The live sectors in slot order; vacated slots are skipped.
    pub fn iter(&self) -> (r: Vec<&Sector>)
        requires
            self.wf(),
        ensures
            r@.len() == live_sectors(self.slots()).len(),
            forall|t: int|
                0 <= t < r@.len() ==> *(#[trigger] r@[t]) == live_sectors(self.slots())[t],
    {
        let mut out: Vec<&Sector> = Vec::new();
        let mut i: usize = 0;
        while i < self.sector_mem.len()
            invariant
                i <= self.slots().len(),
                out@.len() == live_sectors(self.slots().take(i as int)).len(),
                forall|t: int|
                    0 <= t < out@.len() ==> *(#[trigger] out@[t]) == live_sectors(
                        self.slots().take(i as int),
                    )[t],
            decreases self.slots().len() - i,
        {
            proof {
                assert(self.slots().take(i + 1).drop_last() =~= self.slots().take(i as int));
                assert(self.slots().take(i + 1).last() == self.slots()[i as int]);
            }
            match &self.sector_mem[i] {
                Some(s) => {
                    out.push(s);
                },
                None => {
                },
            }
            i = i + 1;
        }
        proof {
            assert(self.slots().take(self.slots().len() as int) =~= self.slots());
        }
        out
    }
}

/// Re-establishes the arena invariant after an insert into a reused
/// free slot.
proof fn lemma_insert_wf_reused(pre: World, post: World, pos: SectorPos, sector: Sector, i: usize)
    requires
        pre.wf(),
        pos.wf(),
        sector.wf(),
        !pre.index_map().contains_key(pos),
        forall|j: int| 0 <= j < pre.entries().len() ==> (#[trigger] pre.entries()[j]).0 != pos,
        pre.free_list().len() > 0,
        i == pre.free_list().last(),
        post.entries() == pre.entries().push((pos, i)),
        post.slots() == pre.slots().update(i as int, Some(sector)),
        post.rev_keys() == pre.rev_keys().update(i as int, pos),
        post.free_list() == pre.free_list().drop_last(),
    ensures
        post.wf(),
{
    assert((i as int) < pre.slots().len());
    assert(forall|j: int|
        0 <= j < pre.entries().len() ==> #[trigger] post.entries()[j] == pre.entries()[j]);
    assert forall|j: int|
        0 <= j < post.entries().len() implies ((#[trigger] post.entries()[j]).1 as int)
        < post.slots().len() && post.slots()[post.entries()[j].1 as int] is Some
        && post.rev_keys()[post.entries()[j].1 as int] == post.entries()[j].0
        && post.entries()[j].0.wf() by {
        if j < pre.entries().len() {
            assert(pre.slots()[pre.entries()[j].1 as int] is Some);
            assert((pre.entries()[j].1 as int) != i as int);
        }
    }
    assert forall|i2: int|
        0 <= i2 < post.slots().len() && (#[trigger] post.slots()[i2]) is Some implies exists|
        j: int,
    |
        0 <= j < post.entries().len() && (#[trigger] post.entries()[j]).0 == post.rev_keys()[i2]
            && (post.entries()[j].1 as int) == i2 by {
        if i2 == i as int {
            assert(post.entries()[post.entries().len() - 1].0 == post.rev_keys()[i2]
                && (post.entries()[post.entries().len() - 1].1 as int) == i2);
        } else {
            assert(pre.slots()[i2] is Some);
            let j = choose|j: int|
                0 <= j < pre.entries().len() && (#[trigger] pre.entries()[j]).0
                    == pre.rev_keys()[i2] && (pre.entries()[j].1 as int) == i2;
            assert(post.entries()[j].0 == post.rev_keys()[i2] && (post.entries()[j].1 as int)
                == i2);
        }
    }
    assert forall|q: int|
        0 <= q < post.free_list().len() implies ((#[trigger] post.free_list()[q]) as int)
        < post.slots().len() && post.slots()[post.free_list()[q] as int] is None by {
        assert(post.free_list()[q] == pre.free_list()[q]);
        assert(pre.free_list()[q] != pre.free_list()[pre.free_list().len() - 1]);
    }
}

/// Re-establishes the arena invariant after an insert into a fresh
/// slot at the end of the array.
proof fn lemma_insert_wf_fresh(pre: World, post: World, pos: SectorPos, sector: Sector, i: usize)
    requires
        pre.wf(),
        pos.wf(),
        sector.wf(),
        forall|j: int| 0 <= j < pre.entries().len() ==> (#[trigger] pre.entries()[j]).0 != pos,
        pre.free_list().len() == 0,
        i as int == pre.slots().len(),
        post.entries() == pre.entries().push((pos, i)),
        post.slots() == pre.slots().push(Some(sector)),
        post.rev_keys() == pre.rev_keys().push(pos),
        post.free_list() == pre.free_list(),
    ensures
        post.wf(),
{
    assert(forall|j: int|
        0 <= j < pre.entries().len() ==> #[trigger] post.entries()[j] == pre.entries()[j]);
    assert forall|j: int|
        0 <= j < post.entries().len() implies ((#[trigger] post.entries()[j]).1 as int)
        < post.slots().len() && post.slots()[post.entries()[j].1 as int] is Some
        && post.rev_keys()[post.entries()[j].1 as int] == post.entries()[j].0
        && post.entries()[j].0.wf() by {
        if j < pre.entries().len() {
            assert(pre.slots()[pre.entries()[j].1 as int] is Some);
        }
    }
    assert forall|i2: int|
        0 <= i2 < post.slots().len() && (#[trigger] post.slots()[i2]) is Some implies exists|
        j: int,
    |
        0 <= j < post.entries().len() && (#[trigger] post.entries()[j]).0 == post.rev_keys()[i2]
            && (post.entries()[j].1 as int) == i2 by {
        if i2 == i as int {
            assert(post.entries()[post.entries().len() - 1].0 == post.rev_keys()[i2]
                && (post.entries()[post.entries().len() - 1].1 as int) == i2);
        } else {
            assert(pre.slots()[i2] is Some);
            let j = choose|j: int|
                0 <= j < pre.entries().len() && (#[trigger] pre.entries()[j]).0
                    == pre.rev_keys()[i2] && (pre.entries()[j].1 as int) == i2;
            assert(post.entries()[j].0 == post.rev_keys()[i2] && (post.entries()[j].1 as int)
                == i2);
        }
    }
}

/// Re-establishes the arena invariant after a removal.
proof fn lemma_remove_wf(pre: World, post: World, pos: SectorPos, j: int, i: usize)
    requires
        pre.wf(),
        0 <= j < pre.entries().len(),
        pre.entries()[j] == (pos, i),
        post.entries() == pre.entries().remove(j),
        post.slots() == pre.slots().update(i as int, None::<Sector>),
        post.rev_keys() == pre.rev_keys(),
        post.free_list() == pre.free_list().push(i),
    ensures
        post.wf(),
{
    assert((i as int) < pre.slots().len());
    assert(forall|t: int|
        0 <= t < post.entries().len() ==> #[trigger] post.entries()[t] == (if t < j {
            pre.entries()[t]
        } else {
            pre.entries()[t + 1]
        }));
    assert forall|j1: int, j2: int|
        0 <= j1 < j2 < post.entries().len() implies (#[trigger] post.entries()[j1]).0 != (
    #[trigger] post.entries()[j2]).0 by {}
    assert forall|t: int|
        0 <= t < post.entries().len() implies ((#[trigger] post.entries()[t]).1 as int)
        < post.slots().len() && post.slots()[post.entries()[t].1 as int] is Some
        && post.rev_keys()[post.entries()[t].1 as int] == post.entries()[t].0
        && post.entries()[t].0.wf() by {
        let t0: int = if t < j {
            t
        } else {
            t + 1
        };
        assert(pre.entries()[t0] == post.entries()[t]);
        assert(pre.slots()[pre.entries()[t0].1 as int] is Some);
        if (post.entries()[t].1 as int) == i as int {
            assert(pre.rev_keys()[i as int] == pre.entries()[t0].0);
            assert(pre.rev_keys()[i as int] == pos);
            assert(t0 != j);
            assert(false);
        }
    }
    assert forall|i2: int|
        0 <= i2 < post.slots().len() && (#[trigger] post.slots()[i2]) is Some implies exists|
        t: int,
    |
        0 <= t < post.entries().len() && (#[trigger] post.entries()[t]).0 == post.rev_keys()[i2]
            && (post.entries()[t].1 as int) == i2 by {
        assert(i2 != i as int);
        assert(pre.slots()[i2] is Some);
        let t0 = choose|t: int|
            0 <= t < pre.entries().len() && (#[trigger] pre.entries()[t]).0 == pre.rev_keys()[i2]
                && (pre.entries()[t].1 as int) == i2;
        assert(t0 != j);
        let t: int = if t0 < j {
            t0
        } else {
            t0 - 1
        };
        assert(post.entries()[t].0 == post.rev_keys()[i2] && (post.entries()[t].1 as int) == i2);
    }
    assert forall|q: int|
        0 <= q < post.free_list().len() implies ((#[trigger] post.free_list()[q]) as int)
        < post.slots().len() && post.slots()[post.free_list()[q] as int] is None by {
        if q < pre.free_list().len() {
            assert(pre.slots()[pre.free_list()[q] as int] is None);
            assert(pre.free_list()[q] != i);
        } else {
            assert(post.free_list()[q] == i);
        }
    }
    assert forall|q1: int, q2: int|
        0 <= q1 < q2 < post.free_list().len() implies (#[trigger] post.free_list()[q1]) != (
    #[trigger] post.free_list()[q2]) by {
        if q2 == pre.free_list().len() as int {
            assert(pre.slots()[pre.free_list()[q1] as int] is None);
        }
    }
}

/// Removing one key moves no other live key: its slot index and its
/// sector are exactly what they were.
pub proof fn lemma_slot_stability(
    pre: World,
    post: World,
    a: SectorPos,
    c: SectorPos,
    r: Option<Sector>,
)
    requires
        pre.wf(),
        remove_step(pre, post, a, r),
        c != a,
        pre.index_map().contains_key(c),
    ensures
        post.index_map().contains_key(c),
        post.index_map()[c] == pre.index_map()[c],
        post.slots()[post.index_map()[c] as int] == pre.slots()[pre.index_map()[c] as int],
{
    if pre.index_map().contains_key(a) {
        pre.lemma_mapped_slot_live(a);
        pre.lemma_mapped_slot_live(c);
        assert(pre.index_map()[a] != pre.index_map()[c]);
    }
}

/// Inserting a key, removing it, and inserting another key puts the
/// second key into exactly the slot the first one occupied, while the
/// first key stays gone.
pub proof fn lemma_slot_reuse(
    w0: World,
    w1: World,
    w2: World,
    w3: World,
    a: SectorPos,
    b: SectorPos,
    s1: Sector,
    s2: Sector,
    r: Option<Sector>,
)
    requires
        w0.wf(),
        insert_step(w0, w1, a, s1),
        w1.wf(),
        remove_step(w1, w2, a, r),
        w2.wf(),
        insert_step(w2, w3, b, s2),
        a != b,
        !w0.index_map().contains_key(b),
    ensures
        w1.index_map().contains_key(a),
        w3.index_map().contains_key(b),
        w3.index_map()[b] == w1.index_map()[a],
        !w3.index_map().contains_key(a),
        w3.slots()[w3.index_map()[b] as int] == Some(s2),
{
    assert(w1.index_map().contains_key(a));
    let i = w1.index_map()[a];
    assert(w2.free_list() == w1.free_list().push(i));
    assert(!w2.index_map().contains_key(b));
    assert(w2.free_list().last() == i);
    assert(w3.index_map() == w2.index_map().insert(b, i));
}

/// The zero mask has no set bit.
proof fn lemma_zero_mask_has_no_bit(j: u64)
    ensures
        !bit_set(0u64, j),
{
    assert((0u64 >> j) & 1 != 1) by (bit_vector);
}

/// A non-zero 64-bit mask has a set bit below 64.
proof fn lemma_nonzero_mask_has_bit(m: u64)
    requires
        m != 0,
    ensures
        exists|j: u64| j < 64 && bit_set(m, j),
{
    assert(m >> 0 == m) by (bit_vector);
    lemma_nonzero_shifted_mask_has_bit(m, 0);
}

/// Peels bits off a mask until a set one is found.
proof fn lemma_nonzero_shifted_mask_has_bit(m: u64, k: u64)
    requires
        k < 64,
        m >> k != 0,
    ensures
        exists|j: u64| j < 64 && bit_set(m, j),
    decreases 64 - k,
{
    if (m >> k) & 1 == 1 {
        assert(bit_set(m, k));
    } else {
        assert(k < 63 && (m >> (k + 1)) != 0) by (bit_vector)
            requires
                k < 64 && m >> k != 0 && (m >> k) & 1 != 1,
        ;
        lemma_nonzero_shifted_mask_has_bit(m, (k + 1) as u64);
    }
}

/// For a well-formed cell, the population count of the occupancy mask
/// equals the number of occupied slots, and bit `i` of the mask is set
/// exactly when slot `i` holds a non-zero identifier.
pub proof fn lemma_occupancy_consistency(c: &CellBlkIDLo)
    requires
        c.wf(),
    ensures
        count_bits(c.occ_mask(), 64) == count_nonzero(c@, 64),
        forall|i: int| 0 <= i < 64 ==> (bit_set(c.occ_mask(), i as u64) <==> c@[i] != 0),
{
    lemma_count_equiv(c.occ_mask(), c@, 64);
}

/// The top-level arena key of a block position: every axis three tree
/// levels toward the root.
pub open spec fn sector_key(p: BlockPos) -> SectorPos {
    SectorPos {
        x: axis_down(axis_down(axis_down(p.x))),
        y: axis_down(axis_down(axis_down(p.y))),
        z: axis_down(axis_down(axis_down(p.z))),
        w: 0,
    }
}

impl World {
    /// The block identifier stored at position `p`: the walk from the
    /// arena key down through sector, chunk and cell, with every miss
    /// reading as 0.
    pub open spec fn block_at_pos(&self, p: BlockPos) -> u8 {
        if self.index_map().contains_key(sector_key(p)) {
            match self.slots()[self.index_map()[sector_key(p)] as int] {
                Some(sec) => sec.block_at(
                    p.parent().parent().tree_index() as int,
                    p.parent().tree_index() as int,
                    p.tree_index() as int,
                ),
                None => 0,
            }
        } else {
            0
        }
    }

    /// Writes block `id` at position `p`, materialising the sector, the
    /// chunk store and the cell on the way down as needed.
    pub fn write_block(&mut self, p: BlockPos, id: u8)
        requires
            old(self).wf(),
            p.wf(),
        ensures
            final(self).wf(),
            write_step(*old(self), *final(self), p, id),
    {
        let ghost pre = *self;
        let slot = p.as_64tree_index();
        let p1 = p.down_level();
        let ci = p1.as_64tree_index();
        let p2 = p1.down_level();
        let chi = p2.as_64tree_index();
        let p3 = p2.down_level();
        let key = SectorPos::new(p3.x(), p3.y(), p3.z());
        proof {
            assert(key == sector_key(p));
        }
        if self.idx_get(&key).is_none() {
            let fresh = Sector::default();
            let ghost fresh0 = fresh;
            self.insert(key, fresh);
            proof {
                lemma_insert_empty_preserves_reads(pre, *self, key, fresh0);
            }
        }
        let ghost mid = *self;
        proof {
            assert(forall|q: BlockPos|
                q.wf() ==> #[trigger] mid.block_at_pos(q) == pre.block_at_pos(q));
            mid.lemma_mapped_slot_live(key);
        }
        match self.get_by_key_mut(&key) {
            Some(sec) => {
                write_in_sector(sec, chi, ci, slot, id);
            },
            None => {
                proof {
                    assert(false);
                }
            },
        }
        proof {
            lemma_write_frame(mid, *self, p, id, chi, ci, slot);
            assert forall|q: BlockPos| q.wf() && q != p implies #[trigger] self.block_at_pos(q)
                == pre.block_at_pos(q) by {
                assert(mid.block_at_pos(q) == pre.block_at_pos(q));
            }
        }
    }

    /// Reads the block identifier at position `p`; every missing level
    /// short-circuits to 0 and nothing is allocated.
    pub fn read_block(&self, p: BlockPos) -> (r: u8)
        requires
            self.wf(),
            p.wf(),
        ensures
            r == self.block_at_pos(p),
    {
        let slot = p.as_64tree_index();
        let p1 = p.down_level();
        let ci = p1.as_64tree_index();
        let p2 = p1.down_level();
        let chi = p2.as_64tree_index();
        let p3 = p2.down_level();
        let key = SectorPos::new(p3.x(), p3.y(), p3.z());
        proof {
            assert(key == sector_key(p));
        }
        match self.get_by_key(&key) {
            None => 0,
            Some(sec) => {
                proof {
                    self.lemma_mapped_slot_live(key);
                    assert(self.slots()[self.index_map()[key] as int]->Some_0 == *sec);
                    assert((*sec).wf());
                    assert(chi % 64 == chi);
                }
                let chunk = sec.get(chi);
                match chunk.get_child(ci) {
                    None => 0,
                    Some(cell) => cell.get(slot),
                }
            },
        }
    }
}

/// How one `write_block` call moves the store: position `p` reads back
/// as `id`, and every other well-formed position reads as before.
pub open spec fn write_step(pre: World, post: World, p: BlockPos, id: u8) -> bool {
    &&& post.block_at_pos(p) == id
    &&& forall|q: BlockPos|
        q.wf() && q != p ==> #[trigger] post.block_at_pos(q) == pre.block_at_pos(q)
}

/// Inserting an all-empty sector changes no read: positions under its
/// key read 0 both before (absent key) and after (empty sector), and
/// positions under other keys are untouched.
proof fn lemma_insert_empty_preserves_reads(
    pre: World,
    post: World,
    key: SectorPos,
    sector: Sector,
)
    requires
        pre.wf(),
        post.wf(),
        sector.all_empty(),
        !pre.index_map().contains_key(key),
        insert_step(pre, post, key, sector),
    ensures
        forall|q: BlockPos| q.wf() ==> #[trigger] post.block_at_pos(q) == pre.block_at_pos(q),
{
    assert forall|q: BlockPos| q.wf() implies #[trigger] post.block_at_pos(q) == pre.block_at_pos(
        q,
    ) by {
        let k = sector_key(q);
        if k == key {
            assert(pre.block_at_pos(q) == 0);
            assert(post.index_map().contains_key(k));
            if pre.free_list().len() > 0 {
                assert(pre.free_list()[pre.free_list().len() - 1] == pre.free_list().last());
                assert((pre.free_list().last() as int) < pre.slots().len());
            } else {
                assert(vstd::std_specs::vec::spec_vec_len(&pre.sector_mem)
                    == pre.sector_mem@.len());
                assert((pre.slots().len() as usize) as int == pre.slots().len());
            }
            assert(post.slots()[post.index_map()[k] as int] == Some(sector));
            crate::pos::lemma_tree_index_decomposition(q);
            crate::pos::lemma_tree_index_decomposition(q.parent());
            crate::pos::lemma_tree_index_decomposition(q.parent().parent());
        } else {
            if pre.index_map().contains_key(k) {
                pre.lemma_mapped_slot_live(k);
                assert(post.index_map()[k] == pre.index_map()[k]);
                if pre.index_map().contains_key(key) {
                } else if pre.free_list().len() > 0 {
                    assert(pre.slots()[pre.free_list().last() as int] is None);
                    assert((pre.index_map()[k] as int) != (pre.free_list().last() as int));
                } else {
                    assert((pre.index_map()[k] as int) < pre.slots().len());
                }
                assert(post.slots()[post.index_map()[k] as int] == pre.slots()[pre.index_map()[k]
                    as int]);
            } else {
                assert(!post.index_map().contains_key(k));
            }
        }
    }
}

/// One axis is pinned by its three-level parent and its selector bits
/// at each of the three levels.
proof fn lemma_axis3_injective(a: i64, b: i64)
    requires
        axis_down(axis_down(axis_down(a))) == axis_down(axis_down(axis_down(b))),
        axis_low2(a) == axis_low2(b),
        axis_low2(axis_down(a)) == axis_low2(axis_down(b)),
        axis_low2(axis_down(axis_down(a))) == axis_low2(axis_down(axis_down(b))),
    ensures
        a == b,
{
    lemma_axis_roundtrip(axis_down(axis_down(a)));
    lemma_axis_roundtrip(axis_down(axis_down(b)));
    lemma_axis_roundtrip(axis_down(a));
    lemma_axis_roundtrip(axis_down(b));
    lemma_axis_roundtrip(a);
    lemma_axis_roundtrip(b);
}

/// A well-formed position is pinned by its arena key and its three
/// tree indices: no two positions share all four.
pub proof fn lemma_decomposition_injective(p: BlockPos, q: BlockPos)
    requires
        p.wf(),
        q.wf(),
        sector_key(p) == sector_key(q),
        p.parent().parent().tree_index() == q.parent().parent().tree_index(),
        p.parent().tree_index() == q.parent().tree_index(),
        p.tree_index() == q.tree_index(),
    ensures
        p == q,
{
    crate::pos::lemma_tree_index_decomposition(p);
    crate::pos::lemma_tree_index_decomposition(q);
    crate::pos::lemma_tree_index_decomposition(p.parent());
    crate::pos::lemma_tree_index_decomposition(q.parent());
    crate::pos::lemma_tree_index_decomposition(p.parent().parent());
    crate::pos::lemma_tree_index_decomposition(q.parent().parent());
    lemma_axis3_injective(p.x, q.x);
    lemma_axis3_injective(p.y, q.y);
    lemma_axis3_injective(p.z, q.z);
}

/// Writes one block identifier inside a sector, materialising the cell
/// on the way; every other (chunk, cell, slot) triple keeps its block.
fn write_in_sector(sec: &mut Sector, chi: u8, ci: u8, slot: u8, id: u8)
    requires
        old(sec).wf(),
        chi < 64,
        ci < 64,
        slot < 64,
    ensures
        final(sec).wf(),
        final(sec).block_at(chi as int, ci as int, slot as int) == id,
        forall|chi2: int, ci2: int, s2: int|
            0 <= chi2 < 64 && 0 <= ci2 < 64 && 0 <= s2 < 64 && (chi2, ci2, s2) != (
            chi as int,
            ci as int,
            slot as int,
            ) ==> #[trigger] final(sec).block_at(chi2, ci2, s2) == old(sec).block_at(
                chi2,
                ci2,
                s2,
            ),
{
    let chunk = sec.get_mut(chi);
    let cell = chunk.get_or_create_child(ci);
    cell.set(slot, id);
}

/// After a write of `id` at position `p`, the store reads back `id` at
/// `p`, whatever was written before; every other well-formed position
/// reads what it read before the write.
pub proof fn lemma_write_read_identity(pre: World, post: World, p: BlockPos, id: u8)
    requires
        p.wf(),
        write_step(pre, post, p, id),
    ensures
        post.block_at_pos(p) == id,
        forall|q: BlockPos|
            q.wf() && q != p ==> #[trigger] post.block_at_pos(q) == pre.block_at_pos(q),
{
}

/// The frame of the in-sector write: after replacing one cell slot,
/// position `p` reads the new identifier and every other well-formed
/// position reads as before.
proof fn lemma_write_frame(mid: World, post: World, p: BlockPos, id: u8, chi: u8, ci: u8, slot: u8)
    requires
        mid.wf(),
        post.wf(),
        p.wf(),
        chi == p.parent().parent().tree_index(),
        ci == p.parent().tree_index(),
        slot == p.tree_index(),
        chi < 64,
        ci < 64,
        slot < 64,
        mid.index_map().contains_key(sector_key(p)),
        post.entries() == mid.entries(),
        post.rev_keys() == mid.rev_keys(),
        post.free_list() == mid.free_list(),
        mid.slots()[mid.index_map()[sector_key(p)] as int] is Some,
        post.slots() == mid.slots().update(
            mid.index_map()[sector_key(p)] as int,
            post.slots()[mid.index_map()[sector_key(p)] as int],
        ),
        post.slots()[mid.index_map()[sector_key(p)] as int] is Some,
        ({
            let sec0 = mid.slots()[mid.index_map()[sector_key(p)] as int]->Some_0;
            let sec1 = post.slots()[mid.index_map()[sector_key(p)] as int]->Some_0;
            &&& sec1.block_at(chi as int, ci as int, slot as int) == id
            &&& forall|chi2: int, ci2: int, s2: int|
                0 <= chi2 < 64 && 0 <= ci2 < 64 && 0 <= s2 < 64 && (chi2, ci2, s2) != (
                chi as int,
                ci as int,
                slot as int,
                ) ==> #[trigger] sec1.block_at(chi2, ci2, s2) == sec0.block_at(chi2, ci2, s2)
        }),
    ensures
        write_step(mid, post, p, id),
{
    let key = sector_key(p);
    let i = mid.index_map()[key] as int;
    assert(post.index_map() == mid.index_map());
    assert(post.block_at_pos(p) == id);
    assert forall|q: BlockPos| q.wf() && q != p implies #[trigger] post.block_at_pos(q)
        == mid.block_at_pos(q) by {
        let k = sector_key(q);
        if mid.index_map().contains_key(k) {
            if k == key {
                let chi2 = q.parent().parent().tree_index() as int;
                let ci2 = q.parent().tree_index() as int;
                let s2 = q.tree_index() as int;
                crate::pos::lemma_tree_index_decomposition(q);
                crate::pos::lemma_tree_index_decomposition(q.parent());
                crate::pos::lemma_tree_index_decomposition(q.parent().parent());
                if (chi2, ci2, s2) == (chi as int, ci as int, slot as int) {
                    lemma_decomposition_injective(p, q);
                    assert(false);
                }
            } else {
                mid.lemma_mapped_slot_live(k);
                mid.lemma_mapped_slot_live(key);
                assert(mid.index_map()[k] != mid.index_map()[key]);
                assert(post.slots()[mid.index_map()[k] as int] == mid.slots()[mid.index_map()[k]
                    as int]);
            }
        }
    }
}

} // verus!
