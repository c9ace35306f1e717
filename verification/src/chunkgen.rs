//! Chunk generation: filling cells and chunks from a per-position
//! generator function, and binding generated chunks to their positions.
//!
//! The generator is any function from a block position to a block
//! identifier; the containers record, slot by slot, that each stored
//! identifier is one the generator allows for that slot's position.

use vstd::prelude::*;

use crate::grid::{grid_merge, BlockPos};

verus! {

/// The position of slot `i` of a container based at `base`: the packed
/// selector triple of `i`, merged in below `base`.
pub open spec fn slot_pos(base: BlockPos, i: int) -> BlockPos {
    grid_merge(
        base,
        BlockPos {
            x: crate::codec::sel_x(i as u8) as i64,
            y: crate::codec::sel_y(i as u8) as i64,
            z: crate::codec::sel_z(i as u8) as i64,
        },
    )
}

/// A leaf cell of generated block identifiers.
#[derive(Debug, Clone, PartialEq, Eq, Hash)]
pub struct Cell {
    blocks: Vec<u8>,
}

impl View for Cell {
    type V = Seq<u8>;

    /// The stored identifiers, slot by slot.
    closed spec fn view(&self) -> Seq<u8> {
        self.blocks@
    }
}

impl Cell {
    /// Well formed: exactly 64 block slots.
    pub open spec fn wf(&self) -> bool {
        self@.len() == 64
    }

    /// A cell of 64 empty blocks.
    pub fn empty_cell() -> (r: Self)
        ensures
            r.wf(),
            forall|i: int| 0 <= i < 64 ==> (#[trigger] r@[i]) == 0u8,
    {
        let mut blocks: Vec<u8> = Vec::new();
        let mut i: usize = 0;
        while i < 64
            invariant
                i <= 64,
                blocks@.len() == i,
                forall|j: int| 0 <= j < i ==> (#[trigger] blocks@[j]) == 0u8,
            decreases 64 - i,
        {
            blocks.push(0);
            i = i + 1;
        }
        Self { blocks }
    }

    /// The stored identifier of one slot.
    pub fn get(&self, i: u8) -> (r: u8)
        requires
            self.wf(),
            i < 64,
        ensures
            r == self@[i as int],
    {
        self.blocks[i as usize]
    }

    /// Fills a cell at `cell_pos` by asking `f` for every slot's block.
    pub fn new<F: Fn(BlockPos) -> u8>(cell_pos: &BlockPos, f: &F) -> (r: Self)
        requires
            forall|i: int| 0 <= i < 64 ==> call_requires(*f, (slot_pos(*cell_pos, i),)),
        ensures
            r.wf(),
            forall|i: int|
                0 <= i < 64 ==> call_ensures(*f, (slot_pos(*cell_pos, i),), #[trigger] r@[i]),
    {
        let mut blocks: Vec<u8> = Vec::new();
        let mut i: usize = 0;
        while i < 64
            invariant
                i <= 64,
                blocks@.len() == i,
                forall|t: int| 0 <= t < 64 ==> call_requires(*f, (slot_pos(*cell_pos, t),)),
                forall|t: int|
                    0 <= t < i ==> call_ensures(*f, (slot_pos(*cell_pos, t),), #[trigger] blocks@[t]),
            decreases 64 - i,
        {
            let inner = BlockPos::from_64index(i as u8);
            let pos = cell_pos.merge_inner(inner);
            proof {
                assert(pos == slot_pos(*cell_pos, i as int));
            }
            blocks.push(f(pos));
            i = i + 1;
        }
        Self { blocks }
    }
}

/// A chunk: 64 cells, allocated together on demand.
#[derive(Debug, Clone, PartialEq, Eq, Hash)]
pub struct Chunk {
    cell: Option<Vec<Cell>>,
}

impl Chunk {
    /// The cell store, for specification purposes.
    pub closed spec fn cells(&self) -> Option<Seq<Cell>> {
        match self.cell {
            Some(v) => Some(v@),
            None => None,
        }
    }

    /// Well formed: the store, when allocated, holds 64 well-formed
    /// cells.
    pub open spec fn wf(&self) -> bool {
        self.cells() matches Some(cs) ==> cs.len() == 64 && forall|j: int|
            0 <= j < 64 ==> (#[trigger] cs[j]).wf()
    }

    /// A fully empty chunk that owns no cell storage.
    pub fn empty_chunk() -> (r: Self)
        ensures
            r.wf(),
            r.cells() is None,
    {
        Self { cell: None }
    }

    /// The cell in slot `j`, where the store is allocated.
    pub fn get_cell(&self, j: u8) -> (r: Option<&Cell>)
        requires
            self.wf(),
            j < 64,
        ensures
            match r {
                Some(c) => self.cells() is Some && *c == self.cells()->Some_0[j as int],
                None => self.cells() is None,
            },
    {
        match &self.cell {
            Some(cells) => Some(&cells[j as usize]),
            None => None,
        }
    }

    /// Fills a chunk at `chunk_pos` by asking `f` for every block of
    /// every cell.
    pub fn new<F: Fn(BlockPos) -> u8>(chunk_pos: &BlockPos, f: &F) -> (r: Self)
        requires
            forall|p: BlockPos| call_requires(*f, (p,)),
        ensures
            r.wf(),
            r.cells() is Some,
            r.cells()->Some_0.len() == 64,
            forall|j: int, i: int|
                0 <= j < 64 && 0 <= i < 64 ==> call_ensures(
                    *f,
                    (slot_pos(slot_pos(*chunk_pos, j), i),),
                    #[trigger] r.cells()->Some_0[j]@[i],
                ),
    {
        let mut cells: Vec<Cell> = Vec::new();
        let mut j: usize = 0;
        while j < 64
            invariant
                j <= 64,
                cells@.len() == j,
                forall|p: BlockPos| call_requires(*f, (p,)),
                forall|t: int| 0 <= t < j ==> (#[trigger] cells@[t]).wf(),
                forall|t: int, i: int|
                    0 <= t < j && 0 <= i < 64 ==> call_ensures(
                        *f,
                        (slot_pos(slot_pos(*chunk_pos, t), i),),
                        #[trigger] cells@[t]@[i],
                    ),
            decreases 64 - j,
        {
            let inner = BlockPos::from_64index(j as u8);
            let pos = chunk_pos.merge_inner(inner);
            proof {
                assert(pos == slot_pos(*chunk_pos, j as int));
            }
            cells.push(Cell::new(&pos, f));
            j = j + 1;
        }
        Self { cell: Some(cells) }
    }
}

/// A chunk's contents as plain data: `None` for an unallocated store,
/// otherwise the identifier bytes of each cell.
pub open spec fn chunk_data(c: Chunk) -> Option<Seq<Seq<u8>>> {
    match c.cells() {
        Some(cs) => Some(Seq::new(cs.len(), |j: int| cs[j]@)),
        None => None,
    }
}

/// The chunk table of a world, keyed by chunk position.  The table
/// itself lives in an outside hash map and is opaque here; its contents
/// are named by [`chunk_map_entries`].
#[verifier::external_body]
pub struct ChunkMap {
    map: hashbrown::HashMap<BlockPos, Chunk>,
}

/// What the chunk table holds: each bound position's chunk contents,
/// keyed by the position's three axes.
pub uninterp spec fn chunk_map_entries(m: ChunkMap) -> Map<(int, int, int), Option<Seq<Seq<u8>>>>;

/// The contents of a table with nothing in it.
pub open spec fn no_chunks() -> Map<(int, int, int), Option<Seq<Seq<u8>>>> {
    Map::empty()
}

impl ChunkMap {
    /// The named contents of this table.
    pub open spec fn entries(&self) -> Map<(int, int, int), Option<Seq<Seq<u8>>>> {
        chunk_map_entries(*self)
    }

    /// Relies on hashbrown's HashMap::new: a new map has no entry.
    #[verifier::external_body]
    fn new() -> (res: ChunkMap)
        ensures
            chunk_map_entries(res) == no_chunks(),
    {
        ChunkMap { map: hashbrown::HashMap::new() }
    }

    /// Relies on hashbrown's HashMap::insert: after the call the key is
    /// bound to the new value and every other key is unchanged.
    #[verifier::external_body]
    fn insert(&mut self, pos: BlockPos, chunk: Chunk)
        ensures
            chunk_map_entries(*final(self)) == chunk_map_entries(*old(self)).insert(
                (pos.x as int, pos.y as int, pos.z as int),
                chunk_data(chunk),
            ),
    {
        self.map.insert(pos, chunk);
    }

    /// Relies on hashbrown's HashMap::get: the value bound to the key,
    /// or `None` where the key is unbound.
    #[verifier::external_body]
    fn get(&self, pos: &BlockPos) -> (r: Option<&Chunk>)
        ensures
            match r {
                Some(c) => chunk_map_entries(*self).contains_key(
                    (pos.x as int, pos.y as int, pos.z as int),
                ) && chunk_map_entries(*self)[(pos.x as int, pos.y as int, pos.z as int)]
                    == chunk_data(*c),
                None => !chunk_map_entries(*self).contains_key(
                    (pos.x as int, pos.y as int, pos.z as int),
                ),
            },
    {
        self.map.get(pos)
    }
}

/// The binder for space instances: chunks generated so far, keyed by
/// their positions.
pub struct World {
    map: ChunkMap,
}

impl World {
    /// The bound chunk contents, keyed by position axes.
    pub closed spec fn chunks(&self) -> Map<(int, int, int), Option<Seq<Seq<u8>>>> {
        self.map.entries()
    }

    /// A world with no chunk bound.
    pub fn new() -> (r: Self)
        ensures
            r.chunks() == no_chunks(),
    {
        Self { map: ChunkMap::new() }
    }

    /// Binds the chunk that `f` builds to `chunk_pos`, replacing any
    /// chunk bound there before.
    pub fn spawn_chunk<F: FnOnce() -> Chunk>(&mut self, chunk_pos: BlockPos, f: F)
        requires
            call_requires(f, ()),
        ensures
            exists|c: Chunk|
                call_ensures(f, (), c) && final(self).chunks() == old(self).chunks().insert(
                    (chunk_pos.x as int, chunk_pos.y as int, chunk_pos.z as int),
                    chunk_data(c),
                ),
    {
        let c = f();
        let ghost c0 = c;
        self.map.insert(chunk_pos, c);
        proof {
            assert(call_ensures(f, (), c0) && self.chunks() == old(self).chunks().insert(
                (chunk_pos.x as int, chunk_pos.y as int, chunk_pos.z as int),
                chunk_data(c0),
            ));
        }
    }

    /// The chunk bound to `chunk_pos`, if any.
    pub fn get_chunk(&self, chunk_pos: &BlockPos) -> (r: Option<&Chunk>)
        ensures
            match r {
                Some(c) => self.chunks().contains_key(
                    (chunk_pos.x as int, chunk_pos.y as int, chunk_pos.z as int),
                ) && self.chunks()[(chunk_pos.x as int, chunk_pos.y as int, chunk_pos.z as int)]
                    == chunk_data(*c),
                None => !self.chunks().contains_key(
                    (chunk_pos.x as int, chunk_pos.y as int, chunk_pos.z as int),
                ),
            },
    {
        self.map.get(chunk_pos)
    }
}

} // verus!
