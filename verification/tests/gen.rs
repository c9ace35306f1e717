use voxtech::chunkgen::{Cell, Chunk, World};
use voxtech::dimension::{BlkIDLo, CellBlkIDLo};
use voxtech::grid::BlockPos;
use voxtech::pos;

fn height_field(p: BlockPos) -> u8 {
    if p.get_z() <= 0 {
        1
    } else {
        0
    }
}

#[test]
fn cell_generation_calls_the_generator() {
    // Slot i of a cell based at the origin sits at z == (i >> 4) & 3,
    // so the generator marks exactly the slots with a zero z selector.
    let base = BlockPos::new(0, 0, 0);
    let filled = Cell::new(&base, &height_field);
    assert_eq!(filled.get(0), 1);
    assert_eq!(filled.get(15), 1);
    assert_eq!(filled.get(16), 0);
    assert_eq!(filled.get(63), 0);
    let empty = Cell::empty_cell();
    assert_eq!(empty.get(0), 0);
    assert_eq!(empty.get(63), 0);
}

#[test]
fn chunk_generation_builds_cells() {
    // A chunk based at z == 0 spans z in [0, 64): cell 0 starts at
    // z == 0 and holds ground, cell 48 starts at z == 12 and is air.
    let base = BlockPos::new(2, -1, 0);
    let chunk = Chunk::new(&base, &height_field);
    let low_cell = chunk.get_cell(0).unwrap();
    assert_eq!(low_cell.get(0), 1);
    let high_cell = chunk.get_cell(48).unwrap();
    assert_eq!(high_cell.get(0), 0);
    let hollow = Chunk::empty_chunk();
    assert!(hollow.get_cell(0).is_none());
}

#[test]
fn spawn_chunk_binds_position() {
    let mut w = World::new();
    let at = BlockPos::new(1, 2, 3);
    let elsewhere = BlockPos::new(1, 2, 4);
    assert!(w.get_chunk(&at).is_none());
    w.spawn_chunk(at, Chunk::empty_chunk);
    assert!(w.get_chunk(&at).is_some());
    assert!(w.get_chunk(&elsewhere).is_none());
}

#[test]
fn spawn_chunk_replaces_existing_binding() {
    let mut w = World::new();
    let at = BlockPos::new(0, 0, 0);
    w.spawn_chunk(at, Chunk::empty_chunk);
    let base = at;
    w.spawn_chunk(at, move || Chunk::new(&base, &height_field));
    assert!(w.get_chunk(&at).is_some());
}

#[test]
fn dimension_cell_slots() {
    let mut c = CellBlkIDLo::default();
    let p = pos::BlockPos::new([5, 2, 7]);
    assert_eq!(c.get(&p), Some(&BlkIDLo(0)));
    {
        let slot = c.get_mut(&p).unwrap();
        *slot = BlkIDLo(9);
    }
    assert_eq!(c.get(&p), Some(&BlkIDLo(9)));
    let q = pos::BlockPos::new([4, 2, 7]);
    assert_eq!(c.get(&q), Some(&BlkIDLo(0)));
}
