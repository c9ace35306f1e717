use voxtech::block_server::{CellBlkIDLo, CellInfo, Chunk, Sector};

#[test]
fn cell_defaults_empty() {
    let c = CellBlkIDLo::default();
    for i in 0..64 {
        assert_eq!(c.get(i), 0);
    }
    assert_eq!(c.occupancy(), 0);
    assert_eq!(c.block_count(), 0);
    assert_eq!(c.sum_block(), 0);
}

#[test]
fn cell_set_get_roundtrip() {
    let mut c = CellBlkIDLo::default();
    c.set(5, 7);
    c.set(63, 200);
    c.set(0, 1);
    assert_eq!(c.get(5), 7);
    assert_eq!(c.get(63), 200);
    assert_eq!(c.get(0), 1);
    assert_eq!(c.get(1), 0);
}

#[test]
fn cell_occupancy_tracks_writes() {
    let mut c = CellBlkIDLo::default();
    c.set(5, 7);
    assert_eq!(c.occupancy(), 1u64 << 5);
    c.set(9, 1);
    assert_eq!(c.occupancy(), (1u64 << 5) | (1u64 << 9));
    c.set(5, 0);
    assert_eq!(c.occupancy(), 1u64 << 9);
}

#[test]
fn cell_occupancy_consistency() {
    // The population count of the mask always equals the number of
    // occupied slots, and each bit mirrors one slot.
    let mut c = CellBlkIDLo::default();
    let writes: [(u8, u8); 6] = [(3, 9), (17, 1), (3, 0), (60, 255), (60, 4), (2, 2)];
    for (slot, id) in writes {
        c.set(slot, id);
    }
    assert_eq!(c.occupancy().count_ones() as u8, c.block_count());
    assert_eq!(c.block_count() as usize, c.sum_block());
    for i in 0..64 {
        assert_eq!((c.occupancy() >> i) & 1 == 1, c.get(i) != 0);
    }
}

#[test]
fn cell_iter_lists_slots() {
    let mut c = CellBlkIDLo::default();
    c.set(1, 11);
    c.set(2, 22);
    let v = c.iter();
    assert_eq!(v.len(), 64);
    assert_eq!(v[1], 11);
    assert_eq!(v[2], 22);
    assert_eq!(v[3], 0);
    let owned = c.into_iter();
    assert_eq!(owned[1], 11);
}

#[test]
fn cell_info_counts_bits() {
    let info = CellInfo { occupancy: 0b1011 };
    assert_eq!(info.calc_blocks(), 3);
    assert_eq!(CellInfo::default().calc_blocks(), 0);
    assert_eq!(CellInfo { occupancy: u64::MAX }.calc_blocks(), 64);
}

#[test]
fn chunk_lazy_children() {
    let mut ch = Chunk::empty();
    assert!(ch.is_empty());
    assert!(ch.get_child(12).is_none());
    {
        let cell = ch.get_or_create_child(12);
        assert_eq!(cell.get(3), 0);
        cell.set(3, 9);
    }
    assert!(ch.get_child(12).is_some());
    assert!(ch.get_child(13).is_none());
    assert_eq!(ch.get_child(12).unwrap().get(3), 9);
    assert!(!ch.is_empty());
    {
        let cell = ch.get_or_create_child(12);
        cell.set(3, 0);
    }
    // A materialised but fully cleared cell still reads as empty.
    assert!(ch.is_empty());
    assert!(ch.get_child(12).is_some());
}

#[test]
fn sector_wraps_indices() {
    let mut s = Sector::default();
    assert!(s.is_empty());
    {
        let ch = s.get_mut(6);
        let cell = ch.get_or_create_child(0);
        cell.set(0, 5);
    }
    assert!(!s.is_empty());
    // Indices wrap modulo 64, so 70 addresses chunk 6.
    assert!(!s.get(70).is_empty());
    assert!(s.get(7).is_empty());
    let chunks = s.iter();
    assert_eq!(chunks.len(), 64);
    assert!(!chunks[6].is_empty());
    assert!(chunks[5].is_empty());
}
