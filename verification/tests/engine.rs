use voxtech::block_server::{SectorPos, World};
use voxtech::pos::BlockPos;

#[test]
fn fresh_world_reads_empty() {
    let w = World::new();
    assert_eq!(w.read_block(BlockPos::new([1000, -5, 64])), 0);
    assert_eq!(w.read_block(BlockPos::new([0, 0, 0])), 0);
    assert_eq!(w.read_block(BlockPos::new([-1, -1, -1])), 0);
}

#[test]
fn write_then_read_scenario() {
    // Block id 7 at (1000, -5, 64): the position decomposes into one
    // sector key and three 6-bit indices, reads back exactly, and the
    // neighbour stays empty.
    let p = BlockPos::new([1000, -5, 64]);
    let slot = p.as_64tree_index();
    let p1 = p.down_level();
    let ci = p1.as_64tree_index();
    let p2 = p1.down_level();
    let chi = p2.as_64tree_index();
    let p3 = p2.down_level();
    assert!(slot < 64 && ci < 64 && chi < 64);
    assert_eq!(slot, 12);
    assert_eq!(ci, 10);
    assert_eq!(chi, 14);
    assert_eq!((p3.x(), p3.y(), p3.z()), (15, -1, 1));

    let mut w = World::new();
    w.write_block(p, 7);
    let key = SectorPos::new(p3.x(), p3.y(), p3.z());
    assert!(w.idx_get(&key).is_some());
    assert_eq!(w.read_block(p), 7);
    assert_eq!(w.read_block(BlockPos::new([1000, -5, 65])), 0);
}

#[test]
fn writes_do_not_disturb_other_positions() {
    let mut w = World::new();
    let a = BlockPos::new([0, 0, 0]);
    let b = BlockPos::new([1, 0, 0]);
    let c = BlockPos::new([-1, 0, 0]);
    let far = BlockPos::new([100000, -200000, 300000]);
    w.write_block(a, 1);
    w.write_block(b, 2);
    w.write_block(c, 3);
    w.write_block(far, 4);
    assert_eq!(w.read_block(a), 1);
    assert_eq!(w.read_block(b), 2);
    assert_eq!(w.read_block(c), 3);
    assert_eq!(w.read_block(far), 4);
}

#[test]
fn overwrite_and_clear() {
    let mut w = World::new();
    let p = BlockPos::new([5, 6, 7]);
    w.write_block(p, 9);
    assert_eq!(w.read_block(p), 9);
    w.write_block(p, 200);
    assert_eq!(w.read_block(p), 200);
    w.write_block(p, 0);
    assert_eq!(w.read_block(p), 0);
}

#[test]
fn removing_the_sector_clears_reads() {
    let mut w = World::new();
    let p = BlockPos::new([1000, -5, 64]);
    w.write_block(p, 7);
    let p3 = p.down_level().down_level().down_level();
    let key = SectorPos::new(p3.x(), p3.y(), p3.z());
    assert!(w.remove(key).is_some());
    assert_eq!(w.read_block(p), 0);
}

#[test]
fn negative_coordinates_round_trip() {
    let mut w = World::new();
    let ps = [
        BlockPos::new([-1, -1, -1]),
        BlockPos::new([-64, 63, -4097]),
        BlockPos::new([-1000000, 7, -3]),
    ];
    for (n, p) in ps.iter().enumerate() {
        w.write_block(*p, (n + 1) as u8);
    }
    for (n, p) in ps.iter().enumerate() {
        assert_eq!(w.read_block(*p), (n + 1) as u8);
    }
}
