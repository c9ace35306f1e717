use voxtech::grid;
use voxtech::pos;
use voxtech::tree64;

#[test]
fn tree64_split_insert_roundtrip() {
    let p = tree64::BlockPos::new(5, -7, 123);
    let (inner, parent) = p.split_innerpos();
    assert!(inner.is_valid());
    assert_eq!(parent.insert_innerpos(inner), p);
}

#[test]
fn tree64_roundtrip_negative_axes() {
    let samples = [
        (0i64, 0i64, 0i64),
        (-1, -1, -1),
        (1000, -5, 64),
        (i64::MAX, i64::MIN, -4),
        (3, -4, 7),
    ];
    for (x, y, z) in samples {
        let p = tree64::BlockPos::new(x, y, z);
        let (inner, parent) = p.split_innerpos();
        assert!(inner.0 < 64);
        assert_eq!(parent.insert_innerpos(inner), p);
    }
}

#[test]
fn tree64_inner_pos_masks() {
    assert_eq!(tree64::Tree64InnerPos::new(63).0, 63);
    assert_eq!(tree64::Tree64InnerPos::new(64).0, 0);
    assert_eq!(tree64::Tree64InnerPos::new(255).0, 63);
    assert!(tree64::Tree64InnerPos::new(255).is_valid());
    assert!(!tree64::Tree64InnerPos::invalid().is_valid());
}

#[test]
fn tree64_level_shifts() {
    let p = tree64::BlockPos::new(3, -4, 7);
    let up = p.level_up(2);
    assert_eq!(*up.x(), 3 << 4);
    assert_eq!(*up.y(), -4 << 4);
    assert_eq!(*up.z(), 7 << 4);
    let down = up.level_down(2);
    assert_eq!(down, p);
}

#[test]
fn tree64_axis_accessors() {
    let mut p = tree64::BlockPos::new(1, 2, 3);
    assert_eq!((*p.x(), *p.y(), *p.z(), *p.w()), (1, 2, 3, 0));
    *p.x_mut() = 10;
    *p.y_mut() = 20;
    *p.z_mut() = 30;
    assert_eq!((*p.x(), *p.y(), *p.z(), *p.w()), (10, 20, 30, 0));
}

#[test]
fn grid_split_merge_roundtrip() {
    let samples = [
        (0i64, 0i64, 0i64),
        (-5, 7, -1),
        (1000, -5, 64),
        (-1, -2, -3),
        (i64::MIN, i64::MAX, 12345),
    ];
    for (x, y, z) in samples {
        let p = grid::BlockPos::new(x, y, z);
        let (to, inner) = p.split_inner();
        assert!((0..4).contains(&inner.get_x()));
        assert!((0..4).contains(&inner.get_y()));
        assert!((0..4).contains(&inner.get_z()));
        assert_eq!(to.merge_inner(inner), p);
    }
}

#[test]
fn grid_index_roundtrip() {
    for i in 0u8..64 {
        let p = grid::BlockPos::from_64index(i);
        assert_eq!(p.as_64index(), i);
    }
}

#[test]
fn grid_index_packs_base4() {
    let p = grid::BlockPos::new(1, 2, 3);
    assert_eq!(p.as_64index(), 1 + 4 * 2 + 16 * 3);
}

#[test]
fn grid_setters_and_levels() {
    let mut p = grid::BlockPos::new(0, 0, 0);
    p.set_x(8);
    p.set_y(-12);
    p.set_z(16);
    assert_eq!((p.get_x(), p.get_y(), p.get_z()), (8, -12, 16));
    let up = p.up_level(1);
    assert_eq!((up.get_x(), up.get_y(), up.get_z()), (32, -48, 64));
    assert_eq!(up.down_level(1), p);
}

#[test]
fn grid_arithmetic() {
    let p = grid::BlockPos::new(5, -3, 2);
    let q = grid::BlockPos::new(1, 1, 1);
    let d = p.sub(q);
    assert_eq!((d.get_x(), d.get_y(), d.get_z()), (4, -4, 1));
    assert_eq!(q.add(d), p);
    let mut e = grid::BlockDist::new(1, 2, 3);
    e.set_x(-1);
    assert_eq!(e.add(grid::BlockDist::new(1, 0, 0)).get_x(), 0);
    assert_eq!(e.sub(grid::BlockDist::new(0, 2, 0)).get_y(), 0);
    assert_eq!(e.up_level(1).get_z(), 12);
    assert_eq!(e.up_level(1).down_level(1).get_z(), 3);
}

#[test]
fn pos_tree_index_range_and_value() {
    let p = pos::BlockPos::new([1000, -5, 64]);
    let i = p.as_64tree_index();
    assert!(i < 64);
    // 1000 & 3 == 0, -5 & 3 == 3, 64 & 3 == 0.
    assert_eq!(i, 0 | (3 << 2) | (0 << 4));
    for (x, y, z) in [(-1i64, -2i64, -3i64), (7, 8, 9), (i64::MIN, 0, i64::MAX)] {
        assert!(pos::BlockPos::new([x, y, z]).as_64tree_index() < 64);
    }
}

#[test]
fn pos_down_level_is_arithmetic_shift() {
    let p = pos::BlockPos::new([-5, 9, -1]);
    let d = p.down_level();
    assert_eq!((d.x(), d.y(), d.z()), (-2, 2, -1));
    let u = pos::BlockPos::new([3, -4, 5]).up_level();
    assert_eq!((u.x(), u.y(), u.z()), (12, -16, 20));
}

#[test]
fn pos_accessors() {
    let mut p = pos::BlockPos::new([1, 2, 3]);
    assert_eq!(p.xyz(), [1, 2, 3]);
    assert_eq!((*p.x_ref(), *p.y_ref(), *p.z_ref()), (1, 2, 3));
    *p.x_mut() = -9;
    assert_eq!(p.x(), -9);
    let d = p.sub(pos::BlockPos::new([0, 0, 0]));
    assert_eq!(d.x(), -9);
    assert_eq!(pos::BlockPos::new([0, 0, 0]).add(d).x(), -9);
}

#[test]
fn pos_dist_is_manhattan() {
    let d = voxtech::pos::BlockDist::new([3, -4, 5]);
    assert_eq!(d.dist(), 12);
    let mut e = voxtech::pos::BlockDist::new([0, 0, 0]);
    *e.x_mut() = -1;
    assert_eq!(e.xyz(), [-1, 0, 0]);
    assert_eq!((*e.x_ref(), e.y(), e.z()), (-1, 0, 0));
    assert_eq!(e.dist(), 1);
}
