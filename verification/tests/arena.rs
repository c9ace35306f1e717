use voxtech::block_server::{Sector, SectorPos, World};

fn marked_sector(slot: u8, id: u8) -> Sector {
    let mut s = Sector::default();
    let cell = s.get_mut(0).get_or_create_child(0);
    cell.set(slot, id);
    s
}

fn mark_of(s: &Sector) -> Option<u8> {
    let cell = s.get(0).get_child(0)?;
    for i in 0..64 {
        if cell.get(i) != 0 {
            return Some(cell.get(i));
        }
    }
    None
}

#[test]
fn insert_then_lookup() {
    let mut w = World::new();
    let k = SectorPos::new(1, -2, 3);
    assert!(w.idx_get(&k).is_none());
    assert!(w.get_by_key(&k).is_none());
    w.insert(k, marked_sector(4, 44));
    let idx = w.idx_get(&k).unwrap();
    assert_eq!(mark_of(w.get(idx).unwrap()), Some(44));
    assert_eq!(mark_of(w.get_by_key(&k).unwrap()), Some(44));
}

#[test]
fn insert_existing_key_replaces_in_place() {
    let mut w = World::new();
    let k = SectorPos::new(0, 0, 0);
    w.insert(k, marked_sector(1, 11));
    let idx = w.idx_get(&k).unwrap();
    w.insert(k, marked_sector(2, 22));
    assert_eq!(w.idx_get(&k).unwrap(), idx);
    assert_eq!(mark_of(w.get(idx).unwrap()), Some(22));
}

#[test]
fn remove_returns_sector_and_vacates_slot() {
    let mut w = World::new();
    let k = SectorPos::new(9, 9, 9);
    w.insert(k, marked_sector(3, 33));
    let idx = w.idx_get(&k).unwrap();
    let taken = w.remove(k).unwrap();
    assert_eq!(mark_of(&taken), Some(33));
    assert!(w.get(idx).is_none());
    assert!(w.get_by_key(&k).is_none());
    assert!(w.remove(k).is_none());
}

#[test]
fn slot_reuse_after_removal() {
    // Insert A, remove A, insert B: B lands in A's slot, A resolves to
    // nothing, B resolves to the new sector.
    let mut w = World::new();
    let a = SectorPos::new(1, 0, 0);
    let b = SectorPos::new(2, 0, 0);
    w.insert(a, marked_sector(1, 11));
    let slot_a = w.idx_get(&a).unwrap();
    w.remove(a);
    w.insert(b, marked_sector(2, 22));
    let slot_b = w.idx_get(&b).unwrap();
    assert_eq!(slot_b, slot_a);
    assert!(w.get_by_key(&a).is_none());
    assert_eq!(mark_of(w.get_by_key(&b).unwrap()), Some(22));
}

#[test]
fn removal_leaves_other_slots_stable() {
    let mut w = World::new();
    let a = SectorPos::new(1, 0, 0);
    let c = SectorPos::new(0, 0, 7);
    w.insert(a, marked_sector(1, 11));
    w.insert(c, marked_sector(2, 22));
    let slot_c = w.idx_get(&c).unwrap();
    w.remove(a);
    assert_eq!(w.idx_get(&c).unwrap(), slot_c);
    assert_eq!(mark_of(w.get(slot_c).unwrap()), Some(22));
}

#[test]
fn remove_idx_unbinds_by_slot() {
    let mut w = World::new();
    let k = SectorPos::new(5, 5, 5);
    w.insert(k, marked_sector(6, 66));
    let idx = w.idx_get(&k).unwrap();
    let (pos, sec) = w.remove_idx(idx).unwrap();
    assert_eq!(pos, k);
    assert_eq!(mark_of(&sec), Some(66));
    assert!(w.get_by_key(&k).is_none());
    assert!(w.remove_idx(idx).is_none());
}

#[test]
fn get_is_total() {
    let w = World::new();
    assert!(w.get(0).is_none());
    assert!(w.get(1000).is_none());
}

#[test]
fn get_mut_reaches_live_slot() {
    let mut w = World::new();
    let k = SectorPos::new(0, 1, 0);
    w.insert(k, Sector::default());
    let idx = w.idx_get(&k).unwrap();
    {
        let sec = w.get_mut(idx).unwrap();
        sec.get_mut(2).get_or_create_child(3).set(4, 9);
    }
    assert_eq!(w.get(idx).unwrap().get(2).get_child(3).unwrap().get(4), 9);
    assert!(w.get_mut(idx + 1).is_none());
    {
        let sec = w.get_by_key_mut(&k).unwrap();
        sec.get_mut(2).get_or_create_child(3).set(4, 10);
    }
    assert_eq!(w.get_by_key(&k).unwrap().get(2).get_child(3).unwrap().get(4), 10);
}

#[test]
fn iter_skips_vacated_slots() {
    let mut w = World::new();
    let a = SectorPos::new(1, 0, 0);
    let b = SectorPos::new(2, 0, 0);
    let c = SectorPos::new(3, 0, 0);
    w.insert(a, marked_sector(1, 11));
    w.insert(b, marked_sector(2, 22));
    w.insert(c, marked_sector(3, 33));
    w.remove(b);
    let live = w.iter();
    assert_eq!(live.len(), 2);
    assert_eq!(mark_of(live[0]), Some(11));
    assert_eq!(mark_of(live[1]), Some(33));
}
