use voxtech::block::{Block, BlockHiID, BlockLoID, BlockSysTag, BlockType, BlockUserTag};
use voxtech::control::UserMoveControl;
use voxtech::tile::TileFace;

#[test]
fn tile_face_decodes_numbers() {
    assert_eq!(TileFace::from(0u8), TileFace::WST);
    assert_eq!(TileFace::from(1u8), TileFace::EST);
    assert_eq!(TileFace::from(2u8), TileFace::STH);
    assert_eq!(TileFace::from(3u8), TileFace::NTH);
    assert_eq!(TileFace::from(4u8), TileFace::BTM);
    assert_eq!(TileFace::from(5u8), TileFace::TOP);
    assert_eq!(TileFace::from(6u8), TileFace::UNDEF);
    assert_eq!(TileFace::from(255u8), TileFace::UNDEF);
}

#[test]
fn move_control_starts_released() {
    let c = UserMoveControl::new();
    assert!(!c.l && !c.r && !c.fw && !c.bw && !c.up && !c.dn);
    assert!(!c.rot_l && !c.rot_r && !c.rot_dn && !c.rot_up);
}

#[test]
fn block_model_values() {
    let b = Block { id: 128, gen_tag: None, sys_tag: 3, user_tag: Some(9) };
    assert_eq!(b.id, 128);
    assert_eq!(b.user_tag, Some(9));
    assert_eq!(BlockLoID(7).0, 7);
    assert_eq!(BlockHiID(1).0, 1);
    assert_eq!(BlockSysTag(2).0, 2);
    assert_eq!(BlockUserTag(3).0, 3);
    assert_ne!(BlockType::Air, BlockType::GenericBlock);
    assert_ne!(BlockType::GenericBlock, BlockType::NormalBlock);
}
