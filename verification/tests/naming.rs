use voxtech::dimension::{World, WorldInitError};
use voxtech::sector::Sector;

#[test]
fn generate_name_zero_position() {
    let s = Sector::new([0, 0, 0]);
    assert_eq!(s.generate_name(), "AAAAAAAAAAA=AAAAAAAAAAA=AAAAAAAAAAA");
}

#[test]
fn generate_name_mixed_position() {
    let s = Sector::new([1000, -5, 64]);
    assert_eq!(s.generate_name(), "6AMAAAAAAAA=+/////////8=QAAAAAAAAAA");
}

#[test]
fn generate_name_negative_axis() {
    let s = Sector::new([-1, 7, 0]);
    assert_eq!(s.generate_name(), "//////////8=BwAAAAAAAAA=AAAAAAAAAAA");
    assert_eq!(s.pos, [-1, 7, 0]);
}

#[test]
fn initialize_accepts_plain_names() {
    assert!(World::initialize("New world").is_ok());
    assert!(World::initialize("alpha-beta_7").is_ok());
    assert!(World::initialize("").is_ok());
}

#[test]
fn initialize_accepts_digits_and_spaces() {
    assert!(World::initialize("wereld 12").is_ok());
    assert!(World::initialize("a b c 0 9").is_ok());
}

#[test]
fn initialize_rejects_punctuation() {
    assert!(matches!(World::initialize("bad/name"), Err(WorldInitError::BadWorldName)));
    assert!(matches!(World::initialize("semi;colon"), Err(WorldInitError::BadWorldName)));
    assert!(matches!(World::initialize("dot."), Err(WorldInitError::BadWorldName)));
}

#[test]
fn init_error_message() {
    assert_eq!(WorldInitError::BadWorldName.message(), "Bad world name inputted");
}
