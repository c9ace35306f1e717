//! Player movement key state.
//!
//! The flags record which movement and rotation keys are held; the event
//! loop that feeds them from window input lives outside the library.

use vstd::prelude::*;

verus! {

/// The set of held movement and rotation keys.
#[derive(Debug, Clone, Copy, PartialEq, Eq)]
pub struct UserMoveControl {
    pub l: bool,
    pub r: bool,
    pub fw: bool,
    pub bw: bool,
    pub up: bool,
    pub dn: bool,
    pub rot_l: bool,
    pub rot_r: bool,
    pub rot_dn: bool,
    pub rot_up: bool,
}

impl UserMoveControl {
    /// The state with no key held.
    pub fn new() -> (r: Self)
        ensures
            r == (UserMoveControl {
                l: false,
                r: false,
                fw: false,
                bw: false,
                up: false,
                dn: false,
                rot_l: false,
                rot_r: false,
                rot_dn: false,
                rot_up: false,
            }),
    {
        Self {
            l: false,
            r: false,
            fw: false,
            bw: false,
            up: false,
            dn: false,
            rot_l: false,
            rot_r: false,
            rot_dn: false,
            rot_up: false,
        }
    }
}

} // verus!
