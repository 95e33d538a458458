//! A CHIP-8 virtual machine core: instruction decoding and a verified CPU.

use vstd::prelude::*;

pub mod chip;
pub mod instruction;
pub mod keypad;
pub mod laws;
pub mod machine;

verus! {

/// The audio capability of the host: one operation that makes the beep.
pub trait ChipSound {
    fn make_sound(&self);
}

} // verus!
