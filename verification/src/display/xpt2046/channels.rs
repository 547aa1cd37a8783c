//! Input multiplexer addresses of the touch controller.

use vstd::prelude::*;

verus! {

pub const TEMP0: u8 = 0b000;

pub const Y: u8 = 0b001;

pub const V_BAT: u8 = 0b010;

pub const Z1: u8 = 0b011;

pub const Z2: u8 = 0b100;

pub const X: u8 = 0b101;

pub const AUX_IN: u8 = 0b110;

pub const TEMP1: u8 = 0b111;

} // verus!
