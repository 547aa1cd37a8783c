//! The touch controller's control byte.

use vstd::prelude::*;
use vstd::std_specs::convert::FromSpecImpl;

verus! {

/// One conversion request.
#[derive(Debug, Clone, Copy)]
pub struct Command {
    /// 0…7
    pub channel: u8,
    /// 12 bits (false), 8 bits (true)
    pub mode: bool,
    /// Single-Ended (true), Differential Reference (false)
    pub ser_dfr: bool,
    /// Power reference
    pub pd1: bool,
    /// Power ADC
    pub pd0: bool,
}

/// `1 << shift` where the flag is set, else 0.
pub open spec fn flag(b: bool, shift: u8) -> u8 {
    if b {
        1u8 << shift
    } else {
        0u8
    }
}

impl Command {
    /// The control byte: start bit, channel in bits 6 to 4, then the mode,
    /// reference and the two power flags in bits 3 to 0.
    pub open spec fn byte(&self) -> u8 {
        0x80u8 | (self.channel << 4u8) | flag(self.mode, 3) | flag(self.ser_dfr, 2) | flag(
            self.pd1,
            1,
        ) | flag(self.pd0, 0)
    }
}

fn exec_flag(b: bool, shift: u8) -> (x: u8)
    requires
        shift < 8,
    ensures
        x == flag(b, shift),
{
    let x: u8 = if b {
        1
    } else {
        0
    };
    assert(0u8 << shift == 0u8) by (bit_vector);
    x << shift
}

impl From<Command> for u8 {
    fn from(command: Command) -> (byte: u8) {
        0x80 | (command.channel << 4) | exec_flag(command.mode, 3) | exec_flag(command.ser_dfr, 2)
            | exec_flag(command.pd1, 1) | exec_flag(command.pd0, 0)
    }
}

impl FromSpecImpl<Command> for u8 {
    open spec fn obeys_from_spec() -> bool {
        true
    }

    open spec fn from_spec(command: Command) -> u8 {
        command.byte()
    }
}

} // verus!
