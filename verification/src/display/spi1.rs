//! Who may own the bus, and in which state the bus is.

use crate::display::spi_mode0;
use crate::journal::replay;
use crate::spi::SpiDmaWrite;
use embedded_hal::spi::{Mode, Phase, Polarity};
use vstd::prelude::*;

verus! {

/// The devices on the bus.
#[derive(Debug, Clone, Copy, PartialEq, Eq, Structural)]
pub enum Target {
    /// TFT controller
    Tft,
    /// Touch screen
    Ts,
    /// SD card slot
    Sd,
}

impl Target {
    /// Clock-speed ceiling in MHz.
    pub open spec fn spec_mhz(&self) -> u32 {
        match *self {
            Target::Tft => 12,
            Target::Ts => 2,
            Target::Sd => 8,
        }
    }

    /// Signal mode: every target runs in mode 0.
    pub open spec fn spec_mode(&self) -> Mode {
        Mode { polarity: Polarity::IdleLow, phase: Phase::CaptureOnFirstTransition }
    }

    #[verifier::when_used_as_spec(spec_mhz)]
    pub fn mhz(&self) -> (f: u32)
        ensures
            f == self.spec_mhz(),
    {
        match *self {
            Target::Tft => 12,
            Target::Ts => 2,
            Target::Sd => 8,
        }
    }

    #[verifier::when_used_as_spec(spec_mode)]
    pub fn mode(&self) -> (m: Mode)
        ensures
            m == self.spec_mode(),
    {
        spi_mode0()
    }
}

/// The bus and what it is set up for.
pub enum State<B> {
    /// Not configured for any target yet.
    Reset(B),
    /// Configured for a target.
    Ready(Target, B),
    /// The bus is being moved between configurations. No function of this
    /// crate returns with the state left here.
    Invalid,
}

impl<B: SpiDmaWrite> State<B> {
    /// The target the bus is set up for, if any.
    pub open spec fn target(&self) -> Option<Target> {
        match *self {
            State::Ready(t, _) => Some(t),
            _ => None,
        }
    }

    /// The bus held.
    pub open spec fn bus(&self) -> B
        recommends
            !(self is Invalid),
    {
        match *self {
            State::Reset(b) => b,
            State::Ready(_, b) => b,
            State::Invalid => arbitrary(),
        }
    }

    /// The bus is there and in good standing, and set up as the state says.
    pub open spec fn wf(&self) -> bool {
        match *self {
            State::Reset(b) => b.wf(),
            State::Ready(t, b) => b.wf() && replay(b.journal()).config == Some((t.mhz(), t.mode())),
            State::Invalid => false,
        }
    }

    /// The configured bus.
    pub fn mut_spi(&mut self) -> (spi: &mut B)
        requires
            *old(self) is Ready,
        ensures
            *spi == old(self).bus(),
            *final(self) == State::Ready(old(self).target()->0, *final(spi)),
    {
        match self {
            State::Ready(_, spi) => spi,
            _ => vstd::pervasive::unreached(),
        }
    }
}

} // verus!
