//! What the hardware has to offer. These traits ask for nothing and promise
//! nothing about the hardware: whoever binds the drivers to a board
//! implements them, and [`crate::spi::DisplaySpi`] passes the drivers'
//! requests on to them, one event of its record for each.

use crate::spi::AsBytes;
use embedded_hal::spi::Mode;
use vstd::prelude::*;

verus! {

/// A serial bus peripheral with a DMA channel.
pub trait Spi {
    type Error;

    type DmaBuffer: AsBytes;

    /// Sets clock speed in MHz and signal mode.
    fn configure(&mut self, mhz: u32, mode: Mode) -> Result<(), Self::Error>;

    /// Blocking full-duplex exchange in place. The one clause holds of
    /// every function with this signature: a slice behind `&mut` keeps its
    /// length.
    fn transfer(&mut self, buffer: &mut [u8]) -> (r: Result<(), Self::Error>)
        ensures
            final(buffer)@.len() == old(buffer)@.len(),
    ;

    /// Blocking write.
    fn write(&mut self, buffer: &[u8]) -> Result<(), Self::Error>;

    /// Starts a background write of the buffer.
    fn dma_write(&mut self, buffer: Self::DmaBuffer) -> Result<(), Self::Error>;

    /// Waits until the background write is through.
    fn dma_wait(&mut self) -> Result<(), Self::Error>;

    /// Burns at least so many core cycles.
    fn delay(&mut self, cycles: u32);
}

/// A push-pull output.
pub trait OutputPin {
    fn set_low(&mut self);

    fn set_high(&mut self);
}

/// A digital input.
pub trait InputPin {
    fn is_high(&self) -> bool;

    fn is_low(&self) -> bool;

    /// Blocks until the input reads low.
    fn wait_for_low(&mut self);
}

/// A blocking delay.
pub trait DelayMs {
    fn delay_ms(&mut self, ms: u16);
}

} // verus!
