//! The bus as the drivers see it: every request leaves an event in the
//! bus's record, and is made only where the rules of the shared bus allow it.

use crate::hal::{DelayMs, InputPin, OutputPin, Spi};
use crate::journal::{
    law_exclusive, law_one_in_flight, law_release_after_wait, law_setup_deselected, lemma_empty,
    lemma_logged, logged, orderly, replay, Event, Wire,
};
use crate::display::spi1::Target;
use embedded_hal::spi::Mode;
use vstd::prelude::*;

verus! {

/// A buffer that can be handed to the bus as a run of bytes.
pub trait AsBytes {
    /// The bytes the buffer holds.
    spec fn bytes(&self) -> Seq<u8>;

    fn as_bytes(&self) -> (s: &[u8])
        ensures
            s@ == self.bytes(),
    ;
}

impl<const N: usize> AsBytes for [u8; N] {
    open spec fn bytes(&self) -> Seq<u8> {
        self@
    }

    fn as_bytes(&self) -> (s: &[u8]) {
        self.as_slice()
    }
}

impl AsBytes for Vec<u8> {
    open spec fn bytes(&self) -> Seq<u8> {
        self@
    }

    fn as_bytes(&self) -> (s: &[u8]) {
        self.as_slice()
    }
}

impl<'a> AsBytes for &'a [u8] {
    open spec fn bytes(&self) -> Seq<u8> {
        self@
    }

    fn as_bytes(&self) -> (s: &[u8]) {
        *self
    }
}

/// The bytes of the first `n` buffers, one after the other.
pub open spec fn joined<B: AsBytes>(buffers: Seq<B>, n: int) -> Seq<u8>
    decreases n,
{
    if n <= 0 {
        Seq::empty()
    } else {
        joined(buffers, n - 1) + buffers[n - 1].bytes()
    }
}

/// A serial bus with blocking exchanges and one background (DMA-class)
/// write, and with it the lines and delays of the devices on it.
///
/// Every request is noted in the bus's record as one event. What a request
/// `requires` is that the rules of the shared bus allow its event where the
/// record stands, so that the record of a bus in good standing is orderly.
pub trait SpiDmaWrite {
    type Error;

    type DmaBuffer: AsBytes;

    /// Every request made so far, in order.
    spec fn journal(&self) -> Seq<Event>;

    /// The bus is in good standing.
    spec fn wf(&self) -> bool;

    /// The record of a bus in good standing is orderly.
    proof fn lemma_orderly(&self)
        requires
            self.wf(),
        ensures
            orderly(self.journal()),
    ;

    /// Sets clock speed and signal mode.
    fn configure(&mut self, mhz: u32, mode: Mode) -> (r: Result<(), Self::Error>)
        requires
            old(self).wf(),
            replay(old(self).journal()).allows(Event::Configure(mhz, mode)),
        ensures
            final(self).wf(),
            logged(
                old(self).journal(),
                final(self).journal(),
                if r is Ok {
                    Event::Configure(mhz, mode)
                } else {
                    Event::Failed
                },
            ),
    ;

    /// Blocking full-duplex exchange: sends the buffer and overwrites it with
    /// what came back.
    fn transfer(&mut self, buffer: &mut [u8]) -> (r: Result<(), Self::Error>)
        requires
            old(self).wf(),
            replay(old(self).journal()).allows(Event::Exchange(old(buffer)@, old(buffer)@)),
        ensures
            final(self).wf(),
            final(buffer)@.len() == old(buffer)@.len(),
            logged(
                old(self).journal(),
                final(self).journal(),
                if r is Ok {
                    Event::Exchange(old(buffer)@, final(buffer)@)
                } else {
                    Event::Failed
                },
            ),
    ;

    /// Blocking write.
    fn write_sync(&mut self, buffer: &[u8]) -> (r: Result<(), Self::Error>)
        requires
            old(self).wf(),
            replay(old(self).journal()).allows(Event::Write(buffer@)),
        ensures
            final(self).wf(),
            logged(
                old(self).journal(),
                final(self).journal(),
                if r is Ok {
                    Event::Write(buffer@)
                } else {
                    Event::Failed
                },
            ),
    ;

    /// Starts a background write and returns at once where the hardware can;
    /// a bus without that ability may block until the buffer is out.
    fn write_async(&mut self, buffer: Self::DmaBuffer) -> (r: Result<(), Self::Error>)
        requires
            old(self).wf(),
            replay(old(self).journal()).allows(Event::Start(buffer.bytes())),
        ensures
            final(self).wf(),
            logged(
                old(self).journal(),
                final(self).journal(),
                if r is Ok {
                    Event::Start(buffer.bytes())
                } else {
                    Event::Failed
                },
            ),
    ;

    /// Waits for the background write. Where none is in flight nothing is
    /// asked of the hardware.
    fn flush(&mut self) -> (r: Result<(), Self::Error>)
        requires
            old(self).wf(),
        ensures
            final(self).wf(),
            replay(old(self).journal()).pending ==> logged(
                old(self).journal(),
                final(self).journal(),
                Event::Wait(r is Ok),
            ),
            !replay(old(self).journal()).pending ==> r is Ok && final(self).journal() == old(
                self,
            ).journal(),
    ;

    /// Holds the bus idle for at least `cycles` core cycles.
    fn settle(&mut self, cycles: u32)
        requires
            old(self).wf(),
        ensures
            final(self).wf(),
            logged(old(self).journal(), final(self).journal(), Event::Settle(cycles)),
    ;

    /// Drives a line of a device on the bus: low if `low`, else high.
    fn drive<P: OutputPin>(&mut self, wire: Wire, pin: &mut P, low: bool)
        requires
            old(self).wf(),
            replay(old(self).journal()).allows(Event::Drive(wire, low)),
        ensures
            final(self).wf(),
            logged(old(self).journal(), final(self).journal(), Event::Drive(wire, low)),
    ;

    /// Pauses for so many milliseconds.
    fn pause<D: DelayMs>(&mut self, delay: &mut D, ms: u16)
        requires
            old(self).wf(),
        ensures
            final(self).wf(),
            logged(old(self).journal(), final(self).journal(), Event::Pause(ms)),
    ;

    /// Waits for the touch controller's busy line to go low.
    fn wait_ready<I: InputPin>(&mut self, busy: &mut I)
        requires
            old(self).wf(),
        ensures
            final(self).wf(),
            logged(old(self).journal(), final(self).journal(), Event::Ready),
    ;

    /// Reads the touch screen's pen line: `true` for low, the pen down. The
    /// level read goes into the record. Reading asks nothing of the bus, so
    /// it can be done on a bus in any standing, and leaves the standing as
    /// it is.
    fn read_pen<I: InputPin>(&mut self, pen: &I) -> (down: bool)
        ensures
            old(self).wf() ==> final(self).wf(),
            logged(old(self).journal(), final(self).journal(), Event::Pen(down)),
    ;
}

/// Exclusive selection: at no point in the past of a bus in good standing
/// was more than one device selected.
pub proof fn law_bus_exclusive<B: SpiDmaWrite>(bus: &B, k: int)
    requires
        bus.wf(),
        0 <= k <= bus.journal().len(),
    ensures
        replay(bus.journal().take(k)).selected() <= 1,
{
    bus.lemma_orderly();
    law_exclusive(bus.journal(), k);
}

/// Deselect before setup: whenever a bus in good standing took a new setup,
/// no device was selected. A change of target thus deselects every device
/// before the new one can be selected.
pub proof fn law_bus_setup_deselected<B: SpiDmaWrite>(bus: &B, k: int)
    requires
        bus.wf(),
        0 <= k < bus.journal().len(),
        bus.journal()[k] is Configure,
    ensures
        replay(bus.journal().take(k)).quiet(),
{
    bus.lemma_orderly();
    law_setup_deselected(bus.journal(), k);
}

/// One transfer in flight: whenever bytes moved over a bus in good
/// standing, be it in a background write that started or in a blocking
/// request, no background write was in flight and exactly one device was
/// selected.
pub proof fn law_bus_one_in_flight<B: SpiDmaWrite>(bus: &B, k: int)
    requires
        bus.wf(),
        0 <= k < bus.journal().len(),
        bus.journal()[k].moves_bytes(),
    ensures
        !replay(bus.journal().take(k)).pending,
        replay(bus.journal().take(k)).selected() == 1,
{
    bus.lemma_orderly();
    law_one_in_flight(bus.journal(), k);
}

/// No release in mid-flight: whenever a selected device was deselected on a
/// bus in good standing, no background write was in flight.
pub proof fn law_bus_release_after_wait<B: SpiDmaWrite>(bus: &B, k: int, target: Target)
    requires
        bus.wf(),
        0 <= k < bus.journal().len(),
        bus.journal()[k] == Event::Drive(Wire::Select(target), false),
        replay(bus.journal().take(k)).low(target),
    ensures
        !replay(bus.journal().take(k)).pending,
{
    bus.lemma_orderly();
    law_release_after_wait(bus.journal(), k, target);
}

/// A bus peripheral with its record. It remembers whether a background
/// write was started and not yet waited for, so that waiting costs nothing
/// where there is nothing to wait for.
pub struct DisplaySpi<H: Spi> {
    spi: H,
    /// A background write was started and not waited for since.
    pending: bool,
    journal: Ghost<Seq<Event>>,
}

impl<H: Spi> DisplaySpi<H> {
    /// The peripheral the requests go to.
    pub closed spec fn peripheral(&self) -> H {
        self.spi
    }

    /// Takes a peripheral on which nothing is in flight. The record starts
    /// empty.
    pub fn new(spi: H) -> (bus: Self)
        ensures
            bus.wf(),
            bus.journal() == Seq::<Event>::empty(),
            bus.peripheral() == spi,
    {
        proof {
            lemma_empty();
        }
        DisplaySpi { spi, pending: false, journal: Ghost(Seq::empty()) }
    }

    /// Whether a background write may still be in flight.
    pub fn is_busy(&self) -> (busy: bool)
        requires
            self.wf(),
        ensures
            busy == replay(self.journal()).pending,
    {
        self.pending
    }

    /// Gives the peripheral back.
    pub fn free(self) -> (spi: H)
        ensures
            spi == self.peripheral(),
    {
        self.spi
    }
}

impl<H: Spi> SpiDmaWrite for DisplaySpi<H> {
    type Error = H::Error;

    type DmaBuffer = H::DmaBuffer;

    closed spec fn journal(&self) -> Seq<Event> {
        self.journal@
    }

    closed spec fn wf(&self) -> bool {
        &&& orderly(self.journal@)
        &&& self.pending == replay(self.journal@).pending
    }

    proof fn lemma_orderly(&self) {
    }

    fn configure(&mut self, mhz: u32, mode: Mode) -> (r: Result<(), Self::Error>) {
        let r = self.spi.configure(mhz, mode);
        let ghost e = if r is Ok {
            Event::Configure(mhz, mode)
        } else {
            Event::Failed
        };
        proof {
            lemma_logged(self.journal@, e);
        }
        self.journal = Ghost(self.journal@.push(e));
        r
    }

    fn transfer(&mut self, buffer: &mut [u8]) -> (r: Result<(), Self::Error>) {
        let ghost tx = buffer@;
        let r = self.spi.transfer(buffer);
        let ghost e = if r is Ok {
            Event::Exchange(tx, buffer@)
        } else {
            Event::Failed
        };
        proof {
            lemma_logged(self.journal@, e);
        }
        self.journal = Ghost(self.journal@.push(e));
        r
    }

    fn write_sync(&mut self, buffer: &[u8]) -> (r: Result<(), Self::Error>) {
        let r = self.spi.write(buffer);
        let ghost e = if r is Ok {
            Event::Write(buffer@)
        } else {
            Event::Failed
        };
        proof {
            lemma_logged(self.journal@, e);
        }
        self.journal = Ghost(self.journal@.push(e));
        r
    }

    fn write_async(&mut self, buffer: Self::DmaBuffer) -> (r: Result<(), Self::Error>) {
        let ghost bytes = buffer.bytes();
        let r = self.spi.dma_write(buffer);
        let ghost e = if r is Ok {
            Event::Start(bytes)
        } else {
            Event::Failed
        };
        proof {
            lemma_logged(self.journal@, e);
        }
        if r.is_ok() {
            self.pending = true;
        }
        self.journal = Ghost(self.journal@.push(e));
        r
    }

    fn flush(&mut self) -> (r: Result<(), Self::Error>) {
        if self.pending {
            self.pending = false;
            let r = self.spi.dma_wait();
            let ghost e = Event::Wait(r is Ok);
            proof {
                lemma_logged(self.journal@, e);
            }
            self.journal = Ghost(self.journal@.push(e));
            r
        } else {
            Ok(())
        }
    }

    fn settle(&mut self, cycles: u32) {
        self.spi.delay(cycles);
        proof {
            lemma_logged(self.journal@, Event::Settle(cycles));
        }
        self.journal = Ghost(self.journal@.push(Event::Settle(cycles)));
    }

    fn drive<P: OutputPin>(&mut self, wire: Wire, pin: &mut P, low: bool) {
        if low {
            pin.set_low();
        } else {
            pin.set_high();
        }
        proof {
            lemma_logged(self.journal@, Event::Drive(wire, low));
        }
        self.journal = Ghost(self.journal@.push(Event::Drive(wire, low)));
    }

    fn pause<D: DelayMs>(&mut self, delay: &mut D, ms: u16) {
        delay.delay_ms(ms);
        proof {
            lemma_logged(self.journal@, Event::Pause(ms));
        }
        self.journal = Ghost(self.journal@.push(Event::Pause(ms)));
    }

    fn wait_ready<I: InputPin>(&mut self, busy: &mut I) {
        busy.wait_for_low();
        proof {
            lemma_logged(self.journal@, Event::Ready);
        }
        self.journal = Ghost(self.journal@.push(Event::Ready));
    }

    fn read_pen<I: InputPin>(&mut self, pen: &I) -> (down: bool) {
        let down = pen.is_low();
        proof {
            lemma_logged(self.journal@, Event::Pen(down));
        }
        self.journal = Ghost(self.journal@.push(Event::Pen(down)));
        down
    }
}

} // verus!
