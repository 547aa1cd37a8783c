//! The panel, its touch controller and the arbiter of the bus they share.

use crate::hal::{DelayMs, InputPin, OutputPin};
use crate::journal::{lemma_grown, lemma_grown_on, logged, replay, Event, Wire, Wires};
pub use crate::spi::DisplaySpi;
use crate::spi::{law_bus_exclusive, law_bus_setup_deselected, SpiDmaWrite};
use embedded_hal::spi::{Mode, Phase, Polarity};
use vstd::prelude::*;

pub mod console;
pub mod ili9486;
pub mod scanline;
pub mod spi1;
pub mod xpt2046;

use self::ili9486::command::{
    Command, DisplayOn, InterfacePixelFormat, InversionOff, InversionOn, MemoryAccessControl,
    MemoryWrite, PixelFormat, SleepOut,
};
use self::ili9486::{frame, framed, opening, refused_opening, Tft, TftWriter};
use self::spi1::{State, Target};
use self::xpt2046::Ts;

verus! {

/// Panel width in pixels.
pub const WIDTH: usize = 320;

/// Panel height in pixels.
pub const HEIGHT: usize = 480;

/// First byte of a pixel: the top five bits of red, then the top three of
/// green.
pub open spec fn pack_high(r: u8, g: u8) -> u8 {
    (r & 0xF8) | (g >> 5u8)
}

/// Second byte of a pixel: the next three bits of green, then the top five
/// of blue.
pub open spec fn pack_low(g: u8, b: u8) -> u8 {
    ((g & 0x1C) << 3u8) | (b >> 3u8)
}

/// Packs a colour into the panel's 16 bits per pixel: five bits of red, six
/// of green, five of blue.
pub fn rgb_to_16bpp(r: u8, g: u8, b: u8) -> (bytes: [u8; 2])
    ensures
        bytes[0] == pack_high(r, g),
        bytes[1] == pack_low(g, b),
{
    [(r & 0xF8) | (g >> 5), ((g & 0x1C) << 3) | (b >> 3)]
}

/// The colour in a packed pixel, each channel with the bits the packing
/// dropped at 0.
pub open spec fn unpack(high: u8, low: u8) -> (u8, u8, u8) {
    (high & 0xF8, ((high & 0x07) << 5u8) | ((low & 0xE0) >> 3u8), (low & 0x1F) << 3u8)
}

/// Unpacks a pixel of 16 bits.
pub fn rgb_from_16bpp(bytes: [u8; 2]) -> (rgb: (u8, u8, u8))
    ensures
        rgb == unpack(bytes[0], bytes[1]),
{
    (
        bytes[0] & 0xF8,
        ((bytes[0] & 0x07) << 5) | ((bytes[1] & 0xE0) >> 3),
        (bytes[1] & 0x1F) << 3,
    )
}

/// Packing and unpacking a colour gives it back with red cut to five bits,
/// green to six and blue to five.
pub proof fn lemma_rgb_round_trip(r: u8, g: u8, b: u8)
    ensures
        unpack(pack_high(r, g), pack_low(g, b)) == (r & 0xF8, g & 0xFC, b & 0xF8),
{
    assert(((r & 0xF8) | (g >> 5u8)) & 0xF8 == r & 0xF8) by (bit_vector);
    assert(((((r & 0xF8) | (g >> 5u8)) & 0x07) << 5u8) | (((((g & 0x1C) << 3u8) | (b >> 3u8))
        & 0xE0) >> 3u8) == g & 0xFC) by (bit_vector);
    assert(((((g & 0x1C) << 3u8) | (b >> 3u8)) & 0x1F) << 3u8 == b & 0xF8) by (bit_vector);
}

#[verifier::external_type_specification]
pub struct ExPolarity(Polarity);

#[verifier::external_type_specification]
pub struct ExPhase(Phase);

#[verifier::external_type_specification]
pub struct ExMode(Mode);

/// Clock idle low, data captured on the first clock transition.
pub fn spi_mode0() -> (m: Mode)
    ensures
        m.polarity == Polarity::IdleLow,
        m.phase == Phase::CaptureOnFirstTransition,
{
    Mode { polarity: Polarity::IdleLow, phase: Phase::CaptureOnFirstTransition }
}

/// Milliseconds the panel is given to wake up before it is configured.
pub const WAKE_MS: u16 = 5;

/// How the panel's memory is scanned: columns mirrored, colours as BGR.
spec fn panel_orientation() -> MemoryAccessControl {
    MemoryAccessControl {
        rgb_to_bgr: true,
        row_addr_order: false,
        col_addr_order: true,
        row_col_exchange: false,
        vert_refresh_order: false,
        horiz_refresh_order: false,
    }
}

/// 16 bits per pixel on both interfaces.
spec fn panel_format() -> InterfacePixelFormat {
    InterfacePixelFormat { cpu_format: PixelFormat::Bpp16, rgb_format: PixelFormat::Bpp16 }
}

/// Every chip-select is driven high.
pub open spec fn deselect_all() -> Seq<Event> {
    seq![
        Event::Drive(Wire::Select(Target::Tft), false),
        Event::Drive(Wire::Select(Target::Ts), false),
        Event::Drive(Wire::Select(Target::Sd), false),
    ]
}

/// How the bus goes over to a target: not at all where it is set up for
/// the target already; else every device is deselected, then the bus takes
/// the target's clock speed and signal mode.
pub open spec fn switch(from: Option<Target>, to: Target) -> Seq<Event> {
    if from == Some(to) {
        Seq::empty()
    } else {
        deselect_all() + seq![Event::Configure(to.mhz(), to.mode())]
    }
}

/// How going over to another target ends where the bus turns the setup
/// down.
pub open spec fn refused_switch() -> Seq<Event> {
    deselect_all() + seq![Event::Failed]
}

/// What a command to the panel leaves in the record of a display: where the
/// bus cannot go over to the panel, the refused switch; else the switch and
/// what the frame leaves.
pub open spec fn commanded(
    before: Seq<Event>,
    after: Seq<Event>,
    from: Option<Target>,
    reg: u8,
    payload: Seq<u8>,
    ok: bool,
) -> bool {
    ||| !ok && after == before + refused_switch()
    ||| framed(before + switch(from, Target::Tft), after, reg, payload, ok)
}

/// How the panel is brought up: the bus goes over to the panel, then sleep
/// out, a pause for the panel to wake, display on, orientation (columns
/// mirrored, colours as BGR) and pixel format (16 bits per pixel on both
/// interfaces), each command as a frame of its own.
pub open spec fn init_trace() -> Seq<Event> {
    switch(None, Target::Tft) + frame(0x11, Seq::empty()) + seq![Event::Pause(WAKE_MS)] + frame(
        0x29,
        Seq::empty(),
    ) + frame(0x36, seq![0x48u8]) + frame(0x3A, seq![0x55u8])
}

/// The arbiter of the bus: it owns the bus, the three chip-selects and the
/// side lines, and lends them to one device at a time.
pub struct Display<
    B: SpiDmaWrite,
    TftDc: OutputPin,
    TftCs: OutputPin,
    TsPen: InputPin,
    TsBusy: InputPin,
    TsCs: OutputPin,
    SdCs: OutputPin,
> {
    pub spi_state: State<B>,
    /// Data/Command Select Pin
    pub tft_dc: TftDc,
    /// Chip Select
    pub tft_cs: TftCs,
    /// Touch screen PENIRQ
    pub ts_pen: TsPen,
    /// Touch screen Busy
    pub ts_busy: TsBusy,
    /// Chip Select
    pub ts_cs: TsCs,
    /// Chip Select
    pub sd_cs: SdCs,
}

impl<
    B: SpiDmaWrite,
    TftDc: OutputPin,
    TftCs: OutputPin,
    TsPen: InputPin,
    TsBusy: InputPin,
    TsCs: OutputPin,
    SdCs: OutputPin,
> Display<B, TftDc, TftCs, TsPen, TsBusy, TsCs, SdCs> {
    /// The bus.
    pub open spec fn bus(&self) -> B {
        self.spi_state.bus()
    }

    /// Everything asked of the hardware so far.
    pub open spec fn journal(&self) -> Seq<Event> {
        self.bus().journal()
    }

    /// How many chip-selects are asserted.
    pub open spec fn selected(&self) -> nat {
        replay(self.journal()).selected()
    }

    /// The display at rest: the bus is there, in good standing and set up as
    /// the state says, nothing is in flight and no device is selected.
    pub open spec fn wf(&self) -> bool {
        &&& self.spi_state.wf()
        &&& replay(self.journal()).quiet()
        &&& !replay(self.journal()).pending
    }

    /// Arbitration is exclusive: whatever was asked of a display, at no point
    /// was more than one device selected, and whenever the bus went over to
    /// another target every device was deselected first.
    pub proof fn law_arbitration(&self, k: int)
        requires
            self.spi_state.wf(),
            0 <= k <= self.journal().len(),
        ensures
            replay(self.journal().take(k)).selected() <= 1,
            k < self.journal().len() && self.journal()[k] is Configure ==> replay(
                self.journal().take(k),
            ).quiet(),
    {
        law_bus_exclusive(&self.bus(), k);
        if k < self.journal().len() && self.journal()[k] is Configure {
            law_bus_setup_deselected(&self.bus(), k);
        }
    }

    /// Takes the bus and the lines, deselects every device and brings the
    /// panel up.
    pub fn new<D: DelayMs>(
        spi: B,
        tft_dc: TftDc,
        tft_cs: TftCs,
        ts_pen: TsPen,
        ts_busy: TsBusy,
        ts_cs: TsCs,
        sd_cs: SdCs,
        delay: &mut D,
    ) -> (r: Result<Self, B::Error>)
        requires
            spi.wf(),
            !replay(spi.journal()).pending,
        ensures
            r matches Ok(display) ==> {
                &&& display.wf()
                &&& display.spi_state.target() == Some(Target::Tft)
                &&& display.journal() == spi.journal() + init_trace()
            },
    {
        let ghost j = spi.journal();
        let mut this = Display {
            spi_state: State::Reset(spi),
            tft_dc,
            tft_cs,
            ts_pen,
            ts_busy,
            ts_cs,
            sd_cs,
        };

        match this.setup_spi(Target::Tft) {
            Ok(_) => {},
            Err(e) => {
                return Err(e);
            },
        }
        match this.write_command(SleepOut) {
            Ok(_) => {},
            Err(e) => {
                return Err(e);
            },
        }
        this.spi_state.mut_spi().pause(delay, WAKE_MS);

        match this.write_command(DisplayOn) {
            Ok(_) => {},
            Err(e) => {
                return Err(e);
            },
        }
        match this.write_command(
            MemoryAccessControl {
                rgb_to_bgr: true,
                row_addr_order: false,
                col_addr_order: true,
                row_col_exchange: false,
                vert_refresh_order: false,
                horiz_refresh_order: false,
            },
        ) {
            Ok(_) => {},
            Err(e) => {
                return Err(e);
            },
        }
        match this.write_command(
            InterfacePixelFormat { cpu_format: PixelFormat::Bpp16, rgb_format: PixelFormat::Bpp16 },
        ) {
            Ok(_) => {},
            Err(e) => {
                return Err(e);
            },
        }
        proof {
            assert(panel_orientation().flags() == 0x48) by (bit_vector);
            assert(panel_format().formats() == 0x55) by (bit_vector);
            assert(SleepOut.payload() =~= Seq::<u8>::empty());
            assert(DisplayOn.payload() =~= Seq::<u8>::empty());
            assert(panel_orientation().payload() =~= seq![0x48u8]);
            assert(panel_format().payload() =~= seq![0x55u8]);
            assert(this.journal() =~= j + init_trace());
        }

        Ok(this)
    }

    /// Sends one command to the panel as a frame of its own.
    fn write_command<C: Command>(&mut self, c: C) -> (r: Result<(), B::Error>)
        requires
            old(self).wf(),
        ensures
            final(self).wf(),
            old(self).journal().is_prefix_of(final(self).journal()),
            r is Ok ==> final(self).spi_state.target() == Some(Target::Tft),
            commanded(
                old(self).journal(),
                final(self).journal(),
                old(self).spi_state.target(),
                C::opcode(),
                c.payload(),
                r is Ok,
            ),
    {
        let ghost j = self.journal();
        let tft = match self.tft() {
            Ok(tft) => tft,
            Err(e) => {
                proof {
                    lemma_grown(j, j, refused_switch());
                }
                return Err(e);
            },
        };
        let ghost lent = tft.spi.journal();
        let r = tft.write_command(c);
        proof {
            lemma_grown_on(j, lent, self.journal());
        }
        r
    }

    /// Deselects every device.
    fn set_all_cs_high(spi: &mut B, tft_cs: &mut TftCs, ts_cs: &mut TsCs, sd_cs: &mut SdCs)
        requires
            old(spi).wf(),
            !replay(old(spi).journal()).pending,
        ensures
            final(spi).wf(),
            final(spi).journal() == old(spi).journal() + deselect_all(),
            replay(final(spi).journal()) == (Wires {
                tft: false,
                ts: false,
                sd: false,
                ..replay(old(spi).journal())
            }),
    {
        spi.drive(Wire::Select(Target::Tft), tft_cs, false);
        spi.drive(Wire::Select(Target::Ts), ts_cs, false);
        spi.drive(Wire::Select(Target::Sd), sd_cs, false);
        assert(spi.journal() =~= old(spi).journal() + deselect_all());
    }

    /// Switching of SPI modes if necessary: where the bus is set up for
    /// `target` already nothing happens. Else every device is deselected
    /// before the bus takes the target's clock speed and signal mode. Where
    /// the bus turns them down it counts as set up as before.
    pub fn setup_spi(&mut self, target: Target) -> (r: Result<(), B::Error>)
        requires
            old(self).spi_state.wf(),
            !replay(old(self).journal()).pending,
        ensures
            final(self).spi_state.wf(),
            !replay(final(self).journal()).pending,
            old(self).journal().is_prefix_of(final(self).journal()),
            old(self).spi_state.target() == Some(target) ==> r is Ok && final(self).journal()
                == old(self).journal(),
            old(self).spi_state.target() != Some(target) ==> replay(final(self).journal()).quiet(),
            r is Ok ==> final(self).spi_state.target() == Some(target) && final(self).journal()
                == old(self).journal() + switch(old(self).spi_state.target(), target),
            r is Err ==> final(self).spi_state.target() == old(self).spi_state.target(),
            r is Err ==> final(self).journal() == old(self).journal() + refused_switch(),
    {
        let ghost j = self.journal();
        let mut spi_state = State::Invalid;
        core::mem::swap(&mut self.spi_state, &mut spi_state);
        let (mut spi, previous) = match spi_state {
            State::Ready(current_target, spi) => if current_target == target {
                // All is well
                self.spi_state = State::Ready(current_target, spi);
                proof {
                    lemma_grown(j, j, Seq::empty());
                    assert(j + switch(Some(target), target) =~= j);
                }
                return Ok(());
            } else {
                (spi, Some(current_target))
            },
            State::Reset(spi) => (spi, None),
            State::Invalid => vstd::pervasive::unreached(),
        };
        Self::set_all_cs_high(&mut spi, &mut self.tft_cs, &mut self.ts_cs, &mut self.sd_cs);

        match spi.configure(target.mhz(), target.mode()) {
            Ok(_) => {
                proof {
                    assert(spi.journal() =~= j + switch(previous, target));
                    lemma_grown(j, j, switch(previous, target));
                }
                self.spi_state = State::Ready(target, spi);
                Ok(())
            },
            Err(e) => {
                proof {
                    assert(spi.journal() =~= j + refused_switch());
                    lemma_grown(j, j, refused_switch());
                }
                self.spi_state = match previous {
                    Some(current_target) => State::Ready(current_target, spi),
                    None => State::Reset(spi),
                };
                Err(e)
            },
        }
    }

    /// Lends the bus, set up for the touch controller, with the controller's
    /// chip-select and busy line. What the borrower leaves of the bus is what
    /// the display holds afterwards.
    pub fn ts(&mut self) -> (r: Result<Ts<'_, B, TsCs, TsBusy>, B::Error>)
        requires
            old(self).wf(),
        ensures
            old(self).spi_state.target() == Some(Target::Ts) ==> r is Ok,
            match r {
                Ok(ts) => {
                    &&& ts.wf()
                    &&& ts.spi.journal() == old(self).journal() + switch(
                        old(self).spi_state.target(),
                        Target::Ts,
                    )
                    &&& replay(ts.spi.journal()).config == Some(
                        (Target::Ts.mhz(), Target::Ts.mode()),
                    )
                    &&& final(self).spi_state == State::Ready(Target::Ts, *final(ts.spi))
                },
                Err(_) => {
                    &&& final(self).wf()
                    &&& final(self).spi_state.target() == old(self).spi_state.target()
                    &&& final(self).journal() == old(self).journal() + refused_switch()
                },
            },
    {
        match self.setup_spi(Target::Ts) {
            Ok(_) => {},
            Err(e) => {
                return Err(e);
            },
        }

        Ok(Ts { spi: self.spi_state.mut_spi(), cs: &mut self.ts_cs, busy: &mut self.ts_busy })
    }

    /// Lends the bus, set up for the panel, with the panel's chip-select and
    /// data/command line. What the borrower leaves of the bus is what the
    /// display holds afterwards.
    pub fn tft(&mut self) -> (r: Result<Tft<'_, B, TftDc, TftCs>, B::Error>)
        requires
            old(self).wf(),
        ensures
            old(self).spi_state.target() == Some(Target::Tft) ==> r is Ok,
            match r {
                Ok(tft) => {
                    &&& tft.wf()
                    &&& tft.spi.journal() == old(self).journal() + switch(
                        old(self).spi_state.target(),
                        Target::Tft,
                    )
                    &&& replay(tft.spi.journal()).config == Some(
                        (Target::Tft.mhz(), Target::Tft.mode()),
                    )
                    &&& final(self).spi_state == State::Ready(Target::Tft, *final(tft.spi))
                },
                Err(_) => {
                    &&& final(self).wf()
                    &&& final(self).spi_state.target() == old(self).spi_state.target()
                    &&& final(self).journal() == old(self).journal() + refused_switch()
                },
            },
    {
        match self.setup_spi(Target::Tft) {
            Ok(_) => {},
            Err(e) => {
                return Err(e);
            },
        }

        Ok(Tft { spi: self.spi_state.mut_spi(), cs: &mut self.tft_cs, dc: &mut self.tft_dc })
    }

    /// Whether the pen is down: reads the pen line and hands on the level
    /// read, which goes into the record of the bus. Nothing else changes.
    pub fn ts_input(&mut self) -> (down: bool)
        ensures
            final(self).spi_state.target() == old(self).spi_state.target(),
            final(self).spi_state is Invalid <==> old(self).spi_state is Invalid,
            !(old(self).spi_state is Invalid) ==> logged(
                old(self).journal(),
                final(self).journal(),
                Event::Pen(down),
            ),
            old(self).spi_state is Invalid ==> *final(self) == *old(self),
            old(self).spi_state.wf() ==> final(self).spi_state.wf(),
            old(self).wf() ==> final(self).wf(),
    {
        match &mut self.spi_state {
            State::Ready(_, spi) => spi.read_pen(&self.ts_pen),
            State::Reset(spi) => spi.read_pen(&self.ts_pen),
            State::Invalid => self.ts_pen.is_low(),
        }
    }

    /// Opens a pixel stream into the panel's memory. The writer holds the
    /// panel selected until it is released.
    pub fn write_pixels(&mut self) -> (r: Result<TftWriter<'_, B, TftCs>, B::Error>)
        requires
            old(self).wf(),
        ensures
            match r {
                Ok(w) => {
                    &&& w.wf()
                    &&& w.spi.journal() == old(self).journal() + switch(
                        old(self).spi_state.target(),
                        Target::Tft,
                    ) + opening(0x2C)
                    &&& replay(w.spi.journal()).config == Some(
                        (Target::Tft.mhz(), Target::Tft.mode()),
                    )
                    &&& !replay(w.spi.journal()).pending
                    &&& final(self).spi_state == State::Ready(Target::Tft, *final(w.spi))
                },
                Err(_) => {
                    &&& final(self).wf()
                    &&& old(self).journal().is_prefix_of(final(self).journal())
                    &&& {
                        ||| final(self).journal() == old(self).journal() + refused_switch()
                        ||| final(self).journal() == old(self).journal() + switch(
                            old(self).spi_state.target(),
                            Target::Tft,
                        ) + refused_opening()
                    }
                },
            },
    {
        let ghost j = self.journal();
        let tft = match self.tft() {
            Ok(tft) => tft,
            Err(e) => {
                proof {
                    lemma_grown(j, j, refused_switch());
                }
                return Err(e);
            },
        };
        let ghost lent = tft.spi.journal();
        let r = tft.writer(MemoryWrite::number());
        proof {
            lemma_grown(j, j, switch(old(self).spi_state.target(), Target::Tft));
            if r is Err {
                lemma_grown(j, lent, refused_opening());
            }
        }
        r
    }

    /// Switches colour inversion on or off.
    pub fn set_inversion(&mut self, inverted: bool) -> (r: Result<(), B::Error>)
        requires
            old(self).wf(),
        ensures
            final(self).wf(),
            old(self).journal().is_prefix_of(final(self).journal()),
            r is Ok ==> final(self).spi_state.target() == Some(Target::Tft),
            commanded(
                old(self).journal(),
                final(self).journal(),
                old(self).spi_state.target(),
                if inverted {
                    0x21
                } else {
                    0x28
                },
                Seq::empty(),
                r is Ok,
            ),
    {
        if inverted {
            assert(InversionOn.payload() =~= Seq::<u8>::empty());
            self.write_command(InversionOn)
        } else {
            assert(InversionOff.payload() =~= Seq::<u8>::empty());
            self.write_command(InversionOff)
        }
    }
}

} // verus!
