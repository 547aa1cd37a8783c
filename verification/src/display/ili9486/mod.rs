//! The TFT controller: command framing and pixel streaming.
//!
//! <https://www.waveshare.com/w/upload/7/78/ILI9486_Datasheet.pdf>

use crate::display::spi1::Target;
use crate::hal::OutputPin;
use crate::journal::{
    lemma_grown, lemma_grown_on, replay, sent, taken, taken_since, Event, Wire, Wires,
};
use crate::spi::{joined, AsBytes, SpiDmaWrite};
use vstd::prelude::*;

pub mod command;

use self::command::{
    Command, DisplayIdentification, ReadDisplayIdentification, IDENTIFICATION_BYTES,
};

verus! {

/// Core cycles the bus rests between the last byte of a frame and the
/// release of the chip-select.
pub const SETTLE_CYCLES: u32 = 64;

/// What opens a frame on the wire: a padding byte, then the opcode.
pub open spec fn header(reg: u8) -> Seq<u8> {
    seq![0u8, reg]
}

/// How a frame is opened: the panel is selected and takes the header with
/// the data/command line low; the line goes high for the payload.
pub open spec fn opening(reg: u8) -> Seq<Event> {
    seq![
        Event::Drive(Wire::DataCommand, true),
        Event::Drive(Wire::Select(Target::Tft), true),
        Event::Write(header(reg)),
        Event::Drive(Wire::DataCommand, false),
    ]
}

/// How opening a frame ends where the bus turns the header down: the panel
/// is deselected again.
pub open spec fn refused_opening() -> Seq<Event> {
    seq![
        Event::Drive(Wire::DataCommand, true),
        Event::Drive(Wire::Select(Target::Tft), true),
        Event::Failed,
        Event::Drive(Wire::DataCommand, false),
        Event::Drive(Wire::Select(Target::Tft), false),
    ]
}

/// How a frame is closed once nothing is in flight: the bus settles, then
/// the panel is deselected.
pub open spec fn closing() -> Seq<Event> {
    seq![Event::Settle(SETTLE_CYCLES), Event::Drive(Wire::Select(Target::Tft), false)]
}

/// The wait for a background write, where one is in flight.
pub open spec fn waiting(pending: bool, ok: bool) -> Seq<Event> {
    if pending {
        seq![Event::Wait(ok)]
    } else {
        Seq::empty()
    }
}

/// A payload in a blocking write. Without bytes there is no write.
pub open spec fn payload_phase(payload: Seq<u8>) -> Seq<Event> {
    if payload.len() > 0 {
        seq![Event::Write(payload)]
    } else {
        Seq::empty()
    }
}

/// A chunk in a background write. Without bytes there is no write.
pub open spec fn chunk_phase(chunk: Seq<u8>) -> Seq<Event> {
    if chunk.len() > 0 {
        seq![Event::Start(chunk)]
    } else {
        Seq::empty()
    }
}

/// A command as a frame of its own.
pub open spec fn frame(reg: u8, payload: Seq<u8>) -> Seq<Event> {
    opening(reg) + payload_phase(payload) + closing()
}

/// How a payload request ends where it fails: the wait for the write in
/// flight fails and nothing more is asked, or the bus turns the request
/// down.
pub open spec fn refused(before: Seq<Event>, after: Seq<Event>, has_bytes: bool) -> bool {
    ||| replay(before).pending && after == before + seq![Event::Wait(false)]
    ||| has_bytes && after == before + waiting(replay(before).pending, true) + seq![Event::Failed]
}

/// What a command as a frame of its own leaves in the record: the whole
/// frame where it succeeds; else the refused opening, or the opening, the
/// refused payload and the closing.
pub open spec fn framed(
    before: Seq<Event>,
    after: Seq<Event>,
    reg: u8,
    payload: Seq<u8>,
    ok: bool,
) -> bool {
    if ok {
        after == before + frame(reg, payload)
    } else {
        ||| after == before + refused_opening()
        ||| payload.len() > 0 && after == before + opening(reg) + seq![Event::Failed] + closing()
    }
}

/// How the first `n` chunks are streamed into a frame in which a
/// background write is in flight or not: each chunk waits for the one
/// before it, then starts.
pub open spec fn streaming<B: AsBytes>(pending: bool, chunks: Seq<B>, n: int) -> Seq<Event>
    decreases n,
{
    if n <= 0 {
        Seq::empty()
    } else {
        streaming(pending, chunks, n - 1) + waiting(in_flight_after(pending, chunks, n - 1), true)
            + chunk_phase(chunks[n - 1].bytes())
    }
}

/// Whether a background write is in flight once the first `n` chunks were
/// streamed: the last chunk, unless it was empty.
pub open spec fn in_flight_after<B: AsBytes>(pending: bool, chunks: Seq<B>, n: int) -> bool {
    if n <= 0 {
        pending
    } else {
        chunks[n - 1].bytes().len() > 0
    }
}

/// The panel on the bus, not selected.
pub struct Tft<'a, SPI: SpiDmaWrite, DC: OutputPin, CS: OutputPin> {
    pub spi: &'a mut SPI,
    /// Data/command select
    pub dc: &'a mut DC,
    /// Chip select
    pub cs: &'a mut CS,
}

/// An open frame: the panel is selected and takes payload.
pub struct TftWriter<'a, SPI: SpiDmaWrite, CS: OutputPin> {
    pub spi: &'a mut SPI,
    pub cs: &'a mut CS,
}

impl<'a, SPI: SpiDmaWrite, DC: OutputPin, CS: OutputPin> Tft<'a, SPI, DC, CS> {
    /// The bus is in good standing, nothing is in flight on it and no
    /// device is selected.
    pub open spec fn wf(&self) -> bool {
        &&& self.spi.wf()
        &&& replay(self.spi.journal()).quiet()
        &&& !replay(self.spi.journal()).pending
    }

    /// Opens a frame for register `reg`. Where the bus turns the header
    /// down the panel is deselected again.
    pub fn writer(self, reg: u8) -> (r: Result<TftWriter<'a, SPI, CS>, SPI::Error>)
        requires
            self.wf(),
        ensures
            match r {
                Ok(w) => {
                    &&& w.wf()
                    &&& w.spi.journal() == old(self.spi).journal() + opening(reg)
                    &&& replay(w.spi.journal()) == (Wires {
                        tft: true,
                        dc: false,
                        ..replay(old(self.spi).journal())
                    })
                    &&& sent(w.spi.journal()) == sent(old(self.spi).journal()) + header(reg)
                    &&& taken(w.spi.journal()) == taken(old(self.spi).journal())
                    &&& *final(w.spi) == *final(self.spi)
                },
                Err(_) => {
                    &&& final(self.spi).wf()
                    &&& final(self.spi).journal() == old(self.spi).journal() + refused_opening()
                    &&& replay(final(self.spi).journal()) == (Wires {
                        dc: false,
                        ..replay(old(self.spi).journal())
                    })
                },
            },
    {
        let ghost j = self.spi.journal();
        let buf = [0, reg];
        assert(buf@ =~= header(reg));

        self.spi.drive(Wire::DataCommand, self.dc, true);
        self.spi.drive(Wire::Select(Target::Tft), self.cs, true);
        let result = self.spi.write_sync(buf.as_slice());
        self.spi.drive(Wire::DataCommand, self.dc, false);

        match result {
            Ok(_) => {
                assert(self.spi.journal() =~= j + opening(reg));
                assert(taken(self.spi.journal()) =~= taken(j));
                Ok(TftWriter { spi: self.spi, cs: self.cs })
            },
            Err(e) => {
                self.spi.drive(Wire::Select(Target::Tft), self.cs, false);
                assert(self.spi.journal() =~= j + refused_opening());
                Err(e)
            },
        }
    }

    /// Sends one command as a frame of its own: header, then the payload if
    /// there is any. The panel is deselected when the function returns,
    /// whatever the outcome.
    pub fn write_command<C: Command>(self, c: C) -> (r: Result<(), SPI::Error>)
        requires
            self.wf(),
        ensures
            final(self.spi).wf(),
            replay(final(self.spi).journal()) == (Wires {
                dc: false,
                ..replay(old(self.spi).journal())
            }),
            old(self.spi).journal().is_prefix_of(final(self.spi).journal()),
            framed(
                old(self.spi).journal(),
                final(self.spi).journal(),
                C::opcode(),
                c.payload(),
                r is Ok,
            ),
    {
        let ghost j = self.spi.journal();
        let ghost payload = c.payload();
        let mut w = match self.writer(C::number()) {
            Ok(w) => w,
            Err(e) => {
                proof {
                    lemma_grown(j, j, refused_opening());
                }
                return Err(e);
            },
        };
        let ghost opened = w.spi.journal();
        let buf = c.encode();
        let written = w.write_sync(buf.as_bytes());
        let ghost filled = w.spi.journal();
        let released = w.release();
        proof {
            lemma_grown(j, j, opening(C::opcode()));
            lemma_grown_on(j, opened, filled);
            lemma_grown(
                j,
                filled,
                waiting(replay(filled).pending, released is Ok) + closing(),
            );
            assert(filled + waiting(replay(filled).pending, released is Ok) + closing() =~= filled
                + (waiting(replay(filled).pending, released is Ok) + closing()));
        }
        match written {
            Ok(_) => {
                proof {
                    assert(final(self.spi).journal() =~= j + frame(C::opcode(), payload));
                }
                released
            },
            Err(e) => {
                proof {
                    assert(final(self.spi).journal() =~= j + opening(C::opcode())
                        + seq![Event::Failed] + closing());
                }
                Err(e)
            },
        }
    }

    /// Asks the panel for its identification in a frame of its own. The
    /// panel is deselected when the function returns, whatever the outcome.
    pub fn read_identification(self) -> (r: Result<DisplayIdentification, SPI::Error>)
        requires
            self.wf(),
        ensures
            final(self.spi).wf(),
            replay(final(self.spi).journal()) == (Wires {
                dc: false,
                ..replay(old(self.spi).journal())
            }),
            old(self.spi).journal().is_prefix_of(final(self.spi).journal()),
            r matches Ok(id) ==> ({
                let rx = taken_since(old(self.spi).journal(), final(self.spi).journal());
                &&& rx.len() == IDENTIFICATION_BYTES
                &&& id == DisplayIdentification::spec_decode(rx)
                &&& final(self.spi).journal() == old(self.spi).journal() + opening(0x04)
                    + seq![Event::Exchange(seq![0u8, 0u8, 0u8, 0u8], rx)] + closing()
            }),
            r is Err ==> framed(
                old(self.spi).journal(),
                final(self.spi).journal(),
                0x04,
                seq![0u8, 0u8, 0u8, 0u8],
                false,
            ),
    {
        let ghost j = self.spi.journal();
        let mut w = match self.writer(ReadDisplayIdentification::number()) {
            Ok(w) => w,
            Err(e) => {
                proof {
                    lemma_grown(j, j, refused_opening());
                }
                return Err(e);
            },
        };
        let ghost opened = w.spi.journal();
        let mut response = [0u8;IDENTIFICATION_BYTES];
        assert(response@ =~= seq![0u8, 0u8, 0u8, 0u8]);
        let read = w.read(&mut response);
        let ghost filled = w.spi.journal();
        let released = w.release();
        proof {
            lemma_grown(j, j, opening(ReadDisplayIdentification::opcode()));
            lemma_grown_on(j, opened, filled);
            lemma_grown(
                j,
                filled,
                waiting(replay(filled).pending, released is Ok) + closing(),
            );
            assert(filled + waiting(replay(filled).pending, released is Ok) + closing() =~= filled
                + (waiting(replay(filled).pending, released is Ok) + closing()));
        }
        match read {
            Ok(_) => match released {
                Ok(_) => {
                    proof {
                        let rx = taken_since(j, final(self.spi).journal());
                        assert(rx =~= response@);
                        assert(final(self.spi).journal() =~= j + opening(
                            ReadDisplayIdentification::opcode(),
                        ) + seq![Event::Exchange(seq![0u8, 0u8, 0u8, 0u8], rx)] + closing());
                    }
                    Ok(DisplayIdentification::decode(&response))
                },
                Err(e) => Err(e),
            },
            Err(e) => {
                proof {
                    assert(final(self.spi).journal() =~= j + opening(
                        ReadDisplayIdentification::opcode(),
                    ) + seq![Event::Failed] + closing());
                }
                Err(e)
            },
        }
    }
}

impl<'a, SPI: SpiDmaWrite, CS: OutputPin> TftWriter<'a, SPI, CS> {
    /// The frame is open: the bus is in good standing and the panel is
    /// selected, and no other device.
    pub open spec fn wf(&self) -> bool {
        &&& self.spi.wf()
        &&& replay(self.spi.journal()).only(Target::Tft)
    }

    /// Streams one chunk into the frame. A chunk still on its way from an
    /// earlier call is waited for first, so that never two are in flight;
    /// then the new one is started in the background. An empty chunk starts
    /// nothing.
    pub fn write(&mut self, buffer: SPI::DmaBuffer) -> (r: Result<(), SPI::Error>)
        requires
            old(self).wf(),
        ensures
            final(self).wf(),
            *final(final(self).spi) == *final(old(self).spi),
            *final(final(self).cs) == *final(old(self).cs),
            old(self).spi.journal().is_prefix_of(final(self).spi.journal()),
            taken(final(self).spi.journal()) == taken(old(self).spi.journal()),
            r is Ok ==> final(self).spi.journal() == old(self).spi.journal() + waiting(
                replay(old(self).spi.journal()).pending,
                true,
            ) + chunk_phase(buffer.bytes()),
            r is Ok ==> replay(final(self).spi.journal()) == (Wires {
                pending: buffer.bytes().len() > 0,
                ..replay(old(self).spi.journal())
            }),
            r is Ok ==> sent(final(self).spi.journal()) == sent(old(self).spi.journal())
                + buffer.bytes(),
            r is Err ==> replay(final(self).spi.journal()) == (Wires {
                pending: false,
                ..replay(old(self).spi.journal())
            }),
            r is Err ==> refused(
                old(self).spi.journal(),
                final(self).spi.journal(),
                buffer.bytes().len() > 0,
            ),
    {
        let ghost j = self.spi.journal();
        // Clear previous
        match self.spi.flush() {
            Ok(_) => {},
            Err(e) => {
                assert(taken(self.spi.journal()) =~= taken(j));
                assert(self.spi.journal() =~= j + seq![Event::Wait(false)]);
                return Err(e);
            },
        }
        assert(self.spi.journal() =~= j + waiting(replay(j).pending, true));

        if buffer.as_bytes().len() == 0 {
            assert(self.spi.journal() =~= j + waiting(replay(j).pending, true) + chunk_phase(
                buffer.bytes(),
            ));
            assert(sent(j) + buffer.bytes() =~= sent(j));
            assert(taken(self.spi.journal()) =~= taken(j));
            return Ok(());
        }
        let ghost bytes = buffer.bytes();
        let r = self.spi.write_async(buffer);
        proof {
            assert(taken(self.spi.journal()) =~= taken(j));
            if r is Ok {
                assert(self.spi.journal() =~= j + waiting(replay(j).pending, true) + chunk_phase(
                    bytes,
                ));
            } else {
                assert(self.spi.journal() =~= j + waiting(replay(j).pending, true)
                    + seq![Event::Failed]);
            }
        }
        r
    }

    /// Sends payload bytes and returns when they are out. A chunk still on
    /// its way is waited for first. No bytes, no transfer.
    pub fn write_sync(&mut self, bytes: &[u8]) -> (r: Result<(), SPI::Error>)
        requires
            old(self).wf(),
        ensures
            final(self).wf(),
            *final(final(self).spi) == *final(old(self).spi),
            *final(final(self).cs) == *final(old(self).cs),
            old(self).spi.journal().is_prefix_of(final(self).spi.journal()),
            taken(final(self).spi.journal()) == taken(old(self).spi.journal()),
            replay(final(self).spi.journal()) == (Wires {
                pending: false,
                ..replay(old(self).spi.journal())
            }),
            r is Ok ==> final(self).spi.journal() == old(self).spi.journal() + waiting(
                replay(old(self).spi.journal()).pending,
                true,
            ) + payload_phase(bytes@),
            r is Ok ==> sent(final(self).spi.journal()) == sent(old(self).spi.journal()) + bytes@,
            r is Err ==> refused(
                old(self).spi.journal(),
                final(self).spi.journal(),
                bytes@.len() > 0,
            ),
    {
        let ghost j = self.spi.journal();
        match self.spi.flush() {
            Ok(_) => {},
            Err(e) => {
                assert(taken(self.spi.journal()) =~= taken(j));
                assert(self.spi.journal() =~= j + seq![Event::Wait(false)]);
                return Err(e);
            },
        }
        assert(self.spi.journal() =~= j + waiting(replay(j).pending, true));

        if bytes.len() == 0 {
            assert(self.spi.journal() =~= j + waiting(replay(j).pending, true) + payload_phase(
                bytes@,
            ));
            assert(sent(j) + bytes@ =~= sent(j));
            assert(taken(self.spi.journal()) =~= taken(j));
            return Ok(());
        }
        let r = self.spi.write_sync(bytes);
        proof {
            assert(taken(self.spi.journal()) =~= taken(j));
            if r is Ok {
                assert(self.spi.journal() =~= j + waiting(replay(j).pending, true)
                    + payload_phase(bytes@));
            } else {
                assert(self.spi.journal() =~= j + waiting(replay(j).pending, true)
                    + seq![Event::Failed]);
            }
        }
        r
    }

    /// Takes in as many payload bytes as the buffer holds, sending what
    /// the buffer held. A chunk still on its way is waited for first.
    pub fn read(&mut self, buffer: &mut [u8]) -> (r: Result<(), SPI::Error>)
        requires
            old(self).wf(),
        ensures
            final(self).wf(),
            *final(final(self).spi) == *final(old(self).spi),
            *final(final(self).cs) == *final(old(self).cs),
            final(buffer)@.len() == old(buffer)@.len(),
            old(self).spi.journal().is_prefix_of(final(self).spi.journal()),
            replay(final(self).spi.journal()) == (Wires {
                pending: false,
                ..replay(old(self).spi.journal())
            }),
            r is Ok ==> final(self).spi.journal() == old(self).spi.journal() + waiting(
                replay(old(self).spi.journal()).pending,
                true,
            ) + seq![Event::Exchange(old(buffer)@, final(buffer)@)],
            r is Ok ==> taken(final(self).spi.journal()) == taken(old(self).spi.journal())
                + final(buffer)@,
            r is Err ==> taken(final(self).spi.journal()) == taken(old(self).spi.journal()),
            r is Err ==> refused(old(self).spi.journal(), final(self).spi.journal(), true),
    {
        let ghost j = self.spi.journal();
        let ghost tx = buffer@;
        match self.spi.flush() {
            Ok(_) => {},
            Err(e) => {
                assert(taken(self.spi.journal()) =~= taken(j));
                assert(self.spi.journal() =~= j + seq![Event::Wait(false)]);
                return Err(e);
            },
        }
        assert(self.spi.journal() =~= j + waiting(replay(j).pending, true));
        let r = self.spi.transfer(buffer);
        proof {
            if r is Ok {
                assert(self.spi.journal() =~= j + waiting(replay(j).pending, true)
                    + seq![Event::Exchange(tx, buffer@)]);
                assert(taken(self.spi.journal()) =~= taken(j) + buffer@);
            } else {
                assert(self.spi.journal() =~= j + waiting(replay(j).pending, true)
                    + seq![Event::Failed]);
                assert(taken(self.spi.journal()) =~= taken(j));
            }
        }
        r
    }

    /// Closes the frame: waits for the chunk in flight, lets the bus settle,
    /// then deselects the panel, in this order. The panel is deselected and
    /// nothing is in flight also where the wait reports an error.
    pub fn release(self) -> (r: Result<(), SPI::Error>)
        requires
            old(self.spi).wf(),
        ensures
            final(self.spi).wf(),
            final(self.spi).journal() == old(self.spi).journal() + waiting(
                replay(old(self.spi).journal()).pending,
                r is Ok,
            ) + closing(),
            !replay(old(self.spi).journal()).pending ==> r is Ok,
            replay(final(self.spi).journal()) == (Wires {
                tft: false,
                pending: false,
                ..replay(old(self.spi).journal())
            }),
            sent(final(self.spi).journal()) == sent(old(self.spi).journal()),
            taken(final(self.spi).journal()) == taken(old(self.spi).journal()),
    {
        let ghost j = self.spi.journal();
        let result = self.spi.flush();
        assert(self.spi.journal() =~= j + waiting(replay(j).pending, result is Ok));
        self.spi.settle(SETTLE_CYCLES);
        self.spi.drive(Wire::Select(Target::Tft), self.cs, false);
        assert(self.spi.journal() =~= j + waiting(replay(j).pending, result is Ok) + closing());
        assert(sent(j) + Seq::<u8>::empty() =~= sent(j));
        assert(taken(self.spi.journal()) =~= taken(j));
        result
    }

    /// Streams the chunks in order and closes the frame. After a chunk that
    /// fails no further one is started. The panel is deselected when the
    /// function returns, whatever the outcome.
    pub fn write_all(self, chunks: Vec<SPI::DmaBuffer>) -> (r: Result<(), SPI::Error>)
        requires
            self.wf(),
        ensures
            final(self.spi).wf(),
            replay(final(self.spi).journal()) == (Wires {
                tft: false,
                pending: false,
                ..replay(old(self.spi).journal())
            }),
            old(self.spi).journal().is_prefix_of(final(self.spi).journal()),
            taken(final(self.spi).journal()) == taken(old(self.spi).journal()),
            r is Ok ==> sent(final(self.spi).journal()) == sent(old(self.spi).journal()) + joined(
                chunks@,
                chunks@.len() as int,
            ),
            r is Ok ==> final(self.spi).journal() == old(self.spi).journal() + streaming(
                replay(old(self.spi).journal()).pending,
                chunks@,
                chunks@.len() as int,
            ) + waiting(
                in_flight_after(
                    replay(old(self.spi).journal()).pending,
                    chunks@,
                    chunks@.len() as int,
                ),
                true,
            ) + closing(),
    {
        let ghost j = self.spi.journal();
        let ghost start = replay(j);
        let ghost all = chunks@;
        let mut w = self;
        let mut failure: Option<SPI::Error> = None;
        for chunk in it: chunks
            invariant
                it.seq() == all,
                w.wf(),
                *final(w.spi) == *final(self.spi),
                *final(w.cs) == *final(self.cs),
                j.is_prefix_of(w.spi.journal()),
                taken(w.spi.journal()) == taken(j),
                replay(w.spi.journal()) == (Wires {
                    pending: replay(w.spi.journal()).pending,
                    ..start
                }),
                failure is None ==> sent(w.spi.journal()) == sent(j) + joined(
                    all,
                    it.index() as int,
                ),
                failure is None ==> w.spi.journal() == j + streaming(
                    start.pending,
                    all,
                    it.index() as int,
                ),
                failure is None ==> replay(w.spi.journal()).pending == in_flight_after(
                    start.pending,
                    all,
                    it.index() as int,
                ),
        {
            if failure.is_none() {
                let ghost before = w.spi.journal();
                match w.write(chunk) {
                    Ok(_) => {
                        assert(sent(w.spi.journal()) =~= sent(j) + joined(
                            all,
                            it.index() as int + 1,
                        ));
                        assert(w.spi.journal() =~= j + streaming(
                            start.pending,
                            all,
                            it.index() as int + 1,
                        ));
                    },
                    Err(e) => {
                        failure = Some(e);
                    },
                }
                proof {
                    lemma_grown(j, before, Seq::empty());
                }
            }
        }
        let ghost streamed = w.spi.journal();
        let released = w.release();
        proof {
            lemma_grown(j, streamed, waiting(replay(streamed).pending, released is Ok) + closing());
            assert(streamed + waiting(replay(streamed).pending, released is Ok) + closing()
                =~= streamed + (waiting(replay(streamed).pending, released is Ok) + closing()));
        }
        match failure {
            Some(e) => Err(e),
            None => released,
        }
    }
}

} // verus!
