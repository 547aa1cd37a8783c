//! Sampling of the resistive touch controller.
//!
//! <https://ldm-systems.ru/f/doc/catalog/HY-TFT-2,8/XPT2046.pdf>

use crate::display::spi1::Target;
use crate::hal::{InputPin, OutputPin};
use crate::journal::{lemma_grown, replay, taken, taken_since, Event, Wire};
use crate::spi::SpiDmaWrite;
use vstd::prelude::*;
use vstd::slice::slice_subrange;

pub mod channels;
pub mod command;
pub mod read_commands;

use self::command::Command;
use self::read_commands::{pass, read_commands, PASS_COMMANDS, XY_READS};

verus! {

/// Resistance of the X plate in ohms.
pub const X_PLATE_OHMS: u32 = 400;

/// Added before the pressure is scaled down, so that it rounds to nearest.
pub const ROUNDING: u32 = 2047;

/// The strength reported for a contact without measurable pressure drop.
pub const MAX_SCALE: u32 = 1000;

/// The conversion result in a two-byte response: the first byte carries the
/// high bits, the top five bits of the second byte the low ones.
pub open spec fn spec_read_12bits(byte0: u8, byte1: u8) -> u16 {
    ((byte0 as u16) << 5u16) | ((byte1 as u16) >> 3u16)
}

/// The conversion result in the first two bytes of a response.
pub fn read_12bits(buf: &[u8]) -> (value: u16)
    requires
        buf@.len() >= 2,
    ensures
        value == spec_read_12bits(buf@[0], buf@[1]),
{
    ((buf[0] as u16) << 5) | ((buf[1] as u16) >> 3)
}

/// Distance of two readings.
pub open spec fn diff(x1: u16, x2: u16) -> int {
    if x1 < x2 {
        x2 - x1
    } else {
        x1 - x2
    }
}

/// Whether `(i, j)` comes before `(a, b)` when all pairs are scanned with
/// the first index outermost.
pub open spec fn scanned_before(i: int, j: int, a: int, b: int) -> bool {
    i < a || (i == a && j < b)
}

/// `(i, j)` is the pair of readings that are nearest to each other: no pair
/// is nearer, and every pair scanned before it is farther apart.
pub open spec fn is_nearest_pair(xs: Seq<u16>, i: int, j: int) -> bool {
    &&& 0 <= i < j < xs.len()
    &&& forall|a: int, b: int|
        0 <= a < b < xs.len() ==> diff(xs[i], xs[j]) <= #[trigger] diff(xs[a], xs[b])
    &&& forall|a: int, b: int|
        0 <= a < b < xs.len() && scanned_before(a, b, i, j) ==> diff(xs[i], xs[j])
            < #[trigger] diff(xs[a], xs[b])
}

/// The nearest pair of `xs`.
pub open spec fn nearest_pair(xs: Seq<u16>) -> (int, int) {
    choose|p: (int, int)| is_nearest_pair(xs, p.0, p.1)
}

/// The mean of the nearest pair, rounded down.
pub open spec fn spec_nearest_avg(xs: Seq<u16>) -> int {
    let (i, j) = nearest_pair(xs);
    (xs[i] + xs[j]) / 2
}

/// There is only one nearest pair.
pub proof fn lemma_nearest_pair_unique(xs: Seq<u16>, i: int, j: int, a: int, b: int)
    requires
        is_nearest_pair(xs, i, j),
        is_nearest_pair(xs, a, b),
    ensures
        i == a,
        j == b,
{
    if scanned_before(i, j, a, b) {
        assert(diff(xs[a], xs[b]) < diff(xs[i], xs[j]));
        assert(diff(xs[i], xs[j]) <= diff(xs[a], xs[b]));
    } else if scanned_before(a, b, i, j) {
        assert(diff(xs[i], xs[j]) < diff(xs[a], xs[b]));
        assert(diff(xs[a], xs[b]) <= diff(xs[i], xs[j]));
    }
}

/// A pair that is nearest is the one `nearest_pair` names.
pub proof fn lemma_nearest_pair_is(xs: Seq<u16>, i: int, j: int)
    requires
        is_nearest_pair(xs, i, j),
    ensures
        nearest_pair(xs) == (i, j),
        spec_nearest_avg(xs) == (xs[i] + xs[j]) / 2,
{
    let witness = (i, j);
    assert(is_nearest_pair(xs, witness.0, witness.1));
    let p = nearest_pair(xs);
    lemma_nearest_pair_unique(xs, i, j, p.0, p.1);
}

fn exec_diff(x1: u16, x2: u16) -> (d: u16)
    ensures
        d == diff(x1, x2),
{
    if x1 < x2 {
        x2 - x1
    } else {
        x1 - x2
    }
}

/// Mean of the two readings that are nearest to each other. Among pairs at
/// the same distance the one scanned first wins.
pub fn nearest_avg(xs: &[u16]) -> (avg: u16)
    requires
        xs@.len() >= 2,
    ensures
        avg == spec_nearest_avg(xs@),
        is_nearest_pair(xs@, nearest_pair(xs@).0, nearest_pair(xs@).1),
{
    let n = xs.len();
    let mut bi: usize = 0;
    let mut bj: usize = 1;
    let mut d: u16 = exec_diff(xs[0], xs[1]);

    let mut i: usize = 0;
    while i < n
        invariant
            n == xs@.len(),
            i <= n,
            bi < bj < n,
            d == diff(xs@[bi as int], xs@[bj as int]),
            forall|a: int, b: int|
                0 <= a < b < n && a < i ==> d <= #[trigger] diff(xs@[a], xs@[b]),
            forall|a: int, b: int|
                0 <= a < b < n && scanned_before(a, b, bi as int, bj as int) ==> d
                    < #[trigger] diff(xs@[a], xs@[b]),
            (bi == 0 && bj == 1) || bi < i,
        decreases n - i,
    {
        let mut j: usize = i + 1;
        while j < n
            invariant
                n == xs@.len(),
                i < n,
                i < j <= n,
                bi < bj < n,
                d == diff(xs@[bi as int], xs@[bj as int]),
                forall|a: int, b: int|
                    0 <= a < b < n && scanned_before(a, b, i as int, j as int) ==> d
                        <= #[trigger] diff(xs@[a], xs@[b]),
                forall|a: int, b: int|
                    0 <= a < b < n && scanned_before(a, b, bi as int, bj as int) ==> d
                        < #[trigger] diff(xs@[a], xs@[b]),
                (bi == 0 && bj == 1) || scanned_before(bi as int, bj as int, i as int, j as int),
            decreases n - j,
        {
            let dnew = exec_diff(xs[i], xs[j]);
            if dnew < d {
                bi = i;
                bj = j;
                d = dnew;
            }
            j += 1;
        }
        i += 1;
    }
    proof {
        lemma_nearest_pair_is(xs@, bi as int, bj as int);
    }
    ((xs[bi] as u32 + xs[bj] as u32) / 2) as u16
}

/// Pressure on the panel from the X position and the two cross-plate
/// readings, scaled down by 4096 (twelve bits) and rounded to nearest.
/// Without a contact to measure (no X reading, no Z1 reading, or Z2 below
/// Z1) the pressure is 0.
pub open spec fn spec_pressure(x: u16, z1: u16, z2: u16) -> int {
    if x > 0 && z1 > 0 && z2 >= z1 {
        (((z2 - z1) * x * X_PLATE_OHMS) / (z1 as int) + ROUNDING) / 4096
    } else {
        0
    }
}

/// Touch strength: `MAX_SCALE` less the pressure, and 0 where the pressure is
/// larger. Larger values mean harder contact.
pub open spec fn spec_strength(x: u16, z1: u16, z2: u16) -> int {
    if spec_pressure(x, z1, z2) <= MAX_SCALE {
        MAX_SCALE - spec_pressure(x, z1, z2)
    } else {
        0
    }
}

/// Pressure on the panel, in 64-bit arithmetic so that nothing overflows.
pub fn pressure(x: u16, z1: u16, z2: u16) -> (z: u32)
    ensures
        z == spec_pressure(x, z1, z2),
{
    if x > 0 && z1 > 0 && z2 >= z1 {
        let dz: u64 = (z2 - z1) as u64;
        assert(dz * (x as u64) <= 65535 * 65535) by (nonlinear_arith)
            requires
                dz <= 65535,
                x <= 65535,
        ;
        let area: u64 = dz * (x as u64);
        let plate: u64 = area * (X_PLATE_OHMS as u64);
        assert(plate <= 65535 * 65535 * 400);
        let quotient: u64 = plate / (z1 as u64);
        assert(quotient <= plate) by (nonlinear_arith)
            requires
                quotient == plate / (z1 as u64),
                z1 >= 1,
        ;
        let scaled: u64 = quotient + (ROUNDING as u64);
        assert(scaled >> 12u64 == scaled / 4096) by (bit_vector);
        assert(plate == (z2 - z1) * x * X_PLATE_OHMS);
        (scaled >> 12) as u32
    } else {
        0
    }
}

/// Touch strength.
pub fn strength(x: u16, z1: u16, z2: u16) -> (s: u16)
    ensures
        s == spec_strength(x, z1, z2),
{
    let z = pressure(x, z1, z2);
    if z <= MAX_SCALE {
        (MAX_SCALE - z) as u16
    } else {
        0
    }
}

/// The control byte of command `pos`, and 0 (no operation) past the end.
pub open spec fn command_byte(commands: Seq<Command>, pos: int) -> u8 {
    if 0 <= pos < commands.len() {
        commands[pos].byte()
    } else {
        0
    }
}

/// Whether command `pos` asks for an 8-bit conversion.
pub open spec fn command_mode(commands: Seq<Command>, pos: int) -> bool {
    if 0 <= pos < commands.len() {
        commands[pos].mode
    } else {
        false
    }
}

/// The position behind command `pos`, and `pos` itself past the end.
pub open spec fn next_pos(commands: Seq<Command>, pos: int) -> int {
    if pos < commands.len() {
        pos + 1
    } else {
        pos
    }
}

/// What one exchange sends: the next control byte, behind a padding byte
/// where the response being fetched is a two-byte one.
pub open spec fn frame(read_mode: bool, next: u8) -> Seq<u8> {
    if read_mode {
        seq![next]
    } else {
        seq![0u8, next]
    }
}

/// The value in what one exchange took in.
pub open spec fn decode(read_mode: bool, rx: Seq<u8>) -> u16 {
    if read_mode {
        rx[0] as u16
    } else {
        spec_read_12bits(rx[0], rx[1])
    }
}

/// How a run begins: the controller is selected and takes the first
/// control byte.
pub open spec fn beginning(first: u8) -> Seq<Event> {
    seq![Event::Drive(Wire::Select(Target::Ts), true), Event::Write(seq![first])]
}

/// How beginning a run ends where the bus turns the first byte down: the
/// controller is deselected again.
pub open spec fn refused_beginning() -> Seq<Event> {
    seq![
        Event::Drive(Wire::Select(Target::Ts), true),
        Event::Failed,
        Event::Drive(Wire::Select(Target::Ts), false),
    ]
}

/// One step of a run: the controller is waited for, then `tx` goes out
/// while `rx` comes in.
pub open spec fn fetch(tx: Seq<u8>, rx: Seq<u8>) -> Seq<Event> {
    seq![Event::Ready, Event::Exchange(tx, rx)]
}

/// A step of a run that the bus turns down.
pub open spec fn refused_fetch() -> Seq<Event> {
    seq![Event::Ready, Event::Failed]
}

/// The touch controller on the bus, not selected.
pub struct Ts<'a, SPI: SpiDmaWrite, CS: OutputPin, Busy: InputPin> {
    pub spi: &'a mut SPI,
    pub cs: &'a mut CS,
    pub busy: &'a mut Busy,
}

/// A run of conversions in progress. Each exchange sends the next control
/// byte while it fetches the response to the previous one.
pub struct ReadIter<'a, SPI: SpiDmaWrite, CS: OutputPin, Busy: InputPin> {
    pub commands: Vec<Command>,
    /// Index of the next command to send.
    pub pos: usize,
    pub spi: &'a mut SPI,
    pub cs: &'a mut CS,
    pub busy: &'a mut Busy,
    pub ended: bool,
    /// Whether the response to fetch next is an 8-bit one.
    pub read_mode: bool,
}

impl<'a, SPI: SpiDmaWrite, CS: OutputPin, Busy: InputPin> Ts<'a, SPI, CS, Busy> {
    /// The bus is in good standing, nothing is in flight on it and no
    /// device is selected.
    pub open spec fn wf(&self) -> bool {
        &&& self.spi.wf()
        &&& replay(self.spi.journal()).quiet()
        &&& !replay(self.spi.journal()).pending
    }

    /// Selects the controller and sends the first control byte. Where the
    /// bus turns it down the controller is deselected again.
    pub fn read_many(self, commands: Vec<Command>) -> (r: Result<
        ReadIter<'a, SPI, CS, Busy>,
        SPI::Error,
    >)
        requires
            self.wf(),
        ensures
            match r {
                Ok(it) => {
                    &&& it.wf()
                    &&& it.commands@ == commands@
                    &&& it.pos == next_pos(commands@, 0)
                    &&& !it.ended
                    &&& !it.read_mode
                    &&& it.spi.journal() == old(self.spi).journal() + beginning(
                        command_byte(commands@, 0),
                    )
                    &&& replay(it.spi.journal()) == replay(old(self.spi).journal()).select(
                        Target::Ts,
                        true,
                    )
                    &&& taken(it.spi.journal()) == taken(old(self.spi).journal())
                    &&& *final(it.spi) == *final(self.spi)
                },
                Err(_) => {
                    &&& final(self.spi).wf()
                    &&& final(self.spi).journal() == old(self.spi).journal() + refused_beginning()
                    &&& replay(final(self.spi).journal()) == replay(old(self.spi).journal())
                },
            },
    {
        let ghost j = self.spi.journal();
        self.spi.drive(Wire::Select(Target::Ts), self.cs, true);

        let next_cmd: u8 = if commands.len() > 0 {
            u8::from(commands[0])
        } else {
            0
        };
        let pos: usize = if commands.len() > 0 {
            1
        } else {
            0
        };
        let buf = [next_cmd];
        assert(buf@ =~= seq![command_byte(commands@, 0)]);
        match self.spi.write_sync(buf.as_slice()) {
            Ok(_) => {
                assert(self.spi.journal() =~= j + beginning(command_byte(commands@, 0)));
                assert(taken(self.spi.journal()) =~= taken(j));
                Ok(
                    ReadIter {
                        commands,
                        pos,
                        spi: self.spi,
                        cs: self.cs,
                        busy: self.busy,
                        ended: false,
                        read_mode: false,
                    },
                )
            },
            Err(e) => {
                self.spi.drive(Wire::Select(Target::Ts), self.cs, false);
                assert(self.spi.journal() =~= j + refused_beginning());
                Err(e)
            },
        }
    }
}

impl<'a, SPI: SpiDmaWrite, CS: OutputPin, Busy: InputPin> ReadIter<'a, SPI, CS, Busy> {
    /// The run can go on: the position is within the commands, the bus is
    /// in good standing with nothing in flight, and the controller is
    /// selected, and no other device.
    pub open spec fn wf(&self) -> bool {
        &&& self.pos <= self.commands@.len()
        &&& self.spi.wf()
        &&& replay(self.spi.journal()).only(Target::Ts)
        &&& !replay(self.spi.journal()).pending
    }

    /// Fetches the next response, or `None` once the run has ended. The
    /// exchange after the last command only fetches; an error ends the run.
    pub fn next(&mut self) -> (item: Option<Result<u16, SPI::Error>>)
        requires
            old(self).wf(),
        ensures
            final(self).wf(),
            final(self).commands == old(self).commands,
            *final(final(self).spi) == *final(old(self).spi),
            *final(final(self).cs) == *final(old(self).cs),
            *final(final(self).busy) == *final(old(self).busy),
            replay(final(self).spi.journal()) == replay(old(self).spi.journal()),
            item is None <==> old(self).ended,
            item is None ==> {
                &&& final(self).ended
                &&& final(self).pos == old(self).pos
                &&& final(self).read_mode == old(self).read_mode
                &&& final(self).spi.journal() == old(self).spi.journal()
            },
            item is Some ==> {
                &&& final(self).pos == next_pos(old(self).commands@, old(self).pos as int)
                &&& final(self).ended == (old(self).pos >= old(self).commands@.len() || item->0
                    is Err)
            },
            item matches Some(Ok(value)) ==> ({
                let rx = taken_since(old(self).spi.journal(), final(self).spi.journal());
                let next = command_byte(old(self).commands@, old(self).pos as int);
                &&& final(self).spi.journal() == old(self).spi.journal() + fetch(
                    frame(old(self).read_mode, next),
                    rx,
                )
                &&& taken(final(self).spi.journal()) == taken(old(self).spi.journal()) + rx
                &&& rx.len() == frame(old(self).read_mode, next).len()
                &&& value == decode(old(self).read_mode, rx)
                &&& final(self).read_mode == command_mode(old(self).commands@, old(self).pos as int)
            }),
            item matches Some(Err(_)) ==> {
                &&& final(self).spi.journal() == old(self).spi.journal() + refused_fetch()
                &&& taken(final(self).spi.journal()) == taken(old(self).spi.journal())
            },
    {
        if self.ended {
            return None;
        }
        let ghost j = self.spi.journal();
        let mut next_mode = false;
        let next_cmd: u8 = if self.pos < self.commands.len() {
            let command = self.commands[self.pos];
            next_mode = command.mode;
            self.pos += 1;
            u8::from(command)
        } else {
            self.ended = true;
            0
        };

        self.spi.wait_ready(self.busy);
        let result = if !self.read_mode {
            let mut buf = [0u8, next_cmd];
            assert(buf@ =~= frame(false, next_cmd));
            match self.spi.transfer(&mut buf) {
                Ok(_) => {
                    proof {
                        assert(taken(self.spi.journal()) =~= taken(j) + buf@);
                        assert(taken_since(j, self.spi.journal()) =~= buf@);
                        assert(self.spi.journal() =~= j + fetch(frame(false, next_cmd), buf@));
                    }
                    Ok(read_12bits(buf.as_slice()))
                },
                Err(e) => Err(e),
            }
        } else {
            let mut buf = [next_cmd];
            assert(buf@ =~= frame(true, next_cmd));
            match self.spi.transfer(&mut buf) {
                Ok(_) => {
                    proof {
                        assert(taken(self.spi.journal()) =~= taken(j) + buf@);
                        assert(taken_since(j, self.spi.journal()) =~= buf@);
                        assert(self.spi.journal() =~= j + fetch(frame(true, next_cmd), buf@));
                    }
                    Ok(buf[0] as u16)
                },
                Err(e) => Err(e),
            }
        };
        match result {
            Ok(r) => {
                self.read_mode = next_mode;
                Some(Ok(r))
            },
            Err(e) => {
                self.ended = true;
                assert(self.spi.journal() =~= j + refused_fetch());
                assert(taken(self.spi.journal()) =~= taken(j));
                Some(Err(e))
            },
        }
    }

    /// Deselects the controller.
    pub fn release(self)
        requires
            old(self.spi).wf(),
            !replay(old(self.spi).journal()).pending,
        ensures
            final(self.spi).wf(),
            final(self.spi).journal() == old(self.spi).journal().push(
                Event::Drive(Wire::Select(Target::Ts), false),
            ),
            replay(final(self.spi).journal()) == replay(old(self.spi).journal()).select(
                Target::Ts,
                false,
            ),
            taken(final(self.spi).journal()) == taken(old(self.spi).journal()),
            *final(self.busy) == *old(self.busy),
    {
        self.spi.drive(Wire::Select(Target::Ts), self.cs, false);
        assert(taken(final(self.spi).journal()) =~= taken(old(self.spi).journal()));
    }
}

/// The `k`-th conversion result in what a pass took in.
pub open spec fn sample(rx: Seq<u8>, k: int) -> u16 {
    spec_read_12bits(rx[2 * k], rx[2 * k + 1])
}

/// The conversion results in what a pass took in, in the order of the
/// commands.
pub open spec fn readings(rx: Seq<u8>) -> Seq<u16> {
    Seq::new(PASS_COMMANDS as nat, |k: int| sample(rx, k))
}

/// The readings of one position channel among those of a pass: `first` is
/// 0 for X and 1 for Y.
pub open spec fn channel_samples(samples: Seq<u16>, first: int) -> Seq<u16> {
    Seq::new(XY_READS as nat, |i: int| samples[2 * i + first])
}

/// Position and touch strength from the readings of a pass. The first
/// reading of each position channel is left out; the position is the mean of
/// the nearest two of the others.
pub open spec fn spec_reduce_pass(samples: Seq<u16>) -> (u16, u16, u16) {
    let x = spec_nearest_avg(channel_samples(samples, 0).skip(1)) as u16;
    let y = spec_nearest_avg(channel_samples(samples, 1).skip(1)) as u16;
    let z1 = samples[2 * XY_READS as int];
    let z2 = samples[2 * XY_READS as int + 1];
    (x, y, spec_strength(x, z1, z2) as u16)
}

/// Position and touch strength from what a pass took in.
pub open spec fn reading(rx: Seq<u8>) -> (u16, u16, u16) {
    spec_reduce_pass(readings(rx))
}

/// Reduces the readings of a pass to position and touch strength.
pub fn reduce_pass(samples: &[u16]) -> (values: (u16, u16, u16))
    requires
        samples@.len() == PASS_COMMANDS,
    ensures
        values == spec_reduce_pass(samples@),
{
    let mut xs: Vec<u16> = Vec::new();
    let mut ys: Vec<u16> = Vec::new();
    let mut i: usize = 0;
    while i < XY_READS
        invariant
            i <= XY_READS,
            samples@.len() == PASS_COMMANDS,
            xs@.len() == i,
            ys@.len() == i,
            forall|k: int| 0 <= k < i ==> xs@[k] == samples@[2 * k],
            forall|k: int| 0 <= k < i ==> ys@[k] == samples@[2 * k + 1],
        decreases XY_READS - i,
    {
        xs.push(samples[2 * i]);
        ys.push(samples[2 * i + 1]);
        i += 1;
    }
    assert(xs@ =~= channel_samples(samples@, 0));
    assert(ys@ =~= channel_samples(samples@, 1));
    assert(xs@.subrange(1, XY_READS as int) =~= xs@.skip(1));
    assert(ys@.subrange(1, XY_READS as int) =~= ys@.skip(1));
    let x = nearest_avg(slice_subrange(xs.as_slice(), 1, XY_READS));
    let y = nearest_avg(slice_subrange(ys.as_slice(), 1, XY_READS));
    let z1 = samples[2 * XY_READS];
    let z2 = samples[2 * XY_READS + 1];
    (x, y, strength(x, z1, z2))
}

/// The steps of a pass in which `k` responses were fetched, `rx` being all
/// that they took in: each step waits for the controller, then sends a
/// padding byte and the control byte that follows (0 behind the last) while
/// two bytes of the response come in.
pub open spec fn fetched(rx: Seq<u8>, k: int) -> Seq<Event> {
    Seq::new(
        (2 * k) as nat,
        |i: int|
            if i % 2 == 0 {
                Event::Ready
            } else {
                Event::Exchange(
                    seq![0u8, command_byte(pass(), i / 2 + 1)],
                    rx.subrange(2 * (i / 2), 2 * (i / 2) + 2),
                )
            },
    )
}

/// A whole pass that took in `rx`.
pub open spec fn pass_trace(rx: Seq<u8>) -> Seq<Event> {
    beginning(command_byte(pass(), 0)) + fetched(rx, PASS_COMMANDS as int) + seq![
        Event::Drive(Wire::Select(Target::Ts), false),
    ]
}

/// A pass that the bus turns down after `k` responses were fetched: the
/// controller is deselected at once.
pub open spec fn broken_pass(rx: Seq<u8>, k: int) -> Seq<Event> {
    beginning(command_byte(pass(), 0)) + fetched(rx, k) + refused_fetch() + seq![
        Event::Drive(Wire::Select(Target::Ts), false),
    ]
}

/// What a pass that fails leaves in the record: the refused beginning, or a
/// pass broken after some of its responses.
pub open spec fn refused_pass(before: Seq<Event>, after: Seq<Event>) -> bool {
    ||| after == before + refused_beginning()
    ||| exists|k: int|
        0 <= k < PASS_COMMANDS && after == before + #[trigger] broken_pass(
            taken_since(before, after),
            k,
        )
}

proof fn lemma_fetched_step(rx: Seq<u8>, k: int, more: Seq<u8>)
    requires
        0 <= k,
        rx.len() == 2 * k,
        more.len() == 2,
    ensures
        fetched(rx + more, k + 1) == fetched(rx, k) + fetch(
            seq![0u8, command_byte(pass(), k + 1)],
            more,
        ),
{
    let left = fetched(rx + more, k + 1);
    let right = fetched(rx, k) + fetch(seq![0u8, command_byte(pass(), k + 1)], more);
    assert(left.len() == right.len());
    assert forall|i: int| 0 <= i < left.len() implies left[i] == right[i] by {
        if i % 2 == 1 {
            if i < 2 * k {
                assert((rx + more).subrange(2 * (i / 2), 2 * (i / 2) + 2) =~= rx.subrange(
                    2 * (i / 2),
                    2 * (i / 2) + 2,
                ));
            } else {
                assert(i == 2 * k + 1);
                assert((rx + more).subrange(2 * (i / 2), 2 * (i / 2) + 2) =~= more);
            }
        }
    }
    assert(left =~= right);
}

impl<'a, SPI: SpiDmaWrite, CS: OutputPin, Busy: InputPin> Ts<'a, SPI, CS, Busy> {
    /// Runs one sampling pass and reduces it to position and touch strength.
    /// The controller is deselected when the function returns, whatever the
    /// outcome.
    pub fn read_values(self) -> (r: Result<(u16, u16, u16), SPI::Error>)
        requires
            self.wf(),
        ensures
            final(self.spi).wf(),
            replay(final(self.spi).journal()) == replay(old(self.spi).journal()),
            old(self.spi).journal().is_prefix_of(final(self.spi).journal()),
            r matches Ok(values) ==> ({
                let rx = taken_since(old(self.spi).journal(), final(self.spi).journal());
                &&& rx.len() == 2 * PASS_COMMANDS
                &&& final(self.spi).journal() == old(self.spi).journal() + pass_trace(rx)
                &&& taken(final(self.spi).journal()) == taken(old(self.spi).journal()) + rx
                &&& values == reading(rx)
            }),
            r is Err ==> refused_pass(old(self.spi).journal(), final(self.spi).journal()),
    {
        let ghost j = self.spi.journal();
        let mut commands = read_commands();
        let commands = commands.collect();
        let mut it = match self.read_many(commands) {
            Ok(it) => it,
            Err(e) => {
                proof {
                    lemma_grown(j, j, refused_beginning());
                }
                return Err(e);
            },
        };
        let ghost begun = j + beginning(command_byte(pass(), 0));
        proof {
            lemma_grown(j, j, beginning(command_byte(pass(), 0)));
            assert(begun + fetched(Seq::empty(), 0) =~= begun);
            assert(taken_since(j, it.spi.journal()) =~= Seq::<u8>::empty());
            assert(taken(j) + Seq::<u8>::empty() =~= taken(j));
        }

        let mut samples: Vec<u16> = Vec::new();
        let mut failure: Option<SPI::Error> = None;
        while samples.len() < PASS_COMMANDS
            invariant_except_break
                failure is None,
                it.pos == (if samples@.len() + 1 <= PASS_COMMANDS {
                    samples@.len() as int + 1
                } else {
                    PASS_COMMANDS as int
                }),
                it.ended == (samples@.len() >= PASS_COMMANDS),
                !it.read_mode,
                it.spi.journal() == begun + fetched(
                    taken_since(j, it.spi.journal()),
                    samples@.len() as int,
                ),
                taken(it.spi.journal()) == taken(j) + taken_since(j, it.spi.journal()),
                taken_since(j, it.spi.journal()).len() == 2 * samples@.len(),
                forall|k: int|
                    0 <= k < samples@.len() ==> samples@[k] == sample(
                        taken_since(j, it.spi.journal()),
                        k,
                    ),
            invariant
                it.wf(),
                it.commands@ == pass(),
                *final(it.spi) == *final(self.spi),
                replay(it.spi.journal()) == replay(j).select(Target::Ts, true),
                j.is_prefix_of(it.spi.journal()),
                begun == j + beginning(command_byte(pass(), 0)),
                samples@.len() <= PASS_COMMANDS,
            ensures
                it.wf(),
                *final(it.spi) == *final(self.spi),
                replay(it.spi.journal()) == replay(j).select(Target::Ts, true),
                j.is_prefix_of(it.spi.journal()),
                failure is Some ==> {
                    &&& samples@.len() < PASS_COMMANDS
                    &&& it.spi.journal() == begun + fetched(
                        taken_since(j, it.spi.journal()),
                        samples@.len() as int,
                    ) + refused_fetch()
                },
                failure is None ==> {
                    &&& samples@.len() == PASS_COMMANDS
                    &&& it.spi.journal() == begun + fetched(
                        taken_since(j, it.spi.journal()),
                        PASS_COMMANDS as int,
                    )
                    &&& taken(it.spi.journal()) == taken(j) + taken_since(j, it.spi.journal())
                    &&& taken_since(j, it.spi.journal()).len() == 2 * PASS_COMMANDS
                    &&& forall|k: int|
                        0 <= k < PASS_COMMANDS ==> samples@[k] == sample(
                            taken_since(j, it.spi.journal()),
                            k,
                        )
                },
            decreases PASS_COMMANDS - samples@.len(),
        {
            let ghost before = it.spi.journal();
            let ghost had = taken_since(j, before);
            let ghost k = samples@.len() as int;
            match it.next() {
                Some(Ok(value)) => {
                    samples.push(value);
                    proof {
                        let rx = taken_since(before, it.spi.journal());
                        let tx = seq![0u8, command_byte(pass(), k + 1)];
                        lemma_grown(j, before, fetch(tx, rx));
                        lemma_fetched_step(had, k, rx);
                        assert(taken(it.spi.journal()) =~= taken(j) + (had + rx));
                        assert(taken_since(j, it.spi.journal()) =~= had + rx);
                        assert(it.spi.journal() =~= begun + (fetched(had, k) + fetch(tx, rx)));
                        assert(sample(had + rx, k) == value);
                        assert forall|m: int| 0 <= m < k implies sample(had + rx, m) == sample(
                            had,
                            m,
                        ) by {}
                    }
                },
                Some(Err(e)) => {
                    proof {
                        lemma_grown(j, before, refused_fetch());
                        assert(taken_since(j, it.spi.journal()) =~= had);
                    }
                    failure = Some(e);
                    break ;
                },
                None => vstd::pervasive::unreached(),
            }
        }
        let ghost run = it.spi.journal();
        it.release();
        proof {
            lemma_grown(j, run, Seq::empty());
            assert(taken_since(j, final(self.spi).journal()) =~= taken_since(j, run));
        }

        match failure {
            Some(e) => {
                proof {
                    let rx = taken_since(j, final(self.spi).journal());
                    let k = samples@.len() as int;
                    assert(final(self.spi).journal() =~= j + broken_pass(rx, k));
                }
                Err(e)
            },
            None => {
                proof {
                    let rx = taken_since(j, final(self.spi).journal());
                    assert(samples@ =~= readings(rx));
                    assert(final(self.spi).journal() =~= j + pass_trace(rx));
                }
                Ok(reduce_pass(samples.as_slice()))
            },
        }
    }
}

} // verus!
