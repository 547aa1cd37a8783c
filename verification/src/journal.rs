//! The record of what the drivers ask of the hardware, and the rules that
//! every such record obeys.
//!
//! Each request to the bus, to a line or to a delay is one [`Event`]. A bus
//! keeps the events in the order in which they were made; [`replay`] tells
//! from them how the lines stand, and [`orderly`] whether every event kept to
//! the rules of the shared bus when it was made.

use crate::display::spi1::Target;
use embedded_hal::spi::Mode;
use vstd::prelude::*;

verus! {

/// The outputs the drivers drive.
#[derive(Debug, Clone, Copy, PartialEq, Eq, Structural)]
pub enum Wire {
    /// The chip-select of a device. Low selects.
    Select(Target),
    /// The panel's data/command select. Low marks a command.
    DataCommand,
}

/// One request to the hardware.
pub enum Event {
    /// A line was driven; `true` for low.
    Drive(Wire, bool),
    /// The bus took a clock speed in MHz and a signal mode.
    Configure(u32, Mode),
    /// A blocking write of these bytes.
    Write(Seq<u8>),
    /// A blocking exchange: the bytes sent, then the bytes taken in.
    Exchange(Seq<u8>, Seq<u8>),
    /// A background write of these bytes was started.
    Start(Seq<u8>),
    /// The background write was waited for; `true` where the wait reported
    /// success. Either way nothing is in flight afterwards.
    Wait(bool),
    /// The bus rested for so many core cycles.
    Settle(u32),
    /// A pause of so many milliseconds.
    Pause(u16),
    /// The touch controller's busy line was waited for to go low.
    Ready,
    /// The touch screen's pen line was read; `true` for low, the pen down.
    Pen(bool),
    /// The bus turned a request down. As far as the record goes nothing has
    /// changed: no bytes count as moved, and the setup counts as it was.
    Failed,
}

impl Event {
    /// The bytes the event put on the bus.
    pub open spec fn tx(self) -> Seq<u8> {
        match self {
            Event::Write(bytes) => bytes,
            Event::Exchange(bytes, _) => bytes,
            Event::Start(bytes) => bytes,
            _ => Seq::empty(),
        }
    }

    /// The bytes the event took from the bus.
    pub open spec fn rx(self) -> Seq<u8> {
        match self {
            Event::Exchange(_, bytes) => bytes,
            _ => Seq::empty(),
        }
    }

    /// Whether the event moves bytes over the bus.
    pub open spec fn moves_bytes(self) -> bool {
        self is Write || self is Exchange || self is Start
    }
}

/// How the board stands as far as the drivers have driven it.
pub struct Wires {
    /// The panel is selected.
    pub tft: bool,
    /// The touch controller is selected.
    pub ts: bool,
    /// The card slot is selected.
    pub sd: bool,
    /// The data/command line is low.
    pub dc: bool,
    /// A background write was started and not waited for since.
    pub pending: bool,
    /// Clock speed in MHz and signal mode of the bus, once it has any.
    pub config: Option<(u32, Mode)>,
}

impl Wires {
    /// Whether the device is selected.
    pub open spec fn low(self, target: Target) -> bool {
        match target {
            Target::Tft => self.tft,
            Target::Ts => self.ts,
            Target::Sd => self.sd,
        }
    }

    /// How many devices are selected.
    pub open spec fn selected(self) -> nat {
        (if self.tft {
            1nat
        } else {
            0nat
        }) + (if self.ts {
            1nat
        } else {
            0nat
        }) + (if self.sd {
            1nat
        } else {
            0nat
        })
    }

    /// No device is selected.
    pub open spec fn quiet(self) -> bool {
        !self.tft && !self.ts && !self.sd
    }

    /// The device is selected and no other.
    pub open spec fn only(self, target: Target) -> bool {
        self.low(target) && self.selected() == 1
    }

    /// The board with the device selected or deselected.
    pub open spec fn select(self, target: Target, low: bool) -> Wires {
        match target {
            Target::Tft => Wires { tft: low, ..self },
            Target::Ts => Wires { ts: low, ..self },
            Target::Sd => Wires { sd: low, ..self },
        }
    }

    /// The rules of the shared bus. A device is selected only while no
    /// other is. It is deselected only once the background write to it is
    /// through. The bus takes a new setup only while no device is selected.
    /// Bytes move only to exactly one selected device, and never beside a
    /// background write.
    pub open spec fn allows(self, e: Event) -> bool {
        match e {
            Event::Drive(Wire::Select(target), true) => self.select(target, false).quiet(),
            Event::Drive(Wire::Select(target), false) => !(self.pending && self.low(target)),
            Event::Configure(_, _) => self.quiet() && !self.pending,
            Event::Write(_) => self.selected() == 1 && !self.pending,
            Event::Exchange(_, _) => self.selected() == 1 && !self.pending,
            Event::Start(_) => self.selected() == 1 && !self.pending,
            _ => true,
        }
    }

    /// The board after the event.
    pub open spec fn step(self, e: Event) -> Wires {
        match e {
            Event::Drive(Wire::Select(target), low) => self.select(target, low),
            Event::Drive(Wire::DataCommand, low) => Wires { dc: low, ..self },
            Event::Configure(mhz, mode) => Wires { config: Some((mhz, mode)), ..self },
            Event::Start(_) => Wires { pending: true, ..self },
            Event::Wait(_) => Wires { pending: false, ..self },
            _ => self,
        }
    }
}

/// The board before the drivers touch it: nothing driven, nothing in flight,
/// the bus not set up.
pub open spec fn power_up() -> Wires {
    Wires { tft: false, ts: false, sd: false, dc: false, pending: false, config: None }
}

/// The board after the events.
pub open spec fn replay(journal: Seq<Event>) -> Wires
    decreases journal.len(),
{
    if journal.len() == 0 {
        power_up()
    } else {
        replay(journal.drop_last()).step(journal.last())
    }
}

/// Every event kept to the rules when it was made.
pub open spec fn orderly(journal: Seq<Event>) -> bool
    decreases journal.len(),
{
    if journal.len() == 0 {
        true
    } else {
        orderly(journal.drop_last()) && replay(journal.drop_last()).allows(journal.last())
    }
}

/// Every byte the events put on the bus, in order.
pub open spec fn sent(journal: Seq<Event>) -> Seq<u8>
    decreases journal.len(),
{
    if journal.len() == 0 {
        Seq::empty()
    } else {
        sent(journal.drop_last()) + journal.last().tx()
    }
}

/// Every byte the events took from the bus, in order.
pub open spec fn taken(journal: Seq<Event>) -> Seq<u8>
    decreases journal.len(),
{
    if journal.len() == 0 {
        Seq::empty()
    } else {
        taken(journal.drop_last()) + journal.last().rx()
    }
}

/// What `after` took from the bus since `before`.
pub open spec fn taken_since(before: Seq<Event>, after: Seq<Event>) -> Seq<u8> {
    taken(after).skip(taken(before).len() as int)
}

/// `after` is `before` with one more event, and everything told from the
/// record has moved on by that event.
pub open spec fn logged(before: Seq<Event>, after: Seq<Event>, e: Event) -> bool {
    &&& after == before.push(e)
    &&& replay(after) == replay(before).step(e)
    &&& orderly(after) == (orderly(before) && replay(before).allows(e))
    &&& sent(after) == sent(before) + e.tx()
    &&& taken(after) == taken(before) + e.rx()
}

/// One more event moves the record on as `logged` says.
pub proof fn lemma_logged(before: Seq<Event>, e: Event)
    ensures
        logged(before, before.push(e), e),
{
    assert(before.push(e).drop_last() =~= before);
}

/// A record that grew kept what it held.
pub proof fn lemma_grown(before: Seq<Event>, after: Seq<Event>, last: Seq<Event>)
    requires
        before.is_prefix_of(after),
    ensures
        before.is_prefix_of(after + last),
        before.is_prefix_of(before),
        forall|e: Event| #[trigger] before.is_prefix_of(after.push(e)),
{
    assert(before =~= (after + last).subrange(0, before.len() as int));
    assert(before =~= before.subrange(0, before.len() as int));
    assert forall|e: Event| #[trigger] before.is_prefix_of(after.push(e)) by {
        assert(before =~= after.push(e).subrange(0, before.len() as int));
    }
}

/// What a record kept while it grew it keeps as it grows on.
pub proof fn lemma_grown_on(before: Seq<Event>, between: Seq<Event>, after: Seq<Event>)
    requires
        before.is_prefix_of(between),
        between.is_prefix_of(after),
    ensures
        before.is_prefix_of(after),
{
    assert(before =~= after.subrange(0, before.len() as int));
}

/// The record of an empty past.
pub proof fn lemma_empty()
    ensures
        replay(Seq::empty()) == power_up(),
        orderly(Seq::empty()),
        sent(Seq::empty()) == Seq::<u8>::empty(),
        taken(Seq::empty()) == Seq::<u8>::empty(),
{
}

/// An orderly record was orderly all along.
pub proof fn lemma_orderly_prefix(journal: Seq<Event>, k: int)
    requires
        orderly(journal),
        0 <= k <= journal.len(),
    ensures
        orderly(journal.take(k)),
    decreases journal.len(),
{
    if k == journal.len() {
        assert(journal.take(k) =~= journal);
    } else {
        assert(journal.drop_last().take(k) =~= journal.take(k));
        lemma_orderly_prefix(journal.drop_last(), k);
    }
}

/// After an orderly record at most one device is selected, and a
/// background write is in flight only to a selected device.
pub proof fn lemma_orderly_now(journal: Seq<Event>)
    requires
        orderly(journal),
    ensures
        replay(journal).selected() <= 1,
        replay(journal).pending ==> replay(journal).selected() == 1,
    decreases journal.len(),
{
    if journal.len() > 0 {
        lemma_orderly_now(journal.drop_last());
    }
}

/// Exclusive selection: at no point of an orderly record is more than one
/// device selected.
pub proof fn law_exclusive(journal: Seq<Event>, k: int)
    requires
        orderly(journal),
        0 <= k <= journal.len(),
    ensures
        replay(journal.take(k)).selected() <= 1,
{
    lemma_orderly_prefix(journal, k);
    lemma_orderly_now(journal.take(k));
}

/// A change of setup finds every device deselected: in an orderly record no
/// device is selected when the bus is set up, so that the device the bus is
/// set up for is selected only afterwards.
pub proof fn law_setup_deselected(journal: Seq<Event>, k: int)
    requires
        orderly(journal),
        0 <= k < journal.len(),
        journal[k] is Configure,
    ensures
        replay(journal.take(k)).quiet(),
{
    lemma_orderly_prefix(journal, k + 1);
    assert(journal.take(k + 1).drop_last() =~= journal.take(k));
}

/// One transfer in flight: in an orderly record a background write starts
/// only when none is in flight, and bytes move otherwise only when none is.
pub proof fn law_one_in_flight(journal: Seq<Event>, k: int)
    requires
        orderly(journal),
        0 <= k < journal.len(),
        journal[k].moves_bytes(),
    ensures
        !replay(journal.take(k)).pending,
        replay(journal.take(k)).selected() == 1,
{
    lemma_orderly_prefix(journal, k + 1);
    assert(journal.take(k + 1).drop_last() =~= journal.take(k));
}

/// No release in mid-flight: in an orderly record a device is deselected
/// only when no background write to it is in flight.
pub proof fn law_release_after_wait(journal: Seq<Event>, k: int, target: Target)
    requires
        orderly(journal),
        0 <= k < journal.len(),
        journal[k] == Event::Drive(Wire::Select(target), false),
        replay(journal.take(k)).low(target),
    ensures
        !replay(journal.take(k)).pending,
{
    lemma_orderly_prefix(journal, k + 1);
    assert(journal.take(k + 1).drop_last() =~= journal.take(k));
}

} // verus!
