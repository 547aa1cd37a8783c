//! The fixed command sequence of one sampling pass.

use crate::display::xpt2046::channels;
use crate::display::xpt2046::command::Command;
use vstd::prelude::*;

verus! {

/// How often the X and the Y channel are each read in one pass.
pub const XY_READS: usize = 4;

/// Commands in one pass: the X/Y pairs, then Z1 and Z2.
pub const PASS_COMMANDS: usize = 10;

/// The `k`-th command of a pass, counted from 1: X and Y in turn while the
/// pairs last, then Z1, then Z2. The X/Y reads are differential and keep the
/// converter powered; the two pressure reads are single-ended and power down.
pub open spec fn command_at(k: int) -> Command {
    Command {
        channel: if k <= 2 * XY_READS {
            if k % 2 == 1 {
                channels::X
            } else {
                channels::Y
            }
        } else if k == 2 * XY_READS + 1 {
            channels::Z1
        } else {
            channels::Z2
        },
        mode: false,
        ser_dfr: k > 2 * XY_READS,
        pd1: k <= 2 * XY_READS,
        pd0: k <= 2 * XY_READS,
    }
}

/// The whole pass.
pub open spec fn pass() -> Seq<Command> {
    Seq::new(PASS_COMMANDS as nat, |i: int| command_at(i + 1))
}

/// A fresh pass.
pub fn read_commands() -> (commands: ReadCommands)
    ensures
        commands.position() == 0,
        commands.remaining() == pass(),
{
    let commands = ReadCommands { n: 0 };
    assert(pass().skip(0) =~= pass());
    commands
}

/// Hands out the commands of a pass one by one.
pub struct ReadCommands {
    n: usize,
}

impl ReadCommands {
    /// How many commands were handed out.
    pub closed spec fn position(&self) -> nat {
        if self.n <= PASS_COMMANDS {
            self.n as nat
        } else {
            PASS_COMMANDS as nat
        }
    }

    /// The commands still to come.
    pub open spec fn remaining(&self) -> Seq<Command> {
        pass().skip(self.position() as int)
    }

    /// The next command, or `None` once the pass is through.
    pub fn next(&mut self) -> (item: Option<Command>)
        ensures
            old(self).position() < PASS_COMMANDS ==> item == Some(
                command_at(old(self).position() as int + 1),
            ) && final(self).position() == old(self).position() + 1,
            old(self).position() >= PASS_COMMANDS ==> item is None && final(self).position()
                == old(self).position(),
            item is Some ==> old(self).remaining().len() > 0 && item->0 == old(self).remaining()[0]
                && final(self).remaining() == old(self).remaining().skip(1),
            item is None ==> old(self).remaining().len() == 0,
    {
        if self.n >= PASS_COMMANDS {
            return None;
        }
        self.n += 1;

        let channel = if self.n <= 2 * XY_READS {
            if self.n % 2 != 0 {
                channels::X
            } else {
                channels::Y
            }
        } else if self.n == 2 * XY_READS + 1 {
            channels::Z1
        } else {
            channels::Z2
        };
        assert(old(self).remaining().skip(1) =~= self.remaining());
        Some(
            Command {
                channel,
                mode: false,
                ser_dfr: self.n > 2 * XY_READS,
                pd1: self.n <= 2 * XY_READS,
                pd0: self.n <= 2 * XY_READS,
            },
        )
    }

    /// What is left of the pass, in order. Leaves nothing behind.
    pub fn collect(&mut self) -> (commands: Vec<Command>)
        ensures
            commands@ == old(self).remaining(),
            final(self).remaining().len() == 0,
    {
        let mut commands: Vec<Command> = Vec::new();
        loop
            invariant
                commands@ + self.remaining() == old(self).remaining(),
            ensures
                commands@ == old(self).remaining(),
                self.remaining().len() == 0,
            decreases self.remaining().len(),
        {
            let ghost before = self.remaining();
            match self.next() {
                Some(c) => {
                    commands.push(c);
                    assert(commands@ + self.remaining() =~= old(self).remaining()) by {
                        assert(before =~= seq![before[0]] + before.skip(1));
                    }
                },
                None => {
                    assert(commands@ + self.remaining() =~= commands@);
                    break ;
                },
            }
        }
        commands
    }
}

} // verus!
