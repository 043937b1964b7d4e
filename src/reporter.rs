//! The reporting sequence as a state machine.
//!
//! The machine names one action at a time; whoever drives the hardware
//! performs it and hands back whether it worked. Failures of the channel are
//! swallowed: the machine only ever moves forward, towards the breakpoint and
//! then the idle loop, which it never leaves.
use vstd::prelude::*;

verus! {

/// One step of the reporting sequence, for the caller to perform.
#[derive(Clone, Copy, PartialEq, Eq, Structural, Debug)]
pub enum Action {
    /// Disable interrupts for good.
    DisableInterrupts,
    /// Try to open the debug channel to the host.
    OpenChannel,
    /// Try to write the piece with this index on the open channel.
    Write(usize),
    /// Fire the breakpoint instruction.
    Breakpoint,
    /// Spin; this action is repeated forever.
    Idle,
}

/// Whether the last action worked. Only opening the channel and writing can
/// fail; for the other actions the outcome is ignored.
#[derive(Clone, Copy, PartialEq, Eq, Structural, Debug)]
pub enum Outcome {
    Completed,
    Failed,
}

/// Where the machine stands.
#[derive(Clone, Copy, PartialEq, Eq, Structural, Debug)]
pub enum Phase {
    /// Nothing done yet.
    Start,
    /// Interrupts are off; the channel is to be opened.
    Opening,
    /// The channel is open; the piece with this index is next.
    Writing(usize),
    /// Reporting is over; the breakpoint is next.
    Trapping,
    /// The breakpoint has fired; idle forever.
    Halted,
}

/// The action taken in phase `p`.
pub open spec fn action_of(p: Phase) -> Action {
    match p {
        Phase::Start => Action::DisableInterrupts,
        Phase::Opening => Action::OpenChannel,
        Phase::Writing(k) => Action::Write(k),
        Phase::Trapping => Action::Breakpoint,
        Phase::Halted => Action::Idle,
    }
}

/// The phase after the action of phase `p` ended with outcome `o`, when the
/// line has `n` pieces.
pub open spec fn next_phase(p: Phase, o: Outcome, n: nat) -> Phase {
    match p {
        Phase::Start => Phase::Opening,
        Phase::Opening => if o == Outcome::Completed && n > 0 {
            Phase::Writing(0)
        } else {
            Phase::Trapping
        },
        Phase::Writing(k) => if o == Outcome::Completed && k + 1 < n {
            Phase::Writing((k + 1) as usize)
        } else {
            Phase::Trapping
        },
        Phase::Trapping => Phase::Halted,
        Phase::Halted => Phase::Halted,
    }
}

/// The phase after `i` steps from the start, the `j`-th step ending with
/// outcome `outs[j]`.
pub open spec fn phase_at(outs: Seq<Outcome>, n: nat, i: nat) -> Phase
    decreases i,
{
    if i == 0 {
        Phase::Start
    } else {
        next_phase(phase_at(outs, n, (i - 1) as nat), outs[i - 1], n)
    }
}

/// The action of the `i`-th step.
pub open spec fn action_at(outs: Seq<Outcome>, n: nat, i: nat) -> Action {
    action_of(phase_at(outs, n, i))
}

/// The pieces of the writes that completed in the first `i` steps, in
/// order. A write that failed may still have sent part of its piece; those
/// bytes are not counted here.
pub open spec fn delivered(pieces: Seq<Seq<u8>>, outs: Seq<Outcome>, i: nat) -> Seq<u8>
    decreases i,
{
    if i == 0 {
        Seq::empty()
    } else {
        let j = (i - 1) as nat;
        let before = delivered(pieces, outs, j);
        match action_at(outs, pieces.len(), j) {
            Action::Write(k) => if outs[j as int] == Outcome::Completed {
                before + pieces[k as int]
            } else {
                before
            },
            _ => before,
        }
    }
}

/// The number of pieces in the line.
pub const PIECE_COUNT: usize = 5;

/// The reporter for one fatal error. It holds nothing but its phase, so it
/// can be made before anything is formatted.
pub struct Reporter {
    phase: Phase,
}

impl Reporter {
    pub closed spec fn phase(&self) -> Phase {
        self.phase
    }

    /// A piece index in the phase stays within the line.
    pub open spec fn wf(&self) -> bool {
        self.phase() matches Phase::Writing(k) ==> k < PIECE_COUNT
    }

    /// A reporter before any action.
    pub fn new() -> (r: Reporter)
        ensures
            r.wf(),
            r.phase() == Phase::Start,
    {
        Reporter { phase: Phase::Start }
    }

    /// The action to perform now.
    pub fn action(&self) -> (r: Action)
        requires
            self.wf(),
        ensures
            r == action_of(self.phase()),
            r matches Action::Write(k) ==> k < PIECE_COUNT,
    {
        match self.phase {
            Phase::Start => Action::DisableInterrupts,
            Phase::Opening => Action::OpenChannel,
            Phase::Writing(k) => Action::Write(k),
            Phase::Trapping => Action::Breakpoint,
            Phase::Halted => Action::Idle,
        }
    }

    /// Moves on after the current action ended with `outcome`.
    pub fn advance(&mut self, outcome: Outcome)
        requires
            old(self).wf(),
        ensures
            final(self).wf(),
            final(self).phase() == next_phase(old(self).phase(), outcome, PIECE_COUNT as nat),
    {
        let completed = match outcome {
            Outcome::Completed => true,
            Outcome::Failed => false,
        };
        self.phase = match self.phase {
            Phase::Start => Phase::Opening,
            Phase::Opening => if completed {
                Phase::Writing(0)
            } else {
                Phase::Trapping
            },
            Phase::Writing(k) => if completed && k + 1 < PIECE_COUNT {
                Phase::Writing(k + 1)
            } else {
                Phase::Trapping
            },
            Phase::Trapping => Phase::Halted,
            Phase::Halted => Phase::Halted,
        };
    }
}

} // verus!
