//! The main loop's bookkeeping for one input line: its statements run one
//! at a time, in order, each holding the job slot while its foreground
//! process runs.

use vstd::prelude::*;

use crate::job::JobSlot;

verus! {

/// Where the current statement of a line stands.
#[derive(PartialEq, Eq, Structural, Clone, Copy, Debug)]
pub enum LinePhase {
    /// The current statement's pipeline is being resolved and spawned.
    SettingUp,
    /// The current statement's foreground process runs; the loop blocks on it.
    Waiting,
    /// Every statement of the line has run.
    Done,
}

/// What happened to the current statement.
#[derive(PartialEq, Eq, Structural, Clone, Copy, Debug)]
pub enum LineEvent {
    /// Its setup ended: with the id of its foreground process, or with none
    /// (an empty statement, or one that failed to resolve or spawn).
    SetupEnded(Option<u32>),
    /// Its foreground process was reaped, or waiting for it failed.
    Reaped,
}

/// The progress of the statements of one line.
#[derive(PartialEq, Eq, Structural, Clone, Copy, Debug)]
pub struct LineRun {
    /// The number of statements.
    pub count: usize,
    /// The index of the statement in progress; `count` once all have run.
    pub current: usize,
    pub phase: LinePhase,
    /// The foreground process of the current statement, while it runs.
    pub slot: JobSlot,
}

/// The state after moving on from the current statement.
pub open spec fn advance(s: LineRun) -> LineRun {
    let next = (s.current + 1) as usize;
    LineRun {
        count: s.count,
        current: next,
        phase: if next < s.count {
            LinePhase::SettingUp
        } else {
            LinePhase::Done
        },
        slot: JobSlot { pid: 0 },
    }
}

/// The state after `e`.
pub open spec fn line_next(s: LineRun, e: LineEvent) -> LineRun {
    match e {
        LineEvent::SetupEnded(Some(pid)) => LineRun {
            phase: LinePhase::Waiting,
            slot: JobSlot { pid },
            ..s
        },
        LineEvent::SetupEnded(None) => advance(s),
        LineEvent::Reaped => advance(s),
    }
}

impl LineRun {
    /// The statement index stays in range, the phase matches it, and the job
    /// slot is occupied exactly while a foreground process is waited for.
    pub open spec fn wf(&self) -> bool {
        &&& self.current <= self.count
        &&& (self.phase == LinePhase::Done) <==> self.current == self.count
        &&& self.phase != LinePhase::Waiting ==> self.slot.pid == 0
    }

    /// Whether `e` can happen in this state.
    pub open spec fn accepts(&self, e: LineEvent) -> bool {
        match e {
            LineEvent::SetupEnded(_) => self.phase == LinePhase::SettingUp,
            LineEvent::Reaped => self.phase == LinePhase::Waiting,
        }
    }

    /// A run over `count` statements, before the first.
    pub fn start(count: usize) -> (r: LineRun)
        ensures
            r.wf(),
            r.count == count,
            r.current == 0,
            count > 0 ==> r.phase == LinePhase::SettingUp,
            r.slot.pid == 0,
    {
        LineRun {
            count,
            current: 0,
            phase: if count > 0 {
                LinePhase::SettingUp
            } else {
                LinePhase::Done
            },
            slot: JobSlot::new(),
        }
    }

    /// Whether `e` can happen in this state.
    pub fn can_take(&self, e: LineEvent) -> (r: bool)
        ensures
            r == self.accepts(e),
    {
        match e {
            LineEvent::SetupEnded(_) => self.phase == LinePhase::SettingUp,
            LineEvent::Reaped => self.phase == LinePhase::Waiting,
        }
    }

    /// Takes one event. A foreground process occupies the job slot until it
    /// is reaped; then, or when a statement ends without one, the next
    /// statement is set up.
    pub fn step(&mut self, e: LineEvent)
        requires
            old(self).wf(),
            old(self).accepts(e),
        ensures
            *final(self) == line_next(*old(self), e),
            final(self).wf(),
    {
        match e {
            LineEvent::SetupEnded(Some(pid)) => {
                self.slot.occupy(pid);
                self.phase = LinePhase::Waiting;
            },
            _ => {
                self.slot.vacate();
                self.current = self.current + 1;
                self.phase = if self.current < self.count {
                    LinePhase::SettingUp
                } else {
                    LinePhase::Done
                };
            },
        }
    }
}

/// Statements run strictly in sequence: the line moves past a statement
/// only once that statement's foreground process has been reaped, or once
/// the statement ended without one; it moves by one statement at a time;
/// and a statement that failed does not keep the next one from being set up.
pub proof fn lemma_statements_in_sequence(s: LineRun, e: LineEvent)
    requires
        s.wf(),
        s.accepts(e),
    ensures
        line_next(s, e).wf(),
        line_next(s, e).current == s.current || line_next(s, e).current == s.current + 1,
        line_next(s, e).current == s.current + 1 ==> (s.phase == LinePhase::Waiting && e
            == LineEvent::Reaped) || (s.phase == LinePhase::SettingUp && e == LineEvent::SetupEnded(
            None,
        )),
        line_next(s, e).current == s.current + 1 ==> line_next(s, e).slot.pid == 0,
        s.phase == LinePhase::Waiting ==> line_next(s, e).current == s.current + 1,
        e == LineEvent::SetupEnded(None) && s.current + 1 < s.count ==> line_next(s, e).phase
            == LinePhase::SettingUp && line_next(s, e).current == s.current + 1,
{
}

} // verus!
