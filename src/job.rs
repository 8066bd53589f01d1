//! The job slot, the message that an interrupt publishes, and the canceller
//! that turns messages into termination signals.

use vstd::prelude::*;

verus! {

/// The id of the current foreground process; 0 when there is none.
#[derive(PartialEq, Eq, Structural, Clone, Copy, Debug)]
pub struct JobSlot {
    pub pid: u32,
}

impl JobSlot {
    /// An empty slot.
    pub fn new() -> (r: JobSlot)
        ensures
            r.pid == 0,
    {
        JobSlot { pid: 0 }
    }

    /// Records the foreground process just spawned.
    pub fn occupy(&mut self, pid: u32)
        ensures
            final(self).pid == pid,
    {
        self.pid = pid;
    }

    /// Clears the slot once the foreground process is reaped.
    pub fn vacate(&mut self)
        ensures
            final(self).pid == 0,
    {
        self.pid = 0;
    }

    /// Whether no foreground process is recorded.
    pub fn is_empty(&self) -> (r: bool)
        ensures
            r == (self.pid == 0),
    {
        self.pid == 0
    }
}

/// A message to the canceller.
#[derive(PartialEq, Eq, Structural, Clone, Copy, Debug)]
pub enum CancelMsg {
    /// Terminate the process with this id; 0 names no process.
    Terminate(u32),
    /// End the canceller.
    Shutdown,
}

/// What one receive on the cancellation channel gave.
#[derive(PartialEq, Eq, Structural, Clone, Copy, Debug)]
pub enum Received {
    Message(CancelMsg),
    /// The channel is closed.
    Broken,
}

/// What the canceller does with one receive.
#[derive(PartialEq, Eq, Structural, Clone, Copy, Debug)]
pub enum CancelAction {
    /// Send a termination signal to this process.
    Signal(u32),
    /// Nothing to do; wait for the next message.
    Idle,
    /// Report that the channel is broken, then wait for the next message.
    ReportBroken,
    /// Leave the receive loop.
    Stop,
}

/// The message that an interrupt sends: a copy of the slot.
pub open spec fn bridge_spec(slot: JobSlot) -> CancelMsg {
    CancelMsg::Terminate(slot.pid)
}

/// Builds the message for an interrupt from a snapshot of the job slot.
pub fn interrupt_message(slot: JobSlot) -> (r: CancelMsg)
    ensures
        r == bridge_spec(slot),
{
    CancelMsg::Terminate(slot.pid)
}

/// The canceller's state: running until it receives `Shutdown`.
#[derive(PartialEq, Eq, Structural, Clone, Copy, Debug)]
pub struct Canceller {
    pub stopped: bool,
}

/// One step of the canceller: the action for `ev` and the state after it.
pub open spec fn cancel_step(c: Canceller, ev: Received) -> (CancelAction, Canceller) {
    if c.stopped {
        (CancelAction::Stop, c)
    } else {
        match ev {
            Received::Message(CancelMsg::Terminate(pid)) => if pid != 0 {
                (CancelAction::Signal(pid), c)
            } else {
                (CancelAction::Idle, c)
            },
            Received::Message(CancelMsg::Shutdown) => (
                CancelAction::Stop,
                Canceller { stopped: true },
            ),
            Received::Broken => (CancelAction::ReportBroken, c),
        }
    }
}

/// The processes signalled, in order, when the canceller in state `c`
/// receives `evs`.
pub open spec fn signals_of(c: Canceller, evs: Seq<Received>) -> Seq<u32>
    decreases evs.len(),
{
    if evs.len() == 0 {
        Seq::empty()
    } else {
        let (a, next) = cancel_step(c, evs[0]);
        let rest = signals_of(next, evs.drop_first());
        match a {
            CancelAction::Signal(pid) => seq![pid] + rest,
            _ => rest,
        }
    }
}

impl Canceller {
    /// A running canceller.
    pub fn new() -> (r: Canceller)
        ensures
            !r.stopped,
    {
        Canceller { stopped: false }
    }

    /// Decides what to do with one receive. `Terminate` of a process id
    /// other than 0 signals that process; `Terminate(0)` does nothing;
    /// `Shutdown` stops the canceller for good; a broken channel is reported
    /// and the loop goes on.
    pub fn handle(&mut self, ev: Received) -> (r: CancelAction)
        ensures
            (r, *final(self)) == cancel_step(*old(self), ev),
    {
        if self.stopped {
            return CancelAction::Stop;
        }
        match ev {
            Received::Message(CancelMsg::Terminate(pid)) => {
                if pid != 0 {
                    CancelAction::Signal(pid)
                } else {
                    CancelAction::Idle
                }
            },
            Received::Message(CancelMsg::Shutdown) => {
                self.stopped = true;
                CancelAction::Stop
            },
            Received::Broken => CancelAction::ReportBroken,
        }
    }
}

/// An interrupt while the job slot is empty signals no process.
pub proof fn lemma_empty_slot_signals_nothing(c: Canceller, slot: JobSlot)
    requires
        slot.pid == 0,
    ensures
        signals_of(c, seq![Received::Message(bridge_spec(slot))]) == Seq::<u32>::empty(),
{
    let evs = seq![Received::Message(bridge_spec(slot))];
    assert(evs.drop_first() =~= Seq::<Received>::empty());
    assert(signals_of(c, Seq::<Received>::empty()) == Seq::<u32>::empty());
}

/// An interrupt while the foreground process `slot.pid` runs signals that
/// process, and it alone, exactly once.
pub proof fn lemma_occupied_slot_signals_once(c: Canceller, slot: JobSlot)
    requires
        !c.stopped,
        slot.pid != 0,
    ensures
        signals_of(c, seq![Received::Message(bridge_spec(slot))]) == seq![slot.pid],
{
    let evs = seq![Received::Message(bridge_spec(slot))];
    assert(evs.drop_first() =~= Seq::<Received>::empty());
    assert(signals_of(c, Seq::<Received>::empty()) == Seq::<u32>::empty());
    assert(seq![slot.pid] + Seq::<u32>::empty() =~= seq![slot.pid]);
}

/// A stopped canceller stays stopped and signals nothing, whatever it
/// receives.
pub proof fn lemma_stopped_signals_nothing(c: Canceller, evs: Seq<Received>)
    requires
        c.stopped,
    ensures
        signals_of(c, evs) == Seq::<u32>::empty(),
    decreases evs.len(),
{
    if evs.len() > 0 {
        lemma_stopped_signals_nothing(c, evs.drop_first());
    }
}

/// After `Shutdown` the canceller stops, and no message that follows is
/// acted on: the signals of a sequence that holds `Shutdown` are those of
/// the messages before it.
pub proof fn lemma_shutdown_ends_canceller(c: Canceller, before: Seq<Received>, after: Seq<Received>)
    ensures
        cancel_step(c, Received::Message(CancelMsg::Shutdown)).0 == CancelAction::Stop,
        cancel_step(c, Received::Message(CancelMsg::Shutdown)).1.stopped,
        signals_of(c, before + seq![Received::Message(CancelMsg::Shutdown)] + after) == signals_of(
            c,
            before,
        ),
    decreases before.len(),
{
    let shut = Received::Message(CancelMsg::Shutdown);
    let all = before + seq![shut] + after;
    if before.len() == 0 {
        assert(all.drop_first() =~= after);
        lemma_stopped_signals_nothing(Canceller { stopped: true }, after);
        if c.stopped {
            lemma_stopped_signals_nothing(c, after);
        }
    } else {
        let (a, next) = cancel_step(c, before[0]);
        assert(all.drop_first() =~= before.drop_first() + seq![shut] + after);
        lemma_shutdown_ends_canceller(next, before.drop_first(), after);
        if c.stopped {
            lemma_stopped_signals_nothing(c, all);
            lemma_stopped_signals_nothing(c, before);
        }
    }
}

} // verus!
