use vstd::prelude::*;

verus! {

/// The verdict of one monitored run.
#[derive(Debug, Clone, Copy, PartialEq, Eq, Structural)]
pub enum Outcome {
    Success,
    UserCancelled,
    StackOverflow,
    Fault,
}

/// What unwinding the halted target found.
#[derive(Debug, Clone, Copy, PartialEq, Eq, Structural)]
pub enum Unwind {
    /// No fault context: the program stopped on its own.
    Clean,
    /// The program counter was in the hard-fault handler.
    HardFault,
    /// The unwinder found the stack overflowed.
    StackOverflow,
}

/// One observation of the monitoring loop, in the order the loop makes them.
#[derive(Debug, Clone, Copy, PartialEq, Eq, Structural)]
pub enum PollEvent {
    /// The operator's cancellation flag was found raised.
    Cancelled,
    /// Reading the log transport failed.
    ReadFailed,
    /// The device's halted state was polled.
    Polled { halted: bool },
}

/// Why the monitoring loop ended.
#[derive(Debug, Clone, Copy, PartialEq, Eq, Structural)]
pub enum LoopExit {
    Cancelled,
    Halted,
    TransportError,
}

/// The state of the monitoring loop: whether the last poll saw the device
/// halted, and why the loop ended, once it has.
pub struct MonitorState {
    pub was_halted: bool,
    pub exit: Option<LoopExit>,
}

pub open spec fn monitor_start() -> MonitorState {
    MonitorState { was_halted: false, exit: None }
}

/// The state after one event. Cancellation ends the loop at once; a
/// transport fault ends it; a halted device ends it only when two polls in
/// a row saw it halted. An ended loop stays as it ended.
pub open spec fn monitor_step(s: MonitorState, e: PollEvent) -> MonitorState {
    if s.exit is Some {
        s
    } else {
        match e {
            PollEvent::Cancelled => MonitorState {
                was_halted: s.was_halted,
                exit: Some(LoopExit::Cancelled),
            },
            PollEvent::ReadFailed => MonitorState {
                was_halted: s.was_halted,
                exit: Some(LoopExit::TransportError),
            },
            PollEvent::Polled { halted } => if halted && s.was_halted {
                MonitorState { was_halted: true, exit: Some(LoopExit::Halted) }
            } else {
                MonitorState { was_halted: halted, exit: None }
            },
        }
    }
}

/// The state after the events `events`, in turn.
pub open spec fn monitor_run(events: Seq<PollEvent>) -> MonitorState
    decreases events.len(),
{
    if events.len() == 0 {
        monitor_start()
    } else {
        monitor_step(monitor_run(events.drop_last()), events.last())
    }
}

/// What the unwinder and the stack canary say, before cancellation is
/// taken into account. A touched canary means the stack overflowed, even
/// where the unwinder found no fault.
pub open spec fn primary_outcome(canary_touched: bool, unwind: Unwind) -> Outcome {
    if canary_touched || unwind == Unwind::StackOverflow {
        Outcome::StackOverflow
    } else if unwind == Unwind::HardFault {
        Outcome::Fault
    } else {
        Outcome::Success
    }
}

/// The result of a run, where a run that was cancelled never counts as a
/// clean exit.
pub open spec fn outcome_spec(cancelled: bool, canary_touched: bool, unwind: Unwind) -> Outcome {
    let primary = primary_outcome(canary_touched, unwind);
    if cancelled && primary == Outcome::Success {
        Outcome::UserCancelled
    } else {
        primary
    }
}

/// Fuses the run's signals into its one verdict.
pub fn classify(cancelled: bool, canary_touched: bool, unwind: Unwind) -> (r: Outcome)
    ensures
        r == outcome_spec(cancelled, canary_touched, unwind),
{
    let primary = if canary_touched {
        Outcome::StackOverflow
    } else {
        match unwind {
            Unwind::StackOverflow => Outcome::StackOverflow,
            Unwind::HardFault => Outcome::Fault,
            Unwind::Clean => Outcome::Success,
        }
    };
    match primary {
        Outcome::Success => if cancelled {
            Outcome::UserCancelled
        } else {
            Outcome::Success
        },
        _ => primary,
    }
}

pub open spec fn exit_code_spec(o: Outcome) -> u8 {
    match o {
        Outcome::Success => 0,
        Outcome::UserCancelled => 130,
        Outcome::StackOverflow => 134,
        Outcome::Fault => 135,
    }
}

impl Outcome {
    /// The process exit status for this verdict; each verdict has its own.
    pub fn exit_code(&self) -> (r: u8)
        ensures
            r == exit_code_spec(*self),
    {
        match self {
            Outcome::Success => 0,
            Outcome::UserCancelled => 130,
            Outcome::StackOverflow => 134,
            Outcome::Fault => 135,
        }
    }

    /// A one-line summary of this verdict.
    pub fn summary(&self) -> (r: &'static str)
        ensures
            *self == Outcome::Success ==> r@ == "device halted without error"@,
            *self == Outcome::UserCancelled ==> r@ == "device halted by user"@,
            *self == Outcome::StackOverflow ==> r@ == "the program has overflowed its stack"@,
            *self == Outcome::Fault ==> r@ == "the program hit a hard fault"@,
    {
        match self {
            Outcome::Success => "device halted without error",
            Outcome::UserCancelled => "device halted by user",
            Outcome::StackOverflow => "the program has overflowed its stack",
            Outcome::Fault => "the program hit a hard fault",
        }
    }
}

/// The monitoring loop's decisions. The caller checks the cancellation
/// flag, reads the log transport and polls the device, and reports each of
/// these to `step`, which says whether the loop goes on.
pub struct Monitor {
    was_halted: bool,
    exit: Option<LoopExit>,
}

impl Monitor {
    pub closed spec fn state(&self) -> MonitorState {
        MonitorState { was_halted: self.was_halted, exit: self.exit }
    }

    pub fn new() -> (r: Self)
        ensures
            r.state() == monitor_start(),
    {
        Monitor { was_halted: false, exit: None }
    }

    /// Takes one event; returns why the loop ended, or `None` while it goes on.
    pub fn step(&mut self, e: PollEvent) -> (r: Option<LoopExit>)
        ensures
            final(self).state() == monitor_step(old(self).state(), e),
            r == final(self).state().exit,
    {
        if self.exit.is_none() {
            match e {
                PollEvent::Cancelled => {
                    self.exit = Some(LoopExit::Cancelled);
                },
                PollEvent::ReadFailed => {
                    self.exit = Some(LoopExit::TransportError);
                },
                PollEvent::Polled { halted } => {
                    if halted && self.was_halted {
                        self.exit = Some(LoopExit::Halted);
                    } else {
                        self.was_halted = halted;
                    }
                },
            }
        }
        self.exit
    }

    /// The loop ended because the operator cancelled the run.
    pub fn halted_due_to_signal(&self) -> (r: bool)
        ensures
            r == (self.state().exit == Some(LoopExit::Cancelled)),
    {
        match self.exit {
            Some(LoopExit::Cancelled) => true,
            _ => false,
        }
    }
}

/// Folds `events` through a fresh monitor.
pub fn run_monitor(events: &Vec<PollEvent>) -> (r: Option<LoopExit>)
    ensures
        r == monitor_run(events@).exit,
{
    let mut m = Monitor::new();
    let mut r: Option<LoopExit> = None;
    let mut j: usize = 0;
    while j < events.len()
        invariant
            j <= events.len(),
            m.state() == monitor_run(events@.take(j as int)),
            r == m.state().exit,
        decreases events.len() - j,
    {
        r = m.step(events[j]);
        assert(events@.take(j + 1).drop_last() =~= events@.take(j as int));
        j += 1;
    }
    assert(events@.take(events.len() as int) =~= events@);
    r
}

proof fn lemma_no_exit_before(events: Seq<PollEvent>)
    requires
        forall|j: int| 0 <= j < events.len() ==> events[j] == (PollEvent::Polled { halted: false }),
    ensures
        monitor_run(events) == monitor_start(),
    decreases events.len(),
{
    if events.len() > 0 {
        lemma_no_exit_before(events.drop_last());
    }
}

proof fn lemma_exit_stays(events: Seq<PollEvent>, m: int)
    requires
        0 <= m <= events.len(),
        monitor_run(events.take(m)).exit is Some,
    ensures
        monitor_run(events) == monitor_run(events.take(m)),
    decreases events.len() - m,
{
    if m < events.len() {
        assert(events.take(m + 1).drop_last() =~= events.take(m));
        lemma_exit_stays(events, m + 1);
    } else {
        assert(events.take(m) =~= events);
    }
}

/// A cancellation raised before the device was seen halted ends the loop as
/// cancelled, whatever the device reports afterwards, and the run's verdict
/// is then never `Success`: where the other signals would read as a clean exit,
/// it is `UserCancelled`.
pub proof fn lemma_cancel_before_halt(events: Seq<PollEvent>, k: int, canary_touched: bool, unwind: Unwind)
    requires
        0 <= k < events.len(),
        events[k] == PollEvent::Cancelled,
        forall|j: int| 0 <= j < k ==> events[j] == (PollEvent::Polled { halted: false }),
    ensures
        monitor_run(events).exit == Some(LoopExit::Cancelled),
        outcome_spec(true, canary_touched, unwind) != Outcome::Success,
        primary_outcome(canary_touched, unwind) == Outcome::Success ==> outcome_spec(
            true,
            canary_touched,
            unwind,
        ) == Outcome::UserCancelled,
{
    lemma_no_exit_before(events.take(k));
    let upto = events.take(k + 1);
    assert(upto.drop_last() =~= events.take(k));
    assert(upto.last() == PollEvent::Cancelled);
    lemma_exit_stays(events, k + 1);
}

/// A touched canary with no fault context from the unwinder is reported as
/// a stack overflow, never as a clean exit, cancelled or not.
pub proof fn lemma_canary_means_overflow(cancelled: bool)
    ensures
        outcome_spec(cancelled, true, Unwind::Clean) == Outcome::StackOverflow,
{
}

/// A single halted poll never ends the loop; two in a row do.
pub proof fn lemma_halt_needs_two_polls(s: MonitorState)
    requires
        s.exit is None,
    ensures
        monitor_step(
            monitor_step(s, PollEvent::Polled { halted: false }),
            PollEvent::Polled { halted: true },
        ).exit is None,
        monitor_step(
            monitor_step(s, PollEvent::Polled { halted: true }),
            PollEvent::Polled { halted: true },
        ).exit == Some(LoopExit::Halted),
{
}

} // verus!
