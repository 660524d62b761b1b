//! Decisions of a monitor session. The caller performs each action (reading
//! the serial channel, polling the keyboard, resetting the device, writing to
//! the device, restoring the terminal) and hands back what happened.

use vstd::prelude::*;

use crate::decoder::LogFormat;
use crate::error::MonitorError;
use crate::keys::{handle_key_event, key_bytes, KeyCode, KeyEvent};

verus! {

/// How a session starts.
#[derive(Clone, Copy, Debug, PartialEq, Eq, Structural)]
pub enum StartPlan {
    /// Reset the device, wait for the transport to settle, and return success;
    /// the terminal is not touched.
    ResetOnly,
    /// Enter raw mode and monitor until the exit chord or a fatal error.
    Monitor,
}

/// Where the session is in its loop.
#[derive(Clone, Copy, Debug, PartialEq, Eq, Structural)]
pub enum Phase {
    /// A bounded-time read of the serial channel is due.
    Reading,
    /// A zero-wait poll of the keyboard is due.
    Polling,
    /// The loop has ended.
    Finished,
}

/// The result of one bounded-time serial read.
#[derive(Clone, Copy, Debug, PartialEq, Eq, Structural)]
pub enum ReadOutcome {
    /// This many bytes arrived.
    Data(usize),
    /// Nothing arrived within the timeout.
    TimedOut,
    /// The read was interrupted before anything arrived.
    Interrupted,
    /// Any other failure of the channel.
    Failed,
}

/// What the caller reports back after performing the last action.
#[derive(Clone, Copy, Debug, PartialEq, Eq, Structural)]
pub enum Event {
    Read(ReadOutcome),
    Key(KeyEvent),
    NoKey,
    /// Performing the last action failed: writing to or resetting the
    /// device, or polling the keyboard.
    Failed(MonitorError),
}

/// What the caller does next.
#[derive(Debug)]
pub enum Action {
    /// Read the serial channel (with its short timeout).
    Read,
    /// Feed this many freshly read bytes to the decoder and the transcript,
    /// flush both, then poll the keyboard.
    Deliver(usize),
    /// Poll the keyboard without waiting.
    Poll,
    /// Reset the device, then read again.
    ResetDevice,
    /// Write these bytes to the device and flush, then read again.
    Send(Vec<u8>),
    /// Stop: restore the terminal if asked, and end with this result.
    Exit { restore_terminal: bool, result: Result<(), MonitorError> },
    /// The session is over; nothing to do.
    Idle,
}

/// The meaning of an action, with bytes as a sequence.
pub enum Decision {
    Read,
    Deliver(usize),
    Poll,
    ResetDevice,
    Send(Seq<u8>),
    Exit { restore_terminal: bool, result: Result<(), MonitorError> },
    Idle,
}

/// The state of the loop: its phase, and whether this session holds the
/// terminal in raw mode.
#[derive(Clone, Copy, Debug, PartialEq, Eq, Structural)]
pub struct Session {
    pub phase: Phase,
    pub raw_mode: bool,
}

impl Action {
    pub open spec fn view(&self) -> Decision {
        match self {
            Action::Read => Decision::Read,
            Action::Deliver(n) => Decision::Deliver(*n),
            Action::Poll => Decision::Poll,
            Action::ResetDevice => Decision::ResetDevice,
            Action::Send(b) => Decision::Send(b@),
            Action::Exit { restore_terminal, result } => Decision::Exit {
                restore_terminal: *restore_terminal,
                result: *result,
            },
            Action::Idle => Decision::Idle,
        }
    }
}

/// Whether a key event is Control held with the given letter.
pub open spec fn is_control_char(ev: KeyEvent, c: char) -> bool {
    ev.control && ev.code == KeyCode::Char(c)
}

/// The plan for a session: a non-interactive one only resets; an interactive
/// one needs a firmware image for the structured format.
pub open spec fn start_plan(interactive: bool, format: LogFormat, has_firmware: bool) -> Result<
    StartPlan,
    MonitorError,
> {
    if !interactive {
        Ok(StartPlan::ResetOnly)
    } else if format == LogFormat::Defmt && !has_firmware {
        Err(MonitorError::MissingFirmwareImage)
    } else {
        Ok(StartPlan::Monitor)
    }
}

/// The session after exiting, and the exit decision.
pub open spec fn exit_with(s: Session, result: Result<(), MonitorError>) -> (Session, Decision) {
    (
        Session { phase: Phase::Finished, raw_mode: false },
        Decision::Exit { restore_terminal: s.raw_mode, result },
    )
}

/// One transition of the loop.
pub open spec fn transition(s: Session, ev: Event) -> (Session, Decision) {
    match (s.phase, ev) {
        (Phase::Reading, Event::Read(ReadOutcome::Data(n))) => (
            Session { phase: Phase::Polling, ..s },
            Decision::Deliver(n),
        ),
        (Phase::Reading, Event::Read(ReadOutcome::TimedOut)) => (
            Session { phase: Phase::Polling, ..s },
            Decision::Poll,
        ),
        (Phase::Reading, Event::Read(ReadOutcome::Interrupted)) => (s, Decision::Read),
        (Phase::Reading, Event::Read(ReadOutcome::Failed)) => exit_with(
            s,
            Err(MonitorError::Transport),
        ),
        (Phase::Polling, Event::Key(k)) => if is_control_char(k, 'c') {
            exit_with(s, Ok(()))
        } else if is_control_char(k, 'r') {
            (Session { phase: Phase::Reading, ..s }, Decision::ResetDevice)
        } else {
            (
                Session { phase: Phase::Reading, ..s },
                match key_bytes(k) {
                    Some(b) => Decision::Send(b),
                    None => Decision::Read,
                },
            )
        },
        (Phase::Polling, Event::NoKey) => (Session { phase: Phase::Reading, ..s }, Decision::Read),
        (Phase::Finished, _) => (s, Decision::Idle),
        (_, Event::Failed(e)) => exit_with(s, Err(e)),
        // An event that does not answer the pending action changes nothing.
        (Phase::Reading, _) => (s, Decision::Read),
        (Phase::Polling, _) => (s, Decision::Poll),
    }
}

/// A session is consistent when it holds raw mode exactly while it runs.
pub open spec fn consistent(s: Session) -> bool {
    s.raw_mode <==> s.phase != Phase::Finished
}

/// Whether a decision restores the terminal.
pub open spec fn restores(d: Decision) -> bool {
    match d {
        Decision::Exit { restore_terminal, .. } => restore_terminal,
        _ => false,
    }
}

/// The session after a list of events, and how many restores were decided.
pub open spec fn run(s: Session, events: Seq<Event>) -> (Session, nat)
    decreases events.len(),
{
    if events.len() == 0 {
        (s, 0)
    } else {
        let (mid, n) = run(s, events.drop_last());
        let (next, d) = transition(mid, events.last());
        (next, n + if restores(d) { 1nat } else { 0nat })
    }
}

/// The session that has just entered raw mode.
pub open spec fn running() -> Session {
    Session { phase: Phase::Reading, raw_mode: true }
}

/// Decides how a session starts.
pub fn plan_start(interactive: bool, log_format: LogFormat, firmware: Option<&[u8]>) -> (r: Result<
    StartPlan,
    MonitorError,
>)
    ensures
        r == start_plan(interactive, log_format, firmware.is_some()),
{
    if !interactive {
        Ok(StartPlan::ResetOnly)
    } else {
        match (log_format, firmware) {
            (LogFormat::Defmt, None) => Err(MonitorError::MissingFirmwareImage),
            _ => Ok(StartPlan::Monitor),
        }
    }
}

impl Session {
    /// The session once raw mode is held: a read is due first.
    pub fn start() -> (r: Session)
        ensures
            r == running(),
    {
        Session { phase: Phase::Reading, raw_mode: true }
    }

    /// Takes the outcome of the last action and decides the next one.
    pub fn next(&mut self, event: Event) -> (a: Action)
        ensures
            (*final(self), a@) == transition(*old(self), event),
    {
        match (self.phase, event) {
            (Phase::Reading, Event::Read(ReadOutcome::Data(n))) => {
                self.phase = Phase::Polling;
                Action::Deliver(n)
            },
            (Phase::Reading, Event::Read(ReadOutcome::TimedOut)) => {
                self.phase = Phase::Polling;
                Action::Poll
            },
            (Phase::Reading, Event::Read(ReadOutcome::Interrupted)) => Action::Read,
            (Phase::Reading, Event::Read(ReadOutcome::Failed)) => self.exit(Err(MonitorError::Transport)),
            (Phase::Polling, Event::Key(k)) => {
                if k.control && k.code == KeyCode::Char('c') {
                    self.exit(Ok(()))
                } else if k.control && k.code == KeyCode::Char('r') {
                    self.phase = Phase::Reading;
                    Action::ResetDevice
                } else {
                    self.phase = Phase::Reading;
                    match handle_key_event(k) {
                        Some(b) => Action::Send(b),
                        None => Action::Read,
                    }
                }
            },
            (Phase::Polling, Event::NoKey) => {
                self.phase = Phase::Reading;
                Action::Read
            },
            (Phase::Finished, _) => Action::Idle,
            (_, Event::Failed(e)) => self.exit(Err(e)),
            (Phase::Reading, _) => Action::Read,
            (Phase::Polling, _) => Action::Poll,
        }
    }

    fn exit(&mut self, result: Result<(), MonitorError>) -> (a: Action)
        ensures
            (*final(self), a@) == exit_with(*old(self), result),
    {
        let restore_terminal = self.raw_mode;
        self.phase = Phase::Finished;
        self.raw_mode = false;
        Action::Exit { restore_terminal, result }
    }
}

/// Every transition keeps a session consistent.
pub proof fn lemma_transition_consistent(s: Session, ev: Event)
    requires
        consistent(s),
    ensures
        consistent(transition(s, ev).0),
{
}

/// Raw-mode restoration: from the moment raw mode is entered, whatever
/// happens, the terminal is restored once when the loop has ended (by the
/// exit chord or by a failure) and not at all before; it never stays raw
/// after the end.
pub proof fn lemma_restored_exactly_once(events: Seq<Event>)
    ensures
        consistent(run(running(), events).0),
        run(running(), events).1 == if run(running(), events).0.phase == Phase::Finished {
            1nat
        } else {
            0nat
        },
    decreases events.len(),
{
    if events.len() > 0 {
        lemma_restored_exactly_once(events.drop_last());
    }
}

/// Responsiveness: when a read brings nothing, the keyboard is polled next,
/// before any further read, and the session goes on running.
pub proof fn lemma_timeout_polls_keyboard(s: Session)
    requires
        s.phase == Phase::Reading,
        consistent(s),
    ensures
        transition(s, Event::Read(ReadOutcome::TimedOut)) == (
            Session { phase: Phase::Polling, raw_mode: true },
            Decision::Poll,
        ),
{
}

/// Reset does not end the session: Control+R asks for a reset, keeps raw mode,
/// and the next thing due is a read.
pub proof fn lemma_reset_continues(s: Session)
    requires
        s.phase == Phase::Polling,
        consistent(s),
    ensures
        transition(s, Event::Key(KeyEvent { code: KeyCode::Char('r'), control: true })) == (
            Session { phase: Phase::Reading, raw_mode: true },
            Decision::ResetDevice,
        ),
{
}

} // verus!
