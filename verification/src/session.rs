use crate::error::Error;
use crate::status::PrinterStatus;
use vstd::prelude::*;

verus! {

/// The pause, in milliseconds, that the device needs before a paced step.
pub const STEP_DELAY_MS: u64 = 500;

/// Where a print job stands.
#[derive(Copy, Clone, Debug, PartialEq, Eq, Structural)]
pub enum SessionState {
    /// No job is under way.
    Idle,
    /// The printer reported a tape; the job may be started.
    Ready,
    /// The printer accepted start-print.
    Started,
    /// The data connection is open.
    Connected,
    /// The printer was told of the data stream and awaits the label.
    Armed,
    /// The label was written; the printer is working.
    Sent,
    /// The printer stopped reporting that it prints.
    Done,
    /// The job was given up for the cause held.
    Failed(Error),
}

/// What the owner of the sockets does next.
#[derive(Copy, Clone, Debug, PartialEq, Eq, Structural)]
pub enum SessionAction {
    /// Ask for the printer status before the job.
    QueryStatus,
    /// Send start-print.
    StartPrint,
    /// Open the data connection.
    ConnectTcp,
    /// Announce the data stream: notify-open, then notify-ready.
    NotifyDataStream,
    /// Write the encoded label to the data connection.
    WriteData,
    /// Ask for the printer status while the label prints.
    PollStatus,
    /// Send stop-print.
    StopPrint,
    /// Nothing: the job failed.
    Halt,
}

/// What came of the last action.
#[derive(Copy, Clone, Debug, PartialEq, Eq)]
pub enum SessionEvent {
    /// A status query was answered.
    Status(PrinterStatus),
    /// The printer accepted start-print.
    StartAccepted,
    /// The data connection was opened.
    TcpConnected,
    /// The printer acknowledged both notifications.
    StreamNotified,
    /// The label was written in full.
    DataWritten,
    /// The printer accepted stop-print.
    StopAccepted,
    /// The action failed.
    Failure(Error),
}

impl SessionState {
    /// The action that is due in this state.
    pub open spec fn spec_action(self) -> SessionAction {
        match self {
            SessionState::Idle => SessionAction::QueryStatus,
            SessionState::Ready => SessionAction::StartPrint,
            SessionState::Started => SessionAction::ConnectTcp,
            SessionState::Connected => SessionAction::NotifyDataStream,
            SessionState::Armed => SessionAction::WriteData,
            SessionState::Sent => SessionAction::PollStatus,
            SessionState::Done => SessionAction::StopPrint,
            SessionState::Failed(_) => SessionAction::Halt,
        }
    }

    /// The state that follows this one when `event` comes in.
    ///
    /// A failure ends the job with its cause, and a failed job stays failed.
    /// An event that does not answer the action due ends the job with
    /// `UnexpectedState`, and so does a status without a tape before the start.
    pub open spec fn spec_advance(self, event: SessionEvent) -> SessionState {
        match (self, event) {
            (SessionState::Failed(e), _) => SessionState::Failed(e),
            (_, SessionEvent::Failure(e)) => SessionState::Failed(e),
            (SessionState::Idle, SessionEvent::Status(status)) => if status is SomeTape {
                SessionState::Ready
            } else {
                SessionState::Failed(Error::UnexpectedState)
            },
            (SessionState::Ready, SessionEvent::StartAccepted) => SessionState::Started,
            (SessionState::Started, SessionEvent::TcpConnected) => SessionState::Connected,
            (SessionState::Connected, SessionEvent::StreamNotified) => SessionState::Armed,
            (SessionState::Armed, SessionEvent::DataWritten) => SessionState::Sent,
            (SessionState::Sent, SessionEvent::Status(status)) => if status is Printing {
                SessionState::Sent
            } else {
                SessionState::Done
            },
            (SessionState::Done, SessionEvent::StopAccepted) => SessionState::Idle,
            _ => SessionState::Failed(Error::UnexpectedState),
        }
    }

    /// The action that is due in this state.
    pub fn action(&self) -> (a: SessionAction)
        ensures
            a == self.spec_action(),
    {
        match self {
            SessionState::Idle => SessionAction::QueryStatus,
            SessionState::Ready => SessionAction::StartPrint,
            SessionState::Started => SessionAction::ConnectTcp,
            SessionState::Connected => SessionAction::NotifyDataStream,
            SessionState::Armed => SessionAction::WriteData,
            SessionState::Sent => SessionAction::PollStatus,
            SessionState::Done => SessionAction::StopPrint,
            SessionState::Failed(_) => SessionAction::Halt,
        }
    }

    /// Takes in what came of the action due and gives the state that follows.
    pub fn advance(&self, event: &SessionEvent) -> (next: SessionState)
        ensures
            next == self.spec_advance(*event),
    {
        match (self, event) {
            (SessionState::Failed(e), _) => SessionState::Failed(*e),
            (_, SessionEvent::Failure(e)) => SessionState::Failed(*e),
            (SessionState::Idle, SessionEvent::Status(status)) => {
                if status.has_tape() {
                    SessionState::Ready
                } else {
                    SessionState::Failed(Error::UnexpectedState)
                }
            },
            (SessionState::Ready, SessionEvent::StartAccepted) => SessionState::Started,
            (SessionState::Started, SessionEvent::TcpConnected) => SessionState::Connected,
            (SessionState::Connected, SessionEvent::StreamNotified) => SessionState::Armed,
            (SessionState::Armed, SessionEvent::DataWritten) => SessionState::Sent,
            (SessionState::Sent, SessionEvent::Status(status)) => {
                if status.is_printing() {
                    SessionState::Sent
                } else {
                    SessionState::Done
                }
            },
            (SessionState::Done, SessionEvent::StopAccepted) => SessionState::Idle,
            _ => SessionState::Failed(Error::UnexpectedState),
        }
    }

    /// Whether the job is over, for better or worse: nothing is left to do
    /// for it once it has come back to rest or failed.
    pub fn is_terminal(&self) -> (b: bool)
        ensures
            b == (*self is Idle || *self is Failed),
    {
        match self {
            SessionState::Idle => true,
            SessionState::Failed(_) => true,
            _ => false,
        }
    }
}

impl SessionAction {
    /// The pause in milliseconds that goes before the action.
    pub open spec fn spec_delay_ms(self) -> u64 {
        match self {
            SessionAction::ConnectTcp
            | SessionAction::NotifyDataStream
            | SessionAction::WriteData
            | SessionAction::PollStatus => STEP_DELAY_MS,
            _ => 0,
        }
    }

    /// The pause in milliseconds that goes before the action: 500 before the
    /// connection is opened, before the notifications, before the label is
    /// written and before every poll; none elsewhere.
    pub fn delay_ms(&self) -> (ms: u64)
        ensures
            ms == self.spec_delay_ms(),
    {
        match self {
            SessionAction::ConnectTcp
            | SessionAction::NotifyDataStream
            | SessionAction::WriteData
            | SessionAction::PollStatus => STEP_DELAY_MS,
            _ => 0,
        }
    }
}

/// How far a job has come: the number of steps of the fixed order that lie
/// behind a state.
pub open spec fn progress(state: SessionState) -> int {
    match state {
        SessionState::Idle => 0,
        SessionState::Ready => 1,
        SessionState::Started => 2,
        SessionState::Connected => 3,
        SessionState::Armed => 4,
        SessionState::Sent => 5,
        SessionState::Done => 6,
        SessionState::Failed(_) => 7,
    }
}

/// A job moves through its steps in the one fixed order: an event takes it
/// to the next step, keeps it polling, brings it to rest once it is done, or
/// fails it. No step is skipped and none is taken twice.
pub proof fn lemma_steps_in_order(state: SessionState, event: SessionEvent)
    ensures
        ({
            let next = state.spec_advance(event);
            ||| next is Failed
            ||| progress(next) == progress(state) + 1
            ||| (state is Sent && next is Sent && event is Status && event->Status_0 is Printing)
            ||| state is Done && next is Idle
        }),
        state is Failed ==> state.spec_advance(event) == state,
{
}

/// Stop-print is due only once the label was written and the printer has
/// stopped printing, and the label is written only to an armed printer.
pub proof fn lemma_stop_only_when_done(state: SessionState)
    ensures
        state.spec_action() == SessionAction::StopPrint <==> state is Done,
        state.spec_action() == SessionAction::WriteData <==> state is Armed,
        state.spec_action() == SessionAction::StartPrint <==> state is Ready,
{
}

} // verus!
