//! The listener: its running flag, and what the accept loop and the
//! connection tasks do next.
//!
//! The caller owns the socket and the threads. It asks [`Server::poll`]
//! before each attempt to accept, reports how the attempt ended to
//! [`Server::on_accept`], and carries out the step it gets. Each connection
//! task looks at [`Server::is_running`] before each turn, reports how the
//! turn ended to [`Server::on_turn`], and carries out the step it gets.

use vstd::prelude::*;

verus! {

/// Milliseconds that the accept loop sleeps when no connection is pending.
pub const ACCEPT_BACKOFF_MILLIS: u64 = 100;

/// Milliseconds that a connection task sleeps when its socket has no data.
pub const READ_BACKOFF_MILLIS: u64 = 10;

/// How one attempt to accept a connection ended.
#[derive(Clone, Copy, Debug, PartialEq, Eq, Structural)]
pub enum AcceptOutcome {
    /// A connection was accepted.
    Accepted,
    /// No connection is pending on the non-blocking listener.
    WouldBlock,
    /// The attempt was interrupted.
    Interrupted,
    /// The attempt failed in any other way.
    Failed,
}

/// What the accept loop does next.
#[derive(Clone, Copy, Debug, PartialEq, Eq, Structural)]
pub enum AcceptStep {
    /// Try to accept a connection.
    Accept,
    /// Put the accepted socket into non-blocking mode, start a task for it,
    /// and poll again.
    Serve,
    /// Sleep for this many milliseconds, and poll again.
    Wait { millis: u64 },
    /// Leave the loop; the run ends well.
    Halt,
    /// Leave the loop; the run ends with the error of the attempt.
    Fail,
}

/// How one turn of a connection task ended: one read, and what followed it.
#[derive(Clone, Copy, Debug, PartialEq, Eq, Structural)]
pub enum TurnOutcome {
    /// The read gave bytes, they were handled, and a reply, if there was
    /// one, was written and flushed.
    Handled,
    /// The read gave no bytes: the peer has closed the connection.
    Disconnected,
    /// The socket had nothing to read, or could not take the reply yet.
    WouldBlock,
    /// Reading or writing failed in any other way.
    Failed,
}

/// What a connection task does next.
#[derive(Clone, Copy, Debug, PartialEq, Eq, Structural)]
pub enum TaskStep {
    /// Take the next turn, if the server is still running.
    Continue,
    /// Sleep for this many milliseconds, then take the next turn, if the
    /// server is still running.
    Wait { millis: u64 },
    /// Leave the task and drop the socket. The server goes on.
    Close,
}

/// The step at the head of the accept loop: try to accept while the server
/// runs, leave the loop once it does not.
pub open spec fn poll_step(running: bool) -> AcceptStep {
    if running {
        AcceptStep::Accept
    } else {
        AcceptStep::Halt
    }
}

/// The step that follows an attempt to accept.
///
/// A connection is served. That none is pending is no error: the loop waits
/// and tries again. An interruption ends the loop without an error, any
/// other failure ends it with that error.
pub open spec fn accept_step(outcome: AcceptOutcome) -> AcceptStep {
    match outcome {
        AcceptOutcome::Accepted => AcceptStep::Serve,
        AcceptOutcome::WouldBlock => AcceptStep::Wait { millis: ACCEPT_BACKOFF_MILLIS },
        AcceptOutcome::Interrupted => AcceptStep::Halt,
        AcceptOutcome::Failed => AcceptStep::Fail,
    }
}

/// The step that follows a turn of a connection task.
///
/// After bytes were handled the task reads on. That the socket would block
/// is no error: the task waits and tries again. A closed connection ends the
/// task, and so does any other failure.
pub open spec fn task_step(outcome: TurnOutcome) -> TaskStep {
    match outcome {
        TurnOutcome::Handled => TaskStep::Continue,
        TurnOutcome::WouldBlock => TaskStep::Wait { millis: READ_BACKOFF_MILLIS },
        TurnOutcome::Disconnected => TaskStep::Close,
        TurnOutcome::Failed => TaskStep::Close,
    }
}

/// The listener's side of the server: the flag that says whether it runs.
///
/// The flag is shared by the accept loop and every connection task. All of
/// them read it; only [`Server::run`] sets it and only [`Server::stop`]
/// clears it.
#[derive(Debug)]
pub struct Server {
    running: bool,
}

impl Server {
    /// Whether the server runs.
    pub closed spec fn running(&self) -> bool {
        self.running
    }

    /// A server that does not run yet.
    pub fn new() -> (server: Server)
        ensures
            !server.running(),
    {
        Server { running: false }
    }

    /// Whether the server runs. The accept loop and the connection tasks go
    /// on only while it does.
    pub fn is_running(&self) -> (running: bool)
        ensures
            running == self.running(),
    {
        self.running
    }

    /// Enters the running state. The caller then puts the listener into
    /// non-blocking mode and begins to poll.
    pub fn run(&mut self)
        ensures
            final(self).running(),
    {
        self.running = true;
    }

    /// Asks for a shutdown: clears the running flag if it is set.
    ///
    /// Returns whether the flag was set. A second call changes nothing and
    /// returns `false`. Nothing is closed and nobody is waited for: the
    /// accept loop and the connection tasks see the flag when they next
    /// look. The accept loop then halts, so no further connection is
    /// accepted; a connection task ends at the start of its next turn.
    pub fn stop(&mut self) -> (was_running: bool)
        ensures
            was_running == old(self).running(),
            !final(self).running(),
            poll_step(final(self).running()) == AcceptStep::Halt,
    {
        let was_running = self.running;
        self.running = false;
        was_running
    }

    /// The head of the accept loop: try to accept while the server runs,
    /// leave the loop once it does not. See [`poll_step`].
    pub fn poll(&self) -> (step: AcceptStep)
        ensures
            step == poll_step(self.running()),
    {
        if self.running {
            AcceptStep::Accept
        } else {
            AcceptStep::Halt
        }
    }

    /// What the accept loop does after an attempt to accept that ended with
    /// `outcome`. See [`accept_step`]. The flag plays no part here: it is
    /// looked at when the loop polls again.
    pub fn on_accept(outcome: AcceptOutcome) -> (step: AcceptStep)
        ensures
            step == accept_step(outcome),
    {
        match outcome {
            AcceptOutcome::Accepted => AcceptStep::Serve,
            AcceptOutcome::WouldBlock => AcceptStep::Wait { millis: ACCEPT_BACKOFF_MILLIS },
            AcceptOutcome::Interrupted => AcceptStep::Halt,
            AcceptOutcome::Failed => AcceptStep::Fail,
        }
    }

    /// What a connection task does after a turn that ended with `outcome`.
    /// See [`task_step`]. No outcome of a turn ends the server.
    pub fn on_turn(outcome: TurnOutcome) -> (step: TaskStep)
        ensures
            step == task_step(outcome),
    {
        match outcome {
            TurnOutcome::Handled => TaskStep::Continue,
            TurnOutcome::WouldBlock => TaskStep::Wait { millis: READ_BACKOFF_MILLIS },
            TurnOutcome::Disconnected => TaskStep::Close,
            TurnOutcome::Failed => TaskStep::Close,
        }
    }
}

} // verus!
