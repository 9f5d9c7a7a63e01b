//! The state of the connection over which a worker polls, from one poll to the next.

use vstd::prelude::*;

verus! {

/// Connection state for the event-driven poller.
#[derive(Clone, Copy, Debug, PartialEq, Eq, Structural)]
pub enum ConnectionState {
    /// Connected and actively receiving tasks.
    Connected,
    /// Disconnected: attempting reconnection with backoff.
    Disconnected,
}

/// How a poll ended.
#[derive(Clone, Copy, Debug, PartialEq, Eq, Structural)]
pub enum PollOutcome {
    /// A task came.
    Task,
    /// No task is available.
    Empty,
    /// The connection failed.
    Error,
}

/// What the poller does next.
#[derive(Clone, Copy, Debug, PartialEq, Eq, Structural)]
pub enum PollAction {
    /// Hand the task on, and poll again.
    Forward,
    /// Poll again at once.
    Again,
    /// Wait before the given attempt to reconnect.
    BackOff(u32),
}

/// Where the poller stands: its connection, and how many attempts to reconnect it has made.
#[derive(Clone, Copy, Debug, PartialEq, Eq, Structural)]
pub struct PollerState {
    pub connection: ConnectionState,
    pub reconnect_attempt: u32,
}

/// The number of the attempt to reconnect after one more error: counted from one after a loss of
/// the connection.
pub open spec fn next_attempt(s: PollerState) -> int {
    if s.connection is Connected {
        1
    } else {
        s.reconnect_attempt + 1
    }
}

/// Where the poller stands after a poll.
pub open spec fn after_poll(s: PollerState, outcome: PollOutcome) -> PollerState {
    match outcome {
        PollOutcome::Error => PollerState {
            connection: ConnectionState::Disconnected,
            reconnect_attempt: next_attempt(s) as u32,
        },
        _ => PollerState { connection: ConnectionState::Connected, reconnect_attempt: 0 },
    }
}

/// What the poller does after a poll.
pub open spec fn poll_action(s: PollerState, outcome: PollOutcome) -> PollAction {
    match outcome {
        PollOutcome::Task => PollAction::Forward,
        PollOutcome::Empty => PollAction::Again,
        PollOutcome::Error => PollAction::BackOff(next_attempt(s) as u32),
    }
}

impl PollerState {
    /// A poller that has not connected yet.
    pub fn new() -> (r: PollerState)
        ensures
            r == (PollerState {
                connection: ConnectionState::Disconnected,
                reconnect_attempt: 0,
            }),
    {
        PollerState { connection: ConnectionState::Disconnected, reconnect_attempt: 0 }
    }

    /// Takes the outcome of a poll, and tells what to do next.
    pub fn step(&mut self, outcome: PollOutcome) -> (r: PollAction)
        requires
            outcome is Error ==> next_attempt(*old(self)) <= u32::MAX,
        ensures
            *final(self) == after_poll(*old(self), outcome),
            r == poll_action(*old(self), outcome),
    {
        match outcome {
            PollOutcome::Task => {
                self.connection = ConnectionState::Connected;
                self.reconnect_attempt = 0;
                PollAction::Forward
            },
            PollOutcome::Empty => {
                self.connection = ConnectionState::Connected;
                self.reconnect_attempt = 0;
                PollAction::Again
            },
            PollOutcome::Error => {
                if self.connection == ConnectionState::Connected {
                    self.connection = ConnectionState::Disconnected;
                    self.reconnect_attempt = 0;
                }
                self.reconnect_attempt = self.reconnect_attempt + 1;
                PollAction::BackOff(self.reconnect_attempt)
            },
        }
    }
}

} // verus!
