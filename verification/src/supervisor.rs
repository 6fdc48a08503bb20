//! The connection supervisor: connect, stream, and after every failure pause
//! for the configured delay and connect again, without end.

use crate::config::WatcherConfig;
use vstd::prelude::*;

verus! {

/// What the supervisor is waiting for.
#[derive(Clone, Copy, Debug, PartialEq, Eq, Structural)]
pub enum SupervisorState {
    /// A connect attempt is under way.
    Connecting,
    /// The connection stands and headers are being dispatched.
    Streaming,
    /// The pause before the next connect attempt is under way.
    Backoff,
}

/// What the driver reports back.
#[derive(Clone, Copy, Debug, PartialEq, Eq, Structural)]
pub enum SupervisorEvent {
    /// The connect attempt succeeded.
    Connected,
    /// The connect attempt failed.
    ConnectFailed,
    /// Subscribing failed, or the header stream gave an error.
    StreamFailed,
    /// The header stream ended without an error.
    StreamEnded,
    /// The pause is over.
    DelayElapsed,
}

/// What the supervisor asks of its driver.
#[derive(Clone, Copy, Debug, PartialEq, Eq, Structural)]
pub enum SupervisorAction {
    /// Open a connection.
    Connect,
    /// Subscribe to new heads and dispatch them until the stream ends.
    Stream,
    /// Pause for this many seconds.
    Sleep { seconds: u64 },
}

impl SupervisorEvent {
    /// Whether the event tells of a failed connect attempt or of the end of
    /// a stream, with or without an error.
    pub open spec fn is_failure(self) -> bool {
        self == SupervisorEvent::ConnectFailed || self == SupervisorEvent::StreamFailed || self
            == SupervisorEvent::StreamEnded
    }
}

/// The step of the supervisor: the next state and the action, or nothing
/// where the event does not answer what the state waits for.
pub open spec fn step(state: SupervisorState, event: SupervisorEvent, delay_secs: u64) -> Option<
    (SupervisorState, SupervisorAction),
> {
    match (state, event) {
        (SupervisorState::Connecting, SupervisorEvent::Connected) => Some(
            (SupervisorState::Streaming, SupervisorAction::Stream),
        ),
        (SupervisorState::Connecting, SupervisorEvent::ConnectFailed) => Some(
            (SupervisorState::Backoff, SupervisorAction::Sleep { seconds: delay_secs }),
        ),
        (SupervisorState::Streaming, SupervisorEvent::StreamFailed) => Some(
            (SupervisorState::Backoff, SupervisorAction::Sleep { seconds: delay_secs }),
        ),
        (SupervisorState::Streaming, SupervisorEvent::StreamEnded) => Some(
            (SupervisorState::Backoff, SupervisorAction::Sleep { seconds: delay_secs }),
        ),
        (SupervisorState::Backoff, SupervisorEvent::DelayElapsed) => Some(
            (SupervisorState::Connecting, SupervisorAction::Connect),
        ),
        _ => None,
    }
}

/// The state after a run of events, each of which is applied where the step
/// accepts it and passed over where it does not.
pub open spec fn state_after(
    state: SupervisorState,
    events: Seq<SupervisorEvent>,
    delay_secs: u64,
) -> SupervisorState
    decreases events.len(),
{
    if events.len() == 0 {
        state
    } else {
        let before = state_after(state, events.drop_last(), delay_secs);
        match step(before, events.last(), delay_secs) {
            Some((next, _)) => next,
            None => before,
        }
    }
}

/// The number of connect attempts that a run of events leads to, not
/// counting the one that the supervisor starts with.
pub open spec fn reconnects(
    state: SupervisorState,
    events: Seq<SupervisorEvent>,
    delay_secs: u64,
) -> nat
    decreases events.len(),
{
    if events.len() == 0 {
        0
    } else {
        let before = state_after(state, events.drop_last(), delay_secs);
        reconnects(state, events.drop_last(), delay_secs) + match step(
            before,
            events.last(),
            delay_secs,
        ) {
            Some((_, SupervisorAction::Connect)) => 1nat,
            _ => 0nat,
        }
    }
}

/// The number of failures that a run of events reports to a supervisor that
/// accepts them.
pub open spec fn failures(
    state: SupervisorState,
    events: Seq<SupervisorEvent>,
    delay_secs: u64,
) -> nat
    decreases events.len(),
{
    if events.len() == 0 {
        0
    } else {
        let before = state_after(state, events.drop_last(), delay_secs);
        failures(state, events.drop_last(), delay_secs) + if events.last().is_failure() && step(
            before,
            events.last(),
            delay_secs,
        ) is Some {
            1nat
        } else {
            0nat
        }
    }
}

/// Every failure is answered by a pause of the configured delay, and by
/// nothing else.
pub proof fn lemma_failure_leads_to_pause(
    state: SupervisorState,
    event: SupervisorEvent,
    delay_secs: u64,
)
    requires
        event.is_failure(),
        step(state, event, delay_secs) is Some,
    ensures
        step(state, event, delay_secs) == Some(
            (SupervisorState::Backoff, SupervisorAction::Sleep { seconds: delay_secs }),
        ),
{
}

/// A connect attempt is asked for only when a pause has run its course: the
/// step that asks for it starts in the pause and answers its end.
pub proof fn lemma_connect_follows_pause(
    state: SupervisorState,
    event: SupervisorEvent,
    delay_secs: u64,
)
    ensures
        (step(state, event, delay_secs) matches Some((_, action)) && action
            == SupervisorAction::Connect) <==> (state == SupervisorState::Backoff && event
            == SupervisorEvent::DelayElapsed),
        state == SupervisorState::Backoff ==> (step(state, event, delay_secs) is Some <==> event
            == SupervisorEvent::DelayElapsed),
{
}

/// From its start, the supervisor makes exactly one further connect attempt
/// for each failure: at every moment the attempts made equal the failures
/// reported, less the one whose pause is still under way.
pub proof fn lemma_one_reconnect_per_failure(events: Seq<SupervisorEvent>, delay_secs: u64)
    ensures
        failures(SupervisorState::Connecting, events, delay_secs) == reconnects(
            SupervisorState::Connecting,
            events,
            delay_secs,
        ) + if state_after(SupervisorState::Connecting, events, delay_secs)
            == SupervisorState::Backoff {
            1nat
        } else {
            0nat
        },
    decreases events.len(),
{
    if events.len() > 0 {
        lemma_one_reconnect_per_failure(events.drop_last(), delay_secs);
    }
}

/// The supervisor of one connection.
#[derive(Clone, Copy, Debug, PartialEq, Eq)]
pub struct Supervisor {
    state: SupervisorState,
    delay_secs: u64,
}

impl Supervisor {
    /// What the supervisor is waiting for.
    pub closed spec fn spec_state(&self) -> SupervisorState {
        self.state
    }

    /// The pause after a failure, in seconds.
    pub closed spec fn spec_delay_secs(&self) -> u64 {
        self.delay_secs
    }

    /// A supervisor whose driver is about to make the first connect attempt.
    pub fn new(config: &WatcherConfig) -> (supervisor: Self)
        ensures
            supervisor.spec_state() == SupervisorState::Connecting,
            supervisor.spec_delay_secs() == config.spec_reconnect_delay_secs(),
    {
        Supervisor { state: SupervisorState::Connecting, delay_secs: config.reconnect_delay_secs() }
    }

    /// Takes the driver's report and gives the next action, by [`step`]. A
    /// report that does not answer what the supervisor waits for is refused
    /// and changes nothing.
    pub fn on_event(&mut self, event: SupervisorEvent) -> (action: Option<SupervisorAction>)
        ensures
            final(self).spec_delay_secs() == old(self).spec_delay_secs(),
            match step(old(self).spec_state(), event, old(self).spec_delay_secs()) {
                Some((next, asked)) => action == Some(asked) && final(self).spec_state() == next,
                None => action is None && final(self).spec_state() == old(self).spec_state(),
            },
    {
        let pause = SupervisorAction::Sleep { seconds: self.delay_secs };
        match (self.state, event) {
            (SupervisorState::Connecting, SupervisorEvent::Connected) => {
                self.state = SupervisorState::Streaming;
                Some(SupervisorAction::Stream)
            },
            (SupervisorState::Connecting, SupervisorEvent::ConnectFailed) => {
                self.state = SupervisorState::Backoff;
                Some(pause)
            },
            (SupervisorState::Streaming, SupervisorEvent::StreamFailed) => {
                self.state = SupervisorState::Backoff;
                Some(pause)
            },
            (SupervisorState::Streaming, SupervisorEvent::StreamEnded) => {
                self.state = SupervisorState::Backoff;
                Some(pause)
            },
            (SupervisorState::Backoff, SupervisorEvent::DelayElapsed) => {
                self.state = SupervisorState::Connecting;
                Some(SupervisorAction::Connect)
            },
            _ => None,
        }
    }

    /// What the supervisor is waiting for.
    #[verifier::when_used_as_spec(spec_state)]
    pub fn state(&self) -> (state: SupervisorState)
        ensures
            state == self.spec_state(),
    {
        self.state
    }

    /// The pause after a failure, in seconds.
    #[verifier::when_used_as_spec(spec_delay_secs)]
    pub fn delay_secs(&self) -> (seconds: u64)
        ensures
            seconds == self.spec_delay_secs(),
    {
        self.delay_secs
    }
}

} // verus!
