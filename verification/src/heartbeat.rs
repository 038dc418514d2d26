//! The heartbeat monitor of one connection, as a state machine.
//!
//! The monitor sleeps for an interval, then checks how long the connection
//! has been without a sign of life. A connection that has been silent for
//! too long is torn down. Otherwise the monitor probes it: it opens a
//! channel, sends a command that does nothing, and waits for an answer. An
//! answer refreshes the liveness of the connection; anything else tears it
//! down. The caller does what each step asks for and reports what came of
//! it.

use crate::channel::ChannelSignal;
use vstd::prelude::*;

verus! {

/// The seconds between two probes.
pub const HEARTBEAT_INTERVAL_SECS: u64 = 30;

/// The seconds without a sign of life after which a connection counts as
/// dead.
pub const CONNECTION_TIMEOUT_SECS: u64 = 300;

/// How often a probe may wait in vain before it counts as failed.
pub const PROBE_SILENCE_LIMIT: u32 = 10;

/// The milliseconds between two waits of a probe.
pub const PROBE_PAUSE_MILLIS: u64 = 100;

/// The command that a probe sends.
pub const PROBE_COMMAND: &'static str = "echo -n";

/// Where the monitor stands.
#[derive(Debug, Clone, Copy, PartialEq, Eq, Structural)]
pub enum MonitorState {
    /// Asleep until the next interval has passed.
    Sleeping,
    /// Waiting for the channel of a probe to open.
    Opening,
    /// Waiting for the server to take the probe command.
    Requesting,
    /// Waiting for an answer to the probe, after `silent` waits in vain.
    Waiting { silent: u32 },
    /// Done: the connection was torn down.
    Terminated,
}

/// What the caller reports to the monitor.
#[derive(Debug, Clone, Copy, PartialEq, Eq, Structural)]
pub enum MonitorEvent {
    /// The interval has passed. The connection has been without a sign of
    /// life for `idle_secs` seconds and `idle_nanos` nanoseconds.
    Woke { idle_secs: u64, idle_nanos: u32 },
    /// The channel is open.
    ChannelOpened,
    /// No channel could be opened.
    ChannelRefused,
    /// The server took the probe command.
    ProbeAccepted,
    /// The server did not take the probe command.
    ProbeRefused,
    /// The channel answered a wait.
    Answered(ChannelSignal),
}

/// What the monitor asks the caller to do.
#[derive(Debug, Clone, Copy, PartialEq, Eq, Structural)]
pub enum MonitorAction {
    /// Sleep for so many seconds and report `Woke`.
    Sleep { secs: u64 },
    /// Open a channel and report `ChannelOpened` or `ChannelRefused`.
    OpenChannel,
    /// Send the probe command and report `ProbeAccepted` or `ProbeRefused`.
    SendProbe,
    /// Wait on the channel and report `Answered`.
    Wait,
    /// Pause for so many milliseconds, then wait on the channel and report
    /// `Answered`.
    PauseAndWait { millis: u64 },
    /// Close the channel, set the liveness of the connection to now, then
    /// sleep for so many seconds and report `Woke`.
    Refresh { secs: u64 },
    /// Close the channel, then tear the connection down and stop.
    CloseAndTeardown,
    /// Tear the connection down and stop.
    Teardown,
    /// Do nothing: the event was not awaited.
    Ignore,
}

/// Whether a connection has been without a sign of life for longer than the
/// timeout.
pub open spec fn is_stale(idle_secs: u64, idle_nanos: u32) -> bool {
    idle_secs > CONNECTION_TIMEOUT_SECS || (idle_secs == CONNECTION_TIMEOUT_SECS && idle_nanos > 0)
}

/// The state that an event leads to, and what is to be done.
pub open spec fn monitor_step(state: MonitorState, event: MonitorEvent) -> (
    MonitorState,
    MonitorAction,
) {
    match state {
        MonitorState::Sleeping => match event {
            MonitorEvent::Woke { idle_secs, idle_nanos } => if is_stale(idle_secs, idle_nanos) {
                (MonitorState::Terminated, MonitorAction::Teardown)
            } else {
                (MonitorState::Opening, MonitorAction::OpenChannel)
            },
            _ => (state, MonitorAction::Ignore),
        },
        MonitorState::Opening => match event {
            MonitorEvent::ChannelOpened => (MonitorState::Requesting, MonitorAction::SendProbe),
            MonitorEvent::ChannelRefused => (MonitorState::Terminated, MonitorAction::Teardown),
            _ => (state, MonitorAction::Ignore),
        },
        MonitorState::Requesting => match event {
            MonitorEvent::ProbeAccepted => (
                MonitorState::Waiting { silent: 0 },
                MonitorAction::Wait,
            ),
            MonitorEvent::ProbeRefused => (MonitorState::Terminated, MonitorAction::Teardown),
            _ => (state, MonitorAction::Ignore),
        },
        MonitorState::Waiting { silent } => match event {
            MonitorEvent::Answered(signal) => match signal {
                ChannelSignal::Data | ChannelSignal::ExitStatus => (
                    MonitorState::Sleeping,
                    MonitorAction::Refresh { secs: HEARTBEAT_INTERVAL_SECS },
                ),
                ChannelSignal::Eof | ChannelSignal::Close => (
                    MonitorState::Terminated,
                    MonitorAction::CloseAndTeardown,
                ),
                ChannelSignal::Nothing => if silent >= PROBE_SILENCE_LIMIT {
                    (MonitorState::Terminated, MonitorAction::CloseAndTeardown)
                } else {
                    (
                        MonitorState::Waiting { silent: (silent + 1) as u32 },
                        MonitorAction::PauseAndWait { millis: PROBE_PAUSE_MILLIS },
                    )
                },
                ChannelSignal::Other => (state, MonitorAction::Wait),
            },
            _ => (state, MonitorAction::Ignore),
        },
        MonitorState::Terminated => (state, MonitorAction::Ignore),
    }
}

/// Whether an action tears the connection down.
pub open spec fn tears_down(action: MonitorAction) -> bool {
    action == MonitorAction::Teardown || action == MonitorAction::CloseAndTeardown
}

/// Whether an event reports that the connection is dead: it has been silent
/// for longer than the timeout, or a probe failed.
pub open spec fn reports_death(state: MonitorState, event: MonitorEvent) -> bool {
    match state {
        MonitorState::Sleeping => event matches MonitorEvent::Woke { idle_secs, idle_nanos }
            && is_stale(idle_secs, idle_nanos),
        MonitorState::Opening => event == MonitorEvent::ChannelRefused,
        MonitorState::Requesting => event == MonitorEvent::ProbeRefused,
        MonitorState::Waiting { silent } => event == MonitorEvent::Answered(ChannelSignal::Eof)
            || event == MonitorEvent::Answered(ChannelSignal::Close) || (event
            == MonitorEvent::Answered(ChannelSignal::Nothing) && silent >= PROBE_SILENCE_LIMIT),
        MonitorState::Terminated => false,
    }
}

/// The monitor of one connection.
#[derive(Debug)]
pub struct HeartbeatMonitor {
    pub state: MonitorState,
}

impl HeartbeatMonitor {
    /// A monitor at the start of its first interval. The caller begins by
    /// sleeping for the interval.
    pub fn start() -> (begun: (Self, MonitorAction))
        ensures
            begun.0.state == MonitorState::Sleeping,
            begun.1 == (MonitorAction::Sleep { secs: HEARTBEAT_INTERVAL_SECS }),
    {
        (
            HeartbeatMonitor { state: MonitorState::Sleeping },
            MonitorAction::Sleep { secs: HEARTBEAT_INTERVAL_SECS },
        )
    }

    /// Whether the monitor is done.
    pub fn is_terminated(&self) -> (done: bool)
        ensures
            done == (self.state == MonitorState::Terminated),
    {
        match self.state {
            MonitorState::Terminated => true,
            _ => false,
        }
    }

    /// Takes an event and says what to do next.
    pub fn step(&mut self, event: MonitorEvent) -> (action: MonitorAction)
        ensures
            (final(self).state, action) == monitor_step(old(self).state, event),
    {
        let (next, action) = heartbeat_step(self.state, event);
        self.state = next;
        action
    }
}

/// The state that an event leads to, and what is to be done.
pub fn heartbeat_step(state: MonitorState, event: MonitorEvent) -> (next: (
    MonitorState,
    MonitorAction,
))
    ensures
        next == monitor_step(state, event),
{
    match state {
        MonitorState::Sleeping => match event {
            MonitorEvent::Woke { idle_secs, idle_nanos } => {
                if idle_secs > CONNECTION_TIMEOUT_SECS || (idle_secs == CONNECTION_TIMEOUT_SECS
                    && idle_nanos > 0) {
                    (MonitorState::Terminated, MonitorAction::Teardown)
                } else {
                    (MonitorState::Opening, MonitorAction::OpenChannel)
                }
            },
            _ => (state, MonitorAction::Ignore),
        },
        MonitorState::Opening => match event {
            MonitorEvent::ChannelOpened => (MonitorState::Requesting, MonitorAction::SendProbe),
            MonitorEvent::ChannelRefused => (MonitorState::Terminated, MonitorAction::Teardown),
            _ => (state, MonitorAction::Ignore),
        },
        MonitorState::Requesting => match event {
            MonitorEvent::ProbeAccepted => (
                MonitorState::Waiting { silent: 0 },
                MonitorAction::Wait,
            ),
            MonitorEvent::ProbeRefused => (MonitorState::Terminated, MonitorAction::Teardown),
            _ => (state, MonitorAction::Ignore),
        },
        MonitorState::Waiting { silent } => match event {
            MonitorEvent::Answered(signal) => match signal {
                ChannelSignal::Data => (
                    MonitorState::Sleeping,
                    MonitorAction::Refresh { secs: HEARTBEAT_INTERVAL_SECS },
                ),
                ChannelSignal::ExitStatus => (
                    MonitorState::Sleeping,
                    MonitorAction::Refresh { secs: HEARTBEAT_INTERVAL_SECS },
                ),
                ChannelSignal::Eof => (MonitorState::Terminated, MonitorAction::CloseAndTeardown),
                ChannelSignal::Close => (
                    MonitorState::Terminated,
                    MonitorAction::CloseAndTeardown,
                ),
                ChannelSignal::Nothing => {
                    if silent >= PROBE_SILENCE_LIMIT {
                        (MonitorState::Terminated, MonitorAction::CloseAndTeardown)
                    } else {
                        (
                            MonitorState::Waiting { silent: silent + 1 },
                            MonitorAction::PauseAndWait { millis: PROBE_PAUSE_MILLIS },
                        )
                    }
                },
                ChannelSignal::Other => (state, MonitorAction::Wait),
            },
            _ => (state, MonitorAction::Ignore),
        },
        MonitorState::Terminated => (state, MonitorAction::Ignore),
    }
}

/// A dead connection is torn down: whenever an event reports that the
/// connection has been silent for too long or that a probe failed, the
/// monitor asks for the teardown and is done.
pub proof fn lemma_death_tears_down(state: MonitorState, event: MonitorEvent)
    requires
        reports_death(state, event),
    ensures
        monitor_step(state, event).0 == MonitorState::Terminated,
        tears_down(monitor_step(state, event).1),
{
}

/// Only a reported death ends the monitor: a step tears the connection
/// down, or leads a running monitor to its end, only where the event
/// reports a death.
pub proof fn lemma_teardown_only_on_death(state: MonitorState, event: MonitorEvent)
    requires
        state != MonitorState::Terminated,
    ensures
        tears_down(monitor_step(state, event).1) <==> reports_death(state, event),
        monitor_step(state, event).0 == MonitorState::Terminated <==> reports_death(state, event),
{
}

/// A monitor that is done stays done and asks for nothing more.
pub proof fn lemma_terminated_stays(event: MonitorEvent)
    ensures
        monitor_step(MonitorState::Terminated, event) == (
            MonitorState::Terminated,
            MonitorAction::Ignore,
        ),
{
}

/// The state of a probe after so many waits in a row that came back with
/// nothing.
pub open spec fn after_silence(state: MonitorState, waits: nat) -> MonitorState
    decreases waits,
{
    if waits == 0 {
        state
    } else {
        monitor_step(
            after_silence(state, (waits - 1) as nat),
            MonitorEvent::Answered(ChannelSignal::Nothing),
        ).0
    }
}

/// A probe does not wait for ever: while it has waited in vain no more
/// often than the limit allows it goes on waiting, and the next wait in
/// vain ends it and the monitor.
pub proof fn lemma_silent_probe_ends(waits: nat)
    ensures
        waits <= PROBE_SILENCE_LIMIT ==> after_silence(MonitorState::Waiting { silent: 0 }, waits)
            == (MonitorState::Waiting { silent: waits as u32 }),
        waits > PROBE_SILENCE_LIMIT ==> after_silence(MonitorState::Waiting { silent: 0 }, waits)
            == MonitorState::Terminated,
    decreases waits,
{
    if waits > 0 {
        lemma_silent_probe_ends((waits - 1) as nat);
    }
}

/// The state of a monitor after a run of events.
pub open spec fn monitor_run(state: MonitorState, events: Seq<MonitorEvent>) -> MonitorState
    decreases events.len(),
{
    if events.len() == 0 {
        state
    } else {
        monitor_step(monitor_run(state, events.drop_last()), events.last()).0
    }
}

/// One reported death ends the monitor for good: a run in which some event
/// reports a death, in the state that the events before it led to, ends
/// with the monitor done, whatever follows.
pub proof fn lemma_death_ends_run(state: MonitorState, events: Seq<MonitorEvent>, at: int)
    requires
        0 <= at < events.len(),
        reports_death(monitor_run(state, events.take(at)), events[at]),
    ensures
        monitor_run(state, events) == MonitorState::Terminated,
    decreases events.len(),
{
    let before = events.drop_last();
    if at == events.len() - 1 {
        assert(events.take(at) == before);
    } else {
        assert(before.take(at) == events.take(at));
        assert(before[at] == events[at]);
        lemma_death_ends_run(state, before, at);
    }
}

} // verus!
