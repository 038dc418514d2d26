use ssh_terminal::channel::ChannelSignal;
use ssh_terminal::heartbeat::{
    heartbeat_step, HeartbeatMonitor, MonitorAction, MonitorEvent, MonitorState,
    CONNECTION_TIMEOUT_SECS, HEARTBEAT_INTERVAL_SECS, PROBE_COMMAND, PROBE_PAUSE_MILLIS,
    PROBE_SILENCE_LIMIT,
};

fn woke(secs: u64, nanos: u32) -> MonitorEvent {
    MonitorEvent::Woke { idle_secs: secs, idle_nanos: nanos }
}

fn waiting() -> HeartbeatMonitor {
    let (mut monitor, _) = HeartbeatMonitor::start();
    assert_eq!(monitor.step(woke(30, 0)), MonitorAction::OpenChannel);
    assert_eq!(monitor.step(MonitorEvent::ChannelOpened), MonitorAction::SendProbe);
    assert_eq!(monitor.step(MonitorEvent::ProbeAccepted), MonitorAction::Wait);
    monitor
}

#[test]
fn the_constants_of_the_monitor() {
    assert_eq!(HEARTBEAT_INTERVAL_SECS, 30);
    assert_eq!(CONNECTION_TIMEOUT_SECS, 300);
    assert_eq!(PROBE_SILENCE_LIMIT, 10);
    assert_eq!(PROBE_PAUSE_MILLIS, 100);
    assert_eq!(PROBE_COMMAND, "echo -n");
}

#[test]
fn a_monitor_starts_asleep() {
    let (monitor, action) = HeartbeatMonitor::start();
    assert_eq!(monitor.state, MonitorState::Sleeping);
    assert_eq!(action, MonitorAction::Sleep { secs: 30 });
    assert!(!monitor.is_terminated());
}

#[test]
fn an_answered_probe_refreshes_the_connection() {
    let mut monitor = waiting();
    assert_eq!(monitor.state, MonitorState::Waiting { silent: 0 });
    assert_eq!(monitor.step(MonitorEvent::Answered(ChannelSignal::Data)), MonitorAction::Refresh { secs: 30 });
    assert_eq!(monitor.state, MonitorState::Sleeping);
    assert_eq!(monitor.step(woke(30, 5)), MonitorAction::OpenChannel);
    assert_eq!(monitor.step(MonitorEvent::ChannelOpened), MonitorAction::SendProbe);
    assert_eq!(monitor.step(MonitorEvent::ProbeAccepted), MonitorAction::Wait);
    assert_eq!(monitor.step(MonitorEvent::Answered(ChannelSignal::ExitStatus)), MonitorAction::Refresh { secs: 30 });
    assert_eq!(monitor.state, MonitorState::Sleeping);
    assert!(!monitor.is_terminated());
}

#[test]
fn a_silent_connection_is_torn_down() {
    let (mut monitor, _) = HeartbeatMonitor::start();
    assert_eq!(monitor.step(woke(301, 0)), MonitorAction::Teardown);
    assert!(monitor.is_terminated());
}

#[test]
fn the_timeout_must_be_exceeded() {
    assert_eq!(
        heartbeat_step(MonitorState::Sleeping, woke(300, 0)),
        (MonitorState::Opening, MonitorAction::OpenChannel)
    );
    assert_eq!(
        heartbeat_step(MonitorState::Sleeping, woke(300, 1)),
        (MonitorState::Terminated, MonitorAction::Teardown)
    );
    assert_eq!(
        heartbeat_step(MonitorState::Sleeping, woke(299, 999_999_999)),
        (MonitorState::Opening, MonitorAction::OpenChannel)
    );
    assert_eq!(
        heartbeat_step(MonitorState::Sleeping, woke(0, 0)),
        (MonitorState::Opening, MonitorAction::OpenChannel)
    );
    assert_eq!(
        heartbeat_step(MonitorState::Sleeping, woke(u64::MAX, u32::MAX)),
        (MonitorState::Terminated, MonitorAction::Teardown)
    );
}

#[test]
fn a_refused_channel_tears_down() {
    let (mut monitor, _) = HeartbeatMonitor::start();
    assert_eq!(monitor.step(woke(30, 0)), MonitorAction::OpenChannel);
    assert_eq!(monitor.step(MonitorEvent::ChannelRefused), MonitorAction::Teardown);
    assert!(monitor.is_terminated());
}

#[test]
fn a_refused_probe_tears_down() {
    let (mut monitor, _) = HeartbeatMonitor::start();
    assert_eq!(monitor.step(woke(30, 0)), MonitorAction::OpenChannel);
    assert_eq!(monitor.step(MonitorEvent::ChannelOpened), MonitorAction::SendProbe);
    assert_eq!(monitor.step(MonitorEvent::ProbeRefused), MonitorAction::Teardown);
    assert!(monitor.is_terminated());
}

#[test]
fn a_probe_that_ends_without_answer_tears_down() {
    for signal in [ChannelSignal::Eof, ChannelSignal::Close] {
        let mut monitor = waiting();
        assert_eq!(monitor.step(MonitorEvent::Answered(signal)), MonitorAction::CloseAndTeardown);
        assert!(monitor.is_terminated());
    }
}

#[test]
fn a_probe_waits_in_vain_ten_times() {
    let mut monitor = waiting();
    let mut round: u32 = 1;
    while round <= 10 {
        assert_eq!(monitor.step(MonitorEvent::Answered(ChannelSignal::Nothing)), MonitorAction::PauseAndWait { millis: 100 });
        assert_eq!(monitor.state, MonitorState::Waiting { silent: round });
        round += 1;
    }
    assert_eq!(monitor.step(MonitorEvent::Answered(ChannelSignal::Nothing)), MonitorAction::CloseAndTeardown);
    assert!(monitor.is_terminated());
}

#[test]
fn an_answer_after_silence_still_counts() {
    let mut monitor = waiting();
    let mut round: u32 = 0;
    while round < 10 {
        assert_eq!(monitor.step(MonitorEvent::Answered(ChannelSignal::Nothing)), MonitorAction::PauseAndWait { millis: 100 });
        round += 1;
    }
    assert_eq!(monitor.step(MonitorEvent::Answered(ChannelSignal::Data)), MonitorAction::Refresh { secs: 30 });
    assert_eq!(monitor.state, MonitorState::Sleeping);
}

#[test]
fn other_messages_are_waited_out() {
    let mut monitor = waiting();
    assert_eq!(monitor.step(MonitorEvent::Answered(ChannelSignal::Nothing)), MonitorAction::PauseAndWait { millis: 100 });
    assert_eq!(monitor.step(MonitorEvent::Answered(ChannelSignal::Other)), MonitorAction::Wait);
    assert_eq!(monitor.state, MonitorState::Waiting { silent: 1 });
}

#[test]
fn a_silence_count_at_its_limit_cannot_grow() {
    assert_eq!(
        heartbeat_step(MonitorState::Waiting { silent: u32::MAX }, MonitorEvent::Answered(ChannelSignal::Nothing)),
        (MonitorState::Terminated, MonitorAction::CloseAndTeardown)
    );
}

#[test]
fn a_terminated_monitor_ignores_everything() {
    let events = [
        woke(0, 0),
        woke(1000, 0),
        MonitorEvent::ChannelOpened,
        MonitorEvent::ChannelRefused,
        MonitorEvent::ProbeAccepted,
        MonitorEvent::ProbeRefused,
        MonitorEvent::Answered(ChannelSignal::Data),
        MonitorEvent::Answered(ChannelSignal::Nothing),
    ];
    for event in events {
        assert_eq!(
            heartbeat_step(MonitorState::Terminated, event),
            (MonitorState::Terminated, MonitorAction::Ignore)
        );
    }
}

#[test]
fn events_that_are_not_awaited_are_ignored() {
    assert_eq!(
        heartbeat_step(MonitorState::Sleeping, MonitorEvent::ChannelOpened),
        (MonitorState::Sleeping, MonitorAction::Ignore)
    );
    assert_eq!(
        heartbeat_step(MonitorState::Opening, woke(500, 0)),
        (MonitorState::Opening, MonitorAction::Ignore)
    );
    assert_eq!(
        heartbeat_step(MonitorState::Requesting, MonitorEvent::Answered(ChannelSignal::Data)),
        (MonitorState::Requesting, MonitorAction::Ignore)
    );
    assert_eq!(
        heartbeat_step(MonitorState::Waiting { silent: 3 }, MonitorEvent::ProbeRefused),
        (MonitorState::Waiting { silent: 3 }, MonitorAction::Ignore)
    );
}
