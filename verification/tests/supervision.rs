use contract_watch::config::{ConfigError, WatcherConfig};
use contract_watch::dispatcher::{DispatchAction, Dispatcher, DispatcherState, HeaderItem};
use contract_watch::model::BlockHeader;
use contract_watch::pipeline::{start_block, BlockFetch, BlockSkip};
use contract_watch::supervisor::{
    Supervisor, SupervisorAction, SupervisorEvent, SupervisorState,
};

fn header(number: u64) -> BlockHeader {
    BlockHeader { number, timestamp: 1_700_000_000 + number }
}

#[test]
fn default_settings() {
    let config = WatcherConfig::default();
    assert_eq!(config.receipt_concurrency(), 200);
    assert_eq!(config.channel_capacity(), 100);
    assert_eq!(config.reconnect_delay_secs(), 5);
    assert_eq!(WatcherConfig::new(200, 100, 5), Ok(config));
}

#[test]
fn settings_at_the_ends_of_their_ranges() {
    let low = WatcherConfig::new(100, 100, 5).unwrap();
    assert_eq!(low.receipt_concurrency(), 100);
    assert_eq!(low.channel_capacity(), 100);
    assert_eq!(low.reconnect_delay_secs(), 5);
    let high = WatcherConfig::new(200, 1000, 10).unwrap();
    assert_eq!(high.receipt_concurrency(), 200);
    assert_eq!(high.channel_capacity(), 1000);
    assert_eq!(high.reconnect_delay_secs(), 10);
}

#[test]
fn settings_out_of_range_are_refused() {
    assert_eq!(WatcherConfig::new(99, 100, 5), Err(ConfigError::ReceiptConcurrencyOutOfRange));
    assert_eq!(WatcherConfig::new(201, 100, 5), Err(ConfigError::ReceiptConcurrencyOutOfRange));
    assert_eq!(WatcherConfig::new(0, 0, 0), Err(ConfigError::ReceiptConcurrencyOutOfRange));
    assert_eq!(WatcherConfig::new(150, 99, 5), Err(ConfigError::ChannelCapacityOutOfRange));
    assert_eq!(WatcherConfig::new(150, 1001, 0), Err(ConfigError::ChannelCapacityOutOfRange));
    assert_eq!(WatcherConfig::new(150, 500, 4), Err(ConfigError::ReconnectDelayOutOfRange));
    assert_eq!(WatcherConfig::new(150, 500, 11), Err(ConfigError::ReconnectDelayOutOfRange));
}

#[test]
fn supervisor_starts_by_connecting() {
    let supervisor = Supervisor::new(&WatcherConfig::new(100, 100, 7).unwrap());
    assert_eq!(supervisor.state(), SupervisorState::Connecting);
    assert_eq!(supervisor.delay_secs(), 7);
}

#[test]
fn failed_connect_is_followed_by_one_pause_and_one_attempt() {
    let mut supervisor = Supervisor::new(&WatcherConfig::default());
    assert_eq!(
        supervisor.on_event(SupervisorEvent::ConnectFailed),
        Some(SupervisorAction::Sleep { seconds: 5 })
    );
    assert_eq!(supervisor.state(), SupervisorState::Backoff);
    assert_eq!(supervisor.on_event(SupervisorEvent::DelayElapsed), Some(SupervisorAction::Connect));
    assert_eq!(supervisor.state(), SupervisorState::Connecting);
}

#[test]
fn stream_error_and_stream_end_both_restart() {
    for end in [SupervisorEvent::StreamFailed, SupervisorEvent::StreamEnded] {
        let mut supervisor = Supervisor::new(&WatcherConfig::new(100, 100, 10).unwrap());
        assert_eq!(supervisor.on_event(SupervisorEvent::Connected), Some(SupervisorAction::Stream));
        assert_eq!(supervisor.state(), SupervisorState::Streaming);
        assert_eq!(supervisor.on_event(end), Some(SupervisorAction::Sleep { seconds: 10 }));
        assert_eq!(
            supervisor.on_event(SupervisorEvent::DelayElapsed),
            Some(SupervisorAction::Connect)
        );
    }
}

#[test]
fn report_that_answers_nothing_is_refused() {
    let all = [
        SupervisorEvent::Connected,
        SupervisorEvent::ConnectFailed,
        SupervisorEvent::StreamFailed,
        SupervisorEvent::StreamEnded,
        SupervisorEvent::DelayElapsed,
    ];
    let config = WatcherConfig::default();
    for event in all {
        let mut connecting = Supervisor::new(&config);
        let accepted = connecting.on_event(event).is_some();
        assert_eq!(
            accepted,
            matches!(event, SupervisorEvent::Connected | SupervisorEvent::ConnectFailed)
        );
        if !accepted {
            assert_eq!(connecting.state(), SupervisorState::Connecting);
        }

        let mut streaming = Supervisor::new(&config);
        streaming.on_event(SupervisorEvent::Connected);
        let accepted = streaming.on_event(event).is_some();
        assert_eq!(
            accepted,
            matches!(event, SupervisorEvent::StreamFailed | SupervisorEvent::StreamEnded)
        );
        if !accepted {
            assert_eq!(streaming.state(), SupervisorState::Streaming);
        }

        let mut pausing = Supervisor::new(&config);
        pausing.on_event(SupervisorEvent::ConnectFailed);
        let accepted = pausing.on_event(event).is_some();
        assert_eq!(accepted, matches!(event, SupervisorEvent::DelayElapsed));
        if !accepted {
            assert_eq!(pausing.state(), SupervisorState::Backoff);
        }
    }
}

#[test]
fn each_failure_gets_exactly_one_reconnect() {
    let mut supervisor = Supervisor::new(&WatcherConfig::default());
    let mut connects = 1;
    let mut pauses = 0;
    let mut failures = 0;
    let mut action = SupervisorAction::Connect;
    for round in 0..40u32 {
        let event = match action {
            SupervisorAction::Connect => {
                if round % 3 == 0 {
                    failures += 1;
                    SupervisorEvent::ConnectFailed
                } else {
                    SupervisorEvent::Connected
                }
            }
            SupervisorAction::Stream => {
                failures += 1;
                if round % 2 == 0 {
                    SupervisorEvent::StreamFailed
                } else {
                    SupervisorEvent::StreamEnded
                }
            }
            SupervisorAction::Sleep { seconds } => {
                assert_eq!(seconds, 5);
                SupervisorEvent::DelayElapsed
            }
        };
        let before = action;
        action = supervisor.on_event(event).unwrap();
        match action {
            SupervisorAction::Connect => {
                connects += 1;
                assert!(matches!(before, SupervisorAction::Sleep { .. }));
            }
            SupervisorAction::Sleep { .. } => pauses += 1,
            SupervisorAction::Stream => {}
        }
        assert_eq!(pauses, failures);
        let pausing = supervisor.state() == SupervisorState::Backoff;
        assert_eq!(connects - 1 + if pausing { 1 } else { 0 }, failures);
    }
    assert!(failures > 5);
}

#[test]
fn dispatcher_starts_one_pipeline_per_header() {
    let mut dispatcher = Dispatcher::new();
    assert_eq!(dispatcher.state(), DispatcherState::Running);
    assert_eq!(dispatcher.report(), None);
    for number in 100..110 {
        assert_eq!(
            dispatcher.on_item(HeaderItem::Header(header(number))),
            DispatchAction::StartPipeline(header(number))
        );
        assert_eq!(dispatcher.state(), DispatcherState::Running);
    }
}

#[test]
fn stream_error_after_five_headers_reaches_the_supervisor() {
    let mut supervisor = Supervisor::new(&WatcherConfig::default());
    let mut connect_calls = 1;
    assert_eq!(supervisor.on_event(SupervisorEvent::Connected), Some(SupervisorAction::Stream));

    let mut dispatcher = Dispatcher::new();
    let mut started = Vec::new();
    let mut items: Vec<HeaderItem> = (1..=5).map(|n| HeaderItem::Header(header(n))).collect();
    items.push(HeaderItem::Failed);
    items.push(HeaderItem::Header(header(6)));
    let mut report = None;
    for item in items {
        match dispatcher.on_item(item) {
            DispatchAction::StartPipeline(h) => started.push(h.number),
            DispatchAction::ReportFailure | DispatchAction::ReportEnd => {
                report = dispatcher.report();
                break;
            }
        }
    }
    assert_eq!(started, vec![1, 2, 3, 4, 5]);
    assert_eq!(dispatcher.state(), DispatcherState::Failed);
    assert_eq!(report, Some(SupervisorEvent::StreamFailed));

    assert_eq!(
        supervisor.on_event(report.unwrap()),
        Some(SupervisorAction::Sleep { seconds: 5 })
    );
    assert_eq!(supervisor.on_event(SupervisorEvent::Connected), None);
    match supervisor.on_event(SupervisorEvent::DelayElapsed) {
        Some(SupervisorAction::Connect) => connect_calls += 1,
        other => panic!("expected a connect, got {:?}", other),
    }
    assert_eq!(connect_calls, 2);
}

#[test]
fn stopped_dispatcher_starts_nothing_more() {
    let mut failed = Dispatcher::new();
    assert_eq!(failed.on_item(HeaderItem::Failed), DispatchAction::ReportFailure);
    assert_eq!(failed.on_item(HeaderItem::Header(header(1))), DispatchAction::ReportFailure);
    assert_eq!(failed.on_item(HeaderItem::Closed), DispatchAction::ReportFailure);
    assert_eq!(failed.report(), Some(SupervisorEvent::StreamFailed));

    let mut ended = Dispatcher::new();
    assert_eq!(ended.on_item(HeaderItem::Closed), DispatchAction::ReportEnd);
    assert_eq!(ended.on_item(HeaderItem::Header(header(1))), DispatchAction::ReportEnd);
    assert_eq!(ended.on_item(HeaderItem::Failed), DispatchAction::ReportEnd);
    assert_eq!(ended.state(), DispatcherState::Ended);
    assert_eq!(ended.report(), Some(SupervisorEvent::StreamEnded));
}

#[test]
fn absent_block_does_not_stop_the_dispatcher() {
    let config = WatcherConfig::default();
    let mut dispatcher = Dispatcher::new();
    assert_eq!(
        dispatcher.on_item(HeaderItem::Header(header(101))),
        DispatchAction::StartPipeline(header(101))
    );
    assert!(matches!(start_block(&BlockFetch::Absent, &config), Err(BlockSkip::Absent)));
    assert_eq!(dispatcher.state(), DispatcherState::Running);
    assert_eq!(dispatcher.report(), None);
    assert_eq!(
        dispatcher.on_item(HeaderItem::Header(header(102))),
        DispatchAction::StartPipeline(header(102))
    );
}
