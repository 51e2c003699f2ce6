use axactor::obs::{is_watched, on_message, ReportLevel};
use axactor::refs::{pick_idle, RefState};
use axactor::time::Duration;
use axactor::{RefMetrics, TellError};
use std::cell::Cell;

#[test]
fn slow_messages_are_warned_of() {
    let guard = on_message("counter", "CounterMsg::Inc");
    let fast = guard.report(99);
    assert_eq!(fast.level, ReportLevel::Debug);
    assert_eq!(fast.text, "Message processed");
    assert_eq!(fast.latency_ms, 99);
    let slow = guard.report(100);
    assert_eq!(slow.level, ReportLevel::Warn);
    assert_eq!(slow.text, "Slow message detected");
    assert_eq!(slow.actor, "counter");
    assert_eq!(slow.msg_type, "CounterMsg::Inc");
}

#[test]
fn the_time_of_a_message_is_measured() {
    let guard = on_message("counter", "CounterMsg::Inc");
    let began = std::time::Instant::now();
    while began.elapsed().as_millis() < 110 {}
    let report = guard.finish();
    assert!(report.latency_ms >= 110);
    assert_eq!(report.level, ReportLevel::Warn);
    assert_eq!(on_message("counter", "CounterMsg::Get").finish().msg_type, "CounterMsg::Get");
}

#[test]
fn messages_are_watched_where_a_report_would_be_seen() {
    assert!(is_watched(true, true));
    assert!(is_watched(false, true));
    assert!(is_watched(true, false));
    assert!(!is_watched(false, false));
}

struct Handle {
    state: RefState,
    stops: Cell<usize>,
}

impl Handle {
    fn new(mailbox_len: usize, inflight_count: usize, idle_ms: u64) -> Handle {
        let idle_for = Duration::from_millis(idle_ms);
        Handle { state: RefState { mailbox_len, inflight_count, idle_for }, stops: Cell::new(0) }
    }
}

impl RefMetrics for Handle {
    fn mailbox_len(&self) -> usize {
        self.state.mailbox_len
    }

    fn inflight_count(&self) -> usize {
        self.state.inflight_count
    }

    fn idle_for(&self) -> Duration {
        self.state.idle_for
    }

    fn silence_for(&self) -> Duration {
        self.state.idle_for
    }

    fn incarnation(&self) -> u64 {
        1
    }

    fn is_closed(&self) -> bool {
        false
    }

    fn is_terminated(&self) -> bool {
        false
    }

    fn stop(&self) -> Result<(), TellError> {
        self.stops.set(self.stops.get() + 1);
        Err(TellError::Full)
    }
}

#[test]
fn the_idle_are_stopped_and_nobody_else() {
    let handles = vec![
        Handle::new(0, 0, 100),
        Handle::new(1, 0, 1000),
        Handle::new(0, 1, 1000),
        Handle::new(0, 0, 99),
        Handle::new(0, 0, 5000),
    ];
    let states: Vec<RefState> = handles.iter().map(RefState::read).collect();
    let picked = pick_idle(&states, Duration::from_millis(100));
    assert_eq!(picked, vec![0, 4]);
    for place in picked {
        assert_eq!(handles[place].stop(), Err(TellError::Full));
    }
    assert_eq!(states, handles.iter().map(|h| h.state).collect::<Vec<_>>());
    let stops: Vec<usize> = handles.iter().map(|h| h.stops.get()).collect();
    assert_eq!(stops, vec![1, 0, 0, 0, 1]);
}

#[test]
fn nobody_is_idle_in_an_empty_shard() {
    assert!(pick_idle(&Vec::new(), Duration::from_millis(0)).is_empty());
}
