use axactor::time::Duration;
use axactor::{MailboxMeter, ProcessGuard};

#[test]
fn a_new_meter_shows_a_first_instance() {
    let meter = MailboxMeter::new();
    assert_eq!(meter.len(), 0);
    assert_eq!(meter.inflight_count(), 0);
    assert_eq!(meter.incarnation(), 1);
    assert!(!meter.is_closed());
    assert!(!meter.is_terminated());
    assert!(meter.is_quiet());
}

#[test]
fn messages_are_counted_in_and_out() {
    let mut meter = MailboxMeter::new();
    meter.on_send_ok();
    meter.on_send_ok();
    assert_eq!(meter.len(), 2);
    meter.on_recv();
    assert_eq!(meter.len(), 1);
    assert!(!meter.is_quiet());
    meter.on_recv();
    assert!(meter.is_quiet());
}

#[test]
fn a_message_that_is_received_first_is_counted_right_in_the_end() {
    let mut meter = MailboxMeter::new();
    meter.on_recv_at(5);
    assert_eq!(meter.len(), usize::MAX);
    meter.on_send_ok_at(6);
    assert_eq!(meter.len(), 0);
}

#[test]
fn a_guard_counts_a_message_while_it_is_handled() {
    let mut meter = MailboxMeter::new();
    let guard = ProcessGuard::new(&mut meter);
    assert_eq!(meter.inflight_count(), 1);
    assert!(!meter.is_quiet());
    guard.finish(&mut meter, 30);
    assert_eq!(meter.inflight_count(), 0);
    assert_eq!(meter.idle_for_at(50), Duration::from_millis(20));
    meter.on_process_start();
    meter.on_process_end();
    assert_eq!(meter.inflight_count(), 0);
}

#[test]
fn idleness_and_silence_are_measured_apart() {
    let mut meter = MailboxMeter::new();
    meter.on_startup_at(10);
    meter.on_send_ok_at(40);
    assert_eq!(meter.idle_for_at(100), Duration::from_millis(90));
    assert_eq!(meter.silence_for_at(100), Duration::from_millis(60));
    meter.on_recv_at(70);
    assert_eq!(meter.silence_for_at(100), Duration::from_millis(30));
    assert_eq!(meter.silence_for_at(20), Duration::from_millis(0));
    assert_eq!(meter.idle_for_at(5), Duration::from_millis(0));
}

#[test]
fn the_clock_goes_on() {
    let mut meter = MailboxMeter::new();
    meter.on_startup();
    let start = meter.now_ms();
    let began = std::time::Instant::now();
    while began.elapsed().as_millis() < 30 {}
    assert!(meter.now_ms() >= start + 29);
    assert!(meter.idle_for().at_least(&Duration::from_millis(29)));
    assert!(meter.silence_for().at_least(&Duration::from_millis(29)));
    assert!(Duration::from_secs(10).at_least(&meter.idle_for()));
}

#[test]
fn what_ended_stays_ended() {
    let mut meter = MailboxMeter::new();
    meter.set_closed(true);
    meter.set_terminated(true);
    meter.on_send_ok();
    meter.on_recv();
    meter.on_process_start();
    meter.on_process_end();
    assert!(meter.is_closed() && meter.is_terminated());
}

#[test]
fn instances_are_counted() {
    let mut meter = MailboxMeter::new();
    meter.inc_incarnation();
    meter.inc_incarnation();
    assert_eq!(meter.incarnation(), 3);
}

#[test]
fn flags_are_kept() {
    let mut meter = MailboxMeter::new();
    meter.set_closed(true);
    assert!(meter.is_closed() && !meter.is_terminated());
    meter.set_terminated(true);
    assert!(meter.is_terminated());
    meter.set_closed(false);
    assert!(!meter.is_closed());
}
