use axactor::time::Duration;
use axactor::{Context, RestartPolicy, ShutdownMode, SpawnConfig};
use std::sync::Arc;

#[test]
fn settings_start_plain() {
    let cfg = SpawnConfig::new("counter", 1024);
    assert_eq!(cfg.name, "counter");
    assert_eq!(cfg.capacity, 1024);
    assert_eq!(cfg.restart_policy, RestartPolicy::Never);
    assert_eq!(cfg.shutdown_mode, ShutdownMode::Immediate);
    assert!(cfg.extra_guards.is_empty());
}

#[test]
fn settings_are_added_one_by_one() {
    let mut cfg = SpawnConfig::new("counter", 1024)
        .restart_on_panic(10, Duration::from_millis(50), Duration::from_secs(3))
        .shutdown_graceful(Duration::from_secs(2));
    cfg.push_guard(Arc::new(1u8));
    cfg.push_guard(Arc::new("two"));
    assert_eq!(cfg.name, "counter");
    assert_eq!(
        cfg.restart_policy,
        RestartPolicy::OnPanic {
            max_restarts: 10,
            min_backoff: Duration::from_millis(50),
            max_backoff: Duration::from_secs(3),
        }
    );
    assert_eq!(cfg.shutdown_mode, ShutdownMode::Graceful { deadline: Duration::from_secs(2) });
    assert_eq!(cfg.extra_guards.len(), 2);
    assert_eq!(cfg.clone().extra_guards.len(), 2);
}

#[test]
fn guards_are_dropped_with_the_settings() {
    let guard = Arc::new(());
    let mut cfg = SpawnConfig::new("guarded", 1);
    cfg.push_guard(guard.clone());
    assert_eq!(Arc::strong_count(&guard), 2);
    drop(cfg);
    assert_eq!(Arc::strong_count(&guard), 1);
}

#[test]
fn context_remembers_the_wish_to_stop() {
    let mut ctx = Context::new();
    assert!(!ctx.is_stop_requested());
    ctx.stop();
    assert!(ctx.is_stop_requested());
}
