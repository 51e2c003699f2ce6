//! Whole lives of actors, on a clock that only moves when it is told to.
use axactor::expand::{actor, SendMode};
use axactor::mailbox::MailboxTx;
use axactor::meter::MailboxMeter;
use axactor::refs::{pick_idle, RefState};
use axactor::registry::{hashed_name, Registry};
use axactor::rt::System;
use axactor::task::{Action, ActorTask, Event, Input, Phase};
use axactor::time::Duration;
use axactor::{AskError, Context, RefMetrics, SpawnConfig, SpawnError, TellError};
use futures::FutureExt;
use std::cell::{Cell, RefCell};
use std::collections::VecDeque;
use tokio::sync::mpsc;

/// What an actor of these tests can be told.
#[derive(Clone, Copy)]
enum Msg {
    Panic,
    Ask,
    Work(u64),
    Stop,
}

/// Runs one actor of a system, one thing after the other.
struct Life {
    task: ActorTask,
    meter: MailboxMeter,
    name: String,
    queue: VecDeque<Msg>,
    current: Option<Msg>,
    action: Action,
    actions: Vec<Action>,
    now_ms: u64,
    deadline_ms: u64,
    mailbox_open: bool,
    factory_panics: usize,
    hook_panics: usize,
    handled: usize,
    answers: usize,
}

impl Life {
    fn new(task: ActorTask, name: &str) -> Life {
        let mut meter = MailboxMeter::new();
        meter.on_startup_at(0);
        Life {
            task,
            meter,
            name: name.to_string(),
            queue: VecDeque::new(),
            current: None,
            action: Action::Build,
            actions: Vec::new(),
            now_ms: 0,
            deadline_ms: 0,
            mailbox_open: true,
            factory_panics: 0,
            hook_panics: 0,
            handled: 0,
            answers: 0,
        }
    }

    fn send(&mut self, msg: Msg) {
        assert!(self.mailbox_open);
        self.queue.push_back(msg);
        self.meter.on_send_ok_at(self.now_ms);
    }

    fn happen(&mut self, event: Event, cancelled: bool) {
        assert!(self.task.can_accept(event));
        let input = Input { event, now_ms: self.now_ms, cancelled };
        self.action = self.task.step(&mut self.meter, input);
        self.actions.push(self.action);
    }

    fn panics(left: &mut usize) -> bool {
        let panicked = *left > 0;
        if panicked {
            *left -= 1;
        }
        panicked
    }

    fn next_message(&mut self, cancelled: bool) {
        match self.queue.pop_front() {
            Some(msg) => {
                self.current = Some(msg);
                self.happen(Event::Received, cancelled);
            }
            None => self.happen(Event::MailboxEnded, cancelled),
        }
    }

    /// Goes on until there is nothing to do but wait for messages.
    fn run(&mut self, system: &mut System<u32>) {
        loop {
            let cancelled = system.is_shutting_down();
            match self.action {
                Action::Build => {
                    let panicked = Life::panics(&mut self.factory_panics);
                    self.happen(Event::Built { panicked }, cancelled);
                }
                Action::RunOnStart | Action::RunOnRestart => {
                    let panicked = Life::panics(&mut self.hook_panics);
                    self.happen(Event::HookDone { panicked }, cancelled);
                }
                Action::AwaitMessage => {
                    if cancelled {
                        self.happen(Event::ShutdownSignal, cancelled);
                    } else if self.queue.is_empty() && self.mailbox_open {
                        return;
                    } else {
                        self.next_message(cancelled);
                    }
                }
                Action::BeginDrain { deadline } => {
                    self.mailbox_open = false;
                    self.deadline_ms = self.now_ms + (deadline.as_nanos() / 1_000_000) as u64;
                    self.next_message(cancelled);
                }
                Action::AwaitDrain => {
                    if self.now_ms >= self.deadline_ms {
                        self.happen(Event::DeadlineReached, cancelled);
                    } else {
                        self.next_message(cancelled);
                    }
                }
                Action::Handle => {
                    let mut ctx = Context::new();
                    let panicked = match self.current.take().unwrap() {
                        Msg::Panic => true,
                        Msg::Ask => {
                            self.answers += 1;
                            false
                        }
                        Msg::Work(millis) => {
                            let end_ms = self.now_ms + millis;
                            let draining = self.task.phase == Phase::Handling { draining: true };
                            if draining && end_ms > self.deadline_ms {
                                self.now_ms = self.deadline_ms;
                                self.happen(Event::DeadlineReached, cancelled);
                                continue;
                            }
                            self.now_ms = end_ms;
                            false
                        }
                        Msg::Stop => {
                            ctx.stop();
                            false
                        }
                    };
                    self.handled += 1;
                    let stop_requested = ctx.is_stop_requested();
                    self.happen(Event::Handled { panicked, stop_requested }, cancelled);
                }
                Action::RunOnStop { close_mailbox } => {
                    if close_mailbox {
                        self.mailbox_open = false;
                    }
                    self.happen(Event::StopHookDone, cancelled);
                }
                Action::Sleep { backoff } => {
                    self.now_ms += (backoff.as_nanos() / 1_000_000) as u64;
                    self.happen(Event::BackoffElapsed, cancelled);
                }
                Action::Exit => {
                    let name = self.name.clone();
                    system.on_task_end(&name, &mut self.meter);
                    return;
                }
            }
        }
    }

    fn count(&self, wanted: fn(&Action) -> bool) -> usize {
        self.actions.iter().filter(|a| wanted(a)).count()
    }

    fn started(&self) -> usize {
        self.count(|a| matches!(a, Action::RunOnStart))
    }

    fn restarted(&self) -> usize {
        self.count(|a| matches!(a, Action::RunOnRestart))
    }

    fn stopped(&self) -> usize {
        self.count(|a| matches!(a, Action::RunOnStop { .. }))
    }

    fn waits(&self) -> Vec<Duration> {
        self.actions
            .iter()
            .filter_map(|a| match a {
                Action::Sleep { backoff } => Some(*backoff),
                _ => None,
            })
            .collect()
    }
}

fn spawn_with(system: &mut System<u32>, cfg: &SpawnConfig) -> Life {
    Life::new(system.spawn_with(cfg, 0).unwrap(), &cfg.name)
}

#[test]
fn test_supervision_restart_backoff() {
    let mut system: System<u32> = System::new();
    let cfg = SpawnConfig::new("panicker", 10).restart_on_panic(
        3,
        Duration::from_millis(100),
        Duration::from_secs(1),
    );
    let mut life = spawn_with(&mut system, &cfg);
    life.send(Msg::Panic);
    life.run(&mut system);
    life.send(Msg::Panic);
    life.run(&mut system);
    assert!(life.handled >= 2, "Actor should have been called at least twice");
    assert_eq!(life.waits(), vec![Duration::from_millis(100), Duration::from_millis(200)]);
    assert_eq!(life.task.phase, Phase::Running);
    life.send(Msg::Panic);
    life.run(&mut system);
    assert_eq!(life.waits()[2], Duration::from_millis(400));
    life.send(Msg::Panic);
    life.run(&mut system);
    assert_eq!(life.waits().len(), 3);
    assert_eq!(life.task.phase, Phase::Done);
    assert_eq!(life.stopped(), 0);
}

#[test]
fn test_graceful_shutdown_drain() {
    let mut system: System<u32> = System::new();
    let cfg = SpawnConfig::new("slow", 10).shutdown_graceful(Duration::from_secs(1));
    let mut life = Life::new(system.spawn(&cfg, 0).unwrap(), "slow");
    life.run(&mut system);
    life.send(Msg::Work(200));
    system.shutdown_graceful();
    life.run(&mut system);
    assert!(life.now_ms >= 200, "Shutdown should have waited for the slow op");
    assert_eq!(life.handled, 1);
    assert_eq!(life.stopped(), 1);
    assert_eq!(life.task.phase, Phase::Done);
}

#[test]
fn drain_ends_at_the_deadline() {
    let mut system: System<u32> = System::new();
    let cfg = SpawnConfig::new("slow", 10).shutdown_graceful(Duration::from_millis(300));
    let mut life = Life::new(system.spawn(&cfg, 0).unwrap(), "slow");
    life.run(&mut system);
    for _ in 0..5 {
        life.send(Msg::Work(200));
    }
    system.shutdown_graceful();
    life.run(&mut system);
    assert_eq!(life.handled, 1);
    assert_eq!(life.now_ms, 300);
    assert_eq!(life.meter.len(), 3);
    assert_eq!(life.meter.inflight_count(), 0);
    assert_eq!(life.meter.idle_for_at(350), Duration::from_millis(50));
    assert_eq!(life.stopped(), 1);
    assert!(life.meter.is_closed());
}

#[test]
fn deadline_fits_in_a_drain_alone() {
    let mut system: System<u32> = System::new();
    let cfg = SpawnConfig::new("slow", 10).shutdown_graceful(Duration::from_millis(300));
    let task = system.spawn(&cfg, 0).unwrap();
    for (phase, fits) in [
        (Phase::Draining, true),
        (Phase::Handling { draining: true }, true),
        (Phase::Handling { draining: false }, false),
        (Phase::Running, false),
        (Phase::Stopping, false),
    ] {
        assert_eq!(ActorTask { phase, ..task }.can_accept(Event::DeadlineReached), fits);
    }
}

#[test]
fn messages_are_handled_in_order_over_a_restart() {
    let mut system: System<u32> = System::new();
    let cfg = SpawnConfig::new("ordered", 10).restart_on_panic(
        1,
        Duration::from_millis(10),
        Duration::from_millis(50),
    );
    let mut life = spawn_with(&mut system, &cfg);
    for msg in [Msg::Work(1), Msg::Panic, Msg::Work(2), Msg::Work(3)] {
        life.send(msg);
    }
    life.run(&mut system);
    assert_eq!(life.handled, 4);
    assert_eq!(life.now_ms, 1 + 10 + 2 + 3);
    assert_eq!(life.meter.idle_for_at(life.now_ms), Duration::from_millis(0));
    assert_eq!(life.count(|a| matches!(a, Action::Build)), 1);
}

#[test]
fn graceful_shutdown_of_an_empty_mailbox_stops_at_once() {
    let mut system: System<u32> = System::new();
    let cfg = SpawnConfig::new("slow", 10).shutdown_graceful(Duration::from_secs(1));
    let mut life = Life::new(system.spawn(&cfg, 0).unwrap(), "slow");
    life.run(&mut system);
    system.shutdown_graceful();
    life.run(&mut system);
    assert!(life.actions.contains(&Action::RunOnStop { close_mailbox: true }));
    assert!(!life.actions.contains(&Action::BeginDrain { deadline: Duration::from_secs(1) }));
}

#[test]
fn immediate_shutdown_leaves_what_waits() {
    let mut system: System<u32> = System::new();
    let cfg = SpawnConfig::new("busy", 10);
    let mut life = Life::new(system.spawn(&cfg, 0).unwrap(), "busy");
    life.run(&mut system);
    life.send(Msg::Ask);
    life.send(Msg::Ask);
    system.shutdown_graceful();
    life.run(&mut system);
    assert_eq!(life.handled, 0);
    assert_eq!(life.meter.len(), 2);
    assert_eq!(life.stopped(), 1);
    assert!(life.meter.is_closed() && life.meter.is_terminated());
}

#[test]
fn test_name_collision() {
    let mut system: System<u32> = System::new();
    let cfg = SpawnConfig::new("duplicate", 10);
    assert!(system.spawn(&cfg, 1).is_ok());
    let res = system.spawn(&cfg, 2);
    assert!(matches!(res, Err(SpawnError::NameTaken(_))));
    match res {
        Err(SpawnError::NameTaken(name)) => assert_eq!(name, "duplicate"),
        _ => unreachable!(),
    }
}

#[test]
fn test_macro_context_comma() {
    let expansion = actor(
        "impl ContextActor {
            #[msg]
            async fn only_context(&mut self, _ctx: &mut axactor::Context) {
            }
        }",
    )
    .unwrap();
    let message = &expansion.messages[0];
    assert!(message.with_context);
    assert!(message.fields.is_empty());
    assert_eq!(message.variant, "OnlyContext");
}

const DUMMY_ACTOR_B: &str = "impl DummyActorB {
    #[msg]
    async fn test_reply(&self, reply: String) -> String {
        reply
    }

    #[msg]
    async fn test_reply_delay(&self, delay: Duration) -> Duration {
        tokio::time::sleep(delay).await;
        delay
    }
}";

#[test]
fn test_macro_reply_collision() {
    let expansion = actor(DUMMY_ACTOR_B).unwrap();
    assert_eq!(expansion.msg_enum, "DummyActorBMsg");
    assert_eq!(expansion.ref_struct, "DummyActorBRef");
    let message = &expansion.messages[0];
    assert!(message.replies);
    assert_eq!(message.fields, vec![1]);
    assert_eq!(message.ref_methods[0].name, "test_reply");
    assert_eq!(message.ref_methods[0].mode, SendMode::Ask);
    let res = MailboxTx::<Msg>::ask_wait(Ok(()), Some("hello_reply".to_string()));
    assert_eq!(res, Ok("hello_reply".to_string()));
}

#[test]
fn test_macro_timeout_collision() {
    let expansion = actor(DUMMY_ACTOR_B).unwrap();
    let message = &expansion.messages[1];
    assert_eq!(message.ref_methods[2].name, "test_reply_delay_wait_timeout");
    assert_eq!(message.ref_methods[2].mode, SendMode::AskWaitTimeout);
    let d = Duration::from_millis(100);
    assert_eq!(MailboxTx::<Msg>::ask_wait_timeout(Some(Ok(d))), Ok(d));
    assert_eq!(MailboxTx::<Msg>::ask_wait_timeout::<Duration>(None), Err(AskError::Timeout));
}

#[test]
fn test_panicking_factory_cleanup() {
    let mut system: System<u32> = System::new();
    let cfg = SpawnConfig::new("panicking_factory", 10);
    let mut life = spawn_with(&mut system, &cfg);
    life.factory_panics = 1;
    life.run(&mut system);
    assert_eq!(life.started(), 0);
    assert!(life.meter.is_terminated());
    let res = system.spawn(&cfg, 0);
    assert!(res.is_ok(), "Name should have been cleaned up after factory panic");
}

#[test]
fn factory_panic_is_made_up_for() {
    let mut system: System<u32> = System::new();
    let cfg = SpawnConfig::new("panicking_factory", 10).restart_on_panic(
        2,
        Duration::from_millis(10),
        Duration::from_millis(50),
    );
    let mut life = spawn_with(&mut system, &cfg);
    life.factory_panics = 1;
    life.run(&mut system);
    assert_eq!(life.started(), 0);
    assert_eq!(life.restarted(), 1);
    assert_eq!(life.meter.incarnation(), 2);
}

#[test]
fn test_cancel_safe_meter() {
    let (tx, mut rx) = mpsc::channel::<u8>(1);
    let mut meter = MailboxMeter::new();
    let mailbox = MailboxTx::new(tx);
    assert_eq!(mailbox.try_send(&mut meter, 1), Ok(()));
    assert_eq!(mailbox.try_send(&mut meter, 2).map_err(|r| r.error), Err(TellError::Full));
    assert!(meter.len() >= 1);
    // A wait that has begun, and is given up before there is room.
    assert!(mailbox.tx().reserve().now_or_never().is_none());
    assert_eq!(meter.len(), 1, "Meter drifted significantly after cancelled wait");
    assert_eq!(rx.try_recv(), Ok(1));
    assert!(rx.try_recv().is_err());
}

#[test]
fn test_ask_wait_timeout_backpressure() {
    let (tx, mut rx) = mpsc::channel::<u8>(1);
    let mut meter = MailboxMeter::new();
    let mailbox = MailboxTx::new(tx);
    for _ in 0..5 {
        let _ = mailbox.try_send(&mut meter, 1);
    }
    assert_eq!(meter.len(), 1);
    let sent = mailbox.try_send(&mut meter, 2).map_err(|r| r.error);
    let res = MailboxTx::<u8>::ask_wait::<&str>(sent, None);
    assert!(matches!(res, Err(AskError::Full)));

    assert_eq!(rx.try_recv(), Ok(1));
    meter.on_recv();
    let permit = futures::executor::block_on(mailbox.tx().reserve());
    let sent = MailboxTx::send_wait(&mut meter, permit, 3).map_err(|r| r.error);
    let res = MailboxTx::<u8>::ask_wait_timeout(Some(MailboxTx::<u8>::ask_wait(sent, Some("ok"))));
    assert!(res.is_ok());
    assert_eq!(rx.try_recv(), Ok(3));
}

#[test]
fn test_registry_self_cleanup_race() {
    let mut system: System<u32> = System::new();
    let mut registry: Registry<String, u32> = Registry::new();
    let key = "key1".to_string();

    let mut cfg = SpawnConfig::new("reaped_actor", 10);
    let guard = registry.get_or_spawn(&key, &mut cfg, 1);
    let mut life = spawn_with(&mut system, &cfg);
    life.send(Msg::Stop);
    life.run(&mut system);
    assert_eq!(life.task.phase, Phase::Done);
    registry.evict(&guard);
    assert!(registry.get(&key).is_none());

    let mut cfg = SpawnConfig::new("reaped_actor", 10);
    let _guard2 = registry.get_or_spawn(&key, &mut cfg, 2);
    assert_eq!(registry.get(&key).unwrap().cell, 2);
    let life2 = spawn_with(&mut system, &cfg);
    assert_eq!(life2.meter.len(), 0);
}

#[test]
fn test_spawn_restart_error() {
    let mut system: System<u32> = System::new();
    let cfg = SpawnConfig::new("no_restart", 10).restart_on_panic(
        3,
        Duration::from_millis(10),
        Duration::from_millis(100),
    );
    let res = system.spawn(&cfg, 0);
    assert!(matches!(res, Err(SpawnError::NotRestartable)));
    assert!(system.spawn_with(&cfg, 0).is_ok());
}

#[test]
fn test_spawn_shutting_down() {
    let mut system: System<u32> = System::new();
    system.shutdown_graceful();
    let cfg = SpawnConfig::new("post_shutdown", 10);
    let res = system.spawn(&cfg, 0);
    assert!(matches!(res, Err(SpawnError::ShuttingDown)));
}

#[test]
fn test_registry_aba_protection() {
    let mut registry: Registry<String, u32> = Registry::new();
    let key = "key1".to_string();
    let mut cfg1 = SpawnConfig::new("aba_actor", 10);
    let guard1 = registry.get_or_spawn(&key, &mut cfg1, 1);
    let mut cfg2 = SpawnConfig::new("aba_actor", 10);
    let _same = registry.get_or_spawn(&key, &mut cfg2, 2);
    assert_eq!(registry.get(&key).unwrap().cell, 1);
    assert_eq!(cfg1.name, cfg2.name);

    registry.evict(&guard1);
    let mut cfg3 = SpawnConfig::new("aba_actor", 10);
    let _guard3 = registry.get_or_spawn(&key, &mut cfg3, 3);
    registry.evict(&guard1);
    assert_eq!(registry.get(&key).unwrap().cell, 3);
}

#[test]
fn test_registry_supervision() {
    let mut system: System<u32> = System::new();
    let mut registry: Registry<String, u32> = Registry::new();
    let key = "key1".to_string();
    let mut cfg = SpawnConfig::new("registry_panicker", 10).restart_on_panic(
        3,
        Duration::from_millis(50),
        Duration::from_secs(1),
    );
    let _guard = registry.get_or_spawn(&key, &mut cfg, 1);
    let mut life = spawn_with(&mut system, &cfg);
    life.send(Msg::Panic);
    life.run(&mut system);
    life.send(Msg::Ask);
    life.run(&mut system);
    assert!(life.restarted() >= 1, "Actor should have been initialized at least once");
    assert_eq!(life.answers, 1);
    assert!(registry.get(&key).is_some());
}

/// A reference that reads the meter at a time of its own.
struct BusyRef {
    meter: RefCell<MailboxMeter>,
    now_ms: Cell<u64>,
    stops: Cell<usize>,
}

impl RefMetrics for BusyRef {
    fn mailbox_len(&self) -> usize {
        self.meter.borrow().len()
    }

    fn inflight_count(&self) -> usize {
        self.meter.borrow().inflight_count()
    }

    fn idle_for(&self) -> Duration {
        self.meter.borrow().idle_for_at(self.now_ms.get())
    }

    fn silence_for(&self) -> Duration {
        self.meter.borrow().silence_for_at(self.now_ms.get())
    }

    fn incarnation(&self) -> u64 {
        self.meter.borrow().incarnation()
    }

    fn is_closed(&self) -> bool {
        self.meter.borrow().is_closed()
    }

    fn is_terminated(&self) -> bool {
        self.meter.borrow().is_terminated()
    }

    fn stop(&self) -> Result<(), TellError> {
        self.stops.set(self.stops.get() + 1);
        Ok(())
    }
}

#[test]
fn test_reaper_busy_safety() {
    let idle_timeout = Duration::from_millis(100);
    let mut registry: Registry<String, u32> = Registry::new();
    let mut cfg = SpawnConfig::new("busy_actor", 10);
    let key = "busy_key".to_string();
    let _guard = registry.get_or_spawn(&key, &mut cfg, 7);
    let shard = (0..16).find(|i| !registry.shard(*i).is_empty()).unwrap();
    assert_eq!(registry.shard(shard)[0].cell, 7);
    assert_eq!(cfg.name, hashed_name("busy_actor", shard, &key));

    let actor = BusyRef { meter: RefCell::new(MailboxMeter::new()), now_ms: Cell::new(0), stops: Cell::new(0) };
    let refs = vec![actor];
    let reap_at = |now_ms: u64| {
        refs[0].now_ms.set(now_ms);
        let picked = pick_idle(&refs.iter().map(RefState::read).collect(), idle_timeout);
        for place in &picked {
            assert!(refs[*place].stop().is_ok());
        }
        picked
    };
    refs[0].meter.borrow_mut().on_startup_at(0);
    refs[0].meter.borrow_mut().on_send_ok_at(0);
    assert!(reap_at(200).is_empty());
    refs[0].meter.borrow_mut().on_recv_at(0);
    refs[0].meter.borrow_mut().on_process_start();
    assert!(reap_at(400).is_empty());
    refs[0].meter.borrow_mut().on_process_end_at(400);
    assert!(reap_at(450).is_empty());
    assert_eq!(refs[0].stops.get(), 0);
    let reaped = reap_at(600) == vec![0];
    assert!(reaped, "Actor should have been reaped after becoming truly idle");
    assert_eq!(refs[0].stops.get(), 1);
}

#[test]
fn test_actor_lifecycle_hooks() {
    let mut system: System<u32> = System::new();
    let cfg = SpawnConfig::new("lifecycle", 10).restart_on_panic(
        1,
        Duration::from_millis(10),
        Duration::from_millis(50),
    );
    let mut life = spawn_with(&mut system, &cfg);
    life.run(&mut system);
    assert_eq!(life.started(), 1);
    assert_eq!(life.restarted(), 0);
    assert_eq!(life.stopped(), 0);

    life.send(Msg::Panic);
    life.run(&mut system);
    assert_eq!(life.started(), 1);
    assert_eq!(life.restarted(), 1);
    assert_eq!(life.stopped(), 0, "on_stop should be SKIPPED after crash for safety");

    system.shutdown_graceful();
    life.run(&mut system);
    assert_eq!(life.stopped(), 1, "Should have stopped ONCE on shutdown");
}

#[test]
fn test_lifecycle_hook_panic() {
    let mut system: System<u32> = System::new();
    let cfg = SpawnConfig::new("hook_panic", 10).restart_on_panic(
        5,
        Duration::from_millis(10),
        Duration::from_millis(50),
    );
    let mut life = spawn_with(&mut system, &cfg);
    life.hook_panics = 2;
    life.run(&mut system);
    assert!(life.started() + life.restarted() >= 3);
    assert_eq!(life.waits(), vec![Duration::from_millis(10), Duration::from_millis(20)]);
    life.send(Msg::Ask);
    life.run(&mut system);
    assert_eq!(life.answers, 1);
}

#[test]
fn test_incarnation_tracking() {
    let mut system: System<u32> = System::new();
    let cfg = SpawnConfig::new("incarnation", 10).restart_on_panic(
        5,
        Duration::from_millis(10),
        Duration::from_millis(50),
    );
    let mut life = spawn_with(&mut system, &cfg);
    life.run(&mut system);
    assert_eq!(life.meter.incarnation(), 1);
    life.send(Msg::Panic);
    life.run(&mut system);
    assert_eq!(life.meter.incarnation(), 2);
}

#[test]
fn test_dual_status_monitoring() {
    let mut system: System<u32> = System::new();
    let cfg = SpawnConfig::new("status_test", 10);
    let mut life = Life::new(system.spawn(&cfg, 0).unwrap(), "status_test");
    life.run(&mut system);
    assert!(!life.meter.is_closed());
    assert!(!life.meter.is_terminated());

    system.shutdown_graceful();
    life.happen(Event::ShutdownSignal, true);
    assert!(life.meter.is_closed());
    assert!(!life.meter.is_terminated());

    life.run(&mut system);
    assert!(life.meter.is_terminated());
    assert!(life.meter.is_closed());
}

#[test]
fn test_restart_message_continuity() {
    let mut system: System<u32> = System::new();
    let cfg = SpawnConfig::new("continuity", 10).restart_on_panic(
        3,
        Duration::from_millis(10),
        Duration::from_millis(50),
    );
    let mut life = spawn_with(&mut system, &cfg);
    life.send(Msg::Ask);
    life.run(&mut system);
    assert_eq!(life.answers, 1);
    life.send(Msg::Panic);
    life.send(Msg::Ask);
    life.run(&mut system);
    assert_eq!(life.answers, 2);
    assert_eq!(life.meter.len(), 0);
    assert!(!life.meter.is_closed());
}

#[test]
fn test_ask_panic_cancellation() {
    let mut system: System<u32> = System::new();
    let cfg = SpawnConfig::new("chaos", 10).restart_on_panic(
        1,
        Duration::from_millis(10),
        Duration::from_millis(50),
    );
    let mut life = spawn_with(&mut system, &cfg);
    life.send(Msg::Panic);
    life.run(&mut system);
    assert_eq!(life.answers, 0);
    let res = MailboxTx::<Msg>::ask_wait::<String>(Ok(()), None);
    assert!(res.is_err(), "Ask future should have failed when actor panicked during execution");
    assert_eq!(res, Err(AskError::Canceled));
}

#[test]
fn stop_that_is_asked_for_closes_the_mailbox() {
    let mut system: System<u32> = System::new();
    let cfg = SpawnConfig::new("stopped", 10);
    let mut life = Life::new(system.spawn(&cfg, 0).unwrap(), "stopped");
    life.send(Msg::Stop);
    life.send(Msg::Ask);
    life.run(&mut system);
    assert_eq!(life.handled, 1);
    assert_eq!(life.stopped(), 1);
    assert!(life.actions.contains(&Action::RunOnStop { close_mailbox: true }));
    assert_eq!(life.meter.len(), 1);
    assert!(system.spawn(&cfg, 0).is_ok());
}

#[test]
fn a_calm_life_runs_each_hook_once() {
    let mut system: System<u32> = System::new();
    let cfg = SpawnConfig::new("calm", 10).restart_on_panic(
        5,
        Duration::from_millis(10),
        Duration::from_millis(50),
    );
    let mut life = spawn_with(&mut system, &cfg);
    for _ in 0..3 {
        life.send(Msg::Ask);
    }
    life.mailbox_open = false;
    life.run(&mut system);
    assert_eq!((life.started(), life.restarted(), life.stopped()), (1, 0, 1));
    assert_eq!(life.meter.incarnation(), 1);
    assert_eq!(life.answers, 3);
    assert_eq!(life.count(|a| matches!(a, Action::Exit)), 1);
    assert!(life.actions.contains(&Action::RunOnStop { close_mailbox: false }));
    assert!(life.meter.is_closed() && life.meter.is_terminated());
}

#[test]
fn panic_while_draining_is_the_end() {
    let mut system: System<u32> = System::new();
    let cfg = SpawnConfig::new("draining", 10)
        .restart_on_panic(5, Duration::from_millis(10), Duration::from_millis(50))
        .shutdown_graceful(Duration::from_secs(1));
    let mut life = spawn_with(&mut system, &cfg);
    life.run(&mut system);
    life.send(Msg::Panic);
    life.send(Msg::Ask);
    system.shutdown_graceful();
    life.run(&mut system);
    assert_eq!(life.answers, 0);
    assert!(life.waits().is_empty());
    assert_eq!(life.stopped(), 0);
    assert_eq!(life.task.phase, Phase::Done);
}

#[test]
fn events_that_do_not_fit_are_not_accepted() {
    let cfg = SpawnConfig::new("strict", 10);
    let mut system: System<u32> = System::new();
    let task = system.spawn(&cfg, 0).unwrap();
    assert!(task.can_accept(Event::Built { panicked: false }));
    assert!(task.can_accept(Event::Built { panicked: true }));
    assert!(!task.can_accept(Event::Received));
    assert!(!task.can_accept(Event::DeadlineReached));
    let worn = ActorTask { restarts: usize::MAX, ..task };
    assert!(worn.can_accept(Event::Built { panicked: false }));
    assert!(!worn.can_accept(Event::Built { panicked: true }));
    let done = ActorTask { phase: Phase::Done, ..task };
    assert!(!done.can_accept(Event::StopHookDone));
}
