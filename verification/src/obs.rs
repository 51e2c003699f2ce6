//! How long messages take.
use std::time::Instant;
use vstd::prelude::*;

verus! {

/// A point in time of the machine's clock.
#[verifier::external_type_specification]
#[verifier::external_body]
pub struct ExStdInstant(std::time::Instant);

/// `std::time::Instant::now` reads the clock. Nothing is claimed of what it
/// reads.
pub assume_specification[ std::time::Instant::now ]() -> (now: std::time::Instant)
;

/// `std::time::Instant::elapsed` reads the clock again. Nothing is claimed of
/// how much time has passed.
pub assume_specification[ std::time::Instant::elapsed ](
    since: &std::time::Instant,
) -> (elapsed: std::time::Duration)
;

/// From this many milliseconds on a message counts as slow.
pub const SLOW_MS: u128 = 100;

/// How loud a report is.
#[derive(Debug, Clone, Copy, PartialEq, Eq, Structural)]
pub enum ReportLevel {
    Debug,
    Warn,
}

/// What there is to say of a message that was handled.
pub struct Report<'a> {
    pub level: ReportLevel,
    pub text: &'static str,
    pub actor: &'a str,
    pub msg_type: &'static str,
    pub latency_ms: u128,
}

/// Stands for a message that is being handled, from `on_message` on.
pub struct MessageGuard<'a> {
    actor: &'a str,
    msg_type: &'static str,
    start: Instant,
}

/// A message of the kind `msg_type` is about to be handled by `actor`.
pub fn on_message<'a>(actor: &'a str, msg_type: &'static str) -> (guard: MessageGuard<'a>)
    ensures
        guard.actor_name() == actor@,
        guard.kind() == msg_type@,
        call_ensures(Instant::now, (), guard.started()),
{
    MessageGuard { actor, msg_type, start: Instant::now() }
}

/// Whether the handling of a message is to be watched: just where one of the
/// reports that may come of it would be seen.
pub fn is_watched(debug_enabled: bool, warn_enabled: bool) -> (watched: bool)
    ensures
        watched == (debug_enabled || warn_enabled),
{
    debug_enabled || warn_enabled
}

/// `millis` is what the clock can show at some time: the whole milliseconds of
/// a span that `Instant::elapsed` gave for `since`, as `Duration::as_millis`
/// counts them.
pub open spec fn has_taken(since: Instant, millis: u128) -> bool {
    exists|span: std::time::Duration|
        #[trigger] call_ensures(Instant::elapsed, (&since,), span) && call_ensures(
            std::time::Duration::as_millis,
            (&span,),
            millis,
        )
}

/// `report` is what there is to say of a message of that kind that took
/// `latency_ms`: a warning where that is too long, and a remark otherwise.
pub open spec fn reports(
    report: Report<'_>,
    actor: Seq<char>,
    msg_type: Seq<char>,
    latency_ms: u128,
) -> bool {
    &&& report.level == (if latency_ms >= SLOW_MS {
        ReportLevel::Warn
    } else {
        ReportLevel::Debug
    })
    &&& report.text@ == (if latency_ms >= SLOW_MS {
        "Slow message detected"@
    } else {
        "Message processed"@
    })
    &&& report.actor@ == actor
    &&& report.msg_type@ == msg_type
    &&& report.latency_ms == latency_ms
}

impl<'a> MessageGuard<'a> {
    /// The name of the actor.
    pub closed spec fn actor_name(&self) -> Seq<char> {
        self.actor@
    }

    /// The kind of the message.
    pub closed spec fn kind(&self) -> Seq<char> {
        self.msg_type@
    }

    /// When the handling began.
    pub closed spec fn started(&self) -> Instant {
        self.start
    }

    /// The message was handled in `latency_ms` milliseconds.
    pub fn report(&self, latency_ms: u128) -> (report: Report<'a>)
        ensures
            reports(report, self.actor_name(), self.kind(), latency_ms),
    {
        if latency_ms >= SLOW_MS {
            Report {
                level: ReportLevel::Warn,
                text: "Slow message detected",
                actor: self.actor,
                msg_type: self.msg_type,
                latency_ms,
            }
        } else {
            Report {
                level: ReportLevel::Debug,
                text: "Message processed",
                actor: self.actor,
                msg_type: self.msg_type,
                latency_ms,
            }
        }
    }

    /// The message was handled just now: it took the time that the clock shows
    /// since the handling began.
    pub fn finish(self) -> (report: Report<'a>)
        ensures
            reports(report, self.actor_name(), self.kind(), report.latency_ms),
            has_taken(self.started(), report.latency_ms),
    {
        let latency_ms: u128 = self.start.elapsed().as_millis();
        assert(has_taken(self.started(), latency_ms));
        self.report(latency_ms)
    }
}

/// A message that took a hundred milliseconds or more is warned of as slow, and
/// of any other there is a remark. Either way the report names the actor, the
/// kind of the message and the time.
pub proof fn law_slow_messages_are_warned_of(
    report: Report<'_>,
    actor: Seq<char>,
    msg_type: Seq<char>,
    latency_ms: u128,
)
    requires
        reports(report, actor, msg_type, latency_ms),
    ensures
        latency_ms >= 100 ==> report.level is Warn && report.text@ == "Slow message detected"@,
        latency_ms < 100 ==> report.level is Debug && report.text@ == "Message processed"@,
        report.actor@ == actor,
        report.msg_type@ == msg_type,
        report.latency_ms == latency_ms,
{
}

/// The time that a message took comes from the clock: it is the milliseconds of
/// a span that the clock gave since its handling began.
pub proof fn law_latency_comes_from_the_clock(since: Instant, millis: u128)
    ensures
        has_taken(since, millis) <==> exists|span: std::time::Duration|
            #[trigger] call_ensures(Instant::elapsed, (&since,), span) && call_ensures(
                std::time::Duration::as_millis,
                (&span,),
                millis,
            ),
{
}

} // verus!
