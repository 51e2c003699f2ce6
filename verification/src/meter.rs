//! What is known of a mailbox and of the actor behind it.
use crate::time::Duration;
use tokio::time::Instant;
use vstd::prelude::*;

verus! {

/// A point in time of the runtime's clock.
#[verifier::external_type_specification]
#[verifier::external_body]
pub struct ExInstant(tokio::time::Instant);

/// `tokio::time::Instant::now` reads the clock. Nothing is claimed of what it
/// reads.
pub assume_specification[ tokio::time::Instant::now ]() -> (now: tokio::time::Instant)
;

/// `tokio::time::Instant::elapsed` reads the clock again, and gives the time
/// since the instant, or zero for an instant that is yet to come. Nothing is
/// claimed of how much that is.
pub assume_specification[ tokio::time::Instant::elapsed ](
    since: &tokio::time::Instant,
) -> (elapsed: std::time::Duration)
;

/// `std::time::Duration::as_millis` gives the whole milliseconds of a span
/// that was measured. Nothing is claimed of how many there are.
pub assume_specification[ std::time::Duration::as_millis ](span: &std::time::Duration) -> (millis: u128)
;

/// What a meter holds. Times are in milliseconds since `base`.
pub struct MeterState {
    /// How many messages are in the mailbox.
    pub len: usize,
    /// How many messages are being handled.
    pub inflight: usize,
    pub base: Instant,
    /// When a message was last put into the mailbox or taken out of it.
    pub last_seen_ms: u64,
    /// When the handling of a message was last done.
    pub last_done_ms: u64,
    /// Which instance of the actor this is: the first is 1.
    pub incarnation: u64,
    /// The mailbox takes no more messages.
    pub closed: bool,
    /// The task of the actor has ended.
    pub terminated: bool,
}

impl MeterState {
    pub open spec fn started(self, now_ms: u64) -> MeterState {
        MeterState { last_seen_ms: now_ms, last_done_ms: now_ms, ..self }
    }

    pub open spec fn sent(self, now_ms: u64) -> MeterState {
        MeterState { len: self.len.wrapping_add(1), last_seen_ms: now_ms, ..self }
    }

    pub open spec fn received(self, now_ms: u64) -> MeterState {
        MeterState { len: self.len.wrapping_sub(1), last_seen_ms: now_ms, ..self }
    }

    pub open spec fn process_started(self) -> MeterState {
        MeterState { inflight: self.inflight.wrapping_add(1), ..self }
    }

    pub open spec fn process_ended(self, now_ms: u64) -> MeterState {
        MeterState { inflight: self.inflight.wrapping_sub(1), last_done_ms: now_ms, ..self }
    }

    pub open spec fn reborn(self) -> MeterState {
        MeterState { incarnation: self.incarnation.wrapping_add(1), ..self }
    }

    /// The task of the actor has ended, and its mailbox with it.
    pub open spec fn ended(self) -> MeterState {
        MeterState { closed: true, terminated: true, ..self }
    }

    /// Nothing waits in the mailbox and nothing is being handled.
    pub open spec fn is_quiet(self) -> bool {
        self.len == 0 && self.inflight == 0
    }
}

/// The time from `last_ms` to `now_ms` in nanoseconds, zero where that would
/// run backwards.
pub open spec fn since_nanos(last_ms: u64, now_ms: u64) -> nat {
    if now_ms >= last_ms {
        ((now_ms - last_ms) * 1_000_000) as nat
    } else {
        0
    }
}

/// `now_ms` is what the clock can show at some time: the whole milliseconds of
/// a span that `Instant::elapsed` gave for `base`, as `Duration::as_millis`
/// counts them, of which the low word is kept.
pub open spec fn is_reading(base: Instant, now_ms: u64) -> bool {
    exists|span: std::time::Duration, millis: u128|
        #[trigger] call_ensures(Instant::elapsed, (&base,), span) && #[trigger] call_ensures(
            std::time::Duration::as_millis,
            (&span,),
            millis,
        ) && now_ms == millis as u64
}

/// Counts the messages of one mailbox, and keeps the state of its actor. The
/// senders and the task of the actor share it.
pub struct MailboxMeter {
    len: usize,
    inflight: usize,
    base: Instant,
    last_seen_ms: u64,
    last_done_ms: u64,
    incarnation: u64,
    closed: bool,
    terminated: bool,
}

impl View for MailboxMeter {
    type V = MeterState;

    closed spec fn view(&self) -> MeterState {
        MeterState {
            len: self.len,
            inflight: self.inflight,
            base: self.base,
            last_seen_ms: self.last_seen_ms,
            last_done_ms: self.last_done_ms,
            incarnation: self.incarnation,
            closed: self.closed,
            terminated: self.terminated,
        }
    }
}

impl MailboxMeter {
    pub fn new() -> (meter: Self)
        ensures
            call_ensures(Instant::now, (), meter@.base),
            meter@ == (MeterState {
                len: 0,
                inflight: 0,
                base: meter@.base,
                last_seen_ms: 0,
                last_done_ms: 0,
                incarnation: 1,
                closed: false,
                terminated: false,
            }),
    {
        let base = Instant::now();
        MailboxMeter {
            len: 0,
            inflight: 0,
            base,
            last_seen_ms: 0,
            last_done_ms: 0,
            incarnation: 1,
            closed: false,
            terminated: false,
        }
    }

    /// The milliseconds since the meter was made, as the clock has them now.
    pub fn now_ms(&self) -> (now_ms: u64)
        ensures
            is_reading(self@.base, now_ms),
    {
        let elapsed: u128 = self.base.elapsed().as_millis();
        #[verifier::truncate]
        let millis: u64 = elapsed as u64;
        millis
    }

    /// An instance of the actor starts at `now_ms`.
    pub fn on_startup_at(&mut self, now_ms: u64)
        ensures
            final(self)@ == old(self)@.started(now_ms),
    {
        self.last_seen_ms = now_ms;
        self.last_done_ms = now_ms;
    }

    pub fn on_startup(&mut self)
        ensures
            final(self)@ == old(self)@.started(final(self)@.last_seen_ms),
            is_reading(old(self)@.base, final(self)@.last_seen_ms),
    {
        let now: u64 = self.now_ms();
        self.on_startup_at(now);
    }

    /// A message was put into the mailbox at `now_ms`.
    pub fn on_send_ok_at(&mut self, now_ms: u64)
        ensures
            final(self)@ == old(self)@.sent(now_ms),
    {
        self.len = self.len.wrapping_add(1);
        self.last_seen_ms = now_ms;
    }

    pub fn on_send_ok(&mut self)
        ensures
            final(self)@ == old(self)@.sent(final(self)@.last_seen_ms),
            is_reading(old(self)@.base, final(self)@.last_seen_ms),
    {
        let now: u64 = self.now_ms();
        self.on_send_ok_at(now);
    }

    /// A message was taken out of the mailbox at `now_ms`. The count is taken
    /// modulo the word size: a message that is taken out before its sender
    /// has counted it brings the count below zero for a moment.
    pub fn on_recv_at(&mut self, now_ms: u64)
        ensures
            final(self)@ == old(self)@.received(now_ms),
    {
        self.len = self.len.wrapping_sub(1);
        self.last_seen_ms = now_ms;
    }

    pub fn on_recv(&mut self)
        ensures
            final(self)@ == old(self)@.received(final(self)@.last_seen_ms),
            is_reading(old(self)@.base, final(self)@.last_seen_ms),
    {
        let now: u64 = self.now_ms();
        self.on_recv_at(now);
    }

    /// The handling of a message begins.
    pub fn on_process_start(&mut self)
        ensures
            final(self)@ == old(self)@.process_started(),
    {
        self.inflight = self.inflight.wrapping_add(1);
    }

    /// The handling of a message is over at `now_ms`.
    pub fn on_process_end_at(&mut self, now_ms: u64)
        ensures
            final(self)@ == old(self)@.process_ended(now_ms),
    {
        self.inflight = self.inflight.wrapping_sub(1);
        self.last_done_ms = now_ms;
    }

    pub fn on_process_end(&mut self)
        ensures
            final(self)@ == old(self)@.process_ended(final(self)@.last_done_ms),
            is_reading(old(self)@.base, final(self)@.last_done_ms),
    {
        let now: u64 = self.now_ms();
        self.on_process_end_at(now);
    }

    /// How many messages are in the mailbox.
    pub fn len(&self) -> (len: usize)
        ensures
            len == self@.len,
    {
        self.len
    }

    /// How many messages are being handled.
    pub fn inflight_count(&self) -> (count: usize)
        ensures
            count == self@.inflight,
    {
        self.inflight
    }

    /// How long it is at `now_ms` since the handling of a message was last
    /// done.
    pub fn idle_for_at(&self, now_ms: u64) -> (idle: Duration)
        ensures
            idle@ == since_nanos(self@.last_done_ms, now_ms),
            now_ms >= self@.last_done_ms ==> idle@ + self@.last_done_ms * 1_000_000 == now_ms
                * 1_000_000,
            now_ms <= self@.last_done_ms ==> idle@ == 0,
    {
        Duration::from_millis(now_ms.saturating_sub(self.last_done_ms))
    }

    /// How long it is, by the clock, since the handling of a message was last
    /// done.
    pub fn idle_for(&self) -> (idle: Duration)
        ensures
            exists|now_ms: u64| #[trigger]
                is_reading(self@.base, now_ms) && idle@ == since_nanos(self@.last_done_ms, now_ms),
    {
        let now: u64 = self.now_ms();
        self.idle_for_at(now)
    }

    /// How long it is at `now_ms` since a message was last put into the
    /// mailbox or taken out of it.
    pub fn silence_for_at(&self, now_ms: u64) -> (silence: Duration)
        ensures
            silence@ == since_nanos(self@.last_seen_ms, now_ms),
            now_ms >= self@.last_seen_ms ==> silence@ + self@.last_seen_ms * 1_000_000 == now_ms
                * 1_000_000,
            now_ms <= self@.last_seen_ms ==> silence@ == 0,
    {
        Duration::from_millis(now_ms.saturating_sub(self.last_seen_ms))
    }

    /// How long it is, by the clock, since a message was last put into the
    /// mailbox or taken out of it.
    pub fn silence_for(&self) -> (silence: Duration)
        ensures
            exists|now_ms: u64| #[trigger]
                is_reading(self@.base, now_ms) && silence@ == since_nanos(
                    self@.last_seen_ms,
                    now_ms,
                ),
    {
        let now: u64 = self.now_ms();
        self.silence_for_at(now)
    }

    /// Which instance of the actor this is: the first is 1.
    pub fn incarnation(&self) -> (incarnation: u64)
        ensures
            incarnation == self@.incarnation,
    {
        self.incarnation
    }

    pub fn inc_incarnation(&mut self)
        ensures
            final(self)@ == old(self)@.reborn(),
    {
        self.incarnation = self.incarnation.wrapping_add(1);
    }

    pub fn is_closed(&self) -> (closed: bool)
        ensures
            closed == self@.closed,
    {
        self.closed
    }

    pub fn set_closed(&mut self, closed: bool)
        ensures
            final(self)@ == (MeterState { closed, ..old(self)@ }),
    {
        self.closed = closed;
    }

    pub fn is_terminated(&self) -> (terminated: bool)
        ensures
            terminated == self@.terminated,
    {
        self.terminated
    }

    pub fn set_terminated(&mut self, terminated: bool)
        ensures
            final(self)@ == (MeterState { terminated, ..old(self)@ }),
    {
        self.terminated = terminated;
    }

    /// Whether nothing waits in the mailbox and nothing is being handled.
    pub fn is_quiet(&self) -> (quiet: bool)
        ensures
            quiet == self@.is_quiet(),
    {
        self.len == 0 && self.inflight == 0
    }
}

/// Stands for a message that is being handled: the meter counts it from
/// `new` to `finish`.
pub struct ProcessGuard(());

impl ProcessGuard {
    /// Begins to count a message as being handled.
    pub fn new(meter: &mut MailboxMeter) -> (guard: Self)
        ensures
            final(meter)@ == old(meter)@.process_started(),
    {
        meter.on_process_start();
        ProcessGuard(())
    }

    /// Ceases to count the message, at `now_ms`.
    pub fn finish(self, meter: &mut MailboxMeter, now_ms: u64)
        ensures
            final(meter)@ == old(meter)@.process_ended(now_ms),
    {
        meter.on_process_end_at(now_ms);
    }
}

/// What is put into a mailbox and taken out of it again leaves the count of
/// waiting messages as it was.
pub proof fn law_send_then_receive(m: MeterState, sent_ms: u64, received_ms: u64)
    ensures
        m.sent(sent_ms).received(received_ms) == (MeterState { last_seen_ms: received_ms, ..m }),
{
}

/// The count is right in the end also where a message is taken out before its
/// sender has counted it.
pub proof fn law_receive_then_send(m: MeterState, sent_ms: u64, received_ms: u64)
    ensures
        m.received(received_ms).sent(sent_ms) == (MeterState { last_seen_ms: sent_ms, ..m }),
{
}

/// A message that was handled to the end is no longer counted.
pub proof fn law_process_guard_balances(m: MeterState, done_ms: u64)
    ensures
        m.process_started().process_ended(done_ms) == (MeterState { last_done_ms: done_ms, ..m }),
{
}

/// What the senders and the task of an actor do to a meter.
pub enum Traffic {
    Sent(u64),
    Received(u64),
    Started,
    Done(u64),
}

/// The meter after one more thing that is counted.
pub open spec fn after_one(m: MeterState, t: Traffic) -> MeterState {
    match t {
        Traffic::Sent(now_ms) => m.sent(now_ms),
        Traffic::Received(now_ms) => m.received(now_ms),
        Traffic::Started => m.process_started(),
        Traffic::Done(now_ms) => m.process_ended(now_ms),
    }
}

/// The meter after all of `traffic`.
pub open spec fn after_traffic(m: MeterState, traffic: Seq<Traffic>) -> MeterState
    decreases traffic.len(),
{
    if traffic.len() == 0 {
        m
    } else {
        after_one(after_traffic(m, traffic.drop_last()), traffic.last())
    }
}

/// How many more messages were sent than received.
pub open spec fn surplus(traffic: Seq<Traffic>) -> int
    decreases traffic.len(),
{
    if traffic.len() == 0 {
        0
    } else {
        surplus(traffic.drop_last()) + (match traffic.last() {
            Traffic::Sent(_) => 1int,
            Traffic::Received(_) => -1int,
            _ => 0int,
        })
    }
}

/// The length that a meter shows is the number of messages that were sent and
/// not yet received, in whatever order the two were counted.
pub proof fn law_len_counts_what_waits(m: MeterState, traffic: Seq<Traffic>)
    requires
        0 <= m.len + surplus(traffic) <= usize::MAX,
    ensures
        after_traffic(m, traffic).len == m.len + surplus(traffic),
{
    let wraps = lemma_len_modulo(m, traffic);
    let word = usize::MAX + 1;
    let len = after_traffic(m, traffic).len as int;
    let expected = m.len + surplus(traffic);
    assert(wraps == 0) by (nonlinear_arith)
        requires
            len == expected + wraps * word,
            0 <= len < word,
            0 <= expected < word,
    ;
}

/// The length is right but for whole turns of the counter.
proof fn lemma_len_modulo(m: MeterState, traffic: Seq<Traffic>) -> (wraps: int)
    ensures
        after_traffic(m, traffic).len == m.len + surplus(traffic) + wraps * (usize::MAX + 1),
    decreases traffic.len(),
{
    let word = usize::MAX + 1;
    if traffic.len() == 0 {
        0
    } else {
        let before = after_traffic(m, traffic.drop_last()).len;
        let wraps = lemma_len_modulo(m, traffic.drop_last());
        assert((wraps + 1) * word == wraps * word + word) by (nonlinear_arith);
        assert((wraps - 1) * word == wraps * word - word) by (nonlinear_arith);
        if traffic.last() is Sent && before == usize::MAX {
            wraps - 1
        } else if traffic.last() is Received && before == 0 {
            wraps + 1
        } else {
            wraps
        }
    }
}

/// Counting touches neither the number of the instance nor whether the mailbox
/// is closed or the actor has ended. So from the end on a meter shows the end,
/// whatever is still counted.
pub proof fn law_ended_for_good(m: MeterState, traffic: Seq<Traffic>)
    ensures
        after_traffic(m, traffic).closed == m.closed,
        after_traffic(m, traffic).terminated == m.terminated,
        after_traffic(m, traffic).incarnation == m.incarnation,
        after_traffic(m.ended(), traffic).closed,
        after_traffic(m.ended(), traffic).terminated,
    decreases traffic.len(),
{
    if traffic.len() > 0 {
        law_ended_for_good(m, traffic.drop_last());
    }
}

/// The time since a point grows by a million nanoseconds with each millisecond,
/// without bound: what was read at two times differs by just the time between
/// them, and at the point itself, or before it, there is nothing.
pub proof fn law_time_since_grows(last_ms: u64, now_ms: u64, later_ms: u64)
    ensures
        last_ms <= now_ms <= later_ms ==> since_nanos(last_ms, later_ms) == since_nanos(
            last_ms,
            now_ms,
        ) + (later_ms - now_ms) * 1_000_000,
        now_ms <= last_ms ==> since_nanos(last_ms, now_ms) == 0,
        now_ms >= last_ms ==> since_nanos(last_ms, now_ms) + last_ms * 1_000_000 == now_ms
            * 1_000_000,
{
}

/// A message that is sent or received moves the length by one and marks the
/// time of the traffic; a message that begins or ends moves the number in hand
/// by one, and its end marks the time of the work. Nothing else moves.
pub proof fn law_what_counting_changes(m: MeterState, now_ms: u64)
    ensures
        m.len < usize::MAX ==> m.sent(now_ms).len == m.len + 1,
        m.len == usize::MAX ==> m.sent(now_ms).len == 0,
        m.len > 0 ==> m.received(now_ms).len == m.len - 1,
        m.len == 0 ==> m.received(now_ms).len == usize::MAX,
        m.inflight < usize::MAX ==> m.process_started().inflight == m.inflight + 1,
        m.inflight == usize::MAX ==> m.process_started().inflight == 0,
        m.inflight > 0 ==> m.process_ended(now_ms).inflight == m.inflight - 1,
        m.inflight == 0 ==> m.process_ended(now_ms).inflight == usize::MAX,
        m.sent(now_ms) == (MeterState { len: m.sent(now_ms).len, last_seen_ms: now_ms, ..m }),
        m.received(now_ms) == (MeterState {
            len: m.received(now_ms).len,
            last_seen_ms: now_ms,
            ..m
        }),
        m.process_started() == (MeterState { inflight: m.process_started().inflight, ..m }),
        m.process_ended(now_ms) == (MeterState {
            inflight: m.process_ended(now_ms).inflight,
            last_done_ms: now_ms,
            ..m
        }),
{
}

/// A start marks both times; a rebirth moves the number of the instance by one;
/// the end closes the mailbox as well. Nothing else moves.
pub proof fn law_what_a_life_changes(m: MeterState, now_ms: u64)
    ensures
        m.started(now_ms) == (MeterState { last_seen_ms: now_ms, last_done_ms: now_ms, ..m }),
        m.incarnation < u64::MAX ==> m.reborn() == (MeterState {
            incarnation: (m.incarnation + 1) as u64,
            ..m
        }),
        m.incarnation == u64::MAX ==> m.reborn() == (MeterState { incarnation: 0, ..m }),
        m.ended() == (MeterState { closed: true, terminated: true, ..m }),
        m.is_quiet() <==> m.len == 0 && m.inflight == 0,
{
}

/// What counts as a reading of the clock comes from the clock: it is the low
/// word of the milliseconds of a span that the clock gave for `base`.
pub proof fn law_reading_comes_from_the_clock(base: Instant, now_ms: u64)
    ensures
        is_reading(base, now_ms) <==> exists|span: std::time::Duration, millis: u128|
            #[trigger] call_ensures(Instant::elapsed, (&base,), span) && #[trigger] call_ensures(
                std::time::Duration::as_millis,
                (&span,),
                millis,
            ) && now_ms == millis as u64,
{
}

} // verus!
