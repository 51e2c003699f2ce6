//! The sending side of a mailbox.
use crate::error::{refused_ask, AskError, TellError};
use crate::meter::{is_reading, since_nanos, MailboxMeter};
use crate::time::Duration;
use tokio::sync::mpsc::error::{SendError, TrySendError};
use tokio::sync::mpsc::{Permit, Sender};
use vstd::prelude::*;

verus! {

/// The sending half of a bounded channel.
#[verifier::external_type_specification]
#[verifier::external_body]
#[verifier::reject_recursive_types(T)]
pub struct ExSender<T>(tokio::sync::mpsc::Sender<T>);

/// Room for one message in a channel, kept for its holder.
#[verifier::external_type_specification]
#[verifier::external_body]
#[verifier::reject_recursive_types(T)]
pub struct ExPermit<'a, T>(tokio::sync::mpsc::Permit<'a, T>);

/// What a channel says when it is closed.
#[verifier::external_type_specification]
#[verifier::external_body]
#[verifier::reject_recursive_types(T)]
pub struct ExSendError<T>(tokio::sync::mpsc::error::SendError<T>);

/// What became of a message that was offered to a channel. One that was not
/// taken comes back.
#[derive(Debug)]
pub enum Offer<M> {
    Taken,
    /// There is no room in the channel.
    Full(M),
    /// The channel is closed.
    Closed(M),
}

/// `tokio::sync::mpsc::Sender::try_send` puts the message into the channel if
/// there is room and the channel is open, and gives the message back
/// otherwise. What others do with the channel decides which of these happens,
/// so nothing is claimed of that.
#[verifier::external_body]
fn offer<M>(tx: &Sender<M>, msg: M) -> (offer: Offer<M>)
    ensures
        offer matches Offer::Full(back) ==> back == msg,
        offer matches Offer::Closed(back) ==> back == msg,
{
    match tx.try_send(msg) {
        Ok(()) => Offer::Taken,
        Err(TrySendError::Full(back)) => Offer::Full(back),
        Err(TrySendError::Closed(back)) => Offer::Closed(back),
    }
}

/// `tokio::sync::mpsc::Sender::clone` gives another sender for the same
/// channel. Nothing is claimed of it.
#[verifier::external_body]
fn another<M>(tx: &Sender<M>) -> Sender<M> {
    tx.clone()
}

/// `tokio::sync::mpsc::Permit::send` puts the message into the room that the
/// permit keeps. It gives nothing back, and nothing is claimed of it.
pub assume_specification<'a, T>[ tokio::sync::mpsc::Permit::<'a, T>::send ](
    permit: tokio::sync::mpsc::Permit<'a, T>,
    value: T,
)
;

/// `became` is what can come of offering the message to the channel.
pub closed spec fn can_become<M>(tx: Sender<M>, msg: M, became: Offer<M>) -> bool {
    call_ensures(offer::<M>, (&tx, msg), became)
}

/// A message that was not taken, and why: it stays with its sender.
#[derive(Debug, PartialEq, Eq)]
pub struct Refused<M> {
    pub error: TellError,
    pub msg: M,
}

/// What the sender of a message is told.
pub open spec fn told<M>(offer: Offer<M>) -> Result<(), Refused<M>> {
    match offer {
        Offer::Taken => Ok(()),
        Offer::Full(msg) => Err(Refused { error: TellError::Full, msg }),
        Offer::Closed(msg) => Err(Refused { error: TellError::Closed, msg }),
    }
}

/// What became of a message, without the message.
pub open spec fn errors_of<M>(sent: Result<(), Refused<M>>) -> Result<(), TellError> {
    match sent {
        Ok(_) => Ok(()),
        Err(refused) => Err(refused.error),
    }
}

/// What the sender is told who has waited for room in a mailbox: there is no
/// room just where the mailbox is closed.
pub open spec fn waited<M>(got_room: bool, msg: M) -> Result<(), Refused<M>> {
    if got_room {
        Ok(())
    } else {
        told(Offer::Closed(msg))
    }
}

/// The answer to a question, where `sent` is what became of its message, and
/// `reply` what the actor answered, if it did.
pub open spec fn answered<R>(sent: Result<(), TellError>, reply: Option<R>) -> Result<R, AskError> {
    match (sent, reply) {
        (Err(e), _) => Err(refused_ask(e)),
        (Ok(_), None) => Err(AskError::Canceled),
        (Ok(_), Some(r)) => Ok(r),
    }
}

/// The answer to a question that was given a time, where `answer` is what came
/// within it, if anything did.
pub open spec fn in_time<R>(answer: Option<Result<R, AskError>>) -> Result<R, AskError> {
    match answer {
        Some(a) => a,
        None => Err(AskError::Timeout),
    }
}

/// `copy` is what cloning the sender can give.
pub closed spec fn can_be_cloned<M>(tx: Sender<M>, copy: Sender<M>) -> bool {
    call_ensures(another::<M>, (&tx,), copy)
}

/// Sends messages to one actor. The meter of the mailbox is shared between
/// all senders and the task of the actor, so it is passed to each call, by a
/// caller that has it to itself for the time of the call.
#[verifier::reject_recursive_types(M)]
pub struct MailboxTx<M> {
    tx: Sender<M>,
}

impl<M> Clone for MailboxTx<M> {
    /// Another sender for the same mailbox: it sends into what the channel gave
    /// as another sender of its own.
    fn clone(&self) -> (copy: Self)
        ensures
            can_be_cloned(self.sender(), copy.sender()),
    {
        MailboxTx { tx: another(&self.tx) }
    }
}

impl<M> MailboxTx<M> {
    pub closed spec fn sender(&self) -> Sender<M> {
        self.tx
    }

    pub fn new(tx: Sender<M>) -> (mailbox: Self)
        ensures
            mailbox.sender() == tx,
    {
        MailboxTx { tx }
    }

    pub fn tx(&self) -> (tx: &Sender<M>)
        ensures
            *tx == self.sender(),
    {
        &self.tx
    }

    /// Counts a message that was taken, and says what became of it.
    pub fn record_offer(meter: &mut MailboxMeter, offer: Offer<M>) -> (sent: Result<(), Refused<M>>)
        ensures
            sent == told(offer),
            final(meter)@ == (if offer is Taken {
                old(meter)@.sent(final(meter)@.last_seen_ms)
            } else {
                old(meter)@
            }),
            offer is Taken ==> is_reading(old(meter)@.base, final(meter)@.last_seen_ms),
    {
        match offer {
            Offer::Taken => {
                meter.on_send_ok();
                Ok(())
            },
            Offer::Full(msg) => Err(Refused { error: TellError::Full, msg }),
            Offer::Closed(msg) => Err(Refused { error: TellError::Closed, msg }),
        }
    }

    /// Sends a message if there is room for it now. A mailbox that counts as
    /// closed takes no more. Otherwise the sender is told what became of this
    /// message when it was offered to this channel. A message is counted just
    /// where it is taken, and comes back just where it is not.
    pub fn try_send(&self, meter: &mut MailboxMeter, msg: M) -> (sent: Result<(), Refused<M>>)
        ensures
            old(meter)@.closed ==> sent == told(Offer::Closed(msg)),
            !old(meter)@.closed ==> exists|became: Offer<M>| #[trigger]
                can_become(self.sender(), msg, became) && sent == told(became),
            sent matches Err(refused) ==> refused.msg == msg,
            final(meter)@ == (if sent is Ok {
                old(meter)@.sent(final(meter)@.last_seen_ms)
            } else {
                old(meter)@
            }),
            sent is Ok ==> is_reading(old(meter)@.base, final(meter)@.last_seen_ms),
    {
        if meter.is_closed() {
            return Err(Refused { error: TellError::Closed, msg });
        }
        let became = offer(&self.tx, msg);
        assert(can_become(self.sender(), msg, became));
        Self::record_offer(meter, became)
    }

    /// Sends a message into the room that was waited for. The wait fails only
    /// where the mailbox is closed, and a wait that was given up has counted
    /// nothing: the message is counted with the permit at hand. A mailbox that
    /// counts as closed meanwhile takes no more: the room is given up, and the
    /// message comes back.
    pub fn send_wait(
        meter: &mut MailboxMeter,
        permit: Result<Permit<'_, M>, SendError<()>>,
        msg: M,
    ) -> (sent: Result<(), Refused<M>>)
        ensures
            sent == waited(permit is Ok && !old(meter)@.closed, msg),
            sent is Ok ==> call_ensures(Permit::<M>::send, (permit->Ok_0, msg), ()),
            final(meter)@ == (if sent is Ok {
                old(meter)@.sent(final(meter)@.last_seen_ms)
            } else {
                old(meter)@
            }),
            sent is Ok ==> is_reading(old(meter)@.base, final(meter)@.last_seen_ms),
    {
        match permit {
            Ok(permit) => {
                if meter.is_closed() {
                    return Err(Refused { error: TellError::Closed, msg });
                }
                meter.on_send_ok();
                permit.send(msg);
                Ok(())
            },
            Err(_) => Err(Refused { error: TellError::Closed, msg }),
        }
    }

    /// How many messages are in the mailbox.
    pub fn len(&self, meter: &MailboxMeter) -> (len: usize)
        ensures
            len == meter@.len,
    {
        meter.len()
    }

    /// How many messages are being handled.
    pub fn inflight_count(&self, meter: &MailboxMeter) -> (count: usize)
        ensures
            count == meter@.inflight,
    {
        meter.inflight_count()
    }

    /// How long it is, by the clock, since the handling of a message was last
    /// done.
    pub fn idle_for(&self, meter: &MailboxMeter) -> (idle: Duration)
        ensures
            exists|now_ms: u64| #[trigger]
                is_reading(meter@.base, now_ms) && idle@ == since_nanos(
                    meter@.last_done_ms,
                    now_ms,
                ),
    {
        meter.idle_for()
    }

    /// How long it is, by the clock, since a message was last put into the
    /// mailbox or taken out of it.
    pub fn silence_for(&self, meter: &MailboxMeter) -> (silence: Duration)
        ensures
            exists|now_ms: u64| #[trigger]
                is_reading(meter@.base, now_ms) && silence@ == since_nanos(
                    meter@.last_seen_ms,
                    now_ms,
                ),
    {
        meter.silence_for()
    }

    /// Which instance of the actor this is: the first is 1.
    pub fn incarnation(&self, meter: &MailboxMeter) -> (incarnation: u64)
        ensures
            incarnation == meter@.incarnation,
    {
        meter.incarnation()
    }

    /// Whether the mailbox takes no more messages.
    pub fn is_closed(&self, meter: &MailboxMeter) -> (closed: bool)
        ensures
            closed == meter@.closed,
    {
        meter.is_closed()
    }

    /// Whether the task of the actor has ended.
    pub fn is_terminated(&self, meter: &MailboxMeter) -> (terminated: bool)
        ensures
            terminated == meter@.terminated,
    {
        meter.is_terminated()
    }

    /// The answer to a question: there is none where the question was not
    /// taken, nor where the actor has dropped it.
    pub fn ask_wait<R>(sent: Result<(), TellError>, reply: Option<R>) -> (answer: Result<R, AskError>)
        ensures
            answer == answered(sent, reply),
    {
        match sent {
            Ok(()) => match reply {
                Some(r) => Ok(r),
                None => Err(AskError::Canceled),
            },
            Err(e) => Err(AskError::from(e)),
        }
    }

    /// The answer to a question that was given a time: `answer` is what came
    /// within it, if anything did.
    pub fn ask_wait_timeout<R>(answer: Option<Result<R, AskError>>) -> (timely: Result<R, AskError>)
        ensures
            timely == in_time(answer),
    {
        match answer {
            Some(a) => a,
            None => Err(AskError::Timeout),
        }
    }
}

/// A question that waits for room and is given a time is answered just as one
/// that waits without an end, if that comes within the time; and if nothing
/// comes, the time is over. Neither is ever told that the mailbox is full, and
/// who waits without an end is never told that the time is over.
pub proof fn law_timed_question<M, R>(got_room: bool, msg: M, reply: Option<R>, is_timely: bool)
    ensures
        ({
            let answer = answered(errors_of(waited(got_room, msg)), reply);
            let timely = in_time(
                if is_timely {
                    Some(answer)
                } else {
                    None
                },
            );
            &&& timely == Err::<R, AskError>(AskError::Timeout) <==> !is_timely
            &&& is_timely ==> timely == answer
            &&& timely != Err::<R, AskError>(AskError::Full)
            &&& answer == Err::<R, AskError>(AskError::Closed) <==> !got_room
            &&& answer == Err::<R, AskError>(AskError::Canceled) <==> got_room && reply is None
            &&& answer is Ok <==> got_room && reply is Some
        }),
{
}

/// What is told of an offer: a message that was taken is sent, and one that was
/// not comes back with the reason.
pub proof fn law_what_is_told<M>(offer: Offer<M>)
    ensures
        offer is Taken <==> told(offer) is Ok,
        offer matches Offer::Full(msg) ==> told(offer) == Err::<(), Refused<M>>(
            Refused { error: TellError::Full, msg },
        ),
        offer matches Offer::Closed(msg) ==> told(offer) == Err::<(), Refused<M>>(
            Refused { error: TellError::Closed, msg },
        ),
        errors_of(told(offer)) is Ok <==> offer is Taken,
        errors_of(told(offer)) == Err::<(), TellError>(TellError::Full) <==> offer is Full,
        errors_of(told(offer)) == Err::<(), TellError>(TellError::Closed) <==> offer is Closed,
{
}

/// Who has waited for room is told that the message is sent, or gets it back
/// from a closed mailbox.
pub proof fn law_what_waiting_tells<M>(got_room: bool, msg: M)
    ensures
        got_room <==> waited(got_room, msg) is Ok,
        !got_room ==> waited(got_room, msg) == Err::<(), Refused<M>>(
            Refused { error: TellError::Closed, msg },
        ),
{
}

/// A question is answered with what the actor answered, and with nothing else;
/// one that was refused fails for the reason of the refusal, whatever came, and
/// one that was dropped counts as canceled. A time that is over is told, and an
/// answer in time is passed on as it is.
pub proof fn law_what_is_answered<R>(
    sent: Result<(), TellError>,
    reply: Option<R>,
    answer: Result<R, AskError>,
)
    ensures
        sent is Ok ==> (reply matches Some(r) ==> answered(sent, reply) == Ok::<R, AskError>(r)),
        sent is Ok && reply is None ==> answered(sent, reply) == Err::<R, AskError>(
            AskError::Canceled,
        ),
        sent == Err::<(), TellError>(TellError::Full) ==> answered(sent, reply)
            == Err::<R, AskError>(AskError::Full),
        sent == Err::<(), TellError>(TellError::Closed) ==> answered(sent, reply)
            == Err::<R, AskError>(AskError::Closed),
        in_time(Some(answer)) == answer,
        in_time::<R>(None) == Err::<R, AskError>(AskError::Timeout),
{
}

/// What can become of an offer is what the channel can make of just this
/// message, and what cloning can give is what the channel gives for it.
proof fn law_channel_decides<M>(tx: Sender<M>, msg: M, became: Offer<M>, copy: Sender<M>)
    ensures
        can_become(tx, msg, became) <==> call_ensures(offer::<M>, (&tx, msg), became),
        can_be_cloned(tx, copy) <==> call_ensures(another::<M>, (&tx,), copy),
        can_become(tx, msg, became) ==> (became matches Offer::Full(back) ==> back == msg),
        can_become(tx, msg, became) ==> (became matches Offer::Closed(back) ==> back == msg),
{
}

} // verus!
