use axactor::mailbox::{Offer, Refused};
use axactor::{AskError, MailboxMeter, MailboxTx, TellError};
use tokio::sync::mpsc;

fn full<M>(msg: M) -> Result<(), Refused<M>> {
    Err(Refused { error: TellError::Full, msg })
}

fn closed<M>(msg: M) -> Result<(), Refused<M>> {
    Err(Refused { error: TellError::Closed, msg })
}

#[test]
fn a_message_is_taken_while_there_is_room() {
    let (tx, mut rx) = mpsc::channel::<&str>(2);
    let mailbox = MailboxTx::new(tx);
    let mut meter = MailboxMeter::new();
    assert_eq!(mailbox.try_send(&mut meter, "a"), Ok(()));
    assert_eq!(mailbox.try_send(&mut meter, "b"), Ok(()));
    assert_eq!(mailbox.try_send(&mut meter, "c"), full("c"));
    assert_eq!(meter.len(), 2);
    assert_eq!(rx.try_recv(), Ok("a"));
    assert_eq!(rx.try_recv(), Ok("b"));
    assert!(rx.try_recv().is_err());
}

#[test]
fn a_closed_mailbox_takes_nothing() {
    let (tx, mut rx) = mpsc::channel::<u8>(2);
    let mailbox = MailboxTx::new(tx);
    let mut meter = MailboxMeter::new();
    rx.close();
    assert_eq!(mailbox.try_send(&mut meter, 1), closed(1));
    let permit = futures::executor::block_on(mailbox.tx().reserve());
    assert_eq!(MailboxTx::send_wait(&mut meter, permit, 1), closed(1));
    assert_eq!(meter.len(), 0);
}

#[test]
fn a_mailbox_that_counts_as_closed_takes_nothing() {
    let (tx, mut rx) = mpsc::channel::<u8>(2);
    let mailbox = MailboxTx::new(tx);
    let mut meter = MailboxMeter::new();
    let permit = futures::executor::block_on(mailbox.tx().reserve());
    meter.set_closed(true);
    assert_eq!(mailbox.try_send(&mut meter, 1), closed(1));
    assert_eq!(MailboxTx::send_wait(&mut meter, permit, 2), closed(2));
    assert_eq!(meter.len(), 0);
    assert!(rx.try_recv().is_err());
    assert_eq!(mailbox.tx().capacity(), 2);
}

#[test]
fn a_permit_keeps_room_for_its_message() {
    let (tx, mut rx) = mpsc::channel::<u8>(1);
    let mailbox = MailboxTx::new(tx);
    let mut meter = MailboxMeter::new();
    let permit = futures::executor::block_on(mailbox.tx().reserve());
    assert_eq!(mailbox.try_send(&mut meter, 1), full(1));
    assert_eq!(MailboxTx::send_wait(&mut meter, permit, 2), Ok(()));
    assert_eq!(meter.len(), 1);
    assert_eq!(rx.try_recv(), Ok(2));
}

#[test]
fn another_sender_reaches_the_same_mailbox() {
    let (tx, mut rx) = mpsc::channel::<u8>(2);
    let mailbox = MailboxTx::new(tx);
    let mut meter = MailboxMeter::new();
    let other = mailbox.clone();
    assert!(mailbox.tx().same_channel(other.tx()));
    assert_eq!(other.try_send(&mut meter, 9), Ok(()));
    assert_eq!(rx.try_recv(), Ok(9));
}

#[test]
fn what_became_of_an_offer_is_told() {
    let mut meter = MailboxMeter::new();
    assert_eq!(MailboxTx::<u8>::record_offer(&mut meter, Offer::Taken), Ok(()));
    assert_eq!(meter.len(), 1);
    assert_eq!(MailboxTx::record_offer(&mut meter, Offer::Full(1)), full(1));
    assert_eq!(MailboxTx::record_offer(&mut meter, Offer::Closed(1)), closed(1));
    assert_eq!(meter.len(), 1);
}

#[test]
fn a_sender_shows_the_meter() {
    let (tx, _rx) = mpsc::channel::<u8>(2);
    let mailbox = MailboxTx::new(tx);
    let mut meter = MailboxMeter::new();
    meter.on_process_start();
    meter.inc_incarnation();
    let _ = mailbox.try_send(&mut meter, 1);
    assert_eq!(mailbox.len(&meter), 1);
    assert_eq!(mailbox.inflight_count(&meter), 1);
    assert_eq!(mailbox.incarnation(&meter), 2);
    assert!(!mailbox.is_closed(&meter));
    assert!(!mailbox.is_terminated(&meter));
    meter.set_closed(true);
    meter.set_terminated(true);
    assert!(mailbox.is_closed(&meter));
    assert!(mailbox.is_terminated(&meter));
    let hour = axactor::time::Duration::from_secs(3600);
    assert!(hour.at_least(&mailbox.idle_for(&meter)));
    assert!(hour.at_least(&mailbox.silence_for(&meter)));
}

#[test]
fn questions_are_answered_or_not() {
    assert_eq!(MailboxTx::<u8>::ask_wait(Ok(()), Some(3)), Ok(3));
    assert_eq!(MailboxTx::<u8>::ask_wait::<u8>(Ok(()), None), Err(AskError::Canceled));
    assert_eq!(MailboxTx::<u8>::ask_wait(Err(TellError::Full), Some(3)), Err(AskError::Full));
    assert_eq!(MailboxTx::<u8>::ask_wait::<u8>(Err(TellError::Closed), None), Err(AskError::Closed));
    assert_eq!(MailboxTx::<u8>::ask_wait_timeout(Some(Ok(3))), Ok(3));
    assert_eq!(
        MailboxTx::<u8>::ask_wait_timeout::<u8>(Some(Err(AskError::Canceled))),
        Err(AskError::Canceled)
    );
    assert_eq!(MailboxTx::<u8>::ask_wait_timeout::<u8>(None), Err(AskError::Timeout));
}
