use rtc::delivery::{awaited, hand_out, next_message, next_message_beside, Delivery, Waiting};
use rtc::poll::PollFuture;
use rtc::queue::{queue, Outbox, Polled};
use rtc::RtcDataChannelError;

#[test]
fn items_come_out_in_the_order_in_which_they_went_in() {
    let (mut outbox, mut inbox) = queue::<u8>();
    assert!(matches!(inbox.poll(), Polled::Empty));
    outbox.post(1);
    outbox.post(2);
    assert!(matches!(inbox.poll(), Polled::Item(1)));
    assert!(matches!(inbox.poll(), Polled::Item(2)));
    assert!(matches!(inbox.poll(), Polled::Empty));
}

#[test]
fn a_queue_is_closed_when_its_last_sending_end_is_gone() {
    let (mut first, mut inbox) = queue::<u8>();
    let mut second: Outbox<u8> = first.another();
    first.post(1);
    drop(first);
    assert!(matches!(inbox.poll(), Polled::Item(1)));
    assert!(matches!(inbox.poll(), Polled::Empty));
    second.post(2);
    drop(second);
    assert!(matches!(inbox.poll(), Polled::Item(2)));
    assert!(matches!(inbox.poll(), Polled::Closed));
    assert!(matches!(inbox.poll(), Polled::Closed));
}

#[test]
fn what_nobody_receives_is_dropped() {
    let (mut outbox, inbox) = queue::<u8>();
    drop(inbox);
    outbox.post(1);
}

#[test]
fn a_found_message_is_handed_out() {
    assert!(matches!(hand_out(Polled::Item(Ok(vec![1, 2]))), Some(Ok(Some(m))) if m == vec![1, 2]));
    let e = RtcDataChannelError::Receive("gone".to_string());
    assert!(matches!(
        hand_out(Polled::Item(Err(e))),
        Some(Err(RtcDataChannelError::Receive(text))) if text == "gone"
    ));
    assert!(matches!(hand_out(Polled::Empty), Some(Ok(None))));
    assert!(hand_out(Polled::Closed).is_none());
}

#[test]
fn one_look_finds_one_message() {
    let (mut outbox, mut inbox) = queue::<Delivery>();
    outbox.post(Ok(vec![7]));
    outbox.post(Ok(vec![]));
    assert!(matches!(next_message(&mut inbox), Some(Ok(Some(m))) if m == vec![7]));
    assert!(matches!(next_message(&mut inbox), Some(Ok(Some(m))) if m.is_empty()));
    assert!(matches!(next_message(&mut inbox), Some(Ok(None))));
    drop(outbox);
    assert!(next_message(&mut inbox).is_none());
    assert!(next_message(&mut inbox).is_none());
}

#[test]
fn a_wait_goes_on_until_something_comes() {
    assert!(matches!(awaited::<u8>(Ok(None)), Waiting::Again));
    assert!(matches!(awaited(Ok(Some(3u8))), Waiting::Done(Ok(3))));
    let e = RtcDataChannelError::Receive("gone".to_string());
    assert!(matches!(
        awaited::<u8>(Err(e)),
        Waiting::Done(Err(RtcDataChannelError::Receive(text))) if text == "gone"
    ));
}

#[test]
fn a_wait_is_over_after_its_polls() {
    let mut two = PollFuture::new(2);
    assert!(!two.poll());
    assert!(!two.poll());
    assert!(two.poll());
    assert!(two.poll());
    let mut once = PollFuture::once();
    assert!(!once.poll());
    assert!(once.poll());
    assert!(PollFuture::done().poll());
}

#[test]
fn beside_the_only_end_every_poll_finds_the_next_item() {
    let (mut outbox, mut inbox) = queue::<u8>();
    outbox.post(1);
    outbox.post(2);
    assert!(matches!(inbox.poll(), Polled::Item(1)));
    assert!(matches!(inbox.poll_beside(&outbox), Polled::Item(2)));
    assert!(matches!(inbox.poll_beside(&outbox), Polled::Empty));
    outbox.post(3);
    assert!(matches!(inbox.poll_beside(&outbox), Polled::Item(3)));
    assert!(matches!(inbox.poll_beside(&outbox), Polled::Empty));
}

#[test]
fn beside_the_only_end_every_look_finds_the_next_message() {
    let (mut outbox, mut inbox) = queue::<Delivery>();
    outbox.post(Ok(vec![7]));
    outbox.post(Err(RtcDataChannelError::Receive("gone".to_string())));
    assert!(matches!(next_message_beside(&mut inbox, &outbox), Some(Ok(Some(m))) if m == vec![7]));
    assert!(matches!(
        next_message_beside(&mut inbox, &outbox),
        Some(Err(RtcDataChannelError::Receive(x))) if x == "gone"
    ));
    assert!(matches!(next_message_beside(&mut inbox, &outbox), Some(Ok(None))));
}
