use roboplc::error::Error;
use roboplc::pchannel::SendAttempt;
use roboplc::pchannel_async::{AsyncChannelState, RecvPoll, SendPoll, WakeAction, WakerQueue};
use roboplc::policy::{DataDeliveryPolicy, DeliveryPolicy};

#[derive(Debug, Clone, PartialEq)]
enum Message {
    Test(usize),
    Temperature(u32),
    Spam,
}

impl DataDeliveryPolicy for Message {
    fn delivery_policy(&self) -> DeliveryPolicy {
        match self {
            Message::Test(_) => DeliveryPolicy::Always,
            Message::Temperature(_) => DeliveryPolicy::Single,
            Message::Spam => DeliveryPolicy::Optional,
        }
    }
    fn priority(&self) -> usize {
        100
    }
    fn eq_kind(&self, other: &Self) -> bool {
        std::mem::discriminant(self) == std::mem::discriminant(other)
    }
    fn is_expired(&self) -> bool {
        false
    }
}

#[test]
fn waker_queue_fifo_and_lost_wakeups() {
    let mut q: WakerQueue<&str> = WakerQueue::new();
    assert!(q.is_empty());
    q.append_task("a", 1);
    q.append_blocking();
    q.append_task("b", 2);
    assert!(matches!(q.wake_next(), WakeAction::Wake("a")));
    // task 1 was woken but goes away before polling: the wake-up moves on
    assert!(matches!(q.remove_task(1), WakeAction::NotifyOne));
    assert!(matches!(q.remove_task(2), WakeAction::Nothing));
    assert!(q.is_empty());
    q.append_task("c", 3);
    q.append_blocking();
    q.append_task("d", 4);
    assert_eq!(q.take_all(), vec!["c", "d"]);
    assert!(q.is_empty());
    assert!(!q.confirm_waked(3));
}

#[test]
fn poll_send_and_recv() {
    let mut ch: AsyncChannelState<Message, u8> = AsyncChannelState::new(1, false);
    let id = ch.op_id();
    assert_eq!(id, 0);
    assert_eq!(ch.op_id(), 1);
    assert!(matches!(
        ch.poll_send(false, id, Message::Test(1), 10),
        SendPoll::Ready(Ok(()), WakeAction::Nothing)
    ));
    // full: the second sender waits and keeps its value
    match ch.poll_send(false, 5, Message::Test(2), 11) {
        SendPoll::Pending(v) => assert_eq!(v, Message::Test(2)),
        _ => panic!("expected pending"),
    }
    // the receive frees room and wakes the waiting sender
    match ch.poll_recv(false, 6, 12) {
        RecvPoll::Ready(Ok(m), WakeAction::Wake(w)) => {
            assert_eq!(m, Message::Test(1));
            assert_eq!(w, 11);
        }
        _ => panic!("expected a value and a wake-up"),
    }
    assert!(matches!(
        ch.poll_send(true, 5, Message::Test(2), 11),
        SendPoll::Ready(Ok(()), WakeAction::Nothing)
    ));
    assert!(matches!(ch.poll_recv(false, 7, 13), RecvPoll::Ready(Ok(Message::Test(2)), _)));
    assert!(matches!(ch.poll_recv(false, 8, 14), RecvPoll::Pending));
    let woken = ch.drop_sender();
    assert_eq!(woken, vec![14]);
    assert!(matches!(
        ch.poll_recv(true, 8, 14),
        RecvPoll::Ready(Err(Error::ChannelClosed), WakeAction::Nothing)
    ));
}

#[test]
fn pchannel_async_test_delivery_policy_single() {
    let mut ch: AsyncChannelState<Message, u8> = AsyncChannelState::new(512, false);
    for i in 0..10 {
        assert!(matches!(ch.try_send(Message::Test(i)).0, SendAttempt::Pushed));
        let _ = ch.try_send(Message::Spam);
        assert!(matches!(ch.try_send(Message::Temperature(i as u32)).0, SendAttempt::Pushed));
    }
    let mut c = 0;
    let mut t = 0;
    while let (Ok(m), _) = ch.try_recv() {
        match m {
            Message::Test(_) => c += 1,
            Message::Temperature(_) => t += 1,
            Message::Spam => {}
        }
    }
    assert_eq!(c, 10);
    assert_eq!(t, 1);
}

#[test]
fn async_closed_for_senders() {
    let mut ch: AsyncChannelState<Message, u8> = AsyncChannelState::new(2, false);
    ch.wait_for_space();
    let woken = ch.drop_receiver();
    assert!(woken.is_empty());
    assert!(matches!(
        ch.poll_send(false, 0, Message::Test(1), 1),
        SendPoll::Ready(Err(Error::ChannelClosed), WakeAction::Nothing)
    ));
    assert!(matches!(ch.try_send(Message::Test(1)).0, SendAttempt::Closed));
}

fn send_or_take(
    ch: &mut AsyncChannelState<Message, u8>,
    mut m: Message,
    got: &mut Vec<Message>,
) -> Result<(), Error> {
    loop {
        match ch.try_send(m).0 {
            SendAttempt::Pushed => return Ok(()),
            SendAttempt::Skipped => return Err(Error::ChannelSkipped),
            SendAttempt::Closed => return Err(Error::ChannelClosed),
            SendAttempt::Full(v) => {
                m = v;
                got.push(ch.try_recv().0.ok().unwrap());
            }
        }
    }
}

#[test]
fn pchannel_async_test_delivery_policy_optional() {
    let mut ch: AsyncChannelState<Message, u8> = AsyncChannelState::new(1, false);
    let mut messages = Vec::new();
    for _ in 0..10 {
        send_or_take(&mut ch, Message::Test(123), &mut messages).unwrap();
        if let Err(e) = send_or_take(&mut ch, Message::Spam, &mut messages) {
            assert!(e.is_data_skipped(), "{:?}", e);
        }
        send_or_take(&mut ch, Message::Temperature(123), &mut messages).unwrap();
    }
    assert!(ch.drop_sender().is_empty());
    while let (Ok(msg), _) = ch.try_recv() {
        messages.push(msg);
    }
    for msg in &messages {
        if matches!(msg, Message::Spam) {
            panic!("delivery policy not respected ({:?})", msg);
        }
    }
    assert_eq!(messages.len(), 20);
}
