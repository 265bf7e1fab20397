use roboplc::error::Error;
use roboplc::pchannel::{PolicyChannel, SendAttempt};
use roboplc::pdeque::Deque;
use roboplc::policy::{DataDeliveryPolicy, DeliveryPolicy};

#[derive(Debug, Clone, PartialEq)]
enum Message {
    Test(usize),
    Temperature(f64),
    Spam,
    Prio(usize, u32),
    Expired,
    Latest(u32),
    SingleOpt(u32),
}

impl DataDeliveryPolicy for Message {
    fn delivery_policy(&self) -> DeliveryPolicy {
        match self {
            Message::Test(_) | Message::Prio(..) | Message::Expired => DeliveryPolicy::Always,
            Message::Temperature(_) => DeliveryPolicy::Single,
            Message::Spam => DeliveryPolicy::Optional,
            Message::Latest(_) => DeliveryPolicy::Latest,
            Message::SingleOpt(_) => DeliveryPolicy::SingleOptional,
        }
    }
    fn priority(&self) -> usize {
        match self {
            Message::Prio(p, _) => *p,
            _ => 100,
        }
    }
    fn eq_kind(&self, other: &Self) -> bool {
        std::mem::discriminant(self) == std::mem::discriminant(other)
    }
    fn is_expired(&self) -> bool {
        matches!(self, Message::Expired)
    }
}

#[test]
fn optional_is_skipped_when_full() {
    let mut d: Deque<Message> = Deque::bounded(1);
    let r = d.try_push(Message::Test(1));
    assert!(r.pushed && r.value.is_none());
    let r = d.try_push(Message::Spam);
    assert!(!r.pushed && r.value.is_none());
    assert_eq!(d.len(), 1);
    assert_eq!(d.get(), Some(Message::Test(1)));
    assert!(d.is_empty());
}

#[test]
fn always_evicts_optional_when_full() {
    let mut d: Deque<Message> = Deque::bounded(1);
    assert!(d.try_push(Message::Spam).pushed);
    let r = d.try_push(Message::Test(7));
    assert!(r.pushed && r.value.is_none());
    assert_eq!(d.get(), Some(Message::Test(7)));
    assert_eq!(d.get(), None);
}

#[test]
fn always_handed_back_when_nothing_evictable() {
    let mut d: Deque<Message> = Deque::bounded(1);
    assert!(d.try_push(Message::Test(1)).pushed);
    let r = d.try_push(Message::Test(2));
    assert!(!r.pushed);
    assert_eq!(r.value, Some(Message::Test(2)));
    assert!(d.is_full());
}

#[test]
fn alternating_always_and_optional_capacity_one() {
    let mut d: Deque<Message> = Deque::bounded(1);
    let mut seen = Vec::new();
    for i in 0..10 {
        let r = d.try_push(Message::Test(i));
        assert!(r.value.is_none());
        let _ = d.try_push(Message::Spam);
        while let Some(m) = d.get() {
            seen.push(m);
        }
    }
    assert_eq!(seen.len(), 10);
    assert!(seen.iter().all(|m| matches!(m, Message::Test(_))));
}

#[test]
fn single_coalesces() {
    let mut d: Deque<Message> = Deque::bounded(512);
    for i in 0..10 {
        assert!(d.try_push(Message::Test(i)).pushed);
        let _ = d.try_push(Message::Spam);
        assert!(d.try_push(Message::Temperature(i as f64)).pushed);
        let temps = (0..d.len()).count();
        assert!(temps > 0);
    }
    let mut c = 0;
    let mut t = 0;
    let mut last_temp = -1.0;
    while let Some(m) = d.get() {
        match m {
            Message::Test(_) => c += 1,
            Message::Temperature(v) => {
                t += 1;
                last_temp = v;
            }
            _ => {}
        }
    }
    assert_eq!(c, 10);
    assert_eq!(t, 1);
    assert_eq!(last_temp, 9.0);
}

#[test]
fn single_optional_under_load() {
    let mut ch: PolicyChannel<Message> = PolicyChannel::new(1, false);
    for i in 0..10 {
        assert!(matches!(ch.try_send(Message::SingleOpt(i)), SendAttempt::Pushed));
    }
    assert_eq!(ch.len(), 1);
    assert_eq!(ch.try_recv().ok(), Some(Message::SingleOpt(9)));
    assert!(matches!(ch.try_recv(), Err(Error::ChannelEmpty)));
}

#[test]
fn ordered_channel_priorities() {
    let mut ch: PolicyChannel<Message> = PolicyChannel::new(8, true);
    for (i, p) in [100usize, 10, 50, 100].iter().enumerate() {
        assert!(matches!(ch.try_send(Message::Prio(*p, i as u32)), SendAttempt::Pushed));
    }
    let mut got = Vec::new();
    for _ in 0..4 {
        got.push(ch.try_recv().ok().unwrap());
    }
    assert_eq!(
        got,
        vec![
            Message::Prio(10, 1),
            Message::Prio(50, 2),
            Message::Prio(100, 0),
            Message::Prio(100, 3)
        ]
    );
}

#[test]
fn expired_values_are_dropped() {
    let mut d: Deque<Message> = Deque::bounded(2);
    let r = d.try_push(Message::Expired);
    assert!(r.pushed && r.value.is_none());
    assert!(d.is_empty());
}

#[test]
fn latest_pushes_out_oldest() {
    let mut d: Deque<Message> = Deque::bounded(2);
    assert!(d.try_push(Message::Latest(1)).pushed);
    assert!(d.try_push(Message::Latest(2)).pushed);
    assert!(d.try_push(Message::Latest(3)).pushed);
    assert_eq!(d.get(), Some(Message::Latest(2)));
    assert_eq!(d.get(), Some(Message::Latest(3)));
}

#[test]
fn clear_empties() {
    let mut d: Deque<Message> = Deque::bounded(3).set_ordering(true);
    d.try_push(Message::Test(1));
    d.try_push(Message::Test(2));
    d.clear();
    assert_eq!(d.len(), 0);
    assert!(!d.is_full());
}

#[test]
fn channel_closure() {
    let mut ch: PolicyChannel<Message> = PolicyChannel::new(4, false);
    assert!(matches!(ch.try_send(Message::Test(1)), SendAttempt::Pushed));
    assert!(ch.remove_sender());
    assert_eq!(ch.try_recv().ok(), Some(Message::Test(1)));
    assert!(matches!(ch.try_recv(), Err(Error::ChannelClosed)));
    let mut ch2: PolicyChannel<Message> = PolicyChannel::new(4, false);
    assert!(ch2.remove_receiver());
    assert!(!ch2.has_receivers());
    assert!(matches!(ch2.try_send(Message::Test(1)), SendAttempt::Closed));
}

#[test]
fn channel_full_hands_value_back() {
    let mut ch: PolicyChannel<Message> = PolicyChannel::new(1, false);
    assert!(matches!(ch.try_send(Message::Test(1)), SendAttempt::Pushed));
    match ch.try_send(Message::Test(2)) {
        SendAttempt::Full(v) => assert_eq!(v, Message::Test(2)),
        _ => panic!("expected a full channel"),
    }
    assert!(matches!(ch.try_send(Message::Spam), SendAttempt::Skipped));
    assert!(ch.is_full());
}

#[test]
fn error_skipped_flag() {
    assert!(Error::ChannelSkipped.is_data_skipped());
    assert!(!Error::ChannelFull.is_data_skipped());
}

fn send_or_drain(ch: &mut PolicyChannel<Message>, mut m: Message, got: &mut Vec<Message>) -> Result<(), Error> {
    loop {
        match ch.try_send(m) {
            SendAttempt::Pushed => return Ok(()),
            SendAttempt::Skipped => return Err(Error::ChannelSkipped),
            SendAttempt::Closed => return Err(Error::ChannelClosed),
            SendAttempt::Full(v) => {
                m = v;
                got.push(ch.try_recv().ok().unwrap());
            }
        }
    }
}

#[test]
fn pchannel_test_delivery_policy_optional() {
    let mut ch: PolicyChannel<Message> = PolicyChannel::new(1, false);
    let mut messages = Vec::new();
    for _ in 0..10 {
        send_or_drain(&mut ch, Message::Test(123), &mut messages).unwrap();
        if let Err(e) = send_or_drain(&mut ch, Message::Spam, &mut messages) {
            assert!(e.is_data_skipped(), "{:?}", e);
        }
        send_or_drain(&mut ch, Message::Temperature(123.0), &mut messages).unwrap();
    }
    ch.remove_sender();
    while let Ok(msg) = ch.try_recv() {
        messages.push(msg);
    }
    for msg in &messages {
        if matches!(msg, Message::Spam) {
            panic!("delivery policy not respected ({:?})", msg);
        }
    }
    assert_eq!(messages.len(), 20);
}

#[test]
fn pchannel_test_delivery_policy_single() {
    let mut ch: PolicyChannel<Message> = PolicyChannel::new(512, false);
    let mut drained = Vec::new();
    for _ in 0..10 {
        send_or_drain(&mut ch, Message::Test(123), &mut drained).unwrap();
        if let Err(e) = send_or_drain(&mut ch, Message::Spam, &mut drained) {
            assert!(e.is_data_skipped(), "{:?}", e);
        }
        send_or_drain(&mut ch, Message::Temperature(123.0), &mut drained).unwrap();
    }
    ch.remove_sender();
    let mut c = 0;
    let mut t = 0;
    while let Ok(msg) = ch.try_recv() {
        match msg {
            Message::Test(_) => c += 1,
            Message::Temperature(_) => t += 1,
            _ => {}
        }
    }
    assert!(drained.is_empty());
    assert_eq!(c, 10);
    assert_eq!(t, 1);
}
