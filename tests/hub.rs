use std::cell::RefCell;
use std::rc::Rc;

use roboplc::error::Error;
use roboplc::hub::{plan_dispatch, Delivery, HubInner, Subscription, DEFAULT_PRIORITY};
use roboplc::pchannel::PolicyChannel;
use roboplc::policy::{DataDeliveryPolicy, DeliveryPolicy};

#[derive(Clone, Debug, PartialEq)]
enum Message {
    Temperature(f64),
    Humidity(f64),
    Test,
}

impl DataDeliveryPolicy for Message {
    fn delivery_policy(&self) -> DeliveryPolicy {
        DeliveryPolicy::Always
    }
    fn priority(&self) -> usize {
        100
    }
    fn eq_kind(&self, other: &Self) -> bool {
        std::mem::discriminant(self) == std::mem::discriminant(other)
    }
    fn is_expired(&self) -> bool {
        false
    }
}

type Filter = fn(&Message) -> bool;
type Sink = (Filter, Rc<RefCell<PolicyChannel<Message>>>);

fn register(
    hub: &mut HubInner<Sink>,
    name: &str,
    priority: usize,
    filter: Filter,
) -> Result<Rc<RefCell<PolicyChannel<Message>>>, Error> {
    let ch = Rc::new(RefCell::new(PolicyChannel::new(hub.channel_capacity(None), false)));
    hub.register(Subscription {
        name: name.to_owned(),
        priority,
        sink: (filter, ch.clone()),
    })?;
    Ok(ch)
}

fn send(hub: &HubInner<Sink>, message: Message, clones: &mut usize) {
    let subs = hub.subscriptions();
    let matches: Vec<bool> = subs.iter().map(|s| (s.sink.0)(&message)).collect();
    let plan = plan_dispatch(&matches);
    let mut message = Some(message);
    for d in plan {
        let m = if d.by_move {
            message.take().unwrap()
        } else {
            *clones += 1;
            message.as_ref().unwrap().clone()
        };
        let _ = subs[d.index].sink.1.borrow_mut().try_send(m);
    }
}

fn drain(ch: &Rc<RefCell<PolicyChannel<Message>>>) -> Vec<Message> {
    let mut out = Vec::new();
    while let Ok(m) = ch.borrow_mut().try_recv() {
        out.push(m);
    }
    out
}

#[test]
fn hub_test_hub() {
    let mut hub: HubInner<Sink> = HubInner::new();
    hub.set_default_channel_capacity(20);
    let recv = register(&mut hub, "test_recv", DEFAULT_PRIORITY, |m| {
        matches!(m, Message::Temperature(_) | Message::Humidity(_))
    })
    .unwrap();
    let mut clones = 0;
    for _ in 0..3 {
        send(&hub, Message::Temperature(1.0), &mut clones);
        send(&hub, Message::Humidity(2.0), &mut clones);
        send(&hub, Message::Test, &mut clones);
    }
    let messages = drain(&recv);
    assert_eq!(messages.len(), 6);
    assert_eq!(
        messages,
        vec![
            Message::Temperature(1.0),
            Message::Humidity(2.0),
            Message::Temperature(1.0),
            Message::Humidity(2.0),
            Message::Temperature(1.0),
            Message::Humidity(2.0),
        ]
    );
}

#[test]
fn fan_out_with_policies() {
    let mut hub: HubInner<Sink> = HubInner::new();
    hub.set_default_channel_capacity(20);
    let a = register(&mut hub, "a", 10, |m| matches!(m, Message::Temperature(_))).unwrap();
    let b = register(&mut hub, "b", 20, |m| {
        matches!(m, Message::Temperature(_) | Message::Humidity(_))
    })
    .unwrap();
    let mut clones = 0;
    send(&hub, Message::Temperature(1.0), &mut clones);
    send(&hub, Message::Humidity(2.0), &mut clones);
    send(&hub, Message::Test, &mut clones);
    assert_eq!(drain(&a), vec![Message::Temperature(1.0)]);
    assert_eq!(drain(&b), vec![Message::Temperature(1.0), Message::Humidity(2.0)]);
    assert_eq!(clones, 1);
}

#[test]
fn fan_out_count_and_clones() {
    let mut hub: HubInner<Sink> = HubInner::new();
    let mut chans = Vec::new();
    for (i, name) in ["s1", "s2", "s3", "s4"].iter().enumerate() {
        chans.push(register(&mut hub, name, i, |_| true).unwrap());
    }
    let mut clones = 0;
    send(&hub, Message::Test, &mut clones);
    assert_eq!(clones, 3);
    assert_eq!(chans.iter().map(|c| drain(c).len()).sum::<usize>(), 4);
}

#[test]
fn dispatch_follows_priority() {
    let mut hub: HubInner<Sink> = HubInner::new();
    register(&mut hub, "p30", 30, |_| true).unwrap();
    register(&mut hub, "p10", 10, |_| true).unwrap();
    register(&mut hub, "p20", 20, |_| true).unwrap();
    let names: Vec<&str> = hub.subscriptions().iter().map(|s| s.name.as_str()).collect();
    assert_eq!(names, vec!["p10", "p20", "p30"]);
    let plan = plan_dispatch(&vec![true, true, true]);
    let order: Vec<usize> = plan.iter().map(|d| hub.subscriptions()[d.index].priority).collect();
    assert_eq!(order, vec![10, 20, 30]);
}

#[test]
fn plan_moves_only_to_last() {
    let plan = plan_dispatch(&vec![false, true, false, true, true]);
    assert_eq!(
        plan,
        vec![
            Delivery { index: 1, by_move: false },
            Delivery { index: 3, by_move: false },
            Delivery { index: 4, by_move: true },
        ]
    );
    assert!(plan_dispatch(&vec![false, false]).is_empty());
}

#[test]
fn duplicate_subscriber_rejected() {
    let mut hub: HubInner<Sink> = HubInner::new();
    register(&mut hub, "x", 1, |_| true).unwrap();
    match register(&mut hub, "x", 2, |_| true) {
        Err(Error::HubAlreadyRegistered(n)) => assert_eq!(n, "x"),
        _ => panic!("duplicate name accepted"),
    }
    assert_eq!(hub.subscriptions().len(), 1);
    hub.unregister(&"x".to_owned());
    assert!(hub.subscriptions().is_empty());
    assert!(!hub.contains(&"x".to_owned()));
}

#[test]
fn equal_priorities_keep_registration_order() {
    let mut hub: HubInner<Sink> = HubInner::new();
    register(&mut hub, "first", 5, |_| true).unwrap();
    register(&mut hub, "second", 5, |_| true).unwrap();
    register(&mut hub, "zero", 0, |_| true).unwrap();
    let names: Vec<&str> = hub.subscriptions().iter().map(|s| s.name.as_str()).collect();
    assert_eq!(names, vec!["zero", "first", "second"]);
    assert_eq!(hub.channel_capacity(Some(7)), 7);
    assert_eq!(hub.channel_capacity(None), 1024);
}
