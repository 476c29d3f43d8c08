use event_ui::bus::{BusClosed, EventBus, Recv, Subscription, DEFAULT_CAPACITY};

fn drain(bus: &EventBus, sub: &mut Subscription) -> Vec<Recv> {
    let mut out = Vec::new();
    loop {
        match bus.next(sub) {
            Recv::Empty => return out,
            r => out.push(r),
        }
    }
}

fn ev(s: &str) -> Recv {
    Recv::Event(s.to_string())
}

#[test]
fn retention_is_bounded_without_subscribers() {
    let mut bus = EventBus::new(4);
    for i in 0..100u32 {
        assert_eq!(bus.publish(format!("e{}", i)), Ok(i as u64));
        assert!(bus.retained_count() <= 4);
    }
    assert_eq!(bus.retained_count(), 4);
    assert_eq!(bus.published_count(), 100);
}

#[test]
fn early_subscriber_gets_every_event_in_order() {
    let mut bus = EventBus::new(DEFAULT_CAPACITY);
    let mut sub = bus.subscribe().unwrap();
    for s in ["e1", "e2", "e3", "e4"] {
        bus.publish(s.to_string()).unwrap();
    }
    assert_eq!(drain(&bus, &mut sub), vec![ev("e1"), ev("e2"), ev("e3"), ev("e4")]);
    assert_eq!(bus.next(&mut sub), Recv::Empty);
}

#[test]
fn late_subscriber_gets_no_history() {
    let mut bus = EventBus::new(8);
    bus.publish("e1".to_string()).unwrap();
    bus.publish("e2".to_string()).unwrap();
    let mut sub = bus.subscribe().unwrap();
    assert_eq!(bus.next(&mut sub), Recv::Empty);
    bus.publish("e3".to_string()).unwrap();
    assert_eq!(drain(&bus, &mut sub), vec![ev("e3")]);
}

#[test]
fn stalled_subscriber_is_told_once_then_resumes() {
    let mut bus = EventBus::new(3);
    let mut sub = bus.subscribe().unwrap();
    for i in 1..=7u32 {
        bus.publish(format!("e{}", i)).unwrap();
    }
    assert_eq!(
        drain(&bus, &mut sub),
        vec![Recv::Lagged(4), ev("e5"), ev("e6"), ev("e7")]
    );
    bus.publish("e8".to_string()).unwrap();
    assert_eq!(drain(&bus, &mut sub), vec![ev("e8")]);
}

#[test]
fn window_of_exactly_capacity_does_not_lag() {
    let mut bus = EventBus::new(2);
    let mut sub = bus.subscribe().unwrap();
    bus.publish("a".to_string()).unwrap();
    bus.publish("b".to_string()).unwrap();
    assert_eq!(drain(&bus, &mut sub), vec![ev("a"), ev("b")]);
}

#[test]
fn interleaved_publishers_are_seen_in_one_order() {
    let mut bus = EventBus::new(16);
    let mut a = bus.subscribe().unwrap();
    let mut b = bus.subscribe().unwrap();
    for i in 0..5u32 {
        bus.publish(format!("p{}", i)).unwrap();
        bus.publish(format!("q{}", i)).unwrap();
    }
    let seen_a = drain(&bus, &mut a);
    let seen_b = drain(&bus, &mut b);
    assert_eq!(seen_a.len(), 10);
    assert_eq!(seen_a, seen_b);
    assert_eq!(seen_a[0], ev("p0"));
    assert_eq!(seen_a[1], ev("q0"));
}

#[test]
fn closing_one_session_leaves_the_other() {
    let mut bus = EventBus::new(DEFAULT_CAPACITY);
    let mut a = bus.subscribe().unwrap();
    let mut b = bus.subscribe().unwrap();
    let mut got_a = Vec::new();
    let mut got_b = Vec::new();
    for s in ["e1", "e2", "e3"] {
        bus.publish(s.to_string()).unwrap();
    }
    got_a.extend(drain(&bus, &mut a));
    got_b.extend(drain(&bus, &mut b));
    drop(a);
    for s in ["e4", "e5"] {
        bus.publish(s.to_string()).unwrap();
    }
    got_b.extend(drain(&bus, &mut b));
    assert_eq!(got_a, vec![ev("e1"), ev("e2"), ev("e3")]);
    assert_eq!(got_b, vec![ev("e1"), ev("e2"), ev("e3"), ev("e4"), ev("e5")]);
}

#[test]
fn closed_bus_refuses_and_wakes_readers() {
    let mut bus = EventBus::new(4);
    let mut sub = bus.subscribe().unwrap();
    bus.publish("last".to_string()).unwrap();
    bus.close();
    assert!(bus.closed());
    assert_eq!(bus.publish("late".to_string()), Err(BusClosed));
    assert!(bus.subscribe().is_err());
    assert_eq!(bus.next(&mut sub), ev("last"));
    assert_eq!(bus.next(&mut sub), Recv::Closed);
    assert_eq!(bus.published_count(), 1);
}

#[test]
fn capacity_is_kept() {
    let bus = EventBus::new(DEFAULT_CAPACITY);
    assert_eq!(bus.capacity(), 10000);
}
