use simplewiki::broadcaster::Broadcaster;
use simplewiki::dispatch::SubscriptionHandler;
use std::sync::mpsc::Receiver;

fn pending(r: &Receiver<i32>) -> Vec<i32> {
    let mut out = Vec::new();
    while let Ok(v) = r.try_recv() {
        out.push(v);
    }
    out
}

#[test]
fn every_subscriber_receives_a_published_value() {
    let mut b: Broadcaster<i32> = Broadcaster::new();
    let subs: Vec<Receiver<i32>> = (0..10).map(|_| b.subscribe()).collect();
    assert_eq!(b.len(), 10);
    b.send_to_all(1337);
    for r in &subs {
        assert_eq!(pending(r), vec![1337]);
    }
    assert_eq!(b.len(), 10);
}

#[test]
fn publish_without_subscribers_does_nothing() {
    let mut b: Broadcaster<i32> = Broadcaster::new();
    b.send_to_all(0);
    assert_eq!(b.len(), 0);
    b.send_to_all(1);
    assert_eq!(b.len(), 0);
}

#[test]
fn failed_subscriber_is_dropped_and_others_keep_receiving() {
    let mut b: Broadcaster<i32> = Broadcaster::new();
    let a = b.subscribe();
    let bb = b.subscribe();
    let c = b.subscribe();
    b.send_to_all(1);
    assert_eq!(pending(&a), vec![1]);
    assert_eq!(pending(&bb), vec![1]);
    assert_eq!(pending(&c), vec![1]);
    assert_eq!(b.len(), 3);
    drop(bb);
    b.send_to_all(2);
    assert_eq!(b.len(), 2);
    assert_eq!(pending(&a), vec![2]);
    assert_eq!(pending(&c), vec![2]);
    b.send_to_all(3);
    assert_eq!(b.len(), 2);
    assert_eq!(pending(&a), vec![3]);
    assert_eq!(pending(&c), vec![3]);
}

#[test]
fn late_subscriber_gets_only_later_events() {
    let mut b: Broadcaster<i32> = Broadcaster::new();
    let first = b.subscribe();
    b.send_to_all(1);
    let second = b.subscribe();
    b.send_to_all(2);
    b.send_to_all(3);
    assert_eq!(pending(&first), vec![1, 2, 3]);
    assert_eq!(pending(&second), vec![2, 3]);
}

#[test]
fn removal_scans_every_endpoint_once() {
    let mut b: Broadcaster<i32> = Broadcaster::new();
    let subs: Vec<Receiver<i32>> = (0..6).map(|_| b.subscribe()).collect();
    let mut kept = Vec::new();
    for (k, r) in subs.into_iter().enumerate() {
        if k % 2 == 0 {
            kept.push(r);
        }
    }
    b.send_to_all(7);
    assert_eq!(b.len(), 3);
    for r in &kept {
        assert_eq!(pending(r), vec![7]);
    }
}

#[test]
fn apply_outcomes_removes_exactly_the_failed() {
    let mut b: Broadcaster<i32> = Broadcaster::new();
    let _a = b.subscribe();
    let _b = b.subscribe();
    let _c = b.subscribe();
    b.apply_outcomes(&vec![true, false, true]);
    assert_eq!(b.len(), 2);
    b.apply_outcomes(&vec![false, false]);
    assert_eq!(b.len(), 0);
}

#[test]
fn subscribes_add_one_each() {
    let mut b: Broadcaster<u8> = Broadcaster::new();
    let mut rs = Vec::new();
    for n in 1..=25usize {
        rs.push(b.subscribe());
        assert_eq!(b.len(), n);
    }
}

#[test]
fn subscription_handler_fans_out() {
    let mut h: SubscriptionHandler<i32> = SubscriptionHandler::new();
    let rs: Vec<Receiver<i32>> = (0..10).map(|_| h.subscribe()).collect();
    assert_eq!(h.len(), 10);
    h.send_to_all(1337);
    for r in &rs {
        assert_eq!(r.try_recv(), Ok(1337));
    }
    drop(rs);
    h.send_to_all(1);
    assert_eq!(h.len(), 0);
}

#[test]
fn subscription_handler_apply_outcomes() {
    let mut h: SubscriptionHandler<i32> = SubscriptionHandler::new();
    let _rs: Vec<Receiver<i32>> = (0..4).map(|_| h.subscribe()).collect();
    h.apply_outcomes(&vec![false, true, true, false]);
    assert_eq!(h.len(), 2);
}

#[test]
fn added_endpoint_receives_and_is_reaped_after_its_receiver_goes() {
    let mut b: Broadcaster<i32> = Broadcaster::new();
    let (tx, rx) = std::sync::mpsc::channel();
    b.add_endpoint(tx.clone());
    let other = b.subscribe();
    b.send_to_all(5);
    assert_eq!(pending(&rx), vec![5]);
    assert_eq!(pending(&other), vec![5]);
    drop(rx);
    b.send_to_all(6);
    assert_eq!(b.len(), 1);
    assert_eq!(pending(&other), vec![6]);
}

#[test]
fn subscription_handler_add_endpoint() {
    let mut h: SubscriptionHandler<i32> = SubscriptionHandler::new();
    let (tx, rx) = std::sync::mpsc::channel();
    h.add_endpoint(tx);
    assert_eq!(h.len(), 1);
    h.send_to_all(9);
    assert_eq!(rx.try_recv(), Ok(9));
}
