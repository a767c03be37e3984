use pricefeed::decimal::Decimal;
use pricefeed::hub::Hub;
use pricefeed::types::Response;

fn ev(n: i128) -> Response {
    Response {
        ticker: format!("T{}", n),
        price: Decimal { mantissa: n, scale: 0 },
        time: "t".to_string(),
    }
}

#[test]
fn publish_without_subscribers_is_dropped() {
    let mut h = Hub::new(3);
    h.publish(&ev(1));
    let id = h.subscribe();
    assert_eq!(h.pending_len(id), 0);
    assert!(h.recv(id).is_none());
}

#[test]
fn subscriber_sees_only_later_events() {
    let mut h = Hub::new(3);
    let a = h.subscribe();
    h.publish(&ev(1));
    let b = h.subscribe();
    h.publish(&ev(2));
    assert_eq!(h.recv(a).unwrap().price.mantissa, 1);
    assert_eq!(h.recv(a).unwrap().price.mantissa, 2);
    assert_eq!(h.recv(b).unwrap().price.mantissa, 2);
    assert!(h.recv(b).is_none());
}

#[test]
fn order_is_kept() {
    let mut h = Hub::new(10);
    let a = h.subscribe();
    h.publish_all(&vec![ev(1), ev(2), ev(3)]);
    for n in 1..=3 {
        assert_eq!(h.recv(a).unwrap().price.mantissa, n);
    }
}

#[test]
fn slow_consumer_loses_oldest_and_others_unaffected() {
    let mut h = Hub::new(2);
    let slow = h.subscribe();
    let fast = h.subscribe();
    for n in 1..=5 {
        h.publish(&ev(n));
        assert_eq!(h.recv(fast).unwrap().price.mantissa, n);
    }
    assert_eq!(h.pending_len(slow), 2);
    assert_eq!(h.recv(slow).unwrap().price.mantissa, 4);
    assert_eq!(h.recv(slow).unwrap().price.mantissa, 5);
    assert!(h.recv(slow).is_none());
}

#[test]
fn unsubscribe_discards_queue() {
    let mut h = Hub::new(4);
    let a = h.subscribe();
    let b = h.subscribe();
    h.publish(&ev(1));
    h.unsubscribe(a);
    assert!(!h.open(a));
    assert!(h.open(b));
    h.publish(&ev(2));
    assert_eq!(h.pending_len(a), 0);
    assert_eq!(h.pending_len(b), 2);
    assert_eq!(h.capacity(), 4);
}

#[test]
fn duplicate_is_equal() {
    let e = ev(9);
    let d = e.duplicate();
    assert_eq!(d.ticker, e.ticker);
    assert_eq!(d.price, e.price);
    assert_eq!(d.time, e.time);
}
