use mycelium::metric::Metric;

#[test]
fn finite_metric_serialization() {
    let metric = Metric::Value(10);
    let s = String::from_utf8(metric.to_json()).expect("can encode finite metric");

    assert_eq!("10", s);
}

#[test]
fn infinite_metric_serialization() {
    let metric = Metric::Infinite;
    let s = String::from_utf8(metric.to_json()).expect("can encode infinite metric");

    assert_eq!("\"infinite\"", s);
}

#[test]
fn zero_and_large_metric_serialization() {
    assert_eq!("0", String::from_utf8(Metric::Value(0).to_json()).unwrap());
    assert_eq!("65534", String::from_utf8(Metric::Value(65534).to_json()).unwrap());
    assert_eq!("407", String::from_utf8(Metric::Value(407).to_json()).unwrap());
}

#[test]
fn metric_addition_saturates_at_infinite() {
    assert_eq!(Metric::Value(3).saturating_add(Metric::Value(4)), Metric::Value(7));
    assert_eq!(Metric::Value(60000).saturating_add(Metric::Value(60000)), Metric::Infinite);
    assert_eq!(Metric::Value(65534).saturating_add(Metric::Value(0)), Metric::Value(65534));
    assert_eq!(Metric::Value(65534).saturating_add(Metric::Value(1)), Metric::Infinite);
    assert_eq!(Metric::Infinite.saturating_add(Metric::Value(0)), Metric::Infinite);
    assert_eq!(Metric::Value(0).saturating_add(Metric::Infinite), Metric::Infinite);
}

#[test]
fn metric_ordering_puts_finite_below_infinite() {
    assert!(Metric::Value(65534).lt(Metric::Infinite));
    assert!(!Metric::Infinite.lt(Metric::Value(0)));
    assert!(Metric::Value(2).lt(Metric::Value(3)));
    assert!(!Metric::Value(3).lt(Metric::Value(3)));
    assert!(Metric::Value(3).le(Metric::Value(3)));
    assert!(Metric::Infinite.le(Metric::Infinite));
}

#[test]
fn metric_wire_round_trip() {
    assert_eq!(Metric::from_wire(0xffff), Metric::Infinite);
    assert_eq!(Metric::from_wire(7), Metric::Value(7));
    assert_eq!(Metric::Infinite.to_wire(), 0xffff);
    assert_eq!(Metric::Value(65534).to_wire(), 65534);
}
