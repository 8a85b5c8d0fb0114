use slony_exporter::mapper::{gauge_writes, Gauge};
use slony_exporter::metrics::{metric_for_connection, GaugeFamily, Metrics};
use slony_exporter::slony::{status_from_node_rows, EventRow, SlonyConfirm, SlonyIncoming, SlonyStatus};

fn series_count(g: &GaugeFamily) -> usize {
    let registry = prometheus::Registry::new();
    registry.register(Box::new(g.vec.clone())).unwrap();
    registry.gather().iter().map(|f| f.get_metric().len()).sum()
}

/// Reads a series without creating it: `None` where the family has no
/// series of these label values.
fn read(g: &GaugeFamily, labels: &[&str]) -> Option<i64> {
    let registry = prometheus::Registry::new();
    registry.register(Box::new(g.vec.clone())).unwrap();
    for family in registry.gather() {
        for metric in family.get_metric() {
            let values: Vec<&str> = metric.get_label().iter().map(|l| l.get_value()).collect();
            if values == labels {
                return Some(metric.get_gauge().get_value() as i64);
            }
        }
    }
    None
}

fn value(g: &GaugeFamily, labels: &[&str]) -> i64 {
    read(g, labels).unwrap()
}

fn scenario() -> SlonyStatus {
    let mut s = status_from_node_rows(&vec![EventRow { origin: 1, seqno: 100, timestamp: 1000 }])
        .ok()
        .unwrap();
    s.apply_confirm_rows(&vec![
        SlonyConfirm { receiver: 2, last_confirmed_event: Some(100), last_confirmed_timestamp: Some(1000) },
        SlonyConfirm { receiver: 2, last_confirmed_event: Some(90), last_confirmed_timestamp: Some(900) },
    ]);
    s.apply_incoming_rows(&vec![
        SlonyIncoming { origin: 3, last_event_id: 50, last_event_timestamp: 500 },
        SlonyIncoming { origin: 3, last_event_id: 40, last_event_timestamp: 400 },
    ]);
    s
}

#[test]
fn confirm_scenario_maps_highest_row() {
    let mut m = Metrics::new().unwrap();
    metric_for_connection(&scenario(), &mut m);
    assert_eq!(value(m.last_confirmed_event(), &["1", "2"]), 100);
    assert_eq!(value(m.last_confirmed_event_timestamp(), &["1", "2"]), 1000);
    assert_eq!(value(m.last_event(), &["1"]), 100);
    assert_eq!(value(m.last_event_timestamp(), &["1"]), 1000);
    assert_eq!(series_count(m.last_confirmed_event()), 1);
}

#[test]
fn incoming_scenario_maps_highest_row() {
    let mut m = Metrics::new().unwrap();
    metric_for_connection(&scenario(), &mut m);
    assert_eq!(series_count(m.last_received_event()), 1);
    assert_eq!(value(m.last_received_event(), &["1", "3"]), 50);
    assert_eq!(value(m.last_received_event_timestamp(), &["1", "3"]), 500);
}

#[test]
fn writes_of_scenario() {
    let w = gauge_writes(&scenario());
    let got: Vec<(Gauge, Vec<i32>, i64)> = w.iter().map(|x| (x.gauge, x.labels.clone(), x.value)).collect();
    assert_eq!(
        got,
        vec![
            (Gauge::LastEvent, vec![1], 100),
            (Gauge::LastEventTimestamp, vec![1], 1000),
            (Gauge::ConfirmedEvent, vec![1, 2], 100),
            (Gauge::ConfirmedEventTimestamp, vec![1, 2], 1000),
            (Gauge::ReceivedEvent, vec![1, 3], 50),
            (Gauge::ReceivedEventTimestamp, vec![1, 3], 500),
        ]
    );
}

#[test]
fn absent_confirmation_leaves_series_absent() {
    let mut m = Metrics::new().unwrap();
    let mut s = SlonyStatus::new(1, 10, 20);
    s.apply_confirm_rows(&vec![SlonyConfirm {
        receiver: 2,
        last_confirmed_event: None,
        last_confirmed_timestamp: Some(30),
    }]);
    assert!(gauge_writes(&s).iter().all(|x| x.gauge != Gauge::ConfirmedEvent));
    metric_for_connection(&s, &mut m);
    assert_eq!(series_count(m.last_confirmed_event()), 0);
    assert_eq!(read(m.last_confirmed_event(), &["1", "2"]), None);
    assert_eq!(series_count(m.last_confirmed_event_timestamp()), 1);
    assert_eq!(value(m.last_confirmed_event_timestamp(), &["1", "2"]), 30);
}

#[test]
fn absent_confirmation_keeps_old_value() {
    let mut m = Metrics::new().unwrap();
    let mut s = SlonyStatus::new(1, 10, 20);
    s.apply_confirm_rows(&vec![SlonyConfirm {
        receiver: 2,
        last_confirmed_event: Some(7),
        last_confirmed_timestamp: None,
    }]);
    metric_for_connection(&s, &mut m);
    let mut t = SlonyStatus::new(1, 11, 21);
    t.apply_confirm_rows(&vec![SlonyConfirm {
        receiver: 2,
        last_confirmed_event: None,
        last_confirmed_timestamp: None,
    }]);
    metric_for_connection(&t, &mut m);
    assert_eq!(value(m.last_confirmed_event(), &["1", "2"]), 7);
    assert_eq!(value(m.last_event(), &["1"]), 11);
}

#[test]
fn mapping_twice_is_idempotent() {
    let mut m = Metrics::new().unwrap();
    let s = scenario();
    metric_for_connection(&s, &mut m);
    let first: Vec<i64> = vec![
        value(m.last_event(), &["1"]),
        value(m.last_confirmed_event(), &["1", "2"]),
        value(m.last_received_event(), &["1", "3"]),
    ];
    metric_for_connection(&s, &mut m);
    let second: Vec<i64> = vec![
        value(m.last_event(), &["1"]),
        value(m.last_confirmed_event(), &["1", "2"]),
        value(m.last_received_event(), &["1", "3"]),
    ];
    assert_eq!(first, vec![100, 100, 50]);
    assert_eq!(first, second);
    assert_eq!(series_count(m.last_received_event()), 1);
}

#[test]
fn not_found_mutates_nothing() {
    let mut m = Metrics::new().unwrap();
    let r = status_from_node_rows(&vec![]);
    if let Ok(s) = r {
        metric_for_connection(&s, &mut m);
    }
    assert_eq!(series_count(m.last_event()), 0);
    assert_eq!(series_count(m.last_event_timestamp()), 0);
}

#[test]
fn gauges_are_registered_once() {
    let mut m = Metrics::new().unwrap();
    assert!(m.register());
    let again = Metrics::new().unwrap();
    assert!(!again.register());
}

#[test]
fn families_carry_their_names() {
    let mut m = Metrics::new().unwrap();
    metric_for_connection(&scenario(), &mut m);
    let registry = prometheus::Registry::new();
    registry.register(Box::new(m.last_confirmed_event().vec.clone())).unwrap();
    registry.register(Box::new(m.last_event().vec.clone())).unwrap();
    let families = registry.gather();
    let names: Vec<String> = families.iter().map(|f| f.get_name().to_string()).collect();
    assert_eq!(names, vec!["slony_confirmed_event".to_string(), "slony_last_event".to_string()]);
    let labels: Vec<String> = families[0].get_metric()[0]
        .get_label()
        .iter()
        .map(|l| format!("{}={}", l.get_name(), l.get_value()))
        .collect();
    assert_eq!(labels, vec!["slony_origin=1".to_string(), "slony_receiver=2".to_string()]);
}

#[test]
fn series_of_several_nodes_coexist() {
    let mut m = Metrics::new().unwrap();
    metric_for_connection(&scenario(), &mut m);
    let mut other = SlonyStatus::new(12, 7, 70);
    other.apply_confirm_rows(&vec![SlonyConfirm {
        receiver: 4,
        last_confirmed_event: Some(6),
        last_confirmed_timestamp: None,
    }]);
    metric_for_connection(&other, &mut m);
    assert_eq!(value(m.last_event(), &["1"]), 100);
    assert_eq!(value(m.last_event(), &["12"]), 7);
    assert_eq!(value(m.last_confirmed_event(), &["1", "2"]), 100);
    assert_eq!(value(m.last_confirmed_event(), &["12", "4"]), 6);
    assert_eq!(read(m.last_confirmed_event_timestamp(), &["12", "4"]), None);
}
