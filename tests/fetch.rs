use slony_exporter::query::{
    confirm_query, connection_error, fetch_config, incoming_query, node_query, query_error,
    schema_name, sets_query, ssl_error,
};
use slony_exporter::slony::{
    status_from_node_rows, ErrorKind, ErrorTrait, EventRow, SlonyConfirm, SlonyIncoming,
    SlonyStatus,
};

fn confirm(receiver: i32, ev: Option<i64>, ts: Option<i64>) -> SlonyConfirm {
    SlonyConfirm {
        receiver,
        last_confirmed_event: ev,
        last_confirmed_timestamp: ts,
    }
}

fn incoming(origin: i32, id: i64, ts: i64) -> SlonyIncoming {
    SlonyIncoming {
        origin,
        last_event_id: id,
        last_event_timestamp: ts,
    }
}

#[test]
fn missing_url_is_configuration_error() {
    let r = fetch_config(None, Some("cl".to_string()));
    let e = r.unwrap_err();
    assert_eq!(e.kind(), ErrorKind::Configuration);
    assert_eq!(e.message(), "Must set POSTGRES_URL");
}

#[test]
fn missing_url_reported_before_missing_cluster() {
    let e = fetch_config(None, None).unwrap_err();
    assert_eq!(e.message(), "Must set POSTGRES_URL");
}

#[test]
fn missing_cluster_is_configuration_error() {
    let e = fetch_config(Some("host=db".to_string()), None).unwrap_err();
    assert_eq!(e.kind(), ErrorKind::Configuration);
    assert_eq!(e.message(), "SLONY_CLUSTER must be set");
}

#[test]
fn full_configuration_is_accepted() {
    let (url, cluster) = fetch_config(Some("host=db".to_string()), Some("main".to_string()))
        .ok()
        .unwrap();
    assert_eq!(url, "host=db");
    assert_eq!(cluster, "main");
}

#[test]
fn no_identity_rows_is_not_found() {
    let e = status_from_node_rows(&vec![]).err().unwrap();
    assert_eq!(e.kind(), ErrorKind::NotFound);
    assert_eq!(e.message(), "No events found");
}

#[test]
fn identity_takes_highest_sequence() {
    let rows = vec![
        EventRow { origin: 1, seqno: 90, timestamp: 900 },
        EventRow { origin: 1, seqno: 100, timestamp: 1000 },
        EventRow { origin: 1, seqno: 95, timestamp: 950 },
    ];
    let s = status_from_node_rows(&rows).ok().unwrap();
    assert_eq!(s.node_id(), 1);
    assert_eq!(s.last_event(), 100);
    assert_eq!(s.last_event_timestamp(), 1000);
    assert!(s.confirms().is_empty());
    assert!(s.incoming().is_empty());
    assert!(s.origin_sets().is_empty());
}

#[test]
fn duplicate_receivers_keep_highest_sequence() {
    let mut s = SlonyStatus::new(1, 100, 1000);
    s.apply_confirm_rows(&vec![
        confirm(2, Some(90), Some(900)),
        confirm(3, Some(7), None),
        confirm(2, Some(100), Some(1000)),
        confirm(2, Some(95), Some(950)),
    ]);
    let c = s.confirms();
    assert_eq!(c.len(), 2);
    assert_eq!(c[0].receiver, 2);
    assert_eq!(c[0].last_confirmed_event, Some(100));
    assert_eq!(c[0].last_confirmed_timestamp, Some(1000));
    assert_eq!(c[1].receiver, 3);
    assert_eq!(c[1].last_confirmed_event, Some(7));
    assert_eq!(c[1].last_confirmed_timestamp, None);
}

#[test]
fn absent_sequence_ranks_below_present() {
    let mut s = SlonyStatus::new(1, 1, 1);
    s.apply_confirm_rows(&vec![confirm(4, None, Some(5)), confirm(4, Some(-3), None)]);
    let c = s.confirms();
    assert_eq!(c.len(), 1);
    assert_eq!(c[0].last_confirmed_event, Some(-3));
}

#[test]
fn equal_sequences_keep_the_earlier_row() {
    let mut s = SlonyStatus::new(1, 1, 1);
    s.apply_confirm_rows(&vec![confirm(2, Some(10), Some(1)), confirm(2, Some(10), Some(2))]);
    assert_eq!(s.confirms().len(), 1);
    assert_eq!(s.confirms()[0].last_confirmed_timestamp, Some(1));
}

#[test]
fn duplicate_origins_keep_highest_sequence() {
    let mut s = SlonyStatus::new(1, 100, 1000);
    s.apply_incoming_rows(&vec![incoming(3, 50, 500), incoming(3, 40, 400), incoming(5, 1, 10)]);
    let i = s.incoming();
    assert_eq!(i.len(), 2);
    assert_eq!((i[0].origin, i[0].last_event_id, i[0].last_event_timestamp), (3, 50, 500));
    assert_eq!((i[1].origin, i[1].last_event_id, i[1].last_event_timestamp), (5, 1, 10));
}

#[test]
fn origin_sets_drop_duplicates() {
    let mut s = SlonyStatus::new(1, 100, 1000);
    s.apply_set_rows(&vec![4, 2, 4, 9]);
    let sets = s.origin_sets();
    assert_eq!(sets.len(), 3);
    assert!(sets.contains(&2) && sets.contains(&4) && sets.contains(&9));
}

#[test]
fn queries_name_the_schema() {
    assert_eq!(schema_name("main"), "_main");
    assert_eq!(
        node_query("main"),
        "select ev_origin, ev_seqno, extract(epoch from ev_timestamp)::int8 from _main.sl_event where ev_origin = _main.getLocalNodeId($1) order by ev_seqno desc limit 1"
    );
    assert_eq!(
        confirm_query("main"),
        "select con_received, con_seqno, extract(epoch from con_timestamp)::int8 from (select con_received, con_seqno, con_timestamp, rank() over (partition by con_origin, con_received order by con_seqno desc nulls last) from _main.sl_confirm where con_origin = $1) as x where x.rank = 1"
    );
    assert_eq!(
        incoming_query("main"),
        "select ev_origin, ev_seqno, extract(epoch from ev_timestamp)::int8 from (select ev_origin, ev_seqno, ev_timestamp, rank() over (partition by ev_origin order by ev_seqno desc) from _main.sl_event where ev_origin <> $1) as x where x.rank = 1"
    );
    assert_eq!(sets_query("main"), "select set_id from _main.sl_set where set_origin = $1");
}

#[test]
fn driver_errors_keep_their_message() {
    let e = ssl_error("bad cert".to_string());
    assert_eq!(e.kind(), ErrorKind::Connection);
    assert_eq!(e.message(), "SSL error: bad cert ");
    let e = connection_error("refused".to_string());
    assert_eq!(e.kind(), ErrorKind::Connection);
    assert_eq!(e.message(), "refused");
    let e = query_error("syntax".to_string());
    assert_eq!(e.kind(), ErrorKind::Query);
    assert_eq!(e.message(), "syntax");
}

#[test]
fn own_origin_rows_are_not_incoming() {
    let mut s = SlonyStatus::new(1, 100, 1000);
    s.apply_incoming_rows(&vec![incoming(1, 99, 990), incoming(3, 50, 500), incoming(1, 98, 980)]);
    let i = s.incoming();
    assert_eq!(i.len(), 1);
    assert_eq!(i[0].origin, 3);
}
