use slony_exporter::fetch::{fetch_step, FetchAction, FetchEvent, FetchState};
use slony_exporter::mapper::{gauge_writes, Gauge};
use slony_exporter::query::query_error;
use slony_exporter::slony::{ErrorKind, ErrorTrait, EventRow, SlonyConfirm, SlonyIncoming, SlonyStatus};

/// A stand-in for the database: answers each action from canned rows and
/// records whether a connection was asked for.
struct FakeSource {
    connects: usize,
    identity: Vec<EventRow>,
    confirms: Vec<SlonyConfirm>,
    incoming: Vec<SlonyIncoming>,
    sets: Vec<i32>,
    fail_confirms: bool,
}

impl FakeSource {
    fn new(identity: Vec<EventRow>) -> FakeSource {
        FakeSource {
            connects: 0,
            identity,
            confirms: vec![],
            incoming: vec![],
            sets: vec![],
            fail_confirms: false,
        }
    }

    fn run(&mut self, url: Option<&str>, cluster: Option<&str>) -> Result<SlonyStatus, slony_exporter::slony::Error> {
        let mut state = FetchState::Start;
        let mut event = FetchEvent::Begin {
            url: url.map(|u| u.to_string()),
            cluster: cluster.map(|c| c.to_string()),
        };
        loop {
            let (next, action) = fetch_step(state, event);
            event = match action {
                FetchAction::Connect { .. } => {
                    self.connects += 1;
                    FetchEvent::Connected
                }
                FetchAction::QueryWithSchema { schema, .. } => {
                    assert_eq!(schema, "_main");
                    FetchEvent::IdentityRows(self.identity.clone())
                }
                FetchAction::QueryWithNode { sql, .. } => match &next {
                    FetchState::AwaitingConfirms { .. } => {
                        assert!(sql.contains("sl_confirm"));
                        if self.fail_confirms {
                            FetchEvent::Failed(query_error("relation does not exist".to_string()))
                        } else {
                            FetchEvent::ConfirmRows(self.confirms.clone())
                        }
                    }
                    FetchState::AwaitingIncoming { .. } => FetchEvent::IncomingRows(self.incoming.clone()),
                    _ => FetchEvent::SetRows(self.sets.clone()),
                },
                FetchAction::Finish(outcome) => return outcome,
            };
            state = next;
        }
    }
}

fn node_one() -> Vec<EventRow> {
    vec![EventRow { origin: 1, seqno: 100, timestamp: 1000 }]
}

#[test]
fn missing_url_never_connects() {
    let mut db = FakeSource::new(node_one());
    let e = db.run(None, Some("main")).err().unwrap();
    assert_eq!(e.kind(), ErrorKind::Configuration);
    assert_eq!(db.connects, 0);
}

#[test]
fn missing_cluster_never_connects() {
    let mut db = FakeSource::new(node_one());
    let e = db.run(Some("host=db"), None).err().unwrap();
    assert_eq!(e.kind(), ErrorKind::Configuration);
    assert_eq!(e.message(), "SLONY_CLUSTER must be set");
    assert_eq!(db.connects, 0);
}

#[test]
fn no_identity_row_ends_with_not_found() {
    let mut db = FakeSource::new(vec![]);
    let e = db.run(Some("host=db"), Some("main")).err().unwrap();
    assert_eq!(e.kind(), ErrorKind::NotFound);
    assert_eq!(e.message(), "No events found");
    assert_eq!(db.connects, 1);
}

#[test]
fn query_failure_discards_the_partial_snapshot() {
    let mut db = FakeSource::new(node_one());
    db.fail_confirms = true;
    let e = db.run(Some("host=db"), Some("main")).err().unwrap();
    assert_eq!(e.kind(), ErrorKind::Query);
    assert_eq!(e.message(), "relation does not exist");
}

#[test]
fn full_fetch_keeps_latest_rows() {
    let mut db = FakeSource::new(node_one());
    db.confirms = vec![
        SlonyConfirm { receiver: 2, last_confirmed_event: Some(100), last_confirmed_timestamp: Some(1000) },
        SlonyConfirm { receiver: 2, last_confirmed_event: Some(90), last_confirmed_timestamp: Some(900) },
    ];
    db.incoming = vec![
        SlonyIncoming { origin: 3, last_event_id: 50, last_event_timestamp: 500 },
        SlonyIncoming { origin: 3, last_event_id: 40, last_event_timestamp: 400 },
    ];
    db.sets = vec![1, 1, 5];
    let s = db.run(Some("host=db"), Some("main")).ok().unwrap();
    assert_eq!(s.node_id(), 1);
    assert_eq!(s.confirms().len(), 1);
    assert_eq!(s.confirms()[0].last_confirmed_event, Some(100));
    assert_eq!(s.incoming().len(), 1);
    assert_eq!(s.incoming()[0].last_event_id, 50);
    assert_eq!(s.origin_sets().len(), 2);
    let w = gauge_writes(&s);
    let confirmed: Vec<i64> = w.iter().filter(|x| x.gauge == Gauge::ConfirmedEvent).map(|x| x.value).collect();
    assert_eq!(confirmed, vec![100]);
    let received: Vec<i64> = w.iter().filter(|x| x.gauge == Gauge::ReceivedEvent).map(|x| x.value).collect();
    assert_eq!(received, vec![50]);
}

#[test]
fn event_out_of_turn_ends_the_fetch() {
    let (state, action) = fetch_step(FetchState::Start, FetchEvent::Connected);
    assert!(matches!(state, FetchState::Finished));
    match action {
        FetchAction::Finish(Err(e)) => assert_eq!(e.kind(), ErrorKind::Query),
        _ => panic!("expected the fetch to end"),
    }
}
