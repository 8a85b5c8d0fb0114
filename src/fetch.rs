use vstd::prelude::*;

use crate::query::{
    confirm_query, confirm_query_text, fetch_config, incoming_query, incoming_query_text,
    node_query, node_query_text, schema_name, sets_query, sets_query_text,
};
use crate::slony::{
    identity_row, latest_confirms_of, latest_incoming_of, remote_rows, status_from_node_rows, Error, ErrorKind,
    EventRow, SlonyConfirm, SlonyIncoming, SlonyStatus, StatusModel,
};

verus! {

/// Where a status fetch stands. A fetch opens one connection, runs the
/// identity, confirmation, incoming and origin-set queries in that order,
/// and ends at the first failure.
pub enum FetchState {
    /// Nothing done yet.
    Start,
    /// The connection is asked for.
    Connecting { cluster: String },
    /// The identity query is running.
    AwaitingIdentity { cluster: String },
    /// The confirmation query is running.
    AwaitingConfirms { cluster: String, status: SlonyStatus },
    /// The incoming query is running.
    AwaitingIncoming { cluster: String, status: SlonyStatus },
    /// The origin-set query is running.
    AwaitingSets { status: SlonyStatus },
    /// The fetch has ended.
    Finished,
}

/// What the outside world reports to a fetch.
pub enum FetchEvent {
    /// The configuration as read: the connection string and the cluster name.
    Begin { url: Option<String>, cluster: Option<String> },
    /// The connection is open.
    Connected,
    /// The rows of the identity query.
    IdentityRows(Vec<EventRow>),
    /// The rows of the confirmation query.
    ConfirmRows(Vec<SlonyConfirm>),
    /// The rows of the incoming query.
    IncomingRows(Vec<SlonyIncoming>),
    /// The set identifiers of the origin-set query.
    SetRows(Vec<i32>),
    /// The pending connect or query failed.
    Failed(Error),
}

/// What a fetch asks the outside world to do next.
pub enum FetchAction {
    /// Open a TLS connection to the database.
    Connect { url: String },
    /// Run a query whose one parameter is the schema name.
    QueryWithSchema { sql: String, schema: String },
    /// Run a query whose one parameter is the node id.
    QueryWithNode { sql: String, node_id: i32 },
    /// Close the connection, if one is open, and hand back the outcome.
    Finish(Result<SlonyStatus, Error>),
}

impl FetchState {
    /// A snapshot held by the fetch has one confirmation per receiver and
    /// one incoming entry per origin.
    pub open spec fn well_formed(&self) -> bool {
        match self {
            FetchState::AwaitingConfirms { status, .. } => status@.well_formed(),
            FetchState::AwaitingIncoming { status, .. } => status@.well_formed(),
            FetchState::AwaitingSets { status } => status@.well_formed(),
            _ => true,
        }
    }
}

/// The fetch has ended with the error `e`.
pub open spec fn ends_with_error(r: (FetchState, FetchAction), e: (ErrorKind, Seq<char>)) -> bool {
    &&& r.0 is Finished
    &&& r.1 matches FetchAction::Finish(Err(x)) && x@ == e
}

/// The message of an event that does not answer the pending action.
pub open spec fn unexpected_event() -> (ErrorKind, Seq<char>) {
    (ErrorKind::Query, "Unexpected reply to the pending request"@)
}

pub open spec fn same_identity(a: StatusModel, b: StatusModel) -> bool {
    &&& a.node_id == b.node_id
    &&& a.last_event_id == b.last_event_id
    &&& a.last_event_timestamp == b.last_event_timestamp
}

/// The outcome of one step of a fetch.
pub open spec fn step_post(state: FetchState, event: FetchEvent, r: (FetchState, FetchAction)) -> bool {
    if event is Failed {
        ends_with_error(r, event->Failed_0@)
    } else {
        match state {
            FetchState::Start => match event {
                FetchEvent::Begin { url, cluster } => match (url, cluster) {
                    (None, _) => ends_with_error(
                        r,
                        (ErrorKind::Configuration, "Must set POSTGRES_URL"@),
                    ),
                    (Some(_), None) => ends_with_error(
                        r,
                        (ErrorKind::Configuration, "SLONY_CLUSTER must be set"@),
                    ),
                    (Some(u), Some(c)) => {
                        &&& r.0 matches FetchState::Connecting { cluster: c2 } && c2@ == c@
                        &&& r.1 matches FetchAction::Connect { url: u2 } && u2@ == u@
                    },
                },
                _ => ends_with_error(r, unexpected_event()),
            },
            FetchState::Connecting { cluster } => match event {
                FetchEvent::Connected => {
                    &&& r.0 matches FetchState::AwaitingIdentity { cluster: c2 } && c2@ == cluster@
                    &&& r.1 matches FetchAction::QueryWithSchema { sql, schema } && sql@
                        == node_query_text(cluster@) && schema@ == "_"@ + cluster@
                },
                _ => ends_with_error(r, unexpected_event()),
            },
            FetchState::AwaitingIdentity { cluster } => match event {
                FetchEvent::IdentityRows(rows) => if rows@.len() == 0 {
                    ends_with_error(r, (ErrorKind::NotFound, "No events found"@))
                } else {
                    let row = identity_row(rows@);
                    &&& r.0 matches FetchState::AwaitingConfirms { cluster: c2, status } && c2@
                        == cluster@ && status@.node_id == row.origin && status@.last_event_id
                        == row.seqno && status@.last_event_timestamp == row.timestamp
                        && status@.confirms.len() == 0 && status@.incoming.len() == 0
                        && status@.origin_sets.is_empty()
                    &&& r.1 matches FetchAction::QueryWithNode { sql, node_id } && sql@
                        == confirm_query_text(cluster@) && node_id == row.origin
                },
                _ => ends_with_error(r, unexpected_event()),
            },
            FetchState::AwaitingConfirms { cluster, status } => match event {
                FetchEvent::ConfirmRows(rows) => {
                    &&& r.0 matches FetchState::AwaitingIncoming { cluster: c2, status: s2 } && c2@
                        == cluster@ && same_identity(s2@, status@) && s2@.confirms
                        == latest_confirms_of(rows@) && s2@.incoming == status@.incoming
                        && s2@.origin_sets == status@.origin_sets
                    &&& r.1 matches FetchAction::QueryWithNode { sql, node_id } && sql@
                        == incoming_query_text(cluster@) && node_id == status@.node_id
                },
                _ => ends_with_error(r, unexpected_event()),
            },
            FetchState::AwaitingIncoming { cluster, status } => match event {
                FetchEvent::IncomingRows(rows) => {
                    &&& r.0 matches FetchState::AwaitingSets { status: s2 } && same_identity(
                        s2@,
                        status@,
                    ) && s2@.confirms == status@.confirms && s2@.incoming == latest_incoming_of(
                        remote_rows(rows@, status@.node_id),
                    ) && s2@.origin_sets == status@.origin_sets
                    &&& r.1 matches FetchAction::QueryWithNode { sql, node_id } && sql@
                        == sets_query_text(cluster@) && node_id == status@.node_id
                },
                _ => ends_with_error(r, unexpected_event()),
            },
            FetchState::AwaitingSets { status } => match event {
                FetchEvent::SetRows(rows) => {
                    &&& r.0 is Finished
                    &&& r.1 matches FetchAction::Finish(Ok(s2)) && same_identity(s2@, status@)
                        && s2@.confirms == status@.confirms && s2@.incoming == status@.incoming
                        && s2@.origin_sets == rows@.to_set()
                },
                _ => ends_with_error(r, unexpected_event()),
            },
            FetchState::Finished => ends_with_error(r, unexpected_event()),
        }
    }
}

fn unexpected() -> (r: (FetchState, FetchAction))
    ensures
        ends_with_error(r, unexpected_event()),
{
    let e = Error::new(ErrorKind::Query, "Unexpected reply to the pending request".to_owned());
    (FetchState::Finished, FetchAction::Finish(Err(e)))
}

/// One step of a status fetch: from where it stands and what the outside
/// world reported, where it stands next and what it asks for. A missing
/// configuration value ends the fetch before any connection is asked for;
/// no identity row ends it with `NotFound`; any failure ends it with that
/// failure, so no partial snapshot is ever handed back.
pub fn fetch_step(state: FetchState, event: FetchEvent) -> (r: (FetchState, FetchAction))
    requires
        state.well_formed(),
    ensures
        step_post(state, event, r),
        r.0.well_formed(),
        r.1 matches FetchAction::Finish(Ok(s)) ==> s@.well_formed(),
{
    if let FetchEvent::Failed(e) = event {
        return (FetchState::Finished, FetchAction::Finish(Err(e)));
    }
    match state {
        FetchState::Start => match event {
            FetchEvent::Begin { url, cluster } => match fetch_config(url, cluster) {
                Ok((url, cluster)) => (FetchState::Connecting { cluster }, FetchAction::Connect { url }),
                Err(e) => (FetchState::Finished, FetchAction::Finish(Err(e))),
            },
            _ => unexpected(),
        },
        FetchState::Connecting { cluster } => match event {
            FetchEvent::Connected => {
                let sql = node_query(cluster.as_str());
                let schema = schema_name(cluster.as_str());
                (FetchState::AwaitingIdentity { cluster }, FetchAction::QueryWithSchema { sql, schema })
            },
            _ => unexpected(),
        },
        FetchState::AwaitingIdentity { cluster } => match event {
            FetchEvent::IdentityRows(rows) => match status_from_node_rows(&rows) {
                Ok(status) => {
                    let node_id = status.node_id();
                    let sql = confirm_query(cluster.as_str());
                    (
                        FetchState::AwaitingConfirms { cluster, status },
                        FetchAction::QueryWithNode { sql, node_id },
                    )
                },
                Err(e) => (FetchState::Finished, FetchAction::Finish(Err(e))),
            },
            _ => unexpected(),
        },
        FetchState::AwaitingConfirms { cluster, status } => match event {
            FetchEvent::ConfirmRows(rows) => {
                let mut status = status;
                status.apply_confirm_rows(&rows);
                let node_id = status.node_id();
                let sql = incoming_query(cluster.as_str());
                (
                    FetchState::AwaitingIncoming { cluster, status },
                    FetchAction::QueryWithNode { sql, node_id },
                )
            },
            _ => unexpected(),
        },
        FetchState::AwaitingIncoming { cluster, status } => match event {
            FetchEvent::IncomingRows(rows) => {
                let mut status = status;
                status.apply_incoming_rows(&rows);
                let node_id = status.node_id();
                let sql = sets_query(cluster.as_str());
                (FetchState::AwaitingSets { status }, FetchAction::QueryWithNode { sql, node_id })
            },
            _ => unexpected(),
        },
        FetchState::AwaitingSets { status } => match event {
            FetchEvent::SetRows(rows) => {
                let mut status = status;
                status.apply_set_rows(&rows);
                (FetchState::Finished, FetchAction::Finish(Ok(status)))
            },
            _ => unexpected(),
        },
        FetchState::Finished => unexpected(),
    }
}

} // verus!
