use vstd::prelude::*;
use vstd::string::StringExecFns;

use crate::slony::{Error, ErrorKind};

verus! {

/// The connection string and the cluster name that a fetch needs, both
/// required. A missing connection string is reported first; either absence
/// is a configuration error, found before any connection is attempted.
pub fn fetch_config(url: Option<String>, cluster: Option<String>) -> (r: Result<(String, String), Error>)
    ensures
        url is None ==> r is Err && r->Err_0@ == (ErrorKind::Configuration, "Must set POSTGRES_URL"@),
        url is Some && cluster is None ==> r is Err && r->Err_0@ == (
        ErrorKind::Configuration,
        "SLONY_CLUSTER must be set"@,
        ),
        url is Some && cluster is Some ==> r is Ok && r->Ok_0.0@ == url->Some_0@ && r->Ok_0.1@
            == cluster->Some_0@,
{
    let url = match url {
        Some(u) => u,
        None => {
            return Err(Error::new(ErrorKind::Configuration, "Must set POSTGRES_URL".to_owned()));
        },
    };
    let cluster = match cluster {
        Some(c) => c,
        None => {
            return Err(Error::new(ErrorKind::Configuration, "SLONY_CLUSTER must be set".to_owned()));
        },
    };
    Ok((url, cluster))
}

/// The name of the cluster's schema, which is the cluster name behind an
/// underscore; the identity query passes it to `getLocalNodeId`.
pub fn schema_name(cluster: &str) -> (r: String)
    ensures
        r@ == "_"@ + cluster@,
{
    let mut q = "_".to_owned();
    q.append(cluster);
    q
}

/// The identity query: this node's own event of the highest sequence
/// number. Its one parameter is the schema name.
pub open spec fn node_query_text(cluster: Seq<char>) -> Seq<char> {
    "select ev_origin, ev_seqno, extract(epoch from ev_timestamp)::int8 from _"@ + cluster
        + ".sl_event where ev_origin = _"@ + cluster
        + ".getLocalNodeId($1) order by ev_seqno desc limit 1"@
}

pub fn node_query(cluster: &str) -> (r: String)
    ensures
        r@ == node_query_text(cluster@),
{
    let mut q = "select ev_origin, ev_seqno, extract(epoch from ev_timestamp)::int8 from _".to_owned();
    q.append(cluster);
    q.append(".sl_event where ev_origin = _");
    q.append(cluster);
    q.append(".getLocalNodeId($1) order by ev_seqno desc limit 1");
    q
}

/// The confirmation query: for this node as origin, the confirmation of the
/// highest sequence number of each receiver. Its one parameter is the node id.
pub open spec fn confirm_query_text(cluster: Seq<char>) -> Seq<char> {
    "select con_received, con_seqno, extract(epoch from con_timestamp)::int8 from (select con_received, con_seqno, con_timestamp, rank() over (partition by con_origin, con_received order by con_seqno desc nulls last) from _"@
        + cluster + ".sl_confirm where con_origin = $1) as x where x.rank = 1"@
}

pub fn confirm_query(cluster: &str) -> (r: String)
    ensures
        r@ == confirm_query_text(cluster@),
{
    let mut q =
        "select con_received, con_seqno, extract(epoch from con_timestamp)::int8 from (select con_received, con_seqno, con_timestamp, rank() over (partition by con_origin, con_received order by con_seqno desc nulls last) from _".to_owned();
    q.append(cluster);
    q.append(".sl_confirm where con_origin = $1) as x where x.rank = 1");
    q
}

/// The incoming query: for every origin other than this node, its event of
/// the highest sequence number. Its one parameter is the node id.
pub open spec fn incoming_query_text(cluster: Seq<char>) -> Seq<char> {
    "select ev_origin, ev_seqno, extract(epoch from ev_timestamp)::int8 from (select ev_origin, ev_seqno, ev_timestamp, rank() over (partition by ev_origin order by ev_seqno desc) from _"@
        + cluster + ".sl_event where ev_origin <> $1) as x where x.rank = 1"@
}

pub fn incoming_query(cluster: &str) -> (r: String)
    ensures
        r@ == incoming_query_text(cluster@),
{
    let mut q =
        "select ev_origin, ev_seqno, extract(epoch from ev_timestamp)::int8 from (select ev_origin, ev_seqno, ev_timestamp, rank() over (partition by ev_origin order by ev_seqno desc) from _".to_owned();
    q.append(cluster);
    q.append(".sl_event where ev_origin <> $1) as x where x.rank = 1");
    q
}

/// The origin-set query: the replication sets whose origin is this node. Its
/// one parameter is the node id.
pub open spec fn sets_query_text(cluster: Seq<char>) -> Seq<char> {
    "select set_id from _"@ + cluster + ".sl_set where set_origin = $1"@
}

pub fn sets_query(cluster: &str) -> (r: String)
    ensures
        r@ == sets_query_text(cluster@),
{
    let mut q = "select set_id from _".to_owned();
    q.append(cluster);
    q.append(".sl_set where set_origin = $1");
    q
}

/// The error of a failed connect or TLS setup, with the driver's message.
pub fn connection_error(message: String) -> (r: Error)
    ensures
        r@ == (ErrorKind::Connection, message@),
{
    Error::new(ErrorKind::Connection, message)
}

/// The error of a failed TLS setup: the TLS library's message behind a
/// prefix.
pub fn ssl_error(detail: String) -> (r: Error)
    ensures
        r@ == (ErrorKind::Connection, "SSL error: "@ + detail@ + " "@),
{
    let mut m = "SSL error: ".to_owned();
    m.append(detail.as_str());
    m.append(" ");
    Error::new(ErrorKind::Connection, m)
}

/// The error of a failed query, with the driver's message.
pub fn query_error(message: String) -> (r: Error)
    ensures
        r@ == (ErrorKind::Query, message@),
{
    Error::new(ErrorKind::Query, message)
}

} // verus!
