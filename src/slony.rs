use std::collections::HashSet;
use vstd::prelude::*;

use crate::latest::{key_pos, latest_indices, lemma_winners, well_formed_winners, winners};

verus! {

broadcast use vstd::std_specs::hash::group_hash_axioms;

/// Latest acknowledgment from one receiver of this node's events. The two
/// optional values are independent: the schema allows a sequence number
/// without a timestamp.
#[derive(Clone, Copy, Debug)]
pub struct SlonyConfirm {
    pub receiver: i32,
    pub last_confirmed_event: Option<i64>,
    pub last_confirmed_timestamp: Option<i64>,
}

/// Latest event received on this node from one remote origin.
#[derive(Clone, Copy, Debug)]
pub struct SlonyIncoming {
    pub origin: i32,
    pub last_event_id: i64,
    pub last_event_timestamp: i64,
}

/// One row of the event table: the origin node, the sequence number and the
/// timestamp in seconds since the epoch.
#[derive(Clone, Copy, Debug)]
pub struct EventRow {
    pub origin: i32,
    pub seqno: i64,
    pub timestamp: i64,
}

/// The mathematical content of a snapshot.
pub struct StatusModel {
    pub node_id: i32,
    pub last_event_id: i64,
    pub last_event_timestamp: i64,
    pub confirms: Seq<SlonyConfirm>,
    pub incoming: Seq<SlonyIncoming>,
    pub origin_sets: Set<i32>,
}

/// One node's replication status at scrape time.
pub struct SlonyStatus {
    node_id: i32,
    confirms: Vec<SlonyConfirm>,
    incoming: Vec<SlonyIncoming>,
    last_event_id: i64,
    last_event_timestamp: i64,
    origin_sets: HashSet<i32>,
}

impl View for SlonyStatus {
    type V = StatusModel;

    closed spec fn view(&self) -> StatusModel {
        StatusModel {
            node_id: self.node_id,
            last_event_id: self.last_event_id,
            last_event_timestamp: self.last_event_timestamp,
            confirms: self.confirms@,
            incoming: self.incoming@,
            origin_sets: self.origin_sets@,
        }
    }
}

/// The order on confirmed sequence numbers: an absent one is below every
/// present one, so the kept confirmation of a receiver is the one with the
/// numerically highest sequence number, as the confirmation query's
/// `order by con_seqno desc nulls last` ranks them.
pub open spec fn confirm_rank(e: Option<i64>) -> i128 {
    match e {
        Some(v) => v as i128,
        None => (i64::MIN as i128 - 1) as i128,
    }
}

pub open spec fn confirm_keys(rows: Seq<SlonyConfirm>) -> Seq<i32> {
    rows.map_values(|c: SlonyConfirm| c.receiver)
}

pub open spec fn confirm_ranks(rows: Seq<SlonyConfirm>) -> Seq<i128> {
    rows.map_values(|c: SlonyConfirm| confirm_rank(c.last_confirmed_event))
}

/// The confirmations kept from the rows of the confirmation query: for each
/// receiver the row with the highest sequence number.
pub open spec fn latest_confirms_of(rows: Seq<SlonyConfirm>) -> Seq<SlonyConfirm> {
    winners(confirm_keys(rows), confirm_ranks(rows), rows.len()).map_values(
        |j: usize| rows[j as int],
    )
}

pub open spec fn incoming_keys(rows: Seq<SlonyIncoming>) -> Seq<i32> {
    rows.map_values(|c: SlonyIncoming| c.origin)
}

pub open spec fn incoming_ranks(rows: Seq<SlonyIncoming>) -> Seq<i128> {
    rows.map_values(|c: SlonyIncoming| c.last_event_id as i128)
}

/// The incoming entries kept from the rows of the incoming query: for each
/// origin the row with the highest sequence number.
pub open spec fn latest_incoming_of(rows: Seq<SlonyIncoming>) -> Seq<SlonyIncoming> {
    winners(incoming_keys(rows), incoming_ranks(rows), rows.len()).map_values(
        |j: usize| rows[j as int],
    )
}

/// The rows of other origins than `node`, in order.
pub open spec fn remote_rows(rows: Seq<SlonyIncoming>, node: i32) -> Seq<SlonyIncoming>
    decreases rows.len(),
{
    if rows.len() == 0 {
        seq![]
    } else if rows.last().origin == node {
        remote_rows(rows.drop_last(), node)
    } else {
        remote_rows(rows.drop_last(), node).push(rows.last())
    }
}

proof fn lemma_remote_rows(rows: Seq<SlonyIncoming>, node: i32)
    ensures
        remote_rows(rows, node).len() <= rows.len(),
        forall|p: int|
            0 <= p < remote_rows(rows, node).len() ==> (#[trigger] remote_rows(rows, node)[p]).origin
                != node,
    decreases rows.len(),
{
    if rows.len() > 0 {
        lemma_remote_rows(rows.drop_last(), node);
        let d = remote_rows(rows.drop_last(), node);
        assert forall|p: int| 0 <= p < remote_rows(rows, node).len() implies (#[trigger] remote_rows(
            rows,
            node,
        )[p]).origin != node by {
            if rows.last().origin != node && p < d.len() {
                assert(remote_rows(rows, node)[p] == d[p]);
            }
        }
    }
}

pub open spec fn event_keys(rows: Seq<EventRow>) -> Seq<i32> {
    rows.map_values(|e: EventRow| e.origin)
}

pub open spec fn event_ranks(rows: Seq<EventRow>) -> Seq<i128> {
    rows.map_values(|e: EventRow| e.seqno as i128)
}

/// The identity row: the row with the highest sequence number (of the first
/// origin, where the rows hold more than one).
pub open spec fn identity_row(rows: Seq<EventRow>) -> EventRow
    recommends
        rows.len() > 0,
{
    rows[winners(event_keys(rows), event_ranks(rows), rows.len())[0] as int]
}

/// No two confirmations name the same receiver.
pub open spec fn unique_receivers(c: Seq<SlonyConfirm>) -> bool {
    forall|i: int, j: int|
        0 <= i < c.len() && 0 <= j < c.len() && i != j ==> (#[trigger] c[i]).receiver
            != (#[trigger] c[j]).receiver
}

/// No two incoming entries name the same origin.
pub open spec fn unique_origins(c: Seq<SlonyIncoming>) -> bool {
    forall|i: int, j: int|
        0 <= i < c.len() && 0 <= j < c.len() && i != j ==> (#[trigger] c[i]).origin != (
        #[trigger] c[j]).origin
}

impl StatusModel {
    /// One confirmation per receiver and one incoming entry per origin.
    pub open spec fn well_formed(&self) -> bool {
        &&& unique_receivers(self.confirms)
        &&& unique_origins(self.incoming)
    }
}

impl SlonyStatus {
    pub fn new(node_id: i32, last_event_id: i64, last_event_timestamp: i64) -> (r: SlonyStatus)
        ensures
            r@.node_id == node_id,
            r@.last_event_id == last_event_id,
            r@.last_event_timestamp == last_event_timestamp,
            r@.confirms == Seq::<SlonyConfirm>::empty(),
            r@.incoming == Seq::<SlonyIncoming>::empty(),
            r@.origin_sets == Set::<i32>::empty(),
            r@.well_formed(),
    {
        SlonyStatus {
            node_id,
            last_event_id,
            last_event_timestamp,
            confirms: Vec::new(),
            incoming: Vec::new(),
            origin_sets: HashSet::new(),
        }
    }

    pub fn node_id(&self) -> (r: i32)
        ensures
            r == self@.node_id,
    {
        self.node_id
    }

    pub fn last_event(&self) -> (r: i64)
        ensures
            r == self@.last_event_id,
    {
        self.last_event_id
    }

    pub fn last_event_timestamp(&self) -> (r: i64)
        ensures
            r == self@.last_event_timestamp,
    {
        self.last_event_timestamp
    }

    pub fn confirms(&self) -> (r: &Vec<SlonyConfirm>)
        ensures
            r@ == self@.confirms,
    {
        &self.confirms
    }

    pub fn incoming(&self) -> (r: &Vec<SlonyIncoming>)
        ensures
            r@ == self@.incoming,
    {
        &self.incoming
    }

    pub fn origin_sets(&self) -> (r: &HashSet<i32>)
        ensures
            r@ == self@.origin_sets,
    {
        &self.origin_sets
    }
}

/// The kinds of failure of a status fetch.
#[derive(Clone, Copy, Debug, PartialEq, Eq, Structural)]
pub enum ErrorKind {
    /// A required configuration value is absent.
    Configuration,
    /// The transport, the TLS handshake or the database connect failed.
    Connection,
    /// A query failed; the message is the driver's.
    Query,
    /// The identity query returned no row.
    NotFound,
}

/// A failed fetch: its kind and a message for the operator.
pub struct Error {
    kind: ErrorKind,
    message: String,
}

impl View for Error {
    type V = (ErrorKind, Seq<char>);

    closed spec fn view(&self) -> (ErrorKind, Seq<char>) {
        (self.kind, self.message@)
    }
}

/// Access to the human-readable message of an error.
pub trait ErrorTrait {
    spec fn message_view(&self) -> Seq<char>;

    fn message(&self) -> (r: &str)
        ensures
            r@ == self.message_view(),
    ;
}

impl ErrorTrait for Error {
    open spec fn message_view(&self) -> Seq<char> {
        self@.1
    }

    fn message(&self) -> (r: &str) {
        self.message.as_str()
    }
}

impl Error {
    pub fn new(kind: ErrorKind, message: String) -> (r: Error)
        ensures
            r@ == (kind, message@),
    {
        Error { kind, message }
    }

    pub fn kind(&self) -> (r: ErrorKind)
        ensures
            r == self@.0,
    {
        self.kind
    }

    /// The error of an identity query that found no event of this node.
    pub fn no_events() -> (r: Error)
        ensures
            r@ == (ErrorKind::NotFound, "No events found"@),
    {
        Error { kind: ErrorKind::NotFound, message: "No events found".to_owned() }
    }
}

/// Builds the snapshot's identity from the rows of the identity query: the
/// row with the highest sequence number. No row is a `NotFound` error.
pub fn status_from_node_rows(rows: &Vec<EventRow>) -> (r: Result<SlonyStatus, Error>)
    ensures
        match r {
            Ok(s) => {
                &&& rows@.len() > 0
                &&& s@.node_id == identity_row(rows@).origin
                &&& s@.last_event_id == identity_row(rows@).seqno
                &&& s@.last_event_timestamp == identity_row(rows@).timestamp
                &&& s@.confirms.len() == 0
                &&& s@.incoming.len() == 0
                &&& s@.origin_sets.is_empty()
                &&& s@.well_formed()
            },
            Err(e) => rows@.len() == 0 && e@ == (ErrorKind::NotFound, "No events found"@),
        },
{
    let mut keys: Vec<i32> = Vec::new();
    let mut ranks: Vec<i128> = Vec::new();
    let mut i: usize = 0;
    while i < rows.len()
        invariant
            i <= rows.len(),
            keys@.len() == i,
            ranks@.len() == i,
            forall|j: int| 0 <= j < i ==> keys@[j] == #[trigger] rows@[j].origin,
            forall|j: int| 0 <= j < i ==> ranks@[j] == #[trigger] rows@[j].seqno as i128,
        decreases rows.len() - i,
    {
        keys.push(rows[i].origin);
        ranks.push(rows[i].seqno as i128);
        i = i + 1;
    }
    proof {
        assert(keys@ =~= event_keys(rows@));
        assert(ranks@ =~= event_ranks(rows@));
    }
    let w = latest_indices(&keys, &ranks);
    if w.len() == 0 {
        proof {
            if rows@.len() > 0 {
                lemma_winners(keys@, ranks@, keys@.len());
                let p = key_pos(keys@, w@, keys@[0]);
                assert(0 <= p < w@.len());
            }
        }
        return Err(Error::no_events());
    }
    proof {
        assert(w@[0] < rows@.len());
    }
    let row = rows[w[0]];
    Ok(SlonyStatus::new(row.origin, row.seqno, row.timestamp))
}

impl SlonyStatus {
    /// Replaces the confirmations by those kept from the rows of the
    /// confirmation query: one per receiver, of the highest sequence number.
    pub fn apply_confirm_rows(&mut self, rows: &Vec<SlonyConfirm>)
        requires
            old(self)@.well_formed(),
        ensures
            final(self)@.node_id == old(self)@.node_id,
            final(self)@.last_event_id == old(self)@.last_event_id,
            final(self)@.last_event_timestamp == old(self)@.last_event_timestamp,
            final(self)@.confirms == latest_confirms_of(rows@),
            final(self)@.incoming == old(self)@.incoming,
            final(self)@.origin_sets == old(self)@.origin_sets,
            final(self)@.well_formed(),
    {
        let mut keys: Vec<i32> = Vec::new();
        let mut ranks: Vec<i128> = Vec::new();
        let mut i: usize = 0;
        while i < rows.len()
            invariant
                i <= rows.len(),
                keys@.len() == i,
                ranks@.len() == i,
                forall|j: int| 0 <= j < i ==> keys@[j] == #[trigger] rows@[j].receiver,
                forall|j: int|
                    0 <= j < i ==> ranks@[j] == confirm_rank(#[trigger] rows@[j].last_confirmed_event),
            decreases rows.len() - i,
        {
            let rank: i128 = match rows[i].last_confirmed_event {
                Some(v) => v as i128,
                None => i64::MIN as i128 - 1,
            };
            keys.push(rows[i].receiver);
            ranks.push(rank);
            i = i + 1;
        }
        proof {
            assert(keys@ =~= confirm_keys(rows@));
            assert(ranks@ =~= confirm_ranks(rows@));
        }
        let w = latest_indices(&keys, &ranks);
        let mut out: Vec<SlonyConfirm> = Vec::new();
        let mut k: usize = 0;
        while k < w.len()
            invariant
                k <= w.len(),
                well_formed_winners(keys@, w@, rows@.len()),
                keys@ == confirm_keys(rows@),
                out@.len() == k,
                forall|j: int| 0 <= j < k ==> out@[j] == rows@[#[trigger] w@[j] as int],
            decreases w.len() - k,
        {
            out.push(rows[w[k]]);
            k = k + 1;
        }
        proof {
            assert(out@ =~= latest_confirms_of(rows@));
            assert forall|a: int, b: int|
                0 <= a < out@.len() && 0 <= b < out@.len() && a != b implies (#[trigger] out@[a]).receiver
                != (#[trigger] out@[b]).receiver by {
                assert(keys@[w@[a] as int] != keys@[w@[b] as int]);
            }
        }
        self.confirms = out;
    }

    /// Replaces the incoming entries by those kept from the rows of the
    /// incoming query: one per origin, of the highest sequence number.
    pub fn apply_incoming_rows(&mut self, rows: &Vec<SlonyIncoming>)
        requires
            old(self)@.well_formed(),
        ensures
            final(self)@.node_id == old(self)@.node_id,
            final(self)@.last_event_id == old(self)@.last_event_id,
            final(self)@.last_event_timestamp == old(self)@.last_event_timestamp,
            final(self)@.confirms == old(self)@.confirms,
            final(self)@.incoming == latest_incoming_of(remote_rows(rows@, old(self)@.node_id)),
            forall|p: int|
                0 <= p < final(self)@.incoming.len() ==> (#[trigger] final(self)@.incoming[p]).origin
                    != final(self)@.node_id,
            final(self)@.origin_sets == old(self)@.origin_sets,
            final(self)@.well_formed(),
    {
        let node = self.node_id;
        let mut remote: Vec<SlonyIncoming> = Vec::new();
        let mut r: usize = 0;
        while r < rows.len()
            invariant
                r <= rows.len(),
                remote@ == remote_rows(rows@.take(r as int), node),
            decreases rows.len() - r,
        {
            proof {
                assert(rows@.take(r + 1).drop_last() =~= rows@.take(r as int));
                assert(rows@.take(r + 1).last() == rows@[r as int]);
            }
            if rows[r].origin != node {
                remote.push(rows[r]);
            }
            r = r + 1;
        }
        proof {
            assert(rows@.take(rows@.len() as int) =~= rows@);
            lemma_remote_rows(rows@, node);
        }
        let rows: &Vec<SlonyIncoming> = &remote;
        let mut keys: Vec<i32> = Vec::new();
        let mut ranks: Vec<i128> = Vec::new();
        let mut i: usize = 0;
        while i < rows.len()
            invariant
                i <= rows.len(),
                keys@.len() == i,
                ranks@.len() == i,
                forall|j: int| 0 <= j < i ==> keys@[j] == #[trigger] rows@[j].origin,
                forall|j: int| 0 <= j < i ==> ranks@[j] == #[trigger] rows@[j].last_event_id as i128,
            decreases rows.len() - i,
        {
            keys.push(rows[i].origin);
            ranks.push(rows[i].last_event_id as i128);
            i = i + 1;
        }
        proof {
            assert(keys@ =~= incoming_keys(rows@));
            assert(ranks@ =~= incoming_ranks(rows@));
        }
        let w = latest_indices(&keys, &ranks);
        let mut out: Vec<SlonyIncoming> = Vec::new();
        let mut k: usize = 0;
        while k < w.len()
            invariant
                k <= w.len(),
                well_formed_winners(keys@, w@, rows@.len()),
                keys@ == incoming_keys(rows@),
                out@.len() == k,
                forall|j: int| 0 <= j < k ==> out@[j] == rows@[#[trigger] w@[j] as int],
            decreases w.len() - k,
        {
            out.push(rows[w[k]]);
            k = k + 1;
        }
        proof {
            assert(out@ =~= latest_incoming_of(rows@));
            lemma_latest_incoming(rows@);
            assert forall|p: int| 0 <= p < out@.len() implies (#[trigger] out@[p]).origin != node by {
                assert(rows@.contains(out@[p]));
            }
            assert forall|a: int, b: int|
                0 <= a < out@.len() && 0 <= b < out@.len() && a != b implies (#[trigger] out@[a]).origin
                != (#[trigger] out@[b]).origin by {
                assert(keys@[w@[a] as int] != keys@[w@[b] as int]);
            }
        }
        self.incoming = out;
    }

    /// Replaces the origin sets by the set identifiers of the rows of the
    /// origin-set query.
    pub fn apply_set_rows(&mut self, rows: &Vec<i32>)
        requires
            old(self)@.well_formed(),
        ensures
            final(self)@.node_id == old(self)@.node_id,
            final(self)@.last_event_id == old(self)@.last_event_id,
            final(self)@.last_event_timestamp == old(self)@.last_event_timestamp,
            final(self)@.confirms == old(self)@.confirms,
            final(self)@.incoming == old(self)@.incoming,
            final(self)@.origin_sets == rows@.to_set(),
            final(self)@.well_formed(),
    {
        let mut sets: HashSet<i32> = HashSet::new();
        let mut i: usize = 0;
        while i < rows.len()
            invariant
                i <= rows.len(),
                sets@ == rows@.take(i as int).to_set(),
            decreases rows.len() - i,
        {
            sets.insert(rows[i]);
            proof {
                assert(rows@.take(i + 1) =~= rows@.take(i as int).push(rows@[i as int]));
                rows@.take(i as int).lemma_push_to_set_commute(rows@[i as int]);
            }
            i = i + 1;
        }
        proof {
            assert(rows@.take(rows@.len() as int) =~= rows@);
        }
        self.origin_sets = sets;
    }
}

/// Of the rows of the confirmation query, one per receiver is kept: no two
/// kept confirmations share a receiver, every receiver of a row has a kept
/// confirmation whose sequence number is at least that row's, and every kept
/// confirmation is one of the rows. Duplicate rows for one receiver at
/// different sequence numbers thus leave only the highest.
pub proof fn lemma_latest_confirms(rows: Seq<SlonyConfirm>)
    requires
        rows.len() <= usize::MAX,
    ensures
        unique_receivers(latest_confirms_of(rows)),
        forall|j: int|
            0 <= j < rows.len() ==> exists|p: int|
                0 <= p < latest_confirms_of(rows).len()
                    && (#[trigger] latest_confirms_of(rows)[p]).receiver == (#[trigger] rows[j]).receiver
                    && confirm_rank(rows[j].last_confirmed_event) <= confirm_rank(
                    latest_confirms_of(rows)[p].last_confirmed_event,
                ),
        forall|p: int|
            0 <= p < latest_confirms_of(rows).len() ==> rows.contains(
                #[trigger] latest_confirms_of(rows)[p],
            ),
{
    let keys = confirm_keys(rows);
    let ranks = confirm_ranks(rows);
    let w = winners(keys, ranks, rows.len());
    let out = latest_confirms_of(rows);
    lemma_winners(keys, ranks, rows.len());
    assert forall|a: int, b: int|
        0 <= a < out.len() && 0 <= b < out.len() && a != b implies (#[trigger] out[a]).receiver
        != (#[trigger] out[b]).receiver by {
        assert(keys[w[a] as int] != keys[w[b] as int]);
    }
    assert forall|j: int| 0 <= j < rows.len() implies exists|p: int|
        0 <= p < out.len() && (#[trigger] out[p]).receiver == (#[trigger] rows[j]).receiver
            && confirm_rank(rows[j].last_confirmed_event) <= confirm_rank(
            out[p].last_confirmed_event,
        ) by {
        let p = key_pos(keys, w, keys[j]);
        assert(out[p] == rows[w[p] as int]);
        assert(keys[j] == rows[j].receiver);
        assert(ranks[j] == confirm_rank(rows[j].last_confirmed_event));
        assert(0 <= p < w.len());
        assert(keys[w[p] as int] == rows[w[p] as int].receiver);
        assert(ranks[w[p] as int] == confirm_rank(rows[w[p] as int].last_confirmed_event));
        assert(0 <= p < out.len() && out[p].receiver == rows[j].receiver && confirm_rank(
            rows[j].last_confirmed_event,
        ) <= confirm_rank(out[p].last_confirmed_event));
    }
    assert forall|p: int| 0 <= p < out.len() implies rows.contains(#[trigger] out[p]) by {
        assert(out[p] == rows[w[p] as int]);
    }
}

/// Of the rows of the incoming query, one per origin is kept: no two kept
/// entries share an origin, every origin of a row has a kept entry whose
/// sequence number is at least that row's, and every kept entry is one of
/// the rows.
pub proof fn lemma_latest_incoming(rows: Seq<SlonyIncoming>)
    requires
        rows.len() <= usize::MAX,
    ensures
        unique_origins(latest_incoming_of(rows)),
        forall|j: int|
            0 <= j < rows.len() ==> exists|p: int|
                0 <= p < latest_incoming_of(rows).len()
                    && (#[trigger] latest_incoming_of(rows)[p]).origin == (#[trigger] rows[j]).origin
                    && rows[j].last_event_id <= latest_incoming_of(rows)[p].last_event_id,
        forall|p: int|
            0 <= p < latest_incoming_of(rows).len() ==> rows.contains(
                #[trigger] latest_incoming_of(rows)[p],
            ),
{
    let keys = incoming_keys(rows);
    let ranks = incoming_ranks(rows);
    let w = winners(keys, ranks, rows.len());
    let out = latest_incoming_of(rows);
    lemma_winners(keys, ranks, rows.len());
    assert forall|a: int, b: int|
        0 <= a < out.len() && 0 <= b < out.len() && a != b implies (#[trigger] out[a]).origin
        != (#[trigger] out[b]).origin by {
        assert(keys[w[a] as int] != keys[w[b] as int]);
    }
    assert forall|j: int| 0 <= j < rows.len() implies exists|p: int|
        0 <= p < out.len() && (#[trigger] out[p]).origin == (#[trigger] rows[j]).origin
            && rows[j].last_event_id <= out[p].last_event_id by {
        let p = key_pos(keys, w, keys[j]);
        assert(out[p] == rows[w[p] as int]);
        assert(keys[j] == rows[j].origin);
        assert(ranks[j] == rows[j].last_event_id as i128);
        assert(0 <= p < w.len());
        assert(keys[w[p] as int] == rows[w[p] as int].origin);
        assert(ranks[w[p] as int] == rows[w[p] as int].last_event_id as i128);
        assert(0 <= p < out.len() && out[p].origin == rows[j].origin && rows[j].last_event_id
            <= out[p].last_event_id);
    }
    assert forall|p: int| 0 <= p < out.len() implies rows.contains(#[trigger] out[p]) by {
        assert(out[p] == rows[w[p] as int]);
    }
}

} // verus!
