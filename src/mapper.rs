use vstd::prelude::*;

use crate::slony::{SlonyConfirm, SlonyIncoming, SlonyStatus, StatusModel};

verus! {

/// The six gauges of the metric surface.
#[derive(Clone, Copy, Debug, PartialEq, Eq, Structural)]
pub enum Gauge {
    /// Last event generated by a node; labelled by node.
    LastEvent,
    /// Timestamp of that event; labelled by node.
    LastEventTimestamp,
    /// Last event of a node that a receiver confirmed; labelled by node and receiver.
    ConfirmedEvent,
    /// Timestamp of that confirmation; labelled by node and receiver.
    ConfirmedEventTimestamp,
    /// Last event a node received from an origin; labelled by node and origin.
    ReceivedEvent,
    /// Timestamp of that event; labelled by node and origin.
    ReceivedEventTimestamp,
}

/// One gauge-set operation: the series of `gauge` named by `labels` takes
/// `value`.
#[derive(Debug)]
pub struct GaugeWrite {
    pub gauge: Gauge,
    pub labels: Vec<i32>,
    pub value: i64,
}

/// A write as a mathematical value: gauge, label values, value.
pub type WriteModel = (Gauge, Seq<i32>, i64);

/// The state of the metric surface: the value of each series, keyed by
/// gauge and label values.
pub type GaugeState = Map<(Gauge, Seq<i32>), i64>;

pub open spec fn write_model(w: GaugeWrite) -> WriteModel {
    (w.gauge, w.labels@, w.value)
}

pub open spec fn writes_model(ws: Seq<GaugeWrite>) -> Seq<WriteModel> {
    ws.map_values(|w: GaugeWrite| write_model(w))
}

/// The writes for one confirmation: each of its two values that is present
/// sets its gauge; an absent one writes nothing.
pub open spec fn confirm_writes(node: i32, c: SlonyConfirm) -> Seq<WriteModel> {
    let ev: Seq<WriteModel> = match c.last_confirmed_event {
        Some(v) => seq![(Gauge::ConfirmedEvent, seq![node, c.receiver], v)],
        None => seq![],
    };
    let ts: Seq<WriteModel> = match c.last_confirmed_timestamp {
        Some(t) => seq![(Gauge::ConfirmedEventTimestamp, seq![node, c.receiver], t)],
        None => seq![],
    };
    ev + ts
}

/// The writes for one incoming entry: both of its values, always.
pub open spec fn incoming_writes(node: i32, i: SlonyIncoming) -> Seq<WriteModel> {
    seq![
        (Gauge::ReceivedEvent, seq![node, i.origin], i.last_event_id),
        (Gauge::ReceivedEventTimestamp, seq![node, i.origin], i.last_event_timestamp),
    ]
}

pub open spec fn confirms_writes(node: i32, cs: Seq<SlonyConfirm>) -> Seq<WriteModel>
    decreases cs.len(),
{
    if cs.len() == 0 {
        seq![]
    } else {
        confirms_writes(node, cs.drop_last()) + confirm_writes(node, cs.last())
    }
}

pub open spec fn incomings_writes(node: i32, is: Seq<SlonyIncoming>) -> Seq<WriteModel>
    decreases is.len(),
{
    if is.len() == 0 {
        seq![]
    } else {
        incomings_writes(node, is.drop_last()) + incoming_writes(node, is.last())
    }
}

/// The writes that a snapshot maps to, in order: the node's own event and
/// its timestamp, then the confirmations, then the incoming entries.
pub open spec fn status_writes(s: StatusModel) -> Seq<WriteModel> {
    seq![
        (Gauge::LastEvent, seq![s.node_id], s.last_event_id),
        (Gauge::LastEventTimestamp, seq![s.node_id], s.last_event_timestamp),
    ] + confirms_writes(s.node_id, s.confirms) + incomings_writes(s.node_id, s.incoming)
}

/// The state after the writes, each replacing the value of its series.
pub open spec fn apply_writes(m: GaugeState, ws: Seq<WriteModel>) -> GaugeState
    decreases ws.len(),
{
    if ws.len() == 0 {
        m
    } else {
        apply_writes(m, ws.drop_last()).insert((ws.last().0, ws.last().1), ws.last().2)
    }
}

/// Whether one of the writes names the series `k`.
pub open spec fn writes_to(ws: Seq<WriteModel>, k: (Gauge, Seq<i32>)) -> bool {
    exists|x: int| 0 <= x < ws.len() && (#[trigger] ws[x]).0 == k.0 && ws[x].1 == k.1
}

/// Applying writes is overriding the old state by what the writes alone
/// leave in an empty state.
proof fn lemma_apply_override(m: GaugeState, ws: Seq<WriteModel>)
    ensures
        apply_writes(m, ws) == m.union_prefer_right(apply_writes(Map::empty(), ws)),
    decreases ws.len(),
{
    if ws.len() == 0 {
        assert(m.union_prefer_right(Map::empty()) =~= m);
    } else {
        lemma_apply_override(m, ws.drop_last());
        let e = apply_writes(Map::<(Gauge, Seq<i32>), i64>::empty(), ws.drop_last());
        let k = (ws.last().0, ws.last().1);
        assert(m.union_prefer_right(e).insert(k, ws.last().2) =~= m.union_prefer_right(
            e.insert(k, ws.last().2),
        ));
    }
}

/// A series that no write names keeps its presence and its value.
proof fn lemma_apply_frame(m: GaugeState, ws: Seq<WriteModel>, k: (Gauge, Seq<i32>))
    requires
        !writes_to(ws, k),
    ensures
        apply_writes(m, ws).contains_key(k) == m.contains_key(k),
        m.contains_key(k) ==> apply_writes(m, ws)[k] == m[k],
    decreases ws.len(),
{
    if ws.len() > 0 {
        let d = ws.drop_last();
        assert(!writes_to(d, k)) by {
            if writes_to(d, k) {
                let x = choose|x: int| 0 <= x < d.len() && (#[trigger] d[x]).0 == k.0 && d[x].1 == k.1;
                assert(ws[x] == d[x]);
            }
        }
        lemma_apply_frame(m, d, k);
        assert(!(ws[ws.len() - 1].0 == k.0 && ws[ws.len() - 1].1 == k.1));
        assert((ws.last().0, ws.last().1) != k);
    }
}

/// The write `w` is one that the confirmation `c` of `node` gives.
pub open spec fn from_confirm(w: WriteModel, node: i32, c: SlonyConfirm) -> bool {
    &&& w.1 == seq![node, c.receiver]
    &&& w.0 == Gauge::ConfirmedEvent ==> c.last_confirmed_event == Some(w.2)
    &&& w.0 == Gauge::ConfirmedEventTimestamp ==> c.last_confirmed_timestamp == Some(w.2)
}

/// The write `w` is one that the incoming entry `i` of `node` gives.
pub open spec fn from_incoming(w: WriteModel, node: i32, i: SlonyIncoming) -> bool {
    &&& w.1 == seq![node, i.origin]
    &&& w.0 == Gauge::ReceivedEvent ==> w.2 == i.last_event_id
    &&& w.0 == Gauge::ReceivedEventTimestamp ==> w.2 == i.last_event_timestamp
}

/// Every write of `confirms_writes` is to one of the two confirmation gauges
/// and is given by one of the confirmations.
proof fn lemma_confirms_writes_shape(node: i32, cs: Seq<SlonyConfirm>)
    ensures
        forall|x: int|
            0 <= x < confirms_writes(node, cs).len() ==> {
                let w = #[trigger] confirms_writes(node, cs)[x];
                &&& (w.0 == Gauge::ConfirmedEvent || w.0 == Gauge::ConfirmedEventTimestamp)
                &&& exists|j: int| 0 <= j < cs.len() && from_confirm(w, node, #[trigger] cs[j])
            },
    decreases cs.len(),
{
    if cs.len() > 0 {
        let d = cs.drop_last();
        lemma_confirms_writes_shape(node, d);
        let a = confirms_writes(node, d);
        let b = confirm_writes(node, cs.last());
        assert forall|x: int| 0 <= x < confirms_writes(node, cs).len() implies {
            let w = #[trigger] confirms_writes(node, cs)[x];
            &&& (w.0 == Gauge::ConfirmedEvent || w.0 == Gauge::ConfirmedEventTimestamp)
            &&& exists|j: int| 0 <= j < cs.len() && from_confirm(w, node, #[trigger] cs[j])
        } by {
            if x < a.len() {
                assert(confirms_writes(node, cs)[x] == a[x]);
                let j = choose|j: int| 0 <= j < d.len() && from_confirm(a[x], node, #[trigger] d[j]);
                assert(cs[j] == d[j]);
            } else {
                assert(confirms_writes(node, cs)[x] == b[x - a.len()]);
                let j = cs.len() - 1;
                assert(cs[j] == cs.last());
                assert(from_confirm(b[x - a.len()], node, cs[j]));
            }
        }
    }
}

/// Each present value of each confirmation is written.
proof fn lemma_confirms_writes_cover(node: i32, cs: Seq<SlonyConfirm>, j: int)
    requires
        0 <= j < cs.len(),
    ensures
        cs[j].last_confirmed_event is Some ==> writes_to(
            confirms_writes(node, cs),
            (Gauge::ConfirmedEvent, seq![node, cs[j].receiver]),
        ),
        cs[j].last_confirmed_timestamp is Some ==> writes_to(
            confirms_writes(node, cs),
            (Gauge::ConfirmedEventTimestamp, seq![node, cs[j].receiver]),
        ),
    decreases cs.len(),
{
    let d = cs.drop_last();
    let a = confirms_writes(node, d);
    let b = confirm_writes(node, cs.last());
    let all = confirms_writes(node, cs);
    assert(all == a + b);
    if j < cs.len() - 1 {
        lemma_confirms_writes_cover(node, d, j);
        assert(d[j] == cs[j]);
        let ke = (Gauge::ConfirmedEvent, seq![node, cs[j].receiver]);
        let kt = (Gauge::ConfirmedEventTimestamp, seq![node, cs[j].receiver]);
        if writes_to(a, ke) {
            let x = choose|x: int| 0 <= x < a.len() && (#[trigger] a[x]).0 == ke.0 && a[x].1 == ke.1;
            assert(all[x] == a[x]);
        }
        if writes_to(a, kt) {
            let x = choose|x: int| 0 <= x < a.len() && (#[trigger] a[x]).0 == kt.0 && a[x].1 == kt.1;
            assert(all[x] == a[x]);
        }
    } else {
        assert(cs[j] == cs.last());
        if cs[j].last_confirmed_event is Some {
            assert(all[a.len() as int] == b[0]);
        }
        if cs[j].last_confirmed_timestamp is Some {
            let x = b.len() - 1;
            assert(all[a.len() + x] == b[x]);
        }
    }
}

/// Every write of `incomings_writes` is to one of the two received gauges
/// and is given by one of the incoming entries; each entry's two values are
/// written.
proof fn lemma_incomings_writes_shape(node: i32, is: Seq<SlonyIncoming>)
    ensures
        forall|x: int|
            0 <= x < incomings_writes(node, is).len() ==> {
                let w = #[trigger] incomings_writes(node, is)[x];
                &&& (w.0 == Gauge::ReceivedEvent || w.0 == Gauge::ReceivedEventTimestamp)
                &&& exists|j: int| 0 <= j < is.len() && from_incoming(w, node, #[trigger] is[j])
            },
        forall|j: int|
            0 <= j < is.len() ==> writes_to(
                incomings_writes(node, is),
                (Gauge::ReceivedEvent, seq![node, (#[trigger] is[j]).origin]),
            ) && writes_to(
                incomings_writes(node, is),
                (Gauge::ReceivedEventTimestamp, seq![node, is[j].origin]),
            ),
    decreases is.len(),
{
    if is.len() > 0 {
        let d = is.drop_last();
        lemma_incomings_writes_shape(node, d);
        let a = incomings_writes(node, d);
        let b = incoming_writes(node, is.last());
        let all = incomings_writes(node, is);
        assert(all == a + b);
        assert forall|x: int| 0 <= x < all.len() implies {
            let w = #[trigger] all[x];
            &&& (w.0 == Gauge::ReceivedEvent || w.0 == Gauge::ReceivedEventTimestamp)
            &&& exists|j: int| 0 <= j < is.len() && from_incoming(w, node, #[trigger] is[j])
        } by {
            if x < a.len() {
                assert(all[x] == a[x]);
                let j = choose|j: int| 0 <= j < d.len() && from_incoming(a[x], node, #[trigger] d[j]);
                assert(is[j] == d[j]);
            } else {
                assert(all[x] == b[x - a.len()]);
                let j = is.len() - 1;
                assert(is[j] == is.last());
                assert(from_incoming(b[x - a.len()], node, is[j]));
            }
        }
        assert forall|j: int| 0 <= j < is.len() implies writes_to(
            all,
            (Gauge::ReceivedEvent, seq![node, (#[trigger] is[j]).origin]),
        ) && writes_to(all, (Gauge::ReceivedEventTimestamp, seq![node, is[j].origin])) by {
            if j < d.len() {
                assert(d[j] == is[j]);
                let ke = (Gauge::ReceivedEvent, seq![node, is[j].origin]);
                let kt = (Gauge::ReceivedEventTimestamp, seq![node, is[j].origin]);
                assert(writes_to(a, ke) && writes_to(a, kt));
                let x = choose|x: int| 0 <= x < a.len() && (#[trigger] a[x]).0 == ke.0 && a[x].1 == ke.1;
                assert(all[x] == a[x]);
                let y = choose|y: int| 0 <= y < a.len() && (#[trigger] a[y]).0 == kt.0 && a[y].1 == kt.1;
                assert(all[y] == a[y]);
            } else {
                assert(is[j] == is.last());
                assert(all[a.len() as int] == b[0]);
                assert(all[a.len() as int + 1] == b[1]);
            }
        }
    }
}

/// Applying the writes of one snapshot twice leaves the same gauge state as
/// applying them once: each write replaces a series' value, none adds to it.
pub proof fn lemma_mapping_idempotent(m: GaugeState, s: StatusModel)
    ensures
        apply_writes(apply_writes(m, status_writes(s)), status_writes(s)) == apply_writes(
            m,
            status_writes(s),
        ),
{
    let ws = status_writes(s);
    let e = apply_writes(Map::<(Gauge, Seq<i32>), i64>::empty(), ws);
    lemma_apply_override(m, ws);
    lemma_apply_override(apply_writes(m, ws), ws);
    assert(m.union_prefer_right(e).union_prefer_right(e) =~= m.union_prefer_right(e));
}

/// Where some write names the series `k` and all that do carry `v`, the
/// series holds `v` afterwards.
proof fn lemma_apply_uniform(m: GaugeState, ws: Seq<WriteModel>, k: (Gauge, Seq<i32>), v: i64)
    requires
        writes_to(ws, k),
        forall|x: int| 0 <= x < ws.len() && (#[trigger] ws[x]).0 == k.0 && ws[x].1 == k.1 ==> ws[x].2 == v,
    ensures
        apply_writes(m, ws).contains_key(k),
        apply_writes(m, ws)[k] == v,
    decreases ws.len(),
{
    let d = ws.drop_last();
    let l = ws.len() - 1;
    if ws[l].0 == k.0 && ws[l].1 == k.1 {
        assert((ws.last().0, ws.last().1) == k);
    } else {
        let x = choose|x: int| 0 <= x < ws.len() && (#[trigger] ws[x]).0 == k.0 && ws[x].1 == k.1;
        assert(d[x] == ws[x]);
        assert forall|y: int| 0 <= y < d.len() && (#[trigger] d[y]).0 == k.0 && d[y].1 == k.1 implies d[y].2
            == v by {
            assert(d[y] == ws[y]);
        }
        lemma_apply_uniform(m, d, k, v);
        assert((ws.last().0, ws.last().1) != k);
    }
}

/// Where the series `k` is of a confirmation gauge and the receiver of
/// confirmation `i`, every write to it is one that confirmation gives.
proof fn lemma_confirm_series_writes(s: StatusModel, i: int, k: (Gauge, Seq<i32>), x: int)
    requires
        s.well_formed(),
        0 <= i < s.confirms.len(),
        k.0 == Gauge::ConfirmedEvent || k.0 == Gauge::ConfirmedEventTimestamp,
        k.1 == seq![s.node_id, s.confirms[i].receiver],
        0 <= x < status_writes(s).len(),
        status_writes(s)[x].0 == k.0,
        status_writes(s)[x].1 == k.1,
    ensures
        from_confirm(status_writes(s)[x], s.node_id, s.confirms[i]),
{
    let ws = status_writes(s);
    let head: Seq<WriteModel> = seq![
        (Gauge::LastEvent, seq![s.node_id], s.last_event_id),
        (Gauge::LastEventTimestamp, seq![s.node_id], s.last_event_timestamp),
    ];
    let cw = confirms_writes(s.node_id, s.confirms);
    let iw = incomings_writes(s.node_id, s.incoming);
    lemma_confirms_writes_shape(s.node_id, s.confirms);
    lemma_incomings_writes_shape(s.node_id, s.incoming);
    if x < 2 {
        assert(ws[x] == head[x]);
    } else if x < 2 + cw.len() {
        assert(ws[x] == cw[x - 2]);
        let w = cw[x - 2];
        let j = choose|j: int| 0 <= j < s.confirms.len() && from_confirm(w, s.node_id, #[trigger] s.confirms[j]);
        assert(w.1[1] == s.confirms[j].receiver);
        assert(k.1[1] == s.confirms[i].receiver);
        assert(j == i);
    } else {
        assert(ws[x] == iw[x - 2 - cw.len()]);
    }
}

/// An absent value of a confirmation leaves its series as it was: absent if
/// it was absent, with its old value otherwise. The two values of a
/// confirmation act independently.
pub proof fn lemma_absent_confirm_untouched(m: GaugeState, s: StatusModel, i: int)
    requires
        s.well_formed(),
        0 <= i < s.confirms.len(),
    ensures
        ({
            let k = (Gauge::ConfirmedEvent, seq![s.node_id, s.confirms[i].receiver]);
            s.confirms[i].last_confirmed_event is None ==> {
                &&& apply_writes(m, status_writes(s)).contains_key(k) == m.contains_key(k)
                &&& m.contains_key(k) ==> apply_writes(m, status_writes(s))[k] == m[k]
            }
        }),
        ({
            let k = (Gauge::ConfirmedEventTimestamp, seq![s.node_id, s.confirms[i].receiver]);
            s.confirms[i].last_confirmed_timestamp is None ==> {
                &&& apply_writes(m, status_writes(s)).contains_key(k) == m.contains_key(k)
                &&& m.contains_key(k) ==> apply_writes(m, status_writes(s))[k] == m[k]
            }
        }),
{
    let ws = status_writes(s);
    let ke = (Gauge::ConfirmedEvent, seq![s.node_id, s.confirms[i].receiver]);
    let kt = (Gauge::ConfirmedEventTimestamp, seq![s.node_id, s.confirms[i].receiver]);
    if s.confirms[i].last_confirmed_event is None {
        assert(!writes_to(ws, ke)) by {
            if writes_to(ws, ke) {
                let x = choose|x: int| 0 <= x < ws.len() && (#[trigger] ws[x]).0 == ke.0 && ws[x].1 == ke.1;
                lemma_confirm_series_writes(s, i, ke, x);
            }
        }
        lemma_apply_frame(m, ws, ke);
    }
    if s.confirms[i].last_confirmed_timestamp is None {
        assert(!writes_to(ws, kt)) by {
            if writes_to(ws, kt) {
                let x = choose|x: int| 0 <= x < ws.len() && (#[trigger] ws[x]).0 == kt.0 && ws[x].1 == kt.1;
                lemma_confirm_series_writes(s, i, kt, x);
            }
        }
        lemma_apply_frame(m, ws, kt);
    }
}

/// Each present value of a confirmation is set on its series, whatever the
/// series held before.
pub proof fn lemma_confirm_values_set(m: GaugeState, s: StatusModel, i: int)
    requires
        s.well_formed(),
        0 <= i < s.confirms.len(),
    ensures
        ({
            let k = (Gauge::ConfirmedEvent, seq![s.node_id, s.confirms[i].receiver]);
            s.confirms[i].last_confirmed_event matches Some(v) ==> apply_writes(
                m,
                status_writes(s),
            ).contains_key(k) && apply_writes(m, status_writes(s))[k] == v
        }),
        ({
            let k = (Gauge::ConfirmedEventTimestamp, seq![s.node_id, s.confirms[i].receiver]);
            s.confirms[i].last_confirmed_timestamp matches Some(t) ==> apply_writes(
                m,
                status_writes(s),
            ).contains_key(k) && apply_writes(m, status_writes(s))[k] == t
        }),
{
    let ws = status_writes(s);
    let head: Seq<WriteModel> = seq![
        (Gauge::LastEvent, seq![s.node_id], s.last_event_id),
        (Gauge::LastEventTimestamp, seq![s.node_id], s.last_event_timestamp),
    ];
    let cw = confirms_writes(s.node_id, s.confirms);
    let iw = incomings_writes(s.node_id, s.incoming);
    assert(ws == head + cw + iw);
    lemma_confirms_writes_cover(s.node_id, s.confirms, i);
    let c = s.confirms[i];
    let ke = (Gauge::ConfirmedEvent, seq![s.node_id, c.receiver]);
    let kt = (Gauge::ConfirmedEventTimestamp, seq![s.node_id, c.receiver]);
    if let Some(v) = c.last_confirmed_event {
        let x = choose|x: int| 0 <= x < cw.len() && (#[trigger] cw[x]).0 == ke.0 && cw[x].1 == ke.1;
        assert(ws[x + 2] == cw[x]);
        assert forall|y: int| 0 <= y < ws.len() && (#[trigger] ws[y]).0 == ke.0 && ws[y].1 == ke.1 implies ws[y].2
            == v by {
            lemma_confirm_series_writes(s, i, ke, y);
        }
        lemma_apply_uniform(m, ws, ke, v);
    }
    if let Some(t) = c.last_confirmed_timestamp {
        let x = choose|x: int| 0 <= x < cw.len() && (#[trigger] cw[x]).0 == kt.0 && cw[x].1 == kt.1;
        assert(ws[x + 2] == cw[x]);
        assert forall|y: int| 0 <= y < ws.len() && (#[trigger] ws[y]).0 == kt.0 && ws[y].1 == kt.1 implies ws[y].2
            == t by {
            lemma_confirm_series_writes(s, i, kt, y);
        }
        lemma_apply_uniform(m, ws, kt, t);
    }
}

/// Both values of an incoming entry are set on their series, and the node's
/// own last event and its timestamp on theirs, whatever the series held
/// before.
pub proof fn lemma_incoming_and_own_values_set(m: GaugeState, s: StatusModel, i: int)
    requires
        s.well_formed(),
        0 <= i < s.incoming.len(),
    ensures
        ({
            let r = apply_writes(m, status_writes(s));
            let ke = (Gauge::ReceivedEvent, seq![s.node_id, s.incoming[i].origin]);
            let kt = (Gauge::ReceivedEventTimestamp, seq![s.node_id, s.incoming[i].origin]);
            &&& r.contains_key(ke) && r[ke] == s.incoming[i].last_event_id
            &&& r.contains_key(kt) && r[kt] == s.incoming[i].last_event_timestamp
        }),
{
    let ws = status_writes(s);
    let head: Seq<WriteModel> = seq![
        (Gauge::LastEvent, seq![s.node_id], s.last_event_id),
        (Gauge::LastEventTimestamp, seq![s.node_id], s.last_event_timestamp),
    ];
    let cw = confirms_writes(s.node_id, s.confirms);
    let iw = incomings_writes(s.node_id, s.incoming);
    assert(ws == head + cw + iw);
    lemma_confirms_writes_shape(s.node_id, s.confirms);
    lemma_incomings_writes_shape(s.node_id, s.incoming);
    let e = s.incoming[i];
    let ke = (Gauge::ReceivedEvent, seq![s.node_id, e.origin]);
    let kt = (Gauge::ReceivedEventTimestamp, seq![s.node_id, e.origin]);
    assert(writes_to(iw, ke) && writes_to(iw, kt));
    let x = choose|x: int| 0 <= x < iw.len() && (#[trigger] iw[x]).0 == ke.0 && iw[x].1 == ke.1;
    assert(ws[x + 2 + cw.len()] == iw[x]);
    let y = choose|y: int| 0 <= y < iw.len() && (#[trigger] iw[y]).0 == kt.0 && iw[y].1 == kt.1;
    assert(ws[y + 2 + cw.len()] == iw[y]);
    assert forall|z: int| 0 <= z < ws.len() && (#[trigger] ws[z]).1 == ke.1 && (ws[z].0 == ke.0
        || ws[z].0 == kt.0) implies (ws[z].0 == ke.0 ==> ws[z].2 == e.last_event_id) && (ws[z].0
        == kt.0 ==> ws[z].2 == e.last_event_timestamp) by {
        if z < 2 {
            assert(ws[z] == head[z]);
        } else if z < 2 + cw.len() {
            assert(ws[z] == cw[z - 2]);
        } else {
            let w = iw[z - 2 - cw.len()];
            assert(ws[z] == w);
            let j = choose|j: int| 0 <= j < s.incoming.len() && from_incoming(w, s.node_id, #[trigger] s.incoming[j]);
            assert(w.1[1] == s.incoming[j].origin);
            assert(ke.1[1] == e.origin);
            assert(j == i);
        }
    }
    lemma_apply_uniform(m, ws, ke, e.last_event_id);
    lemma_apply_uniform(m, ws, kt, e.last_event_timestamp);
    lemma_own_values_set(m, s);
}

/// The node's own last event and its timestamp are set on their series,
/// whatever the series held before.
pub proof fn lemma_own_values_set(m: GaugeState, s: StatusModel)
    ensures
        apply_writes(m, status_writes(s)).contains_key((Gauge::LastEvent, seq![s.node_id])),
        apply_writes(m, status_writes(s))[(Gauge::LastEvent, seq![s.node_id])] == s.last_event_id,
        apply_writes(m, status_writes(s)).contains_key((Gauge::LastEventTimestamp, seq![s.node_id])),
        apply_writes(m, status_writes(s))[(Gauge::LastEventTimestamp, seq![s.node_id])]
            == s.last_event_timestamp,
{
    let ws = status_writes(s);
    let head: Seq<WriteModel> = seq![
        (Gauge::LastEvent, seq![s.node_id], s.last_event_id),
        (Gauge::LastEventTimestamp, seq![s.node_id], s.last_event_timestamp),
    ];
    let cw = confirms_writes(s.node_id, s.confirms);
    let iw = incomings_writes(s.node_id, s.incoming);
    assert(ws == head + cw + iw);
    lemma_confirms_writes_shape(s.node_id, s.confirms);
    lemma_incomings_writes_shape(s.node_id, s.incoming);
    let ke = (Gauge::LastEvent, seq![s.node_id]);
    let kt = (Gauge::LastEventTimestamp, seq![s.node_id]);
    assert(ws[0] == head[0] && ws[1] == head[1]);
    assert forall|z: int| 0 <= z < ws.len() && (#[trigger] ws[z]).0 == ke.0 && ws[z].1 == ke.1 implies ws[z].2
        == s.last_event_id by {
        if z < 2 {
            assert(ws[z] == head[z]);
        } else if z < 2 + cw.len() {
            assert(ws[z] == cw[z - 2]);
        } else {
            assert(ws[z] == iw[z - 2 - cw.len()]);
        }
    }
    assert forall|z: int| 0 <= z < ws.len() && (#[trigger] ws[z]).0 == kt.0 && ws[z].1 == kt.1 implies ws[z].2
        == s.last_event_timestamp by {
        if z < 2 {
            assert(ws[z] == head[z]);
        } else if z < 2 + cw.len() {
            assert(ws[z] == cw[z - 2]);
        } else {
            assert(ws[z] == iw[z - 2 - cw.len()]);
        }
    }
    lemma_apply_uniform(m, ws, ke, s.last_event_id);
    lemma_apply_uniform(m, ws, kt, s.last_event_timestamp);
}

/// The writes that map a snapshot onto the metric surface: the node's own
/// last event and its timestamp; for each confirmation, each of its two
/// values that is present; for each incoming entry, both of its values.
pub fn gauge_writes(s: &SlonyStatus) -> (r: Vec<GaugeWrite>)
    ensures
        writes_model(r@) == status_writes(s@),
{
    let node = s.node_id();
    let mut out: Vec<GaugeWrite> = Vec::new();
    out.push(GaugeWrite { gauge: Gauge::LastEvent, labels: vec![node], value: s.last_event() });
    out.push(
        GaugeWrite {
            gauge: Gauge::LastEventTimestamp,
            labels: vec![node],
            value: s.last_event_timestamp(),
        },
    );
    proof {
        assert(out@[0].labels@ =~= seq![s@.node_id]);
        assert(out@[1].labels@ =~= seq![s@.node_id]);
        assert(writes_model(out@) =~= seq![
            (Gauge::LastEvent, seq![s@.node_id], s@.last_event_id),
            (Gauge::LastEventTimestamp, seq![s@.node_id], s@.last_event_timestamp),
        ]);
    }
    let head: Ghost<Seq<WriteModel>> = Ghost(writes_model(out@));
    let confirms = s.confirms();
    let mut i: usize = 0;
    while i < confirms.len()
        invariant
            i <= confirms.len(),
            confirms@ == s@.confirms,
            node == s@.node_id,
            writes_model(out@) == head@ + confirms_writes(node, confirms@.take(i as int)),
        decreases confirms.len() - i,
    {
        let c = confirms[i];
        let ghost before = out@;
        if let Some(v) = c.last_confirmed_event {
            out.push(GaugeWrite { gauge: Gauge::ConfirmedEvent, labels: vec![node, c.receiver], value: v });
        }
        let ghost mid = out@;
        if let Some(t) = c.last_confirmed_timestamp {
            out.push(
                GaugeWrite {
                    gauge: Gauge::ConfirmedEventTimestamp,
                    labels: vec![node, c.receiver],
                    value: t,
                },
            );
        }
        proof {
            let t = confirms@.take(i + 1);
            assert(t.drop_last() =~= confirms@.take(i as int));
            assert(t.last() == c);
            assert(writes_model(out@) =~= writes_model(before) + confirm_writes(node, c));
        }
        i = i + 1;
    }
    proof {
        assert(confirms@.take(confirms@.len() as int) =~= confirms@);
    }
    let incoming = s.incoming();
    let mut j: usize = 0;
    while j < incoming.len()
        invariant
            j <= incoming.len(),
            incoming@ == s@.incoming,
            node == s@.node_id,
            writes_model(out@) == head@ + confirms_writes(node, s@.confirms) + incomings_writes(
                node,
                incoming@.take(j as int),
            ),
        decreases incoming.len() - j,
    {
        let e = incoming[j];
        let ghost before = out@;
        out.push(GaugeWrite { gauge: Gauge::ReceivedEvent, labels: vec![node, e.origin], value: e.last_event_id });
        out.push(
            GaugeWrite {
                gauge: Gauge::ReceivedEventTimestamp,
                labels: vec![node, e.origin],
                value: e.last_event_timestamp,
            },
        );
        proof {
            let t = incoming@.take(j + 1);
            assert(t.drop_last() =~= incoming@.take(j as int));
            assert(t.last() == e);
            assert(writes_model(out@) =~= writes_model(before) + incoming_writes(node, e));
        }
        j = j + 1;
    }
    proof {
        assert(incoming@.take(incoming@.len() as int) =~= incoming@);
    }
    out
}

/// How many label values a series of the gauge is named by.
pub open spec fn gauge_arity(g: Gauge) -> nat {
    match g {
        Gauge::LastEvent | Gauge::LastEventTimestamp => 1,
        _ => 2,
    }
}

/// Every write names its series by as many label values as its gauge has
/// labels, the first of them being `node`.
pub open spec fn writes_match_arity(ws: Seq<WriteModel>, node: i32) -> bool {
    forall|x: int|
        0 <= x < ws.len() ==> (#[trigger] ws[x]).1.len() == gauge_arity(ws[x].0) && ws[x].1[0]
            == node
}

proof fn lemma_concat_arity(a: Seq<WriteModel>, b: Seq<WriteModel>, node: i32)
    requires
        writes_match_arity(a, node),
        writes_match_arity(b, node),
    ensures
        writes_match_arity(a + b, node),
{
    assert forall|x: int| 0 <= x < (a + b).len() implies (#[trigger] (a + b)[x]).1.len()
        == gauge_arity((a + b)[x].0) && (a + b)[x].1[0] == node by {
        if x < a.len() {
            assert((a + b)[x] == a[x]);
        } else {
            assert((a + b)[x] == b[x - a.len()]);
        }
    }
}

proof fn lemma_confirms_arity(node: i32, cs: Seq<SlonyConfirm>)
    ensures
        writes_match_arity(confirms_writes(node, cs), node),
    decreases cs.len(),
{
    if cs.len() > 0 {
        lemma_confirms_arity(node, cs.drop_last());
        let c = cs.last();
        let ev: Seq<WriteModel> = match c.last_confirmed_event {
            Some(v) => seq![(Gauge::ConfirmedEvent, seq![node, c.receiver], v)],
            None => seq![],
        };
        let ts: Seq<WriteModel> = match c.last_confirmed_timestamp {
            Some(t) => seq![(Gauge::ConfirmedEventTimestamp, seq![node, c.receiver], t)],
            None => seq![],
        };
        assert(writes_match_arity(ev, node));
        assert(writes_match_arity(ts, node));
        lemma_concat_arity(ev, ts, node);
        lemma_concat_arity(confirms_writes(node, cs.drop_last()), confirm_writes(node, c), node);
    }
}

proof fn lemma_incomings_arity(node: i32, is: Seq<SlonyIncoming>)
    ensures
        writes_match_arity(incomings_writes(node, is), node),
    decreases is.len(),
{
    if is.len() > 0 {
        lemma_incomings_arity(node, is.drop_last());
        let w = incoming_writes(node, is.last());
        assert(writes_match_arity(w, node));
        lemma_concat_arity(incomings_writes(node, is.drop_last()), w, node);
    }
}

/// The writes of a snapshot each carry as many label values as their gauge
/// has labels, the first being the snapshot's node.
pub proof fn lemma_status_writes_arity(s: StatusModel)
    ensures
        writes_match_arity(status_writes(s), s.node_id),
{
    let head: Seq<WriteModel> = seq![
        (Gauge::LastEvent, seq![s.node_id], s.last_event_id),
        (Gauge::LastEventTimestamp, seq![s.node_id], s.last_event_timestamp),
    ];
    assert(writes_match_arity(head, s.node_id));
    lemma_confirms_arity(s.node_id, s.confirms);
    lemma_incomings_arity(s.node_id, s.incoming);
    lemma_concat_arity(head, confirms_writes(s.node_id, s.confirms), s.node_id);
    lemma_concat_arity(
        head + confirms_writes(s.node_id, s.confirms),
        incomings_writes(s.node_id, s.incoming),
        s.node_id,
    );
}

} // verus!
