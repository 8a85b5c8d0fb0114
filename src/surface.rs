use vstd::prelude::*;

use crate::mapper::{
    apply_writes, lemma_absent_confirm_untouched, lemma_confirm_values_set,
    lemma_incoming_and_own_values_set, lemma_own_values_set, status_writes, writes_to, Gauge,
    GaugeState, WriteModel,
};
use crate::metrics::label_hash;
use crate::slony::StatusModel;

verus! {

/// The state of the metric surface as prometheus holds it: the value of each
/// series, by gauge and by the hash of its label values.
pub type SurfaceState = Map<(Gauge, u64), i64>;

/// The surface after the writes, each replacing the value of the series
/// filed under the hash of its label values.
pub open spec fn apply_surface(m: SurfaceState, ws: Seq<WriteModel>) -> SurfaceState
    decreases ws.len(),
{
    if ws.len() == 0 {
        m
    } else {
        apply_surface(m, ws.drop_last()).insert(
            (ws.last().0, label_hash(ws.last().1)),
            ws.last().2,
        )
    }
}

/// No write of `ws` to gauge `g` with label values other than `l` has the
/// hash of `l`: the series of `l` is not shared with another write.
pub open spec fn hash_separated(ws: Seq<WriteModel>, g: Gauge, l: Seq<i32>) -> bool {
    forall|x: int|
        0 <= x < ws.len() && (#[trigger] ws[x]).0 == g && ws[x].1 != l ==> label_hash(ws[x].1)
            != label_hash(l)
}

proof fn lemma_surface_override(m: SurfaceState, ws: Seq<WriteModel>)
    ensures
        apply_surface(m, ws) == m.union_prefer_right(apply_surface(Map::empty(), ws)),
    decreases ws.len(),
{
    if ws.len() == 0 {
        assert(m.union_prefer_right(Map::empty()) =~= m);
    } else {
        lemma_surface_override(m, ws.drop_last());
        let e = apply_surface(Map::<(Gauge, u64), i64>::empty(), ws.drop_last());
        let k = (ws.last().0, label_hash(ws.last().1));
        assert(m.union_prefer_right(e).insert(k, ws.last().2) =~= m.union_prefer_right(
            e.insert(k, ws.last().2),
        ));
    }
}

/// Where the series of `l` in gauge `g` is not shared with another write,
/// the surface agrees with the label-keyed state on it: it takes the value
/// that the label-keyed state gives where some write names it, and keeps
/// its old presence and value where none does.
proof fn lemma_surface_agrees(
    ms: SurfaceState,
    mm: GaugeState,
    ws: Seq<WriteModel>,
    g: Gauge,
    l: Seq<i32>,
)
    requires
        hash_separated(ws, g, l),
    ensures
        writes_to(ws, (g, l)) ==> {
            &&& apply_surface(ms, ws).contains_key((g, label_hash(l)))
            &&& apply_writes(mm, ws).contains_key((g, l))
            &&& apply_surface(ms, ws)[(g, label_hash(l))] == apply_writes(mm, ws)[(g, l)]
        },
        !writes_to(ws, (g, l)) ==> {
            &&& apply_surface(ms, ws).contains_key((g, label_hash(l))) == ms.contains_key(
                (g, label_hash(l)),
            )
            &&& ms.contains_key((g, label_hash(l))) ==> apply_surface(ms, ws)[(g, label_hash(l))]
                == ms[(g, label_hash(l))]
            &&& apply_writes(mm, ws).contains_key((g, l)) == mm.contains_key((g, l))
        },
    decreases ws.len(),
{
    if ws.len() > 0 {
        let d = ws.drop_last();
        let n = ws.len() - 1;
        let w = ws[n];
        assert(w == ws.last());
        assert(hash_separated(d, g, l)) by {
            assert forall|x: int|
                0 <= x < d.len() && (#[trigger] d[x]).0 == g && d[x].1 != l implies label_hash(d[x].1)
                != label_hash(l) by {
                assert(d[x] == ws[x]);
            }
        }
        lemma_surface_agrees(ms, mm, d, g, l);
        if w.0 == g && w.1 == l {
            assert(writes_to(ws, (g, l)));
        } else {
            assert((w.0, label_hash(w.1)) != (g, label_hash(l)));
            assert(writes_to(ws, (g, l)) == writes_to(d, (g, l))) by {
                if writes_to(ws, (g, l)) {
                    let x = choose|x: int| 0 <= x < ws.len() && (#[trigger] ws[x]).0 == g && ws[x].1 == l;
                    assert(d[x] == ws[x]);
                }
                if writes_to(d, (g, l)) {
                    let x = choose|x: int| 0 <= x < d.len() && (#[trigger] d[x]).0 == g && d[x].1 == l;
                    assert(d[x] == ws[x]);
                }
            }
        }
    }
}

/// Applying the writes of one snapshot twice leaves the surface as applying
/// them once: each write replaces a series' value, none adds to it.
pub proof fn lemma_surface_idempotent(m: SurfaceState, s: StatusModel)
    ensures
        apply_surface(apply_surface(m, status_writes(s)), status_writes(s)) == apply_surface(
            m,
            status_writes(s),
        ),
{
    let ws = status_writes(s);
    let e = apply_surface(Map::<(Gauge, u64), i64>::empty(), ws);
    lemma_surface_override(m, ws);
    lemma_surface_override(apply_surface(m, ws), ws);
    assert(m.union_prefer_right(e).union_prefer_right(e) =~= m.union_prefer_right(e));
}

/// The two values of a confirmation act independently on the surface: a
/// present one is set on its series whatever it held, and an absent one
/// leaves its series as it was (absent if it was absent). This holds where
/// no other write of the snapshot shares the series' hash.
pub proof fn lemma_surface_confirm(m: SurfaceState, s: StatusModel, i: int)
    requires
        s.well_formed(),
        0 <= i < s.confirms.len(),
        hash_separated(
            status_writes(s),
            Gauge::ConfirmedEvent,
            seq![s.node_id, s.confirms[i].receiver],
        ),
        hash_separated(
            status_writes(s),
            Gauge::ConfirmedEventTimestamp,
            seq![s.node_id, s.confirms[i].receiver],
        ),
    ensures
        ({
            let k = (Gauge::ConfirmedEvent, label_hash(seq![s.node_id, s.confirms[i].receiver]));
            let r = apply_surface(m, status_writes(s));
            &&& s.confirms[i].last_confirmed_event matches Some(v) ==> r.contains_key(k) && r[k]
                == v
            &&& s.confirms[i].last_confirmed_event is None ==> r.contains_key(k) == m.contains_key(
                k,
            ) && (m.contains_key(k) ==> r[k] == m[k])
        }),
        ({
            let k = (
                Gauge::ConfirmedEventTimestamp,
                label_hash(seq![s.node_id, s.confirms[i].receiver]),
            );
            let r = apply_surface(m, status_writes(s));
            &&& s.confirms[i].last_confirmed_timestamp matches Some(t) ==> r.contains_key(k)
                && r[k] == t
            &&& s.confirms[i].last_confirmed_timestamp is None ==> r.contains_key(k)
                == m.contains_key(k) && (m.contains_key(k) ==> r[k] == m[k])
        }),
{
    let ws = status_writes(s);
    let l = seq![s.node_id, s.confirms[i].receiver];
    let mm = Map::<(Gauge, Seq<i32>), i64>::empty();
    lemma_confirm_values_set(mm, s, i);
    lemma_absent_confirm_untouched(mm, s, i);
    lemma_surface_agrees(m, mm, ws, Gauge::ConfirmedEvent, l);
    lemma_surface_agrees(m, mm, ws, Gauge::ConfirmedEventTimestamp, l);
}

/// Both values of an incoming entry are set on their series whatever they
/// held, where no other write of the snapshot shares the series' hash.
pub proof fn lemma_surface_incoming(m: SurfaceState, s: StatusModel, i: int)
    requires
        s.well_formed(),
        0 <= i < s.incoming.len(),
        hash_separated(status_writes(s), Gauge::ReceivedEvent, seq![s.node_id, s.incoming[i].origin]),
        hash_separated(
            status_writes(s),
            Gauge::ReceivedEventTimestamp,
            seq![s.node_id, s.incoming[i].origin],
        ),
    ensures
        ({
            let l = seq![s.node_id, s.incoming[i].origin];
            let r = apply_surface(m, status_writes(s));
            &&& r.contains_key((Gauge::ReceivedEvent, label_hash(l)))
            &&& r[(Gauge::ReceivedEvent, label_hash(l))] == s.incoming[i].last_event_id
            &&& r.contains_key((Gauge::ReceivedEventTimestamp, label_hash(l)))
            &&& r[(Gauge::ReceivedEventTimestamp, label_hash(l))] == s.incoming[i].last_event_timestamp
        }),
{
    let ws = status_writes(s);
    let l = seq![s.node_id, s.incoming[i].origin];
    let mm = Map::<(Gauge, Seq<i32>), i64>::empty();
    lemma_incoming_and_own_values_set(mm, s, i);
    lemma_surface_agrees(m, mm, ws, Gauge::ReceivedEvent, l);
    lemma_surface_agrees(m, mm, ws, Gauge::ReceivedEventTimestamp, l);
}

/// The node's own last event and its timestamp are set on their series
/// whatever they held, where no other write of the snapshot shares the
/// series' hash.
pub proof fn lemma_surface_own(m: SurfaceState, s: StatusModel)
    requires
        hash_separated(status_writes(s), Gauge::LastEvent, seq![s.node_id]),
        hash_separated(status_writes(s), Gauge::LastEventTimestamp, seq![s.node_id]),
    ensures
        ({
            let r = apply_surface(m, status_writes(s));
            let h = label_hash(seq![s.node_id]);
            &&& r.contains_key((Gauge::LastEvent, h)) && r[(Gauge::LastEvent, h)] == s.last_event_id
            &&& r.contains_key((Gauge::LastEventTimestamp, h)) && r[(Gauge::LastEventTimestamp, h)]
                == s.last_event_timestamp
        }),
{
    let ws = status_writes(s);
    let mm = Map::<(Gauge, Seq<i32>), i64>::empty();
    lemma_own_values_set(mm, s);
    lemma_surface_agrees(m, mm, ws, Gauge::LastEvent, seq![s.node_id]);
    lemma_surface_agrees(m, mm, ws, Gauge::LastEventTimestamp, seq![s.node_id]);
}

} // verus!
