use prometheus::IntGaugeVec;
use vstd::prelude::*;

use crate::mapper::{
    gauge_arity, gauge_writes, lemma_status_writes_arity, status_writes, writes_match_arity,
    writes_model, Gauge, GaugeWrite, WriteModel,
};
use crate::surface::{apply_surface, SurfaceState};
use crate::slony::SlonyStatus;

verus! {

/// One labelled integer gauge of prometheus, a collection of series keyed
/// by label values. Verus does not see inside it.
#[verifier::external_body]
pub struct GaugeFamily {
    pub vec: IntGaugeVec,
}

/// The series of a gauge family: the value of each, by the hash under
/// which prometheus files it.
pub uninterp spec fn series(v: GaugeFamily) -> Map<u64, i64>;

/// The hash under which prometheus files the series of these label values:
/// the FNV hash of their decimal texts, with a hasher that no process seeds.
pub uninterp spec fn label_hash(labels: Seq<i32>) -> u64;

/// The label names that a gauge family was created with.
pub uninterp spec fn label_names(v: GaugeFamily) -> Seq<Seq<char>>;

/// The metric name that a gauge family was created with.
pub uninterp spec fn metric_name(v: GaugeFamily) -> Seq<char>;

/// A character that may start a name: an ASCII letter or `_`, and `:` where
/// `colon` holds.
pub open spec fn name_start_char(c: char, colon: bool) -> bool {
    ('a' <= c <= 'z') || ('A' <= c <= 'Z') || c == '_' || (colon && c == ':')
}

/// The characters of `s` from `i` on may follow the first: those that may
/// start a name, and ASCII digits.
pub open spec fn name_rest(s: Seq<char>, i: int, colon: bool) -> bool
    decreases s.len() - i,
{
    if i >= s.len() {
        true
    } else {
        (name_start_char(s[i], colon) || ('0' <= s[i] <= '9')) && name_rest(s, i + 1, colon)
    }
}

/// A metric name (`colon`) or a label name (not `colon`) that prometheus
/// accepts.
pub open spec fn valid_name(s: Seq<char>, colon: bool) -> bool {
    s.len() > 0 && name_start_char(s[0], colon) && name_rest(s, 1, colon)
}

/// What prometheus asks of a new gauge family: a non-empty help text, a
/// valid metric name, and valid, pairwise distinct label names.
pub open spec fn valid_family(name: Seq<char>, help: Seq<char>, labels: Seq<Seq<char>>) -> bool {
    &&& help.len() > 0
    &&& valid_name(name, true)
    &&& forall|i: int| 0 <= i < labels.len() ==> valid_name(#[trigger] labels[i], false)
    &&& forall|i: int, j: int|
        0 <= i < labels.len() && 0 <= j < labels.len() && i != j ==> #[trigger] labels[i]
            != #[trigger] labels[j]
}

pub open spec fn str_views(labels: Seq<&str>) -> Seq<Seq<char>> {
    labels.map_values(|l: &str| l@)
}

/// Relies on `IntGaugeVec::new` with `Opts::new`: the family is created
/// exactly when the help text is not empty, the metric name and the label
/// names are valid and the label names are distinct (`Desc::new`); it keeps
/// the name and the label names as given and has no series yet.
#[verifier::external_body]
fn new_gauge_vec(name: &str, help: &str, labels: &[&str]) -> (r: Option<GaugeFamily>)
    ensures
        (r is Some) == valid_family(name@, help@, str_views(labels@)),
        (r matches Some(v) ==> (series(v) == Map::<u64, i64>::empty() && metric_name(v)
            == name@ && label_names(v) == str_views(labels@))),
{
    IntGaugeVec::new(prometheus::Opts::new(name, help), labels).ok().map(|vec| GaugeFamily { vec })
}

/// Relies on `MetricVec::with_label_values` and `GenericGauge::set`: the
/// label values are written as decimal texts and hashed
/// (`hash_label_values`); the series filed under that hash is created if
/// absent, and takes the value; no other series changes. Two tuples of
/// label values with one hash share a series. `with_label_values` panics
/// unless there are as many values as label names.
#[verifier::external_body]
fn set_series(v: &mut GaugeFamily, labels: &Vec<i32>, value: i64)
    requires
        labels@.len() == label_names(*old(v)).len(),
    ensures
        series(*final(v)) == series(*old(v)).insert(label_hash(labels@), value),
        label_names(*final(v)) == label_names(*old(v)),
        metric_name(*final(v)) == metric_name(*old(v)),
{
    let texts: Vec<String> = labels.iter().map(|l| l.to_string()).collect();
    let refs: Vec<&str> = texts.iter().map(|t| t.as_str()).collect();
    v.vec.with_label_values(&refs).set(value);
}

/// Relies on `prometheus::register`: adds a clone of the vector, which shares
/// its series, to the default registry; false when the registry refuses it.
#[verifier::external_body]
fn register_vec(v: &GaugeFamily) -> bool {
    prometheus::register(Box::new(v.vec.clone())).is_ok()
}

/// The metric surface: six labelled integer gauges.
pub struct Metrics {
    last_event: GaugeFamily,
    last_event_timestamp: GaugeFamily,
    last_confirmed_event: GaugeFamily,
    last_confirmed_event_timestamp: GaugeFamily,
    last_received_event: GaugeFamily,
    last_received_event_timestamp: GaugeFamily,
}

impl Metrics {
    /// The gauge family of one gauge.
    pub closed spec fn family(&self, g: Gauge) -> GaugeFamily {
        match g {
            Gauge::LastEvent => self.last_event,
            Gauge::LastEventTimestamp => self.last_event_timestamp,
            Gauge::ConfirmedEvent => self.last_confirmed_event,
            Gauge::ConfirmedEventTimestamp => self.last_confirmed_event_timestamp,
            Gauge::ReceivedEvent => self.last_received_event,
            Gauge::ReceivedEventTimestamp => self.last_received_event_timestamp,
        }
    }

    /// The series of one gauge.
    pub open spec fn series_of(&self, g: Gauge) -> Map<u64, i64> {
        series(self.family(g))
    }

    /// The whole surface: the value of each series, by gauge and hash.
    pub open spec fn state(&self) -> SurfaceState {
        Map::new(
            |k: (Gauge, u64)| self.series_of(k.0).contains_key(k.1),
            |k: (Gauge, u64)| self.series_of(k.0)[k.1],
        )
    }

    /// Each family has as many label names as its gauge has labels.
    pub open spec fn well_formed(&self) -> bool {
        forall|g: Gauge| label_names(#[trigger] self.family(g)).len() == gauge_arity(g)
    }

    pub fn last_event(&self) -> (r: &GaugeFamily)
        ensures
            *r == self.family(Gauge::LastEvent),
    {
        &self.last_event
    }

    pub fn last_confirmed_event(&self) -> (r: &GaugeFamily)
        ensures
            *r == self.family(Gauge::ConfirmedEvent),
    {
        &self.last_confirmed_event
    }

    pub fn last_event_timestamp(&self) -> (r: &GaugeFamily)
        ensures
            *r == self.family(Gauge::LastEventTimestamp),
    {
        &self.last_event_timestamp
    }

    pub fn last_confirmed_event_timestamp(&self) -> (r: &GaugeFamily)
        ensures
            *r == self.family(Gauge::ConfirmedEventTimestamp),
    {
        &self.last_confirmed_event_timestamp
    }

    pub fn last_received_event(&self) -> (r: &GaugeFamily)
        ensures
            *r == self.family(Gauge::ReceivedEvent),
    {
        &self.last_received_event
    }

    pub fn last_received_event_timestamp(&self) -> (r: &GaugeFamily)
        ensures
            *r == self.family(Gauge::ReceivedEventTimestamp),
    {
        &self.last_received_event_timestamp
    }

    /// Creates the six gauge families, with no series and not yet registered
    /// anywhere.
    pub fn new() -> (r: Option<Metrics>)
        ensures
            r matches Some(m) && {
                &&& m.well_formed()
                &&& m.state() == SurfaceState::empty()
                &&& metric_name(m.family(Gauge::LastEvent)) == "slony_last_event"@
                &&& metric_name(m.family(Gauge::LastEventTimestamp))
                    == "slony_last_event_timestamp"@
                &&& metric_name(m.family(Gauge::ConfirmedEvent)) == "slony_confirmed_event"@
                &&& metric_name(m.family(Gauge::ConfirmedEventTimestamp))
                    == "slony_confirmed_event_timestamp"@
                &&& metric_name(m.family(Gauge::ReceivedEvent)) == "slony_received_event"@
                &&& metric_name(m.family(Gauge::ReceivedEventTimestamp))
                    == "slony_received_event_timestamp"@
                &&& label_names(m.family(Gauge::LastEvent)) == seq!["slony_origin"@]
                &&& label_names(m.family(Gauge::LastEventTimestamp)) == seq!["slony_origin"@]
                &&& label_names(m.family(Gauge::ConfirmedEvent)) == seq![
                    "slony_origin"@,
                    "slony_receiver"@,
                ]
                &&& label_names(m.family(Gauge::ConfirmedEventTimestamp)) == seq![
                    "slony_origin"@,
                    "slony_receiver"@,
                ]
                &&& label_names(m.family(Gauge::ReceivedEvent)) == seq![
                    "slony_origin"@,
                    "slony_receiver"@,
                ]
                &&& label_names(m.family(Gauge::ReceivedEventTimestamp)) == seq![
                    "slony_origin"@,
                    "slony_receiver"@,
                ]
            },
    {
        let one: [&str; 1] = ["slony_origin"];
        let two: [&str; 2] = ["slony_origin", "slony_receiver"];
        proof {
            assert(one@ =~= seq!["slony_origin"]);
            assert(two@ =~= seq!["slony_origin", "slony_receiver"]);
            lemma_label_names(one@, two@);
        }
        let h1 = "The last event replicated";
        let h2 = "The timestamp of the last event replicated and confirmed";
        let h3 = "The last event generated";
        let h4 = "The timestamp of the last generated event";
        let h5 = "The last event received from a remote node";
        let h6 = "The timestamp of the last event replicated to this node from a remote node";
        let n1 = "slony_confirmed_event";
        let n2 = "slony_confirmed_event_timestamp";
        let n3 = "slony_last_event";
        let n4 = "slony_last_event_timestamp";
        let n5 = "slony_received_event";
        let n6 = "slony_received_event_timestamp";
        proof {
            lemma_valid_names(n1, n2, n3, n4, n5, n6);
            reveal_strlit("The last event replicated");
            reveal_strlit("The timestamp of the last event replicated and confirmed");
            reveal_strlit("The last event generated");
            reveal_strlit("The timestamp of the last generated event");
            reveal_strlit("The last event received from a remote node");
            reveal_strlit("The timestamp of the last event replicated to this node from a remote node");
        }
        let last_confirmed_event = new_gauge_vec(n1, h1, &two)?;
        let last_confirmed_event_timestamp = new_gauge_vec(n2, h2, &two)?;
        let last_event = new_gauge_vec(n3, h3, &one)?;
        let last_event_timestamp = new_gauge_vec(n4, h4, &one)?;
        let last_received_event = new_gauge_vec(n5, h5, &two)?;
        let last_received_event_timestamp = new_gauge_vec(n6, h6, &two)?;
        let m = Metrics {
            last_event,
            last_event_timestamp,
            last_confirmed_event,
            last_confirmed_event_timestamp,
            last_received_event,
            last_received_event_timestamp,
        };
        proof {
            assert(m.state() =~= SurfaceState::empty());
        }
        Some(m)
    }

    /// Adds the six gauge families to the default registry, which renders
    /// them; true when the registry took all six.
    pub fn register(&self) -> bool {
        let a = register_vec(&self.last_event);
        let b = register_vec(&self.last_event_timestamp);
        let c = register_vec(&self.last_confirmed_event);
        let d = register_vec(&self.last_confirmed_event_timestamp);
        let e = register_vec(&self.last_received_event);
        let f = register_vec(&self.last_received_event_timestamp);
        a && b && c && d && e && f
    }

    /// Performs one write on the surface: the series filed under the hash
    /// of its label values takes its value, and nothing else changes.
    pub fn apply(&mut self, w: &GaugeWrite)
        requires
            old(self).well_formed(),
            w.labels@.len() == gauge_arity(w.gauge),
        ensures
            final(self).well_formed(),
            final(self).state() == old(self).state().insert(
                (w.gauge, label_hash(w.labels@)),
                w.value,
            ),
            forall|g: Gauge|
                label_names(#[trigger] final(self).family(g)) == label_names(old(self).family(g))
                    && metric_name(final(self).family(g)) == metric_name(old(self).family(g)),
    {
        let ghost pre = *self;
        proof {
            assert(label_names(self.family(w.gauge)).len() == gauge_arity(w.gauge));
        }
        match w.gauge {
            Gauge::LastEvent => set_series(&mut self.last_event, &w.labels, w.value),
            Gauge::LastEventTimestamp => set_series(&mut self.last_event_timestamp, &w.labels, w.value),
            Gauge::ConfirmedEvent => set_series(&mut self.last_confirmed_event, &w.labels, w.value),
            Gauge::ConfirmedEventTimestamp => set_series(
                &mut self.last_confirmed_event_timestamp,
                &w.labels,
                w.value,
            ),
            Gauge::ReceivedEvent => set_series(&mut self.last_received_event, &w.labels, w.value),
            Gauge::ReceivedEventTimestamp => set_series(
                &mut self.last_received_event_timestamp,
                &w.labels,
                w.value,
            ),
        }
        proof {
            assert forall|g: Gauge| g != w.gauge implies #[trigger] self.family(g) == pre.family(g) by {}
            assert(self.state() =~= pre.state().insert((w.gauge, label_hash(w.labels@)), w.value));
        }
    }
}

proof fn lemma_label_names(one: Seq<&str>, two: Seq<&str>)
    requires
        one == seq!["slony_origin"],
        two == seq!["slony_origin", "slony_receiver"],
    ensures
        str_views(one) == seq!["slony_origin"@],
        str_views(two) == seq!["slony_origin"@, "slony_receiver"@],
        forall|i: int| 0 <= i < str_views(one).len() ==> valid_name(#[trigger] str_views(one)[i], false),
        forall|i: int| 0 <= i < str_views(two).len() ==> valid_name(#[trigger] str_views(two)[i], false),
        forall|i: int, j: int|
            0 <= i < str_views(two).len() && 0 <= j < str_views(two).len() && i != j
                ==> #[trigger] str_views(two)[i] != #[trigger] str_views(two)[j],
{
    assert(str_views(one) =~= seq!["slony_origin"@]);
    assert(str_views(two) =~= seq!["slony_origin"@, "slony_receiver"@]);
    reveal_strlit("slony_origin");
    reveal_strlit("slony_receiver");
    reveal_with_fuel(name_rest, 16);
    assert(valid_name("slony_origin"@, false));
    assert(valid_name("slony_receiver"@, false));
    assert("slony_origin"@[6] != "slony_receiver"@[6]);
}

proof fn lemma_valid_names(n1: &str, n2: &str, n3: &str, n4: &str, n5: &str, n6: &str)
    requires
        n1 == "slony_confirmed_event",
        n2 == "slony_confirmed_event_timestamp",
        n3 == "slony_last_event",
        n4 == "slony_last_event_timestamp",
        n5 == "slony_received_event",
        n6 == "slony_received_event_timestamp",
    ensures
        valid_name(n1@, true),
        valid_name(n2@, true),
        valid_name(n3@, true),
        valid_name(n4@, true),
        valid_name(n5@, true),
        valid_name(n6@, true),
{
    reveal_strlit("slony_confirmed_event");
    reveal_strlit("slony_confirmed_event_timestamp");
    reveal_strlit("slony_last_event");
    reveal_strlit("slony_last_event_timestamp");
    reveal_strlit("slony_received_event");
    reveal_strlit("slony_received_event_timestamp");
    reveal_with_fuel(name_rest, 32);
}

/// Maps a snapshot onto the metric surface: performs, in order, the writes
/// of `gauge_writes`, each on the series filed under the hash of its label
/// values. Series that no write reaches keep their presence and value.
pub fn metric_for_connection(slony_connection: &SlonyStatus, metrics: &mut Metrics)
    requires
        old(metrics).well_formed(),
    ensures
        final(metrics).well_formed(),
        final(metrics).state() == apply_surface(old(metrics).state(), status_writes(slony_connection@)),
{
    let writes = gauge_writes(slony_connection);
    let node = slony_connection.node_id();
    let ghost m0 = metrics.state();
    let ghost ws = writes_model(writes@);
    proof {
        lemma_status_writes_arity(slony_connection@);
        assert(ws.take(0) =~= Seq::<WriteModel>::empty());
    }
    let mut i: usize = 0;
    while i < writes.len()
        invariant
            i <= writes.len(),
            metrics.well_formed(),
            ws == writes_model(writes@),
            ws == status_writes(slony_connection@),
            writes_match_arity(ws, node),
            metrics.state() == apply_surface(m0, ws.take(i as int)),
        decreases writes.len() - i,
    {
        proof {
            assert(ws[i as int].1 == writes@[i as int].labels@);
            assert(ws[i as int].0 == writes@[i as int].gauge);
        }
        metrics.apply(&writes[i]);
        proof {
            assert(ws.take(i + 1).drop_last() =~= ws.take(i as int));
            assert(ws.take(i + 1).last() == ws[i as int]);
        }
        i = i + 1;
    }
    proof {
        assert(ws.take(ws.len() as int) =~= ws);
    }
}

} // verus!
