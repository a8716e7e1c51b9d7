use crate::metric::{pairs_match, tag_pairs, tag_values_equal, CanonicalId, LocalId, Metric, MetricKey, MetricMeta};
use crate::tags::{strs_view, tag_values_view, TagValues};
use crate::types::{MetricType, MetricUnit, MetricValue, ValueOp, NEGATIVE_INFINITY_BITS, POSITIVE_INFINITY_BITS};
use vstd::multiset::Multiset;
use vstd::seq_lib::lemma_multiset_commutative;
use vstd::prelude::*;
use vstd::string::StringSliceAdditionalSpecFns;

verus! {

/// Whether some entry of `s` has identity `k`.
pub open spec fn id_present<K, I, V>(s: Seq<(K, V)>, id: spec_fn(K) -> I, k: I) -> bool {
    exists|i: int| 0 <= i < s.len() && id(s[i].0) == k
}

/// No two entries of `s` share an identity.
pub open spec fn ids_unique<K, I, V>(s: Seq<(K, V)>, id: spec_fn(K) -> I) -> bool {
    forall|i: int, j: int|
        0 <= i < s.len() && 0 <= j < s.len() && i != j ==> id(s[i].0) != id(s[j].0)
}

/// `after` is `before` with `x` folded into the entry of `stored`'s identity by
/// `step`, or, where there was none, with `stored` appended with a value that
/// meets `fresh` for `x`.
pub open spec fn upserted<K, I, V, X>(
    before: Seq<(K, V)>,
    after: Seq<(K, V)>,
    id: spec_fn(K) -> I,
    stored: K,
    x: X,
    fresh: spec_fn(X, V) -> bool,
    step: spec_fn(V, X, V) -> bool,
) -> bool {
    if id_present(before, id, id(stored)) {
        let i = choose|i: int| 0 <= i < before.len() && id(before[i].0) == id(stored);
        &&& after.len() == before.len()
        &&& after[i].0 == before[i].0
        &&& step(before[i].1, x, after[i].1)
        &&& forall|j: int| 0 <= j < before.len() && j != i ==> after[j] == before[j]
    } else {
        &&& after.len() == before.len() + 1
        &&& after.subrange(0, before.len() as int) == before
        &&& after[before.len() as int].0 == stored
        &&& fresh(x, after[before.len() as int].1)
    }
}

/// The entry that `upserted` updates is the one entry of that identity.
pub proof fn lemma_unique_choice<K, I, V>(s: Seq<(K, V)>, id: spec_fn(K) -> I, k: I, i: int)
    requires
        ids_unique(s, id),
        0 <= i < s.len(),
        id(s[i].0) == k,
    ensures
        (choose|j: int| 0 <= j < s.len() && id(s[j].0) == k) == i,
{
    let j = choose|j: int| 0 <= j < s.len() && id(s[j].0) == k;
    assert(0 <= j < s.len() && id(s[j].0) == k);
}

/// An upsert keeps the identities unique.
pub proof fn lemma_upserted_unique<K, I, V, X>(
    before: Seq<(K, V)>,
    after: Seq<(K, V)>,
    id: spec_fn(K) -> I,
    stored: K,
    x: X,
    fresh: spec_fn(X, V) -> bool,
    step: spec_fn(V, X, V) -> bool,
)
    requires
        ids_unique(before, id),
        upserted(before, after, id, stored, x, fresh, step),
    ensures
        ids_unique(after, id),
{
    if id_present(before, id, id(stored)) {
        let i = choose|i: int| 0 <= i < before.len() && id(before[i].0) == id(stored);
        assert forall|a: int, b: int|
            0 <= a < after.len() && 0 <= b < after.len() && a != b implies id(after[a].0) != id(
                after[b].0,
            ) by {
            assert(after[a].0 == before[a].0);
            assert(after[b].0 == before[b].0);
        }
    } else {
        let n = before.len() as int;
        assert forall|a: int, b: int|
            0 <= a < after.len() && 0 <= b < after.len() && a != b implies id(after[a].0) != id(
                after[b].0,
            ) by {
            if a < n {
                assert(after[a] == after.subrange(0, n)[a]);
            }
            if b < n {
                assert(after[b] == after.subrange(0, n)[b]);
            }
        }
    }
}

/// `trace` records merging every item of `items` into `before`, first item
/// first: `trace[j]` is the state once items `..j` are merged, so `trace[0]` is
/// `before` and `trace[items.len()]` is `after`. Each item's key is turned into
/// a stored key by `conv`; a new entry gets a value that meets `fresh` for the
/// item's value, an existing one is updated by `step`.
pub open spec fn merge_trace<K, J, I, V, W>(
    trace: Seq<Seq<(J, W)>>,
    before: Seq<(J, W)>,
    items: Seq<(K, V)>,
    after: Seq<(J, W)>,
    id: spec_fn(J) -> I,
    conv: spec_fn(K) -> J,
    fresh: spec_fn(V, W) -> bool,
    step: spec_fn(W, V, W) -> bool,
) -> bool {
    &&& trace.len() == items.len() + 1
    &&& trace[0] == before
    &&& trace[items.len() as int] == after
    &&& forall|j: int|
        #![trigger items[j]]
        0 <= j < items.len() ==> upserted(trace[j], trace[j + 1], id, conv(items[j].0), items[j].1, fresh, step)
}

/// `after` is `before` with every item of `items` merged in, first item first
/// (see [`merge_trace`]).
pub open spec fn merged<K, J, I, V, W>(
    before: Seq<(J, W)>,
    items: Seq<(K, V)>,
    after: Seq<(J, W)>,
    id: spec_fn(J) -> I,
    conv: spec_fn(K) -> J,
    fresh: spec_fn(V, W) -> bool,
    step: spec_fn(W, V, W) -> bool,
) -> bool {
    exists|trace: Seq<Seq<(J, W)>>| merge_trace(trace, before, items, after, id, conv, fresh, step)
}

pub open spec fn local_id_of(k: MetricKey) -> LocalId {
    k.local_id()
}

pub open spec fn canonical_id_of(k: AggregatedMetric) -> CanonicalId {
    k.canonical_id()
}

/// Whether `op` may be called on any operation and values.
pub open spec fn op_total<F: Fn(ValueOp, MetricValue, MetricValue) -> MetricValue>(op: F) -> bool {
    forall|o: ValueOp, a: MetricValue, b: MetricValue| #[trigger] op.requires((o, a, b))
}

/// An aggregated gauge.
#[derive(Debug, Clone, Copy, PartialEq, Eq, Structural)]
pub struct AggregatedGauge {
    /// The smallest value seen.
    pub min: MetricValue,
    /// The largest value seen.
    pub max: MetricValue,
    /// The sum of the values seen.
    pub sum: MetricValue,
    /// How many values were seen (saturating at `u64::MAX`).
    pub count: u64,
    /// The value seen last.
    pub last: MetricValue,
}

/// `a + b`, saturating at `u64::MAX`.
pub open spec fn saturating_sum(a: u64, b: u64) -> u64 {
    if a + b > u64::MAX { u64::MAX } else { (a + b) as u64 }
}

/// The gauge before any value: minimum `+inf`, maximum `-inf`, the rest zero.
pub open spec fn gauge_init() -> AggregatedGauge {
    AggregatedGauge {
        min: MetricValue::spec_from_bits(POSITIVE_INFINITY_BITS),
        max: MetricValue::spec_from_bits(NEGATIVE_INFINITY_BITS),
        sum: MetricValue::spec_from_bits(0),
        count: 0,
        last: MetricValue::spec_from_bits(0),
    }
}

/// `g2` is `g` after observing `v`, with `op` doing the arithmetic.
pub open spec fn gauge_observed<F: Fn(ValueOp, MetricValue, MetricValue) -> MetricValue>(
    op: F,
    g: AggregatedGauge,
    v: MetricValue,
    g2: AggregatedGauge,
) -> bool {
    &&& op.ensures((ValueOp::Min, g.min, v), g2.min)
    &&& op.ensures((ValueOp::Max, g.max, v), g2.max)
    &&& op.ensures((ValueOp::Sum, g.sum, v), g2.sum)
    &&& g2.count == saturating_sum(g.count, 1)
    &&& g2.last == v
}

/// `g2` is `g` with the partial gauge `o` merged in, with `op` doing the arithmetic.
pub open spec fn gauge_combined<F: Fn(ValueOp, MetricValue, MetricValue) -> MetricValue>(
    op: F,
    g: AggregatedGauge,
    o: AggregatedGauge,
    g2: AggregatedGauge,
) -> bool {
    &&& op.ensures((ValueOp::Min, g.min, o.min), g2.min)
    &&& op.ensures((ValueOp::Max, g.max, o.max), g2.max)
    &&& op.ensures((ValueOp::Sum, g.sum, o.sum), g2.sum)
    &&& g2.count == saturating_sum(g.count, o.count)
    &&& g2.last == o.last
}

impl AggregatedGauge {
    /// The gauge before any value.
    pub fn new() -> (r: AggregatedGauge)
        ensures
            r == gauge_init(),
    {
        AggregatedGauge {
            min: MetricValue::from_bits(POSITIVE_INFINITY_BITS),
            max: MetricValue::from_bits(NEGATIVE_INFINITY_BITS),
            sum: MetricValue::zero(),
            count: 0,
            last: MetricValue::zero(),
        }
    }

    /// Observes `v`.
    pub fn observe<F: Fn(ValueOp, MetricValue, MetricValue) -> MetricValue>(&mut self, v: MetricValue, op: &F)
        requires
            op_total(*op),
        ensures
            gauge_observed(*op, *old(self), v, *final(self)),
    {
        self.last = v;
        self.min = op(ValueOp::Min, self.min, v);
        self.max = op(ValueOp::Max, self.max, v);
        self.sum = op(ValueOp::Sum, self.sum, v);
        self.count = self.count.saturating_add(1);
    }

    /// Merges the partial gauge `other` in; `last` is taken from `other`.
    pub fn combine<F: Fn(ValueOp, MetricValue, MetricValue) -> MetricValue>(
        &mut self,
        other: &AggregatedGauge,
        op: &F,
    )
        requires
            op_total(*op),
        ensures
            gauge_combined(*op, *old(self), *other, *final(self)),
    {
        self.min = op(ValueOp::Min, self.min, other.min);
        self.max = op(ValueOp::Max, self.max, other.max);
        self.sum = op(ValueOp::Sum, self.sum, other.sum);
        self.count = self.count.saturating_add(other.count);
        self.last = other.last;
    }
}

/// All the values of a distribution, in the order they were merged.
#[derive(Debug)]
pub struct PreciseAggregatedDistribution {
    /// The aggregated values.
    pub values: Vec<MetricValue>,
}

impl PreciseAggregatedDistribution {
    /// A distribution without values.
    pub fn new() -> (r: PreciseAggregatedDistribution)
        ensures
            r.values@.len() == 0,
    {
        PreciseAggregatedDistribution { values: Vec::new() }
    }
}

/// A metric as aggregated across threads: its descriptor's field values and its tag values.
#[derive(Debug)]
pub struct AggregatedMetric {
    meta: MetricMeta,
    tag_values: TagValues,
}

/// The aggregated metric that a pre-aggregation key becomes on merge.
pub closed spec fn aggregated_from(key: MetricKey) -> AggregatedMetric {
    AggregatedMetric { meta: key.spec_meta(), tag_values: key.spec_raw_tag_values() }
}

/// A key keeps its canonical identity when it becomes an aggregated metric.
pub proof fn lemma_aggregated_from_id(key: MetricKey)
    ensures
        aggregated_from(key).canonical_id() == key.canonical_id(),
{
    key.lemma_raw_tag_values();
}

/// Capturing tag values and reading them back through the aggregated metric
/// gives the captured text exactly: when a key captured `tags`, its aggregated
/// metric's tag pairs carry those texts, position by position.
pub proof fn law_tags_round_trip(tags: Seq<&str>, key: MetricKey, pairs: Seq<(&str, &str)>)
    requires
        key.spec_tag_values() == strs_view(tags),
        pairs_match(
            pairs,
            aggregated_from(key).spec_meta().spec_tag_keys(),
            aggregated_from(key).spec_tag_values(),
        ),
    ensures
        forall|i: int| 0 <= i < pairs.len() ==> #[trigger] pairs[i].1.spec_bytes() == tags[i].spec_bytes(),
{
    lemma_aggregated_from_id(key);
    assert forall|i: int| 0 <= i < pairs.len() implies #[trigger] pairs[i].1.spec_bytes()
        == tags[i].spec_bytes() by {
        assert(pairs[i].1.spec_bytes() == aggregated_from(key).spec_tag_values()[i]);
        assert(strs_view(tags)[i] == tags[i].spec_bytes());
    }
}

impl AggregatedMetric {
    pub closed spec fn spec_meta(&self) -> MetricMeta {
        self.meta
    }

    pub closed spec fn spec_tag_values(&self) -> Seq<Seq<u8>> {
        tag_values_view(self.tag_values)
    }

    pub open spec fn canonical_id(&self) -> CanonicalId {
        (self.spec_meta().model(), self.spec_tag_values())
    }

    /// Turns a pre-aggregation key into the aggregated metric it belongs to.
    pub fn from_key(key: MetricKey) -> (r: AggregatedMetric)
        ensures
            r == aggregated_from(key),
            r.canonical_id() == key.canonical_id(),
    {
        let (meta, tag_values) = key.into_parts();
        AggregatedMetric { meta: *meta, tag_values }
    }

    /// The metric's type.
    pub fn ty(&self) -> (r: MetricType)
        ensures
            r == self.spec_meta().spec_ty(),
    {
        self.meta.ty()
    }

    /// The metric's unit.
    pub fn unit(&self) -> (r: MetricUnit)
        ensures
            r == self.spec_meta().spec_unit(),
    {
        self.meta.unit()
    }

    /// The name of the metric.
    pub fn key(&self) -> (r: &'static str)
        ensures
            r == self.spec_meta().spec_key(),
    {
        self.meta.key()
    }

    /// The tag keys paired by position with the tag values.
    pub fn tags(&self) -> (r: Vec<(&'static str, &str)>)
        ensures
            pairs_match(r@, self.spec_meta().spec_tag_keys(), self.spec_tag_values()),
    {
        tag_pairs(self.meta.tag_keys(), &self.tag_values)
    }

    /// Whether two aggregated metrics are the same metric.
    pub fn same_as(&self, other: &AggregatedMetric) -> (r: bool)
        ensures
            r == (self.canonical_id() == other.canonical_id()),
    {
        self.meta.same_as(&other.meta) && tag_values_equal(&self.tag_values, &other.tag_values)
    }
}

/// Finds the entry whose key has the local identity of `key`.
fn find_local<V>(entries: &Vec<(MetricKey, V)>, key: &MetricKey) -> (r: Option<usize>)
    ensures
        match r {
            Some(i) => i < entries@.len() && entries@[i as int].0.local_id() == key.local_id(),
            None => !id_present(entries@, |k: MetricKey| local_id_of(k), key.local_id()),
        },
{
    let mut i: usize = 0;
    while i < entries.len()
        invariant
            i <= entries@.len(),
            forall|j: int| 0 <= j < i ==> entries@[j].0.local_id() != key.local_id(),
        decreases entries@.len() - i,
    {
        if entries[i].0.same_local(key) {
            return Some(i);
        }
        i = i + 1;
    }
    None
}

/// Finds the entry whose key is the same metric as `key`.
fn find_canonical<V>(entries: &Vec<(AggregatedMetric, V)>, key: &AggregatedMetric) -> (r: Option<usize>)
    ensures
        match r {
            Some(i) => i < entries@.len() && entries@[i as int].0.canonical_id() == key.canonical_id(),
            None => !id_present(entries@, |k: AggregatedMetric| canonical_id_of(k), key.canonical_id()),
        },
{
    let mut i: usize = 0;
    while i < entries.len()
        invariant
            i <= entries@.len(),
            forall|j: int| 0 <= j < i ==> entries@[j].0.canonical_id() != key.canonical_id(),
        decreases entries@.len() - i,
    {
        if entries[i].0.same_as(key) {
            return Some(i);
        }
        i = i + 1;
    }
    None
}

/// An upsert adds exactly the identity of the stored key.
pub proof fn lemma_upserted_ids<K, I, V, X>(
    before: Seq<(K, V)>,
    after: Seq<(K, V)>,
    id: spec_fn(K) -> I,
    stored: K,
    x: X,
    fresh: spec_fn(X, V) -> bool,
    step: spec_fn(V, X, V) -> bool,
    c: I,
)
    requires
        upserted(before, after, id, stored, x, fresh, step),
    ensures
        id_present(after, id, c) <==> (id_present(before, id, c) || c == id(stored)),
{
    if id_present(before, id, id(stored)) {
        let i = choose|i: int| 0 <= i < before.len() && id(before[i].0) == id(stored);
        if id_present(after, id, c) {
            let j = choose|j: int| 0 <= j < after.len() && id(after[j].0) == c;
            if j != i {
                assert(after[j] == before[j]);
            }
        }
        if id_present(before, id, c) {
            let j = choose|j: int| 0 <= j < before.len() && id(before[j].0) == c;
            if j != i {
                assert(after[j] == before[j]);
            }
        }
    } else {
        let n = before.len() as int;
        if id_present(after, id, c) {
            let j = choose|j: int| 0 <= j < after.len() && id(after[j].0) == c;
            if j < n {
                assert(after[j] == after.subrange(0, n)[j]);
            }
        }
        if id_present(before, id, c) {
            let j = choose|j: int| 0 <= j < before.len() && id(before[j].0) == c;
            assert(after[j] == after.subrange(0, n)[j]);
        }
        assert(id(after[n].0) == id(stored));
    }
}

/// Some item before position `j` has canonical identity `c`.
pub open spec fn item_before<V>(items: Seq<(MetricKey, V)>, j: int, c: CanonicalId) -> bool {
    exists|i: int| 0 <= i < j && items[i].0.canonical_id() == c
}

proof fn lemma_trace_ids<V, W>(
    trace: Seq<Seq<(AggregatedMetric, W)>>,
    before: Seq<(AggregatedMetric, W)>,
    items: Seq<(MetricKey, V)>,
    after: Seq<(AggregatedMetric, W)>,
    fresh: spec_fn(V, W) -> bool,
    step: spec_fn(W, V, W) -> bool,
    j: int,
    c: CanonicalId,
)
    requires
        merge_trace(
            trace,
            before,
            items,
            after,
            |k: AggregatedMetric| canonical_id_of(k),
            |k: MetricKey| aggregated_from(k),
            fresh,
            step,
        ),
        0 <= j <= items.len(),
    ensures
        id_present(trace[j], |k: AggregatedMetric| canonical_id_of(k), c) <==> (id_present(
            before,
            |k: AggregatedMetric| canonical_id_of(k),
            c,
        ) || item_before(items, j, c)),
    decreases j,
{
    let cid = |k: AggregatedMetric| canonical_id_of(k);
    let conv = |k: MetricKey| aggregated_from(k);
    if j > 0 {
        let p = j - 1;
        lemma_trace_ids(trace, before, items, after, fresh, step, p, c);
        assert(upserted(trace[p], trace[j], cid, conv(items[p].0), items[p].1, fresh, step));
        lemma_upserted_ids(trace[p], trace[j], cid, conv(items[p].0), items[p].1, fresh, step, c);
        lemma_aggregated_from_id(items[p].0);
        if item_before(items, j, c) {
            let i = choose|i: int| 0 <= i < j && items[i].0.canonical_id() == c;
            if i < p {
                assert(item_before(items, p, c));
            }
        }
        if item_before(items, p, c) {
            let i = choose|i: int| 0 <= i < p && items[i].0.canonical_id() == c;
            assert(item_before(items, j, c));
        }
    }
}

/// Merging keys metrics by value: after a merge, a metric is present exactly when
/// it was present before or some merged entry, from whatever call site, carries
/// its descriptor field values and tag values; and each metric appears once.
pub proof fn law_merge_collapses_call_sites<V, W>(
    before: Seq<(AggregatedMetric, W)>,
    items: Seq<(MetricKey, V)>,
    after: Seq<(AggregatedMetric, W)>,
    fresh: spec_fn(V, W) -> bool,
    step: spec_fn(W, V, W) -> bool,
    c: CanonicalId,
)
    requires
        ids_unique(before, |k: AggregatedMetric| canonical_id_of(k)),
        merged(
            before,
            items,
            after,
            |k: AggregatedMetric| canonical_id_of(k),
            |k: MetricKey| aggregated_from(k),
            fresh,
            step,
        ),
    ensures
        id_present(after, |k: AggregatedMetric| canonical_id_of(k), c) <==> (id_present(
            before,
            |k: AggregatedMetric| canonical_id_of(k),
            c,
        ) || item_before(items, items.len() as int, c)),
        ids_unique(after, |k: AggregatedMetric| canonical_id_of(k)),
{
    let cid = |k: AggregatedMetric| canonical_id_of(k);
    let conv = |k: MetricKey| aggregated_from(k);
    let trace = choose|trace: Seq<Seq<(AggregatedMetric, W)>>|
        merge_trace(trace, before, items, after, cid, conv, fresh, step);
    lemma_trace_ids(trace, before, items, after, fresh, step, items.len() as int, c);
    lemma_trace_unique(trace, before, items, after, fresh, step, items.len() as int);
}

proof fn lemma_trace_unique<V, W>(
    trace: Seq<Seq<(AggregatedMetric, W)>>,
    before: Seq<(AggregatedMetric, W)>,
    items: Seq<(MetricKey, V)>,
    after: Seq<(AggregatedMetric, W)>,
    fresh: spec_fn(V, W) -> bool,
    step: spec_fn(W, V, W) -> bool,
    j: int,
)
    requires
        ids_unique(before, |k: AggregatedMetric| canonical_id_of(k)),
        merge_trace(
            trace,
            before,
            items,
            after,
            |k: AggregatedMetric| canonical_id_of(k),
            |k: MetricKey| aggregated_from(k),
            fresh,
            step,
        ),
        0 <= j <= items.len(),
    ensures
        ids_unique(trace[j], |k: AggregatedMetric| canonical_id_of(k)),
    decreases j,
{
    let cid = |k: AggregatedMetric| canonical_id_of(k);
    let conv = |k: MetricKey| aggregated_from(k);
    if j > 0 {
        let p = j - 1;
        lemma_trace_unique(trace, before, items, after, fresh, step, p);
        assert(upserted(trace[p], trace[j], cid, conv(items[p].0), items[p].1, fresh, step));
        lemma_upserted_unique(trace[p], trace[j], cid, conv(items[p].0), items[p].1, fresh, step);
    }
}

/// Two entries of the same metric from two call sites become one entry on merge.
pub proof fn law_two_call_sites_one_entry<V, W>(
    items: Seq<(MetricKey, V)>,
    after: Seq<(AggregatedMetric, W)>,
    fresh: spec_fn(V, W) -> bool,
    step: spec_fn(W, V, W) -> bool,
)
    requires
        items.len() == 2,
        items[0].0.canonical_id() == items[1].0.canonical_id(),
        merged(
            Seq::empty(),
            items,
            after,
            |k: AggregatedMetric| canonical_id_of(k),
            |k: MetricKey| aggregated_from(k),
            fresh,
            step,
        ),
    ensures
        after.len() == 1,
{
    let cid = |k: AggregatedMetric| canonical_id_of(k);
    let conv = |k: MetricKey| aggregated_from(k);
    let empty = Seq::<(AggregatedMetric, W)>::empty();
    let trace = choose|trace: Seq<Seq<(AggregatedMetric, W)>>|
        merge_trace(trace, empty, items, after, cid, conv, fresh, step);
    assert(upserted(trace[0], trace[1], cid, conv(items[0].0), items[0].1, fresh, step));
    assert(upserted(trace[1], trace[2], cid, conv(items[1].0), items[1].1, fresh, step));
    assert(!id_present(trace[0], cid, cid(conv(items[0].0))));
    assert(trace[1].len() == 1);
    lemma_aggregated_from_id(items[0].0);
    lemma_aggregated_from_id(items[1].0);
    assert(cid(trace[1][0].0) == cid(conv(items[0].0)));
    assert(id_present(trace[1], cid, cid(conv(items[1].0))));
}

/// Two emissions of the same metric from two call sites make two
/// pre-aggregation entries: keys with different call sites never share one.
pub proof fn law_call_sites_pre_aggregate_apart<V, X>(
    mid: Seq<(MetricKey, V)>,
    after: Seq<(MetricKey, V)>,
    first: MetricKey,
    second: MetricKey,
    x: X,
    y: X,
    fresh: spec_fn(X, V) -> bool,
    step: spec_fn(V, X, V) -> bool,
)
    requires
        first.spec_site() != second.spec_site(),
        upserted(Seq::empty(), mid, |k: MetricKey| local_id_of(k), first, x, fresh, step),
        upserted(mid, after, |k: MetricKey| local_id_of(k), second, y, fresh, step),
    ensures
        after.len() == 2,
{
    let lid = |k: MetricKey| local_id_of(k);
    assert(!id_present(Seq::<(MetricKey, V)>::empty(), lid, lid(first)));
    assert(mid.len() == 1);
    assert(mid[0].0 == first);
    assert(!id_present(mid, lid, lid(second)));
}

/// A gauge counts its observations: after observing `values` one by one from
/// the initial gauge, `count` is the number of values and `last` the final value.
pub proof fn law_gauge_counts_observations<F: Fn(ValueOp, MetricValue, MetricValue) -> MetricValue>(
    op: F,
    states: Seq<AggregatedGauge>,
    values: Seq<MetricValue>,
)
    requires
        states.len() == values.len() + 1,
        states[0] == gauge_init(),
        forall|i: int| #![trigger values[i]] 0 <= i < values.len() ==> gauge_observed(op, states[i], values[i], states[i + 1]),
        values.len() < u64::MAX,
    ensures
        states[values.len() as int].count == values.len(),
        values.len() > 0 ==> states[values.len() as int].last == values[values.len() - 1],
    decreases values.len(),
{
    if values.len() > 0 {
        let n = values.len() - 1;
        law_gauge_counts_observations(op, states.subrange(0, n + 1), values.subrange(0, n));
        assert(states.subrange(0, n + 1)[n] == states[n]);
        assert(gauge_observed(op, states[n], values[n], states[n + 1]));
    }
}

/// Every value held by the distribution entries of `s`, as a multiset.
pub open spec fn all_values<J>(s: Seq<(J, PreciseAggregatedDistribution)>) -> Multiset<MetricValue>
    decreases s.len(),
{
    if s.len() == 0 {
        Multiset::empty()
    } else {
        all_values(s.drop_last()).add(s.last().1.values@.to_multiset())
    }
}

proof fn lemma_all_values_update<J>(s: Seq<(J, PreciseAggregatedDistribution)>, i: int, e: (J, PreciseAggregatedDistribution))
    requires
        0 <= i < s.len(),
    ensures
        all_values(s.update(i, e)).add(s[i].1.values@.to_multiset()) =~= all_values(s).add(
            e.1.values@.to_multiset(),
        ),
    decreases s.len(),
{
    broadcast use vstd::multiset::group_multiset_axioms;

    let t = s.update(i, e);
    assert(all_values(t) == all_values(t.drop_last()).add(t.last().1.values@.to_multiset()));
    assert(all_values(s) == all_values(s.drop_last()).add(s.last().1.values@.to_multiset()));
    if i == s.len() - 1 {
        assert(t.drop_last() =~= s.drop_last());
        assert(t.last() == e);
        assert(s[i] == s.last());
        assert forall|x: MetricValue| #[trigger] all_values(t).add(s[i].1.values@.to_multiset()).count(x) == all_values(s).add(e.1.values@.to_multiset()).count(x) by {
        }
    } else {
        let sd = s.drop_last();
        assert(t.drop_last() =~= sd.update(i, e));
        assert(t.last() == s.last());
        lemma_all_values_update(sd, i, e);
        assert(sd[i] == s[i]);
        assert forall|x: MetricValue| #[trigger] all_values(t).add(s[i].1.values@.to_multiset()).count(x) == all_values(s).add(e.1.values@.to_multiset()).count(x) by {
            assert(all_values(sd.update(i, e)).add(sd[i].1.values@.to_multiset()).count(x) == all_values(sd).add(e.1.values@.to_multiset()).count(x));
        }
    }
}

proof fn lemma_all_values_push<J>(s: Seq<(J, PreciseAggregatedDistribution)>, e: (J, PreciseAggregatedDistribution))
    ensures
        all_values(s.push(e)) =~= all_values(s).add(e.1.values@.to_multiset()),
{
    assert(s.push(e).drop_last() =~= s);
}

/// One upsert into distribution entries adds the item's values to the multiset.
proof fn lemma_upserted_values<K, I, J>(
    before: Seq<(J, PreciseAggregatedDistribution)>,
    after: Seq<(J, PreciseAggregatedDistribution)>,
    id: spec_fn(J) -> I,
    stored: J,
    o: PreciseAggregatedDistribution,
)
    requires
        upserted(before, after, id, stored, o, distribution_merge_fresh(), distribution_merge_step()),
    ensures
        all_values(after) =~= all_values(before).add(o.values@.to_multiset()),
{
    broadcast use vstd::multiset::group_multiset_axioms;

    if id_present(before, id, id(stored)) {
        let i = choose|i: int| 0 <= i < before.len() && id(before[i].0) == id(stored);
        assert(after =~= before.update(i, after[i]));
        lemma_all_values_update(before, i, after[i]);
        assert(after[i].1.values@ == before[i].1.values@ + o.values@);
        lemma_multiset_commutative(before[i].1.values@, o.values@);
        assert forall|x: MetricValue| #[trigger] all_values(after).count(x) == all_values(before).add(
            o.values@.to_multiset(),
        ).count(x) by {
            assert(after.update(i, after[i]) == after);
            assert(all_values(before.update(i, after[i])).add(before[i].1.values@.to_multiset()).count(x)
                == all_values(before).add(after[i].1.values@.to_multiset()).count(x));
        }
    } else {
        let n = before.len() as int;
        assert(after =~= before.push(after[n]));
        lemma_all_values_push(before, after[n]);
        assert(after[n].1.values@ == o.values@);
    }
}

proof fn lemma_trace_values(
    trace: Seq<Seq<(AggregatedMetric, PreciseAggregatedDistribution)>>,
    before: Seq<(AggregatedMetric, PreciseAggregatedDistribution)>,
    items: Seq<(MetricKey, PreciseAggregatedDistribution)>,
    after: Seq<(AggregatedMetric, PreciseAggregatedDistribution)>,
    j: int,
)
    requires
        merge_trace(
            trace,
            before,
            items,
            after,
            |k: AggregatedMetric| canonical_id_of(k),
            |k: MetricKey| aggregated_from(k),
            distribution_merge_fresh(),
            distribution_merge_step(),
        ),
        0 <= j <= items.len(),
    ensures
        all_values(trace[j]) =~= all_values(before).add(all_values(items.subrange(0, j))),
    decreases j,
{
    broadcast use vstd::multiset::group_multiset_axioms;

    let cid = |k: AggregatedMetric| canonical_id_of(k);
    let conv = |k: MetricKey| aggregated_from(k);
    if j == 0 {
        assert(items.subrange(0, 0).len() == 0);
    } else {
        let p = j - 1;
        lemma_trace_values(trace, before, items, after, p);
        assert(upserted(
            trace[p],
            trace[j],
            cid,
            conv(items[p].0),
            items[p].1,
            distribution_merge_fresh(),
            distribution_merge_step(),
        ));
        lemma_upserted_values::<MetricKey, CanonicalId, AggregatedMetric>(trace[p], trace[j], cid, conv(items[p].0), items[p].1);
        assert(items.subrange(0, j).drop_last() =~= items.subrange(0, p));
        assert(items.subrange(0, j).last() == items[p]);
    }
}

/// Merging keeps every distribution value: the multiset of all values after a
/// merge is the multiset before plus every value of the merged entries.
pub proof fn law_merge_keeps_distribution_values(
    before: Seq<(AggregatedMetric, PreciseAggregatedDistribution)>,
    items: Seq<(MetricKey, PreciseAggregatedDistribution)>,
    after: Seq<(AggregatedMetric, PreciseAggregatedDistribution)>,
)
    requires
        merged(
            before,
            items,
            after,
            |k: AggregatedMetric| canonical_id_of(k),
            |k: MetricKey| aggregated_from(k),
            distribution_merge_fresh(),
            distribution_merge_step(),
        ),
    ensures
        all_values(after) == all_values(before).add(all_values(items)),
{
    let cid = |k: AggregatedMetric| canonical_id_of(k);
    let conv = |k: MetricKey| aggregated_from(k);
    let fresh = distribution_merge_fresh();
    let step = distribution_merge_step();
    let trace = choose|trace: Seq<Seq<(AggregatedMetric, PreciseAggregatedDistribution)>>|
        merge_trace(trace, before, items, after, cid, conv, fresh, step);
    lemma_trace_values(trace, before, items, after, items.len() as int);
    assert(items.subrange(0, items.len() as int) =~= items);
}

/// Adding a distribution value to pre-aggregations adds exactly that value to
/// the multiset of all their values.
pub proof fn law_add_keeps_distribution_values(
    before: Seq<(MetricKey, PreciseAggregatedDistribution)>,
    after: Seq<(MetricKey, PreciseAggregatedDistribution)>,
    key: MetricKey,
    v: MetricValue,
)
    requires
        upserted(
            before,
            after,
            |k: MetricKey| local_id_of(k),
            key,
            v,
            distribution_observe_fresh(),
            distribution_observe_step(),
        ),
    ensures
        all_values(after) == all_values(before).insert(v),
{
    broadcast use vstd::multiset::group_multiset_axioms;
    broadcast use vstd::seq_lib::group_to_multiset_ensures;

    let lid = |k: MetricKey| local_id_of(k);
    if id_present(before, lid, lid(key)) {
        let i = choose|i: int| 0 <= i < before.len() && lid(before[i].0) == lid(key);
        assert(after =~= before.update(i, after[i]));
        lemma_all_values_update(before, i, after[i]);
        assert(after[i].1.values@ == before[i].1.values@.push(v));
        assert forall|x: MetricValue| #[trigger] all_values(after).count(x) == all_values(before).insert(
            v,
        ).count(x) by {
            assert(all_values(before.update(i, after[i])).add(before[i].1.values@.to_multiset()).count(x)
                == all_values(before).add(after[i].1.values@.to_multiset()).count(x));
            assert(after[i].1.values@.to_multiset() == before[i].1.values@.to_multiset().insert(v));
        }
    } else {
        let n = before.len() as int;
        assert(after =~= before.push(after[n]));
        lemma_all_values_push(before, after[n]);
        assert(after[n].1.values@ == seq![v]);
        assert(seq![v] =~= Seq::<MetricValue>::empty().push(v));
        assert(Seq::<MetricValue>::empty().to_multiset() =~= Multiset::empty());
    }
    assert(all_values(after) =~= all_values(before).insert(v));
}

/// One thread's pre-aggregations, keyed by call site and tag values.
///
/// The same metric emitted from two call sites has two entries here; they are
/// collapsed when merged into [`Aggregations`].
#[derive(Debug)]
pub struct PreAggregations {
    counters: Vec<(MetricKey, MetricValue)>,
    gauges: Vec<(MetricKey, AggregatedGauge)>,
    distributions: Vec<(MetricKey, PreciseAggregatedDistribution)>,
}

/// A new gauge entry is the initial gauge after observing the value.
pub open spec fn gauge_observe_fresh<F: Fn(ValueOp, MetricValue, MetricValue) -> MetricValue>(
    op: F,
) -> spec_fn(MetricValue, AggregatedGauge) -> bool {
    |v: MetricValue, g: AggregatedGauge| gauge_observed(op, gauge_init(), v, g)
}

/// A gauge entry observes the value.
pub open spec fn gauge_observe_step<F: Fn(ValueOp, MetricValue, MetricValue) -> MetricValue>(
    op: F,
) -> spec_fn(AggregatedGauge, MetricValue, AggregatedGauge) -> bool {
    |g: AggregatedGauge, v: MetricValue, g2: AggregatedGauge| gauge_observed(op, g, v, g2)
}

/// A new distribution entry holds just the value.
pub open spec fn distribution_observe_fresh() -> spec_fn(MetricValue, PreciseAggregatedDistribution) -> bool {
    |v: MetricValue, d: PreciseAggregatedDistribution| d.values@ == seq![v]
}

/// A distribution entry appends the value.
pub open spec fn distribution_observe_step() -> spec_fn(
    PreciseAggregatedDistribution,
    MetricValue,
    PreciseAggregatedDistribution,
) -> bool {
    |d: PreciseAggregatedDistribution, v: MetricValue, d2: PreciseAggregatedDistribution|
        d2.values@ == d.values@.push(v)
}

/// The value a counter entry starts from.
pub open spec fn counter_fresh<F: Fn(ValueOp, MetricValue, MetricValue) -> MetricValue>(
    op: F,
    v: MetricValue,
    r: MetricValue,
) -> bool {
    op.ensures((ValueOp::Sum, MetricValue::spec_from_bits(0), v), r)
}

impl PreAggregations {
    pub closed spec fn spec_counters(&self) -> Seq<(MetricKey, MetricValue)> {
        self.counters@
    }

    pub closed spec fn spec_gauges(&self) -> Seq<(MetricKey, AggregatedGauge)> {
        self.gauges@
    }

    pub closed spec fn spec_distributions(&self) -> Seq<(MetricKey, PreciseAggregatedDistribution)> {
        self.distributions@
    }

    /// Within each kind, no two entries share a call site and tag values.
    pub open spec fn wf(&self) -> bool {
        &&& ids_unique(self.spec_counters(), |k: MetricKey| local_id_of(k))
        &&& ids_unique(self.spec_gauges(), |k: MetricKey| local_id_of(k))
        &&& ids_unique(self.spec_distributions(), |k: MetricKey| local_id_of(k))
    }

    /// No entries at all.
    pub open spec fn is_empty(&self) -> bool {
        &&& self.spec_counters().len() == 0
        &&& self.spec_gauges().len() == 0
        &&& self.spec_distributions().len() == 0
    }

    /// Empty pre-aggregations.
    pub fn new() -> (r: PreAggregations)
        ensures
            r.wf(),
            r.is_empty(),
    {
        PreAggregations { counters: Vec::new(), gauges: Vec::new(), distributions: Vec::new() }
    }

    /// The number of counter entries.
    pub fn counter_len(&self) -> (r: usize)
        ensures
            r == self.spec_counters().len(),
    {
        self.counters.len()
    }

    /// The number of gauge entries.
    pub fn gauge_len(&self) -> (r: usize)
        ensures
            r == self.spec_gauges().len(),
    {
        self.gauges.len()
    }

    /// The number of distribution entries.
    pub fn distribution_len(&self) -> (r: usize)
        ensures
            r == self.spec_distributions().len(),
    {
        self.distributions.len()
    }

    /// Adds one emitted metric: a counter is summed, a gauge observes the value,
    /// and a distribution, timer or histogram appends it.
    pub fn add_metric<F: Fn(ValueOp, MetricValue, MetricValue) -> MetricValue>(
        &mut self,
        metric: Metric,
        op: &F,
    )
        requires
            old(self).wf(),
            op_total(*op),
        ensures
            final(self).wf(),
            ({
                let key = metric.spec_key();
                let v = metric.spec_value();
                let ty = key.spec_meta().spec_ty();
                if ty is Counter {
                    &&& upserted(
                        old(self).spec_counters(),
                        final(self).spec_counters(),
                        |k: MetricKey| local_id_of(k),
                        key,
                        v,
                        counter_merge_fresh(*op),
                        counter_merge_step(*op),
                    )
                    &&& final(self).spec_gauges() == old(self).spec_gauges()
                    &&& final(self).spec_distributions() == old(self).spec_distributions()
                } else if ty is Gauge {
                    &&& upserted(
                        old(self).spec_gauges(),
                        final(self).spec_gauges(),
                        |k: MetricKey| local_id_of(k),
                        key,
                        v,
                        gauge_observe_fresh(*op),
                        gauge_observe_step(*op),
                    )
                    &&& final(self).spec_counters() == old(self).spec_counters()
                    &&& final(self).spec_distributions() == old(self).spec_distributions()
                } else {
                    &&& upserted(
                        old(self).spec_distributions(),
                        final(self).spec_distributions(),
                        |k: MetricKey| local_id_of(k),
                        key,
                        v,
                        distribution_observe_fresh(),
                        distribution_observe_step(),
                    )
                    &&& final(self).spec_counters() == old(self).spec_counters()
                    &&& final(self).spec_gauges() == old(self).spec_gauges()
                }
            }),
    {
        let ty = metric.ty();
        let (key, v) = metric.into_parts();
        let ghost lid = |k: MetricKey| local_id_of(k);
        match ty {
            MetricType::Counter => {
                let ghost before = self.counters@;
                match find_local(&self.counters, &key) {
                    Some(i) => {
                        proof {
                            lemma_unique_choice(before, lid, key.local_id(), i as int);
                        }
                        let sum = op(ValueOp::Sum, self.counters[i].1, v);
                        let entry = &mut self.counters[i];
                        entry.1 = sum;
                    },
                    None => {
                        let sum = op(ValueOp::Sum, MetricValue::zero(), v);
                        self.counters.push((key, sum));
                        assert(self.counters@.subrange(0, before.len() as int) =~= before);
                    },
                }
                proof {
                    lemma_upserted_unique(
                        before,
                        self.counters@,
                        lid,
                        key,
                        v,
                        counter_merge_fresh(*op),
                        counter_merge_step(*op),
                    );
                }
            },
            MetricType::Gauge => {
                let ghost before = self.gauges@;
                match find_local(&self.gauges, &key) {
                    Some(i) => {
                        proof {
                            lemma_unique_choice(before, lid, key.local_id(), i as int);
                        }
                        let entry = &mut self.gauges[i];
                        entry.1.observe(v, op);
                    },
                    None => {
                        let mut g = AggregatedGauge::new();
                        g.observe(v, op);
                        self.gauges.push((key, g));
                        assert(self.gauges@.subrange(0, before.len() as int) =~= before);
                    },
                }
                proof {
                    lemma_upserted_unique(
                        before,
                        self.gauges@,
                        lid,
                        key,
                        v,
                        gauge_observe_fresh(*op),
                        gauge_observe_step(*op),
                    );
                }
            },
            _ => {
                let ghost before = self.distributions@;
                match find_local(&self.distributions, &key) {
                    Some(i) => {
                        proof {
                            lemma_unique_choice(before, lid, key.local_id(), i as int);
                        }
                        let entry = &mut self.distributions[i];
                        entry.1.values.push(v);
                    },
                    None => {
                        let mut d = PreciseAggregatedDistribution::new();
                        d.values.push(v);
                        assert(d.values@ =~= seq![v]);
                        self.distributions.push((key, d));
                        assert(self.distributions@.subrange(0, before.len() as int) =~= before);
                    },
                }
                proof {
                    lemma_upserted_unique(
                        before,
                        self.distributions@,
                        lid,
                        key,
                        v,
                        distribution_observe_fresh(),
                        distribution_observe_step(),
                    );
                }
            },
        }
    }
}

/// Moves every element out of `v` into a new vector, last element first.
fn drain_reversed<T>(v: &mut Vec<T>) -> (r: Vec<T>)
    ensures
        final(v)@.len() == 0,
        r@.len() == old(v)@.len(),
        forall|j: int| 0 <= j < r@.len() ==> #[trigger] r@[j] == old(v)@[old(v)@.len() - 1 - j],
{
    let ghost items = v@;
    let ghost n = items.len() as int;
    let mut r: Vec<T> = Vec::new();
    while v.len() > 0
        invariant
            items.len() == n,
            v@ =~= items.subrange(0, v@.len() as int),
            v@.len() <= n,
            r@.len() == n - v@.len(),
            forall|j: int| 0 <= j < r@.len() ==> #[trigger] r@[j] == items[n - 1 - j],
        decreases v@.len(),
    {
        let item = v.pop().unwrap();
        r.push(item);
    }
    r
}

/// The final aggregations: every metric once, keyed by descriptor fields and tag values.
#[derive(Debug)]
pub struct Aggregations {
    /// The aggregated counters.
    pub counters: Vec<(AggregatedMetric, MetricValue)>,
    /// The aggregated gauges.
    pub gauges: Vec<(AggregatedMetric, AggregatedGauge)>,
    /// The aggregated distributions, timers and histograms.
    pub distributions: Vec<(AggregatedMetric, PreciseAggregatedDistribution)>,
}

/// A merged counter starts from zero plus the partial sum.
pub open spec fn counter_merge_fresh<F: Fn(ValueOp, MetricValue, MetricValue) -> MetricValue>(
    op: F,
) -> spec_fn(MetricValue, MetricValue) -> bool {
    |o: MetricValue, w: MetricValue| counter_fresh(op, o, w)
}

/// A merged counter adds the partial sum.
pub open spec fn counter_merge_step<F: Fn(ValueOp, MetricValue, MetricValue) -> MetricValue>(
    op: F,
) -> spec_fn(MetricValue, MetricValue, MetricValue) -> bool {
    |w: MetricValue, o: MetricValue, w2: MetricValue| op.ensures((ValueOp::Sum, w, o), w2)
}

/// A merged gauge starts from the initial gauge combined with the partial one.
pub open spec fn gauge_merge_fresh<F: Fn(ValueOp, MetricValue, MetricValue) -> MetricValue>(
    op: F,
) -> spec_fn(AggregatedGauge, AggregatedGauge) -> bool {
    |o: AggregatedGauge, g: AggregatedGauge| gauge_combined(op, gauge_init(), o, g)
}

/// A merged gauge combines the partial one in.
pub open spec fn gauge_merge_step<F: Fn(ValueOp, MetricValue, MetricValue) -> MetricValue>(
    op: F,
) -> spec_fn(AggregatedGauge, AggregatedGauge, AggregatedGauge) -> bool {
    |g: AggregatedGauge, o: AggregatedGauge, g2: AggregatedGauge| gauge_combined(op, g, o, g2)
}

/// A merged distribution starts with the partial one's values.
pub open spec fn distribution_merge_fresh() -> spec_fn(
    PreciseAggregatedDistribution,
    PreciseAggregatedDistribution,
) -> bool {
    |o: PreciseAggregatedDistribution, d: PreciseAggregatedDistribution| d.values@ == o.values@
}

/// A merged distribution appends the partial one's values.
pub open spec fn distribution_merge_step() -> spec_fn(
    PreciseAggregatedDistribution,
    PreciseAggregatedDistribution,
    PreciseAggregatedDistribution,
) -> bool {
    |d: PreciseAggregatedDistribution, o: PreciseAggregatedDistribution, d2: PreciseAggregatedDistribution|
        d2.values@ == d.values@ + o.values@
}

impl Aggregations {
    /// Within each kind, every metric appears once.
    pub open spec fn wf(&self) -> bool {
        &&& ids_unique(self.counters@, |k: AggregatedMetric| canonical_id_of(k))
        &&& ids_unique(self.gauges@, |k: AggregatedMetric| canonical_id_of(k))
        &&& ids_unique(self.distributions@, |k: AggregatedMetric| canonical_id_of(k))
    }

    /// Empty aggregations.
    pub fn new() -> (r: Aggregations)
        ensures
            r.wf(),
            r.counters@.len() == 0,
            r.gauges@.len() == 0,
            r.distributions@.len() == 0,
    {
        Aggregations { counters: Vec::new(), gauges: Vec::new(), distributions: Vec::new() }
    }

    /// Drains one thread's pre-aggregations into these aggregations, collapsing
    /// entries of the same metric from different call sites: counters are summed,
    /// gauges combined (`last` from the entry merged last), distributions appended.
    pub fn merge_aggregations<F: Fn(ValueOp, MetricValue, MetricValue) -> MetricValue>(
        &mut self,
        other: &mut PreAggregations,
        op: &F,
    )
        requires
            old(self).wf(),
            op_total(*op),
        ensures
            final(self).wf(),
            final(other).wf(),
            final(other).is_empty(),
            merged(
                old(self).counters@,
                old(other).spec_counters(),
                final(self).counters@,
                |k: AggregatedMetric| canonical_id_of(k),
                |k: MetricKey| aggregated_from(k),
                counter_merge_fresh(*op),
                counter_merge_step(*op),
            ),
            merged(
                old(self).gauges@,
                old(other).spec_gauges(),
                final(self).gauges@,
                |k: AggregatedMetric| canonical_id_of(k),
                |k: MetricKey| aggregated_from(k),
                gauge_merge_fresh(*op),
                gauge_merge_step(*op),
            ),
            merged(
                old(self).distributions@,
                old(other).spec_distributions(),
                final(self).distributions@,
                |k: AggregatedMetric| canonical_id_of(k),
                |k: MetricKey| aggregated_from(k),
                distribution_merge_fresh(),
                distribution_merge_step(),
            ),
    {
        Self::merge_counters(&mut self.counters, &mut other.counters, op);
        Self::merge_gauges(&mut self.gauges, &mut other.gauges, op);
        Self::merge_distributions(&mut self.distributions, &mut other.distributions);
    }

    /// Drains one kind of pre-aggregated entries into these aggregations, in order.
    fn merge_counters<F: Fn(ValueOp, MetricValue, MetricValue) -> MetricValue>(
        target: &mut Vec<(AggregatedMetric, MetricValue)>,
        other: &mut Vec<(MetricKey, MetricValue)>,
        op: &F,
    )
        requires
            ids_unique(old(target)@, |k: AggregatedMetric| canonical_id_of(k)),
            op_total(*op),
        ensures
            ids_unique(final(target)@, |k: AggregatedMetric| canonical_id_of(k)),
            final(other)@.len() == 0,
            merged(
                old(target)@,
                old(other)@,
                final(target)@,
                |k: AggregatedMetric| canonical_id_of(k),
                |k: MetricKey| aggregated_from(k),
                counter_merge_fresh(*op),
                counter_merge_step(*op),
            ),
    {
        let ghost cid = |k: AggregatedMetric| canonical_id_of(k);
        let ghost conv = |k: MetricKey| aggregated_from(k);
        let ghost fresh = counter_merge_fresh(*op);
        let ghost step = counter_merge_step(*op);
        let ghost start = target@;
        let ghost items = other@;
        let ghost n = items.len() as int;
        let mut pending = drain_reversed(other);
        let ghost mut trace: Seq<Seq<(AggregatedMetric, MetricValue)>> = seq![start];
        while pending.len() > 0
            invariant
                op_total(*op),
                cid == (|k: AggregatedMetric| canonical_id_of(k)),
                conv == (|k: MetricKey| aggregated_from(k)),
                fresh == counter_merge_fresh(*op),
                step == counter_merge_step(*op),
                items.len() == n,
                pending@.len() <= n,
                forall|j: int| 0 <= j < pending@.len() ==> #[trigger] pending@[j] == items[n - 1 - j],
                ids_unique(target@, cid),
                merge_trace(trace, start, items.subrange(0, n - pending@.len()), target@, cid, conv, fresh, step),
            decreases pending@.len(),
        {
            let ghost m = pending@.len() as int;
            let ghost mid = target@;
            let (key, value) = pending.pop().unwrap();
            let key = AggregatedMetric::from_key(key);
            match find_canonical(target, &key) {
                Some(i) => {
                    proof {
                        lemma_unique_choice(mid, cid, key.canonical_id(), i as int);
                    }
                    let sum = op(ValueOp::Sum, target[i].1, value);
                    let entry = &mut target[i];
                    entry.1 = sum;
                },
                None => {
                    let sum = op(ValueOp::Sum, MetricValue::zero(), value);
                    target.push((key, sum));
                    assert(target@.subrange(0, mid.len() as int) =~= mid);
                },
            }
            proof {
                let done = items.subrange(0, n - m + 1);
                let prev = items.subrange(0, n - m);
                assert(done[n - m] == items[n - m]);
                assert(upserted(mid, target@, cid, conv(done[n - m].0), done[n - m].1, fresh, step));
                lemma_upserted_unique(mid, target@, cid, conv(done[n - m].0), done[n - m].1, fresh, step);
                let old_trace = trace;
                trace = old_trace.push(target@);
                assert forall|j: int| #![trigger done[j]] 0 <= j < done.len() implies upserted(trace[j], trace[j + 1], cid, conv(done[j].0), done[j].1, fresh, step) by {
                    if j < n - m {
                        assert(done[j] == prev[j]);
                    }
                }
            }
        }
        assert(items.subrange(0, n) =~= items);
        assert(merge_trace(trace, start, items, target@, cid, conv, fresh, step));
    }

    /// Drains one kind of pre-aggregated entries into these aggregations, in order.
    fn merge_gauges<F: Fn(ValueOp, MetricValue, MetricValue) -> MetricValue>(
        target: &mut Vec<(AggregatedMetric, AggregatedGauge)>,
        other: &mut Vec<(MetricKey, AggregatedGauge)>,
        op: &F,
    )
        requires
            ids_unique(old(target)@, |k: AggregatedMetric| canonical_id_of(k)),
            op_total(*op),
        ensures
            ids_unique(final(target)@, |k: AggregatedMetric| canonical_id_of(k)),
            final(other)@.len() == 0,
            merged(
                old(target)@,
                old(other)@,
                final(target)@,
                |k: AggregatedMetric| canonical_id_of(k),
                |k: MetricKey| aggregated_from(k),
                gauge_merge_fresh(*op),
                gauge_merge_step(*op),
            ),
    {
        let ghost cid = |k: AggregatedMetric| canonical_id_of(k);
        let ghost conv = |k: MetricKey| aggregated_from(k);
        let ghost fresh = gauge_merge_fresh(*op);
        let ghost step = gauge_merge_step(*op);
        let ghost start = target@;
        let ghost items = other@;
        let ghost n = items.len() as int;
        let mut pending = drain_reversed(other);
        let ghost mut trace: Seq<Seq<(AggregatedMetric, AggregatedGauge)>> = seq![start];
        while pending.len() > 0
            invariant
                op_total(*op),
                cid == (|k: AggregatedMetric| canonical_id_of(k)),
                conv == (|k: MetricKey| aggregated_from(k)),
                fresh == gauge_merge_fresh(*op),
                step == gauge_merge_step(*op),
                items.len() == n,
                pending@.len() <= n,
                forall|j: int| 0 <= j < pending@.len() ==> #[trigger] pending@[j] == items[n - 1 - j],
                ids_unique(target@, cid),
                merge_trace(trace, start, items.subrange(0, n - pending@.len()), target@, cid, conv, fresh, step),
            decreases pending@.len(),
        {
            let ghost m = pending@.len() as int;
            let ghost mid = target@;
            let (key, value) = pending.pop().unwrap();
            let key = AggregatedMetric::from_key(key);
            match find_canonical(target, &key) {
                Some(i) => {
                    proof {
                        lemma_unique_choice(mid, cid, key.canonical_id(), i as int);
                    }
                    let entry = &mut target[i];
                    entry.1.combine(&value, op);
                },
                None => {
                    let mut g = AggregatedGauge::new();
                    g.combine(&value, op);
                    target.push((key, g));
                    assert(target@.subrange(0, mid.len() as int) =~= mid);
                },
            }
            proof {
                let done = items.subrange(0, n - m + 1);
                let prev = items.subrange(0, n - m);
                assert(done[n - m] == items[n - m]);
                assert(upserted(mid, target@, cid, conv(done[n - m].0), done[n - m].1, fresh, step));
                lemma_upserted_unique(mid, target@, cid, conv(done[n - m].0), done[n - m].1, fresh, step);
                let old_trace = trace;
                trace = old_trace.push(target@);
                assert forall|j: int| #![trigger done[j]] 0 <= j < done.len() implies upserted(trace[j], trace[j + 1], cid, conv(done[j].0), done[j].1, fresh, step) by {
                    if j < n - m {
                        assert(done[j] == prev[j]);
                    }
                }
            }
        }
        assert(items.subrange(0, n) =~= items);
        assert(merge_trace(trace, start, items, target@, cid, conv, fresh, step));
    }

    /// Drains one kind of pre-aggregated entries into these aggregations, in order.
    fn merge_distributions(
        target: &mut Vec<(AggregatedMetric, PreciseAggregatedDistribution)>,
        other: &mut Vec<(MetricKey, PreciseAggregatedDistribution)>,
    )
        requires
            ids_unique(old(target)@, |k: AggregatedMetric| canonical_id_of(k)),
        ensures
            ids_unique(final(target)@, |k: AggregatedMetric| canonical_id_of(k)),
            final(other)@.len() == 0,
            merged(
                old(target)@,
                old(other)@,
                final(target)@,
                |k: AggregatedMetric| canonical_id_of(k),
                |k: MetricKey| aggregated_from(k),
                distribution_merge_fresh(),
                distribution_merge_step(),
            ),
    {
        let ghost cid = |k: AggregatedMetric| canonical_id_of(k);
        let ghost conv = |k: MetricKey| aggregated_from(k);
        let ghost fresh = distribution_merge_fresh();
        let ghost step = distribution_merge_step();
        let ghost start = target@;
        let ghost items = other@;
        let ghost n = items.len() as int;
        let mut pending = drain_reversed(other);
        let ghost mut trace: Seq<Seq<(AggregatedMetric, PreciseAggregatedDistribution)>> = seq![start];
        while pending.len() > 0
            invariant
                cid == (|k: AggregatedMetric| canonical_id_of(k)),
                conv == (|k: MetricKey| aggregated_from(k)),
                fresh == distribution_merge_fresh(),
                step == distribution_merge_step(),
                items.len() == n,
                pending@.len() <= n,
                forall|j: int| 0 <= j < pending@.len() ==> #[trigger] pending@[j] == items[n - 1 - j],
                ids_unique(target@, cid),
                merge_trace(trace, start, items.subrange(0, n - pending@.len()), target@, cid, conv, fresh, step),
            decreases pending@.len(),
        {
            let ghost m = pending@.len() as int;
            let ghost mid = target@;
            let (key, value) = pending.pop().unwrap();
            let key = AggregatedMetric::from_key(key);
            match find_canonical(target, &key) {
                Some(i) => {
                    proof {
                        lemma_unique_choice(mid, cid, key.canonical_id(), i as int);
                    }
                    let mut value = value;
                    let entry = &mut target[i];
                    entry.1.values.append(&mut value.values);
                },
                None => {
                    target.push((key, value));
                    assert(target@.subrange(0, mid.len() as int) =~= mid);
                },
            }
            proof {
                let done = items.subrange(0, n - m + 1);
                let prev = items.subrange(0, n - m);
                assert(done[n - m] == items[n - m]);
                assert(upserted(mid, target@, cid, conv(done[n - m].0), done[n - m].1, fresh, step));
                lemma_upserted_unique(mid, target@, cid, conv(done[n - m].0), done[n - m].1, fresh, step);
                let old_trace = trace;
                trace = old_trace.push(target@);
                assert forall|j: int| #![trigger done[j]] 0 <= j < done.len() implies upserted(trace[j], trace[j + 1], cid, conv(done[j].0), done[j].1, fresh, step) by {
                    if j < n - m {
                        assert(done[j] == prev[j]);
                    }
                }
            }
        }
        assert(items.subrange(0, n) =~= items);
        assert(merge_trace(trace, start, items, target@, cid, conv, fresh, step));
    }
}

} // verus!
