use crate::tags::{record_tags, strs_view, tag_values_view, TagValue, TagValues};
use crate::text::str_equal;
use crate::types::{MetricType, MetricUnit, MetricValue};
use vstd::prelude::*;
use vstd::string::StringSliceAdditionalSpecFns;

verus! {

/// Where a metric is declared in the source.
#[derive(Debug, Clone, Copy)]
pub struct Location<'a> {
    file: &'a str,
    line: u32,
    module: &'a str,
}

impl<'a> Location<'a> {
    pub closed spec fn spec_file(&self) -> &'a str {
        self.file
    }

    pub closed spec fn spec_line(&self) -> u32 {
        self.line
    }

    pub closed spec fn spec_module(&self) -> &'a str {
        self.module
    }

    /// A location in `file` at `line`, inside module `module`.
    pub fn new(file: &'a str, line: u32, module: &'a str) -> (r: Location<'a>)
        ensures
            r.spec_file() == file,
            r.spec_line() == line,
            r.spec_module() == module,
    {
        Location { file, line, module }
    }

    /// The source file.
    pub fn file(&self) -> (r: &'a str)
        ensures
            r == self.spec_file(),
    {
        self.file
    }

    /// The line in the source file.
    pub fn line(&self) -> (r: u32)
        ensures
            r == self.spec_line(),
    {
        self.line
    }

    /// The module path.
    pub fn module(&self) -> (r: &'a str)
        ensures
            r == self.spec_module(),
    {
        self.module
    }
}

/// The metadata of one metric: its type, unit, name and declared tag keys.
///
/// Descriptors are meant to be created once per call site and kept for the
/// whole process.
#[derive(Debug, Clone, Copy)]
pub struct MetricMeta {
    ty: MetricType,
    unit: MetricUnit,
    key: &'static str,
    location: Option<&'static Location<'static>>,
    tag_keys: &'static [&'static str],
}

/// A descriptor as a value: type, unit, name bytes and the bytes of each tag key.
pub type MetaModel = (MetricType, MetricUnit, Seq<u8>, Seq<Seq<u8>>);

impl MetricMeta {
    pub closed spec fn spec_ty(&self) -> MetricType {
        self.ty
    }

    pub closed spec fn spec_unit(&self) -> MetricUnit {
        self.unit
    }

    /// The name of the metric.
    pub closed spec fn spec_key(&self) -> &'static str {
        self.key
    }

    /// Where the metric is declared, if known.
    pub closed spec fn spec_location(&self) -> Option<&'static Location<'static>> {
        self.location
    }

    /// The declared tag keys, in order.
    pub closed spec fn spec_tag_keys(&self) -> Seq<&'static str> {
        self.tag_keys@
    }

    /// The descriptor's field values, by which descriptors compare.
    pub open spec fn model(&self) -> MetaModel {
        (self.spec_ty(), self.spec_unit(), self.spec_key().spec_bytes(), strs_view(self.spec_tag_keys()))
    }

    /// Creates a descriptor without tags.
    pub fn new(ty: MetricType, unit: MetricUnit, key: &'static str) -> (r: MetricMeta)
        ensures
            r.spec_ty() == ty,
            r.spec_unit() == unit,
            r.spec_key() == key,
            r.spec_location() is None,
            r.spec_tag_keys().len() == 0,
    {
        MetricMeta { ty, unit, key, location: None, tag_keys: &[] }
    }

    /// Records where the metric is declared; the location is not part of the
    /// field values that descriptors compare by.
    pub fn with_location(self, location: &'static Location<'static>) -> (r: MetricMeta)
        ensures
            r.spec_ty() == self.spec_ty(),
            r.spec_unit() == self.spec_unit(),
            r.spec_key() == self.spec_key(),
            r.spec_location() == Some(location),
            r.spec_tag_keys() == self.spec_tag_keys(),
            r.model() == self.model(),
    {
        MetricMeta { location: Some(location), ..self }
    }

    /// Where the metric is declared, if known.
    pub fn location(&self) -> (r: Option<&'static Location<'static>>)
        ensures
            r == self.spec_location(),
    {
        self.location
    }

    /// Declares the tag keys, turning this into a descriptor for exactly `N` tag values.
    pub fn with_tags<const N: usize>(self, tag_keys: &'static [&'static str; N]) -> (r:
        TaggedMetricMeta<N>)
        ensures
            r.spec_meta().spec_ty() == self.spec_ty(),
            r.spec_meta().spec_unit() == self.spec_unit(),
            r.spec_meta().spec_key() == self.spec_key(),
            r.spec_meta().spec_location() == self.spec_location(),
            r.spec_meta().spec_tag_keys() == tag_keys@,
    {
        let keys: &'static [&'static str] = tag_keys.as_slice();
        TaggedMetricMeta { meta: MetricMeta { tag_keys: keys, ..self } }
    }

    /// The metric's type.
    pub fn ty(&self) -> (r: MetricType)
        ensures
            r == self.spec_ty(),
    {
        self.ty
    }

    /// The metric's unit.
    pub fn unit(&self) -> (r: MetricUnit)
        ensures
            r == self.spec_unit(),
    {
        self.unit
    }

    /// The name of the metric.
    pub fn key(&self) -> (r: &'static str)
        ensures
            r == self.spec_key(),
    {
        self.key
    }

    /// The declared tag keys.
    pub fn tag_keys(&self) -> (r: &'static [&'static str])
        ensures
            r@ == self.spec_tag_keys(),
    {
        self.tag_keys
    }

    /// The factor that a duration in seconds is scaled by when recorded: a timer
    /// without a unit records milliseconds, every other metric seconds.
    pub fn duration_scale(&self) -> (r: u64)
        ensures
            r == (if self.spec_ty() is Timer && self.spec_unit() is Unknown { 1000u64 } else { 1u64 }),
    {
        match (self.ty, self.unit) {
            (MetricType::Timer, MetricUnit::Unknown) => 1000,
            _ => 1,
        }
    }

    /// Compares two descriptors by their field values.
    pub fn same_as(&self, other: &MetricMeta) -> (r: bool)
        ensures
            r == (self.model() == other.model()),
    {
        if self.ty != other.ty || self.unit != other.unit || !str_equal(self.key, other.key) {
            return false;
        }
        let n = self.tag_keys.len();
        if n != other.tag_keys.len() {
            assert(strs_view(self.spec_tag_keys()).len() != strs_view(other.spec_tag_keys()).len());
            return false;
        }
        let mut i: usize = 0;
        while i < n
            invariant
                n == self.tag_keys@.len(),
                n == other.tag_keys@.len(),
                i <= n,
                forall|j: int|
                    0 <= j < i ==> self.tag_keys@[j].spec_bytes() == other.tag_keys@[j].spec_bytes(),
            decreases n - i,
        {
            if !str_equal(self.tag_keys[i], other.tag_keys[i]) {
                assert(strs_view(self.spec_tag_keys())[i as int] != strs_view(
                    other.spec_tag_keys(),
                )[i as int]);
                return false;
            }
            i = i + 1;
        }
        assert(strs_view(self.spec_tag_keys()) =~= strs_view(other.spec_tag_keys()));
        true
    }
}

/// A descriptor that declares exactly `N` tag keys.
#[derive(Debug)]
pub struct TaggedMetricMeta<const N: usize> {
    meta: MetricMeta,
}

impl<const N: usize> TaggedMetricMeta<N> {
    pub closed spec fn spec_meta(&self) -> MetricMeta {
        self.meta
    }

    /// The underlying descriptor.
    pub fn meta(&self) -> (r: &MetricMeta)
        ensures
            *r == self.spec_meta(),
    {
        &self.meta
    }
}

/// A descriptor that declares exactly `N` tag keys.
pub type TaggedMetric<const N: usize> = TaggedMetricMeta<N>;

/// The key of one emission: the descriptor, the call site that emitted it, and
/// the captured tag values.
///
/// The call site identifies the descriptor cheaply: every emission from one call
/// site carries the same site and the same descriptor.
#[derive(Debug)]
pub struct MetricKey {
    meta: &'static MetricMeta,
    site: usize,
    tag_values: TagValues,
}

/// The identity of a key within one thread's pre-aggregation: call site and tag values.
pub type LocalId = (usize, Seq<Seq<u8>>);

/// The identity of a key after merging: descriptor field values and tag values.
pub type CanonicalId = (MetaModel, Seq<Seq<u8>>);

impl MetricKey {
    pub closed spec fn spec_meta(&self) -> MetricMeta {
        *self.meta
    }

    pub closed spec fn spec_site(&self) -> usize {
        self.site
    }

    /// The captured tag values themselves.
    pub closed spec fn spec_raw_tag_values(&self) -> TagValues {
        self.tag_values
    }

    /// The bytes of the tag values, in order.
    pub closed spec fn spec_tag_values(&self) -> Seq<Seq<u8>> {
        tag_values_view(self.tag_values)
    }

    /// The raw tag values are what the tag-value view reads.
    pub proof fn lemma_raw_tag_values(&self)
        ensures
            tag_values_view(self.spec_raw_tag_values()) == self.spec_tag_values(),
    {
    }

    pub open spec fn local_id(&self) -> LocalId {
        (self.spec_site(), self.spec_tag_values())
    }

    pub open spec fn canonical_id(&self) -> CanonicalId {
        (self.spec_meta().model(), self.spec_tag_values())
    }

    /// Captures the tag values of one emission of `meta` from call site `site`.
    pub fn new(meta: &'static MetricMeta, site: usize, tag_values: &[&str]) -> (r: MetricKey)
        ensures
            r.spec_meta() == *meta,
            r.spec_site() == site,
            r.spec_tag_values() == strs_view(tag_values@),
    {
        MetricKey { meta, site, tag_values: record_tags(tag_values) }
    }

    /// The key of one emission of `meta` from call site `site`, with tag values
    /// captured already.
    pub fn from_captured(meta: &'static MetricMeta, site: usize, tag_values: TagValues) -> (r: MetricKey)
        ensures
            r.spec_meta() == *meta,
            r.spec_site() == site,
            r.spec_tag_values() == tag_values_view(tag_values),
    {
        MetricKey { meta, site, tag_values }
    }

    /// Splits the key into its descriptor and its captured tag values.
    pub fn into_parts(self) -> (r: (&'static MetricMeta, TagValues))
        ensures
            *r.0 == self.spec_meta(),
            r.1 == self.spec_raw_tag_values(),
            tag_values_view(r.1) == self.spec_tag_values(),
    {
        (self.meta, self.tag_values)
    }

    /// The descriptor.
    pub fn meta(&self) -> (r: &'static MetricMeta)
        ensures
            *r == self.spec_meta(),
    {
        self.meta
    }

    /// The call site that emitted this key.
    pub fn site(&self) -> (r: usize)
        ensures
            r == self.spec_site(),
    {
        self.site
    }

    /// The metric's type.
    pub fn ty(&self) -> (r: MetricType)
        ensures
            r == self.spec_meta().spec_ty(),
    {
        self.meta.ty()
    }

    /// The metric's unit.
    pub fn unit(&self) -> (r: MetricUnit)
        ensures
            r == self.spec_meta().spec_unit(),
    {
        self.meta.unit()
    }

    /// The name of the metric.
    pub fn key(&self) -> (r: &'static str)
        ensures
            r == self.spec_meta().spec_key(),
    {
        self.meta.key()
    }

    /// The tag keys paired by position with the captured tag values.
    pub fn tags(&self) -> (r: Vec<(&'static str, &str)>)
        ensures
            pairs_match(r@, self.spec_meta().spec_tag_keys(), self.spec_tag_values()),
    {
        tag_pairs(self.meta.tag_keys(), &self.tag_values)
    }

    /// Whether two keys are the same within one thread: same call site, same tag values.
    pub fn same_local(&self, other: &MetricKey) -> (r: bool)
        ensures
            r == (self.local_id() == other.local_id()),
    {
        self.site == other.site && tag_values_equal(&self.tag_values, &other.tag_values)
    }

    /// Whether two keys denote the same metric: equal descriptor fields, same tag values.
    pub fn same_canonical(&self, other: &MetricKey) -> (r: bool)
        ensures
            r == (self.canonical_id() == other.canonical_id()),
    {
        self.meta.same_as(other.meta) && tag_values_equal(&self.tag_values, &other.tag_values)
    }
}

/// `pairs` zips `keys` with `values`: as long as the shorter, each pair taken by position.
pub open spec fn pairs_match(pairs: Seq<(&str, &str)>, keys: Seq<&str>, values: Seq<Seq<u8>>) -> bool {
    &&& pairs.len() == if keys.len() < values.len() { keys.len() } else { values.len() }
    &&& forall|i: int|
        #![trigger pairs[i]]
        0 <= i < pairs.len() ==> pairs[i].0 == keys[i] && pairs[i].1.spec_bytes() == values[i]
}

/// Zips tag keys with captured tag values.
pub fn tag_pairs<'a>(keys: &'static [&'static str], values: &'a TagValues) -> (r: Vec<
    (&'static str, &'a str),
>)
    ensures
        pairs_match(r@, keys@, tag_values_view(*values)),
{
    let mut r: Vec<(&'static str, &'a str)> = Vec::new();
    match values {
        None => {
            assert(tag_values_view(*values).len() == 0);
            r
        },
        Some(vs) => {
            let n = if keys.len() < vs.len() { keys.len() } else { vs.len() };
            let mut i: usize = 0;
            while i < n
                invariant
                    n <= keys@.len(),
                    n <= vs@.len(),
                    tag_values_view(*values) == vs@.map_values(|x: TagValue| x@),
                    n == if keys@.len() < vs@.len() { keys@.len() } else { vs@.len() },
                    i <= n,
                    r@.len() == i,
                    forall|j: int|
                        #![trigger r@[j]]
                        0 <= j < i ==> r@[j].0 == keys@[j] && r@[j].1.spec_bytes() == vs@[j]@,
                decreases n - i,
            {
                r.push((keys[i], vs[i].as_str()));
                i = i + 1;
            }
            assert forall|j: int| 0 <= j < r@.len() implies r@[j].1.spec_bytes()
                == tag_values_view(*values)[j] by {
                assert(vs@.map_values(|x: TagValue| x@)[j] == vs@[j]@);
            }
            r
        },
    }
}

/// Compares captured tag values by their bytes.
pub fn tag_values_equal(a: &TagValues, b: &TagValues) -> (r: bool)
    ensures
        r == (tag_values_view(*a) == tag_values_view(*b)),
{
    let empty: Vec<TagValue> = Vec::new();
    let va: &Vec<TagValue> = match a {
        Some(v) => v,
        None => &empty,
    };
    let vb: &Vec<TagValue> = match b {
        Some(v) => v,
        None => &empty,
    };
    assert(tag_values_view(*a) =~= va@.map_values(|x: TagValue| x@));
    assert(tag_values_view(*b) =~= vb@.map_values(|x: TagValue| x@));
    if va.len() != vb.len() {
        return false;
    }
    let mut i: usize = 0;
    while i < va.len()
        invariant
            va@.len() == vb@.len(),
            i <= va@.len(),
            tag_values_view(*a) == va@.map_values(|x: TagValue| x@),
            tag_values_view(*b) == vb@.map_values(|x: TagValue| x@),
            forall|j: int| 0 <= j < i ==> va@[j]@ == vb@[j]@,
        decreases va@.len() - i,
    {
        if !crate::text::bytes_equal(va[i].as_str().as_bytes(), vb[i].as_str().as_bytes()) {
            assert(va@.map_values(|x: TagValue| x@)[i as int] != vb@.map_values(|x: TagValue| x@)[i as int]);
            return false;
        }
        i = i + 1;
    }
    assert(va@.map_values(|x: TagValue| x@) =~= vb@.map_values(|x: TagValue| x@));
    true
}

/// One emitted metric: its key and its value.
#[derive(Debug)]
pub struct Metric {
    key: MetricKey,
    value: MetricValue,
}

impl Metric {
    pub closed spec fn spec_key(&self) -> MetricKey {
        self.key
    }

    pub closed spec fn spec_value(&self) -> MetricValue {
        self.value
    }

    /// Materialises one emission of `meta` from call site `site`.
    pub fn record(meta: &'static MetricMeta, site: usize, value: MetricValue, tag_values: &[&str]) -> (r:
        Metric)
        ensures
            r.spec_key().spec_meta() == *meta,
            r.spec_key().spec_site() == site,
            r.spec_key().spec_tag_values() == strs_view(tag_values@),
            r.spec_value() == value,
    {
        Metric { key: MetricKey::new(meta, site, tag_values), value }
    }

    /// The metric of `key` with `value`.
    pub fn new(key: MetricKey, value: MetricValue) -> (r: Metric)
        ensures
            r.spec_key() == key,
            r.spec_value() == value,
    {
        Metric { key, value }
    }

    /// The key of this metric.
    pub fn metric_key(&self) -> (r: &MetricKey)
        ensures
            *r == self.spec_key(),
    {
        &self.key
    }

    /// Splits the metric into its key and value.
    pub fn into_parts(self) -> (r: (MetricKey, MetricValue))
        ensures
            r.0 == self.spec_key(),
            r.1 == self.spec_value(),
    {
        (self.key, self.value)
    }

    /// The captured value.
    pub fn value(&self) -> (r: MetricValue)
        ensures
            r == self.spec_value(),
    {
        self.value
    }

    /// The metric's type.
    pub fn ty(&self) -> (r: MetricType)
        ensures
            r == self.spec_key().spec_meta().spec_ty(),
    {
        self.key.ty()
    }

    /// The metric's unit.
    pub fn unit(&self) -> (r: MetricUnit)
        ensures
            r == self.spec_key().spec_meta().spec_unit(),
    {
        self.key.unit()
    }

    /// The name of the metric.
    pub fn key(&self) -> (r: &'static str)
        ensures
            r == self.spec_key().spec_meta().spec_key(),
    {
        self.key.key()
    }

    /// The tag keys paired by position with the captured tag values.
    pub fn tags(&self) -> (r: Vec<(&'static str, &str)>)
        ensures
            pairs_match(
                r@,
                self.spec_key().spec_meta().spec_tag_keys(),
                self.spec_key().spec_tag_values(),
            ),
    {
        self.key.tags()
    }
}

} // verus!
