use crate::metric::Metric;
use crate::tags::tag_values_view;
use vstd::prelude::*;
use vstd::string::StrSliceExecFns;
use vstd::string::StringExecFns;
use vstd::string::StringSliceAdditionalSpecFns;
use vstd::utf8::decode_utf8;

verus! {

/// Where StatsD lines are sent.
pub trait MetricSink {
    /// Sends one line.
    fn emit(&self, metric: &str);
}

/// `s` without its trailing dots.
pub open spec fn trim_dots(s: Seq<char>) -> Seq<char>
    decreases s.len(),
{
    if s.len() > 0 && s.last() == '.' {
        trim_dots(s.drop_last())
    } else {
        s
    }
}

/// The prefix written before every name: empty, or the given prefix without
/// trailing dots followed by one dot.
pub open spec fn prefix_text(p: Seq<char>) -> Seq<char> {
    if p.len() == 0 {
        Seq::empty()
    } else {
        trim_dots(p) + seq!['.']
    }
}

/// One tag as written: `key:value`, or the value alone.
pub open spec fn tag_text(key: Option<Seq<char>>, value: Seq<char>) -> Seq<char> {
    match key {
        Some(k) => k + seq![':'] + value,
        None => value,
    }
}

/// `tags` with one more tag: the first opens the tag section with `|#`, the
/// others follow a comma.
pub open spec fn tags_with(tags: Seq<char>, tag: Seq<char>) -> Seq<char> {
    tags + (if tags.len() == 0 { seq!['|', '#'] } else { seq![','] }) + tag
}

/// The texts joined with commas.
pub open spec fn joined(ts: Seq<Seq<char>>) -> Seq<char>
    decreases ts.len(),
{
    if ts.len() == 0 {
        Seq::empty()
    } else if ts.len() == 1 {
        ts[0]
    } else {
        joined(ts.drop_last()) + seq![','] + ts.last()
    }
}

/// The `key:value` texts of a metric's tags, paired by position.
pub open spec fn metric_tag_texts(keys: Seq<&str>, values: Seq<Seq<u8>>) -> Seq<Seq<char>> {
    let n = if keys.len() < values.len() { keys.len() } else { values.len() };
    Seq::new(n, |i: int| tag_text(Some(keys[i]@), decode_utf8(values[i])))
}

/// One StatsD line: `{prefix}{name}:{value}|{type}`, then the recorder's tags,
/// then the metric's own tags, in one `|#` section separated by commas.
pub open spec fn statsd_line(
    prefix: Seq<char>,
    name: Seq<char>,
    value: Seq<char>,
    code: Seq<char>,
    global_tags: Seq<char>,
    metric_tags: Seq<Seq<char>>,
) -> Seq<char> {
    prefix + name + seq![':'] + value + seq!['|'] + code + global_tags + if metric_tags.len() == 0 {
        Seq::empty()
    } else {
        (if global_tags.len() == 0 { seq!['|', '#'] } else { seq![','] }) + joined(metric_tags)
    }
}

/// Formats metrics as StatsD lines and sends them to a [`MetricSink`].
pub struct StatsdRecorder<S> {
    prefix: String,
    sink: S,
    tags: String,
}

/// `s` without its trailing dots.
fn trim_trailing_dots(s: &str) -> (r: &str)
    ensures
        r@ == trim_dots(s@),
{
    let mut n = s.unicode_len();
    assert(s@.subrange(0, n as int) =~= s@);
    while n > 0 && s.get_char(n - 1) == '.'
        invariant
            n <= s@.len(),
            trim_dots(s@.subrange(0, n as int)) == trim_dots(s@),
        decreases n,
    {
        assert(s@.subrange(0, n as int).drop_last() =~= s@.subrange(0, n - 1));
        n = n - 1;
    }
    let r = s.substring_char(0, n);
    r
}

impl<S> StatsdRecorder<S> {
    pub closed spec fn spec_prefix(&self) -> Seq<char> {
        self.prefix@
    }

    pub closed spec fn spec_sink(&self) -> S {
        self.sink
    }

    pub closed spec fn spec_tags(&self) -> Seq<char> {
        self.tags@
    }

    /// A recorder that writes `prefix` (followed by a dot, where not empty)
    /// before every name and sends lines to `sink`.
    pub fn new(prefix: &str, sink: S) -> (r: Self)
        ensures
            r.spec_prefix() == prefix_text(prefix@),
            r.spec_sink() == sink,
            r.spec_tags().len() == 0,
    {
        let prefix = if prefix.unicode_len() == 0 {
            String::new()
        } else {
            let mut p = String::from_str(trim_trailing_dots(prefix));
            p.append(".");
            proof {
                reveal_strlit(".");
            }
            p
        };
        StatsdRecorder { prefix, sink, tags: String::new() }
    }

    /// The sink that lines are sent to.
    pub fn sink(&self) -> (r: &S)
        ensures
            *r == self.spec_sink(),
    {
        &self.sink
    }

    fn write_tag(self, key: Option<&str>, value: &str) -> (r: Self)
        ensures
            r.spec_prefix() == self.spec_prefix(),
            r.spec_sink() == self.spec_sink(),
            r.spec_tags() == tags_with(
                self.spec_tags(),
                tag_text(
                    match key {
                        Some(k) => Some(k@),
                        None => None,
                    },
                    value@,
                ),
            ),
    {
        let mut this = self;
        proof {
            reveal_strlit("|#");
            reveal_strlit(",");
            reveal_strlit(":");
        }
        if this.tags.as_str().unicode_len() == 0 {
            this.tags.append("|#");
        } else {
            this.tags.append(",");
        }
        if let Some(k) = key {
            this.tags.append(k);
            this.tags.append(":");
        }
        this.tags.append(value);
        this
    }

    /// Adds a `key:value` tag to every line.
    pub fn with_tag(self, key: &str, value: &str) -> (r: Self)
        ensures
            r.spec_prefix() == self.spec_prefix(),
            r.spec_sink() == self.spec_sink(),
            r.spec_tags() == tags_with(self.spec_tags(), tag_text(Some(key@), value@)),
    {
        self.write_tag(Some(key), value)
    }

    /// Adds a tag without a key to every line.
    pub fn with_tag_value(self, value: &str) -> (r: Self)
        ensures
            r.spec_prefix() == self.spec_prefix(),
            r.spec_sink() == self.spec_sink(),
            r.spec_tags() == tags_with(self.spec_tags(), tag_text(None, value@)),
    {
        self.write_tag(None, value)
    }

    /// Appends the StatsD line of `metric` to `s`; `value` is the metric's value
    /// as text.
    pub fn write_metric(&self, metric: &Metric, value: &str, s: &mut String)
        ensures
            final(s)@ == old(s)@ + statsd_line(
                self.spec_prefix(),
                metric.spec_key().spec_meta().spec_key()@,
                value@,
                metric.spec_key().spec_meta().spec_ty().spec_code(),
                self.spec_tags(),
                metric_tag_texts(
                    metric.spec_key().spec_meta().spec_tag_keys(),
                    metric.spec_key().spec_tag_values(),
                ),
            ),
    {
        proof {
            reveal_strlit(":");
            reveal_strlit("|");
            reveal_strlit("|#");
            reveal_strlit(",");
        }
        let ghost start = s@;
        s.append(self.prefix.as_str());
        s.append(metric.key());
        s.append(":");
        s.append(value);
        s.append("|");
        s.append(metric.ty().as_str());
        s.append(self.tags.as_str());
        let ghost base = s@;
        let pairs = metric.tags();
        let ghost texts = metric_tag_texts(
            metric.spec_key().spec_meta().spec_tag_keys(),
            metric.spec_key().spec_tag_values(),
        );
        assert(pairs@.len() == texts.len());
        assert forall|j: int|
            #![trigger pairs@[j]]
            0 <= j < pairs@.len() implies texts[j] == tag_text(Some(pairs@[j].0@), pairs@[j].1@) by {
            broadcast use vstd::utf8::encode_utf8_decode_utf8;

            assert(pairs@[j].1@ == decode_utf8(pairs@[j].1.spec_bytes()));
        }
        if pairs.len() > 0 {
            if self.tags.as_str().unicode_len() == 0 {
                s.append("|#");
            } else {
                s.append(",");
            }
            let ghost opened = s@;
            let mut i: usize = 0;
            while i < pairs.len()
                invariant
                    i <= pairs@.len(),
                    pairs@.len() == texts.len(),
                    pairs@.len() > 0,
                    forall|j: int|
                        #![trigger pairs@[j]]
                        0 <= j < pairs@.len() ==> texts[j] == tag_text(Some(pairs@[j].0@), pairs@[j].1@),
                    s@ == opened + joined(texts.subrange(0, i as int)),
                decreases pairs@.len() - i,
            {
                proof {
                    reveal_strlit(":");
                    reveal_strlit(",");
                }
                let ghost prev = s@;
                if i > 0 {
                    s.append(",");
                }
                let ghost sep = s@;
                s.append(pairs[i].0);
                s.append(":");
                s.append(pairs[i].1);
                proof {
                    let t = texts.subrange(0, i + 1);
                    assert(t.drop_last() =~= texts.subrange(0, i as int));
                    assert(t.last() == texts[i as int]);
                    assert(texts[i as int] == tag_text(Some(pairs@[i as int].0@), pairs@[i as int].1@));
                    assert(s@ =~= sep + texts[i as int]);
                    if i == 0 {
                        assert(t.len() == 1);
                        assert(texts.subrange(0, 0).len() == 0);
                        assert(joined(texts.subrange(0, 0)) =~= Seq::<char>::empty());
                        assert(sep == prev);
                        assert(joined(t) == t[0]);
                        assert(s@ =~= opened + joined(t));
                    } else {
                        assert(sep =~= prev + seq![',']);
                        assert(joined(t) == joined(t.drop_last()) + seq![','] + t.last());
                        assert(s@ =~= opened + joined(t));
                    }
                }
                i = i + 1;
            }
            assert(texts.subrange(0, texts.len() as int) =~= texts);
        }
        assert(s@ =~= old(s)@ + statsd_line(
            self.spec_prefix(),
            metric.spec_key().spec_meta().spec_key()@,
            value@,
            metric.spec_key().spec_meta().spec_ty().spec_code(),
            self.spec_tags(),
            texts,
        ));
    }
}

impl<S: MetricSink> StatsdRecorder<S> {
    /// Formats `metric` as one StatsD line and sends it; `value` is the
    /// metric's value as text.
    pub fn record_metric(&self, metric: &Metric, value: &str) {
        let mut line = String::new();
        self.write_metric(metric, value, &mut line);
        self.sink.emit(line.as_str());
    }
}

} // verus!
