use smol_buf::Str24;
use vstd::prelude::*;
use vstd::string::StringExecFns;
use vstd::string::StringSliceAdditionalSpecFns;
use vstd::utf8::encode_utf8;

verus! {

/// smol_buf's immutable short string, which stores up to 23 bytes inline.
#[verifier::external_type_specification]
#[verifier::external_body]
pub struct ExStr24(Str24);

/// The bytes that a `Str24` holds.
pub uninterp spec fn str24_bytes(s: Str24) -> Seq<u8>;

/// Relies on `Str24::new`: the new string holds the bytes of `text`.
#[verifier::external_body]
fn str24_new(text: &str) -> (r: Str24)
    ensures
        str24_bytes(r) == text.spec_bytes(),
{
    Str24::new(text)
}

/// Relies on `Str24::as_str`: it reads back the bytes the string holds.
#[verifier::external_body]
fn str24_as_str(s: &Str24) -> (r: &str)
    ensures
        r.spec_bytes() == str24_bytes(*s),
{
    s.as_str()
}

/// Relies on `Str24::is_heap_allocated`: a string made by `Str24::new` is on
/// the heap exactly when it holds more than 23 bytes (`Str24::new` stores up to
/// 23 bytes inline and longer ones in an `Arc`). The library makes its `Str24`
/// values with `Str24::new` only.
#[verifier::external_body]
fn str24_is_heap_allocated(s: &Str24) -> (r: bool)
    ensures
        r == (str24_bytes(*s).len() > TAG_INLINE_CAPACITY),
{
    s.is_heap_allocated()
}

/// Relies on `String::clear`: the string becomes empty and keeps its allocation.
#[verifier::external_body]
fn clear_string(s: &mut String)
    ensures
        final(s)@ == Seq::<char>::empty(),
{
    s.clear()
}

/// The longest tag value, in bytes, that is stored inline.
pub const TAG_INLINE_CAPACITY: usize = 23;

/// One captured tag value: a short string stored inline up to 23 bytes.
#[derive(Debug)]
pub struct TagValue {
    text: Str24,
}

impl View for TagValue {
    type V = Seq<u8>;

    closed spec fn view(&self) -> Seq<u8> {
        str24_bytes(self.text)
    }
}

impl TagValue {
    /// Captures `text`.
    pub fn new(text: &str) -> (r: TagValue)
        ensures
            r@ == text.spec_bytes(),
    {
        TagValue { text: str24_new(text) }
    }

    /// The captured text.
    pub fn as_str(&self) -> (r: &str)
        ensures
            r.spec_bytes() == self@,
    {
        str24_as_str(&self.text)
    }

    /// Whether the text lives on the heap rather than inline.
    pub fn is_heap_allocated(&self) -> (r: bool)
        ensures
            r == (self@.len() > TAG_INLINE_CAPACITY),
    {
        str24_is_heap_allocated(&self.text)
    }
}

/// The captured tag values of one emission: `None` when the metric has no tags.
pub type TagValues = Option<Vec<TagValue>>;

/// The bytes of each captured tag value, in order; empty for `None`.
pub open spec fn tag_values_view(t: TagValues) -> Seq<Seq<u8>> {
    match t {
        Some(v) => v@.map_values(|x: TagValue| x@),
        None => Seq::empty(),
    }
}

/// The bytes of each string, in order.
pub open spec fn strs_view(s: Seq<&str>) -> Seq<Seq<u8>> {
    s.map_values(|x: &str| x.spec_bytes())
}

/// The captured values of one emission: `None` when there are none.
pub fn tag_values_from(values: Vec<TagValue>) -> (r: TagValues)
    ensures
        values@.len() == 0 <==> r is None,
        tag_values_view(r) == values@.map_values(|x: TagValue| x@),
{
    if values.len() == 0 {
        assert(values@.map_values(|x: TagValue| x@) =~= Seq::empty());
        None
    } else {
        Some(values)
    }
}

/// Captures formatted tag values, position by position.
///
/// With no values this returns `None` and allocates nothing.
pub fn record_tags(tags: &[&str]) -> (r: TagValues)
    ensures
        tags@.len() == 0 <==> r is None,
        tag_values_view(r) == strs_view(tags@),
{
    if tags.len() == 0 {
        assert(strs_view(tags@) =~= Seq::empty());
        return None;
    }
    let mut values: Vec<TagValue> = Vec::new();
    let mut i: usize = 0;
    while i < tags.len()
        invariant
            i <= tags@.len(),
            values@.map_values(|x: TagValue| x@) =~= strs_view(tags@.subrange(0, i as int)),
        decreases tags@.len() - i,
    {
        values.push(TagValue::new(tags[i]));
        i = i + 1;
        assert(strs_view(tags@.subrange(0, i as int)) =~= strs_view(tags@.subrange(0, i - 1)).push(
            tags@[i - 1].spec_bytes(),
        ));
        assert(values@.map_values(|x: TagValue| x@) =~= strs_view(tags@.subrange(0, i as int)));
    }
    assert(tags@.subrange(0, tags@.len() as int) =~= tags@);
    Some(values)
}

/// A reusable text buffer that tag values are formatted into.
pub struct StringBuf<const N: usize> {
    buf: String,
}

impl<const N: usize> View for StringBuf<N> {
    type V = Seq<char>;

    closed spec fn view(&self) -> Seq<char> {
        self.buf@
    }
}

impl<const N: usize> StringBuf<N> {
    /// An empty buffer.
    pub fn new() -> (r: Self)
        ensures
            r@ == Seq::<char>::empty(),
    {
        StringBuf { buf: String::new() }
    }

    /// The text written since the buffer was last cleared.
    pub fn as_str(&self) -> (r: &str)
        ensures
            r@ == self@,
    {
        self.buf.as_str()
    }

    /// Appends `s`.
    pub fn write_str(&mut self, s: &str)
        ensures
            final(self)@ == old(self)@ + s@,
    {
        self.buf.append(s);
    }

    /// Captures the buffered text as a tag value and empties the buffer for the
    /// next value.
    pub fn take_tag(&mut self) -> (r: TagValue)
        ensures
            r@ == encode_utf8(old(self)@),
            final(self)@ == Seq::<char>::empty(),
    {
        let r = TagValue::new(self.buf.as_str());
        clear_string(&mut self.buf);
        r
    }

    /// Empties the buffer.
    pub fn clear(&mut self)
        ensures
            final(self)@ == Seq::<char>::empty(),
    {
        clear_string(&mut self.buf);
    }
}

} // verus!
