//! Rendering of one metric into its wire-format line.
//!
//! The wire format is a single line of ASCII text:
//!
//! ```text
//! <prefix><key>:<value>|<type>[|#<tag1>[,<tag2>...]]
//! ```
//!
//! where each tag is either `key:value` or a bare `value`, joined by commas
//! in the exact order the tags were added. [`spec_wire_line`] defines the
//! rendering at the specification level; [`MetricFormatter`] produces it,
//! pre-sizing its output buffer with a cheap upper-bound estimate so the
//! single write pass does not reallocate.

use vstd::prelude::*;

verus! {

use core::marker::PhantomData;
use vstd::string::StringExecFns;
use vstd::string::is_ascii;
use vstd::utf8::is_ascii_chars;
use crate::digits::spec_i64_chars;
use crate::digits::spec_u64_chars;
use crate::digits::lemma_u64_chars_ten_digits;
use crate::digits::lemma_i64_chars_ascii;
use crate::digits::lemma_u64_chars_ascii;
use crate::digits::append_i64;
use crate::digits::append_u64;
use crate::types::Metric;

broadcast use vstd::string::is_ascii_spec_bytes;

/// A tag as the specification sees it: an optional key and a value.
pub type SpecTag = (Option<Seq<char>>, Seq<char>);

/// The numeric payload of one metric.
#[derive(Debug, Clone)]
enum MetricValue {
    /// A signed 64-bit integer.
    Signed(i64),
    /// An unsigned 64-bit integer.
    Unsigned(u64),
    /// A value whose decimal text the caller rendered itself. This is how
    /// floating-point gauges enter the library: the caller renders the
    /// number and the formatter treats the text as opaque ASCII.
    Rendered(String),
}

/// The kind of one metric, determining its wire type token.
#[derive(Debug, Clone, Copy)]
enum MetricType {
    Counter,
    Timer,
    Gauge,
    Meter,
    Histogram,
    SetKind,
}

/// The characters of a metric value as written on the wire.
spec fn spec_value_chars(v: MetricValue) -> Seq<char> {
    match v {
        MetricValue::Signed(i) => spec_i64_chars(i as int),
        MetricValue::Unsigned(u) => spec_u64_chars(u as nat),
        MetricValue::Rendered(s) => s@,
    }
}

/// The wire type token of a metric kind.
spec fn spec_type_chars(t: MetricType) -> Seq<char> {
    match t {
        MetricType::Counter => seq!['c'],
        MetricType::Timer => seq!['m', 's'],
        MetricType::Gauge => seq!['g'],
        MetricType::Meter => seq!['m'],
        MetricType::Histogram => seq!['h'],
        MetricType::SetKind => seq!['s'],
    }
}

/// The characters of one rendered tag: `key:value`, or the bare value.
pub open spec fn spec_tag_chars(t: SpecTag) -> Seq<char> {
    match t.0 {
        Some(k) => k + seq![':'] + t.1,
        None => t.1,
    }
}

/// The comma-joined rendering of a tag sequence, in order, with no
/// trailing comma.
pub open spec fn spec_tags_join(tags: Seq<SpecTag>) -> Seq<char>
    decreases tags.len(),
{
    if tags.len() == 0 {
        Seq::empty()
    } else if tags.len() == 1 {
        spec_tag_chars(tags[0])
    } else {
        spec_tags_join(tags.drop_last()) + seq![','] + spec_tag_chars(tags.last())
    }
}

/// The tag section of a wire line: empty without tags, otherwise `|#`
/// followed by the comma-joined tags.
pub open spec fn spec_tags_suffix(tags: Seq<SpecTag>) -> Seq<char> {
    if tags.len() == 0 {
        Seq::empty()
    } else {
        seq!['|', '#'] + spec_tags_join(tags)
    }
}

/// The full wire-format line for one metric.
pub open spec fn spec_wire_line(
    prefix: Seq<char>,
    key: Seq<char>,
    value: Seq<char>,
    ty: Seq<char>,
    tags: Seq<SpecTag>,
) -> Seq<char> {
    prefix + key + seq![':'] + value + seq!['|'] + ty + spec_tags_suffix(tags)
}

/// The size estimate for the base portion of a wire line: the prefix and
/// key lengths, one colon, a ten-digit budget for the value, one pipe, and
/// a two-character budget for the type token. The digit budget is a
/// heuristic chosen for values seen in practice, not the twenty digits a
/// `u64::MAX` or `i64::MIN` would need.
pub open spec fn spec_base_size_hint(prefix: Seq<char>, key: Seq<char>) -> nat {
    prefix.len() + key.len() + 1 + 10 + 1 + 2
}

/// The combined key-and-value character count of a tag sequence, counting
/// one extra character per keyed tag for its colon.
pub open spec fn spec_tags_kv_len(tags: Seq<SpecTag>) -> nat
    decreases tags.len(),
{
    if tags.len() == 0 {
        0
    } else {
        spec_tags_kv_len(tags.drop_last()) + spec_tag_cost(tags.last())
    }
}

/// The character count one tag contributes: key, colon, and value for a
/// keyed tag; just the value for a bare one.
pub open spec fn spec_tag_cost(t: SpecTag) -> nat {
    (match t.0 {
        Some(k) => k.len() + 1,
        None => 0,
    }) + t.1.len()
}

/// Well-formedness of one stored tag: its key (when present) and value
/// are ASCII text.
spec fn spec_tag_wf(t: (Option<&str>, &str)) -> bool {
    &&& (t.0 matches Some(k) ==> is_ascii_chars(k@))
    &&& is_ascii_chars(t.1@)
}

/// The size estimate for the tag section: exactly its rendered length
/// (the `|#` introducer, the tags, and the separating commas).
pub open spec fn spec_tag_size_hint(tags: Seq<SpecTag>) -> nat {
    if tags.len() == 0 {
        0
    } else {
        2 + spec_tags_kv_len(tags) + (tags.len() - 1) as nat
    }
}

/// Appending one tag extends the joined rendering by a comma and the
/// tag's own characters (or begins it, when it is the first).
pub proof fn lemma_tags_join_push(tags: Seq<SpecTag>, t: SpecTag)
    ensures
        tags.len() == 0 ==> spec_tags_join(tags.push(t)) == spec_tag_chars(t),
        tags.len() > 0 ==> spec_tags_join(tags.push(t)) == spec_tags_join(tags) + seq![',']
            + spec_tag_chars(t),
{
    let pushed = tags.push(t);
    assert(pushed.last() == t);
    if tags.len() == 0 {
        assert(pushed.len() == 1);
    } else {
        assert(pushed.drop_last() =~= tags);
    }
}

/// The joined rendering of a nonempty tag sequence is exactly its
/// key-and-value character count plus one comma between each two tags.
pub proof fn lemma_tags_join_len(tags: Seq<SpecTag>)
    requires
        tags.len() > 0,
    ensures
        spec_tags_join(tags).len() == spec_tags_kv_len(tags) + tags.len() - 1,
    decreases tags.len(),
{
    lemma_tag_chars_cost(tags.last());
    if tags.len() == 1 {
        assert(tags.drop_last().len() == 0);
        assert(spec_tags_kv_len(tags.drop_last()) == 0);
        assert(tags[0] == tags.last());
    } else {
        lemma_tags_join_len(tags.drop_last());
    }
}

/// Without tags, the wire line is exactly the base metric: prefix, key,
/// colon, value, pipe, type token, and nothing after.
pub proof fn lemma_wire_line_no_tags(
    prefix: Seq<char>,
    key: Seq<char>,
    value: Seq<char>,
    ty: Seq<char>,
)
    ensures
        spec_wire_line(prefix, key, value, ty, Seq::<SpecTag>::empty()) == prefix + key
            + seq![':'] + value + seq!['|'] + ty,
{
    assert(spec_wire_line(prefix, key, value, ty, Seq::<SpecTag>::empty()) =~= prefix + key
        + seq![':'] + value + seq!['|'] + ty);
}

/// Tag order is preserved: two keyed tags and a bare value added in that
/// order render as `|#k1:v1,k2:v2,v3`, in exactly that order.
pub proof fn lemma_tag_order(
    k1: Seq<char>,
    v1: Seq<char>,
    k2: Seq<char>,
    v2: Seq<char>,
    v3: Seq<char>,
)
    ensures
        spec_tags_suffix(seq![(Some(k1), v1), (Some(k2), v2), (None, v3)]) == seq!['|', '#'] + k1
            + seq![':'] + v1 + seq![','] + k2 + seq![':'] + v2 + seq![','] + v3,
{
    let t1: SpecTag = (Some(k1), v1);
    let t2: SpecTag = (Some(k2), v2);
    let t3: SpecTag = (None, v3);
    let tags = seq![t1, t2, t3];
    assert(tags.drop_last() =~= seq![t1, t2]);
    assert(tags.last() == t3);
    assert(seq![t1, t2].drop_last() =~= seq![t1]);
    assert(seq![t1, t2].last() == t2);
    assert(seq![t1][0] == t1);
    assert(spec_tags_join(seq![t1]) == spec_tag_chars(t1));
    assert(spec_tags_join(seq![t1, t2]) == spec_tag_chars(t1) + seq![','] + spec_tag_chars(t2));
    assert(spec_tags_join(tags) == spec_tag_chars(t1) + seq![','] + spec_tag_chars(t2) + seq![',']
        + spec_tag_chars(t3));
    assert(spec_tags_suffix(tags) =~= seq!['|', '#'] + k1 + seq![':'] + v1 + seq![','] + k2
        + seq![':'] + v2 + seq![','] + v3);
}

/// The size estimate never under-allocates while the value and type token
/// together stay within the twelve-character budget (ten digits plus two
/// token characters). A wider value — say an eleven-digit timer reading —
/// can exceed the estimate; that is the documented approximation in the
/// heuristic, not an error in the rendering.
pub proof fn lemma_size_hint_covers(
    prefix: Seq<char>,
    key: Seq<char>,
    value: Seq<char>,
    ty: Seq<char>,
    tags: Seq<SpecTag>,
)
    requires
        value.len() + ty.len() <= 12,
    ensures
        spec_wire_line(prefix, key, value, ty, tags).len() <= spec_base_size_hint(prefix, key)
            + spec_tag_size_hint(tags),
{
    if tags.len() > 0 {
        lemma_tags_join_len(tags);
    }
}

/// For an unsigned value within the ten-digit budget the size estimate
/// never under-allocates, whatever the prefix, key, type token (at most
/// two characters), and tags.
pub proof fn lemma_size_hint_covers_u64(
    prefix: Seq<char>,
    key: Seq<char>,
    n: nat,
    ty: Seq<char>,
    tags: Seq<SpecTag>,
)
    requires
        n < 10000000000,
        ty.len() <= 2,
    ensures
        spec_wire_line(prefix, key, spec_u64_chars(n), ty, tags).len() <= spec_base_size_hint(
            prefix,
            key,
        ) + spec_tag_size_hint(tags),
{
    lemma_u64_chars_ten_digits(n);
    lemma_size_hint_covers(prefix, key, spec_u64_chars(n), ty, tags);
}

/// Relies on `str::len`: the byte length of a string slice, which for
/// ASCII text equals its character count; a slice's length always fits in
/// `usize`.
#[verifier::external_body]
pub(crate) fn ascii_len(s: &str) -> (r: usize)
    requires
        is_ascii(s),
    ensures
        r == s@.len(),
{
    s.len()
}

/// The rendered characters of one tag are exactly its counted cost.
proof fn lemma_tag_chars_cost(t: SpecTag)
    ensures
        spec_tag_chars(t).len() == spec_tag_cost(t),
{
    match t.0 {
        Some(k) => {
            assert(spec_tag_chars(t) == k + seq![':'] + t.1);
        },
        None => {
            assert(spec_tag_chars(t) == t.1);
        },
    }
}

/// Relies on `String::with_capacity`: returns an empty string (the
/// capacity is an allocation hint with no observable content).
#[verifier::external_body]
fn string_with_capacity(cap: usize) -> (r: String)
    ensures
        r@ == Seq::<char>::empty(),
{
    String::with_capacity(cap)
}

/// Renders one metric — prefix, key, value, type, tags — into its
/// wire-format line.
///
/// A formatter is created fresh for one metric, fed tags in order, and
/// consumed by [`MetricFormatter::build`]. Rendering is a pure function of
/// the fields; `build` neither fails nor mutates.
#[derive(Debug)]
pub struct MetricFormatter<'a, T: Metric> {
    metric: PhantomData<T>,
    prefix: String,
    key: &'a str,
    val: MetricValue,
    type_: MetricType,
    tags: Vec<(Option<&'a str>, &'a str)>,
}

impl<'a, T: Metric> MetricFormatter<'a, T> {
    /// The prefix written before the key.
    pub closed spec fn prefix_chars(&self) -> Seq<char> {
        self.prefix@
    }

    /// The metric key.
    pub closed spec fn key_chars(&self) -> Seq<char> {
        self.key@
    }

    /// The value as written on the wire.
    pub closed spec fn value_chars(&self) -> Seq<char> {
        spec_value_chars(self.val)
    }

    /// The wire type token.
    pub closed spec fn type_chars(&self) -> Seq<char> {
        spec_type_chars(self.type_)
    }

    /// The tags added so far, in order.
    pub closed spec fn tags_view(&self) -> Seq<SpecTag> {
        Seq::new(
            self.tags@.len(),
            |i: int|
                (
                    match self.tags@[i].0 {
                        Some(k) => Some(k@),
                        None => None,
                    },
                    self.tags@[i].1@,
                ),
        )
    }

    /// The formatter holds only ASCII text, as the wire format requires.
    pub closed spec fn wf(&self) -> bool {
        &&& is_ascii_chars(self.prefix@)
        &&& is_ascii_chars(self.key@)
        &&& is_ascii_chars(spec_value_chars(self.val))
        &&& forall|i: int| 0 <= i < self.tags@.len() ==> spec_tag_wf(#[trigger] self.tags@[i])
    }

    /// The full wire line this formatter renders.
    pub open spec fn wire_line(&self) -> Seq<char> {
        spec_wire_line(
            self.prefix_chars(),
            self.key_chars(),
            self.value_chars(),
            self.type_chars(),
            self.tags_view(),
        )
    }

    /// What every constructor establishes: a well-formed formatter with the
    /// given parts and no tags yet.
    pub open spec fn ctor_ensures(
        &self,
        prefix: Seq<char>,
        key: Seq<char>,
        value: Seq<char>,
        ty: Seq<char>,
    ) -> bool {
        &&& self.wf()
        &&& self.prefix_chars() == prefix
        &&& self.key_chars() == key
        &&& self.value_chars() == value
        &&& self.type_chars() == ty
        &&& self.tags_view() == Seq::<SpecTag>::empty()
    }

    fn from_i64(prefix: &str, key: &'a str, val: i64, type_: MetricType) -> (r: Self)
        requires
            is_ascii(prefix),
            is_ascii(key),
        ensures
            r.ctor_ensures(prefix@, key@, spec_i64_chars(val as int), spec_type_chars(type_)),
    {
        proof {
            lemma_i64_chars_ascii(val as int);
        }
        let r = MetricFormatter {
            metric: PhantomData,
            prefix: prefix.to_owned(),
            key,
            val: MetricValue::Signed(val),
            type_,
            tags: Vec::new(),
        };
        proof {
            assert(r.tags_view() =~= Seq::<SpecTag>::empty());
        }
        r
    }

    fn from_u64(prefix: &str, key: &'a str, val: u64, type_: MetricType) -> (r: Self)
        requires
            is_ascii(prefix),
            is_ascii(key),
        ensures
            r.ctor_ensures(prefix@, key@, spec_u64_chars(val as nat), spec_type_chars(type_)),
    {
        proof {
            lemma_u64_chars_ascii(val as nat);
        }
        let r = MetricFormatter {
            metric: PhantomData,
            prefix: prefix.to_owned(),
            key,
            val: MetricValue::Unsigned(val),
            type_,
            tags: Vec::new(),
        };
        proof {
            assert(r.tags_view() =~= Seq::<SpecTag>::empty());
        }
        r
    }

    fn from_rendered(prefix: &str, key: &'a str, val: String, type_: MetricType) -> (r: Self)
        requires
            is_ascii(prefix),
            is_ascii(key),
            is_ascii_chars(val@),
        ensures
            r.ctor_ensures(prefix@, key@, val@, spec_type_chars(type_)),
    {
        let r = MetricFormatter {
            metric: PhantomData,
            prefix: prefix.to_owned(),
            key,
            val: MetricValue::Rendered(val),
            type_,
            tags: Vec::new(),
        };
        proof {
            assert(r.tags_view() =~= Seq::<SpecTag>::empty());
        }
        r
    }

    /// A counter formatter: wire type token `c`.
    pub fn counter(prefix: &str, key: &'a str, val: i64) -> (r: Self)
        requires
            is_ascii(prefix),
            is_ascii(key),
        ensures
            r.ctor_ensures(prefix@, key@, spec_i64_chars(val as int), seq!['c']),
    {
        Self::from_i64(prefix, key, val, MetricType::Counter)
    }

    /// A timer formatter: wire type token `ms`.
    pub fn timer(prefix: &str, key: &'a str, val: u64) -> (r: Self)
        requires
            is_ascii(prefix),
            is_ascii(key),
        ensures
            r.ctor_ensures(prefix@, key@, spec_u64_chars(val as nat), seq!['m', 's']),
    {
        Self::from_u64(prefix, key, val, MetricType::Timer)
    }

    /// A gauge formatter: wire type token `g`.
    pub fn gauge(prefix: &str, key: &'a str, val: u64) -> (r: Self)
        requires
            is_ascii(prefix),
            is_ascii(key),
        ensures
            r.ctor_ensures(prefix@, key@, spec_u64_chars(val as nat), seq!['g']),
    {
        Self::from_u64(prefix, key, val, MetricType::Gauge)
    }

    /// A gauge formatter whose value text the caller has already rendered
    /// (how floating-point gauge readings, rendered outside the library,
    /// reach the wire).
    pub fn gauge_rendered(prefix: &str, key: &'a str, val: String) -> (r: Self)
        requires
            is_ascii(prefix),
            is_ascii(key),
            is_ascii_chars(val@),
        ensures
            r.ctor_ensures(prefix@, key@, val@, seq!['g']),
    {
        Self::from_rendered(prefix, key, val, MetricType::Gauge)
    }

    /// A meter formatter: wire type token `m`.
    pub fn meter(prefix: &str, key: &'a str, val: u64) -> (r: Self)
        requires
            is_ascii(prefix),
            is_ascii(key),
        ensures
            r.ctor_ensures(prefix@, key@, spec_u64_chars(val as nat), seq!['m']),
    {
        Self::from_u64(prefix, key, val, MetricType::Meter)
    }

    /// A histogram formatter: wire type token `h`.
    pub fn histogram(prefix: &str, key: &'a str, val: u64) -> (r: Self)
        requires
            is_ascii(prefix),
            is_ascii(key),
        ensures
            r.ctor_ensures(prefix@, key@, spec_u64_chars(val as nat), seq!['h']),
    {
        Self::from_u64(prefix, key, val, MetricType::Histogram)
    }

    /// A set formatter: wire type token `s`.
    pub fn set(prefix: &str, key: &'a str, val: i64) -> (r: Self)
        requires
            is_ascii(prefix),
            is_ascii(key),
        ensures
            r.ctor_ensures(prefix@, key@, spec_i64_chars(val as int), seq!['s']),
    {
        Self::from_i64(prefix, key, val, MetricType::SetKind)
    }

    /// Appends a key:value tag, after every tag added before it.
    pub fn with_tag(&mut self, key: &'a str, value: &'a str)
        requires
            old(self).wf(),
            is_ascii(key),
            is_ascii(value),
        ensures
            final(self).wf(),
            final(self).tags_view() == old(self).tags_view().push(
                (Some(key@), value@),
            ),
            final(self).prefix_chars() == old(self).prefix_chars(),
            final(self).key_chars() == old(self).key_chars(),
            final(self).value_chars() == old(self).value_chars(),
            final(self).type_chars() == old(self).type_chars(),
    {
        self.tags.push((Some(key), value));
        proof {
            assert(self.tags_view() =~= old(self).tags_view().push((Some(key@), value@)));
            assert forall|i: int| 0 <= i < self.tags@.len() implies spec_tag_wf(
                #[trigger] self.tags@[i],
            ) by {
                if i < old(self).tags@.len() {
                    assert(spec_tag_wf(old(self).tags@[i]));
                    assert(self.tags@[i] == old(self).tags@[i]);
                } else {
                    assert(self.tags@[i] == (Some(key), value));
                    assert(spec_tag_wf((Some(key), value)));
                }
            }
        }
    }

    /// Appends a bare value tag, after every tag added before it.
    pub fn with_tag_value(&mut self, value: &'a str)
        requires
            old(self).wf(),
            is_ascii(value),
        ensures
            final(self).wf(),
            final(self).tags_view() == old(self).tags_view().push(
                (None::<Seq<char>>, value@),
            ),
            final(self).prefix_chars() == old(self).prefix_chars(),
            final(self).key_chars() == old(self).key_chars(),
            final(self).value_chars() == old(self).value_chars(),
            final(self).type_chars() == old(self).type_chars(),
    {
        self.tags.push((None, value));
        proof {
            assert(self.tags_view() =~= old(self).tags_view().push((None::<Seq<char>>, value@)));
            assert forall|i: int| 0 <= i < self.tags@.len() implies spec_tag_wf(
                #[trigger] self.tags@[i],
            ) by {
                if i < old(self).tags@.len() {
                    assert(spec_tag_wf(old(self).tags@[i]));
                    assert(self.tags@[i] == old(self).tags@[i]);
                } else {
                    assert(self.tags@[i] == (None::<&str>, value));
                    assert(spec_tag_wf((None::<&str>, value)));
                }
            }
        }
    }

    /// The size estimate for the base metric (see [`spec_base_size_hint`]).
    pub fn base_metric_size_hint(&self) -> (r: usize)
        requires
            self.wf(),
            spec_base_size_hint(self.prefix_chars(), self.key_chars()) <= usize::MAX,
        ensures
            r == spec_base_size_hint(self.prefix_chars(), self.key_chars()),
    {
        ascii_len(self.prefix.as_str()) + ascii_len(self.key) + 14
    }

    /// The size estimate for the tag section (see [`spec_tag_size_hint`]):
    /// exactly the rendered length of the tag suffix.
    pub fn tag_size_hint(&self) -> (r: usize)
        requires
            self.wf(),
            spec_tag_size_hint(self.tags_view()) <= usize::MAX,
        ensures
            r == spec_tag_size_hint(self.tags_view()),
    {
        let n = self.tags.len();
        if n == 0 {
            return 0;
        }
        let ghost tagsv = self.tags_view();
        let mut sum: usize = 2 + (n - 1);
        proof {
            assert(spec_tags_kv_len(tagsv.take(0)) == 0) by {
                assert(tagsv.take(0) =~= Seq::<SpecTag>::empty());
            }
            assert(2 + (n - 1) <= 2 + spec_tags_kv_len(tagsv) + (tagsv.len() - 1));
        }
        let mut i: usize = 0;
        while i < n
            invariant
                self.wf(),
                tagsv == self.tags_view(),
                n == self.tags@.len(),
                n >= 1,
                0 <= i <= n,
                sum == 2 + (n - 1) + spec_tags_kv_len(tagsv.take(i as int)),
                spec_tag_size_hint(tagsv) <= usize::MAX,
            decreases n - i,
        {
            proof {
                lemma_tags_kv_len_step(tagsv, i as int);
                lemma_tags_kv_len_take_le(tagsv, i + 1);
                assert(spec_tags_kv_len(tagsv.take(i as int)) + spec_tag_cost(tagsv[i as int])
                    <= spec_tags_kv_len(tagsv));
            }
            let pair = self.tags[i];
            proof {
                assert(tagsv[i as int] == (
                    match pair.0 {
                        Some(k) => Some(k@),
                        None => None,
                    },
                    pair.1@,
                ));
            }
            let cost: usize = match pair.0 {
                Some(k) => ascii_len(k) + 1,
                None => 0,
            };
            sum = sum + cost + ascii_len(pair.1);
            i = i + 1;
        }
        proof {
            assert(tagsv.take(n as int) =~= tagsv);
        }
        sum
    }

    /// Writes the base metric — prefix, key, colon, value, pipe, type
    /// token — onto the end of `out`.
    fn write_base_metric(&self, out: &mut String)
        requires
            self.wf(),
        ensures
            final(out)@ == old(out)@ + self.prefix_chars() + self.key_chars() + seq![':']
                + self.value_chars() + seq!['|'] + self.type_chars(),
    {
        out.append(self.prefix.as_str());
        out.append(self.key);
        proof {
            reveal_strlit(":");
            assert(":"@ =~= seq![':']);
        }
        out.append(":");
        match &self.val {
            MetricValue::Signed(i) => append_i64(out, *i),
            MetricValue::Unsigned(u) => append_u64(out, *u),
            MetricValue::Rendered(s) => out.append(s.as_str()),
        }
        proof {
            reveal_strlit("|");
            assert("|"@ =~= seq!['|']);
        }
        out.append("|");
        match self.type_ {
            MetricType::Counter => {
                proof {
                    reveal_strlit("c");
                    assert("c"@ =~= seq!['c']);
                }
                out.append("c");
            },
            MetricType::Timer => {
                proof {
                    reveal_strlit("ms");
                    assert("ms"@ =~= seq!['m', 's']);
                }
                out.append("ms");
            },
            MetricType::Gauge => {
                proof {
                    reveal_strlit("g");
                    assert("g"@ =~= seq!['g']);
                }
                out.append("g");
            },
            MetricType::Meter => {
                proof {
                    reveal_strlit("m");
                    assert("m"@ =~= seq!['m']);
                }
                out.append("m");
            },
            MetricType::Histogram => {
                proof {
                    reveal_strlit("h");
                    assert("h"@ =~= seq!['h']);
                }
                out.append("h");
            },
            MetricType::SetKind => {
                proof {
                    reveal_strlit("s");
                    assert("s"@ =~= seq!['s']);
                }
                out.append("s");
            },
        }
        proof {
            assert(out@ =~= old(out)@ + self.prefix_chars() + self.key_chars() + seq![':']
                + self.value_chars() + seq!['|'] + self.type_chars());
        }
    }

    /// Writes the tag section — nothing at all without tags, otherwise
    /// `|#` and the comma-joined tags in insertion order — onto `out`.
    fn write_tags(&self, out: &mut String)
        requires
            self.wf(),
        ensures
            final(out)@ == old(out)@ + spec_tags_suffix(self.tags_view()),
    {
        let ghost tagsv = self.tags_view();
        let n = self.tags.len();
        if n == 0 {
            proof {
                assert(out@ =~= old(out)@ + spec_tags_suffix(tagsv));
            }
            return ;
        }
        proof {
            reveal_strlit("|#");
            assert("|#"@ =~= seq!['|', '#']);
        }
        out.append("|#");
        let mut i: usize = 0;
        while i < n
            invariant
                self.wf(),
                tagsv == self.tags_view(),
                n == self.tags@.len(),
                n >= 1,
                0 <= i <= n,
                out@ == old(out)@ + seq!['|', '#'] + spec_tags_join(tagsv.take(i as int)),
            decreases n - i,
        {
            if i > 0 {
                proof {
                    reveal_strlit(",");
                    assert(","@ =~= seq![',']);
                }
                out.append(",");
            }
            let pair = self.tags[i];
            if let Some(k) = pair.0 {
                out.append(k);
                proof {
                    reveal_strlit(":");
                    assert(":"@ =~= seq![':']);
                }
                out.append(":");
            }
            out.append(pair.1);
            proof {
                assert(tagsv.take(i + 1) =~= tagsv.take(i as int).push(tagsv[i as int]));
                lemma_tags_join_push(tagsv.take(i as int), tagsv[i as int]);
                assert(out@ =~= old(out)@ + seq!['|', '#'] + spec_tags_join(
                    tagsv.take(i + 1),
                ));
            }
            i = i + 1;
        }
        proof {
            assert(tagsv.take(n as int) =~= tagsv);
        }
    }

    /// Renders the wire line and wraps it in the caller's metric type.
    ///
    /// Rendering is total: it is a pure function of the formatter's fields
    /// and never fails. The output buffer is pre-sized from the two size
    /// estimates so the write pass allocates once.
    pub fn build(&self) -> (r: T)
        requires
            self.wf(),
            spec_base_size_hint(self.prefix_chars(), self.key_chars()) + spec_tag_size_hint(
                self.tags_view(),
            ) <= usize::MAX,
        ensures
            r.text() == self.wire_line(),
            r.text().len() > 0,
            is_ascii_chars(r.text()),
    {
        let size_hint = self.base_metric_size_hint() + self.tag_size_hint();
        let mut metric_string = string_with_capacity(size_hint);
        self.write_base_metric(&mut metric_string);
        self.write_tags(&mut metric_string);
        proof {
            assert(metric_string@ =~= self.wire_line());
            lemma_wire_line_parts_ascii(self);
        }
        T::from_metric_string(metric_string)
    }
}

/// One step of the tag cost sum: extending a prefix of the tag sequence
/// by its next tag adds exactly that tag's cost.
proof fn lemma_tags_kv_len_step(tags: Seq<SpecTag>, i: int)
    requires
        0 <= i < tags.len(),
    ensures
        spec_tags_kv_len(tags.take(i + 1)) == spec_tags_kv_len(tags.take(i)) + spec_tag_cost(
            tags[i],
        ),
{
    assert(tags.take(i + 1).drop_last() =~= tags.take(i));
    assert(tags.take(i + 1).last() == tags[i]);
}

/// The tag cost of a prefix never exceeds that of the whole sequence.
proof fn lemma_tags_kv_len_take_le(tags: Seq<SpecTag>, i: int)
    requires
        0 <= i <= tags.len(),
    ensures
        spec_tags_kv_len(tags.take(i)) <= spec_tags_kv_len(tags),
    decreases tags.len() - i,
{
    if i == tags.len() {
        assert(tags.take(i) =~= tags);
    } else {
        lemma_tags_kv_len_step(tags, i);
        lemma_tags_kv_len_take_le(tags, i + 1);
    }
}

/// A well-formed formatter's wire line is nonempty ASCII text.
proof fn lemma_wire_line_parts_ascii<'a, T: Metric>(fmt: &MetricFormatter<'a, T>)
    requires
        fmt.wf(),
    ensures
        is_ascii_chars(fmt.wire_line()),
        fmt.wire_line().len() > 0,
{
    lemma_tags_join_ascii(fmt.tags_view());
    assert(is_ascii_chars(fmt.wire_line()));
}

/// The joined rendering of ASCII tags is ASCII.
proof fn lemma_tags_join_ascii(tags: Seq<SpecTag>)
    requires
        forall|i: int|
            0 <= i < tags.len() ==> {
                &&& (#[trigger] tags[i].0 matches Some(k) ==> is_ascii_chars(k))
                &&& is_ascii_chars(tags[i].1)
            },
    ensures
        is_ascii_chars(spec_tags_join(tags)),
    decreases tags.len(),
{
    if tags.len() == 0 {
    } else if tags.len() == 1 {
        assert(is_ascii_chars(spec_tag_chars(tags[0])));
    } else {
        lemma_tags_join_ascii(tags.drop_last());
        assert(is_ascii_chars(spec_tag_chars(tags.last())));
        assert(is_ascii_chars(spec_tags_join(tags)));
    }
}

} // verus!

