//! The wire forms of metrics.

use crate::pb_messages::field::lists_fields;
use crate::pb_messages::field::shows;
use crate::pb_messages::field::FieldKind;
use crate::pb_messages::field::FieldRef;
use crate::pb_messages::field::FieldValue;
use crate::pb_messages::field::WireKind;
use crate::pb_messages::field::copy_bytes;
use crate::pb_messages::size::add_size;
use crate::pb_messages::size::bytes_field_size;
use crate::pb_messages::size::delimited_len;
use crate::pb_messages::size::int64_field_size;
use crate::pb_messages::size::nested_size;
use crate::pb_messages::size::uint64_field_size;
use crate::pb_messages::size::unsigned_bits;
use crate::pb_messages::size::varint_field_len;
use crate::pb_messages::size::MAX_PAYLOAD;
use vstd::prelude::*;

verus! {

/// The value that a metric carries.
#[allow(non_camel_case_types)]
#[derive(Debug, PartialEq)]
pub enum Metric_oneof_metric {
    gauge(i64),
    counter(u64),
    v2_serialized_histogram(Vec<u8>),
}

/// One reported value.
#[derive(Debug, PartialEq)]
pub struct Metric {
    pub metric: Option<Metric_oneof_metric>,
}

impl Metric {
    /// Whether nothing is set in the message.
    pub open spec fn is_default(&self) -> bool {
        &&& self.metric is None
    }

    /// A message in which nothing is set.
    pub fn new() -> (r: Metric)
        ensures
            r.is_default(),
    {
        Metric { metric: None }
    }

    /// Unsets `metric`, whichever of its cases it holds.
    pub fn clear_gauge(&mut self)
        ensures
            *final(self) == (Metric { metric: None, ..*old(self) }),
    {
        self.metric = None;
    }

    /// Whether `metric` holds the case `gauge`.
    pub fn has_gauge(&self) -> (r: bool)
        ensures
            r == (self.metric matches Some(Metric_oneof_metric::gauge(_))),
    {
        match self.metric {
            Some(Metric_oneof_metric::gauge(_)) => true,
            _ => false,
        }
    }

    /// Makes `metric` the case `gauge` with `v`.
    pub fn set_gauge(&mut self, v: i64)
        ensures
            *final(self) == (Metric { metric: Some(Metric_oneof_metric::gauge(v)), ..*old(self) }),
    {
        self.metric = Some(Metric_oneof_metric::gauge(v));
    }

    /// The number of the case `gauge`, or 0 where `metric` holds another case
    /// or none.
    pub fn get_gauge(&self) -> (r: i64)
        ensures
            r == match self.metric {
                Some(Metric_oneof_metric::gauge(v)) => v,
                _ => 0,
            },
    {
        match self.metric {
            Some(Metric_oneof_metric::gauge(v)) => v,
            _ => 0,
        }
    }

    /// Unsets `metric`, whichever of its cases it holds.
    pub fn clear_counter(&mut self)
        ensures
            *final(self) == (Metric { metric: None, ..*old(self) }),
    {
        self.metric = None;
    }

    /// Whether `metric` holds the case `counter`.
    pub fn has_counter(&self) -> (r: bool)
        ensures
            r == (self.metric matches Some(Metric_oneof_metric::counter(_))),
    {
        match self.metric {
            Some(Metric_oneof_metric::counter(_)) => true,
            _ => false,
        }
    }

    /// Makes `metric` the case `counter` with `v`.
    pub fn set_counter(&mut self, v: u64)
        ensures
            *final(self) == (Metric { metric: Some(Metric_oneof_metric::counter(v)), ..*old(self) }),
    {
        self.metric = Some(Metric_oneof_metric::counter(v));
    }

    /// The number of the case `counter`, or 0 where `metric` holds another case
    /// or none.
    pub fn get_counter(&self) -> (r: u64)
        ensures
            r == match self.metric {
                Some(Metric_oneof_metric::counter(v)) => v,
                _ => 0,
            },
    {
        match self.metric {
            Some(Metric_oneof_metric::counter(v)) => v,
            _ => 0,
        }
    }

    /// Unsets `metric`, whichever of its cases it holds.
    pub fn clear_v2_serialized_histogram(&mut self)
        ensures
            *final(self) == (Metric { metric: None, ..*old(self) }),
    {
        self.metric = None;
    }

    /// Whether `metric` holds the case `v2_serialized_histogram`.
    pub fn has_v2_serialized_histogram(&self) -> (r: bool)
        ensures
            r == (self.metric matches Some(Metric_oneof_metric::v2_serialized_histogram(_))),
    {
        match self.metric {
            Some(Metric_oneof_metric::v2_serialized_histogram(_)) => true,
            _ => false,
        }
    }

    /// Makes `metric` the case `v2_serialized_histogram` with `v`.
    pub fn set_v2_serialized_histogram(&mut self, v: Vec<u8>)
        ensures
            *final(self) == (Metric { metric: Some(Metric_oneof_metric::v2_serialized_histogram(v)), ..*old(self) }),
    {
        self.metric = Some(Metric_oneof_metric::v2_serialized_histogram(v));
    }

    /// A mutable reference to the bytes of the case `v2_serialized_histogram`. Where `metric` holds
    /// another case or none, it is first made the case `v2_serialized_histogram` with no bytes.
    pub fn mut_v2_serialized_histogram(&mut self) -> (r: &mut Vec<u8>)
        ensures
            match old(self).metric {
                Some(Metric_oneof_metric::v2_serialized_histogram(v)) => *r == v,
                _ => r@ == Seq::<u8>::empty(),
            },
            *final(self) == (Metric { metric: Some(Metric_oneof_metric::v2_serialized_histogram(*final(r))), ..*old(self) }),
    {
        if let Some(Metric_oneof_metric::v2_serialized_histogram(_)) = self.metric {
        } else {
            self.metric = Some(Metric_oneof_metric::v2_serialized_histogram(Vec::new()));
        }
        match &mut self.metric {
            Some(Metric_oneof_metric::v2_serialized_histogram(v)) => v,
            _ => vstd::pervasive::unreached(),
        }
    }

    /// Takes the bytes of the case `v2_serialized_histogram` out and leaves `metric` unset. Where `metric`
    /// holds another case or none, nothing changes and no bytes is returned.
    pub fn take_v2_serialized_histogram(&mut self) -> (r: Vec<u8>)
        ensures
            match old(self).metric {
                Some(Metric_oneof_metric::v2_serialized_histogram(v)) => r == v && *final(self) == (Metric {
                    metric: None,
                    ..*old(self)
                }),
                _ => r@ == Seq::<u8>::empty() && *final(self) == *old(self),
            },
    {
        if self.has_v2_serialized_histogram() {
            match self.metric.take() {
                Some(Metric_oneof_metric::v2_serialized_histogram(v)) => v,
                _ => vstd::pervasive::unreached(),
            }
        } else {
            Vec::new()
        }
    }

    /// The bytes of the case `v2_serialized_histogram`, or no bytes where `metric` holds another case or
    /// none.
    pub fn get_v2_serialized_histogram(&self) -> (r: &[u8])
        ensures
            r@ == match self.metric {
                Some(Metric_oneof_metric::v2_serialized_histogram(v)) => v@,
                _ => Seq::<u8>::empty(),
            },
    {
        match &self.metric {
            Some(Metric_oneof_metric::v2_serialized_histogram(v)) => v.as_slice(),
            _ => &[],
        }
    }
}

impl Default for Metric {
    /// A message in which nothing is set.
    fn default() -> (r: Metric)
        ensures
            r.is_default(),
    {
        Metric::new()
    }
}

impl Metric_oneof_metric {
    /// Whether the two hold the same case with the same value, byte strings and
    /// lists taken by what they hold.
    pub open spec fn same(&self, other: Metric_oneof_metric) -> bool {
        match (*self, other) {
            (Metric_oneof_metric::gauge(a), Metric_oneof_metric::gauge(b)) => a == b,
            (Metric_oneof_metric::counter(a), Metric_oneof_metric::counter(b)) => a == b,
            (Metric_oneof_metric::v2_serialized_histogram(a), Metric_oneof_metric::v2_serialized_histogram(b)) => a@ == b@,
            _ => false,
        }
    }
}

impl Clone for Metric_oneof_metric {
    fn clone(&self) -> (r: Metric_oneof_metric)
        ensures
            self.same(r),
    {
        match self {
            Metric_oneof_metric::gauge(v) => Metric_oneof_metric::gauge(*v),
            Metric_oneof_metric::counter(v) => Metric_oneof_metric::counter(*v),
            Metric_oneof_metric::v2_serialized_histogram(v) => Metric_oneof_metric::v2_serialized_histogram(copy_bytes(v)),
        }
    }
}

impl Metric {
    /// Whether the two messages hold the same, field by field, byte strings and
    /// lists taken by what they hold.
    pub open spec fn same(&self, other: Metric) -> bool {
        &&& match (self.metric, other.metric) {
            (Some(a), Some(b)) => a.same(b),
            (None, None) => true,
            _ => false,
        }
    }
}

impl Clone for Metric {
    fn clone(&self) -> (r: Metric)
        ensures
            self.same(r),
    {
        let metric = match &self.metric {
            Some(v) => Some(v.clone()),
            None => None,
        };
        Metric { metric }
    }
}

impl Metric {
    /// The number of bytes that the message takes on the wire: for each field
    /// that is set, its tag and its value.
    pub open spec fn wire_len(&self) -> int {
        (match self.metric {
            Some(Metric_oneof_metric::gauge(v)) => varint_field_len(1, unsigned_bits(v)),
            Some(Metric_oneof_metric::counter(v)) => varint_field_len(2, v as int),
            Some(Metric_oneof_metric::v2_serialized_histogram(v)) => delimited_len(3, v@.len() as int),
            None => 0,
        })
    }

    /// Whether the size of the message can be computed: no text or byte string
    /// in it is longer than `MAX_PAYLOAD`, and the whole fits 32 bits.
    pub open spec fn sizable(&self) -> bool {
        &&& match self.metric {
            Some(Metric_oneof_metric::v2_serialized_histogram(v)) => v@.len() <= MAX_PAYLOAD,
            _ => true,
        }
        &&& self.wire_len() <= u32::MAX
    }

    /// Each field of a message takes no negative number of bytes.
    proof fn lemma_parts(&self)
        ensures
            (match self.metric {
                Some(Metric_oneof_metric::gauge(v)) => varint_field_len(1, unsigned_bits(v)),
                Some(Metric_oneof_metric::counter(v)) => varint_field_len(2, v as int),
                Some(Metric_oneof_metric::v2_serialized_histogram(v)) => delimited_len(3, v@.len() as int),
                None => 0,
            }) >= 0,
    {}

    /// A message takes no negative number of bytes.
    pub proof fn lemma_wire_len(&self)
        ensures
            self.wire_len() >= 0,
    {
        self.lemma_parts();
    }

    /// The size of the message on the wire, or `None` where it cannot be
    /// computed.
    pub fn checked_size(&self) -> (r: Option<u32>)
        ensures
            r == if self.sizable() {
                Some(self.wire_len() as u32)
            } else {
                None
            },
    {
        proof {
            self.lemma_parts();
        }
        let mut my_size: u32 = 0;
        if let Some(case) = &self.metric {
            let field = match case {
                Metric_oneof_metric::gauge(v) => {
                    let field = int64_field_size(1, *v);
                    field
                },
                Metric_oneof_metric::counter(v) => {
                    let field = uint64_field_size(2, *v);
                    field
                },
                Metric_oneof_metric::v2_serialized_histogram(v) => {
                    let field = match bytes_field_size(3, v.as_slice()) {
                        Some(size) => size,
                        None => return None,
                    };
                    field
                },
            };
            my_size = match add_size(my_size, field) {
                Some(size) => size,
                None => return None,
            };
        }
        Some(my_size)
    }

    /// The size of the message on the wire.
    pub fn compute_size(&self) -> (r: u32)
        requires
            self.sizable(),
        ensures
            r == self.wire_len(),
    {
        proof {
            self.lemma_wire_len();
        }
        match self.checked_size() {
            Some(size) => size,
            None => vstd::pervasive::unreached(),
        }
    }
}

impl Metric {
    /// The kind of value that the field with the number `field_number` holds,
    /// or `None` where the message has no such field.
    pub open spec fn spec_field_kind(field_number: u32) -> Option<FieldKind> {
        if field_number == 1 {
            Some(FieldKind::Int64)
        } else if field_number == 2 {
            Some(FieldKind::Uint64)
        } else if field_number == 3 {
            Some(FieldKind::Bytes)
        } else {
            None
        }
    }

    /// The kind of value that the field with the number `field_number` holds,
    /// or `None` where the message has no such field.
    pub fn field_kind(field_number: u32) -> (r: Option<FieldKind>)
        ensures
            r == Self::spec_field_kind(field_number),
    {
        match field_number {
            1 => Some(FieldKind::Int64),
            2 => Some(FieldKind::Uint64),
            3 => Some(FieldKind::Bytes),
            _ => None,
        }
    }

    /// The kind of value to read for the field `field_number` when it comes
    /// in the layout `wire`: the field's kind if that is its layout, else
    /// `None`.
    pub fn accepts(field_number: u32, wire: WireKind) -> (r: Option<FieldKind>)
        ensures
            r == match Self::spec_field_kind(field_number) {
                Some(k) => if k.spec_wire_kind() == wire {
                    Some(k)
                } else {
                    None
                },
                None => None,
            },
    {
        match Self::field_kind(field_number) {
            Some(k) => if k.wire_kind() == wire {
                Some(k)
            } else {
                None
            },
            None => None,
        }
    }

    /// The message after a value was taken in for the field `field_number`:
    /// the field holds the value, if the value is of the field's kind; else
    /// nothing changes.
    pub open spec fn with_field(self, field_number: u32, value: FieldValue) -> Metric {
        if field_number == 1 {
            match value {
                FieldValue::Int64(v) => Metric { metric: Some(Metric_oneof_metric::gauge(v)), ..self },
                _ => self,
            }
        } else if field_number == 2 {
            match value {
                FieldValue::Uint64(v) => Metric { metric: Some(Metric_oneof_metric::counter(v)), ..self },
                _ => self,
            }
        } else if field_number == 3 {
            match value {
                FieldValue::Bytes(v) => Metric { metric: Some(Metric_oneof_metric::v2_serialized_histogram(v)), ..self },
                _ => self,
            }
        } else {
            self
        }
    }

    /// The fields that are set, in the order in which they are written.
    pub open spec fn spec_fields(&self) -> Seq<(u32, FieldValue)> {
        (match self.metric {
            Some(Metric_oneof_metric::gauge(v)) => seq![(1u32, FieldValue::Int64(v))],
            Some(Metric_oneof_metric::counter(v)) => seq![(2u32, FieldValue::Uint64(v))],
            Some(Metric_oneof_metric::v2_serialized_histogram(v)) => seq![(3u32, FieldValue::Bytes(v))],
            None => Seq::<(u32, FieldValue)>::empty(),
        })
    }

    /// Takes in a value that was read for the field `field_number`, and says
    /// whether the value is of the field's kind. Any other value is refused
    /// and changes nothing.
    pub fn merge_field(&mut self, field_number: u32, value: FieldValue) -> (accepted: bool)
        ensures
            accepted == (Self::spec_field_kind(field_number) == Some(value.kind())),
            *final(self) == old(self).with_field(field_number, value),
    {
        match field_number {
            1 => match value {
                FieldValue::Int64(v) => {
                    self.set_gauge(v);
                    true
                },
                _ => false,
            },
            2 => match value {
                FieldValue::Uint64(v) => {
                    self.set_counter(v);
                    true
                },
                _ => false,
            },
            3 => match value {
                FieldValue::Bytes(v) => {
                    self.set_v2_serialized_histogram(v);
                    true
                },
                _ => false,
            },
            _ => false,
        }
    }

    /// The fields that are set, in the order in which they are written.
    pub fn set_fields(&self) -> (r: Vec<(u32, FieldRef<'_>)>)
        ensures
            lists_fields(r@, self.spec_fields()),
    {
        let mut r: Vec<(u32, FieldRef<'_>)> = Vec::new();
        if let Some(case) = &self.metric {
            match case {
                Metric_oneof_metric::gauge(v) => r.push((1, FieldRef::Int64(*v))),
                Metric_oneof_metric::counter(v) => r.push((2, FieldRef::Uint64(*v))),
                Metric_oneof_metric::v2_serialized_histogram(v) => r.push((3, FieldRef::Bytes(v.as_slice()))),
            }
        }
        proof {
            assert(lists_fields(
                r@,
                (match self.metric {
                    Some(Metric_oneof_metric::gauge(v)) => seq![(1u32, FieldValue::Int64(v))],
                    Some(Metric_oneof_metric::counter(v)) => seq![(2u32, FieldValue::Uint64(v))],
                    Some(Metric_oneof_metric::v2_serialized_histogram(v)) => seq![(3u32, FieldValue::Bytes(v))],
                    None => Seq::<(u32, FieldValue)>::empty(),
                }),
            ));
        }
        r
    }
}


impl Metric {
    /// The message in which nothing is set.
    pub open spec fn spec_empty() -> Metric {
        Metric { metric: None }
    }

    /// The message after each of the fields was taken in, first to last.
    pub open spec fn merge_fields(self, fields: Seq<(u32, FieldValue)>) -> Metric
        decreases fields.len(),
    {
        if fields.len() == 0 {
            self
        } else {
            self.merge_fields(fields.drop_last()).with_field(fields.last().0, fields.last().1)
        }
    }

    /// Taking in two lists of fields one after the other comes to taking in
    /// the two as one list.
    pub proof fn lemma_merge_concat(
        self,
        first: Seq<(u32, FieldValue)>,
        second: Seq<(u32, FieldValue)>,
    )
        ensures
            self.merge_fields(first + second) == self.merge_fields(first).merge_fields(second),
        decreases second.len(),
    {
        if second.len() == 0 {
            assert(first + second =~= first);
        } else {
            self.lemma_merge_concat(first, second.drop_last());
            assert((first + second).drop_last() =~= first + second.drop_last());
        }
    }

    /// What a message writes it reads back: every field that it lists is of
    /// the kind that its number calls for, and an empty message that takes in
    /// the fields in their order is the message again.
    pub proof fn lemma_written_fields_read_back(self)
        ensures
            forall|i: int|
                0 <= i < self.spec_fields().len() ==> Self::spec_field_kind(
                    (#[trigger] self.spec_fields()[i]).0,
                ) == Some(self.spec_fields()[i].1.kind()),
            Self::spec_empty().merge_fields(self.spec_fields()) == self,
    {
        reveal_with_fuel(Metric::merge_fields, 3);
        let e = Self::spec_empty();
        let t0 = (match self.metric {
            Some(Metric_oneof_metric::gauge(v)) => seq![(1u32, FieldValue::Int64(v))],
            Some(Metric_oneof_metric::counter(v)) => seq![(2u32, FieldValue::Uint64(v))],
            Some(Metric_oneof_metric::v2_serialized_histogram(v)) => seq![(3u32, FieldValue::Bytes(v))],
            None => Seq::<(u32, FieldValue)>::empty(),
        });
        let all0 = t0;
        assert(t0.len() <= 1);
        if t0.len() == 1 {
            assert(t0.drop_last() =~= Seq::<(u32, FieldValue)>::empty());
        }
        let s0 = e.merge_fields(all0);
        assert(s0 == (Metric { metric: self.metric }));
        assert(all0 =~= self.spec_fields());
    }
}

/// A list of metrics.
#[derive(Debug, PartialEq)]
pub struct Metrics {
    pub metrics: Vec<Metric>,
}

impl Metrics {
    /// Whether nothing is set in the message.
    pub open spec fn is_default(&self) -> bool {
        &&& self.metrics@ == Seq::<Metric>::empty()
    }

    /// A message in which nothing is set.
    pub fn new() -> (r: Metrics)
        ensures
            r.is_default(),
    {
        Metrics { metrics: Vec::new() }
    }

    /// Empties `metrics`.
    pub fn clear_metrics(&mut self)
        ensures
            final(self).metrics@ == Seq::<Metric>::empty(),
    {
        self.metrics.clear();
    }

    /// Replaces `metrics` by `v`.
    pub fn set_metrics(&mut self, v: Vec<Metric>)
        ensures
            *final(self) == (Metrics { metrics: v }),
    {
        self.metrics = v;
    }

    /// A mutable reference to `metrics`.
    pub fn mut_metrics(&mut self) -> (r: &mut Vec<Metric>)
        ensures
            *r == old(self).metrics,
            *final(self) == (Metrics { metrics: *final(r) }),
    {
        &mut self.metrics
    }

    /// Takes the list out of `metrics` and leaves it empty.
    pub fn take_metrics(&mut self) -> (r: Vec<Metric>)
        ensures
            r == old(self).metrics,
            final(self).metrics@ == Seq::<Metric>::empty(),
    {
        let mut r: Vec<Metric> = Vec::new();
        std::mem::swap(&mut self.metrics, &mut r);
        r
    }

    /// What `metrics` lists.
    pub fn get_metrics(&self) -> (r: &[Metric])
        ensures
            r@ == self.metrics@,
    {
        self.metrics.as_slice()
    }
}

impl Default for Metrics {
    /// A message in which nothing is set.
    fn default() -> (r: Metrics)
        ensures
            r.is_default(),
    {
        Metrics::new()
    }
}

impl Metrics {
    /// Whether the two messages hold the same, field by field, byte strings and
    /// lists taken by what they hold.
    pub open spec fn same(&self, other: Metrics) -> bool {
        &&& self.metrics@.len() == other.metrics@.len()
        &&& forall|i: int|
            0 <= i < self.metrics@.len() ==> (#[trigger] self.metrics@[i]).same(other.metrics@[i])
    }
}

impl Clone for Metrics {
    fn clone(&self) -> (r: Metrics)
        ensures
            self.same(r),
    {
        let mut metrics: Vec<Metric> = Vec::new();
        let mut i: usize = 0;
        while i < self.metrics.len()
            invariant
                i <= self.metrics@.len(),
                metrics@.len() == i,
                forall|k: int| 0 <= k < i ==> (#[trigger] self.metrics@[k]).same(metrics@[k]),
            decreases self.metrics.len() - i,
        {
            metrics.push(self.metrics[i].clone());
            i = i + 1;
        }
        Metrics { metrics }
    }
}

/// The number of bytes that the listed messages take on the wire as the field
/// `metrics` of a `Metrics`.
pub open spec fn metrics_wire_len(list: Seq<Metric>) -> int
    decreases list.len(),
{
    if list.len() == 0 {
        0
    } else {
        metrics_wire_len(list.drop_last()) + delimited_len(1, list.last().wire_len())
    }
}

/// The first messages of a list take no more bytes than the whole list.
pub proof fn lemma_metrics_wire_len(list: Seq<Metric>, i: int)
    requires
        0 <= i <= list.len(),
    ensures
        0 <= metrics_wire_len(list.take(i)) <= metrics_wire_len(list),
    decreases list.len(),
{
    if i == list.len() {
        assert(list.take(i) =~= list);
        if list.len() > 0 {
            lemma_metrics_wire_len(list.drop_last(), i - 1);
            list.last().lemma_wire_len();
        }
    } else {
        assert(list.take(i) =~= list.drop_last().take(i));
        lemma_metrics_wire_len(list.drop_last(), i);
        list.last().lemma_wire_len();
    }
}

impl Metrics {
    /// The number of bytes that the message takes on the wire.
    pub open spec fn wire_len(&self) -> int {
        metrics_wire_len(self.metrics@)
    }

    /// Whether the size of the message can be computed: each listed message
    /// can be sized, and the whole fits 32 bits.
    pub open spec fn sizable(&self) -> bool {
        &&& forall|i: int| 0 <= i < self.metrics@.len() ==> (#[trigger] self.metrics@[i]).sizable()
        &&& self.wire_len() <= u32::MAX
    }

    /// A message takes no negative number of bytes.
    pub proof fn lemma_wire_len(&self)
        ensures
            self.wire_len() >= 0,
    {
        lemma_metrics_wire_len(self.metrics@, 0);
    }

    /// The size of the message on the wire, or `None` where it cannot be
    /// computed.
    pub fn checked_size(&self) -> (r: Option<u32>)
        ensures
            r == if self.sizable() {
                Some(self.wire_len() as u32)
            } else {
                None
            },
    {
        let mut my_size: u32 = 0;
        let mut i: usize = 0;
        proof {
            assert(self.metrics@.take(0) =~= Seq::<Metric>::empty());
        }
        while i < self.metrics.len()
            invariant
                i <= self.metrics@.len(),
                my_size == metrics_wire_len(self.metrics@.take(i as int)),
                forall|k: int| 0 <= k < i ==> (#[trigger] self.metrics@[k]).sizable(),
            decreases self.metrics.len() - i,
        {
            proof {
                lemma_metrics_wire_len(self.metrics@, i + 1);
                assert(self.metrics@.take(i + 1).drop_last() =~= self.metrics@.take(i as int));
                assert(self.metrics@.take(i + 1).last() == self.metrics@[i as int]);
                self.metrics@[i as int].lemma_wire_len();
            }
            let len = match self.metrics[i].checked_size() {
                Some(len) => len,
                None => return None,
            };
            let field = match nested_size(1, len) {
                Some(size) => size,
                None => return None,
            };
            my_size = match add_size(my_size, field) {
                Some(size) => size,
                None => return None,
            };
            i = i + 1;
        }
        proof {
            assert(self.metrics@.take(self.metrics@.len() as int) =~= self.metrics@);
        }
        Some(my_size)
    }

    /// The size of the message on the wire.
    pub fn compute_size(&self) -> (r: u32)
        requires
            self.sizable(),
        ensures
            r == self.wire_len(),
    {
        proof {
            self.lemma_wire_len();
        }
        match self.checked_size() {
            Some(size) => size,
            None => vstd::pervasive::unreached(),
        }
    }
}

impl Metrics {
    /// The kind of value that the field with the number `field_number` holds,
    /// or `None` where the message has no such field.
    pub open spec fn spec_field_kind(field_number: u32) -> Option<FieldKind> {
        if field_number == 1 {
            Some(FieldKind::Metric)
        } else {
            None
        }
    }

    /// The kind of value that the field with the number `field_number` holds,
    /// or `None` where the message has no such field.
    pub fn field_kind(field_number: u32) -> (r: Option<FieldKind>)
        ensures
            r == Self::spec_field_kind(field_number),
    {
        match field_number {
            1 => Some(FieldKind::Metric),
            _ => None,
        }
    }

    /// The kind of value to read for the field `field_number` when it comes
    /// in the layout `wire`: the field's kind if that is its layout, else
    /// `None`.
    pub fn accepts(field_number: u32, wire: WireKind) -> (r: Option<FieldKind>)
        ensures
            r == match Self::spec_field_kind(field_number) {
                Some(k) => if k.spec_wire_kind() == wire {
                    Some(k)
                } else {
                    None
                },
                None => None,
            },
    {
        match Self::field_kind(field_number) {
            Some(k) => if k.wire_kind() == wire {
                Some(k)
            } else {
                None
            },
            None => None,
        }
    }

    /// The fields that are set, in the order in which they are written: each
    /// listed message as the field `metrics`.
    pub open spec fn spec_fields(&self) -> Seq<(u32, FieldValue)> {
        Seq::new(self.metrics@.len(), |i: int| (1u32, FieldValue::Metric(self.metrics@[i])))
    }

    /// Takes in a value that was read for the field `field_number`: a `Metric`
    /// for the field `metrics` is appended to the list. Any other value is
    /// refused and changes nothing.
    pub fn merge_field(&mut self, field_number: u32, value: FieldValue) -> (accepted: bool)
        ensures
            accepted == (Self::spec_field_kind(field_number) == Some(value.kind())),
            !accepted ==> *final(self) == *old(self),
            accepted ==> (value matches FieldValue::Metric(v) && final(self).metrics@ == old(
                self,
            ).metrics@.push(v)),
    {
        if field_number != 1 {
            return false;
        }
        match value {
            FieldValue::Metric(v) => {
                self.metrics.push(v);
                true
            },
            _ => false,
        }
    }

    /// The fields that are set, in the order in which they are written.
    pub fn set_fields(&self) -> (r: Vec<(u32, FieldRef<'_>)>)
        ensures
            lists_fields(r@, self.spec_fields()),
    {
        let mut r: Vec<(u32, FieldRef<'_>)> = Vec::new();
        let mut i: usize = 0;
        while i < self.metrics.len()
            invariant
                i <= self.metrics@.len(),
                r@.len() == i,
                forall|k: int|
                    0 <= k < i ==> (#[trigger] r@[k]).0 == 1 && shows(
                        r@[k].1,
                        FieldValue::Metric(self.metrics@[k]),
                    ),
            decreases self.metrics.len() - i,
        {
            r.push((1, FieldRef::Metric(&self.metrics[i])));
            i = i + 1;
        }
        r
    }
}

} // verus!
