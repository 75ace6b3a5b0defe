//! The fields of the schema's messages as the wire sees them: what kind of
//! value a field holds, and the values that are read for it or written from
//! it.

use crate::pb_messages::correlation_id::CorrelationId;
use crate::pb_messages::envelope::Envelope;
use crate::pb_messages::members::Member;
use crate::pb_messages::members::MemberORSet;
use crate::pb_messages::members::Members;
use crate::pb_messages::metrics::Metric;
use crate::pb_messages::metrics::Metrics;
use crate::pb_messages::msg::PbMsg;
use crate::pb_messages::node_id::NodeId;
use crate::pb_messages::pid::Pid;
use crate::pb_messages::pid::Pids;
use vstd::prelude::*;

verus! {

/// How a value is laid out on the wire.
#[derive(Debug, Clone, Copy, PartialEq, Eq, Structural)]
pub enum WireKind {
    /// A number in the variable-length encoding.
    Varint,
    /// Eight bytes.
    Fixed64,
    /// A count of bytes, then the bytes.
    LengthDelimited,
    /// The start of a group.
    StartGroup,
    /// The end of a group.
    EndGroup,
    /// Four bytes.
    Fixed32,
}

/// A copy of a byte string.
pub fn copy_bytes(bytes: &Vec<u8>) -> (r: Vec<u8>)
    ensures
        r@ == bytes@,
{
    let mut r: Vec<u8> = Vec::new();
    let mut i: usize = 0;
    while i < bytes.len()
        invariant
            i <= bytes@.len(),
            r@ == bytes@.take(i as int),
        decreases bytes.len() - i,
    {
        r.push(bytes[i]);
        proof {
            assert(r@ =~= bytes@.take(i + 1));
        }
        i = i + 1;
    }
    proof {
        assert(bytes@.take(bytes@.len() as int) =~= bytes@);
    }
    r
}

/// The kind of value that a field holds.
#[derive(Debug, Clone, Copy, PartialEq, Eq, Structural)]
pub enum FieldKind {
    Bool,
    Uint64,
    Int64,
    Text,
    Bytes,
    NodeId,
    Pids,
    Pid,
    CorrelationId,
    Envelope,
    PbMsg,
    Members,
    Member,
    Metrics,
    Metric,
    MemberORSet,
}

/// A value that was read for a field.
#[derive(Debug, Clone, PartialEq)]
pub enum FieldValue {
    Bool(bool),
    Uint64(u64),
    Int64(i64),
    Text(String),
    Bytes(Vec<u8>),
    NodeId(NodeId),
    Pids(Pids),
    Pid(Pid),
    CorrelationId(CorrelationId),
    Envelope(Envelope),
    PbMsg(PbMsg),
    Members(Members),
    Member(Member),
    Metrics(Metrics),
    Metric(Metric),
    MemberORSet(MemberORSet),
}

/// A value that a field holds, to be written.
#[derive(Debug, Clone, Copy, PartialEq)]
pub enum FieldRef<'a> {
    Bool(bool),
    Uint64(u64),
    Int64(i64),
    Text(&'a str),
    Bytes(&'a [u8]),
    NodeId(&'a NodeId),
    Pids(&'a Pids),
    Pid(&'a Pid),
    CorrelationId(&'a CorrelationId),
    Envelope(&'a Envelope),
    PbMsg(&'a PbMsg),
    Members(&'a Members),
    Member(&'a Member),
    Metrics(&'a Metrics),
    Metric(&'a Metric),
    MemberORSet(&'a MemberORSet),
}

impl FieldKind {
    /// How a value of this kind is laid out: numbers and flags as a number of
    /// variable length, everything else behind its length.
    pub open spec fn spec_wire_kind(self) -> WireKind {
        match self {
            FieldKind::Bool | FieldKind::Uint64 | FieldKind::Int64 => WireKind::Varint,
            _ => WireKind::LengthDelimited,
        }
    }

    /// How a value of this kind is laid out on the wire.
    pub fn wire_kind(self) -> (r: WireKind)
        ensures
            r == self.spec_wire_kind(),
    {
        match self {
            FieldKind::Bool | FieldKind::Uint64 | FieldKind::Int64 => WireKind::Varint,
            _ => WireKind::LengthDelimited,
        }
    }
}

impl FieldValue {
    /// The kind of the value.
    pub open spec fn kind(self) -> FieldKind {
        match self {
            FieldValue::Bool(_) => FieldKind::Bool,
            FieldValue::Uint64(_) => FieldKind::Uint64,
            FieldValue::Int64(_) => FieldKind::Int64,
            FieldValue::Text(_) => FieldKind::Text,
            FieldValue::Bytes(_) => FieldKind::Bytes,
            FieldValue::NodeId(_) => FieldKind::NodeId,
            FieldValue::Pids(_) => FieldKind::Pids,
            FieldValue::Pid(_) => FieldKind::Pid,
            FieldValue::CorrelationId(_) => FieldKind::CorrelationId,
            FieldValue::Envelope(_) => FieldKind::Envelope,
            FieldValue::PbMsg(_) => FieldKind::PbMsg,
            FieldValue::Members(_) => FieldKind::Members,
            FieldValue::Member(_) => FieldKind::Member,
            FieldValue::Metrics(_) => FieldKind::Metrics,
            FieldValue::Metric(_) => FieldKind::Metric,
            FieldValue::MemberORSet(_) => FieldKind::MemberORSet,
        }
    }
}

/// Whether the reference `r` shows the value `v`.
pub open spec fn shows(r: FieldRef<'_>, v: FieldValue) -> bool {
    match (r, v) {
        (FieldRef::Bool(a), FieldValue::Bool(b)) => a == b,
        (FieldRef::Uint64(a), FieldValue::Uint64(b)) => a == b,
        (FieldRef::Int64(a), FieldValue::Int64(b)) => a == b,
        (FieldRef::Text(a), FieldValue::Text(b)) => a@ == b@,
        (FieldRef::Bytes(a), FieldValue::Bytes(b)) => a@ == b@,
        (FieldRef::NodeId(a), FieldValue::NodeId(b)) => *a == b,
        (FieldRef::Pids(a), FieldValue::Pids(b)) => *a == b,
        (FieldRef::Pid(a), FieldValue::Pid(b)) => *a == b,
        (FieldRef::CorrelationId(a), FieldValue::CorrelationId(b)) => *a == b,
        (FieldRef::Envelope(a), FieldValue::Envelope(b)) => *a == b,
        (FieldRef::PbMsg(a), FieldValue::PbMsg(b)) => *a == b,
        (FieldRef::Members(a), FieldValue::Members(b)) => *a == b,
        (FieldRef::Member(a), FieldValue::Member(b)) => *a == b,
        (FieldRef::Metrics(a), FieldValue::Metrics(b)) => *a == b,
        (FieldRef::Metric(a), FieldValue::Metric(b)) => *a == b,
        (FieldRef::MemberORSet(a), FieldValue::MemberORSet(b)) => *a == b,
        _ => false,
    }
}

/// Whether `list` shows the fields `fields`, number by number and value by
/// value, in their order.
pub open spec fn lists_fields(list: Seq<(u32, FieldRef<'_>)>, fields: Seq<(u32, FieldValue)>) -> bool {
    &&& list.len() == fields.len()
    &&& forall|i: int|
        0 <= i < list.len() ==> (#[trigger] list[i]).0 == fields[i].0 && shows(list[i].1, fields[i].1)
}

} // verus!
