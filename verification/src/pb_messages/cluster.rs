//! The wire form of the messages between cluster servers.

use crate::pb_messages::envelope::Envelope;
use crate::pb_messages::members::MemberORSet;
use crate::pb_messages::field::lists_fields;
use crate::pb_messages::field::FieldKind;
use crate::pb_messages::field::FieldRef;
use crate::pb_messages::field::FieldValue;
use crate::pb_messages::field::WireKind;
use crate::pb_messages::field::copy_bytes;
use crate::pb_messages::size::add_size;
use crate::pb_messages::size::bool_field_len;
use crate::pb_messages::size::bool_field_size;
use crate::pb_messages::size::bytes_field_size;
use crate::pb_messages::size::delimited_len;
use crate::pb_messages::size::nested_size;
use crate::pb_messages::size::MAX_PAYLOAD;
use vstd::prelude::*;

verus! {

/// What a message between cluster servers carries.
#[allow(non_camel_case_types)]
#[derive(Debug, PartialEq)]
pub enum ClusterServerMsg_oneof_msg {
    orset(MemberORSet),
    Ping(bool),
    envelope(Envelope),
    Delta(Vec<u8>),
}

/// A message between the cluster servers of two nodes.
#[derive(Debug, PartialEq)]
pub struct ClusterServerMsg {
    pub msg: Option<ClusterServerMsg_oneof_msg>,
}

#[allow(non_snake_case)]
impl ClusterServerMsg {
    /// Whether nothing is set in the message.
    pub open spec fn is_default(&self) -> bool {
        &&& self.msg is None
    }

    /// A message in which nothing is set.
    pub fn new() -> (r: ClusterServerMsg)
        ensures
            r.is_default(),
    {
        ClusterServerMsg { msg: None }
    }

    /// Unsets `msg`, whichever of its cases it holds.
    pub fn clear_orset(&mut self)
        ensures
            *final(self) == (ClusterServerMsg { msg: None, ..*old(self) }),
    {
        self.msg = None;
    }

    /// Whether `msg` holds the case `orset`.
    pub fn has_orset(&self) -> (r: bool)
        ensures
            r == (self.msg matches Some(ClusterServerMsg_oneof_msg::orset(_))),
    {
        match self.msg {
            Some(ClusterServerMsg_oneof_msg::orset(_)) => true,
            _ => false,
        }
    }

    /// Makes `msg` the case `orset` with `v`.
    pub fn set_orset(&mut self, v: MemberORSet)
        ensures
            *final(self) == (ClusterServerMsg { msg: Some(ClusterServerMsg_oneof_msg::orset(v)), ..*old(self) }),
    {
        self.msg = Some(ClusterServerMsg_oneof_msg::orset(v));
    }

    /// A mutable reference to the message of the case `orset`. Where `msg` holds
    /// another case or none, it is first made the case `orset` with an empty message.
    pub fn mut_orset(&mut self) -> (r: &mut MemberORSet)
        ensures
            match old(self).msg {
                Some(ClusterServerMsg_oneof_msg::orset(v)) => *r == v,
                _ => r.is_default(),
            },
            *final(self) == (ClusterServerMsg { msg: Some(ClusterServerMsg_oneof_msg::orset(*final(r))), ..*old(self) }),
    {
        if let Some(ClusterServerMsg_oneof_msg::orset(_)) = self.msg {
        } else {
            self.msg = Some(ClusterServerMsg_oneof_msg::orset(MemberORSet::new()));
        }
        match &mut self.msg {
            Some(ClusterServerMsg_oneof_msg::orset(v)) => v,
            _ => vstd::pervasive::unreached(),
        }
    }

    /// Takes the message of the case `orset` out and leaves `msg` unset. Where `msg`
    /// holds another case or none, nothing changes and an empty message is returned.
    pub fn take_orset(&mut self) -> (r: MemberORSet)
        ensures
            match old(self).msg {
                Some(ClusterServerMsg_oneof_msg::orset(v)) => r == v && *final(self) == (ClusterServerMsg {
                    msg: None,
                    ..*old(self)
                }),
                _ => r.is_default() && *final(self) == *old(self),
            },
    {
        if self.has_orset() {
            match self.msg.take() {
                Some(ClusterServerMsg_oneof_msg::orset(v)) => v,
                _ => vstd::pervasive::unreached(),
            }
        } else {
            MemberORSet::new()
        }
    }

    /// The message of the case `orset`, or the message in which nothing is set
    /// where `msg` holds another case or none.
    pub fn get_orset(&self) -> (r: MemberORSet)
        ensures
            match self.msg {
                Some(ClusterServerMsg_oneof_msg::orset(v)) => v.same(r),
                _ => r == MemberORSet::spec_empty(),
            },
    {
        match &self.msg {
            Some(ClusterServerMsg_oneof_msg::orset(v)) => v.clone(),
            _ => MemberORSet::new(),
        }
    }

    /// Unsets `msg`, whichever of its cases it holds.
    pub fn clear_Ping(&mut self)
        ensures
            *final(self) == (ClusterServerMsg { msg: None, ..*old(self) }),
    {
        self.msg = None;
    }

    /// Whether `msg` holds the case `Ping`.
    pub fn has_Ping(&self) -> (r: bool)
        ensures
            r == (self.msg matches Some(ClusterServerMsg_oneof_msg::Ping(_))),
    {
        match self.msg {
            Some(ClusterServerMsg_oneof_msg::Ping(_)) => true,
            _ => false,
        }
    }

    /// Makes `msg` the case `Ping` with `v`.
    pub fn set_Ping(&mut self, v: bool)
        ensures
            *final(self) == (ClusterServerMsg { msg: Some(ClusterServerMsg_oneof_msg::Ping(v)), ..*old(self) }),
    {
        self.msg = Some(ClusterServerMsg_oneof_msg::Ping(v));
    }

    /// The flag of the case `Ping`, or `false` where `msg` holds another case
    /// or none.
    pub fn get_Ping(&self) -> (r: bool)
        ensures
            r == match self.msg {
                Some(ClusterServerMsg_oneof_msg::Ping(v)) => v,
                _ => false,
            },
    {
        match self.msg {
            Some(ClusterServerMsg_oneof_msg::Ping(v)) => v,
            _ => false,
        }
    }

    /// Unsets `msg`, whichever of its cases it holds.
    pub fn clear_envelope(&mut self)
        ensures
            *final(self) == (ClusterServerMsg { msg: None, ..*old(self) }),
    {
        self.msg = None;
    }

    /// Whether `msg` holds the case `envelope`.
    pub fn has_envelope(&self) -> (r: bool)
        ensures
            r == (self.msg matches Some(ClusterServerMsg_oneof_msg::envelope(_))),
    {
        match self.msg {
            Some(ClusterServerMsg_oneof_msg::envelope(_)) => true,
            _ => false,
        }
    }

    /// Makes `msg` the case `envelope` with `v`.
    pub fn set_envelope(&mut self, v: Envelope)
        ensures
            *final(self) == (ClusterServerMsg { msg: Some(ClusterServerMsg_oneof_msg::envelope(v)), ..*old(self) }),
    {
        self.msg = Some(ClusterServerMsg_oneof_msg::envelope(v));
    }

    /// A mutable reference to the message of the case `envelope`. Where `msg` holds
    /// another case or none, it is first made the case `envelope` with an empty message.
    pub fn mut_envelope(&mut self) -> (r: &mut Envelope)
        ensures
            match old(self).msg {
                Some(ClusterServerMsg_oneof_msg::envelope(v)) => *r == v,
                _ => r.is_default(),
            },
            *final(self) == (ClusterServerMsg { msg: Some(ClusterServerMsg_oneof_msg::envelope(*final(r))), ..*old(self) }),
    {
        if let Some(ClusterServerMsg_oneof_msg::envelope(_)) = self.msg {
        } else {
            self.msg = Some(ClusterServerMsg_oneof_msg::envelope(Envelope::new()));
        }
        match &mut self.msg {
            Some(ClusterServerMsg_oneof_msg::envelope(v)) => v,
            _ => vstd::pervasive::unreached(),
        }
    }

    /// Takes the message of the case `envelope` out and leaves `msg` unset. Where `msg`
    /// holds another case or none, nothing changes and an empty message is returned.
    pub fn take_envelope(&mut self) -> (r: Envelope)
        ensures
            match old(self).msg {
                Some(ClusterServerMsg_oneof_msg::envelope(v)) => r == v && *final(self) == (ClusterServerMsg {
                    msg: None,
                    ..*old(self)
                }),
                _ => r.is_default() && *final(self) == *old(self),
            },
    {
        if self.has_envelope() {
            match self.msg.take() {
                Some(ClusterServerMsg_oneof_msg::envelope(v)) => v,
                _ => vstd::pervasive::unreached(),
            }
        } else {
            Envelope::new()
        }
    }

    /// The message of the case `envelope`, or the message in which nothing is set
    /// where `msg` holds another case or none.
    pub fn get_envelope(&self) -> (r: Envelope)
        ensures
            match self.msg {
                Some(ClusterServerMsg_oneof_msg::envelope(v)) => v.same(r),
                _ => r == Envelope::spec_empty(),
            },
    {
        match &self.msg {
            Some(ClusterServerMsg_oneof_msg::envelope(v)) => v.clone(),
            _ => Envelope::new(),
        }
    }

    /// Unsets `msg`, whichever of its cases it holds.
    pub fn clear_Delta(&mut self)
        ensures
            *final(self) == (ClusterServerMsg { msg: None, ..*old(self) }),
    {
        self.msg = None;
    }

    /// Whether `msg` holds the case `Delta`.
    pub fn has_Delta(&self) -> (r: bool)
        ensures
            r == (self.msg matches Some(ClusterServerMsg_oneof_msg::Delta(_))),
    {
        match self.msg {
            Some(ClusterServerMsg_oneof_msg::Delta(_)) => true,
            _ => false,
        }
    }

    /// Makes `msg` the case `Delta` with `v`.
    pub fn set_Delta(&mut self, v: Vec<u8>)
        ensures
            *final(self) == (ClusterServerMsg { msg: Some(ClusterServerMsg_oneof_msg::Delta(v)), ..*old(self) }),
    {
        self.msg = Some(ClusterServerMsg_oneof_msg::Delta(v));
    }

    /// A mutable reference to the bytes of the case `Delta`. Where `msg` holds
    /// another case or none, it is first made the case `Delta` with no bytes.
    pub fn mut_Delta(&mut self) -> (r: &mut Vec<u8>)
        ensures
            match old(self).msg {
                Some(ClusterServerMsg_oneof_msg::Delta(v)) => *r == v,
                _ => r@ == Seq::<u8>::empty(),
            },
            *final(self) == (ClusterServerMsg { msg: Some(ClusterServerMsg_oneof_msg::Delta(*final(r))), ..*old(self) }),
    {
        if let Some(ClusterServerMsg_oneof_msg::Delta(_)) = self.msg {
        } else {
            self.msg = Some(ClusterServerMsg_oneof_msg::Delta(Vec::new()));
        }
        match &mut self.msg {
            Some(ClusterServerMsg_oneof_msg::Delta(v)) => v,
            _ => vstd::pervasive::unreached(),
        }
    }

    /// Takes the bytes of the case `Delta` out and leaves `msg` unset. Where `msg`
    /// holds another case or none, nothing changes and no bytes is returned.
    pub fn take_Delta(&mut self) -> (r: Vec<u8>)
        ensures
            match old(self).msg {
                Some(ClusterServerMsg_oneof_msg::Delta(v)) => r == v && *final(self) == (ClusterServerMsg {
                    msg: None,
                    ..*old(self)
                }),
                _ => r@ == Seq::<u8>::empty() && *final(self) == *old(self),
            },
    {
        if self.has_Delta() {
            match self.msg.take() {
                Some(ClusterServerMsg_oneof_msg::Delta(v)) => v,
                _ => vstd::pervasive::unreached(),
            }
        } else {
            Vec::new()
        }
    }

    /// The bytes of the case `Delta`, or no bytes where `msg` holds another case or
    /// none.
    pub fn get_Delta(&self) -> (r: &[u8])
        ensures
            r@ == match self.msg {
                Some(ClusterServerMsg_oneof_msg::Delta(v)) => v@,
                _ => Seq::<u8>::empty(),
            },
    {
        match &self.msg {
            Some(ClusterServerMsg_oneof_msg::Delta(v)) => v.as_slice(),
            _ => &[],
        }
    }
}

impl Default for ClusterServerMsg {
    /// A message in which nothing is set.
    fn default() -> (r: ClusterServerMsg)
        ensures
            r.is_default(),
    {
        ClusterServerMsg::new()
    }
}

impl ClusterServerMsg_oneof_msg {
    /// Whether the two hold the same case with the same value, byte strings and
    /// lists taken by what they hold.
    pub open spec fn same(&self, other: ClusterServerMsg_oneof_msg) -> bool {
        match (*self, other) {
            (ClusterServerMsg_oneof_msg::orset(a), ClusterServerMsg_oneof_msg::orset(b)) => a.same(b),
            (ClusterServerMsg_oneof_msg::Ping(a), ClusterServerMsg_oneof_msg::Ping(b)) => a == b,
            (ClusterServerMsg_oneof_msg::envelope(a), ClusterServerMsg_oneof_msg::envelope(b)) => a.same(b),
            (ClusterServerMsg_oneof_msg::Delta(a), ClusterServerMsg_oneof_msg::Delta(b)) => a@ == b@,
            _ => false,
        }
    }
}

impl Clone for ClusterServerMsg_oneof_msg {
    fn clone(&self) -> (r: ClusterServerMsg_oneof_msg)
        ensures
            self.same(r),
    {
        match self {
            ClusterServerMsg_oneof_msg::orset(v) => ClusterServerMsg_oneof_msg::orset(v.clone()),
            ClusterServerMsg_oneof_msg::Ping(v) => ClusterServerMsg_oneof_msg::Ping(*v),
            ClusterServerMsg_oneof_msg::envelope(v) => ClusterServerMsg_oneof_msg::envelope(v.clone()),
            ClusterServerMsg_oneof_msg::Delta(v) => ClusterServerMsg_oneof_msg::Delta(copy_bytes(v)),
        }
    }
}

impl ClusterServerMsg {
    /// Whether the two messages hold the same, field by field, byte strings and
    /// lists taken by what they hold.
    pub open spec fn same(&self, other: ClusterServerMsg) -> bool {
        &&& match (self.msg, other.msg) {
            (Some(a), Some(b)) => a.same(b),
            (None, None) => true,
            _ => false,
        }
    }
}

impl Clone for ClusterServerMsg {
    fn clone(&self) -> (r: ClusterServerMsg)
        ensures
            self.same(r),
    {
        let msg = match &self.msg {
            Some(v) => Some(v.clone()),
            None => None,
        };
        ClusterServerMsg { msg }
    }
}

impl ClusterServerMsg {
    /// The number of bytes that the message takes on the wire: for each field
    /// that is set, its tag and its value.
    pub open spec fn wire_len(&self) -> int {
        (match self.msg {
            Some(ClusterServerMsg_oneof_msg::orset(v)) => delimited_len(1, v.wire_len()),
            Some(ClusterServerMsg_oneof_msg::Ping(_)) => bool_field_len(2),
            Some(ClusterServerMsg_oneof_msg::envelope(v)) => delimited_len(3, v.wire_len()),
            Some(ClusterServerMsg_oneof_msg::Delta(v)) => delimited_len(4, v@.len() as int),
            None => 0,
        })
    }

    /// Whether the size of the message can be computed: no text or byte string
    /// in it is longer than `MAX_PAYLOAD`, and the whole fits 32 bits.
    pub open spec fn sizable(&self) -> bool {
        &&& match self.msg {
            Some(ClusterServerMsg_oneof_msg::orset(v)) => v.sizable(),
            Some(ClusterServerMsg_oneof_msg::envelope(v)) => v.sizable(),
            Some(ClusterServerMsg_oneof_msg::Delta(v)) => v@.len() <= MAX_PAYLOAD,
            _ => true,
        }
        &&& self.wire_len() <= u32::MAX
    }

    /// Each field of a message takes no negative number of bytes.
    proof fn lemma_parts(&self)
        ensures
            (match self.msg {
                Some(ClusterServerMsg_oneof_msg::orset(v)) => delimited_len(1, v.wire_len()),
                Some(ClusterServerMsg_oneof_msg::Ping(_)) => bool_field_len(2),
                Some(ClusterServerMsg_oneof_msg::envelope(v)) => delimited_len(3, v.wire_len()),
                Some(ClusterServerMsg_oneof_msg::Delta(v)) => delimited_len(4, v@.len() as int),
                None => 0,
            }) >= 0,
    {
        match self.msg {
            Some(ClusterServerMsg_oneof_msg::orset(v)) => v.lemma_wire_len(),
            Some(ClusterServerMsg_oneof_msg::envelope(v)) => v.lemma_wire_len(),
            _ => {},
        }
    }

    /// A message takes no negative number of bytes.
    pub proof fn lemma_wire_len(&self)
        ensures
            self.wire_len() >= 0,
    {
        self.lemma_parts();
    }

    /// The size of the message on the wire, or `None` where it cannot be
    /// computed.
    pub fn checked_size(&self) -> (r: Option<u32>)
        ensures
            r == if self.sizable() {
                Some(self.wire_len() as u32)
            } else {
                None
            },
    {
        proof {
            self.lemma_parts();
        }
        let mut my_size: u32 = 0;
        if let Some(case) = &self.msg {
            let field = match case {
                ClusterServerMsg_oneof_msg::orset(v) => {
                    proof {
                        v.lemma_wire_len();
                    }
                    let len = match v.checked_size() {
                        Some(len) => len,
                        None => return None,
                    };
                    let field = match nested_size(1, len) {
                        Some(size) => size,
                        None => return None,
                    };
                    field
                },
                ClusterServerMsg_oneof_msg::Ping(_) => {
                    let field = bool_field_size(2);
                    field
                },
                ClusterServerMsg_oneof_msg::envelope(v) => {
                    proof {
                        v.lemma_wire_len();
                    }
                    let len = match v.checked_size() {
                        Some(len) => len,
                        None => return None,
                    };
                    let field = match nested_size(3, len) {
                        Some(size) => size,
                        None => return None,
                    };
                    field
                },
                ClusterServerMsg_oneof_msg::Delta(v) => {
                    let field = match bytes_field_size(4, v.as_slice()) {
                        Some(size) => size,
                        None => return None,
                    };
                    field
                },
            };
            my_size = match add_size(my_size, field) {
                Some(size) => size,
                None => return None,
            };
        }
        Some(my_size)
    }

    /// The size of the message on the wire.
    pub fn compute_size(&self) -> (r: u32)
        requires
            self.sizable(),
        ensures
            r == self.wire_len(),
    {
        proof {
            self.lemma_wire_len();
        }
        match self.checked_size() {
            Some(size) => size,
            None => vstd::pervasive::unreached(),
        }
    }
}

impl ClusterServerMsg {
    /// The kind of value that the field with the number `field_number` holds,
    /// or `None` where the message has no such field.
    pub open spec fn spec_field_kind(field_number: u32) -> Option<FieldKind> {
        if field_number == 1 {
            Some(FieldKind::MemberORSet)
        } else if field_number == 2 {
            Some(FieldKind::Bool)
        } else if field_number == 3 {
            Some(FieldKind::Envelope)
        } else if field_number == 4 {
            Some(FieldKind::Bytes)
        } else {
            None
        }
    }

    /// The kind of value that the field with the number `field_number` holds,
    /// or `None` where the message has no such field.
    pub fn field_kind(field_number: u32) -> (r: Option<FieldKind>)
        ensures
            r == Self::spec_field_kind(field_number),
    {
        match field_number {
            1 => Some(FieldKind::MemberORSet),
            2 => Some(FieldKind::Bool),
            3 => Some(FieldKind::Envelope),
            4 => Some(FieldKind::Bytes),
            _ => None,
        }
    }

    /// The kind of value to read for the field `field_number` when it comes
    /// in the layout `wire`: the field's kind if that is its layout, else
    /// `None`.
    pub fn accepts(field_number: u32, wire: WireKind) -> (r: Option<FieldKind>)
        ensures
            r == match Self::spec_field_kind(field_number) {
                Some(k) => if k.spec_wire_kind() == wire {
                    Some(k)
                } else {
                    None
                },
                None => None,
            },
    {
        match Self::field_kind(field_number) {
            Some(k) => if k.wire_kind() == wire {
                Some(k)
            } else {
                None
            },
            None => None,
        }
    }

    /// The message after a value was taken in for the field `field_number`:
    /// the field holds the value, if the value is of the field's kind; else
    /// nothing changes.
    pub open spec fn with_field(self, field_number: u32, value: FieldValue) -> ClusterServerMsg {
        if field_number == 1 {
            match value {
                FieldValue::MemberORSet(v) => ClusterServerMsg { msg: Some(ClusterServerMsg_oneof_msg::orset(v)), ..self },
                _ => self,
            }
        } else if field_number == 2 {
            match value {
                FieldValue::Bool(v) => ClusterServerMsg { msg: Some(ClusterServerMsg_oneof_msg::Ping(v)), ..self },
                _ => self,
            }
        } else if field_number == 3 {
            match value {
                FieldValue::Envelope(v) => ClusterServerMsg { msg: Some(ClusterServerMsg_oneof_msg::envelope(v)), ..self },
                _ => self,
            }
        } else if field_number == 4 {
            match value {
                FieldValue::Bytes(v) => ClusterServerMsg { msg: Some(ClusterServerMsg_oneof_msg::Delta(v)), ..self },
                _ => self,
            }
        } else {
            self
        }
    }

    /// The fields that are set, in the order in which they are written.
    pub open spec fn spec_fields(&self) -> Seq<(u32, FieldValue)> {
        (match self.msg {
            Some(ClusterServerMsg_oneof_msg::orset(v)) => seq![(1u32, FieldValue::MemberORSet(v))],
            Some(ClusterServerMsg_oneof_msg::Ping(v)) => seq![(2u32, FieldValue::Bool(v))],
            Some(ClusterServerMsg_oneof_msg::envelope(v)) => seq![(3u32, FieldValue::Envelope(v))],
            Some(ClusterServerMsg_oneof_msg::Delta(v)) => seq![(4u32, FieldValue::Bytes(v))],
            None => Seq::<(u32, FieldValue)>::empty(),
        })
    }

    /// Takes in a value that was read for the field `field_number`, and says
    /// whether the value is of the field's kind. Any other value is refused
    /// and changes nothing.
    pub fn merge_field(&mut self, field_number: u32, value: FieldValue) -> (accepted: bool)
        ensures
            accepted == (Self::spec_field_kind(field_number) == Some(value.kind())),
            *final(self) == old(self).with_field(field_number, value),
    {
        match field_number {
            1 => match value {
                FieldValue::MemberORSet(v) => {
                    self.set_orset(v);
                    true
                },
                _ => false,
            },
            2 => match value {
                FieldValue::Bool(v) => {
                    self.set_Ping(v);
                    true
                },
                _ => false,
            },
            3 => match value {
                FieldValue::Envelope(v) => {
                    self.set_envelope(v);
                    true
                },
                _ => false,
            },
            4 => match value {
                FieldValue::Bytes(v) => {
                    self.set_Delta(v);
                    true
                },
                _ => false,
            },
            _ => false,
        }
    }

    /// The fields that are set, in the order in which they are written.
    pub fn set_fields(&self) -> (r: Vec<(u32, FieldRef<'_>)>)
        ensures
            lists_fields(r@, self.spec_fields()),
    {
        let mut r: Vec<(u32, FieldRef<'_>)> = Vec::new();
        if let Some(case) = &self.msg {
            match case {
                ClusterServerMsg_oneof_msg::orset(v) => r.push((1, FieldRef::MemberORSet(v))),
                ClusterServerMsg_oneof_msg::Ping(v) => r.push((2, FieldRef::Bool(*v))),
                ClusterServerMsg_oneof_msg::envelope(v) => r.push((3, FieldRef::Envelope(v))),
                ClusterServerMsg_oneof_msg::Delta(v) => r.push((4, FieldRef::Bytes(v.as_slice()))),
            }
        }
        proof {
            assert(lists_fields(
                r@,
                (match self.msg {
                    Some(ClusterServerMsg_oneof_msg::orset(v)) => seq![(1u32, FieldValue::MemberORSet(v))],
                    Some(ClusterServerMsg_oneof_msg::Ping(v)) => seq![(2u32, FieldValue::Bool(v))],
                    Some(ClusterServerMsg_oneof_msg::envelope(v)) => seq![(3u32, FieldValue::Envelope(v))],
                    Some(ClusterServerMsg_oneof_msg::Delta(v)) => seq![(4u32, FieldValue::Bytes(v))],
                    None => Seq::<(u32, FieldValue)>::empty(),
                }),
            ));
        }
        r
    }
}


impl ClusterServerMsg {
    /// The message in which nothing is set.
    pub open spec fn spec_empty() -> ClusterServerMsg {
        ClusterServerMsg { msg: None }
    }

    /// The message after each of the fields was taken in, first to last.
    pub open spec fn merge_fields(self, fields: Seq<(u32, FieldValue)>) -> ClusterServerMsg
        decreases fields.len(),
    {
        if fields.len() == 0 {
            self
        } else {
            self.merge_fields(fields.drop_last()).with_field(fields.last().0, fields.last().1)
        }
    }

    /// Taking in two lists of fields one after the other comes to taking in
    /// the two as one list.
    pub proof fn lemma_merge_concat(
        self,
        first: Seq<(u32, FieldValue)>,
        second: Seq<(u32, FieldValue)>,
    )
        ensures
            self.merge_fields(first + second) == self.merge_fields(first).merge_fields(second),
        decreases second.len(),
    {
        if second.len() == 0 {
            assert(first + second =~= first);
        } else {
            self.lemma_merge_concat(first, second.drop_last());
            assert((first + second).drop_last() =~= first + second.drop_last());
        }
    }

    /// What a message writes it reads back: every field that it lists is of
    /// the kind that its number calls for, and an empty message that takes in
    /// the fields in their order is the message again.
    pub proof fn lemma_written_fields_read_back(self)
        ensures
            forall|i: int|
                0 <= i < self.spec_fields().len() ==> Self::spec_field_kind(
                    (#[trigger] self.spec_fields()[i]).0,
                ) == Some(self.spec_fields()[i].1.kind()),
            Self::spec_empty().merge_fields(self.spec_fields()) == self,
    {
        reveal_with_fuel(ClusterServerMsg::merge_fields, 3);
        let e = Self::spec_empty();
        let t0 = (match self.msg {
            Some(ClusterServerMsg_oneof_msg::orset(v)) => seq![(1u32, FieldValue::MemberORSet(v))],
            Some(ClusterServerMsg_oneof_msg::Ping(v)) => seq![(2u32, FieldValue::Bool(v))],
            Some(ClusterServerMsg_oneof_msg::envelope(v)) => seq![(3u32, FieldValue::Envelope(v))],
            Some(ClusterServerMsg_oneof_msg::Delta(v)) => seq![(4u32, FieldValue::Bytes(v))],
            None => Seq::<(u32, FieldValue)>::empty(),
        });
        let all0 = t0;
        assert(t0.len() <= 1);
        if t0.len() == 1 {
            assert(t0.drop_last() =~= Seq::<(u32, FieldValue)>::empty());
        }
        let s0 = e.merge_fields(all0);
        assert(s0 == (ClusterServerMsg { msg: self.msg }));
        assert(all0 =~= self.spec_fields());
    }
}

} // verus!
