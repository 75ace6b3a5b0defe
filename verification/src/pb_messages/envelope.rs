//! The wire form of an envelope.

use crate::pb_messages::correlation_id::CorrelationId;
use crate::pb_messages::msg::PbMsg;
use crate::pb_messages::pid::Pid;
use crate::pb_messages::field::lists_fields;
use crate::pb_messages::field::FieldKind;
use crate::pb_messages::field::FieldRef;
use crate::pb_messages::field::FieldValue;
use crate::pb_messages::field::WireKind;
use crate::pb_messages::size::add_size;
use crate::pb_messages::size::delimited_len;
use crate::pb_messages::size::nested_size;
use crate::pb_messages::size::MAX_PAYLOAD;
use vstd::prelude::*;

verus! {

/// A message with its addressee, its sender and its correlator.
#[derive(Debug, PartialEq)]
pub struct Envelope {
    pub to: Option<Pid>,
    pub from: Option<Pid>,
    pub cid: Option<CorrelationId>,
    pub msg: Option<PbMsg>,
}

impl Envelope {
    /// Whether nothing is set in the message.
    pub open spec fn is_default(&self) -> bool {
        &&& self.to is None
        &&& self.from is None
        &&& self.cid is None
        &&& self.msg is None
    }

    /// A message in which nothing is set.
    pub fn new() -> (r: Envelope)
        ensures
            r.is_default(),
    {
        Envelope { to: None, from: None, cid: None, msg: None }
    }

    /// Unsets `to`.
    pub fn clear_to(&mut self)
        ensures
            *final(self) == (Envelope { to: None, ..*old(self) }),
    {
        self.to = None;
    }

    /// Whether `to` is set.
    pub fn has_to(&self) -> (r: bool)
        ensures
            r == (self.to is Some),
    {
        self.to.is_some()
    }

    /// Sets `to` to `v`.
    pub fn set_to(&mut self, v: Pid)
        ensures
            *final(self) == (Envelope { to: Some(v), ..*old(self) }),
    {
        self.to = Some(v);
    }

    /// A mutable reference to `to`, which is first set to an empty message where it
    /// is unset.
    pub fn mut_to(&mut self) -> (r: &mut Pid)
        ensures
            match old(self).to {
                Some(v) => *r == v,
                None => r.is_default(),
            },
            *final(self) == (Envelope { to: Some(*final(r)), ..*old(self) }),
    {
        if self.to.is_none() {
            self.to = Some(Pid::new());
        }
        self.to.as_mut().unwrap()
    }

    /// Takes the message out of `to` and leaves it unset; an empty message where
    /// it was unset.
    pub fn take_to(&mut self) -> (r: Pid)
        ensures
            *final(self) == (Envelope { to: None, ..*old(self) }),
            match old(self).to {
                Some(v) => r == v,
                None => r.is_default(),
            },
    {
        match self.to.take() {
            Some(v) => v,
            None => Pid::new(),
        }
    }

    /// The message in `to`, or the message in which nothing is set where it
    /// is unset.
    pub fn get_to(&self) -> (r: Pid)
        ensures
            match self.to {
                Some(v) => r == v,
                None => r == Pid::spec_empty(),
            },
    {
        match &self.to {
            Some(v) => v.clone(),
            None => Pid::new(),
        }
    }

    /// Unsets `from`.
    pub fn clear_from(&mut self)
        ensures
            *final(self) == (Envelope { from: None, ..*old(self) }),
    {
        self.from = None;
    }

    /// Whether `from` is set.
    pub fn has_from(&self) -> (r: bool)
        ensures
            r == (self.from is Some),
    {
        self.from.is_some()
    }

    /// Sets `from` to `v`.
    pub fn set_from(&mut self, v: Pid)
        ensures
            *final(self) == (Envelope { from: Some(v), ..*old(self) }),
    {
        self.from = Some(v);
    }

    /// A mutable reference to `from`, which is first set to an empty message where it
    /// is unset.
    pub fn mut_from(&mut self) -> (r: &mut Pid)
        ensures
            match old(self).from {
                Some(v) => *r == v,
                None => r.is_default(),
            },
            *final(self) == (Envelope { from: Some(*final(r)), ..*old(self) }),
    {
        if self.from.is_none() {
            self.from = Some(Pid::new());
        }
        self.from.as_mut().unwrap()
    }

    /// Takes the message out of `from` and leaves it unset; an empty message where
    /// it was unset.
    pub fn take_from(&mut self) -> (r: Pid)
        ensures
            *final(self) == (Envelope { from: None, ..*old(self) }),
            match old(self).from {
                Some(v) => r == v,
                None => r.is_default(),
            },
    {
        match self.from.take() {
            Some(v) => v,
            None => Pid::new(),
        }
    }

    /// The message in `from`, or the message in which nothing is set where it
    /// is unset.
    pub fn get_from(&self) -> (r: Pid)
        ensures
            match self.from {
                Some(v) => r == v,
                None => r == Pid::spec_empty(),
            },
    {
        match &self.from {
            Some(v) => v.clone(),
            None => Pid::new(),
        }
    }

    /// Unsets `cid`.
    pub fn clear_cid(&mut self)
        ensures
            *final(self) == (Envelope { cid: None, ..*old(self) }),
    {
        self.cid = None;
    }

    /// Whether `cid` is set.
    pub fn has_cid(&self) -> (r: bool)
        ensures
            r == (self.cid is Some),
    {
        self.cid.is_some()
    }

    /// Sets `cid` to `v`.
    pub fn set_cid(&mut self, v: CorrelationId)
        ensures
            *final(self) == (Envelope { cid: Some(v), ..*old(self) }),
    {
        self.cid = Some(v);
    }

    /// A mutable reference to `cid`, which is first set to an empty message where it
    /// is unset.
    pub fn mut_cid(&mut self) -> (r: &mut CorrelationId)
        ensures
            match old(self).cid {
                Some(v) => *r == v,
                None => r.is_default(),
            },
            *final(self) == (Envelope { cid: Some(*final(r)), ..*old(self) }),
    {
        if self.cid.is_none() {
            self.cid = Some(CorrelationId::new());
        }
        self.cid.as_mut().unwrap()
    }

    /// Takes the message out of `cid` and leaves it unset; an empty message where
    /// it was unset.
    pub fn take_cid(&mut self) -> (r: CorrelationId)
        ensures
            *final(self) == (Envelope { cid: None, ..*old(self) }),
            match old(self).cid {
                Some(v) => r == v,
                None => r.is_default(),
            },
    {
        match self.cid.take() {
            Some(v) => v,
            None => CorrelationId::new(),
        }
    }

    /// The message in `cid`, or the message in which nothing is set where it
    /// is unset.
    pub fn get_cid(&self) -> (r: CorrelationId)
        ensures
            match self.cid {
                Some(v) => r == v,
                None => r == CorrelationId::spec_empty(),
            },
    {
        match &self.cid {
            Some(v) => v.clone(),
            None => CorrelationId::new(),
        }
    }

    /// Unsets `msg`.
    pub fn clear_msg(&mut self)
        ensures
            *final(self) == (Envelope { msg: None, ..*old(self) }),
    {
        self.msg = None;
    }

    /// Whether `msg` is set.
    pub fn has_msg(&self) -> (r: bool)
        ensures
            r == (self.msg is Some),
    {
        self.msg.is_some()
    }

    /// Sets `msg` to `v`.
    pub fn set_msg(&mut self, v: PbMsg)
        ensures
            *final(self) == (Envelope { msg: Some(v), ..*old(self) }),
    {
        self.msg = Some(v);
    }

    /// A mutable reference to `msg`, which is first set to an empty message where it
    /// is unset.
    pub fn mut_msg(&mut self) -> (r: &mut PbMsg)
        ensures
            match old(self).msg {
                Some(v) => *r == v,
                None => r.is_default(),
            },
            *final(self) == (Envelope { msg: Some(*final(r)), ..*old(self) }),
    {
        if self.msg.is_none() {
            self.msg = Some(PbMsg::new());
        }
        self.msg.as_mut().unwrap()
    }

    /// Takes the message out of `msg` and leaves it unset; an empty message where
    /// it was unset.
    pub fn take_msg(&mut self) -> (r: PbMsg)
        ensures
            *final(self) == (Envelope { msg: None, ..*old(self) }),
            match old(self).msg {
                Some(v) => r == v,
                None => r.is_default(),
            },
    {
        match self.msg.take() {
            Some(v) => v,
            None => PbMsg::new(),
        }
    }

    /// The message in `msg`, or the message in which nothing is set where it
    /// is unset.
    pub fn get_msg(&self) -> (r: PbMsg)
        ensures
            match self.msg {
                Some(v) => v.same(r),
                None => r == PbMsg::spec_empty(),
            },
    {
        match &self.msg {
            Some(v) => v.clone(),
            None => PbMsg::new(),
        }
    }
}

impl Default for Envelope {
    /// A message in which nothing is set.
    fn default() -> (r: Envelope)
        ensures
            r.is_default(),
    {
        Envelope::new()
    }
}

impl Envelope {
    /// Whether the two messages hold the same, field by field, byte strings and
    /// lists taken by what they hold.
    pub open spec fn same(&self, other: Envelope) -> bool {
        &&& self.to == other.to
        &&& self.from == other.from
        &&& self.cid == other.cid
        &&& match (self.msg, other.msg) {
            (Some(a), Some(b)) => a.same(b),
            (None, None) => true,
            _ => false,
        }
    }
}

impl Clone for Envelope {
    fn clone(&self) -> (r: Envelope)
        ensures
            self.same(r),
    {
        let to = match &self.to {
            Some(v) => Some(v.clone()),
            None => None,
        };
        let from = match &self.from {
            Some(v) => Some(v.clone()),
            None => None,
        };
        let cid = match &self.cid {
            Some(v) => Some(v.clone()),
            None => None,
        };
        let msg = match &self.msg {
            Some(v) => Some(v.clone()),
            None => None,
        };
        Envelope { to, from, cid, msg }
    }
}

impl Envelope {
    /// The number of bytes that the message takes on the wire: for each field
    /// that is set, its tag and its value.
    pub open spec fn wire_len(&self) -> int {
        (match self.to {
            Some(v) => delimited_len(1, v.wire_len()),
            None => 0,
        }) + (match self.from {
            Some(v) => delimited_len(2, v.wire_len()),
            None => 0,
        }) + (match self.cid {
            Some(v) => delimited_len(3, v.wire_len()),
            None => 0,
        }) + (match self.msg {
            Some(v) => delimited_len(4, v.wire_len()),
            None => 0,
        })
    }

    /// Whether the size of the message can be computed: no text or byte string
    /// in it is longer than `MAX_PAYLOAD`, and the whole fits 32 bits.
    pub open spec fn sizable(&self) -> bool {
        &&& self.to matches Some(v) ==> v.sizable()
        &&& self.from matches Some(v) ==> v.sizable()
        &&& self.cid matches Some(v) ==> v.sizable()
        &&& self.msg matches Some(v) ==> v.sizable()
        &&& self.wire_len() <= u32::MAX
    }

    /// Each field of a message takes no negative number of bytes.
    proof fn lemma_parts(&self)
        ensures
            (match self.to {
                Some(v) => delimited_len(1, v.wire_len()),
                None => 0,
            }) >= 0,
            (match self.from {
                Some(v) => delimited_len(2, v.wire_len()),
                None => 0,
            }) >= 0,
            (match self.cid {
                Some(v) => delimited_len(3, v.wire_len()),
                None => 0,
            }) >= 0,
            (match self.msg {
                Some(v) => delimited_len(4, v.wire_len()),
                None => 0,
            }) >= 0,
    {
        if let Some(v) = self.to {
            v.lemma_wire_len();
        }
        if let Some(v) = self.from {
            v.lemma_wire_len();
        }
        if let Some(v) = self.cid {
            v.lemma_wire_len();
        }
        if let Some(v) = self.msg {
            v.lemma_wire_len();
        }
    }

    /// A message takes no negative number of bytes.
    pub proof fn lemma_wire_len(&self)
        ensures
            self.wire_len() >= 0,
    {
        self.lemma_parts();
    }

    /// The size of the message on the wire, or `None` where it cannot be
    /// computed.
    pub fn checked_size(&self) -> (r: Option<u32>)
        ensures
            r == if self.sizable() {
                Some(self.wire_len() as u32)
            } else {
                None
            },
    {
        proof {
            self.lemma_parts();
        }
        let mut my_size: u32 = 0;
        if let Some(v) = &self.to {
            proof {
                v.lemma_wire_len();
            }
            let len = match v.checked_size() {
                Some(len) => len,
                None => return None,
            };
            let field = match nested_size(1, len) {
                Some(size) => size,
                None => return None,
            };
            my_size = match add_size(my_size, field) {
                Some(size) => size,
                None => return None,
            };
        }
        if let Some(v) = &self.from {
            proof {
                v.lemma_wire_len();
            }
            let len = match v.checked_size() {
                Some(len) => len,
                None => return None,
            };
            let field = match nested_size(2, len) {
                Some(size) => size,
                None => return None,
            };
            my_size = match add_size(my_size, field) {
                Some(size) => size,
                None => return None,
            };
        }
        if let Some(v) = &self.cid {
            proof {
                v.lemma_wire_len();
            }
            let len = match v.checked_size() {
                Some(len) => len,
                None => return None,
            };
            let field = match nested_size(3, len) {
                Some(size) => size,
                None => return None,
            };
            my_size = match add_size(my_size, field) {
                Some(size) => size,
                None => return None,
            };
        }
        if let Some(v) = &self.msg {
            proof {
                v.lemma_wire_len();
            }
            let len = match v.checked_size() {
                Some(len) => len,
                None => return None,
            };
            let field = match nested_size(4, len) {
                Some(size) => size,
                None => return None,
            };
            my_size = match add_size(my_size, field) {
                Some(size) => size,
                None => return None,
            };
        }
        Some(my_size)
    }

    /// The size of the message on the wire.
    pub fn compute_size(&self) -> (r: u32)
        requires
            self.sizable(),
        ensures
            r == self.wire_len(),
    {
        proof {
            self.lemma_wire_len();
        }
        match self.checked_size() {
            Some(size) => size,
            None => vstd::pervasive::unreached(),
        }
    }
}

impl Envelope {
    /// The kind of value that the field with the number `field_number` holds,
    /// or `None` where the message has no such field.
    pub open spec fn spec_field_kind(field_number: u32) -> Option<FieldKind> {
        if field_number == 1 {
            Some(FieldKind::Pid)
        } else if field_number == 2 {
            Some(FieldKind::Pid)
        } else if field_number == 3 {
            Some(FieldKind::CorrelationId)
        } else if field_number == 4 {
            Some(FieldKind::PbMsg)
        } else {
            None
        }
    }

    /// The kind of value that the field with the number `field_number` holds,
    /// or `None` where the message has no such field.
    pub fn field_kind(field_number: u32) -> (r: Option<FieldKind>)
        ensures
            r == Self::spec_field_kind(field_number),
    {
        match field_number {
            1 => Some(FieldKind::Pid),
            2 => Some(FieldKind::Pid),
            3 => Some(FieldKind::CorrelationId),
            4 => Some(FieldKind::PbMsg),
            _ => None,
        }
    }

    /// The kind of value to read for the field `field_number` when it comes
    /// in the layout `wire`: the field's kind if that is its layout, else
    /// `None`.
    pub fn accepts(field_number: u32, wire: WireKind) -> (r: Option<FieldKind>)
        ensures
            r == match Self::spec_field_kind(field_number) {
                Some(k) => if k.spec_wire_kind() == wire {
                    Some(k)
                } else {
                    None
                },
                None => None,
            },
    {
        match Self::field_kind(field_number) {
            Some(k) => if k.wire_kind() == wire {
                Some(k)
            } else {
                None
            },
            None => None,
        }
    }

    /// The message after a value was taken in for the field `field_number`:
    /// the field holds the value, if the value is of the field's kind; else
    /// nothing changes.
    pub open spec fn with_field(self, field_number: u32, value: FieldValue) -> Envelope {
        if field_number == 1 {
            match value {
                FieldValue::Pid(v) => Envelope { to: Some(v), ..self },
                _ => self,
            }
        } else if field_number == 2 {
            match value {
                FieldValue::Pid(v) => Envelope { from: Some(v), ..self },
                _ => self,
            }
        } else if field_number == 3 {
            match value {
                FieldValue::CorrelationId(v) => Envelope { cid: Some(v), ..self },
                _ => self,
            }
        } else if field_number == 4 {
            match value {
                FieldValue::PbMsg(v) => Envelope { msg: Some(v), ..self },
                _ => self,
            }
        } else {
            self
        }
    }

    /// The fields that are set, in the order in which they are written.
    pub open spec fn spec_fields(&self) -> Seq<(u32, FieldValue)> {
        (match self.to {
            Some(v) => seq![(1u32, FieldValue::Pid(v))],
            None => Seq::<(u32, FieldValue)>::empty(),
        }) + (match self.from {
            Some(v) => seq![(2u32, FieldValue::Pid(v))],
            None => Seq::<(u32, FieldValue)>::empty(),
        }) + (match self.cid {
            Some(v) => seq![(3u32, FieldValue::CorrelationId(v))],
            None => Seq::<(u32, FieldValue)>::empty(),
        }) + (match self.msg {
            Some(v) => seq![(4u32, FieldValue::PbMsg(v))],
            None => Seq::<(u32, FieldValue)>::empty(),
        })
    }

    /// Takes in a value that was read for the field `field_number`, and says
    /// whether the value is of the field's kind. Any other value is refused
    /// and changes nothing.
    pub fn merge_field(&mut self, field_number: u32, value: FieldValue) -> (accepted: bool)
        ensures
            accepted == (Self::spec_field_kind(field_number) == Some(value.kind())),
            *final(self) == old(self).with_field(field_number, value),
    {
        match field_number {
            1 => match value {
                FieldValue::Pid(v) => {
                    self.set_to(v);
                    true
                },
                _ => false,
            },
            2 => match value {
                FieldValue::Pid(v) => {
                    self.set_from(v);
                    true
                },
                _ => false,
            },
            3 => match value {
                FieldValue::CorrelationId(v) => {
                    self.set_cid(v);
                    true
                },
                _ => false,
            },
            4 => match value {
                FieldValue::PbMsg(v) => {
                    self.set_msg(v);
                    true
                },
                _ => false,
            },
            _ => false,
        }
    }

    /// The fields that are set, in the order in which they are written.
    pub fn set_fields(&self) -> (r: Vec<(u32, FieldRef<'_>)>)
        ensures
            lists_fields(r@, self.spec_fields()),
    {
        let mut r: Vec<(u32, FieldRef<'_>)> = Vec::new();
        if let Some(v) = &self.to {
            r.push((1, FieldRef::Pid(v)));
        }
        proof {
            assert(lists_fields(
                r@,
                (match self.to {
                    Some(v) => seq![(1u32, FieldValue::Pid(v))],
                    None => Seq::<(u32, FieldValue)>::empty(),
                }),
            ));
        }
        if let Some(v) = &self.from {
            r.push((2, FieldRef::Pid(v)));
        }
        proof {
            assert(lists_fields(
                r@,
                (match self.to {
                    Some(v) => seq![(1u32, FieldValue::Pid(v))],
                    None => Seq::<(u32, FieldValue)>::empty(),
                }) + (match self.from {
                    Some(v) => seq![(2u32, FieldValue::Pid(v))],
                    None => Seq::<(u32, FieldValue)>::empty(),
                }),
            ));
        }
        if let Some(v) = &self.cid {
            r.push((3, FieldRef::CorrelationId(v)));
        }
        proof {
            assert(lists_fields(
                r@,
                (match self.to {
                    Some(v) => seq![(1u32, FieldValue::Pid(v))],
                    None => Seq::<(u32, FieldValue)>::empty(),
                }) + (match self.from {
                    Some(v) => seq![(2u32, FieldValue::Pid(v))],
                    None => Seq::<(u32, FieldValue)>::empty(),
                }) + (match self.cid {
                    Some(v) => seq![(3u32, FieldValue::CorrelationId(v))],
                    None => Seq::<(u32, FieldValue)>::empty(),
                }),
            ));
        }
        if let Some(v) = &self.msg {
            r.push((4, FieldRef::PbMsg(v)));
        }
        proof {
            assert(lists_fields(
                r@,
                (match self.to {
                    Some(v) => seq![(1u32, FieldValue::Pid(v))],
                    None => Seq::<(u32, FieldValue)>::empty(),
                }) + (match self.from {
                    Some(v) => seq![(2u32, FieldValue::Pid(v))],
                    None => Seq::<(u32, FieldValue)>::empty(),
                }) + (match self.cid {
                    Some(v) => seq![(3u32, FieldValue::CorrelationId(v))],
                    None => Seq::<(u32, FieldValue)>::empty(),
                }) + (match self.msg {
                    Some(v) => seq![(4u32, FieldValue::PbMsg(v))],
                    None => Seq::<(u32, FieldValue)>::empty(),
                }),
            ));
        }
        r
    }
}


impl Envelope {
    /// The message in which nothing is set.
    pub open spec fn spec_empty() -> Envelope {
        Envelope { to: None, from: None, cid: None, msg: None }
    }

    /// The message after each of the fields was taken in, first to last.
    pub open spec fn merge_fields(self, fields: Seq<(u32, FieldValue)>) -> Envelope
        decreases fields.len(),
    {
        if fields.len() == 0 {
            self
        } else {
            self.merge_fields(fields.drop_last()).with_field(fields.last().0, fields.last().1)
        }
    }

    /// Taking in two lists of fields one after the other comes to taking in
    /// the two as one list.
    pub proof fn lemma_merge_concat(
        self,
        first: Seq<(u32, FieldValue)>,
        second: Seq<(u32, FieldValue)>,
    )
        ensures
            self.merge_fields(first + second) == self.merge_fields(first).merge_fields(second),
        decreases second.len(),
    {
        if second.len() == 0 {
            assert(first + second =~= first);
        } else {
            self.lemma_merge_concat(first, second.drop_last());
            assert((first + second).drop_last() =~= first + second.drop_last());
        }
    }

    /// What a message writes it reads back: every field that it lists is of
    /// the kind that its number calls for, and an empty message that takes in
    /// the fields in their order is the message again.
    pub proof fn lemma_written_fields_read_back(self)
        ensures
            forall|i: int|
                0 <= i < self.spec_fields().len() ==> Self::spec_field_kind(
                    (#[trigger] self.spec_fields()[i]).0,
                ) == Some(self.spec_fields()[i].1.kind()),
            Self::spec_empty().merge_fields(self.spec_fields()) == self,
    {
        reveal_with_fuel(Envelope::merge_fields, 3);
        let e = Self::spec_empty();
        let t0 = (match self.to {
            Some(v) => seq![(1u32, FieldValue::Pid(v))],
            None => Seq::<(u32, FieldValue)>::empty(),
        });
        let all0 = t0;
        assert(t0.len() <= 1);
        if t0.len() == 1 {
            assert(t0.drop_last() =~= Seq::<(u32, FieldValue)>::empty());
        }
        let s0 = e.merge_fields(all0);
        assert(s0 == (Envelope { to: self.to, from: None, cid: None, msg: None }));
        let t1 = (match self.from {
            Some(v) => seq![(2u32, FieldValue::Pid(v))],
            None => Seq::<(u32, FieldValue)>::empty(),
        });
        let all1 = all0 + t1;
        Self::lemma_merge_concat(e, all0, t1);
        assert(t1.len() <= 1);
        if t1.len() == 1 {
            assert(t1.drop_last() =~= Seq::<(u32, FieldValue)>::empty());
        }
        let s1 = e.merge_fields(all1);
        assert(s1 == s0.merge_fields(t1));
        assert(s1 == (Envelope { to: self.to, from: self.from, cid: None, msg: None }));
        let t2 = (match self.cid {
            Some(v) => seq![(3u32, FieldValue::CorrelationId(v))],
            None => Seq::<(u32, FieldValue)>::empty(),
        });
        let all2 = all1 + t2;
        Self::lemma_merge_concat(e, all1, t2);
        assert(t2.len() <= 1);
        if t2.len() == 1 {
            assert(t2.drop_last() =~= Seq::<(u32, FieldValue)>::empty());
        }
        let s2 = e.merge_fields(all2);
        assert(s2 == s1.merge_fields(t2));
        assert(s2 == (Envelope { to: self.to, from: self.from, cid: self.cid, msg: None }));
        let t3 = (match self.msg {
            Some(v) => seq![(4u32, FieldValue::PbMsg(v))],
            None => Seq::<(u32, FieldValue)>::empty(),
        });
        let all3 = all2 + t3;
        Self::lemma_merge_concat(e, all2, t3);
        assert(t3.len() <= 1);
        if t3.len() == 1 {
            assert(t3.drop_last() =~= Seq::<(u32, FieldValue)>::empty());
        }
        let s3 = e.merge_fields(all3);
        assert(s3 == s2.merge_fields(t3));
        assert(s3 == (Envelope { to: self.to, from: self.from, cid: self.cid, msg: self.msg }));
        assert(all3 =~= self.spec_fields());
    }
}

} // verus!
