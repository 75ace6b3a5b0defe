//! The wire form of a correlator.

use crate::pb_messages::pid::Pid;
use crate::pb_messages::field::lists_fields;
use crate::pb_messages::field::FieldKind;
use crate::pb_messages::field::FieldRef;
use crate::pb_messages::field::FieldValue;
use crate::pb_messages::field::WireKind;
use crate::pb_messages::size::add_size;
use crate::pb_messages::size::delimited_len;
use crate::pb_messages::size::nested_size;
use crate::pb_messages::size::uint64_field_size;
use crate::pb_messages::size::varint_field_len;
use crate::pb_messages::size::MAX_PAYLOAD;
use vstd::prelude::*;

verus! {

/// What ties a reply to its request.
#[derive(Debug, PartialEq)]
pub struct CorrelationId {
    pub pid: Option<Pid>,
    pub handle: Option<u64>,
    pub request: Option<u64>,
}

impl CorrelationId {
    /// Whether nothing is set in the message.
    pub open spec fn is_default(&self) -> bool {
        &&& self.pid is None
        &&& self.handle is None
        &&& self.request is None
    }

    /// A message in which nothing is set.
    pub fn new() -> (r: CorrelationId)
        ensures
            r.is_default(),
    {
        CorrelationId { pid: None, handle: None, request: None }
    }

    /// Unsets `pid`.
    pub fn clear_pid(&mut self)
        ensures
            *final(self) == (CorrelationId { pid: None, ..*old(self) }),
    {
        self.pid = None;
    }

    /// Whether `pid` is set.
    pub fn has_pid(&self) -> (r: bool)
        ensures
            r == (self.pid is Some),
    {
        self.pid.is_some()
    }

    /// Sets `pid` to `v`.
    pub fn set_pid(&mut self, v: Pid)
        ensures
            *final(self) == (CorrelationId { pid: Some(v), ..*old(self) }),
    {
        self.pid = Some(v);
    }

    /// A mutable reference to `pid`, which is first set to an empty message where it
    /// is unset.
    pub fn mut_pid(&mut self) -> (r: &mut Pid)
        ensures
            match old(self).pid {
                Some(v) => *r == v,
                None => r.is_default(),
            },
            *final(self) == (CorrelationId { pid: Some(*final(r)), ..*old(self) }),
    {
        if self.pid.is_none() {
            self.pid = Some(Pid::new());
        }
        self.pid.as_mut().unwrap()
    }

    /// Takes the message out of `pid` and leaves it unset; an empty message where
    /// it was unset.
    pub fn take_pid(&mut self) -> (r: Pid)
        ensures
            *final(self) == (CorrelationId { pid: None, ..*old(self) }),
            match old(self).pid {
                Some(v) => r == v,
                None => r.is_default(),
            },
    {
        match self.pid.take() {
            Some(v) => v,
            None => Pid::new(),
        }
    }

    /// The message in `pid`, or the message in which nothing is set where it
    /// is unset.
    pub fn get_pid(&self) -> (r: Pid)
        ensures
            match self.pid {
                Some(v) => r == v,
                None => r == Pid::spec_empty(),
            },
    {
        match &self.pid {
            Some(v) => v.clone(),
            None => Pid::new(),
        }
    }

    /// Unsets `handle`.
    pub fn clear_handle(&mut self)
        ensures
            *final(self) == (CorrelationId { handle: None, ..*old(self) }),
    {
        self.handle = None;
    }

    /// Whether `handle` is set.
    pub fn has_handle(&self) -> (r: bool)
        ensures
            r == (self.handle is Some),
    {
        self.handle.is_some()
    }

    /// Sets `handle` to `v`.
    pub fn set_handle(&mut self, v: u64)
        ensures
            *final(self) == (CorrelationId { handle: Some(v), ..*old(self) }),
    {
        self.handle = Some(v);
    }

    /// The number in `handle`, or 0 where it is unset.
    pub fn get_handle(&self) -> (r: u64)
        ensures
            r == match self.handle {
                Some(v) => v,
                None => 0,
            },
    {
        match self.handle {
            Some(v) => v,
            None => 0,
        }
    }

    /// Unsets `request`.
    pub fn clear_request(&mut self)
        ensures
            *final(self) == (CorrelationId { request: None, ..*old(self) }),
    {
        self.request = None;
    }

    /// Whether `request` is set.
    pub fn has_request(&self) -> (r: bool)
        ensures
            r == (self.request is Some),
    {
        self.request.is_some()
    }

    /// Sets `request` to `v`.
    pub fn set_request(&mut self, v: u64)
        ensures
            *final(self) == (CorrelationId { request: Some(v), ..*old(self) }),
    {
        self.request = Some(v);
    }

    /// The number in `request`, or 0 where it is unset.
    pub fn get_request(&self) -> (r: u64)
        ensures
            r == match self.request {
                Some(v) => v,
                None => 0,
            },
    {
        match self.request {
            Some(v) => v,
            None => 0,
        }
    }
}

impl Default for CorrelationId {
    /// A message in which nothing is set.
    fn default() -> (r: CorrelationId)
        ensures
            r.is_default(),
    {
        CorrelationId::new()
    }
}

impl Clone for CorrelationId {
    fn clone(&self) -> (r: CorrelationId)
        ensures
            r == *self,
    {
        let pid = match &self.pid {
            Some(v) => Some(v.clone()),
            None => None,
        };
        let handle = match &self.handle {
            Some(v) => Some(*v),
            None => None,
        };
        let request = match &self.request {
            Some(v) => Some(*v),
            None => None,
        };
        CorrelationId { pid, handle, request }
    }
}

impl CorrelationId {
    /// The number of bytes that the message takes on the wire: for each field
    /// that is set, its tag and its value.
    pub open spec fn wire_len(&self) -> int {
        (match self.pid {
            Some(v) => delimited_len(1, v.wire_len()),
            None => 0,
        }) + (match self.handle {
            Some(v) => varint_field_len(2, v as int),
            None => 0,
        }) + (match self.request {
            Some(v) => varint_field_len(3, v as int),
            None => 0,
        })
    }

    /// Whether the size of the message can be computed: no text or byte string
    /// in it is longer than `MAX_PAYLOAD`, and the whole fits 32 bits.
    pub open spec fn sizable(&self) -> bool {
        &&& self.pid matches Some(v) ==> v.sizable()
        &&& self.wire_len() <= u32::MAX
    }

    /// Each field of a message takes no negative number of bytes.
    proof fn lemma_parts(&self)
        ensures
            (match self.pid {
                Some(v) => delimited_len(1, v.wire_len()),
                None => 0,
            }) >= 0,
            (match self.handle {
                Some(v) => varint_field_len(2, v as int),
                None => 0,
            }) >= 0,
            (match self.request {
                Some(v) => varint_field_len(3, v as int),
                None => 0,
            }) >= 0,
    {
        if let Some(v) = self.pid {
            v.lemma_wire_len();
        }
    }

    /// A message takes no negative number of bytes.
    pub proof fn lemma_wire_len(&self)
        ensures
            self.wire_len() >= 0,
    {
        self.lemma_parts();
    }

    /// The size of the message on the wire, or `None` where it cannot be
    /// computed.
    pub fn checked_size(&self) -> (r: Option<u32>)
        ensures
            r == if self.sizable() {
                Some(self.wire_len() as u32)
            } else {
                None
            },
    {
        proof {
            self.lemma_parts();
        }
        let mut my_size: u32 = 0;
        if let Some(v) = &self.pid {
            proof {
                v.lemma_wire_len();
            }
            let len = match v.checked_size() {
                Some(len) => len,
                None => return None,
            };
            let field = match nested_size(1, len) {
                Some(size) => size,
                None => return None,
            };
            my_size = match add_size(my_size, field) {
                Some(size) => size,
                None => return None,
            };
        }
        if let Some(v) = &self.handle {
            let field = uint64_field_size(2, *v);
            my_size = match add_size(my_size, field) {
                Some(size) => size,
                None => return None,
            };
        }
        if let Some(v) = &self.request {
            let field = uint64_field_size(3, *v);
            my_size = match add_size(my_size, field) {
                Some(size) => size,
                None => return None,
            };
        }
        Some(my_size)
    }

    /// The size of the message on the wire.
    pub fn compute_size(&self) -> (r: u32)
        requires
            self.sizable(),
        ensures
            r == self.wire_len(),
    {
        proof {
            self.lemma_wire_len();
        }
        match self.checked_size() {
            Some(size) => size,
            None => vstd::pervasive::unreached(),
        }
    }
}

impl CorrelationId {
    /// The kind of value that the field with the number `field_number` holds,
    /// or `None` where the message has no such field.
    pub open spec fn spec_field_kind(field_number: u32) -> Option<FieldKind> {
        if field_number == 1 {
            Some(FieldKind::Pid)
        } else if field_number == 2 {
            Some(FieldKind::Uint64)
        } else if field_number == 3 {
            Some(FieldKind::Uint64)
        } else {
            None
        }
    }

    /// The kind of value that the field with the number `field_number` holds,
    /// or `None` where the message has no such field.
    pub fn field_kind(field_number: u32) -> (r: Option<FieldKind>)
        ensures
            r == Self::spec_field_kind(field_number),
    {
        match field_number {
            1 => Some(FieldKind::Pid),
            2 => Some(FieldKind::Uint64),
            3 => Some(FieldKind::Uint64),
            _ => None,
        }
    }

    /// The kind of value to read for the field `field_number` when it comes
    /// in the layout `wire`: the field's kind if that is its layout, else
    /// `None`.
    pub fn accepts(field_number: u32, wire: WireKind) -> (r: Option<FieldKind>)
        ensures
            r == match Self::spec_field_kind(field_number) {
                Some(k) => if k.spec_wire_kind() == wire {
                    Some(k)
                } else {
                    None
                },
                None => None,
            },
    {
        match Self::field_kind(field_number) {
            Some(k) => if k.wire_kind() == wire {
                Some(k)
            } else {
                None
            },
            None => None,
        }
    }

    /// The message after a value was taken in for the field `field_number`:
    /// the field holds the value, if the value is of the field's kind; else
    /// nothing changes.
    pub open spec fn with_field(self, field_number: u32, value: FieldValue) -> CorrelationId {
        if field_number == 1 {
            match value {
                FieldValue::Pid(v) => CorrelationId { pid: Some(v), ..self },
                _ => self,
            }
        } else if field_number == 2 {
            match value {
                FieldValue::Uint64(v) => CorrelationId { handle: Some(v), ..self },
                _ => self,
            }
        } else if field_number == 3 {
            match value {
                FieldValue::Uint64(v) => CorrelationId { request: Some(v), ..self },
                _ => self,
            }
        } else {
            self
        }
    }

    /// The fields that are set, in the order in which they are written.
    pub open spec fn spec_fields(&self) -> Seq<(u32, FieldValue)> {
        (match self.pid {
            Some(v) => seq![(1u32, FieldValue::Pid(v))],
            None => Seq::<(u32, FieldValue)>::empty(),
        }) + (match self.handle {
            Some(v) => seq![(2u32, FieldValue::Uint64(v))],
            None => Seq::<(u32, FieldValue)>::empty(),
        }) + (match self.request {
            Some(v) => seq![(3u32, FieldValue::Uint64(v))],
            None => Seq::<(u32, FieldValue)>::empty(),
        })
    }

    /// Takes in a value that was read for the field `field_number`, and says
    /// whether the value is of the field's kind. Any other value is refused
    /// and changes nothing.
    pub fn merge_field(&mut self, field_number: u32, value: FieldValue) -> (accepted: bool)
        ensures
            accepted == (Self::spec_field_kind(field_number) == Some(value.kind())),
            *final(self) == old(self).with_field(field_number, value),
    {
        match field_number {
            1 => match value {
                FieldValue::Pid(v) => {
                    self.set_pid(v);
                    true
                },
                _ => false,
            },
            2 => match value {
                FieldValue::Uint64(v) => {
                    self.set_handle(v);
                    true
                },
                _ => false,
            },
            3 => match value {
                FieldValue::Uint64(v) => {
                    self.set_request(v);
                    true
                },
                _ => false,
            },
            _ => false,
        }
    }

    /// The fields that are set, in the order in which they are written.
    pub fn set_fields(&self) -> (r: Vec<(u32, FieldRef<'_>)>)
        ensures
            lists_fields(r@, self.spec_fields()),
    {
        let mut r: Vec<(u32, FieldRef<'_>)> = Vec::new();
        if let Some(v) = &self.pid {
            r.push((1, FieldRef::Pid(v)));
        }
        proof {
            assert(lists_fields(
                r@,
                (match self.pid {
                    Some(v) => seq![(1u32, FieldValue::Pid(v))],
                    None => Seq::<(u32, FieldValue)>::empty(),
                }),
            ));
        }
        if let Some(v) = &self.handle {
            r.push((2, FieldRef::Uint64(*v)));
        }
        proof {
            assert(lists_fields(
                r@,
                (match self.pid {
                    Some(v) => seq![(1u32, FieldValue::Pid(v))],
                    None => Seq::<(u32, FieldValue)>::empty(),
                }) + (match self.handle {
                    Some(v) => seq![(2u32, FieldValue::Uint64(v))],
                    None => Seq::<(u32, FieldValue)>::empty(),
                }),
            ));
        }
        if let Some(v) = &self.request {
            r.push((3, FieldRef::Uint64(*v)));
        }
        proof {
            assert(lists_fields(
                r@,
                (match self.pid {
                    Some(v) => seq![(1u32, FieldValue::Pid(v))],
                    None => Seq::<(u32, FieldValue)>::empty(),
                }) + (match self.handle {
                    Some(v) => seq![(2u32, FieldValue::Uint64(v))],
                    None => Seq::<(u32, FieldValue)>::empty(),
                }) + (match self.request {
                    Some(v) => seq![(3u32, FieldValue::Uint64(v))],
                    None => Seq::<(u32, FieldValue)>::empty(),
                }),
            ));
        }
        r
    }
}


impl CorrelationId {
    /// The message in which nothing is set.
    pub open spec fn spec_empty() -> CorrelationId {
        CorrelationId { pid: None, handle: None, request: None }
    }

    /// The message after each of the fields was taken in, first to last.
    pub open spec fn merge_fields(self, fields: Seq<(u32, FieldValue)>) -> CorrelationId
        decreases fields.len(),
    {
        if fields.len() == 0 {
            self
        } else {
            self.merge_fields(fields.drop_last()).with_field(fields.last().0, fields.last().1)
        }
    }

    /// Taking in two lists of fields one after the other comes to taking in
    /// the two as one list.
    pub proof fn lemma_merge_concat(
        self,
        first: Seq<(u32, FieldValue)>,
        second: Seq<(u32, FieldValue)>,
    )
        ensures
            self.merge_fields(first + second) == self.merge_fields(first).merge_fields(second),
        decreases second.len(),
    {
        if second.len() == 0 {
            assert(first + second =~= first);
        } else {
            self.lemma_merge_concat(first, second.drop_last());
            assert((first + second).drop_last() =~= first + second.drop_last());
        }
    }

    /// What a message writes it reads back: every field that it lists is of
    /// the kind that its number calls for, and an empty message that takes in
    /// the fields in their order is the message again.
    pub proof fn lemma_written_fields_read_back(self)
        ensures
            forall|i: int|
                0 <= i < self.spec_fields().len() ==> Self::spec_field_kind(
                    (#[trigger] self.spec_fields()[i]).0,
                ) == Some(self.spec_fields()[i].1.kind()),
            Self::spec_empty().merge_fields(self.spec_fields()) == self,
    {
        reveal_with_fuel(CorrelationId::merge_fields, 3);
        let e = Self::spec_empty();
        let t0 = (match self.pid {
            Some(v) => seq![(1u32, FieldValue::Pid(v))],
            None => Seq::<(u32, FieldValue)>::empty(),
        });
        let all0 = t0;
        assert(t0.len() <= 1);
        if t0.len() == 1 {
            assert(t0.drop_last() =~= Seq::<(u32, FieldValue)>::empty());
        }
        let s0 = e.merge_fields(all0);
        assert(s0 == (CorrelationId { pid: self.pid, handle: None, request: None }));
        let t1 = (match self.handle {
            Some(v) => seq![(2u32, FieldValue::Uint64(v))],
            None => Seq::<(u32, FieldValue)>::empty(),
        });
        let all1 = all0 + t1;
        Self::lemma_merge_concat(e, all0, t1);
        assert(t1.len() <= 1);
        if t1.len() == 1 {
            assert(t1.drop_last() =~= Seq::<(u32, FieldValue)>::empty());
        }
        let s1 = e.merge_fields(all1);
        assert(s1 == s0.merge_fields(t1));
        assert(s1 == (CorrelationId { pid: self.pid, handle: self.handle, request: None }));
        let t2 = (match self.request {
            Some(v) => seq![(3u32, FieldValue::Uint64(v))],
            None => Seq::<(u32, FieldValue)>::empty(),
        });
        let all2 = all1 + t2;
        Self::lemma_merge_concat(e, all1, t2);
        assert(t2.len() <= 1);
        if t2.len() == 1 {
            assert(t2.drop_last() =~= Seq::<(u32, FieldValue)>::empty());
        }
        let s2 = e.merge_fields(all2);
        assert(s2 == s1.merge_fields(t2));
        assert(s2 == (CorrelationId { pid: self.pid, handle: self.handle, request: self.request }));
        assert(all2 =~= self.spec_fields());
    }
}

} // verus!
