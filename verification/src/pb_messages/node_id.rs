//! The wire form of a node identifier.

use crate::pb_messages::field::lists_fields;
use crate::pb_messages::field::FieldKind;
use crate::pb_messages::field::FieldRef;
use crate::pb_messages::field::FieldValue;
use crate::pb_messages::field::WireKind;
use crate::pb_messages::size::add_size;
use crate::pb_messages::size::delimited_len;
use crate::pb_messages::size::text_field_size;
use crate::pb_messages::size::text_len;
use crate::pb_messages::size::MAX_PAYLOAD;
use vstd::prelude::*;

verus! {

/// The name and the address of a node.
#[derive(Debug, PartialEq)]
pub struct NodeId {
    pub name: Option<String>,
    pub addr: Option<String>,
}

impl NodeId {
    /// Whether nothing is set in the message.
    pub open spec fn is_default(&self) -> bool {
        &&& self.name is None
        &&& self.addr is None
    }

    /// A message in which nothing is set.
    pub fn new() -> (r: NodeId)
        ensures
            r.is_default(),
    {
        NodeId { name: None, addr: None }
    }

    /// Unsets `name`.
    pub fn clear_name(&mut self)
        ensures
            *final(self) == (NodeId { name: None, ..*old(self) }),
    {
        self.name = None;
    }

    /// Whether `name` is set.
    pub fn has_name(&self) -> (r: bool)
        ensures
            r == (self.name is Some),
    {
        self.name.is_some()
    }

    /// Sets `name` to `v`.
    pub fn set_name(&mut self, v: String)
        ensures
            *final(self) == (NodeId { name: Some(v), ..*old(self) }),
    {
        self.name = Some(v);
    }

    /// A mutable reference to `name`, which is first set to the empty text where it
    /// is unset.
    pub fn mut_name(&mut self) -> (r: &mut String)
        ensures
            match old(self).name {
                Some(v) => *r == v,
                None => r@ == Seq::<char>::empty(),
            },
            *final(self) == (NodeId { name: Some(*final(r)), ..*old(self) }),
    {
        if self.name.is_none() {
            self.name = Some(String::new());
        }
        self.name.as_mut().unwrap()
    }

    /// Takes the text out of `name` and leaves it unset; the empty text where
    /// it was unset.
    pub fn take_name(&mut self) -> (r: String)
        ensures
            *final(self) == (NodeId { name: None, ..*old(self) }),
            match old(self).name {
                Some(v) => r == v,
                None => r@ == Seq::<char>::empty(),
            },
    {
        match self.name.take() {
            Some(v) => v,
            None => String::new(),
        }
    }

    /// The text in `name`, or the empty text where it is unset.
    pub fn get_name(&self) -> (r: &str)
        ensures
            r@ == match self.name {
                Some(v) => v@,
                None => Seq::<char>::empty(),
            },
    {
        match self.name.as_ref() {
            Some(v) => v.as_str(),
            None => {
                proof {
                    reveal_strlit("");
                }
                ""
            },
        }
    }

    /// Unsets `addr`.
    pub fn clear_addr(&mut self)
        ensures
            *final(self) == (NodeId { addr: None, ..*old(self) }),
    {
        self.addr = None;
    }

    /// Whether `addr` is set.
    pub fn has_addr(&self) -> (r: bool)
        ensures
            r == (self.addr is Some),
    {
        self.addr.is_some()
    }

    /// Sets `addr` to `v`.
    pub fn set_addr(&mut self, v: String)
        ensures
            *final(self) == (NodeId { addr: Some(v), ..*old(self) }),
    {
        self.addr = Some(v);
    }

    /// A mutable reference to `addr`, which is first set to the empty text where it
    /// is unset.
    pub fn mut_addr(&mut self) -> (r: &mut String)
        ensures
            match old(self).addr {
                Some(v) => *r == v,
                None => r@ == Seq::<char>::empty(),
            },
            *final(self) == (NodeId { addr: Some(*final(r)), ..*old(self) }),
    {
        if self.addr.is_none() {
            self.addr = Some(String::new());
        }
        self.addr.as_mut().unwrap()
    }

    /// Takes the text out of `addr` and leaves it unset; the empty text where
    /// it was unset.
    pub fn take_addr(&mut self) -> (r: String)
        ensures
            *final(self) == (NodeId { addr: None, ..*old(self) }),
            match old(self).addr {
                Some(v) => r == v,
                None => r@ == Seq::<char>::empty(),
            },
    {
        match self.addr.take() {
            Some(v) => v,
            None => String::new(),
        }
    }

    /// The text in `addr`, or the empty text where it is unset.
    pub fn get_addr(&self) -> (r: &str)
        ensures
            r@ == match self.addr {
                Some(v) => v@,
                None => Seq::<char>::empty(),
            },
    {
        match self.addr.as_ref() {
            Some(v) => v.as_str(),
            None => {
                proof {
                    reveal_strlit("");
                }
                ""
            },
        }
    }
}

impl Default for NodeId {
    /// A message in which nothing is set.
    fn default() -> (r: NodeId)
        ensures
            r.is_default(),
    {
        NodeId::new()
    }
}

impl Clone for NodeId {
    fn clone(&self) -> (r: NodeId)
        ensures
            r == *self,
    {
        let name = match &self.name {
            Some(v) => Some(v.clone()),
            None => None,
        };
        let addr = match &self.addr {
            Some(v) => Some(v.clone()),
            None => None,
        };
        NodeId { name, addr }
    }
}

impl NodeId {
    /// The number of bytes that the message takes on the wire: for each field
    /// that is set, its tag and its value.
    pub open spec fn wire_len(&self) -> int {
        (match self.name {
            Some(v) => delimited_len(1, text_len(v@)),
            None => 0,
        }) + (match self.addr {
            Some(v) => delimited_len(2, text_len(v@)),
            None => 0,
        })
    }

    /// Whether the size of the message can be computed: no text or byte string
    /// in it is longer than `MAX_PAYLOAD`, and the whole fits 32 bits.
    pub open spec fn sizable(&self) -> bool {
        &&& self.name matches Some(v) ==> text_len(v@) <= MAX_PAYLOAD
        &&& self.addr matches Some(v) ==> text_len(v@) <= MAX_PAYLOAD
        &&& self.wire_len() <= u32::MAX
    }

    /// Each field of a message takes no negative number of bytes.
    proof fn lemma_parts(&self)
        ensures
            (match self.name {
                Some(v) => delimited_len(1, text_len(v@)),
                None => 0,
            }) >= 0,
            (match self.addr {
                Some(v) => delimited_len(2, text_len(v@)),
                None => 0,
            }) >= 0,
    {}

    /// A message takes no negative number of bytes.
    pub proof fn lemma_wire_len(&self)
        ensures
            self.wire_len() >= 0,
    {
        self.lemma_parts();
    }

    /// The size of the message on the wire, or `None` where it cannot be
    /// computed.
    pub fn checked_size(&self) -> (r: Option<u32>)
        ensures
            r == if self.sizable() {
                Some(self.wire_len() as u32)
            } else {
                None
            },
    {
        proof {
            self.lemma_parts();
        }
        let mut my_size: u32 = 0;
        if let Some(v) = &self.name {
            let field = match text_field_size(1, v.as_str()) {
                Some(size) => size,
                None => return None,
            };
            my_size = match add_size(my_size, field) {
                Some(size) => size,
                None => return None,
            };
        }
        if let Some(v) = &self.addr {
            let field = match text_field_size(2, v.as_str()) {
                Some(size) => size,
                None => return None,
            };
            my_size = match add_size(my_size, field) {
                Some(size) => size,
                None => return None,
            };
        }
        Some(my_size)
    }

    /// The size of the message on the wire.
    pub fn compute_size(&self) -> (r: u32)
        requires
            self.sizable(),
        ensures
            r == self.wire_len(),
    {
        proof {
            self.lemma_wire_len();
        }
        match self.checked_size() {
            Some(size) => size,
            None => vstd::pervasive::unreached(),
        }
    }
}

impl NodeId {
    /// The kind of value that the field with the number `field_number` holds,
    /// or `None` where the message has no such field.
    pub open spec fn spec_field_kind(field_number: u32) -> Option<FieldKind> {
        if field_number == 1 {
            Some(FieldKind::Text)
        } else if field_number == 2 {
            Some(FieldKind::Text)
        } else {
            None
        }
    }

    /// The kind of value that the field with the number `field_number` holds,
    /// or `None` where the message has no such field.
    pub fn field_kind(field_number: u32) -> (r: Option<FieldKind>)
        ensures
            r == Self::spec_field_kind(field_number),
    {
        match field_number {
            1 => Some(FieldKind::Text),
            2 => Some(FieldKind::Text),
            _ => None,
        }
    }

    /// The kind of value to read for the field `field_number` when it comes
    /// in the layout `wire`: the field's kind if that is its layout, else
    /// `None`.
    pub fn accepts(field_number: u32, wire: WireKind) -> (r: Option<FieldKind>)
        ensures
            r == match Self::spec_field_kind(field_number) {
                Some(k) => if k.spec_wire_kind() == wire {
                    Some(k)
                } else {
                    None
                },
                None => None,
            },
    {
        match Self::field_kind(field_number) {
            Some(k) => if k.wire_kind() == wire {
                Some(k)
            } else {
                None
            },
            None => None,
        }
    }

    /// The message after a value was taken in for the field `field_number`:
    /// the field holds the value, if the value is of the field's kind; else
    /// nothing changes.
    pub open spec fn with_field(self, field_number: u32, value: FieldValue) -> NodeId {
        if field_number == 1 {
            match value {
                FieldValue::Text(v) => NodeId { name: Some(v), ..self },
                _ => self,
            }
        } else if field_number == 2 {
            match value {
                FieldValue::Text(v) => NodeId { addr: Some(v), ..self },
                _ => self,
            }
        } else {
            self
        }
    }

    /// The fields that are set, in the order in which they are written.
    pub open spec fn spec_fields(&self) -> Seq<(u32, FieldValue)> {
        (match self.name {
            Some(v) => seq![(1u32, FieldValue::Text(v))],
            None => Seq::<(u32, FieldValue)>::empty(),
        }) + (match self.addr {
            Some(v) => seq![(2u32, FieldValue::Text(v))],
            None => Seq::<(u32, FieldValue)>::empty(),
        })
    }

    /// Takes in a value that was read for the field `field_number`, and says
    /// whether the value is of the field's kind. Any other value is refused
    /// and changes nothing.
    pub fn merge_field(&mut self, field_number: u32, value: FieldValue) -> (accepted: bool)
        ensures
            accepted == (Self::spec_field_kind(field_number) == Some(value.kind())),
            *final(self) == old(self).with_field(field_number, value),
    {
        match field_number {
            1 => match value {
                FieldValue::Text(v) => {
                    self.set_name(v);
                    true
                },
                _ => false,
            },
            2 => match value {
                FieldValue::Text(v) => {
                    self.set_addr(v);
                    true
                },
                _ => false,
            },
            _ => false,
        }
    }

    /// The fields that are set, in the order in which they are written.
    pub fn set_fields(&self) -> (r: Vec<(u32, FieldRef<'_>)>)
        ensures
            lists_fields(r@, self.spec_fields()),
    {
        let mut r: Vec<(u32, FieldRef<'_>)> = Vec::new();
        if let Some(v) = &self.name {
            r.push((1, FieldRef::Text(v.as_str())));
        }
        proof {
            assert(lists_fields(
                r@,
                (match self.name {
                    Some(v) => seq![(1u32, FieldValue::Text(v))],
                    None => Seq::<(u32, FieldValue)>::empty(),
                }),
            ));
        }
        if let Some(v) = &self.addr {
            r.push((2, FieldRef::Text(v.as_str())));
        }
        proof {
            assert(lists_fields(
                r@,
                (match self.name {
                    Some(v) => seq![(1u32, FieldValue::Text(v))],
                    None => Seq::<(u32, FieldValue)>::empty(),
                }) + (match self.addr {
                    Some(v) => seq![(2u32, FieldValue::Text(v))],
                    None => Seq::<(u32, FieldValue)>::empty(),
                }),
            ));
        }
        r
    }
}


impl NodeId {
    /// The message in which nothing is set.
    pub open spec fn spec_empty() -> NodeId {
        NodeId { name: None, addr: None }
    }

    /// The message after each of the fields was taken in, first to last.
    pub open spec fn merge_fields(self, fields: Seq<(u32, FieldValue)>) -> NodeId
        decreases fields.len(),
    {
        if fields.len() == 0 {
            self
        } else {
            self.merge_fields(fields.drop_last()).with_field(fields.last().0, fields.last().1)
        }
    }

    /// Taking in two lists of fields one after the other comes to taking in
    /// the two as one list.
    pub proof fn lemma_merge_concat(
        self,
        first: Seq<(u32, FieldValue)>,
        second: Seq<(u32, FieldValue)>,
    )
        ensures
            self.merge_fields(first + second) == self.merge_fields(first).merge_fields(second),
        decreases second.len(),
    {
        if second.len() == 0 {
            assert(first + second =~= first);
        } else {
            self.lemma_merge_concat(first, second.drop_last());
            assert((first + second).drop_last() =~= first + second.drop_last());
        }
    }

    /// What a message writes it reads back: every field that it lists is of
    /// the kind that its number calls for, and an empty message that takes in
    /// the fields in their order is the message again.
    pub proof fn lemma_written_fields_read_back(self)
        ensures
            forall|i: int|
                0 <= i < self.spec_fields().len() ==> Self::spec_field_kind(
                    (#[trigger] self.spec_fields()[i]).0,
                ) == Some(self.spec_fields()[i].1.kind()),
            Self::spec_empty().merge_fields(self.spec_fields()) == self,
    {
        reveal_with_fuel(NodeId::merge_fields, 3);
        let e = Self::spec_empty();
        let t0 = (match self.name {
            Some(v) => seq![(1u32, FieldValue::Text(v))],
            None => Seq::<(u32, FieldValue)>::empty(),
        });
        let all0 = t0;
        assert(t0.len() <= 1);
        if t0.len() == 1 {
            assert(t0.drop_last() =~= Seq::<(u32, FieldValue)>::empty());
        }
        let s0 = e.merge_fields(all0);
        assert(s0 == (NodeId { name: self.name, addr: None }));
        let t1 = (match self.addr {
            Some(v) => seq![(2u32, FieldValue::Text(v))],
            None => Seq::<(u32, FieldValue)>::empty(),
        });
        let all1 = all0 + t1;
        Self::lemma_merge_concat(e, all0, t1);
        assert(t1.len() <= 1);
        if t1.len() == 1 {
            assert(t1.drop_last() =~= Seq::<(u32, FieldValue)>::empty());
        }
        let s1 = e.merge_fields(all1);
        assert(s1 == s0.merge_fields(t1));
        assert(s1 == (NodeId { name: self.name, addr: self.addr }));
        assert(all1 =~= self.spec_fields());
    }
}

} // verus!
