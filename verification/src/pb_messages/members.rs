//! The wire forms of cluster membership.

use crate::pb_messages::node_id::NodeId;
use crate::pb_messages::field::lists_fields;
use crate::pb_messages::field::shows;
use crate::pb_messages::field::FieldKind;
use crate::pb_messages::field::FieldRef;
use crate::pb_messages::field::FieldValue;
use crate::pb_messages::field::WireKind;
use crate::pb_messages::field::copy_bytes;
use crate::pb_messages::size::add_size;
use crate::pb_messages::size::bool_field_len;
use crate::pb_messages::size::bool_field_size;
use crate::pb_messages::size::bytes_field_size;
use crate::pb_messages::size::delimited_len;
use crate::pb_messages::size::nested_size;
use crate::pb_messages::size::MAX_PAYLOAD;
use vstd::prelude::*;

verus! {

/// A member of a cluster and whether it is connected.
#[derive(Debug, PartialEq)]
pub struct Member {
    pub node: Option<NodeId>,
    pub connected: Option<bool>,
}

impl Member {
    /// Whether nothing is set in the message.
    pub open spec fn is_default(&self) -> bool {
        &&& self.node is None
        &&& self.connected is None
    }

    /// A message in which nothing is set.
    pub fn new() -> (r: Member)
        ensures
            r.is_default(),
    {
        Member { node: None, connected: None }
    }

    /// Unsets `node`.
    pub fn clear_node(&mut self)
        ensures
            *final(self) == (Member { node: None, ..*old(self) }),
    {
        self.node = None;
    }

    /// Whether `node` is set.
    pub fn has_node(&self) -> (r: bool)
        ensures
            r == (self.node is Some),
    {
        self.node.is_some()
    }

    /// Sets `node` to `v`.
    pub fn set_node(&mut self, v: NodeId)
        ensures
            *final(self) == (Member { node: Some(v), ..*old(self) }),
    {
        self.node = Some(v);
    }

    /// A mutable reference to `node`, which is first set to an empty message where it
    /// is unset.
    pub fn mut_node(&mut self) -> (r: &mut NodeId)
        ensures
            match old(self).node {
                Some(v) => *r == v,
                None => r.is_default(),
            },
            *final(self) == (Member { node: Some(*final(r)), ..*old(self) }),
    {
        if self.node.is_none() {
            self.node = Some(NodeId::new());
        }
        self.node.as_mut().unwrap()
    }

    /// Takes the message out of `node` and leaves it unset; an empty message where
    /// it was unset.
    pub fn take_node(&mut self) -> (r: NodeId)
        ensures
            *final(self) == (Member { node: None, ..*old(self) }),
            match old(self).node {
                Some(v) => r == v,
                None => r.is_default(),
            },
    {
        match self.node.take() {
            Some(v) => v,
            None => NodeId::new(),
        }
    }

    /// The message in `node`, or the message in which nothing is set where it
    /// is unset.
    pub fn get_node(&self) -> (r: NodeId)
        ensures
            match self.node {
                Some(v) => r == v,
                None => r == NodeId::spec_empty(),
            },
    {
        match &self.node {
            Some(v) => v.clone(),
            None => NodeId::new(),
        }
    }

    /// Unsets `connected`.
    pub fn clear_connected(&mut self)
        ensures
            *final(self) == (Member { connected: None, ..*old(self) }),
    {
        self.connected = None;
    }

    /// Whether `connected` is set.
    pub fn has_connected(&self) -> (r: bool)
        ensures
            r == (self.connected is Some),
    {
        self.connected.is_some()
    }

    /// Sets `connected` to `v`.
    pub fn set_connected(&mut self, v: bool)
        ensures
            *final(self) == (Member { connected: Some(v), ..*old(self) }),
    {
        self.connected = Some(v);
    }

    /// The flag in `connected`, or `false` where it is unset.
    pub fn get_connected(&self) -> (r: bool)
        ensures
            r == match self.connected {
                Some(v) => v,
                None => false,
            },
    {
        match self.connected {
            Some(v) => v,
            None => false,
        }
    }
}

impl Default for Member {
    /// A message in which nothing is set.
    fn default() -> (r: Member)
        ensures
            r.is_default(),
    {
        Member::new()
    }
}

impl Clone for Member {
    fn clone(&self) -> (r: Member)
        ensures
            r == *self,
    {
        let node = match &self.node {
            Some(v) => Some(v.clone()),
            None => None,
        };
        let connected = match &self.connected {
            Some(v) => Some(*v),
            None => None,
        };
        Member { node, connected }
    }
}

impl Member {
    /// The number of bytes that the message takes on the wire: for each field
    /// that is set, its tag and its value.
    pub open spec fn wire_len(&self) -> int {
        (match self.node {
            Some(v) => delimited_len(1, v.wire_len()),
            None => 0,
        }) + (match self.connected {
            Some(v) => bool_field_len(2),
            None => 0,
        })
    }

    /// Whether the size of the message can be computed: no text or byte string
    /// in it is longer than `MAX_PAYLOAD`, and the whole fits 32 bits.
    pub open spec fn sizable(&self) -> bool {
        &&& self.node matches Some(v) ==> v.sizable()
        &&& self.wire_len() <= u32::MAX
    }

    /// Each field of a message takes no negative number of bytes.
    proof fn lemma_parts(&self)
        ensures
            (match self.node {
                Some(v) => delimited_len(1, v.wire_len()),
                None => 0,
            }) >= 0,
            (match self.connected {
                Some(v) => bool_field_len(2),
                None => 0,
            }) >= 0,
    {
        if let Some(v) = self.node {
            v.lemma_wire_len();
        }
    }

    /// A message takes no negative number of bytes.
    pub proof fn lemma_wire_len(&self)
        ensures
            self.wire_len() >= 0,
    {
        self.lemma_parts();
    }

    /// The size of the message on the wire, or `None` where it cannot be
    /// computed.
    pub fn checked_size(&self) -> (r: Option<u32>)
        ensures
            r == if self.sizable() {
                Some(self.wire_len() as u32)
            } else {
                None
            },
    {
        proof {
            self.lemma_parts();
        }
        let mut my_size: u32 = 0;
        if let Some(v) = &self.node {
            proof {
                v.lemma_wire_len();
            }
            let len = match v.checked_size() {
                Some(len) => len,
                None => return None,
            };
            let field = match nested_size(1, len) {
                Some(size) => size,
                None => return None,
            };
            my_size = match add_size(my_size, field) {
                Some(size) => size,
                None => return None,
            };
        }
        if let Some(v) = &self.connected {
            let field = bool_field_size(2);
            my_size = match add_size(my_size, field) {
                Some(size) => size,
                None => return None,
            };
        }
        Some(my_size)
    }

    /// The size of the message on the wire.
    pub fn compute_size(&self) -> (r: u32)
        requires
            self.sizable(),
        ensures
            r == self.wire_len(),
    {
        proof {
            self.lemma_wire_len();
        }
        match self.checked_size() {
            Some(size) => size,
            None => vstd::pervasive::unreached(),
        }
    }
}

impl Member {
    /// The kind of value that the field with the number `field_number` holds,
    /// or `None` where the message has no such field.
    pub open spec fn spec_field_kind(field_number: u32) -> Option<FieldKind> {
        if field_number == 1 {
            Some(FieldKind::NodeId)
        } else if field_number == 2 {
            Some(FieldKind::Bool)
        } else {
            None
        }
    }

    /// The kind of value that the field with the number `field_number` holds,
    /// or `None` where the message has no such field.
    pub fn field_kind(field_number: u32) -> (r: Option<FieldKind>)
        ensures
            r == Self::spec_field_kind(field_number),
    {
        match field_number {
            1 => Some(FieldKind::NodeId),
            2 => Some(FieldKind::Bool),
            _ => None,
        }
    }

    /// The kind of value to read for the field `field_number` when it comes
    /// in the layout `wire`: the field's kind if that is its layout, else
    /// `None`.
    pub fn accepts(field_number: u32, wire: WireKind) -> (r: Option<FieldKind>)
        ensures
            r == match Self::spec_field_kind(field_number) {
                Some(k) => if k.spec_wire_kind() == wire {
                    Some(k)
                } else {
                    None
                },
                None => None,
            },
    {
        match Self::field_kind(field_number) {
            Some(k) => if k.wire_kind() == wire {
                Some(k)
            } else {
                None
            },
            None => None,
        }
    }

    /// The message after a value was taken in for the field `field_number`:
    /// the field holds the value, if the value is of the field's kind; else
    /// nothing changes.
    pub open spec fn with_field(self, field_number: u32, value: FieldValue) -> Member {
        if field_number == 1 {
            match value {
                FieldValue::NodeId(v) => Member { node: Some(v), ..self },
                _ => self,
            }
        } else if field_number == 2 {
            match value {
                FieldValue::Bool(v) => Member { connected: Some(v), ..self },
                _ => self,
            }
        } else {
            self
        }
    }

    /// The fields that are set, in the order in which they are written.
    pub open spec fn spec_fields(&self) -> Seq<(u32, FieldValue)> {
        (match self.node {
            Some(v) => seq![(1u32, FieldValue::NodeId(v))],
            None => Seq::<(u32, FieldValue)>::empty(),
        }) + (match self.connected {
            Some(v) => seq![(2u32, FieldValue::Bool(v))],
            None => Seq::<(u32, FieldValue)>::empty(),
        })
    }

    /// Takes in a value that was read for the field `field_number`, and says
    /// whether the value is of the field's kind. Any other value is refused
    /// and changes nothing.
    pub fn merge_field(&mut self, field_number: u32, value: FieldValue) -> (accepted: bool)
        ensures
            accepted == (Self::spec_field_kind(field_number) == Some(value.kind())),
            *final(self) == old(self).with_field(field_number, value),
    {
        match field_number {
            1 => match value {
                FieldValue::NodeId(v) => {
                    self.set_node(v);
                    true
                },
                _ => false,
            },
            2 => match value {
                FieldValue::Bool(v) => {
                    self.set_connected(v);
                    true
                },
                _ => false,
            },
            _ => false,
        }
    }

    /// The fields that are set, in the order in which they are written.
    pub fn set_fields(&self) -> (r: Vec<(u32, FieldRef<'_>)>)
        ensures
            lists_fields(r@, self.spec_fields()),
    {
        let mut r: Vec<(u32, FieldRef<'_>)> = Vec::new();
        if let Some(v) = &self.node {
            r.push((1, FieldRef::NodeId(v)));
        }
        proof {
            assert(lists_fields(
                r@,
                (match self.node {
                    Some(v) => seq![(1u32, FieldValue::NodeId(v))],
                    None => Seq::<(u32, FieldValue)>::empty(),
                }),
            ));
        }
        if let Some(v) = &self.connected {
            r.push((2, FieldRef::Bool(*v)));
        }
        proof {
            assert(lists_fields(
                r@,
                (match self.node {
                    Some(v) => seq![(1u32, FieldValue::NodeId(v))],
                    None => Seq::<(u32, FieldValue)>::empty(),
                }) + (match self.connected {
                    Some(v) => seq![(2u32, FieldValue::Bool(v))],
                    None => Seq::<(u32, FieldValue)>::empty(),
                }),
            ));
        }
        r
    }
}


impl Member {
    /// The message in which nothing is set.
    pub open spec fn spec_empty() -> Member {
        Member { node: None, connected: None }
    }

    /// The message after each of the fields was taken in, first to last.
    pub open spec fn merge_fields(self, fields: Seq<(u32, FieldValue)>) -> Member
        decreases fields.len(),
    {
        if fields.len() == 0 {
            self
        } else {
            self.merge_fields(fields.drop_last()).with_field(fields.last().0, fields.last().1)
        }
    }

    /// Taking in two lists of fields one after the other comes to taking in
    /// the two as one list.
    pub proof fn lemma_merge_concat(
        self,
        first: Seq<(u32, FieldValue)>,
        second: Seq<(u32, FieldValue)>,
    )
        ensures
            self.merge_fields(first + second) == self.merge_fields(first).merge_fields(second),
        decreases second.len(),
    {
        if second.len() == 0 {
            assert(first + second =~= first);
        } else {
            self.lemma_merge_concat(first, second.drop_last());
            assert((first + second).drop_last() =~= first + second.drop_last());
        }
    }

    /// What a message writes it reads back: every field that it lists is of
    /// the kind that its number calls for, and an empty message that takes in
    /// the fields in their order is the message again.
    pub proof fn lemma_written_fields_read_back(self)
        ensures
            forall|i: int|
                0 <= i < self.spec_fields().len() ==> Self::spec_field_kind(
                    (#[trigger] self.spec_fields()[i]).0,
                ) == Some(self.spec_fields()[i].1.kind()),
            Self::spec_empty().merge_fields(self.spec_fields()) == self,
    {
        reveal_with_fuel(Member::merge_fields, 3);
        let e = Self::spec_empty();
        let t0 = (match self.node {
            Some(v) => seq![(1u32, FieldValue::NodeId(v))],
            None => Seq::<(u32, FieldValue)>::empty(),
        });
        let all0 = t0;
        assert(t0.len() <= 1);
        if t0.len() == 1 {
            assert(t0.drop_last() =~= Seq::<(u32, FieldValue)>::empty());
        }
        let s0 = e.merge_fields(all0);
        assert(s0 == (Member { node: self.node, connected: None }));
        let t1 = (match self.connected {
            Some(v) => seq![(2u32, FieldValue::Bool(v))],
            None => Seq::<(u32, FieldValue)>::empty(),
        });
        let all1 = all0 + t1;
        Self::lemma_merge_concat(e, all0, t1);
        assert(t1.len() <= 1);
        if t1.len() == 1 {
            assert(t1.drop_last() =~= Seq::<(u32, FieldValue)>::empty());
        }
        let s1 = e.merge_fields(all1);
        assert(s1 == s0.merge_fields(t1));
        assert(s1 == (Member { node: self.node, connected: self.connected }));
        assert(all1 =~= self.spec_fields());
    }
}

/// The members of a cluster.
#[derive(Debug, PartialEq)]
pub struct Members {
    pub members: Vec<Member>,
}

impl Members {
    /// Whether nothing is set in the message.
    pub open spec fn is_default(&self) -> bool {
        &&& self.members@ == Seq::<Member>::empty()
    }

    /// A message in which nothing is set.
    pub fn new() -> (r: Members)
        ensures
            r.is_default(),
    {
        Members { members: Vec::new() }
    }

    /// Empties `members`.
    pub fn clear_members(&mut self)
        ensures
            final(self).members@ == Seq::<Member>::empty(),
    {
        self.members.clear();
    }

    /// Replaces `members` by `v`.
    pub fn set_members(&mut self, v: Vec<Member>)
        ensures
            *final(self) == (Members { members: v }),
    {
        self.members = v;
    }

    /// A mutable reference to `members`.
    pub fn mut_members(&mut self) -> (r: &mut Vec<Member>)
        ensures
            *r == old(self).members,
            *final(self) == (Members { members: *final(r) }),
    {
        &mut self.members
    }

    /// Takes the list out of `members` and leaves it empty.
    pub fn take_members(&mut self) -> (r: Vec<Member>)
        ensures
            r == old(self).members,
            final(self).members@ == Seq::<Member>::empty(),
    {
        let mut r: Vec<Member> = Vec::new();
        std::mem::swap(&mut self.members, &mut r);
        r
    }

    /// What `members` lists.
    pub fn get_members(&self) -> (r: &[Member])
        ensures
            r@ == self.members@,
    {
        self.members.as_slice()
    }
}

impl Default for Members {
    /// A message in which nothing is set.
    fn default() -> (r: Members)
        ensures
            r.is_default(),
    {
        Members::new()
    }
}

impl Members {
    /// Whether the two messages hold the same, field by field, byte strings and
    /// lists taken by what they hold.
    pub open spec fn same(&self, other: Members) -> bool {
        &&& self.members@.len() == other.members@.len()
        &&& forall|i: int| 0 <= i < self.members@.len() ==> #[trigger] self.members@[i] == other.members@[i]
    }
}

impl Clone for Members {
    fn clone(&self) -> (r: Members)
        ensures
            self.same(r),
    {
        let mut members: Vec<Member> = Vec::new();
        let mut i: usize = 0;
        while i < self.members.len()
            invariant
                i <= self.members@.len(),
                members@.len() == i,
                forall|k: int| 0 <= k < i ==> #[trigger] self.members@[k] == members@[k],
            decreases self.members.len() - i,
        {
            members.push(self.members[i].clone());
            i = i + 1;
        }
        Members { members }
    }
}

/// The number of bytes that the listed messages take on the wire as the field
/// `members` of a `Members`.
pub open spec fn members_wire_len(list: Seq<Member>) -> int
    decreases list.len(),
{
    if list.len() == 0 {
        0
    } else {
        members_wire_len(list.drop_last()) + delimited_len(1, list.last().wire_len())
    }
}

/// The first messages of a list take no more bytes than the whole list.
pub proof fn lemma_members_wire_len(list: Seq<Member>, i: int)
    requires
        0 <= i <= list.len(),
    ensures
        0 <= members_wire_len(list.take(i)) <= members_wire_len(list),
    decreases list.len(),
{
    if i == list.len() {
        assert(list.take(i) =~= list);
        if list.len() > 0 {
            lemma_members_wire_len(list.drop_last(), i - 1);
            list.last().lemma_wire_len();
        }
    } else {
        assert(list.take(i) =~= list.drop_last().take(i));
        lemma_members_wire_len(list.drop_last(), i);
        list.last().lemma_wire_len();
    }
}

impl Members {
    /// The number of bytes that the message takes on the wire.
    pub open spec fn wire_len(&self) -> int {
        members_wire_len(self.members@)
    }

    /// Whether the size of the message can be computed: each listed message
    /// can be sized, and the whole fits 32 bits.
    pub open spec fn sizable(&self) -> bool {
        &&& forall|i: int| 0 <= i < self.members@.len() ==> (#[trigger] self.members@[i]).sizable()
        &&& self.wire_len() <= u32::MAX
    }

    /// A message takes no negative number of bytes.
    pub proof fn lemma_wire_len(&self)
        ensures
            self.wire_len() >= 0,
    {
        lemma_members_wire_len(self.members@, 0);
    }

    /// The size of the message on the wire, or `None` where it cannot be
    /// computed.
    pub fn checked_size(&self) -> (r: Option<u32>)
        ensures
            r == if self.sizable() {
                Some(self.wire_len() as u32)
            } else {
                None
            },
    {
        let mut my_size: u32 = 0;
        let mut i: usize = 0;
        proof {
            assert(self.members@.take(0) =~= Seq::<Member>::empty());
        }
        while i < self.members.len()
            invariant
                i <= self.members@.len(),
                my_size == members_wire_len(self.members@.take(i as int)),
                forall|k: int| 0 <= k < i ==> (#[trigger] self.members@[k]).sizable(),
            decreases self.members.len() - i,
        {
            proof {
                lemma_members_wire_len(self.members@, i + 1);
                assert(self.members@.take(i + 1).drop_last() =~= self.members@.take(i as int));
                assert(self.members@.take(i + 1).last() == self.members@[i as int]);
                self.members@[i as int].lemma_wire_len();
            }
            let len = match self.members[i].checked_size() {
                Some(len) => len,
                None => return None,
            };
            let field = match nested_size(1, len) {
                Some(size) => size,
                None => return None,
            };
            my_size = match add_size(my_size, field) {
                Some(size) => size,
                None => return None,
            };
            i = i + 1;
        }
        proof {
            assert(self.members@.take(self.members@.len() as int) =~= self.members@);
        }
        Some(my_size)
    }

    /// The size of the message on the wire.
    pub fn compute_size(&self) -> (r: u32)
        requires
            self.sizable(),
        ensures
            r == self.wire_len(),
    {
        proof {
            self.lemma_wire_len();
        }
        match self.checked_size() {
            Some(size) => size,
            None => vstd::pervasive::unreached(),
        }
    }
}

impl Members {
    /// The kind of value that the field with the number `field_number` holds,
    /// or `None` where the message has no such field.
    pub open spec fn spec_field_kind(field_number: u32) -> Option<FieldKind> {
        if field_number == 1 {
            Some(FieldKind::Member)
        } else {
            None
        }
    }

    /// The kind of value that the field with the number `field_number` holds,
    /// or `None` where the message has no such field.
    pub fn field_kind(field_number: u32) -> (r: Option<FieldKind>)
        ensures
            r == Self::spec_field_kind(field_number),
    {
        match field_number {
            1 => Some(FieldKind::Member),
            _ => None,
        }
    }

    /// The kind of value to read for the field `field_number` when it comes
    /// in the layout `wire`: the field's kind if that is its layout, else
    /// `None`.
    pub fn accepts(field_number: u32, wire: WireKind) -> (r: Option<FieldKind>)
        ensures
            r == match Self::spec_field_kind(field_number) {
                Some(k) => if k.spec_wire_kind() == wire {
                    Some(k)
                } else {
                    None
                },
                None => None,
            },
    {
        match Self::field_kind(field_number) {
            Some(k) => if k.wire_kind() == wire {
                Some(k)
            } else {
                None
            },
            None => None,
        }
    }

    /// The fields that are set, in the order in which they are written: each
    /// listed message as the field `members`.
    pub open spec fn spec_fields(&self) -> Seq<(u32, FieldValue)> {
        Seq::new(self.members@.len(), |i: int| (1u32, FieldValue::Member(self.members@[i])))
    }

    /// Takes in a value that was read for the field `field_number`: a `Member`
    /// for the field `members` is appended to the list. Any other value is
    /// refused and changes nothing.
    pub fn merge_field(&mut self, field_number: u32, value: FieldValue) -> (accepted: bool)
        ensures
            accepted == (Self::spec_field_kind(field_number) == Some(value.kind())),
            !accepted ==> *final(self) == *old(self),
            accepted ==> (value matches FieldValue::Member(v) && final(self).members@ == old(
                self,
            ).members@.push(v)),
    {
        if field_number != 1 {
            return false;
        }
        match value {
            FieldValue::Member(v) => {
                self.members.push(v);
                true
            },
            _ => false,
        }
    }

    /// The fields that are set, in the order in which they are written.
    pub fn set_fields(&self) -> (r: Vec<(u32, FieldRef<'_>)>)
        ensures
            lists_fields(r@, self.spec_fields()),
    {
        let mut r: Vec<(u32, FieldRef<'_>)> = Vec::new();
        let mut i: usize = 0;
        while i < self.members.len()
            invariant
                i <= self.members@.len(),
                r@.len() == i,
                forall|k: int|
                    0 <= k < i ==> (#[trigger] r@[k]).0 == 1 && shows(
                        r@[k].1,
                        FieldValue::Member(self.members@[k]),
                    ),
            decreases self.members.len() - i,
        {
            r.push((1, FieldRef::Member(&self.members[i])));
            i = i + 1;
        }
        r
    }
}

/// A node's identity and its member set in encoded form.
#[derive(Debug, PartialEq)]
pub struct MemberORSet {
    pub from: Option<NodeId>,
    pub orset: Option<Vec<u8>>,
}

impl MemberORSet {
    /// Whether nothing is set in the message.
    pub open spec fn is_default(&self) -> bool {
        &&& self.from is None
        &&& self.orset is None
    }

    /// A message in which nothing is set.
    pub fn new() -> (r: MemberORSet)
        ensures
            r.is_default(),
    {
        MemberORSet { from: None, orset: None }
    }

    /// Unsets `from`.
    pub fn clear_from(&mut self)
        ensures
            *final(self) == (MemberORSet { from: None, ..*old(self) }),
    {
        self.from = None;
    }

    /// Whether `from` is set.
    pub fn has_from(&self) -> (r: bool)
        ensures
            r == (self.from is Some),
    {
        self.from.is_some()
    }

    /// Sets `from` to `v`.
    pub fn set_from(&mut self, v: NodeId)
        ensures
            *final(self) == (MemberORSet { from: Some(v), ..*old(self) }),
    {
        self.from = Some(v);
    }

    /// A mutable reference to `from`, which is first set to an empty message where it
    /// is unset.
    pub fn mut_from(&mut self) -> (r: &mut NodeId)
        ensures
            match old(self).from {
                Some(v) => *r == v,
                None => r.is_default(),
            },
            *final(self) == (MemberORSet { from: Some(*final(r)), ..*old(self) }),
    {
        if self.from.is_none() {
            self.from = Some(NodeId::new());
        }
        self.from.as_mut().unwrap()
    }

    /// Takes the message out of `from` and leaves it unset; an empty message where
    /// it was unset.
    pub fn take_from(&mut self) -> (r: NodeId)
        ensures
            *final(self) == (MemberORSet { from: None, ..*old(self) }),
            match old(self).from {
                Some(v) => r == v,
                None => r.is_default(),
            },
    {
        match self.from.take() {
            Some(v) => v,
            None => NodeId::new(),
        }
    }

    /// The message in `from`, or the message in which nothing is set where it
    /// is unset.
    pub fn get_from(&self) -> (r: NodeId)
        ensures
            match self.from {
                Some(v) => r == v,
                None => r == NodeId::spec_empty(),
            },
    {
        match &self.from {
            Some(v) => v.clone(),
            None => NodeId::new(),
        }
    }

    /// Unsets `orset`.
    pub fn clear_orset(&mut self)
        ensures
            *final(self) == (MemberORSet { orset: None, ..*old(self) }),
    {
        self.orset = None;
    }

    /// Whether `orset` is set.
    pub fn has_orset(&self) -> (r: bool)
        ensures
            r == (self.orset is Some),
    {
        self.orset.is_some()
    }

    /// Sets `orset` to `v`.
    pub fn set_orset(&mut self, v: Vec<u8>)
        ensures
            *final(self) == (MemberORSet { orset: Some(v), ..*old(self) }),
    {
        self.orset = Some(v);
    }

    /// A mutable reference to `orset`, which is first set to no bytes where it
    /// is unset.
    pub fn mut_orset(&mut self) -> (r: &mut Vec<u8>)
        ensures
            match old(self).orset {
                Some(v) => *r == v,
                None => r@ == Seq::<u8>::empty(),
            },
            *final(self) == (MemberORSet { orset: Some(*final(r)), ..*old(self) }),
    {
        if self.orset.is_none() {
            self.orset = Some(Vec::new());
        }
        self.orset.as_mut().unwrap()
    }

    /// Takes the bytes out of `orset` and leaves it unset; no bytes where
    /// it was unset.
    pub fn take_orset(&mut self) -> (r: Vec<u8>)
        ensures
            *final(self) == (MemberORSet { orset: None, ..*old(self) }),
            match old(self).orset {
                Some(v) => r == v,
                None => r@ == Seq::<u8>::empty(),
            },
    {
        match self.orset.take() {
            Some(v) => v,
            None => Vec::new(),
        }
    }

    /// The bytes in `orset`, or no bytes where it is unset.
    pub fn get_orset(&self) -> (r: &[u8])
        ensures
            r@ == match self.orset {
                Some(v) => v@,
                None => Seq::<u8>::empty(),
            },
    {
        match self.orset.as_ref() {
            Some(v) => v.as_slice(),
            None => &[],
        }
    }
}

impl Default for MemberORSet {
    /// A message in which nothing is set.
    fn default() -> (r: MemberORSet)
        ensures
            r.is_default(),
    {
        MemberORSet::new()
    }
}

impl MemberORSet {
    /// Whether the two messages hold the same, field by field, byte strings and
    /// lists taken by what they hold.
    pub open spec fn same(&self, other: MemberORSet) -> bool {
        &&& self.from == other.from
        &&& match (self.orset, other.orset) {
            (Some(a), Some(b)) => a@ == b@,
            (None, None) => true,
            _ => false,
        }
    }
}

impl Clone for MemberORSet {
    fn clone(&self) -> (r: MemberORSet)
        ensures
            self.same(r),
    {
        let from = match &self.from {
            Some(v) => Some(v.clone()),
            None => None,
        };
        let orset = match &self.orset {
            Some(v) => Some(copy_bytes(v)),
            None => None,
        };
        MemberORSet { from, orset }
    }
}

impl MemberORSet {
    /// The number of bytes that the message takes on the wire: for each field
    /// that is set, its tag and its value.
    pub open spec fn wire_len(&self) -> int {
        (match self.from {
            Some(v) => delimited_len(1, v.wire_len()),
            None => 0,
        }) + (match self.orset {
            Some(v) => delimited_len(2, v@.len() as int),
            None => 0,
        })
    }

    /// Whether the size of the message can be computed: no text or byte string
    /// in it is longer than `MAX_PAYLOAD`, and the whole fits 32 bits.
    pub open spec fn sizable(&self) -> bool {
        &&& self.from matches Some(v) ==> v.sizable()
        &&& self.orset matches Some(v) ==> v@.len() <= MAX_PAYLOAD
        &&& self.wire_len() <= u32::MAX
    }

    /// Each field of a message takes no negative number of bytes.
    proof fn lemma_parts(&self)
        ensures
            (match self.from {
                Some(v) => delimited_len(1, v.wire_len()),
                None => 0,
            }) >= 0,
            (match self.orset {
                Some(v) => delimited_len(2, v@.len() as int),
                None => 0,
            }) >= 0,
    {
        if let Some(v) = self.from {
            v.lemma_wire_len();
        }
    }

    /// A message takes no negative number of bytes.
    pub proof fn lemma_wire_len(&self)
        ensures
            self.wire_len() >= 0,
    {
        self.lemma_parts();
    }

    /// The size of the message on the wire, or `None` where it cannot be
    /// computed.
    pub fn checked_size(&self) -> (r: Option<u32>)
        ensures
            r == if self.sizable() {
                Some(self.wire_len() as u32)
            } else {
                None
            },
    {
        proof {
            self.lemma_parts();
        }
        let mut my_size: u32 = 0;
        if let Some(v) = &self.from {
            proof {
                v.lemma_wire_len();
            }
            let len = match v.checked_size() {
                Some(len) => len,
                None => return None,
            };
            let field = match nested_size(1, len) {
                Some(size) => size,
                None => return None,
            };
            my_size = match add_size(my_size, field) {
                Some(size) => size,
                None => return None,
            };
        }
        if let Some(v) = &self.orset {
            let field = match bytes_field_size(2, v.as_slice()) {
                Some(size) => size,
                None => return None,
            };
            my_size = match add_size(my_size, field) {
                Some(size) => size,
                None => return None,
            };
        }
        Some(my_size)
    }

    /// The size of the message on the wire.
    pub fn compute_size(&self) -> (r: u32)
        requires
            self.sizable(),
        ensures
            r == self.wire_len(),
    {
        proof {
            self.lemma_wire_len();
        }
        match self.checked_size() {
            Some(size) => size,
            None => vstd::pervasive::unreached(),
        }
    }
}

impl MemberORSet {
    /// The kind of value that the field with the number `field_number` holds,
    /// or `None` where the message has no such field.
    pub open spec fn spec_field_kind(field_number: u32) -> Option<FieldKind> {
        if field_number == 1 {
            Some(FieldKind::NodeId)
        } else if field_number == 2 {
            Some(FieldKind::Bytes)
        } else {
            None
        }
    }

    /// The kind of value that the field with the number `field_number` holds,
    /// or `None` where the message has no such field.
    pub fn field_kind(field_number: u32) -> (r: Option<FieldKind>)
        ensures
            r == Self::spec_field_kind(field_number),
    {
        match field_number {
            1 => Some(FieldKind::NodeId),
            2 => Some(FieldKind::Bytes),
            _ => None,
        }
    }

    /// The kind of value to read for the field `field_number` when it comes
    /// in the layout `wire`: the field's kind if that is its layout, else
    /// `None`.
    pub fn accepts(field_number: u32, wire: WireKind) -> (r: Option<FieldKind>)
        ensures
            r == match Self::spec_field_kind(field_number) {
                Some(k) => if k.spec_wire_kind() == wire {
                    Some(k)
                } else {
                    None
                },
                None => None,
            },
    {
        match Self::field_kind(field_number) {
            Some(k) => if k.wire_kind() == wire {
                Some(k)
            } else {
                None
            },
            None => None,
        }
    }

    /// The message after a value was taken in for the field `field_number`:
    /// the field holds the value, if the value is of the field's kind; else
    /// nothing changes.
    pub open spec fn with_field(self, field_number: u32, value: FieldValue) -> MemberORSet {
        if field_number == 1 {
            match value {
                FieldValue::NodeId(v) => MemberORSet { from: Some(v), ..self },
                _ => self,
            }
        } else if field_number == 2 {
            match value {
                FieldValue::Bytes(v) => MemberORSet { orset: Some(v), ..self },
                _ => self,
            }
        } else {
            self
        }
    }

    /// The fields that are set, in the order in which they are written.
    pub open spec fn spec_fields(&self) -> Seq<(u32, FieldValue)> {
        (match self.from {
            Some(v) => seq![(1u32, FieldValue::NodeId(v))],
            None => Seq::<(u32, FieldValue)>::empty(),
        }) + (match self.orset {
            Some(v) => seq![(2u32, FieldValue::Bytes(v))],
            None => Seq::<(u32, FieldValue)>::empty(),
        })
    }

    /// Takes in a value that was read for the field `field_number`, and says
    /// whether the value is of the field's kind. Any other value is refused
    /// and changes nothing.
    pub fn merge_field(&mut self, field_number: u32, value: FieldValue) -> (accepted: bool)
        ensures
            accepted == (Self::spec_field_kind(field_number) == Some(value.kind())),
            *final(self) == old(self).with_field(field_number, value),
    {
        match field_number {
            1 => match value {
                FieldValue::NodeId(v) => {
                    self.set_from(v);
                    true
                },
                _ => false,
            },
            2 => match value {
                FieldValue::Bytes(v) => {
                    self.set_orset(v);
                    true
                },
                _ => false,
            },
            _ => false,
        }
    }

    /// The fields that are set, in the order in which they are written.
    pub fn set_fields(&self) -> (r: Vec<(u32, FieldRef<'_>)>)
        ensures
            lists_fields(r@, self.spec_fields()),
    {
        let mut r: Vec<(u32, FieldRef<'_>)> = Vec::new();
        if let Some(v) = &self.from {
            r.push((1, FieldRef::NodeId(v)));
        }
        proof {
            assert(lists_fields(
                r@,
                (match self.from {
                    Some(v) => seq![(1u32, FieldValue::NodeId(v))],
                    None => Seq::<(u32, FieldValue)>::empty(),
                }),
            ));
        }
        if let Some(v) = &self.orset {
            r.push((2, FieldRef::Bytes(v.as_slice())));
        }
        proof {
            assert(lists_fields(
                r@,
                (match self.from {
                    Some(v) => seq![(1u32, FieldValue::NodeId(v))],
                    None => Seq::<(u32, FieldValue)>::empty(),
                }) + (match self.orset {
                    Some(v) => seq![(2u32, FieldValue::Bytes(v))],
                    None => Seq::<(u32, FieldValue)>::empty(),
                }),
            ));
        }
        r
    }
}


impl MemberORSet {
    /// The message in which nothing is set.
    pub open spec fn spec_empty() -> MemberORSet {
        MemberORSet { from: None, orset: None }
    }

    /// The message after each of the fields was taken in, first to last.
    pub open spec fn merge_fields(self, fields: Seq<(u32, FieldValue)>) -> MemberORSet
        decreases fields.len(),
    {
        if fields.len() == 0 {
            self
        } else {
            self.merge_fields(fields.drop_last()).with_field(fields.last().0, fields.last().1)
        }
    }

    /// Taking in two lists of fields one after the other comes to taking in
    /// the two as one list.
    pub proof fn lemma_merge_concat(
        self,
        first: Seq<(u32, FieldValue)>,
        second: Seq<(u32, FieldValue)>,
    )
        ensures
            self.merge_fields(first + second) == self.merge_fields(first).merge_fields(second),
        decreases second.len(),
    {
        if second.len() == 0 {
            assert(first + second =~= first);
        } else {
            self.lemma_merge_concat(first, second.drop_last());
            assert((first + second).drop_last() =~= first + second.drop_last());
        }
    }

    /// What a message writes it reads back: every field that it lists is of
    /// the kind that its number calls for, and an empty message that takes in
    /// the fields in their order is the message again.
    pub proof fn lemma_written_fields_read_back(self)
        ensures
            forall|i: int|
                0 <= i < self.spec_fields().len() ==> Self::spec_field_kind(
                    (#[trigger] self.spec_fields()[i]).0,
                ) == Some(self.spec_fields()[i].1.kind()),
            Self::spec_empty().merge_fields(self.spec_fields()) == self,
    {
        reveal_with_fuel(MemberORSet::merge_fields, 3);
        let e = Self::spec_empty();
        let t0 = (match self.from {
            Some(v) => seq![(1u32, FieldValue::NodeId(v))],
            None => Seq::<(u32, FieldValue)>::empty(),
        });
        let all0 = t0;
        assert(t0.len() <= 1);
        if t0.len() == 1 {
            assert(t0.drop_last() =~= Seq::<(u32, FieldValue)>::empty());
        }
        let s0 = e.merge_fields(all0);
        assert(s0 == (MemberORSet { from: self.from, orset: None }));
        let t1 = (match self.orset {
            Some(v) => seq![(2u32, FieldValue::Bytes(v))],
            None => Seq::<(u32, FieldValue)>::empty(),
        });
        let all1 = all0 + t1;
        Self::lemma_merge_concat(e, all0, t1);
        assert(t1.len() <= 1);
        if t1.len() == 1 {
            assert(t1.drop_last() =~= Seq::<(u32, FieldValue)>::empty());
        }
        let s1 = e.merge_fields(all1);
        assert(s1 == s0.merge_fields(t1));
        assert(s1 == (MemberORSet { from: self.from, orset: self.orset }));
        assert(all1 =~= self.spec_fields());
    }
}

} // verus!
