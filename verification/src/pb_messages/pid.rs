//! The wire form of pids.

use crate::pb_messages::node_id::NodeId;
use crate::pb_messages::field::lists_fields;
use crate::pb_messages::field::shows;
use crate::pb_messages::field::FieldKind;
use crate::pb_messages::field::FieldRef;
use crate::pb_messages::field::FieldValue;
use crate::pb_messages::field::WireKind;
use crate::pb_messages::size::add_size;
use crate::pb_messages::size::delimited_len;
use crate::pb_messages::size::nested_size;
use crate::pb_messages::size::text_field_size;
use crate::pb_messages::size::text_len;
use crate::pb_messages::size::MAX_PAYLOAD;
use vstd::prelude::*;

verus! {

/// The address of an actor or a service.
#[derive(Debug, PartialEq)]
pub struct Pid {
    pub name: Option<String>,
    pub group: Option<String>,
    pub node: Option<NodeId>,
}

impl Pid {
    /// Whether nothing is set in the message.
    pub open spec fn is_default(&self) -> bool {
        &&& self.name is None
        &&& self.group is None
        &&& self.node is None
    }

    /// A message in which nothing is set.
    pub fn new() -> (r: Pid)
        ensures
            r.is_default(),
    {
        Pid { name: None, group: None, node: None }
    }

    /// Unsets `name`.
    pub fn clear_name(&mut self)
        ensures
            *final(self) == (Pid { name: None, ..*old(self) }),
    {
        self.name = None;
    }

    /// Whether `name` is set.
    pub fn has_name(&self) -> (r: bool)
        ensures
            r == (self.name is Some),
    {
        self.name.is_some()
    }

    /// Sets `name` to `v`.
    pub fn set_name(&mut self, v: String)
        ensures
            *final(self) == (Pid { name: Some(v), ..*old(self) }),
    {
        self.name = Some(v);
    }

    /// A mutable reference to `name`, which is first set to the empty text where it
    /// is unset.
    pub fn mut_name(&mut self) -> (r: &mut String)
        ensures
            match old(self).name {
                Some(v) => *r == v,
                None => r@ == Seq::<char>::empty(),
            },
            *final(self) == (Pid { name: Some(*final(r)), ..*old(self) }),
    {
        if self.name.is_none() {
            self.name = Some(String::new());
        }
        self.name.as_mut().unwrap()
    }

    /// Takes the text out of `name` and leaves it unset; the empty text where
    /// it was unset.
    pub fn take_name(&mut self) -> (r: String)
        ensures
            *final(self) == (Pid { name: None, ..*old(self) }),
            match old(self).name {
                Some(v) => r == v,
                None => r@ == Seq::<char>::empty(),
            },
    {
        match self.name.take() {
            Some(v) => v,
            None => String::new(),
        }
    }

    /// The text in `name`, or the empty text where it is unset.
    pub fn get_name(&self) -> (r: &str)
        ensures
            r@ == match self.name {
                Some(v) => v@,
                None => Seq::<char>::empty(),
            },
    {
        match self.name.as_ref() {
            Some(v) => v.as_str(),
            None => {
                proof {
                    reveal_strlit("");
                }
                ""
            },
        }
    }

    /// Unsets `group`.
    pub fn clear_group(&mut self)
        ensures
            *final(self) == (Pid { group: None, ..*old(self) }),
    {
        self.group = None;
    }

    /// Whether `group` is set.
    pub fn has_group(&self) -> (r: bool)
        ensures
            r == (self.group is Some),
    {
        self.group.is_some()
    }

    /// Sets `group` to `v`.
    pub fn set_group(&mut self, v: String)
        ensures
            *final(self) == (Pid { group: Some(v), ..*old(self) }),
    {
        self.group = Some(v);
    }

    /// A mutable reference to `group`, which is first set to the empty text where it
    /// is unset.
    pub fn mut_group(&mut self) -> (r: &mut String)
        ensures
            match old(self).group {
                Some(v) => *r == v,
                None => r@ == Seq::<char>::empty(),
            },
            *final(self) == (Pid { group: Some(*final(r)), ..*old(self) }),
    {
        if self.group.is_none() {
            self.group = Some(String::new());
        }
        self.group.as_mut().unwrap()
    }

    /// Takes the text out of `group` and leaves it unset; the empty text where
    /// it was unset.
    pub fn take_group(&mut self) -> (r: String)
        ensures
            *final(self) == (Pid { group: None, ..*old(self) }),
            match old(self).group {
                Some(v) => r == v,
                None => r@ == Seq::<char>::empty(),
            },
    {
        match self.group.take() {
            Some(v) => v,
            None => String::new(),
        }
    }

    /// The text in `group`, or the empty text where it is unset.
    pub fn get_group(&self) -> (r: &str)
        ensures
            r@ == match self.group {
                Some(v) => v@,
                None => Seq::<char>::empty(),
            },
    {
        match self.group.as_ref() {
            Some(v) => v.as_str(),
            None => {
                proof {
                    reveal_strlit("");
                }
                ""
            },
        }
    }

    /// Unsets `node`.
    pub fn clear_node(&mut self)
        ensures
            *final(self) == (Pid { node: None, ..*old(self) }),
    {
        self.node = None;
    }

    /// Whether `node` is set.
    pub fn has_node(&self) -> (r: bool)
        ensures
            r == (self.node is Some),
    {
        self.node.is_some()
    }

    /// Sets `node` to `v`.
    pub fn set_node(&mut self, v: NodeId)
        ensures
            *final(self) == (Pid { node: Some(v), ..*old(self) }),
    {
        self.node = Some(v);
    }

    /// A mutable reference to `node`, which is first set to an empty message where it
    /// is unset.
    pub fn mut_node(&mut self) -> (r: &mut NodeId)
        ensures
            match old(self).node {
                Some(v) => *r == v,
                None => r.is_default(),
            },
            *final(self) == (Pid { node: Some(*final(r)), ..*old(self) }),
    {
        if self.node.is_none() {
            self.node = Some(NodeId::new());
        }
        self.node.as_mut().unwrap()
    }

    /// Takes the message out of `node` and leaves it unset; an empty message where
    /// it was unset.
    pub fn take_node(&mut self) -> (r: NodeId)
        ensures
            *final(self) == (Pid { node: None, ..*old(self) }),
            match old(self).node {
                Some(v) => r == v,
                None => r.is_default(),
            },
    {
        match self.node.take() {
            Some(v) => v,
            None => NodeId::new(),
        }
    }

    /// The message in `node`, or the message in which nothing is set where it
    /// is unset.
    pub fn get_node(&self) -> (r: NodeId)
        ensures
            match self.node {
                Some(v) => r == v,
                None => r == NodeId::spec_empty(),
            },
    {
        match &self.node {
            Some(v) => v.clone(),
            None => NodeId::new(),
        }
    }
}

impl Default for Pid {
    /// A message in which nothing is set.
    fn default() -> (r: Pid)
        ensures
            r.is_default(),
    {
        Pid::new()
    }
}

impl Clone for Pid {
    fn clone(&self) -> (r: Pid)
        ensures
            r == *self,
    {
        let name = match &self.name {
            Some(v) => Some(v.clone()),
            None => None,
        };
        let group = match &self.group {
            Some(v) => Some(v.clone()),
            None => None,
        };
        let node = match &self.node {
            Some(v) => Some(v.clone()),
            None => None,
        };
        Pid { name, group, node }
    }
}

impl Pid {
    /// The number of bytes that the message takes on the wire: for each field
    /// that is set, its tag and its value.
    pub open spec fn wire_len(&self) -> int {
        (match self.name {
            Some(v) => delimited_len(1, text_len(v@)),
            None => 0,
        }) + (match self.group {
            Some(v) => delimited_len(2, text_len(v@)),
            None => 0,
        }) + (match self.node {
            Some(v) => delimited_len(3, v.wire_len()),
            None => 0,
        })
    }

    /// Whether the size of the message can be computed: no text or byte string
    /// in it is longer than `MAX_PAYLOAD`, and the whole fits 32 bits.
    pub open spec fn sizable(&self) -> bool {
        &&& self.name matches Some(v) ==> text_len(v@) <= MAX_PAYLOAD
        &&& self.group matches Some(v) ==> text_len(v@) <= MAX_PAYLOAD
        &&& self.node matches Some(v) ==> v.sizable()
        &&& self.wire_len() <= u32::MAX
    }

    /// Each field of a message takes no negative number of bytes.
    proof fn lemma_parts(&self)
        ensures
            (match self.name {
                Some(v) => delimited_len(1, text_len(v@)),
                None => 0,
            }) >= 0,
            (match self.group {
                Some(v) => delimited_len(2, text_len(v@)),
                None => 0,
            }) >= 0,
            (match self.node {
                Some(v) => delimited_len(3, v.wire_len()),
                None => 0,
            }) >= 0,
    {
        if let Some(v) = self.node {
            v.lemma_wire_len();
        }
    }

    /// A message takes no negative number of bytes.
    pub proof fn lemma_wire_len(&self)
        ensures
            self.wire_len() >= 0,
    {
        self.lemma_parts();
    }

    /// The size of the message on the wire, or `None` where it cannot be
    /// computed.
    pub fn checked_size(&self) -> (r: Option<u32>)
        ensures
            r == if self.sizable() {
                Some(self.wire_len() as u32)
            } else {
                None
            },
    {
        proof {
            self.lemma_parts();
        }
        let mut my_size: u32 = 0;
        if let Some(v) = &self.name {
            let field = match text_field_size(1, v.as_str()) {
                Some(size) => size,
                None => return None,
            };
            my_size = match add_size(my_size, field) {
                Some(size) => size,
                None => return None,
            };
        }
        if let Some(v) = &self.group {
            let field = match text_field_size(2, v.as_str()) {
                Some(size) => size,
                None => return None,
            };
            my_size = match add_size(my_size, field) {
                Some(size) => size,
                None => return None,
            };
        }
        if let Some(v) = &self.node {
            proof {
                v.lemma_wire_len();
            }
            let len = match v.checked_size() {
                Some(len) => len,
                None => return None,
            };
            let field = match nested_size(3, len) {
                Some(size) => size,
                None => return None,
            };
            my_size = match add_size(my_size, field) {
                Some(size) => size,
                None => return None,
            };
        }
        Some(my_size)
    }

    /// The size of the message on the wire.
    pub fn compute_size(&self) -> (r: u32)
        requires
            self.sizable(),
        ensures
            r == self.wire_len(),
    {
        proof {
            self.lemma_wire_len();
        }
        match self.checked_size() {
            Some(size) => size,
            None => vstd::pervasive::unreached(),
        }
    }
}

impl Pid {
    /// The kind of value that the field with the number `field_number` holds,
    /// or `None` where the message has no such field.
    pub open spec fn spec_field_kind(field_number: u32) -> Option<FieldKind> {
        if field_number == 1 {
            Some(FieldKind::Text)
        } else if field_number == 2 {
            Some(FieldKind::Text)
        } else if field_number == 3 {
            Some(FieldKind::NodeId)
        } else {
            None
        }
    }

    /// The kind of value that the field with the number `field_number` holds,
    /// or `None` where the message has no such field.
    pub fn field_kind(field_number: u32) -> (r: Option<FieldKind>)
        ensures
            r == Self::spec_field_kind(field_number),
    {
        match field_number {
            1 => Some(FieldKind::Text),
            2 => Some(FieldKind::Text),
            3 => Some(FieldKind::NodeId),
            _ => None,
        }
    }

    /// The kind of value to read for the field `field_number` when it comes
    /// in the layout `wire`: the field's kind if that is its layout, else
    /// `None`.
    pub fn accepts(field_number: u32, wire: WireKind) -> (r: Option<FieldKind>)
        ensures
            r == match Self::spec_field_kind(field_number) {
                Some(k) => if k.spec_wire_kind() == wire {
                    Some(k)
                } else {
                    None
                },
                None => None,
            },
    {
        match Self::field_kind(field_number) {
            Some(k) => if k.wire_kind() == wire {
                Some(k)
            } else {
                None
            },
            None => None,
        }
    }

    /// The message after a value was taken in for the field `field_number`:
    /// the field holds the value, if the value is of the field's kind; else
    /// nothing changes.
    pub open spec fn with_field(self, field_number: u32, value: FieldValue) -> Pid {
        if field_number == 1 {
            match value {
                FieldValue::Text(v) => Pid { name: Some(v), ..self },
                _ => self,
            }
        } else if field_number == 2 {
            match value {
                FieldValue::Text(v) => Pid { group: Some(v), ..self },
                _ => self,
            }
        } else if field_number == 3 {
            match value {
                FieldValue::NodeId(v) => Pid { node: Some(v), ..self },
                _ => self,
            }
        } else {
            self
        }
    }

    /// The fields that are set, in the order in which they are written.
    pub open spec fn spec_fields(&self) -> Seq<(u32, FieldValue)> {
        (match self.name {
            Some(v) => seq![(1u32, FieldValue::Text(v))],
            None => Seq::<(u32, FieldValue)>::empty(),
        }) + (match self.group {
            Some(v) => seq![(2u32, FieldValue::Text(v))],
            None => Seq::<(u32, FieldValue)>::empty(),
        }) + (match self.node {
            Some(v) => seq![(3u32, FieldValue::NodeId(v))],
            None => Seq::<(u32, FieldValue)>::empty(),
        })
    }

    /// Takes in a value that was read for the field `field_number`, and says
    /// whether the value is of the field's kind. Any other value is refused
    /// and changes nothing.
    pub fn merge_field(&mut self, field_number: u32, value: FieldValue) -> (accepted: bool)
        ensures
            accepted == (Self::spec_field_kind(field_number) == Some(value.kind())),
            *final(self) == old(self).with_field(field_number, value),
    {
        match field_number {
            1 => match value {
                FieldValue::Text(v) => {
                    self.set_name(v);
                    true
                },
                _ => false,
            },
            2 => match value {
                FieldValue::Text(v) => {
                    self.set_group(v);
                    true
                },
                _ => false,
            },
            3 => match value {
                FieldValue::NodeId(v) => {
                    self.set_node(v);
                    true
                },
                _ => false,
            },
            _ => false,
        }
    }

    /// The fields that are set, in the order in which they are written.
    pub fn set_fields(&self) -> (r: Vec<(u32, FieldRef<'_>)>)
        ensures
            lists_fields(r@, self.spec_fields()),
    {
        let mut r: Vec<(u32, FieldRef<'_>)> = Vec::new();
        if let Some(v) = &self.name {
            r.push((1, FieldRef::Text(v.as_str())));
        }
        proof {
            assert(lists_fields(
                r@,
                (match self.name {
                    Some(v) => seq![(1u32, FieldValue::Text(v))],
                    None => Seq::<(u32, FieldValue)>::empty(),
                }),
            ));
        }
        if let Some(v) = &self.group {
            r.push((2, FieldRef::Text(v.as_str())));
        }
        proof {
            assert(lists_fields(
                r@,
                (match self.name {
                    Some(v) => seq![(1u32, FieldValue::Text(v))],
                    None => Seq::<(u32, FieldValue)>::empty(),
                }) + (match self.group {
                    Some(v) => seq![(2u32, FieldValue::Text(v))],
                    None => Seq::<(u32, FieldValue)>::empty(),
                }),
            ));
        }
        if let Some(v) = &self.node {
            r.push((3, FieldRef::NodeId(v)));
        }
        proof {
            assert(lists_fields(
                r@,
                (match self.name {
                    Some(v) => seq![(1u32, FieldValue::Text(v))],
                    None => Seq::<(u32, FieldValue)>::empty(),
                }) + (match self.group {
                    Some(v) => seq![(2u32, FieldValue::Text(v))],
                    None => Seq::<(u32, FieldValue)>::empty(),
                }) + (match self.node {
                    Some(v) => seq![(3u32, FieldValue::NodeId(v))],
                    None => Seq::<(u32, FieldValue)>::empty(),
                }),
            ));
        }
        r
    }
}


impl Pid {
    /// The message in which nothing is set.
    pub open spec fn spec_empty() -> Pid {
        Pid { name: None, group: None, node: None }
    }

    /// The message after each of the fields was taken in, first to last.
    pub open spec fn merge_fields(self, fields: Seq<(u32, FieldValue)>) -> Pid
        decreases fields.len(),
    {
        if fields.len() == 0 {
            self
        } else {
            self.merge_fields(fields.drop_last()).with_field(fields.last().0, fields.last().1)
        }
    }

    /// Taking in two lists of fields one after the other comes to taking in
    /// the two as one list.
    pub proof fn lemma_merge_concat(
        self,
        first: Seq<(u32, FieldValue)>,
        second: Seq<(u32, FieldValue)>,
    )
        ensures
            self.merge_fields(first + second) == self.merge_fields(first).merge_fields(second),
        decreases second.len(),
    {
        if second.len() == 0 {
            assert(first + second =~= first);
        } else {
            self.lemma_merge_concat(first, second.drop_last());
            assert((first + second).drop_last() =~= first + second.drop_last());
        }
    }

    /// What a message writes it reads back: every field that it lists is of
    /// the kind that its number calls for, and an empty message that takes in
    /// the fields in their order is the message again.
    pub proof fn lemma_written_fields_read_back(self)
        ensures
            forall|i: int|
                0 <= i < self.spec_fields().len() ==> Self::spec_field_kind(
                    (#[trigger] self.spec_fields()[i]).0,
                ) == Some(self.spec_fields()[i].1.kind()),
            Self::spec_empty().merge_fields(self.spec_fields()) == self,
    {
        reveal_with_fuel(Pid::merge_fields, 3);
        let e = Self::spec_empty();
        let t0 = (match self.name {
            Some(v) => seq![(1u32, FieldValue::Text(v))],
            None => Seq::<(u32, FieldValue)>::empty(),
        });
        let all0 = t0;
        assert(t0.len() <= 1);
        if t0.len() == 1 {
            assert(t0.drop_last() =~= Seq::<(u32, FieldValue)>::empty());
        }
        let s0 = e.merge_fields(all0);
        assert(s0 == (Pid { name: self.name, group: None, node: None }));
        let t1 = (match self.group {
            Some(v) => seq![(2u32, FieldValue::Text(v))],
            None => Seq::<(u32, FieldValue)>::empty(),
        });
        let all1 = all0 + t1;
        Self::lemma_merge_concat(e, all0, t1);
        assert(t1.len() <= 1);
        if t1.len() == 1 {
            assert(t1.drop_last() =~= Seq::<(u32, FieldValue)>::empty());
        }
        let s1 = e.merge_fields(all1);
        assert(s1 == s0.merge_fields(t1));
        assert(s1 == (Pid { name: self.name, group: self.group, node: None }));
        let t2 = (match self.node {
            Some(v) => seq![(3u32, FieldValue::NodeId(v))],
            None => Seq::<(u32, FieldValue)>::empty(),
        });
        let all2 = all1 + t2;
        Self::lemma_merge_concat(e, all1, t2);
        assert(t2.len() <= 1);
        if t2.len() == 1 {
            assert(t2.drop_last() =~= Seq::<(u32, FieldValue)>::empty());
        }
        let s2 = e.merge_fields(all2);
        assert(s2 == s1.merge_fields(t2));
        assert(s2 == (Pid { name: self.name, group: self.group, node: self.node }));
        assert(all2 =~= self.spec_fields());
    }
}

/// A list of pids.
#[derive(Debug, PartialEq)]
pub struct Pids {
    pub pids: Vec<Pid>,
}

impl Pids {
    /// Whether nothing is set in the message.
    pub open spec fn is_default(&self) -> bool {
        &&& self.pids@ == Seq::<Pid>::empty()
    }

    /// A message in which nothing is set.
    pub fn new() -> (r: Pids)
        ensures
            r.is_default(),
    {
        Pids { pids: Vec::new() }
    }

    /// Empties `pids`.
    pub fn clear_pids(&mut self)
        ensures
            final(self).pids@ == Seq::<Pid>::empty(),
    {
        self.pids.clear();
    }

    /// Replaces `pids` by `v`.
    pub fn set_pids(&mut self, v: Vec<Pid>)
        ensures
            *final(self) == (Pids { pids: v }),
    {
        self.pids = v;
    }

    /// A mutable reference to `pids`.
    pub fn mut_pids(&mut self) -> (r: &mut Vec<Pid>)
        ensures
            *r == old(self).pids,
            *final(self) == (Pids { pids: *final(r) }),
    {
        &mut self.pids
    }

    /// Takes the list out of `pids` and leaves it empty.
    pub fn take_pids(&mut self) -> (r: Vec<Pid>)
        ensures
            r == old(self).pids,
            final(self).pids@ == Seq::<Pid>::empty(),
    {
        let mut r: Vec<Pid> = Vec::new();
        std::mem::swap(&mut self.pids, &mut r);
        r
    }

    /// What `pids` lists.
    pub fn get_pids(&self) -> (r: &[Pid])
        ensures
            r@ == self.pids@,
    {
        self.pids.as_slice()
    }
}

impl Default for Pids {
    /// A message in which nothing is set.
    fn default() -> (r: Pids)
        ensures
            r.is_default(),
    {
        Pids::new()
    }
}

impl Pids {
    /// Whether the two messages hold the same, field by field, byte strings and
    /// lists taken by what they hold.
    pub open spec fn same(&self, other: Pids) -> bool {
        &&& self.pids@.len() == other.pids@.len()
        &&& forall|i: int| 0 <= i < self.pids@.len() ==> #[trigger] self.pids@[i] == other.pids@[i]
    }
}

impl Clone for Pids {
    fn clone(&self) -> (r: Pids)
        ensures
            self.same(r),
    {
        let mut pids: Vec<Pid> = Vec::new();
        let mut i: usize = 0;
        while i < self.pids.len()
            invariant
                i <= self.pids@.len(),
                pids@.len() == i,
                forall|k: int| 0 <= k < i ==> #[trigger] self.pids@[k] == pids@[k],
            decreases self.pids.len() - i,
        {
            pids.push(self.pids[i].clone());
            i = i + 1;
        }
        Pids { pids }
    }
}

/// The number of bytes that the listed messages take on the wire as the field
/// `pids` of a `Pids`.
pub open spec fn pids_wire_len(list: Seq<Pid>) -> int
    decreases list.len(),
{
    if list.len() == 0 {
        0
    } else {
        pids_wire_len(list.drop_last()) + delimited_len(1, list.last().wire_len())
    }
}

/// The first messages of a list take no more bytes than the whole list.
pub proof fn lemma_pids_wire_len(list: Seq<Pid>, i: int)
    requires
        0 <= i <= list.len(),
    ensures
        0 <= pids_wire_len(list.take(i)) <= pids_wire_len(list),
    decreases list.len(),
{
    if i == list.len() {
        assert(list.take(i) =~= list);
        if list.len() > 0 {
            lemma_pids_wire_len(list.drop_last(), i - 1);
            list.last().lemma_wire_len();
        }
    } else {
        assert(list.take(i) =~= list.drop_last().take(i));
        lemma_pids_wire_len(list.drop_last(), i);
        list.last().lemma_wire_len();
    }
}

impl Pids {
    /// The number of bytes that the message takes on the wire.
    pub open spec fn wire_len(&self) -> int {
        pids_wire_len(self.pids@)
    }

    /// Whether the size of the message can be computed: each listed message
    /// can be sized, and the whole fits 32 bits.
    pub open spec fn sizable(&self) -> bool {
        &&& forall|i: int| 0 <= i < self.pids@.len() ==> (#[trigger] self.pids@[i]).sizable()
        &&& self.wire_len() <= u32::MAX
    }

    /// A message takes no negative number of bytes.
    pub proof fn lemma_wire_len(&self)
        ensures
            self.wire_len() >= 0,
    {
        lemma_pids_wire_len(self.pids@, 0);
    }

    /// The size of the message on the wire, or `None` where it cannot be
    /// computed.
    pub fn checked_size(&self) -> (r: Option<u32>)
        ensures
            r == if self.sizable() {
                Some(self.wire_len() as u32)
            } else {
                None
            },
    {
        let mut my_size: u32 = 0;
        let mut i: usize = 0;
        proof {
            assert(self.pids@.take(0) =~= Seq::<Pid>::empty());
        }
        while i < self.pids.len()
            invariant
                i <= self.pids@.len(),
                my_size == pids_wire_len(self.pids@.take(i as int)),
                forall|k: int| 0 <= k < i ==> (#[trigger] self.pids@[k]).sizable(),
            decreases self.pids.len() - i,
        {
            proof {
                lemma_pids_wire_len(self.pids@, i + 1);
                assert(self.pids@.take(i + 1).drop_last() =~= self.pids@.take(i as int));
                assert(self.pids@.take(i + 1).last() == self.pids@[i as int]);
                self.pids@[i as int].lemma_wire_len();
            }
            let len = match self.pids[i].checked_size() {
                Some(len) => len,
                None => return None,
            };
            let field = match nested_size(1, len) {
                Some(size) => size,
                None => return None,
            };
            my_size = match add_size(my_size, field) {
                Some(size) => size,
                None => return None,
            };
            i = i + 1;
        }
        proof {
            assert(self.pids@.take(self.pids@.len() as int) =~= self.pids@);
        }
        Some(my_size)
    }

    /// The size of the message on the wire.
    pub fn compute_size(&self) -> (r: u32)
        requires
            self.sizable(),
        ensures
            r == self.wire_len(),
    {
        proof {
            self.lemma_wire_len();
        }
        match self.checked_size() {
            Some(size) => size,
            None => vstd::pervasive::unreached(),
        }
    }
}

impl Pids {
    /// The kind of value that the field with the number `field_number` holds,
    /// or `None` where the message has no such field.
    pub open spec fn spec_field_kind(field_number: u32) -> Option<FieldKind> {
        if field_number == 1 {
            Some(FieldKind::Pid)
        } else {
            None
        }
    }

    /// The kind of value that the field with the number `field_number` holds,
    /// or `None` where the message has no such field.
    pub fn field_kind(field_number: u32) -> (r: Option<FieldKind>)
        ensures
            r == Self::spec_field_kind(field_number),
    {
        match field_number {
            1 => Some(FieldKind::Pid),
            _ => None,
        }
    }

    /// The kind of value to read for the field `field_number` when it comes
    /// in the layout `wire`: the field's kind if that is its layout, else
    /// `None`.
    pub fn accepts(field_number: u32, wire: WireKind) -> (r: Option<FieldKind>)
        ensures
            r == match Self::spec_field_kind(field_number) {
                Some(k) => if k.spec_wire_kind() == wire {
                    Some(k)
                } else {
                    None
                },
                None => None,
            },
    {
        match Self::field_kind(field_number) {
            Some(k) => if k.wire_kind() == wire {
                Some(k)
            } else {
                None
            },
            None => None,
        }
    }

    /// The fields that are set, in the order in which they are written: each
    /// listed message as the field `pids`.
    pub open spec fn spec_fields(&self) -> Seq<(u32, FieldValue)> {
        Seq::new(self.pids@.len(), |i: int| (1u32, FieldValue::Pid(self.pids@[i])))
    }

    /// Takes in a value that was read for the field `field_number`: a `Pid`
    /// for the field `pids` is appended to the list. Any other value is
    /// refused and changes nothing.
    pub fn merge_field(&mut self, field_number: u32, value: FieldValue) -> (accepted: bool)
        ensures
            accepted == (Self::spec_field_kind(field_number) == Some(value.kind())),
            !accepted ==> *final(self) == *old(self),
            accepted ==> (value matches FieldValue::Pid(v) && final(self).pids@ == old(
                self,
            ).pids@.push(v)),
    {
        if field_number != 1 {
            return false;
        }
        match value {
            FieldValue::Pid(v) => {
                self.pids.push(v);
                true
            },
            _ => false,
        }
    }

    /// The fields that are set, in the order in which they are written.
    pub fn set_fields(&self) -> (r: Vec<(u32, FieldRef<'_>)>)
        ensures
            lists_fields(r@, self.spec_fields()),
    {
        let mut r: Vec<(u32, FieldRef<'_>)> = Vec::new();
        let mut i: usize = 0;
        while i < self.pids.len()
            invariant
                i <= self.pids@.len(),
                r@.len() == i,
                forall|k: int|
                    0 <= k < i ==> (#[trigger] r@[k]).0 == 1 && shows(
                        r@[k].1,
                        FieldValue::Pid(self.pids@[k]),
                    ),
            decreases self.pids.len() - i,
        {
            r.push((1, FieldRef::Pid(&self.pids[i])));
            i = i + 1;
        }
        r
    }
}

} // verus!
