//! Identifiers of actors and services.

use crate::node_id::pb_node_view;
use crate::node_id::pb_of_node;
use crate::node_id::text_or_empty;
use crate::node_id::NodeId;
use crate::pb_messages;
use vstd::prelude::*;
use vstd::std_specs::cmp::PartialEqSpecImpl;
use vstd::std_specs::convert::FromSpecImpl;

verus! {

/// The view of an optional string.
pub open spec fn opt_str_view(s: Option<String>) -> Option<Seq<char>> {
    match s {
        Some(t) => Some(t@),
        None => None,
    }
}

/// Whether two optional strings hold the same text, or both nothing.
pub fn opt_str_eq(a: &Option<String>, b: &Option<String>) -> (r: bool)
    ensures
        r == (opt_str_view(*a) == opt_str_view(*b)),
{
    match (a, b) {
        (Some(x), Some(y)) => *x == *y,
        (None, None) => true,
        _ => false,
    }
}

/// A copy of an optional string.
pub fn opt_str_clone(a: &Option<String>) -> (r: Option<String>)
    ensures
        r == *a,
{
    match a {
        Some(x) => Some(x.clone()),
        None => None,
    }
}

/// The address of an actor or a service: its name, its group if it has one, and
/// the node that runs it.
#[derive(Debug, Hash, Eq)]
pub struct Pid {
    pub name: String,
    pub group: Option<String>,
    pub node: NodeId,
}

impl View for Pid {
    type V = (Seq<char>, Option<Seq<char>>, (Seq<char>, Seq<char>));

    open spec fn view(&self) -> Self::V {
        (self.name@, opt_str_view(self.group), self.node@)
    }
}

impl Clone for Pid {
    fn clone(&self) -> (r: Pid)
        ensures
            r == *self,
    {
        Pid { name: self.name.clone(), group: opt_str_clone(&self.group), node: self.node.clone() }
    }
}

impl PartialEq for Pid {
    fn eq(&self, other: &Pid) -> (r: bool) {
        self.name == other.name && opt_str_eq(&self.group, &other.group) && self.node == other.node
    }
}

impl PartialEqSpecImpl for Pid {
    open spec fn obeys_eq_spec() -> bool {
        true
    }

    open spec fn eq_spec(&self, other: &Pid) -> bool {
        self@ == other@
    }
}

/// The pid that a wire form stands for: an unset name reads as the empty text,
/// an unset group as no group, an unset node as the node without name and
/// address.
pub open spec fn pb_pid_view(pb: pb_messages::Pid) -> (
    Seq<char>,
    Option<Seq<char>>,
    (Seq<char>, Seq<char>),
) {
    (
        text_or_empty(pb.name),
        opt_str_view(pb.group),
        match pb.node {
            Some(n) => pb_node_view(n),
            None => (Seq::<char>::empty(), Seq::<char>::empty()),
        },
    )
}

/// The wire form of a pid: name and node are set, the group where there is
/// one.
pub open spec fn pb_of_pid(pid: Pid) -> pb_messages::Pid {
    pb_messages::Pid { name: Some(pid.name), group: pid.group, node: Some(pb_of_node(pid.node)) }
}

impl From<pb_messages::Pid> for Pid {
    /// The pid that the wire form stands for.
    fn from(pb_pid: pb_messages::Pid) -> (r: Pid)
        ensures
            r@ == pb_pid_view(pb_pid),
    {
        let mut pb_pid = pb_pid;
        let group = if pb_pid.has_group() {
            Some(pb_pid.take_group())
        } else {
            None
        };
        let name = pb_pid.take_name();
        let node = NodeId::from(pb_pid.take_node());
        Pid { name, group, node }
    }
}

/// The conversion answers for its result in the `ensures` of `from`, by the
/// views of the strings: no spec function can name the strings it makes.
impl FromSpecImpl<pb_messages::Pid> for Pid {
    open spec fn obeys_from_spec() -> bool {
        false
    }

    open spec fn from_spec(v: pb_messages::Pid) -> Pid {
        arbitrary()
    }
}

impl From<Pid> for pb_messages::Pid {
    /// The wire form of a pid.
    fn from(pid: Pid) -> (r: pb_messages::Pid) {
        let mut r = pb_messages::Pid::new();
        r.set_name(pid.name);
        if let Some(group) = pid.group {
            r.set_group(group);
        }
        r.set_node(pb_messages::NodeId::from(pid.node));
        r
    }
}

impl FromSpecImpl<Pid> for pb_messages::Pid {
    open spec fn obeys_from_spec() -> bool {
        true
    }

    open spec fn from_spec(v: Pid) -> pb_messages::Pid {
        pb_of_pid(v)
    }
}

/// The pids that a list of wire forms stands for.
pub fn pids_from_pb(pb_pids: Vec<pb_messages::Pid>) -> (r: Vec<Pid>)
    ensures
        r@.len() == pb_pids@.len(),
        forall|i: int| 0 <= i < r@.len() ==> (#[trigger] r@[i])@ == pb_pid_view(pb_pids@[i]),
{
    let mut r: Vec<Pid> = Vec::new();
    for pb_pid in it: pb_pids
        invariant
            it.seq() == pb_pids@,
            r@.len() == it.index(),
            forall|i: int| 0 <= i < r@.len() ==> (#[trigger] r@[i])@ == pb_pid_view(pb_pids@[i]),
    {
        r.push(Pid::from(pb_pid));
    }
    r
}

/// The wire forms of a list of pids.
pub fn pids_to_pb(pids: Vec<Pid>) -> (r: Vec<pb_messages::Pid>)
    ensures
        r@.len() == pids@.len(),
        forall|i: int| 0 <= i < r@.len() ==> #[trigger] r@[i] == pb_of_pid(pids@[i]),
{
    let mut r: Vec<pb_messages::Pid> = Vec::new();
    for pid in it: pids
        invariant
            it.seq() == pids@,
            r@.len() == it.index(),
            forall|i: int| 0 <= i < r@.len() ==> #[trigger] r@[i] == pb_of_pid(pids@[i]),
    {
        r.push(pb_messages::Pid::from(pid));
    }
    r
}

} // verus!
