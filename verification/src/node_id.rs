//! Node identifiers and their cluster-wide order.

use std::cmp::Ordering;
use vstd::prelude::*;
use vstd::std_specs::cmp::PartialEqSpecImpl;
use vstd::std_specs::cmp::PartialOrdSpecImpl;
use vstd::std_specs::convert::FromSpecImpl;
use vstd::string::StrSliceExecFns;
use vstd::string::StringExecFns;

verus! {

/// The name and address of one node of the cluster.
#[derive(Debug, Hash, Eq, Ord)]
pub struct NodeId {
    pub name: String,
    pub addr: String,
}

/// `a` comes before `b` when strings are ordered by their code points.
pub open spec fn str_lt(a: Seq<char>, b: Seq<char>) -> bool
    decreases a.len(),
{
    if b.len() == 0 {
        false
    } else if a.len() == 0 {
        true
    } else if a[0] != b[0] {
        (a[0] as int) < (b[0] as int)
    } else {
        str_lt(a.drop_first(), b.drop_first())
    }
}

impl View for NodeId {
    type V = (Seq<char>, Seq<char>);

    open spec fn view(&self) -> (Seq<char>, Seq<char>) {
        (self.name@, self.addr@)
    }
}

/// The text of a node identifier: the name, an `@`, the address.
pub open spec fn node_text(n: (Seq<char>, Seq<char>)) -> Seq<char> {
    n.0 + seq!['@'] + n.1
}

/// The order of node identifiers: by name, then by address.
pub open spec fn node_lt(a: (Seq<char>, Seq<char>), b: (Seq<char>, Seq<char>)) -> bool {
    str_lt(a.0, b.0) || (a.0 == b.0 && str_lt(a.1, b.1))
}

/// The order of strings is asymmetric.
pub proof fn lemma_str_lt_asymmetric(a: Seq<char>, b: Seq<char>)
    requires
        str_lt(a, b),
    ensures
        !str_lt(b, a),
    decreases a.len(),
{
    if a.len() > 0 && b.len() > 0 && a[0] == b[0] {
        lemma_str_lt_asymmetric(a.drop_first(), b.drop_first());
    }
}

/// Of two different strings one comes before the other.
pub proof fn lemma_str_lt_total(a: Seq<char>, b: Seq<char>)
    requires
        a != b,
    ensures
        str_lt(a, b) || str_lt(b, a),
    decreases a.len(),
{
    if a.len() > 0 && b.len() > 0 && a[0] == b[0] {
        assert(a.drop_first() != b.drop_first()) by {
            if a.drop_first() == b.drop_first() {
                assert(a =~= seq![a[0]] + a.drop_first());
                assert(b =~= seq![b[0]] + b.drop_first());
            }
        }
        lemma_str_lt_total(a.drop_first(), b.drop_first());
    } else if a.len() == 0 && b.len() == 0 {
        assert(a =~= b);
    } else if a.len() > 0 && b.len() > 0 {
        assert(a[0] as int != b[0] as int);
    }
}

/// The order of node identifiers is total on different nodes and asymmetric.
pub proof fn lemma_node_order(a: (Seq<char>, Seq<char>), b: (Seq<char>, Seq<char>))
    ensures
        a != b ==> node_lt(a, b) || node_lt(b, a),
        node_lt(a, b) ==> !node_lt(b, a) && a != b,
{
    if a.0 != b.0 {
        lemma_str_lt_total(a.0, b.0);
    } else if a.1 != b.1 {
        lemma_str_lt_total(a.1, b.1);
    }
    if str_lt(a.0, b.0) {
        lemma_str_lt_asymmetric(a.0, b.0);
    }
    if str_lt(b.0, a.0) {
        lemma_str_lt_asymmetric(b.0, a.0);
    }
    if str_lt(a.1, b.1) {
        lemma_str_lt_asymmetric(a.1, b.1);
    }
    if str_lt(b.1, a.1) {
        lemma_str_lt_asymmetric(b.1, a.1);
    }
}

/// Compares two strings with std's `<` on `str`, which orders strings by their
/// bytes and thereby by their code points.
#[verifier::external_body]
fn string_lt(a: &String, b: &String) -> (r: bool)
    ensures
        r == str_lt(a@, b@),
{
    a.as_str() < b.as_str()
}

impl Clone for NodeId {
    fn clone(&self) -> (r: NodeId)
        ensures
            r == *self,
    {
        NodeId { name: self.name.clone(), addr: self.addr.clone() }
    }
}

/// The text of an optional string of the wire form: empty where it is unset.
pub open spec fn text_or_empty(s: Option<String>) -> Seq<char> {
    match s {
        Some(v) => v@,
        None => Seq::<char>::empty(),
    }
}

/// The node identifier that a wire form stands for; what is unset there reads
/// as the empty text.
pub open spec fn pb_node_view(pb: crate::pb_messages::NodeId) -> (Seq<char>, Seq<char>) {
    (text_or_empty(pb.name), text_or_empty(pb.addr))
}

/// The wire form of a node identifier: both fields are set.
pub open spec fn pb_of_node(node: NodeId) -> crate::pb_messages::NodeId {
    crate::pb_messages::NodeId { name: Some(node.name), addr: Some(node.addr) }
}

impl From<crate::pb_messages::NodeId> for NodeId {
    /// The node identifier that the wire form stands for.
    fn from(pb_node_id: crate::pb_messages::NodeId) -> (r: NodeId)
        ensures
            r@ == pb_node_view(pb_node_id),
    {
        let mut pb_node_id = pb_node_id;
        NodeId { name: pb_node_id.take_name(), addr: pb_node_id.take_addr() }
    }
}

/// The conversion answers for its result in the `ensures` of `from`, by the
/// views of the strings: no spec function can name the strings it makes.
impl FromSpecImpl<crate::pb_messages::NodeId> for NodeId {
    open spec fn obeys_from_spec() -> bool {
        false
    }

    open spec fn from_spec(v: crate::pb_messages::NodeId) -> NodeId {
        arbitrary()
    }
}

impl From<NodeId> for crate::pb_messages::NodeId {
    /// The wire form of a node identifier.
    fn from(node_id: NodeId) -> (r: crate::pb_messages::NodeId) {
        let mut r = crate::pb_messages::NodeId::new();
        r.set_name(node_id.name);
        r.set_addr(node_id.addr);
        r
    }
}

impl FromSpecImpl<NodeId> for crate::pb_messages::NodeId {
    open spec fn obeys_from_spec() -> bool {
        true
    }

    open spec fn from_spec(v: NodeId) -> crate::pb_messages::NodeId {
        pb_of_node(v)
    }
}

/// Whether `s` is the text of the node identifier `n`, whose name and address
/// hold no `@`.
pub open spec fn is_text_of(s: Seq<char>, n: (Seq<char>, Seq<char>)) -> bool {
    s == node_text(n) && !n.0.contains('@') && !n.1.contains('@')
}

/// The number of `@` in a text.
pub open spec fn count_at(s: Seq<char>) -> nat
    decreases s.len(),
{
    if s.len() == 0 {
        0
    } else {
        count_at(s.drop_last()) + if s.last() == '@' {
            1nat
        } else {
            0nat
        }
    }
}

/// A text without `@` counts none.
pub proof fn lemma_count_zero(s: Seq<char>)
    ensures
        count_at(s) == 0 <==> !s.contains('@'),
    decreases s.len(),
{
    if s.len() > 0 {
        lemma_count_zero(s.drop_last());
        if s.contains('@') {
            let i = choose|i: int| 0 <= i < s.len() && s[i] == '@';
            if i < s.len() - 1 {
                assert(s.drop_last()[i] == '@');
            }
        }
        if s.drop_last().contains('@') {
            let i = choose|i: int| 0 <= i < s.drop_last().len() && s.drop_last()[i] == '@';
            assert(s[i] == '@');
        }
        if s.last() == '@' {
            assert(s[s.len() - 1] == '@');
        }
    }
}

/// The count of a text made of two parts is the sum of the parts' counts.
pub proof fn lemma_count_concat(a: Seq<char>, b: Seq<char>)
    ensures
        count_at(a + b) == count_at(a) + count_at(b),
    decreases b.len(),
{
    if b.len() == 0 {
        assert(a + b =~= a);
    } else {
        lemma_count_concat(a, b.drop_last());
        assert((a + b).drop_last() =~= a + b.drop_last());
        assert((a + b).last() == b.last());
    }
}

/// A text is the text of a node identifier exactly if it holds one `@`.
pub proof fn lemma_text_has_one_at(s: Seq<char>, n: (Seq<char>, Seq<char>))
    requires
        is_text_of(s, n),
    ensures
        count_at(s) == 1,
{
    lemma_count_concat(n.0 + seq!['@'], n.1);
    lemma_count_concat(n.0, seq!['@']);
    lemma_count_zero(n.0);
    lemma_count_zero(n.1);
    assert(seq!['@'].drop_last() =~= Seq::<char>::empty());
    assert(count_at(seq!['@']) == 1) by {
        reveal_with_fuel(count_at, 2);
    }
}

impl PartialEq for NodeId {
    fn eq(&self, other: &NodeId) -> (r: bool) {
        self.name == other.name && self.addr == other.addr
    }
}

impl PartialEqSpecImpl for NodeId {
    open spec fn obeys_eq_spec() -> bool {
        true
    }

    open spec fn eq_spec(&self, other: &NodeId) -> bool {
        self@ == other@
    }
}

impl PartialOrd for NodeId {
    fn partial_cmp(&self, other: &NodeId) -> (r: Option<Ordering>) {
        if self.sorts_before(other) {
            Some(Ordering::Less)
        } else if self == other {
            Some(Ordering::Equal)
        } else {
            Some(Ordering::Greater)
        }
    }
}

impl PartialOrdSpecImpl for NodeId {
    open spec fn obeys_partial_cmp_spec() -> bool {
        true
    }

    open spec fn partial_cmp_spec(&self, other: &NodeId) -> Option<Ordering> {
        if node_lt(self@, other@) {
            Some(Ordering::Less)
        } else if self@ == other@ {
            Some(Ordering::Equal)
        } else {
            Some(Ordering::Greater)
        }
    }
}

impl NodeId {
    /// The text of the identifier: the name, an `@`, the address.
    pub open spec fn text(&self) -> Seq<char> {
        node_text(self@)
    }

    /// The identifier as text: the name, an `@`, the address.
    pub fn to_string(&self) -> (r: String)
        ensures
            r@ == self.text(),
    {
        let mut r = self.name.clone();
        r.append("@");
        r.append(self.addr.as_str());
        proof {
            reveal_strlit("@");
            assert("@"@ =~= seq!['@']);
        }
        r
    }

    /// Reads a node identifier from its text, which must be of the form
    /// `name@addr`: it holds exactly one `@`.
    pub fn from_str(s: &str) -> (r: Result<NodeId, String>)
        ensures
            r is Ok <==> count_at(s@) == 1,
            r matches Ok(n) ==> is_text_of(s@, n@),
            r matches Err(e) ==> e@ == "Invalid Pid format - Must be of form 'name@addr'"@,
    {
        let n = s.unicode_len();
        let mut count: usize = 0;
        let mut pos: usize = 0;
        let mut i: usize = 0;
        while i < n
            invariant
                i <= n,
                n == s@.len(),
                count <= i,
                count == count_at(s@.take(i as int)),
                count > 0 ==> pos < i && s@[pos as int] == '@',
                count == 1 ==> forall|k: int| 0 <= k < i && k != pos ==> s@[k] != '@',
            decreases n - i,
        {
            let c = s.get_char(i);
            proof {
                assert(s@.take(i + 1).drop_last() =~= s@.take(i as int));
                assert(s@.take(i + 1).last() == s@[i as int]);
                if count == 0 {
                    lemma_count_zero(s@.take(i as int));
                    assert forall|k: int| 0 <= k < i implies s@[k] != '@' by {
                        assert(s@.take(i as int)[k] == s@[k]);
                    }
                }
            }
            if c == '@' {
                if count == 0 {
                    pos = i;
                }
                count = count + 1;
            }
            i = i + 1;
        }
        proof {
            assert(s@.take(n as int) =~= s@);
        }
        if count != 1 {
            return Err(String::from_str("Invalid Pid format - Must be of form 'name@addr'"));
        }
        let name = String::from_str(s.substring_char(0, pos));
        let addr = String::from_str(s.substring_char(pos + 1, n));
        proof {
            assert(s@ =~= name@ + seq!['@'] + addr@);
            assert(!name@.contains('@')) by {
                if name@.contains('@') {
                    let k = choose|k: int| 0 <= k < name@.len() && name@[k] == '@';
                    assert(s@[k] == '@');
                }
            }
            assert(!addr@.contains('@')) by {
                if addr@.contains('@') {
                    let k = choose|k: int| 0 <= k < addr@.len() && addr@[k] == '@';
                    assert(s@[pos + 1 + k] == '@');
                }
            }
        }
        Ok(NodeId { name, addr })
    }

    /// Whether `self` sorts before `other`.
    pub fn sorts_before(&self, other: &NodeId) -> (r: bool)
        ensures
            r == node_lt(self@, other@),
    {
        if string_lt(&self.name, &other.name) {
            true
        } else if self.name == other.name {
            string_lt(&self.addr, &other.addr)
        } else {
            false
        }
    }
}

} // verus!
