//! Correlators that tie a reply to the request it answers.

use crate::pb_messages;
use crate::pid::pb_of_pid;
use crate::pid::pb_pid_view;
use crate::pid::Pid;
use vstd::prelude::*;
use vstd::std_specs::cmp::PartialEqSpecImpl;
use vstd::std_specs::convert::FromSpecImpl;

verus! {

/// Names the issuer of a request and, if the issuer counts them, the
/// connection handle and the request.
#[derive(Debug, Hash, Eq)]
pub struct CorrelationId {
    pub pid: Option<Pid>,
    pub handle: Option<u64>,
    pub request: Option<u64>,
}

impl Clone for CorrelationId {
    fn clone(&self) -> (r: CorrelationId)
        ensures
            r == *self,
    {
        let pid = match &self.pid {
            Some(p) => Some(p.clone()),
            None => None,
        };
        CorrelationId { pid, handle: self.handle, request: self.request }
    }
}

impl PartialEq for CorrelationId {
    fn eq(&self, other: &CorrelationId) -> (r: bool) {
        let same_pid = match (&self.pid, &other.pid) {
            (Some(a), Some(b)) => *a == *b,
            (None, None) => true,
            _ => false,
        };
        same_pid && self.handle == other.handle && self.request == other.request
    }
}

impl PartialEqSpecImpl for CorrelationId {
    open spec fn obeys_eq_spec() -> bool {
        true
    }

    open spec fn eq_spec(&self, other: &CorrelationId) -> bool {
        self.key() == other.key()
    }
}

impl CorrelationId {
    /// What two equal correlators share: the issuer's view and both counts.
    pub open spec fn key(&self) -> (
        Option<(Seq<char>, Option<Seq<char>>, (Seq<char>, Seq<char>))>,
        Option<u64>,
        Option<u64>,
    ) {
        (
            match self.pid {
                Some(p) => Some(p@),
                None => None,
            },
            self.handle,
            self.request,
        )
    }

    /// A correlator that names only the issuer.
    pub fn pid(pid: Pid) -> (r: CorrelationId)
        ensures
            r == (CorrelationId { pid: Some(pid), handle: None, request: None }),
    {
        CorrelationId { pid: Some(pid), handle: None, request: None }
    }

    /// A correlator for a connection handle of the issuer.
    pub fn handle(pid: Pid, handle: u64) -> (r: CorrelationId)
        ensures
            r == (CorrelationId { pid: Some(pid), handle: Some(handle), request: None }),
    {
        CorrelationId { pid: Some(pid), handle: Some(handle), request: None }
    }

    /// A correlator for one request on a connection handle of the issuer.
    pub fn request(pid: Pid, handle: u64, request: u64) -> (r: CorrelationId)
        ensures
            r == (CorrelationId { pid: Some(pid), handle: Some(handle), request: Some(request) }),
    {
        CorrelationId { pid: Some(pid), handle: Some(handle), request: Some(request) }
    }
}

/// What the correlator that a wire form stands for shares with its equals.
pub open spec fn pb_cid_key(pb: pb_messages::CorrelationId) -> (
    Option<(Seq<char>, Option<Seq<char>>, (Seq<char>, Seq<char>))>,
    Option<u64>,
    Option<u64>,
) {
    (
        match pb.pid {
            Some(p) => Some(pb_pid_view(p)),
            None => None,
        },
        pb.handle,
        pb.request,
    )
}

/// The wire form of a correlator: what it names is set, the rest is not.
pub open spec fn pb_of_cid(cid: CorrelationId) -> pb_messages::CorrelationId {
    pb_messages::CorrelationId {
        pid: match cid.pid {
            Some(p) => Some(pb_of_pid(p)),
            None => None,
        },
        handle: cid.handle,
        request: cid.request,
    }
}

impl From<pb_messages::CorrelationId> for CorrelationId {
    /// The correlator that the wire form stands for.
    fn from(pb_cid: pb_messages::CorrelationId) -> (r: CorrelationId)
        ensures
            r.key() == pb_cid_key(pb_cid),
    {
        let mut pb_cid = pb_cid;
        let handle = pb_cid.handle;
        let request = pb_cid.request;
        let pid = if pb_cid.has_pid() {
            Some(Pid::from(pb_cid.take_pid()))
        } else {
            None
        };
        CorrelationId { pid, handle, request }
    }
}

/// The conversion answers for its result in the `ensures` of `from`, by the
/// views of the strings: no spec function can name the strings it makes.
impl FromSpecImpl<pb_messages::CorrelationId> for CorrelationId {
    open spec fn obeys_from_spec() -> bool {
        false
    }

    open spec fn from_spec(v: pb_messages::CorrelationId) -> CorrelationId {
        arbitrary()
    }
}

impl From<CorrelationId> for pb_messages::CorrelationId {
    /// The wire form of a correlator.
    fn from(cid: CorrelationId) -> (r: pb_messages::CorrelationId) {
        let mut r = pb_messages::CorrelationId::new();
        if let Some(pid) = cid.pid {
            r.set_pid(pb_messages::Pid::from(pid));
        }
        if let Some(handle) = cid.handle {
            r.set_handle(handle);
        }
        if let Some(request) = cid.request {
            r.set_request(request);
        }
        r
    }
}

impl FromSpecImpl<CorrelationId> for pb_messages::CorrelationId {
    open spec fn obeys_from_spec() -> bool {
        true
    }

    open spec fn from_spec(v: CorrelationId) -> pb_messages::CorrelationId {
        pb_of_cid(v)
    }
}

} // verus!
