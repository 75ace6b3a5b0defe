//! The errors of a cluster server, each attributed to what it concerns.

use crate::node_id::NodeId;
use crate::pid::Pid;
use vstd::prelude::*;

verus! {

broadcast use vstd::std_specs::vec::group_vec_axioms;

/// What went wrong, and on which connection or for which peer.
#[derive(Debug)]
pub enum ErrorKind {
    /// A message could not be encoded for the connection.
    EncodeError(Option<usize>, Option<NodeId>),
    /// Bytes read from the connection could not be decoded.
    DecodeError(usize, Option<NodeId>),
    /// The reactor refused a registration.
    RegistrarError(Option<usize>, Option<NodeId>),
    /// The named consumer of a channel is gone.
    SendError(String, Option<Pid>),
    /// An outgoing connection to the node could not be opened.
    ConnectError(NodeId),
    /// Reading from the connection failed.
    ReadError(usize, Option<NodeId>),
    /// Writing to the connection failed.
    WriteError(usize, Option<NodeId>),
    /// The errors met while one batch of readiness notifications was handled.
    PollNotificationErrors(Vec<ErrorKind>),
    /// The errors met while one message was written to every connection.
    BroadcastError(Vec<ErrorKind>),
    /// The server was told to stop.
    Shutdown(Pid),
    /// Any other failure, in words.
    Msg(String),
}

impl ErrorKind {
    /// Whether the error is attributed, itself or through one of the errors it
    /// gathers, to the connection `id`.
    pub open spec fn names(self, id: usize) -> bool
        decreases self,
    {
        match self {
            ErrorKind::EncodeError(c, _) => c == Some(id),
            ErrorKind::RegistrarError(c, _) => c == Some(id),
            ErrorKind::DecodeError(c, _) => c == id,
            ErrorKind::ReadError(c, _) => c == id,
            ErrorKind::WriteError(c, _) => c == id,
            ErrorKind::PollNotificationErrors(es) => exists|i: int|
                0 <= i < es@.len() && (#[trigger] es@[i]).names(id),
            ErrorKind::BroadcastError(es) => exists|i: int|
                0 <= i < es@.len() && (#[trigger] es@[i]).names(id),
            _ => false,
        }
    }

    /// Whether the server cannot go on after the error: the executor is gone or
    /// the server was told to stop, be it in one of the errors gathered.
    pub open spec fn fatal(self) -> bool
        decreases self,
    {
        match self {
            ErrorKind::SendError(_, _) => true,
            ErrorKind::Shutdown(_) => true,
            ErrorKind::PollNotificationErrors(es) => exists|i: int|
                0 <= i < es@.len() && (#[trigger] es@[i]).fatal(),
            ErrorKind::BroadcastError(es) => exists|i: int|
                0 <= i < es@.len() && (#[trigger] es@[i]).fatal(),
            _ => false,
        }
    }

    /// The connections that have to be closed because of the error.
    pub fn get_ids(&self) -> (ids: Vec<usize>)
        ensures
            forall|id: usize| ids@.contains(id) <==> self.names(id),
        decreases self,
    {
        match self {
            ErrorKind::EncodeError(c, _) | ErrorKind::RegistrarError(c, _) => {
                let mut ids: Vec<usize> = Vec::new();
                if let Some(id) = c {
                    ids.push(*id);
                    assert(ids@[0] == *id);
                }
                ids
            },
            ErrorKind::DecodeError(c, _) | ErrorKind::ReadError(c, _) | ErrorKind::WriteError(
                c,
                _,
            ) => {
                let mut ids: Vec<usize> = Vec::new();
                ids.push(*c);
                assert(ids@[0] == *c);
                ids
            },
            ErrorKind::PollNotificationErrors(es) | ErrorKind::BroadcastError(es) => {
                let mut ids: Vec<usize> = Vec::new();
                let mut i: usize = 0;
                while i < es.len()
                    invariant
                        i <= es.len(),
                        forall|k: int| 0 <= k < es@.len() ==> decreases_to!(self => #[trigger] es@[k]),
                        forall|id: usize|
                            ids@.contains(id) <==> exists|k: int|
                                0 <= k < i && (#[trigger] es@[k]).names(id),
                    decreases es.len() - i,
                {
                    let mut more = es[i].get_ids();
                    let ghost before = ids@;
                    let ghost added = more@;
                    ids.append(&mut more);
                    proof {
                        assert forall|id: usize|
                            ids@.contains(id) <==> exists|k: int|
                                0 <= k < i + 1 && (#[trigger] es@[k]).names(id) by {
                            if ids@.contains(id) {
                                let j = choose|j: int| 0 <= j < ids@.len() && ids@[j] == id;
                                if j < before.len() {
                                    assert(before[j] == id);
                                    assert(before.contains(id));
                                } else {
                                    assert(added[j - before.len()] == id);
                                    assert(added.contains(id));
                                    assert(es@[i as int].names(id));
                                }
                            }
                            if exists|k: int| 0 <= k < i + 1 && (#[trigger] es@[k]).names(id) {
                                let k = choose|k: int|
                                    0 <= k < i + 1 && (#[trigger] es@[k]).names(id);
                                if k < i {
                                    assert(before.contains(id));
                                    let j = choose|j: int| 0 <= j < before.len() && before[j] == id;
                                    assert(ids@[j] == id);
                                } else {
                                    assert(added.contains(id));
                                    let j = choose|j: int| 0 <= j < added.len() && added[j] == id;
                                    assert(ids@[before.len() + j] == id);
                                }
                            }
                        }
                    }
                    i = i + 1;
                }
                ids
            },
            _ => Vec::new(),
        }
    }

    /// Whether the server has to stop after the error.
    pub fn is_fatal(&self) -> (r: bool)
        ensures
            r == self.fatal(),
        decreases self,
    {
        match self {
            ErrorKind::SendError(_, _) => true,
            ErrorKind::Shutdown(_) => true,
            ErrorKind::PollNotificationErrors(es) | ErrorKind::BroadcastError(es) => {
                let mut i: usize = 0;
                while i < es.len()
                    invariant
                        i <= es.len(),
                        forall|k: int| 0 <= k < es@.len() ==> decreases_to!(self => #[trigger] es@[k]),
                        self.fatal() == (exists|k: int|
                            0 <= k < es@.len() && (#[trigger] es@[k]).fatal()),
                        forall|k: int| 0 <= k < i ==> !(#[trigger] es@[k]).fatal(),
                    decreases es.len() - i,
                {
                    if es[i].is_fatal() {
                        assert(es@[i as int].fatal());
                        return true;
                    }
                    i = i + 1;
                }
                false
            },
            _ => false,
        }
    }
}

} // verus!
