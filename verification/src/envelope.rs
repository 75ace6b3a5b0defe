//! The unit of communication between actors.

use crate::correlation_id::pb_cid_key;
use crate::correlation_id::pb_of_cid;
use crate::correlation_id::CorrelationId;
use crate::msg::msg_of_pb;
use crate::msg::pb_of_msg;
use crate::msg::Msg;
use crate::pb_messages;
use crate::pb_messages::PbMsg;
use crate::pid::pb_of_pid;
use crate::pid::pb_pid_view;
use crate::pid::Pid;
use crate::user_msg::UserMsg;
use vstd::prelude::*;
use vstd::std_specs::convert::FromSpecImpl;

verus! {

/// A message with its addressee and its sender. Envelopes are routable to
/// processes and services on all nodes.
#[derive(Debug, Clone, PartialEq, Eq)]
pub struct Envelope<T> {
    pub to: Pid,
    pub from: Pid,
    pub msg: Msg<T>,
    pub correlation_id: Option<CorrelationId>,
}

/// The pid that an optional wire form stands for; an unset one reads as the
/// pid in which nothing is set.
pub open spec fn pb_opt_pid_view(pb: Option<pb_messages::Pid>) -> (
    Seq<char>,
    Option<Seq<char>>,
    (Seq<char>, Seq<char>),
) {
    match pb {
        Some(p) => pb_pid_view(p),
        None => (Seq::<char>::empty(), None, (Seq::<char>::empty(), Seq::<char>::empty())),
    }
}

/// Whether `e` is the envelope that the wire form `pb` stands for: an unset
/// pid reads as the pid in which nothing is set, an unset body as the unknown
/// body, an unset correlator as none.
pub open spec fn envelope_of_pb<T: UserMsg>(pb: pb_messages::Envelope, e: Envelope<T>) -> bool {
    &&& e.to@ == pb_opt_pid_view(pb.to)
    &&& e.from@ == pb_opt_pid_view(pb.from)
    &&& match pb.msg {
        Some(m) => msg_of_pb(m, e.msg),
        None => e.msg is Unknown,
    }
    &&& match pb.cid {
        Some(c) => e.correlation_id matches Some(cid) && cid.key() == pb_cid_key(c),
        None => e.correlation_id is None,
    }
}

/// Whether `pb` is the wire form of the envelope `e`: both pids and the body
/// are set, the correlator where there is one.
pub open spec fn pb_of_envelope<T: UserMsg>(e: Envelope<T>, pb: pb_messages::Envelope) -> bool {
    &&& pb.to == Some(pb_of_pid(e.to))
    &&& pb.from == Some(pb_of_pid(e.from))
    &&& pb.msg matches Some(m) && pb_of_msg(e.msg, m)
    &&& pb.cid == match e.correlation_id {
        Some(c) => Some(pb_of_cid(c)),
        None => None,
    }
}

impl<T: UserMsg> From<pb_messages::Envelope> for Envelope<T> {
    /// The envelope that the wire form stands for.
    fn from(pb_envelope: pb_messages::Envelope) -> (r: Envelope<T>)
        ensures
            envelope_of_pb(pb_envelope, r),
    {
        let mut pb_envelope = pb_envelope;
        let correlation_id = if pb_envelope.has_cid() {
            Some(CorrelationId::from(pb_envelope.take_cid()))
        } else {
            None
        };
        Envelope {
            to: Pid::from(pb_envelope.take_to()),
            from: Pid::from(pb_envelope.take_from()),
            msg: Msg::from(pb_envelope.take_msg()),
            correlation_id,
        }
    }
}

/// The conversion answers for its result in the `ensures` of `from`, by the
/// views of the strings: no spec function can name the strings it makes.
impl<T: UserMsg> FromSpecImpl<pb_messages::Envelope> for Envelope<T> {
    open spec fn obeys_from_spec() -> bool {
        false
    }

    open spec fn from_spec(v: pb_messages::Envelope) -> Envelope<T> {
        arbitrary()
    }
}

impl<T: UserMsg> From<Envelope<T>> for pb_messages::Envelope {
    /// The wire form of an envelope.
    fn from(envelope: Envelope<T>) -> (r: pb_messages::Envelope)
        ensures
            pb_of_envelope(envelope, r),
    {
        let mut pb_envelope = pb_messages::Envelope::new();
        pb_envelope.set_to(pb_messages::Pid::from(envelope.to));
        pb_envelope.set_from(pb_messages::Pid::from(envelope.from));
        pb_envelope.set_msg(PbMsg::from(envelope.msg));
        if let Some(cid) = envelope.correlation_id {
            pb_envelope.set_cid(pb_messages::CorrelationId::from(cid));
        }
        pb_envelope
    }
}

/// The conversion answers for its result in the `ensures` of `from`: what a
/// user message encodes to is for its type to say.
impl<T: UserMsg> FromSpecImpl<Envelope<T>> for pb_messages::Envelope {
    open spec fn obeys_from_spec() -> bool {
        false
    }

    open spec fn from_spec(v: Envelope<T>) -> pb_messages::Envelope {
        arbitrary()
    }
}

} // verus!
