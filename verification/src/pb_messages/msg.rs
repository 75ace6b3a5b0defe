//! The wire form of a message body.

use crate::pb_messages::members::Members;
use crate::pb_messages::metrics::Metrics;
use crate::pb_messages::node_id::NodeId;
use crate::pb_messages::pid::Pids;
use crate::pb_messages::field::lists_fields;
use crate::pb_messages::field::FieldKind;
use crate::pb_messages::field::FieldRef;
use crate::pb_messages::field::FieldValue;
use crate::pb_messages::field::WireKind;
use crate::pb_messages::field::copy_bytes;
use crate::pb_messages::size::add_size;
use crate::pb_messages::size::bool_field_len;
use crate::pb_messages::size::bool_field_size;
use crate::pb_messages::size::bytes_field_size;
use crate::pb_messages::size::delimited_len;
use crate::pb_messages::size::nested_size;
use crate::pb_messages::size::uint64_field_size;
use crate::pb_messages::size::varint_field_len;
use crate::pb_messages::size::MAX_PAYLOAD;
use vstd::prelude::*;

verus! {

/// The request that a message body carries.
#[allow(non_camel_case_types)]
#[derive(Debug, PartialEq)]
pub enum PbMsg_oneof_request {
    get_metrics(bool),
    start_timer(u64),
    cancel_timer(bool),
    shutdown(bool),
    get_processes(NodeId),
    get_services(NodeId),
}

/// The reply that a message body carries.
#[allow(non_camel_case_types)]
#[derive(Debug, PartialEq)]
pub enum PbMsg_oneof_reply {
    metrics(Metrics),
    timeout(bool),
    processes(Pids),
    services(Pids),
    members(Members),
}

/// The body of an envelope: a request, a reply or the bytes of a user message.
#[derive(Debug, PartialEq)]
pub struct PbMsg {
    pub user_msg: Option<Vec<u8>>,
    pub request: Option<PbMsg_oneof_request>,
    pub reply: Option<PbMsg_oneof_reply>,
}

impl PbMsg {
    /// Whether nothing is set in the message.
    pub open spec fn is_default(&self) -> bool {
        &&& self.user_msg is None
        &&& self.request is None
        &&& self.reply is None
    }

    /// A message in which nothing is set.
    pub fn new() -> (r: PbMsg)
        ensures
            r.is_default(),
    {
        PbMsg { user_msg: None, request: None, reply: None }
    }

    /// Unsets `request`, whichever of its cases it holds.
    pub fn clear_get_metrics(&mut self)
        ensures
            *final(self) == (PbMsg { request: None, ..*old(self) }),
    {
        self.request = None;
    }

    /// Whether `request` holds the case `get_metrics`.
    pub fn has_get_metrics(&self) -> (r: bool)
        ensures
            r == (self.request matches Some(PbMsg_oneof_request::get_metrics(_))),
    {
        match self.request {
            Some(PbMsg_oneof_request::get_metrics(_)) => true,
            _ => false,
        }
    }

    /// Makes `request` the case `get_metrics` with `v`.
    pub fn set_get_metrics(&mut self, v: bool)
        ensures
            *final(self) == (PbMsg { request: Some(PbMsg_oneof_request::get_metrics(v)), ..*old(self) }),
    {
        self.request = Some(PbMsg_oneof_request::get_metrics(v));
    }

    /// The flag of the case `get_metrics`, or `false` where `request` holds another case
    /// or none.
    pub fn get_get_metrics(&self) -> (r: bool)
        ensures
            r == match self.request {
                Some(PbMsg_oneof_request::get_metrics(v)) => v,
                _ => false,
            },
    {
        match self.request {
            Some(PbMsg_oneof_request::get_metrics(v)) => v,
            _ => false,
        }
    }

    /// Unsets `request`, whichever of its cases it holds.
    pub fn clear_start_timer(&mut self)
        ensures
            *final(self) == (PbMsg { request: None, ..*old(self) }),
    {
        self.request = None;
    }

    /// Whether `request` holds the case `start_timer`.
    pub fn has_start_timer(&self) -> (r: bool)
        ensures
            r == (self.request matches Some(PbMsg_oneof_request::start_timer(_))),
    {
        match self.request {
            Some(PbMsg_oneof_request::start_timer(_)) => true,
            _ => false,
        }
    }

    /// Makes `request` the case `start_timer` with `v`.
    pub fn set_start_timer(&mut self, v: u64)
        ensures
            *final(self) == (PbMsg { request: Some(PbMsg_oneof_request::start_timer(v)), ..*old(self) }),
    {
        self.request = Some(PbMsg_oneof_request::start_timer(v));
    }

    /// The number of the case `start_timer`, or 0 where `request` holds another case
    /// or none.
    pub fn get_start_timer(&self) -> (r: u64)
        ensures
            r == match self.request {
                Some(PbMsg_oneof_request::start_timer(v)) => v,
                _ => 0,
            },
    {
        match self.request {
            Some(PbMsg_oneof_request::start_timer(v)) => v,
            _ => 0,
        }
    }

    /// Unsets `request`, whichever of its cases it holds.
    pub fn clear_cancel_timer(&mut self)
        ensures
            *final(self) == (PbMsg { request: None, ..*old(self) }),
    {
        self.request = None;
    }

    /// Whether `request` holds the case `cancel_timer`.
    pub fn has_cancel_timer(&self) -> (r: bool)
        ensures
            r == (self.request matches Some(PbMsg_oneof_request::cancel_timer(_))),
    {
        match self.request {
            Some(PbMsg_oneof_request::cancel_timer(_)) => true,
            _ => false,
        }
    }

    /// Makes `request` the case `cancel_timer` with `v`.
    pub fn set_cancel_timer(&mut self, v: bool)
        ensures
            *final(self) == (PbMsg { request: Some(PbMsg_oneof_request::cancel_timer(v)), ..*old(self) }),
    {
        self.request = Some(PbMsg_oneof_request::cancel_timer(v));
    }

    /// The flag of the case `cancel_timer`, or `false` where `request` holds another case
    /// or none.
    pub fn get_cancel_timer(&self) -> (r: bool)
        ensures
            r == match self.request {
                Some(PbMsg_oneof_request::cancel_timer(v)) => v,
                _ => false,
            },
    {
        match self.request {
            Some(PbMsg_oneof_request::cancel_timer(v)) => v,
            _ => false,
        }
    }

    /// Unsets `request`, whichever of its cases it holds.
    pub fn clear_shutdown(&mut self)
        ensures
            *final(self) == (PbMsg { request: None, ..*old(self) }),
    {
        self.request = None;
    }

    /// Whether `request` holds the case `shutdown`.
    pub fn has_shutdown(&self) -> (r: bool)
        ensures
            r == (self.request matches Some(PbMsg_oneof_request::shutdown(_))),
    {
        match self.request {
            Some(PbMsg_oneof_request::shutdown(_)) => true,
            _ => false,
        }
    }

    /// Makes `request` the case `shutdown` with `v`.
    pub fn set_shutdown(&mut self, v: bool)
        ensures
            *final(self) == (PbMsg { request: Some(PbMsg_oneof_request::shutdown(v)), ..*old(self) }),
    {
        self.request = Some(PbMsg_oneof_request::shutdown(v));
    }

    /// The flag of the case `shutdown`, or `false` where `request` holds another case
    /// or none.
    pub fn get_shutdown(&self) -> (r: bool)
        ensures
            r == match self.request {
                Some(PbMsg_oneof_request::shutdown(v)) => v,
                _ => false,
            },
    {
        match self.request {
            Some(PbMsg_oneof_request::shutdown(v)) => v,
            _ => false,
        }
    }

    /// Unsets `request`, whichever of its cases it holds.
    pub fn clear_get_processes(&mut self)
        ensures
            *final(self) == (PbMsg { request: None, ..*old(self) }),
    {
        self.request = None;
    }

    /// Whether `request` holds the case `get_processes`.
    pub fn has_get_processes(&self) -> (r: bool)
        ensures
            r == (self.request matches Some(PbMsg_oneof_request::get_processes(_))),
    {
        match self.request {
            Some(PbMsg_oneof_request::get_processes(_)) => true,
            _ => false,
        }
    }

    /// Makes `request` the case `get_processes` with `v`.
    pub fn set_get_processes(&mut self, v: NodeId)
        ensures
            *final(self) == (PbMsg { request: Some(PbMsg_oneof_request::get_processes(v)), ..*old(self) }),
    {
        self.request = Some(PbMsg_oneof_request::get_processes(v));
    }

    /// A mutable reference to the message of the case `get_processes`. Where `request` holds
    /// another case or none, it is first made the case `get_processes` with an empty message.
    pub fn mut_get_processes(&mut self) -> (r: &mut NodeId)
        ensures
            match old(self).request {
                Some(PbMsg_oneof_request::get_processes(v)) => *r == v,
                _ => r.is_default(),
            },
            *final(self) == (PbMsg { request: Some(PbMsg_oneof_request::get_processes(*final(r))), ..*old(self) }),
    {
        if let Some(PbMsg_oneof_request::get_processes(_)) = self.request {
        } else {
            self.request = Some(PbMsg_oneof_request::get_processes(NodeId::new()));
        }
        match &mut self.request {
            Some(PbMsg_oneof_request::get_processes(v)) => v,
            _ => vstd::pervasive::unreached(),
        }
    }

    /// Takes the message of the case `get_processes` out and leaves `request` unset. Where `request`
    /// holds another case or none, nothing changes and an empty message is returned.
    pub fn take_get_processes(&mut self) -> (r: NodeId)
        ensures
            match old(self).request {
                Some(PbMsg_oneof_request::get_processes(v)) => r == v && *final(self) == (PbMsg {
                    request: None,
                    ..*old(self)
                }),
                _ => r.is_default() && *final(self) == *old(self),
            },
    {
        if self.has_get_processes() {
            match self.request.take() {
                Some(PbMsg_oneof_request::get_processes(v)) => v,
                _ => vstd::pervasive::unreached(),
            }
        } else {
            NodeId::new()
        }
    }

    /// The message of the case `get_processes`, or the message in which nothing is set
    /// where `request` holds another case or none.
    pub fn get_get_processes(&self) -> (r: NodeId)
        ensures
            match self.request {
                Some(PbMsg_oneof_request::get_processes(v)) => r == v,
                _ => r == NodeId::spec_empty(),
            },
    {
        match &self.request {
            Some(PbMsg_oneof_request::get_processes(v)) => v.clone(),
            _ => NodeId::new(),
        }
    }

    /// Unsets `request`, whichever of its cases it holds.
    pub fn clear_get_services(&mut self)
        ensures
            *final(self) == (PbMsg { request: None, ..*old(self) }),
    {
        self.request = None;
    }

    /// Whether `request` holds the case `get_services`.
    pub fn has_get_services(&self) -> (r: bool)
        ensures
            r == (self.request matches Some(PbMsg_oneof_request::get_services(_))),
    {
        match self.request {
            Some(PbMsg_oneof_request::get_services(_)) => true,
            _ => false,
        }
    }

    /// Makes `request` the case `get_services` with `v`.
    pub fn set_get_services(&mut self, v: NodeId)
        ensures
            *final(self) == (PbMsg { request: Some(PbMsg_oneof_request::get_services(v)), ..*old(self) }),
    {
        self.request = Some(PbMsg_oneof_request::get_services(v));
    }

    /// A mutable reference to the message of the case `get_services`. Where `request` holds
    /// another case or none, it is first made the case `get_services` with an empty message.
    pub fn mut_get_services(&mut self) -> (r: &mut NodeId)
        ensures
            match old(self).request {
                Some(PbMsg_oneof_request::get_services(v)) => *r == v,
                _ => r.is_default(),
            },
            *final(self) == (PbMsg { request: Some(PbMsg_oneof_request::get_services(*final(r))), ..*old(self) }),
    {
        if let Some(PbMsg_oneof_request::get_services(_)) = self.request {
        } else {
            self.request = Some(PbMsg_oneof_request::get_services(NodeId::new()));
        }
        match &mut self.request {
            Some(PbMsg_oneof_request::get_services(v)) => v,
            _ => vstd::pervasive::unreached(),
        }
    }

    /// Takes the message of the case `get_services` out and leaves `request` unset. Where `request`
    /// holds another case or none, nothing changes and an empty message is returned.
    pub fn take_get_services(&mut self) -> (r: NodeId)
        ensures
            match old(self).request {
                Some(PbMsg_oneof_request::get_services(v)) => r == v && *final(self) == (PbMsg {
                    request: None,
                    ..*old(self)
                }),
                _ => r.is_default() && *final(self) == *old(self),
            },
    {
        if self.has_get_services() {
            match self.request.take() {
                Some(PbMsg_oneof_request::get_services(v)) => v,
                _ => vstd::pervasive::unreached(),
            }
        } else {
            NodeId::new()
        }
    }

    /// The message of the case `get_services`, or the message in which nothing is set
    /// where `request` holds another case or none.
    pub fn get_get_services(&self) -> (r: NodeId)
        ensures
            match self.request {
                Some(PbMsg_oneof_request::get_services(v)) => r == v,
                _ => r == NodeId::spec_empty(),
            },
    {
        match &self.request {
            Some(PbMsg_oneof_request::get_services(v)) => v.clone(),
            _ => NodeId::new(),
        }
    }

    /// Unsets `reply`, whichever of its cases it holds.
    pub fn clear_metrics(&mut self)
        ensures
            *final(self) == (PbMsg { reply: None, ..*old(self) }),
    {
        self.reply = None;
    }

    /// Whether `reply` holds the case `metrics`.
    pub fn has_metrics(&self) -> (r: bool)
        ensures
            r == (self.reply matches Some(PbMsg_oneof_reply::metrics(_))),
    {
        match self.reply {
            Some(PbMsg_oneof_reply::metrics(_)) => true,
            _ => false,
        }
    }

    /// Makes `reply` the case `metrics` with `v`.
    pub fn set_metrics(&mut self, v: Metrics)
        ensures
            *final(self) == (PbMsg { reply: Some(PbMsg_oneof_reply::metrics(v)), ..*old(self) }),
    {
        self.reply = Some(PbMsg_oneof_reply::metrics(v));
    }

    /// A mutable reference to the message of the case `metrics`. Where `reply` holds
    /// another case or none, it is first made the case `metrics` with an empty message.
    pub fn mut_metrics(&mut self) -> (r: &mut Metrics)
        ensures
            match old(self).reply {
                Some(PbMsg_oneof_reply::metrics(v)) => *r == v,
                _ => r.is_default(),
            },
            *final(self) == (PbMsg { reply: Some(PbMsg_oneof_reply::metrics(*final(r))), ..*old(self) }),
    {
        if let Some(PbMsg_oneof_reply::metrics(_)) = self.reply {
        } else {
            self.reply = Some(PbMsg_oneof_reply::metrics(Metrics::new()));
        }
        match &mut self.reply {
            Some(PbMsg_oneof_reply::metrics(v)) => v,
            _ => vstd::pervasive::unreached(),
        }
    }

    /// Takes the message of the case `metrics` out and leaves `reply` unset. Where `reply`
    /// holds another case or none, nothing changes and an empty message is returned.
    pub fn take_metrics(&mut self) -> (r: Metrics)
        ensures
            match old(self).reply {
                Some(PbMsg_oneof_reply::metrics(v)) => r == v && *final(self) == (PbMsg {
                    reply: None,
                    ..*old(self)
                }),
                _ => r.is_default() && *final(self) == *old(self),
            },
    {
        if self.has_metrics() {
            match self.reply.take() {
                Some(PbMsg_oneof_reply::metrics(v)) => v,
                _ => vstd::pervasive::unreached(),
            }
        } else {
            Metrics::new()
        }
    }

    /// The message of the case `metrics`, or the message in which nothing is set
    /// where `reply` holds another case or none.
    pub fn get_metrics(&self) -> (r: Metrics)
        ensures
            match self.reply {
                Some(PbMsg_oneof_reply::metrics(v)) => v.same(r),
                _ => r.is_default(),
            },
    {
        match &self.reply {
            Some(PbMsg_oneof_reply::metrics(v)) => v.clone(),
            _ => Metrics::new(),
        }
    }

    /// Unsets `reply`, whichever of its cases it holds.
    pub fn clear_timeout(&mut self)
        ensures
            *final(self) == (PbMsg { reply: None, ..*old(self) }),
    {
        self.reply = None;
    }

    /// Whether `reply` holds the case `timeout`.
    pub fn has_timeout(&self) -> (r: bool)
        ensures
            r == (self.reply matches Some(PbMsg_oneof_reply::timeout(_))),
    {
        match self.reply {
            Some(PbMsg_oneof_reply::timeout(_)) => true,
            _ => false,
        }
    }

    /// Makes `reply` the case `timeout` with `v`.
    pub fn set_timeout(&mut self, v: bool)
        ensures
            *final(self) == (PbMsg { reply: Some(PbMsg_oneof_reply::timeout(v)), ..*old(self) }),
    {
        self.reply = Some(PbMsg_oneof_reply::timeout(v));
    }

    /// The flag of the case `timeout`, or `false` where `reply` holds another case
    /// or none.
    pub fn get_timeout(&self) -> (r: bool)
        ensures
            r == match self.reply {
                Some(PbMsg_oneof_reply::timeout(v)) => v,
                _ => false,
            },
    {
        match self.reply {
            Some(PbMsg_oneof_reply::timeout(v)) => v,
            _ => false,
        }
    }

    /// Unsets `reply`, whichever of its cases it holds.
    pub fn clear_processes(&mut self)
        ensures
            *final(self) == (PbMsg { reply: None, ..*old(self) }),
    {
        self.reply = None;
    }

    /// Whether `reply` holds the case `processes`.
    pub fn has_processes(&self) -> (r: bool)
        ensures
            r == (self.reply matches Some(PbMsg_oneof_reply::processes(_))),
    {
        match self.reply {
            Some(PbMsg_oneof_reply::processes(_)) => true,
            _ => false,
        }
    }

    /// Makes `reply` the case `processes` with `v`.
    pub fn set_processes(&mut self, v: Pids)
        ensures
            *final(self) == (PbMsg { reply: Some(PbMsg_oneof_reply::processes(v)), ..*old(self) }),
    {
        self.reply = Some(PbMsg_oneof_reply::processes(v));
    }

    /// A mutable reference to the message of the case `processes`. Where `reply` holds
    /// another case or none, it is first made the case `processes` with an empty message.
    pub fn mut_processes(&mut self) -> (r: &mut Pids)
        ensures
            match old(self).reply {
                Some(PbMsg_oneof_reply::processes(v)) => *r == v,
                _ => r.is_default(),
            },
            *final(self) == (PbMsg { reply: Some(PbMsg_oneof_reply::processes(*final(r))), ..*old(self) }),
    {
        if let Some(PbMsg_oneof_reply::processes(_)) = self.reply {
        } else {
            self.reply = Some(PbMsg_oneof_reply::processes(Pids::new()));
        }
        match &mut self.reply {
            Some(PbMsg_oneof_reply::processes(v)) => v,
            _ => vstd::pervasive::unreached(),
        }
    }

    /// Takes the message of the case `processes` out and leaves `reply` unset. Where `reply`
    /// holds another case or none, nothing changes and an empty message is returned.
    pub fn take_processes(&mut self) -> (r: Pids)
        ensures
            match old(self).reply {
                Some(PbMsg_oneof_reply::processes(v)) => r == v && *final(self) == (PbMsg {
                    reply: None,
                    ..*old(self)
                }),
                _ => r.is_default() && *final(self) == *old(self),
            },
    {
        if self.has_processes() {
            match self.reply.take() {
                Some(PbMsg_oneof_reply::processes(v)) => v,
                _ => vstd::pervasive::unreached(),
            }
        } else {
            Pids::new()
        }
    }

    /// The message of the case `processes`, or the message in which nothing is set
    /// where `reply` holds another case or none.
    pub fn get_processes(&self) -> (r: Pids)
        ensures
            match self.reply {
                Some(PbMsg_oneof_reply::processes(v)) => v.same(r),
                _ => r.is_default(),
            },
    {
        match &self.reply {
            Some(PbMsg_oneof_reply::processes(v)) => v.clone(),
            _ => Pids::new(),
        }
    }

    /// Unsets `reply`, whichever of its cases it holds.
    pub fn clear_services(&mut self)
        ensures
            *final(self) == (PbMsg { reply: None, ..*old(self) }),
    {
        self.reply = None;
    }

    /// Whether `reply` holds the case `services`.
    pub fn has_services(&self) -> (r: bool)
        ensures
            r == (self.reply matches Some(PbMsg_oneof_reply::services(_))),
    {
        match self.reply {
            Some(PbMsg_oneof_reply::services(_)) => true,
            _ => false,
        }
    }

    /// Makes `reply` the case `services` with `v`.
    pub fn set_services(&mut self, v: Pids)
        ensures
            *final(self) == (PbMsg { reply: Some(PbMsg_oneof_reply::services(v)), ..*old(self) }),
    {
        self.reply = Some(PbMsg_oneof_reply::services(v));
    }

    /// A mutable reference to the message of the case `services`. Where `reply` holds
    /// another case or none, it is first made the case `services` with an empty message.
    pub fn mut_services(&mut self) -> (r: &mut Pids)
        ensures
            match old(self).reply {
                Some(PbMsg_oneof_reply::services(v)) => *r == v,
                _ => r.is_default(),
            },
            *final(self) == (PbMsg { reply: Some(PbMsg_oneof_reply::services(*final(r))), ..*old(self) }),
    {
        if let Some(PbMsg_oneof_reply::services(_)) = self.reply {
        } else {
            self.reply = Some(PbMsg_oneof_reply::services(Pids::new()));
        }
        match &mut self.reply {
            Some(PbMsg_oneof_reply::services(v)) => v,
            _ => vstd::pervasive::unreached(),
        }
    }

    /// Takes the message of the case `services` out and leaves `reply` unset. Where `reply`
    /// holds another case or none, nothing changes and an empty message is returned.
    pub fn take_services(&mut self) -> (r: Pids)
        ensures
            match old(self).reply {
                Some(PbMsg_oneof_reply::services(v)) => r == v && *final(self) == (PbMsg {
                    reply: None,
                    ..*old(self)
                }),
                _ => r.is_default() && *final(self) == *old(self),
            },
    {
        if self.has_services() {
            match self.reply.take() {
                Some(PbMsg_oneof_reply::services(v)) => v,
                _ => vstd::pervasive::unreached(),
            }
        } else {
            Pids::new()
        }
    }

    /// The message of the case `services`, or the message in which nothing is set
    /// where `reply` holds another case or none.
    pub fn get_services(&self) -> (r: Pids)
        ensures
            match self.reply {
                Some(PbMsg_oneof_reply::services(v)) => v.same(r),
                _ => r.is_default(),
            },
    {
        match &self.reply {
            Some(PbMsg_oneof_reply::services(v)) => v.clone(),
            _ => Pids::new(),
        }
    }

    /// Unsets `reply`, whichever of its cases it holds.
    pub fn clear_members(&mut self)
        ensures
            *final(self) == (PbMsg { reply: None, ..*old(self) }),
    {
        self.reply = None;
    }

    /// Whether `reply` holds the case `members`.
    pub fn has_members(&self) -> (r: bool)
        ensures
            r == (self.reply matches Some(PbMsg_oneof_reply::members(_))),
    {
        match self.reply {
            Some(PbMsg_oneof_reply::members(_)) => true,
            _ => false,
        }
    }

    /// Makes `reply` the case `members` with `v`.
    pub fn set_members(&mut self, v: Members)
        ensures
            *final(self) == (PbMsg { reply: Some(PbMsg_oneof_reply::members(v)), ..*old(self) }),
    {
        self.reply = Some(PbMsg_oneof_reply::members(v));
    }

    /// A mutable reference to the message of the case `members`. Where `reply` holds
    /// another case or none, it is first made the case `members` with an empty message.
    pub fn mut_members(&mut self) -> (r: &mut Members)
        ensures
            match old(self).reply {
                Some(PbMsg_oneof_reply::members(v)) => *r == v,
                _ => r.is_default(),
            },
            *final(self) == (PbMsg { reply: Some(PbMsg_oneof_reply::members(*final(r))), ..*old(self) }),
    {
        if let Some(PbMsg_oneof_reply::members(_)) = self.reply {
        } else {
            self.reply = Some(PbMsg_oneof_reply::members(Members::new()));
        }
        match &mut self.reply {
            Some(PbMsg_oneof_reply::members(v)) => v,
            _ => vstd::pervasive::unreached(),
        }
    }

    /// Takes the message of the case `members` out and leaves `reply` unset. Where `reply`
    /// holds another case or none, nothing changes and an empty message is returned.
    pub fn take_members(&mut self) -> (r: Members)
        ensures
            match old(self).reply {
                Some(PbMsg_oneof_reply::members(v)) => r == v && *final(self) == (PbMsg {
                    reply: None,
                    ..*old(self)
                }),
                _ => r.is_default() && *final(self) == *old(self),
            },
    {
        if self.has_members() {
            match self.reply.take() {
                Some(PbMsg_oneof_reply::members(v)) => v,
                _ => vstd::pervasive::unreached(),
            }
        } else {
            Members::new()
        }
    }

    /// The message of the case `members`, or the message in which nothing is set
    /// where `reply` holds another case or none.
    pub fn get_members(&self) -> (r: Members)
        ensures
            match self.reply {
                Some(PbMsg_oneof_reply::members(v)) => v.same(r),
                _ => r.is_default(),
            },
    {
        match &self.reply {
            Some(PbMsg_oneof_reply::members(v)) => v.clone(),
            _ => Members::new(),
        }
    }

    /// Unsets `user_msg`.
    pub fn clear_user_msg(&mut self)
        ensures
            *final(self) == (PbMsg { user_msg: None, ..*old(self) }),
    {
        self.user_msg = None;
    }

    /// Whether `user_msg` is set.
    pub fn has_user_msg(&self) -> (r: bool)
        ensures
            r == (self.user_msg is Some),
    {
        self.user_msg.is_some()
    }

    /// Sets `user_msg` to `v`.
    pub fn set_user_msg(&mut self, v: Vec<u8>)
        ensures
            *final(self) == (PbMsg { user_msg: Some(v), ..*old(self) }),
    {
        self.user_msg = Some(v);
    }

    /// A mutable reference to `user_msg`, which is first set to no bytes where it
    /// is unset.
    pub fn mut_user_msg(&mut self) -> (r: &mut Vec<u8>)
        ensures
            match old(self).user_msg {
                Some(v) => *r == v,
                None => r@ == Seq::<u8>::empty(),
            },
            *final(self) == (PbMsg { user_msg: Some(*final(r)), ..*old(self) }),
    {
        if self.user_msg.is_none() {
            self.user_msg = Some(Vec::new());
        }
        self.user_msg.as_mut().unwrap()
    }

    /// Takes the bytes out of `user_msg` and leaves it unset; no bytes where
    /// it was unset.
    pub fn take_user_msg(&mut self) -> (r: Vec<u8>)
        ensures
            *final(self) == (PbMsg { user_msg: None, ..*old(self) }),
            match old(self).user_msg {
                Some(v) => r == v,
                None => r@ == Seq::<u8>::empty(),
            },
    {
        match self.user_msg.take() {
            Some(v) => v,
            None => Vec::new(),
        }
    }

    /// The bytes in `user_msg`, or no bytes where it is unset.
    pub fn get_user_msg(&self) -> (r: &[u8])
        ensures
            r@ == match self.user_msg {
                Some(v) => v@,
                None => Seq::<u8>::empty(),
            },
    {
        match self.user_msg.as_ref() {
            Some(v) => v.as_slice(),
            None => &[],
        }
    }
}

impl Default for PbMsg {
    /// A message in which nothing is set.
    fn default() -> (r: PbMsg)
        ensures
            r.is_default(),
    {
        PbMsg::new()
    }
}

impl Clone for PbMsg_oneof_request {
    fn clone(&self) -> (r: PbMsg_oneof_request)
        ensures
            r == *self,
    {
        match self {
            PbMsg_oneof_request::get_metrics(v) => PbMsg_oneof_request::get_metrics(*v),
            PbMsg_oneof_request::start_timer(v) => PbMsg_oneof_request::start_timer(*v),
            PbMsg_oneof_request::cancel_timer(v) => PbMsg_oneof_request::cancel_timer(*v),
            PbMsg_oneof_request::shutdown(v) => PbMsg_oneof_request::shutdown(*v),
            PbMsg_oneof_request::get_processes(v) => PbMsg_oneof_request::get_processes(v.clone()),
            PbMsg_oneof_request::get_services(v) => PbMsg_oneof_request::get_services(v.clone()),
        }
    }
}

impl PbMsg_oneof_reply {
    /// Whether the two hold the same case with the same value, byte strings and
    /// lists taken by what they hold.
    pub open spec fn same(&self, other: PbMsg_oneof_reply) -> bool {
        match (*self, other) {
            (PbMsg_oneof_reply::metrics(a), PbMsg_oneof_reply::metrics(b)) => a.same(b),
            (PbMsg_oneof_reply::timeout(a), PbMsg_oneof_reply::timeout(b)) => a == b,
            (PbMsg_oneof_reply::processes(a), PbMsg_oneof_reply::processes(b)) => a.same(b),
            (PbMsg_oneof_reply::services(a), PbMsg_oneof_reply::services(b)) => a.same(b),
            (PbMsg_oneof_reply::members(a), PbMsg_oneof_reply::members(b)) => a.same(b),
            _ => false,
        }
    }
}

impl Clone for PbMsg_oneof_reply {
    fn clone(&self) -> (r: PbMsg_oneof_reply)
        ensures
            self.same(r),
    {
        match self {
            PbMsg_oneof_reply::metrics(v) => PbMsg_oneof_reply::metrics(v.clone()),
            PbMsg_oneof_reply::timeout(v) => PbMsg_oneof_reply::timeout(*v),
            PbMsg_oneof_reply::processes(v) => PbMsg_oneof_reply::processes(v.clone()),
            PbMsg_oneof_reply::services(v) => PbMsg_oneof_reply::services(v.clone()),
            PbMsg_oneof_reply::members(v) => PbMsg_oneof_reply::members(v.clone()),
        }
    }
}

impl PbMsg {
    /// Whether the two messages hold the same, field by field, byte strings and
    /// lists taken by what they hold.
    pub open spec fn same(&self, other: PbMsg) -> bool {
        &&& match (self.user_msg, other.user_msg) {
            (Some(a), Some(b)) => a@ == b@,
            (None, None) => true,
            _ => false,
        }
        &&& self.request == other.request
        &&& match (self.reply, other.reply) {
            (Some(a), Some(b)) => a.same(b),
            (None, None) => true,
            _ => false,
        }
    }
}

impl Clone for PbMsg {
    fn clone(&self) -> (r: PbMsg)
        ensures
            self.same(r),
    {
        let user_msg = match &self.user_msg {
            Some(v) => Some(copy_bytes(v)),
            None => None,
        };
        let request = match &self.request {
            Some(v) => Some(v.clone()),
            None => None,
        };
        let reply = match &self.reply {
            Some(v) => Some(v.clone()),
            None => None,
        };
        PbMsg { user_msg, request, reply }
    }
}

impl PbMsg {
    /// The number of bytes that the message takes on the wire: for each field
    /// that is set, its tag and its value.
    pub open spec fn wire_len(&self) -> int {
        (match self.user_msg {
            Some(v) => delimited_len(100000, v@.len() as int),
            None => 0,
        }) + (match self.request {
            Some(PbMsg_oneof_request::get_metrics(_)) => bool_field_len(1),
            Some(PbMsg_oneof_request::start_timer(v)) => varint_field_len(2, v as int),
            Some(PbMsg_oneof_request::cancel_timer(_)) => bool_field_len(3),
            Some(PbMsg_oneof_request::shutdown(_)) => bool_field_len(4),
            Some(PbMsg_oneof_request::get_processes(v)) => delimited_len(5, v.wire_len()),
            Some(PbMsg_oneof_request::get_services(v)) => delimited_len(6, v.wire_len()),
            None => 0,
        }) + (match self.reply {
            Some(PbMsg_oneof_reply::metrics(v)) => delimited_len(50000, v.wire_len()),
            Some(PbMsg_oneof_reply::timeout(_)) => bool_field_len(50001),
            Some(PbMsg_oneof_reply::processes(v)) => delimited_len(50002, v.wire_len()),
            Some(PbMsg_oneof_reply::services(v)) => delimited_len(50003, v.wire_len()),
            Some(PbMsg_oneof_reply::members(v)) => delimited_len(50004, v.wire_len()),
            None => 0,
        })
    }

    /// Whether the size of the message can be computed: no text or byte string
    /// in it is longer than `MAX_PAYLOAD`, and the whole fits 32 bits.
    pub open spec fn sizable(&self) -> bool {
        &&& self.user_msg matches Some(v) ==> v@.len() <= MAX_PAYLOAD
        &&& match self.request {
            Some(PbMsg_oneof_request::get_processes(v)) => v.sizable(),
            Some(PbMsg_oneof_request::get_services(v)) => v.sizable(),
            _ => true,
        }
        &&& match self.reply {
            Some(PbMsg_oneof_reply::metrics(v)) => v.sizable(),
            Some(PbMsg_oneof_reply::processes(v)) => v.sizable(),
            Some(PbMsg_oneof_reply::services(v)) => v.sizable(),
            Some(PbMsg_oneof_reply::members(v)) => v.sizable(),
            _ => true,
        }
        &&& self.wire_len() <= u32::MAX
    }

    /// Each field of a message takes no negative number of bytes.
    proof fn lemma_parts(&self)
        ensures
            (match self.user_msg {
                Some(v) => delimited_len(100000, v@.len() as int),
                None => 0,
            }) >= 0,
            (match self.request {
                Some(PbMsg_oneof_request::get_metrics(_)) => bool_field_len(1),
                Some(PbMsg_oneof_request::start_timer(v)) => varint_field_len(2, v as int),
                Some(PbMsg_oneof_request::cancel_timer(_)) => bool_field_len(3),
                Some(PbMsg_oneof_request::shutdown(_)) => bool_field_len(4),
                Some(PbMsg_oneof_request::get_processes(v)) => delimited_len(5, v.wire_len()),
                Some(PbMsg_oneof_request::get_services(v)) => delimited_len(6, v.wire_len()),
                None => 0,
            }) >= 0,
            (match self.reply {
                Some(PbMsg_oneof_reply::metrics(v)) => delimited_len(50000, v.wire_len()),
                Some(PbMsg_oneof_reply::timeout(_)) => bool_field_len(50001),
                Some(PbMsg_oneof_reply::processes(v)) => delimited_len(50002, v.wire_len()),
                Some(PbMsg_oneof_reply::services(v)) => delimited_len(50003, v.wire_len()),
                Some(PbMsg_oneof_reply::members(v)) => delimited_len(50004, v.wire_len()),
                None => 0,
            }) >= 0,
    {
        match self.request {
            Some(PbMsg_oneof_request::get_processes(v)) => v.lemma_wire_len(),
            Some(PbMsg_oneof_request::get_services(v)) => v.lemma_wire_len(),
            _ => {},
        }
        match self.reply {
            Some(PbMsg_oneof_reply::metrics(v)) => v.lemma_wire_len(),
            Some(PbMsg_oneof_reply::processes(v)) => v.lemma_wire_len(),
            Some(PbMsg_oneof_reply::services(v)) => v.lemma_wire_len(),
            Some(PbMsg_oneof_reply::members(v)) => v.lemma_wire_len(),
            _ => {},
        }
    }

    /// A message takes no negative number of bytes.
    pub proof fn lemma_wire_len(&self)
        ensures
            self.wire_len() >= 0,
    {
        self.lemma_parts();
    }

    /// The size of the message on the wire, or `None` where it cannot be
    /// computed.
    pub fn checked_size(&self) -> (r: Option<u32>)
        ensures
            r == if self.sizable() {
                Some(self.wire_len() as u32)
            } else {
                None
            },
    {
        proof {
            self.lemma_parts();
        }
        let mut my_size: u32 = 0;
        if let Some(v) = &self.user_msg {
            let field = match bytes_field_size(100000, v.as_slice()) {
                Some(size) => size,
                None => return None,
            };
            my_size = match add_size(my_size, field) {
                Some(size) => size,
                None => return None,
            };
        }
        if let Some(case) = &self.request {
            let field = match case {
                PbMsg_oneof_request::get_metrics(_) => {
                    let field = bool_field_size(1);
                    field
                },
                PbMsg_oneof_request::start_timer(v) => {
                    let field = uint64_field_size(2, *v);
                    field
                },
                PbMsg_oneof_request::cancel_timer(_) => {
                    let field = bool_field_size(3);
                    field
                },
                PbMsg_oneof_request::shutdown(_) => {
                    let field = bool_field_size(4);
                    field
                },
                PbMsg_oneof_request::get_processes(v) => {
                    proof {
                        v.lemma_wire_len();
                    }
                    let len = match v.checked_size() {
                        Some(len) => len,
                        None => return None,
                    };
                    let field = match nested_size(5, len) {
                        Some(size) => size,
                        None => return None,
                    };
                    field
                },
                PbMsg_oneof_request::get_services(v) => {
                    proof {
                        v.lemma_wire_len();
                    }
                    let len = match v.checked_size() {
                        Some(len) => len,
                        None => return None,
                    };
                    let field = match nested_size(6, len) {
                        Some(size) => size,
                        None => return None,
                    };
                    field
                },
            };
            my_size = match add_size(my_size, field) {
                Some(size) => size,
                None => return None,
            };
        }
        if let Some(case) = &self.reply {
            let field = match case {
                PbMsg_oneof_reply::metrics(v) => {
                    proof {
                        v.lemma_wire_len();
                    }
                    let len = match v.checked_size() {
                        Some(len) => len,
                        None => return None,
                    };
                    let field = match nested_size(50000, len) {
                        Some(size) => size,
                        None => return None,
                    };
                    field
                },
                PbMsg_oneof_reply::timeout(_) => {
                    let field = bool_field_size(50001);
                    field
                },
                PbMsg_oneof_reply::processes(v) => {
                    proof {
                        v.lemma_wire_len();
                    }
                    let len = match v.checked_size() {
                        Some(len) => len,
                        None => return None,
                    };
                    let field = match nested_size(50002, len) {
                        Some(size) => size,
                        None => return None,
                    };
                    field
                },
                PbMsg_oneof_reply::services(v) => {
                    proof {
                        v.lemma_wire_len();
                    }
                    let len = match v.checked_size() {
                        Some(len) => len,
                        None => return None,
                    };
                    let field = match nested_size(50003, len) {
                        Some(size) => size,
                        None => return None,
                    };
                    field
                },
                PbMsg_oneof_reply::members(v) => {
                    proof {
                        v.lemma_wire_len();
                    }
                    let len = match v.checked_size() {
                        Some(len) => len,
                        None => return None,
                    };
                    let field = match nested_size(50004, len) {
                        Some(size) => size,
                        None => return None,
                    };
                    field
                },
            };
            my_size = match add_size(my_size, field) {
                Some(size) => size,
                None => return None,
            };
        }
        Some(my_size)
    }

    /// The size of the message on the wire.
    pub fn compute_size(&self) -> (r: u32)
        requires
            self.sizable(),
        ensures
            r == self.wire_len(),
    {
        proof {
            self.lemma_wire_len();
        }
        match self.checked_size() {
            Some(size) => size,
            None => vstd::pervasive::unreached(),
        }
    }
}

impl PbMsg {
    /// The kind of value that the field with the number `field_number` holds,
    /// or `None` where the message has no such field.
    pub open spec fn spec_field_kind(field_number: u32) -> Option<FieldKind> {
        if field_number == 1 {
            Some(FieldKind::Bool)
        } else if field_number == 2 {
            Some(FieldKind::Uint64)
        } else if field_number == 3 {
            Some(FieldKind::Bool)
        } else if field_number == 4 {
            Some(FieldKind::Bool)
        } else if field_number == 5 {
            Some(FieldKind::NodeId)
        } else if field_number == 6 {
            Some(FieldKind::NodeId)
        } else if field_number == 50000 {
            Some(FieldKind::Metrics)
        } else if field_number == 50001 {
            Some(FieldKind::Bool)
        } else if field_number == 50002 {
            Some(FieldKind::Pids)
        } else if field_number == 50003 {
            Some(FieldKind::Pids)
        } else if field_number == 50004 {
            Some(FieldKind::Members)
        } else if field_number == 100000 {
            Some(FieldKind::Bytes)
        } else {
            None
        }
    }

    /// The kind of value that the field with the number `field_number` holds,
    /// or `None` where the message has no such field.
    pub fn field_kind(field_number: u32) -> (r: Option<FieldKind>)
        ensures
            r == Self::spec_field_kind(field_number),
    {
        match field_number {
            1 => Some(FieldKind::Bool),
            2 => Some(FieldKind::Uint64),
            3 => Some(FieldKind::Bool),
            4 => Some(FieldKind::Bool),
            5 => Some(FieldKind::NodeId),
            6 => Some(FieldKind::NodeId),
            50000 => Some(FieldKind::Metrics),
            50001 => Some(FieldKind::Bool),
            50002 => Some(FieldKind::Pids),
            50003 => Some(FieldKind::Pids),
            50004 => Some(FieldKind::Members),
            100000 => Some(FieldKind::Bytes),
            _ => None,
        }
    }

    /// The kind of value to read for the field `field_number` when it comes
    /// in the layout `wire`: the field's kind if that is its layout, else
    /// `None`.
    pub fn accepts(field_number: u32, wire: WireKind) -> (r: Option<FieldKind>)
        ensures
            r == match Self::spec_field_kind(field_number) {
                Some(k) => if k.spec_wire_kind() == wire {
                    Some(k)
                } else {
                    None
                },
                None => None,
            },
    {
        match Self::field_kind(field_number) {
            Some(k) => if k.wire_kind() == wire {
                Some(k)
            } else {
                None
            },
            None => None,
        }
    }

    /// The message after a value was taken in for the field `field_number`:
    /// the field holds the value, if the value is of the field's kind; else
    /// nothing changes.
    pub open spec fn with_field(self, field_number: u32, value: FieldValue) -> PbMsg {
        if field_number == 1 {
            match value {
                FieldValue::Bool(v) => PbMsg { request: Some(PbMsg_oneof_request::get_metrics(v)), ..self },
                _ => self,
            }
        } else if field_number == 2 {
            match value {
                FieldValue::Uint64(v) => PbMsg { request: Some(PbMsg_oneof_request::start_timer(v)), ..self },
                _ => self,
            }
        } else if field_number == 3 {
            match value {
                FieldValue::Bool(v) => PbMsg { request: Some(PbMsg_oneof_request::cancel_timer(v)), ..self },
                _ => self,
            }
        } else if field_number == 4 {
            match value {
                FieldValue::Bool(v) => PbMsg { request: Some(PbMsg_oneof_request::shutdown(v)), ..self },
                _ => self,
            }
        } else if field_number == 5 {
            match value {
                FieldValue::NodeId(v) => PbMsg { request: Some(PbMsg_oneof_request::get_processes(v)), ..self },
                _ => self,
            }
        } else if field_number == 6 {
            match value {
                FieldValue::NodeId(v) => PbMsg { request: Some(PbMsg_oneof_request::get_services(v)), ..self },
                _ => self,
            }
        } else if field_number == 50000 {
            match value {
                FieldValue::Metrics(v) => PbMsg { reply: Some(PbMsg_oneof_reply::metrics(v)), ..self },
                _ => self,
            }
        } else if field_number == 50001 {
            match value {
                FieldValue::Bool(v) => PbMsg { reply: Some(PbMsg_oneof_reply::timeout(v)), ..self },
                _ => self,
            }
        } else if field_number == 50002 {
            match value {
                FieldValue::Pids(v) => PbMsg { reply: Some(PbMsg_oneof_reply::processes(v)), ..self },
                _ => self,
            }
        } else if field_number == 50003 {
            match value {
                FieldValue::Pids(v) => PbMsg { reply: Some(PbMsg_oneof_reply::services(v)), ..self },
                _ => self,
            }
        } else if field_number == 50004 {
            match value {
                FieldValue::Members(v) => PbMsg { reply: Some(PbMsg_oneof_reply::members(v)), ..self },
                _ => self,
            }
        } else if field_number == 100000 {
            match value {
                FieldValue::Bytes(v) => PbMsg { user_msg: Some(v), ..self },
                _ => self,
            }
        } else {
            self
        }
    }

    /// The fields that are set, in the order in which they are written.
    pub open spec fn spec_fields(&self) -> Seq<(u32, FieldValue)> {
        (match self.user_msg {
            Some(v) => seq![(100000u32, FieldValue::Bytes(v))],
            None => Seq::<(u32, FieldValue)>::empty(),
        }) + (match self.request {
            Some(PbMsg_oneof_request::get_metrics(v)) => seq![(1u32, FieldValue::Bool(v))],
            Some(PbMsg_oneof_request::start_timer(v)) => seq![(2u32, FieldValue::Uint64(v))],
            Some(PbMsg_oneof_request::cancel_timer(v)) => seq![(3u32, FieldValue::Bool(v))],
            Some(PbMsg_oneof_request::shutdown(v)) => seq![(4u32, FieldValue::Bool(v))],
            Some(PbMsg_oneof_request::get_processes(v)) => seq![(5u32, FieldValue::NodeId(v))],
            Some(PbMsg_oneof_request::get_services(v)) => seq![(6u32, FieldValue::NodeId(v))],
            None => Seq::<(u32, FieldValue)>::empty(),
        }) + (match self.reply {
            Some(PbMsg_oneof_reply::metrics(v)) => seq![(50000u32, FieldValue::Metrics(v))],
            Some(PbMsg_oneof_reply::timeout(v)) => seq![(50001u32, FieldValue::Bool(v))],
            Some(PbMsg_oneof_reply::processes(v)) => seq![(50002u32, FieldValue::Pids(v))],
            Some(PbMsg_oneof_reply::services(v)) => seq![(50003u32, FieldValue::Pids(v))],
            Some(PbMsg_oneof_reply::members(v)) => seq![(50004u32, FieldValue::Members(v))],
            None => Seq::<(u32, FieldValue)>::empty(),
        })
    }

    /// Takes in a value that was read for the field `field_number`, and says
    /// whether the value is of the field's kind. Any other value is refused
    /// and changes nothing.
    pub fn merge_field(&mut self, field_number: u32, value: FieldValue) -> (accepted: bool)
        ensures
            accepted == (Self::spec_field_kind(field_number) == Some(value.kind())),
            *final(self) == old(self).with_field(field_number, value),
    {
        match field_number {
            1 => match value {
                FieldValue::Bool(v) => {
                    self.set_get_metrics(v);
                    true
                },
                _ => false,
            },
            2 => match value {
                FieldValue::Uint64(v) => {
                    self.set_start_timer(v);
                    true
                },
                _ => false,
            },
            3 => match value {
                FieldValue::Bool(v) => {
                    self.set_cancel_timer(v);
                    true
                },
                _ => false,
            },
            4 => match value {
                FieldValue::Bool(v) => {
                    self.set_shutdown(v);
                    true
                },
                _ => false,
            },
            5 => match value {
                FieldValue::NodeId(v) => {
                    self.set_get_processes(v);
                    true
                },
                _ => false,
            },
            6 => match value {
                FieldValue::NodeId(v) => {
                    self.set_get_services(v);
                    true
                },
                _ => false,
            },
            50000 => match value {
                FieldValue::Metrics(v) => {
                    self.set_metrics(v);
                    true
                },
                _ => false,
            },
            50001 => match value {
                FieldValue::Bool(v) => {
                    self.set_timeout(v);
                    true
                },
                _ => false,
            },
            50002 => match value {
                FieldValue::Pids(v) => {
                    self.set_processes(v);
                    true
                },
                _ => false,
            },
            50003 => match value {
                FieldValue::Pids(v) => {
                    self.set_services(v);
                    true
                },
                _ => false,
            },
            50004 => match value {
                FieldValue::Members(v) => {
                    self.set_members(v);
                    true
                },
                _ => false,
            },
            100000 => match value {
                FieldValue::Bytes(v) => {
                    self.set_user_msg(v);
                    true
                },
                _ => false,
            },
            _ => false,
        }
    }

    /// The fields that are set, in the order in which they are written.
    pub fn set_fields(&self) -> (r: Vec<(u32, FieldRef<'_>)>)
        ensures
            lists_fields(r@, self.spec_fields()),
    {
        let mut r: Vec<(u32, FieldRef<'_>)> = Vec::new();
        if let Some(v) = &self.user_msg {
            r.push((100000, FieldRef::Bytes(v.as_slice())));
        }
        proof {
            assert(lists_fields(
                r@,
                (match self.user_msg {
                    Some(v) => seq![(100000u32, FieldValue::Bytes(v))],
                    None => Seq::<(u32, FieldValue)>::empty(),
                }),
            ));
        }
        if let Some(case) = &self.request {
            match case {
                PbMsg_oneof_request::get_metrics(v) => r.push((1, FieldRef::Bool(*v))),
                PbMsg_oneof_request::start_timer(v) => r.push((2, FieldRef::Uint64(*v))),
                PbMsg_oneof_request::cancel_timer(v) => r.push((3, FieldRef::Bool(*v))),
                PbMsg_oneof_request::shutdown(v) => r.push((4, FieldRef::Bool(*v))),
                PbMsg_oneof_request::get_processes(v) => r.push((5, FieldRef::NodeId(v))),
                PbMsg_oneof_request::get_services(v) => r.push((6, FieldRef::NodeId(v))),
            }
        }
        proof {
            assert(lists_fields(
                r@,
                (match self.user_msg {
                    Some(v) => seq![(100000u32, FieldValue::Bytes(v))],
                    None => Seq::<(u32, FieldValue)>::empty(),
                }) + (match self.request {
                    Some(PbMsg_oneof_request::get_metrics(v)) => seq![(1u32, FieldValue::Bool(v))],
                    Some(PbMsg_oneof_request::start_timer(v)) => seq![(2u32, FieldValue::Uint64(v))],
                    Some(PbMsg_oneof_request::cancel_timer(v)) => seq![(3u32, FieldValue::Bool(v))],
                    Some(PbMsg_oneof_request::shutdown(v)) => seq![(4u32, FieldValue::Bool(v))],
                    Some(PbMsg_oneof_request::get_processes(v)) => seq![(5u32, FieldValue::NodeId(v))],
                    Some(PbMsg_oneof_request::get_services(v)) => seq![(6u32, FieldValue::NodeId(v))],
                    None => Seq::<(u32, FieldValue)>::empty(),
                }),
            ));
        }
        if let Some(case) = &self.reply {
            match case {
                PbMsg_oneof_reply::metrics(v) => r.push((50000, FieldRef::Metrics(v))),
                PbMsg_oneof_reply::timeout(v) => r.push((50001, FieldRef::Bool(*v))),
                PbMsg_oneof_reply::processes(v) => r.push((50002, FieldRef::Pids(v))),
                PbMsg_oneof_reply::services(v) => r.push((50003, FieldRef::Pids(v))),
                PbMsg_oneof_reply::members(v) => r.push((50004, FieldRef::Members(v))),
            }
        }
        proof {
            assert(lists_fields(
                r@,
                (match self.user_msg {
                    Some(v) => seq![(100000u32, FieldValue::Bytes(v))],
                    None => Seq::<(u32, FieldValue)>::empty(),
                }) + (match self.request {
                    Some(PbMsg_oneof_request::get_metrics(v)) => seq![(1u32, FieldValue::Bool(v))],
                    Some(PbMsg_oneof_request::start_timer(v)) => seq![(2u32, FieldValue::Uint64(v))],
                    Some(PbMsg_oneof_request::cancel_timer(v)) => seq![(3u32, FieldValue::Bool(v))],
                    Some(PbMsg_oneof_request::shutdown(v)) => seq![(4u32, FieldValue::Bool(v))],
                    Some(PbMsg_oneof_request::get_processes(v)) => seq![(5u32, FieldValue::NodeId(v))],
                    Some(PbMsg_oneof_request::get_services(v)) => seq![(6u32, FieldValue::NodeId(v))],
                    None => Seq::<(u32, FieldValue)>::empty(),
                }) + (match self.reply {
                    Some(PbMsg_oneof_reply::metrics(v)) => seq![(50000u32, FieldValue::Metrics(v))],
                    Some(PbMsg_oneof_reply::timeout(v)) => seq![(50001u32, FieldValue::Bool(v))],
                    Some(PbMsg_oneof_reply::processes(v)) => seq![(50002u32, FieldValue::Pids(v))],
                    Some(PbMsg_oneof_reply::services(v)) => seq![(50003u32, FieldValue::Pids(v))],
                    Some(PbMsg_oneof_reply::members(v)) => seq![(50004u32, FieldValue::Members(v))],
                    None => Seq::<(u32, FieldValue)>::empty(),
                }),
            ));
        }
        r
    }
}


impl PbMsg {
    /// The message in which nothing is set.
    pub open spec fn spec_empty() -> PbMsg {
        PbMsg { user_msg: None, request: None, reply: None }
    }

    /// The message after each of the fields was taken in, first to last.
    pub open spec fn merge_fields(self, fields: Seq<(u32, FieldValue)>) -> PbMsg
        decreases fields.len(),
    {
        if fields.len() == 0 {
            self
        } else {
            self.merge_fields(fields.drop_last()).with_field(fields.last().0, fields.last().1)
        }
    }

    /// Taking in two lists of fields one after the other comes to taking in
    /// the two as one list.
    pub proof fn lemma_merge_concat(
        self,
        first: Seq<(u32, FieldValue)>,
        second: Seq<(u32, FieldValue)>,
    )
        ensures
            self.merge_fields(first + second) == self.merge_fields(first).merge_fields(second),
        decreases second.len(),
    {
        if second.len() == 0 {
            assert(first + second =~= first);
        } else {
            self.lemma_merge_concat(first, second.drop_last());
            assert((first + second).drop_last() =~= first + second.drop_last());
        }
    }

    /// What a message writes it reads back: every field that it lists is of
    /// the kind that its number calls for, and an empty message that takes in
    /// the fields in their order is the message again.
    pub proof fn lemma_written_fields_read_back(self)
        ensures
            forall|i: int|
                0 <= i < self.spec_fields().len() ==> Self::spec_field_kind(
                    (#[trigger] self.spec_fields()[i]).0,
                ) == Some(self.spec_fields()[i].1.kind()),
            Self::spec_empty().merge_fields(self.spec_fields()) == self,
    {
        reveal_with_fuel(PbMsg::merge_fields, 3);
        let e = Self::spec_empty();
        let t0 = (match self.user_msg {
            Some(v) => seq![(100000u32, FieldValue::Bytes(v))],
            None => Seq::<(u32, FieldValue)>::empty(),
        });
        let all0 = t0;
        assert(t0.len() <= 1);
        if t0.len() == 1 {
            assert(t0.drop_last() =~= Seq::<(u32, FieldValue)>::empty());
        }
        let s0 = e.merge_fields(all0);
        assert(s0 == (PbMsg { user_msg: self.user_msg, request: None, reply: None }));
        let t1 = (match self.request {
            Some(PbMsg_oneof_request::get_metrics(v)) => seq![(1u32, FieldValue::Bool(v))],
            Some(PbMsg_oneof_request::start_timer(v)) => seq![(2u32, FieldValue::Uint64(v))],
            Some(PbMsg_oneof_request::cancel_timer(v)) => seq![(3u32, FieldValue::Bool(v))],
            Some(PbMsg_oneof_request::shutdown(v)) => seq![(4u32, FieldValue::Bool(v))],
            Some(PbMsg_oneof_request::get_processes(v)) => seq![(5u32, FieldValue::NodeId(v))],
            Some(PbMsg_oneof_request::get_services(v)) => seq![(6u32, FieldValue::NodeId(v))],
            None => Seq::<(u32, FieldValue)>::empty(),
        });
        let all1 = all0 + t1;
        Self::lemma_merge_concat(e, all0, t1);
        assert(t1.len() <= 1);
        if t1.len() == 1 {
            assert(t1.drop_last() =~= Seq::<(u32, FieldValue)>::empty());
        }
        let s1 = e.merge_fields(all1);
        assert(s1 == s0.merge_fields(t1));
        assert(s1 == (PbMsg { user_msg: self.user_msg, request: self.request, reply: None }));
        let t2 = (match self.reply {
            Some(PbMsg_oneof_reply::metrics(v)) => seq![(50000u32, FieldValue::Metrics(v))],
            Some(PbMsg_oneof_reply::timeout(v)) => seq![(50001u32, FieldValue::Bool(v))],
            Some(PbMsg_oneof_reply::processes(v)) => seq![(50002u32, FieldValue::Pids(v))],
            Some(PbMsg_oneof_reply::services(v)) => seq![(50003u32, FieldValue::Pids(v))],
            Some(PbMsg_oneof_reply::members(v)) => seq![(50004u32, FieldValue::Members(v))],
            None => Seq::<(u32, FieldValue)>::empty(),
        });
        let all2 = all1 + t2;
        Self::lemma_merge_concat(e, all1, t2);
        assert(t2.len() <= 1);
        if t2.len() == 1 {
            assert(t2.drop_last() =~= Seq::<(u32, FieldValue)>::empty());
        }
        let s2 = e.merge_fields(all2);
        assert(s2 == s1.merge_fields(t2));
        assert(s2 == (PbMsg { user_msg: self.user_msg, request: self.request, reply: self.reply }));
        assert(all2 =~= self.spec_fields());
    }
}

} // verus!
