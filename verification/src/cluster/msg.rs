//! The messages that a cluster server takes from its host and exchanges with
//! its peers.

use crate::correlation_id::CorrelationId;
use crate::envelope::Envelope;
use crate::node_id::NodeId;
use orset::Delta;
use orset::ORSet;
use vstd::prelude::*;

verus! {

/// What a socket is ready for.
#[derive(Debug, Clone, Copy, PartialEq, Eq, Structural)]
pub enum Event {
    Read,
    Write,
    Both,
}

/// The reactor's word that the registration `id` is ready for `event`.
#[derive(Debug, Clone, Copy, PartialEq, Eq, Structural)]
pub struct Notification {
    pub id: usize,
    pub event: Event,
}

/// Messages sent to the cluster server by its host.
#[derive(Debug)]
pub enum ClusterMsg<T> {
    PollNotifications(Vec<Notification>),
    Join(NodeId),
    Leave(NodeId),
    Envelope(Envelope<T>),
    GetStatus(CorrelationId),
    Shutdown,
}

/// A message sent between the cluster servers of two nodes.
#[derive(Debug)]
pub enum ExternalMsg<T> {
    /// The sender's identity and a snapshot of its member set.
    Members { from: NodeId, orset: ORSet<(String, String)> },
    /// A heartbeat.
    Ping,
    /// A message between actors on the two nodes.
    Envelope(Envelope<T>),
    /// One mutation of the member set.
    Delta(Delta<(String, String)>),
}

} // verus!
