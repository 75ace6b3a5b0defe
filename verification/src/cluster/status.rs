//! What a cluster server reports about itself.

use crate::node_id::NodeId;
use vstd::prelude::*;

verus! {

/// The membership, the peers with an established connection and the number of
/// connections of a cluster server.
#[derive(Debug, Clone, PartialEq, Eq)]
pub struct ClusterStatus {
    pub members: Vec<NodeId>,
    pub established: Vec<NodeId>,
    pub num_connections: usize,
}

} // verus!
