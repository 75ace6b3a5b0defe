//! Cluster membership and inter-node transport for a distributed actor runtime.
//!
//! The crate holds the decision logic of a cluster server: the replicated
//! member set, the connection table with its peer handshake, the timing wheel
//! that detects silent peers, and the reconciliation of connections against
//! membership. Sockets, the reactor and the wire encoders live with the caller,
//! which feeds the server events and carries out the actions it returns.
//!
//! - [`cluster`] is the server: its state machine in [`cluster::server`], the
//!   mathematical model of its state and the laws of that model in
//!   [`cluster::model`], and what it asks of its host in [`cluster::action`].
//! - [`members`] is the member set, an observed-remove set kept by the `orset`
//!   crate; [`crdt`] is its model with the laws of convergence.
//! - [`timer_wheel`] is the timing wheel with the laws of its liveness.
//! - [`node_id`], [`pid`], [`correlation_id`], [`envelope`] and [`msg`] are what
//!   nodes and actors exchange, [`pb_messages`] the wire schema of it.

pub mod actor_msg;
pub mod cluster;
pub mod correlation_id;
pub mod crdt;
pub mod envelope;
pub mod errors;
pub mod executor;
pub mod members;
pub mod metrics;
pub mod msg;
pub mod node_id;
pub mod pb_messages;
pub mod pid;
pub mod timer_wheel;
pub mod user_msg;

pub use actor_msg::ActorMsg;
pub use cluster::ClusterMsg;
pub use cluster::ClusterServer;
pub use cluster::ClusterStatus;
pub use cluster::ExternalMsg;
pub use correlation_id::CorrelationId;
pub use envelope::Envelope;
pub use errors::ErrorKind;
pub use executor::ExecutorMsg;
pub use members::Members;
pub use metrics::Metric;
pub use msg::Msg;
pub use msg::Req;
pub use msg::Rpy;
pub use node_id::NodeId;
pub use pid::Pid;
pub use timer_wheel::TimerWheel;
pub use user_msg::UserMsg;
