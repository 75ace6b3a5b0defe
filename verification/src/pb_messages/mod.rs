//! The messages of the wire schema, as plain values: each field is set or
//! unset, and the accessors say what an unset field reads as. Each message
//! knows its fields by their numbers: what kind of value a field takes in, what
//! it has to write, and how many bytes it takes on the wire.

pub mod cluster;
pub mod correlation_id;
pub mod envelope;
pub mod field;
pub mod members;
pub mod metrics;
pub mod msg;
pub mod node_id;
pub mod pid;
pub mod size;

pub use cluster::ClusterServerMsg;
pub use cluster::ClusterServerMsg_oneof_msg;
pub use correlation_id::CorrelationId;
pub use envelope::Envelope;
pub use field::FieldKind;
pub use field::FieldRef;
pub use field::FieldValue;
pub use field::WireKind;
pub use members::Member;
pub use members::MemberORSet;
pub use members::Members;
pub use metrics::Metric;
pub use metrics::Metric_oneof_metric;
pub use metrics::Metrics;
pub use msg::PbMsg;
pub use msg::PbMsg_oneof_reply;
pub use msg::PbMsg_oneof_request;
pub use node_id::NodeId;
pub use pid::Pid;
pub use pid::Pids;
