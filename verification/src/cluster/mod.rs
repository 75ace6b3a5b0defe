//! The cluster server: membership, connections and their liveness.

pub mod action;
pub mod established;
pub mod listing;
pub mod metrics;
pub mod model;
pub mod msg;
pub mod server;
pub mod status;

pub use action::Action;
pub use metrics::ClusterMetrics;
pub use msg::ClusterMsg;
pub use msg::Event;
pub use msg::ExternalMsg;
pub use msg::Notification;
pub use server::ClusterServer;
pub use server::Conn;
pub use status::ClusterStatus;
