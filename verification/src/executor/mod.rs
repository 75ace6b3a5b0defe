//! What the cluster server hands to the executor of local actors.

pub mod msg;

pub use msg::ExecutorMsg;
