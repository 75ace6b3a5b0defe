//! Messages to the executor.

use crate::envelope::Envelope;
use crate::pid::Pid;
use vstd::prelude::*;

verus! {

/// A message that the executor accepts.
#[derive(Debug, Clone, PartialEq, Eq)]
pub enum ExecutorMsg<T> {
    Stop(Pid),
    Envelope(Envelope<T>),
    Shutdown,
    Tick,
}

} // verus!
