//! The bodies that actors exchange.

use crate::pb_messages::PbMsg;
use vstd::prelude::*;

verus! {

/// A message body that has a wire form.
pub trait ActorMsg: Clone + PartialEq + From<PbMsg> + Into<PbMsg> {

}

} // verus!
