//! What it is to answer the messages of a protocol, one at a time or a whole
//! input in order.

use crate::model::NodeError;
use vstd::prelude::*;

verus! {

/// A node that answers messages whose payload is `Body`. What a node answers
/// is for each implementation to state on its own methods.
pub trait Response<Body> {
    /// The messages that the node reads and writes.
    type MessageImpl;

    /// Answers one request: the reply, if the request calls for one, or the
    /// reason for which the run has to end.
    fn handle(&mut self, request: &Self::MessageImpl) -> Result<Option<Self::MessageImpl>, NodeError>;

    /// Answers the requests of `input` in order and appends the replies to
    /// `output`, in the order of the requests that they answer. The first
    /// request that is refused ends the run.
    fn run_loop(
        &mut self,
        input: &Vec<Self::MessageImpl>,
        output: &mut Vec<Self::MessageImpl>,
    ) -> Result<(), NodeError>;
}

} // verus!
