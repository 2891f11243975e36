//! What a message carries: one case for each kind of request, reply and error
//! report of the protocol.

use crate::topology::Topology;
use vstd::prelude::*;

verus! {

/// The typed payload of a message. A request and the reply that answers it
/// stand next to each other.
#[derive(Debug, Clone, PartialEq, Eq)]
pub enum Body {
    /// Tells the node its name and the names of all nodes of the cluster.
    Init { node_id: String, node_ids: Vec<String> },
    InitOk,
    /// Asks for `echo` to be sent back.
    Echo { echo: String },
    EchoOk { echo: String },
    /// Asks for a fresh identifier.
    Generate,
    GenerateOk { id: String },
    /// Hands the node a value to record as delivered.
    Broadcast { message: usize },
    BroadcastOk,
    /// Asks for the values delivered so far.
    Read,
    ReadOk { messages: Vec<usize> },
    /// Replaces what the node knows of who neighbours whom.
    Topology { topology: Topology },
    TopologyOk,
    /// A peer's report of a failure. It is never answered.
    Error { code: usize, text: String },
}

/// A payload as the contracts see it: texts as sequences of characters, lists
/// as sequences, the topology as a map.
pub enum BodyView {
    Init { node_id: Seq<char>, node_ids: Seq<Seq<char>> },
    InitOk,
    Echo { echo: Seq<char> },
    EchoOk { echo: Seq<char> },
    Generate,
    GenerateOk { id: Seq<char> },
    Broadcast { message: usize },
    BroadcastOk,
    Read,
    ReadOk { messages: Seq<usize> },
    Topology { topology: Map<Seq<char>, Seq<Seq<char>>> },
    TopologyOk,
    Error { code: usize, text: Seq<char> },
}

impl View for Body {
    type V = BodyView;

    open spec fn view(&self) -> BodyView {
        match *self {
            Body::Init { node_id, node_ids } => BodyView::Init {
                node_id: node_id@,
                node_ids: node_ids.deep_view(),
            },
            Body::InitOk => BodyView::InitOk,
            Body::Echo { echo } => BodyView::Echo { echo: echo@ },
            Body::EchoOk { echo } => BodyView::EchoOk { echo: echo@ },
            Body::Generate => BodyView::Generate,
            Body::GenerateOk { id } => BodyView::GenerateOk { id: id@ },
            Body::Broadcast { message } => BodyView::Broadcast { message },
            Body::BroadcastOk => BodyView::BroadcastOk,
            Body::Read => BodyView::Read,
            Body::ReadOk { messages } => BodyView::ReadOk { messages: messages@ },
            Body::Topology { topology } => BodyView::Topology { topology: topology@ },
            Body::TopologyOk => BodyView::TopologyOk,
            Body::Error { code, text } => BodyView::Error { code, text: text@ },
        }
    }
}

impl BodyView {
    /// Whether this is one of the requests that a node may be asked to answer.
    pub open spec fn is_request(self) -> bool {
        self is Init || self is Echo || self is Generate || self is Broadcast || self is Read
            || self is Topology
    }

    /// Whether the reply to this request carries an identifier of its own.
    pub open spec fn reply_is_numbered(self) -> bool {
        self is Echo || self is Generate
    }
}

} // verus!
