//! The node as a state machine: what it remembers, which requests it refuses,
//! what it replies and how a request changes it.

use crate::body::{Body, BodyView};
use crate::ident::generated_id;
use crate::message::Envelope;
use vstd::prelude::*;

verus! {

/// The set of requests that a node is built to answer. Every kind answers
/// `Init`, and none replies to an `Error`.
#[derive(Debug, Clone, Copy, PartialEq, Eq, Structural)]
pub enum NodeKind {
    /// Answers `Echo`.
    Echo,
    /// Answers `Generate`.
    UniqueIds,
    /// Answers `Broadcast`, `Read` and `Topology`.
    Broadcast,
    /// Answers `Echo` and `Generate`.
    Combined,
}

/// Why a node refuses a request. Each of them ends the run.
#[derive(Debug, Clone, Copy, PartialEq, Eq, Structural)]
pub enum NodeError {
    /// The request is not one that a node of this kind answers.
    UnexpectedTag,
    /// The request has no identifier that a reply could refer to.
    MissingMsgId,
    /// The reply would need the identifier after the request's, and there is
    /// none.
    MsgIdExhausted,
    /// An identifier was asked for before the node was told its name.
    NotInitialized,
    /// The local counter has reached its last value.
    CounterExhausted,
}

impl NodeKind {
    /// Whether a node of this kind answers requests like `body`.
    pub open spec fn answers(self, body: BodyView) -> bool {
        match body {
            BodyView::Init { .. } => true,
            BodyView::Echo { .. } => self == NodeKind::Echo || self == NodeKind::Combined,
            BodyView::Generate => self == NodeKind::UniqueIds || self == NodeKind::Combined,
            BodyView::Broadcast { .. } => self == NodeKind::Broadcast,
            BodyView::Read => self == NodeKind::Broadcast,
            BodyView::Topology { .. } => self == NodeKind::Broadcast,
            _ => false,
        }
    }
}

impl NodeKind {
    /// Whether a node of this kind answers requests like `body`.
    pub fn accepts(&self, body: &Body) -> (accepted: bool)
        ensures
            accepted == self.answers(body@),
    {
        match body {
            Body::Init { .. } => true,
            Body::Echo { .. } => matches!(self, NodeKind::Echo | NodeKind::Combined),
            Body::Generate => matches!(self, NodeKind::UniqueIds | NodeKind::Combined),
            Body::Broadcast { .. } => matches!(self, NodeKind::Broadcast),
            Body::Read => matches!(self, NodeKind::Broadcast),
            Body::Topology { .. } => matches!(self, NodeKind::Broadcast),
            _ => false,
        }
    }
}

/// The delivered values after `message` arrives: a value that was there
/// before is not recorded again.
pub open spec fn deliver(delivered: Seq<usize>, message: usize) -> Seq<usize> {
    if delivered.contains(message) {
        delivered
    } else {
        delivered.push(message)
    }
}

/// What a node remembers between requests.
pub struct NodeState {
    /// Which requests the node answers.
    pub kind: NodeKind,
    /// The node's name, once `Init` has given it one.
    pub identity: Option<Seq<char>>,
    /// The broadcast values seen so far, each once, in the order of their
    /// first arrival.
    pub delivered: Seq<usize>,
    /// For each node that the last `Topology` named, its neighbours.
    pub topology: Map<Seq<char>, Seq<Seq<char>>>,
    /// The counter that the next generated identifier is made from.
    pub next_local_id: usize,
}

impl NodeState {
    /// The state of a node of `kind` that has seen no request and counts from
    /// `counter`.
    pub open spec fn starting_at(kind: NodeKind, counter: usize) -> NodeState {
        NodeState {
            kind,
            identity: None,
            delivered: Seq::empty(),
            topology: Map::empty(),
            next_local_id: counter,
        }
    }

    /// The state of a node of `kind` that has seen no request. It counts from
    /// one.
    pub open spec fn initial(kind: NodeKind) -> NodeState {
        Self::starting_at(kind, 1)
    }

    /// No delivered value is recorded twice.
    pub open spec fn wf(self) -> bool {
        self.delivered.no_duplicates()
    }

    /// The neighbours of this node: those that the topology lists under its
    /// name, and none where it has no name or the topology does not list it.
    pub open spec fn neighbors(self) -> Seq<Seq<char>> {
        match self.identity {
            Some(name) if self.topology.contains_key(name) => self.topology[name],
            _ => Seq::empty(),
        }
    }

    /// Why the node refuses `request`, if it does.
    pub open spec fn failure(self, request: Envelope<BodyView>) -> Option<NodeError> {
        if request.payload is Error {
            None
        } else if !self.kind.answers(request.payload) {
            Some(NodeError::UnexpectedTag)
        } else if request.msg_id is None {
            Some(NodeError::MissingMsgId)
        } else if request.payload.reply_is_numbered() && request.msg_id == Some(usize::MAX) {
            Some(NodeError::MsgIdExhausted)
        } else if request.payload is Generate && self.identity is None {
            Some(NodeError::NotInitialized)
        } else if request.payload is Generate && self.next_local_id == usize::MAX {
            Some(NodeError::CounterExhausted)
        } else {
            None
        }
    }

    /// The identifier that the reply to `request` carries as its own.
    pub open spec fn reply_msg_id(request: Envelope<BodyView>) -> Option<usize> {
        match request.msg_id {
            Some(id) if request.payload.reply_is_numbered() && id < usize::MAX => Some(
                (id + 1) as usize,
            ),
            _ => None,
        }
    }

    /// What the reply to `request` carries, if the node replies to it.
    pub open spec fn reply_body(self, request: Envelope<BodyView>) -> Option<BodyView> {
        if self.failure(request) is Some {
            None
        } else {
            match request.payload {
                BodyView::Init { .. } => Some(BodyView::InitOk),
                BodyView::Echo { echo } => Some(BodyView::EchoOk { echo }),
                BodyView::Generate => Some(
                    BodyView::GenerateOk {
                        id: generated_id(self.identity.unwrap(), self.next_local_id as nat),
                    },
                ),
                BodyView::Broadcast { .. } => Some(BodyView::BroadcastOk),
                BodyView::Read => Some(BodyView::ReadOk { messages: self.delivered }),
                BodyView::Topology { .. } => Some(BodyView::TopologyOk),
                _ => None,
            }
        }
    }

    /// The reply to `request`, if the node replies to it.
    pub open spec fn reply(self, request: Envelope<BodyView>) -> Option<Envelope<BodyView>> {
        match self.reply_body(request) {
            Some(body) => Some(request.answer(Self::reply_msg_id(request), body)),
            None => None,
        }
    }

    /// The state after `request`. A request that is refused changes nothing.
    pub open spec fn next(self, request: Envelope<BodyView>) -> NodeState {
        if self.failure(request) is Some {
            self
        } else {
            match request.payload {
                BodyView::Init { node_id, .. } => NodeState { identity: Some(node_id), ..self },
                BodyView::Generate => NodeState {
                    next_local_id: (self.next_local_id + 1) as usize,
                    ..self
                },
                BodyView::Broadcast { message } => NodeState {
                    delivered: deliver(self.delivered, message),
                    ..self
                },
                BodyView::Topology { topology } => NodeState { topology, ..self },
                _ => self,
            }
        }
    }
}

/// What a run over a sequence of requests comes to.
pub struct Run {
    /// The state that the node is left in.
    pub state: NodeState,
    /// The replies, in the order of the requests that they answer.
    pub replies: Seq<Envelope<BodyView>>,
    /// Whether every request was taken, or why one was refused.
    pub end: Result<(), NodeError>,
}

/// The run of a node that starts in `state` and is handed `requests` one after
/// the other. The first request that is refused ends it: nothing that follows
/// is looked at.
pub open spec fn run(state: NodeState, requests: Seq<Envelope<BodyView>>) -> Run
    decreases requests.len(),
{
    if requests.len() == 0 {
        Run { state, replies: Seq::empty(), end: Ok(()) }
    } else {
        let earlier = run(state, requests.drop_last());
        let request = requests.last();
        if earlier.end is Err {
            earlier
        } else {
            match earlier.state.failure(request) {
                Some(error) => Run { end: Err(error), ..earlier },
                None => Run {
                    state: earlier.state.next(request),
                    replies: match earlier.state.reply(request) {
                        Some(reply) => earlier.replies.push(reply),
                        None => earlier.replies,
                    },
                    end: Ok(()),
                },
            }
        }
    }
}

/// A run that has ended with a refusal is not changed by further requests.
pub proof fn lemma_run_ends(state: NodeState, requests: Seq<Envelope<BodyView>>, n: int)
    requires
        0 <= n <= requests.len(),
        run(state, requests.take(n)).end is Err,
    ensures
        run(state, requests) == run(state, requests.take(n)),
    decreases requests.len(),
{
    if n == requests.len() {
        assert(requests.take(n) =~= requests);
    } else {
        assert(requests.drop_last().take(n) =~= requests.take(n));
        lemma_run_ends(state, requests.drop_last(), n);
    }
}

} // verus!
