//! The node itself: the state that it keeps and the dispatcher that answers
//! one request after the other.

use crate::body::{Body, BodyView};
use crate::ident::format_id;
use crate::message::{Envelope, Message, Payload};
use crate::model::{deliver, run, lemma_run_ends, NodeError, NodeKind, NodeState};
use crate::response::Response;
use crate::topology::{clone_names, Topology};
use vstd::prelude::*;

verus! {

/// The messages of `messages` as the contracts see them.
pub open spec fn envelopes(messages: Seq<Message<Body>>) -> Seq<Envelope<BodyView>> {
    Seq::new(messages.len(), |i: int| messages[i]@)
}

/// A node: its kind and what it remembers from the requests it has answered.
#[derive(Debug)]
pub struct Node {
    kind: NodeKind,
    identity: Option<String>,
    delivered: Vec<usize>,
    topology: Topology,
    next_local_id: usize,
}

impl View for Node {
    type V = NodeState;

    closed spec fn view(&self) -> NodeState {
        NodeState {
            kind: self.kind,
            identity: match self.identity {
                Some(name) => Some(name@),
                None => None,
            },
            delivered: self.delivered@,
            topology: self.topology@,
            next_local_id: self.next_local_id,
        }
    }
}

impl Node {
    #[verifier::type_invariant]
    spec fn delivered_once(&self) -> bool {
        self.delivered@.no_duplicates()
    }

    /// A node of `kind` that has seen no request.
    pub fn new(kind: NodeKind) -> (node: Node)
        ensures
            node@ == NodeState::initial(kind),
            node@.wf(),
    {
        Node::with_counter(kind, 1)
    }

    /// A node of `kind` that has seen no request and makes its first
    /// identifier from `next_local_id`.
    pub fn with_counter(kind: NodeKind, next_local_id: usize) -> (node: Node)
        ensures
            node@ == NodeState::starting_at(kind, next_local_id),
            node@.wf(),
    {
        Node {
            kind,
            identity: None,
            delivered: Vec::new(),
            topology: Topology::new(),
            next_local_id,
        }
    }

    /// Which requests the node answers.
    pub fn kind(&self) -> (kind: NodeKind)
        ensures
            kind == self@.kind,
    {
        self.kind
    }

    /// The node's name, once `Init` has given it one.
    pub fn identity(&self) -> (identity: Option<&String>)
        ensures
            match identity {
                Some(name) => self@.identity == Some(name@),
                None => self@.identity is None,
            },
    {
        self.identity.as_ref()
    }

    /// The broadcast values seen so far, each once, in the order of their
    /// first arrival.
    pub fn delivered(&self) -> (delivered: &Vec<usize>)
        ensures
            delivered@ == self@.delivered,
            delivered@.no_duplicates(),
    {
        proof {
            use_type_invariant(self);
        }
        &self.delivered
    }

    /// Who neighbours whom, as the last `Topology` request said.
    pub fn topology(&self) -> (topology: &Topology)
        ensures
            topology@ == self@.topology,
    {
        &self.topology
    }

    /// The neighbours of this node: none where it has no name yet or the
    /// topology does not list it.
    pub fn neighbors(&self) -> (neighbors: Vec<String>)
        ensures
            neighbors.deep_view() == self@.neighbors(),
    {
        let found = match &self.identity {
            Some(name) => self.topology.get(name),
            None => None,
        };
        match found {
            Some(list) => clone_names(list),
            None => {
                let none: Vec<String> = Vec::new();
                assert(none.deep_view() =~= Seq::<Seq<char>>::empty());
                none
            },
        }
    }

    /// The counter that the next generated identifier is made from.
    pub fn next_local_id(&self) -> (counter: usize)
        ensures
            counter == self@.next_local_id,
    {
        self.next_local_id
    }

    /// Whether `message` has been delivered.
    fn has_delivered(&self, message: usize) -> (found: bool)
        ensures
            found == self@.delivered.contains(message),
    {
        let mut i: usize = 0;
        while i < self.delivered.len()
            invariant
                i <= self.delivered.len(),
                forall|j: int| 0 <= j < i ==> self.delivered@[j] != message,
            decreases self.delivered.len() - i,
        {
            if self.delivered[i] == message {
                return true;
            }
            i += 1;
        }
        false
    }

    /// Records `message` as delivered, unless it already is.
    fn record(&mut self, message: usize)
        ensures
            final(self)@ == (NodeState {
                delivered: deliver(old(self)@.delivered, message),
                ..old(self)@
            }),
    {
        proof {
            use_type_invariant(&*self);
        }
        if !self.has_delivered(message) {
            let mut delivered: Vec<usize> = Vec::new();
            std::mem::swap(&mut delivered, &mut self.delivered);
            delivered.push(message);
            self.delivered = delivered;
        }
    }

    /// Why the node refuses `request`, if it does.
    pub fn refusal(&self, request: &Message<Body>) -> (refused: Option<NodeError>)
        ensures
            refused == self@.failure(request@),
    {
        let body = &request.body.payload;
        if matches!(body, Body::Error { .. }) {
            return None;
        }
        if !self.kind.accepts(body) {
            return Some(NodeError::UnexpectedTag);
        }
        let numbered = matches!(body, Body::Echo { .. } | Body::Generate);
        let generate = matches!(body, Body::Generate);
        match request.body.msg_id {
            None => Some(NodeError::MissingMsgId),
            Some(id) => {
                if numbered && id == usize::MAX {
                    Some(NodeError::MsgIdExhausted)
                } else if generate && self.identity.is_none() {
                    Some(NodeError::NotInitialized)
                } else if generate && self.next_local_id == usize::MAX {
                    Some(NodeError::CounterExhausted)
                } else {
                    None
                }
            },
        }
    }
}

impl Response<Body> for Node {
    type MessageImpl = Message<Body>;

    /// Answers one request. A request that is refused leaves the node as it
    /// was. A reply goes back to the sender of the request in the name of its
    /// addressee and names the request's identifier as the one it answers.
    fn handle(&mut self, request: &Message<Body>) -> (outcome: Result<
        Option<Message<Body>>,
        NodeError,
    >)
        ensures
            final(self)@ == old(self)@.next(request@),
            final(self)@.wf(),
            match outcome {
                Ok(Some(reply)) => old(self)@.failure(request@) is None && old(self)@.reply(
                    request@,
                ) == Some(reply@),
                Ok(None) => old(self)@.failure(request@) is None && old(self)@.reply(request@)
                    is None,
                Err(error) => old(self)@.failure(request@) == Some(error),
            },
            outcome matches Ok(Some(reply)) ==> reply.src@ == request.dest@ && reply.dest@
                == request.src@ && reply.body.in_reply_to == request.body.msg_id,
            outcome is Err ==> final(self)@ == old(self)@,
    {
        proof {
            use_type_invariant(&*self);
        }
        if let Some(error) = self.refusal(request) {
            return Err(error);
        }
        let id = request.body.msg_id;
        let payload = match &request.body.payload {
            Body::Init { node_id, .. } => {
                self.identity = Some(node_id.clone());
                Payload { msg_id: None, in_reply_to: id, payload: Body::InitOk }
            },
            Body::Echo { echo } => {
                Payload::from_msg(id, Body::EchoOk { echo: echo.clone() }).unwrap()
            },
            Body::Generate => {
                let generated = format_id(self.identity.as_ref().unwrap(), self.next_local_id);
                self.next_local_id = self.next_local_id + 1;
                Payload::from_msg(id, Body::GenerateOk { id: generated }).unwrap()
            },
            Body::Broadcast { message } => {
                self.record(*message);
                Payload { msg_id: None, in_reply_to: id, payload: Body::BroadcastOk }
            },
            Body::Read => {
                let messages = self.delivered.clone();
                assert(messages@ =~= self.delivered@);
                Payload { msg_id: None, in_reply_to: id, payload: Body::ReadOk { messages } }
            },
            Body::Topology { topology } => {
                self.topology = topology.clone();
                Payload { msg_id: None, in_reply_to: id, payload: Body::TopologyOk }
            },
            _ => {
                return Ok(None);
            },
        };
        Ok(Some(Message::new(request, payload)))
    }

    /// Answers the requests of `input` in order and appends the replies to
    /// `output`. What `output` held before stays in front.
    fn run_loop(&mut self, input: &Vec<Message<Body>>, output: &mut Vec<Message<Body>>) -> (end:
        Result<(), NodeError>)
        ensures
            final(self)@ == run(old(self)@, envelopes(input@)).state,
            final(self)@.wf(),
            old(output)@.is_prefix_of(final(output)@),
            envelopes(final(output)@) == envelopes(old(output)@) + run(
                old(self)@,
                envelopes(input@),
            ).replies,
            end == run(old(self)@, envelopes(input@)).end,
    {
        proof {
            use_type_invariant(&*self);
        }
        let ghost before = self@;
        let ghost requests = envelopes(input@);
        let mut i: usize = 0;
        assert(envelopes(output@) =~= envelopes(old(output)@) + run(before, requests.take(0)).replies);
        while i < input.len()
            invariant
                i <= input.len(),
                before == old(self)@,
                requests == envelopes(input@),
                self@ == run(before, requests.take(i as int)).state,
                self@.wf(),
                run(before, requests.take(i as int)).end is Ok,
                old(output)@.is_prefix_of(output@),
                envelopes(output@) == envelopes(old(output)@) + run(
                    before,
                    requests.take(i as int),
                ).replies,
            decreases input.len() - i,
        {
            let ghost earlier = output@;
            proof {
                assert(requests.take(i + 1).drop_last() =~= requests.take(i as int));
                assert(requests.take(i + 1).last() == input@[i as int]@);
            }
            match self.handle(&input[i]) {
                Ok(Some(reply)) => {
                    output.push(reply);
                    assert(envelopes(output@) =~= envelopes(earlier).push(reply@));
                    assert(envelopes(output@) =~= envelopes(old(output)@) + run(
                        before,
                        requests.take(i + 1),
                    ).replies);
                },
                Ok(None) => {},
                Err(error) => {
                    proof {
                        lemma_run_ends(before, requests, i + 1);
                    }
                    return Err(error);
                },
            }
            i += 1;
        }
        assert(requests.take(i as int) =~= requests);
        Ok(())
    }
}

} // verus!
