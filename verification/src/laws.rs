//! What holds of every node, whatever it is asked.

use crate::body::BodyView;
use crate::ident::{generated_id, lemma_generated_id_injective};
use crate::message::Envelope;
use crate::model::{deliver, run, NodeState};
use vstd::prelude::*;

verus! {

/// A node replies exactly to the requests that it does not refuse; an `Error`
/// and whatever is no request get no reply.
pub proof fn law_requests_are_answered(state: NodeState, request: Envelope<BodyView>)
    ensures
        state.reply(request) is Some <==> state.failure(request) is None
            && request.payload.is_request(),
        request.payload is Error ==> state.failure(request) is None && state.reply(request)
            is None,
        !request.payload.is_request() && !(request.payload is Error) ==> state.failure(request)
            is Some,
{
}

/// A reply names the identifier of the request as the one it answers, and
/// goes back to the sender of the request in the name of its addressee.
pub proof fn law_round_trip(state: NodeState, request: Envelope<BodyView>)
    requires
        state.reply(request) is Some,
    ensures
        request.msg_id is Some,
        state.reply(request).unwrap().in_reply_to == request.msg_id,
        state.reply(request).unwrap().src == request.dest,
        state.reply(request).unwrap().dest == request.src,
{
}

/// The reply to an `Echo` carries the text of the request, unchanged.
pub proof fn law_echo_identity(state: NodeState, request: Envelope<BodyView>, text: Seq<char>)
    requires
        request.payload == (BodyView::Echo { echo: text }),
        state.failure(request) is None,
    ensures
        state.reply(request) is Some,
        state.reply(request).unwrap().payload == (BodyView::EchoOk { echo: text }),
{
}

/// A value that is delivered again changes nothing: it is recorded once,
/// however often it arrives, and no value is recorded twice.
pub proof fn law_delivery_idempotent(delivered: Seq<usize>, message: usize)
    requires
        delivered.no_duplicates(),
    ensures
        deliver(delivered, message).no_duplicates(),
        deliver(delivered, message).contains(message),
        deliver(deliver(delivered, message), message) == deliver(delivered, message),
        forall|i: int, j: int|
            0 <= i < deliver(delivered, message).len() && 0 <= j < deliver(delivered, message).len()
                && deliver(delivered, message)[i] == message && deliver(delivered, message)[j]
                == message ==> i == j,
{
    let after = deliver(delivered, message);
    if !delivered.contains(message) {
        assert(after[delivered.len() as int] == message);
        assert forall|i: int, j: int| 0 <= i < after.len() && 0 <= j < after.len() && i != j implies after[i]
            != after[j] by {
            if i < delivered.len() {
                assert(delivered[i] == after[i]);
            }
            if j < delivered.len() {
                assert(delivered[j] == after[j]);
            }
        }
    }
}

/// After the same value was broadcast twice, a `Read` is answered with the
/// values that were there after the first broadcast: the second adds nothing.
pub proof fn law_broadcast_twice_then_read(
    state: NodeState,
    first: Envelope<BodyView>,
    second: Envelope<BodyView>,
    read: Envelope<BodyView>,
    message: usize,
)
    requires
        state.wf(),
        first.payload == (BodyView::Broadcast { message }),
        second.payload == (BodyView::Broadcast { message }),
        read.payload == BodyView::Read,
        state.failure(first) is None,
        state.failure(second) is None,
        state.failure(read) is None,
    ensures
        state.next(first).next(second) == state.next(first),
        state.next(first).next(second).reply(read).unwrap().payload == (BodyView::ReadOk {
            messages: deliver(state.delivered, message),
        }),
        deliver(state.delivered, message).no_duplicates(),
        deliver(state.delivered, message).contains(message),
{
    law_delivery_idempotent(state.delivered, message);
}

/// A `Topology` request replaces what the node knew: after two of them only
/// the second counts.
pub proof fn law_topology_replaces(
    state: NodeState,
    first: Envelope<BodyView>,
    second: Envelope<BodyView>,
    earlier: Map<Seq<char>, Seq<Seq<char>>>,
    later: Map<Seq<char>, Seq<Seq<char>>>,
)
    requires
        first.payload == (BodyView::Topology { topology: earlier }),
        second.payload == (BodyView::Topology { topology: later }),
        state.failure(first) is None,
        state.failure(second) is None,
    ensures
        state.next(first).topology == earlier,
        state.next(first).next(second).topology == later,
        state.next(first).next(second) == state.next(second),
{
}

/// A request keeps the state well formed, never takes a delivered value away
/// and never sets the counter back; a `Generate` that is answered moves the
/// counter on.
pub proof fn law_state_grows(state: NodeState, request: Envelope<BodyView>)
    requires
        state.wf(),
    ensures
        state.next(request).wf(),
        state.next(request).kind == state.kind,
        state.delivered.is_prefix_of(state.next(request).delivered),
        state.next(request).next_local_id >= state.next_local_id,
        request.payload is Generate && state.failure(request) is None ==> state.next(
            request,
        ).next_local_id == state.next_local_id + 1,
{
    if let BodyView::Broadcast { message } = request.payload {
        law_delivery_idempotent(state.delivered, message);
    }
}

/// A run leaves the state well formed: however often a value is delivered,
/// it is recorded once.
pub proof fn law_run_stays_well_formed(state: NodeState, requests: Seq<Envelope<BodyView>>)
    requires
        state.wf(),
    ensures
        run(state, requests).state.wf(),
        state.delivered.is_prefix_of(run(state, requests).state.delivered),
    decreases requests.len(),
{
    if requests.len() > 0 {
        law_run_stays_well_formed(state, requests.drop_last());
        law_state_grows(run(state, requests.drop_last()).state, requests.last());
    }
}

/// Whether `reply` carries an identifier that was made from a counter from
/// `low` up to, and not including, `high`.
spec fn issued_between(reply: Envelope<BodyView>, low: int, high: int) -> bool {
    reply.payload matches BodyView::GenerateOk { id } ==> exists|name: Seq<char>, counter: nat|
        low <= counter < high && id == #[trigger] generated_id(name, counter)
}

/// Over a run the counter never goes back, and every identifier that a reply
/// carries was made from a counter that the run has used up.
proof fn lemma_run_issues(state: NodeState, requests: Seq<Envelope<BodyView>>)
    ensures
        run(state, requests).state.next_local_id >= state.next_local_id,
        forall|i: int|
            0 <= i < run(state, requests).replies.len() ==> issued_between(
                #[trigger] run(state, requests).replies[i],
                state.next_local_id as int,
                run(state, requests).state.next_local_id as int,
            ),
    decreases requests.len(),
{
    if requests.len() > 0 {
        let earlier = run(state, requests.drop_last());
        let request = requests.last();
        let after = run(state, requests);
        lemma_run_issues(state, requests.drop_last());
        assert forall|i: int| 0 <= i < after.replies.len() implies issued_between(
            #[trigger] after.replies[i],
            state.next_local_id as int,
            after.state.next_local_id as int,
        ) by {
            if i < earlier.replies.len() {
                assert(after.replies[i] == earlier.replies[i]);
                assert(issued_between(
                    earlier.replies[i],
                    state.next_local_id as int,
                    earlier.state.next_local_id as int,
                ));
            } else if request.payload is Generate {
                assert(after.replies[i].payload == (BodyView::GenerateOk {
                    id: generated_id(
                        earlier.state.identity.unwrap(),
                        earlier.state.next_local_id as nat,
                    ),
                }));
            }
        }
    }
}

/// The identifiers that a node generates in one run are pairwise distinct,
/// whatever else it is asked in between.
pub proof fn law_generated_ids_differ(
    state: NodeState,
    requests: Seq<Envelope<BodyView>>,
    i: int,
    j: int,
)
    requires
        0 <= i < j < run(state, requests).replies.len(),
        run(state, requests).replies[i].payload is GenerateOk,
        run(state, requests).replies[j].payload is GenerateOk,
    ensures
        run(state, requests).replies[i].payload->id != run(state, requests).replies[j].payload->id,
    decreases requests.len(),
{
    let earlier = run(state, requests.drop_last());
    let request = requests.last();
    let after = run(state, requests);
    if j < earlier.replies.len() {
        assert(after.replies[i] == earlier.replies[i]);
        assert(after.replies[j] == earlier.replies[j]);
        law_generated_ids_differ(state, requests.drop_last(), i, j);
    } else {
        lemma_run_issues(state, requests.drop_last());
        assert(after.replies[i] == earlier.replies[i]);
        assert(issued_between(
            earlier.replies[i],
            state.next_local_id as int,
            earlier.state.next_local_id as int,
        ));
        let first = after.replies[i].payload->id;
        let (name, counter) = choose|name: Seq<char>, counter: nat|
            state.next_local_id <= counter < earlier.state.next_local_id && first
                == #[trigger] generated_id(name, counter);
        assert(request.payload is Generate);
        let second = generated_id(
            earlier.state.identity.unwrap(),
            earlier.state.next_local_id as nat,
        );
        assert(after.replies[j].payload->id == second);
        if first == second {
            lemma_generated_id_injective(
                name,
                counter,
                earlier.state.identity.unwrap(),
                earlier.state.next_local_id as nat,
            );
        }
    }
}

} // verus!
