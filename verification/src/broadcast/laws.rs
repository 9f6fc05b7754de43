//! What holds of every broadcast node, whatever it is sent.

use vstd::prelude::*;
use crate::broadcast::model::{initial, is_request, run, step, BroadcastState, Envelope};
use crate::broadcast::payload::PayloadView;
use crate::node::InitView;

verus! {

/// Whether the node named `node` answers `input` with a reply, as long as it
/// has an identifier to give: `input` is a request, and a topology among the
/// requests names the node.
pub open spec fn is_answered(node: Seq<char>, input: Envelope) -> bool {
    &&& is_request(input.payload)
    &&& input.payload matches PayloadView::Topology { topology } ==> topology.contains_key(node)
}

/// A run leaves the node's name as it was.
pub proof fn lemma_run_keeps_name(state: BroadcastState, inputs: Seq<Envelope>)
    ensures
        run(state, inputs).state.node == state.node,
    decreases inputs.len(),
{
    if inputs.len() > 0 {
        lemma_run_keeps_name(state, inputs.drop_last());
    }
}

/// Values are never taken back: whatever the node held before a step it holds
/// after it. The node's name stays, and so does what it has noted of its peers.
pub proof fn lemma_step_keeps_values(state: BroadcastState, input: Envelope)
    ensures
        step(state, input) matches Ok((next, _)) ==> {
            &&& state.messages.subset_of(next.messages)
            &&& next.node == state.node
            &&& next.known == state.known
            &&& next.msg_communicated == state.msg_communicated
        },
{
}

/// Values are never taken back over a whole run either.
pub proof fn lemma_run_keeps_values(state: BroadcastState, inputs: Seq<Envelope>)
    ensures
        state.messages.subset_of(run(state, inputs).state.messages),
    decreases inputs.len(),
{
    if inputs.len() > 0 {
        lemma_run_keeps_values(state, inputs.drop_last());
        lemma_step_keeps_values(run(state, inputs.drop_last()).state, inputs.last());
    }
}

/// Reply identifiers count up by one. If every one of `inputs` is answered,
/// and the node has identifiers for all of them, then the run does not fail,
/// there is one reply for each input, in order, and the reply to input `i`
/// carries the node's identifier at the start plus `i`.
pub proof fn lemma_reply_ids_count_up(state: BroadcastState, inputs: Seq<Envelope>)
    requires
        forall|i: int| 0 <= i < inputs.len() ==> is_answered(state.node, #[trigger] inputs[i]),
        state.id + inputs.len() <= usize::MAX,
    ensures
        run(state, inputs).failure is None,
        run(state, inputs).state.id == state.id + inputs.len(),
        run(state, inputs).replies.len() == inputs.len(),
        forall|i: int|
            0 <= i < inputs.len() ==> {
                &&& (#[trigger] run(state, inputs).replies[i]).id == Some((state.id + i) as usize)
                &&& run(state, inputs).replies[i].in_reply_to == inputs[i].id
                &&& run(state, inputs).replies[i].src == inputs[i].dst
                &&& run(state, inputs).replies[i].dst == inputs[i].src
            },
    decreases inputs.len(),
{
    if inputs.len() > 0 {
        let earlier = inputs.drop_last();
        assert forall|i: int| 0 <= i < earlier.len() implies is_answered(
            state.node,
            #[trigger] earlier[i],
        ) by {
            assert(earlier[i] == inputs[i]);
        }
        lemma_reply_ids_count_up(state, earlier);
        lemma_run_keeps_name(state, earlier);
        assert(is_answered(state.node, inputs[inputs.len() - 1]));
        let before = run(state, earlier);
        let last = inputs.last();
        assert(step(before.state, last) is Ok);
        assert forall|i: int| 0 <= i < inputs.len() implies {
            &&& (#[trigger] run(state, inputs).replies[i]).id == Some((state.id + i) as usize)
            &&& run(state, inputs).replies[i].in_reply_to == inputs[i].id
            &&& run(state, inputs).replies[i].src == inputs[i].dst
            &&& run(state, inputs).replies[i].dst == inputs[i].src
        } by {
            if i < earlier.len() {
                assert(run(state, inputs).replies[i] == before.replies[i]);
                assert(earlier[i] == inputs[i]);
            }
        }
    }
}

/// A node fresh from the handshake numbers its replies 1, 2, 3, ...: if every
/// one of `inputs` is answered, the reply to input `i` carries `i + 1`.
pub proof fn lemma_fresh_node_counts_from_one(init: InitView, inputs: Seq<Envelope>)
    requires
        forall|i: int| 0 <= i < inputs.len() ==> is_answered(init.node_id, #[trigger] inputs[i]),
        inputs.len() < usize::MAX,
    ensures
        run(initial(init), inputs).failure is None,
        run(initial(init), inputs).replies.len() == inputs.len(),
        forall|i: int|
            0 <= i < inputs.len() ==> (#[trigger] run(initial(init), inputs).replies[i]).id == Some(
                (i + 1) as usize,
            ),
{
    lemma_reply_ids_count_up(initial(init), inputs);
}

/// Whether `inputs` is one `Broadcast` for each of `values`, in order.
pub open spec fn broadcasts_of(inputs: Seq<Envelope>, values: Seq<usize>) -> bool {
    &&& inputs.len() == values.len()
    &&& forall|i: int|
        0 <= i < inputs.len() ==> (#[trigger] inputs[i]).payload == (PayloadView::Broadcast {
            message: values[i],
        })
}

/// After one `Broadcast` for each of `values`, the node holds what it held
/// before and the values, each once however often it came.
pub proof fn lemma_broadcasts_collect(state: BroadcastState, inputs: Seq<Envelope>, values: Seq<usize>)
    requires
        broadcasts_of(inputs, values),
        state.id + inputs.len() <= usize::MAX,
    ensures
        run(state, inputs).failure is None,
        run(state, inputs).state.id == state.id + inputs.len(),
        run(state, inputs).state.messages == state.messages.union(values.to_set()),
    decreases inputs.len(),
{
    if inputs.len() == 0 {
        assert(values.to_set() =~= Set::<usize>::empty());
        assert(state.messages.union(values.to_set()) =~= state.messages);
    } else {
        let earlier = inputs.drop_last();
        let fewer = values.drop_last();
        assert forall|i: int| 0 <= i < earlier.len() implies (#[trigger] earlier[i]).payload == (
        PayloadView::Broadcast { message: fewer[i] }) by {
            assert(earlier[i] == inputs[i]);
        }
        lemma_broadcasts_collect(state, earlier, fewer);
        assert(inputs.last() == inputs[inputs.len() - 1]);
        assert(values.to_set() =~= fewer.to_set().insert(values.last())) by {
            assert forall|v: usize| values.contains(v) <==> fewer.contains(v) || v == values.last() by {
                if values.contains(v) {
                    let i = choose|i: int| 0 <= i < values.len() && values[i] == v;
                    if i < fewer.len() {
                        assert(fewer[i] == v);
                    }
                }
                if fewer.contains(v) {
                    let i = choose|i: int| 0 <= i < fewer.len() && fewer[i] == v;
                    assert(values[i] == v);
                }
                if v == values.last() {
                    assert(values[values.len() - 1] == v);
                }
            }
        }
        assert(run(state, inputs).state.messages =~= state.messages.union(values.to_set()));
    }
}

/// A `Read` reports every `Broadcast` that came before it. After one
/// `Broadcast` for each of `values` and then `read`, the run has not failed
/// and its last reply is a `ReadOk` to `read` with what the node held at the
/// start and the values, whatever their order and however often each came.
pub proof fn lemma_read_reflects_broadcasts(
    state: BroadcastState,
    inputs: Seq<Envelope>,
    values: Seq<usize>,
    read: Envelope,
)
    requires
        broadcasts_of(inputs, values),
        read.payload is Read,
        state.id + inputs.len() + 1 <= usize::MAX,
    ensures
        run(state, inputs.push(read)).failure is None,
        run(state, inputs.push(read)).replies.len() > 0,
        run(state, inputs.push(read)).replies.last() == read.reply(
            Some((state.id + inputs.len()) as usize),
            PayloadView::ReadOk { messages: state.messages.union(values.to_set()) },
        ),
{
    lemma_broadcasts_collect(state, inputs, values);
    assert(inputs.push(read).drop_last() =~= inputs);
    assert(inputs.push(read).last() == read);
}

/// On a node fresh from the handshake, a `Read` after one `Broadcast` for each
/// of `values` reports exactly the set of those values.
pub proof fn lemma_fresh_read_reports_values(
    init: InitView,
    inputs: Seq<Envelope>,
    values: Seq<usize>,
    read: Envelope,
)
    requires
        broadcasts_of(inputs, values),
        read.payload is Read,
        inputs.len() + 1 < usize::MAX,
    ensures
        run(initial(init), inputs.push(read)).failure is None,
        run(initial(init), inputs.push(read)).replies.len() > 0,
        run(initial(init), inputs.push(read)).replies.last().payload == (PayloadView::ReadOk {
            messages: values.to_set(),
        }),
{
    lemma_read_reflects_broadcasts(initial(init), inputs, values, read);
    assert(initial(init).messages.union(values.to_set()) =~= values.to_set());
}

/// A second `Broadcast` of a value changes nothing in what the node holds,
/// yet it is answered like the first: each of the two gets a `BroadcastOk`
/// of its own.
pub proof fn lemma_broadcast_twice(state: BroadcastState, first: Envelope, second: Envelope, value: usize)
    requires
        first.payload == (PayloadView::Broadcast { message: value }),
        second.payload == (PayloadView::Broadcast { message: value }),
        state.id + 2 <= usize::MAX,
    ensures
        step(state, first) matches Ok((once, Some(ack))) && {
            &&& once.messages == state.messages.insert(value)
            &&& ack == first.reply(Some(state.id), PayloadView::BroadcastOk)
            &&& step(once, second) matches Ok((twice, Some(again))) && {
                &&& twice.messages == once.messages
                &&& again == second.reply(Some((state.id + 1) as usize), PayloadView::BroadcastOk)
            }
        },
        run(state, seq![first, second]).failure is None,
        run(state, seq![first, second]).state.messages == run(state, seq![first]).state.messages,
        run(state, seq![first, second]).replies.len() == 2,
{
    let one = seq![first];
    let two = seq![first, second];
    assert(one.drop_last() =~= Seq::<Envelope>::empty());
    assert(one.last() == first);
    assert(two.drop_last() =~= one);
    assert(two.last() == second);
    reveal_with_fuel(run, 3);
    let once = step(state, first)->Ok_0.0;
    assert(once.messages == state.messages.insert(value));
    assert(step(once, second)->Ok_0.0.messages =~= once.messages);
}

} // verus!
