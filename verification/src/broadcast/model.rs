//! The broadcast node as a state machine over mathematical values.

use vstd::prelude::*;
use crate::broadcast::payload::PayloadView;
use crate::message::MessageView;
use crate::node::{InitView, FIRST_ID};

verus! {

/// Why a broadcast node stops.
#[derive(Debug, Clone, Copy, PartialEq, Eq, Structural)]
pub enum BroadcastError {
    /// A topology arrived that does not name this node.
    MissingTopology,
    /// The node has no message identifier left for a reply.
    IdsExhausted,
}

/// What a broadcast node holds.
pub struct BroadcastState {
    /// The node's own name.
    pub node: Seq<char>,
    /// The identifier that the next reply will carry.
    pub id: usize,
    /// The values that the node has been told to broadcast.
    pub messages: Set<usize>,
    /// For each node of the cluster, the values it is known to hold.
    pub known: Map<Seq<char>, Set<usize>>,
    /// The node's neighbours, once a topology has named them.
    pub neighborhood: Seq<Seq<char>>,
    /// For each value, the peers it has been passed on to.
    pub msg_communicated: Map<usize, Set<usize>>,
}

/// A message of the broadcast protocol as a mathematical value.
pub type Envelope = MessageView<PayloadView>;

/// The node as the handshake leaves it: no value, no neighbour, and for every
/// node of the cluster an empty set of values known to be held there.
pub open spec fn initial(init: InitView) -> BroadcastState {
    BroadcastState {
        node: init.node_id,
        id: FIRST_ID,
        messages: Set::empty(),
        known: Map::new(|name: Seq<char>| init.node_ids.contains(name), |name: Seq<char>| Set::empty()),
        neighborhood: Seq::empty(),
        msg_communicated: Map::empty(),
    }
}

/// Whether `payload` is a request, which is answered, and not an answer,
/// which is taken in silence.
pub open spec fn is_request(payload: PayloadView) -> bool {
    payload is Broadcast || payload is Read || payload is Topology
}

/// `state` after a reply has taken its identifier.
pub open spec fn after_reply(state: BroadcastState) -> BroadcastState {
    BroadcastState { id: (state.id + 1) as usize, ..state }
}

/// One step of the node: what `state` becomes on `input` and what is sent
/// back, or why the node stops.
///
/// An answer changes nothing and is not answered. A request needs an
/// identifier for its reply. `Broadcast` adds its value, `Read` reports the
/// values, and `Topology` sets the neighbours to the entry under the node's
/// own name, which must be there; a later topology replaces the neighbours
/// that an earlier one gave.
///
/// Values are not passed on to the neighbours: `known` and
/// `msg_communicated` stay as the handshake left them.
pub open spec fn step(state: BroadcastState, input: Envelope) -> Result<
    (BroadcastState, Option<Envelope>),
    BroadcastError,
> {
    if !is_request(input.payload) {
        Ok((state, None))
    } else if state.id == usize::MAX {
        Err(BroadcastError::IdsExhausted)
    } else {
        match input.payload {
            PayloadView::Broadcast { message } => Ok(
                (
                    BroadcastState { messages: state.messages.insert(message), ..after_reply(state) },
                    Some(input.reply(Some(state.id), PayloadView::BroadcastOk)),
                ),
            ),
            PayloadView::Read => Ok(
                (
                    after_reply(state),
                    Some(
                        input.reply(Some(state.id), PayloadView::ReadOk { messages: state.messages }),
                    ),
                ),
            ),
            PayloadView::Topology { topology } => if topology.contains_key(state.node) {
                Ok(
                    (
                        BroadcastState { neighborhood: topology[state.node], ..after_reply(state) },
                        Some(input.reply(Some(state.id), PayloadView::TopologyOk)),
                    ),
                )
            } else {
                Err(BroadcastError::MissingTopology)
            },
            _ => Ok((state, None)),
        }
    }
}

/// Where a node stands after a run of messages.
pub struct Run {
    /// The node's state after the last message that it handled.
    pub state: BroadcastState,
    /// The replies sent so far, oldest first.
    pub replies: Seq<Envelope>,
    /// Why the node stopped, if it did.
    pub failure: Option<BroadcastError>,
}

/// The node given `inputs` one after the other, from `state` on. The first
/// failure ends the run: what comes after it is not handled.
pub open spec fn run(state: BroadcastState, inputs: Seq<Envelope>) -> Run
    decreases inputs.len(),
{
    if inputs.len() == 0 {
        Run { state, replies: Seq::empty(), failure: None }
    } else {
        let before = run(state, inputs.drop_last());
        if before.failure is Some {
            before
        } else {
            match step(before.state, inputs.last()) {
                Ok((next, Some(reply))) => Run {
                    state: next,
                    replies: before.replies.push(reply),
                    failure: None,
                },
                Ok((next, None)) => Run { state: next, ..before },
                Err(e) => Run { failure: Some(e), ..before },
            }
        }
    }
}

} // verus!
