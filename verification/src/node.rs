//! The opening handshake and the contract that every handler fulfils.

use vstd::prelude::*;
use crate::message::{Body, Message};
use crate::names::names_of;

verus! {

/// What a node learns at start-up: its own name and the names of all nodes of
/// the cluster, itself included.
#[derive(Debug, Clone)]
pub struct Init {
    pub node_id: String,
    pub node_ids: Vec<String>,
}

/// `Init` as a mathematical value.
pub struct InitView {
    pub node_id: Seq<char>,
    pub node_ids: Seq<Seq<char>>,
}

impl View for Init {
    type V = InitView;

    open spec fn view(&self) -> InitView {
        InitView { node_id: self.node_id@, node_ids: names_of(self.node_ids@) }
    }
}

/// The two payloads of the handshake.
#[derive(Debug, Clone)]
pub enum InitPayload {
    Init(Init),
    InitOk,
}

/// The identifier of the handshake's reply.
pub const INIT_OK_ID: usize = 0;

/// The identifier of a handler's first reply: zero is taken by the handshake.
pub const FIRST_ID: usize = 1;

/// Why a node did not come up.
#[derive(Debug)]
pub enum HandshakeError<E> {
    /// The first message was not an `Init`.
    NotInit,
    /// The handler could not be built from the `Init`.
    Node(E),
}

/// A handler: built once from the handshake, then given one message at a time.
pub trait Node<S, Payload>: Sized {
    /// What the handler reports when it cannot go on.
    type Error;

    /// Builds the handler from the caller's own state and what the handshake told.
    fn from_init(state: S, init: Init) -> (built: Result<Self, Self::Error>);

    /// Handles one message. Replies, if any, are appended to `output` in the
    /// order in which they are to be sent; what `output` held stays in place.
    fn step(&mut self, input: Message<Payload>, output: &mut Vec<Message<Payload>>) -> (done:
        Result<(), Self::Error>)
        ensures
            old(output)@.is_prefix_of(final(output)@),
    ;
}

/// The answer to the first message `first`: an `InitOk` with the reserved
/// identifier, sent back to where `first` came from and naming its identifier.
pub open spec fn init_ok(first: Message<InitPayload>) -> Message<InitPayload> {
    Message {
        src: first.dst,
        dst: first.src,
        body: Body {
            id: Some(INIT_OK_ID),
            in_reply_to: first.body.id,
            payload: InitPayload::InitOk,
        },
    }
}

/// Opens the protocol. The first message must be an `Init`; from it the
/// handler is built, and only when that has succeeded is the `InitOk` reply
/// made. The reply depends on the first message alone.
pub fn handshake<S, Payload, N: Node<S, Payload>>(init_state: S, first: Message<InitPayload>) -> (up:
    Result<(N, Message<InitPayload>), HandshakeError<N::Error>>)
    ensures
        match first.body.payload {
            InitPayload::InitOk => up matches Err(HandshakeError::NotInit),
            InitPayload::Init(init) => match up {
                Ok((node, reply)) => {
                    &&& call_ensures(N::from_init, (init_state, init), Ok(node))
                    &&& reply == init_ok(first)
                },
                Err(HandshakeError::Node(e)) => call_ensures(
                    N::from_init,
                    (init_state, init),
                    Err(e),
                ),
                Err(HandshakeError::NotInit) => false,
            },
        },
{
    let Message { src, dst, body } = first;
    match body.payload {
        InitPayload::InitOk => Err(HandshakeError::NotInit),
        InitPayload::Init(init) => match N::from_init(init_state, init) {
            Ok(node) => {
                let reply = Message {
                    src: dst,
                    dst: src,
                    body: Body {
                        id: Some(INIT_OK_ID),
                        in_reply_to: body.id,
                        payload: InitPayload::InitOk,
                    },
                };
                Ok((node, reply))
            },
            Err(e) => Err(HandshakeError::Node(e)),
        },
    }
}

} // verus!
