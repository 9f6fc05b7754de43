//! The message envelope and the rule by which a reply is derived from a request.

use vstd::prelude::*;

verus! {

/// The outer record of every message: who sent it, who it is for, and its body.
#[derive(Debug, Clone)]
pub struct Message<Payload> {
    pub src: String,
    pub dst: String,
    pub body: Body<Payload>,
}

/// The inner record: the two correlation identifiers and the payload.
#[derive(Debug, Clone)]
pub struct Body<Payload> {
    pub id: Option<usize>,
    pub in_reply_to: Option<usize>,
    pub payload: Payload,
}

/// A message as a mathematical value: the node names as character sequences,
/// the body's three fields beside them, the payload by its own view.
pub struct MessageView<P> {
    pub src: Seq<char>,
    pub dst: Seq<char>,
    pub id: Option<usize>,
    pub in_reply_to: Option<usize>,
    pub payload: P,
}

impl<P> MessageView<P> {
    /// The reply to `self` that carries the identifier `id` and the payload
    /// `payload`: it goes back to where `self` came from and names the
    /// request's identifier as the one it answers.
    pub open spec fn reply<Q>(self, id: Option<usize>, payload: Q) -> MessageView<Q> {
        MessageView { src: self.dst, dst: self.src, id, in_reply_to: self.id, payload }
    }
}

impl<Payload: View> View for Message<Payload> {
    type V = MessageView<Payload::V>;

    open spec fn view(&self) -> Self::V {
        MessageView {
            src: self.src@,
            dst: self.dst@,
            id: self.body.id,
            in_reply_to: self.body.in_reply_to,
            payload: self.body.payload@,
        }
    }
}

impl<Payload> Message<Payload> {
    /// The reply to `self` that carries the identifier `id`: the two ends are
    /// swapped, the request's identifier becomes `in_reply_to`, and the payload
    /// is carried over for the handler to replace.
    pub open spec fn reply_with(self, id: Option<usize>) -> Self {
        Message {
            src: self.dst,
            dst: self.src,
            body: Body { id, in_reply_to: self.body.id, payload: self.body.payload },
        }
    }

    /// Turns a request into the skeleton of its reply. With a counter, the
    /// reply takes the counter's current value as its identifier and the
    /// counter moves on by one; without, the reply has no identifier.
    pub fn into_reply(self, id: Option<&mut usize>) -> (reply: Self)
        requires
            id matches Some(counter) ==> *counter < usize::MAX,
        ensures
            match id {
                Some(counter) => {
                    &&& reply == self.reply_with(Some(*counter))
                    &&& *final(counter) == *counter + 1
                },
                None => reply == self.reply_with(None),
            },
    {
        let reply_id = match id {
            Some(counter) => {
                let current: usize = *counter;
                *counter = current + 1;
                Some(current)
            },
            None => None,
        };
        Message {
            src: self.dst,
            dst: self.src,
            body: Body { id: reply_id, in_reply_to: self.body.id, payload: self.body.payload },
        }
    }
}

/// A reply derived with `reply_with` is, as a mathematical value, the `reply`
/// of the request's view, still carrying the request's payload.
pub proof fn lemma_reply_with_view<Payload: View>(request: Message<Payload>, id: Option<usize>)
    ensures
        request.reply_with(id)@ == request@.reply(id, request@.payload),
{
}

} // verus!
