//! The unique-id node: every `Generate` is answered with an identifier that
//! no other answer of the cluster carries.

use vstd::prelude::*;
use vstd::string::StringExecFns;
use crate::message::{Message, MessageView};
use crate::node::{Init, InitView, Node, FIRST_ID};

verus! {

/// The messages of the unique-id protocol.
#[derive(Debug, Clone)]
pub enum Payload {
    Generate,
    GenerateOk { guid: String },
}

/// `Payload` as a mathematical value.
pub enum PayloadView {
    Generate,
    GenerateOk { guid: Seq<char> },
}

impl View for Payload {
    type V = PayloadView;

    open spec fn view(&self) -> PayloadView {
        match self {
            Payload::Generate => PayloadView::Generate,
            Payload::GenerateOk { guid } => PayloadView::GenerateOk { guid: guid@ },
        }
    }
}

/// Why a unique-id node stops.
#[derive(Debug, Clone, Copy, PartialEq, Eq, Structural)]
pub enum GenerateError {
    /// A `GenerateOk` arrived: nobody owes this node an identifier.
    UnexpectedGenerateOk,
    /// The node has no message identifier left for a reply.
    IdsExhausted,
}

/// The character that stands for the digit `d`.
pub open spec fn digit(d: nat) -> char {
    if d == 0 {
        '0'
    } else if d == 1 {
        '1'
    } else if d == 2 {
        '2'
    } else if d == 3 {
        '3'
    } else if d == 4 {
        '4'
    } else if d == 5 {
        '5'
    } else if d == 6 {
        '6'
    } else if d == 7 {
        '7'
    } else if d == 8 {
        '8'
    } else {
        '9'
    }
}

/// `n` written in decimal, without leading zeros.
pub open spec fn decimal(n: nat) -> Seq<char>
    decreases n,
{
    if n < 10 {
        seq![digit(n)]
    } else {
        decimal(n / 10).push(digit(n % 10))
    }
}

/// The identifier that the node named `node` hands out when its counter
/// stands at `counter`: the name, a hyphen, the counter in decimal.
pub open spec fn guid_of(node: Seq<char>, counter: nat) -> Seq<char> {
    node + seq!['-'] + decimal(counter)
}

/// What a unique-id node holds.
pub struct UniqueState {
    /// The node's own name.
    pub node: Seq<char>,
    /// The identifier that the next reply will carry.
    pub id: usize,
}

/// A message of the unique-id protocol as a mathematical value.
pub type Envelope = MessageView<PayloadView>;

/// The node as the handshake leaves it.
pub open spec fn initial(init: InitView) -> UniqueState {
    UniqueState { node: init.node_id, id: FIRST_ID }
}

/// One step of the node: what `state` becomes on `input` and what is sent
/// back, or why the node stops.
///
/// A `Generate` is answered with a `GenerateOk`. The reply takes the node's
/// identifier, the counter moves on by one, and the identifier handed out is
/// made from the counter as it then stands.
pub open spec fn step(state: UniqueState, input: Envelope) -> Result<
    (UniqueState, Envelope),
    GenerateError,
> {
    match input.payload {
        PayloadView::GenerateOk { .. } => Err(GenerateError::UnexpectedGenerateOk),
        PayloadView::Generate => if state.id == usize::MAX {
            Err(GenerateError::IdsExhausted)
        } else {
            Ok(
                (
                    UniqueState { id: (state.id + 1) as usize, ..state },
                    input.reply(
                        Some(state.id),
                        PayloadView::GenerateOk {
                            guid: guid_of(state.node, (state.id + 1) as nat),
                        },
                    ),
                ),
            )
        },
    }
}

/// The text of the digit `d`.
fn digit_text(d: usize) -> (text: &'static str)
    requires
        d < 10,
    ensures
        text@ == seq![digit(d as nat)],
{
    proof {
        reveal_strlit("0");
        reveal_strlit("1");
        reveal_strlit("2");
        reveal_strlit("3");
        reveal_strlit("4");
        reveal_strlit("5");
        reveal_strlit("6");
        reveal_strlit("7");
        reveal_strlit("8");
        reveal_strlit("9");
    }
    let text = if d == 0 {
        "0"
    } else if d == 1 {
        "1"
    } else if d == 2 {
        "2"
    } else if d == 3 {
        "3"
    } else if d == 4 {
        "4"
    } else if d == 5 {
        "5"
    } else if d == 6 {
        "6"
    } else if d == 7 {
        "7"
    } else if d == 8 {
        "8"
    } else {
        "9"
    };
    assert(text@ =~= seq![digit(d as nat)]);
    text
}

/// Appends `n` in decimal to `text`.
fn append_decimal(text: &mut String, n: usize)
    ensures
        final(text)@ == old(text)@ + decimal(n as nat),
    decreases n,
{
    if n < 10 {
        text.append(digit_text(n));
    } else {
        append_decimal(text, n / 10);
        text.append(digit_text(n % 10));
        assert(text@ =~= old(text)@ + decimal(n as nat));
    }
}

/// The identifier that the node named `node` hands out at `counter`.
pub fn make_guid(node: &String, counter: usize) -> (guid: String)
    ensures
        guid@ == guid_of(node@, counter as nat),
{
    let mut guid = node.clone();
    proof {
        reveal_strlit("-");
    }
    guid.append("-");
    append_decimal(&mut guid, counter);
    assert(guid@ =~= guid_of(node@, counter as nat));
    guid
}

/// A unique-id node.
pub struct UniqueNode {
    node: String,
    id: usize,
}

impl View for UniqueNode {
    type V = UniqueState;

    closed spec fn view(&self) -> UniqueState {
        UniqueState { node: self.node@, id: self.id }
    }
}

impl UniqueNode {
    /// The node's own name.
    pub fn node(&self) -> (name: &String)
        ensures
            name@ == self@.node,
    {
        &self.node
    }

    /// The identifier that the next reply will carry.
    pub fn id(&self) -> (id: usize)
        ensures
            id == self@.id,
    {
        self.id
    }
}

impl Node<(), Payload> for UniqueNode {
    type Error = GenerateError;

    /// A unique-id node can always be built: it starts as `initial` says.
    fn from_init(_state: (), init: Init) -> (built: Result<Self, GenerateError>)
        ensures
            built matches Ok(node) && node@ == initial(init@),
    {
        Ok(UniqueNode { node: init.node_id, id: FIRST_ID })
    }

    /// One step of the node, as `step` says: on success the node is in the
    /// next state and the reply is the one message added to `output`; on
    /// failure nothing has changed.
    fn step(&mut self, input: Message<Payload>, output: &mut Vec<Message<Payload>>) -> (done: Result<
        (),
        GenerateError,
    >)
        ensures
            match step(old(self)@, input@) {
                Ok((next, reply)) => {
                    &&& done is Ok
                    &&& final(self)@ == next
                    &&& final(output)@.len() == old(output)@.len() + 1
                    &&& final(output)@.drop_last() == old(output)@
                    &&& final(output)@.last()@ == reply
                },
                Err(e) => {
                    &&& done == Err::<(), GenerateError>(e)
                    &&& final(self)@ == old(self)@
                    &&& final(output)@ == old(output)@
                },
            },
    {
        match &input.body.payload {
            Payload::GenerateOk { .. } => {
                return Err(GenerateError::UnexpectedGenerateOk);
            },
            Payload::Generate => {
                if self.id == usize::MAX {
                    return Err(GenerateError::IdsExhausted);
                }
            },
        }
        let mut reply = input.into_reply(Some(&mut self.id));
        reply.body.payload = Payload::GenerateOk { guid: make_guid(&self.node, self.id) };
        output.push(reply);
        proof {
            assert(output@.drop_last() =~= old(output)@);
        }
        Ok(())
    }
}

/// A number in decimal is made of digits: it is not empty and holds no hyphen.
pub proof fn lemma_decimal_has_no_hyphen(n: nat)
    ensures
        decimal(n).len() >= 1,
        forall|i: int| 0 <= i < decimal(n).len() ==> decimal(n)[i] != '-',
    decreases n,
{
    if n >= 10 {
        lemma_decimal_has_no_hyphen(n / 10);
    }
}

/// Two numbers that read the same in decimal are the same number.
pub proof fn lemma_decimal_is_injective(a: nat, b: nat)
    requires
        decimal(a) == decimal(b),
    ensures
        a == b,
    decreases a,
{
    lemma_decimal_has_no_hyphen(a / 10);
    lemma_decimal_has_no_hyphen(b / 10);
    if a < 10 && b < 10 {
        assert(decimal(a)[0] == digit(a));
        assert(decimal(b)[0] == digit(b));
    } else if a >= 10 && b >= 10 {
        assert(decimal(a).last() == digit(a % 10));
        assert(decimal(b).last() == digit(b % 10));
        assert(a % 10 == b % 10);
        assert(decimal(a).drop_last() =~= decimal(a / 10));
        assert(decimal(b).drop_last() =~= decimal(b / 10));
        lemma_decimal_is_injective(a / 10, b / 10);
        assert(a == 10 * (a / 10) + a % 10);
        assert(b == 10 * (b / 10) + b % 10);
    } else {
        if a < 10 {
            assert(decimal(a).len() == 1);
            assert(decimal(b).len() == decimal(b / 10).len() + 1);
        } else {
            assert(decimal(b).len() == 1);
            assert(decimal(a).len() == decimal(a / 10).len() + 1);
        }
    }
}

/// No two identifiers are alike unless they come from the same name and the
/// same counter. So the identifiers of a cluster are all different as long as
/// no two of its nodes share a name and no node uses a counter twice.
pub proof fn lemma_guid_is_injective(node: Seq<char>, counter: nat, other: Seq<char>, at: nat)
    requires
        guid_of(node, counter) == guid_of(other, at),
    ensures
        node == other,
        counter == at,
{
    let guid = guid_of(node, counter);
    lemma_decimal_has_no_hyphen(counter);
    lemma_decimal_has_no_hyphen(at);
    assert(guid.len() == node.len() + 1 + decimal(counter).len());
    assert(guid.len() == other.len() + 1 + decimal(at).len());
    if node.len() < other.len() {
        assert(guid_of(other, at)[other.len() as int] == '-');
        assert(guid[other.len() as int] == decimal(counter)[other.len() - node.len() - 1]);
    } else if other.len() < node.len() {
        assert(guid[node.len() as int] == '-');
        assert(guid_of(other, at)[node.len() as int] == decimal(at)[node.len() - other.len() - 1]);
    } else {
        assert(node =~= guid.subrange(0, node.len() as int));
        assert(other =~= guid_of(other, at).subrange(0, other.len() as int));
        assert(decimal(counter) =~= guid.subrange(node.len() as int + 1, guid.len() as int));
        assert(decimal(at) =~= guid_of(other, at).subrange(other.len() as int + 1, guid.len() as int));
        lemma_decimal_is_injective(counter, at);
    }
}

/// A node never hands out an identifier twice: what it hands out at one
/// counter differs from what it, or a node of another name, hands out at a
/// later one.
pub proof fn lemma_later_guid_differs(
    state: UniqueState,
    input: Envelope,
    later: UniqueState,
    other: Envelope,
)
    requires
        step(state, input) is Ok,
        step(later, other) is Ok,
        later.node != state.node || later.id > state.id,
    ensures
        step(state, input)->Ok_0.1.payload != step(later, other)->Ok_0.1.payload,
{
    if guid_of(state.node, (state.id + 1) as nat) == guid_of(later.node, (later.id + 1) as nat) {
        lemma_guid_is_injective(
            state.node,
            (state.id + 1) as nat,
            later.node,
            (later.id + 1) as nat,
        );
    }
}

} // verus!
