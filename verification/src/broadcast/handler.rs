//! The broadcast node itself.

use std::collections::{HashMap, HashSet};
use vstd::hash_map::StringHashMap;
use vstd::prelude::*;
use crate::broadcast::model::{initial, step, BroadcastError, BroadcastState};
use crate::broadcast::payload::{copy_values, Payload};
use crate::message::Message;
use crate::names::names_of;
use crate::node::{Init, Node, FIRST_ID};

verus! {

broadcast use vstd::std_specs::hash::group_hash_axioms;

/// A broadcast node: what it has been told to broadcast, and what it knows of
/// the cluster around it.
pub struct BroadcastNode {
    node: String,
    id: usize,
    messages: HashSet<usize>,
    known: StringHashMap<HashSet<usize>>,
    neighborhood: Vec<String>,
    msg_communicated: HashMap<usize, HashSet<usize>>,
}

impl View for BroadcastNode {
    type V = BroadcastState;

    closed spec fn view(&self) -> BroadcastState {
        BroadcastState {
            node: self.node@,
            id: self.id,
            messages: self.messages@,
            known: self.known@.map_values(|held: HashSet<usize>| held@),
            neighborhood: names_of(self.neighborhood@),
            msg_communicated: self.msg_communicated@.map_values(|peers: HashSet<usize>| peers@),
        }
    }
}

impl BroadcastNode {
    /// The node's own name.
    pub fn node(&self) -> (name: &String)
        ensures
            name@ == self@.node,
    {
        &self.node
    }

    /// The identifier that the next reply will carry.
    pub fn id(&self) -> (id: usize)
        ensures
            id == self@.id,
    {
        self.id
    }

    /// The values that the node has been told to broadcast.
    pub fn messages(&self) -> (values: &HashSet<usize>)
        ensures
            values@ == self@.messages,
    {
        &self.messages
    }

    /// The node's neighbours, in the order in which the topology gave them.
    pub fn neighborhood(&self) -> (neighbors: &Vec<String>)
        ensures
            names_of(neighbors@) == self@.neighborhood,
    {
        &self.neighborhood
    }

    /// The values that `peer` is known to hold, if `peer` is a node of the cluster.
    pub fn known_of(&self, peer: &String) -> (held: Option<&HashSet<usize>>)
        ensures
            match held {
                Some(values) => self@.known.contains_key(peer@) && values@ == self@.known[peer@],
                None => !self@.known.contains_key(peer@),
            },
    {
        self.known.get(peer.as_str())
    }

    /// The peers that `value` has been passed on to, if it has been passed on at all.
    pub fn communicated_to(&self, value: usize) -> (peers: Option<&HashSet<usize>>)
        ensures
            match peers {
                Some(to) => self@.msg_communicated.contains_key(value) && to@
                    == self@.msg_communicated[value],
                None => !self@.msg_communicated.contains_key(value),
            },
    {
        self.msg_communicated.get(&value)
    }
}

impl Node<(), Payload> for BroadcastNode {
    type Error = BroadcastError;

    /// A broadcast node can always be built: it starts as `initial` says.
    fn from_init(_state: (), init: Init) -> (built: Result<Self, BroadcastError>)
        ensures
            built matches Ok(node) && node@ == initial(init@),
    {
        let mut known: StringHashMap<HashSet<usize>> = StringHashMap::new();
        let mut at: usize = 0;
        while at < init.node_ids.len()
            invariant
                at <= init.node_ids.len(),
                forall|name: Seq<char>| #[trigger]
                    known@.contains_key(name) <==> names_of(init.node_ids@).take(at as int).contains(name),
                forall|name: Seq<char>| #[trigger]
                    known@.contains_key(name) ==> known@[name]@ == Set::<usize>::empty(),
            decreases init.node_ids.len() - at,
        {
            let ghost names = names_of(init.node_ids@);
            known.insert(init.node_ids[at].clone(), HashSet::new());
            proof {
                assert(names.take(at + 1) =~= names.take(at as int).push(names[at as int]));
                assert forall|name: Seq<char>| #[trigger]
                    known@.contains_key(name) <==> names.take(at + 1).contains(name) by {
                    if names.take(at as int).contains(name) {
                        let i = choose|i: int| 0 <= i < at && names.take(at as int)[i] == name;
                        assert(names.take(at + 1)[i] == name);
                    }
                    if name == names[at as int] {
                        assert(names.take(at + 1)[at as int] == name);
                    }
                }
            }
            at += 1;
        }
        let node = BroadcastNode {
            node: init.node_id,
            id: FIRST_ID,
            messages: HashSet::new(),
            known,
            neighborhood: Vec::new(),
            msg_communicated: HashMap::new(),
        };
        proof {
            let names = names_of(init.node_ids@);
            assert(names.take(at as int) =~= names);
            assert(node@.known =~= initial(init@).known);
            assert(node@.neighborhood =~= initial(init@).neighborhood);
            assert(node@.msg_communicated =~= initial(init@).msg_communicated);
        }
        Ok(node)
    }

    /// One step of the node, as `step` says: on success the node is in the
    /// next state and the reply, if one is due, is the one message added to
    /// `output`; on failure nothing has changed.
    fn step(&mut self, input: Message<Payload>, output: &mut Vec<Message<Payload>>) -> (done: Result<
        (),
        BroadcastError,
    >)
        ensures
            match step(old(self)@, input@) {
                Ok((next, Some(reply))) => {
                    &&& done is Ok
                    &&& final(self)@ == next
                    &&& final(output)@.len() == old(output)@.len() + 1
                    &&& final(output)@.drop_last() == old(output)@
                    &&& final(output)@.last()@ == reply
                },
                Ok((next, None)) => {
                    &&& done is Ok
                    &&& final(self)@ == next
                    &&& final(output)@ == old(output)@
                },
                Err(e) => {
                    &&& done == Err::<(), BroadcastError>(e)
                    &&& final(self)@ == old(self)@
                    &&& final(output)@ == old(output)@
                },
            },
    {
        let answer = match &input.body.payload {
            Payload::BroadcastOk | Payload::ReadOk { .. } | Payload::TopologyOk => {
                return Ok(());
            },
            Payload::Broadcast { message } => {
                if self.id == usize::MAX {
                    return Err(BroadcastError::IdsExhausted);
                }
                self.messages.insert(*message);
                Payload::BroadcastOk
            },
            Payload::Read => {
                if self.id == usize::MAX {
                    return Err(BroadcastError::IdsExhausted);
                }
                Payload::ReadOk { messages: copy_values(&self.messages) }
            },
            Payload::Topology { topology } => {
                if self.id == usize::MAX {
                    return Err(BroadcastError::IdsExhausted);
                }
                match topology.neighbors_of(&self.node) {
                    Some(neighbors) => {
                        self.neighborhood = neighbors;
                        Payload::TopologyOk
                    },
                    None => {
                        return Err(BroadcastError::MissingTopology);
                    },
                }
            },
        };
        let mut reply = input.into_reply(Some(&mut self.id));
        reply.body.payload = answer;
        output.push(reply);
        proof {
            assert(output@.drop_last() =~= old(output)@);
        }
        Ok(())
    }
}

} // verus!
