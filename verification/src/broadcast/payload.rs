//! What broadcast nodes say to each other.

use std::collections::HashSet;
use vstd::prelude::*;
use vstd::std_specs::iter::IteratorSpec;
use crate::names::{copy_names, names_of};

verus! {

broadcast use vstd::std_specs::hash::group_hash_axioms;

/// The map that `entries` spell out when read from first to last: each entry
/// gives a node its neighbours, and a later entry for a node replaces an
/// earlier one.
pub open spec fn as_map(entries: Seq<(String, Vec<String>)>) -> Map<Seq<char>, Seq<Seq<char>>>
    decreases entries.len(),
{
    if entries.len() == 0 {
        Map::empty()
    } else {
        as_map(entries.drop_last()).insert(entries.last().0@, names_of(entries.last().1@))
    }
}

/// Entries that do not speak of `name` do not matter to it: if none of the
/// entries from `at` on is for `name`, the first `at` entries decide.
pub proof fn lemma_later_entries_for_others(
    entries: Seq<(String, Vec<String>)>,
    at: int,
    name: Seq<char>,
)
    requires
        0 <= at <= entries.len(),
        forall|i: int| at <= i < entries.len() ==> (#[trigger] entries[i]).0@ != name,
    ensures
        as_map(entries).contains_key(name) == as_map(entries.take(at)).contains_key(name),
        as_map(entries).contains_key(name) ==> as_map(entries)[name] == as_map(
            entries.take(at),
        )[name],
    decreases entries.len(),
{
    if at == entries.len() {
        assert(entries.take(at) =~= entries);
    } else {
        let earlier = entries.drop_last();
        assert(entries.last() == entries[entries.len() - 1]);
        assert forall|i: int| at <= i < earlier.len() implies (#[trigger] earlier[i]).0@ != name by {
            assert(earlier[i] == entries[i]);
        }
        lemma_later_entries_for_others(earlier, at, name);
        assert(earlier.take(at) =~= entries.take(at));
    }
}

/// For each node that it names, the list of that node's neighbours.
#[derive(Debug)]
pub struct Topology {
    entries: Vec<(String, Vec<String>)>,
}

impl View for Topology {
    type V = Map<Seq<char>, Seq<Seq<char>>>;

    closed spec fn view(&self) -> Self::V {
        as_map(self.entries@)
    }
}

impl Topology {
    /// A topology that names no node.
    pub fn new() -> (topology: Self)
        ensures
            topology@ == Map::<Seq<char>, Seq<Seq<char>>>::empty(),
    {
        Topology { entries: Vec::new() }
    }

    /// Gives `node` the neighbours `neighbors`, in place of any it had.
    pub fn insert(&mut self, node: String, neighbors: Vec<String>)
        ensures
            final(self)@ == old(self)@.insert(node@, names_of(neighbors@)),
    {
        self.entries.push((node, neighbors));
        assert(self.entries@.drop_last() =~= old(self).entries@);
    }

    /// The neighbours of `node`, if the topology names it.
    pub fn neighbors_of(&self, node: &String) -> (found: Option<Vec<String>>)
        ensures
            match found {
                Some(neighbors) => self@.contains_key(node@) && names_of(neighbors@) == self@[node@],
                None => !self@.contains_key(node@),
            },
    {
        let mut at: usize = self.entries.len();
        while at > 0
            invariant
                at <= self.entries.len(),
                forall|i: int| at <= i < self.entries.len() ==> (#[trigger] self.entries@[i]).0@ != node@,
            decreases at,
        {
            at -= 1;
            if self.entries[at].0 == *node {
                let neighbors = copy_names(&self.entries[at].1);
                proof {
                    lemma_later_entries_for_others(self.entries@, at + 1, node@);
                    assert(self.entries@.take(at + 1).drop_last() =~= self.entries@.take(at as int));
                    assert(self.entries@.take(at + 1).last() == self.entries@[at as int]);
                }
                return Some(neighbors);
            }
        }
        proof {
            lemma_later_entries_for_others(self.entries@, 0, node@);
            assert(self.entries@.take(0) =~= Seq::<(String, Vec<String>)>::empty());
        }
        None
    }

    /// Entries that spell out this topology. Where a node comes twice, its
    /// last entry is the one that counts.
    pub fn entries(&self) -> (entries: &Vec<(String, Vec<String>)>)
        ensures
            as_map(entries@) == self@,
    {
        &self.entries
    }
}

impl Clone for Topology {
    fn clone(&self) -> (copy: Self)
        ensures
            copy@ == self@,
    {
        let mut entries: Vec<(String, Vec<String>)> = Vec::new();
        let mut at: usize = 0;
        while at < self.entries.len()
            invariant
                at <= self.entries.len(),
                as_map(entries@) == as_map(self.entries@.take(at as int)),
            decreases self.entries.len() - at,
        {
            let ghost before = entries@;
            entries.push((self.entries[at].0.clone(), copy_names(&self.entries[at].1)));
            proof {
                assert(entries@.drop_last() =~= before);
                assert(self.entries@.take(at + 1).drop_last() =~= self.entries@.take(at as int));
                assert(self.entries@.take(at + 1).last() == self.entries@[at as int]);
            }
            at += 1;
        }
        assert(self.entries@.take(at as int) =~= self.entries@);
        Topology { entries }
    }
}

/// A copy of `values`: a set of its own that holds the same values.
pub fn copy_values(values: &HashSet<usize>) -> (copy: HashSet<usize>)
    ensures
        copy@ == values@,
{
    let mut copy: HashSet<usize> = HashSet::new();
    let ghost all: Seq<usize> = values.iter().remaining().unref();
    let ghost mut done: int = 0;
    for value in it: values.iter()
        invariant
            all.to_set() == values@,
            it.seq().len() == all.len(),
            forall|i: int| 0 <= i < all.len() ==> *it.seq()[i] == all[i],
            done == it.index(),
            copy@ == all.take(done).to_set(),
    {
        copy.insert(*value);
        proof {
            assert(all.take(done + 1) =~= all.take(done).push(all[done]));
            assert(all.take(done + 1).to_set() =~= all.take(done).to_set().insert(all[done])) by {
                assert forall|v: usize| all.take(done + 1).contains(v) <==> all.take(done).contains(v) || v == all[done] by {
                    if all.take(done).contains(v) {
                        let i = choose|i: int| 0 <= i < done && all.take(done)[i] == v;
                        assert(all.take(done + 1)[i] == v);
                    }
                    if v == all[done] {
                        assert(all.take(done + 1)[done] == v);
                    }
                }
            }
            done = done + 1;
        }
    }
    assert(all.take(done) =~= all);
    copy
}

/// The messages of the broadcast protocol, requests and answers alike.
#[derive(Debug)]
pub enum Payload {
    Broadcast { message: usize },
    BroadcastOk,
    Read,
    ReadOk { messages: HashSet<usize> },
    Topology { topology: Topology },
    TopologyOk,
}

impl Clone for Payload {
    fn clone(&self) -> (copy: Self)
        ensures
            copy@ == self@,
    {
        match self {
            Payload::Broadcast { message } => Payload::Broadcast { message: *message },
            Payload::BroadcastOk => Payload::BroadcastOk,
            Payload::Read => Payload::Read,
            Payload::ReadOk { messages } => Payload::ReadOk { messages: copy_values(messages) },
            Payload::Topology { topology } => Payload::Topology { topology: topology.clone() },
            Payload::TopologyOk => Payload::TopologyOk,
        }
    }
}

/// `Payload` as a mathematical value.
pub enum PayloadView {
    Broadcast { message: usize },
    BroadcastOk,
    Read,
    ReadOk { messages: Set<usize> },
    Topology { topology: Map<Seq<char>, Seq<Seq<char>>> },
    TopologyOk,
}

impl View for Payload {
    type V = PayloadView;

    open spec fn view(&self) -> PayloadView {
        match self {
            Payload::Broadcast { message } => PayloadView::Broadcast { message: *message },
            Payload::BroadcastOk => PayloadView::BroadcastOk,
            Payload::Read => PayloadView::Read,
            Payload::ReadOk { messages } => PayloadView::ReadOk { messages: messages@ },
            Payload::Topology { topology } => PayloadView::Topology { topology: topology@ },
            Payload::TopologyOk => PayloadView::TopologyOk,
        }
    }
}

} // verus!
