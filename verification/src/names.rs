//! Lists of node names.

use vstd::prelude::*;

verus! {

/// The names of `names`, in order, each as its sequence of characters.
pub open spec fn names_of(names: Seq<String>) -> Seq<Seq<char>> {
    names.map_values(|name: String| name@)
}

/// A copy of `names`: the same names in the same order.
pub fn copy_names(names: &Vec<String>) -> (copy: Vec<String>)
    ensures
        names_of(copy@) == names_of(names@),
{
    let mut copy: Vec<String> = Vec::new();
    let mut at: usize = 0;
    while at < names.len()
        invariant
            at <= names.len(),
            copy.len() == at,
            forall|i: int| 0 <= i < at ==> copy[i]@ == names[i]@,
        decreases names.len() - at,
    {
        copy.push(names[at].clone());
        at += 1;
    }
    assert(names_of(copy@) =~= names_of(names@));
    copy
}

} // verus!
