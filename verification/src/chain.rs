//! Chains of message nodes: a node, its parent, the parent's parent, and so on.

use std::collections::{HashMap, HashSet};

use vstd::prelude::*;

verus! {

broadcast use vstd::std_specs::hash::group_hash_axioms;

/// The parent of a node, where it is known and has one.
pub open spec fn parent_of(parents: Map<i64, Option<i64>>, id: i64) -> Option<i64> {
    if parents.contains_key(id) {
        parents[id]
    } else {
        None
    }
}

/// The node that is reached from `head` in `steps` steps to the parent.
pub open spec fn ancestor(parents: Map<i64, Option<i64>>, head: i64, steps: nat) -> Option<i64>
    decreases steps,
{
    if steps == 0 {
        Some(head)
    } else {
        match ancestor(parents, head, (steps - 1) as nat) {
            Some(id) => parent_of(parents, id),
            None => None,
        }
    }
}

/// All nodes that are reached from `head`, itself included.
pub open spec fn chain(parents: Map<i64, Option<i64>>, head: i64) -> Set<i64> {
    Set::new(|id: i64| exists|steps: nat| #[trigger] ancestor(parents, head, steps) == Some(id))
}

/// Once a chain has come to its end, it has no further nodes.
proof fn lemma_end_of_chain(parents: Map<i64, Option<i64>>, head: i64, end: nat, steps: nat)
    requires
        ancestor(parents, head, end) is None,
        end <= steps,
    ensures
        ancestor(parents, head, steps) is None,
    decreases steps,
{
    if end < steps {
        lemma_end_of_chain(parents, head, end, (steps - 1) as nat);
    }
}

/// Once a chain has come back to an earlier node, it has no new nodes.
proof fn lemma_cycle(
    parents: Map<i64, Option<i64>>,
    head: i64,
    back: nat,
    again: nat,
    steps: nat,
) -> (earlier: nat)
    requires
        back < again <= steps,
        ancestor(parents, head, back) == ancestor(parents, head, again),
    ensures
        earlier < again,
        ancestor(parents, head, earlier) == ancestor(parents, head, steps),
    decreases steps,
{
    if steps == again {
        back
    } else {
        let before = lemma_cycle(parents, head, back, again, (steps - 1) as nat);
        assert(ancestor(parents, head, before + 1) == ancestor(parents, head, steps));
        if before + 1 == again {
            back
        } else {
            before + 1
        }
    }
}

/// The nodes that are reached from `head` by going from each node to its parent.
/// A chain that runs into itself ends there.
pub fn chain_nodes(parents: &HashMap<i64, Option<i64>>, head: i64) -> (r: HashSet<i64>)
    ensures
        r@ == chain(parents@, head),
{
    let mut set: HashSet<i64> = HashSet::new();
    let mut id: i64 = head;
    let ghost mut steps: nat = 0;
    loop
        invariant
            ancestor(parents@, head, steps) == Some(id),
            forall|n: nat|
                n < steps ==> {
                    &&& (#[trigger] ancestor(parents@, head, n)) is Some
                    &&& set@.contains(ancestor(parents@, head, n)->0)
                },
            forall|x: i64| #[trigger]
                set@.contains(x) ==> exists|n: nat|
                    n < steps && #[trigger] ancestor(parents@, head, n) == Some(x),
            set@.subset_of(parents@.dom()),
            parents@.dom().finite(),
            set@.finite(),
            set@.len() <= parents@.dom().len(),
        decreases parents@.dom().len() + 1 - set@.len(),
    {
        if !set.insert(id) {
            proof {
                let back = choose|n: nat|
                    n < steps && #[trigger] ancestor(parents@, head, n) == Some(id);
                assert forall|x: i64| #[trigger]
                    chain(parents@, head).contains(x) implies set@.contains(x) by {
                    let n = choose|n: nat| #[trigger] ancestor(parents@, head, n) == Some(x);
                    if n >= steps {
                        let earlier = lemma_cycle(parents@, head, back, steps, n);
                    }
                }
                assert(set@ =~= chain(parents@, head));
            }
            return set;
        }
        let next: Option<i64> = match parents.get(&id) {
            Some(parent) => *parent,
            None => None,
        };
        proof {
            steps = steps + 1;
            assert(ancestor(parents@, head, steps) == next);
            assert(ancestor(parents@, head, (steps - 1) as nat) == Some(id));
        }
        match next {
            Some(parent) => {
                proof {
                    vstd::set_lib::lemma_len_subset(set@, parents@.dom());
                }
                id = parent;
            },
            None => {
                proof {
                    assert forall|x: i64| #[trigger]
                        chain(parents@, head).contains(x) implies set@.contains(x) by {
                        let n = choose|n: nat| #[trigger] ancestor(parents@, head, n) == Some(x);
                        if n >= steps {
                            lemma_end_of_chain(parents@, head, steps, n);
                        }
                    }
                    assert(set@ =~= chain(parents@, head));
                }
                return set;
            },
        }
    }
}

/// Whether `ids` holds with each node the parent of that node.
pub open spec fn closed_under_parents(parents: Map<i64, Option<i64>>, ids: Set<i64>) -> bool {
    forall|id: i64, parent: i64|
        #![trigger ids.contains(id), ids.contains(parent)]
        ids.contains(id) && parents.contains_key(id) && parents[id] == Some(parent)
            ==> ids.contains(parent)
}

/// A chain holds its head, and with each node the parent of that node.
pub proof fn law_chain_is_closed(parents: Map<i64, Option<i64>>, head: i64)
    ensures
        chain(parents, head).contains(head),
        closed_under_parents(parents, chain(parents, head)),
{
    let ids = chain(parents, head);
    assert(ancestor(parents, head, 0) == Some(head));
    assert forall|id: i64, parent: i64|
        #![trigger ids.contains(id), ids.contains(parent)]
        ids.contains(id) && parents.contains_key(id) && parents[id] == Some(
            parent,
        ) implies ids.contains(parent) by {
        let steps = choose|steps: nat| #[trigger] ancestor(parents, head, steps) == Some(id);
        assert(ancestor(parents, head, steps + 1) == Some(parent));
    }
}

/// A chain holds nothing else: every set of nodes that holds the head, and with
/// each node the parent of that node, holds the chain.
pub proof fn law_chain_is_smallest(parents: Map<i64, Option<i64>>, head: i64, ids: Set<i64>)
    requires
        ids.contains(head),
        closed_under_parents(parents, ids),
    ensures
        chain(parents, head).subset_of(ids),
{
    assert forall|id: i64| #[trigger] chain(parents, head).contains(id) implies ids.contains(
        id,
    ) by {
        let steps = choose|steps: nat| #[trigger] ancestor(parents, head, steps) == Some(id);
        lemma_ancestors_within(parents, head, ids, steps);
    }
}

proof fn lemma_ancestors_within(
    parents: Map<i64, Option<i64>>,
    head: i64,
    ids: Set<i64>,
    steps: nat,
)
    requires
        ids.contains(head),
        closed_under_parents(parents, ids),
    ensures
        ancestor(parents, head, steps) matches Some(id) ==> ids.contains(id),
    decreases steps,
{
    if steps > 0 {
        lemma_ancestors_within(parents, head, ids, (steps - 1) as nat);
        if let Some(id) = ancestor(parents, head, (steps - 1) as nat) {
            if let Some(parent) = ancestor(parents, head, steps) {
                assert(ids.contains(id));
                assert(ids.contains(parent));
            }
        }
    }
}

} // verus!
