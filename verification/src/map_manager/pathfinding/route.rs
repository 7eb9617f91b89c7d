//! Reading a route out of the predecessor links a shortest-path search
//! leaves behind.
//!
//! A search records, for each node it reached, the node it came from. The
//! route to the goal is found by following those links back from the goal
//! until a node with no predecessor (the start), then reading them forward.

use vstd::prelude::*;

use std::collections::HashMap;

verus! {

broadcast use vstd::std_specs::hash::group_hash_axioms;

/// The nodes met following the links of `came_from` back from `node`:
/// `node` first, its predecessor next, and so on until a node with no
/// predecessor; `None` when that takes more than `fuel` steps.
pub open spec fn back_chain(came_from: Map<u128, u128>, node: u128, fuel: nat) -> Option<
    Seq<u128>,
>
    decreases fuel,
{
    if !came_from.contains_key(node) {
        Some(seq![node])
    } else if fuel == 0 {
        None
    } else {
        match back_chain(came_from, came_from[node], (fuel - 1) as nat) {
            Some(rest) => Some(seq![node] + rest),
            None => None,
        }
    }
}

/// Following the links back from `node` ends (the links hold no cycle on the
/// way).
pub open spec fn reaches_root(came_from: Map<u128, u128>, node: u128) -> bool {
    exists|k: nat| #[trigger] back_chain(came_from, node, k) is Some
}

proof fn lemma_back_chain_fuel(came_from: Map<u128, u128>, node: u128, k: nat, j: nat)
    requires
        back_chain(came_from, node, k) is Some,
        k <= j,
    ensures
        back_chain(came_from, node, j) == back_chain(came_from, node, k),
    decreases k,
{
    if came_from.contains_key(node) {
        lemma_back_chain_fuel(came_from, came_from[node], (k - 1) as nat, (j - 1) as nat);
    }
}

proof fn lemma_back_chain_links(came_from: Map<u128, u128>, node: u128, k: nat)
    requires
        back_chain(came_from, node, k) is Some,
    ensures
        back_chain(came_from, node, k)->0.len() >= 1,
        back_chain(came_from, node, k)->0[0] == node,
        !came_from.contains_key(back_chain(came_from, node, k)->0.last()),
        forall|i: int|
            0 <= i < back_chain(came_from, node, k)->0.len() - 1 ==> came_from.contains_key(
                #[trigger] back_chain(came_from, node, k)->0[i],
            ) && came_from[back_chain(came_from, node, k)->0[i]] == back_chain(
                came_from,
                node,
                k,
            )->0[i + 1],
    decreases k,
{
    if came_from.contains_key(node) {
        let p = came_from[node];
        lemma_back_chain_links(came_from, p, (k - 1) as nat);
        let rest = back_chain(came_from, p, (k - 1) as nat)->0;
        let c = back_chain(came_from, node, k)->0;
        assert(c == seq![node] + rest);
        assert forall|i: int| 0 <= i < c.len() - 1 implies came_from.contains_key(#[trigger] c[i])
            && came_from[c[i]] == c[i + 1] by {
            if i > 0 {
                assert(c[i] == rest[i - 1]);
                assert(c[i + 1] == rest[i]);
            }
        }
    }
}

/// A chain that ends holds no node twice: meeting a node again would repeat
/// the links from it forever.
proof fn lemma_back_chain_distinct(came_from: Map<u128, u128>, node: u128, k: nat)
    requires
        back_chain(came_from, node, k) is Some,
    ensures
        back_chain(came_from, node, k)->0.no_duplicates(),
    decreases k,
{
    if came_from.contains_key(node) {
        let p = came_from[node];
        lemma_back_chain_distinct(came_from, p, (k - 1) as nat);
        lemma_back_chain_links(came_from, p, (k - 1) as nat);
        let rest = back_chain(came_from, p, (k - 1) as nat)->0;
        let c = back_chain(came_from, node, k)->0;
        assert(c == seq![node] + rest);
        if rest.contains(node) {
            let j = choose|j: int| 0 <= j < rest.len() && rest[j] == node;
            if j < rest.len() - 1 {
                assert(came_from[rest[j]] == rest[j + 1]);
                assert(rest[j + 1] == rest[0]);
            }
        }
        assert forall|a: int, b: int| 0 <= a < c.len() && 0 <= b < c.len() && a != b implies c[a]
            != c[b] by {
            if a > 0 && b > 0 {
                assert(c[a] == rest[a - 1] && c[b] == rest[b - 1]);
            } else if a > 0 {
                assert(c[a] == rest[a - 1]);
            } else {
                assert(c[b] == rest[b - 1]);
            }
        }
    }
}

/// A chain that ends takes exactly one step per link it follows: the fuel it
/// needs is its length less one.
proof fn lemma_back_chain_least_fuel(came_from: Map<u128, u128>, node: u128, k: nat)
    requires
        back_chain(came_from, node, k) is Some,
    ensures
        back_chain(came_from, node, (back_chain(came_from, node, k)->0.len() - 1) as nat)
            == back_chain(came_from, node, k),
    decreases k,
{
    if came_from.contains_key(node) {
        let p = came_from[node];
        lemma_back_chain_least_fuel(came_from, p, (k - 1) as nat);
        lemma_back_chain_links(came_from, p, (k - 1) as nat);
    }
}

/// A chain that ends needs no more steps than there are links: each node
/// but the last has a link, and no node comes twice.
proof fn lemma_back_chain_short(came_from: Map<u128, u128>, node: u128, k: nat)
    requires
        came_from.dom().finite(),
        back_chain(came_from, node, k) is Some,
    ensures
        back_chain(came_from, node, came_from.len()) == back_chain(came_from, node, k),
{
    lemma_back_chain_distinct(came_from, node, k);
    lemma_back_chain_links(came_from, node, k);
    lemma_back_chain_least_fuel(came_from, node, k);
    let c = back_chain(came_from, node, k)->0;
    let s = c.drop_last();
    assert(s.no_duplicates()) by {
        assert forall|a: int, b: int| 0 <= a < s.len() && 0 <= b < s.len() && a != b implies s[a]
            != s[b] by {
            assert(s[a] == c[a] && s[b] == c[b]);
        }
    }
    s.unique_seq_to_set();
    assert(s.to_set().subset_of(came_from.dom())) by {
        assert forall|x: u128| s.to_set().contains(x) implies came_from.dom().contains(x) by {
            let i = choose|i: int| 0 <= i < s.len() && s[i] == x;
            assert(c[i] == x);
        }
    }
    vstd::set_lib::lemma_len_subset(s.to_set(), came_from.dom());
    lemma_back_chain_fuel(came_from, node, (c.len() - 1) as nat, came_from.len());
}

/// Whether following the links of `came_from` back from `goal` reaches a
/// node with no predecessor. A chain that does not reach one within as many
/// steps as there are links has met a node twice, so it runs in a cycle.
pub fn route_is_finite(came_from: &HashMap<u128, u128>, goal: u128) -> (r: bool)
    ensures
        r == reaches_root(came_from@, goal),
{
    let n = came_from.len();
    let mut node = goal;
    let mut steps: usize = 0;
    while steps < n
        invariant
            steps <= n,
            n == came_from@.len(),
            forall|f: nat|
                #[trigger] back_chain(came_from@, node, f) is Some ==> back_chain(
                    came_from@,
                    goal,
                    (steps + f) as nat,
                ) is Some,
            forall|f: nat|
                back_chain(came_from@, goal, (steps + f) as nat) is Some ==> #[trigger] back_chain(
                    came_from@,
                    node,
                    f,
                ) is Some,
        decreases n - steps,
    {
        match came_from.get(&node) {
            Some(prev) => {
                let p = *prev;
                proof {
                    assert forall|f: nat| #[trigger]
                        back_chain(came_from@, p, f) is Some implies back_chain(
                            came_from@,
                            goal,
                            ((steps + 1) + f) as nat,
                        ) is Some by {
                        assert(back_chain(came_from@, node, (f + 1) as nat) is Some);
                        assert(steps + (f + 1) == (steps + 1) + f);
                    }
                    assert forall|f: nat|
                        back_chain(came_from@, goal, ((steps + 1) + f) as nat) is Some implies #[trigger] back_chain(
                            came_from@,
                            p,
                            f,
                        ) is Some by {
                        assert(steps + (f + 1) == (steps + 1) + f);
                        assert(back_chain(came_from@, node, (f + 1) as nat) is Some);
                    }
                }
                node = p;
                steps = steps + 1;
            },
            None => {
                proof {
                    assert(back_chain(came_from@, node, 0) is Some);
                    assert(back_chain(came_from@, goal, steps as nat) is Some);
                }
                return true;
            },
        }
    }
    if came_from.contains_key(&node) {
        proof {
            if reaches_root(came_from@, goal) {
                let k = choose|k: nat| #[trigger] back_chain(came_from@, goal, k) is Some;
                lemma_back_chain_short(came_from@, goal, k);
                assert(back_chain(came_from@, goal, (steps + 0) as nat) is Some);
                assert(back_chain(came_from@, node, 0) is Some);
            }
        }
        false
    } else {
        proof {
            assert(back_chain(came_from@, node, 0) is Some);
            assert(back_chain(came_from@, goal, steps as nat) is Some);
        }
        true
    }
}

/// Reverses a sequence of node ids.
fn reversed(v: Vec<u128>) -> (r: Vec<u128>)
    ensures
        r@ == v@.reverse(),
{
    let mut r: Vec<u128> = Vec::new();
    let mut i: usize = v.len();
    while i > 0
        invariant
            i <= v@.len(),
            r@ == v@.subrange(i as int, v@.len() as int).reverse(),
        decreases i,
    {
        i = i - 1;
        r.push(v[i]);
        assert(v@.subrange(i as int, v@.len() as int).reverse() =~= v@.subrange(
            i + 1,
            v@.len() as int,
        ).reverse().push(v@[i as int]));
    }
    assert(v@.subrange(0, v@.len() as int) =~= v@);
    r
}

/// The route to `goal`: the nodes from the start of the search (the node
/// reached following the predecessor links back from `goal`) to `goal`.
///
/// Each node of the route is the predecessor of the next one, the route ends
/// at `goal`, its first node has no predecessor, and no node comes twice.
pub fn reconstruct_path(came_from: &HashMap<u128, u128>, goal: u128) -> (path: Vec<u128>)
    requires
        reaches_root(came_from@, goal),
    ensures
        forall|k: nat| #[trigger]
            back_chain(came_from@, goal, k) is Some ==> path@ == back_chain(came_from@, goal, k)->0.reverse(),
        path@.len() >= 1,
        path@.last() == goal,
        !came_from@.contains_key(path@[0]),
        path@.no_duplicates(),
        forall|i: int|
            0 <= i < path@.len() - 1 ==> came_from@.contains_key(#[trigger] path@[i + 1])
                && came_from@[path@[i + 1]] == path@[i],
{
    let ghost fuel = choose|k: nat| #[trigger] back_chain(came_from@, goal, k) is Some;
    let ghost whole = back_chain(came_from@, goal, fuel)->0;
    let mut path: Vec<u128> = Vec::new();
    path.push(goal);
    let mut node = goal;
    let ghost mut left = fuel;
    proof {
        assert(whole =~= path@.drop_last() + back_chain(came_from@, node, left)->0);
    }
    loop
        invariant
            path@.len() >= 1,
            path@.last() == node,
            back_chain(came_from@, node, left) is Some,
            whole == path@.drop_last() + back_chain(came_from@, node, left)->0,
            whole == back_chain(came_from@, goal, fuel)->0,
        ensures
            path@ == whole,
        decreases left,
    {
        match came_from.get(&node) {
            Some(prev) => {
                let p = *prev;
                let ghost rest = back_chain(came_from@, p, (left - 1) as nat)->0;
                proof {
                    assert(back_chain(came_from@, node, left)->0 == seq![node] + rest);
                }
                path.push(p);
                node = p;
                proof {
                    left = (left - 1) as nat;
                    assert(whole =~= path@.drop_last() + back_chain(came_from@, node, left)->0);
                }
            },
            None => {
                proof {
                    assert(back_chain(came_from@, node, left)->0 == seq![node]);
                    assert(whole =~= path@);
                }
                break;
            },
        }
    }
    proof {
        lemma_back_chain_links(came_from@, goal, fuel);
        lemma_back_chain_distinct(came_from@, goal, fuel);
    }
    let r = reversed(path);
    proof {
        assert forall|k: nat| #[trigger]
            back_chain(came_from@, goal, k) is Some implies r@ == back_chain(came_from@, goal, k)->0.reverse() by {
            if k <= fuel {
                lemma_back_chain_fuel(came_from@, goal, k, fuel);
            } else {
                lemma_back_chain_fuel(came_from@, goal, fuel, k);
            }
        }
        let n = whole.len();
        assert(r@ == whole.reverse());
        assert(r@.no_duplicates()) by {
            assert forall|a: int, b: int| 0 <= a < r@.len() && 0 <= b < r@.len() && a != b implies r@[a]
                != r@[b] by {
                assert(r@[a] == whole[whole.len() - 1 - a]);
                assert(r@[b] == whole[whole.len() - 1 - b]);
            }
        }
        assert(r@.last() == whole[0]);
        assert(r@[0] == whole[n - 1]);
        assert forall|i: int| 0 <= i < r@.len() - 1 implies came_from@.contains_key(
            #[trigger] r@[i + 1],
        ) && came_from@[r@[i + 1]] == r@[i] by {
            assert(r@[i + 1] == whole[n - 1 - (i + 1)]);
            assert(r@[i] == whole[n - 1 - i]);
            assert(whole[n - 2 - i] == whole[(n - 2 - i)]);
        }
    }
    r
}

} // verus!
