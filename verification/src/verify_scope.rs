//! The scope of an incremental verification: the functions that changed,
//! plus every function that calls one of them, directly or through other
//! callers.
//!
//! The call graph is given as a list of `(caller, callees)` entries.

use vstd::prelude::*;
use crate::ids::FunctionId;
use crate::propagation::strictly_increasing;

verus! {

broadcast use vstd::seq_lib::group_seq_properties;

/// The inner values of a list of function ids.
pub open spec fn fn_ids(s: Seq<FunctionId>) -> Seq<u32> {
    s.map_values(|f: FunctionId| f.0)
}

/// Whether `callee` is among `callees`.
pub open spec fn callee_in(callees: Seq<FunctionId>, callee: u32) -> bool {
    exists|j: int| 0 <= j < callees.len() && (#[trigger] callees[j]).0 == callee
}

/// `t` holds every changed function.
pub open spec fn holds_seeds(affected: Seq<FunctionId>, t: Set<u32>) -> bool {
    forall|k: int| 0 <= k < affected.len() ==> t.contains((#[trigger] affected[k]).0)
}

/// `t` is closed under callers: a caller of a member is a member.
pub open spec fn closed_under_callers(calls: Seq<(FunctionId, Vec<FunctionId>)>, t: Set<u32>) -> bool {
    forall|k: int, callee: u32|
        0 <= k < calls.len() && #[trigger] t.contains(callee) && #[trigger] callee_in(calls[k].1@, callee)
            ==> t.contains(calls[k].0.0)
}

/// Every function id that the changed list or the call graph names as a
/// changed function or a caller.
pub open spec fn scope_universe(calls: Seq<(FunctionId, Vec<FunctionId>)>, affected: Seq<FunctionId>) -> Set<u32> {
    fn_ids(affected).to_set() + calls.map_values(|e: (FunctionId, Vec<FunctionId>)| e.0.0).to_set()
}

/// Whether `x` occurs in `v`.
pub fn contains_u32(v: &Vec<u32>, x: u32) -> (r: bool)
    ensures
        r == v@.contains(x),
{
    let mut i: usize = 0;
    while i < v.len()
        invariant
            i <= v@.len(),
            forall|k: int| 0 <= k < i ==> v@[k] != x,
        decreases v@.len() - i,
    {
        if v[i] == x {
            return true;
        }
        i = i + 1;
    }
    false
}

/// Inserts `x` into a strictly increasing list, keeping it so.
pub fn insert_sorted(v: &mut Vec<u32>, x: u32)
    requires
        strictly_increasing(old(v)@),
    ensures
        strictly_increasing(final(v)@),
        final(v)@.to_set() == old(v)@.to_set().insert(x),
        !old(v)@.contains(x) ==> final(v)@.len() == old(v)@.len() + 1,
        old(v)@.contains(x) ==> final(v)@ == old(v)@,
{
    let mut j: usize = 0;
    while j < v.len() && v[j] < x
        invariant
            j <= v@.len(),
            forall|k: int| 0 <= k < j ==> v@[k] < x,
        decreases v@.len() - j,
    {
        j = j + 1;
    }
    if j < v.len() && v[j] == x {
        assert(v@.contains(x));
        assert(v@.to_set().insert(x) =~= v@.to_set());
        return;
    }
    let ghost before = v@;
    assert(!before.contains(x)) by {
        if before.contains(x) {
            let k = choose|k: int| 0 <= k < before.len() && before[k] == x;
            if k >= j {
                assert(before[j as int] <= before[k]) by {
                    if j < k {}
                }
            }
        }
    }
    v.insert(j, x);
    proof {
        before.insert_ensures(j as int, x);
        assert forall|a: int, b: int| 0 <= a < b < v@.len() implies v@[a] < v@[b] by {
            if b < j {
            } else if b == j {
            } else if a < j {
                assert(v@[b] == before[b - 1]);
                assert(before[j as int] > x);
                assert(before[j as int] <= before[b - 1]) by {
                    if j < b - 1 {}
                }
            } else if a == j {
                assert(v@[b] == before[b - 1]);
                assert(before[j as int] > x);
                assert(before[j as int] <= before[b - 1]) by {
                    if j < b - 1 {}
                }
            } else {
                assert(v@[a] == before[a - 1]);
                assert(v@[b] == before[b - 1]);
            }
        }
        assert(v@.to_set() =~= before.to_set().insert(x)) by {
            assert forall|y: u32| v@.to_set().contains(y) implies before.to_set().insert(x).contains(y) by {
                let k = choose|k: int| 0 <= k < v@.len() && v@[k] == y;
                if k < j {
                    assert(before[k] == y);
                } else if k > j {
                    assert(before[k - 1] == y);
                }
            }
            assert forall|y: u32| before.to_set().insert(x).contains(y) implies v@.to_set().contains(y) by {
                if y == x {
                    assert(v@[j as int] == x);
                } else {
                    let k = choose|k: int| 0 <= k < before.len() && before[k] == y;
                    if k < j {
                        assert(v@[k] == y);
                    } else {
                        assert(v@[k + 1] == y);
                    }
                }
            }
        }
    }
}

fn any_callee_in(callees: &Vec<FunctionId>, seen: &Vec<u32>) -> (r: bool)
    ensures
        r == exists|callee: u32| #[trigger] seen@.contains(callee) && callee_in(callees@, callee),
{
    let mut j: usize = 0;
    while j < callees.len()
        invariant
            j <= callees@.len(),
            forall|k: int| 0 <= k < j ==> !seen@.contains((#[trigger] callees@[k]).0),
        decreases callees@.len() - j,
    {
        if contains_u32(seen, callees[j].0) {
            assert(seen@.contains(callees@[j as int].0) && callee_in(callees@, callees@[j as int].0));
            return true;
        }
        j = j + 1;
    }
    false
}

proof fn lemma_sorted_len_bound(s: Seq<u32>, u: Set<u32>)
    requires
        strictly_increasing(s),
        s.to_set().subset_of(u),
        u.finite(),
    ensures
        s.len() <= u.len(),
{
    assert(s.no_duplicates());
    s.unique_seq_to_set();
    vstd::set_lib::lemma_len_subset(s.to_set(), u);
}

/// The verification scope: the changed functions and, transitively, their
/// callers, each once, in ascending order of id. It is the least set that
/// holds the changed functions and is closed under callers.
pub fn find_verification_scope(calls: &[(FunctionId, Vec<FunctionId>)], affected: &[FunctionId]) -> (r: Vec<FunctionId>)
    ensures
        strictly_increasing(fn_ids(r@)),
        holds_seeds(affected@, fn_ids(r@).to_set()),
        closed_under_callers(calls@, fn_ids(r@).to_set()),
        forall|t: Set<u32>| #[trigger] holds_seeds(affected@, t) && closed_under_callers(calls@, t)
            ==> fn_ids(r@).to_set().subset_of(t),
{
    let ghost universe = scope_universe(calls@, affected@);
    let mut seen: Vec<u32> = Vec::new();
    for k in 0..affected.len()
        invariant
            strictly_increasing(seen@),
            seen@.to_set() == fn_ids(affected@.subrange(0, k as int)).to_set(),
    {
        let ghost before = seen@;
        insert_sorted(&mut seen, affected[k].0);
        assert(fn_ids(affected@.subrange(0, k + 1)) =~= fn_ids(affected@.subrange(0, k as int)).push(affected@[k as int].0));
        assert(fn_ids(affected@.subrange(0, k + 1)).to_set() =~= fn_ids(affected@.subrange(0, k as int)).to_set().insert(affected@[k as int].0));
    }
    assert(affected@.subrange(0, affected@.len() as int) =~= affected@);
    proof {
        assert forall|t: Set<u32>| #[trigger] holds_seeds(affected@, t) && closed_under_callers(calls@, t)
            implies seen@.to_set().subset_of(t) by {
            assert forall|x: u32| seen@.to_set().contains(x) implies t.contains(x) by {
                let k = choose|k: int| 0 <= k < affected@.len() && fn_ids(affected@)[k] == x;
                assert(t.contains(affected@[k].0));
            }
        }
        assert(seen@.to_set().subset_of(universe));
    }
    loop
        invariant
            strictly_increasing(seen@),
            universe == scope_universe(calls@, affected@),
            seen@.to_set().subset_of(universe),
            universe.finite(),
            fn_ids(affected@).to_set().subset_of(seen@.to_set()),
            forall|t: Set<u32>| #[trigger] holds_seeds(affected@, t) && closed_under_callers(calls@, t)
                ==> seen@.to_set().subset_of(t),
        ensures
            strictly_increasing(seen@),
            fn_ids(affected@).to_set().subset_of(seen@.to_set()),
            closed_under_callers(calls@, seen@.to_set()),
            forall|t: Set<u32>| #[trigger] holds_seeds(affected@, t) && closed_under_callers(calls@, t)
                ==> seen@.to_set().subset_of(t),
        decreases universe.len() - seen@.len(),
    {
        proof {
            lemma_sorted_len_bound(seen@, universe);
        }
        let ghost start = seen@;
        let mut changed = false;
        for i in 0..calls.len()
            invariant
                strictly_increasing(seen@),
                seen@.to_set().subset_of(universe),
                universe.finite(),
                universe == scope_universe(calls@, affected@),
                fn_ids(affected@).to_set().subset_of(seen@.to_set()),
                forall|t: Set<u32>| #[trigger] holds_seeds(affected@, t) && closed_under_callers(calls@, t)
                    ==> seen@.to_set().subset_of(t),
                changed ==> seen@.len() > start.len(),
                !changed ==> seen@ == start,
                !changed ==> forall|k: int, callee: u32|
                    0 <= k < i && #[trigger] start.to_set().contains(callee) && #[trigger] callee_in(calls@[k].1@, callee)
                        ==> start.to_set().contains(calls@[k].0.0),
        {
            let caller = calls[i].0.0;
            if !contains_u32(&seen, caller) {
                if any_callee_in(&calls[i].1, &seen) {
                    let ghost before = seen@;
                    let ghost c0 = choose|callee: u32| #[trigger] before.contains(callee) && callee_in(calls@[i as int].1@, callee);
                    insert_sorted(&mut seen, caller);
                    changed = true;
                    proof {
                        assert(calls@.map_values(|e: (FunctionId, Vec<FunctionId>)| e.0.0)[i as int] == caller);
                        assert(universe.contains(caller));
                        assert forall|t: Set<u32>| #[trigger] holds_seeds(affected@, t) && closed_under_callers(calls@, t)
                            implies seen@.to_set().subset_of(t) by {
                            assert(before.to_set().contains(c0));
                            assert(t.contains(c0));
                            assert(callee_in(calls@[i as int].1@, c0));
                            assert(t.contains(calls@[i as int].0.0));
                        }
                    }
                } else {
                    proof {
                        assert forall|k: int, callee: u32|
                            0 <= k < i + 1 && #[trigger] start.to_set().contains(callee) && #[trigger] callee_in(calls@[k].1@, callee)
                                implies !changed ==> start.to_set().contains(calls@[k].0.0) by {
                            if k == i && !changed {
                                assert(seen@.contains(callee));
                            }
                        }
                    }
                }
            } else {
                proof {
                    assert forall|k: int, callee: u32|
                        0 <= k < i + 1 && #[trigger] start.to_set().contains(callee) && #[trigger] callee_in(calls@[k].1@, callee)
                            implies !changed ==> start.to_set().contains(calls@[k].0.0) by {
                        if k == i && !changed {
                            assert(seen@.contains(caller));
                        }
                    }
                }
            }
        }
        if !changed {
            break;
        }
        proof {
            lemma_sorted_len_bound(seen@, universe);
        }
    }
    let mut out: Vec<FunctionId> = Vec::new();
    for k in 0..seen.len()
        invariant
            out@.len() == k,
            forall|j: int| 0 <= j < k ==> (#[trigger] out@[j]).0 == seen@[j],
    {
        out.push(FunctionId(seen[k]));
    }
    assert(fn_ids(out@) =~= seen@);
    proof {
        assert forall|k: int| 0 <= k < affected@.len() implies fn_ids(out@).to_set().contains((#[trigger] affected@[k]).0) by {
            assert(fn_ids(affected@)[k] == affected@[k].0);
            assert(fn_ids(affected@).to_set().contains(affected@[k].0));
        }
    }
    out
}

} // verus!
