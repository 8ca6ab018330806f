//! Port lists: the sorted, duplicate-free listing of a set of ports.

use vstd::prelude::*;

verus! {

/// Each element is smaller than every later one.
pub open spec fn strictly_increasing(s: Seq<u16>) -> bool {
    forall|i: int, j: int| 0 <= i < j < s.len() ==> s[i] < s[j]
}

/// The members of `set` that are below `bound`, in increasing order.
pub open spec fn ascending_below(set: Set<u16>, bound: nat) -> Seq<u16>
    decreases bound,
{
    if bound == 0 {
        Seq::empty()
    } else {
        let rest = ascending_below(set, (bound - 1) as nat);
        if bound <= 65536 && set.contains((bound - 1) as u16) {
            rest.push((bound - 1) as u16)
        } else {
            rest
        }
    }
}

/// The members of `set`, in increasing order.
pub open spec fn ascending(set: Set<u16>) -> Seq<u16> {
    ascending_below(set, 65536)
}

/// What sorting a port list and dropping its duplicates yields.
pub open spec fn sort_dedup_spec(ports: Seq<u16>) -> Seq<u16> {
    ascending(ports.to_set())
}

/// `ascending_below` lists exactly the members below the bound, in
/// strictly increasing order.
pub proof fn lemma_ascending_below(set: Set<u16>, bound: nat)
    ensures
        strictly_increasing(ascending_below(set, bound)),
        forall|p: u16|
            #![trigger ascending_below(set, bound).contains(p)]
            #![trigger set.contains(p)]
            ascending_below(set, bound).contains(p) <==> (set.contains(p) && (p as nat) < bound),
    decreases bound,
{
    let all = ascending_below(set, bound);
    if bound == 0 {
        assert(all =~= Seq::<u16>::empty());
    } else {
        lemma_ascending_below(set, (bound - 1) as nat);
        let rest = ascending_below(set, (bound - 1) as nat);
        if bound <= 65536 && set.contains((bound - 1) as u16) {
            let top = (bound - 1) as u16;
            assert(all == rest.push(top));
            assert(all.len() == rest.len() + 1);
            assert forall|i: int, j: int| 0 <= i < j < all.len() implies all[i] < all[j] by {
                assert(all[i] == rest[i]);
                assert(rest.contains(rest[i]));
                if j < rest.len() {
                    assert(all[j] == rest[j]);
                } else {
                    assert(all[j] == top);
                    assert((rest[i] as nat) < bound - 1);
                }
            }
            assert forall|p: u16| all.contains(p) <==> (set.contains(p) && (p as nat) < bound) by {
                if all.contains(p) {
                    let k = choose|k: int| 0 <= k < all.len() && all[k] == p;
                    if k < rest.len() {
                        assert(rest[k] == p);
                        assert(rest.contains(p));
                    }
                }
                if set.contains(p) && (p as nat) < bound {
                    if p == top {
                        assert(all[all.len() - 1] == p);
                    } else {
                        assert(rest.contains(p));
                        let k = choose|k: int| 0 <= k < rest.len() && rest[k] == p;
                        assert(all[k] == p);
                    }
                }
            }
        } else {
            assert(all == rest);
            assert forall|p: u16| all.contains(p) <==> (set.contains(p) && (p as nat) < bound) by {
                if set.contains(p) && (p as nat) < bound {
                    assert((p as nat) < bound - 1);
                }
            }
        }
    }
}

/// The increasing listing of a set is strictly increasing and holds exactly
/// the members of the set.
pub proof fn lemma_ascending(set: Set<u16>)
    ensures
        strictly_increasing(ascending(set)),
        forall|p: u16|
            #![trigger ascending(set).contains(p)]
            #![trigger set.contains(p)]
            ascending(set).contains(p) <==> set.contains(p),
{
    lemma_ascending_below(set, 65536);
}

/// Two strictly increasing lists with the same members are the same list.
pub proof fn lemma_increasing_unique(a: Seq<u16>, b: Seq<u16>)
    requires
        strictly_increasing(a),
        strictly_increasing(b),
        forall|p: u16| a.contains(p) <==> b.contains(p),
    ensures
        a == b,
    decreases a.len(),
{
    if a.len() == 0 {
        if b.len() > 0 {
            assert(b.contains(b[0]));
        }
        assert(a =~= b);
    } else {
        let top = a[a.len() - 1];
        assert(a.contains(top));
        assert(b.contains(top));
        let j = choose|j: int| 0 <= j < b.len() && b[j] == top;
        let other = b[b.len() - 1];
        assert(b.contains(other));
        assert(a.contains(other));
        let i = choose|i: int| 0 <= i < a.len() && a[i] == other;
        assert(other == top);
        let a0 = a.drop_last();
        let b0 = b.drop_last();
        assert forall|p: u16| a0.contains(p) <==> b0.contains(p) by {
            if a0.contains(p) {
                let k = choose|k: int| 0 <= k < a0.len() && a0[k] == p;
                assert(a[k] == p);
                assert(a.contains(p));
                let m = choose|m: int| 0 <= m < b.len() && b[m] == p;
                assert(m < b.len() - 1);
                assert(b0[m] == p);
            }
            if b0.contains(p) {
                let k = choose|k: int| 0 <= k < b0.len() && b0[k] == p;
                assert(b[k] == p);
                assert(b.contains(p));
                let m = choose|m: int| 0 <= m < a.len() && a[m] == p;
                assert(m < a.len() - 1);
                assert(a0[m] == p);
            }
        }
        lemma_increasing_unique(a0, b0);
        assert(a =~= a0.push(top));
        assert(b =~= b0.push(top));
    }
}

/// Sorting and deduplicating a list that is already sorted and free of
/// duplicates leaves it as it is.
pub proof fn lemma_sort_dedup_fixes_sorted(ports: Seq<u16>)
    requires
        strictly_increasing(ports),
    ensures
        sort_dedup_spec(ports) == ports,
{
    lemma_ascending(ports.to_set());
    assert forall|p: u16| sort_dedup_spec(ports).contains(p) <==> ports.contains(p) by {
        assert(ports.to_set().contains(p) <==> ports.contains(p));
    }
    lemma_increasing_unique(sort_dedup_spec(ports), ports);
}

/// Sorting and deduplicating twice gives what doing it once gives.
pub proof fn lemma_sort_dedup_idempotent(ports: Seq<u16>)
    ensures
        sort_dedup_spec(sort_dedup_spec(ports)) == sort_dedup_spec(ports),
{
    lemma_ascending(ports.to_set());
    lemma_sort_dedup_fixes_sorted(sort_dedup_spec(ports));
}

/// Some entry of `list` from index `lo` up to index `hi` is `p`.
pub open spec fn occurs_between(list: Seq<u16>, lo: int, hi: int, p: u16) -> bool {
    exists|k: int| lo <= k < hi && 0 <= k < list.len() && list[k] == p
}

/// Merges two sorted duplicate-free lists into the sorted duplicate-free
/// list of the ports of both.
fn merge_union(a: &Vec<u16>, b: &Vec<u16>) -> (out: Vec<u16>)
    requires
        strictly_increasing(a@),
        strictly_increasing(b@),
    ensures
        strictly_increasing(out@),
        forall|p: u16| out@.contains(p) <==> (a@.contains(p) || b@.contains(p)),
{
    let mut out: Vec<u16> = Vec::new();
    let mut i: usize = 0;
    let mut j: usize = 0;
    while i < a.len() || j < b.len()
        invariant
            i <= a.len(),
            j <= b.len(),
            strictly_increasing(a@),
            strictly_increasing(b@),
            strictly_increasing(out@),
            forall|k: int| 0 <= k < out@.len() && i < a.len() ==> #[trigger] out@[k] < a@[i as int],
            forall|k: int| 0 <= k < out@.len() && j < b.len() ==> #[trigger] out@[k] < b@[j as int],
            forall|p: u16|
                out@.contains(p) <==> (occurs_between(a@, 0, i as int, p) || occurs_between(
                    b@,
                    0,
                    j as int,
                    p,
                )),
        decreases a.len() - i + b.len() - j,
    {
        let ghost before = out@;
        let ghost i0 = i as int;
        let ghost j0 = j as int;
        let take_a = j == b.len() || (i < a.len() && a[i] <= b[j]);
        let take_b = i == a.len() || (j < b.len() && b[j] <= a[i]);
        let next = if take_a {
            a[i]
        } else {
            b[j]
        };
        out.push(next);
        if take_a {
            i += 1;
        }
        if take_b {
            j += 1;
        }
        proof {
            assert forall|x: int, y: int| 0 <= x < y < out@.len() implies out@[x] < out@[y] by {
                if y < before.len() {
                    assert(out@[x] == before[x] && out@[y] == before[y]);
                } else {
                    assert(out@[x] == before[x]);
                }
            }
            assert forall|k: int| 0 <= k < out@.len() && i < a.len() implies #[trigger] out@[k]
                < a@[i as int] by {
                if k < before.len() {
                    assert(out@[k] == before[k]);
                }
            }
            assert forall|k: int| 0 <= k < out@.len() && j < b.len() implies #[trigger] out@[k]
                < b@[j as int] by {
                if k < before.len() {
                    assert(out@[k] == before[k]);
                }
            }
            assert forall|p: u16|
                out@.contains(p) <==> (occurs_between(a@, 0, i as int, p) || occurs_between(
                    b@,
                    0,
                    j as int,
                    p,
                )) by {
                if out@.contains(p) {
                    let k = choose|k: int| 0 <= k < out@.len() && out@[k] == p;
                    if k < before.len() {
                        assert(before[k] == p);
                        assert(before.contains(p));
                        if occurs_between(a@, 0, i0, p) {
                            let m = choose|m: int| 0 <= m < i0 && 0 <= m < a@.len() && a@[m] == p;
                            assert(0 <= m < i && a@[m] == p);
                        } else {
                            let m = choose|m: int| 0 <= m < j0 && 0 <= m < b@.len() && b@[m] == p;
                            assert(0 <= m < j && b@[m] == p);
                        }
                    } else {
                        if take_a {
                            assert(0 <= i0 < i && a@[i0] == p);
                        } else {
                            assert(0 <= j0 < j && b@[j0] == p);
                        }
                    }
                }
                if occurs_between(a@, 0, i as int, p) {
                    let m = choose|m: int| 0 <= m < i && 0 <= m < a@.len() && a@[m] == p;
                    if m < i0 {
                        assert(occurs_between(a@, 0, i0, p));
                        assert(before.contains(p));
                        let k = choose|k: int| 0 <= k < before.len() && before[k] == p;
                        assert(out@[k] == p);
                    } else {
                        assert(out@[before.len() as int] == p);
                    }
                }
                if occurs_between(b@, 0, j as int, p) {
                    let m = choose|m: int| 0 <= m < j && 0 <= m < b@.len() && b@[m] == p;
                    if m < j0 {
                        assert(occurs_between(b@, 0, j0, p));
                        assert(before.contains(p));
                        let k = choose|k: int| 0 <= k < before.len() && before[k] == p;
                        assert(out@[k] == p);
                    } else {
                        assert(out@[before.len() as int] == p);
                    }
                }
            }
        }
    }
    proof {
        assert forall|p: u16| out@.contains(p) <==> (a@.contains(p) || b@.contains(p)) by {
            if a@.contains(p) {
                let m = choose|m: int| 0 <= m < a@.len() && a@[m] == p;
                assert(occurs_between(a@, 0, i as int, p));
            }
            if b@.contains(p) {
                let m = choose|m: int| 0 <= m < b@.len() && b@[m] == p;
                assert(occurs_between(b@, 0, j as int, p));
            }
        }
    }
    out
}

/// The sorted duplicate-free list of the ports from index `lo` up to index
/// `hi`.
fn sort_range(ports: &Vec<u16>, lo: usize, hi: usize) -> (sorted: Vec<u16>)
    requires
        lo <= hi <= ports@.len(),
    ensures
        strictly_increasing(sorted@),
        forall|p: u16| sorted@.contains(p) <==> occurs_between(ports@, lo as int, hi as int, p),
    decreases hi - lo,
{
    if hi - lo == 0 {
        let sorted: Vec<u16> = Vec::new();
        return sorted;
    }
    if hi - lo == 1 {
        let mut sorted: Vec<u16> = Vec::new();
        sorted.push(ports[lo]);
        proof {
            assert forall|p: u16| sorted@.contains(p) <==> occurs_between(
                ports@,
                lo as int,
                hi as int,
                p,
            ) by {
                if sorted@.contains(p) {
                    assert(lo <= lo < hi && ports@[lo as int] == p);
                }
                if occurs_between(ports@, lo as int, hi as int, p) {
                    assert(sorted@[0] == p);
                }
            }
        }
        return sorted;
    }
    let mid: usize = lo + (hi - lo) / 2;
    let left = sort_range(ports, lo, mid);
    let right = sort_range(ports, mid, hi);
    let sorted = merge_union(&left, &right);
    proof {
        assert forall|p: u16| sorted@.contains(p) <==> occurs_between(
            ports@,
            lo as int,
            hi as int,
            p,
        ) by {
            if occurs_between(ports@, lo as int, mid as int, p) {
                let k = choose|k: int| lo <= k < mid && 0 <= k < ports@.len() && ports@[k] == p;
                assert(lo <= k < hi && ports@[k] == p);
            }
            if occurs_between(ports@, mid as int, hi as int, p) {
                let k = choose|k: int| mid <= k < hi && 0 <= k < ports@.len() && ports@[k] == p;
                assert(lo <= k < hi && ports@[k] == p);
            }
            if occurs_between(ports@, lo as int, hi as int, p) {
                let k = choose|k: int| lo <= k < hi && 0 <= k < ports@.len() && ports@[k] == p;
                if k < mid {
                    assert(occurs_between(ports@, lo as int, mid as int, p));
                } else {
                    assert(occurs_between(ports@, mid as int, hi as int, p));
                }
            }
        }
    }
    sorted
}

/// Sorts a port list and drops its duplicates.
pub fn sort_dedup(ports: &Vec<u16>) -> (sorted: Vec<u16>)
    ensures
        sorted@ == sort_dedup_spec(ports@),
        strictly_increasing(sorted@),
        forall|p: u16| sorted@.contains(p) <==> ports@.contains(p),
{
    let sorted = sort_range(ports, 0, ports.len());
    proof {
        assert forall|p: u16| sorted@.contains(p) <==> ports@.contains(p) by {
            if ports@.contains(p) {
                let k = choose|k: int| 0 <= k < ports@.len() && ports@[k] == p;
                assert(occurs_between(ports@, 0, ports@.len() as int, p));
            }
        }
        assert forall|p: u16| sorted@.contains(p) <==> ports@.to_set().contains(p) by {
            assert(ports@.to_set().contains(p) <==> ports@.contains(p));
        }
        lemma_ascending(ports@.to_set());
        lemma_increasing_unique(sorted@, sort_dedup_spec(ports@));
    }
    sorted
}

} // verus!
