//! The traversal engine: breadth-first expansion across parent and marriage
//! edges, followed in either direction, up to a depth bound. Each reachable
//! node appears at most once, kept at its first (shortest) discovery depth;
//! the starting node is excluded.

use vstd::prelude::*;
use crate::domain::Relationship;

verus! {

/// Whether the edge `e` links `a` and `b`, in either direction.
pub open spec fn connects(e: Relationship, a: u64, b: u64) -> bool {
    (e.spec_from_id().value == a && e.spec_to_id().value == b)
    || (e.spec_from_id().value == b && e.spec_to_id().value == a)
}

/// Whether some edge of `edges` links `a` and `b`, in either direction.
pub open spec fn adjacent(edges: Seq<Relationship>, a: u64, b: u64) -> bool {
    exists|i: int| 0 <= i < edges.len() && connects(edges[i], a, b)
}

/// Whether a path of at most `depth` edge crossings leads from `from` to
/// `to` over `edges`.
pub open spec fn reachable_within(edges: Seq<Relationship>, from: u64, to: u64, depth: nat) -> bool
    decreases depth,
{
    if from == to {
        true
    } else if depth == 0 {
        false
    } else {
        exists|m: u64| adjacent(edges, from, m)
            && reachable_within(edges, m, to, (depth - 1) as nat)
    }
}

/// A longer bound reaches everything a shorter one does.
pub proof fn lemma_reachable_monotone(edges: Seq<Relationship>, s: u64, t: u64, d1: nat, d2: nat)
    requires
        reachable_within(edges, s, t, d1),
        d1 <= d2,
    ensures
        reachable_within(edges, s, t, d2),
    decreases d1,
{
    if s != t {
        let m = choose|m: u64| adjacent(edges, s, m)
            && reachable_within(edges, m, t, (d1 - 1) as nat);
        lemma_reachable_monotone(edges, m, t, (d1 - 1) as nat, (d2 - 1) as nat);
    }
}

/// A path within `d` extended by one adjacent step stays within `d + 1`.
pub proof fn lemma_reachable_step(edges: Seq<Relationship>, s: u64, m: u64, t: u64, d: nat)
    requires
        reachable_within(edges, s, m, d),
        adjacent(edges, m, t),
    ensures
        reachable_within(edges, s, t, (d + 1) as nat),
    decreases d,
{
    if s == m {
        assert(reachable_within(edges, t, t, d));
    } else {
        let m1 = choose|m1: u64| adjacent(edges, s, m1)
            && reachable_within(edges, m1, m, (d - 1) as nat);
        lemma_reachable_step(edges, m1, m, t, (d - 1) as nat);
    }
}

/// Unfolding reachability at the far end: a node within `d + 1` hops is
/// within `d` hops, or one step beyond some node within `d` hops.
pub proof fn lemma_reachable_unfold_back(edges: Seq<Relationship>, s: u64, t: u64, d: nat)
    ensures
        reachable_within(edges, s, t, (d + 1) as nat) == (
            reachable_within(edges, s, t, d)
            || exists|m: u64| reachable_within(edges, s, m, d) && adjacent(edges, m, t)
        ),
    decreases d,
{
    if reachable_within(edges, s, t, (d + 1) as nat) {
        if s != t {
            let m1 = choose|m1: u64| adjacent(edges, s, m1)
                && reachable_within(edges, m1, t, d);
            if d == 0 {
                assert(m1 == t);
                assert(reachable_within(edges, s, s, d) && adjacent(edges, s, t));
            } else {
                lemma_reachable_unfold_back(edges, m1, t, (d - 1) as nat);
                if reachable_within(edges, m1, t, (d - 1) as nat) {
                    assert(reachable_within(edges, s, t, d));
                } else {
                    let m2 = choose|m2: u64|
                        reachable_within(edges, m1, m2, (d - 1) as nat)
                        && adjacent(edges, m2, t);
                    assert(reachable_within(edges, s, m2, d));
                }
            }
        }
    }
    if reachable_within(edges, s, t, d) {
        lemma_reachable_monotone(edges, s, t, d, (d + 1) as nat);
    }
    if exists|m: u64| reachable_within(edges, s, m, d) && adjacent(edges, m, t) {
        let m = choose|m: u64| reachable_within(edges, s, m, d) && adjacent(edges, m, t);
        lemma_reachable_step(edges, s, m, t, d);
    }
}

/// A node reached from a distinct start is an endpoint of some edge.
pub proof fn lemma_reachable_endpoint(edges: Seq<Relationship>, s: u64, t: u64, d: nat)
    requires
        reachable_within(edges, s, t, d),
        s != t,
    ensures
        exists|i: int| 0 <= i < edges.len()
            && ((#[trigger] edges[i]).spec_from_id().value == t
                || edges[i].spec_to_id().value == t),
    decreases d,
{
    let m = choose|m: u64| adjacent(edges, s, m)
        && reachable_within(edges, m, t, (d - 1) as nat);
    if m == t {
        let i = choose|i: int| 0 <= i < edges.len() && connects(edges[i], s, m);
        assert(edges[i].spec_from_id().value == t || edges[i].spec_to_id().value == t);
    } else {
        lemma_reachable_endpoint(edges, m, t, (d - 1) as nat);
    }
}

proof fn lemma_contains_push(s: Seq<u64>, x: u64, y: u64)
    ensures
        s.push(x).contains(y) == (s.contains(y) || y == x),
{
    if s.contains(y) {
        let i = choose|i: int| 0 <= i < s.len() && s[i] == y;
        assert(s.push(x)[i] == y);
    }
    assert(s.push(x)[s.len() as int] == x);
    if s.push(x).contains(y) {
        let i = choose|i: int| 0 <= i < s.push(x).len() && s.push(x)[i] == y;
        if i < s.len() {
            assert(s[i] == y);
        }
    }
}

proof fn lemma_no_dup_push(s: Seq<u64>, x: u64)
    requires
        s.no_duplicates(),
        !s.contains(x),
    ensures
        s.push(x).no_duplicates(),
{
    assert forall|i: int, j: int|
        0 <= i < s.push(x).len() && 0 <= j < s.push(x).len() && i != j
        implies s.push(x)[i] != s.push(x)[j] by {
        if i < s.len() && j < s.len() {
            assert(s.push(x)[i] == s[i] && s.push(x)[j] == s[j]);
        } else if i == s.len() {
            assert(s.push(x)[j] == s[j]);
            if s[j] == x {
                assert(s.contains(x));
            }
        } else {
            assert(s.push(x)[i] == s[i]);
            if s[i] == x {
                assert(s.contains(x));
            }
        }
    }
}

/// Whether `v` holds `x`.
fn vec_contains(v: &Vec<u64>, x: u64) -> (b: bool)
    ensures
        b == v@.contains(x),
{
    let mut i: usize = 0;
    while i < v.len()
        invariant
            0 <= i <= v@.len(),
            forall|k: int| 0 <= k < i ==> v@[k] != x,
        decreases v@.len() - i,
    {
        if v[i] == x {
            return true;
        }
        i += 1;
    }
    false
}

/// Breadth-first search from `start` over `edges`, followed undirected, up
/// to `max_depth` hops. Returns exactly the identifiers reachable within
/// the bound, the start excluded, each at most once, in discovery order.
pub fn bfs_reachable_ids(edges: &Vec<Relationship>, start: u64, max_depth: u64) -> (r: Vec<u64>)
    ensures
        r@.no_duplicates(),
        forall|k: int| 0 <= k < r@.len()
            ==> reachable_within(edges@, start, #[trigger] r@[k], max_depth as nat)
                && r@[k] != start,
        forall|id: u64|
            #[trigger] reachable_within(edges@, start, id, max_depth as nat) && id != start
            ==> r@.contains(id),
{
    let ghost es = edges@;
    let mut visited: Vec<u64> = Vec::new();
    visited.push(start);
    let mut frontier: Vec<u64> = Vec::new();
    frontier.push(start);
    let mut result: Vec<u64> = Vec::new();
    let mut d: u64 = 0;
    proof {
        assert(visited@ =~= seq![start]);
        assert(frontier@ =~= seq![start]);
        assert(visited@[0] == start);
        assert(visited@.contains(start));
    }
    while d < max_depth
        invariant
            d <= max_depth,
            es == edges@,
            forall|id: u64| #[trigger] visited@.contains(id)
                ==> reachable_within(es, start, id, d as nat),
            forall|id: u64| #[trigger] reachable_within(es, start, id, d as nat)
                ==> visited@.contains(id),
            forall|id: u64| #[trigger] frontier@.contains(id)
                ==> reachable_within(es, start, id, d as nat)
                    && !(d > 0 && reachable_within(es, start, id, (d - 1) as nat)),
            forall|id: u64|
                #[trigger] reachable_within(es, start, id, d as nat)
                    && !(d > 0 && reachable_within(es, start, id, (d - 1) as nat))
                ==> frontier@.contains(id),
            visited@.no_duplicates(),
            visited@.len() == result@.len() + 1,
            visited@[0] == start,
            forall|k: int| 0 <= k < result@.len() ==> visited@[k + 1] == #[trigger] result@[k],
        decreases max_depth - d,
    {
        let mut next: Vec<u64> = Vec::new();
        let mut fi: usize = 0;
        proof {
            assert forall|id: u64| #[trigger] visited@.contains(id)
                implies reachable_within(es, start, id, (d + 1) as nat) by {
                lemma_reachable_monotone(es, start, id, d as nat, (d + 1) as nat);
            }
        }
        while fi < frontier.len()
            invariant
                d < max_depth,
                es == edges@,
                0 <= fi <= frontier@.len(),
                forall|id: u64| #[trigger] frontier@.contains(id)
                    ==> reachable_within(es, start, id, d as nat)
                        && !(d > 0 && reachable_within(es, start, id, (d - 1) as nat)),
                forall|id: u64|
                    #[trigger] reachable_within(es, start, id, d as nat)
                        && !(d > 0 && reachable_within(es, start, id, (d - 1) as nat))
                    ==> frontier@.contains(id),
                forall|id: u64| #[trigger] visited@.contains(id)
                    ==> reachable_within(es, start, id, (d + 1) as nat),
                forall|id: u64| #[trigger] reachable_within(es, start, id, d as nat)
                    ==> visited@.contains(id),
                forall|j: int, u: u64|
                    0 <= j < fi && #[trigger] adjacent(es, frontier@[j], u)
                    ==> visited@.contains(u),
                forall|id: u64| #[trigger] next@.contains(id)
                    == (visited@.contains(id) && !reachable_within(es, start, id, d as nat)),
                visited@.no_duplicates(),
                visited@.len() == result@.len() + 1,
                visited@[0] == start,
                forall|k: int| 0 <= k < result@.len() ==> visited@[k + 1] == #[trigger] result@[k],
            decreases frontier@.len() - fi,
        {
            let f = frontier[fi];
            proof {
                assert(frontier@.contains(f));
            }
            let mut ei: usize = 0;
            while ei < edges.len()
                invariant
                    d < max_depth,
                    es == edges@,
                    0 <= ei <= es.len(),
                    f == frontier@[fi as int],
                    0 <= fi < frontier@.len(),
                    reachable_within(es, start, f, d as nat),
                    forall|id: u64| #[trigger] frontier@.contains(id)
                        ==> reachable_within(es, start, id, d as nat)
                            && !(d > 0 && reachable_within(es, start, id, (d - 1) as nat)),
                    forall|id: u64|
                        #[trigger] reachable_within(es, start, id, d as nat)
                            && !(d > 0 && reachable_within(es, start, id, (d - 1) as nat))
                        ==> frontier@.contains(id),
                    forall|id: u64| #[trigger] visited@.contains(id)
                        ==> reachable_within(es, start, id, (d + 1) as nat),
                    forall|id: u64| #[trigger] reachable_within(es, start, id, d as nat)
                        ==> visited@.contains(id),
                    forall|j: int, u: u64|
                        0 <= j < fi && #[trigger] adjacent(es, frontier@[j], u)
                        ==> visited@.contains(u),
                    forall|k: int, u: u64|
                        0 <= k < ei && #[trigger] connects(es[k], f, u)
                        ==> visited@.contains(u),
                    forall|id: u64| #[trigger] next@.contains(id)
                        == (visited@.contains(id) && !reachable_within(es, start, id, d as nat)),
                    visited@.no_duplicates(),
                    visited@.len() == result@.len() + 1,
                    visited@[0] == start,
                    forall|k: int| 0 <= k < result@.len()
                        ==> visited@[k + 1] == #[trigger] result@[k],
                decreases es.len() - ei,
            {
                let a = edges[ei].from_id().value;
                let b = edges[ei].to_id().value;
                if a == f && !vec_contains(&visited, b) {
                    proof {
                        assert(connects(es[ei as int], f, b));
                        assert(adjacent(es, f, b));
                        lemma_reachable_step(es, start, f, b, d as nat);
                        lemma_no_dup_push(visited@, b);
                        assert forall|y: u64| true implies
                            #[trigger] visited@.push(b).contains(y)
                                == (visited@.contains(y) || y == b) by {
                            lemma_contains_push(visited@, b, y);
                        }
                        assert forall|y: u64| true implies
                            #[trigger] next@.push(b).contains(y)
                                == (next@.contains(y) || y == b) by {
                            lemma_contains_push(next@, b, y);
                        }
                    }
                    visited.push(b);
                    next.push(b);
                    result.push(b);
                }
                let b2 = edges[ei].to_id().value;
                let a2 = edges[ei].from_id().value;
                if b2 == f && !vec_contains(&visited, a2) {
                    proof {
                        assert(connects(es[ei as int], f, a2));
                        assert(adjacent(es, f, a2));
                        lemma_reachable_step(es, start, f, a2, d as nat);
                        lemma_no_dup_push(visited@, a2);
                        assert forall|y: u64| true implies
                            #[trigger] visited@.push(a2).contains(y)
                                == (visited@.contains(y) || y == a2) by {
                            lemma_contains_push(visited@, a2, y);
                        }
                        assert forall|y: u64| true implies
                            #[trigger] next@.push(a2).contains(y)
                                == (next@.contains(y) || y == a2) by {
                            lemma_contains_push(next@, a2, y);
                        }
                    }
                    visited.push(a2);
                    next.push(a2);
                    result.push(a2);
                }
                proof {
                    assert forall|k: int, u: u64|
                        0 <= k < ei + 1 && #[trigger] connects(es[k], f, u)
                        implies visited@.contains(u) by {
                        if k == ei {
                            let e = es[k];
                            if e.spec_from_id().value == f {
                                assert(u == e.spec_to_id().value || u == f);
                            }
                            if e.spec_to_id().value == f {
                                assert(u == e.spec_from_id().value || u == f);
                            }
                            assert(reachable_within(es, start, f, d as nat));
                            lemma_reachable_monotone(es, start, f, d as nat, (d + 1) as nat);
                        }
                    }
                }
                ei += 1;
            }
            proof {
                assert forall|j: int, u: u64|
                    0 <= j < fi + 1 && #[trigger] adjacent(es, frontier@[j], u)
                    implies visited@.contains(u) by {
                    if j == fi {
                        let k = choose|k: int| 0 <= k < es.len()
                            && connects(es[k], frontier@[j], u);
                        assert(connects(es[k], f, u));
                    }
                }
            }
            fi += 1;
        }
        proof {
            assert forall|id: u64|
                #[trigger] reachable_within(es, start, id, (d + 1) as nat)
                implies visited@.contains(id) by {
                lemma_reachable_unfold_back(es, start, id, d as nat);
                if reachable_within(es, start, id, d as nat) {
                } else {
                    let m = choose|m: u64| reachable_within(es, start, m, d as nat)
                        && adjacent(es, m, id);
                    if d > 0 && reachable_within(es, start, m, (d - 1) as nat) {
                        lemma_reachable_step(es, start, m, id, (d - 1) as nat);
                        assert(false);
                    }
                    assert(frontier@.contains(m));
                    let j = choose|j: int| 0 <= j < frontier@.len() && frontier@[j] == m;
                    assert(adjacent(es, frontier@[j], id));
                }
            }
        }
        frontier = next;
        d += 1;
        proof {
            assert forall|id: u64| #[trigger] reachable_within(es, start, id, d as nat)
                implies visited@.contains(id) by {
                assert(d as nat == ((d - 1) + 1) as nat);
                assert(reachable_within(es, start, id, ((d - 1) + 1) as nat));
            }
        }
    }
    proof {
        assert forall|k: int| 0 <= k < result@.len()
            implies reachable_within(es, start, #[trigger] result@[k], max_depth as nat)
                && result@[k] != start by {
            assert(visited@[k + 1] == result@[k]);
            assert(visited@.contains(result@[k]));
            if result@[k] == start {
                assert(visited@[0] == visited@[k + 1]);
            }
        }
        assert(result@.no_duplicates()) by {
            assert forall|a: int, b: int|
                0 <= a < result@.len() && 0 <= b < result@.len() && a != b
                implies result@[a] != result@[b] by {
                assert(visited@[a + 1] == result@[a]);
                assert(visited@[b + 1] == result@[b]);
            }
        }
        assert forall|id: u64|
            #[trigger] reachable_within(es, start, id, max_depth as nat) && id != start
            implies result@.contains(id) by {
            assert(visited@.contains(id));
            let i = choose|i: int| 0 <= i < visited@.len() && visited@[i] == id;
            assert(i != 0);
            assert(result@[i - 1] == visited@[i]);
        }
    }
    result
}

} // verus!
