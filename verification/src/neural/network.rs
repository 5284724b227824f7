//! The order in which a network runs its neurons: Kahn's topological order
//! over the connections, neurons being numbered `0..n`.
use vstd::prelude::*;

verus! {

broadcast use vstd::seq_lib::lemma_seq_contains_after_push;

/// A list of distinct neurons below `n` holds at most `n` of them.
proof fn lemma_distinct_below(s: Seq<usize>, n: usize)
    requires
        s.no_duplicates(),
        forall|p: int| 0 <= p < s.len() ==> s[p] < n,
    ensures
        s.len() <= n,
{
    let t = s.map_values(|x: usize| x as int);
    assert(t.no_duplicates()) by {
        assert forall|i: int, j: int| 0 <= i < t.len() && 0 <= j < t.len() && i != j implies t[i]
            != t[j] by {
            assert(s[i] != s[j]);
        }
    }
    t.unique_seq_to_set();
    vstd::set_lib::lemma_int_range(0, n as int);
    assert(t.to_set().subset_of(vstd::set_lib::set_int_range(0, n as int))) by {
        assert forall|x: int| t.to_set().contains(x) implies vstd::set_lib::set_int_range(
            0,
            n as int,
        ).contains(x) by {
            let i = choose|i: int| 0 <= i < t.len() && t[i] == x;
            assert(s[i] < n);
        }
    }
    vstd::set_lib::lemma_len_subset(t.to_set(), vstd::set_lib::set_int_range(0, n as int));
}

/// How many of the first `k` connections go into `v` from a neuron that is
/// not in `done`.
pub open spec fn pending_in(edges: Seq<(usize, usize)>, done: Seq<usize>, v: usize, k: int) -> nat
    decreases k,
{
    if k <= 0 {
        0
    } else {
        pending_in(edges, done, v, k - 1) + (if edges[k - 1].1 == v && !done.contains(
            edges[k - 1].0,
        ) {
            1nat
        } else {
            0nat
        })
    }
}

/// How many connections from position `j` on go into `v` from a neuron that
/// is not in `done`.
pub open spec fn pending_from(edges: Seq<(usize, usize)>, done: Seq<usize>, v: usize, j: int) -> nat
    decreases edges.len() - j,
{
    if j >= edges.len() || j < 0 {
        0
    } else {
        (if edges[j].1 == v && !done.contains(edges[j].0) {
            1nat
        } else {
            0nat
        }) + pending_from(edges, done, v, j + 1)
    }
}

/// Whether every connection goes between neurons `0..n`.
pub open spec fn edges_within(edges: Seq<(usize, usize)>, n: nat) -> bool {
    forall|i: int| 0 <= i < edges.len() ==> (#[trigger] edges[i]).0 < n && edges[i].1 < n
}

/// Whether every connection into a neuron of the order comes from a neuron
/// placed before it.
pub open spec fn sources_first(order: Seq<usize>, edges: Seq<(usize, usize)>) -> bool {
    forall|p: int, i: int|
        0 <= p < order.len() && 0 <= i < edges.len() && #[trigger] edges[i].1 == #[trigger] order[p]
            ==> exists|q: int| 0 <= q < p && order[q] == edges[i].0
}

/// Whether every neuron left out of the order has a connection from a
/// neuron left out too: the order runs every neuron that a cycle does not
/// hold back.
pub open spec fn blocked_rest(order: Seq<usize>, edges: Seq<(usize, usize)>, n: nat) -> bool {
    forall|v: usize|
        v < n && !order.contains(v) ==> exists|i: int|
            0 <= i < edges.len() && (#[trigger] edges[i]).1 == v && !order.contains(edges[i].0)
}

proof fn lemma_pending_in_bound(edges: Seq<(usize, usize)>, done: Seq<usize>, v: usize, k: int)
    requires
        0 <= k <= edges.len(),
    ensures
        pending_in(edges, done, v, k) <= k,
    decreases k,
{
    if k > 0 {
        lemma_pending_in_bound(edges, done, v, k - 1);
    }
}

/// A count of zero means every connection into `v` comes from `done`; a
/// positive count names one that does not.
proof fn lemma_pending_in_zero(edges: Seq<(usize, usize)>, done: Seq<usize>, v: usize, k: int)
    requires
        0 <= k <= edges.len(),
    ensures
        pending_in(edges, done, v, k) == 0 ==> forall|i: int|
            0 <= i < k && (#[trigger] edges[i]).1 == v ==> done.contains(edges[i].0),
        pending_in(edges, done, v, k) > 0 ==> exists|i: int|
            0 <= i < k && (#[trigger] edges[i]).1 == v && !done.contains(edges[i].0),
    decreases k,
{
    if k > 0 {
        lemma_pending_in_zero(edges, done, v, k - 1);
        if pending_in(edges, done, v, k) > 0 && pending_in(edges, done, v, k - 1) == 0 {
            assert(edges[k - 1].1 == v && !done.contains(edges[k - 1].0));
        }
    }
}

/// Counting from the start and counting the rest add up.
proof fn lemma_pending_split(edges: Seq<(usize, usize)>, done: Seq<usize>, v: usize, j: int)
    requires
        0 <= j <= edges.len(),
    ensures
        pending_in(edges, done, v, j) + pending_from(edges, done, v, j) == pending_in(
            edges,
            done,
            v,
            edges.len() as int,
        ),
    decreases edges.len() - j,
{
    if j < edges.len() {
        lemma_pending_split(edges, done, v, j + 1);
    }
}

/// A neuron placed in an order that runs sources first is in every order
/// that leaves out only neurons held back.
proof fn lemma_runs_in(a: Seq<usize>, b: Seq<usize>, edges: Seq<(usize, usize)>, n: nat, p: int)
    requires
        0 <= p < a.len(),
        forall|k: int| 0 <= k < a.len() ==> a[k] < n,
        sources_first(a, edges),
        blocked_rest(b, edges, n),
    ensures
        b.contains(a[p]),
    decreases p,
{
    if !b.contains(a[p]) {
        let v = a[p];
        let i = choose|i: int|
            0 <= i < edges.len() && (#[trigger] edges[i]).1 == v && !b.contains(edges[i].0);
        assert(edges[i].1 == a[p]);
        let q = choose|q: int| 0 <= q < p && a[q] == edges[i].0;
        lemma_runs_in(a, b, edges, n, q);
    }
}

/// However ready neurons are picked, the same neurons run: two orders that
/// both run sources first and leave out only neurons held back by a cycle
/// hold the same neurons.
pub proof fn law_same_neurons_run(
    a: Seq<usize>,
    b: Seq<usize>,
    edges: Seq<(usize, usize)>,
    n: nat,
)
    requires
        forall|k: int| 0 <= k < a.len() ==> a[k] < n,
        forall|k: int| 0 <= k < b.len() ==> b[k] < n,
        sources_first(a, edges),
        sources_first(b, edges),
        blocked_rest(a, edges, n),
        blocked_rest(b, edges, n),
    ensures
        forall|v: usize| a.contains(v) == b.contains(v),
{
    assert forall|v: usize| a.contains(v) implies b.contains(v) by {
        let p = choose|p: int| 0 <= p < a.len() && a[p] == v;
        lemma_runs_in(a, b, edges, n, p);
    }
    assert forall|v: usize| b.contains(v) implies a.contains(v) by {
        let p = choose|p: int| 0 <= p < b.len() && b[p] == v;
        lemma_runs_in(b, a, edges, n, p);
    }
}

/// A neuron with no connection into it always runs.
pub proof fn law_unconnected_neuron_runs(order: Seq<usize>, edges: Seq<(usize, usize)>, n: nat, v: usize)
    requires
        blocked_rest(order, edges, n),
        v < n,
        forall|i: int| 0 <= i < edges.len() ==> (#[trigger] edges[i]).1 != v,
    ensures
        order.contains(v),
{
}

/// The order in which a network of `n` neurons runs them, given its
/// connections as (from, to) pairs (Kahn's algorithm): a neuron runs once
/// every neuron connected into it has run; neurons held back by a cycle do
/// not run. Ready neurons are taken last-in, first-out, starting from the
/// unconnected ones in increasing order.
pub fn forward_order(n: usize, edges: &[(usize, usize)]) -> (order: Vec<usize>)
    requires
        edges_within(edges@, n as nat),
    ensures
        order@.no_duplicates(),
        forall|p: int| 0 <= p < order@.len() ==> order@[p] < n,
        sources_first(order@, edges@),
        blocked_rest(order@, edges@, n as nat),
{
    let ghost es = edges@;
    let ghost none = Seq::<usize>::empty();
    // in-degrees
    let mut deg: Vec<usize> = Vec::new();
    let mut v: usize = 0;
    while v < n
        invariant
            v <= n,
            deg@.len() == v,
            forall|w: int| 0 <= w < v ==> deg@[w] == 0,
        decreases n - v,
    {
        deg.push(0);
        v = v + 1;
    }
    let mut j: usize = 0;
    while j < edges.len()
        invariant
            j <= edges@.len(),
            es == edges@,
            none == Seq::<usize>::empty(),
            edges_within(es, n as nat),
            deg@.len() == n,
            forall|w: usize| w < n ==> #[trigger] deg@[w as int] == pending_in(es, none, w, j as int),
        decreases edges@.len() - j,
    {
        let (_, to) = edges[j];
        proof {
            assert(to == es[j as int].1);
            assert(!none.contains(es[j as int].0));
            assert(es[j as int].1 < n);
            lemma_pending_in_bound(es, none, to, j as int);
            assert forall|w: usize| w < n implies #[trigger] pending_in(es, none, w, j + 1)
                == pending_in(es, none, w, j as int) + (if w == to {
                1nat
            } else {
                0nat
            }) by {}
        }
        deg.set(to, deg[to] + 1);
        j = j + 1;
    }
    // the ready neurons
    let mut queue: Vec<usize> = Vec::new();
    let mut w: usize = 0;
    while w < n
        invariant
            w <= n,
            deg@.len() == n,
            queue@.no_duplicates(),
            forall|t: int| 0 <= t < queue@.len() ==> queue@[t] < w && deg@[queue@[t] as int] == 0,
            forall|x: usize| x < w && deg@[x as int] == 0 ==> queue@.contains(x),
        decreases n - w,
    {
        if deg[w] == 0 {
            queue.push(w);
        }
        w = w + 1;
    }
    let mut order: Vec<usize> = Vec::new();
    assert forall|x: usize| x < n implies #[trigger] deg@[x as int] == pending_in(
        es,
        order@,
        x,
        es.len() as int,
    ) by {
        assert(order@ =~= none);
    }
    while queue.len() > 0
        invariant
            es == edges@,
            edges_within(es, n as nat),
            deg@.len() == n,
            order@.no_duplicates(),
            order@.len() <= n,
            forall|p: int| 0 <= p < order@.len() ==> order@[p] < n,
            sources_first(order@, es),
            forall|x: usize| x < n ==> #[trigger] deg@[x as int] == pending_in(
                es,
                order@,
                x,
                es.len() as int,
            ),
            queue@.no_duplicates(),
            forall|t: int|
                0 <= t < queue@.len() ==> queue@[t] < n && deg@[queue@[t] as int] == 0
                    && !order@.contains(queue@[t]),
            forall|x: usize|
                x < n && deg@[x as int] == 0 && !order@.contains(x) ==> queue@.contains(x),
        decreases n - order@.len(),
    {
        let ghost q0 = queue@;
        let u = queue.pop().unwrap();
        assert(q0 =~= queue@.push(u));
        let ghost before = order@;
        proof {
            lemma_pending_in_zero(es, before, u, es.len() as int);
        }
        order.push(u);
        proof {
            assert forall|p: int, i: int|
                0 <= p < order@.len() && 0 <= i < es.len() && #[trigger] es[i].1
                    == #[trigger] order@[p] implies exists|q: int|
                0 <= q < p && order@[q] == es[i].0 by {
                if p < before.len() {
                    let q = choose|q: int| 0 <= q < p && before[q] == es[i].0;
                    assert(order@[q] == es[i].0);
                } else {
                    assert(before.contains(es[i].0));
                    let q = choose|q: int| 0 <= q < before.len() && before[q] == es[i].0;
                    assert(order@[q] == es[i].0);
                }
            }
            assert(order@.no_duplicates()) by {
                assert forall|i: int, j: int|
                    0 <= i < order@.len() && 0 <= j < order@.len() && i != j implies order@[i]
                    != order@[j] by {
                    if i < before.len() && j < before.len() {
                    } else if i < before.len() {
                        assert(before.contains(order@[i]));
                    } else {
                        assert(before.contains(order@[j]));
                    }
                }
            }
            lemma_distinct_below(order@, n);
        }
        proof {
            assert forall|x: usize| x < n implies #[trigger] deg@[x as int] == pending_in(
                es,
                order@,
                x,
                0,
            ) + pending_from(es, before, x, 0) by {
                lemma_pending_split(es, before, x, 0);
            }
        }
        let mut k: usize = 0;
        while k < edges.len()
            invariant
                es == edges@,
                edges_within(es, n as nat),
                deg@.len() == n,
                k <= es.len(),
                order@ == before.push(u),
                !before.contains(u),
                u < n,
                forall|i: int| 0 <= i < es.len() && (#[trigger] es[i]).1 == u ==> before.contains(
                    es[i].0,
                ),
                sources_first(before, es),
                forall|x: usize| x < n ==> #[trigger] deg@[x as int] == pending_in(
                    es,
                    order@,
                    x,
                    k as int,
                ) + pending_from(es, before, x, k as int),
                queue@.no_duplicates(),
                forall|t: int|
                    0 <= t < queue@.len() ==> queue@[t] < n && deg@[queue@[t] as int] == 0
                        && !order@.contains(queue@[t]),
                forall|x: usize|
                    x < n && deg@[x as int] == 0 && !order@.contains(x) ==> queue@.contains(x),
            decreases es.len() - k,
        {
            let (from, to) = edges[k];
            proof {
                assert(es[k as int].0 < n && es[k as int].1 < n);
                assert(order@.contains(u)) by {
                    assert(order@[before.len() as int] == u);
                }
            }
            if from == u {
                proof {
                    // `to` still waits on this connection, so it has not run
                    assert(pending_from(es, before, to, k as int) >= 1);
                    if before.contains(to) {
                        let p = choose|p: int| 0 <= p < before.len() && before[p] == to;
                        assert(es[k as int].1 == before[p]);
                        let q = choose|q: int| 0 <= q < p && before[q] == es[k as int].0;
                        assert(before.contains(u));
                    }
                    assert(to != u);
                    assert(!order@.contains(to)) by {
                        if order@.contains(to) {
                            let p = choose|p: int| 0 <= p < order@.len() && order@[p] == to;
                            if p < before.len() {
                                assert(before[p] == to);
                            }
                        }
                    }
                }
                let d = deg[to] - 1;
                deg.set(to, d);
                if d == 0 {
                    assert(!queue@.contains(to));
                    queue.push(to);
                }
            }
            proof {
                assert forall|x: usize| x < n implies #[trigger] deg@[x as int] == pending_in(
                    es,
                    order@,
                    x,
                    k + 1,
                ) + pending_from(es, before, x, k + 1) by {
                    assert(order@.contains(es[k as int].0) == (before.contains(es[k as int].0)
                        || es[k as int].0 == u));
                }
            }
            k = k + 1;
        }
        proof {
            assert forall|x: usize| x < n implies #[trigger] deg@[x as int] == pending_in(
                es,
                order@,
                x,
                es.len() as int,
            ) by {}
        }
    }
    proof {
        assert forall|v: usize| v < n && !order@.contains(v) implies exists|i: int|
            0 <= i < es.len() && (#[trigger] es[i]).1 == v && !order@.contains(es[i].0) by {
            assert(deg@[v as int] != 0) by {
                if deg@[v as int] == 0 {
                    assert(queue@.contains(v));
                }
            }
            lemma_pending_in_zero(es, order@, v, es.len() as int);
        }
    }
    order
}

} // verus!
