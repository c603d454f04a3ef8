//! What a walk finds: exactly the nodes within its depth, each at its distance.
use crate::walk;
use vstd::prelude::*;

verus! {

/// Whether a node has an edge to another in a graph, one that is not known before.
pub open spec fn leads(
    g: Map<Seq<char>, Seq<walk::EdgeText>>,
    known: Seq<Seq<char>>,
    from: Seq<char>,
    to: Seq<char>,
) -> bool {
    g.dom().contains(from) && !known.contains(to) && exists|i: int|
        0 <= i < g[from].len() && (#[trigger] g[from][i]).node.id == to
}

/// Whether a node can be reached from a root in at most `k` steps, over nodes that are
/// not known before.
pub open spec fn within(
    g: Map<Seq<char>, Seq<walk::EdgeText>>,
    known: Seq<Seq<char>>,
    root: Seq<char>,
    t: Seq<char>,
    k: int,
) -> bool
    decreases k,
{
    if k <= 0 {
        t == root
    } else {
        within(g, known, root, t, k - 1) || exists|s: Seq<char>| #[trigger]
            leads(g, known, s, t) && within(g, known, root, s, k - 1)
    }
}

/// Whether `k` is the least number of steps from a root to a node.
pub open spec fn is_distance(
    g: Map<Seq<char>, Seq<walk::EdgeText>>,
    known: Seq<Seq<char>>,
    root: Seq<char>,
    t: Seq<char>,
    k: int,
) -> bool {
    &&& within(g, known, root, t, k)
    &&& forall|j: int| 0 <= j < k ==> !#[trigger] within(g, known, root, t, j)
}

/// Whether a database could give every node of a graph its edges.
pub open spec fn could_hold(
    db: rusqlite::Connection,
    course: walk::Course,
    g: Map<Seq<char>, Seq<walk::EdgeText>>,
) -> bool {
    forall|id: Seq<char>| #[trigger]
        g.dom().contains(id) ==> walk::could_fetch(db, course, id, g[id])
}

/// The entries that meet a node for the first time.
pub open spec fn firsts(entries: Seq<walk::EntryText>) -> Seq<walk::EntryText>
    decreases entries.len(),
{
    if entries.len() == 0 {
        Seq::empty()
    } else {
        let head = firsts(entries.drop_last());
        if entries.last().already_seen {
            head
        } else {
            head.push(entries.last())
        }
    }
}

/// Whether a finished walk shows a graph as far as `max_depth` steps from a root: the
/// edges of every node that is nearer are in it, exactly the nodes within that many
/// steps were met beside those known before, and each but the root has one entry that
/// meets it first, at its distance from the root, the nearer ones before the others.
pub open spec fn shows(
    g: Map<Seq<char>, Seq<walk::EdgeText>>,
    known: Seq<Seq<char>>,
    root: Seq<char>,
    max_depth: int,
    finish: walk::Walk,
) -> bool {
    let found = firsts(finish.entries);
    &&& forall|t: Seq<char>, k: int|
        k < max_depth && #[trigger] within(g, known, root, t, k) && 0 <= k ==> g.dom().contains(t)
    &&& forall|t: Seq<char>| #[trigger]
        finish.visited.contains(t) <==> known.contains(t) || within(g, known, root, t, max_depth)
    &&& forall|t: Seq<char>|
        t != root && #[trigger] within(g, known, root, t, max_depth) ==> exists|i: int|
            0 <= i < found.len() && (#[trigger] found[i]).node.id == t
    &&& forall|i: int|
        0 <= i < found.len() ==> {
            &&& !known.contains((#[trigger] found[i]).node.id)
            &&& 0 < found[i].depth <= max_depth
            &&& is_distance(g, known, root, found[i].node.id, found[i].depth)
        }
    &&& forall|i: int, j: int|
        0 <= i < j < found.len() ==> {
            &&& (#[trigger] found[i]).node.id != (#[trigger] found[j]).node.id
            &&& found[i].depth <= found[j].depth
        }
}

// ── How far a walk shows a graph while it goes on ────────────────────────────

/// Whether a node is among those met, at a depth of at most `k`.
spec fn near(visited: Seq<Seq<char>>, d: Seq<int>, t: Seq<char>, k: int) -> bool {
    exists|j: int| 0 <= j < visited.len() && #[trigger] visited[j] == t && d[j] <= k
}

/// The root and the nodes met after it, in the order in which they were met.
spec fn met(w: walk::Walk, known: Seq<Seq<char>>, root: Seq<char>) -> Seq<Seq<char>> {
    seq![root] + w.visited.skip(known.len() as int)
}

/// The nodes met have the depths `d`; those from the `q`th on are still queued.
spec fn ranked(
    w: walk::Walk,
    d: Seq<int>,
    q: int,
    known: Seq<Seq<char>>,
    root: Seq<char>,
    max_depth: int,
) -> bool {
    &&& known.contains(root)
    &&& known.len() <= w.visited.len()
    &&& forall|i: int| 0 <= i < known.len() ==> #[trigger] w.visited[i] == known[i]
    &&& met(w, known, root).len() == d.len()
    &&& d[0] == 0
    &&& met(w, known, root).no_duplicates()
    &&& forall|i: int| 0 < i < d.len() ==> !known.contains(#[trigger] met(w, known, root)[i])
    &&& forall|i: int, j: int| 0 <= i <= j < d.len() ==> #[trigger] d[i] <= #[trigger] d[j]
    &&& forall|i: int| 0 <= i < d.len() ==> 0 <= #[trigger] d[i] <= max_depth
    &&& forall|i: int| 0 < i < d.len() ==> 0 < #[trigger] d[i]
    &&& 0 <= q <= d.len()
    &&& w.queue.len() == d.len() - q
    &&& forall|i: int|
        0 <= i < w.queue.len() ==> (#[trigger] w.queue[i]).id == met(w, known, root)[q + i]
            && w.queue[i].depth == d[q + i]
    &&& firsts(w.entries).len() == d.len() - 1
    &&& forall|i: int|
        0 <= i < d.len() - 1 ==> {
            &&& (#[trigger] firsts(w.entries)[i]).node.id == met(w, known, root)[i + 1]
            &&& firsts(w.entries)[i].depth == d[i + 1]
        }
}

/// Every node met can be reached in as many steps as its depth says.
spec fn reached(
    w: walk::Walk,
    g: Map<Seq<char>, Seq<walk::EdgeText>>,
    d: Seq<int>,
    known: Seq<Seq<char>>,
    root: Seq<char>,
) -> bool {
    forall|i: int|
        0 <= i < d.len() ==> within(g, known, root, #[trigger] met(w, known, root)[i], d[i])
}

/// The first `h` nodes have had their edges followed, unless they lie too deep.
spec fn followed(
    w: walk::Walk,
    g: Map<Seq<char>, Seq<walk::EdgeText>>,
    d: Seq<int>,
    h: int,
    known: Seq<Seq<char>>,
    root: Seq<char>,
    max_depth: int,
) -> bool {
    &&& forall|i: int|
        0 <= i < h && d[i] < max_depth ==> g.dom().contains(#[trigger] met(w, known, root)[i])
    &&& forall|i: int, t: Seq<char>|
        #![trigger leads(g, known, met(w, known, root)[i], t)]
        0 <= i < h && d[i] < max_depth && leads(g, known, met(w, known, root)[i], t) ==> near(
            met(w, known, root),
            d,
            t,
            d[i] + 1,
        )
}

/// Only the first `h` nodes have edges in the graph.
spec fn confined(
    w: walk::Walk,
    g: Map<Seq<char>, Seq<walk::EdgeText>>,
    h: int,
    known: Seq<Seq<char>>,
    root: Seq<char>,
) -> bool {
    forall|t: Seq<char>| #[trigger]
        g.dom().contains(t) ==> exists|i: int| 0 <= i < h && #[trigger] met(w, known, root)[i] == t
}

/// Whether a graph and depths are what a walk has shown after `h` steps.
spec fn charted(
    w: walk::Walk,
    g: Map<Seq<char>, Seq<walk::EdgeText>>,
    d: Seq<int>,
    h: int,
    known: Seq<Seq<char>>,
    root: Seq<char>,
    max_depth: int,
) -> bool {
    &&& ranked(w, d, h, known, root, max_depth)
    &&& reached(w, g, d, known, root)
    &&& followed(w, g, d, h, known, root, max_depth)
    &&& confined(w, g, h, known, root)
    &&& h < d.len() ==> d.last() <= d[h] + 1
}

/// Whether a walk is about to follow the edges of its `h`th node, of which the first
/// `n` are done.
spec fn underway(
    w: walk::Walk,
    g: Map<Seq<char>, Seq<walk::EdgeText>>,
    d: Seq<int>,
    h: int,
    n: int,
    known: Seq<Seq<char>>,
    root: Seq<char>,
    max_depth: int,
) -> bool {
    &&& 0 <= h < d.len()
    &&& d[h] < max_depth
    &&& ranked(w, d, h + 1, known, root, max_depth)
    &&& reached(w, g, d, known, root)
    &&& followed(w, g, d, h, known, root, max_depth)
    &&& g.dom().contains(met(w, known, root)[h])
    &&& d.last() <= d[h] + 1
    &&& 0 <= n <= g[met(w, known, root)[h]].len()
    &&& forall|k: int|
        0 <= k < n ==> ({
            let id = (#[trigger] g[met(w, known, root)[h]][k]).node.id;
            known.contains(id) || met(w, known, root).contains(id)
        })
}

proof fn lemma_within_keeps(
    g: Map<Seq<char>, Seq<walk::EdgeText>>,
    more: Map<Seq<char>, Seq<walk::EdgeText>>,
    known: Seq<Seq<char>>,
    root: Seq<char>,
    t: Seq<char>,
    k: int,
)
    requires
        within(g, known, root, t, k),
        forall|s: Seq<char>| #[trigger]
            g.dom().contains(s) ==> more.dom().contains(s) && more[s] == g[s],
    ensures
        within(more, known, root, t, k),
    decreases k,
{
    if k > 0 {
        if within(g, known, root, t, k - 1) {
            lemma_within_keeps(g, more, known, root, t, k - 1);
        } else {
            let s = choose|s: Seq<char>| #[trigger]
                leads(g, known, s, t) && within(g, known, root, s, k - 1);
            lemma_within_keeps(g, more, known, root, s, k - 1);
            let i = choose|i: int| 0 <= i < g[s].len() && (#[trigger] g[s][i]).node.id == t;
            assert(more[s][i].node.id == t);
            assert(leads(more, known, s, t));
        }
    }
}

proof fn lemma_near_keeps(
    visited: Seq<Seq<char>>,
    d: Seq<int>,
    more: Seq<Seq<char>>,
    more_d: Seq<int>,
    t: Seq<char>,
    k: int,
)
    requires
        near(visited, d, t, k),
        visited.len() == d.len(),
        visited.len() <= more.len() == more_d.len(),
        forall|j: int| 0 <= j < visited.len() ==> #[trigger] visited[j] == more[j],
        forall|j: int| 0 <= j < visited.len() ==> #[trigger] d[j] == more_d[j],
    ensures
        near(more, more_d, t, k),
{
    let j = choose|j: int| 0 <= j < visited.len() && #[trigger] visited[j] == t && d[j] <= k;
    assert(more[j] == t);
}

proof fn lemma_visited_splits(
    w: walk::Walk,
    known: Seq<Seq<char>>,
    root: Seq<char>,
    t: Seq<char>,
)
    requires
        known.contains(root),
        known.len() <= w.visited.len(),
        forall|i: int| 0 <= i < known.len() ==> #[trigger] w.visited[i] == known[i],
    ensures
        w.visited.contains(t) <==> known.contains(t) || met(w, known, root).contains(t),
{
    let m = met(w, known, root);
    let c = known.len() as int;
    if w.visited.contains(t) {
        let j = choose|j: int| 0 <= j < w.visited.len() && w.visited[j] == t;
        if j < c {
            assert(known[j] == t);
        } else {
            assert(m[j - c + 1] == t);
        }
    }
    if known.contains(t) {
        let j = choose|j: int| 0 <= j < known.len() && known[j] == t;
        assert(w.visited[j] == t);
    }
    if m.contains(t) {
        let j = choose|j: int| 0 <= j < m.len() && m[j] == t;
        if j > 0 {
            assert(w.visited[j - 1 + c] == t);
        }
    }
}

proof fn lemma_firsts_push(entries: Seq<walk::EntryText>, e: walk::EntryText)
    ensures
        firsts(entries.push(e)) == if e.already_seen {
            firsts(entries)
        } else {
            firsts(entries).push(e)
        },
{
    assert(entries.push(e).drop_last() =~= entries);
}

/// Following one more edge.
proof fn lemma_meet_charts(
    w: walk::Walk,
    g: Map<Seq<char>, Seq<walk::EdgeText>>,
    d: Seq<int>,
    h: int,
    n: int,
    known: Seq<Seq<char>>,
    root: Seq<char>,
    max_depth: int,
    max_nodes: int,
    from: walk::Visit,
) -> (e: Seq<int>)
    requires
        underway(w, g, d, h, n, known, root, max_depth),
        n < g[met(w, known, root)[h]].len(),
        from.id == met(w, known, root)[h],
        from.depth == d[h],
        !walk::meet(w, from, g[met(w, known, root)[h]][n], max_nodes).truncated,
    ensures
        ({
            let b = walk::meet(w, from, g[met(w, known, root)[h]][n], max_nodes);
            &&& underway(b, g, e, h, n + 1, known, root, max_depth)
            &&& met(b, known, root)[h] == met(w, known, root)[h]
            &&& e[h] == d[h]
            &&& met(b, known, root).len() >= met(w, known, root).len()
            &&& forall|i: int|
                0 <= i < met(w, known, root).len() ==> #[trigger] met(b, known, root)[i] == met(
                    w,
                    known,
                    root,
                )[i]
        }),
{
    let old_met = met(w, known, root);
    let edge = g[old_met[h]][n];
    let t = edge.node.id;
    let b = walk::meet(w, from, edge, max_nodes);
    let new_met = met(b, known, root);
    let entry = walk::EntryText {
        parent: from.parent,
        depth: from.depth + 1,
        relationship: edge.relationship,
        node: edge.node,
        already_seen: w.visited.contains(t),
    };
    lemma_firsts_push(w.entries, entry);
    lemma_visited_splits(w, known, root, t);
    if w.visited.contains(t) {
        assert(new_met == old_met);
        assert(ranked(b, d, h + 1, known, root, max_depth));
        assert(followed(b, g, d, h, known, root, max_depth));
        d
    } else {
        let e = d.push(d[h] + 1);
        assert(b.visited == w.visited.push(t));
        assert(new_met =~= old_met.push(t));
        assert(b.entries == w.entries.push(entry));
        let found = firsts(w.entries);
        assert(firsts(b.entries) == found.push(entry));
        assert(leads(g, known, old_met[h], t));
        assert(within(g, known, root, t, d[h] + 1));
        assert(new_met.no_duplicates());
        assert(ranked(b, e, h + 1, known, root, max_depth)) by {
            assert forall|i: int, j: int| 0 <= i <= j < e.len() implies #[trigger] e[i]
                <= #[trigger] e[j] by {
                if j < d.len() {
                    assert(e[i] == d[i] && e[j] == d[j]);
                } else if i < d.len() {
                    assert(e[i] == d[i]);
                    assert(d[i] <= d[d.len() - 1]);
                }
            }
            assert forall|i: int| 0 <= i < b.queue.len() implies (#[trigger] b.queue[i]).id
                == new_met[h + 1 + i] && b.queue[i].depth == e[h + 1 + i] by {
                if i < w.queue.len() {
                    assert(b.queue[i] == w.queue[i]);
                }
            }
            assert forall|i: int| 0 <= i < e.len() - 1 implies (#[trigger] firsts(
                b.entries,
            )[i]).node.id == new_met[i + 1] && firsts(b.entries)[i].depth == e[i + 1] by {
                if i < found.len() {
                    assert(firsts(b.entries)[i] == found[i]);
                }
            }
            assert forall|i: int| 0 < i < e.len() implies 0 < #[trigger] e[i] by {
                if i < d.len() {
                    assert(e[i] == d[i]);
                } else {
                    assert(0 <= d[h]);
                }
            }
        }
        assert(reached(b, g, e, known, root)) by {
            assert forall|i: int| 0 <= i < e.len() implies within(
                g,
                known,
                root,
                #[trigger] new_met[i],
                e[i],
            ) by {
                if i < d.len() {
                    assert(new_met[i] == old_met[i]);
                    assert(e[i] == d[i]);
                }
            }
        }
        assert(followed(b, g, e, h, known, root, max_depth)) by {
            assert forall|i: int| 0 <= i < h && e[i] < max_depth implies g.dom().contains(
                #[trigger] new_met[i],
            ) by {
                assert(new_met[i] == old_met[i]);
                assert(e[i] == d[i]);
            }
            assert forall|i: int, u: Seq<char>|
                #![trigger leads(g, known, new_met[i], u)]
                0 <= i < h && e[i] < max_depth && leads(g, known, new_met[i], u) implies near(
                new_met,
                e,
                u,
                e[i] + 1,
            ) by {
                assert(new_met[i] == old_met[i]);
                assert(e[i] == d[i]);
                assert(leads(g, known, old_met[i], u));
                lemma_near_keeps(old_met, d, new_met, e, u, d[i] + 1);
            }
        }
        assert(e.last() == d[h] + 1);
        assert(e[h] == d[h]);
        assert(new_met[h] == old_met[h]);
        assert forall|k: int| 0 <= k < n + 1 implies ({
            let id = (#[trigger] g[new_met[h]][k]).node.id;
            known.contains(id) || new_met.contains(id)
        }) by {
            if k < n {
                let id = g[old_met[h]][k].node.id;
                if old_met.contains(id) {
                    let j = choose|j: int| 0 <= j < old_met.len() && old_met[j] == id;
                    assert(new_met[j] == id);
                }
            } else {
                assert(new_met[old_met.len() as int] == t);
            }
        }
        e
    }
}

proof fn lemma_truncation_stays(
    w: walk::Walk,
    from: walk::Visit,
    edges: Seq<walk::EdgeText>,
    max_nodes: int,
    n: int,
)
    requires
        w.truncated,
    ensures
        walk::meet_upto(w, from, edges, max_nodes, n).truncated,
    decreases n,
{
    if n > 0 {
        lemma_truncation_stays(w, from, edges, max_nodes, n - 1);
    }
}

/// Following the first `n` edges.
proof fn lemma_meet_upto_charts(
    w: walk::Walk,
    g: Map<Seq<char>, Seq<walk::EdgeText>>,
    d: Seq<int>,
    h: int,
    n: int,
    known: Seq<Seq<char>>,
    root: Seq<char>,
    max_depth: int,
    max_nodes: int,
    from: walk::Visit,
) -> (e: Seq<int>)
    requires
        underway(w, g, d, h, 0, known, root, max_depth),
        0 <= n <= g[met(w, known, root)[h]].len(),
        from.id == met(w, known, root)[h],
        from.depth == d[h],
        !walk::meet_upto(w, from, g[met(w, known, root)[h]], max_nodes, n).truncated,
    ensures
        ({
            let b = walk::meet_upto(w, from, g[met(w, known, root)[h]], max_nodes, n);
            &&& underway(b, g, e, h, n, known, root, max_depth)
            &&& e[h] == d[h]
            &&& met(b, known, root).len() >= met(w, known, root).len()
            &&& forall|i: int|
                0 <= i < met(w, known, root).len() ==> #[trigger] met(b, known, root)[i] == met(
                    w,
                    known,
                    root,
                )[i]
        }),
    decreases n,
{
    if n <= 0 {
        d
    } else {
        let edges = g[met(w, known, root)[h]];
        let a = walk::meet_upto(w, from, edges, max_nodes, n - 1);
        let mid = lemma_meet_upto_charts(
            w,
            g,
            d,
            h,
            n - 1,
            known,
            root,
            max_depth,
            max_nodes,
            from,
        );
        assert(met(a, known, root)[h] == met(w, known, root)[h]);
        lemma_meet_charts(a, g, mid, h, n - 1, known, root, max_depth, max_nodes, from)
    }
}

/// One step.
proof fn lemma_step_charts(
    db: rusqlite::Connection,
    course: walk::Course,
    a: walk::Walk,
    b: walk::Walk,
    g: Map<Seq<char>, Seq<walk::EdgeText>>,
    d: Seq<int>,
    h: int,
    known: Seq<Seq<char>>,
    root: Seq<char>,
    max_depth: int,
    max_nodes: int,
) -> (r: (Map<Seq<char>, Seq<walk::EdgeText>>, Seq<int>))
    requires
        charted(a, g, d, h, known, root, max_depth),
        could_hold(db, course, g),
        walk::steps(db, course, max_depth, max_nodes, a, b),
        !b.truncated,
    ensures
        charted(b, r.0, r.1, h + 1, known, root, max_depth),
        could_hold(db, course, r.0),
{
    let from = a.queue[0];
    let p = walk::popped(a);
    let old_met = met(a, known, root);
    let new_met = met(b, known, root);
    assert(met(p, known, root) == old_met);
    assert(from.id == old_met[h] && from.depth == d[h]);
    assert(d[h] <= d[d.len() - 1]);
    assert(ranked(p, d, h + 1, known, root, max_depth)) by {
        assert forall|i: int| 0 <= i < p.queue.len() implies (#[trigger] p.queue[i]).id
            == old_met[h + 1 + i] && p.queue[i].depth == d[h + 1 + i] by {
            assert(p.queue[i] == a.queue[i + 1]);
        }
    }
    if from.depth >= max_depth {
        if h + 1 < d.len() {
            assert(d[h] <= d[h + 1]);
        }
        assert(followed(p, g, d, h + 1, known, root, max_depth));
        assert(confined(p, g, h + 1, known, root));
        (g, d)
    } else {
        let edges = choose|edges: Seq<walk::EdgeText>|
            {
                &&& #[trigger] walk::could_fetch(db, course, from.id, edges)
                &&& b == walk::meet_upto(p, from, edges, max_nodes, edges.len() as int)
            };
        let more = g.insert(from.id, edges);
        if g.dom().contains(from.id) {
            let i = choose|i: int| 0 <= i < h && #[trigger] old_met[i] == from.id;
            assert(old_met[i] == old_met[h]);
        }
        assert(could_hold(db, course, more));
        assert(reached(p, more, d, known, root)) by {
            assert forall|i: int| 0 <= i < d.len() implies within(
                more,
                known,
                root,
                #[trigger] old_met[i],
                d[i],
            ) by {
                lemma_within_keeps(g, more, known, root, old_met[i], d[i]);
            }
        }
        assert(followed(p, more, d, h, known, root, max_depth)) by {
            assert forall|i: int, t: Seq<char>|
                #![trigger leads(more, known, old_met[i], t)]
                0 <= i < h && d[i] < max_depth && leads(more, known, old_met[i], t) implies near(
                old_met,
                d,
                t,
                d[i] + 1,
            ) by {
                assert(old_met[i] != old_met[h]);
                assert(g.dom().contains(old_met[i]));
                assert(more[old_met[i]] == g[old_met[i]]);
                let k = choose|k: int|
                    0 <= k < more[old_met[i]].len() && (#[trigger] more[old_met[i]][k]).node.id
                        == t;
                assert(g[old_met[i]][k].node.id == t);
                assert(leads(g, known, old_met[i], t));
            }
        }
        assert(more[old_met[h]] == edges);
        let e = lemma_meet_upto_charts(
            p,
            more,
            d,
            h,
            edges.len() as int,
            known,
            root,
            max_depth,
            max_nodes,
            from,
        );
        assert(new_met[h] == from.id);
        assert(followed(b, more, e, h + 1, known, root, max_depth)) by {
            assert forall|i: int, t: Seq<char>|
                #![trigger leads(more, known, new_met[i], t)]
                0 <= i < h + 1 && e[i] < max_depth && leads(
                    more,
                    known,
                    new_met[i],
                    t,
                ) implies near(new_met, e, t, e[i] + 1) by {
                if i == h {
                    let k = choose|k: int|
                        0 <= k < more[from.id].len() && (#[trigger] more[from.id][k]).node.id == t;
                    assert(new_met.contains(more[new_met[h]][k].node.id));
                    let j = choose|j: int| 0 <= j < new_met.len() && new_met[j] == t;
                    assert(e[j] <= e[e.len() - 1]);
                    assert(new_met[j] == t);
                }
            }
        }
        assert(confined(b, more, h + 1, known, root)) by {
            assert forall|t: Seq<char>| #[trigger] more.dom().contains(t) implies exists|i: int|
                0 <= i < h + 1 && #[trigger] new_met[i] == t by {
                if t == from.id {
                    assert(new_met[h] == t);
                } else {
                    let i = choose|i: int| 0 <= i < h && #[trigger] old_met[i] == t;
                    assert(new_met[i] == old_met[i]);
                }
            }
        }
        if h + 1 < e.len() {
            assert(e[h] <= e[h + 1]);
        }
        (more, e)
    }
}

proof fn lemma_step_was_not_cut(
    db: rusqlite::Connection,
    course: walk::Course,
    a: walk::Walk,
    b: walk::Walk,
    max_depth: int,
    max_nodes: int,
)
    requires
        walk::steps(db, course, max_depth, max_nodes, a, b),
        !b.truncated,
    ensures
        !a.truncated,
{
    if a.truncated && a.queue[0].depth < max_depth {
        let edges = choose|edges: Seq<walk::EdgeText>|
            {
                &&& #[trigger] walk::could_fetch(db, course, a.queue[0].id, edges)
                &&& b == walk::meet_upto(
                    walk::popped(a),
                    a.queue[0],
                    edges,
                    max_nodes,
                    edges.len() as int,
                )
            };
        lemma_truncation_stays(
            walk::popped(a),
            a.queue[0],
            edges,
            max_nodes,
            edges.len() as int,
        );
    }
}

/// The first `n` steps.
proof fn lemma_trace_charts(
    db: rusqlite::Connection,
    course: walk::Course,
    trace: Seq<walk::Walk>,
    n: int,
    known: Seq<Seq<char>>,
    root: Seq<char>,
    max_depth: int,
    max_nodes: int,
) -> (r: (Map<Seq<char>, Seq<walk::EdgeText>>, Seq<int>))
    requires
        walk::is_trace(db, course, max_depth, max_nodes, trace),
        trace[0] == walk::start_walk(root, known, false),
        known.contains(root),
        0 <= max_depth,
        0 <= n < trace.len(),
        !trace[n].truncated,
    ensures
        charted(trace[n], r.0, r.1, n, known, root, max_depth),
        could_hold(db, course, r.0),
    decreases n,
{
    if n <= 0 {
        let g = Map::<Seq<char>, Seq<walk::EdgeText>>::empty();
        let d = seq![0int];
        assert(firsts(trace[0].entries).len() == 0);
        assert(met(trace[0], known, root) =~= seq![root]);
        assert(charted(trace[0], g, d, 0, known, root, max_depth));
        (g, d)
    } else {
        assert(walk::steps(db, course, max_depth, max_nodes, trace[n - 1], trace[n]));
        lemma_step_was_not_cut(db, course, trace[n - 1], trace[n], max_depth, max_nodes);
        let (g, d) = lemma_trace_charts(
            db,
            course,
            trace,
            n - 1,
            known,
            root,
            max_depth,
            max_nodes,
        );
        lemma_step_charts(
            db,
            course,
            trace[n - 1],
            trace[n],
            g,
            d,
            n - 1,
            known,
            root,
            max_depth,
            max_nodes,
        )
    }
}

/// What is within `k` steps was met at a depth of at most `k`.
proof fn lemma_within_was_met(
    w: walk::Walk,
    g: Map<Seq<char>, Seq<walk::EdgeText>>,
    d: Seq<int>,
    known: Seq<Seq<char>>,
    root: Seq<char>,
    max_depth: int,
    t: Seq<char>,
    k: int,
)
    requires
        charted(w, g, d, d.len() as int, known, root, max_depth),
        0 <= k <= max_depth,
        within(g, known, root, t, k),
    ensures
        near(met(w, known, root), d, t, k),
    decreases k,
{
    let m = met(w, known, root);
    if k == 0 {
        assert(m[0] == t);
    } else if within(g, known, root, t, k - 1) {
        lemma_within_was_met(w, g, d, known, root, max_depth, t, k - 1);
        let j = choose|j: int|
            0 <= j < m.len() && #[trigger] m[j] == t && d[j] <= k - 1;
        assert(m[j] == t);
    } else {
        let s = choose|s: Seq<char>| #[trigger]
            leads(g, known, s, t) && within(g, known, root, s, k - 1);
        lemma_within_was_met(w, g, d, known, root, max_depth, s, k - 1);
        let i = choose|i: int|
            0 <= i < m.len() && #[trigger] m[i] == s && d[i] <= k - 1;
        assert(leads(g, known, m[i], t));
        let j = choose|j: int|
            0 <= j < m.len() && #[trigger] m[j] == t && d[j] <= d[i] + 1;
        assert(m[j] == t);
    }
}

proof fn lemma_within_grows(
    g: Map<Seq<char>, Seq<walk::EdgeText>>,
    known: Seq<Seq<char>>,
    root: Seq<char>,
    t: Seq<char>,
    k: int,
    more: int,
)
    requires
        within(g, known, root, t, k),
        0 <= k <= more,
    ensures
        within(g, known, root, t, more),
    decreases more,
{
    if k < more {
        lemma_within_grows(g, known, root, t, k, more - 1);
    }
}

proof fn lemma_charted_shows(
    w: walk::Walk,
    g: Map<Seq<char>, Seq<walk::EdgeText>>,
    d: Seq<int>,
    known: Seq<Seq<char>>,
    root: Seq<char>,
    max_depth: int,
)
    requires
        charted(w, g, d, d.len() as int, known, root, max_depth),
        0 <= max_depth,
    ensures
        shows(g, known, root, max_depth, w),
{
    let m = met(w, known, root);
    let found = firsts(w.entries);
    assert forall|t: Seq<char>, k: int|
        k < max_depth && #[trigger] within(g, known, root, t, k) && 0 <= k implies g.dom().contains(
        t,
    ) by {
        lemma_within_was_met(w, g, d, known, root, max_depth, t, k);
        let j = choose|j: int| 0 <= j < m.len() && #[trigger] m[j] == t && d[j] <= k;
        assert(g.dom().contains(m[j]));
    }
    assert forall|t: Seq<char>| #[trigger] w.visited.contains(t) <==> known.contains(t) || within(
        g,
        known,
        root,
        t,
        max_depth,
    ) by {
        lemma_visited_splits(w, known, root, t);
        if m.contains(t) {
            let j = choose|j: int| 0 <= j < m.len() && m[j] == t;
            assert(within(g, known, root, m[j], d[j]));
            lemma_within_grows(g, known, root, t, d[j], max_depth);
        }
        if within(g, known, root, t, max_depth) {
            lemma_within_was_met(w, g, d, known, root, max_depth, t, max_depth);
            let j = choose|j: int|
                0 <= j < m.len() && #[trigger] m[j] == t && d[j]
                    <= max_depth;
            assert(m.contains(t));
        }
    }
    assert forall|t: Seq<char>|
        t != root && #[trigger] within(g, known, root, t, max_depth) implies exists|i: int|
        0 <= i < found.len() && (#[trigger] found[i]).node.id == t by {
        lemma_within_was_met(w, g, d, known, root, max_depth, t, max_depth);
        let j = choose|j: int|
            0 <= j < m.len() && #[trigger] m[j] == t && d[j] <= max_depth;
        assert(j > 0);
        assert(found[j - 1].node.id == m[j - 1 + 1]);
    }
    assert forall|i: int| 0 <= i < found.len() implies {
        &&& !known.contains((#[trigger] found[i]).node.id)
        &&& 0 < found[i].depth <= max_depth
        &&& is_distance(g, known, root, found[i].node.id, found[i].depth)
    } by {
        let t = found[i].node.id;
        assert(t == m[i + 1] && found[i].depth == d[i + 1]);
        assert(within(g, known, root, m[i + 1], d[i + 1]));
        assert forall|k: int| 0 <= k < found[i].depth implies !#[trigger] within(
            g,
            known,
            root,
            t,
            k,
        ) by {
            if within(g, known, root, t, k) {
                lemma_within_was_met(w, g, d, known, root, max_depth, t, k);
                let j = choose|j: int|
                    0 <= j < m.len() && #[trigger] m[j] == t && d[j] <= k;
                assert(m[j] == m[i + 1]);
                assert(j == i + 1);
            }
        }
    }
    assert forall|i: int, j: int| 0 <= i < j < found.len() implies {
        &&& (#[trigger] found[i]).node.id != (#[trigger] found[j]).node.id
        &&& found[i].depth <= found[j].depth
    } by {
        assert(found[i].node.id == m[i + 1] && found[i].depth == d[i + 1]);
        assert(found[j].node.id == m[j + 1] && found[j].depth == d[j + 1]);
        assert(d[i + 1] <= d[j + 1]);
        assert(m[i + 1] != m[j + 1]);
    }
}

/// A walk that leaves nothing out shows the graph around its root: beside the nodes that
/// are known before, it meets exactly those within the allowed number of steps, each
/// once and at its shortest distance.
pub proof fn law_walks_show_the_graph(
    db: rusqlite::Connection,
    course: walk::Course,
    known: Seq<Seq<char>>,
    root: Seq<char>,
    max_depth: int,
    max_nodes: int,
    finish: walk::Walk,
)
    requires
        known.contains(root),
        0 <= max_depth,
        walk::could_walk(
            db,
            course,
            max_depth,
            max_nodes,
            walk::start_walk(root, known, false),
            finish,
        ),
        !finish.truncated,
    ensures
        exists|g: Map<Seq<char>, Seq<walk::EdgeText>>| #[trigger]
            could_hold(db, course, g) && shows(g, known, root, max_depth, finish),
{
    let trace = choose|trace: Seq<walk::Walk>|
        {
            &&& #[trigger] walk::is_trace(db, course, max_depth, max_nodes, trace)
            &&& trace[0] == walk::start_walk(root, known, false)
            &&& trace.last() == finish
        };
    let n = trace.len() - 1;
    let (g, d) = lemma_trace_charts(db, course, trace, n, known, root, max_depth, max_nodes);
    assert(n == d.len());
    lemma_charted_shows(finish, g, d, known, root, max_depth);
}

/// Every entry that meets a node first is an entry.
pub proof fn lemma_first_is_entry(entries: Seq<walk::EntryText>, j: int) -> (i: int)
    requires
        0 <= j < firsts(entries).len(),
    ensures
        0 <= i < entries.len(),
        entries[i] == firsts(entries)[j],
        !entries[i].already_seen,
    decreases entries.len(),
{
    let front = entries.drop_last();
    if !entries.last().already_seen && j == firsts(front).len() {
        entries.len() - 1
    } else {
        let i = lemma_first_is_entry(front, j);
        assert(front[i] == entries[i]);
        i
    }
}

/// Every entry whose node was not seen before meets it first.
pub proof fn lemma_unseen_is_first(entries: Seq<walk::EntryText>, i: int) -> (j: int)
    requires
        0 <= i < entries.len(),
        !entries[i].already_seen,
    ensures
        0 <= j < firsts(entries).len(),
        firsts(entries)[j] == entries[i],
    decreases entries.len(),
{
    let front = entries.drop_last();
    if i == entries.len() - 1 {
        firsts(front).len() as int
    } else {
        assert(front[i] == entries[i]);
        lemma_unseen_is_first(front, i)
    }
}

proof fn lemma_trace_was_not_cut(
    db: rusqlite::Connection,
    course: walk::Course,
    max_depth: int,
    max_nodes: int,
    trace: Seq<walk::Walk>,
    n: int,
)
    requires
        walk::is_trace(db, course, max_depth, max_nodes, trace),
        0 <= n < trace.len(),
        !trace[n].truncated,
    ensures
        !trace[0].truncated,
    decreases n,
{
    if n > 0 {
        assert(walk::steps(db, course, max_depth, max_nodes, trace[n - 1], trace[n]));
        lemma_step_was_not_cut(db, course, trace[n - 1], trace[n], max_depth, max_nodes);
        lemma_trace_was_not_cut(db, course, max_depth, max_nodes, trace, n - 1);
    }
}

/// A walk that ends with nothing left out began so.
pub proof fn lemma_walk_was_not_cut(
    db: rusqlite::Connection,
    course: walk::Course,
    max_depth: int,
    max_nodes: int,
    start: walk::Walk,
    finish: walk::Walk,
)
    requires
        walk::could_walk(db, course, max_depth, max_nodes, start, finish),
        !finish.truncated,
    ensures
        !start.truncated,
{
    let trace = choose|trace: Seq<walk::Walk>|
        {
            &&& #[trigger] walk::is_trace(db, course, max_depth, max_nodes, trace)
            &&& trace[0] == start
            &&& trace.last() == finish
        };
    lemma_trace_was_not_cut(db, course, max_depth, max_nodes, trace, trace.len() - 1);
}

} // verus!
