//! How the text of a dependency graph shows what was met on its walks.
use crate::condense;
use crate::graph;
use crate::model::DependencyDirection;
use crate::scan;
use crate::symbols;
use crate::text;
use crate::walk;
use vstd::prelude::*;
use vstd::string::*;

verus! {

// ── Ancestors ────────────────────────────────────────────────────────────────

/// The entry from which another was reached, if that stands before it.
pub open spec fn parent(all: Seq<walk::EntryText>, i: int) -> Option<int> {
    if 0 <= i < all.len() {
        match all[i].parent {
            Some(p) => if 0 <= p < i {
                Some(p)
            } else {
                None
            },
            None => None,
        }
    } else {
        None
    }
}

/// How many steps an entry lies behind the root.
pub open spec fn level(all: Seq<walk::EntryText>, i: int) -> nat
    decreases i,
{
    match parent(all, i) {
        Some(p) => if 0 <= p < i {
            level(all, p) + 1
        } else {
            1
        },
        None => 1,
    }
}

/// Whether an entry is another one or was reached through it.
spec fn under(all: Seq<walk::EntryText>, x: int, top: int) -> bool
    decreases x,
{
    x == top || match parent(all, x) {
        Some(p) => 0 <= p < x && under(all, p, top),
        None => false,
    }
}

proof fn lemma_under_is_behind(all: Seq<walk::EntryText>, x: int, top: int)
    requires
        under(all, x, top),
    ensures
        top <= x,
        x != top ==> x < all.len(),
    decreases x,
{
    if x != top {
        lemma_under_is_behind(all, parent(all, x)->Some_0, top);
    }
}

proof fn lemma_under_is_transitive(all: Seq<walk::EntryText>, x: int, mid: int, top: int)
    requires
        under(all, x, mid),
        under(all, mid, top),
    ensures
        under(all, x, top),
    decreases x,
{
    if x != mid {
        lemma_under_is_transitive(all, parent(all, x)->Some_0, mid, top);
    }
}

proof fn lemma_under_a_child(all: Seq<walk::EntryText>, x: int, top: int) -> (c: int)
    requires
        under(all, x, top),
        x != top,
    ensures
        parent(all, c) == Some(top),
        under(all, x, c),
        top < c <= x,
    decreases x,
{
    let p = parent(all, x)->Some_0;
    if p == top {
        x
    } else {
        lemma_under_a_child(all, p, top)
    }
}

proof fn lemma_under_two(all: Seq<walk::EntryText>, x: int, a: int, b: int)
    requires
        under(all, x, a),
        under(all, x, b),
        a < b,
    ensures
        under(all, b, a),
    decreases x,
{
    if x != b {
        lemma_under_is_behind(all, x, b);
        lemma_under_two(all, parent(all, x)->Some_0, a, b);
    }
}

proof fn lemma_trees_apart(all: Seq<walk::EntryText>, x: int, a: int, b: int)
    requires
        under(all, x, a),
        under(all, x, b),
        parent(all, a) == parent(all, b),
    ensures
        a == b,
{
    if a < b {
        lemma_under_two(all, x, a, b);
        lemma_under_is_behind(all, parent(all, b)->Some_0, a);
    } else if b < a {
        lemma_under_two(all, x, b, a);
        lemma_under_is_behind(all, parent(all, a)->Some_0, b);
    }
}

proof fn lemma_has_a_root(all: Seq<walk::EntryText>, x: int) -> (c: int)
    requires
        0 <= x < all.len(),
    ensures
        0 <= c <= x,
        parent(all, c) is None,
        under(all, x, c),
    decreases x,
{
    match parent(all, x) {
        Some(p) => lemma_has_a_root(all, p),
        None => x,
    }
}

proof fn lemma_deeper(all: Seq<walk::EntryText>, x: int, top: int)
    requires
        under(all, x, top),
    ensures
        level(all, top) <= level(all, x),
        x != top ==> level(all, top) < level(all, x),
    decreases x,
{
    if x != top {
        lemma_deeper(all, parent(all, x)->Some_0, top);
    }
}

// ── Order ────────────────────────────────────────────────────────────────────

/// An entry and everything reached through it, in the order in which it is told.
spec fn tree_order(all: Seq<walk::EntryText>, index: int) -> Seq<int>
    decreases all.len() - index, all.len() + 1,
{
    seq![index] + kids_order(all, index, all.len() as int)
}

/// What is reached from an entry through the first `n` entries.
spec fn kids_order(all: Seq<walk::EntryText>, index: int, n: int) -> Seq<int>
    decreases all.len() - index, n,
{
    if n <= 0 {
        Seq::empty()
    } else {
        let head = kids_order(all, index, n - 1);
        if index < n - 1 < all.len() && parent(all, n - 1) == Some(index) {
            head + tree_order(all, n - 1)
        } else {
            head
        }
    }
}

/// The trees of the first `n` entries.
spec fn trees_order(all: Seq<walk::EntryText>, n: int) -> Seq<int>
    decreases n,
{
    if n <= 0 {
        Seq::empty()
    } else {
        let head = trees_order(all, n - 1);
        if parent(all, n - 1) is None {
            head + tree_order(all, n - 1)
        } else {
            head
        }
    }
}

/// Whether the `k`th entry told stands below the one from which it was reached: that
/// comes before it, and only what lies deeper comes between the two.
pub open spec fn stands_below_its_parent(
    all: Seq<walk::EntryText>,
    order: Seq<int>,
    k: int,
) -> bool {
    match parent(all, order[k]) {
        None => true,
        Some(p) => exists|j: int|
            0 <= j < k && #[trigger] order[j] == p && forall|m: int|
                j < m < k ==> level(all, #[trigger] order[m]) > level(all, p),
    }
}

/// Whether a list tells every entry once, each below the one from which it was reached.
pub open spec fn tells_all(all: Seq<walk::EntryText>, order: Seq<int>) -> bool {
    &&& order.len() == all.len()
    &&& order.no_duplicates()
    &&& forall|k: int| 0 <= k < order.len() ==> 0 <= #[trigger] order[k] < all.len()
    &&& forall|i: int| 0 <= i < all.len() ==> #[trigger] order.contains(i)
    &&& forall|k: int| 0 <= k < order.len() ==> #[trigger] stands_below_its_parent(all, order, k)
}

proof fn lemma_below_moves(
    all: Seq<walk::EntryText>,
    front: Seq<int>,
    order: Seq<int>,
    k: int,
)
    requires
        0 <= k < order.len(),
        stands_below_its_parent(all, order, k),
    ensures
        stands_below_its_parent(all, front + order, front.len() + k),
{
    let both = front + order;
    assert(both[front.len() + k] == order[k]);
    match parent(all, order[k]) {
        None => {},
        Some(p) => {
            let j = choose|j: int|
                0 <= j < k && #[trigger] order[j] == p && forall|m: int|
                    j < m < k ==> level(all, #[trigger] order[m]) > level(all, p);
            assert(both[front.len() + j] == p);
            assert forall|m: int| front.len() + j < m < front.len() + k implies level(
                all,
                #[trigger] both[m],
            ) > level(all, p) by {
                assert(both[m] == order[m - front.len()]);
            }
        },
    }
}

proof fn lemma_below_stays(
    all: Seq<walk::EntryText>,
    order: Seq<int>,
    back: Seq<int>,
    k: int,
)
    requires
        0 <= k < order.len(),
        stands_below_its_parent(all, order, k),
    ensures
        stands_below_its_parent(all, order + back, k),
{
    let both = order + back;
    assert(both[k] == order[k]);
    match parent(all, order[k]) {
        None => {},
        Some(p) => {
            let j = choose|j: int|
                0 <= j < k && #[trigger] order[j] == p && forall|m: int|
                    j < m < k ==> level(all, #[trigger] order[m]) > level(all, p);
            assert(both[j] == p);
            assert forall|m: int| j < m < k implies level(all, #[trigger] both[m]) > level(
                all,
                p,
            ) by {
                assert(both[m] == order[m]);
            }
        },
    }
}

spec fn is_tree(all: Seq<walk::EntryText>, index: int, t: Seq<int>) -> bool {
    &&& t.len() > 0
    &&& t[0] == index
    &&& t.no_duplicates()
    &&& forall|x: int| #[trigger] t.contains(x) <==> under(all, x, index)
    &&& forall|k: int| 1 <= k < t.len() ==> #[trigger] stands_below_its_parent(all, t, k)
}

spec fn is_kids(all: Seq<walk::EntryText>, index: int, n: int, ks: Seq<int>) -> bool {
    &&& ks.no_duplicates()
    &&& forall|x: int| #[trigger] ks.contains(x) ==> exists|c: int|
        c < n && #[trigger] parent(all, c) == Some(index) && under(all, x, c)
    &&& forall|x: int, c: int|
        c < n && #[trigger] parent(all, c) == Some(index) && #[trigger] under(all, x, c)
            ==> ks.contains(x)
    &&& forall|k: int|
        1 <= k < ks.len() + 1 ==> #[trigger] stands_below_its_parent(all, seq![index] + ks, k)
}

proof fn lemma_tree_order(all: Seq<walk::EntryText>, index: int)
    requires
        0 <= index < all.len(),
    ensures
        is_tree(all, index, tree_order(all, index)),
    decreases all.len() - index, all.len() + 1,
{
    let n = all.len() as int;
    lemma_kids_order(all, index, n);
    let ks = kids_order(all, index, n);
    let t = tree_order(all, index);
    assert(t[0] == index);
    assert forall|x: int| #[trigger] t.contains(x) <==> under(all, x, index) by {
        if t.contains(x) && x != index {
            let k = choose|k: int| 0 <= k < t.len() && t[k] == x;
            assert(ks[k - 1] == x);
            assert(ks.contains(x));
            let c = choose|c: int|
                c < n && #[trigger] parent(all, c) == Some(index) && under(all, x, c);
            assert(under(all, index, index));
            assert(under(all, c, index));
            lemma_under_is_transitive(all, x, c, index);
        }
        if under(all, x, index) {
            if x != index {
                let c = lemma_under_a_child(all, x, index);
                assert(ks.contains(x));
                let k = choose|k: int| 0 <= k < ks.len() && ks[k] == x;
                assert(t[k + 1] == x);
            }
        }
    }
    assert(t.no_duplicates()) by {
        assert forall|i: int, j: int| 0 <= i < t.len() && 0 <= j < t.len() && i != j implies t[i]
            != t[j] by {
            if i == 0 || j == 0 {
                let m = if i == 0 {
                    j
                } else {
                    i
                };
                assert(ks.contains(ks[m - 1]));
                let c = choose|c: int|
                    c < n && #[trigger] parent(all, c) == Some(index) && under(
                        all,
                        ks[m - 1],
                        c,
                    );
                lemma_under_is_behind(all, ks[m - 1], c);
            } else {
                assert(ks[i - 1] != ks[j - 1]);
            }
        }
    }
}

proof fn lemma_kids_order(all: Seq<walk::EntryText>, index: int, n: int)
    requires
        0 <= index < all.len(),
        0 <= n <= all.len(),
    ensures
        is_kids(all, index, n, kids_order(all, index, n)),
    decreases all.len() - index, n,
{
    if n > 0 {
        lemma_kids_order(all, index, n - 1);
        let head = kids_order(all, index, n - 1);
        let ks = kids_order(all, index, n);
        if parent(all, n - 1) == Some(index) {
            let c = n - 1;
            lemma_tree_order(all, c);
            let t = tree_order(all, c);
            assert forall|x: int| #[trigger] ks.contains(x) implies exists|c: int|
                c < n && #[trigger] parent(all, c) == Some(index) && under(all, x, c) by {
                let k = choose|k: int| 0 <= k < ks.len() && ks[k] == x;
                if k < head.len() {
                    assert(head[k] == x);
                    assert(head.contains(x));
                } else {
                    assert(t[k - head.len()] == x);
                    assert(t.contains(x));
                }
            }
            assert forall|x: int, d: int|
                d < n && #[trigger] parent(all, d) == Some(index) && #[trigger] under(
                    all,
                    x,
                    d,
                ) implies ks.contains(x) by {
                if d == c {
                    assert(t.contains(x));
                    let k = choose|k: int| 0 <= k < t.len() && t[k] == x;
                    assert(ks[head.len() + k] == x);
                } else {
                    assert(head.contains(x));
                    let k = choose|k: int| 0 <= k < head.len() && head[k] == x;
                    assert(ks[k] == x);
                }
            }
            assert forall|i: int, j: int| 0 <= i < j < ks.len() implies ks[i] != ks[j] by {
                if j < head.len() {
                    assert(head[i] != head[j]);
                } else if i >= head.len() {
                    assert(t[i - head.len()] != t[j - head.len()]);
                } else if ks[i] == ks[j] {
                    let x = ks[i];
                    assert(head.contains(head[i]));
                    assert(t.contains(t[j - head.len()]));
                    let d = choose|d: int|
                        d < n - 1 && #[trigger] parent(all, d) == Some(index) && under(
                            all,
                            x,
                            d,
                        );
                    lemma_trees_apart(all, x, d, c);
                }
            }
            let front = seq![index] + head;
            let whole = seq![index] + ks;
            assert(whole =~= front + t);
            assert forall|k: int| 1 <= k < ks.len() + 1 implies #[trigger] stands_below_its_parent(
                all,
                whole,
                k,
            ) by {
                if k < front.len() {
                    lemma_below_stays(all, front, t, k);
                } else if k == front.len() {
                    assert(whole[k] == c);
                    assert(whole[0] == index);
                    assert forall|m: int| 0 < m < k implies level(all, #[trigger] whole[m])
                        > level(all, index) by {
                        assert(whole[m] == head[m - 1]);
                        assert(head.contains(head[m - 1]));
                        let d = choose|d: int|
                            d < n - 1 && #[trigger] parent(all, d) == Some(index) && under(
                                all,
                                head[m - 1],
                                d,
                            );
                        assert(under(all, index, index));
                        assert(under(all, d, index));
                        lemma_under_is_transitive(all, head[m - 1], d, index);
                        lemma_under_is_behind(all, head[m - 1], d);
                        lemma_deeper(all, head[m - 1], index);
                    }
                } else {
                    lemma_below_moves(all, front, t, k - front.len());
                }
            }
        } else {
            assert forall|x: int, d: int|
                d < n && #[trigger] parent(all, d) == Some(index) && #[trigger] under(
                    all,
                    x,
                    d,
                ) implies ks.contains(x) by {
                assert(d < n - 1);
            }
        }
    }
}

proof fn lemma_trees_order(all: Seq<walk::EntryText>, n: int)
    requires
        0 <= n <= all.len(),
    ensures
        trees_order(all, n).no_duplicates(),
        forall|x: int| #[trigger]
            trees_order(all, n).contains(x) ==> exists|c: int|
                0 <= c < n && #[trigger] parent(all, c) is None && under(all, x, c),
        forall|x: int, c: int|
            0 <= c < n && #[trigger] parent(all, c) is None && #[trigger] under(all, x, c)
                ==> trees_order(all, n).contains(x),
        forall|k: int|
            0 <= k < trees_order(all, n).len() ==> #[trigger] stands_below_its_parent(
                all,
                trees_order(all, n),
                k,
            ),
    decreases n,
{
    if n > 0 {
        lemma_trees_order(all, n - 1);
        let head = trees_order(all, n - 1);
        let ks = trees_order(all, n);
        let c = n - 1;
        if parent(all, c) is None {
            lemma_tree_order(all, c);
            let t = tree_order(all, c);
            assert forall|x: int| #[trigger] ks.contains(x) implies exists|d: int|
                0 <= d < n && #[trigger] parent(all, d) is None && under(all, x, d) by {
                let k = choose|k: int| 0 <= k < ks.len() && ks[k] == x;
                if k < head.len() {
                    assert(head[k] == x);
                    assert(head.contains(x));
                } else {
                    assert(t[k - head.len()] == x);
                    assert(t.contains(x));
                    assert(parent(all, c) is None && under(all, x, c));
                }
            }
            assert forall|x: int, d: int|
                0 <= d < n && #[trigger] parent(all, d) is None && #[trigger] under(
                    all,
                    x,
                    d,
                ) implies ks.contains(x) by {
                if d == c {
                    assert(t.contains(x));
                    let k = choose|k: int| 0 <= k < t.len() && t[k] == x;
                    assert(ks[head.len() + k] == x);
                } else {
                    assert(head.contains(x));
                    let k = choose|k: int| 0 <= k < head.len() && head[k] == x;
                    assert(ks[k] == x);
                }
            }
            assert forall|i: int, j: int| 0 <= i < j < ks.len() implies ks[i] != ks[j] by {
                if j < head.len() {
                    assert(head[i] != head[j]);
                } else if i >= head.len() {
                    assert(t[i - head.len()] != t[j - head.len()]);
                } else if ks[i] == ks[j] {
                    let x = ks[i];
                    assert(head.contains(head[i]));
                    assert(t.contains(t[j - head.len()]));
                    let d = choose|d: int|
                        0 <= d < n - 1 && #[trigger] parent(all, d) is None && under(all, x, d);
                    lemma_trees_apart(all, x, d, c);
                }
            }
            assert forall|k: int| 0 <= k < ks.len() implies #[trigger] stands_below_its_parent(
                all,
                ks,
                k,
            ) by {
                if k < head.len() {
                    lemma_below_stays(all, head, t, k);
                } else if k > head.len() {
                    lemma_below_moves(all, head, t, k - head.len());
                } else {
                    assert(ks[k] == c);
                }
            }
        } else {
            assert forall|x: int, d: int|
                0 <= d < n && #[trigger] parent(all, d) is None && #[trigger] under(
                    all,
                    x,
                    d,
                ) implies ks.contains(x) by {
                assert(d < n - 1);
            }
        }
    }
}

proof fn lemma_trees_tell_all(all: Seq<walk::EntryText>)
    ensures
        tells_all(all, trees_order(all, all.len() as int)),
{
    let n = all.len() as int;
    lemma_trees_order(all, n);
    let order = trees_order(all, n);
    assert forall|i: int| 0 <= i < all.len() implies #[trigger] order.contains(i) by {
        let c = lemma_has_a_root(all, i);
        assert(parent(all, c) is None && under(all, i, c));
    }
    assert forall|k: int| 0 <= k < order.len() implies 0 <= #[trigger] order[k] < all.len() by {
        assert(order.contains(order[k]));
        let c = choose|c: int|
            0 <= c < n && #[trigger] parent(all, c) is None && under(all, order[k], c);
        lemma_under_is_behind(all, order[k], c);
    }
    order.unique_seq_to_set();
    let whole = vstd::set_lib::set_int_range(0, n);
    vstd::set_lib::lemma_int_range(0, n);
    assert(order.to_set() =~= whole) by {
        assert forall|x: int| order.to_set().contains(x) <==> whole.contains(x) by {
            if order.contains(x) {
                let k = choose|k: int| 0 <= k < order.len() && order[k] == x;
            }
        }
    }
}

// ── Text ─────────────────────────────────────────────────────────────────────

proof fn lemma_flat_map_add(a: Seq<int>, b: Seq<int>, f: spec_fn(int) -> Seq<char>)
    ensures
        (a + b).flat_map(f) == a.flat_map(f) + b.flat_map(f),
{
    assert((a + b).map_values(f) =~= a.map_values(f) + b.map_values(f));
    vstd::seq_lib::lemma_flatten_concat(a.map_values(f), b.map_values(f));
}

proof fn lemma_indented(
    start: Seq<char>,
    indent: Seq<char>,
    ls: Seq<Seq<char>>,
    n: int,
    line: spec_fn(Seq<char>) -> Seq<char>,
)
    requires
        0 <= n <= ls.len(),
        forall|l: Seq<char>| #[trigger] line(l) == indent + l + "\n"@,
    ensures
        graph::indented(start, indent, ls, n) == start + ls.take(n).flat_map(line),
    decreases n,
{
    if n > 0 {
        lemma_indented(start, indent, ls, n - 1, line);
        ls.lemma_flat_map_take_append(line, n - 1);
        text::lemma_put_together(start, ls.take(n - 1).flat_map(line), line(ls[n - 1]));
    } else {
        assert(ls.take(0).flat_map(line) =~= Seq::empty());
        text::lemma_put_together(start, start, start);
    }
}

/// The source of a node is told line by line, condensed and each line indented, behind a
/// line that says so.
pub proof fn law_sources_are_told_line_by_line(
    start: Seq<char>,
    node: symbols::NodeText,
    indent: Seq<char>,
)
    ensures
        graph::with_source(start, node, indent) == start + (indent + "SOURCE:\n"@) + scan::lines(
            condense::condensed(node.raw_text, node.language),
        ).flat_map(|l: Seq<char>| indent + l + "\n"@),
{
    let line = |l: Seq<char>| indent + l + "\n"@;
    let ls = scan::lines(condense::condensed(node.raw_text, node.language));
    lemma_indented(start + (indent + "SOURCE:\n"@), indent, ls, ls.len() as int, line);
    assert(ls.take(ls.len() as int) =~= ls);
}

/// An entry is told on a line of its own, two spaces to the right for every step from the
/// root: its depth, relationship, name, kind and file, and whether its node was met
/// before. The source of one that was not follows where sources are asked for.
pub proof fn law_entries_are_told_in_full(
    start: Seq<char>,
    e: walk::EntryText,
    source: bool,
    steps: nat,
)
    ensures
        ({
            let indent = text::repeated("  "@, steps);
            graph::with_entry(start, e, source, steps) == start + (indent + "- [d"@
                + text::decimal(e.depth as nat) + "] ["@ + e.relationship + "] "@
                + e.node.symbol_name + " ("@ + e.node.symbol_type + ") — "@ + e.node.file_path + (
            if e.already_seen {
                " (already seen)"@
            } else {
                ""@
            }) + "\n"@) + (if source && !e.already_seen {
                graph::with_source(Seq::empty(), e.node, indent + "  "@)
            } else {
                Seq::empty()
            })
        }),
{
    let indent = text::repeated("  "@, steps);
    let line = start + graph::entry_line(e, indent);
    lemma_source_behind(line, e.node, indent + "  "@);
    text::lemma_put_together(line, line, line);
}

proof fn lemma_source_behind(start: Seq<char>, node: symbols::NodeText, indent: Seq<char>)
    ensures
        graph::with_source(start, node, indent) == start + graph::with_source(
            Seq::empty(),
            node,
            indent,
        ),
{
    law_sources_are_told_line_by_line(start, node, indent);
    law_sources_are_told_line_by_line(Seq::empty(), node, indent);
    let line = |l: Seq<char>| indent + l + "\n"@;
    let rest = scan::lines(condense::condensed(node.raw_text, node.language)).flat_map(line);
    let head = indent + "SOURCE:\n"@;
    text::lemma_put_together(start, head, rest);
    text::lemma_put_together(head, head, head);
}

proof fn lemma_entry_behind(start: Seq<char>, e: walk::EntryText, source: bool, steps: nat)
    ensures
        graph::with_entry(start, e, source, steps) == start + graph::with_entry(
            Seq::empty(),
            e,
            source,
            steps,
        ),
{
    let indent = text::repeated("  "@, steps);
    let line = graph::entry_line(e, indent);
    let none = Seq::<char>::empty();
    text::lemma_put_together(line, none, none);
    lemma_source_behind(start + line, e.node, indent + "  "@);
    lemma_source_behind(none + line, e.node, indent + "  "@);
    text::lemma_put_together(
        start,
        line,
        graph::with_source(none, e.node, indent + "  "@),
    );
}

proof fn lemma_tree_text(
    start: Seq<char>,
    all: Seq<walk::EntryText>,
    index: int,
    source: bool,
    told: spec_fn(int) -> Seq<char>,
)
    requires
        walk::well_nested(all),
        0 <= index < all.len(),
        forall|i: int| #[trigger]
            told(i) == graph::with_entry(Seq::empty(), all[i], source, level(all, i)),
    ensures
        graph::with_tree(start, all, index, source, level(all, index)) == start + tree_order(
            all,
            index,
        ).flat_map(told),
    decreases all.len() - index, all.len() + 1,
{
    let first = graph::with_entry(start, all[index], source, level(all, index));
    lemma_entry_behind(start, all[index], source, level(all, index));
    lemma_kids_text(first, all, index, source, all.len() as int, told);
    let ks = kids_order(all, index, all.len() as int);
    lemma_flat_map_add(seq![index], ks, told);
    seq![index].lemma_flat_map_singleton(told);
    text::lemma_put_together(start, told(index), ks.flat_map(told));
}

proof fn lemma_kids_text(
    start: Seq<char>,
    all: Seq<walk::EntryText>,
    index: int,
    source: bool,
    n: int,
    told: spec_fn(int) -> Seq<char>,
)
    requires
        walk::well_nested(all),
        0 <= index < all.len(),
        0 <= n <= all.len(),
        forall|i: int| #[trigger]
            told(i) == graph::with_entry(Seq::empty(), all[i], source, level(all, i)),
    ensures
        graph::with_children(start, all, index, source, level(all, index), n) == start
            + kids_order(all, index, n).flat_map(told),
    decreases all.len() - index, n,
{
    if n > 0 {
        lemma_kids_text(start, all, index, source, n - 1, told);
        let head = kids_order(all, index, n - 1);
        assert(all[n - 1].parent == Some(index) ==> parent(all, n - 1) == Some(index));
        assert(parent(all, n - 1) == Some(index) ==> all[n - 1].parent == Some(index));
        if parent(all, n - 1) == Some(index) {
            let before = graph::with_children(start, all, index, source, level(all, index), n - 1);
            lemma_tree_text(before, all, n - 1, source, told);
            assert(level(all, n - 1) == level(all, index) + 1);
            lemma_flat_map_add(head, tree_order(all, n - 1), told);
            text::lemma_put_together(
                start,
                head.flat_map(told),
                tree_order(all, n - 1).flat_map(told),
            );
        }
    } else {
        assert(Seq::<int>::empty().flat_map(told) =~= Seq::empty());
        text::lemma_put_together(start, start, start);
    }
}

proof fn lemma_trees_text(
    start: Seq<char>,
    all: Seq<walk::EntryText>,
    source: bool,
    n: int,
    told: spec_fn(int) -> Seq<char>,
)
    requires
        walk::well_nested(all),
        0 <= n <= all.len(),
        forall|i: int| #[trigger]
            told(i) == graph::with_entry(Seq::empty(), all[i], source, level(all, i)),
    ensures
        graph::with_trees(start, all, source, n) == start + trees_order(all, n).flat_map(told),
    decreases n,
{
    if n > 0 {
        lemma_trees_text(start, all, source, n - 1, told);
        let head = trees_order(all, n - 1);
        assert(all[n - 1].parent is None <==> parent(all, n - 1) is None);
        if parent(all, n - 1) is None {
            let before = graph::with_trees(start, all, source, n - 1);
            lemma_tree_text(before, all, n - 1, source, told);
            lemma_flat_map_add(head, tree_order(all, n - 1), told);
            text::lemma_put_together(
                start,
                head.flat_map(told),
                tree_order(all, n - 1).flat_map(told),
            );
        }
    } else {
        assert(Seq::<int>::empty().flat_map(told) =~= Seq::empty());
        text::lemma_put_together(start, start, start);
    }
}

/// A section tells every entry of its walk once and nothing else, each below the entry
/// from which it was reached and as far to the right as it lies from the root.
pub proof fn law_sections_tell_every_entry_once(
    start: Seq<char>,
    title: Seq<char>,
    all: Seq<walk::EntryText>,
    source: bool,
)
    requires
        walk::well_nested(all),
    ensures
        all.len() == 0 ==> graph::with_section(start, title, all, source) == start + ("\n"@ + title
            + "\n"@) + "  (none)\n"@,
        all.len() > 0 ==> exists|order: Seq<int>| #[trigger]
            tells_all(all, order) && graph::with_section(start, title, all, source) == start + (
            "\n"@ + title + "\n"@) + order.flat_map(
                |i: int| graph::with_entry(Seq::empty(), all[i], source, level(all, i)),
            ),
{
    let told = |i: int| graph::with_entry(Seq::empty(), all[i], source, level(all, i));
    let order = trees_order(all, all.len() as int);
    lemma_trees_tell_all(all);
    lemma_trees_text(start + ("\n"@ + title + "\n"@), all, source, all.len() as int, told);
    assert(tells_all(all, order));
}

proof fn lemma_section_behind(
    start: Seq<char>,
    title: Seq<char>,
    all: Seq<walk::EntryText>,
    source: bool,
)
    requires
        walk::well_nested(all),
    ensures
        graph::with_section(start, title, all, source) == start + graph::with_section(
            Seq::empty(),
            title,
            all,
            source,
        ),
{
    let told = |i: int| graph::with_entry(Seq::empty(), all[i], source, level(all, i));
    let n = all.len() as int;
    let none = Seq::<char>::empty();
    let head = "\n"@ + title + "\n"@;
    lemma_trees_text(start + head, all, source, n, told);
    lemma_trees_text(none + head, all, source, n, told);
    text::lemma_put_together(head, none, none);
    text::lemma_put_together(start, head, trees_order(all, n).flat_map(told));
    text::lemma_put_together(start, head, "  (none)\n"@);
}

/// A graph tells its root, then what was met against the edges under the heading of the
/// callers, unless callees alone are asked for, then what was met along the edges under
/// the heading of the callees, unless callers alone are asked for.
pub proof fn law_graphs_tell_callers_and_callees(
    g: graph::GraphText,
    depth: usize,
    direction: DependencyDirection,
    source: bool,
)
    requires
        walk::well_nested(g.callers),
        walk::well_nested(g.callees),
    ensures
        graph::graph_body(g, depth, direction, source) == "DEPENDENCY GRAPH — "@
            + g.root.symbol_name + " (depth="@ + text::decimal(depth as nat) + ", direction="@ + (
        match direction {
            DependencyDirection::Callers => "callers"@,
            DependencyDirection::Callees => "callees"@,
            DependencyDirection::Both => "both"@,
        }) + ")\n\nROOT: "@ + g.root.symbol_name + " ("@ + g.root.symbol_type + ") — "@
            + g.root.file_path + "\n"@ + (if source {
            graph::with_source(Seq::empty(), g.root, "  "@)
        } else {
            Seq::empty()
        }) + (match direction {
            DependencyDirection::Callees => Seq::empty(),
            _ => graph::with_section(Seq::empty(), "CALLERS (inbound):"@, g.callers, source),
        }) + (match direction {
            DependencyDirection::Callers => Seq::empty(),
            _ => graph::with_section(Seq::empty(), "CALLEES (outbound):"@, g.callees, source),
        }),
{
    let head = "DEPENDENCY GRAPH — "@ + g.root.symbol_name + " (depth="@ + text::decimal(
        depth as nat,
    ) + ", direction="@ + direction.name() + ")\n\nROOT: "@ + g.root.symbol_name + " ("@
        + g.root.symbol_type + ") — "@ + g.root.file_path + "\n"@;
    let t1 = if source {
        graph::with_source(head, g.root, "  "@)
    } else {
        head
    };
    lemma_source_behind(head, g.root, "  "@);
    lemma_section_behind(t1, "CALLERS (inbound):"@, g.callers, source);
    let t2 = if direction != DependencyDirection::Callees {
        graph::with_section(t1, "CALLERS (inbound):"@, g.callers, source)
    } else {
        t1
    };
    lemma_section_behind(t2, "CALLEES (outbound):"@, g.callees, source);
    text::lemma_put_together(head, head, head);
    text::lemma_put_together(t1, t1, t1);
    text::lemma_put_together(t2, t2, t2);
}

/// A graph that fits is told whole, with how many different nodes and how many edges it
/// has and whether its walks were cut short. Of one that does not fit, the front is told
/// and then that the rest was cut.
pub proof fn law_graphs_are_told_whole_or_say_so(
    g: graph::GraphText,
    depth: usize,
    direction: DependencyDirection,
    source: bool,
    max_bytes: usize,
)
    ensures
        ({
            let body = graph::graph_body(g, depth, direction, source);
            let shown = graph::graph_text(g, depth, direction, source, max_bytes);
            let counted = "\n"@ + text::decimal(graph::node_count(g.root.id, g.callers, g.callees))
                + " nodes, "@ + text::decimal(g.edges as nat) + " edges. Traversal truncated: "@
                + (if g.truncated {
                "yes"@
            } else {
                "no"@
            }) + ". Output truncated: "@;
            let note = "\n[Dependency graph output truncated at "@ + text::decimal(
                max_bytes as nat,
            ) + " bytes.]"@ + (counted + "yes"@ + "."@);
            let whole = body + (counted + "no"@ + "."@);
            if text::bytes(whole) <= max_bytes {
                shown == whole
            } else if text::bytes(note) >= max_bytes {
                shown.is_prefix_of(note) && text::bytes(shown) <= max_bytes
            } else {
                &&& note.is_suffix_of(shown)
                &&& shown.take(shown.len() - note.len()).is_prefix_of(
                    body + (counted + "yes"@ + "."@),
                )
            }
        }),
{
    let body = graph::graph_body(g, depth, direction, source);
    let fits = graph::graph_summary(g, false);
    let cut = graph::graph_summary(g, true);
    text::lemma_bytes_concat(body, fits);
    let note = "\n[Dependency graph output truncated at "@ + text::decimal(max_bytes as nat)
        + " bytes.]"@ + cut;
    if text::bytes(body + fits) > max_bytes {
        if text::bytes(note) >= max_bytes {
            text::lemma_byte_prefix(note, max_bytes as int);
        } else {
            let front = text::byte_prefix(body + cut, max_bytes - text::bytes(note));
            text::lemma_byte_prefix(body + cut, max_bytes - text::bytes(note));
            assert((front + note).take(front.len() as int) =~= front);
            assert(note.is_suffix_of(front + note));
        }
    }
}

/// The nodes of a graph are its root and what was met on its walks, each counted once.
pub proof fn law_different_nodes_are_counted(
    root: Seq<char>,
    callers: Seq<walk::EntryText>,
    callees: Seq<walk::EntryText>,
)
    ensures
        graph::node_count(root, callers, callees) == (callers.map_values(
            |e: walk::EntryText| e.node.id,
        ).to_set() + callees.map_values(|e: walk::EntryText| e.node.id).to_set()).insert(
            root,
        ).len(),
{
    let id = |e: walk::EntryText| e.node.id;
    let all = callers + callees;
    let n = all.len() as int;
    lemma_different(root, all, n);
    let d = graph::different(root, all, n);
    d.unique_seq_to_set();
    let met = (callers.map_values(id).to_set() + callees.map_values(id).to_set()).insert(root);
    assert(d.to_set() =~= met) by {
        assert forall|t: Seq<char>| d.to_set().contains(t) <==> met.contains(t) by {
            if d.contains(t) && t != root {
                let i = choose|i: int| 0 <= i < n && (#[trigger] all[i]).node.id == t;
                if i < callers.len() {
                    assert(callers.map_values(id)[i] == t);
                } else {
                    assert(callees.map_values(id)[i - callers.len()] == t);
                }
            }
            if callers.map_values(id).contains(t) {
                let i = choose|i: int|
                    0 <= i < callers.len() && callers.map_values(id)[i] == t;
                assert(all[i].node.id == t);
            }
            if callees.map_values(id).contains(t) {
                let i = choose|i: int|
                    0 <= i < callees.len() && callees.map_values(id)[i] == t;
                assert(all[callers.len() + i].node.id == t);
            }
        }
    }
}

proof fn lemma_different(root: Seq<char>, all: Seq<walk::EntryText>, n: int)
    requires
        0 <= n <= all.len(),
    ensures
        graph::different(root, all, n).no_duplicates(),
        forall|t: Seq<char>| #[trigger]
            graph::different(root, all, n).contains(t) <==> (t == root || exists|i: int|
                0 <= i < n && (#[trigger] all[i]).node.id == t),
    decreases n,
{
    if n > 0 {
        lemma_different(root, all, n - 1);
        let head = graph::different(root, all, n - 1);
        let now = graph::different(root, all, n);
        let new = all[n - 1].node.id;
        assert forall|t: Seq<char>| #[trigger] now.contains(t) <==> (t == root || exists|i: int|
            0 <= i < n && (#[trigger] all[i]).node.id == t) by {
            if now.contains(t) {
                let k = choose|k: int| 0 <= k < now.len() && now[k] == t;
                if k < head.len() {
                    assert(head[k] == t);
                    assert(head.contains(t));
                } else {
                    assert(all[n - 1].node.id == t);
                }
            }
            if head.contains(t) {
                let k = choose|k: int| 0 <= k < head.len() && head[k] == t;
                assert(now[k] == t);
            }
            if t == new {
                if !head.contains(t) {
                    assert(now[head.len() as int] == t);
                }
            }
        }
    } else {
        assert(seq![root][0] == root);
    }
}

} // verus!
