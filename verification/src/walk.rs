//! Walking the dependency graph breadth first.
use crate::files;
use crate::model::{DependencyDirection, NodeBrief};
use crate::order::listed;
use crate::store;
use crate::store::{bind_one, keep_text_rows, select, MarrowError};
use crate::symbols;
use crate::symbols::read_node;
use crate::text;
use vstd::prelude::*;
use vstd::string::*;

verus! {

pub const CALLERS_SQL: &'static str =
    "SELECT e.relationship_type, n.id, n.symbol_name, n.symbol_type, n.file_path, n.language, n.raw_text FROM edges e JOIN nodes n ON n.id = e.source_id WHERE e.target_id = ?1 ORDER BY e.relationship_type ASC, n.symbol_name ASC, n.file_path ASC, n.id ASC";

pub const CALLEES_SQL: &'static str =
    "SELECT e.relationship_type, n.id, n.symbol_name, n.symbol_type, n.file_path, n.language, n.raw_text FROM edges e JOIN nodes n ON n.id = e.target_id WHERE e.source_id = ?1 ORDER BY e.relationship_type ASC, n.symbol_name ASC, n.file_path ASC, n.id ASC";

/// All edges that lead to a node, also those of what is no node any more: of their
/// other end only the identity is read.
pub const DEPENDENTS_SQL: &'static str =
    "SELECT relationship_type, source_id, '', '', '', '', '' FROM edges WHERE target_id = ?1 ORDER BY relationship_type ASC, source_id ASC";

// ── Edges ────────────────────────────────────────────────────────────────────

/// An edge and the node at its other end.
#[derive(Debug)]
pub struct Edge {
    pub relationship_type: String,
    pub node: NodeBrief,
}

/// An edge without its representation.
pub struct EdgeText {
    pub relationship: Seq<char>,
    pub node: symbols::NodeText,
}

impl View for Edge {
    type V = EdgeText;

    open spec fn view(&self) -> EdgeText {
        EdgeText { relationship: self.relationship_type@, node: self.node@ }
    }
}

/// The edges of a list.
pub open spec fn edge_texts(v: Seq<Edge>) -> Seq<EdgeText> {
    Seq::new(v.len(), |i: int| v[i]@)
}

/// The edge that a row describes.
pub open spec fn edge_from(row: Seq<Seq<char>>) -> EdgeText {
    EdgeText { relationship: row[0], node: symbols::node_from(row, 1) }
}

/// The edges that rows describe.
pub open spec fn edges_from(rows: Seq<Seq<Seq<char>>>) -> Seq<EdgeText> {
    Seq::new(rows.len(), |i: int| edge_from(rows[i]))
}

/// Which edges a walk follows.
#[derive(Debug, Clone, Copy, PartialEq, Eq, Structural)]
pub enum Course {
    /// Those between nodes, in a direction.
    Towards(DependencyDirection),
    /// All that lead to a node, wherever they come from.
    Dependents,
}

/// The statement that reads the edges of a node.
pub open spec fn edge_sql(course: Course) -> Seq<char> {
    match course {
        Course::Dependents => DEPENDENTS_SQL@,
        Course::Towards(DependencyDirection::Callers) => CALLERS_SQL@,
        _ => CALLEES_SQL@,
    }
}

/// Whether a database could give a node these edges; there are none that run both ways.
pub open spec fn could_fetch(
    db: rusqlite::Connection,
    course: Course,
    id: Seq<char>,
    edges: Seq<EdgeText>,
) -> bool {
    if course == Course::Towards(DependencyDirection::Both) {
        edges.len() == 0
    } else {
        exists|answer: Seq<Result<Vec<store::Cell>, rusqlite::Error>>|
            {
                &&& #[trigger] store::could_answer(
                    db,
                    edge_sql(course),
                    store::one_text(id),
                    answer,
                )
                &&& edges == edges_from(store::text_rows(answer, 7))
            }
    }
}

/// The edges that a database could give a node towards its callers end at it, those
/// towards its callees start at it, and those of its dependents end at it, whatever is at
/// their other end: one for every row of texts, in their order, with its relationship and
/// the node at the other end. There are none that run both ways.
pub proof fn law_edges_run_in_their_direction(
    db: rusqlite::Connection,
    course: Course,
    id: Seq<char>,
    edges: Seq<EdgeText>,
)
    requires
        could_fetch(db, course, id, edges),
    ensures
        course == Course::Towards(DependencyDirection::Both) ==> edges.len() == 0,
        course != Course::Towards(DependencyDirection::Both) ==> exists|
            answer: Seq<Result<Vec<store::Cell>, rusqlite::Error>>,
        |
            {
                let rows = #[trigger] store::text_rows(answer, 7);
                &&& store::could_yield(
                    db,
                    match course {
                        Course::Dependents =>
                            "SELECT relationship_type, source_id, '', '', '', '', '' FROM edges WHERE target_id = ?1 ORDER BY relationship_type ASC, source_id ASC"@,
                        Course::Towards(DependencyDirection::Callers) =>
                            "SELECT e.relationship_type, n.id, n.symbol_name, n.symbol_type, n.file_path, n.language, n.raw_text FROM edges e JOIN nodes n ON n.id = e.source_id WHERE e.target_id = ?1 ORDER BY e.relationship_type ASC, n.symbol_name ASC, n.file_path ASC, n.id ASC"@,
                        Course::Towards(_) =>
                            "SELECT e.relationship_type, n.id, n.symbol_name, n.symbol_type, n.file_path, n.language, n.raw_text FROM edges e JOIN nodes n ON n.id = e.target_id WHERE e.source_id = ?1 ORDER BY e.relationship_type ASC, n.symbol_name ASC, n.file_path ASC, n.id ASC"@,
                    },
                    seq![store::Bound::Text(id)],
                    Ok(answer),
                )
                &&& edges.len() == rows.len()
                &&& forall|i: int|
                    0 <= i < rows.len() ==> {
                        &&& (#[trigger] edges[i]).relationship == rows[i][0]
                        &&& edges[i].node.id == rows[i][1]
                        &&& edges[i].node.symbol_name == rows[i][2]
                        &&& edges[i].node.symbol_type == rows[i][3]
                        &&& edges[i].node.file_path == rows[i][4]
                        &&& edges[i].node.language == rows[i][5]
                        &&& edges[i].node.raw_text == rows[i][6]
                    }
            },
{
    if course != Course::Towards(DependencyDirection::Both) {
        let answer = choose|answer: Seq<Result<Vec<store::Cell>, rusqlite::Error>>|
            {
                &&& #[trigger] store::could_answer(
                    db,
                    edge_sql(course),
                    store::one_text(id),
                    answer,
                )
                &&& edges == edges_from(store::text_rows(answer, 7))
            };
        let rows = store::text_rows(answer, 7);
        assert(edges.len() == rows.len());
    }
}

fn read_edges(rows: &Vec<Vec<String>>) -> (r: Vec<Edge>)
    requires
        forall|i: int| 0 <= i < rows.len() ==> #[trigger] rows@[i].len() == 7,
    ensures
        edge_texts(r@) == edges_from(store::table(rows@)),
{
    let ghost all = store::table(rows@);
    let mut out: Vec<Edge> = Vec::new();
    let mut i: usize = 0;
    while i < rows.len()
        invariant
            i <= rows.len(),
            out.len() == i,
            all == store::table(rows@),
            forall|k: int| 0 <= k < rows.len() ==> #[trigger] rows@[k].len() == 7,
            forall|k: int| 0 <= k < i ==> #[trigger] out@[k]@ == edge_from(all[k]),
        decreases rows.len() - i,
    {
        let row = &rows[i];
        assert(rows@[i as int].len() == 7);
        assert(all[i as int] == text::texts(row@));
        let edge = Edge { relationship_type: row[0].clone(), node: read_node(row, 1) };
        assert(edge@ == edge_from(all[i as int]));
        out.push(edge);
        i += 1;
    }
    assert(edge_texts(out@) =~= edges_from(all));
    out
}

/// Whether a database could refuse to give a node its edges for this reason.
pub open spec fn could_not_fetch(
    db: rusqlite::Connection,
    course: Course,
    id: Seq<char>,
    why: rusqlite::Error,
) -> bool {
    &&& course != Course::Towards(DependencyDirection::Both)
    &&& store::could_refuse(db, edge_sql(course), store::one_text(id), why)
}

fn fetch(conn: &rusqlite::Connection, current_id: &str, course: Course) -> (r: Result<
    Vec<Edge>,
    MarrowError,
>)
    ensures
        match r {
            Ok(v) => could_fetch(*conn, course, current_id@, edge_texts(v@)),
            Err(e) => e matches MarrowError::Store(why) && could_not_fetch(
                *conn,
                course,
                current_id@,
                why,
            ),
        },
{
    let sql: &str = match course {
        Course::Towards(DependencyDirection::Callers) => CALLERS_SQL,
        Course::Towards(DependencyDirection::Callees) => CALLEES_SQL,
        Course::Towards(DependencyDirection::Both) => {
            return Ok(Vec::new());
        },
        Course::Dependents => DEPENDENTS_SQL,
    };
    match select(conn, sql, bind_one(current_id)) {
        Ok(answer) => {
            let rows = keep_text_rows(&answer, 7);
            let edges = read_edges(&rows);
            assert(store::could_answer(
                *conn,
                edge_sql(course),
                store::one_text(current_id@),
                answer@,
            ));
            Ok(edges)
        },
        Err(e) => Err(MarrowError::Store(e)),
    }
}

/// Reads the edges of a node in one direction.
pub fn fetch_dependency_neighbors(
    conn: &rusqlite::Connection,
    current_id: &str,
    direction: DependencyDirection,
) -> (r: Result<Vec<Edge>, MarrowError>)
    ensures
        match r {
            Ok(v) => could_fetch(*conn, Course::Towards(direction), current_id@, edge_texts(v@)),
            Err(e) => e matches MarrowError::Store(why) && could_not_fetch(
                *conn,
                Course::Towards(direction),
                current_id@,
                why,
            ),
        },
{
    fetch(conn, current_id, Course::Towards(direction))
}

// ── The walk ─────────────────────────────────────────────────────────────────

/// A node met on a walk.
#[derive(Debug)]
pub struct GraphEntry {
    /// The entry of the node from which this one was reached, `None` at the root.
    pub parent_index: Option<usize>,
    pub depth: usize,
    pub relationship_type: String,
    pub node: NodeBrief,
    pub already_seen: bool,
}

/// A node met on a walk, without its representation.
pub struct EntryText {
    pub parent: Option<int>,
    pub depth: int,
    pub relationship: Seq<char>,
    pub node: symbols::NodeText,
    pub already_seen: bool,
}

/// The index of a parent, as a number.
pub open spec fn parent_of(index: Option<usize>) -> Option<int> {
    match index {
        Some(i) => Some(i as int),
        None => None,
    }
}

impl View for GraphEntry {
    type V = EntryText;

    open spec fn view(&self) -> EntryText {
        EntryText {
            parent: parent_of(self.parent_index),
            depth: self.depth as int,
            relationship: self.relationship_type@,
            node: self.node@,
            already_seen: self.already_seen,
        }
    }
}

/// The entries of a list.
pub open spec fn entry_texts(v: Seq<GraphEntry>) -> Seq<EntryText> {
    Seq::new(v.len(), |i: int| v[i]@)
}

/// A node whose edges are still to be followed.
pub struct Visit {
    pub id: Seq<char>,
    pub depth: int,
    pub parent: Option<int>,
}

/// How far a walk has come.
pub struct Walk {
    pub queue: Seq<Visit>,
    pub entries: Seq<EntryText>,
    /// The nodes met so far, each once.
    pub visited: Seq<Seq<char>>,
    pub edges: int,
    /// Whether a node was left out because too many had been met.
    pub truncated: bool,
}

/// What following one edge makes of a walk: a node met before is noted as such, a
/// new one is met and queued, unless as many have been met as are allowed.
pub open spec fn meet(w: Walk, from: Visit, edge: EdgeText, max_nodes: int) -> Walk {
    let counted = files::capped_sum(w.edges, 1);
    let entry = EntryText {
        parent: from.parent,
        depth: from.depth + 1,
        relationship: edge.relationship,
        node: edge.node,
        already_seen: w.visited.contains(edge.node.id),
    };
    if w.visited.contains(edge.node.id) {
        Walk { edges: counted, entries: w.entries.push(entry), ..w }
    } else if w.visited.len() >= max_nodes {
        Walk { edges: counted, truncated: true, ..w }
    } else {
        Walk {
            edges: counted,
            entries: w.entries.push(entry),
            visited: w.visited.push(edge.node.id),
            queue: w.queue.push(
                Visit {
                    id: edge.node.id,
                    depth: from.depth + 1,
                    parent: Some(w.entries.len() as int),
                },
            ),
            truncated: w.truncated,
        }
    }
}

/// What following the first `n` edges makes of a walk.
pub open spec fn meet_upto(
    w: Walk,
    from: Visit,
    edges: Seq<EdgeText>,
    max_nodes: int,
    n: int,
) -> Walk
    decreases n,
{
    if n <= 0 {
        w
    } else {
        meet(meet_upto(w, from, edges, max_nodes, n - 1), from, edges[n - 1], max_nodes)
    }
}

/// A walk without the first node of its queue.
pub open spec fn popped(w: Walk) -> Walk {
    Walk { queue: w.queue.drop_first(), ..w }
}

/// Whether one step can lead from one state to another: the first node of the queue
/// is taken off, and unless it lies too deep, its edges are followed.
pub open spec fn steps(
    db: rusqlite::Connection,
    course: Course,
    max_depth: int,
    max_nodes: int,
    a: Walk,
    b: Walk,
) -> bool {
    &&& a.queue.len() > 0
    &&& if a.queue[0].depth >= max_depth {
        b == popped(a)
    } else {
        exists|edges: Seq<EdgeText>|
            {
                &&& #[trigger] could_fetch(db, course, a.queue[0].id, edges)
                &&& b == meet_upto(popped(a), a.queue[0], edges, max_nodes, edges.len() as int)
            }
    }
}

/// Whether a list of states is a walk.
pub open spec fn is_trace(
    db: rusqlite::Connection,
    course: Course,
    max_depth: int,
    max_nodes: int,
    trace: Seq<Walk>,
) -> bool {
    &&& trace.len() > 0
    &&& forall|i: int|
        0 < i < trace.len() ==> steps(
            db,
            course,
            max_depth,
            max_nodes,
            trace[i - 1],
            #[trigger] trace[i],
        )
}

/// Whether a walk that starts in one state can end in another, with nothing left to
/// follow.
pub open spec fn could_walk(
    db: rusqlite::Connection,
    course: Course,
    max_depth: int,
    max_nodes: int,
    start: Walk,
    finish: Walk,
) -> bool {
    &&& finish.queue.len() == 0
    &&& exists|trace: Seq<Walk>|
        {
            &&& #[trigger] is_trace(db, course, max_depth, max_nodes, trace)
            &&& trace[0] == start
            &&& trace.last() == finish
        }
}

/// Whether a walk could break off because the database refuses the edges of the node
/// that comes next.
pub open spec fn could_break_off(
    db: rusqlite::Connection,
    course: Course,
    max_depth: int,
    max_nodes: int,
    start: Walk,
    why: rusqlite::Error,
) -> bool {
    exists|trace: Seq<Walk>|
        {
            &&& #[trigger] is_trace(db, course, max_depth, max_nodes, trace)
            &&& trace[0] == start
            &&& trace.last().queue.len() > 0
            &&& trace.last().queue[0].depth < max_depth
            &&& could_not_fetch(db, course, trace.last().queue[0].id, why)
        }
}

/// Where a walk from a root starts.
pub open spec fn start_walk(root: Seq<char>, visited: Seq<Seq<char>>, truncated: bool) -> Walk {
    Walk {
        queue: seq![Visit { id: root, depth: 0, parent: None }],
        entries: Seq::empty(),
        visited,
        edges: 0,
        truncated,
    }
}

// ── What every walk keeps ────────────────────────────────────────────────────

/// Whether every entry's parent stands before it.
pub open spec fn well_nested(entries: Seq<EntryText>) -> bool {
    forall|i: int|
        0 <= i < entries.len() ==> match (#[trigger] entries[i]).parent {
            Some(p) => 0 <= p < i,
            None => true,
        }
}

/// What holds in every state of a walk of at most `max_depth` steps that may meet
/// at most `max_nodes` nodes, or the `known` ones that were met before.
pub open spec fn sound(w: Walk, known: int, max_depth: int, max_nodes: int) -> bool {
    &&& well_nested(w.entries)
    &&& w.visited.no_duplicates()
    &&& known <= w.visited.len()
    &&& w.visited.len() <= max_nodes || w.visited.len() == known
    &&& forall|i: int|
        0 <= i < w.entries.len() ==> {
            &&& 1 <= (#[trigger] w.entries[i]).depth <= max_depth
            &&& w.visited.contains(w.entries[i].node.id)
        }
    &&& forall|i: int|
        0 <= i < w.queue.len() ==> {
            &&& 0 <= (#[trigger] w.queue[i]).depth <= max_depth
            &&& w.visited.contains(w.queue[i].id)
            &&& (w.queue[i].parent matches Some(p) ==> 0 <= p < w.entries.len())
        }
}

proof fn lemma_meet_sound(
    w: Walk,
    from: Visit,
    edge: EdgeText,
    known: int,
    max_depth: int,
    max_nodes: int,
)
    requires
        sound(w, known, max_depth, max_nodes),
        0 <= from.depth < max_depth,
        from.parent matches Some(p) ==> 0 <= p < w.entries.len(),
    ensures
        sound(meet(w, from, edge, max_nodes), known, max_depth, max_nodes),
        w.entries.len() <= meet(w, from, edge, max_nodes).entries.len(),
{
    let m = meet(w, from, edge, max_nodes);
    assert forall|t: Seq<char>| w.visited.contains(t) implies m.visited.contains(t) by {
        let k = choose|k: int| 0 <= k < w.visited.len() && w.visited[k] == t;
        assert(m.visited[k] == t);
    }
    if !w.visited.contains(edge.node.id) && w.visited.len() < max_nodes {
        assert(m.visited[w.visited.len() as int] == edge.node.id);
        assert(m.visited.no_duplicates());
    }
    assert forall|i: int| 0 <= i < m.entries.len() implies {
        &&& 1 <= (#[trigger] m.entries[i]).depth <= max_depth
        &&& m.visited.contains(m.entries[i].node.id)
        &&& match m.entries[i].parent {
            Some(p) => 0 <= p < i,
            None => true,
        }
    } by {
        if i < w.entries.len() {
            assert(m.entries[i] == w.entries[i]);
        } else {
            assert(m.visited.contains(edge.node.id));
        }
    }
    assert forall|i: int| 0 <= i < m.queue.len() implies {
        &&& 0 <= (#[trigger] m.queue[i]).depth <= max_depth
        &&& m.visited.contains(m.queue[i].id)
        &&& (m.queue[i].parent matches Some(p) ==> 0 <= p < m.entries.len())
    } by {
        if i < w.queue.len() {
            assert(m.queue[i] == w.queue[i]);
        }
    }
}

proof fn lemma_meet_upto_sound(
    w: Walk,
    from: Visit,
    edges: Seq<EdgeText>,
    known: int,
    max_depth: int,
    max_nodes: int,
    n: int,
)
    requires
        sound(w, known, max_depth, max_nodes),
        0 <= from.depth < max_depth,
        from.parent matches Some(p) ==> 0 <= p < w.entries.len(),
        0 <= n <= edges.len(),
    ensures
        sound(meet_upto(w, from, edges, max_nodes, n), known, max_depth, max_nodes),
        w.entries.len() <= meet_upto(w, from, edges, max_nodes, n).entries.len(),
    decreases n,
{
    if n > 0 {
        lemma_meet_upto_sound(w, from, edges, known, max_depth, max_nodes, n - 1);
        lemma_meet_sound(
            meet_upto(w, from, edges, max_nodes, n - 1),
            from,
            edges[n - 1],
            known,
            max_depth,
            max_nodes,
        );
    }
}

proof fn lemma_popped_sound(w: Walk, known: int, max_depth: int, max_nodes: int)
    requires
        sound(w, known, max_depth, max_nodes),
        w.queue.len() > 0,
    ensures
        sound(popped(w), known, max_depth, max_nodes),
{
    let p = popped(w);
    assert forall|i: int| 0 <= i < p.queue.len() implies {
        &&& 0 <= (#[trigger] p.queue[i]).depth <= max_depth
        &&& p.visited.contains(p.queue[i].id)
        &&& (p.queue[i].parent matches Some(q) ==> 0 <= q < p.entries.len())
    } by {
        assert(p.queue[i] == w.queue[i + 1]);
    }
}

/// A step keeps every node met once, within the allowed number, every entry within
/// the allowed depth and behind its parent.
pub proof fn law_steps_keep_the_walk_sound(
    db: rusqlite::Connection,
    course: Course,
    known: int,
    max_depth: int,
    max_nodes: int,
    a: Walk,
    b: Walk,
)
    requires
        sound(a, known, max_depth, max_nodes),
        steps(db, course, max_depth, max_nodes, a, b),
    ensures
        sound(b, known, max_depth, max_nodes),
{
    lemma_popped_sound(a, known, max_depth, max_nodes);
    if a.queue[0].depth < max_depth {
        let edges = choose|edges: Seq<EdgeText>|
            {
                &&& #[trigger] could_fetch(db, course, a.queue[0].id, edges)
                &&& b == meet_upto(popped(a), a.queue[0], edges, max_nodes, edges.len() as int)
            };
        lemma_meet_upto_sound(
            popped(a),
            a.queue[0],
            edges,
            known,
            max_depth,
            max_nodes,
            edges.len() as int,
        );
    }
}

proof fn lemma_trace_sound(
    db: rusqlite::Connection,
    course: Course,
    known: int,
    max_depth: int,
    max_nodes: int,
    trace: Seq<Walk>,
    n: int,
)
    requires
        is_trace(db, course, max_depth, max_nodes, trace),
        sound(trace[0], known, max_depth, max_nodes),
        0 <= n < trace.len(),
    ensures
        sound(trace[n], known, max_depth, max_nodes),
    decreases n,
{
    if n > 0 {
        lemma_trace_sound(db, course, known, max_depth, max_nodes, trace, n - 1);
        law_steps_keep_the_walk_sound(
            db,
            course,
            known,
            max_depth,
            max_nodes,
            trace[n - 1],
            trace[n],
        );
    }
}

/// Following the edges of a node gives an entry for every edge, in order, as long as there
/// is room for every new node: one step deeper than the node, below it, with the edge's
/// relationship and the node at its other end, marked as seen where that was met before or
/// by an earlier one of these edges. Every edge is counted, as far as a size can be held.
pub proof fn law_every_edge_gives_an_entry(
    w: Walk,
    from: Visit,
    edges: Seq<EdgeText>,
    max_nodes: int,
    n: int,
)
    requires
        0 <= n <= edges.len(),
        !meet_upto(w, from, edges, max_nodes, n).truncated,
        0 <= w.edges <= usize::MAX,
    ensures
        ({
            let after = meet_upto(w, from, edges, max_nodes, n);
            &&& !w.truncated
            &&& after.entries.len() == w.entries.len() + n
            &&& after.entries.take(w.entries.len() as int) == w.entries
            &&& forall|i: int|
                0 <= i < n ==> {
                    let e = #[trigger] after.entries[w.entries.len() + i];
                    &&& e.parent == from.parent
                    &&& e.depth == from.depth + 1
                    &&& e.relationship == edges[i].relationship
                    &&& e.node == edges[i].node
                    &&& e.already_seen <==> w.visited.contains(edges[i].node.id) || exists|j: int|
                        0 <= j < i && (#[trigger] edges[j]).node.id == edges[i].node.id
                }
            &&& forall|t: Seq<char>| #[trigger]
                after.visited.contains(t) <==> w.visited.contains(t) || exists|j: int|
                    0 <= j < n && (#[trigger] edges[j]).node.id == t
            &&& after.edges == if w.edges + n > usize::MAX {
                usize::MAX as int
            } else {
                w.edges + n
            }
        }),
    decreases n,
{
    if n > 0 {
        let before = meet_upto(w, from, edges, max_nodes, n - 1);
        law_every_edge_gives_an_entry(w, from, edges, max_nodes, n - 1);
        let after = meet_upto(w, from, edges, max_nodes, n);
        let edge = edges[n - 1];
        let base = w.entries.len() as int;
        assert(after.entries.take(base) =~= w.entries) by {
            assert forall|k: int| 0 <= k < base implies after.entries[k] == w.entries[k] by {
                assert(before.entries.take(base)[k] == before.entries[k]);
            }
        }
        assert forall|i: int| 0 <= i < n implies {
            let e = #[trigger] after.entries[base + i];
            &&& e.parent == from.parent
            &&& e.depth == from.depth + 1
            &&& e.relationship == edges[i].relationship
            &&& e.node == edges[i].node
            &&& e.already_seen <==> w.visited.contains(edges[i].node.id) || exists|j: int|
                0 <= j < i && (#[trigger] edges[j]).node.id == edges[i].node.id
        } by {
            if i < n - 1 {
                assert(after.entries[base + i] == before.entries[base + i]);
            }
        }
        assert forall|t: Seq<char>| #[trigger] after.visited.contains(t) <==> w.visited.contains(t)
            || exists|j: int| 0 <= j < n && (#[trigger] edges[j]).node.id == t by {
            if after.visited.contains(t) && !before.visited.contains(t) {
                let k = choose|k: int| 0 <= k < after.visited.len() && after.visited[k] == t;
                if k < before.visited.len() {
                    assert(before.visited[k] == t);
                }
                assert(edges[n - 1].node.id == t);
            }
            if before.visited.contains(t) {
                let k = choose|k: int| 0 <= k < before.visited.len() && before.visited[k] == t;
                assert(after.visited[k] == t);
            }
            if t == edge.node.id && !before.visited.contains(t) {
                assert(after.visited[before.visited.len() as int] == t);
            }
            if exists|j: int| 0 <= j < n && (#[trigger] edges[j]).node.id == t {
                let j = choose|j: int| 0 <= j < n && (#[trigger] edges[j]).node.id == t;
                if j < n - 1 {
                    assert(before.visited.contains(t));
                }
            }
        }
    } else {
        assert(w.entries.take(w.entries.len() as int) =~= w.entries);
    }
}

/// Every walk from a root ends with each node met once, no more of them than are
/// allowed beyond those known before, every entry within the allowed depth, its node
/// among those met, and its parent in front of it.
pub proof fn law_walks_are_bounded(
    db: rusqlite::Connection,
    course: Course,
    max_depth: int,
    max_nodes: int,
    root: Seq<char>,
    visited: Seq<Seq<char>>,
    truncated: bool,
    finish: Walk,
)
    requires
        visited.no_duplicates(),
        visited.contains(root),
        0 <= max_depth,
        could_walk(
            db,
            course,
            max_depth,
            max_nodes,
            start_walk(root, visited, truncated),
            finish,
        ),
    ensures
        sound(finish, visited.len() as int, max_depth, max_nodes),
        finish.queue.len() == 0,
{
    let start = start_walk(root, visited, truncated);
    let trace = choose|trace: Seq<Walk>|
        {
            &&& #[trigger] is_trace(db, course, max_depth, max_nodes, trace)
            &&& trace[0] == start
            &&& trace.last() == finish
        };
    assert(sound(start, visited.len() as int, max_depth, max_nodes));
    lemma_trace_sound(
        db,
        course,
        visited.len() as int,
        max_depth,
        max_nodes,
        trace,
        trace.len() - 1,
    );
}

// ── Walking ──────────────────────────────────────────────────────────────────

/// A node whose edges are still to be followed.
struct Pending {
    id: String,
    depth: usize,
    parent: Option<usize>,
}

spec fn pending_text(p: Pending) -> Visit {
    Visit { id: p.id@, depth: p.depth as int, parent: parent_of(p.parent) }
}

spec fn pending_texts(v: Seq<Pending>, from: int) -> Seq<Visit> {
    Seq::new((v.len() - from) as nat, |i: int| pending_text(v[from + i]))
}

/// What a walk gathered.
#[derive(Debug)]
pub struct Traversal {
    pub entries: Vec<GraphEntry>,
    pub edge_count: usize,
}

/// Follows the edges of one node.
fn follow(
    edges: Vec<Edge>,
    depth: usize,
    parent: Option<usize>,
    max_nodes: usize,
    queue: &mut Vec<Pending>,
    head: usize,
    gathered: &mut Traversal,
    visited: &mut Vec<String>,
    truncated: &mut bool,
    Ghost(from): Ghost<Visit>,
    Ghost(before): Ghost<Walk>,
)
    requires
        depth < usize::MAX,
        head <= old(queue).len(),
        from.depth == depth,
        from.parent == parent_of(parent),
        before.queue == pending_texts(old(queue)@, head as int),
        before.entries == entry_texts(old(gathered).entries@),
        before.visited == text::texts(old(visited)@),
        before.edges == old(gathered).edge_count,
        before.truncated == *old(truncated),
    ensures
        ({
            let after = meet_upto(
                before,
                from,
                edge_texts(edges@),
                max_nodes as int,
                edges@.len() as int,
            );
            &&& head <= final(queue).len()
            &&& after.queue == pending_texts(final(queue)@, head as int)
            &&& after.entries == entry_texts(final(gathered).entries@)
            &&& after.visited == text::texts(final(visited)@)
            &&& after.edges == final(gathered).edge_count
            &&& after.truncated == *final(truncated)
        }),
        final(queue).len() - old(queue).len() == final(visited).len() - old(visited).len(),
        old(visited).len() <= final(visited).len(),
        final(visited).len() <= max_nodes || final(visited).len() == old(visited).len(),
        forall|i: int|
            old(queue).len() <= i < final(queue).len() ==> (#[trigger] final(queue)@[i]).depth
                == depth + 1,
        forall|i: int| 0 <= i < old(queue).len() ==> final(queue)@[i] == old(queue)@[i],
{
    let ghost all = edge_texts(edges@);
    let ghost queue0 = queue@;
    let ghost visited0 = visited@;
    let mut edges = edges;
    let n = edges.len();
    let mut i: usize = 0;
    while i < n
        invariant
            i <= n,
            n == all.len(),
            edges.len() == n - i,
            forall|k: int| 0 <= k < n - i ==> all[i + k] == (#[trigger] edges@[k])@,
            depth < usize::MAX,
            from.depth == depth,
            from.parent == parent_of(parent),
            ({
                let w = meet_upto(before, from, all, max_nodes as int, i as int);
                &&& head <= queue0.len() <= queue.len()
                &&& w.queue == pending_texts(queue@, head as int)
                &&& w.entries == entry_texts(gathered.entries@)
                &&& w.visited == text::texts(visited@)
                &&& w.edges == gathered.edge_count
                &&& w.truncated == *truncated
            }),
            queue.len() - queue0.len() == visited.len() - visited0.len(),
            visited0.len() <= visited.len(),
            visited.len() <= max_nodes || visited.len() == visited0.len(),
            forall|k: int|
                queue0.len() <= k < queue.len() ==> (#[trigger] queue@[k]).depth == depth + 1,
            forall|k: int| 0 <= k < queue0.len() ==> queue@[k] == queue0[k],
        decreases n - i,
    {
        let edge = edges.remove(0);
        let ghost w = meet_upto(before, from, all, max_nodes as int, i as int);
        assert(all[i as int] == edge@);
        assert(text::texts(visited@).len() == visited.len());
        gathered.edge_count = gathered.edge_count.saturating_add(1);
        let seen = listed(visited, &edge.node.id);
        if seen || visited.len() < max_nodes {
            if !seen {
                let ghost v0 = visited@;
                let ghost q0 = queue@;
                visited.push(edge.node.id.clone());
                proof {
                    text::lemma_texts_push(v0, edge.node.id);
                }
                let next = Pending {
                    id: edge.node.id.clone(),
                    depth: depth + 1,
                    parent: Some(gathered.entries.len()),
                };
                queue.push(next);
                proof {
                    assert(entry_texts(gathered.entries@).len() == gathered.entries.len());
                    assert(pending_texts(queue@, head as int) =~= pending_texts(
                        q0,
                        head as int,
                    ).push(pending_text(next)));
                }
            }
            let entry = GraphEntry {
                parent_index: parent,
                depth: depth + 1,
                relationship_type: edge.relationship_type,
                node: edge.node,
                already_seen: seen,
            };
            let ghost e0 = gathered.entries@;
            gathered.entries.push(entry);
            assert(entry_texts(gathered.entries@) =~= entry_texts(e0).push(entry@));
        } else {
            *truncated = true;
        }
        i += 1;
    }
}

/// Walks from a root along the edges of a course, breadth first: at most `max_depth`
/// steps, meeting at most `max_nodes` nodes with those `visited` before.
pub fn traverse(
    conn: &rusqlite::Connection,
    root_id: &str,
    course: Course,
    max_depth: usize,
    max_nodes: usize,
    visited: &mut Vec<String>,
    traversal_truncated: &mut bool,
) -> (r: Result<Traversal, MarrowError>)
    ensures
        match r {
            Ok(t) => exists|finish: Walk|
                {
                    &&& #[trigger] could_walk(
                        *conn,
                        course,
                        max_depth as int,
                        max_nodes as int,
                        start_walk(
                            root_id@,
                            text::texts(old(visited)@),
                            *old(traversal_truncated),
                        ),
                        finish,
                    )
                    &&& entry_texts(t.entries@) == finish.entries
                    &&& t.edge_count == finish.edges
                    &&& text::texts(final(visited)@) == finish.visited
                    &&& *final(traversal_truncated) == finish.truncated
                },
            Err(e) => e matches MarrowError::Store(why) && could_break_off(
                *conn,
                course,
                max_depth as int,
                max_nodes as int,
                start_walk(root_id@, text::texts(old(visited)@), *old(traversal_truncated)),
                why,
            ),
        },
{
    let mut gathered = Traversal { entries: Vec::new(), edge_count: 0 };
    let mut queue: Vec<Pending> = Vec::new();
    queue.push(Pending { id: root_id.to_owned(), depth: 0, parent: None });
    let mut head: usize = 0;
    let ghost start = start_walk(root_id@, text::texts(visited@), *traversal_truncated);
    let ghost mut trace: Seq<Walk> = seq![start];
    let ghost bound = if visited.len() < max_nodes {
        max_nodes as int
    } else {
        visited.len() as int
    };
    assert(pending_texts(queue@, 0) =~= start.queue);
    assert(entry_texts(gathered.entries@) =~= start.entries);
    while head < queue.len()
        invariant
            head <= queue.len(),
            is_trace(*conn, course, max_depth as int, max_nodes as int, trace),
            trace[0] == start,
            start == start_walk(
                root_id@,
                text::texts(old(visited)@),
                *old(traversal_truncated),
            ),
            ({
                let w = trace.last();
                &&& w.queue == pending_texts(queue@, head as int)
                &&& w.entries == entry_texts(gathered.entries@)
                &&& w.visited == text::texts(visited@)
                &&& w.edges == gathered.edge_count
                &&& w.truncated == *traversal_truncated
            }),
            visited.len() <= bound,
            max_nodes <= bound,
            forall|i: int| 0 <= i < queue.len() ==> (#[trigger] queue@[i]).depth <= max_depth,
        decreases (bound - visited.len()) + (queue.len() - head),
    {
        let ghost before = trace.last();
        let ghost from = before.queue[0];
        let depth = queue[head].depth;
        let parent = queue[head].parent;
        let id = queue[head].id.clone();
        assert(from == pending_text(queue@[head as int]));
        head += 1;
        assert(pending_texts(queue@, head as int) =~= before.queue.drop_first());
        if depth >= max_depth {
            proof {
                let next = popped(before);
                assert(steps(*conn, course, max_depth as int, max_nodes as int, before, next));
                trace = trace.push(next);
            }
        } else {
            let edges = match fetch(conn, &id, course) {
                Ok(v) => v,
                Err(e) => {
                    assert(is_trace(*conn, course, max_depth as int, max_nodes as int, trace));
                    return Err(e);
                },
            };
            let ghost found = edge_texts(edges@);
            let ghost queue0 = queue@;
            follow(
                edges,
                depth,
                parent,
                max_nodes,
                &mut queue,
                head,
                &mut gathered,
                visited,
                traversal_truncated,
                Ghost(from),
                Ghost(popped(before)),
            );
            proof {
                let next = meet_upto(
                    popped(before),
                    from,
                    found,
                    max_nodes as int,
                    found.len() as int,
                );
                assert(could_fetch(*conn, course, from.id, found));
                assert(steps(*conn, course, max_depth as int, max_nodes as int, before, next));
                trace = trace.push(next);
                assert forall|i: int| 0 <= i < queue.len() implies (#[trigger] queue@[i]).depth
                    <= max_depth by {
                    if i < queue0.len() {
                        assert(queue@[i] == queue0[i]);
                    }
                }
            }
        }
    }
    assert(pending_texts(queue@, head as int) =~= Seq::<Visit>::empty());
    assert(could_walk(
        *conn,
        course,
        max_depth as int,
        max_nodes as int,
        start,
        trace.last(),
    ));
    Ok(gathered)
}

/// Walks from a root along the edges of one direction, breadth first: at most
/// `max_depth` steps, meeting at most `max_nodes` nodes with those `visited` before.
pub fn traverse_dependency_direction(
    conn: &rusqlite::Connection,
    root_id: &str,
    direction: DependencyDirection,
    max_depth: usize,
    max_nodes: usize,
    visited: &mut Vec<String>,
    traversal_truncated: &mut bool,
) -> (r: Result<Traversal, MarrowError>)
    ensures
        match r {
            Ok(t) => exists|finish: Walk|
                {
                    &&& #[trigger] could_walk(
                        *conn,
                        Course::Towards(direction),
                        max_depth as int,
                        max_nodes as int,
                        start_walk(
                            root_id@,
                            text::texts(old(visited)@),
                            *old(traversal_truncated),
                        ),
                        finish,
                    )
                    &&& entry_texts(t.entries@) == finish.entries
                    &&& t.edge_count == finish.edges
                    &&& text::texts(final(visited)@) == finish.visited
                    &&& *final(traversal_truncated) == finish.truncated
                },
            Err(e) => e matches MarrowError::Store(why) && could_break_off(
                *conn,
                Course::Towards(direction),
                max_depth as int,
                max_nodes as int,
                start_walk(root_id@, text::texts(old(visited)@), *old(traversal_truncated)),
                why,
            ),
        },
{
    traverse(
        conn,
        root_id,
        Course::Towards(direction),
        max_depth,
        max_nodes,
        visited,
        traversal_truncated,
    )
}

} // verus!
