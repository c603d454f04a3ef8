//! A symbol's context: its source, what it depends on and what depends on it.
use crate::condense;
use crate::condense::condense;
use crate::files;
use crate::files::{
    baseline_token_source, build_bounded_proof_snapshot, concat_full_original_text_sorted,
    file_tokens_metadata_estimate, measure_files, original_mode_label, SourceFile,
};
use crate::model::{
    CapsuleOriginalMode, CapsuleProvenance, CapsuleResult, ContextCapsule, EdgeDirection,
    NeighborInfo, NodeBrief, NodeInfo, PreciseTokenMeasurement,
};
use crate::order;
use crate::order::insert_ascending;
use crate::scan;
use crate::scan::{first_written_line, words_of};
use crate::settings::{Settings, MAX_INBOUND_CALLERS};
use crate::store;
use crate::store::{
    bind_one, bind_text_and_number, bind_three, keep_text_rows, read_first_text, read_int,
    read_text, select, Answer, MarrowError,
};
use crate::symbols;
use crate::symbols::{resolve_symbol_or_disambiguate, SymbolResolution};
use crate::text;
use crate::text::{byte_len, count_text, join, join_first};
use vstd::prelude::*;
use vstd::string::*;

verus! {

pub const OUTBOUND_SQL: &'static str =
    "SELECT n.id, n.symbol_name, n.symbol_type, n.file_path, n.language, n.raw_text, e.relationship_type FROM edges e JOIN nodes n ON e.source_id = ?1 AND n.id = e.target_id WHERE n.id != ?1 ORDER BY n.symbol_name, n.file_path LIMIT ?2";

pub const INBOUND_SQL: &'static str =
    "SELECT n.id, n.symbol_name, n.symbol_type, n.file_path, n.language, n.raw_text, e.relationship_type FROM edges e JOIN nodes n ON e.target_id = ?1 AND n.id = e.source_id WHERE n.id != ?1 ORDER BY n.symbol_name, n.file_path LIMIT ?2";

pub const ROOT_SQL: &'static str = "SELECT root_path FROM repositories WHERE id = ?1";

pub const OBSERVATIONS_SQL: &'static str =
    "SELECT observation_text, is_stale, timestamp FROM observations WHERE repo_id = ?1 AND symbol_name = ?2 AND filepath = ?3 ORDER BY timestamp DESC";

// ── Views ────────────────────────────────────────────────────────────────────

impl View for NodeInfo {
    type V = symbols::NodeText;

    open spec fn view(&self) -> symbols::NodeText {
        symbols::NodeText {
            id: self.id@,
            symbol_name: self.symbol_name@,
            symbol_type: self.symbol_type@,
            file_path: self.file_path@,
            language: self.language@,
            raw_text: self.text@,
        }
    }
}

/// A neighbor without its representation.
pub struct NeighborText {
    pub node: symbols::NodeText,
    pub relationship: Seq<char>,
    pub direction: EdgeDirection,
}

impl View for NeighborInfo {
    type V = NeighborText;

    open spec fn view(&self) -> NeighborText {
        NeighborText {
            node: self.node@,
            relationship: self.relationship@,
            direction: self.direction,
        }
    }
}

/// A capsule without its representation.
pub struct CapsuleText {
    pub pivot: symbols::NodeText,
    pub neighbors: Seq<NeighborText>,
}

/// The neighbors of a list.
pub open spec fn neighbor_texts(v: Seq<NeighborInfo>) -> Seq<NeighborText> {
    Seq::new(v.len(), |i: int| v[i]@)
}

impl View for ContextCapsule {
    type V = CapsuleText;

    open spec fn view(&self) -> CapsuleText {
        CapsuleText { pivot: self.pivot@, neighbors: neighbor_texts(self.neighbors@) }
    }
}

// ── Neighbors ────────────────────────────────────────────────────────────────

/// The neighbor that a row describes, with its source condensed.
pub open spec fn neighbor_from(row: Seq<Seq<char>>, direction: EdgeDirection) -> NeighborText {
    NeighborText {
        node: symbols::NodeText {
            raw_text: condense::condensed(row[5], row[4]),
            ..symbols::node_from(row, 0)
        },
        relationship: row[6],
        direction,
    }
}

/// The neighbors that rows describe.
pub open spec fn neighbors_from(rows: Seq<Seq<Seq<char>>>, direction: EdgeDirection) -> Seq<
    NeighborText,
> {
    Seq::new(rows.len(), |i: int| neighbor_from(rows[i], direction))
}

/// The statement that reads a symbol's neighbors in a direction.
pub open spec fn neighbor_sql(direction: EdgeDirection) -> Seq<char> {
    match direction {
        EdgeDirection::Outbound => OUTBOUND_SQL@,
        EdgeDirection::Inbound => INBOUND_SQL@,
    }
}

/// Whether a database could give a symbol these neighbors in one direction.
pub open spec fn could_neighbor(
    db: rusqlite::Connection,
    id: Seq<char>,
    direction: EdgeDirection,
    limit: usize,
    neighbors: Seq<NeighborText>,
) -> bool {
    exists|answer: Seq<Result<Vec<store::Cell>, rusqlite::Error>>|
        {
            &&& #[trigger] store::could_answer(
                db,
                neighbor_sql(direction),
                store::text_and_number(id, limit as i64 as int),
                answer,
            )
            &&& neighbors == neighbors_from(store::text_rows(answer, 7), direction)
        }
}

/// Whether a database could refuse to read a symbol's neighbors for this reason.
pub open spec fn could_not_neighbor(
    db: rusqlite::Connection,
    id: Seq<char>,
    direction: EdgeDirection,
    limit: usize,
    why: rusqlite::Error,
) -> bool {
    store::could_refuse(
        db,
        neighbor_sql(direction),
        store::text_and_number(id, limit as i64 as int),
        why,
    )
}

/// Reads the neighbors of a symbol in one direction, at most `limit`.
pub fn fetch_neighbors(
    conn: &rusqlite::Connection,
    id: &str,
    direction: EdgeDirection,
    limit: usize,
) -> (r: Result<Vec<NeighborInfo>, MarrowError>)
    ensures
        match r {
            Ok(v) => could_neighbor(*conn, id@, direction, limit, neighbor_texts(v@)),
            Err(e) => e matches MarrowError::Store(why) && could_not_neighbor(
                *conn,
                id@,
                direction,
                limit,
                why,
            ),
        },
{
    let params = bind_text_and_number(id, limit as i64);
    let sql: &str = match direction {
        EdgeDirection::Outbound => OUTBOUND_SQL,
        EdgeDirection::Inbound => INBOUND_SQL,
    };
    match select(conn, sql, params) {
        Ok(answer) => {
            let rows = keep_text_rows(&answer, 7);
            let neighbors = read_neighbors(&rows, direction);
            assert(store::could_answer(
                *conn,
                neighbor_sql(direction),
                store::text_and_number(id@, limit as i64 as int),
                answer@,
            ));
            assert(neighbor_texts(neighbors@) == neighbors_from(
                store::text_rows(answer@, 7),
                direction,
            ));
            Ok(neighbors)
        },
        Err(e) => Err(MarrowError::Store(e)),
    }
}

/// The neighbors that rows describe.
pub fn read_neighbors(rows: &Vec<Vec<String>>, direction: EdgeDirection) -> (r: Vec<NeighborInfo>)
    requires
        forall|i: int| 0 <= i < rows.len() ==> #[trigger] rows@[i].len() == 7,
    ensures
        neighbor_texts(r@) == neighbors_from(store::table(rows@), direction),
{
    let ghost all = store::table(rows@);
    let mut out: Vec<NeighborInfo> = Vec::new();
    let mut i: usize = 0;
    while i < rows.len()
        invariant
            i <= rows.len(),
            out.len() == i,
            all == store::table(rows@),
            forall|k: int| 0 <= k < rows.len() ==> #[trigger] rows@[k].len() == 7,
            forall|k: int| 0 <= k < i ==> #[trigger] out@[k]@ == neighbor_from(all[k], direction),
        decreases rows.len() - i,
    {
        let row = &rows[i];
        assert(rows@[i as int].len() == 7);
        assert(all[i as int] == text::texts(row@));
        let node = NodeInfo {
            id: row[0].clone(),
            symbol_name: row[1].clone(),
            symbol_type: row[2].clone(),
            file_path: row[3].clone(),
            language: row[4].clone(),
            text: condense(&row[5], &row[4]),
        };
        let neighbor = NeighborInfo { node, relationship: row[6].clone(), direction };
        assert(neighbor@ == neighbor_from(all[i as int], direction));
        out.push(neighbor);
        i += 1;
    }
    assert(neighbor_texts(out@) =~= neighbors_from(all, direction));
    out
}

/// Whether a database could give a pivot this capsule: first what the pivot depends
/// on, then what depends on it.
pub open spec fn could_build(
    db: rusqlite::Connection,
    pivot: symbols::NodeText,
    limits: Settings,
    capsule: CapsuleText,
) -> bool {
    &&& capsule.pivot == pivot
    &&& exists|outbound: Seq<NeighborText>, inbound: Seq<NeighborText>|
        {
            &&& #[trigger] could_neighbor(
                db,
                pivot.id,
                EdgeDirection::Outbound,
                limits.max_outbound,
                outbound,
            )
            &&& #[trigger] could_neighbor(
                db,
                pivot.id,
                EdgeDirection::Inbound,
                limits.max_inbound_load,
                inbound,
            )
            &&& capsule.neighbors == outbound + inbound
        }
}

/// Whether a database could refuse to give a pivot its capsule for this reason.
pub open spec fn could_not_build(
    db: rusqlite::Connection,
    pivot: symbols::NodeText,
    limits: Settings,
    why: rusqlite::Error,
) -> bool {
    ||| could_not_neighbor(db, pivot.id, EdgeDirection::Outbound, limits.max_outbound, why)
    ||| could_not_neighbor(db, pivot.id, EdgeDirection::Inbound, limits.max_inbound_load, why)
}

/// The node as it stands in a capsule, with its full source.
pub fn pivot_node(node: NodeBrief) -> (r: NodeInfo)
    ensures
        r@ == node@,
{
    NodeInfo {
        id: node.id,
        symbol_name: node.symbol_name,
        symbol_type: node.symbol_type,
        file_path: node.file_path,
        language: node.language,
        text: node.raw_text,
    }
}

/// Collects the capsule of a node.
pub fn build_context_capsule_from_resolved(
    conn: &rusqlite::Connection,
    node: NodeBrief,
    limits: &Settings,
) -> (r: Result<ContextCapsule, MarrowError>)
    ensures
        match r {
            Ok(capsule) => could_build(*conn, node@, *limits, capsule@),
            Err(e) => e matches MarrowError::Store(why) && could_not_build(
                *conn,
                node@,
                *limits,
                why,
            ),
        },
{
    let ghost view = node@;
    let pivot = pivot_node(node);
    let mut neighbors = match fetch_neighbors(
        conn,
        &pivot.id,
        EdgeDirection::Outbound,
        limits.max_outbound,
    ) {
        Ok(v) => v,
        Err(e) => {
            return Err(e);
        },
    };
    let mut inbound = match fetch_neighbors(
        conn,
        &pivot.id,
        EdgeDirection::Inbound,
        limits.max_inbound_load,
    ) {
        Ok(v) => v,
        Err(e) => {
            return Err(e);
        },
    };
    let ghost outs = neighbor_texts(neighbors@);
    let ghost ins = neighbor_texts(inbound@);
    neighbors.append(&mut inbound);
    proof {
        assert(neighbor_texts(neighbors@) =~= outs + ins);
        assert(could_neighbor(*conn, view.id, EdgeDirection::Outbound, limits.max_outbound, outs));
        assert(could_neighbor(
            *conn,
            view.id,
            EdgeDirection::Inbound,
            limits.max_inbound_load,
            ins,
        ));
    }
    Ok(ContextCapsule { pivot, neighbors })
}

// ── Touched files ────────────────────────────────────────────────────────────

/// Whether a path is one of the files that hold a capsule's symbols.
pub open spec fn touches(capsule: CapsuleText, path: Seq<char>) -> bool {
    path == capsule.pivot.file_path || exists|i: int|
        0 <= i < capsule.neighbors.len() && (#[trigger] capsule.neighbors[i]).node.file_path
            == path
}

/// Whether a list names the touched files: in ascending order, each once.
pub open spec fn is_touched(paths: Seq<Seq<char>>, capsule: CapsuleText) -> bool {
    &&& order::ascending(paths)
    &&& forall|t: Seq<char>| #[trigger] paths.contains(t) <==> touches(capsule, t)
}

/// There is exactly one list of a capsule's touched files.
pub proof fn law_touched_paths_are_determined(
    a: Seq<Seq<char>>,
    b: Seq<Seq<char>>,
    capsule: CapsuleText,
)
    requires
        is_touched(a, capsule),
        is_touched(b, capsule),
    ensures
        a == b,
        a.len() > 0,
{
    order::lemma_ascending_unique(a, b);
    assert(touches(capsule, capsule.pivot.file_path));
    assert(a.contains(capsule.pivot.file_path));
}

/// The touched files are the pivot's and every neighbor's, and no other.
pub proof fn law_touched_files_hold_the_symbols(paths: Seq<Seq<char>>, capsule: CapsuleText)
    requires
        is_touched(paths, capsule),
    ensures
        paths.no_duplicates(),
        paths.contains(capsule.pivot.file_path),
        forall|i: int|
            0 <= i < capsule.neighbors.len() ==> paths.contains(
                (#[trigger] capsule.neighbors[i]).node.file_path,
            ),
        forall|k: int|
            0 <= k < paths.len() ==> #[trigger] paths[k] == capsule.pivot.file_path || exists|i: int|
                0 <= i < capsule.neighbors.len() && (
                #[trigger] capsule.neighbors[i]).node.file_path == paths[k],
{
    assert(touches(capsule, capsule.pivot.file_path));
    assert forall|i: int| 0 <= i < capsule.neighbors.len() implies paths.contains(
        (#[trigger] capsule.neighbors[i]).node.file_path,
    ) by {
        assert(touches(capsule, capsule.neighbors[i].node.file_path));
    }
    assert forall|k: int| 0 <= k < paths.len() implies #[trigger] paths[k]
        == capsule.pivot.file_path || exists|i: int|
        0 <= i < capsule.neighbors.len() && (#[trigger] capsule.neighbors[i]).node.file_path
            == paths[k] by {
        assert(paths.contains(paths[k]));
        assert(touches(capsule, paths[k]));
    }
    assert forall|i: int, j: int| 0 <= i < j < paths.len() implies paths[i] != paths[j] by {
        assert(order::before(paths[i], paths[j]));
        order::lemma_before_irreflexive(paths[i]);
    }
}

/// The files that hold a capsule's symbols.
pub fn touched_paths_for_capsule(capsule: &ContextCapsule) -> (r: Vec<String>)
    ensures
        is_touched(text::texts(r@), capsule@),
{
    let ghost view = capsule@;
    let mut out: Vec<String> = Vec::new();
    insert_ascending(&mut out, &capsule.pivot.file_path);
    let mut i: usize = 0;
    while i < capsule.neighbors.len()
        invariant
            i <= capsule.neighbors.len(),
            view == capsule@,
            order::ascending(text::texts(out@)),
            forall|t: Seq<char>| #[trigger]
                text::texts(out@).contains(t) <==> (t == view.pivot.file_path || exists|k: int|
                    0 <= k < i && (#[trigger] view.neighbors[k]).node.file_path == t),
        decreases capsule.neighbors.len() - i,
    {
        let path = &capsule.neighbors[i].node.file_path;
        let ghost before = text::texts(out@);
        insert_ascending(&mut out, path);
        proof {
            let after = text::texts(out@);
            assert(view.neighbors[i as int].node.file_path == path@);
            assert forall|t: Seq<char>| #[trigger] after.contains(t) <==> (t
                == view.pivot.file_path || exists|k: int|
                0 <= k < i + 1 && (#[trigger] view.neighbors[k]).node.file_path == t) by {
                assert(after.contains(t) <==> before.contains(t) || t == path@);
                if before.contains(t) && t != view.pivot.file_path {
                    let k = choose|k: int|
                        0 <= k < i && (#[trigger] view.neighbors[k]).node.file_path == t;
                    assert(view.neighbors[k].node.file_path == t);
                }
            }
        }
        i += 1;
    }
    out
}

// ── The capsule's text ───────────────────────────────────────────────────────

/// The three lines that name a pivot, behind `title`.
pub open spec fn pivot_heading(title: Seq<char>, pivot: symbols::NodeText) -> Seq<char> {
    title + " — pivot: "@ + pivot.symbol_name + " ("@ + pivot.language + ")\nFile : "@
        + pivot.file_path + "\nType : "@ + pivot.symbol_type + "\n"@
}

/// The three lines that name a pivot, behind `title`.
pub fn format_pivot_heading(title: &str, pivot: &NodeInfo) -> (r: String)
    ensures
        r@ == pivot_heading(title@, pivot@),
{
    title.to_owned().concat(" — pivot: ").concat(&pivot.symbol_name).concat(" (").concat(
        &pivot.language,
    ).concat(")\nFile : ").concat(&pivot.file_path).concat("\nType : ").concat(
        &pivot.symbol_type,
    ).concat("\n")
}

/// The line above a full source.
pub const FULL_SOURCE: &'static str =
    "\n── FULL SOURCE ──────────────────────────────────────────────\n";

/// A pivot's source: in full, or condensed where it takes more than `max_bytes`.
pub open spec fn source_section(pivot: symbols::NodeText, max_bytes: usize) -> Seq<char> {
    if text::bytes(pivot.raw_text) > max_bytes {
        "\n── CONDENSED SOURCE (pivot exceeded "@ + text::decimal(max_bytes as nat)
            + "B cap) ─────────────\n"@ + condense::condensed(
            pivot.raw_text,
            pivot.language,
        ) + "\n[Note: full source ("@ + text::decimal(text::bytes(pivot.raw_text))
            + "B) condensed to save tokens. Use read_node or native file read for the complete body. Set MARROW_CAPSULE_MAX_PIVOT_BYTES to adjust threshold.]\n"@
    } else {
        FULL_SOURCE@ + pivot.raw_text + "\n"@
    }
}

fn format_source_section(pivot: &NodeInfo, max_bytes: usize) -> (r: String)
    ensures
        r@ == source_section(pivot@, max_bytes),
{
    let len = byte_len(&pivot.text);
    if len > max_bytes {
        "\n── CONDENSED SOURCE (pivot exceeded ".to_owned().concat(
            &count_text(max_bytes),
        ).concat("B cap) ─────────────\n").concat(
            &condense(&pivot.text, &pivot.language),
        ).concat("\n[Note: full source (").concat(&count_text(len)).concat(
            "B) condensed to save tokens. Use read_node or native file read for the complete body. Set MARROW_CAPSULE_MAX_PIVOT_BYTES to adjust threshold.]\n",
        )
    } else {
        FULL_SOURCE.to_owned().concat(&pivot.text).concat("\n")
    }
}

/// How many of the first `n` neighbors lie in a direction.
pub open spec fn facing(all: Seq<NeighborText>, direction: EdgeDirection, n: int) -> nat
    decreases n,
{
    if n <= 0 {
        0
    } else {
        facing(all, direction, n - 1) + if all[n - 1].direction == direction {
            1nat
        } else {
            0nat
        }
    }
}

fn count_facing(all: &Vec<NeighborInfo>, direction: EdgeDirection) -> (r: usize)
    ensures
        r == facing(neighbor_texts(all@), direction, all@.len() as int),
{
    let ghost views = neighbor_texts(all@);
    let mut count: usize = 0;
    let mut i: usize = 0;
    while i < all.len()
        invariant
            i <= all.len(),
            views == neighbor_texts(all@),
            count <= i,
            count == facing(views, direction, i as int),
        decreases all.len() - i,
    {
        assert(views[i as int].direction == all@[i as int].direction);
        if all[i].direction == direction {
            count += 1;
        }
        i += 1;
    }
    count
}

/// The line that names a neighbor.
pub open spec fn neighbor_line(n: NeighborText) -> Seq<char> {
    "  ["@ + n.relationship + "]  "@ + n.node.symbol_name + "  ("@ + n.node.language + ")  "@
        + n.node.file_path + "\n"@
}

/// The line that names a neighbor.
pub fn format_neighbor_line(n: &NeighborInfo) -> (r: String)
    ensures
        r@ == neighbor_line(n@),
{
    "  [".to_owned().concat(&n.relationship).concat("]  ").concat(&n.node.symbol_name).concat(
        "  (",
    ).concat(&n.node.language).concat(")  ").concat(&n.node.file_path).concat("\n")
}

/// A neighbor's signature: the first line of its text that is not blank, else its name.
pub open spec fn signature(n: NeighborText) -> Seq<char> {
    match scan::first_written(scan::lines(n.node.raw_text), 0) {
        Some(line) => line,
        None => n.node.symbol_name,
    }
}

/// The lines of something that the pivot depends on.
pub open spec fn outbound_entry(n: NeighborText) -> Seq<char> {
    "\n"@ + neighbor_line(n) + "  "@ + signature(n) + "\n"@
}

/// `start` followed by what the pivot depends on, among the first `n` neighbors.
pub open spec fn outbound_listed(start: Seq<char>, all: Seq<NeighborText>, n: int) -> Seq<char>
    decreases n,
{
    if n <= 0 {
        start
    } else if all[n - 1].direction == EdgeDirection::Outbound {
        outbound_listed(start, all, n - 1) + outbound_entry(all[n - 1])
    } else {
        outbound_listed(start, all, n - 1)
    }
}

/// `start` followed by the first ten of what depends on the pivot, among the first
/// `n` neighbors.
pub open spec fn inbound_listed(start: Seq<char>, all: Seq<NeighborText>, n: int) -> Seq<char>
    decreases n,
{
    if n <= 0 {
        start
    } else if all[n - 1].direction == EdgeDirection::Inbound && facing(
        all,
        EdgeDirection::Inbound,
        n - 1,
    ) < MAX_INBOUND_CALLERS {
        inbound_listed(start, all, n - 1) + neighbor_line(all[n - 1])
    } else {
        inbound_listed(start, all, n - 1)
    }
}

pub const NO_NEIGHBORS: &'static str =
    "── NEIGHBORS ────────────────────────────────────────────────\n  (none — isolated symbol)\n";

pub const OUTBOUND_HEADING: &'static str =
    "\n── OUTBOUND DEPENDENCIES (signatures only) ────────────────────────\n";

pub const INBOUND_HEADING: &'static str =
    "\n── INBOUND CALLERS (who calls this) ─────────────────────────\n";

pub const EXPAND_HINT: &'static str =
    "\n[Expand a neighbor: run_pipeline(intent: \"read_node\", target: \"<symbol>\")]\n";

/// The text behind a capsule's source when it has neighbors.
pub open spec fn neighbor_sections(
    start: Seq<char>,
    all: Seq<NeighborText>,
    max_outbound: usize,
) -> Seq<char> {
    let n = all.len() as int;
    let outs = facing(all, EdgeDirection::Outbound, n);
    let ins = facing(all, EdgeDirection::Inbound, n);
    let with_outbound = if outs > 0 {
        outbound_listed(start + OUTBOUND_HEADING@, all, n)
    } else {
        start
    };
    let with_note = if outs >= max_outbound {
        with_outbound + "\n[Note: at most "@ + text::decimal(max_outbound as nat)
            + " outbound neighbors loaded; set MARROW_CAPSULE_MAX_OUTBOUND to raise.]\n"@
    } else {
        with_outbound
    };
    let with_inbound = if ins > 0 {
        inbound_listed(with_note + INBOUND_HEADING@, all, n)
    } else {
        with_note
    };
    let with_rest = if ins > MAX_INBOUND_CALLERS {
        with_inbound + "  [... and "@ + text::decimal((ins - MAX_INBOUND_CALLERS) as nat)
            + " more callers omitted for brevity]\n"@
    } else {
        with_inbound
    };
    if outs > 0 {
        with_rest + EXPAND_HINT@
    } else {
        with_rest
    }
}

/// A capsule as text: the pivot with its source, the signatures of what it depends
/// on, and the names of the first callers.
pub open spec fn capsule_text(capsule: CapsuleText, limits: Settings) -> Seq<char> {
    let start = pivot_heading("CONTEXT CAPSULE"@, capsule.pivot) + source_section(
        capsule.pivot,
        limits.max_pivot_bytes,
    );
    let n = capsule.neighbors.len() as int;
    if facing(capsule.neighbors, EdgeDirection::Outbound, n) == 0 && facing(
        capsule.neighbors,
        EdgeDirection::Inbound,
        n,
    ) == 0 {
        start + NO_NEIGHBORS@
    } else {
        neighbor_sections(start, capsule.neighbors, limits.max_outbound)
    }
}

fn append_outbound(out: &mut String, all: &Vec<NeighborInfo>)
    ensures
        final(out)@ == outbound_listed(old(out)@, neighbor_texts(all@), all@.len() as int),
{
    let ghost views = neighbor_texts(all@);
    let ghost start = out@;
    let mut i: usize = 0;
    while i < all.len()
        invariant
            i <= all.len(),
            views == neighbor_texts(all@),
            out@ == outbound_listed(start, views, i as int),
        decreases all.len() - i,
    {
        let n = &all[i];
        assert(views[i as int] == n@);
        if n.direction == EdgeDirection::Outbound {
            let sig = match first_written_line(&n.node.text) {
                Some(line) => line,
                None => n.node.symbol_name.clone(),
            };
            let entry = "\n".to_owned().concat(&format_neighbor_line(n)).concat("  ").concat(
                &sig,
            ).concat("\n");
            out.append(&entry);
        }
        i += 1;
    }
}

fn append_inbound(out: &mut String, all: &Vec<NeighborInfo>)
    ensures
        final(out)@ == inbound_listed(old(out)@, neighbor_texts(all@), all@.len() as int),
{
    let ghost views = neighbor_texts(all@);
    let ghost start = out@;
    let mut seen: usize = 0;
    let mut i: usize = 0;
    while i < all.len()
        invariant
            i <= all.len(),
            views == neighbor_texts(all@),
            seen <= i,
            seen == facing(views, EdgeDirection::Inbound, i as int),
            out@ == inbound_listed(start, views, i as int),
        decreases all.len() - i,
    {
        let n = &all[i];
        assert(views[i as int] == n@);
        if n.direction == EdgeDirection::Inbound {
            if seen < MAX_INBOUND_CALLERS {
                out.append(&format_neighbor_line(n));
            }
            seen += 1;
        }
        i += 1;
    }
}

/// A capsule as text.
pub fn format_capsule(capsule: &ContextCapsule, limits: &Settings) -> (r: String)
    ensures
        r@ == capsule_text(capsule@, *limits),
{
    let mut out = format_pivot_heading("CONTEXT CAPSULE", &capsule.pivot);
    out.append(&format_source_section(&capsule.pivot, limits.max_pivot_bytes));
    let outs = count_facing(&capsule.neighbors, EdgeDirection::Outbound);
    let ins = count_facing(&capsule.neighbors, EdgeDirection::Inbound);
    if outs == 0 && ins == 0 {
        out.append(NO_NEIGHBORS);
        return out;
    }
    if outs > 0 {
        out.append(OUTBOUND_HEADING);
        append_outbound(&mut out, &capsule.neighbors);
    }
    if outs >= limits.max_outbound {
        out.append("\n[Note: at most ");
        out.append(&count_text(limits.max_outbound));
        out.append(" outbound neighbors loaded; set MARROW_CAPSULE_MAX_OUTBOUND to raise.]\n");
    }
    if ins > 0 {
        out.append(INBOUND_HEADING);
        append_inbound(&mut out, &capsule.neighbors);
    }
    if ins > MAX_INBOUND_CALLERS {
        out.append("  [... and ");
        out.append(&count_text(ins - MAX_INBOUND_CALLERS));
        out.append(" more callers omitted for brevity]\n");
    }
    if outs > 0 {
        out.append(EXPAND_HINT);
    }
    out
}

// ── What the text shows ──────────────────────────────────────────────────────

proof fn lemma_outbound_listed(
    start: Seq<char>,
    all: Seq<NeighborText>,
    n: int,
    faces: spec_fn(NeighborText) -> bool,
    entry: spec_fn(NeighborText) -> Seq<char>,
)
    requires
        0 <= n <= all.len(),
        forall|x: NeighborText| #[trigger] faces(x) == (x.direction == EdgeDirection::Outbound),
        forall|x: NeighborText| #[trigger] entry(x) == outbound_entry(x),
    ensures
        facing(all, EdgeDirection::Outbound, n) == all.take(n).filter(faces).len(),
        outbound_listed(start, all, n) == start + all.take(n).filter(faces).flat_map(entry),
    decreases n,
{
    reveal(Seq::filter);
    if n > 0 {
        lemma_outbound_listed(start, all, n - 1, faces, entry);
        let x = all[n - 1];
        let before = all.take(n - 1);
        assert(all.take(n) =~= before.push(x));
        assert(before.push(x).drop_last() =~= before);
        if faces(x) {
            before.filter(faces).lemma_flat_map_push(entry, x);
        }
        assert(outbound_listed(start, all, n) =~= start + all.take(n).filter(faces).flat_map(
            entry,
        ));
    } else {
        assert(all.take(0) =~= Seq::empty());
        assert(all.take(0).filter(faces).flat_map(entry) =~= Seq::empty());
        assert(outbound_listed(start, all, n) =~= start + all.take(n).filter(faces).flat_map(
            entry,
        ));
    }
}

proof fn lemma_inbound_listed(
    start: Seq<char>,
    all: Seq<NeighborText>,
    n: int,
    faces: spec_fn(NeighborText) -> bool,
    entry: spec_fn(NeighborText) -> Seq<char>,
)
    requires
        0 <= n <= all.len(),
        forall|x: NeighborText| #[trigger] faces(x) == (x.direction == EdgeDirection::Inbound),
        forall|x: NeighborText| #[trigger] entry(x) == neighbor_line(x),
    ensures
        facing(all, EdgeDirection::Inbound, n) == all.take(n).filter(faces).len(),
        inbound_listed(start, all, n) == start + first_ten(
            all.take(n).filter(faces),
        ).flat_map(entry),
    decreases n,
{
    reveal(Seq::filter);
    if n > 0 {
        lemma_inbound_listed(start, all, n - 1, faces, entry);
        let x = all[n - 1];
        let before = all.take(n - 1);
        let found = before.filter(faces);
        assert(all.take(n) =~= before.push(x));
        assert(before.push(x).drop_last() =~= before);
        if faces(x) {
            if found.len() < 10 {
                assert(first_ten(found) =~= found);
                assert(first_ten(found.push(x)) =~= found.push(x));
                found.lemma_flat_map_push(entry, x);
            } else {
                assert(first_ten(found.push(x)) =~= first_ten(found));
            }
        }
        assert(inbound_listed(start, all, n) =~= start + first_ten(
            all.take(n).filter(faces),
        ).flat_map(entry));
    } else {
        assert(all.take(0) =~= Seq::empty());
        assert(first_ten(all.take(0).filter(faces)).flat_map(entry) =~= Seq::empty());
        assert(inbound_listed(start, all, n) =~= start + first_ten(
            all.take(n).filter(faces),
        ).flat_map(entry));
    }
}

/// The first ten of a list, or all of a shorter one.
spec fn first_ten(v: Seq<NeighborText>) -> Seq<NeighborText> {
    v.take(
        if v.len() < 10 {
            v.len() as int
        } else {
            10
        },
    )
}

/// The text behind a capsule's source, part by part.
spec fn sections_in_parts(
    start: Seq<char>,
    outs: nat,
    ins: nat,
    max_outbound: usize,
    dependencies: Seq<char>,
    callers: Seq<char>,
) -> Seq<char> {
    start + (if outs > 0 {
        OUTBOUND_HEADING@ + dependencies
    } else {
        Seq::empty()
    }) + (if outs >= max_outbound {
        "\n[Note: at most "@ + text::decimal(max_outbound as nat)
            + " outbound neighbors loaded; set MARROW_CAPSULE_MAX_OUTBOUND to raise.]\n"@
    } else {
        Seq::empty()
    }) + (if ins > 0 {
        INBOUND_HEADING@ + callers
    } else {
        Seq::empty()
    }) + (if ins > 10 {
        "  [... and "@ + text::decimal((ins - 10) as nat) + " more callers omitted for brevity]\n"@
    } else {
        Seq::empty()
    }) + (if outs > 0 {
        EXPAND_HINT@
    } else {
        Seq::empty()
    })
}

proof fn lemma_sections(
    start: Seq<char>,
    all: Seq<NeighborText>,
    max_outbound: usize,
    dependencies: Seq<char>,
    callers: Seq<char>,
)
    requires
        forall|t: Seq<char>| #[trigger]
            outbound_listed(t, all, all.len() as int) == t + dependencies,
        forall|t: Seq<char>| #[trigger] inbound_listed(t, all, all.len() as int) == t + callers,
    ensures
        neighbor_sections(start, all, max_outbound) == sections_in_parts(
            start,
            facing(all, EdgeDirection::Outbound, all.len() as int),
            facing(all, EdgeDirection::Inbound, all.len() as int),
            max_outbound,
            dependencies,
            callers,
        ),
{
    let n = all.len() as int;
    let outs = facing(all, EdgeDirection::Outbound, n);
    let ins = facing(all, EdgeDirection::Inbound, n);
    let nothing = Seq::<char>::empty();
    let t1 = if outs > 0 {
        start + OUTBOUND_HEADING@ + dependencies
    } else {
        start
    };
    text::lemma_put_together(start, OUTBOUND_HEADING@, dependencies);
    let at_most = "\n[Note: at most "@ + text::decimal(max_outbound as nat);
    let raise = " outbound neighbors loaded; set MARROW_CAPSULE_MAX_OUTBOUND to raise.]\n"@;
    text::lemma_put_together(t1, at_most, raise);
    text::lemma_put_together(t1, "\n[Note: at most "@, text::decimal(max_outbound as nat));
    let t2 = if outs >= max_outbound {
        t1 + (at_most + raise)
    } else {
        t1
    };
    text::lemma_put_together(t2, INBOUND_HEADING@, callers);
    let t3 = if ins > 0 {
        t2 + INBOUND_HEADING@ + callers
    } else {
        t2
    };
    let and = "  [... and "@ + text::decimal((ins - 10) as nat);
    text::lemma_put_together(t3, and, " more callers omitted for brevity]\n"@);
    text::lemma_put_together(t3, "  [... and "@, text::decimal((ins - 10) as nat));
    let t4 = if ins > 10 {
        t3 + (and + " more callers omitted for brevity]\n"@)
    } else {
        t3
    };
    text::lemma_put_together(t4, nothing, nothing);
}

/// What a capsule says of its neighbors. Under the heading of the dependencies stands an
/// entry for every outbound neighbor, in their order: its line and its signature. Under
/// the heading of the callers stands the line of every inbound neighbor up to the tenth,
/// in their order, and how many more there are is said where there are more.
pub proof fn law_capsules_list_their_neighbors(capsule: CapsuleText, limits: Settings)
    requires
        capsule.neighbors.len() > 0,
    ensures
        ({
            let outs = capsule.neighbors.filter(
                |n: NeighborText| n.direction == EdgeDirection::Outbound,
            );
            let ins = capsule.neighbors.filter(
                |n: NeighborText| n.direction == EdgeDirection::Inbound,
            );
            let shown: int = if ins.len() < 10 {
                ins.len() as int
            } else {
                10
            };
            capsule_text(capsule, limits) == pivot_heading("CONTEXT CAPSULE"@, capsule.pivot)
                + source_section(capsule.pivot, limits.max_pivot_bytes) + (if outs.len() > 0 {
                "\n── OUTBOUND DEPENDENCIES (signatures only) ────────────────────────\n"@
                    + outs.flat_map(
                    |n: NeighborText|
                        "\n"@ + ("  ["@ + n.relationship + "]  "@ + n.node.symbol_name + "  ("@
                            + n.node.language + ")  "@ + n.node.file_path + "\n"@) + "  "@
                            + signature(n) + "\n"@,
                )
            } else {
                Seq::empty()
            }) + (if outs.len() >= limits.max_outbound {
                "\n[Note: at most "@ + text::decimal(limits.max_outbound as nat)
                    + " outbound neighbors loaded; set MARROW_CAPSULE_MAX_OUTBOUND to raise.]\n"@
            } else {
                Seq::empty()
            }) + (if ins.len() > 0 {
                "\n── INBOUND CALLERS (who calls this) ─────────────────────────\n"@ + ins.take(
                    shown,
                ).flat_map(
                    |n: NeighborText|
                        "  ["@ + n.relationship + "]  "@ + n.node.symbol_name + "  ("@
                            + n.node.language + ")  "@ + n.node.file_path + "\n"@,
                )
            } else {
                Seq::empty()
            }) + (if ins.len() > shown {
                "  [... and "@ + text::decimal((ins.len() - shown) as nat)
                    + " more callers omitted for brevity]\n"@
            } else {
                Seq::empty()
            }) + (if outs.len() > 0 {
                "\n[Expand a neighbor: run_pipeline(intent: \"read_node\", target: \"<symbol>\")]\n"@
            } else {
                Seq::empty()
            })
        }),
{
    let all = capsule.neighbors;
    let n = all.len() as int;
    let outwards = |n: NeighborText| n.direction == EdgeDirection::Outbound;
    let inwards = |n: NeighborText| n.direction == EdgeDirection::Inbound;
    let out_entry = |n: NeighborText|
        "\n"@ + ("  ["@ + n.relationship + "]  "@ + n.node.symbol_name + "  ("@ + n.node.language
            + ")  "@ + n.node.file_path + "\n"@) + "  "@ + signature(n) + "\n"@;
    let in_entry = |n: NeighborText|
        "  ["@ + n.relationship + "]  "@ + n.node.symbol_name + "  ("@ + n.node.language + ")  "@
            + n.node.file_path + "\n"@;
    let outs = all.filter(outwards);
    let ins = all.filter(inwards);
    let shown: int = if ins.len() < 10 {
        ins.len() as int
    } else {
        10
    };
    assert(all.take(n) =~= all);
    let t0 = pivot_heading("CONTEXT CAPSULE"@, capsule.pivot) + source_section(
        capsule.pivot,
        limits.max_pivot_bytes,
    );
    assert forall|t: Seq<char>| #[trigger] outbound_listed(t, all, n) == t + outs.flat_map(
        out_entry,
    ) by {
        lemma_outbound_listed(t, all, n, outwards, out_entry);
    }
    assert forall|t: Seq<char>| #[trigger] inbound_listed(t, all, n) == t + ins.take(
        shown,
    ).flat_map(in_entry) by {
        lemma_inbound_listed(t, all, n, inwards, in_entry);
    }
    lemma_outbound_listed(t0, all, n, outwards, out_entry);
    lemma_inbound_listed(t0, all, n, inwards, in_entry);
    lemma_some_direction(all, n);
    lemma_sections(
        t0,
        all,
        limits.max_outbound,
        outs.flat_map(out_entry),
        ins.take(shown).flat_map(in_entry),
    );
}

proof fn lemma_some_direction(all: Seq<NeighborText>, n: int)
    ensures
        n > 0 ==> facing(all, EdgeDirection::Outbound, n) + facing(
            all,
            EdgeDirection::Inbound,
            n,
        ) > 0,
    decreases n,
{
    if n > 1 {
        lemma_some_direction(all, n - 1);
    }
    if n > 0 {
        assert(all[n - 1].direction == EdgeDirection::Outbound || all[n - 1].direction
            == EdgeDirection::Inbound);
    }
}

/// `start` followed by the whole text of the first `n` neighbors.
pub open spec fn neighbors_in_full(start: Seq<char>, all: Seq<NeighborText>, n: int) -> Seq<char>
    decreases n,
{
    if n <= 0 {
        start
    } else {
        neighbors_in_full(start, all, n - 1) + ("\n── NEIGHBOR"@ + neighbor_line(all[n - 1])
            + all[n - 1].node.raw_text + "\n"@)
    }
}

/// A capsule with the text of every neighbor.
pub open spec fn capsule_in_full(capsule: CapsuleText) -> Seq<char> {
    let start = pivot_heading("CONTEXT CAPSULE"@, capsule.pivot) + FULL_SOURCE@
        + capsule.pivot.raw_text + "\n"@;
    if capsule.neighbors.len() == 0 {
        start + NO_NEIGHBORS@
    } else {
        neighbors_in_full(start, capsule.neighbors, capsule.neighbors.len() as int)
    }
}

/// A capsule with the text of every neighbor.
pub fn format_capsule_string(capsule: &ContextCapsule) -> (r: String)
    ensures
        r@ == capsule_in_full(capsule@),
{
    let ghost views = neighbor_texts(capsule.neighbors@);
    let mut out = format_pivot_heading("CONTEXT CAPSULE", &capsule.pivot);
    out.append(FULL_SOURCE);
    out.append(&capsule.pivot.text);
    out.append("\n");
    if capsule.neighbors.len() == 0 {
        out.append(NO_NEIGHBORS);
        return out;
    }
    let ghost start = out@;
    let mut i: usize = 0;
    while i < capsule.neighbors.len()
        invariant
            i <= capsule.neighbors.len(),
            views == neighbor_texts(capsule.neighbors@),
            out@ == neighbors_in_full(start, views, i as int),
        decreases capsule.neighbors.len() - i,
    {
        let n = &capsule.neighbors[i];
        assert(views[i as int] == n@);
        let entry = "\n── NEIGHBOR".to_owned().concat(&format_neighbor_line(n)).concat(
            &n.node.text,
        ).concat("\n");
        out.append(&entry);
        i += 1;
    }
    out
}

/// A pivot is named with its language, file and kind, and its source follows: whole where
/// it takes no more bytes than it may, else condensed, with how many bytes the whole
/// takes.
pub proof fn law_pivots_are_shown_whole_or_condensed(
    title: Seq<char>,
    pivot: symbols::NodeText,
    max_bytes: usize,
)
    ensures
        pivot_heading(title, pivot) == title + " — pivot: "@ + pivot.symbol_name + " ("@
            + pivot.language + ")\nFile : "@ + pivot.file_path + "\nType : "@ + pivot.symbol_type
            + "\n"@,
        text::bytes(pivot.raw_text) <= max_bytes ==> source_section(pivot, max_bytes)
            == "\n── FULL SOURCE ──────────────────────────────────────────────\n"@
            + pivot.raw_text + "\n"@,
        text::bytes(pivot.raw_text) > max_bytes ==> source_section(pivot, max_bytes)
            == "\n── CONDENSED SOURCE (pivot exceeded "@ + text::decimal(max_bytes as nat)
            + "B cap) ─────────────\n"@ + condense::condensed(pivot.raw_text, pivot.language)
            + "\n[Note: full source ("@ + text::decimal(text::bytes(pivot.raw_text))
            + "B) condensed to save tokens. Use read_node or native file read for the complete body. Set MARROW_CAPSULE_MAX_PIVOT_BYTES to adjust threshold.]\n"@,
{
}

/// A neighbor's signature is the first of its lines that holds more than white space; a
/// neighbor without such a line is told by its name.
pub proof fn law_signatures_are_first_written_lines(n: NeighborText)
    ensures
        ({
            let ls = scan::lines(n.node.raw_text);
            ||| exists|i: int|
                0 <= i < ls.len() && #[trigger] ls[i] == signature(n) && scan::trimmed(ls[i]).len()
                    > 0 && forall|j: int| 0 <= j < i ==> scan::trimmed(#[trigger] ls[j]).len() == 0
            ||| signature(n) == n.node.symbol_name && forall|j: int|
                0 <= j < ls.len() ==> scan::trimmed(#[trigger] ls[j]).len() == 0
        }),
{
    lemma_first_written(scan::lines(n.node.raw_text), 0);
}

proof fn lemma_first_written(ls: Seq<Seq<char>>, from: int)
    requires
        0 <= from <= ls.len(),
        forall|j: int| 0 <= j < from ==> scan::trimmed(#[trigger] ls[j]).len() == 0,
    ensures
        match scan::first_written(ls, from) {
            Some(line) => exists|i: int|
                0 <= i < ls.len() && #[trigger] ls[i] == line && scan::trimmed(ls[i]).len() > 0
                    && forall|j: int|
                    0 <= j < i ==> scan::trimmed(#[trigger] ls[j]).len() == 0,
            None => forall|j: int|
                0 <= j < ls.len() ==> scan::trimmed(#[trigger] ls[j]).len() == 0,
        },
    decreases ls.len() - from,
{
    if from < ls.len() {
        if scan::trimmed(ls[from]).len() > 0 {
            assert(ls[from] == ls[from]);
        } else {
            lemma_first_written(ls, from + 1);
        }
    }
}

/// What a database could give a symbol for neighbors: one for every row of texts that it
/// yields for the symbol, in their order, the symbol at the start of the edges for what
/// it depends on and at their end for what depends on it. A row gives the neighbor's
/// identity, name, kind, file and language, its text, which is condensed, and the edge's
/// relationship.
pub proof fn law_neighbors_are_one_edge_away(
    db: rusqlite::Connection,
    id: Seq<char>,
    direction: EdgeDirection,
    limit: usize,
    neighbors: Seq<NeighborText>,
)
    requires
        could_neighbor(db, id, direction, limit, neighbors),
    ensures
        exists|answer: Seq<Result<Vec<store::Cell>, rusqlite::Error>>|
            {
                let rows = #[trigger] store::text_rows(answer, 7);
                &&& store::could_yield(
                    db,
                    match direction {
                        EdgeDirection::Outbound =>
                            "SELECT n.id, n.symbol_name, n.symbol_type, n.file_path, n.language, n.raw_text, e.relationship_type FROM edges e JOIN nodes n ON e.source_id = ?1 AND n.id = e.target_id WHERE n.id != ?1 ORDER BY n.symbol_name, n.file_path LIMIT ?2"@,
                        EdgeDirection::Inbound =>
                            "SELECT n.id, n.symbol_name, n.symbol_type, n.file_path, n.language, n.raw_text, e.relationship_type FROM edges e JOIN nodes n ON e.target_id = ?1 AND n.id = e.source_id WHERE n.id != ?1 ORDER BY n.symbol_name, n.file_path LIMIT ?2"@,
                    },
                    seq![store::Bound::Text(id), store::Bound::Int(limit as i64 as int)],
                    Ok(answer),
                )
                &&& neighbors.len() == rows.len()
                &&& forall|i: int|
                    0 <= i < rows.len() ==> {
                        &&& (#[trigger] neighbors[i]).direction == direction
                        &&& neighbors[i].node.id == rows[i][0]
                        &&& neighbors[i].node.symbol_name == rows[i][1]
                        &&& neighbors[i].node.symbol_type == rows[i][2]
                        &&& neighbors[i].node.file_path == rows[i][3]
                        &&& neighbors[i].node.language == rows[i][4]
                        &&& neighbors[i].node.raw_text == condense::condensed(rows[i][5], rows[i][4])
                        &&& neighbors[i].relationship == rows[i][6]
                    }
            },
{
    let answer = choose|answer: Seq<Result<Vec<store::Cell>, rusqlite::Error>>|
        {
            &&& #[trigger] store::could_answer(
                db,
                neighbor_sql(direction),
                store::text_and_number(id, limit as i64 as int),
                answer,
            )
            &&& neighbors == neighbors_from(store::text_rows(answer, 7), direction)
        };
    let rows = store::text_rows(answer, 7);
    assert(neighbors.len() == rows.len());
}

proof fn lemma_in_full(
    start: Seq<char>,
    all: Seq<NeighborText>,
    n: int,
    entry: spec_fn(NeighborText) -> Seq<char>,
)
    requires
        0 <= n <= all.len(),
        forall|x: NeighborText| #[trigger]
            entry(x) == "\n── NEIGHBOR"@ + neighbor_line(x) + x.node.raw_text + "\n"@,
    ensures
        neighbors_in_full(start, all, n) == start + all.take(n).flat_map(entry),
    decreases n,
{
    if n > 0 {
        lemma_in_full(start, all, n - 1, entry);
        all.lemma_flat_map_take_append(entry, n - 1);
        text::lemma_put_together(start, all.take(n - 1).flat_map(entry), entry(all[n - 1]));
    } else {
        assert(all.take(0).flat_map(entry) =~= Seq::empty());
        text::lemma_put_together(start, start, start);
    }
}

/// The long form of a capsule holds the line and the text of every neighbor, in their
/// order and whatever their direction.
pub proof fn law_full_capsules_hold_every_neighbor(capsule: CapsuleText)
    requires
        capsule.neighbors.len() > 0,
    ensures
        capsule_in_full(capsule) == pivot_heading("CONTEXT CAPSULE"@, capsule.pivot)
            + "\n── FULL SOURCE ──────────────────────────────────────────────\n"@
            + capsule.pivot.raw_text + "\n"@ + capsule.neighbors.flat_map(
            |n: NeighborText|
                "\n── NEIGHBOR"@ + ("  ["@ + n.relationship + "]  "@ + n.node.symbol_name
                    + "  ("@ + n.node.language + ")  "@ + n.node.file_path + "\n"@)
                    + n.node.raw_text + "\n"@,
        ),
{
    let entry = |n: NeighborText|
        "\n── NEIGHBOR"@ + ("  ["@ + n.relationship + "]  "@ + n.node.symbol_name + "  ("@
            + n.node.language + ")  "@ + n.node.file_path + "\n"@) + n.node.raw_text + "\n"@;
    let all = capsule.neighbors;
    let start = pivot_heading("CONTEXT CAPSULE"@, capsule.pivot) + FULL_SOURCE@
        + capsule.pivot.raw_text + "\n"@;
    lemma_in_full(start, all, all.len() as int, entry);
    assert(all.take(all.len() as int) =~= all);
}

// ── Observations ─────────────────────────────────────────────────────────────

/// A remark recorded about a symbol.
#[derive(Debug, Clone)]
pub struct Observation {
    pub text: String,
    /// Whether the code has changed since.
    pub is_stale: bool,
    pub timestamp: String,
}

/// A remark without its representation.
pub struct ObservationText {
    pub text: Seq<char>,
    pub is_stale: bool,
    pub timestamp: Seq<char>,
}

impl View for Observation {
    type V = ObservationText;

    open spec fn view(&self) -> ObservationText {
        ObservationText { text: self.text@, is_stale: self.is_stale, timestamp: self.timestamp@ }
    }
}

/// The remarks of a list.
pub open spec fn observation_texts(v: Seq<Observation>) -> Seq<ObservationText> {
    Seq::new(v.len(), |i: int| v[i]@)
}

/// The remark that a row describes, if it does.
pub open spec fn observation_from(row: Seq<store::Cell>) -> Option<ObservationText> {
    match (store::text_at(row, 0), store::int_at(row, 1), store::text_at(row, 2)) {
        (Some(t), Some(stale), Some(ts)) => Some(
            ObservationText { text: t, is_stale: stale != 0, timestamp: ts },
        ),
        _ => None,
    }
}

/// The remarks that rows describe.
pub open spec fn observations_from(answer: Seq<Result<Vec<store::Cell>, rusqlite::Error>>) -> Seq<
    ObservationText,
>
    decreases answer.len(),
{
    if answer.len() == 0 {
        Seq::empty()
    } else {
        let head = observations_from(answer.drop_last());
        match answer.last() {
            Ok(row) => match observation_from(row@) {
                Some(o) => head.push(o),
                None => head,
            },
            Err(_) => head,
        }
    }
}

/// The remarks that rows describe.
pub fn read_observations(answer: &Answer) -> (r: Vec<Observation>)
    ensures
        observation_texts(r@) == observations_from(answer@),
{
    let mut out: Vec<Observation> = Vec::new();
    let mut i: usize = 0;
    assert(observation_texts(out@) =~= observations_from(answer@.take(0)));
    while i < answer.len()
        invariant
            i <= answer.len(),
            observation_texts(out@) == observations_from(answer@.take(i as int)),
        decreases answer.len() - i,
    {
        assert(answer@.take(i + 1).drop_last() =~= answer@.take(i as int));
        let ghost before = out@;
        match &answer[i] {
            Ok(row) => {
                match (read_text(row, 0), read_int(row, 1), read_text(row, 2)) {
                    (Some(t), Some(stale), Some(ts)) => {
                        let o = Observation { text: t, is_stale: stale != 0, timestamp: ts };
                        out.push(o);
                        assert(observation_texts(out@) =~= observation_texts(before).push(o@));
                    },
                    _ => {},
                }
            },
            Err(_) => {},
        }
        i += 1;
    }
    assert(answer@.take(answer@.len() as int) =~= answer@);
    out
}

/// Whether a database could give these remarks about a symbol; one that refuses the
/// question, having no such table, gives none.
pub open spec fn could_remark(
    db: rusqlite::Connection,
    repo: Seq<char>,
    symbol: Seq<char>,
    filepath: Seq<char>,
    remarks: Seq<ObservationText>,
) -> bool {
    ||| exists|answer: Seq<Result<Vec<store::Cell>, rusqlite::Error>>|
        {
            &&& #[trigger] store::could_answer(
                db,
                OBSERVATIONS_SQL@,
                store::three_texts(repo, symbol, filepath),
                answer,
            )
            &&& remarks == observations_from(answer)
        }
    ||| remarks.len() == 0 && exists|why: rusqlite::Error| #[trigger]
        store::could_refuse(
            db,
            OBSERVATIONS_SQL@,
            store::three_texts(repo, symbol, filepath),
            why,
        )
}

/// The remarks about a symbol are those that are kept under its repository, name and file.
pub proof fn law_remarks_are_kept_under_the_symbol(
    db: rusqlite::Connection,
    repo: Seq<char>,
    symbol: Seq<char>,
    filepath: Seq<char>,
    remarks: Seq<ObservationText>,
)
    requires
        could_remark(db, repo, symbol, filepath, remarks),
        remarks.len() > 0,
    ensures
        exists|answer: Seq<Result<Vec<store::Cell>, rusqlite::Error>>|
            {
                &&& store::could_yield(
                    db,
                    "SELECT observation_text, is_stale, timestamp FROM observations WHERE repo_id = ?1 AND symbol_name = ?2 AND filepath = ?3 ORDER BY timestamp DESC"@,
                    seq![
                        store::Bound::Text(repo),
                        store::Bound::Text(symbol),
                        store::Bound::Text(filepath),
                    ],
                    Ok(answer),
                )
                &&& remarks == #[trigger] observations_from(answer)
            },
{
}

/// Reads the remarks recorded about a symbol, newest first.
pub fn query_observations_for_capsule(
    conn: &rusqlite::Connection,
    repo_id: &str,
    symbol_name: &str,
    filepath: &str,
) -> (r: Vec<Observation>)
    ensures
        could_remark(*conn, repo_id@, symbol_name@, filepath@, observation_texts(r@)),
{
    let ghost asked = store::three_texts(repo_id@, symbol_name@, filepath@);
    match select(conn, OBSERVATIONS_SQL, bind_three(repo_id, symbol_name, filepath)) {
        Ok(answer) => {
            assert(store::could_answer(*conn, OBSERVATIONS_SQL@, asked, answer@));
            read_observations(&answer)
        },
        Err(why) => {
            assert(store::could_refuse(*conn, OBSERVATIONS_SQL@, asked, why));
            Vec::new()
        },
    }
}

/// The line of a remark, its white space made single spaces.
pub open spec fn remark_line(o: ObservationText) -> Seq<char> {
    "- "@ + text::joined(scan::words(o.text), " "@) + "  (recorded: "@ + o.timestamp + (
    if o.is_stale {
        ", STALE"@
    } else {
        ""@
    }) + ")\n"@
}

/// `start` followed by the lines of the first `n` remarks.
pub open spec fn remarks_listed(start: Seq<char>, all: Seq<ObservationText>, n: int) -> Seq<char>
    decreases n,
{
    if n <= 0 {
        start
    } else {
        remarks_listed(start, all, n - 1) + remark_line(all[n - 1])
    }
}

/// Whether one of the first `n` remarks is stale.
pub open spec fn some_stale(all: Seq<ObservationText>, n: int) -> bool {
    exists|i: int| 0 <= i < n && (#[trigger] all[i]).is_stale
}

pub const MEMORIES_HEADING: &'static str =
    "\n── SESSION MEMORIES ─────────────────────────────────────────\n";

pub const STALE_NOTE: &'static str =
    "[Note: items marked STALE were recorded against code that has since changed — re-verify before trusting.]\n";

/// A capsule's text followed by the remarks recorded about the pivot.
pub open spec fn with_remarks(start: Seq<char>, all: Seq<ObservationText>) -> Seq<char> {
    let n = all.len() as int;
    if n == 0 {
        start
    } else if some_stale(all, n) {
        remarks_listed(start + MEMORIES_HEADING@, all, n) + STALE_NOTE@
    } else {
        remarks_listed(start + MEMORIES_HEADING@, all, n)
    }
}

/// Appends the remarks recorded about the pivot.
pub fn append_remarks(out: &mut String, remarks: &Vec<Observation>)
    ensures
        final(out)@ == with_remarks(old(out)@, observation_texts(remarks@)),
{
    if remarks.len() == 0 {
        return;
    }
    let ghost all = observation_texts(remarks@);
    out.append(MEMORIES_HEADING);
    let ghost start = out@;
    let mut stale = false;
    let mut i: usize = 0;
    while i < remarks.len()
        invariant
            i <= remarks.len(),
            all == observation_texts(remarks@),
            stale == some_stale(all, i as int),
            out@ == remarks_listed(start, all, i as int),
        decreases remarks.len() - i,
    {
        let o = &remarks[i];
        assert(all[i as int] == o@);
        let mark: &str = if o.is_stale {
            ", STALE"
        } else {
            ""
        };
        let line = "- ".to_owned().concat(&join(&words_of(&o.text), " ")).concat(
            "  (recorded: ",
        ).concat(&o.timestamp).concat(mark).concat(")\n");
        out.append(&line);
        if o.is_stale {
            stale = true;
        }
        proof {
            if some_stale(all, i as int) {
                let k = choose|k: int| 0 <= k < i && (#[trigger] all[k]).is_stale;
                assert(all[k].is_stale);
            }
            assert(o.is_stale ==> all[i as int].is_stale);
            if some_stale(all, i + 1) && !o.is_stale {
                let k = choose|k: int| 0 <= k < i + 1 && (#[trigger] all[k]).is_stale;
                assert(k < i);
            }
        }
        i += 1;
    }
    if stale {
        out.append(STALE_NOTE);
    }
}

proof fn lemma_remarks_listed(
    start: Seq<char>,
    all: Seq<ObservationText>,
    n: int,
    line: spec_fn(ObservationText) -> Seq<char>,
)
    requires
        0 <= n <= all.len(),
        forall|o: ObservationText| #[trigger] line(o) == remark_line(o),
    ensures
        remarks_listed(start, all, n) == start + all.take(n).flat_map(line),
    decreases n,
{
    if n > 0 {
        lemma_remarks_listed(start, all, n - 1, line);
        all.lemma_flat_map_take_append(line, n - 1);
        text::lemma_put_together(start, all.take(n - 1).flat_map(line), line(all[n - 1]));
    } else {
        assert(all.take(0).flat_map(line) =~= Seq::empty());
        text::lemma_put_together(start, start, start);
    }
}

/// Every remark recorded about a pivot is listed behind the capsule, in their order, with
/// when it was recorded and whether it is stale; where one is, that is explained at the
/// end. A capsule without remarks stays as it is.
pub proof fn law_every_remark_is_listed(start: Seq<char>, all: Seq<ObservationText>)
    ensures
        all.len() == 0 ==> with_remarks(start, all) == start,
        all.len() > 0 ==> with_remarks(start, all) == start
            + "\n── SESSION MEMORIES ─────────────────────────────────────────\n"@
            + all.flat_map(
            |o: ObservationText|
                "- "@ + text::joined(scan::words(o.text), " "@) + "  (recorded: "@ + o.timestamp
                    + (if o.is_stale {
                    ", STALE"@
                } else {
                    ""@
                }) + ")\n"@,
        ) + (if exists|i: int| 0 <= i < all.len() && (#[trigger] all[i]).is_stale {
            "[Note: items marked STALE were recorded against code that has since changed — re-verify before trusting.]\n"@
        } else {
            Seq::empty()
        }),
{
    let line = |o: ObservationText|
        "- "@ + text::joined(scan::words(o.text), " "@) + "  (recorded: "@ + o.timestamp + (
        if o.is_stale {
            ", STALE"@
        } else {
            ""@
        }) + ")\n"@;
    let n = all.len() as int;
    lemma_remarks_listed(start + MEMORIES_HEADING@, all, n, line);
    assert(all.take(n) =~= all);
    let listed = start + MEMORIES_HEADING@ + all.flat_map(line);
    text::lemma_put_together(listed, listed, listed);
}

/// The remarks that an answer describes are those of its rows that hold a text, a mark
/// and a time, in their order.
pub proof fn law_remarks_are_rows(answer: Seq<Result<Vec<store::Cell>, rusqlite::Error>>)
    ensures
        observations_from(answer) == answer.filter_map(
            |row: Result<Vec<store::Cell>, rusqlite::Error>|
                match row {
                    Ok(cells) => match (
                        store::text_at(cells@, 0),
                        store::int_at(cells@, 1),
                        store::text_at(cells@, 2),
                    ) {
                        (Some(t), Some(stale), Some(ts)) => Some(
                            ObservationText { text: t, is_stale: stale != 0, timestamp: ts },
                        ),
                        _ => None,
                    },
                    Err(_) => None,
                },
        ),
    decreases answer.len(),
{
    if answer.len() > 0 {
        law_remarks_are_rows(answer.drop_last());
        let head = observations_from(answer.drop_last());
        assert forall|o: ObservationText| head.push(o) == #[trigger] (head + seq![o]) by {
            assert(head.push(o) =~= head + seq![o]);
        }
    }
}

// ── The result ───────────────────────────────────────────────────────────────

/// What is appended to the raw text when files were left out for the budget.
pub open spec fn truncation_note(limit: usize, omitted: Seq<Seq<char>>) -> Seq<char> {
    "\n\n── MARROW: original_text truncated (MARROW_CAPSULE_ORIGINAL_MAX_BYTES="@
        + text::decimal(limit as nat) + ") ──\nOmitted "@ + text::decimal(omitted.len())
        + " file(s) (not loaded to cap RAM). Example paths: "@ + text::joined(
        omitted.take(
            if omitted.len() < 5 {
                omitted.len() as int
            } else {
                5
            },
        ),
        ", "@,
    ) + "\n"@
}

/// The raw text of the touched files in a mode.
pub open spec fn original(
    files: Seq<SourceFile>,
    paths: Seq<Seq<char>>,
    has_root: bool,
    limits: Settings,
) -> Seq<char> {
    if limits.original_mode == CapsuleOriginalMode::Off {
        Seq::empty()
    } else {
        let all = files::concat_all(files, paths, limits.original_max_bytes, has_root);
        let joined = text::joined(all.parts, "\n"@);
        match limits.original_max_bytes {
            Some(limit) => if all.omitted.len() > 0 {
                joined + truncation_note(limit, all.omitted)
            } else {
                joined
            },
            None => joined,
        }
    }
}

/// The raw text of the touched files is what was read of them, with a line feed between
/// any two. Where files were left out for the budget, it ends with a note of the budget,
/// of how many these are, and of the first five of them.
pub proof fn law_raw_text_says_what_was_left_out(
    files: Seq<SourceFile>,
    paths: Seq<Seq<char>>,
    has_root: bool,
    limits: Settings,
)
    requires
        limits.original_mode == CapsuleOriginalMode::Full,
    ensures
        ({
            let all = files::concat_all(files, paths, limits.original_max_bytes, has_root);
            let whole = text::joined(all.parts, "\n"@);
            let some: int = if all.omitted.len() < 5 {
                all.omitted.len() as int
            } else {
                5
            };
            match limits.original_max_bytes {
                None => original(files, paths, has_root, limits) == whole,
                Some(limit) => original(files, paths, has_root, limits) == (
                if all.omitted.len() == 0 {
                    whole
                } else {
                    whole
                        + ("\n\n── MARROW: original_text truncated (MARROW_CAPSULE_ORIGINAL_MAX_BYTES="@
                        + text::decimal(limit as nat) + ") ──\nOmitted "@ + text::decimal(
                        all.omitted.len(),
                    ) + " file(s) (not loaded to cap RAM). Example paths: "@ + text::joined(
                        all.omitted.take(some),
                        ", "@,
                    ) + "\n"@)
                }),
            }
        }),
        original_truncated(files, paths, has_root, limits) <==> files::concat_all(
            files,
            paths,
            limits.original_max_bytes,
            has_root,
        ).omitted.len() > 0,
{
}

/// Whether files were left out of the raw text.
pub open spec fn original_truncated(
    files: Seq<SourceFile>,
    paths: Seq<Seq<char>>,
    has_root: bool,
    limits: Settings,
) -> bool {
    limits.original_mode == CapsuleOriginalMode::Full && files::concat_all(
        files,
        paths,
        limits.original_max_bytes,
        has_root,
    ).omitted.len() > 0
}

/// Whether a result is the one that a capsule, its files and its remarks give.
pub open spec fn is_result(
    r: CapsuleResult,
    capsule: CapsuleText,
    paths: Seq<Seq<char>>,
    has_root: bool,
    remarks: Seq<ObservationText>,
    files: Seq<SourceFile>,
    limits: Settings,
) -> bool {
    let off = limits.original_mode == CapsuleOriginalMode::Off;
    let baseline = files::baseline_name(
        limits.original_mode,
        original_truncated(files, paths, has_root, limits),
    );
    let shown = off && files::has_snapshot(
        files,
        paths,
        has_root,
        limits.proof_max_bytes as int,
        limits.proof_max_files as int,
    );
    &&& r.optimized_text@ == with_remarks(capsule_text(capsule, limits), remarks)
    &&& r.original_text@ == original(files, paths, has_root, limits)
    &&& r.file_tokens == (if off {
        files::estimate(files, paths, has_root)
    } else {
        text::bytes(r.original_text@) as int / 4
    })
    &&& r.proof_snapshot is Some <==> shown
    &&& r.proof_snapshot matches Some(snap) ==> files::is_snapshot(
        snap,
        files,
        paths,
        baseline,
        limits.proof_max_bytes as int,
        limits.proof_max_files as int,
    )
    &&& r.provenance.baseline_token_source@ == baseline
    &&& r.provenance.tokenizer_mode@ == (if off {
        "metadata_len/4"@
    } else {
        "text_len/4"@
    })
    &&& r.provenance.original_mode@ == files::mode_name(limits.original_mode)
    &&& r.provenance.proof_label@ == (match r.proof_snapshot {
        Some(snap) => snap.proof_label@,
        None => baseline,
    })
    &&& !r.provenance.precise_file_tokens
    &&& r.provenance.original_max_bytes == limits.original_max_bytes
    &&& r.provenance.proof_max_bytes == limits.proof_max_bytes
    &&& r.provenance.proof_max_files == limits.proof_max_files
    &&& r.provenance.touched_file_count == paths.len()
}

/// Puts the result of a capsule together from what its files hold.
pub fn assemble_capsule(
    capsule: &ContextCapsule,
    touched: &Vec<String>,
    has_root: bool,
    remarks: &Vec<Observation>,
    files: &Vec<SourceFile>,
    limits: &Settings,
) -> (r: CapsuleResult)
    ensures
        is_result(
            r,
            capsule@,
            text::texts(touched@),
            has_root,
            observation_texts(remarks@),
            files@,
            *limits,
        ),
{
    let ghost paths = text::texts(touched@);
    let mode = limits.original_mode;
    let budget = limits.original_max_bytes;
    let mut optimized = format_capsule(capsule, limits);
    append_remarks(&mut optimized, remarks);
    let mut truncated = false;
    let original = if mode == CapsuleOriginalMode::Off {
        String::new()
    } else {
        let (joined, cut, omitted) = concat_full_original_text_sorted(
            has_root,
            touched,
            budget,
            files,
        );
        truncated = cut;
        match budget {
            Some(limit) => if cut {
                let shown: usize = if omitted.len() < 5 {
                    omitted.len()
                } else {
                    5
                };
                let note = "\n\n── MARROW: original_text truncated (MARROW_CAPSULE_ORIGINAL_MAX_BYTES=".to_owned().concat(
                    &count_text(limit),
                ).concat(") ──\nOmitted ").concat(&count_text(omitted.len())).concat(
                    " file(s) (not loaded to cap RAM). Example paths: ",
                ).concat(&join_first(&omitted, shown, ", ")).concat("\n");
                assert(text::texts(omitted@).len() == omitted.len());
                joined.concat(&note)
            } else {
                joined
            },
            None => joined,
        }
    };
    let file_tokens: usize = if mode == CapsuleOriginalMode::Full {
        byte_len(&original) / 4
    } else {
        file_tokens_metadata_estimate(has_root, touched, files)
    };
    let baseline = baseline_token_source(mode, truncated);
    let proof_snapshot = if mode == CapsuleOriginalMode::Off {
        build_bounded_proof_snapshot(
            has_root,
            touched,
            baseline,
            limits.proof_max_bytes,
            limits.proof_max_files,
            files,
        )
    } else {
        None
    };
    let proof_label = match &proof_snapshot {
        Some(snap) => snap.proof_label.clone(),
        None => baseline.to_owned(),
    };
    let tokenizer: &str = if mode == CapsuleOriginalMode::Off {
        "metadata_len/4"
    } else {
        "text_len/4"
    };
    assert(paths.len() == touched.len());
    CapsuleResult {
        optimized_text: optimized,
        original_text: original,
        file_tokens,
        proof_snapshot,
        provenance: CapsuleProvenance {
            baseline_token_source: baseline.to_owned(),
            tokenizer_mode: tokenizer.to_owned(),
            original_mode: original_mode_label(mode).to_owned(),
            proof_label,
            precise_file_tokens: false,
            original_max_bytes: budget,
            proof_max_bytes: limits.proof_max_bytes,
            proof_max_files: limits.proof_max_files,
            touched_file_count: touched.len(),
        },
    }
}

/// Whether a result hands on a text that needs no files, with this for the raw text.
pub open spec fn is_plain_result(
    r: CapsuleResult,
    shown: Seq<char>,
    original: Seq<char>,
    baseline: Seq<char>,
    mode: Seq<char>,
    budget: Option<usize>,
    limits: Settings,
) -> bool {
    &&& r.optimized_text@ == shown
    &&& r.original_text@ == original
    &&& r.file_tokens == text::bytes(shown) / 4
    &&& r.proof_snapshot is None
    &&& r.provenance.baseline_token_source@ == baseline
    &&& r.provenance.tokenizer_mode@ == "chars/4"@
    &&& r.provenance.original_mode@ == mode
    &&& r.provenance.proof_label@ == "unavailable"@
    &&& !r.provenance.precise_file_tokens
    &&& r.provenance.original_max_bytes == budget
    &&& r.provenance.proof_max_bytes == limits.proof_max_bytes
    &&& r.provenance.proof_max_files == limits.proof_max_files
    &&& r.provenance.touched_file_count == 0
}

/// A result that hands on a text that needs no files, with `original` for the raw text.
pub fn plain_result(
    shown: String,
    original: String,
    baseline: &str,
    mode: &str,
    budget: Option<usize>,
    limits: &Settings,
) -> (r: CapsuleResult)
    ensures
        is_plain_result(r, shown@, original@, baseline@, mode@, budget, *limits),
{
    let file_tokens = byte_len(&shown) / 4;
    CapsuleResult {
        optimized_text: shown,
        original_text: original,
        file_tokens,
        proof_snapshot: None,
        provenance: CapsuleProvenance {
            baseline_token_source: baseline.to_owned(),
            tokenizer_mode: "chars/4".to_owned(),
            original_mode: mode.to_owned(),
            proof_label: "unavailable".to_owned(),
            precise_file_tokens: false,
            original_max_bytes: budget,
            proof_max_bytes: limits.proof_max_bytes,
            proof_max_files: limits.proof_max_files,
            touched_file_count: 0,
        },
    }
}

/// Whether a database could name this as a repository's root, which is empty where it
/// cannot be read.
pub open spec fn could_be_root(db: rusqlite::Connection, repo: Seq<char>, root: Seq<char>) -> bool {
    ||| exists|answer: Seq<Result<Vec<store::Cell>, rusqlite::Error>>|
        {
            &&& #[trigger] store::could_answer(db, ROOT_SQL@, store::one_text(repo), answer)
            &&& store::first_text(answer) == Some(root)
        }
    ||| root.len() == 0 && store::could_lack_text(db, ROOT_SQL@, store::one_text(repo))
}

/// Whether a database could say so of a repository's root: whether it has one, a
/// root that cannot be read counting as none.
pub open spec fn could_have_root(
    db: rusqlite::Connection,
    repo: Seq<char>,
    has_root: bool,
) -> bool {
    exists|root: Seq<char>| #[trigger] could_be_root(db, repo, root) && has_root == (root.len() > 0)
}

/// The path of a repository's root, empty where it cannot be read.
pub fn repository_root(conn: &rusqlite::Connection, repo_id: &str) -> (r: String)
    ensures
        could_be_root(*conn, repo_id@, r@),
        could_have_root(*conn, repo_id@, r@.len() > 0),
{
    let root = match select(conn, ROOT_SQL, bind_one(repo_id)) {
        Ok(answer) => {
            assert(store::could_answer(*conn, ROOT_SQL@, store::one_text(repo_id@), answer@));
            match read_first_text(&answer) {
                Some(root) => root,
                None => String::new(),
            }
        },
        Err(why) => {
            assert(store::could_refuse(*conn, ROOT_SQL@, store::one_text(repo_id@), why));
            String::new()
        },
    };
    assert(could_be_root(*conn, repo_id@, root@));
    root
}

/// Whether a database could lead to this result for a symbol: the list of candidates
/// where the name is ambiguous, else the capsule of the one node.
pub open spec fn could_explore(
    db: rusqlite::Connection,
    symbol: Seq<char>,
    repo: Seq<char>,
    filepath: Option<Seq<char>>,
    files: Seq<SourceFile>,
    limits: Settings,
    r: CapsuleResult,
) -> bool {
    ||| could_explore_as(db, symbol, repo, filepath, files, limits, true, r)
    ||| could_explore_as(db, symbol, repo, filepath, files, limits, false, r)
}

/// Whether a database could lead to this result for a symbol, whose name turns out to be
/// ambiguous or not.
pub open spec fn could_explore_as(
    db: rusqlite::Connection,
    symbol: Seq<char>,
    repo: Seq<char>,
    filepath: Option<Seq<char>>,
    files: Seq<SourceFile>,
    limits: Settings,
    ambiguous: bool,
    r: CapsuleResult,
) -> bool {
    if ambiguous {
        exists|payload: Seq<char>|
            {
                &&& #[trigger] symbols::could_be_ambiguous(db, symbol, repo, filepath, payload)
                &&& is_plain_result(
                    r,
                    payload,
                    payload,
                    "unavailable"@,
                    files::mode_name(limits.original_mode),
                    limits.original_max_bytes,
                    limits,
                )
            }
    } else {
        exists|
            node: symbols::NodeText,
            capsule: CapsuleText,
            paths: Seq<Seq<char>>,
            has_root: bool,
            remarks: Seq<ObservationText>,
        |
            {
                &&& symbols::could_be_unique(db, symbol, repo, filepath, node)
                &&& #[trigger] could_build(db, node, limits, capsule)
                &&& #[trigger] is_touched(paths, capsule)
                &&& could_have_root(db, repo, has_root)
                &&& could_remark(
                    db,
                    repo,
                    capsule.pivot.symbol_name,
                    capsule.pivot.file_path,
                    remarks,
                )
                &&& #[trigger] is_result(r, capsule, paths, has_root, remarks, files, limits)
            }
    }
}

/// The capsule of a name that one node has is built around that node, from what the
/// database could name at either end of its edges and nothing else: the text tells of
/// these and of the remarks that are kept under the node's name and file.
pub proof fn law_capsules_tell_of_both_ends(
    db: rusqlite::Connection,
    symbol: Seq<char>,
    repo: Seq<char>,
    filepath: Option<Seq<char>>,
    files: Seq<SourceFile>,
    limits: Settings,
    r: CapsuleResult,
)
    requires
        could_explore_as(db, symbol, repo, filepath, files, limits, false, r),
    ensures
        exists|
            node: symbols::NodeText,
            outs: Seq<NeighborText>,
            ins: Seq<NeighborText>,
            remarks: Seq<ObservationText>,
        |
            {
                &&& symbols::could_match(db, symbol, repo, filepath, seq![node])
                &&& #[trigger] could_neighbor(
                    db,
                    node.id,
                    EdgeDirection::Outbound,
                    limits.max_outbound,
                    outs,
                )
                &&& #[trigger] could_neighbor(
                    db,
                    node.id,
                    EdgeDirection::Inbound,
                    limits.max_inbound_load,
                    ins,
                )
                &&& #[trigger] could_remark(db, repo, node.symbol_name, node.file_path, remarks)
                &&& r.optimized_text@ == with_remarks(
                    capsule_text(CapsuleText { pivot: node, neighbors: outs + ins }, limits),
                    remarks,
                )
            },
{
    let (node, capsule, paths, has_root, remarks) = choose|
        node: symbols::NodeText,
        capsule: CapsuleText,
        paths: Seq<Seq<char>>,
        has_root: bool,
        remarks: Seq<ObservationText>,
    |
        {
            &&& symbols::could_be_unique(db, symbol, repo, filepath, node)
            &&& #[trigger] could_build(db, node, limits, capsule)
            &&& #[trigger] is_touched(paths, capsule)
            &&& could_have_root(db, repo, has_root)
            &&& could_remark(
                db,
                repo,
                capsule.pivot.symbol_name,
                capsule.pivot.file_path,
                remarks,
            )
            &&& #[trigger] is_result(r, capsule, paths, has_root, remarks, files, limits)
        };
    let (outs, ins) = choose|outbound: Seq<NeighborText>, inbound: Seq<NeighborText>|
        {
            &&& #[trigger] could_neighbor(
                db,
                node.id,
                EdgeDirection::Outbound,
                limits.max_outbound,
                outbound,
            )
            &&& #[trigger] could_neighbor(
                db,
                node.id,
                EdgeDirection::Inbound,
                limits.max_inbound_load,
                inbound,
            )
            &&& capsule.neighbors == outbound + inbound
        };
    assert(capsule == CapsuleText { pivot: node, neighbors: outs + ins });
    assert(could_remark(db, repo, node.symbol_name, node.file_path, remarks));
}

/// What a capsule is measured against: with raw text switched off, an estimate from the
/// sizes of the touched files, and no raw text; else the raw text of these files, by its
/// bytes. The touched files are counted, each once.
pub proof fn law_capsules_are_measured_against_their_files(
    r: CapsuleResult,
    capsule: CapsuleText,
    paths: Seq<Seq<char>>,
    has_root: bool,
    remarks: Seq<ObservationText>,
    files: Seq<SourceFile>,
    limits: Settings,
)
    requires
        is_result(r, capsule, paths, has_root, remarks, files, limits),
    ensures
        limits.original_mode == CapsuleOriginalMode::Off ==> {
            &&& r.original_text@.len() == 0
            &&& r.file_tokens == files::estimate(files, paths, has_root)
            &&& r.provenance.tokenizer_mode@ == "metadata_len/4"@
        },
        limits.original_mode == CapsuleOriginalMode::Full ==> {
            &&& r.file_tokens == text::bytes(r.original_text@) as int / 4
            &&& r.proof_snapshot is None
            &&& r.provenance.tokenizer_mode@ == "text_len/4"@
            &&& text::joined(
                files::concat_all(files, paths, limits.original_max_bytes, has_root).parts,
                "\n"@,
            ).is_prefix_of(r.original_text@)
        },
        r.provenance.touched_file_count == paths.len(),
        r.provenance.original_max_bytes == limits.original_max_bytes,
        r.provenance.proof_max_bytes == limits.proof_max_bytes,
        r.provenance.proof_max_files == limits.proof_max_files,
        !r.provenance.precise_file_tokens,
        r.proof_snapshot is None ==> r.provenance.proof_label@
            == r.provenance.baseline_token_source@,
{
}

/// Whether looking at a symbol's context could fail so: no node has the name, or the
/// database refuses the lookup or the neighbors of the one node.
pub open spec fn could_not_explore(
    db: rusqlite::Connection,
    symbol: Seq<char>,
    repo: Seq<char>,
    filepath: Option<Seq<char>>,
    limits: Settings,
    e: MarrowError,
) -> bool {
    match e {
        MarrowError::Message(m) => symbols::could_be_missing(db, symbol, repo, filepath, m@),
        MarrowError::Store(why) => {
            ||| symbols::could_not_look_up(db, symbol, repo, filepath, why)
            ||| exists|node: symbols::NodeText| #[trigger]
                symbols::could_be_unique(db, symbol, repo, filepath, node) && could_not_build(
                    db,
                    node,
                    limits,
                    why,
                )
        },
    }
}

/// The context of a symbol: its source with the symbols one edge away, measured
/// against what the touched `files` hold. A name that several symbols have gives
/// the list of files to choose from.
pub fn get_context_capsule(
    conn: &rusqlite::Connection,
    symbol_name: &str,
    repo_id: &str,
    filepath: Option<&str>,
    limits: &Settings,
    files: &Vec<SourceFile>,
) -> (r: Result<CapsuleResult, MarrowError>)
    ensures
        match r {
            Ok(result) => could_explore(
                *conn,
                symbol_name@,
                repo_id@,
                text::opt_str(filepath),
                files@,
                *limits,
                result,
            ),
            Err(e) => could_not_explore(
                *conn,
                symbol_name@,
                repo_id@,
                text::opt_str(filepath),
                *limits,
                e,
            ),
        },
{
    match explore_symbol(conn, symbol_name, repo_id, filepath, limits, files) {
        Ok((result, _)) => Ok(result),
        Err(e) => Err(e),
    }
}

/// The context of a symbol as [`get_context_capsule`] gives it, and whether its name was
/// ambiguous.
pub fn explore_symbol(
    conn: &rusqlite::Connection,
    symbol_name: &str,
    repo_id: &str,
    filepath: Option<&str>,
    limits: &Settings,
    files: &Vec<SourceFile>,
) -> (r: Result<(CapsuleResult, bool), MarrowError>)
    ensures
        match r {
            Ok((result, ambiguous)) => could_explore_as(
                *conn,
                symbol_name@,
                repo_id@,
                text::opt_str(filepath),
                files@,
                *limits,
                ambiguous,
                result,
            ),
            Err(e) => could_not_explore(
                *conn,
                symbol_name@,
                repo_id@,
                text::opt_str(filepath),
                *limits,
                e,
            ),
        },
{
    let node = match resolve_symbol_or_disambiguate(conn, symbol_name, repo_id, filepath) {
        Ok(SymbolResolution::Unique(node)) => node,
        Ok(SymbolResolution::Ambiguous(payload)) => {
            let result = plain_result(
                payload.clone(),
                payload.clone(),
                "unavailable",
                original_mode_label(limits.original_mode),
                limits.original_max_bytes,
                limits,
            );
            assert(symbols::could_be_ambiguous(
                *conn,
                symbol_name@,
                repo_id@,
                text::opt_str(filepath),
                payload@,
            ));
            return Ok((result, true));
        },
        Err(e) => {
            return Err(e);
        },
    };
    let ghost found = node;
    let capsule = match build_context_capsule_from_resolved(conn, node, limits) {
        Ok(capsule) => capsule,
        Err(e) => {
            return Err(e);
        },
    };
    let touched = touched_paths_for_capsule(&capsule);
    let root = repository_root(conn, repo_id);
    let has_root = !root.as_str().is_empty();
    let remarks = query_observations_for_capsule(
        conn,
        repo_id,
        &capsule.pivot.symbol_name,
        &capsule.pivot.file_path,
    );
    let result = assemble_capsule(&capsule, &touched, has_root, &remarks, files, limits);
    assert(could_build(*conn, found@, *limits, capsule@));
    Ok((result, false))
}

/// Whether a database could lead to these files for a symbol: none where the name is
/// ambiguous, else those that the one node's context touches.
pub open spec fn could_need(
    db: rusqlite::Connection,
    symbol: Seq<char>,
    repo: Seq<char>,
    filepath: Option<Seq<char>>,
    limits: Settings,
    root: Seq<char>,
    paths: Seq<Seq<char>>,
) -> bool {
    ||| exists|payload: Seq<char>|
        #[trigger] symbols::could_be_ambiguous(
            db,
            symbol,
            repo,
            filepath,
            payload,
        ) && root.len() == 0
            && paths.len() == 0
    ||| could_be_root(db, repo, root) && exists|node: symbols::NodeText, capsule: CapsuleText|
        {
            &&& symbols::could_be_unique(db, symbol, repo, filepath, node)
            &&& #[trigger] could_build(db, node, limits, capsule)
            &&& is_touched(paths, capsule)
        }
}

/// What is to be read from disk before a symbol's context is put together: the
/// repository's root and the touched files, none where the name is ambiguous.
pub fn context_capsule_files(
    conn: &rusqlite::Connection,
    symbol_name: &str,
    repo_id: &str,
    filepath: Option<&str>,
    limits: &Settings,
) -> (r: Result<(String, Vec<String>), MarrowError>)
    ensures
        match r {
            Ok((root, paths)) => could_need(
                *conn,
                symbol_name@,
                repo_id@,
                text::opt_str(filepath),
                *limits,
                root@,
                text::texts(paths@),
            ),
            Err(e) => could_not_explore(
                *conn,
                symbol_name@,
                repo_id@,
                text::opt_str(filepath),
                *limits,
                e,
            ),
        },
{
    match resolve_symbol_or_disambiguate(conn, symbol_name, repo_id, filepath) {
        Ok(SymbolResolution::Unique(node)) => {
            let ghost found = node;
            match build_context_capsule_from_resolved(conn, node, limits) {
                Ok(capsule) => {
                    let touched = touched_paths_for_capsule(&capsule);
                    let root = repository_root(conn, repo_id);
                    assert(could_build(*conn, found@, *limits, capsule@));
                    Ok((root, touched))
                },
                Err(e) => Err(e),
            }
        },
        Ok(SymbolResolution::Ambiguous(payload)) => {
            let none: Vec<String> = Vec::new();
            assert(text::texts(none@).len() == 0);
            assert(symbols::could_be_ambiguous(
                *conn,
                symbol_name@,
                repo_id@,
                text::opt_str(filepath),
                payload@,
            ));
            Ok((String::new(), none))
        },
        Err(e) => Err(e),
    }
}

/// Whether a database could lead to this measurement for a symbol: of no file where the
/// name is ambiguous, else of the files that the one node's context touches.
pub open spec fn could_measure(
    db: rusqlite::Connection,
    symbol: Seq<char>,
    repo: Seq<char>,
    filepath: Option<Seq<char>>,
    files: Seq<SourceFile>,
    limits: Settings,
    m: PreciseTokenMeasurement,
) -> bool {
    ||| could_measure_as(db, symbol, repo, filepath, files, limits, true, m)
    ||| could_measure_as(db, symbol, repo, filepath, files, limits, false, m)
}

/// Whether a database could lead to this measurement for a symbol, whose name turns out
/// to be ambiguous or not.
pub open spec fn could_measure_as(
    db: rusqlite::Connection,
    symbol: Seq<char>,
    repo: Seq<char>,
    filepath: Option<Seq<char>>,
    files: Seq<SourceFile>,
    limits: Settings,
    ambiguous: bool,
    m: PreciseTokenMeasurement,
) -> bool {
    if ambiguous {
        exists|payload: Seq<char>|
            #[trigger] symbols::could_be_ambiguous(db, symbol, repo, filepath, payload)
                && files::is_measurement(m, Seq::empty(), Seq::empty())
    } else {
        exists|
            node: symbols::NodeText,
            capsule: CapsuleText,
            paths: Seq<Seq<char>>,
            has_root: bool,
        |
            {
                &&& symbols::could_be_unique(db, symbol, repo, filepath, node)
                &&& #[trigger] could_build(db, node, limits, capsule)
                &&& #[trigger] is_touched(paths, capsule)
                &&& could_have_root(db, repo, has_root)
                &&& files::is_measurement(
                    m,
                    #[trigger] files::counts_at(files, paths, has_root),
                    paths,
                )
            }
    }
}

/// Counts the tokens of the files that a symbol's context touches, each exactly; an
/// ambiguous name touches none.
pub fn measure_precise_tokens_touched_by_capsule(
    conn: &rusqlite::Connection,
    symbol_name: &str,
    repo_id: &str,
    filepath: Option<&str>,
    limits: &Settings,
    files: &Vec<SourceFile>,
) -> (r: Result<PreciseTokenMeasurement, MarrowError>)
    ensures
        match r {
            Ok(m) => could_measure(
                *conn,
                symbol_name@,
                repo_id@,
                text::opt_str(filepath),
                files@,
                *limits,
                m,
            ),
            Err(e) => could_not_explore(
                *conn,
                symbol_name@,
                repo_id@,
                text::opt_str(filepath),
                *limits,
                e,
            ),
        },
{
    match measure_symbol(conn, symbol_name, repo_id, filepath, limits, files) {
        Ok((m, _)) => Ok(m),
        Err(e) => Err(e),
    }
}

/// The count as [`measure_precise_tokens_touched_by_capsule`] gives it, and whether the
/// name was ambiguous.
pub fn measure_symbol(
    conn: &rusqlite::Connection,
    symbol_name: &str,
    repo_id: &str,
    filepath: Option<&str>,
    limits: &Settings,
    files: &Vec<SourceFile>,
) -> (r: Result<(PreciseTokenMeasurement, bool), MarrowError>)
    ensures
        match r {
            Ok((m, ambiguous)) => could_measure_as(
                *conn,
                symbol_name@,
                repo_id@,
                text::opt_str(filepath),
                files@,
                *limits,
                ambiguous,
                m,
            ),
            Err(e) => could_not_explore(
                *conn,
                symbol_name@,
                repo_id@,
                text::opt_str(filepath),
                *limits,
                e,
            ),
        },
{
    match resolve_symbol_or_disambiguate(conn, symbol_name, repo_id, filepath) {
        Ok(SymbolResolution::Unique(node)) => {
            let ghost found = node@;
            match build_context_capsule_from_resolved(conn, node, limits) {
                Ok(capsule) => {
                    let touched = touched_paths_for_capsule(&capsule);
                    let root = repository_root(conn, repo_id);
                    let has_root = !root.as_str().is_empty();
                    let m = measure_files(has_root, &touched, files);
                    assert(symbols::could_be_unique(
                        *conn,
                        symbol_name@,
                        repo_id@,
                        text::opt_str(filepath),
                        found,
                    ));
                    assert(could_build(*conn, found, *limits, capsule@));
                    assert(is_touched(text::texts(touched@), capsule@));
                    Ok((m, false))
                },
                Err(e) => Err(e),
            }
        },
        Ok(SymbolResolution::Ambiguous(payload)) => {
            assert(symbols::could_be_ambiguous(
                *conn,
                symbol_name@,
                repo_id@,
                text::opt_str(filepath),
                payload@,
            ));
            let nothing: Vec<String> = Vec::new();
            let m = measure_files(false, &nothing, files);
            assert(text::texts(nothing@) =~= Seq::<Seq<char>>::empty());
            assert(files::counts_at(files@, text::texts(nothing@), false) =~= Seq::empty());
            Ok((m, true))
        },
        Err(e) => Err(e),
    }
}

} // verus!
