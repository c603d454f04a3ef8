//! Tracing a symbol outward: its source and what it calls directly.
use crate::capsule;
use crate::capsule::{
    fetch_neighbors, format_neighbor_line, format_pivot_heading, pivot_node, plain_result,
    FULL_SOURCE,
};
use crate::model::{CapsuleResult, EdgeDirection, NeighborInfo, NodeInfo};
use crate::settings::Settings;
use crate::store::MarrowError;
use crate::symbols;
use crate::symbols::{resolve_symbol_or_disambiguate, SymbolResolution};
use crate::text;
use crate::text::count_text;
use vstd::prelude::*;
use vstd::string::*;

verus! {

pub const LEAF: &'static str =
    "── DIRECT CALLEES ─────────────────────────────────────────────\n  (leaf node — no direct outbound calls)\n";

pub const CALLEES_HEADING: &'static str =
    "\n── DIRECT CALLEES (immediate outbound dependencies) ─────────────\n";

/// `start` followed by the first `n` callees with their text.
pub open spec fn callees_listed(
    start: Seq<char>,
    all: Seq<capsule::NeighborText>,
    n: int,
) -> Seq<char>
    decreases n,
{
    if n <= 0 {
        start
    } else {
        callees_listed(start, all, n - 1) + (capsule::neighbor_line(all[n - 1])
            + all[n - 1].node.raw_text + "\n"@)
    }
}

/// A pivot's full source followed by its direct callees.
pub open spec fn trace_text(
    pivot: symbols::NodeText,
    callees: Seq<capsule::NeighborText>,
    max_outbound: usize,
) -> Seq<char> {
    let start = capsule::pivot_heading("TRACE FLOW"@, pivot) + FULL_SOURCE@ + pivot.raw_text
        + "\n"@;
    if callees.len() == 0 {
        start + LEAF@
    } else if callees.len() >= max_outbound {
        callees_listed(
            start + CALLEES_HEADING@ + "[Note: at most "@ + text::decimal(max_outbound as nat)
                + " outbound callees loaded; set MARROW_CAPSULE_MAX_OUTBOUND to raise.]\n\n"@,
            callees,
            callees.len() as int,
        )
    } else {
        callees_listed(start + CALLEES_HEADING@, callees, callees.len() as int)
    }
}

/// A pivot's full source followed by its direct callees.
pub fn format_trace(pivot: &NodeInfo, callees: &Vec<NeighborInfo>, max_outbound: usize) -> (r: String)
    ensures
        r@ == trace_text(pivot@, capsule::neighbor_texts(callees@), max_outbound),
{
    let ghost views = capsule::neighbor_texts(callees@);
    let mut out = format_pivot_heading("TRACE FLOW", pivot);
    out.append(FULL_SOURCE);
    out.append(&pivot.text);
    out.append("\n");
    if callees.len() == 0 {
        out.append(LEAF);
        return out;
    }
    out.append(CALLEES_HEADING);
    if callees.len() >= max_outbound {
        out.append("[Note: at most ");
        out.append(&count_text(max_outbound));
        out.append(
            " outbound callees loaded; set MARROW_CAPSULE_MAX_OUTBOUND to raise.]\n\n",
        );
    }
    let ghost start = out@;
    let mut i: usize = 0;
    while i < callees.len()
        invariant
            i <= callees.len(),
            views == capsule::neighbor_texts(callees@),
            out@ == callees_listed(start, views, i as int),
        decreases callees.len() - i,
    {
        let n = &callees[i];
        assert(views[i as int] == n@);
        let entry = format_neighbor_line(n).concat(&n.node.text).concat("\n");
        out.append(&entry);
        i += 1;
    }
    out
}

proof fn lemma_callees_listed(
    start: Seq<char>,
    all: Seq<capsule::NeighborText>,
    n: int,
    entry: spec_fn(capsule::NeighborText) -> Seq<char>,
)
    requires
        0 <= n <= all.len(),
        forall|c: capsule::NeighborText| #[trigger]
            entry(c) == capsule::neighbor_line(c) + c.node.raw_text + "\n"@,
    ensures
        callees_listed(start, all, n) == start + all.take(n).flat_map(entry),
    decreases n,
{
    if n > 0 {
        lemma_callees_listed(start, all, n - 1, entry);
        all.lemma_flat_map_take_append(entry, n - 1);
        assert(callees_listed(start, all, n) =~= start + all.take(n).flat_map(entry));
    } else {
        assert(all.take(0).flat_map(entry) =~= Seq::empty());
        assert(callees_listed(start, all, n) =~= start + all.take(n).flat_map(entry));
    }
}

/// Behind its heading a trace holds one entry for every callee, in their order, and
/// nothing else: the callee's relationship, name, language and file on a line, then its
/// text. Only where as many were loaded as may be does a note come first. A trace without
/// callees says that there are none.
pub proof fn law_traces_list_every_callee(
    pivot: symbols::NodeText,
    callees: Seq<capsule::NeighborText>,
    max_outbound: usize,
)
    ensures
        callees.len() == 0 ==> trace_text(pivot, callees, max_outbound) == "TRACE FLOW"@
            + " — pivot: "@ + pivot.symbol_name + " ("@ + pivot.language + ")\nFile : "@
            + pivot.file_path + "\nType : "@ + pivot.symbol_type + "\n"@
            + "\n── FULL SOURCE ──────────────────────────────────────────────\n"@
            + pivot.raw_text + "\n"@
            + "── DIRECT CALLEES ─────────────────────────────────────────────\n  (leaf node — no direct outbound calls)\n"@,
        callees.len() > 0 ==> trace_text(pivot, callees, max_outbound) == "TRACE FLOW"@ + " — pivot: "@
            + pivot.symbol_name + " ("@ + pivot.language + ")\nFile : "@ + pivot.file_path + "\nType : "@
            + pivot.symbol_type + "\n"@
            + "\n── FULL SOURCE ──────────────────────────────────────────────\n"@
            + pivot.raw_text + "\n"@
            + "\n── DIRECT CALLEES (immediate outbound dependencies) ─────────────\n"@ + (
        if callees.len() >= max_outbound {
            "[Note: at most "@ + text::decimal(max_outbound as nat)
                + " outbound callees loaded; set MARROW_CAPSULE_MAX_OUTBOUND to raise.]\n\n"@
        } else {
            Seq::empty()
        }) + callees.flat_map(
            |c: capsule::NeighborText|
                "  ["@ + c.relationship + "]  "@ + c.node.symbol_name + "  ("@ + c.node.language
                    + ")  "@ + c.node.file_path + "\n"@ + c.node.raw_text + "\n"@,
        ),
{
    let entry = |c: capsule::NeighborText|
        "  ["@ + c.relationship + "]  "@ + c.node.symbol_name + "  ("@ + c.node.language + ")  "@
            + c.node.file_path + "\n"@ + c.node.raw_text + "\n"@;
    assert(callees.take(callees.len() as int) =~= callees);
    let start = capsule::pivot_heading("TRACE FLOW"@, pivot) + FULL_SOURCE@ + pivot.raw_text
        + "\n"@ + CALLEES_HEADING@;
    let note = "[Note: at most "@ + text::decimal(max_outbound as nat)
        + " outbound callees loaded; set MARROW_CAPSULE_MAX_OUTBOUND to raise.]\n\n"@;
    assert(start + note =~= start + "[Note: at most "@ + text::decimal(max_outbound as nat)
        + " outbound callees loaded; set MARROW_CAPSULE_MAX_OUTBOUND to raise.]\n\n"@);
    lemma_callees_listed(start, callees, callees.len() as int, entry);
    lemma_callees_listed(start + note, callees, callees.len() as int, entry);
    text::lemma_put_together(start, start, start);
    assert(callees.len() > 0 ==> trace_text(pivot, callees, max_outbound) =~= start + (if callees.len() >= max_outbound {
        note
    } else {
        Seq::empty()
    }) + callees.flat_map(entry));
}

/// Whether a database could lead to this trace of a symbol: the list of candidates
/// where the name is ambiguous, else the trace of the one node.
pub open spec fn could_trace(
    db: rusqlite::Connection,
    symbol: Seq<char>,
    repo: Seq<char>,
    filepath: Option<Seq<char>>,
    limits: Settings,
    r: CapsuleResult,
) -> bool {
    ||| could_trace_as(db, symbol, repo, filepath, limits, true, r)
    ||| could_trace_as(db, symbol, repo, filepath, limits, false, r)
}

/// Whether a database could lead to this trace of a symbol, whose name turns out to be
/// ambiguous or not.
pub open spec fn could_trace_as(
    db: rusqlite::Connection,
    symbol: Seq<char>,
    repo: Seq<char>,
    filepath: Option<Seq<char>>,
    limits: Settings,
    ambiguous: bool,
    r: CapsuleResult,
) -> bool {
    if ambiguous {
        exists|payload: Seq<char>|
            {
                &&& #[trigger] symbols::could_be_ambiguous(db, symbol, repo, filepath, payload)
                &&& capsule::is_plain_result(
                    r,
                    payload,
                    payload,
                    "unavailable"@,
                    "none"@,
                    None,
                    limits,
                )
            }
    } else {
        exists|node: symbols::NodeText, callees: Seq<capsule::NeighborText>|
            {
                &&& #[trigger] symbols::could_be_unique(db, symbol, repo, filepath, node)
                &&& #[trigger] capsule::could_neighbor(
                    db,
                    node.id,
                    EdgeDirection::Outbound,
                    limits.max_outbound,
                    callees,
                )
                &&& capsule::is_plain_result(
                    r,
                    trace_text(node, callees, limits.max_outbound),
                    Seq::empty(),
                    "trace_output"@,
                    "none"@,
                    None,
                    limits,
                )
            }
    }
}

/// The trace of a name that one node has is that node's, with what the database could
/// name at the other end of the edges that start at it; it takes no raw text, and its
/// tokens are counted by its bytes.
pub proof fn law_traces_follow_outgoing_edges(
    db: rusqlite::Connection,
    symbol: Seq<char>,
    repo: Seq<char>,
    filepath: Option<Seq<char>>,
    limits: Settings,
    r: CapsuleResult,
)
    requires
        could_trace_as(db, symbol, repo, filepath, limits, false, r),
    ensures
        r.original_text@.len() == 0,
        r.file_tokens == text::bytes(r.optimized_text@) / 4,
        r.proof_snapshot is None,
        exists|node: symbols::NodeText, callees: Seq<capsule::NeighborText>|
            {
                &&& #[trigger] symbols::could_match(db, symbol, repo, filepath, seq![node])
                &&& #[trigger] capsule::could_neighbor(
                    db,
                    node.id,
                    EdgeDirection::Outbound,
                    limits.max_outbound,
                    callees,
                )
                &&& r.optimized_text@ == trace_text(node, callees, limits.max_outbound)
            },
{
    let (node, callees) = choose|node: symbols::NodeText, callees: Seq<capsule::NeighborText>|
        {
            &&& #[trigger] symbols::could_be_unique(db, symbol, repo, filepath, node)
            &&& #[trigger] capsule::could_neighbor(
                db,
                node.id,
                EdgeDirection::Outbound,
                limits.max_outbound,
                callees,
            )
            &&& capsule::is_plain_result(
                r,
                trace_text(node, callees, limits.max_outbound),
                Seq::empty(),
                "trace_output"@,
                "none"@,
                None,
                limits,
            )
        };
    assert(symbols::could_match(db, symbol, repo, filepath, seq![node]));
}

/// Whether a database could lead to this error for a symbol: nothing of that name is
/// there, or a statement was refused that finds the node or what it calls.
pub open spec fn could_not_trace(
    db: rusqlite::Connection,
    symbol: Seq<char>,
    repo: Seq<char>,
    filepath: Option<Seq<char>>,
    limits: Settings,
    e: MarrowError,
) -> bool {
    match e {
        MarrowError::Message(m) => symbols::could_be_missing(db, symbol, repo, filepath, m@),
        MarrowError::Store(why) => {
            ||| symbols::could_not_look_up(db, symbol, repo, filepath, why)
            ||| exists|node: symbols::NodeText|
                {
                    &&& #[trigger] symbols::could_be_unique(db, symbol, repo, filepath, node)
                    &&& capsule::could_not_neighbor(
                        db,
                        node.id,
                        EdgeDirection::Outbound,
                        limits.max_outbound,
                        why,
                    )
                }
        },
    }
}

/// Traces a symbol outward: its full source and what it calls directly, without its
/// callers.
pub fn trace_logic_flow(
    conn: &rusqlite::Connection,
    symbol_name: &str,
    repo_id: &str,
    filepath: Option<&str>,
    limits: &Settings,
) -> (r: Result<CapsuleResult, MarrowError>)
    ensures
        match r {
            Ok(result) => could_trace(
                *conn,
                symbol_name@,
                repo_id@,
                text::opt_str(filepath),
                *limits,
                result,
            ),
            Err(e) => could_not_trace(
                *conn,
                symbol_name@,
                repo_id@,
                text::opt_str(filepath),
                *limits,
                e,
            ),
        },
{
    match trace_symbol(conn, symbol_name, repo_id, filepath, limits) {
        Ok((result, _)) => Ok(result),
        Err(e) => Err(e),
    }
}

/// The trace as [`trace_logic_flow`] gives it, and whether the name was ambiguous.
pub fn trace_symbol(
    conn: &rusqlite::Connection,
    symbol_name: &str,
    repo_id: &str,
    filepath: Option<&str>,
    limits: &Settings,
) -> (r: Result<(CapsuleResult, bool), MarrowError>)
    ensures
        match r {
            Ok((result, ambiguous)) => could_trace_as(
                *conn,
                symbol_name@,
                repo_id@,
                text::opt_str(filepath),
                *limits,
                ambiguous,
                result,
            ),
            Err(e) => could_not_trace(
                *conn,
                symbol_name@,
                repo_id@,
                text::opt_str(filepath),
                *limits,
                e,
            ),
        },
{
    let ghost path = text::opt_str(filepath);
    match resolve_symbol_or_disambiguate(conn, symbol_name, repo_id, filepath) {
        Ok(SymbolResolution::Unique(node)) => {
            let pivot = pivot_node(node);
            assert(symbols::could_be_unique(*conn, symbol_name@, repo_id@, path, pivot@));
            match fetch_neighbors(conn, &pivot.id, EdgeDirection::Outbound, limits.max_outbound) {
                Ok(callees) => {
                    let shown = format_trace(&pivot, &callees, limits.max_outbound);
                    let result = plain_result(
                        shown,
                        String::new(),
                        "trace_output",
                        "none",
                        None,
                        limits,
                    );
                    assert(capsule::could_neighbor(
                        *conn,
                        pivot@.id,
                        EdgeDirection::Outbound,
                        limits.max_outbound,
                        capsule::neighbor_texts(callees@),
                    ));
                    Ok((result, false))
                },
                Err(e) => Err(e),
            }
        },
        Ok(SymbolResolution::Ambiguous(payload)) => {
            let result = plain_result(
                payload.clone(),
                payload.clone(),
                "unavailable",
                "none",
                None,
                limits,
            );
            assert(symbols::could_be_ambiguous(*conn, symbol_name@, repo_id@, path, payload@));
            Ok((result, true))
        },
        Err(e) => Err(e),
    }
}

} // verus!
