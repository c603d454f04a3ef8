//! The dependency graph of a symbol as text.
use crate::condense;
use crate::condense::condense;
use crate::files;
use crate::model::{DependencyDirection, DependencyGraphOptions, NodeBrief};
use crate::order::listed;
use crate::scan;
use crate::scan::lines_of;
use crate::reach;
use crate::settings::Settings;
use crate::store::MarrowError;
use crate::symbols;
use crate::symbols::{resolve_symbol_or_disambiguate, SymbolResolution};
use crate::text;
use crate::text::{byte_len, count_text, prefix_by_bytes, repeat};
use crate::walk;
use crate::walk::{traverse_dependency_direction, GraphEntry, Traversal};
use vstd::prelude::*;
use vstd::string::*;

verus! {

// ── Entries ──────────────────────────────────────────────────────────────────

/// `start` followed by the first `n` lines, each behind `indent`.
pub open spec fn indented(start: Seq<char>, indent: Seq<char>, ls: Seq<Seq<char>>, n: int) -> Seq<
    char,
>
    decreases n,
{
    if n <= 0 {
        start
    } else {
        indented(start, indent, ls, n - 1) + (indent + ls[n - 1] + "\n"@)
    }
}

/// `start` followed by the condensed source of a node, each line behind `indent`.
pub open spec fn with_source(start: Seq<char>, node: symbols::NodeText, indent: Seq<char>) -> Seq<
    char,
> {
    let ls = scan::lines(condense::condensed(node.raw_text, node.language));
    indented(start + (indent + "SOURCE:\n"@), indent, ls, ls.len() as int)
}

/// Appends the condensed source of a node, each line behind `indent`.
pub fn append_condensed_source(out: &mut String, node: &NodeBrief, indent: &str)
    ensures
        final(out)@ == with_source(old(out)@, node@, indent@),
{
    let source = condense(&node.raw_text, &node.language);
    out.append(&indent.to_owned().concat("SOURCE:\n"));
    let ls = lines_of(&source);
    let ghost start = out@;
    let ghost views = text::texts(ls@);
    let mut i: usize = 0;
    while i < ls.len()
        invariant
            i <= ls.len(),
            views == text::texts(ls@),
            out@ == indented(start, indent@, views, i as int),
        decreases ls.len() - i,
    {
        assert(views[i as int] == ls@[i as int]@);
        out.append(&indent.to_owned().concat(&ls[i]).concat("\n"));
        i += 1;
    }
}

/// The line of an entry.
pub open spec fn entry_line(e: walk::EntryText, indent: Seq<char>) -> Seq<char> {
    indent + "- [d"@ + text::decimal(e.depth as nat) + "] ["@ + e.relationship + "] "@
        + e.node.symbol_name + " ("@ + e.node.symbol_type + ") — "@ + e.node.file_path + (
    if e.already_seen {
        " (already seen)"@
    } else {
        ""@
    }) + "\n"@
}

/// `start` followed by the line of an entry, and the source of one met first here.
pub open spec fn with_entry(start: Seq<char>, e: walk::EntryText, source: bool, level: nat) -> Seq<
    char,
> {
    let indent = text::repeated("  "@, level);
    let line = start + entry_line(e, indent);
    if source && !e.already_seen {
        with_source(line, e.node, indent + "  "@)
    } else {
        line
    }
}

/// `start` followed by an entry and everything reached through it.
pub open spec fn with_tree(
    start: Seq<char>,
    all: Seq<walk::EntryText>,
    index: int,
    source: bool,
    level: nat,
) -> Seq<char>
    decreases all.len() - index, all.len() + 1,
{
    with_children(
        with_entry(start, all[index], source, level),
        all,
        index,
        source,
        level,
        all.len() as int,
    )
}

/// `start` followed by what is reached directly from an entry, among the first `n`
/// entries, each with everything reached through it.
pub open spec fn with_children(
    start: Seq<char>,
    all: Seq<walk::EntryText>,
    index: int,
    source: bool,
    level: nat,
    n: int,
) -> Seq<char>
    decreases all.len() - index, n,
{
    if n <= 0 {
        start
    } else {
        let head = with_children(start, all, index, source, level, n - 1);
        if index < n - 1 < all.len() && all[n - 1].parent == Some(index) {
            with_tree(head, all, n - 1, source, level + 1)
        } else {
            head
        }
    }
}

/// `start` followed by the trees of the entries, among the first `n`, that were
/// reached from the root.
pub open spec fn with_trees(start: Seq<char>, all: Seq<walk::EntryText>, source: bool, n: int) -> Seq<
    char,
>
    decreases n,
{
    if n <= 0 {
        start
    } else {
        let head = with_trees(start, all, source, n - 1);
        if all[n - 1].parent is None {
            with_tree(head, all, n - 1, source, 1)
        } else {
            head
        }
    }
}

/// `start` followed by a titled section of entries.
pub open spec fn with_section(
    start: Seq<char>,
    title: Seq<char>,
    all: Seq<walk::EntryText>,
    source: bool,
) -> Seq<char> {
    let headed = start + ("\n"@ + title + "\n"@);
    if all.len() == 0 {
        headed + "  (none)\n"@
    } else {
        with_trees(headed, all, source, all.len() as int)
    }
}

/// Appends an entry and everything reached through it.
fn append_graph_entry_tree(
    out: &mut String,
    entries: &Vec<GraphEntry>,
    index: usize,
    include_source: bool,
    level: usize,
)
    requires
        walk::well_nested(walk::entry_texts(entries@)),
        index < entries.len(),
        level <= index + 1,
    ensures
        final(out)@ == with_tree(
            old(out)@,
            walk::entry_texts(entries@),
            index as int,
            include_source,
            level as nat,
        ),
    decreases entries.len() - index,
{
    let ghost all = walk::entry_texts(entries@);
    let ghost first = out@;
    let entry = &entries[index];
    assert(all[index as int] == entry@);
    let indent = repeat("  ", level);
    let seen: &str = if entry.already_seen {
        " (already seen)"
    } else {
        ""
    };
    let line = indent.clone().concat("- [d").concat(&count_text(entry.depth)).concat(
        "] [",
    ).concat(&entry.relationship_type).concat("] ").concat(&entry.node.symbol_name).concat(
        " (",
    ).concat(&entry.node.symbol_type).concat(") — ").concat(&entry.node.file_path).concat(
        seen,
    ).concat("\n");
    out.append(&line);
    if include_source && !entry.already_seen {
        append_condensed_source(out, &entry.node, &indent.concat("  "));
    }
    let ghost start = with_entry(first, all[index as int], include_source, level as nat);
    let mut child: usize = 0;
    while child < entries.len()
        invariant
            child <= entries.len(),
            all == walk::entry_texts(entries@),
            walk::well_nested(all),
            index < entries.len(),
            level <= index + 1,
            out@ == with_children(
                start,
                all,
                index as int,
                include_source,
                level as nat,
                child as int,
            ),
        decreases entries.len() - child,
    {
        assert(all[child as int] == entries@[child as int]@);
        let is_child = match entries[child].parent_index {
            Some(p) => p == index,
            None => false,
        };
        if is_child {
            append_graph_entry_tree(out, entries, child, include_source, level + 1);
        }
        child += 1;
    }
}

/// Appends a titled section of entries.
pub fn append_graph_entries(
    out: &mut String,
    title: &str,
    entries: &Vec<GraphEntry>,
    include_source: bool,
)
    requires
        walk::well_nested(walk::entry_texts(entries@)),
    ensures
        final(out)@ == with_section(
            old(out)@,
            title@,
            walk::entry_texts(entries@),
            include_source,
        ),
{
    let ghost all = walk::entry_texts(entries@);
    out.append(&"\n".to_owned().concat(title).concat("\n"));
    if entries.len() == 0 {
        out.append("  (none)\n");
        return;
    }
    let ghost start = out@;
    let mut i: usize = 0;
    while i < entries.len()
        invariant
            i <= entries.len(),
            all == walk::entry_texts(entries@),
            walk::well_nested(all),
            out@ == with_trees(start, all, include_source, i as int),
        decreases entries.len() - i,
    {
        assert(all[i as int] == entries@[i as int]@);
        if entries[i].parent_index.is_none() {
            append_graph_entry_tree(out, entries, i, include_source, 1);
        }
        i += 1;
    }
}

// ── Counting ─────────────────────────────────────────────────────────────────

/// The different nodes among a root and the first `n` entries.
pub open spec fn different(root: Seq<char>, all: Seq<walk::EntryText>, n: int) -> Seq<Seq<char>>
    decreases n,
{
    if n <= 0 {
        seq![root]
    } else {
        let head = different(root, all, n - 1);
        if head.contains(all[n - 1].node.id) {
            head
        } else {
            head.push(all[n - 1].node.id)
        }
    }
}

/// The different nodes of a graph.
pub open spec fn node_count(
    root: Seq<char>,
    callers: Seq<walk::EntryText>,
    callees: Seq<walk::EntryText>,
) -> nat {
    let all = callers + callees;
    different(root, all, all.len() as int).len()
}

proof fn lemma_different(
    root: Seq<char>,
    all: Seq<walk::EntryText>,
    visited: Seq<Seq<char>>,
    n: int,
)
    requires
        0 <= n <= all.len(),
        visited.contains(root),
        forall|i: int| 0 <= i < all.len() ==> visited.contains((#[trigger] all[i]).node.id),
    ensures
        different(root, all, n).no_duplicates(),
        forall|t: Seq<char>| #[trigger] different(root, all, n).contains(t) ==> visited.contains(t),
    decreases n,
{
    if n > 0 {
        lemma_different(root, all, visited, n - 1);
        let head = different(root, all, n - 1);
        let id = all[n - 1].node.id;
        assert forall|t: Seq<char>| #[trigger] different(root, all, n).contains(t) implies
            visited.contains(t) by {
            if !head.contains(t) {
                let k = choose|k: int|
                    0 <= k < different(root, all, n).len() && different(root, all, n)[k] == t;
                if k < head.len() {
                    assert(head[k] == t);
                }
                assert(t == id);
            }
        }
    }
}

/// A graph whose nodes were all met on its walks has no more different nodes than
/// were met.
pub proof fn law_graph_nodes_were_met(
    root: Seq<char>,
    callers: Seq<walk::EntryText>,
    callees: Seq<walk::EntryText>,
    visited: Seq<Seq<char>>,
)
    requires
        visited.no_duplicates(),
        visited.contains(root),
        forall|i: int| 0 <= i < callers.len() ==> visited.contains((#[trigger] callers[i]).node.id),
        forall|i: int| 0 <= i < callees.len() ==> visited.contains((#[trigger] callees[i]).node.id),
    ensures
        1 <= node_count(root, callers, callees) <= visited.len(),
{
    let all = callers + callees;
    let n = all.len() as int;
    assert forall|i: int| 0 <= i < all.len() implies visited.contains(
        (#[trigger] all[i]).node.id,
    ) by {
        if i < callers.len() {
            assert(all[i] == callers[i]);
        } else {
            assert(all[i] == callees[i - callers.len()]);
        }
    }
    lemma_different(root, all, visited, n);
    let d = different(root, all, n);
    lemma_different_nonempty(root, all, n);
    d.unique_seq_to_set();
    visited.unique_seq_to_set();
    vstd::seq_lib::seq_to_set_is_finite(visited);
    assert(d.to_set().subset_of(visited.to_set())) by {
        assert forall|t: Seq<char>| d.to_set().contains(t) implies visited.to_set().contains(
            t,
        ) by {
            assert(d.contains(t));
        }
    }
    vstd::set_lib::lemma_len_subset(d.to_set(), visited.to_set());
}

proof fn lemma_different_nonempty(root: Seq<char>, all: Seq<walk::EntryText>, n: int)
    ensures
        different(root, all, n).len() >= 1,
    decreases n,
{
    if n > 0 {
        lemma_different_nonempty(root, all, n - 1);
    }
}

fn add_different(
    ids: &mut Vec<String>,
    entries: &Vec<GraphEntry>,
    Ghost(root): Ghost<Seq<char>>,
    Ghost(all): Ghost<Seq<walk::EntryText>>,
    Ghost(from): Ghost<int>,
)
    requires
        0 <= from,
        from + entries.len() <= all.len(),
        forall|i: int| 0 <= i < entries.len() ==> all[from + i] == (#[trigger] entries@[i])@,
        text::texts(old(ids)@) == different(root, all, from),
    ensures
        text::texts(final(ids)@) == different(root, all, from + entries.len()),
{
    let mut i: usize = 0;
    while i < entries.len()
        invariant
            i <= entries.len(),
            0 <= from,
            from + entries.len() <= all.len(),
            forall|k: int| 0 <= k < entries.len() ==> all[from + k] == (#[trigger] entries@[k])@,
            text::texts(ids@) == different(root, all, from + i),
        decreases entries.len() - i,
    {
        let id = &entries[i].node.id;
        assert(all[from + i] == entries@[i as int]@);
        let ghost before = ids@;
        if !listed(ids, id) {
            ids.push(id.clone());
            proof {
                text::lemma_texts_push(before, *id);
            }
        }
        i += 1;
    }
}

/// How many different nodes a graph has.
pub fn count_nodes(root_id: &str, callers: &Vec<GraphEntry>, callees: &Vec<GraphEntry>) -> (r: usize)
    ensures
        r == node_count(
            root_id@,
            walk::entry_texts(callers@),
            walk::entry_texts(callees@),
        ),
{
    let ghost all = walk::entry_texts(callers@) + walk::entry_texts(callees@);
    let mut ids: Vec<String> = Vec::new();
    ids.push(root_id.to_owned());
    assert(text::texts(ids@) =~= different(root_id@, all, 0));
    add_different(&mut ids, callers, Ghost(root_id@), Ghost(all), Ghost(0));
    add_different(
        &mut ids,
        callees,
        Ghost(root_id@),
        Ghost(all),
        Ghost(callers.len() as int),
    );
    assert(text::texts(ids@).len() == ids.len());
    ids.len()
}

// ── The whole ────────────────────────────────────────────────────────────────

/// What a boolean is called.
pub open spec fn answer_name(value: bool) -> Seq<char> {
    if value {
        "yes"@
    } else {
        "no"@
    }
}

/// What a boolean is called.
pub fn yes_no(value: bool) -> (r: &'static str)
    ensures
        r@ == answer_name(value),
{
    if value {
        "yes"
    } else {
        "no"
    }
}

/// A graph without its representation.
pub struct GraphText {
    pub root: symbols::NodeText,
    pub callers: Seq<walk::EntryText>,
    pub callees: Seq<walk::EntryText>,
    pub edges: int,
    pub truncated: bool,
}

/// Whether a direction leads to callers.
pub open spec fn shows_callers(direction: DependencyDirection) -> bool {
    direction != DependencyDirection::Callees
}

/// Whether a direction leads to callees.
pub open spec fn shows_callees(direction: DependencyDirection) -> bool {
    direction != DependencyDirection::Callers
}

/// A graph's text without its summary.
pub open spec fn graph_body(
    g: GraphText,
    depth: usize,
    direction: DependencyDirection,
    source: bool,
) -> Seq<char> {
    let head = "DEPENDENCY GRAPH — "@ + g.root.symbol_name + " (depth="@ + text::decimal(
        depth as nat,
    ) + ", direction="@ + direction.name() + ")\n\nROOT: "@ + g.root.symbol_name + " ("@
        + g.root.symbol_type + ") — "@ + g.root.file_path + "\n"@;
    let t1 = if source {
        with_source(head, g.root, "  "@)
    } else {
        head
    };
    let t2 = if shows_callers(direction) {
        with_section(t1, "CALLERS (inbound):"@, g.callers, source)
    } else {
        t1
    };
    if shows_callees(direction) {
        with_section(t2, "CALLEES (outbound):"@, g.callees, source)
    } else {
        t2
    }
}

/// The last line of a graph.
pub open spec fn graph_summary(g: GraphText, output_truncated: bool) -> Seq<char> {
    "\n"@ + text::decimal(node_count(g.root.id, g.callers, g.callees)) + " nodes, "@
        + text::decimal(g.edges as nat) + " edges. Traversal truncated: "@ + answer_name(
        g.truncated,
    ) + ". Output truncated: "@ + answer_name(output_truncated) + "."@
}

/// A body and its summary cut to at most `max_bytes` bytes: where they do not fit,
/// the end gives way to a note and the summary.
pub open spec fn capped_graph(
    body: Seq<char>,
    fits: Seq<char>,
    cut: Seq<char>,
    max_bytes: usize,
) -> Seq<char> {
    if text::bytes(body) + text::bytes(fits) <= max_bytes {
        body + fits
    } else {
        let note = "\n[Dependency graph output truncated at "@ + text::decimal(max_bytes as nat)
            + " bytes.]"@ + cut;
        if text::bytes(note) >= max_bytes {
            text::byte_prefix(note, max_bytes as int)
        } else {
            text::byte_prefix(body + cut, max_bytes - text::bytes(note)) + note
        }
    }
}

/// A graph as text, at most `max_bytes` bytes long.
pub open spec fn graph_text(
    g: GraphText,
    depth: usize,
    direction: DependencyDirection,
    source: bool,
    max_bytes: usize,
) -> Seq<char> {
    capped_graph(
        graph_body(g, depth, direction, source),
        graph_summary(g, false),
        graph_summary(g, true),
        max_bytes,
    )
}

/// A dependency graph never takes more bytes than it may.
pub proof fn law_graph_fits_its_limit(
    g: GraphText,
    depth: usize,
    direction: DependencyDirection,
    source: bool,
    max_bytes: usize,
)
    ensures
        text::bytes(graph_text(g, depth, direction, source, max_bytes)) <= max_bytes,
{
    let body = graph_body(g, depth, direction, source);
    let fits = graph_summary(g, false);
    let cut = graph_summary(g, true);
    text::lemma_bytes_concat(body, fits);
    let note = "\n[Dependency graph output truncated at "@ + text::decimal(max_bytes as nat)
        + " bytes.]"@ + cut;
    text::lemma_byte_prefix(note, max_bytes as int);
    if text::bytes(note) < max_bytes {
        let room = max_bytes - text::bytes(note);
        text::lemma_byte_prefix(body + cut, room);
        text::lemma_bytes_concat(text::byte_prefix(body + cut, room), note);
    }
}

fn format_summary(nodes: usize, edges: usize, truncated: bool, output_truncated: bool) -> (r: String)
    ensures
        r@ == "\n"@ + text::decimal(nodes as nat) + " nodes, "@ + text::decimal(edges as nat)
            + " edges. Traversal truncated: "@ + answer_name(truncated)
            + ". Output truncated: "@ + answer_name(output_truncated) + "."@,
{
    "\n".to_owned().concat(&count_text(nodes)).concat(" nodes, ").concat(
        &count_text(edges),
    ).concat(" edges. Traversal truncated: ").concat(yes_no(truncated)).concat(
        ". Output truncated: ",
    ).concat(yes_no(output_truncated)).concat(".")
}

/// A graph as text.
pub fn format_dependency_graph(
    root: &NodeBrief,
    callers: &Vec<GraphEntry>,
    callees: &Vec<GraphEntry>,
    edge_count: usize,
    truncated: bool,
    options: &DependencyGraphOptions,
) -> (r: String)
    requires
        walk::well_nested(walk::entry_texts(callers@)),
        walk::well_nested(walk::entry_texts(callees@)),
    ensures
        r@ == graph_text(
            (GraphText {
                root: root@,
                callers: walk::entry_texts(callers@),
                callees: walk::entry_texts(callees@),
                edges: edge_count as int,
                truncated,
            }),
            options.depth,
            options.direction,
            options.include_source,
            options.max_bytes,
        ),
        text::bytes(r@) <= options.max_bytes,
{
    let ghost g = GraphText {
        root: root@,
        callers: walk::entry_texts(callers@),
        callees: walk::entry_texts(callees@),
        edges: edge_count as int,
        truncated,
    };
    proof {
        law_graph_fits_its_limit(
            g,
            options.depth,
            options.direction,
            options.include_source,
            options.max_bytes,
        );
    }
    let max = options.max_bytes;
    let mut out = "DEPENDENCY GRAPH — ".to_owned().concat(&root.symbol_name).concat(
        " (depth=",
    ).concat(&count_text(options.depth)).concat(", direction=").concat(
        options.direction.label(),
    ).concat(")\n\nROOT: ").concat(&root.symbol_name).concat(" (").concat(
        &root.symbol_type,
    ).concat(") — ").concat(&root.file_path).concat("\n");
    if options.include_source {
        append_condensed_source(&mut out, root, "  ");
    }
    if options.direction != DependencyDirection::Callees {
        append_graph_entries(&mut out, "CALLERS (inbound):", callers, options.include_source);
    }
    if options.direction != DependencyDirection::Callers {
        append_graph_entries(&mut out, "CALLEES (outbound):", callees, options.include_source);
    }
    let nodes = count_nodes(&root.id, callers, callees);
    let fits = format_summary(nodes, edge_count, truncated, false);
    let used = byte_len(&out);
    if used <= max && byte_len(&fits) <= max - used {
        return out.concat(&fits);
    }
    let cut = format_summary(nodes, edge_count, truncated, true);
    let note = "\n[Dependency graph output truncated at ".to_owned().concat(
        &count_text(max),
    ).concat(" bytes.]").concat(&cut);
    let note_len = byte_len(&note);
    if note_len >= max {
        return prefix_by_bytes(&note, max);
    }
    let whole = out.concat(&cut);
    prefix_by_bytes(&whole, max - note_len).concat(&note)
}

/// The options as they are applied: within the limits, and never nothing.
pub open spec fn clamped(asked: usize, limit: usize) -> usize {
    let low = if asked < limit {
        asked
    } else {
        limit
    };
    if low == 0 {
        1
    } else {
        low
    }
}

fn clamp(asked: usize, limit: usize) -> (r: usize)
    ensures
        r == clamped(asked, limit),
        r >= 1,
{
    let low: usize = if asked < limit {
        asked
    } else {
        limit
    };
    if low == 0 {
        1
    } else {
        low
    }
}

/// Whether a walk in a direction that may be left out could end so.
pub open spec fn could_traverse(
    db: rusqlite::Connection,
    active: bool,
    direction: DependencyDirection,
    max_depth: int,
    max_nodes: int,
    root: Seq<char>,
    visited: Seq<Seq<char>>,
    truncated: bool,
    finish: walk::Walk,
) -> bool {
    if active {
        walk::could_walk(
            db,
            walk::Course::Towards(direction),
            max_depth,
            max_nodes,
            walk::start_walk(root, visited, truncated),
            finish,
        )
    } else {
        &&& finish.entries.len() == 0
        &&& finish.edges == 0
        &&& finish.visited == visited
        &&& finish.truncated == truncated
    }
}

/// Whether two walks could give a root this graph: callers first, then callees
/// among what the callers' walk has not met.
pub open spec fn could_span(
    db: rusqlite::Connection,
    g: GraphText,
    depth: usize,
    direction: DependencyDirection,
    max_nodes: usize,
    up: walk::Walk,
    down: walk::Walk,
) -> bool {
    &&& could_traverse(
        db,
        shows_callers(direction),
        DependencyDirection::Callers,
        depth as int,
        max_nodes as int,
        g.root.id,
        seq![g.root.id],
        false,
        up,
    )
    &&& could_traverse(
        db,
        shows_callees(direction),
        DependencyDirection::Callees,
        depth as int,
        max_nodes as int,
        g.root.id,
        up.visited,
        up.truncated,
        down,
    )
    &&& g.callers == up.entries
    &&& g.callees == down.entries
    &&& g.edges == files::capped_sum(up.edges, down.edges)
    &&& g.truncated == down.truncated
}

/// A graph that walks of at most `depth` steps could give nests properly, reaches no
/// deeper, and has at most `max_nodes` different nodes.
pub proof fn law_graphs_are_bounded(
    db: rusqlite::Connection,
    g: GraphText,
    depth: usize,
    direction: DependencyDirection,
    max_nodes: usize,
    up: walk::Walk,
    down: walk::Walk,
)
    requires
        could_span(db, g, depth, direction, max_nodes, up, down),
        max_nodes >= 1,
    ensures
        walk::well_nested(g.callers),
        walk::well_nested(g.callees),
        forall|i: int| 0 <= i < g.callers.len() ==> 1 <= (#[trigger] g.callers[i]).depth <= depth,
        forall|i: int| 0 <= i < g.callees.len() ==> 1 <= (#[trigger] g.callees[i]).depth <= depth,
        1 <= node_count(g.root.id, g.callers, g.callees) <= max_nodes,
{
    let root = g.root.id;
    let first = seq![root];
    assert(first[0] == root);
    assert(first.contains(root));
    assert(first.no_duplicates());
    if shows_callers(direction) {
        walk::law_walks_are_bounded(
            db,
            walk::Course::Towards(DependencyDirection::Callers),
            depth as int,
            max_nodes as int,
            root,
            first,
            false,
            up,
        );
        lemma_walk_keeps_visited(
            db,
            walk::Course::Towards(DependencyDirection::Callers),
            depth as int,
            max_nodes as int,
            walk::start_walk(root, first, false),
            up,
        );
    }
    assert(up.visited.contains(root));
    assert(up.visited.no_duplicates());
    assert(up.visited.len() <= max_nodes);
    assert forall|i: int| 0 <= i < g.callers.len() implies up.visited.contains(
        (#[trigger] g.callers[i]).node.id,
    ) by {}
    if shows_callees(direction) {
        walk::law_walks_are_bounded(
            db,
            walk::Course::Towards(DependencyDirection::Callees),
            depth as int,
            max_nodes as int,
            root,
            up.visited,
            up.truncated,
            down,
        );
        lemma_walk_keeps_visited(
            db,
            walk::Course::Towards(DependencyDirection::Callees),
            depth as int,
            max_nodes as int,
            walk::start_walk(root, up.visited, up.truncated),
            down,
        );
    }
    assert(down.visited.no_duplicates());
    assert(down.visited.len() <= max_nodes);
    assert(down.visited.contains(root));
    assert forall|i: int| 0 <= i < g.callers.len() implies down.visited.contains(
        (#[trigger] g.callers[i]).node.id,
    ) by {
        assert(up.visited.contains(g.callers[i].node.id));
    }
    law_graph_nodes_were_met(root, g.callers, g.callees, down.visited);
}

proof fn lemma_meet_keeps_visited(
    w: walk::Walk,
    from: walk::Visit,
    edges: Seq<walk::EdgeText>,
    max_nodes: int,
    n: int,
    t: Seq<char>,
)
    requires
        w.visited.contains(t),
    ensures
        walk::meet_upto(w, from, edges, max_nodes, n).visited.contains(t),
    decreases n,
{
    if n > 0 {
        lemma_meet_keeps_visited(w, from, edges, max_nodes, n - 1, t);
        let a = walk::meet_upto(w, from, edges, max_nodes, n - 1);
        let b = walk::meet_upto(w, from, edges, max_nodes, n);
        let k = choose|k: int| 0 <= k < a.visited.len() && a.visited[k] == t;
        assert(b.visited[k] == t);
    }
}

proof fn lemma_trace_keeps_visited(
    db: rusqlite::Connection,
    course: walk::Course,
    max_depth: int,
    max_nodes: int,
    trace: Seq<walk::Walk>,
    n: int,
    t: Seq<char>,
)
    requires
        walk::is_trace(db, course, max_depth, max_nodes, trace),
        trace[0].visited.contains(t),
        0 <= n < trace.len(),
    ensures
        trace[n].visited.contains(t),
    decreases n,
{
    if n > 0 {
        lemma_trace_keeps_visited(db, course, max_depth, max_nodes, trace, n - 1, t);
        let a = trace[n - 1];
        let b = trace[n];
        assert(walk::steps(db, course, max_depth, max_nodes, a, b));
        if a.queue[0].depth < max_depth {
            let edges = choose|edges: Seq<walk::EdgeText>|
                {
                    &&& #[trigger] walk::could_fetch(db, course, a.queue[0].id, edges)
                    &&& b == walk::meet_upto(
                        walk::popped(a),
                        a.queue[0],
                        edges,
                        max_nodes,
                        edges.len() as int,
                    )
                };
            lemma_meet_keeps_visited(
                walk::popped(a),
                a.queue[0],
                edges,
                max_nodes,
                edges.len() as int,
                t,
            );
        }
    }
}

proof fn lemma_walk_keeps_visited(
    db: rusqlite::Connection,
    course: walk::Course,
    max_depth: int,
    max_nodes: int,
    start: walk::Walk,
    finish: walk::Walk,
)
    requires
        walk::could_walk(db, course, max_depth, max_nodes, start, finish),
    ensures
        forall|t: Seq<char>| start.visited.contains(t) ==> #[trigger] finish.visited.contains(t),
{
    let trace = choose|trace: Seq<walk::Walk>|
        {
            &&& #[trigger] walk::is_trace(db, course, max_depth, max_nodes, trace)
            &&& trace[0] == start
            &&& trace.last() == finish
        };
    assert forall|t: Seq<char>| start.visited.contains(t) implies #[trigger] finish.visited.contains(
        t,
    ) by {
        lemma_trace_keeps_visited(db, course, max_depth, max_nodes, trace, trace.len() - 1, t);
    }
}

/// A graph that leaves nothing out shows what is near its root: among the callers
/// exactly the nodes from which the root can be reached in at most `depth` steps, among
/// the callees exactly those that it reaches over nodes that are no callers, each once
/// as new and at its shortest distance.
pub proof fn law_graphs_show_what_is_near(
    db: rusqlite::Connection,
    g: GraphText,
    depth: usize,
    direction: DependencyDirection,
    max_nodes: usize,
    up: walk::Walk,
    down: walk::Walk,
)
    requires
        could_span(db, g, depth, direction, max_nodes, up, down),
        !g.truncated,
    ensures
        shows_callers(direction) ==> up.entries == g.callers && exists|
            edges: Map<Seq<char>, Seq<walk::EdgeText>>,
        | #[trigger]
            reach::could_hold(db, walk::Course::Towards(DependencyDirection::Callers), edges)
                && reach::shows(edges, seq![g.root.id], g.root.id, depth as int, up),
        shows_callees(direction) ==> down.entries == g.callees && exists|
            edges: Map<Seq<char>, Seq<walk::EdgeText>>,
        | #[trigger]
            reach::could_hold(db, walk::Course::Towards(DependencyDirection::Callees), edges)
                && reach::shows(edges, up.visited, g.root.id, depth as int, down),
        !shows_callers(direction) ==> up.visited == seq![g.root.id],
{
    let root = g.root.id;
    let callers = walk::Course::Towards(DependencyDirection::Callers);
    let callees = walk::Course::Towards(DependencyDirection::Callees);
    if shows_callees(direction) {
        reach::lemma_walk_was_not_cut(
            db,
            callees,
            depth as int,
            max_nodes as int,
            walk::start_walk(root, up.visited, up.truncated),
            down,
        );
    }
    assert(seq![root].contains(root)) by {
        assert(seq![root][0] == root);
    }
    if shows_callers(direction) {
        reach::law_walks_show_the_graph(
            db,
            callers,
            seq![root],
            root,
            depth as int,
            max_nodes as int,
            up,
        );
        lemma_walk_keeps_visited(
            db,
            callers,
            depth as int,
            max_nodes as int,
            walk::start_walk(root, seq![root], false),
            up,
        );
    }
    if shows_callees(direction) {
        reach::law_walks_show_the_graph(
            db,
            callees,
            up.visited,
            root,
            depth as int,
            max_nodes as int,
            down,
        );
    }
}

/// Whether a database could lead to this answer for a symbol: the list of candidates
/// where the name is ambiguous, else the graph of the one node.
pub open spec fn could_graph(
    db: rusqlite::Connection,
    symbol: Seq<char>,
    repo: Seq<char>,
    filepath: Option<Seq<char>>,
    options: DependencyGraphOptions,
    limits: Settings,
    shown: Seq<char>,
) -> bool {
    ||| could_graph_as(db, symbol, repo, filepath, options, limits, true, shown)
    ||| could_graph_as(db, symbol, repo, filepath, options, limits, false, shown)
}

/// Whether a database could lead to this answer for a symbol, whose name turns out to be
/// ambiguous or not.
pub open spec fn could_graph_as(
    db: rusqlite::Connection,
    symbol: Seq<char>,
    repo: Seq<char>,
    filepath: Option<Seq<char>>,
    options: DependencyGraphOptions,
    limits: Settings,
    ambiguous: bool,
    shown: Seq<char>,
) -> bool {
    if ambiguous {
        symbols::could_be_ambiguous(db, symbol, repo, filepath, shown)
    } else {
        exists|g: GraphText, up: walk::Walk, down: walk::Walk|
            {
                &&& symbols::could_be_unique(db, symbol, repo, filepath, g.root)
                &&& #[trigger] could_span(
                    db,
                    g,
                    options.depth,
                    options.direction,
                    clamped(options.max_nodes, limits.graph_max_nodes),
                    up,
                    down,
                )
                &&& shown == graph_text(
                    g,
                    options.depth,
                    options.direction,
                    options.include_source,
                    clamped(options.max_bytes, limits.graph_max_bytes),
                )
            }
    }
}

/// The graph of a name that one node has is drawn from two walks that start at that node:
/// what it shows as callers was met on the walk to callers, what it shows as callees on
/// the walk to callees, which leaves out what the first one met. Each is left out where
/// the other alone is asked for. Both go as deep as was asked for.
pub proof fn law_graphs_are_drawn_from_two_walks(
    db: rusqlite::Connection,
    symbol: Seq<char>,
    repo: Seq<char>,
    filepath: Option<Seq<char>>,
    options: DependencyGraphOptions,
    limits: Settings,
    shown: Seq<char>,
)
    requires
        could_graph_as(db, symbol, repo, filepath, options, limits, false, shown),
    ensures
        exists|g: GraphText, up: walk::Walk, down: walk::Walk|
            {
                let most = clamped(options.max_nodes, limits.graph_max_nodes) as int;
                &&& symbols::could_match(db, symbol, repo, filepath, seq![g.root])
                &&& g.callers == up.entries
                &&& g.callees == down.entries
                &&& g.truncated == down.truncated
                &&& options.direction != DependencyDirection::Callees ==> walk::could_walk(
                    db,
                    walk::Course::Towards(DependencyDirection::Callers),
                    options.depth as int,
                    most,
                    walk::start_walk(g.root.id, seq![g.root.id], false),
                    up,
                )
                &&& options.direction == DependencyDirection::Callees ==> up.entries.len() == 0
                    && up.visited == seq![g.root.id] && !up.truncated
                &&& options.direction != DependencyDirection::Callers ==> walk::could_walk(
                    db,
                    walk::Course::Towards(DependencyDirection::Callees),
                    options.depth as int,
                    most,
                    walk::start_walk(g.root.id, up.visited, up.truncated),
                    down,
                )
                &&& options.direction == DependencyDirection::Callers ==> down.entries.len() == 0
                    && down.truncated == up.truncated
                &&& #[trigger] could_span(
                    db,
                    g,
                    options.depth,
                    options.direction,
                    clamped(options.max_nodes, limits.graph_max_nodes),
                    up,
                    down,
                )
                &&& shown == graph_text(
                    g,
                    options.depth,
                    options.direction,
                    options.include_source,
                    clamped(options.max_bytes, limits.graph_max_bytes),
                )
            },
{
    let (g, up, down) = choose|g: GraphText, up: walk::Walk, down: walk::Walk|
        {
            &&& symbols::could_be_unique(db, symbol, repo, filepath, g.root)
            &&& #[trigger] could_span(
                db,
                g,
                options.depth,
                options.direction,
                clamped(options.max_nodes, limits.graph_max_nodes),
                up,
                down,
            )
            &&& shown == graph_text(
                g,
                options.depth,
                options.direction,
                options.include_source,
                clamped(options.max_bytes, limits.graph_max_bytes),
            )
        };
    assert(symbols::could_match(db, symbol, repo, filepath, seq![g.root]));
}

/// What is asked for is granted as far as the limit goes, and never nothing.
pub proof fn law_requests_are_granted_up_to_the_limit(asked: usize, limit: usize)
    ensures
        1 <= clamped(asked, limit),
        clamped(asked, limit) <= limit || limit == 0 && clamped(asked, limit) == 1,
        1 <= asked <= limit ==> clamped(asked, limit) == asked,
        1 <= limit < asked ==> clamped(asked, limit) == limit,
        asked == 0 ==> clamped(asked, limit) == 1,
{
}

/// Whether the walks from a root could break off for this reason: that of the callers,
/// or that of the callees behind it.
pub open spec fn could_not_span(
    db: rusqlite::Connection,
    root: Seq<char>,
    depth: usize,
    direction: DependencyDirection,
    max_nodes: usize,
    why: rusqlite::Error,
) -> bool {
    ||| shows_callers(direction) && walk::could_break_off(
        db,
        walk::Course::Towards(DependencyDirection::Callers),
        depth as int,
        max_nodes as int,
        walk::start_walk(root, seq![root], false),
        why,
    )
    ||| shows_callees(direction) && exists|up: walk::Walk|
        {
            &&& #[trigger] could_traverse(
                db,
                shows_callers(direction),
                DependencyDirection::Callers,
                depth as int,
                max_nodes as int,
                root,
                seq![root],
                false,
                up,
            )
            &&& walk::could_break_off(
                db,
                walk::Course::Towards(DependencyDirection::Callees),
                depth as int,
                max_nodes as int,
                walk::start_walk(root, up.visited, up.truncated),
                why,
            )
        }
}

/// Whether a database could lead to this error for a symbol: nothing of that name is
/// there, or a statement was refused that finds the node or walks from it.
pub open spec fn could_not_graph(
    db: rusqlite::Connection,
    symbol: Seq<char>,
    repo: Seq<char>,
    filepath: Option<Seq<char>>,
    options: DependencyGraphOptions,
    limits: Settings,
    e: MarrowError,
) -> bool {
    match e {
        MarrowError::Message(m) => symbols::could_be_missing(db, symbol, repo, filepath, m@),
        MarrowError::Store(why) => {
            ||| symbols::could_not_look_up(db, symbol, repo, filepath, why)
            ||| exists|root: symbols::NodeText|
                {
                    &&& #[trigger] symbols::could_be_unique(db, symbol, repo, filepath, root)
                    &&& could_not_span(
                        db,
                        root.id,
                        options.depth,
                        options.direction,
                        clamped(options.max_nodes, limits.graph_max_nodes),
                        why,
                    )
                }
        },
    }
}

/// What is said of a depth outside its range.
pub const BAD_DEPTH: &'static str = "dependency_graph depth must be between 1 and 5";

fn traverse_if(
    conn: &rusqlite::Connection,
    active: bool,
    root_id: &str,
    direction: DependencyDirection,
    max_depth: usize,
    max_nodes: usize,
    visited: &mut Vec<String>,
    truncated: &mut bool,
) -> (r: Result<Traversal, MarrowError>)
    ensures
        match r {
            Ok(t) => exists|finish: walk::Walk|
                {
                    &&& #[trigger] could_traverse(
                        *conn,
                        active,
                        direction,
                        max_depth as int,
                        max_nodes as int,
                        root_id@,
                        text::texts(old(visited)@),
                        *old(truncated),
                        finish,
                    )
                    &&& walk::entry_texts(t.entries@) == finish.entries
                    &&& t.edge_count == finish.edges
                    &&& text::texts(final(visited)@) == finish.visited
                    &&& *final(truncated) == finish.truncated
                },
            Err(e) => active && (e matches MarrowError::Store(why) && walk::could_break_off(
                *conn,
                walk::Course::Towards(direction),
                max_depth as int,
                max_nodes as int,
                walk::start_walk(root_id@, text::texts(old(visited)@), *old(truncated)),
                why,
            )),
        },
{
    let ghost visited0 = text::texts(visited@);
    let ghost truncated0 = *truncated;
    if active {
        let r = traverse_dependency_direction(
            conn,
            root_id,
            direction,
            max_depth,
            max_nodes,
            visited,
            truncated,
        );
        proof {
            if r is Ok {
                let start = walk::start_walk(root_id@, visited0, truncated0);
                let finish = choose|finish: walk::Walk|
                    {
                        &&& #[trigger] walk::could_walk(
                            *conn,
                            walk::Course::Towards(direction),
                            max_depth as int,
                            max_nodes as int,
                            start,
                            finish,
                        )
                        &&& walk::entry_texts(r->Ok_0.entries@) == finish.entries
                        &&& r->Ok_0.edge_count == finish.edges
                        &&& text::texts(visited@) == finish.visited
                        &&& *truncated == finish.truncated
                    };
                assert(could_traverse(
                    *conn,
                    active,
                    direction,
                    max_depth as int,
                    max_nodes as int,
                    root_id@,
                    visited0,
                    truncated0,
                    finish,
                ));
            }
        }
        r
    } else {
        let t = Traversal { entries: Vec::new(), edge_count: 0 };
        proof {
            let finish = walk::Walk {
                queue: Seq::empty(),
                entries: Seq::empty(),
                visited: visited0,
                edges: 0,
                truncated: truncated0,
            };
            assert(walk::entry_texts(t.entries@) =~= finish.entries);
            assert(could_traverse(
                *conn,
                active,
                direction,
                max_depth as int,
                max_nodes as int,
                root_id@,
                visited0,
                truncated0,
                finish,
            ));
        }
        Ok(t)
    }
}

/// The dependency graph of a symbol: what reaches it and what it reaches within
/// `options.depth` steps.
pub fn dependency_graph(
    conn: &rusqlite::Connection,
    repo_id: &str,
    symbol_name: &str,
    filepath: Option<&str>,
    options: DependencyGraphOptions,
    limits: &Settings,
) -> (r: Result<String, MarrowError>)
    ensures
        options.depth == 0 || options.depth > 5 ==> (r matches Err(MarrowError::Message(m)) && m@
            == BAD_DEPTH@),
        1 <= options.depth <= 5 ==> match r {
            Ok(shown) => could_graph(
                *conn,
                symbol_name@,
                repo_id@,
                text::opt_str(filepath),
                options,
                *limits,
                shown@,
            ),
            Err(e) => could_not_graph(
                *conn,
                symbol_name@,
                repo_id@,
                text::opt_str(filepath),
                options,
                *limits,
                e,
            ),
        },
{
    match draw_graph(conn, repo_id, symbol_name, filepath, options, limits) {
        Ok((shown, _)) => Ok(shown),
        Err(e) => Err(e),
    }
}

/// The graph as [`dependency_graph`] gives it, and whether the name was ambiguous.
pub fn draw_graph(
    conn: &rusqlite::Connection,
    repo_id: &str,
    symbol_name: &str,
    filepath: Option<&str>,
    options: DependencyGraphOptions,
    limits: &Settings,
) -> (r: Result<(String, bool), MarrowError>)
    ensures
        options.depth == 0 || options.depth > 5 ==> (r matches Err(MarrowError::Message(m)) && m@
            == BAD_DEPTH@),
        1 <= options.depth <= 5 ==> match r {
            Ok((shown, ambiguous)) => could_graph_as(
                *conn,
                symbol_name@,
                repo_id@,
                text::opt_str(filepath),
                options,
                *limits,
                ambiguous,
                shown@,
            ),
            Err(e) => could_not_graph(
                *conn,
                symbol_name@,
                repo_id@,
                text::opt_str(filepath),
                options,
                *limits,
                e,
            ),
        },
{
    if options.depth == 0 || options.depth > 5 {
        return Err(MarrowError::Message(BAD_DEPTH.to_owned()));
    }
    let max_nodes = clamp(options.max_nodes, limits.graph_max_nodes);
    let max_bytes = clamp(options.max_bytes, limits.graph_max_bytes);
    let direction = options.direction;
    let root = match resolve_symbol_or_disambiguate(conn, symbol_name, repo_id, filepath) {
        Ok(SymbolResolution::Unique(node)) => node,
        Ok(SymbolResolution::Ambiguous(payload)) => {
            return Ok((payload, true));
        },
        Err(e) => {
            return Err(e);
        },
    };
    let mut visited: Vec<String> = Vec::new();
    visited.push(root.id.clone());
    assert(text::texts(visited@) =~= seq![root@.id]);
    let mut truncated = false;
    let up = match traverse_if(
        conn,
        direction != DependencyDirection::Callees,
        &root.id,
        DependencyDirection::Callers,
        options.depth,
        max_nodes,
        &mut visited,
        &mut truncated,
    ) {
        Ok(t) => t,
        Err(e) => {
            return Err(e);
        },
    };
    let ghost visited1 = text::texts(visited@);
    let ghost truncated1 = truncated;
    let ghost w1 = choose|finish: walk::Walk|
        {
            &&& #[trigger] could_traverse(
                *conn,
                shows_callers(direction),
                DependencyDirection::Callers,
                options.depth as int,
                max_nodes as int,
                root@.id,
                seq![root@.id],
                false,
                finish,
            )
            &&& walk::entry_texts(up.entries@) == finish.entries
            &&& up.edge_count == finish.edges
            &&& visited1 == finish.visited
            &&& truncated1 == finish.truncated
        };
    let down = match traverse_if(
        conn,
        direction != DependencyDirection::Callers,
        &root.id,
        DependencyDirection::Callees,
        options.depth,
        max_nodes,
        &mut visited,
        &mut truncated,
    ) {
        Ok(t) => t,
        Err(e) => {
            return Err(e);
        },
    };
    let edge_count = up.edge_count.saturating_add(down.edge_count);
    let ghost g = GraphText {
        root: root@,
        callers: walk::entry_texts(up.entries@),
        callees: walk::entry_texts(down.entries@),
        edges: edge_count as int,
        truncated,
    };
    proof {
        let w2 = choose|finish: walk::Walk|
            {
                &&& #[trigger] could_traverse(
                    *conn,
                    shows_callees(direction),
                    DependencyDirection::Callees,
                    options.depth as int,
                    max_nodes as int,
                    root@.id,
                    visited1,
                    truncated1,
                    finish,
                )
                &&& g.callees == finish.entries
                &&& down.edge_count == finish.edges
                &&& text::texts(visited@) == finish.visited
                &&& truncated == finish.truncated
            };
        assert(could_span(*conn, g, options.depth, direction, max_nodes, w1, w2));
        law_graphs_are_bounded(*conn, g, options.depth, direction, max_nodes, w1, w2);
    }
    let applied = DependencyGraphOptions {
        depth: options.depth,
        direction,
        include_source: options.include_source,
        max_nodes,
        max_bytes,
    };
    let shown = format_dependency_graph(
        &root,
        &up.entries,
        &down.entries,
        edge_count,
        truncated,
        &applied,
    );
    Ok((shown, false))
}

} // verus!
