//! Everything about a class in one text.
use crate::capsule;
use crate::capsule::explore_symbol;
use crate::files::SourceFile;
use crate::graph;
use crate::graph::draw_graph;
use crate::model::{CapsuleResult, DependencyDirection, DependencyGraphOptions, NodeBrief};
use crate::order::listed;
use crate::scan;
use crate::scan::{lower_text, split_on};
use crate::settings::Settings;
use crate::store;
use crate::store::{bind_one, bind_three, keep_text_rows, select, MarrowError};
use crate::symbols;
use crate::symbols::{resolve_symbol_or_disambiguate, SymbolResolution};
use crate::text;
use crate::text::join;
use vstd::prelude::*;
use vstd::string::*;

verus! {

pub const SAME_FILE_SQL: &'static str =
    "SELECT symbol_type, symbol_name FROM nodes WHERE repo_id = ?1 AND file_path = ?2 AND id != ?3 ORDER BY symbol_type ASC, symbol_name ASC, id ASC";

pub const RELATED_FILES_SQL: &'static str =
    "SELECT DISTINCT n.file_path FROM edges e JOIN nodes n ON n.id = e.source_id WHERE e.target_id = ?1 UNION SELECT DISTINCT n.file_path FROM edges e JOIN nodes n ON n.id = e.target_id WHERE e.source_id = ?1 ORDER BY file_path ASC";

/// What a file is for.
#[derive(Debug, Clone, Copy, PartialEq, Eq, Structural)]
pub enum PathCategory {
    Controllers,
    Jobs,
    Services,
    Models,
    Tests,
    Other,
}

impl PathCategory {
    /// The name of a category.
    pub open spec fn name(self) -> Seq<char> {
        match self {
            PathCategory::Controllers => "controllers"@,
            PathCategory::Jobs => "jobs"@,
            PathCategory::Services => "services"@,
            PathCategory::Models => "models"@,
            PathCategory::Tests => "tests"@,
            PathCategory::Other => "other"@,
        }
    }

    /// The name of the category.
    pub fn label(self) -> (r: &'static str)
        ensures
            r@ == self.name(),
    {
        match self {
            PathCategory::Controllers => "controllers",
            PathCategory::Jobs => "jobs",
            PathCategory::Services => "services",
            PathCategory::Models => "models",
            PathCategory::Tests => "tests",
            PathCategory::Other => "other",
        }
    }
}

/// The category of a file: that of the first directory name in the list which its
/// path has, in any case.
pub open spec fn category_of(path: Seq<char>) -> PathCategory {
    let segments = scan::pieces(scan::lowered(path), '/');
    if segments.contains("controllers"@) {
        PathCategory::Controllers
    } else if segments.contains("jobs"@) {
        PathCategory::Jobs
    } else if segments.contains("services"@) {
        PathCategory::Services
    } else if segments.contains("models"@) {
        PathCategory::Models
    } else if segments.contains("tests"@) || segments.contains("spec"@) {
        PathCategory::Tests
    } else {
        PathCategory::Other
    }
}

/// The category of a file.
pub fn path_category(path: &str) -> (r: PathCategory)
    ensures
        r == category_of(path@),
{
    let segments = split_on(&lower_text(path), '/');
    if listed(&segments, "controllers") {
        PathCategory::Controllers
    } else if listed(&segments, "jobs") {
        PathCategory::Jobs
    } else if listed(&segments, "services") {
        PathCategory::Services
    } else if listed(&segments, "models") {
        PathCategory::Models
    } else if listed(&segments, "tests") || listed(&segments, "spec") {
        PathCategory::Tests
    } else {
        PathCategory::Other
    }
}

/// The files of a category among the first `n`, in order.
pub open spec fn in_category(paths: Seq<Seq<char>>, category: PathCategory, n: int) -> Seq<
    Seq<char>,
>
    decreases n,
{
    if n <= 0 {
        Seq::empty()
    } else {
        let head = in_category(paths, category, n - 1);
        if category_of(paths[n - 1]) == category {
            head.push(paths[n - 1])
        } else {
            head
        }
    }
}

/// The line of a category.
pub open spec fn category_line(paths: Seq<Seq<char>>, category: PathCategory) -> Seq<char> {
    let found = in_category(paths, category, paths.len() as int);
    if found.len() == 0 {
        "- "@ + category.name() + ": (none)\n"@
    } else {
        "- "@ + category.name() + ": "@ + text::joined(found, ", "@) + "\n"@
    }
}

fn format_category(paths: &Vec<String>, category: PathCategory) -> (r: String)
    ensures
        r@ == category_line(text::texts(paths@), category),
{
    let ghost all = text::texts(paths@);
    let mut found: Vec<String> = Vec::new();
    let mut i: usize = 0;
    assert(text::texts(found@) =~= Seq::<Seq<char>>::empty());
    while i < paths.len()
        invariant
            i <= paths.len(),
            all == text::texts(paths@),
            text::texts(found@) == in_category(all, category, i as int),
        decreases paths.len() - i,
    {
        let path = &paths[i];
        assert(all[i as int] == path@);
        let ghost before = found@;
        if path_category(path) == category {
            found.push(path.clone());
            proof {
                text::lemma_texts_push(before, *path);
            }
        }
        i += 1;
    }
    assert(text::texts(found@).len() == found.len());
    if found.len() == 0 {
        "- ".to_owned().concat(category.label()).concat(": (none)\n")
    } else {
        "- ".to_owned().concat(category.label()).concat(": ").concat(&join(&found, ", ")).concat(
            "\n",
        )
    }
}

/// `start` followed by the lines of the first `n` rows of kind and name.
pub open spec fn with_symbol_lines(start: Seq<char>, rows: Seq<Seq<Seq<char>>>, n: int) -> Seq<char>
    decreases n,
{
    if n <= 0 {
        start
    } else {
        with_symbol_lines(start, rows, n - 1) + ("- "@ + rows[n - 1][0] + ": "@ + rows[n - 1][1]
            + "\n"@)
    }
}

/// A class with its capsule, its graph, the symbols beside it and the files around it.
pub open spec fn class_map_text(
    root: symbols::NodeText,
    capsule: Seq<char>,
    graph: Seq<char>,
    beside: Seq<Seq<Seq<char>>>,
    paths: Seq<Seq<char>>,
) -> Seq<char> {
    let head = "CLASS MAP — "@ + root.symbol_name + " ("@ + root.symbol_type + ") — "@
        + root.file_path + "\n\n## CAPSULE\n"@ + capsule + "\n\n## DEPENDENCY GRAPH\n"@ + graph
        + "\n\n## SAME-FILE SYMBOLS\n"@;
    let listed = if beside.len() == 0 {
        head + "(none)\n"@
    } else {
        with_symbol_lines(head, beside, beside.len() as int)
    };
    listed + "\n## PATH CATEGORIES\n"@ + category_line(paths, PathCategory::Controllers)
        + category_line(paths, PathCategory::Jobs) + category_line(paths, PathCategory::Services)
        + category_line(paths, PathCategory::Models) + category_line(paths, PathCategory::Tests)
        + category_line(paths, PathCategory::Other)
}

/// A class with its capsule, its graph, the symbols beside it and the files around it.
pub fn format_class_map(
    root: &NodeBrief,
    capsule: &str,
    graph: &str,
    beside: &Vec<Vec<String>>,
    paths: &Vec<String>,
) -> (r: String)
    requires
        forall|i: int| 0 <= i < beside.len() ==> #[trigger] beside@[i].len() == 2,
    ensures
        r@ == class_map_text(
            root@,
            capsule@,
            graph@,
            store::table(beside@),
            text::texts(paths@),
        ),
{
    let ghost rows = store::table(beside@);
    let mut out = "CLASS MAP — ".to_owned().concat(&root.symbol_name).concat(" (").concat(
        &root.symbol_type,
    ).concat(") — ").concat(&root.file_path).concat("\n\n## CAPSULE\n").concat(capsule).concat(
        "\n\n## DEPENDENCY GRAPH\n",
    ).concat(graph).concat("\n\n## SAME-FILE SYMBOLS\n");
    if beside.len() == 0 {
        out.append("(none)\n");
    } else {
        let ghost start = out@;
        let mut i: usize = 0;
        while i < beside.len()
            invariant
                i <= beside.len(),
                rows == store::table(beside@),
                forall|k: int| 0 <= k < beside.len() ==> #[trigger] beside@[k].len() == 2,
                out@ == with_symbol_lines(start, rows, i as int),
            decreases beside.len() - i,
        {
            let row = &beside[i];
            assert(beside@[i as int].len() == 2);
            assert(rows[i as int] == text::texts(row@));
            out.append(
                &"- ".to_owned().concat(&row[0]).concat(": ").concat(&row[1]).concat("\n"),
            );
            i += 1;
        }
    }
    out.append("\n## PATH CATEGORIES\n");
    out.append(&format_category(paths, PathCategory::Controllers));
    out.append(&format_category(paths, PathCategory::Jobs));
    out.append(&format_category(paths, PathCategory::Services));
    out.append(&format_category(paths, PathCategory::Models));
    out.append(&format_category(paths, PathCategory::Tests));
    out.append(&format_category(paths, PathCategory::Other));
    out
}

proof fn lemma_in_category(
    paths: Seq<Seq<char>>,
    category: PathCategory,
    n: int,
    fits: spec_fn(Seq<char>) -> bool,
)
    requires
        0 <= n <= paths.len(),
        forall|p: Seq<char>| #[trigger] fits(p) == (category_of(p) == category),
    ensures
        in_category(paths, category, n) == paths.take(n).filter(fits),
    decreases n,
{
    reveal(Seq::filter);
    if n > 0 {
        lemma_in_category(paths, category, n - 1, fits);
        assert(paths.take(n).drop_last() =~= paths.take(n - 1));
    } else {
        assert(paths.take(0) =~= Seq::empty());
    }
}

proof fn lemma_symbol_lines(
    start: Seq<char>,
    rows: Seq<Seq<Seq<char>>>,
    n: int,
    line: spec_fn(Seq<Seq<char>>) -> Seq<char>,
)
    requires
        0 <= n <= rows.len(),
        forall|r: Seq<Seq<char>>| #[trigger] line(r) == "- "@ + r[0] + ": "@ + r[1] + "\n"@,
    ensures
        with_symbol_lines(start, rows, n) == start + rows.take(n).flat_map(line),
    decreases n,
{
    if n > 0 {
        lemma_symbol_lines(start, rows, n - 1, line);
        rows.lemma_flat_map_take_append(line, n - 1);
        text::lemma_put_together(start, rows.take(n - 1).flat_map(line), line(rows[n - 1]));
    } else {
        assert(rows.take(0).flat_map(line) =~= Seq::empty());
        text::lemma_put_together(start, start, start);
    }
}

/// The line of a category names all files of that category, in order, and no other.
pub proof fn law_categories_name_their_files(paths: Seq<Seq<char>>, category: PathCategory)
    ensures
        ({
            let found = paths.filter(|p: Seq<char>| category_of(p) == category);
            category_line(paths, category) == "- "@ + (match category {
                PathCategory::Controllers => "controllers"@,
                PathCategory::Jobs => "jobs"@,
                PathCategory::Services => "services"@,
                PathCategory::Models => "models"@,
                PathCategory::Tests => "tests"@,
                PathCategory::Other => "other"@,
            }) + (if found.len() == 0 {
                ": (none)\n"@
            } else {
                ": "@ + text::joined(found, ", "@) + "\n"@
            })
        }),
{
    let fits = |p: Seq<char>| category_of(p) == category;
    lemma_in_category(paths, category, paths.len() as int, fits);
    assert(paths.take(paths.len() as int) =~= paths);
    let found = paths.filter(fits);
    let head = "- "@ + category.name();
    text::lemma_put_together(head, ": "@, text::joined(found, ", "@));
    text::lemma_put_together(head, ": "@ + text::joined(found, ", "@), "\n"@);
}

/// A file is of the category whose directory is on its path, in whatever case: controllers
/// before jobs, these before services, models and tests, which also go by `spec`.
pub proof fn law_categories_go_by_directories(path: Seq<char>)
    ensures
        ({
            let on_path = |name: Seq<char>|
                scan::pieces(path.map_values(|c: char| scan::lower_char(c)), '/').contains(name);
            let c = category_of(path);
            &&& c == PathCategory::Controllers <==> on_path("controllers"@)
            &&& c == PathCategory::Jobs <==> on_path("jobs"@) && !on_path("controllers"@)
            &&& c == PathCategory::Services <==> on_path("services"@) && !on_path(
                "controllers"@,
            ) && !on_path("jobs"@)
            &&& c == PathCategory::Models <==> on_path("models"@) && !on_path("controllers"@)
                && !on_path("jobs"@) && !on_path("services"@)
            &&& c == PathCategory::Other <==> !on_path("controllers"@) && !on_path("jobs"@)
                && !on_path("services"@) && !on_path("models"@) && !on_path("tests"@) && !on_path(
                "spec"@,
            )
        }),
{
    assert(scan::lowered(path) =~= path.map_values(|c: char| scan::lower_char(c)));
}

/// A class map holds the class's capsule and its graph as they are, every symbol beside it
/// with its kind, in order, and the files around it by category.
pub proof fn law_class_maps_hold_every_part(
    root: symbols::NodeText,
    capsule: Seq<char>,
    graph: Seq<char>,
    beside: Seq<Seq<Seq<char>>>,
    paths: Seq<Seq<char>>,
)
    ensures
        class_map_text(root, capsule, graph, beside, paths) == "CLASS MAP — "@ + root.symbol_name
            + " ("@ + root.symbol_type + ") — "@ + root.file_path + "\n\n## CAPSULE\n"@ + capsule
            + "\n\n## DEPENDENCY GRAPH\n"@ + graph + "\n\n## SAME-FILE SYMBOLS\n"@ + (
        if beside.len() == 0 {
            "(none)\n"@
        } else {
            beside.flat_map(|r: Seq<Seq<char>>| "- "@ + r[0] + ": "@ + r[1] + "\n"@)
        }) + "\n## PATH CATEGORIES\n"@ + category_line(paths, PathCategory::Controllers)
            + category_line(paths, PathCategory::Jobs) + category_line(
            paths,
            PathCategory::Services,
        ) + category_line(paths, PathCategory::Models) + category_line(paths, PathCategory::Tests)
            + category_line(paths, PathCategory::Other),
{
    let line = |r: Seq<Seq<char>>| "- "@ + r[0] + ": "@ + r[1] + "\n"@;
    let head = "CLASS MAP — "@ + root.symbol_name + " ("@ + root.symbol_type + ") — "@
        + root.file_path + "\n\n## CAPSULE\n"@ + capsule + "\n\n## DEPENDENCY GRAPH\n"@ + graph
        + "\n\n## SAME-FILE SYMBOLS\n"@;
    lemma_symbol_lines(head, beside, beside.len() as int, line);
    assert(beside.take(beside.len() as int) =~= beside);
}

/// Whether a database could give these symbols beside a node in its file.
pub open spec fn could_stand_beside(
    db: rusqlite::Connection,
    repo: Seq<char>,
    node: symbols::NodeText,
    rows: Seq<Seq<Seq<char>>>,
) -> bool {
    exists|answer: Seq<Result<Vec<store::Cell>, rusqlite::Error>>|
        {
            &&& #[trigger] store::could_answer(
                db,
                SAME_FILE_SQL@,
                store::three_texts(repo, node.file_path, node.id),
                answer,
            )
            &&& rows == store::text_rows(answer, 2)
        }
}

/// Reads the kinds and names of the symbols beside a node in its file.
pub fn same_file_symbols(conn: &rusqlite::Connection, repo_id: &str, node: &NodeBrief) -> (r: Result<
    Vec<Vec<String>>,
    MarrowError,
>)
    ensures
        match r {
            Ok(rows) => could_stand_beside(
                *conn,
                repo_id@,
                node@,
                store::table(rows@),
            ) && forall|i: int|
                0 <= i < rows.len() ==> #[trigger] rows@[i].len() == 2,
            Err(e) => e matches MarrowError::Store(why) && store::could_refuse(
                *conn,
                SAME_FILE_SQL@,
                store::three_texts(repo_id@, node@.file_path, node@.id),
                why,
            ),
        },
{
    match select(conn, SAME_FILE_SQL, bind_three(repo_id, &node.file_path, &node.id)) {
        Ok(answer) => {
            assert(store::could_answer(
                *conn,
                SAME_FILE_SQL@,
                store::three_texts(repo_id@, node@.file_path, node@.id),
                answer@,
            ));
            Ok(keep_text_rows(&answer, 2))
        },
        Err(e) => Err(MarrowError::Store(e)),
    }
}

/// The first text of every row.
pub open spec fn first_column(rows: Seq<Seq<Seq<char>>>) -> Seq<Seq<char>> {
    Seq::new(rows.len(), |i: int| rows[i][0])
}

/// Whether a database could give these files around a node.
pub open spec fn could_surround(
    db: rusqlite::Connection,
    id: Seq<char>,
    paths: Seq<Seq<char>>,
) -> bool {
    exists|answer: Seq<Result<Vec<store::Cell>, rusqlite::Error>>|
        {
            &&& #[trigger] store::could_answer(db, RELATED_FILES_SQL@, store::one_text(id), answer)
            &&& paths == first_column(store::text_rows(answer, 1))
        }
}

/// The symbols beside a node are those of its file in the repository but itself; the files
/// around it are those of the nodes at either end of its edges. Each is asked for by what
/// the node is known as, and every row of the answer is taken, in order.
pub proof fn law_surroundings_are_asked_for_by_the_node(
    db: rusqlite::Connection,
    repo: Seq<char>,
    node: symbols::NodeText,
    rows: Seq<Seq<Seq<char>>>,
    paths: Seq<Seq<char>>,
)
    ensures
        could_stand_beside(db, repo, node, rows) ==> exists|
            answer: Seq<Result<Vec<store::Cell>, rusqlite::Error>>,
        |
            rows == #[trigger] store::text_rows(answer, 2) && store::could_yield(
                db,
                "SELECT symbol_type, symbol_name FROM nodes WHERE repo_id = ?1 AND file_path = ?2 AND id != ?3 ORDER BY symbol_type ASC, symbol_name ASC, id ASC"@,
                seq![
                    store::Bound::Text(repo),
                    store::Bound::Text(node.file_path),
                    store::Bound::Text(node.id),
                ],
                Ok(answer),
            ),
        could_surround(db, node.id, paths) ==> exists|
            answer: Seq<Result<Vec<store::Cell>, rusqlite::Error>>,
        |
            {
                let found = #[trigger] store::text_rows(answer, 1);
                &&& store::could_yield(
                    db,
                    "SELECT DISTINCT n.file_path FROM edges e JOIN nodes n ON n.id = e.source_id WHERE e.target_id = ?1 UNION SELECT DISTINCT n.file_path FROM edges e JOIN nodes n ON n.id = e.target_id WHERE e.source_id = ?1 ORDER BY file_path ASC"@,
                    seq![store::Bound::Text(node.id)],
                    Ok(answer),
                )
                &&& paths.len() == found.len()
                &&& forall|i: int| 0 <= i < found.len() ==> #[trigger] paths[i] == found[i][0]
            },
{
    if could_surround(db, node.id, paths) {
        let answer = choose|answer: Seq<Result<Vec<store::Cell>, rusqlite::Error>>|
            {
                &&& #[trigger] store::could_answer(
                    db,
                    RELATED_FILES_SQL@,
                    store::one_text(node.id),
                    answer,
                )
                &&& paths == first_column(store::text_rows(answer, 1))
            };
        let found = store::text_rows(answer, 1);
        assert(paths.len() == found.len());
    }
}

/// Reads the files of the symbols one edge away.
pub fn dependency_paths(conn: &rusqlite::Connection, root_id: &str) -> (r: Result<
    Vec<String>,
    MarrowError,
>)
    ensures
        match r {
            Ok(paths) => could_surround(*conn, root_id@, text::texts(paths@)),
            Err(e) => e matches MarrowError::Store(why) && store::could_refuse(
                *conn,
                RELATED_FILES_SQL@,
                store::one_text(root_id@),
                why,
            ),
        },
{
    match select(conn, RELATED_FILES_SQL, bind_one(root_id)) {
        Ok(answer) => {
            let rows = keep_text_rows(&answer, 1);
            let ghost all = store::table(rows@);
            let mut out: Vec<String> = Vec::new();
            let mut i: usize = 0;
            while i < rows.len()
                invariant
                    i <= rows.len(),
                    out.len() == i,
                    all == store::table(rows@),
                    forall|k: int| 0 <= k < rows.len() ==> #[trigger] rows@[k].len() == 1,
                    forall|k: int| 0 <= k < i ==> #[trigger] out@[k]@ == all[k][0],
                decreases rows.len() - i,
            {
                assert(rows@[i as int].len() == 1);
                assert(all[i as int] == text::texts(rows@[i as int]@));
                out.push(rows[i][0].clone());
                i += 1;
            }
            assert(text::texts(out@) =~= first_column(all));
            assert(store::could_answer(
                *conn,
                RELATED_FILES_SQL@,
                store::one_text(root_id@),
                answer@,
            ));
            Ok(out)
        },
        Err(e) => Err(MarrowError::Store(e)),
    }
}

/// The graph that a class map holds: two steps both ways, without source.
pub open spec fn map_graph(limits: Settings) -> DependencyGraphOptions {
    DependencyGraphOptions {
        depth: 2,
        direction: DependencyDirection::Both,
        include_source: false,
        max_nodes: limits.graph_max_nodes,
        max_bytes: limits.graph_max_bytes,
    }
}

/// Whether a database could lead to this map of a class.
pub open spec fn could_map_class(
    db: rusqlite::Connection,
    symbol: Seq<char>,
    repo: Seq<char>,
    filepath: Option<Seq<char>>,
    files: Seq<SourceFile>,
    limits: Settings,
    shown: Seq<char>,
) -> bool {
    exists|ambiguous: int| #[trigger]
        could_map_class_as(db, symbol, repo, filepath, files, limits, ambiguous, shown)
}

/// Whether a database could lead to this map of a class, and this many lookups of the
/// name turn out to be ambiguous.
pub open spec fn could_map_class_as(
    db: rusqlite::Connection,
    symbol: Seq<char>,
    repo: Seq<char>,
    filepath: Option<Seq<char>>,
    files: Seq<SourceFile>,
    limits: Settings,
    ambiguous: int,
    shown: Seq<char>,
) -> bool {
    ||| ambiguous == 1 && symbols::could_be_ambiguous(db, symbol, repo, filepath, shown)
    ||| exists|
            node: symbols::NodeText,
            in_capsule: bool,
            result: CapsuleResult,
            in_graph: bool,
            graph: Seq<char>,
            beside: Seq<Seq<Seq<char>>>,
            paths: Seq<Seq<char>>,
        |
            {
                &&& symbols::could_be_unique(db, symbol, repo, filepath, node)
                &&& #[trigger] capsule::could_explore_as(
                    db,
                    symbol,
                    repo,
                    Some(node.file_path),
                    files,
                    limits,
                    in_capsule,
                    result,
                )
                &&& #[trigger] graph::could_graph_as(
                    db,
                    symbol,
                    repo,
                    Some(node.file_path),
                    map_graph(limits),
                    limits,
                    in_graph,
                    graph,
                )
                &&& #[trigger] could_stand_beside(db, repo, node, beside)
                &&& #[trigger] could_surround(db, node.id, paths)
                &&& shown == class_map_text(node, result.optimized_text@, graph, beside, paths)
                &&& ambiguous == symbols::counted(in_capsule) + symbols::counted(in_graph)
            }
}

/// The map of a class is that of the one node that has the name: the capsule and the graph
/// that its name has in its file, two steps both ways without sources, the symbols that
/// share its file, and the files at the other end of its edges. Where several nodes have
/// the name, these are listed instead.
pub proof fn law_class_maps_are_of_one_node(
    db: rusqlite::Connection,
    symbol: Seq<char>,
    repo: Seq<char>,
    filepath: Option<Seq<char>>,
    files: Seq<SourceFile>,
    limits: Settings,
    shown: Seq<char>,
)
    requires
        could_map_class(db, symbol, repo, filepath, files, limits, shown),
    ensures
        symbols::could_be_ambiguous(db, symbol, repo, filepath, shown) || exists|
            node: symbols::NodeText,
            in_capsule: bool,
            result: CapsuleResult,
            in_graph: bool,
            options: DependencyGraphOptions,
            graph: Seq<char>,
            beside: Seq<Seq<Seq<char>>>,
            paths: Seq<Seq<char>>,
        |
            {
                &&& symbols::could_match(db, symbol, repo, filepath, seq![node])
                &&& #[trigger] capsule::could_explore_as(
                    db,
                    symbol,
                    repo,
                    Some(node.file_path),
                    files,
                    limits,
                    in_capsule,
                    result,
                )
                &&& #[trigger] graph::could_graph_as(
                    db,
                    symbol,
                    repo,
                    Some(node.file_path),
                    options,
                    limits,
                    in_graph,
                    graph,
                )
                &&& options.depth == 2
                &&& options.direction == DependencyDirection::Both
                &&& !options.include_source
                &&& options.max_nodes == limits.graph_max_nodes
                &&& options.max_bytes == limits.graph_max_bytes
                &&& #[trigger] could_stand_beside(db, repo, node, beside)
                &&& #[trigger] could_surround(db, node.id, paths)
                &&& shown == class_map_text(node, result.optimized_text@, graph, beside, paths)
            },
{
    let ambiguous = choose|ambiguous: int| #[trigger]
        could_map_class_as(db, symbol, repo, filepath, files, limits, ambiguous, shown);
    if !symbols::could_be_ambiguous(db, symbol, repo, filepath, shown) {
        let (node, in_capsule, result, in_graph, graph, beside, paths) = choose|
            node: symbols::NodeText,
            in_capsule: bool,
            result: CapsuleResult,
            in_graph: bool,
            graph: Seq<char>,
            beside: Seq<Seq<Seq<char>>>,
            paths: Seq<Seq<char>>,
        |
            {
                &&& symbols::could_be_unique(db, symbol, repo, filepath, node)
                &&& #[trigger] capsule::could_explore_as(
                    db,
                    symbol,
                    repo,
                    Some(node.file_path),
                    files,
                    limits,
                    in_capsule,
                    result,
                )
                &&& #[trigger] graph::could_graph_as(
                    db,
                    symbol,
                    repo,
                    Some(node.file_path),
                    map_graph(limits),
                    limits,
                    in_graph,
                    graph,
                )
                &&& #[trigger] could_stand_beside(db, repo, node, beside)
                &&& #[trigger] could_surround(db, node.id, paths)
                &&& shown == class_map_text(node, result.optimized_text@, graph, beside, paths)
                &&& ambiguous == symbols::counted(in_capsule) + symbols::counted(in_graph)
            };
        assert(symbols::could_match(db, symbol, repo, filepath, seq![node]));
    }
}

/// Whether a database could lead to this error for a class: nothing of that name is
/// there, or a statement was refused on the way.
pub open spec fn could_not_map_class(
    db: rusqlite::Connection,
    symbol: Seq<char>,
    repo: Seq<char>,
    filepath: Option<Seq<char>>,
    limits: Settings,
    e: MarrowError,
) -> bool {
    ||| match e {
        MarrowError::Message(m) => symbols::could_be_missing(db, symbol, repo, filepath, m@),
        MarrowError::Store(why) => symbols::could_not_look_up(db, symbol, repo, filepath, why),
    }
    ||| exists|node: symbols::NodeText|
        {
            &&& #[trigger] symbols::could_be_unique(db, symbol, repo, filepath, node)
            &&& could_not_survey(db, symbol, repo, node, limits, e)
        }
}

/// Whether what a map says of a node could stay unknown for this reason.
pub open spec fn could_not_survey(
    db: rusqlite::Connection,
    symbol: Seq<char>,
    repo: Seq<char>,
    node: symbols::NodeText,
    limits: Settings,
    e: MarrowError,
) -> bool {
    ||| capsule::could_not_explore(db, symbol, repo, Some(node.file_path), limits, e)
    ||| graph::could_not_graph(
        db,
        symbol,
        repo,
        Some(node.file_path),
        map_graph(limits),
        limits,
        e,
    )
    ||| e matches MarrowError::Store(why) && store::could_refuse(
        db,
        SAME_FILE_SQL@,
        store::three_texts(repo, node.file_path, node.id),
        why,
    )
    ||| e matches MarrowError::Store(why) && store::could_refuse(
        db,
        RELATED_FILES_SQL@,
        store::one_text(node.id),
        why,
    )
}

/// Maps a class: its capsule, its graph, the symbols beside it and the files around it.
pub fn map_class(
    conn: &rusqlite::Connection,
    repo_id: &str,
    symbol_name: &str,
    filepath: Option<&str>,
    limits: &Settings,
    files: &Vec<SourceFile>,
) -> (r: Result<String, MarrowError>)
    ensures
        match r {
            Ok(shown) => could_map_class(
                *conn,
                symbol_name@,
                repo_id@,
                text::opt_str(filepath),
                files@,
                *limits,
                shown@,
            ),
            Err(e) => could_not_map_class(
                *conn,
                symbol_name@,
                repo_id@,
                text::opt_str(filepath),
                *limits,
                e,
            ),
        },
{
    match survey_class(conn, repo_id, symbol_name, filepath, limits, files) {
        Ok((shown, ambiguous)) => {
            assert(could_map_class_as(
                *conn,
                symbol_name@,
                repo_id@,
                text::opt_str(filepath),
                files@,
                *limits,
                ambiguous as int,
                shown@,
            ));
            Ok(shown)
        },
        Err(e) => Err(e),
    }
}

/// The map as [`map_class`] gives it, and how many lookups of the name were ambiguous.
pub fn survey_class(
    conn: &rusqlite::Connection,
    repo_id: &str,
    symbol_name: &str,
    filepath: Option<&str>,
    limits: &Settings,
    files: &Vec<SourceFile>,
) -> (r: Result<(String, usize), MarrowError>)
    ensures
        match r {
            Ok((shown, ambiguous)) => could_map_class_as(
                *conn,
                symbol_name@,
                repo_id@,
                text::opt_str(filepath),
                files@,
                *limits,
                ambiguous as int,
                shown@,
            ),
            Err(e) => could_not_map_class(
                *conn,
                symbol_name@,
                repo_id@,
                text::opt_str(filepath),
                *limits,
                e,
            ),
        },
{
    let root = match resolve_symbol_or_disambiguate(conn, symbol_name, repo_id, filepath) {
        Ok(SymbolResolution::Unique(node)) => node,
        Ok(SymbolResolution::Ambiguous(payload)) => {
            return Ok((payload, 1));
        },
        Err(e) => {
            return Err(e);
        },
    };
    assert(symbols::could_be_unique(
        *conn,
        symbol_name@,
        repo_id@,
        text::opt_str(filepath),
        root@,
    ));
    let here = Some(root.file_path.as_str());
    let (result, in_capsule) = match explore_symbol(
        conn,
        symbol_name,
        repo_id,
        here,
        limits,
        files,
    ) {
        Ok(found) => found,
        Err(e) => {
            return Err(e);
        },
    };
    let options = DependencyGraphOptions {
        depth: 2,
        direction: DependencyDirection::Both,
        include_source: false,
        max_nodes: limits.graph_max_nodes,
        max_bytes: limits.graph_max_bytes,
    };
    assert(options == map_graph(*limits));
    let (graph, in_graph) = match draw_graph(conn, repo_id, symbol_name, here, options, limits) {
        Ok(drawn) => drawn,
        Err(e) => {
            return Err(e);
        },
    };
    let beside = match same_file_symbols(conn, repo_id, &root) {
        Ok(rows) => rows,
        Err(e) => {
            return Err(e);
        },
    };
    let paths = match dependency_paths(conn, &root.id) {
        Ok(paths) => paths,
        Err(e) => {
            return Err(e);
        },
    };
    assert(capsule::could_explore_as(
        *conn,
        symbol_name@,
        repo_id@,
        Some(root@.file_path),
        files@,
        *limits,
        in_capsule,
        result,
    ));
    assert(graph::could_graph_as(
        *conn,
        symbol_name@,
        repo_id@,
        Some(root@.file_path),
        map_graph(*limits),
        *limits,
        in_graph,
        graph@,
    ));
    assert(could_stand_beside(*conn, repo_id@, root@, store::table(beside@)));
    assert(could_surround(*conn, root@.id, text::texts(paths@)));
    let mut ambiguous: usize = 0;
    if in_capsule {
        ambiguous += 1;
    }
    if in_graph {
        ambiguous += 1;
    }
    Ok((format_class_map(&root, &result.optimized_text, &graph, &beside, &paths), ambiguous))
}

} // verus!
