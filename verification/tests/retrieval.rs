use marrow::batch::execute_batch_queries;
use marrow::capsule::{
    get_context_capsule, measure_precise_tokens_touched_by_capsule,
};
use marrow::class_map::map_class;
use marrow::condense::condense;
use marrow::files::{concat_full_original_text_sorted, SourceFile};
use marrow::graph::dependency_graph;
use marrow::impact::analyze_impact;
use marrow::model::{
    BatchIntent, BatchOptions, BatchQuery, CapsuleOriginalMode, DependencyDirection,
    DependencyGraphOptions,
};
use marrow::order::insert_ascending;
use marrow::settings::{
    capsule_max_outbound_neighbors, capsule_original_mode, capsule_original_text_max_bytes,
    capsule_proof_max_bytes, capsule_proof_max_files, Settings, MAX_PIVOT_BYTES,
};
use marrow::skeleton::get_project_skeleton;
use marrow::symbols::{find_symbols, FIND_SYMBOL_DEFAULT_LIMIT};
use marrow::trace::trace_logic_flow;
use rusqlite::Connection;

fn make_db() -> Connection {
    let conn = Connection::open_in_memory().unwrap();
    conn.execute_batch(
        "CREATE TABLE repositories (id TEXT PRIMARY KEY, root_path TEXT NOT NULL);
         CREATE TABLE nodes (
             id TEXT PRIMARY KEY, repo_id TEXT NOT NULL,
             file_path TEXT NOT NULL, language TEXT NOT NULL,
             symbol_name TEXT NOT NULL, symbol_type TEXT NOT NULL,
             raw_text TEXT NOT NULL
         );
         CREATE TABLE edges (
             source_id TEXT NOT NULL, target_id TEXT NOT NULL,
             relationship_type TEXT NOT NULL,
             PRIMARY KEY (source_id, target_id, relationship_type)
         );
         CREATE VIRTUAL TABLE nodes_fts USING fts5(
             symbol_name,
             content='nodes',
             content_rowid='rowid',
             tokenize='unicode61 remove_diacritics 2'
         );
         CREATE TRIGGER nodes_fts_ai AFTER INSERT ON nodes BEGIN
             INSERT INTO nodes_fts(rowid, symbol_name) VALUES (new.rowid, new.symbol_name);
         END;
         CREATE TRIGGER nodes_fts_ad AFTER DELETE ON nodes BEGIN
             INSERT INTO nodes_fts(nodes_fts, rowid, symbol_name) VALUES('delete', old.rowid, old.symbol_name);
         END;
         CREATE TRIGGER nodes_fts_au AFTER UPDATE ON nodes BEGIN
             INSERT INTO nodes_fts(nodes_fts, rowid, symbol_name) VALUES('delete', old.rowid, old.symbol_name);
             INSERT INTO nodes_fts(rowid, symbol_name) VALUES (new.rowid, new.symbol_name);
         END;
         CREATE TABLE observations (
             id INTEGER PRIMARY KEY AUTOINCREMENT,
             repo_id TEXT NOT NULL DEFAULT '',
             symbol_name TEXT NOT NULL,
             filepath TEXT NOT NULL,
             observation_text TEXT NOT NULL,
             timestamp DATETIME DEFAULT CURRENT_TIMESTAMP,
             last_known_hash TEXT NOT NULL,
             is_stale INTEGER NOT NULL DEFAULT 0
         );
         CREATE INDEX IF NOT EXISTS idx_edges_source ON edges(source_id);
         CREATE INDEX IF NOT EXISTS idx_edges_target ON edges(target_id);",
    )
    .unwrap();
    conn
}

#[allow(clippy::too_many_arguments)]
fn insert_node(
    conn: &Connection,
    id: &str,
    repo_id: &str,
    file_path: &str,
    lang: &str,
    name: &str,
    sym_type: &str,
    raw: &str,
) {
    conn.execute(
        "INSERT INTO nodes VALUES (?1,?2,?3,?4,?5,?6,?7)",
        [id, repo_id, file_path, lang, name, sym_type, raw],
    )
    .unwrap();
}

fn insert_repo(conn: &Connection, repo_id: &str, root_path: &str) {
    conn.execute(
        "INSERT INTO repositories (id, root_path) VALUES (?1, ?2)",
        [repo_id, root_path],
    )
    .unwrap();
}

fn insert_edge(conn: &Connection, src: &str, tgt: &str, rel: &str) {
    conn.execute(
        "INSERT INTO edges VALUES (?1,?2,?3)",
        [src, tgt, rel],
    )
    .unwrap();
}

fn default_batch_query(intent: BatchIntent, target: &str) -> BatchQuery {
    BatchQuery {
        intent,
        target: target.to_string(),
        filepath: None,
        kind: None,
        limit: None,
        depth: None,
        direction: None,
        include_source: false,
        max_nodes: None,
    }
}

fn default_graph_options() -> DependencyGraphOptions {
    DependencyGraphOptions {
        max_bytes: 100_000,
        ..DependencyGraphOptions::default()
    }
}

#[test]
fn execute_batch_queries_deduplicates_exact_repeated_queries() {
    let conn = make_db();
    insert_repo(&conn, "r", "/tmp/r");
    insert_node(
        &conn,
        "r:src/lib.rs:Report",
        "r",
        "src/lib.rs",
        "rs",
        "Report",
        "struct",
        "struct Report { id: i64 }",
    );

    let queries = vec![
        default_batch_query(BatchIntent::parse("capsule").unwrap(), "Report"),
        default_batch_query(BatchIntent::ExploreSymbol, "Report"),
    ];
    let result = execute_batch_queries(
        &conn,
        &queries,
        BatchOptions {
            repo_id: "r".to_string(),
            max_bytes: 100_000,
        },
        &Settings::default(), &Vec::new(),
    );

    assert!(result.text.contains("CONTEXT CAPSULE"), "{}", result.text);
    assert!(
        result.text.contains("Same as [1/2] above"),
        "{}",
        result.text
    );
}

#[test]
fn execute_batch_queries_deduplicates_impact_aliases() {
    let conn = make_db();
    insert_repo(&conn, "r", "/tmp/r");
    insert_node(
        &conn,
        "r:src/a.rs:A",
        "r",
        "src/a.rs",
        "rs",
        "A",
        "function",
        "fn A() { B(); }",
    );
    insert_node(
        &conn,
        "r:src/b.rs:B",
        "r",
        "src/b.rs",
        "rs",
        "B",
        "function",
        "fn B() {}",
    );
    insert_edge(&conn, "r:src/a.rs:A", "r:src/b.rs:B", "CALLS");

    let queries = vec![
        default_batch_query(BatchIntent::parse("analyze_impact").unwrap(), "B"),
        default_batch_query(BatchIntent::RefactorSymbol, "B"),
    ];
    let result = execute_batch_queries(
        &conn,
        &queries,
        BatchOptions {
            repo_id: "r".to_string(),
            max_bytes: 100_000,
        },
        &Settings::default(), &Vec::new(),
    );

    assert!(result.text.contains("IMPACT"), "{}", result.text);
    assert!(
        result.text.contains("Same as [1/2] above"),
        "{}",
        result.text
    );
}

#[test]
fn execute_batch_queries_keeps_distinct_graph_options_separate() {
    let conn = make_db();
    insert_repo(&conn, "r", "/tmp/r");
    for name in ["A", "B", "C"] {
        insert_node(
            &conn,
            &format!("r:src/{name}.rs:{name}"),
            "r",
            &format!("src/{name}.rs"),
            "rs",
            name,
            "function",
            &format!("fn {name}() {{}}"),
        );
    }
    insert_edge(&conn, "r:src/A.rs:A", "r:src/B.rs:B", "CALLS");
    insert_edge(&conn, "r:src/B.rs:B", "r:src/C.rs:C", "CALLS");

    let mut depth_one = default_batch_query(BatchIntent::DependencyGraph, "A");
    depth_one.depth = Some(1);
    let mut depth_two = default_batch_query(BatchIntent::DependencyGraph, "A");
    depth_two.depth = Some(2);
    let mut include_source = default_batch_query(BatchIntent::DependencyGraph, "A");
    include_source.depth = Some(1);
    include_source.include_source = true;
    let mut capped = default_batch_query(BatchIntent::DependencyGraph, "A");
    capped.depth = Some(1);
    capped.max_nodes = Some(2);

    let result = execute_batch_queries(
        &conn,
        &vec![depth_one, depth_two, include_source, capped],
        BatchOptions {
            repo_id: "r".to_string(),
            max_bytes: 100_000,
        },
        &Settings::default(), &Vec::new(),
    );

    assert!(!result.text.contains("Same as"), "{}", result.text);
    assert!(
        result.text.contains("## [4/4] DEPENDENCY GRAPH — A"),
        "{}",
        result.text
    );
}

#[test]
fn execute_batch_queries_isolates_symbol_errors() {
    let conn = make_db();
    insert_repo(&conn, "r", "/tmp/r");
    insert_node(
        &conn,
        "r:src/a.rs:A",
        "r",
        "src/a.rs",
        "rs",
        "A",
        "function",
        "fn A() {}",
    );
    insert_node(
        &conn,
        "r:src/b.rs:B",
        "r",
        "src/b.rs",
        "rs",
        "B",
        "function",
        "fn B() {}",
    );

    let queries = vec![
        default_batch_query(BatchIntent::ExploreSymbol, "A"),
        default_batch_query(BatchIntent::ExploreSymbol, "Missing"),
        default_batch_query(BatchIntent::ExploreSymbol, "B"),
    ];
    let result = execute_batch_queries(
        &conn,
        &queries,
        BatchOptions {
            repo_id: "r".to_string(),
            max_bytes: 100_000,
        },
        &Settings::default(), &Vec::new(),
    );

    assert!(result.text.contains("## [2/3] EXPLORE — Missing"));
    assert!(result.text.contains("ERROR: Symbol 'Missing' not found"));
    assert!(result.text.contains("## [3/3] EXPLORE — B"));
}

#[test]
fn execute_batch_queries_truncates_fifo_at_byte_cap() {
    let conn = make_db();
    insert_repo(&conn, "r", "/tmp/r");
    insert_node(
        &conn,
        "r:src/small.rs:Small",
        "r",
        "src/small.rs",
        "rs",
        "Small",
        "function",
        "fn Small() {}",
    );
    insert_node(
        &conn,
        "r:src/large.rs:Large",
        "r",
        "src/large.rs",
        "rs",
        "Large",
        "function",
        &format!(
            "fn Large() {{\n{}\n}}",
            "let value = \"\u{2603}\";".repeat(200)
        ),
    );

    let queries = vec![
        default_batch_query(BatchIntent::ExploreSymbol, "Small"),
        default_batch_query(BatchIntent::ExploreSymbol, "Large"),
    ];
    let result = execute_batch_queries(
        &conn,
        &queries,
        BatchOptions {
            repo_id: "r".to_string(),
            max_bytes: 512,
        },
        &Settings::default(), &Vec::new(),
    );

    assert!(result.truncated);
    assert!(result.text.contains("Small"), "{}", result.text);
    assert!(
        result.text.contains("Truncated/skipped query indexes: 2"),
        "{}",
        result.text
    );
    assert!(std::str::from_utf8(result.text.as_bytes()).is_ok());
}

#[test]
fn dependency_graph_respects_depth_and_direction() {
    let conn = make_db();
    insert_repo(&conn, "r", "/tmp/r");
    for name in ["A", "B", "C", "D"] {
        insert_node(
            &conn,
            &format!("r:src/{name}.rs:{name}"),
            "r",
            &format!("src/{name}.rs"),
            "rs",
            name,
            "function",
            &format!("fn {name}() {{}}"),
        );
    }
    insert_edge(&conn, "r:src/A.rs:A", "r:src/B.rs:B", "CALLS");
    insert_edge(&conn, "r:src/B.rs:B", "r:src/C.rs:C", "CALLS");
    insert_edge(&conn, "r:src/D.rs:D", "r:src/A.rs:A", "CALLS");

    let depth_one = dependency_graph(
        &conn,
        "r",
        "A",
        None,
        DependencyGraphOptions {
            depth: 1,
            direction: DependencyDirection::Callees,
            ..default_graph_options()
        },
        &Settings::default(),
    )
    .unwrap();
    assert!(depth_one.contains("B (function)"), "{depth_one}");
    assert!(!depth_one.contains("C (function)"), "{depth_one}");
    assert!(!depth_one.contains("D (function)"), "{depth_one}");

    let depth_two = dependency_graph(
        &conn,
        "r",
        "A",
        None,
        DependencyGraphOptions {
            depth: 2,
            direction: DependencyDirection::Callees,
            ..default_graph_options()
        },
        &Settings::default(),
    )
    .unwrap();
    assert!(depth_two.contains("C (function)"), "{depth_two}");

    let callers = dependency_graph(
        &conn,
        "r",
        "A",
        None,
        DependencyGraphOptions {
            depth: 1,
            direction: DependencyDirection::Callers,
            ..default_graph_options()
        },
        &Settings::default(),
    )
    .unwrap();
    assert!(callers.contains("D (function)"), "{callers}");
    assert!(!callers.contains("B (function)"), "{callers}");
}

#[test]
fn dependency_graph_uses_shared_max_nodes_for_both_directions() {
    let conn = make_db();
    insert_repo(&conn, "r", "/tmp/r");
    for name in ["A", "B", "D"] {
        insert_node(
            &conn,
            &format!("r:src/{name}.rs:{name}"),
            "r",
            &format!("src/{name}.rs"),
            "rs",
            name,
            "function",
            &format!("fn {name}() {{}}"),
        );
    }
    insert_edge(&conn, "r:src/D.rs:D", "r:src/A.rs:A", "CALLS");
    insert_edge(&conn, "r:src/A.rs:A", "r:src/B.rs:B", "CALLS");

    let graph = dependency_graph(
        &conn,
        "r",
        "A",
        None,
        DependencyGraphOptions {
            depth: 1,
            direction: DependencyDirection::Both,
            max_nodes: 2,
            ..default_graph_options()
        },
        &Settings::default(),
    )
    .unwrap();

    let rendered_nodes = graph
        .lines()
        .filter(|line| line.trim_start().starts_with("- [d"))
        .count();
    assert_eq!(rendered_nodes, 1, "{graph}");
    assert!(graph.contains("D (function)"), "{graph}");
    assert!(!graph.contains("B (function)"), "{graph}");
    assert!(graph.contains("2 nodes"), "{graph}");
    assert!(graph.contains("Traversal truncated: yes"), "{graph}");
}

#[test]
fn dependency_graph_renders_depth_two_as_nested_tree() {
    let conn = make_db();
    insert_repo(&conn, "r", "/tmp/r");
    for name in ["A", "B", "C", "D"] {
        insert_node(
            &conn,
            &format!("r:src/{name}.rs:{name}"),
            "r",
            &format!("src/{name}.rs"),
            "rs",
            name,
            "function",
            &format!("fn {name}() {{}}"),
        );
    }
    insert_edge(&conn, "r:src/A.rs:A", "r:src/B.rs:B", "CALLS");
    insert_edge(&conn, "r:src/B.rs:B", "r:src/C.rs:C", "CALLS");
    insert_edge(&conn, "r:src/A.rs:A", "r:src/D.rs:D", "CALLS");

    let graph = dependency_graph(
        &conn,
        "r",
        "A",
        None,
        DependencyGraphOptions {
            depth: 2,
            direction: DependencyDirection::Callees,
            ..default_graph_options()
        },
        &Settings::default(),
    )
    .unwrap();

    assert!(
        graph.contains("  - [d1] [CALLS] B (function) — src/B.rs"),
        "{graph}"
    );
    assert!(
        graph.contains("    - [d2] [CALLS] C (function) — src/C.rs"),
        "{graph}"
    );
    assert!(
        graph.contains("  - [d1] [CALLS] D (function) — src/D.rs"),
        "{graph}"
    );
}

#[test]
fn dependency_graph_handles_cycles_without_repeating_forever() {
    let conn = make_db();
    insert_repo(&conn, "r", "/tmp/r");
    insert_node(
        &conn,
        "r:src/a.rs:A",
        "r",
        "src/a.rs",
        "rs",
        "A",
        "function",
        "fn A() {}",
    );
    insert_node(
        &conn,
        "r:src/b.rs:B",
        "r",
        "src/b.rs",
        "rs",
        "B",
        "function",
        "fn B() {}",
    );
    insert_edge(&conn, "r:src/a.rs:A", "r:src/b.rs:B", "CALLS");
    insert_edge(&conn, "r:src/b.rs:B", "r:src/a.rs:A", "CALLS");

    let graph = dependency_graph(
        &conn,
        "r",
        "A",
        None,
        DependencyGraphOptions {
            depth: 3,
            direction: DependencyDirection::Callees,
            ..default_graph_options()
        },
        &Settings::default(),
    )
    .unwrap();

    assert!(graph.contains("B (function)"), "{graph}");
    assert!(graph.contains("already seen"), "{graph}");
}

#[test]
fn dependency_graph_include_source_uses_condensed_text() {
    let conn = make_db();
    insert_repo(&conn, "r", "/tmp/r");
    insert_node(
        &conn,
        "r:src/a.rs:A",
        "r",
        "src/a.rs",
        "rs",
        "A",
        "function",
        "fn A() {\n    let alpha = 1;\n    let beta = alpha + 1;\n}",
    );
    insert_node(
        &conn,
        "r:src/b.rs:B",
        "r",
        "src/b.rs",
        "rs",
        "B",
        "function",
        "fn B() {\n    let gamma = 3;\n}",
    );
    insert_edge(&conn, "r:src/a.rs:A", "r:src/b.rs:B", "CALLS");

    let graph = dependency_graph(
        &conn,
        "r",
        "A",
        None,
        DependencyGraphOptions {
            depth: 1,
            direction: DependencyDirection::Callees,
            include_source: true,
            ..default_graph_options()
        },
        &Settings::default(),
    )
    .unwrap();

    assert!(graph.contains("SOURCE:"), "{graph}");
    assert!(!graph.contains("let gamma = 3"), "{graph}");
}

#[test]
fn dependency_graph_output_cap_is_utf8_safe_and_reports_truncation() {
    let conn = make_db();
    insert_repo(&conn, "r", "/tmp/r");
    insert_node(
        &conn,
        "r:src/a.rs:A",
        "r",
        "src/a.rs",
        "rs",
        "A",
        "function",
        "fn A() {}",
    );
    for name in ["Wide\u{2603}One", "Wide\u{2603}Two", "Wide\u{2603}Three"] {
        insert_node(
            &conn,
            &format!("r:src/{name}.rs:{name}"),
            "r",
            &format!("src/{name}.rs"),
            "rs",
            name,
            "function",
            &format!("fn {name}() {{}}"),
        );
        insert_edge(
            &conn,
            "r:src/a.rs:A",
            &format!("r:src/{name}.rs:{name}"),
            "CALLS",
        );
    }

    let graph = dependency_graph(
        &conn,
        "r",
        "A",
        None,
        DependencyGraphOptions {
            depth: 1,
            direction: DependencyDirection::Callees,
            max_bytes: 200,
            ..default_graph_options()
        },
        &Settings::default(),
    )
    .unwrap();

    assert!(graph.len() <= 200, "{graph}");
    assert!(std::str::from_utf8(graph.as_bytes()).is_ok());
    assert!(
        graph.contains("Dependency graph output truncated"),
        "{graph}"
    );
}

#[test]
fn map_class_combines_capsule_graph_and_same_file_symbols() {
    let conn = make_db();
    insert_repo(&conn, "r", "/tmp/r");
    insert_node(
        &conn,
        "r:app/models/report.rb:Report",
        "r",
        "app/models/report.rb",
        "rb",
        "Report",
        "class",
        "class Report\nend",
    );
    insert_node(
        &conn,
        "r:app/models/report.rb:create_job",
        "r",
        "app/models/report.rb",
        "rb",
        "create_job",
        "method",
        "def create_job\nend",
    );
    insert_node(
        &conn,
        "r:app/controllers/reports_controller.rb:create",
        "r",
        "app/controllers/reports_controller.rb",
        "rb",
        "create",
        "method",
        "def create\nend",
    );
    insert_node(
        &conn,
        "r:app/jobs/run_report_job.rb:RunReportJob",
        "r",
        "app/jobs/run_report_job.rb",
        "rb",
        "RunReportJob",
        "class",
        "class RunReportJob\nend",
    );
    insert_edge(
        &conn,
        "r:app/controllers/reports_controller.rb:create",
        "r:app/models/report.rb:Report",
        "CALLS",
    );
    insert_edge(
        &conn,
        "r:app/models/report.rb:Report",
        "r:app/jobs/run_report_job.rb:RunReportJob",
        "CALLS",
    );

    let out = map_class(&conn, "r", "Report", None, &Settings::default(), &Vec::new()).unwrap();
    assert!(out.contains("CLASS MAP"), "{out}");
    assert!(out.contains("## CAPSULE"), "{out}");
    assert!(out.contains("## DEPENDENCY GRAPH"), "{out}");
    assert!(out.contains("## SAME-FILE SYMBOLS"), "{out}");
    assert!(out.contains("method: create_job"), "{out}");
    assert!(
        out.contains("controllers: app/controllers/reports_controller.rb"),
        "{out}"
    );
    assert!(out.contains("jobs: app/jobs/run_report_job.rb"), "{out}");
}

#[test]
fn map_class_does_not_require_framework_specific_edges() {
    let conn = make_db();
    insert_repo(&conn, "r", "/tmp/r");
    insert_node(
        &conn,
        "r:src/domain.rs:Widget",
        "r",
        "src/domain.rs",
        "rs",
        "Widget",
        "struct",
        "struct Widget { id: i64 }",
    );
    insert_node(
        &conn,
        "r:src/domain.rs:new",
        "r",
        "src/domain.rs",
        "rs",
        "new",
        "function",
        "fn new() -> Widget { Widget { id: 1 } }",
    );

    let out = map_class(&conn, "r", "Widget", None, &Settings::default(), &Vec::new()).unwrap();
    assert!(out.contains("CLASS MAP"), "{out}");
    assert!(out.contains("function: new"), "{out}");
    assert!(out.contains("other:"), "{out}");
}

#[test]
fn capsule_pivot_has_full_text() {
    let conn = make_db();
    insert_node(
        &conn,
        "r:f.py:foo",
        "r",
        "f.py",
        "py",
        "foo",
        "function",
        "def foo():\n    return 42\n",
    );
    let result = get_context_capsule(&conn, "foo", "r", None, &Settings::default(), &Vec::new()).unwrap();
    assert!(
        result.optimized_text.contains("foo"),
        "symbol name missing: {}",
        result.optimized_text
    );
    assert!(
        result
            .optimized_text
            .contains("def foo():\n    return 42\n"),
        "pivot text missing"
    );
}

#[test]
fn capsule_has_no_neighbors_when_isolated() {
    let conn = make_db();
    insert_node(
        &conn,
        "r:f.py:solo",
        "r",
        "f.py",
        "py",
        "solo",
        "function",
        "def solo(): pass\n",
    );
    let result = get_context_capsule(&conn, "solo", "r", None, &Settings::default(), &Vec::new()).unwrap();
    assert!(
        result.optimized_text.contains("none — isolated symbol"),
        "isolated marker missing: {}",
        result.optimized_text
    );
    assert!(
        !result.optimized_text.contains("Expand a neighbor"),
        "isolated capsule should omit expansion CTA: {}",
        result.optimized_text
    );
}

#[test]
fn capsule_session_memories_are_compact_with_shared_stale_footer() {
    let conn = make_db();
    insert_node(
        &conn,
        "r:f.py:remembered",
        "r",
        "f.py",
        "py",
        "remembered",
        "function",
        "def remembered(): pass\n",
    );
    conn.execute(
        "INSERT INTO observations (repo_id, symbol_name, filepath, observation_text, timestamp, last_known_hash, is_stale)
         VALUES
            ('r', 'remembered', 'f.py', 'fresh note', '2026-01-01 00:00:00', 'a', 0),
            ('r', 'remembered', 'f.py', 'stale note\nwith newline', '2026-01-02 00:00:00', 'b', 1)",
        [],
    )
    .unwrap();

    let result = get_context_capsule(&conn, "remembered", "r", None, &Settings::default(), &Vec::new()).unwrap();
    let text = result.optimized_text;
    assert!(text.contains("- fresh note  (recorded: 2026-01-01 00:00:00)"));
    assert!(text.contains("- stale note with newline  (recorded: 2026-01-02 00:00:00, STALE)"));
    assert_eq!(
        text.matches("items marked STALE").count(),
        1,
        "stale footer should be emitted once: {text}"
    );
    assert!(!text.contains("[STALE MEMORY WARNING"));
}

#[test]
fn capsule_python_neighbor_body_replaced_with_pass() {
    let conn = make_db();
    insert_node(
        &conn,
        "r:f.py:caller",
        "r",
        "f.py",
        "py",
        "caller",
        "function",
        "def caller():\n    return bar()\n",
    );
    insert_node(
        &conn,
        "r:f.py:bar",
        "r",
        "f.py",
        "py",
        "bar",
        "function",
        "def bar():\n    x = 1\n    return x\n",
    );
    insert_edge(&conn, "r:f.py:caller", "r:f.py:bar", "CALLS");

    let result = get_context_capsule(&conn, "caller", "r", None, &Settings::default(), &Vec::new()).unwrap();
    let text = &result.optimized_text;
    // Progressive disclosure: neighbor bodies are not emitted — only the first line (signature).
    assert!(
        !text.contains("return x"),
        "neighbor body must not appear in progressive output, got: {text}"
    );
    assert!(
        text.contains("def bar"),
        "neighbor signature must be preserved, got: {text}"
    );
    assert!(
        text.contains("CALLS"),
        "relationship type must appear, got: {text}"
    );
    assert!(
        !text.contains("use read_node to expand"),
        "outbound section header must not include expansion guidance, got: {text}"
    );
    for forbidden in [
        "strictly forbidden",
        "forbidden from using",
        "grep",
        "read_file",
    ] {
        assert!(
            !text.contains(forbidden),
            "capsule CTA must not forbid native file reads using {forbidden:?}, got: {text}"
        );
    }
    assert_eq!(
        text.matches("read_node").count(),
        1,
        "outbound capsule must emit exactly one read_node guidance line, got: {text}"
    );
    assert!(
        text.contains(
            "[Expand a neighbor: run_pipeline(intent: \"read_node\", target: \"<symbol>\")]"
        ),
        "CTA for read_node must be present as a single line, got: {text}"
    );
}

#[test]
fn capsule_inbound_only_omits_neighbor_expansion_guidance() {
    let conn = make_db();
    insert_node(
        &conn,
        "r:f.py:caller",
        "r",
        "f.py",
        "py",
        "caller",
        "function",
        "def caller():\n    return callee()\n",
    );
    insert_node(
        &conn,
        "r:f.py:callee",
        "r",
        "f.py",
        "py",
        "callee",
        "function",
        "def callee():\n    return 42\n",
    );
    insert_edge(&conn, "r:f.py:caller", "r:f.py:callee", "CALLS");

    let result = get_context_capsule(&conn, "callee", "r", None, &Settings::default(), &Vec::new()).unwrap();
    let text = &result.optimized_text;
    assert!(
        text.contains("INBOUND CALLERS"),
        "inbound section missing, got: {text}"
    );
    assert_eq!(
        text.matches("read_node").count(),
        0,
        "capsule without outbound neighbors must omit read_node guidance, got: {text}"
    );
    assert!(
        !text.contains("Expand a neighbor"),
        "capsule without outbound neighbors must omit expansion CTA, got: {text}"
    );
}

#[test]
fn capsule_cpp_function_neighbor_body_replaced() {
    let conn = make_db();
    insert_node(
        &conn,
        "r:w.cpp:main_fn",
        "r",
        "w.cpp",
        "cpp",
        "main_fn",
        "function",
        "int main_fn() {\n    return 0;\n}\n",
    );
    insert_node(
        &conn,
        "r:w.cpp:helper",
        "r",
        "w.cpp",
        "cpp",
        "helper",
        "function",
        "void helper(int x) {\n    x += 1;\n}\n",
    );
    insert_edge(&conn, "r:w.cpp:main_fn", "r:w.cpp:helper", "CALLS");

    let result = get_context_capsule(&conn, "main_fn", "r", None, &Settings::default(), &Vec::new()).unwrap();
    let text = &result.optimized_text;
    // Progressive disclosure: neighbor shows only first line (signature), no body stubs.
    assert!(
        !text.contains("x += 1"),
        "neighbor body must not appear in progressive output, got: {text}"
    );
    assert!(text.contains("helper"), "neighbor name missing: {text}");
    assert!(
        text.contains("void helper"),
        "C++ neighbor signature must appear, got: {text}"
    );
    assert_eq!(
        text.matches("read_node").count(),
        1,
        "outbound capsule must emit exactly one read_node guidance line, got: {text}"
    );
    assert!(
        text.contains(
            "[Expand a neighbor: run_pipeline(intent: \"read_node\", target: \"<symbol>\")]"
        ),
        "CTA for read_node must be present as a single line, got: {text}"
    );
}

#[test]
fn capsule_cpp_forward_decl_returns_full_text() {
    let conn = make_db();
    let fwd = "class Widget;";
    insert_node(
        &conn,
        "r:w.h:Widget",
        "r",
        "w.h",
        "cpp",
        "Widget",
        "class",
        fwd,
    );
    insert_node(
        &conn,
        "r:w.cpp:processWidget",
        "r",
        "w.cpp",
        "cpp",
        "processWidget",
        "function",
        "void processWidget() {\n    Widget w;\n}\n",
    );
    insert_edge(&conn, "r:w.cpp:processWidget", "r:w.h:Widget", "IMPORTS");

    let result = get_context_capsule(&conn, "processWidget", "r", None, &Settings::default(), &Vec::new()).unwrap();
    assert!(
        result.optimized_text.contains(fwd),
        "forward declaration should appear verbatim in output: {}",
        result.optimized_text
    );
}

#[test]
fn capsule_ts_function_neighbor_body_replaced() {
    let conn = make_db();
    insert_node(
        &conn,
        "r:u.ts:entrypoint",
        "r",
        "u.ts",
        "ts",
        "entrypoint",
        "function",
        "function entrypoint(): void {\n    formatDate(new Date());\n}\n",
    );
    insert_node(
        &conn,
        "r:u.ts:formatDate",
        "r",
        "u.ts",
        "ts",
        "formatDate",
        "function",
        "function formatDate(date: Date): string {\n    return date.toISOString();\n}\n",
    );
    insert_edge(&conn, "r:u.ts:entrypoint", "r:u.ts:formatDate", "CALLS");

    let result = get_context_capsule(&conn, "entrypoint", "r", None, &Settings::default(), &Vec::new()).unwrap();
    let text = &result.optimized_text;
    assert!(
        text.contains("{ /* ... */ }"),
        "TS body should be replaced, got: {text}"
    );
    assert!(!text.contains("toISOString"), "body leaked: {text}");
    assert!(text.contains("formatDate"), "neighbor name missing: {text}");
}

#[test]
fn capsule_unknown_symbol_returns_error() {
    let conn = make_db();
    assert!(get_context_capsule(&conn, "ghost", "r", None, &Settings::default(), &Vec::new()).is_err());
}

#[test]
fn capsule_duplicate_symbol_in_repo_returns_ambiguity_error() {
    let conn = make_db();
    insert_node(
        &conn,
        "r:src/a.py:bulk_update",
        "r",
        "src/a.py",
        "py",
        "bulk_update",
        "function",
        "def bulk_update():\n    return 'a'\n",
    );
    insert_node(
        &conn,
        "r:src/b.py:bulk_update",
        "r",
        "src/b.py",
        "py",
        "bulk_update",
        "function",
        "def bulk_update():\n    return 'b'\n",
    );

    // Disambiguation is now returned as Ok(CapsuleResult) so agents can parse and retry.
    let result = get_context_capsule(&conn, "bulk_update", "r", None, &Settings::default(), &Vec::new()).unwrap();
    let msg = &result.optimized_text;
    assert!(
        msg.contains("Found 2 matches"),
        "expected disambiguation payload: {msg}"
    );
    assert!(
        msg.contains("src/a.py"),
        "expected first candidate path: {msg}"
    );
    assert!(
        msg.contains("src/b.py"),
        "expected second candidate path: {msg}"
    );
    assert!(
        msg.contains("run_pipeline"),
        "payload must guide agent to retry: {msg}"
    );
}

#[test]
fn resolve_symbol_matches_windows_backslash_path_with_posix_filepath() {
    // Regression: on Windows, ingest stores `file_path` with the OS
    // separator (e.g. `src\context.rs` via `Path::to_string_lossy`), but
    // agents pass POSIX-style `src/context.rs`. Exact equality used to
    // return "Symbol not found" for explore/dependency/refactor while
    // find_symbol (no filepath) still worked. Resolution must now be
    // separator-insensitive.
    let conn = make_db();
    insert_node(
        &conn,
        "marrow:src\\context.rs:compile_context_packet",
        "marrow",
        "src\\context.rs", // backslash-stored, simulating a Windows index
        "rs",
        "compile_context_packet",
        "function",
        "pub fn compile_context_packet() {}",
    );

    // POSIX-style filepath must resolve against the backslash-stored path.
    let posix = get_context_capsule(
        &conn,
        "compile_context_packet",
        "marrow",
        Some("src/context.rs"),
        &Settings::default(), &Vec::new(),
    )
    .expect("posix filepath must resolve against a backslash-stored path");
    assert!(
        posix.optimized_text.contains("compile_context_packet"),
        "expected the resolved capsule, got: {}",
        posix.optimized_text
    );
    assert!(
        !posix.optimized_text.contains("not found"),
        "resolution must not fall through to not-found: {}",
        posix.optimized_text
    );

    // The native (backslash) filepath must keep working too.
    let native = get_context_capsule(
        &conn,
        "compile_context_packet",
        "marrow",
        Some("src\\context.rs"),
        &Settings::default(), &Vec::new(),
    )
    .expect("native backslash filepath must still resolve");
    assert!(
        native.optimized_text.contains("compile_context_packet"),
        "native filepath regressed: {}",
        native.optimized_text
    );
}

#[test]
fn resolve_symbol_matches_posix_stored_path_with_windows_filepath() {
    // The mirror case: a macOS/Linux index stores forward slashes, but a
    // caller on Windows (or a tool that reconstructs OS paths) passes a
    // backslash filepath. Folding both sides keeps this portable.
    let conn = make_db();
    insert_node(
        &conn,
        "marrow:src/context.rs:compile_context_packet",
        "marrow",
        "src/context.rs",
        "rs",
        "compile_context_packet",
        "function",
        "pub fn compile_context_packet() {}",
    );

    let result = get_context_capsule(
        &conn,
        "compile_context_packet",
        "marrow",
        Some("src\\context.rs"),
        &Settings::default(), &Vec::new(),
    )
    .expect("backslash filepath must resolve against a forward-slash index");
    assert!(
        result.optimized_text.contains("compile_context_packet"),
        "expected the resolved capsule, got: {}",
        result.optimized_text
    );
}

#[test]
fn find_symbols_returns_compact_scoped_kind_filtered_matches() {
    let conn = make_db();
    insert_node(
        &conn,
        "r:src/a.rs:process_data",
        "r",
        "src/a.rs",
        "rs",
        "process_data",
        "function",
        "fn process_data() { expensive_body(); }",
    );
    insert_node(
        &conn,
        "r:src/b.rs:process_record",
        "r",
        "src/b.rs",
        "rs",
        "process_record",
        "function",
        "fn process_record() {}",
    );
    insert_node(
        &conn,
        "r:src/c.rs:ProcessData",
        "r",
        "src/c.rs",
        "rs",
        "ProcessData",
        "class",
        "class ProcessData {}",
    );
    insert_node(
        &conn,
        "other:src/a.rs:process_other",
        "other",
        "src/a.rs",
        "rs",
        "process_other",
        "function",
        "fn process_other() {}",
    );

    let out = find_symbols(&conn, "r", "process", Some("function"), 1).unwrap();
    assert!(out.contains("Found 1 matches for 'process':"), "{out}");
    assert!(out.contains("(function: process_"), "{out}");
    assert!(
        !out.contains("ProcessData"),
        "kind filter leaked class: {out}"
    );
    assert!(
        !out.contains("process_other"),
        "repo filter leaked other repo: {out}"
    );
    assert!(!out.contains("expensive_body"), "raw source leaked: {out}");
    assert!(
        out.contains("capped at 1 matches"),
        "cap note missing: {out}"
    );
}

#[test]
fn find_symbols_orders_fts_ties_deterministically() {
    let conn = make_db();
    insert_node(
        &conn,
        "r:src/b.rs:process_beta",
        "r",
        "src/b.rs",
        "rs",
        "process_beta",
        "function",
        "fn process_beta() {}",
    );
    insert_node(
        &conn,
        "r:src/a.rs:process_alpha",
        "r",
        "src/a.rs",
        "rs",
        "process_alpha",
        "function",
        "fn process_alpha() {}",
    );

    let out = find_symbols(&conn, "r", "process", None, FIND_SYMBOL_DEFAULT_LIMIT).unwrap();
    let alpha = out.find("src/a.rs (function: process_alpha)").unwrap();
    let beta = out.find("src/b.rs (function: process_beta)").unwrap();
    assert!(
        alpha < beta,
        "FTS tie-breakers should be deterministic: {out}"
    );
}

#[test]
fn find_symbols_falls_back_to_like_for_non_fts_query() {
    let conn = make_db();
    insert_node(
        &conn,
        "r:src/op.rs:operator++",
        "r",
        "src/op.rs",
        "rs",
        "operator++",
        "function",
        "fn operator_plus_plus() {}",
    );
    insert_node(
        &conn,
        "r:src/b.rs:bb++",
        "r",
        "src/b.rs",
        "rs",
        "bb++",
        "function",
        "fn bb() {}",
    );
    insert_node(
        &conn,
        "r:src/a.rs:aa++",
        "r",
        "src/a.rs",
        "rs",
        "aa++",
        "function",
        "fn aa() {}",
    );

    let out = find_symbols(&conn, "r", "++", None, FIND_SYMBOL_DEFAULT_LIMIT).unwrap();
    assert!(out.contains("src/op.rs (function: operator++)"), "{out}");
    let aa = out.find("src/a.rs (function: aa++)").unwrap();
    let bb = out.find("src/b.rs (function: bb++)").unwrap();
    let operator = out.find("src/op.rs (function: operator++)").unwrap();
    assert!(
        aa < bb && bb < operator,
        "LIKE fallback should order by length, symbol name, path, rowid: {out}"
    );
}

#[test]
fn find_symbols_duplicate_names_emit_path_type_name_shape() {
    let conn = make_db();
    insert_node(
        &conn,
        "r:src/a.rs:render",
        "r",
        "src/a.rs",
        "rs",
        "render",
        "function",
        "fn render() { draw_a(); }",
    );
    insert_node(
        &conn,
        "r:src/b.rs:render",
        "r",
        "src/b.rs",
        "rs",
        "render",
        "method",
        "fn render() { draw_b(); }",
    );

    let out = find_symbols(&conn, "r", "render", None, FIND_SYMBOL_DEFAULT_LIMIT).unwrap();
    assert!(out.contains("- src/a.rs (function: render)"), "{out}");
    assert!(out.contains("- src/b.rs (method: render)"), "{out}");
    assert!(!out.contains("draw_a"), "raw source leaked: {out}");
    assert!(!out.contains("draw_b"), "raw source leaked: {out}");
}

#[test]
fn find_symbols_no_match_is_not_a_skeleton_dump() {
    let conn = make_db();
    insert_node(
        &conn,
        "r:src/lib.rs:known",
        "r",
        "src/lib.rs",
        "rs",
        "known",
        "function",
        "fn known() {}",
    );

    let out = find_symbols(&conn, "r", "missing", None, FIND_SYMBOL_DEFAULT_LIMIT).unwrap();
    assert!(out.contains("No symbol matches for 'missing'"), "{out}");
    assert!(
        !out.contains("FULL SOURCE"),
        "should not emit source: {out}"
    );
    assert!(
        !out.contains("src/lib.rs (function: known)"),
        "should not dump skeleton rows: {out}"
    );
}

#[test]
fn impact_empty_for_isolated_node() {
    let conn = make_db();
    insert_node(
        &conn,
        "r:a.py:solo",
        "r",
        "a.py",
        "py",
        "solo",
        "function",
        "def solo(): pass\n",
    );
    let result = analyze_impact(&conn, "solo", "r", None, &Settings::default()).unwrap();
    assert!(result.affected.is_empty());
}

#[test]
fn impact_finds_direct_caller_with_relationship_type() {
    let conn = make_db();
    insert_node(
        &conn,
        "r:a.py:helper",
        "r",
        "a.py",
        "py",
        "helper",
        "function",
        "def helper(): pass\n",
    );
    insert_node(
        &conn,
        "r:a.py:caller",
        "r",
        "a.py",
        "py",
        "caller",
        "function",
        "def caller(): helper()\n",
    );
    insert_edge(&conn, "r:a.py:caller", "r:a.py:helper", "CALLS");

    let result = analyze_impact(&conn, "helper", "r", None, &Settings::default()).unwrap();
    assert_eq!(result.affected.len(), 1);
    assert_eq!(result.affected[0].symbol_name, "caller");
    assert_eq!(result.affected[0].relationship_type, "CALLS");
    assert_eq!(result.affected[0].depth, 1);
}

#[test]
fn impact_multi_hop_traversal_with_correct_depths() {
    let conn = make_db();
    insert_node(
        &conn,
        "r:a.py:base",
        "r",
        "a.py",
        "py",
        "base",
        "function",
        "def base(): pass\n",
    );
    insert_node(
        &conn,
        "r:a.py:mid",
        "r",
        "a.py",
        "py",
        "mid",
        "function",
        "def mid(): base()\n",
    );
    insert_node(
        &conn,
        "r:a.py:top",
        "r",
        "a.py",
        "py",
        "top",
        "function",
        "def top(): mid()\n",
    );
    insert_edge(&conn, "r:a.py:mid", "r:a.py:base", "CALLS");
    insert_edge(&conn, "r:a.py:top", "r:a.py:mid", "CALLS");

    let result = analyze_impact(&conn, "base", "r", None, &Settings::default()).unwrap();
    assert_eq!(result.affected.len(), 2);
    let mid = result
        .affected
        .iter()
        .find(|n| n.symbol_name == "mid")
        .unwrap();
    let top = result
        .affected
        .iter()
        .find(|n| n.symbol_name == "top")
        .unwrap();
    assert_eq!(mid.depth, 1);
    assert_eq!(top.depth, 2);
}

#[test]
fn impact_cross_repo_edge_relationship_preserved() {
    let conn = make_db();
    insert_node(
        &conn,
        "repo_b:lib.ts:ApiClient",
        "repo_b",
        "lib.ts",
        "ts",
        "ApiClient",
        "class",
        "class ApiClient {}\n",
    );
    insert_node(
        &conn,
        "repo_a:app.py:main",
        "repo_a",
        "app.py",
        "py",
        "main",
        "function",
        "def main(): pass\n",
    );
    insert_edge(
        &conn,
        "repo_a:app.py:main",
        "repo_b:lib.ts:ApiClient",
        "IMPORTS",
    );

    let result = analyze_impact(&conn, "ApiClient", "repo_b", None, &Settings::default()).unwrap();
    assert_eq!(result.affected.len(), 1);
    assert_eq!(result.affected[0].symbol_name, "main");
    assert_eq!(result.affected[0].relationship_type, "IMPORTS");
    assert_eq!(result.affected[0].repo_id, "repo_a");
}

#[test]
fn impact_unknown_symbol_returns_error() {
    let conn = make_db();
    assert!(analyze_impact(&conn, "ghost", "r", None, &Settings::default()).is_err());
}

#[test]
fn impact_duplicate_symbol_in_repo_returns_ambiguity_error() {
    let conn = make_db();
    insert_node(
        &conn,
        "r:src/a.py:bulk_update",
        "r",
        "src/a.py",
        "py",
        "bulk_update",
        "function",
        "def bulk_update():\n    return 'a'\n",
    );
    insert_node(
        &conn,
        "r:src/b.py:bulk_update",
        "r",
        "src/b.py",
        "py",
        "bulk_update",
        "function",
        "def bulk_update():\n    return 'b'\n",
    );

    // Disambiguation is now returned as Ok(ImpactResult) with DISAMBIGUATION: prefix.
    let result = analyze_impact(&conn, "bulk_update", "r", None, &Settings::default()).unwrap();
    assert!(
        result.pivot_id.starts_with("DISAMBIGUATION:"),
        "expected disambig pivot_id: {}",
        result.pivot_id
    );
    let msg = &result.pivot_id["DISAMBIGUATION:".len()..];
    assert!(
        msg.contains("Found 2 matches"),
        "expected disambiguation payload: {msg}"
    );
    assert!(
        msg.contains("src/a.py"),
        "expected first candidate path: {msg}"
    );
    assert!(
        msg.contains("src/b.py"),
        "expected second candidate path: {msg}"
    );
}

#[test]
fn skeleton_empty_db_returns_ingest_hint() {
    let conn = make_db();
    let out = get_project_skeleton(&conn, "r", None).unwrap();
    assert!(out.contains("ingest_repo"), "expected ingest hint: {out}");
}

#[test]
fn skeleton_lists_functions_and_classes_grouped_by_file() {
    let conn = make_db();
    insert_node(
        &conn,
        "r:a.rs:main",
        "r",
        "src/a.rs",
        "rs",
        "main",
        "function",
        "fn main() {}",
    );
    insert_node(
        &conn,
        "r:a.rs:Foo",
        "r",
        "src/a.rs",
        "rs",
        "Foo",
        "struct",
        "struct Foo {}",
    );
    insert_node(
        &conn,
        "r:b.py:helper",
        "r",
        "src/b.py",
        "py",
        "helper",
        "function",
        "def helper(): pass",
    );
    // Variable — should NOT appear
    insert_node(
        &conn,
        "r:a.rs:X",
        "r",
        "src/a.rs",
        "rs",
        "X",
        "variable",
        "let x = 1;",
    );

    let out = get_project_skeleton(&conn, "r", None).unwrap();
    assert!(out.contains("src/a.rs"), "a.rs missing: {out}");
    assert!(out.contains("src/b.py"), "b.py missing: {out}");
    assert!(out.contains("[function] main"), "main missing: {out}");
    assert!(out.contains("[struct] Foo"), "Foo missing: {out}");
    assert!(out.contains("[function] helper"), "helper missing: {out}");
    assert!(
        !out.contains("[variable]"),
        "variable should be filtered: {out}"
    );
}

#[test]
fn skeleton_target_dir_filters_to_prefix() {
    let conn = make_db();
    insert_node(
        &conn,
        "r:a:fn1",
        "r",
        "src/api/a.rs",
        "rs",
        "fn1",
        "function",
        "fn fn1() {}",
    );
    insert_node(
        &conn,
        "r:b:fn2",
        "r",
        "src/core/b.rs",
        "rs",
        "fn2",
        "function",
        "fn fn2() {}",
    );

    let out = get_project_skeleton(&conn, "r", Some("src/api")).unwrap();
    assert!(out.contains("fn1"), "fn1 missing: {out}");
    assert!(!out.contains("fn2"), "fn2 should be filtered: {out}");
}

#[test]
fn skeleton_target_dir_does_not_match_sibling_prefixes() {
    let conn = make_db();
    insert_node(
        &conn,
        "r:a:fn1",
        "r",
        "src/api/a.rs",
        "rs",
        "fn1",
        "function",
        "fn fn1() {}",
    );
    insert_node(
        &conn,
        "r:b:fn2",
        "r",
        "src/api_old/b.rs",
        "rs",
        "fn2",
        "function",
        "fn fn2() {}",
    );

    let out = get_project_skeleton(&conn, "r", Some("src/api")).unwrap();
    assert!(out.contains("fn1"), "expected api symbol: {out}");
    assert!(
        !out.contains("fn2"),
        "sibling prefix should not match target_dir: {out}"
    );
}

#[test]
fn skeleton_no_matching_nodes_after_filter_returns_message() {
    let conn = make_db();
    insert_node(
        &conn,
        "r:a:fn1",
        "r",
        "src/a.rs",
        "rs",
        "fn1",
        "function",
        "fn fn1() {}",
    );

    let out = get_project_skeleton(&conn, "r", Some("src/nonexistent")).unwrap();
    assert!(
        out.contains("No matching symbols"),
        "expected no-match message: {out}"
    );
}

#[test]
fn skeleton_only_lists_symbols_for_requested_repo() {
    let conn = make_db();
    insert_node(
        &conn,
        "repo_a:a:fn1",
        "repo_a",
        "src/a.rs",
        "rs",
        "fn1",
        "function",
        "fn fn1() {}",
    );
    insert_node(
        &conn,
        "repo_b:b:fn2",
        "repo_b",
        "src/b.rs",
        "rs",
        "fn2",
        "function",
        "fn fn2() {}",
    );

    let out = get_project_skeleton(&conn, "repo_a", None).unwrap();
    assert!(out.contains("fn1"), "repo_a symbol missing: {out}");
    assert!(
        !out.contains("fn2"),
        "repo_b symbol leaked into repo_a output: {out}"
    );
}

#[test]
fn trace_flow_omits_original_text_payload() {
    let conn = make_db();
    insert_node(
        &conn,
        "r:src/a.py:fa",
        "r",
        "src/a.py",
        "py",
        "fa",
        "function",
        "def fa(): pass",
    );

    let result = trace_logic_flow(&conn, "fa", "r", None, &Settings::default()).unwrap();
    assert!(result.original_text.is_empty());
    assert!(result.proof_snapshot.is_none());
    assert_eq!(result.provenance.original_mode, "none");
}

#[test]
fn condense_cpp_function_replaces_body() {
    let raw = "void process(int x) {\n    x += 1;\n    return;\n}";
    let result = condense(raw, "cpp");
    assert!(
        result.contains("process(int x)"),
        "signature lost: {result}"
    );
    assert!(
        result.contains("{ /* ... */ }"),
        "placeholder missing: {result}"
    );
    assert!(!result.contains("x += 1"), "body leaked: {result}");
}

#[test]
fn condense_cpp_forward_decl_unchanged() {
    let raw = "class Foo;";
    assert_eq!(condense(raw, "cpp"), raw);
}

#[test]
fn condense_py_function_replaces_body_with_pass() {
    let raw = "def compute(n):\n    total = 0\n    return total\n";
    let result = condense(raw, "py");
    assert!(
        result.contains("def compute(n):"),
        "signature lost: {result}"
    );
    assert!(
        result.contains("pass"),
        "pass placeholder missing: {result}"
    );
    assert!(!result.contains("total"), "body leaked: {result}");
}

#[test]
fn condense_ts_function_replaces_body() {
    let raw = "function greet(name: string): string {\n    return `Hello ${name}`;\n}";
    let result = condense(raw, "ts");
    assert!(
        result.contains("greet(name: string)"),
        "signature lost: {result}"
    );
    assert!(
        result.contains("{ /* ... */ }"),
        "placeholder missing: {result}"
    );
    assert!(!result.contains("Hello"), "body leaked: {result}");
}

#[test]
fn condense_rust_function_replaces_body() {
    let raw = "fn compute(n: u32) -> u32 {\n    let x = n * 2;\n    x\n}";
    let result = condense(raw, "rs");
    assert!(
        result.contains("fn compute(n: u32)"),
        "signature lost: {result}"
    );
    assert!(
        result.contains("{ /* ... */ }"),
        "placeholder missing: {result}"
    );
    assert!(!result.contains("n * 2"), "body leaked: {result}");
}

#[test]
fn condense_ruby_method_replaces_body_preserves_end() {
    let raw = "def greet(name)\n  puts name\n  name.upcase\nend\n";
    let result = condense(raw, "rb");
    assert!(result.contains("def greet"), "signature lost: {result}");
    assert!(
        result.contains("end"),
        "`end` keyword must be preserved: {result}"
    );
    assert!(result.contains("# ..."), "placeholder missing: {result}");
    assert!(!result.contains("puts name"), "body leaked: {result}");
}

#[test]
fn condense_ruby_preserves_end_not_chopped() {
    // Verifies the byte-range replacement does NOT consume the closing `end`.
    let raw = "def foo\n  x = 1\nend\n";
    let result = condense(raw, "rb");
    assert!(
        result.ends_with("end\n"),
        "`end` must close the method: {result}"
    );
}

#[test]
fn capsule_disambiguates_by_filepath() {
    let conn = make_db();
    insert_node(
        &conn,
        "r:src/a.py:bulk_update",
        "r",
        "src/a.py",
        "py",
        "bulk_update",
        "function",
        "def bulk_update():\n    return 'a'\n",
    );
    insert_node(
        &conn,
        "r:src/b.py:bulk_update",
        "r",
        "src/b.py",
        "py",
        "bulk_update",
        "function",
        "def bulk_update():\n    return 'b'\n",
    );

    let result = get_context_capsule(&conn, "bulk_update", "r", Some("src/a.py"), &Settings::default(), &Vec::new()).unwrap();
    assert!(
        result.optimized_text.contains("return 'a'"),
        "should resolve to src/a.py variant: {}",
        result.optimized_text
    );
    assert!(
        !result.optimized_text.contains("return 'b'"),
        "src/b.py variant should not appear: {}",
        result.optimized_text
    );
}

#[test]
fn capsule_filepath_mismatch_returns_not_found() {
    let conn = make_db();
    insert_node(
        &conn,
        "r:src/a.py:bulk_update",
        "r",
        "src/a.py",
        "py",
        "bulk_update",
        "function",
        "def bulk_update():\n    pass\n",
    );

    let err =
        get_context_capsule(&conn, "bulk_update", "r", Some("src/nonexistent.py"), &Settings::default(), &Vec::new()).unwrap_err();
    let msg = err.text();
    assert!(msg.contains("not found"), "expected not-found error: {msg}");
}

#[test]
fn impact_disambiguates_by_filepath() {
    let conn = make_db();
    insert_node(
        &conn,
        "r:src/a.py:bulk_update",
        "r",
        "src/a.py",
        "py",
        "bulk_update",
        "function",
        "def bulk_update():\n    return 'a'\n",
    );
    insert_node(
        &conn,
        "r:src/b.py:bulk_update",
        "r",
        "src/b.py",
        "py",
        "bulk_update",
        "function",
        "def bulk_update():\n    return 'b'\n",
    );
    insert_node(
        &conn,
        "r:src/a.py:caller",
        "r",
        "src/a.py",
        "py",
        "caller",
        "function",
        "def caller(): bulk_update()\n",
    );
    insert_edge(
        &conn,
        "r:src/a.py:caller",
        "r:src/a.py:bulk_update",
        "CALLS",
    );

    let result = analyze_impact(&conn, "bulk_update", "r", Some("src/a.py"), &Settings::default()).unwrap();
    assert_eq!(result.affected.len(), 1);
    assert_eq!(result.affected[0].symbol_name, "caller");
}

#[test]
fn capsule_auto_condenses_oversized_pivot() {
    // Build a pivot whose raw_text exceeds MAX_PIVOT_BYTES.
    let conn = make_db();
    let big_body = format!(
        "class BigModel < ApplicationRecord\n{}end\n",
        "  has_many :things\n".repeat(2000)
    );
    assert!(
        big_body.len() > MAX_PIVOT_BYTES,
        "test fixture must exceed cap: {} vs {}",
        big_body.len(),
        MAX_PIVOT_BYTES
    );
    insert_node(
        &conn,
        "r:m.rb:BigModel",
        "r",
        "m.rb",
        "rb",
        "BigModel",
        "class",
        &big_body,
    );
    let result = get_context_capsule(&conn, "BigModel", "r", None, &Settings::default(), &Vec::new()).unwrap();
    assert!(
        result.optimized_text.contains("CONDENSED SOURCE"),
        "oversized pivot should be condensed: {}",
        &result.optimized_text[..200.min(result.optimized_text.len())]
    );
    assert!(
        result
            .optimized_text
            .contains("MARROW_CAPSULE_MAX_PIVOT_BYTES"),
        "condensed output should mention the env var"
    );
    // The condensed text should NOT contain the full repeated body.
    assert!(
        result.optimized_text.len() < big_body.len(),
        "condensed capsule ({}) should be smaller than raw pivot ({})",
        result.optimized_text.len(),
        big_body.len()
    );
}

#[test]
fn capsule_small_pivot_gets_full_source() {
    let conn = make_db();
    let small_body = "def tiny():\n    return 1\n";
    assert!(small_body.len() < MAX_PIVOT_BYTES);
    insert_node(
        &conn,
        "r:f.py:tiny",
        "r",
        "f.py",
        "py",
        "tiny",
        "function",
        small_body,
    );
    let result = get_context_capsule(&conn, "tiny", "r", None, &Settings::default(), &Vec::new()).unwrap();
    assert!(
        result.optimized_text.contains("FULL SOURCE"),
        "small pivot should get full source: {}",
        result.optimized_text
    );
    assert!(
        !result.optimized_text.contains("CONDENSED SOURCE"),
        "small pivot should not be condensed"
    );
}

#[test]
fn capsule_no_filepath_still_errors_on_ambiguity() {
    let conn = make_db();
    insert_node(
        &conn,
        "r:src/a.py:dup",
        "r",
        "src/a.py",
        "py",
        "dup",
        "function",
        "def dup(): pass\n",
    );
    insert_node(
        &conn,
        "r:src/b.py:dup",
        "r",
        "src/b.py",
        "py",
        "dup",
        "function",
        "def dup(): pass\n",
    );

    // Disambiguation without filepath is now a successful payload, not an error.
    let result = get_context_capsule(&conn, "dup", "r", None, &Settings::default(), &Vec::new()).unwrap();
    assert!(
        result.optimized_text.contains("Found 2 matches"),
        "should return disambiguation payload without filepath: {}",
        result.optimized_text
    );
}

fn source(path: &str, text: &str) -> SourceFile {
    SourceFile { path: path.to_string(), len: Some(text.len()), text: Some(text.to_string()) }
}

#[test]
fn capsule_default_outbound_cap_is_50_and_env_override_still_works() {
    assert_eq!(capsule_max_outbound_neighbors(None), 50);
    assert_eq!(capsule_max_outbound_neighbors(Some("7")), 7);
}

#[test]
fn capsule_at_outbound_cap_keeps_cap_note_and_single_expansion_cta() {
    let limits = Settings { max_outbound: capsule_max_outbound_neighbors(Some("1")), ..Settings::default() };

    let conn = make_db();
    insert_node(&conn, "r:f.py:caller", "r", "f.py", "py", "caller", "function", "def caller():\n    first()\n    second()\n");
    insert_node(&conn, "r:f.py:first", "r", "f.py", "py", "first", "function", "def first():\n    return 1\n");
    insert_node(&conn, "r:f.py:second", "r", "f.py", "py", "second", "function", "def second():\n    return 2\n");
    insert_edge(&conn, "r:f.py:caller", "r:f.py:first", "CALLS");
    insert_edge(&conn, "r:f.py:caller", "r:f.py:second", "CALLS");

    let result = get_context_capsule(&conn, "caller", "r", None, &limits, &Vec::new()).unwrap();

    let text = &result.optimized_text;
    assert!(
        text.contains("[Note: at most 1 outbound neighbors loaded"),
        "outbound cap note missing: {text}"
    );
    assert_eq!(
        text.matches("Expand a neighbor").count(),
        1,
        "capped outbound capsule should still emit one expansion CTA: {text}"
    );
}

#[test]
fn capsule_skips_missing_file_gracefully() {
    let conn = make_db();
    insert_repo(&conn, "r", "/tmp/gone");
    insert_node(&conn, "r:src/missing.py:foo", "r", "src/missing.py", "py", "foo", "function", "def foo():\n    return 42\n");

    // A file that is not on disk is not handed over; the capsule still succeeds.
    let result = get_context_capsule(&conn, "foo", "r", None, &Settings::default(), &Vec::new()).unwrap();
    assert!(
        result.optimized_text.contains("foo"),
        "pivot should still be present: {}",
        result.optimized_text
    );
    assert!(
        result.original_text.is_empty(),
        "original_text should be empty when file is missing"
    );
}

#[test]
fn concat_full_original_sorted_by_path_not_by_content() {
    let mut touched = Vec::new();
    insert_ascending(&mut touched, "z.txt");
    insert_ascending(&mut touched, "a.txt");
    let files = vec![source("z.txt", "zzz"), source("a.txt", "aaa")];
    let (s, trunc, omit) = concat_full_original_text_sorted(true, &touched, None, &files);
    assert!(!trunc);
    assert!(omit.is_empty());
    assert_eq!(s, "aaa\nzzz");
}

#[test]
fn concat_full_original_budget_skips_using_metadata_without_full_read() {
    let mut touched = Vec::new();
    insert_ascending(&mut touched, "a.txt");
    insert_ascending(&mut touched, "b.bin");
    // Only the size of the second file is known.
    let files = vec![
        source("a.txt", "small"),
        SourceFile { path: "b.bin".to_string(), len: Some(100_000), text: None },
    ];
    let (s, trunc, omit) = concat_full_original_text_sorted(true, &touched, Some(20), &files);
    assert!(trunc);
    assert_eq!(s, "small");
    assert!(omit.iter().any(|p| p == "b.bin"));
}

#[test]
fn capsule_none_mode_empty_original_metadata_file_tokens() {
    let files = vec![source("src/a.py", "aaaa"), source("src/b.py", "bbbbbbbb")];

    let conn = make_db();
    insert_repo(&conn, "r", "/tmp/r");
    insert_node(&conn, "r:src/a.py:fa", "r", "src/a.py", "py", "fa", "function", "def fa():\n  pass\n");
    insert_node(&conn, "r:src/b.py:fb", "r", "src/b.py", "py", "fb", "function", "def fb():\n  pass\n");
    insert_edge(&conn, "r:src/a.py:fa", "r:src/b.py:fb", "CALLS");

    let result = get_context_capsule(&conn, "fa", "r", None, &Settings::default(), &files).unwrap();
    assert!(result.original_text.is_empty());
    assert!(!result.optimized_text.is_empty());
    assert_eq!(result.file_tokens, 3, "4/4 + 8/4 = 1 + 2");
    assert_eq!(result.provenance.baseline_token_source, "estimated");
    assert_eq!(result.provenance.original_mode, "none");
    let proof = result
        .proof_snapshot
        .as_ref()
        .expect("default mode should include bounded proof");
    assert!(
        proof.proof_text.contains("aaaa"),
        "proof should include touched source sample: {proof:?}"
    );
    assert_eq!(proof.token_source, "estimated");

    let mode = capsule_original_mode(Some("1"), None);
    let full = Settings { original_mode: mode, ..Settings::default() };
    let result_full = get_context_capsule(&conn, "fa", "r", None, &full, &files).unwrap();
    assert!(
        result_full.original_text.contains("aaaa"),
        "legacy full mode should load sources: {}",
        result_full.original_text
    );
}

#[test]
fn capsule_full_mode_labels_full_and_truncated_full_provenance() {
    let mode = capsule_original_mode(None, Some("full"));
    assert_eq!(mode, CapsuleOriginalMode::Full);
    let limits = Settings { original_mode: mode, ..Settings::default() };
    let files = vec![source("src/a.py", "aaaa"), source("src/b.py", "bbbbbbbbbbbbbbbb")];

    let conn = make_db();
    insert_repo(&conn, "r", "/tmp/r");
    insert_node(&conn, "r:src/a.py:fa", "r", "src/a.py", "py", "fa", "function", "def fa(): pass");
    insert_node(&conn, "r:src/b.py:fb", "r", "src/b.py", "py", "fb", "function", "def fb(): pass");
    insert_edge(&conn, "r:src/a.py:fa", "r:src/b.py:fb", "CALLS");

    let full = get_context_capsule(&conn, "fa", "r", None, &limits, &files).unwrap();
    assert!(full.original_text.contains("aaaa"));
    assert!(full.original_text.contains("bbbbbbbbbbbbbbbb"));
    assert!(full.proof_snapshot.is_none());
    assert_eq!(full.provenance.baseline_token_source, "full");
    assert_eq!(full.provenance.original_mode, "full");
    assert_eq!(full.provenance.proof_label, "full");
    assert_eq!(full.provenance.original_max_bytes, None);

    let limits = Settings { original_max_bytes: capsule_original_text_max_bytes(Some("8")), ..limits };
    let truncated = get_context_capsule(&conn, "fa", "r", None, &limits, &files).unwrap();
    assert!(truncated.original_text.contains("aaaa"));
    assert!(truncated.original_text.contains("original_text truncated"));
    assert!(truncated.proof_snapshot.is_none());
    assert_eq!(truncated.provenance.baseline_token_source, "truncated_full");
    assert_eq!(truncated.provenance.proof_label, "truncated_full");
    assert_eq!(truncated.provenance.original_max_bytes, Some(8));
}

#[test]
fn precise_token_measurement_reports_failed_touched_files() {
    let conn = make_db();
    insert_repo(&conn, "r", "/tmp/gone");
    insert_node(&conn, "r:src/missing.py:fa", "r", "src/missing.py", "py", "fa", "function", "def fa(): pass");

    let measured = measure_precise_tokens_touched_by_capsule(
        &conn,
        "fa",
        "r",
        None,
        &Settings::default(),
        &Vec::new(),
    )
    .unwrap();
    assert_eq!(measured.tokens, 0);
    assert_eq!(measured.touched_file_count, 1);
    assert_eq!(measured.measured_file_count, 0);
    assert_eq!(measured.failed_paths, vec!["src/missing.py".to_string()]);
    assert_eq!(measured.tokenizer_mode, "cl100k_base");
}

#[test]
fn capsule_proof_reports_sampling_and_truncation_bounds() {
    let limits = Settings {
        proof_max_bytes: capsule_proof_max_bytes(Some("64")),
        proof_max_files: capsule_proof_max_files(Some("1")),
        ..Settings::default()
    };
    let files = vec![
        source("src/a.py", "aaaaaaaaaaaaaaaaaaaaaaaaaaaaaaaaaaaaaaaa"),
        source("src/b.py", "bbbbbbbb"),
    ];

    let conn = make_db();
    insert_repo(&conn, "r", "/tmp/r");
    insert_node(&conn, "r:src/a.py:fa", "r", "src/a.py", "py", "fa", "function", "def fa(): pass");
    insert_node(&conn, "r:src/b.py:fb", "r", "src/b.py", "py", "fb", "function", "def fb(): pass");
    insert_edge(&conn, "r:src/a.py:fa", "r:src/b.py:fb", "CALLS");

    let result = get_context_capsule(&conn, "fa", "r", None, &limits, &files).unwrap();
    let proof = result.proof_snapshot.expect("proof snapshot");
    assert!(
        proof.sampled,
        "many touched files should be sampled: {proof:?}"
    );
    assert!(
        proof.truncated,
        "small proof byte cap should truncate: {proof:?}"
    );
    assert_eq!(proof.max_bytes, 64);
    assert_eq!(proof.max_files, 1);
}
