use marrow::arguments::{
    parse_batch_queries, parse_dependency_graph_options, parse_find_symbol_limit,
};
use marrow::batch::execute_batch_queries;
use marrow::bench::{
    benchmark_measurement, benchmark_repository_choices, benchmark_symbol_choices,
    format_benchmark_table, tokens_saved,
};
use marrow::capsule::format_capsule_string;
use marrow::cli::{mcp_session_finish_state, session_detail, ActivityState};
use marrow::files::SourceFile;
use marrow::json::{get, get_text, text_value, Json, Member};
use marrow::model::{
    BatchIntent, BatchOptions, BatchQuery, CapsuleProvenance, ContextCapsule, DependencyDirection,
    DependencyGraphOptions, NodeInfo,
};
use marrow::pipeline::{
    dashboard_events_from_batch_telemetry, dispatch_run_pipeline_find_symbol, run_plan,
    DashboardEvent,
};
use marrow::server::{
    apply_compliance_gate, ensure_repo_ready, plan_intent, run_pipeline_invalid_intent_message,
    Plan,
};
use marrow::settings::{Settings, GRAPH_MAX_NODES};
use marrow::symbols::FIND_SYMBOL_DEFAULT_LIMIT;
use marrow::tokens::count_tokens;
use marrow::tools::{list_tools, run_pipeline_schema, SERVER_INSTRUCTIONS};
use rusqlite::Connection;

fn make_db() -> Connection {
    let conn = Connection::open_in_memory().unwrap();
    conn.execute_batch(
        "CREATE TABLE repositories (id TEXT PRIMARY KEY, root_path TEXT NOT NULL);
         CREATE TABLE nodes (
             id TEXT PRIMARY KEY, repo_id TEXT NOT NULL,
             file_path TEXT NOT NULL, language TEXT NOT NULL,
             symbol_name TEXT NOT NULL, symbol_type TEXT NOT NULL,
             raw_text TEXT NOT NULL
         );
         CREATE TABLE edges (
             source_id TEXT NOT NULL, target_id TEXT NOT NULL,
             relationship_type TEXT NOT NULL,
             PRIMARY KEY (source_id, target_id, relationship_type)
         );
         CREATE VIRTUAL TABLE nodes_fts USING fts5(
             symbol_name,
             content='nodes',
             content_rowid='rowid',
             tokenize='unicode61 remove_diacritics 2'
         );
         CREATE TRIGGER nodes_fts_ai AFTER INSERT ON nodes BEGIN
             INSERT INTO nodes_fts(rowid, symbol_name) VALUES (new.rowid, new.symbol_name);
         END;",
    )
    .unwrap();
    conn
}

fn insert_benchmark_repo(conn: &Connection, id: &str, root_path: &str) {
    conn.execute(
        "INSERT INTO repositories (id, root_path) VALUES (?1, ?2)",
        [id, root_path],
    )
    .unwrap();
}

fn insert_benchmark_node(
    conn: &Connection,
    repo_id: &str,
    file_path: &str,
    language: &str,
    symbol_name: &str,
    symbol_type: &str,
    raw_text: &str,
) {
    let id = format!("{repo_id}:{file_path}:{symbol_name}");
    conn.execute(
        "INSERT INTO nodes (id, repo_id, file_path, language, symbol_name, symbol_type, raw_text)
         VALUES (?1, ?2, ?3, ?4, ?5, ?6, ?7)",
        [id.as_str(), repo_id, file_path, language, symbol_name, symbol_type, raw_text],
    )
    .unwrap();
}

fn object(members: Vec<(&str, Json)>) -> Vec<Member> {
    members
        .into_iter()
        .map(|(key, value)| Member { key: key.to_string(), value })
        .collect()
}

fn nested(members: Vec<(&str, Json)>) -> Json {
    Json::Object(object(members))
}

fn members_of(value: &Json) -> &Vec<Member> {
    match value {
        Json::Object(members) => members,
        other => panic!("expected an object, got {other:?}"),
    }
}

fn texts_of(value: &Json) -> Vec<String> {
    match value {
        Json::List(values) => values
            .iter()
            .map(|v| match v {
                Json::Text(s) => s.clone(),
                other => panic!("expected a text, got {other:?}"),
            })
            .collect(),
        other => panic!("expected a list, got {other:?}"),
    }
}

#[test]
fn count_tokens_nonempty_returns_nonzero() {
    let n = count_tokens("hello world").unwrap();
    assert!(n > 0, "expected >0 tokens for 'hello world', got {n}");
    assert_eq!(n, 2);
}

#[test]
fn count_tokens_empty_returns_zero() {
    let n = count_tokens("").unwrap();
    assert_eq!(n, 0);
}

#[test]
fn mcp_session_finish_state_marks_disconnect_and_error() {
    let ok: Result<(), String> = Ok(());
    assert_eq!(mcp_session_finish_state(&ok), ActivityState::Stopped);
    assert_eq!(session_detail(ActivityState::Stopped), "stdio session disconnected");

    let err: Result<(), String> = Err("stdio failed".to_string());
    assert_eq!(mcp_session_finish_state(&err), ActivityState::Error);
    assert_eq!(session_detail(ActivityState::Error), "stdio session error");
}

#[test]
fn format_capsule_string_includes_pivot_text_and_no_neighbor_marker() {
    let capsule = ContextCapsule {
        pivot: NodeInfo {
            id: "r:f.py:foo".to_string(),
            symbol_name: "foo".to_string(),
            symbol_type: "function".to_string(),
            file_path: "f.py".to_string(),
            language: "py".to_string(),
            text: "def foo(): pass".to_string(),
        },
        neighbors: vec![],
    };
    let s = format_capsule_string(&capsule);
    assert!(s.contains("foo"), "symbol name missing: {s}");
    assert!(s.contains("def foo(): pass"), "pivot text missing: {s}");
    assert!(s.contains("none"), "isolated-symbol marker missing: {s}");
}

/// The share that was saved, as it is shown.
fn reduction(file_tokens: usize, capsule_tokens: usize) -> String {
    let saved = tokens_saved(file_tokens, capsule_tokens);
    format!("{:.1}%", saved as f64 / file_tokens as f64 * 100.0)
}

#[test]
fn format_benchmark_table_contains_all_metrics() {
    let provenance = CapsuleProvenance {
        baseline_token_source: "exact".to_string(),
        tokenizer_mode: "cl100k_base".to_string(),
        original_mode: "none".to_string(),
        proof_label: "cached_proof".to_string(),
        precise_file_tokens: true,
        original_max_bytes: None,
        proof_max_bytes: 16_384,
        proof_max_files: 8,
        touched_file_count: 2,
    };
    let table = format_benchmark_table(
        "my_func",
        "my_repo",
        "src/foo.cpp",
        1_000,
        100,
        &provenance,
        &reduction(1_000, 100),
    );
    // Header info
    assert!(table.contains("my_func"), "symbol missing:\n{table}");
    assert!(table.contains("my_repo"), "repo missing:\n{table}");
    assert!(table.contains("src/foo.cpp"), "file path missing:\n{table}");
    // Metric values
    assert!(table.contains("1,000"), "file tokens missing:\n{table}");
    assert!(table.contains("100"), "capsule tokens missing:\n{table}");
    assert!(table.contains("900"), "saved tokens missing:\n{table}");
    assert!(table.contains("90.0%"), "reduction % missing:\n{table}");
    assert!(table.contains("exact"), "baseline source missing:\n{table}");
    assert!(table.contains("cl100k_base"), "tokenizer missing:\n{table}");
}

#[test]
fn nothing_saved_is_shown_as_no_reduction() {
    for (file_tokens, capsule_tokens) in [(0, 0), (0, 7), (5, 5), (5, 9)] {
        let table = format_benchmark_table(
            "s",
            "r",
            "f.py",
            file_tokens,
            capsule_tokens,
            &CapsuleProvenance::default(),
            "77.7%",
        );
        assert!(table.contains("0.0%") && !table.contains("77.7%"), "{table}");
        assert!(table.lines().all(|line| line.chars().count() == 69), "{table}");
    }
    let table = format_benchmark_table(
        "s",
        "r",
        "f.py",
        10,
        4,
        &CapsuleProvenance::default(),
        "60.0%",
    );
    assert!(table.contains("60.0%"), "{table}");
}

#[test]
fn format_benchmark_table_zero_reduction_when_equal() {
    let table = format_benchmark_table(
        "s",
        "r",
        "f.py",
        500,
        500,
        &CapsuleProvenance::default(),
        &reduction(500, 500),
    );
    assert!(table.contains("Tokens Saved"), "label missing:\n{table}");
    assert!(table.contains("0.0%"), "reduction should be 0.0%:\n{table}");
}

#[test]
fn benchmark_repository_choices_are_bounded_and_deterministic() {
    let conn = make_db();
    insert_benchmark_repo(&conn, "repo_c", "/tmp/c");
    insert_benchmark_repo(&conn, "repo_a", "/tmp/a");
    insert_benchmark_repo(&conn, "repo_b", "/tmp/b");

    let choices = benchmark_repository_choices(&conn, 2).unwrap();

    assert_eq!(choices.len(), 2);
    assert_eq!(choices[0].repo_id, "repo_a");
    assert_eq!(choices[0].root_path, "/tmp/a");
    assert_eq!(choices[1].repo_id, "repo_b");
}

#[test]
fn benchmark_symbol_choices_scope_search_filter_and_bound_results() {
    let conn = make_db();
    insert_benchmark_repo(&conn, "repo_a", "/tmp/a");
    insert_benchmark_repo(&conn, "repo_b", "/tmp/b");
    insert_benchmark_node(
        &conn,
        "repo_a",
        "src/foo.py",
        "py",
        "foo",
        "function",
        "def foo(): pass",
    );
    insert_benchmark_node(
        &conn,
        "repo_a",
        "src/foo_utils.ts",
        "ts",
        "helper",
        "function",
        "function helper() {}",
    );
    insert_benchmark_node(
        &conn,
        "repo_a",
        "src/widget.ts",
        "ts",
        "Widget",
        "class",
        "class Widget {}",
    );
    insert_benchmark_node(
        &conn,
        "repo_b",
        "src/foo.py",
        "py",
        "foo",
        "function",
        "def foo(): pass",
    );

    let (choices, limited) =
        benchmark_symbol_choices(&conn, "repo_a", "foo", Some("ts"), Some("function"), 10).unwrap();

    assert!(!limited);
    assert_eq!(choices.len(), 1);
    assert_eq!(choices[0].repo_id, "repo_a");
    assert_eq!(choices[0].symbol_name, "helper");
    assert_eq!(choices[0].file_path, "src/foo_utils.ts");

    let (choices, limited) = benchmark_symbol_choices(&conn, "repo_a", "", None, None, 2).unwrap();
    assert!(limited);
    assert_eq!(choices.len(), 2);
    assert!(choices.iter().all(|choice| choice.repo_id == "repo_a"));
}

#[test]
fn benchmark_measurement_uses_selected_filepath_for_duplicate_symbols() {
    let left = "def dupe():\n    return 'left'\n";
    let right = "def dupe():\n    return 'right'\n";
    let files = vec![
        SourceFile { path: "left.py".to_string(), len: Some(left.len()), text: Some(left.to_string()) },
        SourceFile { path: "right.py".to_string(), len: Some(right.len()), text: Some(right.to_string()) },
    ];

    let conn = make_db();
    insert_benchmark_repo(&conn, "repo", "/tmp/repo");
    insert_benchmark_node(&conn, "repo", "left.py", "py", "dupe", "function", left);
    insert_benchmark_node(&conn, "repo", "right.py", "py", "dupe", "function", right);

    let measurement = benchmark_measurement(
        &conn,
        "dupe",
        "repo",
        Some("right.py"),
        false,
        &Settings::default(),
        &files,
    )
    .unwrap();

    assert_eq!(measurement.file_path, "right.py");
    assert!(measurement.optimized_text.contains("return 'right'"));
    assert!(!measurement.optimized_text.contains("return 'left'"));
}

#[test]
fn mcp_guidance_text_balances_structural_and_native_tool_use() {
    let instructions = SERVER_INSTRUCTIONS;

    assert!(
        instructions.contains("structural questions"),
        "{instructions}"
    );
    assert!(instructions.contains("blast radius"), "{instructions}");
    assert!(instructions.contains("repo maps"), "{instructions}");
    assert!(instructions.contains("explore_batch"), "{instructions}");
    assert!(instructions.contains("dependency_graph"), "{instructions}");
    assert!(instructions.contains("map_class"), "{instructions}");
    assert!(
        instructions.contains("native read/search"),
        "{instructions}"
    );
    assert!(instructions.contains("single-file"), "{instructions}");
    assert!(instructions.contains("line-level"), "{instructions}");
    assert!(instructions.contains("config/docs"), "{instructions}");

    let tools = list_tools(GRAPH_MAX_NODES);
    let pipeline = tools.iter().find(|tool| tool.name == "run_pipeline").unwrap();
    let source = &pipeline.description;
    assert!(
        source.contains(
            "Use for code structure, dependencies, refactor blast radius, or codebase maps"
        ),
        "run_pipeline tool description should recommend structural use"
    );
    assert!(
        source.contains(
            "Skip for single-file lookups, line-level reads, and grep-style text search"
        ),
        "run_pipeline tool description should allow native narrow lookups"
    );
    assert!(
        source.contains("Use `find_symbol` to discover symbol names"),
        "run_pipeline tool description should document find_symbol discovery"
    );
    assert!(
        source.contains("Use 'explore_batch' for 3+ related"),
        "run_pipeline tool description should document batch exploration"
    );
    assert!(
        source.contains("'dependency_graph' for multi-hop"),
        "run_pipeline tool description should document dependency graph"
    );
    assert!(
        source.contains("'map_class' for"),
        "run_pipeline tool description should document class maps"
    );
}

#[test]
fn run_pipeline_schema_documents_find_symbol_kind_and_limit() {
    let schema = run_pipeline_schema(GRAPH_MAX_NODES);
    let properties = members_of(
        get(members_of(&schema), "properties").expect("schema properties should be an object"),
    );

    let intent_enum = texts_of(
        get(members_of(get(properties, "intent").unwrap()), "enum")
            .expect("intent enum should be present"),
    );
    assert!(
        intent_enum.iter().any(|value| value == "find_symbol"),
        "valid intent text should include find_symbol: {intent_enum:?}"
    );

    let kind_description = get_text(members_of(get(properties, "kind").unwrap()), "description")
        .expect("kind description should be present");
    assert!(
        kind_description.contains("find_symbol"),
        "kind should be documented as find_symbol-specific: {kind_description}"
    );

    let limit = members_of(
        get(properties, "limit").expect("run_pipeline schema should expose limit"),
    );
    assert_eq!(get_text(limit, "type"), Some("integer"));
    assert!(matches!(get(limit, "minimum"), Some(Json::Count(1))));
    assert!(
        matches!(get(limit, "default"), Some(Json::Count(n)) if *n == FIND_SYMBOL_DEFAULT_LIMIT as u64)
    );
    assert!(
        get_text(limit, "description")
            .unwrap_or_default()
            .contains("find_symbol"),
        "limit description should mention find_symbol: {limit:?}"
    );
}

#[test]
fn run_pipeline_schema_documents_compound_intents() {
    let schema = run_pipeline_schema(GRAPH_MAX_NODES);
    let properties = members_of(
        get(members_of(&schema), "properties").expect("schema properties should be an object"),
    );

    let intent_enum = texts_of(
        get(members_of(get(properties, "intent").unwrap()), "enum")
            .expect("intent enum should be present"),
    );
    for expected in ["explore_batch", "dependency_graph", "map_class"] {
        assert!(
            intent_enum.iter().any(|value| value == expected),
            "intent enum missing {expected}: {intent_enum:?}"
        );
    }

    for expected_property in [
        "queries",
        "depth",
        "direction",
        "include_source",
        "max_nodes",
    ] {
        assert!(
            get(properties, expected_property).is_some(),
            "schema missing {expected_property}: {properties:?}"
        );
    }
}

#[test]
fn run_pipeline_invalid_intent_text_lists_find_symbol() {
    let message = run_pipeline_invalid_intent_message();
    assert!(
        message.contains("'find_symbol'"),
        "invalid intent text should list find_symbol: {message}"
    );
    for expected in ["'explore_batch'", "'dependency_graph'", "'map_class'"] {
        assert!(
            message.contains(expected),
            "invalid intent text should list {expected}: {message}"
        );
    }
}

fn parse_batch_error(args: Vec<Member>) -> String {
    parse_batch_queries(&args).unwrap_err()
}

#[test]
fn explore_batch_parser_validates_query_shape_and_count() {
    let missing_queries = parse_batch_error(object(vec![]));
    assert!(
        missing_queries.contains("requires a `queries` array"),
        "unexpected missing queries error: {missing_queries}"
    );

    let empty_queries = parse_batch_error(object(vec![("queries", Json::List(vec![]))]));
    assert!(
        empty_queries.contains("requires 1 to 20 queries"),
        "unexpected empty queries error: {empty_queries}"
    );

    let too_many_queries = (0..21)
        .map(|idx| {
            nested(vec![
                ("intent", text_value("explore_symbol")),
                ("target", text_value(&format!("Symbol{idx}"))),
            ])
        })
        .collect::<Vec<_>>();
    let too_many = parse_batch_error(object(vec![("queries", Json::List(too_many_queries))]));
    assert!(
        too_many.contains("requires 1 to 20 queries"),
        "unexpected too many queries error: {too_many}"
    );

    let missing_intent = parse_batch_error(object(vec![(
        "queries",
        Json::List(vec![nested(vec![("target", text_value("Widget"))])]),
    )]));
    assert!(
        missing_intent.contains("query 1 requires `intent`"),
        "unexpected missing intent error: {missing_intent}"
    );

    let invalid_intent = parse_batch_error(object(vec![(
        "queries",
        Json::List(vec![nested(vec![
            ("intent", text_value("map_class")),
            ("target", text_value("Widget")),
        ])]),
    )]));
    assert!(
        invalid_intent.contains("query 1 has invalid intent `map_class`"),
        "unexpected invalid intent error: {invalid_intent}"
    );

    let missing_target = parse_batch_error(object(vec![(
        "queries",
        Json::List(vec![nested(vec![("intent", text_value("explore_symbol"))])]),
    )]));
    assert!(
        missing_target.contains("query 1 requires `target`"),
        "unexpected missing target error: {missing_target}"
    );
}

#[test]
fn explore_batch_parser_normalizes_aliases_and_graph_options() {
    let args = object(vec![(
        "queries",
        Json::List(vec![
            nested(vec![("intent", text_value("capsule")), ("target", text_value("Widget"))]),
            nested(vec![
                ("intent", text_value("analyze_impact")),
                ("target", text_value("Widget")),
            ]),
            nested(vec![
                ("intent", text_value("dependency_graph")),
                ("target", text_value("Widget")),
                ("depth", Json::Count(3)),
                ("direction", text_value("callees")),
                ("include_source", Json::Bool(true)),
                ("max_nodes", Json::Count(7)),
            ]),
        ]),
    )]);

    let queries = parse_batch_queries(&args).unwrap();
    assert_eq!(queries.len(), 3);
    assert_eq!(queries[0].intent, BatchIntent::ExploreSymbol);
    assert_eq!(queries[1].intent, BatchIntent::RefactorSymbol);
    assert_eq!(queries[2].intent, BatchIntent::DependencyGraph);
    assert_eq!(queries[2].depth, Some(3));
    assert_eq!(queries[2].direction, Some(DependencyDirection::Callees));
    assert!(queries[2].include_source);
    assert_eq!(queries[2].max_nodes, Some(7));
}

fn parse_graph_options_error(args: Vec<Member>) -> String {
    parse_dependency_graph_options(&args, &Settings::default()).unwrap_err()
}

#[test]
fn dependency_graph_options_validate_bounds_and_types() {
    let valid = object(vec![
        ("depth", Json::Count(5)),
        ("direction", text_value("callers")),
        ("include_source", Json::Bool(true)),
        ("max_nodes", Json::Count(3)),
    ]);
    let options = parse_dependency_graph_options(&valid, &Settings::default()).unwrap();
    assert_eq!(options.depth, 5);
    assert_eq!(options.direction, DependencyDirection::Callers);
    assert!(options.include_source);
    assert_eq!(options.max_nodes, 3);

    for (payload, expected) in [
        (vec![("depth", Json::Count(0))], "`depth` must be a positive integer"),
        (vec![("depth", Json::Count(6))], "`depth` must be between 1 and 5"),
        (vec![("direction", Json::Count(7))], "`direction` must be a string"),
        (
            vec![("direction", text_value("sideways"))],
            "expected callers, callees, or both",
        ),
        (
            vec![("include_source", text_value("true"))],
            "`include_source` must be a boolean",
        ),
        (
            vec![("max_nodes", Json::Count(0))],
            "`max_nodes` must be a positive integer",
        ),
    ] {
        let message = parse_graph_options_error(object(payload));
        assert!(
            message.contains(expected),
            "expected {expected:?} in error, got {message:?}"
        );
    }
}

#[test]
fn tool_registry_keeps_compound_intents_run_pipeline_only() {
    let tools = list_tools(GRAPH_MAX_NODES);
    assert!(
        tools.iter().any(|tool| tool.name == "run_pipeline"),
        "run_pipeline should remain the compound intent entry point"
    );
    for forbidden_tool in ["explore_batch", "dependency_graph", "map_class"] {
        assert!(
            !tools.iter().any(|tool| tool.name == forbidden_tool),
            "{forbidden_tool} must not be exposed as a top-level tool alias"
        );
    }
}

#[test]
fn ambiguous_names_are_counted() {
    let conn = make_db();
    insert_benchmark_repo(&conn, "repo", "/tmp/repo");
    insert_benchmark_node(&conn, "repo", "src/a.rs", "rs", "A", "function", "fn A() {}");
    insert_benchmark_node(&conn, "repo", "src/b.rs", "rs", "A", "function", "fn A() {}");
    insert_benchmark_node(&conn, "repo", "src/c.rs", "rs", "C", "function", "fn C() {}");
    let limits = Settings::default();
    let counted = |plan: &Plan| -> i64 {
        let reply = run_plan(&conn, "repo", plan, &limits, &Vec::new()).unwrap();
        reply
            .stats
            .iter()
            .filter(|change| change.key == "ambiguous_symbol_requests")
            .map(|change| {
                assert!(!change.required);
                change.by
            })
            .sum()
    };
    for (name, times) in [("A", 1), ("C", 0)] {
        let target = || name.to_string();
        let options = DependencyGraphOptions::default;
        assert_eq!(counted(&Plan::Explore { target: target(), filepath: None }), times);
        assert_eq!(counted(&Plan::Trace { target: target(), filepath: None }), times);
        assert_eq!(counted(&Plan::Refactor { target: target(), filepath: None }), times);
        assert_eq!(counted(&Plan::MapClass { target: target(), filepath: None }), times);
        assert_eq!(
            counted(&Plan::Graph { target: target(), filepath: None, options: options() }),
            times
        );
    }
    let args = object(vec![(
        "queries",
        Json::List(
            ["explore_symbol", "trace_flow", "refactor_symbol", "dependency_graph", "find_symbol"]
                .iter()
                .map(|intent| {
                    nested(vec![("intent", text_value(intent)), ("target", text_value("A"))])
                })
                .collect(),
        ),
    )]);
    assert_eq!(counted(&plan_intent("explore_batch", &args, &limits).unwrap()), 4);
}

#[test]
fn explore_batch_dispatch_records_aggregate_batch_stats() {
    let conn = make_db();
    insert_benchmark_repo(&conn, "repo", "/tmp/repo");
    insert_benchmark_node(&conn, "repo", "src/a.rs", "rs", "A", "function", "fn A() {}");
    let args = object(vec![(
        "queries",
        Json::List(vec![nested(vec![
            ("intent", text_value("explore_symbol")),
            ("target", text_value("A")),
        ])]),
    )]);
    let increments = |max_bytes: usize| -> Vec<(&'static str, i64)> {
        let limits = Settings { batch_max_bytes: max_bytes, ..Settings::default() };
        let plan = plan_intent("explore_batch", &args, &limits).unwrap();
        let reply = run_plan(&conn, "repo", &plan, &limits, &Vec::new()).unwrap();
        reply.stats.iter().map(|change| (change.key, change.by)).collect()
    };

    let whole = increments(100_000);
    assert!(
        whole.contains(&("batch_requests", 1)),
        "batch request counter should be incremented in dispatch: {whole:?}"
    );
    assert!(
        whole.contains(&("batch_queries", 1)),
        "batch query counter should be incremented in dispatch: {whole:?}"
    );
    assert!(!whole.iter().any(|(key, _)| *key == "batch_truncated"), "{whole:?}");

    let cut = increments(10);
    assert!(
        cut.contains(&("batch_truncated", 1)),
        "batch truncation counter should be incremented when applicable: {cut:?}"
    );
}

#[test]
fn find_symbol_limit_parser_validates_positive_integer() {
    let valid = object(vec![("intent", text_value("find_symbol")), ("limit", Json::Count(2))]);
    assert_eq!(parse_find_symbol_limit(&valid).unwrap(), 2);

    let missing = object(vec![("intent", text_value("find_symbol"))]);
    assert_eq!(
        parse_find_symbol_limit(&missing).unwrap(),
        FIND_SYMBOL_DEFAULT_LIMIT
    );

    for invalid in [Json::Count(0), Json::Negative(-1), text_value("2")] {
        let args = object(vec![("intent", text_value("find_symbol")), ("limit", invalid)]);
        let err = parse_find_symbol_limit(&args).unwrap_err();
        assert!(
            err.contains("positive integer"),
            "unexpected limit validation error: {err}"
        );
    }
}

#[test]
fn run_pipeline_find_symbol_dispatch_forwards_kind_and_limit() {
    let conn = make_db();
    insert_benchmark_repo(&conn, "repo", "/tmp/repo");
    insert_benchmark_node(
        &conn,
        "repo",
        "src/a.rs",
        "rs",
        "process_alpha",
        "function",
        "fn process_alpha() { expensive_body(); }",
    );
    insert_benchmark_node(
        &conn,
        "repo",
        "src/b.rs",
        "rs",
        "process_beta",
        "function",
        "fn process_beta() {}",
    );
    insert_benchmark_node(
        &conn,
        "repo",
        "src/c.rs",
        "rs",
        "ProcessAlpha",
        "class",
        "class ProcessAlpha {}",
    );

    let out =
        dispatch_run_pipeline_find_symbol(&conn, "repo", "process", Some("function"), 1).unwrap();

    assert!(out.contains("Found 1 matches for 'process':"), "{out}");
    assert!(out.contains("(function: process_"), "{out}");
    assert!(!out.contains("ProcessAlpha"), "kind filter leaked: {out}");
    assert!(!out.contains("expensive_body"), "source body leaked: {out}");
    assert!(
        out.contains("capped at 1 matches"),
        "limit was not forwarded: {out}"
    );
}

#[test]
fn explore_batch_telemetry_reuses_existing_dashboard_events() {
    let conn = make_db();
    insert_benchmark_repo(&conn, "repo", "/tmp/repo");
    insert_benchmark_node(
        &conn,
        "repo",
        "src/a.rs",
        "rs",
        "A",
        "function",
        "fn A() { B(); }",
    );
    insert_benchmark_node(
        &conn,
        "repo",
        "src/b.rs",
        "rs",
        "B",
        "function",
        "fn B() {}",
    );
    conn.execute(
        "INSERT INTO edges (source_id, target_id, relationship_type) VALUES (?1, ?2, ?3)",
        ["repo:src/a.rs:A", "repo:src/b.rs:B", "CALLS"],
    )
    .unwrap();

    let batch_query = |intent: BatchIntent, target: &str| BatchQuery {
        intent,
        target: target.to_string(),
        filepath: None,
        kind: None,
        limit: None,
        depth: None,
        direction: None,
        include_source: false,
        max_nodes: None,
    };
    let execution = execute_batch_queries(
        &conn,
        &vec![
            batch_query(BatchIntent::ExploreSymbol, "A"),
            batch_query(BatchIntent::RefactorSymbol, "B"),
            batch_query(BatchIntent::DependencyGraph, "A"),
        ],
        BatchOptions {
            repo_id: "repo".to_string(),
            max_bytes: 100_000,
        },
        &Settings::default(),
        &Vec::new(),
    );

    assert_eq!(execution.query_count, 3);
    assert_eq!(execution.telemetry.len(), 3);
    let events = dashboard_events_from_batch_telemetry(execution.telemetry, "batch-agent", 7);
    assert_eq!(events.len(), 3);

    match &events[0] {
        DashboardEvent::CapsuleServed {
            symbol,
            repo,
            origin,
            optimized_text,
            ts,
            ..
        } => {
            assert_eq!(symbol, "A");
            assert_eq!(repo, "repo");
            assert_eq!(origin, "batch-agent");
            assert_eq!(*ts, 7);
            assert!(optimized_text.as_deref().unwrap_or_default().contains("A"));
        }
        other => panic!("expected CapsuleServed, got {other:?}"),
    }
    match &events[1] {
        DashboardEvent::ImpactAnalyzed {
            symbol,
            repo,
            affected_count,
            ..
        } => {
            assert_eq!(symbol, "B");
            assert_eq!(repo, "repo");
            assert_eq!(*affected_count, 1);
        }
        other => panic!("expected ImpactAnalyzed, got {other:?}"),
    }
    match &events[2] {
        DashboardEvent::SkeletonGenerated {
            target_dir,
            node_count,
            ..
        } => {
            assert_eq!(target_dir, "dependency_graph:repo:A");
            assert_eq!(*node_count, 1);
        }
        other => panic!("expected SkeletonGenerated, got {other:?}"),
    }
}

#[test]
fn compliance_gate_autoroutes_direct_capsule_call_in_default_mode() {
    let args = object(vec![
        ("symbol_name", text_value("bulk_update")),
        ("repo_id", text_value("accrualify-rails")),
    ]);

    let routed = apply_compliance_gate("get_context_capsule", args);

    assert_eq!(routed.tool_name, "run_pipeline");
    assert_eq!(get_text(&routed.args, "intent"), Some("explore_symbol"));
    assert_eq!(get_text(&routed.args, "target"), Some("bulk_update"));
    assert_eq!(get_text(&routed.args, "repo_id"), Some("accrualify-rails"));
    assert!(
        routed
            .notice
            .as_deref()
            .unwrap_or_default()
            .contains("auto-routed"),
        "expected compliance warning notice"
    );
}

#[test]
fn ensure_repo_ready_rejects_explicit_repo_id_for_other_workspace() {
    let conn = make_db();
    insert_benchmark_repo(&conn, "other_repo", "/tmp/indexed");

    // Repo exists in DB — should succeed even from a different workspace.
    let result = ensure_repo_ready(&conn, Some("other_repo"), None, "/tmp/current", true);
    assert!(
        result.is_ok(),
        "existing repo should be accepted: {:?}",
        result.err()
    );

    // Repo does NOT exist in DB — should be rejected.
    let err = ensure_repo_ready(&conn, Some("nonexistent_repo"), None, "/tmp/current", true)
        .unwrap_err();
    let msg = err.text();
    assert!(msg.contains("not found"), "expected not-found error: {msg}");
    assert!(
        msg.contains("ingest_repo"),
        "expected guidance to ingest: {msg}"
    );
}

#[test]
fn ensure_repo_ready_auto_indexes_empty_repo() {
    let conn = make_db();
    // No explicit repo id: the directory's name, which is to be indexed first.
    let ready = ensure_repo_ready(&conn, None, None, "/tmp/hello", true).unwrap();
    assert_eq!(ready.repo_id, "hello");
    assert!(ready.index_first);

    insert_benchmark_node(&conn, "hello", "hello.py", "py", "hello", "function", "def hello(): pass");
    let ready = ensure_repo_ready(&conn, None, None, "/tmp/hello", true).unwrap();
    assert!(!ready.index_first);
}
