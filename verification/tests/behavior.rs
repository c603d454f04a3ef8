use marrow::arguments::{parse_batch_queries, require_str};
use marrow::batch::{
    absolute_symbol_file_path, canonical_batch_key, cap_batch_sections_fifo, execute_batch_queries,
};
use marrow::bench::{
    benchmark_distinct_node_values, benchmark_measurement, benchmark_repo_symbol_count,
    benchmark_repository_choices, filter_choice, fmt_num, pick_symbol, repository_label, symbol_menu, BenchmarkRepositoryChoice, SymbolPick,
};
use marrow::capsule::{context_capsule_files, get_context_capsule, repository_root};
use marrow::class_map::{path_category, PathCategory};
use marrow::cli::{
    capsule_totals, graph_symbols, parse_benchmark_args, parse_command, parse_context_args,
    parse_daemon_command, parse_index_args, parse_ui_app_command, query_impact_text,
    resolve_context_repo_id, strip_id_suffix, BenchmarkArgs, Command, ContextCall, DaemonCommand,
    UiAppCommand,
};
use marrow::condense::{condense, outermost_range, replace_body, Placeholder};
use marrow::config::{auto_open, merge_vscode_config, server_flags, toggle_auto_open};
use marrow::files::{
    build_bounded_proof_snapshot, concat_full_original_text_sorted, file_tokens_metadata_estimate,
    measure_files, sampled_paths, tally_tokens, SourceFile,
};
use marrow::graph::{dependency_graph, BAD_DEPTH};
use marrow::impact::{analyze_impact, format_impact_result};
use marrow::installer::{
    chosen_ways, direct_request, edit_step, picked_entries, registration_line, rule_line, rule_step,
    skill_line, skill_step, universal_line, EditStep, Mark, RuleStep, SkillStep,
};
use marrow::install::{
    chooses_editor_config, chosen_rule_files, universal_agent_menu, workspace_menu,
    write_mode_for_choice, AgentMenuEntry, AgentOutcome,
};
use marrow::config::{config_edits, ConfigWriter, LaunchPlace};
use marrow::json::{get, get_text, put, put_entry, text_value, Json, Member};
use marrow::launch::{gui_safe_path, Platform};
use marrow::model::{
    BatchIntent, BatchOptions, BatchQuery, CapsuleOriginalMode, DependencyDirection,
    DependencyGraphOptions, ImpactResult,
};
use marrow::order::insert_ascending;
use marrow::paths::{
    extension, file_name, is_within, join_path, parent, resolve_repo_file_path,
};
use marrow::perf::{
    database_files, parse_perf_args, perf_line, perf_payload, query_symbol, PerfRun, NO_SYMBOLS,
};
use marrow::rules::{plan_rule_file, RuleWrite, WriteMode, MARROW_HEADER};
use marrow::server::{
    ancestors, apply_compliance_gate, closing_stats, fallback_repo_id_for_path, graph_node_count,
    indexing_failed, ingest_gate, ingested, map_target_dir, parse_tool_call, pick_workspace_root,
    pipeline_gate, plan_intent, resolve_request_repo_id, should_retry_indexing, with_notices,
    ComplianceAction, Plan, PipelineGate, RefusalKind, ToolCall, AUTO_INDEXED, EMPTY_GRAPH,
    PROTECTED_DIRECTORY,
};
use marrow::settings::{
    capsule_original_mode, capsule_original_text_max_bytes, env_truthy, env_usize_positive,
    Settings, MAX_OUTBOUND,
};
use marrow::skeleton::get_project_skeleton;
use marrow::symbols::{
    escape_like_pattern, find_symbols, fts_prefix_query, like_contains_pattern,
    normalize_path_separators, EMPTY_QUERY,
};
use marrow::targets::{
    agent_skill_target_by_name, integration_target_by_name, is_universal_agent_name,
    normalize_integration_name, Agent, InstallStatus, Method, Scope,
};
use marrow::text::{byte_len, decimal_text, parse_size, prefix_by_bytes, signed_text};
use marrow::tokens::{count_tokens, counted, NOT_TOKENIZED};
use marrow::trace::trace_logic_flow;
use marrow::store::Changes;
use marrow::watch::{is_watched, node_id, relative_path, replace_file_nodes, ParsedSymbol};
use rusqlite::Connection;

fn make_db() -> Connection {
    let conn = Connection::open_in_memory().unwrap();
    conn.execute_batch(
        "CREATE TABLE repositories (id TEXT PRIMARY KEY, root_path TEXT NOT NULL);
         CREATE TABLE nodes (
             id TEXT PRIMARY KEY, repo_id TEXT NOT NULL,
             file_path TEXT NOT NULL, language TEXT NOT NULL,
             symbol_name TEXT NOT NULL, symbol_type TEXT NOT NULL,
             raw_text TEXT NOT NULL
         );
         CREATE TABLE edges (
             source_id TEXT NOT NULL, target_id TEXT NOT NULL,
             relationship_type TEXT NOT NULL,
             PRIMARY KEY (source_id, target_id, relationship_type)
         );
         CREATE VIRTUAL TABLE nodes_fts USING fts5(
             symbol_name, content='nodes', content_rowid='rowid',
             tokenize='unicode61 remove_diacritics 2'
         );
         CREATE TRIGGER nodes_fts_ai AFTER INSERT ON nodes BEGIN
             INSERT INTO nodes_fts(rowid, symbol_name) VALUES (new.rowid, new.symbol_name);
         END;",
    )
    .unwrap();
    conn
}

fn insert_node(conn: &Connection, id: &str, file: &str, name: &str, raw: &str) {
    conn.execute(
        "INSERT INTO nodes VALUES (?1,'r',?2,'rs',?3,'function',?4)",
        [id, file, name, raw],
    )
    .unwrap();
}

fn insert_edge(conn: &Connection, source: &str, target: &str) {
    conn.execute("INSERT INTO edges VALUES (?1,?2,'CALLS')", [source, target]).unwrap();
}

fn words(list: &[&str]) -> Vec<String> {
    list.iter().map(|s| s.to_string()).collect()
}

fn object(members: Vec<(&str, Json)>) -> Vec<Member> {
    members
        .into_iter()
        .map(|(key, value)| Member { key: key.to_string(), value })
        .collect()
}

fn source(path: &str, text: &str) -> SourceFile {
    SourceFile { path: path.to_string(), len: Some(text.len()), text: Some(text.to_string()) }
}

// ── Texts ────────────────────────────────────────────────────────────────────

#[test]
fn numbers_are_written_and_read() {
    assert_eq!(decimal_text(0), "0");
    assert_eq!(decimal_text(u64::MAX), "18446744073709551615");
    assert_eq!(signed_text(i64::MIN), "-9223372036854775808");
    assert_eq!(parse_size("007"), Some(7));
    assert_eq!(parse_size("+7"), Some(7));
    assert_eq!(parse_size(""), None);
    assert_eq!(parse_size("-1"), None);
    assert_eq!(parse_size("99999999999999999999999"), None);
}

#[test]
fn prefixes_end_between_characters() {
    assert_eq!(prefix_by_bytes("a\u{2603}b", 3), "a");
    assert_eq!(prefix_by_bytes("a\u{2603}b", 4), "a\u{2603}");
    assert_eq!(byte_len("a\u{2603}b"), 5);
}

#[test]
fn paths_are_taken_apart() {
    assert_eq!(join_path("/a", "b"), "/a/b");
    assert_eq!(join_path("/a", "/b"), "/b");
    assert_eq!(file_name("/a/b.rs").as_deref(), Some("b.rs"));
    assert_eq!(file_name("/"), None);
    assert_eq!(parent("/a/b").as_deref(), Some("/a"));
    assert_eq!(parent("/"), None);
    assert_eq!(extension("x/archive.tar.gz").as_deref(), Some("gz"));
    assert_eq!(extension(".hidden"), None);
    assert!(is_within("/a/b/c", "/a/b"));
    assert!(!is_within("/a/bc", "/a/b"));
}

#[test]
fn indexed_files_stay_inside_their_root() {
    assert_eq!(
        resolve_repo_file_path("/r", "src/a.rs", Ok("/r/src/a.rs".to_string())),
        Ok("/r/src/a.rs".to_string())
    );
    assert_eq!(
        resolve_repo_file_path("/r", "/etc/passwd", Ok("/etc/passwd".to_string())).unwrap_err(),
        "Indexed file '/etc/passwd' is outside the repository root and cannot be trusted."
    );
    assert_eq!(
        resolve_repo_file_path("/r", "link", Ok("/etc/passwd".to_string())).unwrap_err(),
        "Indexed file 'link' resolves outside the repository root and cannot be trusted."
    );
    assert!(resolve_repo_file_path("/r", "gone", Err("no such file".to_string())).is_err());
}

#[test]
fn settings_fall_back_on_what_cannot_be_read() {
    assert!(env_truthy(Some("1")));
    assert!(!env_truthy(None));
    assert_eq!(env_usize_positive(Some("0"), 5), 5);
    assert_eq!(env_usize_positive(Some("x"), 5), 5);
    assert_eq!(env_usize_positive(Some("9"), 5), 9);
    assert_eq!(capsule_original_mode(None, None), CapsuleOriginalMode::Off);
    assert_eq!(capsule_original_text_max_bytes(Some("0")), None);
    assert_eq!(Settings::default().max_outbound, MAX_OUTBOUND);
}

// ── Source code ──────────────────────────────────────────────────────────────

#[test]
fn the_longest_body_is_replaced() {
    assert_eq!(outermost_range(&vec![]), None);
    assert_eq!(outermost_range(&vec![(4, 6), (2, 9), (3, 10)]), Some((2, 9)));
    assert_eq!(
        replace_body("fn f() { 1 }", &vec![(7, 12)], Placeholder::Braces),
        "fn f() { /* ... */ }"
    );
    assert_eq!(replace_body("fn f()", &vec![], Placeholder::Braces), "fn f()");
}

#[test]
fn sources_of_unknown_languages_are_kept() {
    assert_eq!(condense("body { stays }", "css"), "body { stays }");
    assert_eq!(condense("fn f() -> u8 { 1 }", "rs"), "fn f() -> u8 { /* ... */ }");
    assert_eq!(condense("class A { m() { return 1; } }", "ts"), "class A { /* ... */ }");
}

#[test]
fn tokens_are_counted() {
    assert_eq!(count_tokens("tiktoken is great!").unwrap(), 6);
    assert_eq!(counted(Some(4)).unwrap(), 4);
    assert_eq!(counted(None).unwrap_err().text(), NOT_TOKENIZED);
}

// ── Files ────────────────────────────────────────────────────────────────────

#[test]
fn samples_span_the_list() {
    let all = words(&["a", "b", "c", "d", "e"]);
    assert_eq!(sampled_paths(&all, 9), all);
    assert_eq!(sampled_paths(&all, 2), words(&["a", "e"]));
    assert_eq!(sampled_paths(&all, 3), words(&["a", "c", "e"]));
    assert_eq!(sampled_paths(&all, 1), words(&["a"]));
    assert_eq!(sampled_paths(&Vec::new(), 3), Vec::<String>::new());
    assert_eq!(sampled_paths(&Vec::new(), 0), Vec::<String>::new());
}

#[test]
fn concatenations_fit_their_budget() {
    let touched = words(&["a", "b", "c"]);
    let files = vec![source("a", "aaaa"), source("b", "bbbbbbbb"), source("c", "cc")];
    let (text, cut, omitted) = concat_full_original_text_sorted(true, &touched, Some(8), &files);
    assert_eq!(text, "aaaa\ncc");
    assert!(cut);
    assert_eq!(omitted, words(&["b"]));
    let (text, cut, _) = concat_full_original_text_sorted(false, &touched, None, &files);
    assert_eq!((text.as_str(), cut), ("", false));
}

#[test]
fn proofs_are_bounded() {
    let touched = words(&["a", "b"]);
    let files = vec![source("a", "aaaaaaaaaa"), source("b", "bbbbbbbbbb")];
    let proof = build_bounded_proof_snapshot(true, &touched, "estimated", 40, 8, &files).unwrap();
    assert!(proof.proof_text.len() <= 41, "{proof:?}");
    assert!(proof.truncated);
    assert_eq!(proof.touched_file_count, 2);
    assert!(build_bounded_proof_snapshot(false, &touched, "x", 40, 8, &files).is_none());
    assert!(build_bounded_proof_snapshot(true, &Vec::new(), "x", 40, 8, &files).is_none());
}

#[test]
fn every_file_is_measured_or_failed() {
    let touched = words(&["a", "b", "c"]);
    let m = tally_tokens(&touched, &vec![Some(3), None, Some(4)]);
    assert_eq!((m.tokens, m.measured_file_count, m.touched_file_count), (7, 2, 3));
    assert_eq!(m.failed_paths, words(&["b"]));
    let m = measure_files(true, &touched, &vec![source("a", "hello world")]);
    assert_eq!((m.tokens, m.measured_file_count), (2, 1));
    assert_eq!(m.failed_paths, words(&["b", "c"]));
    assert_eq!(file_tokens_metadata_estimate(true, &touched, &vec![source("a", "12345678")]), 2);
}

#[test]
fn lists_are_kept_ascending() {
    let mut list = Vec::new();
    for name in ["b", "a", "b", "B", "ab"] {
        insert_ascending(&mut list, name);
    }
    assert_eq!(list, words(&["B", "a", "ab", "b"]));
}

// ── Symbols ──────────────────────────────────────────────────────────────────

#[test]
fn searches_are_put_into_patterns() {
    assert_eq!(escape_like_pattern("50%_a\\b"), "50\\%\\_a\\\\b");
    assert_eq!(like_contains_pattern("a%"), "%a\\%%");
    assert_eq!(fts_prefix_query("foo bar").as_deref(), Some("foo* bar*"));
    assert_eq!(fts_prefix_query("é::x").as_deref(), Some("é* x*"));
    assert_eq!(fts_prefix_query("++"), None);
    assert_eq!(normalize_path_separators("src\\a\\b.rs"), "src/a/b.rs");
}

#[test]
fn failures_of_the_database_are_handed_on() {
    let empty = Connection::open_in_memory().unwrap();
    let limits = Settings::default();
    let none = Vec::new();
    for text in [
        get_context_capsule(&empty, "A", "r", None, &limits, &none).unwrap_err().text(),
        trace_logic_flow(&empty, "A", "r", None, &limits).unwrap_err().text(),
        analyze_impact(&empty, "A", "r", None, &limits).unwrap_err().text(),
        find_symbols(&empty, "r", "A", None, 5).unwrap_err().text(),
        get_project_skeleton(&empty, "r", None).unwrap_err().text(),
        benchmark_repo_symbol_count(&empty, "r").unwrap_err().text(),
    ] {
        assert!(text.contains("no such table"), "{text}");
    }
    assert_eq!(find_symbols(&empty, "r", "  ", None, 5).unwrap(), EMPTY_QUERY);
    assert_eq!(repository_root(&empty, "r"), "");
    assert_eq!(graph_node_count(&empty), 0);
}

#[test]
fn rows_of_the_wrong_type_give_the_errors_of_the_database() {
    let conn = Connection::open_in_memory().unwrap();
    conn.execute_batch(
        "CREATE TABLE repositories (id, root_path);
         INSERT INTO repositories VALUES ('a', '/a');
         INSERT INTO repositories VALUES ('b', 7);
         CREATE TABLE nodes (repo_id, language);
         INSERT INTO nodes VALUES ('r', x'00');",
    )
    .unwrap();
    assert_eq!(
        benchmark_repository_choices(&conn, 5).unwrap_err().text(),
        "Invalid column type Integer at index: 1, name: root_path"
    );
    assert_eq!(benchmark_repository_choices(&conn, 1).unwrap().len(), 1);
    assert_eq!(
        benchmark_distinct_node_values(&conn, "r", "language", 5).unwrap_err().text(),
        "Invalid column type Blob at index: 0, name: language"
    );
    assert_eq!(benchmark_repo_symbol_count(&conn, "r").unwrap(), 1);
}

#[test]
fn the_files_of_a_capsule_are_named_before_they_are_read() {
    let conn = make_db();
    conn.execute("INSERT INTO repositories VALUES ('r', '/repo')", []).unwrap();
    insert_node(&conn, "r:b.rs:B", "b.rs", "B", "fn B() { A() }");
    insert_node(&conn, "r:a.rs:A", "a.rs", "A", "fn A() {}");
    insert_edge(&conn, "r:b.rs:B", "r:a.rs:A");
    let (root, files) =
        context_capsule_files(&conn, "B", "r", None, &Settings::default()).unwrap();
    assert_eq!(root, "/repo");
    assert_eq!(files, words(&["a.rs", "b.rs"]));
    assert_eq!(absolute_symbol_file_path(&conn, "r", "A", None), "/repo/a.rs");
}

#[test]
fn an_ambiguous_impact_hands_its_candidates_on() {
    let result = ImpactResult {
        pivot_id: "DISAMBIGUATION:choose one".to_string(),
        affected: Vec::new(),
        truncated: false,
    };
    assert_eq!(format_impact_result(&result, 10), "choose one");
    assert_eq!(
        query_impact_text(&result),
        "\nIMPACT ANALYSIS:\n  No downstream dependents found."
    );
}

#[test]
fn impacts_are_listed_by_the_query_command() {
    let conn = make_db();
    insert_node(&conn, "r:a.rs:A", "a.rs", "A", "fn A() {}");
    insert_node(&conn, "r:b.rs:B", "b.rs", "B", "fn B() { A() }");
    insert_edge(&conn, "r:b.rs:B", "r:a.rs:A");
    let impact = analyze_impact(&conn, "A", "r", None, &Settings::default()).unwrap();
    assert_eq!(
        query_impact_text(&impact),
        "\nIMPACT ANALYSIS:\n  [Depth 1] B (function) in b.rs"
    );
}

#[test]
fn ambiguous_names_are_answered_with_their_candidates_alone() {
    let conn = make_db();
    insert_node(&conn, "r:a.rs:A", "a.rs", "A", "fn A() {}");
    insert_node(&conn, "r:b.rs:A", "b.rs", "A", "fn A() { }");
    let limits = Settings::default();
    let files = vec![source("a.rs", "fn A() {}"), source("b.rs", "fn A() { }")];
    let capsule = get_context_capsule(&conn, "A", "r", None, &limits, &files).unwrap();
    assert!(capsule.optimized_text.contains("a.rs"), "{}", capsule.optimized_text);
    assert_eq!(capsule.original_text, capsule.optimized_text);
    assert_eq!(capsule.file_tokens, capsule.optimized_text.len() / 4);
    assert!(capsule.proof_snapshot.is_none());
    let trace = trace_logic_flow(&conn, "A", "r", None, &limits).unwrap();
    assert_eq!(trace.original_text, trace.optimized_text);
    assert_eq!(trace.optimized_text, capsule.optimized_text);
    let one = trace_logic_flow(&conn, "A", "r", Some("a.rs"), &limits).unwrap();
    assert_eq!(one.original_text, "");
}

fn chain(conn: &Connection, len: usize) {
    for i in 0..len {
        insert_node(conn, &format!("n{i}"), &format!("{i}.rs"), &format!("N{i}"), "fn n() {}");
        if i > 0 {
            insert_edge(conn, &format!("n{i}"), &format!("n{}", i - 1));
        }
    }
}

#[test]
fn impacts_reach_as_far_as_the_edges_lead() {
    let conn = make_db();
    chain(&conn, 15);
    let limits = Settings::default();
    let far = analyze_impact(&conn, "N0", "r", None, &limits).unwrap();
    let depths: Vec<i64> = far.affected.iter().map(|n| n.depth).collect();
    assert_eq!(depths, (1..15).collect::<Vec<i64>>());
    assert_eq!(far.affected[13].symbol_name, "N14");
    assert!(!far.truncated);

    // Closing the circle adds no node: the pivot is not affected by itself.
    insert_edge(&conn, "n0", "n14");
    let round = analyze_impact(&conn, "N0", "r", None, &limits).unwrap();
    assert_eq!(round.affected.len(), 14);
    assert_eq!(analyze_impact(&conn, "N14", "r", None, &limits).unwrap().affected.len(), 14);
}

#[test]
fn impacts_tell_each_dependent_once_at_its_distance() {
    let conn = make_db();
    for name in ["P", "A", "B", "C"] {
        insert_node(&conn, name, &format!("{name}.rs"), name, "fn f() {}");
    }
    // C reaches P over A and B, and directly.
    insert_edge(&conn, "A", "P");
    insert_edge(&conn, "B", "A");
    insert_edge(&conn, "C", "B");
    insert_edge(&conn, "C", "P");
    insert_edge(&conn, "B", "P");
    let found = analyze_impact(&conn, "P", "r", None, &Settings::default()).unwrap();
    let told: Vec<(String, i64)> =
        found.affected.iter().map(|n| (n.symbol_name.clone(), n.depth)).collect();
    assert_eq!(
        told,
        vec![("A".to_string(), 1), ("B".to_string(), 1), ("C".to_string(), 1)]
    );
}

#[test]
fn impacts_pass_through_what_is_no_node_any_more() {
    let conn = make_db();
    insert_node(&conn, "P", "p.rs", "P", "fn P() {}");
    conn.execute("INSERT INTO nodes VALUES ('far','s','f.rs','rs','Far','function','')", [])
        .unwrap();
    insert_edge(&conn, "gone", "P");
    insert_edge(&conn, "far", "gone");
    let found = analyze_impact(&conn, "P", "r", None, &Settings::default()).unwrap();
    assert_eq!(found.affected.len(), 1);
    assert_eq!(found.affected[0].symbol_name, "Far");
    assert_eq!(found.affected[0].repo_id, "s");
    assert_eq!(found.affected[0].depth, 2);
}

#[test]
fn impacts_are_cut_at_their_limit() {
    let conn = make_db();
    chain(&conn, 8);
    for max in [1, 3, 7, 8] {
        let limits = Settings { impact_max_rows: max, ..Settings::default() };
        let found = analyze_impact(&conn, "N0", "r", None, &limits).unwrap();
        assert_eq!(found.affected.len(), max.min(7));
        assert_eq!(found.truncated, max <= 7);
    }
}

#[test]
fn graphs_name_what_is_within_their_depth_at_its_distance() {
    let conn = make_db();
    for name in ["R", "A", "B", "C", "D"] {
        insert_node(&conn, name, &format!("{name}.rs"), name, "fn f() {}");
    }
    // R -> A -> B -> C -> D, and B also directly.
    insert_edge(&conn, "R", "A");
    insert_edge(&conn, "A", "B");
    insert_edge(&conn, "B", "C");
    insert_edge(&conn, "C", "D");
    insert_edge(&conn, "R", "B");
    let shown = |depth: usize| {
        let options = DependencyGraphOptions {
            depth,
            direction: DependencyDirection::Callees,
            ..DependencyGraphOptions::default()
        };
        dependency_graph(&conn, "r", "R", None, options, &Settings::default()).unwrap()
    };
    let two = shown(2);
    for (line, times) in [
        ("[d1] [CALLS] A", 1),
        ("[d1] [CALLS] B (function) — B.rs\n", 1),
        ("[d2] [CALLS] B (function) — B.rs (already seen)", 1),
        ("[d2] [CALLS] C", 1),
        ("D.rs", 0),
    ] {
        assert_eq!(two.matches(line).count(), times, "{line} in {two}");
    }
    assert!(shown(3).contains("[d3] [CALLS] D"), "{}", shown(3));
}

#[test]
fn graphs_have_a_depth_between_one_and_five() {
    let conn = make_db();
    for depth in [0, 6] {
        let options = DependencyGraphOptions { depth, ..DependencyGraphOptions::default() };
        let err = dependency_graph(&conn, "r", "A", None, options, &Settings::default())
            .unwrap_err();
        assert_eq!(err.text(), BAD_DEPTH);
    }
}

#[test]
fn graphs_fit_their_limits() {
    let conn = make_db();
    insert_node(&conn, "n0", "0.rs", "N0", "fn N0() {}");
    for i in 1..40 {
        insert_node(&conn, &format!("n{i}"), &format!("{i}.rs"), &format!("N{i}"), "fn n() {}");
        insert_edge(&conn, "n0", &format!("n{i}"));
    }
    for max_bytes in [0, 1, 60, 300, 1000] {
        let options = DependencyGraphOptions {
            depth: 2,
            direction: DependencyDirection::Both,
            max_bytes,
            max_nodes: 10,
            ..DependencyGraphOptions::default()
        };
        let shown =
            dependency_graph(&conn, "r", "N0", None, options, &Settings::default()).unwrap();
        assert!(shown.len() <= max_bytes.max(1), "{max_bytes}: {shown}");
    }
}

#[test]
fn paths_have_categories() {
    assert_eq!(path_category("app/controllers/a.rb"), PathCategory::Controllers);
    assert_eq!(path_category("src/lib.rs"), PathCategory::Other);
    assert_eq!(PathCategory::Jobs.label(), "jobs");
}

// ── Batches ──────────────────────────────────────────────────────────────────

fn query(intent: BatchIntent, target: &str) -> BatchQuery {
    BatchQuery {
        intent,
        target: target.to_string(),
        filepath: None,
        kind: None,
        limit: None,
        depth: None,
        direction: None,
        include_source: false,
        max_nodes: None,
    }
}

#[test]
fn keys_tell_queries_apart() {
    let plain = query(BatchIntent::ExploreSymbol, "A");
    let filed = BatchQuery { filepath: Some("a.rs".to_string()), ..plain.clone() };
    assert_eq!(canonical_batch_key("r", &plain), canonical_batch_key("r", &plain.clone()));
    assert_ne!(canonical_batch_key("r", &plain), canonical_batch_key("r", &filed));
    assert_ne!(canonical_batch_key("r", &plain), canonical_batch_key("s", &plain));
}

#[test]
fn batches_fit_their_limit() {
    let sections = words(&["first section", "second section \u{2603}", "third"]);
    for max_bytes in [0, 5, 20, 36, 100, 1000] {
        let (text, cut) = cap_batch_sections_fifo(&sections, max_bytes);
        assert!(text.len() <= max_bytes, "{max_bytes}: {text}");
        assert_eq!(cut, max_bytes < 40, "{max_bytes}: {text}");
    }
}

#[test]
fn every_intent_can_be_batched() {
    let conn = make_db();
    insert_node(&conn, "r:a.rs:A", "a.rs", "A", "fn A() {}");
    let queries = vec![
        query(BatchIntent::FindSymbol, "A"),
        query(BatchIntent::ExploreSymbol, "A"),
        query(BatchIntent::TraceFlow, "A"),
        query(BatchIntent::RefactorSymbol, "A"),
        query(BatchIntent::ReadNode, "A"),
        query(BatchIntent::DependencyGraph, "A"),
    ];
    let options = BatchOptions { repo_id: "r".to_string(), max_bytes: 100_000 };
    let run = execute_batch_queries(&conn, &queries, options, &Settings::default(), &Vec::new());
    assert_eq!(run.query_count, 6);
    assert!(!run.truncated);
    assert!(run.text.contains("## [6/6] DEPENDENCY GRAPH — A"), "{}", run.text);
    assert!(!run.text.contains("ERROR"), "{}", run.text);
}

#[test]
fn failed_queries_are_answered_with_their_error() {
    let conn = make_db();
    insert_node(&conn, "r:a.rs:A", "a.rs", "A", "fn A() {}");
    let deep = BatchQuery { depth: Some(9), ..query(BatchIntent::DependencyGraph, "A") };
    let queries = vec![query(BatchIntent::ExploreSymbol, "Nope"), deep];
    let options = || BatchOptions { repo_id: "r".to_string(), max_bytes: 100_000 };
    let limits = Settings::default();
    let run = execute_batch_queries(&conn, &queries, options(), &limits, &Vec::new());
    assert!(run.text.contains("ERROR: Symbol 'Nope' not found in repo 'r'"), "{}", run.text);
    assert!(run.text.contains(&format!("ERROR: {BAD_DEPTH}")), "{}", run.text);
    assert!(run.telemetry.is_empty());
    let first = |second: BatchQuery| {
        let both = vec![query(BatchIntent::TraceFlow, "A"), second];
        let run = execute_batch_queries(&conn, &both, options(), &limits, &Vec::new());
        run.text.split("## [2/2]").next().unwrap().to_string()
    };
    assert_eq!(
        first(query(BatchIntent::ExploreSymbol, "Nope")),
        first(query(BatchIntent::ExploreSymbol, "A"))
    );
    let closed = Connection::open_in_memory().unwrap();
    let asked = vec![
        query(BatchIntent::FindSymbol, "A"),
        query(BatchIntent::TraceFlow, "A"),
        query(BatchIntent::RefactorSymbol, "A"),
        query(BatchIntent::DependencyGraph, "A"),
    ];
    let run = execute_batch_queries(&closed, &asked, options(), &limits, &Vec::new());
    assert_eq!(run.text.matches("ERROR: no such table").count(), 4, "{}", run.text);
}

#[test]
fn maps_list_what_a_repository_is_built_from() {
    let conn = make_db();
    for (i, kind) in
        ["function", "class", "struct", "trait", "interface", "method", "enum", "impl", "module"]
            .iter()
            .enumerate()
    {
        conn.execute(
            "INSERT INTO nodes VALUES (?1,'r','src/k.rs','rs',?2,?3,'')",
            [&format!("k{i}"), &format!("k{i}"), *kind],
        )
        .unwrap();
    }
    let map = get_project_skeleton(&conn, "r", None).unwrap();
    assert_eq!(map.matches("   - [").count(), 5, "{map}");
    for kind in ["function", "class", "struct", "trait", "interface"] {
        assert!(map.contains(&format!("[{kind}]")), "{kind} in {map}");
    }
    insert_node(&conn, "x1", "src/a_i/x.rs", "f1", "");
    insert_node(&conn, "x2", "src/api/x.rs", "f2", "");
    assert_eq!(
        get_project_skeleton(&conn, "r", Some("src/a_i")).unwrap(),
        "\u{1f4c1} src/a_i/x.rs\n   - [function] f1\n"
    );
}

#[test]
fn intents_and_directions_read_back() {
    for intent in [
        BatchIntent::FindSymbol,
        BatchIntent::ExploreSymbol,
        BatchIntent::TraceFlow,
        BatchIntent::RefactorSymbol,
        BatchIntent::ReadNode,
        BatchIntent::DependencyGraph,
    ] {
        assert_eq!(BatchIntent::parse(intent.canonical_name()), Some(intent));
    }
    for direction in
        [DependencyDirection::Callers, DependencyDirection::Callees, DependencyDirection::Both]
    {
        assert_eq!(DependencyDirection::parse(direction.label()).unwrap(), direction);
    }
    assert!(DependencyDirection::parse("up").is_err());
}

#[test]
fn accepted_batches_are_in_range() {
    let entry = |depth: u64| {
        Json::Object(object(vec![
            ("intent", text_value("dependency_graph")),
            ("target", text_value("A")),
            ("depth", Json::Count(depth)),
        ]))
    };
    let args = |depth: u64| object(vec![("queries", Json::List(vec![entry(depth)]))]);
    assert_eq!(parse_batch_queries(&args(5)).unwrap()[0].depth, Some(5));
    assert!(parse_batch_queries(&args(0)).is_err());
    assert_eq!(
        require_str(&Vec::new(), "intent").unwrap_err(),
        "missing required argument: 'intent'"
    );
}

// ── The server ───────────────────────────────────────────────────────────────

#[test]
fn low_level_calls_are_routed() {
    for tool in ["get_context_capsule", "analyze_impact", "get_skeleton"] {
        let routed = apply_compliance_gate(tool, Vec::new());
        assert_eq!(routed.tool_name, "run_pipeline");
        assert_eq!(routed.action, ComplianceAction::AutoRouted);
    }
    let kept = apply_compliance_gate("run_pipeline", Vec::new());
    assert_eq!(kept.action, ComplianceAction::Unchanged);
    assert!(kept.notice.is_none());
}

#[test]
fn calls_are_read_or_refused() {
    let call = parse_tool_call(
        "ingest_repo",
        &object(vec![("repo_id", text_value("r")), ("root_path", text_value("/r"))]),
    )
    .unwrap();
    assert!(matches!(call, ToolCall::Ingest { user_confirmed: false, .. }));
    let refusal = parse_tool_call("ingest_repo", &Vec::new()).unwrap_err();
    assert_eq!(refusal.kind, RefusalKind::InvalidParams);
    assert_eq!(refusal.message, "missing required argument: 'repo_id'");
    let refusal = parse_tool_call("no_such_tool", &Vec::new()).unwrap_err();
    assert_eq!(refusal.kind, RefusalKind::UnknownTool);
}

#[test]
fn intents_become_plans() {
    let limits = Settings::default();
    let args = object(vec![("target", text_value("A")), ("limit", Json::Count(3))]);
    assert!(matches!(plan_intent("find_symbol", &args, &limits), Ok(Plan::Find { limit: 3, .. })));
    assert!(matches!(plan_intent("explore_symbol", &args, &limits), Ok(Plan::Explore { .. })));
    assert!(matches!(plan_intent("trace_flow", &args, &limits), Ok(Plan::Trace { .. })));
    assert!(matches!(plan_intent("refactor_symbol", &args, &limits), Ok(Plan::Refactor { .. })));
    assert!(matches!(plan_intent("map_class", &args, &limits), Ok(Plan::MapClass { .. })));
    assert!(matches!(plan_intent("analyze_repo", &args, &limits), Ok(Plan::AnalyzeRepo { .. })));
    assert!(matches!(plan_intent("dependency_graph", &args, &limits), Ok(Plan::Graph { .. })));
    let refusal = plan_intent("explore_symbol", &Vec::new(), &limits).unwrap_err();
    assert_eq!(refusal.message, "intent 'explore_symbol' requires a 'target' (symbol name)");
    assert!(plan_intent("dance", &args, &limits).is_err());
    assert_eq!(map_target_dir(None), None);
}

#[test]
fn indexing_is_gated() {
    assert_eq!(ingest_gate("/w/sub", "/w", false), Ok(()));
    assert!(ingest_gate("/other", "/w", false)
        .unwrap_err()
        .contains("OUT OF BOUNDS REQUEST"));
    assert_eq!(ingest_gate("/other", "/w", true), Ok(()));
    assert_eq!(ingest_gate("/etc/ssl", "/w", true).unwrap_err(), PROTECTED_DIRECTORY);
    assert_eq!(pipeline_gate(None, 3, true), PipelineGate::Proceed);
    assert_eq!(pipeline_gate(None, 0, true), PipelineGate::IndexFirst);
    assert_eq!(pipeline_gate(None, 0, false), PipelineGate::Answer(EMPTY_GRAPH.to_string()));
    assert_eq!(
        pipeline_gate(Some("indexing".to_string()), 3, true),
        PipelineGate::Answer("indexing".to_string())
    );
    assert!(indexing_failed("why").contains("why"));
    assert!(ingested(3, 4).contains('3') && ingested(3, 4).contains('4'));
}

#[test]
fn locked_databases_are_tried_again() {
    assert!(should_retry_indexing(Some("Database Is Locked"), 1));
    assert!(should_retry_indexing(Some("SQLITE_BUSY"), 2));
    assert!(!should_retry_indexing(Some("database is locked"), 3));
    assert!(!should_retry_indexing(Some("disk full"), 1));
    assert!(!should_retry_indexing(None, 1));
}

#[test]
fn roots_are_found_upwards() {
    let places = ancestors("/a/b/c");
    assert_eq!(places, words(&["/a/b/c", "/a/b", "/a", "/"]));
    let marked = vec![false, true, false, true];
    let none = vec![false; 4];
    let versioned = vec![false, false, true, true];
    assert_eq!(pick_workspace_root(None, &places, &marked, &versioned, "/a/b/c"), "/a/b");
    assert_eq!(pick_workspace_root(None, &places, &none, &versioned, "/a/b/c"), "/a");
    assert_eq!(pick_workspace_root(None, &places, &none, &none, "/a/b/c"), "/a/b/c");
    let here = vec![true, false, true, false];
    assert_eq!(pick_workspace_root(None, &places, &none, &here, "/a/b/c"), "/a/b/c");
    assert_eq!(
        pick_workspace_root(Some("/set".to_string()), &places, &marked, &versioned, "/a"),
        "/set"
    );
    assert_eq!(fallback_repo_id_for_path("/"), "workspace");
    assert_eq!(resolve_request_repo_id(None, Some("known"), "/w"), "known");
    assert_eq!(resolve_request_repo_id(Some("asked"), Some("known"), "/w"), "asked");
}

#[test]
fn notices_come_first() {
    let parts = with_notices("answer".to_string(), None, Some("init".to_string()), true);
    assert_eq!(parts.last().map(|s| s.as_str()), Some("answer"));
    assert_eq!(parts.len(), 3);
    assert!(parts.iter().any(|p| p == AUTO_INDEXED));
    let stats = closing_stats("run_pipeline", ComplianceAction::AutoRouted);
    assert_eq!(stats.len(), 2);
    assert_eq!(stats[0].key, "pipeline_requests");
}

// ── JSON and configuration ───────────────────────────────────────────────────

#[test]
fn members_are_found_after_they_were_put() {
    let mut members = object(vec![("a", Json::Count(1)), ("b", Json::Count(2))]);
    put(&mut members, "a", Json::Bool(true));
    put(&mut members, "c", Json::Null);
    assert!(matches!(get(&members, "a"), Some(Json::Bool(true))));
    assert!(matches!(get(&members, "b"), Some(Json::Count(2))));
    assert!(matches!(get(&members, "c"), Some(Json::Null)));
    assert_eq!(members.len(), 3);
    let config = Json::Object(object(vec![("keep", Json::Count(7))]));
    let edited = put_entry(config, "servers", "marrow", text_value("x")).unwrap();
    match &edited {
        Json::Object(top) => {
            assert!(matches!(get(top, "keep"), Some(Json::Count(7))));
            assert!(get(top, "servers").is_some());
        }
        other => panic!("{other:?}"),
    }
}

#[test]
fn switches_have_defaults() {
    let none = Json::Object(Vec::new());
    let flags = server_flags(&none);
    assert!(flags.show_dashboard && flags.auto_open_ui && !flags.enable_watcher);
    assert_eq!(flags.watch_debounce_ms, 500);
    let set = Json::Object(object(vec![
        ("enable_watcher", Json::Bool(true)),
        ("watch_debounce_ms", Json::Count(40)),
        ("show_dashboard", text_value("no")),
    ]));
    let flags = server_flags(&set);
    assert!(flags.enable_watcher && flags.show_dashboard);
    assert_eq!(flags.watch_debounce_ms, 40);
    let toggled = toggle_auto_open(none).unwrap();
    assert!(!auto_open(&toggled));
    assert!(auto_open(&toggle_auto_open(toggled).unwrap()));
    assert!(toggle_auto_open(text_value("x")).is_none());
    assert!(merge_vscode_config(Json::List(Vec::new()), Json::Null).is_none());
}

#[test]
fn the_programs_directory_comes_first() {
    let path = gui_safe_path("/opt/m/marrow", "/home/u", Some("/usr/bin:/opt/m"));
    let all: Vec<&str> = path.split(':').collect();
    assert_eq!(all[0], "/opt/m");
    assert_eq!(all.iter().filter(|d| **d == "/opt/m").count(), 1);
}

// ── Rules and installation ───────────────────────────────────────────────────

#[test]
fn rules_are_put_behind_what_is_there() {
    let rules = format!("{MARROW_HEADER}\nrules");
    assert_eq!(
        plan_rule_file(Some(&rules), &rules, WriteMode::SafeAppend),
        RuleWrite::Skip
    );
    assert!(matches!(plan_rule_file(None, &rules, WriteMode::SafeAppend), RuleWrite::Create(_)));
    assert!(
        matches!(plan_rule_file(Some("mine"), &rules, WriteMode::SafeAppend), RuleWrite::Append(t) if t.contains("rules"))
    );
    assert!(matches!(plan_rule_file(Some("mine"), &rules, WriteMode::Overwrite), RuleWrite::Replace(_)));
    assert_eq!(plan_rule_file(Some("mine"), &rules, WriteMode::Symlink), RuleWrite::Link);
}

#[test]
fn workspaces_choose_their_rule_files() {
    let menu = workspace_menu();
    assert_eq!(menu.last().map(|s| s.as_str()), Some("Copilot MCP (.vscode/mcp.json)"));
    let cursor = menu.iter().position(|label| label.starts_with("Cursor (")).unwrap();
    assert_eq!(chosen_rule_files(&vec![cursor, 999]), words(&[".cursorrules"]));
    assert!(chooses_editor_config(&vec![menu.len() - 1]));
    assert!(!chooses_editor_config(&vec![cursor]));
    assert_eq!(write_mode_for_choice(0), WriteMode::SafeAppend);
    assert_eq!(write_mode_for_choice(1), WriteMode::Overwrite);
    assert_eq!(write_mode_for_choice(2), WriteMode::Symlink);
}

#[test]
fn names_ask_for_targets() {
    let request = direct_request(&words(&["Roo", "Code"])).unwrap();
    assert_eq!(request.mcp.unwrap().name, "Roo Code");
    assert_eq!(request.skill.unwrap().skills_dir, ".roo/skills");
    assert_eq!(
        direct_request(&words(&["no", "such"])).unwrap_err(),
        "unknown integration target: no such"
    );
    assert_eq!(normalize_integration_name("Roo-Code"), normalize_integration_name("roocode"));
}

#[test]
fn scopes_and_methods_are_chosen() {
    assert_eq!(chosen_ways(None, None), (Scope::Project, Method::WriteFile));
    assert_eq!(
        chosen_ways(Some("Global (recommended)"), Some("Symlink")),
        (Scope::Global, Method::Symlink)
    );
    assert_eq!(
        chosen_ways(Some("Project"), Some("Write File")),
        (Scope::Project, Method::WriteFile)
    );
}

#[test]
fn rules_follow_registrations() {
    let target = integration_target_by_name("Cursor").unwrap();
    let done: Result<AgentOutcome, String> = Ok(AgentOutcome::Installed);
    let missing: Result<AgentOutcome, String> = Ok(AgentOutcome::NotFound);
    let failed: Result<AgentOutcome, String> = Err("no room".to_string());
    assert!(matches!(
        rule_step(&target, &done, Scope::Project, true, false),
        RuleStep::Install(Agent::Cursor)
    ));
    assert!(matches!(rule_step(&target, &missing, Scope::Project, true, false), RuleStep::Nothing));
    assert!(matches!(rule_step(&target, &failed, Scope::Project, true, false), RuleStep::Nothing));
    match rule_step(&target, &done, Scope::Project, false, false) {
        RuleStep::Tell(line) => assert_eq!(
            line.text,
            "Cursor  rules skipped — no verified rule-file target for this scope"
        ),
        other => panic!("{other:?}"),
    }
    assert!(matches!(rule_step(&target, &done, Scope::Project, false, true), RuleStep::Nothing));
    assert_eq!(registration_line(&target, &done).text, "Cursor  MCP registered");
    assert_eq!(registration_line(&target, &missing).mark, Mark::Missing);
    assert_eq!(registration_line(&target, &failed).text, "Cursor  MCP — no room");
    assert_eq!(rule_line(&target, &Err("no room".to_string()), "x").text, "Cursor  rules — no room");
    assert_eq!(
        rule_line(&target, &Ok(InstallStatus::Written), "x").text,
        "Cursor rules written -> x"
    );
}

#[test]
fn rules_of_other_agents_are_told() {
    let target = agent_skill_target_by_name("Goose").unwrap();
    assert!(matches!(skill_step(&target, Scope::Project, true), SkillStep::Install));
    match skill_step(&target, Scope::Global, true) {
        SkillStep::Tell(line) => {
            assert_eq!(line.text, "Goose — skill target does not support global scope")
        }
        other => panic!("{other:?}"),
    }
    assert_eq!(
        skill_line(&target, &Ok(InstallStatus::Refreshed)).text,
        "Goose → .goose/skills/marrow-optimization.md (updated)"
    );
    assert_eq!(
        universal_line(&Ok(InstallStatus::Written)).text,
        "Universal → .agents/skills/marrow-optimization.md (installed)"
    );
    assert_eq!(universal_line(&Err("x".to_string())).text, "Universal skill — x");
}

#[test]
fn edits_depend_on_what_is_there() {
    let place = LaunchPlace {
        home: "/h".to_string(),
        platform: Platform::Linux,
        has_zsh: false,
        search_path: "/usr/bin".to_string(),
        cline_config: "c.json".to_string(),
    };
    let copilot = config_edits(ConfigWriter::Copilot, &place);
    assert_eq!(copilot.len(), 2);
    assert_eq!(edit_step(&copilot[0], false, false), EditStep::Skip);
    assert_eq!(edit_step(&copilot[0], false, true), EditStep::Apply);
    let zed = config_edits(ConfigWriter::Zed, &place);
    assert_eq!(edit_step(&zed[0], false, true), EditStep::NotFound);
    assert_eq!(edit_step(&zed[0], true, true), EditStep::Apply);
}

#[test]
fn labels_pick_entries() {
    let (entries, labels) = universal_agent_menu();
    let chosen = vec![labels[1].clone(), "no such label".to_string(), labels[0].clone()];
    let picked = picked_entries(&chosen, &labels, &entries);
    assert_eq!(picked.len(), 2);
    match (&picked[0], &entries[1]) {
        (AgentMenuEntry::Mcp(a), AgentMenuEntry::Mcp(b)) => assert_eq!(a.name, b.name),
        (AgentMenuEntry::UniversalNoMcpTarget, AgentMenuEntry::UniversalNoMcpTarget) => {}
        other => panic!("{other:?}"),
    }
}

// ── Benchmarks ───────────────────────────────────────────────────────────────

#[test]
fn numbers_are_grouped() {
    assert_eq!(fmt_num(0), "0");
    assert_eq!(fmt_num(999), "999");
    assert_eq!(fmt_num(1_000), "1,000");
    assert_eq!(fmt_num(1_234_567), "1,234,567");
}

#[test]
fn choices_are_mapped_back() {
    assert_eq!(pick_symbol(Some(1), 3), SymbolPick::Symbol(1));
    assert_eq!(pick_symbol(Some(3), 3), SymbolPick::Revise);
    assert_eq!(pick_symbol(Some(4), 3), SymbolPick::Cancel);
    assert_eq!(pick_symbol(None, 3), SymbolPick::Cancel);
    let values = words(&["py", "rs"]);
    assert_eq!(filter_choice(&values, 0), None);
    assert_eq!(filter_choice(&values, 2).as_deref(), Some("rs"));
    let repo = BenchmarkRepositoryChoice { repo_id: "r".to_string(), root_path: "/w".to_string() };
    assert!(repository_label(&repo).contains("r"));
    assert_eq!(symbol_menu(&Vec::new()).len(), 2);
}

#[test]
fn exact_measurements_fail_for_files_that_cannot_be_read() {
    let conn = make_db();
    conn.execute("INSERT INTO repositories VALUES ('r', '/repo')", []).unwrap();
    insert_node(&conn, "r:a.rs:A", "a.rs", "A", "fn A() {}");
    let limits = Settings::default();
    let err = benchmark_measurement(&conn, "A", "r", None, true, &limits, &Vec::new()).unwrap_err();
    assert_eq!(
        err.text(),
        "exact baseline unavailable: failed to tokenize touched file(s): a.rs"
    );
    let files = vec![source("a.rs", "hello world")];
    let m = benchmark_measurement(&conn, "A", "r", None, true, &limits, &files).unwrap();
    assert_eq!(m.file_tokens, 2);
    assert_eq!(m.provenance.baseline_token_source, "exact");
    assert_eq!(
        benchmark_distinct_node_values(&conn, "r", "language", 5).unwrap(),
        words(&["rs"])
    );
}

// ── The command line ─────────────────────────────────────────────────────────

#[test]
fn words_name_commands() {
    assert_eq!(parse_command(None), Command::Interactive);
    assert_eq!(parse_command(Some("-h")), Command::Help);
    assert_eq!(parse_command(Some("perf-harness")), Command::PerfHarness);
    assert_eq!(parse_command(Some("mcp")), Command::Mcp);
    assert_eq!(parse_command(Some("anything")), Command::Serve);
    assert_eq!(parse_ui_app_command(None), UiAppCommand::Open);
    assert_eq!(parse_ui_app_command(Some("x")), UiAppCommand::Usage);
    assert_eq!(parse_daemon_command(None), DaemonCommand::Run);
    assert_eq!(parse_daemon_command(Some("install")), DaemonCommand::Install);
}

#[test]
fn arguments_of_the_index_command() {
    assert_eq!(parse_index_args(&words(&["x", "help"])), Ok(true));
    assert_eq!(parse_index_args(&words(&["x"])), Ok(false));
    assert_eq!(
        parse_index_args(&words(&["x", "-v", "-w"])).unwrap_err(),
        "index: unknown argument `-v` (try `marrow index --help`)"
    );
}

#[test]
fn arguments_of_the_benchmark_command() {
    assert_eq!(parse_benchmark_args(&words(&[])), BenchmarkArgs::Wizard);
    assert_eq!(parse_benchmark_args(&words(&["--precise-file-tokens"])), BenchmarkArgs::Usage);
    assert_eq!(parse_benchmark_args(&words(&["s"])), BenchmarkArgs::Usage);
    assert_eq!(
        parse_benchmark_args(&words(&["s", "--precise-file-tokens", "r"])),
        BenchmarkArgs::Run { symbol: "s".to_string(), repo_id: "r".to_string(), precise: true }
    );
    assert_eq!(
        parse_benchmark_args(&words(&["s", "r"])),
        BenchmarkArgs::Run { symbol: "s".to_string(), repo_id: "r".to_string(), precise: false }
    );
}

#[test]
fn arguments_of_the_context_command() {
    match parse_context_args("marrow", &words(&["fix", "it", "--repo", "r", "--budget", "7"])) {
        Ok(ContextCall::Compile(request)) => {
            assert_eq!(request.task, "fix it");
            assert_eq!(request.repo_id, "r");
            assert_eq!(request.budget_tokens, 7);
            assert_eq!(request.format, None);
        }
        _ => panic!("expected a request"),
    }
    assert!(matches!(
        parse_context_args("marrow", &words(&["x", "--help", "--bad"])),
        Ok(ContextCall::Help)
    ));
    for (args, expected) in [
        (vec!["x", "--repo"], "context: --repo requires a value"),
        (vec!["x", "--budget", "0"], "context: --budget must be a positive integer"),
        (vec!["x", "--bad"], "context: unknown argument `--bad`"),
        (vec!["x"], "context: --repo is required"),
    ] {
        match parse_context_args("marrow", &words(&args)) {
            Err(message) => assert_eq!(message, expected),
            Ok(_) => panic!("{args:?} should be refused"),
        }
    }
    match parse_context_args("marrow", &words(&["--repo", "r"])) {
        Err(message) => assert!(message.starts_with("Usage: marrow context <task>"), "{message}"),
        Ok(_) => panic!("a task is needed"),
    }
}

#[test]
fn names_stand_for_repositories() {
    let conn = make_db();
    assert_eq!(
        resolve_context_repo_id(&conn, "x", None).unwrap_err().text(),
        "context: no repositories in graph database. Run `marrow index` first."
    );
    conn.execute("INSERT INTO repositories VALUES ('app', '/w/app'), ('lib', '/w/lib')", [])
        .unwrap();
    assert_eq!(resolve_context_repo_id(&conn, "app", None).unwrap(), "app");
    assert_eq!(resolve_context_repo_id(&conn, "wid", Some("/w/lib")).unwrap(), "lib");
    assert_eq!(resolve_context_repo_id(&conn, "app-549bf296", None).unwrap(), "app");
    assert_eq!(
        resolve_context_repo_id(&conn, "x", Some("/w/other")).unwrap_err().text(),
        "context: --repo 'x' does not match any repo in the graph. Available: app, lib"
    );
    assert_eq!(strip_id_suffix("a-12345678").as_deref(), Some("a"));
    assert_eq!(strip_id_suffix("a-1234567g"), None);
    assert_eq!(strip_id_suffix("12345678"), None);
}

#[test]
fn capsules_are_summed_up() {
    let totals = capsule_totals(&vec![true, false, true]);
    assert_eq!(totals.summary, "total: 3  ok: 2  err: 1");
    assert_eq!(totals.failure.as_deref(), Some("1 capsule(s) failed"));
    assert_eq!(capsule_totals(&Vec::new()).failure, None);
    let conn = make_db();
    insert_node(&conn, "r:a.rs:A", "a.rs", "A", "fn A() {}");
    assert_eq!(graph_symbols(&conn).unwrap(), vec![words(&["r", "A"])]);
}

#[test]
fn arguments_of_the_performance_harness() {
    assert!(parse_perf_args(&words(&["--help"])).unwrap().is_none());
    let args = parse_perf_args(&words(&["--root", "/w", "--fresh", "--symbol", "S", "--json"]))
        .unwrap()
        .unwrap();
    assert_eq!(args.root.as_deref(), Some("/w"));
    assert_eq!(args.symbol.as_deref(), Some("S"));
    assert_eq!(args.db_path, ".marrow/perf-graph.db");
    assert!(args.fresh && args.json_mode && !args.precise_file_tokens);
    for (args, expected) in [
        (vec!["--db"], "perf-harness: --db requires a path"),
        (vec!["--repo-id"], "perf-harness: --repo-id requires a value"),
        (vec!["--json", "--help"], "perf-harness: unknown argument `--help` (try --help)"),
    ] {
        match parse_perf_args(&words(&args)) {
            Err(message) => assert_eq!(message, expected),
            Ok(_) => panic!("{args:?} should be refused"),
        }
    }
    assert_eq!(database_files("g.db"), words(&["g.db", "g.db-wal", "g.db-shm"]));
}

#[test]
fn runs_of_the_harness_are_reported() {
    let conn = make_db();
    assert_eq!(query_symbol(&conn, "r", None).unwrap_err().text(), NO_SYMBOLS);
    insert_node(&conn, "r:a.rs:A", "a.rs", "A", "fn A() {}");
    assert_eq!(query_symbol(&conn, "r", None).unwrap(), "A");
    assert_eq!(query_symbol(&conn, "r", Some("B".to_string())).unwrap(), "B");
    let measured =
        benchmark_measurement(&conn, "A", "r", None, false, &Settings::default(), &Vec::new())
            .unwrap();
    let run = PerfRun {
        repo_id: "r".to_string(),
        root: "/w".to_string(),
        db_path: "g.db".to_string(),
        ingest_wall_ms: 12,
        query_wall_ms: 3,
        symbols: 1,
        edges: 0,
        query_symbol: "A".to_string(),
        db_file_bytes: 4096,
        max_rss_bytes: Some(2048),
        version: "0.1.0".to_string(),
        git_sha: None,
        git_dirty: false,
    };
    assert_eq!(
        perf_line(&run),
        "[perf-harness] ingest: 12 ms | query: 3 ms | symbols: 1 | edges: 0 | db_bytes: 4096 | ru_maxrss: Some(2048)"
    );
    match perf_payload(&run, &measured) {
        Json::Object(members) => {
            assert_eq!(members.len(), 25);
            assert!(matches!(get(&members, "schema_version"), Some(Json::Count(1))));
            assert_eq!(get_text(&members, "query_symbol"), Some("A"));
            assert!(matches!(get(&members, "marrow_git_sha"), Some(Json::Null)));
        }
        other => panic!("{other:?}"),
    }
}

// ── Watching ─────────────────────────────────────────────────────────────────

#[test]
fn source_files_are_watched() {
    assert!(is_watched("/w/src/a.rs"));
    assert!(is_watched("/w/src/a.hpp"));
    assert!(!is_watched("/w/src/a.txt"));
    assert!(!is_watched("/w/rs"));
    assert_eq!(relative_path("/w/src/a.rs", "/w"), "src/a.rs");
    assert_eq!(relative_path("/other/a.rs", "/w"), "/other/a.rs");
    assert_eq!(node_id("r", "src/a.rs", "A"), "r:src/a.rs:A");
}

#[test]
fn changed_files_replace_their_nodes() {
    let conn = make_db();
    insert_node(&conn, "r:a.rs:Old", "a.rs", "Old", "fn Old() {}");
    let symbols = vec![ParsedSymbol {
        name: "New".to_string(),
        symbol_type: "function".to_string(),
        raw_text: "fn New() {}".to_string(),
    }];
    let mut changes = Changes::start(&conn);
    let (forgotten, kept) = replace_file_nodes(&mut changes, "r", "a.rs", "rs", &symbols);
    assert_eq!(forgotten, Some(1));
    assert_eq!(kept, vec![Some(1)]);
    assert_eq!(graph_symbols(&conn).unwrap(), vec![words(&["r", "New"])]);
    let (forgotten, kept) = replace_file_nodes(&mut changes, "r", "a.rs", "rs", &symbols);
    assert_eq!((forgotten, kept), (Some(1), vec![Some(1)]));
    assert_eq!(graph_symbols(&conn).unwrap(), vec![words(&["r", "New"])]);
    let closed = Connection::open_in_memory().unwrap();
    let mut refused = Changes::start(&closed);
    assert_eq!(
        replace_file_nodes(&mut refused, "r", "a.rs", "rs", &symbols),
        (None, vec![None])
    );
}

// ── What holds of all inputs, on some ────────────────────────────────────────

#[test]
fn escaping_is_undone() {
    for text in ["", "plain", "50%_a\\b", "\\\\%%__", "é_%"] {
        let mut undone = String::new();
        let mut chars = escape_like_pattern(text).chars().collect::<Vec<_>>().into_iter();
        while let Some(c) = chars.next() {
            undone.push(if c == '\\' { chars.next().unwrap() } else { c });
        }
        assert_eq!(undone, text);
    }
}

#[test]
fn normalizing_twice_changes_nothing() {
    for name in ["Roo Code", "VS-Code", "  Ünïcode_Name ", "zed"] {
        let once = normalize_integration_name(name);
        assert_eq!(normalize_integration_name(&once), once);
    }
    assert!(is_universal_agent_name("Cursor"));
    assert!(!is_universal_agent_name("nobody"));
}

#[test]
fn grouping_adds_commas_only() {
    for n in [0, 7, 1_000, 12_345, 999_999, 1_000_000, usize::MAX] {
        assert_eq!(fmt_num(n).replace(',', ""), n.to_string());
    }
}

#[test]
fn lying_within_is_transitive() {
    let (a, b, c) = ("/r/src/deep/x.rs", "/r/src", "/r");
    assert!(is_within(a, b) && is_within(b, c) && is_within(a, c));
}

#[test]
fn excerpts_can_be_sent_without_their_text() {
    let touched = words(&["a"]);
    let files = vec![source("a", "text")];
    let proof =
        build_bounded_proof_snapshot(true, &touched, "estimated", 100, 8, &files).unwrap();
    let bare = proof.without_text();
    assert_eq!(bare.proof_text, "");
    assert_eq!(bare.included_file_count, proof.included_file_count);
    assert_eq!(bare.proof_label, proof.proof_label);
}

#[test]
fn walks_go_round_circles_once() {
    let conn = make_db();
    insert_node(&conn, "r:a.rs:A", "a.rs", "A", "fn A() {}");
    insert_node(&conn, "r:b.rs:B", "b.rs", "B", "fn B() {}");
    insert_edge(&conn, "r:a.rs:A", "r:b.rs:B");
    insert_edge(&conn, "r:b.rs:B", "r:a.rs:A");
    let options = DependencyGraphOptions { depth: 5, ..DependencyGraphOptions::default() };
    let shown = dependency_graph(&conn, "r", "A", None, options, &Settings::default()).unwrap();
    assert!(shown.contains("2 nodes, 3 edges."), "{shown}");
    assert_eq!(shown.matches("(already seen)").count(), 2, "{shown}");
}

#[test]
fn registrations_keep_the_rest() {
    let place = LaunchPlace {
        home: "/h".to_string(),
        platform: Platform::Linux,
        has_zsh: true,
        search_path: "/usr/bin".to_string(),
        cline_config: "c.json".to_string(),
    };
    let edit = config_edits(ConfigWriter::Cursor, &place).remove(0);
    let before = Json::Object(object(vec![
        ("theme", text_value("dark")),
        ("mcpServers", Json::Object(object(vec![("other", Json::Count(1))]))),
    ]));
    match marrow::config::apply_edit(before, edit) {
        Some(Json::Object(top)) => {
            assert_eq!(get_text(&top, "theme"), Some("dark"));
            match get(&top, "mcpServers") {
                Some(Json::Object(servers)) => {
                    assert!(matches!(get(servers, "other"), Some(Json::Count(1))));
                    assert!(get(servers, "marrow").is_some());
                }
                other => panic!("{other:?}"),
            }
        }
        other => panic!("{other:?}"),
    }
}

#[test]
fn completion_keeps_what_was_set() {
    let set = Json::Object(object(vec![
        ("show_dashboard", Json::Bool(false)),
        ("mine", Json::Count(3)),
        ("enforcement_mode", text_value("strict")),
    ]));
    match marrow::config::ensure_workspace_config(set) {
        Json::Object(members) => {
            assert!(matches!(get(&members, "show_dashboard"), Some(Json::Bool(false))));
            assert!(matches!(get(&members, "mine"), Some(Json::Count(3))));
            assert!(matches!(get(&members, "auto_open_ui"), Some(Json::Bool(true))));
            assert_eq!(get_text(&members, "enforcement_mode"), Some("default"));
        }
        other => panic!("{other:?}"),
    }
}
