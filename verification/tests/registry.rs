use marrow::registry::{
    add_counters, check_boundary, classify_error, classify_workspace_db, default_graph_limit,
    default_registry_path, fnv_hex, graph_db_path, inventory_for_entry, probe_graph_db,
    read_counters, register_workspace_best_effort, validate_cleanup, workspace_id_for_root,
    CleanupAction, CleanupDisk, CleanupKind, Counters, DbProbe, DbReading, IndexedRepo, Registry, GraphScope, ScopeCounts,
    Stat, WorkspaceEntry, WorkspaceStatus, GRAPH_INITIAL_NODE_CAP_DEFAULT, UNCONFIRMED,
};
use rusqlite::Connection;

fn open_registry() -> Registry {
    let registry = Registry::new(Connection::open_in_memory().unwrap());
    assert!(registry.migrate().unwrap());
    registry
}

fn entry(root: &str) -> WorkspaceEntry {
    WorkspaceEntry {
        workspace_id: workspace_id_for_root(root),
        workspace_root: root.to_string(),
        graph_db_path: graph_db_path(root),
        display_name: None,
        status: WorkspaceStatus::Available,
        registered_at: 1,
        last_seen_at: 2,
        error: None,
    }
}

fn graph_db() -> Connection {
    let conn = Connection::open_in_memory().unwrap();
    conn.execute_batch(
        "CREATE TABLE repositories (id TEXT PRIMARY KEY, root_path TEXT NOT NULL);
         CREATE TABLE files (repo_id TEXT, path TEXT);
         CREATE TABLE nodes (
             id TEXT PRIMARY KEY, repo_id TEXT NOT NULL,
             file_path TEXT NOT NULL, language TEXT NOT NULL,
             symbol_name TEXT NOT NULL, symbol_type TEXT,
             raw_text TEXT NOT NULL
         );
         CREATE TABLE edges (
             source_id TEXT NOT NULL, target_id TEXT NOT NULL, relationship_type TEXT
         );
         INSERT INTO repositories VALUES ('r', '/w');
         INSERT INTO files VALUES ('r', 'a.rs');
         INSERT INTO nodes VALUES ('r:a', 'r', 'a.rs', 'rs', 'a', 'function', '');
         INSERT INTO nodes VALUES ('r:b', 'r', 'b.rs', 'rs', 'b', 'function', '');
         INSERT INTO nodes VALUES ('r:c', 'r', 'c.rs', 'rs', 'c', NULL, '');
         INSERT INTO edges VALUES ('r:a', 'r:b', 'CALLS');
         INSERT INTO edges VALUES ('r:c', 'r:b', 'CALLS');",
    )
    .unwrap();
    conn
}

#[test]
fn status_names_read_back() {
    for status in [
        WorkspaceStatus::Available,
        WorkspaceStatus::Empty,
        WorkspaceStatus::MissingDb,
        WorkspaceStatus::InaccessibleDb,
        WorkspaceStatus::Locked,
        WorkspaceStatus::Corrupt,
        WorkspaceStatus::OutOfBoundsPending,
    ] {
        assert_eq!(WorkspaceStatus::from_str(status.as_str()), status);
    }
    assert_eq!(WorkspaceStatus::MissingDb.as_str(), "missing_db");
    assert_eq!(WorkspaceStatus::from_str("no such status"), WorkspaceStatus::InaccessibleDb);
    assert!(WorkspaceStatus::Available.is_readable());
    assert!(!WorkspaceStatus::Locked.is_readable());
}

#[test]
fn failures_are_classified_however_they_are_spelled() {
    assert_eq!(
        classify_error("Database is LOCKED"),
        (WorkspaceStatus::Locked, Some("Database is LOCKED".to_string()))
    );
    assert_eq!(classify_error("SQLITE_BUSY").0, WorkspaceStatus::Locked);
    assert_eq!(classify_error("database disk image is Malformed").0, WorkspaceStatus::Corrupt);
    assert_eq!(classify_error("file is not a database").0, WorkspaceStatus::Corrupt);
    assert_eq!(classify_error("no such table: nodes").0, WorkspaceStatus::InaccessibleDb);
}

#[test]
fn databases_are_classified_by_what_they_hold() {
    assert_eq!(classify_workspace_db(&DbProbe::Missing), (WorkspaceStatus::MissingDb, None));
    assert_eq!(classify_workspace_db(&DbProbe::Counted(0, 0)), (WorkspaceStatus::Empty, None));
    assert_eq!(classify_workspace_db(&DbProbe::Counted(0, 3)), (WorkspaceStatus::Available, None));
    let locked = DbProbe::Failed("database is locked".to_string());
    assert_eq!(classify_workspace_db(&locked).0, WorkspaceStatus::Locked);
}

#[test]
fn databases_are_probed_by_counting() {
    let conn = graph_db();
    assert!(matches!(probe_graph_db(true, Ok(&conn)), DbProbe::Counted(3, 1)));
    assert!(matches!(probe_graph_db(false, Ok(&conn)), DbProbe::Missing));
    let empty = Connection::open_in_memory().unwrap();
    assert!(matches!(probe_graph_db(true, Ok(&empty)), DbProbe::Failed(_)));
    assert!(
        matches!(probe_graph_db(true, Err("no access".to_string())), DbProbe::Failed(m) if m == "no access")
    );
}

#[test]
fn hashes_are_those_of_the_well_known_function() {
    assert_eq!(fnv_hex(b""), "cbf29ce484222325");
    assert_eq!(fnv_hex(b"a"), "af63dc4c8601ec8c");
}

#[test]
fn workspace_ids_are_plain() {
    assert_eq!(workspace_id_for_root("/tmp/my repo"), "my-repo-5f9ba74f");
    assert_eq!(workspace_id_for_root("/tmp/é"), "--3ead0422");
    assert!(workspace_id_for_root("/").starts_with("workspace-"));
}

#[test]
fn databases_have_their_places() {
    assert_eq!(graph_db_path("/w"), "/w/.marrow/graph.db");
    assert_eq!(default_registry_path(Some("/home/u")), "/home/u/.marrow/registry.db");
    assert_eq!(default_registry_path(None), "/tmp/.marrow/registry.db");
}

#[test]
fn the_table_is_laid_out_once() {
    let registry = open_registry();
    assert!(!registry.migrate().unwrap());
}

#[test]
fn registered_workspaces_are_found() {
    let registry = open_registry();
    let first =
        registry.register_workspace("/w", Some("W"), &DbProbe::Counted(2, 1), 10).unwrap();
    assert_eq!(first.workspace_id, workspace_id_for_root("/w"));
    assert_eq!(first.graph_db_path, "/w/.marrow/graph.db");
    assert_eq!(first.status, WorkspaceStatus::Available);
    assert_eq!((first.registered_at, first.last_seen_at), (10, 10));

    // Seen again: the first time stays, and so does the name.
    let again = registry.register_workspace("/w", None, &DbProbe::Missing, 20).unwrap();
    assert_eq!((again.registered_at, again.last_seen_at), (10, 20));
    assert_eq!(again.status, WorkspaceStatus::MissingDb);

    let found = registry.find_workspace(&first.workspace_id).unwrap().unwrap();
    assert_eq!(found.workspace_root, "/w");
    assert_eq!(found.display_name.as_deref(), Some("W"));
    assert_eq!(found.registered_at, 10);
    assert_eq!(registry.find_workspace("unknown").unwrap(), None);

    registry.register_workspace("/a", None, &DbProbe::Missing, 30).unwrap();
    let stored = registry.stored_workspaces().unwrap();
    let roots: Vec<&str> = stored.iter().map(|e| e.workspace_root.as_str()).collect();
    assert_eq!(roots, vec!["/a", "/w"]);
    let shown =
        Registry::list_workspaces(stored, &vec![DbProbe::Counted(1, 1), DbProbe::Counted(0, 0)]);
    assert_eq!(shown[0].status, WorkspaceStatus::Available);
    assert_eq!(shown[1].status, WorkspaceStatus::Empty);
}

#[test]
fn rows_that_cannot_be_read_are_told() {
    let registry = open_registry();
    registry
        .connection()
        .execute_batch(
            "INSERT INTO workspaces VALUES ('x', x'00', '/x/.marrow/graph.db', NULL, 'empty', 1, 1);",
        )
        .unwrap();
    let said = "Invalid column type Blob at index: 1, name: workspace_root";
    assert_eq!(registry.stored_workspaces().unwrap_err().text(), said);
    assert_eq!(registry.find_workspace("x").unwrap_err().text(), said);
}

#[test]
fn a_register_without_a_table_fails() {
    let registry = Registry::new(Connection::open_in_memory().unwrap());
    let err = registry.stored_workspaces().unwrap_err();
    assert!(err.text().contains("no such table: workspaces"), "{}", err.text());
    assert!(register_workspace_best_effort(Some(&registry), Some("/w"), &DbProbe::Missing, 1)
        .is_none());
    assert!(register_workspace_best_effort(None, Some("/w"), &DbProbe::Missing, 1).is_none());
}

#[test]
fn the_boundary_is_kept_unless_the_user_confirms() {
    let registry = open_registry();
    let err = registry
        .register_workspace_with_boundary("/other", Some("/w"), false, None, &DbProbe::Missing, 1)
        .unwrap_err();
    assert_eq!(
        err.text(),
        "workspace '/other' is outside the trusted workspace boundary '/w'"
    );
    assert_eq!(registry.find_workspace(&workspace_id_for_root("/other")).unwrap(), None);
    let confirmed = registry
        .register_workspace_with_boundary("/other", Some("/w"), true, None, &DbProbe::Missing, 1)
        .unwrap();
    assert_eq!(confirmed.workspace_root, "/other");
    assert_eq!(check_boundary("/w/inner", Some("/w"), false), Ok(()));
    assert!(check_boundary("/wide", Some("/w"), false).is_err());
}

#[test]
fn cleaning_up_needs_confirmation_and_an_entry() {
    let registry = open_registry();
    let err = registry
        .cleanup_workspace("x", CleanupKind::Unregister, false, None)
        .unwrap_err();
    assert_eq!(err.text(), UNCONFIRMED);
    let err = registry.cleanup_workspace("x", CleanupKind::Unregister, true, None).unwrap_err();
    assert_eq!(err.text(), "workspace 'x' is not registered");
    let err = registry.cleanup_workspace("x", CleanupKind::DeleteDb, true, None).unwrap_err();
    assert_eq!(err.text(), "workspace 'x' is not registered");

    let known = registry.register_workspace("/w", None, &DbProbe::Missing, 1).unwrap();
    assert_eq!(
        registry
            .cleanup_workspace(&known.workspace_id, CleanupKind::Unregister, true, None)
            .unwrap(),
        CleanupAction::Unregistered
    );
    assert_eq!(registry.find_workspace(&known.workspace_id).unwrap(), None);
}

fn disk(db: &str) -> CleanupDisk {
    CleanupDisk {
        root: Ok("/w".to_string()),
        index_dir: Ok("/w/.marrow".to_string()),
        db_exists: true,
        db: Ok(db.to_string()),
        expected_db: Ok("/w/.marrow/graph.db".to_string()),
    }
}

#[test]
fn only_the_workspaces_own_database_is_cleaned_up() {
    let registry = open_registry();
    let own = entry("/w");
    let good = disk("/w/.marrow/graph.db");
    assert_eq!(validate_cleanup(&own, &good), Ok(()));
    assert_eq!(
        registry
            .cleanup_workspace(&own.workspace_id, CleanupKind::ClearIndex, true, Some((&own, &good)))
            .unwrap(),
        CleanupAction::ClearIndex("/w/.marrow/graph.db".to_string())
    );
    assert_eq!(
        registry
            .cleanup_workspace(&own.workspace_id, CleanupKind::DeleteDb, true, Some((&own, &good)))
            .unwrap(),
        CleanupAction::DeleteFile("/w/.marrow/graph.db".to_string())
    );

    assert_eq!(
        validate_cleanup(&own, &disk("/etc/passwd")).unwrap_err(),
        "cleanup target is not the registered Marrow graph DB path under /w/.marrow"
    );
    let mut elsewhere = disk("/w/.marrow/graph.db");
    elsewhere.index_dir = Ok("/other/.marrow".to_string());
    assert_eq!(
        validate_cleanup(&own, &elsewhere).unwrap_err(),
        "registered Marrow directory escapes workspace root: /other/.marrow"
    );
    let mut gone = disk("/w/.marrow/graph.db");
    gone.db_exists = false;
    assert_eq!(
        validate_cleanup(&own, &gone).unwrap_err(),
        "registered graph DB is missing: /w/.marrow/graph.db"
    );
    let mut moved = entry("/w");
    moved.graph_db_path = "/w/graph.db".to_string();
    assert_eq!(
        validate_cleanup(&moved, &good).unwrap_err(),
        "cleanup target is not the registered Marrow graph DB path under /w/.marrow"
    );
    let mut unreadable = disk("/w/.marrow/graph.db");
    unreadable.root = Err("canonicalizing workspace path /w".to_string());
    assert_eq!(
        validate_cleanup(&own, &unreadable).unwrap_err(),
        "canonicalizing workspace path /w"
    );
}

#[test]
fn a_missing_database_is_marked() {
    let registry = open_registry();
    let known = registry.register_workspace("/w", None, &DbProbe::Counted(1, 1), 1).unwrap();
    assert_eq!(registry.mark_db_missing(&known.workspace_id).unwrap(), 1);
    assert_eq!(registry.mark_db_missing("x").unwrap(), 0);
    let found = registry.find_workspace(&known.workspace_id).unwrap().unwrap();
    assert_eq!(found.status, WorkspaceStatus::MissingDb);
}

fn stat(key: &str, value: i64) -> Stat {
    Stat { key: key.to_string(), value }
}

#[test]
fn counters_are_read_and_added() {
    let read = read_counters(&vec![stat("total_requests", 3), stat("pipeline_requests", 2)]);
    assert_eq!(read.total_requests, 3);
    assert_eq!(read.pipeline_requests, 2);
    assert_eq!(read.stale_capsule_prevented, 0);
    let sum = add_counters(&read, &read).unwrap();
    assert_eq!((sum.total_requests, sum.pipeline_requests), (6, 4));
    let most = Counters { total_requests: i64::MAX, ..read };
    assert_eq!(add_counters(&most, &read), None);
}

#[test]
fn only_readable_workspaces_are_counted_together() {
    let counts = ScopeCounts { repo_count: 1, symbol_count: 2, file_count: 3 };
    let mut locked = entry("/l");
    locked.status = WorkspaceStatus::Locked;
    let repos =
        vec![IndexedRepo { repo_id: "r".to_string(), root_path: "/w/r".to_string() }];
    let reading = || DbReading {
        scope: Ok(GraphScope { counts, repos: repos.clone() }),
        stats: vec![stat("total_requests", 5)],
    };
    let entries = vec![entry("/w"), locked];
    let readings = vec![reading(), reading()];
    let rows = Registry::db_inventory(&entries, &readings);
    assert_eq!(rows.len(), 2);
    assert_eq!(rows[0].counts, counts);
    assert_eq!(rows[0].repos, repos);
    assert_eq!(rows[1].repos, Vec::new());
    assert_eq!(rows[1].counts, ScopeCounts { repo_count: 0, symbol_count: 0, file_count: 0 });
    let alone = Registry::global_lifetime_stats(&entries, &readings);
    assert_eq!(alone.counters.unwrap().total_requests, 5);
    let together = Registry::stats_aggregate(entries.clone(), &readings);
    assert_eq!(together.lifetime.counters, alone.counters);
    assert_eq!(together.lifetime.workspace_statuses, rows);
    assert_eq!(together.workspaces, entries);

    let failed = inventory_for_entry(&entry("/w"), &Err("database is locked".to_string()));
    assert_eq!(failed.entry.status, WorkspaceStatus::Locked);
    assert_eq!(failed.counts, ScopeCounts { repo_count: 0, symbol_count: 0, file_count: 0 });
    assert_eq!(failed.repos, Vec::new());
}

#[test]
fn snapshots_show_the_most_connected_symbols() {
    let conn = graph_db();
    let probe = DbProbe::Counted(3, 1);
    let whole = Registry::graph_snapshot(&entry("/w"), &probe, Ok(&conn), None, 10);
    assert_eq!(whole.repo_id.as_deref(), Some("r"));
    assert_eq!(whole.total_node_count, 3);
    assert!(!whole.truncated);
    let ids: Vec<&str> = whole.nodes.iter().map(|n| n.id.as_str()).collect();
    assert_eq!(ids, vec!["r:b", "r:a", "r:c"]);
    assert_eq!(whole.nodes[0].degree, 2);
    assert_eq!(whole.nodes[2].symbol_type, "unknown");
    assert_eq!(whole.edges.len(), 2);

    let cut = Registry::graph_snapshot(&entry("/w"), &probe, Ok(&conn), Some("r"), 2);
    assert!(cut.truncated);
    assert_eq!(cut.nodes.len(), 2);
    assert_eq!(cut.edges.len(), 1);
    assert_eq!(cut.edges[0].source, "r:a");

    let missing = Registry::graph_snapshot(&entry("/w"), &DbProbe::Missing, Ok(&conn), None, 10);
    assert_eq!(missing.status, WorkspaceStatus::MissingDb);
    assert!(missing.nodes.is_empty());
    assert_eq!(default_graph_limit(), GRAPH_INITIAL_NODE_CAP_DEFAULT);
}
