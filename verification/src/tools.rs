//! The tools that the server offers, and the shape of their arguments.
use crate::json;
use crate::json::{list_value, member, object_value, text_value, Json, Member, Value};
use crate::server;
use crate::symbols::FIND_SYMBOL_DEFAULT_LIMIT;
use vstd::prelude::*;
use vstd::string::*;

verus! {

// ── The server itself ────────────────────────────────────────────────────────

pub const SERVER_NAME: &'static str = "marrow-ast-context-engine";

pub const SERVER_VERSION: &'static str = "0.1.0";

pub const SERVER_TITLE: &'static str = "Marrow";

pub const SERVER_DESCRIPTION: &'static str =
    "Local, deterministic MCP server: parses multi-language codebases via tree-sitter into an AST dependency graph and serves condensed Context Capsules to reduce LLM token usage.";

pub const SERVER_INSTRUCTIONS: &'static str =
    "Use Marrow for structural questions (callers, blast radius, repo maps, class maps), including explore_batch, dependency_graph, and map_class. Use native read/search for single-file, line-level, config/docs, or exact-search work.";


/// A tool as it is offered.
#[derive(Debug)]
pub struct ToolInfo {
    pub name: String,
    pub description: String,
    pub schema: Json,
}

// ── Shapes ───────────────────────────────────────────────────────────────────

/// A list of texts.
pub open spec fn names<'a>(v: Seq<&'a str>) -> Seq<Seq<char>> {
    Seq::new(v.len(), |i: int| v[i]@)
}

fn name_list(v: &Vec<&'static str>) -> (r: Json)
    ensures
        r@ == json::text_list(names(v@)),
{
    let mut out: Vec<Json> = Vec::new();
    let mut i: usize = 0;
    while i < v.len()
        invariant
            i <= v.len(),
            out.len() == i,
            forall|k: int| 0 <= k < i ==> (#[trigger] out@[k])@ == Value::Text(v@[k]@),
        decreases v.len() - i,
    {
        out.push(text_value(v[i]));
        i += 1;
    }
    let r = list_value(out);
    assert(r@->List_0 =~= json::text_list(names(v@))->List_0);
    r
}

/// What an argument may be.
pub ghost struct Shape {
    pub kind: Seq<char>,
    pub choices: Option<Seq<Seq<char>>>,
    pub minimum: Option<u64>,
    pub maximum: Option<u64>,
    pub default: Option<Value>,
    pub description: Option<Seq<char>>,
}

/// The list of choices as a value.
pub open spec fn choice_value(choices: Option<Seq<Seq<char>>>) -> Option<Value> {
    match choices {
        Some(v) => Some(json::text_list(v)),
        None => None,
    }
}

/// A number as a value.
pub open spec fn count_value(n: Option<u64>) -> Option<Value> {
    match n {
        Some(n) => Some(Value::Count(n)),
        None => None,
    }
}

/// A text as a value.
pub open spec fn words_value(s: Option<Seq<char>>) -> Option<Value> {
    match s {
        Some(s) => Some(Value::Text(s)),
        None => None,
    }
}

/// The schema of an argument.
pub open spec fn shape_value(shape: Shape) -> Value {
    let kind = seq![("type"@, Value::Text(shape.kind))];
    let choices = server::with_optional(kind, "enum"@, choice_value(shape.choices));
    let minimum = server::with_optional(choices, "minimum"@, count_value(shape.minimum));
    let maximum = server::with_optional(minimum, "maximum"@, count_value(shape.maximum));
    let default = server::with_optional(maximum, "default"@, shape.default);
    Value::Object(
        server::with_optional(default, "description"@, words_value(shape.description)),
    )
}

pub(crate) fn push_member(object: &mut Vec<Member>, key: &str, value: Json)
    ensures
        json::members(final(object)@) == json::members(old(object)@).push((key@, value@)),
{
    let ghost before = json::members(object@);
    let one = member(key, value);
    object.push(one);
    assert(json::members(object@) =~= before.push((key@, one.value@)));
}

pub(crate) fn new_object() -> (r: Vec<Member>)
    ensures
        json::members(r@) == Seq::<(Seq<char>, Value)>::empty(),
{
    let out: Vec<Member> = Vec::new();
    assert(json::members(out@) =~= Seq::empty());
    out
}

/// The texts of an optional list.
pub open spec fn opt_names(v: Option<Vec<&'static str>>) -> Option<Seq<Seq<char>>> {
    match v {
        Some(v) => Some(names(v@)),
        None => None,
    }
}

/// The value of an optional one.
pub open spec fn opt_json(v: Option<Json>) -> Option<Value> {
    match v {
        Some(j) => Some(j@),
        None => None,
    }
}

fn shape(
    kind: &str,
    choices: Option<Vec<&'static str>>,
    minimum: Option<u64>,
    maximum: Option<u64>,
    default: Option<Json>,
    description: Option<&str>,
) -> (r: Json)
    ensures
        r@ == shape_value(
            Shape {
                kind: kind@,
                choices: opt_names(choices),
                minimum,
                maximum,
                default: opt_json(default),
                description: crate::text::opt_str(description),
            },
        ),
{
    let mut out = new_object();
    push_member(&mut out, "type", text_value(kind));
    assert(json::members(out@) =~= seq![("type"@, Value::Text(kind@))]);
    match choices {
        Some(v) => push_member(&mut out, "enum", name_list(&v)),
        None => {},
    }
    match minimum {
        Some(n) => push_member(&mut out, "minimum", Json::Count(n)),
        None => {},
    }
    match maximum {
        Some(n) => push_member(&mut out, "maximum", Json::Count(n)),
        None => {},
    }
    match default {
        Some(v) => push_member(&mut out, "default", v),
        None => {},
    }
    match description {
        Some(s) => push_member(&mut out, "description", text_value(s)),
        None => {},
    }
    object_value(out)
}

/// The schema of a text that is described.
pub open spec fn described(description: Seq<char>) -> Value {
    shape_value(
        Shape {
            kind: "string"@,
            choices: None,
            minimum: None,
            maximum: None,
            default: None,
            description: Some(description),
        },
    )
}

fn described_text(description: &str) -> (r: Json)
    ensures
        r@ == described(description@),
{
    shape("string", None, None, None, None, Some(description))
}

/// The schema of an argument without anything but its kind.
pub open spec fn bare(kind: Seq<char>, minimum: Option<u64>, maximum: Option<u64>) -> Value {
    shape_value(
        Shape { kind, choices: None, minimum, maximum, default: None, description: None },
    )
}

/// The schema of a text that is one of a few.
pub open spec fn one_of(choices: Seq<Seq<char>>) -> Value {
    shape_value(
        Shape {
            kind: "string"@,
            choices: Some(choices),
            minimum: None,
            maximum: None,
            default: None,
            description: None,
        },
    )
}

/// The schema of an object.
pub open spec fn object_schema(
    properties: Seq<(Seq<char>, Value)>,
    required: Option<Seq<Seq<char>>>,
) -> Value {
    let shape = seq![
        ("type"@, Value::Text("object"@)),
        ("properties"@, Value::Object(properties)),
    ];
    Value::Object(server::with_optional(shape, "required"@, choice_value(required)))
}

fn object_shape(properties: Vec<Member>, required: Option<Vec<&'static str>>) -> (r: Json)
    ensures
        r@ == object_schema(json::members(properties@), opt_names(required)),
{
    let mut out = new_object();
    push_member(&mut out, "type", text_value("object"));
    push_member(&mut out, "properties", object_value(properties));
    assert(json::members(out@) =~= seq![
        ("type"@, Value::Text("object"@)),
        ("properties"@, Value::Object(json::members(properties@))),
    ]);
    match required {
        Some(v) => push_member(&mut out, "required", name_list(&v)),
        None => {},
    }
    object_value(out)
}

// ── Descriptions ─────────────────────────────────────────────────────────────

pub const GET_CONTEXT_CAPSULE_ABOUT: &'static str =
    "Returns the pivot symbol's full source plus condensed depth-1 callers, callees, and imports.";

pub const GET_CONTEXT_CAPSULE_SYMBOL_NAME: &'static str =
    "The exact symbol name to look up (e.g. 'MyClass' or 'process_data').";

pub const GET_CONTEXT_CAPSULE_REPO_ID: &'static str =
    "The repository identifier used during ingestion (e.g. 'backend_api').";

pub const GET_CONTEXT_CAPSULE_FILEPATH: &'static str =
    "Relative file path to disambiguate symbols with identical names across files. ALWAYS provide this when you know which file the symbol is in (e.g. from the user's open editor tab, cursor location, or a previous skeleton/search result). Example: 'app/controllers/invoices_controller.rb'.";

pub const ANALYZE_IMPACT_ABOUT: &'static str =
    "Recursively maps the blast radius of a proposed change across callers and importers.";

pub const ANALYZE_IMPACT_SYMBOL_NAME: &'static str =
    "The symbol whose downstream dependents to analyse.";

pub const ANALYZE_IMPACT_REPO_ID: &'static str =
    "The repository identifier for the pivot symbol.";

pub const ANALYZE_IMPACT_FILEPATH: &'static str =
    "Relative file path to disambiguate symbols with identical names across files. ALWAYS provide this when you know which file the symbol is in (e.g. from the user's open editor tab, cursor location, or a previous skeleton/search result).";

pub const INGEST_REPO_ABOUT: &'static str =
    "Use this to build or refresh the AST dependency graph for a repository. Run immediately if any other Marrow tool fails with an empty or missing database error, or when the user asks you to map/index the codebase. After ingestion completes, resume the original task using get_context_capsule or analyze_impact. If the path is outside the current workspace, the server will intercept and require explicit user confirmation via `user_confirmed: true`.";

pub const INGEST_REPO_REPO_ID: &'static str =
    "A unique, stable identifier for the repository (e.g. 'backend_api').";

pub const INGEST_REPO_ROOT_PATH: &'static str =
    "Absolute or relative path to the repository root on disk.";

pub const INGEST_REPO_USER_CONFIRMED: &'static str =
    "Set to true only after the user has explicitly granted permission to index a path outside the current workspace. Defaults to false.";

pub const SAVE_OBSERVATION_ABOUT: &'static str =
    "Save a session memory (observation) about a specific code symbol. The observation is hash-linked to the symbol's current AST node so Marrow can automatically flag it as stale if the code changes after the next ingest_repo run. Use the relative file path as stored in the graph (e.g. 'src/main.rs'). Supply `repo_id` when you want to target a repo other than the current workspace.";

pub const SAVE_OBSERVATION_REPO_ID: &'static str =
    "Optional repo override. Defaults to the current workspace repo.";

pub const SAVE_OBSERVATION_SYMBOL_NAME: &'static str =
    "Exact name of the symbol to link the memory to (e.g. 'ingest_repo').";

pub const SAVE_OBSERVATION_FILEPATH: &'static str =
    "Relative file path of the symbol as stored in the graph (e.g. 'src/ingestion.rs').";

pub const SAVE_OBSERVATION_OBSERVATION: &'static str =
    "The observation or memory text to save.";

pub const GET_SESSION_CONTEXT_ABOUT: &'static str =
    "Retrieve stored session memories (observations) for a symbol or file. Memories that have gone stale — because the underlying code changed since they were recorded — are returned with a prominent warning so the caller knows to re-verify them before trusting. Supply `repo_id` to inspect memories outside the current workspace repo.";

pub const GET_SESSION_CONTEXT_REPO_ID: &'static str =
    "Optional repo override. Defaults to the current workspace repo.";

pub const GET_SESSION_CONTEXT_SYMBOL_NAME: &'static str =
    "Filter memories by this symbol name.";

pub const GET_SESSION_CONTEXT_FILEPATH: &'static str =
    "Filter memories by this relative file path.";

pub const GET_SKELETON_ABOUT: &'static str =
    "Returns a token-efficient Markdown map of one repo's high-level architecture, grouped by file.";

pub const GET_SKELETON_REPO_ID: &'static str =
    "Optional repo override. Defaults to the current workspace repo.";

pub const GET_SKELETON_TARGET_DIR: &'static str =
    "Optional path prefix to restrict the skeleton to a subdirectory (e.g. 'src/api'). Omit to map the entire repo.";

pub const RUN_PIPELINE_ABOUT: &'static str =
    "Use for code structure, dependencies, refactor blast radius, or codebase maps. Skip for single-file lookups, line-level reads, and grep-style text search — native tools are faster there. Use `find_symbol` to discover symbol names from a partial query before calling explore_symbol. Use intent 'analyze_repo' to map the full codebase, 'find_symbol' to search indexed symbols, 'explore_symbol' to understand a specific symbol, 'trace_flow' to linearly trace a symbol's outbound execution path, 'refactor_symbol' to assess blast radius, or 'read_node' to expand a neighbor signature into its full source. Use 'explore_batch' for 3+ related symbols, 'dependency_graph' for multi-hop caller/callee maps, and 'map_class' for full class-level architecture maps.";

pub const WORKSPACE_SETUP_ABOUT: &'static str =
    "CRITICAL: Run this tool when the user asks you to initialize Marrow, OR automatically if `.marrow/` does not exist in the current workspace and auto-init has not already run. Generates workspace rule files, writes `.vscode/mcp.json`, and persists the workspace configuration.";

pub const RUN_PIPELINE_QUERIES: &'static str =
    "Array of exploration queries for explore_batch. Each query requires intent and target.";

pub const RUN_PIPELINE_INTENT: &'static str =
    "Must be exactly 'analyze_repo', 'find_symbol', 'explore_symbol', 'trace_flow', 'refactor_symbol', 'read_node', 'explore_batch', 'dependency_graph', or 'map_class'.";

pub const RUN_PIPELINE_TARGET: &'static str =
    "The symbol name or directory path relevant to the intent. Required for find_symbol, explore_symbol, trace_flow, refactor_symbol, dependency_graph, and map_class.";

pub const RUN_PIPELINE_KIND: &'static str =
    "Optional symbol_type filter for find_symbol (e.g. 'function', 'class', 'struct', 'method').";

pub const RUN_PIPELINE_LIMIT: &'static str =
    "Optional maximum number of find_symbol matches to return. Must be a positive integer.";

pub const RUN_PIPELINE_REPO_ID: &'static str =
    "The repository identifier. Auto-detected if omitted.";

pub const RUN_PIPELINE_FILEPATH: &'static str =
    "Relative file path to disambiguate symbols with identical names across files. ALWAYS provide this for explore_symbol, trace_flow, refactor_symbol, dependency_graph, and map_class when you know which file the symbol is in (e.g. from the user's open editor tab, cursor location, or a previous skeleton/search result). Required to resolve a Disambiguation Payload — re-call run_pipeline with the same intent/target plus the filepath from the payload instead of falling back to grep/read_file.";

pub const RUN_PIPELINE_DEPTH: &'static str =
    "Dependency graph traversal depth for dependency_graph or explore_batch graph queries.";

pub const RUN_PIPELINE_DIRECTION: &'static str =
    "Dependency graph traversal direction.";

pub const RUN_PIPELINE_INCLUDE_SOURCE: &'static str =
    "Include condensed source for dependency graph nodes.";

pub const RUN_PIPELINE_MAX_NODES: &'static str =
    "Maximum dependency graph nodes to traverse and render.";

// ── Schemas ──────────────────────────────────────────────────────────────────

/// The arguments of a call for a capsule.
pub open spec fn get_context_capsule_schema_value() -> Value {
    object_schema(
        seq![
            ("symbol_name"@, described(GET_CONTEXT_CAPSULE_SYMBOL_NAME@)),
            ("repo_id"@, described(GET_CONTEXT_CAPSULE_REPO_ID@)),
            ("filepath"@, described(GET_CONTEXT_CAPSULE_FILEPATH@)),
        ],
        Some(seq!["symbol_name"@, "repo_id"@]),
    )
}

/// The arguments of a call for a capsule.
pub fn get_context_capsule_schema() -> (r: Json)
    ensures
        r@ == get_context_capsule_schema_value(),
{
    let mut out = new_object();
    push_member(&mut out, "symbol_name", described_text(GET_CONTEXT_CAPSULE_SYMBOL_NAME));
    push_member(&mut out, "repo_id", described_text(GET_CONTEXT_CAPSULE_REPO_ID));
    push_member(&mut out, "filepath", described_text(GET_CONTEXT_CAPSULE_FILEPATH));
    assert(json::members(out@) =~= seq![
        ("symbol_name"@, described(GET_CONTEXT_CAPSULE_SYMBOL_NAME@)),
        ("repo_id"@, described(GET_CONTEXT_CAPSULE_REPO_ID@)),
        ("filepath"@, described(GET_CONTEXT_CAPSULE_FILEPATH@)),
    ]);
    let required = vec!["symbol_name", "repo_id"];
    assert(names(required@) =~= seq!["symbol_name"@, "repo_id"@]);
    object_shape(out, Some(required))
}

/// The arguments of a call for an impact.
pub open spec fn analyze_impact_schema_value() -> Value {
    object_schema(
        seq![
            ("symbol_name"@, described(ANALYZE_IMPACT_SYMBOL_NAME@)),
            ("repo_id"@, described(ANALYZE_IMPACT_REPO_ID@)),
            ("filepath"@, described(ANALYZE_IMPACT_FILEPATH@)),
        ],
        Some(seq!["symbol_name"@, "repo_id"@]),
    )
}

/// The arguments of a call for an impact.
pub fn analyze_impact_schema() -> (r: Json)
    ensures
        r@ == analyze_impact_schema_value(),
{
    let mut out = new_object();
    push_member(&mut out, "symbol_name", described_text(ANALYZE_IMPACT_SYMBOL_NAME));
    push_member(&mut out, "repo_id", described_text(ANALYZE_IMPACT_REPO_ID));
    push_member(&mut out, "filepath", described_text(ANALYZE_IMPACT_FILEPATH));
    assert(json::members(out@) =~= seq![
        ("symbol_name"@, described(ANALYZE_IMPACT_SYMBOL_NAME@)),
        ("repo_id"@, described(ANALYZE_IMPACT_REPO_ID@)),
        ("filepath"@, described(ANALYZE_IMPACT_FILEPATH@)),
    ]);
    let required = vec!["symbol_name", "repo_id"];
    assert(names(required@) =~= seq!["symbol_name"@, "repo_id"@]);
    object_shape(out, Some(required))
}

/// The arguments of a call to index a repository.
pub open spec fn ingest_repo_schema_value() -> Value {
    object_schema(
        seq![
            ("repo_id"@, described(INGEST_REPO_REPO_ID@)),
            ("root_path"@, described(INGEST_REPO_ROOT_PATH@)),
            ("user_confirmed"@, shape_value(Shape { kind: "boolean"@, choices: None, minimum: None, maximum: None, default: None, description: Some(INGEST_REPO_USER_CONFIRMED@) })),
        ],
        Some(seq!["repo_id"@, "root_path"@]),
    )
}

/// The arguments of a call to index a repository.
pub fn ingest_repo_schema() -> (r: Json)
    ensures
        r@ == ingest_repo_schema_value(),
{
    let mut out = new_object();
    push_member(&mut out, "repo_id", described_text(INGEST_REPO_REPO_ID));
    push_member(&mut out, "root_path", described_text(INGEST_REPO_ROOT_PATH));
    push_member(&mut out, "user_confirmed", shape("boolean", None, None, None, None, Some(INGEST_REPO_USER_CONFIRMED)));
    assert(json::members(out@) =~= seq![
        ("repo_id"@, described(INGEST_REPO_REPO_ID@)),
        ("root_path"@, described(INGEST_REPO_ROOT_PATH@)),
        ("user_confirmed"@, shape_value(Shape { kind: "boolean"@, choices: None, minimum: None, maximum: None, default: None, description: Some(INGEST_REPO_USER_CONFIRMED@) })),
    ]);
    let required = vec!["repo_id", "root_path"];
    assert(names(required@) =~= seq!["repo_id"@, "root_path"@]);
    object_shape(out, Some(required))
}

/// The arguments of a call to keep a remark.
pub open spec fn save_observation_schema_value() -> Value {
    object_schema(
        seq![
            ("repo_id"@, described(SAVE_OBSERVATION_REPO_ID@)),
            ("symbol_name"@, described(SAVE_OBSERVATION_SYMBOL_NAME@)),
            ("filepath"@, described(SAVE_OBSERVATION_FILEPATH@)),
            ("observation"@, described(SAVE_OBSERVATION_OBSERVATION@)),
        ],
        Some(seq!["symbol_name"@, "filepath"@, "observation"@]),
    )
}

/// The arguments of a call to keep a remark.
pub fn save_observation_schema() -> (r: Json)
    ensures
        r@ == save_observation_schema_value(),
{
    let mut out = new_object();
    push_member(&mut out, "repo_id", described_text(SAVE_OBSERVATION_REPO_ID));
    push_member(&mut out, "symbol_name", described_text(SAVE_OBSERVATION_SYMBOL_NAME));
    push_member(&mut out, "filepath", described_text(SAVE_OBSERVATION_FILEPATH));
    push_member(&mut out, "observation", described_text(SAVE_OBSERVATION_OBSERVATION));
    assert(json::members(out@) =~= seq![
        ("repo_id"@, described(SAVE_OBSERVATION_REPO_ID@)),
        ("symbol_name"@, described(SAVE_OBSERVATION_SYMBOL_NAME@)),
        ("filepath"@, described(SAVE_OBSERVATION_FILEPATH@)),
        ("observation"@, described(SAVE_OBSERVATION_OBSERVATION@)),
    ]);
    let required = vec!["symbol_name", "filepath", "observation"];
    assert(names(required@) =~= seq!["symbol_name"@, "filepath"@, "observation"@]);
    object_shape(out, Some(required))
}

/// The arguments of a call for the remarks that were kept.
pub open spec fn get_session_context_schema_value() -> Value {
    object_schema(
        seq![
            ("repo_id"@, described(GET_SESSION_CONTEXT_REPO_ID@)),
            ("symbol_name"@, described(GET_SESSION_CONTEXT_SYMBOL_NAME@)),
            ("filepath"@, described(GET_SESSION_CONTEXT_FILEPATH@)),
        ],
        None,
    )
}

/// The arguments of a call for the remarks that were kept.
pub fn get_session_context_schema() -> (r: Json)
    ensures
        r@ == get_session_context_schema_value(),
{
    let mut out = new_object();
    push_member(&mut out, "repo_id", described_text(GET_SESSION_CONTEXT_REPO_ID));
    push_member(&mut out, "symbol_name", described_text(GET_SESSION_CONTEXT_SYMBOL_NAME));
    push_member(&mut out, "filepath", described_text(GET_SESSION_CONTEXT_FILEPATH));
    assert(json::members(out@) =~= seq![
        ("repo_id"@, described(GET_SESSION_CONTEXT_REPO_ID@)),
        ("symbol_name"@, described(GET_SESSION_CONTEXT_SYMBOL_NAME@)),
        ("filepath"@, described(GET_SESSION_CONTEXT_FILEPATH@)),
    ]);
    object_shape(out, None)
}

/// The arguments of a call for a map.
pub open spec fn get_skeleton_schema_value() -> Value {
    object_schema(
        seq![
            ("repo_id"@, described(GET_SKELETON_REPO_ID@)),
            ("target_dir"@, described(GET_SKELETON_TARGET_DIR@)),
        ],
        None,
    )
}

/// The arguments of a call for a map.
pub fn get_skeleton_schema() -> (r: Json)
    ensures
        r@ == get_skeleton_schema_value(),
{
    let mut out = new_object();
    push_member(&mut out, "repo_id", described_text(GET_SKELETON_REPO_ID));
    push_member(&mut out, "target_dir", described_text(GET_SKELETON_TARGET_DIR));
    assert(json::members(out@) =~= seq![
        ("repo_id"@, described(GET_SKELETON_REPO_ID@)),
        ("target_dir"@, described(GET_SKELETON_TARGET_DIR@)),
    ]);
    object_shape(out, None)
}

/// The arguments of one query of a batch.
pub open spec fn query_schema_value() -> Value {
    object_schema(
        seq![
            ("intent"@, one_of(seq!["find_symbol"@, "explore_symbol"@, "trace_flow"@, "refactor_symbol"@, "read_node"@, "dependency_graph"@, "capsule"@, "analyze_impact"@])),
            ("target"@, bare("string"@, None, None)),
            ("kind"@, bare("string"@, None, None)),
            ("limit"@, bare("integer"@, Some(1), None)),
            ("filepath"@, bare("string"@, None, None)),
            ("depth"@, bare("integer"@, Some(1), Some(5))),
            ("direction"@, one_of(seq!["callers"@, "callees"@, "both"@])),
            ("include_source"@, bare("boolean"@, None, None)),
            ("max_nodes"@, bare("integer"@, Some(1), None)),
        ],
        Some(seq!["intent"@, "target"@]),
    )
}

/// The arguments of one query of a batch.
pub fn query_schema() -> (r: Json)
    ensures
        r@ == query_schema_value(),
{
    let mut out = new_object();
    let choices = vec!["find_symbol", "explore_symbol", "trace_flow", "refactor_symbol", "read_node", "dependency_graph", "capsule", "analyze_impact"];
    assert(names(choices@) =~= seq!["find_symbol"@, "explore_symbol"@, "trace_flow"@, "refactor_symbol"@, "read_node"@, "dependency_graph"@, "capsule"@, "analyze_impact"@]);
    push_member(&mut out, "intent", shape("string", Some(choices), None, None, None, None));
    push_member(&mut out, "target", shape("string", None, None, None, None, None));
    push_member(&mut out, "kind", shape("string", None, None, None, None, None));
    push_member(&mut out, "limit", shape("integer", None, Some(1), None, None, None));
    push_member(&mut out, "filepath", shape("string", None, None, None, None, None));
    push_member(&mut out, "depth", shape("integer", None, Some(1), Some(5), None, None));
    let choices = vec!["callers", "callees", "both"];
    assert(names(choices@) =~= seq!["callers"@, "callees"@, "both"@]);
    push_member(&mut out, "direction", shape("string", Some(choices), None, None, None, None));
    push_member(&mut out, "include_source", shape("boolean", None, None, None, None, None));
    push_member(&mut out, "max_nodes", shape("integer", None, Some(1), None, None, None));
    assert(json::members(out@) =~= seq![
        ("intent"@, one_of(seq!["find_symbol"@, "explore_symbol"@, "trace_flow"@, "refactor_symbol"@, "read_node"@, "dependency_graph"@, "capsule"@, "analyze_impact"@])),
        ("target"@, bare("string"@, None, None)),
        ("kind"@, bare("string"@, None, None)),
        ("limit"@, bare("integer"@, Some(1), None)),
        ("filepath"@, bare("string"@, None, None)),
        ("depth"@, bare("integer"@, Some(1), Some(5))),
        ("direction"@, one_of(seq!["callers"@, "callees"@, "both"@])),
        ("include_source"@, bare("boolean"@, None, None)),
        ("max_nodes"@, bare("integer"@, Some(1), None)),
    ]);
    let required = vec!["intent", "target"];
    assert(names(required@) =~= seq!["intent"@, "target"@]);
    object_shape(out, Some(required))
}

/// The list of queries of a batch.
pub open spec fn queries_schema_value() -> Value {
    Value::Object(
        seq![
            ("type"@, Value::Text("array"@)),
            ("minItems"@, Value::Count(1)),
            ("maxItems"@, Value::Count(20)),
            ("description"@, Value::Text(RUN_PIPELINE_QUERIES@)),
            ("items"@, query_schema_value()),
        ],
    )
}

/// The list of queries of a batch.
pub fn queries_schema() -> (r: Json)
    ensures
        r@ == queries_schema_value(),
{
    let mut out = new_object();
    push_member(&mut out, "type", text_value("array"));
    push_member(&mut out, "minItems", Json::Count(1));
    push_member(&mut out, "maxItems", Json::Count(20));
    push_member(&mut out, "description", text_value(RUN_PIPELINE_QUERIES));
    push_member(&mut out, "items", query_schema());
    assert(json::members(out@) =~= queries_schema_value()->Object_0);
    object_value(out)
}

/// The arguments of a call of the pipeline. `max_nodes` is the number of nodes that a
/// graph has unless another is asked for.
pub open spec fn run_pipeline_schema_value(max_nodes: usize) -> Value {
    object_schema(
        seq![
            ("intent"@, shape_value(Shape { kind: "string"@, choices: Some(seq!["analyze_repo"@, "find_symbol"@, "explore_symbol"@, "trace_flow"@, "refactor_symbol"@, "read_node"@, "explore_batch"@, "dependency_graph"@, "map_class"@]), minimum: None, maximum: None, default: None, description: Some(RUN_PIPELINE_INTENT@) })),
            ("target"@, described(RUN_PIPELINE_TARGET@)),
            ("queries"@, queries_schema_value()),
            ("kind"@, described(RUN_PIPELINE_KIND@)),
            ("limit"@, shape_value(Shape { kind: "integer"@, choices: None, minimum: Some(1), maximum: None, default: Some(Value::Count(FIND_SYMBOL_DEFAULT_LIMIT as u64)), description: Some(RUN_PIPELINE_LIMIT@) })),
            ("repo_id"@, described(RUN_PIPELINE_REPO_ID@)),
            ("filepath"@, described(RUN_PIPELINE_FILEPATH@)),
            ("depth"@, shape_value(Shape { kind: "integer"@, choices: None, minimum: Some(1), maximum: Some(5), default: Some(Value::Count(2)), description: Some(RUN_PIPELINE_DEPTH@) })),
            ("direction"@, shape_value(Shape { kind: "string"@, choices: Some(seq!["callers"@, "callees"@, "both"@]), minimum: None, maximum: None, default: Some(Value::Text("both"@)), description: Some(RUN_PIPELINE_DIRECTION@) })),
            ("include_source"@, shape_value(Shape { kind: "boolean"@, choices: None, minimum: None, maximum: None, default: Some(Value::Bool(false)), description: Some(RUN_PIPELINE_INCLUDE_SOURCE@) })),
            ("max_nodes"@, shape_value(Shape { kind: "integer"@, choices: None, minimum: Some(1), maximum: None, default: Some(Value::Count(max_nodes as u64)), description: Some(RUN_PIPELINE_MAX_NODES@) })),
        ],
        Some(seq!["intent"@]),
    )
}

/// The arguments of a call of the pipeline. `max_nodes` is the number of nodes that a
/// graph has unless another is asked for.
pub fn run_pipeline_schema(max_nodes: usize) -> (r: Json)
    ensures
        r@ == run_pipeline_schema_value(max_nodes),
{
    let mut out = new_object();
    let choices = vec!["analyze_repo", "find_symbol", "explore_symbol", "trace_flow", "refactor_symbol", "read_node", "explore_batch", "dependency_graph", "map_class"];
    assert(names(choices@) =~= seq!["analyze_repo"@, "find_symbol"@, "explore_symbol"@, "trace_flow"@, "refactor_symbol"@, "read_node"@, "explore_batch"@, "dependency_graph"@, "map_class"@]);
    push_member(&mut out, "intent", shape("string", Some(choices), None, None, None, Some(RUN_PIPELINE_INTENT)));
    push_member(&mut out, "target", described_text(RUN_PIPELINE_TARGET));
    push_member(&mut out, "queries", queries_schema());
    push_member(&mut out, "kind", described_text(RUN_PIPELINE_KIND));
    push_member(&mut out, "limit", shape("integer", None, Some(1), None, Some(Json::Count(FIND_SYMBOL_DEFAULT_LIMIT as u64)), Some(RUN_PIPELINE_LIMIT)));
    push_member(&mut out, "repo_id", described_text(RUN_PIPELINE_REPO_ID));
    push_member(&mut out, "filepath", described_text(RUN_PIPELINE_FILEPATH));
    push_member(&mut out, "depth", shape("integer", None, Some(1), Some(5), Some(Json::Count(2)), Some(RUN_PIPELINE_DEPTH)));
    let choices = vec!["callers", "callees", "both"];
    assert(names(choices@) =~= seq!["callers"@, "callees"@, "both"@]);
    push_member(&mut out, "direction", shape("string", Some(choices), None, None, Some(text_value("both")), Some(RUN_PIPELINE_DIRECTION)));
    push_member(&mut out, "include_source", shape("boolean", None, None, None, Some(Json::Bool(false)), Some(RUN_PIPELINE_INCLUDE_SOURCE)));
    push_member(&mut out, "max_nodes", shape("integer", None, Some(1), None, Some(Json::Count(max_nodes as u64)), Some(RUN_PIPELINE_MAX_NODES)));
    assert(json::members(out@) =~= seq![
        ("intent"@, shape_value(Shape { kind: "string"@, choices: Some(seq!["analyze_repo"@, "find_symbol"@, "explore_symbol"@, "trace_flow"@, "refactor_symbol"@, "read_node"@, "explore_batch"@, "dependency_graph"@, "map_class"@]), minimum: None, maximum: None, default: None, description: Some(RUN_PIPELINE_INTENT@) })),
        ("target"@, described(RUN_PIPELINE_TARGET@)),
        ("queries"@, queries_schema_value()),
        ("kind"@, described(RUN_PIPELINE_KIND@)),
        ("limit"@, shape_value(Shape { kind: "integer"@, choices: None, minimum: Some(1), maximum: None, default: Some(Value::Count(FIND_SYMBOL_DEFAULT_LIMIT as u64)), description: Some(RUN_PIPELINE_LIMIT@) })),
        ("repo_id"@, described(RUN_PIPELINE_REPO_ID@)),
        ("filepath"@, described(RUN_PIPELINE_FILEPATH@)),
        ("depth"@, shape_value(Shape { kind: "integer"@, choices: None, minimum: Some(1), maximum: Some(5), default: Some(Value::Count(2)), description: Some(RUN_PIPELINE_DEPTH@) })),
        ("direction"@, shape_value(Shape { kind: "string"@, choices: Some(seq!["callers"@, "callees"@, "both"@]), minimum: None, maximum: None, default: Some(Value::Text("both"@)), description: Some(RUN_PIPELINE_DIRECTION@) })),
        ("include_source"@, shape_value(Shape { kind: "boolean"@, choices: None, minimum: None, maximum: None, default: Some(Value::Bool(false)), description: Some(RUN_PIPELINE_INCLUDE_SOURCE@) })),
        ("max_nodes"@, shape_value(Shape { kind: "integer"@, choices: None, minimum: Some(1), maximum: None, default: Some(Value::Count(max_nodes as u64)), description: Some(RUN_PIPELINE_MAX_NODES@) })),
    ]);
    let required = vec!["intent"];
    assert(names(required@) =~= seq!["intent"@]);
    object_shape(out, Some(required))
}

/// Whether a tool is offered under a name, with a description and a schema.
pub open spec fn is_tool(
    tool: ToolInfo,
    name: Seq<char>,
    description: Seq<char>,
    schema: Value,
) -> bool {
    tool.name@ == name && tool.description@ == description && tool.schema@ == schema
}

fn tool(name: &str, description: &str, schema: Json) -> (r: ToolInfo)
    ensures
        is_tool(r, name@, description@, schema@),
{
    ToolInfo { name: name.to_owned(), description: description.to_owned(), schema }
}

/// The tools that the server offers.
pub fn list_tools(max_nodes: usize) -> (r: Vec<ToolInfo>)
    ensures
        r.len() == 8,
        is_tool(r@[0], "get_context_capsule"@, GET_CONTEXT_CAPSULE_ABOUT@, get_context_capsule_schema_value()),
        is_tool(r@[1], "analyze_impact"@, ANALYZE_IMPACT_ABOUT@, analyze_impact_schema_value()),
        is_tool(r@[2], "ingest_repo"@, INGEST_REPO_ABOUT@, ingest_repo_schema_value()),
        is_tool(r@[3], "save_observation"@, SAVE_OBSERVATION_ABOUT@, save_observation_schema_value()),
        is_tool(r@[4], "get_session_context"@, GET_SESSION_CONTEXT_ABOUT@, get_session_context_schema_value()),
        is_tool(r@[5], "get_skeleton"@, GET_SKELETON_ABOUT@, get_skeleton_schema_value()),
        is_tool(r@[6], "run_pipeline"@, RUN_PIPELINE_ABOUT@, run_pipeline_schema_value(max_nodes)),
        is_tool(r@[7], "workspace_setup"@, WORKSPACE_SETUP_ABOUT@, object_schema(Seq::empty(), None)),
{
    let mut out: Vec<ToolInfo> = Vec::new();
    out.push(tool("get_context_capsule", GET_CONTEXT_CAPSULE_ABOUT, get_context_capsule_schema()));
    out.push(tool("analyze_impact", ANALYZE_IMPACT_ABOUT, analyze_impact_schema()));
    out.push(tool("ingest_repo", INGEST_REPO_ABOUT, ingest_repo_schema()));
    out.push(tool("save_observation", SAVE_OBSERVATION_ABOUT, save_observation_schema()));
    out.push(tool("get_session_context", GET_SESSION_CONTEXT_ABOUT, get_session_context_schema()));
    out.push(tool("get_skeleton", GET_SKELETON_ABOUT, get_skeleton_schema()));
    out.push(tool("run_pipeline", RUN_PIPELINE_ABOUT, run_pipeline_schema(max_nodes)));
    out.push(tool("workspace_setup", WORKSPACE_SETUP_ABOUT, object_shape(new_object(), None)));
    out
}

} // verus!
