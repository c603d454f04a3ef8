//! The values that retrieval hands around.
use crate::settings;
use crate::store::MarrowError;
use crate::text::same;
use vstd::prelude::*;
use vstd::string::*;

verus! {

/// How the raw text of a capsule's files is carried along.
#[derive(Debug, Clone, Copy, PartialEq, Eq, Structural)]
pub enum CapsuleOriginalMode {
    /// The files are not loaded; their text stays empty.
    Off,
    /// The files that the capsule touches are concatenated.
    Full,
}

/// A capsule together with what it was measured against.
#[derive(Debug)]
pub struct CapsuleResult {
    /// The condensed text.
    pub optimized_text: String,
    /// The raw text of the touched files, empty unless they are loaded; where the name
    /// was ambiguous, the condensed text again.
    pub original_text: String,
    /// A quarter of the bytes that the touched files hold.
    pub file_tokens: usize,
    /// A bounded excerpt of the touched files.
    pub proof_snapshot: Option<CapsuleProofSnapshot>,
    /// Where the numbers come from.
    pub provenance: CapsuleProvenance,
}

/// A bounded excerpt of the files that a capsule touches.
#[derive(Debug, Clone, PartialEq, Eq)]
pub struct CapsuleProofSnapshot {
    pub proof_text: String,
    pub proof_label: String,
    pub token_source: String,
    pub truncated: bool,
    pub sampled: bool,
    pub max_bytes: usize,
    pub max_files: usize,
    pub touched_file_count: usize,
    pub included_file_count: usize,
    pub omitted_file_count: usize,
    pub omitted_paths_preview: Vec<String>,
}

fn clone_texts(v: &Vec<String>) -> (r: Vec<String>)
    ensures
        r@ == v@,
{
    let mut out: Vec<String> = Vec::new();
    let mut i: usize = 0;
    while i < v.len()
        invariant
            i <= v.len(),
            out@ == v@.take(i as int),
        decreases v.len() - i,
    {
        out.push(v[i].clone());
        assert(v@.take(i as int).push(v@[i as int]) =~= v@.take(i + 1));
        i += 1;
    }
    assert(v@.take(v@.len() as int) =~= v@);
    out
}

impl CapsuleProofSnapshot {
    /// The snapshot without its text.
    pub fn without_text(&self) -> (r: Self)
        ensures
            r.proof_text@ == Seq::<char>::empty(),
            r.proof_label == self.proof_label,
            r.token_source == self.token_source,
            r.truncated == self.truncated,
            r.sampled == self.sampled,
            r.max_bytes == self.max_bytes,
            r.max_files == self.max_files,
            r.touched_file_count == self.touched_file_count,
            r.included_file_count == self.included_file_count,
            r.omitted_file_count == self.omitted_file_count,
            r.omitted_paths_preview@ == self.omitted_paths_preview@,
    {
        CapsuleProofSnapshot {
            proof_text: String::new(),
            proof_label: self.proof_label.clone(),
            token_source: self.token_source.clone(),
            truncated: self.truncated,
            sampled: self.sampled,
            max_bytes: self.max_bytes,
            max_files: self.max_files,
            touched_file_count: self.touched_file_count,
            included_file_count: self.included_file_count,
            omitted_file_count: self.omitted_file_count,
            omitted_paths_preview: clone_texts(&self.omitted_paths_preview),
        }
    }
}

/// Where a capsule's token counts and proof material come from.
#[derive(Debug, Clone, PartialEq, Eq)]
pub struct CapsuleProvenance {
    pub baseline_token_source: String,
    pub tokenizer_mode: String,
    pub original_mode: String,
    pub proof_label: String,
    pub precise_file_tokens: bool,
    pub original_max_bytes: Option<usize>,
    pub proof_max_bytes: usize,
    pub proof_max_files: usize,
    pub touched_file_count: usize,
}

impl Default for CapsuleProvenance {
    /// Nothing measured yet, with the limits that hold when nothing else is set.
    fn default() -> (r: Self)
        ensures
            r.baseline_token_source@ == "unavailable"@,
            r.tokenizer_mode@ == "unknown"@,
            r.original_mode@ == "none"@,
            r.proof_label@ == "unavailable"@,
            !r.precise_file_tokens,
            r.original_max_bytes is None,
            r.proof_max_bytes == settings::PROOF_MAX_BYTES,
            r.proof_max_files == settings::PROOF_MAX_FILES,
            r.touched_file_count == 0,
    {
        CapsuleProvenance {
            baseline_token_source: "unavailable".to_owned(),
            tokenizer_mode: "unknown".to_owned(),
            original_mode: "none".to_owned(),
            proof_label: "unavailable".to_owned(),
            precise_file_tokens: false,
            original_max_bytes: None,
            proof_max_bytes: settings::PROOF_MAX_BYTES,
            proof_max_files: settings::PROOF_MAX_FILES,
            touched_file_count: 0,
        }
    }
}

/// Exact token counts of the files that a capsule touches.
#[derive(Debug, Clone, PartialEq, Eq)]
pub struct PreciseTokenMeasurement {
    pub tokens: usize,
    pub touched_file_count: usize,
    pub measured_file_count: usize,
    pub failed_paths: Vec<String>,
    pub tokenizer_mode: String,
}

/// A symbol with the symbols one edge away.
#[derive(Debug)]
pub struct ContextCapsule {
    pub pivot: NodeInfo,
    pub neighbors: Vec<NeighborInfo>,
}

/// A symbol and its text: the full source of a pivot, the condensed one of a neighbor.
#[derive(Debug)]
pub struct NodeInfo {
    pub id: String,
    pub symbol_name: String,
    pub symbol_type: String,
    pub file_path: String,
    pub language: String,
    pub text: String,
}

/// Which way an edge runs, seen from the pivot.
#[derive(Debug, Clone, Copy, PartialEq, Eq, Structural)]
pub enum EdgeDirection {
    /// The pivot depends on the neighbor.
    Outbound,
    /// The neighbor depends on the pivot.
    Inbound,
}

/// A neighbor and the edge to it.
#[derive(Debug)]
pub struct NeighborInfo {
    pub node: NodeInfo,
    pub relationship: String,
    pub direction: EdgeDirection,
}

/// A symbol that depends on the pivot, at its smallest distance.
#[derive(Debug)]
pub struct ImpactNode {
    pub id: String,
    pub symbol_name: String,
    pub symbol_type: String,
    pub file_path: String,
    pub repo_id: String,
    pub relationship_type: String,
    pub depth: i64,
}

/// Everything that depends on a pivot.
#[derive(Debug)]
pub struct ImpactResult {
    pub pivot_id: String,
    pub affected: Vec<ImpactNode>,
    /// Whether as many rows came as were asked for, so that there may be more.
    pub truncated: bool,
}

/// Which edges a dependency graph follows.
#[derive(Debug, Clone, Copy, PartialEq, Eq, Hash, Structural)]
pub enum DependencyDirection {
    Callers,
    Callees,
    Both,
}

impl DependencyDirection {
    /// The name of a direction.
    pub open spec fn name(self) -> Seq<char> {
        match self {
            DependencyDirection::Callers => "callers"@,
            DependencyDirection::Callees => "callees"@,
            DependencyDirection::Both => "both"@,
        }
    }

    /// The direction that goes by a name.
    pub open spec fn named(value: Seq<char>) -> Option<DependencyDirection> {
        if value == "callers"@ {
            Some(DependencyDirection::Callers)
        } else if value == "callees"@ {
            Some(DependencyDirection::Callees)
        } else if value == "both"@ {
            Some(DependencyDirection::Both)
        } else {
            None
        }
    }

    /// What is said of a name that no direction has.
    pub open spec fn refusal(value: Seq<char>) -> Seq<char> {
        "invalid dependency graph direction '"@ + value
            + "'; expected callers, callees, or both"@
    }

    /// Reads a direction's name.
    pub fn parse(value: &str) -> (r: Result<Self, MarrowError>)
        ensures
            r is Ok <==> DependencyDirection::named(value@) is Some,
            r matches Ok(d) ==> DependencyDirection::named(value@) == Some(d),
            r matches Err(e) ==> (e matches MarrowError::Message(m) && m@
                == DependencyDirection::refusal(value@)),
    {
        if same(value, "callers") {
            Ok(DependencyDirection::Callers)
        } else if same(value, "callees") {
            Ok(DependencyDirection::Callees)
        } else if same(value, "both") {
            Ok(DependencyDirection::Both)
        } else {
            Err(
                MarrowError::Message(
                    "invalid dependency graph direction '".to_owned().concat(value).concat(
                        "'; expected callers, callees, or both",
                    ),
                ),
            )
        }
    }

    /// The name of the direction.
    pub fn label(self) -> (r: &'static str)
        ensures
            r@ == self.name(),
    {
        match self {
            DependencyDirection::Callers => "callers",
            DependencyDirection::Callees => "callees",
            DependencyDirection::Both => "both",
        }
    }
}

/// A direction's own name reads back as the direction.
pub proof fn law_direction_names_read_back(d: DependencyDirection)
    ensures
        DependencyDirection::named(d.name()) == Some(d),
{
    reveal_strlit("callers");
    reveal_strlit("callees");
    reveal_strlit("both");
    assert("callers"@[5] != "callees"@[5]);
    assert("callers"@.len() != "both"@.len());
    assert("callees"@.len() != "both"@.len());
}

/// A direction goes by one name, and any other is refused.
pub proof fn law_directions_go_by_their_names(value: Seq<char>)
    ensures
        DependencyDirection::named("callers"@) == Some(DependencyDirection::Callers),
        DependencyDirection::named("callees"@) == Some(DependencyDirection::Callees),
        DependencyDirection::named("both"@) == Some(DependencyDirection::Both),
        DependencyDirection::named(value) is Some ==> value == "callers"@ || value == "callees"@
            || value == "both"@,
        DependencyDirection::Callers.name() == "callers"@,
        DependencyDirection::Callees.name() == "callees"@,
        DependencyDirection::Both.name() == "both"@,
{
    law_direction_names_read_back(DependencyDirection::Callers);
    law_direction_names_read_back(DependencyDirection::Callees);
    law_direction_names_read_back(DependencyDirection::Both);
}

/// What a dependency graph covers and how large it may get.
#[derive(Debug, Clone)]
pub struct DependencyGraphOptions {
    pub depth: usize,
    pub direction: DependencyDirection,
    pub include_source: bool,
    pub max_nodes: usize,
    pub max_bytes: usize,
}

impl Default for DependencyGraphOptions {
    /// Two steps both ways without source, under the limits that hold when nothing
    /// else is set.
    fn default() -> (r: Self)
        ensures
            r.depth == 2,
            r.direction == DependencyDirection::Both,
            !r.include_source,
            r.max_nodes == settings::GRAPH_MAX_NODES,
            r.max_bytes == settings::GRAPH_MAX_BYTES,
    {
        DependencyGraphOptions {
            depth: 2,
            direction: DependencyDirection::Both,
            include_source: false,
            max_nodes: settings::GRAPH_MAX_NODES,
            max_bytes: settings::GRAPH_MAX_BYTES,
        }
    }
}

/// What one query of a batch asks for.
#[derive(Debug, Clone, Copy, PartialEq, Eq, Hash, Structural)]
pub enum BatchIntent {
    FindSymbol,
    ExploreSymbol,
    TraceFlow,
    RefactorSymbol,
    ReadNode,
    DependencyGraph,
}

impl BatchIntent {
    /// The intent's own name.
    pub open spec fn name(self) -> Seq<char> {
        match self {
            BatchIntent::FindSymbol => "find_symbol"@,
            BatchIntent::ExploreSymbol => "explore_symbol"@,
            BatchIntent::TraceFlow => "trace_flow"@,
            BatchIntent::RefactorSymbol => "refactor_symbol"@,
            BatchIntent::ReadNode => "read_node"@,
            BatchIntent::DependencyGraph => "dependency_graph"@,
        }
    }

    /// The intent that goes by a name, own or alias.
    pub open spec fn named(value: Seq<char>) -> Option<BatchIntent> {
        if value == "find_symbol"@ {
            Some(BatchIntent::FindSymbol)
        } else if value == "explore_symbol"@ || value == "capsule"@ {
            Some(BatchIntent::ExploreSymbol)
        } else if value == "trace_flow"@ {
            Some(BatchIntent::TraceFlow)
        } else if value == "refactor_symbol"@ || value == "analyze_impact"@ {
            Some(BatchIntent::RefactorSymbol)
        } else if value == "read_node"@ {
            Some(BatchIntent::ReadNode)
        } else if value == "dependency_graph"@ {
            Some(BatchIntent::DependencyGraph)
        } else {
            None
        }
    }

    /// The heading under which an intent's answer stands.
    pub open spec fn heading(self) -> Seq<char> {
        match self {
            BatchIntent::FindSymbol => "FIND"@,
            BatchIntent::ExploreSymbol => "EXPLORE"@,
            BatchIntent::ReadNode => "EXPLORE"@,
            BatchIntent::TraceFlow => "TRACE"@,
            BatchIntent::RefactorSymbol => "IMPACT"@,
            BatchIntent::DependencyGraph => "DEPENDENCY GRAPH"@,
        }
    }

    /// Reads an intent's name, own or alias.
    pub fn parse(value: &str) -> (r: Option<Self>)
        ensures
            r == BatchIntent::named(value@),
    {
        if same(value, "find_symbol") {
            Some(BatchIntent::FindSymbol)
        } else if same(value, "explore_symbol") || same(value, "capsule") {
            Some(BatchIntent::ExploreSymbol)
        } else if same(value, "trace_flow") {
            Some(BatchIntent::TraceFlow)
        } else if same(value, "refactor_symbol") || same(value, "analyze_impact") {
            Some(BatchIntent::RefactorSymbol)
        } else if same(value, "read_node") {
            Some(BatchIntent::ReadNode)
        } else if same(value, "dependency_graph") {
            Some(BatchIntent::DependencyGraph)
        } else {
            None
        }
    }

    /// The intent's own name.
    pub fn canonical_name(self) -> (r: &'static str)
        ensures
            r@ == self.name(),
    {
        match self {
            BatchIntent::FindSymbol => "find_symbol",
            BatchIntent::ExploreSymbol => "explore_symbol",
            BatchIntent::TraceFlow => "trace_flow",
            BatchIntent::RefactorSymbol => "refactor_symbol",
            BatchIntent::ReadNode => "read_node",
            BatchIntent::DependencyGraph => "dependency_graph",
        }
    }

    /// The heading under which the intent's answer stands.
    pub fn section_label(self) -> (r: &'static str)
        ensures
            r@ == self.heading(),
    {
        match self {
            BatchIntent::FindSymbol => "FIND",
            BatchIntent::ExploreSymbol => "EXPLORE",
            BatchIntent::ReadNode => "EXPLORE",
            BatchIntent::TraceFlow => "TRACE",
            BatchIntent::RefactorSymbol => "IMPACT",
            BatchIntent::DependencyGraph => "DEPENDENCY GRAPH",
        }
    }
}

/// An intent's own name reads back as the intent.
pub proof fn law_intent_names_read_back(i: BatchIntent)
    ensures
        BatchIntent::named(i.name()) == Some(i),
{
    reveal_strlit("find_symbol");
    reveal_strlit("explore_symbol");
    reveal_strlit("capsule");
    reveal_strlit("trace_flow");
    reveal_strlit("refactor_symbol");
    reveal_strlit("analyze_impact");
    reveal_strlit("read_node");
    reveal_strlit("dependency_graph");
    assert("find_symbol"@.len() == 11);
    assert("explore_symbol"@.len() == 14);
    assert("capsule"@.len() == 7);
    assert("trace_flow"@.len() == 10);
    assert("refactor_symbol"@.len() == 15);
    assert("analyze_impact"@.len() == 14);
    assert("read_node"@.len() == 9);
    assert("dependency_graph"@.len() == 16);
}

/// What a query can ask for goes by its own name; a capsule and an impact also by another.
pub proof fn law_intents_go_by_their_names(value: Seq<char>)
    ensures
        BatchIntent::named("find_symbol"@) == Some(BatchIntent::FindSymbol),
        BatchIntent::named("explore_symbol"@) == Some(BatchIntent::ExploreSymbol),
        BatchIntent::named("capsule"@) == Some(BatchIntent::ExploreSymbol),
        BatchIntent::named("trace_flow"@) == Some(BatchIntent::TraceFlow),
        BatchIntent::named("refactor_symbol"@) == Some(BatchIntent::RefactorSymbol),
        BatchIntent::named("analyze_impact"@) == Some(BatchIntent::RefactorSymbol),
        BatchIntent::named("read_node"@) == Some(BatchIntent::ReadNode),
        BatchIntent::named("dependency_graph"@) == Some(BatchIntent::DependencyGraph),
        BatchIntent::named(value) is Some ==> value == "find_symbol"@ || value
            == "explore_symbol"@ || value == "capsule"@ || value == "trace_flow"@ || value
            == "refactor_symbol"@ || value == "analyze_impact"@ || value == "read_node"@ || value
            == "dependency_graph"@,
{
    reveal_strlit("find_symbol");
    reveal_strlit("explore_symbol");
    reveal_strlit("capsule");
    reveal_strlit("trace_flow");
    reveal_strlit("refactor_symbol");
    reveal_strlit("analyze_impact");
    reveal_strlit("read_node");
    reveal_strlit("dependency_graph");
    assert("find_symbol"@.len() == 11);
    assert("explore_symbol"@.len() == 14);
    assert("capsule"@.len() == 7);
    assert("trace_flow"@.len() == 10);
    assert("refactor_symbol"@.len() == 15);
    assert("analyze_impact"@.len() == 14);
    assert("read_node"@.len() == 9);
    assert("dependency_graph"@.len() == 16);
    assert("explore_symbol"@[0] != "analyze_impact"@[0]);
}

/// One query of a batch.
#[derive(Debug, Clone)]
pub struct BatchQuery {
    pub intent: BatchIntent,
    pub target: String,
    pub filepath: Option<String>,
    pub kind: Option<String>,
    pub limit: Option<usize>,
    pub depth: Option<usize>,
    pub direction: Option<DependencyDirection>,
    pub include_source: bool,
    pub max_nodes: Option<usize>,
}

/// Which repository a batch asks about, and how large its answer may get.
#[derive(Debug, Clone)]
pub struct BatchOptions {
    pub repo_id: String,
    pub max_bytes: usize,
}

/// What a batch gave.
#[derive(Debug)]
pub struct BatchExecution {
    pub text: String,
    pub query_count: usize,
    pub truncated: bool,
    pub telemetry: Vec<BatchTelemetry>,
    /// How many queries named a symbol that several nodes have.
    pub ambiguous: usize,
}

/// What is reported of one query of a batch.
#[derive(Debug)]
pub enum BatchTelemetry {
    Capsule {
        symbol: String,
        repo: String,
        file: String,
        capsule_tokens: usize,
        file_tokens: usize,
        original_text: Option<String>,
        optimized_text: String,
        proof_snapshot: Option<Box<CapsuleProofSnapshot>>,
        provenance: Box<CapsuleProvenance>,
    },
    Impact { symbol: String, repo: String, affected_count: usize },
    Skeleton { target_dir: String, node_count: usize },
}

/// A row of the node table.
#[derive(Debug, Clone)]
pub struct NodeBrief {
    pub id: String,
    pub symbol_name: String,
    pub symbol_type: String,
    pub file_path: String,
    pub language: String,
    pub raw_text: String,
}

} // verus!
