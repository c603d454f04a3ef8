//! What the server does with a tool call: where it is routed, what is planned for it,
//! and what is answered.
use crate::arguments;
use crate::arguments::{
    optional_text, parse_batch_queries, parse_dependency_graph_options, parse_find_symbol_limit,
    require_str,
};
use crate::json;
use crate::json::{get, member, text_value, Json, Member, Value};
use crate::model::{BatchQuery, DependencyGraphOptions};
use crate::paths;
use crate::paths::{file_name, is_within, join_path, parent};
use crate::scan;
use crate::scan::{contains, to_lowercase};
use crate::settings::Settings;
use crate::store;
use crate::store::{bind_one, read_first_int, select, MarrowError, Param};
use crate::text;
use crate::text::{count_text, same};
use vstd::prelude::*;
use vstd::string::*;

verus! {

// ── Compliance ───────────────────────────────────────────────────────────────

/// What was done to a call before it was served.
#[derive(Clone, Copy, Debug, PartialEq, Eq, Structural)]
pub enum ComplianceAction {
    Unchanged,
    AutoRouted,
}

/// A call as it is served.
#[derive(Debug)]
pub struct ComplianceRewrite {
    pub tool_name: String,
    pub args: Vec<Member>,
    pub notice: Option<String>,
    pub action: ComplianceAction,
}

/// The intent that a low-level tool stands for, and the argument that names its target.
pub open spec fn low_level(tool: Seq<char>) -> Option<(Seq<char>, Seq<char>)> {
    if tool == "get_context_capsule"@ {
        Some(("explore_symbol"@, "symbol_name"@))
    } else if tool == "analyze_impact"@ {
        Some(("refactor_symbol"@, "symbol_name"@))
    } else if tool == "get_skeleton"@ {
        Some(("analyze_repo"@, "target_dir"@))
    } else {
        None
    }
}

/// Members with one more where there is a value for it.
pub open spec fn with_optional(
    object: Seq<(Seq<char>, Value)>,
    key: Seq<char>,
    value: Option<Value>,
) -> Seq<(Seq<char>, Value)> {
    match value {
        Some(v) => object.push((key, v)),
        None => object,
    }
}

/// The arguments of a low-level call as the pipeline takes them.
pub open spec fn routed_args(
    intent: Seq<char>,
    target_key: Seq<char>,
    args: Seq<(Seq<char>, Value)>,
) -> Seq<(Seq<char>, Value)> {
    with_optional(
        with_optional(
            with_optional(
                seq![("intent"@, Value::Text(intent))],
                "target"@,
                json::found(args, target_key),
            ),
            "repo_id"@,
            json::found(args, "repo_id"@),
        ),
        "filepath"@,
        json::found(args, "filepath"@),
    )
}

/// What is told of a call that was routed elsewhere.
pub open spec fn routing_notice(tool: Seq<char>) -> Seq<char> {
    "[MARROW COMPLIANCE] Direct '"@ + tool
        + "' call was auto-routed through `run_pipeline`. Use `run_pipeline` first to avoid this warning.\n"@
}

proof fn lemma_found_without(object: Seq<(Seq<char>, Value)>, at: int, other: Seq<char>)
    requires
        0 <= at < object.len(),
        object[at].0 != other,
    ensures
        json::found(object.remove(at), other) == json::found(object, other),
    decreases object.len(),
{
    if at == 0 {
        assert(object.remove(0) =~= object.skip(1));
    } else {
        assert(object.remove(at)[0] == object[0]);
        assert(object.remove(at).skip(1) =~= object.skip(1).remove(at - 1));
        assert(object.skip(1)[at - 1] == object[at]);
        lemma_found_without(object.skip(1), at - 1, other);
    }
}

/// Takes the value under a key out of an object.
fn take(object: &mut Vec<Member>, key: &str) -> (r: Option<Json>)
    ensures
        match r {
            Some(v) => json::found(json::members(old(object)@), key@) == Some(v@),
            None => json::found(json::members(old(object)@), key@) is None,
        },
        forall|other: Seq<char>|
            other != key@ ==> #[trigger] json::found(json::members(final(object)@), other)
                == json::found(json::members(old(object)@), other),
{
    let ghost all = json::members(object@);
    let mut i: usize = 0;
    while i < object.len()
        invariant
            i <= object.len(),
            object@ == old(object)@,
            all == json::members(object@),
            forall|k: int| 0 <= k < i ==> (#[trigger] all[k]).0 != key@,
        decreases object.len() - i,
    {
        if same(&object[i].key, key) {
            proof {
                assert(all[i as int].0 == key@);
                json::lemma_found_at(all, key@, i as int);
                assert forall|other: Seq<char>| other != key@ implies #[trigger] json::found(
                    all.remove(i as int),
                    other,
                ) == json::found(all, other) by {
                    lemma_found_without(all, i as int, other);
                }
            }
            let taken = object.remove(i);
            assert(json::members(object@) =~= all.remove(i as int));
            return Some(taken.value);
        }
        i += 1;
    }
    proof {
        json::lemma_found_at(all, key@, i as int);
    }
    None
}

fn push_optional(object: &mut Vec<Member>, key: &str, value: Option<Json>)
    ensures
        json::members(final(object)@) == with_optional(
            json::members(old(object)@),
            key@,
            match value {
                Some(v) => Some(v@),
                None => None,
            },
        ),
{
    match value {
        Some(v) => {
            let ghost before = json::members(object@);
            let one = member(key, v);
            object.push(one);
            assert(json::members(object@) =~= before.push((key@, one.value@)));
        },
        None => {},
    }
}

fn route(tool_name: &str, intent: &str, target_key: &str, args: Vec<Member>) -> (r:
    ComplianceRewrite)
    requires
        target_key@ != "repo_id"@,
        target_key@ != "filepath"@,
    ensures
        r.tool_name@ == "run_pipeline"@,
        json::members(r.args@) == routed_args(intent@, target_key@, json::members(args@)),
        text::opt_text(r.notice) == Some(routing_notice(tool_name@)),
        r.action == ComplianceAction::AutoRouted,
{
    let mut rest = args;
    let target = take(&mut rest, target_key);
    let ghost after_target = json::members(rest@);
    let repo_id = take(&mut rest, "repo_id");
    proof {
        reveal_strlit("repo_id");
        reveal_strlit("filepath");
        assert("repo_id"@.len() != "filepath"@.len());
    }
    let filepath = take(&mut rest, "filepath");
    let mut routed: Vec<Member> = Vec::new();
    let first = member("intent", text_value(intent));
    routed.push(first);
    assert(json::members(routed@) =~= seq![("intent"@, Value::Text(intent@))]);
    push_optional(&mut routed, "target", target);
    push_optional(&mut routed, "repo_id", repo_id);
    push_optional(&mut routed, "filepath", filepath);
    ComplianceRewrite {
        tool_name: "run_pipeline".to_owned(),
        args: routed,
        notice: Some(
            "[MARROW COMPLIANCE] Direct '".to_owned().concat(tool_name).concat(
                "' call was auto-routed through `run_pipeline`. Use `run_pipeline` first to avoid this warning.\n",
            ),
        ),
        action: ComplianceAction::AutoRouted,
    }
}

/// Routes calls of the low-level tools through the pipeline, and lets all others pass.
pub fn apply_compliance_gate(tool_name: &str, args: Vec<Member>) -> (r: ComplianceRewrite)
    ensures
        match low_level(tool_name@) {
            Some((intent, target_key)) => {
                &&& r.tool_name@ == "run_pipeline"@
                &&& json::members(r.args@) == routed_args(
                    intent,
                    target_key,
                    json::members(args@),
                )
                &&& text::opt_text(r.notice) == Some(routing_notice(tool_name@))
                &&& r.action == ComplianceAction::AutoRouted
            },
            None => {
                &&& r.tool_name@ == tool_name@
                &&& r.args@ == args@
                &&& r.notice is None
                &&& r.action == ComplianceAction::Unchanged
            },
        },
{
    proof {
        reveal_strlit("symbol_name");
        reveal_strlit("target_dir");
        reveal_strlit("repo_id");
        reveal_strlit("filepath");
        assert("symbol_name"@.len() == 11 && "target_dir"@.len() == 10 && "repo_id"@.len() == 7
            && "filepath"@.len() == 8);
    }
    if same(tool_name, "get_context_capsule") {
        route(tool_name, "explore_symbol", "symbol_name", args)
    } else if same(tool_name, "analyze_impact") {
        route(tool_name, "refactor_symbol", "symbol_name", args)
    } else if same(tool_name, "get_skeleton") {
        route(tool_name, "analyze_repo", "target_dir", args)
    } else {
        ComplianceRewrite {
            tool_name: tool_name.to_owned(),
            args,
            notice: None,
            action: ComplianceAction::Unchanged,
        }
    }
}

/// Which tools are low-level, and what each of them stands for.
pub proof fn law_low_level_tools_stand_for_intents(tool: Seq<char>)
    ensures
        tool == "get_context_capsule"@ ==> low_level(tool) == Some(
            ("explore_symbol"@, "symbol_name"@),
        ),
        tool == "analyze_impact"@ ==> low_level(tool) == Some(
            ("refactor_symbol"@, "symbol_name"@),
        ),
        tool == "get_skeleton"@ ==> low_level(tool) == Some(("analyze_repo"@, "target_dir"@)),
        low_level(tool) is Some ==> tool == "get_context_capsule"@ || tool == "analyze_impact"@
            || tool == "get_skeleton"@,
{
    reveal_strlit("get_context_capsule");
    reveal_strlit("analyze_impact");
    reveal_strlit("get_skeleton");
    assert("get_context_capsule"@.len() == 19 && "analyze_impact"@.len() == 14
        && "get_skeleton"@.len() == 12);
}

/// No low-level tool is served: a call that is left as it is goes to none, and one that
/// is routed goes to the pipeline, which is none either. The routed arguments name the
/// intent, and carry the target, the repository and the file of the call.
pub proof fn law_gate_leaves_no_low_level_call(tool: Seq<char>, args: Seq<(Seq<char>, Value)>)
    ensures
        low_level("run_pipeline"@) is None,
        low_level(tool) matches Some((intent, key)) ==> {
            let routed = routed_args(intent, key, args);
            &&& json::found(routed, "intent"@) == Some(Value::Text(intent))
            &&& json::found(routed, "target"@) == json::found(args, key)
            &&& json::found(routed, "repo_id"@) == json::found(args, "repo_id"@)
            &&& json::found(routed, "filepath"@) == json::found(args, "filepath"@)
        },
{
    reveal_strlit("run_pipeline");
    reveal_strlit("get_context_capsule");
    reveal_strlit("analyze_impact");
    reveal_strlit("get_skeleton");
    assert("run_pipeline"@.len() == 12 && "get_context_capsule"@.len() == 19
        && "analyze_impact"@.len() == 14);
    assert("run_pipeline"@[0] == 'r' && "get_skeleton"@[0] == 'g');
    reveal_strlit("intent");
    reveal_strlit("target");
    reveal_strlit("repo_id");
    reveal_strlit("filepath");
    assert("intent"@[0] == 'i' && "target"@[0] == 't' && "repo_id"@[0] == 'r' && "filepath"@[0]
        == 'f');
    match low_level(tool) {
        Some((intent, key)) => {
            let first = seq![("intent"@, Value::Text(intent))];
            let target = json::found(args, key);
            let repo = json::found(args, "repo_id"@);
            let file = json::found(args, "filepath"@);
            let second = with_optional(first, "target"@, target);
            let third = with_optional(second, "repo_id"@, repo);
            let routed = with_optional(third, "filepath"@, file);
            assert forall|k: Seq<char>| #[trigger] json::found(first, k) == (if k == "intent"@ {
                Some(Value::Text(intent))
            } else {
                None
            }) by {
                assert(first.skip(1) =~= Seq::empty());
                assert(json::found(first.skip(1), k) is None);
            }
            lemma_found_optional(first, "target"@, target);
            lemma_found_optional(second, "repo_id"@, repo);
            lemma_found_optional(third, "filepath"@, file);
        },
        None => {},
    }
}

proof fn lemma_found_optional(
    object: Seq<(Seq<char>, Value)>,
    key: Seq<char>,
    value: Option<Value>,
)
    requires
        json::found(object, key) is None,
    ensures
        json::found(with_optional(object, key, value), key) == value,
        forall|other: Seq<char>|
            other != key ==> #[trigger] json::found(with_optional(object, key, value), other)
                == json::found(object, other),
{
    match value {
        Some(v) => {
            lemma_found_pushed(object, key, v, key);
            assert forall|other: Seq<char>| other != key implies #[trigger] json::found(
                with_optional(object, key, value),
                other,
            ) == json::found(object, other) by {
                lemma_found_pushed(object, key, v, other);
            }
        },
        None => {},
    }
}

proof fn lemma_found_pushed(
    object: Seq<(Seq<char>, Value)>,
    key: Seq<char>,
    value: Value,
    other: Seq<char>,
)
    ensures
        json::found(object.push((key, value)), other) == match json::found(object, other) {
            Some(v) => Some(v),
            None => if other == key {
                Some(value)
            } else {
                None
            },
        },
    decreases object.len(),
{
    let longer = object.push((key, value));
    if object.len() == 0 {
        assert(longer.skip(1) =~= Seq::empty());
        assert(json::found(longer.skip(1), other) is None);
    } else {
        assert(longer[0] == object[0]);
        assert(longer.skip(1) =~= object.skip(1).push((key, value)));
        lemma_found_pushed(object.skip(1), key, value, other);
    }
}

// ── Calls ────────────────────────────────────────────────────────────────────

/// Why a call is refused.
#[derive(Clone, Copy, Debug, PartialEq, Eq, Structural)]
pub enum RefusalKind {
    InvalidParams,
    UnknownTool,
}

/// A refused call. `closes` says whether the call is still counted as one that was
/// served.
#[derive(Debug)]
pub struct Refusal {
    pub kind: RefusalKind,
    pub message: String,
    pub closes: bool,
}

/// Whether a refusal says this of the arguments, before the call is counted.
pub open spec fn is_bad_argument(r: Refusal, message: Seq<char>) -> bool {
    r.kind == RefusalKind::InvalidParams && r.message@ == message && !r.closes
}

fn bad_argument(message: String) -> (r: Refusal)
    ensures
        is_bad_argument(r, message@),
{
    Refusal { kind: RefusalKind::InvalidParams, message, closes: false }
}

/// What a tool is called for.
#[derive(Debug)]
pub enum ToolCall {
    Ingest { repo_id: String, root_path: String, user_confirmed: bool },
    SaveObservation {
        symbol_name: String,
        filepath: String,
        observation: String,
        repo_id: Option<String>,
    },
    SessionContext {
        repo_id: Option<String>,
        symbol_name: Option<String>,
        filepath: Option<String>,
    },
    Pipeline {
        intent: String,
        target: Option<String>,
        repo_id: Option<String>,
        filepath: Option<String>,
        kind: Option<String>,
    },
    WorkspaceSetup,
}

/// The text that an argument is.
pub open spec fn argument(args: Seq<(Seq<char>, Value)>, key: Seq<char>) -> Option<Seq<char>> {
    json::as_text(json::found(args, key))
}

/// Whether the user confirmed.
pub open spec fn confirmed(args: Seq<(Seq<char>, Value)>) -> bool {
    json::found(args, "user_confirmed"@) == Some(Value::Bool(true))
}

/// The first argument of a call that has to be there and is not.
pub open spec fn first_missing(tool: Seq<char>, args: Seq<(Seq<char>, Value)>) -> Option<
    Seq<char>,
> {
    if tool == "ingest_repo"@ {
        if argument(args, "repo_id"@) is None {
            Some("repo_id"@)
        } else if argument(args, "root_path"@) is None {
            Some("root_path"@)
        } else {
            None
        }
    } else if tool == "save_observation"@ {
        if argument(args, "symbol_name"@) is None {
            Some("symbol_name"@)
        } else if argument(args, "filepath"@) is None {
            Some("filepath"@)
        } else if argument(args, "observation"@) is None {
            Some("observation"@)
        } else {
            None
        }
    } else if tool == "run_pipeline"@ {
        if argument(args, "intent"@) is None {
            Some("intent"@)
        } else {
            None
        }
    } else {
        None
    }
}

/// What a call is said to lack is the first of the arguments that its tool requires that is
/// no text; nothing is said exactly when all of them are there.
pub proof fn law_calls_lack_what_is_required(
    tool: Seq<char>,
    args: Seq<(Seq<char>, Value)>,
    required: Seq<Seq<char>>,
)
    requires
        required == if tool == "ingest_repo"@ {
            seq!["repo_id"@, "root_path"@]
        } else if tool == "save_observation"@ {
            seq!["symbol_name"@, "filepath"@, "observation"@]
        } else if tool == "run_pipeline"@ {
            seq!["intent"@]
        } else {
            Seq::empty()
        },
    ensures
        first_missing(tool, args) is None ==> forall|i: int|
            0 <= i < required.len() ==> (json::found(args, #[trigger] required[i]) matches Some(
                Value::Text(_),
            )),
        first_missing(tool, args) matches Some(key) ==> exists|i: int|
            0 <= i < required.len() && #[trigger] required[i] == key && !(json::found(args, key)
                matches Some(Value::Text(_))) && forall|j: int|
                0 <= j < i ==> (json::found(args, #[trigger] required[j]) matches Some(
                    Value::Text(_),
                )),
{
    if tool == "ingest_repo"@ {
        assert(required[0] == "repo_id"@ && required[1] == "root_path"@);
    } else if tool == "save_observation"@ {
        assert(required[0] == "symbol_name"@ && required[1] == "filepath"@ && required[2]
            == "observation"@);
    } else if tool == "run_pipeline"@ {
        assert(required[0] == "intent"@);
    }
}

/// Whether a call is what a tool's arguments ask for.
pub open spec fn is_call(
    call: ToolCall,
    tool: Seq<char>,
    args: Seq<(Seq<char>, Value)>,
) -> bool {
    match call {
        ToolCall::Ingest { repo_id, root_path, user_confirmed } => {
            &&& tool == "ingest_repo"@
            &&& argument(args, "repo_id"@) == Some(repo_id@)
            &&& argument(args, "root_path"@) == Some(root_path@)
            &&& user_confirmed == confirmed(args)
        },
        ToolCall::SaveObservation { symbol_name, filepath, observation, repo_id } => {
            &&& tool == "save_observation"@
            &&& argument(args, "symbol_name"@) == Some(symbol_name@)
            &&& argument(args, "filepath"@) == Some(filepath@)
            &&& argument(args, "observation"@) == Some(observation@)
            &&& argument(args, "repo_id"@) == text::opt_text(repo_id)
        },
        ToolCall::SessionContext { repo_id, symbol_name, filepath } => {
            &&& tool == "get_session_context"@
            &&& argument(args, "repo_id"@) == text::opt_text(repo_id)
            &&& argument(args, "symbol_name"@) == text::opt_text(symbol_name)
            &&& argument(args, "filepath"@) == text::opt_text(filepath)
        },
        ToolCall::Pipeline { intent, target, repo_id, filepath, kind } => {
            &&& tool == "run_pipeline"@
            &&& argument(args, "intent"@) == Some(intent@)
            &&& argument(args, "target"@) == text::opt_text(target)
            &&& argument(args, "repo_id"@) == text::opt_text(repo_id)
            &&& argument(args, "filepath"@) == text::opt_text(filepath)
            &&& argument(args, "kind"@) == text::opt_text(kind)
        },
        ToolCall::WorkspaceSetup => tool == "workspace_setup"@,
    }
}

/// A call takes each of its arguments from the one of that name.
pub proof fn law_calls_take_their_arguments_as_given(
    call: ToolCall,
    tool: Seq<char>,
    args: Seq<(Seq<char>, Value)>,
)
    requires
        is_call(call, tool, args),
    ensures
        call matches ToolCall::Ingest { repo_id, root_path, user_confirmed } ==> tool
            == "ingest_repo"@ && json::found(args, "repo_id"@) == Some(Value::Text(repo_id@))
            && json::found(args, "root_path"@) == Some(Value::Text(root_path@)) && (user_confirmed
            <==> json::found(args, "user_confirmed"@) == Some(Value::Bool(true))),
        call matches ToolCall::SaveObservation { symbol_name, filepath, observation, .. } ==> tool
            == "save_observation"@ && json::found(args, "symbol_name"@) == Some(
            Value::Text(symbol_name@),
        ) && json::found(args, "filepath"@) == Some(Value::Text(filepath@)) && json::found(
            args,
            "observation"@,
        ) == Some(Value::Text(observation@)),
        call matches ToolCall::SaveObservation { repo_id: Some(repo), .. } ==> json::found(
            args,
            "repo_id"@,
        ) == Some(Value::Text(repo@)),
        call matches ToolCall::SessionContext { repo_id: Some(repo), .. } ==> json::found(
            args,
            "repo_id"@,
        ) == Some(Value::Text(repo@)),
        call matches ToolCall::SessionContext { symbol_name: Some(symbol), .. } ==> json::found(
            args,
            "symbol_name"@,
        ) == Some(Value::Text(symbol@)),
        call matches ToolCall::SessionContext { filepath: Some(file), .. } ==> json::found(
            args,
            "filepath"@,
        ) == Some(Value::Text(file@)),
        call matches ToolCall::Pipeline { intent, .. } ==> tool == "run_pipeline"@ && json::found(
            args,
            "intent"@,
        ) == Some(Value::Text(intent@)),
        call matches ToolCall::Pipeline { target: Some(target), .. } ==> json::found(args, "target"@)
            == Some(Value::Text(target@)),
        call matches ToolCall::Pipeline { repo_id: Some(repo), .. } ==> json::found(args, "repo_id"@)
            == Some(Value::Text(repo@)),
        call matches ToolCall::Pipeline { filepath: Some(file), .. } ==> json::found(
            args,
            "filepath"@,
        ) == Some(Value::Text(file@)),
        call matches ToolCall::Pipeline { kind: Some(kind), .. } ==> json::found(args, "kind"@)
            == Some(Value::Text(kind@)),
{
}

/// Whether a tool is one that the server serves behind its gate.
pub open spec fn is_served(tool: Seq<char>) -> bool {
    ||| tool == "ingest_repo"@
    ||| tool == "save_observation"@
    ||| tool == "get_session_context"@
    ||| tool == "run_pipeline"@
    ||| tool == "workspace_setup"@
}

fn parse_ingest(args: &Vec<Member>) -> (r: Result<ToolCall, Refusal>)
    ensures
        match r {
            Ok(call) => is_call(call, "ingest_repo"@, json::members(args@)),
            Err(e) => first_missing("ingest_repo"@, json::members(args@)) matches Some(key)
                && is_bad_argument(e, arguments::missing(key)),
        },
        r is Err <==> first_missing("ingest_repo"@, json::members(args@)) is Some,
{
    let repo_id = match require_str(args, "repo_id") {
        Ok(repo_id) => repo_id,
        Err(m) => {
            return Err(bad_argument(m));
        },
    };
    let root_path = match require_str(args, "root_path") {
        Ok(root_path) => root_path,
        Err(m) => {
            return Err(bad_argument(m));
        },
    };
    let user_confirmed = match get(args, "user_confirmed") {
        Some(Json::Bool(b)) => *b,
        _ => false,
    };
    Ok(ToolCall::Ingest { repo_id, root_path, user_confirmed })
}

fn parse_save(args: &Vec<Member>) -> (r: Result<ToolCall, Refusal>)
    ensures
        match r {
            Ok(call) => is_call(call, "save_observation"@, json::members(args@)),
            Err(e) => first_missing("save_observation"@, json::members(args@)) matches Some(key)
                && is_bad_argument(e, arguments::missing(key)),
        },
        r is Err <==> first_missing("save_observation"@, json::members(args@)) is Some,
{
    proof {
        reveal_strlit("ingest_repo");
        reveal_strlit("save_observation");
        assert("ingest_repo"@.len() != "save_observation"@.len());
    }
    let symbol_name = match require_str(args, "symbol_name") {
        Ok(symbol_name) => symbol_name,
        Err(m) => {
            return Err(bad_argument(m));
        },
    };
    let filepath = match require_str(args, "filepath") {
        Ok(filepath) => filepath,
        Err(m) => {
            return Err(bad_argument(m));
        },
    };
    let observation = match require_str(args, "observation") {
        Ok(observation) => observation,
        Err(m) => {
            return Err(bad_argument(m));
        },
    };
    Ok(
        ToolCall::SaveObservation {
            symbol_name,
            filepath,
            observation,
            repo_id: optional_text(args, "repo_id"),
        },
    )
}

fn parse_pipeline(args: &Vec<Member>) -> (r: Result<ToolCall, Refusal>)
    ensures
        match r {
            Ok(call) => is_call(call, "run_pipeline"@, json::members(args@)),
            Err(e) => first_missing("run_pipeline"@, json::members(args@)) matches Some(key)
                && is_bad_argument(e, arguments::missing(key)),
        },
        r is Err <==> first_missing("run_pipeline"@, json::members(args@)) is Some,
{
    proof {
        reveal_strlit("ingest_repo");
        reveal_strlit("save_observation");
        reveal_strlit("run_pipeline");
        assert("ingest_repo"@.len() == 11 && "save_observation"@.len() == 16
            && "run_pipeline"@.len() == 12);
    }
    let intent = match require_str(args, "intent") {
        Ok(intent) => intent,
        Err(m) => {
            return Err(bad_argument(m));
        },
    };
    Ok(
        ToolCall::Pipeline {
            intent,
            target: optional_text(args, "target"),
            repo_id: optional_text(args, "repo_id"),
            filepath: optional_text(args, "filepath"),
            kind: optional_text(args, "kind"),
        },
    )
}

/// Reads what a tool is called for. A call that lacks an argument is refused for the
/// first one, and a tool that the server does not have is not found.
pub fn parse_tool_call(tool_name: &str, args: &Vec<Member>) -> (r: Result<ToolCall, Refusal>)
    ensures
        match r {
            Ok(call) => is_call(call, tool_name@, json::members(args@)),
            Err(e) => if is_served(tool_name@) {
                first_missing(tool_name@, json::members(args@)) matches Some(key)
                    && is_bad_argument(e, arguments::missing(key))
            } else {
                e.kind == RefusalKind::UnknownTool && e.closes
            },
        },
        r is Ok <==> is_served(tool_name@) && first_missing(tool_name@, json::members(args@))
            is None,
{
    proof {
        reveal_strlit("ingest_repo");
        reveal_strlit("save_observation");
        reveal_strlit("get_session_context");
        reveal_strlit("run_pipeline");
        reveal_strlit("workspace_setup");
        assert("ingest_repo"@.len() == 11 && "save_observation"@.len() == 16
            && "run_pipeline"@.len() == 12 && "get_session_context"@.len() == 19
            && "workspace_setup"@.len() == 15);
    }
    if same(tool_name, "ingest_repo") {
        parse_ingest(args)
    } else if same(tool_name, "save_observation") {
        parse_save(args)
    } else if same(tool_name, "get_session_context") {
        Ok(
            ToolCall::SessionContext {
                repo_id: optional_text(args, "repo_id"),
                symbol_name: optional_text(args, "symbol_name"),
                filepath: optional_text(args, "filepath"),
            },
        )
    } else if same(tool_name, "run_pipeline") {
        parse_pipeline(args)
    } else if same(tool_name, "workspace_setup") {
        Ok(ToolCall::WorkspaceSetup)
    } else {
        Err(Refusal { kind: RefusalKind::UnknownTool, message: String::new(), closes: true })
    }
}

// ── Plans ────────────────────────────────────────────────────────────────────

/// What is said of an intent that the pipeline does not have.
pub const INVALID_INTENT: &'static str =
    "Invalid intent. Must be 'analyze_repo', 'find_symbol', 'explore_symbol', 'trace_flow', 'refactor_symbol', 'read_node', 'explore_batch', 'dependency_graph', or 'map_class'.";

/// What is said of an intent that the pipeline does not have.
pub fn run_pipeline_invalid_intent_message() -> (r: &'static str)
    ensures
        r@ == INVALID_INTENT@,
{
    INVALID_INTENT
}

/// What the pipeline is to do.
#[derive(Debug)]
pub enum Plan {
    Batch { queries: Vec<BatchQuery> },
    Graph { target: String, filepath: Option<String>, options: DependencyGraphOptions },
    MapClass { target: String, filepath: Option<String> },
    AnalyzeRepo { target_dir: Option<String> },
    Find { query: String, kind: Option<String>, limit: usize },
    Explore { target: String, filepath: Option<String> },
    Trace { target: String, filepath: Option<String> },
    Refactor { target: String, filepath: Option<String> },
}

/// The part of a repository that a map is asked of: a dot, or nothing, is all of it.
pub open spec fn map_target(target: Option<Seq<char>>) -> Option<Seq<char>> {
    match target {
        Some(t) => if t == "."@ || t == "./"@ || t.len() == 0 {
            None
        } else {
            Some(t)
        },
        None => None,
    }
}

/// The part of a repository that a map is asked of.
pub fn map_target_dir(target: Option<String>) -> (r: Option<String>)
    ensures
        text::opt_text(r) == map_target(text::opt_text(target)),
{
    match target {
        Some(t) => if same(&t, ".") || same(&t, "./") || t.as_str().is_empty() {
            None
        } else {
            Some(t)
        },
        None => None,
    }
}

/// What is said of an intent without its target.
pub open spec fn lacks_target(intent: Seq<char>, what: Seq<char>) -> Seq<char> {
    "intent '"@ + intent + "' requires a 'target' ("@ + what + ")"@
}

fn lacks_target_text(intent: &str, what: &str) -> (r: String)
    ensures
        r@ == lacks_target(intent@, what@),
{
    "intent '".to_owned().concat(intent).concat("' requires a 'target' (").concat(what).concat(")")
}

/// What keeps an intent from being planned, if anything does.
pub open spec fn plan_obstacle(
    intent: Seq<char>,
    args: Seq<(Seq<char>, Value)>,
    limits: Settings,
) -> Option<Seq<char>> {
    let target = argument(args, "target"@);
    if intent == "explore_batch"@ {
        match arguments::batch_queries(args) {
            Ok(_) => None,
            Err(m) => Some(m),
        }
    } else if intent == "dependency_graph"@ {
        if target is None {
            Some(lacks_target("dependency_graph"@, "symbol name"@))
        } else {
            match arguments::graph_options(args, limits) {
                Ok(_) => None,
                Err(m) => Some(m),
            }
        }
    } else if intent == "map_class"@ {
        if target is None {
            Some(lacks_target("map_class"@, "class or symbol name"@))
        } else {
            None
        }
    } else if intent == "analyze_repo"@ {
        None
    } else if intent == "find_symbol"@ {
        match arguments::search_limit(args) {
            Err(m) => Some(m),
            Ok(_) => if target is None {
                Some(lacks_target("find_symbol"@, "symbol fragment"@))
            } else {
                None
            },
        }
    } else if intent == "explore_symbol"@ || intent == "read_node"@ {
        if target is None {
            Some(lacks_target("explore_symbol"@, "symbol name"@))
        } else {
            None
        }
    } else if intent == "trace_flow"@ || intent == "refactor_symbol"@ {
        if target is None {
            Some(lacks_target(intent, "symbol name"@))
        } else {
            None
        }
    } else {
        Some(INVALID_INTENT@)
    }
}

/// An intent that looks at a symbol is planned only with a target, and every intent with
/// its target is planned where its other arguments can be read. What is no intent is
/// never planned.
pub proof fn law_symbols_are_planned_with_their_target(
    intent: Seq<char>,
    args: Seq<(Seq<char>, Value)>,
    limits: Settings,
)
    ensures
        ({
            let given = json::found(args, "target"@) matches Some(Value::Text(_));
            let stopped = plan_obstacle(intent, args, limits);
            &&& stopped is None && !given ==> intent == "explore_batch"@ || intent
                == "analyze_repo"@
            &&& stopped is None ==> is_intent(intent)
            &&& is_intent(intent) && given && arguments::batch_queries(args) is Ok
                && arguments::graph_options(args, limits) is Ok && arguments::search_limit(args) is Ok
                ==> stopped is None
        }),
{
}

/// Whether an intent is one that the pipeline has.
pub open spec fn is_intent(intent: Seq<char>) -> bool {
    ||| intent == "explore_batch"@
    ||| intent == "dependency_graph"@
    ||| intent == "map_class"@
    ||| intent == "analyze_repo"@
    ||| intent == "find_symbol"@
    ||| intent == "explore_symbol"@
    ||| intent == "read_node"@
    ||| intent == "trace_flow"@
    ||| intent == "refactor_symbol"@
}

/// Whether a plan is what an intent's arguments ask for.
pub open spec fn is_plan(
    plan: Plan,
    intent: Seq<char>,
    args: Seq<(Seq<char>, Value)>,
    limits: Settings,
) -> bool {
    match plan {
        Plan::Batch { queries } => {
            &&& intent == "explore_batch"@
            &&& arguments::batch_queries(args) == Ok::<Seq<arguments::QueryText>, Seq<char>>(
                arguments::query_texts(queries@),
            )
        },
        Plan::Graph { target, filepath, options } => {
            &&& intent == "dependency_graph"@
            &&& argument(args, "target"@) == Some(target@)
            &&& argument(args, "filepath"@) == text::opt_text(filepath)
            &&& arguments::graph_options(args, limits) == Ok::<
                DependencyGraphOptions,
                Seq<char>,
            >(options)
        },
        Plan::MapClass { target, filepath } => {
            &&& intent == "map_class"@
            &&& argument(args, "target"@) == Some(target@)
            &&& argument(args, "filepath"@) == text::opt_text(filepath)
        },
        Plan::AnalyzeRepo { target_dir } => {
            &&& intent == "analyze_repo"@
            &&& text::opt_text(target_dir) == map_target(argument(args, "target"@))
        },
        Plan::Find { query, kind, limit } => {
            &&& intent == "find_symbol"@
            &&& argument(args, "target"@) == Some(query@)
            &&& argument(args, "kind"@) == text::opt_text(kind)
            &&& arguments::search_limit(args) == Ok::<usize, Seq<char>>(limit)
        },
        Plan::Explore { target, filepath } => {
            &&& intent == "explore_symbol"@ || intent == "read_node"@
            &&& argument(args, "target"@) == Some(target@)
            &&& argument(args, "filepath"@) == text::opt_text(filepath)
        },
        Plan::Trace { target, filepath } => {
            &&& intent == "trace_flow"@
            &&& argument(args, "target"@) == Some(target@)
            &&& argument(args, "filepath"@) == text::opt_text(filepath)
        },
        Plan::Refactor { target, filepath } => {
            &&& intent == "refactor_symbol"@
            &&& argument(args, "target"@) == Some(target@)
            &&& argument(args, "filepath"@) == text::opt_text(filepath)
        },
    }
}

/// What the pipeline is to do is what the intent says, about the target and in the file
/// that the arguments name.
pub proof fn law_plans_follow_the_intent(
    plan: Plan,
    intent: Seq<char>,
    args: Seq<(Seq<char>, Value)>,
    limits: Settings,
)
    requires
        is_plan(plan, intent, args, limits),
    ensures
        intent == "explore_batch"@ ==> (plan matches Plan::Batch { queries }
            && arguments::batch_queries(args) == Ok::<Seq<arguments::QueryText>, Seq<char>>(
            arguments::query_texts(queries@),
        )),
        intent == "dependency_graph"@ ==> (plan matches Plan::Graph { target, filepath, options }
            && names(args, target, filepath) && arguments::graph_options(args, limits) == Ok::<
            DependencyGraphOptions,
            Seq<char>,
        >(options)),
        intent == "map_class"@ ==> (plan matches Plan::MapClass { target, filepath } && names(
            args,
            target,
            filepath,
        )),
        intent == "explore_symbol"@ || intent == "read_node"@ ==> (plan matches Plan::Explore {
            target,
            filepath,
        } && names(args, target, filepath)),
        intent == "trace_flow"@ ==> (plan matches Plan::Trace { target, filepath } && names(
            args,
            target,
            filepath,
        )),
        intent == "refactor_symbol"@ ==> (plan matches Plan::Refactor { target, filepath } && names(
            args,
            target,
            filepath,
        )),
        intent == "find_symbol"@ ==> (plan matches Plan::Find { query, kind, limit }
            && json::found(args, "target"@) == Some(Value::Text(query@)) && text::opt_text(kind) == (
        match json::found(args, "kind"@) {
            Some(Value::Text(s)) => Some(s),
            _ => None,
        }) && (match json::found(args, "limit"@) {
            Some(Value::Count(n)) => n == limit && n > 0,
            Some(_) => false,
            None => limit == 50,
        })),
        intent == "analyze_repo"@ ==> (plan matches Plan::AnalyzeRepo { target_dir } && (
        match json::found(args, "target"@) {
            Some(Value::Text(s)) => if s.len() == 0 || s == "."@ || s == "./"@ {
                target_dir is None
            } else {
                text::opt_text(target_dir) == Some(s)
            },
            _ => target_dir is None,
        })),
{
    lemma_intents_differ();
}

/// Whether arguments name a target and, where there is one, a file.
pub open spec fn names(
    args: Seq<(Seq<char>, Value)>,
    target: String,
    filepath: Option<String>,
) -> bool {
    &&& json::found(args, "target"@) == Some(Value::Text(target@))
    &&& text::opt_text(filepath) == match json::found(args, "filepath"@) {
        Some(Value::Text(s)) => Some(s),
        _ => None,
    }
}

proof fn lemma_intents_differ()
    ensures
        "explore_batch"@.len() == 13,
        "dependency_graph"@.len() == 16,
        "map_class"@.len() == 9,
        "analyze_repo"@.len() == 12,
        "find_symbol"@.len() == 11,
        "explore_symbol"@.len() == 14,
        "read_node"@.len() == 9,
        "trace_flow"@.len() == 10,
        "refactor_symbol"@.len() == 15,
        "map_class"@ != "read_node"@,
{
    reveal_strlit("explore_batch");
    reveal_strlit("dependency_graph");
    reveal_strlit("map_class");
    reveal_strlit("analyze_repo");
    reveal_strlit("find_symbol");
    reveal_strlit("explore_symbol");
    reveal_strlit("read_node");
    reveal_strlit("trace_flow");
    reveal_strlit("refactor_symbol");
    assert("map_class"@[0] != "read_node"@[0]);
}

fn plan_with_target(intent: &str, target: String, filepath: Option<String>) -> (r: Plan)
    requires
        intent@ == "explore_symbol"@ || intent@ == "read_node"@ || intent@ == "trace_flow"@
            || intent@ == "refactor_symbol"@ || intent@ == "map_class"@,
    ensures
        match r {
            Plan::Explore { target: t, filepath: f } => (intent@ == "explore_symbol"@ || intent@
                == "read_node"@) && t@ == target@ && text::opt_text(f) == text::opt_text(filepath),
            Plan::Trace { target: t, filepath: f } => intent@ == "trace_flow"@ && t@ == target@
                && text::opt_text(f) == text::opt_text(filepath),
            Plan::Refactor { target: t, filepath: f } => intent@ == "refactor_symbol"@ && t@
                == target@ && text::opt_text(f) == text::opt_text(filepath),
            Plan::MapClass { target: t, filepath: f } => intent@ == "map_class"@ && t@ == target@
                && text::opt_text(f) == text::opt_text(filepath),
            _ => false,
        },
{
    if same(intent, "trace_flow") {
        Plan::Trace { target, filepath }
    } else if same(intent, "refactor_symbol") {
        Plan::Refactor { target, filepath }
    } else if same(intent, "map_class") {
        Plan::MapClass { target, filepath }
    } else {
        Plan::Explore { target, filepath }
    }
}

fn plan_graph(args: &Vec<Member>, limits: &Settings) -> (r: Result<Plan, String>)
    ensures
        match r {
            Ok(plan) => is_plan(plan, "dependency_graph"@, json::members(args@), *limits),
            Err(m) => plan_obstacle("dependency_graph"@, json::members(args@), *limits) == Some(m@),
        },
        r is Ok <==> plan_obstacle("dependency_graph"@, json::members(args@), *limits) is None,
{
    proof {
        lemma_intents_differ();
    }
    match optional_text(args, "target") {
        Some(target) => match parse_dependency_graph_options(args, limits) {
            Ok(options) => Ok(
                Plan::Graph { target, filepath: optional_text(args, "filepath"), options },
            ),
            Err(m) => Err(m),
        },
        None => Err(lacks_target_text("dependency_graph", "symbol name")),
    }
}

fn plan_find(args: &Vec<Member>, limits: &Settings) -> (r: Result<Plan, String>)
    ensures
        match r {
            Ok(plan) => is_plan(plan, "find_symbol"@, json::members(args@), *limits),
            Err(m) => plan_obstacle("find_symbol"@, json::members(args@), *limits) == Some(m@),
        },
        r is Ok <==> plan_obstacle("find_symbol"@, json::members(args@), *limits) is None,
{
    proof {
        lemma_intents_differ();
    }
    let limit: usize = match parse_find_symbol_limit(args) {
        Ok(limit) => limit,
        Err(m) => {
            return Err(m);
        },
    };
    match optional_text(args, "target") {
        Some(query) => Ok(Plan::Find { query, kind: optional_text(args, "kind"), limit }),
        None => Err(lacks_target_text("find_symbol", "symbol fragment")),
    }
}

/// Plans what the pipeline is to do for an intent. An intent that the pipeline does not
/// have still counts as a served call.
pub fn plan_intent(intent: &str, args: &Vec<Member>, limits: &Settings) -> (r: Result<
    Plan,
    Refusal,
>)
    ensures
        match r {
            Ok(plan) => is_plan(plan, intent@, json::members(args@), *limits),
            Err(e) => {
                &&& e.kind == RefusalKind::InvalidParams
                &&& plan_obstacle(intent@, json::members(args@), *limits) == Some(e.message@)
                &&& e.closes == !is_intent(intent@)
            },
        },
        r is Ok <==> plan_obstacle(intent@, json::members(args@), *limits) is None,
{
    proof {
        lemma_intents_differ();
    }
    if same(intent, "explore_batch") {
        match parse_batch_queries(args) {
            Ok(queries) => Ok(Plan::Batch { queries }),
            Err(m) => Err(bad_argument(m)),
        }
    } else if same(intent, "dependency_graph") {
        match plan_graph(args, limits) {
            Ok(plan) => Ok(plan),
            Err(m) => Err(bad_argument(m)),
        }
    } else if same(intent, "analyze_repo") {
        Ok(Plan::AnalyzeRepo { target_dir: map_target_dir(optional_text(args, "target")) })
    } else if same(intent, "find_symbol") {
        match plan_find(args, limits) {
            Ok(plan) => Ok(plan),
            Err(m) => Err(bad_argument(m)),
        }
    } else if same(intent, "explore_symbol") || same(intent, "read_node") || same(
        intent,
        "trace_flow",
    ) || same(intent, "refactor_symbol") || same(intent, "map_class") {
        match optional_text(args, "target") {
            Some(target) => Ok(plan_with_target(intent, target, optional_text(args, "filepath"))),
            None => {
                let message = if same(intent, "map_class") {
                    lacks_target_text("map_class", "class or symbol name")
                } else if same(intent, "trace_flow") || same(intent, "refactor_symbol") {
                    lacks_target_text(intent, "symbol name")
                } else {
                    lacks_target_text("explore_symbol", "symbol name")
                };
                Err(bad_argument(message))
            },
        }
    } else {
        Err(
            Refusal {
                kind: RefusalKind::InvalidParams,
                message: INVALID_INTENT.to_owned(),
                closes: true,
            },
        )
    }
}

// ── Repositories ─────────────────────────────────────────────────────────────

/// What a repository is called after the directory it stands in.
pub open spec fn fallback_id(path: Seq<char>) -> Seq<char> {
    match paths::last_name(path) {
        Some(name) => name,
        None => "workspace"@,
    }
}

/// What a repository is called after the directory it stands in.
pub fn fallback_repo_id_for_path(path: &str) -> (r: String)
    ensures
        r@ == fallback_id(path@),
{
    match file_name(path) {
        Some(name) => name,
        None => "workspace".to_owned(),
    }
}

/// The repository that a call is about: the one that it names, or the one that is known
/// at the workspace's root, or the one called after it.
pub open spec fn request_repo(
    explicit: Option<Seq<char>>,
    known: Option<Seq<char>>,
    root: Seq<char>,
) -> Seq<char> {
    match explicit {
        Some(repo) => repo,
        None => match known {
            Some(repo) => repo,
            None => fallback_id(root),
        },
    }
}

/// A call is about the repository that it names; without one, about the one that is known
/// at the workspace; without that, about the one called after the last name of its root.
pub proof fn law_calls_are_about_the_named_repository(
    repo: Seq<char>,
    known: Option<Seq<char>>,
    root: Seq<char>,
)
    ensures
        request_repo(Some(repo), known, root) == repo,
        request_repo(None, Some(repo), root) == repo,
        paths::components(root).len() > 1 && paths::components(root).last() != ".."@
            ==> request_repo(None, None, root) == paths::components(root).last(),
{
}

/// The repository that a call is about. `known` is the one that the graph has at the
/// workspace's root.
pub fn resolve_request_repo_id(
    explicit_repo_id: Option<&str>,
    known: Option<&str>,
    workspace_root: &str,
) -> (r: String)
    ensures
        r@ == request_repo(text::opt_str(explicit_repo_id), text::opt_str(known), workspace_root@),
{
    match explicit_repo_id {
        Some(repo) => repo.to_owned(),
        None => match known {
            Some(repo) => repo.to_owned(),
            None => fallback_repo_id_for_path(workspace_root),
        },
    }
}

pub const REPO_EXISTS_SQL: &'static str = "SELECT COUNT(*) FROM repositories WHERE id = ?1";

pub const REPO_SYMBOLS_SQL: &'static str = "SELECT COUNT(*) FROM nodes WHERE repo_id = ?1";

pub const ALL_SYMBOLS_SQL: &'static str = "SELECT COUNT(*) FROM nodes";

/// What is said of a repository that the graph does not have.
pub open spec fn unknown_repo(repo: Seq<char>) -> Seq<char> {
    "Repo '"@ + repo + "' not found in the Marrow database. Run ingest_repo first."@
}

/// A repository that can be asked about, once it has been indexed where it has to be.
#[derive(Clone, Debug, PartialEq, Eq)]
pub struct ReadyRepo {
    pub repo_id: String,
    pub index_first: bool,
}

/// Whether a database could count this much for a statement; nothing where it refuses
/// the statement or gives no number.
pub open spec fn could_count(
    db: rusqlite::Connection,
    sql: Seq<char>,
    params: Seq<store::Bound>,
    n: i64,
) -> bool {
    ||| n == 0 && store::could_lack_int(db, sql, params)
    ||| exists|answer: Seq<Result<Vec<store::Cell>, rusqlite::Error>>|
        #[trigger] store::could_answer(
            db,
            sql,
            params,
            answer,
        ) && store::first_int(answer) == Some(n)
}

fn count_or_zero(conn: &rusqlite::Connection, sql: &str, params: Vec<Param>) -> (r: i64)
    ensures
        could_count(*conn, sql@, store::bounds(params@), r),
{
    let ghost bound = store::bounds(params@);
    match select(conn, sql, params) {
        Ok(answer) => {
            assert(store::could_answer(*conn, sql@, bound, answer@));
            match read_first_int(&answer) {
                Some(n) => n,
                None => 0,
            }
        },
        Err(why) => {
            assert(store::could_refuse(*conn, sql@, bound, why));
            0
        },
    }
}

/// What counts of the graph make of a repository: one that is named has to be there,
/// any other is indexed first where it holds nothing and its directory is there.
pub fn judge_repo(explicit: bool, repo_id: String, rows: i64, is_dir: bool) -> (r: Result<
    ReadyRepo,
    MarrowError,
>)
    ensures
        explicit && rows <= 0 ==> (r matches Err(MarrowError::Message(m)) && m@ == unknown_repo(
            repo_id@,
        )),
        explicit && rows > 0 ==> (r matches Ok(ready) && ready.repo_id@ == repo_id@
            && !ready.index_first),
        !explicit ==> (r matches Ok(ready) && ready.repo_id@ == repo_id@ && ready.index_first == (
        rows == 0 && is_dir)),
{
    if explicit {
        if rows > 0 {
            Ok(ReadyRepo { repo_id, index_first: false })
        } else {
            Err(
                MarrowError::Message(
                    "Repo '".to_owned().concat(&repo_id).concat(
                        "' not found in the Marrow database. Run ingest_repo first.",
                    ),
                ),
            )
        }
    } else {
        Ok(ReadyRepo { repo_id, index_first: rows == 0 && is_dir })
    }
}

/// The repository that a call is about, and whether it has to be indexed first.
pub fn ensure_repo_ready(
    conn: &rusqlite::Connection,
    explicit_repo_id: Option<&str>,
    known: Option<&str>,
    workspace_root: &str,
    is_dir: bool,
) -> (r: Result<ReadyRepo, MarrowError>)
    ensures
        ({
            let repo = request_repo(
                text::opt_str(explicit_repo_id),
                text::opt_str(known),
                workspace_root@,
            );
            match r {
                Ok(ready) => ready.repo_id@ == repo && (if explicit_repo_id is Some {
                    !ready.index_first && exists|n: i64|
                        n > 0 && #[trigger] could_count(
                            *conn,
                            REPO_EXISTS_SQL@,
                            store::one_text(repo),
                            n,
                        )
                } else {
                    exists|n: i64|
                        ready.index_first == (n == 0 && is_dir) && #[trigger] could_count(
                            *conn,
                            REPO_SYMBOLS_SQL@,
                            store::one_text(repo),
                            n,
                        )
                }),
                Err(MarrowError::Message(m)) => explicit_repo_id is Some && m@ == unknown_repo(repo)
                    && exists|n: i64|
                    n <= 0 && #[trigger] could_count(
                        *conn,
                        REPO_EXISTS_SQL@,
                        store::one_text(repo),
                        n,
                    ),
                Err(MarrowError::Store(_)) => false,
            }
        }),
{
    let repo_id = resolve_request_repo_id(explicit_repo_id, known, workspace_root);
    let explicit = explicit_repo_id.is_some();
    let sql: &str = if explicit {
        REPO_EXISTS_SQL
    } else {
        REPO_SYMBOLS_SQL
    };
    let rows = count_or_zero(conn, sql, bind_one(&repo_id));
    assert(could_count(*conn, sql@, store::one_text(repo_id@), rows));
    judge_repo(explicit, repo_id, rows, is_dir)
}

// ── Before the pipeline runs ─────────────────────────────────────────────────

/// What comes of a pipeline call before it is looked at.
#[derive(Clone, Debug, PartialEq, Eq)]
pub enum PipelineGate {
    /// This is answered at once.
    Answer(String),
    /// The workspace is indexed, then the call goes on.
    IndexFirst,
    Proceed,
}

/// What is said where the graph is empty and cannot be filled.
pub const EMPTY_GRAPH: &'static str =
    "[SYSTEM NOTE: The Marrow graph is empty and the workspace directory is not accessible. Run ingest_repo first.]";

/// What comes of a pipeline call: while the graph is being built its state is told, and
/// an empty graph is filled first where that is possible.
pub fn pipeline_gate(guard: Option<String>, node_count: i64, is_dir: bool) -> (r: PipelineGate)
    ensures
        match guard {
            Some(message) => r matches PipelineGate::Answer(m) && m@ == message@,
            None => if node_count != 0 {
                r == PipelineGate::Proceed
            } else if is_dir {
                r == PipelineGate::IndexFirst
            } else {
                r matches PipelineGate::Answer(m) && m@ == EMPTY_GRAPH@
            },
        },
{
    match guard {
        Some(message) => PipelineGate::Answer(message),
        None => if node_count != 0 {
            PipelineGate::Proceed
        } else if is_dir {
            PipelineGate::IndexFirst
        } else {
            PipelineGate::Answer(EMPTY_GRAPH.to_owned())
        },
    }
}

/// The number of symbols in the graph, none where it cannot be counted.
pub fn graph_node_count(conn: &rusqlite::Connection) -> (r: i64)
    ensures
        could_count(*conn, ALL_SYMBOLS_SQL@, Seq::empty(), r),
{
    let params: Vec<Param> = Vec::new();
    assert(store::bounds(params@) =~= Seq::empty());
    count_or_zero(conn, ALL_SYMBOLS_SQL, params)
}

/// What is said when the workspace could not be indexed.
pub fn indexing_failed(why: &str) -> (r: String)
    ensures
        r@ == "JIT auto-indexing failed: "@ + why@,
{
    "JIT auto-indexing failed: ".to_owned().concat(why)
}

// ── Ingestion ────────────────────────────────────────────────────────────────

/// What is said of a directory that is never indexed.
pub const PROTECTED_DIRECTORY: &'static str =
    "CRITICAL SECURITY: Cannot index protected system directories.";

/// Whether a path lies in a directory that is never indexed.
pub open spec fn is_protected(path: Seq<char>) -> bool {
    ||| paths::lies_within(path, "/Library"@)
    ||| paths::lies_within(path, "/.Trash"@)
    ||| paths::lies_within(path, "/etc"@)
    ||| paths::lies_within(path, "/System"@)
    ||| paths::lies_within(path, "/usr/bin"@)
}

/// What is asked before a path outside the workspace is indexed.
pub open spec fn out_of_bounds(path: Seq<char>) -> Seq<char> {
    "[SYSTEM INTERCEPT: OUT OF BOUNDS REQUEST]\nThe requested path '"@ + path
        + "' is outside the primary workspace boundary.\nYOUR INSTRUCTIONS:\n1. Stop your current task.\n2. Ask the user for explicit permission. Say exactly: \"You requested context that requires indexing an external directory: "@
        + path
        + ". Do you want me to index this directory into the Marrow graph?\"\n3. Wait for the user to reply.\n4. If the user replies \"yes\", re-run the `ingest_repo` tool with the exact same path, but add the parameter `\"user_confirmed\": true`."@
}

/// What keeps a path from being indexed, if anything does.
pub open spec fn ingest_obstacle(path: Seq<char>, workspace: Seq<char>, confirmed: bool) -> Option<
    Seq<char>,
> {
    if is_protected(path) {
        Some(PROTECTED_DIRECTORY@)
    } else if !paths::lies_within(path, workspace) && !confirmed {
        Some(out_of_bounds(path))
    } else {
        None
    }
}

fn in_protected_directory(path: &str) -> (r: bool)
    ensures
        r == is_protected(path@),
{
    is_within(path, "/Library") || is_within(path, "/.Trash") || is_within(path, "/etc")
        || is_within(path, "/System") || is_within(path, "/usr/bin")
}

/// Whether a path may be indexed: never one of the system, and one outside the workspace
/// only where the user confirmed it.
pub fn ingest_gate(root_path: &str, workspace_root: &str, user_confirmed: bool) -> (r: Result<
    (),
    String,
>)
    ensures
        match r {
            Ok(_) => ingest_obstacle(root_path@, workspace_root@, user_confirmed) is None,
            Err(m) => ingest_obstacle(root_path@, workspace_root@, user_confirmed) == Some(m@),
        },
{
    if in_protected_directory(root_path) {
        return Err(PROTECTED_DIRECTORY.to_owned());
    }
    if !is_within(root_path, workspace_root) && !user_confirmed {
        return Err(
            "[SYSTEM INTERCEPT: OUT OF BOUNDS REQUEST]\nThe requested path '".to_owned().concat(
                root_path,
            ).concat(
                "' is outside the primary workspace boundary.\nYOUR INSTRUCTIONS:\n1. Stop your current task.\n2. Ask the user for explicit permission. Say exactly: \"You requested context that requires indexing an external directory: ",
            ).concat(root_path).concat(
                ". Do you want me to index this directory into the Marrow graph?\"\n3. Wait for the user to reply.\n4. If the user replies \"yes\", re-run the `ingest_repo` tool with the exact same path, but add the parameter `\"user_confirmed\": true`.",
            ),
        );
    }
    Ok(())
}

/// The directories of the system are refused, and so is what lies below them. Any other
/// path is let pass exactly when it lies in the workspace or the user confirmed it; else
/// the user is to be asked, by the path.
pub proof fn law_only_system_directories_are_refused(
    path: Seq<char>,
    workspace: Seq<char>,
    user_confirmed: bool,
)
    ensures
        ({
            let refused = paths::lies_within(path, "/Library"@) || paths::lies_within(
                path,
                "/.Trash"@,
            ) || paths::lies_within(path, "/etc"@) || paths::lies_within(path, "/System"@)
                || paths::lies_within(path, "/usr/bin"@);
            let r = ingest_obstacle(path, workspace, user_confirmed);
            &&& refused ==> r
                == Some("CRITICAL SECURITY: Cannot index protected system directories."@)
            &&& !refused ==> (r is None <==> paths::lies_within(path, workspace)
                || user_confirmed)
            &&& !refused && r is Some ==> r == Some(out_of_bounds(path))
        }),
{
}

/// A protected directory is never indexed, whether or not the user confirms; any other
/// one is, where it lies in the workspace or the user confirms.
pub proof fn law_confirmation_opens_all_but_protected(path: Seq<char>, workspace: Seq<char>)
    ensures
        is_protected(path) ==> ingest_obstacle(path, workspace, true) is Some && ingest_obstacle(
            path,
            workspace,
            false,
        ) is Some,
        !is_protected(path) ==> ingest_obstacle(path, workspace, true) is None,
        !is_protected(path) && paths::lies_within(path, workspace) ==> ingest_obstacle(
            path,
            workspace,
            false,
        ) is None,
{
}

/// The path that a call means, seen from a directory.
pub fn ingest_root(raw_path: &str, cwd: &str) -> (r: String)
    ensures
        r@ == paths::joined_path(cwd@, raw_path@),
{
    join_path(cwd, raw_path)
}

/// What is answered when a repository has been indexed.
pub fn ingested(symbols: usize, edges: usize) -> (r: String)
    ensures
        r@ == "Ingested "@ + text::decimal(symbols as nat) + " symbols; resolved "@ + text::decimal(
            edges as nat,
        ) + " cross-repo edges."@,
{
    "Ingested ".to_owned().concat(&count_text(symbols)).concat(" symbols; resolved ").concat(
        &count_text(edges),
    ).concat(" cross-repo edges.")
}

// ── After the call ───────────────────────────────────────────────────────────

/// A counter and how far it moves. Where it is required, the call fails if it cannot be
/// kept; any other is let go.
#[derive(Clone, Debug, PartialEq, Eq)]
pub struct StatChange {
    pub key: &'static str,
    pub by: i64,
    pub required: bool,
}

/// What is counted when a call has been served.
pub fn closing_stats(tool_name: &str, action: ComplianceAction) -> (r: Vec<StatChange>)
    ensures
        ({
            let direct = tool_name@ == "run_pipeline"@;
            let routed = action == ComplianceAction::AutoRouted;
            &&& r.len() == (if direct {
                1int
            } else {
                0
            }) + (if routed {
                1int
            } else {
                0
            })
            &&& direct ==> r@[0].key@ == "pipeline_requests"@ && r@[0].by == 1
                && !r@[0].required
            &&& routed ==> r@.last().key@ == "direct_low_level_autorouted"@ && r@.last().by == 1
                && !r@.last().required
        }),
{
    let mut out: Vec<StatChange> = Vec::new();
    if same(tool_name, "run_pipeline") {
        out.push(StatChange { key: "pipeline_requests", by: 1, required: false });
    }
    if action == ComplianceAction::AutoRouted {
        out.push(
            StatChange { key: "direct_low_level_autorouted", by: 1, required: false },
        );
    }
    out
}

/// What is put in front of an answer where the workspace was indexed for it.
pub const AUTO_INDEXED: &'static str = "[SYSTEM NOTE: Auto-Indexed]\n\n";

/// What is put in front of an answer where the workspace was set up for it.
pub const AUTO_INIT: &'static str =
    "[MARROW AUTO-INIT] This workspace was not initialized. Marrow has automatically written registry-backed workspace rules. Please notify the user that running `marrow integrate` once globally will prevent this message in future projects.\n\n";

/// A list of texts behind one that may be there.
pub open spec fn behind(first: Option<Seq<char>>, rest: Seq<Seq<char>>) -> Seq<Seq<char>> {
    match first {
        Some(s) => seq![s] + rest,
        None => rest,
    }
}

/// The parts of an answer: that it was indexed for, that it was set up for, that it was
/// routed, and the answer itself.
pub open spec fn answer_parts(
    answer: Seq<char>,
    routed: Option<Seq<char>>,
    set_up: Option<Seq<char>>,
    indexed: bool,
) -> Seq<Seq<char>> {
    behind(
        if indexed {
            Some(AUTO_INDEXED@)
        } else {
            None
        },
        behind(set_up, behind(routed, seq![answer])),
    )
}

/// An answer comes last, as it is, behind the notices that there are: that the workspace
/// was indexed, that it was set up, that the call was routed.
pub proof fn law_answers_come_behind_their_notices(
    answer: Seq<char>,
    routed: Option<Seq<char>>,
    set_up: Option<Seq<char>>,
    indexed: bool,
)
    ensures
        ({
            let parts = answer_parts(answer, routed, set_up, indexed);
            let count = |there: bool|
                if there {
                    1int
                } else {
                    0
                };
            let a = count(indexed);
            let b = a + count(set_up is Some);
            let c = b + count(routed is Some);
            &&& parts.len() == c + 1
            &&& parts.last() == answer
            &&& indexed ==> parts[0] == "[SYSTEM NOTE: Auto-Indexed]\n\n"@
            &&& set_up matches Some(notice) ==> parts[a] == notice
            &&& routed matches Some(notice) ==> parts[b] == notice
        }),
{
}

/// The parts of an answer, its notices first.
pub fn with_notices(
    answer: String,
    compliance_notice: Option<String>,
    init_notice: Option<String>,
    auto_indexed: bool,
) -> (r: Vec<String>)
    ensures
        text::texts(r@) == answer_parts(
            answer@,
            text::opt_text(compliance_notice),
            text::opt_text(init_notice),
            auto_indexed,
        ),
{
    let mut out: Vec<String> = Vec::new();
    if auto_indexed {
        out.push(AUTO_INDEXED.to_owned());
    }
    match init_notice {
        Some(notice) => {
            out.push(notice);
        },
        None => {},
    }
    match compliance_notice {
        Some(notice) => {
            out.push(notice);
        },
        None => {},
    }
    out.push(answer);
    assert(text::texts(out@) =~= answer_parts(
        answer@,
        text::opt_text(compliance_notice),
        text::opt_text(init_notice),
        auto_indexed,
    ));
    out
}

// ── Starting up ──────────────────────────────────────────────────────────────

/// How often indexing is tried when the server starts.
pub const BOOT_ATTEMPTS: u32 = 3;

/// How long is waited between two attempts, in milliseconds.
pub const BOOT_RETRY_DELAY_MS: u64 = 3000;

/// Whether a failure, written in small letters, is one of a locked database.
pub open spec fn is_lock_failure(lower: Seq<char>) -> bool {
    scan::holds(lower, "database is locked"@) || scan::holds(lower, "sqlite_busy"@)
}

/// Whether a failure, written in small letters, is one of a locked database.
pub fn tells_of_lock(lower: &str) -> (r: bool)
    ensures
        r == is_lock_failure(lower@),
{
    contains(lower, "database is locked") || contains(lower, "sqlite_busy")
}

/// Whether indexing is tried again after an attempt: where the database was locked and
/// there are attempts left.
pub fn should_retry_indexing(failure: Option<&str>, attempt: u32) -> (r: bool)
    ensures
        r == (attempt < BOOT_ATTEMPTS && (text::opt_str(failure) matches Some(m)
            && is_lock_failure(scan::lowercase(m)))),
{
    match failure {
        Some(m) => attempt < BOOT_ATTEMPTS && tells_of_lock(&to_lowercase(m)),
        None => false,
    }
}

/// The marker of a workspace's root.
pub const WORKSPACE_MARKER: &'static str = ".marrowrc.json";

/// What marks a directory as the root of something under version control.
pub const VERSION_MARKER: &'static str = ".git";

/// A path and the directories above it, outwards.
pub open spec fn upwards(path: Seq<char>, n: nat) -> Seq<Seq<char>>
    decreases n,
{
    if n == 0 {
        seq![path]
    } else {
        match paths::parent_path(path) {
            Some(up) => seq![path] + upwards(up, (n - 1) as nat),
            None => seq![path],
        }
    }
}

/// The directories start with the path itself, and each is the parent of the one before.
pub proof fn law_each_directory_is_the_parent_of_the_last(path: Seq<char>, n: nat)
    ensures
        upwards(path, n).len() > 0,
        upwards(path, n)[0] == path,
        upwards(path, n).len() <= n + 1,
        forall|i: int|
            0 <= i < upwards(path, n).len() - 1 ==> paths::parent_path(#[trigger] upwards(path, n)[i])
                == Some(upwards(path, n)[i + 1]),
        upwards(path, n).len() <= n ==> paths::parent_path(upwards(path, n).last()) is None,
    decreases n,
{
    if n > 0 {
        match paths::parent_path(path) {
            Some(up) => {
                let rest = upwards(up, (n - 1) as nat);
                let all = upwards(path, n);
                law_each_directory_is_the_parent_of_the_last(up, (n - 1) as nat);
                assert forall|i: int| 0 <= i < all.len() - 1 implies paths::parent_path(
                    #[trigger] all[i],
                ) == Some(all[i + 1]) by {
                    if i > 0 {
                        assert(all[i] == rest[i - 1] && all[i + 1] == rest[i]);
                    }
                }
                assert(all.last() == rest.last());
            },
            None => {},
        }
    }
}

proof fn lemma_parent_is_shorter(path: Seq<char>)
    ensures
        paths::parent_path(path) matches Some(up) ==> up.len() < path.len(),
{
    lemma_tail_is_shorter(path);
    let whole = paths::without_tail(path);
    if whole.len() > 0 && whole != "/"@ {
        lemma_last_start(whole);
        let start = paths::last_start(whole) as int;
        lemma_tail_is_shorter(whole.take(start));
        if start == whole.len() {
            reveal_strlit("/");
            assert(whole.last() == '/');
            lemma_no_tail(path);
            assert(whole.len() == 1);
            assert(whole =~= "/"@);
        }
    }
}

proof fn lemma_no_tail(path: Seq<char>)
    ensures
        ({
            let whole = paths::without_tail(path);
            whole.len() >= 2 ==> whole.last() != '/'
        }),
    decreases path.len(),
{
    if path.len() >= 2 && (path.last() == '/' || (path.last() == '.' && path[path.len() - 2]
        == '/')) {
        lemma_no_tail(path.drop_last());
    }
}

proof fn lemma_tail_is_shorter(path: Seq<char>)
    ensures
        paths::without_tail(path).len() <= path.len(),
    decreases path.len(),
{
    if path.len() >= 2 && (path.last() == '/' || (path.last() == '.' && path[path.len() - 2]
        == '/')) {
        lemma_tail_is_shorter(path.drop_last());
    }
}

proof fn lemma_last_start(path: Seq<char>)
    ensures
        paths::last_start(path) <= path.len(),
        path.len() > 0 && path.last() != '/' ==> paths::last_start(path) < path.len(),
    decreases path.len(),
{
    if path.len() > 0 && path.last() != '/' {
        lemma_last_start(path.drop_last());
    }
}

/// A path and the directories above it, outwards: the places where a workspace's root
/// is looked for.
pub fn ancestors(path: &str) -> (r: Vec<String>)
    ensures
        text::texts(r@) == upwards(path@, path@.len()),
{
    let mut out: Vec<String> = Vec::new();
    let mut at = path.to_owned();
    let ghost mut fuel: nat = path@.len();
    assert(text::texts(out@) + upwards(at@, fuel) =~= upwards(path@, path@.len()));
    loop
        invariant
            at@.len() <= fuel,
            text::texts(out@) + upwards(at@, fuel) == upwards(path@, path@.len()),
        decreases at@.len(),
    {
        let up = parent(&at);
        let ghost before = out@;
        let here = at.clone();
        out.push(here);
        proof {
            text::lemma_texts_push(before, here);
            lemma_parent_is_shorter(at@);
        }
        match up {
            Some(next) => {
                proof {
                    assert(text::texts(before) + upwards(at@, fuel) =~= text::texts(out@) + upwards(
                        next@,
                        (fuel - 1) as nat,
                    ));
                    fuel = (fuel - 1) as nat;
                }
                at = next;
            },
            None => {
                assert(text::texts(before) + upwards(at@, fuel) =~= text::texts(out@));
                return out;
            },
        }
    }
}

/// The first of the places that is marked.
pub open spec fn first_marked(places: Seq<Seq<char>>, marked: Seq<bool>, from: int) -> Option<
    Seq<char>,
>
    decreases places.len() - from,
{
    if from >= places.len() || from >= marked.len() {
        None
    } else if marked[from] {
        Some(places[from])
    } else {
        first_marked(places, marked, from + 1)
    }
}

/// The root of the workspace: the one that was set, or the nearest of the places at and
/// above the current directory that is marked as a workspace, or the nearest that is
/// under version control, or the current directory.
pub open spec fn workspace_root(
    set: Option<Seq<char>>,
    places: Seq<Seq<char>>,
    marked: Seq<bool>,
    versioned: Seq<bool>,
    cwd: Seq<char>,
) -> Seq<char> {
    match set {
        Some(root) => root,
        None => match first_marked(places, marked, 0) {
            Some(root) => root,
            None => match first_marked(places, versioned, 0) {
                Some(root) => root,
                None => cwd,
            },
        },
    }
}

/// The root of the workspace is the one that was set; else the first place that is marked
/// as a workspace; else the first that is under version control; else the current
/// directory.
pub proof fn law_roots_are_the_nearest_marked(
    set: Option<Seq<char>>,
    places: Seq<Seq<char>>,
    marked: Seq<bool>,
    versioned: Seq<bool>,
    cwd: Seq<char>,
    k: int,
)
    requires
        places.len() == marked.len(),
        places.len() == versioned.len(),
        0 <= k <= places.len(),
    ensures
        set matches Some(root) ==> workspace_root(set, places, marked, versioned, cwd) == root,
        set is None && k < places.len() && marked[k] && (forall|j: int|
            0 <= j < k ==> !#[trigger] marked[j]) ==> workspace_root(
            set,
            places,
            marked,
            versioned,
            cwd,
        ) == places[k],
        set is None && (forall|j: int| 0 <= j < places.len() ==> !#[trigger] marked[j]) && k
            < places.len() && versioned[k] && (forall|j: int| 0 <= j < k ==> !#[trigger] versioned[j])
            ==> workspace_root(set, places, marked, versioned, cwd) == places[k],
        set is None && (forall|j: int| 0 <= j < places.len() ==> !#[trigger] marked[j]) && (forall|
            j: int,
        |
            0 <= j < places.len() ==> !#[trigger] versioned[j]) ==> workspace_root(
            set,
            places,
            marked,
            versioned,
            cwd,
        ) == cwd,
{
    lemma_first_marked(places, marked, 0, k);
    lemma_first_marked(places, versioned, 0, k);
    lemma_first_marked(places, marked, 0, places.len() as int);
    lemma_first_marked(places, versioned, 0, places.len() as int);
}

proof fn lemma_first_marked(places: Seq<Seq<char>>, marked: Seq<bool>, from: int, k: int)
    requires
        places.len() == marked.len(),
        0 <= from <= k <= places.len(),
    ensures
        (forall|j: int| 0 <= j < k ==> !#[trigger] marked[j]) ==> {
            &&& k == places.len() ==> first_marked(places, marked, from) is None
            &&& k < places.len() && marked[k] ==> first_marked(places, marked, from) == Some(
                places[k],
            )
        },
    decreases k - from,
{
    if from < k {
        lemma_first_marked(places, marked, from + 1, k);
        assert(marked[from] == marked[from]);
    }
}

/// The root of the workspace. `marked` says of each place whether it is marked as a
/// workspace, `versioned` whether it is under version control.
pub fn pick_workspace_root(
    set: Option<String>,
    places: &Vec<String>,
    marked: &Vec<bool>,
    versioned: &Vec<bool>,
    cwd: &str,
) -> (r: String)
    requires
        places.len() == marked.len(),
        places.len() == versioned.len(),
    ensures
        r@ == workspace_root(
            text::opt_text(set),
            text::texts(places@),
            marked@,
            versioned@,
            cwd@,
        ),
{
    match set {
        Some(root) => {
            return root;
        },
        None => {},
    }
    match find_marked(places, marked) {
        Some(root) => {
            return root;
        },
        None => {},
    }
    match find_marked(places, versioned) {
        Some(root) => root,
        None => cwd.to_owned(),
    }
}

fn find_marked(places: &Vec<String>, marked: &Vec<bool>) -> (r: Option<String>)
    requires
        places.len() == marked.len(),
    ensures
        text::opt_text(r) == first_marked(text::texts(places@), marked@, 0),
{
    let mut i: usize = 0;
    while i < places.len()
        invariant
            i <= places.len(),
            places.len() == marked.len(),
            first_marked(text::texts(places@), marked@, 0) == first_marked(
                text::texts(places@),
                marked@,
                i as int,
            ),
        decreases places.len() - i,
    {
        if marked[i] {
            assert(text::texts(places@)[i as int] == places@[i as int]@);
            return Some(places[i].clone());
        }
        i += 1;
    }
    None
}

} // verus!
