//! Carrying out what the pipeline was asked for, and what is reported of it.
use crate::batch;
use crate::batch::{
    absolute_symbol_file_path, capsule_report, execute_batch_queries, impact_report, opt_ref,
    report_original,
};
use crate::capsule;
use crate::capsule::explore_symbol;
use crate::class_map;
use crate::class_map::survey_class;
use crate::files::SourceFile;
use crate::graph;
use crate::graph::draw_graph;
use crate::impact;
use crate::impact::{affected_by, format_impact_result, AMBIGUOUS};
use crate::model::{
    BatchExecution, BatchOptions, BatchQuery, BatchTelemetry, CapsuleProofSnapshot,
    CapsuleProvenance, CapsuleResult, DependencyGraphOptions, ImpactResult,
};
use crate::scan;
use crate::scan::{count_marked_lines, strip_prefix};
use crate::server::{Plan, StatChange};
use crate::settings::Settings;
use crate::skeleton;
use crate::skeleton::get_project_skeleton;
use crate::store::MarrowError;
use crate::symbols;
use crate::symbols::find_symbols;
use crate::text;
use crate::text::byte_len;
use crate::trace;
use crate::trace::trace_symbol;
use vstd::prelude::*;
use vstd::string::*;

verus! {

// ── Events ───────────────────────────────────────────────────────────────────

/// What the dashboard is told.
#[derive(Debug)]
pub enum DashboardEvent {
    CapsuleServed {
        symbol: String,
        repo: String,
        file: String,
        capsule_tokens: usize,
        file_tokens: usize,
        tokens_saved: usize,
        origin: String,
        ts: u64,
        original_text: Option<String>,
        optimized_text: Option<String>,
        proof_snapshot: Option<Box<CapsuleProofSnapshot>>,
        provenance: Box<CapsuleProvenance>,
        has_cached_delta: bool,
    },
    ImpactAnalyzed { symbol: String, repo: String, affected_count: usize, ts: u64 },
    SkeletonGenerated { target_dir: String, node_count: usize, ts: u64 },
    RepoIndexed { repo_id: String, symbols: usize, edges: usize, ts: u64 },
}

/// What is left of a number when another is taken off, and nothing where there is less.
pub open spec fn saved(file_tokens: usize, capsule_tokens: usize) -> usize {
    if capsule_tokens <= file_tokens {
        (file_tokens - capsule_tokens) as usize
    } else {
        0
    }
}

/// Whether an event tells of what was reported.
pub open spec fn tells_of(
    event: DashboardEvent,
    report: BatchTelemetry,
    client: Seq<char>,
    now: u64,
) -> bool {
    match report {
        BatchTelemetry::Capsule {
            symbol,
            repo,
            file,
            capsule_tokens,
            file_tokens,
            original_text,
            optimized_text,
            proof_snapshot,
            provenance,
        } => event matches DashboardEvent::CapsuleServed {
            symbol: e_symbol,
            repo: e_repo,
            file: e_file,
            capsule_tokens: e_capsule,
            file_tokens: e_tokens,
            tokens_saved,
            origin,
            ts,
            original_text: e_original,
            optimized_text: e_optimized,
            proof_snapshot: e_proof,
            provenance: e_provenance,
            has_cached_delta,
        } && {
            &&& e_symbol@ == symbol@
            &&& e_repo@ == repo@
            &&& e_file@ == file@
            &&& e_capsule == capsule_tokens
            &&& e_tokens == file_tokens
            &&& tokens_saved == saved(file_tokens, capsule_tokens)
            &&& origin@ == client
            &&& ts == now
            &&& text::opt_text(e_original) == text::opt_text(original_text)
            &&& text::opt_text(e_optimized) == Some(optimized_text@)
            &&& e_proof == proof_snapshot
            &&& e_provenance == provenance
            &&& !has_cached_delta
        },
        BatchTelemetry::Impact { symbol, repo, affected_count } => event
            matches DashboardEvent::ImpactAnalyzed {
            symbol: e_symbol,
            repo: e_repo,
            affected_count: e_count,
            ts,
        } && e_symbol@ == symbol@ && e_repo@ == repo@ && e_count == affected_count && ts == now,
        BatchTelemetry::Skeleton { target_dir, node_count } => event
            matches DashboardEvent::SkeletonGenerated { target_dir: e_dir, node_count: e_count, ts }
            && e_dir@ == target_dir@ && e_count == node_count && ts == now,
    }
}

/// An event tells of the symbol and the repository that were reported, with the counts
/// that were; what was saved and what the capsule costs make up what its files cost,
/// unless the capsule costs more.
pub proof fn law_events_tell_what_was_reported(
    event: DashboardEvent,
    report: BatchTelemetry,
    client: Seq<char>,
    now: u64,
)
    requires
        tells_of(event, report, client, now),
    ensures
        event matches DashboardEvent::CapsuleServed {
            symbol,
            repo,
            file,
            capsule_tokens,
            file_tokens,
            tokens_saved,
            origin,
            ts,
            ..
        } ==> {
            &&& report matches BatchTelemetry::Capsule {
                symbol: of,
                repo: within,
                file: at,
                capsule_tokens: cost,
                file_tokens: whole,
                ..
            }
            &&& symbol@ == of@ && repo@ == within@ && file@ == at@
            &&& capsule_tokens == cost && file_tokens == whole
            &&& capsule_tokens <= file_tokens ==> tokens_saved + capsule_tokens == file_tokens
            &&& capsule_tokens > file_tokens ==> tokens_saved == 0
            &&& origin@ == client && ts == now
        },
        event matches DashboardEvent::ImpactAnalyzed { symbol, repo, affected_count, ts } ==> {
            &&& report matches BatchTelemetry::Impact {
                symbol: of,
                repo: within,
                affected_count: count,
            }
            &&& symbol@ == of@ && repo@ == within@ && affected_count == count && ts == now
        },
        event matches DashboardEvent::SkeletonGenerated { target_dir, node_count, ts } ==> {
            &&& report matches BatchTelemetry::Skeleton { target_dir: dir, node_count: count }
            &&& target_dir@ == dir@ && node_count == count && ts == now
        },
{
}

fn event_from(report: BatchTelemetry, client_name: &str, now: u64) -> (r: DashboardEvent)
    ensures
        tells_of(r, report, client_name@, now),
{
    match report {
        BatchTelemetry::Capsule {
            symbol,
            repo,
            file,
            capsule_tokens,
            file_tokens,
            original_text,
            optimized_text,
            proof_snapshot,
            provenance,
        } => {
            let tokens_saved: usize = if capsule_tokens <= file_tokens {
                file_tokens - capsule_tokens
            } else {
                0
            };
            DashboardEvent::CapsuleServed {
                symbol,
                repo,
                file,
                capsule_tokens,
                file_tokens,
                tokens_saved,
                origin: client_name.to_owned(),
                ts: now,
                original_text,
                optimized_text: Some(optimized_text),
                proof_snapshot,
                provenance,
                has_cached_delta: false,
            }
        },
        BatchTelemetry::Impact { symbol, repo, affected_count } => {
            DashboardEvent::ImpactAnalyzed { symbol, repo, affected_count, ts: now }
        },
        BatchTelemetry::Skeleton { target_dir, node_count } => {
            DashboardEvent::SkeletonGenerated { target_dir, node_count, ts: now }
        },
    }
}

/// The events of a call's reports, in order.
pub fn dashboard_events_from_batch_telemetry(
    telemetry: Vec<BatchTelemetry>,
    client_name: &str,
    now: u64,
) -> (r: Vec<DashboardEvent>)
    ensures
        r.len() == telemetry.len(),
        forall|i: int|
            0 <= i < r.len() ==> tells_of(#[trigger] r@[i], telemetry@[i], client_name@, now),
{
    let ghost all = telemetry@;
    let mut rest = telemetry;
    let mut out: Vec<DashboardEvent> = Vec::new();
    assert(rest@ =~= all.skip(0));
    while rest.len() > 0
        invariant
            out.len() + rest.len() == all.len(),
            rest@ == all.skip(out@.len() as int),
            forall|i: int|
                0 <= i < out.len() ==> tells_of(#[trigger] out@[i], all[i], client_name@, now),
        decreases rest.len(),
    {
        let ghost n = out@.len();
        let report = rest.remove(0);
        assert(report == all[n as int]);
        assert(rest@ =~= all.skip((n + 1) as int));
        out.push(event_from(report, client_name, now));
    }
    out
}

// ── Replies ──────────────────────────────────────────────────────────────────

/// What a call is answered. `closes` says whether the call is counted as served and its
/// notices are shown; an ambiguous name is answered without either.
#[derive(Debug)]
pub struct Reply {
    pub text: String,
    pub telemetry: Vec<BatchTelemetry>,
    pub stats: Vec<StatChange>,
    pub closes: bool,
}

/// Counter changes without their representation: the counter, how far it moves, and
/// whether it is required.
pub open spec fn changes(v: Seq<StatChange>) -> Seq<(Seq<char>, i64, bool)> {
    Seq::new(v.len(), |i: int| (v[i].key@, v[i].by, v[i].required))
}

/// What is counted for ambiguous lookups: nothing where there were none.
pub open spec fn ambiguity_changes(ambiguous: int) -> Seq<(Seq<char>, i64, bool)> {
    if ambiguous > 0 {
        seq![("ambiguous_symbol_requests"@, ambiguous as i64, false)]
    } else {
        Seq::empty()
    }
}

fn ambiguity_stats(ambiguous: usize) -> (r: Vec<StatChange>)
    ensures
        changes(r@) == ambiguity_changes(ambiguous as int),
{
    let mut out: Vec<StatChange> = Vec::new();
    if ambiguous > 0 {
        out.push(
            StatChange {
                key: "ambiguous_symbol_requests",
                by: ambiguous as i64,
                required: false,
            },
        );
    }
    assert(changes(out@) =~= ambiguity_changes(ambiguous as int));
    out
}

fn count_of(ambiguous: bool) -> (r: usize)
    ensures
        r == symbols::counted(ambiguous),
{
    if ambiguous {
        1
    } else {
        0
    }
}

/// The difference of two numbers, as near as it can be held.
pub open spec fn difference(a: i64, b: i64) -> i64 {
    if a - b > i64::MAX {
        i64::MAX
    } else if a - b < i64::MIN {
        i64::MIN
    } else {
        (a - b) as i64
    }
}

fn subtract(a: i64, b: i64) -> (r: i64)
    ensures
        r == difference(a, b),
{
    match a.checked_sub(b) {
        Some(n) => n,
        None => if b > 0 {
            i64::MIN
        } else {
            i64::MAX
        },
    }
}

/// What is counted for a served capsule.
pub open spec fn capsule_changes(result: CapsuleResult, ambiguous: bool) -> Seq<
    (Seq<char>, i64, bool),
> {
    let file = result.file_tokens as i64;
    let capsule = (text::bytes(result.optimized_text@) / 4) as i64;
    ambiguity_changes(symbols::counted(ambiguous)) + seq![
        ("total_requests"@, 1i64, false),
        ("total_file_tokens"@, file, false),
        ("total_tokens_saved"@, difference(file, capsule), false),
    ]
}

fn capsule_stats(result: &CapsuleResult, ambiguous: bool) -> (r: Vec<StatChange>)
    ensures
        changes(r@) == capsule_changes(*result, ambiguous),
{
    let file: i64 = result.file_tokens as i64;
    let capsule: i64 = (byte_len(&result.optimized_text) / 4) as i64;
    let saved: i64 = subtract(file, capsule);
    let mut out = ambiguity_stats(count_of(ambiguous));
    let ghost first = out@;
    assert(changes(first).len() == first.len());
    assert forall|i: int| 0 <= i < first.len() implies changes(first)[i] == (
        #[trigger] first[i].key@,
        first[i].by,
        first[i].required,
    ) by {}
    out.push(StatChange { key: "total_requests", by: 1, required: false });
    out.push(StatChange { key: "total_file_tokens", by: file, required: false });
    out.push(StatChange { key: "total_tokens_saved", by: saved, required: false });
    assert(changes(out@) =~= capsule_changes(*result, ambiguous));
    out
}

/// What is counted for a served batch.
pub open spec fn batch_changes(answer: BatchExecution) -> Seq<(Seq<char>, i64, bool)> {
    let all = ambiguity_changes(answer.ambiguous as int) + seq![
        ("batch_requests"@, 1i64, true),
        ("batch_queries"@, answer.query_count as i64, true),
    ];
    if answer.truncated {
        all.push(("batch_truncated"@, 1i64, true))
    } else {
        all
    }
}

fn batch_stats(answer: &BatchExecution) -> (r: Vec<StatChange>)
    ensures
        changes(r@) == batch_changes(*answer),
{
    let mut out = ambiguity_stats(answer.ambiguous);
    let ghost first = out@;
    assert(changes(first).len() == first.len());
    assert forall|i: int| 0 <= i < first.len() implies changes(first)[i] == (
        #[trigger] first[i].key@,
        first[i].by,
        first[i].required,
    ) by {}
    out.push(StatChange { key: "batch_requests", by: 1, required: true });
    out.push(
        StatChange { key: "batch_queries", by: answer.query_count as i64, required: true },
    );
    if answer.truncated {
        out.push(StatChange { key: "batch_truncated", by: 1, required: true });
    }
    assert(changes(out@) =~= batch_changes(*answer));
    out
}

/// Whether a reply shows a text and reports the marked lines in it, after this many
/// ambiguous lookups.
pub open spec fn is_listing(
    reply: Reply,
    about: Seq<char>,
    mark: Seq<char>,
    ambiguous: int,
) -> bool {
    &&& reply.closes
    &&& changes(reply.stats@) == ambiguity_changes(ambiguous)
    &&& reply.telemetry@.len() == 1
    &&& batch::reports_lines(Some(reply.telemetry@[0]), about, reply.text@, mark)
}

fn listing(shown: String, about: String, mark: &str, ambiguous: usize) -> (r: Reply)
    ensures
        r.text@ == shown@,
        is_listing(r, about@, mark@, ambiguous as int),
{
    let node_count = count_marked_lines(&shown, mark);
    let mut telemetry: Vec<BatchTelemetry> = Vec::new();
    telemetry.push(BatchTelemetry::Skeleton { target_dir: about, node_count });
    Reply { text: shown, telemetry, stats: ambiguity_stats(ambiguous), closes: true }
}

/// Whether a reply shows a capsule.
pub open spec fn is_capsule_reply(
    reply: Reply,
    about: Seq<char>,
    repo: Seq<char>,
    result: CapsuleResult,
    file: Seq<char>,
    original: Option<Seq<char>>,
    with_proof: bool,
    ambiguous: bool,
) -> bool {
    &&& reply.closes
    &&& reply.text@ == result.optimized_text@
    &&& changes(reply.stats@) == capsule_changes(result, ambiguous)
    &&& reply.telemetry@.len() == 1
    &&& batch::reports_capsule(
        Some(reply.telemetry@[0]),
        about,
        repo,
        result,
        file,
        original,
        with_proof,
    )
}

fn capsule_reply(
    about: &str,
    repo_id: &str,
    result: CapsuleResult,
    file: String,
    original: Option<String>,
    with_proof: bool,
    ambiguous: bool,
) -> (r: Reply)
    ensures
        is_capsule_reply(
            r,
            about@,
            repo_id@,
            result,
            file@,
            text::opt_text(original),
            with_proof,
            ambiguous,
        ),
{
    let stats = capsule_stats(&result, ambiguous);
    let executed = capsule_report(
        about,
        repo_id,
        result,
        file,
        original,
        with_proof,
        ambiguous,
    );
    let mut telemetry: Vec<BatchTelemetry> = Vec::new();
    match executed.telemetry {
        Some(report) => {
            telemetry.push(report);
        },
        None => {},
    }
    Reply { text: executed.text, telemetry, stats, closes: true }
}

/// The label of the part of a repository that a map shows.
pub open spec fn map_label(dir: Option<Seq<char>>) -> Seq<char> {
    match dir {
        Some(d) => d,
        None => "(workspace)"@,
    }
}

/// Whether a reply shows an impact: the candidates of an ambiguous name at once, and
/// what is affected otherwise.
pub open spec fn is_impact_reply(
    reply: Reply,
    about: Seq<char>,
    repo: Seq<char>,
    result: ImpactResult,
    max_rows: usize,
    ambiguous: bool,
) -> bool {
    &&& changes(reply.stats@) == ambiguity_changes(symbols::counted(ambiguous))
    &&& match scan::after_prefix(result.pivot_id@, AMBIGUOUS@) {
        Some(payload) => !reply.closes && reply.text@ == payload && reply.telemetry@.len() == 0,
        None => {
            &&& reply.closes
            &&& reply.text@ == impact::impact_text(result, max_rows)
            &&& reply.telemetry@.len() == 1
            &&& batch::reports_impact(Some(reply.telemetry@[0]), about, repo, result)
        },
    }
}

/// Whether a database could lead to this reply with the graph of a symbol, whose name
/// turns out to be ambiguous or not.
pub open spec fn could_show_graph(
    db: rusqlite::Connection,
    target: Seq<char>,
    repo: Seq<char>,
    filepath: Option<Seq<char>>,
    options: DependencyGraphOptions,
    limits: Settings,
    ambiguous: bool,
    reply: Reply,
) -> bool {
    &&& graph::could_graph_as(
        db,
        target,
        repo,
        filepath,
        options,
        limits,
        ambiguous,
        reply.text@,
    )
    &&& is_listing(
        reply,
        "dependency_graph:"@ + repo + ":"@ + target,
        "- [d"@,
        symbols::counted(ambiguous),
    )
}

/// Whether a database could lead to this reply to a plan.
pub open spec fn could_reply(
    db: rusqlite::Connection,
    plan: Plan,
    repo: Seq<char>,
    files: Seq<SourceFile>,
    limits: Settings,
    reply: Reply,
) -> bool {
    match plan {
        Plan::Batch { queries } => exists|answer: BatchExecution|
            {
                &&& #[trigger] batch::could_batch(
                    db,
                    repo,
                    queries@,
                    limits.batch_max_bytes,
                    files,
                    limits,
                    answer,
                )
                &&& reply.closes
                &&& reply.text@ == answer.text@
                &&& reply.telemetry@ == answer.telemetry@
                &&& changes(reply.stats@) == batch_changes(answer)
            },
        Plan::Graph { target, filepath, options } => {
            let path = text::opt_text(filepath);
            ||| could_show_graph(db, target@, repo, path, options, limits, true, reply)
            ||| could_show_graph(db, target@, repo, path, options, limits, false, reply)
        },
        Plan::MapClass { target, filepath } => exists|ambiguous: int|
            {
                &&& #[trigger] class_map::could_map_class_as(
                    db,
                    target@,
                    repo,
                    text::opt_text(filepath),
                    files,
                    limits,
                    ambiguous,
                    reply.text@,
                )
                &&& is_listing(reply, "map_class:"@ + repo + ":"@ + target@, "- "@, ambiguous)
            },
        Plan::AnalyzeRepo { target_dir } => {
            &&& skeleton::could_map(db, repo, text::opt_text(target_dir), reply.text@)
            &&& is_listing(
                reply,
                repo + ":"@ + map_label(text::opt_text(target_dir)),
                "- ["@,
                0,
            )
        },
        Plan::Find { query, kind, limit } => {
            &&& if scan::trimmed(query@).len() == 0 {
                reply.text@ == symbols::EMPTY_QUERY@
            } else {
                symbols::could_find(
                    db,
                    repo,
                    scan::trimmed(query@),
                    text::opt_text(kind),
                    symbols::shown_limit(limit),
                    reply.text@,
                )
            }
            &&& is_listing(reply, "find:"@ + query@, "- "@, 0)
        },
        Plan::Explore { target, filepath } => exists|
            ambiguous: bool,
            result: CapsuleResult,
            file: Seq<char>,
        |
            {
                &&& #[trigger] capsule::could_explore_as(
                    db,
                    target@,
                    repo,
                    text::opt_text(filepath),
                    files,
                    limits,
                    ambiguous,
                    result,
                )
                &&& #[trigger] batch::could_place(db, repo, target@, None, file)
                &&& is_capsule_reply(
                    reply,
                    target@,
                    repo,
                    result,
                    file,
                    batch::reported_original(limits.original_mode, result.original_text@),
                    true,
                    ambiguous,
                )
            },
        Plan::Trace { target, filepath } => exists|
            ambiguous: bool,
            result: CapsuleResult,
            file: Seq<char>,
        |
            {
                &&& #[trigger] trace::could_trace_as(
                    db,
                    target@,
                    repo,
                    text::opt_text(filepath),
                    limits,
                    ambiguous,
                    result,
                )
                &&& #[trigger] batch::could_place(db, repo, target@, None, file)
                &&& is_capsule_reply(reply, target@, repo, result, file, None, false, ambiguous)
            },
        Plan::Refactor { target, filepath } => exists|ambiguous: bool, result: ImpactResult|
            {
                &&& #[trigger] impact::could_affect_as(
                    db,
                    target@,
                    repo,
                    text::opt_text(filepath),
                    limits.impact_max_rows,
                    ambiguous,
                    result,
                )
                &&& is_impact_reply(
                    reply,
                    target@,
                    repo,
                    result,
                    limits.impact_max_rows,
                    ambiguous,
                )
            },
    }
}

/// A plan is carried out as the operation that it names does it, with nothing changed on
/// the way: what is answered is the operation's text.
pub proof fn law_plans_are_carried_out_as_asked(
    db: rusqlite::Connection,
    plan: Plan,
    repo: Seq<char>,
    files: Seq<SourceFile>,
    limits: Settings,
    reply: Reply,
)
    requires
        could_reply(db, plan, repo, files, limits, reply),
    ensures
        plan matches Plan::Batch { queries } ==> reply.closes && exists|answer: BatchExecution|
            #[trigger] batch::could_batch(
                db,
                repo,
                queries@,
                limits.batch_max_bytes,
                files,
                limits,
                answer,
            ) && reply.text@ == answer.text@ && reply.telemetry@ == answer.telemetry@,
        plan matches Plan::Graph { target, filepath, options } ==> reply.closes
            && graph::could_graph(
            db,
            target@,
            repo,
            text::opt_text(filepath),
            options,
            limits,
            reply.text@,
        ),
        plan matches Plan::MapClass { target, filepath } ==> reply.closes
            && class_map::could_map_class(
            db,
            target@,
            repo,
            text::opt_text(filepath),
            files,
            limits,
            reply.text@,
        ),
        plan matches Plan::AnalyzeRepo { target_dir } ==> reply.closes && skeleton::could_map(
            db,
            repo,
            text::opt_text(target_dir),
            reply.text@,
        ),
        plan matches Plan::Find { query, kind, limit } ==> reply.closes && (
        if scan::trimmed(query@).len() == 0 {
            reply.text@ == "No symbol matches for ''. Provide a symbol fragment."@
        } else {
            symbols::could_find(
                db,
                repo,
                scan::trimmed(query@),
                text::opt_text(kind),
                if limit == 0 {
                    1
                } else {
                    limit
                },
                reply.text@,
            )
        }),
        plan matches Plan::Explore { target, filepath } ==> reply.closes && exists|
            result: CapsuleResult,
        | #[trigger]
            capsule::could_explore(
                db,
                target@,
                repo,
                text::opt_text(filepath),
                files,
                limits,
                result,
            ) && reply.text@ == result.optimized_text@,
        plan matches Plan::Trace { target, filepath } ==> reply.closes && exists|
            result: CapsuleResult,
        | #[trigger]
            trace::could_trace(db, target@, repo, text::opt_text(filepath), limits, result)
                && reply.text@ == result.optimized_text@,
        plan matches Plan::Refactor { target, filepath } ==> exists|result: ImpactResult| #[trigger]
            impact::could_affect(
                db,
                target@,
                repo,
                text::opt_text(filepath),
                limits.impact_max_rows,
                result,
            ) && reply.text@ == impact::impact_text(result, limits.impact_max_rows)
                && reply.closes == !"DISAMBIGUATION:"@.is_prefix_of(result.pivot_id@),
{
    match plan {
        Plan::Explore { target, filepath } => {
            let path = text::opt_text(filepath);
            let (ambiguous, result, file) = choose|
                ambiguous: bool,
                result: CapsuleResult,
                file: Seq<char>,
            |
                {
                    &&& #[trigger] capsule::could_explore_as(
                        db,
                        target@,
                        repo,
                        path,
                        files,
                        limits,
                        ambiguous,
                        result,
                    )
                    &&& #[trigger] batch::could_place(db, repo, target@, None, file)
                    &&& is_capsule_reply(
                        reply,
                        target@,
                        repo,
                        result,
                        file,
                        batch::reported_original(limits.original_mode, result.original_text@),
                        true,
                        ambiguous,
                    )
                };
            assert(capsule::could_explore(db, target@, repo, path, files, limits, result));
        },
        Plan::Trace { target, filepath } => {
            let path = text::opt_text(filepath);
            let (ambiguous, result, file) = choose|
                ambiguous: bool,
                result: CapsuleResult,
                file: Seq<char>,
            |
                {
                    &&& #[trigger] trace::could_trace_as(
                        db,
                        target@,
                        repo,
                        path,
                        limits,
                        ambiguous,
                        result,
                    )
                    &&& #[trigger] batch::could_place(db, repo, target@, None, file)
                    &&& is_capsule_reply(reply, target@, repo, result, file, None, false, ambiguous)
                };
            assert(trace::could_trace(db, target@, repo, path, limits, result));
        },
        Plan::Refactor { target, filepath } => {
            let path = text::opt_text(filepath);
            let (ambiguous, result) = choose|ambiguous: bool, result: ImpactResult|
                {
                    &&& #[trigger] impact::could_affect_as(
                        db,
                        target@,
                        repo,
                        path,
                        limits.impact_max_rows,
                        ambiguous,
                        result,
                    )
                    &&& is_impact_reply(
                        reply,
                        target@,
                        repo,
                        result,
                        limits.impact_max_rows,
                        ambiguous,
                    )
                };
            assert(impact::could_affect(
                db,
                target@,
                repo,
                path,
                limits.impact_max_rows,
                result,
            ));
            assert(scan::begins(result.pivot_id@, AMBIGUOUS@)
                <==> "DISAMBIGUATION:"@.is_prefix_of(result.pivot_id@));
        },
        _ => {},
    }
}

/// What a served capsule is counted as: a request, the tokens of its files, and how many
/// fewer the capsule has, which is negative where it has more.
pub proof fn law_capsules_are_counted_by_their_tokens(result: CapsuleResult, ambiguous: bool)
    requires
        result.file_tokens <= i64::MAX,
        text::bytes(result.optimized_text@) <= i64::MAX,
    ensures
        ({
            let all = capsule_changes(result, ambiguous);
            let n = all.len() as int;
            &&& n == if ambiguous {
                4int
            } else {
                3
            }
            &&& ambiguous ==> all[0] == ("ambiguous_symbol_requests"@, 1i64, false)
            &&& all[n - 3] == ("total_requests"@, 1i64, false)
            &&& all[n - 2].0 == "total_file_tokens"@ && all[n - 2].1 == result.file_tokens
            &&& all[n - 1].0 == "total_tokens_saved"@ && all[n - 1].1 == result.file_tokens
                - text::bytes(result.optimized_text@) / 4
        }),
{
}

/// What a served batch is counted as: one request, its queries, that it was cut where it
/// was, and the ambiguous names where there were some.
pub proof fn law_batches_are_counted_by_their_queries(answer: BatchExecution)
    requires
        answer.query_count <= i64::MAX,
        answer.ambiguous <= i64::MAX,
    ensures
        ({
            let all = batch_changes(answer);
            let first: int = if answer.ambiguous > 0 {
                1
            } else {
                0
            };
            &&& all.len() == first + 2 + if answer.truncated {
                1int
            } else {
                0
            }
            &&& answer.ambiguous > 0 ==> all[0].0 == "ambiguous_symbol_requests"@ && all[0].1
                == answer.ambiguous && !all[0].2
            &&& all[first] == ("batch_requests"@, 1i64, true)
            &&& all[first + 1].0 == "batch_queries"@ && all[first + 1].1 == answer.query_count
                && all[first + 1].2
            &&& answer.truncated ==> all.last() == ("batch_truncated"@, 1i64, true)
        }),
{
}

// ── Carrying out ─────────────────────────────────────────────────────────────

fn run_batch(
    conn: &rusqlite::Connection,
    repo_id: &str,
    queries: &Vec<BatchQuery>,
    limits: &Settings,
    files: &Vec<SourceFile>,
) -> (r: Reply)
    requires
        queries.len() < usize::MAX,
    ensures
        exists|answer: BatchExecution|
            {
                &&& #[trigger] batch::could_batch(
                    *conn,
                    repo_id@,
                    queries@,
                    limits.batch_max_bytes,
                    files@,
                    *limits,
                    answer,
                )
                &&& r.closes
                &&& r.text@ == answer.text@
                &&& r.telemetry@ == answer.telemetry@
                &&& changes(r.stats@) == batch_changes(answer)
            },
{
    let options = BatchOptions {
        repo_id: repo_id.to_owned(),
        max_bytes: limits.batch_max_bytes,
    };
    let answer = execute_batch_queries(conn, queries, options, limits, files);
    let stats = batch_stats(&answer);
    let ghost whole = answer;
    let reply = Reply { text: answer.text, telemetry: answer.telemetry, stats, closes: true };
    assert(batch::could_batch(
        *conn,
        repo_id@,
        queries@,
        limits.batch_max_bytes,
        files@,
        *limits,
        whole,
    ));
    assert(changes(reply.stats@) == batch_changes(whole));
    reply
}

fn run_explore(
    conn: &rusqlite::Connection,
    repo_id: &str,
    target: &str,
    filepath: Option<&str>,
    limits: &Settings,
    files: &Vec<SourceFile>,
) -> (r: Result<Reply, MarrowError>)
    ensures
        match r {
            Ok(reply) => exists|ambiguous: bool, result: CapsuleResult, file: Seq<char>|
                {
                    &&& #[trigger] capsule::could_explore_as(
                        *conn,
                        target@,
                        repo_id@,
                        text::opt_str(filepath),
                        files@,
                        *limits,
                        ambiguous,
                        result,
                    )
                    &&& #[trigger] batch::could_place(*conn, repo_id@, target@, None, file)
                    &&& is_capsule_reply(
                        reply,
                        target@,
                        repo_id@,
                        result,
                        file,
                        batch::reported_original(limits.original_mode, result.original_text@),
                        true,
                        ambiguous,
                    )
                },
            Err(e) => capsule::could_not_explore(
                *conn,
                target@,
                repo_id@,
                text::opt_str(filepath),
                *limits,
                e,
            ),
        },
{
    match explore_symbol(conn, target, repo_id, filepath, limits, files) {
        Ok((result, ambiguous)) => {
            let file = absolute_symbol_file_path(conn, repo_id, target, None);
            let original = report_original(limits.original_mode, result.original_text.clone());
            let ghost whole = result;
            let ghost at = file@;
            let reply = capsule_reply(target, repo_id, result, file, original, true, ambiguous);
            assert(capsule::could_explore_as(
                *conn,
                target@,
                repo_id@,
                text::opt_str(filepath),
                files@,
                *limits,
                ambiguous,
                whole,
            ));
            assert(batch::could_place(*conn, repo_id@, target@, None, at));
            Ok(reply)
        },
        Err(e) => Err(e),
    }
}

fn run_trace(
    conn: &rusqlite::Connection,
    repo_id: &str,
    target: &str,
    filepath: Option<&str>,
    limits: &Settings,
) -> (r: Result<Reply, MarrowError>)
    ensures
        match r {
            Ok(reply) => exists|ambiguous: bool, result: CapsuleResult, file: Seq<char>|
                {
                    &&& #[trigger] trace::could_trace_as(
                        *conn,
                        target@,
                        repo_id@,
                        text::opt_str(filepath),
                        *limits,
                        ambiguous,
                        result,
                    )
                    &&& #[trigger] batch::could_place(*conn, repo_id@, target@, None, file)
                    &&& is_capsule_reply(
                        reply,
                        target@,
                        repo_id@,
                        result,
                        file,
                        None,
                        false,
                        ambiguous,
                    )
                },
            Err(e) => trace::could_not_trace(
                *conn,
                target@,
                repo_id@,
                text::opt_str(filepath),
                *limits,
                e,
            ),
        },
{
    match trace_symbol(conn, target, repo_id, filepath, limits) {
        Ok((result, ambiguous)) => {
            let file = absolute_symbol_file_path(conn, repo_id, target, None);
            let ghost whole = result;
            let ghost at = file@;
            let reply = capsule_reply(target, repo_id, result, file, None, false, ambiguous);
            assert(trace::could_trace_as(
                *conn,
                target@,
                repo_id@,
                text::opt_str(filepath),
                *limits,
                ambiguous,
                whole,
            ));
            assert(batch::could_place(*conn, repo_id@, target@, None, at));
            Ok(reply)
        },
        Err(e) => Err(e),
    }
}

/// What an impact is answered.
pub fn reply_to_impact(
    about: &str,
    repo_id: &str,
    result: &ImpactResult,
    max_rows: usize,
    ambiguous: bool,
) -> (r: Reply)
    ensures
        is_impact_reply(r, about@, repo_id@, *result, max_rows, ambiguous),
{
    let mut telemetry: Vec<BatchTelemetry> = Vec::new();
    let stats = ambiguity_stats(count_of(ambiguous));
    match strip_prefix(&result.pivot_id, AMBIGUOUS) {
        Some(payload) => Reply { text: payload, telemetry, stats, closes: false },
        None => {
            match impact_report(about, repo_id, result) {
                Some(report) => {
                    telemetry.push(report);
                },
                None => {},
            }
            Reply {
                text: format_impact_result(result, max_rows),
                telemetry,
                stats,
                closes: true,
            }
        },
    }
}

fn run_refactor(
    conn: &rusqlite::Connection,
    repo_id: &str,
    target: &str,
    filepath: Option<&str>,
    limits: &Settings,
) -> (r: Result<Reply, MarrowError>)
    ensures
        match r {
            Ok(reply) => exists|ambiguous: bool, result: ImpactResult|
                {
                    &&& #[trigger] impact::could_affect_as(
                        *conn,
                        target@,
                        repo_id@,
                        text::opt_str(filepath),
                        limits.impact_max_rows,
                        ambiguous,
                        result,
                    )
                    &&& is_impact_reply(
                        reply,
                        target@,
                        repo_id@,
                        result,
                        limits.impact_max_rows,
                        ambiguous,
                    )
                },
            Err(e) => impact::could_not_affect(
                *conn,
                target@,
                repo_id@,
                text::opt_str(filepath),
                e,
            ),
        },
{
    match affected_by(conn, target, repo_id, filepath, limits) {
        Ok((result, ambiguous)) => {
            assert(impact::could_affect_as(
                *conn,
                target@,
                repo_id@,
                text::opt_str(filepath),
                limits.impact_max_rows,
                ambiguous,
                result,
            ));
            Ok(reply_to_impact(target, repo_id, &result, limits.impact_max_rows, ambiguous))
        },
        Err(e) => Err(e),
    }
}

/// Whether a database could lead to this failure of a search; a blank fragment needs
/// none.
pub open spec fn could_not_search(
    db: rusqlite::Connection,
    repo: Seq<char>,
    query: Seq<char>,
    kind: Option<Seq<char>>,
    limit: usize,
    e: MarrowError,
) -> bool {
    &&& scan::trimmed(query).len() > 0
    &&& e matches MarrowError::Store(why)
    &&& symbols::could_not_find(
        db,
        repo,
        scan::trimmed(query),
        kind,
        symbols::shown_limit(limit),
        why,
    )
}

/// Searches for symbols by a fragment of their name.
pub fn dispatch_run_pipeline_find_symbol(
    conn: &rusqlite::Connection,
    repo_id: &str,
    query: &str,
    kind: Option<&str>,
    limit: usize,
) -> (r: Result<String, MarrowError>)
    ensures
        match r {
            Ok(shown) => if scan::trimmed(query@).len() == 0 {
                shown@ == symbols::EMPTY_QUERY@
            } else {
                symbols::could_find(
                    *conn,
                    repo_id@,
                    scan::trimmed(query@),
                    text::opt_str(kind),
                    symbols::shown_limit(limit),
                    shown@,
                )
            },
            Err(e) => could_not_search(
                *conn,
                repo_id@,
                query@,
                text::opt_str(kind),
                limit,
                e,
            ),
        },
{
    find_symbols(conn, repo_id, query, kind, limit)
}

fn run_graph(
    conn: &rusqlite::Connection,
    repo_id: &str,
    target: &str,
    filepath: Option<&str>,
    options: DependencyGraphOptions,
    limits: &Settings,
) -> (r: Result<Reply, MarrowError>)
    ensures
        !(1 <= options.depth <= 5) ==> (r matches Err(MarrowError::Message(m)) && m@
            == graph::BAD_DEPTH@),
        1 <= options.depth <= 5 ==> match r {
            Ok(reply) => {
                let path = text::opt_str(filepath);
                ||| could_show_graph(*conn, target@, repo_id@, path, options, *limits, true, reply)
                ||| could_show_graph(*conn, target@, repo_id@, path, options, *limits, false, reply)
            },
            Err(e) => graph::could_not_graph(
                *conn,
                target@,
                repo_id@,
                text::opt_str(filepath),
                options,
                *limits,
                e,
            ),
        },
{
    match draw_graph(conn, repo_id, target, filepath, options, limits) {
        Ok((shown, ambiguous)) => {
            let about = "dependency_graph:".to_owned().concat(repo_id).concat(":").concat(target);
            let reply = listing(shown, about, "- [d", count_of(ambiguous));
            assert(could_show_graph(
                *conn,
                target@,
                repo_id@,
                text::opt_str(filepath),
                options,
                *limits,
                ambiguous,
                reply,
            ));
            Ok(reply)
        },
        Err(e) => Err(e),
    }
}

fn run_map(conn: &rusqlite::Connection, repo_id: &str, dir: Option<&str>) -> (r: Result<
    Reply,
    MarrowError,
>)
    ensures
        match r {
            Ok(reply) => {
                &&& skeleton::could_map(*conn, repo_id@, text::opt_str(dir), reply.text@)
                &&& is_listing(reply, repo_id@ + ":"@ + map_label(text::opt_str(dir)), "- ["@, 0)
            },
            Err(e) => skeleton::could_not_map(*conn, repo_id@, text::opt_str(dir), e),
        },
{
    match get_project_skeleton(conn, repo_id, dir) {
        Ok(shown) => {
            let label: &str = match dir {
                Some(d) => d,
                None => "(workspace)",
            };
            let about = repo_id.to_owned().concat(":").concat(label);
            Ok(listing(shown, about, "- [", 0))
        },
        Err(e) => Err(e),
    }
}

/// Whether a database could lead to this failure of a plan. A batch never fails: what
/// fails in it is part of its answer.
pub open spec fn could_not_reply(
    db: rusqlite::Connection,
    plan: Plan,
    repo: Seq<char>,
    limits: Settings,
    e: MarrowError,
) -> bool {
    match plan {
        Plan::Batch { .. } => false,
        Plan::Graph { target, filepath, options } => if 1 <= options.depth <= 5 {
            graph::could_not_graph(
                db,
                target@,
                repo,
                text::opt_text(filepath),
                options,
                limits,
                e,
            )
        } else {
            e matches MarrowError::Message(m) && m@ == graph::BAD_DEPTH@
        },
        Plan::MapClass { target, filepath } => class_map::could_not_map_class(
            db,
            target@,
            repo,
            text::opt_text(filepath),
            limits,
            e,
        ),
        Plan::AnalyzeRepo { target_dir } => skeleton::could_not_map(
            db,
            repo,
            text::opt_text(target_dir),
            e,
        ),
        Plan::Find { query, kind, limit } => could_not_search(
            db,
            repo,
            query@,
            text::opt_text(kind),
            limit,
            e,
        ),
        Plan::Explore { target, filepath } => capsule::could_not_explore(
            db,
            target@,
            repo,
            text::opt_text(filepath),
            limits,
            e,
        ),
        Plan::Trace { target, filepath } => trace::could_not_trace(
            db,
            target@,
            repo,
            text::opt_text(filepath),
            limits,
            e,
        ),
        Plan::Refactor { target, filepath } => impact::could_not_affect(
            db,
            target@,
            repo,
            text::opt_text(filepath),
            e,
        ),
    }
}

/// Carries out a plan in a repository.
pub fn run_plan(
    conn: &rusqlite::Connection,
    repo_id: &str,
    plan: &Plan,
    limits: &Settings,
    files: &Vec<SourceFile>,
) -> (r: Result<Reply, MarrowError>)
    requires
        plan matches Plan::Batch { queries } ==> queries.len() < usize::MAX,
    ensures
        match r {
            Ok(reply) => could_reply(*conn, *plan, repo_id@, files@, *limits, reply),
            Err(e) => could_not_reply(*conn, *plan, repo_id@, *limits, e),
        },
{
    match plan {
        Plan::Batch { queries } => Ok(run_batch(conn, repo_id, queries, limits, files)),
        Plan::Graph { target, filepath, options } => {
            let asked = DependencyGraphOptions {
                depth: options.depth,
                direction: options.direction,
                include_source: options.include_source,
                max_nodes: options.max_nodes,
                max_bytes: options.max_bytes,
            };
            run_graph(conn, repo_id, target, opt_ref(filepath), asked, limits)
        },
        Plan::MapClass { target, filepath } => {
            match survey_class(conn, repo_id, target, opt_ref(filepath), limits, files) {
                Ok((shown, ambiguous)) => {
                    let about = "map_class:".to_owned().concat(repo_id).concat(":").concat(target);
                    Ok(listing(shown, about, "- ", ambiguous))
                },
                Err(e) => Err(e),
            }
        },
        Plan::AnalyzeRepo { target_dir } => run_map(conn, repo_id, opt_ref(target_dir)),
        Plan::Find { query, kind, limit } => {
            match dispatch_run_pipeline_find_symbol(conn, repo_id, query, opt_ref(kind), *limit) {
                Ok(shown) => {
                    let about = "find:".to_owned().concat(query);
                    Ok(listing(shown, about, "- ", 0))
                },
                Err(e) => Err(e),
            }
        },
        Plan::Explore { target, filepath } => run_explore(
            conn,
            repo_id,
            target,
            opt_ref(filepath),
            limits,
            files,
        ),
        Plan::Trace { target, filepath } => run_trace(
            conn,
            repo_id,
            target,
            opt_ref(filepath),
            limits,
        ),
        Plan::Refactor { target, filepath } => run_refactor(
            conn,
            repo_id,
            target,
            opt_ref(filepath),
            limits,
        ),
    }
}

} // verus!
