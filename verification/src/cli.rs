//! The command line: which command is meant, and what its arguments say.
use crate::model::{ImpactNode, ImpactResult};
use crate::paths;
use crate::paths::file_name;
use crate::scan;
use crate::scan::starts_with;
use crate::store;
use crate::store::{bind_one, keep_text_rows, read_first_int, select, MarrowError, Param};
use crate::text;
use crate::text::{chars_of, count_text, join, parse_size, same, signed_text, text_between};
use vstd::prelude::*;
use vstd::string::*;

verus! {

/// Where the graph is kept unless something else is set.
pub const DEFAULT_DB_PATH: &'static str = ".marrow/graph.db";

// ── Commands ─────────────────────────────────────────────────────────────────

/// A command of the program.
#[derive(Clone, Copy, Debug, PartialEq, Eq, Structural)]
pub enum Command {
    Interactive,
    Help,
    UiApp,
    Ui,
    Init,
    Rules,
    Index,
    TestCapsules,
    PerfHarness,
    Context,
    Maintenance,
    Integrate,
    Validate,
    Benchmark,
    Query,
    Daemon,
    Status,
    Stop,
    Watch,
    Service,
    /// The server, with the daemon started for it.
    Mcp,
    /// The server.
    Serve,
}

/// The command that a word stands for; any other word starts the server.
pub open spec fn command_named(word: Option<Seq<char>>) -> Command {
    match word {
        None => Command::Interactive,
        Some(w) => if w == "--help"@ || w == "-h"@ || w == "help"@ {
            Command::Help
        } else if w == "ui-app"@ {
            Command::UiApp
        } else if w == "ui"@ {
            Command::Ui
        } else if w == "init"@ {
            Command::Init
        } else if w == "rules"@ {
            Command::Rules
        } else if w == "index"@ {
            Command::Index
        } else if w == "test-capsules"@ {
            Command::TestCapsules
        } else if w == "perf-harness"@ {
            Command::PerfHarness
        } else if w == "context"@ {
            Command::Context
        } else if w == "maintenance"@ {
            Command::Maintenance
        } else if w == "integrate"@ {
            Command::Integrate
        } else if w == "validate"@ {
            Command::Validate
        } else if w == "benchmark"@ {
            Command::Benchmark
        } else if w == "query"@ {
            Command::Query
        } else if w == "daemon"@ {
            Command::Daemon
        } else if w == "status"@ {
            Command::Status
        } else if w == "stop"@ {
            Command::Stop
        } else if w == "watch"@ {
            Command::Watch
        } else if w == "service"@ {
            Command::Service
        } else if w == "mcp"@ {
            Command::Mcp
        } else {
            Command::Serve
        },
    }
}

/// Every command is called by its own word, and the server by any other.
pub proof fn law_commands_are_called_by_their_words(word: Option<Seq<char>>)
    ensures
        match command_named(word) {
            Command::Interactive => word is None,
            Command::Help => word == Some("--help"@) || word == Some("-h"@) || word == Some(
                "help"@,
            ),
            Command::UiApp => word == Some("ui-app"@),
            Command::Ui => word == Some("ui"@),
            Command::Init => word == Some("init"@),
            Command::Rules => word == Some("rules"@),
            Command::Index => word == Some("index"@),
            Command::TestCapsules => word == Some("test-capsules"@),
            Command::PerfHarness => word == Some("perf-harness"@),
            Command::Context => word == Some("context"@),
            Command::Maintenance => word == Some("maintenance"@),
            Command::Integrate => word == Some("integrate"@),
            Command::Validate => word == Some("validate"@),
            Command::Benchmark => word == Some("benchmark"@),
            Command::Query => word == Some("query"@),
            Command::Daemon => word == Some("daemon"@),
            Command::Status => word == Some("status"@),
            Command::Stop => word == Some("stop"@),
            Command::Watch => word == Some("watch"@),
            Command::Service => word == Some("service"@),
            Command::Mcp => word == Some("mcp"@),
            Command::Serve => word matches Some(w) && w != "--help"@ && w != "-h"@ && w != "help"@
                && w != "ui-app"@
                && w != "ui"@
                && w != "init"@
                && w != "rules"@
                && w != "index"@
                && w != "test-capsules"@
                && w != "perf-harness"@
                && w != "context"@
                && w != "maintenance"@
                && w != "integrate"@
                && w != "validate"@
                && w != "benchmark"@
                && w != "query"@
                && w != "daemon"@
                && w != "status"@
                && w != "stop"@
                && w != "watch"@
                && w != "service"@
                && w != "mcp"@,
        },
{
}

/// The command that a word stands for.
pub fn parse_command(word: Option<&str>) -> (r: Command)
    ensures
        r == command_named(text::opt_str(word)),
{
    let w: &str = match word {
        Some(w) => w,
        None => {
            return Command::Interactive;
        },
    };
    if same(w, "--help") || same(w, "-h") || same(w, "help") {
        Command::Help
    } else if same(w, "ui-app") {
        Command::UiApp
    } else if same(w, "ui") {
        Command::Ui
    } else if same(w, "init") {
        Command::Init
    } else if same(w, "rules") {
        Command::Rules
    } else if same(w, "index") {
        Command::Index
    } else if same(w, "test-capsules") {
        Command::TestCapsules
    } else if same(w, "perf-harness") {
        Command::PerfHarness
    } else if same(w, "context") {
        Command::Context
    } else if same(w, "maintenance") {
        Command::Maintenance
    } else if same(w, "integrate") {
        Command::Integrate
    } else if same(w, "validate") {
        Command::Validate
    } else if same(w, "benchmark") {
        Command::Benchmark
    } else if same(w, "query") {
        Command::Query
    } else if same(w, "daemon") {
        Command::Daemon
    } else if same(w, "status") {
        Command::Status
    } else if same(w, "stop") {
        Command::Stop
    } else if same(w, "watch") {
        Command::Watch
    } else if same(w, "service") {
        Command::Service
    } else if same(w, "mcp") {
        Command::Mcp
    } else {
        Command::Serve
    }
}

/// A command of the desktop application.
#[derive(Clone, Copy, Debug, PartialEq, Eq, Structural)]
pub enum UiAppCommand {
    Open,
    Enable,
    Disable,
    Status,
    Usage,
}

/// The command of the desktop application that a word stands for.
pub fn parse_ui_app_command(word: Option<&str>) -> (r: UiAppCommand)
    ensures
        r == match text::opt_str(word) {
            None => UiAppCommand::Open,
            Some(w) => if w == "open"@ || w == "run"@ {
                UiAppCommand::Open
            } else if w == "enable"@ {
                UiAppCommand::Enable
            } else if w == "disable"@ {
                UiAppCommand::Disable
            } else if w == "status"@ {
                UiAppCommand::Status
            } else {
                UiAppCommand::Usage
            },
        },
{
    match word {
        None => UiAppCommand::Open,
        Some(w) => if same(w, "open") || same(w, "run") {
            UiAppCommand::Open
        } else if same(w, "enable") {
            UiAppCommand::Enable
        } else if same(w, "disable") {
            UiAppCommand::Disable
        } else if same(w, "status") {
            UiAppCommand::Status
        } else {
            UiAppCommand::Usage
        },
    }
}

/// A command of the daemon.
#[derive(Clone, Copy, Debug, PartialEq, Eq, Structural)]
pub enum DaemonCommand {
    Run,
    Install,
    Uninstall,
    Status,
    Usage,
}

/// The command of the daemon that a word stands for.
pub fn parse_daemon_command(word: Option<&str>) -> (r: DaemonCommand)
    ensures
        r == match text::opt_str(word) {
            None => DaemonCommand::Run,
            Some(w) => if w == "install"@ {
                DaemonCommand::Install
            } else if w == "uninstall"@ {
                DaemonCommand::Uninstall
            } else if w == "status"@ {
                DaemonCommand::Status
            } else {
                DaemonCommand::Usage
            },
        },
{
    match word {
        None => DaemonCommand::Run,
        Some(w) => if same(w, "install") {
            DaemonCommand::Install
        } else if same(w, "uninstall") {
            DaemonCommand::Uninstall
        } else if same(w, "status") {
            DaemonCommand::Status
        } else {
            DaemonCommand::Usage
        },
    }
}

// ── Small commands ───────────────────────────────────────────────────────────

/// Whether an argument asks for help.
pub open spec fn asks_help(word: Seq<char>) -> bool {
    word == "--help"@ || word == "-h"@
}

pub(crate) fn is_help(word: &str) -> (r: bool)
    ensures
        r == asks_help(word@),
{
    same(word, "--help") || same(word, "-h")
}

/// The first argument, at or behind `from`, that starts with a dash.
pub open spec fn first_dashed(args: Seq<Seq<char>>, from: int) -> Option<Seq<char>>
    decreases args.len() - from,
{
    if from >= args.len() {
        None
    } else if scan::begins(args[from], "-"@) {
        Some(args[from])
    } else {
        first_dashed(args, from + 1)
    }
}

/// The first argument that starts with a dash is one that does, with none before it.
pub proof fn law_the_first_dashed_is_found(args: Seq<Seq<char>>, from: int)
    requires
        0 <= from <= args.len(),
    ensures
        first_dashed(args, from) is None ==> forall|i: int|
            from <= i < args.len() ==> !scan::begins(#[trigger] args[i], "-"@),
        first_dashed(args, from) matches Some(w) ==> exists|i: int|
            from <= i < args.len() && #[trigger] args[i] == w && scan::begins(w, "-"@)
                && forall|j: int| from <= j < i ==> !scan::begins(#[trigger] args[j], "-"@),
    decreases args.len() - from,
{
    if from < args.len() {
        if scan::begins(args[from], "-"@) {
            assert(args[from] == first_dashed(args, from)->Some_0);
        } else {
            law_the_first_dashed_is_found(args, from + 1);
            if first_dashed(args, from) is Some {
                let w = first_dashed(args, from)->Some_0;
                let i = choose|i: int|
                    from + 1 <= i < args.len() && #[trigger] args[i] == w && scan::begins(w, "-"@)
                        && forall|j: int|
                        from + 1 <= j < i ==> !scan::begins(#[trigger] args[j], "-"@);
                assert(args[i] == w);
            }
        }
    }
}

/// Whether one of some arguments asks for help, as a word too.
pub open spec fn any_help(args: Seq<Seq<char>>) -> bool {
    exists|i: int|
        0 <= i < args.len() && (asks_help(#[trigger] args[i]) || args[i] == "help"@)
}

/// Whether the index command only shows its help; an argument that starts with a dash is
/// refused.
pub fn parse_index_args(args: &Vec<String>) -> (r: Result<bool, String>)
    ensures
        any_help(text::texts(args@)) ==> r == Ok::<bool, String>(true),
        !any_help(text::texts(args@)) ==> match first_dashed(text::texts(args@), 0) {
            Some(extra) => r matches Err(m) && m@ == "index: unknown argument `"@ + extra
                + "` (try `marrow index --help`)"@,
            None => r == Ok::<bool, String>(false),
        },
{
    let ghost all = text::texts(args@);
    let mut i: usize = 0;
    while i < args.len()
        invariant
            i <= args.len(),
            all == text::texts(args@),
            forall|k: int|
                0 <= k < i ==> !(asks_help(#[trigger] all[k]) || all[k] == "help"@),
        decreases args.len() - i,
    {
        assert(all[i as int] == args@[i as int]@);
        if is_help(&args[i]) || same(&args[i], "help") {
            return Ok(true);
        }
        i += 1;
    }
    let mut j: usize = 0;
    while j < args.len()
        invariant
            j <= args.len(),
            all == text::texts(args@),
            !any_help(all),
            first_dashed(all, 0) == first_dashed(all, j as int),
        decreases args.len() - j,
    {
        assert(all[j as int] == args@[j as int]@);
        if starts_with(&args[j], "-") {
            return Err(
                "index: unknown argument `".to_owned().concat(&args[j]).concat(
                    "` (try `marrow index --help`)",
                ),
            );
        }
        j += 1;
    }
    Ok(false)
}

/// What a repository is called after the root it is indexed from.
pub fn indexed_repo_id(root: &str) -> (r: String)
    ensures
        r@ == match paths::last_name(root@) {
            Some(name) => name,
            None => "unnamed"@,
        },
{
    match file_name(root) {
        Some(name) => name,
        None => "unnamed".to_owned(),
    }
}

/// What the benchmark command is called for.
#[derive(Clone, Debug, PartialEq, Eq)]
pub enum BenchmarkArgs {
    /// What to measure is asked for.
    Wizard,
    Run { symbol: String, repo_id: String, precise: bool },
    Usage,
}

/// Where the first of the arguments that asks for exact counts is, or their number.
pub open spec fn precise_at(args: Seq<Seq<char>>, from: int) -> int
    decreases args.len() - from,
{
    if from >= args.len() {
        args.len() as int
    } else if args[from] == "--precise-file-tokens"@ {
        from
    } else {
        precise_at(args, from + 1)
    }
}

/// The arguments without the first that asks for exact counts.
pub open spec fn other_args(args: Seq<Seq<char>>) -> Seq<Seq<char>> {
    let at = precise_at(args, 0);
    if at < args.len() {
        args.remove(at)
    } else {
        args
    }
}

/// The first argument that asks for exact counts is taken out, and the others stay in order.
pub proof fn law_only_the_first_request_is_taken_out(args: Seq<Seq<char>>)
    ensures
        !args.contains("--precise-file-tokens"@) ==> other_args(args) == args,
        args.contains("--precise-file-tokens"@) ==> exists|at: int|
            0 <= at < args.len() && args[at] == "--precise-file-tokens"@ && !args.take(
                at,
            ).contains("--precise-file-tokens"@) && other_args(args) == #[trigger] args.take(at)
                + args.skip(at + 1),
{
    lemma_precise_at(args, 0);
    let at = precise_at(args, 0);
    if at < args.len() {
        assert(args[at] == "--precise-file-tokens"@);
        assert(args.remove(at) =~= args.take(at) + args.skip(at + 1));
        assert forall|i: int| 0 <= i < at implies args.take(at)[i] != "--precise-file-tokens"@ by {
            assert(args.take(at)[i] == args[i]);
        }
    }
}

proof fn lemma_precise_at(args: Seq<Seq<char>>, from: int)
    requires
        0 <= from <= args.len(),
    ensures
        from <= precise_at(args, from) <= args.len(),
        precise_at(args, from) < args.len() ==> args[precise_at(args, from)]
            == "--precise-file-tokens"@,
        forall|i: int|
            from <= i < precise_at(args, from) ==> #[trigger] args[i] != "--precise-file-tokens"@,
    decreases args.len() - from,
{
    if from < args.len() && args[from] != "--precise-file-tokens"@ {
        lemma_precise_at(args, from + 1);
    }
}

fn find_precise(args: &Vec<String>) -> (r: usize)
    ensures
        r == precise_at(text::texts(args@), 0),
        r <= args.len(),
{
    let ghost all = text::texts(args@);
    let mut i: usize = 0;
    while i < args.len()
        invariant
            i <= args.len(),
            all == text::texts(args@),
            precise_at(all, 0) == precise_at(all, i as int),
        decreases args.len() - i,
    {
        assert(all[i as int] == args@[i as int]@);
        if same(&args[i], "--precise-file-tokens") {
            return i;
        }
        i += 1;
    }
    i
}

/// What the benchmark command is called for.
pub fn parse_benchmark_args(args: &Vec<String>) -> (r: BenchmarkArgs)
    ensures
        ({
            let all = text::texts(args@);
            let rest = other_args(all);
            let precise = precise_at(all, 0) < all.len();
            if rest.len() == 0 && !precise {
                r == BenchmarkArgs::Wizard
            } else if rest.len() < 2 {
                r == BenchmarkArgs::Usage
            } else {
                r matches BenchmarkArgs::Run { symbol, repo_id, precise: p } && symbol@ == rest[0]
                    && repo_id@ == rest[1] && p == precise
            }
        }),
{
    let at = find_precise(args);
    let precise = at < args.len();
    let ghost all = text::texts(args@);
    let ghost rest = other_args(all);
    let n: usize = if precise {
        args.len() - 1
    } else {
        args.len()
    };
    assert(n == rest.len());
    if n == 0 && !precise {
        return BenchmarkArgs::Wizard;
    }
    if n < 2 {
        return BenchmarkArgs::Usage;
    }
    let first: usize = if at == 0 {
        1
    } else {
        0
    };
    let second: usize = if at <= 1 {
        2
    } else {
        1
    };
    assert(rest[0] == all[first as int]);
    assert(rest[1] == all[second as int]);
    BenchmarkArgs::Run { symbol: args[first].clone(), repo_id: args[second].clone(), precise }
}

/// How the query command is called.
pub fn query_usage(program: &str) -> (r: String)
    ensures
        r@ == "Usage: "@ + program@ + " query <symbol> <repo_id>"@,
{
    "Usage: ".to_owned().concat(program).concat(" query <symbol> <repo_id>")
}

/// What the query command shows of the first `n` symbols that are affected.
pub open spec fn with_affected(affected: Seq<ImpactNode>, n: int) -> Seq<char>
    decreases n,
{
    if n <= 0 {
        "\nIMPACT ANALYSIS:"@
    } else {
        let a = affected[n - 1];
        with_affected(affected, n - 1) + ("\n  [Depth "@ + text::signed_decimal(a.depth as int)
            + "] "@ + a.symbol_name@ + " ("@ + a.symbol_type@ + ") in "@ + a.file_path@)
    }
}

/// An impact is shown with a line for every symbol that it reaches, in order: its depth,
/// name, type and file.
pub proof fn law_every_affected_symbol_is_shown(affected: Seq<ImpactNode>)
    ensures
        with_affected(affected, affected.len() as int) == "\nIMPACT ANALYSIS:"@ + affected.flat_map(
            |a: ImpactNode|
                "\n  [Depth "@ + text::signed_decimal(a.depth as int) + "] "@ + a.symbol_name@ + " ("@
                    + a.symbol_type@ + ") in "@ + a.file_path@,
        ),
{
    let entry = |a: ImpactNode|
        "\n  [Depth "@ + text::signed_decimal(a.depth as int) + "] "@ + a.symbol_name@ + " ("@
            + a.symbol_type@ + ") in "@ + a.file_path@;
    lemma_affected(affected, affected.len() as int, entry);
    assert(affected.take(affected.len() as int) =~= affected);
}

proof fn lemma_affected(
    affected: Seq<ImpactNode>,
    n: int,
    entry: spec_fn(ImpactNode) -> Seq<char>,
)
    requires
        0 <= n <= affected.len(),
        forall|a: ImpactNode| #[trigger]
            entry(a) == "\n  [Depth "@ + text::signed_decimal(a.depth as int) + "] "@
                + a.symbol_name@ + " ("@ + a.symbol_type@ + ") in "@ + a.file_path@,
    ensures
        with_affected(affected, n) == "\nIMPACT ANALYSIS:"@ + affected.take(n).flat_map(entry),
    decreases n,
{
    if n == 0 {
        assert(affected.take(0).flat_map(entry) =~= Seq::empty());
        text::lemma_put_together("\nIMPACT ANALYSIS:"@, Seq::empty(), Seq::empty());
    } else {
        lemma_affected(affected, n - 1, entry);
        affected.lemma_flat_map_take_append(entry, n - 1);
        text::lemma_put_together(
            "\nIMPACT ANALYSIS:"@,
            affected.take(n - 1).flat_map(entry),
            entry(affected[n - 1]),
        );
    }
}

/// What the query command shows of an impact.
pub fn query_impact_text(impact: &ImpactResult) -> (r: String)
    ensures
        r@ == if impact.affected.len() == 0 {
            "\nIMPACT ANALYSIS:\n  No downstream dependents found."@
        } else {
            with_affected(impact.affected@, impact.affected@.len() as int)
        },
{
    if impact.affected.len() == 0 {
        return "\nIMPACT ANALYSIS:\n  No downstream dependents found.".to_owned();
    }
    let mut out = "\nIMPACT ANALYSIS:".to_owned();
    let mut i: usize = 0;
    while i < impact.affected.len()
        invariant
            i <= impact.affected.len(),
            out@ == with_affected(impact.affected@, i as int),
        decreases impact.affected.len() - i,
    {
        let a = &impact.affected[i];
        let line = "\n  [Depth ".to_owned().concat(&signed_text(a.depth)).concat("] ").concat(
            &a.symbol_name,
        ).concat(" (").concat(&a.symbol_type).concat(") in ").concat(&a.file_path);
        out.append(&line);
        i += 1;
    }
    out
}

// ── The context command ──────────────────────────────────────────────────────

/// The tokens that a context packet may hold unless something else is asked for.
pub const DEFAULT_CONTEXT_BUDGET: usize = 12_000;

/// How the context command is called.
pub open spec fn context_usage_text(program: Seq<char>) -> Seq<char> {
    "Usage: "@ + program
        + " context <task> --repo <repo_id> [--budget <tokens>] [--format markdown|json] [--profile local-8k|local-32k|cloud-cost-sensitive]"@
}

/// How the context command is called.
pub fn context_usage(program: &str) -> (r: String)
    ensures
        r@ == context_usage_text(program@),
{
    "Usage: ".to_owned().concat(program).concat(
        " context <task> --repo <repo_id> [--budget <tokens>] [--format markdown|json] [--profile local-8k|local-32k|cloud-cost-sensitive]",
    )
}

/// What the arguments of the context command have said so far.
pub struct ContextArgs {
    pub task: Vec<String>,
    pub repo_id: Option<String>,
    pub budget_tokens: usize,
    pub format: Option<String>,
    pub profile: Option<String>,
}

/// The content of the context command's arguments.
#[verifier::ext_equal]
pub ghost struct ContextText {
    pub task: Seq<Seq<char>>,
    pub repo_id: Option<Seq<char>>,
    pub budget_tokens: usize,
    pub format: Option<Seq<char>>,
    pub profile: Option<Seq<char>>,
}

impl View for ContextArgs {
    type V = ContextText;

    open spec fn view(&self) -> ContextText {
        ContextText {
            task: text::texts(self.task@),
            repo_id: text::opt_text(self.repo_id),
            budget_tokens: self.budget_tokens,
            format: text::opt_text(self.format),
            profile: text::opt_text(self.profile),
        }
    }
}

/// What the context command is called for.
pub enum ContextCall {
    Help,
    Compile(ContextRequest),
}

/// A context packet that is asked for. The names of the format and of the profile are
/// given as they were written.
pub struct ContextRequest {
    pub task: String,
    pub repo_id: String,
    pub budget_tokens: usize,
    pub format: Option<String>,
    pub profile: Option<String>,
}

/// What the arguments of the context command come to.
pub ghost enum ContextOutcome {
    Help,
    Bad(Seq<char>),
    Compile { task: Seq<char>, repo_id: Seq<char>, rest: ContextText },
}

/// An argument of the context command that a value follows, by the name that it has in
/// messages.
pub open spec fn context_flag(word: Seq<char>) -> Option<Seq<char>> {
    if word == "--repo"@ || word == "--repo-id"@ {
        Some("--repo"@)
    } else if word == "--budget"@ {
        Some("--budget"@)
    } else if word == "--format"@ {
        Some("--format"@)
    } else if word == "--profile"@ {
        Some("--profile"@)
    } else {
        None
    }
}

fn find_context_flag(word: &str) -> (r: Option<&'static str>)
    ensures
        text::opt_str(r) == context_flag(word@),
{
    if same(word, "--repo") || same(word, "--repo-id") {
        Some("--repo")
    } else if same(word, "--budget") {
        Some("--budget")
    } else if same(word, "--format") {
        Some("--format")
    } else if same(word, "--profile") {
        Some("--profile")
    } else {
        None
    }
}

/// What has been said once a value is given; nothing for a budget that is no positive
/// number.
pub open spec fn with_context_value(
    said: ContextText,
    flag: Seq<char>,
    value: Seq<char>,
) -> Option<ContextText> {
    if flag == "--repo"@ {
        Some(ContextText { repo_id: Some(value), ..said })
    } else if flag == "--budget"@ {
        match text::parsed_size(value) {
            Some(n) => if n > 0 {
                Some(ContextText { budget_tokens: n, ..said })
            } else {
                None
            },
            None => None,
        }
    } else if flag == "--format"@ {
        Some(ContextText { format: Some(value), ..said })
    } else {
        Some(ContextText { profile: Some(value), ..said })
    }
}

fn set_context_value(said: ContextArgs, flag: &str, value: &String) -> (r: Option<ContextArgs>)
    ensures
        match r {
            Some(a) => with_context_value(said@, flag@, value@) == Some(a@),
            None => with_context_value(said@, flag@, value@) is None,
        },
{
    if same(flag, "--repo") {
        Some(ContextArgs { repo_id: Some(value.clone()), ..said })
    } else if same(flag, "--budget") {
        match parse_size(value) {
            Some(n) => if n > 0 {
                Some(ContextArgs { budget_tokens: n, ..said })
            } else {
                None
            },
            None => None,
        }
    } else if same(flag, "--format") {
        Some(ContextArgs { format: Some(value.clone()), ..said })
    } else {
        Some(ContextArgs { profile: Some(value.clone()), ..said })
    }
}

/// What the arguments come to once all have been read: a task and a repository are
/// needed.
pub open spec fn context_finished(program: Seq<char>, said: ContextText) -> ContextOutcome {
    if said.task.len() == 0 {
        ContextOutcome::Bad(context_usage_text(program))
    } else {
        match said.repo_id {
            None => ContextOutcome::Bad("context: --repo is required"@),
            Some(repo_id) => ContextOutcome::Compile {
                task: text::joined(said.task, " "@),
                repo_id,
                rest: said,
            },
        }
    }
}

/// What the arguments come to from the one at `i` on.
pub open spec fn context_from(
    program: Seq<char>,
    args: Seq<Seq<char>>,
    i: int,
    said: ContextText,
) -> ContextOutcome
    decreases args.len() - i,
{
    if i >= args.len() {
        context_finished(program, said)
    } else if asks_help(args[i]) {
        ContextOutcome::Help
    } else {
        match context_flag(args[i]) {
            Some(flag) => if i + 1 >= args.len() {
                ContextOutcome::Bad("context: "@ + flag + " requires a value"@)
            } else {
                match with_context_value(said, flag, args[i + 1]) {
                    Some(next) => context_from(program, args, i + 2, next),
                    None => ContextOutcome::Bad("context: --budget must be a positive integer"@),
                }
            },
            None => if scan::begins(args[i], "-"@) {
                ContextOutcome::Bad("context: unknown argument `"@ + args[i] + "`"@)
            } else {
                context_from(
                    program,
                    args,
                    i + 1,
                    ContextText { task: said.task.push(args[i]), ..said },
                )
            },
        }
    }
}

/// The arguments are read one after the other. A word that is no flag joins the task; a
/// flag sets what it names to the word behind it, and a later one replaces an earlier one.
/// A budget is a positive number. At the end the task is its words with blanks between
/// them.
pub proof fn law_context_arguments_are_read_in_order(
    program: Seq<char>,
    word: Seq<char>,
    value: Seq<char>,
    rest: Seq<Seq<char>>,
    said: ContextText,
)
    ensures
        !asks_help(word) && context_flag(word) is None && !scan::begins(word, "-"@)
            ==> context_from(program, seq![word] + rest, 0, said) == context_from(
            program,
            rest,
            0,
            ContextText { task: said.task.push(word), ..said },
        ),
        word == "--repo"@ || word == "--repo-id"@ ==> context_from(
            program,
            seq![word, value] + rest,
            0,
            said,
        ) == context_from(program, rest, 0, ContextText { repo_id: Some(value), ..said }),
        word == "--format"@ ==> context_from(program, seq![word, value] + rest, 0, said)
            == context_from(program, rest, 0, ContextText { format: Some(value), ..said }),
        word == "--profile"@ ==> context_from(program, seq![word, value] + rest, 0, said)
            == context_from(program, rest, 0, ContextText { profile: Some(value), ..said }),
        word == "--budget"@ ==> match text::parsed_size(value) {
            Some(n) if n > 0 => context_from(program, seq![word, value] + rest, 0, said)
                == context_from(program, rest, 0, ContextText { budget_tokens: n, ..said }),
            _ => context_from(program, seq![word, value] + rest, 0, said) is Bad,
        },
        said.task.len() > 0 ==> match said.repo_id {
            Some(repo) => context_from(program, Seq::empty(), 0, said) == (ContextOutcome::Compile {
                task: text::joined(said.task, " "@),
                repo_id: repo,
                rest: said,
            }),
            None => context_from(program, Seq::empty(), 0, said) is Bad,
        },
        said.task.len() == 0 ==> context_from(program, Seq::empty(), 0, said) is Bad,
{
    reveal_strlit("--help");
    reveal_strlit("-h");
    reveal_strlit("--repo");
    reveal_strlit("--repo-id");
    reveal_strlit("--budget");
    reveal_strlit("--format");
    reveal_strlit("--profile");
    let one = seq![word] + rest;
    let two = seq![word, value] + rest;
    assert(one[0] == word && two[0] == word && two[1] == value);
    lemma_context_behind(
        program,
        seq![word],
        rest,
        0,
        ContextText { task: said.task.push(word), ..said },
    );
    lemma_context_behind(
        program,
        seq![word, value],
        rest,
        0,
        ContextText { repo_id: Some(value), ..said },
    );
    lemma_context_behind(
        program,
        seq![word, value],
        rest,
        0,
        ContextText { format: Some(value), ..said },
    );
    lemma_context_behind(
        program,
        seq![word, value],
        rest,
        0,
        ContextText { profile: Some(value), ..said },
    );
    if text::parsed_size(value) is Some {
        lemma_context_behind(
            program,
            seq![word, value],
            rest,
            0,
            ContextText { budget_tokens: text::parsed_size(value)->Some_0, ..said },
        );
    }
    if word == "--format"@ {
        assert("--format"@[2] != "--help"@[2] && "--format"@[2] != "--repo"@[2] && "--format"@[2]
            != "--budget"@[2]);
        assert("--format"@[2] != "--repo-id"@[2]);
        assert(word != "-h"@);
    }
    if word == "--profile"@ {
        assert("--profile"@[2] != "--help"@[2] && "--profile"@[2] != "--repo"@[2] && "--profile"@[2]
            != "--budget"@[2] && "--profile"@[2] != "--format"@[2]);
        assert("--profile"@[2] != "--repo-id"@[2]);
        assert(word != "-h"@);
    }
    if word == "--budget"@ {
        assert("--budget"@[2] != "--help"@[2] && "--budget"@[2] != "--repo"@[2]);
        assert("--budget"@[2] != "--repo-id"@[2]);
        assert(word != "-h"@);
    }
    if word == "--repo"@ || word == "--repo-id"@ {
        assert("--repo"@[2] != "--help"@[2] && "--repo-id"@[2] != "--help"@[2]);
        assert(word != "-h"@);
    }
}

/// What stands before some arguments does not change how they are read.
proof fn lemma_context_behind(
    program: Seq<char>,
    front: Seq<Seq<char>>,
    rest: Seq<Seq<char>>,
    k: int,
    said: ContextText,
)
    requires
        0 <= k,
    ensures
        context_from(program, front + rest, front.len() + k, said) == context_from(
            program,
            rest,
            k,
            said,
        ),
    decreases rest.len() - k,
{
    if k < rest.len() {
        let args = front + rest;
        let i = front.len() + k;
        assert(args[i] == rest[k]);
        if context_flag(rest[k]) is Some {
            if k + 1 < rest.len() {
                assert(args[i + 1] == rest[k + 1]);
                let next = with_context_value(said, context_flag(rest[k])->Some_0, rest[k + 1]);
                if next is Some {
                    lemma_context_behind(program, front, rest, k + 2, next->Some_0);
                }
            }
        } else {
            lemma_context_behind(
                program,
                front,
                rest,
                k + 1,
                ContextText { task: said.task.push(rest[k]), ..said },
            );
        }
    }
}

/// What is said before any argument.
pub open spec fn context_defaults() -> ContextText {
    ContextText {
        task: Seq::empty(),
        repo_id: None,
        budget_tokens: DEFAULT_CONTEXT_BUDGET,
        format: None,
        profile: None,
    }
}

/// Whether a reading of the context command's arguments came to an outcome.
pub open spec fn reads_context(r: Result<ContextCall, String>, out: ContextOutcome) -> bool {
    match r {
        Err(m) => out == ContextOutcome::Bad(m@),
        Ok(ContextCall::Help) => out == ContextOutcome::Help,
        Ok(ContextCall::Compile(c)) => out matches ContextOutcome::Compile { task, repo_id, rest }
            && c.task@ == task && c.repo_id@ == repo_id && c.budget_tokens == rest.budget_tokens
            && text::opt_text(c.format) == rest.format && text::opt_text(c.profile)
            == rest.profile,
    }
}

fn finish_context(program: &str, said: ContextArgs) -> (r: Result<ContextCall, String>)
    ensures
        reads_context(r, context_finished(program@, said@)),
{
    if said.task.len() == 0 {
        return Err(context_usage(program));
    }
    let task = join(&said.task, " ");
    match said.repo_id {
        None => Err("context: --repo is required".to_owned()),
        Some(repo_id) => Ok(
            ContextCall::Compile(
                ContextRequest {
                    task,
                    repo_id,
                    budget_tokens: said.budget_tokens,
                    format: said.format,
                    profile: said.profile,
                },
            ),
        ),
    }
}

/// Reads the arguments of the context command.
pub fn parse_context_args(program: &str, args: &Vec<String>) -> (r: Result<ContextCall, String>)
    ensures
        reads_context(r, context_from(program@, text::texts(args@), 0, context_defaults())),
{
    let ghost all = text::texts(args@);
    let mut said = ContextArgs {
        task: Vec::new(),
        repo_id: None,
        budget_tokens: DEFAULT_CONTEXT_BUDGET,
        format: None,
        profile: None,
    };
    assert(said@ =~= context_defaults());
    let mut i: usize = 0;
    while i < args.len()
        invariant
            i <= args.len(),
            all == text::texts(args@),
            context_from(program@, all, 0, context_defaults()) == context_from(
                program@,
                all,
                i as int,
                said@,
            ),
        decreases args.len() - i,
    {
        assert(all[i as int] == args@[i as int]@);
        if is_help(&args[i]) {
            return Ok(ContextCall::Help);
        }
        match find_context_flag(&args[i]) {
            Some(flag) => {
                if i + 1 >= args.len() {
                    return Err("context: ".to_owned().concat(flag).concat(" requires a value"));
                }
                assert(all[i + 1] == args@[i + 1]@);
                match set_context_value(said, flag, &args[i + 1]) {
                    Some(next) => {
                        said = next;
                    },
                    None => {
                        return Err("context: --budget must be a positive integer".to_owned());
                    },
                }
                i += 2;
            },
            None => {
                if starts_with(&args[i], "-") {
                    return Err(
                        "context: unknown argument `".to_owned().concat(&args[i]).concat("`"),
                    );
                }
                let ghost before = said@;
                said.task.push(args[i].clone());
                assert(said@ =~= (ContextText {
                    task: before.task.push(all[i as int]),
                    ..before
                }));
                i += 1;
            },
        }
    }
    finish_context(program, said)
}

pub const REPOSITORY_COUNT: &'static str = "SELECT COUNT(*) FROM repositories WHERE id = ?1";

pub const REPOSITORY_IDS: &'static str = "SELECT id FROM repositories ORDER BY id";

/// Whether a database could hold a repository of this name.
pub open spec fn could_hold(db: rusqlite::Connection, id: Seq<char>) -> bool {
    exists|answer: Seq<Result<Vec<store::Cell>, rusqlite::Error>>|
        {
            &&& #[trigger] store::could_answer(db, REPOSITORY_COUNT@, store::one_text(id), answer)
            &&& store::first_int(answer) matches Some(n) && n > 0
        }
}

/// Whether a database could be without a repository of this name; one that refuses the
/// question or gives no number counts as being without it.
pub open spec fn could_lack(db: rusqlite::Connection, id: Seq<char>) -> bool {
    ||| exists|answer: Seq<Result<Vec<store::Cell>, rusqlite::Error>>|
        {
            &&& #[trigger] store::could_answer(db, REPOSITORY_COUNT@, store::one_text(id), answer)
            &&& store::first_int(answer) matches Some(n) && n <= 0
        }
    ||| store::could_lack_int(db, REPOSITORY_COUNT@, store::one_text(id))
}

/// Whether the database holds a repository of this name; not where it cannot be asked.
fn holds_repository(conn: &rusqlite::Connection, id: &str) -> (r: bool)
    ensures
        if r {
            could_hold(*conn, id@)
        } else {
            could_lack(*conn, id@)
        },
{
    match select(conn, REPOSITORY_COUNT, bind_one(id)) {
        Ok(answer) => {
            assert(store::could_answer(*conn, REPOSITORY_COUNT@, store::one_text(id@), answer@));
            match read_first_int(&answer) {
                Some(n) => n > 0,
                None => false,
            }
        },
        Err(why) => {
            assert(store::could_refuse(*conn, REPOSITORY_COUNT@, store::one_text(id@), why));
            false
        },
    }
}

/// A hexadecimal digit.
pub open spec fn is_hex(c: char) -> bool {
    '0' <= c <= '9' || 'a' <= c <= 'f' || 'A' <= c <= 'F'
}

/// What stands before a dash and eight hexadecimal digits at the end.
pub open spec fn without_id_suffix(s: Seq<char>) -> Option<Seq<char>> {
    let n = s.len();
    if n >= 9 && s[n - 9] == '-' && (forall|i: int| n - 8 <= i < n ==> is_hex(#[trigger] s[i])) {
        Some(s.take(n - 9))
    } else {
        None
    }
}

/// What is taken off a name is a dash with eight hexadecimal digits behind it.
pub proof fn law_id_suffixes_are_hexadecimal(s: Seq<char>, name: Seq<char>)
    ensures
        without_id_suffix(s) == Some(name) <==> s.len() == name.len() + 9 && name.is_prefix_of(s)
            && s[name.len() as int] == '-' && forall|i: int|
            name.len() < i < s.len() ==> {
                let c = #[trigger] s[i];
                '0' <= c <= '9' || 'a' <= c <= 'f' || 'A' <= c <= 'F'
            },
{
    let n = s.len();
    if s.len() == name.len() + 9 && name.is_prefix_of(s) {
        assert(s.take(n - 9) =~= name);
    }
    if without_id_suffix(s) == Some(name) {
        assert(name.len() == n - 9);
        assert forall|i: int| name.len() < i < s.len() implies {
            let c = #[trigger] s[i];
            '0' <= c <= '9' || 'a' <= c <= 'f' || 'A' <= c <= 'F'
        } by {
            assert(is_hex(s[i]));
        }
    }
}

/// What stands before a dash and eight hexadecimal digits at the end.
pub fn strip_id_suffix(s: &str) -> (r: Option<String>)
    ensures
        text::opt_text(r) == without_id_suffix(s@),
{
    let chars = chars_of(s);
    let n = chars.len();
    if n < 9 || chars[n - 9] != '-' {
        return None;
    }
    let mut i: usize = n - 8;
    while i < n
        invariant
            n == chars.len(),
            9 <= n,
            n - 8 <= i <= n,
            chars@ == s@,
            forall|k: int| n - 8 <= k < i ==> is_hex(#[trigger] s@[k]),
        decreases n - i,
    {
        let c = chars[i];
        if !(('0' <= c && c <= '9') || ('a' <= c && c <= 'f') || ('A' <= c && c <= 'F')) {
            assert(!is_hex(s@[i as int]));
            return None;
        }
        i += 1;
    }
    let out = text_between(&chars, 0, n - 9);
    assert(out@ == s@.take(n - 9));
    Some(out)
}

/// Which repository a name stands for: the name itself, then the last name of the root
/// that is registered under it, then the name without its suffix, as far as the graph
/// holds each.
pub open spec fn meant_repository(
    requested: Seq<char>,
    known: bool,
    basename: Option<Seq<char>>,
    basename_known: bool,
    stripped_known: bool,
) -> Option<Seq<char>> {
    if known {
        Some(requested)
    } else if basename is Some && basename_known {
        basename
    } else if stripped_known {
        without_id_suffix(requested)
    } else {
        None
    }
}

/// The refusal of a name that stands for no repository.
pub open spec fn no_repository(requested: Seq<char>, available: Seq<Seq<char>>) -> Seq<char> {
    if available.len() == 0 {
        "context: no repositories in graph database. Run `marrow index` first."@
    } else {
        "context: --repo '"@ + requested + "' does not match any repo in the graph. Available: "@
            + text::joined(available, ", "@)
    }
}

/// The refusal of a name that stands for no repository.
pub fn refuse_repository(requested: &str, available: &Vec<String>) -> (r: String)
    ensures
        r@ == no_repository(requested@, text::texts(available@)),
{
    if available.len() == 0 {
        return "context: no repositories in graph database. Run `marrow index` first.".to_owned();
    }
    "context: --repo '".to_owned().concat(requested).concat(
        "' does not match any repo in the graph. Available: ",
    ).concat(&join(available, ", "))
}

/// The first texts of the rows of a table.
pub open spec fn first_column(rows: Seq<Seq<Seq<char>>>) -> Seq<Seq<char>> {
    Seq::new(rows.len(), |i: int| rows[i][0])
}

fn take_column(rows: &Vec<Vec<String>>) -> (r: Vec<String>)
    requires
        forall|i: int| 0 <= i < rows.len() ==> #[trigger] rows@[i].len() == 1,
    ensures
        text::texts(r@) == first_column(store::table(rows@)),
{
    let mut out: Vec<String> = Vec::new();
    let mut i: usize = 0;
    while i < rows.len()
        invariant
            i <= rows.len(),
            forall|k: int| 0 <= k < rows.len() ==> #[trigger] rows@[k].len() == 1,
            out.len() == i,
            forall|k: int|
                0 <= k < i ==> (#[trigger] out@[k])@ == store::table(rows@)[k][0],
        decreases rows.len() - i,
    {
        assert(rows@[i as int].len() == 1);
        out.push(rows[i][0].clone());
        i += 1;
    }
    assert(text::texts(out@) =~= first_column(store::table(rows@)));
    out
}

/// The last name of a root.
pub open spec fn root_name(root: Option<Seq<char>>) -> Option<Seq<char>> {
    match root {
        Some(r) => paths::last_name(r),
        None => None,
    }
}

/// Whether a database could say so of a name: whether it holds a repository of it. Where
/// there is no name, there is no such repository.
pub open spec fn could_tell(db: rusqlite::Connection, id: Option<Seq<char>>, held: bool) -> bool {
    match id {
        Some(id) => if held {
            could_hold(db, id)
        } else {
            could_lack(db, id)
        },
        None => !held,
    }
}

/// Whether a database could make a name stand for this repository, or refuse it so.
pub open spec fn could_mean(
    db: rusqlite::Connection,
    requested: Seq<char>,
    basename: Option<Seq<char>>,
    known: bool,
    basename_known: bool,
    stripped_known: bool,
    r: Result<String, MarrowError>,
) -> bool {
    &&& could_tell(db, Some(requested), known)
    &&& !known ==> could_tell(db, basename, basename_known)
    &&& !known && !basename_known ==> could_tell(
        db,
        without_id_suffix(requested),
        stripped_known,
    )
    &&& match meant_repository(requested, known, basename, basename_known, stripped_known) {
        Some(id) => r matches Ok(v) && v@ == id,
        None => match r {
            Ok(_) => false,
            Err(MarrowError::Store(why)) => store::could_refuse(
                db,
                REPOSITORY_IDS@,
                Seq::empty(),
                why,
            ),
            Err(MarrowError::Message(m)) => exists|
                answer: Seq<Result<Vec<store::Cell>, rusqlite::Error>>,
            |
                {
                    &&& #[trigger] store::could_answer(db, REPOSITORY_IDS@, Seq::empty(), answer)
                    &&& m@ == no_repository(requested, first_column(store::text_rows(answer, 1)))
                },
        },
    }
}

/// The repository that is meant is one that the database could hold: the one that was
/// asked for, else the one called after the workspace, else the one whose name has no id
/// behind it.
pub proof fn law_the_repository_that_is_meant_is_held(
    db: rusqlite::Connection,
    requested: Seq<char>,
    basename: Option<Seq<char>>,
    known: bool,
    basename_known: bool,
    stripped_known: bool,
    r: Result<String, MarrowError>,
)
    requires
        could_mean(db, requested, basename, known, basename_known, stripped_known, r),
    ensures
        r matches Ok(id) ==> could_hold(db, id@),
        known ==> (r matches Ok(id) && id@ == requested),
        !known && basename_known ==> (r matches Ok(id) && Some(id@) == basename),
        !known && !basename_known && stripped_known ==> (r matches Ok(id) && Some(id@)
            == without_id_suffix(requested)),
        !known && !basename_known && !stripped_known ==> r is Err,
{
}

/// Finds the repository that a name stands for. The name may also be that of a
/// registered workspace, whose root is then given.
pub fn resolve_context_repo_id(
    conn: &rusqlite::Connection,
    requested: &str,
    registered_root: Option<&str>,
) -> (r: Result<String, MarrowError>)
    ensures
        exists|known: bool, basename_known: bool, stripped_known: bool| #[trigger]
            could_mean(
                *conn,
                requested@,
                root_name(text::opt_str(registered_root)),
                known,
                basename_known,
                stripped_known,
                r,
            ),
{
    let ghost base = root_name(text::opt_str(registered_root));
    if holds_repository(conn, requested) {
        let r: Result<String, MarrowError> = Ok(requested.to_owned());
        assert(could_mean(*conn, requested@, base, true, false, false, r));
        return r;
    }
    let basename: Option<String> = match registered_root {
        Some(root) => file_name(root),
        None => None,
    };
    match basename {
        Some(name) => {
            if holds_repository(conn, &name) {
                let r: Result<String, MarrowError> = Ok(name);
                assert(could_mean(*conn, requested@, base, false, true, false, r));
                return r;
            }
        },
        None => {},
    }
    match strip_id_suffix(requested) {
        Some(prefix) => {
            if holds_repository(conn, &prefix) {
                let r: Result<String, MarrowError> = Ok(prefix);
                assert(could_mean(*conn, requested@, base, false, false, true, r));
                return r;
            }
        },
        None => {},
    }
    let params: Vec<Param> = Vec::new();
    assert(store::bounds(params@) =~= Seq::empty());
    let r: Result<String, MarrowError> = match select(conn, REPOSITORY_IDS, params) {
        Ok(answer) => {
            let available = take_column(&keep_text_rows(&answer, 1));
            assert(store::could_answer(*conn, REPOSITORY_IDS@, Seq::empty(), answer@));
            Err(MarrowError::Message(refuse_repository(requested, &available)))
        },
        Err(e) => Err(MarrowError::Store(e)),
    };
    assert(could_mean(*conn, requested@, base, false, false, false, r));
    r
}

// ── Checking every capsule ───────────────────────────────────────────────────

pub const ALL_SYMBOLS: &'static str =
    "SELECT DISTINCT repo_id, symbol_name FROM nodes ORDER BY repo_id, symbol_name";

/// The repositories and symbols of the graph, as far as they can be read.
pub fn graph_symbols(conn: &rusqlite::Connection) -> (r: Result<Vec<Vec<String>>, MarrowError>)
    ensures
        match r {
            Ok(pairs) => (forall|i: int| 0 <= i < pairs.len() ==> #[trigger] pairs@[i].len() == 2)
                && exists|answer: Seq<Result<Vec<store::Cell>, rusqlite::Error>>|
                {
                    &&& #[trigger] store::could_answer(*conn, ALL_SYMBOLS@, Seq::empty(), answer)
                    &&& store::table(pairs@) == store::text_rows(answer, 2)
                },
            Err(e) => e matches MarrowError::Store(why) && store::could_refuse(
                *conn,
                ALL_SYMBOLS@,
                Seq::empty(),
                why,
            ),
        },
{
    let params: Vec<Param> = Vec::new();
    assert(store::bounds(params@) =~= Seq::empty());
    match select(conn, ALL_SYMBOLS, params) {
        Ok(answer) => {
            assert(store::could_answer(*conn, ALL_SYMBOLS@, Seq::empty(), answer@));
            Ok(keep_text_rows(&answer, 2))
        },
        Err(e) => Err(MarrowError::Store(e)),
    }
}

/// How many of the first `n` checks went wrong.
pub open spec fn failures(passed: Seq<bool>, n: int) -> nat
    decreases n,
{
    if n <= 0 {
        0
    } else if passed[n - 1] {
        failures(passed, n - 1)
    } else {
        failures(passed, n - 1) + 1
    }
}

/// The failures are as many as the checks that did not pass.
pub proof fn law_failures_are_what_did_not_pass(passed: Seq<bool>)
    ensures
        failures(passed, passed.len() as int) == passed.filter(|b: bool| !b).len(),
{
    let failed = |b: bool| !b;
    lemma_failures(passed, passed.len() as int, failed);
    assert(passed.take(passed.len() as int) =~= passed);
}

proof fn lemma_failures(passed: Seq<bool>, n: int, failed: spec_fn(bool) -> bool)
    requires
        0 <= n <= passed.len(),
        forall|b: bool| #[trigger] failed(b) == !b,
    ensures
        failures(passed, n) == passed.take(n).filter(failed).len(),
    decreases n,
{
    reveal(Seq::filter);
    if n > 0 {
        lemma_failures(passed, n - 1, failed);
        assert(passed.take(n).drop_last() =~= passed.take(n - 1));
        assert(passed.take(n).last() == passed[n - 1]);
    }
}

/// The totals of a check of every capsule.
pub struct CapsuleTotals {
    pub summary: String,
    /// Why the check as a whole failed, if it did.
    pub failure: Option<String>,
}

/// Sums up a check of every capsule.
pub fn capsule_totals(passed: &Vec<bool>) -> (r: CapsuleTotals)
    ensures
        ({
            let total = passed@.len();
            let err = failures(passed@, total as int);
            &&& r.summary@ == "total: "@ + text::decimal(total) + "  ok: "@ + text::decimal(
                (total - err) as nat,
            ) + "  err: "@ + text::decimal(err)
            &&& text::opt_text(r.failure) == if err > 0 {
                Some(text::decimal(err) + " capsule(s) failed"@)
            } else {
                None
            }
        }),
{
    let mut err: usize = 0;
    let mut i: usize = 0;
    while i < passed.len()
        invariant
            i <= passed.len(),
            err == failures(passed@, i as int),
            err <= i,
        decreases passed.len() - i,
    {
        if !passed[i] {
            err += 1;
        }
        i += 1;
    }
    let ok: usize = passed.len() - err;
    let summary = "total: ".to_owned().concat(&count_text(passed.len())).concat("  ok: ").concat(
        &count_text(ok),
    ).concat("  err: ").concat(&count_text(err));
    let failure: Option<String> = if err > 0 {
        Some(count_text(err).concat(" capsule(s) failed"))
    } else {
        None
    };
    CapsuleTotals { summary, failure }
}

// ── A session of the server ──────────────────────────────────────────────────

/// How an activity ended.
#[derive(Clone, Copy, Debug, PartialEq, Eq, Structural)]
pub enum ActivityState {
    Stopped,
    Error,
}

/// How a session of the server ended.
pub fn mcp_session_finish_state<E>(server_result: &Result<(), E>) -> (r: ActivityState)
    ensures
        r == if server_result is Ok {
            ActivityState::Stopped
        } else {
            ActivityState::Error
        },
{
    match server_result {
        Ok(_) => ActivityState::Stopped,
        Err(_) => ActivityState::Error,
    }
}

/// What is said of a session that ended.
pub fn session_detail(state: ActivityState) -> (r: &'static str)
    ensures
        r@ == match state {
            ActivityState::Stopped => "stdio session disconnected"@,
            ActivityState::Error => "stdio session error"@,
        },
{
    match state {
        ActivityState::Stopped => "stdio session disconnected",
        ActivityState::Error => "stdio session error",
    }
}

} // verus!
