//! The performance harness: its arguments and what it reports.
use crate::bench::BenchmarkMeasurement;
use crate::cli;
use crate::cli::is_help;
use crate::json;
use crate::json::{object_value, text_value, Json, Value};
use crate::store;
use crate::store::{bind_one, read_first_text, select, MarrowError};
use crate::text;
use crate::text::{count_text, decimal_text, same};
use crate::tools::{new_object, push_member};
use vstd::prelude::*;
use vstd::string::*;

verus! {

/// Where the harness keeps its graph unless something else is asked for.
pub const DEFAULT_PERF_DB: &'static str = ".marrow/perf-graph.db";

/// What the harness is asked to do.
pub struct PerfArgs {
    pub root: Option<String>,
    pub repo_id: Option<String>,
    pub db_path: String,
    pub symbol: Option<String>,
    pub fresh: bool,
    pub json_mode: bool,
    pub precise_file_tokens: bool,
}

/// The content of the harness's arguments.
#[verifier::ext_equal]
pub ghost struct PerfText {
    pub root: Option<Seq<char>>,
    pub repo_id: Option<Seq<char>>,
    pub db_path: Seq<char>,
    pub symbol: Option<Seq<char>>,
    pub fresh: bool,
    pub json_mode: bool,
    pub precise_file_tokens: bool,
}

impl View for PerfArgs {
    type V = PerfText;

    open spec fn view(&self) -> PerfText {
        PerfText {
            root: text::opt_text(self.root),
            repo_id: text::opt_text(self.repo_id),
            db_path: self.db_path@,
            symbol: text::opt_text(self.symbol),
            fresh: self.fresh,
            json_mode: self.json_mode,
            precise_file_tokens: self.precise_file_tokens,
        }
    }
}

/// What an argument that takes a value is called when the value is missing.
pub open spec fn wanted_value(word: Seq<char>) -> Option<Seq<char>> {
    if word == "--root"@ || word == "--db"@ {
        Some("path"@)
    } else if word == "--repo-id"@ || word == "--symbol"@ {
        Some("value"@)
    } else {
        None
    }
}

fn find_wanted_value(word: &str) -> (r: Option<&'static str>)
    ensures
        text::opt_str(r) == wanted_value(word@),
{
    if same(word, "--root") || same(word, "--db") {
        Some("path")
    } else if same(word, "--repo-id") || same(word, "--symbol") {
        Some("value")
    } else {
        None
    }
}

/// What is asked once an argument has its value.
pub open spec fn with_value(said: PerfText, word: Seq<char>, value: Seq<char>) -> PerfText {
    if word == "--root"@ {
        PerfText { root: Some(value), ..said }
    } else if word == "--db"@ {
        PerfText { db_path: value, ..said }
    } else if word == "--repo-id"@ {
        PerfText { repo_id: Some(value), ..said }
    } else {
        PerfText { symbol: Some(value), ..said }
    }
}

fn set_value(said: PerfArgs, word: &str, value: &String) -> (r: PerfArgs)
    ensures
        r@ == with_value(said@, word@, value@),
{
    if same(word, "--root") {
        PerfArgs { root: Some(value.clone()), ..said }
    } else if same(word, "--db") {
        PerfArgs { db_path: value.clone(), ..said }
    } else if same(word, "--repo-id") {
        PerfArgs { repo_id: Some(value.clone()), ..said }
    } else {
        PerfArgs { symbol: Some(value.clone()), ..said }
    }
}

/// What is asked once a switch is set; nothing for a word that is no switch.
pub open spec fn with_switch(said: PerfText, word: Seq<char>) -> Option<PerfText> {
    if word == "--fresh"@ {
        Some(PerfText { fresh: true, ..said })
    } else if word == "--json"@ {
        Some(PerfText { json_mode: true, ..said })
    } else if word == "--precise-file-tokens"@ {
        Some(PerfText { precise_file_tokens: true, ..said })
    } else {
        None
    }
}

fn set_switch(said: PerfArgs, word: &str) -> (r: Option<PerfArgs>)
    ensures
        match r {
            Some(a) => with_switch(said@, word@) == Some(a@),
            None => with_switch(said@, word@) is None,
        },
{
    if same(word, "--fresh") {
        Some(PerfArgs { fresh: true, ..said })
    } else if same(word, "--json") {
        Some(PerfArgs { json_mode: true, ..said })
    } else if same(word, "--precise-file-tokens") {
        Some(PerfArgs { precise_file_tokens: true, ..said })
    } else {
        None
    }
}

/// What the arguments ask for from the one at `i` on, or why they are refused.
pub open spec fn perf_from(args: Seq<Seq<char>>, i: int, said: PerfText) -> Result<
    PerfText,
    Seq<char>,
>
    decreases args.len() - i,
{
    if i >= args.len() {
        Ok(said)
    } else {
        match wanted_value(args[i]) {
            Some(kind) => if i + 1 >= args.len() {
                Err("perf-harness: "@ + args[i] + " requires a "@ + kind)
            } else {
                perf_from(args, i + 2, with_value(said, args[i], args[i + 1]))
            },
            None => match with_switch(said, args[i]) {
                Some(next) => perf_from(args, i + 1, next),
                None => Err(
                    "perf-harness: unknown argument `"@ + args[i] + "` (try --help)"@,
                ),
            },
        }
    }
}

/// The arguments are read one after the other: each switch turns on what it names, and
/// each option sets what it names to the word behind it, which is required.
pub proof fn law_perf_arguments_are_read_in_order(
    word: Seq<char>,
    value: Seq<char>,
    rest: Seq<Seq<char>>,
    said: PerfText,
)
    ensures
        word == "--root"@ ==> perf_from(seq![word, value] + rest, 0, said) == perf_from(
            rest,
            0,
            PerfText { root: Some(value), ..said },
        ),
        word == "--db"@ ==> perf_from(seq![word, value] + rest, 0, said) == perf_from(
            rest,
            0,
            PerfText { db_path: value, ..said },
        ),
        word == "--repo-id"@ ==> perf_from(seq![word, value] + rest, 0, said) == perf_from(
            rest,
            0,
            PerfText { repo_id: Some(value), ..said },
        ),
        word == "--symbol"@ ==> perf_from(seq![word, value] + rest, 0, said) == perf_from(
            rest,
            0,
            PerfText { symbol: Some(value), ..said },
        ),
        word == "--fresh"@ ==> perf_from(seq![word] + rest, 0, said) == perf_from(
            rest,
            0,
            PerfText { fresh: true, ..said },
        ),
        word == "--json"@ ==> perf_from(seq![word] + rest, 0, said) == perf_from(
            rest,
            0,
            PerfText { json_mode: true, ..said },
        ),
        word == "--precise-file-tokens"@ ==> perf_from(seq![word] + rest, 0, said) == perf_from(
            rest,
            0,
            PerfText { precise_file_tokens: true, ..said },
        ),
        word == "--root"@ || word == "--db"@ || word == "--repo-id"@ || word == "--symbol"@
            ==> perf_from(seq![word], 0, said) is Err,
        perf_from(Seq::empty(), 0, said) == Ok::<PerfText, Seq<char>>(said),
{
    reveal_strlit("--root");
    reveal_strlit("--db");
    reveal_strlit("--repo-id");
    reveal_strlit("--symbol");
    reveal_strlit("--fresh");
    reveal_strlit("--json");
    reveal_strlit("--precise-file-tokens");
    let one = seq![word] + rest;
    let two = seq![word, value] + rest;
    assert(one[0] == word && two[0] == word && two[1] == value);
    lemma_perf_behind(seq![word, value], rest, 0, PerfText { root: Some(value), ..said });
    lemma_perf_behind(seq![word, value], rest, 0, PerfText { db_path: value, ..said });
    lemma_perf_behind(seq![word, value], rest, 0, PerfText { repo_id: Some(value), ..said });
    lemma_perf_behind(seq![word, value], rest, 0, PerfText { symbol: Some(value), ..said });
    lemma_perf_behind(seq![word], rest, 0, PerfText { fresh: true, ..said });
    lemma_perf_behind(seq![word], rest, 0, PerfText { json_mode: true, ..said });
    lemma_perf_behind(seq![word], rest, 0, PerfText { precise_file_tokens: true, ..said });
    if word == "--repo-id"@ || word == "--symbol"@ {
        assert(word.len() != "--root"@.len() && word.len() != "--db"@.len());
        assert("--repo-id"@.len() != "--symbol"@.len());
    }
    if word == "--db"@ {
        assert(word.len() != "--root"@.len());
    }
    if word == "--fresh"@ || word == "--json"@ || word == "--precise-file-tokens"@ {
        assert("--fresh"@[2] != "--root"@[2] && "--json"@[2] != "--root"@[2]
            && "--precise-file-tokens"@[2] != "--root"@[2]);
        assert(word[2] != "--db"@[2] && word[2] != "--repo-id"@[2] && word[2] != "--symbol"@[2]);
        assert("--fresh"@[2] != "--json"@[2] && "--fresh"@[2] != "--precise-file-tokens"@[2]
            && "--json"@[2] != "--precise-file-tokens"@[2]);
    }
}

/// What stands before some arguments does not change how they are read.
proof fn lemma_perf_behind(front: Seq<Seq<char>>, rest: Seq<Seq<char>>, k: int, said: PerfText)
    requires
        0 <= k,
    ensures
        perf_from(front + rest, front.len() + k, said) == perf_from(rest, k, said),
    decreases rest.len() - k,
{
    if k < rest.len() {
        let args = front + rest;
        let i = front.len() + k;
        assert(args[i] == rest[k]);
        if wanted_value(rest[k]) is Some {
            if k + 1 < rest.len() {
                assert(args[i + 1] == rest[k + 1]);
                lemma_perf_behind(front, rest, k + 2, with_value(said, rest[k], rest[k + 1]));
            }
        } else {
            let next = with_switch(said, rest[k]);
            if next is Some {
                lemma_perf_behind(front, rest, k + 1, next->Some_0);
            }
        }
    }
}

/// What is asked before any argument.
pub open spec fn perf_defaults() -> PerfText {
    PerfText {
        root: None,
        repo_id: None,
        db_path: DEFAULT_PERF_DB@,
        symbol: None,
        fresh: false,
        json_mode: false,
        precise_file_tokens: false,
    }
}

/// Reads the harness's arguments; nothing where the first asks for help.
pub fn parse_perf_args(args: &Vec<String>) -> (r: Result<Option<PerfArgs>, String>)
    ensures
        ({
            let all = text::texts(args@);
            if all.len() > 0 && cli::asks_help(all[0]) {
                r matches Ok(None)
            } else {
                match perf_from(all, 0, perf_defaults()) {
                    Ok(said) => r matches Ok(Some(a)) && a@ == said,
                    Err(why) => r matches Err(m) && m@ == why,
                }
            }
        }),
{
    let ghost all = text::texts(args@);
    if args.len() > 0 {
        assert(all[0] == args@[0]@);
        if is_help(&args[0]) {
            return Ok(None);
        }
    }
    let mut said = PerfArgs {
        root: None,
        repo_id: None,
        db_path: DEFAULT_PERF_DB.to_owned(),
        symbol: None,
        fresh: false,
        json_mode: false,
        precise_file_tokens: false,
    };
    assert(said@ =~= perf_defaults());
    let mut i: usize = 0;
    while i < args.len()
        invariant
            i <= args.len(),
            all == text::texts(args@),
            !(all.len() > 0 && cli::asks_help(all[0])),
            perf_from(all, 0, perf_defaults()) == perf_from(all, i as int, said@),
        decreases args.len() - i,
    {
        assert(all[i as int] == args@[i as int]@);
        match find_wanted_value(&args[i]) {
            Some(kind) => {
                if i + 1 >= args.len() {
                    return Err(
                        "perf-harness: ".to_owned().concat(&args[i]).concat(
                            " requires a ",
                        ).concat(kind),
                    );
                }
                assert(all[i + 1] == args@[i + 1]@);
                said = set_value(said, &args[i], &args[i + 1]);
                i += 2;
            },
            None => {
                match set_switch(said, &args[i]) {
                    Some(next) => {
                        said = next;
                    },
                    None => {
                        return Err(
                            "perf-harness: unknown argument `".to_owned().concat(
                                &args[i],
                            ).concat("` (try --help)"),
                        );
                    },
                }
                i += 1;
            },
        }
    }
    Ok(Some(said))
}

/// The files that a graph is kept in: the database and what stands beside it.
pub fn database_files(db_path: &str) -> (r: Vec<String>)
    ensures
        text::texts(r@) == seq![db_path@, db_path@ + "-wal"@, db_path@ + "-shm"@],
{
    let out = vec![
        db_path.to_owned(),
        db_path.to_owned().concat("-wal"),
        db_path.to_owned().concat("-shm"),
    ];
    assert(text::texts(out@) =~= seq![db_path@, db_path@ + "-wal"@, db_path@ + "-shm"@]);
    out
}

pub const FIRST_SYMBOL: &'static str = "SELECT symbol_name FROM nodes WHERE repo_id = ?1 LIMIT 1";

pub const NO_SYMBOLS: &'static str =
    "perf-harness: no symbols in graph (empty repo or ingest produced no nodes); pass --symbol after a known ingest";

/// Whether a database could name this symbol first.
pub open spec fn could_name_first(
    db: rusqlite::Connection,
    repo_id: Seq<char>,
    symbol: Seq<char>,
) -> bool {
    exists|answer: Seq<Result<Vec<store::Cell>, rusqlite::Error>>|
        {
            &&& #[trigger] store::could_answer(db, FIRST_SYMBOL@, store::one_text(repo_id), answer)
            &&& store::first_text(answer) == Some(symbol)
        }
}

/// The symbol that is asked about: the one that was named, or the first of the graph.
pub fn query_symbol(
    conn: &rusqlite::Connection,
    repo_id: &str,
    named: Option<String>,
) -> (r: Result<String, MarrowError>)
    ensures
        match named {
            Some(symbol) => r matches Ok(s) && s@ == symbol@,
            None => match r {
                Ok(s) => could_name_first(*conn, repo_id@, s@),
                Err(MarrowError::Message(m)) => m@ == NO_SYMBOLS@ && store::could_lack_text(
                    *conn,
                    FIRST_SYMBOL@,
                    store::one_text(repo_id@),
                ),
                Err(MarrowError::Store(_)) => false,
            },
        },
{
    match named {
        Some(symbol) => Ok(symbol),
        None => match select(conn, FIRST_SYMBOL, bind_one(repo_id)) {
            Ok(answer) => {
                assert(store::could_answer(
                    *conn,
                    FIRST_SYMBOL@,
                    store::one_text(repo_id@),
                    answer@,
                ));
                match read_first_text(&answer) {
                    Some(s) => Ok(s),
                    None => Err(MarrowError::Message(NO_SYMBOLS.to_owned())),
                }
            },
            Err(why) => {
                assert(store::could_refuse(
                    *conn,
                    FIRST_SYMBOL@,
                    store::one_text(repo_id@),
                    why,
                ));
                Err(MarrowError::Message(NO_SYMBOLS.to_owned()))
            },
        },
    }
}

// ── The report ───────────────────────────────────────────────────────────────

/// What a run of the harness found, beside its measurement.
pub struct PerfRun {
    pub repo_id: String,
    pub root: String,
    pub db_path: String,
    pub ingest_wall_ms: u64,
    pub query_wall_ms: u64,
    pub symbols: usize,
    pub edges: usize,
    pub query_symbol: String,
    pub db_file_bytes: u64,
    pub max_rss_bytes: Option<u64>,
    pub version: String,
    pub git_sha: Option<String>,
    pub git_dirty: bool,
}

/// A number, or nothing.
pub open spec fn opt_count(n: Option<u64>) -> Value {
    match n {
        Some(v) => Value::Count(v),
        None => Value::Null,
    }
}

/// A size, or nothing.
pub open spec fn opt_size(n: Option<usize>) -> Value {
    match n {
        Some(v) => Value::Count(v as u64),
        None => Value::Null,
    }
}

/// A text, or nothing.
pub open spec fn opt_string(s: Option<Seq<char>>) -> Value {
    match s {
        Some(v) => Value::Text(v),
        None => Value::Null,
    }
}

fn count_or_null(n: Option<u64>) -> (r: Json)
    ensures
        r@ == opt_count(n),
{
    match n {
        Some(v) => Json::Count(v),
        None => Json::Null,
    }
}

fn size_or_null(n: Option<usize>) -> (r: Json)
    ensures
        r@ == opt_size(n),
{
    match n {
        Some(v) => Json::Count(v as u64),
        None => Json::Null,
    }
}

fn text_or_null(s: &Option<String>) -> (r: Json)
    ensures
        r@ == opt_string(text::opt_text(*s)),
{
    match s {
        Some(v) => text_value(v),
        None => Json::Null,
    }
}

/// The members of a run's report.
pub open spec fn perf_members(run: PerfRun, measured: BenchmarkMeasurement) -> Seq<
    (Seq<char>, Value),
> {
    seq![
        ("schema_version"@, Value::Count(1)),
        ("repo_id"@, Value::Text(run.repo_id@)),
        ("root"@, Value::Text(run.root@)),
        ("db_path"@, Value::Text(run.db_path@)),
        ("ingest_wall_ms"@, Value::Count(run.ingest_wall_ms)),
        ("query_wall_ms"@, Value::Count(run.query_wall_ms)),
        ("symbols"@, Value::Count(run.symbols as u64)),
        ("edges"@, Value::Count(run.edges as u64)),
        ("query_symbol"@, Value::Text(run.query_symbol@)),
        ("baseline_file_tokens"@, Value::Count(measured.file_tokens as u64)),
        ("capsule_tokens"@, Value::Count(measured.capsule_tokens as u64)),
        ("baseline_token_source"@, Value::Text(measured.provenance.baseline_token_source@)),
        ("tokenizer_mode"@, Value::Text(measured.provenance.tokenizer_mode@)),
        ("original_mode"@, Value::Text(measured.provenance.original_mode@)),
        ("proof_mode"@, Value::Text(measured.provenance.proof_label@)),
        ("precise_file_tokens"@, Value::Bool(measured.provenance.precise_file_tokens)),
        ("original_max_bytes"@, opt_size(measured.provenance.original_max_bytes)),
        ("proof_max_bytes"@, Value::Count(measured.provenance.proof_max_bytes as u64)),
        ("proof_max_files"@, Value::Count(measured.provenance.proof_max_files as u64)),
        ("touched_file_count"@, Value::Count(measured.provenance.touched_file_count as u64)),
        ("db_file_bytes"@, Value::Count(run.db_file_bytes)),
        ("rusage_max_rss_bytes"@, opt_count(run.max_rss_bytes)),
        ("marrow_version"@, Value::Text(run.version@)),
        ("marrow_git_sha"@, opt_string(text::opt_text(run.git_sha))),
        ("marrow_git_dirty"@, Value::Bool(run.git_dirty)),
    ]
}

/// The report of a run.
pub fn perf_payload(run: &PerfRun, measured: &BenchmarkMeasurement) -> (r: Json)
    ensures
        r@ == Value::Object(perf_members(*run, *measured)),
{
    let mut out = new_object();
    push_member(&mut out, "schema_version", Json::Count(1));
    push_member(&mut out, "repo_id", text_value(&run.repo_id));
    push_member(&mut out, "root", text_value(&run.root));
    push_member(&mut out, "db_path", text_value(&run.db_path));
    push_member(&mut out, "ingest_wall_ms", Json::Count(run.ingest_wall_ms));
    push_member(&mut out, "query_wall_ms", Json::Count(run.query_wall_ms));
    push_member(&mut out, "symbols", Json::Count(run.symbols as u64));
    push_member(&mut out, "edges", Json::Count(run.edges as u64));
    push_member(&mut out, "query_symbol", text_value(&run.query_symbol));
    push_member(&mut out, "baseline_file_tokens", Json::Count(measured.file_tokens as u64));
    push_member(&mut out, "capsule_tokens", Json::Count(measured.capsule_tokens as u64));
    push_member(&mut out, "baseline_token_source", text_value(&measured.provenance.baseline_token_source));
    push_member(&mut out, "tokenizer_mode", text_value(&measured.provenance.tokenizer_mode));
    push_member(&mut out, "original_mode", text_value(&measured.provenance.original_mode));
    push_member(&mut out, "proof_mode", text_value(&measured.provenance.proof_label));
    push_member(&mut out, "precise_file_tokens", Json::Bool(measured.provenance.precise_file_tokens));
    push_member(&mut out, "original_max_bytes", size_or_null(measured.provenance.original_max_bytes));
    push_member(&mut out, "proof_max_bytes", Json::Count(measured.provenance.proof_max_bytes as u64));
    push_member(&mut out, "proof_max_files", Json::Count(measured.provenance.proof_max_files as u64));
    push_member(&mut out, "touched_file_count", Json::Count(measured.provenance.touched_file_count as u64));
    push_member(&mut out, "db_file_bytes", Json::Count(run.db_file_bytes));
    push_member(&mut out, "rusage_max_rss_bytes", count_or_null(run.max_rss_bytes));
    push_member(&mut out, "marrow_version", text_value(&run.version));
    push_member(&mut out, "marrow_git_sha", text_or_null(&run.git_sha));
    push_member(&mut out, "marrow_git_dirty", Json::Bool(run.git_dirty));
    assert(json::members(out@) =~= perf_members(*run, *measured));
    object_value(out)
}

/// The line that a run is summed up in.
pub open spec fn perf_line_text(run: PerfRun) -> Seq<char> {
    "[perf-harness] ingest: "@ + text::decimal(run.ingest_wall_ms as nat) + " ms | query: "@
        + text::decimal(run.query_wall_ms as nat) + " ms | symbols: "@ + text::decimal(
        run.symbols as nat,
    ) + " | edges: "@ + text::decimal(run.edges as nat) + " | db_bytes: "@ + text::decimal(
        run.db_file_bytes as nat,
    ) + " | ru_maxrss: "@ + match run.max_rss_bytes {
        Some(n) => "Some("@ + text::decimal(n as nat) + ")"@,
        None => "None"@,
    }
}

/// The line that a run is summed up in.
pub fn perf_line(run: &PerfRun) -> (r: String)
    ensures
        r@ == perf_line_text(*run),
{
    let rss: String = match run.max_rss_bytes {
        Some(n) => "Some(".to_owned().concat(&decimal_text(n)).concat(")"),
        None => "None".to_owned(),
    };
    "[perf-harness] ingest: ".to_owned().concat(&decimal_text(run.ingest_wall_ms)).concat(
        " ms | query: ",
    ).concat(&decimal_text(run.query_wall_ms)).concat(" ms | symbols: ").concat(
        &count_text(run.symbols),
    ).concat(" | edges: ").concat(&count_text(run.edges)).concat(" | db_bytes: ").concat(
        &decimal_text(run.db_file_bytes),
    ).concat(" | ru_maxrss: ").concat(&rss)
}

} // verus!
