//! The rule files of a workspace: which there are, and what is written into them.
use crate::paths;
use crate::paths::join_path;
use crate::scan;
use crate::scan::{contains, to_lowercase};
use crate::text;
use vstd::prelude::*;
use vstd::string::*;

verus! {

/// How a rule file is written.
#[derive(Clone, Copy, Debug, PartialEq, Eq, Structural)]
pub enum WriteMode {
    SafeAppend,
    Overwrite,
    Symlink,
}

/// What shows that a file holds the server's rules.
pub const MARROW_HEADER: &'static str = "# MARROW AST CONTEXT ENGINE";

// ── Files ────────────────────────────────────────────────────────────────────

/// The rule files of a group of agents, by the group's number.
pub open spec fn group_files(group: usize) -> Seq<Seq<char>> {
    if group == 0 {
        seq![".cursorrules"@]
    } else if group == 1 {
        seq![".windsurfrules"@]
    } else if group == 2 {
        seq![".clinerules"@, ".roomrules"@]
    } else {
        Seq::empty()
    }
}

/// The number of groups.
pub const RULE_GROUPS: usize = 3;

/// The numbers of all groups.
pub fn workspace_rule_target_indices() -> (r: Vec<usize>)
    ensures
        r@ == seq![0usize, 1usize, 2usize],
{
    let out = vec![0usize, 1usize, 2usize];
    assert(out@ =~= seq![0usize, 1usize, 2usize]);
    out
}

/// The rule files of the first `n` groups of a list; a number that no group has stands
/// for none.
pub open spec fn files_of(groups: Seq<usize>, n: int) -> Seq<Seq<char>>
    decreases n,
{
    if n <= 0 {
        Seq::empty()
    } else {
        files_of(groups, n - 1) + group_files(groups[n - 1])
    }
}

/// Every group that is listed has its own files, in the order of the list; a number that
/// no group has adds none.
pub proof fn law_every_group_has_its_files(groups: Seq<usize>)
    ensures
        files_of(groups, groups.len() as int) == groups.flat_map(
            |g: usize|
                if g == 0 {
                    seq![".cursorrules"@]
                } else if g == 1 {
                    seq![".windsurfrules"@]
                } else if g == 2 {
                    seq![".clinerules"@, ".roomrules"@]
                } else {
                    Seq::<Seq<char>>::empty()
                },
        ),
{
    let entry = |g: usize|
        if g == 0 {
            seq![".cursorrules"@]
        } else if g == 1 {
            seq![".windsurfrules"@]
        } else if g == 2 {
            seq![".clinerules"@, ".roomrules"@]
        } else {
            Seq::<Seq<char>>::empty()
        };
    lemma_files_of(groups, groups.len() as int, entry);
    assert(groups.take(groups.len() as int) =~= groups);
}

proof fn lemma_files_of(groups: Seq<usize>, n: int, entry: spec_fn(usize) -> Seq<Seq<char>>)
    requires
        0 <= n <= groups.len(),
        forall|g: usize| #[trigger] entry(g) == group_files(g),
    ensures
        files_of(groups, n) == groups.take(n).flat_map(entry),
    decreases n,
{
    if n == 0 {
        assert(groups.take(0).flat_map(entry) =~= Seq::empty());
    } else {
        lemma_files_of(groups, n - 1, entry);
        groups.lemma_flat_map_take_append(entry, n - 1);
    }
}

/// The rule files of some groups of agents.
pub fn rule_files(agent_indices: &Vec<usize>) -> (r: Vec<String>)
    ensures
        text::texts(r@) == files_of(agent_indices@, agent_indices@.len() as int),
{
    let mut out: Vec<String> = Vec::new();
    let mut i: usize = 0;
    assert(text::texts(out@) =~= Seq::empty());
    while i < agent_indices.len()
        invariant
            i <= agent_indices.len(),
            text::texts(out@) == files_of(agent_indices@, i as int),
        decreases agent_indices.len() - i,
    {
        let ghost before = text::texts(out@);
        let group: usize = agent_indices[i];
        if group == 0 {
            out.push(".cursorrules".to_owned());
        } else if group == 1 {
            out.push(".windsurfrules".to_owned());
        } else if group == 2 {
            out.push(".clinerules".to_owned());
            out.push(".roomrules".to_owned());
        }
        assert(text::texts(out@) =~= before + group_files(group));
        i += 1;
    }
    out
}

// ── Writing ──────────────────────────────────────────────────────────────────

/// What is done to a rule file.
#[derive(Clone, Debug, PartialEq, Eq)]
pub enum RuleWrite {
    /// The rules are there already.
    Skip,
    /// This is put behind what is there.
    Append(String),
    /// A new file holds this.
    Create(String),
    /// The file holds this in place of what was there.
    Replace(String),
    /// The file becomes a link to the rules that all workspaces share.
    Link,
}

/// Whether this is what is done to a rule file that holds `existing`.
pub open spec fn is_write(
    write: RuleWrite,
    existing: Option<Seq<char>>,
    content: Seq<char>,
    mode: WriteMode,
) -> bool {
    match mode {
        WriteMode::SafeAppend => match existing {
            Some(text) => if scan::holds(text, MARROW_HEADER@) {
                write == RuleWrite::Skip
            } else {
                write matches RuleWrite::Append(added) && added@ == "\n\n"@ + content
            },
            None => write matches RuleWrite::Create(written) && written@ == content,
        },
        WriteMode::Overwrite => write matches RuleWrite::Replace(written) && written@ == content,
        WriteMode::Symlink => write == RuleWrite::Link,
    }
}

/// What is done to a rule file that holds `existing`.
pub fn plan_rule_file(existing: Option<&str>, rules_content: &str, mode: WriteMode) -> (r: RuleWrite)
    ensures
        is_write(r, text::opt_str(existing), rules_content@, mode),
{
    match mode {
        WriteMode::SafeAppend => match existing {
            Some(text) => if contains(text, MARROW_HEADER) {
                RuleWrite::Skip
            } else {
                RuleWrite::Append("\n\n".to_owned().concat(rules_content))
            },
            None => RuleWrite::Create(rules_content.to_owned()),
        },
        WriteMode::Overwrite => RuleWrite::Replace(rules_content.to_owned()),
        WriteMode::Symlink => RuleWrite::Link,
    }
}

/// What a rule file holds after it was written, links aside.
pub open spec fn after_write(existing: Option<Seq<char>>, write: RuleWrite) -> Option<Seq<char>> {
    match write {
        RuleWrite::Skip => existing,
        RuleWrite::Append(added) => Some(text::text_or_empty(existing) + added@),
        RuleWrite::Create(written) => Some(written@),
        RuleWrite::Replace(written) => Some(written@),
        RuleWrite::Link => existing,
    }
}

proof fn lemma_holds_in_tail(a: Seq<char>, b: Seq<char>, part: Seq<char>)
    requires
        scan::holds(b, part),
    ensures
        scan::holds(a + b, part),
{
    let at = choose|at: int| scan::has_at(b, part, at);
    assert((a + b).subrange(a.len() + at, a.len() + at + part.len()) =~= b.subrange(
        at,
        at + part.len(),
    ));
    assert(scan::has_at(a + b, part, a.len() + at));
}

/// Appending keeps all that was there in front, puts the rules in, and is done once:
/// a file that was appended to is skipped the next time.
pub proof fn law_appending_is_safe(
    existing: Option<Seq<char>>,
    content: Seq<char>,
    first: RuleWrite,
    second: RuleWrite,
)
    requires
        scan::holds(content, MARROW_HEADER@),
        is_write(first, existing, content, WriteMode::SafeAppend),
        is_write(second, after_write(existing, first), content, WriteMode::SafeAppend),
    ensures
        after_write(existing, first) matches Some(text) && scan::holds(text, MARROW_HEADER@)
            && text::text_or_empty(existing).is_prefix_of(text),
        second == RuleWrite::Skip,
{
    let was = text::text_or_empty(existing);
    match first {
        RuleWrite::Skip => {
            assert(was.subrange(0, was.len() as int) =~= was);
        },
        RuleWrite::Append(added) => {
            lemma_holds_in_tail("\n\n"@, content, MARROW_HEADER@);
            lemma_holds_in_tail(was, added@, MARROW_HEADER@);
            assert((was + added@).subrange(0, was.len() as int) =~= was);
        },
        RuleWrite::Create(written) => {
            assert(written@.subrange(0, 0) =~= was);
        },
        _ => {},
    }
}

/// What a file holds after it was written: where appending is safe, what it held stays, and
/// the rules stand behind it unless it has them already; overwriting leaves the rules
/// alone; a link is made whatever the file held.
pub proof fn law_files_hold_the_rules_behind_what_they_held(
    existing: Option<Seq<char>>,
    content: Seq<char>,
    write: RuleWrite,
)
    ensures
        is_write(write, existing, content, WriteMode::SafeAppend) ==> after_write(existing, write)
            == Some(
            match existing {
                None => content,
                Some(held) => if scan::holds(held, "# MARROW AST CONTEXT ENGINE"@) {
                    held
                } else {
                    held + ("\n\n"@ + content)
                },
            },
        ),
        is_write(write, existing, content, WriteMode::Overwrite) ==> after_write(existing, write)
            == Some(content),
        is_write(write, existing, content, WriteMode::Symlink) ==> write == RuleWrite::Link,
{
}

/// A rule file and what is done to it.
#[derive(Clone, Debug, PartialEq, Eq)]
pub struct RuleFile {
    pub path: String,
    pub write: RuleWrite,
}

/// The texts of a list of optional ones.
pub open spec fn opt_texts(v: Seq<Option<String>>) -> Seq<Option<Seq<char>>> {
    Seq::new(v.len(), |i: int| text::opt_text(v[i]))
}

/// Whether these are the rule files of some groups of agents below a root, with what is
/// done to each.
pub open spec fn are_rule_files(
    v: Seq<RuleFile>,
    root: Seq<char>,
    groups: Seq<usize>,
    content: Seq<char>,
    mode: WriteMode,
    existing: Seq<Option<Seq<char>>>,
) -> bool {
    let files = files_of(groups, groups.len() as int);
    v.len() == files.len() && forall|i: int|
        0 <= i < v.len() ==> (#[trigger] v[i]).path@ == paths::joined_path(root, files[i])
            && is_write(v[i].write, existing[i], content, mode)
}

/// What is done to the rule files of some groups of agents below a root. `existing` is
/// what each of the files holds, in the order in which they are named.
pub fn write_workspace_rules(
    root_dir: &str,
    agent_indices: &Vec<usize>,
    rules_content: &str,
    mode: WriteMode,
    existing: &Vec<Option<String>>,
) -> (r: Vec<RuleFile>)
    requires
        existing.len() == files_of(agent_indices@, agent_indices@.len() as int).len(),
    ensures
        are_rule_files(
            r@,
            root_dir@,
            agent_indices@,
            rules_content@,
            mode,
            opt_texts(existing@),
        ),
{
    let files = rule_files(agent_indices);
    let ghost names = files_of(agent_indices@, agent_indices@.len() as int);
    let mut out: Vec<RuleFile> = Vec::new();
    let mut i: usize = 0;
    while i < files.len()
        invariant
            i <= files.len(),
            text::texts(files@) == names,
            existing.len() == names.len(),
            out.len() == i,
            forall|k: int|
                0 <= k < i ==> (#[trigger] out@[k]).path@ == paths::joined_path(
                    root_dir@,
                    names[k],
                ) && is_write(
                    out@[k].write,
                    opt_texts(existing@)[k],
                    rules_content@,
                    mode,
                ),
        decreases files.len() - i,
    {
        assert(names[i as int] == files@[i as int]@);
        let held: Option<&str> = match &existing[i] {
            Some(s) => Some(s.as_str()),
            None => None,
        };
        out.push(
            RuleFile {
                path: join_path(root_dir, &files[i]),
                write: plan_rule_file(held, rules_content, mode),
            },
        );
        i += 1;
    }
    out
}

/// Whether something is written to a file.
pub open spec fn touches_file(write: RuleWrite) -> bool {
    write != RuleWrite::Skip
}

/// The paths of the first `n` files that something is written to.
pub open spec fn touched(files: Seq<RuleFile>, n: int) -> Seq<Seq<char>>
    decreases n,
{
    if n <= 0 {
        Seq::empty()
    } else if touches_file(files[n - 1].write) {
        touched(files, n - 1).push(files[n - 1].path@)
    } else {
        touched(files, n - 1)
    }
}

/// The files that something is written to are all but the skipped ones, in order.
pub proof fn law_all_but_skipped_files_are_written(files: Seq<RuleFile>)
    ensures
        touched(files, files.len() as int) == files.filter(
            |f: RuleFile| f.write != RuleWrite::Skip,
        ).map_values(|f: RuleFile| f.path@),
{
    let keep = |f: RuleFile| f.write != RuleWrite::Skip;
    let path = |f: RuleFile| f.path@;
    lemma_touched(files, files.len() as int, keep, path);
    assert(files.take(files.len() as int) =~= files);
}

proof fn lemma_touched(
    files: Seq<RuleFile>,
    n: int,
    keep: spec_fn(RuleFile) -> bool,
    path: spec_fn(RuleFile) -> Seq<char>,
)
    requires
        0 <= n <= files.len(),
        forall|f: RuleFile| #[trigger] keep(f) == (f.write != RuleWrite::Skip),
        forall|f: RuleFile| #[trigger] path(f) == f.path@,
    ensures
        touched(files, n) == files.take(n).filter(keep).map_values(path),
    decreases n,
{
    reveal(Seq::filter);
    if n == 0 {
        assert(files.take(0).filter(keep).map_values(path) =~= Seq::empty());
    } else {
        lemma_touched(files, n - 1, keep, path);
        assert(files.take(n).drop_last() =~= files.take(n - 1));
        assert(files.take(n).last() == files[n - 1]);
        let head = files.take(n - 1).filter(keep);
        if keep(files[n - 1]) {
            assert(head.push(files[n - 1]).map_values(path) =~= head.map_values(path).push(
                files[n - 1].path@,
            ));
        }
    }
}

/// The paths of the files that something is written to.
pub fn modified_files(files: &Vec<RuleFile>) -> (r: Vec<String>)
    ensures
        text::texts(r@) == touched(files@, files@.len() as int),
{
    let mut out: Vec<String> = Vec::new();
    let mut i: usize = 0;
    assert(text::texts(out@) =~= Seq::empty());
    while i < files.len()
        invariant
            i <= files.len(),
            text::texts(out@) == touched(files@, i as int),
        decreases files.len() - i,
    {
        let skipped = match files[i].write {
            RuleWrite::Skip => true,
            _ => false,
        };
        if !skipped {
            let ghost before = out@;
            let path = files[i].path.clone();
            out.push(path);
            proof {
                text::lemma_texts_push(before, path);
            }
        }
        i += 1;
    }
    out
}

// ── Setup ────────────────────────────────────────────────────────────────────

/// Whether a text in small letters speaks of the server.
pub open spec fn is_marked(lower: Seq<char>) -> bool {
    scan::holds(lower, "marrow"@) || scan::holds(lower, "run_pipeline"@)
}

/// Whether a text in small letters speaks of the server.
pub fn speaks_of_marrow(lower: &str) -> (r: bool)
    ensures
        r == is_marked(lower@),
{
    contains(lower, "marrow") || contains(lower, "run_pipeline")
}

/// Whether what a file holds speaks of the server; nothing does where it cannot be read.
pub fn contains_marrow_marker(contents: Option<&str>) -> (r: bool)
    ensures
        r == (text::opt_str(contents) matches Some(s) && is_marked(scan::lowercase(s))),
{
    match contents {
        Some(s) => speaks_of_marrow(&to_lowercase(s)),
        None => false,
    }
}

/// Whether a workspace has been set up: its directory, its configuration and the editor's
/// are there, and every rule file speaks of the server.
pub fn workspace_is_initialized(
    has_dir: bool,
    has_config: bool,
    has_editor_config: bool,
    rules_marked: &Vec<bool>,
) -> (r: bool)
    ensures
        r == (has_dir && has_config && has_editor_config && !rules_marked@.contains(false)),
{
    if !has_dir || !has_config || !has_editor_config {
        return false;
    }
    let mut i: usize = 0;
    while i < rules_marked.len()
        invariant
            i <= rules_marked.len(),
            has_dir && has_config && has_editor_config,
            forall|k: int| 0 <= k < i ==> rules_marked@[k],
        decreases rules_marked.len() - i,
    {
        if !rules_marked[i] {
            assert(rules_marked@[i as int] == false);
            return false;
        }
        i += 1;
    }
    true
}

/// The first line of the rules that workspaces are given.
pub const RULES_HEADING: &'static str = "# MARROW AST CONTEXT ENGINE - WORKFLOW GUIDANCE\n";

/// What follows the first line of the rules.
pub const RULES_BODY: &'static str =
    "You are equipped with the 'marrow' MCP server, a local deterministic AST context engine. Prefer Marrow when the task needs code structure, dependencies, symbol neighborhoods, execution traces, repo maps, class maps, or refactor blast-radius analysis. Native read/search tools are fine for single-file lookups, exact text search, line-level work, config/docs edits, and small known files.\n\n## The Omni-Tool\nUse `run_pipeline` when graph context is likely to beat raw file reads.\n\n### Intent Routing Guide\n\n* Repository map or architecture overview:\n    * Prefer `run_pipeline` with `intent: \"analyze_repo\"`.\n\n* Partial symbol name only:\n    * Prefer `run_pipeline` with `intent: \"find_symbol\"` and `target: \"fragment\"` before falling back to `analyze_repo`.\n\n* Precise execution flow for a known symbol:\n    * Prefer `run_pipeline` with `intent: \"trace_flow\"` and the target symbol.\n\n* Three or more related symbols in one task:\n    * Prefer `run_pipeline` with `intent: \"explore_batch\"` and a `queries` array.\n\n* Multi-hop caller/callee dependency map:\n    * Prefer `run_pipeline` with `intent: \"dependency_graph\"` and the target symbol.\n\n* Full class-level architecture map:\n    * Prefer `run_pipeline` with `intent: \"map_class\"` and the target class.\n\n* Symbol neighborhood, callers, callees, or local architecture:\n    * Prefer `run_pipeline` with `intent: \"explore_symbol\"` and the target.\n\n* Refactor, rename, delete, or API change:\n    * Prefer `run_pipeline` with `intent: \"refactor_symbol\"` and the target.\n\nIf any tool states the database is empty, run `ingest_repo` to build the index.\n\n### Progressive Disclosure\nMarrow uses **Progressive Disclosure**: neighbor symbols in a capsule show signatures only.\nTo expand a neighbor into its full source, call:\n  `run_pipeline(intent: \"read_node\", target: \"<SymbolName>\")`\n\n### Handling Ambiguity\nIf `run_pipeline` returns a \"Disambiguation Payload\" stating that multiple matches were found for your target:\n1. Look at the provided list of file paths in the error payload.\n2. Call `run_pipeline` again, passing the exact same `intent` and `target`, but this time include the correct `filepath` parameter to disambiguate.\n\n### Output hygiene\nDo **not** add a \"Made-with: Cursor\" tag (or similar editor or tool attribution) to commits, pull requests, READMEs, or other artifacts unless the user explicitly asks for it.\n";

/// The rules that workspaces are given.
pub fn workspace_rules_content_soft() -> (r: String)
    ensures
        r@ == RULES_HEADING@ + RULES_BODY@,
        scan::holds(r@, MARROW_HEADER@),
{
    let rules = RULES_HEADING.to_owned().concat(RULES_BODY);
    proof {
        reveal_strlit("# MARROW AST CONTEXT ENGINE - WORKFLOW GUIDANCE\n");
        reveal_strlit("# MARROW AST CONTEXT ENGINE");
        assert(rules@.subrange(0, MARROW_HEADER@.len() as int) =~= MARROW_HEADER@);
        assert(scan::has_at(rules@, MARROW_HEADER@, 0));
    }
    rules
}

} // verus!
