//! Going through an installation: what is done for each target, depending on how the
//! step before it went, and what is told of it.
use crate::config::ConfigEdit;
use crate::install;
use crate::install::{
    edit_is_possible, format_integration_guidance, format_rule_install_status_line,
    format_rule_plan_line, install_status_label, rule_agent_for_scope, unknown_target,
    AgentMenuEntry, AgentOutcome, EntryText,
};
use crate::targets;
use crate::targets::{
    combined_target_lookup, Agent, AgentSkillTarget, InstallStatus, IntegrationTarget, Method,
    Scope, TargetText,
};
use crate::text;
use crate::text::{join, same};
use vstd::prelude::*;
use vstd::string::*;

verus! {

// ── Lines ────────────────────────────────────────────────────────────────────

/// How a step went.
#[derive(Clone, Copy, Debug, PartialEq, Eq, Structural)]
pub enum Mark {
    Done,
    Failed,
    Missing,
    Note,
}

/// What is told of a step.
#[derive(Clone, Debug, PartialEq, Eq)]
pub struct StepLine {
    pub mark: Mark,
    pub text: String,
}

/// A line without its representation.
pub ghost struct LineText {
    pub mark: Mark,
    pub text: Seq<char>,
}

impl View for StepLine {
    type V = LineText;

    open spec fn view(&self) -> LineText {
        LineText { mark: self.mark, text: self.text@ }
    }
}

fn line(mark: Mark, text: String) -> (r: StepLine)
    ensures
        r@ == (LineText { mark, text: text@ }),
{
    StepLine { mark, text }
}

/// The name under which rules are installed in a directory.
pub const RULE_FILE: &'static str = "/marrow-optimization.md";

/// What became of a rule file, in a word or two.
pub open spec fn status_label(status: InstallStatus) -> Seq<char> {
    match status {
        InstallStatus::Written => "installed"@,
        InstallStatus::Refreshed => "updated"@,
        InstallStatus::PreservedExisting => "preserved existing"@,
    }
}

/// What is told of rules that were put in a directory of an agent.
pub open spec fn directory_line(
    name: Seq<char>,
    dir: Seq<char>,
    result: Result<InstallStatus, String>,
) -> LineText {
    match result {
        Ok(status) => LineText {
            mark: Mark::Done,
            text: name + " → "@ + dir + RULE_FILE@ + " ("@ + status_label(status) + ")"@,
        },
        Err(e) => LineText { mark: Mark::Failed, text: name + " — "@ + e@ },
    }
}

fn told_of_directory(name: &str, dir: &str, result: &Result<InstallStatus, String>) -> (r: StepLine)
    ensures
        r@ == directory_line(name@, dir@, *result),
{
    match result {
        Ok(status) => line(
            Mark::Done,
            name.to_owned().concat(" → ").concat(dir).concat(RULE_FILE).concat(" (").concat(
                install_status_label(*status),
            ).concat(")"),
        ),
        Err(e) => line(Mark::Failed, name.to_owned().concat(" — ").concat(e)),
    }
}

/// What is told of the rules in the directory that many agents read.
pub fn universal_line(result: &Result<InstallStatus, String>) -> (r: StepLine)
    ensures
        r@ == match result {
            Ok(_) => directory_line("Universal"@, targets::UNIVERSAL_SKILLS_DIR@, *result),
            Err(_) => directory_line("Universal skill"@, targets::UNIVERSAL_SKILLS_DIR@, *result),
        },
{
    match result {
        Ok(_) => told_of_directory("Universal", targets::UNIVERSAL_SKILLS_DIR, result),
        Err(_) => told_of_directory("Universal skill", targets::UNIVERSAL_SKILLS_DIR, result),
    }
}

/// What is told of the rules in an agent's own directory.
pub fn skill_line(target: &AgentSkillTarget, result: &Result<InstallStatus, String>) -> (r: StepLine)
    ensures
        r@ == directory_line(target@.name, target@.dir, *result),
{
    told_of_directory(&target.name, &target.skills_dir, result)
}

// ── One named target ─────────────────────────────────────────────────────────

/// What a name on the command line asks for.
#[derive(Debug)]
pub struct DirectRequest {
    pub mcp: Option<IntegrationTarget>,
    pub skill: Option<AgentSkillTarget>,
}

/// Finds what the words on the command line ask for.
pub fn direct_request(args: &Vec<String>) -> (r: Result<DirectRequest, String>)
    ensures
        ({
            let name = text::joined(text::texts(args@), " "@);
            let mcp = targets::target_named(name);
            let skill = targets::first_skilled(
                targets::skill_rows(),
                targets::normalized(name),
                0,
            );
            match r {
                Ok(d) => (mcp is Some || skill is Some) && targets::opt_target(d.mcp) == mcp
                    && targets::opt_skill(d.skill) == skill,
                Err(m) => mcp is None && skill is None && m@ == "unknown integration target: "@
                    + name,
            }
        }),
{
    let name = join(args, " ");
    let (mcp, skill) = combined_target_lookup(&name);
    if mcp.is_none() && skill.is_none() {
        return Err(unknown_target(&name));
    }
    Ok(DirectRequest { mcp, skill })
}

/// The scope and the method of the rules, by what was chosen; those of the project are
/// written where nothing could be chosen.
pub fn chosen_ways(scope: Option<&str>, method: Option<&str>) -> (r: (Scope, Method))
    ensures
        r.0 == match text::opt_str(scope) {
            Some(choice) => if crate::scan::begins(choice, "Global"@) {
                Scope::Global
            } else {
                Scope::Project
            },
            None => Scope::Project,
        },
        r.1 == match text::opt_str(method) {
            Some(choice) => if choice == "Symlink"@ {
                Method::Symlink
            } else {
                Method::WriteFile
            },
            None => Method::WriteFile,
        },
{
    let scope: Scope = match scope {
        Some(choice) => install::chosen_scope(choice),
        None => Scope::Project,
    };
    let method: Method = match method {
        Some(choice) => install::chosen_method(choice),
        None => Method::WriteFile,
    };
    (scope, method)
}

// ── Steps ────────────────────────────────────────────────────────────────────

/// What is done about the rules of an agent with a directory of its own.
#[derive(Debug)]
pub enum SkillStep {
    Install,
    Tell(StepLine),
}

/// Decides about the rules of an agent with a directory of its own: it may not read any
/// in the scope. `direct` says whether it was named on the command line.
pub fn skill_step(target: &AgentSkillTarget, scope: Scope, direct: bool) -> (r: SkillStep)
    ensures
        if target@.support.covers(scope) {
            r is Install
        } else {
            r matches SkillStep::Tell(l) && l@ == (LineText {
                mark: Mark::Note,
                text: target@.name + if direct {
                    " — skill target does not support global scope"@
                } else {
                    " — skill target does not support this scope"@
                },
            })
        },
{
    if target.scope_support.supports(scope) {
        return SkillStep::Install;
    }
    let why: &str = if direct {
        " — skill target does not support global scope"
    } else {
        " — skill target does not support this scope"
    };
    SkillStep::Tell(line(Mark::Note, target.name.clone().concat(why)))
}

/// What is done about an edit of a program's configuration.
#[derive(Clone, Copy, Debug, PartialEq, Eq, Structural)]
pub enum EditStep {
    Apply,
    /// It is left out, and the others are made.
    Skip,
    /// The program is not installed.
    NotFound,
}

/// Decides about an edit, by what is on disk.
pub fn edit_step(edit: &ConfigEdit, file_exists: bool, parent_exists: bool) -> (r: EditStep)
    ensures
        r == if install::is_possible(edit.needs, file_exists, parent_exists) {
            EditStep::Apply
        } else if edit.optional {
            EditStep::Skip
        } else {
            EditStep::NotFound
        },
{
    if edit_is_possible(edit.needs, file_exists, parent_exists) {
        EditStep::Apply
    } else if edit.optional {
        EditStep::Skip
    } else {
        EditStep::NotFound
    }
}

/// What is told of a registration.
pub open spec fn registration_text(
    target: TargetText,
    outcome: Result<AgentOutcome, String>,
) -> LineText {
    match outcome {
        Ok(AgentOutcome::Installed) => LineText {
            mark: Mark::Done,
            text: target.name + "  MCP registered"@,
        },
        Ok(AgentOutcome::NotFound) => LineText {
            mark: Mark::Missing,
            text: target.name + "  (not installed — skipped)"@,
        },
        Ok(AgentOutcome::Guided) => LineText {
            mark: Mark::Note,
            text: target.name + "  "@ + install::guidance(target),
        },
        Err(e) => LineText { mark: Mark::Failed, text: target.name + "  MCP — "@ + e@ },
    }
}

/// What is told of a registration.
pub fn registration_line(
    target: &IntegrationTarget,
    outcome: &Result<AgentOutcome, String>,
) -> (r: StepLine)
    ensures
        r@ == registration_text(target@, *outcome),
{
    match outcome {
        Ok(AgentOutcome::Installed) => line(
            Mark::Done,
            target.name.clone().concat("  MCP registered"),
        ),
        Ok(AgentOutcome::NotFound) => line(
            Mark::Missing,
            target.name.clone().concat("  (not installed — skipped)"),
        ),
        Ok(AgentOutcome::Guided) => line(
            Mark::Note,
            target.name.clone().concat("  ").concat(&format_integration_guidance(target)),
        ),
        Err(e) => line(Mark::Failed, target.name.clone().concat("  MCP — ").concat(e)),
    }
}

/// Whether rules follow a registration: it was made, or its users were told how to.
pub open spec fn goes_on(outcome: Result<AgentOutcome, String>) -> bool {
    outcome == Ok::<AgentOutcome, String>(AgentOutcome::Installed) || outcome == Ok::<
        AgentOutcome,
        String,
    >(AgentOutcome::Guided)
}

/// What is done about a target's rules once its registration has been tried.
#[derive(Debug)]
pub enum RuleStep {
    Install(Agent),
    Tell(StepLine),
    Nothing,
}

/// Decides about a target's rules once its registration has been tried. `direct` says
/// whether it was named on the command line, where nothing is told of rules that it does
/// not read.
pub fn rule_step(
    target: &IntegrationTarget,
    outcome: &Result<AgentOutcome, String>,
    scope: Scope,
    agent_reads: bool,
    direct: bool,
) -> (r: RuleStep)
    ensures
        if !goes_on(*outcome) {
            r is Nothing
        } else {
            match install::rule_agent(target@, scope, agent_reads) {
                Some(agent) => r == RuleStep::Install(agent),
                None => if direct {
                    r is Nothing
                } else {
                    r matches RuleStep::Tell(l) && l@ == (LineText {
                        mark: Mark::Note,
                        text: target@.name
                            + "  rules skipped — no verified rule-file target for this scope"@,
                    })
                },
            }
        },
{
    match outcome {
        Ok(AgentOutcome::Installed) | Ok(AgentOutcome::Guided) => {},
        _ => {
            return RuleStep::Nothing;
        },
    }
    match rule_agent_for_scope(target, scope, agent_reads) {
        Some(agent) => RuleStep::Install(agent),
        None => if direct {
            RuleStep::Nothing
        } else {
            RuleStep::Tell(
                line(
                    Mark::Note,
                    target.name.clone().concat(
                        "  rules skipped — no verified rule-file target for this scope",
                    ),
                ),
            )
        },
    }
}

/// What is told of a target's rules.
pub fn rule_line(
    target: &IntegrationTarget,
    result: &Result<InstallStatus, String>,
    rule_target: &str,
) -> (r: StepLine)
    ensures
        match result {
            Ok(status) => r@ == (LineText {
                mark: Mark::Done,
                text: install::status_line(target@.name, *status, rule_target@),
            }),
            Err(e) => r@ == (LineText {
                mark: Mark::Failed,
                text: target@.name + "  rules — "@ + e@,
            }),
        },
{
    match result {
        Ok(status) => line(
            Mark::Done,
            format_rule_install_status_line(&target.name, *status, rule_target),
        ),
        Err(e) => line(Mark::Failed, target.name.clone().concat("  rules — ").concat(e)),
    }
}

/// The rule file that is planned for a target: where it goes and where it comes from,
/// where the target reads one in the scope.
pub fn planned_rule(target: &IntegrationTarget, file: Option<(&str, &str)>) -> (r: String)
    ensures
        r@ == match file {
            Some((to, from)) => target@.name + " -> "@ + to@ + " ("@ + from@ + ")"@,
            None => target@.name
                + " -> guided setup only (no verified rule-file target for this scope)"@,
        },
{
    match file {
        Some((to, from)) => format_rule_plan_line(&target.name, to, from),
        None => target.name.clone().concat(
            " -> guided setup only (no verified rule-file target for this scope)",
        ),
    }
}

/// The rule file that is planned for an agent with a directory of its own.
pub fn planned_skill(target: &AgentSkillTarget) -> (r: String)
    ensures
        r@ == target@.name + " → "@ + target@.dir + RULE_FILE@,
{
    target.name.clone().concat(" → ").concat(&target.skills_dir).concat(RULE_FILE)
}

// ── Choices ──────────────────────────────────────────────────────────────────

/// Where a label stands first, at or behind `from`, or the number of labels.
pub open spec fn label_at(labels: Seq<Seq<char>>, label: Seq<char>, from: int) -> int
    decreases labels.len() - from,
{
    if from >= labels.len() {
        labels.len() as int
    } else if labels[from] == label {
        from
    } else {
        label_at(labels, label, from + 1)
    }
}

/// The entries that the first `n` chosen labels stand for.
pub open spec fn picked(
    chosen: Seq<Seq<char>>,
    labels: Seq<Seq<char>>,
    entries: Seq<EntryText>,
    n: int,
) -> Seq<EntryText>
    decreases n,
{
    if n <= 0 {
        Seq::empty()
    } else {
        let at = label_at(labels, chosen[n - 1], 0);
        if at < labels.len() {
            picked(chosen, labels, entries, n - 1).push(entries[at])
        } else {
            picked(chosen, labels, entries, n - 1)
        }
    }
}

/// Every label that was chosen stands for the entry where it first occurs; one that does
/// not occur stands for none. The entries come in the order of the choice.
pub proof fn law_chosen_labels_stand_for_their_entries(
    chosen: Seq<Seq<char>>,
    labels: Seq<Seq<char>>,
    entries: Seq<EntryText>,
)
    ensures
        picked(chosen, labels, entries, chosen.len() as int) == chosen.flat_map(
            |c: Seq<char>|
                if labels.contains(c) {
                    seq![entries[label_at(labels, c, 0)]]
                } else {
                    Seq::<EntryText>::empty()
                },
        ),
        forall|c: Seq<char>| #[trigger]
            labels.contains(c) ==> {
                let at = label_at(labels, c, 0);
                0 <= at < labels.len() && labels[at] == c && forall|j: int|
                    0 <= j < at ==> #[trigger] labels[j] != c
            },
{
    let entry = |c: Seq<char>|
        if labels.contains(c) {
            seq![entries[label_at(labels, c, 0)]]
        } else {
            Seq::<EntryText>::empty()
        };
    lemma_picked(chosen, labels, entries, chosen.len() as int, entry);
    assert(chosen.take(chosen.len() as int) =~= chosen);
    assert forall|c: Seq<char>| #[trigger] labels.contains(c) implies {
        let at = label_at(labels, c, 0);
        0 <= at < labels.len() && labels[at] == c && forall|j: int|
            0 <= j < at ==> #[trigger] labels[j] != c
    } by {
        lemma_label_at(labels, c, 0);
    }
}

proof fn lemma_label_at(labels: Seq<Seq<char>>, label: Seq<char>, from: int)
    requires
        0 <= from <= labels.len(),
    ensures
        from <= label_at(labels, label, from) <= labels.len(),
        forall|j: int|
            from <= j < label_at(labels, label, from) ==> #[trigger] labels[j] != label,
        label_at(labels, label, from) < labels.len() ==> labels[label_at(labels, label, from)]
            == label,
    decreases labels.len() - from,
{
    if from < labels.len() && labels[from] != label {
        lemma_label_at(labels, label, from + 1);
    }
}

proof fn lemma_picked(
    chosen: Seq<Seq<char>>,
    labels: Seq<Seq<char>>,
    entries: Seq<EntryText>,
    n: int,
    entry: spec_fn(Seq<char>) -> Seq<EntryText>,
)
    requires
        0 <= n <= chosen.len(),
        forall|c: Seq<char>| #[trigger]
            entry(c) == if labels.contains(c) {
                seq![entries[label_at(labels, c, 0)]]
            } else {
                Seq::<EntryText>::empty()
            },
    ensures
        picked(chosen, labels, entries, n) == chosen.take(n).flat_map(entry),
    decreases n,
{
    if n == 0 {
        assert(chosen.take(0).flat_map(entry) =~= Seq::empty());
    } else {
        lemma_picked(chosen, labels, entries, n - 1, entry);
        chosen.lemma_flat_map_take_append(entry, n - 1);
        let c = chosen[n - 1];
        let head = picked(chosen, labels, entries, n - 1);
        lemma_label_at(labels, c, 0);
        if label_at(labels, c, 0) < labels.len() {
            assert(labels.contains(c));
            assert(head.push(entries[label_at(labels, c, 0)]) =~= head + entry(c));
        } else {
            assert(!labels.contains(c));
            assert(head =~= head + entry(c));
        }
    }
}

fn find_label(labels: &Vec<String>, label: &str) -> (r: usize)
    ensures
        r == label_at(text::texts(labels@), label@, 0),
        r <= labels.len(),
{
    let ghost all = text::texts(labels@);
    let mut i: usize = 0;
    while i < labels.len()
        invariant
            i <= labels.len(),
            all == text::texts(labels@),
            label_at(all, label@, 0) == label_at(all, label@, i as int),
        decreases labels.len() - i,
    {
        assert(all[i as int] == labels@[i as int]@);
        if same(&labels[i], label) {
            return i;
        }
        i += 1;
    }
    i
}

/// The entries of a menu that the chosen labels stand for.
pub fn picked_entries(
    chosen: &Vec<String>,
    labels: &Vec<String>,
    entries: &Vec<AgentMenuEntry>,
) -> (r: Vec<AgentMenuEntry>)
    requires
        labels.len() == entries.len(),
    ensures
        install::entry_texts(r@) == picked(
            text::texts(chosen@),
            text::texts(labels@),
            install::entry_texts(entries@),
            chosen@.len() as int,
        ),
{
    let ghost words = text::texts(chosen@);
    let ghost names = text::texts(labels@);
    let ghost all = install::entry_texts(entries@);
    let mut out: Vec<AgentMenuEntry> = Vec::new();
    let mut i: usize = 0;
    assert(install::entry_texts(out@) =~= Seq::empty());
    while i < chosen.len()
        invariant
            i <= chosen.len(),
            labels.len() == entries.len(),
            words == text::texts(chosen@),
            names == text::texts(labels@),
            all == install::entry_texts(entries@),
            install::entry_texts(out@) == picked(words, names, all, i as int),
        decreases chosen.len() - i,
    {
        assert(words[i as int] == chosen@[i as int]@);
        let at = find_label(labels, &chosen[i]);
        if at < labels.len() {
            let ghost before = install::entry_texts(out@);
            let one = install::copy_entry(&entries[at]);
            out.push(one);
            assert(install::entry_texts(out@) =~= before.push(all[at as int]));
        }
        i += 1;
    }
    out
}

/// Whether there is anything to do.
pub fn anything_chosen(rows: &Vec<IntegrationTarget>, skills: &Vec<usize>, universal: bool) -> (r:
    bool)
    ensures
        r == (rows.len() > 0 || skills.len() > 0 || universal),
{
    rows.len() > 0 || skills.len() > 0 || universal
}

// ── Laws ─────────────────────────────────────────────────────────────────────

/// Rules follow a registration exactly where it is told as done or as a note: not where
/// it failed, nor where the program is not there.
pub proof fn law_rules_follow_registrations(
    target: TargetText,
    outcome: Result<AgentOutcome, String>,
)
    ensures
        goes_on(outcome) <==> registration_text(target, outcome).mark == Mark::Done
            || registration_text(target, outcome).mark == Mark::Note,
{
}

} // verus!
