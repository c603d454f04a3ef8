//! Integrating the server with other programs: what is offered, what is chosen, and
//! what is told.
use crate::config::{ConfigWriter, EditNeeds};
use crate::paths;
use crate::paths::join_path;
use crate::rules;
use crate::rules::{contains_marrow_marker, WriteMode};
use crate::scan;
use crate::store::MarrowError;
use crate::targets;
use crate::targets::{
    agent_skill_targets, integration_skill_directory, integration_target_by_name,
    integration_target_for_agent, integration_targets, universal_agents, Agent, AgentSkillTarget,
    InstallStatus, IntegrationSetupMode, IntegrationSupportTier, IntegrationTarget, Method, Scope,
    SkillText, TargetText, UNIVERSAL_SKILLS_DIR,
};
use crate::text;
use crate::text::{join, same, signed_text};
use crate::tools;
use vstd::prelude::*;
use vstd::string::*;

verus! {

// ── Selections ───────────────────────────────────────────────────────────────

/// The first `n` targets that are kept.
pub open spec fn selected(
    rows: Seq<TargetText>,
    keep: spec_fn(TargetText) -> bool,
    n: int,
) -> Seq<TargetText>
    decreases n,
{
    if n <= 0 {
        Seq::empty()
    } else if keep(rows[n - 1]) {
        selected(rows, keep, n - 1).push(rows[n - 1])
    } else {
        selected(rows, keep, n - 1)
    }
}

/// The selected targets are those that satisfy the condition, in order.
pub proof fn law_selected_targets_are_filtered(
    rows: Seq<TargetText>,
    keep: spec_fn(TargetText) -> bool,
    same: spec_fn(TargetText) -> bool,
    n: int,
)
    requires
        0 <= n <= rows.len(),
        forall|t: TargetText| #[trigger] keep(t) == same(t),
    ensures
        selected(rows, keep, n) == rows.take(n).filter(same),
    decreases n,
{
    reveal(Seq::filter);
    if n > 0 {
        law_selected_targets_are_filtered(rows, keep, same, n - 1);
        assert(rows.take(n).drop_last() =~= rows.take(n - 1));
        assert(rows.take(n).last() == rows[n - 1]);
        assert(keep(rows[n - 1]) == same(rows[n - 1]));
    }
}

/// Targets that are set up in one way.
pub open spec fn set_up_by(mode: IntegrationSetupMode) -> spec_fn(TargetText) -> bool {
    |t: TargetText| t.tier != IntegrationSupportTier::CompatibilityOnly && t.mode == mode
}

/// The targets of a mode, out of all.
pub open spec fn rows_by(mode: IntegrationSetupMode) -> Seq<TargetText> {
    selected(targets::target_rows(), set_up_by(mode), targets::target_rows().len() as int)
}

/// The targets that can be set up: those that the server registers itself with, then
/// those whose users are told how to.
pub open spec fn setup_rows() -> Seq<TargetText> {
    rows_by(IntegrationSetupMode::Automatic) + rows_by(IntegrationSetupMode::Guided)
}

/// The targets that are offered are all that are more than compatible, in their order:
/// first those that are set up automatically, then those that are set up with guidance.
pub proof fn law_every_supported_target_is_offered()
    ensures
        setup_rows() == targets::target_rows().filter(
            |t: TargetText|
                t.tier != IntegrationSupportTier::CompatibilityOnly && t.mode
                    == IntegrationSetupMode::Automatic,
        ) + targets::target_rows().filter(
            |t: TargetText|
                t.tier != IntegrationSupportTier::CompatibilityOnly && t.mode
                    == IntegrationSetupMode::Guided,
        ),
{
    let rows = targets::target_rows();
    let automatic = |t: TargetText|
        t.tier != IntegrationSupportTier::CompatibilityOnly && t.mode
            == IntegrationSetupMode::Automatic;
    let guided = |t: TargetText|
        t.tier != IntegrationSupportTier::CompatibilityOnly && t.mode
            == IntegrationSetupMode::Guided;
    law_selected_targets_are_filtered(
        rows,
        set_up_by(IntegrationSetupMode::Automatic),
        automatic,
        rows.len() as int,
    );
    law_selected_targets_are_filtered(
        rows,
        set_up_by(IntegrationSetupMode::Guided),
        guided,
        rows.len() as int,
    );
    assert(rows.take(rows.len() as int) =~= rows);
}

fn copy_names(v: &Vec<&'static str>) -> (r: Vec<&'static str>)
    ensures
        r@ == v@,
{
    let mut out: Vec<&'static str> = Vec::new();
    let mut i: usize = 0;
    while i < v.len()
        invariant
            i <= v.len(),
            out@ == v@.take(i as int),
        decreases v.len() - i,
    {
        out.push(v[i]);
        assert(v@.take(i as int).push(v@[i as int]) =~= v@.take(i + 1));
        i += 1;
    }
    assert(v@.take(v@.len() as int) =~= v@);
    out
}

fn copy_target(t: &IntegrationTarget) -> (r: IntegrationTarget)
    ensures
        r@ == t@,
{
    IntegrationTarget {
        name: t.name.clone(),
        aliases: copy_names(&t.aliases),
        support_tier: t.support_tier,
        kind: t.kind,
        setup_mode: t.setup_mode,
        rule_support: t.rule_support,
        rule_agent: t.rule_agent,
        workspace_rule_files: copy_names(&t.workspace_rule_files),
        baseline_workspace_required: t.baseline_workspace_required,
        allow_config_write: t.allow_config_write,
        writer: t.writer,
    }
}

fn push_target(
    out: &mut Vec<IntegrationTarget>,
    t: &IntegrationTarget,
)
    ensures
        targets::target_texts(final(out)@) == targets::target_texts(old(out)@).push(t@),
{
    let ghost before = targets::target_texts(out@);
    let one = copy_target(t);
    out.push(one);
    assert(targets::target_texts(out@) =~= before.push(t@));
}

fn targets_by(all: &Vec<IntegrationTarget>, mode: IntegrationSetupMode) -> (r: Vec<
    IntegrationTarget,
>)
    ensures
        targets::target_texts(r@) == selected(
            targets::target_texts(all@),
            set_up_by(mode),
            all@.len() as int,
        ),
{
    let ghost rows = targets::target_texts(all@);
    let ghost keep = set_up_by(mode);
    let mut out: Vec<IntegrationTarget> = Vec::new();
    let mut i: usize = 0;
    assert(targets::target_texts(out@) =~= Seq::empty());
    while i < all.len()
        invariant
            i <= all.len(),
            rows == targets::target_texts(all@),
            keep == set_up_by(mode),
            targets::target_texts(out@) == selected(rows, keep, i as int),
        decreases all.len() - i,
    {
        assert(rows[i as int] == all@[i as int]@);
        if all[i].support_tier != IntegrationSupportTier::CompatibilityOnly && all[i].setup_mode
            == mode {
            push_target(&mut out, &all[i]);
        }
        i += 1;
    }
    out
}

/// The targets that can be set up: those that the server registers itself with, then
/// those whose users are told how to.
pub fn integration_setup_targets() -> (r: Vec<IntegrationTarget>)
    ensures
        targets::target_texts(r@) == setup_rows(),
{
    let all = integration_targets();
    let mut out = targets_by(&all, IntegrationSetupMode::Automatic);
    let guided = targets_by(&all, IntegrationSetupMode::Guided);
    let ghost first = targets::target_texts(out@);
    let ghost second = targets::target_texts(guided@);
    let mut i: usize = 0;
    assert(first + second.take(0) =~= first);
    while i < guided.len()
        invariant
            i <= guided.len(),
            second == targets::target_texts(guided@),
            targets::target_texts(out@) == first + second.take(i as int),
        decreases guided.len() - i,
    {
        assert(second[i as int] == guided@[i as int]@);
        push_target(&mut out, &guided[i]);
        assert((first + second.take(i as int)).push(second[i as int]) =~= first + second.take(
            i + 1,
        ));
        i += 1;
    }
    assert(second.take(second.len() as int) =~= second);
    out
}

proof fn lemma_selected_are_kept(
    rows: Seq<TargetText>,
    keep: spec_fn(TargetText) -> bool,
    n: int,
)
    requires
        0 <= n <= rows.len(),
    ensures
        forall|i: int|
            0 <= i < selected(rows, keep, n).len() ==> keep(#[trigger] selected(rows, keep, n)[i]),
    decreases n,
{
    if n > 0 {
        let head = selected(rows, keep, n - 1);
        lemma_selected_are_kept(rows, keep, n - 1);
        assert forall|i: int| 0 <= i < selected(rows, keep, n).len() implies keep(
            #[trigger] selected(rows, keep, n)[i],
        ) by {
            if i < head.len() {
                assert(selected(rows, keep, n)[i] == head[i]);
            }
        }
    }
}

/// No backend is offered for setup, and no target that users are told about comes before
/// one that the server registers itself with.
pub proof fn law_setup_offers_automatic_targets_first(i: int, j: int)
    requires
        0 <= i < j < setup_rows().len(),
    ensures
        setup_rows()[i].tier != IntegrationSupportTier::CompatibilityOnly,
        setup_rows()[j].mode == IntegrationSetupMode::Automatic ==> setup_rows()[i].mode
            == IntegrationSetupMode::Automatic,
{
    let rows = targets::target_rows();
    lemma_selected_are_kept(
        rows,
        set_up_by(IntegrationSetupMode::Automatic),
        rows.len() as int,
    );
    lemma_selected_are_kept(rows, set_up_by(IntegrationSetupMode::Guided), rows.len() as int);
    let first = rows_by(IntegrationSetupMode::Automatic);
    let second = rows_by(IntegrationSetupMode::Guided);
    if i < first.len() {
        assert(setup_rows()[i] == first[i]);
    } else {
        assert(setup_rows()[i] == second[i - first.len()]);
    }
    if j >= first.len() {
        assert(setup_rows()[j] == second[j - first.len()]);
    }
}

/// Whether the server may write a target's configuration.
pub open spec fn may_write(t: TargetText) -> bool {
    t.writes && t.mode == IntegrationSetupMode::Automatic
}

/// The server has a writer for exactly the targets that it may write for.
pub proof fn law_writers_match_permission(i: int)
    requires
        0 <= i < targets::target_rows().len(),
    ensures
        may_write(targets::target_rows()[i]) == targets::target_rows()[i].writer is Some,
{
}

/// Whether a target reads rules from the universal directory.
pub fn integration_uses_universal_skills_dir(target: &IntegrationTarget) -> (r: bool)
    ensures
        r == (targets::skill_directory(target@) == UNIVERSAL_SKILLS_DIR@),
{
    same(&integration_skill_directory(target), UNIVERSAL_SKILLS_DIR)
}

/// Targets that read rules from the universal directory, or those that do not.
pub open spec fn reads_universal(yes: bool) -> spec_fn(TargetText) -> bool {
    |t: TargetText| (targets::skill_directory(t) == UNIVERSAL_SKILLS_DIR@) == yes
}

fn targets_reading(yes: bool) -> (r: Vec<IntegrationTarget>)
    ensures
        targets::target_texts(r@) == selected(
            setup_rows(),
            reads_universal(yes),
            setup_rows().len() as int,
        ),
{
    let all = integration_setup_targets();
    let ghost rows = setup_rows();
    let ghost keep = reads_universal(yes);
    let mut out: Vec<IntegrationTarget> = Vec::new();
    let mut i: usize = 0;
    assert(targets::target_texts(out@) =~= Seq::empty());
    while i < all.len()
        invariant
            i <= all.len(),
            rows == targets::target_texts(all@),
            keep == reads_universal(yes),
            targets::target_texts(out@) == selected(rows, keep, i as int),
        decreases all.len() - i,
    {
        assert(rows[i as int] == all@[i as int]@);
        if integration_uses_universal_skills_dir(&all[i]) == yes {
            push_target(&mut out, &all[i]);
        }
        i += 1;
    }
    out
}

/// The targets for setup that read rules from the universal directory.
pub fn interactive_universal_mcp_targets() -> (r: Vec<IntegrationTarget>)
    ensures
        targets::target_texts(r@) == selected(
            setup_rows(),
            reads_universal(true),
            setup_rows().len() as int,
        ),
{
    targets_reading(true)
}

/// The targets for setup that read rules from elsewhere.
pub fn interactive_additional_mcp_targets() -> (r: Vec<IntegrationTarget>)
    ensures
        targets::target_texts(r@) == selected(
            setup_rows(),
            reads_universal(false),
            setup_rows().len() as int,
        ),
{
    targets_reading(false)
}

/// The targets for setup: those that read rules from the universal directory, then the
/// others.
pub fn interactive_mcp_targets() -> (r: Vec<IntegrationTarget>)
    ensures
        targets::target_texts(r@) == selected(
            setup_rows(),
            reads_universal(true),
            setup_rows().len() as int,
        ) + selected(setup_rows(), reads_universal(false), setup_rows().len() as int),
{
    let mut out = interactive_universal_mcp_targets();
    let ghost first = targets::target_texts(out@);
    let rest = interactive_additional_mcp_targets();
    let ghost second = targets::target_texts(rest@);
    let mut i: usize = 0;
    assert(first + second.take(0) =~= first);
    while i < rest.len()
        invariant
            i <= rest.len(),
            second == targets::target_texts(rest@),
            targets::target_texts(out@) == first + second.take(i as int),
        decreases rest.len() - i,
    {
        push_target(&mut out, &rest[i]);
        assert(second[i as int] == rest@[i as int]@);
        assert((first + second.take(i as int)).push(second[i as int]) =~= first + second.take(
            i + 1,
        ));
        i += 1;
    }
    assert(second.take(second.len() as int) =~= second);
    out
}

/// Whether an agent with rules is also a target.
pub fn agent_skill_target_has_mcp_integration(target: &AgentSkillTarget) -> (r: bool)
    ensures
        r == targets::target_named(target@.name) is Some,
{
    integration_target_by_name(&target.name).is_some()
}

/// The positions of the first `n` agents with rules that are not also targets.
pub open spec fn skill_only(rows: Seq<SkillText>, n: int) -> Seq<usize>
    decreases n,
{
    if n <= 0 {
        Seq::empty()
    } else if targets::target_named(rows[n - 1].name) is None {
        skill_only(rows, n - 1).push((n - 1) as usize)
    } else {
        skill_only(rows, n - 1)
    }
}

/// The agents that have rules only are all that are no target by name, in order.
pub proof fn law_agents_without_a_target_have_rules_only(rows: Seq<SkillText>)
    ensures
        skill_only(rows, rows.len() as int) == Seq::new(rows.len(), |i: int| i).filter(
            |i: int| targets::target_named(rows[i].name) is None,
        ).map_values(|i: int| i as usize),
{
    let keep = |i: int| targets::target_named(rows[i].name) is None;
    let narrow = |i: int| i as usize;
    lemma_skill_only(rows, rows.len() as int, keep, narrow);
}

proof fn lemma_skill_only(
    rows: Seq<SkillText>,
    n: int,
    keep: spec_fn(int) -> bool,
    narrow: spec_fn(int) -> usize,
)
    requires
        0 <= n <= rows.len(),
        forall|i: int| #[trigger] keep(i) == (targets::target_named(rows[i].name) is None),
        forall|i: int| #[trigger] narrow(i) == i as usize,
    ensures
        skill_only(rows, n) == Seq::new(n as nat, |i: int| i).filter(keep).map_values(narrow),
    decreases n,
{
    reveal(Seq::filter);
    let all = Seq::new(n as nat, |i: int| i);
    if n == 0 {
        assert(all.filter(keep).map_values(narrow) =~= Seq::empty());
    } else {
        lemma_skill_only(rows, n - 1, keep, narrow);
        let head = Seq::new((n - 1) as nat, |i: int| i);
        assert(all.drop_last() =~= head);
        assert(all.last() == n - 1);
        if keep(n - 1) {
            assert(head.filter(keep).push(n - 1).map_values(narrow) =~= head.filter(
                keep,
            ).map_values(narrow).push((n - 1) as usize));
        }
    }
}

fn skill_only_positions(all: &Vec<AgentSkillTarget>) -> (r: Vec<usize>)
    ensures
        r@ == skill_only(targets::skill_texts(all@), all@.len() as int),
        forall|i: int| 0 <= i < r.len() ==> #[trigger] r@[i] < all.len(),
{
    let ghost rows = targets::skill_texts(all@);
    let mut out: Vec<usize> = Vec::new();
    let mut i: usize = 0;
    while i < all.len()
        invariant
            i <= all.len(),
            rows == targets::skill_texts(all@),
            out@ == skill_only(rows, i as int),
            forall|k: int| 0 <= k < out.len() ==> #[trigger] out@[k] < i,
        decreases all.len() - i,
    {
        assert(rows[i as int] == all@[i as int]@);
        if !agent_skill_target_has_mcp_integration(&all[i]) {
            out.push(i);
        }
        i += 1;
    }
    out
}

/// The positions of the agents with rules that are not also targets.
pub fn interactive_skill_only_agent_target_indices() -> (r: Vec<usize>)
    ensures
        r@ == skill_only(targets::skill_rows(), targets::skill_rows().len() as int),
{
    let all = agent_skill_targets();
    assert(all@.len() == targets::skill_texts(all@).len());
    skill_only_positions(&all)
}

// ── Menus ────────────────────────────────────────────────────────────────────

/// An entry of the menu.
#[derive(Clone, Debug)]
pub enum AgentMenuEntry {
    Mcp(IntegrationTarget),
    /// An agent that reads the universal directory and is not a target.
    UniversalNoMcpTarget,
    SkillOnly(usize),
}

/// An entry without its representation.
pub ghost enum EntryText {
    Mcp(TargetText),
    UniversalNoMcpTarget,
    SkillOnly(usize),
}

impl View for AgentMenuEntry {
    type V = EntryText;

    open spec fn view(&self) -> EntryText {
        match self {
            AgentMenuEntry::Mcp(t) => EntryText::Mcp(t@),
            AgentMenuEntry::UniversalNoMcpTarget => EntryText::UniversalNoMcpTarget,
            AgentMenuEntry::SkillOnly(i) => EntryText::SkillOnly(*i),
        }
    }
}

/// A copy of an entry.
pub(crate) fn copy_entry(e: &AgentMenuEntry) -> (r: AgentMenuEntry)
    ensures
        r@ == e@,
{
    match e {
        AgentMenuEntry::Mcp(t) => AgentMenuEntry::Mcp(copy_target(t)),
        AgentMenuEntry::UniversalNoMcpTarget => AgentMenuEntry::UniversalNoMcpTarget,
        AgentMenuEntry::SkillOnly(i) => AgentMenuEntry::SkillOnly(*i),
    }
}

/// The views of a list of entries.
pub open spec fn entry_texts(v: Seq<AgentMenuEntry>) -> Seq<EntryText> {
    Seq::new(v.len(), |i: int| v[i]@)
}

/// The entry of an agent that reads the universal directory.
pub open spec fn universal_entry(name: Seq<char>) -> EntryText {
    match targets::target_named(name) {
        Some(t) => EntryText::Mcp(t),
        None => EntryText::UniversalNoMcpTarget,
    }
}

/// The menu of the agents that read the universal directory: their entries and names.
pub fn universal_agent_menu() -> (r: (Vec<AgentMenuEntry>, Vec<String>))
    ensures
        r.0.len() == targets::universal_names().len(),
        forall|i: int|
            0 <= i < r.0.len() ==> (#[trigger] r.0@[i])@ == universal_entry(
                targets::universal_names()[i],
            ),
        text::texts(r.1@) == targets::universal_names(),
{
    let names = universal_agents();
    let ghost all = targets::universal_names();
    let mut entries: Vec<AgentMenuEntry> = Vec::new();
    let mut labels: Vec<String> = Vec::new();
    let mut i: usize = 0;
    assert(names@.len() == all.len()) by {
        assert(tools::names(names@).len() == names@.len());
    }
    while i < names.len()
        invariant
            i <= names.len(),
            names@.len() == all.len(),
            tools::names(names@) == all,
            entries.len() == i,
            labels.len() == i,
            forall|k: int| 0 <= k < i ==> (#[trigger] entries@[k])@ == universal_entry(all[k]),
            forall|k: int| 0 <= k < i ==> (#[trigger] labels@[k])@ == all[k],
        decreases names.len() - i,
    {
        assert(all[i as int] == names@[i as int]@);
        match integration_target_by_name(names[i]) {
            Some(target) => {
                entries.push(AgentMenuEntry::Mcp(target));
            },
            None => {
                entries.push(AgentMenuEntry::UniversalNoMcpTarget);
            },
        }
        labels.push(names[i].to_owned());
        i += 1;
    }
    assert(text::texts(labels@) =~= all);
    (entries, labels)
}

/// A name with a directory.
pub open spec fn menu_label(name: Seq<char>, dir: Seq<char>) -> Seq<char> {
    name + " ("@ + dir + ")"@
}

/// A name with a directory.
pub fn format_menu_label(name: &str, skills_dir: &str) -> (r: String)
    ensures
        r@ == menu_label(name@, skills_dir@),
{
    name.to_owned().concat(" (").concat(skills_dir).concat(")")
}

/// How a target stands in the menu.
pub fn format_integration_menu_label(target: &IntegrationTarget) -> (r: String)
    ensures
        r@ == menu_label(target@.name, targets::skill_directory(target@)),
{
    format_menu_label(&target.name, &integration_skill_directory(target))
}

/// How an agent with rules stands in the menu.
pub fn format_skill_menu_label(target: &AgentSkillTarget) -> (r: String)
    ensures
        r@ == menu_label(target@.name, target@.dir),
{
    format_menu_label(&target.name, &target.skills_dir)
}

/// The targets of the additional menu.
pub open spec fn additional_rows() -> Seq<TargetText> {
    selected(setup_rows(), reads_universal(false), setup_rows().len() as int)
}

/// The agents of the additional menu, by position.
pub open spec fn additional_skills() -> Seq<usize> {
    skill_only(targets::skill_rows(), targets::skill_rows().len() as int)
}

/// The entries of the additional menu: targets, then agents with rules.
pub open spec fn additional_entries() -> Seq<EntryText> {
    Seq::new(additional_rows().len(), |i: int| EntryText::Mcp(additional_rows()[i])) + Seq::new(
        additional_skills().len(),
        |i: int| EntryText::SkillOnly(additional_skills()[i]),
    )
}

/// How an entry of the additional menu is labelled.
pub open spec fn entry_label(e: EntryText) -> Seq<char> {
    match e {
        EntryText::Mcp(t) => menu_label(t.name, targets::skill_directory(t)),
        EntryText::SkillOnly(i) => menu_label(
            targets::skill_rows()[i as int].name,
            targets::skill_rows()[i as int].dir,
        ),
        EntryText::UniversalNoMcpTarget => Seq::empty(),
    }
}

/// The labels of the agents that read the universal directory.
pub fn universal_agent_menu_labels() -> (r: Vec<String>)
    ensures
        text::texts(r@) == Seq::new(
            targets::universal_names().len(),
            |i: int| menu_label(targets::universal_names()[i], UNIVERSAL_SKILLS_DIR@),
        ),
{
    let all = universal_agents();
    let ghost names = targets::universal_names();
    let mut out: Vec<String> = Vec::new();
    let mut i: usize = 0;
    while i < all.len()
        invariant
            i <= all.len(),
            names == tools::names(all@),
            out.len() == i,
            forall|k: int|
                0 <= k < i ==> (#[trigger] out@[k])@ == menu_label(names[k], UNIVERSAL_SKILLS_DIR@),
        decreases all.len() - i,
    {
        out.push(format_menu_label(all[i], UNIVERSAL_SKILLS_DIR));
        assert(names[i as int] == all@[i as int]@);
        i += 1;
    }
    assert(text::texts(out@) =~= Seq::new(
        names.len(),
        |i: int| menu_label(names[i], UNIVERSAL_SKILLS_DIR@),
    ));
    out
}

/// The menu of the other agents: their entries and labels.
pub fn additional_agent_menu() -> (r: (Vec<AgentMenuEntry>, Vec<String>))
    ensures
        entry_texts(r.0@) == additional_entries(),
        r.1.len() == r.0.len(),
        forall|i: int| 0 <= i < r.1.len() ==> (#[trigger] r.1@[i])@ == entry_label(r.0@[i]@),
{
    let rows = interactive_additional_mcp_targets();
    let skills = agent_skill_targets();
    let positions = skill_only_positions(&skills);
    let ghost texts = additional_rows();
    let mut entries: Vec<AgentMenuEntry> = Vec::new();
    let mut labels: Vec<String> = Vec::new();
    let mut i: usize = 0;
    assert(rows@.len() == texts.len()) by {
        assert(targets::target_texts(rows@).len() == rows@.len());
    }
    assert(skills@.len() == targets::skill_texts(skills@).len());
    while i < rows.len()
        invariant
            i <= rows.len(),
            rows@.len() == texts.len(),
            targets::target_texts(rows@) == texts,
            entries.len() == i,
            labels.len() == i,
            forall|k: int| 0 <= k < i ==> (#[trigger] entries@[k])@ == EntryText::Mcp(texts[k]),
            forall|k: int| 0 <= k < i ==> (#[trigger] labels@[k])@ == entry_label(entries@[k]@),
        decreases rows.len() - i,
    {
        assert(texts[i as int] == rows@[i as int]@);
        labels.push(format_integration_menu_label(&rows[i]));
        entries.push(AgentMenuEntry::Mcp(copy_target(&rows[i])));
        i += 1;
    }
    let mut j: usize = 0;
    while j < positions.len()
        invariant
            j <= positions.len(),
            rows@.len() == texts.len(),
            positions@ == additional_skills(),
            targets::skill_texts(skills@) == targets::skill_rows(),
            forall|k: int| 0 <= k < positions.len() ==> #[trigger] positions@[k] < skills.len(),
            entries.len() == rows.len() + j,
            labels.len() == entries.len(),
            forall|k: int|
                0 <= k < rows.len() ==> (#[trigger] entries@[k])@ == EntryText::Mcp(texts[k]),
            forall|k: int|
                rows.len() <= k < entries.len() ==> (#[trigger] entries@[k])@
                    == EntryText::SkillOnly(positions@[k - rows.len()]),
            forall|k: int|
                0 <= k < labels.len() ==> (#[trigger] labels@[k])@ == entry_label(entries@[k]@),
        decreases positions.len() - j,
    {
        let at: usize = positions[j];
        assert(positions@[j as int] < skills.len());
        assert(targets::skill_rows()[at as int] == skills@[at as int]@);
        labels.push(format_skill_menu_label(&skills[at]));
        entries.push(AgentMenuEntry::SkillOnly(at));
        j += 1;
    }
    assert(entry_texts(entries@) =~= additional_entries());
    (entries, labels)
}

/// The targets among the first `n` entries.
pub open spec fn chosen_targets(v: Seq<EntryText>, n: int) -> Seq<TargetText>
    decreases n,
{
    if n <= 0 {
        Seq::empty()
    } else {
        match v[n - 1] {
            EntryText::Mcp(t) => chosen_targets(v, n - 1).push(t),
            _ => chosen_targets(v, n - 1),
        }
    }
}

/// The agents with rules among the first `n` entries.
pub open spec fn chosen_skills(v: Seq<EntryText>, n: int) -> Seq<usize>
    decreases n,
{
    if n <= 0 {
        Seq::empty()
    } else {
        match v[n - 1] {
            EntryText::SkillOnly(i) => chosen_skills(v, n - 1).push(i),
            _ => chosen_skills(v, n - 1),
        }
    }
}

/// Every target and every agent with rules that is chosen is taken, each kind in order.
pub proof fn law_everything_chosen_is_taken(v: Seq<EntryText>)
    ensures
        chosen_targets(v, v.len() as int) == v.filter_map(
            |e: EntryText|
                match e {
                    EntryText::Mcp(t) => Some(t),
                    _ => None::<TargetText>,
                },
        ),
        chosen_skills(v, v.len() as int) == v.filter_map(
            |e: EntryText|
                match e {
                    EntryText::SkillOnly(i) => Some(i),
                    _ => None::<usize>,
                },
        ),
{
    let target = |e: EntryText|
        match e {
            EntryText::Mcp(t) => Some(t),
            _ => None::<TargetText>,
        };
    let skill = |e: EntryText|
        match e {
            EntryText::SkillOnly(i) => Some(i),
            _ => None::<usize>,
        };
    lemma_chosen(v, v.len() as int, target, skill);
    assert(v.take(v.len() as int) =~= v);
}

proof fn lemma_chosen(
    v: Seq<EntryText>,
    n: int,
    target: spec_fn(EntryText) -> Option<TargetText>,
    skill: spec_fn(EntryText) -> Option<usize>,
)
    requires
        0 <= n <= v.len(),
        forall|e: EntryText| #[trigger]
            target(e) == (match e {
                EntryText::Mcp(t) => Some(t),
                _ => None::<TargetText>,
            }),
        forall|e: EntryText| #[trigger]
            skill(e) == (match e {
                EntryText::SkillOnly(i) => Some(i),
                _ => None::<usize>,
            }),
    ensures
        chosen_targets(v, n) == v.take(n).filter_map(target),
        chosen_skills(v, n) == v.take(n).filter_map(skill),
    decreases n,
{
    if n > 0 {
        lemma_chosen(v, n - 1, target, skill);
        assert(v.take(n).drop_last() =~= v.take(n - 1));
        assert(v.take(n).last() == v[n - 1]);
        match v[n - 1] {
            EntryText::Mcp(t) => {
                assert(v.take(n - 1).filter_map(target).push(t) =~= v.take(n - 1).filter_map(target)
                    + seq![t]);
            },
            EntryText::SkillOnly(i) => {
                assert(v.take(n - 1).filter_map(skill).push(i) =~= v.take(n - 1).filter_map(skill)
                    + seq![i]);
            },
            _ => {},
        }
    }
}

/// Sorts what was chosen: the targets, the agents with rules, and whether there is one
/// that only reads the universal directory.
pub fn partition_agent_menu_entries(chosen: &Vec<AgentMenuEntry>) -> (r: (
    Vec<IntegrationTarget>,
    Vec<usize>,
    bool,
))
    ensures
        targets::target_texts(r.0@) == chosen_targets(
            entry_texts(chosen@),
            chosen@.len() as int,
        ),
        r.1@ == chosen_skills(entry_texts(chosen@), chosen@.len() as int),
        r.2 == entry_texts(chosen@).contains(EntryText::UniversalNoMcpTarget),
{
    let ghost all = entry_texts(chosen@);
    let mut rows: Vec<IntegrationTarget> = Vec::new();
    let mut skills: Vec<usize> = Vec::new();
    let mut universal = false;
    let mut i: usize = 0;
    assert(targets::target_texts(rows@) =~= Seq::empty());
    while i < chosen.len()
        invariant
            i <= chosen.len(),
            all == entry_texts(chosen@),
            targets::target_texts(rows@) == chosen_targets(all, i as int),
            skills@ == chosen_skills(all, i as int),
            universal == exists|k: int|
                0 <= k < i && #[trigger] all[k] == EntryText::UniversalNoMcpTarget,
        decreases chosen.len() - i,
    {
        assert(all[i as int] == chosen@[i as int]@);
        match &chosen[i] {
            AgentMenuEntry::Mcp(t) => {
                push_target(&mut rows, t);
            },
            AgentMenuEntry::UniversalNoMcpTarget => {
                universal = true;
            },
            AgentMenuEntry::SkillOnly(at) => {
                skills.push(*at);
            },
        }
        i += 1;
    }
    (rows, skills, universal)
}

// ── Registration ─────────────────────────────────────────────────────────────

/// What registering the server with a target comes to.
#[derive(Clone, Copy, Debug, PartialEq, Eq, Structural)]
pub enum AgentOutcome {
    Installed,
    NotFound,
    Guided,
}

/// How the server is registered with a target: by writing its configuration, or not at
/// all where its users are only told how to.
pub fn register_integration_target(target: &IntegrationTarget) -> (r: Result<
    Option<ConfigWriter>,
    MarrowError,
>)
    ensures
        !may_write(target@) ==> r == Ok::<Option<ConfigWriter>, MarrowError>(None),
        may_write(target@) ==> match target@.writer {
            Some(w) => r == Ok::<Option<ConfigWriter>, MarrowError>(Some(w)),
            None => r matches Err(MarrowError::Message(m)) && m@
                == "automatic integration target is missing a writer"@,
        },
{
    if !target.allow_config_write || target.setup_mode == IntegrationSetupMode::Guided {
        return Ok(None);
    }
    match target.writer {
        Some(w) => Ok(Some(w)),
        None => Err(
            MarrowError::Message("automatic integration target is missing a writer".to_owned()),
        ),
    }
}

/// What registering the server comes to, given how it is registered and what became of
/// the edits: whether they were made, or why one failed. A failure stays one.
pub fn registration_outcome(writer: Option<ConfigWriter>, written: Result<bool, String>) -> (r: Result<
    AgentOutcome,
    String,
>)
    ensures
        match writer {
            None => r == Ok::<AgentOutcome, String>(AgentOutcome::Guided),
            Some(_) => match written {
                Ok(true) => r == Ok::<AgentOutcome, String>(AgentOutcome::Installed),
                Ok(false) => r == Ok::<AgentOutcome, String>(AgentOutcome::NotFound),
                Err(m) => r matches Err(why) && why@ == m@,
            },
        },
{
    match writer {
        None => Ok(AgentOutcome::Guided),
        Some(_) => match written {
            Ok(true) => Ok(AgentOutcome::Installed),
            Ok(false) => Ok(AgentOutcome::NotFound),
            Err(m) => Err(m),
        },
    }
}

/// Whether an edit can be made, by what is on disk.
pub open spec fn is_possible(needs: EditNeeds, file_exists: bool, parent_exists: bool) -> bool {
    match needs {
        EditNeeds::Nothing => true,
        EditNeeds::File => file_exists,
        EditNeeds::Parent => parent_exists,
    }
}

/// Whether an edit can be made, by what is on disk.
pub fn edit_is_possible(needs: EditNeeds, file_exists: bool, parent_exists: bool) -> (r: bool)
    ensures
        r == is_possible(needs, file_exists, parent_exists),
{
    match needs {
        EditNeeds::Nothing => true,
        EditNeeds::File => file_exists,
        EditNeeds::Parent => parent_exists,
    }
}

/// The agent whose rules a target reads in a scope.
pub open spec fn rule_agent(target: TargetText, scope: Scope, agent_reads: bool) -> Option<Agent> {
    if target.support.covers(scope) && agent_reads {
        target.agent
    } else {
        None
    }
}

/// The agent whose rules a target reads in a scope. `agent_reads` says whether the agent
/// itself reads rules there.
pub fn rule_agent_for_scope(target: &IntegrationTarget, scope: Scope, agent_reads: bool) -> (r:
    Option<Agent>)
    ensures
        r == rule_agent(target@, scope, agent_reads),
{
    if target.rule_support.supports(scope) && agent_reads {
        target.rule_agent
    } else {
        None
    }
}

/// Whether rules have to be asked about for what was chosen.
pub fn needs_rules(rows: &Vec<IntegrationTarget>, skills: &Vec<usize>) -> (r: bool)
    ensures
        r == (skills.len() > 0 || exists|i: int|
            0 <= i < rows.len() && (#[trigger] rows@[i])@.agent is Some),
{
    if skills.len() > 0 {
        return true;
    }
    let mut i: usize = 0;
    while i < rows.len()
        invariant
            i <= rows.len(),
            skills.len() == 0,
            forall|k: int| 0 <= k < i ==> (#[trigger] rows@[k])@.agent is None,
        decreases rows.len() - i,
    {
        if rows[i].rule_agent.is_some() {
            assert(rows@[i as int]@.agent is Some);
            return true;
        }
        i += 1;
    }
    false
}

/// The scope that a choice from the prompt means.
pub fn chosen_scope(choice: &str) -> (r: Scope)
    ensures
        r == if crate::scan::begins(choice@, "Global"@) {
            Scope::Global
        } else {
            Scope::Project
        },
{
    if crate::scan::starts_with(choice, "Global") {
        Scope::Global
    } else {
        Scope::Project
    }
}

/// The method that a choice from the prompt means.
pub fn chosen_method(choice: &str) -> (r: Method)
    ensures
        r == if choice@ == "Symlink"@ {
            Method::Symlink
        } else {
            Method::WriteFile
        },
{
    if same(choice, "Symlink") {
        Method::Symlink
    } else {
        Method::WriteFile
    }
}

// ── Texts ────────────────────────────────────────────────────────────────────

/// How the users of a target are told about it.
pub open spec fn guidance(t: TargetText) -> Seq<char> {
    if t.tier == IntegrationSupportTier::CompatibilityOnly {
        t.name + " is a "@ + t.kind.name()
            + " target, not an MCP agent/client/host destination. Configure Marrow through an MCP-capable agent or host, and point that tool at this backend separately."@
    } else if t.mode == IntegrationSetupMode::Automatic {
        t.name + " is a verified automatic "@ + t.kind.name()
            + " target. Run `marrow integrate` without arguments to use the interactive installer."@
    } else {
        t.name + " is supported as an MCP "@ + t.kind.name()
            + " target, but no verified config file path or merge writer exists yet. Add Marrow as an MCP stdio server with command `marrow` and args [`mcp`]. No config file was written."@
    }
}

/// How the users of a target are told about it.
pub fn format_integration_guidance(target: &IntegrationTarget) -> (r: String)
    ensures
        r@ == guidance(target@),
{
    let kind = target.kind.label();
    if target.support_tier == IntegrationSupportTier::CompatibilityOnly {
        target.name.clone().concat(" is a ").concat(kind).concat(
            " target, not an MCP agent/client/host destination. Configure Marrow through an MCP-capable agent or host, and point that tool at this backend separately.",
        )
    } else if target.setup_mode == IntegrationSetupMode::Automatic {
        target.name.clone().concat(" is a verified automatic ").concat(kind).concat(
            " target. Run `marrow integrate` without arguments to use the interactive installer.",
        )
    } else {
        target.name.clone().concat(" is supported as an MCP ").concat(kind).concat(
            " target, but no verified config file path or merge writer exists yet. Add Marrow as an MCP stdio server with command `marrow` and args [`mcp`]. No config file was written.",
        )
    }
}

/// What is said before rules are asked about.
pub const RULE_INSTALL_NOTE: &'static str =
    "Rule files strengthen Marrow-first behavior for each agent's native instruction surface. Managed Marrow files are updated; custom files are preserved. Auto-routing of direct low-level calls through run_pipeline is always active.";

/// What is said before rules are asked about.
pub fn rule_install_note() -> (r: &'static str)
    ensures
        r@ == RULE_INSTALL_NOTE@,
{
    RULE_INSTALL_NOTE
}

/// A rule file that is going to be put in place, and where it comes from.
pub fn format_rule_plan_line(name: &str, target: &str, source: &str) -> (r: String)
    ensures
        r@ == name@ + " -> "@ + target@ + " ("@ + source@ + ")"@,
{
    name.to_owned().concat(" -> ").concat(target).concat(" (").concat(source).concat(")")
}

/// What became of a rule file.
pub open spec fn status_line(name: Seq<char>, status: InstallStatus, target: Seq<char>) -> Seq<
    char,
> {
    name + " "@ + (match status {
        InstallStatus::Written => "rules written"@,
        InstallStatus::Refreshed => "rules refreshed"@,
        InstallStatus::PreservedExisting => "rules preserved"@,
    }) + " -> "@ + target
}

/// What became of a rule file.
pub fn format_rule_install_status_line(name: &str, status: InstallStatus, target: &str) -> (r:
    String)
    ensures
        r@ == status_line(name@, status, target@),
{
    let action: &str = match status {
        InstallStatus::Written => "rules written",
        InstallStatus::Refreshed => "rules refreshed",
        InstallStatus::PreservedExisting => "rules preserved",
    };
    name.to_owned().concat(" ").concat(action).concat(" -> ").concat(target)
}

/// What became of a rule file, in a word or two.
pub fn install_status_label(status: InstallStatus) -> (r: &'static str)
    ensures
        r@ == match status {
            InstallStatus::Written => "installed"@,
            InstallStatus::Refreshed => "updated"@,
            InstallStatus::PreservedExisting => "preserved existing"@,
        },
{
    match status {
        InstallStatus::Written => "installed",
        InstallStatus::Refreshed => "updated",
        InstallStatus::PreservedExisting => "preserved existing",
    }
}

/// What is said of a name that nothing goes by.
pub fn unknown_target(name: &str) -> (r: String)
    ensures
        r@ == "unknown integration target: "@ + name@,
{
    "unknown integration target: ".to_owned().concat(name)
}

// ── Coverage ─────────────────────────────────────────────────────────────────

/// The files that older versions left behind for an agent.
pub open spec fn legacy_files(agent: Agent) -> Seq<Seq<char>> {
    match agent {
        Agent::Cursor => seq![".cursorrules"@, ".vscode/mcp.json"@],
        Agent::GitHubCopilot => seq![".vscode/mcp.json"@],
        Agent::Antigravity => seq![".roomrules"@],
        _ => Seq::empty(),
    }
}

/// The files of a target below a root.
pub open spec fn files_below(root: Seq<char>, files: Seq<Seq<char>>) -> Seq<Seq<char>> {
    Seq::new(files.len(), |i: int| paths::joined_path(root, files[i]))
}

/// A list with the first `n` of some files below a root added, each where no path of the
/// list is the same.
pub open spec fn with_new_files(
    start: Seq<Seq<char>>,
    root: Seq<char>,
    files: Seq<Seq<char>>,
    n: int,
) -> Seq<Seq<char>>
    decreases n,
{
    if n <= 0 {
        start
    } else {
        let head = with_new_files(start, root, files, n - 1);
        let path = paths::joined_path(root, files[n - 1]);
        if has_path(head, path) {
            head
        } else {
            head.push(path)
        }
    }
}

/// Whether a list has a path.
pub open spec fn has_path(all: Seq<Seq<char>>, path: Seq<char>) -> bool {
    exists|i: int| 0 <= i < all.len() && paths::same_path(#[trigger] all[i], path)
}

/// Files are added behind those that are there, each below the root, and none that is
/// there already under another spelling.
pub proof fn law_files_are_added_once(
    start: Seq<Seq<char>>,
    root: Seq<char>,
    files: Seq<Seq<char>>,
    n: int,
)
    requires
        0 <= n <= files.len(),
    ensures
        ({
            let all = with_new_files(start, root, files, n);
            &&& start.is_prefix_of(all)
            &&& forall|k: int|
                0 <= k < n ==> has_path(all, paths::joined_path(root, #[trigger] files[k]))
            &&& forall|i: int|
                start.len() <= i < all.len() ==> !has_path(all.take(i), #[trigger] all[i])
                    && exists|k: int|
                    0 <= k < n && all[i] == paths::joined_path(root, #[trigger] files[k])
        }),
    decreases n,
{
    if n > 0 {
        law_files_are_added_once(start, root, files, n - 1);
        let head = with_new_files(start, root, files, n - 1);
        let path = paths::joined_path(root, files[n - 1]);
        let all = with_new_files(start, root, files, n);
        assert forall|q: Seq<char>| has_path(head, q) implies #[trigger] has_path(all, q) by {
            let i = choose|i: int| 0 <= i < head.len() && paths::same_path(#[trigger] head[i], q);
            assert(all[i] == head[i]);
        }
        if !has_path(head, path) {
            assert(all.last() == path && paths::same_path(all[all.len() - 1], path));
            assert(all.take(head.len() as int) =~= head);
        }
        assert(has_path(all, path));
        assert forall|i: int| start.len() <= i < all.len() implies !has_path(
            all.take(i),
            #[trigger] all[i],
        ) && exists|k: int| 0 <= k < n && all[i] == paths::joined_path(root, #[trigger] files[k]) by {
            if i < head.len() {
                assert(all[i] == head[i]);
                assert(all.take(i) =~= head.take(i));
                let k = choose|k: int|
                    0 <= k < n - 1 && head[i] == paths::joined_path(root, #[trigger] files[k]);
                assert(all[i] == paths::joined_path(root, files[k]));
            } else {
                assert(all[i] == paths::joined_path(root, files[n - 1]));
            }
        }
        assert forall|k: int| 0 <= k < n implies has_path(
            all,
            paths::joined_path(root, #[trigger] files[k]),
        ) by {
            if k < n - 1 {
                assert(has_path(head, paths::joined_path(root, files[k])));
            }
        }
    } else {
        assert(with_new_files(start, root, files, n) == start);
    }
}

/// The files of an agent that may speak of the server though they are not its own rule
/// files.
pub open spec fn fallback_files(agent: Agent, root: Seq<char>) -> Seq<Seq<char>> {
    let own = match targets::first_of_agent(targets::target_rows(), agent, 0) {
        Some(t) => t.files,
        None => Seq::empty(),
    };
    with_new_files(
        files_below(root, own),
        root,
        legacy_files(agent),
        legacy_files(agent).len() as int,
    )
}

fn list_has_path(all: &Vec<String>, path: &str) -> (r: bool)
    ensures
        r == has_path(text::texts(all@), path@),
{
    let ghost texts = text::texts(all@);
    let mut i: usize = 0;
    while i < all.len()
        invariant
            i <= all.len(),
            texts == text::texts(all@),
            forall|k: int| 0 <= k < i ==> !paths::same_path(#[trigger] texts[k], path@),
        decreases all.len() - i,
    {
        assert(texts[i as int] == all@[i as int]@);
        if paths::equal_paths(&all[i], path) {
            return true;
        }
        i += 1;
    }
    false
}

fn legacy_fallbacks(agent: Agent) -> (r: Vec<&'static str>)
    ensures
        tools::names(r@) == legacy_files(agent),
{
    let out: Vec<&'static str> = match agent {
        Agent::Cursor => vec![".cursorrules", ".vscode/mcp.json"],
        Agent::GitHubCopilot => vec![".vscode/mcp.json"],
        Agent::Antigravity => vec![".roomrules"],
        _ => Vec::new(),
    };
    assert(tools::names(out@) =~= legacy_files(agent));
    out
}

/// The files of an agent that may speak of the server though they are not its own rule
/// files, below a workspace's root.
pub fn fallback_paths_for_agent(agent: Agent, workspace_root: &str) -> (r: Vec<String>)
    ensures
        text::texts(r@) == fallback_files(agent, workspace_root@),
{
    let mut own: Vec<&'static str> = Vec::new();
    assert(tools::names(own@) =~= Seq::empty());
    match integration_target_for_agent(agent) {
        Some(target) => {
            own = target.workspace_rule_files;
        },
        None => {},
    }
    let ghost names = tools::names(own@);
    let mut out: Vec<String> = Vec::new();
    let mut i: usize = 0;
    while i < own.len()
        invariant
            i <= own.len(),
            names == tools::names(own@),
            out.len() == i,
            forall|k: int|
                0 <= k < i ==> (#[trigger] out@[k])@ == paths::joined_path(
                    workspace_root@,
                    names[k],
                ),
        decreases own.len() - i,
    {
        assert(names[i as int] == own@[i as int]@);
        out.push(join_path(workspace_root, own[i]));
        i += 1;
    }
    let ghost start = files_below(workspace_root@, names);
    assert(text::texts(out@) =~= start);
    let legacy = legacy_fallbacks(agent);
    let ghost old_names = legacy_files(agent);
    let mut j: usize = 0;
    assert(legacy@.len() == old_names.len()) by {
        assert(tools::names(legacy@).len() == legacy@.len());
    }
    while j < legacy.len()
        invariant
            j <= legacy.len(),
            legacy@.len() == old_names.len(),
            old_names == tools::names(legacy@),
            text::texts(out@) == with_new_files(start, workspace_root@, old_names, j as int),
        decreases legacy.len() - j,
    {
        assert(old_names[j as int] == legacy@[j as int]@);
        let path = join_path(workspace_root, legacy[j]);
        if !list_has_path(&out, &path) {
            let ghost before = out@;
            out.push(path);
            proof {
                text::lemma_texts_push(before, path);
            }
        }
        j += 1;
    }
    out
}

/// Whether a file that holds this speaks of the server.
pub open spec fn file_is_marked(contents: Option<String>) -> bool {
    contents matches Some(s) && rules::is_marked(scan::lowercase(s@))
}

/// The paths among the first `n` whose files speak of the server.
pub open spec fn marked(paths: Seq<Seq<char>>, contents: Seq<Option<String>>, n: int) -> Seq<
    Seq<char>,
>
    decreases n,
{
    if n <= 0 {
        Seq::empty()
    } else if file_is_marked(contents[n - 1]) {
        marked(paths, contents, n - 1).push(paths[n - 1])
    } else {
        marked(paths, contents, n - 1)
    }
}

/// The paths that speak of the server are all whose file does, in order.
pub proof fn law_every_marked_file_is_named(paths: Seq<Seq<char>>, contents: Seq<Option<String>>)
    requires
        paths.len() == contents.len(),
    ensures
        marked(paths, contents, paths.len() as int) == Seq::new(paths.len(), |i: int| i).filter(
            |i: int|
                contents[i] matches Some(s) && (scan::holds(scan::lowercase(s@), "marrow"@)
                    || scan::holds(scan::lowercase(s@), "run_pipeline"@)),
        ).map_values(|i: int| paths[i]),
{
    let keep = |i: int|
        contents[i] matches Some(s) && (scan::holds(scan::lowercase(s@), "marrow"@) || scan::holds(
            scan::lowercase(s@),
            "run_pipeline"@,
        ));
    let path = |i: int| paths[i];
    lemma_marked(paths, contents, paths.len() as int, keep, path);
}

proof fn lemma_marked(
    paths: Seq<Seq<char>>,
    contents: Seq<Option<String>>,
    n: int,
    keep: spec_fn(int) -> bool,
    path: spec_fn(int) -> Seq<char>,
)
    requires
        0 <= n <= paths.len(),
        forall|i: int| #[trigger] keep(i) == file_is_marked(contents[i]),
        forall|i: int| #[trigger] path(i) == paths[i],
    ensures
        marked(paths, contents, n) == Seq::new(n as nat, |i: int| i).filter(keep).map_values(path),
    decreases n,
{
    reveal(Seq::filter);
    let all = Seq::new(n as nat, |i: int| i);
    if n == 0 {
        assert(all.filter(keep).map_values(path) =~= Seq::empty());
    } else {
        lemma_marked(paths, contents, n - 1, keep, path);
        let head = Seq::new((n - 1) as nat, |i: int| i);
        assert(all.drop_last() =~= head);
        assert(all.last() == n - 1);
        if keep(n - 1) {
            assert(head.filter(keep).push(n - 1).map_values(path) =~= head.filter(keep).map_values(
                path,
            ).push(paths[n - 1]));
        }
    }
}

/// The paths whose files speak of the server.
pub fn marked_paths(paths: &Vec<String>, contents: &Vec<Option<String>>) -> (r: Vec<String>)
    requires
        contents.len() == paths.len(),
    ensures
        text::texts(r@) == marked(text::texts(paths@), contents@, paths@.len() as int),
{
    let ghost all = text::texts(paths@);
    let mut out: Vec<String> = Vec::new();
    let mut i: usize = 0;
    assert(text::texts(out@) =~= Seq::empty());
    while i < paths.len()
        invariant
            i <= paths.len(),
            contents.len() == paths.len(),
            all == text::texts(paths@),
            text::texts(out@) == marked(all, contents@, i as int),
        decreases paths.len() - i,
    {
        let held: Option<&str> = match &contents[i] {
            Some(c) => Some(c.as_str()),
            None => None,
        };
        if contains_marrow_marker(held) {
            let ghost before = out@;
            let one = paths[i].clone();
            out.push(one);
            proof {
                text::lemma_texts_push(before, one);
                assert(all[i as int] == one@);
            }
        }
        i += 1;
    }
    out
}

/// What was found of an agent's rules: those of the project and the global ones, where
/// they speak of the server, and the fallback files that do.
pub struct CoverageFacts {
    pub project: Option<String>,
    pub global: Option<String>,
    pub fallbacks: Vec<String>,
}

/// How well an agent is covered, and by what.
pub open spec fn coverage(
    target: Option<TargetText>,
    project: Option<Seq<char>>,
    global: Option<Seq<char>>,
    fallbacks: Seq<Seq<char>>,
) -> (Seq<char>, Seq<char>) {
    match target {
        None => ("unprotected"@, "agent is not registered as a rule-file target"@),
        Some(t) => if t.support.covers(Scope::Project) && project is Some {
            ("protected"@, "project instructions at "@ + project->Some_0)
        } else if t.support.covers(Scope::Global) && global is Some {
            ("protected"@, "global instructions at "@ + global->Some_0)
        } else if fallbacks.len() > 0 {
            (
                "partial"@,
                "fallback workspace files present: "@ + text::joined(fallbacks, ", "@),
            )
        } else {
            ("unprotected"@, "no agent-specific Marrow instruction target found"@)
        },
    }
}

/// How well an agent is covered, and by what.
pub fn coverage_status_for_agent(agent: Agent, facts: &CoverageFacts) -> (r: (&'static str, String))
    ensures
        (r.0@, r.1@) == coverage(
            targets::first_of_agent(targets::target_rows(), agent, 0),
            text::opt_text(facts.project),
            text::opt_text(facts.global),
            text::texts(facts.fallbacks@),
        ),
{
    let target = match integration_target_for_agent(agent) {
        Some(target) => target,
        None => {
            return ("unprotected", "agent is not registered as a rule-file target".to_owned());
        },
    };
    if target.rule_support.supports(Scope::Project) {
        match &facts.project {
            Some(path) => {
                return ("protected", "project instructions at ".to_owned().concat(path));
            },
            None => {},
        }
    }
    if target.rule_support.supports(Scope::Global) {
        match &facts.global {
            Some(path) => {
                return ("protected", "global instructions at ".to_owned().concat(path));
            },
            None => {},
        }
    }
    if facts.fallbacks.len() > 0 {
        return (
            "partial",
            "fallback workspace files present: ".to_owned().concat(&join(&facts.fallbacks, ", ")),
        );
    }
    ("unprotected", "no agent-specific Marrow instruction target found".to_owned())
}

/// An agent in the summary of coverage.
pub struct CoverageLine {
    pub name: String,
    pub status: String,
    pub detail: String,
}

/// The lines of the first `n` agents.
pub open spec fn coverage_lines(lines: Seq<CoverageLine>, n: int) -> Seq<char>
    decreases n,
{
    if n <= 0 {
        "Agent coverage:"@
    } else {
        coverage_lines(lines, n - 1) + ("\n- "@ + lines[n - 1].name@ + ": "@ + lines[n
            - 1].status@ + " ("@ + lines[n - 1].detail@ + ")"@)
    }
}

/// The summary has a line for every agent, in order: its name, and how far it is covered
/// and why.
pub proof fn law_every_agent_has_its_line(lines: Seq<CoverageLine>)
    ensures
        coverage_lines(lines, lines.len() as int) == "Agent coverage:"@ + lines.flat_map(
            |e: CoverageLine| "\n- "@ + e.name@ + ": "@ + e.status@ + " ("@ + e.detail@ + ")"@,
        ),
{
    let entry = |e: CoverageLine| "\n- "@ + e.name@ + ": "@ + e.status@ + " ("@ + e.detail@ + ")"@;
    lemma_coverage_lines(lines, lines.len() as int, entry);
    assert(lines.take(lines.len() as int) =~= lines);
}

proof fn lemma_coverage_lines(
    lines: Seq<CoverageLine>,
    n: int,
    entry: spec_fn(CoverageLine) -> Seq<char>,
)
    requires
        0 <= n <= lines.len(),
        forall|e: CoverageLine| #[trigger]
            entry(e) == "\n- "@ + e.name@ + ": "@ + e.status@ + " ("@ + e.detail@ + ")"@,
    ensures
        coverage_lines(lines, n) == "Agent coverage:"@ + lines.take(n).flat_map(entry),
    decreases n,
{
    if n == 0 {
        assert(lines.take(0).flat_map(entry) =~= Seq::empty());
        text::lemma_put_together("Agent coverage:"@, Seq::empty(), Seq::empty());
    } else {
        lemma_coverage_lines(lines, n - 1, entry);
        lines.lemma_flat_map_take_append(entry, n - 1);
        text::lemma_put_together(
            "Agent coverage:"@,
            lines.take(n - 1).flat_map(entry),
            entry(lines[n - 1]),
        );
    }
}

/// The summary of coverage, an agent to a line.
pub fn format_agent_coverage_summary(lines: &Vec<CoverageLine>) -> (r: String)
    ensures
        r@ == coverage_lines(lines@, lines@.len() as int),
{
    let mut out = "Agent coverage:".to_owned();
    let mut i: usize = 0;
    while i < lines.len()
        invariant
            i <= lines.len(),
            out@ == coverage_lines(lines@, i as int),
        decreases lines.len() - i,
    {
        let line = "\n- ".to_owned().concat(&lines[i].name).concat(": ").concat(
            &lines[i].status,
        ).concat(" (").concat(&lines[i].detail).concat(")");
        out.append(&line);
        i += 1;
    }
    out
}

/// Targets that have an agent with rules.
pub open spec fn has_agent() -> spec_fn(TargetText) -> bool {
    |t: TargetText| t.agent is Some
}

/// The targets that the summary of coverage shows.
pub fn covered_targets() -> (r: Vec<IntegrationTarget>)
    ensures
        targets::target_texts(r@) == selected(
            targets::target_rows(),
            has_agent(),
            targets::target_rows().len() as int,
        ),
{
    let all = integration_targets();
    let ghost rows = targets::target_rows();
    let ghost keep = has_agent();
    let mut out: Vec<IntegrationTarget> = Vec::new();
    let mut i: usize = 0;
    assert(targets::target_texts(out@) =~= Seq::empty());
    while i < all.len()
        invariant
            i <= all.len(),
            rows == targets::target_texts(all@),
            keep == has_agent(),
            targets::target_texts(out@) == selected(rows, keep, i as int),
        decreases all.len() - i,
    {
        assert(rows[i as int] == all@[i as int]@);
        if all[i].rule_agent.is_some() {
            push_target(&mut out, &all[i]);
        }
        i += 1;
    }
    out
}

// ── Setup of a workspace ─────────────────────────────────────────────────────

/// Targets that have rule files in the workspace.
pub open spec fn has_workspace_rules() -> spec_fn(TargetText) -> bool {
    |t: TargetText| t.files.len() > 0
}

/// The targets that have rule files in the workspace.
pub fn workspace_rule_targets() -> (r: Vec<IntegrationTarget>)
    ensures
        targets::target_texts(r@) == selected(
            targets::target_rows(),
            has_workspace_rules(),
            targets::target_rows().len() as int,
        ),
{
    let all = integration_targets();
    let ghost rows = targets::target_rows();
    let ghost keep = has_workspace_rules();
    let mut out: Vec<IntegrationTarget> = Vec::new();
    let mut i: usize = 0;
    assert(targets::target_texts(out@) =~= Seq::empty());
    while i < all.len()
        invariant
            i <= all.len(),
            rows == targets::target_texts(all@),
            keep == has_workspace_rules(),
            targets::target_texts(out@) == selected(rows, keep, i as int),
        decreases all.len() - i,
    {
        assert(rows[i as int] == all@[i as int]@);
        assert(rows[i as int].files.len() == all@[i as int].workspace_rule_files@.len());
        if all[i].workspace_rule_files.len() > 0 {
            push_target(&mut out, &all[i]);
        }
        i += 1;
    }
    out
}

/// The rule files of the first `n` targets that every workspace has.
pub open spec fn baseline_files(rows: Seq<TargetText>, n: int) -> Seq<Seq<char>>
    decreases n,
{
    if n <= 0 {
        Seq::empty()
    } else if rows[n - 1].baseline {
        baseline_files(rows, n - 1) + rows[n - 1].files
    } else {
        baseline_files(rows, n - 1)
    }
}

/// The files of a setup are all of every target of the baseline, in order.
pub proof fn law_every_baseline_target_gives_its_files(rows: Seq<TargetText>)
    ensures
        baseline_files(rows, rows.len() as int) == rows.flat_map(
            |e: TargetText|
                if e.baseline {
                    e.files
                } else {
                    Seq::<Seq<char>>::empty()
                },
        ),
{
    let entry = |e: TargetText|
        if e.baseline {
            e.files
        } else {
            Seq::<Seq<char>>::empty()
        };
    lemma_baseline_files(rows, rows.len() as int, entry);
    assert(rows.take(rows.len() as int) =~= rows);
}

proof fn lemma_baseline_files(
    rows: Seq<TargetText>,
    n: int,
    entry: spec_fn(TargetText) -> Seq<Seq<char>>,
)
    requires
        0 <= n <= rows.len(),
        forall|e: TargetText| #[trigger]
            entry(e) == if e.baseline {
                e.files
            } else {
                Seq::<Seq<char>>::empty()
            },
    ensures
        baseline_files(rows, n) == rows.take(n).flat_map(entry),
    decreases n,
{
    if n == 0 {
        assert(rows.take(0).flat_map(entry) =~= Seq::empty());
    } else {
        lemma_baseline_files(rows, n - 1, entry);
        rows.lemma_flat_map_take_append(entry, n - 1);
        let head = rows.take(n - 1).flat_map(entry);
        assert(head + Seq::empty() =~= head);
    }
}

fn push_all(out: &mut Vec<String>, names: &Vec<&'static str>)
    ensures
        text::texts(final(out)@) == text::texts(old(out)@) + tools::names(names@),
{
    let ghost start = text::texts(out@);
    let ghost all = tools::names(names@);
    let mut i: usize = 0;
    assert(start + all.take(0) =~= start);
    while i < names.len()
        invariant
            i <= names.len(),
            all == tools::names(names@),
            text::texts(out@) == start + all.take(i as int),
        decreases names.len() - i,
    {
        let ghost before = out@;
        let one = names[i].to_owned();
        out.push(one);
        proof {
            text::lemma_texts_push(before, one);
            assert(all[i as int] == one@);
            assert((start + all.take(i as int)).push(one@) =~= start + all.take(i + 1));
        }
        i += 1;
    }
    assert(all.take(all.len() as int) =~= all);
}

/// The rule files that every workspace has.
pub fn baseline_workspace_rule_files() -> (r: Vec<String>)
    ensures
        text::texts(r@) == baseline_files(
            targets::target_rows(),
            targets::target_rows().len() as int,
        ),
{
    let all = integration_targets();
    let ghost rows = targets::target_rows();
    let mut out: Vec<String> = Vec::new();
    let mut i: usize = 0;
    assert(text::texts(out@) =~= Seq::empty());
    while i < all.len()
        invariant
            i <= all.len(),
            rows == targets::target_texts(all@),
            text::texts(out@) == baseline_files(rows, i as int),
        decreases all.len() - i,
    {
        assert(rows[i as int] == all@[i as int]@);
        if all[i].baseline_workspace_required {
            push_all(&mut out, &all[i].workspace_rule_files);
        }
        i += 1;
    }
    out
}

/// The files of a set-up workspace.
pub open spec fn setup_files() -> Seq<char> {
    text::joined(
        baseline_files(targets::target_rows(), targets::target_rows().len() as int).push(
            ".vscode/mcp.json"@,
        ),
        ", "@,
    )
}

/// The files of a set-up workspace.
pub fn format_workspace_setup_files() -> (r: String)
    ensures
        r@ == setup_files(),
{
    let mut files = baseline_workspace_rule_files();
    let ghost before = files@;
    let one = ".vscode/mcp.json".to_owned();
    files.push(one);
    proof {
        text::lemma_texts_push(before, one);
    }
    join(&files, ", ")
}

/// What is told when a workspace has been set up.
pub fn format_workspace_setup_summary(workspace_root: &str, coverage: &str) -> (r: String)
    ensures
        r@ == "[MARROW] Workspace setup complete.\nPath: "@ + workspace_root@ + "\nFiles: "@
            + setup_files()
            + "\nExisting files are preserved when Marrow rules are already present.\nRegistry-backed rule files cover Cursor, Cline, Roo Code, and Windsurf workspace guidance.\n"@
            + coverage@
            + "\nRun `marrow integrate` to install agent-specific instruction files where coverage is still partial or unprotected."@,
{
    "[MARROW] Workspace setup complete.\nPath: ".to_owned().concat(workspace_root).concat(
        "\nFiles: ",
    ).concat(&format_workspace_setup_files()).concat(
        "\nExisting files are preserved when Marrow rules are already present.\nRegistry-backed rule files cover Cursor, Cline, Roo Code, and Windsurf workspace guidance.\n",
    ).concat(coverage).concat(
        "\nRun `marrow integrate` to install agent-specific instruction files where coverage is still partial or unprotected.",
    )
}

/// What a report counts of the calls that were made.
#[derive(Clone, Copy, Debug, PartialEq, Eq, Structural)]
pub struct ComplianceCounts {
    pub pipeline: i64,
    pub autorouted: i64,
    pub rejected: i64,
    pub ambiguous: i64,
    pub stale: i64,
}

/// The report on a workspace. `rate` is the share of calls that went through the
/// pipeline, as it is shown.
pub open spec fn report_text(
    root: Seq<char>,
    coverage: Seq<char>,
    c: ComplianceCounts,
    rate: Seq<char>,
) -> Seq<char> {
    "[MARROW] Validation report\nPath: "@ + root + "\n"@ + coverage
        + "\nCompliance stats:\n- run_pipeline requests: "@ + text::signed_decimal(
        c.pipeline as int,
    ) + "\n- direct low-level auto-routed: "@ + text::signed_decimal(c.autorouted as int)
        + "\n- direct low-level rejected: "@ + text::signed_decimal(c.rejected as int)
        + "\n- ambiguous symbol requests: "@ + text::signed_decimal(c.ambiguous as int)
        + "\n- stale capsule preventions: "@ + text::signed_decimal(c.stale as int)
        + "\n- run_pipeline compliance rate: "@ + rate
}

/// The report on a workspace.
pub fn format_validation_report(
    workspace_root: &str,
    coverage: &str,
    counts: ComplianceCounts,
    rate: &str,
) -> (r: String)
    ensures
        r@ == report_text(workspace_root@, coverage@, counts, rate@),
{
    "[MARROW] Validation report\nPath: ".to_owned().concat(workspace_root).concat("\n").concat(
        coverage,
    ).concat("\nCompliance stats:\n- run_pipeline requests: ").concat(
        &signed_text(counts.pipeline),
    ).concat("\n- direct low-level auto-routed: ").concat(&signed_text(counts.autorouted)).concat(
        "\n- direct low-level rejected: ",
    ).concat(&signed_text(counts.rejected)).concat("\n- ambiguous symbol requests: ").concat(
        &signed_text(counts.ambiguous),
    ).concat("\n- stale capsule preventions: ").concat(&signed_text(counts.stale)).concat(
        "\n- run_pipeline compliance rate: ",
    ).concat(rate)
}

// ── The rules of one workspace ───────────────────────────────────────────────

pub const COPILOT_MENU_LABEL: &'static str = "Copilot MCP (.vscode/mcp.json)";

/// The targets whose rules a workspace can hold.
pub open spec fn rule_rows() -> Seq<TargetText> {
    selected(
        targets::target_rows(),
        has_workspace_rules(),
        targets::target_rows().len() as int,
    )
}

/// A target with its rule files.
pub open spec fn rule_label(t: TargetText) -> Seq<char> {
    t.name + " ("@ + text::joined(t.files, ", "@) + ")"@
}

/// What can be chosen for a workspace: the targets with their rule files, and last the
/// editor's configuration.
pub fn workspace_menu() -> (r: Vec<String>)
    ensures
        text::texts(r@) == Seq::new(rule_rows().len(), |i: int| rule_label(rule_rows()[i])).push(
            COPILOT_MENU_LABEL@,
        ),
{
    let all = workspace_rule_targets();
    let ghost rows = rule_rows();
    let mut out: Vec<String> = Vec::new();
    let mut i: usize = 0;
    while i < all.len()
        invariant
            i <= all.len(),
            rows == targets::target_texts(all@),
            out.len() == i,
            forall|k: int| 0 <= k < i ==> (#[trigger] out@[k])@ == rule_label(rows[k]),
        decreases all.len() - i,
    {
        assert(rows[i as int] == all@[i as int]@);
        let mut files: Vec<String> = Vec::new();
        push_all(&mut files, &all[i].workspace_rule_files);
        assert(text::texts(files@) =~= rows[i as int].files);
        out.push(all[i].name.clone().concat(" (").concat(&join(&files, ", ")).concat(")"));
        i += 1;
    }
    out.push(COPILOT_MENU_LABEL.to_owned());
    assert(text::texts(out@) =~= Seq::new(rows.len(), |i: int| rule_label(rows[i])).push(
        COPILOT_MENU_LABEL@,
    ));
    out
}

/// The rule files of the targets that the first `n` choices name.
pub open spec fn chosen_files(rows: Seq<TargetText>, chosen: Seq<usize>, n: int) -> Seq<Seq<char>>
    decreases n,
{
    if n <= 0 {
        Seq::empty()
    } else if chosen[n - 1] < rows.len() {
        chosen_files(rows, chosen, n - 1) + rows[chosen[n - 1] as int].files
    } else {
        chosen_files(rows, chosen, n - 1)
    }
}

/// The files that are written are all of every target that is chosen, in order.
pub proof fn law_every_chosen_target_gives_its_files(rows: Seq<TargetText>, chosen: Seq<usize>)
    ensures
        chosen_files(rows, chosen, chosen.len() as int) == chosen.flat_map(
            |e: usize|
                if e < rows.len() {
                    rows[e as int].files
                } else {
                    Seq::<Seq<char>>::empty()
                },
        ),
{
    let entry = |e: usize|
        if e < rows.len() {
            rows[e as int].files
        } else {
            Seq::<Seq<char>>::empty()
        };
    lemma_chosen_files(rows, chosen, chosen.len() as int, entry);
    assert(chosen.take(chosen.len() as int) =~= chosen);
}

proof fn lemma_chosen_files(
    rows: Seq<TargetText>,
    chosen: Seq<usize>,
    n: int,
    entry: spec_fn(usize) -> Seq<Seq<char>>,
)
    requires
        0 <= n <= chosen.len(),
        forall|e: usize| #[trigger]
            entry(e) == if e < rows.len() {
                rows[e as int].files
            } else {
                Seq::<Seq<char>>::empty()
            },
    ensures
        chosen_files(rows, chosen, n) == chosen.take(n).flat_map(entry),
    decreases n,
{
    if n == 0 {
        assert(chosen.take(0).flat_map(entry) =~= Seq::empty());
    } else {
        lemma_chosen_files(rows, chosen, n - 1, entry);
        chosen.lemma_flat_map_take_append(entry, n - 1);
        let head = chosen.take(n - 1).flat_map(entry);
        assert(head + Seq::empty() =~= head);
    }
}

/// The rule files of the targets that are chosen.
pub fn chosen_rule_files(chosen: &Vec<usize>) -> (r: Vec<String>)
    ensures
        text::texts(r@) == chosen_files(rule_rows(), chosen@, chosen@.len() as int),
{
    let all = workspace_rule_targets();
    let ghost rows = rule_rows();
    let mut out: Vec<String> = Vec::new();
    let mut i: usize = 0;
    assert(text::texts(out@) =~= Seq::empty());
    while i < chosen.len()
        invariant
            i <= chosen.len(),
            rows == targets::target_texts(all@),
            text::texts(out@) == chosen_files(rows, chosen@, i as int),
        decreases chosen.len() - i,
    {
        let at: usize = chosen[i];
        if at < all.len() {
            assert(rows[at as int] == all@[at as int]@);
            push_all(&mut out, &all[at].workspace_rule_files);
        }
        i += 1;
    }
    out
}

/// Whether the editor's configuration is chosen.
pub fn chooses_editor_config(chosen: &Vec<usize>) -> (r: bool)
    ensures
        r == (exists|i: int| 0 <= i < chosen.len() && #[trigger] chosen@[i] == rule_rows().len()),
{
    let at = workspace_rule_targets().len();
    assert(at == rule_rows().len());
    let mut i: usize = 0;
    while i < chosen.len()
        invariant
            i <= chosen.len(),
            at == rule_rows().len(),
            forall|k: int| 0 <= k < i ==> #[trigger] chosen@[k] != at,
        decreases chosen.len() - i,
    {
        if chosen[i] == at {
            return true;
        }
        i += 1;
    }
    false
}

/// The way of writing that a choice stands for.
pub fn write_mode_for_choice(choice: usize) -> (r: WriteMode)
    ensures
        r == if choice == 1 {
            WriteMode::Overwrite
        } else if choice == 2 {
            WriteMode::Symlink
        } else {
            WriteMode::SafeAppend
        },
{
    if choice == 1 {
        WriteMode::Overwrite
    } else if choice == 2 {
        WriteMode::Symlink
    } else {
        WriteMode::SafeAppend
    }
}

} // verus!
