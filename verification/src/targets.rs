//! The programs that the server is integrated with, and how they are found by name.
use crate::config::ConfigWriter;
use crate::scan;
use crate::scan::{contains, lower, starts_with, trim};
use crate::text;
use crate::text::{chars_of, same};
use crate::tools;
use vstd::prelude::*;
use vstd::string::*;

verus! {

// ── Kinds ────────────────────────────────────────────────────────────────────

/// How far a target is supported.
#[derive(Clone, Copy, Debug, PartialEq, Eq, Structural)]
pub enum IntegrationSupportTier {
    FirstClass,
    Secondary,
    CompatibilityOnly,
}

impl IntegrationSupportTier {
    /// What a tier is called.
    pub fn label(self) -> (r: &'static str)
        ensures
            r@ == match self {
                IntegrationSupportTier::FirstClass => "first-class"@,
                IntegrationSupportTier::Secondary => "secondary"@,
                IntegrationSupportTier::CompatibilityOnly => "compatibility-only"@,
            },
    {
        match self {
            IntegrationSupportTier::FirstClass => "first-class",
            IntegrationSupportTier::Secondary => "secondary",
            IntegrationSupportTier::CompatibilityOnly => "compatibility-only",
        }
    }
}

/// What a target is.
#[derive(Clone, Copy, Debug, PartialEq, Eq, Structural)]
pub enum IntegrationTargetKind {
    Agent,
    Client,
    Host,
    RuntimeBackend,
}

impl IntegrationTargetKind {
    /// What a kind is called.
    pub open spec fn name(self) -> Seq<char> {
        match self {
            IntegrationTargetKind::Agent => "agent"@,
            IntegrationTargetKind::Client => "MCP client"@,
            IntegrationTargetKind::Host => "MCP host"@,
            IntegrationTargetKind::RuntimeBackend => "model/runtime backend"@,
        }
    }

    /// What a kind is called.
    pub fn label(self) -> (r: &'static str)
        ensures
            r@ == self.name(),
    {
        match self {
            IntegrationTargetKind::Agent => "agent",
            IntegrationTargetKind::Client => "MCP client",
            IntegrationTargetKind::Host => "MCP host",
            IntegrationTargetKind::RuntimeBackend => "model/runtime backend",
        }
    }
}

/// Whether the server is registered with a target, or its user is told how to.
#[derive(Clone, Copy, Debug, PartialEq, Eq, Structural)]
pub enum IntegrationSetupMode {
    Automatic,
    Guided,
}

/// Where rules apply.
#[derive(Clone, Copy, Debug, PartialEq, Eq, Structural)]
pub enum Scope {
    Global,
    Project,
}

/// How rules are put in place.
#[derive(Clone, Copy, Debug, PartialEq, Eq, Structural)]
pub enum Method {
    WriteFile,
    Symlink,
}

/// What became of a rule file.
#[derive(Clone, Copy, Debug, PartialEq, Eq, Structural)]
pub enum InstallStatus {
    Written,
    Refreshed,
    PreservedExisting,
}

/// The agents that have rule files of their own.
#[derive(Clone, Copy, Debug, PartialEq, Eq, Structural)]
pub enum Agent {
    Antigravity,
    Cursor,
    GitHubCopilot,
    Cline,
    Zed,
    Windsurf,
    RooCode,
}

/// Where a target reads rule files.
#[derive(Clone, Copy, Debug, PartialEq, Eq, Structural)]
pub enum RuleFileSupport {
    Unsupported,
    ProjectOnly,
    ProjectAndGlobal,
}

impl RuleFileSupport {
    /// Whether rule files are read in a scope.
    pub open spec fn covers(self, scope: Scope) -> bool {
        match self {
            RuleFileSupport::Unsupported => false,
            RuleFileSupport::ProjectOnly => scope == Scope::Project,
            RuleFileSupport::ProjectAndGlobal => true,
        }
    }

    /// Whether rule files are read in a scope.
    pub fn supports(self, scope: Scope) -> (r: bool)
        ensures
            r == self.covers(scope),
    {
        match self {
            RuleFileSupport::Unsupported => false,
            RuleFileSupport::ProjectOnly => scope == Scope::Project,
            RuleFileSupport::ProjectAndGlobal => true,
        }
    }
}

// ── Targets ──────────────────────────────────────────────────────────────────

/// A program that the server can be integrated with.
#[derive(Clone, Debug)]
pub struct IntegrationTarget {
    pub name: String,
    pub aliases: Vec<&'static str>,
    pub support_tier: IntegrationSupportTier,
    pub kind: IntegrationTargetKind,
    pub setup_mode: IntegrationSetupMode,
    pub rule_support: RuleFileSupport,
    pub rule_agent: Option<Agent>,
    pub workspace_rule_files: Vec<&'static str>,
    pub baseline_workspace_required: bool,
    pub allow_config_write: bool,
    pub writer: Option<ConfigWriter>,
}

/// A target without its representation.
pub ghost struct TargetText {
    pub name: Seq<char>,
    pub aliases: Seq<Seq<char>>,
    pub tier: IntegrationSupportTier,
    pub kind: IntegrationTargetKind,
    pub mode: IntegrationSetupMode,
    pub support: RuleFileSupport,
    pub agent: Option<Agent>,
    pub files: Seq<Seq<char>>,
    pub baseline: bool,
    pub writes: bool,
    pub writer: Option<ConfigWriter>,
}

impl View for IntegrationTarget {
    type V = TargetText;

    open spec fn view(&self) -> TargetText {
        TargetText {
            name: self.name@,
            aliases: tools::names(self.aliases@),
            tier: self.support_tier,
            kind: self.kind,
            mode: self.setup_mode,
            support: self.rule_support,
            agent: self.rule_agent,
            files: tools::names(self.workspace_rule_files@),
            baseline: self.baseline_workspace_required,
            writes: self.allow_config_write,
            writer: self.writer,
        }
    }
}

/// The views of a list of targets.
pub open spec fn target_texts(v: Seq<IntegrationTarget>) -> Seq<TargetText> {
    Seq::new(v.len(), |i: int| v[i]@)
}

/// A target that the server registers itself with.
pub open spec fn automatic_row(
    name: Seq<char>,
    aliases: Seq<Seq<char>>,
    kind: IntegrationTargetKind,
    agent: Agent,
    files: Seq<Seq<char>>,
    writer: ConfigWriter,
) -> TargetText {
    TargetText {
        name,
        aliases,
        tier: IntegrationSupportTier::FirstClass,
        kind,
        mode: IntegrationSetupMode::Automatic,
        support: RuleFileSupport::ProjectAndGlobal,
        agent: Some(agent),
        files,
        baseline: files.len() > 0,
        writes: true,
        writer: Some(writer),
    }
}

/// A target whose users are told how to, and that reads rules of the project.
pub open spec fn ruled_row(
    name: Seq<char>,
    aliases: Seq<Seq<char>>,
    kind: IntegrationTargetKind,
    agent: Agent,
    files: Seq<Seq<char>>,
) -> TargetText {
    TargetText {
        name,
        aliases,
        tier: IntegrationSupportTier::FirstClass,
        kind,
        mode: IntegrationSetupMode::Guided,
        support: RuleFileSupport::ProjectOnly,
        agent: Some(agent),
        files,
        baseline: files.len() > 0,
        writes: false,
        writer: None,
    }
}

/// A target whose users are told how to.
pub open spec fn guided_row(
    name: Seq<char>,
    aliases: Seq<Seq<char>>,
    tier: IntegrationSupportTier,
    kind: IntegrationTargetKind,
) -> TargetText {
    TargetText {
        name,
        aliases,
        tier,
        kind,
        mode: IntegrationSetupMode::Guided,
        support: RuleFileSupport::Unsupported,
        agent: None,
        files: Seq::empty(),
        baseline: false,
        writes: false,
        writer: None,
    }
}

fn automatic(
    name: &str,
    aliases: Vec<&'static str>,
    kind: IntegrationTargetKind,
    agent: Agent,
    files: Vec<&'static str>,
    writer: ConfigWriter,
) -> (r: IntegrationTarget)
    ensures
        r@ == automatic_row(
            name@,
            tools::names(aliases@),
            kind,
            agent,
            tools::names(files@),
            writer,
        ),
{
    let baseline = files.len() > 0;
    IntegrationTarget {
        name: name.to_owned(),
        aliases,
        support_tier: IntegrationSupportTier::FirstClass,
        kind,
        setup_mode: IntegrationSetupMode::Automatic,
        rule_support: RuleFileSupport::ProjectAndGlobal,
        rule_agent: Some(agent),
        workspace_rule_files: files,
        baseline_workspace_required: baseline,
        allow_config_write: true,
        writer: Some(writer),
    }
}

fn ruled(
    name: &str,
    aliases: Vec<&'static str>,
    kind: IntegrationTargetKind,
    agent: Agent,
    files: Vec<&'static str>,
) -> (r: IntegrationTarget)
    ensures
        r@ == ruled_row(name@, tools::names(aliases@), kind, agent, tools::names(files@)),
{
    let baseline = files.len() > 0;
    IntegrationTarget {
        name: name.to_owned(),
        aliases,
        support_tier: IntegrationSupportTier::FirstClass,
        kind,
        setup_mode: IntegrationSetupMode::Guided,
        rule_support: RuleFileSupport::ProjectOnly,
        rule_agent: Some(agent),
        workspace_rule_files: files,
        baseline_workspace_required: baseline,
        allow_config_write: false,
        writer: None,
    }
}

fn guided(
    name: &str,
    aliases: Vec<&'static str>,
    tier: IntegrationSupportTier,
    kind: IntegrationTargetKind,
) -> (r: IntegrationTarget)
    ensures
        r@ == guided_row(name@, tools::names(aliases@), tier, kind),
{
    let files: Vec<&'static str> = Vec::new();
    assert(tools::names(files@) =~= Seq::empty());
    IntegrationTarget {
        name: name.to_owned(),
        aliases,
        support_tier: tier,
        kind,
        setup_mode: IntegrationSetupMode::Guided,
        rule_support: RuleFileSupport::Unsupported,
        rule_agent: None,
        workspace_rule_files: files,
        baseline_workspace_required: false,
        allow_config_write: false,
        writer: None,
    }
}

fn no_names() -> (r: Vec<&'static str>)
    ensures
        tools::names(r@) == Seq::<Seq<char>>::empty(),
{
    let out: Vec<&'static str> = Vec::new();
    assert(tools::names(out@) =~= Seq::empty());
    out
}

fn one_name(a: &'static str) -> (r: Vec<&'static str>)
    ensures
        tools::names(r@) == seq![a@],
{
    let out = vec![a];
    assert(tools::names(out@) =~= seq![a@]);
    out
}

fn two_names(a: &'static str, b: &'static str) -> (r: Vec<&'static str>)
    ensures
        tools::names(r@) == seq![a@, b@],
{
    let out = vec![a, b];
    assert(tools::names(out@) =~= seq![a@, b@]);
    out
}

fn three_names(a: &'static str, b: &'static str, c: &'static str) -> (r: Vec<&'static str>)
    ensures
        tools::names(r@) == seq![a@, b@, c@],
{
    let out = vec![a, b, c];
    assert(tools::names(out@) =~= seq![a@, b@, c@]);
    out
}

fn four_names(a: &'static str, b: &'static str, c: &'static str, d: &'static str) -> (r: Vec<
    &'static str,
>)
    ensures
        tools::names(r@) == seq![a@, b@, c@, d@],
{
    let out = vec![a, b, c, d];
    assert(tools::names(out@) =~= seq![a@, b@, c@, d@]);
    out
}

/// All targets, in the order in which they are looked through.
pub open spec fn target_rows() -> Seq<TargetText> {
    seq![
        automatic_row("Antigravity"@, seq!["antigravity"@, "antigravity-gemini"@, "gemini-antigravity"@], IntegrationTargetKind::Agent, Agent::Antigravity, Seq::empty(), ConfigWriter::Antigravity),
        automatic_row("Cursor"@, seq!["cursor"@], IntegrationTargetKind::Client, Agent::Cursor, seq![".cursorrules"@], ConfigWriter::Cursor),
        automatic_row("GitHub Copilot"@, seq!["copilot"@, "github-copilot"@], IntegrationTargetKind::Client, Agent::GitHubCopilot, Seq::empty(), ConfigWriter::Copilot),
        automatic_row("Cline"@, seq!["cline"@], IntegrationTargetKind::Client, Agent::Cline, seq![".clinerules"@], ConfigWriter::Cline),
        automatic_row("Zed"@, seq!["zed"@], IntegrationTargetKind::Client, Agent::Zed, Seq::empty(), ConfigWriter::Zed),
        ruled_row("Windsurf"@, seq!["windsurf"@, "codeium"@, "codeium-windsurf"@, ".windsurfrules"@], IntegrationTargetKind::Client, Agent::Windsurf, seq![".windsurfrules"@]),
        guided_row("Continue"@, seq!["continue"@, "continue-dev"@], IntegrationSupportTier::FirstClass, IntegrationTargetKind::Client),
        ruled_row("Roo Code"@, seq!["roo"@, "roo-code"@, "roocode"@, ".roomrules"@], IntegrationTargetKind::Client, Agent::RooCode, seq![".roomrules"@]),
        guided_row("Goose"@, seq!["goose"@], IntegrationSupportTier::FirstClass, IntegrationTargetKind::Agent),
        guided_row("OpenHands"@, seq!["openhands"@, "open-hands"@], IntegrationSupportTier::FirstClass, IntegrationTargetKind::Host),
        guided_row("OpenClaw"@, seq!["openclaw"@, "open-claw"@], IntegrationSupportTier::FirstClass, IntegrationTargetKind::Host),
        guided_row("Codex CLI"@, seq!["codex"@, "codex-cli"@, "openai-codex"@], IntegrationSupportTier::FirstClass, IntegrationTargetKind::Agent),
        guided_row("Gemini CLI"@, seq!["gemini"@, "gemini-cli"@], IntegrationSupportTier::FirstClass, IntegrationTargetKind::Agent),
        guided_row("JetBrains AI Assistant"@, seq!["jetbrains-ai"@, "jetbrains-ai-assistant"@], IntegrationSupportTier::FirstClass, IntegrationTargetKind::Client),
        guided_row("JetBrains Junie"@, seq!["junie"@, "jetbrains-junie"@], IntegrationSupportTier::FirstClass, IntegrationTargetKind::Agent),
        guided_row("LM Studio"@, seq!["lmstudio"@, "lm-studio"@], IntegrationSupportTier::FirstClass, IntegrationTargetKind::Host),
        guided_row("Kilo Code"@, seq!["kilo"@, "kilo-code"@, "kilocode"@], IntegrationSupportTier::Secondary, IntegrationTargetKind::Client),
        guided_row("Sourcegraph Amp"@, seq!["amp"@, "sourcegraph-amp"@], IntegrationSupportTier::Secondary, IntegrationTargetKind::Agent),
        guided_row("Augment Code"@, seq!["augment"@, "augment-code"@], IntegrationSupportTier::Secondary, IntegrationTargetKind::Client),
        guided_row("Ollama"@, seq!["ollama"@], IntegrationSupportTier::CompatibilityOnly, IntegrationTargetKind::RuntimeBackend),
        guided_row("llama.cpp"@, seq!["llamacpp"@, "llama-cpp"@], IntegrationSupportTier::CompatibilityOnly, IntegrationTargetKind::RuntimeBackend),
        guided_row("vLLM"@, seq!["vllm"@], IntegrationSupportTier::CompatibilityOnly, IntegrationTargetKind::RuntimeBackend),
        guided_row("SGLang"@, seq!["sglang"@], IntegrationSupportTier::CompatibilityOnly, IntegrationTargetKind::RuntimeBackend),
        guided_row("LiteLLM"@, seq!["litellm"@, "lite-llm"@], IntegrationSupportTier::CompatibilityOnly, IntegrationTargetKind::RuntimeBackend),
        guided_row("Ramalama"@, seq!["ramalama"@], IntegrationSupportTier::CompatibilityOnly, IntegrationTargetKind::RuntimeBackend),
        guided_row("Docker Model Runner"@, seq!["docker-model-runner"@, "docker-models"@], IntegrationSupportTier::CompatibilityOnly, IntegrationTargetKind::RuntimeBackend),
    ]
}

/// All targets, in the order in which they are looked through.
pub fn integration_targets() -> (r: Vec<IntegrationTarget>)
    ensures
        target_texts(r@) == target_rows(),
{
    let mut out: Vec<IntegrationTarget> = Vec::new();
    out.push(automatic("Antigravity", three_names("antigravity", "antigravity-gemini", "gemini-antigravity"), IntegrationTargetKind::Agent, Agent::Antigravity, no_names(), ConfigWriter::Antigravity));
    out.push(automatic("Cursor", one_name("cursor"), IntegrationTargetKind::Client, Agent::Cursor, one_name(".cursorrules"), ConfigWriter::Cursor));
    out.push(automatic("GitHub Copilot", two_names("copilot", "github-copilot"), IntegrationTargetKind::Client, Agent::GitHubCopilot, no_names(), ConfigWriter::Copilot));
    out.push(automatic("Cline", one_name("cline"), IntegrationTargetKind::Client, Agent::Cline, one_name(".clinerules"), ConfigWriter::Cline));
    out.push(automatic("Zed", one_name("zed"), IntegrationTargetKind::Client, Agent::Zed, no_names(), ConfigWriter::Zed));
    out.push(ruled("Windsurf", four_names("windsurf", "codeium", "codeium-windsurf", ".windsurfrules"), IntegrationTargetKind::Client, Agent::Windsurf, one_name(".windsurfrules")));
    out.push(guided("Continue", two_names("continue", "continue-dev"), IntegrationSupportTier::FirstClass, IntegrationTargetKind::Client));
    out.push(ruled("Roo Code", four_names("roo", "roo-code", "roocode", ".roomrules"), IntegrationTargetKind::Client, Agent::RooCode, one_name(".roomrules")));
    out.push(guided("Goose", one_name("goose"), IntegrationSupportTier::FirstClass, IntegrationTargetKind::Agent));
    out.push(guided("OpenHands", two_names("openhands", "open-hands"), IntegrationSupportTier::FirstClass, IntegrationTargetKind::Host));
    out.push(guided("OpenClaw", two_names("openclaw", "open-claw"), IntegrationSupportTier::FirstClass, IntegrationTargetKind::Host));
    out.push(guided("Codex CLI", three_names("codex", "codex-cli", "openai-codex"), IntegrationSupportTier::FirstClass, IntegrationTargetKind::Agent));
    out.push(guided("Gemini CLI", two_names("gemini", "gemini-cli"), IntegrationSupportTier::FirstClass, IntegrationTargetKind::Agent));
    out.push(guided("JetBrains AI Assistant", two_names("jetbrains-ai", "jetbrains-ai-assistant"), IntegrationSupportTier::FirstClass, IntegrationTargetKind::Client));
    out.push(guided("JetBrains Junie", two_names("junie", "jetbrains-junie"), IntegrationSupportTier::FirstClass, IntegrationTargetKind::Agent));
    out.push(guided("LM Studio", two_names("lmstudio", "lm-studio"), IntegrationSupportTier::FirstClass, IntegrationTargetKind::Host));
    out.push(guided("Kilo Code", three_names("kilo", "kilo-code", "kilocode"), IntegrationSupportTier::Secondary, IntegrationTargetKind::Client));
    out.push(guided("Sourcegraph Amp", two_names("amp", "sourcegraph-amp"), IntegrationSupportTier::Secondary, IntegrationTargetKind::Agent));
    out.push(guided("Augment Code", two_names("augment", "augment-code"), IntegrationSupportTier::Secondary, IntegrationTargetKind::Client));
    out.push(guided("Ollama", one_name("ollama"), IntegrationSupportTier::CompatibilityOnly, IntegrationTargetKind::RuntimeBackend));
    out.push(guided("llama.cpp", two_names("llamacpp", "llama-cpp"), IntegrationSupportTier::CompatibilityOnly, IntegrationTargetKind::RuntimeBackend));
    out.push(guided("vLLM", one_name("vllm"), IntegrationSupportTier::CompatibilityOnly, IntegrationTargetKind::RuntimeBackend));
    out.push(guided("SGLang", one_name("sglang"), IntegrationSupportTier::CompatibilityOnly, IntegrationTargetKind::RuntimeBackend));
    out.push(guided("LiteLLM", two_names("litellm", "lite-llm"), IntegrationSupportTier::CompatibilityOnly, IntegrationTargetKind::RuntimeBackend));
    out.push(guided("Ramalama", one_name("ramalama"), IntegrationSupportTier::CompatibilityOnly, IntegrationTargetKind::RuntimeBackend));
    out.push(guided("Docker Model Runner", two_names("docker-model-runner", "docker-models"), IntegrationSupportTier::CompatibilityOnly, IntegrationTargetKind::RuntimeBackend));
    assert(target_texts(out@) =~= target_rows());
    out
}

/// An agent that reads rules but that the server is not registered with.
#[derive(Clone, Debug)]
pub struct AgentSkillTarget {
    pub name: String,
    pub aliases: Vec<&'static str>,
    /// The directory of its rules, below the project's root.
    pub skills_dir: String,
    pub scope_support: RuleFileSupport,
}

/// Such an agent without its representation.
pub ghost struct SkillText {
    pub name: Seq<char>,
    pub aliases: Seq<Seq<char>>,
    pub dir: Seq<char>,
    pub support: RuleFileSupport,
}

impl View for AgentSkillTarget {
    type V = SkillText;

    open spec fn view(&self) -> SkillText {
        SkillText {
            name: self.name@,
            aliases: tools::names(self.aliases@),
            dir: self.skills_dir@,
            support: self.scope_support,
        }
    }
}

/// The views of a list of such agents.
pub open spec fn skill_texts(v: Seq<AgentSkillTarget>) -> Seq<SkillText> {
    Seq::new(v.len(), |i: int| v[i]@)
}

/// An agent that reads rules of the project.
pub open spec fn skill_row(name: Seq<char>, aliases: Seq<Seq<char>>, dir: Seq<char>) -> SkillText {
    SkillText { name, aliases, dir, support: RuleFileSupport::ProjectOnly }
}

fn skill(name: &str, aliases: Vec<&'static str>, skills_dir: &str) -> (r: AgentSkillTarget)
    ensures
        r@ == skill_row(name@, tools::names(aliases@), skills_dir@),
{
    AgentSkillTarget {
        name: name.to_owned(),
        aliases,
        skills_dir: skills_dir.to_owned(),
        scope_support: RuleFileSupport::ProjectOnly,
    }
}

/// All agents that read rules in a directory of their own.
pub open spec fn skill_rows() -> Seq<SkillText> {
    seq![
        skill_row("AiderDesk"@, seq!["aider-desk"@], ".aider-desk/skills"@),
        skill_row("Augment"@, seq!["augment"@, "augment-code"@], ".augment/skills"@),
        skill_row("IBM Bob"@, seq!["bob"@, "ibm-bob"@], ".bob/skills"@),
        skill_row("OpenClaw"@, seq!["openclaw"@, "open-claw"@], "skills"@),
        skill_row("CodeArts Agent"@, seq!["codearts-agent"@], ".codeartsdoer/skills"@),
        skill_row("CodeBuddy"@, seq!["codebuddy"@], ".codebuddy/skills"@),
        skill_row("Codemaker"@, seq!["codemaker"@], ".codemaker/skills"@),
        skill_row("Code Studio"@, seq!["codestudio"@, "code-studio"@], ".codestudio/skills"@),
        skill_row("Command Code"@, seq!["command-code"@, "commandcode"@], ".commandcode/skills"@),
        skill_row("Continue"@, seq!["continue"@, "continue-dev"@], ".continue/skills"@),
        skill_row("Cortex Code"@, seq!["cortex"@, "cortex-code"@], ".cortex/skills"@),
        skill_row("Crush"@, seq!["crush"@], ".crush/skills"@),
        skill_row("Devin for Terminal"@, seq!["devin"@], ".devin/skills"@),
        skill_row("Droid"@, seq!["droid"@], ".factory/skills"@),
        skill_row("ForgeCode"@, seq!["forgecode"@, "forge"@], ".forge/skills"@),
        skill_row("Goose"@, seq!["goose"@], ".goose/skills"@),
        skill_row("Hermes Agent"@, seq!["hermes-agent"@], ".hermes/skills"@),
        skill_row("Junie"@, seq!["junie"@, "jetbrains-junie"@], ".junie/skills"@),
        skill_row("iFlow CLI"@, seq!["iflow-cli"@, "iflow"@], ".iflow/skills"@),
        skill_row("Kilo Code"@, seq!["kilo"@, "kilo-code"@, "kilocode"@], ".kilocode/skills"@),
        skill_row("Kiro CLI"@, seq!["kiro-cli"@, "kiro"@], ".kiro/skills"@),
        skill_row("Kode"@, seq!["kode"@], ".kode/skills"@),
        skill_row("MCPJam"@, seq!["mcpjam"@], ".mcpjam/skills"@),
        skill_row("Mistral Vibe"@, seq!["mistral-vibe"@, "vibe"@], ".vibe/skills"@),
        skill_row("Mux"@, seq!["mux"@], ".mux/skills"@),
        skill_row("OpenHands"@, seq!["openhands"@, "open-hands"@], ".openhands/skills"@),
        skill_row("Pi"@, seq!["pi"@], ".pi/skills"@),
        skill_row("Qoder"@, seq!["qoder"@], ".qoder/skills"@),
        skill_row("Qwen Code"@, seq!["qwen-code"@, "qwen"@], ".qwen/skills"@),
        skill_row("Tabnine CLI"@, seq!["tabnine-cli"@, "tabnine"@], ".tabnine/agent/skills"@),
        skill_row("Roo Code"@, seq!["roo-code"@, "roo"@], ".roo/skills"@),
        skill_row("Windsurf"@, seq!["windsurf"@], ".windsurf/skills"@),
        skill_row("Rovo Dev"@, seq!["rovodev"@, "rovo-dev"@], ".rovodev/skills"@),
        skill_row("Trae"@, seq!["trae"@], ".trae/skills"@),
        skill_row("Trae CN"@, seq!["trae-cn"@], ".trae/skills"@),
        skill_row("Zencoder"@, seq!["zencoder"@], ".zencoder/skills"@),
        skill_row("Neovate"@, seq!["neovate"@], ".neovate/skills"@),
        skill_row("Pochi"@, seq!["pochi"@], ".pochi/skills"@),
        skill_row("AdaL"@, seq!["adal"@], ".adal/skills"@),
    ]
}

/// All agents that read rules in a directory of their own.
pub fn agent_skill_targets() -> (r: Vec<AgentSkillTarget>)
    ensures
        skill_texts(r@) == skill_rows(),
{
    let mut out: Vec<AgentSkillTarget> = Vec::new();
    out.push(skill("AiderDesk", one_name("aider-desk"), ".aider-desk/skills"));
    out.push(skill("Augment", two_names("augment", "augment-code"), ".augment/skills"));
    out.push(skill("IBM Bob", two_names("bob", "ibm-bob"), ".bob/skills"));
    out.push(skill("OpenClaw", two_names("openclaw", "open-claw"), "skills"));
    out.push(skill("CodeArts Agent", one_name("codearts-agent"), ".codeartsdoer/skills"));
    out.push(skill("CodeBuddy", one_name("codebuddy"), ".codebuddy/skills"));
    out.push(skill("Codemaker", one_name("codemaker"), ".codemaker/skills"));
    out.push(skill("Code Studio", two_names("codestudio", "code-studio"), ".codestudio/skills"));
    out.push(skill("Command Code", two_names("command-code", "commandcode"), ".commandcode/skills"));
    out.push(skill("Continue", two_names("continue", "continue-dev"), ".continue/skills"));
    out.push(skill("Cortex Code", two_names("cortex", "cortex-code"), ".cortex/skills"));
    out.push(skill("Crush", one_name("crush"), ".crush/skills"));
    out.push(skill("Devin for Terminal", one_name("devin"), ".devin/skills"));
    out.push(skill("Droid", one_name("droid"), ".factory/skills"));
    out.push(skill("ForgeCode", two_names("forgecode", "forge"), ".forge/skills"));
    out.push(skill("Goose", one_name("goose"), ".goose/skills"));
    out.push(skill("Hermes Agent", one_name("hermes-agent"), ".hermes/skills"));
    out.push(skill("Junie", two_names("junie", "jetbrains-junie"), ".junie/skills"));
    out.push(skill("iFlow CLI", two_names("iflow-cli", "iflow"), ".iflow/skills"));
    out.push(skill("Kilo Code", three_names("kilo", "kilo-code", "kilocode"), ".kilocode/skills"));
    out.push(skill("Kiro CLI", two_names("kiro-cli", "kiro"), ".kiro/skills"));
    out.push(skill("Kode", one_name("kode"), ".kode/skills"));
    out.push(skill("MCPJam", one_name("mcpjam"), ".mcpjam/skills"));
    out.push(skill("Mistral Vibe", two_names("mistral-vibe", "vibe"), ".vibe/skills"));
    out.push(skill("Mux", one_name("mux"), ".mux/skills"));
    out.push(skill("OpenHands", two_names("openhands", "open-hands"), ".openhands/skills"));
    out.push(skill("Pi", one_name("pi"), ".pi/skills"));
    out.push(skill("Qoder", one_name("qoder"), ".qoder/skills"));
    out.push(skill("Qwen Code", two_names("qwen-code", "qwen"), ".qwen/skills"));
    out.push(skill("Tabnine CLI", two_names("tabnine-cli", "tabnine"), ".tabnine/agent/skills"));
    out.push(skill("Roo Code", two_names("roo-code", "roo"), ".roo/skills"));
    out.push(skill("Windsurf", one_name("windsurf"), ".windsurf/skills"));
    out.push(skill("Rovo Dev", two_names("rovodev", "rovo-dev"), ".rovodev/skills"));
    out.push(skill("Trae", one_name("trae"), ".trae/skills"));
    out.push(skill("Trae CN", one_name("trae-cn"), ".trae/skills"));
    out.push(skill("Zencoder", one_name("zencoder"), ".zencoder/skills"));
    out.push(skill("Neovate", one_name("neovate"), ".neovate/skills"));
    out.push(skill("Pochi", one_name("pochi"), ".pochi/skills"));
    out.push(skill("AdaL", one_name("adal"), ".adal/skills"));
    assert(skill_texts(out@) =~= skill_rows());
    out
}

// ── Names ────────────────────────────────────────────────────────────────────

/// A name as it is compared: its ASCII letters and digits, in small letters.
pub open spec fn normalized(name: Seq<char>) -> Seq<char>
    decreases name.len(),
{
    if name.len() == 0 {
        name
    } else {
        let head = normalized(name.drop_last());
        if scan::is_ascii_alnum(name.last()) {
            head.push(scan::lower_char(name.last()))
        } else {
            head
        }
    }
}

/// Names are compared by their letters and digits alone, whatever their case.
pub proof fn law_names_are_compared_by_letters_and_digits(name: Seq<char>)
    ensures
        normalized(name) == name.filter(|c: char| scan::is_ascii_alnum(c)).map_values(
            |c: char| scan::lower_char(c),
        ),
{
    let keep = |c: char| scan::is_ascii_alnum(c);
    let lower = |c: char| scan::lower_char(c);
    lemma_normalized(name, keep, lower);
}

proof fn lemma_normalized(
    name: Seq<char>,
    keep: spec_fn(char) -> bool,
    lower: spec_fn(char) -> char,
)
    requires
        forall|c: char| #[trigger] keep(c) == scan::is_ascii_alnum(c),
        forall|c: char| #[trigger] lower(c) == scan::lower_char(c),
    ensures
        normalized(name) == name.filter(keep).map_values(lower),
    decreases name.len(),
{
    reveal(Seq::filter);
    if name.len() == 0 {
        assert(name.filter(keep).map_values(lower) =~= name);
    } else {
        let head = name.drop_last();
        lemma_normalized(head, keep, lower);
        if keep(name.last()) {
            assert(head.filter(keep).push(name.last()).map_values(lower) =~= head.filter(
                keep,
            ).map_values(lower).push(scan::lower_char(name.last())));
        }
    }
}

/// A name as it is compared.
pub fn normalize_integration_name(name: &str) -> (r: String)
    ensures
        r@ == normalized(name@),
{
    let chars = chars_of(name);
    let mut out = String::new();
    let mut i: usize = 0;
    assert(name@.take(0) =~= Seq::empty());
    while i < chars.len()
        invariant
            i <= chars.len(),
            chars@ == name@,
            out@ == normalized(name@.take(i as int)),
        decreases chars.len() - i,
    {
        assert(name@.take(i + 1).drop_last() =~= name@.take(i as int));
        let c: char = chars[i];
        if ('a' <= c && c <= 'z') || ('A' <= c && c <= 'Z') || ('0' <= c && c <= '9') {
            out.push(lower(c));
        }
        i += 1;
    }
    assert(name@.take(name@.len() as int) =~= name@);
    out
}

proof fn lemma_normalized_chars(name: Seq<char>, i: int)
    requires
        0 <= i < normalized(name).len(),
    ensures
        scan::is_ascii_alnum(normalized(name)[i]),
        scan::lower_char(normalized(name)[i]) == normalized(name)[i],
    decreases name.len(),
{
    let head = normalized(name.drop_last());
    if i < head.len() {
        lemma_normalized_chars(name.drop_last(), i);
    } else {
        let c = name.last();
        if 'A' <= c <= 'Z' {
            let d = (c as u32 + 32) as char;
            assert('a' <= d <= 'z');
        }
    }
}

proof fn lemma_normal_stays(s: Seq<char>)
    requires
        forall|i: int|
            0 <= i < s.len() ==> scan::is_ascii_alnum(#[trigger] s[i]) && scan::lower_char(s[i])
                == s[i],
    ensures
        normalized(s) == s,
    decreases s.len(),
{
    if s.len() > 0 {
        lemma_normal_stays(s.drop_last());
        assert(scan::is_ascii_alnum(s[s.len() - 1]));
        assert(s.drop_last().push(s.last()) =~= s);
    }
}

/// A name that is compared once is compared as it is.
pub proof fn law_normalizing_twice_changes_nothing(name: Seq<char>)
    ensures
        normalized(normalized(name)) == normalized(name),
{
    let s = normalized(name);
    assert forall|i: int| 0 <= i < s.len() implies scan::is_ascii_alnum(#[trigger] s[i])
        && scan::lower_char(s[i]) == s[i] by {
        lemma_normalized_chars(name, i);
    }
    lemma_normal_stays(s);
}

/// Whether one of some names is compared like this.
pub open spec fn any_named(all: Seq<Seq<char>>, normal: Seq<char>) -> bool {
    exists|i: int| 0 <= i < all.len() && normalized(#[trigger] all[i]) == normal
}

/// Whether something with a name and aliases goes by a name.
pub open spec fn goes_by(name: Seq<char>, aliases: Seq<Seq<char>>, normal: Seq<char>) -> bool {
    normalized(name) == normal || any_named(aliases, normal)
}

fn is_any_named(all: &Vec<&str>, normal: &str) -> (r: bool)
    ensures
        r == any_named(tools::names(all@), normal@),
{
    let ghost texts = tools::names(all@);
    let mut i: usize = 0;
    while i < all.len()
        invariant
            i <= all.len(),
            texts == tools::names(all@),
            forall|k: int| 0 <= k < i ==> normalized(#[trigger] texts[k]) != normal@,
        decreases all.len() - i,
    {
        assert(texts[i as int] == all@[i as int]@);
        if same(&normalize_integration_name(all[i]), normal) {
            return true;
        }
        i += 1;
    }
    false
}

fn answers_to(name: &str, aliases: &Vec<&'static str>, normal: &str) -> (r: bool)
    ensures
        r == goes_by(name@, tools::names(aliases@), normal@),
{
    same(&normalize_integration_name(name), normal) || is_any_named(aliases, normal)
}

/// The first target, at or behind `from`, that goes by a name.
pub open spec fn first_named(rows: Seq<TargetText>, normal: Seq<char>, from: int) -> Option<
    TargetText,
>
    decreases rows.len() - from,
{
    if from >= rows.len() {
        None
    } else if goes_by(rows[from].name, rows[from].aliases, normal) {
        Some(rows[from])
    } else {
        first_named(rows, normal, from + 1)
    }
}

/// The target that goes by a name is the first whose name or alias is compared like it.
pub proof fn law_targets_are_found_by_any_name(rows: Seq<TargetText>, normal: Seq<char>, from: int)
    requires
        0 <= from <= rows.len(),
    ensures
        first_named(rows, normal, from) is None ==> forall|i: int|
            from <= i < rows.len() ==> !goes_by(
                (#[trigger] rows[i]).name,
                rows[i].aliases,
                normal,
            ),
        first_named(rows, normal, from) matches Some(t) ==> exists|i: int|
            from <= i < rows.len() && #[trigger] rows[i] == t
                && goes_by(t.name, t.aliases, normal) && forall|j: int|
                from <= j < i ==> !goes_by(
                    (#[trigger] rows[j]).name,
                    rows[j].aliases,
                    normal,
                ),
    decreases rows.len() - from,
{
    if from < rows.len() {
        if goes_by(rows[from].name, rows[from].aliases, normal) {
            assert(rows[from] == first_named(rows, normal, from)->Some_0);
        } else {
            law_targets_are_found_by_any_name(rows, normal, from + 1);
            if first_named(rows, normal, from) is Some {
                let t = first_named(rows, normal, from)->Some_0;
                let i = choose|i: int|
                    from + 1 <= i < rows.len() && #[trigger] rows[i] == t
                        && goes_by(t.name, t.aliases, normal)
                        && forall|j: int|
                        from + 1 <= j < i ==> !goes_by(
                            (#[trigger] rows[j]).name,
                            rows[j].aliases,
                            normal,
                        );
                assert(rows[i] == t);
            }
        }
    }
}

/// The target that goes by a name.
pub open spec fn target_named(name: Seq<char>) -> Option<TargetText> {
    first_named(target_rows(), normalized(name), 0)
}

/// The view of an optional target.
pub open spec fn opt_target(v: Option<IntegrationTarget>) -> Option<TargetText> {
    match v {
        Some(t) => Some(t@),
        None => None,
    }
}

/// The target that goes by a name, its own or an alias, however it is spelled.
pub fn integration_target_by_name(name: &str) -> (r: Option<IntegrationTarget>)
    ensures
        opt_target(r) == target_named(name@),
{
    let normal = normalize_integration_name(name);
    let mut all = integration_targets();
    let ghost rows = target_rows();
    let mut i: usize = 0;
    while i < all.len()
        invariant
            i <= all.len(),
            rows == target_rows(),
            target_texts(all@) == rows,
            normal@ == normalized(name@),
            target_named(name@) == first_named(rows, normal@, i as int),
        decreases all.len() - i,
    {
        assert(rows[i as int] == all@[i as int]@);
        if answers_to(&all[i].name, &all[i].aliases, &normal) {
            return Some(all.remove(i));
        }
        i += 1;
    }
    None
}

/// The first target, at or behind `from`, that an agent belongs to.
pub open spec fn first_of_agent(rows: Seq<TargetText>, agent: Agent, from: int) -> Option<
    TargetText,
>
    decreases rows.len() - from,
{
    if from >= rows.len() {
        None
    } else if rows[from].agent == Some(agent) {
        Some(rows[from])
    } else {
        first_of_agent(rows, agent, from + 1)
    }
}

/// The target of an agent is the first that has this agent.
pub proof fn law_agents_have_their_targets(rows: Seq<TargetText>, agent: Agent, from: int)
    requires
        0 <= from <= rows.len(),
    ensures
        first_of_agent(rows, agent, from) is None ==> forall|i: int|
            from <= i < rows.len() ==> (#[trigger] rows[i]).agent != Some(agent),
        first_of_agent(rows, agent, from) matches Some(t) ==> exists|i: int|
            from <= i < rows.len() && #[trigger] rows[i] == t
                && t.agent == Some(agent) && forall|j: int|
                from <= j < i ==> (#[trigger] rows[j]).agent != Some(agent),
    decreases rows.len() - from,
{
    if from < rows.len() {
        if rows[from].agent == Some(agent) {
            assert(rows[from] == first_of_agent(rows, agent, from)->Some_0);
        } else {
            law_agents_have_their_targets(rows, agent, from + 1);
            if first_of_agent(rows, agent, from) is Some {
                let t = first_of_agent(rows, agent, from)->Some_0;
                let i = choose|i: int|
                    from + 1 <= i < rows.len() && #[trigger] rows[i] == t
                        && t.agent == Some(agent)
                        && forall|j: int|
                        from + 1 <= j < i ==> (#[trigger] rows[j]).agent != Some(agent);
                assert(rows[i] == t);
            }
        }
    }
}

/// The target that an agent belongs to.
pub fn integration_target_for_agent(agent: Agent) -> (r: Option<IntegrationTarget>)
    ensures
        opt_target(r) == first_of_agent(target_rows(), agent, 0),
{
    let mut all = integration_targets();
    let ghost rows = target_rows();
    let mut i: usize = 0;
    while i < all.len()
        invariant
            i <= all.len(),
            rows == target_rows(),
            target_texts(all@) == rows,
            first_of_agent(rows, agent, 0) == first_of_agent(rows, agent, i as int),
        decreases all.len() - i,
    {
        assert(rows[i as int] == all@[i as int]@);
        let here = match all[i].rule_agent {
            Some(a) => a == agent,
            None => false,
        };
        if here {
            return Some(all.remove(i));
        }
        i += 1;
    }
    None
}

/// The first agent with rules, at or behind `from`, that goes by a name.
pub open spec fn first_skilled(rows: Seq<SkillText>, normal: Seq<char>, from: int) -> Option<
    SkillText,
>
    decreases rows.len() - from,
{
    if from >= rows.len() {
        None
    } else if goes_by(rows[from].name, rows[from].aliases, normal) {
        Some(rows[from])
    } else {
        first_skilled(rows, normal, from + 1)
    }
}

/// The agent with rules that goes by a name is the first whose name or alias is compared
/// like it.
pub proof fn law_skills_are_found_by_any_name(rows: Seq<SkillText>, normal: Seq<char>, from: int)
    requires
        0 <= from <= rows.len(),
    ensures
        first_skilled(rows, normal, from) is None ==> forall|i: int|
            from <= i < rows.len() ==> !goes_by(
                (#[trigger] rows[i]).name,
                rows[i].aliases,
                normal,
            ),
        first_skilled(rows, normal, from) matches Some(t) ==> exists|i: int|
            from <= i < rows.len() && #[trigger] rows[i] == t
                && goes_by(t.name, t.aliases, normal) && forall|j: int|
                from <= j < i ==> !goes_by(
                    (#[trigger] rows[j]).name,
                    rows[j].aliases,
                    normal,
                ),
    decreases rows.len() - from,
{
    if from < rows.len() {
        if goes_by(rows[from].name, rows[from].aliases, normal) {
            assert(rows[from] == first_skilled(rows, normal, from)->Some_0);
        } else {
            law_skills_are_found_by_any_name(rows, normal, from + 1);
            if first_skilled(rows, normal, from) is Some {
                let t = first_skilled(rows, normal, from)->Some_0;
                let i = choose|i: int|
                    from + 1 <= i < rows.len() && #[trigger] rows[i] == t
                        && goes_by(t.name, t.aliases, normal)
                        && forall|j: int|
                        from + 1 <= j < i ==> !goes_by(
                            (#[trigger] rows[j]).name,
                            rows[j].aliases,
                            normal,
                        );
                assert(rows[i] == t);
            }
        }
    }
}

/// The view of an optional agent with rules.
pub open spec fn opt_skill(v: Option<AgentSkillTarget>) -> Option<SkillText> {
    match v {
        Some(t) => Some(t@),
        None => None,
    }
}

/// The agent with rules that goes by a name.
pub fn agent_skill_target_by_name(name: &str) -> (r: Option<AgentSkillTarget>)
    ensures
        opt_skill(r) == first_skilled(skill_rows(), normalized(name@), 0),
{
    let normal = normalize_integration_name(name);
    let mut all = agent_skill_targets();
    let ghost rows = skill_rows();
    let mut i: usize = 0;
    while i < all.len()
        invariant
            i <= all.len(),
            rows == skill_rows(),
            skill_texts(all@) == rows,
            normal@ == normalized(name@),
            first_skilled(rows, normal@, 0) == first_skilled(rows, normal@, i as int),
        decreases all.len() - i,
    {
        assert(rows[i as int] == all@[i as int]@);
        if answers_to(&all[i].name, &all[i].aliases, &normal) {
            return Some(all.remove(i));
        }
        i += 1;
    }
    None
}

/// What goes by a name: a target, an agent with rules, both or neither.
pub fn combined_target_lookup(name: &str) -> (r: (
    Option<IntegrationTarget>,
    Option<AgentSkillTarget>,
))
    ensures
        opt_target(r.0) == target_named(name@),
        opt_skill(r.1) == first_skilled(skill_rows(), normalized(name@), 0),
{
    (integration_target_by_name(name), agent_skill_target_by_name(name))
}

// ── Directories ──────────────────────────────────────────────────────────────

/// The directory that many agents read rules from.
pub const UNIVERSAL_SKILLS_DIR: &'static str = ".agents/skills";

pub const UNIVERSAL_GROUP_LABEL: &'static str = "Universal (.agents/skills)";

pub const ADDITIONAL_AGENTS_LABEL: &'static str = "Additional agents";

/// The agents that read rules from the universal directory.
pub open spec fn universal_names() -> Seq<Seq<char>> {
    seq![
        "Amp"@,
        "Antigravity"@,
        "Cline"@,
        "Codex"@,
        "Cursor"@,
        "Deep Agents"@,
        "Dexto"@,
        "Firebender"@,
        "Gemini CLI"@,
        "GitHub Copilot"@,
        "Kimi Code CLI"@,
        "OpenCode"@,
        "Warp"@,
    ]
}

/// The agents that read rules from the universal directory.
pub fn universal_agents() -> (r: Vec<&'static str>)
    ensures
        tools::names(r@) == universal_names(),
{
    let out = vec![
        "Amp",
        "Antigravity",
        "Cline",
        "Codex",
        "Cursor",
        "Deep Agents",
        "Dexto",
        "Firebender",
        "Gemini CLI",
        "GitHub Copilot",
        "Kimi Code CLI",
        "OpenCode",
        "Warp",
    ];
    assert(tools::names(out@) =~= universal_names());
    out
}

/// Whether a name is one of an agent that reads the universal directory.
pub fn is_universal_agent_name(name: &str) -> (r: bool)
    ensures
        r == any_named(universal_names(), normalized(name@)),
{
    is_any_named(&universal_agents(), &normalize_integration_name(name))
}

/// A name and aliases as one list.
pub open spec fn all_names(name: Seq<char>, aliases: Seq<Seq<char>>) -> Seq<Seq<char>> {
    seq![name] + aliases
}

/// Whether two lists have a name in common.
pub open spec fn share_name(a: Seq<Seq<char>>, b: Seq<Seq<char>>) -> bool {
    exists|i: int| 0 <= i < a.len() && any_named(b, normalized(#[trigger] a[i]))
}

fn listed_names<'a>(name: &'a str, aliases: &Vec<&'static str>) -> (r: Vec<&'a str>)
    ensures
        tools::names(r@) == all_names(name@, tools::names(aliases@)),
{
    let mut out: Vec<&'a str> = Vec::new();
    out.push(name);
    let mut i: usize = 0;
    while i < aliases.len()
        invariant
            i <= aliases.len(),
            out.len() == i + 1,
            out@[0]@ == name@,
            forall|k: int| 0 <= k < i ==> out@[k + 1]@ == #[trigger] aliases@[k]@,
        decreases aliases.len() - i,
    {
        out.push(aliases[i]);
        assert forall|k: int| 0 <= k < i + 1 implies out@[k + 1]@ == #[trigger] aliases@[k]@ by {}
        i += 1;
    }
    assert(tools::names(out@) =~= all_names(name@, tools::names(aliases@)));
    out
}

fn have_shared_name(a: &Vec<&str>, b: &Vec<&str>) -> (r: bool)
    ensures
        r == share_name(tools::names(a@), tools::names(b@)),
{
    let ghost texts = tools::names(a@);
    let mut i: usize = 0;
    while i < a.len()
        invariant
            i <= a.len(),
            texts == tools::names(a@),
            forall|k: int|
                0 <= k < i ==> !any_named(tools::names(b@), normalized(#[trigger] texts[k])),
        decreases a.len() - i,
    {
        assert(texts[i as int] == a@[i as int]@);
        if is_any_named(b, &normalize_integration_name(a[i])) {
            return true;
        }
        i += 1;
    }
    false
}

/// The first agent with rules, at or behind `from`, that shares a name.
pub open spec fn first_sharing(rows: Seq<SkillText>, names: Seq<Seq<char>>, from: int) -> Option<
    SkillText,
>
    decreases rows.len() - from,
{
    if from >= rows.len() {
        None
    } else if share_name(all_names(rows[from].name, rows[from].aliases), names) {
        Some(rows[from])
    } else {
        first_sharing(rows, names, from + 1)
    }
}

/// The agent with rules that a target is too is the first that shares a name with it.
pub proof fn law_skills_are_found_by_shared_names(
    rows: Seq<SkillText>,
    names: Seq<Seq<char>>,
    from: int,
)
    requires
        0 <= from <= rows.len(),
    ensures
        first_sharing(rows, names, from) is None ==> forall|i: int|
            from <= i < rows.len() ==> !share_name(
                all_names((#[trigger] rows[i]).name, rows[i].aliases),
                names,
            ),
        first_sharing(rows, names, from) matches Some(t) ==> exists|i: int|
            from <= i < rows.len() && #[trigger] rows[i] == t
                && share_name(all_names(t.name, t.aliases), names) && forall|j: int|
                from <= j < i ==> !share_name(
                    all_names((#[trigger] rows[j]).name, rows[j].aliases),
                    names,
                ),
    decreases rows.len() - from,
{
    if from < rows.len() {
        if share_name(all_names(rows[from].name, rows[from].aliases), names) {
            assert(rows[from] == first_sharing(rows, names, from)->Some_0);
        } else {
            law_skills_are_found_by_shared_names(rows, names, from + 1);
            if first_sharing(rows, names, from) is Some {
                let t = first_sharing(rows, names, from)->Some_0;
                let i = choose|i: int|
                    from + 1 <= i < rows.len() && #[trigger] rows[i] == t
                        && share_name(all_names(t.name, t.aliases), names)
                        && forall|j: int|
                        from + 1 <= j < i ==> !share_name(
                            all_names((#[trigger] rows[j]).name, rows[j].aliases),
                            names,
                        );
                assert(rows[i] == t);
            }
        }
    }
}

/// The agent with rules that a target is too.
pub fn agent_skill_target_for_integration_target(target: &IntegrationTarget) -> (r: Option<
    AgentSkillTarget,
>)
    ensures
        opt_skill(r) == first_sharing(
            skill_rows(),
            all_names(target@.name, target@.aliases),
            0,
        ),
{
    let names = listed_names(&target.name, &target.aliases);
    let mut all = agent_skill_targets();
    let ghost rows = skill_rows();
    let mut i: usize = 0;
    while i < all.len()
        invariant
            i <= all.len(),
            rows == skill_rows(),
            skill_texts(all@) == rows,
            tools::names(names@) == all_names(target@.name, target@.aliases),
            first_sharing(rows, all_names(target@.name, target@.aliases), 0) == first_sharing(
                rows,
                all_names(target@.name, target@.aliases),
                i as int,
            ),
        decreases all.len() - i,
    {
        assert(rows[i as int] == all@[i as int]@);
        let own = listed_names(&all[i].name, &all[i].aliases);
        if have_shared_name(&own, &names) {
            return Some(all.remove(i));
        }
        i += 1;
    }
    None
}

/// The first alias, at or behind `from`, that is not a file's name.
pub open spec fn first_plain(aliases: Seq<Seq<char>>, from: int) -> Option<Seq<char>>
    decreases aliases.len() - from,
{
    if from >= aliases.len() {
        None
    } else if !scan::begins(aliases[from], "."@) && !scan::holds(aliases[from], "/"@) {
        Some(aliases[from])
    } else {
        first_plain(aliases, from + 1)
    }
}

/// The alias that a directory is called after is the first that is no file name and no
/// path.
pub proof fn law_plain_aliases_are_no_paths(aliases: Seq<Seq<char>>, from: int)
    requires
        0 <= from <= aliases.len(),
    ensures
        first_plain(aliases, from) is None ==> forall|i: int|
            from <= i < aliases.len() ==> scan::begins(#[trigger] aliases[i], "."@)
                || scan::holds(aliases[i], "/"@),
        first_plain(aliases, from) matches Some(t) ==> exists|i: int|
            from <= i < aliases.len() && #[trigger] aliases[i] == t
                && !scan::begins(t, "."@) && !scan::holds(t, "/"@) && forall|j: int|
                from <= j < i ==> scan::begins(#[trigger] aliases[j], "."@)
                    || scan::holds(aliases[j], "/"@),
    decreases aliases.len() - from,
{
    if from < aliases.len() {
        if !scan::begins(aliases[from], "."@) && !scan::holds(aliases[from], "/"@) {
            assert(aliases[from] == first_plain(aliases, from)->Some_0);
        } else {
            law_plain_aliases_are_no_paths(aliases, from + 1);
            if first_plain(aliases, from) is Some {
                let t = first_plain(aliases, from)->Some_0;
                let i = choose|i: int|
                    from + 1 <= i < aliases.len() && #[trigger] aliases[i] == t
                        && !scan::begins(t, "."@) && !scan::holds(t, "/"@)
                        && forall|j: int|
                        from + 1 <= j < i ==> scan::begins(#[trigger] aliases[j], "."@)
                            || scan::holds(aliases[j], "/"@);
                assert(aliases[i] == t);
            }
        }
    }
}

/// A text with dashes for blanks.
pub open spec fn dashed(s: Seq<char>) -> Seq<char> {
    s.map_values(
        |c: char|
            if c == ' ' {
                '-'
            } else {
                c
            },
    )
}

fn with_dashes(s: &str) -> (r: String)
    ensures
        r@ == dashed(s@),
{
    let chars = chars_of(s);
    let mut out = String::new();
    let mut i: usize = 0;
    while i < chars.len()
        invariant
            i <= chars.len(),
            chars@ == s@,
            out@ == dashed(s@).take(i as int),
        decreases chars.len() - i,
    {
        let c: char = if chars[i] == ' ' {
            '-'
        } else {
            chars[i]
        };
        out.push(c);
        assert(dashed(s@).take(i as int).push(c) =~= dashed(s@).take(i + 1));
        i += 1;
    }
    assert(dashed(s@).take(s@.len() as int) =~= dashed(s@));
    out
}

/// Whether any of some names is one of an agent that reads the universal directory.
pub open spec fn any_universal(names: Seq<Seq<char>>) -> bool {
    share_name(names, universal_names())
}

/// The directory that a target reads rules from: its own, the universal one, or one
/// called after it.
pub open spec fn skill_directory(t: TargetText) -> Seq<char> {
    let names = all_names(t.name, t.aliases);
    match first_sharing(skill_rows(), names, 0) {
        Some(s) => s.dir,
        None => if any_universal(names) {
            UNIVERSAL_SKILLS_DIR@
        } else {
            let base = match first_plain(t.aliases, 0) {
                Some(alias) => alias,
                None => t.name,
            };
            "."@ + dashed(scan::trimmed(base)) + "/skills"@
        },
    }
}

fn plain_alias(aliases: &Vec<&'static str>) -> (r: Option<&'static str>)
    ensures
        text::opt_str(r) == first_plain(tools::names(aliases@), 0),
{
    let ghost texts = tools::names(aliases@);
    let mut i: usize = 0;
    while i < aliases.len()
        invariant
            i <= aliases.len(),
            texts == tools::names(aliases@),
            first_plain(texts, 0) == first_plain(texts, i as int),
        decreases aliases.len() - i,
    {
        assert(texts[i as int] == aliases@[i as int]@);
        if !starts_with(aliases[i], ".") && !contains(aliases[i], "/") {
            return Some(aliases[i]);
        }
        i += 1;
    }
    None
}

/// The directory that a target reads rules from.
pub fn integration_skill_directory(target: &IntegrationTarget) -> (r: String)
    ensures
        r@ == skill_directory(target@),
{
    match agent_skill_target_for_integration_target(target) {
        Some(s) => {
            return s.skills_dir;
        },
        None => {},
    }
    let names = listed_names(&target.name, &target.aliases);
    if have_shared_name(&names, &universal_agents()) {
        return UNIVERSAL_SKILLS_DIR.to_owned();
    }
    let base: &str = match plain_alias(&target.aliases) {
        Some(alias) => alias,
        None => &target.name,
    };
    ".".to_owned().concat(&with_dashes(&trim(base))).concat("/skills")
}

} // verus!
