use marrow::config::{
    apply_edit, config_edits, ensure_workspace_config, ConfigEdit, ConfigWriter, EditNeeds,
    LaunchPlace,
};
use marrow::install::{
    additional_agent_menu, baseline_workspace_rule_files, coverage_status_for_agent,
    fallback_paths_for_agent, format_agent_coverage_summary, format_integration_guidance,
    format_integration_menu_label, format_menu_label, format_rule_install_status_line,
    format_rule_plan_line, format_skill_menu_label, format_validation_report,
    format_workspace_setup_summary, install_status_label, integration_setup_targets,
    interactive_additional_mcp_targets, interactive_mcp_targets,
    interactive_skill_only_agent_target_indices, marked_paths, partition_agent_menu_entries,
    register_integration_target, registration_outcome, rule_install_note, universal_agent_menu,
    universal_agent_menu_labels, AgentMenuEntry, AgentOutcome, ComplianceCounts, CoverageFacts, CoverageLine,
};
use marrow::json::{get, get_text, text_value, Json, Member};
use marrow::launch::{
    command_candidates, gui_safe_path, mcp_launch_spec, mcp_shell_launch_spec,
    validate_marrow_command, Platform,
};
use marrow::rules::{
    contains_marrow_marker, modified_files, workspace_is_initialized,
    workspace_rule_target_indices, workspace_rules_content_soft, write_workspace_rules, RuleFile,
    RuleWrite, WriteMode,
};
use marrow::targets::{
    agent_skill_target_by_name, agent_skill_targets, combined_target_lookup,
    integration_skill_directory, integration_target_by_name, integration_targets,
    normalize_integration_name, universal_agents, Agent, AgentSkillTarget, InstallStatus,
    IntegrationSetupMode, IntegrationSupportTier, IntegrationTargetKind, Scope,
    ADDITIONAL_AGENTS_LABEL, UNIVERSAL_GROUP_LABEL, UNIVERSAL_SKILLS_DIR,
};

#[test]
fn integration_registry_classifies_first_class_secondary_and_compatibility_targets() {
    assert_eq!(
        integration_target_by_name("OpenClaw").map(|target| target.support_tier),
        Some(IntegrationSupportTier::FirstClass)
    );
    assert_eq!(
        integration_target_by_name("Sourcegraph Amp").map(|target| target.support_tier),
        Some(IntegrationSupportTier::Secondary)
    );
    assert_eq!(
        integration_target_by_name("llama.cpp").map(|target| target.support_tier),
        Some(IntegrationSupportTier::CompatibilityOnly)
    );
}

#[test]
fn integration_registry_normalizes_windsurf_and_roo_aliases() {
    assert_eq!(
        integration_target_by_name("codeium windsurf").map(|target| target.name),
        Some("Windsurf".to_string())
    );
    assert_eq!(
        integration_target_by_name("roo").map(|target| target.name),
        Some("Roo Code".to_string())
    );
    assert_eq!(
        integration_target_by_name(".roomrules").map(|target| target.name),
        Some("Roo Code".to_string())
    );
}

#[test]
fn integration_setup_targets_include_direct_and_secondary_but_exclude_compatibility_runtimes() {
    let setup = integration_setup_targets();
    let names: Vec<&str> = setup.iter().map(|target| target.name.as_str()).collect();

    let unique_names: std::collections::BTreeSet<&str> = names.iter().copied().collect();
    assert_eq!(
        names.len(),
        unique_names.len(),
        "integration setup targets should not contain duplicate menu items: {names:?}"
    );

    for name in [
        "Antigravity",
        "Cursor",
        "GitHub Copilot",
        "Cline",
        "Zed",
        "Windsurf",
        "Continue",
        "Roo Code",
        "Goose",
        "OpenHands",
        "OpenClaw",
        "Codex CLI",
        "Gemini CLI",
        "JetBrains AI Assistant",
        "JetBrains Junie",
        "LM Studio",
    ] {
        let target = integration_target_by_name(name).expect("direct target should exist");
        assert!(
            names.contains(&name),
            "{name} should be listed by marrow integrate"
        );
        assert_eq!(target.support_tier, IntegrationSupportTier::FirstClass);
        assert_ne!(target.kind, IntegrationTargetKind::RuntimeBackend);
    }

    for name in ["Kilo Code", "Sourcegraph Amp", "Augment Code"] {
        let target = integration_target_by_name(name).expect("secondary target should exist");
        assert!(
            names.contains(&name),
            "{name} should be surfaced by marrow integrate"
        );
        assert_eq!(target.support_tier, IntegrationSupportTier::Secondary);
        assert_eq!(target.setup_mode, IntegrationSetupMode::Guided);
        assert_eq!(
            format_integration_menu_label(&target),
            format!("{} ({})", target.name, integration_skill_directory(&target)),
            "{name} label should use the target name and integration directory"
        );
    }

    // Every automatic target must appear before every guided target.
    let targets = integration_setup_targets();
    let last_auto = targets
        .iter()
        .rposition(|t| t.setup_mode == IntegrationSetupMode::Automatic);
    let first_guided = targets
        .iter()
        .position(|t| t.setup_mode == IntegrationSetupMode::Guided);
    if let (Some(last_auto_idx), Some(first_guided_idx)) = (last_auto, first_guided) {
        assert!(
            last_auto_idx < first_guided_idx,
            "all automatic targets must appear before all guided targets in integration_setup_targets()"
        );
    }

    for name in [
        "Ollama",
        "llama.cpp",
        "vLLM",
        "SGLang",
        "LiteLLM",
        "Ramalama",
        "Docker Model Runner",
    ] {
        let target = integration_target_by_name(name).expect("runtime target should exist");
        assert!(
            !names.contains(&name),
            "{name} must not be a direct integrate target"
        );
        assert_eq!(
            target.support_tier,
            IntegrationSupportTier::CompatibilityOnly
        );
        assert_eq!(target.kind, IntegrationTargetKind::RuntimeBackend);
    }
}

#[test]
fn openclaw_is_first_class_guided_self_hosted_host() {
    let target = integration_target_by_name("OpenClaw").expect("OpenClaw target should exist");

    assert_eq!(target.support_tier, IntegrationSupportTier::FirstClass);
    assert_eq!(target.kind, IntegrationTargetKind::Host);
    assert_eq!(target.setup_mode, IntegrationSetupMode::Guided);
    assert!(!target.allow_config_write);
    assert!(target.writer.is_none());
    assert!(format_integration_guidance(&target).contains("No config file was written"));
}

#[test]
fn guided_targets_do_not_have_config_writers() {
    for name in [
        "Continue",
        "Codex CLI",
        "Gemini CLI",
        "JetBrains AI Assistant",
        "JetBrains Junie",
        "OpenHands",
        "OpenClaw",
        "LM Studio",
        "Kilo Code",
        "Sourcegraph Amp",
        "Augment Code",
    ] {
        let target = integration_target_by_name(name).expect("target should exist");
        assert_eq!(target.setup_mode, IntegrationSetupMode::Guided);
        assert!(!target.allow_config_write, "{name} must not write config");
        assert!(target.writer.is_none(), "{name} must not have a writer");
    }
}

#[test]
fn compatibility_runtime_guidance_reports_backend_status() {
    for name in [
        "Ollama",
        "llama.cpp",
        "vLLM",
        "SGLang",
        "LiteLLM",
        "Ramalama",
        "Docker Model Runner",
    ] {
        let target = integration_target_by_name(name).expect("runtime target should exist");
        let guidance = format_integration_guidance(&target);

        assert_eq!(
            target.support_tier,
            IntegrationSupportTier::CompatibilityOnly
        );
        assert!(
            guidance.contains("model/runtime backend"),
            "runtime guidance should identify backend status for {name}: {guidance}"
        );
        assert!(
            guidance.contains("not an MCP agent/client/host destination"),
            "runtime guidance should not claim direct MCP client treatment for {name}: {guidance}"
        );
    }
}

#[test]
fn integration_menu_labels_include_directory_convention() {
    for target in integration_setup_targets() {
        let label = format_integration_menu_label(&target);
        assert!(
            label.starts_with(&format!("{} (", target.name)),
            "menu label for {:?} should start with the target name and directory: {label:?}",
            target.name
        );
        assert!(
            label.ends_with(')'),
            "menu label for {:?} should end with a closing parenthesis: {label:?}",
            target.name
        );
    }

    assert_eq!(
        format_integration_menu_label(&integration_target_by_name("Cursor").unwrap()),
        "Cursor (.agents/skills)"
    );
    assert_eq!(
        format_integration_menu_label(&integration_target_by_name("Continue").unwrap()),
        "Continue (.continue/skills)"
    );
    assert_eq!(
        format_integration_menu_label(&integration_target_by_name("Sourcegraph Amp").unwrap()),
        "Sourcegraph Amp (.agents/skills)"
    );
}

#[test]
fn integration_menu_labels_contain_no_legacy_taxonomy_or_file_suffixes() {
    let forbidden = [
        "guided MCP client",
        "guided agent",
        "guided host",
        "secondary, guided setup",
        "manual setup",
        "marrow-optimization.md",
        "->",
    ];

    for target in integration_setup_targets() {
        let label = format_integration_menu_label(&target);

        for substr in forbidden {
            assert!(
                !label.contains(substr),
                "menu label for {:?} must not contain {:?}: {label:?}",
                target.name,
                substr
            );
        }

        // Secondary targets must not expose their tier name in the label
        if target.support_tier == IntegrationSupportTier::Secondary {
            assert!(
                !label.to_lowercase().contains("secondary"),
                "secondary target {:?} must not expose tier name in label: {label:?}",
                target.name
            );
        }

        // Labels must be plain text — no ANSI escape sequences
        assert!(
            !label.contains('\x1b'),
            "menu label for {:?} must contain no ANSI control sequences: {label:?}",
            target.name
        );
    }
}

#[test]
fn integration_menu_universal_group_preserves_upstream_order() {
    let labels = universal_agent_menu_labels();
    let expected: Vec<String> = universal_agents()
        .iter()
        .map(|name| format!("{name} (.agents/skills)"))
        .collect();

    assert_eq!(labels, expected);
    assert_eq!(UNIVERSAL_GROUP_LABEL, "Universal (.agents/skills)");
    assert_eq!(ADDITIONAL_AGENTS_LABEL, "Additional agents");

    for target in &agent_skill_targets() {
        assert_ne!(
            format_skill_menu_label(target),
            format_menu_label(&target.name, UNIVERSAL_SKILLS_DIR),
            "non-standard skill target '{}' must stay out of the universal block",
            target.name
        );
    }
}

#[test]
fn interactive_mcp_menu_places_universal_labels_before_non_standard_labels() {
    let ordered_labels: Vec<String> = interactive_mcp_targets()
        .into_iter()
        .map(|target| format_integration_menu_label(&target))
        .collect();

    let first_non_standard = ordered_labels
        .iter()
        .position(|label| !label.ends_with("(.agents/skills)"))
        .expect("expected at least one non-standard MCP label");

    assert!(
        ordered_labels[..first_non_standard]
            .iter()
            .all(|label| label.ends_with("(.agents/skills)")),
        "universal .agents/skills labels must stay before non-standard MCP labels: {ordered_labels:?}"
    );
    assert!(
        ordered_labels[first_non_standard..]
            .iter()
            .all(|label| !label.ends_with("(.agents/skills)")),
        "non-standard MCP labels must only appear after the universal block: {ordered_labels:?}"
    );
}

#[test]
fn additional_agents_section_contains_non_standard_mcp_labels() {
    let additional_labels: Vec<String> = interactive_additional_mcp_targets()
        .into_iter()
        .map(|target| format_integration_menu_label(&target))
        .collect();

    assert!(
        additional_labels.contains(&"Continue (.continue/skills)".to_string()),
        "non-standard MCP labels should appear in Additional agents: {additional_labels:?}"
    );
    assert!(
        additional_labels.contains(&"Windsurf (.windsurf/skills)".to_string()),
        "overlapping non-standard MCP labels should appear in Additional agents: {additional_labels:?}"
    );
    assert!(
        additional_labels
            .iter()
            .all(|label| !label.ends_with("(.agents/skills)")),
        "Additional agents should only contain non-standard MCP labels: {additional_labels:?}"
    );
}

#[test]
fn additional_agents_prompt_contains_only_skill_only_targets() {
    let skill_only_labels: Vec<String> = interactive_skill_only_agent_target_indices()
        .into_iter()
        .map(|idx| format_skill_menu_label(&agent_skill_targets()[idx]))
        .collect();

    assert!(
        skill_only_labels.contains(&"AiderDesk (.aider-desk/skills)".to_string()),
        "skill-only agents should remain in the additional agents prompt: {skill_only_labels:?}"
    );
    assert!(
        skill_only_labels.contains(&"Trae (.trae/skills)".to_string()),
        "non-MCP agent skills should remain selectable: {skill_only_labels:?}"
    );
    assert!(
        !skill_only_labels.contains(&"Continue (.continue/skills)".to_string()),
        "MCP-capable overlap targets must not repeat in the additional agents prompt: {skill_only_labels:?}"
    );
    assert!(
        !skill_only_labels.contains(&"Windsurf (.windsurf/skills)".to_string()),
        "MCP-capable overlap targets must stay in the unified MCP prompt: {skill_only_labels:?}"
    );
}

#[test]
fn unified_agent_menu_orders_universal_first_then_additional() {
    let (universal_entries, universal_labels) = universal_agent_menu();
    let (additional_entries, additional_labels) = additional_agent_menu();

    assert_eq!(
        universal_entries.len(),
        universal_labels.len(),
        "universal menu should have matching entry and label counts"
    );
    assert_eq!(
        additional_entries.len(),
        additional_labels.len(),
        "additional menu should have matching entry and label counts"
    );
    assert!(
        !universal_entries.is_empty(),
        "universal menu should not be empty"
    );
    assert!(
        !additional_entries.is_empty(),
        "additional menu should not be empty"
    );

    // Universal labels are just the agent name — no config suffix
    assert_eq!(
        universal_labels.len(),
        universal_agents().len(),
        "universal menu should have one entry per UNIVERSAL_AGENTS"
    );
    assert!(
        universal_labels.contains(&"Amp".to_string()),
        "universal menu should list agents by name only: {universal_labels:?}"
    );
    assert!(
        universal_labels.contains(&"Deep Agents".to_string()),
        "universal menu should include universal-only agents by name: {universal_labels:?}"
    );
    for label in &universal_labels {
        assert!(
            !label.contains('('),
            "universal agent labels must not contain a config suffix: {label}"
        );
    }

    let mut has_universal_no_mcp = false;
    let mut has_universal_mcp = false;
    for entry in &universal_entries {
        match entry {
            AgentMenuEntry::Mcp(_) => has_universal_mcp = true,
            AgentMenuEntry::UniversalNoMcpTarget => has_universal_no_mcp = true,
            AgentMenuEntry::SkillOnly(_) => {
                panic!("universal menu should not contain skill-only entries")
            }
        }
    }
    assert!(
        has_universal_mcp,
        "universal menu should contain at least one MCP target"
    );
    assert!(
        has_universal_no_mcp,
        "universal menu should contain at least one universal-only entry"
    );

    // Additional labels include the config suffix
    assert!(
        additional_labels.contains(&"AiderDesk (.aider-desk/skills)".to_string()),
        "additional menu should include skill-only entries with config suffix: {additional_labels:?}"
    );
    assert!(
        additional_entries
            .iter()
            .any(|e| matches!(e, AgentMenuEntry::SkillOnly(_))),
        "additional menu should contain skill-only entries like AiderDesk"
    );
}

#[test]
fn unified_agent_menu_partition_handles_universal_only_empty_and_mixed_selections() {
    let (universal_entries, universal_labels) = universal_agent_menu();
    let (additional_entries, additional_labels) = additional_agent_menu();

    let universal_only_idx = universal_labels
        .iter()
        .position(|label| label == "Deep Agents")
        .expect("Deep Agents should be selectable as a universal no-MCP target");
    let selected = vec![universal_entries[universal_only_idx].clone()];
    let (mcp, skill, has_universal_no_mcp_target) = partition_agent_menu_entries(&selected);
    assert!(
        mcp.is_empty(),
        "universal-only selection should not add MCP targets"
    );
    assert!(
        skill.is_empty(),
        "universal-only selection should not add skill-only targets"
    );
    assert!(
        has_universal_no_mcp_target,
        "universal-only selection should prevent the no-selection early return"
    );

    let empty_selection: Vec<AgentMenuEntry> = Vec::new();
    let (mcp, skill, has_universal_no_mcp_target) =
        partition_agent_menu_entries(&empty_selection);
    assert!(mcp.is_empty());
    assert!(skill.is_empty());
    assert!(!has_universal_no_mcp_target);

    let continue_idx = additional_labels
        .iter()
        .position(|label| label == "Continue (.continue/skills)")
        .expect("Continue should be selectable as an additional MCP target");
    let aider_idx = additional_labels
        .iter()
        .position(|label| label == "AiderDesk (.aider-desk/skills)")
        .expect("AiderDesk should be selectable as an additional skill-only target");
    let selected = vec![
        additional_entries[continue_idx].clone(),
        additional_entries[aider_idx].clone(),
    ];
    let (mcp, skill, has_universal_no_mcp_target) = partition_agent_menu_entries(&selected);
    assert_eq!(mcp.len(), 1, "mixed selection should preserve MCP targets");
    assert_eq!(mcp[0].name, "Continue");
    assert_eq!(
        skill.len(),
        1,
        "mixed selection should preserve skill-only targets"
    );
    assert_eq!(agent_skill_targets()[skill[0]].name, "AiderDesk");
    assert!(!has_universal_no_mcp_target);
}

#[test]
fn agent_skill_targets_have_unique_names() {
    let mut seen_names = std::collections::HashSet::new();
    let mut seen_aliases = std::collections::HashSet::new();
    for target in &agent_skill_targets() {
        assert!(
            seen_names.insert(target.name.clone()),
            "duplicate AgentSkillTarget name: {}",
            target.name
        );
        for alias in &target.aliases {
            assert!(
                seen_aliases.insert(*alias),
                "duplicate AgentSkillTarget alias '{}' in '{}'",
                alias,
                target.name
            );
        }
    }
    // Intentional overlap is allowed for these agents that appear in both
    // INTEGRATION_TARGETS (MCP config) and agent_skill_targets() (skill path).
    let overlap_allowed: std::collections::HashSet<&str> =
        ["roocode", "windsurf"].into_iter().collect();
    for target in &agent_skill_targets() {
        let normalized = normalize_integration_name(&target.name);
        if overlap_allowed.contains(normalized.as_str()) {
            continue;
        }
        for it in &integration_targets() {
            if it.rule_agent.is_some() && normalize_integration_name(&it.name) == normalized {
                panic!(
                    "AgentSkillTarget '{}' overlaps IntegrationTarget '{}' which has rule_agent",
                    target.name, it.name
                );
            }
        }
    }
}

#[test]
fn agent_skill_targets_have_nonempty_skills_dir() {
    for target in &agent_skill_targets() {
        assert!(
            !target.skills_dir.is_empty(),
            "AgentSkillTarget '{}' has empty skills_dir",
            target.name
        );
        assert!(
            !target.skills_dir.starts_with('/'),
            "AgentSkillTarget '{}' skills_dir must be relative: {}",
            target.name,
            target.skills_dir
        );
    }
}

#[test]
fn agent_skill_targets_no_universal_dup() {
    for target in &agent_skill_targets() {
        assert_ne!(
            target.skills_dir, ".agents/skills",
            "AgentSkillTarget '{}' must not duplicate the universal path",
            target.name
        );
    }
}

#[test]
fn universal_agents_contains_expected_visible_upstream_entries() {
    assert_eq!(
        universal_agents().len(),
        13,
        "UNIVERSAL_AGENTS should have exactly 13 visible upstream universal agents"
    );

    let expected = [
        "Amp",
        "Antigravity",
        "Cline",
        "Codex",
        "Cursor",
        "Deep Agents",
        "Dexto",
        "Firebender",
        "Gemini CLI",
        "GitHub Copilot",
        "Kimi Code CLI",
        "OpenCode",
        "Warp",
    ];
    for name in expected {
        assert!(
            universal_agents().contains(&name),
            "UNIVERSAL_AGENTS should contain {name}"
        );
    }
}

#[test]
fn universal_agents_excludes_hidden_entries() {
    for hidden in ["Replit", "Universal"] {
        assert!(
            !universal_agents().contains(&hidden),
            "UNIVERSAL_AGENTS must not include hidden entry {hidden}"
        );
    }
}

#[test]
fn agent_skill_target_by_name_finds_entries() {
    assert!(
        agent_skill_target_by_name("AiderDesk").is_some(),
        "should find AiderDesk by name"
    );
    assert!(
        agent_skill_target_by_name("aider-desk").is_some(),
        "should find AiderDesk by alias"
    );
}

#[test]
fn agent_skill_target_by_name_returns_none_for_unknown() {
    assert!(agent_skill_target_by_name("Nonexistent Agent").is_none());
}

#[test]
fn agent_skill_target_exhaustive_fields() {
    // Destructure without `..` so adding a new field to AgentSkillTarget
    // causes a compile error here, forcing the test to be updated.
    let AgentSkillTarget {
        name,
        aliases,
        skills_dir,
        scope_support,
    } = &agent_skill_targets()[0];
    assert!(!name.is_empty());
    assert!(!aliases.is_empty());
    assert!(!skills_dir.is_empty());
    // scope_support must be a valid variant (this binds it, ensuring the field exists).
    let _ = scope_support.supports(Scope::Project);
}

#[test]
fn combined_target_lookup_finds_skill_only() {
    let (mcp, skill) = combined_target_lookup("AiderDesk");
    assert!(mcp.is_none(), "AiderDesk should not be an MCP target");
    assert!(skill.is_some(), "AiderDesk should be a skill target");
}

#[test]
fn combined_target_lookup_finds_mcp_only() {
    let (mcp, skill) = combined_target_lookup("Cursor");
    assert!(mcp.is_some(), "Cursor should be an MCP target");
    assert!(skill.is_none(), "Cursor should not be a skill target");
}

#[test]
fn combined_target_lookup_finds_overlap() {
    let (mcp, skill) = combined_target_lookup("Goose");
    assert!(mcp.is_some(), "Goose should be an MCP target");
    assert!(skill.is_some(), "Goose should be a skill target");
}

#[test]
fn combined_target_lookup_roo_code_dual_hit() {
    let (mcp, skill) = combined_target_lookup("Roo Code");
    assert!(mcp.is_some(), "Roo Code should be an MCP target");
    assert!(skill.is_some(), "Roo Code should also be a skill target");
    assert_eq!(skill.unwrap().skills_dir, ".roo/skills");
}

#[test]
fn combined_target_lookup_windsurf_dual_hit() {
    let (mcp, skill) = combined_target_lookup("Windsurf");
    assert!(mcp.is_some(), "Windsurf should be an MCP target");
    assert!(skill.is_some(), "Windsurf should also be a skill target");
    assert_eq!(skill.unwrap().skills_dir, ".windsurf/skills");
}

#[test]
fn trae_and_trae_cn_are_distinct_entries_with_shared_path() {
    let trae = agent_skill_target_by_name("Trae");
    let trae_cn = agent_skill_target_by_name("Trae CN");
    assert!(trae.is_some(), "Trae should exist");
    assert!(trae_cn.is_some(), "Trae CN should exist");
    let trae = trae.unwrap();
    let trae_cn = trae_cn.unwrap();
    assert_ne!(trae.name, trae_cn.name, "names must differ");
    assert_eq!(
        trae.skills_dir, trae_cn.skills_dir,
        "Trae and Trae CN should share .trae/skills"
    );
    assert_eq!(trae.skills_dir, ".trae/skills");
}

#[test]
fn new_upstream_targets_resolve_correctly() {
    let cases = [
        ("Rovo Dev", ".rovodev/skills"),
        ("Zencoder", ".zencoder/skills"),
        ("Neovate", ".neovate/skills"),
        ("Pochi", ".pochi/skills"),
        ("AdaL", ".adal/skills"),
    ];
    for (name, expected_dir) in cases {
        let target = agent_skill_target_by_name(name);
        assert!(
            target.is_some(),
            "{name} should be found in AGENT_SKILL_TARGETS"
        );
        assert_eq!(target.unwrap().skills_dir, expected_dir);
    }
}

#[test]
fn integration_menu_skill_labels_include_directory_convention() {
    for target in &agent_skill_targets() {
        let label = format_skill_menu_label(target);
        assert!(
            label.starts_with(&format!("{} (", target.name)),
            "skill label for '{}' must start with the display name and directory: {label:?}",
            target.name
        );
        assert!(
            label.ends_with(')'),
            "skill label for '{}' must end with a closing parenthesis: {label:?}",
            target.name
        );
    }
}

#[test]
fn integration_menu_skill_labels_contain_no_taxonomy_or_file_suffixes() {
    let forbidden = [
        "guided MCP client",
        "guided agent",
        "guided host",
        "secondary, guided setup",
        "manual setup",
        "marrow-optimization.md",
        "->",
    ];

    for target in &agent_skill_targets() {
        let label = format_skill_menu_label(target);
        for substr in forbidden {
            assert!(
                !label.contains(substr),
                "skill label for {:?} must not contain {:?}: {label:?}",
                target.name,
                substr
            );
        }
        assert!(
            !label.contains('\x1b'),
            "skill label for {:?} must contain no ANSI control sequences: {label:?}",
            target.name
        );
    }
}

#[test]
fn rule_install_note_mentions_optional_rules_and_preservation() {
    let note = rule_install_note();
    assert!(
        note.contains("native instruction surface"),
        "expected Marrow usage guidance: {note}"
    );
    assert!(
        note.contains("custom files are preserved"),
        "expected preservation guidance: {note}"
    );
    assert!(
        note.contains("updated"),
        "expected refresh guidance: {note}"
    );
}

#[test]
fn install_status_label_reports_refreshed_as_updated() {
    assert_eq!(
        install_status_label(InstallStatus::Written),
        "installed"
    );
    assert_eq!(
        install_status_label(InstallStatus::Refreshed),
        "updated"
    );
    assert_eq!(
        install_status_label(InstallStatus::PreservedExisting),
        "preserved existing"
    );
}

fn assert_soft_workspace_guidance(text: &str) {
    assert!(
        text.contains("MARROW AST CONTEXT ENGINE"),
        "soft guidance must retain the Marrow sentinel: {text}"
    );
    assert!(
        text.contains("find_symbol"),
        "soft guidance should document find_symbol routing: {text}"
    );
    assert!(
        text.contains("Native read/search tools are fine"),
        "soft guidance should allow native read/search for narrow lookups: {text}"
    );

    for forbidden in [
        "STRICT WORKFLOW PROTOCOL",
        "For EVERY coding task",
        "strictly forbidden",
        "Never read raw files directly",
        "forbidden from using `grep`",
        "native tool to fetch neighbor bodies",
    ] {
        assert!(
            !text.contains(forbidden),
            "soft guidance must not contain strict-only wording {forbidden:?}: {text}"
        );
    }
}

fn object(value: &Json) -> &Vec<Member> {
    match value {
        Json::Object(members) => members,
        other => panic!("expected an object, got {other:?}"),
    }
}

fn list(value: &Json) -> &Vec<Json> {
    match value {
        Json::List(values) => values,
        other => panic!("expected a list, got {other:?}"),
    }
}

fn text(value: &Json) -> &str {
    match value {
        Json::Text(s) => s,
        other => panic!("expected a text, got {other:?}"),
    }
}

/// The value behind a path of keys.
fn at<'a>(value: &'a Json, keys: &[&str]) -> &'a Json {
    let mut current = value;
    for key in keys {
        current = get(object(current), key).unwrap_or_else(|| panic!("no {key} in {current:?}"));
    }
    current
}

fn place(home: &str, search_path: &str) -> LaunchPlace {
    LaunchPlace {
        home: home.to_string(),
        platform: Platform::MacOs,
        has_zsh: true,
        search_path: search_path.to_string(),
        cline_config: "storage/settings/cline_mcp_settings.json".to_string(),
    }
}

fn empty() -> Json {
    Json::Object(Vec::new())
}

/// The configuration that an edit leaves of an empty one, by the edit's path.
fn written(writer: ConfigWriter, home: &str, search_path: &str) -> Vec<(String, Json)> {
    config_edits(writer, &place(home, search_path))
        .into_iter()
        .map(|edit| (edit.path.clone(), apply_edit(empty(), edit).unwrap()))
        .collect()
}

fn file<'a>(files: &'a [(String, Json)], tail: &str) -> &'a Json {
    &files
        .iter()
        .find(|(path, _)| path.ends_with(tail))
        .unwrap_or_else(|| panic!("{tail} is not written: {files:?}"))
        .1
}

#[test]
fn guided_registration_does_not_create_config_files() {
    for name in [
        "Continue",
        "Codex CLI",
        "Gemini CLI",
        "JetBrains AI Assistant",
        "JetBrains Junie",
        "OpenHands",
        "OpenClaw",
        "LM Studio",
        "Kilo Code",
        "Sourcegraph Amp",
        "Augment Code",
    ] {
        let target = integration_target_by_name(name).unwrap();
        let writer = register_integration_target(&target).unwrap();

        assert_eq!(writer, None, "guided target {name} must not create config files");
        assert!(
            format_integration_guidance(&target).contains("No config file was written"),
            "{name} should provide configuration guidance without claiming a write"
        );
    }
}

#[test]
fn automatic_writer_failure_is_not_downgraded_to_guided_setup() {
    let target = integration_target_by_name("Cursor").unwrap();
    let writer = register_integration_target(&target).unwrap();
    // What writing below a home that is a file gives.
    let failure = std::io::Error::from_raw_os_error(20).to_string();

    let err = registration_outcome(writer, Err(failure))
        .expect_err("automatic writer failures should remain errors");

    assert!(
        err.contains("Not a directory") || err.contains("not a directory"),
        "unexpected writer error: {err}"
    );
}

#[test]
fn registrations_come_to_what_was_written() {
    let automatic = Some(ConfigWriter::Cursor);
    assert_eq!(registration_outcome(automatic, Ok(true)), Ok(AgentOutcome::Installed));
    assert_eq!(registration_outcome(automatic, Ok(false)), Ok(AgentOutcome::NotFound));
    assert_eq!(registration_outcome(None, Ok(true)), Ok(AgentOutcome::Guided));
}

#[test]
fn automatic_targets_are_registered_by_their_writers() {
    let target = integration_target_by_name("Cursor").unwrap();
    assert_eq!(register_integration_target(&target).unwrap(), Some(ConfigWriter::Cursor));
}

#[test]
fn universal_skill_path_is_agents_skills() {
    let path = std::path::PathBuf::from(".agents/skills").join("marrow-optimization.md");
    assert_eq!(
        path,
        std::path::PathBuf::from(".agents/skills/marrow-optimization.md")
    );
    assert_eq!(UNIVERSAL_SKILLS_DIR, ".agents/skills");
}

#[test]
fn windsurf_and_roo_rule_files_are_first_class_coverage_evidence() {
    let lines: Vec<CoverageLine> = [
        ("Windsurf", Agent::Windsurf, "/w/.windsurfrules"),
        ("Roo Code", Agent::RooCode, "/w/.roomrules"),
    ]
    .into_iter()
    .map(|(name, agent, rules)| {
        let facts = CoverageFacts {
            project: Some(rules.to_string()),
            global: None,
            fallbacks: Vec::new(),
        };
        let (status, detail) = coverage_status_for_agent(agent, &facts);
        CoverageLine { name: name.to_string(), status: status.to_string(), detail }
    })
    .collect();

    let summary = format_agent_coverage_summary(&lines);

    assert!(
        summary.contains("Windsurf: protected"),
        "Windsurf should be protected through registry-backed coverage: {summary}"
    );
    assert!(
        summary.contains("Roo Code: protected"),
        "Roo Code should be protected through registry-backed coverage: {summary}"
    );
    assert!(
        !summary.contains("legacy") && !summary.contains("Windsurf: partial"),
        "legacy partial Windsurf line should be gone: {summary}"
    );
    assert_eq!(summary.matches("Windsurf:").count(), 1, "{summary}");
    assert_eq!(summary.matches("Roo Code:").count(), 1, "{summary}");
}

#[test]
fn workspace_initialization_uses_registry_baseline_rule_files() {
    let rules = baseline_workspace_rule_files();
    let unmarked: Vec<bool> = rules.iter().map(|_| contains_marrow_marker(None)).collect();
    assert!(
        !workspace_is_initialized(true, true, true, &unmarked),
        "baseline workspace rule files should still be required"
    );

    let marked: Vec<bool> = rules
        .iter()
        .map(|_| contains_marrow_marker(Some("MARROW AST CONTEXT ENGINE")))
        .collect();
    assert!(workspace_is_initialized(true, true, true, &marked));
    assert!(!workspace_is_initialized(true, false, true, &marked));
}

fn coverage(agent: Agent, root: &str, contents: &[(&str, &str)]) -> (&'static str, String) {
    let paths = fallback_paths_for_agent(agent, root);
    let held: Vec<Option<String>> = paths
        .iter()
        .map(|path| {
            contents
                .iter()
                .find(|(name, _)| *path == format!("{root}/{name}"))
                .map(|(_, text)| text.to_string())
        })
        .collect();
    let facts = CoverageFacts {
        project: None,
        global: None,
        fallbacks: marked_paths(&paths, &held),
    };
    coverage_status_for_agent(agent, &facts)
}

#[test]
fn github_copilot_workspace_mcp_config_counts_as_fallback_coverage() {
    let (status, detail) = coverage(
        Agent::GitHubCopilot,
        "/w",
        &[(".vscode/mcp.json", r#"{"servers":{"marrow":{}}}"#)],
    );

    assert_eq!(status, "partial", "Copilot MCP fallback detail: {detail}");
    assert!(
        detail.contains(".vscode/mcp.json"),
        "Copilot fallback should cite workspace MCP config: {detail}"
    );
}

#[test]
fn antigravity_roomrules_counts_as_fallback_coverage() {
    let (status, detail) = coverage(Agent::Antigravity, "/w", &[(".roomrules", "marrow")]);

    assert_eq!(status, "partial", "Antigravity fallback detail: {detail}");
    assert!(
        detail.contains(".roomrules"),
        "Antigravity fallback should cite .roomrules: {detail}"
    );
}

#[test]
fn agent_coverage_summary_reports_partial_for_cursor_fallback_files() {
    let (status, detail) =
        coverage(Agent::Cursor, "/w", &[(".cursorrules", "marrow"), (".vscode/mcp.json", "{}")]);
    let lines =
        vec![CoverageLine { name: "Cursor".to_string(), status: status.to_string(), detail }];
    let summary = format_agent_coverage_summary(&lines);
    assert!(
        summary.contains("Cursor: partial"),
        "cursor fallback coverage should be partial: {summary}"
    );
    assert_eq!(
        summary,
        "Agent coverage:\n- Cursor: partial (fallback workspace files present: /w/.cursorrules)"
    );
}

#[test]
fn agent_coverage_ignores_unrelated_instruction_file_contents() {
    assert!(!contains_marrow_marker(Some("unrelated content")));
    let (status, _) = coverage(Agent::Cursor, "/w", &[(".cursorrules", "unrelated content")]);
    assert_eq!(
        status, "unprotected",
        "non-Marrow files should not count as protected"
    );
}

/// What a rule file holds once it has been written.
fn content(file: &RuleFile) -> &str {
    match &file.write {
        RuleWrite::Create(text) | RuleWrite::Replace(text) | RuleWrite::Append(text) => text,
        other => panic!("{} is not written: {other:?}", file.path),
    }
}

#[test]
fn write_workspace_rules_preserves_legacy_numeric_indices() {
    let files = write_workspace_rules(
        "/w",
        &vec![0, 1, 2],
        &workspace_rules_content_soft(),
        WriteMode::SafeAppend,
        &vec![None, None, None, None],
    );

    for filename in [
        ".cursorrules",
        ".windsurfrules",
        ".clinerules",
        ".roomrules",
    ] {
        let written = files
            .iter()
            .find(|file| file.path == format!("/w/{filename}"))
            .unwrap_or_else(|| panic!("missing legacy rule file {filename}"));
        assert_soft_workspace_guidance(content(written));
    }
    assert_eq!(
        modified_files(&files).len(),
        4,
        "legacy indices should write four files"
    );
}

#[test]
fn legacy_strict_config_is_normalized_to_default() {
    let config = Json::Object(vec![Member {
        key: "enforcement_mode".to_string(),
        value: text_value("strict"),
    }]);
    let completed = ensure_workspace_config(config);
    assert_eq!(
        get_text(object(&completed), "enforcement_mode"),
        Some("default"),
        "legacy strict enforcement_mode must be normalized to default: {completed:?}"
    );
}

#[test]
fn workspace_setup_writes_elastic_rules_regardless_of_legacy_strict_arg() {
    let indices = workspace_rule_target_indices();
    let files = write_workspace_rules(
        ".",
        &indices,
        &workspace_rules_content_soft(),
        WriteMode::SafeAppend,
        &vec![None, None, None, None],
    );
    let config = Json::Object(vec![Member {
        key: "enforcement_mode".to_string(),
        value: text_value("strict"),
    }]);
    let completed = ensure_workspace_config(config);
    assert_eq!(
        get_text(object(&completed), "enforcement_mode"),
        Some("default"),
        "workspace_setup must normalize enforcement_mode to default: {completed:?}"
    );

    assert_eq!(files.len(), 4);
    for file in &files {
        let content = content(file);
        assert!(
            content.contains("MARROW AST CONTEXT ENGINE"),
            "rule file {} must contain soft sentinel: {content}",
            file.path
        );
        assert!(
            !content.contains("STRICT WORKFLOW PROTOCOL"),
            "rule file {} must not contain strict heading: {content}",
            file.path
        );
    }
}

#[test]
fn format_rule_plan_line_includes_target_and_source() {
    let line = format_rule_plan_line(
        "GitHub Copilot",
        ".github/instructions/marrow-optimization.instructions.md",
        "/tmp/home/.marrow/marrow-optimization.md",
    );
    assert!(
        line.contains("GitHub Copilot"),
        "agent name missing: {line}"
    );
    assert!(
        line.contains(".github/instructions/marrow-optimization.instructions.md"),
        "target path missing: {line}"
    );
    assert!(
        line.contains("/tmp/home/.marrow/marrow-optimization.md"),
        "source path missing: {line}"
    );
}

#[test]
fn format_rule_install_status_line_reports_preserved_targets() {
    let line = format_rule_install_status_line(
        "Cursor",
        InstallStatus::PreservedExisting,
        "/tmp/home/.cursor/rules/marrow-optimization.mdc",
    );
    assert!(line.contains("rules preserved"), "status missing: {line}");
    assert!(
        line.contains(".cursor/rules/marrow-optimization.mdc"),
        "target path missing: {line}"
    );
}

#[test]
fn format_rule_install_status_line_reports_refreshed_targets() {
    let line = format_rule_install_status_line(
        "GitHub Copilot",
        InstallStatus::Refreshed,
        "/tmp/home/.github/instructions/marrow-optimization.instructions.md",
    );
    assert!(line.contains("rules refreshed"), "status missing: {line}");
    assert!(
        line.contains(".github/instructions/marrow-optimization.instructions.md"),
        "target path missing: {line}"
    );
}

#[test]
fn workspace_setup_summary_matches_newer_installer_expectations() {
    let coverage = format_agent_coverage_summary(&Vec::new());
    let summary = format_workspace_setup_summary("/tmp/workspace", &coverage);
    assert!(
        summary.contains("Existing files are preserved"),
        "preservation guidance missing: {summary}"
    );
    assert!(
        summary.contains("Agent coverage"),
        "agent coverage summary missing: {summary}"
    );
    assert!(
        summary.contains("/tmp/workspace"),
        "workspace path missing: {summary}"
    );
}

#[test]
fn validation_report_includes_compliance_counters() {
    let counts =
        ComplianceCounts { pipeline: 5, autorouted: 2, rejected: 1, ambiguous: 3, stale: 4 };
    let coverage = format_agent_coverage_summary(&Vec::new());
    let report = format_validation_report("/tmp/workspace", &coverage, counts, "62.5%");

    assert!(
        report.contains("run_pipeline requests: 5"),
        "pipeline count missing: {report}"
    );
    assert!(
        report.contains("direct low-level auto-routed: 2"),
        "autoroute count missing: {report}"
    );
    assert!(
        report.contains("direct low-level rejected: 1"),
        "reject count missing: {report}"
    );
    assert!(report.ends_with("- run_pipeline compliance rate: 62.5%"), "{report}");
}

#[test]
fn mcp_launch_spec_is_portable_command_not_absolute_path() {
    let spec = mcp_launch_spec();
    let cmd = get_text(&spec, "command").expect("command must be a string");
    assert_eq!(cmd, "marrow");
    assert!(
        !cmd.starts_with('/'),
        "command must not be an absolute path: {cmd}"
    );
    assert_eq!(text(&list(get(&spec, "args").unwrap())[0]), "mcp");
}

#[test]
fn mcp_shell_launch_spec_uses_absolute_shell_and_invokes_marrow_mcp() {
    for (platform, has_zsh) in [
        (Platform::MacOs, false),
        (Platform::Linux, true),
        (Platform::Linux, false),
        (Platform::Other, false),
        (Platform::Windows, false),
    ] {
        let spec = mcp_shell_launch_spec(platform, has_zsh);
        let cmd = get_text(&spec, "command").expect("command must be a string");
        let args_str: Vec<&str> = list(get(&spec, "args").unwrap()).iter().map(text).collect();

        if platform == Platform::Windows {
            assert!(
                cmd.ends_with(".exe"),
                "shell must be an .exe on Windows: {cmd}"
            );
        } else {
            assert!(
                cmd.starts_with('/'),
                "shell must be an absolute path on Unix: {cmd}"
            );
        }

        let full = args_str.join(" ");
        assert!(
            full.contains("marrow mcp"),
            "args must invoke 'marrow mcp': {full}"
        );
    }
}

#[test]
fn gui_safe_path_places_binary_dir_first() {
    let path = gui_safe_path("/usr/local/bin/marrow", "/home/u", None);
    let first = path.split(':').next().unwrap();
    assert_eq!(first, "/usr/local/bin");
}

#[test]
fn gui_safe_path_includes_cargo_bin() {
    let path = gui_safe_path("/some/other/marrow", "/home/u", None);
    assert!(
        path.contains(".cargo/bin"),
        "expected .cargo/bin in: {path}"
    );
}

#[test]
fn gui_safe_path_has_no_duplicate_entries() {
    // /usr/local/bin is in our static list AND is the binary dir here — must not duplicate.
    let path = gui_safe_path("/usr/local/bin/marrow", "/home/u", Some("/usr/bin:/usr/local/bin:/usr/bin"));
    let segments: Vec<&str> = path.split(':').collect();
    let unique: std::collections::HashSet<_> = segments.iter().collect();
    assert_eq!(
        segments.len(),
        unique.len(),
        "duplicate entries in PATH: {path}"
    );
}

#[test]
fn gui_safe_path_is_non_empty_with_empty_binary() {
    let path = gui_safe_path("", "/home/u", None);
    assert!(!path.is_empty(), "PATH must never be empty");
    assert!(path.contains("/usr/local/bin"));
}

#[test]
fn validate_marrow_command_error_lists_searched_dirs() {
    let searched = "/dir/one:/dir/two:/dir/three";
    let runnable: Vec<bool> = command_candidates(searched).iter().map(|_| false).collect();
    let result = validate_marrow_command(searched, &runnable);
    assert!(result.is_err());
    let msg = result.unwrap_err();
    assert!(msg.contains("/dir/one"), "expected dir in error: {msg}");
    assert!(msg.contains("/dir/two"), "expected dir in error: {msg}");
}

#[test]
fn validate_marrow_command_fails_on_nonexistent_path() {
    let searched = "/nonexistent/path:/also/nonexistent";
    let runnable: Vec<bool> = command_candidates(searched).iter().map(|_| false).collect();
    let result = validate_marrow_command(searched, &runnable);
    assert!(result.is_err());
    let msg = result.unwrap_err();
    assert!(
        msg.contains("not found"),
        "error should mention not found: {msg}"
    );
}

#[test]
fn a_missing_program_is_reported_with_every_directory() {
    let dirs: Vec<String> = (0..9).map(|i| format!("/d{i}")).collect();
    let err = validate_marrow_command(&dirs.join(":"), &vec![false; 9]).unwrap_err();
    assert!(err.contains(&format!("Searched: {}\n", dirs.join(", "))), "{err}");
}

#[test]
fn validate_marrow_command_accepts_a_program_that_can_be_run() {
    let searched = "/dir/one:/dir/two";
    assert_eq!(command_candidates(searched), vec!["/dir/one/marrow", "/dir/two/marrow"]);
    assert_eq!(validate_marrow_command(searched, &vec![false, true]), Ok(()));
}

#[test]
fn integrate_antigravity_writes_command_marrow_with_env_path() {
    let files = written(ConfigWriter::Antigravity, "/h", "/absolute/path/to:/usr/bin");
    let cfg = file(&files, "/h/.gemini/antigravity/mcp_config.json");
    let cmd = text(at(cfg, &["mcpServers", "marrow", "command"]));
    assert_eq!(cmd, "marrow");
    assert_eq!(
        text(at(cfg, &["mcpServers", "marrow", "env", "PATH"])),
        "/absolute/path/to:/usr/bin"
    );
}

#[test]
fn integrate_cursor_uses_shell_wrapper() {
    let files = written(ConfigWriter::Cursor, "/h", "/absolute/path/to:/usr/bin");
    let cfg = file(&files, "/h/.cursor/mcp.json");
    let cmd = text(at(cfg, &["mcpServers", "marrow", "command"]));
    // Cursor uses shell wrapper — cmd is the shell binary, not "marrow".
    assert!(
        cmd.ends_with("zsh") || cmd.ends_with("bash"),
        "expected shell binary, got: {cmd}"
    );
    let args = list(at(cfg, &["mcpServers", "marrow", "args"]));
    assert_eq!(text(&args[0]), "-lc");
    assert!(text(&args[1]).contains("marrow mcp"));
    assert!(
        !format!("{cfg:?}").contains("/absolute/path/to/marrow"),
        "binary path must not leak into config"
    );
}

#[test]
fn integrate_copilot_vscode_uses_shell_wrapper() {
    let files = written(ConfigWriter::Copilot, "/h", "/absolute/path/to:/usr/bin");
    let cfg = file(&files, "Library/Application Support/Code/User/mcp.json");
    let cmd = text(at(cfg, &["servers", "marrow", "command"]));
    assert!(
        cmd.ends_with("zsh") || cmd.ends_with("bash"),
        "vscode: expected shell binary, got: {cmd}"
    );
    assert_eq!(text(&list(at(cfg, &["servers", "marrow", "args"]))[0]), "-lc");
    assert!(!format!("{cfg:?}").contains("/absolute/path/to/marrow"));
}

#[test]
fn integrate_copilot_cli_uses_shell_wrapper() {
    let files = written(ConfigWriter::Copilot, "/h", "/absolute/path/to:/usr/bin");
    let cfg = file(&files, "/h/.copilot/mcp-config.json");
    let cmd = text(at(cfg, &["mcpServers", "marrow", "command"]));
    assert!(
        cmd.ends_with("zsh") || cmd.ends_with("bash"),
        "copilot cli: expected shell binary, got: {cmd}"
    );
    assert_eq!(text(&list(at(cfg, &["mcpServers", "marrow", "args"]))[0]), "-lc");
    assert_eq!(text(at(cfg, &["mcpServers", "marrow", "type"])), "stdio");
    assert!(!format!("{cfg:?}").contains("/absolute/path/to/marrow"));
}

#[test]
fn integrate_cline_uses_shell_wrapper() {
    let files = written(ConfigWriter::Cline, "/h", "/absolute/path/to:/usr/bin");
    let cfg = file(&files, "/h/storage/settings/cline_mcp_settings.json");
    let cmd = text(at(cfg, &["mcpServers", "marrow", "command"]));
    assert!(
        cmd.ends_with("zsh") || cmd.ends_with("bash"),
        "cline: expected shell binary, got: {cmd}"
    );
    assert_eq!(text(&list(at(cfg, &["mcpServers", "marrow", "args"]))[0]), "-lc");
    assert!(matches!(at(cfg, &["mcpServers", "marrow", "disabled"]), Json::Bool(false)));
    assert!(!format!("{cfg:?}").contains("/absolute/path/to/marrow"));
}

#[test]
fn integrate_zed_writes_command_marrow_with_env_path() {
    let files = written(ConfigWriter::Zed, "/h", "/absolute/path/to:/usr/bin");
    let cfg = file(&files, "/h/.config/zed/settings.json");
    let path_val = text(at(cfg, &["context_servers", "marrow", "command", "path"]));
    assert_eq!(
        path_val, "marrow",
        "Zed command.path must be 'marrow', got: {path_val}"
    );
    assert!(!path_val.starts_with('/'));
    assert_eq!(
        text(at(cfg, &["context_servers", "marrow", "command", "env", "PATH"])),
        "/absolute/path/to:/usr/bin"
    );
}

#[test]
fn no_integrate_fn_leaks_binary_path_into_config() {
    let binary = "/some/absolute/path/to/marrow-unique-sentinel";
    let search_path = gui_safe_path(binary, "/h", None);
    let mut files: Vec<(String, Json)> = Vec::new();
    for writer in [
        ConfigWriter::Antigravity,
        ConfigWriter::Cursor,
        ConfigWriter::Copilot,
        ConfigWriter::Cline,
        ConfigWriter::Zed,
    ] {
        files.extend(written(writer, "/h", &search_path));
    }

    for rel_path in [
        ".cursor/mcp.json",
        ".copilot/mcp-config.json",
        "Library/Application Support/Code/User/mcp.json",
        "storage/settings/cline_mcp_settings.json",
        ".config/zed/settings.json",
    ] {
        let cfg = file(&files, &format!("/h/{rel_path}"));
        assert!(
            !format!("{cfg:?}").contains(binary),
            "{rel_path}: binary path leaked into config:\n{cfg:?}"
        );
    }

    let zed = file(&files, "/h/.config/zed/settings.json");
    assert_eq!(text(at(zed, &["context_servers", "marrow", "command", "path"])), "marrow");

    for (rel, section) in [
        (".cursor/mcp.json", "mcpServers"),
        ("Library/Application Support/Code/User/mcp.json", "servers"),
        ("storage/settings/cline_mcp_settings.json", "mcpServers"),
    ] {
        let cfg = file(&files, &format!("/h/{rel}"));
        let cmd = text(at(cfg, &[section, "marrow", "command"]));
        assert!(
            cmd.ends_with("zsh") || cmd.ends_with("bash"),
            "{rel}: expected shell wrapper, got: {cmd}"
        );
    }
}

#[test]
fn an_edit_of_what_is_no_object_is_refused() {
    let edit = ConfigEdit {
        path: "/h/x.json".to_string(),
        needs: EditNeeds::Nothing,
        optional: false,
        section: "mcpServers",
        entry: empty(),
    };
    assert!(apply_edit(Json::Text("x".to_string()), edit).is_none());
}
