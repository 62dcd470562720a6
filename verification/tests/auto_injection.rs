use codex_skill_routing::auto_injection::maybe_collect_desktop_top_level_skill_injection;
use codex_skill_routing::router_selection::PluginRouterSelection;
use codex_skill_routing::router_selection::PluginRouterSelectionDomain;
use codex_skill_routing::skills::SkillMetadata;
use codex_skill_routing::skills::SkillRouteEntry;
use codex_skill_routing::skills::SkillRouteMetadata;
use codex_skill_routing::skills::UserInput;

const APPLE_TARGET_SKILL: &str = "apple-appdev-workflow:apple-app-orchestrator";
const APPLE_REVIEW_SKILL: &str = "apple-appdev-workflow:apple-review-orchestrator";
const APPLE_DECISION_STRESS_SKILL: &str = "apple-appdev-workflow:apple-decision-stress-test";

/// The working directory the scenarios run in.
const ROOT: &str = "/tmp/skill-injection";

fn path(relative: &str) -> String {
    format!("{ROOT}/{relative}")
}

fn make_skill(name: &str, path: &str) -> SkillMetadata {
    SkillMetadata {
        name: name.to_string(),
        description: format!("{name} skill"),
        path_to_skills_md: path.to_string(),
    }
}

fn text(text: &str) -> UserInput {
    UserInput::Text {
        text: text.to_string(),
        text_elements: Vec::new(),
    }
}

fn skill_input(name: &str, path: &str) -> UserInput {
    UserInput::Skill {
        name: name.to_string(),
        path: path.to_string(),
    }
}

fn router_selection(select: &str) -> PluginRouterSelection {
    PluginRouterSelection {
        host_scopes: vec!["desktop".to_string()],
        domains: vec![PluginRouterSelectionDomain {
            prompt_signals: vec!["kubernetes".to_string()],
            workspace_files: vec!["kustomization.yaml".to_string()],
            workspace_extensions: vec!["tf".to_string()],
            select: select.to_string(),
        }],
        ..PluginRouterSelection::default()
    }
}

fn apple_router_selection(select: &str) -> PluginRouterSelection {
    PluginRouterSelection {
        host_scopes: vec!["desktop".to_string()],
        domains: vec![PluginRouterSelectionDomain {
            prompt_signals: vec!["ios".to_string(), "swiftui".to_string()],
            workspace_files: vec!["Package.swift".to_string()],
            workspace_extensions: vec!["xcodeproj".to_string(), "xcworkspace".to_string()],
            select: select.to_string(),
        }],
        ..PluginRouterSelection::default()
    }
}

/// What reading a skill file written with route metadata gives.
fn route_entry(path: &str, role: &str, routing_scope: &str) -> SkillRouteEntry {
    SkillRouteEntry {
        path: path.to_string(),
        metadata: Some(SkillRouteMetadata {
            role: Some(role.to_string()),
            routing_scope: Some(routing_scope.to_string()),
        }),
    }
}

fn entries(names: &[&str]) -> Vec<Option<String>> {
    names.iter().map(|name| Some(name.to_string())).collect()
}

fn names(skills: Vec<SkillMetadata>) -> Vec<String> {
    skills.into_iter().map(|skill| skill.name).collect()
}

fn injected_apple_skill_names_with_explicit(
    inputs: &[UserInput],
    explicit_skills: &[SkillMetadata],
    skills: &[SkillMetadata],
    workspace: &[Option<String>],
    route_metadata: &[SkillRouteEntry],
) -> Vec<String> {
    names(maybe_collect_desktop_top_level_skill_injection(
        inputs,
        explicit_skills,
        skills,
        &Vec::new(),
        &[apple_router_selection(APPLE_TARGET_SKILL)],
        Some("desktop-client"),
        &workspace.to_vec(),
        &route_metadata.to_vec(),
        true,
    ))
}

fn injected_apple_skill_names(
    inputs: &[UserInput],
    skills: &[SkillMetadata],
    workspace: &[Option<String>],
    route_metadata: &[SkillRouteEntry],
) -> Vec<String> {
    injected_apple_skill_names_with_explicit(inputs, &[], skills, workspace, route_metadata)
}

#[test]
fn desktop_client_with_apple_prompt_requires_router_selection_metadata() {
    let skills = vec![make_skill(APPLE_TARGET_SKILL, &path("SKILL.md"))];
    let inputs = vec![text("Create a new iOS SwiftUI app.")];

    let injected = maybe_collect_desktop_top_level_skill_injection(
        &inputs,
        &[],
        &skills,
        &Vec::new(),
        &[],
        Some("desktop-client"),
        &Vec::new(),
        &Vec::new(),
        true,
    );

    assert!(injected.is_empty());
}

#[test]
fn non_desktop_client_does_not_inject() {
    let skills = vec![make_skill(APPLE_TARGET_SKILL, &path("SKILL.md"))];
    let inputs = vec![text("Create a new iOS SwiftUI app.")];

    let injected = maybe_collect_desktop_top_level_skill_injection(
        &inputs,
        &[],
        &skills,
        &Vec::new(),
        &[apple_router_selection(APPLE_TARGET_SKILL)],
        Some("codex-tui"),
        &Vec::new(),
        &Vec::new(),
        true,
    );

    assert!(injected.is_empty());
}

#[test]
fn disabled_experiment_does_not_inject() {
    let skills = vec![make_skill(APPLE_TARGET_SKILL, &path("SKILL.md"))];
    let inputs = vec![text("Audit this UIKit screen.")];

    let injected = maybe_collect_desktop_top_level_skill_injection(
        &inputs,
        &[],
        &skills,
        &Vec::new(),
        &[apple_router_selection(APPLE_TARGET_SKILL)],
        Some("desktop-client"),
        &Vec::new(),
        &Vec::new(),
        false,
    );

    assert!(injected.is_empty());
}

#[test]
fn apple_workspace_signal_injects_without_prompt_keywords() {
    let skills = vec![make_skill(APPLE_TARGET_SKILL, &path("SKILL.md"))];
    let inputs = vec![text("Review the current branch diff for bugs.")];

    let injected = maybe_collect_desktop_top_level_skill_injection(
        &inputs,
        &[],
        &skills,
        &Vec::new(),
        &[apple_router_selection(APPLE_TARGET_SKILL)],
        Some("desktop-client"),
        &entries(&["Package.swift"]),
        &Vec::new(),
        true,
    );

    assert_eq!(1, injected.len());
}

#[test]
fn router_selection_release_prompt_variant_matrix_matches_contract() {
    let owner_path = path("owner/SKILL.md");
    let review_path = path("review/SKILL.md");
    let decision_path = path("decision/SKILL.md");
    let route_metadata = vec![
        route_entry(&review_path, "brigade-orchestrator", "domain"),
        route_entry(&decision_path, "specialist", "focused"),
    ];
    let workspace = entries(&["review", "decision"]);
    let skills = vec![make_skill(APPLE_TARGET_SKILL, &owner_path)];

    let cases = [
        (
            "natural Apple prompt injects owner",
            vec![text("Review this iOS branch diff for bugs.")],
            vec![APPLE_TARGET_SKILL],
        ),
        (
            "explicit top-level prompt does not duplicate owner",
            vec![
                skill_input(&format!("${APPLE_TARGET_SKILL}"), &path("owner/SKILL.md")),
                text("Review this iOS branch diff for bugs."),
            ],
            vec![],
        ),
        (
            "explicit downstream domain prompt preserves owner",
            vec![
                skill_input(&format!("${APPLE_REVIEW_SKILL}"), &review_path),
                text("Review this iOS branch diff for bugs."),
            ],
            vec![APPLE_TARGET_SKILL],
        ),
        (
            "explicit narrow specialist prompt stays isolated",
            vec![
                skill_input(&format!("${APPLE_DECISION_STRESS_SKILL}"), &decision_path),
                text("Stress test this iOS architecture decision."),
            ],
            vec![],
        ),
    ];

    for (case, inputs, expected) in cases {
        assert_eq!(
            expected.into_iter().map(str::to_string).collect::<Vec<_>>(),
            injected_apple_skill_names(&inputs, &skills, &workspace, &route_metadata),
            "{case}"
        );
    }
}

#[test]
fn explicit_top_level_skill_does_not_duplicate_owner_injection() {
    let skills = vec![make_skill(APPLE_TARGET_SKILL, &path("owner/SKILL.md"))];
    let inputs = vec![
        skill_input(APPLE_TARGET_SKILL, &path("owner/SKILL.md")),
        text("Review this iOS branch diff."),
    ];

    let injected = maybe_collect_desktop_top_level_skill_injection(
        &inputs,
        &[],
        &skills,
        &Vec::new(),
        &[apple_router_selection(APPLE_TARGET_SKILL)],
        Some("desktop-client"),
        &Vec::new(),
        &Vec::new(),
        true,
    );

    assert!(injected.is_empty());
}

#[test]
fn explicit_top_level_control_name_does_not_duplicate_owner_injection() {
    let skills = vec![make_skill(APPLE_TARGET_SKILL, &path("owner/SKILL.md"))];
    let inputs = vec![
        skill_input(&format!("${APPLE_TARGET_SKILL}"), &path("owner/SKILL.md")),
        text("Review this iOS branch diff."),
    ];

    let injected = maybe_collect_desktop_top_level_skill_injection(
        &inputs,
        &[],
        &skills,
        &Vec::new(),
        &[apple_router_selection(APPLE_TARGET_SKILL)],
        Some("desktop-client"),
        &Vec::new(),
        &Vec::new(),
        true,
    );

    assert!(injected.is_empty());
}

#[test]
fn explicit_domain_route_skill_preserves_parent_owner_injection() {
    let review_path = path("review/SKILL.md");
    let route_metadata = vec![route_entry(&review_path, "brigade-orchestrator", "domain")];
    let skills = vec![make_skill(APPLE_TARGET_SKILL, &path("owner/SKILL.md"))];
    let inputs = vec![
        skill_input(APPLE_REVIEW_SKILL, &review_path),
        text("Review this iOS branch diff."),
    ];

    let injected = maybe_collect_desktop_top_level_skill_injection(
        &inputs,
        &[],
        &skills,
        &Vec::new(),
        &[apple_router_selection(APPLE_TARGET_SKILL)],
        Some("desktop-client"),
        &entries(&["review"]),
        &route_metadata,
        true,
    );

    assert_eq!(vec![APPLE_TARGET_SKILL.to_string()], names(injected));
}

#[test]
fn explicit_domain_route_skill_accepts_control_name_and_normalized_metadata() {
    let review_path = path("review/SKILL.md");
    // The front matter quotes its values: ` Brigade-Orchestrator ` and ` Domain `.
    let route_metadata = vec![route_entry(&review_path, " Brigade-Orchestrator ", " Domain ")];
    let skills = vec![make_skill(APPLE_TARGET_SKILL, &path("owner/SKILL.md"))];
    let inputs = vec![
        skill_input(&format!("${APPLE_REVIEW_SKILL}"), &review_path),
        text("Review this iOS branch diff."),
    ];

    let injected = maybe_collect_desktop_top_level_skill_injection(
        &inputs,
        &[],
        &skills,
        &Vec::new(),
        &[apple_router_selection(APPLE_TARGET_SKILL)],
        Some("desktop-client"),
        &entries(&["review"]),
        &route_metadata,
        true,
    );

    assert_eq!(vec![APPLE_TARGET_SKILL.to_string()], names(injected));
}

#[test]
fn resolved_domain_route_skill_preserves_parent_owner_injection() {
    let owner_path = path("owner/SKILL.md");
    let review_path = path("review/SKILL.md");
    let route_metadata = vec![route_entry(&review_path, "brigade-orchestrator", "domain")];
    let owner_skills = vec![make_skill(APPLE_TARGET_SKILL, &owner_path)];
    let explicit_skills = vec![make_skill(APPLE_REVIEW_SKILL, &review_path)];
    let inputs = vec![text(&format!(
        "[${APPLE_REVIEW_SKILL}]({review_path}) review this iOS branch diff."
    ))];

    assert_eq!(
        vec![APPLE_TARGET_SKILL.to_string()],
        injected_apple_skill_names_with_explicit(
            &inputs,
            &explicit_skills,
            &owner_skills,
            &entries(&["review"]),
            &route_metadata,
        )
    );
}

#[test]
fn resolved_focused_specialist_suppresses_parent_owner_injection() {
    let owner_path = path("owner/SKILL.md");
    let decision_path = path("decision/SKILL.md");
    let route_metadata = vec![route_entry(&decision_path, "specialist", "focused")];
    let owner_skills = vec![make_skill(APPLE_TARGET_SKILL, &owner_path)];
    let explicit_skills = vec![make_skill(APPLE_DECISION_STRESS_SKILL, &decision_path)];
    let inputs = vec![text(&format!(
        "[${APPLE_DECISION_STRESS_SKILL}]({decision_path}) stress test this iOS review decision in isolation."
    ))];

    assert_eq!(
        Vec::<String>::new(),
        injected_apple_skill_names_with_explicit(
            &inputs,
            &explicit_skills,
            &owner_skills,
            &entries(&["decision"]),
            &route_metadata,
        )
    );
}

#[test]
fn explicit_focused_specialist_suppresses_parent_owner_injection() {
    let specialist_path = path("decision/SKILL.md");
    let route_metadata = vec![route_entry(&specialist_path, "specialist", "focused")];
    let skills = vec![make_skill(APPLE_TARGET_SKILL, &path("owner/SKILL.md"))];
    let inputs = vec![
        skill_input(APPLE_DECISION_STRESS_SKILL, &specialist_path),
        text("Stress test this iOS architecture decision."),
    ];

    let injected = maybe_collect_desktop_top_level_skill_injection(
        &inputs,
        &[],
        &skills,
        &Vec::new(),
        &[apple_router_selection(APPLE_TARGET_SKILL)],
        Some("desktop-client"),
        &entries(&["decision"]),
        &route_metadata,
        true,
    );

    assert!(injected.is_empty());
}

#[test]
fn explicit_focused_specialist_suppresses_even_with_compatible_domain_route() {
    let review_path = path("review/SKILL.md");
    let specialist_path = path("decision/SKILL.md");
    let route_metadata = vec![
        route_entry(&review_path, "brigade-orchestrator", "domain"),
        route_entry(&specialist_path, "specialist", "focused"),
    ];
    let skills = vec![make_skill(APPLE_TARGET_SKILL, &path("owner/SKILL.md"))];
    let inputs = vec![
        skill_input(APPLE_REVIEW_SKILL, &review_path),
        skill_input(APPLE_DECISION_STRESS_SKILL, &specialist_path),
        text("Review and stress test this iOS decision."),
    ];

    let injected = maybe_collect_desktop_top_level_skill_injection(
        &inputs,
        &[],
        &skills,
        &Vec::new(),
        &[apple_router_selection(APPLE_TARGET_SKILL)],
        Some("desktop-client"),
        &entries(&["review", "decision"]),
        &route_metadata,
        true,
    );

    assert!(injected.is_empty());
}

#[test]
fn explicit_same_plugin_skill_without_route_metadata_suppresses_parent_owner_injection() {
    let skill_path = path("unknown/SKILL.md");
    // The front matter has a name and a description but no metadata block.
    let route_metadata = vec![SkillRouteEntry {
        path: skill_path.clone(),
        metadata: Some(SkillRouteMetadata::default()),
    }];
    let skills = vec![make_skill(APPLE_TARGET_SKILL, &path("owner/SKILL.md"))];
    let inputs = vec![
        skill_input("apple-appdev-workflow:unknown", &skill_path),
        text("Review this iOS branch diff."),
    ];

    let injected = maybe_collect_desktop_top_level_skill_injection(
        &inputs,
        &[],
        &skills,
        &Vec::new(),
        &[apple_router_selection(APPLE_TARGET_SKILL)],
        Some("desktop-client"),
        &entries(&["unknown"]),
        &route_metadata,
        true,
    );

    assert!(injected.is_empty());
}

#[test]
fn disabled_skill_path_is_not_injected() {
    let skill_path = path("SKILL.md");
    let skills = vec![make_skill(APPLE_TARGET_SKILL, &skill_path)];
    let inputs = vec![text("Create a new macOS SwiftUI app.")];
    let disabled_paths = vec![skill_path.clone()];

    let injected = maybe_collect_desktop_top_level_skill_injection(
        &inputs,
        &[],
        &skills,
        &disabled_paths,
        &[apple_router_selection(APPLE_TARGET_SKILL)],
        Some("desktop-client"),
        &Vec::new(),
        &Vec::new(),
        true,
    );

    assert!(injected.is_empty());
}

#[test]
fn router_selection_metadata_injects_configured_non_apple_domain() {
    let skill_name = "infra-workflow:infra-orchestrator";
    let skills = vec![make_skill(skill_name, &path("SKILL.md"))];
    let inputs = vec![text("Review this Kubernetes rollout plan.")];

    let injected = maybe_collect_desktop_top_level_skill_injection(
        &inputs,
        &[],
        &skills,
        &Vec::new(),
        &[router_selection(skill_name)],
        Some("desktop-client"),
        &Vec::new(),
        &Vec::new(),
        true,
    );

    assert_eq!(vec![skill_name.to_string()], names(injected));
}

#[test]
fn router_selection_metadata_uses_workspace_signal() {
    let skill_name = "infra-workflow:infra-orchestrator";
    let skills = vec![make_skill(skill_name, &path("SKILL.md"))];
    let inputs = vec![text("Review the current branch diff for bugs.")];

    let injected = maybe_collect_desktop_top_level_skill_injection(
        &inputs,
        &[],
        &skills,
        &Vec::new(),
        &[router_selection(skill_name)],
        Some("desktop-client"),
        &entries(&["kustomization.yaml"]),
        &Vec::new(),
        true,
    );

    assert_eq!(1, injected.len());
}

#[test]
fn router_selection_metadata_suppresses_when_structured_skill_selected() {
    let skill_name = "infra-workflow:infra-orchestrator";
    let skills = vec![make_skill(skill_name, &path("SKILL.md"))];
    let inputs = vec![skill_input(
        "other-workflow:other-orchestrator",
        &path("other/SKILL.md"),
    )];

    let injected = maybe_collect_desktop_top_level_skill_injection(
        &inputs,
        &[],
        &skills,
        &Vec::new(),
        &[router_selection(skill_name)],
        Some("desktop-client"),
        &Vec::new(),
        &Vec::new(),
        true,
    );

    assert!(injected.is_empty());
}

#[test]
fn apple_prompt_signal_requires_token_boundary() {
    let skills = vec![make_skill(APPLE_TARGET_SKILL, &path("SKILL.md"))];
    let inputs = vec![text("Check whether axios bios and mission text should route.")];

    let injected = maybe_collect_desktop_top_level_skill_injection(
        &inputs,
        &[],
        &skills,
        &Vec::new(),
        &[apple_router_selection(APPLE_TARGET_SKILL)],
        Some("desktop-client"),
        &Vec::new(),
        &Vec::new(),
        true,
    );

    assert!(injected.is_empty());
}

#[test]
fn apple_prompt_signal_allows_platform_version_suffix() {
    let skills = vec![make_skill(APPLE_TARGET_SKILL, &path("SKILL.md"))];
    let inputs = vec![text("Review iOS26 adoption risk.")];

    let injected = maybe_collect_desktop_top_level_skill_injection(
        &inputs,
        &[],
        &skills,
        &Vec::new(),
        &[apple_router_selection(APPLE_TARGET_SKILL)],
        Some("desktop-client"),
        &Vec::new(),
        &Vec::new(),
        true,
    );

    assert_eq!(1, injected.len());
}

#[test]
fn explicit_selections_do_not_matter_without_suppression() {
    let specialist_path = path("decision/SKILL.md");
    let route_metadata = vec![route_entry(&specialist_path, "specialist", "focused")];
    let skills = vec![make_skill(APPLE_TARGET_SKILL, &path("owner/SKILL.md"))];
    let mut selection = apple_router_selection(APPLE_TARGET_SKILL);
    selection.suppression.when_explicit_skill_selected = false;
    let with_selection = vec![
        skill_input(APPLE_DECISION_STRESS_SKILL, &specialist_path),
        text("Stress test this iOS architecture decision."),
    ];
    let without_selection = vec![text("Stress test this iOS architecture decision.")];

    let injected = maybe_collect_desktop_top_level_skill_injection(
        &with_selection,
        &[make_skill(APPLE_DECISION_STRESS_SKILL, &specialist_path)],
        &skills,
        &Vec::new(),
        &[selection.clone()],
        Some("desktop-client"),
        &Vec::new(),
        &route_metadata,
        true,
    );
    let plain = maybe_collect_desktop_top_level_skill_injection(
        &without_selection,
        &[],
        &skills,
        &Vec::new(),
        &[selection],
        Some("desktop-client"),
        &Vec::new(),
        &route_metadata,
        true,
    );

    assert_eq!(vec![APPLE_TARGET_SKILL.to_string()], names(injected));
    assert_eq!(vec![APPLE_TARGET_SKILL.to_string()], names(plain));
}

#[test]
fn disabled_paths_are_compared_as_paths() {
    let skills = vec![make_skill(APPLE_TARGET_SKILL, "/tmp/skills//owner/./SKILL.md")];
    let inputs = vec![text("Create a new macOS SwiftUI app.")];

    let injected = maybe_collect_desktop_top_level_skill_injection(
        &inputs,
        &[],
        &skills,
        &vec!["/tmp/skills/owner/SKILL.md".to_string()],
        &[apple_router_selection(APPLE_TARGET_SKILL)],
        Some("desktop-client"),
        &Vec::new(),
        &Vec::new(),
        true,
    );
    assert!(injected.is_empty());

    let elsewhere = maybe_collect_desktop_top_level_skill_injection(
        &inputs,
        &[],
        &skills,
        &vec!["/tmp/skills/other/SKILL.md".to_string()],
        &[apple_router_selection(APPLE_TARGET_SKILL)],
        Some("desktop-client"),
        &Vec::new(),
        &Vec::new(),
        true,
    );
    assert_eq!(1, elsewhere.len());
}
