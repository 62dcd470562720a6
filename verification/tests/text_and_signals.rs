use codex_skill_routing::paths::paths_equal;
use codex_skill_routing::auto_injection::explicit_skill_router_decision;
use codex_skill_routing::auto_injection::same_plugin_namespace;
use codex_skill_routing::auto_injection::same_skill_identity;
use codex_skill_routing::auto_injection::skill_name_without_control_prefix;
use codex_skill_routing::auto_injection::ExplicitSkillRouterDecision;
use codex_skill_routing::frontmatter::extract_skill_frontmatter;
use codex_skill_routing::router_selection::PluginRouterSelection;
use codex_skill_routing::router_selection::PluginRouterSelectionDomain;
use codex_skill_routing::router_selection::PluginRouterSelectionSuppression;
use codex_skill_routing::signals::client_matches_any_host_scope;
use codex_skill_routing::signals::extension_of;
use codex_skill_routing::signals::has_configured_workspace_signal;
use codex_skill_routing::signals::is_desktop_client;
use codex_skill_routing::signals::text_contains_prompt_signal;
use codex_skill_routing::skills::SkillMetadata;
use codex_skill_routing::skills::SkillRouteEntry;
use codex_skill_routing::skills::SkillRouteMetadata;
use codex_skill_routing::skills::UserInput;
use codex_skill_routing::text::trimmed_chars;

fn chars(s: &str) -> Vec<char> {
    s.chars().collect()
}

fn contains_signal(text: &str, signal: &str) -> bool {
    text_contains_prompt_signal(&chars(text), &chars(signal))
}

#[test]
fn prompt_signals_match_whole_tokens_only() {
    assert!(contains_signal("build an ios app", "ios"));
    assert!(contains_signal("(ios)", "ios"));
    assert!(!contains_signal("axios bios", "ios"));
    assert!(!contains_signal("iosx", "ios"));
    assert!(contains_signal("ios26 and macos15", "macos"));
    assert!(contains_signal("ios26", "ios"));
    assert!(!contains_signal("swiftui2", "swiftui"));
    assert!(!contains_signal("", "ios"));
}

#[test]
fn prompt_signal_matches_do_not_overlap() {
    // Matches of `aa` in `aaa` are found at 0 only (then from 2 on), and the
    // one at 0 is followed by a letter.
    assert!(!contains_signal("aaa", "aa"));
    assert!(contains_signal("aa aa", "aa"));
}

#[test]
fn an_empty_signal_matches_between_boundaries() {
    assert!(contains_signal("", ""));
    assert!(!contains_signal("ab", ""));
    assert!(contains_signal("a  b", ""));
}

#[test]
fn client_names_are_matched_without_regard_to_case() {
    assert!(is_desktop_client(Some("Codex-Desktop-App")));
    assert!(!is_desktop_client(Some("codex-tui")));
    assert!(!is_desktop_client(None));
    let scopes = vec!["DeskTop".to_string()];
    assert!(client_matches_any_host_scope(Some("my-desktop-client"), &scopes));
    assert!(!client_matches_any_host_scope(Some("my-cli"), &scopes));
    assert!(!client_matches_any_host_scope(None, &scopes));
    assert!(client_matches_any_host_scope(Some("anything"), &vec![String::new()]));
}

#[test]
fn extensions_follow_path_rules() {
    let ext = |name: &str| extension_of(&chars(name)).map(|e| e.into_iter().collect::<String>());
    assert_eq!(ext("main.tf"), Some("tf".to_string()));
    assert_eq!(ext("archive.tar.gz"), Some("gz".to_string()));
    assert_eq!(ext("App.xcodeproj"), Some("xcodeproj".to_string()));
    assert_eq!(ext(".bashrc"), None);
    assert_eq!(ext("Makefile"), None);
    assert_eq!(ext("trailing."), Some(String::new()));
    assert_eq!(ext(".."), None);
}

#[test]
fn workspace_markers_match_names_and_extensions() {
    let domain = PluginRouterSelectionDomain {
        prompt_signals: vec![],
        workspace_files: vec!["Package.swift".to_string()],
        workspace_extensions: vec!["xcodeproj".to_string()],
        select: "x".to_string(),
    };
    assert!(has_configured_workspace_signal(&vec![Some("Package.swift".to_string())], &domain));
    assert!(has_configured_workspace_signal(
        &vec![None, Some("App.xcodeproj".to_string())],
        &domain
    ));
    assert!(!has_configured_workspace_signal(&vec![Some("package.swift".to_string())], &domain));
    assert!(!has_configured_workspace_signal(&vec![None], &domain));
    assert!(!has_configured_workspace_signal(&vec![], &domain));
}

#[test]
fn skill_names_are_compared_without_control_prefix_and_whitespace() {
    let stripped: String = skill_name_without_control_prefix("  $plugin:skill ").into_iter().collect();
    assert_eq!(stripped, "plugin:skill");
    let twice: String = skill_name_without_control_prefix("$$a").into_iter().collect();
    assert_eq!(twice, "$a");
    assert!(same_skill_identity("$plugin:skill", " plugin:skill"));
    assert!(same_skill_identity("$ plugin:skill", "plugin:skill"));
    assert!(!same_skill_identity("plugin:skill", "plugin:other"));
    assert!(same_plugin_namespace("$plugin:a", "plugin:b"));
    assert!(!same_plugin_namespace("plugin:a", "other:b"));
    assert!(!same_plugin_namespace("plugin", "plugin"));
}

#[test]
fn trimming_removes_unicode_whitespace() {
    let t: String = trimmed_chars("\u{3000}\t a b \n\u{a0}").into_iter().collect();
    assert_eq!(t, "a b");
    let empty: String = trimmed_chars(" \r\n ").into_iter().collect();
    assert_eq!(empty, "");
}

#[test]
fn router_decision_follows_the_first_deciding_selection() {
    let owner = "plugin:owner";
    let broad = SkillRouteEntry {
        path: "/broad".to_string(),
        metadata: Some(SkillRouteMetadata {
            role: Some("TOP-LEVEL-ORCHESTRATOR".to_string()),
            routing_scope: None,
        }),
    };
    let table = vec![broad];
    let skill = |name: &str, path: &str| UserInput::Skill {
        name: name.to_string(),
        path: path.to_string(),
    };
    assert_eq!(
        explicit_skill_router_decision(&[], &[], owner, &table),
        ExplicitSkillRouterDecision::NoExplicitSkill
    );
    assert_eq!(
        explicit_skill_router_decision(&[skill("plugin:helper", "/broad")], &[], owner, &table),
        ExplicitSkillRouterDecision::AllowParentInjection
    );
    assert_eq!(
        explicit_skill_router_decision(&[skill("other:helper", "/broad")], &[], owner, &table),
        ExplicitSkillRouterDecision::SuppressParentInjection
    );
    assert_eq!(
        explicit_skill_router_decision(&[skill("plugin:helper", "/unread")], &[], owner, &table),
        ExplicitSkillRouterDecision::SuppressParentInjection
    );
    let explicit = vec![SkillMetadata {
        name: "$plugin:owner".to_string(),
        description: String::new(),
        path_to_skills_md: "/owner".to_string(),
    }];
    assert_eq!(
        explicit_skill_router_decision(&[skill("plugin:helper", "/broad")], &explicit, owner, &table),
        ExplicitSkillRouterDecision::OwnerAlreadySelected
    );
}

#[test]
fn suppression_is_on_by_default() {
    assert!(PluginRouterSelectionSuppression::default().when_explicit_skill_selected);
    let selection = PluginRouterSelection::default();
    assert!(selection.host_scopes.is_empty());
    assert!(selection.domains.is_empty());
    assert!(selection.suppression.when_explicit_skill_selected);
}

#[test]
fn frontmatter_is_the_text_between_delimiters() {
    assert_eq!(
        extract_skill_frontmatter(
            "---\nname: a\ndescription: test skill\nmetadata:\n  role: x\n---\n\n# Test Skill\n"
        )
        .as_deref(),
        Some("name: a\ndescription: test skill\nmetadata:\n  role: x")
    );
    assert_eq!(
        extract_skill_frontmatter("---\r\nname: a\r\nrole: \" B \"\r\n --- \r\n\r\nbody").as_deref(),
        Some("name: a\nrole: \" B \"")
    );
}

#[test]
fn frontmatter_needs_both_delimiters_and_content() {
    assert_eq!(extract_skill_frontmatter(""), None);
    assert_eq!(extract_skill_frontmatter("# Skill\n---\nname: a\n---\n"), None);
    assert_eq!(extract_skill_frontmatter("---\nname: a\n"), None);
    assert_eq!(extract_skill_frontmatter("---\n---\nbody"), None);
}

#[test]
fn paths_compare_by_components() {
    assert!(paths_equal("/a//b", "/a/b"));
    assert!(paths_equal("/a/./b/", "/a/b"));
    assert!(paths_equal("a/b", "a//b/."));
    assert!(!paths_equal("/a/b", "a/b"));
    assert!(!paths_equal("./a", "a"));
    assert!(paths_equal("./a", "./a/"));
    assert!(!paths_equal("/a/../b", "/b"));
    assert!(paths_equal("", ""));
    assert!(paths_equal(".", "./"));
    for (a, b) in [("/a//b", "/a/b"), ("./a", "a"), ("a/./b", "a/b"), ("/", "//"), ("..", "../")] {
        assert_eq!(
            paths_equal(a, b),
            std::path::Path::new(a) == std::path::Path::new(b),
            "{a} vs {b}"
        );
    }
}
