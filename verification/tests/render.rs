use codex_skill_routing::plugin_render::render_explicit_plugin_instructions;
use codex_skill_routing::plugin_render::plugin_skill_namespace;
use codex_skill_routing::plugin_render::PluginCapabilitySummary;
use codex_skill_routing::skills::SkillMetadata;
use codex_skill_routing::skills_render::render_skills_section;

fn skill(name: &str, description: &str, path: &str) -> SkillMetadata {
    SkillMetadata {
        name: name.to_string(),
        description: description.to_string(),
        path_to_skills_md: path.to_string(),
    }
}

#[test]
fn render_skills_section_returns_none_when_no_skills_are_available() {
    assert_eq!(render_skills_section(&[], &[]), None);
}

#[test]
fn render_skills_section_renders_implicit_and_explicit_only_sections() {
    let available = skill("alpha", "alpha skill", "/tmp/alpha/SKILL.md");
    let explicit_only = skill("beta", "beta skill", "/tmp/beta/SKILL.md");

    let rendered = render_skills_section(&[available], &[explicit_only])
        .expect("skills section should render");

    let expected = "<skills_instructions>\n## Skills\nA skill is a set of local instructions to follow that is stored in a `SKILL.md` file. Below is the list of skills that can be used. Each entry includes a name, description, and file path so you can open the source for full instructions when using a specific skill.\n### Available skills\n- alpha: alpha skill (file: /tmp/alpha/SKILL.md)\n### Explicit-only skills\nThese skills are available in this session but are not eligible for automatic task matching. Use them only when the user names them explicitly, selects them directly, or another active skill/instruction explicitly routes through them.\n- beta: beta skill (file: /tmp/beta/SKILL.md)\n### How to use skills\n- Discovery: The lists above are the skills available in this session (name + description + file path). Skill bodies live on disk at the listed paths.\n- Trigger rules for available skills: If the user names a skill (with `$SkillName` or plain text) OR the task clearly matches a skill's description shown above, you must use that skill for that turn. Multiple mentions mean use them all. Do not carry skills across turns unless re-mentioned.\n- Trigger rules for explicit-only skills: Use them only when the user names them directly, selects them through a structured skill mention, or another active skill/instruction explicitly tells you to route through them.\n- Missing/blocked: If a named skill isn't in the list or the path can't be read, say so briefly and continue with the best fallback.\n- How to use a skill (progressive disclosure):\n  1) After deciding to use a skill, open its `SKILL.md`. Read only enough to follow the workflow.\n  2) When `SKILL.md` references relative paths (e.g., `scripts/foo.py`), resolve them relative to the skill directory listed above first, and only consider other paths if needed.\n  3) If `SKILL.md` points to extra folders such as `references/`, load only the specific files needed for the request; don't bulk-load everything.\n  4) If `scripts/` exist, prefer running or patching them instead of retyping large code blocks.\n  5) If `assets/` or templates exist, reuse them instead of recreating from scratch.\n- Coordination and sequencing:\n  - If multiple skills apply, choose the minimal set that covers the request and state the order you'll use them.\n  - Announce which skill(s) you're using and why (one short line). If you skip an obvious skill, say why.\n- Context hygiene:\n  - Keep context small: summarize long sections instead of pasting them; only load extra files when needed.\n  - Avoid deep reference-chasing: prefer opening only files directly linked from `SKILL.md` unless you're blocked.\n  - When variants exist (frameworks, providers, domains), pick only the relevant reference file(s) and note that choice.\n- Safety and fallback: If a skill can't be applied cleanly (missing files, unclear instructions), state the issue, pick the next-best approach, and continue.\n</skills_instructions>";

    assert_eq!(rendered, expected);
}

#[test]
fn render_skills_section_without_explicit_only_skills_has_no_explicit_heading() {
    let rendered = render_skills_section(&[skill("alpha", "a", "/x/SKILL.md")], &[]).unwrap();
    assert!(rendered.starts_with("<skills_instructions>\n## Skills\n"));
    assert!(rendered.contains("### Available skills\n- alpha: a (file: /x/SKILL.md)\n### How to use skills"));
    assert!(!rendered.contains("### Explicit-only skills"));
    assert!(rendered.ends_with("\n</skills_instructions>"));
}

#[test]
fn render_skills_section_turns_backslashes_into_slashes() {
    let rendered =
        render_skills_section(&[], &[skill("w", "windows", "C:\\skills\\w\\SKILL.md")]).unwrap();
    assert!(rendered.contains("### Explicit-only skills\n"));
    assert!(rendered.contains("- w: windows (file: C:/skills/w/SKILL.md)\n"));
    assert!(!rendered.contains("### Available skills"));
}

fn plugin(config_name: &str, display_name: &str, has_skills: bool) -> PluginCapabilitySummary {
    PluginCapabilitySummary {
        config_name: config_name.to_string(),
        display_name: display_name.to_string(),
        has_skills,
    }
}

#[test]
fn explicit_plugin_instructions_list_every_capability() {
    let rendered = render_explicit_plugin_instructions(
        &plugin("sample@test", "sample", true),
        &vec!["docs".to_string(), "search".to_string()],
        &vec!["calendar".to_string()],
    );
    assert_eq!(
        rendered.as_deref(),
        Some(
            "Capabilities from the `sample` plugin:\n\
             - Skills from this plugin are prefixed with `sample:` in the Skills list.\n\
             - MCP servers from this plugin available in this session: `docs`, `search`.\n\
             - Apps from this plugin available in this session: `calendar`.\n\
             Use these plugin-associated capabilities to help solve the task."
        )
    );
}

#[test]
fn explicit_plugin_instructions_are_none_without_capabilities() {
    assert_eq!(
        render_explicit_plugin_instructions(&plugin("sample@test", "sample", false), &vec![], &vec![]),
        None
    );
}

#[test]
fn explicit_plugin_instructions_without_namespace_use_plain_skill_line() {
    let rendered =
        render_explicit_plugin_instructions(&plugin("@test", "sample", true), &vec![], &vec![]);
    assert_eq!(
        rendered.as_deref(),
        Some(
            "Capabilities from the `sample` plugin:\n\
             - Skills from this plugin are available in the Skills list.\n\
             Use these plugin-associated capabilities to help solve the task."
        )
    );
}

#[test]
fn plugin_skill_namespace_takes_text_before_the_first_at_sign() {
    assert_eq!(plugin_skill_namespace(&plugin("sample@test@x", "s", true)), Some("sample".to_string()));
    assert_eq!(plugin_skill_namespace(&plugin("sample", "s", true)), Some("sample".to_string()));
    assert_eq!(plugin_skill_namespace(&plugin("@test", "s", true)), None);
    assert_eq!(plugin_skill_namespace(&plugin("", "s", true)), None);
}
