//! The "Skills" section of the session instructions.
use crate::skills::SkillMetadata;
use crate::text::{chars_of, join, join_strings, owned, push_chars, views};
use vstd::prelude::*;

verus! {

pub const SKILLS_INSTRUCTIONS_OPEN_TAG: &'static str = "<skills_instructions>";
pub const SKILLS_INSTRUCTIONS_CLOSE_TAG: &'static str = "</skills_instructions>";

pub const SKILLS_HEADING: &'static str = "## Skills";
pub const SKILLS_INTRO: &'static str = "A skill is a set of local instructions to follow that is stored in a `SKILL.md` file. Below is the list of skills that can be used. Each entry includes a name, description, and file path so you can open the source for full instructions when using a specific skill.";
pub const AVAILABLE_SKILLS_HEADING: &'static str = "### Available skills";
pub const EXPLICIT_ONLY_SKILLS_HEADING: &'static str = "### Explicit-only skills";
pub const EXPLICIT_ONLY_SKILLS_NOTE: &'static str = "These skills are available in this session but are not eligible for automatic task matching. Use them only when the user names them explicitly, selects them directly, or another active skill/instruction explicitly routes through them.";
pub const HOW_TO_USE_SKILLS_HEADING: &'static str = "### How to use skills";
pub const HOW_TO_USE_SKILLS: &'static str = "- Discovery: The lists above are the skills available in this session (name + description + file path). Skill bodies live on disk at the listed paths.
- Trigger rules for available skills: If the user names a skill (with `$SkillName` or plain text) OR the task clearly matches a skill's description shown above, you must use that skill for that turn. Multiple mentions mean use them all. Do not carry skills across turns unless re-mentioned.
- Trigger rules for explicit-only skills: Use them only when the user names them directly, selects them through a structured skill mention, or another active skill/instruction explicitly tells you to route through them.
- Missing/blocked: If a named skill isn't in the list or the path can't be read, say so briefly and continue with the best fallback.
- How to use a skill (progressive disclosure):
  1) After deciding to use a skill, open its `SKILL.md`. Read only enough to follow the workflow.
  2) When `SKILL.md` references relative paths (e.g., `scripts/foo.py`), resolve them relative to the skill directory listed above first, and only consider other paths if needed.
  3) If `SKILL.md` points to extra folders such as `references/`, load only the specific files needed for the request; don't bulk-load everything.
  4) If `scripts/` exist, prefer running or patching them instead of retyping large code blocks.
  5) If `assets/` or templates exist, reuse them instead of recreating from scratch.
- Coordination and sequencing:
  - If multiple skills apply, choose the minimal set that covers the request and state the order you'll use them.
  - Announce which skill(s) you're using and why (one short line). If you skip an obvious skill, say why.
- Context hygiene:
  - Keep context small: summarize long sections instead of pasting them; only load extra files when needed.
  - Avoid deep reference-chasing: prefer opening only files directly linked from `SKILL.md` unless you're blocked.
  - When variants exist (frameworks, providers, domains), pick only the relevant reference file(s) and note that choice.
- Safety and fallback: If a skill can't be applied cleanly (missing files, unclear instructions), state the issue, pick the next-best approach, and continue.";

/// A path with its backslashes turned into forward slashes.
pub open spec fn forward_slashes(path: Seq<char>) -> Seq<char> {
    path.map_values(|c: char| if c == '\\' { '/' } else { c })
}

/// The list entry of one skill: `- name: description (file: path)`.
pub open spec fn skill_entry(skill: SkillMetadata) -> Seq<char> {
    "- "@ + skill.name@ + ": "@ + skill.description@ + " (file: "@ + forward_slashes(
        skill.path_to_skills_md@,
    ) + ")"@
}

/// The list entries of `skills`, in order.
pub open spec fn skill_entries(skills: Seq<SkillMetadata>) -> Seq<Seq<char>> {
    skills.map_values(|s: SkillMetadata| skill_entry(s))
}

/// The lines of the section: the heading and introduction, the available
/// skills (when there are any), the explicit-only skills (when there are
/// any), and the usage rules.
pub open spec fn skills_section_lines(
    implicit_skills: Seq<SkillMetadata>,
    explicit_only_skills: Seq<SkillMetadata>,
) -> Seq<Seq<char>> {
    let available = if implicit_skills.len() > 0 {
        seq![AVAILABLE_SKILLS_HEADING@] + skill_entries(implicit_skills)
    } else {
        Seq::empty()
    };
    let explicit_only = if explicit_only_skills.len() > 0 {
        seq![EXPLICIT_ONLY_SKILLS_HEADING@, EXPLICIT_ONLY_SKILLS_NOTE@] + skill_entries(
            explicit_only_skills,
        )
    } else {
        Seq::empty()
    };
    seq![SKILLS_HEADING@, SKILLS_INTRO@] + available + explicit_only + seq![
        HOW_TO_USE_SKILLS_HEADING@,
        HOW_TO_USE_SKILLS@,
    ]
}

/// The section: nothing when there are no skills at all; otherwise its
/// lines, joined with newlines, between the opening and closing tags.
pub open spec fn skills_section(
    implicit_skills: Seq<SkillMetadata>,
    explicit_only_skills: Seq<SkillMetadata>,
) -> Option<Seq<char>> {
    if implicit_skills.len() == 0 && explicit_only_skills.len() == 0 {
        None
    } else {
        Some(
            SKILLS_INSTRUCTIONS_OPEN_TAG@ + "\n"@ + join(
                skills_section_lines(implicit_skills, explicit_only_skills),
                "\n"@,
            ) + "\n"@ + SKILLS_INSTRUCTIONS_CLOSE_TAG@,
        )
    }
}

fn push_line(lines: &mut Vec<String>, line: &str)
    ensures
        views(final(lines)@) == views(old(lines)@).push(line@),
{
    lines.push(owned(line));
    assert(views(lines@) =~= views(old(lines)@).push(line@));
}

pub fn render_skills_section(
    implicit_skills: &[SkillMetadata],
    explicit_only_skills: &[SkillMetadata],
) -> (r: Option<String>)
    ensures
        match r {
            Some(text) => skills_section(implicit_skills@, explicit_only_skills@) == Some(text@),
            None => skills_section(implicit_skills@, explicit_only_skills@) is None,
        },
{
    if implicit_skills.len() == 0 && explicit_only_skills.len() == 0 {
        return None;
    }
    let mut lines: Vec<String> = Vec::new();
    push_line(&mut lines, SKILLS_HEADING);
    push_line(&mut lines, SKILLS_INTRO);
    let ghost base = views(lines@);
    assert(base == seq![SKILLS_HEADING@, SKILLS_INTRO@]);
    if implicit_skills.len() > 0 {
        push_line(&mut lines, AVAILABLE_SKILLS_HEADING);
        render_skill_entries(&mut lines, implicit_skills);
    }
    let ghost after_available = views(lines@);
    if explicit_only_skills.len() > 0 {
        push_line(&mut lines, EXPLICIT_ONLY_SKILLS_HEADING);
        push_line(&mut lines, EXPLICIT_ONLY_SKILLS_NOTE);
        render_skill_entries(&mut lines, explicit_only_skills);
    }
    push_line(&mut lines, HOW_TO_USE_SKILLS_HEADING);
    push_line(&mut lines, HOW_TO_USE_SKILLS);
    assert(views(lines@) =~= skills_section_lines(implicit_skills@, explicit_only_skills@));
    let body = join_strings(&lines, "\n");
    let mut text = owned(SKILLS_INSTRUCTIONS_OPEN_TAG);
    text.append("\n");
    text.append(body.as_str());
    text.append("\n");
    text.append(SKILLS_INSTRUCTIONS_CLOSE_TAG);
    Some(text)
}

/// The path with backslashes turned into forward slashes.
fn forward_slash_path(path: &str) -> (r: Vec<char>)
    ensures
        r@ == forward_slashes(path@),
{
    let chars = chars_of(path);
    let mut r: Vec<char> = Vec::new();
    for i in 0..chars.len()
        invariant
            chars@ == path@,
            r@ == forward_slashes(chars@.take(i as int)),
    {
        let c = chars[i];
        r.push(
            if c == '\\' {
                '/'
            } else {
                c
            },
        );
        assert(forward_slashes(chars@.take(i + 1)) == forward_slashes(chars@.take(i as int)).push(
            if c == '\\' {
                '/'
            } else {
                c
            },
        ));
    }
    assert(chars@.take(chars@.len() as int) == chars@);
    r
}

fn skill_entry_line(skill: &SkillMetadata) -> (r: String)
    ensures
        r@ == skill_entry(*skill),
{
    let mut line = owned("- ");
    line.append(skill.name.as_str());
    line.append(": ");
    line.append(skill.description.as_str());
    line.append(" (file: ");
    let path = forward_slash_path(skill.path_to_skills_md.as_str());
    push_chars(&mut line, &path);
    line.append(")");
    line
}

fn render_skill_entries(lines: &mut Vec<String>, skills: &[SkillMetadata])
    ensures
        views(final(lines)@) == views(old(lines)@) + skill_entries(skills@),
{
    let ghost start = views(lines@);
    for i in 0..skills.len()
        invariant
            views(lines@) == start + skill_entries(skills@.take(i as int)),
    {
        let line = skill_entry_line(&skills[i]);
        let ghost prev = lines@;
        lines.push(line);
        proof {
            assert(skills@.take(i + 1) == skills@.take(i as int).push(skills@[i as int]));
            assert(skill_entries(skills@.take(i + 1)) == skill_entries(skills@.take(i as int)).push(
                skill_entry(skills@[i as int]),
            ));
            assert(views(lines@) =~= views(prev).push(line@));
        }
    }
    assert(skills@.take(skills@.len() as int) == skills@);
}

// ---------------------------------------------------------------------------
// Laws

/// The skill list has one entry per skill, in order: entry `k` is
/// `- name: description (file: path)` of `skills[k]`, its path with forward
/// slashes.
pub proof fn lemma_one_entry_per_skill(skills: Seq<SkillMetadata>)
    ensures
        skill_entries(skills).len() == skills.len(),
        forall|k: int|
            0 <= k < skills.len() ==> #[trigger] skill_entries(skills)[k] == "- "@
                + skills[k].name@ + ": "@ + skills[k].description@ + " (file: "@ + forward_slashes(
                skills[k].path_to_skills_md@,
            ) + ")"@,
{
}

/// The section lists every skill, in order: after the heading and the
/// introduction come the available-skills heading and one line per
/// implicit skill (when there are any), then the explicit-only heading, its
/// note and one line per explicit-only skill (when there are any), then the
/// usage heading and rules.
pub proof fn lemma_section_lists_every_skill(
    implicit_skills: Seq<SkillMetadata>,
    explicit_only_skills: Seq<SkillMetadata>,
)
    ensures
        ({
            let lines = skills_section_lines(implicit_skills, explicit_only_skills);
            let available: int = if implicit_skills.len() > 0 {
                implicit_skills.len() + 1int
            } else {
                0
            };
            let explicit_only: int = if explicit_only_skills.len() > 0 {
                explicit_only_skills.len() + 2int
            } else {
                0
            };
            &&& lines.len() == 4 + available + explicit_only
            &&& lines[0] == SKILLS_HEADING@
            &&& lines[1] == SKILLS_INTRO@
            &&& implicit_skills.len() > 0 ==> lines[2] == AVAILABLE_SKILLS_HEADING@
            &&& forall|k: int|
                #![trigger implicit_skills[k]]
                0 <= k < implicit_skills.len() ==> lines[3 + k] == "- "@ + implicit_skills[k].name@
                    + ": "@ + implicit_skills[k].description@ + " (file: "@ + forward_slashes(
                    implicit_skills[k].path_to_skills_md@,
                ) + ")"@
            &&& explicit_only_skills.len() > 0 ==> lines[2 + available]
                == EXPLICIT_ONLY_SKILLS_HEADING@ && lines[3 + available]
                == EXPLICIT_ONLY_SKILLS_NOTE@
            &&& forall|k: int|
                #![trigger explicit_only_skills[k]]
                0 <= k < explicit_only_skills.len() ==> lines[4 + available + k] == "- "@
                    + explicit_only_skills[k].name@ + ": "@ + explicit_only_skills[k].description@
                    + " (file: "@ + forward_slashes(explicit_only_skills[k].path_to_skills_md@)
                    + ")"@
            &&& lines[2 + available + explicit_only] == HOW_TO_USE_SKILLS_HEADING@
            &&& lines[3 + available + explicit_only] == HOW_TO_USE_SKILLS@
        }),
{
    lemma_one_entry_per_skill(implicit_skills);
    lemma_one_entry_per_skill(explicit_only_skills);
}

} // verus!
