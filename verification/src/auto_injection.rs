//! Experimental desktop-only deterministic top-level skill injection.
//!
//! Injection is conservative:
//! - off unless explicitly enabled by config;
//! - scoped to desktop-like app-server clients;
//! - it does not duplicate an explicit top-level owner selection;
//! - it preserves narrow explicit specialist selections;
//! - it injects at most one manifest-configured top-level router skill.
//!
//! The caller does the I/O: it lists the working directory
//! (`workspace_entries`) and reads the route metadata of the skill files
//! that explicit selections point at (`route_metadata`).
use crate::paths::{paths_equal, same_path};
use crate::router_selection::{PluginRouterSelection, PluginRouterSelectionDomain};
use crate::signals::{
    has_configured_prompt_signal, has_configured_workspace_signal, has_prompt_signal,
    has_workspace_signal, is_desktop, is_desktop_client, matches_host_scope, opt_view,
    client_matches_any_host_scope,
};
use crate::skills::{route_metadata_for, SkillMetadata, SkillRouteEntry, SkillRouteMetadata, UserInput};
use crate::text::{
    chars_eq_ignore_ascii_case, chars_equal, chars_of, eq_ignore_ascii_case, find_char,
    slice_chars, split_once, trim, trim_bounds, trimmed_chars,
};
use vstd::prelude::*;

verus! {

pub const ROUTE_ROLE_TOP_LEVEL_ORCHESTRATOR: &'static str = "top-level-orchestrator";
pub const ROUTE_ROLE_BRIGADE_ORCHESTRATOR: &'static str = "brigade-orchestrator";
pub const ROUTING_SCOPE_BROAD: &'static str = "broad";
pub const ROUTING_SCOPE_DOMAIN: &'static str = "domain";

// ---------------------------------------------------------------------------
// Skill names

/// A skill name without surrounding whitespace and without one leading `$`
/// (the control prefix of a skill mention).
pub open spec fn strip_control_prefix(name: Seq<char>) -> Seq<char> {
    let t = trim(name);
    if t.len() > 0 && t[0] == '$' {
        t.drop_first()
    } else {
        t
    }
}

/// What two skill names are compared by.
pub open spec fn skill_identity(name: Seq<char>) -> Seq<char> {
    trim(strip_control_prefix(name))
}

/// The plugin a namespaced skill name (`plugin:skill`) belongs to.
pub open spec fn plugin_namespace(name: Seq<char>) -> Option<Seq<char>> {
    match split_once(trim(strip_control_prefix(name)), ':') {
        Some(parts) => Some(parts.0),
        None => None,
    }
}

pub open spec fn same_namespace(a: Seq<char>, b: Seq<char>) -> bool {
    match (plugin_namespace(a), plugin_namespace(b)) {
        (Some(x), Some(y)) => x == y,
        _ => false,
    }
}

pub fn skill_name_without_control_prefix(name: &str) -> (r: Vec<char>)
    ensures
        r@ == strip_control_prefix(name@),
{
    let t = trimmed_chars(name);
    if t.len() > 0 && t[0] == '$' {
        let r = slice_chars(&t, 1, t.len());
        assert(r@ =~= t@.drop_first());
        r
    } else {
        t
    }
}

/// The trimmed form of `chars`.
fn trim_chars(chars: &Vec<char>) -> (r: Vec<char>)
    ensures
        r@ == trim(chars@),
{
    let (lo, hi) = trim_bounds(chars);
    slice_chars(chars, lo, hi)
}

pub fn same_skill_identity(candidate: &str, selected_owner: &str) -> (r: bool)
    ensures
        r == (skill_identity(candidate@) == skill_identity(selected_owner@)),
{
    let a = trim_chars(&skill_name_without_control_prefix(candidate));
    let b = trim_chars(&skill_name_without_control_prefix(selected_owner));
    chars_equal(&a, &b)
}

fn plugin_namespace_of(name: &str) -> (r: Option<Vec<char>>)
    ensures
        match r {
            Some(ns) => plugin_namespace(name@) == Some(ns@),
            None => plugin_namespace(name@) is None,
        },
{
    let t = trim_chars(&skill_name_without_control_prefix(name));
    match find_char(&t, ':') {
        Some(k) => Some(slice_chars(&t, 0, k)),
        None => None,
    }
}

pub fn same_plugin_namespace(explicit_skill_name: &str, selected_owner: &str) -> (r: bool)
    ensures
        r == same_namespace(explicit_skill_name@, selected_owner@),
{
    let explicit_plugin = match plugin_namespace_of(explicit_skill_name) {
        Some(ns) => ns,
        None => return false,
    };
    let owner_plugin = match plugin_namespace_of(selected_owner) {
        Some(ns) => ns,
        None => return false,
    };
    chars_equal(&explicit_plugin, &owner_plugin)
}

// ---------------------------------------------------------------------------
// Route metadata

/// `value`, trimmed, equals one of `expected` without regard to ASCII case.
pub open spec fn field_matches(value: Option<String>, expected: Seq<&str>) -> bool {
    match value {
        Some(v) => exists|k: int|
            0 <= k < expected.len() && eq_ignore_ascii_case(trim(v@), (#[trigger] expected[k])@),
        None => false,
    }
}

/// The skill routes broadly or for a whole domain: its role is an
/// orchestrator, or its routing scope is `broad` or `domain`.
pub open spec fn is_broad_or_domain(metadata: SkillRouteMetadata) -> bool {
    ||| field_matches(
        metadata.role,
        seq![ROUTE_ROLE_TOP_LEVEL_ORCHESTRATOR, ROUTE_ROLE_BRIGADE_ORCHESTRATOR],
    )
    ||| field_matches(metadata.routing_scope, seq![ROUTING_SCOPE_BROAD, ROUTING_SCOPE_DOMAIN])
}

pub fn field_matches_any(value: &Option<String>, expected_values: &Vec<&str>) -> (r: bool)
    ensures
        r == field_matches(*value, expected_values@),
{
    match value {
        Some(v) => trimmed_matches_any(v, expected_values),
        None => false,
    }
}

fn trimmed_matches_any(value: &String, expected_values: &Vec<&str>) -> (r: bool)
    ensures
        r == field_matches(Some(*value), expected_values@),
{
    let t = trimmed_chars(value.as_str());
    for k in 0..expected_values.len()
        invariant
            t@ == trim(value@),
            forall|b: int|
                0 <= b < k ==> !eq_ignore_ascii_case(t@, (#[trigger] expected_values@[b])@),
    {
        let expected = chars_of(expected_values[k]);
        if chars_eq_ignore_ascii_case(&t, &expected) {
            assert(eq_ignore_ascii_case(trim(value@), expected_values@[k as int]@));
            return true;
        }
    }
    false
}

impl SkillRouteMetadata {
    pub fn is_broad_or_domain_route(&self) -> (r: bool)
        ensures
            r == is_broad_or_domain(*self),
    {
        let mut roles: Vec<&str> = Vec::new();
        roles.push(ROUTE_ROLE_TOP_LEVEL_ORCHESTRATOR);
        roles.push(ROUTE_ROLE_BRIGADE_ORCHESTRATOR);
        let mut scopes: Vec<&str> = Vec::new();
        scopes.push(ROUTING_SCOPE_BROAD);
        scopes.push(ROUTING_SCOPE_DOMAIN);
        assert(roles@ == seq![ROUTE_ROLE_TOP_LEVEL_ORCHESTRATOR, ROUTE_ROLE_BRIGADE_ORCHESTRATOR]);
        assert(scopes@ == seq![ROUTING_SCOPE_BROAD, ROUTING_SCOPE_DOMAIN]);
        field_matches_any(&self.role, &roles) || field_matches_any(&self.routing_scope, &scopes)
    }
}

/// The recorded route metadata of the skill file at `path`.
pub fn recorded_route_metadata<'a>(route_metadata: &'a Vec<SkillRouteEntry>, path: &str) -> (r:
    Option<&'a SkillRouteMetadata>)
    ensures
        match r {
            Some(m) => route_metadata_for(route_metadata@, path@) == Some(*m),
            None => route_metadata_for(route_metadata@, path@) is None,
        },
{
    let target = chars_of(path);
    assert(route_metadata@.skip(0) == route_metadata@);
    for i in 0..route_metadata.len()
        invariant
            target@ == path@,
            route_metadata_for(route_metadata@.skip(i as int), path@) == route_metadata_for(
                route_metadata@,
                path@,
            ),
    {
        assert(route_metadata@.skip(i as int).drop_first() == route_metadata@.skip(i + 1));
        let entry_path = chars_of(route_metadata[i].path.as_str());
        if chars_equal(&entry_path, &target) {
            return match &route_metadata[i].metadata {
                Some(m) => Some(m),
                None => None,
            };
        }
    }
    None
}

/// An explicitly selected skill lets the owner be injected too: it belongs
/// to the owner's plugin and its recorded route metadata marks it as a
/// broad or domain route.
pub open spec fn allows_parent_injection(
    name: Seq<char>,
    path: Seq<char>,
    selected_owner: Seq<char>,
    route_metadata: Seq<SkillRouteEntry>,
) -> bool {
    same_namespace(name, selected_owner) && match route_metadata_for(route_metadata, path) {
        Some(metadata) => is_broad_or_domain(metadata),
        None => false,
    }
}

pub fn explicit_skill_allows_parent_injection(
    explicit_skill_name: &str,
    explicit_skill_path: &str,
    selected_owner: &str,
    route_metadata: &Vec<SkillRouteEntry>,
) -> (r: bool)
    ensures
        r == allows_parent_injection(
            explicit_skill_name@,
            explicit_skill_path@,
            selected_owner@,
            route_metadata@,
        ),
{
    if !same_plugin_namespace(explicit_skill_name, selected_owner) {
        return false;
    }
    match recorded_route_metadata(route_metadata, explicit_skill_path) {
        Some(metadata) => metadata.is_broad_or_domain_route(),
        None => false,
    }
}

// ---------------------------------------------------------------------------
// Explicit selections

/// What the skills the user selected explicitly mean for injecting the
/// owner of a domain.
#[derive(Debug, Clone, Copy, PartialEq, Eq)]
pub enum ExplicitSkillRouterDecision {
    /// No skill was selected explicitly.
    NoExplicitSkill,
    /// The owner itself was selected.
    OwnerAlreadySelected,
    /// Every selected skill routes through the owner's plugin broadly.
    AllowParentInjection,
    /// A selected skill is a narrow specialist (or unknown): keep it alone.
    SuppressParentInjection,
}

/// The `(name, path)` of each skill input, in order.
pub open spec fn skill_input_candidates(inputs: Seq<UserInput>) -> Seq<(Seq<char>, Seq<char>)>
    decreases inputs.len(),
{
    if inputs.len() == 0 {
        Seq::empty()
    } else {
        let rest = skill_input_candidates(inputs.drop_last());
        match inputs.last() {
            UserInput::Skill { name, path } => rest.push((name@, path@)),
            _ => rest,
        }
    }
}

/// Every explicit selection, as `(name, path)`: the skill inputs first,
/// then the skills resolved from mentions.
pub open spec fn explicit_candidates(
    inputs: Seq<UserInput>,
    explicit_skills: Seq<SkillMetadata>,
) -> Seq<(Seq<char>, Seq<char>)> {
    skill_input_candidates(inputs) + explicit_skills.map_values(
        |s: SkillMetadata| (s.name@, s.path_to_skills_md@),
    )
}

/// The decision from the `i`-th selection on, `seen` telling whether an
/// earlier selection allowed injection: the first selection that names the
/// owner, or that does not allow injection, decides; when there is none,
/// injection is allowed if something was selected.
pub open spec fn decision_from(
    candidates: Seq<(Seq<char>, Seq<char>)>,
    selected_owner: Seq<char>,
    route_metadata: Seq<SkillRouteEntry>,
    i: int,
    seen: bool,
) -> ExplicitSkillRouterDecision
    decreases candidates.len() - i,
{
    if i < 0 || i >= candidates.len() {
        if seen {
            ExplicitSkillRouterDecision::AllowParentInjection
        } else {
            ExplicitSkillRouterDecision::NoExplicitSkill
        }
    } else if skill_identity(candidates[i].0) == skill_identity(selected_owner) {
        ExplicitSkillRouterDecision::OwnerAlreadySelected
    } else if !allows_parent_injection(
        candidates[i].0,
        candidates[i].1,
        selected_owner,
        route_metadata,
    ) {
        ExplicitSkillRouterDecision::SuppressParentInjection
    } else {
        decision_from(candidates, selected_owner, route_metadata, i + 1, true)
    }
}

pub open spec fn router_decision(
    inputs: Seq<UserInput>,
    explicit_skills: Seq<SkillMetadata>,
    selected_owner: Seq<char>,
    route_metadata: Seq<SkillRouteEntry>,
) -> ExplicitSkillRouterDecision {
    decision_from(
        explicit_candidates(inputs, explicit_skills),
        selected_owner,
        route_metadata,
        0,
        false,
    )
}

proof fn lemma_skill_input_candidates_prefix(inputs: Seq<UserInput>, i: int)
    requires
        0 <= i <= inputs.len(),
    ensures
        skill_input_candidates(inputs.take(i)).len() <= skill_input_candidates(inputs).len(),
        forall|k: int|
            0 <= k < skill_input_candidates(inputs.take(i)).len() ==> #[trigger] skill_input_candidates(
                inputs.take(i),
            )[k] == skill_input_candidates(inputs)[k],
    decreases inputs.len() - i,
{
    if i < inputs.len() {
        lemma_skill_input_candidates_prefix(inputs, i + 1);
        let a = skill_input_candidates(inputs.take(i));
        let b = skill_input_candidates(inputs.take(i + 1));
        assert(inputs.take(i + 1).drop_last() == inputs.take(i));
        assert(inputs.take(i + 1).last() == inputs[i]);
        assert(a.len() <= b.len() && forall|k: int| 0 <= k < a.len() ==> #[trigger] a[k] == b[k]) by {
            match inputs[i] {
                UserInput::Skill { name, path } => {
                    assert(b == a.push((name@, path@)));
                },
                _ => {
                    assert(b == a);
                },
            }
        }
        assert forall|k: int| 0 <= k < a.len() implies #[trigger] a[k] == skill_input_candidates(
            inputs,
        )[k] by {
            assert(a[k] == b[k]);
        }
    } else {
        assert(inputs.take(i) == inputs);
    }
}

pub fn explicit_skill_router_decision(
    inputs: &[UserInput],
    explicit_skills: &[SkillMetadata],
    selected_owner: &str,
    route_metadata: &Vec<SkillRouteEntry>,
) -> (r: ExplicitSkillRouterDecision)
    ensures
        r == router_decision(inputs@, explicit_skills@, selected_owner@, route_metadata@),
{
    let ghost candidates = explicit_candidates(inputs@, explicit_skills@);
    let ghost n_inputs = skill_input_candidates(inputs@).len();
    let mut saw_compatible_route_skill = false;
    let mut saw_explicit_skill = false;
    let ghost mut j: int = 0;

    for i in 0..inputs.len()
        invariant
            candidates == explicit_candidates(inputs@, explicit_skills@),
            n_inputs == skill_input_candidates(inputs@).len(),
            j == skill_input_candidates(inputs@.take(i as int)).len(),
            saw_compatible_route_skill == (j > 0),
            saw_explicit_skill == (j > 0),
            decision_from(candidates, selected_owner@, route_metadata@, j, j > 0)
                == router_decision(inputs@, explicit_skills@, selected_owner@, route_metadata@),
    {
        proof {
            lemma_skill_input_candidates_prefix(inputs@, i + 1);
            assert(inputs@.take(i + 1).drop_last() == inputs@.take(i as int));
        }
        match &inputs[i] {
            UserInput::Skill { name, path } => {
                proof {
                    assert(skill_input_candidates(inputs@.take(i + 1)) == skill_input_candidates(
                        inputs@.take(i as int),
                    ).push((name@, path@)));
                    assert(skill_input_candidates(inputs@.take(i + 1))[j] == (name@, path@));
                    assert(candidates[j] == (name@, path@));
                }
                saw_explicit_skill = true;
                if same_skill_identity(name.as_str(), selected_owner) {
                    return ExplicitSkillRouterDecision::OwnerAlreadySelected;
                }
                if explicit_skill_allows_parent_injection(
                    name.as_str(),
                    path.as_str(),
                    selected_owner,
                    route_metadata,
                ) {
                    saw_compatible_route_skill = true;
                } else {
                    return ExplicitSkillRouterDecision::SuppressParentInjection;
                }
                proof {
                    j = j + 1;
                }
            },
            _ => {
                assert(skill_input_candidates(inputs@.take(i + 1)) == skill_input_candidates(
                    inputs@.take(i as int),
                ));
            },
        }
    }
    assert(inputs@.take(inputs@.len() as int) == inputs@);

    for i in 0..explicit_skills.len()
        invariant
            candidates == explicit_candidates(inputs@, explicit_skills@),
            n_inputs == skill_input_candidates(inputs@).len(),
            j == n_inputs + i,
            saw_compatible_route_skill == (j > 0),
            saw_explicit_skill == (j > 0),
            decision_from(candidates, selected_owner@, route_metadata@, j, j > 0)
                == router_decision(inputs@, explicit_skills@, selected_owner@, route_metadata@),
    {
        let skill = &explicit_skills[i];
        assert(candidates[j] == (skill.name@, skill.path_to_skills_md@));
        saw_explicit_skill = true;
        if same_skill_identity(skill.name.as_str(), selected_owner) {
            return ExplicitSkillRouterDecision::OwnerAlreadySelected;
        }
        if explicit_skill_allows_parent_injection(
            skill.name.as_str(),
            skill.path_to_skills_md.as_str(),
            selected_owner,
            route_metadata,
        ) {
            saw_compatible_route_skill = true;
        } else {
            return ExplicitSkillRouterDecision::SuppressParentInjection;
        }
        proof {
            j = j + 1;
        }
    }

    if saw_compatible_route_skill {
        ExplicitSkillRouterDecision::AllowParentInjection
    } else if saw_explicit_skill {
        ExplicitSkillRouterDecision::SuppressParentInjection
    } else {
        ExplicitSkillRouterDecision::NoExplicitSkill
    }
}

// ---------------------------------------------------------------------------
// Choosing the skill to inject

/// `path` is one of the disabled skill paths, compared as paths (by their
/// components).
pub open spec fn is_disabled(disabled_paths: Seq<String>, path: Seq<char>) -> bool {
    exists|k: int| 0 <= k < disabled_paths.len() && same_path((#[trigger] disabled_paths[k])@, path)
}

/// The first skill from index `i` on that is not disabled and is named
/// `select`.
pub open spec fn enabled_skill_from(
    skills: Seq<SkillMetadata>,
    disabled_paths: Seq<String>,
    select: Seq<char>,
    i: int,
) -> Option<int>
    decreases skills.len() - i,
{
    if i < 0 || i >= skills.len() {
        None
    } else if !is_disabled(disabled_paths, skills[i].path_to_skills_md@) && skills[i].name@
        == select {
        Some(i)
    } else {
        enabled_skill_from(skills, disabled_paths, select, i + 1)
    }
}

/// The explicit selections hold the owner back.
pub open spec fn blocks_injection(decision: ExplicitSkillRouterDecision) -> bool {
    decision == ExplicitSkillRouterDecision::OwnerAlreadySelected || decision
        == ExplicitSkillRouterDecision::SuppressParentInjection
}

/// The skill (an index into `skills`) that `domain` injects: when the
/// prompt or the workspace shows the domain, and explicit selections do not
/// hold it back (if the block asks for that), the first enabled skill named
/// by the domain.
pub open spec fn domain_choice(
    inputs: Seq<UserInput>,
    explicit_skills: Seq<SkillMetadata>,
    skills: Seq<SkillMetadata>,
    disabled_paths: Seq<String>,
    workspace_entries: Seq<Option<String>>,
    route_metadata: Seq<SkillRouteEntry>,
    suppress_when_explicit: bool,
    domain: PluginRouterSelectionDomain,
) -> Option<int> {
    if !has_prompt_signal(inputs, domain.prompt_signals@) && !has_workspace_signal(
        workspace_entries,
        domain,
    ) {
        None
    } else if suppress_when_explicit && blocks_injection(
        router_decision(inputs, explicit_skills, domain.select@, route_metadata),
    ) {
        None
    } else {
        enabled_skill_from(skills, disabled_paths, domain.select@, 0)
    }
}

/// The choice of the first domain from index `d` on that makes one.
pub open spec fn domains_choice_from(
    inputs: Seq<UserInput>,
    explicit_skills: Seq<SkillMetadata>,
    skills: Seq<SkillMetadata>,
    disabled_paths: Seq<String>,
    workspace_entries: Seq<Option<String>>,
    route_metadata: Seq<SkillRouteEntry>,
    config: PluginRouterSelection,
    d: int,
) -> Option<int>
    decreases config.domains@.len() - d,
{
    if d < 0 || d >= config.domains@.len() {
        None
    } else {
        match domain_choice(
            inputs,
            explicit_skills,
            skills,
            disabled_paths,
            workspace_entries,
            route_metadata,
            config.suppression.when_explicit_skill_selected,
            config.domains@[d],
        ) {
            Some(i) => Some(i),
            None => domains_choice_from(
                inputs,
                explicit_skills,
                skills,
                disabled_paths,
                workspace_entries,
                route_metadata,
                config,
                d + 1,
            ),
        }
    }
}

/// The choice of the first router-selection block from index `c` on that
/// applies to the client and makes one.
pub open spec fn selections_choice_from(
    inputs: Seq<UserInput>,
    explicit_skills: Seq<SkillMetadata>,
    skills: Seq<SkillMetadata>,
    disabled_paths: Seq<String>,
    workspace_entries: Seq<Option<String>>,
    route_metadata: Seq<SkillRouteEntry>,
    router_selections: Seq<PluginRouterSelection>,
    client_name: Option<Seq<char>>,
    c: int,
) -> Option<int>
    decreases router_selections.len() - c,
{
    if c < 0 || c >= router_selections.len() {
        None
    } else {
        let config = router_selections[c];
        let here = if matches_host_scope(client_name, config.host_scopes@) {
            domains_choice_from(
                inputs,
                explicit_skills,
                skills,
                disabled_paths,
                workspace_entries,
                route_metadata,
                config,
                0,
            )
        } else {
            None
        };
        match here {
            Some(i) => Some(i),
            None => selections_choice_from(
                inputs,
                explicit_skills,
                skills,
                disabled_paths,
                workspace_entries,
                route_metadata,
                router_selections,
                client_name,
                c + 1,
            ),
        }
    }
}

/// The skill (an index into `skills`) that is injected, if any.
pub open spec fn injection_choice(
    inputs: Seq<UserInput>,
    explicit_skills: Seq<SkillMetadata>,
    skills: Seq<SkillMetadata>,
    disabled_paths: Seq<String>,
    router_selections: Seq<PluginRouterSelection>,
    client_name: Option<Seq<char>>,
    workspace_entries: Seq<Option<String>>,
    route_metadata: Seq<SkillRouteEntry>,
    enabled: bool,
) -> Option<int> {
    if !enabled || !is_desktop(client_name) {
        None
    } else {
        selections_choice_from(
            inputs,
            explicit_skills,
            skills,
            disabled_paths,
            workspace_entries,
            route_metadata,
            router_selections,
            client_name,
            0,
        )
    }
}

fn is_disabled_path(disabled_paths: &Vec<String>, path: &String) -> (r: bool)
    ensures
        r == is_disabled(disabled_paths@, path@),
{
    for k in 0..disabled_paths.len()
        invariant
            forall|b: int| 0 <= b < k ==> !same_path((#[trigger] disabled_paths@[b])@, path@),
    {
        if paths_equal(disabled_paths[k].as_str(), path.as_str()) {
            return true;
        }
    }
    false
}

fn find_enabled_skill(skills: &[SkillMetadata], disabled_paths: &Vec<String>, select: &String) -> (r:
    Option<usize>)
    ensures
        match r {
            Some(i) => enabled_skill_from(skills@, disabled_paths@, select@, 0) == Some(i as int)
                && i < skills@.len(),
            None => enabled_skill_from(skills@, disabled_paths@, select@, 0) is None,
        },
{
    for i in 0..skills.len()
        invariant
            enabled_skill_from(skills@, disabled_paths@, select@, i as int) == enabled_skill_from(
                skills@,
                disabled_paths@,
                select@,
                0,
            ),
    {
        let skill = &skills[i];
        if !is_disabled_path(disabled_paths, &skill.path_to_skills_md) && skill.name == *select {
            return Some(i);
        }
    }
    None
}

fn domain_injection(
    inputs: &[UserInput],
    explicit_skills: &[SkillMetadata],
    skills: &[SkillMetadata],
    disabled_paths: &Vec<String>,
    workspace_entries: &Vec<Option<String>>,
    route_metadata: &Vec<SkillRouteEntry>,
    suppress_when_explicit: bool,
    domain: &PluginRouterSelectionDomain,
) -> (r: Option<usize>)
    ensures
        match r {
            Some(i) => domain_choice(
                inputs@,
                explicit_skills@,
                skills@,
                disabled_paths@,
                workspace_entries@,
                route_metadata@,
                suppress_when_explicit,
                *domain,
            ) == Some(i as int) && i < skills@.len(),
            None => domain_choice(
                inputs@,
                explicit_skills@,
                skills@,
                disabled_paths@,
                workspace_entries@,
                route_metadata@,
                suppress_when_explicit,
                *domain,
            ) is None,
        },
{
    if !has_configured_prompt_signal(inputs, &domain.prompt_signals)
        && !has_configured_workspace_signal(workspace_entries, domain) {
        return None;
    }
    if suppress_when_explicit {
        match explicit_skill_router_decision(
            inputs,
            explicit_skills,
            domain.select.as_str(),
            route_metadata,
        ) {
            ExplicitSkillRouterDecision::NoExplicitSkill
            | ExplicitSkillRouterDecision::AllowParentInjection => {},
            ExplicitSkillRouterDecision::OwnerAlreadySelected
            | ExplicitSkillRouterDecision::SuppressParentInjection => return None,
        }
    }
    find_enabled_skill(skills, disabled_paths, &domain.select)
}

fn collect_manifest_router_selection_injections(
    inputs: &[UserInput],
    explicit_skills: &[SkillMetadata],
    skills: &[SkillMetadata],
    disabled_paths: &Vec<String>,
    router_selections: &[PluginRouterSelection],
    client_name: Option<&str>,
    workspace_entries: &Vec<Option<String>>,
    route_metadata: &Vec<SkillRouteEntry>,
) -> (r: Vec<SkillMetadata>)
    ensures
        match selections_choice_from(
            inputs@,
            explicit_skills@,
            skills@,
            disabled_paths@,
            workspace_entries@,
            route_metadata@,
            router_selections@,
            opt_view(client_name),
            0,
        ) {
            Some(i) => r@ == seq![skills@[i]],
            None => r@.len() == 0,
        },
{
    for c in 0..router_selections.len()
        invariant
            selections_choice_from(
                inputs@,
                explicit_skills@,
                skills@,
                disabled_paths@,
                workspace_entries@,
                route_metadata@,
                router_selections@,
                opt_view(client_name),
                c as int,
            ) == selections_choice_from(
                inputs@,
                explicit_skills@,
                skills@,
                disabled_paths@,
                workspace_entries@,
                route_metadata@,
                router_selections@,
                opt_view(client_name),
                0,
            ),
    {
        let config = &router_selections[c];
        if client_matches_any_host_scope(client_name, &config.host_scopes) {
            for d in 0..config.domains.len()
                invariant
                    0 <= c < router_selections@.len(),
                    config == router_selections@[c as int],
                    matches_host_scope(opt_view(client_name), config.host_scopes@),
                    selections_choice_from(
                        inputs@,
                        explicit_skills@,
                        skills@,
                        disabled_paths@,
                        workspace_entries@,
                        route_metadata@,
                        router_selections@,
                        opt_view(client_name),
                        c as int,
                    ) == selections_choice_from(
                        inputs@,
                        explicit_skills@,
                        skills@,
                        disabled_paths@,
                        workspace_entries@,
                        route_metadata@,
                        router_selections@,
                        opt_view(client_name),
                        0,
                    ),
                    domains_choice_from(
                        inputs@,
                        explicit_skills@,
                        skills@,
                        disabled_paths@,
                        workspace_entries@,
                        route_metadata@,
                        *config,
                        d as int,
                    ) == domains_choice_from(
                        inputs@,
                        explicit_skills@,
                        skills@,
                        disabled_paths@,
                        workspace_entries@,
                        route_metadata@,
                        *config,
                        0,
                    ),
            {
                match domain_injection(
                    inputs,
                    explicit_skills,
                    skills,
                    disabled_paths,
                    workspace_entries,
                    route_metadata,
                    config.suppression.when_explicit_skill_selected,
                    &config.domains[d],
                ) {
                    Some(i) => {
                        let mut injected: Vec<SkillMetadata> = Vec::new();
                        injected.push(skills[i].clone());
                        return injected;
                    },
                    None => {},
                }
            }
        }
    }
    Vec::new()
}

/// The top-level router skill to inject for this turn: at most one skill,
/// and none unless `enabled` and the client is a desktop client.
///
/// `workspace_entries` are the names of the entries of the working
/// directory (`None` for a name that is not valid Unicode; empty when the
/// directory cannot be read); `route_metadata` holds the route metadata read
/// from the skill files that explicit selections point at.
pub fn maybe_collect_desktop_top_level_skill_injection(
    inputs: &[UserInput],
    explicit_skills: &[SkillMetadata],
    skills: &[SkillMetadata],
    disabled_paths: &Vec<String>,
    router_selections: &[PluginRouterSelection],
    client_name: Option<&str>,
    workspace_entries: &Vec<Option<String>>,
    route_metadata: &Vec<SkillRouteEntry>,
    enabled: bool,
) -> (r: Vec<SkillMetadata>)
    ensures
        match injection_choice(
            inputs@,
            explicit_skills@,
            skills@,
            disabled_paths@,
            router_selections@,
            opt_view(client_name),
            workspace_entries@,
            route_metadata@,
            enabled,
        ) {
            Some(i) => r@ == seq![skills@[i]],
            None => r@.len() == 0,
        },
        r@.len() <= 1,
        !enabled ==> r@.len() == 0,
        !is_desktop(opt_view(client_name)) ==> r@.len() == 0,
{
    if !enabled || !is_desktop_client(client_name) {
        return Vec::new();
    }
    let configured_injections = collect_manifest_router_selection_injections(
        inputs,
        explicit_skills,
        skills,
        disabled_paths,
        router_selections,
        client_name,
        workspace_entries,
        route_metadata,
    );
    if configured_injections.len() > 0 {
        return configured_injections;
    }
    Vec::new()
}

// ---------------------------------------------------------------------------
// Laws

/// An explicit selection lets the owner be injected: it does not name the
/// owner, and it allows injection.
pub open spec fn candidate_passes(
    candidate: (Seq<char>, Seq<char>),
    selected_owner: Seq<char>,
    route_metadata: Seq<SkillRouteEntry>,
) -> bool {
    skill_identity(candidate.0) != skill_identity(selected_owner) && allows_parent_injection(
        candidate.0,
        candidate.1,
        selected_owner,
        route_metadata,
    )
}

proof fn lemma_decision_from(
    candidates: Seq<(Seq<char>, Seq<char>)>,
    selected_owner: Seq<char>,
    route_metadata: Seq<SkillRouteEntry>,
    i: int,
    seen: bool,
)
    requires
        0 <= i <= candidates.len(),
    ensures
        blocks_injection(decision_from(candidates, selected_owner, route_metadata, i, seen))
            <==> exists|k: int|
            i <= k < candidates.len() && !candidate_passes(
                #[trigger] candidates[k],
                selected_owner,
                route_metadata,
            ),
        (decision_from(candidates, selected_owner, route_metadata, i, seen)
            == ExplicitSkillRouterDecision::NoExplicitSkill) <==> (!seen && i == candidates.len()),
    decreases candidates.len() - i,
{
    if i < candidates.len() {
        if candidate_passes(candidates[i], selected_owner, route_metadata) {
            lemma_decision_from(candidates, selected_owner, route_metadata, i + 1, true);
            assert forall|k: int|
                i <= k < candidates.len() && !candidate_passes(
                    #[trigger] candidates[k],
                    selected_owner,
                    route_metadata,
                ) implies i + 1 <= k by {}
        }
    }
}

/// The explicit selections hold the owner of a domain back exactly when one
/// of them names the owner or does not allow injection (a narrow
/// specialist, or a skill without broad route metadata); they say nothing
/// exactly when there are none.
pub proof fn lemma_router_decision(
    inputs: Seq<UserInput>,
    explicit_skills: Seq<SkillMetadata>,
    selected_owner: Seq<char>,
    route_metadata: Seq<SkillRouteEntry>,
)
    ensures
        blocks_injection(
            router_decision(inputs, explicit_skills, selected_owner, route_metadata),
        ) <==> exists|k: int|
            0 <= k < explicit_candidates(inputs, explicit_skills).len() && !candidate_passes(
                #[trigger] explicit_candidates(inputs, explicit_skills)[k],
                selected_owner,
                route_metadata,
            ),
        (router_decision(inputs, explicit_skills, selected_owner, route_metadata)
            == ExplicitSkillRouterDecision::NoExplicitSkill) <==> explicit_candidates(
            inputs,
            explicit_skills,
        ).len() == 0,
{
    lemma_decision_from(
        explicit_candidates(inputs, explicit_skills),
        selected_owner,
        route_metadata,
        0,
        false,
    );
}

/// A domain whose block suppresses on explicit selections injects nothing
/// when the user explicitly selected its owner (no duplicate owner), or
/// selected a skill that does not route through it (a narrow specialist
/// stays alone).
pub proof fn lemma_explicit_selection_suppresses_domain(
    inputs: Seq<UserInput>,
    explicit_skills: Seq<SkillMetadata>,
    skills: Seq<SkillMetadata>,
    disabled_paths: Seq<String>,
    workspace_entries: Seq<Option<String>>,
    route_metadata: Seq<SkillRouteEntry>,
    domain: PluginRouterSelectionDomain,
    k: int,
)
    requires
        0 <= k < explicit_candidates(inputs, explicit_skills).len(),
        skill_identity(explicit_candidates(inputs, explicit_skills)[k].0) == skill_identity(
            domain.select@,
        ) || !allows_parent_injection(
            explicit_candidates(inputs, explicit_skills)[k].0,
            explicit_candidates(inputs, explicit_skills)[k].1,
            domain.select@,
            route_metadata,
        ),
    ensures
        domain_choice(
            inputs,
            explicit_skills,
            skills,
            disabled_paths,
            workspace_entries,
            route_metadata,
            true,
            domain,
        ) is None,
{
    lemma_router_decision(inputs, explicit_skills, domain.select@, route_metadata);
    assert(!candidate_passes(
        explicit_candidates(inputs, explicit_skills)[k],
        domain.select@,
        route_metadata,
    ));
}

/// What makes a skill eligible for injection: it is one of `skills`, it is
/// not disabled, and it is the owner of a domain of a block that applies
/// to the client and whose prompt or workspace signal is present.
pub open spec fn eligible_injection(
    inputs: Seq<UserInput>,
    skills: Seq<SkillMetadata>,
    disabled_paths: Seq<String>,
    router_selections: Seq<PluginRouterSelection>,
    client_name: Option<Seq<char>>,
    workspace_entries: Seq<Option<String>>,
    i: int,
) -> bool {
    &&& 0 <= i < skills.len()
    &&& !is_disabled(disabled_paths, skills[i].path_to_skills_md@)
    &&& exists|c: int, d: int|
        #![trigger router_selections[c].domains@[d]]
        0 <= c < router_selections.len() && 0 <= d < router_selections[c].domains@.len()
            && matches_host_scope(client_name, router_selections[c].host_scopes@)
            && skills[i].name@ == router_selections[c].domains@[d].select@ && (has_prompt_signal(
            inputs,
            router_selections[c].domains@[d].prompt_signals@,
        ) || has_workspace_signal(workspace_entries, router_selections[c].domains@[d]))
}

proof fn lemma_enabled_skill_from(
    skills: Seq<SkillMetadata>,
    disabled_paths: Seq<String>,
    select: Seq<char>,
    i: int,
)
    requires
        0 <= i,
    ensures
        enabled_skill_from(skills, disabled_paths, select, i) matches Some(j) ==> i <= j
            < skills.len() && !is_disabled(disabled_paths, skills[j].path_to_skills_md@)
            && skills[j].name@ == select,
    decreases skills.len() - i,
{
    if i < skills.len() {
        lemma_enabled_skill_from(skills, disabled_paths, select, i + 1);
    }
}

proof fn lemma_domains_choice_from(
    inputs: Seq<UserInput>,
    explicit_skills: Seq<SkillMetadata>,
    skills: Seq<SkillMetadata>,
    disabled_paths: Seq<String>,
    workspace_entries: Seq<Option<String>>,
    route_metadata: Seq<SkillRouteEntry>,
    router_selections: Seq<PluginRouterSelection>,
    client_name: Option<Seq<char>>,
    c: int,
    d: int,
)
    requires
        0 <= c < router_selections.len(),
        0 <= d,
        matches_host_scope(client_name, router_selections[c].host_scopes@),
    ensures
        domains_choice_from(
            inputs,
            explicit_skills,
            skills,
            disabled_paths,
            workspace_entries,
            route_metadata,
            router_selections[c],
            d,
        ) matches Some(i) ==> eligible_injection(
            inputs,
            skills,
            disabled_paths,
            router_selections,
            client_name,
            workspace_entries,
            i,
        ),
    decreases router_selections[c].domains@.len() - d,
{
    let config = router_selections[c];
    if d < config.domains@.len() {
        let domain = config.domains@[d];
        lemma_enabled_skill_from(skills, disabled_paths, domain.select@, 0);
        lemma_domains_choice_from(
            inputs,
            explicit_skills,
            skills,
            disabled_paths,
            workspace_entries,
            route_metadata,
            router_selections,
            client_name,
            c,
            d + 1,
        );
        assert(router_selections[c].domains@[d] == domain);
    }
}

proof fn lemma_selections_choice_from(
    inputs: Seq<UserInput>,
    explicit_skills: Seq<SkillMetadata>,
    skills: Seq<SkillMetadata>,
    disabled_paths: Seq<String>,
    workspace_entries: Seq<Option<String>>,
    route_metadata: Seq<SkillRouteEntry>,
    router_selections: Seq<PluginRouterSelection>,
    client_name: Option<Seq<char>>,
    c: int,
)
    requires
        0 <= c,
    ensures
        selections_choice_from(
            inputs,
            explicit_skills,
            skills,
            disabled_paths,
            workspace_entries,
            route_metadata,
            router_selections,
            client_name,
            c,
        ) matches Some(i) ==> eligible_injection(
            inputs,
            skills,
            disabled_paths,
            router_selections,
            client_name,
            workspace_entries,
            i,
        ),
    decreases router_selections.len() - c,
{
    if c < router_selections.len() {
        if matches_host_scope(client_name, router_selections[c].host_scopes@) {
            lemma_domains_choice_from(
                inputs,
                explicit_skills,
                skills,
                disabled_paths,
                workspace_entries,
                route_metadata,
                router_selections,
                client_name,
                c,
                0,
            );
        }
        lemma_selections_choice_from(
            inputs,
            explicit_skills,
            skills,
            disabled_paths,
            workspace_entries,
            route_metadata,
            router_selections,
            client_name,
            c + 1,
        );
    }
}

/// Whatever is injected is eligible (see [`eligible_injection`]).
pub proof fn lemma_injection_is_eligible(
    inputs: Seq<UserInput>,
    explicit_skills: Seq<SkillMetadata>,
    skills: Seq<SkillMetadata>,
    disabled_paths: Seq<String>,
    router_selections: Seq<PluginRouterSelection>,
    client_name: Option<Seq<char>>,
    workspace_entries: Seq<Option<String>>,
    route_metadata: Seq<SkillRouteEntry>,
    enabled: bool,
)
    ensures
        injection_choice(
            inputs,
            explicit_skills,
            skills,
            disabled_paths,
            router_selections,
            client_name,
            workspace_entries,
            route_metadata,
            enabled,
        ) matches Some(i) ==> eligible_injection(
            inputs,
            skills,
            disabled_paths,
            router_selections,
            client_name,
            workspace_entries,
            i,
        ),
{
    lemma_selections_choice_from(
        inputs,
        explicit_skills,
        skills,
        disabled_paths,
        workspace_entries,
        route_metadata,
        router_selections,
        client_name,
        0,
    );
}

/// The injection is the choice of the router-selection blocks, gated on the
/// experiment being enabled and on a desktop client.
pub proof fn lemma_injection_gates_collection(
    inputs: Seq<UserInput>,
    explicit_skills: Seq<SkillMetadata>,
    skills: Seq<SkillMetadata>,
    disabled_paths: Seq<String>,
    router_selections: Seq<PluginRouterSelection>,
    client_name: Option<Seq<char>>,
    workspace_entries: Seq<Option<String>>,
    route_metadata: Seq<SkillRouteEntry>,
    enabled: bool,
)
    ensures
        injection_choice(
            inputs,
            explicit_skills,
            skills,
            disabled_paths,
            router_selections,
            client_name,
            workspace_entries,
            route_metadata,
            enabled,
        ) == if enabled && is_desktop(client_name) {
            selections_choice_from(
                inputs,
                explicit_skills,
                skills,
                disabled_paths,
                workspace_entries,
                route_metadata,
                router_selections,
                client_name,
                0,
            )
        } else {
            None
        },
{
}

/// The inputs without the skills the user selected.
pub open spec fn without_skill_inputs(inputs: Seq<UserInput>) -> Seq<UserInput> {
    inputs.filter(|input: UserInput| !(input is Skill))
}

proof fn lemma_prompt_signal_ignores_skill_inputs(inputs: Seq<UserInput>, prompt_signals: Seq<String>)
    ensures
        has_prompt_signal(inputs, prompt_signals) == has_prompt_signal(
            without_skill_inputs(inputs),
            prompt_signals,
        ),
{
    let pred = |input: UserInput| !(input is Skill);
    let kept = without_skill_inputs(inputs);
    if has_prompt_signal(inputs, prompt_signals) {
        let (i, j) = choose|i: int, j: int|
            #![trigger inputs[i], prompt_signals[j]]
            0 <= i < inputs.len() && 0 <= j < prompt_signals.len() && match inputs[i] {
                UserInput::Text { text, .. } => crate::signals::contains_prompt_signal(
                    crate::text::ascii_lower(text@),
                    crate::text::ascii_lower(prompt_signals[j]@),
                ),
                _ => false,
            };
        inputs.lemma_filter_contains(pred, i);
        let k = choose|k: int| 0 <= k < kept.len() && kept[k] == inputs[i];
        assert(kept[k] == inputs[i] && prompt_signals[j] == prompt_signals[j]);
    }
    if has_prompt_signal(kept, prompt_signals) {
        let (k, j) = choose|k: int, j: int|
            #![trigger kept[k], prompt_signals[j]]
            0 <= k < kept.len() && 0 <= j < prompt_signals.len() && match kept[k] {
                UserInput::Text { text, .. } => crate::signals::contains_prompt_signal(
                    crate::text::ascii_lower(text@),
                    crate::text::ascii_lower(prompt_signals[j]@),
                ),
                _ => false,
            };
        assert(kept.contains(kept[k]));
        inputs.lemma_filter_contains_rev(pred, kept[k]);
        let i = choose|i: int| 0 <= i < inputs.len() && inputs[i] == kept[k];
        assert(inputs[i] == kept[k] && prompt_signals[j] == prompt_signals[j]);
    }
}

proof fn lemma_domains_ignore_selections(
    inputs: Seq<UserInput>,
    explicit_skills: Seq<SkillMetadata>,
    skills: Seq<SkillMetadata>,
    disabled_paths: Seq<String>,
    workspace_entries: Seq<Option<String>>,
    route_metadata: Seq<SkillRouteEntry>,
    config: PluginRouterSelection,
    d: int,
)
    requires
        !config.suppression.when_explicit_skill_selected,
        0 <= d,
    ensures
        domains_choice_from(
            inputs,
            explicit_skills,
            skills,
            disabled_paths,
            workspace_entries,
            route_metadata,
            config,
            d,
        ) == domains_choice_from(
            without_skill_inputs(inputs),
            Seq::empty(),
            skills,
            disabled_paths,
            workspace_entries,
            route_metadata,
            config,
            d,
        ),
    decreases config.domains@.len() - d,
{
    if d < config.domains@.len() {
        lemma_prompt_signal_ignores_skill_inputs(inputs, config.domains@[d].prompt_signals@);
        lemma_domains_ignore_selections(
            inputs,
            explicit_skills,
            skills,
            disabled_paths,
            workspace_entries,
            route_metadata,
            config,
            d + 1,
        );
    }
}

/// When no router-selection block suppresses on explicit selections, what
/// the user selected explicitly does not matter: the choice is the same
/// without the skill inputs and without the explicitly mentioned skills.
pub proof fn lemma_selections_ignored_without_suppression(
    inputs: Seq<UserInput>,
    explicit_skills: Seq<SkillMetadata>,
    skills: Seq<SkillMetadata>,
    disabled_paths: Seq<String>,
    workspace_entries: Seq<Option<String>>,
    route_metadata: Seq<SkillRouteEntry>,
    router_selections: Seq<PluginRouterSelection>,
    client_name: Option<Seq<char>>,
    c: int,
)
    requires
        forall|k: int|
            0 <= k < router_selections.len()
                ==> !(#[trigger] router_selections[k]).suppression.when_explicit_skill_selected,
        0 <= c,
    ensures
        selections_choice_from(
            inputs,
            explicit_skills,
            skills,
            disabled_paths,
            workspace_entries,
            route_metadata,
            router_selections,
            client_name,
            c,
        ) == selections_choice_from(
            without_skill_inputs(inputs),
            Seq::empty(),
            skills,
            disabled_paths,
            workspace_entries,
            route_metadata,
            router_selections,
            client_name,
            c,
        ),
    decreases router_selections.len() - c,
{
    if c < router_selections.len() {
        lemma_domains_ignore_selections(
            inputs,
            explicit_skills,
            skills,
            disabled_paths,
            workspace_entries,
            route_metadata,
            router_selections[c],
            0,
        );
        lemma_selections_ignored_without_suppression(
            inputs,
            explicit_skills,
            skills,
            disabled_paths,
            workspace_entries,
            route_metadata,
            router_selections,
            client_name,
            c + 1,
        );
    }
}

/// When no router-selection block suppresses on explicit selections, the
/// injected skill is the same without the skill inputs and without the
/// explicitly mentioned skills.
pub proof fn lemma_injection_ignores_selections_without_suppression(
    inputs: Seq<UserInput>,
    explicit_skills: Seq<SkillMetadata>,
    skills: Seq<SkillMetadata>,
    disabled_paths: Seq<String>,
    router_selections: Seq<PluginRouterSelection>,
    client_name: Option<Seq<char>>,
    workspace_entries: Seq<Option<String>>,
    route_metadata: Seq<SkillRouteEntry>,
    enabled: bool,
)
    requires
        forall|k: int|
            0 <= k < router_selections.len()
                ==> !(#[trigger] router_selections[k]).suppression.when_explicit_skill_selected,
    ensures
        injection_choice(
            inputs,
            explicit_skills,
            skills,
            disabled_paths,
            router_selections,
            client_name,
            workspace_entries,
            route_metadata,
            enabled,
        ) == injection_choice(
            without_skill_inputs(inputs),
            Seq::empty(),
            skills,
            disabled_paths,
            router_selections,
            client_name,
            workspace_entries,
            route_metadata,
            enabled,
        ),
{
    lemma_selections_ignored_without_suppression(
        inputs,
        explicit_skills,
        skills,
        disabled_paths,
        workspace_entries,
        route_metadata,
        router_selections,
        client_name,
        0,
    );
}

// ---------------------------------------------------------------------------
// Which domain is injected

/// `skills[i]` is the first skill that is not disabled and is named `select`.
pub open spec fn first_enabled_named(
    skills: Seq<SkillMetadata>,
    disabled_paths: Seq<String>,
    select: Seq<char>,
    i: int,
) -> bool {
    &&& 0 <= i < skills.len()
    &&& !is_disabled(disabled_paths, skills[i].path_to_skills_md@)
    &&& skills[i].name@ == select
    &&& forall|j: int|
        0 <= j < i ==> is_disabled(disabled_paths, (#[trigger] skills[j]).path_to_skills_md@)
            || skills[j].name@ != select
}

/// Some skill that is not disabled is named `select`.
pub open spec fn some_enabled_named(
    skills: Seq<SkillMetadata>,
    disabled_paths: Seq<String>,
    select: Seq<char>,
) -> bool {
    exists|j: int|
        0 <= j < skills.len() && !is_disabled(
            disabled_paths,
            (#[trigger] skills[j]).path_to_skills_md@,
        ) && skills[j].name@ == select
}

/// The prompt or the workspace shows `domain`, and, when its block asks for
/// it, every explicit selection lets the owner be injected.
pub open spec fn domain_called(
    inputs: Seq<UserInput>,
    explicit_skills: Seq<SkillMetadata>,
    workspace_entries: Seq<Option<String>>,
    route_metadata: Seq<SkillRouteEntry>,
    suppress_when_explicit: bool,
    domain: PluginRouterSelectionDomain,
) -> bool {
    &&& has_prompt_signal(inputs, domain.prompt_signals@) || has_workspace_signal(
        workspace_entries,
        domain,
    )
    &&& suppress_when_explicit ==> forall|k: int|
        0 <= k < explicit_candidates(inputs, explicit_skills).len() ==> candidate_passes(
            #[trigger] explicit_candidates(inputs, explicit_skills)[k],
            domain.select@,
            route_metadata,
        )
}

/// `domain` is called and names a skill that is not disabled.
pub open spec fn domain_yields(
    inputs: Seq<UserInput>,
    explicit_skills: Seq<SkillMetadata>,
    skills: Seq<SkillMetadata>,
    disabled_paths: Seq<String>,
    workspace_entries: Seq<Option<String>>,
    route_metadata: Seq<SkillRouteEntry>,
    suppress_when_explicit: bool,
    domain: PluginRouterSelectionDomain,
) -> bool {
    domain_called(
        inputs,
        explicit_skills,
        workspace_entries,
        route_metadata,
        suppress_when_explicit,
        domain,
    ) && some_enabled_named(skills, disabled_paths, domain.select@)
}

proof fn lemma_enabled_skill_found(
    skills: Seq<SkillMetadata>,
    disabled_paths: Seq<String>,
    select: Seq<char>,
    i0: int,
    i: int,
)
    requires
        0 <= i0 <= i,
        first_enabled_named(skills, disabled_paths, select, i),
    ensures
        enabled_skill_from(skills, disabled_paths, select, i0) == Some(i),
    decreases i - i0,
{
    if i0 < i {
        assert(is_disabled(disabled_paths, skills[i0].path_to_skills_md@) || skills[i0].name@
            != select);
        lemma_enabled_skill_found(skills, disabled_paths, select, i0 + 1, i);
    }
}

proof fn lemma_enabled_skill_absent(
    skills: Seq<SkillMetadata>,
    disabled_paths: Seq<String>,
    select: Seq<char>,
    i0: int,
)
    requires
        0 <= i0,
        !some_enabled_named(skills, disabled_paths, select),
    ensures
        enabled_skill_from(skills, disabled_paths, select, i0) is None,
    decreases skills.len() - i0,
{
    if i0 < skills.len() {
        assert(is_disabled(disabled_paths, skills[i0].path_to_skills_md@) || skills[i0].name@
            != select);
        lemma_enabled_skill_absent(skills, disabled_paths, select, i0 + 1);
    }
}

proof fn lemma_domain_choice_found(
    inputs: Seq<UserInput>,
    explicit_skills: Seq<SkillMetadata>,
    skills: Seq<SkillMetadata>,
    disabled_paths: Seq<String>,
    workspace_entries: Seq<Option<String>>,
    route_metadata: Seq<SkillRouteEntry>,
    suppress_when_explicit: bool,
    domain: PluginRouterSelectionDomain,
    i: int,
)
    requires
        domain_called(
            inputs,
            explicit_skills,
            workspace_entries,
            route_metadata,
            suppress_when_explicit,
            domain,
        ),
        first_enabled_named(skills, disabled_paths, domain.select@, i),
    ensures
        domain_choice(
            inputs,
            explicit_skills,
            skills,
            disabled_paths,
            workspace_entries,
            route_metadata,
            suppress_when_explicit,
            domain,
        ) == Some(i),
{
    lemma_router_decision(inputs, explicit_skills, domain.select@, route_metadata);
    lemma_enabled_skill_found(skills, disabled_paths, domain.select@, 0, i);
}

proof fn lemma_domain_choice_absent(
    inputs: Seq<UserInput>,
    explicit_skills: Seq<SkillMetadata>,
    skills: Seq<SkillMetadata>,
    disabled_paths: Seq<String>,
    workspace_entries: Seq<Option<String>>,
    route_metadata: Seq<SkillRouteEntry>,
    suppress_when_explicit: bool,
    domain: PluginRouterSelectionDomain,
)
    requires
        !domain_yields(
            inputs,
            explicit_skills,
            skills,
            disabled_paths,
            workspace_entries,
            route_metadata,
            suppress_when_explicit,
            domain,
        ),
    ensures
        domain_choice(
            inputs,
            explicit_skills,
            skills,
            disabled_paths,
            workspace_entries,
            route_metadata,
            suppress_when_explicit,
            domain,
        ) is None,
{
    lemma_router_decision(inputs, explicit_skills, domain.select@, route_metadata);
    if !some_enabled_named(skills, disabled_paths, domain.select@) {
        lemma_enabled_skill_absent(skills, disabled_paths, domain.select@, 0);
    }
}

proof fn lemma_domains_choice_found(
    inputs: Seq<UserInput>,
    explicit_skills: Seq<SkillMetadata>,
    skills: Seq<SkillMetadata>,
    disabled_paths: Seq<String>,
    workspace_entries: Seq<Option<String>>,
    route_metadata: Seq<SkillRouteEntry>,
    config: PluginRouterSelection,
    d0: int,
    d: int,
    i: int,
)
    requires
        0 <= d0 <= d < config.domains@.len(),
        domain_called(
            inputs,
            explicit_skills,
            workspace_entries,
            route_metadata,
            config.suppression.when_explicit_skill_selected,
            config.domains@[d],
        ),
        first_enabled_named(skills, disabled_paths, config.domains@[d].select@, i),
        forall|e: int|
            d0 <= e < d ==> !domain_yields(
                inputs,
                explicit_skills,
                skills,
                disabled_paths,
                workspace_entries,
                route_metadata,
                config.suppression.when_explicit_skill_selected,
                #[trigger] config.domains@[e],
            ),
    ensures
        domains_choice_from(
            inputs,
            explicit_skills,
            skills,
            disabled_paths,
            workspace_entries,
            route_metadata,
            config,
            d0,
        ) == Some(i),
    decreases d - d0,
{
    let suppress = config.suppression.when_explicit_skill_selected;
    if d0 < d {
        lemma_domain_choice_absent(
            inputs,
            explicit_skills,
            skills,
            disabled_paths,
            workspace_entries,
            route_metadata,
            suppress,
            config.domains@[d0],
        );
        lemma_domains_choice_found(
            inputs,
            explicit_skills,
            skills,
            disabled_paths,
            workspace_entries,
            route_metadata,
            config,
            d0 + 1,
            d,
            i,
        );
    } else {
        lemma_domain_choice_found(
            inputs,
            explicit_skills,
            skills,
            disabled_paths,
            workspace_entries,
            route_metadata,
            suppress,
            config.domains@[d],
            i,
        );
    }
}

proof fn lemma_domains_choice_absent(
    inputs: Seq<UserInput>,
    explicit_skills: Seq<SkillMetadata>,
    skills: Seq<SkillMetadata>,
    disabled_paths: Seq<String>,
    workspace_entries: Seq<Option<String>>,
    route_metadata: Seq<SkillRouteEntry>,
    config: PluginRouterSelection,
    d0: int,
)
    requires
        0 <= d0,
        forall|e: int|
            d0 <= e < config.domains@.len() ==> !domain_yields(
                inputs,
                explicit_skills,
                skills,
                disabled_paths,
                workspace_entries,
                route_metadata,
                config.suppression.when_explicit_skill_selected,
                #[trigger] config.domains@[e],
            ),
    ensures
        domains_choice_from(
            inputs,
            explicit_skills,
            skills,
            disabled_paths,
            workspace_entries,
            route_metadata,
            config,
            d0,
        ) is None,
    decreases config.domains@.len() - d0,
{
    if d0 < config.domains@.len() {
        lemma_domain_choice_absent(
            inputs,
            explicit_skills,
            skills,
            disabled_paths,
            workspace_entries,
            route_metadata,
            config.suppression.when_explicit_skill_selected,
            config.domains@[d0],
        );
        lemma_domains_choice_absent(
            inputs,
            explicit_skills,
            skills,
            disabled_paths,
            workspace_entries,
            route_metadata,
            config,
            d0 + 1,
        );
    }
}

proof fn lemma_selections_choice_found(
    inputs: Seq<UserInput>,
    explicit_skills: Seq<SkillMetadata>,
    skills: Seq<SkillMetadata>,
    disabled_paths: Seq<String>,
    workspace_entries: Seq<Option<String>>,
    route_metadata: Seq<SkillRouteEntry>,
    router_selections: Seq<PluginRouterSelection>,
    client_name: Option<Seq<char>>,
    c0: int,
    c: int,
    d: int,
    i: int,
)
    requires
        0 <= c0 <= c < router_selections.len(),
        matches_host_scope(client_name, router_selections[c].host_scopes@),
        0 <= d < router_selections[c].domains@.len(),
        domain_called(
            inputs,
            explicit_skills,
            workspace_entries,
            route_metadata,
            router_selections[c].suppression.when_explicit_skill_selected,
            router_selections[c].domains@[d],
        ),
        first_enabled_named(skills, disabled_paths, router_selections[c].domains@[d].select@, i),
        forall|b: int, e: int|
            #![trigger router_selections[b].domains@[e]]
            c0 <= b < c && matches_host_scope(client_name, router_selections[b].host_scopes@) && 0
                <= e < router_selections[b].domains@.len() ==> !domain_yields(
                inputs,
                explicit_skills,
                skills,
                disabled_paths,
                workspace_entries,
                route_metadata,
                router_selections[b].suppression.when_explicit_skill_selected,
                router_selections[b].domains@[e],
            ),
        forall|e: int|
            0 <= e < d ==> !domain_yields(
                inputs,
                explicit_skills,
                skills,
                disabled_paths,
                workspace_entries,
                route_metadata,
                router_selections[c].suppression.when_explicit_skill_selected,
                #[trigger] router_selections[c].domains@[e],
            ),
    ensures
        selections_choice_from(
            inputs,
            explicit_skills,
            skills,
            disabled_paths,
            workspace_entries,
            route_metadata,
            router_selections,
            client_name,
            c0,
        ) == Some(i),
    decreases c - c0,
{
    if c0 < c {
        if matches_host_scope(client_name, router_selections[c0].host_scopes@) {
            lemma_domains_choice_absent(
                inputs,
                explicit_skills,
                skills,
                disabled_paths,
                workspace_entries,
                route_metadata,
                router_selections[c0],
                0,
            );
        }
        lemma_selections_choice_found(
            inputs,
            explicit_skills,
            skills,
            disabled_paths,
            workspace_entries,
            route_metadata,
            router_selections,
            client_name,
            c0 + 1,
            c,
            d,
            i,
        );
    } else {
        lemma_domains_choice_found(
            inputs,
            explicit_skills,
            skills,
            disabled_paths,
            workspace_entries,
            route_metadata,
            router_selections[c],
            0,
            d,
            i,
        );
    }
}

proof fn lemma_selections_choice_absent(
    inputs: Seq<UserInput>,
    explicit_skills: Seq<SkillMetadata>,
    skills: Seq<SkillMetadata>,
    disabled_paths: Seq<String>,
    workspace_entries: Seq<Option<String>>,
    route_metadata: Seq<SkillRouteEntry>,
    router_selections: Seq<PluginRouterSelection>,
    client_name: Option<Seq<char>>,
    c0: int,
)
    requires
        0 <= c0,
        forall|b: int, e: int|
            #![trigger router_selections[b].domains@[e]]
            c0 <= b < router_selections.len() && matches_host_scope(
                client_name,
                router_selections[b].host_scopes@,
            ) && 0 <= e < router_selections[b].domains@.len() ==> !domain_yields(
                inputs,
                explicit_skills,
                skills,
                disabled_paths,
                workspace_entries,
                route_metadata,
                router_selections[b].suppression.when_explicit_skill_selected,
                router_selections[b].domains@[e],
            ),
    ensures
        selections_choice_from(
            inputs,
            explicit_skills,
            skills,
            disabled_paths,
            workspace_entries,
            route_metadata,
            router_selections,
            client_name,
            c0,
        ) is None,
    decreases router_selections.len() - c0,
{
    if c0 < router_selections.len() {
        if matches_host_scope(client_name, router_selections[c0].host_scopes@) {
            lemma_domains_choice_absent(
                inputs,
                explicit_skills,
                skills,
                disabled_paths,
                workspace_entries,
                route_metadata,
                router_selections[c0],
                0,
            );
        }
        lemma_selections_choice_absent(
            inputs,
            explicit_skills,
            skills,
            disabled_paths,
            workspace_entries,
            route_metadata,
            router_selections,
            client_name,
            c0 + 1,
        );
    }
}

/// Every domain of every block that applies to the client is tried, in
/// order: when the experiment is enabled for a desktop client, and domain
/// `d` of block `c` (a block whose host scopes match the client) is shown by
/// the prompt or the workspace, is not held back by explicit selections,
/// and names the enabled skill `skills[i]` (the first one of that name),
/// while no earlier domain of that block and no domain of an earlier
/// matching block yields a skill, then exactly `skills[i]` is injected.
pub proof fn lemma_first_called_domain_is_injected(
    inputs: Seq<UserInput>,
    explicit_skills: Seq<SkillMetadata>,
    skills: Seq<SkillMetadata>,
    disabled_paths: Seq<String>,
    router_selections: Seq<PluginRouterSelection>,
    client_name: Option<Seq<char>>,
    workspace_entries: Seq<Option<String>>,
    route_metadata: Seq<SkillRouteEntry>,
    c: int,
    d: int,
    i: int,
)
    requires
        is_desktop(client_name),
        0 <= c < router_selections.len(),
        matches_host_scope(client_name, router_selections[c].host_scopes@),
        0 <= d < router_selections[c].domains@.len(),
        domain_called(
            inputs,
            explicit_skills,
            workspace_entries,
            route_metadata,
            router_selections[c].suppression.when_explicit_skill_selected,
            router_selections[c].domains@[d],
        ),
        first_enabled_named(skills, disabled_paths, router_selections[c].domains@[d].select@, i),
        forall|b: int, e: int|
            #![trigger router_selections[b].domains@[e]]
            0 <= b < c && matches_host_scope(client_name, router_selections[b].host_scopes@) && 0
                <= e < router_selections[b].domains@.len() ==> !domain_yields(
                inputs,
                explicit_skills,
                skills,
                disabled_paths,
                workspace_entries,
                route_metadata,
                router_selections[b].suppression.when_explicit_skill_selected,
                router_selections[b].domains@[e],
            ),
        forall|e: int|
            0 <= e < d ==> !domain_yields(
                inputs,
                explicit_skills,
                skills,
                disabled_paths,
                workspace_entries,
                route_metadata,
                router_selections[c].suppression.when_explicit_skill_selected,
                #[trigger] router_selections[c].domains@[e],
            ),
    ensures
        injection_choice(
            inputs,
            explicit_skills,
            skills,
            disabled_paths,
            router_selections,
            client_name,
            workspace_entries,
            route_metadata,
            true,
        ) == Some(i),
{
    lemma_selections_choice_found(
        inputs,
        explicit_skills,
        skills,
        disabled_paths,
        workspace_entries,
        route_metadata,
        router_selections,
        client_name,
        0,
        c,
        d,
        i,
    );
}

/// Nothing is injected when no domain of a block that applies to the
/// client yields a skill.
pub proof fn lemma_no_called_domain_injects_nothing(
    inputs: Seq<UserInput>,
    explicit_skills: Seq<SkillMetadata>,
    skills: Seq<SkillMetadata>,
    disabled_paths: Seq<String>,
    router_selections: Seq<PluginRouterSelection>,
    client_name: Option<Seq<char>>,
    workspace_entries: Seq<Option<String>>,
    route_metadata: Seq<SkillRouteEntry>,
    enabled: bool,
)
    requires
        forall|b: int, e: int|
            #![trigger router_selections[b].domains@[e]]
            0 <= b < router_selections.len() && matches_host_scope(
                client_name,
                router_selections[b].host_scopes@,
            ) && 0 <= e < router_selections[b].domains@.len() ==> !domain_yields(
                inputs,
                explicit_skills,
                skills,
                disabled_paths,
                workspace_entries,
                route_metadata,
                router_selections[b].suppression.when_explicit_skill_selected,
                router_selections[b].domains@[e],
            ),
    ensures
        injection_choice(
            inputs,
            explicit_skills,
            skills,
            disabled_paths,
            router_selections,
            client_name,
            workspace_entries,
            route_metadata,
            enabled,
        ) is None,
{
    lemma_selections_choice_absent(
        inputs,
        explicit_skills,
        skills,
        disabled_paths,
        workspace_entries,
        route_metadata,
        router_selections,
        client_name,
        0,
    );
}

// ---------------------------------------------------------------------------
// Broad and domain routes

/// `value`, trimmed, is `a` or `b` without regard to ASCII case.
pub open spec fn trimmed_is_either(value: Option<String>, a: Seq<char>, b: Seq<char>) -> bool {
    value matches Some(v) && (eq_ignore_ascii_case(trim(v@), a) || eq_ignore_ascii_case(
        trim(v@),
        b,
    ))
}

/// Route metadata marks a broad or domain route exactly when its routing
/// scope, trimmed and without regard to ASCII case, is `broad` or `domain`
/// (whatever its role), or its role is one of the orchestrator roles
/// (whatever its scope).
pub proof fn lemma_broad_or_domain_route(metadata: SkillRouteMetadata)
    ensures
        is_broad_or_domain(metadata) <==> (trimmed_is_either(
            metadata.routing_scope,
            ROUTING_SCOPE_BROAD@,
            ROUTING_SCOPE_DOMAIN@,
        ) || trimmed_is_either(
            metadata.role,
            ROUTE_ROLE_TOP_LEVEL_ORCHESTRATOR@,
            ROUTE_ROLE_BRIGADE_ORCHESTRATOR@,
        )),
{
    let scopes = seq![ROUTING_SCOPE_BROAD, ROUTING_SCOPE_DOMAIN];
    let roles = seq![ROUTE_ROLE_TOP_LEVEL_ORCHESTRATOR, ROUTE_ROLE_BRIGADE_ORCHESTRATOR];
    assert(scopes[0] == ROUTING_SCOPE_BROAD && scopes[1] == ROUTING_SCOPE_DOMAIN);
    assert(roles[0] == ROUTE_ROLE_TOP_LEVEL_ORCHESTRATOR && roles[1]
        == ROUTE_ROLE_BRIGADE_ORCHESTRATOR);
}

/// The explicit selections let the owner be injected when there is at
/// least one and each is a skill of the owner's plugin, other than the
/// owner, whose recorded route metadata has a `broad` or `domain` routing
/// scope or an orchestrator role.
pub proof fn lemma_broad_selections_allow_injection(
    inputs: Seq<UserInput>,
    explicit_skills: Seq<SkillMetadata>,
    selected_owner: Seq<char>,
    route_metadata: Seq<SkillRouteEntry>,
)
    requires
        explicit_candidates(inputs, explicit_skills).len() > 0,
        forall|k: int|
            0 <= k < explicit_candidates(inputs, explicit_skills).len() ==> {
                let candidate = #[trigger] explicit_candidates(inputs, explicit_skills)[k];
                &&& skill_identity(candidate.0) != skill_identity(selected_owner)
                &&& same_namespace(candidate.0, selected_owner)
                &&& route_metadata_for(route_metadata, candidate.1) matches Some(m) && (
                trimmed_is_either(m.routing_scope, ROUTING_SCOPE_BROAD@, ROUTING_SCOPE_DOMAIN@)
                    || trimmed_is_either(
                    m.role,
                    ROUTE_ROLE_TOP_LEVEL_ORCHESTRATOR@,
                    ROUTE_ROLE_BRIGADE_ORCHESTRATOR@,
                ))
            },
    ensures
        router_decision(inputs, explicit_skills, selected_owner, route_metadata)
            == ExplicitSkillRouterDecision::AllowParentInjection,
{
    let candidates = explicit_candidates(inputs, explicit_skills);
    assert forall|k: int| 0 <= k < candidates.len() implies candidate_passes(
        #[trigger] candidates[k],
        selected_owner,
        route_metadata,
    ) by {
        let m = route_metadata_for(route_metadata, candidates[k].1)->0;
        lemma_broad_or_domain_route(m);
    }
    lemma_router_decision(inputs, explicit_skills, selected_owner, route_metadata);
}

} // verus!
