//! Manifest configuration that tells the desktop client which top-level
//! router skill to inject for which kind of task.
use vstd::prelude::*;

verus! {

/// One router-selection block of a plugin manifest.
#[derive(Debug, Clone, PartialEq, Eq)]
pub struct PluginRouterSelection {
    /// Client-name fragments (matched case-insensitively) that this block
    /// applies to.
    pub host_scopes: Vec<String>,
    /// Task domains, tried in order.
    pub domains: Vec<PluginRouterSelectionDomain>,
    pub suppression: PluginRouterSelectionSuppression,
}

/// A task domain and the skill that owns it.
#[derive(Debug, Clone, PartialEq, Eq)]
pub struct PluginRouterSelectionDomain {
    /// Words that, found in the prompt, mark a task of this domain.
    pub prompt_signals: Vec<String>,
    /// File names that, present in the workspace, mark this domain.
    pub workspace_files: Vec<String>,
    /// File extensions that, present in the workspace, mark this domain.
    pub workspace_extensions: Vec<String>,
    /// Name of the skill to inject.
    pub select: String,
}

/// When injection is held back.
#[derive(Debug, Clone, PartialEq, Eq)]
pub struct PluginRouterSelectionSuppression {
    /// Hold injection back when the user already picked a skill that does
    /// not route through the selected owner.
    pub when_explicit_skill_selected: bool,
}

impl Default for PluginRouterSelectionSuppression {
    fn default() -> (r: Self)
        ensures
            r.when_explicit_skill_selected,
    {
        Self { when_explicit_skill_selected: true }
    }
}

impl Default for PluginRouterSelection {
    fn default() -> (r: Self)
        ensures
            r.host_scopes@.len() == 0,
            r.domains@.len() == 0,
            r.suppression.when_explicit_skill_selected,
    {
        PluginRouterSelection {
            host_scopes: Vec::new(),
            domains: Vec::new(),
            suppression: PluginRouterSelectionSuppression::default(),
        }
    }
}

} // verus!
