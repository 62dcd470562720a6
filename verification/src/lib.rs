//! Skill routing, prompt rendering and resume-payload redaction for a
//! coding agent's desktop and mobile clients.
pub mod auto_injection;
pub mod filters;
pub mod frontmatter;
pub mod json;
pub mod paths;
pub mod plugin_render;
pub mod redaction;
pub mod resume;
pub mod router_selection;
pub mod signals;
pub mod skills;
pub mod skills_render;
pub mod text;
