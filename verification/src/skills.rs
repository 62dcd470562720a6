//! The skill and user-input values that routing and rendering work on.
use vstd::prelude::*;

verus! {

/// A byte range inside a text input.
#[derive(Debug, Clone, Copy, PartialEq, Eq)]
pub struct ByteRange {
    pub start: usize,
    pub end: usize,
}

/// A span of a text input that the client rendered specially (a chip).
#[derive(Debug, Clone, PartialEq, Eq)]
pub struct TextElement {
    pub byte_range: ByteRange,
    pub placeholder: Option<String>,
}

impl TextElement {
    pub fn new(byte_range: ByteRange, placeholder: Option<String>) -> (r: Self)
        ensures
            r.byte_range == byte_range,
            r.placeholder == placeholder,
    {
        TextElement { byte_range, placeholder }
    }
}

/// One piece of what the user sent in a turn.
#[derive(Debug, Clone, PartialEq, Eq)]
pub enum UserInput {
    Text { text: String, text_elements: Vec<TextElement> },
    Image { image_url: String },
    LocalImage { path: String },
    /// A skill the user selected explicitly.
    Skill { name: String, path: String },
    Mention { name: String, path: String },
}

/// A skill known to the session.
#[derive(Debug, PartialEq, Eq)]
pub struct SkillMetadata {
    pub name: String,
    pub description: String,
    /// Path of the skill's `SKILL.md`.
    pub path_to_skills_md: String,
}

impl Clone for SkillMetadata {
    fn clone(&self) -> (r: Self)
        ensures
            r == *self,
    {
        SkillMetadata {
            name: self.name.clone(),
            description: self.description.clone(),
            path_to_skills_md: self.path_to_skills_md.clone(),
        }
    }
}

/// The routing fields of a skill's front matter (`metadata.role` and
/// `metadata.routing_scope`).
#[derive(Debug, Clone, Default, PartialEq, Eq)]
pub struct SkillRouteMetadata {
    pub role: Option<String>,
    pub routing_scope: Option<String>,
}

/// What reading the skill file at `path` gave: its route metadata, or
/// `None` when the file could not be read or its front matter parsed.
#[derive(Debug, Clone, PartialEq, Eq)]
pub struct SkillRouteEntry {
    pub path: String,
    pub metadata: Option<SkillRouteMetadata>,
}

/// The route metadata recorded for `path`: that of the first entry with
/// that path, or `None` when there is none.
pub open spec fn route_metadata_for(table: Seq<SkillRouteEntry>, path: Seq<char>) -> Option<
    SkillRouteMetadata,
>
    decreases table.len(),
{
    if table.len() == 0 {
        None
    } else if table[0].path@ == path {
        table[0].metadata
    } else {
        route_metadata_for(table.drop_first(), path)
    }
}

} // verus!
