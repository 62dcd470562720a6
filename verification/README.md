# codex_skill_routing

Verified logic behind three pieces of a coding agent's client
support:

- **Top-level skill injection** for desktop clients (`src/auto_injection.rs`,
  `src/signals.rs`, `src/router_selection.rs`, `src/frontmatter.rs`): which
  manifest-configured router skill, if any, is injected for a turn, given the
  prompt, the explicitly selected skills, the workspace listing and the route
  metadata of the selected skill files.
- **Prompt rendering** (`src/skills_render.rs`, `src/plugin_render.rs`): the
  "Skills" section of the session instructions and the instructions for an
  explicitly mentioned plugin.
- **Resume redaction** for mobile remote clients (`src/redaction.rs`,
  `src/resume.rs`): which turns and items a `thread/resume` response keeps and
  how their texts and payloads are cut down.

`src/text.rs` holds the character-level string functions (trimming, ASCII
case folding, search, joining) that the rest is proved against.

`app/` does the file-system work the library leaves out: it lists the working
directory, reads skill files and parses their YAML front matter, then calls
the library.
