//! Instructions that tell the model what an explicitly mentioned plugin
//! brings to the session.
use crate::text::{chars_of, find_char, join, join_strings, owned, slice_chars, split_once, views};
use vstd::prelude::*;

verus! {

/// What a plugin offers.
#[derive(Debug, Clone, PartialEq, Eq)]
pub struct PluginCapabilitySummary {
    /// The plugin's configured name, `plugin@marketplace`.
    pub config_name: String,
    pub display_name: String,
    pub has_skills: bool,
}

/// The prefix of the plugin's skill names: the part of the configured name
/// before the first `@` (the whole name when it has none), unless empty.
pub open spec fn skill_namespace(config_name: Seq<char>) -> Option<Seq<char>> {
    match split_once(config_name, '@') {
        Some(parts) => if parts.0.len() > 0 {
            Some(parts.0)
        } else {
            None
        },
        None => if config_name.len() > 0 {
            Some(config_name)
        } else {
            None
        },
    }
}

/// `` `name` `` for each name, joined with `, `.
pub open spec fn quoted_list(names: Seq<String>) -> Seq<char> {
    join(names.map_values(|n: String| "`"@ + n@ + "`"@), ", "@)
}

/// The capability lines: a line on skills when the plugin has any, one
/// listing its MCP servers when there are any, one listing its apps when
/// there are any.
pub open spec fn capability_lines(
    plugin: PluginCapabilitySummary,
    available_mcp_servers: Seq<String>,
    available_apps: Seq<String>,
) -> Seq<Seq<char>> {
    let skills = if plugin.has_skills {
        match skill_namespace(plugin.config_name@) {
            Some(ns) => seq![
                "- Skills from this plugin are prefixed with `"@ + ns + ":` in the Skills list."@,
            ],
            None => seq!["- Skills from this plugin are available in the Skills list."@],
        }
    } else {
        Seq::empty()
    };
    let servers = if available_mcp_servers.len() > 0 {
        seq![
            "- MCP servers from this plugin available in this session: "@ + quoted_list(
                available_mcp_servers,
            ) + "."@,
        ]
    } else {
        Seq::empty()
    };
    let apps = if available_apps.len() > 0 {
        seq![
            "- Apps from this plugin available in this session: "@ + quoted_list(available_apps)
                + "."@,
        ]
    } else {
        Seq::empty()
    };
    skills + servers + apps
}

/// The instructions: none when the plugin brings no capability; otherwise a
/// heading, the capability lines and a closing line, joined with newlines.
pub open spec fn explicit_plugin_instructions(
    plugin: PluginCapabilitySummary,
    available_mcp_servers: Seq<String>,
    available_apps: Seq<String>,
) -> Option<Seq<char>> {
    let lines = capability_lines(plugin, available_mcp_servers, available_apps);
    if lines.len() == 0 {
        None
    } else {
        Some(
            join(
                seq!["Capabilities from the `"@ + plugin.display_name@ + "` plugin:"@] + lines
                    + seq!["Use these plugin-associated capabilities to help solve the task."@],
                "\n"@,
            ),
        )
    }
}

pub fn plugin_skill_namespace(plugin: &PluginCapabilitySummary) -> (r: Option<String>)
    ensures
        match r {
            Some(ns) => skill_namespace(plugin.config_name@) == Some(ns@),
            None => skill_namespace(plugin.config_name@) is None,
        },
{
    let name = chars_of(plugin.config_name.as_str());
    match find_char(&name, '@') {
        Some(k) => {
            if k > 0 {
                let prefix = slice_chars(&name, 0, k);
                assert(prefix@ == name@.take(k as int));
                Some(crate::text::string_of(&prefix))
            } else {
                None
            }
        },
        None => {
            if name.len() > 0 {
                Some(plugin.config_name.clone())
            } else {
                None
            }
        },
    }
}

fn quoted_names(names: &Vec<String>) -> (r: String)
    ensures
        r@ == quoted_list(names@),
{
    let mut quoted: Vec<String> = Vec::new();
    for i in 0..names.len()
        invariant
            views(quoted@) == names@.take(i as int).map_values(|n: String| "`"@ + n@ + "`"@),
    {
        let mut q = owned("`");
        q.append(names[i].as_str());
        q.append("`");
        let ghost prev = quoted@;
        quoted.push(q);
        proof {
            assert(names@.take(i + 1) == names@.take(i as int).push(names@[i as int]));
            assert(views(quoted@) =~= views(prev).push(q@));
        }
    }
    assert(names@.take(names@.len() as int) == names@);
    join_strings(&quoted, ", ")
}

fn push_line(lines: &mut Vec<String>, line: String)
    ensures
        views(final(lines)@) == views(old(lines)@).push(line@),
{
    lines.push(line);
    assert(views(lines@) =~= views(old(lines)@).push(line@));
}

pub fn render_explicit_plugin_instructions(
    plugin: &PluginCapabilitySummary,
    available_mcp_servers: &Vec<String>,
    available_apps: &Vec<String>,
) -> (r: Option<String>)
    ensures
        match r {
            Some(text) => explicit_plugin_instructions(
                *plugin,
                available_mcp_servers@,
                available_apps@,
            ) == Some(text@),
            None => explicit_plugin_instructions(
                *plugin,
                available_mcp_servers@,
                available_apps@,
            ) is None,
        },
{
    let mut lines: Vec<String> = Vec::new();
    let mut heading = owned("Capabilities from the `");
    heading.append(plugin.display_name.as_str());
    heading.append("` plugin:");
    push_line(&mut lines, heading);

    if plugin.has_skills {
        match plugin_skill_namespace(plugin) {
            Some(namespace) => {
                let mut line = owned("- Skills from this plugin are prefixed with `");
                line.append(namespace.as_str());
                line.append(":` in the Skills list.");
                push_line(&mut lines, line);
            },
            None => {
                push_line(
                    &mut lines,
                    owned("- Skills from this plugin are available in the Skills list."),
                );
            },
        }
    }
    if available_mcp_servers.len() > 0 {
        let mut line = owned("- MCP servers from this plugin available in this session: ");
        line.append(quoted_names(available_mcp_servers).as_str());
        line.append(".");
        push_line(&mut lines, line);
    }
    if available_apps.len() > 0 {
        let mut line = owned("- Apps from this plugin available in this session: ");
        line.append(quoted_names(available_apps).as_str());
        line.append(".");
        push_line(&mut lines, line);
    }
    assert(views(lines@) =~= seq![
        "Capabilities from the `"@ + plugin.display_name@ + "` plugin:"@,
    ] + capability_lines(*plugin, available_mcp_servers@, available_apps@));

    if lines.len() == 1 {
        return None;
    }

    push_line(&mut lines, owned("Use these plugin-associated capabilities to help solve the task."));
    assert(views(lines@) =~= seq![
        "Capabilities from the `"@ + plugin.display_name@ + "` plugin:"@,
    ] + capability_lines(*plugin, available_mcp_servers@, available_apps@) + seq![
        "Use these plugin-associated capabilities to help solve the task."@,
    ]);
    Some(join_strings(&lines, "\n"))
}

} // verus!
