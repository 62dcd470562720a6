//! Redaction of `thread/resume` payloads for the mobile remote clients.
//!
//! Remote clients cannot take the large MCP and image-generation payloads a
//! thread can hold. This only shapes the response: the stored history is
//! left as it is.
use crate::json::{json_object_of_two_strings, json_object_with_two_strings, json_string, json_string_value};
use crate::resume::{
    DynamicToolCallOutputContentItem, HookPromptFragment, McpToolCallError, McpToolCallResult,
    ThreadItem, Turn, UserInput,
};
use crate::filters::{lemma_filter_all, lemma_filter_related};
use crate::signals::opt_view;
use crate::text::{chars_equal, chars_of, owned};
use vstd::prelude::*;
use vstd::string::StrSliceExecFns;

verus! {

pub const REDACTED_PAYLOAD: &'static str = "[redacted]";
pub const REDACTED_IMAGE: &'static str = "[redacted image]";
pub const MAX_REMOTE_RESUME_TURNS: usize = 200;
pub const MAX_REMOTE_TEXT_CHARS: usize = 20_000;
pub const TRUNCATION_NOTICE: &'static str = "\n[truncated for mobile remote resume]";
pub const CHATGPT_ANDROID_REMOTE_CLIENT: &'static str = "codex_chatgpt_android_remote";
pub const CHATGPT_IOS_REMOTE_CLIENT: &'static str = "codex_chatgpt_ios_remote";

// ---------------------------------------------------------------------------
// Which clients

/// Redaction applies to the ChatGPT remote clients only.
pub open spec fn is_remote_client(client_name: Option<Seq<char>>) -> bool {
    match client_name {
        Some(name) => name == CHATGPT_ANDROID_REMOTE_CLIENT@ || name == CHATGPT_IOS_REMOTE_CLIENT@,
        None => false,
    }
}

pub fn should_redact_thread_resume_payloads(client_name: Option<&str>) -> (r: bool)
    ensures
        r == is_remote_client(opt_view(client_name)),
{
    match client_name {
        Some(name) => {
            let name = chars_of(name);
            chars_equal(&name, &chars_of(CHATGPT_ANDROID_REMOTE_CLIENT)) || chars_equal(
                &name,
                &chars_of(CHATGPT_IOS_REMOTE_CLIENT),
            )
        },
        None => false,
    }
}

// ---------------------------------------------------------------------------
// Text

/// A text as the remote client gets it: unchanged up to
/// `MAX_REMOTE_TEXT_CHARS` characters; longer, its first
/// `MAX_REMOTE_TEXT_CHARS` characters followed by the truncation notice.
pub open spec fn remote_text(text: Seq<char>) -> Seq<char> {
    if text.len() <= MAX_REMOTE_TEXT_CHARS {
        text
    } else {
        text.take(MAX_REMOTE_TEXT_CHARS as int) + TRUNCATION_NOTICE@
    }
}

pub open spec fn remote_optional_text(text: Option<String>, redacted: Option<String>) -> bool {
    match text {
        Some(t) => redacted matches Some(r) && r@ == remote_text(t@),
        None => redacted is None,
    }
}

pub open spec fn remote_texts(texts: Seq<String>, redacted: Seq<String>) -> bool {
    &&& redacted.len() == texts.len()
    &&& forall|k: int| 0 <= k < texts.len() ==> (#[trigger] redacted[k])@ == remote_text(texts[k]@)
}

/// Truncates `value` to what the remote client gets; tells whether it was
/// cut.
pub fn truncate_for_remote(value: &mut String) -> (truncated: bool)
    ensures
        final(value)@ == remote_text(old(value)@),
        final(value)@.len() <= MAX_REMOTE_TEXT_CHARS + TRUNCATION_NOTICE@.len(),
        truncated == (old(value)@.len() > MAX_REMOTE_TEXT_CHARS),
{
    let n = value.as_str().unicode_len();
    if n <= MAX_REMOTE_TEXT_CHARS {
        return false;
    }
    let kept = value.as_str().substring_char(0, MAX_REMOTE_TEXT_CHARS);
    let mut cut = owned(kept);
    cut.append(TRUNCATION_NOTICE);
    *value = cut;
    proof {
        lemma_remote_text(old(value)@);
    }
    true
}

fn remote(text: String) -> (r: String)
    ensures
        r@ == remote_text(text@),
{
    let mut text = text;
    truncate_for_remote(&mut text);
    text
}

fn remote_optional(text: Option<String>) -> (r: Option<String>)
    ensures
        remote_optional_text(text, r),
{
    match text {
        Some(t) => Some(remote(t)),
        None => None,
    }
}

pub fn truncate_string_vec(values: &mut Vec<String>)
    ensures
        remote_texts(old(values)@, final(values)@),
{
    let n = values.len();
    let mut i: usize = 0;
    while i < n
        invariant
            n == old(values)@.len(),
            i <= n,
            values@.len() == n,
            forall|k: int| 0 <= k < i ==> (#[trigger] values@[k])@ == remote_text(old(values)@[k]@),
            forall|k: int| i <= k < n ==> #[trigger] values@[k] == old(values)@[k],
        decreases n - i,
    {
        truncate_for_remote(&mut values[i]);
        i = i + 1;
    }
}

// ---------------------------------------------------------------------------
// User inputs

/// How one user input reaches the remote client: long text is truncated
/// (and loses its text elements when cut); images become the redacted-image
/// placeholder text; skills and mentions stay.
pub open spec fn user_input_redacted(old: UserInput, new: UserInput) -> bool {
    match old {
        UserInput::Text { text, text_elements } => new matches UserInput::Text {
            text: t2,
            text_elements: e2,
        } && t2@ == remote_text(text@) && if text@.len() > MAX_REMOTE_TEXT_CHARS {
            e2@.len() == 0
        } else {
            e2 == text_elements
        },
        UserInput::Image { .. } | UserInput::LocalImage { .. } => new matches UserInput::Text {
            text: t2,
            text_elements: e2,
        } && t2@ == REDACTED_IMAGE@ && e2@.len() == 0,
        _ => new == old,
    }
}

pub open spec fn user_inputs_redacted(old: Seq<UserInput>, new: Seq<UserInput>) -> bool {
    &&& new.len() == old.len()
    &&& forall|k: int| 0 <= k < old.len() ==> user_input_redacted(old[k], #[trigger] new[k])
}

fn redacted_image_text() -> (r: UserInput)
    ensures
        r matches UserInput::Text { text, text_elements } && text@ == REDACTED_IMAGE@
            && text_elements@.len() == 0,
{
    UserInput::Text { text: owned(REDACTED_IMAGE), text_elements: Vec::new() }
}

pub fn redact_user_inputs(content: &mut Vec<UserInput>)
    ensures
        user_inputs_redacted(old(content)@, final(content)@),
{
    let n = content.len();
    let mut i: usize = 0;
    while i < n
        invariant
            n == old(content)@.len(),
            i <= n,
            content@.len() == n,
            forall|k: int| 0 <= k < i ==> user_input_redacted(old(content)@[k], #[trigger] content@[k]),
            forall|k: int| i <= k < n ==> #[trigger] content@[k] == old(content)@[k],
        decreases n - i,
    {
        let is_image = match &mut content[i] {
            UserInput::Text { text, text_elements } => {
                if truncate_for_remote(text) {
                    text_elements.clear();
                }
                false
            },
            UserInput::Image { .. } | UserInput::LocalImage { .. } => true,
            UserInput::Skill { .. } | UserInput::Mention { .. } => false,
        };
        if is_image {
            content.set(i, redacted_image_text());
        }
        i = i + 1;
    }
}

// ---------------------------------------------------------------------------
// Dynamic tool output

pub open spec fn content_item_redacted(
    old: DynamicToolCallOutputContentItem,
    new: DynamicToolCallOutputContentItem,
) -> bool {
    match old {
        DynamicToolCallOutputContentItem::InputText { text } => new matches DynamicToolCallOutputContentItem::InputText { text: t2 } && t2@ == remote_text(text@),
        DynamicToolCallOutputContentItem::InputImage { .. } => new matches DynamicToolCallOutputContentItem::InputText { text: t2 } && t2@ == REDACTED_IMAGE@,
    }
}

pub open spec fn content_items_redacted(
    old: Seq<DynamicToolCallOutputContentItem>,
    new: Seq<DynamicToolCallOutputContentItem>,
) -> bool {
    &&& new.len() == old.len()
    &&& forall|k: int| 0 <= k < old.len() ==> content_item_redacted(old[k], #[trigger] new[k])
}

pub fn redact_dynamic_tool_call_content(content_items: &mut Vec<DynamicToolCallOutputContentItem>)
    ensures
        content_items_redacted(old(content_items)@, final(content_items)@),
{
    let n = content_items.len();
    let mut i: usize = 0;
    while i < n
        invariant
            n == old(content_items)@.len(),
            i <= n,
            content_items@.len() == n,
            forall|k: int|
                0 <= k < i ==> content_item_redacted(
                    old(content_items)@[k],
                    #[trigger] content_items@[k],
                ),
            forall|k: int| i <= k < n ==> #[trigger] content_items@[k] == old(content_items)@[k],
        decreases n - i,
    {
        let is_image = match &mut content_items[i] {
            DynamicToolCallOutputContentItem::InputText { text } => {
                truncate_for_remote(text);
                false
            },
            DynamicToolCallOutputContentItem::InputImage { .. } => true,
        };
        if is_image {
            content_items.set(
                i,
                DynamicToolCallOutputContentItem::InputText { text: owned(REDACTED_IMAGE) },
            );
        }
        i = i + 1;
    }
}

// ---------------------------------------------------------------------------
// MCP results

/// The result an MCP call shows after redaction: one text block saying
/// `[redacted]`, and nothing else.
pub open spec fn is_redacted_mcp_result(result: McpToolCallResult) -> bool {
    &&& result.content@ == seq![
        json_object_of_two_strings("type"@, "text"@, "text"@, REDACTED_PAYLOAD@),
    ]
    &&& result.structured_content is None
    &&& result.meta is None
}

pub fn redacted_mcp_tool_call_result() -> (r: McpToolCallResult)
    ensures
        is_redacted_mcp_result(r),
{
    let mut content: Vec<serde_json::Value> = Vec::new();
    content.push(
        json_object_with_two_strings(
            owned("type"),
            owned("text"),
            owned("text"),
            owned(REDACTED_PAYLOAD),
        ),
    );
    McpToolCallResult { content, structured_content: None, meta: None }
}

// ---------------------------------------------------------------------------
// Items

/// File-change diffs, local image views and generated images are left out.
pub open spec fn item_kept(item: ThreadItem) -> bool {
    !(item is FileChange || item is ImageView || item is ImageGeneration)
}

/// How a kept item reaches the remote client: texts are truncated, tool
/// arguments and MCP payloads replaced by `[redacted]`, images in inputs
/// and tool output replaced by the redacted-image placeholder; every other
/// field stays.
pub open spec fn item_redacted(old: ThreadItem, new: ThreadItem) -> bool {
    match old {
        ThreadItem::UserMessage { id, content } => new matches ThreadItem::UserMessage {
            id: id2,
            content: c2,
        } && id2 == id && user_inputs_redacted(content@, c2@),
        ThreadItem::HookPrompt { id, fragments } => new matches ThreadItem::HookPrompt {
            id: id2,
            fragments: f2,
        } && id2 == id && f2@.len() == fragments@.len() && forall|k: int|
            0 <= k < fragments@.len() ==> (#[trigger] f2@[k]).text@ == remote_text(
                fragments@[k].text@,
            ),
        ThreadItem::AgentMessage { id, text, phase, memory_citation } => new matches ThreadItem::AgentMessage {
            id: id2,
            text: t2,
            phase: p2,
            memory_citation: m2,
        } && id2 == id && t2@ == remote_text(text@) && p2 == phase && m2 == memory_citation,
        ThreadItem::Plan { id, text } => new matches ThreadItem::Plan { id: id2, text: t2 } && id2
            == id && t2@ == remote_text(text@),
        ThreadItem::Reasoning { id, summary, content } => new matches ThreadItem::Reasoning {
            id: id2,
            summary: s2,
            content: c2,
        } && id2 == id && remote_texts(summary@, s2@) && remote_texts(content@, c2@),
        ThreadItem::CommandExecution {
            id,
            command,
            cwd,
            process_id,
            source,
            status,
            command_actions,
            aggregated_output,
            exit_code,
            duration_ms,
        } => new matches ThreadItem::CommandExecution {
            id: id2,
            command: command2,
            cwd: cwd2,
            process_id: process_id2,
            source: source2,
            status: status2,
            command_actions: actions2,
            aggregated_output: output2,
            exit_code: exit_code2,
            duration_ms: duration2,
        } && id2 == id && command2@ == remote_text(command@) && cwd2 == cwd && process_id2
            == process_id && source2 == source && status2 == status && actions2 == command_actions
            && remote_optional_text(aggregated_output, output2) && exit_code2 == exit_code
            && duration2 == duration_ms,
        ThreadItem::McpToolCall {
            id,
            server,
            tool,
            status,
            arguments,
            mcp_app_resource_uri,
            plugin_id,
            result,
            error,
            duration_ms,
        } => new matches ThreadItem::McpToolCall {
            id: id2,
            server: server2,
            tool: tool2,
            status: status2,
            arguments: arguments2,
            mcp_app_resource_uri: uri2,
            plugin_id: plugin2,
            result: result2,
            error: error2,
            duration_ms: duration2,
        } && id2 == id && server2 == server && tool2 == tool && status2 == status && arguments2
            == json_string_value(REDACTED_PAYLOAD@) && uri2 == mcp_app_resource_uri && plugin2
            == plugin_id && (match result {
            Some(_) => result2 matches Some(r) && is_redacted_mcp_result(*r),
            None => result2 is None,
        }) && (match error {
            Some(_) => error2 matches Some(e) && e.message@ == REDACTED_PAYLOAD@,
            None => error2 is None,
        }) && duration2 == duration_ms,
        ThreadItem::DynamicToolCall {
            id,
            namespace,
            tool,
            arguments,
            status,
            content_items,
            success,
            duration_ms,
        } => new matches ThreadItem::DynamicToolCall {
            id: id2,
            namespace: namespace2,
            tool: tool2,
            arguments: arguments2,
            status: status2,
            content_items: items2,
            success: success2,
            duration_ms: duration2,
        } && id2 == id && namespace2 == namespace && tool2 == tool && arguments2
            == json_string_value(REDACTED_PAYLOAD@) && status2 == status && (match content_items {
            Some(items) => items2 matches Some(i2) && content_items_redacted(items@, i2@),
            None => items2 is None,
        }) && success2 == success && duration2 == duration_ms,
        ThreadItem::CollabAgentToolCall { id, tool, prompt } => new matches ThreadItem::CollabAgentToolCall {
            id: id2,
            tool: tool2,
            prompt: prompt2,
        } && id2 == id && tool2 == tool && remote_optional_text(prompt, prompt2),
        ThreadItem::EnteredReviewMode { id, review } => new matches ThreadItem::EnteredReviewMode {
            id: id2,
            review: review2,
        } && id2 == id && review2@ == remote_text(review@),
        ThreadItem::ExitedReviewMode { id, review } => new matches ThreadItem::ExitedReviewMode {
            id: id2,
            review: review2,
        } && id2 == id && review2@ == remote_text(review@),
        _ => new == old,
    }
}

fn redact_hook_fragments(fragments: Vec<HookPromptFragment>) -> (r: Vec<HookPromptFragment>)
    ensures
        r@.len() == fragments@.len(),
        forall|k: int|
            0 <= k < fragments@.len() ==> (#[trigger] r@[k]).text@ == remote_text(
                fragments@[k].text@,
            ),
{
    let mut r: Vec<HookPromptFragment> = Vec::new();
    for fragment in it: fragments.into_iter()
        invariant
            it.seq() == fragments@,
            r@.len() == it.index(),
            forall|k: int|
                0 <= k < r@.len() ==> (#[trigger] r@[k]).text@ == remote_text(fragments@[k].text@),
    {
        r.push(HookPromptFragment { text: remote(fragment.text) });
    }
    r
}

fn redacted_payload() -> (v: serde_json::Value)
    ensures
        v == json_string_value(REDACTED_PAYLOAD@),
{
    json_string(owned(REDACTED_PAYLOAD))
}

/// The item as the remote client gets it, or `None` when it is left out.
pub fn redact_thread_item(item: ThreadItem) -> (r: Option<ThreadItem>)
    ensures
        match r {
            Some(new) => item_kept(item) && item_redacted(item, new),
            None => !item_kept(item),
        },
{
    match item {
        ThreadItem::UserMessage { id, content } => {
            let mut content = content;
            redact_user_inputs(&mut content);
            Some(ThreadItem::UserMessage { id, content })
        },
        ThreadItem::HookPrompt { id, fragments } => Some(
            ThreadItem::HookPrompt { id, fragments: redact_hook_fragments(fragments) },
        ),
        ThreadItem::AgentMessage { id, text, phase, memory_citation } => Some(
            ThreadItem::AgentMessage { id, text: remote(text), phase, memory_citation },
        ),
        ThreadItem::Plan { id, text } => Some(ThreadItem::Plan { id, text: remote(text) }),
        ThreadItem::Reasoning { id, summary, content } => {
            let mut summary = summary;
            let mut content = content;
            truncate_string_vec(&mut summary);
            truncate_string_vec(&mut content);
            Some(ThreadItem::Reasoning { id, summary, content })
        },
        ThreadItem::CommandExecution {
            id,
            command,
            cwd,
            process_id,
            source,
            status,
            command_actions,
            aggregated_output,
            exit_code,
            duration_ms,
        } => Some(
            ThreadItem::CommandExecution {
                id,
                command: remote(command),
                cwd,
                process_id,
                source,
                status,
                command_actions,
                aggregated_output: remote_optional(aggregated_output),
                exit_code,
                duration_ms,
            },
        ),
        ThreadItem::FileChange { .. } => None,
        ThreadItem::McpToolCall {
            id,
            server,
            tool,
            status,
            arguments: _,
            mcp_app_resource_uri,
            plugin_id,
            result,
            error,
            duration_ms,
        } => {
            let result = match result {
                Some(_) => Some(Box::new(redacted_mcp_tool_call_result())),
                None => None,
            };
            let error = match error {
                Some(_) => Some(McpToolCallError { message: owned(REDACTED_PAYLOAD) }),
                None => None,
            };
            Some(
                ThreadItem::McpToolCall {
                    id,
                    server,
                    tool,
                    status,
                    arguments: redacted_payload(),
                    mcp_app_resource_uri,
                    plugin_id,
                    result,
                    error,
                    duration_ms,
                },
            )
        },
        ThreadItem::DynamicToolCall {
            id,
            namespace,
            tool,
            arguments: _,
            status,
            content_items,
            success,
            duration_ms,
        } => {
            let content_items = match content_items {
                Some(items) => {
                    let mut items = items;
                    redact_dynamic_tool_call_content(&mut items);
                    Some(items)
                },
                None => None,
            };
            Some(
                ThreadItem::DynamicToolCall {
                    id,
                    namespace,
                    tool,
                    arguments: redacted_payload(),
                    status,
                    content_items,
                    success,
                    duration_ms,
                },
            )
        },
        ThreadItem::CollabAgentToolCall { id, tool, prompt } => Some(
            ThreadItem::CollabAgentToolCall { id, tool, prompt: remote_optional(prompt) },
        ),
        ThreadItem::EnteredReviewMode { id, review } => Some(
            ThreadItem::EnteredReviewMode { id, review: remote(review) },
        ),
        ThreadItem::ExitedReviewMode { id, review } => Some(
            ThreadItem::ExitedReviewMode { id, review: remote(review) },
        ),
        ThreadItem::ImageView { .. } => None,
        ThreadItem::ImageGeneration { .. } => None,
        other => Some(other),
    }
}

// ---------------------------------------------------------------------------
// Turns

pub open spec fn kept_items(items: Seq<ThreadItem>) -> Seq<ThreadItem> {
    items.filter(|item: ThreadItem| item_kept(item))
}

/// `new` holds, in order, the redacted form of each kept item of `old`.
pub open spec fn items_redacted(old: Seq<ThreadItem>, new: Seq<ThreadItem>) -> bool {
    &&& new.len() == kept_items(old).len()
    &&& forall|k: int| 0 <= k < new.len() ==> item_redacted(kept_items(old)[k], #[trigger] new[k])
}

/// A turn as the remote client gets it: its items redacted, every other
/// field unchanged.
pub open spec fn turn_redacted(old: Turn, new: Turn) -> bool {
    &&& new.id == old.id
    &&& items_redacted(old.items@, new.items@)
    &&& new.items_view == old.items_view
    &&& new.status == old.status
    &&& new.error == old.error
    &&& new.started_at == old.started_at
    &&& new.completed_at == old.completed_at
    &&& new.duration_ms == old.duration_ms
}

/// A turn stays when one of its items is kept.
pub open spec fn turn_survives(turn: Turn) -> bool {
    kept_items(turn.items@).len() > 0
}

/// The last `MAX_REMOTE_RESUME_TURNS` turns.
pub open spec fn capped_turns(turns: Seq<Turn>) -> Seq<Turn> {
    if turns.len() > MAX_REMOTE_RESUME_TURNS {
        turns.skip(turns.len() - MAX_REMOTE_RESUME_TURNS)
    } else {
        turns
    }
}

/// The turns the remote client gets: of the last `MAX_REMOTE_RESUME_TURNS`
/// turns, those that keep an item, in order.
pub open spec fn surviving_turns(turns: Seq<Turn>) -> Seq<Turn> {
    capped_turns(turns).filter(|turn: Turn| turn_survives(turn))
}

/// `new` is the redacted form of each surviving turn of `old`, in order.
pub open spec fn turns_redacted(old: Seq<Turn>, new: Seq<Turn>) -> bool {
    &&& new.len() == surviving_turns(old).len()
    &&& forall|k: int|
        0 <= k < new.len() ==> turn_redacted(surviving_turns(old)[k], #[trigger] new[k])
}

pub fn redact_thread_items(items: Vec<ThreadItem>) -> (r: Vec<ThreadItem>)
    ensures
        items_redacted(items@, r@),
{
    let ghost pred = |item: ThreadItem| item_kept(item);
    let mut r: Vec<ThreadItem> = Vec::new();
    for item in it: items.into_iter()
        invariant
            it.seq() == items@,
            pred == (|item: ThreadItem| item_kept(item)),
            r@.len() == items@.take(it.index() as int).filter(pred).len(),
            forall|k: int|
                0 <= k < r@.len() ==> item_redacted(
                    items@.take(it.index() as int).filter(pred)[k],
                    #[trigger] r@[k],
                ),
    {
        let ghost i = it.index();
        let ghost prefix = items@.take(i as int);
        proof {
            assert(items@.take(i + 1) == prefix.push(items@[i as int]));
            prefix.lemma_filter_push(items@[i as int], pred);
        }
        match redact_thread_item(item) {
            Some(redacted) => {
                r.push(redacted);
            },
            None => {},
        }
    }
    assert(items@.take(items@.len() as int) == items@);
    r
}

/// Keeps the last `MAX_REMOTE_RESUME_TURNS` turns.
pub fn cap_remote_resume_turns(turns: &mut Vec<Turn>)
    ensures
        final(turns)@ == capped_turns(old(turns)@),
{
    let excess_turns = turns.len().saturating_sub(MAX_REMOTE_RESUME_TURNS);
    if excess_turns > 0 {
        let rest = turns.split_off(excess_turns);
        *turns = rest;
    }
}

/// Shapes the turns of a resumed thread for a remote client: only the last
/// `MAX_REMOTE_RESUME_TURNS` turns, each item redacted or left out, and no
/// turn left empty.
pub fn redact_thread_resume_payloads(turns: &mut Vec<Turn>)
    ensures
        turns_redacted(old(turns)@, final(turns)@),
        final(turns)@.len() <= MAX_REMOTE_RESUME_TURNS,
        forall|t: int| 0 <= t < final(turns)@.len() ==> (#[trigger] final(turns)@[t]).items@.len() > 0,
{
    cap_remote_resume_turns(turns);
    let mut capped: Vec<Turn> = Vec::new();
    std::mem::swap(&mut capped, turns);
    let ghost source = capped@;
    let ghost pred = |turn: Turn| turn_survives(turn);
    let mut r: Vec<Turn> = Vec::new();
    for turn in it: capped.into_iter()
        invariant
            it.seq() == source,
            pred == (|turn: Turn| turn_survives(turn)),
            r@.len() == source.take(it.index() as int).filter(pred).len(),
            forall|k: int|
                0 <= k < r@.len() ==> turn_redacted(
                    source.take(it.index() as int).filter(pred)[k],
                    #[trigger] r@[k],
                ),
    {
        let ghost i = it.index();
        let ghost prefix = source.take(i as int);
        proof {
            assert(source.take(i + 1) == prefix.push(source[i as int]));
            prefix.lemma_filter_push(source[i as int], pred);
        }
        let Turn { id, items, items_view, status, error, started_at, completed_at, duration_ms } =
            turn;
        let items = redact_thread_items(items);
        if items.len() > 0 {
            r.push(
                Turn { id, items, items_view, status, error, started_at, completed_at, duration_ms },
            );
        }
    }
    assert(source.take(source.len() as int) == source);
    *turns = r;
    proof {
        lemma_remote_turns_shape(old(turns)@, turns@);
    }
}

// ---------------------------------------------------------------------------
// Laws

/// A remote text is never longer than `MAX_REMOTE_TEXT_CHARS` characters
/// plus the truncation notice, starts with the text's first characters, and
/// is the text itself when that is short enough.
pub proof fn lemma_remote_text(text: Seq<char>)
    ensures
        remote_text(text).len() <= MAX_REMOTE_TEXT_CHARS + TRUNCATION_NOTICE@.len(),
        text.len() <= MAX_REMOTE_TEXT_CHARS ==> remote_text(text) == text,
        text.len() > MAX_REMOTE_TEXT_CHARS ==> remote_text(text).take(
            MAX_REMOTE_TEXT_CHARS as int,
        ) == text.take(MAX_REMOTE_TEXT_CHARS as int),
{
    if text.len() > MAX_REMOTE_TEXT_CHARS {
        assert(remote_text(text).take(MAX_REMOTE_TEXT_CHARS as int) =~= text.take(
            MAX_REMOTE_TEXT_CHARS as int,
        ));
    }
}

/// A redacted item is still one that is kept.
pub proof fn lemma_redacted_item_kept(old: ThreadItem, new: ThreadItem)
    requires
        item_kept(old),
        item_redacted(old, new),
    ensures
        item_kept(new),
{
}

/// A remote client gets at most `MAX_REMOTE_RESUME_TURNS` turns, no empty
/// turn, and no file-change, image-view or image-generation item.
pub proof fn lemma_remote_turns_shape(old: Seq<Turn>, new: Seq<Turn>)
    requires
        turns_redacted(old, new),
    ensures
        new.len() <= MAX_REMOTE_RESUME_TURNS,
        forall|t: int| 0 <= t < new.len() ==> (#[trigger] new[t]).items@.len() > 0,
        forall|t: int, k: int|
            0 <= t < new.len() && 0 <= k < new[t].items@.len() ==> item_kept(
                #[trigger] new[t].items@[k],
            ),
{
    let pred = |turn: Turn| turn_survives(turn);
    let capped = capped_turns(old);
    capped.lemma_filter_len(pred);
    assert forall|t: int| 0 <= t < new.len() implies (#[trigger] new[t]).items@.len() > 0 by {
        capped.lemma_filter_pred(pred, t);
        assert(turn_redacted(surviving_turns(old)[t], new[t]));
    }
    assert forall|t: int, k: int|
        0 <= t < new.len() && 0 <= k < new[t].items@.len() implies item_kept(
        #[trigger] new[t].items@[k],
    ) by {
        let old_turn = surviving_turns(old)[t];
        assert(turn_redacted(old_turn, new[t]));
        let kept_pred = |item: ThreadItem| item_kept(item);
        old_turn.items@.lemma_filter_pred(kept_pred, k);
        assert(item_redacted(kept_items(old_turn.items@)[k], new[t].items@[k]));
        lemma_redacted_item_kept(kept_items(old_turn.items@)[k], new[t].items@[k]);
    }
}

// ---------------------------------------------------------------------------
// Redacting again

/// Cutting a text that was already cut changes nothing.
pub proof fn lemma_remote_text_idempotent()
    ensures
        forall|text: Seq<char>| #[trigger] remote_text(remote_text(text)) == remote_text(text),
{
    assert forall|text: Seq<char>| #[trigger] remote_text(remote_text(text)) == remote_text(
        text,
    ) by {
        if text.len() > MAX_REMOTE_TEXT_CHARS {
            let cut = remote_text(text);
            if cut.len() > MAX_REMOTE_TEXT_CHARS {
                assert(cut.take(MAX_REMOTE_TEXT_CHARS as int) =~= text.take(
                    MAX_REMOTE_TEXT_CHARS as int,
                ));
            }
        }
    }
}

/// Redacting a redacted item again gives the first result: the redacted
/// item is a redaction of itself, and a redaction of it is a redaction of
/// the item it came from.
proof fn lemma_item_redaction_settles(x: ThreadItem, y: ThreadItem, z: ThreadItem)
    requires
        item_kept(x),
        item_redacted(x, y),
    ensures
        item_kept(y),
        item_redacted(y, y),
        item_redacted(y, z) ==> item_redacted(x, z),
{
    lemma_remote_text_idempotent();
    reveal_strlit("[redacted image]");
    assert(remote_text(REDACTED_IMAGE@) == REDACTED_IMAGE@);
    match x {
        ThreadItem::UserMessage { content, .. } => {
            let c2 = y->UserMessage_content;
            assert forall|k: int| 0 <= k < c2@.len() implies user_input_redacted(
                #[trigger] c2@[k],
                c2@[k],
            ) by {
                assert(user_input_redacted(content@[k], c2@[k]));
                match content@[k] {
                    UserInput::Text { text, .. } => {
                        assert(remote_text(remote_text(text@)) == remote_text(text@));
                    },
                    _ => {},
                }
            }
            if item_redacted(y, z) {
                let c3 = z->UserMessage_content;
                assert forall|k: int| 0 <= k < content@.len() implies user_input_redacted(
                    content@[k],
                    #[trigger] c3@[k],
                ) by {
                    assert(user_input_redacted(content@[k], c2@[k]));
                    assert(user_input_redacted(c2@[k], c3@[k]));
                }
            }
        },
        ThreadItem::HookPrompt { fragments, .. } => {
            let f2 = y->HookPrompt_fragments;
            assert forall|k: int| 0 <= k < f2@.len() implies (#[trigger] f2@[k]).text@
                == remote_text(f2@[k].text@) by {
                assert(f2@[k].text@ == remote_text(fragments@[k].text@));
            }
            if item_redacted(y, z) {
                let f3 = z->HookPrompt_fragments;
                assert forall|k: int| 0 <= k < fragments@.len() implies (#[trigger] f3@[k]).text@
                    == remote_text(fragments@[k].text@) by {
                    assert(f2@[k].text@ == remote_text(fragments@[k].text@));
                    assert(f3@[k].text@ == remote_text(f2@[k].text@));
                }
            }
        },
        ThreadItem::Reasoning { summary, content, .. } => {
            let s2 = y->Reasoning_summary;
            let c2 = y->Reasoning_content;
            assert forall|k: int| 0 <= k < s2@.len() implies (#[trigger] s2@[k])@ == remote_text(
                s2@[k]@,
            ) by {
                assert(s2@[k]@ == remote_text(summary@[k]@));
            }
            assert forall|k: int| 0 <= k < c2@.len() implies (#[trigger] c2@[k])@ == remote_text(
                c2@[k]@,
            ) by {
                assert(c2@[k]@ == remote_text(content@[k]@));
            }
            if item_redacted(y, z) {
                let s3 = z->Reasoning_summary;
                let c3 = z->Reasoning_content;
                assert forall|k: int| 0 <= k < summary@.len() implies (#[trigger] s3@[k])@
                    == remote_text(summary@[k]@) by {
                    assert(s2@[k]@ == remote_text(summary@[k]@));
                    assert(s3@[k]@ == remote_text(s2@[k]@));
                }
                assert forall|k: int| 0 <= k < content@.len() implies (#[trigger] c3@[k])@
                    == remote_text(content@[k]@) by {
                    assert(c2@[k]@ == remote_text(content@[k]@));
                    assert(c3@[k]@ == remote_text(c2@[k]@));
                }
            }
        },
        ThreadItem::DynamicToolCall { content_items, .. } => {
            match content_items {
                Some(items) => {
                    let i2 = y->DynamicToolCall_content_items->0;
                    assert forall|k: int| 0 <= k < i2@.len() implies content_item_redacted(
                        #[trigger] i2@[k],
                        i2@[k],
                    ) by {
                        assert(content_item_redacted(items@[k], i2@[k]));
                    }
                    if item_redacted(y, z) {
                        let i3 = z->DynamicToolCall_content_items->0;
                        assert forall|k: int| 0 <= k < items@.len() implies content_item_redacted(
                            items@[k],
                            #[trigger] i3@[k],
                        ) by {
                            assert(content_item_redacted(items@[k], i2@[k]));
                            assert(content_item_redacted(i2@[k], i3@[k]));
                        }
                    }
                },
                None => {},
            }
        },
        _ => {},
    }
}

/// The items of a redacted turn are all kept, so they are their own kept
/// items.
proof fn lemma_kept_items_of_redacted(old: Seq<ThreadItem>, new: Seq<ThreadItem>)
    requires
        items_redacted(old, new),
    ensures
        kept_items(new) == new,
{
    let pred = |item: ThreadItem| item_kept(item);
    assert forall|k: int| 0 <= k < new.len() implies pred(#[trigger] new[k]) by {
        old.lemma_filter_pred(pred, k);
        lemma_item_redaction_settles(kept_items(old)[k], new[k], new[k]);
    }
    lemma_filter_all(new, pred);
}

proof fn lemma_turn_redaction_settles(x: Turn, y: Turn, z: Turn)
    requires
        turn_redacted(x, y),
    ensures
        turn_redacted(y, y),
        turn_redacted(y, z) ==> turn_redacted(x, z),
{
    lemma_kept_items_of_redacted(x.items@, y.items@);
    let kx = kept_items(x.items@);
    let pred = |item: ThreadItem| item_kept(item);
    assert forall|k: int| 0 <= k < y.items@.len() implies item_redacted(
        kept_items(y.items@)[k],
        #[trigger] y.items@[k],
    ) by {
        x.items@.lemma_filter_pred(pred, k);
        lemma_item_redaction_settles(kx[k], y.items@[k], y.items@[k]);
    }
    if turn_redacted(y, z) {
        assert forall|k: int| 0 <= k < z.items@.len() implies item_redacted(
            kx[k],
            #[trigger] z.items@[k],
        ) by {
            x.items@.lemma_filter_pred(pred, k);
            lemma_item_redaction_settles(kx[k], y.items@[k], z.items@[k]);
        }
    }
}

/// Redacting turns that were already redacted gives the same turns: the
/// redacted turns are a redaction of themselves, and any redaction of them
/// is a redaction of the turns they came from.
pub proof fn lemma_redaction_is_idempotent(a: Seq<Turn>, b: Seq<Turn>, c: Seq<Turn>)
    requires
        turns_redacted(a, b),
    ensures
        turns_redacted(b, b),
        turns_redacted(b, c) ==> turns_redacted(a, c),
{
    lemma_remote_turns_shape(a, b);
    let pred = |turn: Turn| turn_survives(turn);
    let sa = surviving_turns(a);
    assert forall|t: int| 0 <= t < b.len() implies pred(#[trigger] b[t]) by {
        capped_turns(a).lemma_filter_pred(pred, t);
        assert(turn_redacted(sa[t], b[t]));
        lemma_kept_items_of_redacted(sa[t].items@, b[t].items@);
    }
    assert(capped_turns(b) == b);
    lemma_filter_all(b, pred);
    assert(surviving_turns(b) == b);
    assert forall|t: int| 0 <= t < b.len() implies turn_redacted(
        surviving_turns(b)[t],
        #[trigger] b[t],
    ) by {
        lemma_turn_redaction_settles(sa[t], b[t], b[t]);
    }
    if turns_redacted(b, c) {
        assert forall|t: int| 0 <= t < c.len() implies turn_redacted(sa[t], #[trigger] c[t]) by {
            lemma_turn_redaction_settles(sa[t], b[t], c[t]);
        }
    }
}

// ---------------------------------------------------------------------------
// Payloads do not reach the remote client

/// Two user inputs that differ at most in the contents of an image.
pub open spec fn user_inputs_agree_but_payloads(a: UserInput, b: UserInput) -> bool {
    match a {
        UserInput::Image { .. } | UserInput::LocalImage { .. } => b is Image || b is LocalImage,
        _ => b == a,
    }
}

/// Two tool output items that differ at most in the contents of an image.
pub open spec fn content_items_agree_but_payloads(
    a: DynamicToolCallOutputContentItem,
    b: DynamicToolCallOutputContentItem,
) -> bool {
    match a {
        DynamicToolCallOutputContentItem::InputImage { .. } => b is InputImage,
        _ => b == a,
    }
}

/// Two items that differ at most in what redaction removes: tool-call
/// arguments, the contents (not the presence) of an MCP result or error,
/// image inputs and image tool output, and everything of an item that is
/// left out (file changes, image views, generated images).
pub open spec fn items_agree_but_payloads(a: ThreadItem, b: ThreadItem) -> bool {
    if !item_kept(a) {
        !item_kept(b)
    } else {
        match a {
            ThreadItem::UserMessage { id, content } => b matches ThreadItem::UserMessage {
                id: id2,
                content: c2,
            } && id2 == id && c2@.len() == content@.len() && forall|k: int|
                0 <= k < content@.len() ==> user_inputs_agree_but_payloads(
                    content@[k],
                    #[trigger] c2@[k],
                ),
            ThreadItem::McpToolCall {
                id,
                server,
                tool,
                status,
                mcp_app_resource_uri,
                plugin_id,
                result,
                error,
                duration_ms,
                ..
            } => b matches ThreadItem::McpToolCall {
                id: id2,
                server: server2,
                tool: tool2,
                status: status2,
                mcp_app_resource_uri: uri2,
                plugin_id: plugin2,
                result: result2,
                error: error2,
                duration_ms: duration2,
                ..
            } && id2 == id && server2 == server && tool2 == tool && status2 == status && uri2
                == mcp_app_resource_uri && plugin2 == plugin_id && (result2 is Some)
                == (result is Some) && (error2 is Some) == (error is Some) && duration2
                == duration_ms,
            ThreadItem::DynamicToolCall {
                id,
                namespace,
                tool,
                status,
                content_items,
                success,
                duration_ms,
                ..
            } => b matches ThreadItem::DynamicToolCall {
                id: id2,
                namespace: namespace2,
                tool: tool2,
                status: status2,
                content_items: items2,
                success: success2,
                duration_ms: duration2,
                ..
            } && id2 == id && namespace2 == namespace && tool2 == tool && status2 == status
                && success2 == success && duration2 == duration_ms && match content_items {
                Some(items) => items2 matches Some(i2) && i2@.len() == items@.len() && forall|
                    k: int,
                | 0 <= k < items@.len() ==> content_items_agree_but_payloads(
                    items@[k],
                    #[trigger] i2@[k],
                ),
                None => items2 is None,
            },
            _ => b == a,
        }
    }
}

/// Two turns that differ at most in the payloads of their items.
pub open spec fn turns_agree_but_payloads(a: Turn, b: Turn) -> bool {
    &&& b.id == a.id
    &&& b.items_view == a.items_view
    &&& b.status == a.status
    &&& b.error == a.error
    &&& b.started_at == a.started_at
    &&& b.completed_at == a.completed_at
    &&& b.duration_ms == a.duration_ms
    &&& b.items@.len() == a.items@.len()
    &&& forall|k: int|
        0 <= k < a.items@.len() ==> items_agree_but_payloads(a.items@[k], #[trigger] b.items@[k])
}

/// Two thread histories that differ at most in the payloads of their items.
pub open spec fn histories_agree_but_payloads(a: Seq<Turn>, b: Seq<Turn>) -> bool {
    &&& b.len() == a.len()
    &&& forall|t: int| 0 <= t < a.len() ==> turns_agree_but_payloads(a[t], #[trigger] b[t])
}

proof fn lemma_item_payloads_irrelevant(x1: ThreadItem, x2: ThreadItem, y: ThreadItem)
    requires
        items_agree_but_payloads(x1, x2),
    ensures
        item_kept(x1) == item_kept(x2),
        item_kept(x1) ==> (item_redacted(x1, y) <==> item_redacted(x2, y)),
{
    if item_kept(x1) {
        match x1 {
            ThreadItem::UserMessage { content, .. } => {
                let c2 = x2->UserMessage_content;
                if y is UserMessage {
                    let w = y->UserMessage_content;
                    assert forall|k: int| 0 <= k < content@.len() && 0 <= k < w@.len() implies (
                    user_input_redacted(content@[k], #[trigger] w@[k]) <==> user_input_redacted(
                        c2@[k],
                        w@[k],
                    )) by {
                        assert(user_inputs_agree_but_payloads(content@[k], c2@[k]));
                    }
                }
            },
            ThreadItem::DynamicToolCall { content_items, .. } => {
                match content_items {
                    Some(items) => {
                        let i2 = x2->DynamicToolCall_content_items->0;
                        if y is DynamicToolCall && y->DynamicToolCall_content_items is Some {
                            let w = y->DynamicToolCall_content_items->0;
                            assert forall|k: int|
                                0 <= k < items@.len() && 0 <= k < w@.len() implies (
                            content_item_redacted(items@[k], #[trigger] w@[k])
                                <==> content_item_redacted(i2@[k], w@[k])) by {
                                assert(content_items_agree_but_payloads(items@[k], i2@[k]));
                            }
                        }
                    },
                    None => {},
                }
            },
            _ => {},
        }
    }
}

proof fn lemma_turn_payloads_irrelevant(t1: Turn, t2: Turn, u: Turn)
    requires
        turns_agree_but_payloads(t1, t2),
    ensures
        turn_survives(t1) == turn_survives(t2),
        turn_redacted(t1, u) <==> turn_redacted(t2, u),
{
    let pred = |item: ThreadItem| item_kept(item);
    let rel = |a: ThreadItem, b: ThreadItem| items_agree_but_payloads(a, b);
    assert forall|i: int| 0 <= i < t1.items@.len() implies pred(#[trigger] t1.items@[i]) == pred(
        t2.items@[i],
    ) && (pred(t1.items@[i]) ==> rel(t1.items@[i], t2.items@[i])) by {
        lemma_item_payloads_irrelevant(t1.items@[i], t2.items@[i], t1.items@[i]);
    }
    lemma_filter_related(t1.items@, t2.items@, pred, pred, rel);
    let k1 = kept_items(t1.items@);
    let k2 = kept_items(t2.items@);
    assert forall|k: int| 0 <= k < k1.len() && 0 <= k < u.items@.len() implies (item_redacted(
        k1[k],
        #[trigger] u.items@[k],
    ) <==> item_redacted(k2[k], u.items@[k])) by {
        assert(rel(k1[k], k2[k]));
        t1.items@.lemma_filter_pred(pred, k);
        lemma_item_payloads_irrelevant(k1[k], k2[k], u.items@[k]);
    }
}

/// No redacted payload reaches the remote client: two histories that differ
/// only in what redaction removes have the same redactions.
pub proof fn lemma_payloads_do_not_reach_remote(a1: Seq<Turn>, a2: Seq<Turn>, r: Seq<Turn>)
    requires
        histories_agree_but_payloads(a1, a2),
    ensures
        turns_redacted(a1, r) <==> turns_redacted(a2, r),
{
    let c1 = capped_turns(a1);
    let c2 = capped_turns(a2);
    assert forall|t: int| 0 <= t < c1.len() implies turns_agree_but_payloads(
        #[trigger] c1[t],
        c2[t],
    ) by {
        if a1.len() > MAX_REMOTE_RESUME_TURNS {
            assert(c1[t] == a1[t + (a1.len() - MAX_REMOTE_RESUME_TURNS)]);
            assert(c2[t] == a2[t + (a1.len() - MAX_REMOTE_RESUME_TURNS)]);
        }
    }
    let pred = |turn: Turn| turn_survives(turn);
    let rel = |x: Turn, y: Turn| turns_agree_but_payloads(x, y);
    assert forall|i: int| 0 <= i < c1.len() implies pred(#[trigger] c1[i]) == pred(c2[i]) && (pred(
        c1[i],
    ) ==> rel(c1[i], c2[i])) by {
        lemma_turn_payloads_irrelevant(c1[i], c2[i], c1[i]);
    }
    lemma_filter_related(c1, c2, pred, pred, rel);
    let s1 = surviving_turns(a1);
    let s2 = surviving_turns(a2);
    assert forall|k: int| 0 <= k < s1.len() && 0 <= k < r.len() implies (turn_redacted(
        s1[k],
        #[trigger] r[k],
    ) <==> turn_redacted(s2[k], r[k])) by {
        assert(rel(s1[k], s2[k]));
        lemma_turn_payloads_irrelevant(s1[k], s2[k], r[k]);
    }
}

// ---------------------------------------------------------------------------
// Every text a remote client gets is cut

/// `shown` is `text` as a remote client gets it: the text itself when it
/// has at most `MAX_REMOTE_TEXT_CHARS` characters, else its first
/// `MAX_REMOTE_TEXT_CHARS` characters followed by the truncation notice;
/// either way no longer than that limit plus the notice.
pub open spec fn cut_for_remote(text: Seq<char>, shown: Seq<char>) -> bool {
    &&& text.len() <= MAX_REMOTE_TEXT_CHARS ==> shown == text
    &&& text.len() > MAX_REMOTE_TEXT_CHARS ==> shown == text.take(MAX_REMOTE_TEXT_CHARS as int)
        + TRUNCATION_NOTICE@
    &&& within_remote_limit(shown)
}

/// At most `MAX_REMOTE_TEXT_CHARS` characters plus the truncation notice.
pub open spec fn within_remote_limit(text: Seq<char>) -> bool {
    text.len() <= MAX_REMOTE_TEXT_CHARS + TRUNCATION_NOTICE@.len()
}

/// Every text field of `item` is within the remote limit: message, plan
/// and review texts, reasoning summaries and contents, hook prompt
/// fragments, commands and their output, text inputs of a user message,
/// text output of a dynamic tool call, and the prompt of a collaborating
/// agent call.
pub open spec fn texts_within_limit(item: ThreadItem) -> bool {
    match item {
        ThreadItem::UserMessage { content, .. } => forall|k: int|
            0 <= k < content@.len() ==> ((#[trigger] content@[k]) matches UserInput::Text {
                text,
                ..
            } ==> within_remote_limit(text@)),
        ThreadItem::HookPrompt { fragments, .. } => forall|k: int|
            0 <= k < fragments@.len() ==> within_remote_limit((#[trigger] fragments@[k]).text@),
        ThreadItem::AgentMessage { text, .. } => within_remote_limit(text@),
        ThreadItem::Plan { text, .. } => within_remote_limit(text@),
        ThreadItem::Reasoning { summary, content, .. } => (forall|k: int|
            0 <= k < summary@.len() ==> within_remote_limit((#[trigger] summary@[k])@)) && (forall|
            k: int,
        |
            0 <= k < content@.len() ==> within_remote_limit((#[trigger] content@[k])@)),
        ThreadItem::CommandExecution { command, aggregated_output, .. } => within_remote_limit(
            command@,
        ) && (aggregated_output matches Some(output) ==> within_remote_limit(output@)),
        ThreadItem::DynamicToolCall { content_items, .. } => content_items matches Some(items)
            ==> forall|k: int|
            0 <= k < items@.len() ==> ((#[trigger] items@[k]) matches DynamicToolCallOutputContentItem::InputText {
                text,
            } ==> within_remote_limit(text@)),
        ThreadItem::CollabAgentToolCall { prompt, .. } => prompt matches Some(p)
            ==> within_remote_limit(p@),
        ThreadItem::EnteredReviewMode { review, .. } => within_remote_limit(review@),
        ThreadItem::ExitedReviewMode { review, .. } => within_remote_limit(review@),
        _ => true,
    }
}

proof fn lemma_remote_text_is_cut()
    ensures
        forall|text: Seq<char>| #[trigger] cut_for_remote(text, remote_text(text)),
{
    assert forall|text: Seq<char>| #[trigger] cut_for_remote(text, remote_text(text)) by {
        lemma_remote_text(text);
    }
}

/// Each text of a kept item reaches the remote client cut: the message
/// text of an agent message, the text of a plan, a review, a command and
/// its output, each reasoning summary and content, each hook prompt
/// fragment, each text input of a user message, each text output of a
/// dynamic tool call, and the prompt of a collaborating agent call; so
/// every text of the redacted item is within the remote limit.
pub proof fn lemma_kept_item_texts_are_cut(x: ThreadItem, y: ThreadItem)
    requires
        item_kept(x),
        item_redacted(x, y),
    ensures
        texts_within_limit(y),
        x matches ThreadItem::AgentMessage { text, .. } ==> (y matches ThreadItem::AgentMessage {
            text: t2,
            ..
        } && cut_for_remote(text@, t2@)),
        x matches ThreadItem::Plan { text, .. } ==> (y matches ThreadItem::Plan { text: t2, .. }
            && cut_for_remote(text@, t2@)),
        x matches ThreadItem::EnteredReviewMode { review, .. } ==> (y matches ThreadItem::EnteredReviewMode {
            review: r2,
            ..
        } && cut_for_remote(review@, r2@)),
        x matches ThreadItem::ExitedReviewMode { review, .. } ==> (y matches ThreadItem::ExitedReviewMode {
            review: r2,
            ..
        } && cut_for_remote(review@, r2@)),
        x matches ThreadItem::CommandExecution { command, aggregated_output, .. } ==> (y matches ThreadItem::CommandExecution {
            command: c2,
            aggregated_output: o2,
            ..
        } && cut_for_remote(command@, c2@) && (aggregated_output matches Some(o) ==> (o2 matches Some(
            p,
        ) && cut_for_remote(o@, p@)))),
        x matches ThreadItem::Reasoning { summary, content, .. } ==> (y matches ThreadItem::Reasoning {
            summary: s2,
            content: c2,
            ..
        } && s2@.len() == summary@.len() && c2@.len() == content@.len() && (forall|k: int|
            0 <= k < summary@.len() ==> cut_for_remote(summary@[k]@, (#[trigger] s2@[k])@)) && (
        forall|k: int| 0 <= k < content@.len() ==> cut_for_remote(content@[k]@, (#[trigger] c2@[k])@))),
        x matches ThreadItem::HookPrompt { fragments, .. } ==> (y matches ThreadItem::HookPrompt {
            fragments: f2,
            ..
        } && f2@.len() == fragments@.len() && forall|k: int|
            0 <= k < fragments@.len() ==> cut_for_remote(
                fragments@[k].text@,
                (#[trigger] f2@[k]).text@,
            )),
        x matches ThreadItem::UserMessage { content, .. } ==> (y matches ThreadItem::UserMessage {
            content: c2,
            ..
        } && c2@.len() == content@.len() && forall|k: int|
            0 <= k < content@.len() ==> (content@[k] matches UserInput::Text { text, .. } ==> (
            (#[trigger] c2@[k]) matches UserInput::Text { text: t2, .. } && cut_for_remote(
                text@,
                t2@,
            )))),
        x matches ThreadItem::DynamicToolCall { content_items: Some(items), .. } ==> (y matches ThreadItem::DynamicToolCall {
            content_items: Some(i2),
            ..
        } && i2@.len() == items@.len() && forall|k: int|
            0 <= k < items@.len() ==> (items@[k] matches DynamicToolCallOutputContentItem::InputText {
                text,
            } ==> ((#[trigger] i2@[k]) matches DynamicToolCallOutputContentItem::InputText {
                text: t2,
            } && cut_for_remote(text@, t2@)))),
        x matches ThreadItem::CollabAgentToolCall { prompt: Some(p), .. } ==> (y matches ThreadItem::CollabAgentToolCall {
            prompt: Some(p2),
            ..
        } && cut_for_remote(p@, p2@)),
{
    lemma_remote_text_is_cut();
    reveal_strlit("[redacted image]");
    match x {
        ThreadItem::UserMessage { content, .. } => {
            let c2 = y->UserMessage_content;
            assert forall|k: int| 0 <= k < c2@.len() implies ((#[trigger] c2@[k]) matches UserInput::Text {
                text,
                ..
            } ==> within_remote_limit(text@)) by {
                assert(user_input_redacted(content@[k], c2@[k]));
            }
            assert forall|k: int| 0 <= k < content@.len() implies (content@[k] matches UserInput::Text {
                text,
                ..
            } ==> ((#[trigger] c2@[k]) matches UserInput::Text { text: t2, .. } && cut_for_remote(
                text@,
                t2@,
            ))) by {
                assert(user_input_redacted(content@[k], c2@[k]));
            }
        },
        ThreadItem::DynamicToolCall { content_items, .. } => {
            match content_items {
                Some(items) => {
                    let i2 = y->DynamicToolCall_content_items->0;
                    assert forall|k: int| 0 <= k < i2@.len() implies ((#[trigger] i2@[k]) matches DynamicToolCallOutputContentItem::InputText {
                        text,
                    } ==> within_remote_limit(text@)) by {
                        assert(content_item_redacted(items@[k], i2@[k]));
                    }
                    assert forall|k: int| 0 <= k < items@.len() implies (items@[k] matches DynamicToolCallOutputContentItem::InputText {
                        text,
                    } ==> ((#[trigger] i2@[k]) matches DynamicToolCallOutputContentItem::InputText {
                        text: t2,
                    } && cut_for_remote(text@, t2@))) by {
                        assert(content_item_redacted(items@[k], i2@[k]));
                    }
                },
                None => {},
            }
        },
        ThreadItem::Reasoning { summary, content, .. } => {
            let s2 = y->Reasoning_summary;
            let c2 = y->Reasoning_content;
            assert forall|k: int| 0 <= k < summary@.len() implies cut_for_remote(
                summary@[k]@,
                (#[trigger] s2@[k])@,
            ) by {
                assert(s2@[k]@ == remote_text(summary@[k]@));
            }
            assert forall|k: int| 0 <= k < content@.len() implies cut_for_remote(
                content@[k]@,
                (#[trigger] c2@[k])@,
            ) by {
                assert(c2@[k]@ == remote_text(content@[k]@));
            }
        },
        ThreadItem::HookPrompt { fragments, .. } => {
            let f2 = y->HookPrompt_fragments;
            assert forall|k: int| 0 <= k < fragments@.len() implies cut_for_remote(
                fragments@[k].text@,
                (#[trigger] f2@[k]).text@,
            ) by {
                assert(f2@[k].text@ == remote_text(fragments@[k].text@));
            }
        },
        _ => {},
    }
}

/// Every text a remote client gets is within the remote limit: each item
/// of each turn of a redacted history has all its texts cut.
pub proof fn lemma_remote_texts_within_limit(old: Seq<Turn>, new: Seq<Turn>)
    requires
        turns_redacted(old, new),
    ensures
        forall|t: int, k: int|
            0 <= t < new.len() && 0 <= k < new[t].items@.len() ==> texts_within_limit(
                #[trigger] new[t].items@[k],
            ),
{
    assert forall|t: int, k: int|
        0 <= t < new.len() && 0 <= k < new[t].items@.len() implies texts_within_limit(
        #[trigger] new[t].items@[k],
    ) by {
        let old_turn = surviving_turns(old)[t];
        assert(turn_redacted(old_turn, new[t]));
        let kept_pred = |item: ThreadItem| item_kept(item);
        old_turn.items@.lemma_filter_pred(kept_pred, k);
        assert(item_redacted(kept_items(old_turn.items@)[k], new[t].items@[k]));
        lemma_kept_item_texts_are_cut(kept_items(old_turn.items@)[k], new[t].items@[k]);
    }
}

} // verus!
