//! The thread history that `thread/resume` sends back to a client: turns
//! and the items they are made of.
use crate::skills::TextElement;
use vstd::prelude::*;

verus! {

#[derive(Debug, Clone, Copy, PartialEq, Eq)]
pub enum ImageDetail {
    Auto,
    Low,
    High,
}

/// One piece of what the user sent in a turn.
#[derive(Debug, Clone, PartialEq, Eq)]
pub enum UserInput {
    Text { text: String, text_elements: Vec<TextElement> },
    Image { detail: Option<ImageDetail>, url: String },
    LocalImage { detail: Option<ImageDetail>, path: String },
    Skill { name: String, path: String },
    Mention { name: String, path: String },
}

#[derive(Debug, Clone, PartialEq, Eq)]
pub struct HookPromptFragment {
    pub text: String,
}

#[derive(Debug, Clone, Copy, PartialEq, Eq)]
pub enum MessagePhase {
    Commentary,
    FinalAnswer,
}

#[derive(Debug, Clone, PartialEq, Eq)]
pub struct MemoryCitation {
    pub thread_ids: Vec<String>,
}

#[derive(Debug, Clone, Copy, PartialEq, Eq)]
pub enum CommandExecutionSource {
    Agent,
    User,
}

#[derive(Debug, Clone, Copy, PartialEq, Eq)]
pub enum CommandExecutionStatus {
    InProgress,
    Completed,
    Failed,
    Declined,
}

#[derive(Debug, Clone, PartialEq, Eq)]
pub struct CommandAction {
    pub command: String,
}

#[derive(Debug, Clone, Copy, PartialEq, Eq)]
pub enum PatchChangeKind {
    Add,
    Delete,
    Update,
}

#[derive(Debug, Clone, PartialEq, Eq)]
pub struct FileUpdateChange {
    pub path: String,
    pub kind: PatchChangeKind,
    pub diff: String,
}

#[derive(Debug, Clone, Copy, PartialEq, Eq)]
pub enum PatchApplyStatus {
    InProgress,
    Completed,
    Failed,
    Declined,
}

#[derive(Debug, Clone, Copy, PartialEq, Eq)]
pub enum McpToolCallStatus {
    InProgress,
    Completed,
    Failed,
}

#[derive(Debug, PartialEq)]
pub struct McpToolCallResult {
    pub content: Vec<serde_json::Value>,
    pub structured_content: Option<serde_json::Value>,
    pub meta: Option<serde_json::Value>,
}

#[derive(Debug, Clone, PartialEq, Eq)]
pub struct McpToolCallError {
    pub message: String,
}

#[derive(Debug, Clone, Copy, PartialEq, Eq)]
pub enum DynamicToolCallStatus {
    InProgress,
    Completed,
    Failed,
}

#[derive(Debug, Clone, PartialEq, Eq)]
pub enum DynamicToolCallOutputContentItem {
    InputText { text: String },
    InputImage { image_url: String },
}

/// One item of a turn.
#[derive(Debug, PartialEq)]
pub enum ThreadItem {
    UserMessage { id: String, content: Vec<UserInput> },
    HookPrompt { id: String, fragments: Vec<HookPromptFragment> },
    AgentMessage {
        id: String,
        text: String,
        phase: Option<MessagePhase>,
        memory_citation: Option<MemoryCitation>,
    },
    Plan { id: String, text: String },
    Reasoning { id: String, summary: Vec<String>, content: Vec<String> },
    CommandExecution {
        id: String,
        command: String,
        cwd: String,
        process_id: Option<String>,
        source: CommandExecutionSource,
        status: CommandExecutionStatus,
        command_actions: Vec<CommandAction>,
        aggregated_output: Option<String>,
        exit_code: Option<i32>,
        duration_ms: Option<i64>,
    },
    FileChange { id: String, changes: Vec<FileUpdateChange>, status: PatchApplyStatus },
    McpToolCall {
        id: String,
        server: String,
        tool: String,
        status: McpToolCallStatus,
        arguments: serde_json::Value,
        mcp_app_resource_uri: Option<String>,
        plugin_id: Option<String>,
        result: Option<Box<McpToolCallResult>>,
        error: Option<McpToolCallError>,
        duration_ms: Option<i64>,
    },
    DynamicToolCall {
        id: String,
        namespace: Option<String>,
        tool: String,
        arguments: serde_json::Value,
        status: DynamicToolCallStatus,
        content_items: Option<Vec<DynamicToolCallOutputContentItem>>,
        success: Option<bool>,
        duration_ms: Option<i64>,
    },
    CollabAgentToolCall { id: String, tool: String, prompt: Option<String> },
    EnteredReviewMode { id: String, review: String },
    ExitedReviewMode { id: String, review: String },
    ImageView { id: String, path: String },
    ImageGeneration {
        id: String,
        status: String,
        revised_prompt: Option<String>,
        result: String,
        saved_path: Option<String>,
    },
    WebSearch { id: String, query: String },
    ContextCompaction { id: String },
}

#[derive(Debug, Clone, Copy, PartialEq, Eq)]
pub enum TurnItemsView {
    Full,
    Summary,
}

#[derive(Debug, Clone, Copy, PartialEq, Eq)]
pub enum TurnStatus {
    InProgress,
    Completed,
    Interrupted,
    Failed,
}

#[derive(Debug, Clone, PartialEq, Eq)]
pub struct TurnError {
    pub message: String,
}

/// One turn of a thread.
#[derive(Debug, PartialEq)]
pub struct Turn {
    pub id: String,
    pub items: Vec<ThreadItem>,
    pub items_view: TurnItemsView,
    pub status: TurnStatus,
    pub error: Option<TurnError>,
    pub started_at: Option<i64>,
    pub completed_at: Option<i64>,
    pub duration_ms: Option<i64>,
}

} // verus!
