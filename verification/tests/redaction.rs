use codex_skill_routing::redaction::redact_thread_resume_payloads;
use codex_skill_routing::redaction::redacted_mcp_tool_call_result;
use codex_skill_routing::redaction::should_redact_thread_resume_payloads;
use codex_skill_routing::redaction::truncate_for_remote;
use codex_skill_routing::redaction::MAX_REMOTE_RESUME_TURNS;
use codex_skill_routing::redaction::MAX_REMOTE_TEXT_CHARS;
use codex_skill_routing::redaction::REDACTED_IMAGE;
use codex_skill_routing::redaction::REDACTED_PAYLOAD;
use codex_skill_routing::resume::CommandExecutionSource;
use codex_skill_routing::resume::CommandExecutionStatus;
use codex_skill_routing::resume::DynamicToolCallOutputContentItem;
use codex_skill_routing::resume::DynamicToolCallStatus;
use codex_skill_routing::resume::FileUpdateChange;
use codex_skill_routing::resume::HookPromptFragment;
use codex_skill_routing::resume::McpToolCallError;
use codex_skill_routing::resume::McpToolCallResult;
use codex_skill_routing::resume::McpToolCallStatus;
use codex_skill_routing::resume::PatchApplyStatus;
use codex_skill_routing::resume::PatchChangeKind;
use codex_skill_routing::resume::ThreadItem;
use codex_skill_routing::resume::Turn;
use codex_skill_routing::resume::TurnItemsView;
use codex_skill_routing::resume::TurnStatus;
use codex_skill_routing::resume::UserInput;
use codex_skill_routing::skills::ByteRange;
use codex_skill_routing::skills::TextElement;
use serde_json::Value as JsonValue;

/// `{key: value, ...}` with string values.
fn json_object(entries: &[(&str, &str)]) -> JsonValue {
    let mut map = serde_json::Map::new();
    for (key, value) in entries {
        map.insert(key.to_string(), JsonValue::String(value.to_string()));
    }
    JsonValue::Object(map)
}

fn turn(id: &str, items: Vec<ThreadItem>) -> Turn {
    Turn {
        id: id.to_string(),
        items,
        items_view: TurnItemsView::Full,
        status: TurnStatus::Completed,
        error: None,
        started_at: None,
        completed_at: None,
        duration_ms: None,
    }
}

/// The turns of a test thread: one turn holding `items`.
fn test_thread_turns(items: Vec<ThreadItem>) -> Vec<Turn> {
    vec![turn("turn-1", items)]
}

#[test]
fn redacts_mcp_success_result_and_removes_image_generation() {
    let mut turns = test_thread_turns(vec![
        ThreadItem::AgentMessage {
            id: "agent-1".to_string(),
            text: "kept".to_string(),
            phase: None,
            memory_citation: None,
        },
        ThreadItem::McpToolCall {
            id: "mcp-1".to_string(),
            server: "docs".to_string(),
            tool: "lookup".to_string(),
            status: McpToolCallStatus::Completed,
            arguments: json_object(&[("secret", "argument")]),
            mcp_app_resource_uri: Some("ui://widget/lookup.html".to_string()),
            plugin_id: Some("sample@test".to_string()),
            result: Some(Box::new(McpToolCallResult {
                content: vec![json_object(&[("type", "text"), ("text", "secret result")])],
                structured_content: Some(json_object(&[("secret", "structured")])),
                meta: Some(json_object(&[("secret", "meta")])),
            })),
            error: None,
            duration_ms: Some(8),
        },
        ThreadItem::ImageGeneration {
            id: "ig-1".to_string(),
            status: "completed".to_string(),
            revised_prompt: Some("revised".to_string()),
            result: "base64-result".to_string(),
            saved_path: Some("/tmp/ig-1.png".to_string()),
        },
    ]);

    redact_thread_resume_payloads(&mut turns);

    assert_eq!(turns[0].items.len(), 2);
    assert_eq!(
        turns[0].items[0],
        ThreadItem::AgentMessage {
            id: "agent-1".to_string(),
            text: "kept".to_string(),
            phase: None,
            memory_citation: None,
        }
    );
    assert_eq!(
        turns[0].items[1],
        ThreadItem::McpToolCall {
            id: "mcp-1".to_string(),
            server: "docs".to_string(),
            tool: "lookup".to_string(),
            status: McpToolCallStatus::Completed,
            arguments: JsonValue::String(REDACTED_PAYLOAD.to_string()),
            mcp_app_resource_uri: Some("ui://widget/lookup.html".to_string()),
            plugin_id: Some("sample@test".to_string()),
            result: Some(Box::new(redacted_mcp_tool_call_result())),
            error: None,
            duration_ms: Some(8),
        }
    );
}

#[test]
fn redacts_large_remote_resume_only_payloads() {
    let mut long_text = "a".repeat(MAX_REMOTE_TEXT_CHARS + 1);
    long_text.push('é');
    let mut turns = test_thread_turns(vec![
        ThreadItem::UserMessage {
            id: "user-1".to_string(),
            content: vec![
                UserInput::Text {
                    text: long_text.clone(),
                    text_elements: vec![TextElement::new(
                        ByteRange { start: 0, end: 1 },
                        Some("chip".to_string()),
                    )],
                },
                UserInput::Image {
                    detail: None,
                    url: "data:image/png;base64,secret".to_string(),
                },
                UserInput::LocalImage {
                    detail: None,
                    path: "/tmp/secret.png".to_string(),
                },
            ],
        },
        ThreadItem::CommandExecution {
            id: "cmd-1".to_string(),
            command: "echo kept".to_string(),
            cwd: "/tmp".to_string(),
            process_id: None,
            source: CommandExecutionSource::Agent,
            status: CommandExecutionStatus::Completed,
            command_actions: Vec::new(),
            aggregated_output: Some(long_text.clone()),
            exit_code: Some(0),
            duration_ms: Some(1),
        },
        ThreadItem::FileChange {
            id: "patch-1".to_string(),
            changes: vec![FileUpdateChange {
                path: "large.patch".to_string(),
                kind: PatchChangeKind::Add,
                diff: long_text.clone(),
            }],
            status: PatchApplyStatus::Completed,
        },
        ThreadItem::DynamicToolCall {
            id: "tool-1".to_string(),
            namespace: Some("test".to_string()),
            tool: "lookup".to_string(),
            arguments: json_object(&[("secret", "argument")]),
            status: DynamicToolCallStatus::Completed,
            content_items: Some(vec![
                DynamicToolCallOutputContentItem::InputText {
                    text: long_text.clone(),
                },
                DynamicToolCallOutputContentItem::InputImage {
                    image_url: "data:image/png;base64,secret".to_string(),
                },
            ]),
            success: Some(true),
            duration_ms: Some(1),
        },
        ThreadItem::ImageView {
            id: "image-view-1".to_string(),
            path: "/tmp/view.png".to_string(),
        },
    ]);

    redact_thread_resume_payloads(&mut turns);

    let turn = &turns[0];
    assert!(
        !turn
            .items
            .iter()
            .any(|item| matches!(item, ThreadItem::FileChange { .. })),
        "file-change diffs should be omitted from mobile resume"
    );
    assert!(
        !turn
            .items
            .iter()
            .any(|item| matches!(item, ThreadItem::ImageView { .. })),
        "local image views should be omitted from mobile resume"
    );

    let user_item = turn
        .items
        .iter()
        .find(|item| matches!(item, ThreadItem::UserMessage { .. }))
        .expect("user message remains");
    let ThreadItem::UserMessage { content, .. } = user_item else {
        unreachable!("matched user message");
    };
    assert!(matches!(
        &content[0],
        UserInput::Text {
            text,
            text_elements
        } if text.ends_with("[truncated for mobile remote resume]")
            && text_elements.is_empty()
    ));
    assert_eq!(
        content[1],
        UserInput::Text {
            text: REDACTED_IMAGE.to_string(),
            text_elements: Vec::new(),
        }
    );
    assert_eq!(
        content[2],
        UserInput::Text {
            text: REDACTED_IMAGE.to_string(),
            text_elements: Vec::new(),
        }
    );

    let command_item = turn
        .items
        .iter()
        .find(|item| matches!(item, ThreadItem::CommandExecution { .. }))
        .expect("command item remains");
    let ThreadItem::CommandExecution {
        aggregated_output, ..
    } = command_item
    else {
        unreachable!("matched command item");
    };
    assert!(
        aggregated_output
            .as_ref()
            .expect("output")
            .ends_with("[truncated for mobile remote resume]")
    );

    let dynamic_item = turn
        .items
        .iter()
        .find(|item| matches!(item, ThreadItem::DynamicToolCall { .. }))
        .expect("dynamic tool item remains");
    let ThreadItem::DynamicToolCall {
        arguments,
        content_items,
        ..
    } = dynamic_item
    else {
        unreachable!("matched dynamic tool item");
    };
    assert_eq!(arguments, &JsonValue::String(REDACTED_PAYLOAD.to_string()));
    assert!(matches!(
        &content_items.as_ref().expect("content items")[0],
        DynamicToolCallOutputContentItem::InputText { text }
            if text.ends_with("[truncated for mobile remote resume]")
    ));
    assert_eq!(
        content_items.as_ref().expect("content items")[1],
        DynamicToolCallOutputContentItem::InputText {
            text: REDACTED_IMAGE.to_string(),
        }
    );
}

#[test]
fn caps_remote_resume_turn_count() {
    let mut turns: Vec<Turn> = (0..(MAX_REMOTE_RESUME_TURNS + 3))
        .map(|index| {
            turn(
                &format!("turn-{index}"),
                vec![ThreadItem::AgentMessage {
                    id: format!("agent-{index}"),
                    text: "kept".to_string(),
                    phase: None,
                    memory_citation: None,
                }],
            )
        })
        .collect();

    redact_thread_resume_payloads(&mut turns);

    assert_eq!(turns.len(), MAX_REMOTE_RESUME_TURNS);
    assert_eq!(turns[0].id, "turn-3");
}

#[test]
fn redacts_mcp_error_message() {
    let mut turns = test_thread_turns(vec![ThreadItem::McpToolCall {
        id: "mcp-1".to_string(),
        server: "docs".to_string(),
        tool: "lookup".to_string(),
        status: McpToolCallStatus::Failed,
        arguments: json_object(&[("secret", "argument")]),
        mcp_app_resource_uri: None,
        plugin_id: None,
        result: None,
        error: Some(McpToolCallError {
            message: "secret error".to_string(),
        }),
        duration_ms: Some(8),
    }]);

    redact_thread_resume_payloads(&mut turns);

    assert_eq!(
        turns[0].items[0],
        ThreadItem::McpToolCall {
            id: "mcp-1".to_string(),
            server: "docs".to_string(),
            tool: "lookup".to_string(),
            status: McpToolCallStatus::Failed,
            arguments: JsonValue::String(REDACTED_PAYLOAD.to_string()),
            mcp_app_resource_uri: None,
            plugin_id: None,
            result: None,
            error: Some(McpToolCallError {
                message: REDACTED_PAYLOAD.to_string(),
            }),
            duration_ms: Some(8),
        }
    );
}

#[test]
fn redacted_mcp_result_is_one_redacted_text_block() {
    let result = redacted_mcp_tool_call_result();
    assert_eq!(
        result.content,
        vec![json_object(&[("type", "text"), ("text", REDACTED_PAYLOAD)])]
    );
    assert_eq!(result.structured_content, None);
    assert_eq!(result.meta, None);
}

#[test]
fn only_the_chatgpt_remote_clients_are_redacted() {
    assert!(should_redact_thread_resume_payloads(Some("codex_chatgpt_android_remote")));
    assert!(should_redact_thread_resume_payloads(Some("codex_chatgpt_ios_remote")));
    assert!(!should_redact_thread_resume_payloads(Some("codex_chatgpt_ios_remote ")));
    assert!(!should_redact_thread_resume_payloads(Some("desktop-client")));
    assert!(!should_redact_thread_resume_payloads(None));
}

#[test]
fn truncation_keeps_exactly_the_limit_and_appends_the_notice() {
    let mut at_limit = "é".repeat(MAX_REMOTE_TEXT_CHARS);
    assert!(!truncate_for_remote(&mut at_limit));
    assert_eq!(at_limit.chars().count(), MAX_REMOTE_TEXT_CHARS);

    let mut over = "é".repeat(MAX_REMOTE_TEXT_CHARS + 5);
    assert!(truncate_for_remote(&mut over));
    let expected = format!(
        "{}\n[truncated for mobile remote resume]",
        "é".repeat(MAX_REMOTE_TEXT_CHARS)
    );
    assert_eq!(over, expected);
}

#[test]
fn turns_left_empty_are_dropped_and_other_texts_truncated() {
    let long_text = "b".repeat(MAX_REMOTE_TEXT_CHARS + 2);
    let mut turns = vec![
        turn(
            "only-images",
            vec![ThreadItem::ImageView {
                id: "v".to_string(),
                path: "/tmp/v.png".to_string(),
            }],
        ),
        turn(
            "texts",
            vec![
                ThreadItem::HookPrompt {
                    id: "hook".to_string(),
                    fragments: vec![HookPromptFragment {
                        text: long_text.clone(),
                    }],
                },
                ThreadItem::Reasoning {
                    id: "r".to_string(),
                    summary: vec![long_text.clone(), "short".to_string()],
                    content: vec![],
                },
                ThreadItem::EnteredReviewMode {
                    id: "review".to_string(),
                    review: long_text.clone(),
                },
                ThreadItem::CollabAgentToolCall {
                    id: "collab".to_string(),
                    tool: "spawn".to_string(),
                    prompt: Some("short prompt".to_string()),
                },
                ThreadItem::WebSearch {
                    id: "web".to_string(),
                    query: long_text.clone(),
                },
            ],
        ),
    ];

    redact_thread_resume_payloads(&mut turns);

    assert_eq!(turns.len(), 1);
    assert_eq!(turns[0].id, "texts");
    let truncated = format!(
        "{}\n[truncated for mobile remote resume]",
        "b".repeat(MAX_REMOTE_TEXT_CHARS)
    );
    assert_eq!(
        turns[0].items[0],
        ThreadItem::HookPrompt {
            id: "hook".to_string(),
            fragments: vec![HookPromptFragment {
                text: truncated.clone()
            }],
        }
    );
    assert_eq!(
        turns[0].items[1],
        ThreadItem::Reasoning {
            id: "r".to_string(),
            summary: vec![truncated.clone(), "short".to_string()],
            content: vec![],
        }
    );
    assert_eq!(
        turns[0].items[2],
        ThreadItem::EnteredReviewMode {
            id: "review".to_string(),
            review: truncated,
        }
    );
    assert_eq!(
        turns[0].items[3],
        ThreadItem::CollabAgentToolCall {
            id: "collab".to_string(),
            tool: "spawn".to_string(),
            prompt: Some("short prompt".to_string()),
        }
    );
    // Items of other kinds pass through untouched.
    assert_eq!(
        turns[0].items[4],
        ThreadItem::WebSearch {
            id: "web".to_string(),
            query: long_text,
        }
    );
}

fn payload_history(argument: &str, image_url: &str, diff: &str, long_text: &str) -> Vec<Turn> {
    test_thread_turns(vec![
        ThreadItem::UserMessage {
            id: "user-1".to_string(),
            content: vec![
                UserInput::Text {
                    text: long_text.to_string(),
                    text_elements: Vec::new(),
                },
                UserInput::Image {
                    detail: None,
                    url: image_url.to_string(),
                },
            ],
        },
        ThreadItem::McpToolCall {
            id: "mcp-1".to_string(),
            server: "docs".to_string(),
            tool: "lookup".to_string(),
            status: McpToolCallStatus::Failed,
            arguments: json_object(&[("secret", argument)]),
            mcp_app_resource_uri: None,
            plugin_id: None,
            result: Some(Box::new(McpToolCallResult {
                content: vec![json_object(&[("text", argument)])],
                structured_content: None,
                meta: None,
            })),
            error: Some(McpToolCallError {
                message: argument.to_string(),
            }),
            duration_ms: Some(8),
        },
        ThreadItem::FileChange {
            id: "patch-1".to_string(),
            changes: vec![FileUpdateChange {
                path: "a.patch".to_string(),
                kind: PatchChangeKind::Update,
                diff: diff.to_string(),
            }],
            status: PatchApplyStatus::Completed,
        },
    ])
}

#[test]
fn redacting_twice_changes_nothing() {
    let long_text = "c".repeat(MAX_REMOTE_TEXT_CHARS + 10);
    let mut once = payload_history("secret", "data:image/png;base64,x", "diff", &long_text);
    redact_thread_resume_payloads(&mut once);
    let mut twice = payload_history("secret", "data:image/png;base64,x", "diff", &long_text);
    redact_thread_resume_payloads(&mut twice);
    redact_thread_resume_payloads(&mut twice);
    assert_eq!(once, twice);
}

#[test]
fn redacted_payloads_do_not_reach_the_remote_client() {
    let long_text = "d".repeat(MAX_REMOTE_TEXT_CHARS + 1);
    let mut first = payload_history("alpha", "data:image/png;base64,a", "diff one", &long_text);
    let mut second = payload_history("beta", "data:image/png;base64,b", "diff two", &long_text);
    redact_thread_resume_payloads(&mut first);
    redact_thread_resume_payloads(&mut second);
    assert_eq!(first, second);
}
