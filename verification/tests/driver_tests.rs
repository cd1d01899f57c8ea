use autoloop::driver::{
    assess_first_response, build_follow_up_history, collect_stream, finish_follow_up,
    DriverOutcome, HistoryItem, StreamItem,
};
use autoloop::log::{Record, ToolCall, ToolCallKind};
use autoloop::render::{render_context, render_tool_calls};
use autoloop::tools::ToolResult;

#[test]
fn stream_folds_text_and_calls_until_completed() {
    let items = vec![
        StreamItem::TextPiece { text: "hel".to_string() },
        StreamItem::FunctionCall {
            call_id: "c1".to_string(),
            name: "write_note".to_string(),
            arguments: "{\"content\":\"x\"}".to_string(),
        },
        StreamItem::TextPiece { text: "lo".to_string() },
        StreamItem::Other,
        StreamItem::Completed,
        StreamItem::TextPiece { text: "ignored".to_string() },
    ];
    let (text, calls, stop) = collect_stream(&items);
    assert_eq!(text, "hello");
    assert_eq!(stop, 4);
    assert_eq!(calls.len(), 1);
    assert_eq!(calls[0].id, "c1");
    assert_eq!(calls[0].name, "write_note");
    assert_eq!(calls[0].arguments, "{\"content\":\"x\"}");
    assert!(calls[0].timestamp.is_none());
}

#[test]
fn stream_without_completion_reads_everything() {
    let items = vec![StreamItem::TextPiece { text: "abc".to_string() }];
    let (text, calls, stop) = collect_stream(&items);
    assert_eq!(text, "abc");
    assert!(calls.is_empty());
    assert_eq!(stop, 1);
}

#[test]
fn empty_response_is_a_driver_error() {
    assert!(assess_first_response(String::new(), vec![]).is_err());
}

#[test]
fn plain_response_is_trimmed() {
    match assess_first_response("  say hi \n".to_string(), vec![]).unwrap() {
        DriverOutcome::FinalText { text } => assert_eq!(text, "say hi"),
        _ => panic!("expected a final text"),
    }
}

#[test]
fn tool_calls_ask_for_a_supervisor_round() {
    let calls = vec![ToolCall {
        id: "c1".to_string(),
        kind: ToolCallKind::Function,
        name: "read_notes".to_string(),
        arguments: "{}".to_string(),
        timestamp: None,
    }];
    match assess_first_response("".to_string(), calls).unwrap() {
        DriverOutcome::NeedsTools { calls, .. } => assert_eq!(calls.len(), 1),
        _ => panic!("expected a tools round"),
    }
}

#[test]
fn follow_up_text_is_trimmed() {
    assert_eq!(finish_follow_up(" next \n".to_string()), "next");
}

#[test]
fn follow_up_history_layout() {
    let calls = vec![ToolCall {
        id: "c1".to_string(),
        kind: ToolCallKind::Function,
        name: "write_note".to_string(),
        arguments: "{\"content\":\"x\"}".to_string(),
        timestamp: None,
    }];
    let results = vec![ToolResult {
        tool_call_id: "c1".to_string(),
        tool_name: "write_note".to_string(),
        content: "Note written successfully to note_1.txt".to_string(),
    }];
    let h = build_follow_up_history("the prompt", " text ", &calls, &results);
    assert_eq!(h.len(), 4);
    assert!(matches!(&h[0], HistoryItem::UserMsg { text } if text == "the prompt"));
    assert!(matches!(&h[1], HistoryItem::AssistantMsg { text } if text == "text"));
    match &h[2] {
        HistoryItem::CallItem { call_id, name, arguments } => {
            assert_eq!(call_id, "c1");
            assert_eq!(name, "write_note");
            // The arguments are written back as a JSON string literal.
            assert_eq!(arguments, "\"{\\\"content\\\":\\\"x\\\"}\"");
        }
        _ => panic!("expected a call item"),
    }
    match &h[3] {
        HistoryItem::OutputItem { call_id, content } => {
            assert_eq!(call_id, "c1");
            assert_eq!(content, "Note written successfully to note_1.txt");
        }
        _ => panic!("expected an output item"),
    }
}

#[test]
fn tool_call_pretty_rendering_filters_system_entries() {
    let calls = vec![
        ToolCall {
            id: "event_taskstarted_1".to_string(),
            kind: ToolCallKind::System,
            name: "task_started".to_string(),
            arguments: "{}".to_string(),
            timestamp: None,
        },
        ToolCall {
            id: "exec_1".to_string(),
            kind: ToolCallKind::Function,
            name: "bash".to_string(),
            arguments: "{\"command\":[\"ls\"]}".to_string(),
            timestamp: Some("T".to_string()),
        },
    ];
    let expected = "[\n  {\n    \"function\": {\n      \"arguments\": \"{\\\"command\\\":[\\\"ls\\\"]}\",\n      \"name\": \"bash\"\n    },\n    \"id\": \"exec_1\",\n    \"timestamp\": \"T\",\n    \"type\": \"function\"\n  }\n]";
    assert_eq!(render_tool_calls(&calls), expected);
    // Only system entries: nothing is shown.
    let only_system = vec![ToolCall {
        id: "event_taskstarted_1".to_string(),
        kind: ToolCallKind::System,
        name: "task_started".to_string(),
        arguments: "{}".to_string(),
        timestamp: None,
    }];
    assert_eq!(render_tool_calls(&only_system), "[]");
}

#[test]
fn context_skips_tool_call_records_with_only_system_entries() {
    let log = vec![
        Record::System { content: "S".to_string() },
        Record::AssistantToolCalls {
            tool_calls: vec![ToolCall {
                id: "event_tokencount_1".to_string(),
                kind: ToolCallKind::System,
                name: "token_count".to_string(),
                arguments: "{}".to_string(),
                timestamp: None,
            }],
        },
        Record::AssistantText { content: "hi".to_string() },
    ];
    assert_eq!(render_context(&log), "SYSTEM: S\n\nASSISTANT: hi\n\n");
}
