use autoloop::tools::{
    note_file_content, note_filename, read_notes_content, render_tool_results, slack_payload,
    str_le, tool_response, NoteFile, SupervisorCall, ToolIo, ToolResult,
};

#[test]
fn note_content_and_filename() {
    assert_eq!(
        note_file_content("2024-01-01 00:00:00 UTC", "remember this"),
        "[2024-01-01 00:00:00 UTC] remember this\n"
    );
    assert_eq!(note_filename("20240101_000000"), "note_20240101_000000.txt");
}

#[test]
fn read_notes_with_nothing() {
    assert_eq!(read_notes_content(None), "No notes yet.");
    assert_eq!(read_notes_content(Some(vec![])), "No notes yet.");
}

#[test]
fn read_notes_sorts_by_filename_and_fixes_newlines() {
    let files = vec![
        NoteFile { name: "note_2.txt".to_string(), content: Ok("second".to_string()) },
        NoteFile { name: "note_1.txt".to_string(), content: Ok("first\n".to_string()) },
    ];
    assert_eq!(read_notes_content(Some(files)), "first\nsecond\n");
}

#[test]
fn read_notes_reports_unreadable_files() {
    let files = vec![NoteFile {
        name: "note_1.txt".to_string(),
        content: Err("permission denied".to_string()),
    }];
    assert_eq!(
        read_notes_content(Some(files)),
        "Error reading note_1.txt: permission denied\n"
    );
}

#[test]
fn string_ordering_is_lexicographic() {
    assert!(str_le("a", "b"));
    assert!(str_le("a", "ab"));
    assert!(!str_le("b", "ab"));
    assert!(str_le("", "a"));
    assert!(str_le("abc", "abc"));
}

#[test]
fn slack_payload_layout() {
    let p = slack_payload("T", "A", "V", "S", "D", "R", "I", "C");
    assert_eq!(
        p,
        "{\"asset\":\"A\",\"cleanup\":\"C\",\"description\":\"D\",\"impact\":\"I\",\"repro_steps\":\"R\",\"severity\":\"S\",\"title\":\"T\",\"vuln_type\":\"V\"}"
    );
}

#[test]
fn write_note_responses() {
    let (ok, finished) = tool_response(
        SupervisorCall::WriteNote { id: "w1".to_string(), content: "x".to_string() },
        ToolIo::WroteNote { filename: "note_1.txt".to_string(), outcome: Ok(()) },
    );
    assert!(!finished);
    assert_eq!(ok.content, "Note written successfully to note_1.txt");
    assert_eq!(ok.tool_name, "write_note");
    let (bad, _) = tool_response(
        SupervisorCall::WriteNote { id: "w2".to_string(), content: "x".to_string() },
        ToolIo::WroteNote { filename: "note_2.txt".to_string(), outcome: Err("disk full".to_string()) },
    );
    assert_eq!(bad.content, "Error writing note: disk full");
}

#[test]
fn slack_webhook_responses() {
    let (unset, _) = tool_response(
        SupervisorCall::SlackWebhook {
            id: "s1".to_string(),
            title: "t".to_string(),
            asset: "a".to_string(),
            vuln_type: "v".to_string(),
            severity: "s".to_string(),
            description: "d".to_string(),
            repro_steps: "r".to_string(),
            impact: "i".to_string(),
            cleanup: "c".to_string(),
        },
        ToolIo::SlackPosted { outcome: None },
    );
    assert_eq!(unset.content, "SLACK_WEBHOOK_URL not configured - skipping Slack notification");
    let (sent, _) = tool_response(
        SupervisorCall::SlackWebhook {
            id: "s2".to_string(),
            title: "t".to_string(),
            asset: "a".to_string(),
            vuln_type: "v".to_string(),
            severity: "s".to_string(),
            description: "d".to_string(),
            repro_steps: "r".to_string(),
            impact: "i".to_string(),
            cleanup: "c".to_string(),
        },
        ToolIo::SlackPosted { outcome: Some(Ok(("ok".to_string(), "".to_string()))) },
    );
    assert_eq!(sent.content, "Slack webhook posted: stdout=ok, stderr=");
}

#[test]
fn unknown_tool_response() {
    let (r, finished) = tool_response(
        SupervisorCall::Unknown { id: "u1".to_string(), name: "mystery".to_string() },
        ToolIo::NoIo,
    );
    assert!(!finished);
    assert_eq!(r.content, "Unknown tool: mystery");
    assert_eq!(r.tool_name, "mystery");
}

#[test]
fn finished_without_reason_uses_default() {
    let (r, finished) = tool_response(
        SupervisorCall::Finished { id: "f1".to_string(), reason: None },
        ToolIo::NoIo,
    );
    assert!(finished);
    assert_eq!(r.content, "✅ Autonomous session finished: No reason provided");
}

#[test]
fn tool_results_pretty_rendering() {
    let ts = vec![ToolResult {
        tool_call_id: "c1".to_string(),
        tool_name: "write_note".to_string(),
        content: "done".to_string(),
    }];
    assert_eq!(
        render_tool_results(&ts),
        "[\n  {\n    \"content\": \"done\",\n    \"tool_call_id\": \"c1\",\n    \"tool_name\": \"write_note\"\n  }\n]"
    );
    let empty: Vec<ToolResult> = vec![];
    assert_eq!(render_tool_results(&empty), "[]");
}
