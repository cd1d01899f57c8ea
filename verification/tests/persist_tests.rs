use autoloop::controller::{build_follow_up_context, extend_context_follow_up};
use autoloop::log::{Record, ToolCall, ToolCallKind};
use autoloop::persist::{
    checkpoint_plan, context_file_write, heartbeat_json, render_log_json, session_info_json,
    SessionStatus, Target,
};

#[test]
fn log_json_of_each_record_kind() {
    let log = vec![
        Record::System { content: "s".to_string() },
        Record::AssistantReasoning { reasoning: "why".to_string() },
        Record::AssistantText { content: "hi".to_string() },
        Record::ToolReply {
            tool_call_id: "c1".to_string(),
            content: "out".to_string(),
            timestamp: Some("T1".to_string()),
        },
    ];
    let expected = "[\n  {\n    \"content\": \"s\",\n    \"role\": \"system\"\n  },\n  {\n    \"content\": \"\",\n    \"reasoning\": \"why\",\n    \"role\": \"assistant\"\n  },\n  {\n    \"content\": \"hi\",\n    \"role\": \"assistant\"\n  },\n  {\n    \"content\": \"out\",\n    \"role\": \"tool\",\n    \"timestamp\": \"T1\",\n    \"tool_call_id\": \"c1\"\n  }\n]";
    assert_eq!(render_log_json(&log), expected);
}

#[test]
fn log_json_renders_tool_calls_compactly() {
    let log = vec![Record::AssistantToolCalls {
        tool_calls: vec![ToolCall {
            id: "exec_1".to_string(),
            kind: ToolCallKind::Function,
            name: "bash".to_string(),
            arguments: "{\"command\":[\"ls\"]}".to_string(),
            timestamp: Some("T".to_string()),
        }],
    }];
    let expected = "[\n  {\n    \"content\": \"\",\n    \"role\": \"assistant\",\n    \"tool_calls\": [{\"function\":{\"arguments\":\"{\\\"command\\\":[\\\"ls\\\"]}\",\"name\":\"bash\"},\"id\":\"exec_1\",\"timestamp\":\"T\",\"type\":\"function\"}]\n  }\n]";
    assert_eq!(render_log_json(&log), expected);
}

#[test]
fn empty_log_is_an_empty_array() {
    let log: Vec<Record> = vec![];
    assert_eq!(render_log_json(&log), "[]");
}

#[test]
fn session_info_layout() {
    assert_eq!(
        session_info_json(1700, 3, 45, 1745),
        "{\n  \"current_iteration\": 3,\n  \"elapsed_seconds\": 45,\n  \"last_updated\": 1745,\n  \"session_start\": 1700\n}"
    );
}

#[test]
fn heartbeat_layout() {
    let hb = heartbeat_json(
        "2024-01-01T00:00:00+00:00",
        2,
        1700,
        30,
        SessionStatus::Running,
        4242,
        "/tmp/task.yaml",
        30,
        "o3",
        true,
    );
    let expected = "{\n  \"config_file\": \"/tmp/task.yaml\",\n  \"driver_model\": \"o3\",\n  \"duration_minutes\": 30,\n  \"elapsed_seconds\": 30,\n  \"full_auto\": true,\n  \"iteration\": 2,\n  \"pid\": 4242,\n  \"session_timestamp\": 1700,\n  \"status\": \"running\",\n  \"timestamp\": \"2024-01-01T00:00:00+00:00\"\n}";
    assert_eq!(hb, expected);
}

#[test]
fn final_heartbeat_statuses() {
    let done = heartbeat_json("T", 5, 1, 9, SessionStatus::Completed, 1, "f", 30, "o3", false);
    assert!(done.contains("\"status\": \"completed\""));
    let err = heartbeat_json("T", 5, 1, 9, SessionStatus::Error, 1, "f", 30, "o3", false);
    assert!(err.contains("\"status\": \"error\""));
}

#[test]
fn checkpoint_plan_mirrors_everything() {
    let plan = checkpoint_plan(7, "[log]", "{info}", "{hb}");
    assert_eq!(plan.len(), 10);
    assert_eq!(plan[0].name, "iteration_007.json");
    assert_eq!(plan[0].target, Target::Session);
    assert_eq!(plan[1].name, "iteration_007.json");
    assert_eq!(plan[1].target, Target::Backup);
    // Both latest.json copies carry the very bytes of the checkpoint.
    assert_eq!(plan[2].name, "latest.json");
    assert_eq!(plan[3].name, "latest.json");
    assert_eq!(plan[2].content, plan[3].content);
    assert_eq!(plan[2].content, "[log]");
    assert_eq!(plan[0].content, plan[2].content);
    assert_eq!(plan[4].name, "session_info.json");
    assert_eq!(plan[5].content, "{info}");
    assert_eq!(plan[6].name, "heartbeat.json");
    assert_eq!(plan[8].name, "latest_session_heartbeat.json");
    assert_eq!(plan[8].target, Target::GlobalSession);
    assert_eq!(plan[9].target, Target::GlobalBackup);
    assert_eq!(plan[9].content, "{hb}");
}

#[test]
fn latest_copies_deserialise_to_the_same_array() {
    let log = vec![
        Record::System { content: "s".to_string() },
        Record::User { content: "go".to_string(), tool_calls: vec![] },
    ];
    let rendered = render_log_json(&log);
    let plan = checkpoint_plan(1, &rendered, "{}", "{}");
    let session_copy: serde_json::Value = serde_json::from_str(&plan[2].content).unwrap();
    let backup_copy: serde_json::Value = serde_json::from_str(&plan[3].content).unwrap();
    assert_eq!(session_copy, backup_copy);
    let records = session_copy.as_array().unwrap();
    assert_eq!(records.len(), 2);
    assert_eq!(records[0]["role"], "system");
    assert_eq!(records[1]["content"], "go");
}

#[test]
fn context_goes_to_the_session_directory() {
    let w = context_file_write("the context");
    assert_eq!(w.target, Target::Session);
    assert_eq!(w.name, "context_log.txt");
    assert_eq!(w.content, "the context");
}

#[test]
fn follow_up_context_layout() {
    assert_eq!(
        build_follow_up_context("CTX", "[results]"),
        "CTX\n\nTool Results:\n[results]"
    );
    assert_eq!(
        extend_context_follow_up("CTX", "next step"),
        "CTX\n\nUSER: next step\n\nASSISTANT: next step"
    );
}
