use autoloop::controller::{
    begin_turn, choose_session_dir, new_session_state, record_driver_simple, record_driver_tools,
    rebuild_context, resumed_state, scan_max_iteration, session_dir_name, set_finished,
    TemplateKind,
};
use autoloop::demux::{new_demux, AgentEvent, DemuxAction, DemuxConfig, DemuxInput};
use autoloop::log::{Record, ToolCallKind};
use autoloop::persist::{session_info_json, render_log_json};
use autoloop::render::render_context;
use autoloop::tools::ToolResult;

fn demux_for(submission_id: &str) -> autoloop::demux::DemuxState {
    new_demux(DemuxConfig {
        submission_id: submission_id.to_string(),
        approval_template: "cmd={command} cwd={cwd} reason={reason} task={task_context}"
            .to_string(),
        bugcrowd_template: "tool={tool} args={arguments}".to_string(),
        config_content: "task: \"say hi\"".to_string(),
    })
}

fn ev(event: AgentEvent) -> DemuxInput {
    DemuxInput::Event {
        event_id: "sub1".to_string(),
        now: "2024-01-01T00:00:00+00:00".to_string(),
        now_millis: 1700,
        event,
    }
}

#[test]
fn single_clean_iteration() {
    // Driver says "say hello world" with no tool calls; the agent starts,
    // answers, and completes.
    let mut state = new_session_state("SYS".to_string());
    let kind = begin_turn(&mut state);
    assert_eq!(kind, TemplateKind::Initial);
    record_driver_simple(&mut state, "say hello world".to_string());

    let mut d = demux_for("sub1");
    assert!(matches!(d.step(ev(AgentEvent::TaskStarted)), DemuxAction::Continue));
    assert!(matches!(
        d.step(ev(AgentEvent::AgentMessage { message: "hello world".to_string() })),
        DemuxAction::Continue
    ));
    assert!(matches!(d.step(ev(AgentEvent::TaskComplete)), DemuxAction::Done));
    let turn = d.extract_turn().unwrap();
    assert_eq!(turn.assistant, "hello world");
    assert!(turn.reasoning.is_none());
    assert_eq!(turn.tool_calls.len(), 1);
    assert_eq!(turn.tool_calls[0].id, "event_taskstarted_1700");
    assert_eq!(turn.tool_calls[0].kind, ToolCallKind::System);
    assert!(turn.tool_responses.is_empty());

    let len_before = state.log.len();
    autoloop::controller::record_agent_turn(&mut state, turn);
    assert!(state.log.len() > len_before);

    // The log reads [system, user, tool_calls, assistant].
    assert_eq!(state.log.len(), 4);
    assert!(matches!(&state.log[0], Record::System { content } if content == "SYS"));
    assert!(matches!(&state.log[1], Record::User { content, .. } if content == "say hello world"));
    assert!(matches!(&state.log[2], Record::AssistantToolCalls { .. }));
    assert!(
        matches!(&state.log[3], Record::AssistantText { content } if content == "hello world")
    );
    assert_eq!(state.iteration, 1);
    let info = session_info_json(1_700_000, 1, 12, 1_700_012);
    assert!(info.contains("\"current_iteration\": 1"));
}

#[test]
fn empty_reasoning_leaves_no_record() {
    let mut d = demux_for("sub1");
    d.step(ev(AgentEvent::AgentMessage { message: "hi".to_string() }));
    d.step(ev(AgentEvent::TaskComplete));
    let turn = d.extract_turn().unwrap();
    assert!(turn.reasoning.is_none());
    let mut state = new_session_state("S".to_string());
    autoloop::controller::record_agent_turn(&mut state, turn);
    for rec in &state.log {
        assert!(!matches!(rec, Record::AssistantReasoning { .. }));
    }
}

#[test]
fn reasoning_is_recorded_when_present() {
    let mut d = demux_for("sub1");
    d.step(ev(AgentEvent::AgentReasoning { text: "thinking".to_string() }));
    d.step(ev(AgentEvent::AgentMessage { message: "hi".to_string() }));
    d.step(ev(AgentEvent::TaskComplete));
    let turn = d.extract_turn().unwrap();
    assert_eq!(turn.reasoning.as_deref(), Some("thinking"));
}

#[test]
fn events_of_other_submissions_are_ignored() {
    let mut d = demux_for("sub1");
    let other = DemuxInput::Event {
        event_id: "other".to_string(),
        now: "T".to_string(),
        now_millis: 1,
        event: AgentEvent::AgentMessage { message: "noise".to_string() },
    };
    d.step(other);
    d.step(ev(AgentEvent::TaskComplete));
    let turn = d.extract_turn().unwrap();
    assert_eq!(turn.assistant, "");
}

#[test]
fn exec_command_events_become_call_and_response() {
    let mut d = demux_for("sub1");
    d.step(ev(AgentEvent::ExecCommandBegin {
        call_id: "c1".to_string(),
        command: vec!["echo".to_string(), "hi".to_string()],
    }));
    d.step(ev(AgentEvent::ExecCommandEnd {
        call_id: "c1".to_string(),
        exit_code: 0,
        stdout: "hi\n".to_string(),
        stderr: "".to_string(),
    }));
    d.step(ev(AgentEvent::TaskComplete));
    let turn = d.extract_turn().unwrap();
    assert_eq!(turn.tool_calls.len(), 1);
    assert_eq!(turn.tool_calls[0].id, "exec_c1");
    assert_eq!(turn.tool_calls[0].name, "bash");
    assert_eq!(turn.tool_calls[0].arguments, "{\"command\":[\"echo\",\"hi\"]}");
    assert_eq!(turn.tool_responses.len(), 1);
    assert_eq!(turn.tool_responses[0].tool_call_id, "exec_c1");
    assert_eq!(
        turn.tool_responses[0].content,
        "{\"exit_code\":0,\"stderr\":\"\",\"stdout\":\"hi\\n\"}"
    );
}

#[test]
fn bugcrowd_denial() {
    // On denial the tool never runs and its completion event is dropped:
    // the recorded denial is the only response for the id.
    let mut d = demux_for("sub1");
    let a = d.step(ev(AgentEvent::McpToolCallBegin {
        call_id: "X".to_string(),
        tool: "bugcrowd_submit".to_string(),
        arguments: Some("{\"title\":\"t\"}".to_string()),
    }));
    match a {
        DemuxAction::AskDriver { prompt } => {
            assert_eq!(prompt, "tool=bugcrowd_submit args={\"title\":\"t\"}");
        }
        _ => panic!("expected a driver consultation"),
    }
    let a = d.step(DemuxInput::DriverReply {
        now: "T".to_string(),
        result: Ok("DENY - insufficient evidence".to_string()),
    });
    assert!(matches!(a, DemuxAction::Continue));
    // The completion event for the denied call is dropped outright.
    d.step(ev(AgentEvent::McpToolCallEnd {
        call_id: "X".to_string(),
        result: Ok("{\"submitted\":true}".to_string()),
    }));
    d.step(ev(AgentEvent::TaskComplete));
    let turn = d.extract_turn().unwrap();
    let for_x: Vec<_> =
        turn.tool_responses.iter().filter(|r| r.tool_call_id == "X").collect();
    assert_eq!(for_x.len(), 1);
    assert!(for_x[0]
        .content
        .starts_with("❌ Bugcrowd submission denied by security review: insufficient evidence"));
    assert!(!for_x[0].content.contains("submitted"));
    // The denied call was never recorded as a tool call either.
    assert!(turn.tool_calls.iter().all(|tc| tc.id != "X"));
}

#[test]
fn bugcrowd_approval_lets_the_call_through() {
    let mut d = demux_for("sub1");
    d.step(ev(AgentEvent::McpToolCallBegin {
        call_id: "X".to_string(),
        tool: "bugcrowd_submit".to_string(),
        arguments: None,
    }));
    d.step(DemuxInput::DriverReply {
        now: "T2".to_string(),
        result: Ok("APPROVE - solid report".to_string()),
    });
    d.step(ev(AgentEvent::McpToolCallEnd {
        call_id: "X".to_string(),
        result: Ok("{\"submitted\":true}".to_string()),
    }));
    d.step(ev(AgentEvent::TaskComplete));
    let turn = d.extract_turn().unwrap();
    assert_eq!(turn.tool_calls.len(), 1);
    assert_eq!(turn.tool_calls[0].id, "X");
    assert_eq!(turn.tool_calls[0].arguments, "null");
    assert_eq!(turn.tool_responses.len(), 1);
    assert_eq!(turn.tool_responses[0].content, "{\"submitted\":true}");
}

#[test]
fn exec_approval_approval() {
    // The agent asks to run a command; the driver approves; the decision
    // is recorded and submitted back.
    let mut d = demux_for("sub1");
    let a = d.step(ev(AgentEvent::ExecApprovalRequest {
        command: vec!["rm".to_string(), "-rf".to_string(), "/tmp/x".to_string()],
        cwd: "/tmp".to_string(),
        reason: None,
    }));
    match a {
        DemuxAction::AskDriver { prompt } => {
            assert_eq!(
                prompt,
                "cmd=[\"rm\", \"-rf\", \"/tmp/x\"] cwd=\"/tmp\" reason=No reason provided task=task: \"say hi\""
            );
        }
        _ => panic!("expected a driver consultation"),
    }
    let a = d.step(DemuxInput::DriverReply { now: "T".to_string(), result: Ok("APPROVE".to_string()) });
    match a {
        DemuxAction::SubmitExec { event_id, approved } => {
            assert_eq!(event_id, "sub1");
            assert!(approved);
        }
        _ => panic!("expected an exec approval submission"),
    }
    d.step(ev(AgentEvent::TaskComplete));
    let turn = d.extract_turn().unwrap();
    assert_eq!(turn.tool_calls.len(), 1);
    assert_eq!(turn.tool_calls[0].id, "approval_1700");
    assert_eq!(turn.tool_calls[0].name, "request_approval");
    assert_eq!(
        turn.tool_calls[0].arguments,
        "{\"command\":[\"rm\",\"-rf\",\"/tmp/x\"],\"cwd\":\"/tmp\",\"reason\":null}"
    );
    assert_eq!(turn.tool_responses.len(), 1);
    assert_eq!(turn.tool_responses[0].tool_call_id, "approval_1700");
    assert_eq!(
        turn.tool_responses[0].content,
        "{\"decision\":\"Approved\",\"llm_response\":\"✅ Approved by external LLM\"}"
    );
}

#[test]
fn exec_approval_transport_error_denies() {
    let mut d = demux_for("sub1");
    d.step(ev(AgentEvent::ExecApprovalRequest {
        command: vec!["ls".to_string()],
        cwd: ".".to_string(),
        reason: None,
    }));
    let a = d.step(DemuxInput::DriverReply {
        now: "T".to_string(),
        result: Err("timeout".to_string()),
    });
    match a {
        DemuxAction::SubmitExec { approved, .. } => assert!(!approved),
        _ => panic!("expected an exec approval submission"),
    }
}

#[test]
fn resume() {
    // A resumed session must not append a system record, numbers its next
    // iteration after the highest checkpoint, and takes the saved context
    // verbatim.
    let loaded = vec![
        Record::System { content: "SYS".to_string() },
        Record::User { content: "go".to_string(), tool_calls: vec![] },
    ];
    let filenames = vec![
        "iteration_001.json".to_string(),
        "iteration_002.json".to_string(),
        "latest.json".to_string(),
        "context_log.txt".to_string(),
    ];
    let mut state = resumed_state(Some("CTX".to_string()), Some(loaded), &filenames);
    assert_eq!(state.context, "CTX");
    assert_eq!(state.log.len(), 2);
    assert_eq!(state.iteration, 2);
    let kind = begin_turn(&mut state);
    assert_eq!(state.iteration, 3);
    assert_eq!(kind, TemplateKind::Continuation);
    // Still exactly one system record, at index zero.
    let systems = state.log.iter().filter(|r| matches!(r, Record::System { .. })).count();
    assert_eq!(systems, 1);
    assert!(matches!(&state.log[0], Record::System { .. }));
}

#[test]
fn resume_scan_edge_cases() {
    let names = vec![
        "iteration_007.json".to_string(),
        "iteration_+12.json".to_string(),
        "iteration_xyz.json".to_string(),
        "garbage".to_string(),
        "iteration_.json".to_string(),
    ];
    assert_eq!(scan_max_iteration(&names), 12);
    let empty: Vec<String> = vec![];
    assert_eq!(scan_max_iteration(&empty), 0);
    assert_eq!(scan_max_iteration(&vec!["iteration_999.json".to_string()]), 999);
}

#[test]
fn finished_tool_marks_session() {
    // The driver calls finished{reason:"done"}; its marker is reported and
    // the loop exits after the checkpoint.
    let (result, finished) = autoloop::tools::tool_response(
        autoloop::tools::SupervisorCall::Finished {
            id: "f1".to_string(),
            reason: Some("done".to_string()),
        },
        autoloop::tools::ToolIo::NoIo,
    );
    assert!(finished);
    assert_eq!(result.content, "✅ Autonomous session finished: done");
    assert_eq!(result.tool_name, "finished");
    let mut state = new_session_state("S".to_string());
    record_driver_tools(&mut state, "wrapping up".to_string(), &vec![result]);
    set_finished(&mut state);
    assert!(state.finished);
    // The user record mirrors the call; the tool record answers it.
    assert_eq!(state.log.len(), 3);
    match &state.log[1] {
        Record::User { content, tool_calls } => {
            assert_eq!(content, "wrapping up");
            assert_eq!(tool_calls.len(), 1);
            assert_eq!(tool_calls[0].id, "f1");
            assert_eq!(tool_calls[0].name, "finished");
            assert_eq!(tool_calls[0].arguments, "{}");
        }
        _ => panic!("expected a user record"),
    }
    match &state.log[2] {
        Record::ToolReply { tool_call_id, content, .. } => {
            assert_eq!(tool_call_id, "f1");
            assert_eq!(content, "✅ Autonomous session finished: done");
        }
        _ => panic!("expected a tool record"),
    }
}

#[test]
fn turn_always_grows_the_log() {
    let mut state = new_session_state("S".to_string());
    let before = state.log.len();
    record_driver_simple(&mut state, "go".to_string());
    let mut d = demux_for("sub1");
    d.step(ev(AgentEvent::TaskComplete));
    let turn = d.extract_turn().unwrap();
    autoloop::controller::record_agent_turn(&mut state, turn);
    assert!(state.log.len() > before + 1);
}

#[test]
fn unsummarised_context_is_rendered_from_log() {
    let mut state = new_session_state("SYS".to_string());
    record_driver_simple(&mut state, "go".to_string());
    rebuild_context(&mut state, false, String::new());
    assert_eq!(state.context, render_context(&state.log));
    assert_eq!(state.context, "SYSTEM: SYS\n\nUSER: go\n\n");
    // Rendering again from the same log is byte-identical.
    assert_eq!(render_context(&state.log), state.context);
}

#[test]
fn summarised_context_is_kept_verbatim() {
    let mut state = new_session_state("SYS".to_string());
    record_driver_simple(&mut state, "go".to_string());
    rebuild_context(&mut state, true, "SUMMARY OK".to_string());
    assert_eq!(state.context, "SUMMARY OK");
}

#[test]
fn stream_failure_discards_the_turn() {
    let mut d = demux_for("sub1");
    d.step(ev(AgentEvent::AgentMessage { message: "partial".to_string() }));
    let a = d.step(DemuxInput::StreamFailed);
    assert!(matches!(a, DemuxAction::Abort));
    assert!(d.extract_turn().is_none());
}

#[test]
fn session_directory_choice() {
    assert_eq!(session_dir_name(1700), "autonomous_session_1700");
    assert_eq!(
        choose_session_dir(Some("old/session".to_string()), Some("custom".to_string()), 1700),
        "old/session"
    );
    assert_eq!(choose_session_dir(None, Some("custom".to_string()), 1700), "custom");
    assert_eq!(choose_session_dir(None, None, 1700), "./logs/autonomous_session_1700");
}

#[test]
fn config_flags_prepend_with_lower_precedence() {
    let mut sub = vec!["b=2".to_string()];
    autoloop::controller::prepend_config_flags(&mut sub, vec!["a=1".to_string()]);
    assert_eq!(sub, vec!["a=1".to_string(), "b=2".to_string()]);
}

#[test]
fn checkpoint_log_render_round() {
    let mut state = new_session_state("S".to_string());
    record_driver_simple(&mut state, "go".to_string());
    let json = render_log_json(&state.log);
    assert!(json.starts_with("[\n  {\n    \"content\": \"S\",\n    \"role\": \"system\"\n  },"));
    assert!(json.ends_with("\n]"));
}
