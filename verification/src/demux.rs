//! The event demultiplexer: consumes the agent's event stream for one
//! submission and builds a structured turn record, mediating approval
//! requests inline. The machine is driven from outside: it is handed one
//! input at a time and answers with the action to perform next.

use vstd::prelude::*;
use crate::approval::{approval_reason, approval_verdict, general_approval, general_approval_granted,
    parse_approval_response};
use crate::log::{has_call_id, turn_ids_ok, ToolCall, ToolCallKind, ToolResponse, TurnRecord};
use crate::template::{inject_approval_context_spec, inject_approval_variables_with_context,
    inject_bugcrowd_approval_variables, inject_bugcrowd_spec,
    inject_patch_approval_spec, inject_patch_approval_variables_with_context, reason_text};
use crate::text::{dec_spec, json_list, json_quoted, render_json_string_list, str2, str3, str_eq,
    trim_seq, u64_to_dec};

verus! {

/// What the demultiplexer is configured with for one submission.
pub struct DemuxConfig {
    /// Only events tagged with this id are consumed.
    pub submission_id: String,
    /// The general approval prompt template.
    pub approval_template: String,
    /// The bugcrowd approval prompt template.
    pub bugcrowd_template: String,
    /// The task configuration, used as approval task context.
    pub config_content: String,
}

/// Where the machine stands.
pub enum Phase {
    /// Consuming agent events.
    Collecting,
    /// A bugcrowd submission waits for the driver's verdict.
    AwaitBugcrowd { call_id: String, tool: String, arguments: Option<String> },
    /// A command approval waits for the driver's verdict.
    AwaitExec { approval_id: String, event_id: String },
    /// A patch approval waits for the driver's verdict.
    AwaitPatch { approval_id: String, event_id: String },
    /// The turn is over.
    Done,
    /// The stream failed; the turn's buffers are discarded.
    Aborted,
}

/// The demultiplexer's state: the turn's buffers and the phase.
pub struct DemuxState {
    pub cfg: DemuxConfig,
    /// Accumulated assistant text, one line per message event.
    pub assistant: String,
    /// Accumulated reasoning text, one line per reasoning event.
    pub reasoning: String,
    pub tool_calls: Vec<ToolCall>,
    pub tool_responses: Vec<ToolResponse>,
    /// Call ids whose bugcrowd submission was denied.
    pub denied: Vec<String>,
    pub phase: Phase,
}

/// The agent runtime's event vocabulary, on plain values. Payloads that
/// the runtime serialises itself (tool results, patch details, token
/// usage) arrive as already-rendered text.
pub enum AgentEvent {
    AgentMessage { message: String },
    AgentReasoning { text: String },
    ExecCommandBegin { call_id: String, command: Vec<String> },
    ExecCommandEnd { call_id: String, exit_code: i64, stdout: String, stderr: String },
    McpToolCallBegin { call_id: String, tool: String, arguments: Option<String> },
    McpToolCallEnd { call_id: String, result: Result<String, String> },
    ExecApprovalRequest { command: Vec<String>, cwd: String, reason: Option<String> },
    ApplyPatchApprovalRequest { changes_rendered: String, num_files: usize, reason: Option<
        String,
    > },
    TaskStarted,
    TokenCount { info: String },
    BackgroundEvent { message: String },
    PatchApplyBegin { call_id: String, details: String },
    PatchApplyEnd { call_id: String, details: String },
    TaskComplete,
    ErrorEvent { message: String },
    Other,
}

/// One input handed to the machine: an agent event (with its stream id
/// and the wall clock's reading), the driver's reply to an approval
/// prompt, or a stream failure.
pub enum DemuxInput {
    Event { event_id: String, now: String, now_millis: u64, event: AgentEvent },
    DriverReply { now: String, result: Result<String, String> },
    StreamFailed,
}

/// What the machine asks its driver loop to do next.
pub enum DemuxAction {
    /// Pump the next agent event.
    Continue,
    /// Consult the driver model with this prompt, then hand back its reply.
    AskDriver { prompt: String },
    /// Submit a command approval decision to the agent, then continue.
    SubmitExec { event_id: String, approved: bool },
    /// Submit a patch approval decision to the agent, then continue.
    SubmitPatch { event_id: String, approved: bool },
    /// The turn is complete.
    Done,
    /// The stream failed; discard the turn.
    Abort,
}

/// The arguments of a recorded exec tool call.
pub open spec fn cmd_args_json(command: Seq<Seq<char>>) -> Seq<char> {
    "{\"command\":"@ + json_list(command) + "}"@
}

/// The content of an exec tool response.
pub open spec fn exec_result_json(exit_code: int, stdout: Seq<char>, stderr: Seq<char>) -> Seq<
    char,
> {
    "{\"exit_code\":"@ + crate::text::dec_i64_spec(exit_code) + ",\"stderr\":"@ + json_quoted(
        stderr,
    ) + ",\"stdout\":"@ + json_quoted(stdout) + "}"@
}

/// An optional string as a JSON value: the quoted string, or `null`.
pub open spec fn opt_json(s: Option<String>) -> Seq<char> {
    match s {
        Some(x) => json_quoted(x@),
        None => "null"@,
    }
}

/// The arguments of a synthetic command approval call.
pub open spec fn approval_args_json(
    command: Seq<Seq<char>>,
    cwd: Seq<char>,
    reason: Option<String>,
) -> Seq<char> {
    "{\"command\":"@ + json_list(command) + ",\"cwd\":"@ + json_quoted(cwd) + ",\"reason\":"@
        + opt_json(reason) + "}"@
}

/// The arguments of a synthetic patch approval call.
pub open spec fn patch_args_json(changes: Seq<char>, reason: Option<String>) -> Seq<char> {
    "{\"changes\":"@ + json_quoted(changes) + ",\"reason\":"@ + opt_json(reason) + "}"@
}

/// The arguments of a synthetic background event entry.
pub open spec fn bg_args_json(message: Seq<char>) -> Seq<char> {
    "{\"message\":"@ + json_quoted(message) + "}"@
}

/// The arguments text of a recorded MCP tool call.
pub open spec fn mcp_args_text(arguments: Option<String>) -> Seq<char> {
    match arguments {
        Some(s) => s@,
        None => "null"@,
    }
}

/// The content of a command approval decision response.
pub open spec fn exec_decision_json(approved: bool) -> Seq<char> {
    if approved {
        "{\"decision\":\"Approved\",\"llm_response\":\"✅ Approved by external LLM\"}"@
    } else {
        "{\"decision\":\"Denied\",\"llm_response\":\"❌ Denied by external LLM\"}"@
    }
}

/// The content of a patch approval decision response.
pub open spec fn patch_decision_json(approved: bool) -> Seq<char> {
    if approved {
        "{\"decision\":\"Approved\",\"llm_response\":\"✅ Patch approved by external LLM\"}"@
    } else {
        "{\"decision\":\"Denied\",\"llm_response\":\"❌ Patch denied by external LLM\"}"@
    }
}

/// The content of an MCP tool response: the serialised success payload,
/// or the error behind an `Error: ` prefix.
pub open spec fn mcp_end_content(result: Result<String, String>) -> Seq<char> {
    match result {
        Ok(p) => p@,
        Err(e) => "Error: "@ + e@,
    }
}

/// The recorded call of an executed command.
pub open spec fn is_exec_call(
    tc: ToolCall,
    call_id: Seq<char>,
    command: Seq<Seq<char>>,
    now: Seq<char>,
) -> bool {
    &&& tc.id@ == "exec_"@ + call_id
    &&& tc.kind is Function
    &&& tc.name@ == "bash"@
    &&& tc.arguments@ == cmd_args_json(command)
    &&& tc.timestamp matches Some(t) && t@ == now
}

/// The recorded call of an MCP tool invocation.
pub open spec fn is_mcp_call(
    tc: ToolCall,
    call_id: Seq<char>,
    tool: Seq<char>,
    arguments: Option<String>,
    now: Seq<char>,
) -> bool {
    &&& tc.id@ == call_id
    &&& tc.kind is Function
    &&& tc.name@ == tool
    &&& tc.arguments@ == mcp_args_text(arguments)
    &&& tc.timestamp matches Some(t) && t@ == now
}

/// A synthetic system-kind entry for a loop event.
pub open spec fn is_system_entry(
    tc: ToolCall,
    id_prefix: Seq<char>,
    now_millis: u64,
    name: Seq<char>,
    arguments: Seq<char>,
) -> bool {
    &&& tc.id@ == id_prefix + dec_spec(now_millis as nat)
    &&& tc.kind is System
    &&& tc.name@ == name
    &&& tc.arguments@ == arguments
    &&& tc.timestamp is None
}

/// One appended element: the new sequence is the old one plus its last.
pub open spec fn pushed_calls(pre: Seq<ToolCall>, post: Seq<ToolCall>) -> bool {
    post.len() == pre.len() + 1 && post.take(pre.len() as int) == pre
}

/// One appended response.
pub open spec fn pushed_resps(pre: Seq<ToolResponse>, post: Seq<ToolResponse>) -> bool {
    post.len() == pre.len() + 1 && post.take(pre.len() as int) == pre
}

/// A recorded tool response with this id, content and timestamp.
pub open spec fn is_resp(
    r: ToolResponse,
    id: Seq<char>,
    content: Seq<char>,
    ts: Option<Seq<char>>,
) -> bool {
    &&& r.tool_call_id@ == id
    &&& r.content@ == content
    &&& match ts {
        Some(t) => r.timestamp matches Some(x) && x@ == t,
        None => r.timestamp is None,
    }
}

/// The id list holds this id.
pub open spec fn denied_contains(denied: Seq<String>, id: Seq<char>) -> bool {
    exists|k: int| 0 <= k < denied.len() && denied[k]@ == id
}

/// The configuration and all four collections are unchanged.
pub open spec fn same_collections(pre: DemuxState, post: DemuxState) -> bool {
    post.cfg == pre.cfg && post.tool_calls == pre.tool_calls && post.tool_responses
        == pre.tool_responses && post.denied == pre.denied
}

/// Everything but the tool calls is unchanged.
pub open spec fn only_calls_grow(pre: DemuxState, post: DemuxState) -> bool {
    post.cfg == pre.cfg && post.assistant == pre.assistant && post.reasoning == pre.reasoning
        && post.tool_responses == pre.tool_responses && post.denied == pre.denied && post.phase
        == pre.phase && pushed_calls(pre.tool_calls@, post.tool_calls@)
}

/// Everything but the tool responses is unchanged.
pub open spec fn only_resps_grow(pre: DemuxState, post: DemuxState) -> bool {
    post.cfg == pre.cfg && post.assistant == pre.assistant && post.reasoning == pre.reasoning
        && post.tool_calls == pre.tool_calls && post.denied == pre.denied && post.phase == pre.phase
        && pushed_resps(pre.tool_responses@, post.tool_responses@)
}

/// The buffers are unchanged; only the phase may differ.
pub open spec fn only_phase_changes(pre: DemuxState, post: DemuxState) -> bool {
    post.cfg == pre.cfg && post.assistant == pre.assistant && post.reasoning == pre.reasoning
        && post.tool_calls == pre.tool_calls && post.tool_responses == pre.tool_responses
        && post.denied == pre.denied
}

/// The step taken for one agent event of this submission while collecting.
pub open spec fn event_ok(
    pre: DemuxState,
    now: Seq<char>,
    now_millis: u64,
    event: AgentEvent,
    post: DemuxState,
    a: DemuxAction,
) -> bool {
    match event {
        AgentEvent::AgentMessage { message } => same_collections(pre, post) && post.phase
            == pre.phase && post.assistant@ == pre.assistant@ + message@ + "\n"@ && post.reasoning
            == pre.reasoning && a == DemuxAction::Continue,
        AgentEvent::AgentReasoning { text } => same_collections(pre, post) && post.phase
            == pre.phase && post.reasoning@ == pre.reasoning@ + text@ + "\n"@ && post.assistant
            == pre.assistant && a == DemuxAction::Continue,
        AgentEvent::ExecCommandBegin { call_id, command } => only_calls_grow(pre, post)
            && is_exec_call(post.tool_calls@.last(), call_id@, command.deep_view(), now) && a
            == DemuxAction::Continue,
        AgentEvent::ExecCommandEnd { call_id, exit_code, stdout, stderr } => only_resps_grow(
            pre,
            post,
        ) && is_resp(
            post.tool_responses@.last(),
            "exec_"@ + call_id@,
            exec_result_json(exit_code as int, stdout@, stderr@),
            Some(now),
        ) && a == DemuxAction::Continue,
        AgentEvent::McpToolCallBegin { call_id, tool, arguments } => if tool@
            == "bugcrowd_submit"@ {
            &&& only_phase_changes(pre, post)
            &&& post.phase matches Phase::AwaitBugcrowd { call_id: c, tool: t, arguments: ar }
                && c@ == call_id@ && t@ == tool@ && ar == arguments
            &&& a matches DemuxAction::AskDriver { prompt } && prompt@ == inject_bugcrowd_spec(
                pre.cfg.bugcrowd_template@,
                tool@,
                arguments,
            )
        } else {
            &&& only_calls_grow(pre, post)
            &&& is_mcp_call(post.tool_calls@.last(), call_id@, tool@, arguments, now)
            &&& a == DemuxAction::Continue
        },
        AgentEvent::McpToolCallEnd { call_id, result } => if denied_contains(
            pre.denied@,
            call_id@,
        ) {
            post == pre && a == DemuxAction::Continue
        } else {
            only_resps_grow(pre, post) && is_resp(
                post.tool_responses@.last(),
                call_id@,
                mcp_end_content(result),
                Some(now),
            ) && a == DemuxAction::Continue
        },
        AgentEvent::ExecApprovalRequest { command, cwd, reason } => {
            &&& post.cfg == pre.cfg
            &&& post.assistant == pre.assistant
            &&& post.reasoning == pre.reasoning
            &&& post.tool_responses == pre.tool_responses
            &&& post.denied == pre.denied
            &&& pushed_calls(pre.tool_calls@, post.tool_calls@)
            &&& {
                let tc = post.tool_calls@.last();
                &&& tc.id@ == "approval_"@ + dec_spec(now_millis as nat)
                &&& tc.kind is Function
                &&& tc.name@ == "request_approval"@
                &&& tc.arguments@ == approval_args_json(command.deep_view(), cwd@, reason)
                &&& tc.timestamp is None
            }
            &&& post.phase matches Phase::AwaitExec { approval_id, event_id: eid } && approval_id@
                == "approval_"@ + dec_spec(now_millis as nat) && eid@ == pre.cfg.submission_id@
            &&& a matches DemuxAction::AskDriver { prompt } && prompt@
                == inject_approval_context_spec(
                pre.cfg.approval_template@,
                command.deep_view(),
                cwd@,
                reason_text(reason),
                pre.cfg.config_content@,
            )
        },
        AgentEvent::ApplyPatchApprovalRequest { changes_rendered, num_files, reason } => {
            &&& post.cfg == pre.cfg
            &&& post.assistant == pre.assistant
            &&& post.reasoning == pre.reasoning
            &&& post.tool_responses == pre.tool_responses
            &&& post.denied == pre.denied
            &&& pushed_calls(pre.tool_calls@, post.tool_calls@)
            &&& {
                let tc = post.tool_calls@.last();
                &&& tc.id@ == "patch_approval_"@ + dec_spec(now_millis as nat)
                &&& tc.kind is Function
                &&& tc.name@ == "request_patch_approval"@
                &&& tc.arguments@ == patch_args_json(changes_rendered@, reason)
                &&& tc.timestamp is None
            }
            &&& post.phase matches Phase::AwaitPatch { approval_id, event_id: eid } && approval_id@
                == "patch_approval_"@ + dec_spec(now_millis as nat) && eid@
                == pre.cfg.submission_id@
            &&& a matches DemuxAction::AskDriver { prompt } && prompt@
                == inject_patch_approval_spec(
                pre.cfg.approval_template@,
                num_files as nat,
                reason_text(reason),
                pre.cfg.config_content@,
                changes_rendered@,
            )
        },
        AgentEvent::TaskStarted => only_calls_grow(pre, post) && is_system_entry(
            post.tool_calls@.last(),
            "event_taskstarted_"@,
            now_millis,
            "task_started"@,
            "{}"@,
        ) && a == DemuxAction::Continue,
        AgentEvent::TokenCount { info } => only_calls_grow(pre, post) && is_system_entry(
            post.tool_calls@.last(),
            "event_tokencount_"@,
            now_millis,
            "token_count"@,
            info@,
        ) && a == DemuxAction::Continue,
        AgentEvent::BackgroundEvent { message } => only_calls_grow(pre, post) && is_system_entry(
            post.tool_calls@.last(),
            "event_background_"@,
            now_millis,
            "background_event"@,
            bg_args_json(message@),
        ) && a == DemuxAction::Continue,
        AgentEvent::PatchApplyBegin { call_id, details } => {
            &&& only_calls_grow(pre, post)
            &&& {
                let tc = post.tool_calls@.last();
                &&& tc.id@ == "patch_"@ + call_id@
                &&& tc.kind is Function
                &&& tc.name@ == "apply_patch"@
                &&& tc.arguments@ == details@
                &&& tc.timestamp matches Some(t) && t@ == now
            }
            &&& a == DemuxAction::Continue
        },
        AgentEvent::PatchApplyEnd { call_id, details } => only_resps_grow(pre, post) && is_resp(
            post.tool_responses@.last(),
            "patch_"@ + call_id@,
            details@,
            Some(now),
        ) && a == DemuxAction::Continue,
        AgentEvent::TaskComplete => only_phase_changes(pre, post) && post.phase is Done && a
            == DemuxAction::Done,
        AgentEvent::ErrorEvent { .. } => only_phase_changes(pre, post) && post.phase is Done && a
            == DemuxAction::Done,
        AgentEvent::Other => post == pre && a == DemuxAction::Continue,
    }
}

/// The step taken for the driver's reply to a bugcrowd approval prompt:
/// approval records the call and lets it run; denial records only a
/// synthetic denial response and remembers the id, so that the later
/// completion event is dropped.
pub open spec fn bugcrowd_reply_ok(
    pre: DemuxState,
    call_id: String,
    tool: String,
    arguments: Option<String>,
    now: Seq<char>,
    result: Result<String, String>,
    post: DemuxState,
    a: DemuxAction,
) -> bool {
    match result {
        Ok(resp) => if approval_verdict(resp@) {
            post.cfg == pre.cfg && post.assistant == pre.assistant && post.reasoning
                == pre.reasoning && post.tool_responses == pre.tool_responses && post.denied
                == pre.denied && pushed_calls(pre.tool_calls@, post.tool_calls@) && is_mcp_call(
                post.tool_calls@.last(),
                call_id@,
                tool@,
                arguments,
                now,
            ) && post.phase is Collecting && a == DemuxAction::Continue
        } else {
            post.cfg == pre.cfg && post.assistant == pre.assistant && post.reasoning
                == pre.reasoning && post.tool_calls == pre.tool_calls && pushed_resps(
                pre.tool_responses@,
                post.tool_responses@,
            ) && is_resp(
                post.tool_responses@.last(),
                call_id@,
                "❌ Bugcrowd submission denied by security review: "@ + approval_reason(resp@),
                None,
            ) && post.denied@.len() == pre.denied@.len() + 1 && post.denied@.take(
                pre.denied@.len() as int,
            ) == pre.denied@ && post.denied@.last()@ == call_id@ && post.phase is Collecting && a
                == DemuxAction::Continue
        },
        Err(e) => post.cfg == pre.cfg && post.assistant == pre.assistant && post.reasoning
            == pre.reasoning && post.tool_calls == pre.tool_calls && post.denied == pre.denied
            && pushed_resps(pre.tool_responses@, post.tool_responses@) && is_resp(
            post.tool_responses@.last(),
            call_id@,
            "❌ Bugcrowd submission failed due to approval error: "@ + e@,
            None,
        ) && post.phase is Collecting && a == DemuxAction::Continue,
    }
}

/// The step taken for the driver's reply to a command or patch approval
/// prompt: any reply containing "approve" approves, anything else —
/// including a transport error — denies; the decision is recorded and
/// submitted back to the agent.
pub open spec fn approval_reply_ok(
    pre: DemuxState,
    approval_id: String,
    event_id: String,
    is_patch: bool,
    result: Result<String, String>,
    post: DemuxState,
    a: DemuxAction,
) -> bool {
    let approved = match result {
        Ok(resp) => general_approval(resp@),
        Err(_) => false,
    };
    post.cfg == pre.cfg && post.assistant == pre.assistant && post.reasoning == pre.reasoning
        && post.tool_calls == pre.tool_calls && post.denied == pre.denied && pushed_resps(
        pre.tool_responses@,
        post.tool_responses@,
    ) && is_resp(
        post.tool_responses@.last(),
        approval_id@,
        if is_patch {
            patch_decision_json(approved)
        } else {
            exec_decision_json(approved)
        },
        None,
    ) && post.phase is Collecting && (if is_patch {
        a matches DemuxAction::SubmitPatch { event_id: e, approved: ap } && e@ == event_id@ && ap
            == approved
    } else {
        a matches DemuxAction::SubmitExec { event_id: e, approved: ap } && e@ == event_id@ && ap
            == approved
    })
}

/// The machine's full transition relation: what one step does, for every
/// state and input.
pub open spec fn step_ok(
    pre: DemuxState,
    input: DemuxInput,
    post: DemuxState,
    a: DemuxAction,
) -> bool {
    if pre.phase is Done {
        post == pre && a == DemuxAction::Done
    } else if pre.phase is Aborted {
        post == pre && a == DemuxAction::Abort
    } else {
        match input {
            DemuxInput::StreamFailed => only_phase_changes(pre, post) && post.phase is Aborted
                && a == DemuxAction::Abort,
            DemuxInput::DriverReply { now, result } => match pre.phase {
                Phase::AwaitBugcrowd { call_id, tool, arguments } => bugcrowd_reply_ok(
                    pre,
                    call_id,
                    tool,
                    arguments,
                    now@,
                    result,
                    post,
                    a,
                ),
                Phase::AwaitExec { approval_id, event_id } => approval_reply_ok(
                    pre,
                    approval_id,
                    event_id,
                    false,
                    result,
                    post,
                    a,
                ),
                Phase::AwaitPatch { approval_id, event_id } => approval_reply_ok(
                    pre,
                    approval_id,
                    event_id,
                    true,
                    result,
                    post,
                    a,
                ),
                _ => post == pre && a == DemuxAction::Continue,
            },
            DemuxInput::Event { event_id, now, now_millis, event } => match pre.phase {
                Phase::Collecting => if event_id@ != pre.cfg.submission_id@ {
                    post == pre && a == DemuxAction::Continue
                } else {
                    event_ok(pre, now@, now_millis, event, post, a)
                },
                _ => post == pre && a == DemuxAction::Continue,
            },
        }
    }
}

fn denied_has(denied: &Vec<String>, id: &str) -> (r: bool)
    ensures
        r == denied_contains(denied@, id@),
{
    let mut k: usize = 0;
    while k < denied.len()
        invariant
            k <= denied@.len(),
            forall|j: int| 0 <= j < k ==> denied@[j]@ != id@,
        decreases denied@.len() - k,
    {
        if str_eq(denied[k].as_str(), id) {
            return true;
        }
        k = k + 1;
    }
    false
}

impl DemuxState {
    /// Takes one step: consumes one input and answers with the next
    /// action. The whole transition is pinned by `step_ok`.
    pub fn step(&mut self, input: DemuxInput) -> (a: DemuxAction)
        ensures
            step_ok(*old(self), input, *final(self), a),
    {
        match &self.phase {
            Phase::Done => {
                return DemuxAction::Done;
            },
            Phase::Aborted => {
                return DemuxAction::Abort;
            },
            _ => {},
        }
        match input {
            DemuxInput::StreamFailed => {
                self.phase = Phase::Aborted;
                DemuxAction::Abort
            },
            DemuxInput::DriverReply { now, result } => self.handle_reply(now, result),
            DemuxInput::Event { event_id, now, now_millis, event } => {
                match &self.phase {
                    Phase::Collecting => {
                        if !str_eq(event_id.as_str(), self.cfg.submission_id.as_str()) {
                            DemuxAction::Continue
                        } else {
                            self.handle_event(now, now_millis, event)
                        }
                    },
                    _ => DemuxAction::Continue,
                }
            },
        }
    }

    fn handle_reply(&mut self, now: String, result: Result<String, String>) -> (a: DemuxAction)
        requires
            !(old(self).phase is Done),
            !(old(self).phase is Aborted),
        ensures
            step_ok(*old(self), DemuxInput::DriverReply { now, result }, *final(self), a),
    {
        let mut ph = Phase::Collecting;
        core::mem::swap(&mut ph, &mut self.phase);
        match ph {
            Phase::AwaitBugcrowd { call_id, tool, arguments } => {
                match result {
                    Ok(resp) => {
                        let verdict = parse_approval_response(resp.as_str());
                        let approved = verdict.0;
                        let reasoning = verdict.1;
                        if approved {
                            let args_text = match &arguments {
                                Some(s) => s.clone(),
                                None => String::from_str("null"),
                            };
                            let tc = ToolCall {
                                id: call_id,
                                kind: ToolCallKind::Function,
                                name: tool,
                                arguments: args_text,
                                timestamp: Some(now),
                            };
                            self.tool_calls.push(tc);
                            proof {
                                assert(self.tool_calls@.take(old(self).tool_calls@.len() as int)
                                    =~= old(self).tool_calls@);
                            }
                            DemuxAction::Continue
                        } else {
                            let content = str2(
                                "❌ Bugcrowd submission denied by security review: ",
                                reasoning.as_str(),
                            );
                            self.tool_responses.push(
                                ToolResponse {
                                    tool_call_id: call_id.clone(),
                                    content,
                                    timestamp: None,
                                },
                            );
                            self.denied.push(call_id);
                            proof {
                                assert(self.tool_responses@.take(
                                    old(self).tool_responses@.len() as int,
                                ) =~= old(self).tool_responses@);
                                assert(self.denied@.take(old(self).denied@.len() as int) =~= old(
                                    self,
                                ).denied@);
                            }
                            DemuxAction::Continue
                        }
                    },
                    Err(e) => {
                        let content = str2(
                            "❌ Bugcrowd submission failed due to approval error: ",
                            e.as_str(),
                        );
                        self.tool_responses.push(
                            ToolResponse { tool_call_id: call_id, content, timestamp: None },
                        );
                        proof {
                            assert(self.tool_responses@.take(
                                old(self).tool_responses@.len() as int,
                            ) =~= old(self).tool_responses@);
                        }
                        DemuxAction::Continue
                    },
                }
            },
            Phase::AwaitExec { approval_id, event_id } => {
                let approved = match &result {
                    Ok(resp) => general_approval_granted(resp.as_str()),
                    Err(_) => false,
                };
                let content = if approved {
                    String::from_str(
                        "{\"decision\":\"Approved\",\"llm_response\":\"✅ Approved by external LLM\"}",
                    )
                } else {
                    String::from_str(
                        "{\"decision\":\"Denied\",\"llm_response\":\"❌ Denied by external LLM\"}",
                    )
                };
                self.tool_responses.push(
                    ToolResponse { tool_call_id: approval_id, content, timestamp: None },
                );
                proof {
                    assert(self.tool_responses@.take(old(self).tool_responses@.len() as int)
                        =~= old(self).tool_responses@);
                }
                DemuxAction::SubmitExec { event_id, approved }
            },
            Phase::AwaitPatch { approval_id, event_id } => {
                let approved = match &result {
                    Ok(resp) => general_approval_granted(resp.as_str()),
                    Err(_) => false,
                };
                let content = if approved {
                    String::from_str(
                        "{\"decision\":\"Approved\",\"llm_response\":\"✅ Patch approved by external LLM\"}",
                    )
                } else {
                    String::from_str(
                        "{\"decision\":\"Denied\",\"llm_response\":\"❌ Patch denied by external LLM\"}",
                    )
                };
                self.tool_responses.push(
                    ToolResponse { tool_call_id: approval_id, content, timestamp: None },
                );
                proof {
                    assert(self.tool_responses@.take(old(self).tool_responses@.len() as int)
                        =~= old(self).tool_responses@);
                }
                DemuxAction::SubmitPatch { event_id, approved }
            },
            Phase::Collecting => DemuxAction::Continue,
            Phase::Done => DemuxAction::Continue,
            Phase::Aborted => DemuxAction::Continue,
        }
    }

    fn handle_event(&mut self, now: String, now_millis: u64, event: AgentEvent) -> (a:
        DemuxAction)
        requires
            old(self).phase is Collecting,
        ensures
            event_ok(*old(self), now@, now_millis, event, *final(self), a),
    {
        match event {
            AgentEvent::AgentMessage { message } => {
                self.assistant.append(message.as_str());
                self.assistant.append("\n");
                proof {
                    assert(self.assistant@ =~= old(self).assistant@ + message@ + "\n"@);
                }
                DemuxAction::Continue
            },
            AgentEvent::AgentReasoning { text } => {
                self.reasoning.append(text.as_str());
                self.reasoning.append("\n");
                proof {
                    assert(self.reasoning@ =~= old(self).reasoning@ + text@ + "\n"@);
                }
                DemuxAction::Continue
            },
            AgentEvent::ExecCommandBegin { call_id, command } => {
                let id = str2("exec_", call_id.as_str());
                let list = render_json_string_list(&command);
                let args = str3("{\"command\":", list.as_str(), "}");
                let tc = ToolCall {
                    id,
                    kind: ToolCallKind::Function,
                    name: String::from_str("bash"),
                    arguments: args,
                    timestamp: Some(now),
                };
                self.tool_calls.push(tc);
                proof {
                    assert(self.tool_calls@.take(old(self).tool_calls@.len() as int) =~= old(
                        self,
                    ).tool_calls@);
                }
                DemuxAction::Continue
            },
            AgentEvent::ExecCommandEnd { call_id, exit_code, stdout, stderr } => {
                let mut content = String::from_str("{\"exit_code\":");
                let num = crate::text::i64_to_dec(exit_code);
                content.append(num.as_str());
                content.append(",\"stderr\":");
                crate::text::append_json_quoted(&mut content, stderr.as_str());
                content.append(",\"stdout\":");
                crate::text::append_json_quoted(&mut content, stdout.as_str());
                content.append("}");
                proof {
                    assert(content@ =~= exec_result_json(exit_code as int, stdout@, stderr@));
                }
                let id = str2("exec_", call_id.as_str());
                self.tool_responses.push(
                    ToolResponse { tool_call_id: id, content, timestamp: Some(now) },
                );
                proof {
                    assert(self.tool_responses@.take(old(self).tool_responses@.len() as int)
                        =~= old(self).tool_responses@);
                }
                DemuxAction::Continue
            },
            AgentEvent::McpToolCallBegin { call_id, tool, arguments } => {
                if str_eq(tool.as_str(), "bugcrowd_submit") {
                    let prompt = inject_bugcrowd_approval_variables(
                        self.cfg.bugcrowd_template.as_str(),
                        tool.as_str(),
                        &arguments,
                    );
                    self.phase = Phase::AwaitBugcrowd { call_id, tool, arguments };
                    DemuxAction::AskDriver { prompt }
                } else {
                    let args_text = match arguments {
                        Some(s) => s,
                        None => String::from_str("null"),
                    };
                    let tc = ToolCall {
                        id: call_id,
                        kind: ToolCallKind::Function,
                        name: tool,
                        arguments: args_text,
                        timestamp: Some(now),
                    };
                    self.tool_calls.push(tc);
                    proof {
                        assert(self.tool_calls@.take(old(self).tool_calls@.len() as int) =~= old(
                            self,
                        ).tool_calls@);
                    }
                    DemuxAction::Continue
                }
            },
            AgentEvent::McpToolCallEnd { call_id, result } => {
                if denied_has(&self.denied, call_id.as_str()) {
                    DemuxAction::Continue
                } else {
                    let content = match result {
                        Ok(p) => p,
                        Err(e) => str2("Error: ", e.as_str()),
                    };
                    self.tool_responses.push(
                        ToolResponse { tool_call_id: call_id, content, timestamp: Some(now) },
                    );
                    proof {
                        assert(self.tool_responses@.take(old(self).tool_responses@.len() as int)
                            =~= old(self).tool_responses@);
                    }
                    DemuxAction::Continue
                }
            },
            AgentEvent::ExecApprovalRequest { command, cwd, reason } => {
                let ms = u64_to_dec(now_millis);
                let approval_id = str2("approval_", ms.as_str());
                let list = render_json_string_list(&command);
                let mut args = String::from_str("{\"command\":");
                args.append(list.as_str());
                args.append(",\"cwd\":");
                crate::text::append_json_quoted(&mut args, cwd.as_str());
                args.append(",\"reason\":");
                match &reason {
                    Some(s) => crate::text::append_json_quoted(&mut args, s.as_str()),
                    None => args.append("null"),
                }
                args.append("}");
                proof {
                    assert(args@ =~= approval_args_json(command.deep_view(), cwd@, reason));
                }
                let prompt = inject_approval_variables_with_context(
                    self.cfg.approval_template.as_str(),
                    &command,
                    cwd.as_str(),
                    &reason,
                    self.cfg.config_content.as_str(),
                );
                let tc = ToolCall {
                    id: approval_id.clone(),
                    kind: ToolCallKind::Function,
                    name: String::from_str("request_approval"),
                    arguments: args,
                    timestamp: None,
                };
                self.tool_calls.push(tc);
                self.phase = Phase::AwaitExec {
                    approval_id,
                    event_id: self.cfg.submission_id.clone(),
                };
                proof {
                    assert(self.tool_calls@.take(old(self).tool_calls@.len() as int) =~= old(
                        self,
                    ).tool_calls@);
                }
                DemuxAction::AskDriver { prompt }
            },
            AgentEvent::ApplyPatchApprovalRequest { changes_rendered, num_files, reason } => {
                let ms = u64_to_dec(now_millis);
                let approval_id = str2("patch_approval_", ms.as_str());
                let mut args = String::from_str("{\"changes\":");
                crate::text::append_json_quoted(&mut args, changes_rendered.as_str());
                args.append(",\"reason\":");
                match &reason {
                    Some(s) => crate::text::append_json_quoted(&mut args, s.as_str()),
                    None => args.append("null"),
                }
                args.append("}");
                proof {
                    assert(args@ =~= patch_args_json(changes_rendered@, reason));
                }
                let prompt = inject_patch_approval_variables_with_context(
                    self.cfg.approval_template.as_str(),
                    changes_rendered.as_str(),
                    num_files,
                    &reason,
                    self.cfg.config_content.as_str(),
                );
                let tc = ToolCall {
                    id: approval_id.clone(),
                    kind: ToolCallKind::Function,
                    name: String::from_str("request_patch_approval"),
                    arguments: args,
                    timestamp: None,
                };
                self.tool_calls.push(tc);
                self.phase = Phase::AwaitPatch {
                    approval_id,
                    event_id: self.cfg.submission_id.clone(),
                };
                proof {
                    assert(self.tool_calls@.take(old(self).tool_calls@.len() as int) =~= old(
                        self,
                    ).tool_calls@);
                }
                DemuxAction::AskDriver { prompt }
            },
            AgentEvent::TaskStarted => {
                let ms = u64_to_dec(now_millis);
                let tc = ToolCall {
                    id: str2("event_taskstarted_", ms.as_str()),
                    kind: ToolCallKind::System,
                    name: String::from_str("task_started"),
                    arguments: String::from_str("{}"),
                    timestamp: None,
                };
                self.tool_calls.push(tc);
                proof {
                    assert(self.tool_calls@.take(old(self).tool_calls@.len() as int) =~= old(
                        self,
                    ).tool_calls@);
                }
                DemuxAction::Continue
            },
            AgentEvent::TokenCount { info } => {
                let ms = u64_to_dec(now_millis);
                let tc = ToolCall {
                    id: str2("event_tokencount_", ms.as_str()),
                    kind: ToolCallKind::System,
                    name: String::from_str("token_count"),
                    arguments: info,
                    timestamp: None,
                };
                self.tool_calls.push(tc);
                proof {
                    assert(self.tool_calls@.take(old(self).tool_calls@.len() as int) =~= old(
                        self,
                    ).tool_calls@);
                }
                DemuxAction::Continue
            },
            AgentEvent::BackgroundEvent { message } => {
                let ms = u64_to_dec(now_millis);
                let mut args = String::from_str("{\"message\":");
                crate::text::append_json_quoted(&mut args, message.as_str());
                args.append("}");
                proof {
                    assert(args@ =~= bg_args_json(message@));
                }
                let tc = ToolCall {
                    id: str2("event_background_", ms.as_str()),
                    kind: ToolCallKind::System,
                    name: String::from_str("background_event"),
                    arguments: args,
                    timestamp: None,
                };
                self.tool_calls.push(tc);
                proof {
                    assert(self.tool_calls@.take(old(self).tool_calls@.len() as int) =~= old(
                        self,
                    ).tool_calls@);
                }
                DemuxAction::Continue
            },
            AgentEvent::PatchApplyBegin { call_id, details } => {
                let tc = ToolCall {
                    id: str2("patch_", call_id.as_str()),
                    kind: ToolCallKind::Function,
                    name: String::from_str("apply_patch"),
                    arguments: details,
                    timestamp: Some(now),
                };
                self.tool_calls.push(tc);
                proof {
                    assert(self.tool_calls@.take(old(self).tool_calls@.len() as int) =~= old(
                        self,
                    ).tool_calls@);
                }
                DemuxAction::Continue
            },
            AgentEvent::PatchApplyEnd { call_id, details } => {
                let id = str2("patch_", call_id.as_str());
                self.tool_responses.push(
                    ToolResponse { tool_call_id: id, content: details, timestamp: Some(now) },
                );
                proof {
                    assert(self.tool_responses@.take(old(self).tool_responses@.len() as int)
                        =~= old(self).tool_responses@);
                }
                DemuxAction::Continue
            },
            AgentEvent::TaskComplete => {
                self.phase = Phase::Done;
                DemuxAction::Done
            },
            AgentEvent::ErrorEvent { .. } => {
                self.phase = Phase::Done;
                DemuxAction::Done
            },
            AgentEvent::Other => DemuxAction::Continue,
        }
    }
}

impl DemuxState {
    /// Closes the turn and hands out what was collected: the trimmed
    /// assistant text, the reasoning (absent when its buffer trims to
    /// nothing), and the calls and responses in arrival order. Nothing is
    /// handed out unless the turn completed: an aborted stream discards
    /// the partial buffers.
    pub fn extract_turn(self) -> (r: Option<TurnRecord>)
        ensures
            match r {
                Some(t) => {
                    &&& self.phase is Done
                    &&& t.assistant@ == trim_seq(self.assistant@)
                    &&& (t.reasoning is None <==> trim_seq(self.reasoning@).len() == 0)
                    &&& (t.reasoning matches Some(x) ==> x@ == trim_seq(self.reasoning@))
                    &&& t.tool_calls == self.tool_calls
                    &&& t.tool_responses == self.tool_responses
                    &&& (ids_closed(self) ==> turn_ids_ok(t))
                },
                None => !(self.phase is Done),
            },
    {
        match &self.phase {
            Phase::Done => {
                let assistant = String::from_str(crate::text::trim_str(self.assistant.as_str()));
                let rtrim = crate::text::trim_str(self.reasoning.as_str());
                let reasoning = if rtrim.unicode_len() == 0 {
                    None
                } else {
                    Some(String::from_str(rtrim))
                };
                let t = TurnRecord {
                    assistant,
                    reasoning,
                    tool_calls: self.tool_calls,
                    tool_responses: self.tool_responses,
                };
                proof {
                    if ids_closed(self) {
                        assert forall|k: int| 0 <= k < t.tool_responses@.len() implies has_call_id(
                            t.tool_calls@,
                            t.tool_responses@[k].tool_call_id@,
                        ) by {
                            assert(has_call_id(
                                self.tool_calls@,
                                self.tool_responses@[k].tool_call_id@,
                            ));
                        }
                    }
                }
                Some(t)
            },
            _ => None,
        }
    }
}

/// Every response recorded so far answers a call recorded so far.
pub open spec fn ids_closed(s: DemuxState) -> bool {
    forall|k: int|
        0 <= k < s.tool_responses@.len() ==> has_call_id(
            s.tool_calls@,
            s.tool_responses@[k].tool_call_id@,
        )
}

/// While an approval is pending, its synthetic call is already recorded.
pub open spec fn phase_anchored(s: DemuxState) -> bool {
    match s.phase {
        Phase::AwaitExec { approval_id, .. } => has_call_id(s.tool_calls@, approval_id@),
        Phase::AwaitPatch { approval_id, .. } => has_call_id(s.tool_calls@, approval_id@),
        _ => true,
    }
}

/// The inputs after which a step cannot record an orphan response: a
/// completion event is preceded by its begin event, and a pending
/// bugcrowd approval is granted. A denied or failed bugcrowd approval
/// records a response whose call was deliberately never recorded, so it
/// stands outside this condition.
pub open spec fn keeps_ids(pre: DemuxState, input: DemuxInput) -> bool {
    match input {
        DemuxInput::Event { event_id, event, .. } => event_id@ == pre.cfg.submission_id@
            ==> match event {
            AgentEvent::ExecCommandEnd { call_id, .. } => has_call_id(
                pre.tool_calls@,
                "exec_"@ + call_id@,
            ),
            AgentEvent::McpToolCallEnd { call_id, .. } => denied_contains(pre.denied@, call_id@)
                || has_call_id(pre.tool_calls@, call_id@),
            AgentEvent::PatchApplyEnd { call_id, .. } => has_call_id(
                pre.tool_calls@,
                "patch_"@ + call_id@,
            ),
            _ => true,
        },
        DemuxInput::DriverReply { result, .. } => match pre.phase {
            Phase::AwaitBugcrowd { .. } => result matches Ok(resp) && approval_verdict(resp@),
            _ => true,
        },
        DemuxInput::StreamFailed => true,
    }
}

proof fn lemma_pushed_calls_keep_ids(pre: Seq<ToolCall>, post: Seq<ToolCall>, id: Seq<char>)
    requires
        pushed_calls(pre, post),
        has_call_id(pre, id),
    ensures
        has_call_id(post, id),
{
    let k = choose|k: int| 0 <= k < pre.len() && pre[k].id@ == id;
    assert(post.take(pre.len() as int)[k] == post[k]);
}

/// One step of the machine keeps every response resolvable, given the
/// input is not an orphan end.
pub proof fn lemma_step_keeps_ids(
    pre: DemuxState,
    input: DemuxInput,
    post: DemuxState,
    a: DemuxAction,
)
    requires
        step_ok(pre, input, post, a),
        ids_closed(pre),
        phase_anchored(pre),
        keeps_ids(pre, input),
    ensures
        ids_closed(post),
        phase_anchored(post),
{
    if post.tool_calls@ == pre.tool_calls@ {
    } else {
        assert(pushed_calls(pre.tool_calls@, post.tool_calls@));
    }
    if pushed_calls(pre.tool_calls@, post.tool_calls@) {
        assert forall|k: int|
            0 <= k < pre.tool_calls@.len() implies post.tool_calls@[k] == pre.tool_calls@[k] by {
            assert(post.tool_calls@.take(pre.tool_calls@.len() as int)[k] == post.tool_calls@[k]);
        }
    }
    assert forall|k: int| 0 <= k < post.tool_responses@.len() implies has_call_id(
        post.tool_calls@,
        post.tool_responses@[k].tool_call_id@,
    ) by {
        if k < pre.tool_responses@.len() {
            if post.tool_responses@ != pre.tool_responses@ {
                assert(pushed_resps(pre.tool_responses@, post.tool_responses@));
                assert(post.tool_responses@.take(pre.tool_responses@.len() as int)[k]
                    == post.tool_responses@[k]);
            }
            assert(post.tool_responses@[k] == pre.tool_responses@[k]);
            let id = pre.tool_responses@[k].tool_call_id@;
            assert(has_call_id(pre.tool_calls@, id));
            if pushed_calls(pre.tool_calls@, post.tool_calls@) {
                lemma_pushed_calls_keep_ids(pre.tool_calls@, post.tool_calls@, id);
            }
        } else {
            let id = post.tool_responses@[k].tool_call_id@;
            assert(k == pre.tool_responses@.len());
            assert(post.tool_responses@[k] == post.tool_responses@.last());
        }
    }
}

/// How many recorded responses answer this id.
pub open spec fn count_for(rs: Seq<ToolResponse>, id: Seq<char>) -> nat
    decreases rs.len(),
{
    if rs.len() == 0 {
        0
    } else {
        count_for(rs.drop_last(), id) + (if rs.last().tool_call_id@ == id {
            1nat
        } else {
            0nat
        })
    }
}

proof fn lemma_count_push(rs: Seq<ToolResponse>, r: ToolResponse, id: Seq<char>)
    ensures
        count_for(rs.push(r), id) == count_for(rs, id) + (if r.tool_call_id@ == id {
            1nat
        } else {
            0nat
        }),
{
    assert(rs.push(r).drop_last() =~= rs);
    assert(rs.push(r).last() == r);
}

/// The inputs that could add a response carrying this very id.
pub open spec fn targets_id(pre: DemuxState, input: DemuxInput, id: Seq<char>) -> bool {
    match input {
        DemuxInput::Event { event_id, event, .. } => event_id@ == pre.cfg.submission_id@
            && match event {
            AgentEvent::ExecCommandEnd { call_id, .. } => "exec_"@ + call_id@ == id,
            AgentEvent::PatchApplyEnd { call_id, .. } => "patch_"@ + call_id@ == id,
            _ => false,
        },
        DemuxInput::DriverReply { .. } => match pre.phase {
            Phase::AwaitBugcrowd { call_id, .. } => call_id@ == id,
            Phase::AwaitExec { approval_id, .. } => approval_id@ == id,
            Phase::AwaitPatch { approval_id, .. } => approval_id@ == id,
            _ => false,
        },
        DemuxInput::StreamFailed => false,
    }
}

proof fn lemma_pushed_denied_keeps(pre: Seq<String>, post: Seq<String>, id: Seq<char>)
    requires
        post.len() == pre.len() + 1,
        post.take(pre.len() as int) == pre,
        denied_contains(pre, id),
    ensures
        denied_contains(post, id),
{
    let k = choose|k: int| 0 <= k < pre.len() && pre[k]@ == id;
    assert(post.take(pre.len() as int)[k] == post[k]);
}

/// Once an id is denied, a step that does not target it adds no response
/// for it; in particular the tool's completion event is dropped outright.
pub proof fn lemma_denial_suppresses(
    pre: DemuxState,
    input: DemuxInput,
    post: DemuxState,
    a: DemuxAction,
    id: Seq<char>,
)
    requires
        step_ok(pre, input, post, a),
        denied_contains(pre.denied@, id),
        !targets_id(pre, input, id),
    ensures
        denied_contains(post.denied@, id),
        count_for(post.tool_responses@, id) == count_for(pre.tool_responses@, id),
{
    if post.denied@ != pre.denied@ {
        lemma_pushed_denied_keeps(pre.denied@, post.denied@, id);
    }
    if post.tool_responses@ != pre.tool_responses@ {
        assert(pushed_resps(pre.tool_responses@, post.tool_responses@));
        let r = post.tool_responses@.last();
        assert(post.tool_responses@ =~= pre.tool_responses@.push(r));
        lemma_count_push(pre.tool_responses@, r, id);
        assert(r.tool_call_id@ != id);
    }
}

/// A complete interaction of the machine: each step obeys the transition
/// relation.
pub open spec fn valid_trace(
    states: Seq<DemuxState>,
    inputs: Seq<DemuxInput>,
    actions: Seq<DemuxAction>,
) -> bool {
    &&& states.len() == inputs.len() + 1
    &&& actions.len() == inputs.len()
    &&& forall|i: int|
        0 <= i < inputs.len() ==> step_ok(states[i], inputs[i], states[i + 1], actions[i])
}

/// A bugcrowd denial suppresses everything that follows for that id:
/// over any further inputs that do not target the id themselves, the
/// denied id keeps exactly the responses it had — the synthetic denial —
/// and the later completion event adds nothing.
pub proof fn lemma_denial_suppresses_run(
    states: Seq<DemuxState>,
    inputs: Seq<DemuxInput>,
    actions: Seq<DemuxAction>,
    id: Seq<char>,
)
    requires
        valid_trace(states, inputs, actions),
        denied_contains(states[0].denied@, id),
        forall|i: int| 0 <= i < inputs.len() ==> !targets_id(states[i], inputs[i], id),
    ensures
        denied_contains(states.last().denied@, id),
        count_for(states.last().tool_responses@, id) == count_for(states[0].tool_responses@, id),
    decreases inputs.len(),
{
    if inputs.len() == 0 {
        assert(states.last() == states[0]);
    } else {
        lemma_denial_suppresses(states[0], inputs[0], states[1], actions[0], id);
        let states2 = states.skip(1);
        let inputs2 = inputs.skip(1);
        let actions2 = actions.skip(1);
        assert forall|i: int| 0 <= i < inputs2.len() implies step_ok(
            states2[i],
            inputs2[i],
            states2[i + 1],
            actions2[i],
        ) && !targets_id(states2[i], inputs2[i], id) by {
            assert(states2[i] == states[i + 1]);
            assert(states2[i + 1] == states[i + 2]);
            assert(inputs2[i] == inputs[i + 1]);
            assert(actions2[i] == actions[i + 1]);
        }
        lemma_denial_suppresses_run(states2, inputs2, actions2, id);
        assert(states2[0] == states[1]);
        assert(states2.last() == states.last());
    }
}

/// Over any run whose inputs keep ends after begins and whose bugcrowd
/// approvals are granted, every recorded response answers a recorded
/// call — the turn-level form of the log's id invariant.
pub proof fn lemma_ids_closed_run(
    states: Seq<DemuxState>,
    inputs: Seq<DemuxInput>,
    actions: Seq<DemuxAction>,
)
    requires
        valid_trace(states, inputs, actions),
        ids_closed(states[0]),
        phase_anchored(states[0]),
        forall|i: int| 0 <= i < inputs.len() ==> keeps_ids(states[i], inputs[i]),
    ensures
        ids_closed(states.last()),
        phase_anchored(states.last()),
    decreases inputs.len(),
{
    if inputs.len() == 0 {
        assert(states.last() == states[0]);
    } else {
        lemma_step_keeps_ids(states[0], inputs[0], states[1], actions[0]);
        let states2 = states.skip(1);
        let inputs2 = inputs.skip(1);
        let actions2 = actions.skip(1);
        assert forall|i: int| 0 <= i < inputs2.len() implies step_ok(
            states2[i],
            inputs2[i],
            states2[i + 1],
            actions2[i],
        ) && keeps_ids(states2[i], inputs2[i]) by {
            assert(states2[i] == states[i + 1]);
            assert(states2[i + 1] == states[i + 2]);
            assert(inputs2[i] == inputs[i + 1]);
            assert(actions2[i] == actions[i + 1]);
        }
        lemma_ids_closed_run(states2, inputs2, actions2);
        assert(states2[0] == states[1]);
        assert(states2.last() == states.last());
    }
}

/// A fresh demultiplexer for one submission.
pub fn new_demux(cfg: DemuxConfig) -> (r: DemuxState)
    ensures
        r.cfg == cfg,
        r.assistant@ == Seq::<char>::empty(),
        r.reasoning@ == Seq::<char>::empty(),
        r.tool_calls@ == Seq::<ToolCall>::empty(),
        r.tool_responses@ == Seq::<ToolResponse>::empty(),
        r.denied@ == Seq::<String>::empty(),
        r.phase is Collecting,
{
    DemuxState {
        cfg,
        assistant: String::new(),
        reasoning: String::new(),
        tool_calls: Vec::new(),
        tool_responses: Vec::new(),
        denied: Vec::new(),
        phase: Phase::Collecting,
    }
}

} // verus!
