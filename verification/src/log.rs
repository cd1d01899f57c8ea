//! The conversation log: the ordered, structured record of one session,
//! mutated only at the append points defined here.

use vstd::prelude::*;

verus! {

/// Whether a recorded tool call is a real function call or a synthetic
/// system event.
#[derive(Clone, Copy, Debug, PartialEq, Eq, Structural)]
pub enum ToolCallKind {
    Function,
    System,
}

/// One recorded tool call.
pub struct ToolCall {
    pub id: String,
    pub kind: ToolCallKind,
    pub name: String,
    pub arguments: String,
    pub timestamp: Option<String>,
}

/// One recorded tool response.
pub struct ToolResponse {
    pub tool_call_id: String,
    pub content: String,
    pub timestamp: Option<String>,
}

/// One message record of the conversation log.
pub enum Record {
    /// The static system prompt, written once at session start.
    System { content: String },
    /// A driver-produced user instruction, optionally reporting the
    /// driver's own tool calls.
    User { content: String, tool_calls: Vec<ToolCall> },
    /// The agent's final message of a turn.
    AssistantText { content: String },
    /// The agent's reasoning for a turn.
    AssistantReasoning { reasoning: String },
    /// The tool calls the agent made in a turn.
    AssistantToolCalls { tool_calls: Vec<ToolCall> },
    /// One tool response, tied to a call by its id.
    ToolReply { tool_call_id: String, content: String, timestamp: Option<String> },
}

/// Everything one agent turn contributes to the log.
pub struct TurnRecord {
    /// The agent's final message, trimmed.
    pub assistant: String,
    /// The agent's reasoning, absent when the buffer stayed empty.
    pub reasoning: Option<String>,
    pub tool_calls: Vec<ToolCall>,
    pub tool_responses: Vec<ToolResponse>,
}

/// A record is the system prompt.
pub open spec fn is_system(r: Record) -> bool {
    r is System
}

/// The id a tool-response record answers, if the record is one.
pub open spec fn reply_id(r: Record) -> Option<Seq<char>> {
    match r {
        Record::ToolReply { tool_call_id, .. } => Some(tool_call_id@),
        _ => None,
    }
}

/// Some call in the list carries this id.
pub open spec fn has_call_id(tcs: Seq<ToolCall>, id: Seq<char>) -> bool {
    exists|k: int| 0 <= k < tcs.len() && tcs[k].id@ == id
}

/// A record that can introduce a tool-call id: an assistant tool-call
/// record or a user record reporting driver tool calls.
pub open spec fn record_offers_id(r: Record, id: Seq<char>) -> bool {
    match r {
        Record::User { tool_calls, .. } => has_call_id(tool_calls@, id),
        Record::AssistantToolCalls { tool_calls } => has_call_id(tool_calls@, id),
        _ => false,
    }
}

/// Every tool response in the log answers a call introduced by an earlier
/// record.
pub open spec fn tool_ids_ok(log: Seq<Record>) -> bool {
    forall|i: int|
        0 <= i < log.len() && reply_id(log[i]) is Some ==> exists|j: int|
            0 <= j < i && record_offers_id(log[j], reply_id(log[i])->Some_0)
}

/// The system prompt stands exactly once, at index zero.
pub open spec fn system_once(log: Seq<Record>) -> bool {
    log.len() > 0 && is_system(log[0]) && forall|i: int| 1 <= i < log.len() ==> !is_system(log[i])
}

/// Every response of the turn answers one of the turn's own calls.
pub open spec fn turn_ids_ok(turn: TurnRecord) -> bool {
    forall|k: int|
        0 <= k < turn.tool_responses@.len() ==> has_call_id(
            turn.tool_calls@,
            turn.tool_responses@[k].tool_call_id@,
        )
}

/// The records an agent turn appends, in order: optional reasoning,
/// optional tool calls, all tool responses, then the final assistant
/// message.
pub open spec fn turn_records(turn: TurnRecord) -> Seq<Record> {
    reasoning_records(turn.reasoning) + calls_records(turn.tool_calls) + response_records(
        turn.tool_responses@,
    ) + seq![Record::AssistantText { content: turn.assistant }]
}

/// The reasoning record, when there is reasoning.
pub open spec fn reasoning_records(reasoning: Option<String>) -> Seq<Record> {
    match reasoning {
        Some(r) => seq![Record::AssistantReasoning { reasoning: r }],
        None => Seq::<Record>::empty(),
    }
}

/// The tool-call record, when the turn made tool calls.
pub open spec fn calls_records(tool_calls: Vec<ToolCall>) -> Seq<Record> {
    if tool_calls@.len() == 0 {
        Seq::<Record>::empty()
    } else {
        seq![Record::AssistantToolCalls { tool_calls: tool_calls }]
    }
}

/// One tool-response record per response, in arrival order.
pub open spec fn response_records(rs: Seq<ToolResponse>) -> Seq<Record> {
    rs.map_values(
        |r: ToolResponse|
            Record::ToolReply {
                tool_call_id: r.tool_call_id,
                content: r.content,
                timestamp: r.timestamp,
            },
    )
}

fn clone_opt_string(s: &Option<String>) -> (r: Option<String>)
    ensures
        r == *s,
{
    match s {
        Some(x) => Some(x.clone()),
        None => None,
    }
}

/// Appends one agent turn to the log: optional reasoning, optional tool
/// calls, the tool responses in order, then the final assistant message.
/// The log always grows, and nothing appended is a system record.
pub fn apply_agent_turn(log: &mut Vec<Record>, turn: TurnRecord)
    ensures
        final(log)@ == old(log)@ + turn_records(turn),
        final(log)@.len() > old(log)@.len(),
        forall|i: int|
            old(log)@.len() <= i < final(log)@.len() ==> !is_system(#[trigger] final(log)@[i]),
{
    let TurnRecord { assistant, reasoning, tool_calls, tool_responses } = turn;
    let ghost gturn = turn;
    match reasoning {
        Some(r) => {
            log.push(Record::AssistantReasoning { reasoning: r });
        },
        None => {},
    }
    if tool_calls.len() > 0 {
        log.push(Record::AssistantToolCalls { tool_calls });
    } else {
        proof {
            assert(calls_records(gturn.tool_calls) =~= Seq::<Record>::empty());
        }
    }
    let mut k: usize = 0;
    while k < tool_responses.len()
        invariant
            k <= tool_responses@.len(),
            tool_responses@ == gturn.tool_responses@,
            log@ == old(log)@ + reasoning_records(gturn.reasoning) + calls_records(
                gturn.tool_calls,
            ) + response_records(gturn.tool_responses@.take(k as int)),
        decreases tool_responses.len() - k,
    {
        let r = &tool_responses[k];
        let rec = Record::ToolReply {
            tool_call_id: r.tool_call_id.clone(),
            content: r.content.clone(),
            timestamp: clone_opt_string(&r.timestamp),
        };
        proof {
            assert(response_records(gturn.tool_responses@.take(k + 1)) =~= response_records(
                gturn.tool_responses@.take(k as int),
            ).push(
                Record::ToolReply {
                    tool_call_id: gturn.tool_responses@[k as int].tool_call_id,
                    content: gturn.tool_responses@[k as int].content,
                    timestamp: gturn.tool_responses@[k as int].timestamp,
                },
            ));
        }
        log.push(rec);
        k = k + 1;
    }
    proof {
        assert(gturn.tool_responses@.take(gturn.tool_responses@.len() as int)
            =~= gturn.tool_responses@);
    }
    log.push(Record::AssistantText { content: assistant });
    proof {
        assert(log@ =~= old(log)@ + turn_records(gturn));
    }
}

/// A fresh session's log: exactly the system prompt.
pub fn new_session_log(system_prompt: String) -> (r: Vec<Record>)
    ensures
        r@ == seq![Record::System { content: system_prompt }],
        system_once(r@),
{
    let mut v: Vec<Record> = Vec::new();
    v.push(Record::System { content: system_prompt });
    proof {
        assert(v@ =~= seq![Record::System { content: system_prompt }]);
    }
    v
}

/// Appending only non-system records keeps the system prompt unique and
/// in place.
pub proof fn lemma_system_once_preserved(log: Seq<Record>, appended: Seq<Record>)
    requires
        system_once(log),
        forall|i: int| 0 <= i < appended.len() ==> !is_system(#[trigger] appended[i]),
    ensures
        system_once(log + appended),
{
    let whole = log + appended;
    assert(whole[0] == log[0]);
    assert forall|i: int| 1 <= i < whole.len() implies !is_system(whole[i]) by {
        if i < log.len() {
            assert(whole[i] == log[i]);
        } else {
            assert(whole[i] == appended[i - log.len()]);
        }
    }
}

/// A session's log after any number of append rounds: the starting log
/// followed by each appended chunk in order.
pub open spec fn appended_log(initial: Seq<Record>, chunks: Seq<Seq<Record>>) -> Seq<Record>
    decreases chunks.len(),
{
    if chunks.len() == 0 {
        initial
    } else {
        appended_log(initial + chunks[0], chunks.skip(1))
    }
}

/// Over a whole session — however many driver rounds and agent turns are
/// appended — the system prompt stands exactly once, at index zero,
/// because no append round ever writes one.
pub proof fn lemma_session_system_once(initial: Seq<Record>, chunks: Seq<Seq<Record>>)
    requires
        system_once(initial),
        forall|c: int, i: int|
            0 <= c < chunks.len() && 0 <= i < chunks[c].len() ==> !is_system(#[trigger] chunks[c][i]),
    ensures
        system_once(appended_log(initial, chunks)),
    decreases chunks.len(),
{
    if chunks.len() > 0 {
        lemma_system_once_preserved(initial, chunks[0]);
        let rest = chunks.skip(1);
        assert forall|c: int, i: int|
            0 <= c < rest.len() && 0 <= i < rest[c].len() implies !is_system(
            #[trigger] rest[c][i],
        ) by {
            assert(rest[c] == chunks[c + 1]);
        }
        lemma_session_system_once(initial + chunks[0], rest);
    }
}

/// An empty reasoning buffer produces no reasoning record: a turn whose
/// reasoning is absent appends none.
pub proof fn lemma_no_reasoning_record(turn: TurnRecord)
    requires
        turn.reasoning is None,
    ensures
        forall|i: int|
            0 <= i < turn_records(turn).len() ==> !(#[trigger] turn_records(
                turn,
            )[i] is AssistantReasoning),
{
    let recs = turn_records(turn);
    let pre = reasoning_records(turn.reasoning);
    let calls = calls_records(turn.tool_calls);
    let resp = response_records(turn.tool_responses@);
    assert(pre.len() == 0);
    assert forall|i: int| 0 <= i < recs.len() implies !(#[trigger] recs[i] is AssistantReasoning)
        by {
        if i < calls.len() {
            assert(recs[i] == calls[i]);
        } else if i < calls.len() + resp.len() {
            assert(recs[i] == resp[i - calls.len()]);
        } else {
            assert(recs[i] == Record::AssistantText { content: turn.assistant });
        }
    }
}

/// Appending an agent turn whose responses all answer its own calls keeps
/// every tool response in the log resolvable to an earlier call record.
pub proof fn lemma_turn_preserves_tool_ids(log: Seq<Record>, turn: TurnRecord)
    requires
        tool_ids_ok(log),
        turn_ids_ok(turn),
    ensures
        tool_ids_ok(log + turn_records(turn)),
{
    let whole = log + turn_records(turn);
    let pre = reasoning_records(turn.reasoning);
    let calls = calls_records(turn.tool_calls);
    let resp = response_records(turn.tool_responses@);
    assert forall|i: int|
        0 <= i < whole.len() && reply_id(whole[i]) is Some implies exists|j: int|
        0 <= j < i && record_offers_id(whole[j], reply_id(whole[i])->Some_0) by {
        if i < log.len() {
            assert(whole[i] == log[i]);
            let j = choose|j: int| 0 <= j < i && record_offers_id(log[j], reply_id(log[i])->Some_0);
            assert(whole[j] == log[j]);
        } else {
            let off = i - log.len();
            if off < pre.len() {
                assert(whole[i] == pre[off]);
                assert(reply_id(whole[i]) is None);
            } else if off < pre.len() + calls.len() {
                assert(whole[i] == calls[off - pre.len()]);
                assert(reply_id(whole[i]) is None);
            } else if off < pre.len() + calls.len() + resp.len() {
                let k = off - pre.len() - calls.len();
                assert(whole[i] == resp[k]);
                let id = reply_id(whole[i])->Some_0;
                assert(id == turn.tool_responses@[k].tool_call_id@);
                assert(has_call_id(turn.tool_calls@, id));
                assert(turn.tool_calls@.len() > 0);
                let j: int = log.len() as int + pre.len() as int;
                assert(whole[j] == calls[0]);
                assert(record_offers_id(whole[j], id));
            } else {
                assert(whole[i] == Record::AssistantText { content: turn.assistant });
                assert(reply_id(whole[i]) is None);
            }
        }
    }
}

} // verus!
