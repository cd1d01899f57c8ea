//! The iteration controller's bookkeeping: the session state, the append
//! points of the conversation log, template selection, the resume scan,
//! and the Context rebuild rule. The outer loop drives these steps and
//! performs the I/O between them.

use vstd::prelude::*;
use crate::log::{
    apply_agent_turn, has_call_id, is_system, new_session_log, record_offers_id, reply_id,
    system_once, tool_ids_ok, turn_ids_ok, turn_records, Record, ToolCall, ToolCallKind,
    TurnRecord,
};
use crate::render::{render_context, render_log};
use crate::text::{digit_val, digit_val_x, match_at, matches_at, str2, str4};
use crate::tools::ToolResult;

verus! {

/// Which prompt template a turn uses.
#[derive(Clone, Copy, Debug, PartialEq, Eq, Structural)]
pub enum TemplateKind {
    Initial,
    Continuation,
}

/// The controller's whole in-memory state.
pub struct LoopState {
    /// The conversation log; mutated only at the append points below.
    pub log: Vec<Record>,
    /// The rendered Context fed into driver prompts.
    pub context: String,
    /// The iteration counter; the next turn is numbered one higher.
    pub iteration: u64,
    /// Set once the `finished` supervisor tool ran; honoured after the
    /// iteration's checkpoint.
    pub finished: bool,
}

/// The state of a fresh session: the log holds exactly the system
/// prompt, the Context is empty, and no iteration has run.
pub fn new_session_state(system_prompt: String) -> (r: LoopState)
    ensures
        r.log@ == seq![Record::System { content: system_prompt }],
        system_once(r.log@),
        tool_ids_ok(r.log@),
        r.context@ == Seq::<char>::empty(),
        r.iteration == 0,
        !r.finished,
{
    let log = new_session_log(system_prompt);
    LoopState { log, context: String::new(), iteration: 0, finished: false }
}

/// A file name of the form `iteration_NNN.json`.
pub open spec fn is_iter_file(name: Seq<char>) -> bool {
    &&& name.len() >= 15
    &&& matches_at(name, "iteration_"@, 0)
    &&& matches_at(name, ".json"@, name.len() - 5)
}

/// The value of a three-character iteration field, read the way an
/// unsigned parse reads it: three digits, or a plus sign and two digits.
pub open spec fn parse3_spec(c0: char, c1: char, c2: char) -> Option<nat> {
    match (digit_val(c0), digit_val(c1), digit_val(c2)) {
        (Some(a), Some(b), Some(c)) => Some((100 * a + 10 * b + c) as nat),
        (None, Some(b), Some(c)) => if c0 == '+' {
            Some((10 * b + c) as nat)
        } else {
            None
        },
        _ => None,
    }
}

/// What one file name contributes to the resume scan.
pub open spec fn iter_entry_val(name: Seq<char>) -> nat {
    if is_iter_file(name) {
        match parse3_spec(name[10], name[11], name[12]) {
            Some(v) => v,
            None => 0,
        }
    } else {
        0
    }
}

/// The highest iteration number among the given file names, from
/// position `i` on.
pub open spec fn max_iter_from(names: Seq<Seq<char>>, i: int) -> nat
    decreases names.len() - i,
{
    if i < 0 || i >= names.len() {
        0
    } else {
        let head = iter_entry_val(names[i]);
        let rest = max_iter_from(names, i + 1);
        if head >= rest {
            head
        } else {
            rest
        }
    }
}

fn entry_val(name: &str) -> (r: u32)
    ensures
        r as nat == iter_entry_val(name@),
{
    proof {
        reveal_strlit("iteration_");
        reveal_strlit(".json");
    }
    let len = name.unicode_len();
    if len < 15 {
        return 0;
    }
    if !match_at(name, "iteration_", 0, len, 10) {
        return 0;
    }
    if !match_at(name, ".json", len - 5, len, 5) {
        return 0;
    }
    let c0 = name.get_char(10);
    let c1 = name.get_char(11);
    let c2 = name.get_char(12);
    let d1 = digit_val_x(c1);
    let d2 = digit_val_x(c2);
    match (digit_val_x(c0), d1, d2) {
        (Some(a), Some(b), Some(c)) => 100 * a + 10 * b + c,
        (None, Some(b), Some(c)) => {
            if c0 == '+' {
                10 * b + c
            } else {
                0
            }
        },
        _ => 0,
    }
}

/// Scans checkpoint file names for the highest iteration number written.
pub fn scan_max_iteration(filenames: &Vec<String>) -> (r: u32)
    ensures
        r as nat == max_iter_from(filenames.deep_view(), 0),
{
    let ghost names = filenames.deep_view();
    let mut acc: u32 = 0;
    let mut i: usize = 0;
    while i < filenames.len()
        invariant
            i <= filenames@.len(),
            names == filenames.deep_view(),
            names.len() == filenames@.len(),
            acc <= 999,
            max_iter_from(names, 0) == if acc as nat >= max_iter_from(names, i as int) {
                acc as nat
            } else {
                max_iter_from(names, i as int)
            },
        decreases filenames@.len() - i,
    {
        let v = entry_val(filenames[i].as_str());
        proof {
            assert(names[i as int] == filenames@[i as int]@);
        }
        if v > acc {
            acc = v;
        }
        i = i + 1;
    }
    acc
}

/// The state resumed from an existing session directory: the Context is
/// the saved context file's text (or empty), the log is the saved log
/// (or empty), and the iteration counter stands at the highest
/// checkpoint number found, so that the next turn is numbered one
/// higher. No system record is appended on resume.
pub fn resumed_state(
    context_text: Option<String>,
    loaded_log: Option<Vec<Record>>,
    filenames: &Vec<String>,
) -> (r: LoopState)
    ensures
        r.context == (match context_text {
            Some(c) => c,
            None => r.context,
        }),
        context_text is None ==> r.context@ == Seq::<char>::empty(),
        r.log == (match loaded_log {
            Some(l) => l,
            None => r.log,
        }),
        loaded_log is None ==> r.log@ == Seq::<Record>::empty(),
        r.iteration as nat == max_iter_from(filenames.deep_view(), 0),
        !r.finished,
{
    let context = match context_text {
        Some(c) => c,
        None => String::new(),
    };
    let log = match loaded_log {
        Some(l) => l,
        None => Vec::new(),
    };
    let iteration = scan_max_iteration(filenames) as u64;
    LoopState { log, context, iteration, finished: false }
}

/// Starts a turn: counts the iteration up and picks its template — the
/// very first iteration uses the initial template, every later one the
/// continuation template.
pub fn begin_turn(state: &mut LoopState) -> (kind: TemplateKind)
    requires
        old(state).iteration < u64::MAX,
    ensures
        final(state).iteration == old(state).iteration + 1,
        final(state).log == old(state).log,
        final(state).context == old(state).context,
        final(state).finished == old(state).finished,
        kind == (if final(state).iteration == 1 {
            TemplateKind::Initial
        } else {
            TemplateKind::Continuation
        }),
{
    state.iteration = state.iteration + 1;
    if state.iteration == 1 {
        TemplateKind::Initial
    } else {
        TemplateKind::Continuation
    }
}

/// Marks the session as finished; honoured after this iteration's
/// checkpoint.
pub fn set_finished(state: &mut LoopState)
    ensures
        final(state).finished,
        final(state).log == old(state).log,
        final(state).context == old(state).context,
        final(state).iteration == old(state).iteration,
{
    state.finished = true;
}

/// Appends the driver's instruction as a plain user record. The log
/// grows by one non-system record that resolves no worse than before.
pub fn record_driver_simple(state: &mut LoopState, text: String)
    ensures
        final(state).log@.len() == old(state).log@.len() + 1,
        final(state).log@.take(old(state).log@.len() as int) == old(state).log@,
        final(state).log@.last() matches Record::User { content, tool_calls } && content == text
            && tool_calls@ == Seq::<ToolCall>::empty(),
        system_once(old(state).log@) ==> system_once(final(state).log@),
        tool_ids_ok(old(state).log@) ==> tool_ids_ok(final(state).log@),
        final(state).context == old(state).context,
        final(state).iteration == old(state).iteration,
        final(state).finished == old(state).finished,
{
    let rec = Record::User { content: text, tool_calls: Vec::new() };
    state.log.push(rec);
    proof {
        let whole = state.log@;
        let pre = old(state).log@;
        assert(whole.take(pre.len() as int) =~= pre);
        if system_once(pre) {
            assert forall|i: int| 1 <= i < whole.len() implies !is_system(whole[i]) by {
                if i < pre.len() {
                    assert(whole[i] == pre[i]);
                }
            }
        }
        if tool_ids_ok(pre) {
            assert forall|i: int|
                0 <= i < whole.len() && reply_id(whole[i]) is Some implies exists|j: int|
                0 <= j < i && record_offers_id(whole[j], reply_id(whole[i])->Some_0) by {
                assert(whole[i] == pre[i]);
                let j = choose|j: int|
                    0 <= j < i && record_offers_id(pre[j], reply_id(pre[i])->Some_0);
                assert(whole[j] == pre[j]);
            }
        }
    }
}

/// The user-record mirror of one supervisor tool result.
pub open spec fn is_mirror(tc: ToolCall, t: ToolResult) -> bool {
    &&& tc.id == t.tool_call_id
    &&& tc.kind is Function
    &&& tc.name == t.tool_name
    &&& tc.arguments@ == "{}"@
    &&& tc.timestamp is None
}

fn mirror_calls(results: &Vec<ToolResult>) -> (r: Vec<ToolCall>)
    ensures
        r@.len() == results@.len(),
        forall|i: int| 0 <= i < results@.len() ==> is_mirror(#[trigger] r@[i], results@[i]),
{
    let mut out: Vec<ToolCall> = Vec::new();
    let mut i: usize = 0;
    while i < results.len()
        invariant
            i <= results@.len(),
            out@.len() == i,
            forall|j: int| 0 <= j < i ==> is_mirror(#[trigger] out@[j], results@[j]),
        decreases results@.len() - i,
    {
        let t = &results[i];
        out.push(
            ToolCall {
                id: t.tool_call_id.clone(),
                kind: ToolCallKind::Function,
                name: t.tool_name.clone(),
                arguments: String::from_str("{}"),
                timestamp: None,
            },
        );
        i = i + 1;
    }
    out
}

/// Appends the driver round that made supervisor tool calls: one user
/// record carrying the driver's text and a mirror of each call, then one
/// tool record per result. Every appended tool record resolves against
/// the mirror, so the log's id invariant is kept.
#[verifier::loop_isolation(false)]
pub fn record_driver_tools(state: &mut LoopState, text: String, results: &Vec<ToolResult>)
    ensures
        final(state).log@.len() == old(state).log@.len() + 1 + results@.len(),
        final(state).log@.take(old(state).log@.len() as int) == old(state).log@,
        final(state).log@[old(state).log@.len() as int] matches Record::User {
            content,
            tool_calls,
        } && content == text && tool_calls@.len() == results@.len() && (forall|i: int|
            0 <= i < results@.len() ==> is_mirror(#[trigger] tool_calls@[i], results@[i])),
        forall|i: int|
            0 <= i < results@.len() ==> match #[trigger] final(state).log@[old(
                state,
            ).log@.len() as int + 1 + i] {
                Record::ToolReply { tool_call_id, content, timestamp } => tool_call_id
                    == results@[i].tool_call_id && content == results@[i].content
                    && timestamp is None,
                _ => false,
            },
        system_once(old(state).log@) ==> system_once(final(state).log@),
        tool_ids_ok(old(state).log@) ==> tool_ids_ok(final(state).log@),
        final(state).context == old(state).context,
        final(state).iteration == old(state).iteration,
        final(state).finished == old(state).finished,
{
    let mirror = mirror_calls(results);
    let rec = Record::User { content: text, tool_calls: mirror };
    state.log.push(rec);
    let ghost base = old(state).log@.len() as int;
    let mut k: usize = 0;
    while k < results.len()
        invariant
            k <= results@.len(),
            state.log@.len() == base + 1 + k,
            state.log@.take(base) == old(state).log@,
            state.log@[base] matches Record::User { content, tool_calls } && content == text
                && tool_calls@.len() == results@.len() && (forall|i: int|
                0 <= i < results@.len() ==> is_mirror(#[trigger] tool_calls@[i], results@[i])),
            forall|i: int|
                0 <= i < k ==> match #[trigger] state.log@[base + 1 + i] {
                    Record::ToolReply { tool_call_id, content, timestamp } => tool_call_id
                        == results@[i].tool_call_id && content == results@[i].content
                        && timestamp is None,
                    _ => false,
                },
            state.context == old(state).context,
            state.iteration == old(state).iteration,
            state.finished == old(state).finished,
        decreases results@.len() - k,
    {
        let t = &results[k];
        let ghost prev = state.log@;
        let rec = Record::ToolReply {
            tool_call_id: t.tool_call_id.clone(),
            content: t.content.clone(),
            timestamp: None,
        };
        let ghost grec = rec;
        state.log.push(rec);
        proof {
            assert(state.log@ == prev.push(grec));
            assert forall|j: int| 0 <= j < prev.len() implies state.log@[j] == prev[j] by {
                assert(prev.push(grec)[j] == prev[j]);
            }
            assert forall|j: int| 0 <= j < base implies state.log@.take(base)[j] == old(
                state,
            ).log@[j] by {
                assert(state.log@.take(base)[j] == state.log@[j]);
                assert(prev.take(base)[j] == prev[j]);
            }
            assert(state.log@.take(base) =~= old(state).log@);
            assert(state.log@[base] == prev[base]);
            assert forall|i: int| 0 <= i < k + 1 implies match #[trigger] state.log@[base + 1
                + i] {
                Record::ToolReply { tool_call_id, content, timestamp } => tool_call_id
                    == results@[i].tool_call_id && content == results@[i].content
                    && timestamp is None,
                _ => false,
            } by {
                if i < k {
                    assert(state.log@[base + 1 + i] == prev[base + 1 + i]);
                } else {
                    assert(state.log@[base + 1 + i] == grec);
                }
            }
        }
        k = k + 1;
    }
    proof {
        let whole = state.log@;
        let pre = old(state).log@;
        assert forall|i: int| 0 <= i < pre.len() implies whole[i] == pre[i] by {
            assert(whole.take(base)[i] == whole[i]);
        }
        if system_once(pre) {
            assert forall|i: int| 1 <= i < whole.len() implies !is_system(whole[i]) by {
                if i < pre.len() {
                    assert(whole[i] == pre[i]);
                    assert(!is_system(pre[i]));
                } else if i == base {
                } else {
                    let off = i - base - 1;
                    assert(0 <= off < results@.len());
                    assert(whole[i] == state.log@[base + 1 + off]);
                }
            }
        }
        if tool_ids_ok(pre) {
            assert forall|i: int|
                0 <= i < whole.len() && reply_id(whole[i]) is Some implies exists|j: int|
                0 <= j < i && record_offers_id(whole[j], reply_id(whole[i])->Some_0) by {
                if i < pre.len() {
                    assert(whole[i] == pre[i]);
                    assert(reply_id(pre[i]) is Some);
                    let j = choose|j: int|
                        0 <= j < i && record_offers_id(pre[j], reply_id(pre[i])->Some_0);
                    assert(whole[j] == pre[j]);
                } else if i == base {
                    assert(reply_id(whole[i]) is None);
                } else {
                    let off = i - base - 1;
                    assert(0 <= off < results@.len());
                    assert(whole[i] == state.log@[base + 1 + off]);
                    let id = reply_id(whole[i])->Some_0;
                    assert(id == results@[off].tool_call_id@);
                    match whole[base] {
                        Record::User { tool_calls, .. } => {
                            assert(is_mirror(tool_calls@[off], results@[off]));
                            assert(tool_calls@[off].id@ == id);
                            assert(has_call_id(tool_calls@, id));
                        },
                        _ => {},
                    }
                    assert(record_offers_id(whole[base], id));
                }
            }
        }
    }
}

/// Appends one agent turn to the log, with the log's invariants carried
/// along: the log strictly grows, the system prompt stays unique, and —
/// when every turn response answers one of the turn's calls — every tool
/// record still resolves.
pub fn record_agent_turn(state: &mut LoopState, turn: TurnRecord)
    ensures
        final(state).log@ == old(state).log@ + turn_records(turn),
        final(state).log@.len() > old(state).log@.len(),
        system_once(old(state).log@) ==> system_once(final(state).log@),
        tool_ids_ok(old(state).log@) && turn_ids_ok(turn) ==> tool_ids_ok(final(state).log@),
        final(state).context == old(state).context,
        final(state).iteration == old(state).iteration,
        final(state).finished == old(state).finished,
{
    let ghost pre = state.log@;
    let ghost gturn = turn;
    apply_agent_turn(&mut state.log, turn);
    proof {
        if system_once(pre) {
            let appended = state.log@.skip(pre.len() as int);
            assert forall|i: int| 0 <= i < appended.len() implies !is_system(
                #[trigger] appended[i],
            ) by {
                assert(appended[i] == state.log@[pre.len() + i]);
            }
            crate::log::lemma_system_once_preserved(pre, appended);
            assert(pre + appended =~= state.log@);
        }
        if tool_ids_ok(pre) && turn_ids_ok(gturn) {
            crate::log::lemma_turn_preserves_tool_ids(pre, gturn);
        }
    }
}

/// Rebuilds the Context after an iteration: a summarised iteration keeps
/// the summary-based context as it stands; otherwise the Context is
/// rendered afresh from the conversation log — and from nothing else, so
/// an unsummarised iteration's context is exactly the rendering of its
/// log.
pub fn rebuild_context(state: &mut LoopState, summarized: bool, summary_context: String)
    ensures
        summarized ==> final(state).context == summary_context,
        !summarized ==> final(state).context@ == render_log(final(state).log@),
        final(state).log == old(state).log,
        final(state).iteration == old(state).iteration,
        final(state).finished == old(state).finished,
{
    if summarized {
        state.context = summary_context;
    } else {
        state.context = render_context(&state.log);
    }
}

/// The name shared by a session's logs directory and its backup mirror.
pub fn session_dir_name(session_timestamp: u64) -> (r: String)
    ensures
        r@ == "autonomous_session_"@ + crate::text::dec_spec(session_timestamp as nat),
{
    let ts = crate::text::u64_to_dec(session_timestamp);
    str2("autonomous_session_", ts.as_str())
}

/// Where a session's logs go: an explicit resume directory is reused as
/// it stands, an explicit logs directory overrides the default, and
/// otherwise a fresh timestamped directory under `./logs` is chosen.
pub fn choose_session_dir(
    resume_dir: Option<String>,
    logs_dir: Option<String>,
    session_timestamp: u64,
) -> (r: String)
    ensures
        (resume_dir matches Some(d) ==> r == d),
        resume_dir is None ==> (logs_dir matches Some(d) ==> r == d),
        resume_dir is None && logs_dir is None ==> r@ == "./logs/autonomous_session_"@
            + crate::text::dec_spec(session_timestamp as nat),
{
    match resume_dir {
        Some(d) => d,
        None => match logs_dir {
            Some(d) => d,
            None => {
                let name = session_dir_name(session_timestamp);
                let r = str2("./logs/", name.as_str());
                proof {
                    reveal_strlit("./logs/");
                    reveal_strlit("autonomous_session_");
                    reveal_strlit("./logs/autonomous_session_");
                    assert("./logs/"@ + "autonomous_session_"@ =~= "./logs/autonomous_session_"@);
                    assert(r@ =~= "./logs/autonomous_session_"@ + crate::text::dec_spec(
                        session_timestamp as nat,
                    ));
                }
                r
            },
        },
    }
}

/// Prepends root-level configuration overrides so that they carry lower
/// precedence than the overrides given after the subcommand.
pub fn prepend_config_flags(
    subcommand_config_overrides: &mut Vec<String>,
    cli_config_overrides: Vec<String>,
)
    ensures
        final(subcommand_config_overrides)@ == cli_config_overrides@ + old(
            subcommand_config_overrides,
        )@,
{
    let mut merged = cli_config_overrides;
    let mut rest = Vec::new();
    core::mem::swap(subcommand_config_overrides, &mut rest);
    let ghost gmerged = merged@;
    let mut i: usize = 0;
    proof {
        assert(rest@.take(0) =~= Seq::<String>::empty());
        assert(gmerged + rest@.take(0) =~= gmerged);
    }
    while i < rest.len()
        invariant
            i <= rest@.len(),
            merged@ == gmerged + rest@.take(i as int),
        decreases rest@.len() - i,
    {
        merged.push(rest[i].clone());
        proof {
            assert(rest@.take(i + 1) =~= rest@.take(i as int).push(rest@[i as int]));
            assert((gmerged + rest@.take(i as int)).push(rest@[i as int]) =~= gmerged + rest@.take(
                i + 1,
            ));
        }
        i = i + 1;
    }
    proof {
        assert(rest@.take(rest@.len() as int) =~= rest@);
    }
    core::mem::swap(subcommand_config_overrides, &mut merged);
}

/// The context carried into a follow-up driver call after supervisor
/// tools ran: the current context, a blank line, and the rendered tool
/// results.
pub open spec fn follow_up_context_spec(ctx: Seq<char>, results_pretty: Seq<char>) -> Seq<char> {
    ctx + "\n\nTool Results:\n"@ + results_pretty
}

/// Builds the follow-up driver context.
pub fn build_follow_up_context(ctx: &str, results_pretty: &str) -> (r: String)
    ensures
        r@ == follow_up_context_spec(ctx@, results_pretty@),
{
    let mut s = String::from_str(ctx);
    s.append("\n\nTool Results:\n");
    s.append(results_pretty);
    s
}

/// How the working context grows after the follow-up round: the
/// follow-up instruction is recorded under both speakers.
pub open spec fn extended_context_spec(ctx: Seq<char>, follow_up: Seq<char>) -> Seq<char> {
    ctx + "\n\nUSER: "@ + follow_up + "\n\nASSISTANT: "@ + follow_up
}

/// Extends the working context with the follow-up instruction.
pub fn extend_context_follow_up(ctx: &str, follow_up: &str) -> (r: String)
    ensures
        r@ == extended_context_spec(ctx@, follow_up@),
{
    let a = str4(ctx, "\n\nUSER: ", follow_up, "\n\nASSISTANT: ");
    str2(a.as_str(), follow_up)
}

} // verus!
