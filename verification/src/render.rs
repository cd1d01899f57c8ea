//! Rendering the conversation log into the Context: the one canonical,
//! human-readable transcript the driver model is prompted with.

use vstd::prelude::*;
use crate::log::{Record, ToolCall, ToolCallKind};
use crate::text::{append_json_quoted, join_open, json_quoted, lemma_join_open_snoc, str3};

verus! {

/// The `type` field of a recorded tool call, as a JSON string literal.
pub open spec fn kind_quoted(k: ToolCallKind) -> Seq<char> {
    match k {
        ToolCallKind::Function => "\"function\""@,
        ToolCallKind::System => "\"system\""@,
    }
}

/// The `timestamp` member of a rendered tool call, when there is one.
pub open spec fn ts_part(ts: Option<String>) -> Seq<char> {
    match ts {
        Some(t) => ",\n    \"timestamp\": "@ + json_quoted(t@),
        None => Seq::<char>::empty(),
    }
}

/// One tool call rendered as an indented JSON object, members in
/// alphabetical order.
pub open spec fn tc_block(tc: ToolCall) -> Seq<char> {
    "  {\n    \"function\": {\n      \"arguments\": "@ + json_quoted(tc.arguments@)
        + ",\n      \"name\": "@ + json_quoted(tc.name@) + "\n    },\n    \"id\": "@ + json_quoted(
        tc.id@,
    ) + ts_part(tc.timestamp) + ",\n    \"type\": "@ + kind_quoted(tc.kind) + "\n  }"@
}

/// The rendered blocks of the calls that are shown: synthetic system-kind
/// calls are filtered out.
pub open spec fn vis_blocks(tcs: Seq<ToolCall>) -> Seq<Seq<char>>
    decreases tcs.len(),
{
    if tcs.len() == 0 {
        Seq::<Seq<char>>::empty()
    } else if tcs[0].kind is Function {
        seq![tc_block(tcs[0])] + vis_blocks(tcs.skip(1))
    } else {
        vis_blocks(tcs.skip(1))
    }
}

proof fn lemma_vis_blocks_snoc(tcs: Seq<ToolCall>, tc: ToolCall)
    ensures
        tc.kind is Function ==> vis_blocks(tcs.push(tc)) == vis_blocks(tcs) + seq![tc_block(tc)],
        !(tc.kind is Function) ==> vis_blocks(tcs.push(tc)) == vis_blocks(tcs),
    decreases tcs.len(),
{
    if tcs.len() == 0 {
        assert(tcs.push(tc)[0] == tc);
        assert(tcs.push(tc).skip(1) =~= Seq::<ToolCall>::empty());
        assert(vis_blocks(tcs.push(tc).skip(1)) == Seq::<Seq<char>>::empty());
        if tc.kind is Function {
            assert(seq![tc_block(tc)] + Seq::<Seq<char>>::empty() =~= seq![tc_block(tc)]);
            assert(Seq::<Seq<char>>::empty() + seq![tc_block(tc)] =~= seq![tc_block(tc)]);
        }
    } else {
        lemma_vis_blocks_snoc(tcs.skip(1), tc);
        assert(tcs.push(tc)[0] == tcs[0]);
        assert(tcs.push(tc).skip(1) =~= tcs.skip(1).push(tc));
        if tc.kind is Function {
            if tcs[0].kind is Function {
                assert(seq![tc_block(tcs[0])] + (vis_blocks(tcs.skip(1)) + seq![tc_block(tc)]) =~= (
                seq![tc_block(tcs[0])] + vis_blocks(tcs.skip(1))) + seq![tc_block(tc)]);
            }
        }
    }
}

proof fn lemma_vis_nonempty(tcs: Seq<ToolCall>, i: int)
    requires
        0 <= i < tcs.len(),
        tcs[i].kind is Function,
    ensures
        vis_blocks(tcs).len() > 0,
    decreases i,
{
    if tcs[0].kind is Function {
    } else {
        lemma_vis_nonempty(tcs.skip(1), i - 1);
    }
}

/// The pretty form of a tool-call list, system-kind calls filtered out:
/// `[]` when nothing is shown, else one indented object per call.
pub open spec fn tc_pretty(tcs: Seq<ToolCall>) -> Seq<char> {
    let bs = vis_blocks(tcs);
    if bs.len() == 0 {
        "[]"@
    } else {
        "[\n"@ + join_open(bs, ",\n"@) + "\n]"@
    }
}

fn append_tc_block(out: &mut String, tc: &ToolCall)
    ensures
        final(out)@ == old(out)@ + tc_block(*tc),
{
    out.append("  {\n    \"function\": {\n      \"arguments\": ");
    append_json_quoted(out, tc.arguments.as_str());
    out.append(",\n      \"name\": ");
    append_json_quoted(out, tc.name.as_str());
    out.append("\n    },\n    \"id\": ");
    append_json_quoted(out, tc.id.as_str());
    match &tc.timestamp {
        Some(t) => {
            out.append(",\n    \"timestamp\": ");
            append_json_quoted(out, t.as_str());
        },
        None => {},
    }
    out.append(",\n    \"type\": ");
    match tc.kind {
        ToolCallKind::Function => out.append("\"function\""),
        ToolCallKind::System => out.append("\"system\""),
    }
    out.append("\n  }");
    proof {
        assert(out@ =~= old(out)@ + tc_block(*tc));
    }
}

/// Renders a tool-call list the way the Context shows it.
pub fn render_tool_calls(tcs: &Vec<ToolCall>) -> (r: String)
    ensures
        r@ == tc_pretty(tcs@),
{
    let mut body = String::new();
    let mut any = false;
    let mut i: usize = 0;
    proof {
        assert(tcs@.take(0) =~= Seq::<ToolCall>::empty());
    }
    while i < tcs.len()
        invariant
            i <= tcs@.len(),
            any == (vis_blocks(tcs@.take(i as int)).len() > 0),
            body@ == join_open(vis_blocks(tcs@.take(i as int)), ",\n"@),
        decreases tcs@.len() - i,
    {
        let tc = &tcs[i];
        proof {
            assert(tcs@.take(i + 1) =~= tcs@.take(i as int).push(tcs@[i as int]));
            lemma_vis_blocks_snoc(tcs@.take(i as int), tcs@[i as int]);
            lemma_join_open_snoc(vis_blocks(tcs@.take(i as int)), tc_block(tcs@[i as int]), ",\n"@);
        }
        match tc.kind {
            ToolCallKind::Function => {
                let ghost bs = vis_blocks(tcs@.take(i as int));
                let ghost before = body@;
                if any {
                    body.append(",\n");
                }
                append_tc_block(&mut body, tc);
                proof {
                    assert(bs.push(tc_block(tcs@[i as int])) =~= bs + seq![
                        tc_block(tcs@[i as int]),
                    ]);
                    if bs.len() == 0 {
                        assert(body@ =~= tc_block(tcs@[i as int]));
                    } else {
                        assert(body@ =~= before + (",\n"@ + tc_block(tcs@[i as int])));
                    }
                    assert(vis_blocks(tcs@.take(i + 1)) == bs.push(tc_block(tcs@[i as int])));
                }
                any = true;
            },
            ToolCallKind::System => {},
        }
        i = i + 1;
    }
    proof {
        assert(tcs@.take(tcs@.len() as int) =~= tcs@);
    }
    if any {
        str3("[\n", body.as_str(), "\n]")
    } else {
        String::from_str("[]")
    }
}

/// One record rendered as `ROLE: body` with a blank line after it. An
/// assistant tool-call record whose visible calls are empty renders to
/// nothing.
pub open spec fn render_record(r: Record) -> Seq<char> {
    match r {
        Record::System { content } => "SYSTEM: "@ + content@ + "\n\n"@,
        Record::User { content, .. } => "USER: "@ + content@ + "\n\n"@,
        Record::AssistantText { content } => "ASSISTANT: "@ + content@ + "\n\n"@,
        Record::AssistantReasoning { reasoning } => "ASSISTANT_REASONING: "@ + reasoning@
            + "\n\n"@,
        Record::AssistantToolCalls { tool_calls } => if vis_blocks(tool_calls@).len() == 0 {
            Seq::<char>::empty()
        } else {
            "ASSISTANT_TOOL_CALLS: "@ + tc_pretty(tool_calls@) + "\n\n"@
        },
        Record::ToolReply { content, .. } => "TOOL_RESPONSE: "@ + content@ + "\n\n"@,
    }
}

/// The Context: every record rendered, in log order.
pub open spec fn render_log(log: Seq<Record>) -> Seq<char>
    decreases log.len(),
{
    if log.len() == 0 {
        Seq::<char>::empty()
    } else {
        render_record(log[0]) + render_log(log.skip(1))
    }
}

/// How the rendering grows when one more record is appended.
pub proof fn lemma_render_log_snoc(log: Seq<Record>, r: Record)
    ensures
        render_log(log.push(r)) == render_log(log) + render_record(r),
    decreases log.len(),
{
    if log.len() == 0 {
        assert(log.push(r)[0] == r);
        assert(log.push(r).skip(1) =~= Seq::<Record>::empty());
        assert(render_log(log.push(r).skip(1)) == Seq::<char>::empty());
        assert(render_record(r) + Seq::<char>::empty() =~= render_record(r));
        assert(Seq::<char>::empty() + render_record(r) =~= render_record(r));
    } else {
        lemma_render_log_snoc(log.skip(1), r);
        assert(log.push(r)[0] == log[0]);
        assert(log.push(r).skip(1) =~= log.skip(1).push(r));
        assert(render_record(log[0]) + (render_log(log.skip(1)) + render_record(r)) =~= (
        render_record(log[0]) + render_log(log.skip(1))) + render_record(r));
    }
}

/// Rebuilds the Context from the conversation log. Rendering is a pure
/// function of the log, so rebuilding twice from the same log gives the
/// same text.
pub fn render_context(log: &Vec<Record>) -> (r: String)
    ensures
        r@ == render_log(log@),
{
    let mut out = String::new();
    let mut i: usize = 0;
    proof {
        assert(log@.take(0) =~= Seq::<Record>::empty());
    }
    while i < log.len()
        invariant
            i <= log@.len(),
            out@ == render_log(log@.take(i as int)),
        decreases log@.len() - i,
    {
        proof {
            assert(log@.take(i + 1) =~= log@.take(i as int).push(log@[i as int]));
            lemma_render_log_snoc(log@.take(i as int), log@[i as int]);
        }
        match &log[i] {
            Record::System { content } => {
                out.append("SYSTEM: ");
                out.append(content.as_str());
                out.append("\n\n");
            },
            Record::User { content, .. } => {
                out.append("USER: ");
                out.append(content.as_str());
                out.append("\n\n");
            },
            Record::AssistantText { content } => {
                out.append("ASSISTANT: ");
                out.append(content.as_str());
                out.append("\n\n");
            },
            Record::AssistantReasoning { reasoning } => {
                out.append("ASSISTANT_REASONING: ");
                out.append(reasoning.as_str());
                out.append("\n\n");
            },
            Record::AssistantToolCalls { tool_calls } => {
                let rendered = render_tool_calls(tool_calls);
                let visible = has_visible_calls(tool_calls);
                if visible {
                    out.append("ASSISTANT_TOOL_CALLS: ");
                    out.append(rendered.as_str());
                    out.append("\n\n");
                }
            },
            Record::ToolReply { content, .. } => {
                out.append("TOOL_RESPONSE: ");
                out.append(content.as_str());
                out.append("\n\n");
            },
        }
        proof {
            assert(out@ =~= render_log(log@.take(i + 1)));
        }
        i = i + 1;
    }
    proof {
        assert(log@.take(log@.len() as int) =~= log@);
    }
    out
}

/// Whether any call of the list is shown in the Context.
pub fn has_visible_calls(tcs: &Vec<ToolCall>) -> (r: bool)
    ensures
        r == (vis_blocks(tcs@).len() > 0),
{
    let mut i: usize = 0;
    proof {
        assert(tcs@.take(0) =~= Seq::<ToolCall>::empty());
    }
    while i < tcs.len()
        invariant
            i <= tcs@.len(),
            vis_blocks(tcs@.take(i as int)).len() == 0,
        decreases tcs@.len() - i,
    {
        proof {
            assert(tcs@.take(i + 1) =~= tcs@.take(i as int).push(tcs@[i as int]));
            lemma_vis_blocks_snoc(tcs@.take(i as int), tcs@[i as int]);
        }
        match tcs[i].kind {
            ToolCallKind::Function => {
                proof {
                    lemma_vis_nonempty(tcs@, i as int);
                }
                return true;
            },
            ToolCallKind::System => {},
        }
        i = i + 1;
    }
    proof {
        assert(tcs@.take(tcs@.len() as int) =~= tcs@);
    }
    false
}

} // verus!
