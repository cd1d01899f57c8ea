//! The driver client's verified half: folding a streamed model response
//! into text and tool calls, deciding whether a follow-up round is owed,
//! and building the follow-up conversation. The transport itself stays
//! outside.

use vstd::prelude::*;
use crate::log::{ToolCall, ToolCallKind};
use crate::text::{json_quoted, json_quote_str, trim_seq, trim_str};
use crate::tools::ToolResult;

verus! {

/// One item of a streamed model response, on plain values.
pub enum StreamItem {
    /// A piece of output text.
    TextPiece { text: String },
    /// A function-call intent.
    FunctionCall { call_id: String, name: String, arguments: String },
    /// The stream's completion marker; nothing after it is read.
    Completed,
    /// Anything else; ignored.
    Other,
}

/// The driver answered with no text at all.
#[derive(Clone, Copy, Debug, PartialEq, Eq, Structural)]
pub struct DriverError;

/// The text of a streamed response from position `i` on, cut at the
/// completion marker.
pub open spec fn fold_text_from(items: Seq<StreamItem>, i: int) -> Seq<char>
    decreases items.len() - i,
{
    if i < 0 || i >= items.len() {
        Seq::<char>::empty()
    } else {
        match items[i] {
            StreamItem::Completed => Seq::<char>::empty(),
            StreamItem::TextPiece { text } => text@ + fold_text_from(items, i + 1),
            _ => fold_text_from(items, i + 1),
        }
    }
}

/// A recorded driver tool call: the streamed intent, with no timestamp.
pub open spec fn is_driver_call(
    tc: ToolCall,
    call_id: Seq<char>,
    name: Seq<char>,
    arguments: Seq<char>,
) -> bool {
    &&& tc.id@ == call_id
    &&& tc.kind is Function
    &&& tc.name@ == name
    &&& tc.arguments@ == arguments
    &&& tc.timestamp is None
}

/// `calls` is exactly the function-call intents among the first `upto`
/// stream items, in order.
pub open spec fn calls_prefix_ok(items: Seq<StreamItem>, upto: int, calls: Seq<ToolCall>) -> bool
    decreases upto,
{
    if upto <= 0 {
        calls.len() == 0
    } else {
        match items[upto - 1] {
            StreamItem::FunctionCall { call_id, name, arguments } => calls.len() > 0
                && is_driver_call(calls.last(), call_id@, name@, arguments@) && calls_prefix_ok(
                items,
                upto - 1,
                calls.drop_last(),
            ),
            _ => calls_prefix_ok(items, upto - 1, calls),
        }
    }
}

/// Folds one streamed response: concatenates the text pieces and collects
/// the function-call intents, up to the completion marker. Also returns
/// where the stream stopped: the index of the completion marker, or the
/// item count when the stream ended without one.
pub fn collect_stream(items: &Vec<StreamItem>) -> (r: (String, Vec<ToolCall>, usize))
    ensures
        r.0@ == fold_text_from(items@, 0),
        r.2 <= items@.len(),
        forall|j: int| 0 <= j < r.2 ==> !(#[trigger] items@[j] is Completed),
        r.2 == items@.len() || items@[r.2 as int] is Completed,
        calls_prefix_ok(items@, r.2 as int, r.1@),
{
    let mut text = String::new();
    let mut calls: Vec<ToolCall> = Vec::new();
    let mut i: usize = 0;
    while i < items.len()
        invariant
            i <= items@.len(),
            fold_text_from(items@, 0) == text@ + fold_text_from(items@, i as int),
            calls_prefix_ok(items@, i as int, calls@),
            forall|j: int| 0 <= j < i ==> !(#[trigger] items@[j] is Completed),
        decreases items@.len() - i,
    {
        let ghost pre_text = text@;
        let ghost pre_calls = calls@;
        match &items[i] {
            StreamItem::Completed => {
                proof {
                    assert(fold_text_from(items@, i as int) =~= Seq::<char>::empty());
                    assert(text@ + Seq::<char>::empty() =~= text@);
                }
                return (text, calls, i);
            },
            StreamItem::TextPiece { text: piece } => {
                text.append(piece.as_str());
                proof {
                    assert(fold_text_from(items@, i as int) == piece@ + fold_text_from(
                        items@,
                        i + 1,
                    ));
                    assert(pre_text + (piece@ + fold_text_from(items@, i + 1)) =~= (pre_text
                        + piece@) + fold_text_from(items@, i + 1));
                }
            },
            StreamItem::FunctionCall { call_id, name, arguments } => {
                let tc = ToolCall {
                    id: call_id.clone(),
                    kind: ToolCallKind::Function,
                    name: name.clone(),
                    arguments: arguments.clone(),
                    timestamp: None,
                };
                calls.push(tc);
                proof {
                    assert(calls@.drop_last() =~= pre_calls);
                }
            },
            StreamItem::Other => {},
        }
        i = i + 1;
    }
    proof {
        assert(fold_text_from(items@, items@.len() as int) =~= Seq::<char>::empty());
        assert(text@ + Seq::<char>::empty() =~= text@);
    }
    (text, calls, i)
}

/// How the driver's first response is taken: tool calls ask for a
/// supervisor round; otherwise non-empty text, trimmed, is the final
/// instruction, and an empty response is an error.
pub enum DriverOutcome {
    FinalText { text: String },
    NeedsTools { text: String, calls: Vec<ToolCall> },
}

/// Decides what the driver's first streamed response calls for.
pub fn assess_first_response(text: String, calls: Vec<ToolCall>) -> (r: Result<
    DriverOutcome,
    DriverError,
>)
    ensures
        calls@.len() > 0 ==> (r matches Ok(o) && o matches DriverOutcome::NeedsTools {
            text: t,
            calls: c,
        } && t == text && c == calls),
        calls@.len() == 0 && text@.len() > 0 ==> (r matches Ok(o)
            && o matches DriverOutcome::FinalText { text: t } && t@ == trim_seq(text@)),
        calls@.len() == 0 && text@.len() == 0 ==> r is Err,
{
    if calls.len() > 0 {
        Ok(DriverOutcome::NeedsTools { text, calls })
    } else if text.as_str().unicode_len() == 0 {
        Err(DriverError)
    } else {
        Ok(DriverOutcome::FinalText { text: String::from_str(trim_str(text.as_str())) })
    }
}

/// The final text of a follow-up stream, trimmed.
pub fn finish_follow_up(text: String) -> (r: String)
    ensures
        r@ == trim_seq(text@),
{
    String::from_str(trim_str(text.as_str()))
}

/// One item of the follow-up conversation handed back to the driver
/// model after its tools ran.
pub enum HistoryItem {
    UserMsg { text: String },
    AssistantMsg { text: String },
    CallItem { call_id: String, name: String, arguments: String },
    OutputItem { call_id: String, content: String },
}

/// Builds the follow-up conversation: the driver prompt, the
/// assistant's trimmed text, its function calls (their arguments written
/// back as JSON string literals), then each tool's output.
pub fn build_follow_up_history(
    driver_prompt: &str,
    first_text: &str,
    calls: &Vec<ToolCall>,
    results: &Vec<ToolResult>,
) -> (r: Vec<HistoryItem>)
    ensures
        r@.len() == 2 + calls@.len() + results@.len(),
        match r@[0] {
            HistoryItem::UserMsg { text } => text@ == driver_prompt@,
            _ => false,
        },
        match r@[1] {
            HistoryItem::AssistantMsg { text } => text@ == trim_seq(first_text@),
            _ => false,
        },
        forall|i: int|
            0 <= i < calls@.len() ==> match #[trigger] r@[2 + i] {
                HistoryItem::CallItem { call_id, name, arguments } => call_id@ == calls@[i].id@
                    && name@ == calls@[i].name@ && arguments@ == json_quoted(calls@[i].arguments@),
                _ => false,
            },
        forall|i: int|
            0 <= i < results@.len() ==> match #[trigger] r@[2 + calls@.len() + i] {
                HistoryItem::OutputItem { call_id, content } => call_id@
                    == results@[i].tool_call_id@ && content@ == results@[i].content@,
                _ => false,
            },
{
    let mut out: Vec<HistoryItem> = Vec::new();
    out.push(HistoryItem::UserMsg { text: String::from_str(driver_prompt) });
    out.push(HistoryItem::AssistantMsg { text: String::from_str(trim_str(first_text)) });
    let mut i: usize = 0;
    while i < calls.len()
        invariant
            i <= calls@.len(),
            out@.len() == 2 + i,
            match out@[0] {
                HistoryItem::UserMsg { text } => text@ == driver_prompt@,
                _ => false,
            },
            match out@[1] {
                HistoryItem::AssistantMsg { text } => text@ == trim_seq(first_text@),
                _ => false,
            },
            forall|j: int|
                0 <= j < i ==> match #[trigger] out@[2 + j] {
                    HistoryItem::CallItem { call_id, name, arguments } => call_id@
                        == calls@[j].id@ && name@ == calls@[j].name@ && arguments@ == json_quoted(
                        calls@[j].arguments@,
                    ),
                    _ => false,
                },
        decreases calls@.len() - i,
    {
        let c = &calls[i];
        out.push(
            HistoryItem::CallItem {
                call_id: c.id.clone(),
                name: c.name.clone(),
                arguments: json_quote_str(c.arguments.as_str()),
            },
        );
        i = i + 1;
    }
    let mut k: usize = 0;
    while k < results.len()
        invariant
            k <= results@.len(),
            out@.len() == 2 + calls@.len() + k,
            match out@[0] {
                HistoryItem::UserMsg { text } => text@ == driver_prompt@,
                _ => false,
            },
            match out@[1] {
                HistoryItem::AssistantMsg { text } => text@ == trim_seq(first_text@),
                _ => false,
            },
            forall|j: int|
                0 <= j < calls@.len() ==> match #[trigger] out@[2 + j] {
                    HistoryItem::CallItem { call_id, name, arguments } => call_id@
                        == calls@[j].id@ && name@ == calls@[j].name@ && arguments@ == json_quoted(
                        calls@[j].arguments@,
                    ),
                    _ => false,
                },
            forall|j: int|
                0 <= j < k ==> match #[trigger] out@[2 + calls@.len() + j] {
                    HistoryItem::OutputItem { call_id, content } => call_id@
                        == results@[j].tool_call_id@ && content@ == results@[j].content@,
                    _ => false,
                },
        decreases results@.len() - k,
    {
        let t = &results[k];
        out.push(
            HistoryItem::OutputItem {
                call_id: t.tool_call_id.clone(),
                content: t.content.clone(),
            },
        );
        k = k + 1;
    }
    out
}

} // verus!
