//! Persistence: the exact text of every durable artifact — the
//! checkpointed conversation log, the session metadata, the heartbeat —
//! and the plan of file writes for one checkpoint, every copy mirrored
//! to the backup directory.

use vstd::prelude::*;
use crate::log::{Record, ToolCall, ToolCallKind};
use crate::render::kind_quoted;
use crate::text::{
    append_json_quoted, dec_spec, join_open, json_quoted, lemma_join_open_snoc, pad3_spec, str2,
    u64_to_dec, u64_to_pad3,
};

verus! {

/// One recorded tool call as a compact JSON object, members in
/// alphabetical order.
pub open spec fn tc_compact(tc: ToolCall) -> Seq<char> {
    "{\"function\":{\"arguments\":"@ + json_quoted(tc.arguments@) + ",\"name\":"@ + json_quoted(
        tc.name@,
    ) + "},\"id\":"@ + json_quoted(tc.id@) + (match tc.timestamp {
        Some(t) => ",\"timestamp\":"@ + json_quoted(t@),
        None => Seq::<char>::empty(),
    }) + ",\"type\":"@ + kind_quoted(tc.kind) + "}"@
}

/// A tool-call list as a compact JSON array.
pub open spec fn tc_array(tcs: Seq<ToolCall>) -> Seq<char> {
    if tcs.len() == 0 {
        "[]"@
    } else {
        "["@ + join_open(tcs.map_values(|tc: ToolCall| tc_compact(tc)), ","@) + "]"@
    }
}

fn append_tc_compact(out: &mut String, tc: &ToolCall)
    ensures
        final(out)@ == old(out)@ + tc_compact(*tc),
{
    out.append("{\"function\":{\"arguments\":");
    append_json_quoted(out, tc.arguments.as_str());
    out.append(",\"name\":");
    append_json_quoted(out, tc.name.as_str());
    out.append("},\"id\":");
    append_json_quoted(out, tc.id.as_str());
    match &tc.timestamp {
        Some(t) => {
            out.append(",\"timestamp\":");
            append_json_quoted(out, t.as_str());
        },
        None => {},
    }
    out.append(",\"type\":");
    match tc.kind {
        ToolCallKind::Function => out.append("\"function\""),
        ToolCallKind::System => out.append("\"system\""),
    }
    out.append("}");
    proof {
        assert(out@ =~= old(out)@ + tc_compact(*tc));
    }
}

fn append_tc_array(out: &mut String, tcs: &Vec<ToolCall>)
    ensures
        final(out)@ == old(out)@ + tc_array(tcs@),
{
    if tcs.len() == 0 {
        out.append("[]");
        return ;
    }
    out.append("[");
    let mut i: usize = 0;
    proof {
        assert(tcs@.take(0).map_values(|tc: ToolCall| tc_compact(tc))
            =~= Seq::<Seq<char>>::empty());
    }
    while i < tcs.len()
        invariant
            i <= tcs@.len(),
            out@ == old(out)@ + "["@ + join_open(
                tcs@.take(i as int).map_values(|tc: ToolCall| tc_compact(tc)),
                ","@,
            ),
        decreases tcs@.len() - i,
    {
        let ghost bs = tcs@.take(i as int).map_values(|tc: ToolCall| tc_compact(tc));
        let ghost before = out@;
        proof {
            assert(tcs@.take(i + 1).map_values(|tc: ToolCall| tc_compact(tc)) =~= bs.push(
                tc_compact(tcs@[i as int]),
            ));
            lemma_join_open_snoc(bs, tc_compact(tcs@[i as int]), ","@);
        }
        if i > 0 {
            out.append(",");
        }
        append_tc_compact(out, &tcs[i]);
        proof {
            assert(bs.len() == i);
            if i == 0 {
                assert(out@ =~= before + tc_compact(tcs@[i as int]));
                assert(old(out)@ + "["@ + (bs + seq![tc_compact(tcs@[i as int])])[0] =~= out@);
            } else {
                assert(out@ =~= (old(out)@ + "["@ + join_open(bs, ","@)) + (","@ + tc_compact(
                    tcs@[i as int],
                )));
                assert((old(out)@ + "["@ + join_open(bs, ","@)) + (","@ + tc_compact(
                    tcs@[i as int],
                )) =~= old(out)@ + "["@ + (join_open(bs, ","@) + (","@ + tc_compact(
                    tcs@[i as int],
                ))));
            }
        }
        i = i + 1;
    }
    out.append("]");
    proof {
        assert(tcs@.take(tcs@.len() as int) =~= tcs@);
        assert((old(out)@ + "["@ + join_open(tcs@.map_values(|tc: ToolCall| tc_compact(tc)), ","@))
            + "]"@ =~= old(out)@ + ("["@ + join_open(
            tcs@.map_values(|tc: ToolCall| tc_compact(tc)),
            ","@,
        ) + "]"@));
    }
}

/// One log record as an indented JSON object, members in alphabetical
/// order; an empty user tool-call list is omitted.
pub open spec fn record_json(r: Record) -> Seq<char> {
    match r {
        Record::System { content } => "  {\n    \"content\": "@ + json_quoted(content@)
            + ",\n    \"role\": \"system\"\n  }"@,
        Record::User { content, tool_calls } => if tool_calls@.len() == 0 {
            "  {\n    \"content\": "@ + json_quoted(content@) + ",\n    \"role\": \"user\"\n  }"@
        } else {
            "  {\n    \"content\": "@ + json_quoted(content@)
                + ",\n    \"role\": \"user\",\n    \"tool_calls\": "@ + tc_array(tool_calls@)
                + "\n  }"@
        },
        Record::AssistantText { content } => "  {\n    \"content\": "@ + json_quoted(content@)
            + ",\n    \"role\": \"assistant\"\n  }"@,
        Record::AssistantReasoning { reasoning } => "  {\n    \"content\": \"\",\n    \"reasoning\": "@
            + json_quoted(reasoning@) + ",\n    \"role\": \"assistant\"\n  }"@,
        Record::AssistantToolCalls { tool_calls } => "  {\n    \"content\": \"\",\n    \"role\": \"assistant\",\n    \"tool_calls\": "@
            + tc_array(tool_calls@) + "\n  }"@,
        Record::ToolReply { tool_call_id, content, timestamp } => "  {\n    \"content\": "@
            + json_quoted(content@) + ",\n    \"role\": \"tool\","@ + (match timestamp {
            Some(t) => "\n    \"timestamp\": "@ + json_quoted(t@) + ","@,
            None => Seq::<char>::empty(),
        }) + "\n    \"tool_call_id\": "@ + json_quoted(tool_call_id@) + "\n  }"@,
    }
}

/// The whole conversation log as a pretty JSON array of records.
pub open spec fn log_json(log: Seq<Record>) -> Seq<char> {
    if log.len() == 0 {
        "[]"@
    } else {
        "[\n"@ + join_open(log.map_values(|r: Record| record_json(r)), ",\n"@) + "\n]"@
    }
}

fn append_record_json(out: &mut String, r: &Record)
    ensures
        final(out)@ == old(out)@ + record_json(*r),
{
    match r {
        Record::System { content } => {
            out.append("  {\n    \"content\": ");
            append_json_quoted(out, content.as_str());
            out.append(",\n    \"role\": \"system\"\n  }");
        },
        Record::User { content, tool_calls } => {
            out.append("  {\n    \"content\": ");
            append_json_quoted(out, content.as_str());
            if tool_calls.len() == 0 {
                out.append(",\n    \"role\": \"user\"\n  }");
            } else {
                out.append(",\n    \"role\": \"user\",\n    \"tool_calls\": ");
                append_tc_array(out, tool_calls);
                out.append("\n  }");
            }
        },
        Record::AssistantText { content } => {
            out.append("  {\n    \"content\": ");
            append_json_quoted(out, content.as_str());
            out.append(",\n    \"role\": \"assistant\"\n  }");
        },
        Record::AssistantReasoning { reasoning } => {
            out.append("  {\n    \"content\": \"\",\n    \"reasoning\": ");
            append_json_quoted(out, reasoning.as_str());
            out.append(",\n    \"role\": \"assistant\"\n  }");
        },
        Record::AssistantToolCalls { tool_calls } => {
            out.append("  {\n    \"content\": \"\",\n    \"role\": \"assistant\",\n    \"tool_calls\": ");
            append_tc_array(out, tool_calls);
            out.append("\n  }");
        },
        Record::ToolReply { tool_call_id, content, timestamp } => {
            out.append("  {\n    \"content\": ");
            append_json_quoted(out, content.as_str());
            out.append(",\n    \"role\": \"tool\",");
            match timestamp {
                Some(t) => {
                    out.append("\n    \"timestamp\": ");
                    append_json_quoted(out, t.as_str());
                    out.append(",");
                },
                None => {},
            }
            out.append("\n    \"tool_call_id\": ");
            append_json_quoted(out, tool_call_id.as_str());
            out.append("\n  }");
        },
    }
    proof {
        assert(out@ =~= old(out)@ + record_json(*r));
    }
}

/// Renders the conversation log exactly as it is persisted.
pub fn render_log_json(log: &Vec<Record>) -> (r: String)
    ensures
        r@ == log_json(log@),
{
    if log.len() == 0 {
        return String::from_str("[]");
    }
    let mut body = String::new();
    let mut i: usize = 0;
    proof {
        assert(log@.take(0).map_values(|r: Record| record_json(r)) =~= Seq::<Seq<char>>::empty());
    }
    while i < log.len()
        invariant
            i <= log@.len(),
            body@ == join_open(log@.take(i as int).map_values(|r: Record| record_json(r)), ",\n"@),
        decreases log@.len() - i,
    {
        let ghost bs = log@.take(i as int).map_values(|r: Record| record_json(r));
        let ghost before = body@;
        proof {
            assert(log@.take(i + 1).map_values(|r: Record| record_json(r)) =~= bs.push(
                record_json(log@[i as int]),
            ));
            lemma_join_open_snoc(bs, record_json(log@[i as int]), ",\n"@);
        }
        if i > 0 {
            body.append(",\n");
        }
        append_record_json(&mut body, &log[i]);
        proof {
            assert(bs.len() == i);
            if i == 0 {
                assert(body@ =~= record_json(log@[i as int]));
            } else {
                assert(body@ =~= before + (",\n"@ + record_json(log@[i as int])));
            }
        }
        i = i + 1;
    }
    proof {
        assert(log@.take(log@.len() as int) =~= log@);
    }
    let mut out = String::from_str("[\n");
    out.append(body.as_str());
    out.append("\n]");
    proof {
        assert(out@ =~= log_json(log@));
    }
    out
}

/// The session metadata file's text.
pub open spec fn session_info_spec(
    session_start: u64,
    current_iteration: u64,
    elapsed_seconds: u64,
    last_updated: u64,
) -> Seq<char> {
    "{\n  \"current_iteration\": "@ + dec_spec(current_iteration as nat)
        + ",\n  \"elapsed_seconds\": "@ + dec_spec(elapsed_seconds as nat)
        + ",\n  \"last_updated\": "@ + dec_spec(last_updated as nat) + ",\n  \"session_start\": "@
        + dec_spec(session_start as nat) + "\n}"@
}

/// Builds `session_info.json`.
pub fn session_info_json(
    session_start: u64,
    current_iteration: u64,
    elapsed_seconds: u64,
    last_updated: u64,
) -> (r: String)
    ensures
        r@ == session_info_spec(session_start, current_iteration, elapsed_seconds, last_updated),
{
    let mut s = String::from_str("{\n  \"current_iteration\": ");
    let a = u64_to_dec(current_iteration);
    s.append(a.as_str());
    s.append(",\n  \"elapsed_seconds\": ");
    let b = u64_to_dec(elapsed_seconds);
    s.append(b.as_str());
    s.append(",\n  \"last_updated\": ");
    let c = u64_to_dec(last_updated);
    s.append(c.as_str());
    s.append(",\n  \"session_start\": ");
    let d = u64_to_dec(session_start);
    s.append(d.as_str());
    s.append("\n}");
    proof {
        assert(s@ =~= session_info_spec(
            session_start,
            current_iteration,
            elapsed_seconds,
            last_updated,
        ));
    }
    s
}

/// The loop's reported condition.
#[derive(Clone, Copy, Debug, PartialEq, Eq, Structural)]
pub enum SessionStatus {
    Running,
    Completed,
    Error,
}

/// The status word written into heartbeats.
pub open spec fn status_text(s: SessionStatus) -> Seq<char> {
    match s {
        SessionStatus::Running => "running"@,
        SessionStatus::Completed => "completed"@,
        SessionStatus::Error => "error"@,
    }
}

/// The heartbeat file's text.
pub open spec fn heartbeat_spec(
    timestamp_rfc3339: Seq<char>,
    iteration: u64,
    session_timestamp: u64,
    elapsed_seconds: u64,
    status: SessionStatus,
    pid: u64,
    config_file: Seq<char>,
    duration_minutes: u64,
    driver_model: Seq<char>,
    full_auto: bool,
) -> Seq<char> {
    "{\n  \"config_file\": "@ + json_quoted(config_file) + ",\n  \"driver_model\": "@
        + json_quoted(driver_model) + ",\n  \"duration_minutes\": "@ + dec_spec(
        duration_minutes as nat,
    ) + ",\n  \"elapsed_seconds\": "@ + dec_spec(elapsed_seconds as nat) + ",\n  \"full_auto\": "@
        + (if full_auto {
        "true"@
    } else {
        "false"@
    }) + ",\n  \"iteration\": "@ + dec_spec(iteration as nat) + ",\n  \"pid\": "@ + dec_spec(
        pid as nat,
    ) + ",\n  \"session_timestamp\": "@ + dec_spec(session_timestamp as nat)
        + ",\n  \"status\": "@ + json_quoted(status_text(status)) + ",\n  \"timestamp\": "@
        + json_quoted(timestamp_rfc3339) + "\n}"@
}

/// Builds a heartbeat file's text.
pub fn heartbeat_json(
    timestamp_rfc3339: &str,
    iteration: u64,
    session_timestamp: u64,
    elapsed_seconds: u64,
    status: SessionStatus,
    pid: u64,
    config_file: &str,
    duration_minutes: u64,
    driver_model: &str,
    full_auto: bool,
) -> (r: String)
    ensures
        r@ == heartbeat_spec(
            timestamp_rfc3339@,
            iteration,
            session_timestamp,
            elapsed_seconds,
            status,
            pid,
            config_file@,
            duration_minutes,
            driver_model@,
            full_auto,
        ),
{
    let mut s = String::from_str("{\n  \"config_file\": ");
    append_json_quoted(&mut s, config_file);
    s.append(",\n  \"driver_model\": ");
    append_json_quoted(&mut s, driver_model);
    s.append(",\n  \"duration_minutes\": ");
    let a = u64_to_dec(duration_minutes);
    s.append(a.as_str());
    s.append(",\n  \"elapsed_seconds\": ");
    let b = u64_to_dec(elapsed_seconds);
    s.append(b.as_str());
    s.append(",\n  \"full_auto\": ");
    if full_auto {
        s.append("true");
    } else {
        s.append("false");
    }
    s.append(",\n  \"iteration\": ");
    let c = u64_to_dec(iteration);
    s.append(c.as_str());
    s.append(",\n  \"pid\": ");
    let d = u64_to_dec(pid);
    s.append(d.as_str());
    s.append(",\n  \"session_timestamp\": ");
    let e = u64_to_dec(session_timestamp);
    s.append(e.as_str());
    s.append(",\n  \"status\": ");
    match status {
        SessionStatus::Running => s.append("\"running\""),
        SessionStatus::Completed => s.append("\"completed\""),
        SessionStatus::Error => s.append("\"error\""),
    }
    s.append(",\n  \"timestamp\": ");
    append_json_quoted(&mut s, timestamp_rfc3339);
    s.append("\n}");
    proof {
        match status {
            SessionStatus::Running => {
                assert("\"running\""@ =~= json_quoted(status_text(status))) by {
                    reveal_strlit("\"running\"");
                    reveal_strlit("running");
                    lemma_plain_json_quote("running"@);
                    assert("\"running\""@ =~= seq!['"'] + "running"@ + seq!['"']);
                }
            },
            SessionStatus::Completed => {
                assert("\"completed\""@ =~= json_quoted(status_text(status))) by {
                    reveal_strlit("\"completed\"");
                    reveal_strlit("completed");
                    lemma_plain_json_quote("completed"@);
                    assert("\"completed\""@ =~= seq!['"'] + "completed"@ + seq!['"']);
                }
            },
            SessionStatus::Error => {
                assert("\"error\""@ =~= json_quoted(status_text(status))) by {
                    reveal_strlit("\"error\"");
                    reveal_strlit("error");
                    lemma_plain_json_quote("error"@);
                    assert("\"error\""@ =~= seq!['"'] + "error"@ + seq!['"']);
                }
            },
        }
        assert(s@ =~= heartbeat_spec(
            timestamp_rfc3339@,
            iteration,
            session_timestamp,
            elapsed_seconds,
            status,
            pid,
            config_file@,
            duration_minutes,
            driver_model@,
            full_auto,
        ));
    }
    s
}

/// A sequence of plain letters needs no JSON escaping.
proof fn lemma_plain_json_quote(s: Seq<char>)
    requires
        forall|i: int| 0 <= i < s.len() ==> 'a' <= #[trigger] s[i] <= 'z',
    ensures
        crate::text::json_seq(s) == s,
    decreases s.len(),
{
    if s.len() == 0 {
        assert(crate::text::json_seq(s) =~= s);
    } else {
        assert(s[0] != '"' && s[0] != '\\');
        assert(0x61 <= s[0] as u32 <= 0x7A);
        lemma_plain_json_quote(s.skip(1));
        assert(crate::text::json_char(s[0]) =~= seq![s[0]]);
        assert(seq![s[0]] + s.skip(1) =~= s);
    }
}

/// Where a planned file write goes.
#[derive(Clone, Copy, Debug, PartialEq, Eq, Structural)]
pub enum Target {
    /// The session's own logs directory.
    Session,
    /// The mirrored backup directory under the home directory.
    Backup,
    /// The fixed global heartbeat path under the working logs directory.
    GlobalSession,
    /// The fixed global heartbeat path under the backup root.
    GlobalBackup,
}

/// One planned file write.
pub struct FileWrite {
    pub target: Target,
    pub name: String,
    pub content: String,
}

/// A planned write with these coordinates.
pub open spec fn is_write(w: FileWrite, t: Target, name: Seq<char>, content: Seq<char>) -> bool {
    w.target == t && w.name@ == name && w.content@ == content
}

/// The checkpoint file's name for this iteration.
pub open spec fn iter_file_name(iteration: u64) -> Seq<char> {
    "iteration_"@ + pad3_spec(iteration as nat) + ".json"@
}

/// Plans the file writes of one checkpoint. Every artifact goes to both
/// the session and the backup directory with identical content — in
/// particular, the two `latest.json` copies carry the very bytes of the
/// numbered checkpoint — and the heartbeat goes to the two fixed global
/// paths besides.
pub fn checkpoint_plan(
    iteration: u64,
    log_json_text: &str,
    info_json_text: &str,
    heartbeat_json_text: &str,
) -> (r: Vec<FileWrite>)
    ensures
        r@.len() == 10,
        is_write(r@[0], Target::Session, iter_file_name(iteration), log_json_text@),
        is_write(r@[1], Target::Backup, iter_file_name(iteration), log_json_text@),
        is_write(r@[2], Target::Session, "latest.json"@, log_json_text@),
        is_write(r@[3], Target::Backup, "latest.json"@, log_json_text@),
        is_write(r@[4], Target::Session, "session_info.json"@, info_json_text@),
        is_write(r@[5], Target::Backup, "session_info.json"@, info_json_text@),
        is_write(r@[6], Target::Session, "heartbeat.json"@, heartbeat_json_text@),
        is_write(r@[7], Target::Backup, "heartbeat.json"@, heartbeat_json_text@),
        is_write(
            r@[8],
            Target::GlobalSession,
            "latest_session_heartbeat.json"@,
            heartbeat_json_text@,
        ),
        is_write(
            r@[9],
            Target::GlobalBackup,
            "latest_session_heartbeat.json"@,
            heartbeat_json_text@,
        ),
{
    let pad = u64_to_pad3(iteration);
    let iter_name = str2("iteration_", pad.as_str());
    let iter_name = str2(iter_name.as_str(), ".json");
    let mut r: Vec<FileWrite> = Vec::new();
    r.push(
        FileWrite {
            target: Target::Session,
            name: iter_name.clone(),
            content: String::from_str(log_json_text),
        },
    );
    r.push(
        FileWrite {
            target: Target::Backup,
            name: iter_name,
            content: String::from_str(log_json_text),
        },
    );
    r.push(
        FileWrite {
            target: Target::Session,
            name: String::from_str("latest.json"),
            content: String::from_str(log_json_text),
        },
    );
    r.push(
        FileWrite {
            target: Target::Backup,
            name: String::from_str("latest.json"),
            content: String::from_str(log_json_text),
        },
    );
    r.push(
        FileWrite {
            target: Target::Session,
            name: String::from_str("session_info.json"),
            content: String::from_str(info_json_text),
        },
    );
    r.push(
        FileWrite {
            target: Target::Backup,
            name: String::from_str("session_info.json"),
            content: String::from_str(info_json_text),
        },
    );
    r.push(
        FileWrite {
            target: Target::Session,
            name: String::from_str("heartbeat.json"),
            content: String::from_str(heartbeat_json_text),
        },
    );
    r.push(
        FileWrite {
            target: Target::Backup,
            name: String::from_str("heartbeat.json"),
            content: String::from_str(heartbeat_json_text),
        },
    );
    r.push(
        FileWrite {
            target: Target::GlobalSession,
            name: String::from_str("latest_session_heartbeat.json"),
            content: String::from_str(heartbeat_json_text),
        },
    );
    r.push(
        FileWrite {
            target: Target::GlobalBackup,
            name: String::from_str("latest_session_heartbeat.json"),
            content: String::from_str(heartbeat_json_text),
        },
    );
    r
}

/// The Context file's write: the session directory's `context_log.txt`,
/// holding exactly the Context.
pub fn context_file_write(context: &str) -> (r: FileWrite)
    ensures
        is_write(r, Target::Session, "context_log.txt"@, context@),
{
    FileWrite {
        target: Target::Session,
        name: String::from_str("context_log.txt"),
        content: String::from_str(context),
    }
}

/// Both `latest.json` copies of a checkpoint plan carry the same text,
/// so the two directories always deserialise to the same record array.
pub proof fn lemma_latest_mirrored(r: Seq<FileWrite>, log_json_text: Seq<char>)
    requires
        r.len() == 10,
        is_write(r[2], Target::Session, "latest.json"@, log_json_text),
        is_write(r[3], Target::Backup, "latest.json"@, log_json_text),
    ensures
        r[2].content@ == r[3].content@,
        r[2].name@ == r[3].name@,
{
}

} // verus!
