//! The four supervisor tools the driver model may call. Their effects
//! (file writes, the webhook) happen outside; everything decided about
//! them — note formatting, listing order, payloads, response contents,
//! the session-termination flag — is verified here.

use vstd::prelude::*;
use vstd::multiset::Multiset;
use crate::text::{append_json_quoted, join_open, json_quoted, lemma_join_open_snoc, str2, str3};

verus! {

broadcast use vstd::seq_lib::group_to_multiset_ensures;

/// Lexicographic order on character sequences, by scalar value.
pub open spec fn lex_le(a: Seq<char>, b: Seq<char>) -> bool
    decreases a.len(),
{
    if a.len() == 0 {
        true
    } else if b.len() == 0 {
        false
    } else if (a[0] as u32) < (b[0] as u32) {
        true
    } else if (a[0] as u32) > (b[0] as u32) {
        false
    } else {
        lex_le(a.skip(1), b.skip(1))
    }
}

proof fn lemma_lex_refl(a: Seq<char>)
    ensures
        lex_le(a, a),
    decreases a.len(),
{
    if a.len() > 0 {
        lemma_lex_refl(a.skip(1));
    }
}

proof fn lemma_lex_total(a: Seq<char>, b: Seq<char>)
    ensures
        lex_le(a, b) || lex_le(b, a),
    decreases a.len(),
{
    if a.len() == 0 || b.len() == 0 {
    } else if (a[0] as u32) == (b[0] as u32) {
        lemma_lex_total(a.skip(1), b.skip(1));
    }
}

proof fn lemma_lex_trans(a: Seq<char>, b: Seq<char>, c: Seq<char>)
    requires
        lex_le(a, b),
        lex_le(b, c),
    ensures
        lex_le(a, c),
    decreases a.len(),
{
    if a.len() == 0 {
    } else {
        if b.len() == 0 {
        } else if c.len() == 0 {
        } else {
            if (a[0] as u32) == (b[0] as u32) && (b[0] as u32) == (c[0] as u32) {
                lemma_lex_trans(a.skip(1), b.skip(1), c.skip(1));
            }
        }
    }
}

proof fn lemma_lex_skip(a: Seq<char>, b: Seq<char>, i: int)
    requires
        0 <= i <= a.len(),
        i <= b.len(),
        forall|j: int| 0 <= j < i ==> a[j] == b[j],
    ensures
        lex_le(a, b) == lex_le(a.skip(i), b.skip(i)),
    decreases i,
{
    if i == 0 {
        assert(a.skip(0) =~= a);
        assert(b.skip(0) =~= b);
    } else {
        assert(a[0] == b[0]);
        lemma_lex_skip(a.skip(1), b.skip(1), i - 1);
        assert(a.skip(1).skip(i - 1) =~= a.skip(i));
        assert(b.skip(1).skip(i - 1) =~= b.skip(i));
    }
}

/// Executable lexicographic comparison of two strings.
pub fn str_le(a: &str, b: &str) -> (r: bool)
    ensures
        r == lex_le(a@, b@),
{
    let alen = a.unicode_len();
    let blen = b.unicode_len();
    let mut i: usize = 0;
    loop
        invariant
            i <= alen,
            i <= blen,
            alen == a@.len(),
            blen == b@.len(),
            forall|j: int| 0 <= j < i ==> a@[j] == b@[j],
        ensures
            i <= alen,
            i <= blen,
            forall|j: int| 0 <= j < i ==> a@[j] == b@[j],
            i == alen || i == blen || a@[i as int] != b@[i as int],
        decreases alen - i,
    {
        if i == alen || i == blen {
            break;
        }
        if a.get_char(i) != b.get_char(i) {
            break;
        }
        i = i + 1;
    }
    proof {
        lemma_lex_skip(a@, b@, i as int);
    }
    if i == alen {
        assert(a@.skip(i as int).len() == 0);
        true
    } else if i == blen {
        assert(b@.skip(i as int).len() == 0);
        assert(a@.skip(i as int).len() > 0);
        false
    } else {
        let ca = a.get_char(i);
        let cb = b.get_char(i);
        proof {
            assert(a@.skip(i as int)[0] == a@[i as int]);
            assert(b@.skip(i as int)[0] == b@[i as int]);
        }
        (ca as u32) < (cb as u32)
    }
}

/// One note file handed in by the platform: its file name and its text,
/// or the error that reading it gave.
pub struct NoteFile {
    pub name: String,
    pub content: Result<String, String>,
}

/// Adjacent names never decrease.
pub open spec fn sorted_by_name(files: Seq<NoteFile>) -> bool {
    forall|i: int, j: int| 0 <= i < j < files.len() ==> lex_le(files[i].name@, files[j].name@)
}

/// Sorts note files by file name (selection of the least remaining name),
/// so that reading returns the notes in filename order.
pub fn sort_notes(v: Vec<NoteFile>) -> (r: Vec<NoteFile>)
    ensures
        r@.to_multiset() == v@.to_multiset(),
        sorted_by_name(r@),
{
    let mut src = v;
    let mut out: Vec<NoteFile> = Vec::new();
    proof {
        assert(out@.to_multiset().add(src@.to_multiset()) =~= v@.to_multiset());
    }
    while src.len() > 0
        invariant
            out@.to_multiset().add(src@.to_multiset()) == v@.to_multiset(),
            sorted_by_name(out@),
            forall|i: int, j: int|
                0 <= i < out@.len() && 0 <= j < src@.len() ==> lex_le(
                    out@[i].name@,
                    src@[j].name@,
                ),
        decreases src@.len(),
    {
        let mut m: usize = 0;
        let mut k: usize = 1;
        proof {
            lemma_lex_refl(src@[0].name@);
        }
        while k < src.len()
            invariant
                m < k <= src@.len(),
                src@.len() > 0,
                forall|j: int| 0 <= j < k ==> lex_le(src@[m as int].name@, src@[j].name@),
            decreases src@.len() - k,
        {
            if str_le(src[k].name.as_str(), src[m].name.as_str()) {
                proof {
                    assert forall|j: int| 0 <= j < k + 1 implies lex_le(
                        src@[k as int].name@,
                        src@[j].name@,
                    ) by {
                        if j < k {
                            lemma_lex_trans(src@[k as int].name@, src@[m as int].name@,
                                src@[j].name@);
                        } else {
                            lemma_lex_refl(src@[k as int].name@);
                        }
                    }
                }
                m = k;
            } else {
                proof {
                    lemma_lex_total(src@[k as int].name@, src@[m as int].name@);
                }
            }
            k = k + 1;
        }
        let ghost old_src = src@;
        let ghost old_out = out@;
        let x = src.remove(m);
        out.push(x);
        proof {
            assert(old_src.remove(m as int).to_multiset() =~= old_src.to_multiset().remove(
                old_src[m as int],
            ));
            assert(old_out.push(x).to_multiset() =~= old_out.to_multiset().insert(x));
            assert(out@.to_multiset().add(src@.to_multiset()) =~= v@.to_multiset());
            assert forall|i: int, j: int|
                0 <= i < out@.len() && 0 <= j < src@.len() implies lex_le(
                out@[i].name@,
                src@[j].name@,
            ) by {
                let sj = if j < m { j } else { j + 1 };
                assert(src@[j] == old_src[sj]);
                if i < old_out.len() {
                    assert(out@[i] == old_out[i]);
                } else {
                    assert(out@[i] == x);
                }
            }
            assert forall|i: int, j: int|
                0 <= i < j < out@.len() implies lex_le(out@[i].name@, out@[j].name@) by {
                if j < old_out.len() {
                } else {
                    assert(out@[j] == x);
                    assert(x == old_src[m as int]);
                }
            }
        }
    }
    proof {
        assert(src@.to_multiset() =~= Multiset::<NoteFile>::empty());
        assert(out@.to_multiset().add(Multiset::<NoteFile>::empty()) =~= out@.to_multiset());
    }
    out
}

/// One supervisor tool result, as it is reported back to the driver.
pub struct ToolResult {
    pub tool_call_id: String,
    pub tool_name: String,
    pub content: String,
}

/// A supervisor tool call, its known argument fields already read out of
/// the JSON payload at the boundary (absent string fields arrive empty).
pub enum SupervisorCall {
    WriteNote { id: String, content: String },
    ReadNotes { id: String },
    SlackWebhook {
        id: String,
        title: String,
        asset: String,
        vuln_type: String,
        severity: String,
        description: String,
        repro_steps: String,
        impact: String,
        cleanup: String,
    },
    Finished { id: String, reason: Option<String> },
    Unknown { id: String, name: String },
}

/// What the platform reports back after performing a tool's effect.
pub enum ToolIo {
    /// The note file was written (or not) under this name.
    WroteNote { filename: String, outcome: Result<(), String> },
    /// The notes directory's `.txt` files, or nothing if it was unreadable.
    NotesListing { listing: Option<Vec<NoteFile>> },
    /// The webhook transport's output, or `None` when the webhook URL is
    /// not configured.
    SlackPosted { outcome: Option<Result<(String, String), String>> },
    /// The tool needed no effect.
    NoIo,
}

/// The text of a note file: a bracketed timestamp line before the content.
pub open spec fn note_text_spec(now_readable: Seq<char>, content: Seq<char>) -> Seq<char> {
    "["@ + now_readable + "] "@ + content + "\n"@
}

/// Builds the text written into a note file.
pub fn note_file_content(now_readable: &str, content: &str) -> (r: String)
    ensures
        r@ == note_text_spec(now_readable@, content@),
{
    let mut s = String::from_str("[");
    s.append(now_readable);
    s.append("] ");
    s.append(content);
    s.append("\n");
    s
}

/// The file name of a new note.
pub open spec fn note_name_spec(now_compact: Seq<char>) -> Seq<char> {
    "note_"@ + now_compact + ".txt"@
}

/// Builds a note's file name from the compact timestamp.
pub fn note_filename(now_compact: &str) -> (r: String)
    ensures
        r@ == note_name_spec(now_compact@),
{
    str3("note_", now_compact, ".txt")
}

/// How one note file appears in the concatenated listing: its content,
/// given a trailing newline if it lacks one, or a read-error line.
pub open spec fn note_entry(f: NoteFile) -> Seq<char> {
    match f.content {
        Ok(c) => c@ + (if c@.len() > 0 && c@.last() == '\n' {
            Seq::<char>::empty()
        } else {
            "\n"@
        }),
        Err(e) => "Error reading "@ + f.name@ + ": "@ + e@ + "\n"@,
    }
}

/// All note files concatenated in the order given.
pub open spec fn concat_notes(files: Seq<NoteFile>) -> Seq<char>
    decreases files.len(),
{
    if files.len() == 0 {
        Seq::<char>::empty()
    } else {
        note_entry(files[0]) + concat_notes(files.skip(1))
    }
}

proof fn lemma_concat_notes_snoc(files: Seq<NoteFile>, f: NoteFile)
    ensures
        concat_notes(files.push(f)) == concat_notes(files) + note_entry(f),
    decreases files.len(),
{
    if files.len() == 0 {
        assert(files.push(f)[0] == f);
        assert(files.push(f).skip(1) =~= Seq::<NoteFile>::empty());
        assert(concat_notes(files.push(f).skip(1)) == Seq::<char>::empty());
        assert(note_entry(f) + Seq::<char>::empty() =~= note_entry(f));
        assert(Seq::<char>::empty() + note_entry(f) =~= note_entry(f));
    } else {
        lemma_concat_notes_snoc(files.skip(1), f);
        assert(files.push(f)[0] == files[0]);
        assert(files.push(f).skip(1) =~= files.skip(1).push(f));
        assert(note_entry(files[0]) + (concat_notes(files.skip(1)) + note_entry(f)) =~= (
        note_entry(files[0]) + concat_notes(files.skip(1))) + note_entry(f));
    }
}

fn ends_with_newline(s: &str) -> (r: bool)
    ensures
        r == (s@.len() > 0 && s@.last() == '\n'),
{
    let n = s.unicode_len();
    if n == 0 {
        false
    } else {
        s.get_char(n - 1) == '\n'
    }
}

/// Concatenates the given note files in their given order.
fn concat_note_files(files: &Vec<NoteFile>) -> (r: String)
    ensures
        r@ == concat_notes(files@),
{
    let mut out = String::new();
    let mut i: usize = 0;
    proof {
        assert(files@.take(0) =~= Seq::<NoteFile>::empty());
    }
    while i < files.len()
        invariant
            i <= files@.len(),
            out@ == concat_notes(files@.take(i as int)),
        decreases files@.len() - i,
    {
        proof {
            assert(files@.take(i + 1) =~= files@.take(i as int).push(files@[i as int]));
            lemma_concat_notes_snoc(files@.take(i as int), files@[i as int]);
        }
        match &files[i].content {
            Ok(c) => {
                out.append(c.as_str());
                if !ends_with_newline(c.as_str()) {
                    out.append("\n");
                }
            },
            Err(e) => {
                out.append("Error reading ");
                out.append(files[i].name.as_str());
                out.append(": ");
                out.append(e.as_str());
                out.append("\n");
            },
        }
        proof {
            assert(out@ =~= concat_notes(files@.take(i + 1)));
        }
        i = i + 1;
    }
    proof {
        assert(files@.take(files@.len() as int) =~= files@);
    }
    out
}

/// What `read_notes` answers: the notes concatenated in filename order,
/// or a fixed line when there are none or the directory is unreadable.
pub fn read_notes_content(listing: Option<Vec<NoteFile>>) -> (r: String)
    ensures
        match listing {
            None => r@ == "No notes yet."@,
            Some(files) => if files@.len() == 0 {
                r@ == "No notes yet."@
            } else {
                exists|sorted: Seq<NoteFile>|
                    {
                        &&& #[trigger] sorted.to_multiset() == files@.to_multiset()
                        &&& sorted_by_name(sorted)
                        &&& r@ == concat_notes(sorted)
                    }
            },
        },
{
    match listing {
        None => String::from_str("No notes yet."),
        Some(files) => {
            if files.len() == 0 {
                String::from_str("No notes yet.")
            } else {
                let ghost gfiles = files;
                let sorted = sort_notes(files);
                let r = concat_note_files(&sorted);
                proof {
                    assert(sorted@.to_multiset() == gfiles@.to_multiset() && sorted_by_name(
                        sorted@,
                    ) && r@ == concat_notes(sorted@));
                }
                r
            }
        },
    }
}

/// The webhook payload: the report fields as one compact JSON object,
/// members in alphabetical order.
pub open spec fn slack_payload_spec(
    title: Seq<char>,
    asset: Seq<char>,
    vuln_type: Seq<char>,
    severity: Seq<char>,
    description: Seq<char>,
    repro_steps: Seq<char>,
    impact: Seq<char>,
    cleanup: Seq<char>,
) -> Seq<char> {
    "{\"asset\":"@ + json_quoted(asset) + ",\"cleanup\":"@ + json_quoted(cleanup)
        + ",\"description\":"@ + json_quoted(description) + ",\"impact\":"@ + json_quoted(impact)
        + ",\"repro_steps\":"@ + json_quoted(repro_steps) + ",\"severity\":"@ + json_quoted(
        severity,
    ) + ",\"title\":"@ + json_quoted(title) + ",\"vuln_type\":"@ + json_quoted(vuln_type) + "}"@
}

/// Builds the webhook payload for a vulnerability report.
pub fn slack_payload(
    title: &str,
    asset: &str,
    vuln_type: &str,
    severity: &str,
    description: &str,
    repro_steps: &str,
    impact: &str,
    cleanup: &str,
) -> (r: String)
    ensures
        r@ == slack_payload_spec(
            title@,
            asset@,
            vuln_type@,
            severity@,
            description@,
            repro_steps@,
            impact@,
            cleanup@,
        ),
{
    let mut s = String::from_str("{\"asset\":");
    append_json_quoted(&mut s, asset);
    s.append(",\"cleanup\":");
    append_json_quoted(&mut s, cleanup);
    s.append(",\"description\":");
    append_json_quoted(&mut s, description);
    s.append(",\"impact\":");
    append_json_quoted(&mut s, impact);
    s.append(",\"repro_steps\":");
    append_json_quoted(&mut s, repro_steps);
    s.append(",\"severity\":");
    append_json_quoted(&mut s, severity);
    s.append(",\"title\":");
    append_json_quoted(&mut s, title);
    s.append(",\"vuln_type\":");
    append_json_quoted(&mut s, vuln_type);
    s.append("}");
    proof {
        assert(s@ =~= slack_payload_spec(
            title@,
            asset@,
            vuln_type@,
            severity@,
            description@,
            repro_steps@,
            impact@,
            cleanup@,
        ));
    }
    s
}

/// The effect outcome fits the call it answers.
pub open spec fn io_fits(call: SupervisorCall, io: ToolIo) -> bool {
    match call {
        SupervisorCall::WriteNote { .. } => io is WroteNote,
        SupervisorCall::ReadNotes { .. } => io is NotesListing,
        SupervisorCall::SlackWebhook { .. } => io is SlackPosted,
        SupervisorCall::Finished { .. } => io is NoIo,
        SupervisorCall::Unknown { .. } => io is NoIo,
    }
}

/// The name under which a tool's result is reported.
pub open spec fn call_tool_name(call: SupervisorCall) -> Seq<char> {
    match call {
        SupervisorCall::WriteNote { .. } => "write_note"@,
        SupervisorCall::ReadNotes { .. } => "read_notes"@,
        SupervisorCall::SlackWebhook { .. } => "slack_webhook"@,
        SupervisorCall::Finished { .. } => "finished"@,
        SupervisorCall::Unknown { name, .. } => name@,
    }
}

/// The id the call carries.
pub open spec fn call_id_of(call: SupervisorCall) -> Seq<char> {
    match call {
        SupervisorCall::WriteNote { id, .. } => id@,
        SupervisorCall::ReadNotes { id, .. } => id@,
        SupervisorCall::SlackWebhook { id, .. } => id@,
        SupervisorCall::Finished { id, .. } => id@,
        SupervisorCall::Unknown { id, .. } => id@,
    }
}

/// The response content owed for this call and effect outcome.
pub open spec fn tool_content_spec(call: SupervisorCall, io: ToolIo) -> Seq<char> {
    match call {
        SupervisorCall::WriteNote { .. } => match io {
            ToolIo::WroteNote { filename, outcome } => match outcome {
                Ok(_) => "Note written successfully to "@ + filename@,
                Err(e) => "Error writing note: "@ + e@,
            },
            _ => Seq::<char>::empty(),
        },
        SupervisorCall::ReadNotes { .. } => Seq::<char>::empty(),
        SupervisorCall::SlackWebhook { .. } => match io {
            ToolIo::SlackPosted { outcome } => match outcome {
                None => "SLACK_WEBHOOK_URL not configured - skipping Slack notification"@,
                Some(Ok((out, err))) => "Slack webhook posted: stdout="@ + out@ + ", stderr="@
                    + err@,
                Some(Err(e)) => "Error posting to Slack webhook: "@ + e@,
            },
            _ => Seq::<char>::empty(),
        },
        SupervisorCall::Finished { reason, .. } => "✅ Autonomous session finished: "@ + match reason {
            Some(s) => s@,
            None => "No reason provided"@,
        },
        SupervisorCall::Unknown { name, .. } => "Unknown tool: "@ + name@,
    }
}

/// Answers one supervisor tool call, given its effect's outcome. Returns
/// the result to report and whether the call finished the session: only
/// the `finished` tool ever does.
pub fn tool_response(call: SupervisorCall, io: ToolIo) -> (r: (ToolResult, bool))
    requires
        io_fits(call, io),
    ensures
        r.0.tool_call_id@ == call_id_of(call),
        r.0.tool_name@ == call_tool_name(call),
        r.1 == (call is Finished),
        !(call is ReadNotes) ==> r.0.content@ == tool_content_spec(call, io),
        call is ReadNotes ==> (match io {
            ToolIo::NotesListing { listing } => match listing {
                None => r.0.content@ == "No notes yet."@,
                Some(files) => if files@.len() == 0 {
                    r.0.content@ == "No notes yet."@
                } else {
                    exists|sorted: Seq<NoteFile>|
                        {
                            &&& #[trigger] sorted.to_multiset() == files@.to_multiset()
                            &&& sorted_by_name(sorted)
                            &&& r.0.content@ == concat_notes(sorted)
                        }
                },
            },
            _ => false,
        }),
{
    match call {
        SupervisorCall::WriteNote { id, .. } => {
            let content = match io {
                ToolIo::WroteNote { filename, outcome } => match outcome {
                    Ok(_) => str2("Note written successfully to ", filename.as_str()),
                    Err(e) => str2("Error writing note: ", e.as_str()),
                },
                _ => String::new(),
            };
            (
                ToolResult { tool_call_id: id, tool_name: String::from_str("write_note"), content },
                false,
            )
        },
        SupervisorCall::ReadNotes { id } => {
            let content = match io {
                ToolIo::NotesListing { listing } => read_notes_content(listing),
                _ => String::new(),
            };
            (
                ToolResult { tool_call_id: id, tool_name: String::from_str("read_notes"), content },
                false,
            )
        },
        SupervisorCall::SlackWebhook { id, .. } => {
            let content = match io {
                ToolIo::SlackPosted { outcome } => match outcome {
                    None => String::from_str(
                        "SLACK_WEBHOOK_URL not configured - skipping Slack notification",
                    ),
                    Some(Ok((out, err))) => {
                        let mut s = String::from_str("Slack webhook posted: stdout=");
                        s.append(out.as_str());
                        s.append(", stderr=");
                        s.append(err.as_str());
                        s
                    },
                    Some(Err(e)) => str2("Error posting to Slack webhook: ", e.as_str()),
                },
                _ => String::new(),
            };
            (
                ToolResult {
                    tool_call_id: id,
                    tool_name: String::from_str("slack_webhook"),
                    content,
                },
                false,
            )
        },
        SupervisorCall::Finished { id, reason } => {
            let reason_str = match &reason {
                Some(s) => s.as_str(),
                None => "No reason provided",
            };
            let content = str2("✅ Autonomous session finished: ", reason_str);
            (
                ToolResult { tool_call_id: id, tool_name: String::from_str("finished"), content },
                true,
            )
        },
        SupervisorCall::Unknown { id, name } => {
            let content = str2("Unknown tool: ", name.as_str());
            (ToolResult { tool_call_id: id, tool_name: name, content }, false)
        },
    }
}

/// One tool result rendered as an indented JSON object, members in
/// alphabetical order.
pub open spec fn tr_block(t: ToolResult) -> Seq<char> {
    "  {\n    \"content\": "@ + json_quoted(t.content@) + ",\n    \"tool_call_id\": "@
        + json_quoted(t.tool_call_id@) + ",\n    \"tool_name\": "@ + json_quoted(t.tool_name@)
        + "\n  }"@
}

/// The pretty form of a tool-result list.
pub open spec fn tr_pretty(ts: Seq<ToolResult>) -> Seq<char> {
    if ts.len() == 0 {
        "[]"@
    } else {
        "[\n"@ + join_open(ts.map_values(|t: ToolResult| tr_block(t)), ",\n"@) + "\n]"@
    }
}

fn append_tr_block(out: &mut String, t: &ToolResult)
    ensures
        final(out)@ == old(out)@ + tr_block(*t),
{
    out.append("  {\n    \"content\": ");
    append_json_quoted(out, t.content.as_str());
    out.append(",\n    \"tool_call_id\": ");
    append_json_quoted(out, t.tool_call_id.as_str());
    out.append(",\n    \"tool_name\": ");
    append_json_quoted(out, t.tool_name.as_str());
    out.append("\n  }");
    proof {
        assert(out@ =~= old(out)@ + tr_block(*t));
    }
}

/// Renders a tool-result list the way it is reported back to the driver.
pub fn render_tool_results(ts: &Vec<ToolResult>) -> (r: String)
    ensures
        r@ == tr_pretty(ts@),
{
    if ts.len() == 0 {
        return String::from_str("[]");
    }
    let ghost blocks = ts@.map_values(|t: ToolResult| tr_block(t));
    let mut body = String::new();
    let mut i: usize = 0;
    proof {
        assert(ts@.take(0).map_values(|t: ToolResult| tr_block(t))
            =~= Seq::<Seq<char>>::empty());
    }
    while i < ts.len()
        invariant
            i <= ts@.len(),
            blocks == ts@.map_values(|t: ToolResult| tr_block(t)),
            body@ == join_open(ts@.take(i as int).map_values(|t: ToolResult| tr_block(t)), ",\n"@),
        decreases ts@.len() - i,
    {
        let ghost bs = ts@.take(i as int).map_values(|t: ToolResult| tr_block(t));
        let ghost before = body@;
        proof {
            assert(ts@.take(i + 1).map_values(|t: ToolResult| tr_block(t)) =~= bs.push(
                tr_block(ts@[i as int]),
            ));
            lemma_join_open_snoc(bs, tr_block(ts@[i as int]), ",\n"@);
        }
        if i > 0 {
            body.append(",\n");
        }
        append_tr_block(&mut body, &ts[i]);
        proof {
            assert(bs.len() == i);
            if i == 0 {
                assert(body@ =~= tr_block(ts@[i as int]));
            } else {
                assert(body@ =~= before + (",\n"@ + tr_block(ts@[i as int])));
            }
        }
        i = i + 1;
    }
    proof {
        assert(ts@.take(ts@.len() as int) =~= ts@);
    }
    str3("[\n", body.as_str(), "\n]")
}

} // verus!
