//! The approval gates' parsing: turning a driver model's reply into an
//! approve / deny decision. Anything that does not clearly approve is a
//! denial — defaulting to deny is a security property, not a convenience.

use vstd::prelude::*;
use crate::text::{
    contains_ci, contains_lower, find_spec, find_sub, lemma_find_spec_none, lemma_find_spec_some,
    starts_with_ci, starts_with_lower, str2, trim_seq, trim_str,
};

verus! {

/// Whether the trimmed response starts with "approve", compared after
/// ASCII lower-casing.
pub open spec fn approval_verdict(resp: Seq<char>) -> bool {
    starts_with_lower(trim_seq(resp), "approve"@)
}

/// The reasoning extracted from a response that opened with the given
/// verdict word: everything after the first ` - `, or failing that after
/// the first literal occurrence of the word in upper or lower case, or a
/// fixed default.
pub open spec fn extract_reason_spec(t: Seq<char>, upper: Seq<char>, lower: Seq<char>) -> Seq<
    char,
> {
    match find_spec(t, " - "@) {
        Some(i) => trim_seq(t.skip(i + " - "@.len())),
        None => match find_spec(t, upper) {
            Some(i) => trim_seq(t.skip(i + upper.len())),
            None => match find_spec(t, lower) {
                Some(i) => trim_seq(t.skip(i + lower.len())),
                None => "No reasoning provided"@,
            },
        },
    }
}

/// The reasoning string the parser returns for any response.
pub open spec fn approval_reason(resp: Seq<char>) -> Seq<char> {
    let t = trim_seq(resp);
    if starts_with_lower(t, "approve"@) {
        extract_reason_spec(t, "APPROVE"@, "approve"@)
    } else if starts_with_lower(t, "deny"@) {
        extract_reason_spec(t, "DENY"@, "deny"@)
    } else {
        "Unclear response format - auto-denied for safety: "@ + t
    }
}

/// Finds `pat` in `t` and reflects the result onto `find_spec`.
fn find_pinned(t: &str, pat: &str) -> (r: Option<usize>)
    ensures
        match r {
            Some(i) => find_spec(t@, pat@) == Some(i as int) && i + pat@.len() <= t@.len(),
            None => find_spec(t@, pat@) is None,
        },
{
    let r = find_sub(t, pat);
    proof {
        match r {
            Some(i) => lemma_find_spec_some(t@, pat@, i as int),
            None => lemma_find_spec_none(t@, pat@),
        }
    }
    r
}

/// Extracts the reasoning after a verdict word, mirroring
/// `extract_reason_spec`.
fn extract_reason(t: &str, upper: &str, lower: &str) -> (r: String)
    requires
        upper@.len() == lower@.len(),
    ensures
        r@ == extract_reason_spec(t@, upper@, lower@),
{
    proof {
        reveal_strlit(" - ");
    }
    let tlen = t.unicode_len();
    if let Some(i) = find_pinned(t, " - ") {
        let rest = t.substring_char(i + 3, tlen);
        proof {
            assert(t@.subrange(i + 3, tlen as int) =~= t@.skip(i + 3));
        }
        return String::from_str(trim_str(rest));
    }
    let wlen = upper.unicode_len();
    if let Some(i) = find_pinned(t, upper) {
        let rest = t.substring_char(i + wlen, tlen);
        proof {
            assert(t@.subrange(i + wlen, tlen as int) =~= t@.skip(i + wlen));
        }
        return String::from_str(trim_str(rest));
    }
    if let Some(i) = find_pinned(t, lower) {
        let rest = t.substring_char(i + wlen, tlen);
        proof {
            assert(t@.subrange(i + wlen, tlen as int) =~= t@.skip(i + wlen));
        }
        return String::from_str(trim_str(rest));
    }
    String::from_str("No reasoning provided")
}

/// Parses a driver reply to an approval request. Total: every input yields
/// a verdict and a reasoning string; only a reply whose trimmed text opens
/// with "approve" (in any casing) approves, and anything unclear denies.
pub fn parse_approval_response(response: &str) -> (r: (bool, String))
    ensures
        r.0 == approval_verdict(response@),
        r.1@ == approval_reason(response@),
{
    proof {
        reveal_strlit("APPROVE");
        reveal_strlit("approve");
        reveal_strlit("DENY");
        reveal_strlit("deny");
    }
    let t = trim_str(response);
    if starts_with_ci(t, "approve") {
        (true, extract_reason(t, "APPROVE", "approve"))
    } else if starts_with_ci(t, "deny") {
        (false, extract_reason(t, "DENY", "deny"))
    } else {
        (false, str2("Unclear response format - auto-denied for safety: ", t))
    }
}

/// Whether a general (command or patch) approval reply approves: the word
/// "approve" occurs anywhere, compared after ASCII lower-casing.
pub open spec fn general_approval(resp: Seq<char>) -> bool {
    contains_lower(resp, "approve"@)
}

/// The general approval gate's reading of a driver reply.
pub fn general_approval_granted(response: &str) -> (r: bool)
    ensures
        r == general_approval(response@),
{
    contains_ci(response, "approve")
}

} // verus!
