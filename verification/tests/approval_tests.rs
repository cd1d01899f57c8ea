use autoloop::approval::{general_approval_granted, parse_approval_response};

#[test]
fn approve_with_dash_reasoning() {
    let (ok, why) = parse_approval_response("APPROVE - looks good");
    assert!(ok);
    assert_eq!(why, "looks good");
}

#[test]
fn approve_mixed_case_with_dash() {
    let (ok, why) = parse_approval_response("Approve - ok");
    assert!(ok);
    assert_eq!(why, "ok");
}

#[test]
fn bare_approve_upper() {
    let (ok, why) = parse_approval_response("APPROVE");
    assert!(ok);
    assert_eq!(why, "");
}

#[test]
fn bare_approve_lower() {
    let (ok, why) = parse_approval_response("approve");
    assert!(ok);
    assert_eq!(why, "");
}

#[test]
fn deny_with_dash_reasoning() {
    let (ok, why) = parse_approval_response("DENY - insufficient evidence");
    assert!(!ok);
    assert_eq!(why, "insufficient evidence");
}

#[test]
fn deny_mixed_case_without_literal_word() {
    // "Deny" passes the case-insensitive prefix test, but neither "DENY"
    // nor "deny" occurs literally, so no reasoning is found.
    let (ok, why) = parse_approval_response("Deny because risky");
    assert!(!ok);
    assert_eq!(why, "No reasoning provided");
}

#[test]
fn unclear_response_is_denied() {
    let (ok, why) = parse_approval_response("maybe");
    assert!(!ok);
    assert_eq!(why, "Unclear response format - auto-denied for safety: maybe");
}

#[test]
fn empty_response_is_denied() {
    let (ok, _) = parse_approval_response("");
    assert!(!ok);
}

#[test]
fn surrounding_whitespace_is_trimmed() {
    let (ok, why) = parse_approval_response("   APPROVE - fine \n");
    assert!(ok);
    assert_eq!(why, "fine");
}

#[test]
fn general_gate_looks_for_approve_anywhere() {
    assert!(general_approval_granted("I APPROVE this"));
    assert!(general_approval_granted("Approved"));
    assert!(general_approval_granted("approve"));
    assert!(!general_approval_granted("nope"));
    assert!(!general_approval_granted("DENIED"));
}
