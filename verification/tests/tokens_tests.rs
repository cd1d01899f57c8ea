use autoloop::tokens::{
    build_driver_prompt, build_summarization_prompt, context_needs_summary, count_tokens,
    needs_summarization, BudgetError,
};
use autoloop::{MAX_TOKENS, TOKEN_BUFFER};

#[test]
fn budget_boundary_is_exact() {
    // A context of exactly the limit does not trigger summarisation; one
    // more token does.
    assert!(!needs_summarization(MAX_TOKENS - TOKEN_BUFFER));
    assert!(needs_summarization(MAX_TOKENS - TOKEN_BUFFER + 1));
}

#[test]
fn empty_text_counts_zero_tokens() {
    assert_eq!(count_tokens("").unwrap(), 0);
}

#[test]
fn token_count_is_below_character_count_for_prose() {
    let n = count_tokens("hello world, this is a plain sentence.").unwrap();
    assert!(n > 0);
    assert!(n < 38);
}

#[test]
fn small_context_needs_no_summary() {
    assert!(!context_needs_summary("a short context").unwrap());
}

#[test]
fn summarisation_trigger() {
    // Seed an oversized context, summarise it with a stubbed driver
    // reply, and check the rebuilt prompt fits the budget again.
    let mut big = String::new();
    for _ in 0..250_000 {
        big.push_str("lorem ");
    }
    assert!(context_needs_summary(&big).unwrap());
    let prompt = build_summarization_prompt("Summarise:\n{context}", &big);
    assert!(prompt.starts_with("Summarise:\nlorem "));
    // The stubbed driver answers the summarisation prompt with a summary.
    let summary = "SUMMARY OK";
    let driver_prompt = build_driver_prompt("cfg={config_yaml} ctx={context}", "cfg", summary);
    assert_eq!(driver_prompt.unwrap(), "cfg=cfg ctx=SUMMARY OK");
}

#[test]
fn oversized_prompt_is_refused() {
    let mut big = String::new();
    for _ in 0..250_000 {
        big.push_str("lorem ");
    }
    let r = build_driver_prompt("{config_yaml}{context}", "", &big);
    assert_eq!(r.unwrap_err(), BudgetError::PromptTooLong);
}
