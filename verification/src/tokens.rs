//! The tokenizer boundary and the context token budget: counting is done
//! by a fixed-vocabulary BPE encoding outside this crate; every decision
//! taken on the count is verified here.

use vstd::prelude::*;
use crate::template::{inject_template_spec, inject_template_variables};
use crate::text::{replace_all, replace_seq};
use crate::{MAX_TOKENS, TOKEN_BUFFER};

verus! {

/// How many tokens the fixed `o200k_base` encoding uses for a text. The
/// encoding is deterministic, so the count is a function of the text alone.
pub uninterp spec fn token_count_of(s: Seq<char>) -> nat;

/// The tokenizer's vocabulary could not be loaded.
#[derive(Clone, Copy, Debug, PartialEq, Eq, Structural)]
pub struct TokenizerError;

/// Relies on `tiktoken_rs::o200k_base` and
/// `CoreBPE::encode_with_special_tokens`: a fixed BPE vocabulary whose
/// encoding of a text depends on the text alone; the count is the length
/// of that encoding, and the empty text encodes to no tokens.
#[verifier::external_body]
pub fn count_tokens(text: &str) -> (r: Result<usize, TokenizerError>)
    ensures
        r matches Ok(n) ==> n as nat == token_count_of(text@) && (text@.len() == 0 ==> n == 0),
{
    match tiktoken_rs::o200k_base() {
        Ok(bpe) => Ok(bpe.encode_with_special_tokens(text).len()),
        Err(_) => Err(TokenizerError),
    }
}

/// The highest token count the loop accepts without summarising.
pub open spec fn token_limit() -> nat {
    (MAX_TOKENS - TOKEN_BUFFER) as nat
}

/// A count strictly above the limit is over budget.
pub open spec fn over_budget(n: nat) -> bool {
    n > token_limit()
}

/// Whether a token count calls for summarisation.
pub fn needs_summarization(tokens: usize) -> (r: bool)
    ensures
        r == over_budget(tokens as nat),
{
    tokens > MAX_TOKENS - TOKEN_BUFFER
}

/// The budget boundary is exact: a context of exactly the limit does not
/// trigger summarisation, and one more token does.
pub proof fn lemma_budget_boundary()
    ensures
        !over_budget((MAX_TOKENS - TOKEN_BUFFER) as nat),
        over_budget((MAX_TOKENS - TOKEN_BUFFER + 1) as nat),
{
}

/// Whether the running context must be summarised before this turn.
pub fn context_needs_summary(context: &str) -> (r: Result<bool, TokenizerError>)
    ensures
        r matches Ok(b) ==> b == over_budget(token_count_of(context@)),
{
    match count_tokens(context) {
        Ok(n) => Ok(needs_summarization(n)),
        Err(e) => Err(e),
    }
}

/// Why a driver prompt could not be produced.
#[derive(Clone, Copy, Debug, PartialEq, Eq, Structural)]
pub enum BudgetError {
    /// The tokenizer's vocabulary could not be loaded.
    Tokenizer,
    /// The rendered prompt is over the token budget.
    PromptTooLong,
}

/// Renders the driver prompt and enforces the token budget: a prompt is
/// handed out only when its token count fits under the limit, so the
/// driver model is never invoked over budget.
pub fn build_driver_prompt(template: &str, config_yaml: &str, context: &str) -> (r: Result<
    String,
    BudgetError,
>)
    ensures
        r matches Ok(p) ==> p@ == inject_template_spec(template@, config_yaml@, context@)
            && !over_budget(token_count_of(p@)),
        r matches Err(e) && e == BudgetError::PromptTooLong ==> over_budget(
            token_count_of(inject_template_spec(template@, config_yaml@, context@)),
        ),
{
    let p = inject_template_variables(template, config_yaml, context);
    match count_tokens(p.as_str()) {
        Ok(n) => {
            if needs_summarization(n) {
                Err(BudgetError::PromptTooLong)
            } else {
                Ok(p)
            }
        },
        Err(_) => Err(BudgetError::Tokenizer),
    }
}

/// The summarisation prompt: the template with `{context}` substituted.
pub open spec fn summarization_prompt_spec(t: Seq<char>, context: Seq<char>) -> Seq<char> {
    replace_seq(t, "{context}"@, context)
}

/// Binds the oversized context into the summarisation template.
pub fn build_summarization_prompt(template: &str, context: &str) -> (r: String)
    ensures
        r@ == summarization_prompt_spec(template@, context@),
{
    proof {
        reveal_strlit("{context}");
    }
    replace_all(template, "{context}", context)
}

} // verus!
