//! The template engine: literal, non-recursive, all-occurrences variable
//! substitution into the five prompt templates. Every variable is bound
//! in one left-to-right pass over the template alone, so a placeholder
//! arriving inside a bound value — a task configuration, a command, a
//! reason — stays literal and never pulls other values into the prompt.

use vstd::prelude::*;
use crate::text::{
    debug_list, dec_spec, lemma_subst_extra_var, matches_at, pairs_view, quoted, quote_str,
    render_command_list, str3, subst_multi, subst_vars, u64_to_dec,
};

verus! {

/// The text a missing approval reason is replaced by.
pub open spec fn reason_text(reason: Option<String>) -> Seq<char> {
    match reason {
        Some(s) => s@,
        None => "No reason provided"@,
    }
}

fn reason_str(reason: &Option<String>) -> (r: &str)
    ensures
        r@ == reason_text(*reason),
{
    match reason {
        Some(s) => s.as_str(),
        None => "No reason provided",
    }
}

/// The driver prompt's bindings: `{config_yaml}` and `{context}`.
pub open spec fn template_vars(config: Seq<char>, context: Seq<char>) -> Seq<
    (Seq<char>, Seq<char>),
> {
    seq![("{config_yaml}"@, config), ("{context}"@, context)]
}

/// The driver prompt: the template with both variables bound in one pass.
pub open spec fn inject_template_spec(t: Seq<char>, config: Seq<char>, context: Seq<char>) -> Seq<
    char,
> {
    subst_multi(t, template_vars(config, context))
}

/// Binds the task configuration and the running context into a prompt
/// template.
pub fn inject_template_variables(template: &str, config_yaml: &str, context: &str) -> (r: String)
    ensures
        r@ == inject_template_spec(template@, config_yaml@, context@),
{
    let mut vars: Vec<(String, String)> = Vec::new();
    vars.push((String::from_str("{config_yaml}"), String::from_str(config_yaml)));
    vars.push((String::from_str("{context}"), String::from_str(context)));
    let r = subst_vars(template, &vars);
    proof {
        assert(pairs_view(vars@) =~= template_vars(config_yaml@, context@));
    }
    r
}

/// Re-running the template engine on the same variables yields
/// byte-identical output: the rendered prompt is a pure function of the
/// template and its variables.
pub proof fn lemma_template_engine_deterministic(
    t1: Seq<char>,
    c1: Seq<char>,
    x1: Seq<char>,
    t2: Seq<char>,
    c2: Seq<char>,
    x2: Seq<char>,
)
    requires
        t1 == t2,
        c1 == c2,
        x1 == x2,
    ensures
        inject_template_spec(t1, c1, x1) == inject_template_spec(t2, c2, x2),
{
}

/// An approval prompt's bindings without task context: `{command}` as the
/// quoted command list, `{cwd}` as the quoted working directory,
/// `{reason}` as the reason or its default.
pub open spec fn approval_vars(
    command: Seq<Seq<char>>,
    cwd: Seq<char>,
    reason: Seq<char>,
) -> Seq<(Seq<char>, Seq<char>)> {
    seq![
        ("{command}"@, debug_list(command)),
        ("{cwd}"@, quoted(cwd)),
        ("{reason}"@, reason),
    ]
}

/// An approval prompt without task context.
pub open spec fn inject_approval_spec(
    t: Seq<char>,
    command: Seq<Seq<char>>,
    cwd: Seq<char>,
    reason: Seq<char>,
) -> Seq<char> {
    subst_multi(t, approval_vars(command, cwd, reason))
}

/// Binds a command approval request into a template, without task context.
pub fn _inject_approval_variables(
    template: &str,
    command: &Vec<String>,
    cwd: &str,
    reason: &Option<String>,
) -> (r: String)
    ensures
        r@ == inject_approval_spec(template@, command.deep_view(), cwd@, reason_text(*reason)),
{
    let command_str = render_command_list(command);
    let cwd_str = quote_str(cwd);
    let mut vars: Vec<(String, String)> = Vec::new();
    vars.push((String::from_str("{command}"), command_str));
    vars.push((String::from_str("{cwd}"), cwd_str));
    vars.push((String::from_str("{reason}"), String::from_str(reason_str(reason))));
    let r = subst_vars(template, &vars);
    proof {
        assert(pairs_view(vars@) =~= approval_vars(
            command.deep_view(),
            cwd@,
            reason_text(*reason),
        ));
    }
    r
}

/// An approval prompt with task context: the same bindings, plus
/// `{task_context}` as the task configuration.
pub open spec fn inject_approval_context_spec(
    t: Seq<char>,
    command: Seq<Seq<char>>,
    cwd: Seq<char>,
    reason: Seq<char>,
    config: Seq<char>,
) -> Seq<char> {
    subst_multi(t, approval_vars(command, cwd, reason).push(("{task_context}"@, config)))
}

/// Binds a command approval request and the task configuration into a
/// template.
pub fn inject_approval_variables_with_context(
    template: &str,
    command: &Vec<String>,
    cwd: &str,
    reason: &Option<String>,
    config_content: &str,
) -> (r: String)
    ensures
        r@ == inject_approval_context_spec(
            template@,
            command.deep_view(),
            cwd@,
            reason_text(*reason),
            config_content@,
        ),
{
    let command_str = render_command_list(command);
    let cwd_str = quote_str(cwd);
    let mut vars: Vec<(String, String)> = Vec::new();
    vars.push((String::from_str("{command}"), command_str));
    vars.push((String::from_str("{cwd}"), cwd_str));
    vars.push((String::from_str("{reason}"), String::from_str(reason_str(reason))));
    vars.push((String::from_str("{task_context}"), String::from_str(config_content)));
    let r = subst_vars(template, &vars);
    proof {
        assert(pairs_view(vars@) =~= approval_vars(
            command.deep_view(),
            cwd@,
            reason_text(*reason),
        ).push(("{task_context}"@, config_content@)));
    }
    r
}

/// On a template in which `{task_context}` occurs nowhere, binding the
/// task context changes nothing: the two approval injectors agree.
pub proof fn lemma_approval_injectors_agree(
    t: Seq<char>,
    command: Seq<Seq<char>>,
    cwd: Seq<char>,
    reason: Seq<char>,
    config: Seq<char>,
)
    requires
        forall|i: int| !matches_at(t, "{task_context}"@, i),
    ensures
        inject_approval_context_spec(t, command, cwd, reason, config) == inject_approval_spec(
            t,
            command,
            cwd,
            reason,
        ),
{
    lemma_subst_extra_var(t, approval_vars(command, cwd, reason), "{task_context}"@, config);
}

/// A patch approval prompt's bindings: `{command}` as a file-count
/// summary, `{cwd}` as the current directory, then the reason, the task
/// context, and the rendered changes.
pub open spec fn patch_approval_vars(
    num_files: nat,
    reason: Seq<char>,
    config: Seq<char>,
    changes: Seq<char>,
) -> Seq<(Seq<char>, Seq<char>)> {
    seq![
        ("{command}"@, "Apply patch to "@ + dec_spec(num_files) + " files"@),
        ("{cwd}"@, "."@),
        ("{reason}"@, reason),
        ("{task_context}"@, config),
        ("{changes}"@, changes),
    ]
}

/// A patch approval prompt.
pub open spec fn inject_patch_approval_spec(
    t: Seq<char>,
    num_files: nat,
    reason: Seq<char>,
    config: Seq<char>,
    changes: Seq<char>,
) -> Seq<char> {
    subst_multi(t, patch_approval_vars(num_files, reason, config, changes))
}

/// Binds a patch approval request into a template. The changes arrive
/// already rendered as text; `num_files` is how many files they touch.
pub fn inject_patch_approval_variables_with_context(
    template: &str,
    changes_rendered: &str,
    num_files: usize,
    reason: &Option<String>,
    config_content: &str,
) -> (r: String)
    ensures
        r@ == inject_patch_approval_spec(
            template@,
            num_files as nat,
            reason_text(*reason),
            config_content@,
            changes_rendered@,
        ),
{
    let count = u64_to_dec(num_files as u64);
    let summary = str3("Apply patch to ", count.as_str(), " files");
    let mut vars: Vec<(String, String)> = Vec::new();
    vars.push((String::from_str("{command}"), summary));
    vars.push((String::from_str("{cwd}"), String::from_str(".")));
    vars.push((String::from_str("{reason}"), String::from_str(reason_str(reason))));
    vars.push((String::from_str("{task_context}"), String::from_str(config_content)));
    vars.push((String::from_str("{changes}"), String::from_str(changes_rendered)));
    let r = subst_vars(template, &vars);
    proof {
        assert(pairs_view(vars@) =~= patch_approval_vars(
            num_files as nat,
            reason_text(*reason),
            config_content@,
            changes_rendered@,
        ));
    }
    r
}

/// A bugcrowd approval prompt's bindings: `{tool}` and `{arguments}`.
pub open spec fn bugcrowd_vars(tool: Seq<char>, arguments: Option<String>) -> Seq<
    (Seq<char>, Seq<char>),
> {
    seq![
        ("{tool}"@, tool),
        (
            "{arguments}"@,
            match arguments {
                Some(a) => a@,
                None => "No arguments provided"@,
            },
        ),
    ]
}

/// A bugcrowd approval prompt.
pub open spec fn inject_bugcrowd_spec(
    t: Seq<char>,
    tool: Seq<char>,
    arguments: Option<String>,
) -> Seq<char> {
    subst_multi(t, bugcrowd_vars(tool, arguments))
}

/// Binds a tool invocation into the bugcrowd approval template. The
/// arguments arrive already rendered as text, when there are any.
pub fn inject_bugcrowd_approval_variables(
    template: &str,
    tool: &str,
    arguments: &Option<String>,
) -> (r: String)
    ensures
        r@ == inject_bugcrowd_spec(template@, tool@, *arguments),
{
    let args_str = match arguments {
        Some(a) => a.as_str(),
        None => "No arguments provided",
    };
    let mut vars: Vec<(String, String)> = Vec::new();
    vars.push((String::from_str("{tool}"), String::from_str(tool)));
    vars.push((String::from_str("{arguments}"), String::from_str(args_str)));
    let r = subst_vars(template, &vars);
    proof {
        assert(pairs_view(vars@) =~= bugcrowd_vars(tool@, *arguments));
    }
    r
}

} // verus!
