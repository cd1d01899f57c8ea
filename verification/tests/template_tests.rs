use autoloop::template::{
    _inject_approval_variables, inject_approval_variables_with_context,
    inject_bugcrowd_approval_variables, inject_patch_approval_variables_with_context,
    inject_template_variables,
};

#[test]
fn template_substitutes_both_variables() {
    let out = inject_template_variables("task: {config_yaml}\nso far: {context}\n", "cfg", "ctx");
    assert_eq!(out, "task: cfg\nso far: ctx\n");
}

#[test]
fn template_substitutes_all_occurrences() {
    let out = inject_template_variables("{context}+{context}", "c", "X");
    assert_eq!(out, "X+X");
}

#[test]
fn template_substitution_is_not_recursive() {
    // Substitution reads the template alone: a placeholder arriving
    // inside a bound value stays literal.
    let out = inject_template_variables("{config_yaml}", "{context}", "X");
    assert_eq!(out, "{context}");
    let out = inject_template_variables("{config_yaml}|{context}", "{context}", "X");
    assert_eq!(out, "{context}|X");
    let out = inject_template_variables("{config_yaml}", "{config_yaml}", "X");
    assert_eq!(out, "{config_yaml}");
}

#[test]
fn approval_values_never_pull_in_other_variables() {
    // An agent-chosen reason that names {task_context} must not pull the
    // task configuration into the approval prompt.
    let command = vec!["ls".to_string()];
    let out = inject_approval_variables_with_context(
        "{command} {reason} {task_context}",
        &command,
        ".",
        &Some("{task_context}".to_string()),
        "SECRET TASK",
    );
    assert_eq!(out, "[\"ls\"] {task_context} SECRET TASK");
    // And a task configuration that names {context} stays literal too.
    let out = inject_template_variables("{config_yaml}+{context}", "see {context}", "CTX");
    assert_eq!(out, "see {context}+CTX");
}

#[test]
fn template_engine_is_deterministic() {
    let a = inject_template_variables("a {config_yaml} b {context}", "C", "X");
    let b = inject_template_variables("a {config_yaml} b {context}", "C", "X");
    assert_eq!(a, b);
}

#[test]
fn approval_variables_quote_command_and_cwd() {
    let command = vec!["rm".to_string(), "-rf".to_string(), "/tmp/x".to_string()];
    let out = _inject_approval_variables(
        "cmd={command} cwd={cwd} why={reason}",
        &command,
        "/work",
        &None,
    );
    assert_eq!(out, "cmd=[\"rm\", \"-rf\", \"/tmp/x\"] cwd=\"/work\" why=No reason provided");
}

#[test]
fn approval_variables_use_given_reason() {
    let command = vec!["ls".to_string()];
    let out = _inject_approval_variables(
        "{command}|{reason}",
        &command,
        ".",
        &Some("checking".to_string()),
    );
    assert_eq!(out, "[\"ls\"]|checking");
}

#[test]
fn approval_variables_with_context_bind_task_context() {
    let command = vec!["ls".to_string()];
    let out = inject_approval_variables_with_context(
        "{command} for {task_context}",
        &command,
        ".",
        &None,
        "the task",
    );
    assert_eq!(out, "[\"ls\"] for the task");
}

#[test]
fn patch_approval_variables_summarise_files() {
    let out = inject_patch_approval_variables_with_context(
        "{command} in {cwd}: {changes} ({reason}; {task_context})",
        "a.rs: edited",
        3,
        &None,
        "cfg",
    );
    assert_eq!(out, "Apply patch to 3 files in .: a.rs: edited (No reason provided; cfg)");
}

#[test]
fn bugcrowd_variables_bind_tool_and_arguments() {
    let out = inject_bugcrowd_approval_variables(
        "{tool} with {arguments}",
        "bugcrowd_submit",
        &Some("{\"title\":\"x\"}".to_string()),
    );
    assert_eq!(out, "bugcrowd_submit with {\"title\":\"x\"}");
    let none = inject_bugcrowd_approval_variables("{tool} with {arguments}", "t", &None);
    assert_eq!(none, "t with No arguments provided");
}
