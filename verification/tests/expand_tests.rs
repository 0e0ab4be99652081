use worktrunk::expand::{expand_template, sanitize_branch_name};

#[test]
fn sanitize_replaces_path_separators() {
    assert_eq!(sanitize_branch_name("feature/foo"), "feature-foo");
    assert_eq!(sanitize_branch_name("user\\task"), "user-task");
    assert_eq!(sanitize_branch_name("simple-branch"), "simple-branch");
    assert_eq!(sanitize_branch_name("a/b\\c/d"), "a-b-c-d");
}

#[test]
fn expand_for_shell_commands() {
    let branch = sanitize_branch_name("feature/foo");
    let vars = vec![
        ("branch".to_string(), branch),
        ("repo".to_string(), "myrepo".to_string()),
    ];
    let cmd = expand_template("echo {{ branch }} in {{ repo }}", &vars, true).unwrap();
    assert_eq!(cmd, "echo feature-foo in myrepo");
}

#[test]
fn expand_for_filesystem_paths() {
    let branch = sanitize_branch_name("feature/foo");
    let vars = vec![
        ("branch".to_string(), branch),
        ("main_worktree".to_string(), "myrepo".to_string()),
    ];
    let path = expand_template("{{ main_worktree }}.{{ branch }}", &vars, false).unwrap();
    assert_eq!(path, "myrepo.feature-foo");
}

#[test]
fn expand_escapes_values_for_the_shell() {
    let vars = vec![("msg".to_string(), "hello world; rm -rf".to_string())];
    let escaped = expand_template("echo {{ msg }}", &vars, true).unwrap();
    assert_eq!(escaped, "echo 'hello world; rm -rf'");
    // without escaping the value passes through literally
    let literal = expand_template("echo {{ msg }}", &vars, false).unwrap();
    assert_eq!(literal, "echo hello world; rm -rf");
}

#[test]
fn expand_reports_template_errors() {
    let vars: Vec<(String, String)> = vec![];
    let err = expand_template("{{ unclosed", &vars, false).unwrap_err();
    assert!(err.starts_with("Template syntax error:"));
}

#[test]
fn expand_keeps_trailing_newline_for_commands() {
    let vars = vec![("branch".to_string(), "dev".to_string())];
    let cmd = expand_template("echo {{ branch }}\n", &vars, true).unwrap();
    assert_eq!(cmd, "echo dev\n");
    // in path mode the trailing newline is dropped, as Jinja does by default
    let path = expand_template("{{ branch }}\n", &vars, false).unwrap();
    assert_eq!(path, "dev");
}
