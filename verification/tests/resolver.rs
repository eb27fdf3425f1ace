use minishell::command::{classify_with_lookup, is_builtin, resolve, Command};
use minishell::context::ShellEnv;

fn env_with(path_var: Option<&str>, home_dir: Option<&str>) -> ShellEnv {
    ShellEnv {
        path_var: path_var.map(|s| s.to_string()),
        home_dir: home_dir.map(|s| s.to_string()),
        working_dir: "/work".to_string(),
    }
}

fn strings(items: &[&str]) -> Vec<String> {
    items.iter().map(|s| s.to_string()).collect()
}

#[test]
fn exit_line_resolves_to_exit() {
    let env = env_with(None, None);
    assert_eq!(resolve("exit", &env), Command::Exit);
}

#[test]
fn exit_with_arguments_still_resolves_to_exit() {
    let env = env_with(None, None);
    assert_eq!(resolve("exit 1 2 3", &env), Command::Exit);
}

#[test]
fn builtin_lines_never_resolve_to_unrecognized() {
    let env = env_with(None, None);
    for line in ["exit", "cd", "echo", "pwd", "type", "exit 9", "cd x y", "echo hi", "type ls"] {
        let cmd = resolve(line, &env);
        assert!(!matches!(cmd, Command::Unrecognized(_)), "line {:?}", line);
        assert!(!matches!(cmd, Command::External { .. }), "line {:?}", line);
    }
}

#[test]
fn echo_collapses_whitespace_runs_into_tokens() {
    let env = env_with(None, None);
    assert_eq!(resolve("echo a b  c", &env), Command::Echo(strings(&["a", "b", "c"])));
}

#[test]
fn echo_without_arguments_has_no_tokens() {
    let env = env_with(None, None);
    assert_eq!(resolve("echo", &env), Command::Echo(Vec::new()));
}

#[test]
fn leading_and_interior_whitespace_is_ignored() {
    let env = env_with(None, None);
    assert_eq!(resolve("  echo \t a  ", &env), Command::Echo(strings(&["a"])));
}

#[test]
fn cd_keeps_only_the_first_argument() {
    let env = env_with(None, None);
    assert_eq!(resolve("cd /tmp", &env), Command::ChangeDirectory(Some("/tmp".to_string())));
    assert_eq!(resolve("cd", &env), Command::ChangeDirectory(None));
    assert_eq!(resolve("cd a b", &env), Command::ChangeDirectory(Some("a".to_string())));
}

#[test]
fn pwd_resolves_to_print_working_directory() {
    let env = env_with(None, None);
    assert_eq!(resolve("pwd", &env), Command::PrintWorkingDirectory);
}

#[test]
fn type_captures_its_arguments() {
    let env = env_with(None, None);
    assert_eq!(resolve("type cd", &env), Command::TypeQuery(strings(&["cd"])));
}

#[test]
fn missing_name_resolves_to_unrecognized() {
    let env = env_with(None, None);
    assert_eq!(
        resolve("definitely_missing_command_xyz", &env),
        Command::Unrecognized("definitely_missing_command_xyz".to_string())
    );
}

#[test]
fn missing_name_with_search_path_resolves_to_unrecognized() {
    let env = env_with(Some("/usr/bin:/bin"), None);
    assert_eq!(
        resolve("definitely_missing_command_xyz", &env),
        Command::Unrecognized("definitely_missing_command_xyz".to_string())
    );
}

#[test]
fn empty_line_resolves_to_unrecognized_empty_name() {
    let env = env_with(None, None);
    assert_eq!(resolve("", &env), Command::Unrecognized(String::new()));
}

#[test]
fn executable_on_search_path_resolves_to_external() {
    let env = env_with(Some("/bin"), None);
    assert_eq!(
        resolve("sh one two", &env),
        Command::External {
            name: "sh".to_string(),
            resolved_path: "/bin/sh".to_string(),
            args: strings(&["one", "two"]),
        }
    );
}

#[test]
fn explicit_path_resolves_to_itself_without_search_path() {
    let env = env_with(None, None);
    assert_eq!(
        resolve("/bin/sh", &env),
        Command::External {
            name: "/bin/sh".to_string(),
            resolved_path: "/bin/sh".to_string(),
            args: Vec::new(),
        }
    );
}

#[test]
fn earlier_search_directory_shadows_later_one() {
    // Both `/usr/.` and `/etc/.` exist, so the listed order alone decides.
    let first = env_with(Some("/usr:/etc"), None);
    let second = env_with(Some("/etc:/usr"), None);
    match resolve(".", &first) {
        Command::External { resolved_path, .. } => assert_eq!(resolved_path, "/usr/."),
        other => panic!("expected an external command, got {:?}", other),
    }
    match resolve(".", &second) {
        Command::External { resolved_path, .. } => assert_eq!(resolved_path, "/etc/."),
        other => panic!("expected an external command, got {:?}", other),
    }
}

#[test]
fn builtin_names_are_recognized_exactly() {
    for name in ["exit", "cd", "echo", "pwd", "type"] {
        assert!(is_builtin(name), "name {:?}", name);
    }
    for name in ["", "Exit", "exit ", "ech", "echoo", "ls"] {
        assert!(!is_builtin(name), "name {:?}", name);
    }
}

#[test]
fn classification_uses_the_lookup_outcome_for_non_builtins() {
    let found = classify_with_lookup(
        "ls".to_string(),
        strings(&["-l"]),
        Some("/fake/bin/ls".to_string()),
    );
    assert_eq!(
        found,
        Command::External {
            name: "ls".to_string(),
            resolved_path: "/fake/bin/ls".to_string(),
            args: strings(&["-l"]),
        }
    );
    let missing = classify_with_lookup("ls".to_string(), Vec::new(), None);
    assert_eq!(missing, Command::Unrecognized("ls".to_string()));
}

#[test]
fn classification_prefers_a_builtin_over_a_found_path() {
    let cmd = classify_with_lookup(
        "echo".to_string(),
        strings(&["hi"]),
        Some("/bin/echo".to_string()),
    );
    assert_eq!(cmd, Command::Echo(strings(&["hi"])));
}

#[test]
fn name_text_reports_the_command_name() {
    let env = env_with(None, None);
    assert_eq!(resolve("exit", &env).name_text(), "exit");
    assert_eq!(resolve("cd /x", &env).name_text(), "cd");
    assert_eq!(resolve("echo hi", &env).name_text(), "echo");
    assert_eq!(resolve("pwd", &env).name_text(), "pwd");
    assert_eq!(resolve("type ls", &env).name_text(), "type");
    assert_eq!(resolve("no_such_name_xyz", &env).name_text(), "no_such_name_xyz");
}
