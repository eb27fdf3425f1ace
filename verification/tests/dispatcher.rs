use minishell::command::resolve;
use minishell::context::ShellEnv;
use minishell::dispatch::{
    change_dir_failure_text, dispatch, run_report, Action, RunOutcome, RunReport,
};

fn env_with(path_var: Option<&str>, home_dir: Option<&str>, working_dir: &str) -> ShellEnv {
    ShellEnv {
        path_var: path_var.map(|s| s.to_string()),
        home_dir: home_dir.map(|s| s.to_string()),
        working_dir: working_dir.to_string(),
    }
}

fn run_line(line: &str, env: &ShellEnv) -> Action {
    let cmd = resolve(line, env);
    dispatch(cmd, env)
}

#[test]
fn exit_dispatches_to_termination() {
    let env = env_with(None, None, "/work");
    assert_eq!(run_line("exit", &env), Action::Terminate);
}

#[test]
fn exit_with_trailing_arguments_dispatches_to_termination() {
    let env = env_with(None, None, "/work");
    assert_eq!(run_line("exit 7 extra", &env), Action::Terminate);
}

#[test]
fn echo_joins_tokens_with_single_spaces() {
    let env = env_with(None, None, "/work");
    assert_eq!(
        run_line("echo a b  c", &env),
        Action::WriteLine { text: "a b c".to_string() }
    );
}

#[test]
fn echo_without_arguments_writes_an_empty_line() {
    let env = env_with(None, None, "/work");
    assert_eq!(run_line("echo", &env), Action::WriteLine { text: String::new() });
}

#[test]
fn pwd_writes_the_working_directory() {
    let env = env_with(None, None, "/somewhere/deep");
    assert_eq!(
        run_line("pwd", &env),
        Action::WriteLine { text: "/somewhere/deep".to_string() }
    );
}

#[test]
fn pwd_is_unaffected_by_earlier_dispatches() {
    let env = env_with(None, Some("/home/u"), "/somewhere/deep");
    let _ = run_line("echo noise", &env);
    let _ = run_line("type echo", &env);
    assert_eq!(
        run_line("pwd", &env),
        Action::WriteLine { text: "/somewhere/deep".to_string() }
    );
}

#[test]
fn cd_without_argument_targets_the_home_directory() {
    let env = env_with(None, Some("/home/u"), "/work");
    assert_eq!(
        run_line("cd", &env),
        Action::ChangeDir { target: "/home/u".to_string() }
    );
}

#[test]
fn cd_tilde_alone_targets_the_home_directory() {
    let env = env_with(None, Some("/home/u"), "/work");
    assert_eq!(
        run_line("cd ~", &env),
        Action::ChangeDir { target: "/home/u".to_string() }
    );
}

#[test]
fn cd_tilde_prefix_targets_inside_the_home_directory() {
    let env = env_with(None, Some("/home/u"), "/work");
    assert_eq!(
        run_line("cd ~/sub", &env),
        Action::ChangeDir { target: "/home/u/sub".to_string() }
    );
}

#[test]
fn cd_plain_path_is_taken_as_given() {
    let env = env_with(None, None, "/work");
    assert_eq!(
        run_line("cd /nonexistent", &env),
        Action::ChangeDir { target: "/nonexistent".to_string() }
    );
}

#[test]
fn cd_failure_report_names_the_target() {
    assert_eq!(
        change_dir_failure_text("/nonexistent"),
        "/nonexistent: No such file or directory"
    );
}

#[test]
fn type_reports_a_builtin() {
    let env = env_with(None, None, "/work");
    assert_eq!(
        run_line("type cd", &env),
        Action::WriteLine { text: "cd is a shell builtin".to_string() }
    );
}

#[test]
fn type_reports_every_builtin_name() {
    let env = env_with(None, None, "/work");
    for name in ["exit", "cd", "echo", "pwd", "type"] {
        let line = format!("type {}", name);
        assert_eq!(
            run_line(&line, &env),
            Action::WriteLine { text: format!("{} is a shell builtin", name) }
        );
    }
}

#[test]
fn type_reports_a_missing_name() {
    let env = env_with(None, None, "/work");
    assert_eq!(
        run_line("type nonexistent_xyz", &env),
        Action::WriteLine { text: "nonexistent_xyz: not found".to_string() }
    );
}

#[test]
fn type_reports_an_external_with_its_path() {
    let env = env_with(Some("/bin"), None, "/work");
    assert_eq!(
        run_line("type sh", &env),
        Action::WriteLine { text: "sh is /bin/sh".to_string() }
    );
}

#[test]
fn unrecognized_name_is_reported_as_not_found() {
    let env = env_with(Some("/usr/bin:/bin"), None, "/work");
    assert_eq!(
        run_line("definitely_missing_command_xyz", &env),
        Action::WriteLine { text: "definitely_missing_command_xyz: command not found".to_string() }
    );
}

#[test]
fn external_command_dispatches_to_a_run() {
    let env = env_with(Some("/bin"), None, "/work");
    assert_eq!(
        run_line("sh -c true", &env),
        Action::RunProgram {
            path: "/bin/sh".to_string(),
            args: vec!["-c".to_string(), "true".to_string()],
        }
    );
}

#[test]
fn successful_run_relays_captured_output() {
    let outcome = RunOutcome::Succeeded { output: vec![104, 105, 10] };
    assert_eq!(run_report(outcome), RunReport::WriteBytes { bytes: vec![104, 105, 10] });
}

#[test]
fn failed_run_reports_the_status_code() {
    let outcome = RunOutcome::Failed { code: 3 };
    assert_eq!(
        run_report(outcome),
        RunReport::WriteErrorLine { text: "Command failed with the status code 3".to_string() }
    );
}

#[test]
fn failed_run_reports_a_negative_status_code() {
    let outcome = RunOutcome::Failed { code: -12 };
    assert_eq!(
        run_report(outcome),
        RunReport::WriteErrorLine { text: "Command failed with the status code -12".to_string() }
    );
}

#[test]
fn unlaunched_run_reports_the_spawn_error() {
    let outcome = RunOutcome::NotLaunched { detail: "permission denied".to_string() };
    assert_eq!(
        run_report(outcome),
        RunReport::WriteErrorLine { text: "Error executing command permission denied".to_string() }
    );
}
