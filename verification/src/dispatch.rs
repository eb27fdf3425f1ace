//! The dispatcher: deciding, for each resolved command, the effect to carry
//! out. Effects are returned as plain values; the caller performs them
//! (writing lines, changing directory, spawning a process) and feeds the
//! outcome of an external run back through [`run_report`].

use vstd::prelude::*;
use crate::command::Command;
use crate::command::CommandModel;
use crate::command::is_builtin_name;
use crate::command::line_name;
use crate::command::model_title;
use crate::command::lookup_consistent;
use crate::command::resolution_of;
use crate::command::resolve;
use crate::context::ShellEnv;
use crate::context::ShellEnvModel;
use crate::lookup::candidate_paths;
use crate::lookup::first_present;
use crate::lookup::search_dirs;
use crate::text::dec_text;
use crate::text::join_spaces;
use crate::text::join_all;
use crate::text::status_code_text;

verus! {

/// The effect a command dispatches to. The caller carries it out.
#[derive(Debug, PartialEq)]
pub enum Action {
    /// Terminate the interpreter with status 0.
    Terminate,
    /// Set the process working directory to `target`; on failure, report
    /// [`change_dir_failure_text`] and keep the old directory.
    ChangeDir { target: String },
    /// Write one line to standard output.
    WriteLine { text: String },
    /// Run the executable at `path` with `args` and hand the outcome to
    /// [`run_report`].
    RunProgram { path: String, args: Vec<String> },
}

/// The mathematical view of an [`Action`].
pub enum ActionModel {
    Terminate,
    ChangeDir { target: Seq<char> },
    WriteLine { text: Seq<char> },
    RunProgram { path: Seq<char>, args: Seq<Seq<char>> },
}

impl View for Action {
    type V = ActionModel;

    open spec fn view(&self) -> ActionModel {
        match self {
            Action::Terminate => ActionModel::Terminate,
            Action::ChangeDir { target } => ActionModel::ChangeDir { target: target@ },
            Action::WriteLine { text } => ActionModel::WriteLine { text: text@ },
            Action::RunProgram { path, args } => ActionModel::RunProgram {
                path: path@,
                args: args.deep_view(),
            },
        }
    }
}

/// Whether a change-directory argument calls for the home directory: an
/// absent argument does, and so does one that begins with `~`.
pub open spec fn needs_home(arg: Option<Seq<char>>) -> bool {
    match arg {
        Option::None => true,
        Option::Some(q) => q.len() > 0 && q[0] == '~',
    }
}

/// A path beginning with `~`, with the `~` (and an immediately following
/// separator, if present) replaced by the home directory.
pub open spec fn tilde_expanded(q: Seq<char>, home: Seq<char>) -> Seq<char> {
    let rest = q.drop_first();
    let stripped = if rest.len() > 0 && rest[0] == '/' {
        rest.drop_first()
    } else {
        rest
    };
    if stripped.len() == 0 {
        home
    } else {
        home + seq!['/'] + stripped
    }
}

/// The directory a change-directory command targets.
pub open spec fn cd_target_of(arg: Option<Seq<char>>, home: Option<Seq<char>>) -> Seq<char> {
    let h = match home {
        Option::Some(h) => h,
        Option::None => Seq::empty(),
    };
    match arg {
        Option::None => h,
        Option::Some(q) => if q.len() > 0 && q[0] == '~' {
            tilde_expanded(q, h)
        } else {
            q
        },
    }
}

/// The home directory is available whenever the command needs it.
pub open spec fn home_available_for(cmd: CommandModel, env: ShellEnvModel) -> bool {
    match cmd {
        CommandModel::ChangeDirectory(p) => needs_home(p) ==> env.home_dir is Some,
        _ => true,
    }
}

/// The line the type builtin reports for a classified command.
pub open spec fn type_line(m: CommandModel) -> Seq<char> {
    match m {
        CommandModel::External { name, resolved_path, .. } => name + " is "@ + resolved_path,
        CommandModel::Unrecognized(name) => name + ": not found"@,
        _ => model_title(m) + " is a shell builtin"@,
    }
}

/// What dispatching a command may decide, given the ambient environment:
/// every case is pinned exactly, except that the type builtin's nested
/// resolution depends on the search-path probes' outcome.
pub open spec fn dispatch_consistent(cmd: CommandModel, env: ShellEnvModel, a: ActionModel) -> bool {
    match cmd {
        CommandModel::Exit => a == ActionModel::Terminate,
        CommandModel::ChangeDirectory(p) => a == (ActionModel::ChangeDir {
            target: cd_target_of(p, env.home_dir),
        }),
        CommandModel::Echo(args) => a == (ActionModel::WriteLine { text: join_spaces(args) }),
        CommandModel::PrintWorkingDirectory => a == (ActionModel::WriteLine {
            text: env.working_dir,
        }),
        CommandModel::TypeQuery(args) => exists|found: Option<Seq<char>>|
            #[trigger] lookup_consistent(line_name(join_spaces(args)), env.path_var, found) && a
                == (ActionModel::WriteLine {
                text: type_line(resolution_of(join_spaces(args), found)),
            }),
        CommandModel::External { name: _, resolved_path, args } => a == (ActionModel::RunProgram {
            path: resolved_path,
            args,
        }),
        CommandModel::Unrecognized(name) => a == (ActionModel::WriteLine {
            text: name + ": command not found"@,
        }),
    }
}

fn tilde_expand(q: &str, home: &str) -> (r: String)
    requires
        q@.len() > 0,
        q@[0] == '~',
    ensures
        r@ == tilde_expanded(q@, home@),
{
    let n = q.unicode_len();
    let has_sep = n >= 2 && q.get_char(1) == '/';
    let start: usize = if has_sep {
        2
    } else {
        1
    };
    proof {
        assert(q@.drop_first() =~= q@.skip(1));
        if has_sep {
            assert(q@.skip(1)[0] == q@[1]);
            assert(q@.skip(1).drop_first() =~= q@.skip(2));
        } else if n >= 2 {
            assert(q@.skip(1)[0] == q@[1]);
        }
        assert(q@.skip(start as int).len() == n - start);
    }
    if start >= n {
        home.to_owned()
    } else {
        let rest = q.substring_char(start, n);
        let mut r = home.to_owned();
        r.append("/");
        r.append(rest);
        proof {
            reveal_strlit("/");
            assert("/"@ =~= seq!['/']);
            assert(rest@ =~= q@.skip(start as int));
        }
        r
    }
}

/// The report written when a change of directory fails.
pub fn change_dir_failure_text(target: &str) -> (r: String)
    ensures
        r@ == target@ + ": No such file or directory"@,
{
    String::from_str(target).concat(": No such file or directory")
}

/// Render the type builtin's report for a classified command.
pub fn type_text(cmd: &Command) -> (r: String)
    ensures
        r@ == type_line(cmd@),
{
    match cmd {
        Command::External { name, resolved_path, .. } => {
            let mut r = String::from_str(name.as_str());
            r.append(" is ");
            r.append(resolved_path.as_str());
            r
        },
        Command::Unrecognized(name) => String::from_str(name.as_str()).concat(": not found"),
        _ => cmd.name_text().concat(" is a shell builtin"),
    }
}

/// Decide the effect of one resolved command.
pub fn dispatch(cmd: Command, env: &ShellEnv) -> (a: Action)
    requires
        home_available_for(cmd@, env@),
    ensures
        dispatch_consistent(cmd@, env@, a@),
{
    match cmd {
        Command::Exit => Action::Terminate,
        Command::ChangeDirectory(p) => {
            let target: String = match p {
                Option::None => match &env.home_dir {
                    Option::Some(h) => h.clone(),
                    Option::None => unreached(),
                },
                Option::Some(q) => {
                    if q.as_str().unicode_len() > 0 && q.as_str().get_char(0) == '~' {
                        let expanded = match &env.home_dir {
                            Option::Some(h) => tilde_expand(q.as_str(), h.as_str()),
                            Option::None => unreached(),
                        };
                        expanded
                    } else {
                        q
                    }
                },
            };
            Action::ChangeDir { target }
        },
        Command::Echo(args) => {
            let text = join_all(&args);
            Action::WriteLine { text }
        },
        Command::PrintWorkingDirectory => {
            let text = env.working_dir.clone();
            Action::WriteLine { text }
        },
        Command::TypeQuery(args) => {
            let ghost args_model = args.deep_view();
            let joined = join_all(&args);
            let named = resolve(joined.as_str(), env);
            let text = type_text(&named);
            let a = Action::WriteLine { text };
            proof {
                let found = choose|found: Option<Seq<char>>|
                    #[trigger] lookup_consistent(line_name(joined@), env@.path_var, found)
                        && named@ == resolution_of(joined@, found);
                assert(lookup_consistent(line_name(join_spaces(args_model)), env@.path_var, found));
                assert(a@ == (ActionModel::WriteLine {
                    text: type_line(resolution_of(join_spaces(args_model), found)),
                }));
            }
            a
        },
        Command::External { name: _, resolved_path, args } => Action::RunProgram {
            path: resolved_path,
            args,
        },
        Command::Unrecognized(name) => {
            let text = String::from_str(name.as_str()).concat(": command not found");
            Action::WriteLine { text }
        },
    }
}

/// The outcome of running an external command, as the caller observed it.
#[derive(Debug, PartialEq)]
pub enum RunOutcome {
    /// The process ran and exited with status 0; its captured standard
    /// output.
    Succeeded { output: Vec<u8> },
    /// The process ran and exited with the given non-zero status code.
    Failed { code: i32 },
    /// The process could not be started; the spawn error's rendering.
    NotLaunched { detail: String },
}

/// The mathematical view of a [`RunOutcome`].
pub enum RunOutcomeModel {
    Succeeded { output: Seq<u8> },
    Failed { code: int },
    NotLaunched { detail: Seq<char> },
}

impl View for RunOutcome {
    type V = RunOutcomeModel;

    open spec fn view(&self) -> RunOutcomeModel {
        match self {
            RunOutcome::Succeeded { output } => RunOutcomeModel::Succeeded { output: output@ },
            RunOutcome::Failed { code } => RunOutcomeModel::Failed { code: *code as int },
            RunOutcome::NotLaunched { detail } => RunOutcomeModel::NotLaunched { detail: detail@ },
        }
    }
}

/// What the caller is to write after running an external command.
#[derive(Debug, PartialEq)]
pub enum RunReport {
    /// Relay these bytes, verbatim, to standard output.
    WriteBytes { bytes: Vec<u8> },
    /// Write this line to standard error.
    WriteErrorLine { text: String },
}

/// The mathematical view of a [`RunReport`].
pub enum RunReportModel {
    WriteBytes { bytes: Seq<u8> },
    WriteErrorLine { text: Seq<char> },
}

impl View for RunReport {
    type V = RunReportModel;

    open spec fn view(&self) -> RunReportModel {
        match self {
            RunReport::WriteBytes { bytes } => RunReportModel::WriteBytes { bytes: bytes@ },
            RunReport::WriteErrorLine { text } => RunReportModel::WriteErrorLine { text: text@ },
        }
    }
}

/// The report owed for each run outcome: captured output verbatim on
/// success, one error line otherwise.
pub open spec fn report_of(outcome: RunOutcomeModel) -> RunReportModel {
    match outcome {
        RunOutcomeModel::Succeeded { output } => RunReportModel::WriteBytes { bytes: output },
        RunOutcomeModel::Failed { code } => RunReportModel::WriteErrorLine {
            text: "Command failed with the status code "@ + dec_text(code),
        },
        RunOutcomeModel::NotLaunched { detail } => RunReportModel::WriteErrorLine {
            text: "Error executing command "@ + detail,
        },
    }
}

/// Turn the outcome of an external run into the report owed for it.
pub fn run_report(outcome: RunOutcome) -> (r: RunReport)
    ensures
        r@ == report_of(outcome@),
{
    match outcome {
        RunOutcome::Succeeded { output } => RunReport::WriteBytes { bytes: output },
        RunOutcome::Failed { code } => {
            let rendered = status_code_text(code);
            RunReport::WriteErrorLine {
                text: String::from_str("Command failed with the status code ").concat(
                    rendered.as_str(),
                ),
            }
        },
        RunOutcome::NotLaunched { detail } => RunReport::WriteErrorLine {
            text: String::from_str("Error executing command ").concat(detail.as_str()),
        },
    }
}

/// A change of directory with no argument targets the home directory, and
/// one with the argument `~/` followed by a relative path targets that path
/// inside the home directory.
pub proof fn lemma_cd_targets(home: Seq<char>, sub: Seq<char>)
    requires
        sub.len() > 0,
    ensures
        cd_target_of(Option::None, Option::Some(home)) == home,
        cd_target_of(Option::Some(seq!['~', '/'] + sub), Option::Some(home)) == home + seq!['/']
            + sub,
{
    let q = seq!['~', '/'] + sub;
    assert(q[0] == '~');
    assert(q.drop_first() =~= seq!['/'] + sub);
    assert(q.drop_first()[0] == '/');
    assert(q.drop_first().drop_first() =~= sub);
}

/// The print-working-directory builtin reports exactly the process's current
/// working directory, whatever else the environment holds and whatever was
/// dispatched before: its action is a function of the working directory
/// alone.
pub proof fn lemma_pwd_reports_working_dir(env: ShellEnvModel, a: ActionModel)
    requires
        dispatch_consistent(CommandModel::PrintWorkingDirectory, env, a),
    ensures
        a == (ActionModel::WriteLine { text: env.working_dir }),
{
}

/// A line whose first token is `exit` always dispatches to termination,
/// whatever arguments follow and whatever the lookup reported.
pub proof fn lemma_exit_always_terminates(
    line: Seq<char>,
    found: Option<Seq<char>>,
    env: ShellEnvModel,
    a: ActionModel,
)
    requires
        line_name(line) == "exit"@,
        dispatch_consistent(resolution_of(line, found), env, a),
    ensures
        a is Terminate,
{
}

/// A name that is no builtin and whose candidate paths are all absent is
/// reported as not found: resolving it yields `Unrecognized`, and dispatching
/// that writes `<name>: command not found`.
pub proof fn lemma_unknown_name_reported(
    line: Seq<char>,
    present: Seq<bool>,
    env: ShellEnvModel,
    a: ActionModel,
)
    requires
        !is_builtin_name(line_name(line)),
        present.len() == candidate_paths(line_name(line), search_dirs(env.path_var)).len(),
        forall|k: int| 0 <= k < present.len() ==> !present[k],
        dispatch_consistent(resolution_of(line, Option::None), env, a),
    ensures
        first_present(candidate_paths(line_name(line), search_dirs(env.path_var)), present)
            is None,
        a == (ActionModel::WriteLine { text: line_name(line) + ": command not found"@ }),
{
    crate::lookup::lemma_first_present_none(
        candidate_paths(line_name(line), search_dirs(env.path_var)),
        present,
    );
}

} // verus!

