//! The command model and the resolver: classifying one input line as a
//! builtin, an external executable located on the search path, or an
//! unrecognized name.

use vstd::prelude::*;
use crate::context::ShellEnv;
use crate::lookup::candidate_paths;
use crate::lookup::find_command_path;
use crate::lookup::first_present;
use crate::lookup::search_dirs;
use crate::text::split_ws;
use crate::text::str_eq;
use crate::text::tokenize;

verus! {

/// A resolved command: exactly one variant per input line.
#[derive(Debug, PartialEq)]
pub enum Command {
    /// Terminate the interpreter with status 0.
    Exit,
    /// Change the working directory; an absent path means the home directory.
    ChangeDirectory(Option<String>),
    /// Write the arguments, space-joined, to standard output.
    Echo(Vec<String>),
    /// Write the current working directory to standard output.
    PrintWorkingDirectory,
    /// Describe how the named command would be classified.
    TypeQuery(Vec<String>),
    /// An executable found on the search path or given as an explicit path.
    External { name: String, resolved_path: String, args: Vec<String> },
    /// No builtin and no resolvable executable matched.
    Unrecognized(String),
}

/// The mathematical view of a [`Command`].
pub enum CommandModel {
    Exit,
    ChangeDirectory(Option<Seq<char>>),
    Echo(Seq<Seq<char>>),
    PrintWorkingDirectory,
    TypeQuery(Seq<Seq<char>>),
    External { name: Seq<char>, resolved_path: Seq<char>, args: Seq<Seq<char>> },
    Unrecognized(Seq<char>),
}

impl View for Command {
    type V = CommandModel;

    open spec fn view(&self) -> CommandModel {
        match self {
            Command::Exit => CommandModel::Exit,
            Command::ChangeDirectory(p) => CommandModel::ChangeDirectory(p.deep_view()),
            Command::Echo(args) => CommandModel::Echo(args.deep_view()),
            Command::PrintWorkingDirectory => CommandModel::PrintWorkingDirectory,
            Command::TypeQuery(args) => CommandModel::TypeQuery(args.deep_view()),
            Command::External { name, resolved_path, args } => CommandModel::External {
                name: name@,
                resolved_path: resolved_path@,
                args: args.deep_view(),
            },
            Command::Unrecognized(name) => CommandModel::Unrecognized(name@),
        }
    }
}

/// The fixed builtin name set.
pub open spec fn is_builtin_name(name: Seq<char>) -> bool {
    name == "exit"@ || name == "cd"@ || name == "echo"@ || name == "pwd"@ || name == "type"@
}

/// The first token of a line, or the empty name when the line has none.
pub open spec fn line_name(line: Seq<char>) -> Seq<char> {
    let tokens = split_ws(line);
    if tokens.len() > 0 {
        tokens[0]
    } else {
        Seq::empty()
    }
}

/// The tokens of a line after the first, or none when the line has none.
pub open spec fn line_args(line: Seq<char>) -> Seq<Seq<char>> {
    let tokens = split_ws(line);
    if tokens.len() > 0 {
        tokens.drop_first()
    } else {
        Seq::empty()
    }
}

/// The command a name with its arguments maps to, given the search-path
/// lookup's outcome `found` (consulted only when the name is no builtin).
pub open spec fn classified(
    name: Seq<char>,
    args: Seq<Seq<char>>,
    found: Option<Seq<char>>,
) -> CommandModel {
    if name == "exit"@ {
        CommandModel::Exit
    } else if name == "cd"@ {
        CommandModel::ChangeDirectory(
            if args.len() > 0 {
                Option::Some(args[0])
            } else {
                Option::None
            },
        )
    } else if name == "echo"@ {
        CommandModel::Echo(args)
    } else if name == "pwd"@ {
        CommandModel::PrintWorkingDirectory
    } else if name == "type"@ {
        CommandModel::TypeQuery(args)
    } else {
        match found {
            Option::Some(p) => CommandModel::External { name, resolved_path: p, args },
            Option::None => CommandModel::Unrecognized(name),
        }
    }
}

/// The command a whole line resolves to, given the lookup's outcome.
pub open spec fn resolution_of(line: Seq<char>, found: Option<Seq<char>>) -> CommandModel {
    classified(line_name(line), line_args(line), found)
}

/// The command's own name: the builtin keyword, an external command's name,
/// or the unrecognized name.
pub open spec fn model_title(m: CommandModel) -> Seq<char> {
    match m {
        CommandModel::Exit => "exit"@,
        CommandModel::ChangeDirectory(_) => "cd"@,
        CommandModel::Echo(_) => "echo"@,
        CommandModel::PrintWorkingDirectory => "pwd"@,
        CommandModel::TypeQuery(_) => "type"@,
        CommandModel::External { name, .. } => name,
        CommandModel::Unrecognized(name) => name,
    }
}

/// What a search-path lookup may report for `name` under the given
/// search-path variable: nothing, or the first candidate path that an
/// existence probe marked present.
pub open spec fn lookup_consistent(
    name: Seq<char>,
    path_var: Option<Seq<char>>,
    found: Option<Seq<char>>,
) -> bool {
    match found {
        Option::None => true,
        Option::Some(p) => exists|present: Seq<bool>|
            present.len() == candidate_paths(name, search_dirs(path_var)).len()
                && #[trigger] first_present(candidate_paths(name, search_dirs(path_var)), present)
                == Option::Some(p),
    }
}

/// Whether `name` is one of the builtin keywords.
pub fn is_builtin(name: &str) -> (r: bool)
    ensures
        r == is_builtin_name(name@),
{
    str_eq(name, "exit") || str_eq(name, "cd") || str_eq(name, "echo") || str_eq(name, "pwd")
        || str_eq(name, "type")
}

/// Build the command a name with its arguments maps to, given the lookup's
/// outcome. Every case is pinned exactly: the classification itself depends
/// on nothing outside its arguments.
pub fn classify_with_lookup(name: String, args: Vec<String>, found: Option<String>) -> (c: Command)
    ensures
        c@ == classified(name@, args.deep_view(), found.deep_view()),
{
    if str_eq(name.as_str(), "exit") {
        Command::Exit
    } else if str_eq(name.as_str(), "cd") {
        let first = if args.len() > 0 {
            Option::Some(args[0].clone())
        } else {
            Option::None
        };
        Command::ChangeDirectory(first)
    } else if str_eq(name.as_str(), "echo") {
        Command::Echo(args)
    } else if str_eq(name.as_str(), "pwd") {
        Command::PrintWorkingDirectory
    } else if str_eq(name.as_str(), "type") {
        Command::TypeQuery(args)
    } else {
        match found {
            Option::Some(p) => Command::External { name, resolved_path: p, args },
            Option::None => Command::Unrecognized(name),
        }
    }
}

/// Resolve one input line: split it into tokens, match the first against the
/// builtin set, and otherwise look the name up on the search path.
pub fn resolve(line: &str, env: &ShellEnv) -> (c: Command)
    ensures
        exists|found: Option<Seq<char>>|
            #[trigger] lookup_consistent(line_name(line@), env@.path_var, found) && c@
                == resolution_of(line@, found),
{
    let mut tokens = tokenize(line);
    let ghost name_model = line_name(line@);
    let ghost args_model = line_args(line@);
    let name = if tokens.len() > 0 {
        tokens.remove(0)
    } else {
        String::new()
    };
    let args = tokens;
    proof {
        assert(name@ == name_model);
        assert(args.deep_view() =~~= args_model);
    }
    let found: Option<String> = if is_builtin(name.as_str()) {
        Option::None
    } else {
        find_command_path(name.as_str(), env.path_var_ref())
    };
    let ghost found_model = found.deep_view();
    let c = classify_with_lookup(name, args, found);
    proof {
        assert(lookup_consistent(name_model, env@.path_var, found_model));
        assert(c@ == resolution_of(line@, found_model));
    }
    c
}

/// Builtin names always resolve to their builtin command: a line whose first
/// token is a builtin name never yields an unrecognized or external command,
/// whatever the search path holds.
pub proof fn lemma_builtin_never_unrecognized(line: Seq<char>, found: Option<Seq<char>>)
    requires
        is_builtin_name(line_name(line)),
    ensures
        !(resolution_of(line, found) is Unrecognized),
        !(resolution_of(line, found) is External),
{
}

/// A non-builtin name whose candidate paths are all absent resolves to
/// `Unrecognized`, carrying the name itself.
pub proof fn lemma_absent_name_unrecognized(line: Seq<char>, present: Seq<bool>, path_var: Option<Seq<char>>)
    requires
        !is_builtin_name(line_name(line)),
        present.len() == candidate_paths(line_name(line), search_dirs(path_var)).len(),
        forall|k: int| 0 <= k < present.len() ==> !present[k],
    ensures
        first_present(candidate_paths(line_name(line), search_dirs(path_var)), present) is None,
        resolution_of(line, Option::None) == CommandModel::Unrecognized(line_name(line)),
{
    crate::lookup::lemma_first_present_none(
        candidate_paths(line_name(line), search_dirs(path_var)),
        present,
    );
}

impl Command {
    /// Render the command's own name.
    pub fn name_text(&self) -> (r: String)
        ensures
            r@ == model_title(self@),
    {
        match self {
            Command::Exit => String::from_str("exit"),
            Command::ChangeDirectory(_) => String::from_str("cd"),
            Command::Echo(_) => String::from_str("echo"),
            Command::PrintWorkingDirectory => String::from_str("pwd"),
            Command::TypeQuery(_) => String::from_str("type"),
            Command::External { name, .. } => name.clone(),
            Command::Unrecognized(name) => name.clone(),
        }
    }
}

} // verus!
