//! The ambient process state the interpreter consults: the search-path
//! variable, the home-directory variable, and the current working directory.
//! The caller reads them from the operating environment and hands them in as
//! plain values; the core never reads them on its own.

use vstd::prelude::*;

verus! {

/// A snapshot of the process environment, taken by the caller before a line
/// is resolved and dispatched.
pub struct ShellEnv {
    /// The search-path variable's value, when it is set.
    pub path_var: Option<String>,
    /// The home-directory variable's value, when it is set.
    pub home_dir: Option<String>,
    /// The process's current working directory.
    pub working_dir: String,
}

/// The mathematical view of a [`ShellEnv`].
pub struct ShellEnvModel {
    pub path_var: Option<Seq<char>>,
    pub home_dir: Option<Seq<char>>,
    pub working_dir: Seq<char>,
}

impl View for ShellEnv {
    type V = ShellEnvModel;

    open spec fn view(&self) -> ShellEnvModel {
        ShellEnvModel {
            path_var: self.path_var.deep_view(),
            home_dir: self.home_dir.deep_view(),
            working_dir: self.working_dir@,
        }
    }
}

impl ShellEnv {
    /// The search-path value as a borrowed slice, for the lookup.
    pub fn path_var_ref(&self) -> (r: Option<&str>)
        ensures
            r.deep_view() == self@.path_var,
    {
        match &self.path_var {
            Option::Some(s) => Option::Some(s.as_str()),
            Option::None => Option::None,
        }
    }
}

} // verus!
