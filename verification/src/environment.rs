//! What the launcher knows of the process it runs in: its own name and
//! directory, its arguments, the shell, the variables of the environment
//! and the search path. All of it is captured once, when the launcher
//! starts.

pub mod autodetect_executable;
pub mod expand_env;

use crate::environment::autodetect_executable::{
    candidate_paths, candidates, found_path, is_search_result, lemma_search_result_is_candidate, select_candidate,
    selected,
};
use crate::environment::expand_env::pairs;
use crate::text::texts;
use vstd::prelude::*;
use vstd::slice::slice_subrange;

pub use crate::environment::expand_env::expand_env_var;

verus! {

/// The environment as contracts see it.
pub struct EnvironmentView {
    /// The file name of the launcher.
    pub executable_name: Seq<char>,
    /// The directory that holds the launcher.
    pub executable_dir: Seq<char>,
    /// The arguments of the call, without the name of the program.
    pub call_arguments: Seq<Seq<char>>,
    /// The shell of the user.
    pub shell: Seq<char>,
    /// The variables of the environment, names with values.
    pub variables: Seq<(Seq<char>, Seq<char>)>,
    /// The directories of the search path, in their order.
    pub search_path: Seq<Seq<char>>,
}

/// The environment of one run of the launcher.
pub struct Environment {
    executable_name: String,
    executable_dir: String,
    args: Vec<String>,
    shell: String,
    variables: Vec<(String, String)>,
    search_path: Vec<String>,
}

impl Environment {
    #[verifier::type_invariant]
    spec fn names_the_program(self) -> bool {
        self.args@.len() >= 1
    }

    /// The environment as contracts see it.
    pub closed spec fn view(&self) -> EnvironmentView {
        EnvironmentView {
            executable_name: self.executable_name@,
            executable_dir: self.executable_dir@,
            call_arguments: texts(self.args@).skip(1),
            shell: self.shell@,
            variables: pairs(self.variables@),
            search_path: texts(self.search_path@),
        }
    }

    /// The file name of the launcher.
    pub fn executable_name(&self) -> (name: &String)
        ensures
            name@ == self@.executable_name,
    {
        &self.executable_name
    }

    /// The directory that holds the launcher.
    pub fn executable_dir(&self) -> (dir: &String)
        ensures
            dir@ == self@.executable_dir,
    {
        &self.executable_dir
    }

    /// The arguments of the call, without the name of the program.
    pub fn call_arguments(&self) -> (arguments: &[String])
        ensures
            texts(arguments@) == self@.call_arguments,
    {
        proof {
            use_type_invariant(self);
        }
        let arguments = slice_subrange(self.args.as_slice(), 1, self.args.len());
        assert(texts(arguments@) =~= texts(self.args@).skip(1));
        arguments
    }

    /// The shell of the user.
    pub fn shell(&self) -> (shell: String)
        ensures
            shell@ == self@.shell,
    {
        self.shell.clone()
    }

    /// The variables of the environment.
    pub fn variables(&self) -> (variables: &Vec<(String, String)>)
        ensures
            pairs(variables@) == self@.variables,
    {
        &self.variables
    }

    /// The directories of the search path.
    pub fn search_path(&self) -> (search_path: &Vec<String>)
        ensures
            texts(search_path@) == self@.search_path,
    {
        &self.search_path
    }
}

/// The environment of the process, from what was read of it at the start:
/// the launcher's file name and directory, the arguments with the name of
/// the program first, the shell, the variables and the directories of the
/// search path.
pub fn system_environment(
    executable_name: String,
    executable_dir: String,
    args: Vec<String>,
    shell: String,
    variables: Vec<(String, String)>,
    search_path: Vec<String>,
) -> (environment: Environment)
    requires
        args@.len() >= 1,
    ensures
        environment@ == (EnvironmentView {
            executable_name: executable_name@,
            executable_dir: executable_dir@,
            call_arguments: texts(args@).skip(1),
            shell: shell@,
            variables: pairs(variables@),
            search_path: texts(search_path@),
        }),
{
    Environment { executable_name, executable_dir, args, shell, variables, search_path }
}

/// The one question that the simple search asks of the file system.
pub trait CheckFile {
    /// Whether anything is at the path.
    fn path_exists(&self, path: &str) -> bool;
}

/// Looks for the program named `executable_name` in the directories of the
/// search path that come after the launcher's own directory,
/// `executable_path`. `check_file` is asked about the candidates in their
/// order, and the first at which it finds anything is returned; the search
/// finds nothing where it accepts none, and so without a candidate.
pub fn autodetect_executable<C: CheckFile>(
    executable_path: &str,
    executable_name: &str,
    search_path: &Vec<String>,
    check_file: &C,
) -> (found: Option<String>)
    ensures
        is_search_result(
            candidates(texts(search_path@), executable_path@, executable_name@),
            found_path(found),
        ),
        match found {
            Some(path) => candidates(texts(search_path@), executable_path@, executable_name@).contains(path@),
            None => true,
        },
        candidates(texts(search_path@), executable_path@, executable_name@).len() == 0 ==> found is None,
{
    let paths = candidate_paths(executable_path, executable_name, search_path);
    let mut answers: Vec<bool> = Vec::new();
    let mut accepted = false;
    while !accepted && answers.len() < paths.len()
        invariant
            answers@.len() <= paths@.len(),
        decreases paths@.len() - answers@.len() + if accepted { 0int } else { 1int },
    {
        accepted = check_file.path_exists(paths[answers.len()].as_str());
        answers.push(accepted);
    }
    let found = select_candidate(&paths, &answers);
    proof {
        assert(found_path(found) == selected(texts(paths@), answers@));
        lemma_search_result_is_candidate(texts(paths@), found_path(found));
    }
    found
}

} // verus!
