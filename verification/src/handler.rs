//! The handlers of a run. Each decides what the launcher is to do; the
//! doing is the caller's.

pub mod alias_list;
pub mod default;
pub mod error;

use crate::config::Configuration;
use crate::environment::autodetect_executable::FileSystemWrapper;
use crate::environment::Environment;
use crate::handler::alias_list::{is_alias_report, AliasListHandler};
use crate::handler::default::{is_first_step, DefaultHandler};
use crate::process::CallContext;
use crate::text::texts;
use vstd::prelude::*;

verus! {

/// What a handler asks the launcher to do.
pub enum Action {
    /// Write the lines to standard output and end with success.
    Print(Vec<String>),
    /// Run the program of the plan and wait for its end.
    Launch(CallContext),
    /// End with the exit code.
    Exit(i32),
    /// Write the message to standard error and end with the exit code.
    Fail { message: String, exit_code: i32 },
    /// Give up with the message: the run cannot go on.
    Abort(String),
}

/// A handler of a run.
pub trait Handler {
    /// What the launcher is to do for the run. The file system is asked
    /// only where a program has to be searched.
    fn handle<F: FileSystemWrapper>(&self, environment: &Environment, configuration: &Configuration, fs: &F) -> Action;
}

/// The argument that asks for the list of the aliases.
pub const ALIASES_OPTION: &'static str = "--aliases";

/// Whether the arguments of a call ask for the list of the aliases: they
/// do where `--aliases` is the one argument.
pub open spec fn asks_for_aliases(call_arguments: Seq<Seq<char>>) -> bool {
    call_arguments.len() == 1 && call_arguments[0] == ALIASES_OPTION@
}

/// The handler that the arguments of a call select.
pub enum SelectedHandler {
    /// The arguments ask for the list of the aliases.
    AliasList(AliasListHandler),
    /// The arguments are a call to forward.
    Default(DefaultHandler),
}

/// Selects the handler of a run by the shape of the arguments alone.
pub fn get_handler(environment: &Environment) -> (handler: SelectedHandler)
    ensures
        handler is AliasList <==> asks_for_aliases(environment@.call_arguments),
{
    let call_arguments = environment.call_arguments();
    let arg_count = call_arguments.len();
    if arg_count == 1 {
        let command = &call_arguments[0];
        assert(texts(call_arguments@)[0] == command@);
        if *command == ALIASES_OPTION.to_owned() {
            return SelectedHandler::AliasList(AliasListHandler::new());
        }
    }
    SelectedHandler::Default(DefaultHandler::new())
}

impl Handler for SelectedHandler {
    /// Hands the run to the handler that was selected.
    fn handle<F: FileSystemWrapper>(&self, environment: &Environment, configuration: &Configuration, fs: &F) -> (action:
        Action)
        ensures
            self is AliasList ==> is_alias_report(configuration@, action),
            self is Default ==> is_first_step(environment@, configuration@, action),
    {
        match self {
            SelectedHandler::AliasList(handler) => handler.handle(environment, configuration, fs),
            SelectedHandler::Default(handler) => handler.handle(environment, configuration, fs),
        }
    }
}

} // verus!
