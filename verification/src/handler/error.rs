//! Reporting a configuration that could not be loaded.

use crate::config::Configuration;
use crate::environment::autodetect_executable::FileSystemWrapper;
use crate::environment::Environment;
use crate::handler::{Action, Handler};
use vstd::prelude::*;

verus! {

/// The exit code of a run whose configuration could not be loaded.
pub const CONFIGURATION_EXIT_CODE: i32 = 1;

/// The handler that reports why the configuration could not be loaded.
pub struct ErrorHandler {
    error_message: String,
}

impl Handler for ErrorHandler {
    /// Asks for the message to be reported and the run to end with
    /// `CONFIGURATION_EXIT_CODE`.
    fn handle<F: FileSystemWrapper>(&self, environment: &Environment, configuration: &Configuration, fs: &F) -> (action:
        Action)
        ensures
            action matches Action::Fail { message, exit_code } && message@ == self.message()
                && exit_code == CONFIGURATION_EXIT_CODE,
    {
        Action::Fail { message: self.error_message.clone(), exit_code: CONFIGURATION_EXIT_CODE }
    }
}

impl ErrorHandler {
    /// The message to report.
    pub closed spec fn message(&self) -> Seq<char> {
        self.error_message@
    }

    pub fn new(error_message: String) -> (handler: ErrorHandler)
        ensures
            handler.message() == error_message@,
    {
        ErrorHandler { error_message }
    }
}

} // verus!
