//! The launch plan and what becomes of a launch. Starting the process is
//! the caller's part; what to make of the outcome is decided here.

use crate::text::{join_texts, texts};
use vstd::prelude::*;
use vstd::string::StringExecFns;

verus! {

/// The launch plan: the program to run and its arguments.
pub struct CallContext {
    pub executable: String,
    pub args: Vec<String>,
}

/// A launch plan as contracts see it.
pub struct CallContextView {
    pub executable: Seq<char>,
    pub args: Seq<Seq<char>>,
}

impl CallContext {
    /// The plan as contracts see it.
    pub open spec fn view(&self) -> CallContextView {
        CallContextView { executable: self.executable@, args: texts(self.args@) }
    }
}

/// What came of the attempt to run a program.
pub enum ProcessOutcome {
    /// The process could not be started; the reason as the system gave it.
    SpawnFailed(String),
    /// The process started, but its end could not be awaited.
    WaitFailed(String),
    /// The process ended, with an exit code unless a signal ended it.
    Exited(Option<i32>),
}

/// The exit code of the launcher where the program's own is not to be had.
pub const UNKNOWN_EXIT_CODE: i32 = -1;

/// A program and its arguments on one line, a space between each two.
pub open spec fn command_line(executable: Seq<char>, args: Seq<Seq<char>>) -> Seq<char>
    decreases args.len(),
{
    if args.len() == 0 {
        executable
    } else {
        command_line(executable, args.drop_last()) + " "@ + args.last()
    }
}

/// The message for a process that could not be started.
pub open spec fn spawn_failure(command: Seq<char>, reason: Seq<char>) -> Seq<char> {
    "Failed to execute process ["@ + command + "]. "@ + reason
}

/// The message for a process whose end could not be awaited.
pub open spec fn wait_failure(command: Seq<char>, reason: Seq<char>) -> Seq<char> {
    "Failed to wait child process ["@ + command + "]. "@ + reason
}

/// The result of a launch: the exit code of the program, if it ended with
/// one, or the message of the failure.
pub open spec fn launch_result(command: Seq<char>, outcome: ProcessOutcome) -> Result<Option<i32>, Seq<char>> {
    match outcome {
        ProcessOutcome::SpawnFailed(reason) => Err(spawn_failure(command, reason@)),
        ProcessOutcome::WaitFailed(reason) => Err(wait_failure(command, reason@)),
        ProcessOutcome::Exited(code) => Ok(code),
    }
}

/// The exit code that the launcher ends with after a launch.
pub open spec fn exit_code_of(result: Result<Option<i32>, String>) -> i32 {
    match result {
        Ok(Some(code)) => code,
        _ => UNKNOWN_EXIT_CODE,
    }
}

/// The command as one line, for messages.
pub fn get_command(executable: &str, args: &[String]) -> (command: String)
    ensures
        command@ == command_line(executable@, texts(args@)),
{
    let mut tokens = executable.to_owned();
    let mut i: usize = 0;
    assert(texts(args@).take(0) =~= Seq::<Seq<char>>::empty());
    while i < args.len()
        invariant
            i <= args@.len(),
            tokens@ == command_line(executable@, texts(args@).take(i as int)),
        decreases args@.len() - i,
    {
        tokens.append(" ");
        tokens.append(args[i].as_str());
        proof {
            let longer = texts(args@).take(i + 1);
            assert(longer.drop_last() =~= texts(args@).take(i as int));
            assert(longer.last() == args@[i as int]@);
        }
        i = i + 1;
    }
    assert(texts(args@).take(args@.len() as int) =~= texts(args@));
    tokens
}

fn exec(executable: &str, args: &[String], outcome: ProcessOutcome) -> (r: Result<Option<i32>, String>)
    ensures
        match r {
            Ok(code) => launch_result(command_line(executable@, texts(args@)), outcome) == Ok::<
                Option<i32>,
                Seq<char>,
            >(code),
            Err(message) => launch_result(command_line(executable@, texts(args@)), outcome) == Err::<
                Option<i32>,
                Seq<char>,
            >(message@),
        },
{
    let pretty_printed_command = get_command(executable, args);
    match outcome {
        ProcessOutcome::SpawnFailed(reason) => {
            let mut message = join_texts("Failed to execute process [", pretty_printed_command.as_str());
            message.append("]. ");
            message.append(reason.as_str());
            Err(message)
        },
        ProcessOutcome::WaitFailed(reason) => {
            let mut message = join_texts("Failed to wait child process [", pretty_printed_command.as_str());
            message.append("]. ");
            message.append(reason.as_str());
            Err(message)
        },
        ProcessOutcome::Exited(code) => Ok(code),
    }
}

/// What a launch of `context` comes to, given the outcome of running it:
/// the exit code of the program, or a message that names the command and
/// the reason of the failure.
pub fn execute(context: &CallContext, outcome: ProcessOutcome) -> (r: Result<Option<i32>, String>)
    ensures
        match r {
            Ok(code) => launch_result(command_line(context@.executable, context@.args), outcome) == Ok::<
                Option<i32>,
                Seq<char>,
            >(code),
            Err(message) => launch_result(command_line(context@.executable, context@.args), outcome) == Err::<
                Option<i32>,
                Seq<char>,
            >(message@),
        },
{
    exec(context.executable.as_str(), context.args.as_slice(), outcome)
}

/// The exit code that the launcher ends with: that of the program where it
/// gave one, else `UNKNOWN_EXIT_CODE`.
pub fn exit_code(result: &Result<Option<i32>, String>) -> (code: i32)
    ensures
        code == exit_code_of(*result),
{
    let unknown_exit_code = UNKNOWN_EXIT_CODE;
    match result {
        Ok(exit_code) => match exit_code {
            Some(code) => *code,
            None => unknown_exit_code,
        },
        Err(_) => unknown_exit_code,
    }
}

} // verus!
