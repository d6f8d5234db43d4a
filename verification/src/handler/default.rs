//! The launcher's main business: to work out which program to run, and
//! with which arguments.

use crate::config::{alias_of, executable_of, run_as_shell_of, Alias, AliasView, Configuration};
use crate::document::Node;
use crate::environment::autodetect_executable::{autodetect_executable, candidates, FileSystemWrapper};
use crate::environment::expand_env::{expand, expand_env_var};
use crate::environment::{Environment, EnvironmentView};
use crate::handler::{Action, Handler};
use crate::process::{exit_code, exit_code_of, CallContext, CallContextView, UNKNOWN_EXIT_CODE};
use crate::text::{append_all, join_texts, texts};
use vstd::prelude::*;
use vstd::slice::slice_subrange;

verus! {

/// The message for a launcher that finds no program to run.
pub open spec fn cannot_autodetect(name: Seq<char>) -> Seq<char> {
    "Cannot autodetect executable: "@ + name
}

/// Whether the program is to run through the shell; it is not where the
/// configuration is silent.
pub open spec fn shell_mode(root: Node) -> Result<bool, Seq<char>> {
    match run_as_shell_of(root) {
        Ok(Some(flag)) => Ok(flag),
        Ok(None) => Ok(false),
        Err(message) => Err(message),
    }
}

/// The plan for arguments that go to the program: the program itself with
/// these arguments, or in shell mode the shell with the program put before
/// them.
pub open spec fn direct_call(
    arguments: Seq<Seq<char>>,
    run_as_shell: bool,
    executable: Seq<char>,
    shell: Seq<char>,
) -> CallContextView {
    if run_as_shell {
        CallContextView { executable: shell, args: seq![executable] + arguments }
    } else {
        CallContextView { executable, args: arguments }
    }
}

/// The plan for a shell alias: the shell runs the command, with `script`
/// in the place of the script's name and the arguments after the alias as
/// its parameters.
pub open spec fn shell_alias_call(call_arguments: Seq<Seq<char>>, shell: Seq<char>, command: Seq<char>) -> CallContextView {
    CallContextView { executable: shell, args: seq!["-c"@, command, "script"@] + call_arguments.skip(1) }
}

/// The launch plan for the arguments of a call, given the program that the
/// launcher stands in for. The first argument is looked up among the
/// aliases. A shell alias goes to the shell, whatever the shell mode. A
/// regular alias gives way to its arguments. Without an alias, and without
/// any argument, the call goes on as it is.
pub open spec fn resolved(
    root: Node,
    call_arguments: Seq<Seq<char>>,
    executable: Seq<char>,
    shell: Seq<char>,
) -> Result<CallContextView, Seq<char>> {
    let alias = if call_arguments.len() == 0 {
        Ok(None)
    } else {
        alias_of(root, call_arguments[0])
    };
    match alias {
        Err(message) => Err(message),
        Ok(Some(AliasView::Shell(command))) => Ok(shell_alias_call(call_arguments, shell, command)),
        Ok(Some(AliasView::Regular(alias_arguments))) => match shell_mode(root) {
            Err(message) => Err(message),
            Ok(run_as_shell) => Ok(
                direct_call(alias_arguments + call_arguments.skip(1), run_as_shell, executable, shell),
            ),
        },
        Ok(None) => match shell_mode(root) {
            Err(message) => Err(message),
            Ok(run_as_shell) => Ok(direct_call(call_arguments, run_as_shell, executable, shell)),
        },
    }
}

/// A launch plan, or the message of a failure, as contracts see them.
pub open spec fn plan_of(result: Result<CallContext, String>) -> Result<CallContextView, Seq<char>> {
    match result {
        Ok(context) => Ok(context@),
        Err(message) => Err(message@),
    }
}

/// Whether `plan` is a launch plan of a run in the given environment. The
/// program is the one that the configuration names, with the variables in
/// its path expanded. Where the configuration names none, the program is
/// one of the candidates of the search, or the run fails for want of a
/// program; without a candidate it fails. An ill-typed setting of the
/// program fails the run before anything else.
pub open spec fn is_plan_for(environment: EnvironmentView, root: Node, plan: Result<CallContextView, Seq<char>>) -> bool {
    let found = candidates(environment.search_path, environment.executable_dir, environment.executable_name);
    let not_found = Err::<CallContextView, Seq<char>>(cannot_autodetect(environment.executable_name));
    match executable_of(root) {
        Err(message) => plan == Err::<CallContextView, Seq<char>>(message),
        Ok(Some(path)) => plan == resolved(
            root,
            environment.call_arguments,
            expand(path, environment.variables),
            environment.shell,
        ),
        Ok(None) => {
            &&& found.len() == 0 ==> plan == not_found
            &&& {
                ||| plan == not_found
                ||| exists|i: int|
                    0 <= i < found.len() && plan == resolved(
                        root,
                        environment.call_arguments,
                        #[trigger] found[i],
                        environment.shell,
                    )
            }
        },
    }
}

/// A call without arguments goes to the program as it is, and no alias is
/// looked up.
pub proof fn lemma_no_arguments(root: Node, executable: Seq<char>, shell: Seq<char>)
    requires
        shell_mode(root) == Ok::<bool, Seq<char>>(false),
    ensures
        resolved(root, Seq::empty(), executable, shell) == Ok::<CallContextView, Seq<char>>(
            CallContextView { executable, args: Seq::empty() },
        ),
{
}

/// Without an alias for the first argument and with the shell mode off,
/// the program is called with the arguments as they are.
pub proof fn lemma_forward_unchanged(
    root: Node,
    call_arguments: Seq<Seq<char>>,
    executable: Seq<char>,
    shell: Seq<char>,
)
    requires
        call_arguments.len() > 0,
        alias_of(root, call_arguments[0]) == Ok::<Option<AliasView>, Seq<char>>(None),
        shell_mode(root) == Ok::<bool, Seq<char>>(false),
    ensures
        resolved(root, call_arguments, executable, shell) == Ok::<CallContextView, Seq<char>>(
            CallContextView { executable, args: call_arguments },
        ),
{
}

/// With the shell mode off, the arguments of a regular alias take the
/// place of the alias, before the arguments that follow it.
pub proof fn lemma_regular_alias(
    root: Node,
    call_arguments: Seq<Seq<char>>,
    alias_arguments: Seq<Seq<char>>,
    executable: Seq<char>,
    shell: Seq<char>,
)
    requires
        call_arguments.len() > 0,
        alias_of(root, call_arguments[0]) == Ok::<Option<AliasView>, Seq<char>>(
            Some(AliasView::Regular(alias_arguments)),
        ),
        shell_mode(root) == Ok::<bool, Seq<char>>(false),
    ensures
        resolved(root, call_arguments, executable, shell) == Ok::<CallContextView, Seq<char>>(
            CallContextView { executable, args: alias_arguments + call_arguments.skip(1) },
        ),
{
}

/// In shell mode a regular alias goes to the shell, with the program
/// before the arguments of the alias.
pub proof fn lemma_regular_alias_in_shell_mode(
    root: Node,
    call_arguments: Seq<Seq<char>>,
    alias_arguments: Seq<Seq<char>>,
    executable: Seq<char>,
    shell: Seq<char>,
)
    requires
        call_arguments.len() > 0,
        alias_of(root, call_arguments[0]) == Ok::<Option<AliasView>, Seq<char>>(
            Some(AliasView::Regular(alias_arguments)),
        ),
        shell_mode(root) == Ok::<bool, Seq<char>>(true),
    ensures
        resolved(root, call_arguments, executable, shell) == Ok::<CallContextView, Seq<char>>(
            CallContextView { executable: shell, args: seq![executable] + (alias_arguments + call_arguments.skip(1)) },
        ),
{
}

/// A shell alias goes to the shell as `-c`, the command and `script`,
/// before the arguments that follow the alias; the shell mode has no part
/// in it, not even an ill-typed one.
pub proof fn lemma_shell_alias(
    root: Node,
    call_arguments: Seq<Seq<char>>,
    command: Seq<char>,
    executable: Seq<char>,
    shell: Seq<char>,
)
    requires
        call_arguments.len() > 0,
        alias_of(root, call_arguments[0]) == Ok::<Option<AliasView>, Seq<char>>(Some(AliasView::Shell(command))),
    ensures
        resolved(root, call_arguments, executable, shell) == Ok::<CallContextView, Seq<char>>(
            CallContextView { executable: shell, args: seq!["-c"@, command, "script"@] + call_arguments.skip(1) },
        ),
{
}

/// In shell mode a call without an alias goes to the shell, with the
/// program before all the arguments.
pub proof fn lemma_forward_in_shell_mode(
    root: Node,
    call_arguments: Seq<Seq<char>>,
    executable: Seq<char>,
    shell: Seq<char>,
)
    requires
        call_arguments.len() > 0 ==> alias_of(root, call_arguments[0]) == Ok::<Option<AliasView>, Seq<char>>(None),
        shell_mode(root) == Ok::<bool, Seq<char>>(true),
    ensures
        resolved(root, call_arguments, executable, shell) == Ok::<CallContextView, Seq<char>>(
            CallContextView { executable: shell, args: seq![executable] + call_arguments },
        ),
        (seq![executable] + call_arguments)[0] == executable,
        (seq![executable] + call_arguments).skip(1) == call_arguments,
{
    assert((seq![executable] + call_arguments).skip(1) =~= call_arguments);
}

/// The failures of a plan come in a fixed order: an ill-typed alias
/// before an ill-typed shell mode.
pub proof fn lemma_alias_error_first(
    root: Node,
    call_arguments: Seq<Seq<char>>,
    executable: Seq<char>,
    shell: Seq<char>,
    message: Seq<char>,
)
    requires
        call_arguments.len() > 0,
        alias_of(root, call_arguments[0]) == Err::<Option<AliasView>, Seq<char>>(message),
    ensures
        resolved(root, call_arguments, executable, shell) == Err::<CallContextView, Seq<char>>(message),
{
}

fn run_as_shell(configuration: &Configuration) -> (r: Result<bool, String>)
    ensures
        match r {
            Ok(flag) => shell_mode(configuration@) == Ok::<bool, Seq<char>>(flag),
            Err(message) => shell_mode(configuration@) == Err::<bool, Seq<char>>(message@),
        },
{
    match configuration.get_run_as_shell() {
        Ok(None) => Ok(false),
        Ok(Some(as_shell)) => Ok(as_shell),
        Err(message) => Err(message),
    }
}

fn forward_call_to_target_application(
    configuration: &Configuration,
    call_arguments: &[String],
    executable: String,
    shell: String,
) -> (r: Result<CallContext, String>)
    ensures
        match shell_mode(configuration@) {
            Ok(flag) => plan_of(r) == Ok::<CallContextView, Seq<char>>(
                direct_call(texts(call_arguments@), flag, executable@, shell@),
            ),
            Err(message) => plan_of(r) == Err::<CallContextView, Seq<char>>(message),
        },
{
    let mut args: Vec<String> = Vec::new();
    let run_as_shell = match run_as_shell(configuration) {
        Ok(flag) => flag,
        Err(message) => {
            return Err(message);
        },
    };
    if run_as_shell {
        args.push(executable.clone());
    }
    let ghost prefix = texts(args@);
    assert(prefix =~= if run_as_shell {
        seq![executable@]
    } else {
        Seq::empty()
    });
    append_all(&mut args, call_arguments);
    assert(run_as_shell ==> texts(args@) =~= seq![executable@] + texts(call_arguments@));
    assert(!run_as_shell ==> texts(args@) =~= texts(call_arguments@));
    Ok(
        CallContext {
            executable: if run_as_shell {
                shell
            } else {
                executable
            },
            args,
        },
    )
}

fn handle_regular_alias(
    configuration: &Configuration,
    call_arguments: &[String],
    executable: &String,
    shell: &String,
    alias_arguments: Vec<String>,
) -> (r: Result<CallContext, String>)
    requires
        call_arguments@.len() >= 1,
    ensures
        match shell_mode(configuration@) {
            Ok(flag) => plan_of(r) == Ok::<CallContextView, Seq<char>>(
                direct_call(texts(alias_arguments@) + texts(call_arguments@).skip(1), flag, executable@, shell@),
            ),
            Err(message) => plan_of(r) == Err::<CallContextView, Seq<char>>(message),
        },
{
    let mut args: Vec<String> = Vec::new();
    let run_as_shell = match run_as_shell(configuration) {
        Ok(flag) => flag,
        Err(message) => {
            return Err(message);
        },
    };
    if run_as_shell {
        args.push(executable.clone());
    }
    let ghost prefix = texts(args@);
    assert(prefix =~= if run_as_shell {
        seq![executable@]
    } else {
        Seq::empty()
    });
    append_all(&mut args, alias_arguments.as_slice());
    let rest = slice_subrange(call_arguments, 1, call_arguments.len());
    assert(texts(rest@) =~= texts(call_arguments@).skip(1));
    append_all(&mut args, rest);
    assert(texts(args@) =~= prefix + (texts(alias_arguments@) + texts(call_arguments@).skip(1)));
    assert(!run_as_shell ==> texts(args@) =~= texts(alias_arguments@) + texts(call_arguments@).skip(1));
    Ok(
        CallContext {
            executable: if run_as_shell {
                shell.clone()
            } else {
                executable.clone()
            },
            args,
        },
    )
}

fn handle_shell_alias(call_arguments: &[String], shell: &String, shell_command: String) -> (r: Result<
    CallContext,
    String,
>)
    requires
        call_arguments@.len() >= 1,
    ensures
        plan_of(r) == Ok::<CallContextView, Seq<char>>(
            shell_alias_call(texts(call_arguments@), shell@, shell_command@),
        ),
{
    let mut args: Vec<String> = Vec::new();
    args.push("-c".to_owned());
    args.push(shell_command);
    args.push("script".to_owned());
    let ghost prefix = texts(args@);
    assert(prefix =~= seq!["-c"@, shell_command@, "script"@]);
    let rest = slice_subrange(call_arguments, 1, call_arguments.len());
    assert(texts(rest@) =~= texts(call_arguments@).skip(1));
    append_all(&mut args, rest);
    Ok(CallContext { executable: shell.clone(), args })
}

/// The launch plan for the arguments of a call, given the program that the
/// launcher stands in for and the shell.
pub fn resolve_call_context(
    configuration: &Configuration,
    call_arguments: &[String],
    executable: String,
    shell: String,
) -> (r: Result<CallContext, String>)
    ensures
        plan_of(r) == resolved(configuration@, texts(call_arguments@), executable@, shell@),
{
    let aliased_command: Option<Alias> = if call_arguments.len() == 0 {
        None
    } else {
        assert(texts(call_arguments@)[0] == call_arguments@[0]@);
        match configuration.get_alias(call_arguments[0].as_str()) {
            Ok(alias) => alias,
            Err(message) => {
                return Err(message);
            },
        }
    };
    match aliased_command {
        Some(alias) => {
            match alias {
                Alias::ShellAlias(shell_command) => handle_shell_alias(call_arguments, &shell, shell_command),
                Alias::RegularAlias(alias_arguments) => handle_regular_alias(
                    configuration,
                    call_arguments,
                    &executable,
                    &shell,
                    alias_arguments,
                ),
            }
        },
        None => forward_call_to_target_application(configuration, call_arguments, executable, shell),
    }
}

fn get_executable<F: FileSystemWrapper>(environment: &Environment, configuration: &Configuration, fs: &F) -> (r:
    Result<Option<String>, String>)
    ensures
        match executable_of(configuration@) {
            Err(message) => r matches Err(m) && m@ == message,
            Ok(Some(path)) => r matches Ok(Some(e)) && e@ == expand(path, environment@.variables),
            Ok(None) => match r {
                Ok(Some(e)) => candidates(
                    environment@.search_path,
                    environment@.executable_dir,
                    environment@.executable_name,
                ).contains(e@),
                Ok(None) => true,
                Err(_) => false,
            },
        },
        executable_of(configuration@) == Ok::<Option<Seq<char>>, Seq<char>>(None) && candidates(
            environment@.search_path,
            environment@.executable_dir,
            environment@.executable_name,
        ).len() == 0 ==> r == Ok::<Option<String>, String>(None),
{
    match configuration.get_executable() {
        Err(message) => Err(message),
        Ok(Some(config)) => Ok(Some(expand_env_var(config.as_str(), environment.variables()))),
        Ok(None) => Ok(
            autodetect_executable(
                environment.executable_dir().as_str(),
                environment.executable_name().as_str(),
                environment.search_path(),
                fs,
            ),
        ),
    }
}

/// The launch plan of a run. The program is the one that the configuration
/// names, with the variables in its path expanded; where it names none,
/// the file system is searched for one, and the plan is for the candidate
/// that the file system accepted. The run fails where the program's
/// setting is no string, where the search finds nothing, and where the
/// alias or the shell mode is ill-typed.
pub fn get_call_context<F: FileSystemWrapper>(environment: &Environment, configuration: &Configuration, fs: &F) -> (r:
    Result<CallContext, String>)
    ensures
        is_plan_for(environment@, configuration@, plan_of(r)),
{
    let call_arguments = environment.call_arguments();
    let executable = match get_executable(environment, configuration, fs) {
        Err(message) => {
            return Err(message);
        },
        Ok(None) => {
            return Err(join_texts("Cannot autodetect executable: ", environment.executable_name().as_str()));
        },
        Ok(Some(executable)) => executable,
    };
    let shell = environment.shell();
    resolve_call_context(configuration, call_arguments, executable, shell)
}

/// The plan that an action carries out, or the message of the failure
/// that it reports.
pub open spec fn plan_of_action(action: Action) -> Result<CallContextView, Seq<char>> {
    match action {
        Action::Launch(context) => Ok(context@),
        Action::Fail { message, exit_code } => Err(message@),
        _ => arbitrary(),
    }
}

/// Whether an action is the default handler's answer to a run: the launch
/// of a plan of the run, or the report of why there is none, with
/// `UNKNOWN_EXIT_CODE` as the exit code.
pub open spec fn is_first_step(environment: EnvironmentView, root: Node, action: Action) -> bool {
    &&& action is Launch || action is Fail
    &&& action matches Action::Fail { message, exit_code } ==> exit_code == UNKNOWN_EXIT_CODE
    &&& is_plan_for(environment, root, plan_of_action(action))
}

/// What follows a launch: the launcher ends with the exit code of the
/// program, or with `UNKNOWN_EXIT_CODE` where a signal ended the program;
/// a failure of the launch is reported first.
pub open spec fn last_step(result: Result<Option<i32>, String>) -> Action {
    match result {
        Ok(_) => Action::Exit(exit_code_of(result)),
        Err(message) => Action::Fail { message, exit_code: exit_code_of(result) },
    }
}

/// What the launcher does once the launch is over, given its result.
pub fn conclude(result: Result<Option<i32>, String>) -> (action: Action)
    ensures
        action == last_step(result),
{
    let code = exit_code(&result);
    match result {
        Ok(_) => Action::Exit(code),
        Err(error) => Action::Fail { message: error, exit_code: code },
    }
}

/// What the default handler asks for: to launch the program of the plan,
/// or to report why there is no plan.
pub fn execute<F: FileSystemWrapper>(environment: &Environment, configuration: &Configuration, fs: &F) -> (action:
    Action)
    ensures
        is_first_step(environment@, configuration@, action),
{
    let call_context_result = get_call_context(environment, configuration, fs);
    match call_context_result {
        Ok(call_context) => Action::Launch(call_context),
        Err(error) => Action::Fail { message: error, exit_code: UNKNOWN_EXIT_CODE },
    }
}

/// The handler that forwards the call to the program.
pub struct DefaultHandler {}

impl Handler for DefaultHandler {
    /// Asks for the launch of the program, or for the report of why there
    /// is nothing to launch.
    fn handle<F: FileSystemWrapper>(&self, environment: &Environment, configuration: &Configuration, fs: &F) -> (action:
        Action)
        ensures
            is_first_step(environment@, configuration@, action),
    {
        execute(environment, configuration, fs)
    }
}

impl DefaultHandler {
    pub fn new() -> DefaultHandler {
        DefaultHandler {  }
    }
}

} // verus!
