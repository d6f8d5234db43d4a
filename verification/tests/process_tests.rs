use alias_launcher::process::{execute, exit_code, get_command, CallContext, ProcessOutcome, UNKNOWN_EXIT_CODE};

fn context() -> CallContext {
    CallContext { executable: "/usr/bin/git".to_string(), args: vec!["status".to_string(), "--short".to_string()] }
}

#[test]
fn command_is_the_program_and_its_arguments() {
    assert_eq!("/usr/bin/git status --short", get_command("/usr/bin/git", &["status".to_string(), "--short".to_string()]));
    assert_eq!("/usr/bin/git", get_command("/usr/bin/git", &[]));
    assert_eq!("ls  a b", get_command("ls", &["".to_string(), "a b".to_string()]));
}

#[test]
fn exit_code_of_the_program_is_handed_on() {
    assert_eq!(Ok(Some(3)), execute(&context(), ProcessOutcome::Exited(Some(3))));
    assert_eq!(Ok(Some(0)), execute(&context(), ProcessOutcome::Exited(Some(0))));
    assert_eq!(Ok(None), execute(&context(), ProcessOutcome::Exited(None)));
}

#[test]
fn failure_to_start_names_the_command() {
    assert_eq!(
        Err("Failed to execute process [/usr/bin/git status --short]. No such file or directory".to_string()),
        execute(&context(), ProcessOutcome::SpawnFailed("No such file or directory".to_string()))
    );
}

#[test]
fn failure_to_wait_names_the_command() {
    assert_eq!(
        Err("Failed to wait child process [/usr/bin/git status --short]. interrupted".to_string()),
        execute(&context(), ProcessOutcome::WaitFailed("interrupted".to_string()))
    );
}

#[test]
fn launcher_ends_as_the_program_did() {
    assert_eq!(7, exit_code(&Ok(Some(7))));
    assert_eq!(0, exit_code(&Ok(Some(0))));
    assert_eq!(-1, exit_code(&Ok(None)));
    assert_eq!(-1, exit_code(&Err("failed".to_string())));
    assert_eq!(-1, UNKNOWN_EXIT_CODE);
}
