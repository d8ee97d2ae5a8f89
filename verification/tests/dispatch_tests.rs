use print_dispatch::dispatch::interpret_outcome;
use print_dispatch::dispatch::DispatchResult;
use print_dispatch::dispatch::ProcessOutcome;

#[test]
fn successful_exit_returns_decoded_stdout() {
    let outcome = ProcessOutcome::Exited {
        success: true,
        stdout: b"printed 1 receipt\n".to_vec(),
        stderr: Vec::new(),
    };
    let result = interpret_outcome(outcome);
    assert_eq!(result, DispatchResult::Success("printed 1 receipt\n".to_string()));
}

#[test]
fn successful_exit_with_empty_stdout_is_still_success() {
    let outcome = ProcessOutcome::Exited {
        success: true,
        stdout: Vec::new(),
        stderr: Vec::new(),
    };
    assert_eq!(interpret_outcome(outcome), DispatchResult::Success(String::new()));
}

#[test]
fn successful_exit_decodes_multibyte_stdout() {
    let outcome = ProcessOutcome::Exited {
        success: true,
        stdout: vec![0x68, 0xC3, 0xA9],
        stderr: Vec::new(),
    };
    assert_eq!(interpret_outcome(outcome), DispatchResult::Success("h\u{e9}".to_string()));
}

#[test]
fn failing_exit_relays_decoded_stderr() {
    let outcome = ProcessOutcome::Exited {
        success: false,
        stdout: b"ignored".to_vec(),
        stderr: b"printer offline".to_vec(),
    };
    let result = interpret_outcome(outcome);
    assert_eq!(result, DispatchResult::Failure("printer offline".to_string()));
}

#[test]
fn invalid_stdout_bytes_are_a_failure_despite_success_status() {
    let outcome = ProcessOutcome::Exited {
        success: true,
        stdout: vec![0xFF, 0xFE, 0x80],
        stderr: Vec::new(),
    };
    let result = interpret_outcome(outcome);
    assert_eq!(result, DispatchResult::Failure("Invalid UTF-8 in command output".to_string()));
}

#[test]
fn invalid_stderr_bytes_are_an_encoding_failure() {
    let outcome = ProcessOutcome::Exited {
        success: false,
        stdout: Vec::new(),
        stderr: vec![0xC0, 0x00],
    };
    let result = interpret_outcome(outcome);
    assert_eq!(result, DispatchResult::Failure("Invalid UTF-8 in error output".to_string()));
}

#[test]
fn spawn_failure_is_relayed_without_touching_output() {
    let outcome = ProcessOutcome::SpawnFailed {
        detail: "No such file or directory (os error 2)".to_string(),
    };
    let result = interpret_outcome(outcome);
    assert_eq!(
        result,
        DispatchResult::Failure(
            "Failed to execute command: No such file or directory (os error 2)".to_string()
        )
    );
}
