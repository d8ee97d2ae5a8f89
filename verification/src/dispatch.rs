//! Mapping the finished external process's outcome to the caller's result.

use vstd::prelude::*;
use vstd::string::StringExecFns;
use vstd::utf8::valid_utf8;
use vstd::utf8::decode_utf8;

verus! {

/// What became of the attempt to run the external process: either it could
/// not be spawned at all, or it ran to completion with an exit status and
/// captured output streams.  The surrounding application constructs this
/// from the spawned process; everything that follows is a function of it.
pub enum ProcessOutcome {
    /// The process could not be started (executable missing, permission
    /// denied, ...); the text describes the spawn error.
    SpawnFailed { detail: String },
    /// The process ran to completion with this exit status and these
    /// captured output bytes.
    Exited { success: bool, stdout: Vec<u8>, stderr: Vec<u8> },
}

/// The dispatcher's answer to the caller: the decoded standard output on
/// success, a failure description otherwise.
#[derive(Debug, PartialEq, Eq)]
pub enum DispatchResult {
    Success(String),
    Failure(String),
}

/// The failure text when the external process could not be spawned.
pub open spec fn spawn_failure_text(detail: Seq<char>) -> Seq<char> {
    "Failed to execute command: "@ + detail
}

/// The failure text when a successful process wrote bytes to standard
/// output that are not valid text.
pub open spec fn stdout_encoding_failure_text() -> Seq<char> {
    "Invalid UTF-8 in command output"@
}

/// The failure text when a failed process wrote bytes to standard error
/// that are not valid text.
pub open spec fn stderr_encoding_failure_text() -> Seq<char> {
    "Invalid UTF-8 in error output"@
}

/// Relies on String::from_utf8: it returns the string decoding the given
/// bytes exactly when they are valid UTF-8, and fails otherwise.
#[verifier::external_body]
fn bytes_to_text(bytes: Vec<u8>) -> (r: Option<String>)
    ensures
        r is Some <==> valid_utf8(bytes@),
        r is Some ==> r->0@ == decode_utf8(bytes@),
{
    String::from_utf8(bytes).ok()
}

/// Maps the outcome of the external process to the caller's result:
/// a spawn failure is relayed at once without touching any output; a
/// successful exit returns the decoded standard output, unless those bytes
/// are not valid text, which is a failure even though the process itself
/// succeeded; a failing exit relays the decoded standard error verbatim.
pub fn interpret_outcome(outcome: ProcessOutcome) -> (r: DispatchResult)
    ensures
        outcome matches ProcessOutcome::SpawnFailed { detail } ==> (r matches
            DispatchResult::Failure(t) && t@ == spawn_failure_text(detail@)),
        outcome matches ProcessOutcome::Exited { success, stdout, stderr } ==> {
            &&& ((success && valid_utf8(stdout@)) ==> (r matches
                DispatchResult::Success(t) && t@ == decode_utf8(stdout@)))
            &&& ((success && !valid_utf8(stdout@)) ==> (r matches
                DispatchResult::Failure(t) && t@ == stdout_encoding_failure_text()))
            &&& ((!success && valid_utf8(stderr@)) ==> (r matches
                DispatchResult::Failure(t) && t@ == decode_utf8(stderr@)))
            &&& ((!success && !valid_utf8(stderr@)) ==> (r matches
                DispatchResult::Failure(t) && t@ == stderr_encoding_failure_text()))
        },
{
    match outcome {
        ProcessOutcome::SpawnFailed { detail } => {
            let mut msg: String = String::from_str("Failed to execute command: ");
            msg.append(detail.as_str());
            DispatchResult::Failure(msg)
        },
        ProcessOutcome::Exited { success, stdout, stderr } => {
            if success {
                match bytes_to_text(stdout) {
                    Some(t) => DispatchResult::Success(t),
                    None => DispatchResult::Failure(
                        String::from_str("Invalid UTF-8 in command output"),
                    ),
                }
            } else {
                match bytes_to_text(stderr) {
                    Some(t) => DispatchResult::Failure(t),
                    None => DispatchResult::Failure(
                        String::from_str("Invalid UTF-8 in error output"),
                    ),
                }
            }
        },
    }
}

} // verus!
