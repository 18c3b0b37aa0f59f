//! The phases on which a run can fail.
//!
//! Each failure aborts the invocation: it is reported with the phase that
//! failed and the process exits with a non-zero code. A non-2xx response
//! from the webhook is not an error; only transport-level failures are.

use vstd::prelude::*;

verus! {

/// What failed, when a run aborts.
#[derive(Clone, Copy, Debug, PartialEq, Eq, Structural)]
pub enum RunError {
    /// The configuration file could not be opened.
    ConfigOpen,
    /// The configuration file could not be parsed, or lacks the webhook URL.
    ConfigParse,
    /// The shell could not be spawned.
    Spawn,
    /// The child's standard output could not be captured.
    CaptureStdout,
    /// The child's standard error could not be captured.
    CaptureStderr,
    /// The child's exit status could not be retrieved.
    Wait,
    /// The notification could not be sent.
    Notify,
}

impl RunError {
    /// The context reported for the failing phase.
    pub open spec fn context_spec(&self) -> Seq<char> {
        match self {
            RunError::ConfigOpen => "Failed to open config file"@,
            RunError::ConfigParse => "Can't parse config"@,
            RunError::Spawn => "Failed to spawn shell"@,
            RunError::CaptureStdout => "Failed to take stdout"@,
            RunError::CaptureStderr => "Failed to take stderr"@,
            RunError::Wait => "Failed to wait child shell"@,
            RunError::Notify => "Failed to send notification"@,
        }
    }

    /// Describes the failing phase.
    pub fn context_message(&self) -> (r: String)
        ensures
            r@ == self.context_spec(),
    {
        match self {
            RunError::ConfigOpen => "Failed to open config file".to_owned(),
            RunError::ConfigParse => "Can't parse config".to_owned(),
            RunError::Spawn => "Failed to spawn shell".to_owned(),
            RunError::CaptureStdout => "Failed to take stdout".to_owned(),
            RunError::CaptureStderr => "Failed to take stderr".to_owned(),
            RunError::Wait => "Failed to wait child shell".to_owned(),
            RunError::Notify => "Failed to send notification".to_owned(),
        }
    }

    /// The process exit code of an aborted run: never zero.
    pub fn exit_code(&self) -> (r: i32)
        ensures
            r == 1i32,
    {
        1
    }
}

} // verus!
