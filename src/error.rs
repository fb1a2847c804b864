use vstd::prelude::*;

verus! {

/// The hard failures that end a command.
#[derive(Debug, Clone, Copy, PartialEq, Eq, Structural)]
pub enum AdbError {
    /// The interactive chooser gave no device.
    Selection,
    /// The bridge executable could not be started.
    Spawn,
    /// Waiting for a started bridge process failed.
    Wait,
    /// No IPv4 address was found where one is required.
    NoIpAddress,
    /// An answer could not be read from the user.
    Input,
    /// A step that the rest of a workflow needs exited with failure.
    StepFailed,
}

} // verus!
