//! What a finished shell command yields: its output, or a failure that
//! quotes its error stream.
use vstd::prelude::*;
use crate::error::YincError;
use crate::text::{concat, decode_lossy, lossy_of};

verus! {

/// The message of the error for a command that exited with failure.
pub open spec fn failure_message(stderr: Seq<u8>) -> Seq<char> {
    "Command failed: "@ + lossy_of(stderr)
}

/// Interprets the result of a command run by a platform shell.
pub struct ShellExecutor;

impl ShellExecutor {
    /// A command that succeeded yields its standard output, decoded with
    /// invalid sequences replaced; one that failed yields a shell error
    /// quoting its decoded standard error.
    pub fn outcome(success: bool, stdout: &Vec<u8>, stderr: &Vec<u8>) -> (r: Result<String, YincError>)
        ensures
            success ==> (r matches Ok(out) && out@ == lossy_of(stdout@)),
            !success ==> (r matches Err(YincError::Shell(m)) && m@ == failure_message(stderr@)),
    {
        if !success {
            let text = decode_lossy(stderr);
            return Err(YincError::Shell(concat("Command failed: ", text.as_str())));
        }
        Ok(decode_lossy(stdout))
    }
}

} // verus!
