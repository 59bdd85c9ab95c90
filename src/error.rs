use vstd::prelude::*;

verus! {

/// Why an operation did not go through.
#[derive(Debug, Clone, PartialEq, Eq)]
pub enum ErrorKind {
    /// A name or another input broke a rule; nothing was changed.
    Validation(String),
    /// The repository or user does not exist; nothing was changed.
    NotFound(String),
    /// The target of a create is already there.
    AlreadyExists(String),
    /// A delegated command exited with a non-zero status: its captured
    /// standard output and the status.
    Command { output: String, code: i32 },
}

/// What a delegated command left behind: captured output and exit status.
/// A command whose failure is tolerated yields its output either way.
pub fn command_outcome(output: String, code: i32, check_exit_code: bool) -> (r: Result<
    String,
    ErrorKind,
>)
    ensures
        check_exit_code && code != 0 ==> (r matches Err(ErrorKind::Command { output: o, code: c })
            && o@ == output@ && c == code),
        !(check_exit_code && code != 0) ==> (r matches Ok(o) && o@ == output@),
{
    if check_exit_code && code != 0 {
        Err(ErrorKind::Command { output, code })
    } else {
        Ok(output)
    }
}

} // verus!
