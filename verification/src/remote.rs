use vstd::prelude::*;

use crate::errors::DeployError;

verus! {

/// The outcome of opening a session: a handshake that completes without an
/// authenticated session is still a failure.
pub fn auth_outcome(authenticated: bool) -> (r: Result<(), DeployError>)
    ensures
        authenticated <==> r is Ok,
        !authenticated ==> r == Err::<(), DeployError>(DeployError::Auth),
{
    if authenticated {
        Ok(())
    } else {
        Err(DeployError::Auth)
    }
}

/// The result of a fully buffered remote command, from its exit status and
/// captured output: the standard output on success, and on any nonzero
/// status an error carrying that exact status, the original command text and
/// the captured standard error.
pub fn captured_outcome(status: i32, command: String, stdout: String, stderr: String) -> (r: Result<
    String,
    DeployError,
>)
    ensures
        status == 0 <==> r is Ok,
        r matches Ok(out) ==> out@ == stdout@,
        r matches Err(e) ==> e matches DeployError::RemoteExec {
            status: s,
            command: c,
            stderr: err,
        } && s == status && c@ == command@ && err@ == stderr@,
{
    if status == 0 {
        Ok(stdout)
    } else {
        Err(DeployError::RemoteExec { status, command, stderr })
    }
}

/// The result of a streamed remote command, from its exit status alone: the
/// output was already delivered line by line, so a nonzero status yields an
/// error carrying the status and the command, with empty captured stderr.
pub fn streamed_outcome(status: i32, command: String) -> (r: Result<(), DeployError>)
    ensures
        status == 0 <==> r is Ok,
        r matches Err(e) ==> e matches DeployError::RemoteExec {
            status: s,
            command: c,
            stderr: err,
        } && s == status && c@ == command@ && err@.len() == 0,
{
    if status == 0 {
        Ok(())
    } else {
        Err(DeployError::RemoteExec { status, command, stderr: String::new() })
    }
}

} // verus!
