use vstd::prelude::*;

use crate::text::i32_decimal;
use crate::text::signed_decimal_rep;

verus! {

/// The error taxonomy of the deployment system.
///
/// Every failure of the transport session, the archiver, the file transfer,
/// the deploy pipeline or the change detector is one of these variants, and
/// propagates unchanged to the top-level workflow: there is no retry and no
/// local recovery anywhere in the library.
#[derive(Debug, Clone, PartialEq, Eq)]
pub enum DeployError {
    /// The network connection to the remote host could not be established.
    Connect { detail: String },
    /// The handshake succeeded but the session is not authenticated.
    Auth,
    /// A remote command exited with a nonzero status.  The error carries the
    /// exact status, the original command text, and the captured standard
    /// error (empty for the streaming variant, whose stderr was already
    /// delivered to the sink line by line).
    RemoteExec { status: i32, command: String, stderr: String },
    /// Producing a compressed archive of a directory tree failed.
    Archive { detail: String },
    /// Uploading a file to the remote host failed.
    Transfer { detail: String },
    /// A local filesystem operation of the change detector failed.
    Fs { detail: String },
}

impl DeployError {
    /// The diagnostic the top-level workflow prints for this error.
    pub open spec fn spec_message(&self) -> Seq<char> {
        match self {
            DeployError::Connect { detail } => "could not connect: "@ + detail@,
            DeployError::Auth => "the session is not authenticated"@,
            DeployError::RemoteExec { status, command, stderr } => "remote command failed ("@
                + signed_decimal_rep(*status as int) + "): "@ + command@ + "\n"@ + stderr@,
            DeployError::Archive { detail } => "could not archive: "@ + detail@,
            DeployError::Transfer { detail } => "could not upload: "@ + detail@,
            DeployError::Fs { detail } => "filesystem operation failed: "@ + detail@,
        }
    }

    /// Renders the diagnostic.
    pub fn message(&self) -> (r: String)
        ensures
            r@ == self.spec_message(),
    {
        match self {
            DeployError::Connect { detail } => {
                let mut s = "could not connect: ".to_owned();
                s.append(detail.as_str());
                s
            },
            DeployError::Auth => "the session is not authenticated".to_owned(),
            DeployError::RemoteExec { status, command, stderr } => {
                let mut s = "remote command failed (".to_owned();
                let d = i32_decimal(*status);
                s.append(d.as_str());
                s.append("): ");
                s.append(command.as_str());
                s.append("\n");
                s.append(stderr.as_str());
                s
            },
            DeployError::Archive { detail } => {
                let mut s = "could not archive: ".to_owned();
                s.append(detail.as_str());
                s
            },
            DeployError::Transfer { detail } => {
                let mut s = "could not upload: ".to_owned();
                s.append(detail.as_str());
                s
            },
            DeployError::Fs { detail } => {
                let mut s = "filesystem operation failed: ".to_owned();
                s.append(detail.as_str());
                s
            },
        }
    }
}

} // verus!
