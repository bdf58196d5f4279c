use deploy::errors::DeployError;
use deploy::remote::auth_outcome;
use deploy::remote::captured_outcome;
use deploy::remote::streamed_outcome;

#[test]
fn zero_status_is_success() {
    let r = captured_outcome(0, "ls".to_string(), "out".to_string(), "".to_string());
    assert_eq!(r, Ok("out".to_string()));
    assert_eq!(streamed_outcome(0, "ls".to_string()), Ok(()));
}

#[test]
fn nonzero_status_carries_status_and_command() {
    let r = captured_outcome(3, "tar -xzvf x".to_string(), "".to_string(), "boom".to_string());
    match r {
        Err(DeployError::RemoteExec { status, command, stderr }) => {
            assert_eq!(status, 3);
            assert_eq!(command, "tar -xzvf x".to_string());
            assert_eq!(stderr, "boom".to_string());
        }
        other => panic!("unexpected outcome: {:?}", other),
    }
}

#[test]
fn status_gating_ignores_whether_output_was_empty() {
    // Nonempty output, still an error on nonzero status.
    let r = captured_outcome(127, "run".to_string(), "lots of output".to_string(), "".to_string());
    match r {
        Err(DeployError::RemoteExec { status, command, .. }) => {
            assert_eq!(status, 127);
            assert_eq!(command, "run".to_string());
        }
        other => panic!("unexpected outcome: {:?}", other),
    }
    // Empty output, same error shape.
    let r2 = streamed_outcome(-1, "x".to_string());
    match r2 {
        Err(DeployError::RemoteExec { status, command, stderr }) => {
            assert_eq!(status, -1);
            assert_eq!(command, "x".to_string());
            assert_eq!(stderr, "".to_string());
        }
        other => panic!("unexpected outcome: {:?}", other),
    }
}

#[test]
fn handshake_without_authentication_fails() {
    assert_eq!(auth_outcome(true), Ok(()));
    assert_eq!(auth_outcome(false), Err(DeployError::Auth));
}

#[test]
fn error_messages_name_the_failure() {
    let e = DeployError::RemoteExec {
        status: 3,
        command: "foo".to_string(),
        stderr: "boom".to_string(),
    };
    assert_eq!(e.message(), "remote command failed (3): foo\nboom".to_string());
    let e2 = DeployError::RemoteExec {
        status: -9,
        command: "bar".to_string(),
        stderr: "".to_string(),
    };
    assert_eq!(e2.message(), "remote command failed (-9): bar\n".to_string());
    assert_eq!(
        DeployError::Auth.message(),
        "the session is not authenticated".to_string()
    );
    let c = DeployError::Connect { detail: "refused".to_string() };
    assert_eq!(c.message(), "could not connect: refused".to_string());
}
