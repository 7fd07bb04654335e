use radium_cli::braingrid::{braingrid_error_message, BraingridFailure};

#[test]
fn braingrid_failure_messages() {
    assert_eq!(
        braingrid_error_message(&BraingridFailure::NotFound("gone".to_string()), "REQ-7"),
        "Resource not found: REQ-7 (gone)"
    );
    assert_eq!(
        braingrid_error_message(&BraingridFailure::CliNotFound("/bin/bg".to_string()), "x"),
        "Braingrid CLI not found at '/bin/bg'. Please ensure braingrid is installed and in PATH, or set BRAINGRID_CLI_PATH environment variable."
    );
    assert_eq!(
        braingrid_error_message(&BraingridFailure::AuthenticationFailed("bad token".to_string()), "x"),
        "Braingrid authentication failed: bad token. Please check your credentials."
    );
    assert_eq!(
        braingrid_error_message(&BraingridFailure::Timeout("30s".to_string()), "x"),
        "Braingrid command timed out after 30s"
    );
    assert_eq!(
        braingrid_error_message(&BraingridFailure::IoError("denied".to_string()), "x"),
        "IO error: denied"
    );
    assert_eq!(
        braingrid_error_message(&BraingridFailure::CommandFailed("exit 2".to_string()), "x"),
        "Braingrid command failed: exit 2"
    );
}
