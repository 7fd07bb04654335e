use radium_cli::mcp::{
    check_server_name, server_args, token_expiry, transport_of, transport_options, ServerNameError,
    Transport,
};

#[test]
fn transports_from_choices() {
    let options = transport_options();
    assert_eq!(options.len(), 3);
    assert_eq!(transport_of(&options[0]), Some(Transport::Stdio));
    assert_eq!(transport_of(&options[1]), Some(Transport::Sse));
    assert_eq!(transport_of(&options[2]), Some(Transport::Http));
    assert_eq!(transport_of("ftp - nope"), None);
}

#[test]
fn server_names() {
    let existing = vec!["files".to_string(), "git".to_string()];
    assert_eq!(check_server_name("", &existing), Err(ServerNameError::Empty));
    assert_eq!(check_server_name("git", &existing), Err(ServerNameError::Duplicate("git".to_string())));
    assert_eq!(check_server_name("web", &existing), Ok(()));
    assert_eq!(ServerNameError::Empty.message(), "Server name cannot be empty");
    assert_eq!(
        ServerNameError::Duplicate("git".to_string()).message(),
        "A server named 'git' already exists"
    );
}

#[test]
fn server_arguments() {
    assert_eq!(server_args(""), None);
    assert_eq!(server_args(" \t "), None);
    assert_eq!(
        server_args("  --port 8080\t--verbose "),
        Some(vec!["--port".to_string(), "8080".to_string(), "--verbose".to_string()])
    );
}

#[test]
fn token_expiry_lines() {
    assert_eq!(token_expiry(1000 + 2 * 3600 + 5 * 60 + 59, 1000), "Expires in: 2h 5m");
    assert_eq!(token_expiry(1059, 1000), "Expires in: 0h 0m");
    assert_eq!(token_expiry(1000, 1000), "Expired: 0 seconds ago");
    assert_eq!(token_expiry(900, 1000), "Expired: 100 seconds ago");
}
