use mulch_core::error::MulchError;

#[test]
fn messages_of_the_failures() {
    assert_eq!(
        MulchError::NotInitialized.message(),
        "No .mulch/ directory found. Run `mulch init` first."
    );
    assert_eq!(
        MulchError::DomainNotFound { domain: "rust".to_string(), available: "cli, core".to_string() }
            .message(),
        "Domain \"rust\" not found in config. Available domains: cli, core"
    );
    assert_eq!(
        MulchError::InvalidDomainName("a b".to_string()).message(),
        "Invalid domain name: \"a b\". Only alphanumeric characters, hyphens, and underscores are allowed."
    );
    assert_eq!(
        MulchError::DomainAlreadyExists("rust".to_string()).message(),
        "Domain \"rust\" already exists."
    );
    assert_eq!(
        MulchError::RecordNotFound("xyz".to_string()).message(),
        "Record \"xyz\" not found. Run `mulch query` to see record IDs."
    );
    assert_eq!(
        MulchError::AmbiguousId {
            id: "abc".to_string(),
            count: 2,
            ids: "mx-abc123, mx-abc456".to_string()
        }
        .message(),
        "Ambiguous identifier \"abc\" matches 2 records: mx-abc123, mx-abc456. Use more characters to disambiguate."
    );
    assert_eq!(
        MulchError::LockTimeout("/tmp/x.lock".to_string()).message(),
        "Timed out waiting for lock on /tmp/x.lock. If no other mulch process is running, delete the lock file manually."
    );
    assert_eq!(
        MulchError::ValidationError("bad".to_string()).message(),
        "Schema validation failed: bad"
    );
    assert_eq!(MulchError::Io("disk full".to_string()).message(), "disk full");
    assert_eq!(MulchError::Json("eof".to_string()).message(), "JSON error: eof");
    assert_eq!(MulchError::Yaml("tab".to_string()).message(), "YAML error: tab");
}
