use mulch_core::config::{ensure_domain_exists, validate_domain_name};
use mulch_core::error::MulchError;
use mulch_core::types::MulchConfig;

#[test]
fn valid_domain_names() {
    assert!(validate_domain_name("rust").is_ok());
    assert!(validate_domain_name("my-domain").is_ok());
    assert!(validate_domain_name("domain_2").is_ok());
    assert!(validate_domain_name("A123").is_ok());
}

#[test]
fn invalid_domain_names() {
    assert!(validate_domain_name("").is_err());
    assert!(validate_domain_name("-starts-with-dash").is_err());
    assert!(validate_domain_name("has spaces").is_err());
    assert!(validate_domain_name("has.dots").is_err());
}

#[test]
fn domain_name_edges() {
    assert!(validate_domain_name("a").is_ok());
    assert!(validate_domain_name("9").is_ok());
    assert!(validate_domain_name("a-").is_ok());
    assert!(validate_domain_name("a_").is_ok());
    assert!(validate_domain_name("_a").is_err());
    assert!(validate_domain_name("abc\n").is_err());
    assert!(validate_domain_name("caf\u{e9}").is_err());
    assert!(validate_domain_name("\u{e9}cole").is_err());
    match validate_domain_name("no way") {
        Err(MulchError::InvalidDomainName(name)) => assert_eq!(name, "no way"),
        other => panic!("unexpected: {:?}", other),
    }
}

#[test]
fn domain_must_be_listed() {
    let mut config = MulchConfig::default();
    match ensure_domain_exists(&config, "rust") {
        Err(MulchError::DomainNotFound { domain, available }) => {
            assert_eq!(domain, "rust");
            assert_eq!(available, "(none)");
        }
        other => panic!("unexpected: {:?}", other),
    }
    config.domains.push("cli".to_string());
    config.domains.push("core".to_string());
    assert!(ensure_domain_exists(&config, "core").is_ok());
    assert!(ensure_domain_exists(&config, "cli").is_ok());
    match ensure_domain_exists(&config, "cor") {
        Err(MulchError::DomainNotFound { domain, available }) => {
            assert_eq!(domain, "cor");
            assert_eq!(available, "cli, core");
        }
        other => panic!("unexpected: {:?}", other),
    }
}
