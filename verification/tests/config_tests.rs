use nimble::config::{BuilderType, ConfigError, NimbleConfig};

#[test]
fn parses_full_config() {
    let cfg = NimbleConfig::from_str("builder: dockerfile\napp: hello\nport: 3000\n").unwrap();
    assert!(matches!(cfg.builder_type, BuilderType::Dockerfile));
    assert_eq!(cfg.app, "hello");
    assert_eq!(cfg.port, 3000);
}

#[test]
fn builder_is_case_insensitive() {
    let cfg = NimbleConfig::from_str("builder: DockerFile\napp: x\n").unwrap();
    assert!(matches!(cfg.builder_type, BuilderType::Dockerfile));
    let cfg = NimbleConfig::from_str("builder: GO\napp: x\n").unwrap();
    assert!(matches!(cfg.builder_type, BuilderType::Go));
}

#[test]
fn port_defaults_to_8080() {
    let cfg = NimbleConfig::from_str("builder: dockerfile\napp: hello\n").unwrap();
    assert_eq!(cfg.port, 8080);
}

#[test]
fn port_zero_is_rejected() {
    let err = NimbleConfig::from_str("builder: dockerfile\napp: hello\nport: 0\n").unwrap_err();
    assert_eq!(err, ConfigError::InvalidPort(0));
}

#[test]
fn port_above_range_is_rejected() {
    let err = NimbleConfig::from_str("builder: dockerfile\napp: hello\nport: 65536\n").unwrap_err();
    assert_eq!(err, ConfigError::InvalidPort(65536));
}

#[test]
fn port_edges_are_accepted() {
    let cfg = NimbleConfig::from_str("builder: dockerfile\napp: a\nport: 1\n").unwrap();
    assert_eq!(cfg.port, 1);
    let cfg = NimbleConfig::from_str("builder: dockerfile\napp: a\nport: 65535\n").unwrap();
    assert_eq!(cfg.port, 65535);
}

#[test]
fn non_integer_port_counts_as_absent() {
    let cfg = NimbleConfig::from_str("builder: dockerfile\napp: a\nport: http\n").unwrap();
    assert_eq!(cfg.port, 8080);
}

#[test]
fn missing_builder_is_reported() {
    let err = NimbleConfig::from_str("app: hello\n").unwrap_err();
    assert_eq!(err, ConfigError::MissingField("builder".to_string()));
}

#[test]
fn unknown_builder_is_reported() {
    let err = NimbleConfig::from_str("builder: make\napp: hello\n").unwrap_err();
    assert_eq!(err, ConfigError::InvalidBuilder("make".to_string()));
}

#[test]
fn missing_app_is_reported() {
    let err = NimbleConfig::from_str("builder: dockerfile\n").unwrap_err();
    assert_eq!(err, ConfigError::MissingField("app".to_string()));
}

#[test]
fn empty_app_counts_as_missing() {
    let err = NimbleConfig::from_str("builder: dockerfile\napp: \"\"\n").unwrap_err();
    assert_eq!(err, ConfigError::MissingField("app".to_string()));
}

#[test]
fn malformed_yaml_is_a_parse_error() {
    let err = NimbleConfig::from_str("builder: [unclosed\n").unwrap_err();
    assert!(matches!(err, ConfigError::ParseError(_)));
}

#[test]
fn error_messages_describe_the_failure() {
    assert_eq!(
        ConfigError::MissingField("app".to_string()).message(),
        "Missing required field: app"
    );
    assert_eq!(
        ConfigError::InvalidBuilder("make".to_string()).message(),
        "Invalid builder type: make. Valid options: dockerfile, go"
    );
    assert_eq!(ConfigError::InvalidPort(0).message(), "Invalid port: expected 1 to 65535");
    assert_eq!(ConfigError::IoError("denied".to_string()).message(), "I/O error: denied");
}

#[test]
fn builder_from_str_rejects_unknown() {
    assert!(matches!(BuilderType::from_str("dockerfile"), Ok(BuilderType::Dockerfile)));
    assert!(matches!(BuilderType::from_str("Go"), Ok(BuilderType::Go)));
    let err = BuilderType::from_str("maven").unwrap_err();
    assert_eq!(err, ConfigError::InvalidBuilder("maven".to_string()));
}
