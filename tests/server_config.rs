use driftwatch::server_config::{Config, ServerConfigError};

fn s(v: &str) -> Option<String> {
    Some(v.to_string())
}

#[test]
fn defaults_apply_when_unset() {
    let c = Config::from_env(s("postgres://db"), None, None, None).unwrap();
    assert_eq!(c.database_url, "postgres://db");
    assert_eq!(c.port, 4000);
    assert_eq!(c.grpc_port, 50051);
    assert_eq!(c.rust_log, "info");
}

#[test]
fn given_values_are_used() {
    let c = Config::from_env(s("db"), s("8080"), s("9090"), s("debug")).unwrap();
    assert_eq!((c.port, c.grpc_port), (8080, 9090));
    assert_eq!(c.rust_log, "debug");
}

#[test]
fn errors() {
    assert_eq!(Config::from_env(None, None, None, None).unwrap_err(), ServerConfigError::MissingDatabaseUrl);
    assert_eq!(Config::from_env(s("db"), s("70000"), None, None).unwrap_err(), ServerConfigError::InvalidPort);
    assert_eq!(Config::from_env(s("db"), None, s("x"), None).unwrap_err(), ServerConfigError::InvalidGrpcPort);
}
