use driftwatch::api::{bearer_header, flamegraph_size_allowed, response_result, ApiError, MAX_FLAMEGRAPH_BYTES};
use driftwatch::config::{
    default_api_url, default_grpc_url, token_preview, trim_trailing_slashes, Config, ConfigError,
    StoredConfig,
};
use driftwatch::handshake::HandshakeError;
use driftwatch::login::{finish_login, handshake_credential, plan_login, LoginError, LoginStart};

fn stored() -> Config {
    Config {
        token: "file-token".to_string(),
        api_url: "https://file.example".to_string(),
        grpc_url: "https://rpc.file.example".to_string(),
    }
}

#[test]
fn defaults() {
    assert_eq!(default_api_url(), "https://driftwatch.dev");
    assert_eq!(default_grpc_url(), "http://localhost:50051");
}

#[test]
fn environment_token_replaces_the_file() {
    let c = Config::load(StoredConfig::Malformed, Some("env-token".to_string()), None, None).unwrap();
    assert_eq!(c.token, "env-token");
    assert_eq!(c.api_url, "https://driftwatch.dev");
    assert_eq!(c.grpc_url, "http://localhost:50051");
    let c = Config::load(
        StoredConfig::Found(stored()),
        Some("env-token".to_string()),
        Some("https://env.example".to_string()),
        None,
    )
    .unwrap();
    assert_eq!(c.token, "env-token");
    assert_eq!(c.api_url, "https://env.example");
}

#[test]
fn file_with_url_overrides() {
    let c = Config::load(StoredConfig::Found(stored()), None, None, None).unwrap();
    assert_eq!(c, stored());
    let c = Config::load(
        StoredConfig::Found(stored()),
        None,
        Some("https://env.example".to_string()),
        Some("https://rpc.env.example".to_string()),
    )
    .unwrap();
    assert_eq!(c.token, "file-token");
    assert_eq!(c.api_url, "https://env.example");
    assert_eq!(c.grpc_url, "https://rpc.env.example");
}

#[test]
fn missing_or_malformed_file() {
    assert_eq!(Config::load(StoredConfig::Missing, None, None, None), Err(ConfigError::NotAuthenticated));
    assert_eq!(Config::load(StoredConfig::Malformed, None, None, None), Err(ConfigError::InvalidConfig));
}

#[test]
fn settings_trim_trailing_slashes() {
    let c = stored().apply_settings(Some("https://new.example///"), None);
    assert_eq!(c.api_url, "https://new.example");
    assert_eq!(c.grpc_url, "https://rpc.file.example");
    assert_eq!(c.token, "file-token");
    let c = Config::empty().apply_settings(None, Some("http://h:1/"));
    assert_eq!(c.grpc_url, "http://h:1");
    assert!(!c.has_token());
    assert!(stored().has_token());
    assert_eq!(trim_trailing_slashes("///"), "");
    assert_eq!(trim_trailing_slashes("a/b"), "a/b");
}

#[test]
fn preview_shows_at_most_eight_bytes() {
    assert_eq!(token_preview("abcdefghijkl"), "abcdefgh");
    assert_eq!(token_preview("abc"), "abc");
    assert_eq!(token_preview(""), "");
    // Two-byte characters: four of them fill the eight bytes.
    assert_eq!(token_preview("éééééééééé"), "éééé");
    // A character that would cross the eighth byte is left out.
    assert_eq!(token_preview("abcdefgé"), "abcdefg");
    assert_eq!(token_preview("ab€€€"), "ab€€");
    assert_eq!(token_preview("😀😀😀"), "😀😀");
}

#[test]
fn explicit_token_skips_the_browser() {
    assert_eq!(plan_login(Some("tok".to_string())), LoginStart::Verify("tok".to_string()));
    assert_eq!(plan_login(None), LoginStart::Browser);
}

#[test]
fn only_confirmed_credentials_are_stored() {
    let c = finish_login("tok".to_string(), "https://a", "https://g", true).unwrap();
    assert_eq!(
        c,
        Config { token: "tok".to_string(), api_url: "https://a".to_string(), grpc_url: "https://g".to_string() }
    );
    assert_eq!(
        finish_login("tok".to_string(), "https://a", "https://g", false),
        Err(LoginError::VerificationFailure)
    );
}

#[test]
fn handshake_outcome_feeds_verification() {
    assert_eq!(handshake_credential(Ok("c".to_string())), Ok("c".to_string()));
    assert_eq!(
        handshake_credential(Err(HandshakeError::Timeout)),
        Err(LoginError::Handshake(HandshakeError::Timeout))
    );
}

#[test]
fn bearer_header_presents_the_credential() {
    assert_eq!(bearer_header("abc"), "Bearer abc");
}

#[test]
fn response_errors_win_over_data() {
    assert_eq!(
        response_result(Some(1), Some(vec!["boom".to_string(), "second".to_string()])),
        Err(ApiError::Server("boom".to_string()))
    );
    assert_eq!(response_result(Some(1), Some(vec![])), Ok(1));
    assert_eq!(response_result(Some(1), None), Ok(1));
    assert_eq!(response_result::<u8>(None, None), Err(ApiError::NoData));
}

#[test]
fn flamegraph_size_limit() {
    assert_eq!(MAX_FLAMEGRAPH_BYTES, 10485760);
    assert!(flamegraph_size_allowed(10485760));
    assert!(!flamegraph_size_allowed(10485761));
    assert!(flamegraph_size_allowed(0));
}
