use freyja::config::{Auth, ProviderConfig, ProviderDialect};
use freyja::error::ProviderError;
use freyja::transport::{
    auth_header_name, parse_delay_seconds, redirect_decision, resolved_headers, same_origin, BodyReader,
    Redirect, MAX_BODY_BYTES, MAX_REDIRECTS,
};

fn endpoint(dialect: ProviderDialect) -> ProviderConfig {
    ProviderConfig::new(dialect, "test", "https://x.test/v1")
}

#[test]
fn each_auth_style_names_the_header_it_sets() {
    assert_eq!(auth_header_name(&Auth::Bearer), Some("authorization"));
    assert_eq!(auth_header_name(&Auth::Header("x-api-key")), Some("x-api-key"));
    assert_eq!(auth_header_name(&Auth::Keyless), None);
}

/// An endpoint as a local gateway would be configured.
fn local(dialect: ProviderDialect) -> ProviderConfig {
    ProviderConfig::new(dialect, "local", "http://127.0.0.1:9").default_model("test-model")
}

/// Every value of `name` among the headers sent before auth, any casing.
fn header_values(headers: &[(&str, &str)], name: &str) -> Vec<String> {
    headers.iter().filter(|(key, _)| key.eq_ignore_ascii_case(name)).map(|(_, value)| value.to_string()).collect()
}

#[test]
fn auth_replaces_a_caller_supplied_authorization_header() {
    let config = local(ProviderDialect::OpenAiChat).header("Authorization", "Bearer gateway-token");
    let headers = resolved_headers(&config, Some("sk-test"));
    assert!(header_values(&headers, "authorization").is_empty(), "the caller's value gives way to auth");
    assert_eq!(auth_header_name(&config.auth), Some("authorization"), "auth sets the header from the key");
}

#[test]
fn auth_replaces_a_caller_supplied_named_key_header() {
    let config = local(ProviderDialect::OpenAiChat).auth(Auth::Header("x-api-key")).header("X-Api-Key", "gateway-token");
    let headers = resolved_headers(&config, Some("sk-test"));
    assert!(header_values(&headers, "x-api-key").is_empty(), "the caller's value gives way to auth");
    assert_eq!(auth_header_name(&config.auth), Some("x-api-key"));
}

#[test]
fn an_extra_header_supersedes_a_dialect_required_one() {
    let config = local(ProviderDialect::Anthropic).header("anthropic-version", "2024-10-22");
    let headers = resolved_headers(&config, Some("sk-test"));
    assert_eq!(header_values(&headers, "anthropic-version"), ["2024-10-22"]);
}

#[test]
fn the_last_header_call_wins() {
    let config = local(ProviderDialect::OpenAiChat).header("X-Route", "first").header("x-route", "second");
    let headers = resolved_headers(&config, Some("sk-test"));
    assert_eq!(header_values(&headers, "x-route"), ["second"]);
}

#[test]
fn a_caller_header_survives_when_no_key_claims_the_name() {
    let config = local(ProviderDialect::OpenAiChat).auth(Auth::Keyless).header("Authorization", "Bearer gateway-token");
    let headers = resolved_headers(&config, Some("sk-test"));
    assert_eq!(header_values(&headers, "authorization"), ["Bearer gateway-token"]);
    assert_eq!(auth_header_name(&config.auth), None);
}

#[test]
fn distinct_names_keep_their_order() {
    let config = endpoint(ProviderDialect::Gemini).header("x-a", "1").header("x-b", "2");
    assert_eq!(
        resolved_headers(&config, Some("key")),
        vec![("Api-Revision", "2026-05-20"), ("x-a", "1"), ("x-b", "2")]
    );
}

#[test]
fn a_redirect_may_not_change_origin() {
    let base = "https://api.acme.test/v1/messages";

    for allowed in ["https://api.acme.test/v2/messages", "https://api.acme.test/v1/messages/"] {
        assert!(same_origin(base, allowed), "{allowed}");
    }

    for refused in [
        "https://attacker.test/v1/messages",
        "https://api.acme.test:8443/v1/messages",
        "http://api.acme.test/v1/messages",
    ] {
        assert!(!same_origin(base, refused), "{refused}");
    }

    // The scheme's default port is the port.
    assert!(same_origin(base, "https://api.acme.test:443/v3"));
    // A text that is no URL shares no origin.
    assert!(!same_origin("not a url", "not a url"));
}

#[test]
fn the_redirect_policy_follows_within_an_origin_and_stops_at_a_loop() {
    let base = "https://api.acme.test/v1/messages";
    assert_eq!(redirect_decision(None, 0, "https://anywhere.test/"), Redirect::Follow);
    assert_eq!(redirect_decision(Some(base), 1, "https://api.acme.test/v2"), Redirect::Follow);
    assert_eq!(redirect_decision(Some(base), 1, "https://attacker.test/v1"), Redirect::Stop);
    assert_eq!(redirect_decision(Some(base), MAX_REDIRECTS, "https://api.acme.test/v2"), Redirect::TooMany);
    assert_eq!(
        redirect_decision(Some(base), MAX_REDIRECTS, "https://attacker.test/"),
        Redirect::Stop,
        "a hop to another origin is refused before it is counted"
    );
}

#[test]
fn a_body_is_read_whole_until_it_grows_too_large() {
    let mut reader = BodyReader::new("acme");
    reader.take(b"caf").expect("fits");
    reader.take(&[0xC3, 0xA9, 0xFF]).expect("fits");
    assert_eq!(reader.into_text(), "café\u{FFFD}");

    let mut big = BodyReader::new("acme");
    big.take(&vec![b'x'; MAX_BODY_BYTES]).expect("the ceiling itself is legal");
    match big.take(b"x") {
        Err(ProviderError::InvalidResponse { provider, message }) => {
            assert_eq!(provider, "acme");
            assert_eq!(message, "response body grew past 67108864 bytes");
        }
        other => panic!("expected the body ceiling, got {other:?}"),
    }
    assert_eq!(big.into_text().len(), MAX_BODY_BYTES, "the refused chunk is not kept");
}

#[test]
fn a_retry_after_reads_only_plain_seconds() {
    assert_eq!(parse_delay_seconds("0"), Some(0));
    assert_eq!(parse_delay_seconds(" 30 "), Some(30));
    assert_eq!(parse_delay_seconds("+7"), Some(7));
    assert_eq!(parse_delay_seconds("18446744073709551615"), Some(u64::MAX));
    for unread in ["18446744073709551616", "1.5", "", "+", "3 0"] {
        assert_eq!(parse_delay_seconds(unread), None, "{unread}");
    }
}
