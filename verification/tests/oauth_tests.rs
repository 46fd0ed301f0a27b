use base64::Engine;
use sha2::Digest;
use subsurface_engine::oauth::{
    classify_network_error, device_poll_error, freshness, tokens_from_response, DeviceAuthorization, DevicePollResult,
    Freshness, OAuthClient, OAuthError,
};

fn client() -> OAuthClient {
    OAuthClient::new(
        "desktop-client",
        "https://identity.example/authorize",
        "https://identity.example/token",
    )
}

#[test]
fn callback_rejects_state_mismatch_before_network() {
    let client = client();
    let mut authorization = client
        .start_authorization("http://127.0.0.1:8787/callback", &vec![])
        .expect("start authorization");

    assert!(matches!(
        client.check_callback(
            &authorization,
            "http://127.0.0.1:8787/callback?code=stolen&state=wrong"
        ),
        Err(OAuthError::StateMismatch)
    ));

    let good = format!(
        "http://127.0.0.1:8787/callback?code=approved-code&state={}",
        authorization.state
    );
    assert_eq!(client.check_callback(&authorization, &good).unwrap(), "approved-code");
    assert!(matches!(
        client.check_callback(&authorization, "http://127.0.0.1:9999/callback?code=x"),
        Err(OAuthError::InvalidCallback)
    ));
    assert!(matches!(
        client.check_callback(
            &authorization,
            "http://127.0.0.1:8787/callback?error=access_denied&error_description=nope"
        ),
        Err(OAuthError::AuthorizationDenied(m)) if m == "nope"
    ));
    authorization.cancel();
    assert!(matches!(
        client.check_callback(&authorization, &good),
        Err(OAuthError::Cancelled)
    ));
}

#[test]
fn authorization_url_carries_pkce_and_scopes() {
    let client = client();
    let authorization = client
        .start_authorization(
            "http://127.0.0.1:8787/callback",
            &vec!["models.read".to_string(), "profile".to_string()],
        )
        .unwrap();
    assert!(authorization.authorization_url.contains("code_challenge_method=S256"));
    assert!(authorization.authorization_url.contains("scope=models.read+profile"));
    assert_eq!(authorization.state.len(), 32);
    assert!(matches!(
        client.start_authorization("not a url", &vec![]),
        Err(OAuthError::InvalidUrl(_))
    ));
    assert_eq!(
        client.get_authorization_url("http://127.0.0.1/cb", "s1"),
        "https://identity.example/authorize?response_type=code&client_id=desktop-client&redirect_uri=http%3A%2F%2F127.0.0.1%2Fcb&state=s1"
    );
}

#[test]
fn device_poll_errors_are_classified() {
    assert!(matches!(
        device_poll_error("authorization_pending", None, 5),
        Ok(DevicePollResult::Pending { retry_after_secs: 5 })
    ));
    assert!(matches!(
        device_poll_error("slow_down", None, 5),
        Ok(DevicePollResult::Pending { retry_after_secs: 10 })
    ));
    assert_eq!(
        device_poll_error("expired_token", None, 5).err(),
        Some(OAuthError::DeviceExpired)
    );
    assert_eq!(
        device_poll_error("access_denied", None, 5).err(),
        Some(OAuthError::AuthorizationDenied("device authorization denied".into()))
    );
    assert_eq!(
        device_poll_error("weird", Some("explained".into()), 5).err(),
        Some(OAuthError::ExchangeFailed("explained".into()))
    );
    let mut device = DeviceAuthorization::from_response(
        "device-secret".into(),
        "ABCD-EFGH".into(),
        "http://127.0.0.1/device".into(),
        None,
        600,
        Some(0),
        1_000,
    );
    assert_eq!(device.interval_secs, 1);
    assert_eq!(device.expires_at_timestamp, 1_600);
    assert!(device.check_poll(1_000).is_ok());
    assert_eq!(device.check_poll(1_600), Err(OAuthError::DeviceExpired));
    device.cancel();
    assert_eq!(device.check_poll(1_000), Err(OAuthError::Cancelled));
}

#[test]
fn tokens_default_and_refresh_when_expired() {
    let tokens = tokens_from_response("access".into(), None, None, None, Some("old-refresh"), 100);
    assert_eq!(tokens.expires_at_timestamp, 3_700);
    assert_eq!(tokens.token_type, "Bearer");
    assert_eq!(tokens.refresh_token.as_deref(), Some("old-refresh"));
    assert!(!tokens.is_expired_at(3_699));
    assert!(tokens.is_expired_at(3_700));
    assert!(matches!(freshness(&tokens, 10), Ok(Freshness::Fresh(_))));
    assert!(matches!(freshness(&tokens, 4_000), Ok(Freshness::Refresh(t)) if t == "old-refresh"));
    let no_refresh = tokens_from_response("a".into(), None, Some(10), Some("mac".into()), None, 0);
    assert!(matches!(freshness(&no_refresh, 11), Err(OAuthError::TokenExpired)));
    assert_eq!(
        client().refresh_form("r1"),
        vec![
            ("grant_type".to_string(), "refresh_token".to_string()),
            ("refresh_token".to_string(), "r1".to_string()),
            ("client_id".to_string(), "desktop-client".to_string()),
        ]
    );
}

fn unix_now() -> i64 {
    std::time::SystemTime::now()
        .duration_since(std::time::UNIX_EPOCH)
        .expect("clock after 1970")
        .as_secs() as i64
}

fn form_has(form: &[(String, String)], key: &str, value: &str) -> bool {
    form.iter().any(|(k, v)| k == key && v == value)
}

#[test]
fn authorization_callback_refresh_and_cancel_are_complete() {
    let client = client().with_timeout(1_000);
    let mut authorization = client
        .start_authorization(
            "http://127.0.0.1:8787/callback",
            &vec!["models.read".to_string(), "profile".to_string()],
        )
        .expect("start authorization");

    assert!(authorization.authorization_url.contains("code_challenge_method=S256"));
    assert!(authorization.authorization_url.contains("scope=models.read+profile"));
    let callback = format!(
        "http://127.0.0.1:8787/callback?code=approved-code&state={}",
        authorization.state
    );
    let code = client.check_callback(&authorization, &callback).expect("callback accepted");
    let exchange = client.exchange_form(&code, authorization.redirect_uri(), Some(authorization.code_verifier()));
    assert!(form_has(&exchange, "grant_type", "authorization_code"));
    assert!(exchange.iter().any(|(k, v)| k == "code_verifier" && !v.is_empty()));

    // The token endpoint answered {"access_token":"access-one","refresh_token":"refresh-one","expires_in":3600,"token_type":"Bearer"}.
    let now = unix_now();
    let tokens = tokens_from_response(
        "access-one".into(),
        Some("refresh-one".into()),
        Some(3600),
        Some("Bearer".into()),
        None,
        now,
    );
    authorization.mark_completed();
    assert_eq!(tokens.access_token, "access-one");
    assert_eq!(tokens.refresh_token.as_deref(), Some("refresh-one"));
    assert!(!tokens.is_expired());

    let refresh = client.refresh_form(tokens.refresh_token.as_deref().unwrap());
    assert!(form_has(&refresh, "grant_type", "refresh_token"));
    // The refresh answered {"access_token":"access-two","expires_in":7200,"token_type":"Bearer"}.
    let refreshed = tokens_from_response(
        "access-two".into(),
        None,
        Some(7200),
        Some("Bearer".into()),
        tokens.refresh_token.as_deref(),
        now,
    );
    assert_eq!(refreshed.access_token, "access-two");
    assert_eq!(refreshed.refresh_token.as_deref(), Some("refresh-one"));

    assert!(matches!(
        client.check_callback(&authorization, &callback),
        Err(OAuthError::AlreadyCompleted)
    ));
    authorization.cancel();
    assert!(matches!(
        client.check_callback(&authorization, &callback),
        Err(OAuthError::Cancelled)
    ));
}

#[test]
fn device_authorization_polls_to_completion_and_can_cancel() {
    let client = client()
        .with_device_authorization_url("http://127.0.0.1:8788/device/code")
        .with_timeout(1_000);
    assert_eq!(client.device_endpoint(), Ok("http://127.0.0.1:8788/device/code"));
    let now = 1_000;
    // The device endpoint answered with this device code, user code and a one-second interval.
    let mut device = DeviceAuthorization::from_response(
        "device-secret".into(),
        "ABCD-EFGH".into(),
        "https://identity.example/device".into(),
        Some("https://identity.example/device?user_code=ABCD-EFGH".into()),
        600,
        Some(1),
        now,
    );
    assert_eq!(device.user_code, "ABCD-EFGH");
    assert_eq!(device.interval_secs, 1);

    assert!(device.check_poll(now).is_ok());
    assert!(form_has(&client.device_poll_form(&device), "device_code", "device-secret"));
    assert!(matches!(
        device_poll_error("authorization_pending", None, device.interval_secs),
        Ok(DevicePollResult::Pending { retry_after_secs: 1 })
    ));
    assert!(device.check_poll(now + 1).is_ok());
    let tokens = tokens_from_response(
        "device-access".into(),
        Some("device-refresh".into()),
        Some(3600),
        Some("Bearer".into()),
        None,
        now + 1,
    );
    device.mark_completed();
    assert_eq!(tokens.access_token, "device-access");

    assert_eq!(device.check_poll(now + 2), Err(OAuthError::AlreadyCompleted));
    device.cancel();
    assert_eq!(device.check_poll(now + 2), Err(OAuthError::Cancelled));
}

#[test]
fn oauth_timeout_is_distinct() {
    assert!(matches!(
        classify_network_error(true, "operation timed out".into()),
        OAuthError::Timeout(_)
    ));
    assert!(matches!(
        classify_network_error(false, "connection refused".into()),
        OAuthError::Network(_)
    ));
}

#[test]
fn authorization_url_carries_the_verifier_challenge() {
    let client = client();
    let authorization = client
        .start_authorization("http://127.0.0.1:8787/callback", &vec![])
        .expect("start authorization");
    let url = &authorization.authorization_url;
    let start = url.find("code_challenge=").expect("challenge present") + "code_challenge=".len();
    let challenge: String = url[start..].chars().take_while(|c| *c != '&').collect();
    let expected = base64::engine::general_purpose::URL_SAFE_NO_PAD
        .encode(sha2::Sha256::digest(authorization.code_verifier().as_bytes()).to_vec());
    assert_eq!(challenge, expected);
    assert_eq!(challenge.len(), 43);
    assert!(challenge.chars().all(|c| c.is_ascii_alphanumeric() || c == '-' || c == '_'));
}
