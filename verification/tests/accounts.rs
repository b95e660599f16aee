use feedmind::error::ApiError;
use feedmind::middleware::usage_tracking::{
    check_usage_limits, usage_period_start, UsageLimitStatus,
};
use feedmind::routes::auth::{
    account_to_store, auth_response, check_account, check_login, decode_session_claims, generate_jwt, hash_outcome,
    hash_password, login_outcome,
    read_claims, register_failure, require_session_user, session_claims, session_outcome, verify_password_hash, Claims,
    LoginRequest, RegisterRequest, TokenKind, UserRow,
};
use feedmind::routes::common::Violation;
use feedmind::time::Timestamp;

const TEST_SECRET: &str = "test-secret-for-jwt-round-trip-proof";

fn now() -> Timestamp {
    let time = chrono::Utc::now();
    Timestamp { seconds: time.timestamp(), nanos: time.timestamp_subsec_nanos() }
}

fn probe_user() -> UserRow {
    UserRow {
        id: 0,
        email: "round-trip@example.test".to_string(),
        password_hash: "unused-by-token-minting".to_string(),
        display_name: Some("Round Trip".to_string()),
        tier: "pro".to_string(),
    }
}

#[test]
fn session_token_signs_and_verifies_round_trip() {
    let user = probe_user();

    let (token, expires_at) = generate_jwt(&user, TEST_SECRET, 3600, now())
        .expect("minting a session token must succeed");

    let claims =
        decode_session_claims(&token, TEST_SECRET).expect("a freshly minted token must verify");

    assert_eq!(claims.sub, uuid::Uuid::nil().to_string());
    assert_eq!(claims.email, user.email);
    assert_eq!(claims.tier, user.tier);
    assert_eq!(claims.exp, expires_at.seconds);
    assert!(claims.exp > claims.iat);
}

#[test]
fn session_token_is_refused_under_a_different_secret() {
    let (token, _) = generate_jwt(&probe_user(), TEST_SECRET, 3600, now()).expect("mint");

    let rejection = decode_session_claims(&token, "a-completely-different-secret")
        .expect_err("a token signed with another secret must not verify");

    assert!(matches!(rejection, ApiError::Unauthorized(_)));
}

#[test]
fn tampered_payload_is_refused() {
    let (token, _) = generate_jwt(&probe_user(), TEST_SECRET, 3600, now()).expect("mint");

    let mut parts = token.split('.');
    let header = parts.next().expect("header segment");
    let signature = parts.next_back().expect("signature segment");
    let seconds = chrono::Utc::now().timestamp();
    let mut forged_claims = serde_json::Map::new();
    forged_claims.insert("sub".to_string(), uuid::Uuid::new_v4().to_string().into());
    forged_claims.insert("email".to_string(), "attacker@example.test".into());
    forged_claims.insert("tier".to_string(), "team".into());
    forged_claims.insert("exp".to_string(), (seconds + 3600).into());
    forged_claims.insert("iat".to_string(), seconds.into());
    let forged_payload = base64::Engine::encode(
        &base64::engine::general_purpose::URL_SAFE_NO_PAD,
        serde_json::to_vec(&forged_claims).expect("serialize forged claims"),
    );
    let forged = format!("{header}.{forged_payload}.{signature}");

    let rejection = decode_session_claims(&forged, TEST_SECRET)
        .expect_err("a re-written payload must not verify under the original signature");

    assert!(matches!(rejection, ApiError::Unauthorized(_)));
}

#[test]
fn token_announcing_another_algorithm_is_refused() {
    let (token, _) = generate_jwt(&probe_user(), TEST_SECRET, 3600, now()).expect("mint");

    let mut parts = token.split('.');
    let _ = parts.next();
    let payload = parts.next().expect("payload segment");
    let signature = parts.next().expect("signature segment");
    let rs256_header = base64::Engine::encode(
        &base64::engine::general_purpose::URL_SAFE_NO_PAD,
        br#"{"typ":"JWT","alg":"RS256"}"#,
    );
    let forged = format!("{rs256_header}.{payload}.{signature}");

    let rejection = decode_session_claims(&forged, TEST_SECRET)
        .expect_err("a token announcing RS256 must be refused");

    assert!(matches!(rejection, ApiError::Unauthorized(_)));
}

#[test]
fn expired_token_is_refused() {
    let seconds = chrono::Utc::now().timestamp();
    let mut claims = serde_json::Map::new();
    claims.insert("sub".to_string(), uuid::Uuid::nil().to_string().into());
    claims.insert("email".to_string(), "round-trip@example.test".into());
    claims.insert("tier".to_string(), "pro".into());
    claims.insert("exp".to_string(), (seconds - 3600).into());
    claims.insert("iat".to_string(), (seconds - 7200).into());
    let stale = jsonwebtoken::encode(
        &jsonwebtoken::Header::default(),
        &claims,
        &jsonwebtoken::EncodingKey::from_secret(TEST_SECRET.as_bytes()),
    )
    .expect("minting a stale token must succeed");

    let rejection =
        decode_session_claims(&stale, TEST_SECRET).expect_err("an expired token must not verify");

    assert!(matches!(rejection, ApiError::Unauthorized(_)));
}

#[test]
fn jwt_session_tokens_never_authorize_harness_delegation() {
    assert!(!TokenKind::JwtSession.can_authorize_harness_delegation());
}

#[test]
fn biscuit_delegation_tokens_authorize_harness_delegation_boundary() {
    assert!(TokenKind::BiscuitDelegation.can_authorize_harness_delegation());
}

#[test]
fn session_token_holds_the_claims_in_order() {
    let mut user = probe_user();
    user.email = "a\"b@example.test".to_string();
    let at = Timestamp { seconds: 1_772_600_767, nanos: 0 };
    let (token, _) = generate_jwt(&user, TEST_SECRET, 60, at).expect("mint");
    assert!(token.starts_with("eyJ0eXAiOiJKV1QiLCJhbGciOiJIUzI1NiJ9."));
    let payload = base64::Engine::decode(
        &base64::engine::general_purpose::URL_SAFE_NO_PAD,
        token.split('.').nth(1).expect("payload segment"),
    )
    .expect("base64");
    assert_eq!(
        String::from_utf8(payload).expect("text"),
        "{\"sub\":\"00000000-0000-0000-0000-000000000000\",\"email\":\"a\\\"b@example.test\",\"tier\":\"pro\",\"exp\":1772600827,\"iat\":1772600767}"
    );
}

#[test]
fn session_lasts_as_long_as_asked() {
    let at = Timestamp { seconds: 1_772_600_767, nanos: 5 };
    let (_, expires_at) = generate_jwt(&probe_user(), TEST_SECRET, 60, at).expect("mint");
    assert_eq!(expires_at, Timestamp { seconds: 1_772_600_827, nanos: 5 });
}

#[test]
fn verified_claims_become_the_session() {
    let claims = Claims {
        sub: "s".to_string(),
        email: "e".to_string(),
        tier: "t".to_string(),
        exp: 2,
        iat: 1,
    };
    assert_eq!(session_outcome(Some(claims)).unwrap().sub, "s");
    assert!(matches!(session_outcome(None), Err(ApiError::Unauthorized(_))));
}

#[test]
fn password_opens_its_own_hash_only() {
    let hash = hash_password("correct horse").expect("hash");
    assert_ne!(hash, "correct horse");
    assert!(verify_password_hash("correct horse", &hash).is_ok());
    assert_eq!(
        verify_password_hash("wrong", &hash),
        Err("Invalid email or password".to_string())
    );
    assert!(verify_password_hash("correct horse", "no hash").is_err());
}

#[test]
fn login_answers() {
    let hash = hash_password("secret-password").expect("hash");
    let mut user = probe_user();
    user.password_hash = hash;
    assert_eq!(check_login(Some(user), "secret-password").unwrap().tier, "pro");

    let mut user = probe_user();
    user.password_hash = hash_password("secret-password").expect("hash");
    match check_login(Some(user), "other") {
        Err(ApiError::Unauthorized(m)) => assert_eq!(m, "Invalid email or password"),
        other => panic!("unexpected {other:?}"),
    }
    assert!(matches!(check_login(Some(probe_user()), "x"), Err(ApiError::Internal(_))));
    match check_login(None, "x") {
        Err(ApiError::Unauthorized(m)) => assert_eq!(m, "Invalid email or password"),
        other => panic!("unexpected {other:?}"),
    }
    assert!(login_outcome(Some(true)).is_ok());
    assert!(matches!(login_outcome(Some(false)), Err(ApiError::Unauthorized(_))));
    assert!(matches!(login_outcome(None), Err(ApiError::Internal(_))));
}

#[test]
fn registration_requests_are_checked() {
    let good = RegisterRequest {
        email: "Person@Example.Test".to_string(),
        password: "12345678".to_string(),
        display_name: None,
    };
    assert_eq!(good.violations(), vec![]);
    let (email, hash) = good.plan().expect("plan");
    assert_eq!(email, "person@example.test");
    assert!(verify_password_hash("12345678", &hash).is_ok());

    let bad = RegisterRequest {
        email: "nobody".to_string(),
        password: "1234567".to_string(),
        display_name: None,
    };
    assert_eq!(bad.violations(), vec![Violation::Email, Violation::PasswordLength]);
    let login = LoginRequest { email: "A@B.test".to_string(), password: String::new() };
    assert_eq!(login.violations(), vec![]);
    assert_eq!(login.stored_email(), "a@b.test");
}

#[test]
fn registration_failures() {
    assert!(matches!(register_failure(Some("23505")), ApiError::Conflict(_)));
    assert!(matches!(register_failure(Some("23503")), ApiError::Internal(_)));
    assert!(matches!(register_failure(None), ApiError::Internal(_)));
    assert!(matches!(require_session_user(None), Err(ApiError::Unauthorized(_))));
}

#[test]
fn session_answer_shows_no_hash() {
    let response = auth_response(
        probe_user(),
        "tok".to_string(),
        Timestamp { seconds: 1_772_600_767, nanos: 0 },
    );
    assert_eq!(response.data.expires_at, "2026-03-04T05:06:07+00:00");
    assert_eq!(response.data.user.id, "00000000-0000-0000-0000-000000000000");
    assert_eq!(response.data.user.display_name.as_deref(), Some("Round Trip"));
    assert!(!format!("{response:?}").contains("unused-by-token-minting"));
}

#[test]
fn test_usage_limit_status() {
    let status = UsageLimitStatus {
        ai_tokens_used: 5000,
        ai_tokens_limit: 10000,
        ai_tokens_remaining: 5000,
        api_calls_used: 500,
        api_calls_limit: 1000,
        api_calls_remaining: 500,
        is_over_limit: false,
    };

    assert!(!status.is_over_limit);
    assert_eq!(status.ai_tokens_remaining, 5000);
}

#[test]
fn usage_limits_by_tier() {
    let free = check_usage_limits("free", 10_000, 0);
    assert!(free.is_over_limit);
    assert_eq!(free.ai_tokens_remaining, 0);
    assert_eq!(free.api_calls_remaining, 1_000);
    let unknown = check_usage_limits("gold", 1, 2);
    assert_eq!(unknown.ai_tokens_limit, 10_000);
    assert_eq!(unknown.api_calls_remaining, 998);
    let pro = check_usage_limits("pro", 600_000, 0);
    assert_eq!((pro.ai_tokens_limit, pro.ai_tokens_remaining), (500_000, 0));
    let team = check_usage_limits("team", 1_999_999, 199_999);
    assert!(!team.is_over_limit);
    assert_eq!((team.ai_tokens_remaining, team.api_calls_remaining), (1, 1));
}

#[test]
fn usage_is_counted_from_the_first_of_the_month() {
    let at = Timestamp { seconds: 1_772_600_767, nanos: 123 };
    assert_eq!(usage_period_start(at), Timestamp { seconds: 1_772_323_200, nanos: 0 });
}

#[test]
fn violations_from_a_given_address_check() {
    assert_eq!(check_account(true, "12345678"), vec![]);
    assert_eq!(check_account(true, "1234567"), vec![Violation::PasswordLength]);
    assert_eq!(
        check_account(false, "ééééééé"),
        vec![Violation::Email, Violation::PasswordLength]
    );
}

#[test]
fn claims_name_the_user_and_the_time() {
    let claims = session_claims(&probe_user(), 60, Timestamp { seconds: 1_000, nanos: 9 });
    assert_eq!(claims.sub, "00000000-0000-0000-0000-000000000000");
    assert_eq!(claims.email, "round-trip@example.test");
    assert_eq!(claims.tier, "pro");
    assert_eq!((claims.iat, claims.exp), (1_000, 1_060));
}

#[test]
fn account_is_stored_from_what_came_of_hashing() {
    let (email, hash) = account_to_store("A@B.Test", Ok("h".to_string())).expect("stored");
    assert_eq!((email.as_str(), hash.as_str()), ("a@b.test", "h"));
    for failed in [
        account_to_store("A@B.Test", Err("no".to_string())).map(|_| ()),
        hash_outcome(Err("no".to_string())).map(|_| ()),
    ] {
        assert!(matches!(failed, Err(ApiError::Internal(m)) if m == "Password hashing failed: no"));
    }
    assert_eq!(hash_outcome(Ok("h".to_string())).expect("kept"), "h");
}

#[test]
fn signature_belongs_to_its_message() {
    let (token, _) = generate_jwt(&probe_user(), TEST_SECRET, 3600, now()).expect("mint");
    let (message, signature) = token.rsplit_once('.').expect("signature segment");
    assert!(decode_session_claims(&token, TEST_SECRET).is_ok());
    let (other, _) = generate_jwt(&probe_user(), "other", 3600, now()).expect("mint");
    let foreign = other.rsplit_once('.').expect("signature segment").1;
    for refused in [
        format!("{message}.{foreign}"),
        format!("{message}."),
        message.to_string(),
        format!("x{message}.{signature}"),
        format!("{message}.{signature}."),
    ] {
        assert!(decode_session_claims(&refused, TEST_SECRET).is_err());
    }
}

fn sign_json(json: &str) -> String {
    let said = serde_json::value::RawValue::from_string(json.to_string()).expect("json");
    let key = jsonwebtoken::EncodingKey::from_secret(TEST_SECRET.as_bytes());
    jsonwebtoken::encode(&jsonwebtoken::Header::default(), &said, &key).expect("signed")
}

#[test]
fn a_token_says_each_claim_once() {
    let (exp, iat) = (now().seconds + 60, now().seconds);
    let rest = format!("\"tier\":\"pro\",\"exp\":{exp},\"iat\":{iat}");
    let good = sign_json(&format!(
        " {{\"x\":[1e999],\"email\":\"\\u00e9\\n\",\"x\":{{\"sub\":1}},\"sub\":\"s\",{rest}}}"
    ));
    let claims = decode_session_claims(&good, TEST_SECRET).expect("said");
    assert_eq!((claims.sub.as_str(), claims.email.as_str()), ("s", "\u{e9}\n"));
    assert_eq!((claims.exp, claims.iat), (exp, iat));
    for json in [
        format!("{{\"email\":\"a\",\"email\":\"a\",\"sub\":\"s\",{rest}}}"),
        format!("{{\"sub\":\"s\",{rest}}}"),
        format!("{{\"email\":1,\"sub\":\"s\",{rest}}}"),
        format!("[{exp},0,\"s\"]"),
    ] {
        let token = sign_json(&json);
        assert!(read_claims(&token).is_none());
        assert!(decode_session_claims(&token, TEST_SECRET).is_err());
    }
    for broken in ["", ".", "a.b", "..", "a.!.c"] {
        assert!(read_claims(broken).is_none());
    }
}

#[test]
fn claims_are_read_back_whatever_they_hold() {
    let mut user = probe_user();
    user.email = "\"\\\u{1}\u{8}\t\n\u{c}\r\u{1f}\u{7f}{[:,]}\u{e9}\u{20ac}\u{1f600}".to_string();
    user.tier = String::new();
    let at = Timestamp { seconds: -5, nanos: 0 };
    let (token, _) = generate_jwt(&user, TEST_SECRET, 2, at).expect("mint");
    let claims = read_claims(&token).expect("said");
    assert_eq!((claims.email, claims.tier), (user.email, user.tier));
    assert_eq!((claims.exp, claims.iat), (-3, -5));
    assert!(decode_session_claims(&token, TEST_SECRET).is_err());
}

#[test]
fn header_names_hs256_however_it_is_written() {
    let (token, _) = generate_jwt(&probe_user(), TEST_SECRET, 3600, now()).expect("mint");
    let payload = token.split('.').nth(1).expect("payload segment");
    let key = jsonwebtoken::EncodingKey::from_secret(TEST_SECRET.as_bytes());
    let signed = |header: &str| {
        let header = base64::Engine::encode(
            &base64::engine::general_purpose::URL_SAFE_NO_PAD,
            header,
        );
        let message = format!("{header}.{payload}");
        let algorithm = jsonwebtoken::Algorithm::HS256;
        let signature = jsonwebtoken::crypto::sign(message.as_bytes(), &key, algorithm);
        format!("{message}.{}", signature.expect("signed"))
    };
    for header in [
        r#"{"alg":"HS256"}"#,
        r#" { "x" : "{,:}" , "alg" : "HS\u003256" } "#,
        r#"{"typ":"JWT","alg":"HS256"}"#,
    ] {
        assert!(decode_session_claims(&signed(header), TEST_SECRET).is_ok(), "{header}");
    }
    for header in [
        r#"{"alg":"HS384","typ":"JWT"}"#,
        r#"{"alg":"none"}"#,
        r#"{"alg":"hs256"}"#,
        r#"{"alg":"HS256","alg":"HS256"}"#,
        r#"{"typ":"HS256"}"#,
        r#"["JWT","HS256"]"#,
        "HS256",
    ] {
        assert!(decode_session_claims(&signed(header), TEST_SECRET).is_err(), "{header}");
    }
}

#[test]
fn every_ordinary_password_is_hashed() {
    for password in ["", "p", "\u{1f600}\u{0}", &"x".repeat(10_000)] {
        let hash = hash_password(password).expect("hashed");
        assert!(verify_password_hash(password, &hash).is_ok());
    }
}

#[test]
fn allowance_is_that_of_the_plan() {
    for tier in ["free", "pro", "team", "gold"] {
        let status = check_usage_limits(tier, 0, 0);
        let limits = feedmind::routes::billing::service::get_user_limits(tier);
        assert_eq!(status.ai_tokens_limit, i64::from(limits.ai_tokens_per_month));
        assert_eq!(status.api_calls_limit, i64::from(limits.api_calls_per_month));
    }
}
