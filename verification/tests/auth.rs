use vpn_bot::web::auth::{
    check_pairs, sign, verified_user, verify_at, verify_init_data, AuthError, WebAppUser,
};

const TOKEN: &str = "123456:TEST-token";

/// Builds `initData` the way Telegram does, signed with `TOKEN`.
fn signed(fields: &[(&str, &str)]) -> String {
    let mut pairs: Vec<String> = fields.iter().map(|(k, v)| format!("{k}={v}")).collect();
    pairs.sort();
    let secret = sign(b"WebAppData", TOKEN.as_bytes());
    let hash = hex::encode(sign(&secret, pairs.join("\n").as_bytes()));

    let mut query = url::form_urlencoded::Serializer::new(String::new());
    for (k, v) in fields {
        query.append_pair(k, v);
    }
    query.append_pair("hash", &hash);
    query.finish()
}

fn at(secs: u64) -> u128 {
    secs as u128 * 1_000_000_000
}

fn parsed(text: &str) -> Option<WebAppUser> {
    let value: serde_json::Value = serde_json::from_str(text).ok()?;
    Some(WebAppUser {
        id: value["id"].as_u64()?,
        username: value["username"].as_str().map(str::to_string),
        first_name: value["first_name"].as_str()?.to_string(),
    })
}

const USER: &str = r#"{"id":42,"first_name":"Ilya","username":"aetoneilya"}"#;

#[test]
fn accepts_valid_data() {
    let data = signed(&[("auth_date", "1000"), ("query_id", "q"), ("user", USER)]);
    let text = verify_at(&data, TOKEN, at(1100)).unwrap();
    let user = verified_user(Ok(text.clone()), parsed(&text)).unwrap();
    assert_eq!(user.id, 42);
    assert_eq!(user.username.as_deref(), Some("aetoneilya"));
}

#[test]
fn rejects_tampered_user() {
    let data = signed(&[("auth_date", "1000"), ("user", USER)]).replace("42", "43");
    assert_eq!(
        verify_at(&data, TOKEN, at(1100)).unwrap_err(),
        AuthError::BadSignature
    );
}

#[test]
fn rejects_other_bot_token() {
    let data = signed(&[("auth_date", "1000"), ("user", USER)]);
    assert_eq!(
        verify_at(&data, "999:other", at(1100)).unwrap_err(),
        AuthError::BadSignature
    );
}

#[test]
fn rejects_stale_data() {
    let data = signed(&[("auth_date", "1000"), ("user", USER)]);
    assert_eq!(
        verify_at(&data, TOKEN, at(1000 + 25 * 3600)).unwrap_err(),
        AuthError::Expired
    );
}

#[test]
fn rejects_missing_hash() {
    assert_eq!(
        verify_at("auth_date=1&user=%7B%7D", TOKEN, at(2)).unwrap_err(),
        AuthError::Malformed
    );
}

#[test]
fn data_expires_a_day_after_it_was_signed() {
    let data = signed(&[("auth_date", "1000"), ("user", USER)]);
    let last = at(1000 + 24 * 3600);
    assert!(verify_at(&data, TOKEN, last).is_ok());
    assert_eq!(
        verify_at(&data, TOKEN, last + 1).unwrap_err(),
        AuthError::Expired
    );
}

#[test]
fn data_from_the_future_is_accepted() {
    let data = signed(&[("auth_date", "1000"), ("user", USER)]);
    assert!(verify_at(&data, TOKEN, 0).is_ok());
}

#[test]
fn order_of_pairs_does_not_matter() {
    let secret = sign(b"WebAppData", TOKEN.as_bytes());
    let hash = hex::encode(sign(&secret, format!("auth_date=5\nuser={USER}").as_bytes()));
    let pair = |k: &str, v: &str| (k.to_string(), v.to_string());
    let one = vec![pair("user", USER), pair("hash", &hash), pair("auth_date", "5")];
    let other = vec![pair("auth_date", "5"), pair("user", USER), pair("hash", &hash)];
    assert_eq!(check_pairs(&one, TOKEN, at(6)).unwrap(), USER);
    assert_eq!(check_pairs(&other, TOKEN, at(6)).unwrap(), USER);
}

#[test]
fn signed_data_without_user_or_date_is_malformed() {
    let data = signed(&[("auth_date", "1000")]);
    assert_eq!(
        verify_at(&data, TOKEN, at(1100)).unwrap_err(),
        AuthError::Malformed
    );
    let data = signed(&[("user", USER)]);
    assert_eq!(
        verify_at(&data, TOKEN, at(1100)).unwrap_err(),
        AuthError::Malformed
    );
}

#[test]
fn hash_that_is_not_hexadecimal_is_malformed() {
    assert_eq!(
        verify_at("auth_date=1&user=x&hash=zz", TOKEN, at(2)).unwrap_err(),
        AuthError::Malformed
    );
}

#[test]
fn date_beyond_the_clock_is_malformed() {
    let data = signed(&[("auth_date", "9223372036854775808"), ("user", USER)]);
    assert_eq!(
        verify_at(&data, TOKEN, at(2)).unwrap_err(),
        AuthError::Malformed
    );
}

#[test]
fn text_that_is_no_user_is_malformed() {
    let data = signed(&[("auth_date", "1000"), ("user", "{}")]);
    let text = verify_at(&data, TOKEN, at(1100)).unwrap();
    let user = parsed(&text);
    assert_eq!(
        verified_user(Ok(text), user).unwrap_err(),
        AuthError::Malformed
    );
    assert_eq!(
        verified_user(Err(AuthError::Expired), None).unwrap_err(),
        AuthError::Expired
    );
}

#[test]
fn old_data_is_expired_now() {
    let data = signed(&[("auth_date", "1000"), ("user", USER)]);
    assert_eq!(
        verify_init_data(&data, TOKEN).unwrap_err(),
        AuthError::Expired
    );
}

#[test]
fn signing_is_hmac_with_sha256() {
    assert_eq!(
        hex::encode(sign(b"key", b"The quick brown fox jumps over the lazy dog")),
        "f7bc83f430538424b13298e6aa6fb143ef4d59a14946175997479dbc2d1a3cd8"
    );
}
