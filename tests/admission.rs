use gateway::admission::{check_claims, room_for, AppState, Rejection, TokenClaims, TOKEN_LEEWAY};
use jsonwebtoken::{decode, encode, Algorithm, DecodingKey, EncodingKey, Header, Validation};

fn claims(sub: &str, exp: usize, room: Option<&str>) -> TokenClaims {
    TokenClaims { sub: sub.to_string(), exp, room: room.map(|r| r.to_string()) }
}

#[test]
fn default_room_is_derived_from_subject() {
    assert_eq!(room_for(&claims("alice", 10, None)), "user:alice");
}

#[test]
fn explicit_room_claim_wins() {
    assert_eq!(room_for(&claims("bob", 10, Some("user:alice"))), "user:alice");
}

#[test]
fn expiry_within_leeway_is_admitted() {
    let now: u64 = 1_000_000;
    let exp = (now as usize) - TOKEN_LEEWAY;
    let c = check_claims(Some(claims("alice", exp, None)), now).unwrap();
    assert_eq!(c.sub, "alice");
    assert_eq!(c.exp, exp);
    assert!(check_claims(Some(claims("alice", now as usize + 3600, None)), now).is_ok());
}

#[test]
fn expiry_beyond_leeway_is_refused() {
    let now: u64 = 1_000_000;
    let exp = (now as usize) - TOKEN_LEEWAY - 1;
    assert_eq!(
        check_claims(Some(claims("alice", exp, None)), now).err(),
        Some(Rejection::InvalidToken)
    );
}

#[test]
fn undecodable_token_is_refused() {
    assert_eq!(check_claims(None, 5).err(), Some(Rejection::InvalidToken));
}

#[test]
fn origin_outside_list_is_refused_before_token() {
    let state = AppState::new("s".to_string(), vec!["https://example.com".to_string()]);
    assert_eq!(
        state.admission_token(Some("https://evil.com"), "bearer, tok").err(),
        Some(Rejection::OriginNotAllowed)
    );
    assert_eq!(state.admission_token(Some("https://example.com"), "bearer, tok").unwrap(), "tok");
    assert_eq!(state.admission_token(None, "bearer, tok").unwrap(), "tok");
}

#[test]
fn empty_list_admits_every_origin() {
    let state = AppState::new("s".to_string(), vec![]);
    assert_eq!(state.admission_token(Some("https://any.example"), "tok").unwrap(), "tok");
    assert_eq!(state.admission_token(None, "tok").unwrap(), "tok");
}

#[test]
fn missing_token_is_refused() {
    let state = AppState::new("s".to_string(), vec![]);
    assert_eq!(state.admission_token(None, "").err(), Some(Rejection::MissingToken));
    assert_eq!(state.admission_token(None, "bearer").err(), Some(Rejection::MissingToken));
}

#[test]
fn expired_bearer_token_is_denied() {
    let secret = "supersecret";
    let mut payload = serde_json::Map::new();
    payload.insert("sub".to_string(), serde_json::Value::from("alice"));
    payload.insert("exp".to_string(), serde_json::Value::from(1_000_000u64));
    let jwt = encode(
        &Header::new(Algorithm::HS256),
        &serde_json::Value::Object(payload),
        &EncodingKey::from_secret(secret.as_bytes()),
    )
    .unwrap();
    let header = format!("bearer, {}", jwt);

    let state = AppState::new(secret.to_string(), vec![]);
    let token = state.admission_token(None, &header).unwrap();
    assert_eq!(token, jwt);

    let mut validation = Validation::new(Algorithm::HS256);
    validation.validate_exp = false;
    validation.required_spec_claims.clear();
    let data = decode::<serde_json::Value>(
        &token,
        &DecodingKey::from_secret(secret.as_bytes()),
        &validation,
    )
    .unwrap();
    let decoded = TokenClaims {
        sub: data.claims["sub"].as_str().unwrap().to_string(),
        exp: data.claims["exp"].as_u64().unwrap() as usize,
        room: None,
    };
    let now: u64 = 2_000_000;
    assert_eq!(check_claims(Some(decoded), now).err(), Some(Rejection::InvalidToken));
}
