use gust::jwt::{
    base64url_decode, base64url_encode, extract_number_field, extract_string_field, Algorithm, Claims, Jwt, JwtConfig,
    JwtError, JwtMiddleware,
};

#[test]
fn test_jwt_encode_decode() {
    let config = JwtConfig::new("secret");
    let jwt = Jwt::new(config);

    let claims = Claims::new().sub("user123").exp_in(3600).iat_now();

    let token = jwt.encode(&claims);
    let decoded = jwt.decode(&token).unwrap();

    assert_eq!(decoded.sub, Some("user123".to_string()));
}

#[test]
fn test_jwt_invalid_signature() {
    let jwt1 = Jwt::new(JwtConfig::new("secret1"));
    let jwt2 = Jwt::new(JwtConfig::new("secret2"));

    let claims = Claims::new().sub("user");
    let token = jwt1.encode(&claims);

    assert!(matches!(jwt2.decode(&token), Err(JwtError::InvalidSignature)));
}

#[test]
fn jwt_known_token() {
    let jwt = Jwt::new(JwtConfig::new("secret"));
    let claims = Claims::new().sub("1234567890").iat_now();
    let token = jwt.encode(&Claims::new().sub("1234567890"));
    assert!(token.starts_with("eyJhbGciOiJIUzI1NiIsInR5cCI6IkpXVCJ9.eyJzdWIiOiIxMjM0NTY3ODkwIn0."));
    assert!(claims.iat.is_some());
}

#[test]
fn jwt_validity_times() {
    let jwt = Jwt::new(JwtConfig::new("k"));
    let token = jwt.encode(&Claims::new().exp(100).nbf(50));
    assert!(jwt.decode_at(&token, 75).is_ok());
    assert_eq!(jwt.decode_at(&token, 101).unwrap_err(), JwtError::Expired);
    assert_eq!(jwt.decode_at(&token, 10).unwrap_err(), JwtError::NotYetValid);
    assert_eq!(jwt.decode_at("a.b", 0).unwrap_err(), JwtError::InvalidFormat);
    let other = Jwt::new(JwtConfig::new("k").algorithm(Algorithm::HS512));
    assert_eq!(other.decode_at(&token, 75).unwrap_err(), JwtError::AlgorithmMismatch);
}

#[test]
fn jwt_claims_json() {
    let jwt = Jwt::new(JwtConfig::new("k").leeway(5));
    assert_eq!(jwt.config.leeway, 5);
    let c = Claims::new().iss("me").exp(7).claim("role", "admin").claim("role", "root").claim("x", "y");
    assert_eq!(jwt.claims_to_json(&c), r#"{"iss":"me","exp":7,"role":"root","x":"y"}"#);
    assert_eq!(jwt.claims_to_json(&Claims::new()), "{}");
    let parsed = jwt.parse_claims(r#"{"iss":"me","exp":7}"#).unwrap();
    assert_eq!(parsed.iss, Some("me".to_string()));
    assert_eq!(parsed.exp, Some(7));
    assert_eq!(jwt.parse_algorithm(r#"{"alg":"HS384"}"#), Ok(Algorithm::HS384));
    assert_eq!(jwt.parse_algorithm(r#"{"alg":"RS256"}"#), Err(JwtError::UnsupportedAlgorithm));
    assert_eq!(jwt.parse_algorithm("{}"), Err(JwtError::InvalidFormat));
    assert_eq!(JwtMiddleware::new(JwtConfig::new("z")).jwt.config.algorithm, Algorithm::HS256);
}

#[test]
fn base64url_codec() {
    assert_eq!(base64url_encode(&[0xfb, 0xff]), "-_8");
    assert_eq!(base64url_decode("-_8"), Some(vec![0xfb, 0xff]));
    assert_eq!(base64url_decode("+/8="), Some(vec![0xfb, 0xff]));
    assert_eq!(base64url_decode("!abc"), None);
    assert_eq!(extract_string_field(r#"{"a":"b"}"#, "a"), Some("b".to_string()));
    assert_eq!(extract_string_field(r#"{"a":1}"#, "a"), None);
    assert_eq!(extract_number_field(r#"{"n":123,"m":1}"#, "n"), Some(123));
    assert_eq!(extract_number_field(r#"{"n":"x"}"#, "n"), None);
    assert_eq!(Algorithm::from_str("HS512"), Some(Algorithm::HS512));
    assert_eq!(Algorithm::HS256.as_str(), "HS256");
}
