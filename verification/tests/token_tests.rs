use tallii::Claims;
use tallii::Config;
use tallii::TalliiError;
use tallii::TokenCodec;
use tallii::TOKEN_LIFETIME_SECONDS;

const NOW: i64 = 1_700_000_000;

fn codec() -> TokenCodec {
    TokenCodec::new("a-test-signing-secret".to_owned())
}

#[test]
fn issue_then_verify_round_trip() {
    let codec = codec();
    let email = "alice@example.com".to_owned();
    let token = codec.issue(7, &email, NOW).unwrap();
    let claims: Claims = codec.verify(&token, NOW).unwrap();
    assert_eq!(claims.sub, 7);
    assert_eq!(claims.email, "alice@example.com");
    assert_eq!(claims.exp, NOW + TOKEN_LIFETIME_SECONDS);
}

#[test]
fn verify_accepts_until_the_expiry_second() {
    let codec = codec();
    let email = "alice@example.com".to_owned();
    let token = codec.issue(7, &email, NOW).unwrap();
    assert!(codec.verify(&token, NOW + TOKEN_LIFETIME_SECONDS).is_ok());
    let late = codec.verify(&token, NOW + TOKEN_LIFETIME_SECONDS + 1);
    assert!(matches!(late, Err(TalliiError::InvalidToken)));
}

#[test]
fn mutating_any_byte_fails_verification() {
    let codec = codec();
    let email = "bob@example.com".to_owned();
    let token = codec.issue(42, &email, NOW).unwrap();
    let bytes = token.as_bytes();
    for i in 0..bytes.len() {
        let mut mutated = bytes.to_vec();
        mutated[i] = if mutated[i] == b'A' { b'B' } else { b'A' };
        let mutated = String::from_utf8(mutated).unwrap();
        if mutated == token {
            continue;
        }
        let r = codec.verify(&mutated, NOW);
        assert!(
            matches!(r, Err(TalliiError::InvalidToken)),
            "byte {} mutated yet the token verified",
            i
        );
    }
}

#[test]
fn wrong_secret_fails_verification() {
    let codec = codec();
    let other = TokenCodec::new("another-secret".to_owned());
    let email = "carol@example.com".to_owned();
    let token = codec.issue(3, &email, NOW).unwrap();
    assert!(matches!(other.verify(&token, NOW), Err(TalliiError::InvalidToken)));
}

#[test]
fn expired_token_fails_even_with_valid_signature() {
    let codec = codec();
    let email = "dave@example.com".to_owned();
    // Issued far in the past, so its expiry lies before NOW.
    let token = codec.issue(9, &email, NOW - 10_000).unwrap();
    assert!(matches!(codec.verify(&token, NOW), Err(TalliiError::InvalidToken)));
    // The signature is still valid: verification at issue time succeeds.
    assert!(codec.verify(&token, NOW - 10_000).is_ok());
}

#[test]
fn decode_unverified_reads_expired_and_foreign_tokens() {
    let codec = codec();
    let other = TokenCodec::new("another-secret".to_owned());
    let email = "eve@example.com".to_owned();
    let token = codec.issue(11, &email, NOW - 10_000).unwrap();
    // Expired and signed under a different secret: the unverified decode
    // still hands the payload back.
    let claims = other.decode_unverified(&token).unwrap();
    assert_eq!(claims.sub, 11);
    assert_eq!(claims.email, "eve@example.com");
    assert_eq!(claims.exp, NOW - 10_000 + TOKEN_LIFETIME_SECONDS);
}

#[test]
fn decode_unverified_rejects_malformed_tokens() {
    let codec = codec();
    let garbage = "not-a-token".to_owned();
    assert!(matches!(codec.decode_unverified(&garbage), Err(TalliiError::InvalidToken)));
    assert!(matches!(codec.verify(&garbage, NOW), Err(TalliiError::InvalidToken)));
}

#[test]
fn missing_signing_secret_is_a_configuration_error() {
    let config = Config {
        database_url: String::new(),
        redis_url: String::new(),
        jwt_secret: String::new(),
        aws_ses_urn: String::new(),
        aws_ses_email: String::new(),
        salt: String::new(),
    };
    assert!(matches!(TokenCodec::from_config(&config), Err(TalliiError::ConfigurationError)));
}

#[test]
fn configured_secret_builds_a_working_codec() {
    let config = Config {
        database_url: String::new(),
        redis_url: String::new(),
        jwt_secret: "configured-secret".to_owned(),
        aws_ses_urn: String::new(),
        aws_ses_email: String::new(),
        salt: String::new(),
    };
    let codec = TokenCodec::from_config(&config).unwrap();
    let email = "frank@example.com".to_owned();
    let token = codec.issue(5, &email, NOW).unwrap();
    assert_eq!(codec.verify(&token, NOW).unwrap().sub, 5);
}
