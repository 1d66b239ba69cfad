use tallii::Claims;
use tallii::TalliiError;
use tallii::TokenCodec;
use tallii::authenticate;
use tallii::can_mutate;
use tallii::extract_token;

const NOW: i64 = 1_700_000_000;

#[test]
fn extracts_token_after_extra_whitespace() {
    let r = extract_token(Some("Bearer   abc.def.ghi")).unwrap();
    assert_eq!(r, "abc.def.ghi");
}

#[test]
fn extracts_token_after_single_space() {
    let r = extract_token(Some("Bearer x.y.z")).unwrap();
    assert_eq!(r, "x.y.z");
}

#[test]
fn trims_trailing_whitespace() {
    let r = extract_token(Some("Bearer \ttok\t \r\n")).unwrap();
    assert_eq!(r, "tok");
}

#[test]
fn wrong_scheme_is_missing_bearer_token() {
    assert!(matches!(extract_token(Some("Token abc")), Err(TalliiError::MissingBearerToken)));
    assert!(matches!(extract_token(Some("bearer abc")), Err(TalliiError::MissingBearerToken)));
    assert!(matches!(extract_token(Some("Bear abc")), Err(TalliiError::MissingBearerToken)));
}

#[test]
fn absent_header_is_missing_bearer_token() {
    assert!(matches!(extract_token(None), Err(TalliiError::MissingBearerToken)));
}

#[test]
fn blank_token_material_is_missing_bearer_token() {
    assert!(matches!(extract_token(Some("Bearer")), Err(TalliiError::MissingBearerToken)));
    assert!(matches!(extract_token(Some("Bearer    ")), Err(TalliiError::MissingBearerToken)));
}

#[test]
fn prefix_is_stripped_without_a_separating_space() {
    // The scheme check is a literal prefix match, so material glued to the
    // prefix is still extracted.
    let r = extract_token(Some("Bearerabc")).unwrap();
    assert_eq!(r, "abc");
}

#[test]
fn authenticate_verifies_the_extracted_token() {
    let codec = TokenCodec::new("gate-secret".to_owned());
    let email = "gate@example.com".to_owned();
    let token = codec.issue(21, &email, NOW).unwrap();
    let header = format!("Bearer   {}", token);
    let claims: Claims = authenticate(&codec, Some(header.as_str()), NOW).unwrap();
    assert_eq!(claims.sub, 21);
    assert_eq!(claims.email, "gate@example.com");
}

#[test]
fn authenticate_propagates_invalid_token() {
    let codec = TokenCodec::new("gate-secret".to_owned());
    let header = "Bearer not.a.token";
    assert!(matches!(
        authenticate(&codec, Some(header), NOW),
        Err(TalliiError::InvalidToken)
    ));
}

#[test]
fn authenticate_rejects_expired_tokens() {
    let codec = TokenCodec::new("gate-secret".to_owned());
    let email = "late@example.com".to_owned();
    let token = codec.issue(4, &email, NOW - 10_000).unwrap();
    let header = format!("Bearer {}", token);
    assert!(matches!(
        authenticate(&codec, Some(header.as_str()), NOW),
        Err(TalliiError::InvalidToken)
    ));
}

#[test]
fn authenticate_without_header_is_missing_bearer_token() {
    let codec = TokenCodec::new("gate-secret".to_owned());
    assert!(matches!(
        authenticate(&codec, None, NOW),
        Err(TalliiError::MissingBearerToken)
    ));
}

#[test]
fn introspect_reads_stale_tokens_but_carries_no_trust() {
    let codec = TokenCodec::new("gate-secret".to_owned());
    let email = "stale@example.com".to_owned();
    // Expired, and not even signed under this codec's secret.
    let other = TokenCodec::new("foreign-secret".to_owned());
    let token = other.issue(13, &email, NOW - 10_000).unwrap();
    let header = format!("Bearer {}", token);
    let claims = tallii::introspect(&codec, Some(header.as_str())).unwrap();
    assert_eq!(claims.sub, 13);
    // The hard gate refuses the very same header.
    assert!(matches!(
        authenticate(&codec, Some(header.as_str()), NOW),
        Err(TalliiError::InvalidToken)
    ));
}

#[test]
fn ownership_guard_compares_subject_and_owner() {
    let claims = Claims { sub: 5, email: "o@example.com".to_owned(), exp: NOW };
    assert!(can_mutate(&claims, 5));
    assert!(!can_mutate(&claims, 6));
}
