use tallii::LoginPayload;
use tallii::SignupPayload;
use tallii::Store;
use tallii::TalliiError;
use tallii::TokenCodec;
use tallii::login;
use tallii::passwordless_login;
use tallii::signup;

const NOW: i64 = 1_700_000_000;

fn codec() -> TokenCodec {
    TokenCodec::new("account-secret".to_owned())
}

fn salt() -> String {
    "a-deterministic-salt".to_owned()
}

fn good_signup() -> SignupPayload {
    SignupPayload {
        username: "grace".to_owned(),
        email: "grace@example.com".to_owned(),
        password: "hunter22".to_owned(),
    }
}

#[test]
fn signup_then_login_round_trip() {
    let codec = codec();
    let mut store = Store::new();
    let signed_up = signup(&codec, &mut store, &good_signup(), &salt(), NOW).unwrap();
    assert_eq!(signed_up.user.username, "grace");
    assert_eq!(signed_up.user.email, "grace@example.com");
    // The signup token is a verifiable session token for the new user.
    let claims = codec.verify(&signed_up.access_token, NOW).unwrap();
    assert_eq!(claims.sub, signed_up.user.user_id);
    assert_eq!(claims.email, "grace@example.com");

    let stored = store.find_user_by_email(&"grace@example.com".to_owned()).unwrap();
    let payload = LoginPayload {
        email: "grace@example.com".to_owned(),
        password: "hunter22".to_owned(),
    };
    let logged_in = login(&codec, &payload, Some(&stored), NOW).unwrap();
    assert_eq!(logged_in.user.user_id, signed_up.user.user_id);
    assert!(codec.verify(&logged_in.access_token, NOW).is_ok());
}

#[test]
fn login_with_wrong_password_is_unauthorized() {
    let codec = codec();
    let mut store = Store::new();
    signup(&codec, &mut store, &good_signup(), &salt(), NOW).unwrap();
    let stored = store.find_user_by_email(&"grace@example.com".to_owned()).unwrap();
    let payload = LoginPayload {
        email: "grace@example.com".to_owned(),
        password: "hunter23".to_owned(),
    };
    assert!(matches!(
        login(&codec, &payload, Some(&stored), NOW),
        Err(TalliiError::Unauthorized)
    ));
}

#[test]
fn login_for_an_unknown_email_is_unauthorized() {
    let codec = codec();
    let payload = LoginPayload {
        email: "nobody@example.com".to_owned(),
        password: "hunter22".to_owned(),
    };
    assert!(matches!(login(&codec, &payload, None, NOW), Err(TalliiError::Unauthorized)));
}

#[test]
fn login_payload_is_validated_first() {
    let codec = codec();
    let bad_email = LoginPayload { email: "not-an-email".to_owned(), password: "hunter22".to_owned() };
    assert!(matches!(
        login(&codec, &bad_email, None, NOW),
        Err(TalliiError::ValidationError(_))
    ));
    let short_password =
        LoginPayload { email: "grace@example.com".to_owned(), password: "short".to_owned() };
    assert!(matches!(
        login(&codec, &short_password, None, NOW),
        Err(TalliiError::ValidationError(_))
    ));
}

#[test]
fn signup_rejects_invalid_payloads() {
    let codec = codec();
    let mut store = Store::new();
    let short_username = SignupPayload {
        username: "ab".to_owned(),
        email: "ab@example.com".to_owned(),
        password: "hunter22".to_owned(),
    };
    assert!(matches!(
        signup(&codec, &mut store, &short_username, &salt(), NOW),
        Err(TalliiError::ValidationError(_))
    ));
    let bad_email = SignupPayload {
        username: "grace".to_owned(),
        email: "grace".to_owned(),
        password: "hunter22".to_owned(),
    };
    assert!(matches!(
        signup(&codec, &mut store, &bad_email, &salt(), NOW),
        Err(TalliiError::ValidationError(_))
    ));
    let short_password = SignupPayload {
        username: "grace".to_owned(),
        email: "grace@example.com".to_owned(),
        password: "12345".to_owned(),
    };
    assert!(matches!(
        signup(&codec, &mut store, &short_password, &salt(), NOW),
        Err(TalliiError::ValidationError(_))
    ));
    // Nothing was inserted along the way.
    assert!(store.find_user_by_email(&"grace@example.com".to_owned()).is_none());
}

#[test]
fn signup_refuses_a_taken_email() {
    let codec = codec();
    let mut store = Store::new();
    signup(&codec, &mut store, &good_signup(), &salt(), NOW).unwrap();
    let again = SignupPayload {
        username: "grace2".to_owned(),
        email: "grace@example.com".to_owned(),
        password: "hunter33".to_owned(),
    };
    assert!(matches!(
        signup(&codec, &mut store, &again, &salt(), NOW),
        Err(TalliiError::UserEmailTaken)
    ));
    // No second row was created: the email still resolves to the first
    // signup, and no user beyond it exists.
    assert_eq!(
        store.find_user_by_email(&"grace@example.com".to_owned()).unwrap().username,
        "grace"
    );
    assert!(matches!(store.get_user(2), Err(TalliiError::NotFound)));
}

#[test]
fn signup_with_an_unusable_salt_is_an_internal_error() {
    let codec = codec();
    let mut store = Store::new();
    // argon2 requires at least eight bytes of salt.
    let tiny_salt = "abc".to_owned();
    assert!(matches!(
        signup(&codec, &mut store, &good_signup(), &tiny_salt, NOW),
        Err(TalliiError::InternalServerError(_))
    ));
}

#[test]
fn passwordless_login_creates_then_reuses_the_user() {
    let codec = codec();
    let mut store = Store::new();
    let email = "solo@example.com".to_owned();
    let first = passwordless_login(&codec, &mut store, &email, NOW).unwrap();
    let c1 = codec.verify(&first.access_token, NOW).unwrap();
    assert_eq!(c1.email, "solo@example.com");
    let second = passwordless_login(&codec, &mut store, &email, NOW).unwrap();
    let c2 = codec.verify(&second.access_token, NOW).unwrap();
    assert_eq!(c1.sub, c2.sub);
    let bad = passwordless_login(&codec, &mut store, &"not-an-email".to_owned(), NOW);
    assert!(matches!(bad, Err(TalliiError::ValidationError(_))));
}

#[test]
fn get_or_create_user_is_idempotent_per_email() {
    let mut store = Store::new();
    let email = "walkin@example.com".to_owned();
    let first = store.get_or_create_user(&email, NOW).unwrap();
    let second = store.get_or_create_user(&email, NOW).unwrap();
    assert_eq!(first.user_id, second.user_id);
    assert_eq!(second.email, "walkin@example.com");
    let other = store.get_or_create_user(&"other@example.com".to_owned(), NOW).unwrap();
    assert_ne!(other.user_id, first.user_id);
}
