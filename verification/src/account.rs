//! Login and signup: payload validation, password hashing and checking, and
//! the token handed back on success.
//!
//! Password hashing and checking are done by the `argon2` crate and email
//! syntax by the `validator` crate; every decision around those calls is
//! verified code.

use vstd::prelude::*;

use crate::errors::TalliiError;
use crate::records::User;
use crate::records::UserResponse;
use crate::records::user_response;
use crate::records::user_response_of;
use crate::store::Store;
use crate::store::StoreV;
use crate::store::has_user_email;
use crate::store::is_first_user_with_email;
use crate::store::wf;
use crate::token::TOKEN_LIFETIME_SECONDS;
use crate::token::TokenCodec;
use crate::token::spec_claims_of;
use crate::token::well_signed;

verus! {

/// Whether `validator` accepts the string as an email address.
pub uninterp spec fn email_valid(email: Seq<char>) -> bool;

/// The encoded hash `argon2` derives from a password and a salt with its
/// default configuration.
pub uninterp spec fn hashed_password(password: Seq<char>, salt: Seq<char>) -> Seq<char>;

/// Whether `argon2` accepts `password` against the encoded hash.
pub uninterp spec fn password_matches(hash: Seq<char>, password: Seq<char>) -> bool;

/// Whether this many characters certainly stays inside argon2's input-size
/// bound: a character encodes to at most four UTF-8 bytes, and argon2 takes
/// inputs of up to 0xFFFF_FFFF bytes.
pub open spec fn within_argon_bound(s: Seq<char>) -> bool {
    s.len() <= 0x3FFF_FFFF
}

/// Relies on validator::validate_email: a pure predicate on the string (the
/// HTML5 email shape).
#[verifier::external_body]
fn email_ok(email: &String) -> (r: bool)
    ensures
        r == email_valid(email@),
{
    validator::validate_email(email.as_str())
}

/// Relies on argon2::hash_encoded with the default configuration: the
/// encoded hash is a function of password and salt alone, and
/// argon2::verify_encoded accepts the password it was derived from (the
/// parameters and the salt ride along inside the encoded form). Its only
/// failures are input-size checks: a salt shorter than eight bytes, or a
/// salt or password over 0xFFFF_FFFF bytes.
#[verifier::external_body]
fn hash_password(password: &String, salt: &String) -> (r: Option<String>)
    ensures
        r matches Some(h) ==> h@ == hashed_password(password@, salt@),
        r matches Some(h) ==> password_matches(h@, password@),
        r is None ==> !(salt@.len() >= 8 && within_argon_bound(salt@) && within_argon_bound(
            password@,
        )),
{
    argon2::hash_encoded(password.as_bytes(), salt.as_bytes(), &argon2::Config::default()).ok()
}

/// Relies on argon2::verify_encoded: a pure predicate of the encoded hash
/// and the password, true of every hash that argon2::hash_encoded derived
/// from that password (argon2 re-derives the parameters and salt from the
/// encoded form and recomputes). It fails only on a hash argon2 cannot
/// parse — never one of argon2's own — or a password over 0xFFFF_FFFF
/// bytes.
#[verifier::external_body]
fn check_password(hash: &String, password: &String) -> (r: Option<bool>)
    ensures
        r matches Some(b) ==> b == password_matches(hash@, password@),
        r matches Some(b) ==> ((exists|s0: Seq<char>| hash@ == hashed_password(password@, s0))
            ==> b),
        r is None ==> !(within_argon_bound(password@) && (exists|p0: Seq<char>, s0: Seq<char>|
        hash@ == hashed_password(p0, s0))),
{
    argon2::verify_encoded(hash.as_str(), password.as_bytes()).ok()
}

/// Login request body.
pub struct LoginPayload {
    pub email: String,
    pub password: String,
}

/// Signup request body.
pub struct SignupPayload {
    pub username: String,
    pub email: String,
    pub password: String,
}

/// What login and signup answer with: a fresh access token and the user's
/// profile without password material.
pub struct LoginResponse {
    pub access_token: String,
    pub user: UserResponse,
}

/// Whether a login payload passes validation: a well-formed email and a
/// password of at least six characters.
pub open spec fn login_payload_valid(email: Seq<char>, password: Seq<char>) -> bool {
    email_valid(email) && password.len() >= 6
}

/// Whether a signup payload passes validation: a username of at least three
/// characters on top of the login rules.
pub open spec fn signup_payload_valid(
    username: Seq<char>,
    email: Seq<char>,
    password: Seq<char>,
) -> bool {
    username.len() >= 3 && email_valid(email) && password.len() >= 6
}

/// Logs a user in: validates the payload, checks the password against the
/// stored row (absent row and wrong password both answer `Unauthorized`,
/// indistinguishably), and issues a fresh token on success.
pub fn login(codec: &TokenCodec, payload: &LoginPayload, stored: Option<&User>, now: i64) -> (r:
    Result<LoginResponse, TalliiError>)
    requires
        now <= i64::MAX - TOKEN_LIFETIME_SECONDS,
    ensures
        (r matches Err(e) && e is ValidationError) <==> !login_payload_valid(
            payload.email@,
            payload.password@,
        ),
        login_payload_valid(payload.email@, payload.password@) && stored is None ==> (
        r matches Err(e) && e is Unauthorized),
        (r matches Err(e) && e is Unauthorized) ==> (stored is None || (stored matches Some(u)
            && !password_matches(u.password@, payload.password@))),
        r matches Ok(resp) ==> (stored matches Some(u) && login_payload_valid(
            payload.email@,
            payload.password@,
        ) && password_matches(u.password@, payload.password@) && resp.user@ == user_response_of(u@)
            && well_signed(resp.access_token@, codec.spec_secret()) && spec_claims_of(
            resp.access_token@,
        ) == Some((u@.user_id, u@.email, now + TOKEN_LIFETIME_SECONDS))),
        stored matches Some(u) ==> ((login_payload_valid(payload.email@, payload.password@)
            && within_argon_bound(payload.password@) && (exists|s0: Seq<char>| u.password@
            == hashed_password(payload.password@, s0))) ==> r is Ok),
        stored matches Some(u) ==> ((login_payload_valid(payload.email@, payload.password@)
            && within_argon_bound(payload.password@) && (exists|p0: Seq<char>, s0: Seq<char>|
        u.password@ == hashed_password(p0, s0)) && !password_matches(
            u.password@,
            payload.password@,
        )) ==> (r matches Err(e) && e is Unauthorized)),
        r matches Err(e) ==> (e is ValidationError || e is Unauthorized
            || e is InternalServerError),
{
    if !email_ok(&payload.email) || payload.password.as_str().unicode_len() < 6 {
        return Err(TalliiError::ValidationError("invalid login payload".to_owned()));
    }
    let user = match stored {
        Some(user) => user,
        None => {
            return Err(TalliiError::Unauthorized);
        },
    };
    let matches_stored = match check_password(&user.password, &payload.password) {
        Some(b) => b,
        None => {
            return Err(
                TalliiError::InternalServerError("stored password hash is unusable".to_owned()),
            );
        },
    };
    if !matches_stored {
        return Err(TalliiError::Unauthorized);
    }
    let access_token = match codec.issue(user.user_id, &user.email, now) {
        Ok(t) => t,
        Err(e) => {
            return Err(e);
        },
    };
    Ok(LoginResponse { access_token, user: user_response(user) })
}

/// The bare user row the passwordless flow inserts on first sight of an
/// email: only the email is known; name, hash and avatars start empty.
pub open spec fn walkin_user(s: StoreV, email: Seq<char>, now: int) -> crate::records::UserV {
    crate::records::UserV {
        user_id: s.next_user_id,
        username: ""@,
        email: email,
        password: ""@,
        avatar_background: ""@,
        avatar_emoji: ""@,
        created_at: now,
    }
}

/// Logs a user in by email alone, creating a bare user row on first sight:
/// the passwordless flow. Validates the email, fetches or creates the row,
/// and answers with a fresh access token for it. On every error the store
/// is unchanged; with a valid email and id headroom, success is owed.
pub fn passwordless_login(
    codec: &TokenCodec,
    store: &mut Store,
    email: &String,
    now: i64,
) -> (r: Result<crate::token::TokenResponse, TalliiError>)
    requires
        wf(old(store)@),
        now <= i64::MAX - TOKEN_LIFETIME_SECONDS,
    ensures
        wf(final(store)@),
        (r matches Err(e) && e is ValidationError) <==> !email_valid(email@),
        r matches Err(e) ==> (e is ValidationError || e is DatabaseError),
        r is Err ==> final(store)@ == old(store)@,
        (email_valid(email@) && (has_user_email(old(store)@, email@) || old(store)@.next_user_id
            < i32::MAX)) ==> r is Ok,
        r is Ok ==> (if has_user_email(old(store)@, email@) {
            final(store)@ == old(store)@
        } else {
            final(store)@ == (StoreV {
                users: old(store)@.users.push(walkin_user(old(store)@, email@, now as int)),
                next_user_id: old(store)@.next_user_id + 1,
                ..old(store)@
            })
        }),
        r matches Ok(resp) ==> well_signed(resp.access_token@, codec.spec_secret()) && (
        exists|u: crate::records::UserV|
            is_first_user_with_email(final(store)@, email@, u) && spec_claims_of(
                resp.access_token@,
            ) == Some((u.user_id, email@, now + TOKEN_LIFETIME_SECONDS))),
{
    if !email_ok(email) {
        return Err(TalliiError::ValidationError("invalid email".to_owned()));
    }
    let user = match store.get_or_create_user(email, now) {
        Ok(u) => u,
        Err(e) => {
            return Err(e);
        },
    };
    let access_token = match codec.issue(user.user_id, &user.email, now) {
        Ok(t) => t,
        Err(e) => {
            return Err(e);
        },
    };
    proof {
        if !has_user_email(old(store)@, email@) {
            assert(final(store)@.users[old(store)@.users.len() as int] == user@);
            assert(is_first_user_with_email(final(store)@, email@, user@)) by {
                assert(forall|j: int|
                    0 <= j < old(store)@.users.len() ==> final(store)@.users[j] == old(
                        store,
                    )@.users[j]);
            }
        }
    }
    Ok(crate::token::TokenResponse { access_token })
}

/// The user row signup inserts: the payload's identity fields over the
/// hashed password, with empty avatar fields.
pub open spec fn signup_user(
    s: StoreV,
    username: Seq<char>,
    email: Seq<char>,
    password: Seq<char>,
    salt: Seq<char>,
    now: int,
) -> crate::records::UserV {
    crate::records::UserV {
        user_id: s.next_user_id,
        username: username,
        email: email,
        password: hashed_password(password, salt),
        avatar_background: ""@,
        avatar_emoji: ""@,
        created_at: now,
    }
}

/// Signs a user up: validates the payload, refuses an email some user
/// already carries (`UserEmailTaken`), hashes the password with `salt`,
/// inserts the user row, and issues a fresh token. On every error the store
/// is left unchanged; with a usable salt, a fresh email and id headroom,
/// success is owed.
pub fn signup(
    codec: &TokenCodec,
    store: &mut Store,
    payload: &SignupPayload,
    salt: &String,
    now: i64,
) -> (r: Result<LoginResponse, TalliiError>)
    requires
        wf(old(store)@),
        now <= i64::MAX - TOKEN_LIFETIME_SECONDS,
    ensures
        wf(final(store)@),
        (r matches Err(e) && e is ValidationError) <==> !signup_payload_valid(
            payload.username@,
            payload.email@,
            payload.password@,
        ),
        (r matches Err(e) && e is UserEmailTaken) <==> (signup_payload_valid(
            payload.username@,
            payload.email@,
            payload.password@,
        ) && has_user_email(old(store)@, payload.email@)),
        r matches Err(e) ==> (e is ValidationError || e is UserEmailTaken || e is DatabaseError
            || e is InternalServerError),
        r is Err ==> final(store)@ == old(store)@,
        (signup_payload_valid(payload.username@, payload.email@, payload.password@)
            && !has_user_email(old(store)@, payload.email@) && salt@.len() >= 8
            && within_argon_bound(salt@) && within_argon_bound(payload.password@) && old(
            store,
        )@.next_user_id < i32::MAX) ==> r is Ok,
        r matches Ok(resp) ==> ({
            let created = signup_user(
                old(store)@,
                payload.username@,
                payload.email@,
                payload.password@,
                salt@,
                now as int,
            );
            &&& signup_payload_valid(payload.username@, payload.email@, payload.password@)
            &&& !has_user_email(old(store)@, payload.email@)
            &&& final(store)@ == (StoreV {
                users: old(store)@.users.push(created),
                next_user_id: old(store)@.next_user_id + 1,
                ..old(store)@
            })
            &&& resp.user@ == user_response_of(created)
            &&& password_matches(created.password, payload.password@)
            &&& well_signed(resp.access_token@, codec.spec_secret())
            &&& spec_claims_of(resp.access_token@) == Some(
                (created.user_id, created.email, now + TOKEN_LIFETIME_SECONDS),
            )
        }),
{
    if payload.username.as_str().unicode_len() < 3 || !email_ok(&payload.email)
        || payload.password.as_str().unicode_len() < 6 {
        return Err(TalliiError::ValidationError("invalid signup payload".to_owned()));
    }
    if store.find_user_by_email(&payload.email).is_some() {
        return Err(TalliiError::UserEmailTaken);
    }
    let hash = match hash_password(&payload.password, salt) {
        Some(h) => h,
        None => {
            return Err(
                TalliiError::InternalServerError("password hashing is unavailable".to_owned()),
            );
        },
    };
    let created = match store.create_user(&payload.username, &payload.email, &hash, now) {
        Ok(u) => u,
        Err(e) => {
            return Err(e);
        },
    };
    let access_token = match codec.issue(created.user_id, &created.email, now) {
        Ok(t) => t,
        Err(e) => {
            return Err(e);
        },
    };
    Ok(LoginResponse { access_token, user: user_response(&created) })
}

} // verus!
