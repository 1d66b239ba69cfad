//! The token codec: turns a (user id, email) pair into a signed,
//! time-limited bearer token, and reverses that transformation with or
//! without signature verification.
//!
//! Signing and signature checking are done by the `jsonwebtoken` crate; the
//! expiry check, and everything downstream of the raw decode, is verified
//! code working against a caller-supplied clock value.

use vstd::prelude::*;

use crate::config::Config;
use crate::errors::TalliiError;

verus! {

/// How long an issued token stays valid, in seconds (15 minutes).
pub const TOKEN_LIFETIME_SECONDS: i64 = 900;

/// The decoded, trust-bearing payload of a session token.
pub struct Claims {
    /// The subject user id.
    pub sub: i32,
    /// The subject's email.
    pub email: String,
    /// Absolute expiry as a unix timestamp in seconds.
    pub exp: i64,
}

/// Response body carrying a freshly issued token.
pub struct TokenResponse {
    pub access_token: String,
}

/// Whether `token` carries a signature that checks out under `secret`:
/// exactly when `jsonwebtoken::decode` with an HS256-only validation (expiry
/// checking off) accepts the token.
pub uninterp spec fn well_signed(token: Seq<char>, secret: Seq<char>) -> bool;

/// The claims triple that `jsonwebtoken`'s payload parse yields for `token`,
/// independent of any key: `Some((sub, email, exp))` exactly when the token
/// has a decodable header and a JSON-object payload whose `sub` and `exp`
/// fields parse as the integers `sub` and `exp` (JSON integer tokens, as
/// `serde_json` reads them) and whose `email` field is the string `email`;
/// `None` otherwise.
pub uninterp spec fn spec_claims_of(token: Seq<char>) -> Option<(int, Seq<char>, int)>;

/// Relies on jsonwebtoken::encode with the default (HS256) header: the
/// result is a token that decodes, under the same secret, back to exactly
/// the claims `{"sub": sub, "email": email, "exp": exp}`. Encoding always
/// succeeds: for HS256 the key family matches the header, serializing the
/// header and the claims object cannot fail, and HMAC signing cannot fail.
#[verifier::external_body]
fn encode_token(sub: i32, email: &String, exp: i64, secret: &String) -> (r: Option<String>)
    ensures
        r is Some,
        r matches Some(t) ==> well_signed(t@, secret@),
        r matches Some(t) ==> spec_claims_of(t@) == Some((sub as int, email@, exp as int)),
{
    let mut claims = serde_json::Map::new();
    claims.insert("sub".to_owned(), serde_json::Value::from(sub));
    claims.insert("email".to_owned(), serde_json::Value::from(email.as_str()));
    claims.insert("exp".to_owned(), serde_json::Value::from(exp));
    jsonwebtoken::encode(
        &jsonwebtoken::Header::default(),
        &serde_json::Value::Object(claims),
        &jsonwebtoken::EncodingKey::from_secret(secret.as_bytes()),
    )
    .ok()
}

/// Relies on jsonwebtoken::decode with the default HS256-only validation,
/// expiry checking switched off: it accepts exactly the well-signed tokens,
/// and hands back exactly the parsed claims when they fit the claim types.
#[verifier::external_body]
fn decode_signed(token: &String, secret: &String) -> (r: Option<(i32, String, i64)>)
    ensures
        r matches Some(c) ==> well_signed(token@, secret@) && spec_claims_of(token@) == Some(
            (c.0 as int, c.1@, c.2 as int),
        ),
        r is None ==> !(well_signed(token@, secret@) && (spec_claims_of(token@) matches Some(p)
            && i32::MIN <= p.0 <= i32::MAX && i64::MIN <= p.2 <= i64::MAX)),
{
    let mut validation = jsonwebtoken::Validation::default();
    validation.validate_exp = false;
    let data = jsonwebtoken::decode::<serde_json::Value>(
        token,
        &jsonwebtoken::DecodingKey::from_secret(secret.as_bytes()),
        &validation,
    ).ok()?;
    let sub = i32::try_from(data.claims.get("sub")?.as_i64()?).ok()?;
    let email = data.claims.get("email")?.as_str()?.to_owned();
    let exp = data.claims.get("exp")?.as_i64()?;
    Some((sub, email, exp))
}

/// Relies on jsonwebtoken::dangerous_insecure_decode: parses the payload
/// with no signature or expiry check at all, a function of the token alone.
#[verifier::external_body]
fn decode_payload(token: &String) -> (r: Option<(i32, String, i64)>)
    ensures
        r matches Some(c) ==> spec_claims_of(token@) == Some((c.0 as int, c.1@, c.2 as int)),
        r is None ==> !(spec_claims_of(token@) matches Some(p) && i32::MIN <= p.0 <= i32::MAX
            && i64::MIN <= p.2 <= i64::MAX),
{
    let data = jsonwebtoken::dangerous_insecure_decode::<serde_json::Value>(token).ok()?;
    let sub = i32::try_from(data.claims.get("sub")?.as_i64()?).ok()?;
    let email = data.claims.get("email")?.as_str()?.to_owned();
    let exp = data.claims.get("exp")?.as_i64()?;
    Some((sub, email, exp))
}

/// The token codec, holding the process-wide signing secret as an explicit
/// immutable value.
pub struct TokenCodec {
    secret: String,
}

impl TokenCodec {
    /// The signing secret the codec was built with.
    pub closed spec fn spec_secret(&self) -> Seq<char> {
        self.secret@
    }

    /// Builds a codec over the given signing secret.
    pub fn new(secret: String) -> (r: TokenCodec)
        ensures
            r.spec_secret() == secret@,
    {
        TokenCodec { secret }
    }

    /// Builds a codec from the startup configuration; an unconfigured
    /// (empty) signing secret is refused.
    pub fn from_config(config: &Config) -> (r: Result<TokenCodec, TalliiError>)
        ensures
            r matches Ok(c) ==> c.spec_secret() == config.jwt_secret@ && config.jwt_secret@.len()
                > 0,
            r is Err <==> config.jwt_secret@.len() == 0,
            r matches Err(e) ==> e is ConfigurationError,
    {
        if config.jwt_secret.as_str().is_empty() {
            Err(TalliiError::ConfigurationError)
        } else {
            Ok(TokenCodec { secret: config.jwt_secret.clone() })
        }
    }

    /// Issues a signed token for the given user id and email, expiring 15
    /// minutes after `now`. Issuing never fails: HS256 encoding always
    /// succeeds.
    pub fn issue(&self, user_id: i32, email: &String, now: i64) -> (r: Result<
        String,
        TalliiError,
    >)
        requires
            now <= i64::MAX - TOKEN_LIFETIME_SECONDS,
        ensures
            r is Ok,
            r matches Ok(t) ==> well_signed(t@, self.spec_secret()),
            r matches Ok(t) ==> spec_claims_of(t@) == Some(
                (user_id as int, email@, now + TOKEN_LIFETIME_SECONDS),
            ),
    {
        let exp = now + TOKEN_LIFETIME_SECONDS;
        match encode_token(user_id, email, exp, &self.secret) {
            Some(token) => Ok(token),
            None => vstd::pervasive::unreached(),
        }
    }

    /// Decodes and verifies a token: the signature must check out under the
    /// codec's secret and the expiry must not lie before `now`. Any failure
    /// (bad signature, malformed payload, expired) is `InvalidToken`.
    pub fn verify(&self, token: &String, now: i64) -> (r: Result<Claims, TalliiError>)
        ensures
            r matches Ok(c) ==> well_signed(token@, self.spec_secret()) && spec_claims_of(token@)
                == Some((c.sub as int, c.email@, c.exp as int)) && c.exp >= now,
            r matches Err(e) ==> e is InvalidToken,
            spec_claims_of(token@) matches Some(p) ==> ((well_signed(token@, self.spec_secret())
                && i32::MIN <= p.0 <= i32::MAX && now <= p.2 <= i64::MAX) ==> (r matches Ok(c)
                && c.sub as int == p.0 && c.email@ == p.1 && c.exp as int == p.2)),
            spec_claims_of(token@) matches Some(p) ==> ((well_signed(token@, self.spec_secret())
                && p.2 < now) ==> r is Err),
    {
        match decode_signed(token, &self.secret) {
            Some((sub, email, exp)) => {
                if exp < now {
                    Err(TalliiError::InvalidToken)
                } else {
                    Ok(Claims { sub, email, exp })
                }
            },
            None => Err(TalliiError::InvalidToken),
        }
    }

    /// Decodes a token's payload with no signature or expiry check. Only for
    /// the narrow "who is this, even if stale" introspection path: callers
    /// must never authorize mutation with the result.
    pub fn decode_unverified(&self, token: &String) -> (r: Result<Claims, TalliiError>)
        ensures
            r matches Ok(c) ==> spec_claims_of(token@) == Some(
                (c.sub as int, c.email@, c.exp as int),
            ),
            r matches Err(e) ==> e is InvalidToken,
            spec_claims_of(token@) matches Some(p) ==> ((i32::MIN <= p.0 <= i32::MAX && i64::MIN
                <= p.2 <= i64::MAX) ==> (r matches Ok(c) && c.sub as int == p.0 && c.email@ == p.1
                && c.exp as int == p.2)),
    {
        match decode_payload(token) {
            Some((sub, email, exp)) => Ok(Claims { sub, email, exp }),
            None => Err(TalliiError::InvalidToken),
        }
    }
}

} // verus!
