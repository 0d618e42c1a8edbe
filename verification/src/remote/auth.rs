//! Administrator authentication: the SHA-256 text of the administrator
//! password is kept only as an Argon2 hash; a login that presents it receives a
//! signed token, and protected requests carry that token as a bearer token.
use vstd::prelude::*;
use crate::text::{chars_of, has_prefix, string_from_chars};
use argon2::{PasswordHasher, PasswordVerifier};

verus! {

/// `argon2::PasswordHash::new` accepts `hash` as a PHC hash string.
pub uninterp spec fn phc_parses(hash: Seq<char>) -> bool;

/// `Argon2::default().verify_password` accepts the UTF-8 bytes of `password`
/// against the parsed PHC hash string `hash`.
pub uninterp spec fn argon2_accepts(hash: Seq<char>, password: Seq<char>) -> bool;

/// The HS256 JSON Web Token that `jsonwebtoken::encode` makes, with the default
/// header, for the claims `{"exp": exp}` signed with the UTF-8 bytes of
/// `secret`, or `None` where it reports an error.
pub uninterp spec fn jwt_hs256_token(exp: nat, secret: Seq<char>) -> Option<Seq<char>>;

/// `jsonwebtoken::decode` with the default validation finds `token` to be a
/// well-formed JSON Web Token whose header names HS256, whose claims are a
/// JSON object, and whose signature verifies with HMAC-SHA256 keyed by the
/// UTF-8 bytes of `secret`: everything that it checks but the expiry.
pub uninterp spec fn hs256_verifies(token: Seq<char>, secret: Seq<char>) -> bool;

/// The claims carried by a token: its expiry, in seconds since the Unix epoch.
#[derive(Debug)]
pub struct Claims {
    pub exp: usize,
}

/// A login request: the SHA-256 text of the administrator password.
#[derive(Debug)]
pub struct LoginRequest {
    pub password: String,
}

/// The answer to an accepted login.
#[derive(Debug)]
pub struct LoginResponse {
    pub token: String,
}

/// What checking a password against a stored hash found.
#[derive(Debug)]
pub enum PasswordCheck {
    /// The stored hash is not a PHC hash string.
    MalformedHash,
    /// The password matches.
    Accepted,
    /// The password does not match.
    Rejected,
}

/// The outcome of checking `password` against the stored `hash`.
pub open spec fn password_check_spec(hash: Seq<char>, password: Seq<char>) -> PasswordCheck {
    if !phc_parses(hash) {
        PasswordCheck::MalformedHash
    } else if argon2_accepts(hash, password) {
        PasswordCheck::Accepted
    } else {
        PasswordCheck::Rejected
    }
}

/// `PasswordHash::new(hash)` then `Argon2::default().verify_password(..)`:
/// whether `password` matches the stored PHC hash string `hash`.
#[verifier::external_body]
pub(crate) fn check_password(hash: &str, password: &str) -> (r: PasswordCheck)
    ensures
        r == password_check_spec(hash@, password@),
{
    match argon2::PasswordHash::new(hash) {
        Err(_) => PasswordCheck::MalformedHash,
        Ok(parsed) => match argon2::Argon2::default().verify_password(password.as_bytes(), &parsed) {
            Ok(()) => PasswordCheck::Accepted,
            Err(_) => PasswordCheck::Rejected,
        },
    }
}

/// `Argon2::default().hash_password(secret, &SaltString::generate(&mut OsRng))`
/// rendered as a PHC string. The salt is random, so the string itself is left
/// open; stated is what holds of every outcome: the string parses, and
/// verification of the same secret against it succeeds.
#[verifier::external_body]
pub(crate) fn hash_secret(secret: &str) -> (r: String)
    requires
        secret@.len() < 0x1000_0000,
    ensures
        phc_parses(r@),
        argon2_accepts(r@, secret@),
{
    let salt = argon2::password_hash::SaltString::generate(
        &mut argon2::password_hash::rand_core::OsRng,
    );
    argon2::Argon2::default().hash_password(secret.as_bytes(), &salt).expect(
        "Failed to hash password",
    ).to_string()
}

/// `jsonwebtoken::encode` with the default (HS256) header of the claims
/// `{"exp": exp}`, keyed by the UTF-8 bytes of `secret`.
#[verifier::external_body]
pub(crate) fn encode_token(exp: usize, secret: &str) -> (r: Option<String>)
    ensures
        crate::remote::config::opt_view(r) == jwt_hs256_token(exp as nat, secret@),
{
    let mut claims = std::collections::BTreeMap::new();
    claims.insert("exp", exp);
    jsonwebtoken::encode(
        &jsonwebtoken::Header::default(),
        &claims,
        &jsonwebtoken::EncodingKey::from_secret(secret.as_bytes()),
    ).ok()
}

/// `jsonwebtoken::decode` of `token` with the default validation (HS256 and an
/// unexpired `exp`, judged against the current time) keyed by the UTF-8 bytes
/// of `secret`. Whether the token has expired depends on the clock and is left
/// open; stated is what acceptance needs whatever the time: the token's
/// structure and HS256 signature verify under `secret`.
#[verifier::external_body]
pub(crate) fn token_valid_now(token: &str, secret: &str) -> (r: bool)
    ensures
        r ==> hs256_verifies(token@, secret@),
{
    jsonwebtoken::decode::<std::collections::BTreeMap<String, serde_json::Value>>(
        token,
        &jsonwebtoken::DecodingKey::from_secret(secret.as_bytes()),
        &jsonwebtoken::Validation::default(),
    ).is_ok()
}

/// The token of an `Authorization` header of the form `Bearer <token>`.
pub open spec fn bearer_token_spec(header: Seq<char>) -> Option<Seq<char>> {
    if has_prefix(header, "Bearer "@) {
        Some(header.subrange(7, header.len() as int))
    } else {
        None
    }
}

/// The token of an `Authorization` header of the form `Bearer <token>`.
pub fn bearer_token(header: &str) -> (r: Option<String>)
    ensures
        crate::remote::config::opt_view(r) == bearer_token_spec(header@),
{
    let prefix = "Bearer ";
    proof {
        reveal_strlit("Bearer ");
    }
    if crate::text::starts_with(header, prefix) {
        let v = chars_of(header);
        Some(string_from_chars(&v.as_slice()[7..v.len()]))
    } else {
        None
    }
}

/// Whether a protected request may proceed: it must carry an `Authorization`
/// header of the form `Bearer <token>` whose token decodes, with `secret`, as
/// a valid unexpired token. A request without such a header, or whose token's
/// structure or signature does not verify under `secret`, is refused; whether
/// an accepted token has expired depends on the clock and is left open.
pub fn authorize(header: Option<&str>, secret: &str) -> (r: bool)
    ensures
        r ==> (header matches Some(h) && bearer_token_spec(h@) matches Some(t) && hs256_verifies(
            t,
            secret@,
        )),
{
    let token_ok = match header {
        None => false,
        Some(h) => match bearer_token(h) {
            None => false,
            Some(token) => token_valid_now(token.as_str(), secret),
        },
    };
    pass_request(header, token_ok)
}

/// The decision on a protected request, given the verdict `token_ok` of the
/// token check: it proceeds exactly when it carries an `Authorization` header
/// of the form `Bearer <token>` and the token was accepted.
pub fn pass_request(header: Option<&str>, token_ok: bool) -> (r: bool)
    ensures
        r == (header matches Some(h) && bearer_token_spec(h@) is Some && token_ok),
{
    match header {
        None => false,
        Some(h) => bearer_token(h).is_some() && token_ok,
    }
}

/// The HTTP status with which a login is refused, if it is refused before a
/// token is made: 500 for a stored hash that does not parse, 401 for a
/// password that does not match.
pub open spec fn login_refusal(hash: Seq<char>, password: Seq<char>) -> Option<u16> {
    match password_check_spec(hash, password) {
        PasswordCheck::MalformedHash => Some(500),
        PasswordCheck::Rejected => Some(401),
        PasswordCheck::Accepted => None,
    }
}

/// Checks the password of a login request against the stored hash.
pub fn check_login(stored_hash: &str, req: &LoginRequest) -> (r: Result<(), u16>)
    ensures
        match login_refusal(stored_hash@, req.password@) {
            Some(status) => r == Err::<(), u16>(status),
            None => r is Ok,
        },
{
    match check_password(stored_hash, req.password.as_str()) {
        PasswordCheck::MalformedHash => Err(500),
        PasswordCheck::Rejected => Err(401),
        PasswordCheck::Accepted => Ok(()),
    }
}

/// The largest and smallest Unix timestamps (in seconds) that `chrono` can hold.
pub open spec fn max_timestamp() -> int {
    8_210_266_876_799
}

pub open spec fn min_timestamp() -> int {
    -8_334_601_315_200
}

/// `hours as i64`: the two's-complement reading of a `u64`.
pub open spec fn signed_hours(hours: u64) -> int {
    if hours <= i64::MAX {
        hours as int
    } else {
        hours - 0x1_0000_0000_0000_0000
    }
}

/// The expiry of a token issued at `now` (seconds since the epoch) that lives
/// `hours` hours: `now + hours * 3600`, with `hours` read as `i64`.
pub open spec fn expiry_spec(now: i64, hours: u64) -> int {
    now + signed_hours(hours) * 3600
}

/// `chrono` can add `hours` hours to the instant `now`: the span fits a
/// `TimeDelta` and the result lies within the dates it can represent.
pub open spec fn expiry_in_range(now: i64, hours: u64) -> bool {
    &&& -9_223_372_036_854_775 <= signed_hours(hours) * 3600 <= 9_223_372_036_854_775
    &&& min_timestamp() <= expiry_spec(now, hours) <= max_timestamp()
}

/// Whether a token issued at `now` with a life of `hours` hours can be given
/// an expiry; where it cannot, no token can be issued.
pub fn expiry_representable(now: i64, hours: u64) -> (r: bool)
    ensures
        r == expiry_in_range(now, hours),
{
    let h: i128 = if hours <= 0x7fff_ffff_ffff_ffff {
        hours as i128
    } else {
        hours as i128 - 0x1_0000_0000_0000_0000
    };
    let span: i128 = h * 3600;
    let exp: i128 = now as i128 + span;
    -9_223_372_036_854_775 <= span && span <= 9_223_372_036_854_775 && -8_334_601_315_200 <= exp
        && exp <= 8_210_266_876_799
}

/// The expiry of a token issued at `now` that lives `hours` hours.
pub fn token_expiry(now: i64, hours: u64) -> (r: i64)
    requires
        expiry_in_range(now, hours),
    ensures
        r == expiry_spec(now, hours),
{
    let h: i128 = if hours <= 0x7fff_ffff_ffff_ffff {
        hours as i128
    } else {
        hours as i128 - 0x1_0000_0000_0000_0000
    };
    (now as i128 + h * 3600) as i64
}

/// Issues the token of an accepted login made at `now`: its claims carry the
/// expiry `now + hours` (as `usize`), and it is signed with `secret`; a token
/// that cannot be made is answered with 500.
pub fn issue_token(now: i64, hours: u64, secret: &str) -> (r: Result<LoginResponse, u16>)
    requires
        expiry_in_range(now, hours),
    ensures
        match jwt_hs256_token((expiry_spec(now, hours) as i64 as usize) as nat, secret@) {
            Some(t) => r matches Ok(resp) && resp.token@ == t,
            None => r == Err::<LoginResponse, u16>(500),
        },
{
    let exp = token_expiry(now, hours);
    let claims = Claims { exp: exp as usize };
    match encode_token(claims.exp, secret) {
        Some(token) => Ok(LoginResponse { token }),
        None => Err(500),
    }
}

} // verus!
