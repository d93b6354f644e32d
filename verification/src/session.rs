//! How a request is authenticated, and where the token-signing secret
//! comes from.
use vstd::prelude::*;
use crate::paths::subvec;
use crate::text::{chars_of, hex_encode, hex_lower, is_prefix, matches_at, str_eq, string_of};

verus! {

/// The prefix of an `Authorization` header that carries a bearer token.
pub const BEARER_PREFIX: &'static str = "Bearer ";

/// The token of an `Authorization` header value: what follows `Bearer `,
/// if the value begins with it.
pub open spec fn spec_bearer_token(header: Seq<char>) -> Option<Seq<char>> {
    if is_prefix(BEARER_PREFIX@, header) {
        Some(header.subrange(BEARER_PREFIX@.len() as int, header.len() as int))
    } else {
        None
    }
}

/// The bearer token of an `Authorization` header value.
pub fn bearer_token(header: &str) -> (r: Option<String>)
    ensures
        r matches Some(t) ==> spec_bearer_token(header@) == Some(t@),
        r is None ==> spec_bearer_token(header@) is None,
{
    let hv = chars_of(header);
    let pv = chars_of(BEARER_PREFIX);
    if matches_at(&hv, &pv, 0) {
        assert(is_prefix(BEARER_PREFIX@, header@));
        let rest = subvec(&hv, pv.len(), hv.len());
        Some(string_of(&rest))
    } else {
        None
    }
}

/// How a request is authenticated.
#[derive(Debug)]
pub enum AuthDecision {
    /// The legacy server token: the request runs as the service administrator.
    Legacy,
    /// A bearer token to validate as a JWT.
    Jwt(String),
    /// No usable `Authorization` header: the request is refused with 401.
    Missing,
}

/// Decides how a request is authenticated from its `Authorization` header
/// (`None` when absent or not text): a bearer token equal to a configured,
/// non-empty server token is the legacy token; any other bearer token is a
/// JWT; anything else is refused.
pub fn auth_decision(header: &Option<String>, server_token: &str) -> (r: AuthDecision)
    ensures
        match *header {
            Some(h) => match spec_bearer_token(h@) {
                Some(t) => if server_token@.len() > 0 && t == server_token@ {
                    r is Legacy
                } else {
                    r matches AuthDecision::Jwt(j) && j@ == t
                },
                None => r is Missing,
            },
            None => r is Missing,
        },
{
    match header {
        Some(h) => match bearer_token(h.as_str()) {
            Some(t) => {
                if server_token.unicode_len() > 0 && str_eq(t.as_str(), server_token) {
                    AuthDecision::Legacy
                } else {
                    AuthDecision::Jwt(t)
                }
            },
            None => AuthDecision::Missing,
        },
        None => AuthDecision::Missing,
    }
}

/// What checking a login's password gave.
#[derive(Debug)]
pub enum PasswordCheck {
    /// No user has the name.
    UnknownUser,
    /// The stored hash could not be checked.
    Failed,
    /// The password was checked against the hash: whether it matches.
    Checked(bool),
}

/// The refusal of a login, the same whatever went wrong.
pub open spec fn invalid_login_msg() -> Seq<char> {
    "Invalid username or password"@
}

/// A login goes on only when the password was checked and matches; every
/// other outcome gets the same refusal, so it does not tell which names
/// exist.
pub fn login_check(check: &PasswordCheck) -> (r: Result<(), String>)
    ensures
        r is Ok <==> (*check matches PasswordCheck::Checked(true)),
        r matches Err(e) ==> e@ == invalid_login_msg(),
{
    match check {
        PasswordCheck::Checked(true) => Ok(()),
        _ => Err(String::from_str("Invalid username or password")),
    }
}

/// Where the token-signing secret comes from.
#[derive(Debug)]
pub enum JwtSecretChoice {
    /// The secret set in the configuration.
    Configured(String),
    /// The secret persisted by an earlier start.
    Persisted(String),
    /// None is set or persisted: a new one is generated and persisted.
    Generate,
}

/// A configured secret wins; else a non-empty persisted one; else a new one
/// must be generated.
pub fn choose_jwt_secret(configured: &str, persisted: &Option<String>) -> (r: JwtSecretChoice)
    ensures
        configured@.len() > 0 ==> (r matches JwtSecretChoice::Configured(s) && s@ == configured@),
        configured@.len() == 0 && (persisted matches Some(p) && p@.len() > 0) ==> (r matches JwtSecretChoice::Persisted(
            s,
        ) && persisted == Some(s)),
        configured@.len() == 0 && !(persisted matches Some(p) && p@.len() > 0) ==> r is Generate,
{
    if configured.unicode_len() > 0 {
        return JwtSecretChoice::Configured(String::from_str(configured));
    }
    match persisted {
        Some(p) => if p.as_str().unicode_len() > 0 {
            JwtSecretChoice::Persisted(p.clone())
        } else {
            JwtSecretChoice::Generate
        },
        None => JwtSecretChoice::Generate,
    }
}

/// Thirty-two random bytes.
///
/// Wraps `rand::random::<[u8; 32]>`; the bytes are random, so only their
/// number is claimed.
#[verifier::external_body]
fn random_secret_bytes() -> (r: Vec<u8>)
    ensures
        r@.len() == 32,
{
    rand::random::<[u8; 32]>().to_vec()
}

/// A new secret: thirty-two random bytes as sixty-four lower-case
/// hexadecimal digits.
pub fn generate_jwt_secret() -> (r: String)
    ensures
        exists|bytes: Seq<u8>| bytes.len() == 32 && r@ == hex_lower(bytes),
        r@.len() == 64,
{
    let bytes = random_secret_bytes();
    proof {
        lemma_hex_length(bytes@);
    }
    hex_encode(&bytes)
}

/// Every secret that is generated has sixty-four characters.
pub proof fn lemma_hex_length(bytes: Seq<u8>)
    ensures
        hex_lower(bytes).len() == 2 * bytes.len(),
    decreases bytes.len(),
{
    if bytes.len() > 0 {
        lemma_hex_length(bytes.drop_last());
    }
}

} // verus!
