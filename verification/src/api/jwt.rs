//! Who the caller is: bearer tokens, and the errors of telling.

use crate::api::decimal::{decimal, decimal_of, parse_i32, parsed};
use vstd::prelude::*;
use vstd::slice::slice_to_vec;
use vstd::string::StringExecFns;

verus! {

/// The id of the user who makes a request.
#[derive(Debug, PartialEq, Eq, Structural, Clone, Copy)]
pub struct Uid(pub i32);

/// Why the caller's identity could not be established.
#[derive(Debug, PartialEq, Eq, Structural, Clone, Copy)]
pub enum AuthError {
    /// The login provider did not vouch for the caller.
    WrongCredentials,
    /// The caller sent no login code.
    MissingCredentials,
    /// No token could be signed.
    TokenCreation,
    /// The token is malformed, forged, expired, or names no user.
    InvalidToken,
}

impl AuthError {
    /// The HTTP status that the error is reported with.
    pub open spec fn status_of(self) -> u16 {
        match self {
            AuthError::WrongCredentials => 401,
            AuthError::MissingCredentials => 400,
            AuthError::TokenCreation => 500,
            AuthError::InvalidToken => 400,
        }
    }

    /// The text that the error is reported with.
    pub open spec fn message_of(self) -> Seq<char> {
        match self {
            AuthError::WrongCredentials => "Wrong credentials"@,
            AuthError::MissingCredentials => "Missing credentials"@,
            AuthError::TokenCreation => "Token creation error"@,
            AuthError::InvalidToken => "Invalid token"@,
        }
    }

    /// The HTTP status that the error is reported with.
    pub fn status(&self) -> (code: u16)
        ensures
            code == self.status_of(),
    {
        match self {
            AuthError::WrongCredentials => 401,
            AuthError::MissingCredentials => 400,
            AuthError::TokenCreation => 500,
            AuthError::InvalidToken => 400,
        }
    }

    /// The text under `error` in the response's body.
    pub fn message(&self) -> (text: String)
        ensures
            text@ == self.message_of(),
    {
        match self {
            AuthError::WrongCredentials => String::from_str("Wrong credentials"),
            AuthError::MissingCredentials => String::from_str("Missing credentials"),
            AuthError::TokenCreation => String::from_str("Token creation error"),
            AuthError::InvalidToken => String::from_str("Invalid token"),
        }
    }
}

/// How long a token is good for, in seconds: fifteen days.
pub const TOKEN_LIFETIME: u64 = 1296000;

/// The secret that tokens are signed with and checked against. It is read
/// once, when the service starts, and handed to whoever signs or checks.
#[derive(Debug, PartialEq, Eq)]
pub struct Keys {
    secret: Vec<u8>,
}

impl View for Keys {
    type V = Seq<u8>;

    closed spec fn view(&self) -> Seq<u8> {
        self.secret@
    }
}

impl Keys {
    /// The keys for a secret.
    pub fn new(secret: &[u8]) -> (keys: Keys)
        ensures
            keys@ == secret@,
    {
        Keys { secret: slice_to_vec(secret) }
    }

    /// The secret.
    pub fn secret(&self) -> (secret: &[u8])
        ensures
            secret@ == self@,
    {
        self.secret.as_slice()
    }
}

/// What a token says: who its bearer is, and until when.
#[derive(Debug, PartialEq, Eq)]
pub struct Claims {
    /// The user's id, in decimal.
    pub sub: String,
    /// The second, counted from the Unix epoch, at which the token expires.
    pub exp: usize,
}

/// When a token issued at `now` expires: fifteen days later, or at the last
/// second that the machine can count to if that comes sooner.
pub open spec fn expiry_after(now: u64) -> int {
    if now + TOKEN_LIFETIME <= usize::MAX {
        now + TOKEN_LIFETIME
    } else {
        usize::MAX as int
    }
}

impl Claims {
    /// The claims of a token issued to `sub` at the second `now`.
    pub fn issued_at(sub: String, now: u64) -> (claims: Claims)
        ensures
            claims.sub == sub,
            claims.exp == expiry_after(now),
    {
        let exp: usize = match now.checked_add(TOKEN_LIFETIME) {
            Some(end) => if end <= usize::MAX as u64 {
                end as usize
            } else {
                usize::MAX
            },
            None => usize::MAX,
        };
        Claims { sub, exp }
    }

    /// Signs the claims with the keys: the token that says them, or
    /// `TokenCreation` where none could be signed.
    pub fn sign(&self, keys: &Keys) -> (end: Result<String, AuthError>)
        ensures
            token_view(end) == minted(signed_token(self.sub@, self.exp as int, keys@)),
    {
        access_token(sign_claims(self, keys.secret()))
    }

    /// The claims of a token issued to `sub` now: it expires fifteen days
    /// from the second at which this is called.
    pub fn new(sub: String) -> (claims: Claims)
        ensures
            claims.sub == sub,
            exists|now: u64| claims.exp == expiry_after(now),
    {
        let now = current_timestamp();
        let claims = Claims::issued_at(sub, now);
        assert(claims.exp == expiry_after(now));
        claims
    }
}

/// The seconds since the Unix epoch, by the machine's clock: the value of
/// `jsonwebtoken::get_current_timestamp`. Nothing is claimed of it; it is
/// another number at every call. That function panics on a machine whose
/// clock stands before 1970.
#[verifier::external_body]
fn current_timestamp() -> (now: u64) {
    jsonwebtoken::get_current_timestamp()
}

/// Why `jsonwebtoken` refused to sign or to accept a token.
#[verifier::external_type_specification]
#[verifier::external_body]
pub struct ExTokenError(jsonwebtoken::errors::Error);

/// What the claims of an accepted token hold under the two names that this
/// service reads: `sub` if it is a string, `exp` if it is a whole number
/// that is not negative.
#[derive(Debug, PartialEq, Eq)]
pub struct ClaimSet {
    pub sub: Option<String>,
    pub exp: Option<u64>,
}

/// Checks a token with `jsonwebtoken::decode` against the secret, for the
/// HS256 signature and the default validation, which refuses a token that
/// has expired, and gives what its claims hold. Nothing is claimed of the
/// result: whether a token is accepted depends on the time of the call.
/// Like [`current_timestamp`], the check reads the machine's clock and
/// panics where that stands before 1970.
#[verifier::external_body]
fn decode_claims(token: &str, secret: &[u8]) -> (decoded: Result<
    ClaimSet,
    jsonwebtoken::errors::Error,
>) {
    let key = jsonwebtoken::DecodingKey::from_secret(secret);
    let validation = jsonwebtoken::Validation::default();
    let data = jsonwebtoken::decode::<serde_json::Value>(token, &key, &validation)?;
    Ok(
        ClaimSet {
            sub: data.claims.get("sub").and_then(serde_json::Value::as_str).map(str::to_owned),
            exp: data.claims.get("exp").and_then(serde_json::Value::as_u64),
        },
    )
}

/// The token that `jsonwebtoken::encode` makes of the claims `sub` and
/// `exp` with the default header and the HS256 key for `secret`, or `None`
/// where it makes none.
pub uninterp spec fn signed_token(sub: Seq<char>, exp: int, secret: Seq<u8>) -> Option<Seq<char>>;

/// Signs the claims with `jsonwebtoken::encode`, under the default header
/// and the HS256 key for the secret. The contract gives the result its
/// name, [`signed_token`], and claims nothing else of it.
#[verifier::external_body]
fn sign_claims(claims: &Claims, secret: &[u8]) -> (signed: Result<
    String,
    jsonwebtoken::errors::Error,
>)
    ensures
        match signed {
            Ok(token) => signed_token(claims.sub@, claims.exp as int, secret@) == Some(token@),
            Err(_) => signed_token(claims.sub@, claims.exp as int, secret@) is None,
        },
{
    let mut body = serde_json::Map::new();
    body.insert("sub".to_owned(), serde_json::Value::from(claims.sub.as_str()));
    body.insert("exp".to_owned(), serde_json::Value::from(claims.exp));
    let key = jsonwebtoken::EncodingKey::from_secret(secret);
    jsonwebtoken::encode(&jsonwebtoken::Header::default(), &body, &key)
}

/// Who the bearer of a checked token is: the user whose id the subject
/// denotes. A token that was not accepted, that lacks a subject or an
/// expiry, or whose subject denotes no id, names nobody.
pub open spec fn resolved(decoded: Result<ClaimSet, jsonwebtoken::errors::Error>) -> Result<
    Uid,
    AuthError,
> {
    match decoded {
        Ok(ClaimSet { sub: Some(sub), exp: Some(exp) }) => match parsed(sub@) {
            Some(id) => if exp <= usize::MAX {
                Ok(Uid(id))
            } else {
                Err(AuthError::InvalidToken)
            },
            None => Err(AuthError::InvalidToken),
        },
        _ => Err(AuthError::InvalidToken),
    }
}

/// The access token that comes of signing: the token signed, or
/// `TokenCreation` where signing failed.
pub open spec fn minted(signed: Option<Seq<char>>) -> Result<Seq<char>, AuthError> {
    match signed {
        Some(token) => Ok(token),
        None => Err(AuthError::TokenCreation),
    }
}

/// The view of a minted token.
pub open spec fn token_view(end: Result<String, AuthError>) -> Result<Seq<char>, AuthError> {
    match end {
        Ok(token) => Ok(token@),
        Err(error) => Err(error),
    }
}

impl Uid {
    /// Who the bearer is, given what checking the token gave.
    pub fn from_decoded(decoded: Result<ClaimSet, jsonwebtoken::errors::Error>) -> (end: Result<
        Uid,
        AuthError,
    >)
        ensures
            end == resolved(decoded),
    {
        match decoded {
            Ok(ClaimSet { sub: Some(sub), exp: Some(exp) }) => match parse_i32(sub.as_str()) {
                Some(id) => if exp <= usize::MAX as u64 {
                    Ok(Uid(id))
                } else {
                    Err(AuthError::InvalidToken)
                },
                None => Err(AuthError::InvalidToken),
            },
            _ => Err(AuthError::InvalidToken),
        }
    }

    /// Who the bearer of `token` is. The token is checked against the keys
    /// for its signature and its expiry, and its subject is read as the
    /// user's id. Every failure is the same `InvalidToken`.
    pub fn from_bearer(token: &str, keys: &Keys) -> (end: Result<Uid, AuthError>)
        ensures
            exists|decoded: Result<ClaimSet, jsonwebtoken::errors::Error>| end == resolved(decoded),
            end is Err ==> end == Err::<Uid, _>(AuthError::InvalidToken),
    {
        let decoded = decode_claims(token, keys.secret());
        let end = Uid::from_decoded(decoded);
        assert(end == resolved(decoded));
        end
    }
}

/// The access token, given what signing gave: every failure to sign is
/// `TokenCreation`.
pub fn access_token(signed: Result<String, jsonwebtoken::errors::Error>) -> (end: Result<
    String,
    AuthError,
>)
    ensures
        match signed {
            Ok(token) => end == Ok::<_, AuthError>(token),
            Err(_) => end == Err::<String, _>(AuthError::TokenCreation),
        },
{
    match signed {
        Ok(token) => Ok(token),
        Err(_) => Err(AuthError::TokenCreation),
    }
}

/// Mints the token of the user `user_id` at the second `now`: its subject
/// is the id in decimal, it expires fifteen days after `now`, and it is
/// signed with the keys.
pub fn issue(user_id: i32, now: u64, keys: &Keys) -> (end: Result<String, AuthError>)
    ensures
        token_view(end) == minted(
            signed_token(decimal_of(user_id as int), expiry_after(now), keys@),
        ),
{
    Claims::issued_at(decimal(user_id), now).sign(keys)
}

/// Mints the token of the user `user_id` now.
pub fn issue_now(user_id: i32, keys: &Keys) -> (end: Result<String, AuthError>)
    ensures
        exists|now: u64|
            token_view(end) == minted(
                signed_token(decimal_of(user_id as int), expiry_after(now), keys@),
            ),
{
    let now = current_timestamp();
    let end = issue(user_id, now, keys);
    assert(token_view(end) == minted(
        signed_token(decimal_of(user_id as int), expiry_after(now), keys@),
    ));
    end
}

} // verus!
