//! The service-account token exchange: claims, the signed assertion, the
//! request that carries it, and the answer's access token.

use vstd::prelude::*;
use vstd::string::*;

verus! {

/// Seconds that a minted assertion stays valid.
pub const TOKEN_LIFETIME: u64 = 3600;

/// What the key file of a service account holds.
#[derive(Debug, Clone, PartialEq, Eq)]
pub struct ServiceAccountCredential {
    pub private_key_pem: String,
    pub client_email: String,
    pub token_endpoint_url: String,
}

/// The claims of one assertion. Times are seconds since the epoch.
#[derive(Debug, Clone, PartialEq, Eq)]
pub struct TokenClaims {
    pub issuer: String,
    pub scope: String,
    pub audience: String,
    pub issued_at: u64,
    pub expires_at: u64,
}

impl TokenClaims {
    /// The claims expire one lifetime after they were issued.
    pub open spec fn is_valid(&self) -> bool {
        self.expires_at == self.issued_at + TOKEN_LIFETIME
    }
}

/// The form that is posted to the token endpoint.
#[derive(Debug, Clone, PartialEq, Eq)]
pub struct TokenRequest {
    pub url: String,
    pub grant_type: String,
    pub assertion: String,
}

/// Why no bearer token came out of the exchange.
#[derive(Debug, Clone, Copy, PartialEq, Eq)]
pub enum TokenError {
    /// The expiry time does not fit in 64 bits.
    ClockOutOfRange,
    /// The private key is no usable RSA key, or signing failed.
    Signing,
    /// The endpoint's answer is not JSON.
    MalformedResponse,
    /// The answer holds no string under `access_token`.
    MissingAccessToken,
}

/// The error of `jsonwebtoken`, carried through unread.
#[verifier::external_type_specification]
#[verifier::external_body]
pub struct ExJwtError(jsonwebtoken::errors::Error);

/// The error of `serde_json`, carried through unread.
#[verifier::external_type_specification]
#[verifier::external_body]
pub struct ExJsonError(serde_json::Error);

/// The compact RS256 token over the five claims `iss`, `scope`, `aud`, `exp`
/// and `iat`, in that order, signed with the RSA key in `pem`; `None` where
/// the key is rejected or signing fails.
pub uninterp spec fn signed_rs256(
    pem: Seq<char>,
    issuer: Seq<char>,
    scope: Seq<char>,
    audience: Seq<char>,
    expires_at: u64,
    issued_at: u64,
) -> Option<Seq<char>>;

/// The string found under `key` in the JSON document `body`: `None` where
/// `body` is no JSON document, `Some(None)` where it is one without a
/// string under `key`.
pub uninterp spec fn json_text_member(body: Seq<u8>, key: Seq<char>) -> Option<Option<Seq<char>>>;

/// The scope that allows reading spreadsheets.
pub fn readonly_scope() -> (s: &'static str)
    ensures
        s@ == "https://www.googleapis.com/auth/spreadsheets.readonly"@,
{
    "https://www.googleapis.com/auth/spreadsheets.readonly"
}

/// The grant type of an exchange that presents a signed assertion.
pub fn jwt_bearer_grant() -> (s: &'static str)
    ensures
        s@ == "urn:ietf:params:oauth:grant-type:jwt-bearer"@,
{
    "urn:ietf:params:oauth:grant-type:jwt-bearer"
}

/// The claims for `cred` at time `now`: issued by the account's e-mail
/// address for the token endpoint, valid from `now` for one hour.
pub fn build_claims(cred: &ServiceAccountCredential, scope: &str, now: u64) -> (out: Result<
    TokenClaims,
    TokenError,
>)
    ensures
        out.is_ok() == (now + TOKEN_LIFETIME <= u64::MAX),
        out matches Ok(c) ==> {
            &&& c.issuer@ == cred.client_email@
            &&& c.scope@ == scope@
            &&& c.audience@ == cred.token_endpoint_url@
            &&& c.issued_at == now
            &&& c.expires_at - c.issued_at == TOKEN_LIFETIME
            &&& c.is_valid()
        },
        out matches Err(e) ==> e == TokenError::ClockOutOfRange,
{
    if now > u64::MAX - TOKEN_LIFETIME {
        return Err(TokenError::ClockOutOfRange);
    }
    Ok(
        TokenClaims {
            issuer: String::from_str(cred.client_email.as_str()),
            scope: String::from_str(scope),
            audience: String::from_str(cred.token_endpoint_url.as_str()),
            issued_at: now,
            expires_at: now + TOKEN_LIFETIME,
        },
    )
}

/// Calls `jsonwebtoken::EncodingKey::from_rsa_pem` on the bytes of `pem` and
/// `jsonwebtoken::encode` with an RS256 header on the claims, written as a
/// JSON object with the members `iss`, `scope`, `aud`, `exp`, `iat`.
/// Claimed and not proved: the token is a function of the key and the claims
/// alone (PKCS#1 v1.5 signing uses no randomness), and so is a failure.
#[verifier::external_body]
fn sign_claims(pem: &str, claims: &TokenClaims) -> (out: Result<String, jsonwebtoken::errors::Error>)
    ensures
        match out {
            Ok(t) => signed_rs256(
                pem@,
                claims.issuer@,
                claims.scope@,
                claims.audience@,
                claims.expires_at,
                claims.issued_at,
            ) == Some(t@),
            Err(_) => signed_rs256(
                pem@,
                claims.issuer@,
                claims.scope@,
                claims.audience@,
                claims.expires_at,
                claims.issued_at,
            ).is_none(),
        },
{
    let key = jsonwebtoken::EncodingKey::from_rsa_pem(pem.as_bytes())?;
    let mut body = serde_json::Map::new();
    body.insert("iss".to_string(), claims.issuer.as_str().into());
    body.insert("scope".to_string(), claims.scope.as_str().into());
    body.insert("aud".to_string(), claims.audience.as_str().into());
    body.insert("exp".to_string(), claims.expires_at.into());
    body.insert("iat".to_string(), claims.issued_at.into());
    jsonwebtoken::encode(&jsonwebtoken::Header::new(jsonwebtoken::Algorithm::RS256), &body, &key)
}

/// Calls `serde_json::from_slice` for a `serde_json::Value`, indexes the
/// value with `key` and calls `Value::as_str` on what is found. Claimed and
/// not proved: the outcome is a function of `body` and `key` alone.
#[verifier::external_body]
fn read_text_member(body: &[u8], key: &str) -> (out: Result<Option<String>, serde_json::Error>)
    ensures
        match out {
            Ok(Some(t)) => json_text_member(body@, key@) == Some(Some(t@)),
            Ok(None) => json_text_member(body@, key@) == Some(None::<Seq<char>>),
            Err(_) => json_text_member(body@, key@).is_none(),
        },
{
    let doc: serde_json::Value = serde_json::from_slice(body)?;
    Ok(doc[key].as_str().map(String::from))
}

/// What `mint_assertion` returns for `cred`, `scope` and `now`.
pub open spec fn minted(cred: ServiceAccountCredential, scope: Seq<char>, now: u64) -> Result<
    Seq<char>,
    TokenError,
> {
    if now + TOKEN_LIFETIME > u64::MAX {
        Err(TokenError::ClockOutOfRange)
    } else {
        match signed_rs256(
            cred.private_key_pem@,
            cred.client_email@,
            scope,
            cred.token_endpoint_url@,
            (now + TOKEN_LIFETIME) as u64,
            now,
        ) {
            Some(t) => Ok(t),
            None => Err(TokenError::Signing),
        }
    }
}

/// The view of what a minting returned.
pub open spec fn outcome_view(out: Result<String, TokenError>) -> Result<Seq<char>, TokenError> {
    match out {
        Ok(t) => Ok(t@),
        Err(e) => Err(e),
    }
}

/// Builds the claims for `now` and signs them with the account's key.
pub fn mint_assertion(cred: &ServiceAccountCredential, scope: &str, now: u64) -> (out: Result<
    String,
    TokenError,
>)
    ensures
        outcome_view(out) == minted(*cred, scope@, now),
{
    let claims = match build_claims(cred, scope, now) {
        Ok(c) => c,
        Err(e) => {
            return Err(e);
        },
    };
    match sign_claims(cred.private_key_pem.as_str(), &claims) {
        Ok(t) => Ok(t),
        Err(_) => Err(TokenError::Signing),
    }
}

/// The request that exchanges `assertion` for a bearer token: it goes to
/// the account's token endpoint and carries the grant type and the
/// assertion unchanged.
pub fn token_request(cred: &ServiceAccountCredential, assertion: String) -> (req: TokenRequest)
    ensures
        req.url@ == cred.token_endpoint_url@,
        req.grant_type@ == "urn:ietf:params:oauth:grant-type:jwt-bearer"@,
        req.assertion == assertion,
{
    TokenRequest {
        url: String::from_str(cred.token_endpoint_url.as_str()),
        grant_type: String::from_str(jwt_bearer_grant()),
        assertion,
    }
}

/// The bearer token, given what stands under `access_token` in the answer.
pub fn token_from_member(member: Option<String>) -> (out: Result<String, TokenError>)
    ensures
        match member {
            Some(t) => out == Ok::<String, TokenError>(t),
            None => out == Err::<String, TokenError>(TokenError::MissingAccessToken),
        },
{
    match member {
        Some(t) => Ok(t),
        None => Err(TokenError::MissingAccessToken),
    }
}

/// What `bearer_token` returns for the answer `body`.
pub open spec fn bearer_of(body: Seq<u8>) -> Result<Seq<char>, TokenError> {
    match json_text_member(body, "access_token"@) {
        None => Err(TokenError::MalformedResponse),
        Some(None) => Err(TokenError::MissingAccessToken),
        Some(Some(t)) => Ok(t),
    }
}

/// Reads the bearer token out of the token endpoint's answer.
pub fn bearer_token(body: &[u8]) -> (out: Result<String, TokenError>)
    ensures
        outcome_view(out) == bearer_of(body@),
{
    match read_text_member(body, "access_token") {
        Ok(member) => token_from_member(member),
        Err(_) => Err(TokenError::MalformedResponse),
    }
}

} // verus!
