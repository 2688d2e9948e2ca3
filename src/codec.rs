//! Signing claims into compact tokens and reading them back.
use vstd::prelude::*;
use crate::claims::{Claims, ClaimsModel, claims_text, read_claims, lemma_read_claims};

verus! {

/// Signing algorithms a token may name.
#[derive(Clone, Copy, Debug, PartialEq, Eq, Structural)]
pub enum Algorithm {
    /// HMAC with SHA-256 over a shared secret.
    HS256,
    /// RSA with SHA-256; it needs a key pair, so a shared secret cannot sign with it.
    RS256,
}

/// Every way a token operation fails.
#[derive(Clone, Copy, Debug, PartialEq, Eq, Structural)]
pub enum AuthError {
    /// The secret is empty, or the algorithm cannot sign with a secret; also, when issuing,
    /// a random source that keeps repeating one session identifier.
    SigningError,
    /// The signature does not match: the token was forged or signed with another secret.
    SignatureInvalid,
    /// The signature is good but the token's lifetime has elapsed.
    Expired,
    /// The text is not a token, or its payload is not a claims object.
    Malformed,
    /// No bearer token was supplied.
    MissingToken,
    /// A valid token lacks the session identifier that an access token carries.
    MalformedClaims,
}

/// How opening a token failed, as jsonwebtoken reports it.
#[derive(Clone, Copy, Debug, PartialEq, Eq, Structural)]
pub enum OpenFault {
    /// The signature does not verify under the secret.
    BadSignature,
    /// Anything else: not three segments, bad base64, a header or payload that is not JSON.
    Unreadable,
}

/// The compact HS256 token that jsonwebtoken writes for a payload text and a secret.
pub uninterp spec fn hs256_token(payload: Seq<char>, secret: Seq<char>) -> Seq<char>;

/// What jsonwebtoken makes of a token under a secret: the payload text where the signature
/// verifies, else the fault it reports.
pub uninterp spec fn hs256_open(token: Seq<char>, secret: Seq<char>) -> Result<Seq<char>, OpenFault>;

/// Relies on `jsonwebtoken::encode` with `Header::new(Algorithm::HS256)`, given the payload
/// as serde_json's `RawValue` (written out as it is): the token is a function of the
/// payload text and the secret. It fails only on a payload that is not JSON (the HMAC key
/// fits the HS256 header and HMAC signing cannot fail), and a claims text is JSON.
#[verifier::external_body]
fn sign_hs256(payload: &str, secret: &str) -> (r: Option<String>)
    ensures
        r matches Some(t) ==> t@ == hs256_token(payload@, secret@),
        (exists|c: ClaimsModel| #[trigger] claims_text(c) == payload@) ==> r is Some,
{
    let raw = serde_json::value::RawValue::from_string(payload.to_string()).ok()?;
    let key = jsonwebtoken::EncodingKey::from_secret(secret.as_bytes());
    let header = jsonwebtoken::Header::new(jsonwebtoken::Algorithm::HS256);
    jsonwebtoken::encode(&header, &raw, &key).ok()
}

/// Whether `s` holds at least two `.` characters, as a compact token's three segments need.
pub open spec fn two_dots(s: Seq<char>) -> bool {
    exists|i: int, j: int| 0 <= i < j < s.len() && s[i] == '.' && s[j] == '.'
}

/// Whether no character of `s` is a `.`.
pub open spec fn no_dot(s: Seq<char>) -> bool {
    forall|i: int| 0 <= i < s.len() ==> s[i] != '.'
}

/// Whether `t` is the token `t0` with its signature, the text after its last dot, replaced
/// by another text without dots.
pub open spec fn resigned(t0: Seq<char>, t: Seq<char>) -> bool {
    exists|k: int|
        0 <= k < t0.len() && k < t.len() && t0[k] == '.' && t.take(k + 1) == t0.take(k + 1) && no_dot(
            #[trigger] t0.skip(k + 1),
        ) && no_dot(t.skip(k + 1)) && t.skip(k + 1) != t0.skip(k + 1)
}

/// An opened token as values.
pub open spec fn opened_view(r: Result<String, OpenFault>) -> Result<Seq<char>, OpenFault> {
    match r {
        Ok(p) => Ok(p@),
        Err(f) => Err(f),
    }
}

/// A token written for the text of `c` opens to that text.
pub open spec fn opens_to(r: Result<String, OpenFault>, token: Seq<char>, secret: Seq<char>, c: ClaimsModel) -> bool {
    hs256_token(claims_text(c), secret) == token ==> opened_view(r) == Ok::<Seq<char>, OpenFault>(claims_text(c))
}

/// A token written for the text of `c`, with its signature replaced, does not verify.
pub open spec fn refused_as_forged(r: Result<String, OpenFault>, token: Seq<char>, secret: Seq<char>, c: ClaimsModel) -> bool {
    resigned(hs256_token(claims_text(c), secret), token) ==> r == Err::<String, OpenFault>(OpenFault::BadSignature)
}

/// Relies on `jsonwebtoken::decode` into a `RawValue` with HS256 and no claim checked: where
/// the signature verifies it returns the payload text, which depends on the token and the
/// secret alone; a signature that does not verify is `ErrorKind::InvalidSignature`. A token
/// that `jsonwebtoken::encode` wrote for a claims text opens to that text (an `exp` that is
/// not a `u64` is only ignored, as no claim is checked). The same token with another
/// signature fails as `InvalidSignature`: header and payload still read, and HS256 is checked
/// by comparing the signature text with the one computed. Text with fewer than two dots is
/// refused as `ErrorKind::InvalidToken` before the signature is looked at.
#[verifier::external_body]
fn open_hs256(token: &str, secret: &str) -> (r: Result<String, OpenFault>)
    ensures
        hs256_open(token@, secret@) == opened_view(r),
        !two_dots(token@) ==> r matches Err(OpenFault::Unreadable),
        forall|c: ClaimsModel| opens_to(r, token@, secret@, c),
        forall|c: ClaimsModel| refused_as_forged(r, token@, secret@, c),
{
    let mut v = jsonwebtoken::Validation::new(jsonwebtoken::Algorithm::HS256);
    v.validate_exp = false;
    v.required_spec_claims.clear();
    let key = jsonwebtoken::DecodingKey::from_secret(secret.as_bytes());
    match jsonwebtoken::decode::<Box<serde_json::value::RawValue>>(token, &key, &v) {
        Ok(d) => Ok(d.claims.get().to_string()),
        Err(e) => match e.kind() {
            jsonwebtoken::errors::ErrorKind::InvalidSignature => Err(OpenFault::BadSignature),
            _ => Err(OpenFault::Unreadable),
        },
    }
}

/// Whether `alg` and `secret` can sign: HS256 with a non-empty secret.
pub open spec fn signable(secret: Seq<char>, alg: Algorithm) -> bool {
    secret.len() > 0 && alg == Algorithm::HS256
}

/// What a payload text means at time `now`.
pub open spec fn payload_outcome(p: Seq<char>, now: i64) -> Result<ClaimsModel, AuthError> {
    match read_claims(p) {
        Some(c) => if now < c.exp {
            Ok(c)
        } else {
            Err(AuthError::Expired)
        },
        None => Err(AuthError::Malformed),
    }
}

/// `r` is the outcome `o`, claims compared by their model.
pub open spec fn same_outcome(r: Result<Claims, AuthError>, o: Result<ClaimsModel, AuthError>) -> bool {
    match r {
        Ok(c) => o == Ok::<ClaimsModel, AuthError>(c@),
        Err(e) => o == Err::<ClaimsModel, AuthError>(e),
    }
}

/// Signs `claims` into a compact token: it succeeds exactly on HS256 with a non-empty secret.
pub fn encode(claims: &Claims, secret: &str, alg: Algorithm) -> (r: Result<String, AuthError>)
    ensures
        !signable(secret@, alg) ==> r == Err::<String, AuthError>(AuthError::SigningError),
        signable(secret@, alg) ==> (r matches Ok(t) && t@ == hs256_token(claims_text(claims@), secret@)),
{
    if secret.is_empty() || alg != Algorithm::HS256 {
        return Err(AuthError::SigningError);
    }
    let text = claims.to_text();
    assert(claims_text(claims@) == text@);
    match sign_hs256(text.as_str(), secret) {
        Some(t) => Ok(t),
        None => Err(AuthError::SigningError),
    }
}

/// What a token opened by jsonwebtoken means at time `now`.
pub fn claims_from_opened(opened: Result<String, OpenFault>, now: i64) -> (r: Result<Claims, AuthError>)
    ensures
        match opened {
            Ok(p) => same_outcome(r, payload_outcome(p@, now)),
            Err(OpenFault::BadSignature) => r == Err::<Claims, AuthError>(AuthError::SignatureInvalid),
            Err(OpenFault::Unreadable) => r == Err::<Claims, AuthError>(AuthError::Malformed),
        },
{
    match opened {
        Ok(p) => match Claims::from_text(p.as_str()) {
            Some(c) => if now < c.exp {
                Ok(c)
            } else {
                Err(AuthError::Expired)
            },
            None => Err(AuthError::Malformed),
        },
        Err(OpenFault::BadSignature) => Err(AuthError::SignatureInvalid),
        Err(OpenFault::Unreadable) => Err(AuthError::Malformed),
    }
}

/// What an outcome of jsonwebtoken means at time `now`.
pub open spec fn open_outcome(o: Result<Seq<char>, OpenFault>, now: i64) -> Result<ClaimsModel, AuthError> {
    match o {
        Ok(p) => payload_outcome(p, now),
        Err(OpenFault::BadSignature) => Err(AuthError::SignatureInvalid),
        Err(OpenFault::Unreadable) => Err(AuthError::Malformed),
    }
}

/// What `decode` promises of its result `r`.
pub open spec fn decode_post(
    token: Seq<char>,
    secret: Seq<char>,
    alg: Algorithm,
    now: i64,
    r: Result<Claims, AuthError>,
) -> bool {
    &&& !signable(secret, alg) ==> r == Err::<Claims, AuthError>(AuthError::SigningError)
    &&& signable(secret, alg) ==> same_outcome(r, open_outcome(hs256_open(token, secret), now))
    &&& signable(secret, alg) && !two_dots(token) ==> r == Err::<Claims, AuthError>(AuthError::Malformed)
    &&& forall|c: ClaimsModel|
        signable(secret, alg) && token == #[trigger] hs256_token(claims_text(c), secret) ==> same_outcome(
            r,
            if now < c.exp {
                Ok(c)
            } else {
                Err(AuthError::Expired)
            },
        )
    &&& forall|c: ClaimsModel|
        signable(secret, alg) && resigned(#[trigger] hs256_token(claims_text(c), secret), token)
            ==> r == Err::<Claims, AuthError>(AuthError::SignatureInvalid)
}

/// Verifies `token` under `secret` and reads its claims, judging expiry at time `now`
/// (Unix seconds): a token is valid while `now < exp`.
pub fn decode(token: &str, secret: &str, alg: Algorithm, now: i64) -> (r: Result<Claims, AuthError>)
    ensures
        decode_post(token@, secret@, alg, now, r),
{
    if secret.is_empty() || alg != Algorithm::HS256 {
        return Err(AuthError::SigningError);
    }
    let opened = open_hs256(token, secret);
    proof {
        assert forall|c: ClaimsModel|
            token@ == #[trigger] hs256_token(claims_text(c), secret@) implies (
            opened matches Ok(p) && payload_outcome(p@, now) == (if now < c.exp {
                Ok(c)
            } else {
                Err(AuthError::Expired)
            })) by {
            assert(opens_to(opened, token@, secret@, c));
            lemma_read_claims(c);
        }
        assert forall|c: ClaimsModel| resigned(#[trigger] hs256_token(claims_text(c), secret@), token@) implies opened
            == Err::<String, OpenFault>(OpenFault::BadSignature) by {
            assert(refused_as_forged(opened, token@, secret@, c));
        }
    }
    claims_from_opened(opened, now)
}

/// Text that cannot be a compact token, such as `not-a-jwt`, decodes to `Malformed`.
pub proof fn lemma_not_a_token(secret: Seq<char>, now: i64, r: Result<Claims, AuthError>)
    requires
        secret.len() > 0,
        decode_post("not-a-jwt"@, secret, Algorithm::HS256, now, r),
    ensures
        r == Err::<Claims, AuthError>(AuthError::Malformed),
{
    reveal_strlit("not-a-jwt");
    assert(!two_dots("not-a-jwt"@));
}

/// Tampering: the token written for `c` with its signature replaced by any other text
/// without dots (a flipped signature byte, say) fails with `SignatureInvalid`, whatever
/// `c.exp` and `now` are.
pub proof fn lemma_altered_signature(
    c: ClaimsModel,
    secret: Seq<char>,
    token: Seq<char>,
    now: i64,
    r: Result<Claims, AuthError>,
)
    requires
        secret.len() > 0,
        resigned(hs256_token(claims_text(c), secret), token),
        decode_post(token, secret, Algorithm::HS256, now, r),
    ensures
        r == Err::<Claims, AuthError>(AuthError::SignatureInvalid),
{
}

/// Round trip: decoding, with the same secret, the token that `encode` writes for claims
/// `c` gives back `c`, at any time before `c.exp`.
pub proof fn lemma_encode_decode(c: ClaimsModel, secret: Seq<char>, now: i64, r: Result<Claims, AuthError>)
    requires
        secret.len() > 0,
        now < c.exp,
        decode_post(hs256_token(claims_text(c), secret), secret, Algorithm::HS256, now, r),
    ensures
        r matches Ok(d) && d@ == c,
{
}

/// Expiry: a token whose `exp` is at or before `now` fails with `Expired`, so `exp = now - 1`
/// fails; one whose `exp` is after `now`, such as `now + 1`, decodes.
pub proof fn lemma_expiry_boundary(c: ClaimsModel, secret: Seq<char>, now: i64, r: Result<Claims, AuthError>)
    requires
        secret.len() > 0,
        decode_post(hs256_token(claims_text(c), secret), secret, Algorithm::HS256, now, r),
    ensures
        c.exp <= now ==> r == Err::<Claims, AuthError>(AuthError::Expired),
        c.exp == now - 1 ==> r == Err::<Claims, AuthError>(AuthError::Expired),
        now < c.exp ==> r is Ok,
        c.exp == now + 1 ==> (r matches Ok(d) && d@ == c),
{
}

} // verus!
