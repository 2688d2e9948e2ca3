//! Issuing access/refresh token pairs and verifying bearer tokens.
use vstd::prelude::*;
use crate::chars::{chars_of, string_of};
use crate::claims::{Claims, ClaimsModel, claims_text, starts_with, starts_at};
use crate::codec::{
    Algorithm, AuthError, decode, decode_post, encode, hs256_open, hs256_token, open_outcome,
    signable, two_dots,
};

verus! {

/// Lifetime of an access token, in seconds (15 minutes).
pub const ACCESS_TTL: i64 = 900;

/// Lifetime of a refresh token, in seconds (7 days).
pub const REFRESH_TTL: i64 = 604800;

/// The pair of tokens handed to a client.
pub struct AuthResponse {
    pub access_token: String,
    pub refresh_token: String,
}

/// A token pair as a client sends it back.
pub struct Token {
    pub access_token: String,
    pub refresh_token: String,
}

/// Everything issued for one login or refresh.
pub struct TokenDetails {
    pub access_token: String,
    pub refresh_token: String,
    pub access_session_id: String,
    pub refresh_session_id: String,
    pub access_expires_at: i64,
    pub refresh_expires_at: i64,
}

/// The identity behind a verified access token.
pub struct AccessDetails {
    pub access_session_id: String,
    pub user_id: String,
}

/// Issues and verifies session tokens with the secrets it was given.
pub struct AuthModel {
    /// Signs access tokens.
    pub access_secret: String,
    /// Signs refresh tokens; it should differ from the access secret.
    pub refresh_secret: String,
}

/// Claims of an access token.
pub open spec fn access_claims(user_id: Seq<char>, session_id: Seq<char>, exp: i64) -> ClaimsModel {
    ClaimsModel {
        authorized: true,
        access_session_id: Some(session_id),
        refresh_session_id: None,
        user_id,
        exp,
    }
}

/// Claims of a refresh token.
pub open spec fn refresh_claims(user_id: Seq<char>, session_id: Seq<char>, exp: i64) -> ClaimsModel {
    ClaimsModel {
        authorized: false,
        access_session_id: None,
        refresh_session_id: Some(session_id),
        user_id,
        exp,
    }
}

/// The token after a case-sensitive `Bearer ` prefix, if the header has one.
pub open spec fn bearer_token(header: Option<Seq<char>>) -> Option<Seq<char>> {
    match header {
        Some(h) => if starts_with(h, "Bearer "@) {
            Some(h.skip(7))
        } else {
            None
        },
        None => None,
    }
}

pub open spec fn header_view(header: Option<&str>) -> Option<Seq<char>> {
    match header {
        Some(h) => Some(h@),
        None => None,
    }
}

/// Session identifier and user of an outcome, or its error.
pub open spec fn details_outcome(r: Result<AccessDetails, AuthError>) -> Result<(Seq<char>, Seq<char>), AuthError> {
    match r {
        Ok(d) => Ok((d.access_session_id@, d.user_id@)),
        Err(e) => Err(e),
    }
}

/// What verified claims give: their access session and user, or `MalformedClaims`.
pub open spec fn metadata_from(o: Result<ClaimsModel, AuthError>) -> Result<(Seq<char>, Seq<char>), AuthError> {
    match o {
        Ok(c) => match c.access_session_id {
            Some(a) => Ok((a, c.user_id)),
            None => Err(AuthError::MalformedClaims),
        },
        Err(e) => Err(e),
    }
}

/// What `extract_token_metadata_at` promises of its result `r`.
pub open spec fn metadata_post(
    secret: Seq<char>,
    header: Option<Seq<char>>,
    now: i64,
    r: Result<AccessDetails, AuthError>,
) -> bool {
    &&& match bearer_token(header) {
        None => r == Err::<AccessDetails, AuthError>(AuthError::MissingToken),
        Some(t) => if !signable(secret, Algorithm::HS256) {
            r == Err::<AccessDetails, AuthError>(AuthError::SigningError)
        } else {
            details_outcome(r) == metadata_from(open_outcome(hs256_open(t, secret), now))
        },
    }
    &&& (bearer_token(header) matches Some(t) && secret.len() > 0 && !two_dots(t)) ==> r == Err::<
        AccessDetails,
        AuthError,
    >(AuthError::Malformed)
    &&& forall|c: ClaimsModel|
        secret.len() > 0 && header == Some("Bearer "@ + #[trigger] hs256_token(claims_text(c), secret))
            ==> details_outcome(r) == metadata_from(
            if now < c.exp {
                Ok(c)
            } else {
                Err(AuthError::Expired)
            },
        )
}

/// Relies on `chrono::Utc::now().timestamp()`: seconds since the Unix epoch. `Utc::now`
/// panics on a clock before the epoch and chrono's dates end in the year 262142, so the
/// value lies between 0 and 8.3e12.
#[verifier::external_body]
fn now_seconds() -> (r: i64)
    ensures
        0 <= r <= 8_300_000_000_000,
{
    chrono::Utc::now().timestamp()
}

/// Whether `s` is a UUID in hyphenated lower-case form: 8-4-4-4-12 hexadecimal digits.
pub open spec fn is_hyphenated_uuid(s: Seq<char>) -> bool {
    &&& s.len() == 36
    &&& forall|i: int|
        0 <= i < 36 ==> if i == 8 || i == 13 || i == 18 || i == 23 {
            #[trigger] s[i] == '-'
        } else {
            ('0' <= s[i] && s[i] <= '9') || ('a' <= s[i] && s[i] <= 'f')
        }
}

/// Relies on `uuid::Uuid::new_v4` written with `to_string`: a random identifier, which
/// `Display` writes in hyphenated lower-case form.
#[verifier::external_body]
fn random_session_id() -> (r: String)
    ensures
        is_hyphenated_uuid(r@),
{
    uuid::Uuid::new_v4().to_string()
}

impl AuthModel {
    pub fn new(access_secret: String, refresh_secret: String) -> (r: AuthModel)
        ensures
            r.access_secret@ == access_secret@,
            r.refresh_secret@ == refresh_secret@,
    {
        AuthModel { access_secret, refresh_secret }
    }

    /// Issues a token pair for `user_id` at time `now` with the given session identifiers.
    pub fn create_token_at(
        &self,
        user_id: &str,
        now: i64,
        access_session_id: String,
        refresh_session_id: String,
    ) -> (r: Result<TokenDetails, AuthError>)
        requires
            now <= i64::MAX - REFRESH_TTL,
        ensures
            r is Ok == (self.access_secret@.len() > 0 && self.refresh_secret@.len() > 0),
            r matches Err(e) ==> e == AuthError::SigningError,
            r matches Ok(d) ==> {
                &&& d.access_expires_at == now + ACCESS_TTL
                &&& d.refresh_expires_at == now + REFRESH_TTL
                &&& d.access_session_id@ == access_session_id@
                &&& d.refresh_session_id@ == refresh_session_id@
                &&& d.access_token@ == hs256_token(
                    claims_text(access_claims(user_id@, access_session_id@, d.access_expires_at)),
                    self.access_secret@,
                )
                &&& d.refresh_token@ == hs256_token(
                    claims_text(refresh_claims(user_id@, refresh_session_id@, d.refresh_expires_at)),
                    self.refresh_secret@,
                )
            },
    {
        let at_expires = now + ACCESS_TTL;
        let rt_expires = now + REFRESH_TTL;
        let at_claims = Claims {
            authorized: true,
            access_session_id: Some(access_session_id.clone()),
            refresh_session_id: None,
            user_id: string_of(&chars_of(user_id)),
            exp: at_expires,
        };
        let access_token = match encode(&at_claims, self.access_secret.as_str(), Algorithm::HS256) {
            Ok(t) => t,
            Err(e) => return Err(e),
        };
        let rt_claims = Claims {
            authorized: false,
            access_session_id: None,
            refresh_session_id: Some(refresh_session_id.clone()),
            user_id: string_of(&chars_of(user_id)),
            exp: rt_expires,
        };
        let refresh_token = match encode(&rt_claims, self.refresh_secret.as_str(), Algorithm::HS256) {
            Ok(t) => t,
            Err(e) => return Err(e),
        };
        Ok(
            TokenDetails {
                access_token,
                refresh_token,
                access_session_id,
                refresh_session_id,
                access_expires_at: at_expires,
                refresh_expires_at: rt_expires,
            },
        )
    }

    /// Issues a token pair for `user_id`: the access token lives 15 minutes and the
    /// refresh token 7 days from now, each with its own random session identifier.
    /// Should the random source repeat an identifier four times running, it gives up
    /// with `SigningError`. The access expiry is 900 seconds after a clock reading, which
    /// lies between 0 and 8.3e12.
    pub fn create_token(&self, user_id: &str) -> (r: Result<TokenDetails, AuthError>)
        ensures
            (self.access_secret@.len() == 0 || self.refresh_secret@.len() == 0) ==> r
                is Err,
            r matches Err(e) ==> e == AuthError::SigningError,
            r matches Ok(d) ==> {
                &&& ACCESS_TTL <= d.access_expires_at <= 8_300_000_000_000 + ACCESS_TTL
                &&& d.access_expires_at < d.refresh_expires_at
                &&& d.access_session_id@ != d.refresh_session_id@
                &&& d.refresh_expires_at - d.access_expires_at == REFRESH_TTL - ACCESS_TTL
                &&& d.access_token@ == hs256_token(
                    claims_text(access_claims(user_id@, d.access_session_id@, d.access_expires_at)),
                    self.access_secret@,
                )
                &&& d.refresh_token@ == hs256_token(
                    claims_text(refresh_claims(user_id@, d.refresh_session_id@, d.refresh_expires_at)),
                    self.refresh_secret@,
                )
            },
    {
        let now = now_seconds();
        let access_session_id = random_session_id();
        let mut refresh_session_id = random_session_id();
        let mut tries: usize = 0;
        while refresh_session_id == access_session_id && tries < 3
            decreases 3 - tries,
        {
            refresh_session_id = random_session_id();
            tries = tries + 1;
        }
        if refresh_session_id == access_session_id {
            return Err(AuthError::SigningError);
        }
        self.create_token_at(user_id, now, access_session_id, refresh_session_id)
    }

    /// The token after a case-sensitive `Bearer ` prefix; `None` when the header is
    /// absent or has no such prefix.
    pub fn extract_token(&self, auth_header: Option<&str>) -> (r: Option<String>)
        ensures
            match bearer_token(header_view(auth_header)) {
                Some(t) => r matches Some(s) && s@ == t,
                None => r is None,
            },
    {
        proof {
            reveal_strlit("Bearer ");
        }
        match auth_header {
            Some(h) => {
                let cs = chars_of(h);
                assert(cs@.skip(0) =~= h@);
                if starts_at(&cs, 0, "Bearer ") {
                    let mut out: Vec<char> = Vec::new();
                    let mut i: usize = 7;
                    while i < cs.len()
                        invariant
                            7 <= i <= cs.len(),
                            out@ == cs@.subrange(7, i as int),
                        decreases cs.len() - i,
                    {
                        out.push(cs[i]);
                        i = i + 1;
                        assert(out@ =~= cs@.subrange(7, i as int));
                    }
                    assert(out@ =~= h@.skip(7));
                    Some(string_of(&out))
                } else {
                    None
                }
            },
            None => None,
        }
    }

    /// Verifies an access token with the access secret, judging expiry at `now`.
    pub fn verify_token_at(&self, token: &str, now: i64) -> (r: Result<Claims, AuthError>)
        ensures
            decode_post(token@, self.access_secret@, Algorithm::HS256, now, r),
    {
        decode(token, self.access_secret.as_str(), Algorithm::HS256, now)
    }

    /// Verifies an access token with the access secret, judging expiry by the clock.
    pub fn verify_token(&self, token: &str) -> (r: Result<Claims, AuthError>)
        ensures
            exists|now: i64| 0 <= now && decode_post(token@, self.access_secret@, Algorithm::HS256, now, r),
    {
        let now = now_seconds();
        let r = self.verify_token_at(token, now);
        assert(0 <= now && decode_post(token@, self.access_secret@, Algorithm::HS256, now, r));
        r
    }

    /// From an `Authorization` header to the verified session, judging expiry at `now`.
    pub fn extract_token_metadata_at(&self, auth_header: Option<&str>, now: i64) -> (r: Result<
        AccessDetails,
        AuthError,
    >)
        ensures
            metadata_post(self.access_secret@, header_view(auth_header), now, r),
    {
        proof {
            reveal_strlit("Bearer ");
            assert forall|c: ClaimsModel|
                self.access_secret@.len() > 0 && header_view(auth_header) == Some(
                    "Bearer "@ + #[trigger] hs256_token(claims_text(c), self.access_secret@),
                ) implies bearer_token(header_view(auth_header)) == Some(
                hs256_token(claims_text(c), self.access_secret@),
            ) by {
                let tok = hs256_token(claims_text(c), self.access_secret@);
                assert(("Bearer "@ + tok).take(7) =~= "Bearer "@);
                assert(("Bearer "@ + tok).skip(7) =~= tok);
            }
        }
        let token = match self.extract_token(auth_header) {
            Some(t) => t,
            None => return Err(AuthError::MissingToken),
        };
        match self.verify_token_at(token.as_str(), now) {
            Ok(claims) => match claims.access_session_id {
                Some(access_session_id) => Ok(AccessDetails { access_session_id, user_id: claims.user_id }),
                None => Err(AuthError::MalformedClaims),
            },
            Err(e) => Err(e),
        }
    }

    /// From an `Authorization` header to the verified session, judging expiry by the clock.
    pub fn extract_token_metadata(&self, auth_header: Option<&str>) -> (r: Result<AccessDetails, AuthError>)
        ensures
            exists|now: i64| 0 <= now && metadata_post(self.access_secret@, header_view(auth_header), now, r),
    {
        let now = now_seconds();
        let r = self.extract_token_metadata_at(auth_header, now);
        assert(0 <= now && metadata_post(self.access_secret@, header_view(auth_header), now, r));
        r
    }
}

/// A bearer header whose token is not a compact token, such as `Bearer not-a-jwt`, fails
/// with `Malformed`.
pub proof fn lemma_garbage_bearer_is_malformed(secret: Seq<char>, now: i64, r: Result<AccessDetails, AuthError>)
    requires
        secret.len() > 0,
        metadata_post(secret, Some("Bearer not-a-jwt"@), now, r),
    ensures
        r == Err::<AccessDetails, AuthError>(AuthError::Malformed),
{
    reveal_strlit("Bearer not-a-jwt");
    reveal_strlit("Bearer ");
    reveal_strlit("not-a-jwt");
    assert("Bearer not-a-jwt"@.take(7) =~= "Bearer "@);
    assert("Bearer not-a-jwt"@.skip(7) =~= "not-a-jwt"@);
    assert(!two_dots("not-a-jwt"@));
}

/// A refresh token presented where an access token is due fails even when both are
/// signed with one secret: it carries no access session, so it gives `MalformedClaims`
/// (or `Expired` once its lifetime is over).
pub proof fn lemma_refresh_not_access(
    user_id: Seq<char>,
    session_id: Seq<char>,
    exp: i64,
    secret: Seq<char>,
    now: i64,
    r: Result<AccessDetails, AuthError>,
)
    requires
        secret.len() > 0,
        metadata_post(
            secret,
            Some("Bearer "@ + hs256_token(claims_text(refresh_claims(user_id, session_id, exp)), secret)),
            now,
            r,
        ),
    ensures
        now < exp ==> r == Err::<AccessDetails, AuthError>(AuthError::MalformedClaims),
        exp <= now ==> r == Err::<AccessDetails, AuthError>(AuthError::Expired),
{
    let c = refresh_claims(user_id, session_id, exp);
    assert(details_outcome(r) == metadata_from(
        if now < c.exp {
            Ok(c)
        } else {
            Err(AuthError::Expired)
        },
    ));
}

/// End to end: the access token issued for `user_id` with session `session_id`, presented
/// as `Bearer <token>` before it expires, yields that user and that session.
pub proof fn lemma_issue_then_extract(
    user_id: Seq<char>,
    session_id: Seq<char>,
    exp: i64,
    secret: Seq<char>,
    now: i64,
    r: Result<AccessDetails, AuthError>,
)
    requires
        secret.len() > 0,
        now < exp,
        metadata_post(
            secret,
            Some("Bearer "@ + hs256_token(claims_text(access_claims(user_id, session_id, exp)), secret)),
            now,
            r,
        ),
    ensures
        r matches Ok(d) && d.user_id@ == user_id && d.access_session_id@ == session_id,
{
    assert(details_outcome(r) == Ok::<(Seq<char>, Seq<char>), AuthError>((session_id, user_id)));
}

} // verus!
