//! The token authority and the authenticated identity it yields.
//!
//! Tokens are signed with a symmetric secret under a fixed algorithm.
//! Verification checks the signature, issuer, audience and expiry, then
//! reads the subject and role; a structurally valid but semantically
//! malformed token is rejected, never defaulted.

use vstd::prelude::*;

use crate::config::AuthConfig;
use crate::error::ApiError;
use crate::error::ApiErrorView;
use crate::ids::parse_uuid;
use crate::ids::spec_parse_uuid;
use crate::text::push_char;
use crate::user::UserRole;
use crate::user::parse_role;
use crate::user::spec_parse_role;

verus! {

/// The claims carried inside a signed token.
#[derive(Debug)]
pub struct Claims {
    pub sub: String,
    pub email: String,
    pub role: String,
    pub iss: String,
    pub aud: String,
    pub exp: u64,
}

/// The mathematical value of a claim set.
pub ghost struct ClaimsView {
    pub sub: Seq<char>,
    pub email: Seq<char>,
    pub role: Seq<char>,
    pub iss: Seq<char>,
    pub aud: Seq<char>,
    pub exp: u64,
}

impl View for Claims {
    type V = ClaimsView;

    open spec fn view(&self) -> ClaimsView {
        ClaimsView {
            sub: self.sub@,
            email: self.email@,
            role: self.role@,
            iss: self.iss@,
            aud: self.aud@,
            exp: self.exp,
        }
    }
}

impl Clone for Claims {
    fn clone(&self) -> (res: Self)
        ensures
            res@ == self@,
    {
        Claims {
            sub: self.sub.clone(),
            email: self.email.clone(),
            role: self.role.clone(),
            iss: self.iss.clone(),
            aud: self.aud.clone(),
            exp: self.exp,
        }
    }
}

/// The signed compact form of a claim set under a secret: an HMAC-signed
/// encoding, a function of the secret and the claims alone.
pub uninterp spec fn spec_jwt(secret: Seq<char>, claims: ClaimsView) -> Seq<char>;

/// Relies on `jsonwebtoken::encode` with the default header (HS256): the
/// token is a deterministic signed encoding of the claims under the
/// secret.
#[verifier::external_body]
pub(crate) fn encode_token(secret: &str, claims: &Claims) -> (r: Result<String, ()>)
    ensures
        r matches Ok(t) ==> t@ == spec_jwt(secret@, claims@),
{
    let fields = [
        ("sub", &claims.sub),
        ("email", &claims.email),
        ("role", &claims.role),
        ("iss", &claims.iss),
        ("aud", &claims.aud),
    ];
    let mut m = serde_json::Map::new();
    for (k, s) in fields {
        m.insert(k.to_string(), serde_json::Value::String(s.clone()));
    }
    m.insert("exp".to_string(), serde_json::Value::from(claims.exp));
    let key = jsonwebtoken::EncodingKey::from_secret(secret.as_bytes());
    jsonwebtoken::encode(&jsonwebtoken::Header::default(), &serde_json::Value::Object(m), &key)
        .map_err(|_| ())
}

/// Relies on `jsonwebtoken::decode` (HS256) with issuer, audience and
/// expiry validation: a token is accepted only if its signature verifies
/// under the secret, it is unexpired by the clock, and its issuer and
/// audience claims match the required ones — so the returned issuer and
/// audience equal the arguments.  The clock takes part, so nothing more is
/// promised of the outcome.
#[verifier::external_body]
pub(crate) fn decode_token(secret: &str, token: &str, iss: &str, aud: &str) -> (r: Option<Claims>)
    ensures
        r matches Some(c) ==> c.iss@ == iss@ && c.aud@ == aud@,
{
    let key = jsonwebtoken::DecodingKey::from_secret(secret.as_bytes());
    let mut v = jsonwebtoken::Validation::new(jsonwebtoken::Algorithm::HS256);
    v.set_issuer(&[iss]);
    v.set_audience(&[aud]);
    let c = jsonwebtoken::decode::<serde_json::Value>(token, &key, &v).ok()?.claims;
    Some(Claims {
        sub: c["sub"].as_str()?.to_string(),
        email: c["email"].as_str()?.to_string(),
        role: c["role"].as_str()?.to_string(),
        iss: c["iss"].as_str()?.to_string(),
        aud: c["aud"].as_str()?.to_string(),
        exp: c["exp"].as_u64()?,
    })
}

/// The authenticated identity attached to a request after its token
/// verified.
#[derive(Debug)]
pub struct CurrentUser {
    pub id: u128,
    pub email: String,
    pub role: UserRole,
}

impl Clone for CurrentUser {
    fn clone(&self) -> (res: Self)
        ensures
            res.id == self.id,
            res.email@ == self.email@,
            res.role == self.role,
    {
        CurrentUser { id: self.id, email: self.email.clone(), role: self.role }
    }
}

/// The authorization decision: an administrator may access anything; any
/// other identity may access only what it owns.
pub fn can_access(actor: &CurrentUser, resource_owner: u128) -> (r: bool)
    ensures
        r == (actor.role == UserRole::Admin || actor.id == resource_owner),
{
    match actor.role {
        UserRole::Admin => true,
        UserRole::User => actor.id == resource_owner,
    }
}

/// Accepts only administrators; anyone else is `Forbidden`.
pub fn require_admin(actor: &CurrentUser) -> (r: Result<(), ApiError>)
    ensures
        r is Ok <==> actor.role == UserRole::Admin,
        r matches Err(e) ==> e@ == ApiErrorView::Forbidden("Admin access required"@),
{
    match actor.role {
        UserRole::Admin => Ok(()),
        UserRole::User => Err(ApiError::forbidden("Admin access required")),
    }
}

/// The token carried by an `Authorization` header, when the header has
/// the `Bearer ` shape.
pub open spec fn spec_bearer(h: Seq<char>) -> Option<Seq<char>> {
    if h.len() >= 7 && h.subrange(0, 7) == "Bearer "@ {
        Some(h.skip(7))
    } else {
        None
    }
}

/// Exec counterpart of `spec_bearer`.
pub fn extract_bearer(header: &str) -> (r: Option<String>)
    ensures
        match r {
            Some(t) => spec_bearer(header@) == Some(t@),
            None => spec_bearer(header@) is None,
        },
{
    proof {
        reveal_strlit("Bearer ");
    }
    let n = header.unicode_len();
    if n < 7 {
        return None;
    }
    let shaped: bool = header.get_char(0) == 'B' && header.get_char(1) == 'e' && header.get_char(2)
        == 'a' && header.get_char(3) == 'r' && header.get_char(4) == 'e' && header.get_char(5)
        == 'r' && header.get_char(6) == ' ';
    if !shaped {
        proof {
            assert(header@.subrange(0, 7) != "Bearer "@) by {
                if header@.subrange(0, 7) == "Bearer "@ {
                    assert(header@[0] == header@.subrange(0, 7)[0]);
                    assert(header@[1] == header@.subrange(0, 7)[1]);
                    assert(header@[2] == header@.subrange(0, 7)[2]);
                    assert(header@[3] == header@.subrange(0, 7)[3]);
                    assert(header@[4] == header@.subrange(0, 7)[4]);
                    assert(header@[5] == header@.subrange(0, 7)[5]);
                    assert(header@[6] == header@.subrange(0, 7)[6]);
                }
            }
        }
        return None;
    }
    proof {
        assert(header@.subrange(0, 7) =~= "Bearer "@);
    }
    let mut out = String::new();
    let mut i: usize = 7;
    while i < n
        invariant
            n == header@.len(),
            7 <= i <= n,
            out@ == header@.subrange(7, i as int),
        decreases n - i,
    {
        push_char(&mut out, header.get_char(i));
        proof {
            assert(header@.subrange(7, i + 1) =~= header@.subrange(7, i as int).push(
                header@[i as int],
            ));
        }
        i = i + 1;
    }
    proof {
        assert(header@.subrange(0, 7) =~= "Bearer "@);
        assert(out@ =~= header@.skip(7));
    }
    Some(out)
}

/// Reads the authenticated identity out of an accepted claim set: the
/// subject must parse as an identifier and the role must be recognized,
/// else the request is `Unauthorized`.
pub fn current_user_from_claims(c: &Claims) -> (r: Result<CurrentUser, ApiError>)
    ensures
        r is Ok <==> (spec_parse_uuid(c.sub@) is Some && spec_parse_role(c.role@) is Some),
        r matches Ok(u) ==> {
            &&& spec_parse_uuid(c.sub@) == Some(u.id)
            &&& spec_parse_role(c.role@) == Some(u.role)
            &&& u.email@ == c.email@
        },
        r matches Err(e) ==> e@ == (if spec_parse_uuid(c.sub@) is None {
            ApiErrorView::Unauthorized("Invalid user ID in token"@)
        } else {
            ApiErrorView::Unauthorized("Invalid user role in token"@)
        }),
{
    let id = match parse_uuid(c.sub.as_str()) {
        Some(id) => id,
        None => {
            return Err(ApiError::unauthorized("Invalid user ID in token"));
        },
    };
    let role = match parse_role(c.role.as_str()) {
        Some(role) => role,
        None => {
            return Err(ApiError::unauthorized("Invalid user role in token"));
        },
    };
    Ok(CurrentUser { id, email: c.email.clone(), role })
}

/// The whole gate a request passes before it reaches a handler: header
/// present, `Bearer` shape, accepted token, well-formed subject and role.
/// A token the authority rejects — bad signature, expired, or wrong
/// issuer or audience — is `Unauthorized`.
pub fn authenticate_request(cfg: &AuthConfig, auth_header: Option<&str>) -> (r: Result<
    CurrentUser,
    ApiError,
>)
    ensures
        auth_header is None ==> (r matches Err(e) && e@ == ApiErrorView::Unauthorized(
            "Missing or invalid Authorization header"@,
        )),
        auth_header matches Some(h) && spec_bearer(h@) is None ==> (r matches Err(e) && e@
            == ApiErrorView::Unauthorized("Invalid token format. Expected 'Bearer <token>'"@)),
        r matches Ok(u) ==> exists|cv: ClaimsView|
            {
                &&& #[trigger] spec_parse_uuid(cv.sub) == Some(u.id)
                &&& spec_parse_role(cv.role) == Some(u.role)
                &&& cv.email == u.email@
                &&& cv.iss == cfg.issuer@
                &&& cv.aud == cfg.audience@
            },
        r matches Err(e) ==> e@ is Unauthorized,
{
    let header = match auth_header {
        Some(h) => h,
        None => {
            return Err(ApiError::unauthorized("Missing or invalid Authorization header"));
        },
    };
    let token = match extract_bearer(header) {
        Some(t) => t,
        None => {
            return Err(ApiError::unauthorized("Invalid token format. Expected 'Bearer <token>'"));
        },
    };
    let claims = match decode_token(
        cfg.jwt_secret.as_str(),
        token.as_str(),
        cfg.issuer.as_str(),
        cfg.audience.as_str(),
    ) {
        Some(c) => c,
        None => {
            return Err(ApiError::unauthorized("Invalid or expired token"));
        },
    };
    let user = current_user_from_claims(&claims)?;
    proof {
        assert(spec_parse_uuid(claims@.sub) == Some(user.id));
    }
    Ok(user)
}

} // verus!
