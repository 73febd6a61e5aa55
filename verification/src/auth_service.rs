//! The registration and login flow: validate, hash, persist; look up,
//! verify, issue a token.
//!
//! A failed login reports one indistinguishable `ValidationError`,
//! `Invalid email or password`, whether the email is unknown or the
//! password wrong — the caller never learns which.

use vstd::prelude::*;

use crate::config::AuthConfig;
use crate::error::ApiError;
use crate::error::ApiErrorView;
use crate::ids::now_timestamp;
use crate::ids::spec_uuid_str;
use crate::ids::uuid_to_string;
use crate::password::check_password;
use crate::password::hash_password;
use crate::password::spec_hash_parses;
use crate::password::spec_password_verifies;
use crate::requests::LoginRequest;
use crate::requests::RegisterRequest;
use crate::requests::TokenResponse;
use crate::text::spec_lower;
use crate::text::spec_trim;
use crate::text::to_lower_str;
use crate::text::trim_str;
use crate::token::Claims;
use crate::token::ClaimsView;
use crate::token::encode_token;
use crate::token::spec_jwt;
use crate::user::User;
use crate::user::spec_role_str;
use crate::user::role_to_string;
use crate::user_repository::UserRecordView;
use crate::user_repository::UserRepository;
use crate::user_repository::spec_email_taken;
use crate::user_repository::spec_has_user_id;
use crate::user_repository::spec_users_wf;
use crate::validation::Validator;
use crate::validation::spec_is_strong_password;
use crate::validation::spec_is_valid_email;

verus! {

/// What the registration path accepts.
pub open spec fn spec_register_valid(req: &RegisterRequest) -> bool {
    &&& spec_trim(req.name@).len() >= 2
    &&& spec_trim(req.name@).len() <= 100
    &&& spec_trim(req.email@).len() > 0
    &&& spec_is_valid_email(spec_trim(req.email@))
    &&& req.email@.len() <= 255
    &&& 8 <= req.password@.len() <= 128
    &&& spec_is_strong_password(req.password@)
}

/// What the login path accepts before any lookup.
pub open spec fn spec_login_valid(req: &LoginRequest) -> bool {
    &&& spec_trim(req.email@).len() > 0
    &&& spec_is_valid_email(spec_trim(req.email@))
    &&& req.password@.len() > 0
}

/// The stored email a login or registration for this request would touch:
/// trimmed and lower-cased.
pub open spec fn spec_normalized_email(email: Seq<char>) -> Seq<char> {
    spec_lower(spec_trim(email))
}

/// The token authority and registration/login flow; the credential store
/// handle is injected per call.
pub struct AuthService {
    pub cfg: AuthConfig,
}

/// The expiry claim of a token issued at `now`: `now` plus the configured
/// lifetime, or the internal failure the original reported when the sum
/// leaves the representable range.
pub fn token_expiry(now: i64, expiry_minutes: u64) -> (r: Result<u64, ApiError>)
    ensures
        r is Ok <==> {
            &&& expiry_minutes * 60 <= i64::MAX
            &&& now + expiry_minutes * 60 <= i64::MAX
            &&& now + expiry_minutes * 60 >= 0
        },
        r matches Ok(e) ==> e == now + expiry_minutes * 60,
        r matches Err(e) ==> e@ == ApiErrorView::InternalError("Failed to compute token expiry"@),
{
    if expiry_minutes > 0x7fff_ffff_ffff_ffffu64 / 60 {
        proof {
            assert(expiry_minutes * 60 > i64::MAX) by (nonlinear_arith)
                requires
                    expiry_minutes > 0x7fff_ffff_ffff_ffffu64 / 60,
            ;
        }
        return Err(ApiError::internal_error("Failed to compute token expiry"));
    }
    let offs: i64 = (expiry_minutes * 60) as i64;
    proof {
        assert(expiry_minutes * 60 <= i64::MAX) by (nonlinear_arith)
            requires
                expiry_minutes <= 0x7fff_ffff_ffff_ffffu64 / 60,
        ;
    }
    if now > i64::MAX - offs || now + offs < 0 {
        return Err(ApiError::internal_error("Failed to compute token expiry"));
    }
    Ok((now + offs) as u64)
}

impl AuthService {
    pub fn new(cfg: AuthConfig) -> (r: Self)
        ensures
            r.cfg.jwt_secret@ == cfg.jwt_secret@,
            r.cfg.issuer@ == cfg.issuer@,
            r.cfg.audience@ == cfg.audience@,
            r.cfg.expiry_minutes == cfg.expiry_minutes,
    {
        AuthService { cfg }
    }

    /// Validates the request, hashes the credential, and persists the
    /// identity under the trimmed name and normalized email; the email
    /// must be free.
    pub fn register(&self, users: &mut UserRepository, req: RegisterRequest) -> (r: Result<
        User,
        ApiError,
    >)
        requires
            spec_users_wf(old(users)@),
        ensures
            spec_users_wf(final(users)@),
            r is Err ==> final(users)@ == old(users)@,
            !spec_register_valid(&req) ==> (r matches Err(e) && e@ is ValidationError),
            spec_register_valid(&req) && spec_email_taken(
                old(users)@,
                spec_normalized_email(req.email@),
            ) ==> (r matches Err(e) && (e@ == (ApiErrorView::EmailAlreadyExists {
                email: spec_normalized_email(req.email@),
            }) || e@ is InternalError)),
            spec_register_valid(&req) && !spec_email_taken(
                old(users)@,
                spec_normalized_email(req.email@),
            ) ==> (r matches Err(e) ==> e@ is InternalError),
            spec_register_valid(&req) ==> match r {
                Ok(u) => {
                    &&& u.name@ == spec_trim(req.name@)
                    &&& u.email@ == spec_normalized_email(req.email@)
                    &&& u.role == crate::user::UserRole::User
                    &&& !spec_email_taken(old(users)@, spec_normalized_email(req.email@))
                    &&& !spec_has_user_id(old(users)@, u.id)
                    &&& final(users)@.len() == old(users)@.len() + 1
                    &&& final(users)@.drop_last() == old(users)@
                    &&& final(users)@.last().user == u@
                    &&& spec_hash_parses(final(users)@.last().password_hash)
                    &&& spec_password_verifies(req.password@, final(users)@.last().password_hash)
                },
                Err(e) => e@ is ValidationError || e@ is InternalError || e@
                    is EmailAlreadyExists,
            },
    {
        if let Err(e) = Validator::validate_register_request(&req) {
            return Err(e);
        }
        let hash = match hash_password(req.password.as_str()) {
            Ok(h) => h,
            Err(_) => {
                return Err(ApiError::internal_error("Password hashing failed"));
            },
        };
        let name = trim_str(req.name.as_str());
        let email = to_lower_str(trim_str(req.email.as_str()).as_str());
        let ghost old_view = users@;
        let r = users.create_with_password_hash(name, email, hash);
        proof {
            if r is Ok {
                assert(users@.drop_last() =~= old_view);
            }
        }
        r
    }

    /// Looks the identity up by normalized email and verifies the
    /// password; on success issues a signed token whose claims carry the
    /// identity, the configured issuer and audience, and the expiry.  An
    /// unknown email and a wrong password produce the identical
    /// `ValidationError`.
    pub fn login(&self, users: &UserRepository, req: LoginRequest) -> (r: Result<
        TokenResponse,
        ApiError,
    >)
        requires
            spec_users_wf(users@),
        ensures
            !spec_login_valid(&req) ==> (r matches Err(e) && e@ is ValidationError),
            spec_login_valid(&req) && !spec_email_taken(
                users@,
                spec_normalized_email(req.email@),
            ) ==> (r matches Err(e) && e@ == ApiErrorView::ValidationError(
                "Invalid email or password"@,
            )),
            spec_login_valid(&req) && (exists|i: int|
                0 <= i < users@.len() && (#[trigger] users@[i]).user.email
                    == spec_normalized_email(req.email@) && spec_hash_parses(
                    users@[i].password_hash,
                ) && spec_password_verifies(req.password@, users@[i].password_hash)) ==> (r is Ok
                || (r matches Err(e) && e@ is InternalError)),
            spec_login_valid(&req) ==> forall|i: int|
                0 <= i < users@.len() && (#[trigger] users@[i]).user.email
                    == spec_normalized_email(req.email@) && spec_hash_parses(
                    users@[i].password_hash,
                ) && !spec_password_verifies(req.password@, users@[i].password_hash) ==> (
                r matches Err(e) && e@ == ApiErrorView::ValidationError(
                    "Invalid email or password"@,
                )),
            r matches Ok(t) ==> exists|i: int|
                {
                    &&& 0 <= i < users@.len()
                    &&& (#[trigger] users@[i]).user.email == spec_normalized_email(req.email@)
                    &&& spec_password_verifies(req.password@, users@[i].password_hash)
                    &&& exists|cv: ClaimsView|
                        {
                            &&& #[trigger] spec_jwt(self.cfg.jwt_secret@, cv) == t.token@
                            &&& cv.sub == spec_uuid_str(users@[i].user.id)
                            &&& cv.email == users@[i].user.email
                            &&& cv.role == spec_role_str(users@[i].user.role)
                            &&& cv.iss == self.cfg.issuer@
                            &&& cv.aud == self.cfg.audience@
                        }
                },
    {
        if let Err(e) = Validator::validate_login_request(&req) {
            return Err(e);
        }
        let email = to_lower_str(trim_str(req.email.as_str()).as_str());
        let found = users.find_auth_by_email(email.as_str());
        let (user, stored_hash) = match found {
            Some(p) => p,
            None => {
                return Err(ApiError::validation_error("Invalid email or password"));
            },
        };
        proof {
            let i = choose|i: int|
                0 <= i < users@.len() && #[trigger] users@[i] == (UserRecordView {
                    user: user@,
                    password_hash: stored_hash@,
                });
            assert(users@[i].user.email == spec_normalized_email(req.email@));
            assert forall|j: int|
                0 <= j < users@.len() && (#[trigger] users@[j]).user.email
                    == spec_normalized_email(req.email@) implies users@[j] == users@[i] by {
                if j != i {
                    assert(users@[j].user.email != users@[i].user.email);
                }
            }
        }
        let verified = match check_password(req.password.as_str(), stored_hash.as_str()) {
            Some(b) => b,
            None => {
                return Err(ApiError::internal_error("Corrupt password hash"));
            },
        };
        if !verified {
            return Err(ApiError::validation_error("Invalid email or password"));
        }
        let now = now_timestamp();
        let exp: u64 = match token_expiry(now, self.cfg.expiry_minutes) {
            Ok(e) => e,
            Err(e) => {
                return Err(e);
            },
        };
        let claims = Claims {
            sub: uuid_to_string(user.id),
            email: user.email.clone(),
            role: role_to_string(user.role),
            iss: self.cfg.issuer.clone(),
            aud: self.cfg.audience.clone(),
            exp,
        };
        match encode_token(self.cfg.jwt_secret.as_str(), &claims) {
            Ok(token) => Ok(TokenResponse { token }),
            Err(_) => Err(ApiError::internal_error("JWT encoding failed")),
        }
    }
}

} // verus!
