//! The identity query/command service over the credential store.

use vstd::prelude::*;

use crate::error::ApiError;
use crate::error::ApiErrorView;
use crate::text::spec_trim;
use crate::text::trim_str;
use crate::user::CreateUserRequest;
use crate::user::User;
use crate::user_repository::UserRecordView;
use crate::user_repository::UserRepository;
use crate::user_repository::spec_email_taken;
use crate::user_repository::spec_has_user_id;
use crate::user_repository::spec_users_wf;

verus! {

/// A structurally plausible email for the administrative creation path:
/// non-empty and containing an `@`.
pub open spec fn spec_plausible_email(s: Seq<char>) -> bool {
    exists|i: int| 0 <= i < s.len() && #[trigger] s[i] == '@'
}

/// What the administrative creation path accepts.
pub open spec fn spec_user_request_valid(req: &CreateUserRequest) -> bool {
    &&& spec_trim(req.name@).len() > 0
    &&& spec_trim(req.email@).len() > 0
    &&& spec_plausible_email(req.email@)
}

/// The identity service; the store handle is injected per call.
#[derive(Debug)]
pub struct UserService;

impl UserService {
    pub fn new() -> (r: Self) {
        UserService
    }

    /// Accepts the request or reports the first violated rule.
    fn validate_user_request(&self, request: &CreateUserRequest) -> (r: Result<(), ApiError>)
        ensures
            r is Ok <==> spec_user_request_valid(request),
            r matches Err(e) ==> e@ is ValidationError,
    {
        let name = trim_str(request.name.as_str());
        if name.as_str().is_empty() {
            return Err(ApiError::validation_error("Name cannot be empty"));
        }
        let email = trim_str(request.email.as_str());
        if email.as_str().is_empty() {
            return Err(ApiError::validation_error("Email cannot be empty"));
        }
        let n = request.email.as_str().unicode_len();
        let mut i: usize = 0;
        while i < n
            invariant
                n == request.email@.len(),
                i <= n,
                spec_trim(request.name@).len() > 0,
                spec_trim(request.email@).len() > 0,
                forall|j: int| 0 <= j < i ==> #[trigger] request.email@[j] != '@',
            decreases n - i,
        {
            if request.email.as_str().get_char(i) == '@' {
                proof {
                    assert(request.email@[i as int] == '@');
                }
                return Ok(());
            }
            i = i + 1;
        }
        Err(ApiError::validation_error("Invalid email format"))
    }

    /// Validates and stores a bare identity.
    pub fn create_user(&self, users: &mut UserRepository, request: CreateUserRequest) -> (r: Result<
        User,
        ApiError,
    >)
        requires
            spec_users_wf(old(users)@),
        ensures
            spec_users_wf(final(users)@),
            r is Err ==> final(users)@ == old(users)@,
            !spec_user_request_valid(&request) ==> (r matches Err(e) && e@ is ValidationError),
            spec_user_request_valid(&request) && spec_email_taken(old(users)@, request.email@) ==> (
            r matches Err(e) && e@ == (ApiErrorView::EmailAlreadyExists { email: request.email@ })),
            spec_user_request_valid(&request) && !spec_email_taken(old(users)@, request.email@)
                ==> match r {
                Ok(u) => {
                    &&& u.name@ == request.name@
                    &&& u.email@ == request.email@
                    &&& !spec_has_user_id(old(users)@, u.id)
                    &&& final(users)@ == old(users)@.push(
                        UserRecordView { user: u@, password_hash: Seq::<char>::empty() },
                    )
                },
                Err(e) => e@ is InternalError,
            },
    {
        self.validate_user_request(&request)?;
        users.create(request)
    }

    /// The identity with this identifier, or `UserNotFound`.
    pub fn get_user(&self, users: &UserRepository, id: u128) -> (r: Result<User, ApiError>)
        ensures
            match r {
                Ok(u) => u.id == id && exists|i: int|
                    0 <= i < users@.len() && #[trigger] users@[i].user == u@,
                Err(e) => !spec_has_user_id(users@, id) && e@ == (ApiErrorView::UserNotFound { id }),
            },
    {
        users.find_by_id(id)
    }

    /// Whether an identity with this identifier is stored.
    pub fn user_exists(&self, users: &UserRepository, id: u128) -> (r: bool)
        ensures
            r == spec_has_user_id(users@, id),
    {
        users.id_exists(id)
    }

    /// How many identities are stored.
    pub fn get_user_count(&self, users: &UserRepository) -> (r: usize)
        ensures
            r == users@.len(),
    {
        users.count()
    }
}

} // verus!
