//! The credential store: identities and their credential hashes, with
//! unique identifiers and unique emails.

use vstd::prelude::*;

use crate::error::ApiError;
use crate::error::ApiErrorView;
use crate::ids::new_uuid;
use crate::ids::now_timestamp;
use crate::text::str_eq;
use crate::user::CreateUserRequest;
use crate::user::User;
use crate::user::UserRole;
use crate::user::UserView;

verus! {

/// One stored identity beside its credential hash.
#[derive(Debug)]
pub struct UserRecord {
    pub user: User,
    pub password_hash: String,
}

/// The mathematical value of one stored identity.
pub ghost struct UserRecordView {
    pub user: UserView,
    pub password_hash: Seq<char>,
}

impl View for UserRecord {
    type V = UserRecordView;

    open spec fn view(&self) -> UserRecordView {
        UserRecordView { user: self.user@, password_hash: self.password_hash@ }
    }
}

/// Some stored identity carries this email.
pub open spec fn spec_email_taken(s: Seq<UserRecordView>, email: Seq<char>) -> bool {
    exists|i: int| 0 <= i < s.len() && #[trigger] s[i].user.email == email
}

/// Some stored identity carries this identifier.
pub open spec fn spec_has_user_id(s: Seq<UserRecordView>, id: u128) -> bool {
    exists|i: int| 0 <= i < s.len() && #[trigger] s[i].user.id == id
}

/// The store's invariant: identifiers and emails are unique.
pub open spec fn spec_users_wf(s: Seq<UserRecordView>) -> bool {
    &&& forall|i: int, j: int|
        0 <= i < s.len() && 0 <= j < s.len() && i != j ==> #[trigger] s[i].user.id
            != #[trigger] s[j].user.id
    &&& forall|i: int, j: int|
        0 <= i < s.len() && 0 <= j < s.len() && i != j ==> #[trigger] s[i].user.email
            != #[trigger] s[j].user.email
}

/// The credential store.  In a deployment this state lives in the
/// relational database; here it is the store's verified model, and the
/// process boundary hands it plain rows.
#[derive(Debug)]
pub struct UserRepository {
    pub users: Vec<UserRecord>,
}

impl View for UserRepository {
    type V = Seq<UserRecordView>;

    open spec fn view(&self) -> Seq<UserRecordView> {
        self.users@.map_values(|r: UserRecord| r@)
    }
}

impl UserRepository {
    /// An empty store.
    pub fn new() -> (r: Self)
        ensures
            r@ == Seq::<UserRecordView>::empty(),
            spec_users_wf(r@),
    {
        let r = UserRepository { users: Vec::new() };
        proof {
            assert(r@ =~= Seq::<UserRecordView>::empty());
        }
        r
    }

    /// The index of the identity carrying this email, if any.
    fn email_index(&self, email: &str) -> (r: Option<usize>)
        ensures
            match r {
                Some(i) => i < self@.len() && self@[i as int].user.email == email@,
                None => !spec_email_taken(self@, email@),
            },
    {
        let mut i: usize = 0;
        while i < self.users.len()
            invariant
                i <= self@.len(),
                self@.len() == self.users@.len(),
                forall|j: int| 0 <= j < i ==> #[trigger] self@[j].user.email != email@,
            decreases self@.len() - i,
        {
            if str_eq(self.users[i].user.email.as_str(), email) {
                return Some(i);
            }
            i = i + 1;
        }
        None
    }

    /// Whether an identity with this identifier is stored.
    pub fn id_exists(&self, id: u128) -> (r: bool)
        ensures
            r == spec_has_user_id(self@, id),
    {
        let mut i: usize = 0;
        while i < self.users.len()
            invariant
                i <= self@.len(),
                self@.len() == self.users@.len(),
                forall|j: int| 0 <= j < i ==> #[trigger] self@[j].user.id != id,
            decreases self@.len() - i,
        {
            if self.users[i].user.id == id {
                proof {
                    assert(self@[i as int].user.id == id);
                }
                return true;
            }
            i = i + 1;
        }
        false
    }

    /// Stores a new identity with its credential hash.  Fails with
    /// `EmailAlreadyExists` when the email is taken; the freshly drawn
    /// identifier colliding with a stored one surfaces as the store-level
    /// `InternalError`, as any insert fault would.
    pub fn create_with_password_hash(
        &mut self,
        name: String,
        email: String,
        password_hash: String,
    ) -> (r: Result<User, ApiError>)
        requires
            spec_users_wf(old(self)@),
        ensures
            spec_users_wf(final(self)@),
            spec_email_taken(old(self)@, email@) ==> final(self)@ == old(self)@ && (r matches Err(e)
                && e@ == (ApiErrorView::EmailAlreadyExists { email: email@ })),
            !spec_email_taken(old(self)@, email@) ==> match r {
                Ok(u) => {
                    &&& u.name@ == name@
                    &&& u.email@ == email@
                    &&& u.role == UserRole::User
                    &&& !spec_has_user_id(old(self)@, u.id)
                    &&& final(self)@ == old(self)@.push(
                        UserRecordView { user: u@, password_hash: password_hash@ },
                    )
                },
                Err(e) => e@ is InternalError && final(self)@ == old(self)@,
            },
    {
        if self.email_index(email.as_str()).is_some() {
            return Err(ApiError::EmailAlreadyExists { email });
        }
        let id = new_uuid();
        if self.id_exists(id) {
            return Err(ApiError::internal_error("identifier collision on insert"));
        }
        let now = now_timestamp();
        let user = User { id, name, email, role: UserRole::User, created_at: now };
        let record = UserRecord { user: user.clone(), password_hash };
        let ghost old_view = self@;
        self.users.push(record);
        proof {
            assert(self@ =~= old_view.push(record@));
            assert forall|i: int, j: int|
                0 <= i < self@.len() && 0 <= j < self@.len() && i != j implies #[trigger] self@[i].user.id
                != #[trigger] self@[j].user.id by {
                if i < old_view.len() && j < old_view.len() {
                } else if j == old_view.len() {
                    assert(self@[j].user.id == id);
                } else {
                    assert(self@[i].user.id == id);
                }
            }
            assert forall|i: int, j: int|
                0 <= i < self@.len() && 0 <= j < self@.len() && i
                    != j implies #[trigger] self@[i].user.email != #[trigger] self@[j].user.email by {
                if i < old_view.len() && j < old_view.len() {
                } else if j == old_view.len() {
                    assert(self@[j].user.email == self@[i].user.email ==> spec_email_taken(
                        old_view,
                        self@[j].user.email,
                    ));
                } else {
                    assert(self@[i].user.email == self@[j].user.email ==> spec_email_taken(
                        old_view,
                        self@[i].user.email,
                    ));
                }
            }
        }
        Ok(user)
    }

    /// Stores a bare identity with an empty credential hash, the
    /// administrative creation path.
    pub fn create(&mut self, request: CreateUserRequest) -> (r: Result<User, ApiError>)
        requires
            spec_users_wf(old(self)@),
        ensures
            spec_users_wf(final(self)@),
            spec_email_taken(old(self)@, request.email@) ==> final(self)@ == old(self)@ && (
            r matches Err(e) && e@ == (ApiErrorView::EmailAlreadyExists { email: request.email@ })),
            !spec_email_taken(old(self)@, request.email@) ==> match r {
                Ok(u) => {
                    &&& u.name@ == request.name@
                    &&& u.email@ == request.email@
                    &&& u.role == UserRole::User
                    &&& !spec_has_user_id(old(self)@, u.id)
                    &&& final(self)@ == old(self)@.push(
                        UserRecordView { user: u@, password_hash: Seq::<char>::empty() },
                    )
                },
                Err(e) => e@ is InternalError && final(self)@ == old(self)@,
            },
    {
        let r = self.create_with_password_hash(request.name, request.email, String::new());
        r
    }

    /// The identity carrying this email, beside its credential hash.
    pub fn find_auth_by_email(&self, email: &str) -> (r: Option<(User, String)>)
        ensures
            match r {
                Some(p) => exists|i: int|
                    0 <= i < self@.len() && #[trigger] self@[i] == (UserRecordView {
                        user: p.0@,
                        password_hash: p.1@,
                    }) && p.0.email@ == email@,
                None => !spec_email_taken(self@, email@),
            },
    {
        match self.email_index(email) {
            Some(i) => {
                let rec = &self.users[i];
                let r = Some((rec.user.clone(), rec.password_hash.clone()));
                proof {
                    assert(self@[i as int] == (UserRecordView {
                        user: rec.user@,
                        password_hash: rec.password_hash@,
                    }));
                }
                r
            },
            None => None,
        }
    }

    /// The identity with this identifier, or `UserNotFound`.
    pub fn find_by_id(&self, id: u128) -> (r: Result<User, ApiError>)
        ensures
            match r {
                Ok(u) => u.id == id && exists|i: int|
                    0 <= i < self@.len() && #[trigger] self@[i].user == u@,
                Err(e) => !spec_has_user_id(self@, id) && e@ == (ApiErrorView::UserNotFound { id }),
            },
    {
        let mut i: usize = 0;
        while i < self.users.len()
            invariant
                i <= self@.len(),
                self@.len() == self.users@.len(),
                forall|j: int| 0 <= j < i ==> #[trigger] self@[j].user.id != id,
            decreases self@.len() - i,
        {
            if self.users[i].user.id == id {
                let u = self.users[i].user.clone();
                proof {
                    assert(self@[i as int].user == u@);
                }
                return Ok(u);
            }
            i = i + 1;
        }
        Err(ApiError::UserNotFound { id })
    }

    /// How many identities are stored.
    pub fn count(&self) -> (r: usize)
        ensures
            r == self@.len(),
    {
        self.users.len()
    }
}

} // verus!
