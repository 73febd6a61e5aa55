//! Identities: role, user record, and the registration request shape.

use vstd::prelude::*;

verus! {

/// The role an identity carries; `User` is the default at registration.
#[derive(Clone, Copy, Debug, PartialEq, Eq, Structural)]
pub enum UserRole {
    User,
    Admin,
}

/// The text form of a role, as it is stored inside a token.
pub open spec fn spec_role_str(r: UserRole) -> Seq<char> {
    match r {
        UserRole::User => "user"@,
        UserRole::Admin => "admin"@,
    }
}

/// The role a token's text names, if it is recognized.
pub open spec fn spec_parse_role(s: Seq<char>) -> Option<UserRole> {
    if s == "user"@ {
        Some(UserRole::User)
    } else if s == "admin"@ {
        Some(UserRole::Admin)
    } else {
        None
    }
}

/// Exec counterpart of `spec_role_str`.
pub fn role_to_string(r: UserRole) -> (s: String)
    ensures
        s@ == spec_role_str(r),
{
    match r {
        UserRole::User => String::from_str("user"),
        UserRole::Admin => String::from_str("admin"),
    }
}

/// Exec counterpart of `spec_parse_role`.
pub fn parse_role(s: &str) -> (r: Option<UserRole>)
    ensures
        r == spec_parse_role(s@),
{
    if crate::text::str_eq(s, "user") {
        Some(UserRole::User)
    } else if crate::text::str_eq(s, "admin") {
        Some(UserRole::Admin)
    } else {
        None
    }
}

/// The mathematical value of a stored identity.
pub ghost struct UserView {
    pub id: u128,
    pub name: Seq<char>,
    pub email: Seq<char>,
    pub role: UserRole,
    pub created_at: i64,
}

/// A stored identity.  The credential hash is kept beside it by the
/// repository, never inside this record.
#[derive(Debug)]
pub struct User {
    pub id: u128,
    pub name: String,
    pub email: String,
    pub role: UserRole,
    pub created_at: i64,
}

impl User {
    /// A fresh identity: new identifier, role `User`, created now.
    pub fn new(name: String, email: String) -> (r: Self)
        ensures
            r.name@ == name@,
            r.email@ == email@,
            r.role == UserRole::User,
    {
        User {
            id: crate::ids::new_uuid(),
            name,
            email,
            role: UserRole::User,
            created_at: crate::ids::now_timestamp(),
        }
    }
}

impl View for User {
    type V = UserView;

    open spec fn view(&self) -> UserView {
        UserView {
            id: self.id,
            name: self.name@,
            email: self.email@,
            role: self.role,
            created_at: self.created_at,
        }
    }
}

impl Clone for User {
    fn clone(&self) -> (res: Self)
        ensures
            res@ == self@,
    {
        User {
            id: self.id,
            name: self.name.clone(),
            email: self.email.clone(),
            role: self.role,
            created_at: self.created_at,
        }
    }
}

/// A request to create a bare identity (the administrative path, which
/// stores no credential).
#[derive(Debug)]
pub struct CreateUserRequest {
    pub name: String,
    pub email: String,
}

impl Clone for CreateUserRequest {
    fn clone(&self) -> (res: Self)
        ensures
            res.name@ == self.name@,
            res.email@ == self.email@,
    {
        CreateUserRequest { name: self.name.clone(), email: self.email.clone() }
    }
}

} // verus!
