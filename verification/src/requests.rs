//! Request and response shapes of the registration and login flow.

use vstd::prelude::*;

verus! {

/// A registration request: name, email, and the plain password to hash.
#[derive(Debug)]
pub struct RegisterRequest {
    pub name: String,
    pub email: String,
    pub password: String,
}

impl Clone for RegisterRequest {
    fn clone(&self) -> (res: Self)
        ensures
            res.name@ == self.name@,
            res.email@ == self.email@,
            res.password@ == self.password@,
    {
        RegisterRequest {
            name: self.name.clone(),
            email: self.email.clone(),
            password: self.password.clone(),
        }
    }
}

/// A login request: email and the password to verify.
#[derive(Debug)]
pub struct LoginRequest {
    pub email: String,
    pub password: String,
}

impl Clone for LoginRequest {
    fn clone(&self) -> (res: Self)
        ensures
            res.email@ == self.email@,
            res.password@ == self.password@,
    {
        LoginRequest { email: self.email.clone(), password: self.password.clone() }
    }
}

/// A successful login's payload: the signed token.
#[derive(Debug)]
pub struct TokenResponse {
    pub token: String,
}

impl Clone for TokenResponse {
    fn clone(&self) -> (res: Self)
        ensures
            res.token@ == self.token@,
    {
        TokenResponse { token: self.token.clone() }
    }
}

} // verus!
