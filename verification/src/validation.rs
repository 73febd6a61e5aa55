//! Input validation for registration and login.
//!
//! The email format is the anchored pattern `local@domain.tld`: a non-empty
//! local part over letters, digits and `. _ % + -`, a non-empty domain over
//! letters, digits, dots and hyphens, and a final label of at least two
//! letters.  `spec_is_valid_email` states that decomposition directly, and
//! `is_valid_email` decides it.

use vstd::prelude::*;

use crate::error::ApiError;
use crate::error::ApiErrorView;
use crate::requests::LoginRequest;
use crate::requests::RegisterRequest;
use crate::text::spec_trim;
use crate::text::trim_str;

verus! {

/// An ASCII letter.
pub open spec fn spec_alpha(c: char) -> bool {
    ('a' <= c && c <= 'z') || ('A' <= c && c <= 'Z')
}

/// A character allowed in the local part of an email address.
pub open spec fn spec_email_local_char(c: char) -> bool {
    spec_alpha(c) || ('0' <= c && c <= '9') || c == '.' || c == '_' || c == '%' || c == '+' || c
        == '-'
}

/// A character allowed in the domain part of an email address.
pub open spec fn spec_email_domain_char(c: char) -> bool {
    spec_alpha(c) || ('0' <= c && c <= '9') || c == '.' || c == '-'
}

/// `s` decomposes as `local@domain.tld` with the separator positions `p`
/// (the `@`) and `q` (the last dot).
pub open spec fn spec_email_split(s: Seq<char>, p: int, q: int) -> bool {
    &&& 1 <= p
    &&& p + 2 <= q
    &&& q + 3 <= s.len()
    &&& s[p] == '@'
    &&& s[q] == '.'
    &&& forall|i: int| 0 <= i < p ==> spec_email_local_char(#[trigger] s[i])
    &&& forall|i: int| p < i < q ==> spec_email_domain_char(#[trigger] s[i])
    &&& forall|i: int| q < i < s.len() ==> spec_alpha(#[trigger] s[i])
}

/// A well-formed email address.
pub open spec fn spec_is_valid_email(s: Seq<char>) -> bool {
    exists|p: int, q: int| spec_email_split(s, p, q)
}

/// A password strong enough to register: at least one upper-case letter,
/// one lower-case letter, and one digit.
pub open spec fn spec_is_strong_password(s: Seq<char>) -> bool {
    &&& exists|i: int| 0 <= i < s.len() && 'A' <= #[trigger] s[i] && s[i] <= 'Z'
    &&& exists|i: int| 0 <= i < s.len() && 'a' <= #[trigger] s[i] && s[i] <= 'z'
    &&& exists|i: int| 0 <= i < s.len() && '0' <= #[trigger] s[i] && s[i] <= '9'
}

fn is_local_char(c: char) -> (r: bool)
    ensures
        r == spec_email_local_char(c),
{
    ('a' <= c && c <= 'z') || ('A' <= c && c <= 'Z') || ('0' <= c && c <= '9') || c == '.' || c
        == '_' || c == '%' || c == '+' || c == '-'
}

fn is_domain_char(c: char) -> (r: bool)
    ensures
        r == spec_email_domain_char(c),
{
    ('a' <= c && c <= 'z') || ('A' <= c && c <= 'Z') || ('0' <= c && c <= '9') || c == '.' || c
        == '-'
}

fn is_alpha_char(c: char) -> (r: bool)
    ensures
        r == spec_alpha(c),
{
    ('a' <= c && c <= 'z') || ('A' <= c && c <= 'Z')
}

/// Validation rules shared by the registration and login paths.
pub struct Validator;

impl Validator {
    /// Decides `spec_is_valid_email` on the trimmed input.
    #[verifier::rlimit(100)]
    pub fn is_valid_email(email: &str) -> (r: bool)
        ensures
            r == spec_is_valid_email(spec_trim(email@)),
    {
        let t = trim_str(email);
        let s = t.as_str();
        let n = s.unicode_len();
        // The `@` of any decomposition is the first `@`: the local part
        // cannot contain one.
        let mut p: usize = 0;
        while p < n && s.get_char(p) != '@'
            invariant
                n == s@.len(),
                p <= n,
                forall|i: int| 0 <= i < p ==> s@[i] != '@',
            decreases n - p,
        {
            p = p + 1;
        }
        if p >= n || p == 0 {
            proof {
                assert forall|pp: int, qq: int| !(#[trigger] spec_email_split(s@, pp, qq)) by {
                    if spec_email_split(s@, pp, qq) {
                        assert(0 <= pp < s@.len());
                        assert(s@[pp] == '@');
                        if p >= n {
                            assert(false);
                        } else {
                            assert(s@[0] == '@');
                            if pp >= 1 {
                                assert(spec_email_local_char(s@[0]));
                            }
                            assert(false);
                        }
                    }
                }
            }
            return false;
        }
        // Every character before the `@` must be a local-part character.
        let mut i: usize = 0;
        while i < p
            invariant
                s@ == spec_trim(email@),
                n == s@.len(),
                p < n,
                s@[p as int] == '@',
                forall|k: int| 0 <= k < p ==> s@[k] != '@',
                i <= p,
                forall|k: int| 0 <= k < i ==> spec_email_local_char(#[trigger] s@[k]),
            decreases p - i,
        {
            if !is_local_char(s.get_char(i)) {
                proof {
                    lemma_split_at_first(s@, p as int);
                    assert forall|pp: int, qq: int| !(#[trigger] spec_email_split(s@, pp, qq)) by {
                        if spec_email_split(s@, pp, qq) {
                            assert(pp == p);
                            assert(spec_email_local_char(s@[i as int]));
                            assert(false);
                        }
                    }
                }
                return false;
            }
            i = i + 1;
        }
        // The dot before the final label is the last dot of the string:
        // the final label is all letters.
        let mut q: usize = 0;
        let mut has_dot: bool = false;
        let mut k: usize = 0;
        while k < n
            invariant
                n == s@.len(),
                k <= n,
                !has_dot ==> forall|j: int| 0 <= j < k ==> s@[j] != '.',
                has_dot ==> q < k && s@[q as int] == '.' && forall|j: int|
                    q < j < k ==> s@[j] != '.',
            decreases n - k,
        {
            if s.get_char(k) == '.' {
                q = k;
                has_dot = true;
            }
            k = k + 1;
        }
        let ok: bool = has_dot && q >= 2 && q - 2 >= p && n - q >= 3;
        if !ok {
            proof {
                lemma_split_at_first(s@, p as int);
                assert forall|pp: int, qq: int| !(#[trigger] spec_email_split(s@, pp, qq)) by {
                    if spec_email_split(s@, pp, qq) {
                        assert(pp == p);
                        assert(s@[qq] == '.');
                        if has_dot {
                            if qq < q {
                                assert(spec_alpha(s@[q as int]));
                            }
                            assert(qq == q);
                        }
                        assert(false);
                    }
                }
            }
            return false;
        }
        // Domain characters between `@` and the last dot.
        let mut j: usize = p + 1;
        while j < q
            invariant
                s@ == spec_trim(email@),
                n == s@.len(),
                p < n,
                s@[p as int] == '@',
                forall|k2: int| 0 <= k2 < p ==> s@[k2] != '@',
                q < n,
                s@[q as int] == '.',
                forall|k2: int| q < k2 < n ==> s@[k2] != '.',
                p + 2 <= q,
                n >= q + 3,
                p < j <= q,
                forall|k2: int| p < k2 < j ==> spec_email_domain_char(#[trigger] s@[k2]),
            decreases q - j,
        {
            if !is_domain_char(s.get_char(j)) {
                proof {
                    lemma_split_at_first(s@, p as int);
                    assert forall|pp: int, qq: int| !(#[trigger] spec_email_split(s@, pp, qq)) by {
                        if spec_email_split(s@, pp, qq) {
                            assert(pp == p);
                            if qq < q {
                                assert(spec_alpha(s@[q as int]));
                            }
                            assert(qq == q);
                            assert(spec_email_domain_char(s@[j as int]));
                            assert(false);
                        }
                    }
                }
                return false;
            }
            j = j + 1;
        }
        // Letters after the last dot.
        let mut m: usize = q + 1;
        while m < n
            invariant
                s@ == spec_trim(email@),
                n == s@.len(),
                p < n,
                s@[p as int] == '@',
                forall|k2: int| 0 <= k2 < p ==> s@[k2] != '@',
                q < n,
                s@[q as int] == '.',
                forall|k2: int| q < k2 < n ==> s@[k2] != '.',
                p + 2 <= q,
                n >= q + 3,
                q < m <= n,
                forall|k2: int| q < k2 < m ==> spec_alpha(#[trigger] s@[k2]),
            decreases n - m,
        {
            if !is_alpha_char(s.get_char(m)) {
                proof {
                    lemma_split_at_first(s@, p as int);
                    assert forall|pp: int, qq: int| !(#[trigger] spec_email_split(s@, pp, qq)) by {
                        if spec_email_split(s@, pp, qq) {
                            assert(pp == p);
                            if qq < q {
                                assert(spec_alpha(s@[q as int]));
                            }
                            assert(qq == q);
                            assert(spec_alpha(s@[m as int]));
                            assert(false);
                        }
                    }
                }
                return false;
            }
            m = m + 1;
        }
        proof {
            assert(spec_email_split(s@, p as int, q as int));
        }
        true
    }

    /// Decides `spec_is_strong_password`.
    pub fn is_strong_password(password: &str) -> (r: bool)
        ensures
            r == spec_is_strong_password(password@),
    {
        let n = password.unicode_len();
        let mut has_upper: bool = false;
        let mut has_lower: bool = false;
        let mut has_digit: bool = false;
        let mut i: usize = 0;
        while i < n
            invariant
                n == password@.len(),
                i <= n,
                has_upper == exists|j: int|
                    0 <= j < i && 'A' <= #[trigger] password@[j] && password@[j] <= 'Z',
                has_lower == exists|j: int|
                    0 <= j < i && 'a' <= #[trigger] password@[j] && password@[j] <= 'z',
                has_digit == exists|j: int|
                    0 <= j < i && '0' <= #[trigger] password@[j] && password@[j] <= '9',
            decreases n - i,
        {
            let c = password.get_char(i);
            if 'A' <= c && c <= 'Z' {
                has_upper = true;
            }
            if 'a' <= c && c <= 'z' {
                has_lower = true;
            }
            if '0' <= c && c <= '9' {
                has_digit = true;
            }
            i = i + 1;
        }
        has_upper && has_lower && has_digit
    }

    /// Accepts a registration request or reports the first violated rule.
    pub fn validate_register_request(req: &RegisterRequest) -> (r: Result<(), ApiError>)
        ensures
            r is Ok <==> {
                &&& spec_trim(req.name@).len() >= 2
                &&& spec_trim(req.name@).len() <= 100
                &&& spec_trim(req.email@).len() > 0
                &&& spec_is_valid_email(spec_trim(req.email@))
                &&& req.email@.len() <= 255
                &&& 8 <= req.password@.len() <= 128
                &&& spec_is_strong_password(req.password@)
            },
            r matches Err(e) ==> e@ == ApiErrorView::ValidationError(
                {
                    if spec_trim(req.name@).len() == 0 {
                        "Name is required and cannot be empty"@
                    } else if spec_trim(req.name@).len() < 2 {
                        "Name must be at least 2 characters long"@
                    } else if spec_trim(req.name@).len() > 100 {
                        "Name cannot exceed 100 characters"@
                    } else if spec_trim(req.email@).len() == 0 {
                        "Email is required and cannot be empty"@
                    } else if !spec_is_valid_email(spec_trim(req.email@)) {
                        "Please provide a valid email address"@
                    } else if req.email@.len() > 255 {
                        "Email cannot exceed 255 characters"@
                    } else if req.password@.len() == 0 {
                        "Password is required and cannot be empty"@
                    } else if req.password@.len() < 8 {
                        "Password must be at least 8 characters long"@
                    } else if req.password@.len() > 128 {
                        "Password cannot exceed 128 characters"@
                    } else {
                        "Password must contain at least one uppercase letter, one lowercase letter, and one number"@
                    }
                },
            ),
    {
        let name = trim_str(req.name.as_str());
        if name.as_str().is_empty() {
            return Err(ApiError::validation_error("Name is required and cannot be empty"));
        }
        if name.as_str().unicode_len() < 2 {
            return Err(ApiError::validation_error("Name must be at least 2 characters long"));
        }
        if name.as_str().unicode_len() > 100 {
            return Err(ApiError::validation_error("Name cannot exceed 100 characters"));
        }
        let email = trim_str(req.email.as_str());
        if email.as_str().is_empty() {
            return Err(ApiError::validation_error("Email is required and cannot be empty"));
        }
        if !Self::is_valid_email(req.email.as_str()) {
            return Err(ApiError::validation_error("Please provide a valid email address"));
        }
        if req.email.as_str().unicode_len() > 255 {
            return Err(ApiError::validation_error("Email cannot exceed 255 characters"));
        }
        if req.password.as_str().is_empty() {
            return Err(ApiError::validation_error("Password is required and cannot be empty"));
        }
        if req.password.as_str().unicode_len() < 8 {
            return Err(ApiError::validation_error("Password must be at least 8 characters long"));
        }
        if req.password.as_str().unicode_len() > 128 {
            return Err(ApiError::validation_error("Password cannot exceed 128 characters"));
        }
        if !Self::is_strong_password(req.password.as_str()) {
            return Err(
                ApiError::validation_error(
                    "Password must contain at least one uppercase letter, one lowercase letter, and one number",
                ),
            );
        }
        Ok(())
    }

    /// Accepts a login request or reports the first violated rule.
    pub fn validate_login_request(req: &LoginRequest) -> (r: Result<(), ApiError>)
        ensures
            r is Ok <==> {
                &&& spec_trim(req.email@).len() > 0
                &&& spec_is_valid_email(spec_trim(req.email@))
                &&& req.password@.len() > 0
            },
            r matches Err(e) ==> e@ == ApiErrorView::ValidationError(
                {
                    if spec_trim(req.email@).len() == 0 {
                        "Email is required and cannot be empty"@
                    } else if !spec_is_valid_email(spec_trim(req.email@)) {
                        "Please provide a valid email address"@
                    } else {
                        "Password is required and cannot be empty"@
                    }
                },
            ),
    {
        let email = trim_str(req.email.as_str());
        if email.as_str().is_empty() {
            return Err(ApiError::validation_error("Email is required and cannot be empty"));
        }
        if !Self::is_valid_email(req.email.as_str()) {
            return Err(ApiError::validation_error("Please provide a valid email address"));
        }
        if req.password.as_str().is_empty() {
            return Err(ApiError::validation_error("Password is required and cannot be empty"));
        }
        Ok(())
    }
}

/// In any decomposition of `s`, the separator is the first `@`.
proof fn lemma_split_at_first(s: Seq<char>, p: int)
    requires
        0 <= p < s.len(),
        s[p] == '@',
        forall|i: int| 0 <= i < p ==> s[i] != '@',
    ensures
        forall|pp: int, qq: int| #[trigger] spec_email_split(s, pp, qq) ==> pp == p,
{
    assert forall|pp: int, qq: int| #[trigger] spec_email_split(s, pp, qq) implies pp == p by {
        if pp < p {
            assert(s[pp] == '@');
            assert(false);
        }
        if p < pp {
            assert(spec_email_local_char(s[p]));
            assert(false);
        }
    }
}

} // verus!
