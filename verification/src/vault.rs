//! Credentials: when a login calls for the password hasher, and what follows
//! from the hasher's answer.
//!
//! The hasher itself stands outside: it derives a salted, memory-hard hash of
//! a password under the server secret, and checks a password against such a
//! hash. Its answers come in as plain values.

use vstd::prelude::*;

use crate::error::Error;
use crate::model::{LoginInfo, User, UserView};

verus! {

/// What a registration makes of the hasher's answer: the hash, or the
/// failure to derive one (`None`). An answer that is the password itself is
/// no hash, and counts as a failure: a record never holds the raw password.
pub open spec fn hash_outcome(derived: Option<String>, password: Seq<char>) -> Result<
    Seq<char>,
    Error,
> {
    match derived {
        Some(hash) => if hash@ == password {
            Err(Error::HashError)
        } else {
            Ok(hash@)
        },
        None => Err(Error::HashError),
    }
}

/// What a registration makes of the hasher's answer.
pub fn accept_hash(derived: Option<String>, password: &String) -> (r: Result<String, Error>)
    ensures
        match hash_outcome(derived, password@) {
            Ok(hash) => r is Ok && r->Ok_0@ == hash,
            Err(e) => r == Err::<String, Error>(e),
        },
{
    match derived {
        Some(hash) => if hash == *password {
            Err(Error::HashError)
        } else {
            Ok(hash)
        },
        None => Err(Error::HashError),
    }
}

/// Whether a login matches a user, given the hasher's verdict on the
/// password: `Some(true)` for a match, `Some(false)` for a mismatch, `None`
/// where the stored hash could not be checked.
///
/// A login under another email matches no user whatever the verdict.
pub open spec fn auth_outcome(user: UserView, email: Seq<char>, verdict: Option<bool>) -> Result<
    bool,
    Error,
> {
    if email != user.email {
        Ok(false)
    } else {
        match verdict {
            Some(matches) => Ok(matches),
            None => Err(Error::HashError),
        }
    }
}

impl User {
    /// Whether the hasher has to be asked at all: only a login under this
    /// user's email can match.
    pub fn needs_password_check(&self, login_info: &LoginInfo) -> (b: bool)
        ensures
            b == (login_info.email@ == self@.email),
    {
        login_info.email == self.email
    }

    /// Whether the login matches this user, given the hasher's verdict on
    /// the password against this user's hash.
    pub fn auth(&self, login_info: &LoginInfo, verdict: Option<bool>) -> (r: Result<bool, Error>)
        ensures
            r == auth_outcome(self@, login_info.email@, verdict),
    {
        if !self.needs_password_check(login_info) {
            return Ok(false);
        }
        match verdict {
            Some(matches) => Ok(matches),
            None => Err(Error::HashError),
        }
    }
}

/// A login matches only under the user's own email and only on the hasher's word.
pub proof fn auth_needs_email_and_password(user: UserView, email: Seq<char>, verdict: Option<bool>)
    ensures
        auth_outcome(user, email, verdict) == Ok::<bool, Error>(true) <==> email == user.email
            && verdict == Some(true),
{
}

} // verus!
