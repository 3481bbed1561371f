//! The login page, which takes a login or a request to recover an account.
use vstd::prelude::*;

verus! {

/// Which login form was posted.
#[derive(Debug, Clone, Copy, PartialEq, Eq)]
pub enum LoginPost {
    Login,
    Recover,
}

/// A recovery when the `recover` flag is present, else a login.
pub fn login_post_from_flags(recover: bool) -> (r: LoginPost)
    ensures
        r == if recover { LoginPost::Recover } else { LoginPost::Login },
{
    if recover {
        LoginPost::Recover
    } else {
        LoginPost::Login
    }
}

} // verus!
