//! Forms posted by users.
use vstd::prelude::*;

verus! {

/// The login form.
#[derive(Debug, Clone)]
pub struct Login {
    pub username: String,
    pub password: String,
    pub long_session: bool,
}

/// The registration form.
#[derive(Debug, Clone)]
pub struct Register {
    pub username: String,
    pub password: String,
    pub email: String,
}

/// The registration confirmation form.
#[derive(Debug, Clone)]
pub struct RegisterConfirm {
    pub email: String,
    pub key: String,
}

/// The form asking to send the registration email again.
#[derive(Debug, Clone)]
pub struct RegisterResend {
    pub email: String,
}

} // verus!
