//! The registration confirmation page, which takes a confirmation or a request to resend it.
use vstd::prelude::*;

verus! {

/// Which confirmation form was posted.
#[derive(Debug, Clone, Copy, PartialEq, Eq)]
pub enum RegisterConfirmPost {
    Confirm,
    Resend,
}

/// A resend when the `resend` flag is present, else a confirmation.
pub fn registerconfirm_post_from_flags(resend: bool) -> (r: RegisterConfirmPost)
    ensures
        r == if resend { RegisterConfirmPost::Resend } else { RegisterConfirmPost::Confirm },
{
    if resend {
        RegisterConfirmPost::Resend
    } else {
        RegisterConfirmPost::Confirm
    }
}

} // verus!
