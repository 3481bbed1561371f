//! The admin page, which takes several forms at one address.
use vstd::prelude::*;

verus! {

/// Which admin form was posted: the front page, the custom documentation, or the alert.
#[derive(Debug, Clone, Copy, PartialEq, Eq)]
pub enum AdminPost {
    Frontpage,
    DocsCustom,
    Alert,
}

/// The form the query flags name: `frontpage`, then `docscustom`, then `alert`; none
/// without any of them (the post is refused).
pub fn admin_post_from_flags(frontpage: bool, docscustom: bool, alert: bool) -> (r: Option<AdminPost>)
    ensures
        r == if frontpage {
            Some(AdminPost::Frontpage)
        } else if docscustom {
            Some(AdminPost::DocsCustom)
        } else if alert {
            Some(AdminPost::Alert)
        } else {
            None
        },
{
    if frontpage {
        Some(AdminPost::Frontpage)
    } else if docscustom {
        Some(AdminPost::DocsCustom)
    } else if alert {
        Some(AdminPost::Alert)
    } else {
        None
    }
}

} // verus!
