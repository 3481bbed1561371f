//! The user's own page, which takes updates of the user, their bio or their private data.
use vstd::prelude::*;

verus! {

/// Which userhome form was posted.
#[derive(Debug, Clone, Copy, PartialEq, Eq)]
pub enum UserhomePost {
    UserUpdate,
    BioUpdate,
    SensitiveUpdate,
}

/// The bio when the `bio` flag is present, else the private data when `sensitive` is, else
/// the user.
pub fn userhome_post_from_flags(bio: bool, sensitive: bool) -> (r: UserhomePost)
    ensures
        r == if bio {
            UserhomePost::BioUpdate
        } else if sensitive {
            UserhomePost::SensitiveUpdate
        } else {
            UserhomePost::UserUpdate
        },
{
    if bio {
        UserhomePost::BioUpdate
    } else if sensitive {
        UserhomePost::SensitiveUpdate
    } else {
        UserhomePost::UserUpdate
    }
}

} // verus!
