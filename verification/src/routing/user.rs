//! A user's page, which takes the forms admins use on users.
use vstd::prelude::*;

verus! {

/// Which user form was posted.
#[derive(Debug, Clone, Copy, PartialEq, Eq)]
pub enum UserPost {
    Ban,
    Unban,
    UserInfo,
}

/// The form the query flags name: `ban`, then `unban`, then `userinfo`; none without any of
/// them (the post is refused).
pub fn user_post_from_flags(ban: bool, unban: bool, userinfo: bool) -> (r: Option<UserPost>)
    ensures
        r == if ban {
            Some(UserPost::Ban)
        } else if unban {
            Some(UserPost::Unban)
        } else if userinfo {
            Some(UserPost::UserInfo)
        } else {
            None
        },
{
    if ban {
        Some(UserPost::Ban)
    } else if unban {
        Some(UserPost::Unban)
    } else if userinfo {
        Some(UserPost::UserInfo)
    } else {
        None
    }
}

} // verus!
