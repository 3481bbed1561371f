//! Deciding which page a request goes to.
pub mod admin;
pub mod forum;
pub mod login;
pub mod page;
pub mod registerconfirm;
pub mod user;
pub mod userhome;

use vstd::prelude::*;

verus! {

/// The query of `GET /forum`, which carries the legacy identifiers too.
#[derive(Debug, Clone)]
pub struct ForumFullQuery {
    pub fcid: Option<i64>,
    pub ftid: Option<i64>,
    pub fpid: Option<i64>,
    pub page: Option<i32>,
}

/// Where a forum request goes.
#[derive(Debug, Clone, PartialEq, Eq)]
pub enum ForumRoute {
    /// A legacy forum post id: redirect to the post.
    Post(i64),
    /// A legacy forum thread id: redirect to the thread (at the given page).
    Thread(i64, Option<i32>),
    /// A legacy forum category id: the category's thread list (at the given page).
    Category(i64, Option<i32>),
    /// The main forum view.
    Main,
}

/// The most precise identifier wins: post, then thread, then category; without any, the main view.
pub open spec fn forum_route_spec(q: ForumFullQuery) -> ForumRoute {
    match q.fpid {
        Some(fpid) => ForumRoute::Post(fpid),
        None => match q.ftid {
            Some(ftid) => ForumRoute::Thread(ftid, q.page),
            None => match q.fcid {
                Some(fcid) => ForumRoute::Category(fcid, q.page),
                None => ForumRoute::Main,
            },
        },
    }
}

/// Decide where `GET /forum` goes.
pub fn forum_route(query: &ForumFullQuery) -> (r: ForumRoute)
    ensures
        r == forum_route_spec(*query),
{
    if let Some(fpid) = query.fpid {
        ForumRoute::Post(fpid)
    } else if let Some(ftid) = query.ftid {
        ForumRoute::Thread(ftid, query.page)
    } else if let Some(fcid) = query.fcid {
        ForumRoute::Category(fcid, query.page)
    } else {
        ForumRoute::Main
    }
}

} // verus!
