//! Parameters of the forum routes.
use vstd::prelude::*;

use crate::routing::{ForumRoute, forum_route_spec};

verus! {

/// The query of `GET /forum`, which carries the legacy identifiers too.
#[derive(Debug, Clone)]
pub struct ForumFullQuery {
    pub fcid: Option<i64>,
    pub ftid: Option<i64>,
    pub fpid: Option<i64>,
    pub page: Option<i32>,
}

impl ForumFullQuery {
    /// Decide where the request goes: post, then thread, then category, then the main view.
    pub fn route(&self) -> (r: ForumRoute)
        ensures
            r == forum_route_spec(crate::routing::ForumFullQuery {
                fcid: self.fcid,
                ftid: self.ftid,
                fpid: self.fpid,
                page: self.page,
            }),
    {
        crate::routing::forum_route(
            &crate::routing::ForumFullQuery { fcid: self.fcid, ftid: self.ftid, fpid: self.fpid, page: self.page },
        )
    }
}

/// Which thread form to show: a new thread in `category`, or an edit of `thread`.
#[derive(Debug, Clone)]
pub struct ThreadEditParameter {
    pub category: Option<String>,
    pub thread: Option<String>,
}

/// Which post form to show: an edit of `post`, or a new post in `thread` (possibly a reply).
#[derive(Debug, Clone)]
pub struct PostEditParameters {
    pub post: Option<i64>,
    pub thread: Option<String>,
    pub reply: Option<i64>,
    pub widget: Option<bool>,
}

} // verus!
