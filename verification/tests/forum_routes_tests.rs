use sbs_frontend::api_data::{Content, FullRequest, RequestValue};
use sbs_frontend::routes::forums::{
    category_order_position, forum_pagelist, get_category_request, get_prepost_request,
    get_thread_request, CleanedPreCategory, ForumPathItem, Keygen,
};
use sbs_frontend::routing::{forum_route, ForumFullQuery, ForumRoute};

fn text_value(r: &FullRequest, i: usize) -> (&str, String) {
    let (k, v) = &r.values[i];
    let s = match v {
        RequestValue::Text(t) => t.clone(),
        RequestValue::Int(n) => format!("#{}", n),
        RequestValue::Ints(v) => format!("{:?}", v),
    };
    (k.as_str(), s)
}

#[test]
fn keys() {
    assert_eq!(Keygen::threadcount(5), "threadcount_5");
    assert_eq!(Keygen::threads(-2), "threads_-2");
    assert_eq!(Keygen::stickythreads(10), "stickythreads_10");
    assert_eq!(Keygen::stickies(0), "stickies_0");
}

#[test]
fn path_items() {
    let r = ForumPathItem::root();
    assert_eq!((r.link.as_str(), r.title.as_str()), ("/forum", "Root"));
    let content = Content { hash: Some(String::from("h")), ..Content::default() };
    let c = ForumPathItem::from_category(&content);
    assert_eq!((c.link.as_str(), c.title.as_str()), ("/forum/category/h", "NOTFOUND"));
}

#[test]
fn category_requests() {
    let r = get_category_request(None, None);
    assert_eq!(text_value(&r, 0), ("category_literal", String::from("forumcategory")));
    assert_eq!(r.requests.len(), 1);
    assert_eq!(r.requests[0].name.as_deref(), Some("category"));
    assert_eq!(r.requests[0].fields, "category");
    assert_eq!(r.requests[0].query.as_deref(), Some("literalType = @category_literal and !notdeleted()"));
    let r = get_category_request(Some(String::from("hh")), Some(3));
    assert_eq!(r.values.len(), 2);
    assert_eq!(r.requests[0].query.as_deref(), Some("literalType = @category_literal and !notdeleted() and hash = @hash"));
    let r = get_category_request(None, Some(3));
    assert_eq!(text_value(&r, 2), ("fcid", String::from("#3")));
    assert!(r.requests[0].query.as_deref().unwrap().ends_with(" and !valuelike(@fcid_key, @fcid)"));
}

#[test]
fn prepost_requests() {
    let r = get_prepost_request(None, None, None, Some(String::from("hh")));
    assert_eq!(r.requests.len(), 2);
    assert_eq!(r.requests[0].name.as_deref(), Some("thread"));
    assert_eq!(r.requests[0].query.as_deref(), Some("literalType = @thread_literal and !notdeleted() and hash = @hash"));
    assert_eq!(r.requests[1].query.as_deref(), Some("literalType = @category_literal and !notdeleted() and id in @thread.parentId"));
    let r = get_prepost_request(Some(1), Some(2), Some(3), None);
    assert_eq!(r.requests.len(), 3);
    assert_eq!(r.requests[0].name.as_deref(), Some("premessage"));
    assert_eq!(r.requests[0].query.as_deref(), Some("!basiccomments() and !valuelike(@fpidkey, @fpid) and id = @postId"));
    assert_eq!(
        r.requests[1].query.as_deref(),
        Some("literalType = @thread_literal and !notdeleted() and id in @premessage.contentId and !valuelike(@ftidkey, @ftid)")
    );
    assert_eq!(r.values.len(), 7);
}

#[test]
fn thread_requests() {
    let cats = vec![
        CleanedPreCategory { category: Content::default(), id: 1, name: String::from("a"), stickies: vec![7] },
        CleanedPreCategory { category: Content::default(), id: 2, name: String::from("b"), stickies: vec![] },
    ];
    let r = get_thread_request(&cats, 10, 0);
    assert_eq!(r.values.len(), 3);
    assert_eq!(text_value(&r, 1), ("stickies_1", String::from("[7]")));
    assert_eq!(r.requests.len(), 8);
    assert_eq!(r.requests[0].name.as_deref(), Some("threads_1"));
    assert_eq!(
        r.requests[0].query.as_deref(),
        Some("parentId = {{1}} and literalType = @thread_literal and !notdeleted() and id not in @stickies_1")
    );
    assert_eq!(r.requests[0].order.as_deref(), Some("lastCommentId_desc"));
    assert_eq!((r.requests[0].limit, r.requests[0].skip), (10, 0));
    assert_eq!(r.requests[1].name.as_deref(), Some("stickythreads_1"));
    assert_eq!(r.requests[2].name.as_deref(), Some("threadcount_1"));
    assert_eq!(
        r.requests[6].query.as_deref(),
        Some("!basiccomments() and (id in @threads_1.lastCommentId or id in @stickythreads_1.lastCommentId or id in @threads_2.lastCommentId or id in @stickythreads_2.lastCommentId)")
    );
    assert_eq!(
        r.requests[7].query.as_deref(),
        Some("!notdeleted() and (id in @message.createUserId or id in @threads_1.createUserId or id in @stickythreads_1.createUserId or id in @threads_2.createUserId or id in @stickythreads_2.createUserId)")
    );
    let r = get_thread_request(&cats, 10, 10);
    assert_eq!(r.requests.len(), 6);
    let r = get_thread_request(&Vec::new(), 10, 0);
    assert_eq!(r.requests[0].query.as_deref(), Some("!basiccomments() and ()"));
}

#[test]
fn pagelists() {
    let p = forum_pagelist(25, 10, 1);
    assert_eq!(p.len(), 3);
    assert_eq!(p.iter().map(|i| i.text.as_str()).collect::<Vec<_>>(), vec!["1", "2", "3"]);
    assert_eq!(p.iter().filter(|i| i.current).count(), 1);
    assert!(p[1].current);
    assert_eq!(forum_pagelist(20, 10, 0).len(), 2);
    assert!(forum_pagelist(0, 10, 0).is_empty());
    assert!(forum_pagelist(-5, 10, 0).is_empty());
}

#[test]
fn category_positions() {
    let order = vec![String::from("News"), String::from("Help")];
    assert_eq!(category_order_position(&order, "Help me"), 1);
    assert_eq!(category_order_position(&order, "News and updates"), 0);
    assert_eq!(category_order_position(&order, "Other"), usize::MAX);
}

#[test]
fn forum_routes() {
    let q = |fcid, ftid, fpid| ForumFullQuery { fcid, ftid, fpid, page: Some(2) };
    assert_eq!(forum_route(&q(Some(1), Some(2), Some(3))), ForumRoute::Post(3));
    assert_eq!(forum_route(&q(Some(1), Some(2), None)), ForumRoute::Thread(2, Some(2)));
    assert_eq!(forum_route(&q(Some(1), None, None)), ForumRoute::Category(1, Some(2)));
    assert_eq!(forum_route(&q(None, None, None)), ForumRoute::Main);
}
