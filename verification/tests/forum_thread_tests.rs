use sbs_frontend::links::{LinkConfig, QueryImage};
use sbs_frontend::pages::common::contentapi::{QueryLimit, SqlParam, SubmissionCategory, User2};
use sbs_frontend::pages::forum_thread::{
    add_uids_from_posts, classify_response, get_count_before_forumpost_query,
    get_forumposts_basic_query, get_forumposts_replies_query, get_generic_message_request,
    get_replydata, get_thumbnail_hash2, is_pagetype, map_forumposts, nav_override,
    post_item_data, posts_to_flat_trees, render_mainview, posts_to_replytree, related_ids, render_page,
    render_textcontent, reply_data_from, short_description2, short_post, thread_meta,
    thread_page, thread_view_plan, AboutRequest, ApiError, ForumPost, ForumThread2, PostsConfig, ReplyData,
    ReplyTree, RequestValue, SHORTDESCRIPTION,
};
use sbs_frontend::bbcode::BBCode;
use sbs_frontend::routes::forums::ForumPagelistItem;
use sbs_frontend::response::Error;
use std::collections::HashMap;

fn links() -> LinkConfig {
    LinkConfig {
        http_root: String::from("https://sbs.test"),
        static_root: String::from("https://sbs.test/static"),
        resource_root: String::from("https://sbs.test/static/resources"),
        file_root: String::from("https://files.test/raw"),
        thumbnail_root: String::from("https://files.test/thumb"),
        cache_bust: String::from("1"),
    }
}

fn vals(pairs: &[(&str, &str)]) -> Vec<(String, String)> {
    pairs.iter().map(|(k, v)| (k.to_string(), v.to_string())).collect()
}

fn post(id: i64, text: &str, values: &[(&str, &str)]) -> ForumPost {
    ForumPost {
        id,
        content_id: 1,
        create_user_id: 10 + id,
        create_date: 0,
        text: text.to_string(),
        edit_date: None,
        edit_user_id: None,
        values: vals(values),
    }
}

fn thread(literal_type: &str, description: &str, text: &str, values: &[(&str, &str)]) -> ForumThread2 {
    ForumThread2 {
        id: 99,
        name: String::from("My thread"),
        hash: String::from("abc"),
        description: description.to_string(),
        literal_type: literal_type.to_string(),
        text: text.to_string(),
        parent_id: 3,
        create_user_id: 4,
        create_date: 0,
        posts_count: 2,
        values: vals(values),
    }
}

#[test]
fn replydata_both_values() {
    let p = post(5, "hi", &[("re-top", "1"), ("re", "3")]);
    let d = get_replydata(&p).unwrap();
    assert_eq!(d.top, 1);
    assert_eq!(d.direct, 3);
}

#[test]
fn replydata_missing_or_bad() {
    assert!(get_replydata(&post(5, "hi", &[("re-top", "1")])).is_none());
    assert!(get_replydata(&post(5, "hi", &[("re-top", "x"), ("re", "3")])).is_none());
    assert!(get_replydata(&post(5, "hi", &[])).is_none());
}

#[test]
fn replydata_later_value_wins() {
    let p = post(5, "hi", &[("re-top", "1"), ("re", "3"), ("re", "4")]);
    assert_eq!(get_replydata(&p).unwrap().direct, 4);
}

#[test]
fn reply_data_from_needs_both() {
    assert!(reply_data_from(Some(1), None).is_none());
    let d = reply_data_from(Some(1), Some(2)).unwrap();
    assert_eq!((d.top, d.direct), (1, 2));
}

fn count_nodes(t: &ReplyTree) -> usize {
    1 + t.children.iter().map(count_nodes).sum::<usize>()
}

#[test]
fn replytree_root_and_chain() {
    let posts = vec![
        post(1, "root", &[]),
        post(2, "a", &[("re-top", "1"), ("re", "1")]),
        post(3, "b", &[("re-top", "1"), ("re", "2")]),
        post(4, "c", &[("re-top", "1"), ("re", "1")]),
        post(5, "lost", &[("re-top", "1"), ("re", "77")]),
        post(6, "plain", &[]),
    ];
    let trees = posts_to_replytree(&posts);
    assert_eq!(trees.len(), 1);
    let root = &trees[0];
    assert_eq!(root.id, 1);
    assert_eq!(root.children.len(), 2);
    assert_eq!(root.children[0].id, 2);
    assert_eq!(root.children[0].children[0].id, 3);
    assert_eq!(root.children[1].id, 4);
    assert_eq!(count_nodes(root), 4);
}

#[test]
fn replytree_empty() {
    let posts: Vec<ForumPost> = Vec::new();
    assert!(posts_to_replytree(&posts).is_empty());
}

#[test]
fn replytree_insert_not_found() {
    let p1 = post(1, "root", &[]);
    let p2 = post(2, "x", &[]);
    let mut t = ReplyTree::new(&p1);
    assert!(t.insert_post(&p2, &ReplyData { top: 1, direct: 5 }).is_none());
    assert!(t.children.is_empty());
    let placed = t.insert_post(&p2, &ReplyData { top: 1, direct: 1 }).unwrap();
    assert_eq!((placed.id, placed.post.text.as_str(), placed.children.len()), (2, "x", 0));
    assert_eq!(t.children.len(), 1);
    let p3 = post(3, "y", &[]);
    let placed = t.insert_post(&p3, &ReplyData { top: 1, direct: 2 }).unwrap();
    assert_eq!(placed.id, 3);
    assert_eq!(t.children[0].children[0].id, 3);
}

#[test]
fn flat_trees_one_per_post() {
    let posts = vec![post(1, "a", &[]), post(2, "b", &[("re-top", "1"), ("re", "1")])];
    let trees = posts_to_flat_trees(&posts);
    assert_eq!(trees.len(), 2);
    assert!(trees.iter().all(|t| t.children.is_empty()));
    assert_eq!(trees[1].id, 2);
}

#[test]
fn short_texts() {
    let long = "x".repeat(SHORTDESCRIPTION + 50);
    assert_eq!(short_post(&post(1, &long, &[])).chars().count(), SHORTDESCRIPTION);
    assert_eq!(short_post(&post(1, "short", &[])), "short");
    let accented = "é".repeat(300);
    assert_eq!(short_post(&post(1, &accented, &[])), "é".repeat(200));
}

#[test]
fn short_description_rules() {
    assert_eq!(short_description2(&thread("program", "desc", "text", &[])), "desc");
    assert_eq!(short_description2(&thread("program", "", "text", &[])), "text");
    assert_eq!(short_description2(&thread("forumthread", "", "text", &[])), "");
    assert_eq!(short_description2(&thread("program", "", "", &[])), "");
}

#[test]
fn thumbnail_first_image() {
    assert_eq!(
        get_thumbnail_hash2(&thread("program", "", "", &[("images", "[\"h1\",\"h2\"]")])),
        Some(String::from("h1"))
    );
    assert_eq!(get_thumbnail_hash2(&thread("program", "", "", &[("images", "[]")])), None);
    assert_eq!(get_thumbnail_hash2(&thread("program", "", "", &[("images", "nope")])), None);
}

fn about() -> AboutRequest {
    AboutRequest { verb: String::from("POST"), endpoint: String::from("/request"), post_data: None }
}

#[test]
fn api_error_strings() {
    let e = ApiError::Network(about(), String::from("down"));
    assert_eq!(e.to_user_string(), "down");
    assert_eq!(e.to_status(), 503);
    assert_eq!(e.to_verbose_string(), "[POST]/request - The backend seems to be unreachable: down");
    let e = ApiError::Request(about(), String::from("bad"), 404);
    assert_eq!(e.to_status(), 400);
    assert_eq!(e.to_verbose_string(), "[POST]/request - Bad request to API (404): bad");
    let e = ApiError::Parse(about(), String::from("eof"), Some(vec![104, 105, 0xff]));
    assert_eq!(e.to_status(), 500);
    assert_eq!(
        e.to_verbose_string(),
        "[POST]/request - Couldn't parse response from backend: eof. Data:\nhi\u{FFFD}"
    );
    let e = ApiError::Parse(about(), String::from("eof"), None);
    assert_eq!(
        e.to_verbose_string(),
        "[POST]/request - 'ParseError': COULDN'T GET BYTES FROM BODY OF RESPONSE (THIS IS BAD!): eof"
    );
    let e = ApiError::NonRequest(about(), String::from("uri"));
    assert_eq!(
        e.to_verbose_string(),
        "[POST]/request - Something happened before we could reach the backend: uri"
    );
    let e = ApiError::Other(String::from("?"));
    assert_eq!(e.to_verbose_string(), "Generic API error: ?");
    assert_eq!(e.to_status(), 500);
}

#[test]
fn api_error_into_error() {
    let e: Error = ApiError::Request(about(), String::from("bad"), 400).into();
    assert!(matches!(e, Error::Other(s) if s == "bad"));
}

#[test]
fn classify_responses() {
    assert_eq!(classify_response(about(), 200, vec![1, 2]).unwrap(), vec![1, 2]);
    match classify_response(about(), 404, b"missing".to_vec()) {
        Err(ApiError::Request(_, msg, 404)) => assert_eq!(msg, "missing"),
        _ => panic!("expected a request error"),
    }
    match classify_response(about(), 500, vec![0xff]) {
        Err(ApiError::Request(_, msg, 500)) => assert!(msg.starts_with("RESPONSE BODY UTF-8 ERROR: ")),
        _ => panic!("expected a request error"),
    }
}

#[test]
fn generic_message_request() {
    let r = get_generic_message_request("contentId = 5", vec![1, 2], 10, 20);
    assert_eq!(r.values.len(), 1);
    assert_eq!(r.values[0].0, "uids");
    assert!(matches!(&r.values[0].1, RequestValue::Ints(v) if v == &vec![1, 2]));
    assert_eq!(r.requests.len(), 3);
    assert_eq!(r.requests[0].query.as_deref(), Some("!basiccomments() and (contentId = 5)"));
    assert_eq!(r.requests[0].request_type, "message");
    assert_eq!((r.requests[0].limit, r.requests[0].skip), (10, 20));
    assert_eq!(r.requests[1].name.as_deref(), Some("related"));
    assert_eq!(r.requests[2].request_type, "user");
    assert_eq!(
        r.requests[2].query.as_deref(),
        Some("id in @message.createUserId or id in @message.editUserId or id in @related.createUserId or id in @related.editUserId or id in @uids")
    );
}

#[test]
fn forumposts_queries() {
    let (q, p) = get_forumposts_basic_query(7, Some(vec![1, 2]), QueryLimit { limit: Some(5), skip: Some(10) });
    assert!(q.starts_with("SELECT m.id,m.contentId,m.createUserId,m.createDate,m.text,m.editDate,m.editUserId FROM messages m WHERE m.deleted = 0"));
    assert!(q.ends_with(" AND m.contentId = ? AND m.id IN (?,?) LIMIT ? OFFSET ?"));
    assert_eq!(p, vec![SqlParam::Int(7), SqlParam::Int(1), SqlParam::Int(2), SqlParam::Int(5), SqlParam::Int(10)]);
    assert_eq!(q.matches('?').count(), p.len());
    let (q, p) = get_forumposts_basic_query(7, None, QueryLimit::default());
    assert!(q.ends_with(" AND m.contentId = ?"));
    assert_eq!(p, vec![SqlParam::Int(7)]);
    let (q, p) = get_forumposts_replies_query(3);
    assert!(q.ends_with("(SELECT messageId FROM message_values WHERE `key`=? AND `value`=?)"));
    assert_eq!(p, vec![SqlParam::Text(String::from("re-top")), SqlParam::Int(3)]);
    let (q, p) = get_count_before_forumpost_query(8);
    assert!(q.starts_with("SELECT COUNT(*) FROM messages m WHERE "));
    assert_eq!(p, vec![SqlParam::Int(8), SqlParam::Int(8)]);
}

#[test]
fn uids_and_related() {
    let mut p2 = post(2, "b", &[("re-top", "1"), ("re", "1")]);
    p2.edit_user_id = Some(50);
    let posts = vec![post(1, "a", &[]), p2];
    let mut uids = vec![4];
    add_uids_from_posts(&posts, &mut uids);
    assert_eq!(uids, vec![4, 11, 12, 50]);
    assert_eq!(related_ids(&posts), vec![1]);
}

#[test]
fn thread_pages() {
    assert_eq!(thread_page(None, None, 10), 0);
    assert_eq!(thread_page(Some(3), None, 10), 2);
    assert_eq!(thread_page(Some(3), Some(25), 10), 2);
    assert_eq!(thread_page(None, Some(9), 10), 0);
    assert_eq!(thread_page(None, Some(-5), 10), 0);
    assert_eq!(thread_page(None, Some(-15), 10), -1);
}

#[test]
fn nav_and_pagetype() {
    assert_eq!(nav_override("program"), Some("/search"));
    assert_eq!(nav_override("resource"), Some("/search"));
    assert_eq!(nav_override("documentation"), Some("/documentation"));
    assert_eq!(nav_override("directmessage"), Some("/userhome"));
    assert_eq!(nav_override("forumthread"), None);
    assert!(is_pagetype("documentation"));
    assert!(!is_pagetype("forumthread"));
}

fn config_for(t: ForumThread2, posts: Vec<ForumPost>, selected: Option<i64>, start: i32) -> PostsConfig {
    PostsConfig::thread_mode(
        t,
        Vec::new(),
        posts,
        HashMap::new(),
        HashMap::new(),
        Vec::new(),
        Vec::new(),
        start,
        selected,
    )
}

#[test]
fn meta_of_threads() {
    let l = links();
    let t = thread("program", "A program", "", &[("images", "[\"img\"]")]);
    let m = thread_meta(&l, &config_for(t, vec![post(1, "first", &[])], None, 1));
    assert_eq!(m.title, "SBS \u{2981} My thread");
    assert_eq!(m.description, "A program");
    assert_eq!(m.image.as_deref(), Some("https://files.test/thumb/img_300.jpg"));
    assert_eq!(m.canonical.as_deref(), Some("https://sbs.test/forum/thread/abc"));

    let t = thread("forumthread", "", "", &[]);
    let m = thread_meta(&l, &config_for(t.clone(), vec![post(1, "first", &[]), post(2, "second", &[])], Some(2), 1));
    assert_eq!(m.description, "second");
    assert_eq!(m.canonical.as_deref(), Some("https://sbs.test/forum/thread/abc/2#post_2"));
    assert!(m.image.is_none());

    let m = thread_meta(&l, &config_for(t.clone(), vec![post(1, "first", &[])], None, 1));
    assert_eq!(m.description, "first");
    let m = thread_meta(&l, &config_for(t, vec![post(1, "first", &[])], None, 21));
    assert_eq!(m.description, "");
}

#[test]
fn post_items() {
    let l = links();
    let t = thread("forumthread", "", "", &[]);
    let replied = post(1, "root", &[]);
    let mut related = HashMap::new();
    related.insert(1, replied);
    let config = PostsConfig::thread_mode(t, Vec::new(), Vec::new(), related, HashMap::new(), Vec::new(), Vec::new(), 1, Some(2));
    let p = post(2, "reply", &[("re-top", "1"), ("re", "1")]);
    let d = post_item_data(&l, &config, &p);
    assert_eq!(d.class, "post current");
    assert_eq!(d.reply_post.map(|r| r.id), Some(1));
    assert_eq!(d.reply_chain_link.as_deref(), Some("https://sbs.test/widget/thread?reply=1&selected=2"));
    let d = post_item_data(&l, &config, &post(3, "plain", &[]));
    assert_eq!(d.class, "post");
    assert!(d.reply_post.is_none() && d.reply_chain_link.is_none());
}

#[test]
fn reply_mode_config() {
    let c = PostsConfig::reply_mode(thread("forumthread", "", "", &[]), Vec::new(), HashMap::new(), HashMap::new(), None);
    assert!(c.render_reply_chain && !c.render_header && !c.render_reply_link);
    assert!(c.path.is_none() && c.pages.is_none());
}

#[test]
fn map_posts_later_wins() {
    let m = map_forumposts(vec![post(1, "a", &[]), post(1, "b", &[]), post(2, "c", &[])]);
    assert_eq!(m.len(), 2);
    assert_eq!(m[&1].text, "b");
}

fn bbcode() -> BBCode {
    BBCode::build(BBCode::basics()).unwrap()
}

#[test]
fn textcontent_markup() {
    let b = bbcode();
    let t = render_textcontent("[b]x[/b]", &Vec::new(), &b);
    assert_eq!(t.markup, "bbcode");
    assert!(t.prerendered);
    assert_eq!(t.body, "<b>x</b>");
    let t = render_textcontent("[b]x[/b]", &vals(&[("markup", "\"plaintext\"")]), &b);
    assert_eq!(t.markup, "plaintext");
    assert!(!t.prerendered);
    assert_eq!(t.body, "[b]x[/b]");
}

#[test]
fn page_view_of_program() {
    let l = links();
    let b = bbcode();
    let t = thread(
        "program",
        "",
        "text",
        &[("images", "[\"h1\"]"), ("dlkey", "\"KEY\""), ("systems", "[\"ptc\"]"), ("version", "\"1.0\"")],
    );
    let cats = vec![SubmissionCategory { id: 4, name: String::from("Games"), hash: String::from("g"), forcontent: String::new() }];
    let v = render_page(&l, &b, &t, &cats);
    let p = v.program.unwrap();
    let g = p.gallery.unwrap();
    assert_eq!(g.images_attr, "[\"https://files.test/raw/h1\"]");
    assert_eq!(g.first.as_deref(), Some("https://files.test/raw/h1"));
    assert_eq!(p.download_key.as_deref(), Some("KEY"));
    assert_eq!(p.qr_link.as_deref(), Some("https://sbs.test/widget/qr/abc"));
    assert_eq!(p.version.as_deref(), Some("1.0"));
    assert!(p.size.is_none());
    let c = v.categories.unwrap();
    assert_eq!(c, vec![(String::from("https://sbs.test/search?category=4"), String::from("Games"))]);
    let d = render_page(&l, &b, &thread("documentation", "", "t", &[]), &cats);
    assert!(d.program.is_none() && d.categories.is_none());
}

#[test]
fn user_fixture_is_plain() {
    let u = User2 { id: 1, user_type: 1, username: String::from("a"), avatar: String::from("0"), special: None, admin: false, create_date: 0 };
    assert_eq!(u.username, "a");
    let _ = QueryImage::Original;
}

#[test]
fn mainview_plan() {
    let l = links();
    let pages = vec![
        ForumPagelistItem { text: String::from("1"), current: true, page: 0 },
        ForumPagelistItem { text: String::from("2"), current: false, page: 1 },
    ];
    let config = PostsConfig::thread_mode(
        thread("program", "", "", &[]),
        Vec::new(),
        vec![post(1, "a", &[]), post(2, "b", &[("re", "1")])],
        HashMap::new(),
        HashMap::new(),
        Vec::new(),
        pages,
        5,
        None,
    );
    let plan = render_mainview(&l, &config);
    assert_eq!(plan.nav_override, Some("/search"));
    assert!(plan.show_page);
    assert_eq!(plan.trees.len(), 2);
    assert_eq!(plan.sequences, vec![Some(5), Some(6)]);
    assert_eq!(
        plan.sequence_links,
        vec![
            Some(String::from("https://sbs.test/forum/thread/abc/1#post_1")),
            Some(String::from("https://sbs.test/forum/thread/abc/2#post_2")),
        ]
    );
    assert!(plan.empty_message.is_none());
    let list = plan.pagelist.unwrap();
    assert_eq!(list.len(), 2);
    assert_eq!(list[1].link, "https://sbs.test/forum/thread/abc?page=1#thread-top");
    assert_eq!(list[1].text, "2");
    assert!(list[0].current && !list[1].current);

    let one = vec![ForumPagelistItem { text: String::from("1"), current: true, page: 0 }];
    let config = PostsConfig::thread_mode(thread("forumthread", "", "", &[]), Vec::new(), Vec::new(), HashMap::new(), HashMap::new(), Vec::new(), one, 1, None);
    let plan = render_mainview(&l, &config);
    assert!(plan.pagelist.is_none() && plan.trees.is_empty() && plan.nav_override.is_none() && !plan.show_page);
    assert_eq!(plan.empty_message, Some("No posts yet (will you be the first?)"));
    assert!(plan.sequence_links.is_empty());
}

#[test]
fn thread_view_plans() {
    let (l, start) = thread_view_plan(true, true, 10, Some(3), None).unwrap();
    assert_eq!((l.limit, l.skip, start), (Some(10), Some(20), 21));
    let (l, start) = thread_view_plan(true, true, 10, Some(3), Some(25)).unwrap();
    assert_eq!((l.limit, l.skip, start), (Some(10), Some(20), 21));
    let (l, start) = thread_view_plan(true, true, 25, None, None).unwrap();
    assert_eq!((l.skip, start), (Some(0), 1));
    match thread_view_plan(false, true, 10, None, None) {
        Err(Error::NotFound(m)) => assert_eq!(m, "Could not find thread!"),
        _ => panic!("expected not found"),
    }
    match thread_view_plan(true, false, 10, None, None) {
        Err(Error::NotFound(m)) => assert_eq!(m, "Could not find category!"),
        _ => panic!("expected not found"),
    }
}
