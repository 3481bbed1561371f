use sbs_frontend::config::{config_chain, Config, OptConfig};
use sbs_frontend::links::LinkConfig;
use sbs_frontend::pages::common::contentapi::{get_users_query, QueryLimit, SqlParam, KEYWORDSELECT, VALUESELECT};
use sbs_frontend::pages::documentation::get_all_documentation_query;
use sbs_frontend::pages::forum_thread::{get_count_before_forumpost_query, get_forumposts_basic_query, get_forumposts_replies_query, MSGVALUESELECT};
use sbs_frontend::pages::index::ENGAGEMENTS_QUERY;
use sbs_frontend::pages::forum_thread::{AboutRequest, ApiError};
use sbs_frontend::pages::index::{frontpage_text, get_systempage_query, vote_counts, EngagementCounts};
use sbs_frontend::pages::redirect::{
    fpid_redirect_url, ftid_redirect_url, get_basic_by_pid_query, get_contenthash_by_ftid_query,
    get_msgid_by_cid_query, get_msgid_contenthash_by_fpid_query, pid_redirect_url, PageQuery,
};
use sbs_frontend::pages::user::{get_badges_query, get_user_by_name_query, get_userpage_query, user_meta, user_submissions_search};
use sbs_frontend::pages::common::contentapi::{BasicContent, User2};
use sbs_frontend::response::Error;
use sbs_frontend::text::decimal_string;
use sbs_frontend::warp::generic_handlers::{
    get_status_from_error, handle_rejection, handle_response_with_anycookie,
    handle_response_with_error, PageError, Rejection, Response,
};

fn links(root: &str) -> LinkConfig {
    LinkConfig {
        http_root: root.to_string(),
        static_root: String::new(),
        resource_root: String::new(),
        file_root: String::from("F"),
        thumbnail_root: String::from("T"),
        cache_bust: String::new(),
    }
}

#[test]
fn decimals() {
    assert_eq!(decimal_string(0), "0");
    assert_eq!(decimal_string(-905), "-905");
    assert_eq!(decimal_string(i64::MIN), i64::MIN.to_string());
    assert_eq!(decimal_string(i64::MAX), i64::MAX.to_string());
}

#[test]
fn redirect_queries() {
    let (q, p) = get_basic_by_pid_query(12);
    assert!(q.ends_with("WHERE  v.`key`=? AND v.value=? GROUP BY c.id"));
    assert_eq!(p, vec![SqlParam::Text(String::from("pid")), SqlParam::Text(String::from("12"))]);
    let (_, p) = get_msgid_by_cid_query(3, 4);
    assert_eq!(p, vec![SqlParam::Text(String::from("cid")), SqlParam::Text(String::from("4")), SqlParam::Text(String::from("3"))]);
    let (q, p) = get_msgid_contenthash_by_fpid_query(5);
    assert!(q.starts_with("SELECT m.id,(SELECT c.hash FROM content c JOIN content_permissions"));
    assert_eq!(p[1], SqlParam::Text(String::from("5")));
    let (_, p) = get_contenthash_by_ftid_query(6);
    assert_eq!(p[0], SqlParam::Text(String::from("ftid")));
    let q = PageQuery::default();
    assert_eq!((q.pid, q.cid), (0, None));
}

#[test]
fn redirect_urls() {
    let l = links("/r");
    assert_eq!(pid_redirect_url(&l, "h", Some(9)), "/r/forum/thread/h/9#post_9");
    assert_eq!(pid_redirect_url(&l, "h", None), "/r/forum/thread/h");
    assert_eq!(ftid_redirect_url(&l, 1, Some(String::from("h")), Some(3)).unwrap(), "/r/forum/thread/h?page=3");
    assert_eq!(ftid_redirect_url(&l, 1, Some(String::from("h")), None).unwrap(), "/r/forum/thread/h");
    assert!(matches!(ftid_redirect_url(&l, 1, None, None), Err(Error::NotFound(m)) if m == "Can't find thread 1"));
    assert_eq!(fpid_redirect_url(&l, 2, Some((7, String::from("h")))).unwrap(), "/r/forum/thread/h/7#post_7");
    assert!(matches!(fpid_redirect_url(&l, 2, None), Err(Error::NotFound(m)) if m == "Can't find post 2"));
}

#[test]
fn user_page() {
    let (q, p) = get_user_by_name_query("bob");
    assert!(q.ends_with(" AND username = ?"));
    assert_eq!(p, vec![SqlParam::Text(String::from("bob"))]);
    assert_eq!(get_badges_query(4).1, vec![SqlParam::Int(3), SqlParam::Int(4), SqlParam::Int(2)]);
    assert!(get_userpage_query(4).0.ends_with("ORDER BY c.id DESC LIMIT 1"));
    let s = user_submissions_search(8);
    assert_eq!((s.order.as_str(), s.user_id), ("id_desc", Some(8)));
    let u = User2 { id: 1, user_type: 1, username: String::from("bob"), avatar: String::from("a"), special: None, admin: false, create_date: 0 };
    let m = user_meta(&links("/r"), &u);
    assert_eq!(m.title, "SBS \u{2981} bob");
    assert_eq!(m.image.as_deref(), Some("T/a_s300.jpg"));
    assert_eq!(m.canonical.as_deref(), Some("/r/user/bob"));
}

#[test]
fn index_and_votes() {
    let (q, p) = get_systempage_query("frontpage");
    assert!(q.ends_with(" WHERE c.contentType = ? AND c.literalType = ?"));
    assert_eq!(p, vec![SqlParam::Int(5), SqlParam::Text(String::from("frontpage"))]);
    let page = |t: &str| BasicContent { id: 1, hash: String::new(), name: String::new(), text: t.to_string() };
    assert_eq!(frontpage_text(vec![page("a"), page("b")]), Some(String::from("b")));
    assert_eq!(frontpage_text(Vec::new()), None);
    let e = EngagementCounts { counts: vec![(String::from("vote+"), 3), (String::from("vote-"), 1), (String::from("vote+"), 5)] };
    assert_eq!(vote_counts(&e), (5, 1, 6));
    assert_eq!(vote_counts(&EngagementCounts { counts: Vec::new() }), (0, 0, 0));
}

#[test]
fn config_layers() {
    let chain = config_chain("settings", Some("Dev"));
    assert_eq!(chain, vec!["./settings.toml", "./settings.Dev.toml"]);
    assert_eq!(config_chain("settings", None), vec!["./settings.toml"]);
    let mut c = Config::default();
    c.http_root = String::from("a");
    c.default_display_posts = 10;
    let mut o = OptConfig::default();
    o.default_display_posts = Some(20);
    c.apply_optional(o);
    assert_eq!((c.http_root.as_str(), c.default_display_posts), ("a", 20));
}

#[test]
fn replies() {
    let l = links("/root");
    let r = handle_response_with_anycookie(Response::Redirect(String::from("/x")), &l, "tok", Some(String::from("v")), 60);
    assert_eq!(r.status, 303);
    assert_eq!(r.headers[0], (String::from("set-cookie"), String::from("tok=v; Max-Age=60; Path=/; SameSite=Strict")));
    assert_eq!(r.headers[1], (String::from("Location"), String::from("/root/x")));
    let r = handle_response_with_anycookie(Response::Redirect(String::from("/root/x")), &l, "tok", None, 0);
    assert_eq!(r.headers, vec![(String::from("Location"), String::from("/root/x"))]);
    let r = handle_response_with_anycookie(Response::Render(String::from("<p>")), &l, "tok", None, 0);
    assert_eq!((r.status, r.body.as_str()), (200, "<p>"));
    let r = handle_response_with_anycookie(Response::MessageWithStatus(String::from("m"), 418), &l, "tok", None, 0);
    assert!(r.headers.is_empty());
    assert_eq!(r.status, 418);
    let r = handle_response_with_error(Err(PageError::NotFound(String::from("gone"))), &l);
    assert_eq!((r.status, r.body.as_str()), (404, "gone"));
}

#[test]
fn error_statuses() {
    let about = AboutRequest { verb: String::from("GET"), endpoint: String::from("/e"), post_data: None };
    let (c, m) = get_status_from_error(&PageError::Api(ApiError::Network(about, String::from("x"))));
    assert_eq!((c, m.as_str()), (503, "[GET]/e - The backend seems to be unreachable: x"));
    assert_eq!(get_status_from_error(&PageError::Data(String::from("d"), String::from("raw"))).0, 500);
    assert_eq!(handle_rejection(&Rejection::Unhandled), (404, String::from("Couldn't figure out what to do with this URL!")));
    assert_eq!(handle_rejection(&Rejection::InvalidQuery(String::from("q"))).0, 400);
}

#[test]
fn every_query_has_one_placeholder_per_parameter() {
    use_queries(vec![
        get_systempage_query("frontpage"),
        get_basic_by_pid_query(12),
        get_msgid_by_cid_query(3, 4),
        get_msgid_contenthash_by_fpid_query(5),
        get_contenthash_by_ftid_query(6),
        get_user_by_name_query("ann"),
        get_badges_query(7),
        get_userpage_query(8),
        get_all_documentation_query(),
        get_users_query(&vec![1, 2, 3]),
        get_forumposts_replies_query(9),
        get_count_before_forumpost_query(10),
        get_forumposts_basic_query(11, Some(vec![1, 2]), QueryLimit { limit: Some(5), skip: None }),
    ]);
    for q in [VALUESELECT, KEYWORDSELECT, MSGVALUESELECT, ENGAGEMENTS_QUERY] {
        assert_eq!(q.matches('?').count(), 1);
    }
}

fn use_queries(queries: Vec<(String, Vec<SqlParam>)>) {
    for (q, p) in queries {
        assert_eq!(q.matches('?').count(), p.len(), "{}", q);
    }
}
