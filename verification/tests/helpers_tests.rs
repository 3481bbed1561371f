use sbs_frontend::routing::admin::{admin_post_from_flags, AdminPost};
use sbs_frontend::routing::login::{login_post_from_flags, LoginPost};
use sbs_frontend::routing::registerconfirm::{registerconfirm_post_from_flags, RegisterConfirmPost};
use sbs_frontend::routing::user::{user_post_from_flags, UserPost};
use sbs_frontend::routing::userhome::{userhome_post_from_flags, UserhomePost};
use sbs_frontend::pages::UserConfig;
use sbs_frontend::api_data::{convert_login, Content};
use sbs_frontend::forms::Login;
use sbs_frontend::hbs_custom::{headerlink_helper, script_helper, selfpost_helper, stylesheet_helper, SelectValue};
use sbs_frontend::links::LinkConfig;
use sbs_frontend::routes::forums::{sort_categories, CleanedPreCategory};
use sbs_frontend::warp::generic_handlers::{handle_response, handle_response_with_anycookie, Response};

fn cat(name: &str, id: i64) -> CleanedPreCategory {
    CleanedPreCategory { category: Content::default(), id, name: name.to_string(), stickies: Vec::new() }
}

#[test]
fn header_links() {
    assert_eq!(
        headerlink_helper("/r", "/forum/thread/x", "/forum"),
        "href=\"/r/forum\"class=\"plainlink headertab current\""
    );
    assert_eq!(headerlink_helper("/r", "/user", "/forum"), "href=\"/r/forum\"class=\"plainlink headertab \"");
}

#[test]
fn self_posts() {
    assert_eq!(selfpost_helper("/r", "/login", Some("recover")), "method=\"POST\" action=\"/r/login?recover\"");
    assert_eq!(selfpost_helper("/r", "/login", None), "method=\"POST\" action=\"/r/login\"");
}

#[test]
fn static_tags() {
    assert_eq!(stylesheet_helper("/s", "t", "/a.css"), "<link rel=\"stylesheet\" href=\"/s/a.css?t\">");
    assert_eq!(script_helper("/s", "t", "/a.js"), "<script src=\"/s/a.js?t\"></script>");
}

#[test]
fn select_values() {
    let v = SelectValue::new(3, "three", 3);
    assert!(v.selected);
    assert_eq!(v.text.as_deref(), Some("three"));
    assert!(!SelectValue::new(3, "three", 4).selected);
}

#[test]
fn logins() {
    let login = Login { username: String::from("u"), password: String::from("p"), long_session: true };
    assert_eq!(convert_login(100, 9000, &login).expire_seconds, 9000);
    let login = Login { long_session: false, ..login };
    let l = convert_login(100, 9000, &login);
    assert_eq!((l.username.as_str(), l.password.as_str(), l.expire_seconds), ("u", "p", 100));
}

#[test]
fn categories_sorted_by_configured_order() {
    let order = vec![String::from("News"), String::from("Help")];
    let cats = vec![cat("Zoo", 1), cat("Help desk", 2), cat("Apples", 3), cat("News", 4), cat("Help center", 5), cat("Apples", 6)];
    let sorted = sort_categories(cats, &order);
    let ids: Vec<i64> = sorted.iter().map(|c| c.id).collect();
    assert_eq!(ids, vec![4, 5, 2, 3, 6, 1]);
}

#[test]
fn redirect_never_leaves_root() {
    let links = LinkConfig {
        http_root: String::from("https://sbs.test"),
        static_root: String::new(),
        resource_root: String::new(),
        file_root: String::new(),
        thumbnail_root: String::new(),
        cache_bust: String::new(),
    };
    for url in ["/a", "https://sbs.test/b", "https://elsewhere.test/c"] {
        let r = handle_response_with_anycookie(Response::Redirect(url.to_string()), &links, "c", None, 0);
        assert!(r.headers[0].1.starts_with("https://sbs.test"));
    }
    let r = handle_response(Response::Redirect(String::from("/forum")), &links);
    assert_eq!(r.status, 303);
    assert_eq!(r.headers, vec![(String::from("Location"), String::from("https://sbs.test/forum"))]);
    let r = handle_response(Response::Render(String::from("<p>")), &links);
    assert_eq!((r.status, r.body.as_str()), (200, "<p>"));
    assert_eq!(r.headers, vec![(String::from("Content-Type"), String::from("text/html"))]);
}

fn roots() -> LinkConfig {
    LinkConfig {
        http_root: String::from("/h"),
        static_root: String::from("/s"),
        resource_root: String::from("/r"),
        file_root: String::from("/f"),
        thumbnail_root: String::from("/t"),
        cache_bust: String::new(),
    }
}

#[test]
fn image_links() {
    let roots = roots();
    assert_eq!(sbs_frontend::pages::get_image_link(&roots, "abc", 100, true), "/f/abc?size=100&crop=true");
    assert_eq!(sbs_frontend::pages::get_image_link(&roots, "abc", -1, false), "/f/abc?size=-1&crop=false");
}

struct English;

impl sbs_frontend::pages::UserConfig for English {}

#[test]
fn default_language() {
    assert_eq!(English.get_language(), "en");
}

#[test]
fn multi_post_flags() {
    assert_eq!(admin_post_from_flags(false, true, true), Some(AdminPost::DocsCustom));
    assert_eq!(admin_post_from_flags(false, false, false), None);
    assert_eq!(login_post_from_flags(true), LoginPost::Recover);
    assert_eq!(registerconfirm_post_from_flags(false), RegisterConfirmPost::Confirm);
    assert_eq!(user_post_from_flags(false, false, true), Some(UserPost::UserInfo));
    assert_eq!(userhome_post_from_flags(false, true), UserhomePost::SensitiveUpdate);
    assert_eq!(userhome_post_from_flags(false, false), UserhomePost::UserUpdate);
}
