use sbs_frontend::links::LinkConfig;
use sbs_frontend::pages::common::contentapi::{
    get_browse_query, get_submission_categories_query, get_systems2, get_users_query, get_value,
    join_common_content, map_users2, params_list, submission_category_from_row, user_or_default2,
    BrowseContent, OldIdOrHash, QueryLimit, SqlParam, User2,
};
use sbs_frontend::pages::common::render::{b, i, page_card2, pageicon2, CardKey};
use sbs_frontend::pages::common::{get_sbs_system_title, PageSearch};
use sbs_frontend::response::Error;
use std::collections::HashMap;

fn links() -> LinkConfig {
    LinkConfig {
        http_root: String::from("https://sbs.test"),
        static_root: String::from("https://sbs.test/static"),
        resource_root: String::from("https://sbs.test/res"),
        file_root: String::from("https://files.test/raw"),
        thumbnail_root: String::from("https://files.test/thumb"),
        cache_bust: String::from("1"),
    }
}

fn vals(pairs: &[(&str, &str)]) -> Vec<(String, String)> {
    pairs.iter().map(|(k, v)| (k.to_string(), v.to_string())).collect()
}

fn user(id: i64, name: &str) -> User2 {
    User2 { id, user_type: 1, username: name.to_string(), avatar: String::from("av"), special: None, admin: false, create_date: 5 }
}

#[test]
fn params_lists() {
    assert_eq!(params_list(0), "");
    assert_eq!(params_list(1), "?");
    assert_eq!(params_list(3), "?,?,?");
}

#[test]
fn common_join() {
    assert_eq!(
        join_common_content("c.id"),
        "JOIN content_permissions _cp_ ON _cp_.contentId = c.id AND _cp_.read=1 AND _cp_.userId=0"
    );
}

#[test]
fn query_limits() {
    let mut q = String::from("SELECT");
    let mut p = Vec::new();
    QueryLimit { limit: Some(3), skip: None }.mod_query(&mut q, &mut p);
    assert_eq!(q, "SELECT LIMIT ?");
    assert_eq!(p, vec![SqlParam::Int(3)]);
}

#[test]
fn old_id_or_hash() {
    let mut q = String::new();
    let mut p = Vec::new();
    OldIdOrHash::Id(12).mod_query("t", "ftid", &mut q, &mut p);
    assert_eq!(q, " AND EXISTS (SELECT id FROM content_values WHERE `key`=? AND `value`=? AND contentId=t.id)");
    assert_eq!(p, vec![SqlParam::Text(String::from("ftid")), SqlParam::Int(12)]);
    let mut q = String::new();
    let mut p = Vec::new();
    OldIdOrHash::Hash(String::from("h")).mod_query("t", "ftid", &mut q, &mut p);
    assert_eq!(q, " AND t.hash = ?");
    assert_eq!(p, vec![SqlParam::Text(String::from("h"))]);
}

#[test]
fn value_lookup_last_wins() {
    let v = vals(&[("a", "1"), ("b", "2"), ("a", "3")]);
    assert_eq!(get_value(&v, "a").map(|s| s.as_str()), Some("3"));
    assert_eq!(get_value(&v, "c"), None);
}

#[test]
fn systems_value() {
    assert_eq!(get_systems2(&vals(&[("systems", "[\"ptc\",\"3ds\"]")])), vec!["ptc", "3ds"]);
    assert!(get_systems2(&vals(&[("systems", "ptc")])).is_empty());
    assert!(get_systems2(&Vec::new()).is_empty());
}

#[test]
fn system_titles() {
    assert_eq!(get_sbs_system_title("ptc"), Some("Petit Computer (DSi)"));
    assert_eq!(get_sbs_system_title("switch"), Some("Nintendo Switch"));
    assert_eq!(get_sbs_system_title("any"), Some("Any"));
    assert_eq!(get_sbs_system_title("gba"), None);
}

#[test]
fn page_search_default() {
    let s = PageSearch::default();
    assert_eq!(s.order, "upvotes");
    assert_eq!(s.system, "any");
    assert!(!s.removed && s.page == 0 && s.search.is_none());
}

#[test]
fn browse_query_basic() {
    let (q, p) = get_browse_query(&PageSearch::default(), QueryLimit::default()).unwrap();
    assert!(q.starts_with("SELECT c.id,c.hash,c.name,COALESCE(c.description,''),COALESCE(c.literalType,''),c.createDate,c.createUserId,(SELECT COUNT(*)"));
    assert!(q.contains("AS upvotes\n        FROM content c JOIN content p ON c.parentId=p.id JOIN content_permissions"));
    assert!(q.ends_with("WHERE c.contentType=? AND p.contentType = ? AND p.literalType = ? GROUP BY c.id ORDER BY upvotes DESC"));
    assert_eq!(
        p,
        vec![
            SqlParam::Text(String::from("vote")),
            SqlParam::Text(String::from("+")),
            SqlParam::Int(1),
            SqlParam::Int(5),
            SqlParam::Text(String::from("submissions")),
        ]
    );
    assert_eq!(q.matches('?').count(), p.len());
}

#[test]
fn browse_query_all_filters() {
    let mut s = PageSearch::default();
    s.search = Some(String::from("zelda"));
    s.category = Some(4);
    s.user_id = Some(9);
    s.subtype = Some(String::from("program"));
    s.system = String::from("3ds");
    s.order = String::from("name_desc");
    let (q, p) = get_browse_query(&s, QueryLimit { limit: Some(20), skip: Some(40) }).unwrap();
    assert!(q.contains(" AND (c.name LIKE ? OR c.id IN (SELECT contentId FROM content_keywords WHERE `value` LIKE ?))"));
    assert!(q.contains(" AND c.createUserId = ? AND c.literalType = ?"));
    assert!(q.ends_with(" GROUP BY c.id ORDER BY name DESC LIMIT ? OFFSET ?"));
    assert_eq!(p[5], SqlParam::Text(String::from("%zelda%")));
    assert_eq!(p[7], SqlParam::Text(String::from("tag:4")));
    assert_eq!(p[8], SqlParam::Int(9));
    assert_eq!(p[9], SqlParam::Text(String::from("program")));
    assert_eq!(p[12], SqlParam::Text(String::from("%ptc%")));
    assert_eq!(p[14], SqlParam::Text(String::from("%3ds%")));
    assert_eq!(q.matches('?').count(), p.len());
}

#[test]
fn browse_query_removed_and_zero_ids() {
    let mut s = PageSearch::default();
    s.category = Some(0);
    s.user_id = Some(0);
    s.subtype = Some(String::from("program"));
    s.removed = true;
    let (q, p) = get_browse_query(&s, QueryLimit::default()).unwrap();
    assert!(!q.contains("`key`= ? OR"));
    assert!(!q.contains("createUserId = ?"));
    assert_eq!(p.len(), 6);
}

#[test]
fn browse_query_unknown_order() {
    let mut s = PageSearch::default();
    s.order = String::from("random");
    match get_browse_query(&s, QueryLimit::default()) {
        Err(Error::User(m)) => assert_eq!(m, "Unknown search order: random"),
        _ => panic!("expected a user error"),
    }
}

#[test]
fn category_queries() {
    assert!(get_submission_categories_query(Some(Vec::new())).is_none());
    let (q, p) = get_submission_categories_query(None).unwrap();
    assert!(q.ends_with("WHERE v.`key`=? AND c.contentType = ? AND c.literalType = ?"));
    assert_eq!(p.len(), 3);
    let (q, p) = get_submission_categories_query(Some(vec![3, 4])).unwrap();
    assert!(q.ends_with(" AND c.id IN (?,?)"));
    assert_eq!(p[3..], [SqlParam::Int(3), SqlParam::Int(4)]);
}

#[test]
fn category_rows() {
    let c = submission_category_from_row(1, String::from("n"), String::from("h"), Some(String::from("\"program\"")));
    assert_eq!(c.forcontent, "program");
    let c = submission_category_from_row(1, String::from("n"), String::from("h"), Some(String::from("bad")));
    assert_eq!(c.forcontent, "");
    let c = submission_category_from_row(1, String::from("n"), String::from("h"), None);
    assert_eq!(c.forcontent, "");
}

#[test]
fn users_query_and_map() {
    let (q, p) = get_users_query(&vec![5, 6]);
    assert!(q.ends_with(" AND id IN (?,?)"));
    assert_eq!(p, vec![SqlParam::Int(5), SqlParam::Int(6)]);
    let m = map_users2(vec![user(1, "a"), user(2, "b"), user(1, "c")]);
    assert_eq!(m.len(), 2);
    assert_eq!(m[&1].username, "c");
}

#[test]
fn default_user() {
    let u = user(3, "me");
    assert_eq!(user_or_default2(Some(&u)).username, "me");
    let d = user_or_default2(None);
    assert_eq!((d.id, d.username.as_str(), d.avatar.as_str()), (0, "???", "0"));
}

#[test]
fn small_helpers() {
    assert_eq!(b(true), "true");
    assert_eq!(b(false), "false");
    assert_eq!(i(&Some(-12)), "-12");
    assert_eq!(i(&None), "??");
}

#[test]
fn icons() {
    let l = links();
    let v = vals(&[("systems", "[\"ptc\",\"gba\",\"3ds\"]")]);
    let icons = pageicon2(&l, &v, "program", 99);
    assert_eq!(icons.len(), 2);
    assert_eq!(icons[0].title, "Petit Computer (DSi)");
    assert_eq!(icons[0].src, "https://sbs.test/res/ptc.svg");
    assert_eq!(icons[1].src, "https://sbs.test/res/3ds.svg");
    assert_eq!(pageicon2(&l, &v, "program", 1).len(), 1);
    assert_eq!(pageicon2(&l, &v, "program", 0).len(), 1);
    let docs = pageicon2(&l, &Vec::new(), "documentation", 99);
    assert_eq!(docs[0].title, "Documentation");
    assert_eq!(docs[0].src, "https://sbs.test/res/sb-docs.png");
    assert_eq!(pageicon2(&l, &Vec::new(), "resource", 99)[0].src, "https://sbs.test/res/sb-info.png");
    assert_eq!(pageicon2(&l, &Vec::new(), "forumthread", 99)[0].title, "Thread");
}

fn page(literal_type: &str, values: &[(&str, &str)]) -> BrowseContent {
    BrowseContent {
        id: 1,
        hash: String::from("ph"),
        name: String::from("Page"),
        description: String::from("d"),
        literal_type: literal_type.to_string(),
        create_date: 0,
        create_user_id: 3,
        values: vals(values),
    }
}

#[test]
fn page_cards() {
    let l = links();
    let mut users = HashMap::new();
    users.insert(3, user(3, "maker"));
    let c = page_card2(&l, &page("program", &[("dlkey", "\"ABC\""), ("images", "[\"i\"]")]), &users);
    assert_eq!(c.link, "https://sbs.test/forum/thread/ph");
    assert_eq!(c.image.as_deref(), Some("https://files.test/thumb/i_300.jpg"));
    assert_eq!(c.user.username, "maker");
    assert!(matches!(c.key, CardKey::Key(ref k) if k == "ABC"));
    let c = page_card2(&l, &page("program", &[("systems", "[\"ptc\"]")]), &HashMap::new());
    assert!(matches!(c.key, CardKey::QrCodes(ref q) if q == "https://sbs.test/widget/qr/ph"));
    assert_eq!(c.user.username, "???");
    assert!(matches!(page_card2(&l, &page("program", &[]), &users).key, CardKey::Removed));
    assert!(matches!(page_card2(&l, &page("resource", &[]), &users).key, CardKey::Placeholder));
}
