use sbs_frontend::pages::common::contentapi::SqlParam;
use sbs_frontend::pages::searchall::{
    search_order, search_pattern, search_score, search_score_name, searchall_content_query,
    searchall_users_query, sort_results, to_ascii_lowercase, SearchAllContent, SearchAllResult,
    SearchAllUser,
};

fn user(name: &str) -> SearchAllResult {
    SearchAllResult::User(SearchAllUser { username: name.to_string(), avatar: String::from("0") })
}

fn content(name: &str, keywords: &[&str]) -> SearchAllResult {
    SearchAllResult::Content(SearchAllContent {
        hash: String::from("h"),
        name: name.to_string(),
        literal_type: String::from("program"),
        values: Vec::new(),
        keywords: keywords.iter().map(|k| k.to_string()).collect(),
    })
}

fn name_of(r: &SearchAllResult) -> &str {
    match r {
        SearchAllResult::User(u) => &u.username,
        SearchAllResult::Content(c) => &c.name,
    }
}

#[test]
fn patterns() {
    assert_eq!(search_pattern("a"), "a%");
    assert_eq!(search_pattern("ab"), "%ab%");
    assert_eq!(search_pattern("é"), "%é%");
    assert_eq!(search_pattern(""), "%");
}

#[test]
fn queries() {
    let (q, p) = searchall_users_query("bob");
    assert!(q.ends_with(" AND username LIKE ?"));
    assert_eq!(p, vec![SqlParam::Text(String::from("%bob%"))]);
    let (q, p) = searchall_content_query("x");
    assert!(q.contains(" AND literalType IN (?,?,?,?,?) AND (name LIKE ?"));
    assert_eq!(p.len(), 7);
    assert_eq!(p[0], SqlParam::Text(String::from("forumthread")));
    assert_eq!(p[6], SqlParam::Text(String::from("x%")));
    assert_eq!(q.matches('?').count(), p.len());
}

#[test]
fn lowercase() {
    assert_eq!(to_ascii_lowercase("AbC é"), vec!['a', 'b', 'c', ' ', 'é']);
}

#[test]
fn name_scores() {
    assert_eq!(search_score_name("Zelda", "zel"), 2);
    assert_eq!(search_score_name("The Zelda", "zel"), 1);
    assert_eq!(search_score_name("Mario", "zel"), 0);
    assert_eq!(search_score_name("anything", ""), 2);
}

#[test]
fn result_scores_in_halves() {
    assert_eq!(search_score(&content("Zelda", &["zelda", "game"]), "zel"), 2 * 2 + 2);
    assert_eq!(search_score(&user("zelfan"), "zel"), 4);
}

#[test]
fn ordering_is_stable() {
    assert_eq!(search_order(&vec![1, 3, 1, 3, 0]), vec![1, 3, 0, 2, 4]);
    assert!(search_order(&Vec::new()).is_empty());
}

#[test]
fn sorting_results() {
    let results = vec![content("Mario", &[]), user("zelda_fan"), content("A zelda game", &["zelda"]), user("zel")];
    let sorted = sort_results(results, "zel");
    let names: Vec<&str> = sorted.iter().map(name_of).collect();
    assert_eq!(names, vec!["zelda_fan", "A zelda game", "zel", "Mario"]);
}
