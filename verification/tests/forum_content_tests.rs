use sbs_frontend::api_data::{Content, Message, SpecialCount, User};
use sbs_frontend::routes::forum_content::{category_page, ForumCategory, ForumDataError, ForumThread};
use sbs_frontend::response::Error;
use sbs_frontend::routes::forums::CleanedPreCategory;

fn category_content(values: Option<Vec<(&str, &str)>>) -> Content {
    Content {
        id: Some(4),
        name: Some(String::from("General")),
        hash: Some(String::from("general")),
        values: values.map(|v| v.iter().map(|(k, t)| (k.to_string(), t.to_string())).collect()),
        ..Content::default()
    }
}

fn thread_content(id: i64, permissions: Option<Vec<(i64, &str)>>) -> Content {
    Content {
        id: Some(id),
        name: Some(format!("thread {}", id)),
        permissions: permissions.map(|p| p.iter().map(|(u, l)| (*u, l.to_string())).collect()),
        ..Content::default()
    }
}

fn message(id: i64, content_id: i64) -> Message {
    Message { id: Some(id), content_id: Some(content_id), text: Some(format!("m{}", id)), ..Message::default() }
}

fn user(id: i64, name: &str) -> User {
    User {
        id,
        user_type: 1,
        username: name.to_string(),
        avatar: String::from("0"),
        special: None,
        admin: false,
        create_date: 0,
    }
}

#[test]
fn category_with_stickies() {
    let c = CleanedPreCategory::from_content(category_content(Some(vec![("stickies", "[3, 4]")]))).unwrap();
    assert_eq!(c.id, 4);
    assert_eq!(c.name, "General");
    assert_eq!(c.stickies, vec![3, 4]);
    assert_eq!(c.category.hash.as_deref(), Some("general"));

    let c = CleanedPreCategory::from_content(category_content(Some(vec![("stickies", "[1]"), ("stickies", "[]")])))
        .unwrap();
    assert!(c.stickies.is_empty());
}

#[test]
fn category_errors() {
    let no_name = Content { name: None, ..category_content(Some(vec![("stickies", "[]")])) };
    assert!(matches!(CleanedPreCategory::from_content(no_name), Err(ForumDataError::NoName)));
    let no_id = Content { id: None, ..category_content(Some(vec![("stickies", "[]")])) };
    assert!(matches!(CleanedPreCategory::from_content(no_id), Err(ForumDataError::NoId)));
    assert!(matches!(CleanedPreCategory::from_content(category_content(None)), Err(ForumDataError::NoValues)));
    assert!(matches!(
        CleanedPreCategory::from_content(category_content(Some(vec![("other", "[]")]))),
        Err(ForumDataError::NoStickies)
    ));
    assert!(matches!(
        CleanedPreCategory::from_content(category_content(Some(vec![("stickies", "{\"a\":1}")]))),
        Err(ForumDataError::StickiesNotArray)
    ));
    match CleanedPreCategory::from_content(category_content(Some(vec![("stickies", "[1, \"two\", 2.5]")]))) {
        Err(ForumDataError::StickyNotInteger(t)) => assert_eq!(t, "\"two\""),
        other => panic!("unexpected {:?}", other),
    }
    match CleanedPreCategory::from_content(category_content(Some(vec![("stickies", "[1, 2.5]")]))) {
        Err(ForumDataError::StickyNotInteger(t)) => assert_eq!(t, "2.5"),
        other => panic!("unexpected {:?}", other),
    }
}

#[test]
fn many_categories_stop_at_first_error() {
    let ok = category_content(Some(vec![("stickies", "[]")]));
    let v = CleanedPreCategory::from_many(vec![ok.clone(), ok.clone()]).unwrap();
    assert_eq!(v.len(), 2);
    let r = CleanedPreCategory::from_many(vec![ok, category_content(None), Content::default()]);
    assert!(matches!(r, Err(ForumDataError::NoValues)));
}

#[test]
fn thread_state_and_posts() {
    let messages = vec![message(1, 10), message(2, 11), message(3, 10)];
    let t = ForumThread::from_content(thread_content(10, Some(vec![(0, "CR")])), &messages, &vec![]).unwrap();
    assert!(!t.locked && !t.sticky && t.neutral);
    assert_eq!(t.posts.iter().map(|m| m.id.unwrap()).collect::<Vec<_>>(), vec![1, 3]);
    assert_eq!(t.posts[1].text.as_deref(), Some("m3"));

    let t = ForumThread::from_content(thread_content(11, Some(vec![(0, "R"), (2, "CR")])), &messages, &vec![11]).unwrap();
    assert!(t.locked && t.sticky && !t.neutral);
    assert_eq!(t.posts.len(), 1);

    let t = ForumThread::from_content(thread_content(12, Some(vec![(0, "C"), (0, "R")])), &messages, &vec![]).unwrap();
    assert!(t.locked && !t.sticky && !t.neutral);
    assert!(t.posts.is_empty());
}

#[test]
fn thread_errors() {
    let r = ForumThread::from_content(thread_content(10, None), &vec![], &vec![]);
    assert!(matches!(r, Err(ForumDataError::NoPermissions)));
    let r = ForumThread::from_content(thread_content(10, Some(vec![(5, "C")])), &vec![], &vec![]);
    assert!(matches!(r, Err(ForumDataError::NoGlobalPermissions)));
}

fn pre_category() -> CleanedPreCategory {
    CleanedPreCategory::from_content(category_content(Some(vec![("stickies", "[21]")]))).unwrap()
}

#[test]
fn category_from_result() {
    let messages = vec![message(1, 20), message(2, 21)];
    let c = ForumCategory::from_result(
        pre_category(),
        Some(vec![SpecialCount { special_count: 12 }]),
        Some(vec![thread_content(20, Some(vec![(0, "CR")]))]),
        Some(vec![thread_content(21, Some(vec![(0, "R")]))]),
        Some(vec![user(7, "ann"), user(8, "bob")]),
        &messages,
    )
    .unwrap();
    assert_eq!(c.threads_count, 12);
    assert_eq!(c.category.name.as_deref(), Some("General"));
    assert_eq!(c.threads.len(), 1);
    assert!(c.threads[0].neutral);
    assert_eq!(c.threads[0].posts.len(), 1);
    assert_eq!(c.stickies.len(), 1);
    assert!(c.stickies[0].sticky && c.stickies[0].locked);
    assert_eq!(c.users.iter().map(|(k, u)| (k.as_str(), u.username.as_str())).collect::<Vec<_>>(), vec![
        ("7", "ann"),
        ("8", "bob"),
    ]);

    let c = ForumCategory::from_result(
        pre_category(),
        Some(vec![SpecialCount { special_count: 0 }]),
        Some(vec![]),
        None,
        Some(vec![]),
        &vec![],
    )
    .unwrap();
    assert!(c.stickies.is_empty() && c.threads.is_empty() && c.users.is_empty());
}

fn missing_key(r: Result<ForumCategory, ForumDataError>) -> String {
    match r {
        Err(ForumDataError::MissingKey(k)) => k,
        other => panic!("unexpected {:?}", other.map(|c| c.threads_count)),
    }
}

#[test]
fn category_result_errors() {
    let counts = || Some(vec![SpecialCount { special_count: 1 }]);
    assert_eq!(
        missing_key(ForumCategory::from_result(pre_category(), None, None, None, None, &vec![])),
        "threadcount_4"
    );
    assert_eq!(
        missing_key(ForumCategory::from_result(pre_category(), counts(), None, None, Some(vec![]), &vec![])),
        "threads_4"
    );
    assert_eq!(
        missing_key(ForumCategory::from_result(pre_category(), counts(), Some(vec![]), None, None, &vec![])),
        "user"
    );
    let r = ForumCategory::from_result(
        pre_category(),
        Some(vec![]),
        Some(vec![thread_content(20, Some(vec![(0, "C")])), thread_content(22, None)]),
        Some(vec![thread_content(21, Some(vec![(3, "C")]))]),
        Some(vec![]),
        &vec![],
    );
    assert!(matches!(r, Err(ForumDataError::NoPermissions)));
    let r = ForumCategory::from_result(
        pre_category(),
        Some(vec![]),
        Some(vec![]),
        Some(vec![thread_content(21, Some(vec![(3, "C")]))]),
        Some(vec![]),
        &vec![],
    );
    assert!(matches!(r, Err(ForumDataError::NoGlobalPermissions)));
    let r = ForumCategory::from_result(pre_category(), Some(vec![]), Some(vec![]), None, Some(vec![]), &vec![]);
    assert!(matches!(r, Err(ForumDataError::NoThreadCount(4))));
}

#[test]
fn category_pages() {
    let c = ForumCategory::from_result(
        pre_category(),
        Some(vec![SpecialCount { special_count: 25 }]),
        Some(vec![]),
        None,
        Some(vec![]),
        &vec![],
    )
    .unwrap();
    let cats = vec![c];
    let (first, pages) = category_page(&cats, 10, 1).unwrap();
    assert_eq!(first.threads_count, 25);
    assert_eq!(pages.iter().map(|p| (p.page, p.text.as_str(), p.current)).collect::<Vec<_>>(), vec![
        (0, "1", false),
        (1, "2", true),
        (2, "3", false),
    ]);
    match category_page(&vec![], 10, 0) {
        Err(Error::NotFound(m)) => assert_eq!(m, "Couldn't find that category"),
        _ => panic!("expected not found"),
    }
}
