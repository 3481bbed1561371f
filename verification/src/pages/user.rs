//! A user's page: the queries that gather it and what it shows.
use vstd::prelude::*;
use vstd::string::StringExecFns;

use crate::links::{image_text, LinkConfig, QueryImage};
use crate::pages::common::contentapi::{
    append_str, join_common_content, params_view, ContentType, SqlParam, SqlParamView,
    UserRelationType, BASICCONTENTFIELDS, BROWSEFIELDS, COMMONCONTENT, COMMONUSER,
    COMMON_CONTENT_JOIN, COMMON_CONTENT_JOIN_END, USER2FIELDS, User2,
};
use crate::pages::common::PageSearch;
use crate::pages::common::contentapi::{browse_order_text, law_desc_order_reverses_its_twin};
use crate::pages::forum_thread::LayoutMeta;

use crate::pages::common::contentapi::{lemma_placeholders_add, lemma_placeholders_at, lemma_query_fragments, placeholders};
verus! {

/// The query text holds one placeholder for each parameter of its query.
proof fn lemma_user_by_name_text_placeholders()
    ensures
        placeholders(user_by_name_text()) == 1,
{
    lemma_query_fragments();
    reveal_strlit("SELECT ");
    lemma_placeholders_at("SELECT "@, Set::<int>::empty());
    reveal_strlit(" FROM users WHERE ");
    lemma_placeholders_at(" FROM users WHERE "@, Set::<int>::empty());
    reveal_strlit(" AND username = ?");
    lemma_placeholders_at(" AND username = ?"@, set![16int]);
    lemma_placeholders_add("SELECT "@, USER2FIELDS@);
    lemma_placeholders_add("SELECT "@ + USER2FIELDS@, " FROM users WHERE "@);
    lemma_placeholders_add("SELECT "@ + USER2FIELDS@ + " FROM users WHERE "@, COMMONUSER@);
    lemma_placeholders_add("SELECT "@ + USER2FIELDS@ + " FROM users WHERE "@ + COMMONUSER@, " AND username = ?"@);
}

/// The query text holds one placeholder for each parameter of its query.
proof fn lemma_badges_text_placeholders()
    ensures
        placeholders(badges_text()) == 3,
{
    lemma_query_fragments();
    reveal_strlit("SELECT ");
    lemma_placeholders_at("SELECT "@, Set::<int>::empty());
    reveal_strlit(" FROM content AS c WHERE ");
    lemma_placeholders_at(" FROM content AS c WHERE "@, Set::<int>::empty());
    reveal_strlit(" AND contentType=? AND c.id IN (SELECT relatedId FROM user_relations WHERE userId = ? AND type = ?)");
    lemma_placeholders_at(" AND contentType=? AND c.id IN (SELECT relatedId FROM user_relations WHERE userId = ? AND type = ?)"@, set![17int, 84int, 97int]);
    lemma_placeholders_add("SELECT "@, BROWSEFIELDS@);
    lemma_placeholders_add("SELECT "@ + BROWSEFIELDS@, " FROM content AS c WHERE "@);
    lemma_placeholders_add("SELECT "@ + BROWSEFIELDS@ + " FROM content AS c WHERE "@, COMMONCONTENT@);
    lemma_placeholders_add("SELECT "@ + BROWSEFIELDS@ + " FROM content AS c WHERE "@ + COMMONCONTENT@, " AND contentType=? AND c.id IN (SELECT relatedId FROM user_relations WHERE userId = ? AND type = ?)"@);
}

/// The query text holds one placeholder for each parameter of its query.
proof fn lemma_userpage_text_placeholders()
    ensures
        placeholders(userpage_text()) == 2,
{
    lemma_query_fragments();
    reveal_strlit("SELECT ");
    lemma_placeholders_at("SELECT "@, Set::<int>::empty());
    reveal_strlit(" FROM content c ");
    lemma_placeholders_at(" FROM content c "@, Set::<int>::empty());
    reveal_strlit("c.id");
    lemma_placeholders_at("c.id"@, Set::<int>::empty());
    reveal_strlit(" WHERE c.contentType = ? AND c.createUserId = ? ORDER BY c.id DESC LIMIT 1");
    lemma_placeholders_at(" WHERE c.contentType = ? AND c.createUserId = ? ORDER BY c.id DESC LIMIT 1"@, set![23int, 46int]);
    lemma_placeholders_add("SELECT "@, BASICCONTENTFIELDS@);
    lemma_placeholders_add("SELECT "@ + BASICCONTENTFIELDS@, " FROM content c "@);
    lemma_placeholders_add("SELECT "@ + BASICCONTENTFIELDS@ + " FROM content c "@, COMMON_CONTENT_JOIN@);
    lemma_placeholders_add("SELECT "@ + BASICCONTENTFIELDS@ + " FROM content c "@ + COMMON_CONTENT_JOIN@, "c.id"@);
    lemma_placeholders_add("SELECT "@ + BASICCONTENTFIELDS@ + " FROM content c "@ + COMMON_CONTENT_JOIN@ + "c.id"@, COMMON_CONTENT_JOIN_END@);
    lemma_placeholders_add("SELECT "@ + BASICCONTENTFIELDS@ + " FROM content c "@ + COMMON_CONTENT_JOIN@ + "c.id"@ + COMMON_CONTENT_JOIN_END@, " WHERE c.contentType = ? AND c.createUserId = ? ORDER BY c.id DESC LIMIT 1"@);
}

/// The query text finding a user by name.
pub open spec fn user_by_name_text() -> Seq<char> {
    "SELECT "@ + USER2FIELDS@ + " FROM users WHERE "@ + COMMONUSER@ + " AND username = ?"@
}

/// The query (and its parameters) finding a user by name.
pub fn get_user_by_name_query(name: &str) -> (r: (String, Vec<SqlParam>))
    ensures
        r.0@ == user_by_name_text(),
        params_view(r.1@) == seq![SqlParamView::Text(name@)],
        placeholders(r.0@) == r.1@.len(),
{
    let q = append_str(String::new(), "SELECT ");
    let q = append_str(q, USER2FIELDS);
    let q = append_str(q, " FROM users WHERE ");
    let q = append_str(q, COMMONUSER);
    let q = append_str(q, " AND username = ?");
    assert(q@ =~= user_by_name_text());
    let mut params: Vec<SqlParam> = Vec::new();
    params.push(SqlParam::Text(String::from_str(name)));
    assert(params_view(params@) =~= seq![SqlParamView::Text(name@)]);
    proof {
        lemma_user_by_name_text_placeholders();
    }
    (q, params)
}

/// The query text finding the badges given to a user.
pub open spec fn badges_text() -> Seq<char> {
    "SELECT "@ + BROWSEFIELDS@ + " FROM content AS c WHERE "@ + COMMONCONTENT@
        + " AND contentType=? AND c.id IN (SELECT relatedId FROM user_relations WHERE userId = ? AND type = ?)"@
}

/// The query (and its parameters) finding the badges (files assigned to a user).
pub fn get_badges_query(uid: i64) -> (r: (String, Vec<SqlParam>))
    ensures
        r.0@ == badges_text(),
        params_view(r.1@) == seq![
            SqlParamView::Int(ContentType::FILE as i64),
            SqlParamView::Int(uid),
            SqlParamView::Int(UserRelationType::ASSIGNCONTENT as i64),
        ],
        placeholders(r.0@) == r.1@.len(),
{
    let q = append_str(String::new(), "SELECT ");
    let q = append_str(q, BROWSEFIELDS);
    let q = append_str(q, " FROM content AS c WHERE ");
    let q = append_str(q, COMMONCONTENT);
    let q = append_str(
        q,
        " AND contentType=? AND c.id IN (SELECT relatedId FROM user_relations WHERE userId = ? AND type = ?)",
    );
    assert(q@ =~= badges_text());
    let mut params: Vec<SqlParam> = Vec::new();
    params.push(SqlParam::Int(ContentType::FILE as i64));
    params.push(SqlParam::Int(uid));
    params.push(SqlParam::Int(UserRelationType::ASSIGNCONTENT as i64));
    assert(params_view(params@) =~= seq![
        SqlParamView::Int(ContentType::FILE as i64),
        SqlParamView::Int(uid),
        SqlParamView::Int(UserRelationType::ASSIGNCONTENT as i64),
    ]);
    proof {
        lemma_badges_text_placeholders();
    }
    (q, params)
}

/// The query text finding a user's latest user page.
pub open spec fn userpage_text() -> Seq<char> {
    "SELECT "@ + BASICCONTENTFIELDS@ + " FROM content c "@ + COMMON_CONTENT_JOIN@ + "c.id"@
        + COMMON_CONTENT_JOIN_END@ + " WHERE c.contentType = ? AND c.createUserId = ? ORDER BY c.id DESC LIMIT 1"@
}

/// The query (and its parameters) finding a user's latest user page (their bio).
pub fn get_userpage_query(user: i64) -> (r: (String, Vec<SqlParam>))
    ensures
        r.0@ == userpage_text(),
        params_view(r.1@) == seq![SqlParamView::Int(ContentType::USERPAGE as i64), SqlParamView::Int(user)],
        placeholders(r.0@) == r.1@.len(),
{
    let q = append_str(String::new(), "SELECT ");
    let q = append_str(q, BASICCONTENTFIELDS);
    let q = append_str(q, " FROM content c ");
    let q = append_str(q, join_common_content("c.id").as_str());
    let q = append_str(q, " WHERE c.contentType = ? AND c.createUserId = ? ORDER BY c.id DESC LIMIT 1");
    assert(q@ =~= userpage_text());
    let mut params: Vec<SqlParam> = Vec::new();
    params.push(SqlParam::Int(ContentType::USERPAGE as i64));
    params.push(SqlParam::Int(user));
    assert(params_view(params@) =~= seq![SqlParamView::Int(ContentType::USERPAGE as i64), SqlParamView::Int(user)]);
    proof {
        lemma_userpage_text_placeholders();
    }
    (q, params)
}

/// The search for everything a user submitted, newest first.
pub fn user_submissions_search(user_id: i64) -> (r: PageSearch)
    ensures
        r.search is None,
        r.order@ == "id_desc"@,
        browse_order_text(r.order@) == Some(browse_order_text("id"@)->0 + " DESC"@),
        r.subtype is None,
        r.system@ == crate::pages::common::ANYSYSTEM@,
        r.category is None,
        r.user_id == Some(user_id),
        !r.removed,
        r.page == 0,
{
    let mut search = PageSearch::default();
    search.subtype = None;
    search.user_id = Some(user_id);
    search.order = String::from_str("id_desc");
    proof {
        reveal_strlit("id");
        reveal_strlit("_desc");
        reveal_strlit("id_desc");
        assert("id_desc"@ =~= "id"@ + "_desc"@);
        law_desc_order_reverses_its_twin("id"@);
    }
    search
}

/// The metadata of a user's page: their name, their avatar and their page.
pub fn user_meta(links: &LinkConfig, user: &User2) -> (r: LayoutMeta)
    ensures
        r.title@ == "SBS \u{2981} "@ + user.username@,
        r.description@.len() == 0,
        r.image matches Some(i) && i@ == image_text(*links, user.avatar@, QueryImage::Cropped300),
        r.canonical matches Some(c) && c@ == links.http_root@ + "/user/"@ + user.username@,
{
    let title = append_str(append_str(String::new(), "SBS \u{2981} "), user.username.as_str());
    LayoutMeta {
        title,
        description: String::new(),
        image: Some(links.image(user.avatar.as_str(), QueryImage::Cropped300)),
        canonical: Some(links.user_unsafe(user.username.as_str())),
    }
}

} // verus!
