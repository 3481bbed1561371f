//! Links of the old website, redirected to their places on this one.
use vstd::prelude::*;
use vstd::string::StringExecFns;

use crate::links::{forum_post_text, forum_thread_text, LinkConfig};
use crate::pages::common::contentapi::{
    append_str, params_view, SqlParam, SqlParamView, BASICCONTENTFIELDS, COMMON_CONTENT_JOIN,
    COMMON_CONTENT_JOIN_END, join_common_content,
};
use crate::response::Error;
use crate::text::{decimal_string, decimal_text, push_decimal};

use crate::pages::common::contentapi::{lemma_placeholders_add, lemma_placeholders_at, lemma_query_fragments, placeholders};
verus! {

/// The query of an old page link: the page id and maybe the comment id.
#[derive(Debug, Default, Clone)]
pub struct PageQuery {
    pub pid: i64,
    pub cid: Option<i64>,
}

/// The join that restricts content `c` to what everyone may read.
pub open spec fn common_join_c() -> Seq<char> {
    COMMON_CONTENT_JOIN@ + "c.id"@ + COMMON_CONTENT_JOIN_END@
}

/// The join on readable content holds no placeholder.
proof fn lemma_common_join_c_placeholders()
    ensures
        placeholders(common_join_c()) == 0,
{
    lemma_query_fragments();
    lemma_placeholders_add(COMMON_CONTENT_JOIN@, "c.id"@);
    lemma_placeholders_add(COMMON_CONTENT_JOIN@ + "c.id"@, COMMON_CONTENT_JOIN_END@);
}

/// The query text holds one placeholder for each parameter of its query.
proof fn lemma_basic_by_pid_text_placeholders()
    ensures
        placeholders(basic_by_pid_text()) == 2,
{
    lemma_query_fragments();
    reveal_strlit("SELECT ");
    lemma_placeholders_at("SELECT "@, Set::<int>::empty());
    reveal_strlit(" FROM content c ");
    lemma_placeholders_at(" FROM content c "@, Set::<int>::empty());
    lemma_common_join_c_placeholders();
    reveal_strlit(" JOIN content_values v ON v.contentId=c.id WHERE  v.`key`=? AND v.value=? GROUP BY c.id");
    lemma_placeholders_at(" JOIN content_values v ON v.contentId=c.id WHERE  v.`key`=? AND v.value=? GROUP BY c.id"@, set![58int, 72int]);
    lemma_placeholders_add("SELECT "@, BASICCONTENTFIELDS@);
    lemma_placeholders_add("SELECT "@ + BASICCONTENTFIELDS@, " FROM content c "@);
    lemma_placeholders_add("SELECT "@ + BASICCONTENTFIELDS@ + " FROM content c "@, common_join_c());
    lemma_placeholders_add("SELECT "@ + BASICCONTENTFIELDS@ + " FROM content c "@ + common_join_c(), " JOIN content_values v ON v.contentId=c.id WHERE  v.`key`=? AND v.value=? GROUP BY c.id"@);
}

/// The query text holds one placeholder for each parameter of its query.
proof fn lemma_msgid_by_cid_text_placeholders()
    ensures
        placeholders(msgid_by_cid_text()) == 3,
{
    lemma_query_fragments();
    reveal_strlit("SELECT m.id FROM messages m JOIN message_values v ON m.id=v.messageId WHERE v.`key`=? AND v.`value`=? AND m.contentId = ?");
    lemma_placeholders_at("SELECT m.id FROM messages m JOIN message_values v ON m.id=v.messageId WHERE v.`key`=? AND v.`value`=? AND m.contentId = ?"@, set![84int, 100int, 120int]);
}

/// The query text holds one placeholder for each parameter of its query.
proof fn lemma_msgid_contenthash_by_fpid_text_placeholders()
    ensures
        placeholders(msgid_contenthash_by_fpid_text()) == 2,
{
    lemma_query_fragments();
    reveal_strlit("SELECT m.id,(SELECT c.hash FROM content c ");
    lemma_placeholders_at("SELECT m.id,(SELECT c.hash FROM content c "@, Set::<int>::empty());
    lemma_common_join_c_placeholders();
    reveal_strlit(" WHERE m.contentId = c.id) FROM messages m JOIN message_values v ON m.id=v.messageId WHERE v.`key`=? AND v.`value`=?");
    lemma_placeholders_at(" WHERE m.contentId = c.id) FROM messages m JOIN message_values v ON m.id=v.messageId WHERE v.`key`=? AND v.`value`=?"@, set![99int, 115int]);
    lemma_placeholders_add("SELECT m.id,(SELECT c.hash FROM content c "@, common_join_c());
    lemma_placeholders_add("SELECT m.id,(SELECT c.hash FROM content c "@ + common_join_c(), " WHERE m.contentId = c.id) FROM messages m JOIN message_values v ON m.id=v.messageId WHERE v.`key`=? AND v.`value`=?"@);
}

/// The query text holds one placeholder for each parameter of its query.
proof fn lemma_contenthash_by_ftid_text_placeholders()
    ensures
        placeholders(contenthash_by_ftid_text()) == 2,
{
    lemma_query_fragments();
    reveal_strlit("SELECT c.hash FROM content c ");
    lemma_placeholders_at("SELECT c.hash FROM content c "@, Set::<int>::empty());
    lemma_common_join_c_placeholders();
    reveal_strlit(" JOIN content_values v ON v.contentId = c.id WHERE v.`key`=? AND v.`value`=?");
    lemma_placeholders_at(" JOIN content_values v ON v.contentId = c.id WHERE v.`key`=? AND v.`value`=?"@, set![59int, 75int]);
    lemma_placeholders_add("SELECT c.hash FROM content c "@, common_join_c());
    lemma_placeholders_add("SELECT c.hash FROM content c "@ + common_join_c(), " JOIN content_values v ON v.contentId = c.id WHERE v.`key`=? AND v.`value`=?"@);
}

/// The query text finding a page by its old id.
pub open spec fn basic_by_pid_text() -> Seq<char> {
    "SELECT "@ + BASICCONTENTFIELDS@ + " FROM content c "@ + common_join_c()
        + " JOIN content_values v ON v.contentId=c.id WHERE  v.`key`=? AND v.value=? GROUP BY c.id"@
}

/// The query (and its parameters) finding a page by its old id.
pub fn get_basic_by_pid_query(pid: i64) -> (r: (String, Vec<SqlParam>))
    ensures
        r.0@ == basic_by_pid_text(),
        params_view(r.1@) == seq![SqlParamView::Text("pid"@), SqlParamView::Text(decimal_text(pid as int))],
        placeholders(r.0@) == r.1@.len(),
{
    let q = append_str(String::new(), "SELECT ");
    let q = append_str(q, BASICCONTENTFIELDS);
    let q = append_str(q, " FROM content c ");
    let q = append_str(q, join_common_content("c.id").as_str());
    let q = append_str(q, " JOIN content_values v ON v.contentId=c.id WHERE  v.`key`=? AND v.value=? GROUP BY c.id");
    assert(q@ =~= basic_by_pid_text());
    let mut params: Vec<SqlParam> = Vec::new();
    params.push(SqlParam::Text(String::from_str("pid")));
    params.push(SqlParam::Text(decimal_string(pid)));
    assert(params_view(params@) =~= seq![SqlParamView::Text("pid"@), SqlParamView::Text(decimal_text(pid as int))]);
    proof {
        lemma_basic_by_pid_text_placeholders();
    }
    (q, params)
}

/// The query text finding a post by its old comment id within a page.
pub open spec fn msgid_by_cid_text() -> Seq<char> {
    "SELECT m.id FROM messages m JOIN message_values v ON m.id=v.messageId WHERE v.`key`=? AND v.`value`=? AND m.contentId = ?"@
}

/// The query (and its parameters) finding a post by its old comment id within a page.
pub fn get_msgid_by_cid_query(content_id: i64, cid: i64) -> (r: (String, Vec<SqlParam>))
    ensures
        r.0@ == msgid_by_cid_text(),
        params_view(r.1@) == seq![
            SqlParamView::Text("cid"@),
            SqlParamView::Text(decimal_text(cid as int)),
            SqlParamView::Text(decimal_text(content_id as int)),
        ],
        placeholders(r.0@) == r.1@.len(),
{
    let q = String::from_str(
        "SELECT m.id FROM messages m JOIN message_values v ON m.id=v.messageId WHERE v.`key`=? AND v.`value`=? AND m.contentId = ?",
    );
    let mut params: Vec<SqlParam> = Vec::new();
    params.push(SqlParam::Text(String::from_str("cid")));
    params.push(SqlParam::Text(decimal_string(cid)));
    params.push(SqlParam::Text(decimal_string(content_id)));
    assert(params_view(params@) =~= seq![
        SqlParamView::Text("cid"@),
        SqlParamView::Text(decimal_text(cid as int)),
        SqlParamView::Text(decimal_text(content_id as int)),
    ]);
    proof {
        lemma_msgid_by_cid_text_placeholders();
    }
    (q, params)
}

/// The query text finding a post and its thread's hash by the post's old id.
pub open spec fn msgid_contenthash_by_fpid_text() -> Seq<char> {
    "SELECT m.id,(SELECT c.hash FROM content c "@ + common_join_c()
        + " WHERE m.contentId = c.id) FROM messages m JOIN message_values v ON m.id=v.messageId WHERE v.`key`=? AND v.`value`=?"@
}

/// The query (and its parameters) finding a post and its thread's hash by the post's old id.
pub fn get_msgid_contenthash_by_fpid_query(fpid: i64) -> (r: (String, Vec<SqlParam>))
    ensures
        r.0@ == msgid_contenthash_by_fpid_text(),
        params_view(r.1@) == seq![SqlParamView::Text("fpid"@), SqlParamView::Text(decimal_text(fpid as int))],
        placeholders(r.0@) == r.1@.len(),
{
    let q = append_str(String::new(), "SELECT m.id,(SELECT c.hash FROM content c ");
    let q = append_str(q, join_common_content("c.id").as_str());
    let q = append_str(
        q,
        " WHERE m.contentId = c.id) FROM messages m JOIN message_values v ON m.id=v.messageId WHERE v.`key`=? AND v.`value`=?",
    );
    assert(q@ =~= msgid_contenthash_by_fpid_text());
    let mut params: Vec<SqlParam> = Vec::new();
    params.push(SqlParam::Text(String::from_str("fpid")));
    params.push(SqlParam::Text(decimal_string(fpid)));
    assert(params_view(params@) =~= seq![SqlParamView::Text("fpid"@), SqlParamView::Text(decimal_text(fpid as int))]);
    proof {
        lemma_msgid_contenthash_by_fpid_text_placeholders();
    }
    (q, params)
}

/// The query text finding a thread's hash by its old id.
pub open spec fn contenthash_by_ftid_text() -> Seq<char> {
    "SELECT c.hash FROM content c "@ + common_join_c()
        + " JOIN content_values v ON v.contentId = c.id WHERE v.`key`=? AND v.`value`=?"@
}

/// The query (and its parameters) finding a thread's hash by its old id.
pub fn get_contenthash_by_ftid_query(ftid: i64) -> (r: (String, Vec<SqlParam>))
    ensures
        r.0@ == contenthash_by_ftid_text(),
        params_view(r.1@) == seq![SqlParamView::Text("ftid"@), SqlParamView::Text(decimal_text(ftid as int))],
        placeholders(r.0@) == r.1@.len(),
{
    let q = append_str(String::new(), "SELECT c.hash FROM content c ");
    let q = append_str(q, join_common_content("c.id").as_str());
    let q = append_str(q, " JOIN content_values v ON v.contentId = c.id WHERE v.`key`=? AND v.`value`=?");
    assert(q@ =~= contenthash_by_ftid_text());
    let mut params: Vec<SqlParam> = Vec::new();
    params.push(SqlParam::Text(String::from_str("ftid")));
    params.push(SqlParam::Text(decimal_string(ftid)));
    assert(params_view(params@) =~= seq![SqlParamView::Text("ftid"@), SqlParamView::Text(decimal_text(ftid as int))]);
    proof {
        lemma_contenthash_by_ftid_text_placeholders();
    }
    (q, params)
}

/// Where an old page link goes: to the post found for its comment, else to the page.
pub fn pid_redirect_url(links: &LinkConfig, page_hash: &str, msgid: Option<i64>) -> (r: String)
    ensures
        r@ == match msgid {
            Some(m) => forum_post_text(*links, m, page_hash@),
            None => forum_thread_text(*links, page_hash@),
        },
{
    match msgid {
        Some(m) => links.forum_post_unsafe(m, page_hash),
        None => links.forum_thread_unsafe(page_hash),
    }
}

/// Where an old thread link goes: the thread, at the page asked for; or not found.
pub fn ftid_redirect_url(links: &LinkConfig, ftid: i64, hash: Option<String>, page: Option<i32>) -> (r: Result<String, Error>)
    ensures
        match hash {
            Some(h) => r matches Ok(u) && u@ == forum_thread_text(*links, h@) + match page {
                Some(p) => "?page="@ + decimal_text(p as int),
                None => Seq::empty(),
            },
            None => r matches Err(Error::NotFound(m)) && m@ == "Can't find thread "@ + decimal_text(ftid as int),
        },
{
    if let Some(hash) = hash {
        let mut url = links.forum_thread_unsafe(hash.as_str());
        if let Some(page) = page {
            url = push_decimal(append_str(url, "?page="), page as i64);
        } else {
            assert(url@ =~= url@ + Seq::<char>::empty());
        }
        Ok(url)
    } else {
        let m = push_decimal(append_str(String::new(), "Can't find thread "), ftid);
        Err(Error::NotFound(m))
    }
}

/// Where an old post link goes: the post in its thread; or not found.
pub fn fpid_redirect_url(links: &LinkConfig, fpid: i64, found: Option<(i64, String)>) -> (r: Result<String, Error>)
    ensures
        match found {
            Some((m, h)) => r matches Ok(u) && u@ == forum_post_text(*links, m, h@),
            None => r matches Err(Error::NotFound(e)) && e@ == "Can't find post "@ + decimal_text(fpid as int),
        },
{
    if let Some((msgid, hash)) = found {
        Ok(links.forum_post_unsafe(msgid, hash.as_str()))
    } else {
        let m = push_decimal(append_str(String::new(), "Can't find post "), fpid);
        Err(Error::NotFound(m))
    }
}

} // verus!
