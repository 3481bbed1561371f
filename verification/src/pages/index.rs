//! The front page and the vote widget: their queries and what they show.
use vstd::prelude::*;
use vstd::string::StringExecFns;

use crate::pages::common::contentapi::{
    append_str, join_common_content, params_view, BasicContent, SqlParam,
    SqlParamView, BASICCONTENTFIELDS, COMMON_CONTENT_JOIN, COMMON_CONTENT_JOIN_END, DOWNVOTESTR,
    UPVOTESTR,
};
use crate::text::str_eq;

use crate::pages::common::contentapi::{lemma_placeholders_add, lemma_placeholders_at, lemma_query_fragments, placeholders};
verus! {

/// The content type of system pages.
pub const SYSTEMTYPE: i8 = 5i8;

/// The query text holds one placeholder for each parameter of its query.
proof fn lemma_systempage_text_placeholders()
    ensures
        placeholders(systempage_text()) == 2,
{
    lemma_query_fragments();
    reveal_strlit("SELECT ");
    lemma_placeholders_at("SELECT "@, Set::<int>::empty());
    reveal_strlit(" FROM content c ");
    lemma_placeholders_at(" FROM content c "@, Set::<int>::empty());
    reveal_strlit("c.id");
    lemma_placeholders_at("c.id"@, Set::<int>::empty());
    reveal_strlit(" WHERE c.contentType = ? AND c.literalType = ?");
    lemma_placeholders_at(" WHERE c.contentType = ? AND c.literalType = ?"@, set![23int, 45int]);
    lemma_placeholders_add("SELECT "@, BASICCONTENTFIELDS@);
    lemma_placeholders_add("SELECT "@ + BASICCONTENTFIELDS@, " FROM content c "@);
    lemma_placeholders_add("SELECT "@ + BASICCONTENTFIELDS@ + " FROM content c "@, COMMON_CONTENT_JOIN@);
    lemma_placeholders_add("SELECT "@ + BASICCONTENTFIELDS@ + " FROM content c "@ + COMMON_CONTENT_JOIN@, "c.id"@);
    lemma_placeholders_add("SELECT "@ + BASICCONTENTFIELDS@ + " FROM content c "@ + COMMON_CONTENT_JOIN@ + "c.id"@, COMMON_CONTENT_JOIN_END@);
    lemma_placeholders_add("SELECT "@ + BASICCONTENTFIELDS@ + " FROM content c "@ + COMMON_CONTENT_JOIN@ + "c.id"@ + COMMON_CONTENT_JOIN_END@, " WHERE c.contentType = ? AND c.literalType = ?"@);
}

/// The query text finding the system pages of a literal type.
pub open spec fn systempage_text() -> Seq<char> {
    "SELECT "@ + BASICCONTENTFIELDS@ + " FROM content c "@ + COMMON_CONTENT_JOIN@ + "c.id"@
        + COMMON_CONTENT_JOIN_END@ + " WHERE c.contentType = ? AND c.literalType = ?"@
}

/// The query (and its parameters) finding the system pages of a literal type.
pub fn get_systempage_query(literal_type: &str) -> (r: (String, Vec<SqlParam>))
    ensures
        r.0@ == systempage_text(),
        params_view(r.1@) == seq![SqlParamView::Int(SYSTEMTYPE as i64), SqlParamView::Text(literal_type@)],
        placeholders(r.0@) == r.1@.len(),
{
    let q = append_str(String::new(), "SELECT ");
    let q = append_str(q, BASICCONTENTFIELDS);
    let q = append_str(q, " FROM content c ");
    let q = append_str(q, join_common_content("c.id").as_str());
    let q = append_str(q, " WHERE c.contentType = ? AND c.literalType = ?");
    assert(q@ =~= systempage_text());
    let mut params: Vec<SqlParam> = Vec::new();
    params.push(SqlParam::Int(SYSTEMTYPE as i64));
    params.push(SqlParam::Text(String::from_str(literal_type)));
    assert(params_view(params@) =~= seq![SqlParamView::Int(SYSTEMTYPE as i64), SqlParamView::Text(literal_type@)]);
    proof {
        lemma_systempage_text_placeholders();
    }
    (q, params)
}

/// The text of the front page: that of the last front page found, if any.
pub fn frontpage_text(pages: Vec<BasicContent>) -> (r: Option<String>)
    ensures
        pages@.len() == 0 ==> r is None,
        pages@.len() > 0 ==> r == Some(pages@.last().text),
{
    let mut pages = pages;
    match pages.pop() {
        Some(page) => Some(page.text),
        None => None,
    }
}

/// The query counting the engagements of a content by type and engagement.
pub const ENGAGEMENTS_QUERY: &'static str = "SELECT `type`,engagement,count(*) FROM content_engagement WHERE contentId = ? GROUP BY `type`,engagement";

/// The counts of engagements by their type followed by the engagement (as `vote+`), filled
/// in order; a later entry replaces an earlier one.
pub struct EngagementCounts {
    pub counts: Vec<(String, i32)>,
}

/// The count stored under `key`, if any.
pub open spec fn count_lookup(counts: Seq<(String, i32)>, key: Seq<char>) -> Option<i32>
    decreases counts.len(),
{
    if counts.len() == 0 {
        None
    } else if counts.last().0@ == key {
        Some(counts.last().1)
    } else {
        count_lookup(counts.drop_last(), key)
    }
}

fn get_count(counts: &Vec<(String, i32)>, key: &str) -> (r: Option<i32>)
    ensures
        r == count_lookup(counts@, key@),
{
    let mut i = counts.len();
    assert(counts@.take(i as int) =~= counts@);
    while i > 0
        invariant
            i <= counts@.len(),
            count_lookup(counts@, key@) == count_lookup(counts@.take(i as int), key@),
        decreases i,
    {
        assert(counts@.take(i as int).drop_last() =~= counts@.take(i - 1));
        if str_eq(counts[i - 1].0.as_str(), key) {
            return Some(counts[i - 1].1);
        }
        i = i - 1;
    }
    None
}

/// A count, zero when missing.
pub open spec fn count_or_zero(counts: Seq<(String, i32)>, key: Seq<char>) -> int {
    match count_lookup(counts, key) {
        Some(c) => c as int,
        None => 0,
    }
}

/// The votes of a content: (upvotes, downvotes, total).
pub fn vote_counts(engagement: &EngagementCounts) -> (r: (i32, i32, i32))
    requires
        i32::MIN <= count_or_zero(engagement.counts@, UPVOTESTR@) + count_or_zero(engagement.counts@, DOWNVOTESTR@)
            <= i32::MAX,
    ensures
        r.0 == count_or_zero(engagement.counts@, UPVOTESTR@),
        r.1 == count_or_zero(engagement.counts@, DOWNVOTESTR@),
        r.2 == r.0 + r.1,
{
    let mut downvotes: i32 = 0;
    let mut upvotes: i32 = 0;
    if let Some(d) = get_count(&engagement.counts, DOWNVOTESTR) {
        downvotes = d;
    }
    if let Some(u) = get_count(&engagement.counts, UPVOTESTR) {
        upvotes = u;
    }
    (upvotes, downvotes, downvotes + upvotes)
}

} // verus!
