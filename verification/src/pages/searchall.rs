//! Searching the whole website: users and pages whose names or keywords match, best first.
use vstd::prelude::*;
use vstd::string::StringExecFns;

use crate::pages::common::contentapi::{
    append_str, params_list, params_list_text, params_view, SBSPageType, SqlParam, SqlParamView,
    COMMONCONTENT, COMMONUSER,
};
use crate::permute::permute;
use crate::text::chars_of;

use crate::pages::common::contentapi::{law_params_list_placeholders, lemma_placeholders_add, lemma_placeholders_at, lemma_query_fragments, placeholders};
verus! {

/// The search form: the text to look for.
#[derive(Debug, Clone, Default)]
pub struct SearchAllForm {
    pub search: Option<String>,
}

/// A user found by a search.
#[derive(Clone, Debug)]
pub struct SearchAllUser {
    pub username: String,
    pub avatar: String,
}

/// A page found by a search.
#[derive(Clone, Debug)]
pub struct SearchAllContent {
    pub hash: String,
    pub name: String,
    pub literal_type: String,
    /// The values of the page, in the order they were read; a later key replaces an earlier one.
    pub values: Vec<(String, String)>,
    pub keywords: Vec<String>,
}

/// Something a search found.
#[derive(Clone, Debug)]
pub enum SearchAllResult {
    User(SearchAllUser),
    Content(SearchAllContent),
}

/// The pattern a search text is matched with: a prefix match for texts shorter than two
/// bytes, a match anywhere otherwise.
pub open spec fn search_pattern_spec(search: &str) -> Seq<char> {
    if search.len() < 2 {
        search@ + "%"@
    } else {
        "%"@ + search@ + "%"@
    }
}

/// The pattern a search text is matched with.
pub fn search_pattern(search: &str) -> (r: String)
    ensures
        r@ == search_pattern_spec(search),
{
    if search.len() < 2 {
        let r = append_str(append_str(String::new(), search), "%");
        assert(r@ =~= search@ + "%"@);
        r
    } else {
        let r = append_str(append_str(append_str(String::new(), "%"), search), "%");
        assert(r@ =~= "%"@ + search@ + "%"@);
        r
    }
}

/// The query text holds one placeholder for each parameter of its query.
proof fn lemma_searchall_users_text_placeholders()
    ensures
        placeholders(searchall_users_text()) == 1,
{
    lemma_query_fragments();
    reveal_strlit("SELECT id,username,avatar FROM users WHERE ");
    lemma_placeholders_at("SELECT id,username,avatar FROM users WHERE "@, Set::<int>::empty());
    reveal_strlit(" AND username LIKE ?");
    lemma_placeholders_at(" AND username LIKE ?"@, set![19int]);
    lemma_placeholders_add("SELECT id,username,avatar FROM users WHERE "@, COMMONUSER@);
    lemma_placeholders_add("SELECT id,username,avatar FROM users WHERE "@ + COMMONUSER@, " AND username LIKE ?"@);
}

/// The query text holds one placeholder for each parameter of its query.
proof fn lemma_searchall_content_text_placeholders()
    ensures
        placeholders(searchall_content_text()) == 7,
{
    lemma_query_fragments();
    reveal_strlit("SELECT id,hash,name,COALESCE(literalType, '') FROM content WHERE ");
    lemma_placeholders_at("SELECT id,hash,name,COALESCE(literalType, '') FROM content WHERE "@, Set::<int>::empty());
    reveal_strlit(" AND literalType IN (");
    lemma_placeholders_at(" AND literalType IN ("@, Set::<int>::empty());
    law_params_list_placeholders(5);
    reveal_strlit(") AND (name LIKE ? OR id IN (SELECT contentId FROM content_keywords WHERE `value` LIKE ?))");
    lemma_placeholders_at(") AND (name LIKE ? OR id IN (SELECT contentId FROM content_keywords WHERE `value` LIKE ?))"@, set![17int, 87int]);
    lemma_placeholders_add("SELECT id,hash,name,COALESCE(literalType, '') FROM content WHERE "@, COMMONCONTENT@);
    lemma_placeholders_add("SELECT id,hash,name,COALESCE(literalType, '') FROM content WHERE "@ + COMMONCONTENT@, " AND literalType IN ("@);
    lemma_placeholders_add("SELECT id,hash,name,COALESCE(literalType, '') FROM content WHERE "@ + COMMONCONTENT@ + " AND literalType IN ("@, params_list_text(5));
    lemma_placeholders_add("SELECT id,hash,name,COALESCE(literalType, '') FROM content WHERE "@ + COMMONCONTENT@ + " AND literalType IN ("@ + params_list_text(5), ") AND (name LIKE ? OR id IN (SELECT contentId FROM content_keywords WHERE `value` LIKE ?))"@);
}

/// The query text finding users by name.
pub open spec fn searchall_users_text() -> Seq<char> {
    "SELECT id,username,avatar FROM users WHERE "@ + COMMONUSER@ + " AND username LIKE ?"@
}

/// The query (and its parameters) finding the users whose names match a search.
pub fn searchall_users_query(search: &str) -> (r: (String, Vec<SqlParam>))
    ensures
        r.0@ == searchall_users_text(),
        params_view(r.1@) == seq![SqlParamView::Text(search_pattern_spec(search))],
        placeholders(r.0@) == r.1@.len(),
{
    let q = append_str(String::new(), "SELECT id,username,avatar FROM users WHERE ");
    let q = append_str(q, COMMONUSER);
    let q = append_str(q, " AND username LIKE ?");
    assert(q@ =~= searchall_users_text());
    let mut params: Vec<SqlParam> = Vec::new();
    params.push(SqlParam::Text(search_pattern(search)));
    assert(params_view(params@) =~= seq![SqlParamView::Text(search_pattern_spec(search))]);
    proof {
        lemma_searchall_users_text_placeholders();
    }
    (q, params)
}

/// The literal types of pages that hold threads, which a search looks through.
pub open spec fn thread_types_spec() -> Seq<Seq<char>> {
    seq![
        SBSPageType::FORUMTHREAD@,
        SBSPageType::PROGRAM@,
        SBSPageType::RESOURCE@,
        SBSPageType::DIRECTMESSAGE@,
        SBSPageType::DOCUMENTATION@,
    ]
}

/// The literal types of pages that hold threads.
pub fn thread_types() -> (r: Vec<&'static str>)
    ensures
        r@.map_values(|s: &str| s@) == thread_types_spec(),
{
    let mut r: Vec<&'static str> = Vec::new();
    r.push(SBSPageType::FORUMTHREAD);
    r.push(SBSPageType::PROGRAM);
    r.push(SBSPageType::RESOURCE);
    r.push(SBSPageType::DIRECTMESSAGE);
    r.push(SBSPageType::DOCUMENTATION);
    assert(r@.map_values(|s: &str| s@) =~= thread_types_spec());
    r
}

/// The query text finding pages by name or keyword.
pub open spec fn searchall_content_text() -> Seq<char> {
    "SELECT id,hash,name,COALESCE(literalType, '') FROM content WHERE "@ + COMMONCONTENT@
        + " AND literalType IN ("@ + params_list_text(5) + ") AND (name LIKE ? OR id IN (SELECT contentId FROM content_keywords WHERE `value` LIKE ?))"@
}

/// The query (and its parameters) finding the pages that hold threads whose names or
/// keywords match a search.
pub fn searchall_content_query(search: &str) -> (r: (String, Vec<SqlParam>))
    ensures
        r.0@ == searchall_content_text(),
        params_view(r.1@) == thread_types_spec().map_values(|t: Seq<char>| SqlParamView::Text(t)) + seq![
            SqlParamView::Text(search_pattern_spec(search)),
            SqlParamView::Text(search_pattern_spec(search)),
        ],
        placeholders(r.0@) == r.1@.len(),
{
    let types = thread_types();
    assert(types@.len() == 5) by {
        assert(types@.map_values(|s: &str| s@).len() == 5);
    }
    let q = append_str(String::new(), "SELECT id,hash,name,COALESCE(literalType, '') FROM content WHERE ");
    let q = append_str(q, COMMONCONTENT);
    let q = append_str(q, " AND literalType IN (");
    let q = append_str(q, params_list(types.len()).as_str());
    let q = append_str(
        q,
        ") AND (name LIKE ? OR id IN (SELECT contentId FROM content_keywords WHERE `value` LIKE ?))",
    );
    assert(q@ =~= searchall_content_text());
    let mut params: Vec<SqlParam> = Vec::new();
    let mut k: usize = 0;
    while k < types.len()
        invariant
            k <= types@.len(),
            types@.map_values(|s: &str| s@) == thread_types_spec(),
            params_view(params@) == thread_types_spec().take(k as int).map_values(
                |t: Seq<char>| SqlParamView::Text(t),
            ),
        decreases types@.len() - k,
    {
        let ghost before = params@;
        let p = SqlParam::Text(String::from_str(types[k]));
        params.push(p);
        assert(thread_types_spec()[k as int] == types@[k as int]@);
        assert(params@ =~= before.push(p));
        assert(thread_types_spec().take(k as int + 1) =~= thread_types_spec().take(k as int).push(types@[k as int]@));
        assert(params_view(params@) =~= params_view(before).push(SqlParamView::Text(types@[k as int]@)));
        assert(params_view(params@) =~= thread_types_spec().take(k as int + 1).map_values(
            |t: Seq<char>| SqlParamView::Text(t),
        ));
        k = k + 1;
    }
    assert(thread_types_spec().take(5) =~= thread_types_spec());
    let ghost before = params@;
    let p1 = SqlParam::Text(search_pattern(search));
    let p2 = SqlParam::Text(search_pattern(search));
    let ghost g1 = p1;
    let ghost g2 = p2;
    params.push(p1);
    params.push(p2);
    assert(params@ =~= before.push(g1).push(g2));
    assert(params_view(params@) =~= thread_types_spec().map_values(|t: Seq<char>| SqlParamView::Text(t)) + seq![
        SqlParamView::Text(search_pattern_spec(search)),
        SqlParamView::Text(search_pattern_spec(search)),
    ]);
    proof {
        lemma_searchall_content_text_placeholders();
    }
    (q, params)
}

/// A character with ascii capitals made small.
pub open spec fn ascii_lower(c: char) -> char {
    if 'A' <= c <= 'Z' {
        ((c as u32) + 32) as char
    } else {
        c
    }
}

/// A text with ascii capitals made small, as `str::to_ascii_lowercase` does.
pub open spec fn ascii_lower_text(s: Seq<char>) -> Seq<char> {
    s.map_values(|c: char| ascii_lower(c))
}

fn ascii_lower_exec(c: char) -> (r: char)
    ensures
        r == ascii_lower(c),
{
    if 'A' <= c && c <= 'Z' {
        ((c as u8) + 32) as char
    } else {
        c
    }
}

/// The characters of a text with ascii capitals made small.
pub fn to_ascii_lowercase(s: &str) -> (r: Vec<char>)
    ensures
        r@ == ascii_lower_text(s@),
{
    let chars = chars_of(s);
    let mut r: Vec<char> = Vec::new();
    let mut i: usize = 0;
    while i < chars.len()
        invariant
            i <= chars@.len(),
            chars@ == s@,
            r@ == ascii_lower_text(chars@.take(i as int)),
        decreases chars@.len() - i,
    {
        r.push(ascii_lower_exec(chars[i]));
        assert(ascii_lower_text(chars@.take(i as int + 1)) =~= ascii_lower_text(chars@.take(i as int)).push(ascii_lower(chars@[i as int])));
        i = i + 1;
    }
    assert(chars@.take(chars@.len() as int) =~= chars@);
    r
}

/// Whether `t` starts with `p`.
pub open spec fn has_prefix(t: Seq<char>, p: Seq<char>) -> bool {
    p.len() <= t.len() && t.subrange(0, p.len() as int) == p
}

/// Whether `p` occurs in `t`.
pub open spec fn has_infix(t: Seq<char>, p: Seq<char>) -> bool {
    exists|i: int| 0 <= i <= t.len() - p.len() && #[trigger] t.subrange(i, i + p.len()) == p
}

fn occurs_at(t: &Vec<char>, p: &Vec<char>, i: usize) -> (r: bool)
    requires
        i + p@.len() <= t@.len(),
    ensures
        r == (t@.subrange(i as int, i + p@.len()) == p@),
{
    let tl = t.len();
    let mut k: usize = 0;
    while k < p.len()
        invariant
            tl == t@.len(),
            i + p@.len() <= t@.len(),
            k <= p@.len(),
            forall|j: int| 0 <= j < k ==> t@[i + j] == p@[j],
        decreases p@.len() - k,
    {
        if t[i + k] != p[k] {
            assert(t@.subrange(i as int, i + p@.len())[k as int] != p@[k as int]);
            return false;
        }
        k = k + 1;
    }
    assert(t@.subrange(i as int, i + p@.len()) =~= p@);
    true
}

fn contains_exec(t: &Vec<char>, p: &Vec<char>) -> (r: bool)
    ensures
        r == has_infix(t@, p@),
{
    if p.len() > t.len() {
        return false;
    }
    if p.len() == 0 {
        assert(t@.subrange(0int, 0int + p@.len()) =~= p@);
        return true;
    }
    let mut i: usize = 0;
    while i <= t.len() - p.len()
        invariant
            0 < p@.len() <= t@.len(),
            i <= t@.len() - p@.len() + 1,
            forall|j: int| 0 <= j < i ==> #[trigger] t@.subrange(j, j + p@.len()) != p@,
        decreases t@.len() - p@.len() + 1 - i,
    {
        if occurs_at(t, p, i) {
            return true;
        }
        i = i + 1;
    }
    false
}

/// The score of a name against a lowercased search: one for starting with it, one for
/// holding it anywhere (ascii case ignored in the name).
pub open spec fn name_score(name: Seq<char>, search: Seq<char>) -> nat {
    (if has_prefix(ascii_lower_text(name), search) { 1nat } else { 0nat }) + (if has_infix(
        ascii_lower_text(name),
        search,
    ) {
        1nat
    } else {
        0nat
    })
}

fn name_score_exec(name: &str, search: &Vec<char>) -> (r: u128)
    ensures
        r == name_score(name@, search@),
{
    let lower = to_ascii_lowercase(name);
    let mut score: u128 = 0;
    if search.len() <= lower.len() && occurs_at(&lower, search, 0) {
        score = score + 1;
    }
    if contains_exec(&lower, search) {
        score = score + 1;
    }
    score
}

/// Score a name against a search that is already lowercased: 0, 1 or 2.
pub fn search_score_name(name: &str, search: &str) -> (r: u128)
    ensures
        r == name_score(name@, search@),
{
    let s = chars_of(search);
    name_score_exec(name, &s)
}

/// A name that starts with the search also holds it, so it scores the full two points; a name
/// scores one point exactly when it holds the search elsewhere than at its start.
pub proof fn law_prefix_scores_two(name: Seq<char>, search: Seq<char>)
    ensures
        name_score(name, search) <= 2,
        has_prefix(ascii_lower_text(name), search) ==> name_score(name, search) == 2,
        name_score(name, search) == 1 <==> (has_infix(ascii_lower_text(name), search) && !has_prefix(
            ascii_lower_text(name),
            search,
        )),
{
    let t = ascii_lower_text(name);
    if has_prefix(t, search) {
        assert(t.subrange(0int, 0int + search.len()) == search);
        assert(has_infix(t, search));
    }
}

/// The sum of the scores of keywords.
pub open spec fn keywords_score(keywords: Seq<String>, search: Seq<char>) -> nat
    decreases keywords.len(),
{
    if keywords.len() == 0 {
        0
    } else {
        keywords_score(keywords.drop_last(), search) + name_score(keywords.last()@, search)
    }
}

/// The score of a result against a lowercased search, counted in halves: a name match counts
/// two halves for each of its points, a keyword match one.
pub open spec fn result_score(item: SearchAllResult, search: Seq<char>) -> nat {
    match item {
        SearchAllResult::Content(c) => 2 * name_score(c.name@, search) + keywords_score(c.keywords@, search),
        SearchAllResult::User(u) => 2 * name_score(u.username@, search),
    }
}

proof fn lemma_keywords_score_bound(keywords: Seq<String>, search: Seq<char>)
    ensures
        keywords_score(keywords, search) <= 2 * keywords.len(),
    decreases keywords.len(),
{
    if keywords.len() > 0 {
        lemma_keywords_score_bound(keywords.drop_last(), search);
    }
}

/// Score a result against a search that is already lowercased, in halves of a point.
pub fn search_score(item: &SearchAllResult, search: &str) -> (r: u128)
    ensures
        r == result_score(*item, search@),
{
    let s = chars_of(search);
    match item {
        SearchAllResult::Content(c) => {
            let mut score: u128 = 2 * name_score_exec(c.name.as_str(), &s);
            let kl = c.keywords.len();
            let mut k: usize = 0;
            while k < c.keywords.len()
                invariant
                    k <= c.keywords@.len(),
                    kl == c.keywords@.len(),
                    s@ == search@,
                    score == 2 * name_score(c.name@, search@) + keywords_score(c.keywords@.take(k as int), search@),
                decreases c.keywords@.len() - k,
            {
                proof {
                    lemma_keywords_score_bound(c.keywords@.take(k as int), search@);
                    assert(c.keywords@.take(k as int + 1).drop_last() =~= c.keywords@.take(k as int));
                }
                score = score + name_score_exec(c.keywords[k].as_str(), &s);
                k = k + 1;
            }
            assert(c.keywords@.take(c.keywords@.len() as int) =~= c.keywords@);
            score
        },
        SearchAllResult::User(u) => 2 * name_score_exec(u.username.as_str(), &s),
    }
}

/// Whether the item at `a` comes before the one at `b`: a higher score first, and on equal
/// scores the earlier one first (the sort is stable).
pub open spec fn ranks_before(scores: Seq<u128>, a: int, b: int) -> bool {
    scores[a] > scores[b] || (scores[a] == scores[b] && a < b)
}

/// Whether `order` lists the indices of `scores` best first: it holds every index once, in
/// the order of `ranks_before` (a strict total order, so the list is unique).
pub open spec fn is_ranking(order: Seq<usize>, scores: Seq<u128>) -> bool {
    &&& order.len() == scores.len()
    &&& forall|i: int| 0 <= i < order.len() ==> (#[trigger] order[i]) < scores.len()
    &&& forall|i: int, j: int|
        0 <= i < j < order.len() ==> ranks_before(scores, #[trigger] order[i] as int, #[trigger] order[j] as int)
}

/// The indices of the scores, best first, ties in their original order.
pub fn search_order(scores: &Vec<u128>) -> (order: Vec<usize>)
    ensures
        is_ranking(order@, scores@),
{
    let mut order: Vec<usize> = Vec::new();
    let mut k: usize = 0;
    while k < scores.len()
        invariant
            k <= scores@.len(),
            order@.len() == k,
            forall|i: int| 0 <= i < order@.len() ==> (#[trigger] order@[i]) < k,
            forall|i: int, j: int|
                0 <= i < j < order@.len() ==> ranks_before(scores@, #[trigger] order@[i] as int, #[trigger] order@[j] as int),
        decreases scores@.len() - k,
    {
        let mut pos: usize = 0;
        while pos < order.len()
            invariant
                pos <= order@.len(),
                k < scores@.len(),
                forall|i: int| 0 <= i < order@.len() ==> (#[trigger] order@[i]) < k,
                forall|i: int| 0 <= i < pos ==> scores@[k as int] <= scores@[#[trigger] order@[i] as int],
            ensures
                pos <= order@.len(),
                forall|i: int| 0 <= i < pos ==> scores@[k as int] <= scores@[#[trigger] order@[i] as int],
                pos < order@.len() ==> scores@[k as int] > scores@[order@[pos as int] as int],
            decreases order@.len() - pos,
        {
            if scores[k] > scores[order[pos]] {
                break;
            }
            pos = pos + 1;
        }
        let ghost o = order@;
        order.insert(pos, k);
        proof {
            let o2 = order@;
            assert(o2 == o.insert(pos as int, k));
            assert forall|i: int, j: int|
                0 <= i < j < o2.len() implies ranks_before(scores@, #[trigger] o2[i] as int, #[trigger] o2[j] as int) by {
                if j < pos {
                    assert(o2[i] == o[i] && o2[j] == o[j]);
                } else if j == pos {
                    assert(o2[i] == o[i]);
                    assert(scores@[k as int] <= scores@[o[i] as int]);
                } else if i == pos {
                    assert(o2[j] == o[j - 1]);
                    if j - 1 > pos {
                        assert(ranks_before(scores@, o[pos as int] as int, o[j - 1] as int));
                    }
                } else if i < pos {
                    assert(o2[i] == o[i] && o2[j] == o[j - 1]);
                } else {
                    assert(o2[i] == o[i - 1] && o2[j] == o[j - 1]);
                }
            }
            assert forall|i: int| 0 <= i < o2.len() implies (#[trigger] o2[i]) < k + 1 by {
                if i < pos {
                    assert(o2[i] == o[i]);
                } else if i > pos {
                    assert(o2[i] == o[i - 1]);
                }
            }
        }
        k = k + 1;
    }
    order
}

/// The scores of results against a lowercased search.
pub open spec fn result_scores(results: Seq<SearchAllResult>, search: Seq<char>) -> Seq<u128> {
    results.map_values(|x: SearchAllResult| result_score(x, search) as u128)
}

/// Sort search results best first against a lowercased search, keeping the order of equal
/// scores.
pub fn sort_results(results: Vec<SearchAllResult>, search: &str) -> (r: Vec<SearchAllResult>)
    ensures
        exists|order: Seq<usize>|
            {
                &&& is_ranking(order, result_scores(results@, search@))
                &&& r@.len() == results@.len()
                &&& forall|i: int| 0 <= i < r@.len() ==> r@[i] == results@[#[trigger] order[i] as int]
            },
{
    let ghost orig = results@;
    let mut scores: Vec<u128> = Vec::new();
    let mut k: usize = 0;
    while k < results.len()
        invariant
            k <= results@.len(),
            results@ == orig,
            scores@ == result_scores(orig, search@).take(k as int),
        decreases results@.len() - k,
    {
        let sc = search_score(&results[k], search);
        scores.push(sc);
        assert(result_scores(orig, search@).take(k as int + 1) =~= result_scores(orig, search@).take(k as int).push(sc));
        k = k + 1;
    }
    assert(result_scores(orig, search@).take(orig.len() as int) =~= result_scores(orig, search@));
    let order = search_order(&scores);
    proof {
        assert forall|a: int, b: int| 0 <= a < b < order@.len() implies #[trigger] order@[a] != #[trigger] order@[b] by {
            assert(ranks_before(scores@, order@[a] as int, order@[b] as int));
        }
    }
    permute(results, &order)
}

} // verus!
