//! The forum: the keys its requests use, the path shown above it, and its page lists.
use vstd::prelude::*;
use vstd::string::StringExecFns;

use crate::api_data::{
    build_request, named, requests_view, search, values_view, Content, FullRequest, RequestType,
    RequestValue, RequestValueView, RequestView, SBSContentType,
};
use crate::pages::common::contentapi::append_str;
use crate::json::strings_view;
use crate::permute::permute;
use crate::text::{chars_of, decimal_string, decimal_text, lemma_decimal_text_injective, push_decimal};

verus! {

/// Names of the parts of forum requests that belong to one category.
pub struct Keygen();

/// `prefix` followed by the decimal text of `id`.
pub open spec fn key_text(prefix: Seq<char>, id: i64) -> Seq<char> {
    prefix + decimal_text(id as int)
}

fn key(prefix: &str, id: i64) -> (r: String)
    ensures
        r@ == key_text(prefix@, id),
{
    push_decimal(append_str(String::new(), prefix), id)
}

impl Keygen {
    /// The name of the thread count of a category.
    pub fn threadcount(id: i64) -> (r: String)
        ensures
            r@ == key_text("threadcount_"@, id),
    {
        key("threadcount_", id)
    }

    /// The name of the threads of a category.
    pub fn threads(id: i64) -> (r: String)
        ensures
            r@ == key_text("threads_"@, id),
    {
        key("threads_", id)
    }

    /// The name of the sticky threads of a category.
    pub fn stickythreads(id: i64) -> (r: String)
        ensures
            r@ == key_text("stickythreads_"@, id),
    {
        key("stickythreads_", id)
    }

    /// The name of the list of sticky thread ids of a category.
    pub fn stickies(id: i64) -> (r: String)
        ensures
            r@ == key_text("stickies_"@, id),
    {
        key("stickies_", id)
    }
}

/// Different categories get different request names: a key names exactly one category id.
pub proof fn law_keys_name_one_category(prefix: Seq<char>, a: i64, b: i64)
    requires
        key_text(prefix, a) == key_text(prefix, b),
    ensures
        a == b,
{
    assert(key_text(prefix, a).skip(prefix.len() as int) =~= decimal_text(a as int));
    assert(key_text(prefix, b).skip(prefix.len() as int) =~= decimal_text(b as int));
    lemma_decimal_text_injective(a as int, b as int);
}

/// One step of the path shown at the top of forum pages.
#[derive(Debug, Clone)]
pub struct ForumPathItem {
    pub link: String,
    pub title: String,
}

impl ForumPathItem {
    /// The step for a category: its page, by hash, and its name (`NOTFOUND` without one).
    pub fn from_category(category: &Content) -> (r: Self)
        ensures
            r.link@ == "/forum/category/"@ + match category.hash {
                Some(h) => h@,
                None => Seq::empty(),
            },
            r.title@ == match category.name {
                Some(n) => n@,
                None => "NOTFOUND"@,
            },
    {
        let link = append_str(String::new(), "/forum/category/");
        let link = match &category.hash {
            Some(h) => append_str(link, h.as_str()),
            None => {
                let l = link;
                assert(l@ =~= "/forum/category/"@ + Seq::<char>::empty());
                l
            },
        };
        let title = match &category.name {
            Some(n) => n.clone(),
            None => String::from_str("NOTFOUND"),
        };
        ForumPathItem { link, title }
    }

    /// The first step: the forum itself.
    pub fn root() -> (r: Self)
        ensures
            r.link@ == "/forum"@,
            r.title@ == "Root"@,
    {
        ForumPathItem { link: String::from_str("/forum"), title: String::from_str("Root") }
    }
}

/// One entry of a list of pages.
#[derive(Debug, Clone)]
pub struct ForumPagelistItem {
    pub text: String,
    pub current: bool,
    pub page: i32,
}

// --------------------------
// *   REQUEST GENERATION   *
// --------------------------

/// The fields read for threads (values and permissions tell stickies and locks).
pub const THREADFIELDS: &'static str = "id,name,lastCommentId,literalType,hash,parentId,commentCount,createDate,values,permissions";
/// The fields read for categories (values hold the stickies).
pub const CATEGORYFIELDS: &'static str = "id,hash,name,description,literalType,values";
pub const THREADKEY: &'static str = "thread";
pub const CATEGORYKEY: &'static str = "category";
pub const PREMESSAGEKEY: &'static str = "premessage";

/// The query text of a category request.
pub open spec fn category_query_text(hash: Option<String>, fcid: Option<i64>) -> Seq<char> {
    "literalType = @category_literal and !notdeleted()"@ + match (hash, fcid) {
        (Some(_), _) => " and hash = @hash"@,
        (None, Some(_)) => " and !valuelike(@fcid_key, @fcid)"@,
        (None, None) => Seq::empty(),
    }
}

/// The values of a category request.
pub open spec fn category_values(hash: Option<String>, fcid: Option<i64>) -> Seq<(Seq<char>, RequestValueView)> {
    seq![("category_literal"@, RequestValueView::Text(SBSContentType::forumcategory.literal()))] + match (
        hash,
        fcid,
    ) {
        (Some(h), _) => seq![("hash"@, RequestValueView::Text(h@))],
        (None, Some(f)) => seq![
            ("fcid_key"@, RequestValueView::Text("fcid"@)),
            ("fcid"@, RequestValueView::Int(f)),
        ],
        (None, None) => Seq::empty(),
    }
}

/// A request for forum categories only: all of them, or the one with the given hash, or
/// else the one with the given old id.
pub fn get_category_request(hash: Option<String>, fcid: Option<i64>) -> (r: FullRequest)
    ensures
        values_view(r.values@) == category_values(hash, fcid),
        requests_view(r.requests@) == seq![
            named(
                search(
                    RequestType::content,
                    CATEGORYKEY@,
                    Some(category_query_text(hash, fcid)),
                    None,
                    0,
                    0,
                ),
                CATEGORYKEY@,
            ),
        ],
{
    let ghost gh = hash;
    let mut request = FullRequest::new();
    request.add_value(
        "category_literal",
        RequestValue::Text(String::from_str(SBSContentType::forumcategory.to_literal())),
    );
    let mut real_query = String::from_str("literalType = @category_literal and !notdeleted()");
    if let Some(hash) = hash {
        request.add_value("hash", RequestValue::Text(hash));
        real_query = append_str(real_query, " and hash = @hash");
    } else if let Some(fcid) = fcid {
        request.add_value("fcid_key", RequestValue::Text(String::from_str("fcid")));
        request.add_value("fcid", RequestValue::Int(fcid));
        real_query = append_str(real_query, " and !valuelike(@fcid_key, @fcid)");
    }
    assert(real_query@ =~= category_query_text(gh, fcid));
    assert(values_view(request.values@) =~= category_values(gh, fcid));
    let mut category_request = build_request(
        RequestType::content,
        CATEGORYKEY,
        Some(real_query),
        None,
        0,
        0,
    );
    category_request.name = Some(String::from_str(CATEGORYKEY));
    request.requests.push(category_request);
    assert(requests_view(request.requests@) =~= seq![
        named(
            search(RequestType::content, CATEGORYKEY@, Some(category_query_text(gh, fcid)), None, 0, 0),
            CATEGORYKEY@,
        ),
    ]);
    request
}

/// `t` when `b` holds, else nothing.
pub open spec fn when(b: bool, t: Seq<char>) -> Seq<char> {
    if b {
        t
    } else {
        Seq::empty()
    }
}

/// The values of a thread lookup request.
pub open spec fn prepost_values(fpid: Option<i64>, post_id: Option<i64>, ftid: Option<i64>, thread_hash: Option<String>) -> Seq<(Seq<char>, RequestValueView)> {
    seq![
        ("thread_literal"@, RequestValueView::Text(SBSContentType::forumthread.literal())),
        ("category_literal"@, RequestValueView::Text(SBSContentType::forumcategory.literal())),
    ] + match fpid {
        Some(f) => seq![("fpid"@, RequestValueView::Int(f)), ("fpidkey"@, RequestValueView::Text("fpid"@))],
        None => Seq::empty(),
    } + match post_id {
        Some(p) => seq![("postId"@, RequestValueView::Int(p))],
        None => Seq::empty(),
    } + match ftid {
        Some(f) => seq![("ftid"@, RequestValueView::Int(f)), ("ftidkey"@, RequestValueView::Text("ftid"@))],
        None => Seq::empty(),
    } + match thread_hash {
        Some(h) => seq![("hash"@, RequestValueView::Text(h@))],
        None => Seq::empty(),
    }
}

/// The query finding the post a thread lookup is limited by.
pub open spec fn prepost_post_query(fpid: Option<i64>, post_id: Option<i64>) -> Seq<char> {
    "!basiccomments()"@ + when(fpid is Some, " and !valuelike(@fpidkey, @fpid)"@) + when(
        post_id is Some,
        " and id = @postId"@,
    )
}

/// The query finding the thread of a thread lookup.
pub open spec fn prepost_thread_query(fpid: Option<i64>, post_id: Option<i64>, ftid: Option<i64>, thread_hash: Option<String>) -> Seq<char> {
    "literalType = @thread_literal and !notdeleted()"@ + when(
        fpid is Some || post_id is Some,
        " and id in @premessage.contentId"@,
    ) + when(ftid is Some, " and !valuelike(@ftidkey, @ftid)"@) + when(
        thread_hash is Some,
        " and hash = @hash"@,
    )
}

/// The searches of a thread lookup request.
pub open spec fn prepost_requests(fpid: Option<i64>, post_id: Option<i64>, ftid: Option<i64>, thread_hash: Option<String>) -> Seq<RequestView> {
    (if fpid is Some || post_id is Some {
        seq![
            named(
                search(RequestType::message, "id,contentId"@, Some(prepost_post_query(fpid, post_id)), None, 0, 0),
                PREMESSAGEKEY@,
            ),
        ]
    } else {
        Seq::empty()
    }) + seq![
        named(
            search(
                RequestType::content,
                THREADFIELDS@,
                Some(prepost_thread_query(fpid, post_id, ftid, thread_hash)),
                None,
                0,
                0,
            ),
            THREADKEY@,
        ),
        named(
            search(
                RequestType::content,
                CATEGORYFIELDS@,
                Some("literalType = @category_literal and !notdeleted() and id in @thread.parentId"@),
                None,
                0,
                0,
            ),
            CATEGORYKEY@,
        ),
    ]
}

/// The request that looks up a thread (and its category) before its posts are read: by the
/// post it must hold (old id `fpid` and/or `post_id`), and by its old id `ftid` and/or hash.
/// Each given limit applies.
pub fn get_prepost_request(fpid: Option<i64>, post_id: Option<i64>, ftid: Option<i64>, thread_hash: Option<String>) -> (r: FullRequest)
    ensures
        values_view(r.values@) == prepost_values(fpid, post_id, ftid, thread_hash),
        requests_view(r.requests@) == prepost_requests(fpid, post_id, ftid, thread_hash),
{
    let ghost gh = thread_hash;
    let mut request = FullRequest::new();
    request.add_value(
        "thread_literal",
        RequestValue::Text(String::from_str(SBSContentType::forumthread.to_literal())),
    );
    request.add_value(
        "category_literal",
        RequestValue::Text(String::from_str(SBSContentType::forumcategory.to_literal())),
    );
    let mut post_limited = false;
    let mut post_query = String::from_str("!basiccomments()");
    let mut thread_query = String::from_str("literalType = @thread_literal and !notdeleted()");
    if let Some(fpid) = fpid {
        request.add_value("fpid", RequestValue::Int(fpid));
        request.add_value("fpidkey", RequestValue::Text(String::from_str("fpid")));
        post_query = append_str(post_query, " and !valuelike(@fpidkey, @fpid)");
        post_limited = true;
    }
    if let Some(post_id) = post_id {
        request.add_value("postId", RequestValue::Int(post_id));
        post_query = append_str(post_query, " and id = @postId");
        post_limited = true;
    }
    assert(post_query@ =~= prepost_post_query(fpid, post_id));
    if post_limited {
        let mut message_request = build_request(
            RequestType::message,
            "id,contentId",
            Some(post_query),
            None,
            0,
            0,
        );
        message_request.name = Some(String::from_str(PREMESSAGEKEY));
        request.requests.push(message_request);
        thread_query = append_str(thread_query, " and id in @premessage.contentId");
    }
    if let Some(ftid) = ftid {
        request.add_value("ftid", RequestValue::Int(ftid));
        request.add_value("ftidkey", RequestValue::Text(String::from_str("ftid")));
        thread_query = append_str(thread_query, " and !valuelike(@ftidkey, @ftid)");
    }
    if let Some(thread_hash) = thread_hash {
        request.add_value("hash", RequestValue::Text(thread_hash));
        thread_query = append_str(thread_query, " and hash = @hash");
    }
    assert(thread_query@ =~= prepost_thread_query(fpid, post_id, ftid, gh));
    assert(values_view(request.values@) =~= prepost_values(fpid, post_id, ftid, gh));
    let mut thread_request = build_request(
        RequestType::content,
        THREADFIELDS,
        Some(thread_query),
        None,
        0,
        0,
    );
    thread_request.name = Some(String::from_str(THREADKEY));
    request.requests.push(thread_request);
    let mut category_request = build_request(
        RequestType::content,
        CATEGORYFIELDS,
        Some(String::from_str("literalType = @category_literal and !notdeleted() and id in @thread.parentId")),
        None,
        0,
        0,
    );
    category_request.name = Some(String::from_str(CATEGORYKEY));
    request.requests.push(category_request);
    assert(requests_view(request.requests@) =~= prepost_requests(fpid, post_id, ftid, gh));
    request
}

/// A category with the parts forum requests need checked: its id, its name and the ids of
/// its sticky threads, beside the category itself.
#[derive(Debug, Clone)]
pub struct CleanedPreCategory {
    pub category: Content,
    pub stickies: Vec<i64>,
    pub id: i64,
    pub name: String,
}

/// The condition shared by the thread searches of a category.
pub open spec fn base_query_text(id: i64) -> Seq<char> {
    "parentId = {{"@ + decimal_text(id as int) + "}} and literalType = @thread_literal and !notdeleted()"@
}

/// The searches for one category: its latest threads that are not sticky, its sticky threads
/// when on the first page, and its thread count.
pub open spec fn category_thread_requests(c: CleanedPreCategory, limit: i32, skip: i32) -> Seq<RequestView> {
    let base = base_query_text(c.id);
    let sk = key_text("stickies_"@, c.id);
    seq![
        named(
            search(
                RequestType::content,
                THREADFIELDS@,
                Some(base + " and id not in @"@ + sk),
                Some("lastCommentId_desc"@),
                limit as i64,
                skip as i64,
            ),
            key_text("threads_"@, c.id),
        ),
    ] + (if skip == 0 {
        seq![
            named(
                search(
                    RequestType::content,
                    THREADFIELDS@,
                    Some(base + " and id in @"@ + sk),
                    Some("lastCommentId_desc"@),
                    0,
                    0,
                ),
                key_text("stickythreads_"@, c.id),
            ),
        ]
    } else {
        Seq::empty()
    }) + seq![
        named(
            search(RequestType::content, "specialCount,parentId,literalType,id"@, Some(base), None, 0, 0),
            key_text("threadcount_"@, c.id),
        ),
    ]
}

/// The names of the thread searches of one category.
pub open spec fn category_keys(c: CleanedPreCategory, skip: i32) -> Seq<Seq<char>> {
    seq![key_text("threads_"@, c.id)] + if skip == 0 {
        seq![key_text("stickythreads_"@, c.id)]
    } else {
        Seq::empty()
    }
}

/// The searches of all the categories, in order.
pub open spec fn threads_requests(cats: Seq<CleanedPreCategory>, limit: i32, skip: i32) -> Seq<RequestView>
    decreases cats.len(),
{
    if cats.len() == 0 {
        Seq::empty()
    } else {
        threads_requests(cats.drop_last(), limit, skip) + category_thread_requests(cats.last(), limit, skip)
    }
}

/// The names of the thread searches of all the categories, in order.
pub open spec fn threads_keys(cats: Seq<CleanedPreCategory>, skip: i32) -> Seq<Seq<char>>
    decreases cats.len(),
{
    if cats.len() == 0 {
        Seq::empty()
    } else {
        threads_keys(cats.drop_last(), skip) + category_keys(cats.last(), skip)
    }
}

/// The sticky lists of all the categories, as request values.
pub open spec fn stickies_values(cats: Seq<CleanedPreCategory>) -> Seq<(Seq<char>, RequestValueView)>
    decreases cats.len(),
{
    if cats.len() == 0 {
        Seq::empty()
    } else {
        stickies_values(cats.drop_last()) + seq![
            (key_text("stickies_"@, cats.last().id), RequestValueView::Ints(cats.last().stickies@)),
        ]
    }
}

proof fn lemma_first_page_blocks(cats: Seq<CleanedPreCategory>, limit: i32)
    ensures
        threads_requests(cats, limit, 0).len() == 3 * cats.len(),
        stickies_values(cats).len() == cats.len(),
        forall|i: int, j: int|
            0 <= i < cats.len() && 0 <= j < 3 ==> #[trigger] threads_requests(cats, limit, 0)[3 * i + j]
                == category_thread_requests(cats[i], limit, 0)[j],
        forall|i: int|
            0 <= i < cats.len() ==> #[trigger] stickies_values(cats)[i] == (
                key_text("stickies_"@, cats[i].id),
                RequestValueView::Ints(cats[i].stickies@),
            ),
    decreases cats.len(),
{
    if cats.len() > 0 {
        let rest = cats.drop_last();
        lemma_first_page_blocks(rest, limit);
        let n = rest.len();
        let last = category_thread_requests(cats.last(), limit, 0);
        assert(last.len() == 3);
        assert forall|i: int, j: int|
            0 <= i < cats.len() && 0 <= j < 3 implies #[trigger] threads_requests(cats, limit, 0)[3 * i + j]
                == category_thread_requests(cats[i], limit, 0)[j] by {
            if i < n {
                assert(cats[i] == rest[i]);
                assert(threads_requests(cats, limit, 0)[3 * i + j] == threads_requests(rest, limit, 0)[3 * i + j]);
            } else {
                assert(threads_requests(cats, limit, 0)[3 * i + j] == last[j]);
            }
        }
        assert forall|i: int| 0 <= i < cats.len() implies #[trigger] stickies_values(cats)[i] == (
            key_text("stickies_"@, cats[i].id),
            RequestValueView::Ints(cats[i].stickies@),
        ) by {
            if i < n {
                assert(cats[i] == rest[i]);
                assert(stickies_values(cats)[i] == stickies_values(rest)[i]);
            }
        }
    }
}

/// On the first page, for every category, the request reads its threads in two parts that
/// split the category's threads on its own list of sticky ids: the sticky search is the
/// category's thread count search restricted to ids in that list, the regular search is the
/// same restricted to ids not in it, and the request binds the list's key to exactly the
/// category's sticky ids. Both parts read the same fields in the same order.
pub proof fn law_stickies_and_threads_split_the_category(cats: Seq<CleanedPreCategory>, limit: i32, i: int)
    requires
        0 <= i < cats.len(),
    ensures
        ({
            let rs = threads_requests(cats, limit, 0);
            let key = key_text("stickies_"@, cats[i].id);
            let threads = rs[3 * i];
            let sticky = rs[3 * i + 1];
            let count = rs[3 * i + 2];
            &&& stickies_values(cats)[i] == (key, RequestValueView::Ints(cats[i].stickies@))
            &&& count.query is Some
            &&& sticky.query == Some(count.query->0 + " and id in @"@ + key)
            &&& threads.query == Some(count.query->0 + " and id not in @"@ + key)
            &&& threads.name == Some(key_text("threads_"@, cats[i].id))
            &&& sticky.name == Some(key_text("stickythreads_"@, cats[i].id))
            &&& count.name == Some(key_text("threadcount_"@, cats[i].id))
            &&& threads.fields == sticky.fields
            &&& threads.order == sticky.order
        }),
{
    lemma_first_page_blocks(cats, limit);
    assert(threads_requests(cats, limit, 0)[3 * i + 0] == category_thread_requests(cats[i], limit, 0)[0]);
    assert(threads_requests(cats, limit, 0)[3 * i + 1] == category_thread_requests(cats[i], limit, 0)[1]);
    assert(threads_requests(cats, limit, 0)[3 * i + 2] == category_thread_requests(cats[i], limit, 0)[2]);
}

/// Texts joined with ` or ` between them.
pub open spec fn join_or(parts: Seq<Seq<char>>) -> Seq<char>
    decreases parts.len(),
{
    if parts.len() == 0 {
        Seq::empty()
    } else if parts.len() == 1 {
        parts[0]
    } else {
        join_or(parts.drop_last()) + " or "@ + parts.last()
    }
}

/// Each key between `pre` and `post`.
pub open spec fn wrap_keys(keys: Seq<Seq<char>>, pre: Seq<char>, post: Seq<char>) -> Seq<Seq<char>> {
    keys.map_values(|k: Seq<char>| pre + k + post)
}

fn join_keys(keys: &Vec<String>, pre: &str, post: &str) -> (r: String)
    ensures
        r@ == join_or(wrap_keys(keys@.map_values(|k: String| k@), pre@, post@)),
{
    let ghost parts = wrap_keys(keys@.map_values(|k: String| k@), pre@, post@);
    let mut r = String::new();
    let mut i: usize = 0;
    while i < keys.len()
        invariant
            i <= keys@.len(),
            parts == wrap_keys(keys@.map_values(|k: String| k@), pre@, post@),
            r@ == join_or(parts.take(i as int)),
        decreases keys@.len() - i,
    {
        assert(parts.take(i as int + 1).drop_last() =~= parts.take(i as int));
        if i > 0 {
            r = append_str(r, " or ");
        }
        r = append_str(r, pre);
        r = append_str(r, keys[i].as_str());
        r = append_str(r, post);
        assert(r@ =~= join_or(parts.take(i as int + 1)));
        i = i + 1;
    }
    assert(parts.take(keys@.len() as int) =~= parts);
    r
}

/// The query for the last posts of the threads found under the given keys.
pub open spec fn comment_query_text(keys: Seq<Seq<char>>) -> Seq<char> {
    "!basiccomments() and ("@ + join_or(wrap_keys(keys, "id in @"@, ".lastCommentId"@)) + ")"@
}

/// The query for the users who wrote the last posts or created the threads under the keys.
pub open spec fn user_query_text(keys: Seq<Seq<char>>) -> Seq<char> {
    "!notdeleted() and (id in @message.createUserId or "@ + join_or(
        wrap_keys(keys, "id in @"@, ".createUserId"@),
    ) + ")"@
}

fn copy_ints(v: &Vec<i64>) -> (r: Vec<i64>)
    ensures
        r@ == v@,
{
    let mut r: Vec<i64> = Vec::new();
    let mut i: usize = 0;
    while i < v.len()
        invariant
            i <= v@.len(),
            r@ == v@.take(i as int),
        decreases v@.len() - i,
    {
        r.push(v[i]);
        assert(v@.take(i as int + 1) =~= v@.take(i as int).push(v@[i as int]));
        i = i + 1;
    }
    assert(v@.take(v@.len() as int) =~= v@);
    r
}

/// The request for the threads of the given categories: for each category its latest
/// threads (a page of `limit` after `skip`), its sticky threads on the first page, and its
/// thread count; then the last posts of all those threads and the users involved.
pub fn get_thread_request(categories: &Vec<CleanedPreCategory>, limit: i32, skip: i32) -> (r: FullRequest)
    ensures
        values_view(r.values@) == seq![
            ("thread_literal"@, RequestValueView::Text(SBSContentType::forumthread.literal())),
        ] + stickies_values(categories@),
        requests_view(r.requests@) == threads_requests(categories@, limit, skip) + seq![
            search(
                RequestType::message,
                "id,createDate,contentId,createUserId"@,
                Some(comment_query_text(threads_keys(categories@, skip))),
                None,
                0,
                0,
            ),
            search(
                RequestType::user,
                "*"@,
                Some(user_query_text(threads_keys(categories@, skip))),
                None,
                0,
                0,
            ),
        ],
{
    let mut request = FullRequest::new();
    request.add_value(
        "thread_literal",
        RequestValue::Text(String::from_str(SBSContentType::forumthread.to_literal())),
    );
    let ghost v0 = values_view(request.values@);
    let mut keys: Vec<String> = Vec::new();
    let mut k: usize = 0;
    while k < categories.len()
        invariant
            k <= categories@.len(),
            v0 == seq![("thread_literal"@, RequestValueView::Text(SBSContentType::forumthread.literal()))],
            values_view(request.values@) == v0 + stickies_values(categories@.take(k as int)),
            requests_view(request.requests@) == threads_requests(categories@.take(k as int), limit, skip),
            keys@.map_values(|s: String| s@) == threads_keys(categories@.take(k as int), skip),
        decreases categories@.len() - k,
    {
        let category = &categories[k];
        let ghost cats1 = categories@.take(k as int + 1);
        assert(cats1.drop_last() =~= categories@.take(k as int));
        assert(cats1.last() == *category);
        let ghost reqs0 = requests_view(request.requests@);
        let ghost keys0 = keys@.map_values(|s: String| s@);
        let category_id = category.id;
        let sticky_key = Keygen::stickies(category_id);
        request.add_value(sticky_key.as_str(), RequestValue::Ints(copy_ints(&category.stickies)));
        assert(values_view(request.values@) =~= v0 + stickies_values(cats1));
        let base = append_str(String::new(), "parentId = {{");
        let base = push_decimal(base, category_id);
        let base = append_str(base, "}} and literalType = @thread_literal and !notdeleted()");
        assert(base@ =~= base_query_text(category_id));
        let q = append_str(base.clone(), " and id not in @");
        let q = append_str(q, sticky_key.as_str());
        let mut threads_request = build_request(
            RequestType::content,
            THREADFIELDS,
            Some(q),
            Some("lastCommentId_desc"),
            limit as i64,
            skip as i64,
        );
        let key = Keygen::threads(category_id);
        threads_request.name = Some(key.clone());
        request.requests.push(threads_request);
        keys.push(key);
        if skip == 0 {
            let q = append_str(base.clone(), " and id in @");
            let q = append_str(q, sticky_key.as_str());
            let mut sticky_request = build_request(
                RequestType::content,
                THREADFIELDS,
                Some(q),
                Some("lastCommentId_desc"),
                0,
                0,
            );
            let key = Keygen::stickythreads(category_id);
            sticky_request.name = Some(key.clone());
            request.requests.push(sticky_request);
            keys.push(key);
        }
        let mut count_request = build_request(
            RequestType::content,
            "specialCount,parentId,literalType,id",
            Some(base),
            None,
            0,
            0,
        );
        count_request.name = Some(Keygen::threadcount(category_id));
        request.requests.push(count_request);
        assert(requests_view(request.requests@) =~= reqs0 + category_thread_requests(*category, limit, skip));
        assert(keys@.map_values(|s: String| s@) =~= keys0 + category_keys(*category, skip));
        k = k + 1;
    }
    assert(categories@.take(categories@.len() as int) =~= categories@);
    let ghost all_keys = keys@.map_values(|s: String| s@);
    let comment_query = append_str(String::new(), "!basiccomments() and (");
    let comment_query = append_str(comment_query, join_keys(&keys, "id in @", ".lastCommentId").as_str());
    let comment_query = append_str(comment_query, ")");
    assert(comment_query@ =~= comment_query_text(all_keys));
    let user_query = append_str(String::new(), "!notdeleted() and (id in @message.createUserId or ");
    let user_query = append_str(user_query, join_keys(&keys, "id in @", ".createUserId").as_str());
    let user_query = append_str(user_query, ")");
    assert(user_query@ =~= user_query_text(all_keys));
    let ghost reqs1 = requests_view(request.requests@);
    let comment_request = build_request(
        RequestType::message,
        "id,createDate,contentId,createUserId",
        Some(comment_query),
        None,
        0,
        0,
    );
    request.requests.push(comment_request);
    let user_request = build_request(RequestType::user, "*", Some(user_query), None, 0, 0);
    request.requests.push(user_request);
    assert(requests_view(request.requests@) =~= reqs1 + seq![
        search(
            RequestType::message,
            "id,createDate,contentId,createUserId"@,
            Some(comment_query_text(all_keys)),
            None,
            0,
            0,
        ),
        search(RequestType::user, "*"@, Some(user_query_text(all_keys)), None, 0, 0),
    ]);
    request
}

/// How many pages `count` items fill, `per_page` to a page.
pub open spec fn page_count(count: int, per_page: int) -> int {
    if count <= 0 {
        0
    } else {
        (count + per_page - 1) / per_page
    }
}

/// The list of pages of a category's threads: page `j` (shown as `j + 1`) for every page the
/// threads fill, the current one marked.
pub fn forum_pagelist(threads_count: i32, per_page: i32, page: i32) -> (r: Vec<ForumPagelistItem>)
    requires
        per_page > 0,
    ensures
        r@.len() == page_count(threads_count as int, per_page as int),
        forall|j: int|
            0 <= j < r@.len() ==> {
                &&& #[trigger] r@[j].page == j
                &&& r@[j].text@ == decimal_text(j + 1)
                &&& r@[j].current == (j == page)
            },
{
    let mut r: Vec<ForumPagelistItem> = Vec::new();
    let mut i: i64 = 0;
    let mut j: i32 = 0;
    proof {
        let c = threads_count as int;
        let p = per_page as int;
        assert(c > 0 ==> (c + p - 1) / p >= 1) by (nonlinear_arith)
            requires
                p > 0,
        {
        }
    }
    while i < threads_count as i64
        invariant
            per_page > 0,
            0 <= j,
            i == j as int * per_page as int,
            j as int <= page_count(threads_count as int, per_page as int),
            i < threads_count as int ==> j < page_count(threads_count as int, per_page as int),
            i >= threads_count as int ==> j == page_count(threads_count as int, per_page as int),
            r@.len() == j,
            forall|k: int|
                0 <= k < r@.len() ==> {
                    &&& #[trigger] r@[k].page == k
                    &&& r@[k].text@ == decimal_text(k + 1)
                    &&& r@[k].current == (k == page)
                },
        decreases page_count(threads_count as int, per_page as int) - j,
    {
        proof {
            assert(j < page_count(threads_count as int, per_page as int));
            assert(page_count(threads_count as int, per_page as int) <= threads_count as int) by (nonlinear_arith)
                requires
                    threads_count > 0,
                    per_page > 0,
            {
            }
        }
        let ghost before = r@;
        let item = ForumPagelistItem { page: j, text: decimal_string(j as i64 + 1), current: j == page };
        assert(item.text@ == decimal_text(j as int + 1));
        r.push(item);
        assert(r@ == before.push(item));
        assert(r@[j as int] == item);
        proof {
            let c = threads_count as int;
            let p = per_page as int;
            let n = page_count(c, p);
            assert((j as int + 1) * p < c ==> j as int + 1 < n) by (nonlinear_arith)
                requires
                    c > 0,
                    p > 0,
                    n == (c + p - 1) / p,
            {
            }
            assert((j as int + 1) * p >= c ==> j as int + 1 == n) by (nonlinear_arith)
                requires
                    c > 0,
                    p > 0,
                    n == (c + p - 1) / p,
                    j as int * p < c,
                    0 <= j,
            {
            }
            assert((j as int + 1) * p == j as int * p + p) by (nonlinear_arith);
        }
        assert(per_page as i64 > 0);
        i = i + per_page as i64;
        j = j + 1;
    }
    r
}

/// Whether `name` starts with `prefix`.
pub open spec fn starts_with(name: Seq<char>, prefix: Seq<char>) -> bool {
    prefix.len() <= name.len() && name.take(prefix.len() as int) == prefix
}

fn starts_with_exec(name: &Vec<char>, prefix: &Vec<char>) -> (r: bool)
    ensures
        r == starts_with(name@, prefix@),
{
    if prefix.len() > name.len() {
        return false;
    }
    let mut i: usize = 0;
    while i < prefix.len()
        invariant
            prefix@.len() <= name@.len(),
            i <= prefix@.len(),
            forall|k: int| 0 <= k < i ==> name@[k] == prefix@[k],
        decreases prefix@.len() - i,
    {
        if name[i] != prefix[i] {
            assert(name@.take(prefix@.len() as int)[i as int] != prefix@[i as int]);
            return false;
        }
        i = i + 1;
    }
    assert(name@.take(prefix@.len() as int) =~= prefix@);
    true
}

/// The place of a category in the configured order: the index of the first prefix its name
/// starts with; `usize::MAX` when none does.
pub open spec fn category_position(order: Seq<Seq<char>>, name: Seq<char>) -> int
    decreases order.len(),
{
    if order.len() == 0 {
        usize::MAX as int
    } else if starts_with(name, order[0]) {
        0
    } else {
        let p = category_position(order.drop_first(), name);
        if p == usize::MAX as int {
            p
        } else {
            p + 1
        }
    }
}

proof fn lemma_category_position_bound(order: Seq<Seq<char>>, name: Seq<char>)
    ensures
        category_position(order, name) == usize::MAX as int || 0 <= category_position(order, name)
            < order.len(),
    decreases order.len(),
{
    if order.len() > 0 {
        lemma_category_position_bound(order.drop_first(), name);
    }
}

/// Where a category goes when categories are sorted by the configured order of name prefixes
/// (names matching no prefix go last).
pub fn category_order_position(order: &Vec<String>, name: &str) -> (r: usize)
    ensures
        r == category_position(order@.map_values(|s: String| s@), name@),
{
    let ghost o = order@.map_values(|s: String| s@);
    let name_chars = chars_of(name);
    let mut i: usize = 0;
    assert(o.skip(0) =~= o);
    while i < order.len()
        invariant
            i <= order@.len(),
            o == order@.map_values(|s: String| s@),
            name_chars@ == name@,
            category_position(o, name@) == if category_position(o.skip(i as int), name@) == usize::MAX as int {
                usize::MAX as int
            } else {
                category_position(o.skip(i as int), name@) + i
            },
        decreases order@.len() - i,
    {
        assert(o.skip(i as int).drop_first() =~= o.skip(i as int + 1));
        assert(o.skip(i as int)[0] == o[i as int]);
        let prefix = chars_of(order[i].as_str());
        if starts_with_exec(&name_chars, &prefix) {
            proof {
                lemma_category_position_bound(o, name@);
            }
            return i;
        }
        proof {
            lemma_category_position_bound(o.skip(i as int + 1), name@);
        }
        i = i + 1;
    }
    assert(o.skip(i as int) =~= Seq::<Seq<char>>::empty());
    usize::MAX
}

/// Whether `a` comes before `b` in lexicographic order of their characters (which is the
/// order of their utf-8 bytes, the order of `String`).
pub open spec fn text_lt(a: Seq<char>, b: Seq<char>) -> bool
    decreases a.len(),
{
    if a.len() == 0 {
        b.len() > 0
    } else if b.len() == 0 {
        false
    } else if a[0] < b[0] {
        true
    } else if a[0] == b[0] {
        text_lt(a.drop_first(), b.drop_first())
    } else {
        false
    }
}

proof fn lemma_text_lt_irreflexive(a: Seq<char>)
    ensures
        !text_lt(a, a),
    decreases a.len(),
{
    if a.len() > 0 {
        lemma_text_lt_irreflexive(a.drop_first());
    }
}

proof fn lemma_text_lt_total(a: Seq<char>, b: Seq<char>)
    ensures
        a != b ==> text_lt(a, b) || text_lt(b, a),
    decreases a.len(),
{
    if a.len() > 0 && b.len() > 0 {
        if a[0] == b[0] {
            lemma_text_lt_total(a.drop_first(), b.drop_first());
            if a.drop_first() == b.drop_first() {
                assert(a =~= seq![a[0]] + a.drop_first());
                assert(b =~= seq![b[0]] + b.drop_first());
            }
        }
    } else if a.len() == 0 && b.len() == 0 {
        assert(a =~= b);
    }
}

proof fn lemma_text_lt_transitive(a: Seq<char>, b: Seq<char>, c: Seq<char>)
    requires
        text_lt(a, b),
        text_lt(b, c),
    ensures
        text_lt(a, c),
    decreases a.len(),
{
    if a.len() > 0 && b.len() > 0 && c.len() > 0 && a[0] == b[0] && b[0] == c[0] {
        lemma_text_lt_transitive(a.drop_first(), b.drop_first(), c.drop_first());
    }
}

proof fn lemma_text_lt_asymmetric(a: Seq<char>, b: Seq<char>)
    requires
        text_lt(a, b),
    ensures
        !text_lt(b, a),
    decreases a.len(),
{
    if a.len() > 0 && b.len() > 0 && a[0] == b[0] {
        lemma_text_lt_asymmetric(a.drop_first(), b.drop_first());
    }
}

fn text_lt_exec(a: &Vec<char>, b: &Vec<char>) -> (r: bool)
    ensures
        r == text_lt(a@, b@),
{
    let mut i: usize = 0;
    assert(a@.skip(0) =~= a@);
    assert(b@.skip(0) =~= b@);
    while i < a.len() && i < b.len()
        invariant
            i <= a@.len(),
            i <= b@.len(),
            forall|k: int| 0 <= k < i ==> a@[k] == b@[k],
            text_lt(a@, b@) == text_lt(a@.skip(i as int), b@.skip(i as int)),
        decreases a@.len() - i,
    {
        assert(a@.skip(i as int)[0] == a@[i as int]);
        assert(b@.skip(i as int)[0] == b@[i as int]);
        assert(a@.skip(i as int).drop_first() =~= a@.skip(i as int + 1));
        assert(b@.skip(i as int).drop_first() =~= b@.skip(i as int + 1));
        if a[i] < b[i] {
            return true;
        }
        if a[i] != b[i] {
            return false;
        }
        i = i + 1;
    }
    i < b.len()
}

/// Whether category `i` is listed before category `j`: by its place in the configured order,
/// then by name, then (for equal names) by where it was found.
pub open spec fn category_before(pos: Seq<int>, names: Seq<Seq<char>>, i: int, j: int) -> bool {
    pos[i] < pos[j] || (pos[i] == pos[j] && (text_lt(names[i], names[j]) || (names[i] == names[j] && i < j)))
}

/// Whether `order` lists every category once, in the order of `category_before`.
pub open spec fn is_category_ranking(order: Seq<usize>, pos: Seq<int>, names: Seq<Seq<char>>) -> bool {
    &&& order.len() == pos.len()
    &&& forall|i: int| 0 <= i < order.len() ==> (#[trigger] order[i]) < pos.len()
    &&& forall|i: int, j: int|
        0 <= i < j < order.len() ==> category_before(pos, names, #[trigger] order[i] as int, #[trigger] order[j] as int)
}

proof fn lemma_category_before_facts(pos: Seq<int>, names: Seq<Seq<char>>, a: int, b: int, c: int)
    ensures
        a != b ==> (category_before(pos, names, a, b) || category_before(pos, names, b, a)),
        !category_before(pos, names, a, a),
        category_before(pos, names, a, b) && category_before(pos, names, b, c) ==> category_before(pos, names, a, c),
        category_before(pos, names, a, b) ==> !category_before(pos, names, b, a),
{
    lemma_text_lt_total(names[a], names[b]);
    lemma_text_lt_irreflexive(names[a]);
    if text_lt(names[a], names[b]) && text_lt(names[b], names[c]) {
        lemma_text_lt_transitive(names[a], names[b], names[c]);
    }
    if text_lt(names[a], names[b]) {
        lemma_text_lt_asymmetric(names[a], names[b]);
    }
    if names[a] == names[b] {
        lemma_text_lt_irreflexive(names[a]);
    }
}

/// The order in which categories are listed: by the configured prefixes of their names
/// (names matching none go last), ties by name, then by where they were found.
pub fn category_order(positions: &Vec<usize>, names: &Vec<Vec<char>>) -> (order: Vec<usize>)
    requires
        positions@.len() == names@.len(),
    ensures
        is_category_ranking(
            order@,
            positions@.map_values(|p: usize| p as int),
            names@.map_values(|n: Vec<char>| n@),
        ),
{
    let ghost pos = positions@.map_values(|p: usize| p as int);
    let ghost nm = names@.map_values(|n: Vec<char>| n@);
    let mut order: Vec<usize> = Vec::new();
    let mut k: usize = 0;
    while k < positions.len()
        invariant
            positions@.len() == names@.len(),
            pos == positions@.map_values(|p: usize| p as int),
            nm == names@.map_values(|n: Vec<char>| n@),
            k <= positions@.len(),
            order@.len() == k,
            forall|i: int| 0 <= i < order@.len() ==> (#[trigger] order@[i]) < k,
            forall|i: int, j: int|
                0 <= i < j < order@.len() ==> category_before(pos, nm, #[trigger] order@[i] as int, #[trigger] order@[j] as int),
        decreases positions@.len() - k,
    {
        let mut at: usize = 0;
        while at < order.len()
            invariant
                positions@.len() == names@.len(),
                pos == positions@.map_values(|p: usize| p as int),
                nm == names@.map_values(|n: Vec<char>| n@),
                at <= order@.len(),
                k < positions@.len(),
                forall|i: int| 0 <= i < order@.len() ==> (#[trigger] order@[i]) < k,
                forall|i: int| 0 <= i < at ==> !category_before(pos, nm, k as int, #[trigger] order@[i] as int),
            ensures
                at <= order@.len(),
                forall|i: int| 0 <= i < at ==> !category_before(pos, nm, k as int, #[trigger] order@[i] as int),
                at < order@.len() ==> category_before(pos, nm, k as int, order@[at as int] as int),
            decreases order@.len() - at,
        {
            let other = order[at];
            let earlier = if positions[k] < positions[other] {
                true
            } else if positions[k] == positions[other] {
                text_lt_exec(&names[k], &names[other])
            } else {
                false
            };
            proof {
                assert(pos[k as int] == positions@[k as int] as int);
                assert(pos[other as int] == positions@[other as int] as int);
                assert(nm[k as int] == names@[k as int]@);
                assert(nm[other as int] == names@[other as int]@);
                assert(other < k);
                lemma_text_lt_irreflexive(nm[k as int]);
            }
            if earlier {
                break;
            }
            at = at + 1;
        }
        let ghost o = order@;
        order.insert(at, k);
        proof {
            let o2 = order@;
            assert(o2 == o.insert(at as int, k));
            assert forall|i: int, j: int|
                0 <= i < j < o2.len() implies category_before(pos, nm, #[trigger] o2[i] as int, #[trigger] o2[j] as int) by {
                if j < at {
                    assert(o2[i] == o[i] && o2[j] == o[j]);
                } else if j == at {
                    assert(o2[i] == o[i]);
                    lemma_category_before_facts(pos, nm, k as int, o[i] as int, k as int);
                } else if i == at {
                    assert(o2[j] == o[j - 1]);
                    if j - 1 > at {
                        lemma_category_before_facts(pos, nm, k as int, o[at as int] as int, o[j - 1] as int);
                    }
                } else if i < at {
                    assert(o2[i] == o[i] && o2[j] == o[j - 1]);
                } else {
                    assert(o2[i] == o[i - 1] && o2[j] == o[j - 1]);
                }
            }
            assert forall|i: int| 0 <= i < o2.len() implies (#[trigger] o2[i]) < k + 1 by {
                if i < at {
                    assert(o2[i] == o[i]);
                } else if i > at {
                    assert(o2[i] == o[i - 1]);
                }
            }
        }
        k = k + 1;
    }
    order
}

/// The configured places of categories.
pub open spec fn category_positions(cats: Seq<CleanedPreCategory>, order: Seq<Seq<char>>) -> Seq<int> {
    cats.map_values(|c: CleanedPreCategory| category_position(order, c.name@))
}

/// The names of categories.
pub open spec fn category_names(cats: Seq<CleanedPreCategory>) -> Seq<Seq<char>> {
    cats.map_values(|c: CleanedPreCategory| c.name@)
}

/// Sort categories for the forum index: first by the configured order of name prefixes
/// (categories matching none go last), ties alphabetically by name.
pub fn sort_categories(categories: Vec<CleanedPreCategory>, forum_category_order: &Vec<String>) -> (r: Vec<CleanedPreCategory>)
    ensures
        exists|order: Seq<usize>|
            {
                &&& #[trigger] is_category_ranking(
                    order,
                    category_positions(categories@, strings_view(forum_category_order@)),
                    category_names(categories@),
                )
                &&& r@.len() == categories@.len()
                &&& forall|i: int| 0 <= i < r@.len() ==> r@[i] == categories@[#[trigger] order[i] as int]
            },
{
    let ghost o = strings_view(forum_category_order@);
    let mut positions: Vec<usize> = Vec::new();
    let mut names: Vec<Vec<char>> = Vec::new();
    let mut k: usize = 0;
    while k < categories.len()
        invariant
            k <= categories@.len(),
            o == strings_view(forum_category_order@),
            positions@.len() == k,
            names@.len() == k,
            forall|i: int| 0 <= i < k ==> (#[trigger] positions@[i]) as int == category_position(o, categories@[i].name@),
            forall|i: int| 0 <= i < k ==> (#[trigger] names@[i])@ == categories@[i].name@,
        decreases categories@.len() - k,
    {
        positions.push(category_order_position(forum_category_order, categories[k].name.as_str()));
        names.push(chars_of(categories[k].name.as_str()));
        k = k + 1;
    }
    let order = category_order(&positions, &names);
    proof {
        let pos = positions@.map_values(|p: usize| p as int);
        let nm = names@.map_values(|n: Vec<char>| n@);
        assert(pos =~= category_positions(categories@, o));
        assert(nm =~= category_names(categories@));
        assert forall|a: int, b: int| 0 <= a < b < order@.len() implies #[trigger] order@[a] != #[trigger] order@[b] by {
            assert(category_before(pos, nm, order@[a] as int, order@[b] as int));
            lemma_category_before_facts(pos, nm, order@[a] as int, order@[a] as int, order@[a] as int);
        }
    }
    permute(categories, &order)
}

} // verus!
