//! Reading the contents the api returns for the forum: categories with their sticky threads,
//! threads with their lock state and posts, and whole categories from a search result.
use vstd::prelude::*;
use vstd::string::StringExecFns;

use crate::api_data::{Content, Message, SpecialCount, User};
use crate::json::{json_array_items, json_i64, parse_json_array, parse_json_i64, strings_view};
use crate::pages::common::contentapi::{get_value, value_lookup};
use crate::response::Error;
use crate::routes::forums::{forum_pagelist, key_text, page_count, CleanedPreCategory, ForumPagelistItem, Keygen};
use crate::text::{chars_of, decimal_string, decimal_text};

verus! {

/// What can be missing or malformed in the contents the forum is given.
#[derive(Debug, Clone)]
pub enum ForumDataError {
    /// A thread came without permissions.
    NoPermissions,
    /// A thread's permissions have no entry for everyone (user 0).
    NoGlobalPermissions,
    /// A category came without a name.
    NoName,
    /// A category came without an id.
    NoId,
    /// A category came without values.
    NoValues,
    /// A category's values have no `stickies`.
    NoStickies,
    /// A category's `stickies` is no json array.
    StickiesNotArray,
    /// An item of a category's `stickies` is no integer; it holds the item's json text.
    StickyNotInteger(String),
    /// A search result has no part of the given name.
    MissingKey(String),
    /// A search result gives no thread count for the category of the given id.
    NoThreadCount(i64),
}

/// A `ForumDataError` with its texts as character sequences.
pub enum ForumDataErrorView {
    NoPermissions,
    NoGlobalPermissions,
    NoName,
    NoId,
    NoValues,
    NoStickies,
    StickiesNotArray,
    StickyNotInteger(Seq<char>),
    MissingKey(Seq<char>),
    NoThreadCount(i64),
}

impl View for ForumDataError {
    type V = ForumDataErrorView;

    open spec fn view(&self) -> ForumDataErrorView {
        match self {
            ForumDataError::NoPermissions => ForumDataErrorView::NoPermissions,
            ForumDataError::NoGlobalPermissions => ForumDataErrorView::NoGlobalPermissions,
            ForumDataError::NoName => ForumDataErrorView::NoName,
            ForumDataError::NoId => ForumDataErrorView::NoId,
            ForumDataError::NoValues => ForumDataErrorView::NoValues,
            ForumDataError::NoStickies => ForumDataErrorView::NoStickies,
            ForumDataError::StickiesNotArray => ForumDataErrorView::StickiesNotArray,
            ForumDataError::StickyNotInteger(t) => ForumDataErrorView::StickyNotInteger(t@),
            ForumDataError::MissingKey(k) => ForumDataErrorView::MissingKey(k@),
            ForumDataError::NoThreadCount(id) => ForumDataErrorView::NoThreadCount(*id),
        }
    }
}

// --------------------------
// *       CATEGORIES       *
// --------------------------

/// The integers held by a list of json texts, or the index of the first text that holds none.
pub open spec fn json_ints(items: Seq<Seq<char>>) -> Result<Seq<i64>, int>
    decreases items.len(),
{
    if items.len() == 0 {
        Ok(Seq::empty())
    } else {
        match json_ints(items.drop_last()) {
            Err(i) => Err(i),
            Ok(v) => match json_i64(items.last()) {
                Some(n) => Ok(v.push(n)),
                None => Err(items.len() - 1),
            },
        }
    }
}

/// Once a prefix of the list holds a text that is no integer, so does the whole list.
proof fn lemma_json_ints_prefix_err(items: Seq<Seq<char>>, j: int, i: int)
    requires
        0 <= j <= items.len(),
        json_ints(items.take(j)) == Err::<Seq<i64>, int>(i),
    ensures
        json_ints(items) == Err::<Seq<i64>, int>(i),
    decreases items.len() - j,
{
    if j == items.len() {
        assert(items.take(j) =~= items);
    } else {
        assert(items.drop_last().take(j) =~= items.take(j));
        lemma_json_ints_prefix_err(items.drop_last(), j, i);
    }
}

/// The sticky thread ids a category's content gives, checked in order: its name, its id,
/// its values, their `stickies`, that being a json array, and each item an integer.
pub open spec fn pre_category_check(c: Content) -> Result<Seq<i64>, ForumDataErrorView> {
    match c.name {
        None => Err(ForumDataErrorView::NoName),
        Some(_) => match c.id {
            None => Err(ForumDataErrorView::NoId),
            Some(_) => match c.values {
                None => Err(ForumDataErrorView::NoValues),
                Some(vs) => match value_lookup(vs@, "stickies"@) {
                    None => Err(ForumDataErrorView::NoStickies),
                    Some(t) => match json_array_items(t) {
                        None => Err(ForumDataErrorView::StickiesNotArray),
                        Some(items) => match json_ints(items) {
                            Ok(v) => Ok(v),
                            Err(i) => Err(ForumDataErrorView::StickyNotInteger(items[i])),
                        },
                    },
                },
            },
        },
    }
}

/// The ids held by the json texts of a category's `stickies`, or the first text that holds
/// no integer.
fn read_sticky_ids(items: &Vec<String>) -> (r: Result<Vec<i64>, String>)
    ensures
        match r {
            Ok(v) => json_ints(strings_view(items@)) == Ok::<Seq<i64>, int>(v@),
            Err(t) => exists|i: int|
                0 <= i < items@.len() && json_ints(strings_view(items@)) == Err::<Seq<i64>, int>(i)
                    && #[trigger] items@[i]@ == t@,
        },
{
    let ghost texts = strings_view(items@);
    let mut v: Vec<i64> = Vec::new();
    let mut k: usize = 0;
    assert(texts.take(0) =~= Seq::<Seq<char>>::empty());
    while k < items.len()
        invariant
            k <= items@.len(),
            texts == strings_view(items@),
            json_ints(texts.take(k as int)) == Ok::<Seq<i64>, int>(v@),
        decreases items@.len() - k,
    {
        assert(texts.take(k + 1).drop_last() =~= texts.take(k as int));
        assert(texts.take(k + 1).last() == items@[k as int]@);
        match parse_json_i64(items[k].as_str()) {
            Some(n) => {
                v.push(n);
            },
            None => {
                proof {
                    lemma_json_ints_prefix_err(texts, k + 1, k as int);
                }
                return Err(items[k].clone());
            },
        }
        k = k + 1;
    }
    assert(texts.take(k as int) =~= texts);
    Ok(v)
}

impl CleanedPreCategory {
    /// Check a category's content: it needs a name, an id and values whose `stickies` is a
    /// json array of thread ids.
    pub fn from_content(category: Content) -> (r: Result<CleanedPreCategory, ForumDataError>)
        ensures
            match r {
                Ok(p) => {
                    &&& pre_category_check(category) == Ok::<Seq<i64>, ForumDataErrorView>(p.stickies@)
                    &&& category.name == Some(p.name)
                    &&& category.id == Some(p.id)
                    &&& p.category == category
                },
                Err(e) => pre_category_check(category) == Err::<Seq<i64>, ForumDataErrorView>(e@),
            },
    {
        let name = match &category.name {
            Some(n) => n.clone(),
            None => return Err(ForumDataError::NoName),
        };
        let id = match category.id {
            Some(i) => i,
            None => return Err(ForumDataError::NoId),
        };
        let stickies = match &category.values {
            None => return Err(ForumDataError::NoValues),
            Some(values) => match get_value(values, "stickies") {
                None => return Err(ForumDataError::NoStickies),
                Some(t) => match parse_json_array(t.as_str()) {
                    None => return Err(ForumDataError::StickiesNotArray),
                    Some(items) => match read_sticky_ids(&items) {
                        Ok(v) => v,
                        Err(text) => return Err(ForumDataError::StickyNotInteger(text)),
                    },
                },
            },
        };
        Ok(CleanedPreCategory { category, stickies, id, name })
    }

    /// Check each of the given category contents, in order; the first that fails gives the
    /// error.
    pub fn from_many(categories: Vec<Content>) -> (r: Result<Vec<CleanedPreCategory>, ForumDataError>)
        ensures
            match r {
                Ok(v) => {
                    &&& v@.len() == categories@.len()
                    &&& forall|i: int|
                        0 <= i < v@.len() ==> {
                            &&& pre_category_check(categories@[i]) == Ok::<Seq<i64>, ForumDataErrorView>(
                                (#[trigger] v@[i]).stickies@,
                            )
                            &&& categories@[i].name == Some(v@[i].name)
                            &&& categories@[i].id == Some(v@[i].id)
                            &&& v@[i].category == categories@[i]
                        }
                },
                Err(e) => exists|i: int|
                    0 <= i < categories@.len() && (forall|j: int|
                        0 <= j < i ==> #[trigger] pre_category_check(categories@[j]) is Ok)
                        && pre_category_check(#[trigger] categories@[i]) == Err::<Seq<i64>, ForumDataErrorView>(e@),
            },
    {
        let ghost all = categories@;
        let mut rest = categories;
        let mut out: Vec<CleanedPreCategory> = Vec::new();
        while rest.len() > 0
            invariant
                all == categories@,
                out@.len() + rest@.len() == all.len(),
                rest@ == all.skip(out@.len() as int),
                forall|i: int|
                    0 <= i < out@.len() ==> {
                        &&& pre_category_check(all[i]) == Ok::<Seq<i64>, ForumDataErrorView>(
                            (#[trigger] out@[i]).stickies@,
                        )
                        &&& all[i].name == Some(out@[i].name)
                        &&& all[i].id == Some(out@[i].id)
                        &&& out@[i].category == all[i]
                    },
            decreases rest@.len(),
        {
            let ghost k = out@.len() as int;
            let c = rest.remove(0);
            assert(c == all[k]);
            assert(rest@ =~= all.skip(k + 1));
            match CleanedPreCategory::from_content(c) {
                Ok(p) => {
                    out.push(p);
                },
                Err(e) => {
                    assert(forall|j: int| 0 <= j < k ==> #[trigger] pre_category_check(all[j]) is Ok) by {
                        assert forall|j: int| 0 <= j < k implies #[trigger] pre_category_check(all[j]) is Ok by {
                            assert(out@[j].category == all[j]);
                        }
                    }
                    assert(pre_category_check(all[k]) == Err::<Seq<i64>, ForumDataErrorView>(e@));
                    return Err(e);
                },
            }
        }
        Ok(out)
    }
}

// --------------------------
// *        THREADS         *
// --------------------------

/// The permission letters given to the user `id`; a later entry replaces an earlier one.
pub open spec fn permission_lookup(ps: Seq<(i64, String)>, id: i64) -> Option<Seq<char>>
    decreases ps.len(),
{
    if ps.len() == 0 {
        None
    } else if ps.last().0 == id {
        Some(ps.last().1@)
    } else {
        permission_lookup(ps.drop_last(), id)
    }
}

/// The permission letters given to the user `id`, if any.
fn get_permission(ps: &Vec<(i64, String)>, id: i64) -> (r: Option<&String>)
    ensures
        match r {
            Some(p) => permission_lookup(ps@, id) == Some(p@),
            None => permission_lookup(ps@, id) is None,
        },
{
    let mut i = ps.len();
    assert(ps@.take(i as int) =~= ps@);
    while i > 0
        invariant
            i <= ps@.len(),
            permission_lookup(ps@, id) == permission_lookup(ps@.take(i as int), id),
        decreases i,
    {
        let entry = &ps[i - 1];
        assert(ps@.take(i as int).last() == ps@[i - 1]);
        assert(ps@.take(i as int).drop_last() =~= ps@.take(i - 1));
        if entry.0 == id {
            return Some(&entry.1);
        }
        i = i - 1;
    }
    None
}

/// Whether the text holds the character.
fn has_char(s: &str, c: char) -> (r: bool)
    ensures
        r == s@.contains(c),
{
    let v = chars_of(s);
    let mut i: usize = 0;
    while i < v.len()
        invariant
            i <= v@.len(),
            v@ == s@,
            forall|j: int| 0 <= j < i ==> v@[j] != c,
        decreases v@.len() - i,
    {
        if v[i] == c {
            assert(s@[i as int] == c);
            return true;
        }
        i = i + 1;
    }
    false
}

/// Whether the list holds the id.
fn contains_id(v: &Vec<i64>, id: i64) -> (r: bool)
    ensures
        r == v@.contains(id),
{
    let mut i: usize = 0;
    while i < v.len()
        invariant
            i <= v@.len(),
            forall|j: int| 0 <= j < i ==> v@[j] != id,
        decreases v@.len() - i,
    {
        if v[i] == id {
            assert(v@[i as int] == id);
            return true;
        }
        i = i + 1;
    }
    false
}

/// The messages on the content of the given id, in order.
pub open spec fn thread_posts(ms: Seq<Message>, id: Option<i64>) -> Seq<Message>
    decreases ms.len(),
{
    if ms.len() == 0 {
        Seq::empty()
    } else if ms.last().content_id == id {
        thread_posts(ms.drop_last(), id).push(ms.last())
    } else {
        thread_posts(ms.drop_last(), id)
    }
}

/// What an optional list of values holds.
pub open spec fn pairs_view(o: Option<Vec<(String, String)>>) -> Option<Seq<(String, String)>> {
    match o {
        Some(v) => Some(v@),
        None => None,
    }
}

/// Two messages agree in every field, their values by what the lists hold.
pub open spec fn same_message(a: Message, b: Message) -> bool {
    &&& a.id == b.id
    &&& a.content_id == b.content_id
    &&& a.create_user_id == b.create_user_id
    &&& a.create_date == b.create_date
    &&& a.text == b.text
    &&& pairs_view(a.values) == pairs_view(b.values)
    &&& a.edit_date == b.edit_date
    &&& a.edit_user_id == b.edit_user_id
    &&& a.edited == b.edited
    &&& a.module == b.module
}

fn copy_pairs(v: &Vec<(String, String)>) -> (r: Vec<(String, String)>)
    ensures
        r@ == v@,
{
    let mut r: Vec<(String, String)> = Vec::new();
    let mut i: usize = 0;
    while i < v.len()
        invariant
            i <= v@.len(),
            r@ == v@.take(i as int),
        decreases v@.len() - i,
    {
        r.push((v[i].0.clone(), v[i].1.clone()));
        assert(v@.take(i as int + 1) =~= v@.take(i as int).push(v@[i as int]));
        i = i + 1;
    }
    assert(v@.take(v@.len() as int) =~= v@);
    r
}

fn copy_text(o: &Option<String>) -> (r: Option<String>)
    ensures
        r == *o,
{
    match o {
        Some(t) => Some(t.clone()),
        None => None,
    }
}

fn copy_message(m: &Message) -> (r: Message)
    ensures
        same_message(r, *m),
{
    Message {
        id: m.id,
        content_id: m.content_id,
        create_user_id: m.create_user_id,
        create_date: m.create_date,
        text: copy_text(&m.text),
        values: match &m.values {
            Some(v) => Some(copy_pairs(v)),
            None => None,
        },
        edit_date: m.edit_date,
        edit_user_id: m.edit_user_id,
        edited: m.edited,
        module: copy_text(&m.module),
    }
}

/// Copies of the messages on the content of the given id, in order.
fn posts_of_thread(ms: &Vec<Message>, id: Option<i64>) -> (r: Vec<Message>)
    ensures
        r@.len() == thread_posts(ms@, id).len(),
        forall|i: int| 0 <= i < r@.len() ==> same_message(#[trigger] r@[i], thread_posts(ms@, id)[i]),
{
    let mut r: Vec<Message> = Vec::new();
    let mut k: usize = 0;
    while k < ms.len()
        invariant
            k <= ms@.len(),
            r@.len() == thread_posts(ms@.take(k as int), id).len(),
            forall|i: int|
                0 <= i < r@.len() ==> same_message(#[trigger] r@[i], thread_posts(ms@.take(k as int), id)[i]),
        decreases ms@.len() - k,
    {
        assert(ms@.take(k + 1).drop_last() =~= ms@.take(k as int));
        assert(ms@.take(k + 1).last() == ms@[k as int]);
        let m = &ms[k];
        let same = match (m.content_id, id) {
            (Some(a), Some(b)) => a == b,
            (None, None) => true,
            _ => false,
        };
        if same {
            r.push(copy_message(m));
        }
        k = k + 1;
    }
    assert(ms@.take(k as int) =~= ms@);
    r
}

/// A thread with what its page shows of it: whether it is sticky, whether it is locked,
/// whether it is neither, and its posts.
#[derive(Debug, Clone)]
pub struct ForumThread {
    pub thread: Content,
    pub sticky: bool,
    pub locked: bool,
    /// Neither sticky nor locked.
    pub neutral: bool,
    pub posts: Vec<Message>,
}

/// A missing id counts as 0.
pub open spec fn id_or_zero(id: Option<i64>) -> i64 {
    match id {
        Some(i) => i,
        None => 0,
    }
}

/// Why a thread's content cannot be read, if it cannot: it needs permissions with an entry
/// for everyone (user 0).
pub open spec fn thread_error(c: Content) -> Option<ForumDataErrorView> {
    match c.permissions {
        None => Some(ForumDataErrorView::NoPermissions),
        Some(ps) => match permission_lookup(ps@, 0) {
            None => Some(ForumDataErrorView::NoGlobalPermissions),
            Some(_) => None,
        },
    }
}

/// `t` is the thread read from the content `c`: locked when everyone lacks the permission
/// `C` (to comment), sticky when its id is one of the category's stickies, and holding
/// copies of the messages on it.
pub open spec fn is_forum_thread(t: ForumThread, c: Content, messages: Seq<Message>, stickies: Seq<i64>) -> bool {
    match c.permissions {
        None => false,
        Some(ps) => match permission_lookup(ps@, 0) {
            None => false,
            Some(g) => {
                &&& t.thread == c
                &&& t.locked == !g.contains('C')
                &&& t.sticky == stickies.contains(id_or_zero(c.id))
                &&& t.neutral == (!t.locked && !t.sticky)
                &&& t.posts@.len() == thread_posts(messages, c.id).len()
                &&& forall|i: int|
                    0 <= i < t.posts@.len() ==> same_message(#[trigger] t.posts@[i], thread_posts(messages, c.id)[i])
            },
        },
    }
}

impl ForumThread {
    /// Read a thread's content, with the messages that may be on it and the ids of the
    /// sticky threads of its category.
    pub fn from_content(thread: Content, messages_raw: &Vec<Message>, stickies: &Vec<i64>) -> (r: Result<
        Self,
        ForumDataError,
    >)
        ensures
            match r {
                Ok(t) => is_forum_thread(t, thread, messages_raw@, stickies@),
                Err(e) => thread_error(thread) == Some(e@),
            },
    {
        let thread_id = thread.id;
        let locked = match &thread.permissions {
            None => return Err(ForumDataError::NoPermissions),
            Some(ps) => match get_permission(ps, 0) {
                None => return Err(ForumDataError::NoGlobalPermissions),
                Some(g) => !has_char(g.as_str(), 'C'),
            },
        };
        let sticky = contains_id(
            stickies,
            match thread_id {
                Some(i) => i,
                None => 0,
            },
        );
        let posts = posts_of_thread(messages_raw, thread_id);
        Ok(ForumThread { locked, sticky, thread, neutral: !locked && !sticky, posts })
    }
}

// --------------------------
// *  CATEGORY WITH THREADS  *
// --------------------------

/// The first of the thread contents that cannot be read, and why.
pub open spec fn first_thread_error(cs: Seq<Content>) -> Option<ForumDataErrorView>
    decreases cs.len(),
{
    if cs.len() == 0 {
        None
    } else {
        match first_thread_error(cs.drop_last()) {
            Some(e) => Some(e),
            None => thread_error(cs.last()),
        }
    }
}

proof fn lemma_first_thread_error_prefix(cs: Seq<Content>, j: int, e: ForumDataErrorView)
    requires
        0 <= j <= cs.len(),
        first_thread_error(cs.take(j)) == Some(e),
    ensures
        first_thread_error(cs) == Some(e),
    decreases cs.len() - j,
{
    if j == cs.len() {
        assert(cs.take(j) =~= cs);
    } else {
        assert(cs.drop_last().take(j) =~= cs.take(j));
        lemma_first_thread_error_prefix(cs.drop_last(), j, e);
    }
}

/// Read each thread content, in order; the first that cannot be read gives the error.
fn read_threads(contents: Vec<Content>, messages: &Vec<Message>, stickies: &Vec<i64>) -> (r: Result<
    Vec<ForumThread>,
    ForumDataError,
>)
    ensures
        match r {
            Ok(v) => {
                &&& first_thread_error(contents@) is None
                &&& v@.len() == contents@.len()
                &&& forall|i: int|
                    0 <= i < v@.len() ==> is_forum_thread(#[trigger] v@[i], contents@[i], messages@, stickies@)
            },
            Err(e) => first_thread_error(contents@) == Some(e@),
        },
{
    let ghost all = contents@;
    let mut rest = contents;
    let mut out: Vec<ForumThread> = Vec::new();
    assert(all.take(0) =~= Seq::<Content>::empty());
    while rest.len() > 0
        invariant
            all == contents@,
            out@.len() + rest@.len() == all.len(),
            rest@ == all.skip(out@.len() as int),
            first_thread_error(all.take(out@.len() as int)) is None,
            forall|i: int|
                0 <= i < out@.len() ==> is_forum_thread(#[trigger] out@[i], all[i], messages@, stickies@),
        decreases rest@.len(),
    {
        let ghost k = out@.len() as int;
        let c = rest.remove(0);
        assert(c == all[k]);
        assert(rest@ =~= all.skip(k + 1));
        assert(all.take(k + 1).drop_last() =~= all.take(k));
        assert(all.take(k + 1).last() == all[k]);
        match ForumThread::from_content(c, messages, stickies) {
            Ok(t) => {
                out.push(t);
            },
            Err(e) => {
                proof {
                    lemma_first_thread_error_prefix(all, k + 1, e@);
                }
                return Err(e);
            },
        }
    }
    assert(all.take(all.len() as int) =~= all);
    Ok(out)
}

/// Each user beside the decimal text of its id, in order.
fn users_by_id(users: Vec<User>) -> (r: Vec<(String, User)>)
    ensures
        r@.len() == users@.len(),
        forall|i: int|
            0 <= i < r@.len() ==> (#[trigger] r@[i]).0@ == decimal_text(users@[i].id as int) && r@[i].1
                == users@[i],
{
    let ghost all = users@;
    let mut rest = users;
    let mut out: Vec<(String, User)> = Vec::new();
    while rest.len() > 0
        invariant
            all == users@,
            out@.len() + rest@.len() == all.len(),
            rest@ == all.skip(out@.len() as int),
            forall|i: int|
                0 <= i < out@.len() ==> (#[trigger] out@[i]).0@ == decimal_text(all[i].id as int) && out@[i].1
                    == all[i],
        decreases rest@.len(),
    {
        let ghost k = out@.len() as int;
        let u = rest.remove(0);
        assert(u == all[k]);
        assert(rest@ =~= all.skip(k + 1));
        let key = decimal_string(u.id);
        out.push((key, u));
    }
    out
}

/// A category with a page of its threads, its sticky threads, its thread count and the
/// users that appear, each beside the decimal text of its id.
#[derive(Debug, Clone)]
pub struct ForumCategory {
    pub category: Content,
    pub threads: Vec<ForumThread>,
    pub stickies: Vec<ForumThread>,
    pub threads_count: i32,
    pub users: Vec<(String, User)>,
}

/// The sticky thread contents: none when the part is missing.
pub open spec fn sticky_contents(o: Option<Vec<Content>>) -> Seq<Content> {
    match o {
        Some(v) => v@,
        None => Seq::empty(),
    }
}

/// Why a category cannot be read from the parts of a search result, if it cannot. The parts
/// are checked in order: the thread count, the threads and the users must be there (the
/// sticky threads may be missing); then each thread and each sticky thread must be
/// readable; then the thread count must hold a count.
pub open spec fn category_result_error(
    category: CleanedPreCategory,
    counts: Option<Vec<SpecialCount>>,
    threads: Option<Vec<Content>>,
    sticky_threads: Option<Vec<Content>>,
    users: Option<Vec<User>>,
) -> Option<ForumDataErrorView> {
    match counts {
        None => Some(ForumDataErrorView::MissingKey(key_text("threadcount_"@, category.id))),
        Some(cs) => match threads {
            None => Some(ForumDataErrorView::MissingKey(key_text("threads_"@, category.id))),
            Some(ts) => match users {
                None => Some(ForumDataErrorView::MissingKey("user"@)),
                Some(_) => match first_thread_error(ts@) {
                    Some(e) => Some(e),
                    None => match first_thread_error(sticky_contents(sticky_threads)) {
                        Some(e) => Some(e),
                        None => if cs@.len() == 0 {
                            Some(ForumDataErrorView::NoThreadCount(category.id))
                        } else {
                            None
                        },
                    },
                },
            },
        },
    }
}

/// `fc` is the category read from those parts: the category's content, its threads and
/// sticky threads read in order, the first count as its thread count, and its users.
pub open spec fn is_forum_category(
    fc: ForumCategory,
    category: CleanedPreCategory,
    counts: Option<Vec<SpecialCount>>,
    threads: Option<Vec<Content>>,
    sticky_threads: Option<Vec<Content>>,
    users: Option<Vec<User>>,
    messages: Seq<Message>,
) -> bool {
    match (counts, threads, users) {
        (Some(cs), Some(ts), Some(us)) => {
            &&& cs@.len() > 0
            &&& fc.threads_count == cs@[0].special_count
            &&& fc.category == category.category
            &&& fc.threads@.len() == ts@.len()
            &&& forall|i: int|
                0 <= i < ts@.len() ==> is_forum_thread(
                    #[trigger] fc.threads@[i],
                    ts@[i],
                    messages,
                    category.stickies@,
                )
            &&& fc.stickies@.len() == sticky_contents(sticky_threads).len()
            &&& forall|i: int|
                0 <= i < fc.stickies@.len() ==> is_forum_thread(
                    #[trigger] fc.stickies@[i],
                    sticky_contents(sticky_threads)[i],
                    messages,
                    category.stickies@,
                )
            &&& fc.users@.len() == us@.len()
            &&& forall|i: int|
                0 <= i < us@.len() ==> (#[trigger] fc.users@[i]).0@ == decimal_text(us@[i].id as int)
                    && fc.users@[i].1 == us@[i]
        },
        _ => false,
    }
}

impl ForumCategory {
    /// Read a category from the parts of a search result about it, each `None` when the
    /// result has no part of that name: its thread count (named by `Keygen::threadcount`),
    /// its threads (`Keygen::threads`), its sticky threads (`Keygen::stickythreads`) and the
    /// users (`user`); `messages_raw` are the messages of the result.
    pub fn from_result(
        category: CleanedPreCategory,
        counts: Option<Vec<SpecialCount>>,
        threads: Option<Vec<Content>>,
        sticky_threads: Option<Vec<Content>>,
        users: Option<Vec<User>>,
        messages_raw: &Vec<Message>,
    ) -> (r: Result<Self, ForumDataError>)
        ensures
            match r {
                Ok(fc) => category_result_error(category, counts, threads, sticky_threads, users) is None
                    && is_forum_category(fc, category, counts, threads, sticky_threads, users, messages_raw@),
                Err(e) => category_result_error(category, counts, threads, sticky_threads, users) == Some(e@),
            },
    {
        let counts = match counts {
            Some(c) => c,
            None => return Err(ForumDataError::MissingKey(Keygen::threadcount(category.id))),
        };
        let threads = match threads {
            Some(t) => t,
            None => return Err(ForumDataError::MissingKey(Keygen::threads(category.id))),
        };
        let sticky_threads = match sticky_threads {
            Some(t) => t,
            None => Vec::new(),
        };
        let users = match users {
            Some(u) => u,
            None => return Err(ForumDataError::MissingKey(String::from_str("user"))),
        };
        let threads = match read_threads(threads, messages_raw, &category.stickies) {
            Ok(v) => v,
            Err(e) => return Err(e),
        };
        let stickies = match read_threads(sticky_threads, messages_raw, &category.stickies) {
            Ok(v) => v,
            Err(e) => return Err(e),
        };
        let users = users_by_id(users);
        if counts.len() == 0 {
            return Err(ForumDataError::NoThreadCount(category.id));
        }
        let threads_count = counts[0].special_count;
        Ok(ForumCategory { category: category.category, threads, stickies, threads_count, users })
    }
}

/// A category's page: the category read (the first one) and the list of its pages, the page
/// shown marked. No category read is not found.
pub fn category_page(categories: &Vec<ForumCategory>, per_page: i32, page: i32) -> (r: Result<
    (&ForumCategory, Vec<ForumPagelistItem>),
    Error,
>)
    requires
        per_page > 0,
    ensures
        categories@.len() == 0 ==> (r matches Err(Error::NotFound(m)) && m@ == "Couldn't find that category"@),
        categories@.len() > 0 ==> (r matches Ok((c, l)) && *c == categories@[0] && l@.len() == page_count(
            categories@[0].threads_count as int,
            per_page as int,
        ) && forall|j: int|
            0 <= j < l@.len() ==> {
                &&& #[trigger] l@[j].page == j
                &&& l@[j].text@ == decimal_text(j + 1)
                &&& l@[j].current == (j == page)
            }),
{
    if categories.len() == 0 {
        return Err(Error::NotFound(String::from_str("Couldn't find that category")));
    }
    let category = &categories[0];
    let pagelist = forum_pagelist(category.threads_count, per_page, page);
    Ok((category, pagelist))
}

} // verus!
