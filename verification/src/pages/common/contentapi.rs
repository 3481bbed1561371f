//! Building the database queries of the content api.
use vstd::prelude::*;
use vstd::string::StringExecFns;

use crate::pages::common::{PageSearch, ANYSYSTEM, PTCSYSTEM};
use crate::response::Error;
use crate::text::{decimal_text, push_char, push_decimal, str_eq};
use crate::json::{json_string, json_string_list, parse_json_string, parse_json_string_list, strings_view};

verus! {

/// A parameter bound to a `?` of a query.
#[derive(Debug, Clone, PartialEq)]
pub enum SqlParam {
    Int(i64),
    Text(String),
}

/// A query parameter in the model.
pub enum SqlParamView {
    Int(i64),
    Text(Seq<char>),
}

impl View for SqlParam {
    type V = SqlParamView;

    open spec fn view(&self) -> SqlParamView {
        match self {
            SqlParam::Int(i) => SqlParamView::Int(*i),
            SqlParam::Text(t) => SqlParamView::Text(t@),
        }
    }
}

pub open spec fn params_view(v: Seq<SqlParam>) -> Seq<SqlParamView> {
    v.map_values(|p: SqlParam| p@)
}

pub const COMMON_CONTENT_JOIN: &'static str = "JOIN content_permissions _cp_ ON _cp_.contentId = ";
pub const COMMON_CONTENT_JOIN_END: &'static str = " AND _cp_.read=1 AND _cp_.userId=0";

pub(crate) fn append_str(mut result: String, t: &str) -> (r: String)
    ensures
        r@ == result@ + t@,
{
    result.append(t);
    result
}

/// The join that restricts content (whose id is `idname`) to what everyone may read.
pub fn join_common_content(idname: &str) -> (r: String)
    ensures
        r@ == COMMON_CONTENT_JOIN@ + idname@ + COMMON_CONTENT_JOIN_END@,
{
    let r = append_str(String::new(), COMMON_CONTENT_JOIN);
    let r = append_str(r, idname);
    let r = append_str(r, COMMON_CONTENT_JOIN_END);
    assert(r@ =~= COMMON_CONTENT_JOIN@ + idname@ + COMMON_CONTENT_JOIN_END@);
    r
}

/// `?` repeated `count` times, separated by commas.
pub open spec fn params_list_text(count: nat) -> Seq<char>
    decreases count,
{
    if count == 0 {
        Seq::<char>::empty()
    } else if count == 1 {
        seq!['?']
    } else {
        params_list_text((count - 1) as nat) + seq![',', '?']
    }
}

/// A list of `count` query placeholders: `?,?,...,?`.
pub fn params_list(count: usize) -> (r: String)
    ensures
        r@ == params_list_text(count as nat),
{
    let mut r = String::new();
    let mut i: usize = 0;
    while i < count
        invariant
            i <= count,
            r@ == params_list_text(i as nat),
        decreases count - i,
    {
        if i > 0 {
            push_char(&mut r, ',');
        }
        push_char(&mut r, '?');
        i = i + 1;
    }
    r
}


// ---------------------------
//       CONSTANTS
// ---------------------------

pub const UPVOTE: &'static str = "+";
pub const DOWNVOTE: &'static str = "-";
pub const VOTETYPE: &'static str = "vote";
pub const UPVOTESTR: &'static str = "vote+";
pub const DOWNVOTESTR: &'static str = "vote-";
pub const CATEGORYPREFIX: &'static str = "tag:";

/// Kinds of content.
pub struct ContentType;

impl ContentType {
    pub const PAGE: i8 = 1i8;
    pub const MODULE: i8 = 2i8;
    pub const FILE: i8 = 3i8;
    pub const USERPAGE: i8 = 4i8;
    pub const SYSTEM: i8 = 5i8;
}

/// Kinds of users.
pub struct UserType;

impl UserType {
    pub const USER: i8 = 1i8;
    pub const GROUP: i8 = 2i8;
}

/// Kinds of relations between users and other things.
pub struct UserRelationType;

impl UserRelationType {
    pub const INGROUP: i8 = 1i8;
    pub const ASSIGNCONTENT: i8 = 2i8;
}

/// Keys of the values attached to content.
pub struct SBSValue;

impl SBSValue {
    pub const DOWNLOADKEY: &'static str = "dlkey";
    pub const VERSION: &'static str = "version";
    pub const SIZE: &'static str = "size";
    pub const SYSTEMS: &'static str = "systems";
    pub const IMAGES: &'static str = "images";
    pub const FORCONTENT: &'static str = "forcontent";
    pub const MARKUP: &'static str = "markup";
    pub const DOCPATH: &'static str = "docpath";
}

/// Literal types of pages.
pub struct SBSPageType;

impl SBSPageType {
    pub const PROGRAM: &'static str = "program";
    pub const RESOURCE: &'static str = "resource";
    pub const CATEGORY: &'static str = "category";
    pub const FORUMCATEGORY: &'static str = "forumcategory";
    pub const FORUMTHREAD: &'static str = "forumthread";
    pub const DIRECTMESSAGES: &'static str = "directmessages";
    pub const DIRECTMESSAGE: &'static str = "directmessage";
    pub const ALERT: &'static str = "alert";
    pub const FRONTPAGE: &'static str = "frontpage";
    pub const DOCSCUSTOM: &'static str = "docscustom";
    pub const SUBMISSIONS: &'static str = "submissions";
    pub const PTCFILES: &'static str = "ptcfiles";
    pub const DOCPARENT: &'static str = "docparent";
    pub const DOCUMENTATION: &'static str = "documentation";
}

pub const BASICCONTENTFIELDS: &'static str = "c.id,c.hash,c.name,c.text";
pub const USER2FIELDS: &'static str = "id,`type`,username,avatar,special,super,createDate";
pub const BROWSEFIELDS: &'static str = "c.id,c.hash,c.name,COALESCE(c.description,''),COALESCE(c.literalType,''),c.createDate,c.createUserId";
pub const VALUESELECT: &'static str = "SELECT `key`,`value` FROM content_values WHERE contentId=?";
pub const KEYWORDSELECT: &'static str = "SELECT `value` FROM content_keywords WHERE contentId=?";
pub const COMMONCONTENT: &'static str = " deleted = 0 AND id IN (SELECT contentId FROM content_permissions WHERE read=1 AND userId=0) ";
pub const COMMONUSER: &'static str = " deleted = 0 AND `type`= 1 AND (registrationKey IS NULL OR registrationKey = '') ";

// ---------------------------
//       QUERY PIECES
// ---------------------------

pub const LIMIT_PART: &'static str = " LIMIT ?";
pub const OFFSET_PART: &'static str = " OFFSET ?";

/// Limits on the rows a query returns.
#[derive(Debug, Default, Clone)]
pub struct QueryLimit {
    pub limit: Option<i32>,
    pub skip: Option<i32>,
}

/// The query text a limit adds.
pub open spec fn limit_text(l: QueryLimit) -> Seq<char> {
    (if l.limit is Some { LIMIT_PART@ } else { Seq::<char>::empty() })
        + (if l.skip is Some { OFFSET_PART@ } else { Seq::<char>::empty() })
}

/// The parameters a limit adds.
pub open spec fn limit_params(l: QueryLimit) -> Seq<SqlParamView> {
    (match l.limit {
        Some(v) => seq![SqlParamView::Int(v as i64)],
        None => Seq::<SqlParamView>::empty(),
    }) + (match l.skip {
        Some(v) => seq![SqlParamView::Int(v as i64)],
        None => Seq::<SqlParamView>::empty(),
    })
}

impl QueryLimit {
    /// Append the limit and offset (when set) to a query and its parameters.
    pub fn mod_query(&self, query: &mut String, params: &mut Vec<SqlParam>)
        ensures
            final(query)@ == old(query)@ + limit_text(*self),
            params_view(final(params)@) == params_view(old(params)@) + limit_params(*self),
    {
        let ghost q0 = query@;
        let ghost p0 = params_view(params@);
        if let Some(limit) = self.limit {
            query.append(LIMIT_PART);
            params.push(SqlParam::Int(limit as i64));
        }
        if let Some(skip) = self.skip {
            query.append(OFFSET_PART);
            params.push(SqlParam::Int(skip as i64));
        }
        assert(query@ =~= q0 + limit_text(*self));
        assert(params_view(params@) =~= p0 + limit_params(*self));
    }
}

/// An identifier of the old website (for ftid, fcid, fpid and such) or a content hash.
#[derive(Debug, Clone)]
pub enum OldIdOrHash {
    Id(i64),
    Hash(String),
}

pub const OLDID_PART: &'static str = " AND EXISTS (SELECT id FROM content_values WHERE `key`=? AND `value`=? AND contentId=";
pub const OLDID_PART_END: &'static str = ".id)";
pub const HASH_PART: &'static str = " AND ";
pub const HASH_PART_END: &'static str = ".hash = ?";

impl OldIdOrHash {
    /// The query text restricting the table to this id or hash.
    pub open spec fn query_text(self, table_name: Seq<char>) -> Seq<char> {
        match self {
            OldIdOrHash::Id(_) => OLDID_PART@ + table_name + OLDID_PART_END@,
            OldIdOrHash::Hash(_) => HASH_PART@ + table_name + HASH_PART_END@,
        }
    }

    /// Restrict a query on `table_name` to this id (stored under `key_name`) or this hash.
    pub fn mod_query(&self, table_name: &str, key_name: &'static str, query: &mut String, params: &mut Vec<SqlParam>)
        ensures
            final(query)@ == old(query)@ + self.query_text(table_name@),
            params_view(final(params)@) == params_view(old(params)@) + match *self {
                OldIdOrHash::Id(id) => seq![SqlParamView::Text(key_name@), SqlParamView::Int(id)],
                OldIdOrHash::Hash(hash) => seq![SqlParamView::Text(hash@)],
            },
            placeholders(self.query_text(table_name@)) == placeholders(table_name@) + (params_view(
                final(params)@,
            ).len() - params_view(old(params)@).len()),
    {
        let ghost q0 = query@;
        let ghost p0 = params_view(params@);
        match self {
            OldIdOrHash::Id(id) => {
                query.append(OLDID_PART);
                query.append(table_name);
                query.append(OLDID_PART_END);
                params.push(SqlParam::Text(String::from_str(key_name)));
                params.push(SqlParam::Int(*id));
            },
            OldIdOrHash::Hash(hash) => {
                query.append(HASH_PART);
                query.append(table_name);
                query.append(HASH_PART_END);
                params.push(SqlParam::Text(hash.clone()));
            },
        }
        assert(query@ =~= q0 + self.query_text(table_name@));
        assert(params_view(params@) =~= p0 + match *self {
            OldIdOrHash::Id(id) => seq![SqlParamView::Text(key_name@), SqlParamView::Int(id)],
            OldIdOrHash::Hash(hash) => seq![SqlParamView::Text(hash@)],
        });
        proof {
            lemma_oldid_placeholders(*self, table_name@);
        }
    }
}

/// The basic fields of a content.
#[derive(Clone, Debug)]
pub struct BasicContent {
    pub id: i64,
    pub hash: String,
    pub name: String,
    pub text: String,
}

/// A category that submissions can be tagged with.
#[derive(Debug, Clone)]
pub struct SubmissionCategory {
    pub id: i64,
    pub name: String,
    pub hash: String,
    pub forcontent: String,
}

// ---------------------------
//       VALUES
// ---------------------------

/// The value stored under `key` in a list of values filled in order, where a later entry
/// replaces an earlier one under the same key (as inserting into a map does).
pub open spec fn value_lookup(values: Seq<(String, String)>, key: Seq<char>) -> Option<Seq<char>>
    decreases values.len(),
{
    if values.len() == 0 {
        None
    } else if values.last().0@ == key {
        Some(values.last().1@)
    } else {
        value_lookup(values.drop_last(), key)
    }
}

/// The value stored under `key`, if any.
pub fn get_value<'a>(values: &'a Vec<(String, String)>, key: &str) -> (r: Option<&'a String>)
    ensures
        match r {
            Some(v) => value_lookup(values@, key@) == Some(v@),
            None => value_lookup(values@, key@) is None,
        },
{
    let mut i = values.len();
    assert(values@.take(i as int) =~= values@);
    while i > 0
        invariant
            i <= values@.len(),
            value_lookup(values@, key@) == value_lookup(values@.take(i as int), key@),
        decreases i,
    {
        let kv = &values[i - 1];
        assert(values@.take(i as int).last() == values@[i - 1]);
        assert(values@.take(i as int).drop_last() =~= values@.take(i - 1));
        if str_eq(kv.0.as_str(), key) {
            return Some(&kv.1);
        }
        i = i - 1;
    }
    None
}

/// Values behave as a map that is written in order: after adding a value under a key, the
/// key reads that value, and every other key reads what it read before.
pub proof fn law_value_lookup_latest(values: Seq<(String, String)>, key: String, value: String, other: Seq<char>)
    ensures
        value_lookup(values.push((key, value)), key@) == Some(value@),
        other != key@ ==> value_lookup(values.push((key, value)), other) == value_lookup(values, other),
{
    assert(values.push((key, value)).drop_last() =~= values);
}

/// The list of strings stored as json under `key`; empty when the key is missing or its
/// value is not such a list.
pub open spec fn string_list_value(values: Seq<(String, String)>, key: Seq<char>) -> Seq<Seq<char>> {
    match value_lookup(values, key) {
        Some(t) => match json_string_list(t) {
            Some(l) => l,
            None => Seq::empty(),
        },
        None => Seq::empty(),
    }
}

/// The systems a page runs on, from its `systems` value.
pub fn get_systems2(values: &Vec<(String, String)>) -> (r: Vec<String>)
    ensures
        strings_view(r@) == string_list_value(values@, SBSValue::SYSTEMS@),
{
    match get_value(values, SBSValue::SYSTEMS) {
        Some(systems) => match parse_json_string_list(systems.as_str()) {
            Some(v) => v,
            None => {
                let v: Vec<String> = Vec::new();
                assert(strings_view(v@) =~= Seq::empty());
                v
            },
        },
        None => {
            let v: Vec<String> = Vec::new();
            assert(strings_view(v@) =~= Seq::empty());
            v
        },
    }
}

// ---------------------------
//       USERS
// ---------------------------

/// A user, as pages show them. The creation date is a unix timestamp in seconds.
#[derive(Clone, Debug)]
pub struct User2 {
    pub id: i64,
    pub user_type: i8,
    pub username: String,
    pub avatar: String,
    pub special: Option<String>,
    pub admin: bool,
    pub create_date: i64,
}

/// The current time as a unix timestamp in seconds.
/// Trusted: `chrono::Utc::now()` read with `timestamp()`; nothing is claimed of the value.
#[verifier::external_body]
pub(crate) fn now_timestamp() -> (r: i64) {
    chrono::Utc::now().timestamp()
}

/// The user shown when a user can't be found: `???` with the default avatar.
pub open spec fn is_default_user(u: User2) -> bool {
    &&& u.id == 0
    &&& u.username@ == "???"@
    &&& u.avatar@ == "0"@
    &&& u.user_type == UserType::USER
    &&& !u.admin
    &&& u.special is None
}

/// A copy of a user.
pub fn copy_user(u: &User2) -> (r: User2)
    ensures
        r == *u,
{
    User2 {
        id: u.id,
        user_type: u.user_type,
        username: u.username.clone(),
        avatar: u.avatar.clone(),
        special: match &u.special {
            Some(s) => Some(s.clone()),
            None => None,
        },
        admin: u.admin,
        create_date: u.create_date,
    }
}

/// The given user, or a placeholder user created now when there is none.
pub fn user_or_default2(user: Option<&User2>) -> (r: User2)
    ensures
        match user {
            Some(u) => r == *u,
            None => is_default_user(r),
        },
{
    if let Some(u) = user {
        copy_user(u)
    } else {
        User2 {
            id: 0,
            username: String::from_str("???"),
            avatar: String::from_str("0"),
            user_type: UserType::USER,
            admin: false,
            special: None,
            create_date: now_timestamp(),
        }
    }
}

/// Users by id; when two share an id the later one is kept.
pub open spec fn users_map(users: Seq<User2>) -> Map<i64, User2>
    decreases users.len(),
{
    if users.len() == 0 {
        Map::empty()
    } else {
        users_map(users.drop_last()).insert(users.last().id, users.last())
    }
}

/// Index users by their id.
pub fn map_users2(users: Vec<User2>) -> (r: std::collections::HashMap<i64, User2>)
    ensures
        r@ == users_map(users@),
{
    broadcast use vstd::std_specs::hash::group_hash_axioms;
    let mut r: std::collections::HashMap<i64, User2> = std::collections::HashMap::new();
    let mut k: usize = 0;
    while k < users.len()
        invariant
            k <= users@.len(),
            r@ == users_map(users@.take(k as int)),
        decreases users@.len() - k,
    {
        let u = copy_user(&users[k]);
        r.insert(u.id, u);
        assert(users@.take(k as int + 1).drop_last() =~= users@.take(k as int));
        k = k + 1;
    }
    assert(users@.take(users@.len() as int) =~= users@);
    r
}

// ---------------------------
//       BROWSING
// ---------------------------

/// A page as listed when browsing. The creation date is a unix timestamp in seconds.
#[derive(Clone, Debug)]
pub struct BrowseContent {
    pub id: i64,
    pub hash: String,
    pub name: String,
    pub description: String,
    pub literal_type: String,
    pub create_date: i64,
    pub create_user_id: i64,
    /// The values of the page, in the order they were read; a later key replaces an earlier one.
    pub values: Vec<(String, String)>,
}

/// The start of the browse query: submitted pages with their upvotes.
pub open spec fn browse_base_text() -> Seq<char> {
    "SELECT "@ + BROWSEFIELDS@
        + ",(SELECT COUNT(*) FROM content_engagement e WHERE contentId=c.id AND e.`type`=? AND e.`engagement`=?) AS upvotes\n        FROM content c JOIN content p ON c.parentId=p.id "@
        + COMMON_CONTENT_JOIN@ + "c.id"@ + COMMON_CONTENT_JOIN_END@
        + "\n        WHERE c.contentType=? AND p.contentType = ? AND p.literalType = ?"@
}

/// The parameters of the start of the browse query.
pub open spec fn browse_base_params() -> Seq<SqlParamView> {
    seq![
        SqlParamView::Text(VOTETYPE@),
        SqlParamView::Text(UPVOTE@),
        SqlParamView::Int(ContentType::PAGE as i64),
        SqlParamView::Int(ContentType::SYSTEM as i64),
        SqlParamView::Text(SBSPageType::SUBMISSIONS@),
    ]
}

/// `%text%`, matching anything that contains `text`.
pub open spec fn like_text(t: Seq<char>) -> Seq<char> {
    "%"@ + t + "%"@
}

/// The filter on the text searched in names and keywords.
pub open spec fn search_filter(s: PageSearch) -> (Seq<char>, Seq<SqlParamView>) {
    match s.search {
        Some(t) => (
            " AND (c.name LIKE ? OR c.id IN (SELECT contentId FROM content_keywords WHERE `value` LIKE ?))"@,
            seq![SqlParamView::Text(like_text(t@)), SqlParamView::Text(like_text(t@))],
        ),
        None => (Seq::empty(), Seq::empty()),
    }
}

/// The filter on the category (none for category 0).
pub open spec fn category_filter(s: PageSearch) -> (Seq<char>, Seq<SqlParamView>) {
    match s.category {
        Some(c) => if c != 0 {
            (
                " AND c.id IN (SELECT contentId FROM content_values WHERE `key` = ?)"@,
                seq![SqlParamView::Text(CATEGORYPREFIX@ + decimal_text(c as int))],
            )
        } else {
            (Seq::empty(), Seq::empty())
        },
        None => (Seq::empty(), Seq::empty()),
    }
}

/// The filter on the author (none for user 0).
pub open spec fn user_filter(s: PageSearch) -> (Seq<char>, Seq<SqlParamView>) {
    match s.user_id {
        Some(u) => if u != 0 {
            (" AND c.createUserId = ?"@, seq![SqlParamView::Int(u)])
        } else {
            (Seq::empty(), Seq::empty())
        },
        None => (Seq::empty(), Seq::empty()),
    }
}

/// The filter on the page type; programs must also be downloadable unless removed ones are
/// asked for, and run on the system asked for unless any system is.
pub open spec fn subtype_filter(s: PageSearch) -> (Seq<char>, Seq<SqlParamView>) {
    match s.subtype {
        Some(st) => if st@.len() > 0 {
            let is_program = st@ == SBSPageType::PROGRAM@;
            let (ta, pa) = if is_program && !s.removed {
                (
                    " AND c.id IN (SELECT contentId FROM content_values WHERE `key`= ? OR (`key` = ? AND `value` LIKE ?))"@,
                    seq![
                        SqlParamView::Text(SBSValue::DOWNLOADKEY@),
                        SqlParamView::Text(SBSValue::SYSTEMS@),
                        SqlParamView::Text(like_text(PTCSYSTEM@)),
                    ],
                )
            } else {
                (Seq::empty(), Seq::empty())
            };
            let (tb, pb) = if is_program && s.system@ != ANYSYSTEM@ {
                (
                    " AND c.id IN (SELECT contentId FROM content_values WHERE `key`=? AND `value` LIKE ?)"@,
                    seq![SqlParamView::Text(SBSValue::SYSTEMS@), SqlParamView::Text(like_text(s.system@))],
                )
            } else {
                (Seq::empty(), Seq::empty())
            };
            (" AND c.literalType = ?"@ + ta + tb, seq![SqlParamView::Text(st@)] + pa + pb)
        } else {
            (Seq::empty(), Seq::empty())
        },
        None => (Seq::empty(), Seq::empty()),
    }
}

/// The filters a search adds to the browse query, with their parameters, in order.
pub open spec fn browse_filters(s: PageSearch) -> (Seq<char>, Seq<SqlParamView>) {
    (
        search_filter(s).0 + category_filter(s).0 + user_filter(s).0 + subtype_filter(s).0,
        search_filter(s).1 + category_filter(s).1 + user_filter(s).1 + subtype_filter(s).1,
    )
}

/// The ordering clause of a browse order, if the order is known.
pub open spec fn browse_order_text(order: Seq<char>) -> Option<Seq<char>> {
    if order == "id"@ {
        Some(" ORDER BY c.id"@)
    } else if order == "id_desc"@ {
        Some(" ORDER BY c.id DESC"@)
    } else if order == "upvotes"@ {
        Some(" ORDER BY upvotes DESC"@)
    } else if order == "name"@ {
        Some(" ORDER BY name"@)
    } else if order == "name_desc"@ {
        Some(" ORDER BY name DESC"@)
    } else {
        None
    }
}

/// `s` ends with `t`.
pub open spec fn ends_with(s: Seq<char>, t: Seq<char>) -> bool {
    s.len() >= t.len() && s.subrange(s.len() - t.len(), s.len() as int) == t
}

/// A descending order is its ascending twin reversed: for every order name `base` whose
/// `base_desc` is known, `base` is known too, its clause does not descend, and the clause of
/// `base_desc` is that of `base` followed by ` DESC`.
pub proof fn law_desc_order_reverses_its_twin(base: Seq<char>)
    requires
        browse_order_text(base + "_desc"@) is Some,
    ensures
        browse_order_text(base) is Some,
        !ends_with(browse_order_text(base)->0, " DESC"@),
        browse_order_text(base + "_desc"@) == Some(browse_order_text(base)->0 + " DESC"@),
{
    reveal_strlit("_desc");
    reveal_strlit("id");
    reveal_strlit("id_desc");
    reveal_strlit("upvotes");
    reveal_strlit("name");
    reveal_strlit("name_desc");
    reveal_strlit(" ORDER BY c.id");
    reveal_strlit(" ORDER BY c.id DESC");
    reveal_strlit(" ORDER BY upvotes DESC");
    reveal_strlit(" ORDER BY name");
    reveal_strlit(" ORDER BY name DESC");
    reveal_strlit(" DESC");
    let o = base + "_desc"@;
    assert(o[o.len() - 5] == '_');
    if o == "id"@ || o == "name"@ {
        assert(false);
    } else if o == "upvotes"@ {
        assert("upvotes"@[2] == 'v');
        assert(false);
    } else if o == "id_desc"@ {
        assert(base =~= o.subrange(0, 2));
        assert(base =~= "id"@);
        assert(" ORDER BY c.id DESC"@ =~= " ORDER BY c.id"@ + " DESC"@);
        let t = " ORDER BY c.id"@;
        assert(t.subrange(t.len() - 5, t.len() as int) != " DESC"@) by {
            assert(t.subrange(t.len() - 5, t.len() as int)[1] == 'c');
        }
    } else {
        assert(o == "name_desc"@);
        assert(base =~= o.subrange(0, 4));
        assert(base =~= "name"@);
        assert(" ORDER BY name DESC"@ =~= " ORDER BY name"@ + " DESC"@);
        let t = " ORDER BY name"@;
        assert(t.subrange(t.len() - 5, t.len() as int) != " DESC"@) by {
            assert(t.subrange(t.len() - 5, t.len() as int)[1] == 'n');
        }
    }
}

fn push_param(params: &mut Vec<SqlParam>, p: SqlParam)
    ensures
        params_view(final(params)@) == params_view(old(params)@).push(p@),
{
    let ghost before = params@;
    let ghost gp = p;
    params.push(p);
    assert(params@ =~= before.push(gp));
    assert(params_view(params@) =~= params_view(before).push(gp@));
}

fn like_string(t: &str) -> (r: String)
    ensures
        r@ == like_text(t@),
{
    let r = append_str(String::new(), "%");
    let r = append_str(r, t);
    let r = append_str(r, "%");
    assert(r@ =~= like_text(t@));
    r
}

fn browse_order(order: &str) -> (r: Option<&'static str>)
    ensures
        match r {
            Some(t) => browse_order_text(order@) == Some(t@),
            None => browse_order_text(order@) is None,
        },
{
    if str_eq(order, "id") {
        Some(" ORDER BY c.id")
    } else if str_eq(order, "id_desc") {
        Some(" ORDER BY c.id DESC")
    } else if str_eq(order, "upvotes") {
        Some(" ORDER BY upvotes DESC")
    } else if str_eq(order, "name") {
        Some(" ORDER BY name")
    } else if str_eq(order, "name_desc") {
        Some(" ORDER BY name DESC")
    } else {
        None
    }
}

fn add_filter_search(search: &PageSearch, query: &mut String, params: &mut Vec<SqlParam>)
    ensures
        final(query)@ == old(query)@ + search_filter(*search).0,
        params_view(final(params)@) == params_view(old(params)@) + search_filter(*search).1,
{
    let ghost q0 = query@;
    let ghost p0 = params_view(params@);
    if let Some(stext) = &search.search {
        push_param(params, SqlParam::Text(like_string(stext.as_str())));
        push_param(params, SqlParam::Text(like_string(stext.as_str())));
        query.append(
            " AND (c.name LIKE ? OR c.id IN (SELECT contentId FROM content_keywords WHERE `value` LIKE ?))",
        );
    }
    assert(query@ =~= q0 + search_filter(*search).0);
    assert(params_view(params@) =~= p0 + search_filter(*search).1);
}

fn add_filter_category(search: &PageSearch, query: &mut String, params: &mut Vec<SqlParam>)
    ensures
        final(query)@ == old(query)@ + category_filter(*search).0,
        params_view(final(params)@) == params_view(old(params)@) + category_filter(*search).1,
{
    let ghost q0 = query@;
    let ghost p0 = params_view(params@);
    if let Some(category) = search.category {
        if category != 0 {
            let key = push_decimal(append_str(String::new(), CATEGORYPREFIX), category);
            push_param(params, SqlParam::Text(key));
            query.append(" AND c.id IN (SELECT contentId FROM content_values WHERE `key` = ?)");
        }
    }
    assert(query@ =~= q0 + category_filter(*search).0);
    assert(params_view(params@) =~= p0 + category_filter(*search).1);
}

fn add_filter_user(search: &PageSearch, query: &mut String, params: &mut Vec<SqlParam>)
    ensures
        final(query)@ == old(query)@ + user_filter(*search).0,
        params_view(final(params)@) == params_view(old(params)@) + user_filter(*search).1,
{
    let ghost q0 = query@;
    let ghost p0 = params_view(params@);
    if let Some(user_id) = search.user_id {
        if user_id != 0 {
            push_param(params, SqlParam::Int(user_id));
            query.append(" AND c.createUserId = ?");
        }
    }
    assert(query@ =~= q0 + user_filter(*search).0);
    assert(params_view(params@) =~= p0 + user_filter(*search).1);
}

fn add_filter_subtype(search: &PageSearch, query: &mut String, params: &mut Vec<SqlParam>)
    ensures
        final(query)@ == old(query)@ + subtype_filter(*search).0,
        params_view(final(params)@) == params_view(old(params)@) + subtype_filter(*search).1,
{
    let ghost q0 = query@;
    let ghost p0 = params_view(params@);
    if let Some(subtype) = &search.subtype {
        if !subtype.as_str().is_empty() {
            push_param(params, SqlParam::Text(subtype.clone()));
            query.append(" AND c.literalType = ?");
            let is_program = str_eq(subtype.as_str(), SBSPageType::PROGRAM);
            if is_program && !search.removed {
                push_param(params, SqlParam::Text(String::from_str(SBSValue::DOWNLOADKEY)));
                push_param(params, SqlParam::Text(String::from_str(SBSValue::SYSTEMS)));
                push_param(params, SqlParam::Text(like_string(PTCSYSTEM)));
                query.append(
                    " AND c.id IN (SELECT contentId FROM content_values WHERE `key`= ? OR (`key` = ? AND `value` LIKE ?))",
                );
            }
            if is_program && !str_eq(search.system.as_str(), ANYSYSTEM) {
                push_param(params, SqlParam::Text(String::from_str(SBSValue::SYSTEMS)));
                push_param(params, SqlParam::Text(like_string(search.system.as_str())));
                query.append(" AND c.id IN (SELECT contentId FROM content_values WHERE `key`=? AND `value` LIKE ?)");
            }
        }
    }
    assert(query@ =~= q0 + subtype_filter(*search).0);
    assert(params_view(params@) =~= p0 + subtype_filter(*search).1);
}

/// The query (and its parameters) that browses submitted pages, filtered by the search,
/// grouped per page, ordered as asked and limited. An unknown order is the visitor's error.
pub fn get_browse_query(search: &PageSearch, limits: QueryLimit) -> (r: Result<(String, Vec<SqlParam>), Error>)
    ensures
        match browse_order_text(search.order@) {
            Some(o) => r matches Ok((q, p)) && q@ == browse_base_text() + browse_filters(*search).0
                + " GROUP BY c.id"@ + o + limit_text(limits) && params_view(p@) == browse_base_params()
                + browse_filters(*search).1 + limit_params(limits) && placeholders(q@) == p@.len(),
            None => r matches Err(Error::User(m)) && m@ == "Unknown search order: "@ + search.order@,
        },
{
    let query = append_str(String::new(), "SELECT ");
    let query = append_str(query, BROWSEFIELDS);
    let query = append_str(
        query,
        ",(SELECT COUNT(*) FROM content_engagement e WHERE contentId=c.id AND e.`type`=? AND e.`engagement`=?) AS upvotes\n        FROM content c JOIN content p ON c.parentId=p.id ",
    );
    let query = append_str(query, join_common_content("c.id").as_str());
    let mut query = append_str(query, "\n        WHERE c.contentType=? AND p.contentType = ? AND p.literalType = ?");
    assert(query@ =~= browse_base_text());
    let mut params: Vec<SqlParam> = Vec::new();
    push_param(&mut params, SqlParam::Text(String::from_str(VOTETYPE)));
    push_param(&mut params, SqlParam::Text(String::from_str(UPVOTE)));
    push_param(&mut params, SqlParam::Int(ContentType::PAGE as i64));
    push_param(&mut params, SqlParam::Int(ContentType::SYSTEM as i64));
    push_param(&mut params, SqlParam::Text(String::from_str(SBSPageType::SUBMISSIONS)));
    assert(params_view(params@) =~= browse_base_params());
    let ghost q0 = query@;
    let ghost p0 = params_view(params@);
    let ghost f = browse_filters(*search);
    add_filter_search(search, &mut query, &mut params);
    add_filter_category(search, &mut query, &mut params);
    add_filter_user(search, &mut query, &mut params);
    add_filter_subtype(search, &mut query, &mut params);
    assert(query@ =~= q0 + f.0);
    assert(params_view(params@) =~= p0 + f.1);
    query = append_str(query, " GROUP BY c.id");
    match browse_order(search.order.as_str()) {
        Some(o) => {
            query = append_str(query, o);
        },
        None => {
            let m = append_str(String::new(), "Unknown search order: ");
            let m = append_str(m, search.order.as_str());
            return Err(Error::User(m));
        },
    }
    limits.mod_query(&mut query, &mut params);
    proof {
        lemma_browse_placeholders(*search, limits, browse_order_text(search.order@)->Some_0);
    }
    (Ok((query, params)))
}

/// Integers as query parameters.
pub open spec fn ints_params(ids: Seq<i64>) -> Seq<SqlParamView> {
    ids.map_values(|i: i64| SqlParamView::Int(i))
}

fn push_ints(params: &mut Vec<SqlParam>, ids: &Vec<i64>)
    ensures
        params_view(final(params)@) == params_view(old(params)@) + ints_params(ids@),
{
    let ghost p0 = params_view(params@);
    let mut k: usize = 0;
    while k < ids.len()
        invariant
            k <= ids@.len(),
            params_view(params@) == p0 + ints_params(ids@.take(k as int)),
        decreases ids@.len() - k,
    {
        push_param(params, SqlParam::Int(ids[k]));
        assert(ints_params(ids@.take(k as int + 1)) =~= ints_params(ids@.take(k as int)).push(SqlParamView::Int(ids@[k as int])));
        k = k + 1;
    }
    assert(ids@.take(ids@.len() as int) =~= ids@);
}

/// The query text reading the users with `count` given ids.
pub open spec fn users_query_text(count: nat) -> Seq<char> {
    "SELECT "@ + USER2FIELDS@ + " FROM users WHERE "@ + COMMONUSER@ + " AND id IN ("@ + params_list_text(count)
        + ")"@
}

/// The query (and its parameters) reading the users with the given ids.
pub fn get_users_query(ids: &Vec<i64>) -> (r: (String, Vec<SqlParam>))
    ensures
        r.0@ == users_query_text(ids@.len()),
        params_view(r.1@) == ints_params(ids@),
        placeholders(r.0@) == r.1@.len(),
{
    let q = append_str(String::new(), "SELECT ");
    let q = append_str(q, USER2FIELDS);
    let q = append_str(q, " FROM users WHERE ");
    let q = append_str(q, COMMONUSER);
    let q = append_str(q, " AND id IN (");
    let q = append_str(q, params_list(ids.len()).as_str());
    let q = append_str(q, ")");
    assert(q@ =~= users_query_text(ids@.len()));
    let mut params: Vec<SqlParam> = Vec::new();
    push_ints(&mut params, ids);
    assert(params_view(params@) =~= ints_params(ids@));
    proof {
        lemma_users_query_placeholders(ids@.len());
    }
    (q, params)
}

/// The start of the query reading submission categories.
pub open spec fn categories_base_text() -> Seq<char> {
    "SELECT c.id,c.name,c.hash,v.`value`\n        FROM content c JOIN content_values v ON c.id=v.contentId "@
        + COMMON_CONTENT_JOIN@ + "c.id"@ + COMMON_CONTENT_JOIN_END@
        + "\n        WHERE v.`key`=? AND c.contentType = ? AND c.literalType = ?"@
}

/// The parameters of the start of the query reading submission categories.
pub open spec fn categories_base_params() -> Seq<SqlParamView> {
    seq![
        SqlParamView::Text(SBSValue::FORCONTENT@),
        SqlParamView::Int(ContentType::SYSTEM as i64),
        SqlParamView::Text(SBSPageType::CATEGORY@),
    ]
}

/// The query (and its parameters) reading the submission categories: all of them, or only
/// those with the given ids. With an empty list of ids there is nothing to read: `None`.
pub fn get_submission_categories_query(ids: Option<Vec<i64>>) -> (r: Option<(String, Vec<SqlParam>)>)
    ensures
        match ids {
            Some(v) => if v@.len() == 0 {
                r is None
            } else {
                r matches Some((q, p)) && q@ == categories_base_text() + " AND c.id IN ("@ + params_list_text(
                    v@.len(),
                ) + ")"@ && params_view(p@) == categories_base_params() + ints_params(v@) && placeholders(q@)
                    == p@.len()
            },
            None => r matches Some((q, p)) && q@ == categories_base_text() && params_view(p@)
                == categories_base_params() && placeholders(q@) == p@.len(),
        },
{
    let q = append_str(String::new(), "SELECT c.id,c.name,c.hash,v.`value`\n        FROM content c JOIN content_values v ON c.id=v.contentId ");
    let q = append_str(q, join_common_content("c.id").as_str());
    let mut q = append_str(q, "\n        WHERE v.`key`=? AND c.contentType = ? AND c.literalType = ?");
    assert(q@ =~= categories_base_text());
    let mut params: Vec<SqlParam> = Vec::new();
    push_param(&mut params, SqlParam::Text(String::from_str(SBSValue::FORCONTENT)));
    push_param(&mut params, SqlParam::Int(ContentType::SYSTEM as i64));
    push_param(&mut params, SqlParam::Text(String::from_str(SBSPageType::CATEGORY)));
    assert(params_view(params@) =~= categories_base_params());
    if let Some(ids) = ids {
        if ids.len() == 0 {
            return None;
        }
        q = append_str(q, " AND c.id IN (");
        q = append_str(q, params_list(ids.len()).as_str());
        q = append_str(q, ")");
        push_ints(&mut params, &ids);
        proof {
            lemma_categories_placeholders(ids@.len());
            assert(params_view(params@).len() == params@.len());
            assert(ints_params(ids@).len() == ids@.len());
        }
    }
    proof {
        lemma_categories_placeholders(0);
    }
    Some((q, params))
}

/// The text a category is for: its `forcontent` value read as a json string; empty when
/// missing or not a string.
pub open spec fn forcontent_text(cval: Option<Seq<char>>) -> Seq<char> {
    match cval {
        Some(t) => match json_string(t) {
            Some(v) => v,
            None => Seq::empty(),
        },
        None => Seq::empty(),
    }
}

/// A submission category from a row of its query: id, name, hash and the raw `forcontent`.
pub fn submission_category_from_row(id: i64, name: String, hash: String, cval: Option<String>) -> (r: SubmissionCategory)
    ensures
        r.id == id,
        r.name == name,
        r.hash == hash,
        r.forcontent@ == forcontent_text(match cval { Some(c) => Some(c@), None => None }),
{
    let forcontent = match &cval {
        Some(c) => match parse_json_string(c.as_str()) {
            Some(v) => v,
            None => String::new(),
        },
        None => String::new(),
    };
    SubmissionCategory { id, name, hash, forcontent }
}

// ---------------------------
//       PLACEHOLDERS
// ---------------------------

/// The number of `?` placeholders in a query text.
pub open spec fn placeholders(s: Seq<char>) -> nat
    decreases s.len(),
{
    if s.len() == 0 {
        0
    } else {
        placeholders(s.drop_last()) + if s.last() == '?' {
            1nat
        } else {
            0nat
        }
    }
}

/// Placeholders add up over joined texts.
pub proof fn lemma_placeholders_add(a: Seq<char>, b: Seq<char>)
    ensures
        placeholders(a + b) == placeholders(a) + placeholders(b),
    decreases b.len(),
{
    if b.len() == 0 {
        assert(a + b =~= a);
    } else {
        lemma_placeholders_add(a, b.drop_last());
        assert((a + b).drop_last() =~= a + b.drop_last());
    }
}

/// A text holds as many placeholders as there are positions where `?` stands.
pub proof fn lemma_placeholders_at(s: Seq<char>, at: Set<int>)
    requires
        at.finite(),
        forall|i: int| #[trigger] at.contains(i) ==> 0 <= i < s.len(),
        forall|i: int| 0 <= i < s.len() ==> (s[i] == '?' <==> #[trigger] at.contains(i)),
    ensures
        placeholders(s) == at.len(),
    decreases s.len(),
{
    if s.len() == 0 {
        assert(at =~= Set::<int>::empty());
    } else {
        let n = s.len() - 1;
        let rest = s.drop_last();
        if s[n] == '?' {
            let at2 = at.remove(n);
            assert forall|i: int| 0 <= i < rest.len() implies (rest[i] == '?' <==> #[trigger] at2.contains(i)) by {
                assert(rest[i] == s[i]);
            }
            lemma_placeholders_at(rest, at2);
        } else {
            assert forall|i: int| 0 <= i < rest.len() implies (rest[i] == '?' <==> #[trigger] at.contains(i)) by {
                assert(rest[i] == s[i]);
            }
            lemma_placeholders_at(rest, at);
        }
    }
}

/// The fragments that queries share hold no placeholder.
pub proof fn lemma_query_fragments()
    ensures
        placeholders(BASICCONTENTFIELDS@) == 0,
        placeholders(USER2FIELDS@) == 0,
        placeholders(BROWSEFIELDS@) == 0,
        placeholders(COMMONCONTENT@) == 0,
        placeholders(COMMONUSER@) == 0,
        placeholders(COMMON_CONTENT_JOIN@) == 0,
        placeholders(COMMON_CONTENT_JOIN_END@) == 0,
        placeholders("c.id"@) == 0,
        placeholders("SELECT "@) == 0,
        placeholders(")"@) == 0,

{
    reveal_strlit("c.id,c.hash,c.name,c.text");
    lemma_placeholders_at(BASICCONTENTFIELDS@, Set::<int>::empty());
    reveal_strlit("id,`type`,username,avatar,special,super,createDate");
    lemma_placeholders_at(USER2FIELDS@, Set::<int>::empty());
    reveal_strlit("c.id,c.hash,c.name,COALESCE(c.description,''),COALESCE(c.literalType,''),c.createDate,c.createUserId");
    lemma_placeholders_at(BROWSEFIELDS@, Set::<int>::empty());
    reveal_strlit(" deleted = 0 AND id IN (SELECT contentId FROM content_permissions WHERE read=1 AND userId=0) ");
    lemma_placeholders_at(COMMONCONTENT@, Set::<int>::empty());
    reveal_strlit(" deleted = 0 AND `type`= 1 AND (registrationKey IS NULL OR registrationKey = '') ");
    lemma_placeholders_at(COMMONUSER@, Set::<int>::empty());
    reveal_strlit("JOIN content_permissions _cp_ ON _cp_.contentId = ");
    lemma_placeholders_at(COMMON_CONTENT_JOIN@, Set::<int>::empty());
    reveal_strlit(" AND _cp_.read=1 AND _cp_.userId=0");
    lemma_placeholders_at(COMMON_CONTENT_JOIN_END@, Set::<int>::empty());
    reveal_strlit("c.id");
    lemma_placeholders_at("c.id"@, Set::<int>::empty());
    reveal_strlit("SELECT ");
    lemma_placeholders_at("SELECT "@, Set::<int>::empty());
    reveal_strlit(")");
    lemma_placeholders_at(")"@, Set::<int>::empty());
}

/// The users query holds one placeholder for each id.
proof fn lemma_users_query_placeholders(count: nat)
    ensures
        placeholders(users_query_text(count)) == count,
{
    lemma_query_fragments();
    law_params_list_placeholders(count);
    reveal_strlit(" FROM users WHERE ");
    lemma_placeholders_at(" FROM users WHERE "@, Set::<int>::empty());
    reveal_strlit(" AND id IN (");
    lemma_placeholders_at(" AND id IN ("@, Set::<int>::empty());
    lemma_placeholders_add("SELECT "@, USER2FIELDS@);
    lemma_placeholders_add("SELECT "@ + USER2FIELDS@, " FROM users WHERE "@);
    lemma_placeholders_add("SELECT "@ + USER2FIELDS@ + " FROM users WHERE "@, COMMONUSER@);
    lemma_placeholders_add("SELECT "@ + USER2FIELDS@ + " FROM users WHERE "@ + COMMONUSER@, " AND id IN ("@);
    lemma_placeholders_add("SELECT "@ + USER2FIELDS@ + " FROM users WHERE "@ + COMMONUSER@ + " AND id IN ("@, params_list_text(count));
    lemma_placeholders_add("SELECT "@ + USER2FIELDS@ + " FROM users WHERE "@ + COMMONUSER@ + " AND id IN ("@ + params_list_text(count), ")"@);
}

/// The categories query holds one placeholder for each parameter: three of its own and
/// one for each id asked for.
proof fn lemma_categories_placeholders(count: nat)
    ensures
        placeholders(categories_base_text()) == 3,
        placeholders(categories_base_text() + " AND c.id IN ("@ + params_list_text(count) + ")"@) == 3 + count,
{
    lemma_query_fragments();
    law_params_list_placeholders(count);
    reveal_strlit("SELECT c.id,c.name,c.hash,v.`value`\n        FROM content c JOIN content_values v ON c.id=v.contentId ");
    lemma_placeholders_at("SELECT c.id,c.name,c.hash,v.`value`\n        FROM content c JOIN content_values v ON c.id=v.contentId "@, Set::<int>::empty());
    reveal_strlit("\n        WHERE v.`key`=? AND c.contentType = ? AND c.literalType = ?");
    lemma_placeholders_at("\n        WHERE v.`key`=? AND c.contentType = ? AND c.literalType = ?"@, set![23int, 45int, 67int]);
    reveal_strlit(" AND c.id IN (");
    lemma_placeholders_at(" AND c.id IN ("@, Set::<int>::empty());
    lemma_placeholders_add("SELECT c.id,c.name,c.hash,v.`value`\n        FROM content c JOIN content_values v ON c.id=v.contentId "@, COMMON_CONTENT_JOIN@);
    lemma_placeholders_add("SELECT c.id,c.name,c.hash,v.`value`\n        FROM content c JOIN content_values v ON c.id=v.contentId "@ + COMMON_CONTENT_JOIN@, "c.id"@);
    lemma_placeholders_add("SELECT c.id,c.name,c.hash,v.`value`\n        FROM content c JOIN content_values v ON c.id=v.contentId "@ + COMMON_CONTENT_JOIN@ + "c.id"@, COMMON_CONTENT_JOIN_END@);
    lemma_placeholders_add("SELECT c.id,c.name,c.hash,v.`value`\n        FROM content c JOIN content_values v ON c.id=v.contentId "@ + COMMON_CONTENT_JOIN@ + "c.id"@ + COMMON_CONTENT_JOIN_END@, "\n        WHERE v.`key`=? AND c.contentType = ? AND c.literalType = ?"@);
    lemma_placeholders_add(categories_base_text(), " AND c.id IN ("@);
    lemma_placeholders_add(categories_base_text() + " AND c.id IN ("@, params_list_text(count));
    lemma_placeholders_add(categories_base_text() + " AND c.id IN ("@ + params_list_text(count), ")"@);
}

/// Each filter of the browse query holds one placeholder for each parameter it adds.
proof fn lemma_browse_filters_placeholders(s: PageSearch)
    ensures
        placeholders(browse_filters(s).0) == browse_filters(s).1.len(),
{
    reveal_strlit(" AND (c.name LIKE ? OR c.id IN (SELECT contentId FROM content_keywords WHERE `value` LIKE ?))");
    lemma_placeholders_at(" AND (c.name LIKE ? OR c.id IN (SELECT contentId FROM content_keywords WHERE `value` LIKE ?))"@, set![18int, 90int]);
    reveal_strlit(" AND c.id IN (SELECT contentId FROM content_values WHERE `key` = ?)");
    lemma_placeholders_at(" AND c.id IN (SELECT contentId FROM content_values WHERE `key` = ?)"@, set![65int]);
    reveal_strlit(" AND c.createUserId = ?");
    lemma_placeholders_at(" AND c.createUserId = ?"@, set![22int]);
    reveal_strlit(" AND c.id IN (SELECT contentId FROM content_values WHERE `key`= ? OR (`key` = ? AND `value` LIKE ?))");
    lemma_placeholders_at(" AND c.id IN (SELECT contentId FROM content_values WHERE `key`= ? OR (`key` = ? AND `value` LIKE ?))"@, set![64int, 78int, 97int]);
    reveal_strlit(" AND c.id IN (SELECT contentId FROM content_values WHERE `key`=? AND `value` LIKE ?)");
    lemma_placeholders_at(" AND c.id IN (SELECT contentId FROM content_values WHERE `key`=? AND `value` LIKE ?)"@, set![63int, 82int]);
    reveal_strlit(" AND c.literalType = ?");
    lemma_placeholders_at(" AND c.literalType = ?"@, set![21int]);
    match s.subtype {
        Some(st) => if st@.len() > 0 {
            let is_program = st@ == SBSPageType::PROGRAM@;
            let ta = if is_program && !s.removed { " AND c.id IN (SELECT contentId FROM content_values WHERE `key`= ? OR (`key` = ? AND `value` LIKE ?))"@ } else { Seq::<char>::empty() };
            let tb = if is_program && s.system@ != ANYSYSTEM@ { " AND c.id IN (SELECT contentId FROM content_values WHERE `key`=? AND `value` LIKE ?)"@ } else { Seq::<char>::empty() };
            lemma_placeholders_add(" AND c.literalType = ?"@, ta);
            lemma_placeholders_add(" AND c.literalType = ?"@ + ta, tb);
        },
        None => {},
    }
    let (a, b, c, d) = (search_filter(s).0, category_filter(s).0, user_filter(s).0, subtype_filter(s).0);
    lemma_placeholders_add(a, b);
    lemma_placeholders_add(a + b, c);
    lemma_placeholders_add(a + b + c, d);
}

/// The browse query holds one placeholder for each of its parameters.
proof fn lemma_browse_placeholders(search: PageSearch, limits: QueryLimit, o: Seq<char>)
    requires
        browse_order_text(search.order@) == Some(o),
    ensures
        placeholders(browse_base_text() + browse_filters(search).0 + " GROUP BY c.id"@ + o + limit_text(limits))
            == (browse_base_params() + browse_filters(search).1 + limit_params(limits)).len(),
{
    lemma_query_fragments();
    lemma_browse_filters_placeholders(search);
    law_limit_placeholders(limits);
    reveal_strlit(",(SELECT COUNT(*) FROM content_engagement e WHERE contentId=c.id AND e.`type`=? AND e.`engagement`=?) AS upvotes\n        FROM content c JOIN content p ON c.parentId=p.id ");
    lemma_placeholders_at(",(SELECT COUNT(*) FROM content_engagement e WHERE contentId=c.id AND e.`type`=? AND e.`engagement`=?) AS upvotes\n        FROM content c JOIN content p ON c.parentId=p.id "@, set![78int, 99int]);
    reveal_strlit("\n        WHERE c.contentType=? AND p.contentType = ? AND p.literalType = ?");
    lemma_placeholders_at("\n        WHERE c.contentType=? AND p.contentType = ? AND p.literalType = ?"@, set![29int, 51int, 73int]);
    reveal_strlit(" GROUP BY c.id");
    lemma_placeholders_at(" GROUP BY c.id"@, Set::<int>::empty());
    reveal_strlit(" ORDER BY c.id");
    lemma_placeholders_at(" ORDER BY c.id"@, Set::<int>::empty());
    reveal_strlit(" ORDER BY c.id DESC");
    lemma_placeholders_at(" ORDER BY c.id DESC"@, Set::<int>::empty());
    reveal_strlit(" ORDER BY upvotes DESC");
    lemma_placeholders_at(" ORDER BY upvotes DESC"@, Set::<int>::empty());
    reveal_strlit(" ORDER BY name");
    lemma_placeholders_at(" ORDER BY name"@, Set::<int>::empty());
    reveal_strlit(" ORDER BY name DESC");
    lemma_placeholders_at(" ORDER BY name DESC"@, Set::<int>::empty());
    lemma_placeholders_add("SELECT "@, BROWSEFIELDS@);
    lemma_placeholders_add("SELECT "@ + BROWSEFIELDS@, ",(SELECT COUNT(*) FROM content_engagement e WHERE contentId=c.id AND e.`type`=? AND e.`engagement`=?) AS upvotes\n        FROM content c JOIN content p ON c.parentId=p.id "@);
    lemma_placeholders_add("SELECT "@ + BROWSEFIELDS@ + ",(SELECT COUNT(*) FROM content_engagement e WHERE contentId=c.id AND e.`type`=? AND e.`engagement`=?) AS upvotes\n        FROM content c JOIN content p ON c.parentId=p.id "@, COMMON_CONTENT_JOIN@);
    lemma_placeholders_add("SELECT "@ + BROWSEFIELDS@ + ",(SELECT COUNT(*) FROM content_engagement e WHERE contentId=c.id AND e.`type`=? AND e.`engagement`=?) AS upvotes\n        FROM content c JOIN content p ON c.parentId=p.id "@ + COMMON_CONTENT_JOIN@, "c.id"@);
    lemma_placeholders_add("SELECT "@ + BROWSEFIELDS@ + ",(SELECT COUNT(*) FROM content_engagement e WHERE contentId=c.id AND e.`type`=? AND e.`engagement`=?) AS upvotes\n        FROM content c JOIN content p ON c.parentId=p.id "@ + COMMON_CONTENT_JOIN@ + "c.id"@, COMMON_CONTENT_JOIN_END@);
    lemma_placeholders_add("SELECT "@ + BROWSEFIELDS@ + ",(SELECT COUNT(*) FROM content_engagement e WHERE contentId=c.id AND e.`type`=? AND e.`engagement`=?) AS upvotes\n        FROM content c JOIN content p ON c.parentId=p.id "@ + COMMON_CONTENT_JOIN@ + "c.id"@ + COMMON_CONTENT_JOIN_END@, "\n        WHERE c.contentType=? AND p.contentType = ? AND p.literalType = ?"@);
    lemma_placeholders_add(browse_base_text(), browse_filters(search).0);
    lemma_placeholders_add(browse_base_text() + browse_filters(search).0, " GROUP BY c.id"@);
    lemma_placeholders_add(browse_base_text() + browse_filters(search).0 + " GROUP BY c.id"@, o);
    lemma_placeholders_add(browse_base_text() + browse_filters(search).0 + " GROUP BY c.id"@ + o, limit_text(limits));
}

/// The queries that read what belongs to one content or message take exactly one
/// parameter, its id: each holds one placeholder.
pub proof fn law_lookup_queries_one_placeholder()
    ensures
        placeholders(VALUESELECT@) == 1,
        placeholders(KEYWORDSELECT@) == 1,
        placeholders(crate::pages::forum_thread::MSGVALUESELECT@) == 1,
        placeholders(crate::pages::index::ENGAGEMENTS_QUERY@) == 1,
{
    reveal_strlit("SELECT `key`,`value` FROM content_values WHERE contentId=?");
    lemma_placeholders_at(VALUESELECT@, set![57int]);
    reveal_strlit("SELECT `value` FROM content_keywords WHERE contentId=?");
    lemma_placeholders_at(KEYWORDSELECT@, set![53int]);
    reveal_strlit("SELECT `key`,`value` FROM message_values WHERE messageId=?");
    lemma_placeholders_at(crate::pages::forum_thread::MSGVALUESELECT@, set![57int]);
    reveal_strlit("SELECT `type`,engagement,count(*) FROM content_engagement WHERE contentId = ? GROUP BY `type`,engagement");
    lemma_placeholders_at(crate::pages::index::ENGAGEMENTS_QUERY@, set![76int]);
}

/// The restriction to an old id holds two placeholders and the one to a hash holds one, one
/// for each parameter it adds, besides those of the table's name.
proof fn lemma_oldid_placeholders(o: OldIdOrHash, table_name: Seq<char>)
    ensures
        placeholders(o.query_text(table_name)) == placeholders(table_name) + match o {
            OldIdOrHash::Id(_) => 2nat,
            OldIdOrHash::Hash(_) => 1nat,
        },
{
    reveal_strlit(" AND EXISTS (SELECT id FROM content_values WHERE `key`=? AND `value`=? AND contentId=");
    lemma_placeholders_at(OLDID_PART@, set![55int, 69int]);
    reveal_strlit(".id)");
    lemma_placeholders_at(OLDID_PART_END@, Set::<int>::empty());
    reveal_strlit(" AND ");
    lemma_placeholders_at(HASH_PART@, Set::<int>::empty());
    reveal_strlit(".hash = ?");
    lemma_placeholders_at(HASH_PART_END@, set![8int]);
    lemma_placeholders_add(OLDID_PART@, table_name);
    lemma_placeholders_add(OLDID_PART@ + table_name, OLDID_PART_END@);
    lemma_placeholders_add(HASH_PART@, table_name);
    lemma_placeholders_add(HASH_PART@ + table_name, HASH_PART_END@);
}

proof fn lemma_placeholders_params_list(n: nat)
    ensures
        placeholders(params_list_text(n)) == n,
    decreases n,
{
    reveal_with_fuel(placeholders, 3);
    if n == 1 {
        assert(params_list_text(1) =~= seq!['?']);
        assert(seq!['?'].drop_last() =~= Seq::<char>::empty());
    } else if n > 1 {
        lemma_placeholders_params_list((n - 1) as nat);
        lemma_placeholders_add(params_list_text((n - 1) as nat), seq![',', '?']);
        assert(seq![',', '?'].drop_last() =~= seq![',']);
        assert(seq![','].drop_last() =~= Seq::<char>::empty());
    }
}

/// A list of `n` placeholders holds `n` of them.
pub proof fn law_params_list_placeholders(n: nat)
    ensures
        placeholders(params_list_text(n)) == n,
{
    lemma_placeholders_params_list(n);
}

/// The text a limit adds holds one placeholder for each parameter it adds.
pub proof fn law_limit_placeholders(l: QueryLimit)
    ensures
        placeholders(limit_text(l)) == limit_params(l).len(),
{
    assert(placeholders(LIMIT_PART@) == 1) by {
        reveal_strlit(" LIMIT ?");
        reveal_with_fuel(placeholders, 9);
    }
    assert(placeholders(OFFSET_PART@) == 1) by {
        reveal_strlit(" OFFSET ?");
        reveal_with_fuel(placeholders, 10);
    }
    lemma_placeholders_add(
        if l.limit is Some { LIMIT_PART@ } else { Seq::<char>::empty() },
        if l.skip is Some { OFFSET_PART@ } else { Seq::<char>::empty() },
    );
}


} // verus!
