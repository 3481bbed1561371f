//! The requests the forum sends to the content api.
use vstd::prelude::*;
use vstd::string::StringExecFns;

verus! {

/// The kinds of things the api can be asked for.
#[allow(non_camel_case_types)]
#[derive(Debug, Clone, Copy, PartialEq, Eq)]
pub enum RequestType {
    user,
    content,
    message,
    activity,
    watch,
    adminlog,
    uservariable,
    message_aggregate,
    activity_aggregate,
    content_engagement,
    ban,
    keyword_aggregate,
    message_engagement,
}

impl RequestType {
    /// The name of the kind, as the api spells it.
    pub open spec fn literal(self) -> Seq<char> {
        match self {
            RequestType::user => "user"@,
            RequestType::content => "content"@,
            RequestType::message => "message"@,
            RequestType::activity => "activity"@,
            RequestType::watch => "watch"@,
            RequestType::adminlog => "adminlog"@,
            RequestType::uservariable => "uservariable"@,
            RequestType::message_aggregate => "message_aggregate"@,
            RequestType::activity_aggregate => "activity_aggregate"@,
            RequestType::content_engagement => "content_engagement"@,
            RequestType::ban => "ban"@,
            RequestType::keyword_aggregate => "keyword_aggregate"@,
            RequestType::message_engagement => "message_engagement"@,
        }
    }

    /// The name of the kind, as the api spells it.
    pub fn to_literal(&self) -> (r: &'static str)
        ensures
            r@ == self.literal(),
    {
        match self {
            RequestType::user => "user",
            RequestType::content => "content",
            RequestType::message => "message",
            RequestType::activity => "activity",
            RequestType::watch => "watch",
            RequestType::adminlog => "adminlog",
            RequestType::uservariable => "uservariable",
            RequestType::message_aggregate => "message_aggregate",
            RequestType::activity_aggregate => "activity_aggregate",
            RequestType::content_engagement => "content_engagement",
            RequestType::ban => "ban",
            RequestType::keyword_aggregate => "keyword_aggregate",
            RequestType::message_engagement => "message_engagement",
        }
    }
}

/// The literal types of forum content.
#[allow(non_camel_case_types)]
#[derive(Debug, Clone, Copy, PartialEq, Eq)]
pub enum SBSContentType {
    forumcategory,
    forumthread,
}

impl SBSContentType {
    /// The name of the type, as the api spells it.
    pub open spec fn literal(self) -> Seq<char> {
        match self {
            SBSContentType::forumcategory => "forumcategory"@,
            SBSContentType::forumthread => "forumthread"@,
        }
    }

    /// The name of the type, as the api spells it.
    pub fn to_literal(&self) -> (r: &'static str)
        ensures
            r@ == self.literal(),
    {
        match self {
            SBSContentType::forumcategory => "forumcategory",
            SBSContentType::forumthread => "forumthread",
        }
    }
}

/// A value that the queries of a request can refer to by name.
#[derive(Debug, Clone)]
pub enum RequestValue {
    Int(i64),
    Ints(Vec<i64>),
    Text(String),
}

/// A request value in the model.
pub enum RequestValueView {
    Int(i64),
    Ints(Seq<i64>),
    Text(Seq<char>),
}

impl View for RequestValue {
    type V = RequestValueView;

    open spec fn view(&self) -> RequestValueView {
        match self {
            RequestValue::Int(i) => RequestValueView::Int(*i),
            RequestValue::Ints(v) => RequestValueView::Ints(v@),
            RequestValue::Text(t) => RequestValueView::Text(t@),
        }
    }
}

/// One search of a request to the api.
#[derive(Debug)]
pub struct Request {
    pub name: Option<String>,
    /// The kind of thing searched for.
    pub request_type: String,
    pub fields: String,
    pub query: Option<String>,
    pub order: Option<String>,
    pub limit: i64,
    pub skip: i64,
}

/// A search in the model.
pub struct RequestView {
    pub name: Option<Seq<char>>,
    pub request_type: Seq<char>,
    pub fields: Seq<char>,
    pub query: Option<Seq<char>>,
    pub order: Option<Seq<char>>,
    pub limit: i64,
    pub skip: i64,
}

pub open spec fn opt_view(o: Option<String>) -> Option<Seq<char>> {
    match o {
        Some(s) => Some(s@),
        None => None,
    }
}

impl View for Request {
    type V = RequestView;

    open spec fn view(&self) -> RequestView {
        RequestView {
            name: opt_view(self.name),
            request_type: self.request_type@,
            fields: self.fields@,
            query: opt_view(self.query),
            order: opt_view(self.order),
            limit: self.limit,
            skip: self.skip,
        }
    }
}

/// A search of the given kind, fields, query and order, with no name.
pub open spec fn search(
    t: RequestType,
    fields: Seq<char>,
    query: Option<Seq<char>>,
    order: Option<Seq<char>>,
    limit: i64,
    skip: i64,
) -> RequestView {
    RequestView { name: None, request_type: t.literal(), fields, query, order, limit, skip }
}

/// The same search under a name.
pub open spec fn named(r: RequestView, name: Seq<char>) -> RequestView {
    RequestView { name: Some(name), ..r }
}

/// Build a search of the given kind.
pub fn build_request(
    t: RequestType,
    fields: &str,
    query: Option<String>,
    order: Option<&str>,
    limit: i64,
    skip: i64,
) -> (r: Request)
    ensures
        r@ == search(
            t,
            fields@,
            opt_view(query),
            match order {
                Some(o) => Some(o@),
                None => None,
            },
            limit,
            skip,
        ),
{
    Request {
        name: None,
        request_type: String::from_str(t.to_literal()),
        fields: String::from_str(fields),
        query,
        order: match order {
            Some(o) => Some(String::from_str(o)),
            None => None,
        },
        limit,
        skip,
    }
}

/// A request to the api: named values, and the searches that use them.
#[derive(Debug)]
pub struct FullRequest {
    /// The values in the order they were added; a later key replaces an earlier one.
    pub values: Vec<(String, RequestValue)>,
    pub requests: Vec<Request>,
}

/// The values of a request in the model.
pub open spec fn values_view(v: Seq<(String, RequestValue)>) -> Seq<(Seq<char>, RequestValueView)> {
    v.map_values(|p: (String, RequestValue)| (p.0@, p.1@))
}

/// The searches of a request in the model.
pub open spec fn requests_view(v: Seq<Request>) -> Seq<RequestView> {
    v.map_values(|r: Request| r@)
}

impl FullRequest {
    /// A request with no values and no searches.
    pub fn new() -> (r: Self)
        ensures
            r.values@.len() == 0,
            r.requests@.len() == 0,
    {
        FullRequest { values: Vec::new(), requests: Vec::new() }
    }

    /// Add a named value.
    pub fn add_value(&mut self, key: &str, value: RequestValue)
        ensures
            values_view(final(self).values@) == values_view(old(self).values@).push((key@, value@)),
            final(self).requests == old(self).requests,
    {
        let ghost before = self.values@;
        let ghost gv = value;
        let k = String::from_str(key);
        self.values.push((k, value));
        assert(self.values@ =~= before.push((k, gv)));
        assert(values_view(self.values@) =~= values_view(before).push((key@, gv@)));
    }
}

/// A user as the api gives one. Dates are unix timestamps in seconds.
#[derive(Debug, Clone)]
pub struct User {
    pub id: i64,
    pub user_type: i8,
    pub username: String,
    pub avatar: String,
    pub special: Option<String>,
    pub admin: bool,
    pub create_date: i64,
}

/// A content (a page, file, thread or category) as the api gives one: any field may be
/// missing. Dates are unix timestamps in seconds.
#[derive(Debug, Clone, Default)]
pub struct Content {
    pub id: Option<i64>,
    pub name: Option<String>,
    pub deleted: bool,
    pub create_user_id: Option<i64>,
    pub create_date: Option<i64>,
    pub content_type: Option<i8>,
    pub parent_id: Option<i64>,
    pub text: Option<String>,
    pub literal_type: Option<String>,
    pub meta: Option<String>,
    pub description: Option<String>,
    pub hash: Option<String>,
    /// The permission letters of each user id (0 stands for everyone), in the order given;
    /// a later entry for an id replaces an earlier one.
    pub permissions: Option<Vec<(i64, String)>>,
    /// The values, each as json text, in the order given; a later key replaces an earlier one.
    pub values: Option<Vec<(String, String)>>,
    pub keywords: Option<Vec<String>>,
    pub last_comment_id: Option<i64>,
    pub comment_count: Option<i64>,
    pub watch_count: Option<i64>,
    pub keyword_count: Option<i64>,
    pub last_revision_id: Option<i64>,
}

/// A message (a comment on a content) as the api gives one: any field may be missing.
/// Dates are unix timestamps in seconds.
#[derive(Debug, Clone, Default)]
pub struct Message {
    pub id: Option<i64>,
    pub content_id: Option<i64>,
    pub create_user_id: Option<i64>,
    pub create_date: Option<i64>,
    pub text: Option<String>,
    /// The values, each as json text, in the order given; a later key replaces an earlier one.
    pub values: Option<Vec<(String, String)>>,
    pub edit_date: Option<i64>,
    pub edit_user_id: Option<i64>,
    pub edited: bool,
    pub module: Option<String>,
}

/// A count the api computes for a search (such as the number of threads of a category).
#[derive(Debug, Clone, Copy)]
pub struct SpecialCount {
    pub special_count: i32,
}

/// A login as the api takes it: the credentials and how long the session lasts.
#[derive(Debug, Clone)]
pub struct Login {
    pub username: String,
    pub password: String,
    pub expire_seconds: i64,
}

/// The api login for a login form: long sessions last `long_cookie_expire` seconds, others
/// `default_cookie_expire`.
pub fn convert_login(default_cookie_expire: i32, long_cookie_expire: i32, login: &crate::forms::Login) -> (r: Login)
    ensures
        r.username == login.username,
        r.password == login.password,
        r.expire_seconds == if login.long_session { long_cookie_expire } else { default_cookie_expire },
{
    Login {
        username: login.username.clone(),
        password: login.password.clone(),
        expire_seconds: if login.long_session {
            long_cookie_expire as i64
        } else {
            default_cookie_expire as i64
        },
    }
}

} // verus!
