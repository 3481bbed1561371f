//! Turning page results and errors into http replies.
use vstd::prelude::*;
use vstd::string::StringExecFns;

use crate::links::LinkConfig;
use crate::pages::common::contentapi::append_str;
use crate::pages::forum_thread::ApiError;
use crate::text::{chars_of, decimal_text, push_decimal};

verus! {

/// What a page handler produces.
#[derive(Debug, Clone)]
pub enum Response {
    /// Send the visitor to this path (or link).
    Redirect(String),
    /// A page with a status.
    RenderWithStatus(String, u16),
    /// A plain message with a status.
    MessageWithStatus(String, u16),
    /// A page.
    Render(String),
}

/// What can go wrong in a page handler.
#[derive(Debug)]
pub enum PageError {
    Api(ApiError),
    Other(String),
    NotFound(String),
    /// Bad data, with the data that was bad.
    Data(String, String),
}

/// The status and message of an error.
pub open spec fn error_status_spec(e: PageError) -> (u16, Seq<char>) {
    match e {
        PageError::Api(a) => (a.status_spec(), a.verbose_text()),
        PageError::Other(m) => (500, m@),
        PageError::NotFound(m) => (404, m@),
        PageError::Data(m, _) => (500, m@),
    }
}

/// The http status and the message that tell the visitor about an error.
pub fn get_status_from_error(error: &PageError) -> (r: (u16, String))
    ensures
        r.0 == error_status_spec(*error).0,
        r.1@ == error_status_spec(*error).1,
{
    match error {
        PageError::Api(apierr) => (apierr.to_status(), apierr.to_verbose_string()),
        PageError::Other(otherr) => (500, otherr.clone()),
        PageError::NotFound(otherr) => (404, otherr.clone()),
        PageError::Data(derr, _data) => (500, derr.clone()),
    }
}

/// Why a request was refused before any page handled it.
#[derive(Debug)]
pub enum Rejection {
    /// A page handler failed.
    Handler(PageError),
    /// The body did not read, with the reason.
    BodyDeserialize(String),
    /// The query did not read, with the reason.
    InvalidQuery(String),
    /// Nothing handles this url.
    Unhandled,
}

/// The status and message of a refused request.
pub open spec fn rejection_spec(r: Rejection) -> (u16, Seq<char>) {
    match r {
        Rejection::Handler(e) => error_status_spec(e),
        Rejection::BodyDeserialize(m) => (400, m@),
        Rejection::InvalidQuery(m) => (400, m@),
        Rejection::Unhandled => (404, "Couldn't figure out what to do with this URL!"@),
    }
}

/// The http status and the message of a refused request.
pub fn handle_rejection(err: &Rejection) -> (r: (u16, String))
    ensures
        r.0 == rejection_spec(*err).0,
        r.1@ == rejection_spec(*err).1,
{
    match err {
        Rejection::Handler(error) => get_status_from_error(error),
        Rejection::BodyDeserialize(m) => (400, m.clone()),
        Rejection::InvalidQuery(m) => (400, m.clone()),
        Rejection::Unhandled => (404, String::from_str("Couldn't figure out what to do with this URL!")),
    }
}

/// An http reply: status, headers and body.
#[derive(Debug)]
pub struct HttpReply {
    pub status: u16,
    pub headers: Vec<(String, String)>,
    pub body: String,
}

/// The model of a list of headers.
pub open spec fn headers_view(h: Seq<(String, String)>) -> Seq<(Seq<char>, Seq<char>)> {
    h.map_values(|p: (String, String)| (p.0@, p.1@))
}

/// The cookie header setting `name` to `value` for `expire` seconds.
pub open spec fn cookie_text(name: Seq<char>, value: Seq<char>, expire: i64) -> Seq<char> {
    name + "="@ + value + "; Max-Age="@ + decimal_text(expire as int) + "; Path=/; SameSite=Strict"@
}

/// Where a redirect goes: the url as given when there is no root or it already starts with
/// the root, else the url below the root.
pub open spec fn location_text(root: Seq<char>, url: Seq<char>) -> Seq<char> {
    if root.len() == 0 || (root.len() <= url.len() && url.take(root.len() as int) == root) {
        url
    } else {
        root + url
    }
}

/// A redirect never leaves the website: when there is a root, the location starts with it.
pub proof fn law_redirect_stays_under_root(root: Seq<char>, url: Seq<char>)
    ensures
        root.len() <= location_text(root, url).len(),
        location_text(root, url).take(root.len() as int) == root,
{
    if root.len() == 0 {
        assert(location_text(root, url).take(0) =~= root);
    } else if !(root.len() <= url.len() && url.take(root.len() as int) == root) {
        assert((root + url).take(root.len() as int) =~= root);
    }
}

/// The reply for a page result: an optional cookie, then a redirect (303, to its location,
/// empty body), a page (200 or its status, as html) or a message (its status).
pub open spec fn reply_spec(response: Response, links: LinkConfig, cookie_name: Seq<char>, cookie_raw: Option<Seq<char>>, expire: i64) -> (u16, Seq<(Seq<char>, Seq<char>)>, Seq<char>) {
    let cookie = match cookie_raw {
        Some(v) => seq![("set-cookie"@, cookie_text(cookie_name, v, expire))],
        None => Seq::empty(),
    };
    match response {
        Response::Redirect(url) => (303, cookie + seq![("Location"@, location_text(links.http_root@, url@))], Seq::empty()),
        Response::RenderWithStatus(page, status) => (status, cookie + seq![("Content-Type"@, "text/html"@)], page@),
        Response::MessageWithStatus(message, status) => (status, cookie, message@),
        Response::Render(page) => (200, cookie + seq![("Content-Type"@, "text/html"@)], page@),
    }
}

fn starts_with_root(url: &str, root: &str) -> (r: bool)
    ensures
        r == (root@.len() <= url@.len() && url@.take(root@.len() as int) == root@),
{
    let u = chars_of(url);
    let p = chars_of(root);
    if p.len() > u.len() {
        return false;
    }
    let mut i: usize = 0;
    while i < p.len()
        invariant
            u@ == url@,
            p@ == root@,
            p@.len() <= u@.len(),
            i <= p@.len(),
            forall|k: int| 0 <= k < i ==> u@[k] == p@[k],
        decreases p@.len() - i,
    {
        if u[i] != p[i] {
            assert(u@.take(p@.len() as int)[i as int] != p@[i as int]);
            return false;
        }
        i = i + 1;
    }
    assert(u@.take(p@.len() as int) =~= p@);
    true
}

fn push_header(headers: &mut Vec<(String, String)>, name: &str, value: String)
    ensures
        headers_view(final(headers)@) == headers_view(old(headers)@).push((name@, value@)),
{
    let ghost before = headers@;
    let n = String::from_str(name);
    let ghost pair = (n, value);
    headers.push((n, value));
    assert(headers@ =~= before.push(pair));
    assert(headers_view(headers@) =~= headers_view(before).push((name@, pair.1@)));
}

/// The reply for a page result, setting the cookie `cookie_name` when a value is given.
pub fn handle_response_with_anycookie(
    response: Response,
    link_config: &LinkConfig,
    cookie_name: &str,
    cookie_raw: Option<String>,
    expire: i64,
) -> (r: HttpReply)
    ensures
        (r.status, headers_view(r.headers@), r.body@) == reply_spec(
            response,
            *link_config,
            cookie_name@,
            match cookie_raw {
                Some(c) => Some(c@),
                None => None,
            },
            expire,
        ),
{
    let ghost gr = response;
    let ghost gc = cookie_raw;
    let mut headers: Vec<(String, String)> = Vec::new();
    if let Some(token) = cookie_raw {
        let v = append_str(append_str(append_str(String::new(), cookie_name), "="), token.as_str());
        let v = push_decimal(append_str(v, "; Max-Age="), expire);
        let v = append_str(v, "; Path=/; SameSite=Strict");
        assert(v@ =~= cookie_text(cookie_name@, token@, expire));
        push_header(&mut headers, "set-cookie", v);
    }
    let ghost h0 = headers_view(headers@);
    assert(h0 =~= match gc {
        Some(v) => seq![("set-cookie"@, cookie_text(cookie_name@, v@, expire))],
        None => Seq::<(Seq<char>, Seq<char>)>::empty(),
    });
    match response {
        Response::Redirect(url) => {
            let loc = if link_config.http_root.as_str().is_empty() || starts_with_root(url.as_str(), link_config.http_root.as_str()) {
                url
            } else {
                append_str(link_config.http_root.clone(), url.as_str())
            };
            push_header(&mut headers, "Location", loc);
            HttpReply { status: 303, headers, body: String::new() }
        },
        Response::RenderWithStatus(page, status) => {
            push_header(&mut headers, "Content-Type", String::from_str("text/html"));
            HttpReply { status, headers, body: page }
        },
        Response::MessageWithStatus(message, status) => HttpReply { status, headers, body: message },
        Response::Render(page) => {
            push_header(&mut headers, "Content-Type", String::from_str("text/html"));
            HttpReply { status: 200, headers, body: page }
        },
    }
}

/// The reply for a response, setting no cookie.
pub fn handle_response(response: Response, link_config: &LinkConfig) -> (r: HttpReply)
    ensures
        (r.status, headers_view(r.headers@), r.body@) == reply_spec(response, *link_config, Seq::empty(), None, 0),
{
    handle_response_with_anycookie(response, link_config, "", None, 0)
}

/// The reply for a page result or, on error, for a message telling about it.
pub fn handle_response_with_error(response: Result<Response, PageError>, link_config: &LinkConfig) -> (r: HttpReply)
    ensures
        (r.status, headers_view(r.headers@), r.body@) == match response {
            Ok(res) => reply_spec(res, *link_config, Seq::empty(), None, 0),
            Err(e) => (error_status_spec(e).0, Seq::empty(), error_status_spec(e).1),
        },
{
    match response {
        Ok(result) => handle_response(result, link_config),
        Err(error) => {
            let (code, message) = get_status_from_error(&error);
            handle_response(Response::MessageWithStatus(message, code), link_config)
        },
    }
}

} // verus!
