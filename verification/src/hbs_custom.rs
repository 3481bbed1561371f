//! Helpers for rendering forms.
use vstd::prelude::*;
use vstd::std_specs::cmp::PartialEqSpec;

use vstd::string::StringExecFns;

use crate::pages::common::contentapi::append_str;
use crate::routes::forums::starts_with;
use crate::text::chars_of;

verus! {

/// One option of a form select, which knows whether it is the selected one.
#[derive(Debug)]
pub struct SelectValue<T> {
    pub value: T,
    pub text: Option<String>,
    pub selected: bool,
}

impl<T: PartialEq + Copy> SelectValue<T> {
    /// An option with the given value and text, selected when the value is `selected_value`.
    pub fn new(value: T, text: &str, selected_value: T) -> (r: Self)
        ensures
            r.value == value,
            r.text matches Some(t) && t@ == text@,
            T::obeys_eq_spec() ==> r.selected == selected_value.eq_spec(&value),
    {
        SelectValue { value: value, selected: selected_value == value, text: Some(String::from_str(text)) }
    }
}

/// The attributes of a header tab: its link below the root, and the `current` class when
/// the route being shown starts with the tab's path.
pub open spec fn headerlink_text(httproot: Seq<char>, route: Seq<char>, path: Seq<char>) -> Seq<char> {
    "href=\""@ + httproot + path + "\""@ + "class=\"plainlink headertab "@ + (if starts_with(route, path) {
        "current"@
    } else {
        Seq::empty()
    }) + "\""@
}

fn prefix_of(t: &Vec<char>, p: &Vec<char>) -> (r: bool)
    ensures
        r == starts_with(t@, p@),
{
    if p.len() > t.len() {
        return false;
    }
    let mut i: usize = 0;
    while i < p.len()
        invariant
            p@.len() <= t@.len(),
            i <= p@.len(),
            forall|k: int| 0 <= k < i ==> t@[k] == p@[k],
        decreases p@.len() - i,
    {
        if t[i] != p[i] {
            assert(t@.take(p@.len() as int)[i as int] != p@[i as int]);
            return false;
        }
        i = i + 1;
    }
    assert(t@.take(p@.len() as int) =~= p@);
    true
}

/// Write the attributes of a header tab.
pub fn headerlink_helper(httproot: &str, route: &str, path: &str) -> (r: String)
    ensures
        r@ == headerlink_text(httproot@, route@, path@),
{
    let r = append_str(String::new(), "href=\"");
    let r = append_str(r, httproot);
    let r = append_str(r, path);
    let r = append_str(r, "\"");
    let r = append_str(r, "class=\"plainlink headertab ");
    let r = if prefix_of(&chars_of(route), &chars_of(path)) {
        append_str(r, "current")
    } else {
        r
    };
    let r = append_str(r, "\"");
    assert(r@ =~= headerlink_text(httproot@, route@, path@));
    r
}

/// The attributes of a form that posts back to the route being shown, with an optional
/// query that tells the handler which form it is.
pub open spec fn selfpost_text(httproot: Seq<char>, route: Seq<char>, classify: Option<Seq<char>>) -> Seq<char> {
    "method=\"POST\" action=\""@ + httproot + route + match classify {
        Some(c) => "?"@ + c,
        None => Seq::empty(),
    } + "\""@
}

/// Write the attributes of a form that posts back to the route being shown.
pub fn selfpost_helper(httproot: &str, route: &str, classify: Option<&str>) -> (r: String)
    ensures
        r@ == selfpost_text(httproot@, route@, match classify {
            Some(c) => Some(c@),
            None => None,
        }),
{
    let r = append_str(String::new(), "method=\"POST\" action=\"");
    let r = append_str(r, httproot);
    let r = append_str(r, route);
    let r = match classify {
        Some(c) => append_str(append_str(r, "?"), c),
        None => r,
    };
    let r = append_str(r, "\"");
    assert(r@ =~= selfpost_text(httproot@, route@, match classify {
        Some(c) => Some(c@),
        None => None,
    }));
    r
}

/// The stylesheet tag for a file below the static root, with the boot time busting caches.
pub fn stylesheet_helper(httpstatic: &str, boot_time: &str, path: &str) -> (r: String)
    ensures
        r@ == "<link rel=\"stylesheet\" href=\""@ + httpstatic@ + path@ + "?"@ + boot_time@ + "\">"@,
{
    let r = append_str(String::new(), "<link rel=\"stylesheet\" href=\"");
    let r = append_str(append_str(append_str(append_str(r, httpstatic), path), "?"), boot_time);
    let r = append_str(r, "\">");
    assert(r@ =~= "<link rel=\"stylesheet\" href=\""@ + httpstatic@ + path@ + "?"@ + boot_time@ + "\">"@);
    r
}

/// The script tag for a file below the static root, with the boot time busting caches.
pub fn script_helper(httpstatic: &str, boot_time: &str, path: &str) -> (r: String)
    ensures
        r@ == "<script src=\""@ + httpstatic@ + path@ + "?"@ + boot_time@ + "\"></script>"@,
{
    let r = append_str(String::new(), "<script src=\"");
    let r = append_str(append_str(append_str(append_str(r, httpstatic), path), "?"), boot_time);
    let r = append_str(r, "\"></script>");
    assert(r@ =~= "<script src=\""@ + httpstatic@ + path@ + "?"@ + boot_time@ + "\"></script>"@);
    r
}

} // verus!
