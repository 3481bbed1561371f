//! Constants and helpers shared by pages.
pub mod contentapi;
pub mod render;

use vstd::prelude::*;
use vstd::string::StringExecFns;

use crate::text::str_eq;

verus! {

/// The order pages are browsed in unless asked otherwise.
pub const DEFAULTPAGESORT: &'static str = "upvotes";
/// The system filter that lets every system through.
pub const ANYSYSTEM: &'static str = "any";
/// The key of the Petit Computer system.
pub const PTCSYSTEM: &'static str = "ptc";
/// The markup that is rendered with bbcode.
pub const MARKUPBBCODE: &'static str = "bbcode";

/// The title of a system key.
pub open spec fn system_title_spec(key: Seq<char>) -> Option<Seq<char>> {
    if key == ANYSYSTEM@ {
        Some("Any"@)
    } else if key == PTCSYSTEM@ {
        Some("Petit Computer (DSi)"@)
    } else if key == "3ds"@ {
        Some("Nintendo 3DS"@)
    } else if key == "wiiu"@ {
        Some("Nintendo WiiU"@)
    } else if key == "switch"@ {
        Some("Nintendo Switch"@)
    } else {
        None
    }
}

/// The systems programs can be made for, as (key, title), in display order.
pub fn sbs_systems() -> (r: Vec<(&'static str, &'static str)>)
    ensures
        r@.len() == 5,
        r@[0].0@ == ANYSYSTEM@ && r@[0].1@ == "Any"@,
        r@[1].0@ == PTCSYSTEM@ && r@[1].1@ == "Petit Computer (DSi)"@,
        r@[2].0@ == "3ds"@ && r@[2].1@ == "Nintendo 3DS"@,
        r@[3].0@ == "wiiu"@ && r@[3].1@ == "Nintendo WiiU"@,
        r@[4].0@ == "switch"@ && r@[4].1@ == "Nintendo Switch"@,
{
    let mut r: Vec<(&'static str, &'static str)> = Vec::new();
    r.push((ANYSYSTEM, "Any"));
    r.push((PTCSYSTEM, "Petit Computer (DSi)"));
    r.push(("3ds", "Nintendo 3DS"));
    r.push(("wiiu", "Nintendo WiiU"));
    r.push(("switch", "Nintendo Switch"));
    r
}

/// The title of a system, if the key names one.
pub fn get_sbs_system_title(key: &str) -> (r: Option<&'static str>)
    ensures
        match r {
            Some(t) => system_title_spec(key@) == Some(t@),
            None => system_title_spec(key@) is None,
        },
{
    let systems = sbs_systems();
    let mut i: usize = 0;
    while i < systems.len()
        invariant
            systems@.len() == 5,
            systems@[0].0@ == ANYSYSTEM@ && systems@[0].1@ == "Any"@,
            systems@[1].0@ == PTCSYSTEM@ && systems@[1].1@ == "Petit Computer (DSi)"@,
            systems@[2].0@ == "3ds"@ && systems@[2].1@ == "Nintendo 3DS"@,
            systems@[3].0@ == "wiiu"@ && systems@[3].1@ == "Nintendo WiiU"@,
            systems@[4].0@ == "switch"@ && systems@[4].1@ == "Nintendo Switch"@,
            i <= 5,
            forall|k: int| 0 <= k < i ==> key@ != #[trigger] systems@[k].0@,
        decreases 5 - i,
    {
        let (sys, title) = systems[i];
        if str_eq(sys, key) {
            return Some(title);
        }
        i = i + 1;
    }
    None
}

/// What to browse: text to search for, order, page type, system, category, author, whether
/// removed programs are shown, and the page.
#[derive(Debug, Clone)]
pub struct PageSearch {
    pub search: Option<String>,
    pub order: String,
    pub subtype: Option<String>,
    pub system: String,
    pub category: Option<i64>,
    pub user_id: Option<i64>,
    pub removed: bool,
    pub page: i32,
}

impl Default for PageSearch {
    /// Everything, best voted first, any system, removed programs hidden, first page.
    fn default() -> (r: Self)
        ensures
            r.search is None,
            r.order@ == DEFAULTPAGESORT@,
            r.subtype is None,
            r.system@ == ANYSYSTEM@,
            r.category is None,
            r.user_id is None,
            !r.removed,
            r.page == 0,
    {
        PageSearch {
            search: None,
            order: String::from_str(DEFAULTPAGESORT),
            subtype: None,
            system: String::from_str(ANYSYSTEM),
            user_id: None,
            category: None,
            removed: false,
            page: 0,
        }
    }
}

} // verus!
