//! What page cards and page icons show, decided before they are drawn.
use vstd::prelude::*;
use vstd::string::StringExecFns;

use crate::json::{json_string, parse_json_string, parse_json_string_list, strings_view};
use crate::links::{forum_thread_text, image_text, LinkConfig, QueryImage};
use crate::pages::common::contentapi::{is_default_user, user_or_default2, User2};
use crate::pages::forum_thread::thumbnail_spec;
use crate::pages::common::contentapi::{
    append_str, get_systems2, get_value, string_list_value, value_lookup, BrowseContent,
    SBSPageType, SBSValue,
};
use crate::pages::common::{get_sbs_system_title, system_title_spec, PTCSYSTEM};
use crate::text::{decimal_string, decimal_text, str_eq};

verus! {

/// `"true"` or `"false"`.
pub fn b(boolean: bool) -> (r: &'static str)
    ensures
        r@ == if boolean { "true"@ } else { "false"@ },
{
    if boolean {
        "true"
    } else {
        "false"
    }
}

/// An optional integer as text, `??` when missing.
pub fn i(value: &Option<i64>) -> (r: String)
    ensures
        r@ == match value {
            Some(v) => decimal_text(*v as int),
            None => "??"@,
        },
{
    if let Some(v) = value {
        decimal_string(*v)
    } else {
        String::from_str("??")
    }
}

/// An icon: its title and the link to its image.
#[derive(Debug, Clone)]
pub struct PageIcon {
    pub title: String,
    pub src: String,
}

/// The icons of the systems that have titles, in order, as (title, key).
pub open spec fn titled_systems(systems: Seq<Seq<char>>) -> Seq<(Seq<char>, Seq<char>)>
    decreases systems.len(),
{
    if systems.len() == 0 {
        Seq::empty()
    } else {
        titled_systems(systems.drop_last()) + match system_title_spec(systems.last()) {
            Some(t) => seq![(t, systems.last())],
            None => Seq::empty(),
        }
    }
}

/// The icon of one titled system.
pub open spec fn system_icon(links: LinkConfig, ts: (Seq<char>, Seq<char>)) -> (Seq<char>, Seq<char>) {
    (ts.0, links.resource_root@ + "/"@ + ts.1 + ".svg"@)
}

/// The icons of a page: those of its titled systems, at most `max_icons` (but at least one)
/// when it lists systems; otherwise one for its type (documentation, resource, or any
/// other page).
pub open spec fn pageicons_spec(links: LinkConfig, values: Seq<(String, String)>, literal_type: Seq<char>, max_icons: i32) -> Seq<(Seq<char>, Seq<char>)> {
    let systems = string_list_value(values, SBSValue::SYSTEMS@);
    if systems.len() > 0 {
        let titled = titled_systems(systems);
        let n = if max_icons < 1 { 1 } else { max_icons as int };
        let shown = if titled.len() <= n { titled } else { titled.take(n) };
        shown.map_values(|ts: (Seq<char>, Seq<char>)| system_icon(links, ts))
    } else if literal_type == SBSPageType::DOCUMENTATION@ {
        seq![("Documentation"@, links.resource_root@ + "/sb-docs.png"@)]
    } else if literal_type == SBSPageType::RESOURCE@ {
        seq![("Resource"@, links.resource_root@ + "/sb-info.png"@)]
    } else {
        seq![("Thread"@, links.resource_root@ + "/sb-page.png"@)]
    }
}

/// The model of a list of icons.
pub open spec fn icons_view(v: Seq<PageIcon>) -> Seq<(Seq<char>, Seq<char>)> {
    v.map_values(|p: PageIcon| (p.title@, p.src@))
}

fn type_icon(links: &LinkConfig, title: &str, file: &str) -> (r: Vec<PageIcon>)
    ensures
        icons_view(r@) == seq![(title@, links.resource_root@ + file@)],
{
    let mut r: Vec<PageIcon> = Vec::new();
    r.push(PageIcon { title: String::from_str(title), src: append_str(links.resource_root.clone(), file) });
    assert(icons_view(r@) =~= seq![(title@, links.resource_root@ + file@)]);
    r
}

/// The icons shown for a page.
pub fn pageicon2(links: &LinkConfig, values: &Vec<(String, String)>, literal_type: &str, max_icons: i32) -> (r: Vec<PageIcon>)
    ensures
        icons_view(r@) == pageicons_spec(*links, values@, literal_type@, max_icons),
{
    let systems = get_systems2(values);
    let ghost sv = strings_view(systems@);
    if systems.len() > 0 {
        let ghost n: int = if max_icons < 1 { 1 } else { max_icons as int };
        let mut r: Vec<PageIcon> = Vec::new();
        let mut count: i32 = 0;
        let mut k: usize = 0;
        assert(sv.take(sv.len() as int) =~= sv);
        while k < systems.len()
            invariant_except_break
                count as int == r@.len(),
                r@.len() == titled_systems(sv.take(k as int)).len(),
                r@.len() < n,
                icons_view(r@) == titled_systems(sv.take(k as int)).map_values(
                    |ts: (Seq<char>, Seq<char>)| system_icon(*links, ts),
                ),
            invariant
                k <= systems@.len(),
                sv.len() == systems@.len(),
                sv.take(sv.len() as int) == sv,
                sv == strings_view(systems@),
                sv == string_list_value(values@, SBSValue::SYSTEMS@),
                n == if max_icons < 1 { 1 } else { max_icons as int },
            ensures
                icons_view(r@) == ({
                    let titled = titled_systems(sv);
                    let shown = if titled.len() <= n { titled } else { titled.take(n) };
                    shown.map_values(|ts: (Seq<char>, Seq<char>)| system_icon(*links, ts))
                }),
            decreases systems@.len() - k,
        {
            assert(sv.take(k as int + 1).drop_last() =~= sv.take(k as int));
            assert(sv.take(k as int + 1).last() == systems@[k as int]@);
            let system = &systems[k];
            let ghost t0 = titled_systems(sv.take(k as int));
            if let Some(title) = get_sbs_system_title(system.as_str()) {
                let src = append_str(append_str(append_str(links.resource_root.clone(), "/"), system.as_str()), ".svg");
                let ghost before = r@;
                assert(src@ =~= links.resource_root@ + "/"@ + system@ + ".svg"@);
                let icon = PageIcon { title: String::from_str(title), src };
                r.push(icon);
                assert(r@ =~= before.push(icon));
                assert(icons_view(r@) =~= icons_view(before).push((title@, src@)));
                assert(system_icon(*links, (title@, system@)) == (title@, src@));
                assert(icons_view(r@) =~= t0.push((title@, system@)).map_values(
                    |ts: (Seq<char>, Seq<char>)| system_icon(*links, ts),
                ));
                assert(titled_systems(sv.take(k as int + 1)) =~= t0.push((title@, system@)));
                count = count + 1;
                if count >= max_icons {
                    proof {
                        lemma_titled_prefix(sv, k as int + 1);
                        let titled = titled_systems(sv);
                        assert(titled.take(n) =~= titled_systems(sv.take(k as int + 1)));
                    }
                    break;
                }
            } else {
                assert(titled_systems(sv.take(k as int + 1)) =~= t0);
            }
            k = k + 1;
        }
        proof {
            if k == systems@.len() {
                assert(sv.take(k as int) =~= sv);
            }
        }
        r
    } else if str_eq(literal_type, SBSPageType::DOCUMENTATION) {
        type_icon(links, "Documentation", "/sb-docs.png")
    } else if str_eq(literal_type, SBSPageType::RESOURCE) {
        type_icon(links, "Resource", "/sb-info.png")
    } else {
        type_icon(links, "Thread", "/sb-page.png")
    }
}

proof fn lemma_titled_prefix(s: Seq<Seq<char>>, k: int)
    requires
        0 <= k <= s.len(),
    ensures
        titled_systems(s).len() >= titled_systems(s.take(k)).len(),
        titled_systems(s).take(titled_systems(s.take(k)).len() as int) == titled_systems(s.take(k)),
    decreases s.len() - k,
{
    if k < s.len() {
        lemma_titled_prefix(s, k + 1);
        assert(s.take(k + 1).drop_last() =~= s.take(k));
        let a = titled_systems(s.take(k));
        let b = titled_systems(s.take(k + 1));
        assert(b.take(a.len() as int) =~= a);
        assert(titled_systems(s).take(a.len() as int) =~= b.take(a.len() as int));
    } else {
        assert(s.take(k) =~= s);
        assert(titled_systems(s).take(titled_systems(s).len() as int) =~= titled_systems(s));
    }
}

/// What the corner of a page card shows: the download key, a link to QR codes for Petit
/// Computer programs, that a program was removed, or nothing.
#[derive(Debug, Clone)]
pub enum CardKey {
    Key(String),
    QrCodes(String),
    Removed,
    Placeholder,
}

/// Everything a page card shows besides the page's own fields.
#[derive(Debug)]
pub struct PageCard {
    pub link: String,
    pub image: Option<String>,
    pub user: User2,
    pub key: CardKey,
    pub icons: Vec<PageIcon>,
}

/// The download key of a page: its `dlkey` value read as a json string.
pub open spec fn key_spec(values: Seq<(String, String)>) -> Option<Seq<char>> {
    match value_lookup(values, SBSValue::DOWNLOADKEY@) {
        Some(t) => json_string(t),
        None => None,
    }
}

/// Whether a list of texts holds `t`.
pub open spec fn holds_text(v: Seq<Seq<char>>, t: Seq<char>) -> bool {
    exists|i: int| 0 <= i < v.len() && v[i] == t
}

fn holds_str(v: &Vec<String>, t: &str) -> (r: bool)
    ensures
        r == holds_text(strings_view(v@), t@),
{
    let mut i: usize = 0;
    while i < v.len()
        invariant
            i <= v@.len(),
            forall|j: int| 0 <= j < i ==> strings_view(v@)[j] != t@,
        decreases v@.len() - i,
    {
        if str_eq(v[i].as_str(), t) {
            assert(strings_view(v@)[i as int] == t@);
            return true;
        }
        i = i + 1;
    }
    false
}

/// Work out a page card: the link to the page, its first image (scaled), its author (or the
/// placeholder user), what its corner shows and its icons (up to 99).
pub fn page_card2(links: &LinkConfig, page: &BrowseContent, users: &std::collections::HashMap<i64, User2>) -> (r: PageCard)
    ensures
        r.link@ == forum_thread_text(*links, page.hash@),
        match thumbnail_spec(page.values@) {
            Some(h) => r.image matches Some(i) && i@ == image_text(*links, h, QueryImage::Scaled300),
            None => r.image is None,
        },
        if users@.contains_key(page.create_user_id) {
            r.user == users@[page.create_user_id]
        } else {
            is_default_user(r.user)
        },
        match key_spec(page.values@) {
            Some(k) => r.key matches CardKey::Key(kk) && kk@ == k,
            None => if holds_text(string_list_value(page.values@, SBSValue::SYSTEMS@), PTCSYSTEM@) {
                r.key matches CardKey::QrCodes(l) && l@ == links.http_root@ + "/widget/qr/"@ + page.hash@
            } else if page.literal_type@ == SBSPageType::PROGRAM@ {
                r.key is Removed
            } else {
                r.key is Placeholder
            },
        },
        icons_view(r.icons@) == pageicons_spec(*links, page.values@, page.literal_type@, 99),
{
    broadcast use vstd::std_specs::hash::group_hash_axioms;
    let user = user_or_default2(users.get(&page.create_user_id));
    let link = links.forum_thread_unsafe(page.hash.as_str());
    let mut image: Option<String> = None;
    if let Some(images_raw) = get_value(&page.values, SBSValue::IMAGES) {
        if let Some(images) = parse_json_string_list(images_raw.as_str()) {
            if images.len() > 0 {
                image = Some(links.image(images[0].as_str(), QueryImage::Scaled300));
            }
        }
    }
    let mut key: Option<String> = None;
    if let Some(keyvalue) = get_value(&page.values, SBSValue::DOWNLOADKEY) {
        key = parse_json_string(keyvalue.as_str());
    }
    let systems = get_systems2(&page.values);
    let key = if let Some(k) = key {
        CardKey::Key(k)
    } else if holds_str(&systems, PTCSYSTEM) {
        CardKey::QrCodes(links.qr_generator_unsafe(page.hash.as_str()))
    } else if str_eq(page.literal_type.as_str(), SBSPageType::PROGRAM) {
        CardKey::Removed
    } else {
        CardKey::Placeholder
    };
    let icons = pageicon2(links, &page.values, page.literal_type.as_str(), 99);
    PageCard { link, image, user, key, icons }
}

} // verus!
