//! Page level logic: queries, trees and texts that pages are built from.
pub mod common;
pub mod documentation;
pub mod forum_thread;
pub mod index;
pub mod redirect;
pub mod searchall;
pub mod user;

use vstd::prelude::*;

use crate::pages::common::contentapi::append_str;
use crate::text::{decimal_string, decimal_text};
use crate::urlencoded::{encode_pairs, pairs_view, urlencoded_pairs};

verus! {

/// Settings a visitor chooses for themselves.
pub trait UserConfig {
    /// The language pages are shown in.
    fn get_language(&self) -> (r: &str)
        default_ensures
            r@ == "en"@,
    {
        "en"
    }
}

/// The roots of links, as a site provides them.
pub trait LinkConfig {
    /// The root of uploaded files, as the site gives it.
    spec fn file_root(&self) -> Seq<char>;

    fn get_http_root(&self) -> &str;

    fn get_static_root(&self) -> &str;

    fn get_resource_root(&self) -> &str;

    fn get_file_root(&self) -> (r: &str)
        ensures
            r@ == self.file_root(),
    ;
}

/// The site's link configuration gives its roots as they are.
impl LinkConfig for crate::links::LinkConfig {
    open spec fn file_root(&self) -> Seq<char> {
        self.file_root@
    }

    fn get_http_root(&self) -> &str {
        self.http_root.as_str()
    }

    fn get_static_root(&self) -> &str {
        self.static_root.as_str()
    }

    fn get_resource_root(&self) -> &str {
        self.resource_root.as_str()
    }

    fn get_file_root(&self) -> (r: &str) {
        self.file_root.as_str()
    }
}

/// The query asking for an image of a size, maybe cropped.
pub open spec fn image_query(size: i32, crop: bool) -> Seq<(Seq<char>, Seq<char>)> {
    seq![("size"@, decimal_text(size as int)), ("crop"@, if crop { "true"@ } else { "false"@ })]
}

/// The link to an image below a file root.
pub open spec fn image_link_text(file_root: Seq<char>, hash: Seq<char>, size: i32, crop: bool) -> Seq<char> {
    match urlencoded_pairs(image_query(size, crop)) {
        Some(q) => file_root + "/"@ + hash + "?"@ + q,
        None => "#ERRORFOR-"@ + hash,
    }
}

/// The link to an image below the given file root, at a size, maybe cropped; a marker naming
/// the image when the query cannot be written.
pub fn image_link_from_root(file_root: &str, hash: &str, size: i32, crop: bool) -> (r: String)
    ensures
        r@ == image_link_text(file_root@, hash@, size, crop),
{
    let size_text = decimal_string(size as i64);
    let crop_text: &str = if crop { "true" } else { "false" };
    let pairs = [("size", size_text.as_str()), ("crop", crop_text)];
    assert(pairs_view(pairs@) =~= image_query(size, crop));
    match encode_pairs(&pairs) {
        Some(querystring) => {
            let r = append_str(String::new(), file_root);
            let r = append_str(append_str(append_str(r, "/"), hash), "?");
            let r = append_str(r, querystring.as_str());
            assert(r@ =~= file_root@ + "/"@ + hash@ + "?"@ + querystring@);
            r
        },
        None => append_str(append_str(String::new(), "#ERRORFOR-"), hash),
    }
}

/// The link to an image below the file root the configuration gives.
pub fn get_image_link<C: LinkConfig>(config: &C, hash: &str, size: i32, crop: bool) -> (r: String)
    ensures
        r@ == image_link_text(config.file_root(), hash@, size, crop),
{
    let root = config.get_file_root();
    image_link_from_root(root, hash, size, crop)
}

} // verus!
