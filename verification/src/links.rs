//! The links of the website.
use vstd::prelude::*;
use vstd::string::StringExecFns;

use crate::text::{push_decimal, decimal_text};

verus! {

/// The sizes an image can be asked for.
#[derive(Debug, Clone, Copy, PartialEq, Eq)]
pub enum QueryImage {
    Cropped100,
    Cropped300,
    Scaled300,
    Original,
}

/// The roots all links are made from.
#[derive(Clone, Debug)]
pub struct LinkConfig {
    pub http_root: String,
    pub static_root: String,
    pub resource_root: String,
    pub file_root: String,
    pub thumbnail_root: String,
    pub cache_bust: String,
}

fn cat(mut a: String, b: &str) -> (r: String)
    ensures
        r@ == a@ + b@,
{
    a.append(b);
    a
}

pub open spec fn image_text(c: LinkConfig, hash: Seq<char>, query: QueryImage) -> Seq<char> {
    match query {
        QueryImage::Cropped100 => c.thumbnail_root@ + "/"@ + hash + "_s100.jpg"@,
        QueryImage::Cropped300 => c.thumbnail_root@ + "/"@ + hash + "_s300.jpg"@,
        QueryImage::Scaled300 => c.thumbnail_root@ + "/"@ + hash + "_300.jpg"@,
        QueryImage::Original => c.file_root@ + "/"@ + hash,
    }
}

pub open spec fn forum_thread_text(c: LinkConfig, hash: Seq<char>) -> Seq<char> {
    c.http_root@ + "/forum/thread/"@ + hash
}

pub open spec fn forum_post_text(c: LinkConfig, pid: i64, thash: Seq<char>) -> Seq<char> {
    c.http_root@ + "/forum/thread/"@ + thash + "/"@ + decimal_text(pid as int) + "#post_"@ + decimal_text(pid as int)
}

impl LinkConfig {
    /// The link to an image of the given size: thumbnails for the cropped and scaled sizes,
    /// the raw file otherwise.
    pub fn image(&self, hash: &str, query: QueryImage) -> (r: String)
        ensures
            r@ == image_text(*self, hash@, query),
    {
        let r = match query {
            QueryImage::Cropped100 => cat(cat(cat(self.thumbnail_root.clone(), "/"), hash), "_s100.jpg"),
            QueryImage::Cropped300 => cat(cat(cat(self.thumbnail_root.clone(), "/"), hash), "_s300.jpg"),
            QueryImage::Scaled300 => cat(cat(cat(self.thumbnail_root.clone(), "/"), hash), "_300.jpg"),
            QueryImage::Original => cat(cat(self.file_root.clone(), "/"), hash),
        };
        assert(r@ =~= image_text(*self, hash@, query));
        r
    }

    /// The page of a user.
    pub fn user_unsafe(&self, username: &str) -> (r: String)
        ensures
            r@ == self.http_root@ + "/user/"@ + username@,
    {
        let r = cat(cat(self.http_root.clone(), "/user/"), username);
        assert(r@ =~= self.http_root@ + "/user/"@ + username@);
        r
    }

    /// The original size of an image.
    pub fn image_default(&self, hash: &str) -> (r: String)
        ensures
            r@ == image_text(*self, hash@, QueryImage::Original),
    {
        self.image(hash, QueryImage::Original)
    }

    /// The vote widget of a content.
    pub fn votewidget_unsafe(&self, id: i64) -> (r: String)
        ensures
            r@ == self.http_root@ + "/widget/votes/"@ + decimal_text(id as int),
    {
        let r = push_decimal(cat(self.http_root.clone(), "/widget/votes/"), id);
        assert(r@ =~= self.http_root@ + "/widget/votes/"@ + decimal_text(id as int));
        r
    }

    /// The qr code widget of a content.
    pub fn qr_generator_unsafe(&self, hash: &str) -> (r: String)
        ensures
            r@ == self.http_root@ + "/widget/qr/"@ + hash@,
    {
        let r = cat(cat(self.http_root.clone(), "/widget/qr/"), hash);
        assert(r@ =~= self.http_root@ + "/widget/qr/"@ + hash@);
        r
    }

    /// A forum category, found by its hash.
    pub fn forum_category_unsafe(&self, hash: &str) -> (r: String)
        ensures
            r@ == self.http_root@ + "/forum/category/"@ + hash@,
    {
        let r = cat(cat(self.http_root.clone(), "/forum/category/"), hash);
        assert(r@ =~= self.http_root@ + "/forum/category/"@ + hash@);
        r
    }

    /// A forum thread, found by its hash.
    pub fn forum_thread_unsafe(&self, hash: &str) -> (r: String)
        ensures
            r@ == forum_thread_text(*self, hash@),
    {
        let r = cat(cat(self.http_root.clone(), "/forum/thread/"), hash);
        assert(r@ =~= forum_thread_text(*self, hash@));
        r
    }

    /// A post inside its thread, with an anchor to the post.
    pub fn forum_post_unsafe(&self, pid: i64, thash: &str) -> (r: String)
        ensures
            r@ == forum_post_text(*self, pid, thash@),
    {
        let r = cat(cat(self.http_root.clone(), "/forum/thread/"), thash);
        let r = push_decimal(cat(r, "/"), pid);
        let r = push_decimal(cat(r, "#post_"), pid);
        assert(r@ =~= forum_post_text(*self, pid, thash@));
        r
    }

    /// The search of a category.
    pub fn search_category(&self, category: i64) -> (r: String)
        ensures
            r@ == self.http_root@ + "/search?category="@ + decimal_text(category as int),
    {
        let r = push_decimal(cat(self.http_root.clone(), "/search?category="), category);
        assert(r@ =~= self.http_root@ + "/search?category="@ + decimal_text(category as int));
        r
    }

    /// The link to a static file, with the cache buster (what the style and script tags use).
    pub fn static_link(&self, link: &str) -> (r: String)
        ensures
            r@ == self.static_root@ + link@ + "?"@ + self.cache_bust@,
    {
        let r = cat(cat(cat(self.static_root.clone(), link), "?"), self.cache_bust.as_str());
        assert(r@ =~= self.static_root@ + link@ + "?"@ + self.cache_bust@);
        r
    }

    /// The link to the favicon that the basic metadata of every page points to.
    pub fn favicon(&self) -> (r: String)
        ensures
            r@ == self.resource_root@ + "/favicon.svg"@,
    {
        cat(self.resource_root.clone(), "/favicon.svg")
    }
}

} // verus!
