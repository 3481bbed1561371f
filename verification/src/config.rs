//! The settings of the website, layered from a base file and an environment file.
use vstd::prelude::*;

use crate::pages::common::contentapi::append_str;

verus! {

/// The settings of the website.
#[derive(Clone, Default, Debug)]
pub struct Config {
    pub api_endpoint: String,
    pub http_root: String,
    pub api_fileraw: String,
    pub default_cookie_expire: i32,
    pub long_cookie_expire: i32,
    pub default_imagebrowser_count: i32,
    pub default_category_threads: i32,
    pub default_display_threads: i32,
    pub default_display_posts: i32,
    pub default_display_pages: i32,
    pub default_activity_count: i32,
    pub forum_category_order: Vec<String>,
    pub body_maxsize: i32,
    pub host_address: String,
    pub db_file: String,
    pub upload_dir: String,
    pub thumbnail_dir: String,
}

/// Settings as one file gives them: any of them may be missing.
#[derive(Clone, Default, Debug)]
pub struct OptConfig {
    pub api_endpoint: Option<String>,
    pub http_root: Option<String>,
    pub api_fileraw: Option<String>,
    pub default_cookie_expire: Option<i32>,
    pub long_cookie_expire: Option<i32>,
    pub default_imagebrowser_count: Option<i32>,
    pub default_category_threads: Option<i32>,
    pub default_display_threads: Option<i32>,
    pub default_display_posts: Option<i32>,
    pub default_display_pages: Option<i32>,
    pub default_activity_count: Option<i32>,
    pub forum_category_order: Option<Vec<String>>,
    pub body_maxsize: Option<i32>,
    pub host_address: Option<String>,
    pub db_file: Option<String>,
    pub upload_dir: Option<String>,
    pub thumbnail_dir: Option<String>,
}

/// The value a layer gives, or the one below it.
pub open spec fn layer<T>(below: T, given: Option<T>) -> T {
    match given {
        Some(v) => v,
        None => below,
    }
}

impl Config {
    /// Lay the settings a file gives over these ones.
    pub fn apply_optional(&mut self, opt: OptConfig)
        ensures
            final(self).api_endpoint == layer(old(self).api_endpoint, opt.api_endpoint),
            final(self).http_root == layer(old(self).http_root, opt.http_root),
            final(self).api_fileraw == layer(old(self).api_fileraw, opt.api_fileraw),
            final(self).default_cookie_expire == layer(old(self).default_cookie_expire, opt.default_cookie_expire),
            final(self).long_cookie_expire == layer(old(self).long_cookie_expire, opt.long_cookie_expire),
            final(self).default_imagebrowser_count == layer(
                old(self).default_imagebrowser_count,
                opt.default_imagebrowser_count,
            ),
            final(self).default_category_threads == layer(
                old(self).default_category_threads,
                opt.default_category_threads,
            ),
            final(self).default_display_threads == layer(
                old(self).default_display_threads,
                opt.default_display_threads,
            ),
            final(self).default_display_posts == layer(old(self).default_display_posts, opt.default_display_posts),
            final(self).default_display_pages == layer(old(self).default_display_pages, opt.default_display_pages),
            final(self).default_activity_count == layer(
                old(self).default_activity_count,
                opt.default_activity_count,
            ),
            final(self).forum_category_order == layer(old(self).forum_category_order, opt.forum_category_order),
            final(self).body_maxsize == layer(old(self).body_maxsize, opt.body_maxsize),
            final(self).host_address == layer(old(self).host_address, opt.host_address),
            final(self).db_file == layer(old(self).db_file, opt.db_file),
            final(self).upload_dir == layer(old(self).upload_dir, opt.upload_dir),
            final(self).thumbnail_dir == layer(old(self).thumbnail_dir, opt.thumbnail_dir),
    {
        lay(&mut self.api_endpoint, opt.api_endpoint);
        lay(&mut self.http_root, opt.http_root);
        lay(&mut self.api_fileraw, opt.api_fileraw);
        lay(&mut self.default_cookie_expire, opt.default_cookie_expire);
        lay(&mut self.long_cookie_expire, opt.long_cookie_expire);
        lay(&mut self.default_imagebrowser_count, opt.default_imagebrowser_count);
        lay(&mut self.default_category_threads, opt.default_category_threads);
        lay(&mut self.default_display_threads, opt.default_display_threads);
        lay(&mut self.default_display_posts, opt.default_display_posts);
        lay(&mut self.default_display_pages, opt.default_display_pages);
        lay(&mut self.default_activity_count, opt.default_activity_count);
        lay(&mut self.forum_category_order, opt.forum_category_order);
        lay(&mut self.body_maxsize, opt.body_maxsize);
        lay(&mut self.host_address, opt.host_address);
        lay(&mut self.db_file, opt.db_file);
        lay(&mut self.upload_dir, opt.upload_dir);
        lay(&mut self.thumbnail_dir, opt.thumbnail_dir);
    }
}

fn lay<T>(field: &mut T, given: Option<T>)
    ensures
        *final(field) == layer(*old(field), given),
{
    if let Some(v) = given {
        *field = v;
    }
}

/// The files settings are read from, in order: `./{basename}.toml`, then
/// `./{basename}.{env}.toml` when an environment is given.
pub fn config_chain(basename: &str, env: Option<&str>) -> (r: Vec<String>)
    ensures
        r@.len() == if env is Some { 2int } else { 1int },
        r@[0]@ == "./"@ + basename@ + ".toml"@,
        env matches Some(e) ==> r@[1]@ == "./"@ + basename@ + "."@ + e@ + ".toml"@,
{
    let mut chain: Vec<String> = Vec::new();
    let first = append_str(append_str(append_str(String::new(), "./"), basename), ".toml");
    assert(first@ =~= "./"@ + basename@ + ".toml"@);
    chain.push(first);
    if let Some(env) = env {
        let second = append_str(append_str(append_str(append_str(append_str(String::new(), "./"), basename), "."), env), ".toml");
        assert(second@ =~= "./"@ + basename@ + "."@ + env@ + ".toml"@);
        chain.push(second);
    }
    chain
}

} // verus!
