//! Threads and their posts: reply data, reply trees, short descriptions and the queries
//! that gather posts.
use vstd::prelude::*;
use vstd::string::StringExecFns;

use crate::bbcode::{translate, BBCode};
use crate::json::{
    json_borrowed_str, json_i64, json_of_strings, json_string, json_string_list, parse_json_borrowed_str,
    parse_json_i64, parse_json_string, parse_json_string_list, strings_to_json, strings_view,
};
use crate::pages::common::MARKUPBBCODE;
use crate::pages::common::contentapi::{get_systems2, get_value, string_list_value, value_lookup, SBSPageType, SBSValue};
use crate::pages::common::contentapi::{append_str, params_list, params_list_text, params_view, limit_params, limit_text, QueryLimit, SqlParam, SqlParamView};
use crate::pages::common::contentapi::{law_limit_placeholders, law_params_list_placeholders, lemma_placeholders_add, lemma_placeholders_at, lemma_query_fragments, placeholders};
use crate::links::{forum_post_text, forum_thread_text, image_text, LinkConfig, QueryImage};
use crate::pages::common::contentapi::User2;
use crate::response::Error;
use crate::routes::forums::{ForumPagelistItem, ForumPathItem};
use crate::text::{chars_of, decimal_string, decimal_text, push_decimal, push_range, str_eq};
use crate::urlencoded::{encode_pairs, pairs_view, urlencoded_pairs};

verus! {

/// A post on a thread, as stored. Dates are unix timestamps in seconds.
#[derive(Clone, Debug)]
pub struct ForumPost {
    pub id: i64,
    pub content_id: i64,
    pub create_user_id: i64,
    pub create_date: i64,
    pub text: String,
    pub edit_date: Option<i64>,
    pub edit_user_id: Option<i64>,
    /// The values of the post, in the order they were read; a later key replaces an earlier one.
    pub values: Vec<(String, String)>,
}

/// A thread (or any page that holds posts). Dates are unix timestamps in seconds.
#[derive(Clone, Debug)]
pub struct ForumThread2 {
    pub id: i64,
    pub name: String,
    pub hash: String,
    pub description: String,
    pub literal_type: String,
    pub text: String,
    pub parent_id: i64,
    pub create_user_id: i64,
    pub create_date: i64,
    pub posts_count: i64,
    /// The values of the thread, in the order they were read; a later key replaces an earlier one.
    pub values: Vec<(String, String)>,
}

/// Where a post sits in a reply chain: the post that started the chain, and the post it answers.
#[derive(Clone, Copy, Debug)]
pub struct ReplyData {
    pub top: i64,
    pub direct: i64,
}

/// The integer stored as json under `key`, if there is one.
pub open spec fn int_value(values: Seq<(String, String)>, key: Seq<char>) -> Option<i64> {
    match value_lookup(values, key) {
        Some(t) => json_i64(t),
        None => None,
    }
}

/// The reply data of a set of values: both `re-top` and `re` must hold integers.
pub open spec fn replydata_spec(values: Seq<(String, String)>) -> Option<ReplyData> {
    match (int_value(values, "re-top"@), int_value(values, "re"@)) {
        (Some(top), Some(direct)) => Some(ReplyData { top, direct }),
        _ => None,
    }
}

/// Reply data from the two integers read off a post.
pub fn reply_data_from(top: Option<i64>, direct: Option<i64>) -> (r: Option<ReplyData>)
    ensures
        r == match (top, direct) {
            (Some(t), Some(d)) => Some(ReplyData { top: t, direct: d }),
            _ => None,
        },
{
    match (top, direct) {
        (Some(t), Some(d)) => Some(ReplyData { top: t, direct: d }),
        _ => None,
    }
}

fn int_value_exec(values: &Vec<(String, String)>, key: &str) -> (r: Option<i64>)
    ensures
        r == int_value(values@, key@),
{
    match get_value(values, key) {
        Some(v) => parse_json_i64(v.as_str()),
        None => None,
    }
}

/// Compute the flattened reply data for the given post.
pub fn get_replydata(post: &ForumPost) -> (r: Option<ReplyData>)
    ensures
        r == replydata_spec(post.values@),
{
    let top = int_value_exec(&post.values, "re-top");
    if top.is_none() {
        return None;
    }
    let direct = int_value_exec(&post.values, "re");
    reply_data_from(top, direct)
}

/// How many characters a short description keeps.
pub const SHORTDESCRIPTION: usize = 200;

/// The first `SHORTDESCRIPTION` characters of a text.
pub open spec fn short_text(t: Seq<char>) -> Seq<char> {
    if t.len() <= SHORTDESCRIPTION {
        t
    } else {
        t.take(SHORTDESCRIPTION as int)
    }
}

fn short_string(t: &str) -> (r: String)
    ensures
        r@ == short_text(t@),
{
    let chars = chars_of(t);
    let n = if chars.len() <= SHORTDESCRIPTION { chars.len() } else { SHORTDESCRIPTION };
    let r = push_range(String::new(), &chars, 0, n);
    assert(r@ =~= short_text(t@));
    r
}

/// The start of a post's text, for previews.
pub fn short_post(message: &ForumPost) -> (r: String)
    ensures
        r@ == short_text(message.text@),
{
    short_string(message.text.as_str())
}

/// The description of a thread: its own description when it has one; otherwise the start of
/// its text, except for forum threads, whose text is not shown.
pub open spec fn short_description_spec(thread: ForumThread2) -> Seq<char> {
    if thread.description@.len() > 0 {
        thread.description@
    } else if thread.literal_type@ != SBSPageType::FORUMTHREAD@ && thread.text@.len() > 0 {
        short_text(thread.text@)
    } else {
        Seq::empty()
    }
}

/// A short description of a thread for previews and page metadata.
pub fn short_description2(thread: &ForumThread2) -> (r: String)
    ensures
        r@ == short_description_spec(*thread),
{
    if !thread.description.as_str().is_empty() {
        return thread.description.clone();
    }
    if !str_eq(thread.literal_type.as_str(), SBSPageType::FORUMTHREAD) {
        if !thread.text.as_str().is_empty() {
            return short_string(thread.text.as_str());
        }
    }
    String::new()
}

/// The first image of a thread's `images` value.
pub open spec fn thumbnail_spec(values: Seq<(String, String)>) -> Option<Seq<char>> {
    match value_lookup(values, SBSValue::IMAGES@) {
        Some(t) => match json_string_list(t) {
            Some(l) => if l.len() > 0 { Some(l[0]) } else { None },
            None => None,
        },
        None => None,
    }
}

/// The hash of the image that represents a thread, if it has one.
pub fn get_thumbnail_hash2(content: &ForumThread2) -> (r: Option<String>)
    ensures
        match r {
            Some(h) => thumbnail_spec(content.values@) == Some(h@),
            None => thumbnail_spec(content.values@) is None,
        },
{
    if let Some(v) = get_value(&content.values, SBSValue::IMAGES) {
        if let Some(images) = parse_json_string_list(v.as_str()) {
            if images.len() > 0 {
                return Some(images[0].clone());
            }
        }
    }
    None
}

/// A node of a reply chain: a post and the posts that answer it.
#[derive(Debug)]
pub struct ReplyTree<'a> {
    pub id: i64,
    pub post: &'a ForumPost,
    pub children: Vec<ReplyTree<'a>>,
}

/// A reply chain in the model.
pub struct ReplyNode {
    pub id: i64,
    pub post: ForumPost,
    pub children: Seq<ReplyNode>,
}

/// The model of a reply tree.
pub open spec fn tree_view<'a>(t: ReplyTree<'a>) -> ReplyNode
    decreases t,
{
    ReplyNode {
        id: t.id,
        post: *t.post,
        children: Seq::new(
            t.children@.len(),
            |i: int|
                if 0 <= i < t.children@.len() {
                    proof {
                        assert(decreases_to!(t => t.children));
                        assert(decreases_to!(t.children => t.children@));
                        assert(decreases_to!(t.children@ => t.children@[i]));
                    }
                    tree_view(t.children@[i])
                } else {
                    ReplyNode { id: t.id, post: *t.post, children: Seq::empty() }
                },
        ),
    }
}

impl<'a> View for ReplyTree<'a> {
    type V = ReplyNode;

    open spec fn view(&self) -> ReplyNode {
        tree_view(*self)
    }
}

/// A node with no replies.
pub open spec fn leaf(p: ForumPost) -> ReplyNode {
    ReplyNode { id: p.id, post: p, children: Seq::empty() }
}

/// The tree after placing `p` as the last reply of the first node, depth first, whose id is
/// `direct`; `None` when no node has that id.
pub open spec fn insert_node(t: ReplyNode, p: ForumPost, direct: i64) -> Option<ReplyNode>
    decreases t, 0int,
{
    if t.id == direct {
        Some(ReplyNode { id: t.id, post: t.post, children: t.children.push(leaf(p)) })
    } else {
        match insert_children(t.children, 0, p, direct) {
            Some(cs) => Some(ReplyNode { id: t.id, post: t.post, children: cs }),
            None => None,
        }
    }
}

/// The children after placing `p` under the first of `cs[i..]` that takes it.
pub open spec fn insert_children(cs: Seq<ReplyNode>, i: int, p: ForumPost, direct: i64) -> Option<
    Seq<ReplyNode>,
>
    decreases cs, cs.len() - i,
{
    if i < 0 || i >= cs.len() {
        None
    } else {
        match insert_node(cs[i], p, direct) {
            Some(n) => Some(cs.update(i, n)),
            None => insert_children(cs, i + 1, p, direct),
        }
    }
}

proof fn lemma_insert_children_found(cs: Seq<ReplyNode>, k: int, i: int, p: ForumPost, direct: i64, n: ReplyNode)
    requires
        0 <= k <= i < cs.len(),
        forall|j: int| k <= j < i ==> insert_node(#[trigger] cs[j], p, direct) is None,
        insert_node(cs[i], p, direct) == Some(n),
    ensures
        insert_children(cs, k, p, direct) == Some(cs.update(i, n)),
    decreases i - k,
{
    if k < i {
        lemma_insert_children_found(cs, k + 1, i, p, direct, n);
    }
}

proof fn lemma_insert_children_none(cs: Seq<ReplyNode>, k: int, p: ForumPost, direct: i64)
    requires
        0 <= k <= cs.len(),
        forall|j: int| k <= j < cs.len() ==> insert_node(#[trigger] cs[j], p, direct) is None,
    ensures
        insert_children(cs, k, p, direct) is None,
    decreases cs.len() - k,
{
    if k < cs.len() {
        lemma_insert_children_none(cs, k + 1, p, direct);
    }
}

/// The first node, depth first, whose id is `direct`.
pub open spec fn find_node(t: ReplyNode, direct: i64) -> Option<ReplyNode>
    decreases t, 0int,
{
    if t.id == direct {
        Some(t)
    } else {
        find_children(t.children, 0, direct)
    }
}

/// The first node, depth first, of the trees `cs[i..]` whose id is `direct`.
pub open spec fn find_children(cs: Seq<ReplyNode>, i: int, direct: i64) -> Option<ReplyNode>
    decreases cs, cs.len() - i,
{
    if i < 0 || i >= cs.len() {
        None
    } else {
        match find_node(cs[i], direct) {
            Some(n) => Some(n),
            None => find_children(cs, i + 1, direct),
        }
    }
}

/// A post can be placed in a tree exactly when some node has the id it replies to.
proof fn lemma_insert_none_iff_find_none(t: ReplyNode, p: ForumPost, direct: i64)
    ensures
        insert_node(t, p, direct) is None <==> find_node(t, direct) is None,
    decreases t, 0int,
{
    if t.id != direct {
        lemma_insert_children_none_iff(t.children, 0, p, direct);
    }
}

proof fn lemma_insert_children_none_iff(cs: Seq<ReplyNode>, i: int, p: ForumPost, direct: i64)
    ensures
        insert_children(cs, i, p, direct) is None <==> find_children(cs, i, direct) is None,
    decreases cs, cs.len() - i,
{
    if 0 <= i < cs.len() {
        lemma_insert_none_iff_find_none(cs[i], p, direct);
        lemma_insert_children_none_iff(cs, i + 1, p, direct);
    }
}

/// After a post was placed, the first node with the id it replies to holds it as its last
/// reply.
proof fn lemma_inserted_is_last_child(t: ReplyNode, p: ForumPost, direct: i64)
    requires
        insert_node(t, p, direct) is Some,
    ensures
        find_node(insert_node(t, p, direct)->Some_0, direct) matches Some(m) && m.children.len() > 0
            && m.children.last() == leaf(p),
    decreases t, 0int,
{
    if t.id != direct {
        lemma_inserted_children(t.children, 0, p, direct);
    }
}

proof fn lemma_inserted_children(cs: Seq<ReplyNode>, i: int, p: ForumPost, direct: i64)
    requires
        insert_children(cs, i, p, direct) is Some,
    ensures
        find_children(insert_children(cs, i, p, direct)->Some_0, i, direct) matches Some(m) && m.children.len()
            > 0 && m.children.last() == leaf(p),
    decreases cs, cs.len() - i,
{
    let cs2 = insert_children(cs, i, p, direct)->Some_0;
    match insert_node(cs[i], p, direct) {
        Some(n) => {
            lemma_inserted_is_last_child(cs[i], p, direct);
            assert(cs2 == cs.update(i, n));
            assert(cs2[i] == n);
        },
        None => {
            lemma_insert_none_iff_find_none(cs[i], p, direct);
            lemma_inserted_children(cs, i + 1, p, direct);
            lemma_insert_children_shape(cs, i + 1, p, direct);
            assert(cs2[i] == cs[i]);
            lemma_find_children_update_later(cs, cs2, i, direct);
        },
    }
}

/// Placing a post among `cs[k..]` keeps the number of trees and those before `k`.
proof fn lemma_insert_children_shape(cs: Seq<ReplyNode>, k: int, p: ForumPost, direct: i64)
    requires
        insert_children(cs, k, p, direct) is Some,
    ensures
        insert_children(cs, k, p, direct)->Some_0.len() == cs.len(),
        forall|j: int| 0 <= j < k ==> #[trigger] insert_children(cs, k, p, direct)->Some_0[j] == cs[j],
    decreases cs.len() - k,
{
    if insert_node(cs[k], p, direct) is None {
        lemma_insert_children_shape(cs, k + 1, p, direct);
    }
}

/// Changing only trees after `i` leaves the search from `i` to go on past `cs[i]` alike.
proof fn lemma_find_children_update_later(cs: Seq<ReplyNode>, cs2: Seq<ReplyNode>, i: int, direct: i64)
    requires
        0 <= i < cs.len(),
        cs2.len() == cs.len(),
        cs2[i] == cs[i],
        find_node(cs[i], direct) is None,
    ensures
        find_children(cs2, i, direct) == find_children(cs2, i + 1, direct),
{
}

impl<'a> ReplyTree<'a> {
    /// A tree holding one post and no replies.
    pub fn new(message: &'a ForumPost) -> (r: Self)
        ensures
            r@ == leaf(*message),
    {
        let r = ReplyTree { id: message.id, post: message, children: Vec::new() };
        assert(r@.children =~= Seq::<ReplyNode>::empty());
        r
    }

    /// Place the given post under the first node, depth first, whose id is the one it
    /// replies to directly; whether that node was found.
    fn insert_node_into(&mut self, post: &'a ForumPost, data: &ReplyData) -> (r: bool)
        ensures
            match insert_node(old(self)@, *post, data.direct) {
                Some(n) => r && final(self)@ == n,
                None => !r && final(self)@ == old(self)@,
            },
        decreases *old(self),
    {
        let ghost old_view = self@;
        if self.id == data.direct {
            self.children.push(ReplyTree::new(post));
            assert(self@.children =~= old_view.children.push(leaf(*post)));
            return true;
        }
        let ghost cs = old_view.children;
        let ghost kids = self.children@;
        let mut i: usize = 0;
        while i < self.children.len()
            invariant
                self.id == old(self).id,
                self.post == old(self).post,
                self.children@.len() == kids.len(),
                forall|j: int| 0 <= j < kids.len() ==> #[trigger] tree_view(self.children@[j]) == cs[j],
                forall|j: int| i <= j < kids.len() ==> #[trigger] self.children@[j] == kids[j],
                kids == old(self).children@,
                cs == old_view.children,
                old_view == tree_view(*old(self)),
                0 <= i <= kids.len(),
                cs.len() == kids.len(),
                forall|j: int| 0 <= j < kids.len() ==> #[trigger] cs[j] == tree_view(kids[j]),
                forall|j: int| 0 <= j < i ==> insert_node(#[trigger] cs[j], *post, data.direct) is None,
                self.id != data.direct,
            decreases kids.len() - i,
        {
            let ghost before = self.children@;
            let mut child = self.children.remove(i);
            assert(child == kids[i as int]);
            proof {
                assert(decreases_to!(*old(self) => old(self).children));
                assert(decreases_to!(old(self).children => old(self).children@));
                assert(decreases_to!(old(self).children@ => old(self).children@[i as int]));
            }
            let found = child.insert_node_into(post, data);
            self.children.insert(i, child);
            if found {
                proof {
                    let n = tree_view(child);
                    lemma_insert_children_found(cs, 0, i as int, *post, data.direct, n);
                    assert(self.children@ =~= before.update(i as int, child));
                    let v = tree_view(*self);
                    assert(v.children.len() == cs.len());
                    assert forall|j: int| 0 <= j < cs.len() implies v.children[j] == cs.update(i as int, n)[j] by {
                        assert(v.children[j] == tree_view(self.children@[j]));
                    }
                    assert(v.children =~= cs.update(i as int, n));
                }
                return true;
            }
            assert(self.children@ =~= before.update(i as int, child));
            i = i + 1;
        }
        proof {
            lemma_insert_children_none(cs, 0, *post, data.direct);
            let v = tree_view(*self);
            assert forall|j: int| 0 <= j < cs.len() implies v.children[j] == cs[j] by {
                assert(v.children[j] == tree_view(self.children@[j]));
            }
            assert(v.children =~= cs);
        }
        false
    }
}

impl<'a> ReplyTree<'a> {
    /// The first node, depth first, whose id is `direct`.
    fn find(&self, direct: i64) -> (r: Option<&ReplyTree<'a>>)
        ensures
            match find_node(self@, direct) {
                Some(m) => r matches Some(t) && t@ == m,
                None => r is None,
            },
        decreases *self,
    {
        if self.id == direct {
            return Some(self);
        }
        let ghost cs = self@.children;
        let mut i: usize = 0;
        while i < self.children.len()
            invariant
                i <= self.children@.len(),
                cs == self@.children,
                self.id != direct,
                find_node(self@, direct) == find_children(cs, i as int, direct),
            decreases self.children@.len() - i,
        {
            proof {
                assert(decreases_to!(*self => self.children));
                assert(decreases_to!(self.children => self.children@));
                assert(decreases_to!(self.children@ => self.children@[i as int]));
                assert(cs[i as int] == tree_view(self.children@[i as int]));
            }
            let found = self.children[i].find(direct);
            if found.is_some() {
                return found;
            }
            i = i + 1;
        }
        None
    }

    /// Insert the given post under the node it replies to directly, searching depth first,
    /// as that node's last reply. Gives the new node, or nothing (leaving the tree as it
    /// was) when no node has the id the post replies to.
    pub fn insert_post(&mut self, post: &'a ForumPost, data: &ReplyData) -> (r: Option<&ReplyTree<'a>>)
        ensures
            match insert_node(old(self)@, *post, data.direct) {
                Some(n) => final(self)@ == n && (r matches Some(t) && t@ == leaf(*post)),
                None => final(self)@ == old(self)@ && r is None,
            },
    {
        let ghost before = self@;
        let found = self.insert_node_into(post, data);
        if !found {
            return None;
        }
        proof {
            lemma_inserted_is_last_child(before, *post, data.direct);
        }
        let node = self.find(data.direct);
        match node {
            Some(m) => {
                let n = m.children.len();
                assert(m@.children.last() == tree_view(m.children@[n - 1]));
                Some(&m.children[n - 1])
            },
            None => None,
        }
    }
}

/// The number of posts in a reply tree.
pub open spec fn node_count(t: ReplyNode) -> nat
    decreases t, 0int,
{
    1 + children_count(t.children, 0)
}

/// The number of posts in the trees `cs[i..]`.
pub open spec fn children_count(cs: Seq<ReplyNode>, i: int) -> nat
    decreases cs, cs.len() - i,
{
    if i < 0 || i >= cs.len() {
        0
    } else {
        node_count(cs[i]) + children_count(cs, i + 1)
    }
}

proof fn lemma_children_count_push(cs: Seq<ReplyNode>, x: ReplyNode, i: int)
    requires
        0 <= i <= cs.len(),
    ensures
        children_count(cs.push(x), i) == children_count(cs, i) + node_count(x),
    decreases cs.len() - i,
{
    if i < cs.len() {
        lemma_children_count_push(cs, x, i + 1);
        assert(cs.push(x)[i] == cs[i]);
    } else {
        assert(cs.push(x)[i] == x);
        assert(children_count(cs.push(x), i + 1) == 0);
    }
}

proof fn lemma_children_count_update(cs: Seq<ReplyNode>, j: int, y: ReplyNode, i: int)
    requires
        0 <= i <= j < cs.len(),
    ensures
        children_count(cs.update(j, y), i) + node_count(cs[j]) == children_count(cs, i) + node_count(y),
    decreases j - i,
{
    if i < j {
        lemma_children_count_update(cs, j, y, i + 1);
        assert(cs.update(j, y)[i] == cs[i]);
    } else {
        assert(cs.update(j, y)[i] == y);
        lemma_children_count_same_tail(cs, cs.update(j, y), i + 1);
    }
}

proof fn lemma_children_count_same_tail(a: Seq<ReplyNode>, b: Seq<ReplyNode>, i: int)
    requires
        a.len() == b.len(),
        0 <= i,
        forall|k: int| i <= k < a.len() ==> a[k] == b[k],
    ensures
        children_count(a, i) == children_count(b, i),
    decreases a.len() - i,
{
    if i < a.len() {
        lemma_children_count_same_tail(a, b, i + 1);
    }
}

proof fn lemma_insert_children_count(cs: Seq<ReplyNode>, i: int, p: ForumPost, direct: i64)
    requires
        0 <= i,
    ensures
        insert_children(cs, i, p, direct) matches Some(cs2) ==> cs2.len() == cs.len() && children_count(cs2, 0)
            == children_count(cs, 0) + 1,
    decreases cs, cs.len() - i,
{
    if i < cs.len() {
        match insert_node(cs[i], p, direct) {
            Some(n) => {
                law_insert_adds_one_post(cs[i], p, direct);
                lemma_children_count_update(cs, i, n, 0);
            },
            None => {
                lemma_insert_children_count(cs, i + 1, p, direct);
            },
        }
    }
}

/// Placing a post in a reply tree adds exactly that post: the tree afterwards holds one post
/// more than before.
pub proof fn law_insert_adds_one_post(t: ReplyNode, p: ForumPost, direct: i64)
    ensures
        insert_node(t, p, direct) matches Some(t2) ==> node_count(t2) == node_count(t) + 1,
    decreases t, 0int,
{
    if t.id == direct {
        lemma_children_count_push(t.children, leaf(p), 0);
        assert(node_count(leaf(p)) == 1) by {
            assert(children_count(Seq::<ReplyNode>::empty(), 0) == 0);
        }
    } else {
        lemma_insert_children_count(t.children, 0, p, direct);
    }
}

/// The root of the tree built from posts, after placing each of the first `n` posts after
/// the root under the post it replies to (posts without reply data, or whose post is not
/// found, are left out).
pub open spec fn build_tree(posts: Seq<ForumPost>, n: int) -> ReplyNode
    decreases n,
{
    if n <= 1 {
        leaf(posts[0])
    } else {
        let t = build_tree(posts, n - 1);
        match replydata_spec(posts[n - 1].values@) {
            Some(d) => match insert_node(t, posts[n - 1], d.direct) {
                Some(t2) => t2,
                None => t,
            },
            None => t,
        }
    }
}

/// Convert a list of posts into a reply tree whose root is the first post.
pub fn posts_to_replytree<'a>(posts: &'a Vec<ForumPost>) -> (r: Vec<ReplyTree<'a>>)
    ensures
        posts@.len() == 0 ==> r@.len() == 0,
        posts@.len() > 0 ==> r@.len() == 1 && r@[0]@ == build_tree(posts@, posts@.len() as int),
{
    if posts.len() == 0 {
        return Vec::new();
    }
    let mut root = ReplyTree::new(&posts[0]);
    let mut k: usize = 1;
    while k < posts.len()
        invariant
            1 <= k <= posts@.len(),
            root@ == build_tree(posts@, k as int),
        decreases posts@.len() - k,
    {
        let post = &posts[k];
        if let Some(data) = get_replydata(post) {
            let _placed = root.insert_post(post, &data).is_some();
        }
        k = k + 1;
    }
    let mut r = Vec::new();
    r.push(root);
    r
}

/// Every post as a tree of its own, in order (the view without reply chains).
pub fn posts_to_flat_trees<'a>(posts: &'a Vec<ForumPost>) -> (r: Vec<ReplyTree<'a>>)
    ensures
        r@.len() == posts@.len(),
        forall|i: int| 0 <= i < posts@.len() ==> #[trigger] r@[i]@ == leaf(posts@[i]),
{
    let mut r: Vec<ReplyTree<'a>> = Vec::new();
    let mut k: usize = 0;
    while k < posts.len()
        invariant
            k <= posts@.len(),
            r@.len() == k,
            forall|i: int| 0 <= i < k ==> #[trigger] r@[i]@ == leaf(posts@[i]),
        decreases posts@.len() - k,
    {
        r.push(ReplyTree::new(&posts[k]));
        k = k + 1;
    }
    r
}

// -----------------------------------------
//             API ERRORS
// -----------------------------------------

/// What a request to the api was: its verb, its endpoint and, for debugging, what was posted.
#[derive(Debug, Clone)]
pub struct AboutRequest {
    pub verb: String,
    pub endpoint: String,
    pub post_data: Option<String>,
}

/// What can go wrong when talking to the api.
#[derive(Debug)]
pub enum ApiError {
    /// Something went wrong before the request was sent.
    NonRequest(AboutRequest, String),
    /// The reply did not parse; the body is kept when it could be read.
    Parse(AboutRequest, String, Option<Vec<u8>>),
    /// The api could not be reached.
    Network(AboutRequest, String),
    /// The api refused the request, with its status code.
    Request(AboutRequest, String, u16),
    /// Anything else.
    Other(String),
}

/// The text of bytes read as utf-8, with each invalid sequence replaced by U+FFFD
/// (deterministic in the bytes).
pub uninterp spec fn utf8_lossy(b: Seq<u8>) -> Seq<char>;

/// Read bytes as utf-8, replacing invalid sequences.
/// Trusted: std's `String::from_utf8_lossy`; its result is named `utf8_lossy`.
#[verifier::external_body]
fn lossy_text(data: &[u8]) -> (r: String)
    ensures
        r@ == utf8_lossy(data@),
{
    String::from_utf8_lossy(data).into_owned()
}

/// The text of bytes read as utf-8: the text when they are valid, else the text of the
/// error that std reports (both deterministic in the bytes).
pub uninterp spec fn utf8_decoded(b: Seq<u8>) -> Result<Seq<char>, Seq<char>>;

/// Read bytes as utf-8.
/// Trusted: std's `String::from_utf8`, with the error turned into its message; the result
/// is named `utf8_decoded`.
#[verifier::external_body]
fn decode_utf8(data: Vec<u8>) -> (r: Result<String, String>)
    ensures
        match r {
            Ok(s) => utf8_decoded(data@) == Ok::<Seq<char>, Seq<char>>(s@),
            Err(e) => utf8_decoded(data@) == Err::<Seq<char>, Seq<char>>(e@),
        },
{
    String::from_utf8(data).map_err(|e| e.to_string())
}

/// `[verb]endpoint`, which starts every detailed error.
pub open spec fn about_text(a: AboutRequest) -> Seq<char> {
    "["@ + a.verb@ + "]"@ + a.endpoint@
}

impl ApiError {
    /// The message shown to users.
    pub open spec fn user_text(self) -> Seq<char> {
        match self {
            ApiError::NonRequest(_, e) => e@,
            ApiError::Parse(_, e, _) => e@,
            ApiError::Network(_, e) => e@,
            ApiError::Request(_, e, _) => e@,
            ApiError::Other(e) => e@,
        }
    }

    /// The http status that goes with the error.
    pub open spec fn status_spec(self) -> u16 {
        match self {
            ApiError::NonRequest(_, _) => 500,
            ApiError::Parse(_, _, _) => 500,
            ApiError::Network(_, _) => 503,
            ApiError::Request(_, _, _) => 400,
            ApiError::Other(_) => 500,
        }
    }

    /// The detailed message, for logs.
    pub open spec fn verbose_text(self) -> Seq<char> {
        match self {
            ApiError::NonRequest(a, e) => about_text(a)
                + " - Something happened before we could reach the backend: "@ + e@,
            ApiError::Parse(a, e, Some(d)) => about_text(a) + " - Couldn't parse response from backend: "@
                + e@ + ". Data:\n"@ + utf8_lossy(d@),
            ApiError::Parse(a, e, None) => about_text(a)
                + " - 'ParseError': COULDN'T GET BYTES FROM BODY OF RESPONSE (THIS IS BAD!): "@ + e@,
            ApiError::Network(a, e) => about_text(a) + " - The backend seems to be unreachable: "@ + e@,
            ApiError::Request(a, e, c) => about_text(a) + " - Bad request to API ("@ + decimal_text(
                c as int,
            ) + "): "@ + e@,
            ApiError::Other(e) => "Generic API error: "@ + e@,
        }
    }

    /// The message shown to users.
    pub fn to_user_string(&self) -> (r: String)
        ensures
            r@ == self.user_text(),
    {
        match self {
            ApiError::NonRequest(_, err) => err.clone(),
            ApiError::Parse(_, err, _) => err.clone(),
            ApiError::Network(_, err) => err.clone(),
            ApiError::Request(_, err, _) => err.clone(),
            ApiError::Other(err) => err.clone(),
        }
    }

    /// The http status that goes with the error.
    pub fn to_status(&self) -> (r: u16)
        ensures
            r == self.status_spec(),
    {
        match self {
            ApiError::NonRequest(_, _) => 500,
            ApiError::Parse(_, _, _) => 500,
            ApiError::Network(_, _) => 503,
            ApiError::Request(_, _, _) => 400,
            ApiError::Other(_) => 500,
        }
    }

    /// The detailed message, for logs.
    pub fn to_verbose_string(&self) -> (r: String)
        ensures
            r@ == self.verbose_text(),
    {
        match self {
            ApiError::NonRequest(about, err) => {
                let r = about_string(about);
                let r = append_str(r, " - Something happened before we could reach the backend: ");
                let r = append_str(r, err.as_str());
                assert(r@ =~= self.verbose_text());
                r
            },
            ApiError::Parse(about, err, data) => {
                let r = about_string(about);
                if let Some(data) = data {
                    let r = append_str(r, " - Couldn't parse response from backend: ");
                    let r = append_str(r, err.as_str());
                    let r = append_str(r, ". Data:\n");
                    let text = lossy_text(data.as_slice());
                    let r = append_str(r, text.as_str());
                    assert(r@ =~= self.verbose_text());
                    r
                } else {
                    let r = append_str(
                        r,
                        " - 'ParseError': COULDN'T GET BYTES FROM BODY OF RESPONSE (THIS IS BAD!): ",
                    );
                    let r = append_str(r, err.as_str());
                    assert(r@ =~= self.verbose_text());
                    r
                }
            },
            ApiError::Network(about, err) => {
                let r = about_string(about);
                let r = append_str(r, " - The backend seems to be unreachable: ");
                let r = append_str(r, err.as_str());
                assert(r@ =~= self.verbose_text());
                r
            },
            ApiError::Request(about, err, code) => {
                let r = about_string(about);
                let r = append_str(r, " - Bad request to API (");
                let r = push_decimal(r, *code as i64);
                let r = append_str(r, "): ");
                let r = append_str(r, err.as_str());
                assert(r@ =~= self.verbose_text());
                r
            },
            ApiError::Other(err) => {
                let r = append_str(String::new(), "Generic API error: ");
                let r = append_str(r, err.as_str());
                assert(r@ =~= self.verbose_text());
                r
            },
        }
    }
}

/// A short text is the start of the text: all of it when it is short, else exactly its first
/// `SHORTDESCRIPTION` characters.
pub proof fn law_short_text_is_start(t: Seq<char>)
    ensures
        short_text(t).len() == if t.len() <= SHORTDESCRIPTION { t.len() } else { SHORTDESCRIPTION as nat },
        short_text(t) == t.take(short_text(t).len() as int),
{
    if t.len() <= SHORTDESCRIPTION {
        assert(t.take(t.len() as int) =~= t);
    }
}

/// Every api error is reported as 400, 500 or 503, and turning it into a page error keeps the
/// message users see.
pub proof fn law_api_error_reporting(e: ApiError)
    ensures
        e.status_spec() == 400 || e.status_spec() == 500 || e.status_spec() == 503,
        <Error as vstd::std_specs::convert::FromSpec<ApiError>>::from_spec(e) matches Error::Other(s)
            && s@ == e.user_text(),
{
}

fn about_string(about: &AboutRequest) -> (r: String)
    ensures
        r@ == about_text(*about),
{
    let r = append_str(String::new(), "[");
    let r = append_str(r, about.verb.as_str());
    let r = append_str(r, "]");
    let r = append_str(r, about.endpoint.as_str());
    assert(r@ =~= about_text(*about));
    r
}

/// Whether an http status means success (2xx).
pub open spec fn status_success(status: u16) -> bool {
    200 <= status <= 299
}

/// What a reply from the api amounts to: the body to parse when the status is a success, or
/// the refusal with the body's text (or the reason the body was not text) and the status.
pub open spec fn response_spec(about: AboutRequest, status: u16, body: Seq<u8>) -> Result<Seq<u8>, (
    AboutRequest,
    Seq<char>,
    u16,
)> {
    if status_success(status) {
        Ok(body)
    } else {
        match utf8_decoded(body) {
            Ok(text) => Err((about, text, status)),
            Err(e) => Err((about, "RESPONSE BODY UTF-8 ERROR: "@ + e, status)),
        }
    }
}

/// Sort a reply of the api: a successful reply gives its body to parse, any other a
/// `Request` error with the text the api sent.
pub fn classify_response(about: AboutRequest, status: u16, body: Vec<u8>) -> (r: Result<Vec<u8>, ApiError>)
    ensures
        match response_spec(about, status, body@) {
            Ok(b) => r matches Ok(v) && v@ == b,
            Err((a, t, c)) => r matches Err(ApiError::Request(a2, t2, c2)) && a2 == a && t2@ == t && c2
                == c,
        },
{
    if 200 <= status && status <= 299 {
        Ok(body)
    } else {
        match decode_utf8(body) {
            Ok(error) => Err(ApiError::Request(about, error, status)),
            Err(error) => {
                let msg = append_str(String::new(), "RESPONSE BODY UTF-8 ERROR: ");
                let msg = append_str(msg, error.as_str());
                Err(ApiError::Request(about, msg, status))
            },
        }
    }
}

impl From<ApiError> for Error {
    fn from(err: ApiError) -> (r: Self) {
        match err {
            ApiError::NonRequest(_, s) => Error::Other(s),
            ApiError::Other(s) => Error::Other(s),
            ApiError::Network(_, s) => Error::Other(s),
            ApiError::Parse(_, s, _) => Error::Other(s),
            ApiError::Request(_, s, _) => Error::Other(s),
        }
    }
}

impl vstd::std_specs::convert::FromSpecImpl<ApiError> for Error {
    open spec fn obeys_from_spec() -> bool {
        true
    }

    open spec fn from_spec(err: ApiError) -> Error {
        match err {
            ApiError::NonRequest(_, s) => Error::Other(s),
            ApiError::Other(s) => Error::Other(s),
            ApiError::Network(_, s) => Error::Other(s),
            ApiError::Parse(_, s, _) => Error::Other(s),
            ApiError::Request(_, s, _) => Error::Other(s),
        }
    }
}

// -----------------------------------------
//             API REQUESTS
// -----------------------------------------

/// The kinds of things the api can be asked for.
#[allow(non_camel_case_types)]
#[derive(Debug, Clone, Copy, PartialEq, Eq)]
pub enum RequestType {
    user,
    content,
    message,
    activity,
    watch,
    message_aggregate,
    activity_aggregate,
    content_engagement,
    ban,
    keyword_aggregate,
    message_engagement,
    userrelation,
}

impl RequestType {
    /// The name of the kind, as the api spells it.
    pub open spec fn literal(self) -> Seq<char> {
        match self {
            RequestType::user => "user"@,
            RequestType::content => "content"@,
            RequestType::message => "message"@,
            RequestType::activity => "activity"@,
            RequestType::watch => "watch"@,
            RequestType::message_aggregate => "message_aggregate"@,
            RequestType::activity_aggregate => "activity_aggregate"@,
            RequestType::content_engagement => "content_engagement"@,
            RequestType::ban => "ban"@,
            RequestType::keyword_aggregate => "keyword_aggregate"@,
            RequestType::message_engagement => "message_engagement"@,
            RequestType::userrelation => "userrelation"@,
        }
    }

    /// The name of the kind, as the api spells it.
    pub fn to_literal(&self) -> (r: &'static str)
        ensures
            r@ == self.literal(),
    {
        match self {
            RequestType::user => "user",
            RequestType::content => "content",
            RequestType::message => "message",
            RequestType::activity => "activity",
            RequestType::watch => "watch",
            RequestType::message_aggregate => "message_aggregate",
            RequestType::activity_aggregate => "activity_aggregate",
            RequestType::content_engagement => "content_engagement",
            RequestType::ban => "ban",
            RequestType::keyword_aggregate => "keyword_aggregate",
            RequestType::message_engagement => "message_engagement",
            RequestType::userrelation => "userrelation",
        }
    }
}

/// A value that a request's queries can refer to by name.
#[derive(Debug, Clone)]
pub enum RequestValue {
    Int(i64),
    Ints(Vec<i64>),
    Text(String),
    Texts(Vec<String>),
}

/// One search of a request to the api.
#[derive(Debug, Clone)]
pub struct Request {
    pub name: Option<String>,
    /// The kind of thing searched for.
    pub request_type: String,
    pub fields: String,
    pub query: Option<String>,
    pub order: Option<String>,
    pub expensive: bool,
    pub limit: i64,
    pub skip: i64,
}

/// A request to the api: named values, and the searches that use them.
#[derive(Debug)]
pub struct FullRequest {
    /// The values in the order they were added; a later key replaces an earlier one.
    pub values: Vec<(String, RequestValue)>,
    pub requests: Vec<Request>,
}

impl FullRequest {
    /// A request with no values and no searches.
    pub fn new() -> (r: Self)
        ensures
            r.values@.len() == 0,
            r.requests@.len() == 0,
    {
        FullRequest { values: Vec::new(), requests: Vec::new() }
    }
}

/// A search with every optional part given.
pub open spec fn request_spec(
    t: RequestType,
    fields: Seq<char>,
    query: Seq<char>,
    order: Seq<char>,
    limit: i64,
    skip: i64,
) -> (Option<Seq<char>>, Seq<char>, Seq<char>, Option<Seq<char>>, Option<Seq<char>>, bool, i64, i64) {
    (None, t.literal(), fields, Some(query), Some(order), false, limit, skip)
}

/// The model of a search: name, kind, fields, query, order, expensive, limit, skip.
pub open spec fn request_view(r: Request) -> (Option<Seq<char>>, Seq<char>, Seq<char>, Option<Seq<char>>, Option<Seq<char>>, bool, i64, i64) {
    (
        match r.name { Some(n) => Some(n@), None => None },
        r.request_type@,
        r.fields@,
        match r.query { Some(q) => Some(q@), None => None },
        match r.order { Some(o) => Some(o@), None => None },
        r.expensive,
        r.limit,
        r.skip,
    )
}

fn build_request(t: RequestType, fields: &str, query: String, order: &str, limit: i64, skip: i64) -> (r: Request)
    ensures
        request_view(r) == request_spec(t, fields@, query@, order@, limit, skip),
{
    Request {
        name: None,
        request_type: String::from_str(t.to_literal()),
        fields: String::from_str(fields),
        query: Some(query),
        order: Some(String::from_str(order)),
        expensive: false,
        limit,
        skip,
    }
}

/// The query of the main search of a message request.
pub open spec fn message_query_text(query: Seq<char>) -> Seq<char> {
    "!basiccomments() and ("@ + query + ")"@
}

/// A request for the messages that match `query` (a page of them), the messages they reply
/// to (named `related`), and the users who wrote or edited either, or are listed in
/// `extra_uids` (the value `uids`).
pub fn get_generic_message_request(query: &str, extra_uids: Vec<i64>, limit: i32, skip: i32) -> (r: FullRequest)
    ensures
        r.values@.len() == 1,
        r.values@[0].0@ == "uids"@,
        r.values@[0].1 == RequestValue::Ints(extra_uids),
        r.requests@.len() == 3,
        request_view(r.requests@[0]) == request_spec(
            RequestType::message,
            "*"@,
            message_query_text(query@),
            "id"@,
            limit as i64,
            skip as i64,
        ),
        request_view(r.requests@[1]) == ({
            let s = request_spec(
                RequestType::message,
                "*"@,
                "!basiccomments() and id in @message.values.re"@,
                "id"@,
                0,
                0,
            );
            (Some("related"@), s.1, s.2, s.3, s.4, s.5, s.6, s.7)
        }),
        request_view(r.requests@[2]) == request_spec(
            RequestType::user,
            "*"@,
            "id in @message.createUserId or id in @message.editUserId or id in @related.createUserId or id in @related.editUserId or id in @uids"@,
            "id"@,
            0,
            0,
        ),
{
    let mut request = FullRequest::new();
    request.values.push((String::from_str("uids"), RequestValue::Ints(extra_uids)));
    let q = append_str(String::new(), "!basiccomments() and (");
    let q = append_str(q, query);
    let q = append_str(q, ")");
    assert(q@ =~= message_query_text(query@));
    let message_request = build_request(RequestType::message, "*", q, "id", limit as i64, skip as i64);
    request.requests.push(message_request);
    let mut related_request = build_request(
        RequestType::message,
        "*",
        String::from_str("!basiccomments() and id in @message.values.re"),
        "id",
        0,
        0,
    );
    related_request.name = Some(String::from_str("related"));
    request.requests.push(related_request);
    let user_request = build_request(
        RequestType::user,
        "*",
        String::from_str(
            "id in @message.createUserId or id in @message.editUserId or id in @related.createUserId or id in @related.editUserId or id in @uids",
        ),
        "id",
        0,
        0,
    );
    request.requests.push(user_request);
    request
}

// -----------------------------------------
//             POST QUERIES
// -----------------------------------------

/// The query that reads the values of one message.
pub const MSGVALUESELECT: &'static str = "SELECT `key`,`value` FROM message_values WHERE messageId=?";

/// The condition on messages that everyone may read.
pub const COMMONMESSAGE: &'static str = "m.deleted = 0 AND m.module IS NULL AND m.contentId IN (SELECT contentId FROM content_permissions WHERE read=1 AND userId=0)";

/// The columns a post is read from, in order.
pub const FORUMPOSTFIELDS: &'static str = "m.id,m.contentId,m.createUserId,m.createDate,m.text,m.editDate,m.editUserId";

/// The query every post query starts from.
pub open spec fn posts_base_text() -> Seq<char> {
    "SELECT "@ + FORUMPOSTFIELDS@ + " FROM messages m WHERE "@ + COMMONMESSAGE@
}

/// Each post query holds one placeholder for each of its parameters.
proof fn lemma_post_queries_placeholders(count: Option<nat>, limit: QueryLimit)
    ensures
        placeholders(posts_base_text()) == 0,
        placeholders(posts_basic_text(count, limit)) == 1 + match count {
            Some(n) => n,
            None => 0,
        } + limit_params(limit).len(),
        placeholders(posts_base_text() + " AND m.id IN (SELECT messageId FROM message_values WHERE `key`=? AND `value`=?)"@) == 2,
        placeholders(count_before_text()) == 2,
{
    lemma_query_fragments();
    law_limit_placeholders(limit);
    reveal_strlit("m.deleted = 0 AND m.module IS NULL AND m.contentId IN (SELECT contentId FROM content_permissions WHERE read=1 AND userId=0)");
    lemma_placeholders_at(COMMONMESSAGE@, Set::<int>::empty());
    reveal_strlit("m.id,m.contentId,m.createUserId,m.createDate,m.text,m.editDate,m.editUserId");
    lemma_placeholders_at(FORUMPOSTFIELDS@, Set::<int>::empty());
    reveal_strlit(" FROM messages m WHERE ");
    lemma_placeholders_at(" FROM messages m WHERE "@, Set::<int>::empty());
    reveal_strlit(" AND m.contentId = ?");
    lemma_placeholders_at(" AND m.contentId = ?"@, set![19int]);
    reveal_strlit(" AND m.id IN (");
    lemma_placeholders_at(" AND m.id IN ("@, Set::<int>::empty());
    reveal_strlit(" AND m.id IN (SELECT messageId FROM message_values WHERE `key`=? AND `value`=?)");
    lemma_placeholders_at(" AND m.id IN (SELECT messageId FROM message_values WHERE `key`=? AND `value`=?)"@, set![63int, 77int]);
    reveal_strlit("SELECT COUNT(*) FROM messages m WHERE ");
    lemma_placeholders_at("SELECT COUNT(*) FROM messages m WHERE "@, Set::<int>::empty());
    reveal_strlit(" AND m.id < ? AND m.contentId = (SELECT contentId FROM messages WHERE id = ?)");
    lemma_placeholders_at(" AND m.id < ? AND m.contentId = (SELECT contentId FROM messages WHERE id = ?)"@, set![12int, 75int]);
    lemma_placeholders_add("SELECT "@, FORUMPOSTFIELDS@);
    lemma_placeholders_add("SELECT "@ + FORUMPOSTFIELDS@, " FROM messages m WHERE "@);
    lemma_placeholders_add("SELECT "@ + FORUMPOSTFIELDS@ + " FROM messages m WHERE "@, COMMONMESSAGE@);
    lemma_placeholders_add(posts_base_text(), " AND m.id IN (SELECT messageId FROM message_values WHERE `key`=? AND `value`=?)"@);
    lemma_placeholders_add("SELECT COUNT(*) FROM messages m WHERE "@, COMMONMESSAGE@);
    lemma_placeholders_add("SELECT COUNT(*) FROM messages m WHERE "@ + COMMONMESSAGE@, " AND m.id < ? AND m.contentId = (SELECT contentId FROM messages WHERE id = ?)"@);
    let opt = match count {
        Some(n) => " AND m.id IN ("@ + params_list_text(n) + ")"@,
        None => Seq::<char>::empty(),
    };
    match count {
        Some(n) => {
            law_params_list_placeholders(n);
            lemma_placeholders_add(" AND m.id IN ("@, params_list_text(n));
            lemma_placeholders_add(" AND m.id IN ("@ + params_list_text(n), ")"@);
        },
        None => {},
    }
    lemma_placeholders_add(posts_base_text(), " AND m.contentId = ?"@);
    lemma_placeholders_add(posts_base_text() + " AND m.contentId = ?"@, opt);
    lemma_placeholders_add(posts_base_text() + " AND m.contentId = ?"@ + opt, limit_text(limit));
}

/// The query every post query starts from, with no parameters yet.
pub fn forum_posts_base_query() -> (r: (String, Vec<SqlParam>))
    ensures
        r.0@ == posts_base_text(),
        r.1@.len() == 0,
        placeholders(r.0@) == r.1@.len(),
{
    let q = append_str(String::new(), "SELECT ");
    let q = append_str(q, FORUMPOSTFIELDS);
    let q = append_str(q, " FROM messages m WHERE ");
    let q = append_str(q, COMMONMESSAGE);
    assert(q@ =~= posts_base_text());
    proof {
        lemma_post_queries_placeholders(None, QueryLimit { limit: None, skip: None });
    }
    (q, Vec::new())
}

/// Integers as query parameters.
pub open spec fn int_params(ids: Seq<i64>) -> Seq<SqlParamView> {
    ids.map_values(|i: i64| SqlParamView::Int(i))
}

/// The query text for the posts of a content, maybe restricted to some ids.
pub open spec fn posts_basic_text(count: Option<nat>, limit: QueryLimit) -> Seq<char> {
    posts_base_text() + " AND m.contentId = ?"@ + match count {
        Some(n) => " AND m.id IN ("@ + params_list_text(n) + ")"@,
        None => Seq::empty(),
    } + limit_text(limit)
}

/// The query (and its parameters) for the posts of a content, maybe only those with the
/// given ids, within the given limits.
pub fn get_forumposts_basic_query(content_id: i64, ids: Option<Vec<i64>>, limit: QueryLimit) -> (r: (
    String,
    Vec<SqlParam>,
))
    ensures
        r.0@ == posts_basic_text(
            match ids {
                Some(v) => Some(v@.len()),
                None => None,
            },
            limit,
        ),
        params_view(r.1@) == seq![SqlParamView::Int(content_id)] + match ids {
            Some(v) => int_params(v@),
            None => Seq::empty(),
        } + limit_params(limit),
        placeholders(r.0@) == r.1@.len(),
{
    let ghost count: Option<nat> = if ids is Some {
        Some(ids->Some_0@.len())
    } else {
        None
    };
    let (mut query, mut params) = forum_posts_base_query();
    query = append_str(query, " AND m.contentId = ?");
    params.push(SqlParam::Int(content_id));
    let ghost q1 = query@;
    let ghost p1 = params_view(params@);
    assert(p1 =~= seq![SqlParamView::Int(content_id)]);
    if let Some(ids) = ids {
        query = append_str(query, " AND m.id IN (");
        query = append_str(query, params_list(ids.len()).as_str());
        query = append_str(query, ")");
        let mut k: usize = 0;
        while k < ids.len()
            invariant
                k <= ids@.len(),
                params_view(params@) == p1 + int_params(ids@.take(k as int)),
            decreases ids@.len() - k,
        {
            let ghost before = params@;
            params.push(SqlParam::Int(ids[k]));
            assert(int_params(ids@.take(k as int + 1)) =~= int_params(ids@.take(k as int)).push(SqlParamView::Int(ids@[k as int])));
            assert(params@ =~= before.push(SqlParam::Int(ids@[k as int])));
            assert(params_view(params@) =~= params_view(before).push(SqlParamView::Int(ids@[k as int])));
            k = k + 1;
        }
        assert(ids@.take(ids@.len() as int) =~= ids@);
    }
    let ghost q2 = query@;
    let ghost p2 = params_view(params@);
    limit.mod_query(&mut query, &mut params);
    assert(query@ =~= posts_basic_text(
        match ids {
            Some(v) => Some(v@.len()),
            None => None,
        },
        limit,
    ));
    assert(params_view(params@) =~= seq![SqlParamView::Int(content_id)] + match ids {
        Some(v) => int_params(v@),
        None => Seq::empty(),
    } + limit_params(limit));
    proof {
        lemma_post_queries_placeholders(count, limit);
        assert(params_view(params@).len() == params@.len());
    }
    (query, params)
}

/// The query (and its parameters) for the replies in the chain started by a post.
pub fn get_forumposts_replies_query(root_post_id: i64) -> (r: (String, Vec<SqlParam>))
    ensures
        r.0@ == posts_base_text()
            + " AND m.id IN (SELECT messageId FROM message_values WHERE `key`=? AND `value`=?)"@,
        params_view(r.1@) == seq![SqlParamView::Text("re-top"@), SqlParamView::Int(root_post_id)],
        placeholders(r.0@) == r.1@.len(),
{
    let (mut query, mut params) = forum_posts_base_query();
    query = append_str(
        query,
        " AND m.id IN (SELECT messageId FROM message_values WHERE `key`=? AND `value`=?)",
    );
    params.push(SqlParam::Text(String::from_str("re-top")));
    params.push(SqlParam::Int(root_post_id));
    assert(params_view(params@) =~= seq![SqlParamView::Text("re-top"@), SqlParamView::Int(root_post_id)]);
    proof {
        lemma_post_queries_placeholders(None, QueryLimit { limit: None, skip: None });
    }
    (query, params)
}

/// The query text counting the posts of a thread that come before a post.
pub open spec fn count_before_text() -> Seq<char> {
    "SELECT COUNT(*) FROM messages m WHERE "@ + COMMONMESSAGE@
        + " AND m.id < ? AND m.contentId = (SELECT contentId FROM messages WHERE id = ?)"@
}

/// The query (and its parameters) counting the posts of its thread that come before a post.
pub fn get_count_before_forumpost_query(id: i64) -> (r: (String, Vec<SqlParam>))
    ensures
        r.0@ == count_before_text(),
        params_view(r.1@) == seq![SqlParamView::Int(id), SqlParamView::Int(id)],
        placeholders(r.0@) == r.1@.len(),
{
    let q = append_str(String::new(), "SELECT COUNT(*) FROM messages m WHERE ");
    let q = append_str(q, COMMONMESSAGE);
    let q = append_str(q, " AND m.id < ? AND m.contentId = (SELECT contentId FROM messages WHERE id = ?)");
    assert(q@ =~= count_before_text());
    let mut params: Vec<SqlParam> = Vec::new();
    params.push(SqlParam::Int(id));
    params.push(SqlParam::Int(id));
    assert(params_view(params@) =~= seq![SqlParamView::Int(id), SqlParamView::Int(id)]);
    proof {
        lemma_post_queries_placeholders(None, QueryLimit { limit: None, skip: None });
    }
    (q, params)
}

/// The users to look up for some posts: each post's author, then its editor when there is
/// one, after those already listed.
pub open spec fn uids_of_posts(messages: Seq<ForumPost>) -> Seq<i64>
    decreases messages.len(),
{
    if messages.len() == 0 {
        Seq::empty()
    } else {
        let m = messages.last();
        uids_of_posts(messages.drop_last()) + seq![m.create_user_id] + match m.edit_user_id {
            Some(e) => seq![e],
            None => Seq::empty(),
        }
    }
}

/// Add the authors and editors of the posts to a list of user ids.
pub fn add_uids_from_posts(messages: &Vec<ForumPost>, existing: &mut Vec<i64>)
    ensures
        final(existing)@ == old(existing)@ + uids_of_posts(messages@),
{
    let mut k: usize = 0;
    while k < messages.len()
        invariant
            k <= messages@.len(),
            existing@ == old(existing)@ + uids_of_posts(messages@.take(k as int)),
        decreases messages@.len() - k,
    {
        let message = &messages[k];
        existing.push(message.create_user_id);
        if let Some(edit_uid) = message.edit_user_id {
            existing.push(edit_uid);
        }
        assert(messages@.take(k as int + 1).drop_last() =~= messages@.take(k as int));
        assert(existing@ =~= old(existing)@ + uids_of_posts(messages@.take(k as int + 1)));
        k = k + 1;
    }
    assert(messages@.take(messages@.len() as int) =~= messages@);
}

// -----------------------------------------
//             THREAD VIEWS
// -----------------------------------------

/// Posts by id; when two share an id the later one is kept.
pub open spec fn posts_map(posts: Seq<ForumPost>) -> Map<i64, ForumPost>
    decreases posts.len(),
{
    if posts.len() == 0 {
        Map::empty()
    } else {
        posts_map(posts.drop_last()).insert(posts.last().id, posts.last())
    }
}

/// Index posts by their id.
pub fn map_forumposts(posts: Vec<ForumPost>) -> (r: std::collections::HashMap<i64, ForumPost>)
    ensures
        r@ == posts_map(posts@),
{
    broadcast use vstd::std_specs::hash::group_hash_axioms;
    let ghost all = posts@;
    let n = posts.len();
    let mut posts = posts;
    let mut r: std::collections::HashMap<i64, ForumPost> = std::collections::HashMap::new();
    let mut k: usize = 0;
    while posts.len() > 0
        invariant
            n == all.len(),
            k + posts@.len() == all.len(),
            posts@ == all.subrange(k as int, all.len() as int),
            r@ == posts_map(all.take(k as int)),
        decreases posts@.len(),
    {
        let p = posts.remove(0);
        assert(p == all[k as int]);
        r.insert(p.id, p);
        assert(all.take(k as int + 1).drop_last() =~= all.take(k as int));
        assert(posts@ =~= all.subrange(k as int + 1, all.len() as int));
        k = k + 1;
    }
    assert(all.take(all.len() as int) =~= all);
    r
}

/// How a thread's posts are shown: which parts are drawn, and the data they are drawn from.
pub struct PostsConfig {
    /// The thread that holds all the posts to render.
    pub thread: ForumThread2,
    pub categories: Vec<crate::pages::common::contentapi::SubmissionCategory>,
    pub posts: Vec<ForumPost>,
    pub related: std::collections::HashMap<i64, ForumPost>,
    pub users: std::collections::HashMap<i64, User2>,
    /// The path to this thread; not drawn when not given.
    pub path: Option<Vec<ForumPathItem>>,
    /// The pages to navigate posts; not drawn when not given.
    pub pages: Option<Vec<ForumPagelistItem>>,
    pub start_num: Option<i32>,
    pub selected_post_id: Option<i64>,
    pub render_header: bool,
    pub render_page: bool,
    pub render_reply_chain: bool,
    pub render_reply_link: bool,
    pub render_controls: bool,
}

impl PostsConfig {
    /// A full thread page: header, page content, path, page list and controls, posts listed
    /// in order with links to their reply chains.
    pub fn thread_mode(
        thread: ForumThread2,
        categories: Vec<crate::pages::common::contentapi::SubmissionCategory>,
        posts: Vec<ForumPost>,
        related: std::collections::HashMap<i64, ForumPost>,
        users: std::collections::HashMap<i64, User2>,
        path: Vec<ForumPathItem>,
        pages: Vec<ForumPagelistItem>,
        start: i32,
        selected_post_id: Option<i64>,
    ) -> (r: Self)
        ensures
            r.thread == thread,
            r.categories == categories,
            r.posts == posts,
            r.related == related,
            r.users == users,
            r.path == Some(path),
            r.pages == Some(pages),
            r.start_num == Some(start),
            r.selected_post_id == selected_post_id,
            r.render_header,
            r.render_page,
            !r.render_reply_chain,
            r.render_reply_link,
            r.render_controls,
    {
        PostsConfig {
            thread,
            related,
            users,
            posts,
            categories,
            path: Some(path),
            pages: Some(pages),
            start_num: Some(start),
            selected_post_id,
            render_header: true,
            render_page: true,
            render_reply_chain: false,
            render_reply_link: true,
            render_controls: true,
        }
    }

    /// Only the posts of a reply chain, drawn as a tree, with nothing around them.
    pub fn reply_mode(
        thread: ForumThread2,
        posts: Vec<ForumPost>,
        related: std::collections::HashMap<i64, ForumPost>,
        users: std::collections::HashMap<i64, User2>,
        selected_post_id: Option<i64>,
    ) -> (r: Self)
        ensures
            r.thread == thread,
            r.categories@.len() == 0,
            r.posts == posts,
            r.related == related,
            r.users == users,
            r.path is None,
            r.pages is None,
            r.start_num is None,
            r.selected_post_id == selected_post_id,
            !r.render_header,
            !r.render_page,
            r.render_reply_chain,
            !r.render_reply_link,
            !r.render_controls,
    {
        PostsConfig {
            thread,
            related,
            users,
            posts,
            categories: Vec::new(),
            path: None,
            pages: None,
            start_num: None,
            selected_post_id,
            render_header: false,
            render_page: false,
            render_reply_chain: true,
            render_reply_link: false,
            render_controls: false,
        }
    }
}

/// Where the navigation bar points while a thread of this type is shown, if not at the forum.
pub open spec fn nav_override_spec(thread_type: Seq<char>) -> Option<Seq<char>> {
    if thread_type == SBSPageType::PROGRAM@ || thread_type == SBSPageType::RESOURCE@ {
        Some("/search"@)
    } else if thread_type == SBSPageType::DOCUMENTATION@ {
        Some("/documentation"@)
    } else if thread_type == SBSPageType::DIRECTMESSAGE@ {
        Some("/userhome"@)
    } else {
        None
    }
}

/// The navigation path to show as current while a thread of this type is shown.
pub fn nav_override(thread_type: &str) -> (r: Option<&'static str>)
    ensures
        match r {
            Some(p) => nav_override_spec(thread_type@) == Some(p@),
            None => nav_override_spec(thread_type@) is None,
        },
{
    if str_eq(thread_type, SBSPageType::PROGRAM) || str_eq(thread_type, SBSPageType::RESOURCE) {
        Some("/search")
    } else if str_eq(thread_type, SBSPageType::DOCUMENTATION) {
        Some("/documentation")
    } else if str_eq(thread_type, SBSPageType::DIRECTMESSAGE) {
        Some("/userhome")
    } else {
        None
    }
}

/// Whether a thread of this type is a page with content of its own (programs, resources and
/// documentation).
pub open spec fn is_pagetype_spec(thread_type: Seq<char>) -> bool {
    thread_type == SBSPageType::PROGRAM@ || thread_type == SBSPageType::RESOURCE@
        || thread_type == SBSPageType::DOCUMENTATION@
}

/// Whether a thread of this type is a page with content of its own.
pub fn is_pagetype(thread_type: &str) -> (r: bool)
    ensures
        r == is_pagetype_spec(thread_type@),
{
    str_eq(thread_type, SBSPageType::PROGRAM) || str_eq(thread_type, SBSPageType::RESOURCE)
        || str_eq(thread_type, SBSPageType::DOCUMENTATION)
}

/// The metadata of a page: title, description, preview image and canonical link.
#[derive(Debug, Clone)]
pub struct LayoutMeta {
    pub title: String,
    pub description: String,
    pub image: Option<String>,
    pub canonical: Option<String>,
}

/// The index of the first post with the given id.
pub open spec fn index_of_post(posts: Seq<ForumPost>, id: i64) -> Option<int>
    decreases posts.len(),
{
    if posts.len() == 0 {
        None
    } else if posts[0].id == id {
        Some(0)
    } else {
        match index_of_post(posts.drop_first(), id) {
            Some(i) => Some(i + 1),
            None => None,
        }
    }
}

fn find_post(posts: &Vec<ForumPost>, id: i64) -> (r: Option<usize>)
    ensures
        match r {
            Some(i) => index_of_post(posts@, id) == Some(i as int) && i < posts@.len(),
            None => index_of_post(posts@, id) is None,
        },
{
    let mut i: usize = 0;
    assert(posts@.skip(0) =~= posts@);
    while i < posts.len()
        invariant
            i <= posts@.len(),
            index_of_post(posts@, id) == match index_of_post(posts@.skip(i as int), id) {
                Some(j) => Some(j + i),
                None => None,
            },
        decreases posts@.len() - i,
    {
        assert(posts@.skip(i as int).drop_first() =~= posts@.skip(i as int + 1));
        if posts[i].id == id {
            return Some(i);
        }
        i = i + 1;
    }
    None
}

/// The post whose text describes a forum thread's page, if any: the selected post when one is
/// selected (and shown), else the first post when this is the first page.
pub open spec fn meta_post(config: PostsConfig) -> Option<int> {
    if config.thread.literal_type@ != SBSPageType::FORUMTHREAD@ {
        None
    } else {
        match config.selected_post_id {
            Some(s) => index_of_post(config.posts@, s),
            None => if config.start_num == Some(1i32) && config.posts@.len() > 0 {
                Some(0)
            } else {
                None
            },
        }
    }
}

/// The metadata of a thread's page. Forum threads are described by the selected post, whose
/// link becomes canonical, or on their first page by their first post; other pages by their
/// own description.
pub fn thread_meta(links: &LinkConfig, config: &PostsConfig) -> (r: LayoutMeta)
    ensures
        r.title@ == "SBS \u{2981} "@ + config.thread.name@,
        match thumbnail_spec(config.thread.values@) {
            Some(h) => r.image matches Some(i) && i@ == image_text(*links, h, QueryImage::Scaled300),
            None => r.image is None,
        },
        match meta_post(*config) {
            Some(i) => r.description@ == short_text(config.posts@[i].text@),
            None => r.description@ == short_description_spec(config.thread),
        },
        r.canonical matches Some(c) && c@ == match (meta_post(*config), config.selected_post_id) {
            (Some(i), Some(_)) => forum_post_text(*links, config.posts@[i].id, config.thread.hash@),
            _ => forum_thread_text(*links, config.thread.hash@),
        },
{
    let title = append_str(String::new(), "SBS \u{2981} ");
    let title = append_str(title, config.thread.name.as_str());
    let image = match get_thumbnail_hash2(&config.thread) {
        Some(h) => Some(links.image(h.as_str(), QueryImage::Scaled300)),
        None => None,
    };
    let mut meta = LayoutMeta {
        title,
        description: short_description2(&config.thread),
        image,
        canonical: Some(links.forum_thread_unsafe(config.thread.hash.as_str())),
    };
    if str_eq(config.thread.literal_type.as_str(), SBSPageType::FORUMTHREAD) {
        if let Some(selected_id) = config.selected_post_id {
            if let Some(i) = find_post(&config.posts, selected_id) {
                let post = &config.posts[i];
                meta.description = short_post(post);
                meta.canonical = Some(links.forum_post_unsafe(post.id, config.thread.hash.as_str()));
            }
        } else if let Some(start) = config.start_num {
            if start == 1 {
                if config.posts.len() > 0 {
                    meta.description = short_post(&config.posts[0]);
                }
            }
        }
    }
    meta
}

/// A link of the list of pages of a thread: where it goes, its text, and whether it is the
/// page shown.
#[derive(Debug, Clone)]
pub struct PageLink {
    pub link: String,
    pub text: String,
    pub current: bool,
}

/// The link to a page of a thread, at the top of its posts.
pub open spec fn thread_page_link(links: LinkConfig, hash: Seq<char>, page: i32) -> Seq<char> {
    forum_thread_text(links, hash) + "?page="@ + decimal_text(page as int) + "#thread-top"@
}

/// What the main view of a thread shows besides the posts themselves: where the navigation
/// points, whether the page's own content is shown, the trees of posts, the list of pages
/// (only when there is more than one), the number shown beside each top post with its link,
/// and the message shown when there are no posts.
pub struct MainViewPlan<'a> {
    pub nav_override: Option<&'static str>,
    pub show_page: bool,
    pub trees: Vec<ReplyTree<'a>>,
    pub pagelist: Option<Vec<PageLink>>,
    pub sequences: Vec<Option<i32>>,
    /// Where the number beside each top post links to: the post itself.
    pub sequence_links: Vec<Option<String>>,
    /// The message shown in place of posts when there are none.
    pub empty_message: Option<&'static str>,
}

/// The message shown on a thread without posts.
pub const NOPOSTS: &'static str = "No posts yet (will you be the first?)";

/// Work out the main view of a thread: reply chains as one tree when asked for, else every
/// post on its own; top posts numbered from the start number, when there is one.
pub fn render_mainview<'a>(links: &LinkConfig, config: &'a PostsConfig) -> (r: MainViewPlan<'a>)
    requires
        config.posts@.len() <= i32::MAX,
        config.start_num matches Some(s) ==> s + config.posts@.len() <= i32::MAX,
    ensures
        match nav_override_spec(config.thread.literal_type@) {
            Some(p) => r.nav_override matches Some(q) && q@ == p,
            None => r.nav_override is None,
        },
        r.show_page == (config.render_page && is_pagetype_spec(config.thread.literal_type@)),
        config.render_reply_chain ==> (config.posts@.len() == 0 ==> r.trees@.len() == 0) && (config.posts@.len()
            > 0 ==> r.trees@.len() == 1 && r.trees@[0]@ == build_tree(config.posts@, config.posts@.len() as int)),
        !config.render_reply_chain ==> r.trees@.len() == config.posts@.len() && forall|i: int|
            0 <= i < config.posts@.len() ==> #[trigger] r.trees@[i]@ == leaf(config.posts@[i]),
        r.sequences@.len() == r.trees@.len(),
        forall|i: int|
            0 <= i < r.sequences@.len() ==> #[trigger] r.sequences@[i] == match config.start_num {
                Some(s) => Some((s + i) as i32),
                None => None,
            },
        r.sequence_links@.len() == r.trees@.len(),
        forall|i: int|
            0 <= i < r.sequence_links@.len() ==> match (#[trigger] r.sequence_links@[i], config.start_num) {
                (Some(l), Some(_)) => l@ == forum_post_text(*links, r.trees@[i].post.id, config.thread.hash@),
                (None, None) => true,
                _ => false,
            },
        r.empty_message == if r.trees@.len() == 0 {
            Some(NOPOSTS)
        } else {
            None
        },
        match config.pages {
            Some(pages) => if pages@.len() > 1 {
                r.pagelist matches Some(l) && l@.len() == pages@.len() && forall|i: int|
                    0 <= i < l@.len() ==> {
                        &&& (#[trigger] l@[i]).link@ == thread_page_link(*links, config.thread.hash@, pages@[i].page)
                        &&& l@[i].text == pages@[i].text
                        &&& l@[i].current == pages@[i].current
                    }
            } else {
                r.pagelist is None
            },
            None => r.pagelist is None,
        },
{
    let nav = nav_override(config.thread.literal_type.as_str());
    let show_page = config.render_page && is_pagetype(config.thread.literal_type.as_str());
    let trees = if config.render_reply_chain {
        posts_to_replytree(&config.posts)
    } else {
        posts_to_flat_trees(&config.posts)
    };
    let mut sequences: Vec<Option<i32>> = Vec::new();
    let mut sequence_links: Vec<Option<String>> = Vec::new();
    let mut k: usize = 0;
    while k < trees.len()
        invariant
            k <= trees@.len(),
            trees@.len() <= config.posts@.len(),
            config.posts@.len() <= i32::MAX,
            config.start_num matches Some(s) ==> s + config.posts@.len() <= i32::MAX,
            sequences@.len() == k,
            forall|i: int|
                0 <= i < k ==> #[trigger] sequences@[i] == match config.start_num {
                    Some(s) => Some((s + i) as i32),
                    None => None,
                },
            sequence_links@.len() == k,
            forall|i: int|
                0 <= i < k ==> match (#[trigger] sequence_links@[i], config.start_num) {
                    (Some(l), Some(_)) => l@ == forum_post_text(*links, trees@[i].post.id, config.thread.hash@),
                    (None, None) => true,
                    _ => false,
                },
        decreases trees@.len() - k,
    {
        let kk: i32 = k as i32;
        let seq_num = match config.start_num {
            Some(s) => Some(s + kk),
            None => None,
        };
        sequences.push(seq_num);
        let link = match config.start_num {
            Some(_) => Some(links.forum_post_unsafe(trees[k].post.id, config.thread.hash.as_str())),
            None => None,
        };
        sequence_links.push(link);
        k = k + 1;
    }
    let pagelist = match &config.pages {
        Some(pages) => if pages.len() > 1 {
            let mut list: Vec<PageLink> = Vec::new();
            let mut i: usize = 0;
            while i < pages.len()
                invariant
                    i <= pages@.len(),
                    list@.len() == i,
                    forall|j: int|
                        0 <= j < i ==> {
                            &&& (#[trigger] list@[j]).link@ == thread_page_link(*links, config.thread.hash@, pages@[j].page)
                            &&& list@[j].text == pages@[j].text
                            &&& list@[j].current == pages@[j].current
                        },
                decreases pages@.len() - i,
            {
                let page = &pages[i];
                let link = links.forum_thread_unsafe(config.thread.hash.as_str());
                let link = push_decimal(append_str(link, "?page="), page.page as i64);
                let link = append_str(link, "#thread-top");
                assert(link@ =~= thread_page_link(*links, config.thread.hash@, page.page));
                list.push(PageLink { link, text: page.text.clone(), current: page.current });
                i = i + 1;
            }
            Some(list)
        } else {
            None
        },
        None => None,
    };
    let empty_message = if trees.len() == 0 {
        Some(NOPOSTS)
    } else {
        None
    };
    MainViewPlan { nav_override: nav, show_page, trees, pagelist, sequences, sequence_links, empty_message }
}

/// The query of the thread widget: the reply chain to show and the post to select.
#[derive(Debug, Clone, Default)]
pub struct ThreadQuery {
    pub reply: Option<i64>,
    pub selected: Option<i64>,
}

/// The query of the thread widget for the reply chain started by `top`, selecting `selected`.
pub open spec fn reply_chain_query(top: i64, selected: i64) -> Option<Seq<char>> {
    urlencoded_pairs(seq![("reply"@, decimal_text(top as int)), ("selected"@, decimal_text(selected as int))])
}

/// What a post needs besides itself to be drawn: its css class, the post it replies to, and
/// the link to its reply chain.
pub struct PostItemData<'a> {
    pub class: String,
    pub reply_post: Option<&'a ForumPost>,
    pub reply_chain_link: Option<String>,
}

/// Work out how a post is drawn: `post current` when it is the selected post; the post it
/// answers, looked up among the related posts; and, when reply links are drawn, a link to the
/// widget showing its reply chain.
pub fn post_item_data<'a>(links: &LinkConfig, config: &'a PostsConfig, post: &ForumPost) -> (r: PostItemData<'a>)
    ensures
        r.class@ == "post"@ + if config.selected_post_id == Some(post.id) {
            " current"@
        } else {
            Seq::empty()
        },
        match replydata_spec(post.values@) {
            None => r.reply_post is None && r.reply_chain_link is None,
            Some(d) => {
                &&& r.reply_post == if config.related@.contains_key(d.direct) {
                    Some(&config.related@[d.direct])
                } else {
                    None
                }
                &&& if config.render_reply_link {
                    match reply_chain_query(d.top, post.id) {
                        Some(q) => r.reply_chain_link matches Some(l) && l@ == links.http_root@
                            + "/widget/thread?"@ + q,
                        None => r.reply_chain_link is None,
                    }
                } else {
                    r.reply_chain_link is None
                }
            },
        },
{
    broadcast use vstd::std_specs::hash::group_hash_axioms;
    let mut class = append_str(String::new(), "post");
    if config.selected_post_id == Some(post.id) {
        class = append_str(class, " current");
    } else {
        assert(class@ =~= "post"@ + Seq::<char>::empty());
    }
    let mut reply_chain_link: Option<String> = None;
    let mut reply_post: Option<&'a ForumPost> = None;
    if let Some(replies) = get_replydata(post) {
        reply_post = config.related.get(&replies.direct);
        if config.render_reply_link {
            let top = decimal_string(replies.top);
            let selected = decimal_string(post.id);
            let pairs = [("reply", top.as_str()), ("selected", selected.as_str())];
            assert(pairs_view(pairs@) =~= seq![("reply"@, decimal_text(replies.top as int)), ("selected"@, decimal_text(post.id as int))]);
            if let Some(query) = encode_pairs(&pairs) {
                let link = append_str(links.http_root.clone(), "/widget/thread?");
                reply_chain_link = Some(append_str(link, query.as_str()));
            }
        }
    }
    PostItemData { class, reply_post, reply_chain_link }
}

/// Division that rounds toward zero, as integer division in code does.
pub open spec fn truncated_div(a: int, b: int) -> int {
    let q = abs_int(a) / abs_int(b);
    if (a < 0) != (b < 0) {
        -q
    } else {
        q
    }
}

pub open spec fn abs_int(a: int) -> int {
    if a < 0 {
        -a
    } else {
        a
    }
}

/// The zero-based page of a thread to show: the one holding the post that `precount` posts
/// precede, when a post was asked for, else the one-based `page` asked for (the first by
/// default).
pub open spec fn thread_page_spec(page: Option<i32>, precount: Option<i32>, per_page: i32) -> int {
    match precount {
        Some(c) => truncated_div(c as int, per_page as int),
        None => match page {
            Some(p) => p - 1,
            None => 0,
        },
    }
}

/// The zero-based page of a thread to show.
pub fn thread_page(page: Option<i32>, precount: Option<i32>, per_page: i32) -> (r: i32)
    requires
        per_page > 0,
        page matches Some(p) ==> p > i32::MIN,
    ensures
        r == thread_page_spec(page, precount, per_page),
{
    let mut p = match page {
        Some(p) => p - 1,
        None => 0,
    };
    if let Some(c) = precount {
        p = c / per_page;
    }
    p
}

/// What a thread page reads once its thread and the thread's category were looked up: the
/// posts of its page (`per_page` of them, after the pages before it) and the number of the
/// first of them. A missing thread or category is not found.
pub fn thread_view_plan(
    thread_found: bool,
    category_found: bool,
    per_page: i32,
    page: Option<i32>,
    precount: Option<i32>,
) -> (r: Result<(QueryLimit, i32), Error>)
    requires
        per_page > 0,
        page matches Some(p) ==> p > i32::MIN,
        thread_found && category_found ==> i32::MIN <= thread_page_spec(page, precount, per_page) * per_page
            < i32::MAX,
    ensures
        !thread_found ==> (r matches Err(Error::NotFound(m)) && m@ == "Could not find thread!"@),
        thread_found && !category_found ==> (r matches Err(Error::NotFound(m)) && m@ == "Could not find category!"@),
        thread_found && category_found ==> (r matches Ok((l, start)) && l.limit == Some(per_page) && l.skip == Some(
            (thread_page_spec(page, precount, per_page) * per_page) as i32,
        ) && start == 1 + thread_page_spec(page, precount, per_page) * per_page),
{
    if !thread_found {
        return Err(Error::NotFound(String::from_str("Could not find thread!")));
    }
    if !category_found {
        return Err(Error::NotFound(String::from_str("Could not find category!")));
    }
    let p = thread_page(page, precount, per_page);
    let sequence_start = p * per_page;
    Ok((QueryLimit { limit: Some(per_page), skip: Some(sequence_start) }, 1 + sequence_start))
}

/// The posts answered by some posts, in order (posts without reply data add nothing).
pub open spec fn related_ids_spec(messages: Seq<ForumPost>) -> Seq<i64>
    decreases messages.len(),
{
    if messages.len() == 0 {
        Seq::empty()
    } else {
        related_ids_spec(messages.drop_last()) + match replydata_spec(messages.last().values@) {
            Some(d) => seq![d.direct],
            None => Seq::empty(),
        }
    }
}

/// The ids of the posts that the given posts answer.
pub fn related_ids(messages: &Vec<ForumPost>) -> (r: Vec<i64>)
    ensures
        r@ == related_ids_spec(messages@),
{
    let mut r: Vec<i64> = Vec::new();
    let mut k: usize = 0;
    while k < messages.len()
        invariant
            k <= messages@.len(),
            r@ == related_ids_spec(messages@.take(k as int)),
        decreases messages@.len() - k,
    {
        if let Some(data) = get_replydata(&messages[k]) {
            r.push(data.direct);
        }
        assert(messages@.take(k as int + 1).drop_last() =~= messages@.take(k as int));
        assert(r@ =~= related_ids_spec(messages@.take(k as int + 1)));
        k = k + 1;
    }
    assert(messages@.take(messages@.len() as int) =~= messages@);
    r
}

/// The markup of a text: the `markup` value read as a json string, bbcode by default.
pub open spec fn markup_spec(values: Seq<(String, String)>) -> Seq<char> {
    match value_lookup(values, SBSValue::MARKUP@) {
        Some(t) => match json_borrowed_str(t) {
            Some(m) => m,
            None => MARKUPBBCODE@,
        },
        None => MARKUPBBCODE@,
    }
}

/// The body of a page's text as drawn: its markup, whether it is already html, and the text
/// (bbcode turned into html; any other markup left for the browser).
pub struct TextContent {
    pub markup: String,
    pub prerendered: bool,
    pub body: String,
}

/// Work out how a page's text is drawn.
pub fn render_textcontent(text: &str, values: &Vec<(String, String)>, bbcode: &BBCode) -> (r: TextContent)
    ensures
        r.markup@ == markup_spec(values@),
        r.prerendered == (markup_spec(values@) == MARKUPBBCODE@),
        r.body@ == if r.prerendered {
            translate(bbcode@, text@)
        } else {
            text@
        },
{
    let markup = match get_value(values, SBSValue::MARKUP) {
        Some(v) => match parse_json_borrowed_str(v.as_str()) {
            Some(m) => m,
            None => String::from_str(MARKUPBBCODE),
        },
        None => String::from_str(MARKUPBBCODE),
    };
    let prerendered = str_eq(markup.as_str(), MARKUPBBCODE);
    let body = if prerendered {
        bbcode.parse(text)
    } else {
        String::from_str(text)
    };
    TextContent { markup, prerendered, body }
}

/// The string stored as json under `key`, if there is one.
pub open spec fn string_value(values: Seq<(String, String)>, key: Seq<char>) -> Option<Seq<char>> {
    match value_lookup(values, key) {
        Some(t) => json_string(t),
        None => None,
    }
}

fn string_value_exec(values: &Vec<(String, String)>, key: &str) -> (r: Option<String>)
    ensures
        match r {
            Some(v) => string_value(values@, key@) == Some(v@),
            None => string_value(values@, key@) is None,
        },
{
    match get_value(values, key) {
        Some(v) => parse_json_string(v.as_str()),
        None => None,
    }
}

/// The gallery of a program: the json list of the links to its images (empty when it can't
/// be written), and the link to the first.
pub struct Gallery {
    pub images_attr: String,
    pub first: Option<String>,
}

/// What the information box of a program shows.
pub struct ProgramInfo {
    pub gallery: Option<Gallery>,
    pub download_key: Option<String>,
    /// The link to the QR codes, for Petit Computer programs.
    pub qr_link: Option<String>,
    pub version: Option<String>,
    pub size: Option<String>,
}

/// What a page shows above its posts: the program box (programs only), its text, and the
/// links to its categories (not for documentation).
pub struct PageView {
    pub program: Option<ProgramInfo>,
    pub text: TextContent,
    /// The links to the page's categories, with their names; none for documentation.
    pub categories: Option<Vec<(String, String)>>,
}

/// The links to images at their original size.
pub open spec fn image_links(links: LinkConfig, images: Seq<Seq<char>>) -> Seq<Seq<char>> {
    images.map_values(|h: Seq<char>| image_text(links, h, QueryImage::Original))
}

fn images_to_attr(links: &LinkConfig, images: &Vec<String>) -> (r: String)
    ensures
        r@ == match json_of_strings(image_links(*links, strings_view(images@))) {
            Some(t) => t,
            None => Seq::empty(),
        },
{
    let mut v: Vec<String> = Vec::new();
    let mut k: usize = 0;
    while k < images.len()
        invariant
            k <= images@.len(),
            strings_view(v@) == image_links(*links, strings_view(images@)).take(k as int),
        decreases images@.len() - k,
    {
        let ghost before = v@;
        let l = links.image_default(images[k].as_str());
        v.push(l);
        assert(strings_view(v@) =~= strings_view(before).push(l@));
        assert(image_links(*links, strings_view(images@)).take(k as int + 1) =~= image_links(*links, strings_view(images@)).take(k as int).push(l@));
        k = k + 1;
    }
    assert(image_links(*links, strings_view(images@)).take(images@.len() as int) =~= image_links(*links, strings_view(images@)));
    match strings_to_json(&v) {
        Some(t) => t,
        None => String::new(),
    }
}

/// Work out what a page with content of its own shows above its posts.
pub fn render_page(links: &LinkConfig, bbcode: &BBCode, thread: &ForumThread2, categories: &Vec<crate::pages::common::contentapi::SubmissionCategory>) -> (r: PageView)
    ensures
        r.text.markup@ == markup_spec(thread.values@),
        r.text.prerendered == (markup_spec(thread.values@) == MARKUPBBCODE@),
        r.text.body@ == if r.text.prerendered { translate(bbcode@, thread.text@) } else { thread.text@ },
        (thread.literal_type@ == SBSPageType::PROGRAM@) == (r.program is Some),
        r.program matches Some(p) ==> {
            &&& match value_lookup(thread.values@, SBSValue::IMAGES@) {
                Some(t) => match json_string_list(t) {
                    Some(imgs) => p.gallery matches Some(g) && g.images_attr@ == match json_of_strings(image_links(*links, imgs)) {
                        Some(a) => a,
                        None => Seq::empty(),
                    } && match g.first {
                        Some(f) => imgs.len() > 0 && f@ == image_text(*links, imgs[0], QueryImage::Original),
                        None => imgs.len() == 0,
                    },
                    None => p.gallery is None,
                },
                None => p.gallery is None,
            }
            &&& match string_value(thread.values@, SBSValue::DOWNLOADKEY@) {
                Some(k) => p.download_key matches Some(kk) && kk@ == k,
                None => p.download_key is None,
            }
            &&& if holds_ptc(string_list_value(thread.values@, SBSValue::SYSTEMS@)) {
                p.qr_link matches Some(l) && l@ == links.http_root@ + "/widget/qr/"@ + thread.hash@
            } else {
                p.qr_link is None
            }
            &&& match string_value(thread.values@, SBSValue::VERSION@) {
                Some(v) => p.version matches Some(vv) && vv@ == v,
                None => p.version is None,
            }
            &&& match string_value(thread.values@, SBSValue::SIZE@) {
                Some(v) => p.size matches Some(vv) && vv@ == v,
                None => p.size is None,
            }
        },
        (thread.literal_type@ == SBSPageType::DOCUMENTATION@) == (r.categories is None),
        r.categories matches Some(c) ==> c@.len() == categories@.len() && forall|i: int|
            0 <= i < c@.len() ==> (#[trigger] c@[i]).0@ == links.http_root@ + "/search?category="@
                + decimal_text(categories@[i].id as int) && c@[i].1 == categories@[i].name,
{
    let values = &thread.values;
    let program = if str_eq(thread.literal_type.as_str(), SBSPageType::PROGRAM) {
        let gallery = match get_value(values, SBSValue::IMAGES) {
            Some(raw) => match parse_json_string_list(raw.as_str()) {
                Some(images) => {
                    let images_attr = images_to_attr(links, &images);
                    let first = if images.len() > 0 {
                        Some(links.image_default(images[0].as_str()))
                    } else {
                        None
                    };
                    Some(Gallery { images_attr, first })
                },
                None => None,
            },
            None => None,
        };
        let systems = get_systems2(values);
        let qr_link = if holds_ptc_exec(&systems) {
            Some(links.qr_generator_unsafe(thread.hash.as_str()))
        } else {
            None
        };
        Some(ProgramInfo {
            gallery,
            download_key: string_value_exec(values, SBSValue::DOWNLOADKEY),
            qr_link,
            version: string_value_exec(values, SBSValue::VERSION),
            size: string_value_exec(values, SBSValue::SIZE),
        })
    } else {
        None
    };
    let text = render_textcontent(thread.text.as_str(), values, bbcode);
    let cats = if str_eq(thread.literal_type.as_str(), SBSPageType::DOCUMENTATION) {
        None
    } else {
        let mut c: Vec<(String, String)> = Vec::new();
        let mut k: usize = 0;
        while k < categories.len()
            invariant
                k <= categories@.len(),
                c@.len() == k,
                forall|i: int|
                    0 <= i < k ==> (#[trigger] c@[i]).0@ == links.http_root@ + "/search?category="@
                        + decimal_text(categories@[i].id as int) && c@[i].1 == categories@[i].name,
            decreases categories@.len() - k,
        {
            let category = &categories[k];
            c.push((links.search_category(category.id), category.name.clone()));
            k = k + 1;
        }
        Some(c)
    };
    PageView { program, text, categories: cats }
}

/// Whether a list of systems holds the Petit Computer.
pub open spec fn holds_ptc(systems: Seq<Seq<char>>) -> bool {
    exists|i: int| 0 <= i < systems.len() && systems[i] == crate::pages::common::PTCSYSTEM@
}

fn holds_ptc_exec(v: &Vec<String>) -> (r: bool)
    ensures
        r == holds_ptc(strings_view(v@)),
{
    let mut i: usize = 0;
    while i < v.len()
        invariant
            i <= v@.len(),
            forall|j: int| 0 <= j < i ==> strings_view(v@)[j] != crate::pages::common::PTCSYSTEM@,
        decreases v@.len() - i,
    {
        if str_eq(v[i].as_str(), crate::pages::common::PTCSYSTEM) {
            assert(strings_view(v@)[i as int] == crate::pages::common::PTCSYSTEM@);
            return true;
        }
        i = i + 1;
    }
    false
}

} // verus!
