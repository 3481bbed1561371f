//! The documentation index: documentation pages arranged in a tree by their paths.
use vstd::prelude::*;
use vstd::string::StringExecFns;

use crate::json::{json_borrowed_str, parse_json_borrowed_str};
use crate::pages::common::contentapi::{
    append_str, get_value, params_view, value_lookup, ContentType, SBSPageType, SBSValue, SqlParam,
    SqlParamView, COMMONCONTENT,
};
use crate::text::{chars_of, str_eq, string_of};

use crate::pages::common::contentapi::{lemma_placeholders_add, lemma_placeholders_at, lemma_query_fragments, placeholders};
verus! {

/// A documentation page, as the index needs it.
#[derive(Clone, Debug)]
pub struct DocTreeContent {
    pub hash: String,
    pub name: String,
    /// The values of the page, in the order they were read; a later key replaces an earlier one.
    pub values: Vec<(String, String)>,
}

/// A node of the documentation tree: its name, the nodes under it and the pages in it.
#[derive(Debug)]
pub struct DocTreeNode<'a> {
    pub name: String,
    pub tree_nodes: Vec<DocTreeNode<'a>>,
    pub page_nodes: Vec<&'a DocTreeContent>,
}

/// A documentation tree in the model.
pub struct DocNode {
    pub name: Seq<char>,
    pub trees: Seq<DocNode>,
    pub pages: Seq<DocTreeContent>,
}

/// The model of a documentation tree.
pub open spec fn doc_view<'a>(t: DocTreeNode<'a>) -> DocNode
    decreases t,
{
    DocNode {
        name: t.name@,
        trees: Seq::new(
            t.tree_nodes@.len(),
            |i: int|
                if 0 <= i < t.tree_nodes@.len() {
                    proof {
                        assert(decreases_to!(t => t.tree_nodes));
                        assert(decreases_to!(t.tree_nodes => t.tree_nodes@));
                        assert(decreases_to!(t.tree_nodes@ => t.tree_nodes@[i]));
                    }
                    doc_view(t.tree_nodes@[i])
                } else {
                    DocNode { name: t.name@, trees: Seq::empty(), pages: Seq::empty() }
                },
        ),
        pages: t.page_nodes@.map_values(|p: &DocTreeContent| *p),
    }
}

impl<'a> View for DocTreeNode<'a> {
    type V = DocNode;

    open spec fn view(&self) -> DocNode {
        doc_view(*self)
    }
}

/// The index of the first node named `name`.
pub open spec fn index_of_name(ts: Seq<DocNode>, name: Seq<char>) -> Option<int>
    decreases ts.len(),
{
    if ts.len() == 0 {
        None
    } else {
        match index_of_name(ts.drop_last(), name) {
            Some(i) => Some(i),
            None => if ts.last().name == name {
                Some(ts.len() - 1)
            } else {
                None
            },
        }
    }
}

/// An empty node with the given name.
pub open spec fn empty_node(name: Seq<char>) -> DocNode {
    DocNode { name, trees: Seq::empty(), pages: Seq::empty() }
}

/// The tree after adding pages at a path below it: the node for each part of the path is the
/// first one with that name, or a new last one.
pub open spec fn fill_path(t: DocNode, path: Seq<Seq<char>>, nodes: Seq<DocTreeContent>) -> DocNode
    decreases path.len(),
{
    if path.len() == 0 {
        DocNode { name: t.name, trees: t.trees, pages: t.pages + nodes }
    } else {
        match index_of_name(t.trees, path[0]) {
            Some(i) => DocNode {
                name: t.name,
                trees: t.trees.update(i, fill_path(t.trees[i], path.drop_first(), nodes)),
                pages: t.pages,
            },
            None => DocNode {
                name: t.name,
                trees: t.trees.push(fill_path(empty_node(path[0]), path.drop_first(), nodes)),
                pages: t.pages,
            },
        }
    }
}

proof fn lemma_index_of_name(ts: Seq<DocNode>, name: Seq<char>, k: int)
    requires
        0 <= k <= ts.len(),
        forall|j: int| 0 <= j < k ==> (#[trigger] ts[j]).name != name,
    ensures
        k < ts.len() && ts[k].name == name ==> index_of_name(ts, name) == Some(k),
        k == ts.len() ==> index_of_name(ts, name) is None,
{
    if k == ts.len() {
        lemma_index_of_name_none(ts, name);
    } else if ts[k].name == name {
        lemma_index_of_name_prefix(ts, name, k);
    }
}

proof fn lemma_index_of_name_prefix(ts: Seq<DocNode>, name: Seq<char>, k: int)
    requires
        0 <= k < ts.len(),
        ts[k].name == name,
        forall|j: int| 0 <= j < k ==> (#[trigger] ts[j]).name != name,
    ensures
        index_of_name(ts, name) == Some(k),
    decreases ts.len(),
{
    if k < ts.len() - 1 {
        lemma_index_of_name_prefix(ts.drop_last(), name, k);
    } else {
        lemma_index_of_name_none(ts.drop_last(), name);
    }
}

proof fn lemma_index_of_name_none(ts: Seq<DocNode>, name: Seq<char>)
    requires
        forall|j: int| 0 <= j < ts.len() ==> (#[trigger] ts[j]).name != name,
    ensures
        index_of_name(ts, name) is None,
    decreases ts.len(),
{
    if ts.len() > 0 {
        lemma_index_of_name_none(ts.drop_last(), name);
    }
}

impl<'a> DocTreeNode<'a> {
    /// An empty node with the given name.
    pub fn new(name: &str) -> (r: Self)
        ensures
            r@ == empty_node(name@),
    {
        let r = DocTreeNode { name: String::from_str(name), tree_nodes: Vec::new(), page_nodes: Vec::new() };
        assert(r@.trees =~= Seq::<DocNode>::empty());
        assert(r@.pages =~= Seq::<DocTreeContent>::empty());
        r
    }

    /// Add pages at a path below this node, creating the nodes of the path that are missing.
    pub fn add_content_fill_path(&mut self, path: &[String], nodes: Vec<&'a DocTreeContent>)
        ensures
            final(self)@ == fill_path(old(self)@, path@.map_values(|s: String| s@), nodes@.map_values(|p: &DocTreeContent| *p)),
        decreases path@.len(),
    {
        let ghost old_view = self@;
        let ghost p = path@.map_values(|s: String| s@);
        let ghost ns = nodes@.map_values(|q: &DocTreeContent| *q);
        if path.len() == 0 {
            let ghost before = self.page_nodes@;
            let mut nodes = nodes;
            self.page_nodes.append(&mut nodes);
            proof {
                let v = doc_view(*self);
                assert(v.pages =~= old_view.pages + ns);
                assert forall|j: int| 0 <= j < v.trees.len() implies v.trees[j] == old_view.trees[j] by {
                }
                assert(v.trees =~= old_view.trees);
            }
            return;
        }
        let part = &path[0];
        let rest = vstd::slice::slice_subrange(path, 1, path.len());
        assert(rest@.map_values(|s: String| s@) =~= p.drop_first());
        let ghost ts = old_view.trees;
        let mut i: usize = 0;
        while i < self.tree_nodes.len()
            invariant
                i <= self.tree_nodes@.len(),
                self.tree_nodes@.len() == ts.len(),
                ts == old_view.trees,
                old_view == doc_view(*old(self)),
                self == old(self),
                forall|j: int| 0 <= j < ts.len() ==> #[trigger] ts[j] == doc_view(self.tree_nodes@[j]),
                forall|j: int| 0 <= j < i ==> (#[trigger] ts[j]).name != part@,
            ensures
                i <= self.tree_nodes@.len(),
                self.tree_nodes@.len() == ts.len(),
                self == old(self),
                forall|j: int| 0 <= j < ts.len() ==> #[trigger] ts[j] == doc_view(self.tree_nodes@[j]),
                forall|j: int| 0 <= j < i ==> (#[trigger] ts[j]).name != part@,
                i < self.tree_nodes@.len() ==> ts[i as int].name == part@,
            decreases self.tree_nodes@.len() - i,
        {
            if str_eq(self.tree_nodes[i].name.as_str(), part.as_str()) {
                assert(ts[i as int].name == doc_view(self.tree_nodes@[i as int]).name);
                break;
            }
            i = i + 1;
        }
        let ghost kids = self.tree_nodes@;
        if i < self.tree_nodes.len() {
            proof {
                assert(ts[i as int].name == part@);
                lemma_index_of_name(ts, part@, i as int);
            }
            let mut child = self.tree_nodes.remove(i);
            child.add_content_fill_path(rest, nodes);
            self.tree_nodes.insert(i, child);
            proof {
                let v = doc_view(*self);
                assert(self.tree_nodes@ =~= kids.update(i as int, child));
                assert forall|j: int| 0 <= j < ts.len() implies v.trees[j] == ts.update(
                    i as int,
                    fill_path(ts[i as int], p.drop_first(), ns),
                )[j] by {
                    assert(v.trees[j] == doc_view(self.tree_nodes@[j]));
                }
                assert(v.trees =~= ts.update(i as int, fill_path(ts[i as int], p.drop_first(), ns)));
                assert(v.pages =~= old_view.pages);
            }
        } else {
            proof {
                lemma_index_of_name(ts, part@, i as int);
            }
            let mut child = DocTreeNode::new(part.as_str());
            child.add_content_fill_path(rest, nodes);
            self.tree_nodes.push(child);
            proof {
                let v = doc_view(*self);
                assert(self.tree_nodes@ =~= kids.push(child));
                assert forall|j: int| 0 <= j < ts.len() + 1 implies v.trees[j] == ts.push(
                    fill_path(empty_node(p[0]), p.drop_first(), ns),
                )[j] by {
                    assert(v.trees[j] == doc_view(self.tree_nodes@[j]));
                }
                assert(v.trees =~= ts.push(fill_path(empty_node(p[0]), p.drop_first(), ns)));
                assert(v.pages =~= old_view.pages);
            }
        }
    }
}

/// The node reached by following names down from `t`, taking the first child with each name.
pub open spec fn node_at(t: DocNode, path: Seq<Seq<char>>) -> Option<DocNode>
    decreases path.len(),
{
    if path.len() == 0 {
        Some(t)
    } else {
        match index_of_name(t.trees, path[0]) {
            Some(i) => node_at(t.trees[i], path.drop_first()),
            None => None,
        }
    }
}

/// The pages at a path below `t` (none when the path leads nowhere).
pub open spec fn pages_at(t: DocNode, path: Seq<Seq<char>>) -> Seq<DocTreeContent> {
    match node_at(t, path) {
        Some(n) => n.pages,
        None => Seq::empty(),
    }
}

proof fn lemma_index_of_name_char(ts: Seq<DocNode>, name: Seq<char>)
    ensures
        match index_of_name(ts, name) {
            Some(i) => 0 <= i < ts.len() && ts[i].name == name && forall|j: int|
                0 <= j < i ==> (#[trigger] ts[j]).name != name,
            None => forall|j: int| 0 <= j < ts.len() ==> (#[trigger] ts[j]).name != name,
        },
    decreases ts.len(),
{
    if ts.len() > 0 {
        lemma_index_of_name_char(ts.drop_last(), name);
        assert(forall|j: int| 0 <= j < ts.len() - 1 ==> ts.drop_last()[j] == ts[j]);
    }
}

proof fn lemma_fill_path_name(t: DocNode, path: Seq<Seq<char>>, nodes: Seq<DocTreeContent>)
    ensures
        fill_path(t, path, nodes).name == t.name,
{
}

proof fn lemma_pages_at_empty_node(name: Seq<char>, path: Seq<Seq<char>>)
    ensures
        pages_at(empty_node(name), path) == Seq::<DocTreeContent>::empty(),
{
    if path.len() > 0 {
        lemma_index_of_name_none(Seq::<DocNode>::empty(), path[0]);
    }
}

/// What is added at a path can be read back there: after adding pages at a path, the pages
/// at that path are the ones there before (none if the path did not exist) followed by the
/// new ones.
pub proof fn law_fill_path_reads_back(t: DocNode, path: Seq<Seq<char>>, nodes: Seq<DocTreeContent>)
    ensures
        pages_at(fill_path(t, path, nodes), path) == pages_at(t, path) + nodes,
    decreases path.len(),
{
    if path.len() == 0 {
        assert(pages_at(t, path) == t.pages);
    } else {
        let rest = path.drop_first();
        let f = fill_path(t, path, nodes);
        lemma_index_of_name_char(t.trees, path[0]);
        match index_of_name(t.trees, path[0]) {
            Some(i) => {
                let child = fill_path(t.trees[i], rest, nodes);
                lemma_fill_path_name(t.trees[i], rest, nodes);
                let ts2 = t.trees.update(i, child);
                assert(f.trees == ts2);
                assert forall|j: int| 0 <= j < i implies (#[trigger] ts2[j]).name != path[0] by {
                    assert(ts2[j] == t.trees[j]);
                }
                lemma_index_of_name(ts2, path[0], i);
                law_fill_path_reads_back(t.trees[i], rest, nodes);
            },
            None => {
                let child = fill_path(empty_node(path[0]), rest, nodes);
                lemma_fill_path_name(empty_node(path[0]), rest, nodes);
                let ts2 = t.trees.push(child);
                assert(f.trees == ts2);
                assert forall|j: int| 0 <= j < t.trees.len() implies (#[trigger] ts2[j]).name != path[0] by {
                    assert(ts2[j] == t.trees[j]);
                }
                lemma_index_of_name(ts2, path[0], t.trees.len() as int);
                law_fill_path_reads_back(empty_node(path[0]), rest, nodes);
                lemma_pages_at_empty_node(path[0], rest);
                assert(pages_at(t, path) =~= Seq::<DocTreeContent>::empty());
                assert(Seq::<DocTreeContent>::empty() + nodes =~= nodes);
            },
        }
    }
}

/// The documentation path of a page: its `docpath` value read as a json string.
pub open spec fn docpath_of(d: DocTreeContent) -> Option<Seq<char>> {
    match value_lookup(d.values@, SBSValue::DOCPATH@) {
        Some(t) => json_borrowed_str(t),
        None => None,
    }
}

/// The index of the entry for `key`.
pub open spec fn index_of_key(entries: Seq<(Seq<char>, Seq<DocTreeContent>)>, key: Seq<char>) -> Option<int>
    decreases entries.len(),
{
    if entries.len() == 0 {
        None
    } else {
        match index_of_key(entries.drop_last(), key) {
            Some(i) => Some(i),
            None => if entries.last().0 == key {
                Some(entries.len() - 1)
            } else {
                None
            },
        }
    }
}

/// The pages grouped by documentation path, paths in the order first seen, pages in order.
/// Pages without a path (or with one that does not read) are left out.
pub open spec fn docpaths_spec(docs: Seq<DocTreeContent>) -> Seq<(Seq<char>, Seq<DocTreeContent>)>
    decreases docs.len(),
{
    if docs.len() == 0 {
        Seq::empty()
    } else {
        let r = docpaths_spec(docs.drop_last());
        let d = docs.last();
        match docpath_of(d) {
            Some(p) => match index_of_key(r, p) {
                Some(i) => r.update(i, (p, r[i].1.push(d))),
                None => r.push((p, seq![d])),
            },
            None => r,
        }
    }
}

/// The model of a list of paths with their pages.
pub open spec fn entries_view<'a>(v: Seq<(String, Vec<&'a DocTreeContent>)>) -> Seq<(Seq<char>, Seq<DocTreeContent>)> {
    v.map_values(|e: (String, Vec<&'a DocTreeContent>)| (e.0@, e.1@.map_values(|p: &DocTreeContent| *p)))
}

proof fn lemma_index_of_key(es: Seq<(Seq<char>, Seq<DocTreeContent>)>, key: Seq<char>, k: int)
    requires
        0 <= k <= es.len(),
        forall|j: int| 0 <= j < k ==> (#[trigger] es[j]).0 != key,
        k < es.len() ==> es[k].0 == key,
    ensures
        k < es.len() ==> index_of_key(es, key) == Some(k),
        k == es.len() ==> index_of_key(es, key) is None,
    decreases es.len(),
{
    if es.len() > 0 {
        if k < es.len() - 1 {
            lemma_index_of_key(es.drop_last(), key, k);
        } else if k == es.len() - 1 {
            lemma_index_of_key(es.drop_last(), key, k);
        } else {
            lemma_index_of_key(es.drop_last(), key, k - 1);
        }
    }
}

/// Group the documentation pages by their paths.
pub fn get_all_docpaths<'a>(documentation: &'a Vec<DocTreeContent>) -> (r: Vec<(String, Vec<&'a DocTreeContent>)>)
    ensures
        entries_view(r@) == docpaths_spec(documentation@),
{
    let mut result: Vec<(String, Vec<&'a DocTreeContent>)> = Vec::new();
    let mut k: usize = 0;
    while k < documentation.len()
        invariant
            k <= documentation@.len(),
            entries_view(result@) == docpaths_spec(documentation@.take(k as int)),
        decreases documentation@.len() - k,
    {
        let doc = &documentation[k];
        let ghost docs1 = documentation@.take(k as int + 1);
        assert(docs1.drop_last() =~= documentation@.take(k as int));
        assert(docs1.last() == *doc);
        let ghost es = entries_view(result@);
        if let Some(docpath) = get_value(&doc.values, SBSValue::DOCPATH) {
            if let Some(v) = parse_json_borrowed_str(docpath.as_str()) {
                let mut i: usize = 0;
                while i < result.len()
                    invariant
                        i <= result@.len(),
                        es == entries_view(result@),
                        forall|j: int| 0 <= j < i ==> (#[trigger] es[j]).0 != v@,
                    ensures
                        i <= result@.len(),
                        forall|j: int| 0 <= j < i ==> (#[trigger] es[j]).0 != v@,
                        i < result@.len() ==> es[i as int].0 == v@,
                    decreases result@.len() - i,
                {
                    if str_eq(result[i].0.as_str(), v.as_str()) {
                        break;
                    }
                    i = i + 1;
                }
                proof {
                    lemma_index_of_key(es, v@, i as int);
                }
                if i < result.len() {
                    let ghost r0 = result@;
                    let entry = result.remove(i);
                    assert(entry == r0[i as int]);
                    let (key, mut list) = entry;
                    let ghost l0 = list@;
                    list.push(doc);
                    assert(list@.map_values(|p: &DocTreeContent| *p) =~= l0.map_values(|p: &DocTreeContent| *p).push(*doc));
                    let ghost newe = (key, list);
                    result.insert(i, (key, list));
                    assert(result@ =~= r0.update(i as int, newe));
                    assert(entries_view(result@) =~= es.update(i as int, (v@, es[i as int].1.push(*doc))));
                } else {
                    let ghost r0 = result@;
                    let mut list: Vec<&'a DocTreeContent> = Vec::new();
                    list.push(doc);
                    assert(list@.map_values(|p: &DocTreeContent| *p) =~= seq![*doc]);
                    let ghost newe = (v, list);
                    result.push((v, list));
                    assert(result@ =~= r0.push(newe));
                    assert(entries_view(result@) =~= es.push((v@, seq![*doc])));
                }
            }
        }
        k = k + 1;
    }
    assert(documentation@.take(documentation@.len() as int) =~= documentation@);
    result
}

/// The parts of a text between the separators, as `str::split` gives them: one more part
/// than there are separators, empty parts included.
pub open spec fn split_on(s: Seq<char>, sep: char) -> Seq<Seq<char>>
    decreases s.len(),
{
    if s.len() == 0 {
        seq![Seq::empty()]
    } else {
        let r = split_on(s.drop_last(), sep);
        if s.last() == sep {
            r.push(Seq::empty())
        } else {
            r.update(r.len() - 1, r.last().push(s.last()))
        }
    }
}

proof fn lemma_split_on_len(s: Seq<char>, sep: char)
    ensures
        split_on(s, sep).len() >= 1,
    decreases s.len(),
{
    if s.len() > 0 {
        lemma_split_on_len(s.drop_last(), sep);
    }
}

/// Split a documentation path at its slashes.
pub fn split_path(path: &str) -> (r: Vec<String>)
    ensures
        r@.map_values(|s: String| s@) == split_on(path@, '/'),
        r@.len() >= 1,
{
    let chars = chars_of(path);
    let mut parts: Vec<String> = Vec::new();
    let mut current: Vec<char> = Vec::new();
    let mut i: usize = 0;
    while i < chars.len()
        invariant
            i <= chars@.len(),
            chars@ == path@,
            parts@.map_values(|s: String| s@).push(current@) == split_on(chars@.take(i as int), '/'),
        decreases chars@.len() - i,
    {
        let ghost before = parts@.map_values(|s: String| s@).push(current@);
        assert(chars@.take(i as int + 1).drop_last() =~= chars@.take(i as int));
        assert(chars@.take(i as int + 1).last() == chars@[i as int]);
        proof {
            lemma_split_on_len(chars@.take(i as int), '/');
        }
        if chars[i] == '/' {
            let ghost pv = parts@.map_values(|s: String| s@);
            parts.push(string_of(current.as_slice()));
            current = Vec::new();
            assert(parts@.map_values(|s: String| s@) =~= pv.push(before.last()));
            assert(parts@.map_values(|s: String| s@).push(current@) =~= before.push(Seq::empty()));
        } else {
            let ghost pv = parts@.map_values(|s: String| s@);
            current.push(chars[i]);
            assert(pv.push(current@) =~= before.update(before.len() - 1, before.last().push(chars@[i as int])));
        }
        i = i + 1;
    }
    assert(chars@.take(chars@.len() as int) =~= chars@);
    let ghost pv = parts@.map_values(|s: String| s@);
    parts.push(string_of(current.as_slice()));
    assert(parts@.map_values(|s: String| s@) =~= pv.push(current@));
    parts
}

/// The documentation tree after adding the first `n` paths with their pages: a path is
/// placed below the root by its parts after the leading slash; a path not starting with a
/// slash is dropped.
pub open spec fn doctree_spec(entries: Seq<(Seq<char>, Seq<DocTreeContent>)>, n: int) -> DocNode
    decreases n,
{
    if n <= 0 {
        empty_node(Seq::empty())
    } else {
        let t = doctree_spec(entries, n - 1);
        let parts = split_on(entries[n - 1].0, '/');
        if parts[0].len() > 0 {
            t
        } else {
            fill_path(t, parts.drop_first(), entries[n - 1].1)
        }
    }
}

/// Build the documentation tree and return its root, which has no name; the trees of the
/// different systems hang below it.
pub fn get_doctree<'a>(documentation: &'a Vec<DocTreeContent>) -> (r: DocTreeNode<'a>)
    ensures
        r@ == doctree_spec(docpaths_spec(documentation@), docpaths_spec(documentation@).len() as int),
{
    let docpaths = get_all_docpaths(documentation);
    let ghost es = entries_view(docpaths@);
    let mut root_node = DocTreeNode::new("");
    assert(""@ =~= Seq::<char>::empty()) by {
        reveal_strlit("");
    }
    let n = docpaths.len();
    let mut docpaths = docpaths;
    let mut k: usize = 0;
    while docpaths.len() > 0
        invariant
            n == es.len(),
            k + docpaths@.len() == n,
            entries_view(docpaths@) == es.subrange(k as int, n as int),
            root_node@ == doctree_spec(es, k as int),
        decreases docpaths@.len(),
    {
        let ghost rest_before = docpaths@;
        assert(entries_view(rest_before)[0] == es[k as int]);
        let entry = docpaths.remove(0);
        assert(entry == rest_before[0]);
        assert(docpaths@ =~= rest_before.subrange(1, rest_before.len() as int));
        assert forall|j: int| 0 <= j < docpaths@.len() implies entries_view(docpaths@)[j] == es.subrange(
            k as int + 1,
            n as int,
        )[j] by {
            assert(docpaths@[j] == rest_before[j + 1]);
            assert(entries_view(rest_before)[j + 1] == es.subrange(k as int, n as int)[j + 1]);
        }
        assert(entries_view(docpaths@) =~= es.subrange(k as int + 1, n as int));
        let (path, content) = entry;
        assert(es[k as int] == (path@, content@.map_values(|p: &DocTreeContent| *p)));
        let path_parts = split_path(path.as_str());
        if path_parts[0].as_str().is_empty() {
            let rest = vstd::slice::slice_subrange(path_parts.as_slice(), 1, path_parts.len());
            assert(rest@.map_values(|s: String| s@) =~= split_on(path@, '/').drop_first());
            root_node.add_content_fill_path(rest, content);
        }
        k = k + 1;
    }
    root_node
}

/// The query text holds one placeholder for each parameter of its query.
proof fn lemma_all_documentation_text_placeholders()
    ensures
        placeholders(all_documentation_text()) == 2,
{
    lemma_query_fragments();
    reveal_strlit("SELECT hash,name FROM content WHERE ");
    lemma_placeholders_at("SELECT hash,name FROM content WHERE "@, Set::<int>::empty());
    reveal_strlit(" AND contentType = ? AND literalType = ?");
    lemma_placeholders_at(" AND contentType = ? AND literalType = ?"@, set![19int, 39int]);
    lemma_placeholders_add("SELECT hash,name FROM content WHERE "@, COMMONCONTENT@);
    lemma_placeholders_add("SELECT hash,name FROM content WHERE "@ + COMMONCONTENT@, " AND contentType = ? AND literalType = ?"@);
}

/// The query text finding every documentation page.
pub open spec fn all_documentation_text() -> Seq<char> {
    "SELECT hash,name FROM content WHERE "@ + COMMONCONTENT@ + " AND contentType = ? AND literalType = ?"@
}

/// The query (and its parameters) finding every documentation page.
pub fn get_all_documentation_query() -> (r: (String, Vec<SqlParam>))
    ensures
        r.0@ == all_documentation_text(),
        params_view(r.1@) == seq![
            SqlParamView::Int(ContentType::PAGE as i64),
            SqlParamView::Text(SBSPageType::DOCUMENTATION@),
        ],
        placeholders(r.0@) == r.1@.len(),
{
    let q = append_str(String::new(), "SELECT hash,name FROM content WHERE ");
    let q = append_str(q, COMMONCONTENT);
    let q = append_str(q, " AND contentType = ? AND literalType = ?");
    assert(q@ =~= all_documentation_text());
    let mut params: Vec<SqlParam> = Vec::new();
    params.push(SqlParam::Int(ContentType::PAGE as i64));
    params.push(SqlParam::Text(String::from_str(SBSPageType::DOCUMENTATION)));
    assert(params_view(params@) =~= seq![
        SqlParamView::Int(ContentType::PAGE as i64),
        SqlParamView::Text(SBSPageType::DOCUMENTATION@),
    ]);
    proof {
        lemma_all_documentation_text_placeholders();
    }
    (q, params)
}

} // verus!
