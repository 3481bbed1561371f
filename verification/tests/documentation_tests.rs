use sbs_frontend::pages::documentation::{
    get_all_docpaths, get_all_documentation_query, get_doctree, split_path, DocTreeContent,
    DocTreeNode,
};

fn doc(name: &str, docpath: Option<&str>) -> DocTreeContent {
    DocTreeContent {
        hash: format!("h-{}", name),
        name: name.to_string(),
        values: match docpath {
            Some(p) => vec![(String::from("docpath"), format!("\"{}\"", p))],
            None => Vec::new(),
        },
    }
}

fn find<'a, 'b>(node: &'b DocTreeNode<'a>, name: &str) -> &'b DocTreeNode<'a> {
    node.tree_nodes.iter().find(|n| n.name == name).unwrap()
}

#[test]
fn split_paths() {
    assert_eq!(split_path("/sb4/ref"), vec!["", "sb4", "ref"]);
    assert_eq!(split_path(""), vec![""]);
    assert_eq!(split_path("a//b/"), vec!["a", "", "b", ""]);
}

#[test]
fn docpaths_group_in_first_seen_order() {
    let docs = vec![doc("a", Some("/x")), doc("b", Some("/y")), doc("c", Some("/x")), doc("d", None)];
    let paths = get_all_docpaths(&docs);
    assert_eq!(paths.len(), 2);
    assert_eq!(paths[0].0, "/x");
    assert_eq!(paths[0].1.iter().map(|d| d.name.as_str()).collect::<Vec<_>>(), vec!["a", "c"]);
    assert_eq!(paths[1].0, "/y");
}

#[test]
fn doctree_built_from_paths() {
    let docs = vec![
        doc("print", Some("/sb4/commands")),
        doc("intro", Some("/sb4")),
        doc("input", Some("/sb4/commands")),
        doc("lost", Some("sb3/x")),
        doc("old", Some("/sb3")),
    ];
    let tree = get_doctree(&docs);
    assert_eq!(tree.name, "");
    assert_eq!(tree.tree_nodes.len(), 2);
    let sb4 = find(&tree, "sb4");
    assert_eq!(sb4.page_nodes.iter().map(|d| d.name.as_str()).collect::<Vec<_>>(), vec!["intro"]);
    let commands = find(sb4, "commands");
    assert_eq!(commands.page_nodes.iter().map(|d| d.name.as_str()).collect::<Vec<_>>(), vec!["print", "input"]);
    assert_eq!(find(&tree, "sb3").page_nodes.len(), 1);
}

#[test]
fn fill_path_reuses_nodes() {
    let d1 = doc("a", None);
    let d2 = doc("b", None);
    let mut root = DocTreeNode::new("");
    root.add_content_fill_path(&[String::from("x"), String::from("y")], vec![&d1]);
    root.add_content_fill_path(&[String::from("x"), String::from("y")], vec![&d2]);
    root.add_content_fill_path(&[], vec![&d1]);
    assert_eq!(root.tree_nodes.len(), 1);
    assert_eq!(root.page_nodes.len(), 1);
    assert_eq!(find(find(&root, "x"), "y").page_nodes.len(), 2);
}

#[test]
fn documentation_query() {
    let (q, p) = get_all_documentation_query();
    assert!(q.ends_with(" AND contentType = ? AND literalType = ?"));
    assert_eq!(p.len(), 2);
}
