use rgm::repo::{Repo, Repos, Status};
use rgm::sorting::{name_le, sort_by_name, AlphabeticalSorter, PathTree, Sort, TreeSorter};
use std::path::{Component, PathBuf};

fn tree_with_paths(paths: Vec<PathBuf>) -> PathTree {
    let mut tree = PathTree::with_capacity(3);
    for path in paths {
        let components = path
            .components()
            .filter_map(|c| match c {
                Component::Normal(v) => v.to_str(),
                _ => None,
            })
            .collect::<Vec<&'_ str>>();
        for i in 1..components.len() + 1 {
            let parent = components[0..i - 1].join("/");
            let node = components[0..i].join("/");
            tree.add_edge(parent, node);
        }
    }
    tree
}

#[test]
fn test_tree_default() {
    let paths = vec![
        PathBuf::from("/tmp/test/test1"),
        PathBuf::from("/tmp/test1/test1"),
        PathBuf::from("/tmp/test/test2"),
    ];
    let tree = tree_with_paths(paths);
    assert!(tree.nodes().len() == 7);
    assert!(tree.edges().len() == 6);
}

#[test]
fn add_path_builds_same_tree_as_components() {
    let mut tree = PathTree::with_capacity(3);
    tree.add_path("/tmp/test/test1");
    tree.add_path("/tmp/test1/test1/");
    tree.add_path("/tmp/test/test2");
    assert_eq!(tree.nodes().len(), 7);
    assert_eq!(tree.edges().len(), 6);
    assert!(tree.edges().contains(&(String::from("tmp/test"), String::from("tmp/test/test2"))));
    assert!(tree.edges().contains(&(String::new(), String::from("tmp"))));
    tree.add_node(String::from("tmp"));
    tree.add_node(String::from("elsewhere"));
    assert_eq!(tree.nodes().len(), 8);
}

fn record(name: &str, path: &str) -> Repo {
    Repo::new(String::from(path), String::from(name), String::from("main"), Some(Status::Clean), vec![], None, vec![])
}

#[test]
fn alphabetical_sort_orders_names_stably() {
    let repos = Repos::new(vec![
        record("beta", "/1"),
        record("alpha", "/2"),
        record("Zed", "/3"),
        record("alpha", "/4"),
        record("al", "/5"),
    ]);
    let sorted = AlphabeticalSorter.sort(repos);
    let names: Vec<&str> = sorted.repos.iter().map(|r| r.name.as_str()).collect();
    assert_eq!(names, vec!["Zed", "al", "alpha", "alpha", "beta"]);
    let paths: Vec<&str> = sorted.repos.iter().map(|r| r.path.as_str()).collect();
    assert_eq!(paths, vec!["/3", "/5", "/2", "/4", "/1"]);
    assert_eq!(sorted.meta.size, 5);
    assert!(sort_by_name(Repos::new(vec![])).repos.is_empty());
}

#[test]
fn tree_sorter_keeps_order_and_records_paths() {
    let mut sorter = TreeSorter { tree: PathTree::with_capacity(2) };
    let repos = Repos::new(vec![record("b", "/src/b"), record("a", "/src/a")]);
    let out = sorter.sort(repos);
    assert_eq!(out.repos[0].name, "b");
    assert_eq!(out.repos[1].name, "a");
    assert_eq!(sorter.tree.edges().len(), 3);
    assert_eq!(sorter.tree.nodes().len(), 4);
}

#[test]
fn name_order_is_by_characters() {
    assert!(name_le("abc", "abd"));
    assert!(name_le("ab", "abc"));
    assert!(!name_le("abc", "ab"));
    assert!(name_le("", ""));
    assert!(name_le("Z", "a"));
}
