use rgm::repo::{resolve_status, path_is_under, QueryOpts, Repo, Repos, Resolution, Status, WorkTree};

fn record(path: &str, name: &str) -> Repo {
    Repo::new(
        String::from(path),
        String::from(name),
        String::from("main"),
        Some(Status::Clean),
        vec![String::from("origin")],
        None,
        vec![],
    )
}

fn strings(words: &[&str]) -> Vec<String> {
    words.iter().map(|w| String::from(*w)).collect()
}

#[test]
fn add_tags_skips_duplicates() {
    let mut r = record("/src/a", "a");
    assert!(r.add_tags(&strings(&["work", "work", "home"])));
    assert_eq!(r.tags, strings(&["work", "home"]));
    assert!(!r.add_tags(&strings(&["home", "work"])));
    assert_eq!(r.tags, strings(&["work", "home"]));
    assert!(r.add_tags(&strings(&["home", "x"])));
    assert_eq!(r.tags, strings(&["work", "home", "x"]));
}

#[test]
fn add_alias_overwrites() {
    let mut r = record("/src/a", "a");
    r.add_alias(String::from("first"));
    r.add_alias(String::from("second"));
    assert_eq!(r.alias, Some(String::from("second")));
}

#[test]
fn clean_tree_with_even_remote_is_clean() {
    assert_eq!(resolve_status(WorkTree::Clean, Some((0, 0))), Some(Status::Clean));
}

#[test]
fn clean_tree_two_ahead_one_behind_is_diverged() {
    assert_eq!(resolve_status(WorkTree::Clean, Some((2, 1))), Some(Status::Diverged(2, 1)));
    assert_eq!(resolve_status(WorkTree::Clean, Some((0, 3))), Some(Status::Diverged(0, 3)));
}

#[test]
fn status_from_tree_errors_and_changes() {
    assert_eq!(resolve_status(WorkTree::Bare, None), Some(Status::Bare));
    assert_eq!(resolve_status(WorkTree::Unreadable, Some((0, 0))), None);
    assert_eq!(resolve_status(WorkTree::Dirty, Some((0, 0))), Some(Status::Dirty));
    assert_eq!(resolve_status(WorkTree::Clean, None), None);
}

#[test]
fn status_labels() {
    assert_eq!(Status::Bare.display(), "Empty");
    assert_eq!(Status::Diverged(1, 2).display(), "Diverged");
    assert_eq!(Status::Clean.display(), "Clean");
    assert_eq!(Status::Dirty.display(), "Dirty");
    assert_eq!(Status::Detached.display(), "Detached");
    assert_eq!(Status::Other.display(), "Other");
}

#[test]
fn discovered_record_takes_last_segment_as_name() {
    let r = Repo::discovered(
        String::from("/home/me/src/tool/"),
        String::from("main"),
        WorkTree::Clean,
        Some((0, 0)),
        strings(&["origin", "fork"]),
    );
    assert_eq!(r.name, "tool");
    assert_eq!(r.status, Some(Status::Clean));
    assert_eq!(r.remotes, strings(&["origin", "fork"]));
    assert_eq!(r.alias, None);
    assert!(r.tags.is_empty());
}

#[test]
fn query_by_each_field() {
    let mut r = record("/src/alphabeta", "alphabeta");
    r.add_tags(&strings(&["work"]));
    r.add_alias(String::from("ab"));
    assert!(r.query("pha", QueryOpts::Name));
    assert!(!r.query("gamma", QueryOpts::Name));
    assert!(r.query("or", QueryOpts::Tags));
    assert!(!r.query("pha", QueryOpts::Tags));
    assert!(r.query("ab", QueryOpts::Alias));
    assert!(r.query("wor", QueryOpts::Any));
    assert!(!r.query("zzz", QueryOpts::Any));
}

#[test]
fn longest_name_counts_characters() {
    let repos = Repos::new(vec![record("/a", "ab"), record("/b", "abcde"), record("/c", "abc")]);
    assert_eq!(repos.longest_name(), 5);
    assert_eq!(repos.meta.size, 3);
    assert_eq!(Repos::new(vec![]).longest_name(), 0);
}

#[test]
fn update_twice_gives_same_status() {
    let mut repos = Repos::new(vec![record("/a", "a"), record("/b", "b"), record("/c", "c")]);
    repos.repos[0].add_tags(&strings(&["keep"]));
    let results = || {
        vec![
            Some(Resolution {
                branch: String::from("dev"),
                tree: WorkTree::Clean,
                upstream: Some((2, 1)),
                remotes: strings(&["origin"]),
            }),
            None,
            Some(Resolution { branch: String::from("main"), tree: WorkTree::Dirty, upstream: None, remotes: vec![] }),
        ]
    };
    repos.update(results());
    let first: Vec<Option<Status>> = repos.repos.iter().map(|r| r.status).collect();
    repos.update(results());
    let second: Vec<Option<Status>> = repos.repos.iter().map(|r| r.status).collect();
    assert_eq!(first, second);
    assert_eq!(first, vec![Some(Status::Diverged(2, 1)), Some(Status::Clean), Some(Status::Dirty)]);
    assert_eq!(repos.repos[0].branch, "dev");
    assert_eq!(repos.repos[0].tags, strings(&["keep"]));
    assert_eq!(repos.repos[1].branch, "main");
    assert_eq!(repos.repos[2].remotes.len(), 0);
}

#[test]
fn tag_under_directory_counts_changed_records() {
    let mut repos = Repos::new(vec![
        record("/src/a/", "a"),
        record("/src/ab/", "ab"),
        record("/other/c/", "c"),
    ]);
    assert_eq!(repos.tag_under(&strings(&["t"]), "/src/a"), 1);
    assert_eq!(repos.repos[0].tags, strings(&["t"]));
    assert!(repos.repos[1].tags.is_empty());
    assert_eq!(repos.tag_under(&strings(&["t", "u"]), "/src"), 2);
    assert_eq!(repos.repos[0].tags, strings(&["t", "u"]));
    assert_eq!(repos.repos[1].tags, strings(&["t", "u"]));
    assert!(repos.repos[2].tags.is_empty());
}

#[test]
fn alias_at_matches_exact_path() {
    let mut repos = Repos::new(vec![record("/src/a", "a"), record("/src/b", "b")]);
    assert!(repos.alias_at(String::from("bee"), "/src/b"));
    assert_eq!(repos.repos[1].alias, Some(String::from("bee")));
    assert_eq!(repos.repos[0].alias, None);
    assert!(!repos.alias_at(String::from("x"), "/src"));
}

#[test]
fn path_under_respects_segment_boundaries() {
    assert!(path_is_under("/src/a", "/src/a"));
    assert!(path_is_under("/src/a/b", "/src/a"));
    assert!(path_is_under("/src/a/b", "/src/"));
    assert!(!path_is_under("/src/ab", "/src/a"));
    assert!(!path_is_under("/src", "/src/a"));
}
