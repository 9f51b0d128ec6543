use rgm::scan::{is_prefix, ScanAction, Scanner};

fn comps(p: &str) -> Vec<String> {
    p.split('/').filter(|c| !c.is_empty()).map(String::from).collect()
}

#[test]
fn scanner_records_roots_and_skips_inside() {
    let mut s = Scanner::new();
    assert_eq!(s.visit(comps("/w"), 0, true, false), ScanAction::Descend);
    assert_eq!(s.visit(comps("/w/file.txt"), 1, false, false), ScanAction::Ignore);
    assert_eq!(s.visit(comps("/w/a"), 1, true, true), ScanAction::Found);
    assert_eq!(s.visit(comps("/w/a/sub"), 2, true, true), ScanAction::SkipDir);
    assert_eq!(s.visit(comps("/w/.cache"), 1, true, true), ScanAction::SkipDir);
    assert_eq!(s.visit(comps("/w/b"), 1, true, false), ScanAction::Descend);
    assert_eq!(s.visit(comps("/w/b/c"), 2, true, true), ScanAction::Found);
    assert_eq!(s.visit(comps("/w/b"), 1, true, true), ScanAction::SkipDir);
    assert_eq!(s.roots(), &vec![comps("/w/a"), comps("/w/b/c")]);
}

#[test]
fn scanner_does_not_skip_dotted_start_directory() {
    let mut s = Scanner::new();
    assert_eq!(s.visit(comps("/home/.dots"), 0, true, true), ScanAction::Found);
    assert_eq!(s.roots().len(), 1);
}

#[test]
fn prefix_of_components() {
    assert!(is_prefix(&comps("/a/b"), &comps("/a/b/c")));
    assert!(is_prefix(&comps("/a/b"), &comps("/a/b")));
    assert!(!is_prefix(&comps("/a/bc"), &comps("/a/b/c")));
    assert!(!is_prefix(&comps("/a/b/c"), &comps("/a/b")));
}
