use rgm::input::InputStatus;
use rgm::repo::{Repo, Repos, Status};
use rgm::repoview::RepoView;
use rgm::screen::{Action, Key, Screen};

fn record(name: &str) -> Repo {
    Repo::new(
        format!("/src/{}", name),
        String::from(name),
        String::from("main"),
        Some(Status::Clean),
        vec![],
        None,
        vec![],
    )
}

fn screen(names: &[&str]) -> Screen {
    Screen::new(Repos::new(names.iter().map(|n| record(n)).collect()))
}

fn type_command(s: &mut Screen, cmd: &str) {
    s.handle_key(Key::Char(':'));
    for c in cmd.chars().skip(1) {
        s.handle_key(Key::Char(c));
    }
    s.handle_key(Key::Enter);
}

fn strings(words: &[&str]) -> Vec<String> {
    words.iter().map(|w| String::from(*w)).collect()
}

#[test]
fn filter_alpha_hides_only_beta() {
    let mut s = screen(&["alpha", "beta", "alphabeta"]);
    type_command(&mut s, ":/ alpha");
    assert!(!s.repoview.is_hidden(0));
    assert!(s.repoview.is_hidden(1));
    assert!(!s.repoview.is_hidden(2));
    assert_eq!(s.repoview.visible(), vec![0, 2]);
    assert!(!s.input.is_editing());
    assert_eq!(s.input.text(), "");
}

#[test]
fn filter_keeps_selection_and_expansion_of_hidden_records() {
    let mut s = screen(&["alpha", "beta", "gamma"]);
    s.handle_key(Key::Down);
    s.handle_key(Key::Char('v'));
    s.handle_key(Key::Right);
    type_command(&mut s, ":/ foo");
    assert!(s.repoview.is_hidden(0) && s.repoview.is_hidden(1) && s.repoview.is_hidden(2));
    assert_eq!(s.repoview.focus(), None);
    assert!(s.repoview.is_selected(1));
    assert!(s.repoview.is_expanded(1));
    type_command(&mut s, ":f/");
    assert_eq!(s.repoview.visible(), vec![0, 1, 2]);
    assert!(s.repoview.is_selected(1));
    assert!(s.repoview.is_expanded(1));
    assert_eq!(s.repoview.focus(), Some(0));
}

#[test]
fn tag_command_tags_selected_records_only() {
    let mut s = screen(&["a", "b", "c"]);
    s.handle_key(Key::Char('v'));
    s.handle_key(Key::Down);
    s.handle_key(Key::Down);
    s.handle_key(Key::Char('v'));
    type_command(&mut s, ":t work personal");
    let items = s.repoview.items();
    assert_eq!(items[0].tags, strings(&["work", "personal"]));
    assert!(items[1].tags.is_empty());
    assert_eq!(items[2].tags, strings(&["work", "personal"]));
    assert_eq!(s.input.text(), "");
}

#[test]
fn tag_command_with_nothing_selected_changes_nothing() {
    let mut s = screen(&["a", "b"]);
    type_command(&mut s, ":t x");
    assert!(s.repoview.items().iter().all(|r| r.tags.is_empty()));
    assert_eq!(s.input.status, InputStatus::Info);
}

#[test]
fn alias_command_with_one_selected_record() {
    let mut s = screen(&["a", "b"]);
    s.handle_key(Key::Down);
    s.handle_key(Key::Char('v'));
    type_command(&mut s, ":a my short name");
    assert_eq!(s.repoview.items()[1].alias, Some(String::from("my-short-name")));
    assert_eq!(s.repoview.items()[0].alias, None);
    assert_eq!(s.input.text(), "");
    assert!(!s.input.is_editing());
}

#[test]
fn alias_command_warns_without_exactly_one_selection() {
    let mut s = screen(&["a", "b"]);
    type_command(&mut s, ":a x");
    assert_eq!(s.input.status, InputStatus::Warning);
    assert!(s.repoview.items().iter().all(|r| r.alias.is_none()));
    let mut t = screen(&["a", "b"]);
    t.handle_key(Key::Char('v'));
    t.handle_key(Key::Down);
    t.handle_key(Key::Char('v'));
    type_command(&mut t, ":a x");
    assert_eq!(t.input.status, InputStatus::Warning);
    assert_eq!(t.input.text(), "Not applying alias to multiple selected repos");
    assert!(t.repoview.items().iter().all(|r| r.alias.is_none()));
}

#[test]
fn unknown_command_only_leaves_edit_mode() {
    let mut s = screen(&["a"]);
    type_command(&mut s, ":zz top");
    assert!(!s.input.is_editing());
    assert_eq!(s.input.text(), ":zz top");
}

#[test]
fn backspace_keeps_prompt() {
    let mut s = screen(&["a"]);
    s.handle_key(Key::Char('/'));
    s.handle_key(Key::Char('t'));
    s.handle_key(Key::Backspace);
    s.handle_key(Key::Backspace);
    assert_eq!(s.input.text(), ":");
    assert!(s.input.is_editing());
}

#[test]
fn moves_clamp_and_skip_hidden_records() {
    let mut s = screen(&["alpha", "beta", "alphabeta", "gamma"]);
    s.handle_key(Key::Up);
    assert_eq!(s.repoview.focus(), Some(0));
    type_command(&mut s, ":/ alpha");
    s.handle_key(Key::Down);
    assert_eq!(s.repoview.focus(), Some(2));
    s.handle_key(Key::Down);
    assert_eq!(s.repoview.focus(), Some(2));
    s.handle_key(Key::Up);
    assert_eq!(s.repoview.focus(), Some(0));
}

#[test]
fn range_selection_adds_records_left_behind() {
    let mut s = screen(&["a", "b", "c"]);
    s.handle_key(Key::Char('V'));
    s.handle_key(Key::Down);
    s.handle_key(Key::Down);
    assert_eq!(s.repoview.selected(), &vec![0, 1]);
    assert_eq!(s.repoview.focus(), Some(2));
}

#[test]
fn toggle_expanded_twice_collapses() {
    let mut s = screen(&["a"]);
    s.handle_key(Key::Left);
    assert!(s.repoview.is_expanded(0));
    s.handle_key(Key::Right);
    assert!(!s.repoview.is_expanded(0));
}

#[test]
fn quit_and_confirm_keys() {
    let mut s = screen(&["a", "b"]);
    assert!(matches!(s.handle_key(Key::Interrupt), Action::Exit));
    assert!(matches!(s.handle_key(Key::Char('q')), Action::Exit));
    s.handle_key(Key::Down);
    match s.handle_key(Key::Enter) {
        Action::Jump(p) => assert_eq!(p, "/src/b"),
        _ => panic!("expected a jump"),
    }
    let mut empty = screen(&[]);
    assert!(matches!(empty.handle_key(Key::Enter), Action::Exit));
}

#[test]
fn view_starts_on_first_record_with_name_width() {
    let v = RepoView::new(Repos::new(vec![record("ab"), record("abcd")]));
    assert_eq!(v.focus(), Some(0));
    assert_eq!(v.name_width(), 4);
    assert!(v.selected().is_empty());
    assert_eq!(v.curr().map(|r| r.name.clone()), Some(String::from("ab")));
    let repos = v.into_repos();
    assert_eq!(repos.meta.size, 2);
}

#[test]
fn row_and_printer_layout() {
    let r = record("abc");
    let item = rgm::repoitem::RepoItem::new(&r, 7, 0, true, false, 30);
    assert_eq!(item.prefix(), "▼ ");
    assert_eq!(item.padding(), 7);
    let collapsed = rgm::repoitem::RepoItem::new(&r, 3, 0, false, false, 30);
    assert_eq!(collapsed.prefix(), "▶ ");
    let mut p = rgm::repoitem::FlatPrinter::new(record("abc"), 80);
    assert_eq!(p.height(), 1);
    assert_eq!(p.name_padding(4), 6);
    p.toggle_expanded();
    assert_eq!(p.printed(), 5);
    assert_eq!(p.height(), 5);
    p.toggle_selected();
    p.toggle_focused();
    assert!(p.is_selected() && p.is_focused());
    assert_eq!(p.get_repo().name, "abc");
}
