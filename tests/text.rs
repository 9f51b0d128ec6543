use rgm::text::{file_name, join, split_words, str_contains, str_eq};
use rgm::utils::{
    config_file, log_file, remove_item_from_vec, rgm_dir, set_item_in_vec, shell_file, shell_init,
    jump_script, toggle_item_in_vec,
};
use rgm::args::ShellType;

#[test]
fn split_drops_empty_words() {
    assert_eq!(split_words(":t  work personal "), vec![":t", "work", "personal"]);
    assert!(split_words("   ").is_empty());
    assert_eq!(split_words("one"), vec!["one"]);
}

#[test]
fn join_with_dashes() {
    let ws: Vec<String> = vec![String::from("a"), String::from("b"), String::from("c")];
    assert_eq!(join(&ws, "-"), "a-b-c");
    assert_eq!(join(&vec![], "-"), "");
}

#[test]
fn file_name_is_last_segment() {
    assert_eq!(file_name("/home/me/tool"), "tool");
    assert_eq!(file_name("/home/me/tool//"), "tool");
    assert_eq!(file_name("tool"), "tool");
    assert_eq!(file_name("/"), "");
}

#[test]
fn substring_and_equality() {
    assert!(str_contains("alphabeta", "habe"));
    assert!(str_contains("alpha", ""));
    assert!(!str_contains("beta", "alpha"));
    assert!(!str_contains("al", "alpha"));
    assert!(str_eq(":/", ":/"));
    assert!(!str_eq(":/", ":f/"));
}

#[test]
fn files_under_program_directory() {
    let dir = rgm_dir("/home/me");
    assert_eq!(dir, "/home/me/.rgm");
    assert_eq!(config_file(&dir), "/home/me/.rgm/rgm.conf");
    assert_eq!(log_file(&dir), "/home/me/.rgm/rgm.log");
    assert_eq!(shell_file(&dir), "/home/me/.rgm/rgm.sh");
    assert_eq!(jump_script("/src/a"), "#!/bin/sh\ncd /src/a");
}

#[test]
fn shell_wrappers_name_their_rc_file() {
    assert!(shell_init(ShellType::Zsh).contains(".zshrc"));
    assert!(shell_init(ShellType::Bash).contains(".bashrc"));
    assert!(shell_init(ShellType::Bash).contains("source $HOME/.rgm/rgm.sh"));
}

#[test]
fn index_set_helpers() {
    let mut v = vec![1usize, 2];
    set_item_in_vec(&mut v, 2);
    assert_eq!(v, vec![1, 2]);
    set_item_in_vec(&mut v, 3);
    assert_eq!(v, vec![1, 2, 3]);
    toggle_item_in_vec(&mut v, 2);
    assert_eq!(v, vec![1, 3]);
    toggle_item_in_vec(&mut v, 2);
    assert_eq!(v, vec![1, 3, 2]);
    remove_item_from_vec(&mut v, 1);
    assert_eq!(v, vec![3, 2]);
}

#[test]
fn error_text_and_run_settings() {
    let e = rgm::error::RgmError::new(String::from("no cache"));
    assert_eq!(e.to_string(), "no cache");
    let s = rgm::args::State::new(Some(String::from("/src")), true);
    assert_eq!(s.path, Some(String::from("/src")));
    assert!(s.verbose);
}
