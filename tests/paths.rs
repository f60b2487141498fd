use cal2prompt::paths::{contract_tilde, contract_tilde_in, expand_tilde, expand_tilde_in};
use std::path::{Path, PathBuf};

fn home_dir() -> Option<PathBuf> {
    dirs::home_dir()
}

#[test]
fn test_expand_tilde_no_tilde() {
    let path = "/usr/bin";
    let expanded = PathBuf::from(expand_tilde(path));
    assert_eq!(expanded, PathBuf::from("/usr/bin"));
}

#[test]
fn test_expand_tilde_home_only() {
    let expanded = PathBuf::from(expand_tilde("~"));
    let home = home_dir().unwrap();
    assert_eq!(expanded, home);
}

#[test]
fn test_expand_tilde_home_slash() {
    let expanded = PathBuf::from(expand_tilde("~/Documents"));
    let home = home_dir().unwrap();
    assert_eq!(expanded, home.join("Documents"));
}

#[test]
fn test_expand_tilde_user_not_supported() {
    let expanded = PathBuf::from(expand_tilde("~username/bin"));
    assert_eq!(expanded, PathBuf::from("~username/bin"));
}

#[test]
fn test_contract_tilde_outside_home() {
    let path = Path::new("/var/log");
    let contracted = contract_tilde(&path.to_string_lossy());
    assert_eq!(contracted, "/var/log");
}

#[test]
fn test_contract_tilde_exact_home() {
    let home = home_dir().unwrap();
    let contracted = contract_tilde(&home.to_string_lossy());
    assert_eq!(contracted, "~");
}

#[test]
fn test_contract_tilde_home_subdir() {
    let home = home_dir().unwrap();
    let sub_path = home.join("Pictures");
    let contracted = contract_tilde(&sub_path.to_string_lossy());
    assert_eq!(contracted, "~/Pictures");
}

#[test]
fn expansion_against_a_given_home() {
    assert_eq!(expand_tilde_in("~", Some("/home/u")), "/home/u");
    assert_eq!(expand_tilde_in("~/a/b", Some("/home/u")), "/home/u/a/b");
    assert_eq!(expand_tilde_in("~/a", Some("/home/u/")), "/home/u/a");
    assert_eq!(expand_tilde_in("~/a", None), "~/a");
    assert_eq!(expand_tilde_in("~bob", Some("/home/u")), "~bob");
    assert_eq!(contract_tilde_in("/home/u/x", Some("/home/u")), "~/x");
    assert_eq!(contract_tilde_in("/home/user", Some("/home/u")), "/home/user");
    assert_eq!(contract_tilde_in("/home/u", Some("/home/u")), "~");
    assert_eq!(contract_tilde_in("/home/u", None), "/home/u");
}
