use pathmaster::utils::expand_path;
use std::path::PathBuf;

#[test]
fn test_expand_path() {
    let home = dirs_next::home_dir().unwrap();
    let expanded = expand_path("~/test");
    assert_eq!(PathBuf::from(expanded), home.join("test"));
}

#[test]
fn expand_path_leaves_other_paths_alone() {
    assert_eq!(expand_path("/usr/bin"), "/usr/bin");
    assert_eq!(expand_path("relative/dir"), "relative/dir");
    assert_eq!(expand_path(""), "");
    assert_eq!(expand_path("~other/bin"), "~other/bin");
    assert_eq!(expand_path("/a/~/b"), "/a/~/b");
}

#[test]
fn expand_path_replaces_variables_that_are_set() {
    let home = dirs_next::home_dir().unwrap();
    assert_eq!(PathBuf::from(expand_path("~")), home);
    // where the variable is set it is the home directory
    let expanded = expand_path("$HOME/bin");
    assert!(PathBuf::from(&expanded) == home.join("bin") || expanded == "$HOME/bin");
    let braced = expand_path("${HOME}/bin");
    assert!(PathBuf::from(&braced) == home.join("bin") || braced == "${HOME}/bin");
}

#[test]
fn expand_path_keeps_variables_that_are_not_set() {
    assert_eq!(
        expand_path("/a/$PATHMASTER_NO_SUCH_VARIABLE/b"),
        "/a/$PATHMASTER_NO_SUCH_VARIABLE/b"
    );
    let expanded = expand_path("~/$PATHMASTER_NO_SUCH_VARIABLE");
    assert!(expanded.ends_with("/$PATHMASTER_NO_SUCH_VARIABLE"));
    assert!(!expanded.starts_with('~'));
}

#[test]
fn expand_path_keeps_what_follows_the_tilde() {
    let expanded = expand_path("~/some/dir");
    assert!(expanded.ends_with("/some/dir"));
    assert_ne!(expanded, "~/some/dir");
}
