use wine_launcher::paths::expand_tilde;
use wine_launcher::paths::file_name_of;
use wine_launcher::paths::has_exe_ext;
use wine_launcher::paths::join_path;
use wine_launcher::paths::parent_dir;
use wine_launcher::paths::resolve_with_home;
use wine_launcher::paths::stem_of;

#[test]
fn plain_paths_pass_through_unchanged() {
    let home = String::from("/home/user");
    assert_eq!(resolve_with_home("/a/b", Some(&home)), "/a/b");
    assert_eq!(resolve_with_home("relative/path", Some(&home)), "relative/path");
    assert_eq!(resolve_with_home("", Some(&home)), "");
    assert_eq!(resolve_with_home("~x/y", Some(&home)), "~x/y");
    assert_eq!(resolve_with_home("~", Some(&home)), "~");
}

#[test]
fn shorthand_without_home_passes_through() {
    assert_eq!(resolve_with_home("~/Games/a.exe", None), "~/Games/a.exe");
}

#[test]
fn shorthand_joins_home() {
    let home = String::from("/home/user");
    assert_eq!(resolve_with_home("~/Games/a.exe", Some(&home)), "/home/user/Games/a.exe");
    assert_eq!(resolve_with_home("~/", Some(&home)), "/home/user/");
}

#[test]
fn the_shorthand_is_stripped_exactly_once() {
    let home = String::from("/home/user");
    assert_eq!(resolve_with_home("~/~/a", Some(&home)), "/home/user/~/a");
}

#[test]
fn absolute_remainder_replaces_home() {
    let home = String::from("/home/user");
    assert_eq!(resolve_with_home("~//tmp/x", Some(&home)), "/tmp/x");
}

#[test]
fn home_with_trailing_separator_gets_no_second_one() {
    let home = String::from("/home/user/");
    assert_eq!(resolve_with_home("~/a", Some(&home)), "/home/user/a");
}

#[test]
fn expand_tilde_keeps_plain_paths() {
    assert_eq!(expand_tilde("/a/b/c"), "/a/b/c");
    assert_eq!(expand_tilde("no/shorthand"), "no/shorthand");
}

#[test]
fn expand_tilde_matches_real_home() {
    if let Some(home) = dirs::home_dir() {
        let home_s = home.to_string_lossy().into_owned();
        if !home_s.is_empty() && home_s.starts_with('/') {
            let expected = if home_s.ends_with('/') {
                format!("{}Games/a.exe", home_s)
            } else {
                format!("{}/Games/a.exe", home_s)
            };
            assert_eq!(expand_tilde("~/Games/a.exe"), expected);
        }
    }
}

#[test]
fn join_path_cases() {
    assert_eq!(join_path("/a", "b"), "/a/b");
    assert_eq!(join_path("/a/", "b"), "/a/b");
    assert_eq!(join_path("", "b"), "b");
    assert_eq!(join_path("/a", "/x"), "/x");
    assert_eq!(join_path("/a", ""), "/a/");
    assert_eq!(join_path("/a", "b/c/d"), "/a/b/c/d");
}

#[test]
fn file_name_cases() {
    assert_eq!(file_name_of("/a/b"), Some(String::from("b")));
    assert_eq!(file_name_of("/a/b/"), Some(String::from("b")));
    assert_eq!(file_name_of("name"), Some(String::from("name")));
    assert_eq!(file_name_of("/"), None);
    assert_eq!(file_name_of(""), None);
    assert_eq!(file_name_of("/a/.."), None);
    assert_eq!(file_name_of("/a/."), None);
}

#[test]
fn parent_cases() {
    assert_eq!(parent_dir("/a/b"), Some(String::from("/a")));
    assert_eq!(parent_dir("/a/b/"), Some(String::from("/a")));
    assert_eq!(parent_dir("/a"), Some(String::from("/")));
    assert_eq!(parent_dir("a//b"), Some(String::from("a")));
    assert_eq!(parent_dir("a"), None);
    assert_eq!(parent_dir("/"), None);
    assert_eq!(parent_dir(""), None);
}

#[test]
fn extension_check_is_exact_and_case_sensitive() {
    assert!(has_exe_ext("game.exe"));
    assert!(has_exe_ext("a.b.exe"));
    assert!(!has_exe_ext("game.EXE"));
    assert!(!has_exe_ext("game.exe.bak"));
    assert!(!has_exe_ext(".exe"));
    assert!(!has_exe_ext("exe"));
    assert!(!has_exe_ext("game"));
}

#[test]
fn stem_cases() {
    assert_eq!(stem_of("game.exe"), "game");
    assert_eq!(stem_of("a.b.c"), "a.b");
    assert_eq!(stem_of(".hidden"), ".hidden");
    assert_eq!(stem_of("noext"), "noext");
}
