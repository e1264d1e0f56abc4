use wine_launcher::discovery::bottle_names;
use wine_launcher::discovery::find_exes;
use wine_launcher::discovery::find_exes_in_tree;
use wine_launcher::discovery::get_crossover_bottles;
use wine_launcher::discovery::get_directory_keywords;
use wine_launcher::discovery::keyword_list;
use wine_launcher::discovery::scan_game_directories;
use wine_launcher::discovery::scan_tree;
use wine_launcher::discovery::ScanError;
use wine_launcher::fs_model::DirEntryInfo;
use wine_launcher::fs_model::EntryKind;
use wine_launcher::fs_model::FsNode;
use wine_launcher::strings::sort_and_dedup;
use wine_launcher::strings::str_eq;
use wine_launcher::strings::str_lt;

fn file(name: &str) -> FsNode {
    FsNode::File { name: String::from(name) }
}

fn dir(name: &str, children: Vec<FsNode>) -> FsNode {
    FsNode::Dir { name: String::from(name), children }
}

fn entry(name: &str, kind: EntryKind) -> DirEntryInfo {
    DirEntryInfo { name: String::from(name), kind }
}

#[test]
fn bottle_names_keeps_only_directories_in_order() {
    let listing = vec![
        entry("BottleB", EntryKind::Dir),
        entry("stray.txt", EntryKind::File),
        entry("link", EntryKind::Other),
        entry("BottleA", EntryKind::Dir),
    ];
    assert_eq!(bottle_names(&listing), vec![String::from("BottleB"), String::from("BottleA")]);
}

#[test]
fn finds_executables_at_depths_zero_to_five_but_not_six() {
    let tree = vec![
        file("a0.exe"),
        dir(
            "d1",
            vec![
                file("a1.exe"),
                dir(
                    "d2",
                    vec![
                        file("a2.exe"),
                        dir(
                            "d3",
                            vec![
                                file("a3.exe"),
                                dir(
                                    "d4",
                                    vec![
                                        file("a4.exe"),
                                        dir(
                                            "d5",
                                            vec![file("a5.exe"), dir("d6", vec![file("a6.exe")])],
                                        ),
                                    ],
                                ),
                            ],
                        ),
                    ],
                ),
            ],
        ),
    ];
    let mut exes: Vec<String> = Vec::new();
    find_exes_in_tree("/root", &tree, 0, &mut exes);
    assert_eq!(
        exes,
        vec![
            String::from("/root/a0.exe"),
            String::from("/root/d1/a1.exe"),
            String::from("/root/d1/d2/a2.exe"),
            String::from("/root/d1/d2/d3/a3.exe"),
            String::from("/root/d1/d2/d3/d4/a4.exe"),
            String::from("/root/d1/d2/d3/d4/d5/a5.exe"),
        ]
    );
}

#[test]
fn scan_skips_non_exe_files_and_is_case_sensitive() {
    let tree = vec![file("readme.txt"), file("setup.EXE"), file("play.exe"), file("exe")];
    let mut exes: Vec<String> = Vec::new();
    find_exes_in_tree("/g", &tree, 0, &mut exes);
    assert_eq!(exes, vec![String::from("/g/play.exe")]);
}

#[test]
fn scan_appends_after_existing_entries() {
    let tree = vec![file("b.exe")];
    let mut exes = vec![String::from("kept")];
    find_exes_in_tree("/g", &tree, 0, &mut exes);
    assert_eq!(exes, vec![String::from("kept"), String::from("/g/b.exe")]);
}

#[test]
fn scan_starting_past_the_bound_finds_nothing() {
    let tree = vec![file("a.exe")];
    let mut exes: Vec<String> = Vec::new();
    find_exes_in_tree("/g", &tree, 6, &mut exes);
    assert!(exes.is_empty());
}

#[test]
fn scan_reports_only_children_with_executables() {
    let tree = vec![
        dir("no_games", vec![file("readme.txt")]),
        dir("game", vec![file("play.exe")]),
        file("loose.exe"),
    ];
    let infos = scan_tree("/root", &tree);
    assert_eq!(infos.len(), 1);
    assert_eq!(infos[0].dir_name, "game");
    assert_eq!(infos[0].executables, vec![String::from("/root/game/play.exe")]);
}

#[test]
fn scan_collects_nested_executables_per_child() {
    let tree = vec![dir("g", vec![file("a.exe"), dir("sub", vec![file("b.exe")])])];
    let infos = scan_tree("/r", &tree);
    assert_eq!(infos.len(), 1);
    assert_eq!(
        infos[0].executables,
        vec![String::from("/r/g/a.exe"), String::from("/r/g/sub/b.exe")]
    );
}

#[test]
fn keywords_are_sorted_and_deduplicated() {
    let dir_name = String::from("MyGame");
    let listing = vec![
        entry("MyGame.exe", EntryKind::File),
        entry("Launcher.exe", EntryKind::File),
        entry("notes.txt", EntryKind::File),
        entry("data", EntryKind::Dir),
    ];
    let ks = keyword_list(Some(&dir_name), &listing);
    assert_eq!(ks, vec![String::from("Launcher"), String::from("MyGame")]);
}

#[test]
fn keywords_skip_exe_named_directories() {
    let listing = vec![entry("Fake.exe", EntryKind::Dir), entry("Real.exe", EntryKind::File)];
    let ks = keyword_list(None, &listing);
    assert_eq!(ks, vec![String::from("Real")]);
}

#[test]
fn sort_and_dedup_orders_and_drops_duplicates() {
    let v = vec![
        String::from("b"),
        String::from("a"),
        String::from("b"),
        String::from(""),
        String::from("ab"),
    ];
    assert_eq!(
        sort_and_dedup(&v),
        vec![String::from(""), String::from("a"), String::from("ab"), String::from("b")]
    );
}

#[test]
fn string_order_is_by_code_point() {
    assert!(str_lt("a", "b"));
    assert!(str_lt("a", "ab"));
    assert!(str_lt("", "a"));
    assert!(str_lt("A", "a"));
    assert!(!str_lt("b", "a"));
    assert!(!str_lt("a", "a"));
    assert!(str_eq("same", "same"));
    assert!(!str_eq("same", "sane"));
}

#[test]
fn bottles_of_missing_root_fail_with_the_resolved_path() {
    let r = get_crossover_bottles(String::from("/surely_missing_dir_for_tests_1234"));
    match r {
        Err(ScanError::ScanRootInvalid(p)) => {
            assert_eq!(p, "/surely_missing_dir_for_tests_1234");
        }
        _ => panic!("expected a missing-root failure"),
    }
}

#[test]
fn scan_of_missing_root_fails_fast() {
    let r = scan_game_directories(String::from("/surely_missing_dir_for_tests_1234"));
    match r {
        Err(ScanError::ScanRootInvalid(p)) => {
            assert_eq!(p, "/surely_missing_dir_for_tests_1234");
        }
        _ => panic!("expected a missing-root failure"),
    }
}

#[test]
fn scan_error_messages_name_the_path() {
    let e = ScanError::ScanRootInvalid(String::from("/x"));
    assert_eq!(e.message(), "scan root missing or not a directory: /x");
}

#[test]
fn keywords_of_parentless_path_are_empty() {
    let r = get_directory_keywords(String::from("alone"));
    assert_eq!(r.ok(), Some(Vec::new()));
}

#[test]
fn keywords_keep_directory_name_even_when_it_cannot_be_read() {
    let r = get_directory_keywords(String::from("/surely_missing_dir_for_tests_1234/game.exe"));
    assert_eq!(r.ok(), Some(vec![String::from("surely_missing_dir_for_tests_1234")]));
}

#[test]
fn disk_scan_of_missing_directory_adds_nothing() {
    let mut exes = vec![String::from("kept")];
    find_exes("/surely_missing_dir_for_tests_1234", &mut exes, 0);
    assert_eq!(exes, vec![String::from("kept")]);
}
