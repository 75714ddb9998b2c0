use tuxmux::data::{
    normalize_path, parse_number, FinderChoice, Location, PathKind, SettingError, Settings,
};

fn strs(items: &[&str]) -> Vec<String> {
    items.iter().map(|s| s.to_string()).collect()
}

fn file(single: &[&str], workspace: &[&str], depth: Option<usize>, height: Option<usize>) -> Settings {
    Settings {
        single_paths: strs(single),
        workspace_paths: strs(workspace),
        depth,
        height,
        finder: None,
    }
}

#[test]
fn settings_start_with_a_height_of_fifty() {
    let s = Settings::new(None, None);
    assert_eq!(s, file(&[], &[], None, Some(50)));
    assert_eq!(Settings::from_location(None), file(&[], &[], None, None));
    assert_eq!(Settings::empty(), file(&[], &[], None, None));
}

#[test]
fn the_local_file_goes_over_the_global_one() {
    let global = file(&["/s"], &["/w"], Some(3), Some(70));
    let local = file(&["/s", "/t"], &[], Some(4), None);
    let s = Settings::new(Some(global), Some(local));
    assert_eq!(s, file(&["/s", "/t"], &["/w"], Some(4), Some(70)));
}

#[test]
fn heights_are_brought_into_their_range() {
    assert_eq!(Settings::new(Some(file(&[], &[], None, Some(0))), None).height, Some(1));
    assert_eq!(Settings::new(Some(file(&[], &[], None, Some(500))), None).height, Some(100));
    assert_eq!(Settings::new(Some(file(&[], &[], None, Some(100))), None).height, Some(100));
    assert_eq!(Settings::from_location(Some(file(&[], &[], None, Some(1)))).height, Some(1));
}

#[test]
fn merging_keeps_each_path_once() {
    let mut s = file(&["/a"], &["/w"], None, None);
    s.merge(file(&["/b", "/a", "/b"], &["/w", "/w"], None, None));
    assert_eq!(s.single_paths, strs(&["/a", "/b"]));
    assert_eq!(s.workspace_paths, strs(&["/w"]));
}

#[test]
fn the_finder_defaults_to_fzf() {
    let mut s = Settings::empty();
    assert_eq!(s.finder(), FinderChoice::Fzf);
    s.finder = Some(FinderChoice::Skim);
    assert_eq!(s.finder(), FinderChoice::Skim);
    let mut base = Settings::empty();
    base.merge(s);
    assert_eq!(base.finder, Some(FinderChoice::Skim));
}

#[test]
fn settings_files_by_location() {
    assert_eq!(
        Settings::filepath_from_location(Location::Global, "/cfg/tm", "/data/tm"),
        "/cfg/tm/config.toml"
    );
    assert_eq!(
        Settings::filepath_from_location(Location::Local, "/cfg/tm", "/data/tm/"),
        "/data/tm/config.toml"
    );
}

#[test]
fn contains_path_looks_in_both_sets() {
    let s = file(&["/s"], &["/w"], None, None);
    assert!(s.contains_path(&"/s".to_string()));
    assert!(s.contains_path(&"/w".to_string()));
    assert!(!s.contains_path(&"/x".to_string()));
}

#[test]
fn add_path_says_whether_the_path_was_new() {
    let mut s = Settings::empty();
    assert!(s.add_path("/a".to_string(), PathKind::Single));
    assert!(!s.add_path("/a".to_string(), PathKind::Single));
    assert!(s.add_path("/a".to_string(), PathKind::Workspace));
    assert_eq!(s.single_paths, strs(&["/a"]));
    assert_eq!(s.workspace_paths, strs(&["/a"]));
}

#[test]
fn normalize_path_expands_the_home_directory() {
    assert_eq!(normalize_path("~/code", "/home/u"), "/home/u/code");
    assert_eq!(normalize_path("~", "/home/u"), "/home/u");
    assert_eq!(normalize_path("/abs", "/home/u"), "/abs");
    assert_eq!(normalize_path("~x/y", "/home/u"), "~x/y");
}

#[test]
fn numbers_are_read_as_the_standard_library_reads_them() {
    for text in [
        "0", "7", "42", "007", "+5", "+", "", "-1", "1 ", " 1", "1a", "a", "12345678901234567890",
        "18446744073709551615", "18446744073709551616", "99999999999999999999999", "++1", "1+",
        "\u{663}",
    ] {
        assert_eq!(parse_number(text), text.parse::<usize>().ok(), "{:?}", text);
    }
}

#[test]
fn settings_are_set_by_name() {
    let mut s = Settings::empty();
    assert_eq!(s.set_value("depth", "4"), Ok(()));
    assert_eq!(s.set_value("height", "250"), Ok(()));
    assert_eq!(s.set_value("finder", "skim"), Ok(()));
    assert_eq!(s, Settings {
        single_paths: vec![],
        workspace_paths: vec![],
        depth: Some(4),
        height: Some(100),
        finder: Some(FinderChoice::Skim),
    });
    assert_eq!(s.set_value("height", "0"), Ok(()));
    assert_eq!(s.height, Some(1));
    assert_eq!(s.set_value("finder", "fzf"), Ok(()));
    assert_eq!(s.finder, Some(FinderChoice::Fzf));
    assert_eq!(s.set_value("depth", "deep"), Err(SettingError::InvalidNumber));
    assert_eq!(s.set_value("height", ""), Err(SettingError::InvalidNumber));
    assert_eq!(s.set_value("finder", "peco"), Err(SettingError::InvalidFinder));
    assert_eq!(s.set_value("colour", "red"), Err(SettingError::Unknown));
    assert_eq!(s.depth, Some(4));
}

#[test]
fn settings_are_read_by_name() {
    let mut s = Settings::empty();
    assert_eq!(s.get_value("depth"), Ok(None));
    assert_eq!(s.get_value("finder"), Ok(None));
    s.depth = Some(12);
    s.height = Some(50);
    s.finder = Some(FinderChoice::Fzf);
    assert_eq!(s.get_value("depth"), Ok(Some("12".to_string())));
    assert_eq!(s.get_value("height"), Ok(Some("50".to_string())));
    assert_eq!(s.get_value("finder"), Ok(Some("fzf".to_string())));
    assert_eq!(s.get_value("colour"), Err(SettingError::Unknown));
}

#[test]
fn paths_are_registered_once() {
    let mut s = file(&["/s"], &["/w"], None, None);
    let lines = s.add_paths(strs(&["/a", "/s", "/w", "/a", "/b"]), PathKind::Workspace);
    assert_eq!(lines, strs(&["Path exists: /s", "Path exists: /w", "Path exists: /a"]));
    assert_eq!(s.workspace_paths, strs(&["/w", "/a", "/b"]));
    assert_eq!(s.single_paths, strs(&["/s"]));
    let lines = s.add_paths(strs(&["/c"]), PathKind::Single);
    assert_eq!(lines, Vec::<String>::new());
    assert_eq!(s.single_paths, strs(&["/s", "/c"]));
}

#[test]
fn paths_are_listed_with_the_letter_of_their_kind() {
    let s = file(&["/s1", "/s2"], &["/w"], None, None);
    assert_eq!(s.listing(), strs(&["s /s1", "s /s2", "w /w"]));
    assert_eq!(s.removal_choices(), strs(&["w| /w", "s| /s1", "s| /s2"]));
}

#[test]
fn a_choice_for_removal_takes_its_path_out() {
    let mut s = file(&["/s1", "/x"], &["/w", "/x"], None, None);
    assert!(s.remove_choice("s| /x"));
    assert_eq!(s, file(&["/s1"], &["/w", "/x"], None, None));
    assert!(s.remove_choice("w| /x"));
    assert!(!s.remove_choice("w| /x"));
    assert!(!s.remove_choice("s|"));
    assert!(!s.remove_choice(""));
    assert_eq!(s, file(&["/s1"], &["/w"], None, None));
    assert!(s.remove_path("/w", PathKind::Workspace));
    assert!(!s.remove_path("/s1", PathKind::Workspace));
    assert_eq!(s, file(&["/s1"], &[], None, None));
}

#[test]
fn every_choice_for_removal_removes_its_path() {
    let mut s = file(&["/s1", "/s2"], &["/w"], None, None);
    for choice in s.removal_choices() {
        assert!(s.remove_choice(&choice));
    }
    assert_eq!(s, Settings::empty());
}
