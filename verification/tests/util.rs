use tuxmux::util::{
    format_name, get_config, get_editor, get_local, intersperse, is_dot, join_path, leaf_name,
    locate_dir, session_name,
};

#[test]
fn format_name_replaces_every_dot() {
    assert_eq!(format_name("foo.bar.baz"), "foo_bar_baz");
}

#[test]
fn format_name_leaves_no_dot() {
    for name in ["", ".", "...", "a.b", ".hidden", "no dots", "tr\u{e4}il."] {
        let out = format_name(name);
        assert!(!out.contains('.'));
        assert_eq!(out.chars().count(), name.chars().count());
    }
}

#[test]
fn format_name_keeps_other_characters() {
    assert_eq!(format_name("a_b-c d"), "a_b-c d");
    assert_eq!(format_name("\u{fc}ber.mut"), "\u{fc}ber_mut");
}

#[test]
fn leaf_is_the_final_component() {
    assert_eq!(leaf_name("/tmp/ws/alpha"), Some("alpha".to_string()));
    assert_eq!(leaf_name("foo/bar/baz"), Some("baz".to_string()));
    assert_eq!(leaf_name("alpha"), Some("alpha".to_string()));
}

#[test]
fn leaf_passes_over_slashes_and_single_dots() {
    assert_eq!(leaf_name("/tmp/ws/alpha/"), Some("alpha".to_string()));
    assert_eq!(leaf_name("/tmp/ws//alpha///"), Some("alpha".to_string()));
    assert_eq!(leaf_name("/tmp/ws/alpha/."), Some("alpha".to_string()));
    assert_eq!(leaf_name("/tmp/ws/alpha/./"), Some("alpha".to_string()));
}

#[test]
fn leaf_is_missing_for_roots_and_parents() {
    assert_eq!(leaf_name(""), None);
    assert_eq!(leaf_name("/"), None);
    assert_eq!(leaf_name("."), None);
    assert_eq!(leaf_name(".."), None);
    assert_eq!(leaf_name("/tmp/ws/.."), None);
    assert_eq!(leaf_name("/tmp/ws/../"), None);
}

#[test]
fn leaf_agrees_with_the_standard_library() {
    for path in ["/tmp/ws/alpha", "a/b/", "a/./", "a/..", "/", "", "x//y", "./a", "a/.hidden", "..."] {
        let expected = std::path::Path::new(path)
            .file_name()
            .and_then(|s| s.to_str())
            .map(|s| s.to_string());
        assert_eq!(leaf_name(path), expected, "{}", path);
    }
}

#[test]
fn session_name_is_the_formatted_leaf() {
    assert_eq!(session_name("/tmp/ws/my.project"), Some("my_project".to_string()));
    assert_eq!(session_name("/tmp/ws/alpha"), Some("alpha".to_string()));
    assert_eq!(session_name("/"), None);
}

#[test]
fn two_paths_with_one_leaf_share_a_session() {
    assert_eq!(session_name("/a/x.y"), session_name("/b/x_y"));
}

#[test]
fn join_path_puts_one_slash_between() {
    assert_eq!(join_path("/data", "jumplist"), "/data/jumplist");
    assert_eq!(join_path("/data/", "jumplist"), "/data/jumplist");
    assert_eq!(join_path("", "jumplist"), "jumplist");
    assert_eq!(join_path("/data", "/abs"), "/abs");
}

#[test]
fn data_directory_is_the_first_that_is_set() {
    assert_eq!(
        locate_dir(Some("/over"), Some("/xdg"), Some("/plat"), "tuxmux"),
        Some("/over".to_string())
    );
    assert_eq!(
        locate_dir(None, Some("/xdg"), Some("/plat"), "tuxmux"),
        Some("/xdg/tuxmux".to_string())
    );
    assert_eq!(locate_dir(None, None, Some("/plat"), "tuxmux"), Some("/plat/tuxmux".to_string()));
    assert_eq!(locate_dir(None, None, None, "tuxmux"), None);
}

#[test]
fn config_and_data_files() {
    assert_eq!(
        get_config(None, Some("/xdg"), None, "config.kdl"),
        Some("/xdg/tuxmux/config.kdl".to_string())
    );
    assert_eq!(
        get_local(Some("/data"), Some("/xdg"), None, "jumplist"),
        Some("/data/jumplist".to_string())
    );
    assert_eq!(get_config(None, None, None, "config.kdl"), None);
}

#[test]
fn editor_prefers_visual() {
    assert_eq!(get_editor(Some("code".to_string()), Some("vim".to_string())), "code");
    assert_eq!(get_editor(None, Some("vim".to_string())), "vim");
    assert_eq!(get_editor(None, None), "vi");
}

#[test]
fn dot_is_only_the_single_dot() {
    assert!(is_dot("."));
    assert!(!is_dot(".."));
    assert!(!is_dot(""));
    assert!(!is_dot("./"));
}

#[test]
fn intersperse_puts_the_element_between() {
    let mut it = intersperse(
        vec!["a".to_string(), "b".to_string(), "c".to_string()],
        "-".to_string(),
    );
    assert_eq!(it.next(), Some("a".to_string()));
    assert_eq!(it.next(), Some("-".to_string()));
    assert_eq!(it.next(), Some("b".to_string()));
    assert_eq!(it.next(), Some("-".to_string()));
    assert_eq!(it.next(), Some("c".to_string()));
    assert_eq!(it.next(), None);
    assert_eq!(it.next(), None);
}

#[test]
fn intersperse_of_nothing_and_of_one() {
    let mut none = intersperse(vec![], ",".to_string());
    assert_eq!(none.next(), None);
    let mut one = intersperse(vec!["x".to_string()], ",".to_string());
    assert_eq!(one.next(), Some("x".to_string()));
    assert_eq!(one.next(), None);
}

#[test]
fn intersperse_concat_joins() {
    let it = intersperse(vec!["make".to_string(), "test".to_string()], " ".to_string());
    assert_eq!(it.concat(), "make test");
    let mut rest = intersperse(vec!["a".to_string(), "b".to_string()], "\n".to_string());
    rest.next();
    assert_eq!(rest.concat(), "\nb");
}
