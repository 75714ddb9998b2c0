use tuxmux::cmd::jump::{add, listing, target, JumpError, JumpStep};
use tuxmux::cmd::Jump;
use tuxmux::jumplist::Jumplist;

fn strs(items: &[&str]) -> Vec<String> {
    items.iter().map(|s| s.to_string()).collect()
}

#[test]
fn jumplist_file_is_under_the_data_directory() {
    assert_eq!(Jumplist::path("/data/tuxmux"), "/data/tuxmux/jumplist");
}

#[test]
fn lines_are_cut_at_newlines() {
    assert_eq!(Jumplist::lines("/a\n/b\n"), strs(&["/a", "/b"]));
    assert_eq!(Jumplist::lines("/a\n/b"), strs(&["/a", "/b"]));
    assert_eq!(Jumplist::lines(""), Vec::<String>::new());
    assert_eq!(Jumplist::lines("\n"), strs(&[""]));
    assert_eq!(Jumplist::lines("/a\n\n/b\n"), strs(&["/a", "", "/b"]));
}

#[test]
fn lines_drop_a_carriage_return_before_the_newline() {
    assert_eq!(Jumplist::lines("/a\r\n/b\r\n"), strs(&["/a", "/b"]));
    assert_eq!(Jumplist::lines("/a\r"), strs(&["/a\r"]));
    assert_eq!(Jumplist::lines("/a\r\r\n"), strs(&["/a\r"]));
}

#[test]
fn lines_agree_with_the_standard_library() {
    for text in ["", "a", "a\n", "a\nb", "a\r\nb\r\n", "\n\n", "a\r", "\r\n", "x\n\ny"] {
        let expected: Vec<String> = text.lines().map(|l| l.to_string()).collect();
        assert_eq!(Jumplist::lines(text), expected, "{:?}", text);
    }
}

#[test]
fn load_drops_paths_that_are_not_on_disk() {
    let list = Jumplist::load(strs(&["/a", "/b", "/c"]), &vec![true, false, true]);
    assert_eq!(list.0, strs(&["/a", "/c"]));
}

#[test]
fn load_drops_lines_without_a_word_on_them() {
    let list = Jumplist::load(strs(&["/a", "/b", "/c"]), &vec![true]);
    assert_eq!(list.0, strs(&["/a"]));
}

#[test]
fn load_keeps_duplicates_of_the_file() {
    let list = Jumplist::load(strs(&["/a", "/a"]), &vec![true, true]);
    assert_eq!(list.0, strs(&["/a", "/a"]));
}

#[test]
fn add_appends_a_new_path() {
    let mut list = Jumplist(strs(&["/a"]));
    list.add("/b".to_string());
    assert_eq!(list.0, strs(&["/a", "/b"]));
}

#[test]
fn add_is_idempotent() {
    let mut list = Jumplist(strs(&["/a"]));
    list.add("/b".to_string());
    let once = list.0.clone();
    list.add("/b".to_string());
    assert_eq!(list.0, once);
    list.add("/a".to_string());
    assert_eq!(list.0, once);
}

#[test]
fn get_counts_from_zero() {
    let list = Jumplist(strs(&["/a", "/b"]));
    assert_eq!(list.get(0), Some("/a"));
    assert_eq!(list.get(1), Some("/b"));
    assert_eq!(list.get(2), None);
}

#[test]
fn recall_counts_from_one_and_takes_zero_as_one() {
    let list = Jumplist(strs(&["/a", "/b"]));
    assert_eq!(list.recall(1), Some("/a"));
    assert_eq!(list.recall(2), Some("/b"));
    assert_eq!(list.recall(0), Some("/a"));
    assert_eq!(list.recall(3), None);
    assert_eq!(Jumplist(vec![]).recall(0), None);
}

#[test]
fn write_ends_every_entry_with_a_newline() {
    assert_eq!(Jumplist(strs(&["/a", "/b"])).write(), "/a\n/b\n");
    assert_eq!(Jumplist(vec![]).write(), "");
}

#[test]
fn load_then_write_filters_the_text() {
    let text = "/tmp/ws/alpha\n/gone\n/tmp/ws/beta\n";
    let list = Jumplist::load(Jumplist::lines(text), &vec![true, false, true]);
    assert_eq!(list.write(), "/tmp/ws/alpha\n/tmp/ws/beta\n");
    let all = Jumplist::load(Jumplist::lines(text), &vec![true, true, true]);
    assert_eq!(all.write(), text);
}

#[test]
fn write_load_write_is_a_fixed_point() {
    let list = Jumplist(strs(&["/a", "/b c", ""]));
    let first = list.write();
    let again = Jumplist::load(Jumplist::lines(&first), &vec![true, true, true]);
    assert_eq!(again.0, list.0);
    assert_eq!(again.write(), first);
    let fewer = Jumplist::load(Jumplist::lines(&first), &vec![false, true, true]);
    assert_eq!(fewer.write(), "/b c\n\n");
}

#[test]
fn listing_numbers_from_one() {
    let list = Jumplist(strs(&["/a", "/b"]));
    assert_eq!(listing(&list), strs(&["1: /a", "2: /b"]));
    let long = Jumplist((0..12).map(|i| format!("/dir{}", i)).collect());
    assert_eq!(listing(&long)[9], "10: /dir9");
    assert_eq!(listing(&long)[11], "12: /dir11");
}

#[test]
fn target_names_the_session_after_the_leaf() {
    let list = Jumplist(strs(&["/tmp/ws/my.app", "/"]));
    assert_eq!(target(&list, 1), Some(("my_app".to_string(), "/tmp/ws/my.app".to_string())));
    assert_eq!(target(&list, 2), None);
    assert_eq!(target(&list, 3), None);
}

#[test]
fn jump_asks_for_one_thing() {
    let jump = Jump { edit: true, list: true, index: Some(1), path: None };
    assert_eq!(jump.first_step(), JumpStep::Edit);
    let jump = Jump { edit: false, list: true, index: Some(1), path: None };
    assert_eq!(jump.first_step(), JumpStep::List);
    let jump = Jump { edit: false, list: false, index: Some(3), path: Some("/x".to_string()) };
    assert_eq!(jump.first_step(), JumpStep::Recall(3));
    let jump = Jump { edit: false, list: false, index: None, path: Some("/x".to_string()) };
    assert_eq!(jump.first_step(), JumpStep::Add(Some("/x".to_string())));
    let jump = Jump { edit: false, list: false, index: None, path: None };
    assert_eq!(jump.first_step(), JumpStep::Add(None));
}

#[test]
fn adding_a_missing_path_is_refused() {
    let mut list = Jumplist(strs(&["/a"]));
    assert_eq!(add(&mut list, false, "/nope".to_string()), Err(JumpError::InvalidPath));
    assert_eq!(list.0, strs(&["/a"]));
}

#[test]
fn adding_gives_the_text_for_the_file() {
    let mut list = Jumplist(strs(&["/a"]));
    assert_eq!(add(&mut list, true, "/b".to_string()), Ok("/a\n/b\n".to_string()));
    assert_eq!(add(&mut list, true, "/b".to_string()), Ok("/a\n/b\n".to_string()));
    assert_eq!(list.len(), 2);
}
