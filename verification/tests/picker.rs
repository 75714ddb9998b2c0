use tuxmux::config::Mode;
use tuxmux::ui::picker::{height, Key, Outcome, Picker, Refilter};

fn typed(text: &str) -> Picker {
    Picker::new().filter(Some(text))
}

fn query(p: &Picker) -> String {
    p.query()
}

#[test]
fn a_new_picker_is_empty_and_answers_at_once() {
    let p = Picker::new();
    assert!(p.items.is_empty());
    assert_eq!(p.prompt, "");
    assert_eq!(query(&p), "");
    assert_eq!(p.cursor_pos, 0);
    assert_eq!(p.selection, None);
    assert!(!p.should_exit);
    assert!(p.select_single);
}

#[test]
fn the_builder_sets_one_thing_each() {
    let p = Picker::new()
        .items(&vec!["a".to_string()])
        .items(&vec!["b".to_string()])
        .prompt("> ")
        .filter(Some("ab"))
        .single_shot(false);
    assert_eq!(p.items, vec!["a".to_string(), "b".to_string()]);
    assert_eq!(p.prompt, "> ");
    assert_eq!(query(&p), "ab");
    assert_eq!(p.cursor_pos, 2);
    assert!(!p.select_single);
    let p = p.filter(None).set_select_only(true);
    assert_eq!(query(&p), "ab");
    assert!(p.select_single);
}

#[test]
fn the_caret_counts_characters() {
    let p = typed("h\u{e4}");
    assert_eq!(p.cursor_pos, 2);
}

#[test]
fn height_of_each_mode() {
    assert_eq!(height(Mode::Full, 40), 40);
    assert_eq!(height(Mode::Lines(10), 40), 10);
    assert_eq!(height(Mode::Lines(50), 40), 40);
    assert_eq!(height(Mode::Percentage(0.5f32.to_bits()), 40), 20);
    assert_eq!(height(Mode::Percentage(0.5f32.to_bits()), 41), 20);
    assert_eq!(height(Mode::Percentage(0.5f32.to_bits()), 0), 0);
    assert_eq!(height(Mode::Percentage(1.0f32.to_bits()), 40), 40);
    assert_eq!(height(Mode::Percentage(0.25f32.to_bits()), 43), 10);
    assert_eq!(height(Mode::Percentage(0.75f32.to_bits()), 43), 32);
    assert_eq!(height(Mode::Percentage(0.3f32.to_bits()), 10), 3);
    assert_eq!(height(Mode::Percentage(0.7f32.to_bits()), 10), 6);
    assert_eq!(height(Mode::Percentage(f32::MIN_POSITIVE.to_bits()), 65535), 0);
    assert_eq!(height(Mode::Percentage(1), 65535), 0);
}

#[test]
fn height_is_the_floor_of_the_product() {
    for rows in [0u16, 1, 2, 3, 10, 24, 25, 80, 999, 65535] {
        for p in [0.5f32, 0.25, 0.125, 0.75, 1.0, 0.0625, 0.1, 0.3, 0.7, 0.9, 0.99999994, 0.333, 1e-3] {
            let expected = (rows as f64 * p as f64).floor() as u16;
            assert_eq!(height(Mode::Percentage(p.to_bits()), rows), expected, "{} {}", rows, p);
        }
    }
}

#[test]
fn height_never_exceeds_the_rows() {
    assert_eq!(height(Mode::Percentage(1.5f32.to_bits()), 10), 10);
    assert_eq!(height(Mode::Percentage(4194304.0f32.to_bits()), 10), 10);
    assert_eq!(height(Mode::Percentage(f32::INFINITY.to_bits()), 10), 10);
    assert_eq!(height(Mode::Percentage(u32::MAX), 10), 10);
}

#[test]
fn answers_at_once_for_one_match_of_a_query() {
    assert!(typed("a").auto_select(1));
    assert!(!typed("a").auto_select(0));
    assert!(!typed("a").auto_select(2));
    assert!(!Picker::new().auto_select(1));
    assert!(!typed("a").single_shot(false).auto_select(1));
}

#[test]
fn cancel_keys() {
    for key in [Key::Esc, Key::Ctrl('c'), Key::Ctrl('d'), Key::Ctrl('z')] {
        let mut p = typed("x");
        assert_eq!(p.update(key, 3), (Outcome::Cancel, Refilter::Keep));
        assert!(p.should_exit);
        assert_eq!(query(&p), "x");
    }
}

#[test]
fn enter_accepts_the_highlight() {
    let mut p = Picker::new();
    p.clamp(3);
    assert_eq!(p.selection, Some(0));
    p.update(Key::Up, 3);
    assert_eq!(p.update(Key::Enter, 3), (Outcome::Accept(1), Refilter::Keep));
    assert!(p.should_exit);
}

#[test]
fn enter_without_a_match_goes_on() {
    let mut p = Picker::new();
    assert_eq!(p.update(Key::Enter, 0), (Outcome::Continue, Refilter::Keep));
    assert!(!p.should_exit);
    p.selection = Some(5);
    assert_eq!(p.update(Key::Enter, 3), (Outcome::Continue, Refilter::Keep));
    assert!(!p.should_exit);
}

#[test]
fn the_highlight_is_clamped() {
    let mut p = Picker::new();
    p.clamp(0);
    assert_eq!(p.selection, None);
    p.clamp(4);
    assert_eq!(p.selection, Some(0));
    p.selection = Some(4);
    p.clamp(4);
    assert_eq!(p.selection, Some(3));
    p.selection = Some(9);
    p.clamp(4);
    assert_eq!(p.selection, Some(3));
    p.clamp(0);
    assert_eq!(p.selection, None);
}

#[test]
fn up_and_down_move_the_highlight() {
    let mut p = Picker::new();
    p.update(Key::Up, 3);
    assert_eq!(p.selection, Some(0));
    p.update(Key::Up, 3);
    p.update(Key::Ctrl('p'), 3);
    assert_eq!(p.selection, Some(2));
    p.update(Key::Up, 3);
    assert_eq!(p.selection, Some(2));
    p.update(Key::Down, 3);
    p.update(Key::Ctrl('n'), 3);
    assert_eq!(p.selection, Some(0));
    p.update(Key::Down, 3);
    assert_eq!(p.selection, Some(0));
    p.update(Key::Down, 0);
    assert_eq!(p.selection, None);
    p.update(Key::Down, 2);
    assert_eq!(p.selection, Some(0));
}

#[test]
fn left_and_right_move_the_caret() {
    let mut p = typed("ab");
    for key in [Key::Right, Key::Ctrl('f'), Key::Ctrl('l')] {
        p.update(key, 0);
        assert_eq!(p.cursor_pos, 2);
    }
    p.update(Key::Left, 0);
    p.update(Key::Ctrl('b'), 0);
    assert_eq!(p.cursor_pos, 0);
    p.update(Key::Ctrl('h'), 0);
    assert_eq!(p.cursor_pos, 0);
    p.update(Key::Right, 0);
    assert_eq!(p.cursor_pos, 1);
    assert_eq!(query(&p), "ab");
}

#[test]
fn characters_go_in_at_the_caret() {
    let mut p = Picker::new();
    assert_eq!(p.update(Key::Char('a'), 0), (Outcome::Continue, Refilter::Extend));
    assert_eq!(p.update(Key::Char('c'), 0), (Outcome::Continue, Refilter::Extend));
    p.update(Key::Left, 0);
    assert_eq!(p.update(Key::Char('b'), 0), (Outcome::Continue, Refilter::Replace));
    assert_eq!(query(&p), "abc");
    assert_eq!(p.cursor_pos, 2);
}

#[test]
fn a_character_in_the_middle_may_still_extend() {
    let mut p = typed("aa");
    p.update(Key::Left, 0);
    assert_eq!(p.update(Key::Char('a'), 0), (Outcome::Continue, Refilter::Extend));
    assert_eq!(query(&p), "aaa");
}

#[test]
fn backspace_and_delete() {
    let mut p = typed("abc");
    assert_eq!(p.update(Key::Delete, 0), (Outcome::Continue, Refilter::Keep));
    assert_eq!(p.update(Key::Backspace, 0), (Outcome::Continue, Refilter::Replace));
    assert_eq!(query(&p), "ab");
    assert_eq!(p.cursor_pos, 2);
    p.update(Key::Left, 0);
    p.update(Key::Left, 0);
    assert_eq!(p.update(Key::Backspace, 0), (Outcome::Continue, Refilter::Keep));
    assert_eq!(p.update(Key::Delete, 0), (Outcome::Continue, Refilter::Replace));
    assert_eq!(query(&p), "b");
    assert_eq!(p.cursor_pos, 0);
}

#[test]
fn other_keys_change_nothing() {
    let mut p = typed("ab");
    for key in [Key::Tab, Key::Other, Key::Ctrl('x')] {
        assert_eq!(p.update(key, 2), (Outcome::Continue, Refilter::Keep));
    }
    assert_eq!(query(&p), "ab");
    assert_eq!(p.cursor_pos, 2);
    assert_eq!(p.selection, None);
    assert!(!p.should_exit);
}

#[test]
fn the_query_has_a_limit() {
    let long: String = std::iter::repeat('x').take(65535).collect();
    let mut p = typed(&long);
    assert_eq!(p.cursor_pos, 65535);
    assert_eq!(p.update(Key::Char('y'), 0), (Outcome::Continue, Refilter::Keep));
    assert_eq!(p.filter.len(), 65535);
    let longer: String = std::iter::repeat('x').take(65536).collect();
    let p = Picker::new().filter(Some(&longer));
    assert_eq!(p.filter.len(), 0);
}

#[test]
fn marks_are_toggled() {
    let mut p = Picker::new();
    p.toggle_mark(3);
    p.toggle_mark(1);
    assert_eq!(p.marks, vec![3, 1]);
    p.toggle_mark(3);
    assert_eq!(p.marks, vec![1]);
    p.toggle_mark(3);
    assert_eq!(p.marks, vec![1, 3]);
}

#[test]
fn height_agrees_with_exact_arithmetic_on_many_fractions() {
    let mut state: u32 = 0x2545_F491;
    for _ in 0..20000 {
        state = state.wrapping_mul(1664525).wrapping_add(1013904223);
        let bits = 0x3000_0000 + state % (0x3F80_0000 - 0x3000_0000 + 1);
        let rows = (state >> 16) as u16;
        let p = f32::from_bits(bits);
        let expected = (rows as f64 * p as f64).floor() as u16;
        assert_eq!(height(Mode::Percentage(bits), rows), expected, "{} {:e}", rows, p);
    }
}
