use tuxmux::config::document::{read_document, Child, Entry, Node, Span, Value, ValueKind};
use tuxmux::config::parser::{interpret, interpret_node};
use tuxmux::config::fraction::{fraction, widen, DOUBLE_ONE_BITS};
use tuxmux::config::{
    expand_home, fraction_in_range, Config, Mode, ParseError, Parser, Source, WorktreeMode,
    HALF_BITS, ONE_BITS,
};
use tuxmux::mux::MuxKind;

fn strs(items: &[&str]) -> Vec<String> {
    items.iter().map(|s| s.to_string()).collect()
}

fn parse(text: &str) -> Result<Config, ParseError> {
    Parser::new(Source::new("config.kdl".to_string(), text.to_string()))
        .home(Some("/home/u".to_string()))
        .parse()
}

fn nowhere() -> Span {
    Span { offset: 0, len: 0 }
}

fn arg(value: Value) -> Entry {
    Entry { name: None, value, span: nowhere() }
}

fn node(name: &str, entries: Vec<Entry>, children: Option<Vec<Child>>) -> Node {
    Node { name: name.to_string(), name_span: nowhere(), span: nowhere(), entries, children }
}

fn child(name: &str, entries: Vec<Entry>) -> Child {
    Child { name: name.to_string(), name_span: nowhere(), span: nowhere(), entries }
}

#[test]
fn initial_settings() {
    let config = Config::new(Some("/home/u"));
    assert_eq!(config.search.workspace, strs(&["/home/u"]));
    assert!(config.search.single.is_empty());
    assert_eq!(config.excluded(), strs(&["node_modules", ".direnv", ".cache", ".local"]));
    assert_eq!(config.depth, 5);
    assert_eq!(config.mode, Mode::Percentage(HALF_BITS));
    assert!(!config.default_worktree);
    assert_eq!(config.worktree_mode, WorktreeMode::Prompt);
    assert_eq!(config.mux, MuxKind::Tmux);
    assert_eq!(config.project_markers, strs(&[".git", ".bare"]));
}

#[test]
fn initial_settings_without_a_home() {
    let config = Config::new(None);
    assert_eq!(config.search.workspace, strs(&["~"]));
}

#[test]
fn half_is_the_bit_pattern_of_one_half() {
    assert_eq!(HALF_BITS, 0.5f32.to_bits());
    assert_eq!(ONE_BITS, 1.0f32.to_bits());
    assert_eq!(DOUBLE_ONE_BITS, 1.0f64.to_bits());
}

#[test]
fn numbers_of_a_document_are_rounded_to_single_precision() {
    for d in [
        0.5f64,
        0.25,
        1.0,
        0.1,
        0.3,
        0.7,
        0.999,
        0.9999999701976776,
        0.99999997,
        0.999999999999,
        1e-10,
        1e-38,
        1.1754943508222875e-38,
        1e-40,
        1e-44,
        1.401298464324817e-45,
        0.3333333333333333,
        0.6666666666666666,
        0.5000000298023224,
        0.500000089406967,
    ] {
        let single = d as f32;
        assert!(single > 0.0 && single <= 1.0);
        assert_eq!(fraction(d.to_bits()), Some(single.to_bits()), "{}", d);
    }
}

#[test]
fn numbers_that_are_no_fraction() {
    for d in [0.0f64, -0.0, -0.5, 1.0000000000000002, 1.5, 2.0, f64::INFINITY, f64::NAN, 1e-46, 5e-324] {
        assert_eq!(fraction(d.to_bits()), None, "{}", d);
    }
}

#[test]
fn fractions_widen_exactly() {
    for s in [0.5f32, 1.0, 0.1, 0.3, 0.99999994, 1.17549435e-38, 1e-40, 1e-45, 5.877472e-39] {
        assert_eq!(widen(s.to_bits()), (s as f64).to_bits(), "{}", s);
        assert_eq!(fraction(widen(s.to_bits())), Some(s.to_bits()));
    }
}

#[test]
fn home_is_put_in_place_of_a_leading_tilde() {
    assert_eq!(expand_home("~/code", Some("/home/u")), "/home/u/code");
    assert_eq!(expand_home("~", Some("/home/u")), "/home/u");
    assert_eq!(expand_home("~/", Some("/home/u")), "/home/u/");
}

#[test]
fn other_paths_are_not_expanded() {
    assert_eq!(expand_home("/abs/~/x", Some("/home/u")), "/abs/~/x");
    assert_eq!(expand_home("~other/x", Some("/home/u")), "~other/x");
    assert_eq!(expand_home("~\\x", Some("/home/u")), "~\\x");
    assert_eq!(expand_home("", Some("/home/u")), "");
    assert_eq!(expand_home("~/code", None), "~/code");
}

#[test]
fn the_sample_configuration_is_read() {
    let text = "paths { workspace \"~/code\"; single \"~/notes\" }\n\
                exclude_path { - \"node_modules\"; - \".direnv\" }\n\
                depth 5\n\
                default_worktree #false\n\
                mux \"tmux\"\n\
                picker_mode { percentage 0.5 }\n";
    let config = parse(text).unwrap();
    assert_eq!(config.search.workspace, strs(&["/home/u", "/home/u/code"]));
    assert_eq!(config.search.single, strs(&["/home/u/notes"]));
    assert_eq!(config.excluded(), strs(&["node_modules", ".direnv", ".cache", ".local"]));
    assert_eq!(config.depth, 5);
    assert!(!config.default_worktree);
    assert_eq!(config.mux, MuxKind::Tmux);
    assert_eq!(config.mode, Mode::Percentage(HALF_BITS));
}

#[test]
fn an_empty_text_leaves_the_settings() {
    assert_eq!(parse("").unwrap(), Config::new(Some("/home/u")));
}

#[test]
fn paths_start_from_nothing_where_default_is_false() {
    let config = parse("paths default=#false {\n workspace \"/w\"\n single \"/s\"\n}\n").unwrap();
    assert_eq!(config.search.workspace, strs(&["/w"]));
    assert_eq!(config.search.single, strs(&["/s"]));
}

#[test]
fn excluded_names_are_a_set() {
    let config = parse("exclude_path {\n - \"target\"\n - \"target\"\n - \".cache\"\n}\n").unwrap();
    assert_eq!(config.excluded(), strs(&["node_modules", ".direnv", ".cache", ".local", "target"]));
    assert!(config.is_excluded("target"));
    assert!(!config.is_excluded("src"));
}

#[test]
fn excluded_names_start_from_nothing_where_default_is_false() {
    let config = parse("exclude_path default=#false {\n - \"target\"\n}\n").unwrap();
    assert_eq!(config.excluded(), strs(&["target"]));
    assert!(!config.is_excluded("node_modules"));
}

#[test]
fn local_settings_go_over_global_ones() {
    let global = parse("depth 3\nmux \"zellij\"\npaths { workspace \"/g\" }\n").unwrap();
    let local = Parser::new(Source::new("local".to_string(), "depth 7\npaths { single \"/l\" }\n".to_string()))
        .home(Some("/home/u".to_string()))
        .parse_with_default(Some(global))
        .unwrap();
    assert_eq!(local.depth, 7);
    assert_eq!(local.mux, MuxKind::Zellij);
    assert_eq!(local.search.workspace, strs(&["/home/u", "/g"]));
    assert_eq!(local.search.single, strs(&["/l"]));
}

#[test]
fn depth_outside_its_range_is_zero() {
    assert_eq!(parse("depth -3\n").unwrap().depth, 0);
    assert_eq!(parse("depth 0\n").unwrap().depth, 0);
    assert_eq!(parse("depth 12\n").unwrap().depth, 12);
    let huge = node("depth", vec![arg(Value::Integer(i128::MAX))], None);
    assert_eq!(interpret_node(&huge, Config::new(None), None).unwrap().depth, 0);
}

#[test]
fn default_worktree_takes_a_boolean_and_is_false_otherwise() {
    assert!(parse("default_worktree #true\n").unwrap().default_worktree);
    assert!(!parse("default_worktree #false\n").unwrap().default_worktree);
    let base = parse("default_worktree #true\n").unwrap();
    let node = node("default_worktree", vec![arg(Value::String("yes".to_string()))], None);
    assert!(!interpret_node(&node, base, None).unwrap().default_worktree);
}

#[test]
fn picker_modes() {
    assert_eq!(parse("picker_mode { full }\n").unwrap().mode, Mode::Full);
    assert_eq!(parse("picker_mode { lines 40 }\n").unwrap().mode, Mode::Lines(40));
    assert_eq!(parse("picker_mode { percentage 0.5 }\n").unwrap().mode, Mode::Percentage(HALF_BITS));
    assert_eq!(parse("picker_mode { percentage 1.0 }\n").unwrap().mode, Mode::Percentage(ONE_BITS));
    assert_eq!(parse("picker_mode { percentage 1 }\n").unwrap().mode, Mode::Percentage(ONE_BITS));
    assert_eq!(
        parse("picker_mode { percentage 0.25 }\n").unwrap().mode,
        Mode::Percentage(0.25f32.to_bits())
    );
    assert_eq!(
        parse("picker_mode { percentage 0.3 }\n").unwrap().mode,
        Mode::Percentage(0.3f32.to_bits())
    );
    assert_eq!(parse("picker_mode {\n lines 3\n full\n}\n").unwrap().mode, Mode::Full);
}

#[test]
fn fractions_are_told_by_their_bits() {
    assert!(fraction_in_range(0.5f32.to_bits()));
    assert!(fraction_in_range(1.0f32.to_bits()));
    assert!(fraction_in_range(f32::MIN_POSITIVE.to_bits()));
    assert!(fraction_in_range(1));
    assert!(!fraction_in_range(0.0f32.to_bits()));
    assert!(!fraction_in_range((-0.5f32).to_bits()));
    assert!(!fraction_in_range(1.5f32.to_bits()));
    assert!(!fraction_in_range(f32::NAN.to_bits()));
    assert!(!fraction_in_range(f32::INFINITY.to_bits()));
}

#[test]
fn unknown_key_is_an_error_with_its_span() {
    match parse("depth 5\nheight 40\n") {
        Err(ParseError::UnknownConfigurationOption(name, span)) => {
            assert_eq!(name, "height");
            assert_eq!(span, Span { offset: 8, len: 6 });
        }
        other => panic!("{:?}", other),
    }
}

#[test]
fn unknown_node_in_paths_is_an_error() {
    match parse("paths { folder \"/x\" }\n") {
        Err(ParseError::NodeMismatch(name, _)) => assert_eq!(name, "folder"),
        other => panic!("{:?}", other),
    }
}

#[test]
fn wrong_kind_of_value_is_an_error() {
    match parse("depth \"five\"\n") {
        Err(ParseError::TypeMismatch(expected, found, _)) => {
            assert_eq!(expected, ValueKind::Number);
            assert_eq!(found, ValueKind::String);
        }
        other => panic!("{:?}", other),
    }
    match parse("paths default=1 { }\n") {
        Err(ParseError::TypeMismatch(expected, found, _)) => {
            assert_eq!(expected, ValueKind::Boolean);
            assert_eq!(found, ValueKind::Number);
        }
        other => panic!("{:?}", other),
    }
    match parse("exclude_path { - 5 }\n") {
        Err(ParseError::TypeMismatch(expected, found, _)) => {
            assert_eq!(expected, ValueKind::String);
            assert_eq!(found, ValueKind::Number);
        }
        other => panic!("{:?}", other),
    }
    match parse("picker_mode { percentage \"half\" }\n") {
        Err(ParseError::TypeMismatch(expected, found, _)) => {
            assert_eq!(expected, ValueKind::Float);
            assert_eq!(found, ValueKind::String);
        }
        other => panic!("{:?}", other),
    }
}

#[test]
fn missing_value_is_an_error() {
    assert!(matches!(parse("depth\n"), Err(ParseError::MissingValue(_))));
    assert!(matches!(parse("mux\n"), Err(ParseError::MissingValue(_))));
    assert!(matches!(parse("paths { workspace }\n"), Err(ParseError::MissingValue(_))));
    assert!(matches!(parse("picker_mode { lines }\n"), Err(ParseError::MissingValue(_))));
    assert!(matches!(parse("picker_mode { percentage }\n"), Err(ParseError::MissingValue(_))));
}

#[test]
fn picker_mode_without_nodes_is_an_error() {
    assert!(matches!(parse("picker_mode\n"), Err(ParseError::MissingChildNode(_))));
    assert!(matches!(parse("picker_mode { }\n"), Err(ParseError::MissingChildNode(_))));
}

#[test]
fn lines_out_of_range_are_an_error() {
    assert!(matches!(parse("picker_mode { lines 0 }\n"), Err(ParseError::InvalidHeightRange(_))));
    assert!(matches!(parse("picker_mode { lines -1 }\n"), Err(ParseError::InvalidHeightRange(_))));
    assert!(matches!(
        parse("picker_mode { lines 65536 }\n"),
        Err(ParseError::InvalidHeightRange(_))
    ));
    assert_eq!(parse("picker_mode { lines 65535 }\n").unwrap().mode, Mode::Lines(65535));
    assert_eq!(parse("picker_mode { lines 1 }\n").unwrap().mode, Mode::Lines(1));
}

#[test]
fn percentage_out_of_range_is_an_error() {
    assert!(matches!(
        parse("picker_mode { percentage 0.0 }\n"),
        Err(ParseError::InvalidPercentage(_))
    ));
    assert!(matches!(
        parse("picker_mode { percentage 1.5 }\n"),
        Err(ParseError::InvalidPercentage(_))
    ));
    assert!(matches!(
        parse("picker_mode { percentage -0.5 }\n"),
        Err(ParseError::InvalidPercentage(_))
    ));
    assert!(matches!(
        parse("picker_mode { percentage 2 }\n"),
        Err(ParseError::InvalidPercentage(_))
    ));
    assert!(matches!(
        parse("picker_mode { percentage 0 }\n"),
        Err(ParseError::InvalidPercentage(_))
    ));
}

#[test]
fn unknown_picker_mode_is_an_error() {
    match parse("picker_mode { half }\n") {
        Err(ParseError::NodeMismatch(name, _)) => assert_eq!(name, "half"),
        other => panic!("{:?}", other),
    }
}

#[test]
fn unknown_multiplexer_is_an_error() {
    match parse("mux \"screen\"\n") {
        Err(ParseError::InvalidMux(name, _)) => assert_eq!(name, "screen"),
        other => panic!("{:?}", other),
    }
    assert_eq!(parse("mux \"zellij\"\n").unwrap().mux, MuxKind::Zellij);
}

#[test]
fn a_text_that_is_no_document_is_an_error() {
    let result = parse("paths {\n");
    assert!(matches!(result, Err(ParseError::Kdl(_))));
    let e = result.unwrap_err();
    assert_eq!(e.span(), None);
    assert_eq!(e.message(), "Failed to parse KDL document");
}

#[test]
fn the_first_error_ends_the_reading() {
    match parse("bogus 1\ndepth \"x\"\n") {
        Err(ParseError::UnknownConfigurationOption(name, _)) => assert_eq!(name, "bogus"),
        other => panic!("{:?}", other),
    }
}

#[test]
fn errors_name_their_place_and_headline() {
    let e = parse("depth \"five\"\n").unwrap_err();
    assert_eq!(e.span(), Some(Span { offset: 6, len: 6 }));
    assert_eq!(e.message(), "Type mismatch");
    assert_eq!(ValueKind::Boolean.name(), "boolean");
    assert_eq!(ValueKind::Float.name(), "float");
}

#[test]
fn documents_are_read_two_levels_deep() {
    let nodes = read_document("paths default=#true {\n workspace \"/w\" note=1\n}\ndepth 2\n").unwrap();
    assert_eq!(nodes.len(), 2);
    assert_eq!(nodes[0].name, "paths");
    assert_eq!(nodes[0].entries.len(), 1);
    assert_eq!(nodes[0].entries[0].name, Some("default".to_string()));
    assert_eq!(nodes[0].entries[0].value, Value::Bool(true));
    let children = nodes[0].children.as_ref().unwrap();
    assert_eq!(children.len(), 1);
    assert_eq!(children[0].name, "workspace");
    assert_eq!(children[0].entries[0].value, Value::String("/w".to_string()));
    assert_eq!(children[0].entries[1].name, Some("note".to_string()));
    assert_eq!(children[0].entries[1].value, Value::Integer(1));
    assert_eq!(nodes[1].name, "depth");
    assert_eq!(nodes[1].entries[0].value, Value::Integer(2));
    assert_eq!(nodes[1].children, None);
    assert_eq!(nodes[1].name_span, Span { offset: 47, len: 5 });
}

#[test]
fn values_keep_their_kind() {
    let nodes = read_document("n \"s\" 1 1.5 #true #null\n").unwrap();
    let kinds: Vec<ValueKind> = nodes[0].entries.iter().map(|e| e.value.kind()).collect();
    assert_eq!(
        kinds,
        vec![
            ValueKind::String,
            ValueKind::Number,
            ValueKind::Float,
            ValueKind::Boolean,
            ValueKind::Null
        ]
    );
    assert_eq!(nodes[0].entries[2].value, Value::Float(1.5f64.to_bits()));
}

#[test]
fn the_last_default_property_counts() {
    let config = parse("paths default=#true default=#false { workspace \"/w\" }\n").unwrap();
    assert_eq!(config.search.workspace, strs(&["/w"]));
}

#[test]
fn a_dash_takes_its_first_argument() {
    let kids = vec![
        child("-", vec![Entry { name: Some("k".to_string()), value: Value::Integer(1), span: nowhere() }, arg(Value::String("a".to_string()))]),
        child("-", vec![]),
        child("other", vec![arg(Value::Integer(1))]),
        child("-", vec![arg(Value::String("b".to_string())), arg(Value::Integer(2))]),
    ];
    let doc = vec![node("exclude_path", vec![Entry { name: Some("default".to_string()), value: Value::Bool(false), span: nowhere() }], Some(kids))];
    let config = interpret(&doc, Config::new(None), None).unwrap();
    assert_eq!(config.excluded(), strs(&["a", "b"]));
}

#[test]
fn settings_come_back_from_their_document() {
    let text = "paths default=#false { workspace \"/w1\"; workspace \"/w2\"; single \"/s\" }\n\
                exclude_path default=#false { - \"x\"; - \"y\" }\n\
                depth 9\n\
                default_worktree #true\n\
                mux \"zellij\"\n\
                picker_mode { percentage 0.3 }\n";
    let config = parse(text).unwrap();
    let doc = config.to_document();
    let again = interpret(&doc, Config::new(Some("/elsewhere")), Some("/elsewhere")).unwrap();
    assert_eq!(again, config);
    assert_eq!(again.to_document(), doc);
}

#[test]
fn initial_settings_come_back_from_their_document() {
    let config = Config::new(Some("/home/u"));
    let doc = config.to_document();
    assert_eq!(doc.len(), 6);
    let mut other = Config::new(None);
    other.depth = 1;
    other.mode = Mode::Full;
    assert_eq!(interpret(&doc, other, None).unwrap(), config);
}

#[test]
fn rounding_agrees_with_the_machine_on_many_numbers() {
    let mut state: u64 = 0x9E37_79B9_7F4A_7C15;
    let mut checked = 0;
    for round in 0..20000u32 {
        state = state.wrapping_mul(6364136223846793005).wrapping_add(1442695040888963407);
        let mantissa = state >> 12;
        let exponent = match round % 4 {
            0 => 1022 - (state >> 60),
            1 => 1022 - (state % 160),
            2 => 896 - (state % 40),
            _ => 1022,
        };
        let mut bits = (exponent << 52) | mantissa;
        if round % 7 == 0 {
            bits &= !0xFFF_FFFF;
        }
        if round % 11 == 0 {
            bits = (bits & !0x1FFF_FFFF) | 0x1000_0000;
        }
        let d = f64::from_bits(bits);
        if !(d > 0.0 && d <= 1.0) {
            continue;
        }
        let single = d as f32;
        let expected = if single > 0.0 { Some(single.to_bits()) } else { None };
        assert_eq!(fraction(bits), expected, "{:e}", d);
        checked += 1;
    }
    assert!(checked > 15000);
}

#[test]
fn widening_agrees_with_the_machine_on_many_numbers() {
    let mut state: u32 = 0x1234_5678;
    for _ in 0..20000 {
        state = state.wrapping_mul(1664525).wrapping_add(1013904223);
        let bits = state % (ONE_BITS + 1);
        if bits == 0 {
            continue;
        }
        let s = f32::from_bits(bits);
        assert_eq!(widen(bits), (s as f64).to_bits(), "{:e}", s);
        assert_eq!(fraction(widen(bits)), Some(bits));
    }
}
