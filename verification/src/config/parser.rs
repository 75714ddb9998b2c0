//! From a configuration text to settings.
//!
//! A document changes the settings node by node, in the order in which the
//! nodes stand. `paths` adds roots and single paths, `exclude_path` adds
//! excluded names, and both start from nothing when their property `default`
//! is false; `depth`, `default_worktree`, `mux` and `picker_mode` replace one
//! setting each. Any other node at the top is an error.

use vstd::prelude::*;
use indexmap::IndexSet;
use crate::config::{Config, ConfigView, Mode, ONE_BITS, expand_home, initial, tilde_expanded};
use crate::config::fraction::{fraction, fraction_of};
use crate::config::document::{
    Child, ChildModel, Entry, EntryModel, Node, NodeModel, Value, ValueKind, ValueModel,
    child_models, entry_models, kdl_document, node_models, read_document,
};
use crate::config::error::{ParseError, ParseErrorView};
use crate::config::exclude::{set_insert, set_items, set_new};
use crate::config::source::Source;
use crate::mux::MuxKind;
use crate::text::{copy_str, opt_str_view, opt_view, same_str, views};

verus! {

/// The last property of `entries` with the name `key`.
pub open spec fn last_prop(entries: Seq<EntryModel>, key: Seq<char>) -> Option<EntryModel>
    decreases entries.len(),
{
    if entries.len() == 0 {
        None
    } else if entries.last().name == Some(key) {
        Some(entries.last())
    } else {
        last_prop(entries.drop_last(), key)
    }
}

/// The first argument of `entries`: the first entry without a name.
pub open spec fn first_arg(entries: Seq<EntryModel>) -> Option<EntryModel>
    decreases entries.len(),
{
    if entries.len() == 0 {
        None
    } else if entries[0].name is None {
        Some(entries[0])
    } else {
        first_arg(entries.drop_first())
    }
}

/// Whether a node adds to what is there (`true`, also where nothing is
/// said) or starts from nothing: its property `default`, which must be a
/// boolean.
pub open spec fn default_flag(entries: Seq<EntryModel>) -> Result<bool, ParseErrorView> {
    match last_prop(entries, "default"@) {
        None => Ok(true),
        Some(e) => match e.value {
            ValueModel::Bool(b) => Ok(b),
            v => Err(ParseErrorView::TypeMismatch(ValueKind::Boolean, v.kind(), e.span)),
        },
    }
}

/// The first entry of a node as a string.
pub open spec fn first_string(entries: Seq<EntryModel>, node: crate::config::document::Span) -> Result<
    Seq<char>,
    ParseErrorView,
> {
    if entries.len() == 0 {
        Err(ParseErrorView::MissingValue(node))
    } else {
        match entries[0].value {
            ValueModel::String(s) => Ok(s),
            v => Err(ParseErrorView::TypeMismatch(ValueKind::String, v.kind(), entries[0].span)),
        }
    }
}

/// The first entry of a node as a whole number.
pub open spec fn first_integer(entries: Seq<EntryModel>, node: crate::config::document::Span) -> Result<
    int,
    ParseErrorView,
> {
    if entries.len() == 0 {
        Err(ParseErrorView::MissingValue(node))
    } else {
        match entries[0].value {
            ValueModel::Integer(i) => Ok(i),
            v => Err(ParseErrorView::TypeMismatch(ValueKind::Number, v.kind(), entries[0].span)),
        }
    }
}

/// The first entry of a node as a boolean.
pub open spec fn first_bool(entries: Seq<EntryModel>, node: crate::config::document::Span) -> Result<
    bool,
    ParseErrorView,
> {
    if entries.len() == 0 {
        Err(ParseErrorView::MissingValue(node))
    } else {
        match entries[0].value {
            ValueModel::Bool(b) => Ok(b),
            v => Err(ParseErrorView::TypeMismatch(ValueKind::Boolean, v.kind(), entries[0].span)),
        }
    }
}

/// The settings after the nodes in the braces of `paths`: each `workspace`
/// adds a root and each `single` a single path, expanded against the home
/// directory; any other node is an error.
pub open spec fn with_path_children(
    children: Seq<ChildModel>,
    cfg: ConfigView,
    home: Option<Seq<char>>,
) -> Result<ConfigView, ParseErrorView>
    decreases children.len(),
{
    if children.len() == 0 {
        Ok(cfg)
    } else {
        let c = children[0];
        if c.name == "workspace"@ {
            match first_string(c.entries, c.span) {
                Err(e) => Err(e),
                Ok(p) => with_path_children(
                    children.drop_first(),
                    ConfigView { workspace: cfg.workspace.push(tilde_expanded(p, home)), ..cfg },
                    home,
                ),
            }
        } else if c.name == "single"@ {
            match first_string(c.entries, c.span) {
                Err(e) => Err(e),
                Ok(p) => with_path_children(
                    children.drop_first(),
                    ConfigView { single: cfg.single.push(tilde_expanded(p, home)), ..cfg },
                    home,
                ),
            }
        } else {
            Err(ParseErrorView::NodeMismatch(c.name, c.name_span))
        }
    }
}

/// The settings after a `paths` node.
pub open spec fn with_paths(node: NodeModel, cfg: ConfigView, home: Option<Seq<char>>) -> Result<
    ConfigView,
    ParseErrorView,
> {
    match default_flag(node.entries) {
        Err(e) => Err(e),
        Ok(keep) => {
            let start = if keep {
                cfg
            } else {
                ConfigView {
                    workspace: Seq::<Seq<char>>::empty(),
                    single: Seq::<Seq<char>>::empty(),
                    ..cfg
                }
            };
            match node.children {
                None => Ok(start),
                Some(children) => with_path_children(children, start, home),
            }
        },
    }
}

/// `r` with `acc` put before it, where `r` is a value.
pub open spec fn prefixed(acc: Seq<Seq<char>>, r: Result<Seq<Seq<char>>, ParseErrorView>) -> Result<
    Seq<Seq<char>>,
    ParseErrorView,
> {
    match r {
        Ok(v) => Ok(acc + v),
        Err(e) => Err(e),
    }
}

/// The values of the nodes named `-`: the first argument of each, which must
/// be a string. A `-` without an argument gives nothing; nodes of another name
/// are passed over.
pub open spec fn dash_values(children: Seq<ChildModel>) -> Result<Seq<Seq<char>>, ParseErrorView>
    decreases children.len(),
{
    if children.len() == 0 {
        Ok(Seq::<Seq<char>>::empty())
    } else {
        let c = children[0];
        let rest = dash_values(children.drop_first());
        if c.name == "-"@ {
            match first_arg(c.entries) {
                None => rest,
                Some(e) => match e.value {
                    ValueModel::String(s) => prefixed(seq![s], rest),
                    v => Err(ParseErrorView::TypeMismatch(ValueKind::String, v.kind(), e.span)),
                },
            }
        } else {
            rest
        }
    }
}

/// `set` after each of `items` was inserted in turn: one that is present
/// already changes nothing.
pub open spec fn inserted_all(set: Seq<Seq<char>>, items: Seq<Seq<char>>) -> Seq<Seq<char>>
    decreases items.len(),
{
    if items.len() == 0 {
        set
    } else {
        let s = inserted_all(set, items.drop_last());
        if s.contains(items.last()) {
            s
        } else {
            s.push(items.last())
        }
    }
}

/// The settings after an `exclude_path` node.
pub open spec fn with_excludes(node: NodeModel, cfg: ConfigView) -> Result<ConfigView, ParseErrorView> {
    match default_flag(node.entries) {
        Err(e) => Err(e),
        Ok(keep) => {
            let children = match node.children {
                Some(c) => c,
                None => Seq::<ChildModel>::empty(),
            };
            match dash_values(children) {
                Err(e) => Err(e),
                Ok(values) => {
                    let start = if keep {
                        cfg.excludes
                    } else {
                        Seq::<Seq<char>>::empty()
                    };
                    Ok(ConfigView { excludes: inserted_all(start, values), ..cfg })
                },
            }
        },
    }
}

/// A depth as the settings hold it: a whole number that fits, and zero for
/// any other.
pub open spec fn depth_of(i: int) -> nat {
    if 0 <= i <= usize::MAX {
        i as nat
    } else {
        0
    }
}

/// The multiplexer with the given name.
pub open spec fn mux_of(name: Seq<char>) -> Option<MuxKind> {
    if name == "tmux"@ {
        Some(MuxKind::Tmux)
    } else if name == "zellij"@ {
        Some(MuxKind::Zellij)
    } else {
        None
    }
}

/// The picker mode that one node in the braces of `picker_mode` stands for.
pub open spec fn mode_of(c: ChildModel) -> Result<Mode, ParseErrorView> {
    if c.name == "full"@ {
        Ok(Mode::Full)
    } else if c.name == "lines"@ {
        match first_integer(c.entries, c.span) {
            Err(e) => Err(e),
            Ok(n) => if 1 <= n <= u16::MAX {
                Ok(Mode::Lines(n as u16))
            } else {
                Err(ParseErrorView::InvalidHeightRange(c.entries[0].span))
            },
        }
    } else if c.name == "percentage"@ {
        if c.entries.len() == 0 {
            Err(ParseErrorView::MissingValue(c.span))
        } else {
            match c.entries[0].value {
                ValueModel::Float(bits) => match fraction_of(bits) {
                    Some(f) => Ok(Mode::Percentage(f)),
                    None => Err(ParseErrorView::InvalidPercentage(c.entries[0].span)),
                },
                ValueModel::Integer(i) => if i == 1 {
                    Ok(Mode::Percentage(ONE_BITS))
                } else {
                    Err(ParseErrorView::InvalidPercentage(c.entries[0].span))
                },
                v => Err(ParseErrorView::TypeMismatch(ValueKind::Float, v.kind(), c.entries[0].span)),
            }
        }
    } else {
        Err(ParseErrorView::NodeMismatch(c.name, c.name_span))
    }
}

/// The picker mode after the nodes in the braces of `picker_mode`: the last
/// one decides, and each must be valid.
pub open spec fn with_mode_children(children: Seq<ChildModel>, mode: Mode) -> Result<Mode, ParseErrorView>
    decreases children.len(),
{
    if children.len() == 0 {
        Ok(mode)
    } else {
        match mode_of(children[0]) {
            Err(e) => Err(e),
            Ok(m) => with_mode_children(children.drop_first(), m),
        }
    }
}

/// The settings after one node at the top of a document.
pub open spec fn apply_node(node: NodeModel, cfg: ConfigView, home: Option<Seq<char>>) -> Result<
    ConfigView,
    ParseErrorView,
> {
    if node.name == "paths"@ {
        with_paths(node, cfg, home)
    } else if node.name == "exclude_path"@ {
        with_excludes(node, cfg)
    } else if node.name == "depth"@ {
        match first_integer(node.entries, node.span) {
            Err(e) => Err(e),
            Ok(i) => Ok(ConfigView { depth: depth_of(i), ..cfg }),
        }
    } else if node.name == "default_worktree"@ {
        match first_bool(node.entries, node.span) {
            Err(_) => Ok(ConfigView { default_worktree: false, ..cfg }),
            Ok(b) => Ok(ConfigView { default_worktree: b, ..cfg }),
        }
    } else if node.name == "mux"@ {
        match first_string(node.entries, node.span) {
            Err(e) => Err(e),
            Ok(name) => match mux_of(name) {
                Some(m) => Ok(ConfigView { mux: m, ..cfg }),
                None => Err(ParseErrorView::InvalidMux(name, node.entries[0].span)),
            },
        }
    } else if node.name == "picker_mode"@ {
        match node.children {
            None => Err(ParseErrorView::MissingChildNode(node.span)),
            Some(children) => if children.len() == 0 {
                Err(ParseErrorView::MissingChildNode(node.span))
            } else {
                match with_mode_children(children, cfg.mode) {
                    Err(e) => Err(e),
                    Ok(m) => Ok(ConfigView { mode: m, ..cfg }),
                }
            },
        }
    } else {
        Err(ParseErrorView::UnknownConfigurationOption(node.name, node.name_span))
    }
}

/// The settings after all nodes of a document, in order; the first error
/// ends the reading.
pub open spec fn applied(nodes: Seq<NodeModel>, cfg: ConfigView, home: Option<Seq<char>>) -> Result<
    ConfigView,
    ParseErrorView,
>
    decreases nodes.len(),
{
    if nodes.len() == 0 {
        Ok(cfg)
    } else {
        match apply_node(nodes[0], cfg, home) {
            Err(e) => Err(e),
            Ok(c) => applied(nodes.drop_first(), c, home),
        }
    }
}

/// What reading a whole text gives: an error where the text is no KDL
/// document, else what its nodes make of the settings.
pub open spec fn parsed(text: Seq<char>, cfg: ConfigView, home: Option<Seq<char>>) -> Result<
    ConfigView,
    ParseErrorView,
> {
    match kdl_document(text) {
        None => Err(ParseErrorView::Kdl),
        Some(nodes) => applied(nodes, cfg, home),
    }
}

/// The outcome of a reading as mathematical values.
pub open spec fn outcome(r: Result<Config, ParseError>) -> Result<ConfigView, ParseErrorView> {
    match r {
        Ok(c) => Ok(c@),
        Err(e) => Err(e@),
    }
}

/// The position of the last property named `key`.
fn find_prop(entries: &Vec<Entry>, key: &str) -> (r: Option<usize>)
    ensures
        match r {
            Some(i) => i < entries.len() && last_prop(entry_models(entries@), key@) == Some(
                entries@[i as int]@,
            ),
            None => last_prop(entry_models(entries@), key@) is None,
        },
{
    let ghost all = entry_models(entries@);
    let mut i: usize = entries.len();
    assert(all.take(i as int) =~= all);
    while i > 0
        invariant
            i <= entries.len(),
            all == entry_models(entries@),
            last_prop(all, key@) == last_prop(all.take(i as int), key@),
        decreases i,
    {
        let e = &entries[i - 1];
        proof {
            assert(all.take(i as int).last() == e@);
            assert(all.take(i as int).drop_last() =~= all.take(i - 1));
        }
        let hit = match &e.name {
            Some(n) => same_str(n.as_str(), key),
            None => false,
        };
        if hit {
            return Some(i - 1);
        }
        i -= 1;
    }
    None
}

/// The position of the first entry without a name.
fn find_arg(entries: &Vec<Entry>) -> (r: Option<usize>)
    ensures
        match r {
            Some(i) => i < entries.len() && first_arg(entry_models(entries@)) == Some(
                entries@[i as int]@,
            ),
            None => first_arg(entry_models(entries@)) is None,
        },
{
    let ghost all = entry_models(entries@);
    let n = entries.len();
    let mut i: usize = 0;
    assert(all.subrange(0, n as int) =~= all);
    while i < n
        invariant
            i <= n,
            n == entries.len(),
            all == entry_models(entries@),
            first_arg(all) == first_arg(all.subrange(i as int, n as int)),
        decreases n - i,
    {
        let e = &entries[i];
        proof {
            assert(all.subrange(i as int, n as int)[0] == e@);
            assert(all.subrange(i as int, n as int).drop_first() =~= all.subrange(i + 1, n as int));
        }
        if e.name.is_none() {
            return Some(i);
        }
        i += 1;
    }
    None
}

fn read_default(entries: &Vec<Entry>) -> (r: Result<bool, ParseError>)
    ensures
        match r {
            Ok(b) => default_flag(entry_models(entries@)) == Ok::<bool, ParseErrorView>(b),
            Err(e) => default_flag(entry_models(entries@)) == Err::<bool, ParseErrorView>(e@),
        },
{
    match find_prop(entries, "default") {
        None => Ok(true),
        Some(i) => {
            let e = &entries[i];
            match &e.value {
                Value::Bool(b) => Ok(*b),
                v => Err(ParseError::TypeMismatch(ValueKind::Boolean, v.kind(), e.span)),
            }
        },
    }
}

fn read_first_string(entries: &Vec<Entry>, node: crate::config::document::Span) -> (r: Result<
    String,
    ParseError,
>)
    ensures
        match r {
            Ok(s) => first_string(entry_models(entries@), node) == Ok::<Seq<char>, ParseErrorView>(
                s@,
            ),
            Err(e) => first_string(entry_models(entries@), node) == Err::<
                Seq<char>,
                ParseErrorView,
            >(e@),
        },
{
    if entries.len() == 0 {
        return Err(ParseError::MissingValue(node));
    }
    let e = &entries[0];
    match &e.value {
        Value::String(s) => Ok(copy_str(s.as_str())),
        v => Err(ParseError::TypeMismatch(ValueKind::String, v.kind(), e.span)),
    }
}

fn read_first_integer(entries: &Vec<Entry>, node: crate::config::document::Span) -> (r: Result<
    i128,
    ParseError,
>)
    ensures
        match r {
            Ok(i) => first_integer(entry_models(entries@), node) == Ok::<int, ParseErrorView>(
                i as int,
            ),
            Err(e) => first_integer(entry_models(entries@), node) == Err::<int, ParseErrorView>(
                e@,
            ),
        },
{
    if entries.len() == 0 {
        return Err(ParseError::MissingValue(node));
    }
    let e = &entries[0];
    match &e.value {
        Value::Integer(i) => Ok(*i),
        v => Err(ParseError::TypeMismatch(ValueKind::Number, v.kind(), e.span)),
    }
}

fn read_first_bool(entries: &Vec<Entry>, node: crate::config::document::Span) -> (r: Result<
    bool,
    ParseError,
>)
    ensures
        match r {
            Ok(b) => first_bool(entry_models(entries@), node) == Ok::<bool, ParseErrorView>(b),
            Err(e) => first_bool(entry_models(entries@), node) == Err::<bool, ParseErrorView>(e@),
        },
{
    if entries.len() == 0 {
        return Err(ParseError::MissingValue(node));
    }
    let e = &entries[0];
    match &e.value {
        Value::Bool(b) => Ok(*b),
        v => Err(ParseError::TypeMismatch(ValueKind::Boolean, v.kind(), e.span)),
    }
}

fn read_path_children(children: &Vec<Child>, config: Config, home: Option<&str>) -> (r: Result<
    Config,
    ParseError,
>)
    ensures
        outcome(r) == with_path_children(child_models(children@), config@, opt_str_view(home)),
{
    let ghost all = child_models(children@);
    let ghost start = config@;
    let ghost h = opt_str_view(home);
    let n = children.len();
    let mut cfg = config;
    let mut i: usize = 0;
    assert(all.subrange(0, n as int) =~= all);
    while i < n
        invariant
            i <= n,
            n == children.len(),
            all == child_models(children@),
            h == opt_str_view(home),
            start == config@,
            with_path_children(all, start, h) == with_path_children(
                all.subrange(i as int, n as int),
                cfg@,
                h,
            ),
        decreases n - i,
    {
        let c = &children[i];
        proof {
            assert(all.subrange(i as int, n as int)[0] == c@);
            assert(all.subrange(i as int, n as int).drop_first() =~= all.subrange(i + 1, n as int));
        }
        let ghost before = cfg@;
        if same_str(c.name.as_str(), "workspace") {
            match read_first_string(&c.entries, c.span) {
                Err(e) => {
                    return Err(e);
                },
                Ok(p) => {
                    let expanded = expand_home(p.as_str(), home);
                    let ghost old_ws = cfg.search.workspace@;
                    cfg.search.workspace.push(expanded);
                    assert(views(cfg.search.workspace@) =~= views(old_ws).push(expanded@));
                    assert(cfg@ == ConfigView {
                        workspace: before.workspace.push(tilde_expanded(p@, h)),
                        ..before
                    });
                },
            }
        } else if same_str(c.name.as_str(), "single") {
            match read_first_string(&c.entries, c.span) {
                Err(e) => {
                    return Err(e);
                },
                Ok(p) => {
                    let expanded = expand_home(p.as_str(), home);
                    let ghost old_single = cfg.search.single@;
                    cfg.search.single.push(expanded);
                    assert(views(cfg.search.single@) =~= views(old_single).push(expanded@));
                    assert(cfg@ == ConfigView {
                        single: before.single.push(tilde_expanded(p@, h)),
                        ..before
                    });
                },
            }
        } else {
            return Err(ParseError::NodeMismatch(copy_str(c.name.as_str()), c.name_span));
        }
        i += 1;
    }
    Ok(cfg)
}

fn read_paths(node: &Node, config: Config, home: Option<&str>) -> (r: Result<Config, ParseError>)
    ensures
        outcome(r) == with_paths(node@, config@, opt_str_view(home)),
{
    let keep = match read_default(&node.entries) {
        Ok(b) => b,
        Err(e) => {
            return Err(e);
        },
    };
    let mut cfg = config;
    let ghost before = cfg@;
    if !keep {
        cfg.search.workspace = Vec::new();
        cfg.search.single = Vec::new();
        assert(views(cfg.search.workspace@) =~= Seq::<Seq<char>>::empty());
        assert(views(cfg.search.single@) =~= Seq::<Seq<char>>::empty());
        assert(cfg@ == ConfigView {
            workspace: Seq::<Seq<char>>::empty(),
            single: Seq::<Seq<char>>::empty(),
            ..before
        });
    }
    match &node.children {
        None => Ok(cfg),
        Some(children) => read_path_children(children, cfg, home),
    }
}

fn read_dash_values(children: &Vec<Child>) -> (r: Result<Vec<String>, ParseError>)
    ensures
        match r {
            Ok(v) => dash_values(child_models(children@)) == Ok::<Seq<Seq<char>>, ParseErrorView>(
                views(v@),
            ),
            Err(e) => dash_values(child_models(children@)) == Err::<
                Seq<Seq<char>>,
                ParseErrorView,
            >(e@),
        },
{
    let ghost all = child_models(children@);
    let n = children.len();
    let mut out: Vec<String> = Vec::new();
    let mut i: usize = 0;
    assert(all.subrange(0, n as int) =~= all);
    assert(views(out@) =~= Seq::<Seq<char>>::empty());
    assert(prefixed(views(out@), dash_values(all)) == dash_values(all)) by {
        match dash_values(all) {
            Ok(v) => {
                assert(views(out@) + v =~= v);
            },
            Err(_) => {},
        }
    }
    while i < n
        invariant
            i <= n,
            n == children.len(),
            all == child_models(children@),
            dash_values(all) == prefixed(views(out@), dash_values(all.subrange(i as int, n as int))),
        decreases n - i,
    {
        let c = &children[i];
        let ghost rest = dash_values(all.subrange(i + 1, n as int));
        proof {
            assert(all.subrange(i as int, n as int)[0] == c@);
            assert(all.subrange(i as int, n as int).drop_first() =~= all.subrange(i + 1, n as int));
        }
        if same_str(c.name.as_str(), "-") {
            match find_arg(&c.entries) {
                None => {},
                Some(k) => {
                    let e = &c.entries[k];
                    match &e.value {
                        Value::String(s) => {
                            let ghost acc = views(out@);
                            out.push(copy_str(s.as_str()));
                            proof {
                                assert(views(out@) =~= acc.push(s@));
                                match rest {
                                    Ok(v) => {
                                        assert(acc + (seq![s@] + v) =~= acc.push(s@) + v);
                                    },
                                    Err(_) => {},
                                }
                            }
                        },
                        v => {
                            return Err(
                                ParseError::TypeMismatch(ValueKind::String, v.kind(), e.span),
                            );
                        },
                    }
                },
            }
        }
        i += 1;
    }
    proof {
        assert(all.subrange(n as int, n as int) =~= Seq::<ChildModel>::empty());
        assert(views(out@) + Seq::<Seq<char>>::empty() =~= views(out@));
    }
    Ok(out)
}

fn insert_all(set: &mut IndexSet<String>, items: Vec<String>)
    ensures
        set_items(*final(set)) == inserted_all(set_items(*old(set)), views(items@)),
{
    let ghost all = views(items@);
    let n = items.len();
    let mut i: usize = 0;
    assert(all.take(0) =~= Seq::<Seq<char>>::empty());
    while i < n
        invariant
            i <= n,
            n == items.len(),
            all == views(items@),
            set_items(*set) == inserted_all(set_items(*old(set)), all.take(i as int)),
        decreases n - i,
    {
        proof {
            assert(all.take(i + 1).drop_last() =~= all.take(i as int));
            assert(all.take(i + 1).last() == items@[i as int]@);
        }
        set_insert(set, copy_str(items[i].as_str()));
        i += 1;
    }
    assert(all.take(n as int) =~= all);
}

fn read_excludes(node: &Node, config: Config) -> (r: Result<Config, ParseError>)
    ensures
        outcome(r) == with_excludes(node@, config@),
{
    let keep = match read_default(&node.entries) {
        Ok(b) => b,
        Err(e) => {
            return Err(e);
        },
    };
    let values = match &node.children {
        Some(children) => match read_dash_values(children) {
            Ok(v) => v,
            Err(e) => {
                return Err(e);
            },
        },
        None => {
            let v: Vec<String> = Vec::new();
            assert(views(v@) =~= Seq::<Seq<char>>::empty());
            v
        },
    };
    let mut cfg = config;
    if !keep {
        cfg.exclude_path = set_new();
    }
    insert_all(&mut cfg.exclude_path, values);
    Ok(cfg)
}

fn read_mode(c: &Child) -> (r: Result<Mode, ParseError>)
    ensures
        match r {
            Ok(m) => mode_of(c@) == Ok::<Mode, ParseErrorView>(m),
            Err(e) => mode_of(c@) == Err::<Mode, ParseErrorView>(e@),
        },
{
    if same_str(c.name.as_str(), "full") {
        Ok(Mode::Full)
    } else if same_str(c.name.as_str(), "lines") {
        match read_first_integer(&c.entries, c.span) {
            Err(e) => Err(e),
            Ok(n) => if 1 <= n && n <= 65535 {
                Ok(Mode::Lines(n as u16))
            } else {
                Err(ParseError::InvalidHeightRange(c.entries[0].span))
            },
        }
    } else if same_str(c.name.as_str(), "percentage") {
        if c.entries.len() == 0 {
            return Err(ParseError::MissingValue(c.span));
        }
        let e = &c.entries[0];
        match &e.value {
            Value::Float(bits) => match fraction(*bits) {
                Some(f) => Ok(Mode::Percentage(f)),
                None => Err(ParseError::InvalidPercentage(e.span)),
            },
            Value::Integer(i) => if *i == 1 {
                Ok(Mode::Percentage(ONE_BITS))
            } else {
                Err(ParseError::InvalidPercentage(e.span))
            },
            v => Err(ParseError::TypeMismatch(ValueKind::Float, v.kind(), e.span)),
        }
    } else {
        Err(ParseError::NodeMismatch(copy_str(c.name.as_str()), c.name_span))
    }
}

fn read_mode_children(children: &Vec<Child>, mode: Mode) -> (r: Result<Mode, ParseError>)
    ensures
        match r {
            Ok(m) => with_mode_children(child_models(children@), mode) == Ok::<
                Mode,
                ParseErrorView,
            >(m),
            Err(e) => with_mode_children(child_models(children@), mode) == Err::<
                Mode,
                ParseErrorView,
            >(e@),
        },
{
    let ghost all = child_models(children@);
    let n = children.len();
    let mut cur = mode;
    let mut i: usize = 0;
    assert(all.subrange(0, n as int) =~= all);
    while i < n
        invariant
            i <= n,
            n == children.len(),
            all == child_models(children@),
            with_mode_children(all, mode) == with_mode_children(
                all.subrange(i as int, n as int),
                cur,
            ),
        decreases n - i,
    {
        let c = &children[i];
        proof {
            assert(all.subrange(i as int, n as int)[0] == c@);
            assert(all.subrange(i as int, n as int).drop_first() =~= all.subrange(i + 1, n as int));
        }
        match read_mode(c) {
            Err(e) => {
                return Err(e);
            },
            Ok(m) => {
                cur = m;
            },
        }
        i += 1;
    }
    Ok(cur)
}

/// Changes the settings as one node at the top of a document says.
pub fn interpret_node(node: &Node, config: Config, home: Option<&str>) -> (r: Result<
    Config,
    ParseError,
>)
    ensures
        outcome(r) == apply_node(node@, config@, opt_str_view(home)),
{
    let name = node.name.as_str();
    if same_str(name, "paths") {
        read_paths(node, config, home)
    } else if same_str(name, "exclude_path") {
        read_excludes(node, config)
    } else if same_str(name, "depth") {
        match read_first_integer(&node.entries, node.span) {
            Err(e) => Err(e),
            Ok(i) => {
                let mut cfg = config;
                cfg.depth = if 0 <= i && i <= usize::MAX as i128 {
                    i as usize
                } else {
                    0
                };
                Ok(cfg)
            },
        }
    } else if same_str(name, "default_worktree") {
        let mut cfg = config;
        cfg.default_worktree = match read_first_bool(&node.entries, node.span) {
            Ok(b) => b,
            Err(_) => false,
        };
        Ok(cfg)
    } else if same_str(name, "mux") {
        match read_first_string(&node.entries, node.span) {
            Err(e) => Err(e),
            Ok(s) => {
                let mut cfg = config;
                if same_str(s.as_str(), "tmux") {
                    cfg.mux = MuxKind::Tmux;
                    Ok(cfg)
                } else if same_str(s.as_str(), "zellij") {
                    cfg.mux = MuxKind::Zellij;
                    Ok(cfg)
                } else {
                    Err(ParseError::InvalidMux(s, node.entries[0].span))
                }
            },
        }
    } else if same_str(name, "picker_mode") {
        match &node.children {
            None => Err(ParseError::MissingChildNode(node.span)),
            Some(children) => {
                if children.len() == 0 {
                    return Err(ParseError::MissingChildNode(node.span));
                }
                match read_mode_children(children, config.mode) {
                    Err(e) => Err(e),
                    Ok(m) => {
                        let mut cfg = config;
                        cfg.mode = m;
                        Ok(cfg)
                    },
                }
            },
        }
    } else {
        Err(ParseError::UnknownConfigurationOption(copy_str(name), node.name_span))
    }
}

/// Changes the settings as the nodes of a document say, one after the other.
/// The first node that is refused ends the reading with its error.
pub fn interpret(nodes: &Vec<Node>, config: Config, home: Option<&str>) -> (r: Result<
    Config,
    ParseError,
>)
    ensures
        outcome(r) == applied(node_models(nodes@), config@, opt_str_view(home)),
{
    let ghost all = node_models(nodes@);
    let ghost start = config@;
    let ghost h = opt_str_view(home);
    let n = nodes.len();
    let mut cfg = config;
    let mut i: usize = 0;
    assert(all.subrange(0, n as int) =~= all);
    while i < n
        invariant
            i <= n,
            n == nodes.len(),
            all == node_models(nodes@),
            h == opt_str_view(home),
            start == config@,
            applied(all, start, h) == applied(all.subrange(i as int, n as int), cfg@, h),
        decreases n - i,
    {
        proof {
            assert(all.subrange(i as int, n as int)[0] == nodes@[i as int]@);
            assert(all.subrange(i as int, n as int).drop_first() =~= all.subrange(i + 1, n as int));
        }
        cfg = match interpret_node(&nodes[i], cfg, home) {
            Ok(c) => c,
            Err(e) => {
                return Err(e);
            },
        };
        i += 1;
    }
    Ok(cfg)
}

/// Reads settings from one source.
#[derive(Debug, PartialEq, Eq)]
pub struct Parser {
    src: Source,
    home: Option<String>,
}

impl Parser {
    /// The text that is read.
    pub closed spec fn text(&self) -> Seq<char> {
        self.src.raw@
    }

    /// The home directory that a leading `~` of a path is expanded against.
    pub closed spec fn home_dir(&self) -> Option<Seq<char>> {
        opt_view(self.home)
    }

    /// A parser for `source` that knows no home directory.
    pub fn new(source: Source) -> (p: Parser)
        ensures
            p.text() == source.raw@,
            p.home_dir() is None,
    {
        Parser { src: source, home: None }
    }

    /// The same parser with the given home directory.
    pub fn home(self, home: Option<String>) -> (p: Parser)
        ensures
            p.text() == self.text(),
            p.home_dir() == opt_view(home),
    {
        Parser { src: self.src, home }
    }

    /// Reads the source over the initial settings.
    pub fn parse(self) -> (r: Result<Config, ParseError>)
        ensures
            outcome(r) == parsed(self.text(), initial(self.home_dir()), self.home_dir()),
    {
        self.parse_with_default(None)
    }

    /// Reads the source over `default`, or over the initial settings where
    /// none are given.
    pub fn parse_with_default(self, default: Option<Config>) -> (r: Result<Config, ParseError>)
        ensures
            outcome(r) == parsed(
                self.text(),
                match default {
                    Some(c) => c@,
                    None => initial(self.home_dir()),
                },
                self.home_dir(),
            ),
    {
        let home: Option<&str> = match &self.home {
            Some(h) => Some(h.as_str()),
            None => None,
        };
        let base = match default {
            Some(c) => c,
            None => Config::new(home),
        };
        match read_document(self.src.raw.as_str()) {
            Err(e) => Err(ParseError::Kdl(e)),
            Ok(nodes) => interpret(&nodes, base, home),
        }
    }
}

} // verus!
