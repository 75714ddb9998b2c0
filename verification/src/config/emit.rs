//! From settings back to a configuration document: the document that, read
//! over any settings, gives these settings again.

use vstd::prelude::*;
use crate::config::{Config, ConfigView, Mode, ONE_BITS, tilde_expanded};
use crate::config::fraction::{double_of, fraction_in_range, lemma_widened_rounds_back, widen};
use crate::config::document::{
    Child, ChildModel, Entry, EntryModel, Node, NodeModel, Span, Value, ValueModel, child_models,
    entry_models, node_models,
};
use crate::config::exclude::{set_get, set_len};
use crate::config::parser::{
    applied, apply_node, dash_values, default_flag, first_arg, inserted_all, last_prop, mode_of,
    mux_of, with_excludes, with_mode_children, with_path_children, with_paths,
};
use crate::config::error::ParseErrorView;
use crate::mux::MuxKind;
use crate::text::{copy_str, views};

verus! {

/// The span of what was never in a source text.
pub open spec fn nowhere() -> Span {
    Span { offset: 0, len: 0 }
}

/// An argument with the given value.
pub open spec fn arg(value: ValueModel) -> EntryModel {
    EntryModel { name: None, value, span: nowhere() }
}

/// The property `default=#false`.
pub open spec fn fresh() -> EntryModel {
    EntryModel { name: Some("default"@), value: ValueModel::Bool(false), span: nowhere() }
}

/// A node in braces with one string argument.
pub open spec fn named(name: Seq<char>, value: Seq<char>) -> ChildModel {
    ChildModel {
        name,
        name_span: nowhere(),
        span: nowhere(),
        entries: seq![arg(ValueModel::String(value))],
    }
}

/// A node at the top.
pub open spec fn top(name: Seq<char>, entries: Seq<EntryModel>, children: Option<Seq<ChildModel>>)
    -> NodeModel {
    NodeModel { name, name_span: nowhere(), span: nowhere(), entries, children }
}

/// One node named `name` for each of `values`.
pub open spec fn all_named(name: Seq<char>, values: Seq<Seq<char>>) -> Seq<ChildModel> {
    values.map_values(|v: Seq<char>| named(name, v))
}

/// The word for a multiplexer.
pub open spec fn mux_word(mux: MuxKind) -> Seq<char> {
    match mux {
        MuxKind::Tmux => "tmux"@,
        MuxKind::Zellij => "zellij"@,
    }
}

/// The number of a document for a fraction: the fraction in double
/// precision, and zero for what is no fraction.
pub open spec fn widened(bits: u32) -> u64 {
    if 0 < bits <= ONE_BITS {
        double_of(bits) as u64
    } else {
        0
    }
}

/// The node in the braces of `picker_mode` for a mode.
pub open spec fn mode_child(mode: Mode) -> ChildModel {
    match mode {
        Mode::Full => ChildModel {
            name: "full"@,
            name_span: nowhere(),
            span: nowhere(),
            entries: Seq::<EntryModel>::empty(),
        },
        Mode::Lines(n) => ChildModel {
            name: "lines"@,
            name_span: nowhere(),
            span: nowhere(),
            entries: seq![arg(ValueModel::Integer(n as int))],
        },
        Mode::Percentage(bits) => ChildModel {
            name: "percentage"@,
            name_span: nowhere(),
            span: nowhere(),
            entries: seq![arg(ValueModel::Float(widened(bits)))],
        },
    }
}

/// The document for settings: paths and excluded names start from nothing
/// and list all that the settings hold; each other setting has its node.
pub open spec fn document_of(c: ConfigView) -> Seq<NodeModel> {
    seq![
        top(
            "paths"@,
            seq![fresh()],
            Some(all_named("workspace"@, c.workspace) + all_named("single"@, c.single)),
        ),
        top("exclude_path"@, seq![fresh()], Some(all_named("-"@, c.excludes))),
        top("depth"@, seq![arg(ValueModel::Integer(c.depth as int))], None),
        top("default_worktree"@, seq![arg(ValueModel::Bool(c.default_worktree))], None),
        top("mux"@, seq![arg(ValueModel::String(mux_word(c.mux)))], None),
        top("picker_mode"@, Seq::<EntryModel>::empty(), Some(seq![mode_child(c.mode)])),
    ]
}

/// Settings that a document can hold as they are: no path begins a home
/// directory anew, no excluded name stands twice, and the depth and the
/// picker mode are within their ranges.
pub open spec fn settled(c: ConfigView, home: Option<Seq<char>>) -> bool {
    &&& forall|i: int| 0 <= i < c.workspace.len() ==> tilde_expanded(#[trigger] c.workspace[i], home)
        == c.workspace[i]
    &&& forall|i: int| 0 <= i < c.single.len() ==> tilde_expanded(#[trigger] c.single[i], home)
        == c.single[i]
    &&& c.excludes.no_duplicates()
    &&& c.depth <= usize::MAX
    &&& c.mode.valid()
}

/// What reading the document of `c` over `base` gives: `c`, but for the two
/// settings that no document holds.
pub open spec fn restored(c: ConfigView, base: ConfigView) -> ConfigView {
    ConfigView { worktree_mode: base.worktree_mode, markers: base.markers, ..c }
}

proof fn lemma_words_differ()
    ensures
        "paths"@ != "exclude_path"@,
        "paths"@ != "depth"@,
        "paths"@ != "default_worktree"@,
        "paths"@ != "mux"@,
        "paths"@ != "picker_mode"@,
        "exclude_path"@ != "depth"@,
        "exclude_path"@ != "default_worktree"@,
        "exclude_path"@ != "mux"@,
        "exclude_path"@ != "picker_mode"@,
        "depth"@ != "default_worktree"@,
        "depth"@ != "mux"@,
        "depth"@ != "picker_mode"@,
        "default_worktree"@ != "mux"@,
        "default_worktree"@ != "picker_mode"@,
        "mux"@ != "picker_mode"@,
        "workspace"@ != "single"@,
        "full"@ != "lines"@,
        "full"@ != "percentage"@,
        "lines"@ != "percentage"@,
        "tmux"@ != "zellij"@,
{
    reveal_strlit("paths");
    reveal_strlit("exclude_path");
    reveal_strlit("depth");
    reveal_strlit("default_worktree");
    reveal_strlit("mux");
    reveal_strlit("picker_mode");
    reveal_strlit("workspace");
    reveal_strlit("single");
    reveal_strlit("full");
    reveal_strlit("lines");
    reveal_strlit("percentage");
    reveal_strlit("tmux");
    reveal_strlit("zellij");
    assert("paths"@.len() == 5 && "depth"@.len() == 5);
    assert("paths"@[0] == 'p' && "depth"@[0] == 'd');
    assert("exclude_path"@.len() == 12);
    assert("default_worktree"@.len() == 16);
    assert("mux"@.len() == 3);
    assert("picker_mode"@.len() == 11);
    assert("workspace"@.len() == 9 && "single"@.len() == 6);
    assert("full"@.len() == 4 && "lines"@.len() == 5 && "percentage"@.len() == 10);
    assert("tmux"@.len() == 4 && "zellij"@.len() == 6);
}

proof fn lemma_fresh_is_false()
    ensures
        default_flag(seq![fresh()]) == Ok::<bool, ParseErrorView>(false),
{
    let e = seq![fresh()];
    assert(e.last() == fresh());
    assert(last_prop(e, "default"@) == Some(fresh()));
}

proof fn lemma_workspaces(
    values: Seq<Seq<char>>,
    rest: Seq<ChildModel>,
    cfg: ConfigView,
    home: Option<Seq<char>>,
)
    requires
        forall|i: int| 0 <= i < values.len() ==> tilde_expanded(#[trigger] values[i], home)
            == values[i],
    ensures
        with_path_children(all_named("workspace"@, values) + rest, cfg, home)
            == with_path_children(
            rest,
            ConfigView { workspace: cfg.workspace + values, ..cfg },
            home,
        ),
    decreases values.len(),
{
    let all = all_named("workspace"@, values) + rest;
    if values.len() == 0 {
        assert(all =~= rest);
        assert(cfg.workspace + values =~= cfg.workspace);
    } else {
        let tail = values.drop_first();
        let next = ConfigView { workspace: cfg.workspace.push(values[0]), ..cfg };
        assert(all[0] == named("workspace"@, values[0]));
        assert(all.drop_first() =~= all_named("workspace"@, tail) + rest);
        assert(tilde_expanded(values[0], home) == values[0]);
        assert forall|i: int| 0 <= i < tail.len() implies tilde_expanded(#[trigger] tail[i], home)
            == tail[i] by {
            assert(tail[i] == values[i + 1]);
        }
        lemma_workspaces(tail, rest, next, home);
        assert(next.workspace + tail =~= cfg.workspace + values);
    }
}

proof fn lemma_singles(values: Seq<Seq<char>>, cfg: ConfigView, home: Option<Seq<char>>)
    requires
        forall|i: int| 0 <= i < values.len() ==> tilde_expanded(#[trigger] values[i], home)
            == values[i],
    ensures
        with_path_children(all_named("single"@, values), cfg, home) == Ok::<
            ConfigView,
            ParseErrorView,
        >(ConfigView { single: cfg.single + values, ..cfg }),
    decreases values.len(),
{
    lemma_words_differ();
    let all = all_named("single"@, values);
    if values.len() == 0 {
        assert(cfg.single + values =~= cfg.single);
    } else {
        let tail = values.drop_first();
        let next = ConfigView { single: cfg.single.push(values[0]), ..cfg };
        assert(all[0] == named("single"@, values[0]));
        assert(all.drop_first() =~= all_named("single"@, tail));
        assert(tilde_expanded(values[0], home) == values[0]);
        assert forall|i: int| 0 <= i < tail.len() implies tilde_expanded(#[trigger] tail[i], home)
            == tail[i] by {
            assert(tail[i] == values[i + 1]);
        }
        lemma_singles(tail, next, home);
        assert(next.single + tail =~= cfg.single + values);
    }
}

proof fn lemma_dashes(values: Seq<Seq<char>>)
    ensures
        dash_values(all_named("-"@, values)) == Ok::<Seq<Seq<char>>, ParseErrorView>(values),
    decreases values.len(),
{
    let all = all_named("-"@, values);
    if values.len() == 0 {
        assert(values =~= Seq::<Seq<char>>::empty());
    } else {
        let tail = values.drop_first();
        assert(all[0] == named("-"@, values[0]));
        assert(all.drop_first() =~= all_named("-"@, tail));
        lemma_dashes(tail);
        let entries = all[0].entries;
        assert(entries[0].name is None);
        assert(first_arg(entries) == Some(entries[0]));
        assert(seq![values[0]] + tail =~= values);
    }
}

proof fn lemma_inserted_distinct(values: Seq<Seq<char>>)
    requires
        values.no_duplicates(),
    ensures
        inserted_all(Seq::<Seq<char>>::empty(), values) == values,
    decreases values.len(),
{
    if values.len() == 0 {
        assert(values =~= Seq::<Seq<char>>::empty());
    } else {
        let head = values.drop_last();
        lemma_inserted_distinct(head);
        assert(!head.contains(values.last())) by {
            if head.contains(values.last()) {
                let j = choose|j: int| 0 <= j < head.len() && head[j] == values.last();
                assert(values[j] == values[values.len() - 1]);
            }
        }
        assert(head.push(values.last()) =~= values);
    }
}

/// Reading the document of settings over any other settings gives the
/// settings back, but for the worktree mode and the project markers, which
/// no document holds.
pub proof fn law_document_restores(c: ConfigView, base: ConfigView, home: Option<Seq<char>>)
    requires
        settled(c, home),
    ensures
        applied(document_of(c), base, home) == Ok::<ConfigView, ParseErrorView>(
            restored(c, base),
        ),
{
    lemma_words_differ();
    lemma_fresh_is_false();
    let doc = document_of(c);
    let d1 = doc.drop_first();
    let d2 = d1.drop_first();
    let d3 = d2.drop_first();
    let d4 = d3.drop_first();
    let d5 = d4.drop_first();
    let d6 = d5.drop_first();
    assert(d6.len() == 0);
    let empty = Seq::<Seq<char>>::empty();
    // paths
    let s0 = ConfigView { workspace: empty, single: empty, ..base };
    let s1 = ConfigView { workspace: c.workspace, single: c.single, ..base };
    assert(with_paths(doc[0], base, home) == Ok::<ConfigView, ParseErrorView>(s1)) by {
        lemma_workspaces(c.workspace, all_named("single"@, c.single), s0, home);
        let mid = ConfigView { workspace: s0.workspace + c.workspace, ..s0 };
        lemma_singles(c.single, mid, home);
        assert(s0.workspace + c.workspace =~= c.workspace);
        assert(mid.single + c.single =~= c.single);
    }
    assert(apply_node(doc[0], base, home) == Ok::<ConfigView, ParseErrorView>(s1));
    // excluded names
    let s2 = ConfigView { excludes: c.excludes, ..s1 };
    assert(with_excludes(d1[0], s1) == Ok::<ConfigView, ParseErrorView>(s2)) by {
        lemma_dashes(c.excludes);
        lemma_inserted_distinct(c.excludes);
    }
    assert(apply_node(d1[0], s1, home) == Ok::<ConfigView, ParseErrorView>(s2));
    // depth
    let s3 = ConfigView { depth: c.depth, ..s2 };
    assert(apply_node(d2[0], s2, home) == Ok::<ConfigView, ParseErrorView>(s3));
    // default worktree
    let s4 = ConfigView { default_worktree: c.default_worktree, ..s3 };
    assert(apply_node(d3[0], s3, home) == Ok::<ConfigView, ParseErrorView>(s4));
    // multiplexer
    let s5 = ConfigView { mux: c.mux, ..s4 };
    assert(mux_of(mux_word(c.mux)) == Some(c.mux));
    assert(apply_node(d4[0], s4, home) == Ok::<ConfigView, ParseErrorView>(s5));
    // picker mode
    let s6 = ConfigView { mode: c.mode, ..s5 };
    let kids = seq![mode_child(c.mode)];
    match c.mode {
        Mode::Percentage(bits) => {
            lemma_widened_rounds_back(bits);
        },
        _ => {},
    }
    assert(mode_of(mode_child(c.mode)) == Ok::<Mode, ParseErrorView>(c.mode));
    assert(kids.drop_first().len() == 0);
    assert(with_mode_children(kids.drop_first(), c.mode) == Ok::<Mode, ParseErrorView>(c.mode));
    assert(with_mode_children(kids, s5.mode) == Ok::<Mode, ParseErrorView>(c.mode));
    assert(apply_node(d5[0], s5, home) == Ok::<ConfigView, ParseErrorView>(s6));
    assert(s6 == restored(c, base));
    assert(applied(d6, s6, home) == Ok::<ConfigView, ParseErrorView>(s6));
    assert(applied(d5, s5, home) == Ok::<ConfigView, ParseErrorView>(s6));
    assert(applied(d4, s4, home) == Ok::<ConfigView, ParseErrorView>(s6));
    assert(applied(d3, s3, home) == Ok::<ConfigView, ParseErrorView>(s6));
    assert(applied(d2, s2, home) == Ok::<ConfigView, ParseErrorView>(s6));
    assert(applied(d1, s1, home) == Ok::<ConfigView, ParseErrorView>(s6));
}

fn no_span() -> (s: Span)
    ensures
        s == nowhere(),
{
    Span { offset: 0, len: 0 }
}

fn make_named(name: &str, value: &str) -> (c: Child)
    ensures
        c@ == named(name@, value@),
{
    let mut entries: Vec<Entry> = Vec::new();
    entries.push(Entry { name: None, value: Value::String(copy_str(value)), span: no_span() });
    let c = Child { name: copy_str(name), name_span: no_span(), span: no_span(), entries };
    assert(entry_models(c.entries@) =~= seq![arg(ValueModel::String(value@))]);
    c
}

fn push_named(out: &mut Vec<Child>, name: &str, values: &Vec<String>)
    ensures
        child_models(final(out)@) == child_models(old(out)@) + all_named(name@, views(values@)),
{
    let ghost start = child_models(out@);
    let ghost all = all_named(name@, views(values@));
    let mut i: usize = 0;
    assert(start + all.take(0) =~= start);
    while i < values.len()
        invariant
            i <= values.len(),
            all == all_named(name@, views(values@)),
            child_models(out@) == start + all.take(i as int),
        decreases values.len() - i,
    {
        let ghost before = child_models(out@);
        out.push(make_named(name, values[i].as_str()));
        assert(child_models(out@) =~= before.push(all[i as int]));
        assert(all.take(i + 1) =~= all.take(i as int).push(all[i as int]));
        i += 1;
    }
    assert(all.take(values.len() as int) =~= all);
}

fn make_fresh() -> (entries: Vec<Entry>)
    ensures
        entry_models(entries@) == seq![fresh()],
{
    let mut entries: Vec<Entry> = Vec::new();
    entries.push(
        Entry { name: Some(copy_str("default")), value: Value::Bool(false), span: no_span() },
    );
    assert(entry_models(entries@) =~= seq![fresh()]);
    entries
}

fn one_arg(value: Value) -> (entries: Vec<Entry>)
    ensures
        entry_models(entries@) == seq![arg(value@)],
{
    let mut entries: Vec<Entry> = Vec::new();
    entries.push(Entry { name: None, value, span: no_span() });
    assert(entry_models(entries@) =~= seq![arg(value@)]);
    entries
}

fn make_top(name: &str, entries: Vec<Entry>, children: Option<Vec<Child>>) -> (n: Node)
    ensures
        n@ == top(
            name@,
            entry_models(entries@),
            match children {
                Some(c) => Some(child_models(c@)),
                None => None,
            },
        ),
{
    Node { name: copy_str(name), name_span: no_span(), span: no_span(), entries, children }
}

impl Config {
    /// The excluded names, in their order.
    pub fn excluded(&self) -> (names: Vec<String>)
        ensures
            views(names@) == self@.excludes,
    {
        let mut names: Vec<String> = Vec::new();
        let n = set_len(&self.exclude_path);
        let mut i: usize = 0;
        while i < n
            invariant
                i <= n,
                n == self@.excludes.len(),
                names.len() == i,
                forall|k: int| 0 <= k < i ==> (#[trigger] names@[k])@ == self@.excludes[k],
            decreases n - i,
        {
            match set_get(&self.exclude_path, i) {
                Some(s) => {
                    names.push(copy_str(s.as_str()));
                },
                None => {
                    assert(false);
                },
            }
            i += 1;
        }
        assert(views(names@) =~= self@.excludes);
        names
    }

    /// The document for these settings.
    pub fn to_document(&self) -> (doc: Vec<Node>)
        ensures
            node_models(doc@) == document_of(self@),
    {
        let mut doc: Vec<Node> = Vec::new();
        let mut paths: Vec<Child> = Vec::new();
        assert(child_models(paths@) =~= Seq::<ChildModel>::empty());
        push_named(&mut paths, "workspace", &self.search.workspace);
        push_named(&mut paths, "single", &self.search.single);
        assert(child_models(paths@) =~= all_named("workspace"@, self@.workspace) + all_named(
            "single"@,
            self@.single,
        ));
        doc.push(make_top("paths", make_fresh(), Some(paths)));
        let mut dashes: Vec<Child> = Vec::new();
        assert(child_models(dashes@) =~= Seq::<ChildModel>::empty());
        let names = self.excluded();
        push_named(&mut dashes, "-", &names);
        assert(child_models(dashes@) =~= all_named("-"@, self@.excludes));
        doc.push(make_top("exclude_path", make_fresh(), Some(dashes)));
        doc.push(make_top("depth", one_arg(Value::Integer(self.depth as i128)), None));
        doc.push(make_top("default_worktree", one_arg(Value::Bool(self.default_worktree)), None));
        let word = match self.mux {
            MuxKind::Tmux => copy_str("tmux"),
            MuxKind::Zellij => copy_str("zellij"),
        };
        doc.push(make_top("mux", one_arg(Value::String(word)), None));
        let mode = match self.mode {
            Mode::Full => {
                let entries: Vec<Entry> = Vec::new();
                assert(entry_models(entries@) =~= Seq::<EntryModel>::empty());
                Child { name: copy_str("full"), name_span: no_span(), span: no_span(), entries }
            },
            Mode::Lines(n) => Child {
                name: copy_str("lines"),
                name_span: no_span(),
                span: no_span(),
                entries: one_arg(Value::Integer(n as i128)),
            },
            Mode::Percentage(bits) => Child {
                name: copy_str("percentage"),
                name_span: no_span(),
                span: no_span(),
                entries: one_arg(
                    Value::Float(
                        if fraction_in_range(bits) {
                            widen(bits)
                        } else {
                            0
                        },
                    ),
                ),
            },
        };
        assert(mode@ == mode_child(self.mode));
        let mut kids: Vec<Child> = Vec::new();
        kids.push(mode);
        assert(child_models(kids@) =~= seq![mode_child(self.mode)]);
        let none: Vec<Entry> = Vec::new();
        assert(entry_models(none@) =~= Seq::<EntryModel>::empty());
        doc.push(make_top("picker_mode", none, Some(kids)));
        assert(node_models(doc@) =~= document_of(self@));
        doc
    }
}

} // verus!
