//! Registered paths and a few numbers, as the settings files hold them:
//! two sets of paths, a depth, a height and a finder.

use vstd::prelude::*;
use crate::config::{expand_home, tilde_expanded};
use crate::text::{same_str, views};
use crate::util::{join_path, joined_path};

verus! {

/// Which of the two settings files is meant.
#[derive(Debug, Clone, Copy, PartialEq, Eq, Structural)]
pub enum Location {
    Global,
    Local,
}

/// Whether a path is a root to walk or a path to take as it is.
#[derive(Debug, Clone, Copy, PartialEq, Eq, Structural)]
pub enum PathKind {
    Workspace,
    Single,
}

/// The program that shows a choice.
#[derive(Debug, Clone, Copy, PartialEq, Eq, Structural)]
pub enum FinderChoice {
    Fzf,
    Skim,
}

/// What one settings file holds, or several merged. Each of the two lists
/// is a set kept in the order of insertion.
#[derive(Debug, PartialEq, Eq)]
pub struct Settings {
    pub single_paths: Vec<String>,
    pub workspace_paths: Vec<String>,
    pub depth: Option<usize>,
    pub height: Option<usize>,
    pub finder: Option<FinderChoice>,
}

/// Settings as mathematical values.
pub struct SettingsView {
    pub single: Seq<Seq<char>>,
    pub workspace: Seq<Seq<char>>,
    pub depth: Option<usize>,
    pub height: Option<usize>,
    pub finder: Option<FinderChoice>,
}

impl View for Settings {
    type V = SettingsView;

    open spec fn view(&self) -> SettingsView {
        SettingsView {
            single: views(self.single_paths@),
            workspace: views(self.workspace_paths@),
            depth: self.depth,
            height: self.height,
            finder: self.finder,
        }
    }
}

/// `set` with `item` at its end unless it is there already.
pub open spec fn with_item(set: Seq<Seq<char>>, item: Seq<char>) -> Seq<Seq<char>> {
    if set.contains(item) {
        set
    } else {
        set.push(item)
    }
}

/// `set` with each of `items` put in, in order.
pub open spec fn with_items(set: Seq<Seq<char>>, items: Seq<Seq<char>>) -> Seq<Seq<char>>
    decreases items.len(),
{
    if items.len() == 0 {
        set
    } else {
        with_item(with_items(set, items.drop_last()), items.last())
    }
}

/// A height as the settings keep it: at least 1 and at most 100.
pub open spec fn clamped_height(h: usize) -> usize {
    if h < 1 {
        1
    } else if h > 100 {
        100
    } else {
        h
    }
}

/// The settings after those of one file were merged in: its paths are added,
/// and each of its numbers that is set replaces the one that was there, the
/// height brought into its range.
pub open spec fn merged(base: SettingsView, raw: SettingsView) -> SettingsView {
    SettingsView {
        single: with_items(base.single, raw.single),
        workspace: with_items(base.workspace, raw.workspace),
        depth: if raw.depth is Some {
            raw.depth
        } else {
            base.depth
        },
        height: match raw.height {
            Some(h) => Some(clamped_height(h)),
            None => base.height,
        },
        finder: if raw.finder is Some {
            raw.finder
        } else {
            base.finder
        },
    }
}

/// Settings that hold nothing.
pub open spec fn empty_settings() -> SettingsView {
    SettingsView {
        single: Seq::<Seq<char>>::empty(),
        workspace: Seq::<Seq<char>>::empty(),
        depth: None,
        height: None,
        finder: None,
    }
}

/// `base` with the file merged in, where there is a file.
pub open spec fn merged_if_some(base: SettingsView, raw: Option<Settings>) -> SettingsView {
    match raw {
        Some(r) => merged(base, r@),
        None => base,
    }
}

/// Putting an item into a set that has no item twice leaves it so.
pub proof fn law_settings_sets_stay_sets(set: Seq<Seq<char>>, item: Seq<char>)
    requires
        set.no_duplicates(),
    ensures
        with_item(set, item).no_duplicates(),
        with_item(set, item).contains(item),
        with_item(with_item(set, item), item) == with_item(set, item),
{
    if !set.contains(item) {
        assert(set.push(item)[set.len() as int] == item);
    }
}

fn holds(set: &Vec<String>, item: &str) -> (r: bool)
    ensures
        r == views(set@).contains(item@),
{
    let mut i: usize = 0;
    while i < set.len()
        invariant
            i <= set.len(),
            forall|k: int| 0 <= k < i ==> views(set@)[k] != item@,
        decreases set.len() - i,
    {
        if same_str(set[i].as_str(), item) {
            assert(views(set@)[i as int] == item@);
            return true;
        }
        i += 1;
    }
    false
}

fn put(set: &mut Vec<String>, item: String) -> (fresh: bool)
    ensures
        fresh == !views(old(set)@).contains(item@),
        views(final(set)@) == with_item(views(old(set)@), item@),
{
    if holds(set, item.as_str()) {
        false
    } else {
        let ghost before = views(set@);
        set.push(item);
        assert(views(set@) =~= before.push(item@));
        true
    }
}

fn put_all(set: &mut Vec<String>, items: Vec<String>)
    ensures
        views(final(set)@) == with_items(views(old(set)@), views(items@)),
{
    let ghost all = views(items@);
    let n = items.len();
    let mut i: usize = 0;
    assert(all.take(0) =~= Seq::<Seq<char>>::empty());
    while i < n
        invariant
            i <= n,
            n == items.len(),
            all == views(items@),
            views(set@) == with_items(views(old(set)@), all.take(i as int)),
        decreases n - i,
    {
        proof {
            assert(all.take(i + 1).drop_last() =~= all.take(i as int));
            assert(all.take(i + 1).last() == items@[i as int]@);
        }
        put(set, items[i].clone());
        i += 1;
    }
    assert(all.take(n as int) =~= all);
}

impl Settings {
    /// Settings that hold nothing.
    pub fn empty() -> (s: Settings)
        ensures
            s@ == empty_settings(),
    {
        let s = Settings {
            single_paths: Vec::new(),
            workspace_paths: Vec::new(),
            depth: None,
            height: None,
            finder: None,
        };
        assert(s@.single =~= Seq::<Seq<char>>::empty());
        assert(s@.workspace =~= Seq::<Seq<char>>::empty());
        s
    }

    /// The settings in force: a height of 50, then what the global file
    /// holds, then what the local file holds. A file that is not there is
    /// `None`.
    pub fn new(global: Option<Settings>, local: Option<Settings>) -> (s: Settings)
        ensures
            s@ == merged_if_some(
                merged_if_some(SettingsView { height: Some(50usize), ..empty_settings() }, global),
                local,
            ),
    {
        let mut s = Settings::empty();
        s.height = Some(50);
        if let Some(g) = global {
            s.merge(g);
        }
        if let Some(l) = local {
            s.merge(l);
        }
        s
    }

    /// The finder to use: the one that is set, else fzf.
    pub fn finder(&self) -> (f: FinderChoice)
        ensures
            f == match self.finder {
                Some(c) => c,
                None => FinderChoice::Fzf,
            },
    {
        match self.finder {
            Some(c) => c,
            None => FinderChoice::Fzf,
        }
    }

    /// The settings of one file alone: what it holds merged into nothing.
    pub fn from_location(file: Option<Settings>) -> (s: Settings)
        ensures
            s@ == merged_if_some(empty_settings(), file),
    {
        let mut s = Settings::empty();
        if let Some(f) = file {
            s.merge(f);
        }
        s
    }

    /// The settings file of a location: `config.toml` under the
    /// configuration directory for the global one, under the data directory
    /// for the local one.
    pub fn filepath_from_location(location: Location, config_dir: &str, data_dir: &str) -> (p:
        String)
        ensures
            p@ == joined_path(
                match location {
                    Location::Global => config_dir@,
                    Location::Local => data_dir@,
                },
                "config.toml"@,
            ),
    {
        match location {
            Location::Global => join_path(config_dir, "config.toml"),
            Location::Local => join_path(data_dir, "config.toml"),
        }
    }

    /// Merges the settings of one file into these.
    pub fn merge(&mut self, raw: Settings)
        ensures
            final(self)@ == merged(old(self)@, raw@),
    {
        put_all(&mut self.single_paths, raw.single_paths);
        put_all(&mut self.workspace_paths, raw.workspace_paths);
        if raw.depth.is_some() {
            self.depth = raw.depth;
        }
        match raw.height {
            Some(h) => {
                let c: usize = if h < 1 {
                    1
                } else if h > 100 {
                    100
                } else {
                    h
                };
                self.height = Some(c);
            },
            None => {},
        }
        if raw.finder.is_some() {
            self.finder = raw.finder;
        }
    }

    /// Whether `path` is registered, as a root or as a single path.
    pub fn contains_path(&self, path: &String) -> (r: bool)
        ensures
            r == (self@.workspace.contains(path@) || self@.single.contains(path@)),
    {
        holds(&self.workspace_paths, path.as_str()) || holds(&self.single_paths, path.as_str())
    }

    /// Registers `path` under `kind`. The result says whether the path was
    /// new to that kind.
    pub fn add_path(&mut self, path: String, kind: PathKind) -> (fresh: bool)
        ensures
            fresh == !(match kind {
                PathKind::Single => old(self)@.single,
                PathKind::Workspace => old(self)@.workspace,
            }).contains(path@),
            final(self)@ == match kind {
                PathKind::Single => SettingsView {
                    single: with_item(old(self)@.single, path@),
                    ..old(self)@
                },
                PathKind::Workspace => SettingsView {
                    workspace: with_item(old(self)@.workspace, path@),
                    ..old(self)@
                },
            },
    {
        match kind {
            PathKind::Single => put(&mut self.single_paths, path),
            PathKind::Workspace => put(&mut self.workspace_paths, path),
        }
    }
}

/// `path` with a leading `~` replaced by the home directory.
pub fn normalize_path(path: &str, home: &str) -> (r: String)
    ensures
        r@ == tilde_expanded(path@, Some(home@)),
{
    expand_home(path, Some(home))
}

/// The value of a decimal digit, and nothing for any other character.
pub open spec fn digit_value(c: char) -> Option<nat> {
    if '0' as u32 <= c as u32 && c as u32 <= '9' as u32 {
        Some((c as u32 - '0' as u32) as nat)
    } else {
        None
    }
}

/// All characters are decimal digits.
pub open spec fn all_digits(s: Seq<char>) -> bool {
    forall|i: int| 0 <= i < s.len() ==> digit_value(#[trigger] s[i]) is Some
}

/// The number that a run of decimal digits stands for.
pub open spec fn digits_value(s: Seq<char>) -> nat
    decreases s.len(),
{
    if s.len() == 0 {
        0
    } else {
        digits_value(s.drop_last()) * 10 + match digit_value(s.last()) {
            Some(d) => d,
            None => 0,
        }
    }
}

/// The number that a text stands for: one or more decimal digits, after a
/// `+` or without one, that make a number within the machine's range.
pub open spec fn number_of(s: Seq<char>) -> Option<usize> {
    let body = if s.len() > 0 && s[0] == '+' {
        s.subrange(1, s.len() as int)
    } else {
        s
    };
    if body.len() > 0 && all_digits(body) && digits_value(body) <= usize::MAX {
        Some(digits_value(body) as usize)
    } else {
        None
    }
}

/// The finder with the given name.
pub open spec fn finder_of(name: Seq<char>) -> Option<FinderChoice> {
    if name == "fzf"@ {
        Some(FinderChoice::Fzf)
    } else if name == "skim"@ {
        Some(FinderChoice::Skim)
    } else {
        None
    }
}

/// A longer run of digits stands for no smaller number.
pub proof fn lemma_digits_grow(s: Seq<char>, n: int)
    requires
        0 <= n <= s.len(),
    ensures
        digits_value(s.take(n)) <= digits_value(s),
    decreases s.len() - n,
{
    if n == s.len() {
        assert(s.take(n) =~= s);
    } else {
        assert(s.take(n + 1).drop_last() =~= s.take(n));
        lemma_digits_grow(s, n + 1);
    }
}

/// Why a setting was not changed.
#[derive(Debug, Clone, Copy, PartialEq, Eq, Structural)]
pub enum SettingError {
    /// There is no setting of that name.
    Unknown,
    /// The value is no number.
    InvalidNumber,
    /// The value names no finder.
    InvalidFinder,
}

/// The settings after the setting `name` was set from the text `value`: the
/// depth and the height from a number, the height brought into its range,
/// and the finder from its name.
pub open spec fn with_value(s: SettingsView, name: Seq<char>, value: Seq<char>) -> Result<
    SettingsView,
    SettingError,
> {
    if name == "depth"@ {
        match number_of(value) {
            Some(n) => Ok(SettingsView { depth: Some(n), ..s }),
            None => Err(SettingError::InvalidNumber),
        }
    } else if name == "height"@ {
        match number_of(value) {
            Some(n) => Ok(SettingsView { height: Some(clamped_height(n)), ..s }),
            None => Err(SettingError::InvalidNumber),
        }
    } else if name == "finder"@ {
        match finder_of(value) {
            Some(f) => Ok(SettingsView { finder: Some(f), ..s }),
            None => Err(SettingError::InvalidFinder),
        }
    } else {
        Err(SettingError::Unknown)
    }
}

/// The setting `name` as a text, where it is set.
pub open spec fn value_of(s: SettingsView, name: Seq<char>) -> Result<
    Option<Seq<char>>,
    SettingError,
> {
    if name == "depth"@ {
        Ok(
            match s.depth {
                Some(n) => Some(crate::text::decimal(n as nat)),
                None => None,
            },
        )
    } else if name == "height"@ {
        Ok(
            match s.height {
                Some(n) => Some(crate::text::decimal(n as nat)),
                None => None,
            },
        )
    } else if name == "finder"@ {
        Ok(
            match s.finder {
                Some(FinderChoice::Fzf) => Some("fzf"@),
                Some(FinderChoice::Skim) => Some("skim"@),
                None => None,
            },
        )
    } else {
        Err(SettingError::Unknown)
    }
}

/// The number that a text stands for.
pub fn parse_number(text: &str) -> (r: Option<usize>)
    ensures
        r == number_of(text@),
{
    let chars = crate::text::chars_of(text);
    let start: usize = if chars.len() > 0 && chars[0] == '+' {
        1
    } else {
        0
    };
    let ghost body = chars@.subrange(start as int, chars@.len() as int);
    assert(body == if text@.len() > 0 && text@[0] == '+' {
        text@.subrange(1, text@.len() as int)
    } else {
        text@
    }) by {
        if start == 0 {
            assert(body =~= text@);
        }
    }
    if chars.len() == start {
        return None;
    }
    let mut acc: usize = 0;
    let mut i: usize = start;
    assert(body.take(0) =~= Seq::<char>::empty());
    while i < chars.len()
        invariant
            start <= i <= chars.len(),
            start < chars.len(),
            body == chars@.subrange(start as int, chars@.len() as int),
            body == if text@.len() > 0 && text@[0] == '+' {
                text@.subrange(1, text@.len() as int)
            } else {
                text@
            },
            all_digits(body.take(i - start)),
            acc as nat == digits_value(body.take(i - start)),
        decreases chars.len() - i,
    {
        let c = chars[i];
        let code = c as u32;
        let ghost next = body.take(i + 1 - start);
        proof {
            assert(next.drop_last() =~= body.take(i - start));
            assert(next.last() == c);
            assert(body[i - start] == c);
        }
        if code < '0' as u32 || code > '9' as u32 {
            assert(digit_value(body[i - start]) is None);
            return None;
        }
        let d: usize = (code - '0' as u32) as usize;
        if acc > (usize::MAX - d) / 10 {
            proof {
                assert(digits_value(next) == acc * 10 + d);
                assert(acc * 10 + d > usize::MAX) by (nonlinear_arith)
                    requires
                        acc > (usize::MAX - d) / 10,
                        d <= 9,
                ;
                lemma_digits_grow(body, i + 1 - start);
            }
            return None;
        }
        assert(acc * 10 + d <= usize::MAX) by (nonlinear_arith)
            requires
                acc <= (usize::MAX - d) / 10,
                d <= 9,
        ;
        acc = acc * 10 + d;
        proof {
            assert forall|k: int| 0 <= k < next.len() implies digit_value(#[trigger] next[k])
                is Some by {
                if k < next.len() - 1 {
                    assert(next[k] == body.take(i - start)[k]);
                }
            }
        }
        i += 1;
    }
    assert(body.take(chars.len() - start) =~= body);
    Some(acc)
}

/// `set` without `item`.
pub open spec fn without(set: Seq<Seq<char>>, item: Seq<char>) -> Seq<Seq<char>> {
    set.filter(|p: Seq<char>| p != item)
}

fn remove_item(set: &mut Vec<String>, item: &str) -> (found: bool)
    ensures
        found == views(old(set)@).contains(item@),
        views(final(set)@) == without(views(old(set)@), item@),
{
    let ghost all = views(set@);
    let ghost other = |p: Seq<char>| p != item@;
    let mut kept: Vec<String> = Vec::new();
    let mut found = false;
    let mut i: usize = 0;
    proof {
        reveal(Seq::filter);
        assert(all.take(0).filter(other) =~= Seq::<Seq<char>>::empty());
        assert(views(kept@) =~= Seq::<Seq<char>>::empty());
    }
    while i < set.len()
        invariant
            i <= set.len(),
            *set == *old(set),
            all == views(set@),
            other == |p: Seq<char>| p != item@,
            found == (exists|j: int| 0 <= j < i && all[j] == item@),
            views(kept@) == all.take(i as int).filter(other),
        decreases set.len() - i,
    {
        proof {
            reveal(Seq::filter);
            assert(all.take(i + 1).drop_last() =~= all.take(i as int));
            assert(all.take(i + 1).last() == set@[i as int]@);
        }
        if same_str(set[i].as_str(), item) {
            found = true;
        } else {
            let ghost before = views(kept@);
            kept.push(set[i].clone());
            assert(views(kept@) =~= before.push(set@[i as int]@));
        }
        i += 1;
    }
    assert(all.take(set.len() as int) =~= all);
    *set = kept;
    found
}

/// The line that says that a path is registered already.
pub open spec fn exists_message(path: Seq<char>) -> Seq<char> {
    "Path exists: "@ + path
}

/// The settings after each of `paths` was registered under `kind` unless it
/// was registered already, under either kind.
pub open spec fn registered(s: SettingsView, paths: Seq<Seq<char>>, kind: PathKind) -> SettingsView
    decreases paths.len(),
{
    if paths.len() == 0 {
        s
    } else {
        let before = registered(s, paths.drop_last(), kind);
        let p = paths.last();
        if before.workspace.contains(p) || before.single.contains(p) {
            before
        } else {
            match kind {
                PathKind::Single => SettingsView { single: before.single.push(p), ..before },
                PathKind::Workspace => SettingsView {
                    workspace: before.workspace.push(p),
                    ..before
                },
            }
        }
    }
}

/// One line for each of `paths` that was registered already when its turn
/// came.
pub open spec fn refused(s: SettingsView, paths: Seq<Seq<char>>, kind: PathKind) -> Seq<Seq<char>>
    decreases paths.len(),
{
    if paths.len() == 0 {
        Seq::<Seq<char>>::empty()
    } else {
        let before = registered(s, paths.drop_last(), kind);
        let lines = refused(s, paths.drop_last(), kind);
        let p = paths.last();
        if before.workspace.contains(p) || before.single.contains(p) {
            lines.push(exists_message(p))
        } else {
            lines
        }
    }
}

/// A path with the letter of its kind before it, as it is offered for
/// removal.
pub open spec fn labelled(kind: PathKind, path: Seq<char>) -> Seq<char> {
    match kind {
        PathKind::Workspace => "w| "@ + path,
        PathKind::Single => "s| "@ + path,
    }
}

/// A path with the letter of its kind before it, as it is listed.
pub open spec fn listed(kind: PathKind, path: Seq<char>) -> Seq<char> {
    match kind {
        PathKind::Workspace => "w "@ + path,
        PathKind::Single => "s "@ + path,
    }
}

fn prefixed_all(prefix: &str, paths: &Vec<String>, out: &mut Vec<String>)
    ensures
        views(final(out)@) == views(old(out)@) + views(paths@).map_values(
            |p: Seq<char>| prefix@ + p,
        ),
{
    let ghost start = views(out@);
    let ghost all = views(paths@).map_values(|p: Seq<char>| prefix@ + p);
    let head = crate::text::chars_of(prefix);
    let mut i: usize = 0;
    assert(start + all.take(0) =~= start);
    while i < paths.len()
        invariant
            i <= paths.len(),
            head@ == prefix@,
            all == views(paths@).map_values(|p: Seq<char>| prefix@ + p),
            views(out@) == start + all.take(i as int),
        decreases paths.len() - i,
    {
        let mut line = crate::text::copy_chars(&head);
        let tail = crate::text::chars_of(paths[i].as_str());
        crate::text::append_chars(&mut line, &tail);
        let ghost before = views(out@);
        out.push(crate::text::string_from_chars(&line));
        assert(views(out@) =~= before.push(all[i as int]));
        assert(all.take(i + 1) =~= all.take(i as int).push(all[i as int]));
        i += 1;
    }
    assert(all.take(paths.len() as int) =~= all);
}

impl Settings {
    /// Sets the setting `name` from the text `value`.
    pub fn set_value(&mut self, name: &str, value: &str) -> (r: Result<(), SettingError>)
        ensures
            match with_value(old(self)@, name@, value@) {
                Ok(s) => r is Ok && final(self)@ == s,
                Err(e) => r == Err::<(), SettingError>(e) && final(self)@ == old(self)@,
            },
    {
        if same_str(name, "depth") {
            match parse_number(value) {
                Some(n) => {
                    self.depth = Some(n);
                    Ok(())
                },
                None => Err(SettingError::InvalidNumber),
            }
        } else if same_str(name, "height") {
            match parse_number(value) {
                Some(n) => {
                    let c: usize = if n < 1 {
                        1
                    } else if n > 100 {
                        100
                    } else {
                        n
                    };
                    self.height = Some(c);
                    Ok(())
                },
                None => Err(SettingError::InvalidNumber),
            }
        } else if same_str(name, "finder") {
            if same_str(value, "fzf") {
                self.finder = Some(FinderChoice::Fzf);
                Ok(())
            } else if same_str(value, "skim") {
                self.finder = Some(FinderChoice::Skim);
                Ok(())
            } else {
                Err(SettingError::InvalidFinder)
            }
        } else {
            Err(SettingError::Unknown)
        }
    }

    /// The setting `name` as a text: `Ok(None)` where it is not set, and an
    /// error where there is no setting of that name.
    pub fn get_value(&self, name: &str) -> (r: Result<Option<String>, SettingError>)
        ensures
            match r {
                Ok(v) => value_of(self@, name@) == Ok::<Option<Seq<char>>, SettingError>(
                    crate::text::opt_view(v),
                ),
                Err(e) => value_of(self@, name@) == Err::<Option<Seq<char>>, SettingError>(e),
            },
    {
        if same_str(name, "depth") {
            Ok(
                match self.depth {
                    Some(n) => Some(crate::text::decimal_of(n)),
                    None => None,
                },
            )
        } else if same_str(name, "height") {
            Ok(
                match self.height {
                    Some(n) => Some(crate::text::decimal_of(n)),
                    None => None,
                },
            )
        } else if same_str(name, "finder") {
            Ok(
                match self.finder {
                    Some(FinderChoice::Fzf) => Some(crate::text::copy_str("fzf")),
                    Some(FinderChoice::Skim) => Some(crate::text::copy_str("skim")),
                    None => None,
                },
            )
        } else {
            Err(SettingError::Unknown)
        }
    }

    /// Registers each of `paths` under `kind` unless it is registered
    /// already, and gives a line for each that was.
    pub fn add_paths(&mut self, paths: Vec<String>, kind: PathKind) -> (lines: Vec<String>)
        ensures
            final(self)@ == registered(old(self)@, views(paths@), kind),
            views(lines@) == refused(old(self)@, views(paths@), kind),
    {
        let ghost all = views(paths@);
        let mut lines: Vec<String> = Vec::new();
        let mut i: usize = 0;
        assert(all.take(0) =~= Seq::<Seq<char>>::empty());
        assert(views(lines@) =~= Seq::<Seq<char>>::empty());
        while i < paths.len()
            invariant
                i <= paths.len(),
                all == views(paths@),
                self@ == registered(old(self)@, all.take(i as int), kind),
                views(lines@) == refused(old(self)@, all.take(i as int), kind),
            decreases paths.len() - i,
        {
            proof {
                assert(all.take(i + 1).drop_last() =~= all.take(i as int));
                assert(all.take(i + 1).last() == paths@[i as int]@);
            }
            let p = paths[i].clone();
            if self.contains_path(&p) {
                let mut line = crate::text::chars_of("Path exists: ");
                let tail = crate::text::chars_of(p.as_str());
                crate::text::append_chars(&mut line, &tail);
                let ghost before = views(lines@);
                lines.push(crate::text::string_from_chars(&line));
                assert(views(lines@) =~= before.push(exists_message(p@)));
            } else {
                let ghost before = self@;
                self.add_path(p, kind);
                assert(self@ == match kind {
                    PathKind::Single => SettingsView {
                        single: before.single.push(paths@[i as int]@),
                        ..before
                    },
                    PathKind::Workspace => SettingsView {
                        workspace: before.workspace.push(paths@[i as int]@),
                        ..before
                    },
                });
            }
            i += 1;
        }
        assert(all.take(paths.len() as int) =~= all);
        lines
    }

    /// The paths as they are offered for removal: the roots, then the single
    /// paths, each with the letter of its kind before it.
    pub fn removal_choices(&self) -> (lines: Vec<String>)
        ensures
            views(lines@) == self@.workspace.map_values(
                |p: Seq<char>| labelled(PathKind::Workspace, p),
            ) + self@.single.map_values(|p: Seq<char>| labelled(PathKind::Single, p)),
    {
        let mut lines: Vec<String> = Vec::new();
        assert(views(lines@) =~= Seq::<Seq<char>>::empty());
        prefixed_all("w| ", &self.workspace_paths, &mut lines);
        prefixed_all("s| ", &self.single_paths, &mut lines);
        assert(views(lines@) =~= self@.workspace.map_values(
            |p: Seq<char>| labelled(PathKind::Workspace, p),
        ) + self@.single.map_values(|p: Seq<char>| labelled(PathKind::Single, p)));
        lines
    }

    /// The paths as they are listed: the single paths, then the roots, each
    /// with the letter of its kind before it.
    pub fn listing(&self) -> (lines: Vec<String>)
        ensures
            views(lines@) == self@.single.map_values(|p: Seq<char>| listed(PathKind::Single, p))
                + self@.workspace.map_values(|p: Seq<char>| listed(PathKind::Workspace, p)),
    {
        let mut lines: Vec<String> = Vec::new();
        assert(views(lines@) =~= Seq::<Seq<char>>::empty());
        prefixed_all("s ", &self.single_paths, &mut lines);
        prefixed_all("w ", &self.workspace_paths, &mut lines);
        assert(views(lines@) =~= self@.single.map_values(
            |p: Seq<char>| listed(PathKind::Single, p),
        ) + self@.workspace.map_values(|p: Seq<char>| listed(PathKind::Workspace, p)));
        lines
    }

    /// Takes `path` out of the paths of `kind`. The result says whether it
    /// was there.
    pub fn remove_path(&mut self, path: &str, kind: PathKind) -> (found: bool)
        ensures
            found == (match kind {
                PathKind::Single => old(self)@.single,
                PathKind::Workspace => old(self)@.workspace,
            }).contains(path@),
            final(self)@ == match kind {
                PathKind::Single => SettingsView {
                    single: without(old(self)@.single, path@),
                    ..old(self)@
                },
                PathKind::Workspace => SettingsView {
                    workspace: without(old(self)@.workspace, path@),
                    ..old(self)@
                },
            },
    {
        match kind {
            PathKind::Single => remove_item(&mut self.single_paths, path),
            PathKind::Workspace => remove_item(&mut self.workspace_paths, path),
        }
    }

    /// Takes out the path that a choice for removal stands for: what follows
    /// its first three characters, from the single paths where the choice
    /// begins with `s`, else from the roots. A choice of fewer than three
    /// characters stands for nothing.
    pub fn remove_choice(&mut self, choice: &str) -> (found: bool)
        ensures
            choice@.len() < 3 ==> !found && final(self)@ == old(self)@,
            choice@.len() >= 3 ==> {
                let path = choice@.subrange(3, choice@.len() as int);
                if choice@[0] == 's' {
                    found == old(self)@.single.contains(path) && final(self)@ == (SettingsView {
                        single: without(old(self)@.single, path),
                        ..old(self)@
                    })
                } else {
                    found == old(self)@.workspace.contains(path) && final(self)@ == (SettingsView {
                        workspace: without(old(self)@.workspace, path),
                        ..old(self)@
                    })
                }
            },
    {
        let chars = crate::text::chars_of(choice);
        if chars.len() < 3 {
            return false;
        }
        let mut path: Vec<char> = Vec::new();
        let mut i: usize = 3;
        while i < chars.len()
            invariant
                3 <= i <= chars.len(),
                path@ == chars@.subrange(3, i as int),
            decreases chars.len() - i,
        {
            path.push(chars[i]);
            assert(chars@.subrange(3, i + 1) =~= chars@.subrange(3, i as int).push(chars@[i as int]));
            i += 1;
        }
        let text = crate::text::string_from_chars(&path);
        if chars[0] == 's' {
            self.remove_path(text.as_str(), PathKind::Single)
        } else {
            self.remove_path(text.as_str(), PathKind::Workspace)
        }
    }
}

} // verus!
