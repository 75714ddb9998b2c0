//! The picker: what a key does to the query, the caret and the highlight,
//! and how many rows the picker takes.
//!
//! The terminal and the matcher are not in here. Whoever runs the picker
//! draws a frame, reads a key, and hands the key over together with the
//! number of items that match at that moment.

use vstd::prelude::*;
use crate::config::Mode;
use crate::config::fraction::{fraction_rows, rows_of_fraction};
use crate::text::{
    chars_of, copy_chars, copy_str, has_prefix, same_chars, starts_with, string_from_chars, views,
};

verus! {

/// The longest query that the picker takes.
pub const QUERY_LIMIT: usize = 65535;

/// A key, as far as the picker tells keys apart.
#[derive(Debug, Clone, Copy, PartialEq, Eq, Structural)]
pub enum Key {
    Esc,
    Enter,
    Backspace,
    Delete,
    Up,
    Down,
    Left,
    Right,
    Tab,
    /// A character without the control key.
    Char(char),
    /// A character together with the control key.
    Ctrl(char),
    /// Any other key.
    Other,
}

/// What a key meant for the selection.
#[derive(Debug, Clone, Copy, PartialEq, Eq, Structural)]
pub enum Outcome {
    /// The picker goes on.
    Continue,
    /// The user gave up.
    Cancel,
    /// The user took the match at this position of the ranking.
    Accept(usize),
}

/// What a key meant for the matcher.
#[derive(Debug, Clone, Copy, PartialEq, Eq, Structural)]
pub enum Refilter {
    /// The query is as it was.
    Keep,
    /// The query changed and starts with what it was before.
    Extend,
    /// The query changed in another way.
    Replace,
}

/// The state of a picker.
#[derive(Debug, PartialEq, Eq)]
pub struct Picker {
    pub items: Vec<String>,
    pub prompt: String,
    pub filter: Vec<char>,
    pub cursor_pos: usize,
    pub selection: Option<usize>,
    pub should_exit: bool,
    pub select_single: bool,
    pub marks: Vec<usize>,
}

/// The part of the state that keys change.
pub struct PickerView {
    pub filter: Seq<char>,
    pub cursor: nat,
    pub selection: Option<nat>,
    pub exit: bool,
}

/// The rows that the picker takes of a terminal with `rows` rows: all of
/// them, or the lines asked for, or the fraction asked for, and never more
/// than there are.
pub open spec fn height_of(mode: Mode, rows: u16) -> nat {
    match mode {
        Mode::Full => rows as nat,
        Mode::Lines(n) => if n <= rows {
            n as nat
        } else {
            rows as nat
        },
        Mode::Percentage(bits) => if fraction_rows(rows as nat, bits) <= rows {
            fraction_rows(rows as nat, bits)
        } else {
            rows as nat
        },
    }
}

/// The highlight brought into the range of the matches: none where nothing
/// matches, else the first match where there was none, else at most the last.
pub open spec fn clamped(selection: Option<nat>, count: nat) -> Option<nat> {
    if count == 0 {
        None
    } else {
        match selection {
            Some(i) => if i >= count {
                Some((count - 1) as nat)
            } else {
                Some(i)
            },
            None => Some(0),
        }
    }
}

/// The highlight one match further up: toward the end of the ranking.
pub open spec fn moved_up(selection: Option<nat>, count: nat) -> Option<nat> {
    if count == 0 {
        None
    } else {
        match selection {
            Some(i) => if i + 1 >= count {
                Some((count - 1) as nat)
            } else {
                Some(i + 1)
            },
            None => Some(0),
        }
    }
}

/// The highlight one match further down: toward the best match.
pub open spec fn moved_down(selection: Option<nat>, count: nat) -> Option<nat> {
    if count == 0 {
        None
    } else {
        match selection {
            Some(i) => if i == 0 {
                Some(0)
            } else if i > count {
                Some((count - 1) as nat)
            } else {
                Some((i - 1) as nat)
            },
            None => Some(0),
        }
    }
}

/// How the matcher learns of a new query.
pub open spec fn refilter_for(before: Seq<char>, now: Seq<char>) -> Refilter {
    if now == before {
        Refilter::Keep
    } else if starts_with(now, before) {
        Refilter::Extend
    } else {
        Refilter::Replace
    }
}

/// The state after a key, with `count` items matching.
pub open spec fn after_key(s: PickerView, key: Key, count: nat) -> PickerView {
    match key {
        Key::Esc => PickerView { exit: true, ..s },
        Key::Enter => match s.selection {
            Some(i) => if i < count {
                PickerView { exit: true, ..s }
            } else {
                s
            },
            None => s,
        },
        Key::Backspace => if s.cursor == 0 {
            s
        } else {
            PickerView {
                filter: s.filter.remove(s.cursor - 1),
                cursor: (s.cursor - 1) as nat,
                ..s
            }
        },
        Key::Delete => if s.cursor >= s.filter.len() {
            s
        } else {
            PickerView { filter: s.filter.remove(s.cursor as int), ..s }
        },
        Key::Up => PickerView { selection: moved_up(s.selection, count), ..s },
        Key::Down => PickerView { selection: moved_down(s.selection, count), ..s },
        Key::Left => if s.cursor > 0 {
            PickerView { cursor: (s.cursor - 1) as nat, ..s }
        } else {
            s
        },
        Key::Right => if s.cursor < s.filter.len() {
            PickerView { cursor: s.cursor + 1, ..s }
        } else {
            s
        },
        Key::Ctrl(c) => if c == 'c' || c == 'd' || c == 'z' {
            PickerView { exit: true, ..s }
        } else if c == 'p' {
            PickerView { selection: moved_up(s.selection, count), ..s }
        } else if c == 'n' {
            PickerView { selection: moved_down(s.selection, count), ..s }
        } else if c == 'b' || c == 'h' {
            if s.cursor > 0 {
                PickerView { cursor: (s.cursor - 1) as nat, ..s }
            } else {
                s
            }
        } else if c == 'f' || c == 'l' {
            if s.cursor < s.filter.len() {
                PickerView { cursor: s.cursor + 1, ..s }
            } else {
                s
            }
        } else {
            s
        },
        Key::Char(c) => if s.filter.len() >= QUERY_LIMIT {
            s
        } else {
            PickerView { filter: s.filter.insert(s.cursor as int, c), cursor: s.cursor + 1, ..s }
        },
        Key::Tab => s,
        Key::Other => s,
    }
}

/// What a key means for the selection.
pub open spec fn outcome_of(s: PickerView, key: Key, count: nat) -> Outcome {
    match key {
        Key::Esc => Outcome::Cancel,
        Key::Ctrl(c) => if c == 'c' || c == 'd' || c == 'z' {
            Outcome::Cancel
        } else {
            Outcome::Continue
        },
        Key::Enter => match s.selection {
            Some(i) => if i < count {
                Outcome::Accept(i as usize)
            } else {
                Outcome::Continue
            },
            None => Outcome::Continue,
        },
        _ => Outcome::Continue,
    }
}

/// The items at the marked positions, in the order of the marks. A mark
/// beyond the items stands for nothing.
pub open spec fn marked_of(items: Seq<Seq<char>>, marks: Seq<usize>) -> Seq<Seq<char>>
    decreases marks.len(),
{
    if marks.len() == 0 {
        Seq::<Seq<char>>::empty()
    } else if marks.last() < items.len() {
        marked_of(items, marks.drop_last()).push(items[marks.last() as int])
    } else {
        marked_of(items, marks.drop_last())
    }
}

/// Whether the picker answers at once, without showing itself: it was told
/// to, a query is set, and exactly one item matches it.
pub open spec fn answers_at_once(single: bool, filter: Seq<char>, count: nat) -> bool {
    single && filter.len() > 0 && count == 1
}

/// The rows that the picker takes of a terminal with `rows` rows.
pub fn height(mode: Mode, rows: u16) -> (h: u16)
    ensures
        h == height_of(mode, rows),
        h <= rows,
{
    match mode {
        Mode::Full => rows,
        Mode::Lines(n) => if n <= rows {
            n
        } else {
            rows
        },
        Mode::Percentage(bits) => {
            let scaled = rows_of_fraction(rows, bits);
            if scaled >= rows as u64 {
                rows
            } else {
                scaled as u16
            }
        },
    }
}

impl View for Picker {
    type V = PickerView;

    open spec fn view(&self) -> PickerView {
        PickerView {
            filter: self.filter@,
            cursor: self.cursor_pos as nat,
            selection: match self.selection {
                Some(i) => Some(i as nat),
                None => None,
            },
            exit: self.should_exit,
        }
    }
}

impl Picker {
    /// The caret is within the query and the query within its limit.
    pub open spec fn wf(&self) -> bool {
        self.cursor_pos <= self.filter@.len() <= QUERY_LIMIT
    }

    /// An empty picker that answers at once where it can.
    pub fn new() -> (p: Picker)
        ensures
            p.wf(),
            p.items@.len() == 0,
            p.prompt@.len() == 0,
            p.filter@.len() == 0,
            p.cursor_pos == 0,
            p.selection is None,
            !p.should_exit,
            p.select_single,
            p.marks@.len() == 0,
    {
        Picker {
            items: Vec::new(),
            prompt: String::new(),
            filter: Vec::new(),
            cursor_pos: 0,
            selection: None,
            should_exit: false,
            select_single: true,
            marks: Vec::new(),
        }
    }

    /// The same picker over the given items.
    pub fn items(self, list: &Vec<String>) -> (p: Picker)
        requires
            self.wf(),
        ensures
            p.wf(),
            views(p.items@) == views(self.items@) + views(list@),
            p.prompt == self.prompt,
            p.filter == self.filter,
            p.cursor_pos == self.cursor_pos,
            p.selection == self.selection,
            p.should_exit == self.should_exit,
            p.select_single == self.select_single,
            p.marks == self.marks,
    {
        let mut p = self;
        let mut i: usize = 0;
        assert(views(p.items@) + views(list@).take(0) =~= views(p.items@));
        while i < list.len()
            invariant
                i <= list.len(),
                views(p.items@) == views(self.items@) + views(list@).take(i as int),
                p.prompt == self.prompt,
                p.filter == self.filter,
                p.cursor_pos == self.cursor_pos,
                p.selection == self.selection,
                p.should_exit == self.should_exit,
                p.select_single == self.select_single,
                p.marks == self.marks,
            decreases list.len() - i,
        {
            let ghost before = views(p.items@);
            p.items.push(copy_str(list[i].as_str()));
            assert(views(p.items@) =~= before.push(list@[i as int]@));
            assert(views(list@).take(i + 1) =~= views(list@).take(i as int).push(list@[i as int]@));
            i += 1;
        }
        assert(views(list@).take(list.len() as int) =~= views(list@));
        p
    }

    /// The same picker with the given label before the query.
    pub fn prompt(self, prompt: &str) -> (p: Picker)
        ensures
            p.prompt@ == prompt@,
            p.items == self.items,
            p.filter == self.filter,
            p.cursor_pos == self.cursor_pos,
            p.selection == self.selection,
            p.should_exit == self.should_exit,
            p.select_single == self.select_single,
            p.marks == self.marks,
    {
        let mut p = self;
        p.prompt = copy_str(prompt);
        p
    }

    /// The same picker with the query set beforehand, the caret at its end.
    /// No query, or one beyond the limit, leaves the picker as it is.
    pub fn filter(self, query: Option<&str>) -> (p: Picker)
        ensures
            match query {
                Some(q) => if q@.len() <= QUERY_LIMIT {
                    p.filter@ == q@ && p.cursor_pos == q@.len()
                } else {
                    p.filter == self.filter && p.cursor_pos == self.cursor_pos
                },
                None => p.filter == self.filter && p.cursor_pos == self.cursor_pos,
            },
            self.wf() ==> p.wf(),
            p.items == self.items,
            p.prompt == self.prompt,
            p.selection == self.selection,
            p.should_exit == self.should_exit,
            p.select_single == self.select_single,
            p.marks == self.marks,
    {
        let mut p = self;
        if let Some(q) = query {
            let chars = chars_of(q);
            if chars.len() <= QUERY_LIMIT {
                p.cursor_pos = chars.len();
                p.filter = chars;
            }
        }
        p
    }

    /// The same picker, told whether to answer at once where one item
    /// matches the query.
    pub fn single_shot(self, value: bool) -> (p: Picker)
        ensures
            p.select_single == value,
            p.items == self.items,
            p.prompt == self.prompt,
            p.filter == self.filter,
            p.cursor_pos == self.cursor_pos,
            p.selection == self.selection,
            p.should_exit == self.should_exit,
            p.marks == self.marks,
    {
        let mut p = self;
        p.select_single = value;
        p
    }

    /// The same as `single_shot`.
    pub fn set_select_only(self, value: bool) -> (p: Picker)
        ensures
            p.select_single == value,
            p.items == self.items,
            p.prompt == self.prompt,
            p.filter == self.filter,
            p.cursor_pos == self.cursor_pos,
            p.selection == self.selection,
            p.should_exit == self.should_exit,
            p.marks == self.marks,
    {
        self.single_shot(value)
    }

    /// The query as a string.
    pub fn query(&self) -> (q: String)
        ensures
            q@ == self.filter@,
    {
        string_from_chars(&self.filter)
    }

    /// Whether the picker answers at once, given how many items match the
    /// query that was set beforehand.
    pub fn auto_select(&self, matched: usize) -> (r: bool)
        ensures
            r == answers_at_once(self.select_single, self.filter@, matched as nat),
    {
        self.select_single && self.filter.len() > 0 && matched == 1
    }

    /// Brings the highlight into the range of the matches, as is done
    /// before every frame.
    pub fn clamp(&mut self, matched: usize)
        ensures
            final(self)@ == (PickerView {
                selection: clamped(old(self)@.selection, matched as nat),
                ..old(self)@
            }),
            final(self).items == old(self).items,
            final(self).prompt == old(self).prompt,
            final(self).select_single == old(self).select_single,
            final(self).marks == old(self).marks,
    {
        if matched == 0 {
            self.selection = None;
        } else {
            match self.selection {
                Some(i) => {
                    if i >= matched {
                        self.selection = Some(matched - 1);
                    }
                },
                None => {
                    self.selection = Some(0);
                },
            }
        }
    }

    fn move_cursor_up(&mut self, matched: usize)
        ensures
            final(self)@ == (PickerView {
                selection: moved_up(old(self)@.selection, matched as nat),
                ..old(self)@
            }),
            final(self).items == old(self).items,
            final(self).prompt == old(self).prompt,
            final(self).select_single == old(self).select_single,
            final(self).marks == old(self).marks,
    {
        if matched == 0 {
            self.selection = None;
            return ;
        }
        let max = matched - 1;
        match self.selection {
            Some(i) => {
                if i >= max {
                    self.selection = Some(max);
                } else {
                    self.selection = Some(i + 1);
                }
            },
            None => {
                self.selection = Some(0);
            },
        }
    }

    fn move_cursor_down(&mut self, matched: usize)
        ensures
            final(self)@ == (PickerView {
                selection: moved_down(old(self)@.selection, matched as nat),
                ..old(self)@
            }),
            final(self).items == old(self).items,
            final(self).prompt == old(self).prompt,
            final(self).select_single == old(self).select_single,
            final(self).marks == old(self).marks,
    {
        if matched == 0 {
            self.selection = None;
            return ;
        }
        match self.selection {
            Some(i) => {
                if i == 0 {
                } else if i > matched {
                    self.selection = Some(matched - 1);
                } else {
                    self.selection = Some(i - 1);
                }
            },
            None => {
                self.selection = Some(0);
            },
        }
    }

    fn move_cursor_left(&mut self)
        ensures
            final(self)@ == (if old(self)@.cursor > 0 {
                PickerView { cursor: (old(self)@.cursor - 1) as nat, ..old(self)@ }
            } else {
                old(self)@
            }),
            final(self).items == old(self).items,
            final(self).prompt == old(self).prompt,
            final(self).select_single == old(self).select_single,
            final(self).marks == old(self).marks,
    {
        if self.cursor_pos > 0 {
            self.cursor_pos -= 1;
        }
    }

    fn move_cursor_right(&mut self)
        ensures
            final(self)@ == (if old(self)@.cursor < old(self)@.filter.len() {
                PickerView { cursor: old(self)@.cursor + 1, ..old(self)@ }
            } else {
                old(self)@
            }),
            final(self).items == old(self).items,
            final(self).prompt == old(self).prompt,
            final(self).select_single == old(self).select_single,
            final(self).marks == old(self).marks,
    {
        if self.cursor_pos < self.filter.len() {
            self.cursor_pos += 1;
        }
    }

    fn update_filter(&mut self, c: char)
        requires
            old(self).wf(),
        ensures
            final(self)@ == after_key(old(self)@, Key::Char(c), 0),
            final(self).items == old(self).items,
            final(self).prompt == old(self).prompt,
            final(self).select_single == old(self).select_single,
            final(self).marks == old(self).marks,
    {
        if self.filter.len() >= QUERY_LIMIT {
            return ;
        }
        self.filter.insert(self.cursor_pos, c);
        self.cursor_pos += 1;
    }

    fn backspace(&mut self)
        requires
            old(self).wf(),
        ensures
            final(self)@ == after_key(old(self)@, Key::Backspace, 0),
            final(self).items == old(self).items,
            final(self).prompt == old(self).prompt,
            final(self).select_single == old(self).select_single,
            final(self).marks == old(self).marks,
    {
        if self.cursor_pos == 0 {
            return ;
        }
        self.filter.remove(self.cursor_pos - 1);
        self.cursor_pos -= 1;
    }

    fn delete(&mut self)
        requires
            old(self).wf(),
        ensures
            final(self)@ == after_key(old(self)@, Key::Delete, 0),
            final(self).items == old(self).items,
            final(self).prompt == old(self).prompt,
            final(self).select_single == old(self).select_single,
            final(self).marks == old(self).marks,
    {
        if self.cursor_pos >= self.filter.len() {
            return ;
        }
        self.filter.remove(self.cursor_pos);
    }

    /// Takes a key, with `matched` items matching the query at that moment.
    /// The result says what the key meant for the selection and for the
    /// matcher.
    pub fn update(&mut self, key: Key, matched: usize) -> (r: (Outcome, Refilter))
        requires
            old(self).wf(),
        ensures
            final(self).wf(),
            final(self)@ == after_key(old(self)@, key, matched as nat),
            r.0 == outcome_of(old(self)@, key, matched as nat),
            r.1 == refilter_for(old(self)@.filter, final(self)@.filter),
            final(self).items == old(self).items,
            final(self).prompt == old(self).prompt,
            final(self).select_single == old(self).select_single,
            final(self).marks == old(self).marks,
    {
        let before = copy_chars(&self.filter);
        let outcome = self.apply(key, matched);
        let refilter = if same_chars(&self.filter, &before) {
            Refilter::Keep
        } else if has_prefix(&self.filter, &before) {
            Refilter::Extend
        } else {
            Refilter::Replace
        };
        (outcome, refilter)
    }

    fn apply(&mut self, key: Key, matched: usize) -> (r: Outcome)
        requires
            old(self).wf(),
        ensures
            final(self).wf(),
            final(self)@ == after_key(old(self)@, key, matched as nat),
            r == outcome_of(old(self)@, key, matched as nat),
            final(self).items == old(self).items,
            final(self).prompt == old(self).prompt,
            final(self).select_single == old(self).select_single,
            final(self).marks == old(self).marks,
    {
        match key {
            Key::Esc => {
                self.should_exit = true;
                Outcome::Cancel
            },
            Key::Enter => {
                match self.selection {
                    Some(i) => {
                        if i < matched {
                            self.should_exit = true;
                            Outcome::Accept(i)
                        } else {
                            Outcome::Continue
                        }
                    },
                    None => Outcome::Continue,
                }
            },
            Key::Backspace => {
                self.backspace();
                Outcome::Continue
            },
            Key::Delete => {
                self.delete();
                Outcome::Continue
            },
            Key::Up => {
                self.move_cursor_up(matched);
                Outcome::Continue
            },
            Key::Down => {
                self.move_cursor_down(matched);
                Outcome::Continue
            },
            Key::Left => {
                self.move_cursor_left();
                Outcome::Continue
            },
            Key::Right => {
                self.move_cursor_right();
                Outcome::Continue
            },
            Key::Ctrl(c) => {
                if c == 'c' || c == 'd' || c == 'z' {
                    self.should_exit = true;
                    Outcome::Cancel
                } else {
                    if c == 'p' {
                        self.move_cursor_up(matched);
                    } else if c == 'n' {
                        self.move_cursor_down(matched);
                    } else if c == 'b' || c == 'h' {
                        self.move_cursor_left();
                    } else if c == 'f' || c == 'l' {
                        self.move_cursor_right();
                    }
                    Outcome::Continue
                }
            },
            Key::Char(c) => {
                self.update_filter(c);
                Outcome::Continue
            },
            Key::Tab => Outcome::Continue,
            Key::Other => Outcome::Continue,
        }
    }

    /// The marked items, in the order in which they were marked.
    pub fn marked(&self) -> (out: Vec<String>)
        ensures
            views(out@) == marked_of(views(self.items@), self.marks@),
    {
        let ghost items = views(self.items@);
        let mut out: Vec<String> = Vec::new();
        let mut i: usize = 0;
        assert(self.marks@.take(0) =~= Seq::<usize>::empty());
        assert(views(out@) =~= Seq::<Seq<char>>::empty());
        while i < self.marks.len()
            invariant
                i <= self.marks.len(),
                items == views(self.items@),
                views(out@) == marked_of(items, self.marks@.take(i as int)),
            decreases self.marks.len() - i,
        {
            let m = self.marks[i];
            proof {
                assert(self.marks@.take(i + 1).drop_last() =~= self.marks@.take(i as int));
                assert(self.marks@.take(i + 1).last() == m);
            }
            if m < self.items.len() {
                let ghost before = views(out@);
                out.push(copy_str(self.items[m].as_str()));
                assert(views(out@) =~= before.push(items[m as int]));
            }
            i += 1;
        }
        assert(self.marks@.take(self.marks.len() as int) =~= self.marks@);
        out
    }

    /// Marks the item `item`, or takes the mark off it.
    pub fn toggle_mark(&mut self, item: usize)
        ensures
            final(self).marks@ == if old(self).marks@.contains(item) {
                old(self).marks@.filter(|m: usize| m != item)
            } else {
                old(self).marks@.push(item)
            },
            final(self)@ == old(self)@,
            final(self).items == old(self).items,
            final(self).prompt == old(self).prompt,
            final(self).select_single == old(self).select_single,
    {
        let ghost all = self.marks@;
        let ghost other = |m: usize| m != item;
        let mut kept: Vec<usize> = Vec::new();
        let mut found = false;
        let mut i: usize = 0;
        proof {
            reveal(Seq::filter);
            assert(all.take(0).filter(other) =~= Seq::<usize>::empty());
        }
        while i < self.marks.len()
            invariant
                i <= self.marks.len(),
                *self == *old(self),
                all == self.marks@,
                other == |m: usize| m != item,
                found == (exists|j: int| 0 <= j < i && all[j] == item),
                kept@ == all.take(i as int).filter(other),
                !found ==> kept@ == all.take(i as int),
            decreases self.marks.len() - i,
        {
            let m = self.marks[i];
            proof {
                reveal(Seq::filter);
                assert(all.take(i + 1).drop_last() =~= all.take(i as int));
                assert(all.take(i + 1).last() == m);
                assert(all.take(i + 1) =~= all.take(i as int).push(m));
            }
            if m == item {
                found = true;
            } else {
                kept.push(m);
            }
            i += 1;
        }
        assert(all.take(self.marks.len() as int) =~= all);
        if !found {
            kept.push(item);
        }
        self.marks = kept;
    }
}


} // verus!
