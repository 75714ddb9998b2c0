//! The jumplist: an ordered list of paths that is kept in a file, one path
//! per line, and recalled by position.

use vstd::prelude::*;
use crate::text::{
    append_chars, chars_of, free_of, lemma_split_append_free, rows, same_str, split, split_chars,
    string_from_chars, views,
};
use crate::util::{join_path, joined_path};

verus! {

/// A line without the carriage return that may end it.
pub open spec fn stripped_cr(line: Seq<char>) -> Seq<char> {
    if line.len() > 0 && line.last() == '\r' {
        line.drop_last()
    } else {
        line
    }
}

/// The lines of a text. A line ends at a newline, and a carriage return
/// right before that newline is no part of the line. What follows the last
/// newline is a line of its own unless it is empty.
pub open spec fn lines_of(content: Seq<char>) -> Seq<Seq<char>> {
    let segs = split(content, '\n');
    let body = segs.drop_last().map_values(|l: Seq<char>| stripped_cr(l));
    if segs.last().len() == 0 {
        body
    } else {
        body.push(segs.last())
    }
}

/// The lines that stay when the file is read: line `i` stays where
/// `exists[i]` says that its path is on disk. Their order is kept.
pub open spec fn kept(lines: Seq<Seq<char>>, exists: Seq<bool>) -> Seq<Seq<char>>
    decreases lines.len(),
{
    if lines.len() == 0 {
        lines
    } else {
        let before = kept(lines.drop_last(), exists);
        if lines.len() <= exists.len() && exists[lines.len() - 1] {
            before.push(lines.last())
        } else {
            before
        }
    }
}

/// The text of the file: each entry followed by a newline.
pub open spec fn serialized(entries: Seq<Seq<char>>) -> Seq<char>
    decreases entries.len(),
{
    if entries.len() == 0 {
        Seq::<char>::empty()
    } else {
        serialized(entries.drop_last()) + entries.last() + seq!['\n']
    }
}

/// `list` after `path` was added: unchanged where it holds the path already.
pub open spec fn added(list: Seq<Seq<char>>, path: Seq<char>) -> Seq<Seq<char>> {
    if list.contains(path) {
        list
    } else {
        list.push(path)
    }
}

/// Entries that come back from the file as they went in: none holds a
/// newline or ends in a carriage return.
pub open spec fn clean(entries: Seq<Seq<char>>) -> bool {
    forall|i: int|
        0 <= i < entries.len() ==> free_of(#[trigger] entries[i], '\n') && stripped_cr(entries[i])
            == entries[i]
}

/// The lines to print for the list: each entry after its position, counted
/// from one.
pub open spec fn listed(entries: Seq<Seq<char>>, numbers: Seq<Seq<char>>) -> Seq<Seq<char>> {
    Seq::new(entries.len(), |i: int| numbers[i] + seq![':', ' '] + entries[i])
}

/// The position in the list that the number a user gave stands for: one less,
/// and the first for zero.
pub open spec fn position_of(number: nat) -> nat {
    if number == 0 {
        0
    } else {
        (number - 1) as nat
    }
}

/// The ordered list of paths.
#[derive(Debug, Default, PartialEq, Eq)]
pub struct Jumplist(pub Vec<String>);

impl View for Jumplist {
    type V = Seq<Seq<char>>;

    open spec fn view(&self) -> Seq<Seq<char>> {
        views(self.0@)
    }
}

/// Cutting the text of a file gives back its entries and one empty piece.
pub proof fn lemma_split_serialized(entries: Seq<Seq<char>>)
    requires
        forall|i: int| 0 <= i < entries.len() ==> free_of(#[trigger] entries[i], '\n'),
    ensures
        split(serialized(entries), '\n') == entries.push(Seq::<char>::empty()),
    decreases entries.len(),
{
    if entries.len() == 0 {
        assert(split(serialized(entries), '\n') =~= entries.push(Seq::<char>::empty()));
    } else {
        let head = entries.drop_last();
        let x = entries.last();
        lemma_split_serialized(head);
        let s = serialized(head);
        lemma_split_append_free(s, x, '\n');
        assert(split(s, '\n').last() + x == x);
        assert(split(s + x, '\n') =~= head.push(x));
        let whole = s + x + seq!['\n'];
        assert(whole.drop_last() == s + x);
        assert(whole.last() == '\n');
        assert(head.push(x) == entries);
    }
}

/// Reading the lines of a written list gives the list back.
pub proof fn lemma_lines_of_serialized(entries: Seq<Seq<char>>)
    requires
        clean(entries),
    ensures
        lines_of(serialized(entries)) == entries,
{
    lemma_split_serialized(entries);
    let segs = split(serialized(entries), '\n');
    assert(segs.drop_last() =~= entries);
    assert(segs.drop_last().map_values(|l: Seq<char>| stripped_cr(l)) =~= entries);
}

/// Where every path is on disk, every line stays.
pub proof fn lemma_kept_all(lines: Seq<Seq<char>>, exists: Seq<bool>)
    requires
        exists.len() >= lines.len(),
        forall|i: int| 0 <= i < lines.len() ==> exists[i],
    ensures
        kept(lines, exists) == lines,
    decreases lines.len(),
{
    if lines.len() > 0 {
        lemma_kept_all(lines.drop_last(), exists);
        assert(lines.drop_last().push(lines.last()) == lines);
    }
}

/// Adding a path twice is adding it once.
pub proof fn law_add_idempotent(list: Seq<Seq<char>>, path: Seq<char>)
    ensures
        added(added(list, path), path) == added(list, path),
        added(list, path).contains(path),
{
    if !list.contains(path) {
        assert(list.push(path)[list.len() as int] == path);
    }
}

/// A list without a path held twice stays so when a path is added.
pub proof fn law_add_keeps_distinct(list: Seq<Seq<char>>, path: Seq<char>)
    requires
        list.no_duplicates(),
    ensures
        added(list, path).no_duplicates(),
{
}

/// Reading a file and writing it back, with nothing changed in between,
/// leaves the text that was there with the lines removed whose paths are
/// not on disk. This holds of a text that is one the list writes: every
/// line ended by a newline, none by a carriage return and a newline.
pub proof fn law_load_then_write(content: Seq<char>, exists: Seq<bool>)
    requires
        content == serialized(lines_of(content)),
    ensures
        serialized(kept(lines_of(content), exists)) == serialized(
            kept(lines_of(serialized(lines_of(content))), exists),
        ),
        exists.len() >= lines_of(content).len() && (forall|i: int|
            0 <= i < lines_of(content).len() ==> exists[i]) ==> serialized(
            kept(lines_of(content), exists),
        ) == content,
{
    if exists.len() >= lines_of(content).len() && (forall|i: int|
        0 <= i < lines_of(content).len() ==> exists[i]) {
        lemma_kept_all(lines_of(content), exists);
    }
}

/// Writing a list, reading it and writing it again gives the text of the
/// list without the entries whose paths are not on disk; where all are on
/// disk, it gives the first text again.
pub proof fn law_write_load_write(list: Seq<Seq<char>>, exists: Seq<bool>)
    requires
        clean(list),
    ensures
        serialized(kept(lines_of(serialized(list)), exists)) == serialized(kept(list, exists)),
        exists.len() >= list.len() && (forall|i: int| 0 <= i < list.len() ==> exists[i])
            ==> serialized(kept(lines_of(serialized(list)), exists)) == serialized(list),
{
    lemma_lines_of_serialized(list);
    if exists.len() >= list.len() && (forall|i: int| 0 <= i < list.len() ==> exists[i]) {
        lemma_kept_all(list, exists);
    }
}

impl Jumplist {
    /// The file of the list under the data directory.
    pub fn path(data_dir: &str) -> (p: String)
        ensures
            p@ == joined_path(data_dir@, "jumplist"@),
    {
        join_path(data_dir, "jumplist")
    }

    /// The lines of the file's text.
    pub fn lines(content: &str) -> (out: Vec<String>)
        ensures
            views(out@) == lines_of(content@),
    {
        let chars = chars_of(content);
        let segs = split_chars(&chars, '\n');
        let ghost all = rows(segs@);
        let n = segs.len() - 1;
        let mut out: Vec<String> = Vec::new();
        let mut i: usize = 0;
        while i < n
            invariant
                i <= n,
                n + 1 == segs.len(),
                all == rows(segs@),
                out.len() == i,
                forall|k: int| 0 <= k < i ==> (#[trigger] out@[k])@ == stripped_cr(all[k]),
            decreases n - i,
        {
            let seg = &segs[i];
            let len = seg.len();
            if len > 0 && seg[len - 1] == '\r' {
                let mut line: Vec<char> = Vec::new();
                let mut k: usize = 0;
                while k < len - 1
                    invariant
                        k <= len - 1,
                        len == seg.len(),
                        line@ == seg@.take(k as int),
                    decreases len - 1 - k,
                {
                    line.push(seg[k]);
                    assert(seg@.take(k + 1) =~= seg@.take(k as int).push(seg@[k as int]));
                    k += 1;
                }
                assert(seg@.take(len - 1) =~= seg@.drop_last());
                out.push(string_from_chars(&line));
            } else {
                out.push(string_from_chars(seg));
            }
            i += 1;
        }
        let last = &segs[n];
        let ghost body = all.drop_last().map_values(|l: Seq<char>| stripped_cr(l));
        assert(views(out@) =~= body);
        if last.len() > 0 {
            out.push(string_from_chars(last));
            assert(views(out@) =~= body.push(all.last()));
        }
        out
    }

    /// The list that reading the file gives: the lines whose paths are on
    /// disk, in their order. `exists[i]` says whether the path of line `i`
    /// is on disk; a line without such a word is dropped.
    pub fn load(lines: Vec<String>, exists: &Vec<bool>) -> (list: Jumplist)
        ensures
            list@ == kept(views(lines@), exists@),
    {
        let ghost all = views(lines@);
        let n = lines.len();
        let mut out: Vec<String> = Vec::new();
        let mut i: usize = 0;
        assert(all.take(0) =~= Seq::<Seq<char>>::empty());
        assert(views(out@) =~= Seq::<Seq<char>>::empty());
        while i < n
            invariant
                i <= n,
                n == lines.len(),
                all == views(lines@),
                views(out@) == kept(all.take(i as int), exists@),
            decreases n - i,
        {
            proof {
                assert(all.take(i + 1).drop_last() =~= all.take(i as int));
                assert(all.take(i + 1).last() == lines@[i as int]@);
            }
            if i < exists.len() && exists[i] {
                let ghost before = views(out@);
                out.push(lines[i].clone());
                assert(views(out@) =~= before.push(lines@[i as int]@));
            }
            i += 1;
        }
        assert(all.take(n as int) =~= all);
        Jumplist(out)
    }

    /// Whether the list holds `path`.
    pub fn contains(&self, path: &str) -> (r: bool)
        ensures
            r == self@.contains(path@),
    {
        let mut i: usize = 0;
        while i < self.0.len()
            invariant
                i <= self.0.len(),
                forall|k: int| 0 <= k < i ==> self@[k] != path@,
            decreases self.0.len() - i,
        {
            if same_str(self.0[i].as_str(), path) {
                assert(self@[i as int] == path@);
                return true;
            }
            i += 1;
        }
        false
    }

    /// Appends `path` unless the list holds it already.
    pub fn add(&mut self, path: String)
        ensures
            final(self)@ == added(old(self)@, path@),
    {
        if !self.contains(path.as_str()) {
            let ghost before = self@;
            self.0.push(path);
            assert(self@ =~= before.push(path@));
        }
    }

    /// The entry at `index`, counted from zero.
    pub fn get(&self, index: usize) -> (r: Option<&str>)
        ensures
            match r {
                Some(s) => index < self@.len() && s@ == self@[index as int],
                None => index >= self@.len(),
            },
    {
        if index < self.0.len() {
            Some(self.0[index].as_str())
        } else {
            None
        }
    }

    /// The entry that the number a user gave stands for: numbers count from
    /// one, and zero stands for the first entry too.
    pub fn recall(&self, number: usize) -> (r: Option<&str>)
        ensures
            match r {
                Some(s) => position_of(number as nat) < self@.len() && s@ == self@[position_of(
                    number as nat,
                ) as int],
                None => position_of(number as nat) >= self@.len(),
            },
    {
        let index = if number == 0 {
            0
        } else {
            number - 1
        };
        self.get(index)
    }

    /// The number of entries.
    pub fn len(&self) -> (n: usize)
        ensures
            n == self@.len(),
    {
        self.0.len()
    }

    /// The text to put into the file in place of what is there.
    pub fn write(&self) -> (text: String)
        ensures
            text@ == serialized(self@),
    {
        let mut out: Vec<char> = Vec::new();
        let mut i: usize = 0;
        assert(self@.take(0) =~= Seq::<Seq<char>>::empty());
        while i < self.0.len()
            invariant
                i <= self.0.len(),
                out@ == serialized(self@.take(i as int)),
            decreases self.0.len() - i,
        {
            let entry = chars_of(self.0[i].as_str());
            proof {
                assert(self@.take(i + 1).drop_last() =~= self@.take(i as int));
                assert(self@.take(i + 1).last() == entry@);
            }
            append_chars(&mut out, &entry);
            out.push('\n');
            assert(out@ =~= serialized(self@.take(i as int)) + entry@ + seq!['\n']);
            i += 1;
        }
        assert(self@.take(self.0.len() as int) =~= self@);
        string_from_chars(&out)
    }
}

} // verus!
