//! Names and locations: how a directory path becomes a session name, and
//! where the configuration and data files live.

use vstd::prelude::*;
use crate::text::{views, opt_view, opt_str_view, chars_of, split, split_chars, string_from_chars, rows, append_chars, same_chars};

verus! {

/// `name` with every `.` replaced by `_`.
pub open spec fn formatted(name: Seq<char>) -> Seq<char> {
    Seq::new(name.len(), |i: int| if name[i] == '.' { '_' } else { name[i] })
}

/// A path segment that names something: neither empty nor `.`.
pub open spec fn is_normal(seg: Seq<char>) -> bool {
    seg.len() > 0 && seg != seq!['.']
}

/// The last of `segs` that names something, if any does.
pub open spec fn last_normal(segs: Seq<Seq<char>>) -> Option<Seq<char>>
    decreases segs.len(),
{
    if segs.len() == 0 {
        None
    } else if is_normal(segs.last()) {
        Some(segs.last())
    } else {
        last_normal(segs.drop_last())
    }
}

/// The final component of a `/`-separated path. Empty segments (doubled or
/// trailing slashes) and `.` segments are passed over; a path that ends in
/// `..`, or that names nothing at all, has no final component.
pub open spec fn leaf(path: Seq<char>) -> Option<Seq<char>> {
    match last_normal(split(path, '/')) {
        Some(seg) => if seg == seq!['.', '.'] { None } else { Some(seg) },
        None => None,
    }
}

/// The session name that belongs to a path: its final component with every
/// `.` replaced by `_`.
pub open spec fn session_name_of(path: Seq<char>) -> Option<Seq<char>> {
    match leaf(path) {
        Some(l) => Some(formatted(l)),
        None => None,
    }
}

/// `base` extended by the relative component `comp`: a `/` is put between
/// them unless `base` is empty or already ends in one. An absolute `comp`
/// stands alone.
pub open spec fn joined_path(base: Seq<char>, comp: Seq<char>) -> Seq<char> {
    if comp.len() > 0 && comp[0] == '/' {
        comp
    } else if base.len() == 0 || base.last() == '/' {
        base + comp
    } else {
        base + seq!['/'] + comp
    }
}

/// The directory that holds this program's files of one kind: the override
/// if it is set, else the XDG base directory extended by the program's name,
/// else the platform's default directory extended by the program's name.
pub open spec fn located_dir(
    over: Option<Seq<char>>,
    xdg: Option<Seq<char>>,
    platform: Option<Seq<char>>,
    program: Seq<char>,
) -> Option<Seq<char>> {
    match over {
        Some(p) => Some(p),
        None => match xdg {
            Some(x) => Some(joined_path(x, program)),
            None => match platform {
                Some(d) => Some(joined_path(d, program)),
                None => None,
            },
        },
    }
}

/// A session name never holds a `.`, and is as long as the name it came from.
pub proof fn law_session_names_hold_no_dot(name: Seq<char>)
    ensures
        formatted(name).len() == name.len(),
        forall|i: int| 0 <= i < formatted(name).len() ==> formatted(name)[i] != '.',
        forall|i: int| 0 <= i < name.len() && name[i] != '.' ==> formatted(name)[i] == name[i],
{
}

/// Formatting a name twice changes nothing more.
pub proof fn law_formatting_twice_is_once(name: Seq<char>)
    ensures
        formatted(formatted(name)) == formatted(name),
{
    assert(formatted(formatted(name)) =~= formatted(name));
}

/// Replaces every `.` of `name` by `_`.
pub fn format_name(name: &str) -> (out: String)
    ensures
        out@ == formatted(name@),
        out@.len() == name@.len(),
        forall|i: int| 0 <= i < out@.len() ==> out@[i] != '.',
{
    let src = chars_of(name);
    let mut dst: Vec<char> = Vec::new();
    let mut i: usize = 0;
    while i < src.len()
        invariant
            i <= src.len(),
            dst@.len() == i,
            forall|k: int| 0 <= k < i ==> dst@[k] == formatted(src@)[k],
        decreases src.len() - i,
    {
        let c = src[i];
        if c == '.' {
            dst.push('_');
        } else {
            dst.push(c);
        }
        i += 1;
    }
    assert(dst@ =~= formatted(src@));
    string_from_chars(&dst)
}

/// The final component of `path`, or `None` where it has none.
pub fn leaf_name(path: &str) -> (out: Option<String>)
    ensures
        match out {
            Some(s) => leaf(path@) == Some(s@),
            None => leaf(path@) is None,
        },
{
    let chars = chars_of(path);
    let segs = split_chars(&chars, '/');
    let mut i: usize = segs.len();
    assert(rows(segs@).take(i as int) =~= rows(segs@));
    while i > 0
        invariant
            i <= segs.len(),
            rows(segs@) == split(path@, '/'),
            last_normal(rows(segs@)) == last_normal(rows(segs@).take(i as int)),
        decreases i,
    {
        let seg = &segs[i - 1];
        let ghost cur = rows(segs@).take(i as int);
        proof {
            assert(cur.last() == seg@);
            assert(cur.drop_last() =~= rows(segs@).take(i - 1));
        }
        let is_dot = seg.len() == 1 && seg[0] == '.';
        proof {
            if is_dot {
                assert(seg@ =~= seq!['.']);
            }
        }
        if seg.len() > 0 && !is_dot {
            let is_dotdot = seg.len() == 2 && seg[0] == '.' && seg[1] == '.';
            proof {
                if is_dotdot {
                    assert(seg@ =~= seq!['.', '.']);
                }
            }
            if is_dotdot {
                return None;
            }
            return Some(string_from_chars(seg));
        }
        i -= 1;
    }
    None
}

/// The session name for `path`, or `None` where the path has no final
/// component.
pub fn session_name(path: &str) -> (out: Option<String>)
    ensures
        match out {
            Some(s) => session_name_of(path@) == Some(s@),
            None => session_name_of(path@) is None,
        },
{
    match leaf_name(path) {
        Some(l) => Some(format_name(l.as_str())),
        None => None,
    }
}

/// Extends the directory `base` by the component `comp`.
pub fn join_path(base: &str, comp: &str) -> (out: String)
    ensures
        out@ == joined_path(base@, comp@),
{
    let b = chars_of(base);
    let c = chars_of(comp);
    if c.len() > 0 && c[0] == '/' {
        return string_from_chars(&c);
    }
    let mut out = b;
    if out.len() > 0 && out[out.len() - 1] != '/' {
        out.push('/');
    }
    append_chars(&mut out, &c);
    assert(out@ =~= joined_path(base@, comp@));
    string_from_chars(&out)
}

/// The directory for this program's files of one kind, from the values of
/// the override variable, of the XDG base variable and of the platform's
/// default. `None` when none of the three is set.
pub fn locate_dir(
    over: Option<&str>,
    xdg: Option<&str>,
    platform: Option<&str>,
    program: &str,
) -> (out: Option<String>)
    ensures
        opt_view(out) == located_dir(
            opt_str_view(over),
            opt_str_view(xdg),
            opt_str_view(platform),
            program@,
        ),
{
    match over {
        Some(p) => Some(string_from_chars(&chars_of(p))),
        None => match xdg {
            Some(x) => Some(join_path(x, program)),
            None => match platform {
                Some(d) => Some(join_path(d, program)),
                None => None,
            },
        },
    }
}

/// The configuration file `file` under the configuration directory.
pub fn get_config(
    over: Option<&str>,
    xdg: Option<&str>,
    platform: Option<&str>,
    file: &str,
) -> (out: Option<String>)
    ensures
        opt_view(out) == match located_dir(
            opt_str_view(over),
            opt_str_view(xdg),
            opt_str_view(platform),
            "tuxmux"@,
        ) {
            Some(d) => Some(joined_path(d, file@)),
            None => None,
        },
{
    match locate_dir(over, xdg, platform, "tuxmux") {
        Some(d) => Some(join_path(d.as_str(), file)),
        None => None,
    }
}

/// The data file `file` under the data directory.
pub fn get_local(
    over: Option<&str>,
    xdg: Option<&str>,
    platform: Option<&str>,
    file: &str,
) -> (out: Option<String>)
    ensures
        opt_view(out) == match located_dir(
            opt_str_view(over),
            opt_str_view(xdg),
            opt_str_view(platform),
            "tuxmux"@,
        ) {
            Some(d) => Some(joined_path(d, file@)),
            None => None,
        },
{
    match locate_dir(over, xdg, platform, "tuxmux") {
        Some(d) => Some(join_path(d.as_str(), file)),
        None => None,
    }
}

/// The editor to start: `VISUAL` if set, else `EDITOR`, else `vi`.
pub fn get_editor(visual: Option<String>, editor: Option<String>) -> (out: String)
    ensures
        out@ == match visual {
            Some(v) => v@,
            None => match editor {
                Some(e) => e@,
                None => "vi"@,
            },
        },
{
    match visual {
        Some(v) => v,
        None => match editor {
            Some(e) => e,
            None => "vi".to_owned(),
        },
    }
}

/// Whether `path` is the single character `.`, the shorthand for the
/// current directory.
pub fn is_dot(path: &str) -> (r: bool)
    ensures
        r == (path@ == seq!['.']),
{
    let c = chars_of(path);
    let mut dot: Vec<char> = Vec::new();
    dot.push('.');
    assert(dot@ =~= seq!['.']);
    same_chars(&c, &dot)
}

/// `items` with `elt` between each two neighbours, as a sequence of its own.
pub open spec fn interspersed(items: Seq<Seq<char>>, elt: Seq<char>) -> Seq<Seq<char>> {
    Seq::new(
        if items.len() == 0 {
            0
        } else {
            (2 * items.len() - 1) as nat
        },
        |k: int| if k % 2 == 0 {
            items[k / 2]
        } else {
            elt
        },
    )
}

/// All strings of `parts` one after the other.
pub open spec fn flat(parts: Seq<Seq<char>>) -> Seq<char>
    decreases parts.len(),
{
    if parts.len() == 0 {
        Seq::<char>::empty()
    } else {
        parts[0] + flat(parts.drop_first())
    }
}

/// Strings handed out one by one with a separator between each two.
#[derive(Debug, PartialEq, Eq)]
pub struct Intersperse {
    element: String,
    items: Vec<String>,
    taken: usize,
    separated: bool,
}

impl Intersperse {
    /// How many strings were handed out.
    pub closed spec fn position(&self) -> int {
        if self.taken == 0 {
            0
        } else if self.separated {
            2 * self.taken
        } else {
            2 * self.taken - 1
        }
    }

    /// What is handed out from the start to the end.
    pub closed spec fn all(&self) -> Seq<Seq<char>> {
        interspersed(views(self.items@), self.element@)
    }

    /// The state is one that handing out leads to.
    pub closed spec fn wf(&self) -> bool {
        &&& self.taken <= self.items@.len()
        &&& self.separated ==> 0 < self.taken < self.items@.len()
    }

    /// What is still to be handed out.
    pub open spec fn remaining(&self) -> Seq<Seq<char>> {
        self.all().skip(self.position())
    }

    /// The next string, or `None` at the end.
    pub fn next(&mut self) -> (r: Option<String>)
        requires
            old(self).wf(),
        ensures
            final(self).wf(),
            final(self).all() == old(self).all(),
            match r {
                Some(s) => old(self).remaining().len() > 0 && s@ == old(self).remaining()[0]
                    && final(self).remaining() == old(self).remaining().drop_first(),
                None => old(self).remaining().len() == 0 && final(self).remaining() == old(
                    self,
                ).remaining(),
            },
    {
        let ghost all = self.all();
        let ghost pos = self.position();
        if self.taken >= self.items.len() {
            assert(all.skip(pos) =~= Seq::<Seq<char>>::empty());
            return None;
        }
        if self.taken > 0 && !self.separated {
            self.separated = true;
            assert(all.skip(pos)[0] == all[pos]);
            assert(all.skip(pos + 1) =~= all.skip(pos).drop_first());
            return Some(self.element.clone());
        }
        let s = self.items[self.taken].clone();
        self.taken = self.taken + 1;
        self.separated = false;
        proof {
            assert(all.skip(pos)[0] == all[pos]);
            assert(all.skip(pos + 1) =~= all.skip(pos).drop_first());
            if self.taken == self.items@.len() {
                assert(all.skip(self.position()) =~= all.skip(pos + 1));
            }
        }
        Some(s)
    }

    /// All that is still to be handed out, as one string.
    pub fn concat(self) -> (out: String)
        requires
            self.wf(),
        ensures
            out@ == flat(self.remaining()),
    {
        let mut it = self;
        let mut out: Vec<char> = Vec::new();
        loop
            invariant
                it.wf(),
                out@ + flat(it.remaining()) == flat(self.remaining()),
            ensures
                out@ == flat(self.remaining()),
            decreases it.remaining().len(),
        {
            let ghost before = it.remaining();
            match it.next() {
                Some(s) => {
                    let chars = chars_of(s.as_str());
                    let ghost so_far = out@;
                    append_chars(&mut out, &chars);
                    assert(so_far + (before[0] + flat(before.drop_first())) =~= (so_far
                        + before[0]) + flat(before.drop_first()));
                },
                None => {
                    assert(out@ + Seq::<char>::empty() =~= out@);
                    break ;
                },
            }
        }
        string_from_chars(&out)
    }
}

/// Hands out `items` with `elt` between each two neighbours.
pub fn intersperse(items: Vec<String>, elt: String) -> (it: Intersperse)
    ensures
        it.wf(),
        it.remaining() == interspersed(views(items@), elt@),
{
    let it = Intersperse { element: elt, items, taken: 0, separated: false };
    assert(it.all().skip(0) =~= it.all());
    it
}

} // verus!
