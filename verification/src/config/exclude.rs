//! The set of excluded directory names: an insertion-ordered set of strings.

use vstd::prelude::*;
use indexmap::IndexSet;

verus! {

/// `indexmap::IndexSet`: a set that keeps the order of insertion, opaque to
/// the proofs.
#[verifier::external_type_specification]
#[verifier::external_body]
#[verifier::reject_recursive_types(T)]
#[verifier::reject_recursive_types(S)]
pub struct ExIndexSet<T, S>(IndexSet<T, S>);

/// What an ordered set of names holds, in insertion order.
pub uninterp spec fn set_items(s: IndexSet<String>) -> Seq<Seq<char>>;

/// A new, empty set.
///
/// Trusted: `IndexSet::new` creates a set without elements.
#[verifier::external_body]
pub(crate) fn set_new() -> (s: IndexSet<String>)
    ensures
        set_items(s) == Seq::<Seq<char>>::empty(),
{
    IndexSet::new()
}

/// Inserts `value` at the end unless an equal name is present.
///
/// Trusted: `IndexSet::insert` returns `false` and leaves the set as it was
/// when an equal value is present; otherwise it appends the value after all
/// others and returns `true`.
#[verifier::external_body]
pub(crate) fn set_insert(s: &mut IndexSet<String>, value: String) -> (fresh: bool)
    ensures
        fresh == !set_items(*old(s)).contains(value@),
        set_items(*final(s)) == if fresh {
            set_items(*old(s)).push(value@)
        } else {
            set_items(*old(s))
        },
{
    s.insert(value)
}

/// Whether a name equal to `value` is in the set.
///
/// Trusted: `IndexSet::contains` is true exactly when an equal value is held.
#[verifier::external_body]
pub(crate) fn set_contains(s: &IndexSet<String>, value: &str) -> (found: bool)
    ensures
        found == set_items(*s).contains(value@),
{
    s.contains(value)
}

/// The number of names in the set.
///
/// Trusted: `IndexSet::len` is the number of elements.
#[verifier::external_body]
pub(crate) fn set_len(s: &IndexSet<String>) -> (n: usize)
    ensures
        n == set_items(*s).len(),
{
    s.len()
}

/// The name at position `index` in insertion order.
///
/// Trusted: `IndexSet::get_index` yields the element at that position, and
/// `None` exactly when the position is past the end.
#[verifier::external_body]
pub(crate) fn set_get(s: &IndexSet<String>, index: usize) -> (item: Option<&String>)
    ensures
        match item {
            Some(v) => index < set_items(*s).len() && v@ == set_items(*s)[index as int],
            None => index >= set_items(*s).len(),
        },
{
    s.get_index(index)
}

} // verus!
