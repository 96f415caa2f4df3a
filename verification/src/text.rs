//! Small helpers on strings, stated over their sequences of characters.

use itertools::Itertools;
use vstd::prelude::*;

verus! {

/// Compares two string slices with `str`'s own `==`.
///
/// Trusted: the standard library compares the two slices byte by byte, which
/// for valid UTF-8 is the same as comparing their characters.
#[verifier::external_body]
pub(crate) fn str_eq(a: &str, b: &str) -> (same: bool)
    ensures
        same == (a@ == b@),
{
    a == b
}

/// The views of a sequence of owned strings, in order.
pub open spec fn views(items: Seq<String>) -> Seq<Seq<char>> {
    items.map_values(|s: String| s@)
}

/// The views of a sequence of borrowed strings, in order.
pub open spec fn ref_views(items: Seq<&String>) -> Seq<Seq<char>> {
    items.map_values(|s: &String| s@)
}

/// `head` followed by `tail`, as a new string.
pub fn concat(head: &str, tail: &str) -> (out: String)
    ensures
        out@ == head@ + tail@,
{
    let mut out = head.to_owned();
    out.append(tail);
    out
}

/// The path of `name` inside the directory `dir`: the two with a slash between
/// them.
pub open spec fn joined(dir: Seq<char>, name: Seq<char>) -> Seq<char> {
    dir + "/"@ + name
}

/// The path of `name` inside the directory `dir`.
pub fn join(dir: &str, name: &str) -> (out: String)
    ensures
        out@ == joined(dir@, name@),
{
    let mut out = concat(dir, "/");
    out.append(name);
    out
}

/// `items` with every run of equal neighbours collapsed to its first
/// item. Items that are equal but not neighbours all stay.
pub open spec fn collapse(items: Seq<Seq<char>>) -> Seq<Seq<char>>
    decreases items.len(),
{
    if items.len() <= 1 {
        items
    } else if items[items.len() - 2] == items.last() {
        collapse(items.drop_last())
    } else {
        collapse(items.drop_last()).push(items.last())
    }
}

/// Collapses runs of equal neighbours with `Itertools::dedup`.
///
/// Trusted: the adaptor yields the first item of each run of consecutive
/// items that compare equal, and nothing else; the items are borrowed
/// strings, which compare equal exactly when their characters are the same.
#[verifier::external_body]
pub(crate) fn dedup_adjacent<'a>(items: &'a [String]) -> (out: Vec<&'a String>)
    ensures
        ref_views(out@) == collapse(views(items@)),
{
    items.iter().dedup().collect()
}

} // verus!
