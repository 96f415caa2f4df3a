//! What a walk does on a tree.
//!
//! A tree is put on paper, with the reports that a filesystem gives while the
//! tree is cloned and nothing fails, and with the actions that clone it depth
//! first. The walk is shown to ask for exactly these actions, in this order,
//! and to end with success.

use vstd::prelude::*;
use crate::action::{EntryKind, Report, Standing, Task};
use crate::text::joined;
use crate::walk::{children, resume, trail_after, trail_start, Trail};

verus! {

/// A tree of the source: a file, a symbolic link, or a directory with its
/// named entries in the order in which it lists them.
pub ghost enum Tree {
    File,
    Symlink,
    Directory(Seq<(Seq<char>, Tree)>),
}

/// The names of the entries of a directory, in order.
pub open spec fn names(entries: Seq<(Seq<char>, Tree)>) -> Seq<Seq<char>> {
    entries.map_values(|e: (Seq<char>, Tree)| e.0)
}

/// The reports that come in while `tree` is cloned and nothing fails: what
/// the tree is, that it was copied, and for a directory its listing, followed
/// by the reports for each of its entries in turn.
pub open spec fn reports(tree: Tree) -> Seq<Report>
    decreases tree, 0nat,
{
    match tree {
        Tree::File => seq![Report::Kind(EntryKind::File), Report::Done],
        Tree::Symlink => seq![Report::Kind(EntryKind::Symlink), Report::Done],
        Tree::Directory(entries) => seq![
            Report::Kind(EntryKind::Directory),
            Report::Done,
            Report::Entries(names(entries)),
        ] + reports_each(entries, 0),
    }
}

/// The reports for the entries from place `from` on, one entry after the
/// other.
pub open spec fn reports_each(entries: Seq<(Seq<char>, Tree)>, from: nat) -> Seq<Report>
    decreases entries, entries.len() - from,
{
    if from >= entries.len() {
        Seq::empty()
    } else {
        reports(entries[from as int].1) + reports_each(entries, from + 1)
    }
}

/// The actions that clone `tree` from `src` to `dst`, depth first: the tree
/// is classified and copied as its kind asks for, and a directory is followed
/// by the clones of its entries, in the order in which it lists them.
pub open spec fn plan(tree: Tree, src: Seq<char>, dst: Seq<char>) -> Seq<Task>
    decreases tree, 0nat,
{
    match tree {
        Tree::File => seq![Task::Classify { path: src }, Task::CopyFile { from: src, to: dst }],
        Tree::Symlink => seq![Task::Classify { path: src }, Task::Relink { from: src, to: dst }],
        Tree::Directory(entries) => seq![
            Task::Classify { path: src },
            Task::MakeDir { path: dst },
            Task::List { path: src },
        ] + plan_each(entries, 0, src, dst),
    }
}

/// The actions that clone the entries from place `from` on into the copy
/// `dst` of their directory `src`.
pub open spec fn plan_each(
    entries: Seq<(Seq<char>, Tree)>,
    from: nat,
    src: Seq<char>,
    dst: Seq<char>,
) -> Seq<Task>
    decreases entries, entries.len() - from,
{
    if from >= entries.len() {
        Seq::empty()
    } else {
        plan(
            entries[from as int].1,
            joined(src, entries[from as int].0),
            joined(dst, entries[from as int].0),
        ) + plan_each(entries, from + 1, src, dst)
    }
}

/// The walk after a sequence of reports.
pub open spec fn run(t: Trail, rs: Seq<Report>) -> Trail
    decreases rs.len(),
{
    if rs.len() == 0 {
        t
    } else {
        run(trail_after(t, rs[0]), rs.drop_first())
    }
}

/// The actions that the walk asks for while the reports come in, one before
/// each report.
pub open spec fn asked(t: Trail, rs: Seq<Report>) -> Seq<Task>
    decreases rs.len(),
{
    if rs.len() == 0 {
        Seq::empty()
    } else {
        let rest = asked(trail_after(t, rs[0]), rs.drop_first());
        match t.standing {
            Standing::Asking(task) => seq![task] + rest,
            _ => rest,
        }
    }
}

/// One report moves the walk one step, and one action was asked before it.
pub proof fn lemma_run_one(t: Trail, r: Report)
    ensures
        run(t, seq![r]) == trail_after(t, r),
        asked(t, seq![r]) == match t.standing {
            Standing::Asking(task) => seq![task],
            _ => Seq::<Task>::empty(),
        },
{
    let rest = seq![r].drop_first();
    assert(run(trail_after(t, r), rest) == trail_after(t, r));
    assert(asked(trail_after(t, r), rest) == Seq::<Task>::empty());
}

/// Reports that come one sequence after the other are taken as one sequence.
pub proof fn lemma_run_add(t: Trail, a: Seq<Report>, b: Seq<Report>)
    ensures
        run(t, a + b) == run(run(t, a), b),
        asked(t, a + b) == asked(t, a) + asked(run(t, a), b),
    decreases a.len(),
{
    if a.len() > 0 {
        assert((a + b).drop_first() == a.drop_first() + b);
        lemma_run_add(trail_after(t, a[0]), a.drop_first(), b);
    }
}

/// The entries from place `from` on that are still to be copied, each with
/// its destination, as they lie on the stack: the next one last.
pub open spec fn left(
    entries: Seq<(Seq<char>, Tree)>,
    from: nat,
    src: Seq<char>,
    dst: Seq<char>,
) -> Seq<(Seq<char>, Seq<char>)> {
    children(src, dst, names(entries)).skip(from as int).reverse()
}

/// The walk that is about to visit the entry `src`, to be copied to `dst`,
/// with `rest` below it on the stack.
pub open spec fn visiting(rest: Seq<(Seq<char>, Seq<char>)>, src: Seq<char>, dst: Seq<char>) -> Trail {
    Trail { stack: rest.push((src, dst)), standing: Standing::Asking(Task::Classify { path: src }) }
}

/// A walk clones the tree on top of its stack depth first.
///
/// While the reports of `tree` come in, the walk that is about to visit
/// `tree` asks for the actions of the plan of `tree`, in order and for nothing
/// else, and then goes on with what lay below on the stack.
pub proof fn lemma_walk_clones(
    tree: Tree,
    rest: Seq<(Seq<char>, Seq<char>)>,
    src: Seq<char>,
    dst: Seq<char>,
)
    ensures
        run(visiting(rest, src, dst), reports(tree)) == resume(rest),
        asked(visiting(rest, src, dst), reports(tree)) == plan(tree, src, dst),
    decreases tree, 0nat,
{
    let t0 = visiting(rest, src, dst);
    assert(t0.stack.drop_last() == rest);
    match tree {
        Tree::File => {
            let kind = Report::Kind(EntryKind::File);
            let t1 = trail_after(t0, kind);
            lemma_run_one(t0, kind);
            lemma_run_one(t1, Report::Done);
            lemma_run_add(t0, seq![kind], seq![Report::Done]);
            assert(seq![kind] + seq![Report::Done] == reports(tree));
            assert(seq![Task::Classify { path: src }] + seq![
                Task::CopyFile { from: src, to: dst },
            ] == plan(tree, src, dst));
        },
        Tree::Symlink => {
            let kind = Report::Kind(EntryKind::Symlink);
            let t1 = trail_after(t0, kind);
            lemma_run_one(t0, kind);
            lemma_run_one(t1, Report::Done);
            lemma_run_add(t0, seq![kind], seq![Report::Done]);
            assert(seq![kind] + seq![Report::Done] == reports(tree));
            assert(seq![Task::Classify { path: src }] + seq![
                Task::Relink { from: src, to: dst },
            ] == plan(tree, src, dst));
        },
        Tree::Directory(entries) => {
            let kind = Report::Kind(EntryKind::Directory);
            let listing = Report::Entries(names(entries));
            let t1 = trail_after(t0, kind);
            let t2 = trail_after(t1, Report::Done);
            let opening = seq![kind, Report::Done, listing];
            lemma_run_one(t0, kind);
            lemma_run_one(t1, Report::Done);
            lemma_run_one(t2, listing);
            lemma_run_add(t0, seq![kind], seq![Report::Done]);
            lemma_run_add(t0, seq![kind] + seq![Report::Done], seq![listing]);
            assert(seq![kind] + seq![Report::Done] + seq![listing] == opening);
            assert(children(src, dst, names(entries)).skip(0) == children(
                src,
                dst,
                names(entries),
            ));
            lemma_walk_clones_each(entries, 0, rest, src, dst);
            lemma_run_add(t0, opening, reports_each(entries, 0));
            assert(asked(t0, opening) == seq![
                Task::Classify { path: src },
                Task::MakeDir { path: dst },
                Task::List { path: src },
            ]);
        },
    }
}

/// A walk clones the entries of a directory one after the other, each depth
/// first, in the order in which the directory lists them.
pub proof fn lemma_walk_clones_each(
    entries: Seq<(Seq<char>, Tree)>,
    from: nat,
    rest: Seq<(Seq<char>, Seq<char>)>,
    src: Seq<char>,
    dst: Seq<char>,
)
    requires
        from <= entries.len(),
    ensures
        run(resume(rest + left(entries, from, src, dst)), reports_each(entries, from)) == resume(
            rest,
        ),
        asked(resume(rest + left(entries, from, src, dst)), reports_each(entries, from))
            == plan_each(entries, from, src, dst),
    decreases entries, entries.len() - from,
{
    let all = children(src, dst, names(entries));
    if from < entries.len() {
        let entry = entries[from as int];
        let below = rest + left(entries, from + 1, src, dst);
        let here = joined(src, entry.0);
        let there = joined(dst, entry.0);
        assert(all.skip(from as int).reverse() == all.skip((from + 1) as int).reverse().push(
            all[from as int],
        ));
        lemma_walk_clones(entry.1, below, here, there);
        lemma_walk_clones_each(entries, from + 1, rest, src, dst);
        lemma_run_add(
            visiting(below, here, there),
            reports(entry.1),
            reports_each(entries, from + 1),
        );
    }
}

/// The recursive copy of a tree that is there clones it.
///
/// Once the root is reported to exist and while the reports of `tree` come
/// in, the walk asks whether the root exists and then for the actions of the
/// plan of `tree`, in order and for nothing else, and ends with success and
/// with nothing left to copy.
pub proof fn lemma_recursive_copy_clones(tree: Tree, src: Seq<char>, dst: Seq<char>)
    ensures
        run(trail_start(src, dst), seq![Report::Exists(true)] + reports(tree)) == (Trail {
            stack: Seq::empty(),
            standing: Standing::Succeeded,
        }),
        asked(trail_start(src, dst), seq![Report::Exists(true)] + reports(tree)) == seq![
            Task::Probe { path: src },
        ] + plan(tree, src, dst),
{
    let start = trail_start(src, dst);
    let found = Report::Exists(true);
    let none = Seq::<(Seq<char>, Seq<char>)>::empty();
    lemma_run_one(start, found);
    lemma_walk_clones(tree, none, src, dst);
    lemma_run_add(start, seq![found], reports(tree));
}

} // verus!
