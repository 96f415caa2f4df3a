//! The course of a whole run on a filesystem that refuses nothing.
//!
//! The laws of the single steps say what one report does. Here the reports of
//! a whole relocation, and of a whole run, are put one after the other, and
//! the actions that are asked for along the way are shown to be those that
//! one expects: for each file in turn the check where copy mode asks for it,
//! the copy, and in symlink mode the removal and the link.

use vstd::prelude::*;
use crate::action::{Report, Standing, Task};
use crate::dispatch::{
    lemma_schedule_over_is_final, lemma_schedule_stays_sound, schedule_after, schedule_start,
    turned_to, Schedule,
};
use crate::error::Fault;
use crate::file::{
    copied, lemma_transfer_start_sound, lemma_transfer_stays_sound, transfer_after,
    transfer_start, Transfer,
};
use crate::options::Opt;
use crate::text::joined;
use crate::tree::{
    asked, lemma_recursive_copy_clones, names, plan, plan_each, reports, reports_each, run, Tree,
};
use crate::walk::{trail_after, trail_start, Trail};

verus! {

/// The relocation after a sequence of reports.
pub open spec fn transfer_run(t: Transfer, rs: Seq<Report>) -> Transfer
    decreases rs.len(),
{
    if rs.len() == 0 {
        t
    } else {
        transfer_run(transfer_after(t, rs[0]), rs.drop_first())
    }
}

/// The actions that the relocation asks for while the reports come in, one
/// before each report.
pub open spec fn transfer_asked(t: Transfer, rs: Seq<Report>) -> Seq<Task>
    decreases rs.len(),
{
    if rs.len() == 0 {
        Seq::empty()
    } else {
        let rest = transfer_asked(transfer_after(t, rs[0]), rs.drop_first());
        match t.standing {
            Standing::Asking(task) => seq![task] + rest,
            _ => rest,
        }
    }
}

/// Reports that come one sequence after the other are taken as one sequence.
pub proof fn lemma_transfer_run_add(t: Transfer, a: Seq<Report>, b: Seq<Report>)
    ensures
        transfer_run(t, a + b) == transfer_run(transfer_run(t, a), b),
        transfer_asked(t, a + b) == transfer_asked(t, a) + transfer_asked(transfer_run(t, a), b),
    decreases a.len(),
{
    if a.len() > 0 {
        assert((a + b).drop_first() == a.drop_first() + b);
        lemma_transfer_run_add(transfer_after(t, a[0]), a.drop_first(), b);
    }
}

/// One report moves the relocation one step, and one action was asked before
/// it.
pub proof fn lemma_transfer_run_one(t: Transfer, r: Report)
    ensures
        transfer_run(t, seq![r]) == transfer_after(t, r),
        transfer_asked(t, seq![r]) == match t.standing {
            Standing::Asking(task) => seq![task],
            _ => Seq::<Task>::empty(),
        },
{
    let rest = seq![r].drop_first();
    assert(transfer_run(transfer_after(t, r), rest) == transfer_after(t, r));
    assert(transfer_asked(transfer_after(t, r), rest) == Seq::<Task>::empty());
}

/// A walk asks for at most one action before each report.
pub proof fn lemma_asked_len(trail: Trail, rs: Seq<Report>)
    ensures
        asked(trail, rs).len() <= rs.len(),
    decreases rs.len(),
{
    if rs.len() > 0 {
        lemma_asked_len(trail_after(trail, rs[0]), rs.drop_first());
    }
}

/// While its walk is under way, a relocation asks for what the walk asks for,
/// and when the walk ends with success the copy is made.
pub proof fn lemma_walk_carries_transfer(t: Transfer, trail: Trail, rs: Seq<Report>)
    requires
        t.sound(),
        t.walk == Some(trail),
        rs.len() > 0,
        asked(trail, rs).len() == rs.len(),
        run(trail, rs).standing is Succeeded,
    ensures
        transfer_run(t, rs) == copied(t),
        transfer_asked(t, rs) == asked(trail, rs),
    decreases rs.len(),
{
    let rest = rs.drop_first();
    let trail_next = trail_after(trail, rs[0]);
    let next = transfer_after(t, rs[0]);
    let task = trail.standing->Asking_0;
    lemma_asked_len(trail_next, rest);
    assert(transfer_asked(t, rs) == seq![task] + transfer_asked(next, rest));
    assert(run(trail, rs) == run(trail_next, rest));
    assert(transfer_run(t, rs) == transfer_run(next, rest));
    if rest.len() > 0 {
        if !(trail_next.standing is Asking) {
            lemma_asked_len(trail_after(trail_next, rest[0]), rest.drop_first());
            assert(false);
        }
        lemma_transfer_stays_sound(t, rs[0]);
        assert(next.walk == Some(trail_next));
        lemma_walk_carries_transfer(next, trail_next, rest);
        assert(copied(next) == copied(t));
    } else {
        assert(run(trail_next, rest) == trail_next);
        assert(next == copied(t));
    }
}

/// The plan of a tree has one action for each report of the tree.
pub proof fn lemma_plan_len(tree: Tree, src: Seq<char>, dst: Seq<char>)
    ensures
        plan(tree, src, dst).len() == reports(tree).len(),
    decreases tree, 0nat,
{
    if let Tree::Directory(entries) = tree {
        lemma_plan_each_len(entries, 0, src, dst);
    }
}

/// The plans of the entries of a directory have one action for each report
/// of the entries.
pub proof fn lemma_plan_each_len(
    entries: Seq<(Seq<char>, Tree)>,
    from: nat,
    src: Seq<char>,
    dst: Seq<char>,
)
    ensures
        plan_each(entries, from, src, dst).len() == reports_each(entries, from).len(),
    decreases entries, entries.len() - from,
{
    if from < entries.len() {
        let entry = entries[from as int];
        lemma_plan_len(entry.1, joined(src, entry.0), joined(dst, entry.0));
        lemma_plan_each_len(entries, from + 1, src, dst);
    }
}

/// The reports that come in while a source whose tree is `tree` is copied and
/// nothing fails: those of the walk where a tree is copied, else the one of
/// the file copy.
pub open spec fn copy_reports(recursive: bool, tree: Tree) -> Seq<Report> {
    if recursive {
        seq![Report::Exists(true)] + reports(tree)
    } else {
        seq![Report::Done]
    }
}

/// The actions that copy the source `path` to `dest`.
pub open spec fn copy_plan(recursive: bool, tree: Tree, path: Seq<char>, dest: Seq<char>) -> Seq<
    Task,
> {
    if recursive {
        seq![Task::Probe { path }] + plan(tree, path, dest)
    } else {
        seq![Task::CopyFile { from: path, to: dest }]
    }
}

/// The reports that come in while a source is relocated and nothing fails:
/// those of the copy and, in symlink mode, those of the removal and the link.
pub open spec fn relocation_reports(symlink: bool, recursive: bool, tree: Tree) -> Seq<Report> {
    if symlink {
        copy_reports(recursive, tree) + seq![Report::Done, Report::Done]
    } else {
        copy_reports(recursive, tree)
    }
}

/// The actions that relocate the source `path` into the storage directory
/// `root`: the copy to `path` below `root` and, in symlink mode, the removal
/// of the source and the link to the copy in its place.
pub open spec fn relocation_plan(
    symlink: bool,
    recursive: bool,
    tree: Tree,
    path: Seq<char>,
    root: Seq<char>,
) -> Seq<Task> {
    let dest = joined(root, path);
    if symlink {
        copy_plan(recursive, tree, path, dest) + seq![
            Task::RemoveFile { path },
            Task::Link { target: dest, at: path },
        ]
    } else {
        copy_plan(recursive, tree, path, dest)
    }
}

/// Where nothing fails, the copy of a relocation asks for the actions of the
/// copy and for nothing else, and the copy is then made.
pub proof fn lemma_copy_course(
    symlink: bool,
    recursive: bool,
    tree: Tree,
    path: Seq<char>,
    root: Seq<char>,
)
    ensures
        ({
            let start = transfer_start(symlink, recursive, path, root);
            &&& transfer_run(start, copy_reports(recursive, tree)) == copied(start)
            &&& transfer_asked(start, copy_reports(recursive, tree)) == copy_plan(
                recursive,
                tree,
                path,
                joined(root, path),
            )
        }),
{
    let start = transfer_start(symlink, recursive, path, root);
    let dest = joined(root, path);
    lemma_transfer_start_sound(symlink, recursive, path, root);
    if recursive {
        let rs = copy_reports(recursive, tree);
        lemma_recursive_copy_clones(tree, path, dest);
        lemma_plan_len(tree, path, dest);
        lemma_walk_carries_transfer(start, trail_start(path, dest), rs);
    } else {
        lemma_transfer_run_one(start, Report::Done);
    }
}

/// Where nothing fails, a relocation asks for the actions of its plan, in
/// order and for nothing else, and ends with success.
pub proof fn lemma_relocation_course(
    symlink: bool,
    recursive: bool,
    tree: Tree,
    path: Seq<char>,
    root: Seq<char>,
)
    ensures
        ({
            let start = transfer_start(symlink, recursive, path, root);
            let reports = relocation_reports(symlink, recursive, tree);
            &&& transfer_run(start, reports).standing == Standing::Succeeded
            &&& transfer_run(start, reports).walk is None
            &&& transfer_asked(start, reports) == relocation_plan(
                symlink,
                recursive,
                tree,
                path,
                root,
            )
            &&& transfer_asked(start, reports).len() == reports.len()
            &&& reports.len() > 0
        }),
{
    let start = transfer_start(symlink, recursive, path, root);
    let dest = joined(root, path);
    let copying = copy_reports(recursive, tree);
    lemma_copy_course(symlink, recursive, tree, path, root);
    lemma_plan_len(tree, path, dest);
    if symlink {
        let made = copied(start);
        let gone = transfer_after(made, Report::Done);
        lemma_transfer_run_one(made, Report::Done);
        lemma_transfer_run_one(gone, Report::Done);
        lemma_transfer_run_add(made, seq![Report::Done], seq![Report::Done]);
        assert(seq![Report::Done] + seq![Report::Done] == seq![Report::Done, Report::Done]);
        assert(seq![Task::RemoveFile { path }] + seq![Task::Link { target: dest, at: path }]
            == seq![Task::RemoveFile { path }, Task::Link { target: dest, at: path }]);
        lemma_transfer_run_add(start, copying, seq![Report::Done, Report::Done]);
    }
}

/// The run after a sequence of reports.
pub open spec fn schedule_run(s: Schedule, rs: Seq<Report>) -> Schedule
    decreases rs.len(),
{
    if rs.len() == 0 {
        s
    } else {
        schedule_run(schedule_after(s, rs[0]), rs.drop_first())
    }
}

/// The actions that the run asks for while the reports come in, one before
/// each report.
pub open spec fn schedule_asked(s: Schedule, rs: Seq<Report>) -> Seq<Task>
    decreases rs.len(),
{
    if rs.len() == 0 {
        Seq::empty()
    } else {
        let rest = schedule_asked(schedule_after(s, rs[0]), rs.drop_first());
        match s.standing {
            Standing::Asking(task) => seq![task] + rest,
            _ => rest,
        }
    }
}

/// Reports that come one sequence after the other are taken as one sequence.
pub proof fn lemma_schedule_run_add(s: Schedule, a: Seq<Report>, b: Seq<Report>)
    ensures
        schedule_run(s, a + b) == schedule_run(schedule_run(s, a), b),
        schedule_asked(s, a + b) == schedule_asked(s, a) + schedule_asked(schedule_run(s, a), b),
    decreases a.len(),
{
    if a.len() > 0 {
        assert((a + b).drop_first() == a.drop_first() + b);
        lemma_schedule_run_add(schedule_after(s, a[0]), a.drop_first(), b);
    }
}

/// One report moves the run one step, and one action was asked before it.
pub proof fn lemma_schedule_run_one(s: Schedule, r: Report)
    ensures
        schedule_run(s, seq![r]) == schedule_after(s, r),
        schedule_asked(s, seq![r]) == match s.standing {
            Standing::Asking(task) => seq![task],
            _ => Seq::<Task>::empty(),
        },
{
    let rest = seq![r].drop_first();
    assert(schedule_run(schedule_after(s, r), rest) == schedule_after(s, r));
    assert(schedule_asked(schedule_after(s, r), rest) == Seq::<Task>::empty());
}

/// A relocation asks for at most one action before each report.
pub proof fn lemma_transfer_asked_len(t: Transfer, rs: Seq<Report>)
    ensures
        transfer_asked(t, rs).len() <= rs.len(),
    decreases rs.len(),
{
    if rs.len() > 0 {
        lemma_transfer_asked_len(transfer_after(t, rs[0]), rs.drop_first());
    }
}

/// While a file is relocated, the run asks for what the relocation asks for,
/// and when the relocation ends with success the run turns to the next file.
pub proof fn lemma_transfer_carries_schedule(s: Schedule, t: Transfer, rs: Seq<Report>)
    requires
        s.sound(),
        s.current == Some(t),
        rs.len() > 0,
        transfer_asked(t, rs).len() == rs.len(),
        transfer_run(t, rs).standing is Succeeded,
    ensures
        schedule_run(s, rs) == turned_to(s, s.index + 1),
        schedule_asked(s, rs) == transfer_asked(t, rs),
    decreases rs.len(),
{
    let rest = rs.drop_first();
    let t_next = transfer_after(t, rs[0]);
    let next = schedule_after(s, rs[0]);
    let task = t.standing->Asking_0;
    lemma_transfer_asked_len(t_next, rest);
    assert(transfer_asked(t, rs) == seq![task] + transfer_asked(t_next, rest));
    assert(schedule_asked(s, rs) == seq![task] + schedule_asked(next, rest));
    assert(transfer_run(t, rs) == transfer_run(t_next, rest));
    assert(schedule_run(s, rs) == schedule_run(next, rest));
    if rest.len() > 0 {
        if !(t_next.standing is Asking) {
            lemma_transfer_asked_len(transfer_after(t_next, rest[0]), rest.drop_first());
            assert(false);
        }
        lemma_schedule_stays_sound(s, rs[0]);
        assert(next.current == Some(t_next));
        lemma_transfer_carries_schedule(next, t_next, rest);
        assert(turned_to(next, next.index + 1) == turned_to(s, s.index + 1));
    } else {
        assert(transfer_run(t_next, rest) == t_next);
        assert(next == turned_to(s, s.index + 1));
    }
}

/// The reports that come in while the run is busy with one file and nothing
/// fails: in copy mode that the file exists, then those of its relocation.
pub open spec fn turn_reports(symlink: bool, recursive: bool, tree: Tree) -> Seq<Report> {
    if symlink {
        relocation_reports(symlink, recursive, tree)
    } else {
        seq![Report::Exists(true)] + relocation_reports(symlink, recursive, tree)
    }
}

/// The actions for one file: in copy mode the check that it exists, then its
/// relocation.
pub open spec fn turn_plan(
    symlink: bool,
    recursive: bool,
    tree: Tree,
    path: Seq<char>,
    root: Seq<char>,
) -> Seq<Task> {
    if symlink {
        relocation_plan(symlink, recursive, tree, path, root)
    } else {
        seq![Task::Probe { path }] + relocation_plan(symlink, recursive, tree, path, root)
    }
}

/// The reports that come in while the files from place `from` up to, but
/// without, place `upto` are relocated and nothing fails. Each file is given
/// with its tree.
pub open spec fn batch_reports(
    symlink: bool,
    recursive: bool,
    sources: Seq<(Seq<char>, Tree)>,
    from: nat,
    upto: nat,
) -> Seq<Report>
    decreases upto - from,
{
    if from >= upto {
        Seq::empty()
    } else {
        turn_reports(symlink, recursive, sources[from as int].1) + batch_reports(
            symlink,
            recursive,
            sources,
            from + 1,
            upto,
        )
    }
}

/// The actions that relocate the files from place `from` up to, but without,
/// place `upto`, one file after the other.
pub open spec fn batch_plan(
    symlink: bool,
    recursive: bool,
    sources: Seq<(Seq<char>, Tree)>,
    from: nat,
    upto: nat,
    root: Seq<char>,
) -> Seq<Task>
    decreases upto - from,
{
    if from >= upto {
        Seq::empty()
    } else {
        turn_plan(symlink, recursive, sources[from as int].1, sources[from as int].0, root)
            + batch_plan(symlink, recursive, sources, from + 1, upto, root)
    }
}

/// A run that turns to a file is sound.
pub proof fn lemma_turned_to_sound(s: Schedule, i: nat)
    ensures
        turned_to(s, i).sound(),
{
    if i < s.files.len() {
        lemma_transfer_start_sound(true, s.recursive, s.files[i as int], s.root);
    }
}

/// Where nothing fails, the run does with one file what the plan for that
/// file says, and then turns to the next.
pub proof fn lemma_turn_course(s: Schedule, i: nat, tree: Tree)
    requires
        i < s.files.len(),
    ensures
        schedule_run(turned_to(s, i), turn_reports(s.symlink, s.recursive, tree)) == turned_to(
            s,
            i + 1,
        ),
        schedule_asked(turned_to(s, i), turn_reports(s.symlink, s.recursive, tree)) == turn_plan(
            s.symlink,
            s.recursive,
            tree,
            s.files[i as int],
            s.root,
        ),
{
    let path = s.files[i as int];
    let at = turned_to(s, i);
    let relocating = relocation_reports(s.symlink, s.recursive, tree);
    lemma_turned_to_sound(s, i);
    lemma_relocation_course(s.symlink, s.recursive, tree, path, s.root);
    if s.symlink {
        let transfer = transfer_start(true, s.recursive, path, s.root);
        lemma_transfer_carries_schedule(at, transfer, relocating);
        assert(turned_to(at, at.index + 1) == turned_to(s, i + 1));
    } else {
        let transfer = transfer_start(false, s.recursive, path, s.root);
        let found = Report::Exists(true);
        let begun = schedule_after(at, found);
        lemma_schedule_run_one(at, found);
        lemma_schedule_stays_sound(at, found);
        assert(begun.current == Some(transfer));
        lemma_transfer_carries_schedule(begun, transfer, relocating);
        lemma_schedule_run_add(at, seq![found], relocating);
        assert(turned_to(begun, begun.index + 1) == turned_to(s, i + 1));
    }
}

/// Where nothing fails, the run relocates the files from place `from` up to
/// place `upto`, one after the other and each once, and then turns to the
/// file at place `upto`.
pub proof fn lemma_batch_course_from(
    s: Schedule,
    sources: Seq<(Seq<char>, Tree)>,
    from: nat,
    upto: nat,
)
    requires
        s.files == names(sources),
        from <= upto <= sources.len(),
    ensures
        schedule_run(
            turned_to(s, from),
            batch_reports(s.symlink, s.recursive, sources, from, upto),
        ) == turned_to(s, upto),
        schedule_asked(
            turned_to(s, from),
            batch_reports(s.symlink, s.recursive, sources, from, upto),
        ) == batch_plan(s.symlink, s.recursive, sources, from, upto, s.root),
    decreases upto - from,
{
    if from < upto {
        let tree = sources[from as int].1;
        lemma_turn_course(s, from, tree);
        lemma_batch_course_from(s, sources, from + 1, upto);
        lemma_schedule_run_add(
            turned_to(s, from),
            turn_reports(s.symlink, s.recursive, tree),
            batch_reports(s.symlink, s.recursive, sources, from + 1, upto),
        );
    }
}

/// The run of a request at its start, before it has turned to a file.
pub open spec fn schedule_base(opts: Set<Opt>, files: Seq<Seq<char>>, root: Seq<char>) -> Schedule {
    Schedule {
        root,
        symlink: opts.contains(Opt::Symlink),
        recursive: opts.contains(Opt::Recursive),
        files,
        index: 0,
        current: None,
        standing: Standing::Succeeded,
    }
}

/// On a filesystem that refuses nothing, a run relocates every file once, in
/// the order in which the files were given, and ends with success.
///
/// The files are given with their trees. The run asks for the actions of the
/// plan of each file in turn and for nothing else: in copy mode the check
/// that the file exists and its copy, in symlink mode its copy, its removal
/// and the link in its place.
pub proof fn lemma_batch_course(opts: Set<Opt>, sources: Seq<(Seq<char>, Tree)>, root: Seq<char>)
    ensures
        ({
            let symlink = opts.contains(Opt::Symlink);
            let recursive = opts.contains(Opt::Recursive);
            let start = schedule_start(opts, names(sources), root);
            let reports = batch_reports(symlink, recursive, sources, 0, sources.len());
            &&& schedule_run(start, reports).standing == Standing::Succeeded
            &&& schedule_run(start, reports).index == sources.len()
            &&& schedule_asked(start, reports) == batch_plan(
                symlink,
                recursive,
                sources,
                0,
                sources.len(),
                root,
            )
        }),
{
    lemma_batch_course_from(schedule_base(opts, names(sources), root), sources, 0, sources.len());
}

/// The first failure ends the run, and the files after it are left alone.
///
/// In copy mode, where the files before place `k` are relocated without a
/// failure and the file at place `k` is then found missing, the run has asked
/// for the plans of the files before `k` and for the check of the file at `k`,
/// and for nothing else. It ends with the failure that names the missing
/// file, and stays there whatever is reported after.
pub proof fn lemma_batch_stops_at_missing(
    opts: Set<Opt>,
    sources: Seq<(Seq<char>, Tree)>,
    root: Seq<char>,
    k: nat,
    later: Seq<Report>,
)
    requires
        !opts.contains(Opt::Symlink),
        k < sources.len(),
    ensures
        ({
            let recursive = opts.contains(Opt::Recursive);
            let start = schedule_start(opts, names(sources), root);
            let reports = batch_reports(false, recursive, sources, 0, k) + seq![
                Report::Exists(false),
            ];
            let end = schedule_run(start, reports);
            &&& end.standing == Standing::Failed(Fault::PathNotFound(sources[k as int].0))
            &&& end.index == k
            &&& schedule_asked(start, reports) == batch_plan(false, recursive, sources, 0, k, root)
                + seq![Task::Probe { path: sources[k as int].0 }]
            &&& schedule_run(end, later) == end
            &&& schedule_asked(end, later) == Seq::<Task>::empty()
        }),
{
    let base = schedule_base(opts, names(sources), root);
    let before = batch_reports(false, base.recursive, sources, 0, k);
    let missing = Report::Exists(false);
    let at = turned_to(base, k);
    lemma_batch_course_from(base, sources, 0, k);
    lemma_schedule_run_one(at, missing);
    lemma_schedule_run_add(turned_to(base, 0), before, seq![missing]);
    lemma_turned_to_sound(base, k);
    lemma_schedule_stays_sound(at, missing);
    lemma_schedule_over_stays(schedule_after(at, missing), later);
}

/// A run that is over asks for nothing more and stays as it is, however many
/// reports come in.
pub proof fn lemma_schedule_over_stays(s: Schedule, rs: Seq<Report>)
    requires
        s.sound(),
        !(s.standing is Asking),
    ensures
        schedule_run(s, rs) == s,
        schedule_asked(s, rs) == Seq::<Task>::empty(),
    decreases rs.len(),
{
    if rs.len() > 0 {
        lemma_schedule_over_is_final(s, rs[0]);
        lemma_schedule_over_stays(s, rs.drop_first());
    }
}

} // verus!
