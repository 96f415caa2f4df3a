//! The recursive copy of a directory tree, as a walk that asks for one
//! action at a time.
//!
//! The walk keeps a stack of entries that are still to be copied, each with
//! the path it is copied to. The entry on top is visited next: a file is
//! copied, a symbolic link is created anew, a directory is created and its
//! entries take its place on the stack, the first of them on top. The tree is
//! thus cloned depth first, in the order in which each directory lists its
//! entries. The first failure ends the walk; what was written stays.

use vstd::prelude::*;
use crate::action::{breakdown, path_check, Action, EntryKind, Event, Progress, Report, Standing, Task};
use crate::error::{Fault, Phase, TrackError};
use crate::text::{join, joined, views};

verus! {

/// The recursive copy of one tree.
#[derive(Debug, PartialEq, Eq)]
pub struct Walk {
    stack: Vec<(String, String)>,
    progress: Progress,
}

/// The mathematical value of a [`Walk`]: the entries still to be copied, each
/// with its destination, the next one last; and where the walk stands.
pub ghost struct Trail {
    pub stack: Seq<(Seq<char>, Seq<char>)>,
    pub standing: Standing,
}

/// The mathematical values of a sequence of pairs of paths, in order.
pub open spec fn pair_views(pairs: Seq<(String, String)>) -> Seq<(Seq<char>, Seq<char>)> {
    pairs.map_values(|p: (String, String)| (p.0@, p.1@))
}

impl View for Walk {
    type V = Trail;

    closed spec fn view(&self) -> Trail {
        Trail { stack: pair_views(self.stack@), standing: self.progress@ }
    }
}

/// Whether a walk may ask for `task`: it probes, classifies, copies, links
/// anew, creates directories and lists them, and does nothing else.
pub open spec fn walk_task(task: Task) -> bool {
    task is Probe || task is Classify || task is CopyFile || task is Relink || task is MakeDir
        || task is List
}

impl Trail {
    /// A walk that asks for something has an entry to visit, and asks only
    /// for what a walk may ask.
    pub open spec fn sound(self) -> bool {
        self.standing matches Standing::Asking(task) ==> self.stack.len() > 0 && walk_task(task)
    }
}

/// The entries of the directory `src`, each with its place in the copy `dst`
/// of that directory.
pub open spec fn children(src: Seq<char>, dst: Seq<char>, names: Seq<Seq<char>>) -> Seq<
    (Seq<char>, Seq<char>),
> {
    names.map_values(|name: Seq<char>| (joined(src, name), joined(dst, name)))
}

/// The walk at its start: the root of the tree is to be copied, and first it
/// is asked whether it exists.
pub open spec fn trail_start(path: Seq<char>, to: Seq<char>) -> Trail {
    Trail { stack: seq![(path, to)], standing: Standing::Asking(Task::Probe { path }) }
}

/// The walk with `stack` left to copy: it is over when nothing is left, else
/// it asks what the entry on top is.
pub open spec fn resume(stack: Seq<(Seq<char>, Seq<char>)>) -> Trail {
    if stack.len() == 0 {
        Trail { stack, standing: Standing::Succeeded }
    } else {
        Trail { stack, standing: Standing::Asking(Task::Classify { path: stack.last().0 }) }
    }
}

/// How an entry of the given kind is copied from `src` to `dst`.
pub open spec fn visit(kind: EntryKind, src: Seq<char>, dst: Seq<char>) -> Task {
    match kind {
        EntryKind::File => Task::CopyFile { from: src, to: dst },
        EntryKind::Symlink => Task::Relink { from: src, to: dst },
        EntryKind::Directory => Task::MakeDir { path: dst },
    }
}

/// The walk after a report.
///
/// A report that does not answer the action asked for changes nothing, and
/// neither does any report once the walk is over.
pub open spec fn trail_after(t: Trail, r: Report) -> Trail {
    let (src, dst) = t.stack.last();
    match (t.standing, r) {
        (Standing::Asking(Task::Probe { .. }), Report::Exists(found)) => if found {
            Trail { stack: t.stack, standing: Standing::Asking(Task::Classify { path: src }) }
        } else {
            Trail { stack: t.stack, standing: Standing::Failed(Fault::PathNotFound(src)) }
        },
        (Standing::Asking(Task::Classify { .. }), Report::Kind(kind)) => Trail {
            stack: t.stack,
            standing: Standing::Asking(visit(kind, src, dst)),
        },
        (Standing::Asking(Task::CopyFile { .. }), Report::Done) => resume(t.stack.drop_last()),
        (Standing::Asking(Task::Relink { .. }), Report::Done) => resume(t.stack.drop_last()),
        (Standing::Asking(Task::MakeDir { .. }), Report::Done) => Trail {
            stack: t.stack,
            standing: Standing::Asking(Task::List { path: src }),
        },
        (Standing::Asking(Task::List { .. }), Report::Entries(names)) => resume(
            t.stack.drop_last() + children(src, dst, names).reverse(),
        ),
        (Standing::Asking(Task::CopyFile { .. }), Report::Failed(detail)) => Trail {
            stack: t.stack,
            standing: breakdown(Phase::Copy, src, detail),
        },
        (Standing::Asking(Task::Relink { .. }), Report::Failed(detail)) => Trail {
            stack: t.stack,
            standing: breakdown(Phase::Copy, src, detail),
        },
        (Standing::Asking(Task::MakeDir { .. }), Report::Failed(detail)) => Trail {
            stack: t.stack,
            standing: breakdown(Phase::Copy, dst, detail),
        },
        (Standing::Asking(Task::List { .. }), Report::Failed(detail)) => Trail {
            stack: t.stack,
            standing: breakdown(Phase::Copy, src, detail),
        },
        _ => t,
    }
}

/// A sound walk stays sound, whatever is reported.
pub proof fn lemma_trail_stays_sound(t: Trail, r: Report)
    requires
        t.sound(),
    ensures
        trail_after(t, r).sound(),
{
}

/// A walk that is over stays as it is, whatever is reported.
pub proof fn lemma_trail_over_is_final(t: Trail, r: Report)
    requires
        !(t.standing is Asking),
    ensures
        trail_after(t, r) == t,
{
}

/// Begins the recursive copy of the tree at `path` to `to_file`.
pub fn recursive_copy(path: &str, to_file: &str) -> (walk: Walk)
    ensures
        walk@ == trail_start(path@, to_file@),
        walk@.sound(),
{
    let mut stack: Vec<(String, String)> = Vec::new();
    stack.push((path.to_owned(), to_file.to_owned()));
    let walk = Walk { stack, progress: Progress::Asking(Action::Probe { path: path.to_owned() }) };
    assert(walk@.stack == seq![(path@, to_file@)]);
    walk
}

impl Walk {
    #[verifier::type_invariant]
    spec fn inv(self) -> bool {
        self@.sound()
    }

    /// Where the walk stands.
    pub fn progress(&self) -> (p: &Progress)
        ensures
            p@ == self@.standing,
            self@.sound(),
    {
        proof {
            use_type_invariant(self);
        }
        &self.progress
    }

    /// Ends the walk and hands out where it stood.
    pub fn into_progress(self) -> (p: Progress)
        ensures
            p@ == self@.standing,
    {
        self.progress
    }

    /// Goes on with `stack` left to copy.
    fn resume(stack: Vec<(String, String)>) -> (walk: Walk)
        ensures
            walk@ == resume(pair_views(stack@)),
    {
        let n = stack.len();
        if n == 0 {
            Walk { stack, progress: Progress::Succeeded }
        } else {
            let path = stack[n - 1].0.clone();
            Walk { stack, progress: Progress::Asking(Action::Classify { path }) }
        }
    }

    /// Takes the caller's report and moves on.
    pub fn advance(self, event: Event) -> (next: Walk)
        ensures
            next@ == trail_after(self@, event@),
            next@.sound(),
    {
        proof {
            use_type_invariant(&self);
            lemma_trail_stays_sound(self@, event@);
        }
        let Walk { stack, progress } = self;
        match progress {
            Progress::Asking(action) => {
                let n = stack.len();
                let src = stack[n - 1].0.clone();
                let dst = stack[n - 1].1.clone();
                match (action, event) {
                    (Action::Probe { .. }, Event::Exists(found)) => {
                        match path_check(src.as_str(), found) {
                            Ok(()) => Walk {
                                stack,
                                progress: Progress::Asking(Action::Classify { path: src }),
                            },
                            Err(e) => Walk { stack, progress: Progress::Failed(e) },
                        }
                    },
                    (Action::Classify { .. }, Event::Kind(kind)) => {
                        let action = match kind {
                            EntryKind::File => Action::CopyFile { from: src, to: dst },
                            EntryKind::Symlink => Action::Relink { from: src, to: dst },
                            EntryKind::Directory => Action::MakeDir { path: dst },
                        };
                        Walk { stack, progress: Progress::Asking(action) }
                    },
                    (Action::CopyFile { .. }, Event::Done) => Self::leave(stack),
                    (Action::Relink { .. }, Event::Done) => Self::leave(stack),
                    (Action::MakeDir { .. }, Event::Done) => Walk {
                        stack,
                        progress: Progress::Asking(Action::List { path: src }),
                    },
                    (Action::List { .. }, Event::Entries(names)) => Self::descend(
                        stack,
                        names,
                    ),
                    (Action::CopyFile { .. }, Event::Failed(detail)) => Self::fail(
                        stack,
                        src,
                        detail,
                    ),
                    (Action::Relink { .. }, Event::Failed(detail)) => Self::fail(
                        stack,
                        src,
                        detail,
                    ),
                    (Action::MakeDir { .. }, Event::Failed(detail)) => Self::fail(
                        stack,
                        dst,
                        detail,
                    ),
                    (Action::List { .. }, Event::Failed(detail)) => Self::fail(
                        stack,
                        src,
                        detail,
                    ),
                    (action, _) => Walk { stack, progress: Progress::Asking(action) },
                }
            },
            other => Walk { stack, progress: other },
        }
    }

    /// The entry on top is copied: the walk goes on with the rest.
    fn leave(stack: Vec<(String, String)>) -> (walk: Walk)
        requires
            stack.len() > 0,
        ensures
            walk@ == resume(pair_views(stack@).drop_last()),
    {
        let mut stack = stack;
        let ghost before = pair_views(stack@);
        stack.pop();
        assert(pair_views(stack@) == before.drop_last());
        Self::resume(stack)
    }

    /// The directory on top is created and listed: its entries take its
    /// place, the first of them on top.
    fn descend(stack: Vec<(String, String)>, names: Vec<String>) -> (walk: Walk)
        requires
            stack.len() > 0,
        ensures
            walk@ == resume(
                pair_views(stack@).drop_last() + children(
                    pair_views(stack@).last().0,
                    pair_views(stack@).last().1,
                    views(names@),
                ).reverse(),
            ),
    {
        let mut stack = stack;
        let ghost before = pair_views(stack@);
        let n = stack.len();
        let src = stack[n - 1].0.clone();
        let dst = stack[n - 1].1.clone();
        stack.pop();
        let ghost all = children(src@, dst@, views(names@)).reverse();
        let mut i: usize = names.len();
        while i > 0
            invariant
                i <= names.len(),
                all == children(src@, dst@, views(names@)).reverse(),
                pair_views(stack@) == before.drop_last() + all.take(names.len() - i),
            decreases i,
        {
            i = i - 1;
            let from = join(src.as_str(), names[i].as_str());
            let to = join(dst.as_str(), names[i].as_str());
            proof {
                assert(pair_views(stack@.push((from, to))) == pair_views(stack@).push(
                    (from@, to@),
                ));
            }
            stack.push((from, to));
        }
        assert(all.take(names.len() as int) == all);
        Self::resume(stack)
    }

    /// The action on `path` failed: the walk is given up.
    fn fail(stack: Vec<(String, String)>, path: String, detail: String) -> (walk: Walk)
        ensures
            walk@ == (Trail {
                stack: pair_views(stack@),
                standing: breakdown(Phase::Copy, path@, detail@),
            }),
    {
        Walk {
            stack,
            progress: Progress::Failed(
                TrackError::FilesystemFailure { phase: Phase::Copy, path, detail },
            ),
        }
    }
}

} // verus!
