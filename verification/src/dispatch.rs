//! The dispatcher: the files of a request are relocated one after the other,
//! in the order in which they were written, and the first failure ends the
//! run.
//!
//! The symlink option chooses symlink mode for every file, else every file is
//! relocated in copy mode. The recursive option goes to every relocation.
//! In copy mode each source is first asked to exist.

use vstd::prelude::*;
use crate::action::{checked, path_check, Action, Event, Progress, Report, Standing, Task};
use crate::file::{
    copy_track, lemma_transfer_start_sound, lemma_transfer_stays_sound, symlink_track,
    touches_source, transfer_after, transfer_start, Relocation, Transfer,
};
use crate::options::{Opt, OptSet};
use crate::text::{joined, views};

verus! {

/// What the run is busy with.
#[derive(Debug, PartialEq, Eq)]
enum Turn {
    /// A file is being relocated.
    Moving(Relocation),
    /// The existence check before a relocation, or the end.
    Plain(Progress),
}

/// The relocation of all the files of a request.
#[derive(Debug, PartialEq, Eq)]
pub struct Batch {
    root: String,
    symlink: bool,
    recursive: bool,
    files: Vec<String>,
    index: usize,
    turn: Turn,
}

/// The mathematical value of a [`Batch`].
pub ghost struct Schedule {
    /// The storage directory.
    pub root: Seq<char>,
    /// Whether the files are relocated in symlink mode.
    pub symlink: bool,
    /// Whether whole trees are copied.
    pub recursive: bool,
    /// The files, in the order in which they are relocated.
    pub files: Seq<Seq<char>>,
    /// How many files are done with; the file at this place is the one in
    /// work.
    pub index: nat,
    /// The relocation of the file in work, once it has begun.
    pub current: Option<Transfer>,
    /// Where the run stands.
    pub standing: Standing,
}

impl View for Batch {
    type V = Schedule;

    closed spec fn view(&self) -> Schedule {
        Schedule {
            root: self.root@,
            symlink: self.symlink,
            recursive: self.recursive,
            files: views(self.files@),
            index: self.index as nat,
            current: match self.turn {
                Turn::Moving(relocation) => Some(relocation@),
                Turn::Plain(_) => None,
            },
            standing: match self.turn {
                Turn::Moving(relocation) => relocation@.standing,
                Turn::Plain(progress) => progress@,
            },
        }
    }
}

impl Schedule {
    /// While a file is relocated, the run stands where the relocation
    /// stands; the relocation asks for something, is of the file in work and
    /// in the mode and with the options of the run. Between relocations the
    /// run asks for nothing but the existence of the file in work, and for
    /// that in copy mode only. A run that has succeeded has no file left, and
    /// one that has failed stays at the file that failed.
    pub open spec fn sound(self) -> bool {
        match self.current {
            Some(transfer) => {
                &&& transfer.sound()
                &&& transfer.standing is Asking
                &&& self.standing == transfer.standing
                &&& self.index < self.files.len()
                &&& transfer.symlink == self.symlink
                &&& transfer.recursive == self.recursive
                &&& transfer.path == self.files[self.index as int]
                &&& transfer.dest == joined(self.root, transfer.path)
            },
            None => match self.standing {
                Standing::Asking(task) => {
                    &&& !self.symlink
                    &&& self.index < self.files.len()
                    &&& task == Task::Probe { path: self.files[self.index as int] }
                },
                Standing::Succeeded => self.index >= self.files.len(),
                Standing::Failed(_) => self.index < self.files.len(),
            },
        }
    }
}

/// The run `s` between two relocations, standing at `standing`.
pub open spec fn pausing_at(s: Schedule, standing: Standing) -> Schedule {
    Schedule { current: None, standing, ..s }
}

/// The run as it turns to the file at place `i`: it is over when there is no
/// such file; in symlink mode the relocation begins at once; in copy mode the
/// source is first asked to exist.
pub open spec fn turned_to(s: Schedule, i: nat) -> Schedule {
    if i >= s.files.len() {
        Schedule { index: i, current: None, standing: Standing::Succeeded, ..s }
    } else if s.symlink {
        let transfer = transfer_start(true, s.recursive, s.files[i as int], s.root);
        Schedule { index: i, current: Some(transfer), standing: transfer.standing, ..s }
    } else {
        Schedule {
            index: i,
            current: None,
            standing: Standing::Asking(Task::Probe { path: s.files[i as int] }),
            ..s
        }
    }
}

/// The run at its start.
pub open spec fn schedule_start(opts: Set<Opt>, files: Seq<Seq<char>>, root: Seq<char>) -> Schedule {
    turned_to(
        Schedule {
            root,
            symlink: opts.contains(Opt::Symlink),
            recursive: opts.contains(Opt::Recursive),
            files,
            index: 0,
            current: None,
            standing: Standing::Succeeded,
        },
        0,
    )
}

/// The run after a report.
///
/// While a file is relocated the report goes to its relocation; when that
/// succeeds the run turns to the next file, and when it fails the run is
/// over. A source that is found missing before a copy ends the run. A report
/// that does not answer the action asked for changes nothing.
pub open spec fn schedule_after(s: Schedule, r: Report) -> Schedule {
    match s.current {
        Some(transfer) => {
            let next = transfer_after(transfer, r);
            match next.standing {
                Standing::Asking(_) => Schedule {
                    current: Some(next),
                    standing: next.standing,
                    ..s
                },
                Standing::Succeeded => turned_to(s, s.index + 1),
                Standing::Failed(_) => pausing_at(s, next.standing),
            }
        },
        None => match (s.standing, r) {
            (Standing::Asking(Task::Probe { .. }), Report::Exists(found)) => {
                let path = s.files[s.index as int];
                match checked(path, found) {
                    Ok(()) => {
                        let transfer = transfer_start(false, s.recursive, path, s.root);
                        Schedule { current: Some(transfer), standing: transfer.standing, ..s }
                    },
                    Err(fault) => pausing_at(s, Standing::Failed(fault)),
                }
            },
            _ => s,
        },
    }
}

/// A sound run stays sound, whatever is reported.
pub proof fn lemma_schedule_stays_sound(s: Schedule, r: Report)
    requires
        s.sound(),
    ensures
        schedule_after(s, r).sound(),
{
    match s.current {
        Some(transfer) => {
            lemma_transfer_stays_sound(transfer, r);
            if transfer_after(transfer, r).standing is Succeeded && s.index + 1 < s.files.len() {
                lemma_transfer_start_sound(
                    true,
                    s.recursive,
                    s.files[(s.index + 1) as int],
                    s.root,
                );
            }
        },
        None => {
            if s.standing is Asking {
                lemma_transfer_start_sound(
                    false,
                    s.recursive,
                    s.files[s.index as int],
                    s.root,
                );
            }
        },
    }
}

/// The first failure ends the run, and so does success: a run that is over
/// stays as it is, whatever is reported, and asks for nothing more.
pub proof fn lemma_schedule_over_is_final(s: Schedule, r: Report)
    requires
        s.sound(),
        !(s.standing is Asking),
    ensures
        schedule_after(s, r) == s,
{
}

/// The files are taken in order, one at a time: a report moves the run to
/// the next file only as it ends the relocation of the file in work with
/// success, and never to another file. A failure leaves the run at the file
/// that failed.
pub proof fn lemma_files_in_order(s: Schedule, r: Report)
    requires
        s.sound(),
    ensures
        ({
            let next = schedule_after(s, r);
            &&& next.files == s.files
            &&& next.root == s.root
            &&& next.symlink == s.symlink
            &&& next.recursive == s.recursive
            &&& next.index == s.index || next.index == s.index + 1
            &&& next.index == s.index + 1 ==> s.current is Some && transfer_after(
                s.current->Some_0,
                r,
            ).standing is Succeeded
            &&& next.standing is Failed ==> next.index == s.index
            &&& next.standing is Succeeded ==> next.index >= next.files.len()
        }),
{
}

/// In copy mode every source is left as it is: the run never asks to remove
/// one or to put a link in its place.
pub proof fn lemma_copy_mode_keeps_sources(s: Schedule)
    requires
        s.sound(),
        !s.symlink,
    ensures
        s.standing matches Standing::Asking(task) ==> !touches_source(task),
{
}

/// Begins the relocation of `files` into the storage directory `root`, as
/// the options ask for it.
pub fn track(opts: &OptSet, files: Vec<String>, root: &str) -> (batch: Batch)
    ensures
        batch@ == schedule_start(opts@, views(files@), root@),
        batch@.sound(),
{
    Batch::turn_to(
        root.to_owned(),
        opts.contains(Opt::Symlink),
        opts.contains(Opt::Recursive),
        files,
        0,
    )
}

impl Batch {
    #[verifier::type_invariant]
    spec fn inv(self) -> bool {
        self@.sound()
    }

    /// Where the run stands.
    pub fn progress(&self) -> (p: &Progress)
        ensures
            p@ == self@.standing,
            self@.sound(),
    {
        proof {
            use_type_invariant(self);
        }
        match &self.turn {
            Turn::Moving(relocation) => relocation.progress(),
            Turn::Plain(progress) => progress,
        }
    }

    /// Ends the run and hands out where it stood.
    pub fn into_progress(self) -> (p: Progress)
        ensures
            p@ == self@.standing,
    {
        match self.turn {
            Turn::Moving(relocation) => relocation.into_progress(),
            Turn::Plain(progress) => progress,
        }
    }

    /// Turns to the file at place `i`.
    fn turn_to(root: String, symlink: bool, recursive: bool, files: Vec<String>, i: usize) -> (batch:
        Batch)
        requires
            i <= files.len(),
        ensures
            batch@ == turned_to(
                Schedule {
                    root: root@,
                    symlink,
                    recursive,
                    files: views(files@),
                    index: 0,
                    current: None,
                    standing: Standing::Succeeded,
                },
                i as nat,
            ),
            batch@.sound(),
    {
        proof {
            if i < files.len() {
                lemma_transfer_start_sound(true, recursive, files[i as int]@, root@);
            }
        }
        let turn = if i >= files.len() {
            Turn::Plain(Progress::Succeeded)
        } else if symlink {
            Turn::Moving(symlink_track(files[i].as_str(), recursive, root.as_str()))
        } else {
            Turn::Plain(Progress::Asking(Action::Probe { path: files[i].clone() }))
        };
        Batch { root, symlink, recursive, files, index: i, turn }
    }

    /// Takes the caller's report and moves on.
    pub fn advance(self, event: Event) -> (next: Batch)
        ensures
            next@ == schedule_after(self@, event@),
            next@.sound(),
    {
        proof {
            use_type_invariant(&self);
            lemma_schedule_stays_sound(self@, event@);
        }
        let ghost before = self@;
        let Batch { root, symlink, recursive, files, index, turn } = self;
        assert(before.files.len() == files.len());
        match turn {
            Turn::Moving(relocation) => {
                let relocation = relocation.advance(event);
                let asking = match relocation.progress() {
                    Progress::Asking(_) => true,
                    _ => false,
                };
                if asking {
                    Batch { root, symlink, recursive, files, index, turn: Turn::Moving(relocation) }
                } else {
                    match relocation.into_progress() {
                        Progress::Failed(e) => Batch {
                            root,
                            symlink,
                            recursive,
                            files,
                            index,
                            turn: Turn::Plain(Progress::Failed(e)),
                        },
                        _ => Self::turn_to(root, symlink, recursive, files, index + 1),
                    }
                }
            },
            Turn::Plain(Progress::Asking(action)) => {
                match (action, event) {
                    (Action::Probe { .. }, Event::Exists(found)) => {
                        let turn = match path_check(files[index].as_str(), found) {
                            Ok(()) => Turn::Moving(
                                copy_track(files[index].as_str(), recursive, root.as_str()),
                            ),
                            Err(e) => Turn::Plain(Progress::Failed(e)),
                        };
                        Batch { root, symlink, recursive, files, index, turn }
                    },
                    (action, _) => Batch {
                        root,
                        symlink,
                        recursive,
                        files,
                        index,
                        turn: Turn::Plain(Progress::Asking(action)),
                    },
                }
            },
            Turn::Plain(over) => Batch {
                root,
                symlink,
                recursive,
                files,
                index,
                turn: Turn::Plain(over),
            },
        }
    }
}

} // verus!
