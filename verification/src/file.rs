//! The relocation of one file or directory into the storage directory.
//!
//! In copy mode the source is copied under its own name below the storage
//! root and left as it is. In symlink mode the same copy is made, then the
//! source is removed, then a symbolic link to the copy is created where the
//! source was. The three steps are not atomic: a failure names the step at
//! which it happened, and nothing is undone.

use vstd::prelude::*;
use crate::action::{breakdown, Action, Event, Progress, Report, Standing, Task};
use crate::error::{Phase, TrackError};
use crate::text::{join, joined};
use crate::walk::{lemma_trail_stays_sound, recursive_copy, trail_after, trail_start, Trail, Walk};

verus! {

/// The part of a relocation that is under way.
#[derive(Debug, PartialEq, Eq)]
enum Stage {
    /// A tree is being copied.
    Walking(Walk),
    /// Any other step, or the end.
    Plain(Progress),
}

/// The relocation of one source path.
#[derive(Debug, PartialEq, Eq)]
pub struct Relocation {
    symlink: bool,
    recursive: bool,
    path: String,
    dest: String,
    stage: Stage,
}

/// The mathematical value of a [`Relocation`].
pub ghost struct Transfer {
    /// Whether the source is to be replaced by a link to its copy.
    pub symlink: bool,
    /// Whether a whole tree is copied.
    pub recursive: bool,
    /// The source.
    pub path: Seq<char>,
    /// Where the copy goes.
    pub dest: Seq<char>,
    /// The walk that copies the tree, while it is under way.
    pub walk: Option<Trail>,
    /// Where the relocation stands.
    pub standing: Standing,
}

impl View for Relocation {
    type V = Transfer;

    closed spec fn view(&self) -> Transfer {
        Transfer {
            symlink: self.symlink,
            recursive: self.recursive,
            path: self.path@,
            dest: self.dest@,
            walk: match self.stage {
                Stage::Walking(walk) => Some(walk@),
                Stage::Plain(_) => None,
            },
            standing: match self.stage {
                Stage::Walking(walk) => walk@.standing,
                Stage::Plain(progress) => progress@,
            },
        }
    }
}

/// Whether `task` changes the source of a relocation: it removes it, or puts
/// a link in its place.
pub open spec fn touches_source(task: Task) -> bool {
    task is RemoveFile || task is RemoveTree || task is Link
}

impl Transfer {
    /// While a walk is under way the relocation stands where the walk
    /// stands, and the walk asks for something. Outside of a walk it asks
    /// for the plain copy or for a change of the source, and for the latter
    /// in symlink mode only.
    pub open spec fn sound(self) -> bool {
        match self.walk {
            Some(trail) => trail.sound() && trail.standing is Asking && self.standing
                == trail.standing,
            None => self.standing matches Standing::Asking(task) ==> (task is CopyFile
                || touches_source(task)) && (touches_source(task) ==> self.symlink),
        }
    }
}

/// The relocation `t` outside of a walk, standing at `standing`.
pub open spec fn standing_at(t: Transfer, standing: Standing) -> Transfer {
    Transfer { walk: None, standing, ..t }
}

/// The relocation of `path` into the storage directory `root`, at its start:
/// the copy goes to `path` below `root`, and is made by a walk where a whole
/// tree is asked for, by one file copy otherwise.
pub open spec fn transfer_start(
    symlink: bool,
    recursive: bool,
    path: Seq<char>,
    root: Seq<char>,
) -> Transfer {
    let dest = joined(root, path);
    if recursive {
        Transfer {
            symlink,
            recursive,
            path,
            dest,
            walk: Some(trail_start(path, dest)),
            standing: trail_start(path, dest).standing,
        }
    } else {
        Transfer {
            symlink,
            recursive,
            path,
            dest,
            walk: None,
            standing: Standing::Asking(Task::CopyFile { from: path, to: dest }),
        }
    }
}

/// The relocation once the copy is made: copy mode is done, symlink mode goes
/// on to remove the source.
pub open spec fn copied(t: Transfer) -> Transfer {
    if t.symlink {
        standing_at(t, Standing::Asking(Task::RemoveFile { path: t.path }))
    } else {
        standing_at(t, Standing::Succeeded)
    }
}

/// The relocation once the source is removed: the link is asked for.
pub open spec fn removed(t: Transfer) -> Transfer {
    standing_at(t, Standing::Asking(Task::Link { target: t.dest, at: t.path }))
}

/// The relocation after a report.
///
/// While a tree is copied the report goes to the walk. A source that cannot
/// be removed as a file is removed as a tree. Every other failure ends the
/// relocation and names its step. A report that does not answer the action
/// asked for changes nothing.
pub open spec fn transfer_after(t: Transfer, r: Report) -> Transfer {
    match t.walk {
        Some(trail) => {
            let next = trail_after(trail, r);
            match next.standing {
                Standing::Asking(_) => Transfer {
                    walk: Some(next),
                    standing: next.standing,
                    ..t
                },
                Standing::Succeeded => copied(t),
                Standing::Failed(_) => standing_at(t, next.standing),
            }
        },
        None => match (t.standing, r) {
            (Standing::Asking(Task::CopyFile { .. }), Report::Done) => copied(t),
            (Standing::Asking(Task::CopyFile { .. }), Report::Failed(detail)) => standing_at(
                t,
                breakdown(Phase::Copy, t.path, detail),
            ),
            (Standing::Asking(Task::RemoveFile { .. }), Report::Done) => removed(t),
            (Standing::Asking(Task::RemoveFile { .. }), Report::Failed(_)) => standing_at(
                t,
                Standing::Asking(Task::RemoveTree { path: t.path }),
            ),
            (Standing::Asking(Task::RemoveTree { .. }), Report::Done) => removed(t),
            (Standing::Asking(Task::RemoveTree { .. }), Report::Failed(detail)) => standing_at(
                t,
                breakdown(Phase::Remove, t.path, detail),
            ),
            (Standing::Asking(Task::Link { .. }), Report::Done) => standing_at(
                t,
                Standing::Succeeded,
            ),
            (Standing::Asking(Task::Link { .. }), Report::Failed(detail)) => standing_at(
                t,
                breakdown(Phase::Link, t.path, detail),
            ),
            _ => t,
        },
    }
}

/// A relocation at its start is sound and asks for something.
pub proof fn lemma_transfer_start_sound(
    symlink: bool,
    recursive: bool,
    path: Seq<char>,
    root: Seq<char>,
)
    ensures
        transfer_start(symlink, recursive, path, root).sound(),
        transfer_start(symlink, recursive, path, root).standing is Asking,
{
}

/// A sound relocation stays sound, whatever is reported.
pub proof fn lemma_transfer_stays_sound(t: Transfer, r: Report)
    requires
        t.sound(),
    ensures
        transfer_after(t, r).sound(),
{
    if let Some(trail) = t.walk {
        lemma_trail_stays_sound(trail, r);
    }
}

/// A relocation that is over stays as it is, whatever is reported.
pub proof fn lemma_transfer_over_is_final(t: Transfer, r: Report)
    requires
        t.sound(),
        !(t.standing is Asking),
    ensures
        transfer_after(t, r) == t,
{
}

/// In copy mode the source is left as it is: a relocation in copy mode never
/// asks to remove the source or to put a link in its place.
pub proof fn lemma_copy_mode_spares_source(t: Transfer, r: Report)
    requires
        t.sound(),
        !t.symlink,
    ensures
        !transfer_after(t, r).symlink,
        transfer_after(t, r).standing matches Standing::Asking(task) ==> !touches_source(task),
{
    lemma_transfer_stays_sound(t, r);
}

/// The steps of symlink mode come in order, each after the one before it
/// has succeeded.
///
/// A relocation comes to ask for the link only on the report that the source
/// was removed, as a file or as a tree. It comes to ask for the removal only
/// on the report that ends the copy, be that the plain copy or the walk. It
/// comes to ask for the removal of a tree only where the source could not be
/// removed as a file.
pub proof fn lemma_steps_in_order(t: Transfer, r: Report)
    requires
        t.sound(),
    ensures
        ({
            let next = transfer_after(t, r);
            &&& next.standing is Asking && next.standing->Asking_0 is Link && next != t ==> r
                == Report::Done && t.standing is Asking && (t.standing->Asking_0 is RemoveFile
                || t.standing->Asking_0 is RemoveTree)
            &&& next.standing is Asking && next.standing->Asking_0 is RemoveFile && next != t
                ==> match t.walk {
                Some(trail) => trail_after(trail, r).standing is Succeeded,
                None => r == Report::Done && t.standing is Asking && t.standing->Asking_0
                    is CopyFile,
            }
            &&& next.standing is Asking && next.standing->Asking_0 is RemoveTree && next != t
                ==> r is Failed && t.standing is Asking && t.standing->Asking_0 is RemoveFile
        }),
{
    if let Some(trail) = t.walk {
        lemma_trail_stays_sound(trail, r);
    }
}

/// Begins the relocation of `path` in copy mode: the source stays as it is.
pub fn copy_track(path: &str, recursive: bool, root: &str) -> (relocation: Relocation)
    ensures
        relocation@ == transfer_start(false, recursive, path@, root@),
        relocation@.sound(),
{
    Relocation::begin(false, recursive, path, root)
}

/// Begins the relocation of `path` in symlink mode: the source is replaced by
/// a symbolic link to its copy.
pub fn symlink_track(path: &str, recursive: bool, root: &str) -> (relocation: Relocation)
    ensures
        relocation@ == transfer_start(true, recursive, path@, root@),
        relocation@.sound(),
{
    Relocation::begin(true, recursive, path, root)
}

impl Relocation {
    #[verifier::type_invariant]
    spec fn inv(self) -> bool {
        self@.sound()
    }

    fn begin(symlink: bool, recursive: bool, path: &str, root: &str) -> (relocation: Relocation)
        ensures
            relocation@ == transfer_start(symlink, recursive, path@, root@),
            relocation@.sound(),
    {
        let dest = join(root, path);
        let stage = if recursive {
            Stage::Walking(recursive_copy(path, dest.as_str()))
        } else {
            Stage::Plain(
                Progress::Asking(Action::CopyFile { from: path.to_owned(), to: dest.clone() }),
            )
        };
        Relocation { symlink, recursive, path: path.to_owned(), dest, stage }
    }

    /// Where the relocation stands.
    pub fn progress(&self) -> (p: &Progress)
        ensures
            p@ == self@.standing,
            self@.sound(),
    {
        proof {
            use_type_invariant(self);
        }
        match &self.stage {
            Stage::Walking(walk) => walk.progress(),
            Stage::Plain(progress) => progress,
        }
    }

    /// Ends the relocation and hands out where it stood.
    pub fn into_progress(self) -> (p: Progress)
        ensures
            p@ == self@.standing,
    {
        match self.stage {
            Stage::Walking(walk) => walk.into_progress(),
            Stage::Plain(progress) => progress,
        }
    }

    /// Takes the caller's report and moves on.
    pub fn advance(self, event: Event) -> (next: Relocation)
        ensures
            next@ == transfer_after(self@, event@),
            next@.sound(),
    {
        proof {
            use_type_invariant(&self);
            lemma_transfer_stays_sound(self@, event@);
        }
        let Relocation { symlink, recursive, path, dest, stage } = self;
        let stage = match stage {
            Stage::Walking(walk) => {
                let walk = walk.advance(event);
                let asking = match walk.progress() {
                    Progress::Asking(_) => true,
                    _ => false,
                };
                if asking {
                    Stage::Walking(walk)
                } else {
                    match walk.into_progress() {
                        Progress::Failed(e) => Stage::Plain(Progress::Failed(e)),
                        _ => Stage::Plain(Self::copied(symlink, &path)),
                    }
                }
            },
            Stage::Plain(Progress::Asking(action)) => {
                let progress = match (action, event) {
                    (Action::CopyFile { .. }, Event::Done) => Self::copied(symlink, &path),
                    (Action::CopyFile { .. }, Event::Failed(detail)) => Self::broke(
                        Phase::Copy,
                        &path,
                        detail,
                    ),
                    (Action::RemoveFile { .. }, Event::Done) => Self::removed(&path, &dest),
                    (Action::RemoveFile { .. }, Event::Failed(_)) => Progress::Asking(
                        Action::RemoveTree { path: path.clone() },
                    ),
                    (Action::RemoveTree { .. }, Event::Done) => Self::removed(&path, &dest),
                    (Action::RemoveTree { .. }, Event::Failed(detail)) => Self::broke(
                        Phase::Remove,
                        &path,
                        detail,
                    ),
                    (Action::Link { .. }, Event::Done) => Progress::Succeeded,
                    (Action::Link { .. }, Event::Failed(detail)) => Self::broke(
                        Phase::Link,
                        &path,
                        detail,
                    ),
                    (action, _) => Progress::Asking(action),
                };
                Stage::Plain(progress)
            },
            Stage::Plain(over) => Stage::Plain(over),
        };
        Relocation { symlink, recursive, path, dest, stage }
    }

    /// What follows the copy.
    fn copied(symlink: bool, path: &String) -> (p: Progress)
        ensures
            p@ == if symlink {
                Standing::Asking(Task::RemoveFile { path: path@ })
            } else {
                Standing::Succeeded
            },
    {
        if symlink {
            Progress::Asking(Action::RemoveFile { path: path.clone() })
        } else {
            Progress::Succeeded
        }
    }

    /// What follows the removal of the source.
    fn removed(path: &String, dest: &String) -> (p: Progress)
        ensures
            p@ == Standing::Asking(Task::Link { target: dest@, at: path@ }),
    {
        Progress::Asking(Action::Link { target: dest.clone(), at: path.clone() })
    }

    /// The failure of the step `phase`.
    fn broke(phase: Phase, path: &String, detail: String) -> (p: Progress)
        ensures
            p@ == breakdown(phase, path@, detail@),
    {
        Progress::Failed(TrackError::FilesystemFailure { phase, path: path.clone(), detail })
    }
}

} // verus!
