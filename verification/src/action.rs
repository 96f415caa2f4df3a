//! What the engine asks of its caller, and what the caller reports back.
//!
//! The engine never touches the filesystem. It asks for one action at a time;
//! the caller performs it and reports what happened.

use vstd::prelude::*;
use crate::error::{Fault, Phase, TrackError};
use crate::text::views;

verus! {

/// What stands at a path.
#[derive(Clone, Copy, Debug, PartialEq, Eq, Structural)]
pub enum EntryKind {
    /// A regular file.
    File,
    /// A symbolic link, whatever it points at.
    Symlink,
    /// Anything else; it is treated as a directory.
    Directory,
}

/// What stands at a path, from what the filesystem says of it: a symbolic
/// link is a link whatever it points at, also where it points at a file; what
/// is neither a link nor a regular file is treated as a directory.
pub open spec fn kind_of(is_symlink: bool, is_file: bool) -> EntryKind {
    if is_symlink {
        EntryKind::Symlink
    } else if is_file {
        EntryKind::File
    } else {
        EntryKind::Directory
    }
}

/// Classifies a path from what the filesystem says of it.
pub fn classify(is_symlink: bool, is_file: bool) -> (kind: EntryKind)
    ensures
        kind == kind_of(is_symlink, is_file),
{
    if is_symlink {
        EntryKind::Symlink
    } else if is_file {
        EntryKind::File
    } else {
        EntryKind::Directory
    }
}

/// One filesystem action that the engine asks for.
#[derive(Clone, Debug, PartialEq, Eq)]
pub enum Action {
    /// Find out whether `path` exists. Answered by [`Event::Exists`].
    Probe { path: String },
    /// Find out what stands at `path`. Answered by [`Event::Kind`].
    Classify { path: String },
    /// Copy the bytes of the file `from` to `to`.
    CopyFile { from: String, to: String },
    /// Resolve the symbolic link `from` fully and create a symbolic link at
    /// `to` that points at the resolved path.
    Relink { from: String, to: String },
    /// Create the directory `path`.
    MakeDir { path: String },
    /// Read the names of the entries of the directory `path`. Answered by
    /// [`Event::Entries`].
    List { path: String },
    /// Remove the file `path`.
    RemoveFile { path: String },
    /// Remove the directory `path` with all that is in it.
    RemoveTree { path: String },
    /// Create a symbolic link at `at` that points at `target`.
    Link { target: String, at: String },
}

/// The mathematical value of an [`Action`].
pub ghost enum Task {
    Probe { path: Seq<char> },
    Classify { path: Seq<char> },
    CopyFile { from: Seq<char>, to: Seq<char> },
    Relink { from: Seq<char>, to: Seq<char> },
    MakeDir { path: Seq<char> },
    List { path: Seq<char> },
    RemoveFile { path: Seq<char> },
    RemoveTree { path: Seq<char> },
    Link { target: Seq<char>, at: Seq<char> },
}

impl View for Action {
    type V = Task;

    open spec fn view(&self) -> Task {
        match self {
            Action::Probe { path } => Task::Probe { path: path@ },
            Action::Classify { path } => Task::Classify { path: path@ },
            Action::CopyFile { from, to } => Task::CopyFile { from: from@, to: to@ },
            Action::Relink { from, to } => Task::Relink { from: from@, to: to@ },
            Action::MakeDir { path } => Task::MakeDir { path: path@ },
            Action::List { path } => Task::List { path: path@ },
            Action::RemoveFile { path } => Task::RemoveFile { path: path@ },
            Action::RemoveTree { path } => Task::RemoveTree { path: path@ },
            Action::Link { target, at } => Task::Link { target: target@, at: at@ },
        }
    }
}

/// What the caller reports after an action.
#[derive(Clone, Debug, PartialEq, Eq)]
pub enum Event {
    /// Whether the probed path exists.
    Exists(bool),
    /// What stands at the classified path.
    Kind(EntryKind),
    /// The names of the entries of the listed directory, in the order in
    /// which the directory gave them.
    Entries(Vec<String>),
    /// The action succeeded.
    Done,
    /// The action failed; the text is the operating system's message.
    Failed(String),
}

/// The mathematical value of an [`Event`].
pub ghost enum Report {
    Exists(bool),
    Kind(EntryKind),
    Entries(Seq<Seq<char>>),
    Done,
    Failed(Seq<char>),
}

impl View for Event {
    type V = Report;

    open spec fn view(&self) -> Report {
        match self {
            Event::Exists(found) => Report::Exists(*found),
            Event::Kind(kind) => Report::Kind(*kind),
            Event::Entries(names) => Report::Entries(views(names@)),
            Event::Done => Report::Done,
            Event::Failed(detail) => Report::Failed(detail@),
        }
    }
}

/// Where a piece of work stands: it asks for an action, or it is over.
#[derive(Clone, Debug, PartialEq, Eq)]
pub enum Progress {
    /// The action to perform next.
    Asking(Action),
    /// All is done.
    Succeeded,
    /// The work was given up; nothing more is asked for.
    Failed(TrackError),
}

/// The mathematical value of a [`Progress`].
pub ghost enum Standing {
    Asking(Task),
    Succeeded,
    Failed(Fault),
}

impl View for Progress {
    type V = Standing;

    open spec fn view(&self) -> Standing {
        match self {
            Progress::Asking(action) => Standing::Asking(action@),
            Progress::Succeeded => Standing::Succeeded,
            Progress::Failed(e) => Standing::Failed(e@),
        }
    }
}

/// The failure of a filesystem call.
pub open spec fn breakdown(phase: Phase, path: Seq<char>, detail: Seq<char>) -> Standing {
    Standing::Failed(Fault::FilesystemFailure { phase, path, detail })
}

/// The result of checking that a path exists: the path-not-found failure
/// that names it where it does not.
pub open spec fn checked(path: Seq<char>, exists: bool) -> Result<(), Fault> {
    if exists {
        Ok(())
    } else {
        Err(Fault::PathNotFound(path))
    }
}

/// The mathematical value of the result of a check.
pub open spec fn check_view(r: Result<(), TrackError>) -> Result<(), Fault> {
    match r {
        Ok(()) => Ok(()),
        Err(e) => Err(e@),
    }
}

/// Decides on a probed path: a path that does not exist is refused, and the
/// failure names it.
pub fn path_check(path: &str, exists: bool) -> (out: Result<(), TrackError>)
    ensures
        check_view(out) == checked(path@, exists),
{
    if exists {
        Ok(())
    } else {
        Err(TrackError::PathNotFound(path.to_owned()))
    }
}

} // verus!
