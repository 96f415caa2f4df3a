//! The failures that end an invocation.

use vstd::prelude::*;
use crate::text::concat;

verus! {

/// The step of a relocation at which the filesystem refused.
#[derive(Clone, Copy, Debug, PartialEq, Eq, Structural)]
pub enum Phase {
    /// Copying into the storage directory.
    Copy,
    /// Removing the source.
    Remove,
    /// Creating the symbolic link where the source was.
    Link,
}

/// Why an invocation failed. Every kind is fatal; none is retried.
#[derive(Clone, Debug, PartialEq, Eq)]
pub enum TrackError {
    /// An unknown long flag (the whole token) or an unmapped short-flag
    /// character (that character alone).
    InvalidArgument(String),
    /// Both copy and symlink mode were asked for.
    ConflictingOptions,
    /// No file operand was left after the options.
    MissingOperand,
    /// The reserved git-dir option was used.
    UnsupportedFeature,
    /// A source path does not exist.
    PathNotFound(String),
    /// A filesystem call failed in the given phase on the given path;
    /// `detail` is the operating system's own message.
    FilesystemFailure { phase: Phase, path: String, detail: String },
}

/// The mathematical value of a [`TrackError`].
pub ghost enum Fault {
    InvalidArgument(Seq<char>),
    ConflictingOptions,
    MissingOperand,
    UnsupportedFeature,
    PathNotFound(Seq<char>),
    FilesystemFailure { phase: Phase, path: Seq<char>, detail: Seq<char> },
}

impl View for TrackError {
    type V = Fault;

    open spec fn view(&self) -> Fault {
        match self {
            TrackError::InvalidArgument(text) => Fault::InvalidArgument(text@),
            TrackError::ConflictingOptions => Fault::ConflictingOptions,
            TrackError::MissingOperand => Fault::MissingOperand,
            TrackError::UnsupportedFeature => Fault::UnsupportedFeature,
            TrackError::PathNotFound(path) => Fault::PathNotFound(path@),
            TrackError::FilesystemFailure { phase, path, detail } => Fault::FilesystemFailure {
                phase: *phase,
                path: path@,
                detail: detail@,
            },
        }
    }
}

/// What a failed step could not do, as the message says it.
pub open spec fn phase_text(phase: Phase) -> Seq<char> {
    match phase {
        Phase::Copy => "cannot copy '"@,
        Phase::Remove => "cannot remove '"@,
        Phase::Link => "cannot link '"@,
    }
}

impl Fault {
    /// The message that a person reads: it names the offending text or path
    /// and, for a filesystem failure, the step and the system's own words.
    pub open spec fn message(self) -> Seq<char> {
        match self {
            Fault::InvalidArgument(text) => "Invalid argument: "@ + text,
            Fault::ConflictingOptions => "Copy conflicts with Symlink option"@,
            Fault::MissingOperand => "missing file operand"@,
            Fault::UnsupportedFeature => "the git-dir option is not supported"@,
            Fault::PathNotFound(path) => "cannot stat '"@ + path + "': No such file or directory"@,
            Fault::FilesystemFailure { phase, path, detail } => phase_text(phase) + path + "': "@
                + detail,
        }
    }
}

impl TrackError {
    /// The message for the user.
    pub fn message(&self) -> (out: String)
        ensures
            out@ == self@.message(),
    {
        match self {
            TrackError::InvalidArgument(text) => concat("Invalid argument: ", text.as_str()),
            TrackError::ConflictingOptions => "Copy conflicts with Symlink option".to_owned(),
            TrackError::MissingOperand => "missing file operand".to_owned(),
            TrackError::UnsupportedFeature => "the git-dir option is not supported".to_owned(),
            TrackError::PathNotFound(path) => {
                let mut out = concat("cannot stat '", path.as_str());
                out.append("': No such file or directory");
                out
            },
            TrackError::FilesystemFailure { phase, path, detail } => {
                let head = match phase {
                    Phase::Copy => "cannot copy '",
                    Phase::Remove => "cannot remove '",
                    Phase::Link => "cannot link '",
                };
                let mut out = concat(head, path.as_str());
                out.append("': ");
                out.append(detail.as_str());
                out
            },
        }
    }
}

} // verus!
