//! The options that shape a run, the set they are folded into, and what the
//! command line resolves to.

use vstd::prelude::*;
use crate::text::views;

verus! {

/// A structural option: one that shapes how file operands are processed.
#[derive(Clone, Copy, Debug, PartialEq, Eq, PartialOrd, Ord, Hash, Structural)]
pub enum Opt {
    NoConfirm,
    Symlink,
    Copy,
    DryRun,
    Verbose,
    Recursive,
}

/// A set of [`Opt`]: each option is in it or not, and inserting one twice
/// changes nothing.
#[derive(Clone, Copy, Debug, PartialEq, Eq)]
pub struct OptSet {
    no_confirm: bool,
    symlink: bool,
    copy: bool,
    dry_run: bool,
    verbose: bool,
    recursive: bool,
}

impl View for OptSet {
    type V = Set<Opt>;

    closed spec fn view(&self) -> Set<Opt> {
        Set::new(
            |opt: Opt|
                match opt {
                    Opt::NoConfirm => self.no_confirm,
                    Opt::Symlink => self.symlink,
                    Opt::Copy => self.copy,
                    Opt::DryRun => self.dry_run,
                    Opt::Verbose => self.verbose,
                    Opt::Recursive => self.recursive,
                },
        )
    }
}

impl OptSet {
    /// The empty set.
    pub fn new() -> (set: OptSet)
        ensures
            set@ == Set::<Opt>::empty(),
    {
        OptSet {
            no_confirm: false,
            symlink: false,
            copy: false,
            dry_run: false,
            verbose: false,
            recursive: false,
        }
    }

    /// Whether `opt` is in the set.
    pub fn contains(&self, opt: Opt) -> (held: bool)
        ensures
            held == self@.contains(opt),
    {
        match opt {
            Opt::NoConfirm => self.no_confirm,
            Opt::Symlink => self.symlink,
            Opt::Copy => self.copy,
            Opt::DryRun => self.dry_run,
            Opt::Verbose => self.verbose,
            Opt::Recursive => self.recursive,
        }
    }

    /// Puts `opt` into the set and says whether it was new.
    pub fn insert(&mut self, opt: Opt) -> (fresh: bool)
        ensures
            final(self)@ == old(self)@.insert(opt),
            fresh == !old(self)@.contains(opt),
    {
        let fresh = !self.contains(opt);
        match opt {
            Opt::NoConfirm => {
                self.no_confirm = true;
            },
            Opt::Symlink => {
                self.symlink = true;
            },
            Opt::Copy => {
                self.copy = true;
            },
            Opt::DryRun => {
                self.dry_run = true;
            },
            Opt::Verbose => {
                self.verbose = true;
            },
            Opt::Recursive => {
                self.recursive = true;
            },
        }
        fresh
    }
}

/// What the dispatcher is handed: the options and the file operands, in the
/// order in which they were written.
#[derive(Clone, Debug, PartialEq, Eq)]
pub struct ResolvedRequest {
    pub opts: OptSet,
    pub files: Vec<String>,
}

/// The mathematical value of a [`ResolvedRequest`].
pub ghost struct Request {
    pub opts: Set<Opt>,
    pub files: Seq<Seq<char>>,
}

impl Request {
    /// A request never holds both modes, and names at least one file.
    pub open spec fn valid(self) -> bool {
        &&& !(self.opts.contains(Opt::Copy) && self.opts.contains(Opt::Symlink))
        &&& self.files.len() > 0
    }
}

impl View for ResolvedRequest {
    type V = Request;

    open spec fn view(&self) -> Request {
        Request { opts: self.opts@, files: views(self.files@) }
    }
}

/// What a command line resolves to when it is accepted.
#[derive(Clone, Debug, PartialEq, Eq)]
pub enum Resolution {
    /// Print the usage text; no file is touched.
    ShowHelp,
    /// Print the version; no file is touched.
    ShowVersion,
    /// Relocate the request's files.
    Run(ResolvedRequest),
}

/// The mathematical value of a [`Resolution`].
pub ghost enum Outcome {
    ShowHelp,
    ShowVersion,
    Run(Request),
}

impl View for Resolution {
    type V = Outcome;

    open spec fn view(&self) -> Outcome {
        match self {
            Resolution::ShowHelp => Outcome::ShowHelp,
            Resolution::ShowVersion => Outcome::ShowVersion,
            Resolution::Run(request) => Outcome::Run(request@),
        }
    }
}

} // verus!
