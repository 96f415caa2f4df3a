use std::collections::BTreeMap;

use tracker_desu::action::{classify, path_check, Action, EntryKind, Event, Progress};
use tracker_desu::dispatch::{track, Batch};
use tracker_desu::error::{Phase, TrackError};
use tracker_desu::file::{copy_track, symlink_track};
use tracker_desu::options::{Opt, OptSet};
use tracker_desu::resolve::parse_args;
use tracker_desu::options::Resolution;
use tracker_desu::walk::recursive_copy;

/// A filesystem on paper: what stands at each path, what each directory
/// lists, and the actions that are to fail.
struct Paper {
    kinds: BTreeMap<String, EntryKind>,
    entries: BTreeMap<String, Vec<String>>,
    failing: Vec<Action>,
}

impl Paper {
    fn new() -> Paper {
        Paper { kinds: BTreeMap::new(), entries: BTreeMap::new(), failing: Vec::new() }
    }

    fn file(mut self, path: &str) -> Paper {
        self.kinds.insert(path.to_string(), EntryKind::File);
        self
    }

    fn link(mut self, path: &str) -> Paper {
        self.kinds.insert(path.to_string(), EntryKind::Symlink);
        self
    }

    fn dir(mut self, path: &str, names: &[&str]) -> Paper {
        self.kinds.insert(path.to_string(), EntryKind::Directory);
        self.entries.insert(path.to_string(), names.iter().map(|n| n.to_string()).collect());
        self
    }

    fn failing(mut self, action: Action) -> Paper {
        self.failing.push(action);
        self
    }

    fn answer(&self, action: &Action) -> Event {
        if self.failing.contains(action) {
            return Event::Failed("refused".to_string());
        }
        match action {
            Action::Probe { path } => Event::Exists(self.kinds.contains_key(path)),
            Action::Classify { path } => {
                Event::Kind(*self.kinds.get(path).unwrap_or(&EntryKind::Directory))
            }
            Action::List { path } => match self.entries.get(path) {
                Some(names) => Event::Entries(names.clone()),
                None => Event::Failed("not a directory".to_string()),
            },
            _ => Event::Done,
        }
    }
}

fn s(text: &str) -> String {
    text.to_string()
}

fn options(list: &[Opt]) -> OptSet {
    let mut set = OptSet::new();
    for opt in list {
        set.insert(*opt);
    }
    set
}

fn run(mut batch: Batch, paper: &Paper) -> (Vec<Action>, Result<(), TrackError>) {
    let mut asked = Vec::new();
    loop {
        let action = match batch.progress() {
            Progress::Asking(action) => action.clone(),
            Progress::Succeeded => return (asked, Ok(())),
            Progress::Failed(e) => return (asked, Err(e.clone())),
        };
        let event = paper.answer(&action);
        asked.push(action);
        batch = batch.advance(event);
        assert!(asked.len() < 1000);
    }
}

fn probe(path: &str) -> Action {
    Action::Probe { path: s(path) }
}

fn classify_at(path: &str) -> Action {
    Action::Classify { path: s(path) }
}

fn copy_file(from: &str, to: &str) -> Action {
    Action::CopyFile { from: s(from), to: s(to) }
}

fn relink(from: &str, to: &str) -> Action {
    Action::Relink { from: s(from), to: s(to) }
}

fn make_dir(path: &str) -> Action {
    Action::MakeDir { path: s(path) }
}

fn list(path: &str) -> Action {
    Action::List { path: s(path) }
}

fn remove_file(path: &str) -> Action {
    Action::RemoveFile { path: s(path) }
}

fn remove_tree(path: &str) -> Action {
    Action::RemoveTree { path: s(path) }
}

fn link(target: &str, at: &str) -> Action {
    Action::Link { target: s(target), at: s(at) }
}

#[test]
fn path_check_accepts_what_exists() {
    assert_eq!(path_check("a.txt", true), Ok(()));
}

#[test]
fn path_check_names_the_missing_path() {
    assert_eq!(path_check("a.txt", false), Err(TrackError::PathNotFound(s("a.txt"))));
}

#[test]
fn copy_mode_checks_then_copies_one_file() {
    let paper = Paper::new().file("a.txt");
    let batch = track(&options(&[]), vec![s("a.txt")], "/store");
    let (asked, result) = run(batch, &paper);
    assert_eq!(asked, vec![probe("a.txt"), copy_file("a.txt", "/store/a.txt")]);
    assert_eq!(result, Ok(()));
}

#[test]
fn copy_mode_refuses_a_missing_source() {
    let paper = Paper::new();
    let batch = track(&options(&[Opt::Copy]), vec![s("gone")], "/store");
    let (asked, result) = run(batch, &paper);
    assert_eq!(asked, vec![probe("gone")]);
    assert_eq!(result, Err(TrackError::PathNotFound(s("gone"))));
}

#[test]
fn copy_mode_reports_a_failed_copy() {
    let paper = Paper::new().dir("d", &[]).failing(copy_file("d", "/store/d"));
    let batch = track(&options(&[]), vec![s("d")], "/store");
    let (asked, result) = run(batch, &paper);
    assert_eq!(asked, vec![probe("d"), copy_file("d", "/store/d")]);
    assert_eq!(
        result,
        Err(TrackError::FilesystemFailure {
            phase: Phase::Copy,
            path: s("d"),
            detail: s("refused"),
        })
    );
}

#[test]
fn symlink_mode_copies_removes_and_links() {
    let paper = Paper::new().file("a.txt");
    let batch = track(&options(&[Opt::Symlink]), vec![s("a.txt")], "/store");
    let (asked, result) = run(batch, &paper);
    assert_eq!(
        asked,
        vec![
            copy_file("a.txt", "/store/a.txt"),
            remove_file("a.txt"),
            link("/store/a.txt", "a.txt"),
        ]
    );
    assert_eq!(result, Ok(()));
}

#[test]
fn recursive_symlink_of_a_present_file_relocates_it() {
    let request = match parse_args(&[s("-rs"), s("notes.txt")]) {
        Ok(Resolution::Run(request)) => request,
        other => panic!("unexpected resolution: {:?}", other),
    };
    assert_eq!(request.opts, options(&[Opt::Symlink, Opt::Recursive]));
    assert_eq!(request.files, vec![s("notes.txt")]);
    let paper = Paper::new().file("notes.txt");
    let batch = track(&request.opts, request.files, "/store");
    let (asked, result) = run(batch, &paper);
    assert_eq!(
        asked,
        vec![
            probe("notes.txt"),
            classify_at("notes.txt"),
            copy_file("notes.txt", "/store/notes.txt"),
            remove_file("notes.txt"),
            link("/store/notes.txt", "notes.txt"),
        ]
    );
    assert_eq!(result, Ok(()));
}

#[test]
fn recursive_copy_clones_a_tree_depth_first() {
    let paper = Paper::new()
        .dir("cfg", &["a.conf", "sub", "current", "z.conf"])
        .file("cfg/a.conf")
        .dir("cfg/sub", &["inner.conf", "deep"])
        .file("cfg/sub/inner.conf")
        .dir("cfg/sub/deep", &["leaf"])
        .file("cfg/sub/deep/leaf")
        .link("cfg/current")
        .file("cfg/z.conf");
    let batch = track(&options(&[Opt::Recursive]), vec![s("cfg")], "/store");
    let (asked, result) = run(batch, &paper);
    assert_eq!(
        asked,
        vec![
            probe("cfg"),
            probe("cfg"),
            classify_at("cfg"),
            make_dir("/store/cfg"),
            list("cfg"),
            classify_at("cfg/a.conf"),
            copy_file("cfg/a.conf", "/store/cfg/a.conf"),
            classify_at("cfg/sub"),
            make_dir("/store/cfg/sub"),
            list("cfg/sub"),
            classify_at("cfg/sub/inner.conf"),
            copy_file("cfg/sub/inner.conf", "/store/cfg/sub/inner.conf"),
            classify_at("cfg/sub/deep"),
            make_dir("/store/cfg/sub/deep"),
            list("cfg/sub/deep"),
            classify_at("cfg/sub/deep/leaf"),
            copy_file("cfg/sub/deep/leaf", "/store/cfg/sub/deep/leaf"),
            classify_at("cfg/current"),
            relink("cfg/current", "/store/cfg/current"),
            classify_at("cfg/z.conf"),
            copy_file("cfg/z.conf", "/store/cfg/z.conf"),
        ]
    );
    assert_eq!(result, Ok(()));
}

#[test]
fn recursive_copy_of_an_empty_directory_creates_it() {
    let paper = Paper::new().dir("empty", &[]);
    let batch = track(&options(&[Opt::Recursive]), vec![s("empty")], "/store");
    let (asked, result) = run(batch, &paper);
    assert_eq!(
        asked,
        vec![
            probe("empty"),
            probe("empty"),
            classify_at("empty"),
            make_dir("/store/empty"),
            list("empty"),
        ]
    );
    assert_eq!(result, Ok(()));
}

#[test]
fn a_dangling_link_aborts_the_whole_walk() {
    let paper = Paper::new()
        .dir("cfg", &["broken", "later"])
        .link("cfg/broken")
        .file("cfg/later")
        .failing(relink("cfg/broken", "/store/cfg/broken"));
    let batch = track(&options(&[Opt::Recursive]), vec![s("cfg"), s("other")], "/store");
    let (asked, result) = run(batch, &paper);
    assert_eq!(
        asked,
        vec![
            probe("cfg"),
            probe("cfg"),
            classify_at("cfg"),
            make_dir("/store/cfg"),
            list("cfg"),
            classify_at("cfg/broken"),
            relink("cfg/broken", "/store/cfg/broken"),
        ]
    );
    assert_eq!(
        result,
        Err(TrackError::FilesystemFailure {
            phase: Phase::Copy,
            path: s("cfg/broken"),
            detail: s("refused"),
        })
    );
}

#[test]
fn a_second_run_fails_on_the_directory_that_is_there() {
    let paper = Paper::new().dir("cfg", &["a"]).file("cfg/a").failing(make_dir("/store/cfg"));
    let batch = track(&options(&[Opt::Recursive]), vec![s("cfg")], "/store");
    let (asked, result) = run(batch, &paper);
    assert_eq!(asked, vec![probe("cfg"), probe("cfg"), classify_at("cfg"), make_dir("/store/cfg")]);
    assert_eq!(
        result,
        Err(TrackError::FilesystemFailure {
            phase: Phase::Copy,
            path: s("/store/cfg"),
            detail: s("refused"),
        })
    );
}

#[test]
fn recursive_symlink_of_a_missing_source_names_it() {
    let paper = Paper::new();
    let batch = track(&options(&[Opt::Symlink, Opt::Recursive]), vec![s("gone")], "/store");
    let (asked, result) = run(batch, &paper);
    assert_eq!(asked, vec![probe("gone")]);
    assert_eq!(result, Err(TrackError::PathNotFound(s("gone"))));
}

#[test]
fn recursive_symlink_removes_a_directory_as_a_tree() {
    let paper = Paper::new().dir("cfg", &["a"]).file("cfg/a").failing(remove_file("cfg"));
    let batch = track(&options(&[Opt::Symlink, Opt::Recursive]), vec![s("cfg")], "/store");
    let (asked, result) = run(batch, &paper);
    assert_eq!(
        asked,
        vec![
            probe("cfg"),
            classify_at("cfg"),
            make_dir("/store/cfg"),
            list("cfg"),
            classify_at("cfg/a"),
            copy_file("cfg/a", "/store/cfg/a"),
            remove_file("cfg"),
            remove_tree("cfg"),
            link("/store/cfg", "cfg"),
        ]
    );
    assert_eq!(result, Ok(()));
}

#[test]
fn plain_symlink_reports_a_failed_removal() {
    let paper = Paper::new().file("a").failing(remove_file("a")).failing(remove_tree("a"));
    let batch = track(&options(&[Opt::Symlink]), vec![s("a")], "/store");
    let (asked, result) = run(batch, &paper);
    assert_eq!(asked, vec![copy_file("a", "/store/a"), remove_file("a"), remove_tree("a")]);
    assert_eq!(
        result,
        Err(TrackError::FilesystemFailure {
            phase: Phase::Remove,
            path: s("a"),
            detail: s("refused"),
        })
    );
}

#[test]
fn a_failed_tree_removal_is_reported() {
    let paper = Paper::new().file("a").failing(remove_file("a")).failing(remove_tree("a"));
    let batch = track(&options(&[Opt::Symlink, Opt::Recursive]), vec![s("a")], "/store");
    let (_, result) = run(batch, &paper);
    assert_eq!(
        result,
        Err(TrackError::FilesystemFailure {
            phase: Phase::Remove,
            path: s("a"),
            detail: s("refused"),
        })
    );
}

#[test]
fn a_failed_link_is_reported() {
    let paper = Paper::new().file("a").failing(link("/store/a", "a"));
    let batch = track(&options(&[Opt::Symlink]), vec![s("a")], "/store");
    let (asked, result) = run(batch, &paper);
    assert_eq!(asked, vec![copy_file("a", "/store/a"), remove_file("a"), link("/store/a", "a")]);
    assert_eq!(
        result,
        Err(TrackError::FilesystemFailure {
            phase: Phase::Link,
            path: s("a"),
            detail: s("refused"),
        })
    );
}

#[test]
fn files_are_relocated_in_the_order_given() {
    let paper = Paper::new().file("b").file("a").file("c");
    let batch = track(&options(&[]), vec![s("b"), s("a"), s("c")], "/store");
    let (asked, result) = run(batch, &paper);
    assert_eq!(
        asked,
        vec![
            probe("b"),
            copy_file("b", "/store/b"),
            probe("a"),
            copy_file("a", "/store/a"),
            probe("c"),
            copy_file("c", "/store/c"),
        ]
    );
    assert_eq!(result, Ok(()));
}

#[test]
fn the_first_failure_leaves_the_rest_untouched() {
    let paper = Paper::new().file("one").file("three");
    let batch = track(&options(&[]), vec![s("one"), s("two"), s("three")], "/store");
    let (asked, result) = run(batch, &paper);
    assert_eq!(asked, vec![probe("one"), copy_file("one", "/store/one"), probe("two")]);
    assert_eq!(result, Err(TrackError::PathNotFound(s("two"))));
}

#[test]
fn no_files_means_nothing_to_do() {
    let batch = track(&options(&[]), Vec::new(), "/store");
    assert_eq!(batch.progress(), &Progress::Succeeded);
}

#[test]
fn a_report_that_does_not_fit_is_ignored() {
    let batch = track(&options(&[]), vec![s("a")], "/store");
    let batch = batch.advance(Event::Done);
    assert_eq!(batch.progress(), &Progress::Asking(probe("a")));
    let batch = batch.advance(Event::Failed(s("no")));
    assert_eq!(batch.progress(), &Progress::Asking(probe("a")));
    let batch = batch.advance(Event::Exists(true));
    assert_eq!(batch.progress(), &Progress::Asking(copy_file("a", "/store/a")));
    let batch = batch.advance(Event::Exists(true));
    assert_eq!(batch.progress(), &Progress::Asking(copy_file("a", "/store/a")));
}

#[test]
fn a_finished_run_stays_finished() {
    let batch = track(&options(&[]), vec![s("a")], "/store");
    let batch = batch.advance(Event::Exists(false));
    let batch = batch.advance(Event::Done);
    let batch = batch.advance(Event::Exists(true));
    assert_eq!(batch.into_progress(), Progress::Failed(TrackError::PathNotFound(s("a"))));
}

#[test]
fn copy_track_starts_with_the_copy() {
    let relocation = copy_track("a", false, "/store");
    assert_eq!(relocation.progress(), &Progress::Asking(copy_file("a", "/store/a")));
    let relocation = relocation.advance(Event::Done);
    assert_eq!(relocation.progress(), &Progress::Succeeded);
}

#[test]
fn symlink_track_goes_on_after_the_copy() {
    let relocation = symlink_track("a", false, "/store");
    let relocation = relocation.advance(Event::Done);
    assert_eq!(relocation.progress(), &Progress::Asking(remove_file("a")));
}

#[test]
fn recursive_copy_asks_first_whether_the_root_exists() {
    let walk = recursive_copy("d", "/store/d");
    assert_eq!(walk.progress(), &Progress::Asking(probe("d")));
    let walk = walk.advance(Event::Exists(true));
    assert_eq!(walk.progress(), &Progress::Asking(classify_at("d")));
    let walk = walk.advance(Event::Kind(EntryKind::Symlink));
    assert_eq!(walk.progress(), &Progress::Asking(relink("d", "/store/d")));
    let walk = walk.advance(Event::Done);
    assert_eq!(walk.into_progress(), Progress::Succeeded);
}

#[test]
fn a_failed_listing_ends_the_walk() {
    let walk = recursive_copy("d", "/store/d");
    let walk = walk.advance(Event::Exists(true));
    let walk = walk.advance(Event::Kind(EntryKind::Directory));
    let walk = walk.advance(Event::Done);
    assert_eq!(walk.progress(), &Progress::Asking(list("d")));
    let walk = walk.advance(Event::Failed(s("denied")));
    assert_eq!(
        walk.into_progress(),
        Progress::Failed(TrackError::FilesystemFailure {
            phase: Phase::Copy,
            path: s("d"),
            detail: s("denied"),
        })
    );
}

#[test]
fn a_link_is_a_link_whatever_it_points_at() {
    assert_eq!(classify(true, true), EntryKind::Symlink);
    assert_eq!(classify(true, false), EntryKind::Symlink);
    assert_eq!(classify(false, true), EntryKind::File);
    assert_eq!(classify(false, false), EntryKind::Directory);
}

#[test]
fn symlink_mode_relocates_each_file_in_turn() {
    let paper = Paper::new().file("a").dir("d", &["x"]).file("d/x");
    let batch = track(&options(&[Opt::Symlink, Opt::Recursive]), vec![s("a"), s("d")], "/store");
    let (asked, result) = run(batch, &paper);
    assert_eq!(
        asked,
        vec![
            probe("a"),
            classify_at("a"),
            copy_file("a", "/store/a"),
            remove_file("a"),
            link("/store/a", "a"),
            probe("d"),
            classify_at("d"),
            make_dir("/store/d"),
            list("d"),
            classify_at("d/x"),
            copy_file("d/x", "/store/d/x"),
            remove_file("d"),
            link("/store/d", "d"),
        ]
    );
    assert_eq!(result, Ok(()));
}

#[test]
fn plain_symlink_falls_back_to_removing_a_tree() {
    let paper = Paper::new().file("a").failing(remove_file("a"));
    let batch = track(&options(&[Opt::Symlink]), vec![s("a")], "/store");
    let (asked, result) = run(batch, &paper);
    assert_eq!(
        asked,
        vec![
            copy_file("a", "/store/a"),
            remove_file("a"),
            remove_tree("a"),
            link("/store/a", "a"),
        ]
    );
    assert_eq!(result, Ok(()));
}
