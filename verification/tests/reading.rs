use tracker_desu::args::Argument;
use tracker_desu::error::{Phase, TrackError};
use tracker_desu::options::{Opt, OptSet, ResolvedRequest, Resolution};
use tracker_desu::resolve::{execute_args, prioritize, tokenize};

fn file(path: &str) -> Argument {
    Argument::File(path.to_string())
}

#[test]
fn priority_order_is_stable() {
    let sorted = prioritize(vec![
        file("b"),
        Argument::Recursive,
        Argument::Version,
        file("a"),
        Argument::GitDir,
        Argument::Help,
        Argument::Copy,
    ]);
    assert_eq!(
        sorted,
        vec![
            Argument::Version,
            Argument::Help,
            Argument::Recursive,
            Argument::GitDir,
            Argument::Copy,
            file("b"),
            file("a"),
        ]
    );
}

#[test]
fn priority_order_of_nothing_is_nothing() {
    assert_eq!(prioritize(Vec::new()), Vec::new());
}

#[test]
fn reading_stops_at_the_first_decisive_token() {
    assert_eq!(
        execute_args(vec![Argument::Copy, Argument::Symlink, Argument::Help]),
        Err(TrackError::ConflictingOptions)
    );
    assert_eq!(
        execute_args(vec![file("a"), Argument::Help, Argument::GitDir]),
        Ok(Resolution::ShowHelp)
    );
    assert_eq!(
        execute_args(vec![Argument::GitDir, Argument::Version]),
        Err(TrackError::UnsupportedFeature)
    );
    assert_eq!(execute_args(vec![Argument::Version]), Ok(Resolution::ShowVersion));
}

#[test]
fn reading_gathers_options_and_files() {
    let mut opts = OptSet::new();
    opts.insert(Opt::Verbose);
    opts.insert(Opt::Symlink);
    assert_eq!(
        execute_args(vec![file("x"), Argument::Verbose, Argument::Symlink, file("y"), Argument::Verbose]),
        Ok(Resolution::Run(ResolvedRequest {
            opts,
            files: vec!["x".to_string(), "y".to_string()],
        }))
    );
}

#[test]
fn reading_nothing_misses_the_operand() {
    assert_eq!(execute_args(Vec::new()), Err(TrackError::MissingOperand));
}

#[test]
fn tokenizing_keeps_the_order_of_the_tokens() {
    let raws = vec!["-rs".to_string(), "a".to_string(), "--copy".to_string()];
    let borrowed: Vec<&String> = raws.iter().collect();
    assert_eq!(
        tokenize(&borrowed),
        Ok(vec![Argument::Recursive, Argument::Symlink, file("a"), Argument::Copy])
    );
}

#[test]
fn tokenizing_does_not_collapse() {
    let raws = vec!["a".to_string(), "a".to_string()];
    let borrowed: Vec<&String> = raws.iter().collect();
    assert_eq!(tokenize(&borrowed), Ok(vec![file("a"), file("a")]));
}

#[test]
fn an_option_set_knows_what_it_holds() {
    let mut opts = OptSet::new();
    assert!(!opts.contains(Opt::Copy));
    assert!(opts.insert(Opt::Copy));
    assert!(!opts.insert(Opt::Copy));
    assert!(opts.contains(Opt::Copy));
    assert!(!opts.contains(Opt::Symlink));
    assert!(opts.insert(Opt::Recursive));
    assert!(opts.contains(Opt::Recursive) && opts.contains(Opt::Copy));
    assert!(!opts.contains(Opt::NoConfirm) && !opts.contains(Opt::DryRun) && !opts.contains(Opt::Verbose));
}

#[test]
fn messages_name_the_offending_text() {
    assert_eq!(TrackError::InvalidArgument("x".to_string()).message(), "Invalid argument: x");
    assert_eq!(TrackError::ConflictingOptions.message(), "Copy conflicts with Symlink option");
    assert_eq!(TrackError::MissingOperand.message(), "missing file operand");
    assert_eq!(TrackError::UnsupportedFeature.message(), "the git-dir option is not supported");
    assert_eq!(
        TrackError::PathNotFound("a b".to_string()).message(),
        "cannot stat 'a b': No such file or directory"
    );
}

#[test]
fn filesystem_messages_name_the_step() {
    let failure = |phase| TrackError::FilesystemFailure {
        phase,
        path: "p".to_string(),
        detail: "denied".to_string(),
    };
    assert_eq!(failure(Phase::Copy).message(), "cannot copy 'p': denied");
    assert_eq!(failure(Phase::Remove).message(), "cannot remove 'p': denied");
    assert_eq!(failure(Phase::Link).message(), "cannot link 'p': denied");
}
