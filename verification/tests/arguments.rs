use tracker_desu::args::{match_args, short_form_args, Argument};
use tracker_desu::error::TrackError;
use tracker_desu::options::{Opt, OptSet, ResolvedRequest, Resolution};
use tracker_desu::resolve::{parse_args, resolve_invocation};

fn strings(items: &[&str]) -> Vec<String> {
    items.iter().map(|s| s.to_string()).collect()
}

#[test]
fn bundle_with_symlink_and_recursive_resolves_to_a_request() {
    let mut opts = OptSet::new();
    opts.insert(Opt::Symlink);
    opts.insert(Opt::Recursive);
    let expected = ResolvedRequest { opts, files: strings(&["notes.txt"]) };
    assert_eq!(parse_args(&strings(&["-rs", "notes.txt"])), Ok(Resolution::Run(expected)));
}

#[test]
fn copy_then_symlink_is_a_conflict() {
    assert_eq!(
        parse_args(&strings(&["--copy", "--symlink", "a.txt"])),
        Err(TrackError::ConflictingOptions)
    );
}

#[test]
fn no_arguments_show_the_usage() {
    assert_eq!(resolve_invocation(&[]), Ok(Resolution::ShowHelp));
}

#[test]
fn unknown_short_flag_names_the_character() {
    assert_eq!(
        parse_args(&strings(&["-x"])),
        Err(TrackError::InvalidArgument("x".to_string()))
    );
}

#[test]
fn short_forms_map_each_character() {
    assert_eq!(
        short_form_args("rhncsCdvV"),
        vec![
            Ok(Argument::Recursive),
            Ok(Argument::Help),
            Ok(Argument::DryRun),
            Ok(Argument::Copy),
            Ok(Argument::Symlink),
            Ok(Argument::NoConfirm),
            Ok(Argument::GitDir),
            Ok(Argument::Verbose),
            Ok(Argument::Version),
        ]
    );
}

#[test]
fn long_forms_map_to_their_tokens() {
    assert_eq!(match_args("--recursive"), vec![Ok(Argument::Recursive)]);
    assert_eq!(match_args("--help"), vec![Ok(Argument::Help)]);
    assert_eq!(match_args("--dry-run"), vec![Ok(Argument::DryRun)]);
    assert_eq!(match_args("--copy"), vec![Ok(Argument::Copy)]);
    assert_eq!(match_args("--symlink"), vec![Ok(Argument::Symlink)]);
    assert_eq!(match_args("--no-confirm"), vec![Ok(Argument::NoConfirm)]);
    assert_eq!(match_args("--git-dir"), vec![Ok(Argument::GitDir)]);
    assert_eq!(match_args("--verbose"), vec![Ok(Argument::Verbose)]);
    assert_eq!(match_args("--version"), vec![Ok(Argument::Version)]);
}

fn request(opts: &[Opt], files: &[&str]) -> Result<Resolution, TrackError> {
    let mut set = OptSet::new();
    for opt in opts {
        set.insert(*opt);
    }
    Ok(Resolution::Run(ResolvedRequest { opts: set, files: strings(files) }))
}

fn invalid(text: &str) -> Result<Resolution, TrackError> {
    Err(TrackError::InvalidArgument(text.to_string()))
}

#[test]
fn a_bare_token_is_a_file_operand() {
    assert_eq!(match_args("notes.txt"), vec![Ok(Argument::File("notes.txt".to_string()))]);
}

#[test]
fn a_lone_dash_is_a_file_operand() {
    assert_eq!(match_args("-"), vec![Ok(Argument::File("-".to_string()))]);
}

#[test]
fn the_empty_token_is_a_file_operand() {
    assert_eq!(match_args(""), vec![Ok(Argument::File(String::new()))]);
}

#[test]
fn two_dashes_alone_are_a_bundle_with_an_unknown_flag() {
    assert_eq!(match_args("--"), vec![Err(TrackError::InvalidArgument("-".to_string()))]);
}

#[test]
fn an_unknown_long_flag_names_the_whole_token() {
    assert_eq!(match_args("--bogus"), vec![Err(TrackError::InvalidArgument("--bogus".to_string()))]);
    assert_eq!(parse_args(&strings(&["--bogus", "a"])), invalid("--bogus"));
}

#[test]
fn a_long_flag_with_a_suffix_is_unknown() {
    assert_eq!(parse_args(&strings(&["--helpx", "a"])), invalid("--helpx"));
}

#[test]
fn a_bundle_gives_one_result_for_each_character() {
    assert_eq!(
        match_args("-rxs"),
        vec![
            Ok(Argument::Recursive),
            Err(TrackError::InvalidArgument("x".to_string())),
            Ok(Argument::Symlink),
        ]
    );
}

#[test]
fn a_character_outside_ascii_is_named_whole() {
    assert_eq!(match_args("-é"), vec![Err(TrackError::InvalidArgument("é".to_string()))]);
    assert_eq!(match_args("é"), vec![Ok(Argument::File("é".to_string()))]);
}

#[test]
fn the_empty_bundle_text_gives_nothing() {
    assert_eq!(short_form_args(""), Vec::new());
}

#[test]
fn the_first_failure_is_reported() {
    assert_eq!(parse_args(&strings(&["-rx", "--bogus", "-y"])), invalid("x"));
    assert_eq!(parse_args(&strings(&["a", "--bogus", "-y"])), invalid("--bogus"));
}

#[test]
fn a_failure_comes_before_help() {
    assert_eq!(parse_args(&strings(&["--help", "-x"])), invalid("x"));
}

#[test]
fn help_is_met_wherever_it_stands() {
    assert_eq!(parse_args(&strings(&["a", "--copy", "--symlink", "--help"])), Ok(Resolution::ShowHelp));
    assert_eq!(parse_args(&strings(&["--git-dir", "-h"])), Ok(Resolution::ShowHelp));
    assert_eq!(parse_args(&strings(&["-rh"])), Ok(Resolution::ShowHelp));
    assert_eq!(parse_args(&strings(&["--help"])), Ok(Resolution::ShowHelp));
}

#[test]
fn version_is_met_wherever_it_stands() {
    assert_eq!(parse_args(&strings(&["a", "-d", "--version"])), Ok(Resolution::ShowVersion));
    assert_eq!(parse_args(&strings(&["-V"])), Ok(Resolution::ShowVersion));
}

#[test]
fn the_first_meta_action_wins() {
    assert_eq!(parse_args(&strings(&["--version", "a", "--help"])), Ok(Resolution::ShowVersion));
    assert_eq!(parse_args(&strings(&["--help", "a", "--version"])), Ok(Resolution::ShowHelp));
    assert_eq!(parse_args(&strings(&["-Vh"])), Ok(Resolution::ShowVersion));
}

#[test]
fn symlink_then_copy_is_a_conflict() {
    assert_eq!(
        parse_args(&strings(&["--symlink", "a.txt", "--copy"])),
        Err(TrackError::ConflictingOptions)
    );
    assert_eq!(parse_args(&strings(&["-sc", "a.txt"])), Err(TrackError::ConflictingOptions));
    assert_eq!(parse_args(&strings(&["-c", "a.txt", "-s"])), Err(TrackError::ConflictingOptions));
}

#[test]
fn a_repeated_mode_is_no_conflict() {
    assert_eq!(parse_args(&strings(&["-c", "-c", "a"])), request(&[Opt::Copy], &["a"]));
    assert_eq!(parse_args(&strings(&["-c", "a", "--copy"])), request(&[Opt::Copy], &["a"]));
    assert_eq!(parse_args(&strings(&["-ss", "a"])), request(&[Opt::Symlink], &["a"]));
}

#[test]
fn the_reserved_option_is_refused() {
    assert_eq!(parse_args(&strings(&["--git-dir", "a"])), Err(TrackError::UnsupportedFeature));
    assert_eq!(parse_args(&strings(&["a", "-d"])), Err(TrackError::UnsupportedFeature));
}

#[test]
fn the_option_that_stands_first_decides_between_refusal_and_conflict() {
    assert_eq!(
        parse_args(&strings(&["--copy", "--symlink", "--git-dir", "a"])),
        Err(TrackError::ConflictingOptions)
    );
    assert_eq!(
        parse_args(&strings(&["--copy", "--git-dir", "--symlink", "a"])),
        Err(TrackError::UnsupportedFeature)
    );
}

#[test]
fn options_without_a_file_miss_the_operand() {
    assert_eq!(parse_args(&strings(&["-r"])), Err(TrackError::MissingOperand));
    assert_eq!(parse_args(&strings(&["--verbose", "--dry-run"])), Err(TrackError::MissingOperand));
    assert_eq!(parse_args(&[]), Err(TrackError::MissingOperand));
}

#[test]
fn one_argument_is_not_an_empty_invocation() {
    assert_eq!(resolve_invocation(&strings(&["-r"])), Err(TrackError::MissingOperand));
    assert_eq!(resolve_invocation(&strings(&["a"])), request(&[], &["a"]));
}

#[test]
fn every_option_is_gathered() {
    assert_eq!(
        parse_args(&strings(&["--no-confirm", "--verbose", "--dry-run", "--recursive", "--copy", "a"])),
        request(
            &[Opt::NoConfirm, Opt::Verbose, Opt::DryRun, Opt::Recursive, Opt::Copy],
            &["a"]
        )
    );
    assert_eq!(
        parse_args(&strings(&["-Cvnrs", "a"])),
        request(
            &[Opt::NoConfirm, Opt::Verbose, Opt::DryRun, Opt::Recursive, Opt::Symlink],
            &["a"]
        )
    );
}

#[test]
fn files_keep_the_order_in_which_they_were_written() {
    assert_eq!(
        parse_args(&strings(&["b", "-r", "a", "--verbose", "c"])),
        request(&[Opt::Recursive, Opt::Verbose], &["b", "a", "c"])
    );
}

#[test]
fn equal_neighbours_are_collapsed() {
    assert_eq!(parse_args(&strings(&["a", "a", "b"])), request(&[], &["a", "b"]));
    assert_eq!(parse_args(&strings(&["a", "a", "a"])), request(&[], &["a"]));
}

#[test]
fn equal_tokens_that_are_apart_all_stay() {
    assert_eq!(parse_args(&strings(&["a", "b", "a"])), request(&[], &["a", "b", "a"]));
}

#[test]
fn a_bundle_means_what_its_flags_mean_one_by_one() {
    assert_eq!(
        parse_args(&strings(&["-rsn", "f"])),
        parse_args(&strings(&["-r", "-s", "-n", "f"]))
    );
    assert_eq!(parse_args(&strings(&["-cs"])), parse_args(&strings(&["-c", "-s"])));
    assert_eq!(parse_args(&strings(&["-rr"])), parse_args(&strings(&["-r", "-r"])));
    assert_eq!(match_args("-rs"), vec![Ok(Argument::Recursive), Ok(Argument::Symlink)]);
}

#[test]
fn a_known_long_flag_is_no_file() {
    assert_eq!(parse_args(&strings(&["--copy"])), Err(TrackError::MissingOperand));
}
