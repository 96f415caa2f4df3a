//! Interpretation of raw command-line tokens.
//!
//! A raw token is a known long flag, a bundle of short flags, or a file
//! operand. [`match_args`] interprets one raw token and [`short_form_args`]
//! the characters of a bundle.

use vstd::prelude::*;
use crate::error::{Fault, TrackError};
use crate::text::str_eq;

verus! {

/// One interpreted command-line token.
#[derive(Clone, Debug, PartialEq, Eq)]
pub enum Argument {
    Help,
    Version,
    Verbose,
    DryRun,
    Copy,
    Symlink,
    Recursive,
    NoConfirm,
    /// Reserved; its use is refused.
    GitDir,
    /// A file operand, kept as it was written.
    File(String),
}

/// The mathematical value of an [`Argument`].
pub ghost enum Token {
    Help,
    Version,
    Verbose,
    DryRun,
    Copy,
    Symlink,
    Recursive,
    NoConfirm,
    GitDir,
    File(Seq<char>),
}

impl View for Argument {
    type V = Token;

    open spec fn view(&self) -> Token {
        match self {
            Argument::Help => Token::Help,
            Argument::Version => Token::Version,
            Argument::Verbose => Token::Verbose,
            Argument::DryRun => Token::DryRun,
            Argument::Copy => Token::Copy,
            Argument::Symlink => Token::Symlink,
            Argument::Recursive => Token::Recursive,
            Argument::NoConfirm => Token::NoConfirm,
            Argument::GitDir => Token::GitDir,
            Argument::File(path) => Token::File(path@),
        }
    }
}

/// What interpreting one position of the command line gives: a token, or the
/// failure that names the offending text.
pub type Parsed = Result<Argument, TrackError>;

/// The mathematical value of a [`Parsed`].
pub open spec fn parsed_view(p: Parsed) -> Result<Token, Fault> {
    match p {
        Ok(arg) => Ok(arg@),
        Err(e) => Err(e@),
    }
}

/// The mathematical values of a sequence of [`Parsed`], in order.
pub open spec fn parsed_views(ps: Seq<Parsed>) -> Seq<Result<Token, Fault>> {
    ps.map_values(|p: Parsed| parsed_view(p))
}

/// The short-flag table: the token that a character of a bundle stands for.
pub open spec fn short_flag(c: char) -> Option<Token> {
    if c == 'r' {
        Some(Token::Recursive)
    } else if c == 'h' {
        Some(Token::Help)
    } else if c == 'n' {
        Some(Token::DryRun)
    } else if c == 'c' {
        Some(Token::Copy)
    } else if c == 's' {
        Some(Token::Symlink)
    } else if c == 'C' {
        Some(Token::NoConfirm)
    } else if c == 'd' {
        Some(Token::GitDir)
    } else if c == 'v' {
        Some(Token::Verbose)
    } else if c == 'V' {
        Some(Token::Version)
    } else {
        None
    }
}

/// One character of a bundle, interpreted: its token, or the failure that
/// names the character.
pub open spec fn short_form(c: char) -> Result<Token, Fault> {
    match short_flag(c) {
        Some(token) => Ok(token),
        None => Err(Fault::InvalidArgument(seq![c])),
    }
}

/// The characters of a bundle, each interpreted on its own.
pub open spec fn short_forms(flags: Seq<char>) -> Seq<Result<Token, Fault>> {
    flags.map_values(|c: char| short_form(c))
}

/// Looks one character up in the short-flag table.
fn flag_of(c: char) -> (found: Option<Argument>)
    ensures
        found is Some <==> short_flag(c) is Some,
        found matches Some(arg) ==> Some(arg@) == short_flag(c),
{
    match c {
        'r' => Some(Argument::Recursive),
        'h' => Some(Argument::Help),
        'n' => Some(Argument::DryRun),
        'c' => Some(Argument::Copy),
        's' => Some(Argument::Symlink),
        'C' => Some(Argument::NoConfirm),
        'd' => Some(Argument::GitDir),
        'v' => Some(Argument::Verbose),
        'V' => Some(Argument::Version),
        _ => None,
    }
}

/// Interprets the characters of a short-flag bundle, the leading dash
/// already taken away: one result per character, in order.
pub fn short_form_args(args: &str) -> (out: Vec<Parsed>)
    ensures
        parsed_views(out@) == short_forms(args@),
{
    let n = args.unicode_len();
    let mut out: Vec<Parsed> = Vec::new();
    let mut i: usize = 0;
    while i < n
        invariant
            n == args@.len(),
            i <= n,
            parsed_views(out@) == short_forms(args@.take(i as int)),
        decreases n - i,
    {
        let c = args.get_char(i);
        let parsed = match flag_of(c) {
            Some(arg) => Ok(arg),
            None => Err(TrackError::InvalidArgument(args.substring_char(i, i + 1).to_owned())),
        };
        proof {
            assert(args@.subrange(i as int, i + 1) == seq![c]);
            assert(parsed_views(out@.push(parsed)) == parsed_views(out@).push(
                parsed_view(parsed),
            ));
            assert(short_forms(args@.take(i as int).push(c)) == short_forms(
                args@.take(i as int),
            ).push(short_form(c)));
        }
        out.push(parsed);
        i = i + 1;
    }
    out
}

/// The long-flag table: the token that a raw token stands for when it is one
/// of the known long forms.
pub open spec fn long_flag(raw: Seq<char>) -> Option<Token> {
    if raw == "--recursive"@ {
        Some(Token::Recursive)
    } else if raw == "--help"@ {
        Some(Token::Help)
    } else if raw == "--dry-run"@ {
        Some(Token::DryRun)
    } else if raw == "--copy"@ {
        Some(Token::Copy)
    } else if raw == "--symlink"@ {
        Some(Token::Symlink)
    } else if raw == "--no-confirm"@ {
        Some(Token::NoConfirm)
    } else if raw == "--git-dir"@ {
        Some(Token::GitDir)
    } else if raw == "--verbose"@ {
        Some(Token::Verbose)
    } else if raw == "--version"@ {
        Some(Token::Version)
    } else {
        None
    }
}

/// Whether a raw token is written like a long flag: two dashes and at least
/// one more character.
pub open spec fn looks_long(raw: Seq<char>) -> bool {
    raw.len() > 2 && raw[0] == '-' && raw[1] == '-'
}

/// Whether a raw token is a bundle of short flags: a dash and at least one
/// more character, and not written like a long flag.
pub open spec fn is_bundle(raw: Seq<char>) -> bool {
    raw.len() >= 2 && raw[0] == '-' && !looks_long(raw)
}

/// One raw token, interpreted.
///
/// A known long flag gives its token. Any other token written like a long
/// flag fails and names the whole token. A bundle gives one result per
/// character after the dash. Everything else, a lone dash and the empty
/// token included, is a file operand.
pub open spec fn interpret(raw: Seq<char>) -> Seq<Result<Token, Fault>> {
    match long_flag(raw) {
        Some(token) => seq![Ok(token)],
        None => if looks_long(raw) {
            seq![Err(Fault::InvalidArgument(raw))]
        } else if is_bundle(raw) {
            short_forms(raw.skip(1))
        } else {
            seq![Ok(Token::File(raw))]
        },
    }
}

/// Looks a raw token up in the long-flag table.
fn long_flag_of(arg: &str) -> (found: Option<Argument>)
    ensures
        found is Some <==> long_flag(arg@) is Some,
        found matches Some(a) ==> Some(a@) == long_flag(arg@),
{
    if str_eq(arg, "--recursive") {
        Some(Argument::Recursive)
    } else if str_eq(arg, "--help") {
        Some(Argument::Help)
    } else if str_eq(arg, "--dry-run") {
        Some(Argument::DryRun)
    } else if str_eq(arg, "--copy") {
        Some(Argument::Copy)
    } else if str_eq(arg, "--symlink") {
        Some(Argument::Symlink)
    } else if str_eq(arg, "--no-confirm") {
        Some(Argument::NoConfirm)
    } else if str_eq(arg, "--git-dir") {
        Some(Argument::GitDir)
    } else if str_eq(arg, "--verbose") {
        Some(Argument::Verbose)
    } else if str_eq(arg, "--version") {
        Some(Argument::Version)
    } else {
        None
    }
}

/// A vector that holds one result.
fn single(parsed: Parsed) -> (out: Vec<Parsed>)
    ensures
        parsed_views(out@) == seq![parsed_view(parsed)],
{
    let mut out: Vec<Parsed> = Vec::new();
    out.push(parsed);
    out
}

/// Interprets one raw token of the command line.
pub fn match_args(arg: &str) -> (out: Vec<Parsed>)
    ensures
        parsed_views(out@) == interpret(arg@),
{
    match long_flag_of(arg) {
        Some(found) => single(Ok(found)),
        None => {
            let n = arg.unicode_len();
            if n >= 2 && arg.get_char(0) == '-' {
                if n > 2 && arg.get_char(1) == '-' {
                    single(Err(TrackError::InvalidArgument(arg.to_owned())))
                } else {
                    short_form_args(arg.substring_char(1, n))
                }
            } else {
                single(Ok(Argument::File(arg.to_owned())))
            }
        },
    }
}

} // verus!
