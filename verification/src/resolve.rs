//! From interpreted tokens to what the command line asks for.
//!
//! Tokens are first put in priority order, so that a request for help or
//! for the version is met before anything else, wherever it was written.
//! The ordered tokens are then read one by one: a meta-action ends the reading
//! with success, the reserved option and a clash of modes end it with a
//! failure, options are gathered in a set and file operands in a list.

use vstd::prelude::*;
use crate::args::{interpret, match_args, parsed_view, parsed_views, Argument, Token};
use crate::error::{Fault, TrackError};
use crate::options::{Opt, OptSet, Outcome, Request, ResolvedRequest, Resolution};
use crate::text::{collapse, dedup_adjacent, ref_views, views};

verus! {

/// The mathematical values of a sequence of [`Argument`], in order.
pub open spec fn tokens(args: Seq<Argument>) -> Seq<Token> {
    args.map_values(|a: Argument| a@)
}

/// The priority of a token: 0 for a meta-action, 1 for an option (the
/// reserved one included), 2 for a file operand. Lower comes first.
pub open spec fn rank(t: Token) -> int {
    match t {
        Token::Help | Token::Version => 0,
        Token::File(_) => 2,
        _ => 1,
    }
}

/// The tokens of `s` that have priority `r`, in the order in which they stand
/// in `s`.
pub open spec fn of_rank(s: Seq<Token>, r: int) -> Seq<Token>
    decreases s.len(),
{
    if s.len() == 0 {
        Seq::empty()
    } else if rank(s.last()) == r {
        of_rank(s.drop_last(), r).push(s.last())
    } else {
        of_rank(s.drop_last(), r)
    }
}

/// The tokens of `s` in priority order: meta-actions, then options, then
/// file operands, each group in the order in which it was written.
pub open spec fn by_priority(s: Seq<Token>) -> Seq<Token> {
    of_rank(s, 0) + of_rank(s, 1) + of_rank(s, 2)
}

/// The priority of an argument.
fn rank_of(arg: &Argument) -> (r: u8)
    ensures
        r == rank(arg@),
{
    match arg {
        Argument::Help | Argument::Version => 0,
        Argument::File(_) => 2,
        _ => 1,
    }
}

/// Puts the arguments in priority order. The order among arguments of equal
/// priority is kept.
pub fn prioritize(args: Vec<Argument>) -> (out: Vec<Argument>)
    ensures
        tokens(out@) == by_priority(tokens(args@)),
{
    let ghost all = tokens(args@);
    let mut metas: Vec<Argument> = Vec::new();
    let mut options: Vec<Argument> = Vec::new();
    let mut files: Vec<Argument> = Vec::new();
    for arg in it: args
        invariant
            it.seq() == args@,
            tokens(metas@) == of_rank(all.take(it.index() as int), 0),
            tokens(options@) == of_rank(all.take(it.index() as int), 1),
            tokens(files@) == of_rank(all.take(it.index() as int), 2),
            all == tokens(args@),
    {
        proof {
            let i = it.index() as int;
            assert(all.take(i + 1).drop_last() == all.take(i));
        }
        let r = rank_of(&arg);
        if r == 0 {
            metas.push(arg);
        } else if r == 1 {
            options.push(arg);
        } else {
            files.push(arg);
        }
    }
    proof {
        assert(all.take(args@.len() as int) == all);
        assert(tokens(metas@ + options@ + files@) == tokens(metas@) + tokens(options@) + tokens(
            files@,
        ));
    }
    metas.append(&mut options);
    metas.append(&mut files);
    metas
}

/// The token that stands for an option.
pub open spec fn token_of(opt: Opt) -> Token {
    match opt {
        Opt::NoConfirm => Token::NoConfirm,
        Opt::Symlink => Token::Symlink,
        Opt::Copy => Token::Copy,
        Opt::DryRun => Token::DryRun,
        Opt::Verbose => Token::Verbose,
        Opt::Recursive => Token::Recursive,
    }
}

/// The options that occur among the tokens.
pub open spec fn options(s: Seq<Token>) -> Set<Opt> {
    Set::new(|opt: Opt| s.contains(token_of(opt)))
}

/// The file operands among the tokens, in the order in which they stand.
pub open spec fn operands(s: Seq<Token>) -> Seq<Seq<char>>
    decreases s.len(),
{
    if s.len() == 0 {
        Seq::empty()
    } else {
        match s.last() {
            Token::File(path) => operands(s.drop_last()).push(path),
            _ => operands(s.drop_last()),
        }
    }
}

/// Whether reading stops at position `i`: at a meta-action, at the reserved
/// option, or at a mode whose opposite stands before it.
pub open spec fn ends_reading(s: Seq<Token>, i: int) -> bool {
    match s[i] {
        Token::Help | Token::Version | Token::GitDir => true,
        Token::Copy => s.take(i).contains(Token::Symlink),
        Token::Symlink => s.take(i).contains(Token::Copy),
        _ => false,
    }
}

/// Whether `i` is the first position at which reading stops.
pub open spec fn first_end(s: Seq<Token>, i: int) -> bool {
    &&& 0 <= i < s.len()
    &&& ends_reading(s, i)
    &&& forall|j: int| 0 <= j < i ==> !ends_reading(s, j)
}

/// What the token at which reading stopped means for the invocation.
pub open spec fn ruling(t: Token) -> Result<Outcome, Fault> {
    match t {
        Token::Help => Ok(Outcome::ShowHelp),
        Token::Version => Ok(Outcome::ShowVersion),
        Token::GitDir => Err(Fault::UnsupportedFeature),
        _ => Err(Fault::ConflictingOptions),
    }
}

/// What reading the tokens `s` in order gives.
///
/// Where reading stops at some position, the token there decides. Where it
/// never stops, the tokens must name a file; the result is then the set of
/// their options and the list of their files.
pub open spec fn verdict(s: Seq<Token>) -> Result<Outcome, Fault> {
    if exists|i: int| first_end(s, i) {
        ruling(s[choose|i: int| first_end(s, i)])
    } else if operands(s).len() == 0 {
        Err(Fault::MissingOperand)
    } else {
        Ok(Outcome::Run(Request { opts: options(s), files: operands(s) }))
    }
}

/// The mathematical value of the result of a resolution.
pub open spec fn resolved_view(r: Result<Resolution, TrackError>) -> Result<Outcome, Fault> {
    match r {
        Ok(resolution) => Ok(resolution@),
        Err(e) => Err(e@),
    }
}

/// The option that a token stands for, if it is one.
pub open spec fn option_of(t: Token) -> Option<Opt> {
    match t {
        Token::NoConfirm => Some(Opt::NoConfirm),
        Token::Symlink => Some(Opt::Symlink),
        Token::Copy => Some(Opt::Copy),
        Token::DryRun => Some(Opt::DryRun),
        Token::Verbose => Some(Opt::Verbose),
        Token::Recursive => Some(Opt::Recursive),
        _ => None,
    }
}

/// One more token adds its option to the options, if it stands for one.
pub proof fn lemma_options_push(s: Seq<Token>, t: Token)
    ensures
        options(s.push(t)) == match option_of(t) {
            Some(opt) => options(s).insert(opt),
            None => options(s),
        },
{
    let grown = s.push(t);
    assert forall|opt: Opt| grown.contains(token_of(opt)) <==> (s.contains(token_of(opt))
        || option_of(t) == Some(opt)) by {
        if s.contains(token_of(opt)) {
            let i = choose|i: int| 0 <= i < s.len() && s[i] == token_of(opt);
            assert(grown[i] == token_of(opt));
        }
        if option_of(t) == Some(opt) {
            assert(grown[s.len() as int] == token_of(opt));
        }
    }
}

/// Reads the arguments in the order given and resolves them.
///
/// Reading stops at the first meta-action (success), at the reserved option
/// or at a mode whose opposite was read before (failure). Otherwise every
/// option is gathered, every file operand kept in order, and at least one
/// file operand must be there.
pub fn execute_args(args: Vec<Argument>) -> (out: Result<Resolution, TrackError>)
    ensures
        resolved_view(out) == verdict(tokens(args@)),
        out matches Ok(Resolution::Run(request)) ==> request@.valid(),
{
    let ghost s = tokens(args@);
    let mut opts = OptSet::new();
    let mut files: Vec<String> = Vec::new();
    let mut i: usize = 0;
    while i < args.len()
        invariant
            s == tokens(args@),
            i <= args.len(),
            forall|j: int| 0 <= j < i ==> !ends_reading(s, j),
            opts@ == options(s.take(i as int)),
            views(files@) == operands(s.take(i as int)),
        decreases args.len() - i,
    {
        let ghost t = s[i as int];
        proof {
            assert(s.take(i + 1) == s.take(i as int).push(t));
            assert(s.take(i + 1).drop_last() == s.take(i as int));
            lemma_options_push(s.take(i as int), t);
        }
        let mut stop: Option<Result<Resolution, TrackError>> = None;
        match &args[i] {
            Argument::Help => {
                stop = Some(Ok(Resolution::ShowHelp));
            },
            Argument::Version => {
                stop = Some(Ok(Resolution::ShowVersion));
            },
            Argument::GitDir => {
                stop = Some(Err(TrackError::UnsupportedFeature));
            },
            Argument::Verbose => {
                opts.insert(Opt::Verbose);
            },
            Argument::Copy => {
                if opts.contains(Opt::Symlink) {
                    stop = Some(Err(TrackError::ConflictingOptions));
                } else {
                    opts.insert(Opt::Copy);
                }
            },
            Argument::Symlink => {
                if opts.contains(Opt::Copy) {
                    stop = Some(Err(TrackError::ConflictingOptions));
                } else {
                    opts.insert(Opt::Symlink);
                }
            },
            Argument::DryRun => {
                opts.insert(Opt::DryRun);
            },
            Argument::Recursive => {
                opts.insert(Opt::Recursive);
            },
            Argument::NoConfirm => {
                opts.insert(Opt::NoConfirm);
            },
            Argument::File(path) => {
                files.push(path.clone());
            },
        }
        if let Some(ended) = stop {
            proof {
                assert(first_end(s, i as int));
            }
            return ended;
        }
        i = i + 1;
    }
    proof {
        assert(s.take(args.len() as int) == s);
    }
    if files.len() == 0 {
        return Err(TrackError::MissingOperand);
    }
    proof {
        assert(!(s.contains(Token::Copy) && s.contains(Token::Symlink))) by {
            if s.contains(Token::Copy) && s.contains(Token::Symlink) {
                lemma_both_modes_end(s);
            }
        }
    }
    Ok(Resolution::Run(ResolvedRequest { opts, files }))
}

/// Where both modes occur, reading stops somewhere.
pub proof fn lemma_both_modes_end(s: Seq<Token>)
    requires
        s.contains(Token::Copy),
        s.contains(Token::Symlink),
    ensures
        exists|i: int| 0 <= i < s.len() && ends_reading(s, i),
{
    let c = choose|c: int| 0 <= c < s.len() && s[c] == Token::Copy;
    let l = choose|l: int| 0 <= l < s.len() && s[l] == Token::Symlink;
    if c < l {
        assert(s.take(l)[c] == Token::Copy);
        assert(ends_reading(s, l));
    } else {
        assert(s.take(c)[l] == Token::Symlink);
        assert(ends_reading(s, c));
    }
}

/// Every raw token interpreted, the results in one sequence, in order.
pub open spec fn interpret_all(raws: Seq<Seq<char>>) -> Seq<Result<Token, Fault>>
    decreases raws.len(),
{
    if raws.len() == 0 {
        Seq::empty()
    } else {
        interpret_all(raws.drop_last()) + interpret(raws.last())
    }
}

/// The tokens of `results` if all of them are tokens, else the first failure
/// among them.
pub open spec fn gather(results: Seq<Result<Token, Fault>>) -> Result<Seq<Token>, Fault>
    decreases results.len(),
{
    if results.len() == 0 {
        Ok(Seq::empty())
    } else {
        match gather(results.drop_last()) {
            Err(e) => Err(e),
            Ok(found) => match results.last() {
                Ok(t) => Ok(found.push(t)),
                Err(e) => Err(e),
            },
        }
    }
}

/// What a command line asks for.
///
/// Equal neighbours among the raw tokens are collapsed, every raw token is
/// interpreted, and the first failure, if there is one, is the result.
/// Otherwise the tokens are read in priority order.
pub open spec fn parse(raws: Seq<Seq<char>>) -> Result<Outcome, Fault> {
    match gather(interpret_all(collapse(raws))) {
        Err(e) => Err(e),
        Ok(found) => verdict(by_priority(found)),
    }
}

/// The mathematical value of the result of a tokenization.
pub open spec fn tokenized_view(r: Result<Vec<Argument>, TrackError>) -> Result<Seq<Token>, Fault> {
    match r {
        Ok(args) => Ok(tokens(args@)),
        Err(e) => Err(e@),
    }
}

/// Gathering goes through a concatenation from left to right.
pub proof fn lemma_gather_add(a: Seq<Result<Token, Fault>>, b: Seq<Result<Token, Fault>>)
    ensures
        gather(a + b) == match gather(a) {
            Err(e) => Err(e),
            Ok(left) => match gather(b) {
                Err(e) => Err(e),
                Ok(right) => Ok(left + right),
            },
        },
    decreases b.len(),
{
    if b.len() > 0 {
        assert((a + b).drop_last() == a + b.drop_last());
        lemma_gather_add(a, b.drop_last());
    }
}

/// Interpreting goes through a concatenation from left to right.
pub proof fn lemma_interpret_all_add(a: Seq<Seq<char>>, b: Seq<Seq<char>>)
    ensures
        interpret_all(a + b) == interpret_all(a) + interpret_all(b),
    decreases b.len(),
{
    if b.len() > 0 {
        assert((a + b).drop_last() == a + b.drop_last());
        lemma_interpret_all_add(a, b.drop_last());
        assert((interpret_all(a) + interpret_all(b.drop_last())) + interpret(b.last())
            == interpret_all(a) + (interpret_all(b.drop_last()) + interpret(b.last())));
    }
}

/// A failure among the first `k` raw tokens is the failure of them all.
pub proof fn lemma_failure_stays(raws: Seq<Seq<char>>, k: int)
    requires
        0 <= k <= raws.len(),
        gather(interpret_all(raws.take(k))) is Err,
    ensures
        gather(interpret_all(raws)) == gather(interpret_all(raws.take(k))),
{
    assert(raws.take(k) + raws.skip(k) == raws);
    lemma_interpret_all_add(raws.take(k), raws.skip(k));
    lemma_gather_add(interpret_all(raws.take(k)), interpret_all(raws.skip(k)));
}

/// Interprets every raw token, in order, and stops at the first failure.
pub fn tokenize(raws: &Vec<&String>) -> (out: Result<Vec<Argument>, TrackError>)
    ensures
        tokenized_view(out) == gather(interpret_all(ref_views(raws@))),
{
    let ghost all = ref_views(raws@);
    let mut found: Vec<Argument> = Vec::new();
    let mut i: usize = 0;
    proof {
        assert(tokens(found@) == Seq::<Token>::empty());
    }
    while i < raws.len()
        invariant
            all == ref_views(raws@),
            i <= raws.len(),
            gather(interpret_all(all.take(i as int))) == Ok::<Seq<Token>, Fault>(tokens(found@)),
        decreases raws.len() - i,
    {
        let parsed = match_args(raws[i].as_str());
        let ghost before = tokens(found@);
        let ghost part = parsed_views(parsed@);
        proof {
            assert(all.take(i + 1).drop_last() == all.take(i as int));
            lemma_gather_add(interpret_all(all.take(i as int)), part);
        }
        for p in it: parsed
            invariant
                it.seq() == parsed@,
                part == parsed_views(parsed@),
                gather(part.take(it.index() as int)) matches Ok(ts) && before + ts == tokens(
                    found@,
                ),
                i < raws.len(),
                all == ref_views(raws@),
                gather(interpret_all(all.take(i as int))) == Ok::<Seq<Token>, Fault>(before),
                gather(interpret_all(all.take(i + 1))) == match gather(part) {
                    Err(e) => Err(e),
                    Ok(right) => Ok(before + right),
                },
        {
            let ghost k = it.index() as int;
            proof {
                assert(part.take(k + 1).drop_last() == part.take(k));
                lemma_gather_add(part.take(k + 1), part.skip(k + 1));
                assert(part.take(k + 1) + part.skip(k + 1) == part);
            }
            match p {
                Ok(arg) => {
                    proof {
                        assert(tokens(found@.push(arg)) == tokens(found@).push(arg@));
                    }
                    found.push(arg);
                },
                Err(e) => {
                    proof {
                        lemma_failure_stays(all, i + 1);
                    }
                    return Err(e);
                },
            }
        }
        proof {
            assert(part.take(parsed@.len() as int) == part);
        }
        i = i + 1;
    }
    proof {
        assert(all.take(raws.len() as int) == all);
    }
    Ok(found)
}

/// Resolves the raw tokens of a command line, the program's name left out.
///
/// Fails on the first raw token that cannot be interpreted; otherwise reads
/// the tokens in priority order, as [`execute_args`] does.
pub fn parse_args(args: &[String]) -> (out: Result<Resolution, TrackError>)
    ensures
        resolved_view(out) == parse(views(args@)),
        out matches Ok(Resolution::Run(request)) ==> request@.valid(),
{
    let raws = dedup_adjacent(args);
    match tokenize(&raws) {
        Err(e) => Err(e),
        Ok(found) => execute_args(prioritize(found)),
    }
}

/// What an invocation does: with no argument at all it shows the usage text,
/// with any it does what [`parse`] says.
pub open spec fn invocation(raws: Seq<Seq<char>>) -> Result<Outcome, Fault> {
    if raws.len() == 0 {
        Ok(Outcome::ShowHelp)
    } else {
        parse(raws)
    }
}

/// Resolves an invocation from its arguments, the program's name left out.
pub fn resolve_invocation(args: &[String]) -> (out: Result<Resolution, TrackError>)
    ensures
        resolved_view(out) == invocation(views(args@)),
        out matches Ok(Resolution::Run(request)) ==> request@.valid(),
{
    if args.len() == 0 {
        Ok(Resolution::ShowHelp)
    } else {
        parse_args(args)
    }
}

} // verus!
