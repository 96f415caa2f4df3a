//! What holds of every command line.
//!
//! The reading order matters only for meta-actions: the first of them
//! decides, wherever it stands, and without one the tokens may as well be
//! read as they were written. From this follow the laws on help, on the clash
//! of modes and on bundles of short flags.

use vstd::prelude::*;
use crate::args::{interpret, long_flag, looks_long, short_flag, short_form, short_forms, Token};
use crate::error::Fault;
use crate::options::{Opt, Outcome, Request};
use crate::resolve::{
    by_priority, ends_reading, first_end, gather, interpret_all, invocation, lemma_both_modes_end,
    lemma_gather_add, lemma_options_push, of_rank, operands,
    options, parse, rank, ruling, token_of, verdict,
};
use crate::text::collapse;

verus! {

/// The first meta-action among the tokens, if there is one.
pub open spec fn first_meta(s: Seq<Token>) -> Option<Token>
    decreases s.len(),
{
    if s.len() == 0 {
        None
    } else {
        match first_meta(s.drop_last()) {
            Some(t) => Some(t),
            None => if rank(s.last()) == 0 {
                Some(s.last())
            } else {
                None
            },
        }
    }
}

/// The token at which reading `s` in order stops, if it stops.
pub open spec fn stop(s: Seq<Token>) -> Option<Token>
    decreases s.len(),
{
    if s.len() == 0 {
        None
    } else {
        match stop(s.drop_last()) {
            Some(t) => Some(t),
            None => if ends_reading(s, s.len() - 1) {
                Some(s.last())
            } else {
                None
            },
        }
    }
}

/// The tokens of one priority are those tokens of the whole that have it.
pub proof fn lemma_of_rank_contains(s: Seq<Token>, r: int, t: Token)
    ensures
        of_rank(s, r).contains(t) <==> s.contains(t) && rank(t) == r,
    decreases s.len(),
{
    if s.len() > 0 {
        let front = s.drop_last();
        lemma_of_rank_contains(front, r, t);
        assert(s == front.push(s.last()));
        lemma_contains_push(front, s.last(), t);
        if rank(s.last()) == r {
            lemma_contains_push(of_rank(front, r), s.last(), t);
        }
    }
}

/// A sequence with one more item holds what it held, and that item.
pub proof fn lemma_contains_push<T>(s: Seq<T>, last: T, t: T)
    ensures
        s.push(last).contains(t) <==> s.contains(t) || last == t,
{
    let grown = s.push(last);
    if s.contains(t) {
        let i = choose|i: int| 0 <= i < s.len() && s[i] == t;
        assert(grown[i] == t);
    }
    if last == t {
        assert(grown[s.len() as int] == t);
    }
}

/// Whether reading stops at a position depends on the tokens up to it only.
pub proof fn lemma_ends_reading_prefix(s: Seq<Token>, n: int, i: int)
    requires
        0 <= i < n <= s.len(),
    ensures
        ends_reading(s.take(n), i) == ends_reading(s, i),
{
    assert(s.take(n).take(i) == s.take(i));
}

/// `stop` names the token at the first position at which reading stops.
pub proof fn lemma_stop_is_first_end(s: Seq<Token>)
    ensures
        stop(s) is None <==> forall|i: int| 0 <= i < s.len() ==> !ends_reading(s, i),
        stop(s) matches Some(t) ==> exists|k: int| first_end(s, k) && s[k] == t,
    decreases s.len(),
{
    if s.len() > 0 {
        let n = s.len() - 1;
        let front = s.drop_last();
        lemma_stop_is_first_end(front);
        assert forall|i: int| 0 <= i < n implies ends_reading(front, i) == ends_reading(s, i) by {
            lemma_ends_reading_prefix(s, n, i);
        }
        if let Some(t) = stop(front) {
            let k = choose|k: int| first_end(front, k) && front[k] == t;
            assert(first_end(s, k));
        } else if ends_reading(s, n) {
            assert(first_end(s, n));
        }
    }
}

/// The verdict, stated through `stop`.
pub proof fn lemma_verdict_by_stop(s: Seq<Token>)
    ensures
        verdict(s) == match stop(s) {
            Some(t) => ruling(t),
            None => if operands(s).len() == 0 {
                Err(Fault::MissingOperand)
            } else {
                Ok(Outcome::Run(Request { opts: options(s), files: operands(s) }))
            },
        },
{
    lemma_stop_is_first_end(s);
    if let Some(t) = stop(s) {
        let k = choose|k: int| first_end(s, k) && s[k] == t;
        let c = choose|c: int| first_end(s, c);
        assert(c == k);
    }
}

/// A concatenation holds what its two parts hold.
pub proof fn lemma_contains_add(a: Seq<Token>, b: Seq<Token>, t: Token)
    ensures
        (a + b).contains(t) <==> a.contains(t) || b.contains(t),
{
    let both = a + b;
    if a.contains(t) {
        let i = choose|i: int| 0 <= i < a.len() && a[i] == t;
        assert(both[i] == t);
    }
    if b.contains(t) {
        let i = choose|i: int| 0 <= i < b.len() && b[i] == t;
        assert(both[a.len() + i] == t);
    }
    if both.contains(t) {
        let i = choose|i: int| 0 <= i < both.len() && both[i] == t;
        assert(i < a.len() ==> a[i] == t);
        assert(i >= a.len() ==> b[i - a.len()] == t);
    }
}

/// Priority order keeps every token and adds none.
pub proof fn lemma_by_priority_contains(s: Seq<Token>, t: Token)
    ensures
        by_priority(s).contains(t) <==> s.contains(t),
{
    lemma_of_rank_contains(s, 0, t);
    lemma_of_rank_contains(s, 1, t);
    lemma_of_rank_contains(s, 2, t);
    lemma_contains_add(of_rank(s, 0), of_rank(s, 1), t);
    lemma_contains_add(of_rank(s, 0) + of_rank(s, 1), of_rank(s, 2), t);
}

/// Priority order keeps the options.
pub proof fn lemma_by_priority_options(s: Seq<Token>)
    ensures
        options(by_priority(s)) == options(s),
{
    assert forall|opt: Opt|
        by_priority(s).contains(token_of(opt)) <==> s.contains(token_of(opt)) by {
        lemma_by_priority_contains(s, token_of(opt));
    }
}

/// The file operands of a concatenation are those of its parts, in order.
pub proof fn lemma_operands_add(a: Seq<Token>, b: Seq<Token>)
    ensures
        operands(a + b) == operands(a) + operands(b),
    decreases b.len(),
{
    if b.len() > 0 {
        assert((a + b).drop_last() == a + b.drop_last());
        lemma_operands_add(a, b.drop_last());
        if let Token::File(path) = b.last() {
            assert((operands(a) + operands(b.drop_last())).push(path) == operands(a)
                + operands(b.drop_last()).push(path));
        }
    }
}

/// The file operands all have the last priority, and stand there in order.
pub proof fn lemma_operands_of_rank(s: Seq<Token>)
    ensures
        operands(of_rank(s, 0)) == Seq::<Seq<char>>::empty(),
        operands(of_rank(s, 1)) == Seq::<Seq<char>>::empty(),
        operands(of_rank(s, 2)) == operands(s),
    decreases s.len(),
{
    if s.len() > 0 {
        lemma_operands_of_rank(s.drop_last());
        let x = s.last();
        if rank(x) == 0 {
            assert(of_rank(s, 0).drop_last() == of_rank(s.drop_last(), 0));
        } else if rank(x) == 1 {
            assert(of_rank(s, 1).drop_last() == of_rank(s.drop_last(), 1));
        } else {
            assert(of_rank(s, 2).drop_last() == of_rank(s.drop_last(), 2));
        }
    }
}

/// Priority order keeps the file operands in the order in which they were
/// written.
pub proof fn lemma_by_priority_operands(s: Seq<Token>)
    ensures
        operands(by_priority(s)) == operands(s),
{
    lemma_operands_of_rank(s);
    lemma_operands_add(of_rank(s, 0), of_rank(s, 1));
    lemma_operands_add(of_rank(s, 0) + of_rank(s, 1), of_rank(s, 2));
}

/// Every token among those of one priority has that priority.
pub proof fn lemma_of_rank_ranked(s: Seq<Token>, r: int, i: int)
    requires
        0 <= i < of_rank(s, r).len(),
    ensures
        rank(of_rank(s, r)[i]) == r,
{
    lemma_of_rank_contains(s, r, of_rank(s, r)[i]);
}

/// Priority order is sorted: along it the priority never falls.
pub proof fn lemma_by_priority_sorted(s: Seq<Token>, i: int, j: int)
    requires
        0 <= i <= j < by_priority(s).len(),
    ensures
        rank(by_priority(s)[i]) <= rank(by_priority(s)[j]),
{
    let first = of_rank(s, 0);
    let second = of_rank(s, 1);
    if i < first.len() {
        lemma_of_rank_ranked(s, 0, i);
    } else if i < first.len() + second.len() {
        lemma_of_rank_ranked(s, 1, i - first.len());
    } else {
        lemma_of_rank_ranked(s, 2, i - first.len() - second.len());
    }
    if j < first.len() {
        lemma_of_rank_ranked(s, 0, j);
    } else if j < first.len() + second.len() {
        lemma_of_rank_ranked(s, 1, j - first.len());
    } else {
        lemma_of_rank_ranked(s, 2, j - first.len() - second.len());
    }
}

/// Priority order is a rearrangement: it holds every token as often as the
/// tokens as written hold it.
pub proof fn lemma_by_priority_rearranges(s: Seq<Token>)
    ensures
        by_priority(s).to_multiset() == s.to_multiset(),
    decreases s.len(),
{
    broadcast use vstd::seq_lib::to_multiset_build;

    let first = of_rank(s, 0);
    let second = of_rank(s, 1);
    let third = of_rank(s, 2);
    vstd::seq_lib::lemma_multiset_commutative(first, second);
    vstd::seq_lib::lemma_multiset_commutative(first + second, third);
    if s.len() == 0 {
        assert(by_priority(s) == s);
    } else {
        let front = s.drop_last();
        lemma_by_priority_rearranges(front);
        vstd::seq_lib::lemma_multiset_commutative(of_rank(front, 0), of_rank(front, 1));
        vstd::seq_lib::lemma_multiset_commutative(
            of_rank(front, 0) + of_rank(front, 1),
            of_rank(front, 2),
        );
        assert(s == front.push(s.last()));
    }
}

/// The first meta-action stands first among the tokens of first priority.
pub proof fn lemma_first_meta_leads(s: Seq<Token>)
    ensures
        first_meta(s) matches Some(m) ==> of_rank(s, 0).len() > 0 && of_rank(s, 0)[0] == m && rank(
            m,
        ) == 0,
        first_meta(s) is None ==> of_rank(s, 0).len() == 0,
    decreases s.len(),
{
    if s.len() > 0 {
        lemma_first_meta_leads(s.drop_last());
    }
}

/// File operands after the other tokens do not change where reading stops.
pub proof fn lemma_stop_before_files(a: Seq<Token>, f: Seq<Token>)
    requires
        forall|i: int| 0 <= i < f.len() ==> rank(f[i]) == 2,
    ensures
        stop(a + f) == stop(a),
    decreases f.len(),
{
    if f.len() > 0 {
        assert((a + f).drop_last() == a + f.drop_last());
        lemma_stop_before_files(a, f.drop_last());
    }
}

/// Without a meta-action, reading the options alone stops where reading all
/// the tokens stops.
pub proof fn lemma_stop_of_options(s: Seq<Token>)
    requires
        first_meta(s) is None,
    ensures
        stop(of_rank(s, 1)) == stop(s),
    decreases s.len(),
{
    if s.len() > 0 {
        let front = s.drop_last();
        lemma_stop_of_options(front);
        if rank(s.last()) == 1 {
            assert(of_rank(s, 1).drop_last() == of_rank(front, 1));
            lemma_of_rank_contains(front, 1, Token::Symlink);
            lemma_of_rank_contains(front, 1, Token::Copy);
        }
    }
}

/// Priority order matters for meta-actions only: the first of them decides
/// wherever it stands, and without one the result is that of reading the
/// tokens as they were written.
pub proof fn lemma_priority_serves_meta_actions(s: Seq<Token>)
    ensures
        verdict(by_priority(s)) == match first_meta(s) {
            Some(m) => ruling(m),
            None => verdict(s),
        },
{
    let sorted = by_priority(s);
    lemma_first_meta_leads(s);
    match first_meta(s) {
        Some(m) => {
            assert(first_end(sorted, 0));
            let c = choose|c: int| first_end(sorted, c);
            assert(c == 0);
        },
        None => {
            let o = of_rank(s, 1);
            let f = of_rank(s, 2);
            assert forall|i: int| 0 <= i < f.len() implies rank(f[i]) == 2 by {
                lemma_of_rank_contains(s, 2, f[i]);
            }
            lemma_stop_before_files(o, f);
            lemma_stop_of_options(s);
            lemma_by_priority_options(s);
            lemma_by_priority_operands(s);
            lemma_verdict_by_stop(sorted);
            lemma_verdict_by_stop(s);
        },
    }
}

/// Collapsing runs of equal neighbours keeps every item and adds none.
pub proof fn lemma_collapse_contains(items: Seq<Seq<char>>, x: Seq<char>)
    ensures
        collapse(items).contains(x) <==> items.contains(x),
    decreases items.len(),
{
    if items.len() > 1 {
        let front = items.drop_last();
        lemma_collapse_contains(front, x);
        assert(items == front.push(items.last()));
        lemma_contains_push(front, items.last(), x);
        if items[items.len() - 2] != items.last() {
            lemma_contains_push(collapse(front), items.last(), x);
        }
    }
}

/// What the long-flag literals hold: each starts with two dashes and has
/// more than two characters.
pub proof fn lemma_long_flags_look_long(raw: Seq<char>)
    requires
        long_flag(raw) is Some,
    ensures
        looks_long(raw),
{
    reveal_strlit("--recursive");
    reveal_strlit("--help");
    reveal_strlit("--dry-run");
    reveal_strlit("--copy");
    reveal_strlit("--symlink");
    reveal_strlit("--no-confirm");
    reveal_strlit("--git-dir");
    reveal_strlit("--verbose");
    reveal_strlit("--version");
}

/// `--help` and `-h` both stand for the request for help.
pub proof fn lemma_help_forms()
    ensures
        interpret("--help"@) == seq![Ok::<Token, Fault>(Token::Help)],
        interpret("-h"@) == seq![Ok::<Token, Fault>(Token::Help)],
{
    reveal_strlit("--recursive");
    reveal_strlit("--help");
    reveal_strlit("-h");
    assert("--recursive"@.len() == 11 && "--help"@.len() == 6);
    let short = "-h"@;
    assert(long_flag(short) is None) by {
        if long_flag(short) is Some {
            lemma_long_flags_look_long(short);
        }
    }
}

/// Every result of interpreting one raw token is among the results of
/// interpreting them all.
pub proof fn lemma_interpret_all_holds(raws: Seq<Seq<char>>, i: int, j: int)
    requires
        0 <= i < raws.len(),
        0 <= j < interpret(raws[i]).len(),
    ensures
        interpret_all(raws).contains(interpret(raws[i])[j]),
    decreases raws.len(),
{
    let front = raws.drop_last();
    let whole = interpret_all(raws);
    if i == raws.len() - 1 {
        assert(whole[interpret_all(front).len() + j] == interpret(raws[i])[j]);
    } else {
        lemma_interpret_all_holds(front, i, j);
        let k = choose|k: int|
            0 <= k < interpret_all(front).len() && interpret_all(front)[k] == interpret(raws[i])[j];
        assert(whole[k] == interpret(raws[i])[j]);
    }
}

/// Where gathering succeeds, every result is a token, and the tokens are
/// gathered in order.
pub proof fn lemma_gather_all(results: Seq<Result<Token, Fault>>)
    ensures
        gather(results) matches Ok(found) ==> found.len() == results.len() && forall|i: int|
            0 <= i < results.len() ==> results[i] == Ok::<Token, Fault>(#[trigger] found[i]),
    decreases results.len(),
{
    if results.len() > 0 {
        lemma_gather_all(results.drop_last());
    }
}

/// Where a meta-action is among the tokens, there is a first one.
pub proof fn lemma_first_meta_exists(s: Seq<Token>, i: int)
    requires
        0 <= i < s.len(),
        rank(s[i]) == 0,
    ensures
        first_meta(s) matches Some(m) && rank(m) == 0,
    decreases s.len(),
{
    if i < s.len() - 1 {
        lemma_first_meta_exists(s.drop_last(), i);
    } else {
        lemma_first_meta_ranked(s.drop_last());
    }
}

/// The first meta-action is a meta-action.
pub proof fn lemma_first_meta_ranked(s: Seq<Token>)
    ensures
        first_meta(s) matches Some(m) ==> rank(m) == 0 && s.contains(m),
    decreases s.len(),
{
    if s.len() > 0 {
        lemma_first_meta_ranked(s.drop_last());
        if let Some(m) = first_meta(s.drop_last()) {
            let k = choose|k: int| 0 <= k < s.drop_last().len() && s.drop_last()[k] == m;
            assert(s[k] == m);
        } else if rank(s.last()) == 0 {
            assert(s[s.len() - 1] == s.last());
        }
    }
}

/// A request for help is met wherever it stands.
///
/// On a command line all of whose raw tokens can be interpreted and one of
/// which is `--help` or `-h`, the invocation succeeds with a meta-action: it
/// shows the usage text, or the version where that was asked for first, and
/// no file is relocated.
pub proof fn lemma_help_wins(raws: Seq<Seq<char>>)
    requires
        raws.contains("--help"@) || raws.contains("-h"@),
        gather(interpret_all(collapse(raws))) is Ok,
    ensures
        invocation(raws) == parse(raws),
        parse(raws) == Ok::<Outcome, Fault>(Outcome::ShowHelp) || parse(raws) == Ok::<
            Outcome,
            Fault,
        >(Outcome::ShowVersion),
{
    let found = gather(interpret_all(collapse(raws)))->Ok_0;
    let form = if raws.contains("--help"@) {
        "--help"@
    } else {
        "-h"@
    };
    lemma_help_forms();
    lemma_gathered_holds(raws, form, Token::Help);
    let k = choose|k: int| 0 <= k < found.len() && found[k] == Token::Help;
    lemma_first_meta_exists(found, k);
    lemma_priority_serves_meta_actions(found);
}

/// Whether the reserved option stands at `g` before both modes were read.
pub open spec fn reserved_comes_first(s: Seq<Token>, g: int) -> bool {
    &&& 0 <= g < s.len()
    &&& s[g] == Token::GitDir
    &&& !(s.take(g).contains(Token::Copy) && s.take(g).contains(Token::Symlink))
}

/// Copy and symlink clash, in whatever form and order they were written.
///
/// Tokens that hold both modes resolve to the conflict failure, unless a
/// meta-action is among them (it is met first) or the reserved option stands
/// before the second of the two modes (it is refused first).
pub proof fn lemma_modes_clash(found: Seq<Token>)
    requires
        found.contains(Token::Copy),
        found.contains(Token::Symlink),
        !found.contains(Token::Help),
        !found.contains(Token::Version),
        forall|g: int| !reserved_comes_first(found, g),
    ensures
        verdict(by_priority(found)) == Err::<Outcome, Fault>(Fault::ConflictingOptions),
{
    lemma_first_meta_ranked(found);
    lemma_priority_serves_meta_actions(found);
    lemma_both_modes_end(found);
    lemma_stop_is_first_end(found);
    lemma_verdict_by_stop(found);
    let t = stop(found)->Some_0;
    let k = choose|k: int| first_end(found, k) && found[k] == t;
    if t == Token::GitDir {
        assert(!reserved_comes_first(found, k));
        lemma_both_modes_end(found.take(k));
        let j = choose|j: int| 0 <= j < found.take(k).len() && ends_reading(found.take(k), j);
        lemma_ends_reading_prefix(found, k, j);
        assert(false);
    }
}

/// `--copy` and `--symlink` stand for the two modes.
pub proof fn lemma_mode_forms()
    ensures
        interpret("--copy"@) == seq![Ok::<Token, Fault>(Token::Copy)],
        interpret("--symlink"@) == seq![Ok::<Token, Fault>(Token::Symlink)],
{
    reveal_strlit("--recursive");
    reveal_strlit("--help");
    reveal_strlit("--dry-run");
    reveal_strlit("--copy");
    reveal_strlit("--symlink");
    assert("--help"@[2] == 'h' && "--copy"@[2] == 'c');
    assert("--dry-run"@[2] == 'd' && "--symlink"@[2] == 's');
}

/// Where gathering succeeds, a raw token that stands for one token leaves
/// that token among those gathered.
pub proof fn lemma_gathered_holds(raws: Seq<Seq<char>>, raw: Seq<char>, t: Token)
    requires
        raws.contains(raw),
        interpret(raw) == seq![Ok::<Token, Fault>(t)],
        gather(interpret_all(collapse(raws))) is Ok,
    ensures
        gather(interpret_all(collapse(raws)))->Ok_0.contains(t),
{
    let kept = collapse(raws);
    let results = interpret_all(kept);
    let found = gather(results)->Ok_0;
    lemma_collapse_contains(raws, raw);
    let i = choose|i: int| 0 <= i < kept.len() && kept[i] == raw;
    lemma_interpret_all_holds(kept, i, 0);
    let k = choose|k: int| 0 <= k < results.len() && results[k] == Ok::<Token, Fault>(t);
    lemma_gather_all(results);
    assert(found[k] == t);
}

/// `--copy` together with `--symlink` fails with the conflict, in either
/// order and however often they are repeated.
///
/// This holds of every command line all of whose raw tokens can be
/// interpreted, that asks for no meta-action, and on which the reserved
/// option does not stand before the second of the two modes.
pub proof fn lemma_copy_symlink_conflict(raws: Seq<Seq<char>>)
    requires
        raws.contains("--copy"@),
        raws.contains("--symlink"@),
        gather(interpret_all(collapse(raws))) matches Ok(found) && !found.contains(Token::Help)
            && !found.contains(Token::Version) && forall|g: int| !reserved_comes_first(found, g),
    ensures
        parse(raws) == Err::<Outcome, Fault>(Fault::ConflictingOptions),
        invocation(raws) == parse(raws),
{
    lemma_mode_forms();
    lemma_gathered_holds(raws, "--copy"@, Token::Copy);
    lemma_gathered_holds(raws, "--symlink"@, Token::Symlink);
    lemma_modes_clash(gather(interpret_all(collapse(raws)))->Ok_0);
}

/// The raw token of a bundle: a dash, then the flags.
pub open spec fn bundle(flags: Seq<char>) -> Seq<char> {
    seq!['-'] + flags
}

/// The flags of a bundle, each written as a raw token of its own.
pub open spec fn spelled_out(flags: Seq<char>) -> Seq<Seq<char>> {
    flags.map_values(|c: char| seq!['-', c])
}

/// Whether every character is in the short-flag table.
pub open spec fn all_flags(flags: Seq<char>) -> bool {
    forall|i: int| 0 <= i < flags.len() ==> short_flag(#[trigger] flags[i]) is Some
}

/// The tokens that the characters of a bundle stand for.
pub open spec fn flag_tokens(flags: Seq<char>) -> Seq<Token> {
    flags.map_values(|c: char| short_flag(c)->Some_0)
}

/// A dash followed by flags is read as a bundle, whether it holds one flag or
/// many.
pub proof fn lemma_bundle_is_read_as_flags(flags: Seq<char>)
    requires
        flags.len() > 0,
        all_flags(flags),
    ensures
        interpret(bundle(flags)) == short_forms(flags),
{
    let raw = bundle(flags);
    if long_flag(raw) is Some {
        lemma_long_flags_look_long(raw);
    }
}

/// The flags of a bundle, each on its own, are interpreted as the bundle is.
pub proof fn lemma_spelled_out_is_read_as_flags(flags: Seq<char>)
    requires
        all_flags(flags),
    ensures
        interpret_all(spelled_out(flags)) == short_forms(flags),
    decreases flags.len(),
{
    if flags.len() > 0 {
        let front = flags.drop_last();
        let c = flags.last();
        lemma_spelled_out_is_read_as_flags(front);
        assert(spelled_out(flags).drop_last() == spelled_out(front));
        assert(seq!['-', c] == bundle(seq![c]));
        lemma_bundle_is_read_as_flags(seq![c]);
    }
}

/// Valid flags are gathered as their tokens.
pub proof fn lemma_flags_gather(flags: Seq<char>)
    requires
        all_flags(flags),
    ensures
        gather(short_forms(flags)) == Ok::<Seq<Token>, Fault>(flag_tokens(flags)),
    decreases flags.len(),
{
    if flags.len() > 0 {
        let front = flags.drop_last();
        lemma_flags_gather(front);
        assert(short_forms(flags).drop_last() == short_forms(front));
        assert(flag_tokens(front).push(short_flag(flags.last())->Some_0) == flag_tokens(flags));
    } else {
        assert(flag_tokens(flags) == Seq::<Token>::empty());
    }
}

/// Writing a token a second time right after itself changes neither the
/// first meta-action, nor where reading stops, nor the options.
pub proof fn lemma_repeat_changes_nothing(s: Seq<Token>)
    requires
        s.len() > 0,
    ensures
        first_meta(s.push(s.last())) == first_meta(s),
        stop(s.push(s.last())) == stop(s),
        options(s.push(s.last())) == options(s),
{
    let t = s.last();
    let twice = s.push(t);
    assert(twice.drop_last() == s);
    lemma_options_push(s, t);
    if stop(s) is None {
        assert(s == s.drop_last().push(t));
        lemma_contains_push(s.drop_last(), t, Token::Copy);
        lemma_contains_push(s.drop_last(), t, Token::Symlink);
    }
}

/// One more token changes the first meta-action, the place where reading
/// stops and the options in a way that depends on these three alone.
pub proof fn lemma_push_goes_by_summary(a: Seq<Token>, b: Seq<Token>, t: Token)
    requires
        first_meta(a) == first_meta(b),
        stop(a) == stop(b),
        options(a) == options(b),
    ensures
        first_meta(a.push(t)) == first_meta(b.push(t)),
        stop(a.push(t)) == stop(b.push(t)),
        options(a.push(t)) == options(b.push(t)),
{
    assert(a.push(t).drop_last() == a);
    assert(b.push(t).drop_last() == b);
    lemma_options_push(a, t);
    lemma_options_push(b, t);
    assert(a.contains(Token::Copy) == b.contains(Token::Copy)) by {
        assert(options(a).contains(Opt::Copy) == a.contains(token_of(Opt::Copy)));
    }
    assert(a.contains(Token::Symlink) == b.contains(Token::Symlink)) by {
        assert(options(a).contains(Opt::Symlink) == a.contains(token_of(Opt::Symlink)));
    }
}

/// The tokens of flags that are each written on their own, after equal
/// neighbours are collapsed, agree with the tokens of the bundle in
/// everything that a resolution depends on.
pub proof fn lemma_spelled_out_summary(flags: Seq<char>)
    requires
        all_flags(flags),
    ensures
        gather(interpret_all(collapse(spelled_out(flags)))) matches Ok(apart) && first_meta(apart)
            == first_meta(flag_tokens(flags)) && stop(apart) == stop(flag_tokens(flags))
            && options(apart) == options(flag_tokens(flags)) && operands(apart) == Seq::<
            Seq<char>,
        >::empty(),
    decreases flags.len(),
{
    let raws = spelled_out(flags);
    if flags.len() > 0 {
        let front = flags.drop_last();
        let c = flags.last();
        let t = short_flag(c)->Some_0;
        lemma_spelled_out_summary(front);
        assert(raws.drop_last() == spelled_out(front));
        assert(flag_tokens(flags) == flag_tokens(front).push(t));
        let kept = collapse(spelled_out(front));
        let apart = gather(interpret_all(kept))->Ok_0;
        if flags.len() == 1 || raws[raws.len() - 2] != raws.last() {
            assert(kept.push(seq!['-', c]).drop_last() == kept);
            assert(seq!['-', c] == bundle(seq![c]));
            lemma_bundle_is_read_as_flags(seq![c]);
            assert(short_forms(seq![c]) == seq![short_form(c)]);
            lemma_gather_add(interpret_all(kept), seq![short_form(c)]);
            lemma_flags_gather(seq![c]);
            assert(flag_tokens(seq![c]) == seq![t]);
            assert(apart + seq![t] == apart.push(t));
            lemma_push_goes_by_summary(apart, flag_tokens(front), t);
            assert(apart.push(t).drop_last() == apart);
        } else {
            lemma_repeat_changes_nothing(flag_tokens(front));
        }
    }
}

/// The tokens of a bundle hold no file operand.
pub proof fn lemma_flags_name_no_file(flags: Seq<char>)
    requires
        all_flags(flags),
    ensures
        operands(flag_tokens(flags)) == Seq::<Seq<char>>::empty(),
    decreases flags.len(),
{
    if flags.len() > 0 {
        lemma_flags_name_no_file(flags.drop_last());
        assert(flag_tokens(flags).drop_last() == flag_tokens(flags.drop_last()));
    }
}

/// A bundle of short flags means what its flags mean one by one.
///
/// For flags that are all in the short-flag table, the bundle is interpreted
/// as the tokens of the flags in order; the command line that holds the
/// bundle alone and the one that holds each flag as a token of its own have
/// the same options and resolve alike, so that a clash of modes is found in
/// both or in neither.
pub proof fn lemma_bundle_as_flags(flags: Seq<char>)
    requires
        flags.len() > 0,
        all_flags(flags),
    ensures
        interpret(bundle(flags)) == interpret_all(spelled_out(flags)),
        gather(interpret(bundle(flags))) == Ok::<Seq<Token>, Fault>(flag_tokens(flags)),
        gather(interpret_all(collapse(spelled_out(flags)))) matches Ok(apart) && options(apart)
            == options(flag_tokens(flags)),
        parse(seq![bundle(flags)]) == parse(spelled_out(flags)),
{
    lemma_bundle_is_read_as_flags(flags);
    lemma_spelled_out_is_read_as_flags(flags);
    lemma_flags_gather(flags);
    lemma_spelled_out_summary(flags);
    lemma_flags_name_no_file(flags);
    let together = flag_tokens(flags);
    let apart = gather(interpret_all(collapse(spelled_out(flags))))->Ok_0;
    let alone = seq![bundle(flags)];
    assert(interpret_all(alone) == interpret(bundle(flags))) by {
        assert(interpret_all(alone.drop_last()) == Seq::<Result<Token, Fault>>::empty());
        assert(Seq::<Result<Token, Fault>>::empty() + interpret(bundle(flags)) == interpret(
            bundle(flags),
        ));
    }
    lemma_priority_serves_meta_actions(together);
    lemma_priority_serves_meta_actions(apart);
    lemma_verdict_by_stop(together);
    lemma_verdict_by_stop(apart);
}

} // verus!
