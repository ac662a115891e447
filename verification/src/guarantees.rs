//! What holds of every outcome of a search.

use crate::search::{
    candidate_matches, comes_before, date_text, in_window, is_first_match, is_hit, is_outcome,
    no_match, outcome_of, row_clear, OutcomeModel, Strategy,
};
use crate::hash::{begins_with, commit_hash};
use crate::search::candidate_text;
use crate::template::{
    baseline_of, render, spells_timestamps, template_keeps_text, template_of, BaselineModel,
    PieceModel,
};
use vstd::prelude::*;

verus! {

/// The dates `committer_date` and `author_date` are those of the timestamps
/// `committer` and `author` in the baseline's time zones.
pub open spec fn dates_of(
    b: BaselineModel,
    committer_date: Seq<u8>,
    author_date: Seq<u8>,
    author: int,
    committer: int,
) -> bool {
    committer_date == date_text(committer, b.committer_tz) && author_date == date_text(
        author,
        b.author_tz,
    )
}

/// The offsets `a` and `c` lie in the window, are not both zero, and give the
/// two dates.
pub open spec fn offsets_of(
    b: BaselineModel,
    lower: int,
    upper: int,
    committer_date: Seq<u8>,
    author_date: Seq<u8>,
    a: int,
    c: int,
) -> bool {
    &&& in_window(lower, upper, a, c)
    &&& !(a == 0 && c == 0)
    &&& dates_of(b, committer_date, author_date, b.author_timestamp + a, b.committer_timestamp + c)
}

/// The candidate with both offsets zero is the commit itself, where the
/// commit's header lines spell the timestamps of its baseline in plain
/// decimal.
pub proof fn unchanged_candidate_is_the_commit(text: Seq<u8>)
    requires
        spells_timestamps(
            text,
            0,
            baseline_of(text).author_timestamp,
            baseline_of(text).committer_timestamp,
        ),
    ensures
        candidate_text(template_of(text), baseline_of(text), 0, 0) == text,
{
    template_keeps_text(
        text,
        baseline_of(text).author_timestamp,
        baseline_of(text).committer_timestamp,
    );
}

/// A match that a strategy admits lies in the window and matches.
pub proof fn hit_is_candidate(
    t: Seq<PieceModel>,
    b: BaselineModel,
    p: Seq<u8>,
    lower: int,
    upper: int,
    strategy: Strategy,
    a: int,
    c: int,
)
    requires
        is_hit(t, b, p, lower, upper, strategy, a, c),
    ensures
        in_window(lower, upper, a, c),
        candidate_matches(t, b, p, a, c),
{
}

/// Whatever the strategy, the dates of a `Found` outcome are the dates of two
/// timestamps which, put into the template, give a commit whose hash begins
/// with the prefix.
pub proof fn found_dates_give_prefix(
    t: Seq<PieceModel>,
    b: BaselineModel,
    p: Seq<u8>,
    lower: int,
    upper: int,
    strategy: Strategy,
    committer_date: Seq<u8>,
    author_date: Seq<u8>,
)
    requires
        is_outcome(t, b, p, lower, upper, strategy, OutcomeModel::Found(committer_date, author_date)),
    ensures
        exists|author: int, committer: int| #[trigger]
            dates_of(b, committer_date, author_date, author, committer) && begins_with(
                commit_hash(render(t, author, committer)),
                p,
            ),
{
    let (a, c) = choose|a: int, c: int|
        #[trigger] is_hit(t, b, p, lower, upper, strategy, a, c) && OutcomeModel::Found(
            committer_date,
            author_date,
        ) == outcome_of(b, Some((a, c)));
    hit_is_candidate(t, b, p, lower, upper, strategy, a, c);
    assert(dates_of(
        b,
        committer_date,
        author_date,
        b.author_timestamp + a,
        b.committer_timestamp + c,
    ));
}

/// Whatever the strategy, the dates of a `Found` outcome come from offsets
/// `a` and `c` with `lower <= a <= c <= upper` that are not both zero.
pub proof fn found_offsets_in_window(
    t: Seq<PieceModel>,
    b: BaselineModel,
    p: Seq<u8>,
    lower: int,
    upper: int,
    strategy: Strategy,
    committer_date: Seq<u8>,
    author_date: Seq<u8>,
)
    requires
        is_outcome(t, b, p, lower, upper, strategy, OutcomeModel::Found(committer_date, author_date)),
    ensures
        exists|a: int, c: int| #[trigger]
            offsets_of(b, lower, upper, committer_date, author_date, a, c),
{
    let (a, c) = choose|a: int, c: int|
        #[trigger] is_hit(t, b, p, lower, upper, strategy, a, c) && OutcomeModel::Found(
            committer_date,
            author_date,
        ) == outcome_of(b, Some((a, c)));
    hit_is_candidate(t, b, p, lower, upper, strategy, a, c);
    assert(offsets_of(b, lower, upper, committer_date, author_date, a, c));
}

/// Two first matches of one window are the same pair.
pub proof fn first_match_is_unique(
    t: Seq<PieceModel>,
    b: BaselineModel,
    p: Seq<u8>,
    lower: int,
    upper: int,
    a1: int,
    c1: int,
    a2: int,
    c2: int,
)
    requires
        is_first_match(t, b, p, lower, upper, a1, c1),
        is_first_match(t, b, p, lower, upper, a2, c2),
    ensures
        a1 == a2,
        c1 == c2,
{
    if c1 < c2 {
        assert(row_clear(t, b, p, lower, c1));
    }
    if c2 < c1 {
        assert(row_clear(t, b, p, lower, c2));
    }
}

/// A sequential search is a function of what it is given: two outcomes of the
/// same template, baseline, prefix and window are equal.
pub proof fn sequential_outcome_is_unique(
    t: Seq<PieceModel>,
    b: BaselineModel,
    p: Seq<u8>,
    lower: int,
    upper: int,
    first: OutcomeModel,
    second: OutcomeModel,
)
    requires
        is_outcome(t, b, p, lower, upper, Strategy::Sequential, first),
        is_outcome(t, b, p, lower, upper, Strategy::Sequential, second),
    ensures
        first == second,
{
    if no_match(t, b, p, lower, upper) {
        outcome_without_match(t, b, p, lower, upper, Strategy::Sequential, first);
        outcome_without_match(t, b, p, lower, upper, Strategy::Sequential, second);
    } else {
        let (a1, c1) = choose|a: int, c: int|
            #[trigger] is_hit(t, b, p, lower, upper, Strategy::Sequential, a, c) && first
                == outcome_of(b, Some((a, c)));
        let (a2, c2) = choose|a: int, c: int|
            #[trigger] is_hit(t, b, p, lower, upper, Strategy::Sequential, a, c) && second
                == outcome_of(b, Some((a, c)));
        first_match_is_unique(t, b, p, lower, upper, a1, c1, a2, c2);
    }
}

/// Where nothing in the window matches, the outcome is `Exhausted`, whatever
/// the strategy.
pub proof fn outcome_without_match(
    t: Seq<PieceModel>,
    b: BaselineModel,
    p: Seq<u8>,
    lower: int,
    upper: int,
    strategy: Strategy,
    out: OutcomeModel,
)
    requires
        is_outcome(t, b, p, lower, upper, strategy, out),
        no_match(t, b, p, lower, upper),
    ensures
        out == OutcomeModel::Exhausted,
{
    if out != OutcomeModel::Exhausted {
        let (a, c) = choose|a: int, c: int|
            #[trigger] is_hit(t, b, p, lower, upper, strategy, a, c) && out == outcome_of(
                b,
                Some((a, c)),
            );
        hit_is_candidate(t, b, p, lower, upper, strategy, a, c);
        assert(row_clear(t, b, p, lower, c));
    }
}

/// Where something in the window matches, the outcome is not `Exhausted`,
/// whatever the strategy.
pub proof fn outcome_with_match(
    t: Seq<PieceModel>,
    b: BaselineModel,
    p: Seq<u8>,
    lower: int,
    upper: int,
    strategy: Strategy,
    out: OutcomeModel,
    a: int,
    c: int,
)
    requires
        is_outcome(t, b, p, lower, upper, strategy, out),
        in_window(lower, upper, a, c),
        candidate_matches(t, b, p, a, c),
    ensures
        out != OutcomeModel::Exhausted,
{
    if no_match(t, b, p, lower, upper) {
        assert(row_clear(t, b, p, lower, c));
    }
}

/// Where the commit as it stands has the prefix and no candidate that comes
/// before it in the order of enumeration has, a sequential search returns
/// `NoOp`.
pub proof fn unchanged_commit_gives_noop(
    t: Seq<PieceModel>,
    b: BaselineModel,
    p: Seq<u8>,
    lower: int,
    upper: int,
    out: OutcomeModel,
)
    requires
        is_outcome(t, b, p, lower, upper, Strategy::Sequential, out),
        lower <= 0 <= upper,
        candidate_matches(t, b, p, 0, 0),
        forall|a: int, c: int|
            in_window(lower, upper, a, c) && comes_before(a, c, 0, 0)
                ==> !#[trigger] candidate_matches(t, b, p, a, c),
    ensures
        out == OutcomeModel::NoOp,
{
    outcome_with_match(t, b, p, lower, upper, Strategy::Sequential, out, 0, 0);
    let (a, c) = choose|a: int, c: int|
        #[trigger] is_hit(t, b, p, lower, upper, Strategy::Sequential, a, c) && out == outcome_of(
            b,
            Some((a, c)),
        );
    if c > 0 {
        assert(row_clear(t, b, p, lower, 0));
    }
}

/// A window that holds the offset 0 alone has one candidate: the outcome is
/// `NoOp` where the commit as it stands has the prefix and `Exhausted` where
/// it has not, whatever the strategy.
pub proof fn single_candidate_window(
    t: Seq<PieceModel>,
    b: BaselineModel,
    p: Seq<u8>,
    strategy: Strategy,
    out: OutcomeModel,
)
    requires
        is_outcome(t, b, p, 0, 0, strategy, out),
    ensures
        forall|a: int, c: int| in_window(0, 0, a, c) <==> a == 0 && c == 0,
        candidate_matches(t, b, p, 0, 0) ==> out == OutcomeModel::NoOp,
        !candidate_matches(t, b, p, 0, 0) ==> out == OutcomeModel::Exhausted,
{
    if candidate_matches(t, b, p, 0, 0) {
        outcome_with_match(t, b, p, 0, 0, strategy, out, 0, 0);
        let (a, c) = choose|a: int, c: int|
            #[trigger] is_hit(t, b, p, 0, 0, strategy, a, c) && out == outcome_of(b, Some((a, c)));
        hit_is_candidate(t, b, p, 0, 0, strategy, a, c);
    } else {
        assert(row_clear(t, b, p, 0, 0));
        assert(no_match(t, b, p, 0, 0));
        outcome_without_match(t, b, p, 0, 0, strategy, out);
    }
}

} // verus!
