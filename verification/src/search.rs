//! The search: which pair of offsets, added to a commit's timestamps, gives
//! its hash the wanted prefix.

use crate::decimal::{decimal_text, push_decimal};
use crate::estimate::{capped, row_count, rows_total, Progress};
use crate::hash::{begins_with, commit_hash, git_commit_hash, starts_with};
use crate::template::{
    append_range, baseline_of, commit_to_format, render, template_of, BaselineModel,
    CommitTemplate, PieceModel, TimestampBaseline,
};
use vstd::prelude::*;

verus! {

/// How a search ended.
#[derive(Debug, PartialEq, Eq)]
pub enum SearchResult {
    /// The commit as it stands already has the prefix.
    NoOp,
    /// The committer date and the author date to give the commit.
    Found(Vec<u8>, Vec<u8>),
    /// No pair of offsets in the window gives the prefix.
    Exhausted,
}

/// What a `SearchResult` stands for.
pub enum OutcomeModel {
    NoOp,
    Found(Seq<u8>, Seq<u8>),
    Exhausted,
}

impl View for SearchResult {
    type V = OutcomeModel;

    open spec fn view(&self) -> OutcomeModel {
        match self {
            SearchResult::NoOp => OutcomeModel::NoOp,
            SearchResult::Found(committer, author) => OutcomeModel::Found(committer@, author@),
            SearchResult::Exhausted => OutcomeModel::Exhausted,
        }
    }
}

/// Why a search was not made.
#[derive(Clone, Copy, Debug, PartialEq, Eq)]
pub enum SearchError {
    /// The prefix is empty or holds something other than `0-9a-f`.
    InvalidPrefix,
    /// The window's lower bound lies above its upper bound.
    InvalidRange,
    /// No pair of offsets in the window gives the prefix.
    SearchExhausted,
}

/// In which order the rows of the window are searched.
#[derive(Clone, Copy, Debug, PartialEq, Eq)]
pub enum Strategy {
    /// Row after row; the first match in the order of enumeration is returned.
    Sequential,
    /// Rows side by side; the first match of some row is returned.
    Parallel,
}

pub open spec fn is_hex_digit(b: u8) -> bool {
    48 <= b <= 57 || 97 <= b <= 102
}

/// A prefix is valid when it is not empty and made of lowercase hex digits.
pub open spec fn valid_prefix(prefix: Seq<u8>) -> bool {
    prefix.len() > 0 && forall|i: int| 0 <= i < prefix.len() ==> is_hex_digit(#[trigger] prefix[i])
}

/// The commit text of the candidate with offsets `a` (author) and `c`
/// (committer).
pub open spec fn candidate_text(
    t: Seq<PieceModel>,
    b: BaselineModel,
    a: int,
    c: int,
) -> Seq<u8> {
    render(t, b.author_timestamp + a, b.committer_timestamp + c)
}

/// Whether the candidate's hash begins with the prefix.
pub open spec fn candidate_matches(
    t: Seq<PieceModel>,
    b: BaselineModel,
    p: Seq<u8>,
    a: int,
    c: int,
) -> bool {
    begins_with(commit_hash(candidate_text(t, b, a, c)), p)
}

/// The candidates of a window: the author's offset never above the
/// committer's, both within the bounds.
pub open spec fn in_window(lower: int, upper: int, a: int, c: int) -> bool {
    lower <= a <= c <= upper
}

/// The order of enumeration: by the committer's offset, then the author's.
pub open spec fn comes_before(a1: int, c1: int, a2: int, c2: int) -> bool {
    c1 < c2 || (c1 == c2 && a1 < a2)
}

/// No candidate of row `c` matches.
pub open spec fn row_clear(
    t: Seq<PieceModel>,
    b: BaselineModel,
    p: Seq<u8>,
    lower: int,
    c: int,
) -> bool {
    forall|a: int| lower <= a <= c ==> !#[trigger] candidate_matches(t, b, p, a, c)
}

/// `a` is the first match of row `c`.
pub open spec fn is_row_first(
    t: Seq<PieceModel>,
    b: BaselineModel,
    p: Seq<u8>,
    lower: int,
    a: int,
    c: int,
) -> bool {
    &&& lower <= a <= c
    &&& candidate_matches(t, b, p, a, c)
    &&& forall|a2: int| lower <= a2 < a ==> !#[trigger] candidate_matches(t, b, p, a2, c)
}

/// `(a, c)` is the first match of the window in the order of enumeration.
pub open spec fn is_first_match(
    t: Seq<PieceModel>,
    b: BaselineModel,
    p: Seq<u8>,
    lower: int,
    upper: int,
    a: int,
    c: int,
) -> bool {
    &&& lower <= c <= upper
    &&& is_row_first(t, b, p, lower, a, c)
    &&& forall|c2: int| lower <= c2 < c ==> #[trigger] row_clear(t, b, p, lower, c2)
}

/// `(a, c)` is the first match of its row, a row of the window.
pub open spec fn is_some_match(
    t: Seq<PieceModel>,
    b: BaselineModel,
    p: Seq<u8>,
    lower: int,
    upper: int,
    a: int,
    c: int,
) -> bool {
    lower <= c <= upper && is_row_first(t, b, p, lower, a, c)
}

/// No candidate of the window matches.
pub open spec fn no_match(
    t: Seq<PieceModel>,
    b: BaselineModel,
    p: Seq<u8>,
    lower: int,
    upper: int,
) -> bool {
    forall|c: int| lower <= c <= upper ==> #[trigger] row_clear(t, b, p, lower, c)
}

/// What a search with the given strategy may return as its match.
pub open spec fn is_hit(
    t: Seq<PieceModel>,
    b: BaselineModel,
    p: Seq<u8>,
    lower: int,
    upper: int,
    strategy: Strategy,
    a: int,
    c: int,
) -> bool {
    match strategy {
        Strategy::Sequential => is_first_match(t, b, p, lower, upper, a, c),
        Strategy::Parallel => is_some_match(t, b, p, lower, upper, a, c),
    }
}

/// A date as it is handed to the version-control system: the timestamp in
/// decimal, a space, the time zone.
pub open spec fn date_text(stamp: int, tz: Seq<u8>) -> Seq<u8> {
    decimal_text(stamp) + seq![32u8] + tz
}

/// The outcome that a match, or the lack of one, stands for.
pub open spec fn outcome_of(b: BaselineModel, hit: Option<(int, int)>) -> OutcomeModel {
    match hit {
        None => OutcomeModel::Exhausted,
        Some((a, c)) => if a == 0 && c == 0 {
            OutcomeModel::NoOp
        } else {
            OutcomeModel::Found(
                date_text(b.committer_timestamp + c, b.committer_tz),
                date_text(b.author_timestamp + a, b.author_tz),
            )
        },
    }
}

/// `out` is what a search of the window with the given strategy may return:
/// the outcome of a match that the strategy admits, or `Exhausted` where
/// nothing matches.
pub open spec fn is_outcome(
    t: Seq<PieceModel>,
    b: BaselineModel,
    p: Seq<u8>,
    lower: int,
    upper: int,
    strategy: Strategy,
    out: OutcomeModel,
) -> bool {
    ||| no_match(t, b, p, lower, upper) && out == OutcomeModel::Exhausted
    ||| exists|a: int, c: int|
        #[trigger] is_hit(t, b, p, lower, upper, strategy, a, c) && out == outcome_of(
            b,
            Some((a, c)),
        )
}

/// Tells whether a prefix is valid.
pub fn is_valid_prefix(prefix: &[u8]) -> (r: bool)
    ensures
        r == valid_prefix(prefix@),
{
    if prefix.len() == 0 {
        return false;
    }
    let mut i: usize = 0;
    while i < prefix.len()
        invariant
            i <= prefix@.len(),
            forall|k: int| 0 <= k < i ==> is_hex_digit(#[trigger] prefix@[k]),
        decreases prefix@.len() - i,
    {
        let b: u8 = prefix[i];
        if !((48 <= b && b <= 57) || (97 <= b && b <= 102)) {
            return false;
        }
        i += 1;
    }
    true
}

/// Hashes one candidate and tells whether its hash begins with the prefix.
pub fn candidate_hits(
    template: &CommitTemplate,
    baseline: &TimestampBaseline,
    prefix: &[u8],
    author_offset: i64,
    committer_offset: i64,
) -> (r: bool)
    ensures
        r == candidate_matches(
            template@,
            baseline@,
            prefix@,
            author_offset as int,
            committer_offset as int,
        ),
{
    let author: i128 = baseline.author_timestamp as i128 + author_offset as i128;
    let committer: i128 = baseline.committer_timestamp as i128 + committer_offset as i128;
    let commit = template.fill(author, committer);
    let hash = git_commit_hash(commit.as_slice());
    starts_with(hash.as_slice(), prefix)
}

/// Searches one row: the candidates with the committer's offset `c`, by
/// ascending author's offset. Returns the first that matches, as the pair of
/// the author's and the committer's offset.
pub fn search_row(
    template: &CommitTemplate,
    baseline: &TimestampBaseline,
    prefix: &[u8],
    lower: i64,
    c: i64,
) -> (r: Option<(i64, i64)>)
    ensures
        match r {
            Some(hit) => hit.1 == c && is_row_first(
                template@,
                baseline@,
                prefix@,
                lower as int,
                hit.0 as int,
                c as int,
            ),
            None => row_clear(template@, baseline@, prefix@, lower as int, c as int),
        },
{
    if lower > c {
        return None;
    }
    let mut a: i64 = lower;
    loop
        invariant
            lower <= a <= c,
            forall|a2: int|
                lower <= a2 < a ==> !#[trigger] candidate_matches(
                    template@,
                    baseline@,
                    prefix@,
                    a2,
                    c as int,
                ),
        decreases c - a,
    {
        if candidate_hits(template, baseline, prefix, a, c) {
            return Some((a, c));
        }
        if a == c {
            return None;
        }
        a += 1;
    }
}

/// Searches the window row after row and returns the first match in the
/// order of enumeration. Each row that is done, the one with the match too,
/// advances `progress` once by the number of its candidates.
pub fn find_first_match(
    template: &CommitTemplate,
    baseline: &TimestampBaseline,
    prefix: &[u8],
    lower: i64,
    upper: i64,
    progress: &mut Progress,
) -> (r: Option<(i64, i64)>)
    ensures
        match r {
            Some(hit) => is_first_match(
                template@,
                baseline@,
                prefix@,
                lower as int,
                upper as int,
                hit.0 as int,
                hit.1 as int,
            ) && final(progress).done == capped(
                old(progress).done + rows_total(lower as int, hit.1 as int),
            ),
            None => no_match(template@, baseline@, prefix@, lower as int, upper as int)
                && final(progress).done == capped(
                old(progress).done + rows_total(lower as int, upper as int),
            ),
        },
{
    if lower > upper {
        return None;
    }
    let mut c: i64 = lower;
    loop
        invariant
            lower <= c <= upper,
            forall|c2: int|
                lower <= c2 < c ==> #[trigger] row_clear(
                    template@,
                    baseline@,
                    prefix@,
                    lower as int,
                    c2,
                ),
            progress.done == capped(old(progress).done + rows_total(lower as int, c - 1)),
        decreases upper - c,
    {
        let found = search_row(template, baseline, prefix, lower, c);
        progress.advance(row_count(lower, c));
        if found.is_some() {
            return found;
        }
        if c == upper {
            return None;
        }
        c += 1;
    }
}

/// `rayon::iter::ParallelIterator::find_map_any` on the rows `lower..=upper`,
/// with `search_row` as the operation. It returns what the operation gave
/// for some row where that was a match, and `None` only where it gave none
/// for every row. Which row's match comes back is left open.
#[verifier::external_body]
fn find_in_any_row(
    template: &CommitTemplate,
    baseline: &TimestampBaseline,
    prefix: &[u8],
    lower: i64,
    upper: i64,
) -> (r: Option<(i64, i64)>)
    ensures
        match r {
            Some(hit) => is_some_match(
                template@,
                baseline@,
                prefix@,
                lower as int,
                upper as int,
                hit.0 as int,
                hit.1 as int,
            ),
            None => no_match(template@, baseline@, prefix@, lower as int, upper as int),
        },
{
    rayon::iter::ParallelIterator::find_map_any(
        rayon::iter::IntoParallelIterator::into_par_iter(lower..=upper),
        |c: i64| search_row(template, baseline, prefix, lower, c),
    )
}

/// Searches the rows of the window side by side and returns the first match
/// of some row.
pub fn find_any_match(
    template: &CommitTemplate,
    baseline: &TimestampBaseline,
    prefix: &[u8],
    lower: i64,
    upper: i64,
) -> (r: Option<(i64, i64)>)
    ensures
        match r {
            Some(hit) => is_some_match(
                template@,
                baseline@,
                prefix@,
                lower as int,
                upper as int,
                hit.0 as int,
                hit.1 as int,
            ),
            None => no_match(template@, baseline@, prefix@, lower as int, upper as int),
        },
{
    find_in_any_row(template, baseline, prefix, lower, upper)
}

/// Writes a date: the timestamp that the offset gives, a space, the time zone.
pub fn render_date(stamp: i64, offset: i64, tz: &Vec<u8>) -> (r: Vec<u8>)
    ensures
        r@ == date_text(stamp + offset, tz@),
{
    let mut out: Vec<u8> = Vec::new();
    push_decimal(stamp as i128 + offset as i128, &mut out);
    out.push(32);
    append_range(&mut out, tz.as_slice(), 0, tz.len());
    assert(tz@.subrange(0, tz@.len() as int) =~= tz@);
    out
}

/// A pair of offsets as unbounded integers.
pub open spec fn hit_model(hit: Option<(i64, i64)>) -> Option<(int, int)> {
    match hit {
        Some(h) => Some((h.0 as int, h.1 as int)),
        None => None,
    }
}

/// Turns the match that a search gave, as the pair of the author's and the
/// committer's offset, into the result to report.
pub fn report(baseline: &TimestampBaseline, hit: Option<(i64, i64)>) -> (r: SearchResult)
    ensures
        r@ == outcome_of(baseline@, hit_model(hit)),
{
    match hit {
        None => SearchResult::Exhausted,
        Some(h) => {
            if h.0 == 0 && h.1 == 0 {
                SearchResult::NoOp
            } else {
                let committer_date = render_date(
                    baseline.committer_timestamp,
                    h.1,
                    &baseline.committer_tz,
                );
                let author_date = render_date(baseline.author_timestamp, h.0, &baseline.author_tz);
                SearchResult::Found(committer_date, author_date)
            }
        },
    }
}

/// Searches the window `lower_bound..=upper_bound` of offsets in seconds for
/// a pair that gives the commit a hash with the prefix.
pub fn search(
    template: &CommitTemplate,
    baseline: &TimestampBaseline,
    prefix: &[u8],
    lower_bound: i64,
    upper_bound: i64,
    strategy: Strategy,
) -> (r: Result<SearchResult, SearchError>)
    ensures
        !valid_prefix(prefix@) ==> r matches Err(SearchError::InvalidPrefix),
        valid_prefix(prefix@) && lower_bound > upper_bound ==> r matches Err(
            SearchError::InvalidRange,
        ),
        valid_prefix(prefix@) && lower_bound <= upper_bound ==> (r matches Ok(out) && is_outcome(
            template@,
            baseline@,
            prefix@,
            lower_bound as int,
            upper_bound as int,
            strategy,
            out@,
        )),
{
    if !is_valid_prefix(prefix) {
        return Err(SearchError::InvalidPrefix);
    }
    if lower_bound > upper_bound {
        return Err(SearchError::InvalidRange);
    }
    let mut progress = Progress::new();
    let hit = match strategy {
        Strategy::Sequential => find_first_match(
            template,
            baseline,
            prefix,
            lower_bound,
            upper_bound,
            &mut progress,
        ),
        Strategy::Parallel => find_any_match(template, baseline, prefix, lower_bound, upper_bound),
    };
    let out = report(baseline, hit);
    proof {
        if let Some(h) = hit {
            assert(is_hit(
                template@,
                baseline@,
                prefix@,
                lower_bound as int,
                upper_bound as int,
                strategy,
                h.0 as int,
                h.1 as int,
            ));
        }
    }
    Ok(out)
}

/// The outcome that the answer of `find_beautiful_git_hash` stands for, where
/// it was not refused: nothing to do, the committer date and the author date
/// to set, or a window searched in vain.
pub open spec fn answer_outcome(
    answer: Result<Option<(Vec<u8>, Vec<u8>)>, SearchError>,
) -> OutcomeModel {
    match answer {
        Ok(None) => OutcomeModel::NoOp,
        Ok(Some(dates)) => OutcomeModel::Found(dates.0@, dates.1@),
        Err(_) => OutcomeModel::Exhausted,
    }
}

/// Searches for dates that give the commit `old_commit` a hash with the
/// prefix, in the window of `min_minutes..=max_minutes` around its own, taken
/// in seconds. Returns the committer date and the author date to set, or
/// `None` where the commit needs no change.
pub fn find_beautiful_git_hash(
    old_commit: &[u8],
    prefix: &[u8],
    min_minutes: i64,
    max_minutes: i64,
    strategy: Strategy,
) -> (r: Result<Option<(Vec<u8>, Vec<u8>)>, SearchError>)
    requires
        i64::MIN <= min_minutes * 60 <= i64::MAX,
        i64::MIN <= max_minutes * 60 <= i64::MAX,
    ensures
        !valid_prefix(prefix@) ==> r matches Err(SearchError::InvalidPrefix),
        valid_prefix(prefix@) && min_minutes > max_minutes ==> r matches Err(
            SearchError::InvalidRange,
        ),
        valid_prefix(prefix@) && min_minutes <= max_minutes ==> (r is Err ==> r matches Err(
            SearchError::SearchExhausted,
        )) && is_outcome(
            template_of(old_commit@),
            baseline_of(old_commit@),
            prefix@,
            min_minutes * 60,
            max_minutes * 60,
            strategy,
            answer_outcome(r),
        ),
{
    if !is_valid_prefix(prefix) {
        return Err(SearchError::InvalidPrefix);
    }
    let (template, baseline) = commit_to_format(old_commit);
    match search(&template, &baseline, prefix, min_minutes * 60, max_minutes * 60, strategy) {
        Ok(SearchResult::NoOp) => Ok(None),
        Ok(SearchResult::Found(committer_date, author_date)) => Ok(
            Some((committer_date, author_date)),
        ),
        Ok(SearchResult::Exhausted) => Err(SearchError::SearchExhausted),
        Err(e) => Err(e),
    }
}

} // verus!
