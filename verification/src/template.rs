//! A commit's text with its two timestamps taken out, and the timestamps
//! themselves.

use crate::decimal::{decimal_text, parse_i64, push_decimal, read_i64};
use vstd::prelude::*;

verus! {

/// One stretch of a template: bytes to copy, or the place of a timestamp.
#[derive(Debug, PartialEq, Eq)]
pub enum Piece {
    Text(Vec<u8>),
    AuthorTime,
    CommitterTime,
}

/// What a `Piece` stands for.
pub enum PieceModel {
    Text(Seq<u8>),
    AuthorTime,
    CommitterTime,
}

impl View for Piece {
    type V = PieceModel;

    open spec fn view(&self) -> PieceModel {
        match self {
            Piece::Text(t) => PieceModel::Text(t@),
            Piece::AuthorTime => PieceModel::AuthorTime,
            Piece::CommitterTime => PieceModel::CommitterTime,
        }
    }
}

/// The pieces that a vector of `Piece`s stands for, one for one.
pub open spec fn pieces_view(pieces: Seq<Piece>) -> Seq<PieceModel> {
    Seq::new(pieces.len(), |i: int| pieces[i]@)
}

/// A commit's text in which each author and committer timestamp is a marker.
#[derive(Debug, PartialEq, Eq)]
pub struct CommitTemplate {
    pub pieces: Vec<Piece>,
}

impl View for CommitTemplate {
    type V = Seq<PieceModel>;

    open spec fn view(&self) -> Seq<PieceModel> {
        pieces_view(self.pieces@)
    }
}

/// The timestamps and time zones that a commit carries.
#[derive(Debug, PartialEq, Eq)]
pub struct TimestampBaseline {
    pub author_timestamp: i64,
    pub author_tz: Vec<u8>,
    pub committer_timestamp: i64,
    pub committer_tz: Vec<u8>,
}

/// What a `TimestampBaseline` stands for.
pub struct BaselineModel {
    pub author_timestamp: int,
    pub author_tz: Seq<u8>,
    pub committer_timestamp: int,
    pub committer_tz: Seq<u8>,
}

impl View for TimestampBaseline {
    type V = BaselineModel;

    open spec fn view(&self) -> BaselineModel {
        BaselineModel {
            author_timestamp: self.author_timestamp as int,
            author_tz: self.author_tz@,
            committer_timestamp: self.committer_timestamp as int,
            committer_tz: self.committer_tz@,
        }
    }
}

/// The bytes that separate words: space, tab, line feed, vertical tab, form
/// feed and carriage return.
pub open spec fn is_space(b: u8) -> bool {
    b == 32 || 9 <= b <= 13
}

/// The end of the line that holds position `from`: the next line feed, or the
/// end of the text.
pub open spec fn line_end(text: Seq<u8>, from: int) -> int
    decreases text.len() - from,
{
    if from >= text.len() || text[from] == 10 {
        from
    } else {
        line_end(text, from + 1)
    }
}

/// The first position from `i` on, below `hi`, that holds no space.
pub open spec fn skip_spaces(text: Seq<u8>, i: int, hi: int) -> int
    decreases hi - i,
{
    if i < hi && is_space(text[i]) {
        skip_spaces(text, i + 1, hi)
    } else {
        i
    }
}

/// The first position from `i` on, below `hi`, that holds a space.
pub open spec fn skip_word(text: Seq<u8>, i: int, hi: int) -> int
    decreases hi - i,
{
    if i < hi && !is_space(text[i]) {
        skip_word(text, i + 1, hi)
    } else {
        i
    }
}

/// The end of the last word that ends at or before `j`, looking back to `lo`.
pub open spec fn back_over_spaces(text: Seq<u8>, lo: int, j: int) -> int
    decreases j - lo,
{
    if lo < j && is_space(text[j - 1]) {
        back_over_spaces(text, lo, j - 1)
    } else {
        j
    }
}

/// The start of the word that ends at `j`, looking back to `lo`.
pub open spec fn back_over_word(text: Seq<u8>, lo: int, j: int) -> int
    decreases j - lo,
{
    if lo < j && !is_space(text[j - 1]) {
        back_over_word(text, lo, j - 1)
    } else {
        j
    }
}

/// Where the words that matter stand in the line `text[lo..hi]`: its first
/// word, its last word (the time zone) and the word before that (the
/// timestamp). A word that the line lacks is empty.
pub struct LineWords {
    pub first_start: int,
    pub first_end: int,
    pub stamp_start: int,
    pub stamp_end: int,
    pub zone_start: int,
    pub zone_end: int,
}

pub open spec fn line_words(text: Seq<u8>, lo: int, hi: int) -> LineWords {
    let first_start = skip_spaces(text, lo, hi);
    let zone_end = back_over_spaces(text, lo, hi);
    let zone_start = back_over_word(text, lo, zone_end);
    let stamp_end = back_over_spaces(text, lo, zone_start);
    LineWords {
        first_start,
        first_end: skip_word(text, first_start, hi),
        stamp_start: back_over_word(text, lo, stamp_end),
        stamp_end,
        zone_start,
        zone_end,
    }
}

/// The word `author`.
pub open spec fn author_word() -> Seq<u8> {
    seq![97u8, 117u8, 116u8, 104u8, 111u8, 114u8]
}

/// The word `committer`.
pub open spec fn committer_word() -> Seq<u8> {
    seq![99u8, 111u8, 109u8, 109u8, 105u8, 116u8, 116u8, 101u8, 114u8]
}

/// Which of the two timestamps a header line carries.
pub enum HeaderKind {
    Author,
    Committer,
}

/// The kind of header that the line `text[lo..hi]` is: its first word names
/// it, and it has at least two words.
pub open spec fn header_kind(text: Seq<u8>, lo: int, hi: int) -> Option<HeaderKind> {
    let w = line_words(text, lo, hi);
    let first = text.subrange(w.first_start, w.first_end);
    if w.stamp_start >= w.stamp_end {
        None
    } else if first == author_word() {
        Some(HeaderKind::Author)
    } else if first == committer_word() {
        Some(HeaderKind::Committer)
    } else {
        None
    }
}

/// What has been made of the lines read so far: the template's pieces, the
/// position up to which the text has gone into them, and the timestamps.
pub struct ScanState {
    pub pieces: Seq<PieceModel>,
    pub copied: int,
    pub baseline: BaselineModel,
}

pub open spec fn initial_state() -> ScanState {
    ScanState {
        pieces: Seq::empty(),
        copied: 0,
        baseline: BaselineModel {
            author_timestamp: 0,
            author_tz: Seq::empty(),
            committer_timestamp: 0,
            committer_tz: Seq::empty(),
        },
    }
}

/// The timestamp that a word spells, 0 where it spells none.
pub open spec fn stamp_value(word: Seq<u8>) -> int {
    match parse_i64(word) {
        Some(v) => v as int,
        None => 0,
    }
}

/// The state after the line `text[lo..hi]`. A header line hands its timestamp
/// and time zone to the baseline and puts a marker where the timestamp stood;
/// the bytes before the timestamp are copied as they are. Any other line
/// changes nothing.
pub open spec fn absorb_line(text: Seq<u8>, lo: int, hi: int, st: ScanState) -> ScanState {
    let w = line_words(text, lo, hi);
    let stamp = stamp_value(text.subrange(w.stamp_start, w.stamp_end));
    let zone = text.subrange(w.zone_start, w.zone_end);
    let before = PieceModel::Text(text.subrange(st.copied, w.stamp_start));
    match header_kind(text, lo, hi) {
        None => st,
        Some(HeaderKind::Author) => ScanState {
            pieces: st.pieces.push(before).push(PieceModel::AuthorTime),
            copied: w.stamp_end,
            baseline: BaselineModel { author_timestamp: stamp, author_tz: zone, ..st.baseline },
        },
        Some(HeaderKind::Committer) => ScanState {
            pieces: st.pieces.push(before).push(PieceModel::CommitterTime),
            copied: w.stamp_end,
            baseline: BaselineModel {
                committer_timestamp: stamp,
                committer_tz: zone,
                ..st.baseline
            },
        },
    }
}

/// The state after every line from the one that starts at `lo` on.
pub open spec fn scan_lines(text: Seq<u8>, lo: int, st: ScanState) -> ScanState
    decreases text.len() - lo,
{
    let hi = line_end(text, lo);
    let next = absorb_line(text, lo, hi, st);
    if hi < lo || hi >= text.len() {
        next
    } else {
        scan_lines(text, hi + 1, next)
    }
}

/// The template of a commit: its text, with a marker in place of the
/// timestamp of each header line.
pub open spec fn template_of(text: Seq<u8>) -> Seq<PieceModel> {
    let st = scan_lines(text, 0, initial_state());
    st.pieces.push(PieceModel::Text(text.subrange(st.copied, text.len() as int)))
}

/// The timestamps and time zones of a commit: those of its last author line
/// and of its last committer line.
pub open spec fn baseline_of(text: Seq<u8>) -> BaselineModel {
    scan_lines(text, 0, initial_state()).baseline
}

/// The bytes that a piece gives when the two timestamps are known.
pub open spec fn piece_text(piece: PieceModel, author: int, committer: int) -> Seq<u8> {
    match piece {
        PieceModel::Text(t) => t,
        PieceModel::AuthorTime => decimal_text(author),
        PieceModel::CommitterTime => decimal_text(committer),
    }
}

/// The commit text that a template gives for two timestamps.
pub open spec fn render(pieces: Seq<PieceModel>, author: int, committer: int) -> Seq<u8>
    decreases pieces.len(),
{
    if pieces.len() == 0 {
        Seq::empty()
    } else {
        render(pieces.drop_last(), author, committer) + piece_text(
            pieces.last(),
            author,
            committer,
        )
    }
}

/// Every header line from the one that starts at `lo` on has the decimal
/// text of `author`, or of `committer`, as its timestamp.
pub open spec fn spells_timestamps(text: Seq<u8>, lo: int, author: int, committer: int) -> bool
    decreases text.len() - lo,
{
    let hi = line_end(text, lo);
    let w = line_words(text, lo, hi);
    let word = text.subrange(w.stamp_start, w.stamp_end);
    let here = match header_kind(text, lo, hi) {
        None => true,
        Some(HeaderKind::Author) => word == decimal_text(author),
        Some(HeaderKind::Committer) => word == decimal_text(committer),
    };
    here && (hi < lo || hi >= text.len() || spells_timestamps(text, hi + 1, author, committer))
}

/// A line ends at or after the position it is looked for from.
pub proof fn line_end_in_text(text: Seq<u8>, from: int)
    requires
        0 <= from <= text.len(),
    ensures
        from <= line_end(text, from) <= text.len(),
    decreases text.len() - from,
{
    if from < text.len() && text[from] != 10 {
        line_end_in_text(text, from + 1);
    }
}

/// Looking back over spaces stays between the limit and the start.
pub proof fn back_over_spaces_in_line(text: Seq<u8>, lo: int, j: int)
    requires
        lo <= j,
    ensures
        lo <= back_over_spaces(text, lo, j) <= j,
    decreases j - lo,
{
    if lo < j && is_space(text[j - 1]) {
        back_over_spaces_in_line(text, lo, j - 1);
    }
}

/// Looking back over a word stays between the limit and the start.
pub proof fn back_over_word_in_line(text: Seq<u8>, lo: int, j: int)
    requires
        lo <= j,
    ensures
        lo <= back_over_word(text, lo, j) <= j,
    decreases j - lo,
{
    if lo < j && !is_space(text[j - 1]) {
        back_over_word_in_line(text, lo, j - 1);
    }
}

/// The timestamp and the time zone of a line lie in the line, the timestamp
/// first.
pub proof fn words_in_line(text: Seq<u8>, lo: int, hi: int)
    requires
        lo <= hi,
    ensures
        ({
            let w = line_words(text, lo, hi);
            lo <= w.stamp_start <= w.stamp_end <= w.zone_start <= w.zone_end <= hi
        }),
{
    let w = line_words(text, lo, hi);
    back_over_spaces_in_line(text, lo, hi);
    back_over_word_in_line(text, lo, w.zone_end);
    back_over_spaces_in_line(text, lo, w.zone_start);
    back_over_word_in_line(text, lo, w.stamp_end);
}

/// Scanning on from a state that gives the text up to where it has copied
/// ends in such a state, where the header lines spell the two timestamps.
pub proof fn scan_keeps_text(text: Seq<u8>, lo: int, st: ScanState, author: int, committer: int)
    requires
        0 <= st.copied <= lo <= text.len(),
        render(st.pieces, author, committer) == text.subrange(0, st.copied),
        spells_timestamps(text, lo, author, committer),
    ensures
        ({
            let end = scan_lines(text, lo, st);
            &&& 0 <= end.copied <= text.len()
            &&& render(end.pieces, author, committer) == text.subrange(0, end.copied)
        }),
    decreases text.len() - lo,
{
    let hi = line_end(text, lo);
    line_end_in_text(text, lo);
    words_in_line(text, lo, hi);
    let w = line_words(text, lo, hi);
    let next = absorb_line(text, lo, hi, st);
    if header_kind(text, lo, hi) is Some {
        let before = PieceModel::Text(text.subrange(st.copied, w.stamp_start));
        let first = st.pieces.push(before);
        assert(first.drop_last() =~= st.pieces);
        assert(next.pieces.drop_last() =~= first);
        assert(first.last() == before);
        assert(render(first, author, committer) =~= text.subrange(0, w.stamp_start));
        let word = text.subrange(w.stamp_start, w.stamp_end);
        assert(piece_text(next.pieces.last(), author, committer) == word);
        assert(render(next.pieces, author, committer) == render(first, author, committer) + word);
        assert(render(next.pieces, author, committer) =~= text.subrange(0, w.stamp_end));
    }
    if hi < text.len() {
        scan_keeps_text(text, hi + 1, next, author, committer);
    }
}

/// A template differs from its commit in the timestamps alone: filled with
/// the timestamps that the header lines spell, it gives the commit back,
/// byte for byte.
pub proof fn template_keeps_text(text: Seq<u8>, author: int, committer: int)
    requires
        spells_timestamps(text, 0, author, committer),
    ensures
        render(template_of(text), author, committer) == text,
{
    let st = initial_state();
    assert(render(st.pieces, author, committer) =~= text.subrange(0, 0));
    scan_keeps_text(text, 0, st, author, committer);
    let end = scan_lines(text, 0, st);
    let whole = template_of(text);
    assert(whole.drop_last() =~= end.pieces);
    assert(render(whole, author, committer) =~= text);
}

fn is_space_byte(b: u8) -> (r: bool)
    ensures
        r == is_space(b),
{
    b == 32 || (9 <= b && b <= 13)
}

/// Appends `text[from..to]` to `out`.
pub fn append_range(out: &mut Vec<u8>, text: &[u8], from: usize, to: usize)
    requires
        from <= to <= text@.len(),
    ensures
        final(out)@ == old(out)@ + text@.subrange(from as int, to as int),
{
    let mut i: usize = from;
    while i < to
        invariant
            from <= i <= to <= text@.len(),
            out@ == old(out)@ + text@.subrange(from as int, i as int),
        decreases to - i,
    {
        out.push(text[i]);
        assert(out@ =~= old(out)@ + text@.subrange(from as int, i + 1));
        i += 1;
    }
}

pub fn find_line_end(text: &[u8], from: usize) -> (r: usize)
    requires
        from <= text@.len(),
    ensures
        r == line_end(text@, from as int),
        from <= r <= text@.len(),
{
    let mut k: usize = from;
    while k < text.len() && text[k] != 10
        invariant
            from <= k <= text@.len(),
            line_end(text@, from as int) == line_end(text@, k as int),
        decreases text@.len() - k,
    {
        k += 1;
    }
    k
}

pub fn find_spaces_end(text: &[u8], i: usize, hi: usize) -> (r: usize)
    requires
        i <= hi <= text@.len(),
    ensures
        r == skip_spaces(text@, i as int, hi as int),
        i <= r <= hi,
{
    let mut k: usize = i;
    while k < hi && is_space_byte(text[k])
        invariant
            i <= k <= hi <= text@.len(),
            skip_spaces(text@, i as int, hi as int) == skip_spaces(text@, k as int, hi as int),
        decreases hi - k,
    {
        k += 1;
    }
    k
}

pub fn find_word_end(text: &[u8], i: usize, hi: usize) -> (r: usize)
    requires
        i <= hi <= text@.len(),
    ensures
        r == skip_word(text@, i as int, hi as int),
        i <= r <= hi,
{
    let mut k: usize = i;
    while k < hi && !is_space_byte(text[k])
        invariant
            i <= k <= hi <= text@.len(),
            skip_word(text@, i as int, hi as int) == skip_word(text@, k as int, hi as int),
        decreases hi - k,
    {
        k += 1;
    }
    k
}

pub fn find_spaces_start(text: &[u8], lo: usize, j: usize) -> (r: usize)
    requires
        lo <= j <= text@.len(),
    ensures
        r == back_over_spaces(text@, lo as int, j as int),
        lo <= r <= j,
{
    let mut k: usize = j;
    while lo < k && is_space_byte(text[k - 1])
        invariant
            lo <= k <= j <= text@.len(),
            back_over_spaces(text@, lo as int, j as int) == back_over_spaces(
                text@,
                lo as int,
                k as int,
            ),
        decreases k - lo,
    {
        k -= 1;
    }
    k
}

pub fn find_word_start(text: &[u8], lo: usize, j: usize) -> (r: usize)
    requires
        lo <= j <= text@.len(),
    ensures
        r == back_over_word(text@, lo as int, j as int),
        lo <= r <= j,
{
    let mut k: usize = j;
    while lo < k && !is_space_byte(text[k - 1])
        invariant
            lo <= k <= j <= text@.len(),
            back_over_word(text@, lo as int, j as int) == back_over_word(
                text@,
                lo as int,
                k as int,
            ),
        decreases k - lo,
    {
        k -= 1;
    }
    k
}

/// Tells whether `text[from..to]` is the word `word`.
fn range_is(text: &[u8], from: usize, to: usize, word: &Vec<u8>) -> (r: bool)
    requires
        from <= to <= text@.len(),
    ensures
        r == (text@.subrange(from as int, to as int) == word@),
{
    if to - from != word.len() {
        return false;
    }
    let ghost cut = text@.subrange(from as int, to as int);
    let mut i: usize = 0;
    while i < word.len()
        invariant
            i <= word@.len(),
            to - from == word@.len(),
            from <= to <= text@.len(),
            cut == text@.subrange(from as int, to as int),
            forall|k: int| 0 <= k < i ==> cut[k] == word@[k],
        decreases word@.len() - i,
    {
        if text[from + i] != word[i] {
            assert(cut[i as int] != word@[i as int]);
            return false;
        }
        i += 1;
    }
    assert(cut =~= word@);
    true
}

/// Reads one line, `text[lo..hi]`, into the template and the baseline.
/// `copied` is the position up to which the text has already gone into
/// `pieces`; the result is that position after this line.
pub fn commit_line_to_format(
    text: &[u8],
    lo: usize,
    hi: usize,
    copied: usize,
    pieces: &mut Vec<Piece>,
    values: &mut TimestampBaseline,
) -> (next: usize)
    requires
        copied <= lo <= hi <= text@.len(),
    ensures
        (ScanState { pieces: pieces_view(final(pieces)@), copied: next as int, baseline: final(values)@ })
            == absorb_line(
            text@,
            lo as int,
            hi as int,
            (ScanState {
                pieces: pieces_view(old(pieces)@),
                copied: copied as int,
                baseline: old(values)@,
            }),
        ),
        copied <= next <= hi,
{
    let first_start = find_spaces_end(text, lo, hi);
    let first_end = find_word_end(text, first_start, hi);
    let zone_end = find_spaces_start(text, lo, hi);
    let zone_start = find_word_start(text, lo, zone_end);
    let stamp_end = find_spaces_start(text, lo, zone_start);
    let stamp_start = find_word_start(text, lo, stamp_end);
    if stamp_start >= stamp_end {
        return copied;
    }
    let author: Vec<u8> = vec![97u8, 117u8, 116u8, 104u8, 111u8, 114u8];
    let committer: Vec<u8> = vec![99u8, 111u8, 109u8, 109u8, 105u8, 116u8, 116u8, 101u8, 114u8];
    assert(author@ =~= author_word());
    assert(committer@ =~= committer_word());
    let is_author = range_is(text, first_start, first_end, &author);
    let is_committer = !is_author && range_is(text, first_start, first_end, &committer);
    if !is_author && !is_committer {
        return copied;
    }
    let stamp: i64 = match read_i64(text, stamp_start, stamp_end) {
        Some(v) => v,
        None => 0,
    };
    let mut zone: Vec<u8> = Vec::new();
    append_range(&mut zone, text, zone_start, zone_end);
    let mut before: Vec<u8> = Vec::new();
    append_range(&mut before, text, copied, stamp_start);
    assert(zone@ =~= text@.subrange(zone_start as int, zone_end as int));
    assert(before@ =~= text@.subrange(copied as int, stamp_start as int));
    pieces.push(Piece::Text(before));
    if is_author {
        pieces.push(Piece::AuthorTime);
        values.author_timestamp = stamp;
        values.author_tz = zone;
        assert(pieces_view(pieces@) =~= pieces_view(old(pieces)@).push(
            PieceModel::Text(before@),
        ).push(PieceModel::AuthorTime));
    } else {
        pieces.push(Piece::CommitterTime);
        values.committer_timestamp = stamp;
        values.committer_tz = zone;
        assert(pieces_view(pieces@) =~= pieces_view(old(pieces)@).push(
            PieceModel::Text(before@),
        ).push(PieceModel::CommitterTime));
    }
    stamp_end
}

/// Reads a commit's text into its template and its timestamps.
pub fn commit_to_format(commit: &[u8]) -> (r: (CommitTemplate, TimestampBaseline))
    ensures
        r.0@ == template_of(commit@),
        r.1@ == baseline_of(commit@),
{
    let mut values = TimestampBaseline {
        author_timestamp: 0,
        author_tz: Vec::new(),
        committer_timestamp: 0,
        committer_tz: Vec::new(),
    };
    let mut pieces: Vec<Piece> = Vec::new();
    let mut copied: usize = 0;
    let mut lo: usize = 0;
    assert(pieces_view(pieces@) =~= initial_state().pieces);
    loop
        invariant_except_break
            copied <= lo <= commit@.len(),
            scan_lines(commit@, 0, initial_state()) == scan_lines(
                commit@,
                lo as int,
                (ScanState {
                    pieces: pieces_view(pieces@),
                    copied: copied as int,
                    baseline: values@,
                }),
            ),
        ensures
            copied <= commit@.len(),
            scan_lines(commit@, 0, initial_state()) == (ScanState {
                pieces: pieces_view(pieces@),
                copied: copied as int,
                baseline: values@,
            }),
        decreases commit@.len() - lo,
    {
        let hi = find_line_end(commit, lo);
        copied = commit_line_to_format(commit, lo, hi, copied, &mut pieces, &mut values);
        if hi >= commit.len() {
            break;
        }
        lo = hi + 1;
    }
    let mut rest: Vec<u8> = Vec::new();
    append_range(&mut rest, commit, copied, commit.len());
    assert(rest@ =~= commit@.subrange(copied as int, commit@.len() as int));
    let ghost before = pieces_view(pieces@);
    pieces.push(Piece::Text(rest));
    assert(pieces_view(pieces@) =~= before.push(PieceModel::Text(rest@)));
    (CommitTemplate { pieces }, values)
}

impl CommitTemplate {
    /// Writes out the commit text for the two timestamps.
    pub fn fill(&self, author: i128, committer: i128) -> (r: Vec<u8>)
        ensures
            r@ == render(self@, author as int, committer as int),
    {
        let mut out: Vec<u8> = Vec::new();
        let mut i: usize = 0;
        while i < self.pieces.len()
            invariant
                i <= self.pieces@.len(),
                out@ == render(self@.subrange(0, i as int), author as int, committer as int),
            decreases self.pieces@.len() - i,
        {
            proof {
                let upto = self@.subrange(0, i + 1);
                assert(upto.drop_last() =~= self@.subrange(0, i as int));
                assert(upto.last() == self.pieces@[i as int]@);
            }
            match &self.pieces[i] {
                Piece::Text(t) => {
                    append_range(&mut out, t.as_slice(), 0, t.len());
                    assert(t@.subrange(0, t@.len() as int) =~= t@);
                },
                Piece::AuthorTime => {
                    push_decimal(author, &mut out);
                },
                Piece::CommitterTime => {
                    push_decimal(committer, &mut out);
                },
            }
            i += 1;
        }
        assert(self@.subrange(0, i as int) =~= self@);
        out
    }
}

} // verus!
