//! What to tell the operator: the prefix to aim for, and the command that
//! sets the dates found.

use crate::decimal::{digits_of, parse_u64, push_digits, read_u64};
use crate::template::{append_range, back_over_spaces, find_spaces_start};
use vstd::prelude::*;

verus! {

/// `n` times the digit `0`.
pub open spec fn zeros(n: nat) -> Seq<u8> {
    Seq::new(n, |i: int| 48u8)
}

/// The digits of `n`, with zeros before them to fill `width` places.
pub open spec fn padded_number(n: nat, width: nat) -> Seq<u8> {
    let digits = digits_of(n);
    if digits.len() >= width {
        digits
    } else {
        zeros((width - digits.len()) as nat) + digits
    }
}

/// The number after the one that the first `number_length` bytes of a hash
/// spell; 1 where they spell none, or where the hash, white space at its end
/// left aside, is shorter than that.
pub open spec fn next_number(hash: Seq<u8>, number_length: nat) -> nat {
    if number_length <= back_over_spaces(hash, 0, hash.len() as int) {
        match parse_u64(hash.subrange(0, number_length as int)) {
            Some(n) => (n + 1) as nat,
            None => 1,
        }
    } else {
        1
    }
}

/// The prefix to aim for after a commit with the given hash: the next number,
/// filled to `number_length` places, and the letter `a`.
pub open spec fn proposed_prefix_text(hash: Seq<u8>, number_length: nat) -> Seq<u8> {
    padded_number(next_number(hash, number_length), number_length) + seq![97u8]
}

/// The start of the command line, up to the committer date.
pub open spec fn command_head() -> Seq<u8> {
    seq![71u8, 73u8, 84u8, 95u8, 67u8, 79u8, 77u8, 77u8, 73u8, 84u8, 84u8, 69u8, 82u8, 95u8, 68u8, 65u8, 84u8, 69u8, 61u8, 39u8]
}

/// The middle of the command line, between the two dates.
pub open spec fn command_middle() -> Seq<u8> {
    seq![39u8, 32u8, 103u8, 105u8, 116u8, 32u8, 99u8, 111u8, 109u8, 109u8, 105u8, 116u8, 32u8, 45u8, 45u8, 97u8, 109u8, 101u8, 110u8, 100u8, 32u8, 45u8, 67u8, 32u8, 72u8, 69u8, 65u8, 68u8, 32u8, 45u8, 45u8, 100u8, 97u8, 116u8, 101u8, 61u8, 39u8]
}

/// The command that gives the last commit the two dates:
/// `GIT_COMMITTER_DATE='<date>' git commit --amend -C HEAD --date='<date>'`.
pub open spec fn proposal_text(committer_date: Seq<u8>, author_date: Seq<u8>) -> Seq<u8> {
    command_head() + committer_date + command_middle() + author_date + seq![39u8]
}

/// Proposes the prefix to aim for from the hash of the commit before.
pub fn proposed_prefix(previous_hash: &[u8], number_length: usize) -> (r: Vec<u8>)
    ensures
        r@ == proposed_prefix_text(previous_hash@, number_length as nat),
{
    let end = find_spaces_start(previous_hash, 0, previous_hash.len());
    let number: u128 = if number_length <= end {
        match read_u64(previous_hash, 0, number_length) {
            Some(n) => n as u128 + 1,
            None => 1,
        }
    } else {
        1
    };
    let mut digits: Vec<u8> = Vec::new();
    push_digits(number, &mut digits);
    assert(digits@ =~= digits_of(number as nat));
    let mut out: Vec<u8> = Vec::new();
    if digits.len() < number_length {
        let pad: usize = number_length - digits.len();
        let mut i: usize = 0;
        while i < pad
            invariant
                i <= pad,
                out@ == zeros(i as nat),
            decreases pad - i,
        {
            out.push(48);
            assert(out@ =~= zeros((i + 1) as nat));
            i += 1;
        }
    }
    append_range(&mut out, digits.as_slice(), 0, digits.len());
    assert(digits@.subrange(0, digits@.len() as int) =~= digits@);
    assert(out@ =~= padded_number(number as nat, number_length as nat));
    out.push(97);
    out
}

/// Writes the command that gives the last commit the two dates.
pub fn proposal_line(committer_date: &[u8], author_date: &[u8]) -> (r: Vec<u8>)
    ensures
        r@ == proposal_text(committer_date@, author_date@),
{
    let mut out: Vec<u8> = vec![71u8, 73u8, 84u8, 95u8, 67u8, 79u8, 77u8, 77u8, 73u8, 84u8, 84u8, 69u8, 82u8, 95u8, 68u8, 65u8, 84u8, 69u8, 61u8, 39u8];
    assert(out@ =~= command_head());
    append_range(&mut out, committer_date, 0, committer_date.len());
    assert(committer_date@.subrange(0, committer_date@.len() as int) =~= committer_date@);
    let middle: Vec<u8> = vec![39u8, 32u8, 103u8, 105u8, 116u8, 32u8, 99u8, 111u8, 109u8, 109u8, 105u8, 116u8, 32u8, 45u8, 45u8, 97u8, 109u8, 101u8, 110u8, 100u8, 32u8, 45u8, 67u8, 32u8, 72u8, 69u8, 65u8, 68u8, 32u8, 45u8, 45u8, 100u8, 97u8, 116u8, 101u8, 61u8, 39u8];
    assert(middle@ =~= command_middle());
    append_range(&mut out, middle.as_slice(), 0, middle.len());
    assert(middle@.subrange(0, middle@.len() as int) =~= middle@);
    append_range(&mut out, author_date, 0, author_date.len());
    assert(author_date@.subrange(0, author_date@.len() as int) =~= author_date@);
    out.push(39);
    out
}

} // verus!
