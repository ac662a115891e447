//! The identifier of a commit: the hex digest of its stored object.

use crate::decimal::{digits_of, push_digits};
use vstd::prelude::*;

verus! {

/// The SHA-1 digest of a byte string.
pub uninterp spec fn sha1_of(data: Seq<u8>) -> Seq<u8>;

/// `sha1::Sha1::digest`, through `sha1::Digest`: the 20-byte SHA-1 digest of
/// `data`. The digest itself is not spelled out here; the contract gives it a
/// name and its length.
#[verifier::external_body]
fn sha1_digest(data: &[u8]) -> (r: Vec<u8>)
    ensures
        r@ == sha1_of(data@),
        r@.len() == 20,
{
    <sha1::Sha1 as sha1::Digest>::digest(data).to_vec()
}

/// The lowercase hex digit for a value below 16.
pub open spec fn hex_digit(n: int) -> u8 {
    if n < 10 {
        (48 + n) as u8
    } else {
        (87 + n) as u8
    }
}

/// Two lowercase hex digits for each byte, high half first.
pub open spec fn hex_of(bytes: Seq<u8>) -> Seq<u8> {
    Seq::new(
        2 * bytes.len(),
        |i: int|
            if i % 2 == 0 {
                hex_digit(bytes[i / 2] as int / 16)
            } else {
                hex_digit(bytes[i / 2] as int % 16)
            },
    )
}

/// The header that precedes a commit's text in its stored object: the word
/// `commit`, a space, the length of the text in decimal, and a zero byte.
pub open spec fn object_header(len: nat) -> Seq<u8> {
    seq![99u8, 111u8, 109u8, 109u8, 105u8, 116u8, 32u8] + digits_of(len) + seq![0u8]
}

/// The stored object of a commit: its header, then its text.
pub open spec fn commit_object(commit: Seq<u8>) -> Seq<u8> {
    object_header(commit.len()) + commit
}

/// The identifier of a commit, as 40 lowercase hex digits.
pub open spec fn commit_hash(commit: Seq<u8>) -> Seq<u8> {
    hex_of(sha1_of(commit_object(commit)))
}

/// Whether `text` begins with `prefix`.
pub open spec fn begins_with(text: Seq<u8>, prefix: Seq<u8>) -> bool {
    prefix.len() <= text.len() && text.subrange(0, prefix.len() as int) == prefix
}

fn hex_digit_of(n: u8) -> (r: u8)
    requires
        n < 16,
    ensures
        r == hex_digit(n as int),
{
    if n < 10 {
        48 + n
    } else {
        87 + n
    }
}

/// Writes `bytes` as lowercase hex.
pub fn hex_encode(bytes: &[u8]) -> (r: Vec<u8>)
    ensures
        r@ == hex_of(bytes@),
{
    let mut out: Vec<u8> = Vec::new();
    let mut i: usize = 0;
    while i < bytes.len()
        invariant
            i <= bytes@.len(),
            out@.len() == 2 * i,
            forall|k: int| 0 <= k < out@.len() ==> out@[k] == #[trigger] hex_of(bytes@)[k],
        decreases bytes@.len() - i,
    {
        let b: u8 = bytes[i];
        out.push(hex_digit_of(b / 16));
        out.push(hex_digit_of(b % 16));
        i += 1;
    }
    assert(out@ =~= hex_of(bytes@));
    out
}

/// Builds the stored object of a commit from its text.
pub fn build_commit_object(commit: &[u8]) -> (r: Vec<u8>)
    ensures
        r@ == commit_object(commit@),
{
    let mut out: Vec<u8> = Vec::new();
    out.push(99);
    out.push(111);
    out.push(109);
    out.push(109);
    out.push(105);
    out.push(116);
    out.push(32);
    push_digits(commit.len() as u128, &mut out);
    out.push(0);
    let ghost head = out@;
    assert(head =~= object_header(commit@.len()));
    let mut i: usize = 0;
    while i < commit.len()
        invariant
            i <= commit@.len(),
            out@ == head + commit@.subrange(0, i as int),
        decreases commit@.len() - i,
    {
        out.push(commit[i]);
        assert(out@ =~= head + commit@.subrange(0, i + 1));
        i += 1;
    }
    assert(commit@.subrange(0, i as int) =~= commit@);
    out
}

/// Computes the identifier of a commit from its text.
pub fn git_commit_hash(commit: &[u8]) -> (r: Vec<u8>)
    ensures
        r@ == commit_hash(commit@),
        r@.len() == 40,
{
    let object = build_commit_object(commit);
    let digest = sha1_digest(object.as_slice());
    hex_encode(digest.as_slice())
}

/// Tells whether `text` begins with `prefix`.
pub fn starts_with(text: &[u8], prefix: &[u8]) -> (r: bool)
    ensures
        r == begins_with(text@, prefix@),
{
    if prefix.len() > text.len() {
        return false;
    }
    let mut i: usize = 0;
    while i < prefix.len()
        invariant
            i <= prefix@.len() <= text@.len(),
            text@.subrange(0, i as int) == prefix@.subrange(0, i as int),
        decreases prefix@.len() - i,
    {
        if text[i] != prefix[i] {
            proof {
                let cut = text@.subrange(0, prefix@.len() as int);
                assert(cut[i as int] != prefix@[i as int]);
            }
            return false;
        }
        assert(text@.subrange(0, i + 1) =~= text@.subrange(0, i as int).push(text@[i as int]));
        assert(prefix@.subrange(0, i + 1) =~= prefix@.subrange(0, i as int).push(
            prefix@[i as int],
        ));
        i += 1;
    }
    assert(prefix@.subrange(0, i as int) =~= prefix@);
    true
}

} // verus!
