//! The ten public words that a run reveals, and what a reader of them checks.

use vstd::prelude::*;
use crate::bytes::{byte_at, le32, le_word, lemma_le_word_bytes};
use crate::hash::sha256;
use crate::types::{Statement, VerificationBatch};
use crate::xmss_verify::{
    batch_accepted, batch_shape, statement_bytes, statement_commitment, verify_batch,
};

verus! {

/// The number of words that a run reveals.
pub const OUTPUT_WORDS: usize = 10;

/// The words that stand for an outcome: whether all signatures were valid
/// as 0 or 1, the number of signatures checked, and the commitment as eight
/// words, each four of its bytes, least significant byte first.
pub open spec fn words_of(
    all_valid: bool,
    count: u32,
    commitment: Seq<u8>,
    words: Seq<u32>,
) -> bool {
    &&& words.len() == OUTPUT_WORDS
    &&& words[0] == (if all_valid { 1u32 } else { 0u32 })
    &&& words[1] == count
    &&& forall|i: int|
        0 <= i < 8 ==> (#[trigger] words[2 + i]) as nat == le_word(
            commitment.subrange(4 * i, 4 * i + 4),
        )
}

/// Lays an outcome out as the words to reveal.
pub fn output_words(all_valid: bool, count: u32, commitment: &[u8; 32]) -> (words: [u32; 10])
    ensures
        words_of(all_valid, count, commitment@, words@),
{
    let mut words: [u32; 10] = [0u32; 10];
    words[0] = if all_valid { 1 } else { 0 };
    words[1] = count;
    let mut i: usize = 0;
    while i < 8
        invariant
            i <= 8,
            words@[0] == (if all_valid { 1u32 } else { 0u32 }),
            words@[1] == count,
            forall|j: int|
                0 <= j < i ==> (#[trigger] words@[2 + j]) as nat == le_word(
                    commitment@.subrange(4 * j, 4 * j + 4),
                ),
        decreases 8 - i,
    {
        let b0: u32 = commitment[4 * i] as u32;
        let b1: u32 = commitment[4 * i + 1] as u32;
        let b2: u32 = commitment[4 * i + 2] as u32;
        let b3: u32 = commitment[4 * i + 3] as u32;
        words[2 + i] = b0 + b1 * 0x100 + b2 * 0x1_0000 + b3 * 0x100_0000;
        i += 1;
    }
    words
}

/// The commitment that the revealed words hold: the bytes of words 2 to 9,
/// each least significant byte first.
pub open spec fn words_commitment(words: Seq<u32>) -> Seq<u8> {
    Seq::new(32, |k: int| byte_at(words[2 + k / 4] as nat, (k % 4) as nat))
}

/// Reads the commitment out of the revealed words.
pub fn revealed_commitment(words: &[u32; 10]) -> (commitment: [u8; 32])
    ensures
        commitment@ == words_commitment(words@),
{
    let mut commitment: [u8; 32] = [0u8; 32];
    let mut i: usize = 0;
    while i < 8
        invariant
            i <= 8,
            forall|k: int| 0 <= k < 4 * i ==> commitment@[k] == words_commitment(words@)[k],
        decreases 8 - i,
    {
        let w: u32 = words[2 + i];
        let w1: u32 = w / 256;
        let w2: u32 = w1 / 256;
        let w3: u32 = w2 / 256;
        commitment[4 * i] = (w % 256) as u8;
        commitment[4 * i + 1] = (w1 % 256) as u8;
        commitment[4 * i + 2] = (w2 % 256) as u8;
        commitment[4 * i + 3] = (w3 % 256) as u8;
        proof {
            reveal_with_fuel(byte_at, 4);
        }
        i += 1;
    }
    assert(commitment@ =~= words_commitment(words@));
    commitment
}

/// Revealing a commitment as words and reading the words back gives the commitment.
pub proof fn lemma_words_hold_commitment(
    all_valid: bool,
    count: u32,
    commitment: Seq<u8>,
    words: Seq<u32>,
)
    requires
        commitment.len() == 32,
        words_of(all_valid, count, commitment, words),
    ensures
        words_commitment(words) == commitment,
{
    assert forall|k: int| 0 <= k < 32 implies words_commitment(words)[k] == commitment[k] by {
        let i = k / 4;
        let j = k % 4;
        let piece = commitment.subrange(4 * i, 4 * i + 4);
        lemma_le_word_bytes(piece);
        assert(words[2 + i] as nat == le_word(piece));
        assert(le32(le_word(piece))[j] == piece[j]);
        assert(piece[j] == commitment[4 * i + j]);
    }
    assert(words_commitment(words) =~= commitment);
}

/// Runs a batch and lays the outcome out as the words to reveal: the
/// verdict, the number of signatures checked and the commitment of the statement.
pub fn run_batch(batch: &VerificationBatch) -> (words: [u32; 10])
    ensures
        batch_shape(*batch) ==> words_of(
            batch_accepted(*batch, batch.statement.k as nat),
            batch.statement.k,
            sha256(statement_bytes(batch.statement)),
            words@,
        ),
        !batch_shape(*batch) ==> words_of(
            false,
            0,
            sha256(statement_bytes(batch.statement)),
            words@,
        ),
{
    let (all_valid, count) = verify_batch(batch);
    let commitment = statement_commitment(&batch.statement);
    output_words(all_valid, count, &commitment)
}

/// What a reader of the revealed words finds wrong with them.
#[derive(Debug, Clone, Copy, PartialEq, Eq, Structural)]
pub enum OutputMismatch {
    /// The number of signatures checked is not the number that the statement announces.
    Count,
    /// The commitment revealed is not that of the statement.
    Commitment,
}

/// Holds the revealed words against the statement: the count has to be the
/// statement's `k` and the commitment that of the statement. The verdict in
/// word 0 is not judged.
pub fn check_output(words: &[u32; 10], stmt: &Statement) -> (res: Result<(), OutputMismatch>)
    ensures
        res is Ok <==> words@[1] == stmt.k && words_commitment(words@) == sha256(
            statement_bytes(*stmt),
        ),
        res == Err::<(), OutputMismatch>(OutputMismatch::Count) <==> words@[1] != stmt.k,
{
    if words[1] != stmt.k {
        return Err(OutputMismatch::Count);
    }
    let revealed = revealed_commitment(words);
    let expected = statement_commitment(stmt);
    let mut k: usize = 0;
    while k < 32
        invariant
            k <= 32,
            words@[1] == stmt.k,
            revealed@ == words_commitment(words@),
            expected@ == sha256(statement_bytes(*stmt)),
            forall|n: int| 0 <= n < k ==> revealed@[n] == expected@[n],
        decreases 32 - k,
    {
        if revealed[k] != expected[k] {
            return Err(OutputMismatch::Commitment);
        }
        k += 1;
    }
    assert(revealed@ =~= expected@);
    Ok(())
}

} // verus!
