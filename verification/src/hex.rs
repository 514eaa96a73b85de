//! A batch on its way in: bytes as hexadecimal text, and as 32-bit words.

use vstd::prelude::*;
use vstd::slice::slice_subrange;
use crate::bytes::{le32, le_word, lemma_le32_spells, push_le32};
use crate::text::{push_char, push_text};

verus! {

/// The lower-case character of a hexadecimal digit.
pub open spec fn hex_digit(n: nat) -> char {
    if n < 10 { (48 + n) as char } else { (87 + n) as char }
}

/// Bytes as text: two lower-case hexadecimal digits for each byte.
pub open spec fn hex_text(bytes: Seq<u8>) -> Seq<char>
    decreases bytes.len(),
{
    if bytes.len() == 0 {
        Seq::empty()
    } else {
        hex_text(bytes.drop_last()).push(hex_digit(bytes.last() as nat / 16)).push(
            hex_digit(bytes.last() as nat % 16),
        )
    }
}

/// The value of a hexadecimal digit, in either case; 16 for any other character.
pub open spec fn hex_value(c: u8) -> nat {
    if 48 <= c <= 57 {
        (c - 48) as nat
    } else if 97 <= c <= 102 {
        (c - 87) as nat
    } else if 65 <= c <= 70 {
        (c - 55) as nat
    } else {
        16
    }
}

/// Every character of the pairs that `text` is made of is a hexadecimal
/// digit; a last character without a partner is not looked at.
pub open spec fn hex_pairs_valid(text: Seq<u8>) -> bool {
    forall|k: int| 0 <= k < 2 * (text.len() / 2) ==> hex_value(#[trigger] text[k]) < 16
}

/// The bytes that the pairs of digits of `text` spell.
pub open spec fn hex_bytes(text: Seq<u8>) -> Seq<u8> {
    Seq::new(
        text.len() / 2,
        |i: int| (16 * hex_value(text[2 * i]) + hex_value(text[2 * i + 1])) as u8,
    )
}

/// `text` without a leading `0x`, if it has one.
pub open spec fn without_prefix(text: Seq<u8>) -> Seq<u8> {
    if text.len() >= 2 && text[0] == 48 && text[1] == 120 {
        text.subrange(2, text.len() as int)
    } else {
        text
    }
}

/// The bytes of the first `n` words, each least significant byte first.
pub open spec fn word_bytes(words: Seq<u32>, n: nat) -> Seq<u8>
    decreases n,
{
    if n == 0 {
        Seq::empty()
    } else {
        word_bytes(words, (n - 1) as nat) + le32(words[n - 1] as nat)
    }
}

/// The words that `bytes` spell, four bytes each, least significant byte first.
pub open spec fn byte_words(bytes: Seq<u8>) -> Seq<u32> {
    Seq::new(bytes.len() / 4, |i: int| le_word(bytes.subrange(4 * i, 4 * i + 4)) as u32)
}

/// The text of an input file that holds `bytes`: a JSON object whose field
/// `input` lists one string, `0x01` and the bytes in hexadecimal.
pub open spec fn input_text(bytes: Seq<u8>) -> Seq<char> {
    "{\n  \"input\": [\"0x01"@ + hex_text(bytes) + "\"]\n}\n"@
}

/// Why the text of an input did not give words.
#[derive(Debug, Clone, Copy, PartialEq, Eq, Structural)]
pub enum InputError {
    /// A character that is no hexadecimal digit stands where one is due.
    NotHex,
    /// The bytes do not fill a whole number of 32-bit words.
    NotWords,
}

/// The character of the hexadecimal digit `n`.
fn hex_char(n: u8) -> (c: char)
    requires
        n < 16,
    ensures
        c == hex_digit(n as nat),
{
    if n < 10 {
        (48u8 + n) as char
    } else {
        (87u8 + n) as char
    }
}

/// Appends `bytes` in hexadecimal.
fn push_hex(text: &mut String, bytes: &[u8])
    ensures
        final(text)@ == old(text)@ + hex_text(bytes@),
{
    let mut i: usize = 0;
    while i < bytes.len()
        invariant
            i <= bytes@.len(),
            text@ == old(text)@ + hex_text(bytes@.subrange(0, i as int)),
        decreases bytes@.len() - i,
    {
        let b: u8 = bytes[i];
        push_char(text, hex_char(b / 16));
        push_char(text, hex_char(b % 16));
        proof {
            let next = bytes@.subrange(0, i + 1);
            assert(next.drop_last() =~= bytes@.subrange(0, i as int));
            assert(text@ =~= old(text)@ + hex_text(next));
        }
        i += 1;
    }
    assert(bytes@.subrange(0, i as int) =~= bytes@);
}

/// Bytes as lower-case hexadecimal text.
pub fn to_hex(bytes: &[u8]) -> (text: String)
    ensures
        text@ == hex_text(bytes@),
{
    let mut text = String::new();
    push_hex(&mut text, bytes);
    assert(text@ =~= hex_text(bytes@));
    text
}

/// The bytes of `words`, each least significant byte first.
pub fn words_to_bytes(words: &[u32]) -> (bytes: Vec<u8>)
    ensures
        bytes@ == word_bytes(words@, words@.len()),
{
    let mut bytes: Vec<u8> = Vec::new();
    let mut i: usize = 0;
    while i < words.len()
        invariant
            i <= words@.len(),
            bytes@ == word_bytes(words@, i as nat),
        decreases words@.len() - i,
    {
        push_le32(&mut bytes, words[i] as u64);
        i += 1;
    }
    bytes
}

/// The text of an input file that holds `words`.
pub fn input_json(words: &[u32]) -> (text: String)
    ensures
        text@ == input_text(word_bytes(words@, words@.len())),
{
    let bytes = words_to_bytes(words);
    let mut text = String::new();
    push_text(&mut text, "{\n  \"input\": [\"0x01");
    push_hex(&mut text, bytes.as_slice());
    push_text(&mut text, "\"]\n}\n");
    assert(text@ =~= input_text(bytes@));
    text
}

/// The value of a hexadecimal digit, in either case.
fn hex_digit_value(c: u8) -> (v: Option<u8>)
    ensures
        v is Some <==> hex_value(c) < 16,
        v is Some ==> v->Some_0 == hex_value(c),
{
    if 48 <= c && c <= 57 {
        Some(c - 48)
    } else if 97 <= c && c <= 102 {
        Some(c - 87)
    } else if 65 <= c && c <= 70 {
        Some(c - 55)
    } else {
        None
    }
}

/// Reads hexadecimal text, two digits for each byte. A last digit without a
/// partner is left out.
pub fn decode_hex(text: &[u8]) -> (res: Option<Vec<u8>>)
    ensures
        res is Some <==> hex_pairs_valid(text@),
        res is Some ==> res->Some_0@ == hex_bytes(text@),
{
    let mut bytes: Vec<u8> = Vec::new();
    let pairs: usize = text.len() / 2;
    let mut i: usize = 0;
    while i < pairs
        invariant
            i <= pairs,
            pairs == text@.len() / 2,
            text@.len() <= usize::MAX,
            bytes@.len() == i,
            forall|k: int| 0 <= k < 2 * i ==> hex_value(#[trigger] text@[k]) < 16,
            forall|j: int| 0 <= j < i ==> #[trigger] bytes@[j] == hex_bytes(text@)[j],
        decreases pairs - i,
    {
        let high = match hex_digit_value(text[2 * i]) {
            Some(h) => h,
            None => {
                return None;
            },
        };
        let low = match hex_digit_value(text[2 * i + 1]) {
            Some(l) => l,
            None => {
                return None;
            },
        };
        bytes.push(high * 16 + low);
        i += 1;
    }
    assert(bytes@ =~= hex_bytes(text@));
    Some(bytes)
}

/// The words that `bytes` spell, if they fill a whole number of words.
pub fn bytes_to_words(bytes: &[u8]) -> (res: Option<Vec<u32>>)
    ensures
        res is Some <==> bytes@.len() % 4 == 0,
        res is Some ==> res->Some_0@ == byte_words(bytes@),
{
    if bytes.len() % 4 != 0 {
        return None;
    }
    let count: usize = bytes.len() / 4;
    let mut words: Vec<u32> = Vec::new();
    let mut i: usize = 0;
    while i < count
        invariant
            i <= count,
            count == bytes@.len() / 4,
            bytes@.len() <= usize::MAX,
            bytes@.len() % 4 == 0,
            words@.len() == i,
            forall|j: int| 0 <= j < i ==> #[trigger] words@[j] == byte_words(bytes@)[j],
        decreases count - i,
    {
        let b0: u32 = bytes[4 * i] as u32;
        let b1: u32 = bytes[4 * i + 1] as u32;
        let b2: u32 = bytes[4 * i + 2] as u32;
        let b3: u32 = bytes[4 * i + 3] as u32;
        words.push(b0 + b1 * 0x100 + b2 * 0x1_0000 + b3 * 0x100_0000);
        i += 1;
    }
    assert(words@ =~= byte_words(bytes@));
    Some(words)
}

/// `text` without a leading `0x`, if it has one.
pub fn strip_hex_prefix(text: &[u8]) -> (rest: &[u8])
    ensures
        rest@ == without_prefix(text@),
{
    if text.len() >= 2 && text[0] == 48 && text[1] == 120 {
        slice_subrange(text, 2, text.len())
    } else {
        text
    }
}

/// Reads the words of an input from its hexadecimal text, with or without
/// a leading `0x`.
pub fn decode_input_words(text: &[u8]) -> (res: Result<Vec<u32>, InputError>)
    ensures
        res is Ok <==> hex_pairs_valid(without_prefix(text@)) && hex_bytes(
            without_prefix(text@),
        ).len() % 4 == 0,
        res is Ok ==> res->Ok_0@ == byte_words(hex_bytes(without_prefix(text@))),
        res == Err::<Vec<u32>, InputError>(InputError::NotHex) <==> !hex_pairs_valid(
            without_prefix(text@),
        ),
{
    let digits = strip_hex_prefix(text);
    let bytes = match decode_hex(digits) {
        Some(b) => b,
        None => {
            return Err(InputError::NotHex);
        },
    };
    match bytes_to_words(bytes.as_slice()) {
        Some(words) => Ok(words),
        None => Err(InputError::NotWords),
    }
}

/// Words written as bytes and read back are the same words.
pub proof fn lemma_words_round_trip(words: Seq<u32>)
    ensures
        word_bytes(words, words.len()).len() == 4 * words.len(),
        byte_words(word_bytes(words, words.len())) == words,
{
    lemma_word_bytes_prefix(words, words.len());
    assert(byte_words(word_bytes(words, words.len())) =~= words);
}

/// The bytes of a prefix of the words: four for each, spelling the word.
proof fn lemma_word_bytes_prefix(words: Seq<u32>, n: nat)
    requires
        n <= words.len(),
    ensures
        word_bytes(words, n).len() == 4 * n,
        forall|i: int|
            0 <= i < n ==> le_word(#[trigger] word_bytes(words, n).subrange(4 * i, 4 * i + 4))
                == words[i],
    decreases n,
{
    if n > 0 {
        let m = (n - 1) as nat;
        lemma_word_bytes_prefix(words, m);
        let all = word_bytes(words, n);
        let head = word_bytes(words, m);
        let w = words[n - 1] as nat;
        assert(all == head + le32(w));
        assert forall|i: int| 0 <= i < n implies le_word(
            #[trigger] all.subrange(4 * i, 4 * i + 4),
        ) == words[i] by {
            if i < m {
                assert(all.subrange(4 * i, 4 * i + 4) =~= head.subrange(4 * i, 4 * i + 4));
            } else {
                assert(all.subrange(4 * i, 4 * i + 4) =~= le32(w));
                lemma_le32_spells(w);
            }
        }
    }
}

} // verus!
