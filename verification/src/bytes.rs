//! Fixed-width encodings of numbers as bytes.

use vstd::prelude::*;

verus! {

/// The byte of `x` at position `i`, counted from the least significant one.
pub open spec fn byte_at(x: nat, i: nat) -> u8
    decreases i,
{
    if i == 0 { (x % 256) as u8 } else { byte_at(x / 256, (i - 1) as nat) }
}

/// The low 32 bits of `x`, least significant byte first.
pub open spec fn le32(x: nat) -> Seq<u8> {
    seq![byte_at(x, 0), byte_at(x, 1), byte_at(x, 2), byte_at(x, 3)]
}

/// The low 32 bits of `x`, most significant byte first.
pub open spec fn be32(x: nat) -> Seq<u8> {
    seq![byte_at(x, 3), byte_at(x, 2), byte_at(x, 1), byte_at(x, 0)]
}

/// The low 64 bits of `x`, least significant byte first.
pub open spec fn le64(x: nat) -> Seq<u8> {
    seq![
        byte_at(x, 0),
        byte_at(x, 1),
        byte_at(x, 2),
        byte_at(x, 3),
        byte_at(x, 4),
        byte_at(x, 5),
        byte_at(x, 6),
        byte_at(x, 7),
    ]
}

/// The 32-bit number that four bytes spell, least significant byte first.
pub open spec fn le_word(b: Seq<u8>) -> nat {
    (b[0] as nat) + (b[1] as nat) * 0x100 + (b[2] as nat) * 0x1_0000 + (b[3] as nat) * 0x100_0000
}

/// The number that eight bytes spell, least significant byte first.
pub open spec fn le_u64(b: Seq<u8>) -> nat {
    (b[0] as nat) + (b[1] as nat) * 0x100 + (b[2] as nat) * 0x1_0000 + (b[3] as nat) * 0x100_0000
        + (b[4] as nat) * 0x1_0000_0000 + (b[5] as nat) * 0x100_0000_0000 + (b[6] as nat)
        * 0x1_0000_0000_0000 + (b[7] as nat) * 0x100_0000_0000_0000
}

/// A number is its lowest byte and 256 times the rest.
proof fn lemma_byte_split(x: nat)
    ensures
        x == byte_at(x, 0) as nat + 256 * (x / 256),
        forall|i: nat| byte_at(x, i + 1) == #[trigger] byte_at(x / 256, i),
{
    assert(x % 256 < 256);
    assert forall|i: nat| byte_at(x, i + 1) == #[trigger] byte_at(x / 256, i) by {
        assert((i + 1 - 1) as nat == i);
    }
}

/// The four bytes of a number below 2^32 spell it.
pub proof fn lemma_le32_spells(x: nat)
    requires
        x < 0x1_0000_0000,
    ensures
        le_word(le32(x)) == x,
{
    let x1 = x / 256;
    let x2 = x1 / 256;
    let x3 = x2 / 256;
    lemma_byte_split(x);
    lemma_byte_split(x1);
    lemma_byte_split(x2);
    lemma_byte_split(x3);
    assert(byte_at(x, 1) == byte_at(x1, 0));
    assert(byte_at(x, 2) == byte_at(x1, 1) && byte_at(x1, 1) == byte_at(x2, 0));
    assert(byte_at(x, 3) == byte_at(x1, 2) && byte_at(x1, 2) == byte_at(x2, 1) && byte_at(x2, 1)
        == byte_at(x3, 0));
    assert(x3 / 256 == 0);
}

/// The bytes of the number that four bytes spell are those four bytes.
pub proof fn lemma_le_word_bytes(b: Seq<u8>)
    requires
        b.len() == 4,
    ensures
        le32(le_word(b)) == b,
{
    let w = le_word(b);
    let w1 = (b[1] as nat) + (b[2] as nat) * 0x100 + (b[3] as nat) * 0x1_0000;
    let w2 = (b[2] as nat) + (b[3] as nat) * 0x100;
    let w3 = b[3] as nat;
    assert(w == (b[0] as nat) + 256 * w1);
    assert(w / 256 == w1 && w % 256 == b[0] as nat);
    assert(w1 == (b[1] as nat) + 256 * w2);
    assert(w1 / 256 == w2 && w1 % 256 == b[1] as nat);
    assert(w2 == (b[2] as nat) + 256 * w3);
    assert(w2 / 256 == w3 && w2 % 256 == b[2] as nat);
    assert(w3 % 256 == b[3] as nat);
    lemma_byte_split(w);
    lemma_byte_split(w1);
    lemma_byte_split(w2);
    assert(byte_at(w, 1) == byte_at(w1, 0));
    assert(byte_at(w, 2) == byte_at(w1, 1) && byte_at(w1, 1) == byte_at(w2, 0));
    assert(byte_at(w, 3) == byte_at(w1, 2) && byte_at(w1, 2) == byte_at(w2, 1) && byte_at(w2, 1)
        == byte_at(w3, 0));
    assert(le32(w) =~= b);
}

/// The eight bytes of a 64-bit number spell it.
pub proof fn lemma_le64_spells(x: nat)
    requires
        x <= u64::MAX,
    ensures
        le_u64(le64(x)) == x,
{
    let lo = x % 0x1_0000_0000;
    let hi = x / 0x1_0000_0000;
    lemma_le32_spells(lo);
    lemma_le32_spells(hi);
    lemma_high_bytes(x);
    assert(le32(lo) =~= le64(x).subrange(0, 4));
    assert(le32(hi) =~= le64(x).subrange(4, 8));
    assert(le_u64(le64(x)) == le_word(le32(lo)) + 0x1_0000_0000 * le_word(le32(hi)));
}

/// The first four bytes of a number are those of its low 32 bits, and the
/// next four those of the number without its low 32 bits.
proof fn lemma_high_bytes(x: nat)
    ensures
        byte_at(x, 0) == byte_at(x % 0x1_0000_0000, 0),
        byte_at(x, 1) == byte_at(x % 0x1_0000_0000, 1),
        byte_at(x, 2) == byte_at(x % 0x1_0000_0000, 2),
        byte_at(x, 3) == byte_at(x % 0x1_0000_0000, 3),
        byte_at(x, 4) == byte_at(x / 0x1_0000_0000, 0),
        byte_at(x, 5) == byte_at(x / 0x1_0000_0000, 1),
        byte_at(x, 6) == byte_at(x / 0x1_0000_0000, 2),
        byte_at(x, 7) == byte_at(x / 0x1_0000_0000, 3),
{
    let x1 = x / 256;
    let x2 = x1 / 256;
    let x3 = x2 / 256;
    let x4 = x3 / 256;
    let l = x % 0x1_0000_0000;
    let l1 = l / 256;
    let l2 = l1 / 256;
    let l3 = l2 / 256;
    lemma_byte_split(x);
    lemma_byte_split(x1);
    lemma_byte_split(x2);
    lemma_byte_split(x3);
    lemma_byte_split(l);
    lemma_byte_split(l1);
    lemma_byte_split(l2);
    assert(x4 == x / 0x1_0000_0000);
    assert(x % 256 == l % 256);
    assert(x1 % 256 == l1 % 256);
    assert(x2 % 256 == l2 % 256);
    assert(x3 % 256 == l3 % 256);
    assert(byte_at(x, 1) == byte_at(x1, 0) && byte_at(l, 1) == byte_at(l1, 0));
    assert(byte_at(x, 2) == byte_at(x1, 1) && byte_at(x1, 1) == byte_at(x2, 0));
    assert(byte_at(l, 2) == byte_at(l1, 1) && byte_at(l1, 1) == byte_at(l2, 0));
    assert(byte_at(x, 3) == byte_at(x1, 2) && byte_at(x1, 2) == byte_at(x2, 1) && byte_at(x2, 1)
        == byte_at(x3, 0));
    assert(byte_at(l, 3) == byte_at(l1, 2) && byte_at(l1, 2) == byte_at(l2, 1) && byte_at(l2, 1)
        == byte_at(l3, 0));
    assert(byte_at(x, 4) == byte_at(x1, 3) && byte_at(x1, 3) == byte_at(x2, 2) && byte_at(x2, 2)
        == byte_at(x3, 1) && byte_at(x3, 1) == byte_at(x4, 0));
    assert(byte_at(x, 5) == byte_at(x1, 4) && byte_at(x1, 4) == byte_at(x2, 3) && byte_at(x2, 3)
        == byte_at(x3, 2) && byte_at(x3, 2) == byte_at(x4, 1));
    assert(byte_at(x, 6) == byte_at(x1, 5) && byte_at(x1, 5) == byte_at(x2, 4) && byte_at(x2, 4)
        == byte_at(x3, 3) && byte_at(x3, 3) == byte_at(x4, 2));
    assert(byte_at(x, 7) == byte_at(x1, 6) && byte_at(x1, 6) == byte_at(x2, 5) && byte_at(x2, 5)
        == byte_at(x3, 4) && byte_at(x3, 4) == byte_at(x4, 3));
}

/// Numbers below 2^32 with the same four bytes are the same number.
pub proof fn lemma_le32_injective(x: nat, y: nat)
    requires
        x < 0x1_0000_0000,
        y < 0x1_0000_0000,
        le32(x) == le32(y),
    ensures
        x == y,
{
    lemma_le32_spells(x);
    lemma_le32_spells(y);
}

/// 64-bit numbers with the same eight bytes are the same number.
pub proof fn lemma_le64_injective(x: nat, y: nat)
    requires
        x <= u64::MAX,
        y <= u64::MAX,
        le64(x) == le64(y),
    ensures
        x == y,
{
    lemma_le64_spells(x);
    lemma_le64_spells(y);
}

/// The lowest byte of `x`.
fn low_byte(x: u64) -> (b: u8)
    ensures
        b == byte_at(x as nat, 0),
{
    (x % 256) as u8
}

/// Appends the low 32 bits of `x` to `buf`, least significant byte first.
pub fn push_le32(buf: &mut Vec<u8>, x: u64)
    ensures
        final(buf)@ == old(buf)@ + le32(x as nat),
{
    let x1: u64 = x / 256;
    let x2: u64 = x1 / 256;
    let x3: u64 = x2 / 256;
    buf.push(low_byte(x));
    buf.push(low_byte(x1));
    buf.push(low_byte(x2));
    buf.push(low_byte(x3));
    proof {
        reveal_with_fuel(byte_at, 4);
        assert(buf@ =~= old(buf)@ + le32(x as nat));
    }
}

/// Appends the low 32 bits of `x` to `buf`, most significant byte first.
pub fn push_be32(buf: &mut Vec<u8>, x: u64)
    ensures
        final(buf)@ == old(buf)@ + be32(x as nat),
{
    let x1: u64 = x / 256;
    let x2: u64 = x1 / 256;
    let x3: u64 = x2 / 256;
    buf.push(low_byte(x3));
    buf.push(low_byte(x2));
    buf.push(low_byte(x1));
    buf.push(low_byte(x));
    proof {
        reveal_with_fuel(byte_at, 4);
        assert(buf@ =~= old(buf)@ + be32(x as nat));
    }
}

/// Appends the eight bytes of `x` to `buf`, least significant byte first.
pub fn push_le64(buf: &mut Vec<u8>, x: u64)
    ensures
        final(buf)@ == old(buf)@ + le64(x as nat),
{
    let x1: u64 = x / 256;
    let x2: u64 = x1 / 256;
    let x3: u64 = x2 / 256;
    let x4: u64 = x3 / 256;
    let x5: u64 = x4 / 256;
    let x6: u64 = x5 / 256;
    let x7: u64 = x6 / 256;
    buf.push(low_byte(x));
    buf.push(low_byte(x1));
    buf.push(low_byte(x2));
    buf.push(low_byte(x3));
    buf.push(low_byte(x4));
    buf.push(low_byte(x5));
    buf.push(low_byte(x6));
    buf.push(low_byte(x7));
    proof {
        reveal_with_fuel(byte_at, 8);
        assert(buf@ =~= old(buf)@ + le64(x as nat));
    }
}

} // verus!
