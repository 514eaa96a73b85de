//! Reading the revealed words back from a line of a run's printed output,
//! such as `Execution output: [1, 0, 0, 0, ...]`.

use vstd::prelude::*;
use vstd::string::*;
use crate::bytes::le_word;

verus! {

/// White space as `char::is_whitespace` knows it.
pub open spec fn is_space(c: char) -> bool {
    let n = c as u32;
    (9 <= n <= 13) || n == 0x20 || n == 0x85 || n == 0xa0 || n == 0x1680 || (0x2000 <= n
        <= 0x200a) || n == 0x2028 || n == 0x2029 || n == 0x202f || n == 0x205f || n == 0x3000
}

/// `s` without the white space at its ends.
pub open spec fn trimmed(s: Seq<char>) -> Seq<char>
    decreases s.len(),
{
    if s.len() > 0 && is_space(s[0]) {
        trimmed(s.drop_first())
    } else if s.len() > 0 && is_space(s.last()) {
        trimmed(s.drop_last())
    } else {
        s
    }
}

/// The value of a decimal digit; 10 for any other character.
pub open spec fn digit_value(c: char) -> nat {
    let n = c as u32;
    if 48 <= n <= 57 { (n - 48) as nat } else { 10 }
}

/// Every character is a decimal digit.
pub open spec fn all_digits(s: Seq<char>) -> bool {
    forall|i: int| 0 <= i < s.len() ==> digit_value(#[trigger] s[i]) < 10
}

/// The number that a string of decimal digits spells.
pub open spec fn number(s: Seq<char>) -> nat
    decreases s.len(),
{
    if s.len() == 0 {
        0
    } else {
        number(s.drop_last()) * 10 + digit_value(s.last())
    }
}

/// The byte that a field spells: decimal digits, at least one, behind an
/// optional `+`, with a value of at most 255.
pub open spec fn parsed_byte(s: Seq<char>) -> Option<u8> {
    let digits = if s.len() > 0 && s[0] == '+' { s.drop_first() } else { s };
    if digits.len() > 0 && all_digits(digits) && number(digits) <= 255 {
        Some(number(digits) as u8)
    } else {
        None
    }
}

/// The position of the first `c` in `s`, or the length of `s` if there is none.
pub open spec fn first_index(s: Seq<char>, c: char) -> nat
    decreases s.len(),
{
    if s.len() == 0 || s[0] == c {
        0
    } else {
        1 + first_index(s.drop_first(), c)
    }
}

/// The position of the last `c` in `s`, or -1 if there is none.
pub open spec fn last_index(s: Seq<char>, c: char) -> int
    decreases s.len(),
{
    if s.len() == 0 {
        -1
    } else if s.last() == c {
        s.len() - 1
    } else {
        last_index(s.drop_last(), c)
    }
}

/// The bytes that a list of fields spells, the fields parted by commas.
/// Fields of white space alone are passed over; a field that spells no byte
/// spoils the list.
pub open spec fn field_bytes(s: Seq<char>) -> Option<Seq<u8>>
    decreases s.len(),
{
    let i = first_index(s, ',') as int;
    let head = trimmed(s.subrange(0, i));
    let here: Option<Seq<u8>> = if head.len() == 0 {
        Some(Seq::empty())
    } else {
        match parsed_byte(head) {
            Some(b) => Some(seq![b]),
            None => None,
        }
    };
    if i >= s.len() {
        here
    } else {
        match (here, field_bytes(s.subrange(i + 1, s.len() as int))) {
            (Some(a), Some(b)) => Some(a + b),
            _ => None,
        }
    }
}

/// The ten words at the head of a list of bytes, four bytes each, least
/// significant byte first; none for fewer than forty bytes.
pub open spec fn leading_words(bytes: Seq<u8>) -> Option<Seq<u32>> {
    if bytes.len() < 40 {
        None
    } else {
        Some(Seq::new(10, |i: int| le_word(bytes.subrange(4 * i, 4 * i + 4)) as u32))
    }
}

/// The words that a line of output holds: the bytes listed between its
/// first `[` and its last `]`, read as ten words. A line without the two
/// brackets in this order holds none.
pub open spec fn words_in_line(line: Seq<char>) -> Option<Seq<u32>> {
    let start = first_index(line, '[') as int;
    let end = last_index(line, ']');
    if start >= line.len() || end < start {
        None
    } else {
        match field_bytes(line.subrange(start + 1, end)) {
            Some(bytes) => leading_words(bytes),
            None => None,
        }
    }
}

proof fn lemma_first_index_bounds(s: Seq<char>, c: char)
    ensures
        0 <= first_index(s, c) <= s.len(),
        first_index(s, c) < s.len() ==> s[first_index(s, c) as int] == c,
        forall|k: int| 0 <= k < first_index(s, c) ==> s[k] != c,
    decreases s.len(),
{
    if s.len() > 0 && s[0] != c {
        let rest = s.drop_first();
        lemma_first_index_bounds(rest, c);
        assert forall|k: int| 0 <= k < first_index(s, c) implies s[k] != c by {
            if k > 0 {
                assert(s[k] == rest[k - 1]);
            }
        }
    }
}

/// The first position at or after `from` and before `to` that holds `c`, or `to`.
fn find_first(chars: &[char], from: usize, to: usize, c: char) -> (at: usize)
    requires
        from <= to <= chars@.len(),
    ensures
        at == from + first_index(chars@.subrange(from as int, to as int), c),
        from <= at <= to,
        at < to ==> chars@[at as int] == c,
{
    let mut i: usize = from;
    while i < to && chars[i] != c
        invariant
            from <= i <= to <= chars@.len(),
            forall|k: int| from <= k < i ==> chars@[k] != c,
        decreases to - i,
    {
        i += 1;
    }
    proof {
        let s = chars@.subrange(from as int, to as int);
        lemma_first_index_bounds(s, c);
        let f = first_index(s, c) as int;
        if f < i - from {
            assert(s[f] == chars@[from + f]);
        }
        if f > i - from {
            assert(s[i - from] == chars@[i as int]);
        }
    }
    i
}

proof fn lemma_last_index_bounds(s: Seq<char>, c: char)
    ensures
        -1 <= last_index(s, c) < s.len(),
        last_index(s, c) >= 0 ==> s[last_index(s, c)] == c,
        forall|k: int| last_index(s, c) < k < s.len() ==> s[k] != c,
    decreases s.len(),
{
    if s.len() > 0 && s.last() != c {
        let rest = s.drop_last();
        lemma_last_index_bounds(rest, c);
        assert forall|k: int| last_index(s, c) < k < s.len() implies s[k] != c by {
            if k < s.len() - 1 {
                assert(s[k] == rest[k]);
            }
        }
    }
}

/// The last position that holds `c`, if there is one.
fn find_last(chars: &[char], c: char) -> (at: Option<usize>)
    ensures
        at is Some <==> last_index(chars@, c) >= 0,
        at is Some ==> at->Some_0 == last_index(chars@, c) && chars@[at->Some_0 as int] == c,
{
    let mut i: usize = chars.len();
    while i > 0 && chars[i - 1] != c
        invariant
            i <= chars@.len(),
            forall|k: int| i <= k < chars@.len() ==> chars@[k] != c,
        decreases i,
    {
        i -= 1;
    }
    proof {
        lemma_last_index_bounds(chars@, c);
    }
    if i == 0 {
        None
    } else {
        Some(i - 1)
    }
}

/// Whether `c` is white space.
fn is_whitespace(c: char) -> (yes: bool)
    ensures
        yes == is_space(c),
{
    let n: u32 = c as u32;
    (9 <= n && n <= 13) || n == 0x20 || n == 0x85 || n == 0xa0 || n == 0x1680 || (0x2000 <= n
        && n <= 0x200a) || n == 0x2028 || n == 0x2029 || n == 0x202f || n == 0x205f || n
        == 0x3000
}

/// The bounds of the field between `from` and `to` without the white space at its ends.
fn trim_bounds(chars: &[char], from: usize, to: usize) -> (bounds: (usize, usize))
    requires
        from <= to <= chars@.len(),
    ensures
        from <= bounds.0 <= bounds.1 <= to,
        chars@.subrange(bounds.0 as int, bounds.1 as int) == trimmed(
            chars@.subrange(from as int, to as int),
        ),
{
    let mut lo: usize = from;
    while lo < to && is_whitespace(chars[lo])
        invariant
            from <= lo <= to <= chars@.len(),
            trimmed(chars@.subrange(lo as int, to as int)) == trimmed(
                chars@.subrange(from as int, to as int),
            ),
        decreases to - lo,
    {
        proof {
            let s = chars@.subrange(lo as int, to as int);
            assert(s[0] == chars@[lo as int]);
            assert(s.drop_first() =~= chars@.subrange(lo + 1, to as int));
        }
        lo += 1;
    }
    let mut hi: usize = to;
    while lo < hi && is_whitespace(chars[hi - 1])
        invariant
            from <= lo <= hi <= to <= chars@.len(),
            lo < hi ==> !is_space(chars@[lo as int]),
            trimmed(chars@.subrange(lo as int, hi as int)) == trimmed(
                chars@.subrange(from as int, to as int),
            ),
        decreases hi - lo,
    {
        proof {
            let s = chars@.subrange(lo as int, hi as int);
            assert(s[0] == chars@[lo as int]);
            assert(s.last() == chars@[hi - 1]);
            assert(s.drop_last() =~= chars@.subrange(lo as int, hi - 1));
        }
        hi -= 1;
    }
    proof {
        let s = chars@.subrange(lo as int, hi as int);
        if lo < hi {
            assert(s[0] == chars@[lo as int]);
            assert(s.last() == chars@[hi - 1]);
        }
        assert(trimmed(s) == s);
    }
    (lo, hi)
}

/// The byte that the field between `from` and `to` spells.
fn parse_byte(chars: &[char], from: usize, to: usize) -> (res: Option<u8>)
    requires
        from <= to <= chars@.len(),
    ensures
        res == parsed_byte(chars@.subrange(from as int, to as int)),
{
    let ghost field = chars@.subrange(from as int, to as int);
    let start: usize = if from < to && chars[from] == '+' { from + 1 } else { from };
    let ghost digits = chars@.subrange(start as int, to as int);
    proof {
        if from < to {
            assert(field[0] == chars@[from as int]);
        }
        assert(digits =~= (if field.len() > 0 && field[0] == '+' {
            field.drop_first()
        } else {
            field
        }));
    }
    if start == to {
        return None;
    }
    let mut acc: u32 = 0;
    let mut i: usize = start;
    while i < to
        invariant
            from <= start <= i <= to <= chars@.len(),
            field == chars@.subrange(from as int, to as int),
            digits == chars@.subrange(start as int, to as int),
            digits == (if field.len() > 0 && field[0] == '+' {
                field.drop_first()
            } else {
                field
            }),
            all_digits(chars@.subrange(start as int, i as int)),
            acc <= 256,
            acc as nat == (if number(chars@.subrange(start as int, i as int)) > 255 {
                256
            } else {
                number(chars@.subrange(start as int, i as int))
            }),
        decreases to - i,
    {
        let n: u32 = chars[i] as u32;
        let ghost before = chars@.subrange(start as int, i as int);
        let ghost after = chars@.subrange(start as int, i + 1);
        proof {
            assert(after.drop_last() =~= before);
            assert(after.last() == chars@[i as int]);
            assert(digits[i - start] == chars@[i as int]);
        }
        if n < 48 || n > 57 {
            assert(digit_value(digits[i - start]) >= 10);
            return None;
        }
        let d: u32 = n - 48;
        acc = acc * 10 + d;
        if acc > 255 {
            acc = 256;
        }
        proof {
            assert forall|k: int| 0 <= k < after.len() implies digit_value(#[trigger] after[k])
                < 10 by {
                if k < before.len() {
                    assert(after[k] == before[k]);
                }
            }
            assert(number(after) == number(before) * 10 + d);
        }
        i += 1;
    }
    assert(chars@.subrange(start as int, i as int) =~= digits);
    if acc > 255 {
        None
    } else {
        Some(acc as u8)
    }
}

/// The bytes that the fields between `from` and `to` spell.
fn parse_fields(chars: &[char], from: usize, to: usize) -> (res: Option<Vec<u8>>)
    requires
        from <= to <= chars@.len(),
    ensures
        res is Some <==> field_bytes(chars@.subrange(from as int, to as int)) is Some,
        res is Some ==> res->Some_0@ == field_bytes(
            chars@.subrange(from as int, to as int),
        )->Some_0,
{
    let ghost whole = field_bytes(chars@.subrange(from as int, to as int));
    let mut bytes: Vec<u8> = Vec::new();
    let mut pos: usize = from;
    let mut done: bool = false;
    while !done
        invariant
            from <= pos <= to <= chars@.len(),
            whole == field_bytes(chars@.subrange(from as int, to as int)),
            !done ==> (whole is Some <==> field_bytes(
                chars@.subrange(pos as int, to as int),
            ) is Some),
            !done ==> (whole is Some ==> whole->Some_0 == bytes@ + field_bytes(
                chars@.subrange(pos as int, to as int),
            )->Some_0),
            done ==> whole == Some(bytes@),
        decreases (if done { 0int } else { to - pos + 1 }),
    {
        let ghost rest = chars@.subrange(pos as int, to as int);
        let comma = find_first(chars, pos, to, ',');
        let (lo, hi) = trim_bounds(chars, pos, comma);
        proof {
            assert(rest.subrange(0, comma - pos) =~= chars@.subrange(pos as int, comma as int));
            if comma < to {
                assert(rest.subrange(comma - pos + 1, rest.len() as int) =~= chars@.subrange(
                    comma + 1,
                    to as int,
                ));
            }
        }
        let ghost before = bytes@;
        if lo < hi {
            match parse_byte(chars, lo, hi) {
                Some(b) => {
                    bytes.push(b);
                    assert(bytes@ =~= before + seq![b]);
                },
                None => {
                    return None;
                },
            }
        } else {
            assert(bytes@ =~= before + Seq::<u8>::empty());
        }
        if comma < to {
            proof {
                let tail = field_bytes(chars@.subrange(comma + 1, to as int));
                if tail is Some && whole is Some {
                    assert(whole->Some_0 =~= bytes@ + tail->Some_0);
                }
            }
            pos = comma + 1;
        } else {
            done = true;
        }
    }
    Some(bytes)
}

/// The characters of a string.
fn chars_of(line: &str) -> (chars: Vec<char>)
    ensures
        chars@ == line@,
{
    let n: usize = line.unicode_len();
    let mut chars: Vec<char> = Vec::new();
    let mut i: usize = 0;
    while i < n
        invariant
            i <= n,
            n == line@.len(),
            chars@ == line@.subrange(0, i as int),
        decreases n - i,
    {
        chars.push(line.get_char(i));
        assert(chars@ =~= line@.subrange(0, i + 1));
        i += 1;
    }
    assert(line@.subrange(0, n as int) =~= line@);
    chars
}

/// Reads the ten revealed words off a line of output.
pub fn parse_output_words(line: &str) -> (res: Option<[u32; 10]>)
    ensures
        res is Some <==> words_in_line(line@) is Some,
        res is Some ==> res->Some_0@ == words_in_line(line@)->Some_0,
{
    let chars = chars_of(line);
    let start = find_first(chars.as_slice(), 0, chars.len(), '[');
    assert(chars@.subrange(0, chars@.len() as int) =~= chars@);
    if start >= chars.len() {
        return None;
    }
    let end = match find_last(chars.as_slice(), ']') {
        Some(e) => e,
        None => {
            return None;
        },
    };
    if end < start {
        return None;
    }
    proof {
        lemma_last_index_bounds(chars@, ']');
    }
    let bytes = match parse_fields(chars.as_slice(), start + 1, end) {
        Some(b) => b,
        None => {
            return None;
        },
    };
    if bytes.len() < 40 {
        return None;
    }
    let mut words: [u32; 10] = [0u32; 10];
    let mut i: usize = 0;
    while i < 10
        invariant
            i <= 10,
            bytes@.len() >= 40,
            forall|j: int|
                0 <= j < i ==> words@[j] == le_word(bytes@.subrange(4 * j, 4 * j + 4)) as u32,
        decreases 10 - i,
    {
        let b0: u32 = bytes[4 * i] as u32;
        let b1: u32 = bytes[4 * i + 1] as u32;
        let b2: u32 = bytes[4 * i + 2] as u32;
        let b3: u32 = bytes[4 * i + 3] as u32;
        words[i] = b0 + b1 * 0x100 + b2 * 0x1_0000 + b3 * 0x100_0000;
        i += 1;
    }
    assert(words@ =~= leading_words(bytes@)->Some_0);
    Some(words)
}

} // verus!
