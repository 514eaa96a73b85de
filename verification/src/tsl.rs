//! The encoder: from a digest to the vector of chain steps.

use vstd::prelude::*;
use vstd::arithmetic::div_mod::{
    lemma_mod_bound, lemma_mod_decreases, lemma_mod_twice, lemma_small_mod,
};
use crate::bytes::le_u64;
use crate::hash::{hash_message_randomness, sha256};
use crate::layer::{
    count_below, count_with_first, first_entry, in_layer, layer_count, lemma_count_below_past_sum,
    lemma_first_entry_bounds, lemma_layer_count_positive, lemma_lex_less_distinct,
    lemma_vertex_at_rank, lemma_vertex_in_layer, lemma_vertex_order, lex_less, vertex_at,
    vertex_rank,
};
use crate::types::TslParams;

verus! {

/// Why no vector could be produced.
#[derive(Debug, Clone, Copy)]
pub enum MappingError {
    /// The parameters describe no layer: no chain, a base below two, or a sum
    /// that the chains cannot reach.
    InvalidParams,
}

/// The parameters describe a layer that is not empty.
pub open spec fn valid_layer_params(w: nat, v: nat, d0: nat) -> bool {
    v != 0 && w > 1 && d0 <= v * (w - 1)
}

/// The vector that an index stands for: the one whose rank is the index
/// reduced modulo the size of the layer.
pub open spec fn vertex_of_index(index: nat, w: nat, v: nat, d0: nat) -> Seq<u16> {
    vertex_at(w, v, d0, index % layer_count(w, v, d0))
}

/// The index that a message and its randomness are mapped to: the first
/// eight bytes of their digest, least significant byte first.
pub open spec fn digest_index_of(message: Seq<u8>, randomness: Seq<u8>) -> nat {
    le_u64(sha256(message + randomness))
}

/// `res` is what encoding `message` and `randomness` under `params` comes to:
/// the vector of the index that their digest spells, or an error where the
/// parameters describe no layer.
pub open spec fn encodes_to(
    message: Seq<u8>,
    randomness: Seq<u8>,
    params: TslParams,
    res: Result<Vec<u16>, MappingError>,
) -> bool {
    &&& res is Ok <==> valid_layer_params(params.w as nat, params.v as nat, params.d0 as nat)
    &&& res is Ok ==> res->Ok_0@ == vertex_of_index(
        digest_index_of(message, randomness),
        params.w as nat,
        params.v as nat,
        params.d0 as nat,
    )
}

/// Encoding is a function of its inputs: two outcomes for the same message,
/// randomness and parameters fail together or hold the same vector.
pub proof fn lemma_encoding_deterministic(
    message: Seq<u8>,
    randomness: Seq<u8>,
    params: TslParams,
    first: Result<Vec<u16>, MappingError>,
    second: Result<Vec<u16>, MappingError>,
)
    requires
        encodes_to(message, randomness, params, first),
        encodes_to(message, randomness, params, second),
    ensures
        first is Ok <==> second is Ok,
        first is Ok ==> first->Ok_0@ == second->Ok_0@,
{
}

/// Every index stands for a vector of the layer: of length `v`, with entries
/// below `w` that sum to `d0`.
pub proof fn lemma_index_names_layer_vector(index: nat, w: nat, v: nat, d0: nat)
    requires
        valid_layer_params(w, v, d0),
        w <= 0x10000,
    ensures
        in_layer(vertex_of_index(index, w, v, d0), w, v, d0),
{
    lemma_layer_count_positive(w, v, d0);
    lemma_mod_bound(index as int, layer_count(w, v, d0) as int);
    lemma_vertex_in_layer(w, v, d0, index % layer_count(w, v, d0));
}

/// Counting the indices up from zero to the size of the layer walks through
/// the layer in lexicographic order: a smaller index stands for an earlier
/// vector, and so no vector is met twice.
pub proof fn lemma_indices_enumerate_in_order(i: nat, j: nat, w: nat, v: nat, d0: nat)
    requires
        valid_layer_params(w, v, d0),
        w <= 0x10000,
        i < j < layer_count(w, v, d0),
    ensures
        lex_less(vertex_of_index(i, w, v, d0), vertex_of_index(j, w, v, d0)),
        vertex_of_index(i, w, v, d0) != vertex_of_index(j, w, v, d0),
{
    lemma_small_mod(i, layer_count(w, v, d0));
    lemma_small_mod(j, layer_count(w, v, d0));
    lemma_vertex_order(w, v, d0, i, j);
    lemma_lex_less_distinct(vertex_of_index(i, w, v, d0), vertex_of_index(j, w, v, d0));
}

/// No vector of the layer is left out: each is what its rank stands for, and
/// its rank is below the size of the layer.
pub proof fn lemma_indices_cover_layer(x: Seq<u16>, w: nat, v: nat, d0: nat)
    requires
        valid_layer_params(w, v, d0),
        in_layer(x, w, v, d0),
    ensures
        vertex_rank(w, x, d0) < layer_count(w, v, d0),
        vertex_of_index(vertex_rank(w, x, d0), w, v, d0) == x,
{
    lemma_vertex_at_rank(w, v, d0, x);
    lemma_small_mod(vertex_rank(w, x, d0), layer_count(w, v, d0));
}

/// The rank of the vector that an index below the size of the layer stands
/// for is that index: ranks and vectors of the layer match one to one.
pub proof fn lemma_rank_of_indexed_vertex(i: nat, w: nat, v: nat, d0: nat)
    requires
        valid_layer_params(w, v, d0),
        w <= 0x10000,
        i < layer_count(w, v, d0),
    ensures
        vertex_rank(w, vertex_of_index(i, w, v, d0), d0) == i,
{
    let x = vertex_of_index(i, w, v, d0);
    let j = vertex_rank(w, x, d0);
    lemma_index_names_layer_vector(i, w, v, d0);
    lemma_indices_cover_layer(x, w, v, d0);
    if i < j {
        lemma_indices_enumerate_in_order(i, j, w, v, d0);
    }
    if j < i {
        lemma_indices_enumerate_in_order(j, i, w, v, d0);
    }
}

/// An index and its remainder modulo the size of the layer stand for the same vector.
pub proof fn lemma_index_periodic(index: nat, w: nat, v: nat, d0: nat)
    requires
        valid_layer_params(w, v, d0),
    ensures
        vertex_of_index(index, w, v, d0) == vertex_of_index(
            index % layer_count(w, v, d0),
            w,
            v,
            d0,
        ),
{
    lemma_layer_count_positive(w, v, d0);
    lemma_mod_twice(index as int, layer_count(w, v, d0) as int);
}

/// A count as the table holds it: capped at the largest 128-bit value.
pub open spec fn saturated(c: nat) -> u128 {
    if c > u128::MAX { u128::MAX } else { c as u128 }
}

/// `row` holds the capped sizes of the layers of `n` entries, for every sum up to `d0`.
pub open spec fn row_counts(row: Seq<u128>, w: nat, n: nat, d0: nat) -> bool {
    &&& row.len() == d0 + 1
    &&& forall|s: int| 0 <= s <= d0 ==> #[trigger] row[s] == saturated(layer_count(w, n, s as nat))
}

/// `dp` holds a row of capped layer sizes for each number of entries below `rows`.
pub open spec fn table_counts(dp: Seq<Vec<u128>>, w: nat, rows: nat, d0: nat) -> bool {
    &&& dp.len() == rows
    &&& forall|n: int| 0 <= n < rows ==> row_counts(#[trigger] dp[n]@, w, n as nat, d0)
}

/// The row for vectors without entries: one vector of sum zero, none of any other.
fn first_row(w: usize, d0: usize) -> (row: Vec<u128>)
    requires
        d0 < usize::MAX,
    ensures
        row_counts(row@, w as nat, 0, d0 as nat),
{
    let mut row: Vec<u128> = Vec::new();
    row.push(1u128);
    let mut s: usize = 0;
    while s < d0
        invariant
            s <= d0,
            row@.len() == s + 1,
            forall|t: int|
                0 <= t <= s ==> #[trigger] row@[t] == saturated(
                    layer_count(w as nat, 0, t as nat),
                ),
        decreases d0 - s,
    {
        row.push(0u128);
        s += 1;
    }
    row
}

/// The row for vectors of `n + 1` entries, from the row for `n`: each size is
/// the sum of the sizes of the layers that remain once the first entry is chosen.
fn next_row(prev: &Vec<u128>, w: usize, d0: usize, Ghost(n): Ghost<nat>) -> (row: Vec<u128>)
    requires
        w >= 1,
        d0 < usize::MAX,
        row_counts(prev@, w as nat, n, d0 as nat),
    ensures
        row_counts(row@, w as nat, n + 1, d0 as nat),
{
    let mut row: Vec<u128> = Vec::new();
    let mut s: usize = 0;
    while s <= d0
        invariant
            w >= 1,
            d0 < usize::MAX,
            s <= d0 + 1,
            row@.len() == s,
            row_counts(prev@, w as nat, n, d0 as nat),
            forall|t: int|
                0 <= t < s ==> #[trigger] row@[t] == saturated(
                    layer_count(w as nat, n + 1, t as nat),
                ),
        decreases d0 + 1 - s,
    {
        let max_x: usize = if w - 1 < s { w - 1 } else { s };
        let mut acc: u128 = 0;
        let mut x: usize = 0;
        while x <= max_x
            invariant
                max_x <= s <= d0,
                max_x < w,
                d0 < usize::MAX,
                x <= max_x + 1,
                row_counts(prev@, w as nat, n, d0 as nat),
                acc == saturated(count_below(w as nat, n, s as nat, x as nat)),
            decreases max_x + 1 - x,
        {
            let c: u128 = prev[s - x];
            assert(c == saturated(count_with_first(w as nat, n, s as nat, x as nat)));
            acc = acc.saturating_add(c);
            x += 1;
        }
        proof {
            if max_x < w - 1 {
                lemma_count_below_past_sum(w as nat, n, s as nat, w as nat);
            }
            assert(layer_count(w as nat, n + 1, s as nat) == count_below(
                w as nat,
                n,
                s as nat,
                w as nat,
            ));
        }
        row.push(acc);
        s += 1;
    }
    row
}

/// The table of layer sizes for every number of entries up to `v` and every sum up to `d0`.
fn build_table(w: usize, v: usize, d0: usize) -> (dp: Vec<Vec<u128>>)
    requires
        w >= 1,
        v < usize::MAX,
        d0 < usize::MAX,
    ensures
        table_counts(dp@, w as nat, (v + 1) as nat, d0 as nat),
{
    let mut dp: Vec<Vec<u128>> = Vec::new();
    dp.push(first_row(w, d0));
    let mut n: usize = 0;
    while n < v
        invariant
            w >= 1,
            n <= v < usize::MAX,
            d0 < usize::MAX,
            table_counts(dp@, w as nat, (n + 1) as nat, d0 as nat),
        decreases v - n,
    {
        let row = next_row(&dp[n], w, d0, Ghost(n as nat));
        dp.push(row);
        n += 1;
    }
    dp
}

/// The vector of rank `idx`, read off the table entry by entry.
fn unrank(dp: &Vec<Vec<u128>>, w: usize, v: usize, d0: usize, idx: u64) -> (res: Vec<u16>)
    requires
        1 <= w <= 0x10000,
        v < usize::MAX,
        d0 < usize::MAX,
        table_counts(dp@, w as nat, (v + 1) as nat, d0 as nat),
        (idx as nat) < layer_count(w as nat, v as nat, d0 as nat),
    ensures
        res@ == vertex_at(w as nat, v as nat, d0 as nat, idx as nat),
{
    let mut res: Vec<u16> = Vec::new();
    let mut rem: usize = v;
    let mut sum: usize = d0;
    let mut cur: u128 = idx as u128;
    while rem > 0
        invariant
            1 <= w <= 0x10000,
            rem <= v < usize::MAX,
            sum <= d0 < usize::MAX,
            table_counts(dp@, w as nat, (v + 1) as nat, d0 as nat),
            cur <= u64::MAX,
            (cur as nat) < layer_count(w as nat, rem as nat, sum as nat),
            res@ + vertex_at(w as nat, rem as nat, sum as nat, cur as nat) == vertex_at(
                w as nat,
                v as nat,
                d0 as nat,
                idx as nat,
            ),
        decreases rem,
    {
        let ghost m = (rem - 1) as nat;
        let ghost start = cur as nat;
        let max_x: usize = if w - 1 < sum { w - 1 } else { sum };
        proof {
            if max_x < w - 1 {
                lemma_count_below_past_sum(w as nat, m, sum as nat, w as nat);
            }
            lemma_first_entry_bounds(w as nat, m, sum as nat, start, 0);
        }
        let mut x: usize = 0;
        let mut found: bool = false;
        while !found
            invariant
                1 <= w <= 0x10000,
                1 <= rem <= v < usize::MAX,
                m == rem - 1,
                sum <= d0 < usize::MAX,
                max_x == (if w - 1 < sum { (w - 1) as usize } else { sum }),
                x <= max_x,
                table_counts(dp@, w as nat, (v + 1) as nat, d0 as nat),
                start <= u64::MAX,
                start < count_below(w as nat, m, sum as nat, (max_x + 1) as nat),
                count_below(w as nat, m, sum as nat, x as nat) <= start,
                cur as nat == start - count_below(w as nat, m, sum as nat, x as nat),
                first_entry(w as nat, m, sum as nat, start, 0) == first_entry(
                    w as nat,
                    m,
                    sum as nat,
                    start,
                    x as nat,
                ),
                found ==> start < count_below(w as nat, m, sum as nat, (x + 1) as nat),
            decreases (if found { 0int } else { max_x + 1 - x }),
        {
            assert(row_counts(dp@[rem - 1]@, w as nat, m, d0 as nat));
            let count: u128 = dp[rem - 1][sum - x];
            assert(count == saturated(count_with_first(w as nat, m, sum as nat, x as nat)));
            if cur < count {
                found = true;
            } else {
                cur -= count;
                x += 1;
            }
        }
        proof {
            let e = first_entry(w as nat, m, sum as nat, start, 0);
            assert(e == x);
            assert(vertex_at(w as nat, rem as nat, sum as nat, start) == seq![x as u16] + vertex_at(
                w as nat,
                m,
                (sum - x) as nat,
                cur as nat,
            ));
            assert(res@.push(x as u16) + vertex_at(w as nat, m, (sum - x) as nat, cur as nat)
                =~= res@ + vertex_at(w as nat, rem as nat, sum as nat, start));
            assert(count_with_first(w as nat, m, sum as nat, x as nat) == layer_count(
                w as nat,
                m,
                (sum - x) as nat,
            ));
        }
        res.push(x as u16);
        sum -= x;
        rem -= 1;
    }
    assert(res@ + Seq::<u16>::empty() =~= res@);
    res
}

/// The vector of length `v`, with entries below `w` that sum to `d0`, that
/// `index` stands for: the one of rank `index` modulo the size of the layer,
/// in lexicographic order.
///
/// The entries of the result are 16-bit, so the base is at most `0x10000`;
/// the table of layer sizes has a column for each sum up to `v * (w - 1)`,
/// which therefore has to be below `usize::MAX`.
pub fn integer_to_vertex(index: u64, w: usize, v: usize, d0: usize) -> (res: Result<
    Vec<u16>,
    MappingError,
>)
    requires
        w <= 0x10000,
        v * (w - 1) < usize::MAX,
    ensures
        res is Ok <==> valid_layer_params(w as nat, v as nat, d0 as nat),
        res is Ok ==> res->Ok_0@ == vertex_of_index(index as nat, w as nat, v as nat, d0 as nat),
        res is Ok ==> in_layer(res->Ok_0@, w as nat, v as nat, d0 as nat),
{
    if v == 0 || w <= 1 {
        return Err(MappingError::InvalidParams);
    }
    assert(v * (w - 1) >= v && v * (w - 1) >= 0) by (nonlinear_arith)
        requires
            v >= 1,
            w >= 2,
    ;
    let reach: usize = v * (w - 1);
    if d0 > reach {
        return Err(MappingError::InvalidParams);
    }
    let dp = build_table(w, v, d0);
    assert(row_counts(dp@[v as int]@, w as nat, v as nat, d0 as nat));
    let layer_size: u128 = dp[v][d0];
    proof {
        lemma_layer_count_positive(w as nat, v as nat, d0 as nat);
    }
    if layer_size == 0 {
        return Err(MappingError::InvalidParams);
    }
    let idx: u128 = (index as u128) % layer_size;
    proof {
        let size = layer_count(w as nat, v as nat, d0 as nat);
        if size > u128::MAX {
            lemma_small_mod(index as nat, layer_size as nat);
            lemma_small_mod(index as nat, size);
        }
        lemma_mod_bound(index as int, size as int);
        lemma_mod_decreases(index as nat, layer_size as nat);
        assert(idx as nat == (index as nat) % size);
        lemma_vertex_in_layer(w as nat, v as nat, d0 as nat, idx as nat);
    }
    Ok(unrank(&dp, w, v, d0, idx as u64))
}

/// The vector that `index` stands for under `params`.
pub fn map_to_layer(index: u64, params: &TslParams) -> (res: Result<Vec<u16>, MappingError>)
    ensures
        res is Ok <==> valid_layer_params(params.w as nat, params.v as nat, params.d0 as nat),
        res is Ok ==> res->Ok_0@ == vertex_of_index(
            index as nat,
            params.w as nat,
            params.v as nat,
            params.d0 as nat,
        ),
        res is Ok ==> in_layer(res->Ok_0@, params.w as nat, params.v as nat, params.d0 as nat),
{
    let w: usize = params.w as usize;
    let v: usize = params.v as usize;
    assert(v * (w - 1) < 0xffff_0000) by (nonlinear_arith)
        requires
            v <= 0xffff,
            w <= 0xffff,
    ;
    // A sum this large is out of reach of 16-bit `v` and `w`, and need not fit in `usize`.
    if params.d0 >= 0xffff_0000u32 {
        assert(!valid_layer_params(params.w as nat, params.v as nat, params.d0 as nat));
        return Err(MappingError::InvalidParams);
    }
    let d0: usize = params.d0 as usize;
    integer_to_vertex(index, w, v, d0)
}

/// The index that a digest spells: its first eight bytes, least significant first.
pub fn digest_index(digest: &[u8; 32]) -> (index: u64)
    ensures
        index as nat == le_u64(digest@),
{
    let b0: u64 = digest[0] as u64;
    let b1: u64 = digest[1] as u64;
    let b2: u64 = digest[2] as u64;
    let b3: u64 = digest[3] as u64;
    let b4: u64 = digest[4] as u64;
    let b5: u64 = digest[5] as u64;
    let b6: u64 = digest[6] as u64;
    let b7: u64 = digest[7] as u64;
    b0 + b1 * 0x100 + b2 * 0x1_0000 + b3 * 0x100_0000 + b4 * 0x1_0000_0000 + b5 * 0x100_0000_0000
        + b6 * 0x1_0000_0000_0000 + b7 * 0x100_0000_0000_0000
}

/// The vector of chain steps that a message and its randomness are encoded
/// as: their digest gives an index, and the index a vector of the layer.
pub fn encode_vertex(message: &[u8], randomness: &[u8], params: &TslParams) -> (res: Result<
    Vec<u16>,
    MappingError,
>)
    ensures
        encodes_to(message@, randomness@, *params, res),
        res is Ok ==> in_layer(res->Ok_0@, params.w as nat, params.v as nat, params.d0 as nat),
{
    let h = hash_message_randomness(message, randomness);
    let index: u64 = digest_index(&h);
    map_to_layer(index, params)
}

} // verus!
