//! Cutting a data set of `len` samples into consecutive chunks of `size`
//! samples each, the last one possibly shorter.

use vstd::prelude::*;

verus! {

/// Number of chunks that `len` samples are cut into.
pub open spec fn chunk_total(len: nat, size: nat) -> nat
    recommends
        size > 0,
{
    if len % size == 0 {
        len / size
    } else {
        len / size + 1
    }
}

/// Position of the first sample of chunk `index`.
pub open spec fn chunk_start(size: nat, index: nat) -> nat {
    index * size
}

/// Position just past the last sample of chunk `index`.
pub open spec fn chunk_end(len: nat, size: nat, index: nat) -> nat {
    if index * size + size <= len {
        index * size + size
    } else {
        len
    }
}

/// `len` is `len / size` whole chunks plus a remainder shorter than a chunk.
proof fn lemma_quotient_remainder(len: nat, size: nat)
    requires
        size > 0,
    ensures
        len == (len / size) * size + len % size,
        0 <= len % size < size,
{
    vstd::arithmetic::div_mod::lemma_fundamental_div_mod(len as int, size as int);
    vstd::arithmetic::div_mod::lemma_mod_bound(len as int, size as int);
    assert((size as int) * ((len as int) / (size as int)) == ((len as int) / (size as int)) * (size as int))
        by (nonlinear_arith);
}

/// Multiplying by the chunk size keeps the order of chunk indices.
proof fn lemma_scale_le(a: nat, b: nat, size: nat)
    requires
        a <= b,
    ensures
        a * size <= b * size,
{
    assert(a * size <= b * size) by (nonlinear_arith)
        requires
            a <= b,
    ;
}

/// A chunk that starts before another chunk's end has no larger an index.
proof fn lemma_scale_lt_back(a: nat, b: nat, size: nat)
    requires
        a * size < b * size,
    ensures
        a < b,
{
    if a >= b {
        lemma_scale_le(b, a, size);
    }
}

/// A data set has no chunks exactly when it is empty.
pub proof fn lemma_no_chunks_iff_empty(len: nat, size: nat)
    requires
        size > 0,
    ensures
        chunk_total(len, size) == 0 <==> len == 0,
{
    lemma_quotient_remainder(len, size);
    if len / size == 0 {
        assert((len / size) * size == 0);
    } else {
        lemma_scale_le(1, len / size, size);
    }
}

/// A chunk index is in range exactly when the chunk starts inside the data.
pub proof fn lemma_index_in_range(len: nat, size: nat, index: nat)
    requires
        size > 0,
    ensures
        index < chunk_total(len, size) <==> chunk_start(size, index) < len,
{
    lemma_quotient_remainder(len, size);
    let q = len / size;
    if index < q {
        lemma_scale_le(index + 1, q, size);
        assert((index + 1) * size == index * size + size) by (nonlinear_arith);
    } else {
        lemma_scale_le(q, index, size);
        if index > q {
            lemma_scale_le(q + 1, index, size);
            assert((q + 1) * size == q * size + size) by (nonlinear_arith);
        }
    }
}

/// Every chunk is non-empty, lies inside the data and holds at most `size`
/// samples; every chunk but the last holds exactly `size`, and the last one
/// ends where the data ends.
pub proof fn lemma_chunk_shape(len: nat, size: nat, index: nat)
    requires
        size > 0,
        index < chunk_total(len, size),
    ensures
        chunk_start(size, index) < chunk_end(len, size, index) <= len,
        chunk_end(len, size, index) - chunk_start(size, index) <= size,
        index + 1 < chunk_total(len, size) ==> chunk_end(len, size, index) - chunk_start(
            size,
            index,
        ) == size,
        index + 1 == chunk_total(len, size) ==> chunk_end(len, size, index) == len,
{
    lemma_index_in_range(len, size, index);
    lemma_index_in_range(len, size, index + 1);
    assert((index + 1) * size == index * size + size) by (nonlinear_arith);
}

/// The first chunk starts at the first sample, and each further chunk starts
/// where the one before it ends: no sample is skipped and none is used twice.
pub proof fn lemma_chunks_adjacent(len: nat, size: nat, index: nat)
    requires
        size > 0,
        index + 1 < chunk_total(len, size),
    ensures
        chunk_start(size, 0) == 0,
        chunk_end(len, size, index) == chunk_start(size, index + 1),
{
    lemma_index_in_range(len, size, index + 1);
    assert((index + 1) * size == index * size + size) by (nonlinear_arith);
}

/// Every sample lies in exactly one chunk: the one whose index is the
/// sample's position divided by the chunk size.
pub proof fn lemma_sample_in_one_chunk(len: nat, size: nat, position: nat, index: nat)
    requires
        size > 0,
        position < len,
        index < chunk_total(len, size),
    ensures
        position / size < chunk_total(len, size),
        (chunk_start(size, index) <= position < chunk_end(len, size, index)) <==> index == position
            / size,
{
    let home = position / size;
    lemma_quotient_remainder(position, size);
    lemma_index_in_range(len, size, home);
    lemma_chunk_shape(len, size, index);
    lemma_chunk_shape(len, size, home);
    if chunk_start(size, index) <= position < chunk_end(len, size, index) {
        assert((index + 1) * size == index * size + size) by (nonlinear_arith);
        assert((home + 1) * size == home * size + size) by (nonlinear_arith);
        // index * size <= position < (home + 1) * size
        lemma_scale_lt_back(index, home + 1, size);
        // home * size <= position < (index + 1) * size
        lemma_scale_lt_back(home, index + 1, size);
    }
}

/// Counts the chunks that `len` samples are cut into.
pub fn chunk_count(len: usize, size: usize) -> (n: usize)
    requires
        size > 0,
    ensures
        n == chunk_total(len as nat, size as nat),
{
    proof {
        lemma_quotient_remainder(len as nat, size as nat);
        if len % size != 0 {
            // a remainder needs a chunk size of two or more, so the quotient
            // is at most half of `len`
            let q = (len / size) as nat;
            assert(q * 2 <= q * size) by (nonlinear_arith)
                requires
                    size >= 2,
            ;
        }
    }
    if len % size == 0 {
        len / size
    } else {
        len / size + 1
    }
}

/// The half-open range of positions `(start, end)` that chunk `index` covers,
/// or `None` when the data has no chunk of that index.
pub fn chunk_range(len: usize, size: usize, index: usize) -> (r: Option<(usize, usize)>)
    requires
        size > 0,
    ensures
        r is Some <==> index < chunk_total(len as nat, size as nat),
        r is Some ==> r.unwrap().0 == chunk_start(size as nat, index as nat) && r.unwrap().1
            == chunk_end(len as nat, size as nat, index as nat),
{
    let total: usize = chunk_count(len, size);
    if index >= total {
        return None;
    }
    proof {
        lemma_index_in_range(len as nat, size as nat, index as nat);
    }
    let start: usize = index * size;
    let end: usize = if len - start < size {
        len
    } else {
        start + size
    };
    Some((start, end))
}

} // verus!
