//! Generic per-channel spatial delta filter.
//!
//! Every channel byte is replaced by its wrapping difference from the same
//! channel of the previous pixel in the same row; the first pixel of each
//! row predicts from an implicit zero.  Rows are independent: no prediction
//! crosses a row boundary.

use crate::ZPNG_Buffer;
use vstd::arithmetic::div_mod::lemma_mod_multiples_vanish;
use vstd::arithmetic::div_mod::lemma_small_mod;
use vstd::arithmetic::mul::lemma_mul_inequality;
use vstd::arithmetic::mul::lemma_mul_is_commutative;
use vstd::arithmetic::mul::lemma_mul_is_distributive_add_other_way;
use vstd::arithmetic::mul::lemma_mul_nonnegative;
use vstd::prelude::*;

verus! {

/// The filtered (delta) byte at index `j` of `s`, where `n` is the pixel
/// stride in bytes and `rs` the row stride (`n` times the width): a byte
/// that has a predecessor pixel in its own row becomes the wrapping
/// difference from that predecessor's same channel; a byte of the first
/// pixel of a row is kept as it is.
pub open spec fn delta_at(s: Seq<u8>, n: int, rs: int, j: int) -> u8 {
    if 1 <= n <= j && j % rs >= n {
        s[j].wrapping_sub(s[j - n])
    } else {
        s[j]
    }
}

/// The whole delta-filtered image: `delta_at` applied at every index.
pub open spec fn pack_spec(s: Seq<u8>, n: int, width: int) -> Seq<u8> {
    Seq::new(s.len(), |j: int| delta_at(s, n, n * width, j))
}

/// The reconstructed byte at index `j` of a delta-filtered sequence `d`:
/// each byte is the wrapping sum of its delta and the reconstructed value
/// of the same channel one pixel earlier in the same row.
pub open spec fn recon_at(d: Seq<u8>, n: int, rs: int, j: int) -> u8
    decreases j,
{
    if 1 <= n <= j && j % rs >= n {
        d[j].wrapping_add(recon_at(d, n, rs, j - n))
    } else {
        d[j]
    }
}

/// The whole reconstructed image: `recon_at` applied at every index.
pub open spec fn unpack_spec(d: Seq<u8>, n: int, width: int) -> Seq<u8> {
    Seq::new(d.len(), |j: int| recon_at(d, n, n * width, j))
}

/// Reconstructing a delta-filtered byte gives back the original byte.
proof fn lemma_recon_of_delta(s: Seq<u8>, n: int, width: int, j: int)
    requires
        1 <= n,
        0 <= j < s.len(),
    ensures
        recon_at(pack_spec(s, n, width), n, n * width, j) == s[j],
    decreases j,
{
    let rs = n * width;
    if 1 <= n <= j && j % rs >= n {
        lemma_recon_of_delta(s, n, width, j - n);
    }
}

/// Law: the spatial delta filter is exactly inverted by its unfilter, for
/// every pixel stride of at least one byte and every byte sequence.
pub proof fn lemma_delta_filter_round_trip(s: Seq<u8>, n: int, width: int)
    requires
        1 <= n,
    ensures
        unpack_spec(pack_spec(s, n, width), n, width) == s,
{
    let d = pack_spec(s, n, width);
    assert forall|j: int| 0 <= j < d.len() implies unpack_spec(d, n, width)[j] == s[j] by {
        lemma_recon_of_delta(s, n, width, j);
    }
    assert(unpack_spec(d, n, width) =~= s);
}

/// Forward delta filter over an interleaved pixel buffer of `channels`
/// bytes per pixel.
pub fn PackAndFilter(input: &[u8], width: u16, height: u16, channels: usize) -> (output: Vec<u8>)
    requires
        1 <= channels <= 8,
        input@.len() == channels * (width as int) * (height as int),
    ensures
        output@ == pack_spec(input@, channels as int, width as int),
{
    let n = channels;
    proof {
        lemma_mul_inequality(channels as int, 8, width as int);
    }
    let rs: usize = n * (width as usize);
    let mut output: Vec<u8> = Vec::new();
    let mut y: usize = 0;
    while y < height as usize
        invariant
            1 <= n <= 8,
            rs == n * (width as int),
            input@.len() == channels * (width as int) * (height as int),
            n == channels,
            y <= height as int,
            output@.len() == y * rs,
            forall|jj: int|
                0 <= jj < output@.len() ==> output@[jj] == delta_at(
                    input@,
                    n as int,
                    rs as int,
                    jj,
                ),
        decreases height as int - y,
    {
        let mut k: usize = 0;
        while k < rs
            invariant
                1 <= n <= 8,
                rs == n * (width as int),
                input@.len() == channels * (width as int) * (height as int),
                n == channels,
                y < height as int,
                k <= rs,
                output@.len() == y * rs + k,
                forall|jj: int|
                    0 <= jj < output@.len() ==> output@[jj] == delta_at(
                        input@,
                        n as int,
                        rs as int,
                        jj,
                    ),
            decreases rs as int - k,
        {
            let j: usize = output.len();
            proof {
                lemma_mul_nonnegative(y as int, rs as int);
                lemma_mul_inequality(y as int + 1, height as int, rs as int);
                assert(input@.len() == (height as int) * (rs as int));
                lemma_mod_multiples_vanish(y as int, k as int, rs as int);
                lemma_small_mod(k as nat, rs as nat);
                lemma_mul_is_distributive_add_other_way(rs as int, y as int, 1);
                assert(j as int % (rs as int) == k as int);
            }
            let b: u8 = if k >= n {
                input[j].wrapping_sub(input[j - n])
            } else {
                input[j]
            };
            output.push(b);
            k = k + 1;
        }
        proof {
            lemma_mul_is_distributive_add_other_way(rs as int, y as int, 1);
        }
        y = y + 1;
    }
    proof {
        lemma_mul_is_commutative(height as int, rs as int);
        assert(output@.len() == input@.len());
        assert(output@ =~= pack_spec(input@, channels as int, width as int));
    }
    output
}

/// Inverse delta filter over a filtered buffer of `channels` bytes per
/// pixel: reconstructs the original interleaved pixel buffer.
pub fn UnpackAndUnfilter(input: &[u8], width: u16, height: u16, channels: usize) -> (output:
    ZPNG_Buffer)
    requires
        1 <= channels <= 8,
        input@.len() == channels * (width as int) * (height as int),
    ensures
        output.Data@ == unpack_spec(input@, channels as int, width as int),
{
    let n = channels;
    proof {
        lemma_mul_inequality(channels as int, 8, width as int);
    }
    let rs: usize = n * (width as usize);
    let mut data: Vec<u8> = Vec::new();
    let mut y: usize = 0;
    while y < height as usize
        invariant
            1 <= n <= 8,
            rs == n * (width as int),
            input@.len() == channels * (width as int) * (height as int),
            n == channels,
            y <= height as int,
            data@.len() == y * rs,
            forall|jj: int|
                0 <= jj < data@.len() ==> data@[jj] == recon_at(input@, n as int, rs as int, jj),
        decreases height as int - y,
    {
        let mut k: usize = 0;
        while k < rs
            invariant
                1 <= n <= 8,
                rs == n * (width as int),
                input@.len() == channels * (width as int) * (height as int),
                n == channels,
                y < height as int,
                k <= rs,
                data@.len() == y * rs + k,
                forall|jj: int|
                    0 <= jj < data@.len() ==> data@[jj] == recon_at(
                        input@,
                        n as int,
                        rs as int,
                        jj,
                    ),
            decreases rs as int - k,
        {
            let j: usize = data.len();
            proof {
                lemma_mul_nonnegative(y as int, rs as int);
                lemma_mul_inequality(y as int + 1, height as int, rs as int);
                assert(input@.len() == (height as int) * (rs as int));
                lemma_mod_multiples_vanish(y as int, k as int, rs as int);
                lemma_small_mod(k as nat, rs as nat);
                lemma_mul_is_distributive_add_other_way(rs as int, y as int, 1);
                assert(j as int % (rs as int) == k as int);
            }
            let b: u8 = if k >= n {
                input[j].wrapping_add(data[j - n])
            } else {
                input[j]
            };
            data.push(b);
            k = k + 1;
        }
        proof {
            lemma_mul_is_distributive_add_other_way(rs as int, y as int, 1);
        }
        y = y + 1;
    }
    proof {
        lemma_mul_is_commutative(height as int, rs as int);
        assert(data@.len() == input@.len());
        assert(data@ =~= unpack_spec(input@, channels as int, width as int));
    }
    ZPNG_Buffer { Data: data }
}

} // verus!
