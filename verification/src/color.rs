//! Color-decorrelation filter for pixels of exactly 3 or 4 one-byte
//! channels, treated as R,G,B and optionally A.
//!
//! The forward direction applies the spatial delta filter, then the GB-RG
//! color transform (from the BCIF method) to the per-channel deltas
//! (`y = b`, `u = g - b`, `v = g - r`, wrapping; alpha passes through), and
//! lays the result out as contiguous per-component planes instead of
//! interleaved pixels.  The inverse reads the planes in lockstep, undoes
//! the color transform, and undoes the spatial delta.

use crate::filter::lemma_delta_filter_round_trip;
use crate::filter::pack_spec;
use crate::filter::unpack_spec;
use crate::filter::PackAndFilter;
use crate::filter::UnpackAndUnfilter;
use crate::ZPNG_Buffer;
use vstd::arithmetic::div_mod::lemma_fundamental_div_mod;
use vstd::arithmetic::div_mod::lemma_fundamental_div_mod_converse;
use vstd::arithmetic::mul::lemma_mul_is_associative;
use vstd::arithmetic::mul::lemma_mul_upper_bound;
use vstd::prelude::*;

verus! {

/// The GB-RG transform and plane split of an interleaved 3-byte-pixel
/// delta sequence `e`: plane `[0, plane)` holds `y = b`, `[plane, 2*plane)`
/// holds `u = g - b`, `[2*plane, 3*plane)` holds `v = g - r` (wrapping).
pub open spec fn plane_split3(e: Seq<u8>, plane: int) -> Seq<u8> {
    Seq::new(
        (3 * plane) as nat,
        |k: int|
            if k < plane {
                e[3 * k + 2]
            } else if k < 2 * plane {
                e[3 * (k - plane) + 1].wrapping_sub(e[3 * (k - plane) + 2])
            } else {
                e[3 * (k - 2 * plane) + 1].wrapping_sub(e[3 * (k - 2 * plane) + 0])
            },
    )
}

/// The inverse of `plane_split3`: reads the three planes of `d` in
/// lockstep and rebuilds the interleaved delta sequence
/// (`b = y`, `g = u + b`, `r = g - v`, wrapping).
pub open spec fn plane_merge3(d: Seq<u8>, plane: int) -> Seq<u8> {
    Seq::new(
        (3 * plane) as nat,
        |j: int|
            {
                let p = j / 3;
                let y = d[p];
                let u = d[plane + p];
                let v = d[2 * plane + p];
                if j % 3 == 0 {
                    u.wrapping_add(y).wrapping_sub(v)
                } else if j % 3 == 1 {
                    u.wrapping_add(y)
                } else {
                    y
                }
            },
    )
}

/// As `plane_split3`, for 4-byte pixels: the alpha delta passes through
/// unchanged into a fourth plane `[3*plane, 4*plane)`.
pub open spec fn plane_split4(e: Seq<u8>, plane: int) -> Seq<u8> {
    Seq::new(
        (4 * plane) as nat,
        |k: int|
            if k < plane {
                e[4 * k + 2]
            } else if k < 2 * plane {
                e[4 * (k - plane) + 1].wrapping_sub(e[4 * (k - plane) + 2])
            } else if k < 3 * plane {
                e[4 * (k - 2 * plane) + 1].wrapping_sub(e[4 * (k - 2 * plane) + 0])
            } else {
                e[4 * (k - 3 * plane) + 3]
            },
    )
}

/// The inverse of `plane_split4`.
pub open spec fn plane_merge4(d: Seq<u8>, plane: int) -> Seq<u8> {
    Seq::new(
        (4 * plane) as nat,
        |j: int|
            {
                let p = j / 4;
                let y = d[p];
                let u = d[plane + p];
                let v = d[2 * plane + p];
                if j % 4 == 0 {
                    u.wrapping_add(y).wrapping_sub(v)
                } else if j % 4 == 1 {
                    u.wrapping_add(y)
                } else if j % 4 == 2 {
                    y
                } else {
                    d[3 * plane + p]
                }
            },
    )
}

/// The whole forward color-decorrelation filter for 3-byte pixels:
/// spatial delta, then color transform and plane split.
pub open spec fn pack3_spec(s: Seq<u8>, width: int, height: int) -> Seq<u8> {
    plane_split3(pack_spec(s, 3, width), width * height)
}

/// The whole inverse color-decorrelation filter for 3-byte pixels.
pub open spec fn unpack3_spec(d: Seq<u8>, width: int, height: int) -> Seq<u8> {
    unpack_spec(plane_merge3(d, width * height), 3, width)
}

/// The whole forward color-decorrelation filter for 4-byte pixels.
pub open spec fn pack4_spec(s: Seq<u8>, width: int, height: int) -> Seq<u8> {
    plane_split4(pack_spec(s, 4, width), width * height)
}

/// The whole inverse color-decorrelation filter for 4-byte pixels.
pub open spec fn unpack4_spec(d: Seq<u8>, width: int, height: int) -> Seq<u8> {
    unpack_spec(plane_merge4(d, width * height), 4, width)
}

/// The GB-RG transform with its plane split is exactly inverted by the
/// merge, for 3-byte pixels.
proof fn lemma_merge_of_split3(e: Seq<u8>, plane: int)
    requires
        0 <= plane,
        e.len() == 3 * plane,
    ensures
        plane_merge3(plane_split3(e, plane), plane) == e,
{
    let d = plane_split3(e, plane);
    assert forall|j: int| 0 <= j < 3 * plane implies plane_merge3(d, plane)[j] == e[j] by {
        let p = j / 3;
        let c = j % 3;
        lemma_fundamental_div_mod(j, 3);
        assert(j == 3 * p + c);
        assert(0 <= c < 3);
        assert(0 <= p < plane);
        assert(d[p] == e[3 * p + 2]);
        assert(d[plane + p] == e[3 * p + 1].wrapping_sub(e[3 * p + 2]));
        assert(d[2 * plane + p] == e[3 * p + 1].wrapping_sub(e[3 * p + 0]));
    }
    assert(plane_merge3(plane_split3(e, plane), plane) =~= e);
}

/// The GB-RG transform with its plane split is exactly inverted by the
/// merge, for 4-byte pixels.
proof fn lemma_merge_of_split4(e: Seq<u8>, plane: int)
    requires
        0 <= plane,
        e.len() == 4 * plane,
    ensures
        plane_merge4(plane_split4(e, plane), plane) == e,
{
    let d = plane_split4(e, plane);
    assert forall|j: int| 0 <= j < 4 * plane implies plane_merge4(d, plane)[j] == e[j] by {
        let p = j / 4;
        let c = j % 4;
        lemma_fundamental_div_mod(j, 4);
        assert(j == 4 * p + c);
        assert(0 <= c < 4);
        assert(0 <= p < plane);
        assert(d[p] == e[4 * p + 2]);
        assert(d[plane + p] == e[4 * p + 1].wrapping_sub(e[4 * p + 2]));
        assert(d[2 * plane + p] == e[4 * p + 1].wrapping_sub(e[4 * p + 0]));
        assert(d[3 * plane + p] == e[4 * p + 3]);
    }
    assert(plane_merge4(plane_split4(e, plane), plane) =~= e);
}

/// Law: the color-decorrelation filter for 3-byte pixels is exactly
/// inverted by its unfilter, independent of any compression.
pub proof fn lemma_color_filter_round_trip3(s: Seq<u8>, width: int, height: int)
    requires
        0 <= width,
        0 <= height,
        s.len() == 3 * (width * height),
    ensures
        unpack3_spec(pack3_spec(s, width, height), width, height) == s,
{
    let plane = width * height;
    let e = pack_spec(s, 3, width);
    lemma_merge_of_split3(e, plane);
    lemma_delta_filter_round_trip(s, 3, width);
}

/// Law: the color-decorrelation filter for 4-byte pixels is exactly
/// inverted by its unfilter, independent of any compression.
pub proof fn lemma_color_filter_round_trip4(s: Seq<u8>, width: int, height: int)
    requires
        0 <= width,
        0 <= height,
        s.len() == 4 * (width * height),
    ensures
        unpack4_spec(pack4_spec(s, width, height), width, height) == s,
{
    let plane = width * height;
    let e = pack_spec(s, 4, width);
    lemma_merge_of_split4(e, plane);
    lemma_delta_filter_round_trip(s, 4, width);
}

/// Computes the pixel count `width * height`, which fits a `usize` even
/// when `usize` is 32 bits wide.
fn pixel_count(width: u16, height: u16) -> (r: usize)
    ensures
        r == (width as int) * (height as int),
{
    proof {
        lemma_mul_upper_bound(width as int, 65535, height as int, 65535);
    }
    (width as usize) * (height as usize)
}

/// Splits an interleaved 3-byte-pixel delta buffer into Y, U and V planes.
fn split_planes_3(e: &[u8], plane: usize) -> (out: Vec<u8>)
    requires
        e@.len() == 3 * plane,
    ensures
        out@ == plane_split3(e@, plane as int),
{
    let total: usize = e.len();
    let mut out: Vec<u8> = Vec::new();
    let mut q: usize = 0;
    while q < plane
        invariant
            e@.len() == 3 * plane,
            total == 3 * plane,
            q <= plane,
            out@.len() == q,
            forall|i: int| 0 <= i < out@.len() ==> out@[i] == plane_split3(e@, plane as int)[i],
        decreases plane - q,
    {
        out.push(e[3 * q + 2]);
        q = q + 1;
    }
    let mut q: usize = 0;
    while q < plane
        invariant
            e@.len() == 3 * plane,
            total == 3 * plane,
            q <= plane,
            out@.len() == plane + q,
            forall|i: int| 0 <= i < out@.len() ==> out@[i] == plane_split3(e@, plane as int)[i],
        decreases plane - q,
    {
        out.push(e[3 * q + 1].wrapping_sub(e[3 * q + 2]));
        q = q + 1;
    }
    let mut q: usize = 0;
    while q < plane
        invariant
            e@.len() == 3 * plane,
            total == 3 * plane,
            q <= plane,
            out@.len() == 2 * plane + q,
            forall|i: int| 0 <= i < out@.len() ==> out@[i] == plane_split3(e@, plane as int)[i],
        decreases plane - q,
    {
        out.push(e[3 * q + 1].wrapping_sub(e[3 * q]));
        q = q + 1;
    }
    proof {
        assert(out@ =~= plane_split3(e@, plane as int));
    }
    out
}

/// Splits an interleaved 4-byte-pixel delta buffer into Y, U, V and A
/// planes.
fn split_planes_4(e: &[u8], plane: usize) -> (out: Vec<u8>)
    requires
        e@.len() == 4 * plane,
    ensures
        out@ == plane_split4(e@, plane as int),
{
    let total: usize = e.len();
    let mut out: Vec<u8> = Vec::new();
    let mut q: usize = 0;
    while q < plane
        invariant
            e@.len() == 4 * plane,
            total == 4 * plane,
            q <= plane,
            out@.len() == q,
            forall|i: int| 0 <= i < out@.len() ==> out@[i] == plane_split4(e@, plane as int)[i],
        decreases plane - q,
    {
        out.push(e[4 * q + 2]);
        q = q + 1;
    }
    let mut q: usize = 0;
    while q < plane
        invariant
            e@.len() == 4 * plane,
            total == 4 * plane,
            q <= plane,
            out@.len() == plane + q,
            forall|i: int| 0 <= i < out@.len() ==> out@[i] == plane_split4(e@, plane as int)[i],
        decreases plane - q,
    {
        out.push(e[4 * q + 1].wrapping_sub(e[4 * q + 2]));
        q = q + 1;
    }
    let mut q: usize = 0;
    while q < plane
        invariant
            e@.len() == 4 * plane,
            total == 4 * plane,
            q <= plane,
            out@.len() == 2 * plane + q,
            forall|i: int| 0 <= i < out@.len() ==> out@[i] == plane_split4(e@, plane as int)[i],
        decreases plane - q,
    {
        out.push(e[4 * q + 1].wrapping_sub(e[4 * q]));
        q = q + 1;
    }
    let mut q: usize = 0;
    while q < plane
        invariant
            e@.len() == 4 * plane,
            total == 4 * plane,
            q <= plane,
            out@.len() == 3 * plane + q,
            forall|i: int| 0 <= i < out@.len() ==> out@[i] == plane_split4(e@, plane as int)[i],
        decreases plane - q,
    {
        out.push(e[4 * q + 3]);
        q = q + 1;
    }
    proof {
        assert(out@ =~= plane_split4(e@, plane as int));
    }
    out
}

/// Rebuilds an interleaved 3-byte-pixel delta buffer from its three
/// planes.
fn merge_planes_3(d: &[u8], plane: usize) -> (out: Vec<u8>)
    requires
        d@.len() == 3 * plane,
    ensures
        out@ == plane_merge3(d@, plane as int),
{
    let total: usize = d.len();
    let mut out: Vec<u8> = Vec::new();
    let mut p: usize = 0;
    while p < plane
        invariant
            d@.len() == 3 * plane,
            total == 3 * plane,
            p <= plane,
            out@.len() == 3 * p,
            forall|j: int| 0 <= j < out@.len() ==> out@[j] == plane_merge3(d@, plane as int)[j],
        decreases plane - p,
    {
        let y = d[p];
        let u = d[plane + p];
        let v = d[2 * plane + p];
        let g = u.wrapping_add(y);
        let r = g.wrapping_sub(v);
        proof {
            lemma_fundamental_div_mod_converse(3 * p as int, 3, p as int, 0);
            lemma_fundamental_div_mod_converse(3 * p as int + 1, 3, p as int, 1);
            lemma_fundamental_div_mod_converse(3 * p as int + 2, 3, p as int, 2);
        }
        out.push(r);
        out.push(g);
        out.push(y);
        p = p + 1;
    }
    proof {
        assert(out@ =~= plane_merge3(d@, plane as int));
    }
    out
}

/// Rebuilds an interleaved 4-byte-pixel delta buffer from its four
/// planes.
fn merge_planes_4(d: &[u8], plane: usize) -> (out: Vec<u8>)
    requires
        d@.len() == 4 * plane,
    ensures
        out@ == plane_merge4(d@, plane as int),
{
    let total: usize = d.len();
    let mut out: Vec<u8> = Vec::new();
    let mut p: usize = 0;
    while p < plane
        invariant
            d@.len() == 4 * plane,
            total == 4 * plane,
            p <= plane,
            out@.len() == 4 * p,
            forall|j: int| 0 <= j < out@.len() ==> out@[j] == plane_merge4(d@, plane as int)[j],
        decreases plane - p,
    {
        let y = d[p];
        let u = d[plane + p];
        let v = d[2 * plane + p];
        let a = d[3 * plane + p];
        let g = u.wrapping_add(y);
        let r = g.wrapping_sub(v);
        proof {
            lemma_fundamental_div_mod_converse(4 * p as int, 4, p as int, 0);
            lemma_fundamental_div_mod_converse(4 * p as int + 1, 4, p as int, 1);
            lemma_fundamental_div_mod_converse(4 * p as int + 2, 4, p as int, 2);
            lemma_fundamental_div_mod_converse(4 * p as int + 3, 4, p as int, 3);
        }
        out.push(r);
        out.push(g);
        out.push(y);
        out.push(a);
        p = p + 1;
    }
    proof {
        assert(out@ =~= plane_merge4(d@, plane as int));
    }
    out
}

/// Forward color-decorrelation filter for 3-byte (RGB) pixels: spatial
/// delta, GB-RG color transform, plane split.
pub fn PackAndFilter_3(input: &[u8], width: u16, height: u16) -> (output: Vec<u8>)
    requires
        input@.len() == 3 * (width as int) * (height as int),
    ensures
        output@ == pack3_spec(input@, width as int, height as int),
{
    proof {
        lemma_mul_is_associative(3, width as int, height as int);
    }
    let plane = pixel_count(width, height);
    let e = PackAndFilter(input, width, height, 3);
    split_planes_3(e.as_slice(), plane)
}

/// Forward color-decorrelation filter for 4-byte (RGBA) pixels.
pub fn PackAndFilter_4(input: &[u8], width: u16, height: u16) -> (output: Vec<u8>)
    requires
        input@.len() == 4 * (width as int) * (height as int),
    ensures
        output@ == pack4_spec(input@, width as int, height as int),
{
    proof {
        lemma_mul_is_associative(4, width as int, height as int);
    }
    let plane = pixel_count(width, height);
    let e = PackAndFilter(input, width, height, 4);
    split_planes_4(e.as_slice(), plane)
}

/// Inverse color-decorrelation filter for 3-byte (RGB) pixels: plane
/// merge, inverse color transform, inverse spatial delta.
pub fn UnpackAndUnfilter_3(input: &[u8], width: u16, height: u16) -> (output: ZPNG_Buffer)
    requires
        input@.len() == 3 * (width as int) * (height as int),
    ensures
        output.Data@ == unpack3_spec(input@, width as int, height as int),
{
    proof {
        lemma_mul_is_associative(3, width as int, height as int);
    }
    let plane = pixel_count(width, height);
    let e = merge_planes_3(input, plane);
    UnpackAndUnfilter(e.as_slice(), width, height, 3)
}

/// Inverse color-decorrelation filter for 4-byte (RGBA) pixels.
pub fn UnpackAndUnfilter_4(input: &[u8], width: u16, height: u16) -> (output: ZPNG_Buffer)
    requires
        input@.len() == 4 * (width as int) * (height as int),
    ensures
        output.Data@ == unpack4_spec(input@, width as int, height as int),
{
    proof {
        lemma_mul_is_associative(4, width as int, height as int);
    }
    let plane = pixel_count(width, height);
    let e = merge_planes_4(input, plane);
    UnpackAndUnfilter(e.as_slice(), width, height, 4)
}

} // verus!
