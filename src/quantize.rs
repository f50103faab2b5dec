//! The integer side of the 16-bit output: which sorted magnitude sets the scale,
//! how a volume of quantized samples is cut into mid-axis slices, and how the
//! slice files are named. The magnitudes and the scale themselves are floats and
//! are computed by the caller.
use vstd::prelude::*;
use crate::cfl::{encodes_be16, u16_bytes};
use crate::paths::concat;
use crate::text::{padded_decimal, padded_decimal_string};

verus! {

/// The position in the ascending magnitudes that sets the scale, when `n_to_saturate`
/// of `n_voxels` samples saturate: `n_voxels - n_to_saturate + 1`, kept within the
/// positions that exist. With none saturating it is the largest magnitude's position.
pub open spec fn scale_position(n_voxels: int, n_to_saturate: int) -> int {
    let p = n_voxels - n_to_saturate + 1;
    if p > n_voxels - 1 {
        n_voxels - 1
    } else if p < 0 {
        0
    } else {
        p
    }
}

/// Finds the position in the ascending magnitudes that sets the scale; none when there
/// is no sample.
pub fn scale_index(n_voxels: usize, n_to_saturate: usize) -> (r: Option<usize>)
    ensures
        match r {
            Some(i) => n_voxels > 0 && i as int == scale_position(n_voxels as int, n_to_saturate as int),
            None => n_voxels == 0,
        },
{
    if n_voxels == 0 {
        None
    } else if n_to_saturate < 2 {
        Some(n_voxels - 1)
    } else if n_to_saturate - 1 > n_voxels {
        Some(0)
    } else {
        Some(n_voxels - (n_to_saturate - 1))
    }
}

/// With no sample saturating, the scale is set by the largest magnitude: the last
/// position of the ascending order.
pub proof fn lemma_full_range_scale(n_voxels: int)
    requires
        n_voxels > 0,
    ensures
        scale_position(n_voxels, 0) == n_voxels - 1,
{
}

/// The name of slice `j`: `<label><prefix>.<j, three digits>.raw`.
pub open spec fn slice_name(label: Seq<char>, prefix: Seq<char>, j: nat) -> Seq<char> {
    label + prefix + "."@ + padded_decimal(j, 3) + ".raw"@
}

/// Names the file of slice `j`.
pub fn slice_file_name(label: &str, prefix: &str, j: usize) -> (r: String)
    ensures
        r@ == slice_name(label@, prefix@, j as nat),
{
    let a = concat(label, prefix);
    let b = concat(a.as_str(), ".");
    let d = padded_decimal_string(j as u64, 3);
    let c = concat(b.as_str(), d.as_str());
    concat(c.as_str(), ".raw")
}

/// Slice `j` of a volume held as `d2` by `d1` by `d0` samples in C order: the `d2` by
/// `d0` samples whose middle index is `j`, in C order.
pub fn slice_values(values: &Vec<u16>, d0: usize, d1: usize, d2: usize, j: usize) -> (r: Vec<u16>)
    requires
        values@.len() == d2 * d1 * d0,
        j < d1,
    ensures
        r@.len() == d2 * d0,
        forall|a: int, c: int| 0 <= a < d2 && 0 <= c < d0 ==> #[trigger] r@[a * d0 + c] == values@[(a * d1 + j) * d0 + c],
{
    let n = values.len();
    let mut out: Vec<u16> = Vec::new();
    let mut a: usize = 0;
    proof {
        assert(d2 * d0 <= d2 * d1 * d0) by (nonlinear_arith)
            requires d1 >= 1;
    }
    while a < d2
        invariant
            values@.len() == d2 * d1 * d0,
            n == values@.len(),
            j < d1,
            a <= d2,
            out@.len() == a * d0,
            forall|x: int, c: int| 0 <= x < a && 0 <= c < d0 ==> #[trigger] out@[x * d0 + c] == values@[(x * d1 + j) * d0 + c],
        decreases d2 - a,
    {
        let mut c: usize = 0;
        while c < d0
            invariant
                values@.len() == d2 * d1 * d0,
                n == values@.len(),
                j < d1,
                a < d2,
                c <= d0,
                out@.len() == a * d0 + c,
                forall|x: int, e: int|
                    0 <= x < a && 0 <= e < d0 ==> #[trigger] out@[x * d0 + e] == values@[(x * d1 + j) * d0 + e],
                forall|e: int| 0 <= e < c ==> #[trigger] out@[a * d0 + e] == values@[(a * d1 + j) * d0 + e],
            decreases d0 - c,
        {
            proof {
                assert((a * d1 + j) * d0 + c < d2 * d1 * d0) by (nonlinear_arith)
                    requires a < d2, j < d1, c < d0;
                assert(0 <= (a * d1 + j) * d0 + c) by (nonlinear_arith)
                    requires a >= 0, j >= 0, c >= 0, d0 >= 0, d1 >= 0;
                assert(a * d1 + j <= (a * d1 + j) * d0) by (nonlinear_arith)
                    requires a >= 0, j >= 0, d1 >= 0, d0 >= 1;
                assert(0 <= a * d1) by (nonlinear_arith)
                    requires a >= 0, d1 >= 0;
            }
            let k: usize = (a * d1 + j) * d0 + c;
            let ghost before = out@;
            out.push(values[k]);
            proof {
                assert forall|x: int, e: int|
                    0 <= x < a && 0 <= e < d0 implies #[trigger] out@[x * d0 + e] == values@[(x * d1 + j) * d0 + e] by {
                    assert(x * d0 + e < a * d0) by (nonlinear_arith)
                        requires x < a, e < d0;
                    assert(0 <= x * d0 + e) by (nonlinear_arith)
                        requires x >= 0, e >= 0, d0 >= 0;
                    assert(out@[x * d0 + e] == before[x * d0 + e]);
                }
            }
            c = c + 1;
        }
        proof {
            assert(out@.len() == (a + 1) * d0) by (nonlinear_arith)
                requires out@.len() == a * d0 + d0;
            assert forall|x: int, e: int|
                0 <= x < a + 1 && 0 <= e < d0 implies #[trigger] out@[x * d0 + e] == values@[(x * d1 + j) * d0 + e] by {
                if x == a {
                } else {
                }
            }
        }
        a = a + 1;
    }
    out
}

/// The bytes of slice file `j`: its samples, most significant byte first.
pub fn slice_bytes(values: &Vec<u16>, d0: usize, d1: usize, d2: usize, j: usize) -> (r: Vec<u8>)
    requires
        values@.len() == d2 * d1 * d0,
        2 * values@.len() <= usize::MAX,
        j < d1,
    ensures
        exists|s: Seq<u16>|
            {
                &&& encodes_be16(s, r@)
                &&& s.len() == d2 * d0
                &&& forall|a: int, c: int|
                    0 <= a < d2 && 0 <= c < d0 ==> #[trigger] s[a * d0 + c] == values@[(a * d1 + j) * d0 + c]
            },
{
    let s = slice_values(values, d0, d1, d2, j);
    proof {
        assert(d2 * d0 <= d2 * d1 * d0) by (nonlinear_arith)
            requires j < d1;
    }
    let r = u16_bytes(&s);
    proof {
        assert(encodes_be16(s@, r@));
    }
    r
}

} // verus!
