//! Elevation scaling for georeferenced export.
//!
//! An exported grid carries real elevations: each normalized cell is
//! stretched over the configured `[min, max]` elevation range. Writing the
//! header and the rows is plain output that a caller performs; the scaling
//! of every cell is what this module states and proves.

use crate::fixed::SCALE;
use crate::terrain::heightmap_wf;
use vstd::arithmetic::div_mod::lemma_multiply_divide_le;
use vstd::arithmetic::mul::{lemma_mul_inequality, lemma_mul_nonnegative};
use vstd::prelude::*;

verus! {

/// One scaled elevation: the cell value interpolated from `min_e` (cell 0)
/// to `max_e` (cell 1), stated for either orientation of the range.
pub open spec fn spec_scaled_elevation(v: int, min_e: int, max_e: int) -> int {
    if max_e >= min_e {
        min_e + v * (max_e - min_e) / (SCALE as int)
    } else {
        min_e - v * (min_e - max_e) / (SCALE as int)
    }
}

/// Scale every cell of a heightmap into the configured elevation range.
pub fn scale_elevations(heightmap: &Vec<u64>, min_elevation: i64, max_elevation: i64) -> (r: Vec<
    i64>)
    requires
        heightmap_wf(heightmap@),
        -1_000_000_000_000_000 <= min_elevation <= 1_000_000_000_000_000,
        -1_000_000_000_000_000 <= max_elevation <= 1_000_000_000_000_000,
    ensures
        r@.len() == heightmap@.len(),
        forall|i: int|
            0 <= i < r@.len() ==> r@[i] == spec_scaled_elevation(
                heightmap@[i] as int,
                min_elevation as int,
                max_elevation as int,
            ),
{
    let mut out: Vec<i64> = Vec::new();
    let mut i: usize = 0;
    while i < heightmap.len()
        invariant
            heightmap_wf(heightmap@),
            -1_000_000_000_000_000 <= min_elevation <= 1_000_000_000_000_000,
            -1_000_000_000_000_000 <= max_elevation <= 1_000_000_000_000_000,
            i <= heightmap@.len(),
            out@.len() == i,
            forall|k: int|
                0 <= k < i ==> out@[k] == spec_scaled_elevation(
                    heightmap@[k] as int,
                    min_elevation as int,
                    max_elevation as int,
                ),
        decreases heightmap@.len() - i,
    {
        let v: u64 = heightmap[i];
        let cell: i64 = if max_elevation >= min_elevation {
            let range: u64 = (max_elevation - min_elevation) as u64;
            proof {
                lemma_mul_inequality(v as int, SCALE as int, range as int);
                lemma_multiply_divide_le(v as int * range, SCALE as int, range as int);
                lemma_mul_nonnegative(v as int, range as int);
            }
            let t: u64 = ((v as u128) * (range as u128) / (SCALE as u128)) as u64;
            min_elevation + (t as i64)
        } else {
            let range: u64 = (min_elevation - max_elevation) as u64;
            proof {
                lemma_mul_inequality(v as int, SCALE as int, range as int);
                lemma_multiply_divide_le(v as int * range, SCALE as int, range as int);
                lemma_mul_nonnegative(v as int, range as int);
            }
            let t: u64 = ((v as u128) * (range as u128) / (SCALE as u128)) as u64;
            min_elevation - (t as i64)
        };
        out.push(cell);
        i = i + 1;
    }
    out
}

} // verus!
