//! Heightmap refinement.
//!
//! Every cell is shifted by the configured offset, scaled by the
//! coefficient and raised to the integer exponent; a shifted value that
//! would fall below zero is clamped to zero before scaling, the documented
//! policy for the otherwise undefined negative base. The grid is then
//! renormalized into `[0, 1]` from its minimum and maximum — unless the
//! transformed grid is flat, in which case it is returned as is.

use crate::config::{MapConfig, RefinerConfig};
use crate::fixed::{fixpow, lemma_pow20_values, spec_fixpow, SCALE};
use crate::terrain::heightmap_wf;
use vstd::arithmetic::div_mod::{lemma_div_multiples_vanish, lemma_multiply_divide_le};
use vstd::arithmetic::mul::{lemma_mul_inequality, lemma_mul_nonnegative, lemma_mul_upper_bound};
use vstd::arithmetic::power::{lemma_pow_increases, pow};
use vstd::prelude::*;

verus! {

/// Largest value the transform can produce: `20^10` whole units.
pub const TRANSFORM_CAP: u64 = 10_240_000_000_000_000_000;

/// One transformed cell: offset, clamped at zero, scaled, exponentiated.
pub open spec fn spec_transform_cell(rc: RefinerConfig, v: int) -> int {
    let shifted = if v + rc.height_offset > 0 {
        v + rc.height_offset
    } else {
        0
    };
    let scaled = shifted * rc.height_coeff / (SCALE as int);
    spec_fixpow(scaled, rc.height_exponent as nat)
}

/// The transformed grid, before renormalization.
pub open spec fn spec_transform(hm: Seq<u64>, rc: RefinerConfig) -> Seq<u64> {
    Seq::new(hm.len(), |i: int| spec_transform_cell(rc, hm[i] as int) as u64)
}

/// The smallest cell of a grid (zero for an empty grid).
pub open spec fn spec_seq_min(s: Seq<u64>) -> int
    decreases s.len(),
{
    if s.len() == 0 {
        0
    } else if s.len() == 1 {
        s[0] as int
    } else {
        let m = spec_seq_min(s.drop_last());
        if s.last() < m {
            s.last() as int
        } else {
            m
        }
    }
}

/// The largest cell of a grid (zero for an empty grid).
pub open spec fn spec_seq_max(s: Seq<u64>) -> int
    decreases s.len(),
{
    if s.len() == 0 {
        0
    } else if s.len() == 1 {
        s[0] as int
    } else {
        let m = spec_seq_max(s.drop_last());
        if s.last() > m {
            s.last() as int
        } else {
            m
        }
    }
}

/// The refined grid: the transform, renormalized from its own minimum and
/// maximum when they differ, returned untouched when the transform is flat.
pub open spec fn spec_refine(hm: Seq<u64>, rc: RefinerConfig) -> Seq<u64> {
    let t = spec_transform(hm, rc);
    let mn = spec_seq_min(t);
    let mx = spec_seq_max(t);
    if mx > mn {
        Seq::new(t.len(), |i: int| ((t[i] - mn) * SCALE / (mx - mn)) as u64)
    } else {
        t
    }
}

/// One transformed cell, within the stated cap.
fn transform_cell(rc: &RefinerConfig, v: u64) -> (r: u64)
    requires
        rc.wf(),
        v <= SCALE,
    ensures
        r == spec_transform_cell(*rc, v as int),
        r <= TRANSFORM_CAP,
{
    let shifted: u64 = if rc.height_offset >= 0 {
        v + (rc.height_offset as u64)
    } else {
        let o: u64 = (-rc.height_offset) as u64;
        if v > o {
            v - o
        } else {
            0
        }
    };
    proof {
        lemma_mul_upper_bound(shifted as int, 2 * SCALE as int, rc.height_coeff as int, 10 * SCALE as int);
        lemma_mul_nonnegative(shifted as int, rc.height_coeff as int);
        lemma_multiply_divide_le(
            shifted as int * rc.height_coeff as int,
            SCALE as int,
            20 * SCALE as int,
        );
    }
    let scaled: u64 = shifted * rc.height_coeff / SCALE;
    let r = fixpow(scaled, rc.height_exponent);
    proof {
        lemma_pow20_values();
        lemma_pow_increases(20, rc.height_exponent as nat, 10);
        lemma_mul_inequality(pow(20, rc.height_exponent as nat), pow(20, 10), SCALE as int);
    }
    r
}

/// The smallest cell of a nonempty grid, with witnesses both ways.
fn seq_min(v: &Vec<u64>) -> (m: u64)
    requires
        v@.len() > 0,
    ensures
        m == spec_seq_min(v@),
        forall|k: int| 0 <= k < v@.len() ==> m <= v@[k],
{
    let mut m: u64 = v[0];
    let mut i: usize = 1;
    proof {
        assert(v@.take(1).len() == 1 && v@.take(1)[0] == v@[0]);
    }
    while i < v.len()
        invariant
            1 <= i <= v@.len(),
            m == spec_seq_min(v@.take(i as int)),
            forall|k: int| 0 <= k < i ==> m <= v@[k],
        decreases v@.len() - i,
    {
        proof {
            let t = v@.take(i as int + 1);
            assert(t.drop_last() =~= v@.take(i as int));
            assert(t.last() == v@[i as int]);
        }
        let c: u64 = v[i];
        if c < m {
            m = c;
        }
        i = i + 1;
    }
    proof {
        assert(v@.take(v@.len() as int) =~= v@);
    }
    m
}

/// The largest cell of a nonempty grid, with witnesses both ways.
fn seq_max(v: &Vec<u64>) -> (m: u64)
    requires
        v@.len() > 0,
    ensures
        m == spec_seq_max(v@),
        forall|k: int| 0 <= k < v@.len() ==> v@[k] <= m,
{
    let mut m: u64 = v[0];
    let mut i: usize = 1;
    proof {
        assert(v@.take(1).len() == 1 && v@.take(1)[0] == v@[0]);
    }
    while i < v.len()
        invariant
            1 <= i <= v@.len(),
            m == spec_seq_max(v@.take(i as int)),
            forall|k: int| 0 <= k < i ==> v@[k] <= m,
        decreases v@.len() - i,
    {
        proof {
            let t = v@.take(i as int + 1);
            assert(t.drop_last() =~= v@.take(i as int));
            assert(t.last() == v@[i as int]);
        }
        let c: u64 = v[i];
        if c > m {
            m = c;
        }
        i = i + 1;
    }
    proof {
        assert(v@.take(v@.len() as int) =~= v@);
    }
    m
}

/// Refine a heightmap: apply the offset/coefficient/exponent transform to
/// every cell, then renormalize the grid into `[0, 1]` unless the transform
/// left it flat. The result is the stated pure function of the input grid
/// and the configuration, with the same dimensions.
pub fn refine_heightmap(heightmap: &Vec<u64>, config: &RefinerConfig, map_config: &MapConfig) -> (r:
    Vec<u64>)
    requires
        config.wf(),
        map_config.wf(),
        heightmap_wf(heightmap@),
        heightmap@.len() == map_config.width * map_config.height,
    ensures
        r@ == spec_refine(heightmap@, *config),
        r@.len() == heightmap@.len(),
        spec_seq_max(spec_transform(heightmap@, *config)) > spec_seq_min(
            spec_transform(heightmap@, *config),
        ) ==> heightmap_wf(r@),
{
    let ghost hm = heightmap@;
    let mut transformed: Vec<u64> = Vec::new();
    let mut i: usize = 0;
    while i < heightmap.len()
        invariant
            config.wf(),
            heightmap_wf(hm),
            hm == heightmap@,
            i <= hm.len(),
            transformed@.len() == i,
            forall|k: int| 0 <= k < i ==> transformed@[k] == spec_transform(hm, *config)[k],
            forall|k: int| 0 <= k < i ==> transformed@[k] <= TRANSFORM_CAP,
        decreases hm.len() - i,
    {
        let t = transform_cell(config, heightmap[i]);
        transformed.push(t);
        i = i + 1;
    }
    proof {
        assert(transformed@ =~= spec_transform(hm, *config));
        assert(hm.len() > 0) by {
            vstd::arithmetic::mul::lemma_mul_strictly_positive(
                map_config.width as int,
                map_config.height as int,
            );
        }
    }
    let mn = seq_min(&transformed);
    let mx = seq_max(&transformed);
    if mx > mn {
        let mut out: Vec<u64> = Vec::new();
        let mut j: usize = 0;
        while j < transformed.len()
            invariant
                transformed@ == spec_transform(hm, *config),
                mn == spec_seq_min(transformed@),
                mx == spec_seq_max(transformed@),
                mx > mn,
                forall|k: int|
                    0 <= k < transformed@.len() ==> mn <= #[trigger] transformed@[k] <= mx,
                j <= transformed@.len(),
                out@.len() == j,
                forall|k: int|
                    0 <= k < j ==> out@[k] == ((transformed@[k] - mn) * SCALE / (mx - mn)) as u64,
                forall|k: int| 0 <= k < j ==> out@[k] <= SCALE,
            decreases transformed@.len() - j,
        {
            let t: u64 = transformed[j];
            proof {
                lemma_mul_inequality(t as int - mn as int, mx as int - mn as int, SCALE as int);
                lemma_mul_nonnegative(t as int - mn as int, SCALE as int);
                lemma_multiply_divide_le(
                    (t as int - mn as int) * SCALE,
                    mx as int - mn as int,
                    SCALE as int,
                );
            }
            let cell: u64 = (((t - mn) as u128) * (SCALE as u128) / ((mx - mn) as u128)) as u64;
            out.push(cell);
            j = j + 1;
        }
        proof {
            assert(out@ =~= spec_refine(hm, *config));
        }
        out
    } else {
        proof {
            assert(transformed@ =~= spec_refine(hm, *config));
        }
        transformed
    }
}

/// Identity parameters leave any grid that spans the full `[0, 1]` range
/// unchanged: with zero offset, unit coefficient and unit exponent the
/// transform is the identity, and renormalizing from a minimum of zero and
/// a maximum of one is the identity as well.
pub proof fn lemma_refine_identity(hm: Seq<u64>, rc: RefinerConfig)
    requires
        rc.height_offset == 0,
        rc.height_coeff == SCALE,
        rc.height_exponent == 1,
        heightmap_wf(hm),
        hm.len() > 0,
        spec_seq_min(hm) == 0,
        spec_seq_max(hm) == SCALE,
    ensures
        spec_refine(hm, rc) == hm,
{
    lemma_transform_identity(hm, rc);
    let t = spec_transform(hm, rc);
    assert(t == hm);
    assert(spec_refine(hm, rc) =~= hm) by {
        assert forall|i: int| 0 <= i < hm.len() implies ((hm[i] - 0) * SCALE / (SCALE as int - 0))
            as u64 == hm[i] by {
            lemma_div_multiples_vanish(hm[i] as int, SCALE as int);
            assert(hm[i] * SCALE == SCALE as int * hm[i]) by (nonlinear_arith);
        }
    }
}

/// Identity parameters leave a flat grid exactly as it was: the transform
/// is the identity and a flat grid skips renormalization.
pub proof fn lemma_refine_identity_flat(hm: Seq<u64>, rc: RefinerConfig, c: u64)
    requires
        rc.height_offset == 0,
        rc.height_coeff == SCALE,
        rc.height_exponent == 1,
        heightmap_wf(hm),
        hm.len() > 0,
        forall|i: int| 0 <= i < hm.len() ==> hm[i] == c,
    ensures
        spec_refine(hm, rc) == hm,
{
    lemma_transform_identity(hm, rc);
    let t = spec_transform(hm, rc);
    assert(t == hm);
    lemma_seq_min_le_max_flat(hm, c);
    assert(spec_refine(hm, rc) == t);
}

/// With zero offset, unit coefficient and unit exponent the transform maps
/// every valid grid to itself.
pub proof fn lemma_transform_identity(hm: Seq<u64>, rc: RefinerConfig)
    requires
        rc.height_offset == 0,
        rc.height_coeff == SCALE,
        rc.height_exponent == 1,
        heightmap_wf(hm),
    ensures
        spec_transform(hm, rc) == hm,
{
    assert forall|i: int| 0 <= i < hm.len() implies spec_transform(hm, rc)[i] == hm[i] by {
        let v = hm[i] as int;
        reveal_with_fuel(spec_fixpow, 2);
        lemma_div_multiples_vanish(v, SCALE as int);
        assert(v * SCALE == SCALE as int * v) by (nonlinear_arith);
        assert(spec_fixpow(v, 1) == SCALE as int * v / (SCALE as int));
    }
    assert(spec_transform(hm, rc) =~= hm);
}

/// A flat grid has equal minimum and maximum.
proof fn lemma_seq_min_le_max_flat(s: Seq<u64>, c: u64)
    requires
        s.len() > 0,
        forall|i: int| 0 <= i < s.len() ==> s[i] == c,
    ensures
        spec_seq_min(s) == c,
        spec_seq_max(s) == c,
    decreases s.len(),
{
    if s.len() == 1 {
    } else {
        lemma_seq_min_le_max_flat(s.drop_last(), c);
    }
}

} // verus!
