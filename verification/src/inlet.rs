//! Sag inlet capacity: at a low point all approach flow ponds over
//! the inlet, which passes it as a weir at low heads and as an orifice
//! at high heads, and floods when even the ponding allowed by the rim
//! cannot drive the demand through.
//!
//! All quantities are in thousandths.  The head exponents reduce to an
//! integer square root, so the capacities are exact integer
//! arithmetic: `d^1.5` is the square root of the cubed depth, and the
//! orifice head is the square root of `2 g d`.

use vstd::prelude::*;
use crate::fixed::div_trunc;
use crate::fixed::min_i64;
use crate::hydraulics::GRAVITY_US;

verus! {

/// Whether `r` is the integer square root of `x`.
pub open spec fn is_isqrt(x: int, r: int) -> bool {
    &&& 0 <= r
    &&& r * r <= x
    &&& x < (r + 1) * (r + 1)
}

/// The integer square root of `x`.
pub open spec fn spec_isqrt(x: int) -> int {
    choose|r: int| is_isqrt(x, r)
}

/// The integer square root is unique.
proof fn lemma_isqrt_unique(x: int, r1: int, r2: int)
    requires
        is_isqrt(x, r1),
        is_isqrt(x, r2),
    ensures
        r1 == r2,
{
    if r1 < r2 {
        assert((r1 + 1) * (r1 + 1) <= r2 * r2) by (nonlinear_arith)
            requires
                0 <= r1 + 1 <= r2,
        ;
    }
    if r2 < r1 {
        assert((r2 + 1) * (r2 + 1) <= r1 * r1) by (nonlinear_arith)
            requires
                0 <= r2 + 1 <= r1,
        ;
    }
}

/// The integer square root, by bisection.
pub fn isqrt(x: u64) -> (r: u64)
    ensures
        is_isqrt(x as int, r as int),
        r as int == spec_isqrt(x as int),
{
    let mut lo: u64 = 0;
    let mut hi: u64 = 4294967295;
    while lo < hi
        invariant
            lo <= hi,
            hi <= 4294967295,
            lo * lo <= x,
            x < (hi + 1) * (hi + 1),
        decreases hi - lo,
    {
        let mid = lo + (hi - lo + 1) / 2;
        proof {
            assert(mid * mid <= 4294967295u64 * 4294967295u64) by (nonlinear_arith)
                requires
                    0 <= mid <= 4294967295u64,
            ;
        }
        if mid * mid <= x {
            lo = mid;
        } else {
            hi = mid - 1;
        }
    }
    proof {
        assert(is_isqrt(x as int, lo as int));
        lemma_isqrt_unique(x as int, lo as int, spec_isqrt(x as int));
    }
    lo
}

/// The weir-flow capacity `C_w P d^1.5`, in thousandths: the
/// coefficient and effective crest length are in thousandths and the
/// cubed depth's square root is rescaled by one thousand to the power
/// of three halves.
pub open spec fn spec_weir_capacity(c_w: int, crest: int, d: int) -> int {
    div_trunc(c_w * crest * spec_isqrt(d * d * d), 31622777)
}

/// The orifice-flow capacity `C_o A (2 g d)^0.5`, in thousandths.
pub open spec fn spec_orifice_capacity(c_o: int, area: int, g: int, d: int) -> int {
    div_trunc(c_o * area * spec_isqrt(2 * g * d), 1000000)
}

/// Compute the weir capacity for a crest length and ponding depth in
/// thousandths.
fn weir_capacity(c_w: i64, crest: i64, d: i64) -> (r: i64)
    requires
        0 <= c_w <= 10000,
        0 <= crest <= 10000000000,
        0 <= d <= 1000000,
    ensures
        r as int == spec_weir_capacity(c_w as int, crest as int, d as int),
{
    proof {
        assert(0 <= d * d <= 1000000000000 && 0 <= d * d * d <= 1000000000000000000)
            by (nonlinear_arith)
            requires
                0 <= d <= 1000000,
        ;
    }
    let cubed: u64 = ((d as i64 as i128) * (d as i128) * (d as i128)) as u64;
    let root = isqrt(cubed);
    proof {
        assert(spec_isqrt(cubed as int) * spec_isqrt(cubed as int) <= 1000000000000000000);
        assert(0 <= spec_isqrt(cubed as int) <= 1000000000) by (nonlinear_arith)
            requires
                0 <= spec_isqrt(cubed as int),
                spec_isqrt(cubed as int) * spec_isqrt(cubed as int) <= 1000000000000000000,
        ;
        assert(0 <= c_w * crest * (root as int) <= 10000 * 10000000000 * 1000000000)
            by (nonlinear_arith)
            requires
                0 <= c_w <= 10000,
                0 <= crest <= 10000000000,
                0 <= root <= 1000000000,
        ;
        crate::fixed::lemma_div_trunc_ordered(
            c_w * crest * (root as int),
            100000000000000000000000int,
            31622777,
        );
        assert(0 <= c_w * crest <= 100000000000000) by (nonlinear_arith)
            requires
                0 <= c_w <= 10000,
                0 <= crest <= 10000000000,
        ;
    }
    let wide: i128 = (c_w as i128) * (crest as i128) * (root as i128);
    let q: i128 = wide / 31622777;
    q as i64
}

/// Compute the orifice capacity for a net area and ponding depth in
/// thousandths.
fn orifice_capacity(c_o: i64, area: i64, d: i64) -> (r: i64)
    requires
        0 <= c_o <= 10000,
        0 <= area <= 1000000000000,
        0 <= d <= 1000000,
    ensures
        r as int == spec_orifice_capacity(c_o as int, area as int, GRAVITY_US as int, d as int),
{
    proof {
        assert(0 <= 2 * GRAVITY_US * d <= 100000000000);
    }
    let head: u64 = (2 * GRAVITY_US * d) as u64;
    let root = isqrt(head);
    proof {
        assert(spec_isqrt(head as int) * spec_isqrt(head as int) <= 100000000000);
        assert(0 <= spec_isqrt(head as int) <= 1000000) by (nonlinear_arith)
            requires
                0 <= spec_isqrt(head as int),
                spec_isqrt(head as int) * spec_isqrt(head as int) <= 100000000000,
        ;
        assert(0 <= c_o * area * (root as int) <= 10000000000000000000000int)
            by (nonlinear_arith)
            requires
                0 <= c_o <= 10000,
                0 <= area <= 1000000000000,
                0 <= root <= 1000000,
        ;
        crate::fixed::lemma_div_trunc_ordered(
            c_o * area * (root as int),
            10000000000000000000000int,
            1000000,
        );
        assert(0 <= c_o * area <= 10000000000000000) by (nonlinear_arith)
            requires
                0 <= c_o <= 10000,
                0 <= area <= 1000000000000,
        ;
    }
    let wide: i128 = (c_o as i128) * (area as i128) * (root as i128);
    let q: i128 = wide / 1000000;
    q as i64
}

/// A grate inlet at a sag, in thousandths: all approach flow ponds
/// over the grate.
#[derive(Debug, Clone, PartialEq)]
pub struct GrateInletSag {
    /// Grate length.
    pub length: i64,
    /// Grate width.
    pub width: i64,
    /// Number of grates.
    pub count: usize,
    /// Clogging fraction in thousandths, `0` to `1000`.
    pub clogging_factor: i64,
}

/// Whether the sag grate's dimensions stay in the engine's range.
pub open spec fn spec_grate_sag_wf(inlet: GrateInletSag) -> bool {
    &&& 0 <= inlet.length <= 1000000
    &&& 0 <= inlet.width <= 1000000
    &&& inlet.count <= 1000
    &&& 0 <= inlet.clogging_factor <= 1000
}

/// The grate's total crest perimeter `2 (L + W) count`, in
/// thousandths.
pub open spec fn spec_grate_perimeter(inlet: GrateInletSag) -> int {
    2 * (inlet.length + inlet.width) * inlet.count
}

/// The grate's net open area after clogging, in thousandths of a
/// square unit.
pub open spec fn spec_grate_net_area(inlet: GrateInletSag) -> int {
    div_trunc(
        div_trunc(inlet.length * inlet.width * inlet.count, 1000) * (1000
            - inlet.clogging_factor),
        1000,
    )
}

/// The sag grate's ponding capacity at a depth: the smaller of the
/// weir flow over its perimeter and the orifice flow through its net
/// open area.
pub open spec fn spec_grate_sag_capacity(inlet: GrateInletSag, d: int) -> int {
    let weir = spec_weir_capacity(3000, spec_grate_perimeter(inlet), d);
    let orifice = spec_orifice_capacity(
        670,
        spec_grate_net_area(inlet),
        GRAVITY_US as int,
        d,
    );
    if weir <= orifice {
        weir
    } else {
        orifice
    }
}

/// The outcome of the flooding sweep from a given depth: the first
/// tenth-of-a-unit ponding step at which the capacity carries the
/// demand, or flooding at the rim.
pub open spec fn spec_flood_sweep(
    inlet: GrateInletSag,
    design_flow: int,
    depth: int,
    max_depth: int,
) -> (bool, int)
    decreases max_depth - depth + 100,
{
    if depth > max_depth {
        (true, max_depth)
    } else if spec_grate_sag_capacity(inlet, depth) >= design_flow {
        (false, depth)
    } else {
        spec_flood_sweep(inlet, design_flow, depth + 100, max_depth)
    }
}

impl GrateInletSag {
    /// Create a new sag grate inlet.
    pub fn new(length: i64, width: i64, count: usize, clogging_factor: i64) -> (r: GrateInletSag)
        ensures
            r.length == length,
            r.width == width,
            r.count == count,
            r.clogging_factor == clogging_factor,
    {
        GrateInletSag { length, width, count, clogging_factor }
    }

    /// The ponding capacity at a depth, in thousandths: the smaller of
    /// the weir and orifice flows.
    pub fn capacity(&self, ponding_depth: i64) -> (r: i64)
        requires
            spec_grate_sag_wf(*self),
            0 <= ponding_depth <= 1000000,
        ensures
            r as int == spec_grate_sag_capacity(*self, ponding_depth as int),
    {
        proof {
            assert(0 <= 2 * (self.length + self.width) * (self.count as i64) <= 4000000000)
                by (nonlinear_arith)
                requires
                    0 <= self.length + self.width <= 2000000,
                    0 <= self.count as i64 <= 1000,
            ;
            assert(0 <= self.length * self.width <= 1000000000000 && 0 <= self.length
                * self.width * self.count <= 1000000000000000) by (nonlinear_arith)
                requires
                    0 <= self.length <= 1000000,
                    0 <= self.width <= 1000000,
                    0 <= self.count <= 1000,
            ;
        }
        let perimeter: i64 = 2 * (self.length + self.width) * (self.count as i64);
        let gross_area: i64 = (((self.length as i128) * (self.width as i128) * (
        self.count as i128)) / 1000) as i64;
        proof {
            crate::fixed::lemma_div_trunc_ordered(
                self.length * self.width * self.count,
                1000000000000000int,
                1000,
            );
            assert(0 <= gross_area * (1000 - self.clogging_factor) <= 1000000000000 * 1000)
                by (nonlinear_arith)
                requires
                    0 <= gross_area <= 1000000000000,
                    0 <= 1000 - self.clogging_factor <= 1000,
            ;
            crate::fixed::lemma_div_trunc_ordered(
                gross_area * (1000 - self.clogging_factor),
                1000000000000000int,
                1000,
            );
        }
        let net_area: i64 = (((gross_area as i128) * ((1000 - self.clogging_factor) as i128))
            / 1000) as i64;
        let weir = weir_capacity(3000, perimeter, ponding_depth);
        let orifice = orifice_capacity(670, net_area, ponding_depth);
        min_i64(weir, orifice)
    }

    /// Sweep the ponding depth upward in tenths of a unit until the
    /// capacity carries the demand or the rim is reached: returns
    /// whether the inlet floods, and the ponding depth needed (the rim
    /// depth when flooding).
    pub fn check_flooding(&self, design_flow: i64, rim_elevation: i64, invert_elevation: i64) -> (r:
        (bool, i64))
        requires
            spec_grate_sag_wf(*self),
            -1000000000000 <= rim_elevation <= 1000000000000,
            -1000000000000 <= invert_elevation <= 1000000000000,
            rim_elevation - invert_elevation <= 1000000,
        ensures
            (r.0, r.1 as int) == spec_flood_sweep(
                *self,
                design_flow as int,
                100,
                rim_elevation - invert_elevation,
            ),
    {
        let max_depth: i64 = rim_elevation - invert_elevation;
        let mut depth: i64 = 100;
        while depth <= max_depth
            invariant
                spec_grate_sag_wf(*self),
                max_depth == rim_elevation - invert_elevation,
                100 <= depth <= 1000000 + 100,
                max_depth <= 1000000,
                depth % 100 == 0,
                spec_flood_sweep(*self, design_flow as int, 100, max_depth as int)
                    == spec_flood_sweep(*self, design_flow as int, depth as int, max_depth as int),
            decreases max_depth - depth + 100,
        {
            let capacity = self.capacity(depth);
            if capacity >= design_flow {
                proof {
                    assert(spec_flood_sweep(
                        *self,
                        design_flow as int,
                        depth as int,
                        max_depth as int,
                    ) == (false, depth as int));
                }
                return (false, depth);
            }
            proof {
                assert(spec_flood_sweep(*self, design_flow as int, depth as int, max_depth as int)
                    == spec_flood_sweep(
                    *self,
                    design_flow as int,
                    depth + 100,
                    max_depth as int,
                ));
            }
            depth = depth + 100;
        }
        proof {
            assert(spec_flood_sweep(*self, design_flow as int, depth as int, max_depth as int)
                == (true, max_depth as int));
        }
        (true, max_depth)
    }
}

/// A curb-opening inlet at a sag, in thousandths.
#[derive(Debug, Clone, PartialEq)]
pub struct CurbOpeningInletSag {
    /// Opening length.
    pub length: i64,
    /// Opening height.
    pub height: i64,
    /// Throat kind.
    pub throat_type: crate::node::ThroatType,
    /// Clogging fraction in thousandths, `0` to `1000`.
    pub clogging_factor: i64,
}

/// The curb opening's net length after clogging, in thousandths.
pub open spec fn spec_curb_net_length(inlet: CurbOpeningInletSag) -> int {
    div_trunc(inlet.length * (1000 - inlet.clogging_factor), 1000)
}

/// The sag curb opening's ponding capacity at a depth: the smaller of
/// the weir flow over its net length and the orifice flow through its
/// throat area.
pub open spec fn spec_curb_sag_capacity(inlet: CurbOpeningInletSag, d: int) -> int {
    let weir = spec_weir_capacity(2300, spec_curb_net_length(inlet), d);
    let orifice = spec_orifice_capacity(
        670,
        div_trunc(spec_curb_net_length(inlet) * inlet.height, 1000),
        GRAVITY_US as int,
        d,
    );
    if weir <= orifice {
        weir
    } else {
        orifice
    }
}

impl CurbOpeningInletSag {
    /// Create a new sag curb-opening inlet.
    pub fn new(
        length: i64,
        height: i64,
        throat_type: crate::node::ThroatType,
        clogging_factor: i64,
    ) -> (r: CurbOpeningInletSag)
        ensures
            r.length == length,
            r.height == height,
            r.throat_type == throat_type,
            r.clogging_factor == clogging_factor,
    {
        CurbOpeningInletSag { length, height, throat_type, clogging_factor }
    }

    /// The ponding capacity at a depth, in thousandths: the smaller of
    /// the weir and orifice flows.
    pub fn capacity(&self, ponding_depth: i64) -> (r: i64)
        requires
            0 <= self.length <= 1000000,
            0 <= self.height <= 1000000,
            0 <= self.clogging_factor <= 1000,
            0 <= ponding_depth <= 1000000,
        ensures
            r as int == spec_curb_sag_capacity(*self, ponding_depth as int),
    {
        proof {
            assert(0 <= self.length * (1000 - self.clogging_factor) <= 1000000000)
                by (nonlinear_arith)
                requires
                    0 <= self.length <= 1000000,
                    0 <= 1000 - self.clogging_factor <= 1000,
            ;
            crate::fixed::lemma_div_trunc_ordered(
                self.length * (1000 - self.clogging_factor),
                1000000000int,
                1000,
            );
        }
        let net_length: i64 = (self.length * (1000 - self.clogging_factor)) / 1000;
        proof {
            assert(0 <= net_length * self.height <= 1000000000000int) by (nonlinear_arith)
                requires
                    0 <= net_length <= 1000000,
                    0 <= self.height <= 1000000,
            ;
            crate::fixed::lemma_div_trunc_ordered(
                net_length * self.height,
                1000000000000int,
                1000,
            );
        }
        let area: i64 = (((net_length as i128) * (self.height as i128)) / 1000) as i64;
        let weir = weir_capacity(2300, net_length, ponding_depth);
        let orifice = orifice_capacity(670, area, ponding_depth);
        min_i64(weir, orifice)
    }
}

} // verus!
