//! Dimensions, bounds, and the resize strategy: given the size of a
//! decoded image and a caller-supplied bound, decide the target size.
//! Resizing never enlarges, and the longest-edge policy preserves the
//! aspect ratio up to one pixel of integer rounding.
use vstd::prelude::*;

verus! {

/// The size of a raster image in pixels. A real image is at least one
/// pixel wide and one pixel tall.
#[derive(Clone, Copy, Debug, PartialEq, Eq, Structural)]
pub struct Dimensions {
    pub width: u32,
    pub height: u32,
}

impl Dimensions {
    /// A valid dimension pair is positive on both axes.
    pub open spec fn wf(self) -> bool {
        self.width >= 1 && self.height >= 1
    }
}

/// An optional pixel ceiling per axis. `None` on an axis means "no
/// limit on that axis"; a limit of zero is treated as no limit, since
/// no image can be shrunk to a zero edge.
#[derive(Clone, Copy, Debug, PartialEq, Eq)]
pub struct Bound(pub Option<u32>, pub Option<u32>);

/// The target length of one axis under the independent-bound policy:
/// clamp to the limit when the limit is positive and the source
/// exceeds it, otherwise leave the axis alone.
pub open spec fn clamp_axis(src: u32, limit: Option<u32>) -> u32 {
    match limit {
        Some(l) => if 1 <= l < src {
            l
        } else {
            src
        },
        None => src,
    }
}

/// Whether one source axis is already within its limit (a missing or
/// zero limit admits everything).
pub open spec fn axis_fits(src: u32, limit: Option<u32>) -> bool {
    match limit {
        Some(l) => l == 0 || src <= l,
        None => true,
    }
}

/// The shorter edge scaled by the same ratio as the longer one:
/// `floor(short * limit / long)`, raised to one pixel when the exact
/// scale would round down to nothing.
pub open spec fn scaled_short_edge(short: u32, long: u32, limit: u32) -> u32
    recommends
        long >= 1,
{
    let exact = (short * limit) / (long as int);
    if exact < 1 {
        1
    } else {
        exact as u32
    }
}

/// The target size under the longest-edge policy: if the longer edge
/// exceeds the (positive) limit, it becomes the limit and the shorter
/// edge is scaled by the same ratio; otherwise the size is unchanged.
pub open spec fn longest_edge_plan(d: Dimensions, limit: u32) -> Dimensions
    recommends
        d.wf(),
{
    if limit == 0 || (d.width <= limit && d.height <= limit) {
        d
    } else if d.width >= d.height {
        Dimensions { width: limit, height: scaled_short_edge(d.height, d.width, limit) }
    } else {
        Dimensions { width: scaled_short_edge(d.width, d.height, limit), height: limit }
    }
}

/// The target size under the independent-bound policy: each axis is
/// clamped to its own limit with no shared scale factor.
pub open spec fn independent_plan(d: Dimensions, b: Bound) -> Dimensions {
    Dimensions { width: clamp_axis(d.width, b.0), height: clamp_axis(d.height, b.1) }
}

/// How target dimensions are computed from source dimensions.
#[derive(Clone, Copy, Debug)]
pub enum Strategy {
    /// Clamp width and height each to its own ceiling (may distort the
    /// aspect ratio when the bound is not proportional to the source).
    Bound(Bound),
    /// Cap the longer edge at the given limit and scale the shorter
    /// edge by the same ratio (preserves the aspect ratio).
    LongestEdge(u32),
}

impl Strategy {
    /// The target size this strategy assigns to a source size.
    pub open spec fn plan(self, d: Dimensions) -> Dimensions {
        match self {
            Strategy::Bound(b) => independent_plan(d, b),
            Strategy::LongestEdge(limit) => longest_edge_plan(d, limit),
        }
    }

    /// Whether a source size is already within this strategy's bound,
    /// so that no resizing is called for.
    pub open spec fn fits(self, d: Dimensions) -> bool {
        match self {
            Strategy::Bound(b) => axis_fits(d.width, b.0) && axis_fits(d.height, b.1),
            Strategy::LongestEdge(limit) => limit == 0 || (d.width <= limit && d.height
                <= limit),
        }
    }

    /// Compute the target dimensions for a source image of size `d`.
    pub fn apply(&self, d: Dimensions) -> (r: Dimensions)
        requires
            d.wf(),
        ensures
            r == self.plan(d),
            r.wf(),
    {
        proof {
            lemma_plan_wf(*self, d);
        }
        match self {
            Strategy::Bound(b) => {
                let w: u32 = match b.0 {
                    Some(l) => if 1 <= l && l < d.width {
                        l
                    } else {
                        d.width
                    },
                    None => d.width,
                };
                let h: u32 = match b.1 {
                    Some(l) => if 1 <= l && l < d.height {
                        l
                    } else {
                        d.height
                    },
                    None => d.height,
                };
                Dimensions { width: w, height: h }
            },
            Strategy::LongestEdge(limit) => apply_longest_edge(d, *limit),
        }
    }
}

/// Executable longest-edge planning; the scaled edge is computed in
/// 64-bit arithmetic, which cannot overflow for 32-bit inputs.
fn apply_longest_edge(d: Dimensions, limit: u32) -> (r: Dimensions)
    requires
        d.wf(),
    ensures
        r == longest_edge_plan(d, limit),
{
    if limit == 0 || (d.width <= limit && d.height <= limit) {
        d
    } else if d.width >= d.height {
        proof {
            lemma_scaled_short_edge_bounds(d.height, d.width, limit);
            vstd::arithmetic::mul::lemma_mul_upper_bound(
                d.height as int,
                0xFFFF_FFFF as int,
                limit as int,
                0xFFFF_FFFF as int,
            );
        }
        let scaled: u64 = (d.height as u64) * (limit as u64) / (d.width as u64);
        let h: u32 = if scaled < 1 {
            1
        } else {
            scaled as u32
        };
        Dimensions { width: limit, height: h }
    } else {
        proof {
            lemma_scaled_short_edge_bounds(d.width, d.height, limit);
            vstd::arithmetic::mul::lemma_mul_upper_bound(
                d.width as int,
                0xFFFF_FFFF as int,
                limit as int,
                0xFFFF_FFFF as int,
            );
        }
        let scaled: u64 = (d.width as u64) * (limit as u64) / (d.height as u64);
        let w: u32 = if scaled < 1 {
            1
        } else {
            scaled as u32
        };
        Dimensions { width: w, height: limit }
    }
}

/// The scaled shorter edge is nonnegative, never exceeds the limit,
/// and never exceeds the original shorter edge.
proof fn lemma_scaled_short_edge_bounds(short: u32, long: u32, limit: u32)
    requires
        1 <= short <= long,
        limit <= long,
    ensures
        0 <= (short * limit) / (long as int) <= limit,
        (short * limit) / (long as int) <= short,
{
    let s = short as int;
    let l = long as int;
    let m = limit as int;
    vstd::arithmetic::mul::lemma_mul_nonnegative(s, m);
    vstd::arithmetic::div_mod::lemma_div_pos_is_pos(s * m, l);
    vstd::arithmetic::mul::lemma_mul_inequality(s, l, m);
    vstd::arithmetic::div_mod::lemma_div_is_ordered(s * m, l * m, l);
    vstd::arithmetic::div_mod::lemma_div_multiples_vanish(m, l);
    vstd::arithmetic::mul::lemma_mul_inequality(m, l, s);
    assert(s * m == m * s) by (nonlinear_arith);
    assert(l * s == s * l) by (nonlinear_arith);
    vstd::arithmetic::div_mod::lemma_div_is_ordered(s * m, l * s, l);
    vstd::arithmetic::div_mod::lemma_div_multiples_vanish(s, l);
}

/// A plan keeps both axes positive: the strategy never produces a
/// degenerate size from a real one.
pub proof fn lemma_plan_wf(s: Strategy, d: Dimensions)
    requires
        d.wf(),
    ensures
        s.plan(d).wf(),
{
    match s {
        Strategy::Bound(_) => {
        },
        Strategy::LongestEdge(limit) => {
            if !(limit == 0 || (d.width <= limit && d.height <= limit)) {
                if d.width >= d.height {
                    lemma_scaled_short_edge_bounds(d.height, d.width, limit);
                } else {
                    lemma_scaled_short_edge_bounds(d.width, d.height, limit);
                }
            }
        },
    }
}

/// A wholly absent bound is the identity: with no limit on either
/// axis, the source dimensions pass through unchanged.
pub proof fn lemma_unbounded_identity(d: Dimensions)
    ensures
        Strategy::Bound(Bound(None, None)).plan(d) == d,
{
}

/// A source already within the bound is left exactly as it is: the
/// strategy never enlarges and never touches an image that fits.
pub proof fn lemma_within_bound_identity(s: Strategy, d: Dimensions)
    requires
        s.fits(d),
    ensures
        s.plan(d) == d,
{
}

/// The strategy never enlarges either axis, whatever the bound.
pub proof fn lemma_never_enlarges(s: Strategy, d: Dimensions)
    requires
        d.wf(),
    ensures
        s.plan(d).width <= d.width,
        s.plan(d).height <= d.height,
{
    match s {
        Strategy::Bound(_) => {
        },
        Strategy::LongestEdge(limit) => {
            if !(limit == 0 || (d.width <= limit && d.height <= limit)) {
                if d.width >= d.height {
                    lemma_scaled_short_edge_bounds(d.height, d.width, limit);
                } else {
                    lemma_scaled_short_edge_bounds(d.width, d.height, limit);
                }
            }
        },
    }
}

/// Longest-edge exactness: when the longer edge exceeds a positive
/// limit, the plan puts the longer edge exactly at the limit, and the
/// shorter edge differs from the ideal ratio by less than one pixel:
/// scaling the target back up by the long edge lands within one long
/// edge of the ideal product.
pub proof fn lemma_longest_edge_exact(d: Dimensions, limit: u32)
    requires
        d.wf(),
        limit >= 1,
        d.width > limit || d.height > limit,
    ensures
        ({
            let r = longest_edge_plan(d, limit);
            &&& r.wf()
            &&& if r.width >= r.height {
                r.width == limit
            } else {
                r.height == limit
            }
            &&& d.width >= d.height ==> r.width == limit && (d.height * limit - d.width
                * r.height < d.width) && (d.width * r.height - d.height * limit < d.width)
            &&& d.width < d.height ==> r.height == limit && (d.width * limit - d.height
                * r.width < d.height) && (d.height * r.width - d.width * limit < d.height)
        }),
{
    lemma_plan_wf(Strategy::LongestEdge(limit), d);
    let r = longest_edge_plan(d, limit);
    if d.width >= d.height {
        let s = d.height as int;
        let l = d.width as int;
        let m = limit as int;
        lemma_scaled_short_edge_bounds(d.height, d.width, limit);
        let q = (s * m) / l;
        vstd::arithmetic::div_mod::lemma_fundamental_div_mod(s * m, l);
        vstd::arithmetic::div_mod::lemma_mod_bound(s * m, l);
        vstd::arithmetic::mul::lemma_mul_basics(l);
        if q < 1 {
            assert(r.height == 1);
            vstd::arithmetic::mul::lemma_mul_increases(s, m);
            assert(s * m >= 1);
        } else {
            assert(r.height == q);
        }
    } else {
        let s = d.width as int;
        let l = d.height as int;
        let m = limit as int;
        lemma_scaled_short_edge_bounds(d.width, d.height, limit);
        let q = (s * m) / l;
        vstd::arithmetic::div_mod::lemma_fundamental_div_mod(s * m, l);
        vstd::arithmetic::div_mod::lemma_mod_bound(s * m, l);
        vstd::arithmetic::mul::lemma_mul_basics(l);
        if q < 1 {
            assert(r.width == 1);
            vstd::arithmetic::mul::lemma_mul_increases(s, m);
            assert(s * m >= 1);
        } else {
            assert(r.width == q);
        }
    }
}

} // verus!
