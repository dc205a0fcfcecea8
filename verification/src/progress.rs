//! Normalized scroll progress.
//!
//! A [`ScrollProgress`] carries three pixel measurements of a scrollable
//! container and the progress value derived from them by one pure rule:
//!
//! * `max_scroll = max(scroll_height - viewport_height, 0)`;
//! * if `max_scroll > 0`, progress is `scroll_y / max_scroll`, clamped
//!   between `viewport_height / scroll_height` (the fraction of the content
//!   already visible at rest — an intentional lower bound) and `1`;
//! * otherwise the content fits in the viewport and progress is `1`.
//!
//! Progress is an exact fraction; easing and range mapping are exact as
//! well, so the boundary laws (`eased(0) == 0`, `eased(1) == 1`, range
//! mapping exactly `0`/`1` at the ends and linear in between) are theorems,
//! not approximations.

use vstd::prelude::*;

use crate::frac::{lemma_mul_bound, ratio_eq, ratio_le, ratio_lt, ratio_wf, Frac, FRAC_BOUND};

verus! {

/// Bound on every pixel measurement held by a [`ScrollProgress`]. Wide
/// enough for any real viewport, small enough that all fraction arithmetic
/// stays inside `i128`.
pub const COORD_BOUND: i64 = 0x10_0000_0000;

/// `x` is an acceptable pixel coordinate or extent.
pub open spec fn coord_ok(x: int) -> bool {
    -COORD_BOUND <= x <= COORD_BOUND
}

/// The divisor used by the clamp's lower bound exists: whenever there is
/// scrollable room, the scroll extent is positive.
pub open spec fn extents_valid(scroll_height: int, viewport_height: int) -> bool {
    scroll_height - viewport_height > 0 ==> scroll_height >= 1
}

/// The progress fraction derived from the three measurements: `1` when the
/// content fits, otherwise `scroll_y / max_scroll` clamped to
/// `[viewport_height / scroll_height, 1]`.
pub open spec fn progress_ratio(scroll_y: int, scroll_height: int, viewport_height: int) -> (
    int,
    int,
) {
    let max_scroll = scroll_height - viewport_height;
    if max_scroll <= 0 {
        (1int, 1int)
    } else if scroll_y * scroll_height <= viewport_height * max_scroll {
        (viewport_height, scroll_height)
    } else if scroll_y >= max_scroll {
        (1int, 1int)
    } else {
        (scroll_y, max_scroll)
    }
}

/// Normalized scroll progress of one container, recomputed on every
/// accepted event.
#[derive(Clone, Copy, Debug, PartialEq, Eq, Structural)]
pub struct ScrollProgress {
    /// Derived progress; see [`progress_ratio`]. No other code path sets it.
    pub progress: Frac,
    /// Scroll position along the tracked axis, top offset already applied.
    pub scroll_y: i64,
    /// Total scrollable extent of the content.
    pub scroll_height: i64,
    /// Visible extent of the container, adjusted by the configured offsets.
    pub viewport_height: i64,
}

/// The seven built-in easing curves.
#[derive(Clone, Copy, Debug, PartialEq, Eq, Structural)]
pub enum EasingFunction {
    Linear,
    EaseIn,
    EaseOut,
    EaseInOut,
    EaseInCubic,
    EaseOutCubic,
    EaseInOutCubic,
}

/// The eased value of the fraction `p`, by the standard quadratic and cubic
/// formulas: ease-in is `p^2`/`p^3`, ease-out the complement of ease-in on
/// `1 - p`, ease-in-out piecewise at `p = 1/2` blending both halves.
pub open spec fn eased_ratio(p: (int, int), easing: EasingFunction) -> (int, int) {
    let a = p.0;
    let b = p.1;
    match easing {
        EasingFunction::Linear => (a, b),
        EasingFunction::EaseIn => (a * a, b * b),
        EasingFunction::EaseOut => (b * b - (b - a) * (b - a), b * b),
        EasingFunction::EaseInOut => if 2 * a < b {
            (2 * (a * a), b * b)
        } else {
            (b * b - 2 * ((b - a) * (b - a)), b * b)
        },
        EasingFunction::EaseInCubic => (a * a * a, b * b * b),
        EasingFunction::EaseOutCubic => (b * b * b - (b - a) * (b - a) * (b - a), b * b * b),
        EasingFunction::EaseInOutCubic => if 2 * a < b {
            (4 * (a * a * a), b * b * b)
        } else {
            (b * b * b - 4 * ((b - a) * (b - a) * (b - a)), b * b * b)
        },
    }
}

/// The linear re-map of `p` restricted to `[from, to]` onto `[0, 1]`:
/// exactly `0` at or below `from`, exactly `1` at or above `to`, else
/// `(p - from) / (to - from)`.
pub open spec fn in_range_ratio(p: (int, int), from: (int, int), to: (int, int)) -> (int, int) {
    if ratio_le(p, from) {
        (0int, 1int)
    } else if ratio_le(to, p) {
        (1int, 1int)
    } else {
        (to.1 * (p.0 * from.1 - from.0 * p.1), p.1 * (to.0 * from.1 - from.0 * to.1))
    }
}

impl ScrollProgress {
    /// The three measurements are in range, the clamp's divisor exists, and
    /// `progress` is exactly what [`progress_ratio`] derives from them.
    pub open spec fn wf(self) -> bool {
        &&& coord_ok(self.scroll_y as int)
        &&& coord_ok(self.scroll_height as int)
        &&& coord_ok(self.viewport_height as int)
        &&& extents_valid(self.scroll_height as int, self.viewport_height as int)
        &&& self.progress.wf()
        &&& self.progress.bounded(FRAC_BOUND as int)
        &&& self.progress.pair() == progress_ratio(
            self.scroll_y as int,
            self.scroll_height as int,
            self.viewport_height as int,
        )
    }

    pub fn new(scroll_y: i64, scroll_height: i64, viewport_height: i64) -> (r: ScrollProgress)
        requires
            coord_ok(scroll_y as int),
            coord_ok(scroll_height as int),
            coord_ok(viewport_height as int),
            extents_valid(scroll_height as int, viewport_height as int),
        ensures
            r.scroll_y == scroll_y,
            r.scroll_height == scroll_height,
            r.viewport_height == viewport_height,
            r.wf(),
    {
        let mut r = ScrollProgress {
            progress: Frac { num: 1, den: 1 },
            scroll_y,
            scroll_height,
            viewport_height,
        };
        r.calculate_progress();
        r
    }

    /// Recompute `progress` from the other three fields. This is the only
    /// code path that sets it.
    pub fn calculate_progress(&mut self)
        requires
            coord_ok(old(self).scroll_y as int),
            coord_ok(old(self).scroll_height as int),
            coord_ok(old(self).viewport_height as int),
            extents_valid(old(self).scroll_height as int, old(self).viewport_height as int),
        ensures
            final(self).scroll_y == old(self).scroll_y,
            final(self).scroll_height == old(self).scroll_height,
            final(self).viewport_height == old(self).viewport_height,
            final(self).wf(),
    {
        let max_scroll: i64 = if self.scroll_height - self.viewport_height > 0 {
            self.scroll_height - self.viewport_height
        } else {
            0
        };
        if max_scroll > 0 {
            proof {
                lemma_mul_bound(
                    self.scroll_y as int,
                    self.scroll_height as int,
                    COORD_BOUND as int,
                    COORD_BOUND as int,
                );
                lemma_mul_bound(
                    self.viewport_height as int,
                    max_scroll as int,
                    COORD_BOUND as int,
                    2 * COORD_BOUND as int,
                );
            }
            let below_lower = (self.scroll_y as i128) * (self.scroll_height as i128) <= (
            self.viewport_height as i128) * (max_scroll as i128);
            if below_lower {
                self.progress = Frac {
                    num: self.viewport_height as i128,
                    den: self.scroll_height as i128,
                };
            } else if self.scroll_y >= max_scroll {
                self.progress = Frac { num: 1, den: 1 };
            } else {
                self.progress = Frac { num: self.scroll_y as i128, den: max_scroll as i128 };
            }
        } else {
            self.progress = Frac { num: 1, den: 1 };
        }
    }

    /// Map `progress` through one of the seven easing curves, exactly.
    pub fn eased(&self, easing: EasingFunction) -> (r: Frac)
        requires
            self.wf(),
        ensures
            r.pair() == eased_ratio(self.progress.pair(), easing),
            r.wf(),
    {
        let a = self.progress.num;
        let b = self.progress.den;
        proof {
            let fb = FRAC_BOUND as int;
            lemma_mul_bound(a as int, a as int, fb, fb);
            lemma_mul_bound(b as int, b as int, fb, fb);
            lemma_mul_bound(b as int - a as int, b as int - a as int, 2 * fb, 2 * fb);
            lemma_mul_bound(a as int * a as int, a as int, fb * fb, fb);
            lemma_mul_bound(b as int * b as int, b as int, fb * fb, fb);
            lemma_mul_bound(
                (b as int - a as int) * (b as int - a as int),
                b as int - a as int,
                4 * fb * fb,
                2 * fb,
            );
            assert(b as int * b as int >= 1) by (nonlinear_arith)
                requires
                    b as int >= 1,
            ;
            assert(b as int * b as int * b as int >= 1) by (nonlinear_arith)
                requires
                    b as int >= 1,
            ;
        }
        match easing {
            EasingFunction::Linear => Frac { num: a, den: b },
            EasingFunction::EaseIn => Frac { num: a * a, den: b * b },
            EasingFunction::EaseOut => Frac { num: b * b - (b - a) * (b - a), den: b * b },
            EasingFunction::EaseInOut => {
                if 2 * a < b {
                    Frac { num: 2 * (a * a), den: b * b }
                } else {
                    Frac { num: b * b - 2 * ((b - a) * (b - a)), den: b * b }
                }
            },
            EasingFunction::EaseInCubic => Frac { num: a * a * a, den: b * b * b },
            EasingFunction::EaseOutCubic => Frac {
                num: b * b * b - (b - a) * (b - a) * (b - a),
                den: b * b * b,
            },
            EasingFunction::EaseInOutCubic => {
                if 2 * a < b {
                    Frac { num: 4 * (a * a * a), den: b * b * b }
                } else {
                    Frac { num: b * b * b - 4 * ((b - a) * (b - a) * (b - a)), den: b * b * b }
                }
            },
        }
    }

    /// Re-map `progress` restricted to `[from, to]` onto `[0, 1]`. `from`
    /// strictly below `to` is a caller invariant.
    pub fn in_range(&self, from: Frac, to: Frac) -> (r: Frac)
        requires
            self.wf(),
            from.wf(),
            to.wf(),
            from.bounded(FRAC_BOUND as int),
            to.bounded(FRAC_BOUND as int),
            ratio_lt(from.pair(), to.pair()),
        ensures
            r.pair() == in_range_ratio(self.progress.pair(), from.pair(), to.pair()),
            r.wf(),
    {
        let p = self.progress;
        if p.le(&from) {
            Frac { num: 0, den: 1 }
        } else if to.le(&p) {
            Frac { num: 1, den: 1 }
        } else {
            proof {
                let fb = FRAC_BOUND as int;
                lemma_mul_bound(p.num as int, from.den as int, fb, fb);
                lemma_mul_bound(from.num as int, p.den as int, fb, fb);
                lemma_mul_bound(to.num as int, from.den as int, fb, fb);
                lemma_mul_bound(from.num as int, to.den as int, fb, fb);
                lemma_mul_bound(
                    to.den as int,
                    p.num as int * from.den as int - from.num as int * p.den as int,
                    fb,
                    2 * fb * fb,
                );
                lemma_mul_bound(
                    p.den as int,
                    to.num as int * from.den as int - from.num as int * to.den as int,
                    fb,
                    2 * fb * fb,
                );
                assert(p.den as int * (to.num as int * from.den as int - from.num as int
                    * to.den as int) >= 1) by (nonlinear_arith)
                    requires
                        p.den as int >= 1,
                        to.num as int * from.den as int - from.num as int * to.den as int >= 1,
                ;
            }
            Frac {
                num: to.den * (p.num * from.den - from.num * p.den),
                den: p.den * (to.num * from.den - from.num * to.den),
            }
        }
    }

    /// Inclusive membership of `progress` in `[from, to]`.
    pub fn is_in_range(&self, from: Frac, to: Frac) -> (r: bool)
        requires
            self.wf(),
            from.wf(),
            to.wf(),
            from.bounded(FRAC_BOUND as int),
            to.bounded(FRAC_BOUND as int),
        ensures
            r == (ratio_le(from.pair(), self.progress.pair()) && ratio_le(
                self.progress.pair(),
                to.pair(),
            )),
    {
        from.le(&self.progress) && self.progress.le(&to)
    }
}

/// Content that fits entirely in the viewport always reads as complete:
/// whenever `scroll_height <= viewport_height`, progress is `1` regardless
/// of the scroll position.
pub proof fn lemma_progress_saturates(scroll_y: int, scroll_height: int, viewport_height: int)
    requires
        scroll_height <= viewport_height,
    ensures
        progress_ratio(scroll_y, scroll_height, viewport_height) == (1int, 1int),
{
}

/// For scrollable content the progress fraction is well-formed and lies in
/// `[viewport_height / scroll_height, 1]`.
pub proof fn lemma_progress_bounds(scroll_y: int, scroll_height: int, viewport_height: int)
    requires
        scroll_height - viewport_height > 0,
        scroll_height >= 1,
    ensures
        ratio_wf(progress_ratio(scroll_y, scroll_height, viewport_height)),
        ratio_le(
            (viewport_height, scroll_height),
            progress_ratio(scroll_y, scroll_height, viewport_height),
        ),
        ratio_le(progress_ratio(scroll_y, scroll_height, viewport_height), (1int, 1int)),
{
    let y = scroll_y;
    let se = scroll_height;
    let ve = viewport_height;
    let ms = se - ve;
    let prog = progress_ratio(y, se, ve);
    if y * se <= ve * ms {
        assert(prog == (ve, se));
        assert(ve * se <= ve * se);
    } else if y >= ms {
        assert(prog == (1int, 1int));
        assert(ve * 1 <= 1 * se);
    } else {
        assert(prog == (y, ms));
        assert(ve * ms <= y * se);
        assert(y * 1 <= 1 * ms);
    }
}

/// Progress is monotonically non-decreasing in the scroll position.
pub proof fn lemma_progress_monotone(y1: int, y2: int, scroll_height: int, viewport_height: int)
    requires
        y1 <= y2,
        extents_valid(scroll_height, viewport_height),
    ensures
        ratio_le(
            progress_ratio(y1, scroll_height, viewport_height),
            progress_ratio(y2, scroll_height, viewport_height),
        ),
{
    let se = scroll_height;
    let ve = viewport_height;
    let ms = se - ve;
    if ms > 0 {
        assert(y1 * se <= y2 * se) by (nonlinear_arith)
            requires
                y1 <= y2,
                se >= 1,
        ;
        assert(y1 * ms <= y2 * ms) by (nonlinear_arith)
            requires
                y1 <= y2,
                ms >= 1,
        ;
        let p1 = progress_ratio(y1, se, ve);
        let p2 = progress_ratio(y2, se, ve);
        if y1 * se <= ve * ms {
            assert(p1 == (ve, se));
            if y2 * se <= ve * ms {
                assert(ve * se <= ve * se);
            } else if y2 >= ms {
                assert(ve * 1 <= 1 * se);
            } else {
                assert(ve * ms <= y2 * se);
            }
        } else if y1 >= ms {
            assert(p1 == (1int, 1int));
            assert(!(y2 * se <= ve * ms));
            assert(y2 >= ms);
            assert(p2 == (1int, 1int));
        } else {
            assert(p1 == (y1, ms));
            assert(!(y2 * se <= ve * ms));
            if y2 >= ms {
                assert(y1 * 1 <= 1 * ms);
            } else {
                assert(y1 * ms <= y2 * ms);
            }
        }
    }
}

/// Boundary idempotence of the easing curves: every one of the seven kinds
/// maps a progress of exactly `0` to `0` and a progress of exactly `1` to
/// `1`.
pub proof fn lemma_eased_boundaries(p: (int, int), easing: EasingFunction)
    requires
        ratio_wf(p),
    ensures
        p.0 == 0 ==> ratio_eq(eased_ratio(p, easing), (0int, 1int)),
        p.0 == p.1 ==> ratio_eq(eased_ratio(p, easing), (1int, 1int)),
{
    let a = p.0;
    let b = p.1;
    let r = eased_ratio(p, easing);
    if a == 0 {
        assert(ratio_eq(r, (0int, 1int))) by (nonlinear_arith)
            requires
                a == 0,
                b >= 1,
                r == eased_ratio((a, b), easing),
                p == (a, b),
        ;
    }
    if a == b {
        assert(ratio_eq(r, (1int, 1int))) by (nonlinear_arith)
            requires
                a == b,
                b >= 1,
                r == eased_ratio((a, b), easing),
                p == (a, b),
        ;
    }
}

/// Every one of the seven built-in easing curves keeps a progress inside
/// `[0, 1]` inside `[0, 1]`.
pub proof fn lemma_eased_in_unit_range(p: (int, int), easing: EasingFunction)
    requires
        ratio_wf(p),
        ratio_le((0int, 1int), p),
        ratio_le(p, (1int, 1int)),
    ensures
        ratio_wf(eased_ratio(p, easing)),
        ratio_le((0int, 1int), eased_ratio(p, easing)),
        ratio_le(eased_ratio(p, easing), (1int, 1int)),
{
    let a = p.0;
    let b = p.1;
    assert(0 <= a <= b);
    assert(1 <= b * b) by (nonlinear_arith)
        requires
            b >= 1,
    ;
    assert(1 <= b * b * b) by (nonlinear_arith)
        requires
            b >= 1,
    ;
    match easing {
        EasingFunction::Linear => {
        },
        EasingFunction::EaseIn => {
            assert(0 <= a * a && a * a <= b * b) by (nonlinear_arith)
                requires
                    0 <= a <= b,
            ;
        },
        EasingFunction::EaseOut => {
            assert(0 <= (b - a) * (b - a) && (b - a) * (b - a) <= b * b) by (nonlinear_arith)
                requires
                    0 <= a <= b,
            ;
        },
        EasingFunction::EaseInOut => {
            if 2 * a < b {
                assert(0 <= 2 * (a * a) && 2 * (a * a) <= b * b) by (nonlinear_arith)
                    requires
                        0 <= a,
                        2 * a < b,
                ;
            } else {
                assert(0 <= 2 * ((b - a) * (b - a)) && 2 * ((b - a) * (b - a)) <= b * b)
                    by (nonlinear_arith)
                    requires
                        a <= b,
                        2 * a >= b,
                        b >= 1,
                ;
            }
        },
        EasingFunction::EaseInCubic => {
            assert(0 <= a * a * a && a * a * a <= b * b * b) by (nonlinear_arith)
                requires
                    0 <= a <= b,
            ;
        },
        EasingFunction::EaseOutCubic => {
            assert(0 <= (b - a) * (b - a) * (b - a) && (b - a) * (b - a) * (b - a) <= b * b * b)
                by (nonlinear_arith)
                requires
                    0 <= a <= b,
            ;
        },
        EasingFunction::EaseInOutCubic => {
            if 2 * a < b {
                assert(0 <= 4 * (a * a * a) && 4 * (a * a * a) <= b * b * b) by (nonlinear_arith)
                    requires
                        0 <= a,
                        2 * a < b,
                ;
            } else {
                assert(0 <= 4 * ((b - a) * (b - a) * (b - a)) && 4 * ((b - a) * (b - a) * (b - a))
                    <= b * b * b) by (nonlinear_arith)
                    requires
                        a <= b,
                        2 * a >= b,
                        b >= 1,
                ;
            }
        },
    }
}

/// On the open interval `(from, to)` the range map is exactly the linear
/// map: `r * (to - from) == p - from` as rationals, and `r` lies strictly
/// between `0` and `1`.
pub proof fn lemma_in_range_linear(p: (int, int), from: (int, int), to: (int, int))
    requires
        ratio_wf(p),
        ratio_wf(from),
        ratio_wf(to),
        ratio_lt(from, p),
        ratio_lt(p, to),
    ensures
        ratio_wf(in_range_ratio(p, from, to)),
        ratio_eq(
            (
                in_range_ratio(p, from, to).0 * (to.0 * from.1 - from.0 * to.1),
                in_range_ratio(p, from, to).1 * (to.1 * from.1),
            ),
            (p.0 * from.1 - from.0 * p.1, p.1 * from.1),
        ),
        ratio_lt((0int, 1int), in_range_ratio(p, from, to)),
        ratio_lt(in_range_ratio(p, from, to), (1int, 1int)),
{
    let a = p.0;
    let b = p.1;
    let c = from.0;
    let d = from.1;
    let e = to.0;
    let f = to.1;
    let u = a * d - c * b;
    let v = e * d - c * f;
    assert(u >= 1);
    assert(v >= 1) by (nonlinear_arith)
        requires
            c * b < a * d,
            a * f < e * b,
            b >= 1,
            d >= 1,
            f >= 1,
            v == e * d - c * f,
    ;
    let r = in_range_ratio(p, from, to);
    assert(r == (f * u, b * v));
    assert(b * v >= 1) by (nonlinear_arith)
        requires
            b >= 1,
            v >= 1,
    ;
    assert((r.0 * v) * (b * d) == u * (r.1 * (f * d))) by (nonlinear_arith)
        requires
            r.0 == f * u,
            r.1 == b * v,
    ;
    assert(f * u >= 1) by (nonlinear_arith)
        requires
            f >= 1,
            u >= 1,
    ;
    assert(f * u < b * v) by (nonlinear_arith)
        requires
            u == a * d - c * b,
            v == e * d - c * f,
            a * f < e * b,
            d >= 1,
    ;
}

} // verus!
