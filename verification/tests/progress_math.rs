use scroll_storyteller::frac::Frac;
use scroll_storyteller::progress::{EasingFunction, ScrollProgress};

/// The fraction `f` equals `n / d` (for positive `d`).
fn frac_is(f: &Frac, n: i128, d: i128) -> bool {
    assert!(f.den >= 1);
    f.num * d == n * f.den
}

#[test]
fn frac_comparisons_are_rational() {
    let third = Frac::new(1, 3);
    let also_third = Frac::new(2, 6);
    let half = Frac::new(1, 2);
    assert!(third.le(&also_third) && also_third.le(&third));
    assert!(!third.lt(&also_third));
    assert!(third.lt(&half));
    assert!(!half.lt(&third));
    assert!(!half.le(&third));
}

#[test]
fn non_scrollable_progress_is_one() {
    // scroll_extent == viewport_extent: progress is 1.0 at offset 0.
    let p = ScrollProgress::new(0, 200, 200);
    assert!(frac_is(&p.progress, 1, 1));
    // ... and regardless of the offset.
    let p = ScrollProgress::new(150, 200, 200);
    assert!(frac_is(&p.progress, 1, 1));
    let p = ScrollProgress::new(-30, 100, 250);
    assert!(frac_is(&p.progress, 1, 1));
    let p = ScrollProgress::new(7, 0, 0);
    assert!(frac_is(&p.progress, 1, 1));
}

#[test]
fn scenario_thousand_by_two_hundred() {
    // max_scroll = 800; offset 800 clamps to 1.0, offset 400 reads 0.5.
    let p = ScrollProgress::new(800, 1000, 200);
    assert!(frac_is(&p.progress, 1, 1));
    let p = ScrollProgress::new(400, 1000, 200);
    assert!(frac_is(&p.progress, 1, 2));
    // far past the end still clamps to 1.0
    let p = ScrollProgress::new(5000, 1000, 200);
    assert!(frac_is(&p.progress, 1, 1));
}

#[test]
fn progress_lower_clamp_is_visible_fraction() {
    // The lower bound is viewport/scroll = 0.2, not 0.
    let p = ScrollProgress::new(0, 1000, 200);
    assert!(frac_is(&p.progress, 1, 5));
    let p = ScrollProgress::new(100, 1000, 200);
    assert!(frac_is(&p.progress, 1, 5));
    let p = ScrollProgress::new(-400, 1000, 200);
    assert!(frac_is(&p.progress, 1, 5));
}

#[test]
fn progress_is_monotone_in_offset() {
    let offsets = [-100i64, 0, 100, 200, 400, 650, 800, 900];
    let mut last = ScrollProgress::new(offsets[0], 1000, 200).progress;
    for &y in &offsets[1..] {
        let cur = ScrollProgress::new(y, 1000, 200).progress;
        // last <= cur by cross-multiplication
        assert!(last.num * cur.den <= cur.num * last.den);
        last = cur;
    }
}

#[test]
fn calculate_progress_recomputes_in_place() {
    let mut p = ScrollProgress::new(0, 1000, 200);
    p.scroll_y = 400;
    p.calculate_progress();
    assert!(frac_is(&p.progress, 1, 2));
}

#[test]
fn eased_boundaries_for_all_seven_kinds() {
    let kinds = [
        EasingFunction::Linear,
        EasingFunction::EaseIn,
        EasingFunction::EaseOut,
        EasingFunction::EaseInOut,
        EasingFunction::EaseInCubic,
        EasingFunction::EaseOutCubic,
        EasingFunction::EaseInOutCubic,
    ];
    // progress 0 (viewport extent 0 makes the lower clamp 0)
    let zero = ScrollProgress::new(0, 1000, 0);
    assert!(frac_is(&zero.progress, 0, 1));
    // progress 1
    let one = ScrollProgress::new(800, 1000, 200);
    assert!(frac_is(&one.progress, 1, 1));
    for kind in kinds {
        let e0 = zero.eased(kind);
        assert!(frac_is(&e0, 0, 1));
        let e1 = one.eased(kind);
        assert!(frac_is(&e1, 1, 1));
    }
}

#[test]
fn eased_midpoint_values() {
    // progress 1/2
    let half = ScrollProgress::new(400, 1000, 200);
    assert!(frac_is(&half.progress, 1, 2));
    assert!(frac_is(&half.eased(EasingFunction::Linear), 1, 2));
    assert!(frac_is(&half.eased(EasingFunction::EaseIn), 1, 4));
    assert!(frac_is(&half.eased(EasingFunction::EaseOut), 3, 4));
    assert!(frac_is(&half.eased(EasingFunction::EaseInOut), 1, 2));
    assert!(frac_is(&half.eased(EasingFunction::EaseInCubic), 1, 8));
    assert!(frac_is(&half.eased(EasingFunction::EaseOutCubic), 7, 8));
    assert!(frac_is(&half.eased(EasingFunction::EaseInOutCubic), 1, 2));
    // progress 1/4: below the ease-in-out switch point
    let quarter = ScrollProgress::new(200, 1000, 200);
    assert!(frac_is(&quarter.progress, 1, 4));
    assert!(frac_is(&quarter.eased(EasingFunction::EaseInOut), 1, 8));
    assert!(frac_is(&quarter.eased(EasingFunction::EaseInOutCubic), 1, 16));
    // progress 3/4: above it
    let three_q = ScrollProgress::new(600, 1000, 200);
    assert!(frac_is(&three_q.progress, 3, 4));
    assert!(frac_is(&three_q.eased(EasingFunction::EaseInOut), 7, 8));
    assert!(frac_is(&three_q.eased(EasingFunction::EaseInOutCubic), 15, 16));
}

#[test]
fn in_range_boundaries_and_linearity() {
    let from = Frac::new(1, 10);
    let to = Frac::new(1, 2);
    // progress 0.05: at/below from reads exactly 0 (viewport 0 so low offsets exist)
    let p = ScrollProgress::new(100, 2000, 0);
    assert!(frac_is(&p.progress, 1, 20));
    assert!(frac_is(&p.in_range(from, to), 0, 1));
    // at from exactly
    let p = ScrollProgress::new(200, 2000, 0);
    assert!(frac_is(&p.in_range(from, to), 0, 1));
    // progress 0.3 maps linearly to (0.3 - 0.1) / 0.4 = 0.5
    let p = ScrollProgress::new(600, 2000, 0);
    assert!(frac_is(&p.progress, 3, 10));
    assert!(frac_is(&p.in_range(from, to), 1, 2));
    // progress 0.2 maps to 0.25
    let p = ScrollProgress::new(400, 2000, 0);
    assert!(frac_is(&p.in_range(from, to), 1, 4));
    // at/above to reads exactly 1
    let p = ScrollProgress::new(1000, 2000, 0);
    assert!(frac_is(&p.in_range(from, to), 1, 1));
    let p = ScrollProgress::new(1600, 2000, 0);
    assert!(frac_is(&p.in_range(from, to), 1, 1));
}

#[test]
fn is_in_range_is_inclusive() {
    let from = Frac::new(1, 10);
    let to = Frac::new(1, 2);
    let p = ScrollProgress::new(200, 2000, 0); // exactly 0.1
    assert!(p.is_in_range(from, to));
    let p = ScrollProgress::new(1000, 2000, 0); // exactly 0.5
    assert!(p.is_in_range(from, to));
    let p = ScrollProgress::new(199, 2000, 0);
    assert!(!p.is_in_range(from, to));
    let p = ScrollProgress::new(1001, 2000, 0);
    assert!(!p.is_in_range(from, to));
}
