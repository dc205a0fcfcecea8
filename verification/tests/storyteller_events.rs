use scroll_storyteller::frac::Frac;
use scroll_storyteller::storyteller::{ScrollStoryteller, ScrollStorytellerConfig};

fn frac_is(f: &Frac, n: i128, d: i128) -> bool {
    assert!(f.den >= 1);
    f.num * d == n * f.den
}

/// A config with the given throttle and debounce, everything else default.
fn config(throttle_ms: u32, resize_debounce_ms: u32, run_straight_away: bool) -> ScrollStorytellerConfig {
    ScrollStorytellerConfig {
        throttle_ms,
        smooth_scroll: true,
        offset_top: 0,
        offset_bottom: 0,
        run_straight_away,
        resize_debounce_ms,
    }
}

/// A tracker over content 1000 high in a 200 viewport (no correction: the
/// body height does not match the adjusted client height).
fn tracker(cfg: ScrollStorytellerConfig) -> ScrollStoryteller {
    ScrollStoryteller::new(0, 1000, 200, 999, 777, Some(cfg))
}

#[test]
fn default_config_values() {
    let c = ScrollStorytellerConfig::default();
    assert_eq!(c.throttle_ms, 8);
    assert!(c.smooth_scroll);
    assert_eq!(c.offset_top, 0);
    assert_eq!(c.offset_bottom, 0);
    assert!(!c.run_straight_away);
    assert_eq!(c.resize_debounce_ms, 250);
}

#[test]
fn scroll_throttle_drops_close_events() {
    let mut st = tracker(config(100, 250, false));
    let id = st.on_scroll();
    assert_eq!(id, 0);
    // first event: 1000 - 0 >= 100, accepted
    let d = st.handle_scroll(1000, 400);
    assert_eq!(d.len(), 1);
    assert_eq!(d[0].subscriber, 0);
    assert!(frac_is(&d[0].progress.progress, 1, 2));
    assert!(frac_is(&st.progress().progress, 1, 2));
    // 50ms later: dropped, nothing recomputed or dispatched
    let d = st.handle_scroll(1050, 800);
    assert_eq!(d.len(), 0);
    assert!(frac_is(&st.progress().progress, 1, 2));
    // exactly at the throttle window: accepted
    let d = st.handle_scroll(1100, 800);
    assert_eq!(d.len(), 1);
    assert!(frac_is(&st.progress().progress, 1, 1));
}

#[test]
fn resize_debounce_drops_close_events() {
    let mut st = tracker(config(0, 250, false));
    st.on_scroll();
    // 10ms after construction: dropped
    let d = st.handle_resize(10, 0, 1000, 400, 999, 777);
    assert_eq!(d.len(), 0);
    assert_eq!(st.progress().viewport_height, 200);
    // past the debounce window: accepted, all three quantities re-measured
    let d = st.handle_resize(300, 100, 1200, 400, 999, 777);
    assert_eq!(d.len(), 1);
    assert_eq!(st.progress().scroll_y, 100);
    assert_eq!(st.progress().scroll_height, 1200);
    assert_eq!(st.progress().viewport_height, 400);
    assert!(frac_is(&st.progress().progress, 1, 3)); // clamped up to 400/1200
}

#[test]
fn resize_whole_document_correction() {
    let mut st = tracker(config(0, 0, false));
    // adjusted client extent equals the body's: the window extent is used
    let d = st.handle_resize(300, 0, 1000, 500, 500, 333);
    assert_eq!(d.len(), 0); // no subscribers
    assert_eq!(st.progress().viewport_height, 333);
}

#[test]
fn construction_correction_and_pending_dispatch() {
    // client - offsets == body: window inner height substitutes
    let st = ScrollStoryteller::new(0, 1000, 500, 500, 333, Some(config(0, 0, false)));
    assert_eq!(st.progress().viewport_height, 333);
    // non-scrollable content leaves a pending initial dispatch even
    // without run_straight_away
    let mut st = ScrollStoryteller::new(0, 200, 200, 999, 777, Some(config(0, 0, false)));
    let id = st.on_scroll();
    let d = st.initial_dispatch();
    assert_eq!(d.len(), 1);
    assert_eq!(d[0].subscriber, id);
    assert!(frac_is(&d[0].progress.progress, 1, 1));
    // a second call is a no-op
    let d = st.initial_dispatch();
    assert_eq!(d.len(), 0);
    // scrollable content without run_straight_away leaves nothing pending
    let mut st = tracker(config(0, 0, false));
    st.on_scroll();
    let d = st.initial_dispatch();
    assert_eq!(d.len(), 0);
    // run_straight_away leaves the initial value pending, delivered to
    // subscribers registered after construction
    let mut st = tracker(config(0, 0, true));
    let id = st.on_scroll();
    let d = st.initial_dispatch();
    assert_eq!(d.len(), 1);
    assert_eq!(d[0].subscriber, id);
}

#[test]
fn enter_and_exit_fire_once_per_transition() {
    let mut st = tracker(config(0, 250, false));
    let (enter_id, immediate) = st.on_enter_range(Frac::new(3, 10), Frac::new(6, 10));
    assert!(immediate.is_none()); // run_straight_away off
    let exit_id = st.on_exit_range(Frac::new(3, 10), Frac::new(6, 10));
    let range_id = st.on_progress_range(Frac::new(3, 10), Frac::new(6, 10));
    // monotone sweep; progress: 0.2, 0.2, 0.4, 0.5, 0.7, 1.0
    let offsets = [0i64, 160, 320, 400, 560, 800];
    let mut enter_count = 0;
    let mut exit_count = 0;
    let mut range_values: Vec<Frac> = Vec::new();
    for (i, &y) in offsets.iter().enumerate() {
        let deliveries = st.handle_scroll((i as i64 + 1) * 10, y);
        for d in deliveries {
            if d.subscriber == enter_id {
                enter_count += 1;
                assert!(frac_is(&d.progress.progress, 2, 5)); // fires at 0.4
            } else if d.subscriber == exit_id {
                exit_count += 1;
                assert!(frac_is(&d.progress.progress, 7, 10)); // fires at 0.7
            } else if d.subscriber == range_id {
                range_values.push(d.range_value.expect("range delivery carries a value"));
            }
        }
    }
    assert_eq!(enter_count, 1);
    assert_eq!(exit_count, 1);
    // the range subscription fires on every in-range tick, not just entry
    assert_eq!(range_values.len(), 2);
    assert!(frac_is(&range_values[0], 1, 3)); // (0.4 - 0.3) / 0.3
    assert!(frac_is(&range_values[1], 2, 3)); // (0.5 - 0.3) / 0.3
}

#[test]
fn enter_range_first_evaluation_in_range_fires() {
    let mut st = tracker(config(0, 250, false));
    let (enter_id, _) = st.on_enter_range(Frac::new(1, 10), Frac::new(9, 10));
    // first ever evaluation already in range: fires once
    let d = st.handle_scroll(10, 400);
    assert_eq!(d.len(), 1);
    assert_eq!(d[0].subscriber, enter_id);
    // staying in range: no further fire
    let d = st.handle_scroll(20, 440);
    assert_eq!(d.len(), 0);
}

#[test]
fn exit_range_never_fires_on_first_out_of_range_evaluation() {
    let mut st = tracker(config(0, 250, false));
    st.on_exit_range(Frac::new(3, 10), Frac::new(6, 10));
    // first evaluation out of range seeds only
    let d = st.handle_scroll(10, 800);
    assert_eq!(d.len(), 0);
    // still out of range: nothing
    let d = st.handle_scroll(20, 700);
    assert_eq!(d.len(), 0);
}

#[test]
fn run_straight_away_seeds_enter_and_exit() {
    let mut st = tracker(config(0, 250, true));
    // current progress is the lower clamp 0.2
    let (_, immediate) = st.on_enter_range(Frac::new(1, 10), Frac::new(1, 2));
    let p = immediate.expect("already in range fires immediately");
    assert!(frac_is(&p.progress, 1, 5));
    // seeded as in-range: the next in-range event does not fire again
    let d = st.handle_scroll(10, 200); // 0.25, still in range
    assert_eq!(d.len(), 0);
    // exit seeded in-range without firing; leaving the range fires
    let mut st = tracker(config(0, 250, true));
    let exit_id = st.on_exit_range(Frac::new(1, 10), Frac::new(1, 2));
    let d = st.handle_scroll(10, 600); // 0.75, out of range
    assert_eq!(d.len(), 1);
    assert_eq!(d[0].subscriber, exit_id);
}

#[test]
fn deliveries_come_in_subscription_order() {
    let mut st = tracker(config(0, 250, false));
    let a = st.on_scroll();
    let b = st.on_progress_range(Frac::new(0, 1), Frac::new(1, 1));
    let c = st.on_scroll();
    let d = st.handle_scroll(10, 400);
    assert_eq!(d.len(), 3);
    assert_eq!(d[0].subscriber, a);
    assert_eq!(d[1].subscriber, b);
    assert_eq!(d[2].subscriber, c);
    // every callback of one event observes the same progress value
    assert!(frac_is(&d[0].progress.progress, 1, 2));
    assert!(frac_is(&d[1].progress.progress, 1, 2));
    assert!(frac_is(&d[2].progress.progress, 1, 2));
}

#[test]
fn scroll_to_progress_commands_half_of_max_scroll() {
    let st = tracker(config(0, 250, false));
    let cmd = st.scroll_to_progress(Frac::new(1, 2));
    // 0.5 * 800 - 0 = 400
    assert!(frac_is(&cmd.top, 400, 1));
    assert!(cmd.smooth);
    // clamped below and above
    let cmd = st.scroll_to_progress(Frac::new(-3, 2));
    assert!(frac_is(&cmd.top, 0, 1));
    let cmd = st.scroll_to_progress(Frac::new(7, 2));
    assert!(frac_is(&cmd.top, 800, 1));
}

#[test]
fn scroll_to_progress_subtracts_offset_top() {
    let mut cfg = config(0, 250, false);
    cfg.offset_top = 50;
    cfg.smooth_scroll = false;
    let st = ScrollStoryteller::new(0, 1000, 300, 999, 777, Some(cfg));
    // viewport = 300 - 50 = 250, max_scroll = 750; 0.5 * 750 - 50 = 325
    let cmd = st.scroll_to_progress(Frac::new(1, 2));
    assert!(frac_is(&cmd.top, 325, 1));
    assert!(!cmd.smooth);
}

#[test]
fn scroll_to_pixels_is_raw() {
    let st = tracker(config(0, 250, false));
    let cmd = st.scroll_to_pixels(12345);
    assert!(frac_is(&cmd.top, 12345, 1));
    assert!(cmd.smooth);
    let cmd = st.scroll_to_pixels(-40);
    assert!(frac_is(&cmd.top, -40, 1));
}

#[test]
fn scroll_applies_offset_top_to_measurement() {
    let mut cfg = config(0, 250, false);
    cfg.offset_top = 100;
    let mut st = ScrollStoryteller::new(0, 1000, 300, 999, 777, Some(cfg));
    st.on_scroll();
    let d = st.handle_scroll(10, 275);
    // scroll_y = 275 + 100 = 375; viewport = 200; max_scroll = 800
    assert_eq!(d[0].progress.scroll_y, 375);
    assert_eq!(st.progress().viewport_height, 200);
}

#[test]
fn progress_range_scenario_low_value_not_delivered() {
    // viewport extent 0 makes the whole [0, 1] range reachable
    let mut st = ScrollStoryteller::new(0, 2000, 0, 999, 777, Some(config(0, 250, false)));
    let id = st.on_progress_range(Frac::new(1, 10), Frac::new(1, 2));
    // progress 0.05: not in range, callback not invoked
    let d = st.handle_scroll(10, 100);
    assert_eq!(d.len(), 0);
    // progress 0.3: invoked with range-local progress 0.5
    let d = st.handle_scroll(20, 600);
    assert_eq!(d.len(), 1);
    assert_eq!(d[0].subscriber, id);
    assert!(frac_is(&d[0].progress.progress, 3, 10));
    assert!(frac_is(&d[0].range_value.expect("in range"), 1, 2));
}
