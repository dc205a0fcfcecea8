//! The scroll progress tracker.
//!
//! A [`ScrollStoryteller`] owns the engine's whole state: the configuration,
//! the last computed [`ScrollProgress`], the rate-limiter clocks and the
//! ordered subscriber list. The host glue outside this crate owns the
//! actual listeners, clock and callbacks; it feeds every native event into
//! [`ScrollStoryteller::handle_scroll`] or
//! [`ScrollStoryteller::handle_resize`] as plain values and receives back
//! the exact list of [`Delivery`] records to hand to the callbacks, in
//! subscription order. Programmatic scrolling likewise returns a
//! [`ScrollCommand`] for the host to execute.
//!
//! Each range subscription carries its own tri-state "was previously in
//! range" memory, so entry and exit triggers fire exactly once per
//! transition.

use vstd::prelude::*;

use crate::frac::{lemma_mul_bound, ratio_le, ratio_lt, Frac, FRAC_BOUND};
use crate::progress::{coord_ok, extents_valid, in_range_ratio, ScrollProgress};

verus! {

/// Bound on every raw measurement handed in by the host (scroll positions
/// and element extents are 32-bit quantities in any real viewport).
pub const MEASURE_BOUND: i64 = 0x8000_0000;

/// Bound on clock readings, in milliseconds. Any monotonic clock fits.
pub const TIME_BOUND: i64 = 0x4000_0000_0000_0000;

/// `x` is an acceptable raw measurement.
pub open spec fn measure_ok(x: int) -> bool {
    -MEASURE_BOUND <= x <= MEASURE_BOUND
}

/// Tracker configuration; one immutable instance per tracker.
#[derive(Clone, Copy, Debug, PartialEq, Eq, Structural)]
pub struct ScrollStorytellerConfig {
    /// Minimum time between processed scroll events, in milliseconds.
    pub throttle_ms: u32,
    /// Whether programmatic scrolls animate.
    pub smooth_scroll: bool,
    /// Pixels excluded from the top of the measured viewport.
    pub offset_top: i64,
    /// Pixels excluded from the bottom of the measured viewport.
    pub offset_bottom: i64,
    /// Whether subscribers receive an immediate synthetic event.
    pub run_straight_away: bool,
    /// Minimum time between processed resize events, in milliseconds.
    pub resize_debounce_ms: u32,
}

/// The configuration a tracker falls back to when none is given.
pub open spec fn default_config() -> ScrollStorytellerConfig {
    ScrollStorytellerConfig {
        throttle_ms: 8,
        smooth_scroll: true,
        offset_top: 0,
        offset_bottom: 0,
        run_straight_away: false,
        resize_debounce_ms: 250,
    }
}

impl Default for ScrollStorytellerConfig {
    fn default() -> (r: Self)
        ensures
            r == default_config(),
    {
        ScrollStorytellerConfig {
            throttle_ms: 8,
            smooth_scroll: true,
            offset_top: 0,
            offset_bottom: 0,
            run_straight_away: false,
            resize_debounce_ms: 250,
        }
    }
}

/// The configuration a tracker is built with: the given one, or the
/// default.
pub open spec fn config_or_default(config: Option<ScrollStorytellerConfig>) -> ScrollStorytellerConfig {
    match config {
        Some(c) => c,
        None => default_config(),
    }
}

/// The configured offsets are ordinary measurements.
pub open spec fn config_wf(c: ScrollStorytellerConfig) -> bool {
    &&& measure_ok(c.offset_top as int)
    &&& measure_ok(c.offset_bottom as int)
}

/// The viewport extent used by a remeasurement: the client extent less the
/// configured offsets — except that a container whose adjusted extent
/// matches the document body's is taken to span the whole document, and the
/// window's own extent is used instead.
pub open spec fn corrected_viewport(
    client_height: int,
    offset_top: int,
    offset_bottom: int,
    body_client_height: int,
    window_inner_height: int,
) -> int {
    let v = client_height - offset_top - offset_bottom;
    if v == body_client_height {
        window_inner_height
    } else {
        v
    }
}

/// Per-subscription memory for entry/exit triggers: whether the previous
/// evaluation found the progress inside the range.
#[derive(Clone, Copy, Debug, PartialEq, Eq, Structural)]
pub enum RangeState {
    Unknown,
    WasOut,
    WasIn,
}

/// One subscriber, in insertion order. The callback itself lives with the
/// host; the engine only decides when it is invoked and with what values.
#[derive(Clone, Copy, Debug, PartialEq, Eq, Structural)]
pub enum Subscription {
    /// Invoked on every accepted event.
    Plain,
    /// Invoked, with the range-local progress, on every accepted event
    /// whose progress lies inside `[from, to]`.
    ProgressRange { from: Frac, to: Frac },
    /// Invoked exactly on the transition into `[from, to]`.
    EnterRange { from: Frac, to: Frac, state: RangeState },
    /// Invoked exactly on the transition out of `[from, to]`.
    ExitRange { from: Frac, to: Frac, state: RangeState },
}

/// A well-formed range: both ends well-formed, bounded, and `from` strictly
/// below `to`.
pub open spec fn range_wf(from: Frac, to: Frac) -> bool {
    &&& from.wf()
    &&& to.wf()
    &&& from.bounded(FRAC_BOUND as int)
    &&& to.bounded(FRAC_BOUND as int)
    &&& ratio_lt(from.pair(), to.pair())
}

/// Every range carried by the subscription is well-formed.
pub open spec fn subscription_wf(k: Subscription) -> bool {
    match k {
        Subscription::Plain => true,
        Subscription::ProgressRange { from, to } => range_wf(from, to),
        Subscription::EnterRange { from, to, state } => range_wf(from, to),
        Subscription::ExitRange { from, to, state } => range_wf(from, to),
    }
}

/// Inclusive membership of the progress value in `[from, to]`.
pub open spec fn in_range_now(p: ScrollProgress, from: Frac, to: Frac) -> bool {
    &&& ratio_le(from.pair(), p.progress.pair())
    &&& ratio_le(p.progress.pair(), to.pair())
}

/// Whether a delivery of progress `p` invokes this subscription's callback.
pub open spec fn fires(k: Subscription, p: ScrollProgress) -> bool {
    match k {
        Subscription::Plain => true,
        Subscription::ProgressRange { from, to } => in_range_now(p, from, to),
        Subscription::EnterRange { from, to, state } => in_range_now(p, from, to) && state
            != RangeState::WasIn,
        Subscription::ExitRange { from, to, state } => !in_range_now(p, from, to) && state
            == RangeState::WasIn,
    }
}

/// The subscription's memory after it has seen a delivery of progress `p`.
pub open spec fn step(k: Subscription, p: ScrollProgress) -> Subscription {
    match k {
        Subscription::Plain => k,
        Subscription::ProgressRange { from, to } => k,
        Subscription::EnterRange { from, to, state } => Subscription::EnterRange {
            from,
            to,
            state: if in_range_now(p, from, to) {
                RangeState::WasIn
            } else {
                RangeState::WasOut
            },
        },
        Subscription::ExitRange { from, to, state } => Subscription::ExitRange {
            from,
            to,
            state: if in_range_now(p, from, to) {
                RangeState::WasIn
            } else {
                RangeState::WasOut
            },
        },
    }
}

/// The whole subscriber list after one delivery of progress `p`.
pub open spec fn step_all(subs: Seq<Subscription>, p: ScrollProgress) -> Seq<Subscription> {
    Seq::new(subs.len(), |i: int| step(subs[i], p))
}

/// The range-local progress value a [`Subscription::ProgressRange`]
/// callback receives.
pub open spec fn range_frac(p: ScrollProgress, from: Frac, to: Frac) -> Frac {
    Frac {
        num: in_range_ratio(p.progress.pair(), from.pair(), to.pair()).0 as i128,
        den: in_range_ratio(p.progress.pair(), from.pair(), to.pair()).1 as i128,
    }
}

/// The extra value a firing subscription hands to its callback.
pub open spec fn delivery_value(k: Subscription, p: ScrollProgress) -> Option<Frac> {
    match k {
        Subscription::ProgressRange { from, to } => Some(range_frac(p, from, to)),
        _ => None,
    }
}

/// One callback invocation owed to the host: which subscriber, with which
/// progress value, and (for range-progress subscriptions) the range-local
/// progress.
#[derive(Clone, Copy, Debug)]
pub struct Delivery {
    /// The subscriber's identifier, as returned at subscription time.
    pub subscriber: usize,
    /// The progress value every callback of this event observes.
    pub progress: ScrollProgress,
    /// The range-local progress, for range-progress subscriptions.
    pub range_value: Option<Frac>,
}

/// The delivery owed to subscriber number `base + i` for the `i`-th
/// subscription of `subs`, if it fires.
pub open spec fn mk_delivery(base: int, k: Subscription, p: ScrollProgress) -> Delivery {
    Delivery { subscriber: base as usize, progress: p, range_value: delivery_value(k, p) }
}

/// The deliveries of one accepted event: every firing subscription, in
/// subscription order, each observing the same progress value.
pub open spec fn dispatch_deliveries(subs: Seq<Subscription>, p: ScrollProgress, base: int) -> Seq<
    Delivery,
>
    decreases subs.len(),
{
    if subs.len() == 0 {
        Seq::empty()
    } else {
        let head: Seq<Delivery> = if fires(subs[0], p) {
            seq![mk_delivery(base, subs[0], p)]
        } else {
            Seq::empty()
        };
        head + dispatch_deliveries(subs.subrange(1, subs.len() as int), p, base + 1)
    }
}

proof fn lemma_dispatch_snoc(subs: Seq<Subscription>, k: Subscription, p: ScrollProgress, base: int)
    ensures
        dispatch_deliveries(subs.push(k), p, base) == dispatch_deliveries(subs, p, base) + (
        if fires(k, p) {
            seq![mk_delivery(base + subs.len(), k, p)]
        } else {
            Seq::<Delivery>::empty()
        }),
    decreases subs.len(),
{
    let tail: Seq<Delivery> = if fires(k, p) {
        seq![mk_delivery(base + subs.len(), k, p)]
    } else {
        Seq::empty()
    };
    if subs.len() == 0 {
        let pushed = subs.push(k);
        assert(pushed[0] == k);
        assert(pushed.subrange(1, 1) =~= Seq::<Subscription>::empty());
        assert(dispatch_deliveries(Seq::<Subscription>::empty(), p, base + 1)
            == Seq::<Delivery>::empty());
        assert(dispatch_deliveries(pushed, p, base) == tail + Seq::<Delivery>::empty());
        assert(subs =~= Seq::<Subscription>::empty());
        assert(dispatch_deliveries(subs, p, base) == Seq::<Delivery>::empty());
        assert(tail + Seq::<Delivery>::empty() =~= Seq::<Delivery>::empty() + tail);
    } else {
        let pushed = subs.push(k);
        let rest = subs.subrange(1, subs.len() as int);
        let head: Seq<Delivery> = if fires(subs[0], p) {
            seq![mk_delivery(base, subs[0], p)]
        } else {
            Seq::empty()
        };
        assert(pushed[0] == subs[0]);
        assert(pushed.subrange(1, pushed.len() as int) =~= rest.push(k));
        assert(dispatch_deliveries(pushed, p, base) == head + dispatch_deliveries(
            rest.push(k),
            p,
            base + 1,
        ));
        lemma_dispatch_snoc(rest, k, p, base + 1);
        assert(rest.len() == subs.len() - 1);
        assert(dispatch_deliveries(rest.push(k), p, base + 1) == dispatch_deliveries(
            rest,
            p,
            base + 1,
        ) + tail);
        assert(dispatch_deliveries(subs, p, base) == head + dispatch_deliveries(rest, p, base + 1));
        assert(head + (dispatch_deliveries(rest, p, base + 1) + tail) =~= (head
            + dispatch_deliveries(rest, p, base + 1)) + tail);
    }
}

/// Run one delivery over the subscriber list: collect the firing
/// subscribers' deliveries in order and advance every subscription's
/// memory.
fn dispatch_event(subs: &mut Vec<Subscription>, p: ScrollProgress) -> (r: Vec<Delivery>)
    requires
        forall|i: int|
            0 <= i < old(subs)@.len() ==> subscription_wf(#[trigger] old(subs)@[i]),
        p.wf(),
    ensures
        final(subs)@ == step_all(old(subs)@, p),
        r@ == dispatch_deliveries(old(subs)@, p, 0),
        forall|i: int| 0 <= i < final(subs)@.len() ==> subscription_wf(#[trigger] final(subs)@[i]),
{
    let ghost orig = subs@;
    let mut out: Vec<Delivery> = Vec::new();
    let mut stepped: Vec<Subscription> = Vec::new();
    let n = subs.len();
    let mut i: usize = 0;
    while i < n
        invariant
            subs@ == orig,
            n == orig.len(),
            0 <= i <= n,
            p.wf(),
            forall|j: int| 0 <= j < orig.len() ==> subscription_wf(#[trigger] orig[j]),
            out@ == dispatch_deliveries(orig.subrange(0, i as int), p, 0),
            stepped@ =~= step_all(orig.subrange(0, i as int), p),
        decreases n - i,
    {
        let k = subs[i];
        match k {
            Subscription::Plain => {
                out.push(Delivery { subscriber: i, progress: p, range_value: None });
                stepped.push(k);
            },
            Subscription::ProgressRange { from, to } => {
                if p.is_in_range(from, to) {
                    let v = p.in_range(from, to);
                    out.push(Delivery { subscriber: i, progress: p, range_value: Some(v) });
                }
                stepped.push(k);
            },
            Subscription::EnterRange { from, to, state } => {
                let now_in = p.is_in_range(from, to);
                if now_in && state != RangeState::WasIn {
                    out.push(Delivery { subscriber: i, progress: p, range_value: None });
                }
                stepped.push(
                    Subscription::EnterRange {
                        from,
                        to,
                        state: if now_in {
                            RangeState::WasIn
                        } else {
                            RangeState::WasOut
                        },
                    },
                );
            },
            Subscription::ExitRange { from, to, state } => {
                let now_in = p.is_in_range(from, to);
                if !now_in && state == RangeState::WasIn {
                    out.push(Delivery { subscriber: i, progress: p, range_value: None });
                }
                stepped.push(
                    Subscription::ExitRange {
                        from,
                        to,
                        state: if now_in {
                            RangeState::WasIn
                        } else {
                            RangeState::WasOut
                        },
                    },
                );
            },
        }
        proof {
            lemma_dispatch_snoc(orig.subrange(0, i as int), orig[i as int], p, 0);
            assert(orig.subrange(0, i + 1 as int) =~= orig.subrange(0, i as int).push(
                orig[i as int],
            ));
            assert(stepped@ =~= step_all(orig.subrange(0, i + 1 as int), p));
        }
        i += 1;
    }
    proof {
        assert(orig.subrange(0, n as int) =~= orig);
    }
    *subs = stepped;
    out
}

/// A scroll command for the host: the absolute target offset (an exact
/// fraction of a pixel) and whether the move animates.
#[derive(Clone, Copy, Debug)]
pub struct ScrollCommand {
    /// The absolute offset to scroll to.
    pub top: Frac,
    /// Whether the host should animate the move.
    pub smooth: bool,
}

/// The clamp of a fraction to `[0, 1]`.
pub open spec fn clamp01_ratio(p: (int, int)) -> (int, int) {
    if ratio_le(p, (0int, 1int)) {
        (0int, 1int)
    } else if ratio_le((1int, 1int), p) {
        (1int, 1int)
    } else {
        p
    }
}

/// The target offset of a programmatic scroll to progress `p`:
/// `clamp(p, 0, 1) * max(scroll_height - viewport_height, 0) - offset_top`.
pub open spec fn scroll_target_ratio(
    p: (int, int),
    scroll_height: int,
    viewport_height: int,
    offset_top: int,
) -> (int, int) {
    let max_scroll = if scroll_height - viewport_height > 0 {
        scroll_height - viewport_height
    } else {
        0
    };
    let cp = clamp01_ratio(p);
    (cp.0 * max_scroll - offset_top * cp.1, cp.1)
}

/// The scroll progress tracker: one container, one configuration, one
/// ordered subscriber list.
pub struct ScrollStoryteller {
    /// The immutable configuration.
    pub config: ScrollStorytellerConfig,
    /// The current progress, shared by both event channels.
    pub last_progress: ScrollProgress,
    /// Clock reading of the last accepted scroll event.
    pub last_scroll_time: i64,
    /// Clock reading of the last accepted resize event.
    pub last_resize_time: i64,
    /// Subscribers, in subscription order.
    pub subscriptions: Vec<Subscription>,
    /// The synthetic delivery owed on the next paint opportunity, if any.
    pub pending_initial: Option<ScrollProgress>,
}

/// Whether a scroll event at clock time `now` survives the throttle.
pub open spec fn scroll_accepted(s: ScrollStoryteller, now: int) -> bool {
    now - s.last_scroll_time >= s.config.throttle_ms
}

/// Whether a resize event at clock time `now` survives the debounce.
pub open spec fn resize_accepted(s: ScrollStoryteller, now: int) -> bool {
    now - s.last_resize_time >= s.config.resize_debounce_ms
}

impl ScrollStoryteller {
    /// The tracker's invariant: configuration and progress well-formed,
    /// clocks non-negative, every subscription's range well-formed.
    pub open spec fn wf(self) -> bool {
        &&& config_wf(self.config)
        &&& self.last_progress.wf()
        &&& 0 <= self.last_scroll_time
        &&& 0 <= self.last_resize_time
        &&& forall|i: int|
            0 <= i < self.subscriptions@.len() ==> subscription_wf(#[trigger] self.subscriptions@[i])
        &&& (self.pending_initial matches Some(p) ==> p.wf())
    }

    /// Build a tracker from the container's state at construction time.
    /// The initial progress is computed once and stored without invoking
    /// anybody; if `run_straight_away` is set or the content is not
    /// scrollable, one synthetic delivery of that value is left pending for
    /// the host's next paint opportunity.
    pub fn new(
        scroll_top: i64,
        scroll_height: i64,
        client_height: i64,
        body_client_height: i64,
        window_inner_height: i64,
        config: Option<ScrollStorytellerConfig>,
    ) -> (r: ScrollStoryteller)
        requires
            measure_ok(scroll_top as int),
            measure_ok(scroll_height as int),
            measure_ok(client_height as int),
            measure_ok(body_client_height as int),
            measure_ok(window_inner_height as int),
            (config matches Some(c) ==> config_wf(c)),
            ({
                let c = config_or_default(config);
                extents_valid(
                    scroll_height as int,
                    corrected_viewport(
                        client_height as int,
                        c.offset_top as int,
                        c.offset_bottom as int,
                        body_client_height as int,
                        window_inner_height as int,
                    ),
                )
            }),
        ensures
            r.wf(),
            r.config == config_or_default(config),
            r.last_scroll_time == 0,
            r.last_resize_time == 0,
            r.subscriptions@.len() == 0,
            r.last_progress.scroll_y == scroll_top + r.config.offset_top,
            r.last_progress.scroll_height == scroll_height,
            r.last_progress.viewport_height == corrected_viewport(
                client_height as int,
                r.config.offset_top as int,
                r.config.offset_bottom as int,
                body_client_height as int,
                window_inner_height as int,
            ),
            r.pending_initial == (if r.config.run_straight_away || scroll_height
                <= r.last_progress.viewport_height {
                Some(r.last_progress)
            } else {
                None::<ScrollProgress>
            }),
    {
        let config = match config {
            Some(c) => c,
            None => ScrollStorytellerConfig::default(),
        };
        let scroll_y = scroll_top + config.offset_top;
        let mut viewport_height = client_height - config.offset_top - config.offset_bottom;
        if viewport_height == body_client_height {
            viewport_height = window_inner_height;
        }
        let initial = ScrollProgress::new(scroll_y, scroll_height, viewport_height);
        let pending = if config.run_straight_away || scroll_height <= viewport_height {
            Some(initial)
        } else {
            None
        };
        ScrollStoryteller {
            config,
            last_progress: initial,
            last_scroll_time: 0,
            last_resize_time: 0,
            subscriptions: Vec::new(),
            pending_initial: pending,
        }
    }

    /// One native scroll notification at clock time `now`, with the
    /// container's current scroll position. Rejected (a no-op) within
    /// `throttle_ms` of the last accepted scroll event; otherwise the
    /// scroll position is re-read, progress recomputed against the stored
    /// extents, and every firing subscriber receives the new value, in
    /// subscription order.
    pub fn handle_scroll(&mut self, now: i64, scroll_top: i64) -> (r: Vec<Delivery>)
        requires
            old(self).wf(),
            0 <= now <= TIME_BOUND,
            measure_ok(scroll_top as int),
        ensures
            final(self).wf(),
            !scroll_accepted(*old(self), now as int) ==> (*final(self) == *old(self) && r@
                == Seq::<Delivery>::empty()),
            scroll_accepted(*old(self), now as int) ==> ({
                &&& final(self).config == old(self).config
                &&& final(self).pending_initial == old(self).pending_initial
                &&& final(self).last_resize_time == old(self).last_resize_time
                &&& final(self).last_scroll_time == now
                &&& final(self).last_progress.scroll_y == scroll_top + old(self).config.offset_top
                &&& final(self).last_progress.scroll_height
                    == old(self).last_progress.scroll_height
                &&& final(self).last_progress.viewport_height
                    == old(self).last_progress.viewport_height
                &&& final(self).subscriptions@ == step_all(
                    old(self).subscriptions@,
                    final(self).last_progress,
                )
                &&& r@ == dispatch_deliveries(
                    old(self).subscriptions@,
                    final(self).last_progress,
                    0,
                )
            }),
    {
        if now - self.last_scroll_time < self.config.throttle_ms as i64 {
            return Vec::new();
        }
        self.last_scroll_time = now;
        self.last_progress.scroll_y = scroll_top + self.config.offset_top;
        self.last_progress.calculate_progress();
        dispatch_event(&mut self.subscriptions, self.last_progress)
    }

    /// One native resize notification at clock time `now`, with all of the
    /// container's current measurements. Rejected within
    /// `resize_debounce_ms` of the last accepted resize event; otherwise
    /// all three quantities are re-measured (re-deriving the viewport
    /// extent with the same correction used at construction), progress
    /// recomputed, and every firing subscriber invoked.
    pub fn handle_resize(
        &mut self,
        now: i64,
        scroll_top: i64,
        scroll_height: i64,
        client_height: i64,
        body_client_height: i64,
        window_inner_height: i64,
    ) -> (r: Vec<Delivery>)
        requires
            old(self).wf(),
            0 <= now <= TIME_BOUND,
            measure_ok(scroll_top as int),
            measure_ok(scroll_height as int),
            measure_ok(client_height as int),
            measure_ok(body_client_height as int),
            measure_ok(window_inner_height as int),
            extents_valid(
                scroll_height as int,
                corrected_viewport(
                    client_height as int,
                    old(self).config.offset_top as int,
                    old(self).config.offset_bottom as int,
                    body_client_height as int,
                    window_inner_height as int,
                ),
            ),
        ensures
            final(self).wf(),
            !resize_accepted(*old(self), now as int) ==> (*final(self) == *old(self) && r@
                == Seq::<Delivery>::empty()),
            resize_accepted(*old(self), now as int) ==> ({
                &&& final(self).config == old(self).config
                &&& final(self).pending_initial == old(self).pending_initial
                &&& final(self).last_scroll_time == old(self).last_scroll_time
                &&& final(self).last_resize_time == now
                &&& final(self).last_progress.scroll_y == scroll_top + old(self).config.offset_top
                &&& final(self).last_progress.scroll_height == scroll_height
                &&& final(self).last_progress.viewport_height == corrected_viewport(
                    client_height as int,
                    old(self).config.offset_top as int,
                    old(self).config.offset_bottom as int,
                    body_client_height as int,
                    window_inner_height as int,
                )
                &&& final(self).subscriptions@ == step_all(
                    old(self).subscriptions@,
                    final(self).last_progress,
                )
                &&& r@ == dispatch_deliveries(
                    old(self).subscriptions@,
                    final(self).last_progress,
                    0,
                )
            }),
    {
        if now - self.last_resize_time < self.config.resize_debounce_ms as i64 {
            return Vec::new();
        }
        self.last_resize_time = now;
        let scroll_y = scroll_top + self.config.offset_top;
        let mut viewport_height = client_height - self.config.offset_top
            - self.config.offset_bottom;
        if viewport_height == body_client_height {
            viewport_height = window_inner_height;
        }
        self.last_progress = ScrollProgress::new(scroll_y, scroll_height, viewport_height);
        dispatch_event(&mut self.subscriptions, self.last_progress)
    }

    /// The deferred construction-time dispatch: deliver the pending initial
    /// progress value to every current subscriber. The host calls this on
    /// the next paint opportunity after construction; it does not touch the
    /// stored progress or the rate-limiter clocks.
    pub fn initial_dispatch(&mut self) -> (r: Vec<Delivery>)
        requires
            old(self).wf(),
        ensures
            final(self).wf(),
            old(self).pending_initial is None ==> (*final(self) == *old(self) && r@
                == Seq::<Delivery>::empty()),
            (old(self).pending_initial matches Some(p) ==> {
                &&& final(self).config == old(self).config
                &&& final(self).last_progress == old(self).last_progress
                &&& final(self).last_scroll_time == old(self).last_scroll_time
                &&& final(self).last_resize_time == old(self).last_resize_time
                &&& final(self).pending_initial is None
                &&& final(self).subscriptions@ == step_all(old(self).subscriptions@, p)
                &&& r@ == dispatch_deliveries(old(self).subscriptions@, p, 0)
            }),
    {
        match self.pending_initial {
            None => Vec::new(),
            Some(p) => {
                self.pending_initial = None;
                dispatch_event(&mut self.subscriptions, p)
            },
        }
    }

    /// Append a plain subscriber; returns its identifier. Safe to call both
    /// before and after the tracker begins receiving events.
    pub fn on_scroll(&mut self) -> (id: usize)
        requires
            old(self).wf(),
        ensures
            final(self).wf(),
            final(self).subscriptions@ == old(self).subscriptions@.push(Subscription::Plain),
            id == old(self).subscriptions@.len(),
            final(self).config == old(self).config,
            final(self).last_progress == old(self).last_progress,
            final(self).last_scroll_time == old(self).last_scroll_time,
            final(self).last_resize_time == old(self).last_resize_time,
            final(self).pending_initial == old(self).pending_initial,
    {
        let id = self.subscriptions.len();
        self.subscriptions.push(Subscription::Plain);
        id
    }

    /// Append a range-progress subscriber: its callback runs on every
    /// accepted event whose progress lies inside `[from, to]`, with the
    /// range-local progress. `from < to` is a caller invariant.
    pub fn on_progress_range(&mut self, from: Frac, to: Frac) -> (id: usize)
        requires
            old(self).wf(),
            range_wf(from, to),
        ensures
            final(self).wf(),
            final(self).subscriptions@ == old(self).subscriptions@.push(
                Subscription::ProgressRange { from, to },
            ),
            id == old(self).subscriptions@.len(),
            final(self).config == old(self).config,
            final(self).last_progress == old(self).last_progress,
            final(self).last_scroll_time == old(self).last_scroll_time,
            final(self).last_resize_time == old(self).last_resize_time,
            final(self).pending_initial == old(self).pending_initial,
    {
        let id = self.subscriptions.len();
        self.subscriptions.push(Subscription::ProgressRange { from, to });
        id
    }

    /// Append an entry trigger for `[from, to]`. If `run_straight_away` is
    /// configured, the current stored progress is evaluated immediately:
    /// the returned value carries it when it already lies in range (the
    /// host invokes the callback once with it), and the tri-state is seeded
    /// either way.
    pub fn on_enter_range(&mut self, from: Frac, to: Frac) -> (r: (usize, Option<ScrollProgress>))
        requires
            old(self).wf(),
            range_wf(from, to),
        ensures
            final(self).wf(),
            r.0 == old(self).subscriptions@.len(),
            ({
                let seeded_in = in_range_now(old(self).last_progress, from, to);
                if old(self).config.run_straight_away {
                    &&& final(self).subscriptions@ == old(self).subscriptions@.push(
                        Subscription::EnterRange {
                            from,
                            to,
                            state: if seeded_in {
                                RangeState::WasIn
                            } else {
                                RangeState::WasOut
                            },
                        },
                    )
                    &&& r.1 == (if seeded_in {
                        Some(old(self).last_progress)
                    } else {
                        None::<ScrollProgress>
                    })
                } else {
                    &&& final(self).subscriptions@ == old(self).subscriptions@.push(
                        Subscription::EnterRange { from, to, state: RangeState::Unknown },
                    )
                    &&& r.1 is None
                }
            }),
            final(self).config == old(self).config,
            final(self).last_progress == old(self).last_progress,
            final(self).last_scroll_time == old(self).last_scroll_time,
            final(self).last_resize_time == old(self).last_resize_time,
            final(self).pending_initial == old(self).pending_initial,
    {
        let id = self.subscriptions.len();
        if self.config.run_straight_away {
            let currently_in = self.last_progress.is_in_range(from, to);
            self.subscriptions.push(
                Subscription::EnterRange {
                    from,
                    to,
                    state: if currently_in {
                        RangeState::WasIn
                    } else {
                        RangeState::WasOut
                    },
                },
            );
            if currently_in {
                (id, Some(self.last_progress))
            } else {
                (id, None)
            }
        } else {
            self.subscriptions.push(
                Subscription::EnterRange { from, to, state: RangeState::Unknown },
            );
            (id, None)
        }
    }

    /// Append an exit trigger for `[from, to]`. If `run_straight_away` is
    /// configured, the tri-state is seeded from the current stored progress
    /// without firing — construction is not an exit event.
    pub fn on_exit_range(&mut self, from: Frac, to: Frac) -> (id: usize)
        requires
            old(self).wf(),
            range_wf(from, to),
        ensures
            final(self).wf(),
            id == old(self).subscriptions@.len(),
            ({
                let seeded_in = in_range_now(old(self).last_progress, from, to);
                if old(self).config.run_straight_away {
                    final(self).subscriptions@ == old(self).subscriptions@.push(
                        Subscription::ExitRange {
                            from,
                            to,
                            state: if seeded_in {
                                RangeState::WasIn
                            } else {
                                RangeState::WasOut
                            },
                        },
                    )
                } else {
                    final(self).subscriptions@ == old(self).subscriptions@.push(
                        Subscription::ExitRange { from, to, state: RangeState::Unknown },
                    )
                }
            }),
            final(self).config == old(self).config,
            final(self).last_progress == old(self).last_progress,
            final(self).last_scroll_time == old(self).last_scroll_time,
            final(self).last_resize_time == old(self).last_resize_time,
            final(self).pending_initial == old(self).pending_initial,
    {
        let id = self.subscriptions.len();
        if self.config.run_straight_away {
            let currently_in = self.last_progress.is_in_range(from, to);
            self.subscriptions.push(
                Subscription::ExitRange {
                    from,
                    to,
                    state: if currently_in {
                        RangeState::WasIn
                    } else {
                        RangeState::WasOut
                    },
                },
            );
        } else {
            self.subscriptions.push(
                Subscription::ExitRange { from, to, state: RangeState::Unknown },
            );
        }
        id
    }

    /// The current stored progress.
    pub fn progress(&self) -> (r: ScrollProgress)
        ensures
            r == self.last_progress,
    {
        self.last_progress
    }

    /// The command for a programmatic scroll to progress `p`: the target
    /// offset is `clamp(p, 0, 1) * max_scroll - offset_top` over the most
    /// recently recorded extents. The stored progress is not touched —
    /// the resulting native scroll event comes back through the scroll
    /// channel, subject to its own throttle.
    pub fn scroll_to_progress(&self, progress: Frac) -> (r: ScrollCommand)
        requires
            self.wf(),
            progress.wf(),
            progress.bounded(FRAC_BOUND as int),
        ensures
            r.top.pair() == scroll_target_ratio(
                progress.pair(),
                self.last_progress.scroll_height as int,
                self.last_progress.viewport_height as int,
                self.config.offset_top as int,
            ),
            r.top.wf(),
            r.smooth == self.config.smooth_scroll,
    {
        let zero = Frac { num: 0, den: 1 };
        let one = Frac { num: 1, den: 1 };
        let clamped = if progress.le(&zero) {
            zero
        } else if one.le(&progress) {
            one
        } else {
            progress
        };
        let max_scroll: i64 = if self.last_progress.scroll_height
            - self.last_progress.viewport_height > 0 {
            self.last_progress.scroll_height - self.last_progress.viewport_height
        } else {
            0
        };
        proof {
            lemma_mul_bound(
                clamped.num as int,
                max_scroll as int,
                FRAC_BOUND as int,
                2 * crate::progress::COORD_BOUND as int,
            );
            lemma_mul_bound(
                self.config.offset_top as int,
                clamped.den as int,
                MEASURE_BOUND as int,
                FRAC_BOUND as int,
            );
        }
        ScrollCommand {
            top: Frac {
                num: clamped.num * (max_scroll as i128) - (self.config.offset_top as i128)
                    * clamped.den,
                den: clamped.den,
            },
            smooth: self.config.smooth_scroll,
        }
    }

    /// The command for a programmatic scroll to a raw pixel offset: no
    /// clamping, no extent arithmetic.
    pub fn scroll_to_pixels(&self, pixels: i64) -> (r: ScrollCommand)
        ensures
            r.top.num == pixels,
            r.top.den == 1,
            r.smooth == self.config.smooth_scroll,
    {
        ScrollCommand {
            top: Frac { num: pixels as i128, den: 1 },
            smooth: self.config.smooth_scroll,
        }
    }
}

/// The deliveries of one accepted event name strictly increasing
/// subscriber identifiers — subscription order — and every one carries the
/// same progress value.
pub proof fn lemma_dispatch_order(subs: Seq<Subscription>, p: ScrollProgress, base: int)
    requires
        0 <= base,
        base + subs.len() <= usize::MAX,
    ensures
        ({
            let r = dispatch_deliveries(subs, p, base);
            &&& forall|i: int| 0 <= i < r.len() ==> (#[trigger] r[i]).progress == p
            &&& forall|i: int|
                0 <= i < r.len() ==> base <= (#[trigger] r[i]).subscriber < base + subs.len()
            &&& forall|i: int, j: int|
                0 <= i < j < r.len() ==> r[i].subscriber < r[j].subscriber
        }),
    decreases subs.len(),
{
    if subs.len() > 0 {
        let rest = subs.subrange(1, subs.len() as int);
        lemma_dispatch_order(rest, p, base + 1);
        let r = dispatch_deliveries(subs, p, base);
        let head: Seq<Delivery> = if fires(subs[0], p) {
            seq![mk_delivery(base, subs[0], p)]
        } else {
            Seq::empty()
        };
        let rest_r = dispatch_deliveries(rest, p, base + 1);
        assert(r == head + rest_r);
        assert forall|i: int|
            0 <= i < r.len() implies ((#[trigger] r[i]).progress == p && base <= r[i].subscriber
                < base + subs.len()) by {
            if i >= head.len() {
                assert(r[i] == rest_r[i - head.len()]);
            }
        }
        assert forall|i: int, j: int|
            0 <= i < j < r.len() implies r[i].subscriber < r[j].subscriber by {
            if i >= head.len() {
                assert(r[i] == rest_r[i - head.len()]);
            }
            assert(r[j] == rest_r[j - head.len()]);
        }
    }
}

/// How often a subscription fires over a whole sequence of deliveries, as
/// the engine advances its memory delivery by delivery.
pub open spec fn fire_count(k: Subscription, ps: Seq<ScrollProgress>) -> nat
    decreases ps.len(),
{
    if ps.len() == 0 {
        0
    } else {
        (if fires(k, ps[0]) {
            1nat
        } else {
            0nat
        }) + fire_count(step(k, ps[0]), ps.subrange(1, ps.len() as int))
    }
}

/// How often a bit sequence rises: positions holding `true` whose
/// predecessor (the seed, for the first position) holds `false`.
pub open spec fn rising_edges(seed: bool, bits: Seq<bool>) -> nat
    decreases bits.len(),
{
    if bits.len() == 0 {
        0
    } else {
        (if bits[0] && !seed {
            1nat
        } else {
            0nat
        }) + rising_edges(bits[0], bits.subrange(1, bits.len() as int))
    }
}

/// How often a bit sequence falls: positions holding `false` whose
/// predecessor (the seed, for the first position) holds `true`.
pub open spec fn falling_edges(seed: bool, bits: Seq<bool>) -> nat
    decreases bits.len(),
{
    if bits.len() == 0 {
        0
    } else {
        (if !bits[0] && seed {
            1nat
        } else {
            0nat
        }) + falling_edges(bits[0], bits.subrange(1, bits.len() as int))
    }
}

/// Over any sequence of deliveries, an entry trigger fires exactly once
/// per transition into the range — never on every in-range tick. A fresh
/// or out-of-range memory counts as "outside", so a sweep that starts in
/// range fires once immediately.
pub proof fn lemma_enter_fire_count(
    from: Frac,
    to: Frac,
    state: RangeState,
    ps: Seq<ScrollProgress>,
)
    ensures
        fire_count(Subscription::EnterRange { from, to, state }, ps) == rising_edges(
            state == RangeState::WasIn,
            Seq::new(ps.len(), |i: int| in_range_now(ps[i], from, to)),
        ),
    decreases ps.len(),
{
    let bits = Seq::new(ps.len(), |i: int| in_range_now(ps[i], from, to));
    if ps.len() > 0 {
        let now_in = in_range_now(ps[0], from, to);
        let stepped = step(Subscription::EnterRange { from, to, state }, ps[0]);
        let next_state = if now_in {
            RangeState::WasIn
        } else {
            RangeState::WasOut
        };
        assert(stepped == Subscription::EnterRange { from, to, state: next_state });
        lemma_enter_fire_count(from, to, next_state, ps.subrange(1, ps.len() as int));
        let rest = ps.subrange(1, ps.len() as int);
        assert(Seq::new(rest.len(), |i: int| in_range_now(rest[i], from, to)) =~= bits.subrange(
            1,
            bits.len() as int,
        ));
        assert((next_state == RangeState::WasIn) == bits[0]);
    }
}

/// Over any sequence of deliveries, an exit trigger fires exactly once per
/// transition out of the range. A fresh memory counts as "outside", so
/// leaving the range fires only after the trigger has once seen the inside.
pub proof fn lemma_exit_fire_count(
    from: Frac,
    to: Frac,
    state: RangeState,
    ps: Seq<ScrollProgress>,
)
    ensures
        fire_count(Subscription::ExitRange { from, to, state }, ps) == falling_edges(
            state == RangeState::WasIn,
            Seq::new(ps.len(), |i: int| in_range_now(ps[i], from, to)),
        ),
    decreases ps.len(),
{
    let bits = Seq::new(ps.len(), |i: int| in_range_now(ps[i], from, to));
    if ps.len() > 0 {
        let now_in = in_range_now(ps[0], from, to);
        let next_state = if now_in {
            RangeState::WasIn
        } else {
            RangeState::WasOut
        };
        lemma_exit_fire_count(from, to, next_state, ps.subrange(1, ps.len() as int));
        let rest = ps.subrange(1, ps.len() as int);
        assert(Seq::new(rest.len(), |i: int| in_range_now(rest[i], from, to)) =~= bits.subrange(
            1,
            bits.len() as int,
        ));
        assert((next_state == RangeState::WasIn) == bits[0]);
    }
}

/// Entry triggers fire at most once per stay inside the range: once a
/// subscription has seen an in-range delivery, no later delivery fires it
/// until it has left the range.
pub proof fn lemma_enter_fires_once(
    from: Frac,
    to: Frac,
    state: RangeState,
    p1: ScrollProgress,
    p2: ScrollProgress,
)
    requires
        in_range_now(p1, from, to),
    ensures
        !fires(step(Subscription::EnterRange { from, to, state }, p1), p2),
{
}

/// Entry triggers do fire on the transition into the range, whatever the
/// tri-state held before the out-of-range delivery.
pub proof fn lemma_enter_fires_on_entry(
    from: Frac,
    to: Frac,
    state: RangeState,
    p1: ScrollProgress,
    p2: ScrollProgress,
)
    requires
        !in_range_now(p1, from, to),
        in_range_now(p2, from, to),
    ensures
        fires(step(Subscription::EnterRange { from, to, state }, p1), p2),
{
}

/// Exit triggers fire at most once per stay outside the range.
pub proof fn lemma_exit_fires_once(
    from: Frac,
    to: Frac,
    state: RangeState,
    p1: ScrollProgress,
    p2: ScrollProgress,
)
    requires
        !in_range_now(p1, from, to),
    ensures
        !fires(step(Subscription::ExitRange { from, to, state }, p1), p2),
{
}

/// Exit triggers do fire on the transition out of the range.
pub proof fn lemma_exit_fires_on_exit(
    from: Frac,
    to: Frac,
    state: RangeState,
    p1: ScrollProgress,
    p2: ScrollProgress,
)
    requires
        in_range_now(p1, from, to),
        !in_range_now(p2, from, to),
    ensures
        fires(step(Subscription::ExitRange { from, to, state }, p1), p2),
{
}

} // verus!
