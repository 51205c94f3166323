//! Tonal-presence pulse detectors: a windowed majority over "is the current
//! frequency inside the target band".
//!
//! Frequencies are in millihertz, the threshold in percent and the window
//! duration in milliseconds; the window holds `⌊duration · S⌋` samples.
use vstd::prelude::*;
use crate::filters::last_n;
use crate::ring::{flags_of, flag_capacity, FlagRing};

verus! {

/// What a pulse detector looks for.
#[derive(Debug, Clone, Copy, PartialEq, Eq, Structural)]
pub struct PulseDetectorConfig {
    /// Target frequency, in millihertz.
    pub freq: i32,
    /// Half-width of the target band, in millihertz.
    pub range: i32,
    /// Fraction of in-band samples at which the detector fires, in percent.
    pub threshold: u32,
    /// Length of the window, in milliseconds.
    pub duration: u32,
}

/// The leader tone: 1900 ± 100 Hz over 45 % of 0.6 s.
pub open spec fn spec_header_pulse() -> PulseDetectorConfig {
    PulseDetectorConfig { freq: 1_900_000, range: 100_000, threshold: 45, duration: 600 }
}

/// The VIS stop bit: 1200 ± 50 Hz over 50 % of 30 ms.
pub open spec fn spec_vis_stop_pulse() -> PulseDetectorConfig {
    PulseDetectorConfig { freq: 1_200_000, range: 50_000, threshold: 50, duration: 30 }
}

/// The horizontal sync: 1200 ± 100 Hz over 45 % of 4 ms.
pub open spec fn spec_sync_pulse() -> PulseDetectorConfig {
    PulseDetectorConfig { freq: 1_200_000, range: 100_000, threshold: 45, duration: 4 }
}

impl PulseDetectorConfig {
    /// The leader-tone detector's configuration.
    pub fn header() -> (r: PulseDetectorConfig)
        ensures
            r == spec_header_pulse(),
    {
        PulseDetectorConfig { freq: 1_900_000, range: 100_000, threshold: 45, duration: 600 }
    }

    /// The VIS stop-bit detector's configuration.
    pub fn vis_stop() -> (r: PulseDetectorConfig)
        ensures
            r == spec_vis_stop_pulse(),
    {
        PulseDetectorConfig { freq: 1_200_000, range: 50_000, threshold: 50, duration: 30 }
    }

    /// The horizontal-sync detector's configuration.
    pub fn sync() -> (r: PulseDetectorConfig)
        ensures
            r == spec_sync_pulse(),
    {
        PulseDetectorConfig { freq: 1_200_000, range: 100_000, threshold: 45, duration: 4 }
    }
}

/// The number of samples in a window of `duration_ms` at `sample_rate` Hz:
/// `⌊duration · S⌋`.
pub open spec fn window_len(duration_ms: int, sample_rate: int) -> int {
    (duration_ms * sample_rate) / 1000
}

/// Whether `freq` lies strictly inside the configured band.
pub open spec fn in_band(freq: int, cfg: PulseDetectorConfig) -> bool {
    let d = freq - cfg.freq;
    (if d >= 0 { d } else { -d }) < cfg.range
}

/// The number of `true` entries.
pub open spec fn count_true(s: Seq<bool>) -> nat
    decreases s.len(),
{
    if s.len() == 0 {
        0
    } else {
        count_true(s.drop_last()) + if s.last() { 1nat } else { 0nat }
    }
}

/// Whether a window fires: its fraction of `true` entries is at least
/// `threshold` percent.
pub open spec fn fires(window: Seq<bool>, threshold: int) -> bool {
    count_true(window) * 100 >= threshold * window.len()
}

/// The window after `n` more samples that all classify as `b`.
pub open spec fn feed(window: Seq<bool>, capacity: int, n: nat, b: bool) -> Seq<bool>
    decreases n,
{
    if n == 0 {
        window
    } else {
        last_n(feed(window, capacity, (n - 1) as nat, b).push(b), capacity)
    }
}

pub(crate) proof fn lemma_count_push(s: Seq<bool>, b: bool)
    ensures
        count_true(s.push(b)) == count_true(s) + if b { 1nat } else { 0nat },
{
    assert(s.push(b).drop_last() =~= s);
}

proof fn lemma_count_drop_first(s: Seq<bool>)
    requires
        s.len() > 0,
    ensures
        count_true(s) == count_true(s.drop_first()) + if s[0] { 1nat } else { 0nat },
    decreases s.len(),
{
    if s.len() > 1 {
        lemma_count_drop_first(s.drop_last());
        let t = s.drop_first();
        assert(s.drop_last().drop_first() =~= t.drop_last());
        assert(t.last() == s.last());
        assert(count_true(t) == count_true(t.drop_last()) + if t.last() { 1nat } else { 0nat });
        assert(s.drop_last()[0] == s[0]);
    } else {
        assert(s.drop_last() =~= Seq::<bool>::empty());
        assert(s.drop_first() =~= Seq::<bool>::empty());
        assert(count_true(s.drop_first()) == 0);
        assert(count_true(s.drop_last()) == 0);
    }
}

proof fn lemma_count_le_len(s: Seq<bool>)
    ensures
        count_true(s) <= s.len(),
    decreases s.len(),
{
    if s.len() > 0 {
        lemma_count_le_len(s.drop_last());
    }
}

proof fn lemma_count_uniform(s: Seq<bool>, b: bool)
    requires
        forall|i: int| 0 <= i < s.len() ==> s[i] == b,
    ensures
        count_true(s) == if b { s.len() } else { 0 },
    decreases s.len(),
{
    if s.len() > 0 {
        lemma_count_uniform(s.drop_last(), b);
    }
}

/// After `n` samples of one class, the window holds `min(n, capacity)` more
/// entries of that class at its end, and is full once `n ≥ capacity`.
proof fn lemma_feed_shape(window: Seq<bool>, capacity: int, n: nat, b: bool)
    requires
        capacity > 0,
        window.len() <= capacity,
    ensures
        feed(window, capacity, n, b).len() <= capacity,
        feed(window, capacity, n, b).len() >= if n < capacity { n as int } else { capacity },
        forall|i: int|
            0 <= i < feed(window, capacity, n, b).len() && i >= feed(window, capacity, n, b).len() - n
                ==> #[trigger] feed(window, capacity, n, b)[i] == b,
    decreases n,
{
    if n > 0 {
        let m = (n - 1) as nat;
        lemma_feed_shape(window, capacity, m, b);
        let prev = feed(window, capacity, m, b);
        let pushed = prev.push(b);
        let next = feed(window, capacity, n, b);
        assert(next == last_n(pushed, capacity));
        if pushed.len() <= capacity {
            assert(next == pushed);
            assert forall|i: int| 0 <= i < next.len() && i >= next.len() - n implies #[trigger] next[i] == b by {
                if i < prev.len() {
                    assert(next[i] == prev[i]);
                }
            }
        } else {
            assert(next =~= pushed.subrange(pushed.len() - capacity, pushed.len() as int));
            assert forall|i: int| 0 <= i < next.len() && i >= next.len() - n implies #[trigger] next[i] == b by {
                assert(next[i] == pushed[i + pushed.len() - capacity]);
                if i + pushed.len() - capacity < prev.len() {
                    assert(pushed[i + pushed.len() - capacity] == prev[i + pushed.len() - capacity]);
                }
            }
        }
    }
}

/// A windowed-majority tone detector.
pub struct PulseDetector {
    buffer: FlagRing,
    config: PulseDetectorConfig,
    active: usize,
}

impl PulseDetector {
    /// The window's classifications, oldest first.
    pub closed spec fn spec_window(&self) -> Seq<bool> {
        flags_of(self.buffer)
    }

    /// The window's capacity.
    pub closed spec fn spec_capacity(&self) -> int {
        flag_capacity(self.buffer) as int
    }

    /// The detector's configuration.
    pub closed spec fn spec_config(&self) -> PulseDetectorConfig {
        self.config
    }

    /// The detector's invariant: a non-empty ring that is never over-full,
    /// and a count of its `true` entries.
    pub closed spec fn well_formed(&self) -> bool {
        &&& 0 < flag_capacity(self.buffer) <= usize::MAX
        &&& flags_of(self.buffer).len() <= flag_capacity(self.buffer)
        &&& self.active == count_true(flags_of(self.buffer))
    }

    /// A detector with an empty window of `⌊duration · sample_rate⌋` samples.
    pub fn new(config: PulseDetectorConfig, sample_rate: u32) -> (r: PulseDetector)
        requires
            window_len(config.duration as int, sample_rate as int) > 0,
            window_len(config.duration as int, sample_rate as int) <= usize::MAX,
        ensures
            r.well_formed(),
            r.spec_config() == config,
            r.spec_capacity() == window_len(config.duration as int, sample_rate as int),
            r.spec_window() == Seq::<bool>::empty(),
    {
        assert(config.duration as u64 * sample_rate as u64 <= 0xffff_ffff * 0xffff_ffff) by (nonlinear_arith)
            requires
                config.duration <= 0xffff_ffff,
                sample_rate <= 0xffff_ffff,
        ;
        let prod = config.duration as u64 * sample_rate as u64;
        let samples = (prod / 1000) as usize;
        PulseDetector { buffer: FlagRing::new(samples), config, active: 0 }
    }

    /// Classifies one frequency sample into the window and reports whether
    /// the detector fires.
    pub fn update(&mut self, freq: i32) -> (r: bool)
        requires
            old(self).well_formed(),
        ensures
            final(self).well_formed(),
            final(self).spec_config() == old(self).spec_config(),
            final(self).spec_capacity() == old(self).spec_capacity(),
            final(self).spec_window() == last_n(
                old(self).spec_window().push(in_band(freq as int, old(self).spec_config())),
                old(self).spec_capacity(),
            ),
            r == fires(final(self).spec_window(), old(self).spec_config().threshold as int),
    {
        let d = freq as i64 - self.config.freq as i64;
        let dist = if d >= 0 { d } else { -d };
        let hit = dist < self.config.range as i64;
        let ghost w = flags_of(self.buffer);
        let dropped = self.buffer.push_overwrite(hit);
        let ghost w2 = flags_of(self.buffer);
        proof {
            lemma_count_push(w, hit);
            if w.len() >= flag_capacity(self.buffer) {
                lemma_count_drop_first(w);
                lemma_count_push(w.drop_first(), hit);
                assert(w.drop_first().push(hit) =~= last_n(w.push(hit), flag_capacity(self.buffer) as int));
            } else {
                assert(w.push(hit) =~= last_n(w.push(hit), flag_capacity(self.buffer) as int));
            }
            lemma_count_le_len(w2);
            assert(w2.len() <= flag_capacity(self.buffer));
            assert(count_true(w2) == count_true(w) + (if hit { 1int } else { 0int }) - (if dropped == Some(true) { 1int } else { 0int }));
        }
        if let Some(true) = dropped {
            self.active = self.active - 1;
        }
        if hit {
            self.active = self.active + 1;
        }
        let occupied = self.buffer.occupied_len();
        let active = self.active;
        let threshold = self.config.threshold;
        assert((active as u128) * 100 <= 0xffff_ffff_ffff_ffff * 100) by (nonlinear_arith)
            requires
                active <= 0xffff_ffff_ffff_ffff,
        ;
        assert((threshold as u128) * (occupied as u128) <= 0xffff_ffff * 0xffff_ffff_ffff_ffff) by (nonlinear_arith)
            requires
                threshold <= 0xffff_ffff,
                occupied <= 0xffff_ffff_ffff_ffff,
        ;
        (active as u128) * 100 >= (threshold as u128) * (occupied as u128)
    }
}

/// A detector fires after a full window's worth of in-band samples and stays
/// silent after as many out-of-band samples, whatever it held before (for a
/// threshold in `(0, 100]` percent).
pub proof fn lemma_saturation(window: Seq<bool>, capacity: int, threshold: int, n: nat, b: bool)
    requires
        capacity > 0,
        window.len() <= capacity,
        0 < threshold <= 100,
        n >= capacity,
    ensures
        fires(feed(window, capacity, n, b), threshold) == b,
{
    lemma_feed_shape(window, capacity, n, b);
    let w = feed(window, capacity, n, b);
    assert forall|i: int| 0 <= i < w.len() implies w[i] == b by {
        assert(w[i] == b);
    }
    lemma_count_uniform(w, b);
    if b {
        assert(w.len() * 100 >= threshold * w.len()) by (nonlinear_arith)
            requires
                threshold <= 100,
        ;
    } else {
        assert(threshold * w.len() > 0) by (nonlinear_arith)
            requires
                threshold > 0,
                w.len() > 0,
        ;
    }
}

/// Once its window is full, a detector fires only when at least `threshold`
/// percent of the window's samples were in band: for the leader tone, 45 % of
/// 0.6 s of tone.
pub proof fn lemma_full_window_needs_tone(window: Seq<bool>, capacity: int, cfg: PulseDetectorConfig)
    requires
        window.len() == capacity,
        fires(window, cfg.threshold as int),
    ensures
        count_true(window) * 100 >= cfg.threshold * capacity,
        cfg == spec_header_pulse() ==> count_true(window) * 100 >= 45 * capacity,
{
}

} // verus!
