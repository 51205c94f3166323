//! The smoothing chain applied to frequency samples: a single-pole low-pass
//! IIR followed by a moving average.
//!
//! Samples are integers (millihertz). The low-pass coefficient is a fixed-point
//! fraction of `ALPHA_ONE`, and every division truncates toward zero, so both
//! filters are exact integer computations.
use vstd::prelude::*;
use crate::ring::{samples_of, sample_capacity, SampleRing};

verus! {

/// The fixed-point unit of the low-pass coefficient: `alpha = ALPHA_ONE` is 1.
pub const ALPHA_ONE: u64 = 65536;

/// Numerator of the rational approximation `710 / 113` of 2π.
pub const TAU_NUM: u64 = 710;

/// Denominator of the rational approximation `710 / 113` of 2π.
pub const TAU_DEN: u64 = 113;

/// The largest moving-average length, so that a window's sum fits in `i64`.
pub const MAX_TAPS: usize = 0x1_0000;

/// Integer division truncating toward zero, as Rust's `/` on signed integers.
pub open spec fn trunc_div(a: int, b: int) -> int {
    if a >= 0 {
        a / b
    } else {
        -((-a) / b)
    }
}

/// The low-pass coefficient for a cutoff (Hz) and a sample rate (Hz):
/// `alpha = dt / (RC + dt) = 2π·fc / (2π·fc + S)`, in units of `1 / ALPHA_ONE`,
/// rounded down.
pub open spec fn lowpass_alpha(cutoff: int, sample_rate: int) -> int {
    (ALPHA_ONE * TAU_NUM * cutoff) / (TAU_NUM * cutoff + TAU_DEN * sample_rate)
}

/// One low-pass update `y + alpha·(x − y)`, the product truncated toward zero.
pub open spec fn lowpass_step(y: int, x: int, alpha: int) -> int {
    y + trunc_div(alpha * (x - y), ALPHA_ONE as int)
}

/// The sum of a sequence of samples.
pub open spec fn seq_sum(s: Seq<i32>) -> int
    decreases s.len(),
{
    if s.len() == 0 {
        0
    } else {
        seq_sum(s.drop_last()) + s.last()
    }
}

/// The moving-average output over a window: its sum divided by the number of
/// taps (a window that is not yet full counts its missing samples as zero).
pub open spec fn window_mean(window: Seq<i32>, taps: int) -> int {
    trunc_div(seq_sum(window), taps)
}

/// The last `n` items of `s` (all of `s` when it is shorter).
pub open spec fn last_n<T>(s: Seq<T>, n: int) -> Seq<T> {
    if s.len() <= n {
        s
    } else {
        s.subrange(s.len() - n, s.len() as int)
    }
}

proof fn lemma_step_between(y: int, x: int, alpha: int)
    requires
        0 <= alpha <= ALPHA_ONE,
    ensures
        y <= x ==> y <= lowpass_step(y, x, alpha) <= x,
        x <= y ==> x <= lowpass_step(y, x, alpha) <= y,
{
    let d = if x >= y { x - y } else { y - x };
    assert(0 <= alpha * d <= ALPHA_ONE * d) by (nonlinear_arith)
        requires
            0 <= alpha <= ALPHA_ONE,
            d >= 0,
    ;
    assert((ALPHA_ONE * d) / (ALPHA_ONE as int) == d) by (nonlinear_arith)
        requires
            d >= 0,
    ;
    assert((alpha * d) / (ALPHA_ONE as int) <= (ALPHA_ONE * d) / (ALPHA_ONE as int)) by (nonlinear_arith)
        requires
            0 <= alpha * d <= ALPHA_ONE * d,
    ;
    if x >= y {
        assert(alpha * (x - y) == alpha * d);
    } else {
        assert(alpha * (x - y) == -(alpha * d)) by (nonlinear_arith)
            requires
                d == y - x,
        ;
    }
}

proof fn lemma_sum_push(s: Seq<i32>, x: i32)
    ensures
        seq_sum(s.push(x)) == seq_sum(s) + x,
{
    assert(s.push(x).drop_last() =~= s);
}

proof fn lemma_sum_drop_first(s: Seq<i32>)
    requires
        s.len() > 0,
    ensures
        seq_sum(s) == s[0] + seq_sum(s.drop_first()),
    decreases s.len(),
{
    if s.len() > 1 {
        lemma_sum_drop_first(s.drop_last());
        let t = s.drop_first();
        assert(s.drop_last().drop_first() =~= t.drop_last());
        assert(t.last() == s.last());
        assert(seq_sum(t) == seq_sum(t.drop_last()) + t.last());
        assert(s.drop_last()[0] == s[0]);
    } else {
        assert(s.drop_last() =~= Seq::<i32>::empty());
        assert(s.drop_first() =~= Seq::<i32>::empty());
        assert(seq_sum(s.drop_first()) == 0);
        assert(seq_sum(s.drop_last()) == 0);
    }
}

proof fn lemma_sum_bounds(s: Seq<i32>)
    ensures
        s.len() * (i32::MIN as int) <= seq_sum(s) <= s.len() * (i32::MAX as int),
    decreases s.len(),
{
    if s.len() > 0 {
        lemma_sum_bounds(s.drop_last());
        assert(s.len() * (i32::MIN as int) == (s.len() - 1) * (i32::MIN as int) + i32::MIN) by (nonlinear_arith);
        assert(s.len() * (i32::MAX as int) == (s.len() - 1) * (i32::MAX as int) + i32::MAX) by (nonlinear_arith);
    }
}

proof fn lemma_sum_constant(s: Seq<i32>, x: i32)
    requires
        forall|i: int| 0 <= i < s.len() ==> s[i] == x,
    ensures
        seq_sum(s) == s.len() * x,
    decreases s.len(),
{
    if s.len() > 0 {
        lemma_sum_constant(s.drop_last(), x);
        assert(s.len() * x == (s.len() - 1) * x + x) by (nonlinear_arith);
    }
}

/// A single-pole low-pass IIR filter `y[n] = y[n-1] + alpha·(x[n] − y[n-1])`.
pub struct LowPassFilter {
    prev_output: i32,
    alpha: u64,
}

impl LowPassFilter {
    /// The filter's previous output `y[n-1]`.
    pub closed spec fn spec_output(&self) -> int {
        self.prev_output as int
    }

    /// The filter's coefficient, in units of `1 / ALPHA_ONE`.
    pub closed spec fn spec_alpha(&self) -> int {
        self.alpha as int
    }

    /// A filter with cutoff `cutoff` Hz at `sample_rate` Hz, with output 0.
    pub fn new(cutoff: u32, sample_rate: u32) -> (r: LowPassFilter)
        requires
            cutoff > 0,
        ensures
            r.spec_alpha() == lowpass_alpha(cutoff as int, sample_rate as int),
            r.spec_alpha() <= ALPHA_ONE,
            r.spec_output() == 0,
    {
        let fc = cutoff as u64;
        assert(ALPHA_ONE * TAU_NUM * fc <= 65536 * 710 * 0xffff_ffff) by (nonlinear_arith)
            requires
                fc <= 0xffff_ffff,
        ;
        let num = ALPHA_ONE * TAU_NUM * fc;
        let den = TAU_NUM * fc + TAU_DEN * (sample_rate as u64);
        let alpha = num / den;
        assert(alpha <= ALPHA_ONE) by (nonlinear_arith)
            requires
                alpha == num / den,
                num == ALPHA_ONE * (TAU_NUM * fc),
                den >= TAU_NUM * fc,
                TAU_NUM * fc > 0,
        ;
        LowPassFilter { prev_output: 0, alpha }
    }

    /// Feeds one sample and returns the new output.
    pub fn update(&mut self, value: i32) -> (r: i32)
        requires
            old(self).spec_alpha() <= ALPHA_ONE,
        ensures
            r == lowpass_step(old(self).spec_output(), value as int, old(self).spec_alpha()),
            final(self).spec_output() == r,
            final(self).spec_alpha() == old(self).spec_alpha(),
    {
        let y = self.prev_output as i64;
        let x = value as i64;
        proof {
            lemma_step_between(y as int, x as int, self.alpha as int);
        }
        let a = self.alpha as i64;
        assert(0 <= a <= 65536);
        let next = if x >= y {
            let d = x - y;
            assert(a * d <= 65536 * 0x1_0000_0000) by (nonlinear_arith)
                requires
                    0 <= a <= 65536,
                    0 <= d < 0x1_0000_0000,
            ;
            y + (a * d) / 65536
        } else {
            let d = y - x;
            assert(a * d <= 65536 * 0x1_0000_0000) by (nonlinear_arith)
                requires
                    0 <= a <= 65536,
                    0 <= d < 0x1_0000_0000,
            ;
            assert(a * (x - y) == -(a * d)) by (nonlinear_arith)
                requires
                    d == y - x,
            ;
            y - (a * d) / 65536
        };
        self.prev_output = next as i32;
        next as i32
    }
}

/// A moving average over the last `size` samples, kept as a ring and a
/// running sum.
pub struct MovingAverageFilter {
    buffer: SampleRing,
    size: usize,
    sum: i64,
}

impl MovingAverageFilter {
    /// The samples in the window, oldest first (at most `size` of them).
    pub closed spec fn spec_window(&self) -> Seq<i32> {
        samples_of(self.buffer)
    }

    /// The number of taps.
    pub closed spec fn spec_size(&self) -> int {
        self.size as int
    }

    /// The filter's invariant: the ring holds at most `size` samples and the
    /// running sum is theirs.
    pub closed spec fn well_formed(&self) -> bool {
        &&& 0 < self.size <= MAX_TAPS
        &&& sample_capacity(self.buffer) == self.size
        &&& samples_of(self.buffer).len() <= self.size
        &&& self.sum == seq_sum(samples_of(self.buffer))
    }

    /// A moving average of `size` taps with an empty window.
    pub fn new(size: usize) -> (r: MovingAverageFilter)
        requires
            0 < size <= MAX_TAPS,
        ensures
            r.well_formed(),
            r.spec_size() == size,
            r.spec_window() == Seq::<i32>::empty(),
    {
        MovingAverageFilter { buffer: SampleRing::new(size), size, sum: 0 }
    }

    /// Feeds one sample and returns the mean of the last `size` samples.
    pub fn update(&mut self, value: i32) -> (r: i32)
        requires
            old(self).well_formed(),
        ensures
            final(self).well_formed(),
            final(self).spec_size() == old(self).spec_size(),
            final(self).spec_window() == last_n(old(self).spec_window().push(value), old(self).spec_size()),
            r == window_mean(final(self).spec_window(), final(self).spec_size()),
    {
        let ghost w = samples_of(self.buffer);
        let dropped = self.buffer.push_overwrite(value);
        let ghost w2 = samples_of(self.buffer);
        proof {
            lemma_sum_push(w, value);
            if w.len() >= self.size {
                lemma_sum_drop_first(w);
                assert(w.drop_first().push(value) =~= last_n(w.push(value), self.size as int));
                lemma_sum_push(w.drop_first(), value);
            } else {
                assert(w.push(value) =~= last_n(w.push(value), self.size as int));
            }
            lemma_sum_bounds(w);
            lemma_sum_bounds(w2);
            assert(w2.len() <= self.size);
            assert(w.len() * (i32::MIN as int) >= MAX_TAPS * (i32::MIN as int)) by (nonlinear_arith)
                requires
                    w.len() <= MAX_TAPS,
            ;
            assert(w.len() * (i32::MAX as int) <= MAX_TAPS * (i32::MAX as int)) by (nonlinear_arith)
                requires
                    w.len() <= MAX_TAPS,
            ;
        }
        self.sum = self.sum + value as i64;
        let out = match dropped {
            Some(d) => d,
            None => 0,
        };
        self.sum = self.sum - out as i64;
        let n = self.size as i64;
        let s = self.sum;
        proof {
            assert(w2.len() * (i32::MIN as int) >= n * (i32::MIN as int)) by (nonlinear_arith)
                requires
                    w2.len() <= n,
            ;
            assert(w2.len() * (i32::MAX as int) <= n * (i32::MAX as int)) by (nonlinear_arith)
                requires
                    w2.len() <= n,
            ;
        }
        let mean = if s >= 0 {
            assert(s / n <= i32::MAX) by (nonlinear_arith)
                requires
                    0 <= s <= n * (i32::MAX as int),
                    n > 0,
            ;
            s / n
        } else {
            assert((-(s as int)) / (n as int) <= 0x8000_0000) by (nonlinear_arith)
                requires
                    0 < -(s as int) <= (n as int) * 0x8000_0000,
                    n > 0,
            ;
            -((-s) / n)
        };
        mean as i32
    }
}

/// Steady state of the moving average: once its window holds `taps` copies of
/// one value `x`, its output is exactly `x`.
pub proof fn lemma_moving_average_steady_state(window: Seq<i32>, taps: int, x: i32)
    requires
        taps > 0,
        window.len() == taps,
        forall|i: int| 0 <= i < window.len() ==> window[i] == x,
    ensures
        window_mean(window, taps) == x,
{
    lemma_sum_constant(window, x);
    if x >= 0 {
        assert(taps * x >= 0) by (nonlinear_arith)
            requires
                taps > 0,
                x >= 0,
        ;
        assert((taps * x) / taps == x) by (nonlinear_arith)
            requires
                taps > 0,
        ;
    } else {
        assert(taps * x < 0) by (nonlinear_arith)
            requires
                taps > 0,
                x < 0,
        ;
        assert((-(taps * x)) / taps == -x) by (nonlinear_arith)
            requires
                taps > 0,
        ;
    }
}

/// The low-pass cutoff of the smoothing chain, in Hz.
pub const MAX_FREQ: u32 = 2300;

/// The moving-average length of the smoothing chain.
pub const AVG_TAPS: usize = 32;

/// The smoothing chain: a low-pass at `MAX_FREQ` followed by a moving
/// average of `AVG_TAPS` samples.
pub struct Smoother {
    low_pass: LowPassFilter,
    average: MovingAverageFilter,
}

impl Smoother {
    /// The low-pass stage.
    pub closed spec fn spec_low_pass(&self) -> LowPassFilter {
        self.low_pass
    }

    /// The moving-average stage.
    pub closed spec fn spec_average(&self) -> MovingAverageFilter {
        self.average
    }

    /// The chain's invariant.
    pub closed spec fn well_formed(&self) -> bool {
        &&& self.low_pass.spec_alpha() <= ALPHA_ONE
        &&& self.average.well_formed()
        &&& self.average.spec_size() == AVG_TAPS
    }

    /// The chain's latest output: the mean of the moving-average window.
    pub open spec fn spec_output(&self) -> int {
        window_mean(self.spec_average().spec_window(), AVG_TAPS as int)
    }

    /// A chain with both stages at rest, for samples taken at `sample_rate` Hz.
    pub fn new(sample_rate: u32) -> (r: Smoother)
        ensures
            r.well_formed(),
            r.spec_low_pass().spec_alpha() == lowpass_alpha(MAX_FREQ as int, sample_rate as int),
            r.spec_low_pass().spec_output() == 0,
            r.spec_average().spec_window() == Seq::<i32>::empty(),
    {
        Smoother { low_pass: LowPassFilter::new(MAX_FREQ, sample_rate), average: MovingAverageFilter::new(AVG_TAPS) }
    }

    /// Feeds one frequency sample through both stages and returns the
    /// smoothed sample.
    pub fn update(&mut self, value: i32) -> (r: i32)
        requires
            old(self).well_formed(),
        ensures
            final(self).well_formed(),
            final(self).spec_low_pass().spec_alpha() == old(self).spec_low_pass().spec_alpha(),
            final(self).spec_low_pass().spec_output() == lowpass_step(
                old(self).spec_low_pass().spec_output(),
                value as int,
                old(self).spec_low_pass().spec_alpha(),
            ),
            final(self).spec_average().spec_window() == last_n(
                old(self).spec_average().spec_window().push(final(self).spec_low_pass().spec_output() as i32),
                AVG_TAPS as int,
            ),
            r == final(self).spec_output(),
    {
        let y = self.low_pass.update(value);
        self.average.update(y)
    }
}

/// The smoothing low-pass settles on a constant input: at the chain's cutoff
/// and a sample rate from 8 kHz to 67 MHz, each step moves toward the input
/// without overshooting it, and once a step no longer moves the output, the
/// output lies within 5 Hz (5000 mHz) of the input.
pub proof fn lemma_lowpass_settles(y: int, x: int, sample_rate: int)
    requires
        8000 <= sample_rate <= 67_000_000,
    ensures
        ({
            let next = lowpass_step(y, x, lowpass_alpha(MAX_FREQ as int, sample_rate));
            &&& y <= x ==> y <= next <= x
            &&& x <= y ==> x <= next <= y
            &&& next == y ==> -5000 < x - y < 5000
        }),
{
    let alpha = lowpass_alpha(MAX_FREQ as int, sample_rate);
    let num = ALPHA_ONE * TAU_NUM * MAX_FREQ;
    let den = TAU_NUM * MAX_FREQ + TAU_DEN * sample_rate;
    assert(num == 107_020_288_000);
    assert(alpha == num / den);
    assert(alpha >= 14) by (nonlinear_arith)
        requires
            alpha == num / den,
            num == 107_020_288_000,
            den == 1_633_000 + 113 * sample_rate,
            sample_rate <= 67_000_000,
            sample_rate >= 0,
    ;
    assert(alpha <= ALPHA_ONE) by (nonlinear_arith)
        requires
            alpha == num / den,
            num == 107_020_288_000,
            den == 1_633_000 + 113 * sample_rate,
            sample_rate >= 0,
    ;
    lemma_step_between(y, x, alpha);
    let next = lowpass_step(y, x, alpha);
    if next == y {
        let d = x - y;
        if d >= 0 {
            assert((alpha * d) / 65536 == 0);
            assert(d < 5000) by (nonlinear_arith)
                requires
                    (alpha * d) / 65536 == 0,
                    alpha >= 14,
                    d >= 0,
            ;
        } else {
            assert(alpha * d == -(alpha * (-d))) by (nonlinear_arith);
            assert((alpha * (-d)) / 65536 == 0);
            assert(-d < 5000) by (nonlinear_arith)
                requires
                    (alpha * (-d)) / 65536 == 0,
                    alpha >= 14,
                    -d > 0,
            ;
        }
    }
}

} // verus!
