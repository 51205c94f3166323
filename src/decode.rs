//! The decoder state machine: Idle → Vis → Decoding → Idle.
//!
//! One call per frequency sample (in millihertz). In Idle the leader-tone
//! detector waits for the header; in Vis the samples near the VIS bit tones
//! are collected until the stop bit; in Decoding each sample becomes a row
//! level until a sync pulse closes the row. A decode ends when the image is
//! full or when no sync has come for three seconds.
use vstd::prelude::*;
use crate::filters::{last_n, Smoother};
use crate::image::{lemma_builder_bounds, lemma_progress_monotone, Image, ImageBuilder, LEVEL_MAX, MIN_SAMPLE_RATE};
use crate::modes::{mode_of_vis, SstvMode};
use crate::pulse::{
    count_true, fires, in_band, lemma_count_push, spec_header_pulse, spec_sync_pulse,
    spec_vis_stop_pulse, window_len, PulseDetector, PulseDetectorConfig,
};

verus! {

/// The VIS "0" tone, in millihertz.
pub const VIS_ZERO_FREQ: i32 = 1_300_000;

/// The VIS "1" tone, in millihertz.
pub const VIS_ONE_FREQ: i32 = 1_100_000;

/// How close a sample must be to a VIS tone to count as a bit, in millihertz.
pub const VIS_TOLERANCE: i32 = 50_000;

/// The black level, in millihertz.
pub const BLACK_FREQ: i32 = 1_500_000;

/// The white level, in millihertz.
pub const WHITE_FREQ: i32 = 2_300_000;

/// Seconds without a sync pulse after which a decode is abandoned.
pub const ABORT_TIMEOUT_SECS: u64 = 3;

/// Width of the decoded image, in pixels.
pub const IMAGE_WIDTH: u32 = 320;

/// Height of the decoded image, in pixels.
pub const IMAGE_HEIGHT: u32 = 256;

/// What the decoder reports.
#[derive(Debug)]
pub enum SstvEvent {
    /// A VIS code was read and decoding began in this mode.
    Start(SstvMode),
    /// A row is about to be written: `(rows written so far, image height)`.
    Progress(u32, u32),
    /// The decode ended, with the image as far as it got.
    End(SstvMode, Image),
}

/// The decoder's state.
pub enum DecoderState {
    /// Waiting for the leader tone.
    Idle { header: PulseDetector },
    /// Reading the VIS code until its stop bit.
    Vis { stop: PulseDetector, bits: Vec<bool> },
    /// Reading scanlines.
    Decoding {
        sync: PulseDetector,
        last_sync: u64,
        mode: SstvMode,
        img: ImageBuilder,
        row: Vec<u32>,
    },
}

/// The absolute value.
pub open spec fn abs(x: int) -> int {
    if x >= 0 {
        x
    } else {
        -x
    }
}

/// The VIS bit a sample reads as: `Some(true)` near the "1" tone,
/// `Some(false)` near the "0" tone, `None` when it is near neither.
pub open spec fn vis_bit(f: int) -> Option<bool> {
    let d0 = abs(f - VIS_ZERO_FREQ);
    let d1 = abs(f - VIS_ONE_FREQ);
    if (if d0 < d1 { d0 } else { d1 }) < VIS_TOLERANCE {
        Some(d1 < d0)
    } else {
        None
    }
}

/// The number of bit samples in a whole VIS code (seven 30 ms bits):
/// `⌊0.21 · S⌋`.
pub open spec fn vis_samples(rate: int) -> int {
    (21 * rate) / 100
}

/// Whether more than half of the entries are `true`.
pub open spec fn majority(s: Seq<bool>) -> bool {
    2 * count_true(s) > s.len()
}

/// Chunk `k` of `b` bit samples among the first `n`.
pub open spec fn vis_chunk(bits: Seq<bool>, b: int, n: int, k: int) -> Seq<bool> {
    bits.subrange(k * b, if (k + 1) * b < n { (k + 1) * b } else { n })
}

/// How many chunks of `b` the first `n` bit samples make, at most seven.
pub open spec fn vis_chunk_count(n: int, b: int) -> int {
    let c = (n + b - 1) / b;
    if c < 7 {
        c
    } else {
        7
    }
}

/// The code after the majorities of the first `k` chunks were shifted in
/// from the top: `v = (v >> 1) | (bit << 6)`.
pub open spec fn vis_fold(bits: Seq<bool>, b: int, n: int, k: nat) -> int
    decreases k,
{
    if k == 0 {
        0
    } else {
        vis_fold(bits, b, n, (k - 1) as nat) / 2 + if majority(vis_chunk(bits, b, n, k - 1)) {
            64int
        } else {
            0int
        }
    }
}

/// The 7-bit VIS code that the collected bit samples spell, least
/// significant bit first.
pub open spec fn vis_code(bits: Seq<bool>, rate: int) -> int {
    let total = vis_samples(rate);
    let b = total / 7;
    let n = if total < bits.len() { total } else { bits.len() as int };
    vis_fold(bits, b, n, vis_chunk_count(n, b) as nat)
}

/// The row level of a sample: its height above black, clamped to
/// `[0, LEVEL_MAX]`; a sample further than the full range from the band
/// repeats the row's last level (0 for an empty row).
pub open spec fn row_level(f: int, row: Seq<u32>) -> u32 {
    if f > WHITE_FREQ || f < BLACK_FREQ - LEVEL_MAX {
        if row.len() > 0 {
            row.last()
        } else {
            0
        }
    } else if f < BLACK_FREQ {
        0
    } else {
        (f - BLACK_FREQ) as u32
    }
}

/// Whether a detector fires once it has classified `f`.
pub open spec fn fires_after(d: PulseDetector, f: int) -> bool {
    fires(
        last_n(d.spec_window().push(in_band(f, d.spec_config())), d.spec_capacity()),
        d.spec_config().threshold as int,
    )
}

/// `d2` is `d` after classifying `f`.
pub open spec fn detector_stepped(d: PulseDetector, d2: PulseDetector, f: int) -> bool {
    &&& d2.well_formed()
    &&& d2.spec_config() == d.spec_config()
    &&& d2.spec_capacity() == d.spec_capacity()
    &&& d2.spec_window() == last_n(d.spec_window().push(in_band(f, d.spec_config())), d.spec_capacity())
}

/// A newly made detector for `cfg` at `rate` Hz.
pub open spec fn fresh_detector(d: PulseDetector, cfg: PulseDetectorConfig, rate: int) -> bool {
    &&& d.well_formed()
    &&& d.spec_config() == cfg
    &&& d.spec_capacity() == window_len(cfg.duration as int, rate)
    &&& d.spec_window() == Seq::<bool>::empty()
}

/// A newly made image builder for a decode at `rate` Hz.
pub open spec fn fresh_image(img: ImageBuilder, rate: int) -> bool {
    &&& img.well_formed()
    &&& img.has_image()
    &&& img.spec_sample_rate() == rate
    &&& img.spec_width() == IMAGE_WIDTH
    &&& img.spec_height() == IMAGE_HEIGHT
    &&& img.spec_y() == 0
    &&& img.spec_pixels() == Seq::new((3 * IMAGE_WIDTH * IMAGE_HEIGHT) as nat, |i: int| 0u8)
}

/// The Idle state as it is entered.
pub open spec fn fresh_idle(st: DecoderState, rate: int) -> bool {
    st matches DecoderState::Idle { header } && fresh_detector(header, spec_header_pulse(), rate)
}

/// The Vis state as it is entered.
pub open spec fn fresh_vis(st: DecoderState, rate: int) -> bool {
    st matches DecoderState::Vis { stop, bits } && fresh_detector(stop, spec_vis_stop_pulse(), rate)
        && bits@ == Seq::<bool>::empty()
}

/// The Decoding state as it is entered in `mode` at sample `n`.
pub open spec fn fresh_decoding(st: DecoderState, mode: SstvMode, n: int, rate: int) -> bool {
    &&& st matches DecoderState::Decoding { sync, last_sync, mode: m, img, row }
    &&& fresh_detector(sync, spec_sync_pulse(), rate)
    &&& last_sync == n
    &&& m == mode
    &&& fresh_image(img, rate)
    &&& row@ == Seq::<u32>::empty()
}

/// `e` ends a decode in `mode` with the pixels `pixels` of a
/// `IMAGE_WIDTH × IMAGE_HEIGHT` image.
pub open spec fn is_end(e: SstvEvent, mode: SstvMode, pixels: Seq<u8>) -> bool {
    e matches SstvEvent::End(m, image) && m == mode && image.data@ == pixels && image.width == IMAGE_WIDTH
        && image.height == IMAGE_HEIGHT
}

/// The invariant of a state at `rate` Hz after `sample` samples.
pub open spec fn state_well_formed(st: DecoderState, rate: int, sample: int) -> bool {
    match st {
        DecoderState::Idle { header } => header.well_formed() && header.spec_config() == spec_header_pulse(),
        DecoderState::Vis { stop, bits } => stop.well_formed() && stop.spec_config() == spec_vis_stop_pulse(),
        DecoderState::Decoding { sync, last_sync, mode, img, row } => {
            &&& sync.well_formed()
            &&& sync.spec_config() == spec_sync_pulse()
            &&& last_sync <= sample
            &&& img.well_formed()
            &&& img.has_image()
            &&& img.spec_sample_rate() == rate
            &&& img.spec_width() == IMAGE_WIDTH
            &&& img.spec_height() == IMAGE_HEIGHT
        },
    }
}

/// One step of the state machine: from `st`, the smoothed sample `f` (the
/// `n`-th) leads to `st2` and the events `ev`.
pub open spec fn step(st: DecoderState, st2: DecoderState, f: int, n: int, rate: int, ev: Seq<SstvEvent>) -> bool {
    match st {
        DecoderState::Idle { header } => {
            &&& ev == Seq::<SstvEvent>::empty()
            &&& if fires_after(header, f) {
                fresh_vis(st2, rate)
            } else {
                st2 matches DecoderState::Idle { header: h2 } && detector_stepped(header, h2, f)
            }
        },
        DecoderState::Vis { stop, bits } => {
            let bits2 = match vis_bit(f) {
                Some(b) => bits@.push(b),
                None => bits@,
            };
            if fires_after(stop, f) && bits2.len() > vis_samples(rate) / 2 {
                let mode = mode_of_vis(vis_code(bits2, rate) as u8);
                &&& ev == seq![SstvEvent::Start(mode)]
                &&& fresh_decoding(st2, mode, n, rate)
            } else {
                &&& ev == Seq::<SstvEvent>::empty()
                &&& st2 matches DecoderState::Vis { stop: s2, bits: b2 }
                &&& detector_stepped(stop, s2, f)
                &&& b2@ == bits2
            }
        },
        DecoderState::Decoding { sync, last_sync, mode, img, row } => {
            if n - last_sync > ABORT_TIMEOUT_SECS * rate {
                &&& ev.len() == 1
                &&& is_end(ev[0], mode, img.spec_pixels())
                &&& fresh_idle(st2, rate)
            } else if !fires_after(sync, f) {
                &&& ev == Seq::<SstvEvent>::empty()
                &&& st2 matches DecoderState::Decoding { sync: s2, last_sync: l2, mode: m2, img: i2, row: r2 }
                &&& detector_stepped(sync, s2, f)
                &&& l2 == last_sync
                &&& m2 == mode
                &&& i2 == img
                &&& r2@ == row@.push(row_level(f, row@))
            } else if row.len() <= rate / 10 {
                &&& ev == Seq::<SstvEvent>::empty()
                &&& st2 matches DecoderState::Decoding { sync: s2, last_sync: l2, mode: m2, img: i2, row: r2 }
                &&& detector_stepped(sync, s2, f)
                &&& l2 == n
                &&& m2 == mode
                &&& i2 == img
                &&& r2@ == row@
            } else {
                &&& ev.len() >= 1
                &&& ev[0] == SstvEvent::Progress(img.spec_y() as u32, img.spec_height() as u32)
                &&& if img.y_after_push(row@) == img.spec_height() {
                    &&& ev.len() == 2
                    &&& is_end(ev[1], mode, img.pixels_after_push(row@))
                    &&& fresh_idle(st2, rate)
                } else {
                    &&& ev.len() == 1
                    &&& st2 matches DecoderState::Decoding { sync: s2, last_sync: l2, mode: m2, img: i2, row: r2 }
                    &&& detector_stepped(sync, s2, f)
                    &&& l2 == n
                    &&& m2 == mode
                    &&& i2.well_formed()
                    &&& i2.has_image()
                    &&& i2.spec_sample_rate() == rate
                    &&& i2.spec_width() == IMAGE_WIDTH
                    &&& i2.spec_height() == IMAGE_HEIGHT
                    &&& i2.spec_y() == img.y_after_push(row@)
                    &&& i2.spec_pixels() == img.pixels_after_push(row@)
                    &&& r2@ == Seq::<u32>::empty()
                }
            }
        },
    }
}

impl DecoderState {
    /// The Idle state, with a fresh leader-tone detector.
    pub fn idle(sample_rate: u32) -> (r: DecoderState)
        requires
            sample_rate > MIN_SAMPLE_RATE,
        ensures
            fresh_idle(r, sample_rate as int),
    {
        DecoderState::Idle { header: PulseDetector::new(PulseDetectorConfig::header(), sample_rate) }
    }

    /// The Vis state, with a fresh stop-bit detector and no bits.
    pub fn vis(sample_rate: u32) -> (r: DecoderState)
        requires
            sample_rate > MIN_SAMPLE_RATE,
        ensures
            fresh_vis(r, sample_rate as int),
    {
        DecoderState::Vis { stop: PulseDetector::new(PulseDetectorConfig::vis_stop(), sample_rate), bits: Vec::new() }
    }

    /// The Decoding state for `mode`, entered at sample `sample`.
    pub fn decoding(mode: SstvMode, sample_rate: u32, sample: u64) -> (r: DecoderState)
        requires
            sample_rate > MIN_SAMPLE_RATE,
        ensures
            fresh_decoding(r, mode, sample as int, sample_rate as int),
    {
        DecoderState::Decoding {
            sync: PulseDetector::new(PulseDetectorConfig::sync(), sample_rate),
            last_sync: sample,
            mode,
            img: ImageBuilder::new(sample_rate, IMAGE_WIDTH, IMAGE_HEIGHT),
            row: Vec::new(),
        }
    }
}

/// The VIS bit a sample reads as, if any.
pub fn classify_vis_bit(f: i32) -> (r: Option<bool>)
    ensures
        r == vis_bit(f as int),
{
    let d0 = (f as i64 - VIS_ZERO_FREQ as i64);
    let d0 = if d0 >= 0 { d0 } else { -d0 };
    let d1 = (f as i64 - VIS_ONE_FREQ as i64);
    let d1 = if d1 >= 0 { d1 } else { -d1 };
    let nearest = if d0 < d1 { d0 } else { d1 };
    if nearest < VIS_TOLERANCE as i64 {
        Some(d1 < d0)
    } else {
        None
    }
}

/// The row level of a sample given the row so far.
pub fn level_of(f: i32, row: &Vec<u32>) -> (r: u32)
    ensures
        r == row_level(f as int, row@),
{
    if f > WHITE_FREQ || f < BLACK_FREQ - LEVEL_MAX as i32 {
        if row.len() > 0 {
            row[row.len() - 1]
        } else {
            0
        }
    } else if f < BLACK_FREQ {
        0
    } else {
        (f - BLACK_FREQ) as u32
    }
}

/// Reads the VIS code out of the collected bit samples: the first
/// `⌊0.21 · S⌋` of them in chunks of a seventh each, each chunk's majority
/// one bit, least significant first.
pub fn decode_vis(bits: &Vec<bool>, sample_rate: u32) -> (r: u8)
    requires
        sample_rate > MIN_SAMPLE_RATE,
    ensures
        r == vis_code(bits@, sample_rate as int),
{
    let total64 = (21 * (sample_rate as u64)) / 100;
    assert(total64 <= 1_000_000_000);
    let total = total64 as usize;
    let b = total / 7;
    let n = if total < bits.len() { total } else { bits.len() };
    let chunks = if (n + b - 1) / b < 7 { (n + b - 1) / b } else { 7 };
    let ghost nn = n as int;
    let mut v: u8 = 0;
    let mut k: usize = 0;
    while k < chunks
        invariant
            b >= 1,
            b == total / 7,
            total <= 1_000_000_000,
            n <= total,
            n <= bits.len(),
            nn == n,
            chunks == vis_chunk_count(n as int, b as int),
            k <= chunks,
            v < 128,
            v == vis_fold(bits@, b as int, n as int, k as nat),
        decreases chunks - k,
    {
        assert(k * b < n) by (nonlinear_arith)
            requires
                k < (n as int + b - 1) / (b as int),
                b >= 1,
        ;
        let lo = k * b;
        let hi = if lo + b < n { lo + b } else { n };
        assert((k + 1) * b == lo + b) by (nonlinear_arith)
            requires
                lo == k * b,
        ;
        let mut count: usize = 0;
        let mut i = lo;
        while i < hi
            invariant
                lo <= i <= hi,
                hi <= bits.len(),
                count == count_true(bits@.subrange(lo as int, i as int)),
                count <= i - lo,
            decreases hi - i,
        {
            proof {
                lemma_count_push(bits@.subrange(lo as int, i as int), bits@[i as int]);
                assert(bits@.subrange(lo as int, i + 1) =~= bits@.subrange(lo as int, i as int).push(bits@[i as int]));
            }
            if bits[i] {
                count = count + 1;
            }
            i = i + 1;
        }
        assert(bits@.subrange(lo as int, hi as int) == vis_chunk(bits@, b as int, n as int, k as int));
        let bit = 2 * count > hi - lo;
        v = v / 2 + if bit { 64 } else { 0 };
        k = k + 1;
    }
    v
}

/// The SSTV decoder: a smoothing chain and the state machine.
pub struct SstvDecoder {
    state: DecoderState,
    sample_rate: u32,
    sample: u64,
    smoother: Smoother,
}

impl SstvDecoder {
    /// The current state.
    pub closed spec fn spec_state(&self) -> DecoderState {
        self.state
    }

    /// The sample rate, in Hz.
    pub closed spec fn spec_sample_rate(&self) -> int {
        self.sample_rate as int
    }

    /// The number of samples seen.
    pub closed spec fn spec_sample(&self) -> int {
        self.sample as int
    }

    /// The smoothing chain.
    pub closed spec fn spec_smoother(&self) -> Smoother {
        self.smoother
    }

    /// The decoder's invariant.
    pub closed spec fn well_formed(&self) -> bool {
        &&& self.sample_rate > MIN_SAMPLE_RATE
        &&& self.smoother.well_formed()
        &&& state_well_formed(self.state, self.sample_rate as int, self.sample as int)
    }

    /// A decoder for samples taken at `sample_rate` Hz, idle, with no samples
    /// seen.
    pub fn new(sample_rate: u32) -> (r: SstvDecoder)
        requires
            sample_rate > MIN_SAMPLE_RATE,
        ensures
            r.well_formed(),
            r.spec_sample_rate() == sample_rate,
            r.spec_sample() == 0,
            fresh_idle(r.spec_state(), sample_rate as int),
            r.spec_smoother().spec_low_pass().spec_output() == 0,
            r.spec_smoother().spec_average().spec_window() == Seq::<i32>::empty(),
    {
        SstvDecoder {
            state: DecoderState::idle(sample_rate),
            sample_rate,
            sample: 0,
            smoother: Smoother::new(sample_rate),
        }
    }

    /// The number of samples seen.
    pub fn sample_count(&self) -> (r: u64)
        ensures
            r == self.spec_sample(),
    {
        self.sample
    }

    /// Feeds one frequency sample (millihertz) and returns the events it
    /// causes.
    pub fn freq(&mut self, freq: i32) -> (r: Vec<SstvEvent>)
        requires
            old(self).well_formed(),
            old(self).spec_sample() < u64::MAX,
        ensures
            final(self).well_formed(),
            final(self).spec_sample_rate() == old(self).spec_sample_rate(),
            final(self).spec_sample() == old(self).spec_sample() + 1,
            final(self).spec_smoother().spec_low_pass().spec_output() == crate::filters::lowpass_step(
                old(self).spec_smoother().spec_low_pass().spec_output(),
                freq as int,
                old(self).spec_smoother().spec_low_pass().spec_alpha(),
            ),
            final(self).spec_smoother().spec_low_pass().spec_alpha() == old(
                self,
            ).spec_smoother().spec_low_pass().spec_alpha(),
            final(self).spec_smoother().spec_average().spec_window() == last_n(
                old(self).spec_smoother().spec_average().spec_window().push(
                    final(self).spec_smoother().spec_low_pass().spec_output() as i32,
                ),
                crate::filters::AVG_TAPS as int,
            ),
            step(
                old(self).spec_state(),
                final(self).spec_state(),
                final(self).spec_smoother().spec_output(),
                final(self).spec_sample(),
                final(self).spec_sample_rate(),
                r@,
            ),
    {
        self.sample = self.sample + 1;
        let f = self.smoother.update(freq);
        let rate = self.sample_rate;
        let n = self.sample;
        let mut events: Vec<SstvEvent> = Vec::new();
        match &mut self.state {
            DecoderState::Idle { header } => {
                let fired = header.update(f);
                if fired {
                    self.state = DecoderState::vis(rate);
                }
            },
            DecoderState::Vis { stop, bits } => {
                if let Some(bit) = classify_vis_bit(f) {
                    bits.push(bit);
                }
                let fired = stop.update(f);
                let half = ((21 * (rate as u64)) / 100 / 2) as usize;
                if fired && bits.len() > half {
                    let code = decode_vis(bits, rate);
                    let mode = SstvMode::from_vis(code);
                    events.push(SstvEvent::Start(mode));
                    self.state = DecoderState::decoding(mode, rate, n);
                }
            },
            DecoderState::Decoding { sync, last_sync, mode, img, row } => {
                if n - *last_sync > ABORT_TIMEOUT_SECS * (rate as u64) {
                    let image = img.finish();
                    events.push(SstvEvent::End(*mode, image));
                    self.state = DecoderState::idle(rate);
                } else {
                    let fired = sync.update(f);
                    if !fired {
                        let v = level_of(f, row);
                        row.push(v);
                    } else {
                        *last_sync = n;
                        if row.len() > (rate / 10) as usize {
                            let (done, total) = img.progress();
                            events.push(SstvEvent::Progress(done, total));
                            img.push_row(row.as_slice());
                            row.clear();
                            if img.finished() {
                                let image = img.finish();
                                events.push(SstvEvent::End(*mode, image));
                                self.state = DecoderState::idle(rate);
                            }
                        }
                    }
                }
            },
        }
        events
    }
}

/// Events keep to decode cycles: `Start` comes only as the VIS code is read
/// and decoding begins; `Progress` and `End` come only while decoding, a
/// `Progress` reports the rows written so far (never more than the height) and
/// precedes an `End` of the same step; `End` always returns the decoder to
/// Idle; and while decoding goes on, the image cursor never moves back.
pub proof fn lemma_event_order(st: DecoderState, st2: DecoderState, f: int, n: int, rate: int, ev: Seq<SstvEvent>)
    requires
        state_well_formed(st, rate, n - 1),
        step(st, st2, f, n, rate, ev),
    ensures
        forall|i: int| 0 <= i < ev.len() && #[trigger] ev[i] is Start ==> st is Vis && st2 is Decoding,
        forall|i: int| 0 <= i < ev.len() && #[trigger] ev[i] is Progress ==> st is Decoding && i == 0,
        forall|i: int|
            0 <= i < ev.len() ==> (#[trigger] ev[i] matches SstvEvent::Progress(d, t) ==> d <= t
                && t == IMAGE_HEIGHT),
        forall|i: int| 0 <= i < ev.len() && #[trigger] ev[i] is End ==> st is Decoding && st2 is Idle,
        ev.len() <= 2,
        ev.len() == 2 ==> ev[0] is Progress && ev[1] is End,
        st is Decoding && st2 is Decoding ==> st->img.spec_y() <= st2->img.spec_y(),
{
    match st {
        DecoderState::Decoding { sync, last_sync, mode, img, row } => {
            lemma_progress_monotone(img, row@);
            lemma_builder_bounds(img);
        },
        _ => {},
    }
}

} // verus!
