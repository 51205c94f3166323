use sstv::decode::{classify_vis_bit, decode_vis, level_of, DecoderState, SstvDecoder, SstvEvent};
use sstv::filters::{LowPassFilter, MovingAverageFilter, Smoother};
use sstv::framer::Framer;
use sstv::gallery::Pagination;
use sstv::image::ImageBuilder;
use sstv::modes::SstvMode;
use sstv::pulse::{PulseDetector, PulseDetectorConfig};

const NAMED: [SstvMode; 7] = [
    SstvMode::Martin1,
    SstvMode::Martin2,
    SstvMode::Scottie1,
    SstvMode::Scottie2,
    SstvMode::ScottieDX,
    SstvMode::Robot36,
    SstvMode::Robot72,
];

#[test]
fn vis_round_trip_for_named_modes() {
    for m in NAMED {
        assert_eq!(SstvMode::from_vis(m.to_vis()), m);
    }
}

#[test]
fn vis_table_values() {
    let codes: Vec<u8> = NAMED.iter().map(|m| m.to_vis()).collect();
    assert_eq!(codes, vec![44, 40, 60, 56, 76, 8, 12]);
    assert_eq!(SstvMode::from_vis(45), SstvMode::Unknown(45));
    assert_eq!(SstvMode::Unknown(9).to_vis(), 0);
}

#[test]
fn mode_names() {
    assert_eq!(SstvMode::Martin1.name(), "Martin 1");
    assert_eq!(SstvMode::ScottieDX.name(), "Scottie DX");
    assert_eq!(SstvMode::Robot72.name(), "Robot 72");
    assert_eq!(SstvMode::Unknown(3).name(), "Unknown");
}

#[test]
fn martin1_resolution() {
    assert_eq!(SstvMode::Martin1.config().resolution(), (320, 256));
}

#[test]
fn moving_average_steady_state() {
    let mut f = MovingAverageFilter::new(32);
    let mut out = 0;
    for _ in 0..32 {
        out = f.update(-1_234_567);
    }
    assert_eq!(out, -1_234_567);
    for _ in 0..100 {
        assert_eq!(f.update(-1_234_567), -1_234_567);
    }
}

#[test]
fn moving_average_drops_oldest() {
    let mut f = MovingAverageFilter::new(2);
    assert_eq!(f.update(10), 5);
    assert_eq!(f.update(20), 15);
    assert_eq!(f.update(30), 25);
    assert_eq!(f.update(-31), 0);
    assert_eq!(f.update(-30), -30);
}

#[test]
fn low_pass_first_step() {
    let mut f = LowPassFilter::new(2300, 44_100);
    // alpha = 65536 · 710 · 2300 / (710 · 2300 + 113 · 44100) = 16175
    assert_eq!(f.update(1_000_000), 246_810);
    let mut g = LowPassFilter::new(2300, 44_100);
    assert_eq!(g.update(-1_000_000), -246_810);
}

#[test]
fn low_pass_settles_near_a_constant() {
    let mut f = LowPassFilter::new(2300, 44_100);
    let mut y = 0;
    for _ in 0..1000 {
        y = f.update(1_900_000);
    }
    assert!((1_900_000 - y).abs() <= 5, "settled at {}", y);
}

#[test]
fn smoother_converges_to_constant_input() {
    let mut s = Smoother::new(44_100);
    let mut out = 0;
    for _ in 0..2000 {
        out = s.update(1_200_000);
    }
    assert!((1_200_000 - out).abs() <= 5, "settled at {}", out);
}

fn detector_capacity(cfg: PulseDetectorConfig, rate: u32) -> usize {
    cfg.duration as usize * rate as usize / 1000
}

#[test]
fn pulse_detector_saturates_both_ways() {
    for cfg in [PulseDetectorConfig::header(), PulseDetectorConfig::vis_stop(), PulseDetectorConfig::sync()] {
        let mut d = PulseDetector::new(cfg, 44_100);
        let n = detector_capacity(cfg, 44_100);
        let mut fired = false;
        for _ in 0..n {
            fired = d.update(cfg.freq + cfg.range - 1);
        }
        assert!(fired);
        for _ in 0..n {
            fired = d.update(cfg.freq + cfg.range);
        }
        assert!(!fired);
    }
}

#[test]
fn header_needs_45_percent_of_a_full_window() {
    let cfg = PulseDetectorConfig::header();
    let mut d = PulseDetector::new(cfg, 44_100);
    let n = detector_capacity(cfg, 44_100);
    assert_eq!(n, 26_460);
    for _ in 0..n {
        assert!(!d.update(0));
    }
    let mut first = None;
    for i in 1..=n {
        if d.update(1_900_000) {
            first = Some(i);
            break;
        }
    }
    // 45 % of 26460 samples is 11907 samples, 0.27 s at 44.1 kHz
    assert_eq!(first, Some(11_907));
}

#[test]
fn fresh_detector_fires_on_its_first_in_band_sample() {
    let mut d = PulseDetector::new(PulseDetectorConfig::header(), 44_100);
    assert!(d.update(1_900_000));
}

#[test]
fn vis_bit_classification() {
    assert_eq!(classify_vis_bit(1_100_000), Some(true));
    assert_eq!(classify_vis_bit(1_300_000), Some(false));
    assert_eq!(classify_vis_bit(1_149_999), Some(true));
    assert_eq!(classify_vis_bit(1_250_001), Some(false));
    assert_eq!(classify_vis_bit(1_200_000), None);
    assert_eq!(classify_vis_bit(1_900_000), None);
}

#[test]
fn row_levels() {
    let empty = Vec::new();
    assert_eq!(level_of(1_500_000, &empty), 0);
    assert_eq!(level_of(2_300_000, &empty), 800_000);
    assert_eq!(level_of(1_900_000, &empty), 400_000);
    assert_eq!(level_of(1_000_000, &empty), 0);
    assert_eq!(level_of(2_300_001, &empty), 0);
    let row = vec![5, 123_456];
    assert_eq!(level_of(2_500_000, &row), 123_456);
    assert_eq!(level_of(600_000, &row), 123_456);
    assert_eq!(level_of(700_000, &row), 0);
}

#[test]
fn vis_decoding_least_significant_bit_first() {
    let chunk = 9261 / 7;
    let mut bits = Vec::new();
    for i in 0..7 {
        for _ in 0..chunk {
            bits.push((44u8 >> i) & 1 == 1);
        }
    }
    assert_eq!(decode_vis(&bits, 44_100), 44);
    let ones = vec![true; 10_000];
    assert_eq!(decode_vis(&ones, 44_100), 127);
}

#[test]
fn vis_decoding_with_few_bits() {
    // two chunks of ones only: the two bits land at the top
    let bits = vec![true; 2 * 1323];
    assert_eq!(decode_vis(&bits, 44_100), 0b110_0000);
}

fn push_constant_row(level: u32) -> Vec<u8> {
    let mut b = ImageBuilder::new(44_100, 320, 2);
    let row = vec![level; 21_168];
    b.push_row(&row);
    assert_eq!(b.progress(), (1, 2));
    b.finish().data[..320 * 3].to_vec()
}

#[test]
fn pixel_values_at_black_grey_white() {
    assert!(push_constant_row(0).iter().all(|&p| p == 0));
    assert!(push_constant_row(800_000).iter().all(|&p| p == 255));
    assert!(push_constant_row(400_000).iter().all(|&p| p == 127 || p == 128));
}

#[test]
fn pixel_channels_come_from_green_blue_red_segments() {
    let mut b = ImageBuilder::new(44_100, 4, 1);
    let mut row = vec![0u32; 21_168];
    for (i, v) in row.iter_mut().enumerate() {
        *v = match i * 3 / 21_168 {
            0 => 100_000,
            1 => 400_000,
            _ => 800_000,
        };
    }
    b.push_row(&row);
    let img = b.finish();
    // pixel 1: green from the first third, blue from the second, red from the last
    assert_eq!(&img.data[3..6], &[255, 31, 127]);
}

#[test]
fn image_builder_rows_and_progress() {
    let mut b = ImageBuilder::new(44_100, 8, 3);
    assert_eq!(b.progress(), (0, 3));
    assert!(!b.finished());
    // too short for a row
    b.push_row(&vec![800_000; 5_000]);
    assert_eq!(b.progress(), (0, 3));
    // two rows glued together
    b.push_row(&vec![800_000; 42_336]);
    assert_eq!(b.progress(), (2, 3));
    assert!(!b.finished());
    // two more rows, of which one fits
    b.push_row(&vec![400_000; 42_336]);
    assert_eq!(b.progress(), (3, 3));
    assert!(b.finished());
    b.push_row(&vec![0; 21_168]);
    assert_eq!(b.progress(), (3, 3));
    let img = b.finish();
    assert_eq!(img.data.len(), 8 * 3 * 3);
    assert!(img.data[..48].iter().all(|&p| p == 255));
    assert!(img.data[48..].iter().all(|&p| p == 127));
}

#[test]
fn framer_hands_out_full_frames_in_order() {
    let mut f: Framer<i32> = Framer::new(4);
    f.push(&[1, 2, 3]);
    assert_eq!(f.next_frame(), None);
    f.push(&[4, 5, 6, 7, 8, 9]);
    assert_eq!(f.next_frame(), Some(vec![1, 2, 3, 4]));
    assert_eq!(f.next_frame(), Some(vec![5, 6, 7, 8]));
    assert_eq!(f.next_frame(), None);
    f.push(&[10, 11, 12]);
    assert_eq!(f.next_frame(), Some(vec![9, 10, 11, 12]));
}

#[test]
fn pagination_cutoff() {
    assert_eq!(Pagination { before: None, limit: 10 }.before_timestamp(), i64::MAX as u64);
    assert_eq!(Pagination { before: Some(1_700_000_000), limit: 10 }.before_timestamp(), 1_700_000_000);
}

#[test]
fn decoder_counts_samples() {
    let mut d = SstvDecoder::new(8_000);
    for _ in 0..10 {
        assert!(d.freq(0).is_empty());
    }
    assert_eq!(d.sample_count(), 10);
}

#[test]
fn decoder_states_start_fresh() {
    assert!(matches!(DecoderState::idle(44_100), DecoderState::Idle { .. }));
    assert!(matches!(DecoderState::vis(44_100), DecoderState::Vis { .. }));
    match DecoderState::decoding(SstvMode::Martin2, 44_100, 7) {
        DecoderState::Decoding { last_sync, mode, row, img, .. } => {
            assert_eq!((last_sync, mode, row.len()), (7, SstvMode::Martin2, 0));
            assert_eq!(img.progress(), (0, 256));
        }
        _ => panic!("not decoding"),
    }
}

#[test]
fn progress_event_reports_rows_before_the_push() {
    let mut d = SstvDecoder::new(44_100);
    let mut events = Vec::new();
    let mut feed = |f: i32, n: usize, events: &mut Vec<SstvEvent>| {
        for _ in 0..n {
            events.extend(d.freq(f));
        }
    };
    feed(1_900_000, 13_230, &mut events);
    feed(1_200_000, 1_323, &mut events);
    for b in [false, false, true, true, false, true, false] {
        feed(if b { 1_100_000 } else { 1_300_000 }, 1_323, &mut events);
    }
    feed(1_200_000, 1_323, &mut events);
    feed(1_900_000, 20_992, &mut events);
    feed(1_200_000, 176, &mut events);
    assert!(matches!(events[0], SstvEvent::Start(SstvMode::Martin1)));
    assert!(matches!(events[1], SstvEvent::Progress(0, 256)));
    assert_eq!(events.len(), 2);
}
