use sstv::decode::{SstvDecoder, SstvEvent};
use sstv::modes::SstvMode;

const RATE: u32 = 44_100;

fn samples_for_ms(ms: u32) -> usize {
    (ms as usize) * (RATE as usize) / 1000
}

fn tone(out: &mut Vec<i32>, millihertz: i32, ms: u32) {
    for _ in 0..samples_for_ms(ms) {
        out.push(millihertz);
    }
}

fn header(out: &mut Vec<i32>) {
    tone(out, 1_900_000, 300);
    tone(out, 1_200_000, 10);
    tone(out, 1_900_000, 300);
    tone(out, 1_200_000, 30);
}

fn vis(out: &mut Vec<i32>, bits: &[bool]) {
    for &b in bits {
        tone(out, if b { 1_100_000 } else { 1_300_000 }, 30);
    }
    tone(out, 1_200_000, 30);
}

fn vis_bits(code: u8, count: usize) -> Vec<bool> {
    (0..count).map(|i| (code >> i) & 1 == 1).collect()
}

fn scanline(out: &mut Vec<i32>, content: i32) {
    tone(out, content, 476);
    tone(out, 1_200_000, 4);
}

fn run(samples: &[i32]) -> Vec<SstvEvent> {
    let mut decoder = SstvDecoder::new(RATE);
    let mut events = Vec::new();
    for &f in samples {
        events.extend(decoder.freq(f));
    }
    events
}

fn martin1_transmission(code: u8, bits: usize, rows: usize, content: &dyn Fn(usize, usize) -> i32) -> Vec<i32> {
    let mut s = Vec::new();
    header(&mut s);
    vis(&mut s, &vis_bits(code, bits));
    for r in 0..rows {
        let start = s.len();
        scanline(&mut s, 1_900_000);
        for (i, v) in s[start..start + samples_for_ms(476)].iter_mut().enumerate() {
            *v = content(r, i);
        }
    }
    s
}

fn check_progress(events: &[SstvEvent]) -> usize {
    let mut last = 0u32;
    let mut count = 0;
    for e in events {
        if let SstvEvent::Progress(done, total) = e {
            assert_eq!(*total, 256);
            assert!(*done <= *total);
            assert!(*done >= last);
            last = *done;
            count += 1;
        }
    }
    count
}

#[test]
fn silent_input_gives_no_events() {
    let samples = vec![0; samples_for_ms(10_000)];
    assert!(run(&samples).is_empty());
}

#[test]
fn leader_only_gives_no_events() {
    let mut s = Vec::new();
    tone(&mut s, 1_900_000, 1000);
    tone(&mut s, 0, 2000);
    assert!(run(&s).is_empty());
}

#[test]
fn full_martin1_decode() {
    let s = martin1_transmission(44, 7, 256, &|_, _| 1_900_000);
    let events = run(&s);
    assert!(matches!(events.first(), Some(SstvEvent::Start(SstvMode::Martin1))));
    let progress = check_progress(&events);
    assert!(progress >= 200, "only {} progress events", progress);
    match events.last() {
        Some(SstvEvent::End(SstvMode::Martin1, image)) => {
            assert_eq!(image.width, 320);
            assert_eq!(image.height, 256);
            assert_eq!(image.data.len(), 320 * 256 * 3);
            // mid-grey everywhere away from the row edges
            let mid = image.data[(100 * 320 + 160) * 3];
            assert!(mid == 127 || mid == 128, "pixel {}", mid);
        }
        other => panic!("no end event: {:?}", other.map(|_| ())),
    }
    let starts = events.iter().filter(|e| matches!(e, SstvEvent::Start(_))).count();
    let ends = events.iter().filter(|e| matches!(e, SstvEvent::End(_, _))).count();
    assert_eq!((starts, ends), (1, 1));
}

#[test]
fn abort_mid_decode_ends_with_partial_image() {
    let mut s = martin1_transmission(44, 7, 80, &|_, _| 2_300_000);
    tone(&mut s, 0, 4000);
    let events = run(&s);
    assert!(matches!(events.first(), Some(SstvEvent::Start(SstvMode::Martin1))));
    assert!(check_progress(&events) > 0);
    match events.last() {
        Some(SstvEvent::End(SstvMode::Martin1, image)) => {
            assert_eq!((image.width, image.height), (320, 256));
            let row_bytes = 320 * 3;
            assert!(image.data[..80 * row_bytes].iter().any(|&b| b > 200));
            assert!(image.data[80 * row_bytes..].iter().all(|&b| b == 0));
        }
        _ => panic!("no end event"),
    }
}

#[test]
fn unknown_vis_code_still_decodes() {
    // all eight bit tones high: the seven data bits read as 127
    let s = martin1_transmission(255, 8, 256, &|_, _| 1_900_000);
    let events = run(&s);
    assert!(matches!(events.first(), Some(SstvEvent::Start(SstvMode::Unknown(127)))));
    match events.last() {
        Some(SstvEvent::End(SstvMode::Unknown(127), image)) => {
            assert_eq!((image.width, image.height), (320, 256));
        }
        _ => panic!("no end event"),
    }
}

#[test]
fn noisy_pixels_barely_change_the_image() {
    let clean = run(&martin1_transmission(44, 7, 256, &|r, i| 1_500_000 + ((i * 800_000 / 20_991) as i32 + r as i32) % 800_000));
    let noisy = run(&martin1_transmission(44, 7, 256, &|r, i| {
        if (r * 20_991 + i) * 7919 % 100 == 0 {
            2_500_000
        } else {
            1_500_000 + ((i * 800_000 / 20_991) as i32 + r as i32) % 800_000
        }
    }));
    let image = |events: &[SstvEvent]| -> Vec<u8> {
        match events.last() {
            Some(SstvEvent::End(SstvMode::Martin1, image)) => image.data.clone(),
            _ => panic!("no end event"),
        }
    };
    check_progress(&noisy);
    let (a, b) = (image(&clean), image(&noisy));
    // a pixel differs when one of its channels is off by more than a tenth of full scale
    let differing = a
        .chunks(3)
        .zip(b.chunks(3))
        .filter(|(p, q)| p.iter().zip(q.iter()).any(|(x, y)| (*x as i32 - *y as i32).abs() > 25))
        .count();
    assert!(differing * 100 <= 320 * 256, "{} pixels differ", differing);
}
