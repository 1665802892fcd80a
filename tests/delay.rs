use ssstretch::dsp::delay::{Delay, MultiDelay};

fn impulse(len: usize) -> Vec<f32> {
    let mut v = vec![0.0f32; len];
    v[0] = 1.0;
    v
}

#[test]
fn integer_delay_reproduces_impulse() {
    for d in 0..7usize {
        let mut line: Delay<f32> = Delay::new(8, 0.0);
        let out: Vec<f32> = impulse(12)
            .into_iter()
            .map(|x| line.process(x, d).older)
            .collect();
        for (t, y) in out.iter().enumerate() {
            let expected = if t == d { 1.0 } else { 0.0 };
            assert_eq!(*y, expected, "delay {} output {}", d, t);
        }
    }
}

#[test]
fn half_sample_delay_splits_impulse() {
    // A delay of 2.5 samples reads at lag 3 with equal weights on both taps.
    let d = 2usize;
    let mut line: Delay<f32> = Delay::new(8, 0.0);
    let mut out = Vec::new();
    for x in impulse(10) {
        let taps = line.process(x, d + 1);
        out.push(0.5 * taps.older + 0.5 * taps.newer);
    }
    for (t, y) in out.iter().enumerate() {
        let expected = if t == d || t == d + 1 { 0.5 } else { 0.0 };
        assert_eq!(*y, expected, "output {}", t);
    }
}

#[test]
fn zero_lag_reads_back_the_input() {
    let mut line: Delay<f32> = Delay::new(4, 0.0);
    assert_eq!(line.process(0.25, 0).older, 0.25);
    assert_eq!(line.process(-3.0, 0).older, -3.0);
}

#[test]
fn taps_are_neighbouring_samples() {
    let mut line: Delay<i32> = Delay::new(5, 0);
    let mut last = None;
    for x in 1..=10 {
        last = Some(line.process(x, 3));
    }
    let taps = last.unwrap();
    assert_eq!(taps.older, 7);
    assert_eq!(taps.newer, 8);
}

#[test]
fn small_maximum_still_holds_one_sample_of_delay() {
    for max in [-5, 0, 1] {
        let mut line: Delay<i32> = Delay::new(max, 0);
        assert_eq!(line.process(4, 1).older, 0);
        assert_eq!(line.process(9, 1).older, 4);
        // The capacity is two: a lag of two wraps round to the newest sample.
        assert_eq!(line.process(6, 2).older, 6);
    }
}

#[test]
fn lag_beyond_capacity_wraps_around() {
    // Capacity four: lag five reads as lag one, lag four as lag zero.
    let mut line: Delay<i32> = Delay::new(3, 0);
    for x in [10, 20, 30] {
        line.process(x, 0);
    }
    assert_eq!(line.process(40, 5).older, 30);
    assert_eq!(line.process(50, 4).older, 50);
}

#[test]
fn newest_lag_wraps_newer_tap_to_oldest() {
    let mut line: Delay<i32> = Delay::new(2, 0);
    for x in [1, 2] {
        line.process(x, 0);
    }
    let taps = line.process(3, 0);
    assert_eq!(taps.older, 3);
    assert_eq!(taps.newer, 1);
}

#[test]
fn multi_delay_channels_are_independent() {
    let mut lines: MultiDelay<f32> = MultiDelay::new(2, 8, 0.0);
    assert_eq!(lines.channels(), 2);
    let left = [1.0f32, 2.0, 3.0, 4.0, 5.0, 6.0];
    let right = [-1.0f32, 0.0, 0.0, 0.0, 0.0, 0.0];
    let d = 3usize;
    for t in 0..left.len() {
        let taps = lines.process(&[left[t], right[t]], d);
        assert_eq!(taps.len(), 2);
        let (want_left, want_right) = if t >= d { (left[t - d], right[t - d]) } else { (0.0, 0.0) };
        assert_eq!(taps[0].older, want_left, "left at {}", t);
        assert_eq!(taps[1].older, want_right, "right at {}", t);
    }
}

#[test]
fn multi_delay_matches_single_lines() {
    let mut lines: MultiDelay<i32> = MultiDelay::new(3, 4, 0);
    let mut singles: Vec<Delay<i32>> = (0..3).map(|_| Delay::new(4, 0)).collect();
    for t in 0..9 {
        let frame = [t, 100 + t * t, -t];
        let lag = (t as usize * 2) % 6;
        let taps = lines.process(&frame, lag);
        for c in 0..3 {
            let single = singles[c].process(frame[c], lag);
            assert_eq!(taps[c].older, single.older);
            assert_eq!(taps[c].newer, single.newer);
        }
    }
}

#[test]
fn multi_delay_with_no_channels() {
    let mut lines: MultiDelay<f32> = MultiDelay::new(0, 4, 0.0);
    assert_eq!(lines.channels(), 0);
    assert!(lines.process(&[], 1).is_empty());
}
