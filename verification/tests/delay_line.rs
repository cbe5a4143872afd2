use mooltitwap::delay::{next_power_of_two, DelayLine};

#[test]
fn next_power_of_two_matches_std() {
    for n in [0usize, 1, 2, 3, 4, 5, 7, 8, 9, 100, 1000, 192_000, 768_000, 1 << 20, (1 << 20) + 1] {
        assert_eq!(next_power_of_two(n), n.next_power_of_two());
    }
    assert_eq!(next_power_of_two(0), 1);
    assert_eq!(next_power_of_two(5), 8);
    assert_eq!(next_power_of_two(192_000), 262_144);
}

#[test]
fn capacity_is_next_power_of_two_at_least_two() {
    assert_eq!(DelayLine::new(0, 0.0f32).capacity(), 2);
    assert_eq!(DelayLine::new(1, 0.0f32).capacity(), 2);
    assert_eq!(DelayLine::new(2, 0.0f32).capacity(), 2);
    assert_eq!(DelayLine::new(3, 0.0f32).capacity(), 4);
    assert_eq!(DelayLine::new(4, 0.0f32).capacity(), 4);
    assert_eq!(DelayLine::new(5, 0.0f32).capacity(), 8);
    assert_eq!(DelayLine::new(192_000, 0.0f32).capacity(), 262_144);
}

#[test]
fn new_line_reads_silence() {
    let line = DelayLine::new(8, -1i32);
    for d in 0..8 {
        assert_eq!(line.read_neighbors(d), (-1, -1, -1, -1));
    }
}

#[test]
fn written_sample_returns_after_delay() {
    let mut line = DelayLine::new(8, 0i32);
    for x in 1..=5 {
        line.write(x);
    }
    // newest sample (5) is at delay 0, 4 at delay 1, ...
    assert_eq!(line.read_neighbors(0).1, 5);
    assert_eq!(line.read_neighbors(1).1, 4);
    assert_eq!(line.read_neighbors(4).1, 1);
    assert_eq!(line.read_neighbors(5).1, 0);
    // neighbours: delay d-1, d, d+1, d+2
    assert_eq!(line.read_neighbors(2), (4, 3, 2, 1));
    assert_eq!(line.read_neighbors(1), (5, 4, 3, 2));
}

#[test]
fn delays_wrap_modulo_capacity() {
    let mut line = DelayLine::new(4, 0i32);
    for x in 10..14 {
        line.write(x);
    }
    // history oldest first: 10, 11, 12, 13
    // d = 1 (the documented domain 1 <= d < capacity - 2): no wrap
    assert_eq!(line.read_neighbors(1), (13, 12, 11, 10));
    // d = 0: delay -1 wraps to the oldest sample (10)
    assert_eq!(line.read_neighbors(0), (10, 13, 12, 11));
    // d = 3 (capacity - 1): delays 4 and 5 wrap to the newest samples
    assert_eq!(line.read_neighbors(3), (11, 10, 13, 12));
}

#[test]
fn ring_overwrites_oldest_sample() {
    let mut line = DelayLine::new(2, 0u8);
    line.write(1);
    line.write(2);
    line.write(3);
    assert_eq!(line.read_neighbors(0).1, 3);
    assert_eq!(line.read_neighbors(1).1, 2);
}

#[test]
fn reset_silences_the_line() {
    let mut line = DelayLine::new(4, 0.0f32);
    for i in 0..7 {
        line.write(i as f32 + 0.5);
    }
    line.reset();
    for d in 0..4 {
        assert_eq!(line.read_neighbors(d), (0.0, 0.0, 0.0, 0.0));
    }
    line.write(2.5);
    assert_eq!(line.read_neighbors(0).1, 2.5);
    assert_eq!(line.read_neighbors(1).1, 0.0);
}

#[test]
fn float_samples_pass_through_unchanged() {
    let mut line = DelayLine::new(16, 0.0f32);
    let xs = [0.25f32, -1.5, 3.0e-7, 12345.678];
    for &x in xs.iter() {
        line.write(x);
    }
    for (k, &x) in xs.iter().enumerate() {
        assert_eq!(line.read_neighbors(xs.len() - 1 - k).1, x);
    }
}

fn cubic_hermite(y0: f32, y1: f32, y2: f32, y3: f32, t: f32) -> f32 {
    let c0 = y1;
    let c1 = 0.5 * (y2 - y0);
    let c2 = y0 - 2.5 * y1 + 2.0 * y2 - 0.5 * y3;
    let c3 = 0.5 * (y3 - y0) + 1.5 * (y1 - y2);
    ((c3 * t + c2) * t + c1) * t + c0
}

#[test]
fn neighbours_interpolate_toward_the_next_delay() {
    let mut line = DelayLine::new(16, 0.0f32);
    for x in 0..10 {
        line.write(x as f32);
    }
    // the sample at delay k is 9 - k; a fractional delay of 2.5 lies
    // between delays 2 and 3
    let (y0, y1, y2, y3) = line.read_neighbors(2);
    assert_eq!((y0, y1, y2, y3), (8.0, 7.0, 6.0, 5.0));
    assert_eq!(cubic_hermite(y0, y1, y2, y3, 0.5), 6.5);
    assert_eq!(cubic_hermite(y0, y1, y2, y3, 0.0), 7.0);
}
