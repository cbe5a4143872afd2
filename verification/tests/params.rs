use mooltitwap::params::{snap_to_div, stem_labels, sync_div, time_knob_names, ChannelMode, NUM_SYNC_DIVS};

#[test]
fn sync_table_entries() {
    assert_eq!(sync_div(0), (1, 32, "1/32"));
    assert_eq!(sync_div(1), (1, 24, "1/16T"));
    assert_eq!(sync_div(3), (1, 12, "1/8T"));
    assert_eq!(sync_div(4), (3, 32, "1/16."));
    assert_eq!(sync_div(6), (1, 6, "1/4T"));
    assert_eq!(sync_div(7), (3, 16, "1/8."));
    assert_eq!(sync_div(9), (1, 3, "1/2T"));
    assert_eq!(sync_div(10), (3, 8, "1/4."));
    assert_eq!(sync_div(8), (1, 4, "1/4"));
    assert_eq!(sync_div(13), (1, 1, "1/1"));
    assert_eq!(sync_div(15), (2, 1, "2/1"));
}

#[test]
fn sync_table_beats_match_float_table() {
    let expected: [f32; 16] = [
        1.0 / 32.0, 1.0 / 24.0, 1.0 / 16.0, 1.0 / 12.0, 1.0 / 16.0 * 1.5, 1.0 / 8.0,
        1.0 / 6.0, 1.0 / 8.0 * 1.5, 1.0 / 4.0, 1.0 / 3.0, 1.0 / 4.0 * 1.5, 1.0 / 2.0,
        1.0 / 2.0 * 1.5, 1.0, 1.5, 2.0,
    ];
    for i in 0..NUM_SYNC_DIVS {
        let (n, d, _) = sync_div(i);
        assert_eq!(n as f32 / d as f32, expected[i]);
    }
}

#[test]
fn snap_clamps_to_last_division() {
    assert_eq!(snap_to_div(0), (1, 32, "1/32"));
    assert_eq!(snap_to_div(3), (1, 12, "1/8T"));
    assert_eq!(snap_to_div(4), (3, 32, "1/16."));
    assert_eq!(snap_to_div(15), (2, 1, "2/1"));
    assert_eq!(snap_to_div(16), (2, 1, "2/1"));
    assert_eq!(snap_to_div(usize::MAX), (2, 1, "2/1"));
}

#[test]
fn sync_table_is_sorted_shortest_to_longest() {
    for i in 0..NUM_SYNC_DIVS {
        for j in (i + 1)..NUM_SYNC_DIVS {
            let (a, b, _) = sync_div(i);
            let (c, d, _) = sync_div(j);
            assert!(a * d < c * b, "pair {} {}", i, j);
        }
    }
}

#[test]
fn snapped_length_never_falls_as_position_rises() {
    let beats = |raw: usize| {
        let (n, d, _) = snap_to_div(raw);
        n as f64 / d as f64
    };
    for raw in 0..20usize {
        assert!(beats(raw) <= beats(raw + 1), "position {}", raw);
    }
}

#[test]
fn stem_labels_per_mode() {
    assert_eq!(stem_labels(ChannelMode::Stereo), ("L", "R"));
    assert_eq!(stem_labels(ChannelMode::MidSide), ("M", "S"));
    assert_eq!(stem_labels(ChannelMode::Mono), ("M", "M"));
}

#[test]
fn time_knob_names_per_mode() {
    assert_eq!(time_knob_names(ChannelMode::Stereo), ("TIME L", "TIME R"));
    assert_eq!(time_knob_names(ChannelMode::MidSide), ("TIME M", "TIME S"));
    assert_eq!(time_knob_names(ChannelMode::Mono), ("TIME L", "TIME R"));
}
