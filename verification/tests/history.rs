use chaotic_ball::{History, Sample, GRAPH_SIZE};

fn numbered(n: u32) -> Sample {
    Sample { kinetic: n, potential: n + 1_000_000, mechanical: n + 2_000_000, frame_time: n + 3_000_000 }
}

fn filled(count: usize) -> History {
    let mut history = History::new();
    for n in 0..count {
        history.record(numbered(n as u32));
    }
    history
}

#[test]
fn history_starts_blank_at_slot_zero() {
    let history = History::new();
    assert_eq!(history.index(), 0);
    let blank = Sample { kinetic: 0, potential: 0, mechanical: 0, frame_time: 0 };
    let samples = history.samples();
    assert_eq!(samples.len(), GRAPH_SIZE);
    assert!(samples.iter().all(|s| *s == blank));
    assert_eq!(f32::from_bits(samples[17].kinetic), 0.0);
}

#[test]
fn capacity_is_three_hundred() {
    assert_eq!(GRAPH_SIZE, 300);
}

#[test]
fn record_writes_under_cursor_and_advances() {
    let mut history = History::new();
    history.record(numbered(7));
    assert_eq!(history.index(), 1);
    assert_eq!(history.sample(0), numbered(7));
    history.record(numbered(8));
    assert_eq!(history.index(), 2);
    assert_eq!(history.sample(0), numbered(7));
    assert_eq!(history.sample(1), numbered(8));
    assert_eq!(history.sample(2), Sample { kinetic: 0, potential: 0, mechanical: 0, frame_time: 0 });
}

#[test]
fn four_series_share_one_cursor() {
    let mut history = History::new();
    let sample = Sample {
        kinetic: 1.5f32.to_bits(),
        potential: 2.5f32.to_bits(),
        mechanical: 4.0f32.to_bits(),
        frame_time: 0.016f32.to_bits(),
    };
    history.record(sample);
    let stored = history.sample(0);
    assert_eq!(f32::from_bits(stored.kinetic), 1.5);
    assert_eq!(f32::from_bits(stored.potential), 2.5);
    assert_eq!(f32::from_bits(stored.mechanical), 4.0);
    assert_eq!(f32::from_bits(stored.frame_time), 0.016);
}

#[test]
fn cursor_wraps_to_zero_after_last_slot() {
    let history = filled(GRAPH_SIZE - 1);
    assert_eq!(history.index(), GRAPH_SIZE - 1);
    let history = filled(GRAPH_SIZE);
    assert_eq!(history.index(), 0);
    assert_eq!(history.sample(GRAPH_SIZE - 1), numbered(299));
}

#[test]
fn latest_index_precedes_cursor() {
    assert_eq!(History::new().latest_index(), GRAPH_SIZE - 1);
    assert_eq!(filled(1).latest_index(), 0);
    assert_eq!(filled(5).latest_index(), 4);
    assert_eq!(filled(GRAPH_SIZE).latest_index(), GRAPH_SIZE - 1);
    assert_eq!(filled(GRAPH_SIZE + 1).latest_index(), 0);
}

#[test]
fn latest_is_last_written_sample() {
    assert_eq!(filled(5).latest(), numbered(4));
    assert_eq!(filled(GRAPH_SIZE).latest(), numbered(299));
    assert_eq!(filled(GRAPH_SIZE + 3).latest(), numbered(302));
}

#[test]
fn oldest_sample_sits_under_cursor() {
    let history = filled(GRAPH_SIZE + 3);
    assert_eq!(history.index(), 3);
    assert_eq!(history.sample(history.index()), numbered(3));
    assert_eq!(history.chronological()[0], numbered(3));
}

#[test]
fn history_wraparound_keeps_most_recent_samples() {
    let k = 7;
    let history = filled(GRAPH_SIZE + k);
    assert_eq!(history.index(), k % GRAPH_SIZE);
    let retained = history.chronological();
    assert_eq!(retained.len(), GRAPH_SIZE);
    for (age, sample) in retained.iter().enumerate() {
        assert_eq!(*sample, numbered((k + age) as u32));
    }
    assert!(!history.samples().contains(&numbered(6)));
    assert!(history.samples().contains(&numbered(7)));
}

#[test]
fn history_wraparound_cursor_is_count_modulo_capacity() {
    for k in [1usize, 2, 299, 300, 301, 650] {
        let history = filled(GRAPH_SIZE + k);
        assert_eq!(history.index(), k % GRAPH_SIZE);
        assert_eq!(history.latest(), numbered((GRAPH_SIZE + k - 1) as u32));
        assert_eq!(history.chronological()[0], numbered(k as u32));
    }
}

#[test]
fn chronological_before_first_wrap_pads_with_blanks() {
    let history = filled(2);
    let retained = history.chronological();
    assert_eq!(retained.len(), GRAPH_SIZE);
    assert_eq!(retained[GRAPH_SIZE - 1], numbered(1));
    assert_eq!(retained[GRAPH_SIZE - 2], numbered(0));
    assert_eq!(retained[GRAPH_SIZE - 3], Sample { kinetic: 0, potential: 0, mechanical: 0, frame_time: 0 });
}

#[test]
fn samples_come_in_slot_order() {
    let history = filled(GRAPH_SIZE + 2);
    let samples = history.samples();
    assert_eq!(samples[0], numbered(300));
    assert_eq!(samples[1], numbered(301));
    assert_eq!(samples[2], numbered(2));
    assert_eq!(samples[299], numbered(299));
}

#[test]
fn segments_cover_every_pair_when_cursor_is_at_zero() {
    let history = filled(GRAPH_SIZE);
    let segments = history.segments();
    assert_eq!(segments.len(), GRAPH_SIZE - 1);
    for (k, segment) in segments.iter().enumerate() {
        assert_eq!(segment.slot, k);
    }
}

#[test]
fn segments_skip_the_pair_that_straddles_the_cursor() {
    let history = filled(GRAPH_SIZE + 5);
    assert_eq!(history.index(), 5);
    let segments = history.segments();
    assert_eq!(segments.len(), GRAPH_SIZE - 2);
    let slots: Vec<usize> = segments.iter().map(|s| s.slot).collect();
    let expected: Vec<usize> = (0..GRAPH_SIZE - 1).filter(|slot| slot + 1 != 5).collect();
    assert_eq!(slots, expected);
    assert!(!slots.contains(&4));
}

#[test]
fn segments_skip_first_pair_when_cursor_is_at_one() {
    let history = filled(1);
    let segments = history.segments();
    assert_eq!(segments.len(), GRAPH_SIZE - 2);
    assert_eq!(segments[0].slot, 1);
}

#[test]
fn segments_skip_last_pair_when_cursor_is_at_last_slot() {
    let history = filled(GRAPH_SIZE - 1);
    let segments = history.segments();
    assert_eq!(segments.len(), GRAPH_SIZE - 2);
    assert_eq!(segments[GRAPH_SIZE - 3].slot, GRAPH_SIZE - 3);
}

#[test]
fn segments_join_samples_of_neighbouring_slots() {
    let history = filled(GRAPH_SIZE + 5);
    for segment in history.segments() {
        assert_eq!(segment.from, history.sample(segment.slot));
        assert_eq!(segment.to, history.sample(segment.slot + 1));
    }
}

#[test]
fn segments_join_samples_consecutive_in_time() {
    let history = filled(GRAPH_SIZE + 5);
    for segment in history.segments() {
        assert_eq!(segment.to.kinetic, segment.from.kinetic + 1);
    }
}
