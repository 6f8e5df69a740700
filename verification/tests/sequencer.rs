use std::collections::HashSet;
use thermite::sequencer::{
    draw_seed, offset_of_block, offset_reverse, offset_sequential, AddressSequencer, IoMode,
    SequencerError,
};

fn collect_offsets(s: &mut AddressSequencer, at_most: usize) -> Vec<u64> {
    let mut offsets = Vec::new();
    while offsets.len() < at_most {
        match s.next() {
            Some(o) => offsets.push(o),
            None => break,
        }
        assert!(s.advance());
    }
    offsets
}

#[test]
fn sequential_offsets_follow_the_formula() {
    assert_eq!(offset_sequential(512, 0, 4, 0), Some(0));
    assert_eq!(offset_sequential(512, 0, 4, 3), Some(1536));
    assert_eq!(offset_sequential(512, 0, 4, 4), Some(2048));
    assert_eq!(offset_sequential(512, 0, 4, 5), None);
    assert_eq!(offset_sequential(4096, 10, 20, 2), Some(12 * 4096));
    assert_eq!(offset_sequential(4096, 10, 20, 10), Some(20 * 4096));
    assert_eq!(offset_sequential(4096, 10, 20, 11), None);
    assert_eq!(offset_sequential(512, 0, 4, u64::MAX), None);
    assert_eq!(offset_sequential(512, 5, 4, 0), None);
    assert_eq!(offset_sequential(1, 0, u64::MAX, u64::MAX), Some(u64::MAX));
}

#[test]
fn reverse_offsets_follow_the_formula() {
    assert_eq!(offset_reverse(512, 0, 4, 0), Some(1536));
    assert_eq!(offset_reverse(512, 0, 4, 1), Some(1024));
    assert_eq!(offset_reverse(512, 0, 4, 2), Some(512));
    assert_eq!(offset_reverse(512, 0, 4, 3), None);
    assert_eq!(offset_reverse(512, 0, 4, 4), None);
    assert_eq!(offset_reverse(512, 0, 4, u64::MAX), None);
    assert_eq!(offset_reverse(512, 0, 0, 0), None);
    assert_eq!(offset_reverse(4096, 10, 20, 0), Some(19 * 4096));
    assert_eq!(offset_reverse(4096, 10, 20, 8), Some(11 * 4096));
    assert_eq!(offset_reverse(4096, 10, 20, 9), None);
    assert_eq!(offset_reverse(1, 0, u64::MAX, 0), Some(u64::MAX - 1));
}

#[test]
fn the_offset_of_a_block_is_its_number_times_the_block_size() {
    assert_eq!(offset_of_block(512, 0), 0);
    assert_eq!(offset_of_block(512, 3), 1536);
    assert_eq!(offset_of_block(1 << 20, 1 << 20), 1 << 40);
}

#[test]
fn sequential_mode_writes_rising_offsets_up_to_the_end_block() {
    let mut s = AddressSequencer::new(IoMode::Sequential, 512, 0, 4, 0, 0).unwrap();
    let offsets = collect_offsets(&mut s, 100);
    assert_eq!(&offsets[..4], &[0, 512, 1024, 1536]);
    assert_eq!(offsets, vec![0, 512, 1024, 1536, 2048]);
    assert_eq!(s.next(), None);
    assert_eq!(s.next(), None);
}

#[test]
fn reverse_mode_writes_falling_offsets_down_to_above_the_start_block() {
    let mut s = AddressSequencer::new(IoMode::SequentialReverse, 512, 0, 4, 0, 0).unwrap();
    let offsets = collect_offsets(&mut s, 100);
    assert_eq!(offsets, vec![1536, 1024, 512]);
    assert_eq!(s.next(), None);
}

#[test]
fn a_skip_interval_passes_over_blocks() {
    let mut s = AddressSequencer::new(IoMode::Sequential, 512, 0, 8, 2, 0).unwrap();
    assert_eq!(collect_offsets(&mut s, 100), vec![0, 1536, 3072]);
    let mut s = AddressSequencer::new(IoMode::SequentialReverse, 512, 0, 8, 1, 0).unwrap();
    assert_eq!(collect_offsets(&mut s, 100), vec![3584, 2560, 1536, 512]);
}

#[test]
fn the_counter_grows_by_one_plus_the_skip_interval() {
    let mut s = AddressSequencer::new(IoMode::Sequential, 512, 0, 100, 3, 0).unwrap();
    assert_eq!(s.iteration(), 0);
    assert!(s.advance());
    assert_eq!(s.iteration(), 4);
    assert!(s.advance());
    assert_eq!(s.iteration(), 8);
}

#[test]
fn the_counter_stays_where_it_cannot_grow() {
    let mut s = AddressSequencer::new(IoMode::Random, 512, 0, 100, u64::MAX, 0).unwrap();
    assert!(!s.advance());
    assert_eq!(s.iteration(), 0);
    let mut s = AddressSequencer::new(IoMode::Random, 512, 0, 100, u64::MAX - 1, 0).unwrap();
    assert!(s.advance());
    assert_eq!(s.iteration(), u64::MAX);
    assert!(!s.advance());
    assert_eq!(s.iteration(), u64::MAX);
}

#[test]
fn the_sequencer_reports_its_parts() {
    let s = AddressSequencer::new(IoMode::SequentialReverse, 1024, 3, 9, 2, 0).unwrap();
    assert_eq!(s.mode(), IoMode::SequentialReverse);
    assert_eq!(s.block_size(), 1024);
    assert_eq!(s.start_block(), 3);
    assert_eq!(s.end_block(), 9);
    assert_eq!(s.skip(), 2);
    assert_eq!(s.iteration(), 0);
}

#[test]
fn full_period_mode_writes_every_block_once() {
    let mut s = AddressSequencer::new(IoMode::FullPeriodRandom, 512, 0, 7, 0, 12345).unwrap();
    let offsets = collect_offsets(&mut s, 100);
    assert_eq!(offsets.len(), 7);
    let blocks: HashSet<u64> = offsets.iter().map(|o| o / 512).collect();
    assert_eq!(blocks.len(), 7);
    for o in &offsets {
        assert_eq!(o % 512, 0);
        assert!(o / 512 < 7);
    }
    for b in 0..7u64 {
        assert!(blocks.contains(&b));
    }
    assert_eq!(s.next(), None);
}

#[test]
fn full_period_mode_starts_at_the_start_block() {
    for seed in 0..20u64 {
        let mut s = AddressSequencer::new(IoMode::FullPeriodRandom, 4096, 3, 10, 0, seed).unwrap();
        let offsets = collect_offsets(&mut s, 100);
        let mut blocks: Vec<u64> = offsets.iter().map(|o| o / 4096).collect();
        blocks.sort();
        assert_eq!(blocks, vec![3, 4, 5, 6, 7, 8, 9]);
        assert_eq!(s.next(), None);
    }
}

#[test]
fn full_period_mode_over_many_ranges() {
    for len in 0..70u64 {
        let mut s =
            AddressSequencer::new(IoMode::FullPeriodRandom, 512, 5, 5 + len, 0, len * 31).unwrap();
        let offsets = collect_offsets(&mut s, 1000);
        assert_eq!(offsets.len() as u64, len);
        let blocks: HashSet<u64> = offsets.iter().map(|o| o / 512).collect();
        assert_eq!(blocks.len() as u64, len);
        assert!(blocks.iter().all(|b| 5 <= *b && *b < 5 + len));
    }
}

#[test]
fn full_period_mode_with_a_skip_interval_stops_once_the_counter_reaches_the_range() {
    let mut s = AddressSequencer::new(IoMode::FullPeriodRandom, 512, 0, 7, 1, 3).unwrap();
    let offsets = collect_offsets(&mut s, 100);
    assert_eq!(offsets.len(), 4);
    let blocks: HashSet<u64> = offsets.iter().map(|o| o / 512).collect();
    assert_eq!(blocks.len(), 4);
    assert_eq!(s.iteration(), 8);
    assert_eq!(s.next(), None);
}

#[test]
fn full_period_mode_depends_on_the_seed_alone() {
    let mut a = AddressSequencer::new(IoMode::FullPeriodRandom, 512, 0, 100, 0, 42).unwrap();
    let mut b = AddressSequencer::new(IoMode::FullPeriodRandom, 512, 0, 100, 0, 42).unwrap();
    assert_eq!(collect_offsets(&mut a, 1000), collect_offsets(&mut b, 1000));
}

#[test]
fn random_mode_draws_blocks_of_the_range_and_never_stops() {
    let mut s = AddressSequencer::new(IoMode::Random, 512, 10, 20, 0, 0).unwrap();
    let offsets = collect_offsets(&mut s, 2000);
    assert_eq!(offsets.len(), 2000);
    for o in &offsets {
        assert_eq!(o % 512, 0);
        assert!(10 <= o / 512 && o / 512 < 20);
    }
    let blocks: HashSet<u64> = offsets.iter().map(|o| o / 512).collect();
    assert!(blocks.len() > 1);
}

#[test]
fn random_mode_over_one_block_writes_that_block() {
    let mut s = AddressSequencer::new(IoMode::Random, 4096, 5, 6, 0, 0).unwrap();
    for _ in 0..100 {
        assert_eq!(s.next(), Some(5 * 4096));
        assert!(s.advance());
    }
}

#[test]
fn a_block_size_that_is_no_power_of_two_is_refused() {
    for mode in [
        IoMode::Sequential,
        IoMode::SequentialReverse,
        IoMode::Random,
        IoMode::FullPeriodRandom,
    ] {
        assert_eq!(
            AddressSequencer::new(mode, 768, 0, 4, 0, 0).err(),
            Some(SequencerError::BlockSizeNotPowerOfTwo)
        );
        assert_eq!(
            AddressSequencer::new(mode, 0, 0, 4, 0, 0).err(),
            Some(SequencerError::BlockSizeNotPowerOfTwo)
        );
    }
}

#[test]
fn an_end_before_the_start_is_refused() {
    assert_eq!(
        AddressSequencer::new(IoMode::Sequential, 512, 5, 4, 0, 0).err(),
        Some(SequencerError::EndBeforeStart)
    );
    assert!(AddressSequencer::new(IoMode::Sequential, 512, 4, 4, 0, 0).is_ok());
}

#[test]
fn a_range_beyond_64_bit_offsets_is_refused() {
    assert_eq!(
        AddressSequencer::new(IoMode::Sequential, 512, 0, u64::MAX / 512 + 1, 0, 0).err(),
        Some(SequencerError::OffsetOverflow)
    );
    assert!(AddressSequencer::new(IoMode::Sequential, 512, 0, u64::MAX / 512, 0, 0).is_ok());
}

#[test]
fn random_mode_over_an_empty_range_is_refused() {
    assert_eq!(
        AddressSequencer::new(IoMode::Random, 512, 4, 4, 0, 0).err(),
        Some(SequencerError::EmptyRandomRange)
    );
    assert!(AddressSequencer::new(IoMode::FullPeriodRandom, 512, 4, 4, 0, 0).is_ok());
}

#[test]
fn full_period_mode_over_too_many_blocks_is_refused() {
    assert_eq!(
        AddressSequencer::new(IoMode::FullPeriodRandom, 1, 0, (1 << 63) + 1, 0, 0).err(),
        Some(SequencerError::RangeTooLarge)
    );
    assert!(AddressSequencer::new(IoMode::FullPeriodRandom, 1, 0, 1 << 63, 0, 0).is_ok());
    assert!(AddressSequencer::new(IoMode::Sequential, 1, 0, (1 << 63) + 1, 0, 0).is_ok());
}

#[test]
fn the_first_fault_is_reported() {
    assert_eq!(
        AddressSequencer::new(IoMode::Random, 768, 5, 4, 0, 0).err(),
        Some(SequencerError::BlockSizeNotPowerOfTwo)
    );
    assert_eq!(
        AddressSequencer::new(IoMode::Random, 512, 5, 4, 0, 0).err(),
        Some(SequencerError::EndBeforeStart)
    );
}

#[test]
fn empty_ranges_end_at_once_or_after_one_block() {
    let mut s = AddressSequencer::new(IoMode::Sequential, 512, 4, 4, 0, 0).unwrap();
    assert_eq!(collect_offsets(&mut s, 10), vec![2048]);
    let mut s = AddressSequencer::new(IoMode::SequentialReverse, 512, 4, 4, 0, 0).unwrap();
    assert_eq!(collect_offsets(&mut s, 10), Vec::<u64>::new());
    let mut s = AddressSequencer::new(IoMode::FullPeriodRandom, 512, 4, 4, 0, 0).unwrap();
    assert_eq!(collect_offsets(&mut s, 10), Vec::<u64>::new());
}

#[test]
fn a_drawn_seed_lies_below_the_modulus() {
    for _ in 0..200 {
        assert!(draw_seed(IoMode::FullPeriodRandom, 0, 7) < 8);
        assert!(draw_seed(IoMode::FullPeriodRandom, 10, 11) < 1);
        assert_eq!(draw_seed(IoMode::FullPeriodRandom, 3, 3), 0);
        assert_eq!(draw_seed(IoMode::Sequential, 0, 7), 0);
        assert_eq!(draw_seed(IoMode::FullPeriodRandom, 7, 0), 0);
        assert_eq!(draw_seed(IoMode::FullPeriodRandom, 0, u64::MAX), 0);
    }
}

#[test]
fn a_sequencer_with_a_drawn_seed_writes_every_block_once() {
    for _ in 0..20 {
        let mut s =
            AddressSequencer::with_random_seed(IoMode::FullPeriodRandom, 512, 2, 13, 0).unwrap();
        let mut blocks: Vec<u64> = collect_offsets(&mut s, 100).iter().map(|o| o / 512).collect();
        blocks.sort();
        assert_eq!(blocks, (2..13).collect::<Vec<u64>>());
    }
    assert_eq!(
        AddressSequencer::with_random_seed(IoMode::FullPeriodRandom, 768, 2, 13, 0).err(),
        Some(SequencerError::BlockSizeNotPowerOfTwo)
    );
}
