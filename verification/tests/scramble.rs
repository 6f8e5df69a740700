use thermite::scramble::{random_bytes, xor_scramble, zero};

#[test]
fn zero_gives_that_many_zero_bytes() {
    assert_eq!(zero(0), Vec::<u8>::new());
    assert_eq!(zero(1), vec![0u8]);
    assert_eq!(zero(512), vec![0u8; 512]);
}

#[test]
fn random_bytes_gives_that_many_bytes() {
    assert_eq!(random_bytes(0).len(), 0);
    assert_eq!(random_bytes(1).len(), 1);
    assert_eq!(random_bytes(4096).len(), 4096);
}

#[test]
fn random_bytes_are_not_all_alike() {
    let data = random_bytes(4096);
    let first = data[0];
    assert!(data.iter().any(|b| *b != first));
}

#[test]
fn each_page_folds_the_next_slot_into_this_slot() {
    let mut data = vec![1u8, 2, 3, 4];
    xor_scramble(&mut data, 2, 0);
    assert_eq!(data, vec![3u8, 2, 7, 4]);
}

#[test]
fn the_slot_moves_with_the_iteration() {
    let mut data = vec![1u8, 2, 3, 4];
    xor_scramble(&mut data, 2, 1);
    assert_eq!(data, vec![1u8, 3, 3, 7]);

    let mut data = vec![1u8, 2, 4, 8, 16, 32, 64, 128];
    xor_scramble(&mut data, 4, 2);
    assert_eq!(data, vec![1u8, 2, 12, 8, 16, 32, 192, 128]);

    let mut data = vec![1u8, 2, 4, 8, 16, 32, 64, 128];
    xor_scramble(&mut data, 4, 7);
    assert_eq!(data, vec![1u8, 2, 4, 9, 16, 32, 64, 144]);
}

#[test]
fn page_size_zero_makes_the_whole_buffer_one_page() {
    let mut data = vec![1u8, 2, 3, 4];
    xor_scramble(&mut data, 0, 2);
    assert_eq!(data, vec![1u8, 2, 7, 4]);

    let mut data = vec![1u8, 2, 3, 4];
    xor_scramble(&mut data, 0, 3);
    assert_eq!(data, vec![1u8, 2, 3, 5]);

    let mut data = vec![1u8, 2, 3, 4];
    xor_scramble(&mut data, 0, 4);
    assert_eq!(data, vec![3u8, 2, 3, 4]);
}

#[test]
fn page_size_equal_to_the_block_is_one_page() {
    let mut with_zero = vec![9u8, 5, 3, 1];
    let mut with_size = with_zero.clone();
    for iteration in 0..20 {
        xor_scramble(&mut with_zero, 0, iteration);
        xor_scramble(&mut with_size, 4, iteration);
        assert_eq!(with_zero, with_size);
    }
}

#[test]
fn pages_of_one_byte_are_folded_into_themselves() {
    let mut data = vec![1u8, 2, 3, 4];
    xor_scramble(&mut data, 1, 5);
    assert_eq!(data, vec![0u8, 0, 0, 0]);
}

#[test]
fn a_page_larger_than_the_buffer_leaves_it() {
    let mut data = vec![1u8, 2, 3, 4];
    xor_scramble(&mut data, 8, 0);
    assert_eq!(data, vec![1u8, 2, 3, 4]);
    let mut empty: Vec<u8> = Vec::new();
    xor_scramble(&mut empty, 8, 0);
    assert!(empty.is_empty());
}

#[test]
fn the_last_iteration_wraps_to_slot_zero() {
    let mut data = vec![1u8, 2, 4, 8];
    xor_scramble(&mut data, 4, u64::MAX);
    assert_eq!(data, vec![1u8, 2, 4, 9]);
    let mut data = vec![1u8, 2, 4, 8];
    xor_scramble(&mut data, 0, u64::MAX);
    assert_eq!(data, vec![1u8, 2, 4, 9]);
}

#[test]
fn a_buffer_of_zero_bytes_is_a_fixed_point() {
    for block in [1usize, 2, 64, 512, 4096] {
        let mut page = 1u64;
        while page as usize <= block {
            for iteration in [0u64, 1, 2, 15, 16, 511, 512, 4095, 1 << 40, u64::MAX] {
                let mut data = zero(block);
                xor_scramble(&mut data, page, iteration);
                assert_eq!(data, vec![0u8; block]);
            }
            page *= 2;
        }
        let mut data = zero(block);
        xor_scramble(&mut data, 0, 77);
        assert_eq!(data, vec![0u8; block]);
    }
}

#[test]
fn the_mutation_is_a_function_of_buffer_iteration_and_page_size() {
    let seed: Vec<u8> = (0..512u32).map(|i| (i * 31 + 7) as u8).collect();
    for page in [0u64, 1, 2, 16, 512] {
        for iteration in [0u64, 1, 17, 511, 512, 99999] {
            let mut first = seed.clone();
            let mut second = seed.clone();
            xor_scramble(&mut first, page, iteration);
            xor_scramble(&mut second, page, iteration);
            assert_eq!(first, second);
        }
    }
}

#[test]
fn the_slot_changes_exactly_where_the_folded_byte_is_not_zero() {
    let before = vec![5u8, 0, 5, 9, 0, 0, 0, 3];
    let mut after = before.clone();
    xor_scramble(&mut after, 2, 0);
    assert_eq!(after, vec![5u8, 0, 12, 9, 0, 0, 3, 3]);
    assert_eq!(after[0], before[0]);
    assert_ne!(after[2], before[2]);
    assert_eq!(after[4], before[4]);
    assert_ne!(after[6], before[6]);
}

#[test]
fn only_one_byte_per_page_can_change() {
    let before: Vec<u8> = (0..64u32).map(|i| (i * 37 + 11) as u8).collect();
    for iteration in 0..40u64 {
        let mut after = before.clone();
        xor_scramble(&mut after, 8, iteration);
        let slot = (iteration % 8) as usize;
        let next = ((iteration + 1) % 8) as usize;
        for i in 0..64usize {
            if i % 8 == slot {
                let base = i - slot;
                assert_eq!(after[i], before[i] ^ before[base + next]);
            } else {
                assert_eq!(after[i], before[i]);
            }
        }
    }
}

#[test]
fn successive_iterations_follow_one_another() {
    let mut data = vec![1u8, 2, 3, 4];
    xor_scramble(&mut data, 4, 0);
    assert_eq!(data, vec![3u8, 2, 3, 4]);
    xor_scramble(&mut data, 4, 1);
    assert_eq!(data, vec![3u8, 1, 3, 4]);
    xor_scramble(&mut data, 4, 2);
    assert_eq!(data, vec![3u8, 1, 7, 4]);
    xor_scramble(&mut data, 4, 3);
    assert_eq!(data, vec![3u8, 1, 7, 7]);
}
