use bit_set::BitSet;
use bitset_strategy::sampled::config_is_valid;
use bitset_strategy::sampled::SampledBitSetStrategy;
use bitset_strategy::strategy::BitSetStrategy;
use bitset_strategy::test_runner::sample_can_be_held;
use bitset_strategy::test_runner::Reason;
use bitset_strategy::test_runner::TestRunner;

#[test]
fn draws_decide_each_position_between_the_bounds() {
    let strategy = bitset_strategy::u32::between(4, 8);
    let tree = strategy.value_from_draws(&vec![true, false, true, true]);
    assert_eq!(0b1101_0000, tree.current());

    let tree = strategy.value_from_draws(&vec![false, false, false, false]);
    assert_eq!(0, tree.current());

    let tree = strategy.value_from_draws(&vec![true, true, true, true]);
    assert_eq!(0xF0, tree.current());
}

#[test]
fn draws_for_positions_outside_the_mask_are_ignored() {
    let strategy = bitset_strategy::u8::masked(0b1010_0110);
    let tree = strategy.value_from_draws(&vec![true; 8]);
    assert_eq!(0b1010_0110, tree.current());

    let tree = strategy.value_from_draws(&vec![true, true, false, true, true, false, true, true]);
    assert_eq!(0b1000_0010, tree.current());
}

#[test]
fn empty_range_of_positions_gives_the_empty_value() {
    let strategy: BitSetStrategy<u16> = BitSetStrategy::new(8, 4);
    let mut tree = strategy.value_from_draws(&Vec::new());
    assert_eq!(0, tree.current());
    assert!(!tree.simplify());
    assert!(!tree.complicate());

    let mut runner = TestRunner::default();
    assert_eq!(0, strategy.new_value(&mut runner).unwrap().current());

    let strategy = bitset_strategy::u16::between(5, 5);
    assert_eq!(0, strategy.new_value(&mut runner).unwrap().current());
}

#[test]
fn simplify_clears_the_lowest_remaining_bit_each_time() {
    let strategy = bitset_strategy::u32::between(4, 8);
    let mut tree = strategy.value_from_draws(&vec![true, false, true, true]);

    assert!(tree.simplify());
    assert_eq!(0b1100_0000, tree.current());
    assert!(tree.simplify());
    assert_eq!(0b1000_0000, tree.current());
    assert!(tree.simplify());
    assert_eq!(0, tree.current());
    assert!(!tree.simplify());
    assert_eq!(0, tree.current());
    assert!(!tree.simplify());
}

#[test]
fn complicate_puts_back_only_the_latest_bit() {
    let strategy = bitset_strategy::u32::between(4, 8);
    let mut tree = strategy.value_from_draws(&vec![true, false, true, true]);

    assert!(!tree.complicate());
    assert_eq!(0b1101_0000, tree.current());

    assert!(tree.simplify());
    assert!(tree.simplify());
    assert_eq!(0b1000_0000, tree.current());
    assert!(tree.complicate());
    assert_eq!(0b1100_0000, tree.current());
    assert!(!tree.complicate());
    assert_eq!(0b1100_0000, tree.current());
}

#[test]
fn a_bit_put_back_is_not_tried_again() {
    let strategy = bitset_strategy::u32::between(4, 8);
    let mut tree = strategy.value_from_draws(&vec![true, false, true, true]);

    assert!(tree.simplify());
    assert!(tree.complicate());
    assert_eq!(0b1101_0000, tree.current());
    assert!(tree.simplify());
    assert_eq!(0b1001_0000, tree.current());
    assert!(tree.simplify());
    assert_eq!(0b0001_0000, tree.current());
    assert!(!tree.simplify());
    assert_eq!(0b0001_0000, tree.current());
    assert!(!tree.complicate());
    assert_eq!(0b0001_0000, tree.current());
}

#[test]
fn running_out_of_bits_drops_the_pending_undo() {
    let strategy = bitset_strategy::u8::between(0, 8);
    let mut tree = strategy.value_from_draws(&vec![false, false, true, false, false, false, false, true]);
    assert_eq!(0b1000_0100, tree.current());

    assert!(tree.simplify());
    assert!(tree.complicate());
    assert!(tree.simplify());
    assert_eq!(0b0000_0100, tree.current());
    assert!(!tree.simplify());
    assert!(!tree.complicate());
    assert_eq!(0b0000_0100, tree.current());
}

#[test]
fn simplify_succeeds_once_for_each_bit_set() {
    let mut runner = TestRunner::default();
    let strategy = bitset_strategy::u64::any();
    for _ in 0..64 {
        let mut tree = strategy.new_value(&mut runner).unwrap();
        let start = tree.current().count_ones();
        let mut steps = 0;
        while tree.simplify() {
            steps += 1;
            assert_eq!(start - steps, tree.current().count_ones());
            assert!(steps <= 64);
        }
        assert_eq!(start, steps);
        assert_eq!(0, tree.current());
    }
}

#[test]
fn sample_sets_exactly_the_positions_picked() {
    let strategy: SampledBitSetStrategy<u32> = SampledBitSetStrategy::new(2..4, 10..20);
    let tree = strategy.value_from_sample(Ok(vec![10, 12, 15])).unwrap();
    assert_eq!((1 << 10) | (1 << 12) | (1 << 15), tree.current());

    let tree = strategy.value_from_sample(Ok(vec![19, 11])).unwrap();
    assert_eq!((1 << 19) | (1 << 11), tree.current());

    let tree = strategy.value_from_sample(Ok(Vec::new())).unwrap();
    assert_eq!(0, tree.current());
}

#[test]
fn sampled_tree_stops_at_the_least_size() {
    let strategy: SampledBitSetStrategy<u32> = SampledBitSetStrategy::new(2..4, 10..20);
    let mut tree = strategy.value_from_sample(Ok(vec![10, 12, 15])).unwrap();

    assert!(tree.simplify());
    assert_eq!((1 << 12) | (1 << 15), tree.current());
    assert!(!tree.simplify());
    assert_eq!((1 << 12) | (1 << 15), tree.current());

    assert!(tree.complicate());
    assert_eq!((1 << 10) | (1 << 12) | (1 << 15), tree.current());
    assert!(tree.simplify());
    assert_eq!((1 << 10) | (1 << 15), tree.current());
    assert!(!tree.simplify());
    assert_eq!(2, tree.current().count_ones());
}

#[test]
fn sampled_tree_starts_its_cursor_at_the_first_position() {
    let strategy: SampledBitSetStrategy<u8> = SampledBitSetStrategy::new(0..3, 2..6);
    let mut tree = strategy.value_from_sample(Ok(vec![5, 2])).unwrap();
    assert!(tree.simplify());
    assert_eq!(0b0010_0000, tree.current());
    assert!(tree.simplify());
    assert_eq!(0, tree.current());
    assert!(!tree.simplify());
}

#[test]
fn too_few_positions_are_reported() {
    let strategy: SampledBitSetStrategy<u32> = SampledBitSetStrategy::new(2..4, 10..20);
    let made = strategy.value_from_sample(Err(vec![10, 11]));
    let reason = made.unwrap_err();
    assert_eq!(Reason::NotEnoughBits { available: 2 }, reason);
    assert_eq!("not enough bits to sample", reason.message());

    let made = strategy.value_from_sample(Err(Vec::new()));
    assert_eq!(Reason::NotEnoughBits { available: 0 }, made.unwrap_err());
}

#[test]
fn configuration_is_valid_when_the_range_holds_every_size() {
    assert!(config_is_valid(&(4..8), &(10..20)));
    assert!(config_is_valid(&(0..11), &(10..20)));
    assert!(!config_is_valid(&(0..12), &(10..20)));
    assert!(config_is_valid(&(0..1), &(7..7)));
    assert!(!config_is_valid(&(0..2), &(7..7)));
    assert!(config_is_valid(&(0..0), &(3..9)));
    assert!(config_is_valid(&(5..0), &(3..3)));
    assert!(!config_is_valid(&(0..1), &(20..10)));
    assert!(config_is_valid(&(0..usize::MAX), &(0..usize::MAX)));
    assert!(config_is_valid(&(0..usize::MAX), &(1..usize::MAX)));
    assert!(!config_is_valid(&(0..usize::MAX), &(2..usize::MAX)));
}

#[test]
fn sampled_draws_every_size_it_is_allowed() {
    let strategy = bitset_strategy::u16::sampled(0..17, 0..16);
    let mut runner = TestRunner::default();
    let mut seen = [false; 17];
    for _ in 0..2048 {
        let value = strategy.new_value(&mut runner).unwrap().current();
        seen[value.count_ones() as usize] = true;
    }
    assert!(seen.iter().all(|&s| s));
}

#[test]
fn sampled_of_a_single_size_sets_that_many_bits() {
    let strategy = bitset_strategy::i8::sampled(8..9, 0..8);
    let mut runner = TestRunner::default();
    for _ in 0..16 {
        assert_eq!(-1, strategy.new_value(&mut runner).unwrap().current());
    }

    let strategy = bitset_strategy::u64::sampled(3..4, 60..64);
    for _ in 0..64 {
        let value = strategy.new_value(&mut runner).unwrap().current();
        assert_eq!(3, value.count_ones());
        assert_eq!(0, value & 0x0fff_ffff_ffff_ffff);
    }
}

#[test]
fn sampled_bit_set_holds_distinct_values_of_the_range() {
    let strategy = bitset_strategy::bitset::sampled(3..6, 100..110);
    let mut runner = TestRunner::default();
    for _ in 0..256 {
        let mut tree = strategy.new_value(&mut runner).unwrap();
        let value: BitSet = tree.current();
        assert!(value.len() >= 3 && value.len() < 6);
        for bit in value.iter() {
            assert!(bit >= 100 && bit < 110);
        }
        while tree.simplify() {}
        assert_eq!(3, tree.current().len());
    }
}

#[test]
fn uniform_bit_set_stays_between_the_bounds() {
    let strategy = bitset_strategy::bitset::between(40, 70);
    let mut runner = TestRunner::default();
    let mut seen = BitSet::new();
    for _ in 0..256 {
        let mut tree = strategy.new_value(&mut runner).unwrap();
        let value: BitSet = tree.current();
        for bit in value.iter() {
            assert!(bit >= 40 && bit < 70);
        }
        seen.union_with(&value);

        let before = value.len();
        if tree.simplify() {
            let simpler: BitSet = tree.current();
            assert_eq!(before - 1, simpler.len());
            assert!(simpler.is_subset(&value));
            assert!(tree.complicate());
            assert_eq!(value, tree.current());
        } else {
            assert_eq!(0, before);
        }
    }
    assert_eq!((40..70).collect::<Vec<usize>>(), seen.iter().collect::<Vec<usize>>());
}

#[test]
fn masked_bit_set_sets_only_masked_values() {
    let mut mask = BitSet::new();
    mask.insert(1);
    mask.insert(33);
    mask.insert(64);
    let strategy = bitset_strategy::bitset::masked(mask.clone());
    let mut runner = TestRunner::default();
    let mut seen = BitSet::new();
    for _ in 0..64 {
        let value: BitSet = strategy.new_value(&mut runner).unwrap().current();
        assert!(value.is_subset(&mask));
        seen.union_with(&value);
    }
    assert_eq!(mask, seen);
}

#[test]
fn any_may_set_every_bit_of_the_width() {
    let mut runner = TestRunner::default();

    let strategy = bitset_strategy::u8::any();
    let mut accum: u8 = 0;
    for _ in 0..256 {
        accum |= strategy.new_value(&mut runner).unwrap().current();
    }
    assert_eq!(0xff, accum);

    let strategy = bitset_strategy::i32::any();
    let mut accum: i32 = 0;
    for _ in 0..256 {
        accum |= strategy.new_value(&mut runner).unwrap().current();
    }
    assert_eq!(-1, accum);

    let strategy = bitset_strategy::i64::any();
    let mut accum: i64 = 0;
    for _ in 0..256 {
        accum |= strategy.new_value(&mut runner).unwrap().current();
    }
    assert_eq!(-1, accum);
}

#[test]
fn word_sized_integers_have_strategies_too() {
    let mut runner = TestRunner::default();

    let strategy = bitset_strategy::usize::between(1, 3);
    for _ in 0..32 {
        assert_eq!(0, strategy.new_value(&mut runner).unwrap().current() & !0b110);
    }

    let strategy = bitset_strategy::isize::masked(-2);
    for _ in 0..32 {
        assert_eq!(0, strategy.new_value(&mut runner).unwrap().current() & 1);
    }

    let strategy = bitset_strategy::usize::sampled(2..3, 0..4);
    for _ in 0..32 {
        let value = strategy.new_value(&mut runner).unwrap().current();
        assert_eq!(2, value.count_ones());
        assert_eq!(0, value & !0b1111);
    }
}

#[test]
fn equal_seeds_draw_equal_values() {
    let seed = [7u8; 16];
    let mut first = TestRunner::new(seed);
    let mut second = TestRunner::new(seed);
    let strategy = bitset_strategy::u64::any();
    let mut distinct = false;
    let mut last: Option<u64> = None;
    for _ in 0..32 {
        let a = strategy.new_value(&mut first).unwrap().current();
        let b = strategy.new_value(&mut second).unwrap().current();
        assert_eq!(a, b);
        if let Some(prev) = last {
            distinct |= prev != a;
        }
        last = Some(a);
    }
    assert!(distinct);
}

#[test]
fn strategies_can_be_copied() {
    let strategy = bitset_strategy::u32::masked(0xff00);
    let copy = strategy;
    let mut runner = TestRunner::default();
    assert_eq!(0, strategy.new_value(&mut runner).unwrap().current() & !0xff00);
    assert_eq!(0, copy.new_value(&mut runner).unwrap().current() & !0xff00);

    let sampled = bitset_strategy::u32::sampled(1..2, 4..5);
    let again = sampled.clone();
    assert_eq!(16, sampled.new_value(&mut runner).unwrap().current());
    assert_eq!(16, again.new_value(&mut runner).unwrap().current());
}

#[test]
fn fixed_width_strategies_can_generate_up_to_the_width() {
    assert!(bitset_strategy::u8::between(0, 8).can_generate());
    assert!(!bitset_strategy::u8::between(0, 9).can_generate());
    assert!(bitset_strategy::u8::between(9, 8).can_generate());
    assert!(bitset_strategy::i16::between(3, 16).can_generate());
    assert!(!bitset_strategy::i16::between(3, 17).can_generate());
    assert!(bitset_strategy::u32::any().can_generate());
    assert!(bitset_strategy::u32::masked(0xdeadbeef).can_generate());
    assert!(!bitset_strategy::u32::between(4, 40).can_generate());
    assert!(bitset_strategy::u64::between(0, 64).can_generate());
    assert!(!bitset_strategy::i64::between(0, 65).can_generate());
    assert!(bitset_strategy::usize::between(0, usize::BITS as usize).can_generate());
    assert!(!bitset_strategy::isize::between(0, usize::BITS as usize + 1).can_generate());
    assert!(bitset_strategy::bitset::between(100, 1000).can_generate());
}

#[test]
fn sampled_strategies_can_generate_when_there_is_a_size_to_draw() {
    assert!(bitset_strategy::u32::sampled(4..8, 10..20).can_generate());
    assert!(!bitset_strategy::u32::sampled(4..4, 10..20).can_generate());
    assert!(!bitset_strategy::u32::sampled(8..4, 10..20).can_generate());
    assert!(bitset_strategy::u32::sampled(0..33, 0..32).can_generate());
    assert!(!bitset_strategy::u32::sampled(0..3, 30..33).can_generate());
    assert!(bitset_strategy::u8::sampled(0..1, 8..8).can_generate());
    assert!(bitset_strategy::bitset::sampled(3..6, 100..110).can_generate());
}

#[test]
fn samples_that_fit_in_memory() {
    let word: usize = (usize::BITS / 8) as usize;
    let most: usize = isize::MAX as usize / word;
    assert!(sample_can_be_held(0));
    assert!(sample_can_be_held(64));
    assert!(sample_can_be_held(most));
    assert!(!sample_can_be_held(most + 1));
    assert!(!sample_can_be_held(usize::MAX));
}

#[test]
fn different_seeds_draw_different_values() {
    let mut first = TestRunner::new([7u8; 16]);
    let mut second = TestRunner::new([8u8; 16]);
    let strategy = bitset_strategy::u64::any();
    let mut differ = false;
    for _ in 0..32 {
        let a = strategy.new_value(&mut first).unwrap().current();
        let b = strategy.new_value(&mut second).unwrap().current();
        differ |= a != b;
    }
    assert!(differ);
}

#[test]
fn a_seed_of_zeros_still_draws() {
    let mut runner = TestRunner::new([0u8; 16]);
    let mut again = TestRunner::new([0u8; 16]);
    let strategy = bitset_strategy::u64::any();
    let mut accum: u64 = 0;
    for _ in 0..64 {
        let value = strategy.new_value(&mut runner).unwrap().current();
        assert_eq!(value, strategy.new_value(&mut again).unwrap().current());
        accum |= value;
    }
    assert_eq!(u64::MAX, accum);
}

#[test]
fn draw_count_is_the_number_of_positions_between_the_bounds() {
    assert_eq!(4, bitset_strategy::u32::between(4, 8).draw_count());
    assert_eq!(0, bitset_strategy::u32::between(8, 8).draw_count());
    assert_eq!(0, bitset_strategy::u32::between(8, 4).draw_count());
    assert_eq!(32, bitset_strategy::u32::any().draw_count());
    assert_eq!(16, bitset_strategy::i16::masked(0x0ff0).draw_count());
    assert_eq!(usize::MAX, bitset_strategy::bitset::between(0, usize::MAX).draw_count());
}

#[test]
fn draws_can_be_supplied_for_a_masked_bit_set() {
    let mut mask = BitSet::new();
    mask.insert(1);
    mask.insert(40);
    let strategy = bitset_strategy::bitset::masked(mask.clone());
    let needed = strategy.draw_count();
    assert!(needed > 40);

    let tree = strategy.value_from_draws(&vec![true; needed]);
    assert_eq!(mask, tree.current());

    let mut draws = vec![true; needed];
    draws[40] = false;
    let tree = strategy.value_from_draws(&draws);
    assert_eq!(vec![1], tree.current().iter().collect::<Vec<usize>>());
}
