use bit_set::BitSet;
use bitset_strategy::bit_set_like::BitSetLike;

#[test]
fn integers_start_at_zero_whatever_the_capacity_asked() {
    assert_eq!(0u8, <u8 as BitSetLike>::new_bitset(8));
    assert_eq!(0u16, <u16 as BitSetLike>::new_bitset(0));
    assert_eq!(0u32, <u32 as BitSetLike>::new_bitset(1000));
    assert_eq!(0u64, <u64 as BitSetLike>::new_bitset(64));
    assert_eq!(0usize, <usize as BitSetLike>::new_bitset(3));
    assert_eq!(0i8, <i8 as BitSetLike>::new_bitset(8));
    assert_eq!(0i16, <i16 as BitSetLike>::new_bitset(16));
    assert_eq!(0i32, <i32 as BitSetLike>::new_bitset(32));
    assert_eq!(0i64, <i64 as BitSetLike>::new_bitset(64));
    assert_eq!(0isize, <isize as BitSetLike>::new_bitset(7));
}

#[test]
fn integer_len_is_the_width_in_bits() {
    assert_eq!(8, BitSetLike::len(&0u8));
    assert_eq!(16, BitSetLike::len(&0xffffu16));
    assert_eq!(32, BitSetLike::len(&5u32));
    assert_eq!(64, BitSetLike::len(&0u64));
    assert_eq!(usize::BITS as usize, BitSetLike::len(&0usize));
    assert_eq!(8, BitSetLike::len(&-1i8));
    assert_eq!(16, BitSetLike::len(&0i16));
    assert_eq!(32, BitSetLike::len(&0i32));
    assert_eq!(64, BitSetLike::len(&0i64));
    assert_eq!(isize::BITS as usize, BitSetLike::len(&0isize));
}

#[test]
fn u8_set_test_clear() {
    let mut x = 0u8;
    x.set(0);
    x.set(7);
    assert_eq!(0b1000_0001, x);
    assert!(x.test(0) && x.test(7) && !x.test(3));
    x.set(7);
    assert_eq!(0b1000_0001, x);
    x.clear(0);
    assert_eq!(0b1000_0000, x);
    x.clear(0);
    assert_eq!(0b1000_0000, x);
    assert_eq!(1, x.count());
}

#[test]
fn u16_set_test_clear() {
    let mut x = 0u16;
    x.set(15);
    x.set(8);
    assert_eq!(0x8100, x);
    assert!(x.test(15) && x.test(8) && !x.test(0));
    x.clear(15);
    assert_eq!(0x0100, x);
    assert_eq!(1, x.count());
}

#[test]
fn u32_set_test_clear() {
    let mut x = 0u32;
    x.set(31);
    x.set(4);
    assert_eq!(0x8000_0010, x);
    assert!(x.test(31) && x.test(4) && !x.test(5));
    x.clear(4);
    assert_eq!(0x8000_0000, x);
    assert_eq!(1, x.count());
}

#[test]
fn u64_set_test_clear() {
    let mut x = 0u64;
    x.set(63);
    x.set(32);
    assert_eq!(0x8000_0001_0000_0000, x);
    assert!(x.test(63) && x.test(32) && !x.test(31));
    x.clear(63);
    assert_eq!(0x0000_0001_0000_0000, x);
    assert_eq!(1, x.count());
}

#[test]
fn usize_set_test_clear() {
    let top = usize::BITS as usize - 1;
    let mut x = 0usize;
    x.set(top);
    x.set(1);
    assert_eq!((1usize << top) | 2, x);
    assert!(x.test(top) && x.test(1) && !x.test(0));
    x.clear(1);
    assert_eq!(1usize << top, x);
    assert_eq!(1, x.count());
}

#[test]
fn i8_sign_bit_is_position_seven() {
    let mut x = 0i8;
    x.set(7);
    assert_eq!(i8::MIN, x);
    assert!(x.test(7) && !x.test(6));
    x.set(0);
    assert_eq!(-127, x);
    x.clear(7);
    assert_eq!(1, x);
    assert_eq!(8, (-1i8).count());
}

#[test]
fn i16_sign_bit_is_position_fifteen() {
    let mut x = 0i16;
    x.set(15);
    assert_eq!(i16::MIN, x);
    assert!(x.test(15) && !x.test(14));
    x.clear(15);
    assert_eq!(0, x);
    assert_eq!(16, (-1i16).count());
}

#[test]
fn i32_sign_bit_is_position_thirty_one() {
    let mut x = 0i32;
    x.set(31);
    assert_eq!(i32::MIN, x);
    assert!(x.test(31) && !x.test(30));
    x.set(3);
    assert_eq!(i32::MIN + 8, x);
    x.clear(31);
    assert_eq!(8, x);
    assert_eq!(32, (-1i32).count());
}

#[test]
fn i64_sign_bit_is_position_sixty_three() {
    let mut x = 0i64;
    x.set(63);
    assert_eq!(i64::MIN, x);
    assert!(x.test(63) && !x.test(62));
    x.clear(63);
    assert_eq!(0, x);
    assert_eq!(64, (-1i64).count());
}

#[test]
fn isize_sign_bit_is_the_top_position() {
    let top = isize::BITS as usize - 1;
    let mut x = 0isize;
    x.set(top);
    assert_eq!(isize::MIN, x);
    assert!(x.test(top) && !x.test(0));
    x.clear(top);
    assert_eq!(0, x);
    assert_eq!(isize::BITS as usize, (-1isize).count());
}

#[test]
fn integer_count_agrees_with_the_native_population_count() {
    let samples: [u32; 6] = [0, 1, 0xdeadbeef, 0xffff_ffff, 0x8000_0000, 0x0f0f_0f0f];
    for x in samples {
        assert_eq!(x.count_ones() as usize, x.count());
        assert_eq!((x as i32).count_ones() as usize, (x as i32).count());
        assert_eq!((x as u64).count_ones() as usize, (x as u64).count());
        assert_eq!((x as u16).count_ones() as usize, (x as u16).count());
        assert_eq!((x as u8).count_ones() as usize, (x as u8).count());
    }
    assert_eq!(24, 0xdeadbeefu32.count());
}

#[test]
fn integer_duplicate_is_the_same_number() {
    assert_eq!(0xdeadbeefu32, 0xdeadbeefu32.duplicate());
    assert_eq!(-5i64, (-5i64).duplicate());
}

#[test]
fn bit_set_starts_empty_and_holds_what_was_set() {
    let mut set: BitSet = BitSetLike::new_bitset(100);
    assert_eq!(0, BitSetLike::count(&set));
    assert!(set.is_empty());
    assert!(!BitSetLike::test(&set, 5));

    BitSetLike::set(&mut set, 5);
    BitSetLike::set(&mut set, 64);
    assert!(BitSetLike::test(&set, 5));
    assert!(BitSetLike::test(&set, 64));
    assert!(!BitSetLike::test(&set, 6));
    assert_eq!(2, BitSetLike::count(&set));
    assert_eq!(vec![5, 64], set.iter().collect::<Vec<usize>>());

    BitSetLike::clear(&mut set, 5);
    assert!(!BitSetLike::test(&set, 5));
    assert!(BitSetLike::test(&set, 64));
    assert_eq!(1, BitSetLike::count(&set));

    BitSetLike::clear(&mut set, 5);
    assert_eq!(vec![64], set.iter().collect::<Vec<usize>>());
}

#[test]
fn bit_set_grows_when_a_position_past_its_storage_is_set() {
    let mut set: BitSet = BitSetLike::new_bitset(0);
    BitSetLike::set(&mut set, 1000);
    assert!(BitSetLike::test(&set, 1000));
    assert!(!BitSetLike::test(&set, 999));
    assert!(!BitSetLike::test(&set, 100_000));
    assert_eq!(1, BitSetLike::count(&set));
}

#[test]
fn bit_set_len_bounds_every_member() {
    let mut set: BitSet = BitSetLike::new_bitset(10);
    BitSetLike::set(&mut set, 3);
    BitSetLike::set(&mut set, 77);
    let bound = BitSetLike::len(&set);
    assert!(bound > 77);
    for value in set.iter() {
        assert!(value < bound);
    }
    let empty: BitSet = BitSetLike::new_bitset(0);
    assert_eq!(0, empty.iter().count());
}

#[test]
fn bit_set_duplicate_is_independent() {
    let mut set: BitSet = BitSetLike::new_bitset(16);
    BitSetLike::set(&mut set, 2);
    BitSetLike::set(&mut set, 9);
    let mut copy = set.duplicate();
    assert_eq!(set, copy);
    BitSetLike::clear(&mut copy, 2);
    assert!(BitSetLike::test(&set, 2));
    assert!(!BitSetLike::test(&copy, 2));
    assert_eq!(2, BitSetLike::count(&set));
    assert_eq!(1, BitSetLike::count(&copy));
}

#[test]
fn fresh_bit_set_has_room_for_the_positions_asked() {
    for max in [0usize, 1, 5, 31, 32, 33, 64, 100, 1000, 4097] {
        let fresh: BitSet = BitSetLike::new_bitset(max);
        assert!(BitSetLike::len(&fresh) >= max);
        assert_eq!(0, BitSetLike::count(&fresh));
        assert_eq!(max, fresh.get_ref().len());
        for ix in [0usize, 1, max / 2, max, max + 1] {
            assert!(!BitSetLike::test(&fresh, ix));
        }
    }
}

#[test]
fn bit_set_keeps_its_room_when_bits_come_and_go() {
    let mut set: BitSet = BitSetLike::new_bitset(5);
    BitSetLike::set(&mut set, 3);
    assert_eq!(5, set.get_ref().len());
    BitSetLike::set(&mut set, 100);
    assert_eq!(101, set.get_ref().len());
    assert!(BitSetLike::len(&set) >= 101);
    BitSetLike::clear(&mut set, 100);
    assert_eq!(101, set.get_ref().len());
    BitSetLike::set(&mut set, 7);
    assert_eq!(101, set.get_ref().len());
    let copy = set.duplicate();
    assert_eq!(101, copy.get_ref().len());
    assert!(BitSetLike::len(&copy) >= 101);
}
