use std::cmp::Ordering;

use mini_pool::index::ContiguousIx;
use mini_pool::index::Neg;
use mini_pool::index::SmallIx;

#[test]
fn u8_contiguous_ix() {
    assert_eq!(u8::max_index(), u8::MAX as usize);
    for i in 0..=u8::max_index() {
        assert_eq!(u8::new(i), i as u8);
        assert_eq!(u8::try_new(i), Some(i as u8));
        assert_eq!(u8::new_unchecked(i), i as u8);
        assert_eq!(u8::new(i).index(), i);
        assert_eq!(u8::new(i).is_zero(), i == 0);
    }
    assert_eq!(u8::try_new(256), None);
    assert_eq!(u8::new_unchecked(256), 0);
}

#[test]
fn i8_continuous_ix() {
    assert_eq!(i8::max_index(), i8::MAX as usize);
    for i in 0..=i8::max_index() {
        assert_eq!(i8::new(i), i as i8);
        assert_eq!(i8::try_new(i), Some(i as i8));
        assert_eq!(i8::new_unchecked(i), i as i8);
        assert_eq!(i8::new(i).index(), i);
        assert_eq!(i8::new(i).is_zero(), i == 0);
    }
    assert_eq!(i8::try_new(128), None);
    assert_eq!(i8::new_unchecked(128), -128);

    assert_eq!(Neg::<i8>::max_index(), i8::MAX as usize);
    for i in 0..=Neg::<i8>::max_index() {
        let ni = -(i as i8) - 1;
        assert_eq!(Neg::<i8>::new(i), Neg(ni));
        assert_eq!(Neg::<i8>::try_new(i), Some(Neg(ni)));
        assert_eq!(Neg::<i8>::new_unchecked(i), Neg(ni));
        assert_eq!(Neg::<i8>::new(i).index(), i);
        assert_eq!(Neg::<i8>::new(i).is_zero(), i == 0);
    }
    assert_eq!(Neg::<i8>::try_new(128), None);
    assert_eq!(Neg::<i8>::new_unchecked(128), Neg(127));

    assert_eq!(Neg(5i8).cmp(&Neg(3i8)), Ordering::Less);
    assert_eq!(Neg(5i8).partial_cmp(&Neg(3i8)), Some(Ordering::Less))
}

#[test]
#[should_panic]
fn u8_contiguous_ix_overflow() {
    u8::new(256);
}

#[test]
#[should_panic]
fn i8_negative_ix_overflow() {
    Neg::<i8>::new(128);
}


#[test]
fn default_contiguous_ix_impl() {
    for i in 0..=10 {
        assert_eq!(SmallIx::new(i), SmallIx(i as u32));
        assert_eq!(SmallIx::new_unchecked(i), SmallIx(i as u32));
        assert_eq!(SmallIx::try_new(i), Some(SmallIx(i as u32)));
        assert_eq!(SmallIx::new(i).is_zero(), i == 0);
    }
    assert_eq!(SmallIx::try_new(11), None);
}

#[test]
fn negative_ix_reversed_order() {
    assert_eq!(Neg(5i16).cmp(&Neg(3i16)), Ordering::Less);
    assert_eq!(Neg(3i32).cmp(&Neg(3i32)), Ordering::Equal);
    assert_eq!(Neg(-4i64).cmp(&Neg(7i64)), Ordering::Greater);
    assert_eq!(Neg(5i128).partial_cmp(&Neg(3i128)), Some(Ordering::Less));
    assert_eq!(Neg(2isize).partial_cmp(&Neg(2isize)), Some(Ordering::Equal));
}
