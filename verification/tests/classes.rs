use mini_pool::pool::classes::Exp2Size;
use mini_pool::pool::classes::SizeClasses;

fn check_exp2_size_classes<const N: usize, const B: usize>() {
    let classes = Exp2Size::<N, B>;
    let mut cap = 1usize << B;
    let mul = 1usize << N;
    for i in 0.. {
        assert_eq!(classes.capacity(i), cap);
        if let Some(c) = cap.checked_mul(mul) {
            cap = c
        } else {
            break;
        }
    }
}

#[test]
fn slice_exp2_size_classes() {
    check_exp2_size_classes::<1, 0>();
    check_exp2_size_classes::<1, 1>();
    check_exp2_size_classes::<1, 2>();
    check_exp2_size_classes::<1, 3>();
    check_exp2_size_classes::<1, 4>();
    check_exp2_size_classes::<1, 5>();
    check_exp2_size_classes::<2, 0>();
    check_exp2_size_classes::<2, 1>();
    check_exp2_size_classes::<2, 2>();
    check_exp2_size_classes::<2, 3>();
    check_exp2_size_classes::<2, 4>();
    check_exp2_size_classes::<2, 5>();
    check_exp2_size_classes::<3, 0>();
    check_exp2_size_classes::<3, 1>();
    check_exp2_size_classes::<3, 2>();
    check_exp2_size_classes::<3, 3>();
    check_exp2_size_classes::<3, 4>();
    check_exp2_size_classes::<3, 5>();
    check_exp2_size_classes::<4, 0>();
    check_exp2_size_classes::<4, 1>();
    check_exp2_size_classes::<4, 2>();
    check_exp2_size_classes::<4, 3>();
    check_exp2_size_classes::<4, 4>();
    check_exp2_size_classes::<4, 5>();
}
