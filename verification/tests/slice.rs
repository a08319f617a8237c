use mini_pool::pool::slice::free::Exp2Size;
use mini_pool::pool::slice::free::FreeSlices;
use mini_pool::pool::slice::free::IntrusiveClasses;
use mini_pool::pool::slice::free::SizeClasses;
use mini_pool::pool::slice::free::Slice;
use mini_pool::pool::slice::IVec;
use mini_pool::pool::slice::SlicePool;
use mini_pool::pool::container::InsertEmpty;
use mini_pool::pool::Pool;
use mini_pool::slot::DefaultSlot;

#[test]
fn free_list_alloc() {
    let mut classes = IntrusiveClasses::<Exp2Size<1, 2>>::default();
    let mut backing: Vec<DefaultSlot<u32>> = vec![DefaultSlot(0); 1024];
    assert_eq!(classes.allocate(0, &mut backing), None::<Slice<u32>>);
    assert_eq!(classes.allocate(4, &mut backing), None::<Slice<u32>>);
    classes.dealloc(Slice(0, 4), &mut backing);
    assert_eq!(classes.allocate(8, &mut backing), None::<Slice<u32>>);
    assert_eq!(classes.allocate(2, &mut backing), Some(Slice(0, 4)));
    assert_eq!(classes.allocate(4, &mut backing), None::<Slice<u32>>);
    // The 3 units in 4..7 are below the smallest size class and leaked.
    classes.dealloc(Slice(0, 7), &mut backing);
    classes.dealloc(Slice(8, 12), &mut backing);
    // The 4 units in 20..24 are *not* leaked: they fit a smaller class.
    classes.dealloc(Slice(12, 24), &mut backing);
    assert_eq!(classes.allocate(2, &mut backing), Some(Slice(20, 24)));
    assert_eq!(classes.allocate(2, &mut backing), Some(Slice(8, 12)));
    assert_eq!(classes.allocate(3, &mut backing), Some(Slice(0, 4)));
    assert_eq!(classes.allocate(8, &mut backing), Some(Slice(12, 20)));
    assert_eq!(classes.allocate(3, &mut backing), None::<Slice<u32>>);
    classes.dealloc(Slice(12, 20), &mut backing);
    assert_eq!(classes.allocate(3, &mut backing), Some(Slice(12, 16)));
    assert_eq!(classes.allocate(2, &mut backing), Some(Slice(16, 20)));

    classes.dealloc(Slice(0, 4), &mut backing);
    FreeSlices::<DefaultSlot<u32>, u32>::clear(&mut classes, &mut backing);
    assert_eq!(classes.allocate(4, &mut backing), None::<Slice<u32>>);
}

fn check_exp2_size_classes<const N: usize, const B: usize>() {
    let classes = Exp2Size::<N, B>;
    assert_eq!(classes.size_class_contained(0), 0);
    assert_eq!(classes.size_class_containing(0), 0);
    assert_eq!(classes.round_up_capacity(0), 0);
    assert_eq!(classes.round_down_capacity(0), 0);
    let mut cap = 1usize << B;
    let mul = 1usize << N;
    for i in 1.. {
        assert_eq!(classes.capacity(i), cap);
        assert_eq!(classes.size_class_exact(cap), i);
        assert_eq!(classes.size_class_contained(cap), i);
        assert_eq!(classes.size_class_containing(cap), i);
        assert_eq!(classes.size_class_containing(cap + 1), i + 1);
        assert_eq!(classes.round_up_capacity(cap), cap);
        assert_eq!(classes.round_down_capacity(cap), cap);
        assert_eq!(
            classes.round_down_capacity(cap - 1),
            if cap == 1usize << B { 0 } else { cap / mul }
        );
        if cap > 2 {
            assert_eq!(classes.size_class_containing(cap - 1), i);
            assert_eq!(classes.round_down_capacity(cap + 1), cap);
            assert_eq!(classes.size_class_contained(cap - 1), i.saturating_sub(1))
        }
        if let Some(c) = cap.checked_mul(mul) {
            assert_eq!(classes.round_up_capacity(cap + 1), c);
            cap = c
        } else {
            break;
        }
    }
}

#[test]
fn free_exp2_size_classes() {
    check_exp2_size_classes::<1, 0>();
    check_exp2_size_classes::<1, 1>();
    check_exp2_size_classes::<1, 2>();
    check_exp2_size_classes::<1, 3>();
    check_exp2_size_classes::<1, 4>();
    check_exp2_size_classes::<1, 5>();
    check_exp2_size_classes::<2, 0>();
    check_exp2_size_classes::<2, 1>();
    check_exp2_size_classes::<2, 2>();
    check_exp2_size_classes::<2, 3>();
    check_exp2_size_classes::<2, 4>();
    check_exp2_size_classes::<2, 5>();
    check_exp2_size_classes::<3, 0>();
    check_exp2_size_classes::<3, 1>();
    check_exp2_size_classes::<3, 2>();
    check_exp2_size_classes::<3, 3>();
    check_exp2_size_classes::<3, 4>();
    check_exp2_size_classes::<3, 5>();
    check_exp2_size_classes::<4, 0>();
    check_exp2_size_classes::<4, 1>();
    check_exp2_size_classes::<4, 2>();
    check_exp2_size_classes::<4, 3>();
    check_exp2_size_classes::<4, 4>();
    check_exp2_size_classes::<4, 5>();
}

#[test]
fn round_up_idempotent() {
    let classes = Exp2Size::<2, 3>;
    for c in 1..8u32 {
        let cap = classes.capacity(c);
        assert_eq!(classes.round_up_capacity(cap), cap);
    }
    for x in [1usize, 5, 9, 100, 1000] {
        assert!(classes.round_up_capacity(x) >= x);
    }
}

#[test]
fn alloc_free_realloc() {
    let mut classes = IntrusiveClasses::<Exp2Size<1, 2>>::default();
    let mut backing: Vec<DefaultSlot<u32>> = vec![DefaultSlot(0); 256];
    classes.dealloc(Slice(0u32, 64u32), &mut backing);
    let first = classes.allocate(5, &mut backing).unwrap();
    assert!(first.1 - first.0 >= 5);
    classes.dealloc(first, &mut backing);
    let second = classes.allocate(5, &mut backing).unwrap();
    assert!(second.1 - second.0 >= 5);
}

#[test]
fn slice_pool_ranges() {
    let mut pool: SlicePool<DefaultSlot<u32>, IntrusiveClasses<Exp2Size<1, 2>>> = SlicePool {
        backing: vec![DefaultSlot(7); 64],
        free: IntrusiveClasses::default(),
    };
    let key: IVec<u32> = IVec { begin: 8, end: 12, end_alloc: 16 };
    {
        let s = pool.try_at(key).unwrap();
        assert_eq!(s.len(), 4);
        assert_eq!(s[0], DefaultSlot(7));
    }
    {
        let s = pool.try_at_mut(key).unwrap();
        s[2] = DefaultSlot(9);
    }
    let s = pool.try_at(key).unwrap();
    assert_eq!(s[2], DefaultSlot(9));
    let bad: IVec<u32> = IVec { begin: 60, end: 70, end_alloc: 70 };
    assert_eq!(pool.try_at(bad), None);
}

#[test]
fn slice_pool_alloc_and_delete() {
    let mut pool: SlicePool<DefaultSlot<u32>, IntrusiveClasses<Exp2Size<1, 2>>> = SlicePool {
        backing: vec![DefaultSlot(0); 128],
        free: IntrusiveClasses::default(),
    };
    let empty = pool.try_insert_empty().unwrap();
    assert_eq!(empty.begin, 0u32);
    assert_eq!(empty.end, 0u32);
    assert_eq!(empty.end_alloc, 0u32);
    assert_eq!(pool.allocate(6), None::<IVec<u32>>);
    pool.free.dealloc(Slice(0u32, 32u32), &mut pool.backing);
    let v = pool.allocate(6).unwrap();
    assert_eq!(v.begin, v.end);
    assert!(v.end_alloc - v.begin >= 6);
    pool.delete(v);
    let w = pool.allocate(6).unwrap();
    assert!(w.end_alloc - w.begin >= 6);
}

#[test]
fn dealloc_splits_leftover() {
    let mut classes = IntrusiveClasses::<Exp2Size<1, 2>>::default();
    let mut backing: Vec<DefaultSlot<u32>> = vec![DefaultSlot(0); 256];
    // A block freed earlier stays on its list through later deposits.
    classes.dealloc(Slice(32u32, 36u32), &mut backing);
    // 12 units: the 8-unit class takes the prefix, the 4-unit leftover is
    // deposited on the smaller class.
    classes.dealloc(Slice(0u32, 12u32), &mut backing);
    assert_eq!(classes.allocate(8, &mut backing), Some(Slice(0u32, 8u32)));
    assert_eq!(classes.allocate(4, &mut backing), Some(Slice(8u32, 12u32)));
    assert_eq!(classes.allocate(4, &mut backing), Some(Slice(32u32, 36u32)));
    assert_eq!(classes.allocate(4, &mut backing), None::<Slice<u32>>);
}
