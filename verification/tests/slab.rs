use mini_pool::pool::container::stack::StackPool;
use mini_pool::pool::container::InsertEmpty;
use mini_pool::pool::container::InsertWithCapacity;
use mini_pool::pool::container::IsEmptyPool;
use mini_pool::pool::container::LenPool;
use mini_pool::pool::slab::free::IntrusiveFree;
use mini_pool::pool::slab::SlabPool;
use mini_pool::pool::Insert;
use mini_pool::pool::Pool;
use mini_pool::pool::RemovePool;
use mini_pool::slot::DefaultSlot;
use mini_pool::slot::TaggedSlot;

#[test]
fn basic_slab_pool_usage() {
    let mut pool: SlabPool<DefaultSlot<String>, u8> = SlabPool::new();
    assert_eq!(pool.total_slots(), 0);
    assert_eq!(pool.free_slots(), 0);
    assert_eq!(pool.capacity(), 0);
    assert_eq!(pool.free_capacity(), 0);

    pool.reserve(3);

    assert_eq!(pool.total_slots(), 0);
    assert_eq!(pool.free_slots(), 0);
    assert!(pool.capacity() >= 3);
    assert_eq!(pool.free_capacity(), pool.capacity());

    // Test insertion
    for i in 0..=255u8 {
        assert_eq!(pool.next_key(), Some(i));
        let k = pool.insert(format!("{i}"));
        assert_eq!(k, i);
    }
    assert_eq!(pool.next_key(), None);
    assert_eq!(pool.try_insert("256".to_string()), Err("256".to_string()));

    assert_eq!(pool.total_slots(), 256);
    assert_eq!(pool.free_slots(), 0);
    let cap = pool.capacity();
    assert!(cap >= 256);
    assert_eq!(pool.free_capacity(), cap - pool.total_slots());

    // Test reading
    for i in 0..=255u8 {
        let mut s = format!("{i}");
        assert_eq!(pool.get_slot(i).unwrap().0, s);
        assert_eq!(pool.get_slot_mut(i).unwrap().0, s);
        assert_eq!(pool.at(i), &s);
        assert_eq!(pool.at_mut(i), &mut s);
        s.push('a');
        pool.at_mut(i).push('a');
        assert_eq!(pool.at_mut(i), &mut s);
    }

    // Test deleting
    let mut free = 0;
    for i in (0..=255u8).step_by(2) {
        assert_eq!(pool.free_slots(), free);
        assert_eq!(pool.remove(i), format!("{i}a"));
        free += 1;
        assert_eq!(pool.free_slots(), free);
    }
    assert_eq!(pool.total_slots(), 256);
    assert_eq!(pool.free_slots(), 128);
    assert_eq!(pool.capacity(), cap);

    for i in 0..=255u8 {
        let v = pool.get_slot(i).unwrap();
        if i % 2 != 0 {
            let mut s = format!("{i}a");
            assert_eq!(v.0, s);
            assert_eq!(pool.at(i), &s);
            s.push('b');
            pool.at_mut(i).push('b');
            assert_eq!(pool.at_mut(i), &mut s);
        }
    }

    // Test deleting everything
    for i in (1..=255u8).step_by(2) {
        pool.delete(i);
    }

    assert_eq!(pool.total_slots(), 256);
    assert_eq!(pool.free_slots(), 256);
    assert_eq!(pool.capacity(), cap);
    assert_eq!(pool.free_capacity(), cap);

    // Test re-inserting everything
    let mut keys = Vec::new();

    for i in 0..=255u8 {
        assert!(pool.next_key().is_some());
        keys.push(pool.insert(format!("{i}c")));
    }
    assert_eq!(pool.next_key(), None);
    assert_eq!(pool.try_insert("256".to_string()), Err("256".to_string()));

    assert_eq!(pool.total_slots(), 256);
    assert_eq!(pool.free_slots(), 0);
    assert_eq!(pool.capacity(), cap);

    // Test reading
    for i in 0..=255u8 {
        let mut s = format!("{i}c");
        assert_eq!(pool.get_slot(keys[i as usize]).unwrap().0, s);
        assert_eq!(pool.get_slot_mut(keys[i as usize]).unwrap().0, s);
        assert_eq!(pool.at(keys[i as usize]), &s);
        assert_eq!(pool.try_at(keys[i as usize]), Some(&s));
        assert_eq!(pool.at_mut(keys[i as usize]), &s);
        assert_eq!(pool.try_at_mut(keys[i as usize]), Some(&mut s));
        s.push('d');
        pool.at_mut(keys[i as usize]).push('d');
        assert_eq!(pool.at_mut(keys[i as usize]), &mut s);
    }

    // Test shrinking and clearing
    pool.shrink_to_fit();
    assert_eq!(pool.total_slots(), 256);
    assert_eq!(pool.free_slots(), 0);
    assert_eq!(pool.capacity(), cap);
    pool.clear();
    assert_eq!(pool.total_slots(), 0);
    assert_eq!(pool.free_slots(), 0);
    assert_eq!(pool.capacity(), cap);
    assert_eq!(pool.free_capacity(), cap);
    pool.shrink_to_fit();
    assert_eq!(pool.total_slots(), 0);
    assert_eq!(pool.free_slots(), 0);
    assert_eq!(pool.capacity(), 0);
    assert_eq!(pool.free_capacity(), 0);
}

#[test]
#[should_panic]
fn slab_insertion_overflow() {
    let mut pool: SlabPool<DefaultSlot<usize>, u8> = SlabPool::new();
    for i in 0..257 {
        let _ = pool.insert(i);
    }
}

#[test]
#[should_panic]
fn key_slab_insertion_overflow() {
    let mut pool: SlabPool<TaggedSlot<u8, usize>, u8, IntrusiveFree> = SlabPool::new();
    for i in 0..257 {
        let _ = pool.insert(i);
    }
}

#[test]
fn slab_stack_pool() {
    let mut pool: SlabPool<DefaultSlot<Vec<u32>>> = SlabPool::new();
    let s1 = pool.insert_empty();
    assert_eq!(s1, 0);
    assert!(pool.key_is_empty(s1));
    assert_eq!(pool.key_len(s1), 0);
    StackPool::push(&mut pool, s1, 5);
    assert!(!pool.key_is_empty(s1));
    assert_eq!(pool.key_len(s1), 1);
    StackPool::push(&mut pool, s1, 6);
    assert!(!pool.key_is_empty(s1));
    assert_eq!(pool.key_len(s1), 2);
    assert_eq!(pool.pop(s1), Some(6));
    assert!(!pool.key_is_empty(s1));
    assert_eq!(pool.key_len(s1), 1);
    let s2 = pool.insert_unique_empty().unwrap();
    assert_eq!(s2, 1);
    let s3 = pool.insert_with_capacity(3);
    assert_eq!(s3, 2);
    let s4 = pool.insert_with_capacity(4);
    assert_eq!(s4, 3);
    assert_eq!(pool.remove(s4), vec![]);
    let s4 = pool.insert_empty();
    assert_eq!(s4, 3);
    assert_eq!(s4, pool.into_pushed(s4, 5));
    assert_eq!(Some((s4, 5)), pool.into_popped(s4));
    assert_eq!(None, pool.into_popped(s4));

    let mut small_pool: SlabPool<DefaultSlot<Vec<u32>>, u8> = SlabPool::new();
    for i in 0..=255 {
        assert_eq!(Ok(i), small_pool.try_insert_empty());
    }
    assert_eq!(Err(()), small_pool.try_insert_empty());
    small_pool.clear();
    for i in 0..=255 {
        assert_eq!(Ok(i), small_pool.insert_unique_empty());
    }
    assert_eq!(Err(()), small_pool.insert_unique_empty());
    small_pool.clear();
    for i in 0..=255 {
        assert_eq!(Ok(i), small_pool.try_insert_with_capacity(i as usize));
    }
    assert_eq!(Err(()), small_pool.try_insert_with_capacity(3));
}

#[test]
fn lifo_reuse_key_list() {
    let mut pool: SlabPool<DefaultSlot<u32>, u8> = SlabPool::new();
    let k1 = pool.insert(10);
    let k2 = pool.insert(20);
    let k3 = pool.insert(30);
    assert_eq!((k1, k2, k3), (0, 1, 2));
    pool.delete(k1);
    pool.delete(k2);
    assert_eq!(pool.next_key(), Some(k2));
    assert_eq!(pool.insert(21), k2);
    assert_eq!(pool.next_key(), Some(k1));
    assert_eq!(pool.insert(11), k1);
    assert_eq!(pool.at(k1), &11);
    assert_eq!(pool.at(k2), &21);
    assert_eq!(pool.at(k3), &30);
}

#[test]
fn lifo_reuse_intrusive() {
    let mut pool: SlabPool<TaggedSlot<u8, u32>, u8, IntrusiveFree> = SlabPool::new();
    let k1 = pool.insert(10);
    let k2 = pool.insert(20);
    let k3 = pool.insert(30);
    assert_eq!((k1, k2, k3), (0, 1, 2));
    pool.delete(k1);
    pool.delete(k2);
    assert_eq!(pool.next_key(), Some(k2));
    assert_eq!(pool.insert(21), k2);
    assert_eq!(pool.next_key(), Some(k1));
    assert_eq!(pool.insert(11), k1);
    assert_eq!(pool.at(k1), &11);
    assert_eq!(pool.at(k2), &21);
    assert_eq!(pool.at(k3), &30);
}

#[test]
fn next_key_predicts_insert() {
    let mut pool: SlabPool<TaggedSlot<u8, u32>, u8, IntrusiveFree> = SlabPool::new();
    for i in 0..10u32 {
        let predicted = pool.next_key().unwrap();
        assert_eq!(pool.insert(i), predicted);
    }
    pool.delete(4);
    pool.delete(7);
    let predicted = pool.next_key().unwrap();
    assert_eq!(pool.insert(100), predicted);
    assert_eq!(predicted, 7);
}

#[test]
fn push_pop_balance() {
    let mut pool: SlabPool<DefaultSlot<Vec<u32>>> = SlabPool::new();
    let k = pool.insert_empty();
    assert_eq!(pool.key_len(k), 0);
    for i in 0..16u32 {
        StackPool::push(&mut pool, k, i);
    }
    assert_eq!(pool.key_len(k), 16);
    for i in (0..16u32).rev() {
        assert_eq!(pool.pop(k), Some(i));
    }
    assert_eq!(pool.key_len(k), 0);
    assert!(pool.key_is_empty(k));
    assert_eq!(pool.pop(k), None);
}
