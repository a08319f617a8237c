use mini_pool::pool::slab::KeySlabPool;
use mini_pool::pool::Insert;
use mini_pool::pool::Pool;
use mini_pool::pool::RemovePool;
use mini_pool::slot::TaggedSlot;

#[test]
fn basic_key_slab_pool_usage() {
    let mut pool: KeySlabPool<TaggedSlot<u8, String>, u8> = KeySlabPool::new();
    assert_eq!(pool.total_slots(), 0);
    assert_eq!(pool.free_slots(), 0);
    assert_eq!(pool.capacity(), 0);
    assert_eq!(pool.free_capacity(), 0);

    pool.reserve(3);

    assert_eq!(pool.total_slots(), 0);
    assert_eq!(pool.free_slots(), 0);
    assert!(pool.capacity() >= 3);
    assert_eq!(pool.free_capacity(), pool.capacity());

    // Test insertion
    for i in 0..=255u8 {
        assert_eq!(pool.next_key(), Some(i));
        let k = pool.insert(format!("{i}"));
        assert_eq!(k, i);
    }
    assert_eq!(pool.next_key(), None);
    assert_eq!(pool.try_insert("256".to_string()), Err("256".to_string()));

    assert_eq!(pool.total_slots(), 256);
    assert_eq!(pool.free_slots(), 0);
    let cap = pool.capacity();
    assert!(cap >= 256);
    assert_eq!(pool.free_capacity(), cap - pool.total_slots());

    // Test reading
    for i in 0..=255u8 {
        let mut s = format!("{i}");
        assert_eq!(pool.get_slot(i).unwrap(), &TaggedSlot::Value(s.clone()));
        assert_eq!(pool.at(i), &s);
        assert_eq!(pool.at_mut(i), &mut s);
        s.push('a');
        pool.at_mut(i).push('a');
        assert_eq!(pool.at_mut(i), &mut s);
    }

    // Test deleting
    let mut free = 0;
    for i in (0..=255u8).step_by(2) {
        assert_eq!(pool.free_slots(), free);
        assert_eq!(pool.remove(i), format!("{i}a"));
        free += 1;
        assert_eq!(pool.free_slots(), free);
    }
    assert_eq!(pool.total_slots(), 256);
    assert_eq!(pool.free_slots(), 128);
    assert_eq!(pool.capacity(), cap);

    for i in 0..=255u8 {
        let v = pool.get_slot(i).unwrap();
        if i == 0 {
            assert_eq!(v, &TaggedSlot::Key(0));
        } else if i % 2 == 0 {
            assert_eq!(v, &TaggedSlot::Key(i - 2));
        } else {
            let mut s = format!("{i}a");
            assert_eq!(v, &TaggedSlot::Value(s.clone()));
            assert_eq!(pool.at(i), &s);
            s.push('b');
            pool.at_mut(i).push('b');
            assert_eq!(pool.at_mut(i), &mut s);
        }
    }

    // Test deleting everything
    for i in (1..=255u8).step_by(2) {
        pool.delete(i);
    }

    assert_eq!(pool.total_slots(), 256);
    assert_eq!(pool.free_slots(), 256);
    assert_eq!(pool.capacity(), cap);
    assert_eq!(pool.free_capacity(), cap);

    // Test re-inserting everything
    let mut keys = Vec::new();

    for i in 0..=255u8 {
        assert!(pool.next_key().is_some());
        keys.push(pool.insert(format!("{i}c")));
    }
    assert_eq!(pool.next_key(), None);
    assert_eq!(pool.try_insert("256".to_string()), Err("256".to_string()));

    assert_eq!(pool.total_slots(), 256);
    assert_eq!(pool.free_slots(), 0);
    assert_eq!(pool.capacity(), cap);

    // Test reading
    for i in 0..=255u8 {
        let mut s = format!("{i}c");
        assert_eq!(pool.get_slot(keys[i as usize]).unwrap(), &TaggedSlot::Value(s.clone()));
        assert_eq!(pool.at(keys[i as usize]), &s);
        assert_eq!(pool.try_at(keys[i as usize]), Some(&s));
        assert_eq!(pool.at_mut(keys[i as usize]), &s);
        assert_eq!(pool.try_at_mut(keys[i as usize]), Some(&mut s));
        s.push('d');
        pool.at_mut(keys[i as usize]).push('d');
        assert_eq!(pool.at_mut(keys[i as usize]), &mut s);
    }

    // Test shrinking and clearing
    pool.shrink_to_fit();
    assert_eq!(pool.total_slots(), 256);
    assert_eq!(pool.free_slots(), 0);
    assert_eq!(pool.capacity(), cap);
    pool.clear();
    assert_eq!(pool.total_slots(), 0);
    assert_eq!(pool.free_slots(), 0);
    assert_eq!(pool.capacity(), cap);
    assert_eq!(pool.free_capacity(), cap);
    pool.shrink_to_fit();
    assert_eq!(pool.total_slots(), 0);
    assert_eq!(pool.free_slots(), 0);
    assert_eq!(pool.capacity(), 0);
    assert_eq!(pool.free_capacity(), 0);
}

#[test]
fn stale_read_on_tagged_slot() {
    let mut pool: KeySlabPool<TaggedSlot<u8, String>, u8> = KeySlabPool::new();
    let k = pool.insert("live".to_string());
    assert_eq!(pool.try_at(k), Some(&"live".to_string()));
    assert_eq!(pool.remove(k), "live".to_string());
    // A deleted entry cleanly reports "not a value" through the tag.
    assert_eq!(pool.try_at(k), None);
}
