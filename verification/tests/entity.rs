use std::cmp::Ordering;

use mini_pool::entity::list::EntityList;
use mini_pool::pool::slab::SlabPool;
use mini_pool::slot::DefaultSlot;

#[test]
fn basic_entity_list_usage() {
    let mut pool: SlabPool<DefaultSlot<Vec<u32>>, u32> = SlabPool::new();
    let mut v = EntityList::new(&mut pool);
    assert_eq!(v.len(&pool), 0);
    assert_eq!(v.pop(&mut pool), None);
    assert!(v.is_empty(&pool));
    assert_eq!(v.as_slice(&pool), &[]);
    assert_eq!(v.as_slice_mut(&mut pool), &mut []);
    v.push(3, &mut pool);
    assert_eq!(v.len(&pool), 1);
    assert_eq!(v.get(0, &pool), Some(&3));
    assert_eq!(v.get_mut(0, &mut pool), Some(&mut 3));
    assert_eq!(v.as_slice(&pool), &[3]);
    assert_eq!(v.as_slice_mut(&mut pool), &mut [3]);
    v.as_slice_mut(&mut pool)[0] = 5;
    assert_eq!(v.as_slice(&pool), &[5]);
    assert_eq!(v.as_slice_mut(&mut pool), &mut [5]);
    assert_eq!(v.get(0, &pool), Some(&5));
    assert_eq!(v.get_mut(0, &mut pool), Some(&mut 5));
    assert_eq!(v.pop(&mut pool), Some(5));
    assert_eq!(v.len(&pool), 0);
    assert_eq!(v.as_slice(&pool), &[]);
    assert_eq!(v.as_slice_mut(&mut pool), &mut []);
    assert_eq!(v.pop(&mut pool), None);

    assert_eq!(v.debug_string(), "EntityList(0)");
    assert!(v.clone() == v);
    let u = EntityList::new(&mut pool);
    assert!(v != u);
    assert!(v < u);
    assert_eq!(v.partial_cmp(&u), Some(Ordering::Less));
    assert_eq!(v.cmp(&u), Ordering::Less);
}
