use mini_pool::pool::Arena;
use mini_pool::pool::EmptyPool;
use mini_pool::pool::GetMut;
use mini_pool::pool::GetRef;
use mini_pool::pool::Insert;
use mini_pool::pool::Pool;
use mini_pool::pool::RemovePool;

#[test]
#[should_panic]
fn empty_pool_insert_fails() {
    let _: u8 = EmptyPool::<u64>::default().insert(5);
}

#[test]
#[should_panic]
fn empty_pool_remove_fails() {
    let _ = EmptyPool::<u64>::default().remove(5);
}

#[test]
fn empty_pool_delete() {
    let _ = EmptyPool::<u64>::default().delete(5);
}

#[test]
#[should_panic]
fn empty_pool_get_fails() {
    let _ = EmptyPool::<u64>::default().get(5);
}

#[test]
#[should_panic]
fn empty_pool_get_mut_fails() {
    let _ = EmptyPool::<u64>::default().get_mut(5);
}

#[test]
fn basic_arena_usage() {
    let mut arena = Arena::new(vec![]);
    assert_eq!(arena.insert(5), 0);
    arena.delete(0);
    assert_eq!(arena.get(0), &0);
    *arena.get_mut(0) = 6;
    assert_eq!(arena.get(0), &6);
    assert_eq!(arena.try_get(1), None);
    assert_eq!(arena.try_remove(0), Some(6));
    assert_eq!(arena.try_remove(0), Some(0));
}

#[test]
fn arena_key_exhaustion() {
    let mut arena: Arena<Vec<u32>, u8> = Arena::from(vec![]);
    for i in 0..=255u32 {
        assert_eq!(arena.try_insert(i), Ok(i as u8));
    }
    assert_eq!(arena.try_insert(256), Err(256));
}
