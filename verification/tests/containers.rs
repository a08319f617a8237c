use std::collections::VecDeque;

use mini_pool::pool::container::stack::StackLike;
use mini_pool::pool::container::Container;
use mini_pool::pool::container::HasLen;
use mini_pool::pool::container::IsEmpty;
use mini_pool::pool::container::WithCapacity;

#[test]
fn vec_stack_like() {
    let mut v: Vec<u32> = Container::empty_container();
    assert!(IsEmpty::is_empty(&v));
    v.push_stack(1);
    v.push_stack(2);
    assert_eq!(HasLen::len(&v), 2);
    assert!(v.stack_capacity() >= 2);
    assert_eq!(v.pop_stack(), Some(2));
    assert_eq!(v.try_push_stack(3), Ok(()));
    v.clear_stack();
    assert_eq!(HasLen::len(&v), 0);
    let w: Vec<u32> = WithCapacity::new_with_capacity(8);
    assert!(IsEmpty::is_empty(&w));
}

#[test]
fn vecdeque_stack_like() {
    let mut d: VecDeque<u32> = Container::empty_container();
    assert!(IsEmpty::is_empty(&d));
    d.push_stack(1);
    d.push_stack(2);
    assert_eq!(HasLen::len(&d), 2);
    assert!(d.stack_capacity() >= 2);
    assert_eq!(d.pop_stack(), Some(2));
    assert_eq!(d.try_push_stack(3), Ok(()));
    d.clear_stack();
    assert_eq!(HasLen::len(&d), 0);
    let w: VecDeque<u32> = WithCapacity::new_with_capacity(8);
    assert!(IsEmpty::is_empty(&w));
}
