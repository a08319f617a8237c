use mini_pool::slot::CloneSlot;
use mini_pool::slot::DefaultSlot;
use mini_pool::slot::CheckedSlot;
use mini_pool::slot::InitFrom;
use mini_pool::slot::KeySlot;
use mini_pool::slot::RemoveSlot;
use mini_pool::slot::Slot;
use mini_pool::slot::SlotMut;
use mini_pool::slot::SlotRef;
use mini_pool::slot::TaggedSlot;

#[test]
fn default_slot_impl() {
    assert_eq!(DefaultSlot(5).try_key(), Some(5));
    assert_eq!(DefaultSlot(5).key(), 5);
    assert_eq!(DefaultSlot(5).try_into_value(), Some(5));
    assert_eq!(DefaultSlot(5).into_value(), 5);
    assert_eq!(DefaultSlot(5).try_value(), Some(&5));
    assert_eq!(DefaultSlot(6).try_value_mut(), Some(&mut 6));
    assert_eq!(DefaultSlot(5).value(), &5);
    assert_eq!(DefaultSlot(6).value_mut(), &mut 6);
    assert_eq!(DefaultSlot(5).try_swap(TaggedSlot::Key(7)), Some(5));
    let mut slot = DefaultSlot(7);
    assert_eq!(slot.try_remove_value(), Some(7));
    assert_eq!(slot, DefaultSlot(0));
    assert_eq!(slot.remove_value(), 0);
    assert_eq!(slot, DefaultSlot(0));
    slot.set_value(5);
    assert_eq!(slot, DefaultSlot(5));
    slot.delete_value();
    assert_eq!(slot, DefaultSlot(0));
}

#[test]
fn clone_slot_impl() {
    assert_eq!(CloneSlot(5).try_key(), Some(5));
    assert_eq!(CloneSlot(5).key(), 5);
    assert_eq!(CloneSlot(5).try_into_value(), Some(5));
    assert_eq!(CloneSlot(5).into_value(), 5);
    assert_eq!(CloneSlot(5).try_value(), Some(&5));
    assert_eq!(CloneSlot(6).try_value_mut(), Some(&mut 6));
    assert_eq!(CloneSlot(5).value(), &5);
    assert_eq!(CloneSlot(6).value_mut(), &mut 6);
    assert_eq!(CloneSlot(5).try_swap(TaggedSlot::Key(7)), Some(5));
    let mut slot = CloneSlot(7);
    assert_eq!(slot.try_remove_value(), Some(7));
    assert_eq!(slot, CloneSlot(7));
    assert_eq!(slot.remove_value(), 7);
    assert_eq!(slot, CloneSlot(7));
    slot.delete_value();
    assert_eq!(slot, CloneSlot(7));
}

#[test]
fn tagged_slot_impl() {
    let mut e: TaggedSlot<u8, u16> = TaggedSlot::Key(5);
    assert_eq!(e.key(), 5);
    assert_eq!(e.try_key(), Some(5));
    assert_eq!(e.try_value(), None);
    assert_eq!(e.try_value_mut(), None);
    assert_eq!(e.try_into_value(), None);
    assert!(!e.has_value());
    assert!(e.has_key());
    e.set_key(7);
    assert_eq!(e.key(), 7);
    assert_eq!(e.try_key(), Some(7));
    assert_eq!(e.try_value(), None);
    assert!(!e.has_value());
    assert!(e.has_key());
    e.set_value(55);
    assert!(e.has_value());
    assert!(!e.has_key());
    assert_eq!(e.try_value(), Some(&55));
    assert_eq!(e.try_key(), None);
    assert_eq!(e.try_value_mut(), Some(&mut 55));
    assert_eq!(e.try_into_value(), Some(55));
    assert_eq!(*e.value(), 55);
    assert_eq!(*e.value_mut(), 55);
    assert_eq!(e.swap_key(9), 55);
    assert_eq!(e.try_key(), Some(9));
    e.set_slot(TaggedSlot::Value(98));
    assert_eq!(e.swap(TaggedSlot::Value(99)), 98);
    assert_eq!(e.swap_value(32), 99);
    assert_eq!(*e.value(), 32);
    assert_eq!(*e.value_mut(), 32);
    *e.value_mut() = 15;
    assert_eq!(*e.value(), 15);
    assert_eq!(*e.value_mut(), 15);
    assert_eq!(e.into_value(), 15);
}

#[test]
fn tagged_slot_from_key_and_value() {
    let k: TaggedSlot<u8, u16> = TaggedSlot::from_key(3);
    assert_eq!(k, TaggedSlot::Key(3));
    let v: TaggedSlot<u8, u16> = TaggedSlot::from_value(300);
    assert_eq!(v, TaggedSlot::Value(300));
    assert_eq!(v.try_key(), None);
    assert_eq!(k.into_either(), TaggedSlot::Key(3));
    assert_eq!(v.as_either(), TaggedSlot::Value(&300));
}
