use listview_row::foundation::NIL;
use listview_row::storage::{AttachError, InstanceStorage};

#[test]
fn new_storage_is_unset() {
    let storage = InstanceStorage::new();
    assert_eq!(storage.delegate_ptr(), NIL);
    assert_eq!(storage.background_color(), NIL);
    assert!(!storage.has_delegate());
}

#[test]
fn raw_storage_keeps_both_slots() {
    let storage = InstanceStorage::from_raw(0x2000, 0xC0);
    assert_eq!(storage.delegate_ptr(), 0x2000);
    assert_eq!(storage.background_color(), 0xC0);
    assert!(storage.has_delegate());
}

#[test]
fn unset_sentinel_is_zero() {
    assert_eq!(NIL, 0);
    assert!(!InstanceStorage::from_raw(0, 0xC0).has_delegate());
}

#[test]
fn attach_fills_an_empty_slot() {
    let mut storage = InstanceStorage::from_raw(NIL, 0xC0);
    assert_eq!(storage.attach_delegate(0x2000), Ok(()));
    assert_eq!(storage.delegate_ptr(), 0x2000);
    assert_eq!(storage.background_color(), 0xC0);
    assert!(storage.has_delegate());
}

#[test]
fn attached_delegate_is_never_replaced() {
    let mut storage = InstanceStorage::new();
    assert_eq!(storage.attach_delegate(0x2000), Ok(()));
    assert_eq!(storage.attach_delegate(0x3000), Err(AttachError::AlreadyAttached));
    assert_eq!(storage.delegate_ptr(), 0x2000);
    assert_eq!(storage.attach_delegate(0x2000), Err(AttachError::AlreadyAttached));
    assert_eq!(storage.delegate_ptr(), 0x2000);
}

#[test]
fn nil_delegate_is_not_attached() {
    let mut storage = InstanceStorage::new();
    assert_eq!(storage.attach_delegate(NIL), Err(AttachError::NullDelegate));
    assert!(!storage.has_delegate());
    let mut filled = InstanceStorage::from_raw(0x2000, NIL);
    assert_eq!(filled.attach_delegate(NIL), Err(AttachError::NullDelegate));
    assert_eq!(filled.delegate_ptr(), 0x2000);
}
