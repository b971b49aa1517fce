//! The verified core of a bridge between a native row view and the delegate
//! that gives it behaviour: which class is registered for which delegate type,
//! what each native callback answers, and when the delegate is released.

pub mod foundation;
pub mod dragdrop;
pub mod delegate;
pub mod storage;
pub mod hooks;
pub mod naming;
pub mod declare;
pub mod registry;
