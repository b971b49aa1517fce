//! The storage that each instance of a row class with a delegate carries:
//! the address of its delegate, which the instance owns from the moment the
//! delegate is attached until the instance is destroyed, and the handle of
//! its background color, which is lent to it and may be absent.

use vstd::prelude::*;
use crate::foundation::NIL;

verus! {

/// Why a delegate is not attached.
#[derive(Clone, Copy, Debug, PartialEq, Eq, Structural)]
pub enum AttachError {
    /// The address stands for "no object".
    NullDelegate,
    /// The instance has a delegate already.
    AlreadyAttached,
}

/// What attaching the delegate at `delegate` does to a delegate slot that
/// holds `slot`: an empty slot takes the address, a filled one keeps what it
/// has.
pub open spec fn spec_attach(slot: usize, delegate: usize) -> (usize, Result<(), AttachError>) {
    if delegate == NIL {
        (slot, Err(AttachError::NullDelegate))
    } else if slot != NIL {
        (slot, Err(AttachError::AlreadyAttached))
    } else {
        (delegate, Ok(()))
    }
}

/// The two storage slots of one instance.
#[derive(Debug)]
pub struct InstanceStorage {
    delegate_ptr: usize,
    background_color: usize,
}

impl InstanceStorage {
    /// The address of the delegate, or `NIL` while none is attached.
    pub closed spec fn spec_delegate_ptr(&self) -> usize {
        self.delegate_ptr
    }

    /// The handle of the background color, or `NIL` if there is none.
    pub closed spec fn spec_background_color(&self) -> usize {
        self.background_color
    }

    /// The storage of a new instance: no delegate, no background color.
    pub fn new() -> (storage: InstanceStorage)
        ensures
            storage.spec_delegate_ptr() == NIL,
            storage.spec_background_color() == NIL,
    {
        InstanceStorage { delegate_ptr: NIL, background_color: NIL }
    }

    /// The storage as it is read off a native instance.
    pub fn from_raw(delegate_ptr: usize, background_color: usize) -> (storage: InstanceStorage)
        ensures
            storage.spec_delegate_ptr() == delegate_ptr,
            storage.spec_background_color() == background_color,
    {
        InstanceStorage { delegate_ptr, background_color }
    }

    /// The address of the delegate, or `NIL` while none is attached.
    pub fn delegate_ptr(&self) -> (addr: usize)
        ensures
            addr == self.spec_delegate_ptr(),
    {
        self.delegate_ptr
    }

    /// The handle of the background color, or `NIL` if there is none.
    pub fn background_color(&self) -> (handle: usize)
        ensures
            handle == self.spec_background_color(),
    {
        self.background_color
    }

    /// Whether a delegate is attached.
    pub fn has_delegate(&self) -> (attached: bool)
        ensures
            attached == (self.spec_delegate_ptr() != NIL),
    {
        self.delegate_ptr != NIL
    }

    /// Hands the delegate at `delegate` over to the instance. The instance
    /// takes it only while it has none: a delegate, once attached, is never
    /// replaced.
    pub fn attach_delegate(&mut self, delegate: usize) -> (attached: Result<(), AttachError>)
        ensures
            (final(self).spec_delegate_ptr(), attached) == spec_attach(
                old(self).spec_delegate_ptr(),
                delegate,
            ),
            final(self).spec_background_color() == old(self).spec_background_color(),
    {
        if delegate == NIL {
            Err(AttachError::NullDelegate)
        } else if self.delegate_ptr != NIL {
            Err(AttachError::AlreadyAttached)
        } else {
            self.delegate_ptr = delegate;
            Ok(())
        }
    }
}

} // verus!
