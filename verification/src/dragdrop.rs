//! What a drag session hands to a view, and what the view may answer.

use vstd::prelude::*;
use crate::foundation::NSUInteger;

verus! {

/// The operation a view offers for the data being dragged over it.
#[derive(Clone, Copy, Debug, PartialEq, Eq, Structural)]
pub enum DragOperation {
    /// No operation is allowed.
    Nothing,
    /// The data can be copied.
    Copy,
    /// The data can be shared.
    Link,
    /// The destination defines the operation.
    Generic,
    /// Source and destination negotiate privately.
    Private,
    /// The data can be moved.
    Move,
    /// The data can be deleted.
    Delete,
}

impl DragOperation {
    /// The native drag-operation mask of this operation.
    pub open spec fn spec_mask(self) -> NSUInteger {
        match self {
            DragOperation::Nothing => 0,
            DragOperation::Copy => 1,
            DragOperation::Link => 2,
            DragOperation::Generic => 4,
            DragOperation::Private => 8,
            DragOperation::Move => 16,
            DragOperation::Delete => 32,
        }
    }

    /// Converts the operation to its native mask.
    pub fn mask(self) -> (mask: NSUInteger)
        ensures
            mask == self.spec_mask(),
    {
        match self {
            DragOperation::Nothing => 0,
            DragOperation::Copy => 1,
            DragOperation::Link => 2,
            DragOperation::Generic => 4,
            DragOperation::Private => 8,
            DragOperation::Move => 16,
            DragOperation::Delete => 32,
        }
    }
}

/// A drag session as a delegate sees it: the native session handle, lent for
/// the length of one callback.
#[derive(Debug)]
pub struct DragInfo {
    /// The address of the native session object.
    pub info: usize,
}

} // verus!
