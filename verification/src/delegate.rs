//! What a delegate of a row view can be asked.

use vstd::prelude::*;
use crate::dragdrop::{DragInfo, DragOperation};

verus! {

/// The behaviour that a row view takes from its delegate.
pub trait ViewDelegate {
    /// A drag has entered the view: which operation does it offer?
    fn dragging_entered(&self, info: DragInfo) -> DragOperation;

    /// The drag is about to be dropped: may it go on?
    fn prepare_for_drag_operation(&self, info: DragInfo) -> bool;

    /// The data is dropped: was it taken?
    fn perform_drag_operation(&self, info: DragInfo) -> bool;

    /// The drop is over.
    fn conclude_drag_operation(&self, info: DragInfo);

    /// The drag has left the view without a drop.
    fn dragging_exited(&self, info: DragInfo);
}

} // verus!
