//! The answers to the native callbacks of a row view.
//!
//! The runtime calls back with an instance and, for the stages of a drag,
//! the handle of the drag session. Whoever receives the callback reads the
//! instance's storage, finds the delegate, and asks here what to answer and
//! what to do.

use vstd::prelude::*;
use crate::delegate::ViewDelegate;
use crate::dragdrop::{DragInfo, DragOperation};
use crate::foundation::{native_bool, to_native_bool, BOOL, NIL, NSUInteger, YES};
use crate::storage::{spec_attach, InstanceStorage};

verus! {

/// Answers the native coordinate-system query: a row view always measures
/// from its top-left corner.
pub fn enforce_normalcy() -> (flipped: BOOL)
    ensures
        flipped == YES,
{
    YES
}

/// The session with the handle `info` as a delegate is shown it.
pub open spec fn session(info: usize) -> DragInfo {
    DragInfo { info }
}

/// A drag has entered the view. The delegate is asked with the session, and
/// the answer is the native mask of the operation it offers.
pub fn dragging_entered<T: ViewDelegate>(view: &T, info: usize) -> (mask: NSUInteger)
    ensures
        exists|offered: DragOperation|
            call_ensures(T::dragging_entered, (view, session(info)), offered) && mask
                == #[trigger] offered.spec_mask(),
{
    let offered = view.dragging_entered(DragInfo { info });
    offered.mask()
}

/// A drag is about to be dropped. The delegate is asked with the session,
/// and the answer is its consent as a native boolean.
pub fn prepare_for_drag_operation<T: ViewDelegate>(view: &T, info: usize) -> (flag: BOOL)
    ensures
        exists|accepted: bool|
            call_ensures(T::prepare_for_drag_operation, (view, session(info)), accepted) && flag
                == #[trigger] native_bool(accepted),
{
    let accepted = view.prepare_for_drag_operation(DragInfo { info });
    to_native_bool(accepted)
}

/// The dragged data is dropped. The delegate is asked with the session, and
/// the answer is whether it took the data, as a native boolean.
pub fn perform_drag_operation<T: ViewDelegate>(view: &T, info: usize) -> (flag: BOOL)
    ensures
        exists|accepted: bool|
            call_ensures(T::perform_drag_operation, (view, session(info)), accepted) && flag
                == #[trigger] native_bool(accepted),
{
    let accepted = view.perform_drag_operation(DragInfo { info });
    to_native_bool(accepted)
}

/// The drop is over: the delegate is told, with the session.
pub fn conclude_drag_operation<T: ViewDelegate>(view: &T, info: usize)
    ensures
        call_ensures(T::conclude_drag_operation, (view, session(info)), ()),
{
    view.conclude_drag_operation(DragInfo { info });
}

/// The drag has left the view without a drop: the delegate is told, with the
/// session.
pub fn dragging_exited<T: ViewDelegate>(view: &T, info: usize)
    ensures
        call_ensures(T::dragging_exited, (view, session(info)), ()),
{
    view.dragging_exited(DragInfo { info });
}

/// What the runtime is asked to do while a layer is repainted.
#[derive(Clone, Copy, Debug, PartialEq, Eq, Structural)]
pub enum LayerAction {
    /// Leave the layer as it is.
    Nothing,
    /// Convert the color with this handle to the layer's own representation,
    /// and come back with the result.
    ConvertColor(usize),
    /// Make the converted color with this handle the layer's background.
    SetBackgroundColor(usize),
}

/// What a repaint asks for, given the background color slot: nothing if the
/// color is absent, else the conversion of the color.
pub open spec fn spec_update_layer(background_color: usize) -> LayerAction {
    if background_color == NIL {
        LayerAction::Nothing
    } else {
        LayerAction::ConvertColor(background_color)
    }
}

/// What follows a conversion: nothing if it failed, else the change of the
/// layer's background to the converted color.
pub open spec fn spec_apply_converted_color(converted: usize) -> LayerAction {
    if converted == NIL {
        LayerAction::Nothing
    } else {
        LayerAction::SetBackgroundColor(converted)
    }
}

/// The layer of the instance needs repainting: says what to do first.
pub fn update_layer(storage: &InstanceStorage) -> (action: LayerAction)
    ensures
        action == spec_update_layer(storage.spec_background_color()),
{
    let color = storage.background_color();
    if color == NIL {
        LayerAction::Nothing
    } else {
        LayerAction::ConvertColor(color)
    }
}

/// The runtime has converted the background color, or failed to (`NIL`):
/// says what to do with the result.
pub fn apply_converted_color(converted: usize) -> (action: LayerAction)
    ensures
        action == spec_apply_converted_color(converted),
{
    if converted == NIL {
        LayerAction::Nothing
    } else {
        LayerAction::SetBackgroundColor(converted)
    }
}

/// Everything one repaint asks of the runtime, in order, where the slot
/// holds `background_color` and the runtime answers a conversion with
/// `converted`.
pub open spec fn spec_repaint(background_color: usize, converted: usize) -> Seq<LayerAction> {
    match spec_update_layer(background_color) {
        LayerAction::ConvertColor(color) => match spec_apply_converted_color(converted) {
            LayerAction::Nothing => seq![LayerAction::ConvertColor(color)],
            change => seq![LayerAction::ConvertColor(color), change],
        },
        _ => Seq::empty(),
    }
}

/// How many of `actions` change a layer.
pub open spec fn mutations(actions: Seq<LayerAction>) -> nat
    decreases actions.len(),
{
    if actions.len() == 0 {
        0
    } else {
        mutations(actions.drop_last()) + if actions.last() is SetBackgroundColor {
            1nat
        } else {
            0nat
        }
    }
}

/// How many of `actions` convert a color.
pub open spec fn conversions(actions: Seq<LayerAction>) -> nat
    decreases actions.len(),
{
    if actions.len() == 0 {
        0
    } else {
        conversions(actions.drop_last()) + if actions.last() is ConvertColor {
            1nat
        } else {
            0nat
        }
    }
}

/// A repaint without a background color asks nothing of the runtime. A
/// repaint with one converts it once; it changes the layer once, to the
/// converted color, if the conversion succeeds, and not at all if it fails.
pub proof fn repaint_changes_layer_at_most_once(background_color: usize, converted: usize)
    ensures
        background_color == NIL ==> spec_repaint(background_color, converted) == Seq::<
            LayerAction,
        >::empty(),
        background_color != NIL ==> conversions(spec_repaint(background_color, converted)) == 1,
        background_color != NIL && converted != NIL ==> spec_repaint(background_color, converted)
            == seq![
            LayerAction::ConvertColor(background_color),
            LayerAction::SetBackgroundColor(converted),
        ] && mutations(spec_repaint(background_color, converted)) == 1,
        background_color == NIL || converted == NIL ==> mutations(
            spec_repaint(background_color, converted),
        ) == 0,
{
    reveal_with_fuel(mutations, 3);
    reveal_with_fuel(conversions, 3);
    let actions = spec_repaint(background_color, converted);
    if background_color != NIL {
        if converted != NIL {
            assert(actions.drop_last() =~= seq![LayerAction::ConvertColor(background_color)]);
            assert(actions.drop_last().drop_last() =~= Seq::<LayerAction>::empty());
        } else {
            assert(actions.drop_last() =~= Seq::<LayerAction>::empty());
        }
    }
}

/// One step in the destruction of an instance.
#[derive(Clone, Copy, Debug, PartialEq, Eq, Structural)]
pub enum TeardownStep {
    /// Take back the delegate at this address and release it.
    ReleaseDelegate(usize),
    /// Hand the destruction on to the class that the row class extends.
    ForwardToBase,
}

/// The steps in which an instance is destroyed whose delegate slot holds
/// `delegate_ptr`: the delegate, if there is one, is released, then the
/// destruction is handed on.
pub open spec fn spec_teardown(delegate_ptr: usize) -> Seq<TeardownStep> {
    if delegate_ptr == NIL {
        seq![TeardownStep::ForwardToBase]
    } else {
        seq![TeardownStep::ReleaseDelegate(delegate_ptr), TeardownStep::ForwardToBase]
    }
}

/// The instance is destroyed: says in which steps. The storage is given up
/// with the call, so no instance is destroyed twice.
pub fn dealloc(storage: InstanceStorage) -> (steps: Vec<TeardownStep>)
    ensures
        steps@ == spec_teardown(storage.spec_delegate_ptr()),
{
    let mut steps: Vec<TeardownStep> = Vec::new();
    let delegate = storage.delegate_ptr();
    if delegate != NIL {
        steps.push(TeardownStep::ReleaseDelegate(delegate));
    }
    steps.push(TeardownStep::ForwardToBase);
    assert(steps@ =~= spec_teardown(storage.spec_delegate_ptr()));
    steps
}

/// The addresses that `steps` release, in order.
pub open spec fn released(steps: Seq<TeardownStep>) -> Seq<usize>
    decreases steps.len(),
{
    if steps.len() == 0 {
        Seq::empty()
    } else {
        match steps.last() {
            TeardownStep::ReleaseDelegate(addr) => released(steps.drop_last()).push(addr),
            TeardownStep::ForwardToBase => released(steps.drop_last()),
        }
    }
}

/// The destruction of an instance with a delegate releases that delegate,
/// once, and nothing else; the destruction of an instance without one
/// releases nothing. Either way it ends by handing the destruction on.
pub proof fn teardown_releases_delegate_once(delegate_ptr: usize)
    ensures
        delegate_ptr != NIL ==> released(spec_teardown(delegate_ptr)) == seq![delegate_ptr],
        delegate_ptr == NIL ==> released(spec_teardown(delegate_ptr)) == Seq::<usize>::empty(),
        spec_teardown(delegate_ptr).last() == TeardownStep::ForwardToBase,
{
    reveal_with_fuel(released, 3);
    let steps = spec_teardown(delegate_ptr);
    if delegate_ptr != NIL {
        assert(steps.drop_last() =~= seq![TeardownStep::ReleaseDelegate(delegate_ptr)]);
        assert(steps.drop_last().drop_last() =~= Seq::<TeardownStep>::empty());
        assert(released(steps) =~= seq![delegate_ptr]);
    } else {
        assert(steps.drop_last() =~= Seq::<TeardownStep>::empty());
    }
}

/// A delegate that was attached to a new instance is the one that the
/// destruction of the instance releases, whatever was offered to the
/// instance in between.
pub proof fn attached_delegate_is_the_one_released(delegate: usize, later: usize)
    requires
        delegate != NIL,
    ensures
        spec_attach(NIL, delegate) == (delegate, Ok::<(), crate::storage::AttachError>(())),
        spec_attach(delegate, later).0 == delegate,
        released(spec_teardown(spec_attach(spec_attach(NIL, delegate).0, later).0)) == seq![
            delegate,
        ],
{
    teardown_releases_delegate_once(delegate);
}

} // verus!
