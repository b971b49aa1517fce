use std::cell::{Cell, RefCell};
use std::collections::HashMap;
use std::rc::Rc;

use listview_row::delegate::ViewDelegate;
use listview_row::dragdrop::{DragInfo, DragOperation};
use listview_row::foundation::{to_native_bool, NIL, NO, YES};
use listview_row::hooks::{
    apply_converted_color, conclude_drag_operation, dealloc, dragging_entered, dragging_exited,
    enforce_normalcy, perform_drag_operation, prepare_for_drag_operation, update_layer,
    LayerAction, TeardownStep,
};
use listview_row::storage::InstanceStorage;

/// A delegate that writes down what it is asked and answers as it was told.
struct Recorder {
    offers: DragOperation,
    prepares: bool,
    performs: bool,
    calls: RefCell<Vec<(String, usize)>>,
}

impl Recorder {
    fn answering(offers: DragOperation, prepares: bool, performs: bool) -> Recorder {
        Recorder { offers, prepares, performs, calls: RefCell::new(Vec::new()) }
    }

    fn note(&self, stage: &str, info: DragInfo) {
        self.calls.borrow_mut().push((stage.to_string(), info.info));
    }

    fn seen(&self) -> Vec<(String, usize)> {
        self.calls.borrow().clone()
    }
}

impl ViewDelegate for Recorder {
    fn dragging_entered(&self, info: DragInfo) -> DragOperation {
        self.note("entered", info);
        self.offers
    }

    fn prepare_for_drag_operation(&self, info: DragInfo) -> bool {
        self.note("prepared", info);
        self.prepares
    }

    fn perform_drag_operation(&self, info: DragInfo) -> bool {
        self.note("performed", info);
        self.performs
    }

    fn conclude_drag_operation(&self, info: DragInfo) {
        self.note("concluded", info);
    }

    fn dragging_exited(&self, info: DragInfo) {
        self.note("exited", info);
    }
}

/// A delegate that counts how often it is dropped.
struct Counted {
    drops: Rc<Cell<u32>>,
}

impl Drop for Counted {
    fn drop(&mut self) {
        self.drops.set(self.drops.get() + 1);
    }
}

/// Carries out the steps of a teardown on a heap of counted delegates, and
/// says how often the destruction was handed on.
fn carry_out(steps: &[TeardownStep], heap: &mut HashMap<usize, Box<Counted>>) -> u32 {
    let mut forwarded = 0;
    for step in steps {
        match step {
            TeardownStep::ReleaseDelegate(addr) => {
                let delegate = heap.remove(addr);
                assert!(delegate.is_some());
                drop(delegate);
            }
            TeardownStep::ForwardToBase => forwarded += 1,
        }
    }
    forwarded
}

#[test]
fn coordinate_query_reports_flipped() {
    assert_eq!(enforce_normalcy(), YES);
    assert_eq!(enforce_normalcy(), 1);
}

#[test]
fn native_booleans_are_one_and_zero() {
    assert_eq!(YES, 1);
    assert_eq!(NO, 0);
    assert_eq!(to_native_bool(true), 1);
    assert_eq!(to_native_bool(false), 0);
}

#[test]
fn each_operation_has_its_mask() {
    assert_eq!(DragOperation::Nothing.mask(), 0);
    assert_eq!(DragOperation::Copy.mask(), 1);
    assert_eq!(DragOperation::Link.mask(), 2);
    assert_eq!(DragOperation::Generic.mask(), 4);
    assert_eq!(DragOperation::Private.mask(), 8);
    assert_eq!(DragOperation::Move.mask(), 16);
    assert_eq!(DragOperation::Delete.mask(), 32);
}

#[test]
fn copy_offer_maps_to_copy_mask() {
    let delegate = Recorder::answering(DragOperation::Copy, true, true);
    assert_eq!(dragging_entered(&delegate, 0x51), 1);
    assert_eq!(delegate.seen(), vec![("entered".to_string(), 0x51)]);
}

#[test]
fn entered_answers_with_the_mask_of_whatever_the_delegate_offers() {
    let offers = [
        (DragOperation::Nothing, 0),
        (DragOperation::Copy, 1),
        (DragOperation::Link, 2),
        (DragOperation::Generic, 4),
        (DragOperation::Private, 8),
        (DragOperation::Move, 16),
        (DragOperation::Delete, 32),
    ];
    for (offer, mask) in offers {
        let delegate = Recorder::answering(offer, false, false);
        assert_eq!(dragging_entered(&delegate, 9), mask);
    }
}

#[test]
fn refused_drop_maps_to_no() {
    let delegate = Recorder::answering(DragOperation::Copy, true, false);
    assert_eq!(perform_drag_operation(&delegate, 0x51), NO);
    assert_eq!(delegate.seen(), vec![("performed".to_string(), 0x51)]);
}

#[test]
fn accepted_drop_maps_to_yes() {
    let delegate = Recorder::answering(DragOperation::Copy, true, true);
    assert_eq!(perform_drag_operation(&delegate, 0x51), YES);
}

#[test]
fn prepare_maps_the_delegates_consent() {
    let willing = Recorder::answering(DragOperation::Move, true, false);
    assert_eq!(prepare_for_drag_operation(&willing, 3), YES);
    let unwilling = Recorder::answering(DragOperation::Move, false, true);
    assert_eq!(prepare_for_drag_operation(&unwilling, 3), NO);
    assert_eq!(unwilling.seen(), vec![("prepared".to_string(), 3)]);
}

#[test]
fn scripted_session_reaches_the_delegate_in_order() {
    let delegate = Recorder::answering(DragOperation::Copy, true, true);
    let session = 0xD0_0D;
    dragging_entered(&delegate, session);
    perform_drag_operation(&delegate, session);
    conclude_drag_operation(&delegate, session);
    assert_eq!(
        delegate.seen(),
        vec![
            ("entered".to_string(), session),
            ("performed".to_string(), session),
            ("concluded".to_string(), session),
        ]
    );
}

#[test]
fn cancelled_session_ends_with_exited() {
    let delegate = Recorder::answering(DragOperation::Link, true, true);
    assert_eq!(dragging_entered(&delegate, 17), 2);
    dragging_exited(&delegate, 17);
    assert_eq!(
        delegate.seen(),
        vec![("entered".to_string(), 17), ("exited".to_string(), 17)]
    );
}

#[test]
fn two_sessions_keep_their_identities() {
    let delegate = Recorder::answering(DragOperation::Copy, true, true);
    dragging_entered(&delegate, 1);
    dragging_entered(&delegate, 2);
    conclude_drag_operation(&delegate, 2);
    dragging_exited(&delegate, 1);
    assert_eq!(
        delegate.seen(),
        vec![
            ("entered".to_string(), 1),
            ("entered".to_string(), 2),
            ("concluded".to_string(), 2),
            ("exited".to_string(), 1),
        ]
    );
}

#[test]
fn a_nil_session_is_passed_on_as_it_is() {
    let delegate = Recorder::answering(DragOperation::Copy, true, true);
    conclude_drag_operation(&delegate, NIL);
    assert_eq!(delegate.seen(), vec![("concluded".to_string(), 0)]);
}

#[test]
fn repaint_without_color_changes_nothing() {
    let storage = InstanceStorage::from_raw(0x1000, NIL);
    assert_eq!(update_layer(&storage), LayerAction::Nothing);
    let fresh = InstanceStorage::new();
    assert_eq!(update_layer(&fresh), LayerAction::Nothing);
}

#[test]
fn repaint_with_color_converts_and_applies_once() {
    let storage = InstanceStorage::from_raw(0x1000, 0xC0);
    let mut conversions = 0;
    let mut mutations = 0;
    let mut applied = None;
    let mut action = update_layer(&storage);
    loop {
        match action {
            LayerAction::Nothing => break,
            LayerAction::ConvertColor(color) => {
                assert_eq!(color, 0xC0);
                conversions += 1;
                action = apply_converted_color(0xC6);
            }
            LayerAction::SetBackgroundColor(converted) => {
                mutations += 1;
                applied = Some(converted);
                break;
            }
        }
    }
    assert_eq!(conversions, 1);
    assert_eq!(mutations, 1);
    assert_eq!(applied, Some(0xC6));
}

#[test]
fn failed_conversion_changes_nothing() {
    let storage = InstanceStorage::from_raw(NIL, 0xC0);
    assert_eq!(update_layer(&storage), LayerAction::ConvertColor(0xC0));
    assert_eq!(apply_converted_color(NIL), LayerAction::Nothing);
    assert_eq!(apply_converted_color(0xC6), LayerAction::SetBackgroundColor(0xC6));
}

#[test]
fn populated_slot_is_freed_exactly_once() {
    let drops = Rc::new(Cell::new(0));
    let mut heap: HashMap<usize, Box<Counted>> = HashMap::new();
    heap.insert(0x2000, Box::new(Counted { drops: drops.clone() }));

    let mut storage = InstanceStorage::new();
    assert_eq!(storage.attach_delegate(0x2000), Ok(()));
    let steps = dealloc(storage);
    assert_eq!(
        steps,
        vec![TeardownStep::ReleaseDelegate(0x2000), TeardownStep::ForwardToBase]
    );
    assert_eq!(drops.get(), 0);
    let forwarded = carry_out(&steps, &mut heap);
    assert_eq!(drops.get(), 1);
    assert_eq!(forwarded, 1);
    assert!(heap.is_empty());
}

#[test]
fn only_the_instances_own_delegate_is_freed() {
    let first = Rc::new(Cell::new(0));
    let second = Rc::new(Cell::new(0));
    let mut heap: HashMap<usize, Box<Counted>> = HashMap::new();
    heap.insert(0x2000, Box::new(Counted { drops: first.clone() }));
    heap.insert(0x3000, Box::new(Counted { drops: second.clone() }));

    let steps = dealloc(InstanceStorage::from_raw(0x3000, 0xC0));
    carry_out(&steps, &mut heap);
    assert_eq!(first.get(), 0);
    assert_eq!(second.get(), 1);
    assert_eq!(heap.len(), 1);
}

#[test]
fn unset_slot_frees_nothing() {
    let drops = Rc::new(Cell::new(0));
    let mut heap: HashMap<usize, Box<Counted>> = HashMap::new();
    heap.insert(0x2000, Box::new(Counted { drops: drops.clone() }));

    let steps = dealloc(InstanceStorage::new());
    assert_eq!(steps, vec![TeardownStep::ForwardToBase]);
    let forwarded = carry_out(&steps, &mut heap);
    assert_eq!(drops.get(), 0);
    assert_eq!(forwarded, 1);
    assert_eq!(heap.len(), 1);

    let with_color_only = dealloc(InstanceStorage::from_raw(NIL, 0xC0));
    assert_eq!(with_color_only, vec![TeardownStep::ForwardToBase]);
}
