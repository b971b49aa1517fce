//! What a row class consists of when it is declared to the native runtime:
//! its name, the class it extends, its storage slots and the callbacks it
//! answers.

use vstd::prelude::*;
use crate::naming::{class_name, spec_class_name, ClassKey};

verus! {

/// The name of the storage slot that holds the address of the delegate.
pub const LISTVIEW_ROW_DELEGATE_PTR: &'static str = "rstListViewRowDelegatePtr";

/// The name of the storage slot that holds the background color.
pub const BACKGROUND_COLOR: &'static str = "rstBackgroundColor";

/// The name of the native class that every row class extends.
pub const SUPERCLASS: &'static str = "NSView";

/// What a storage slot holds.
#[derive(Clone, Copy, Debug, PartialEq, Eq, Structural)]
pub enum SlotKind {
    /// A plain address, as wide as a machine word.
    Address,
    /// A handle to a native object.
    Object,
}

/// A storage slot of every instance of a row class with a delegate.
#[derive(Clone, Copy, Debug, PartialEq, Eq, Structural)]
pub enum Slot {
    /// The address of the delegate, owned by the instance.
    DelegatePtr,
    /// The background color, lent to the instance; may be absent.
    BackgroundColor,
}

impl Slot {
    /// The name under which the slot is declared.
    pub open spec fn spec_name(self) -> Seq<char> {
        match self {
            Slot::DelegatePtr => LISTVIEW_ROW_DELEGATE_PTR@,
            Slot::BackgroundColor => BACKGROUND_COLOR@,
        }
    }

    /// What the slot holds.
    pub open spec fn spec_kind(self) -> SlotKind {
        match self {
            Slot::DelegatePtr => SlotKind::Address,
            Slot::BackgroundColor => SlotKind::Object,
        }
    }

    /// The name under which the slot is declared.
    pub fn name(self) -> (name: &'static str)
        ensures
            name@ == self.spec_name(),
    {
        match self {
            Slot::DelegatePtr => LISTVIEW_ROW_DELEGATE_PTR,
            Slot::BackgroundColor => BACKGROUND_COLOR,
        }
    }

    /// What the slot holds.
    pub fn kind(self) -> (kind: SlotKind)
        ensures
            kind == self.spec_kind(),
    {
        match self {
            Slot::DelegatePtr => SlotKind::Address,
            Slot::BackgroundColor => SlotKind::Object,
        }
    }
}

/// A native callback that a row class answers.
#[derive(Clone, Copy, Debug, PartialEq, Eq, Structural)]
pub enum Hook {
    /// Does the view measure from its top-left corner?
    CoordinateFlip,
    /// The backing layer needs repainting.
    LayerUpdate,
    /// A drag has entered the view.
    DraggingEntered,
    /// A drag is about to be dropped.
    PrepareForDragOperation,
    /// The dragged data is dropped.
    PerformDragOperation,
    /// The drop is over.
    ConcludeDragOperation,
    /// The drag has left the view without a drop.
    DraggingExited,
    /// The instance is destroyed.
    Dealloc,
}

impl Hook {
    /// The selector under which the runtime sends the callback.
    pub open spec fn spec_selector(self) -> Seq<char> {
        match self {
            Hook::CoordinateFlip => "isFlipped"@,
            Hook::LayerUpdate => "updateLayer"@,
            Hook::DraggingEntered => "draggingEntered:"@,
            Hook::PrepareForDragOperation => "prepareForDragOperation:"@,
            Hook::PerformDragOperation => "performDragOperation:"@,
            Hook::ConcludeDragOperation => "concludeDragOperation:"@,
            Hook::DraggingExited => "draggingExited:"@,
            Hook::Dealloc => "dealloc"@,
        }
    }

    /// Whether the callback brings the handle of a drag session with it.
    pub open spec fn spec_takes_session(self) -> bool {
        match self {
            Hook::DraggingEntered => true,
            Hook::PrepareForDragOperation => true,
            Hook::PerformDragOperation => true,
            Hook::ConcludeDragOperation => true,
            Hook::DraggingExited => true,
            _ => false,
        }
    }

    /// The selector under which the runtime sends the callback.
    pub fn selector(self) -> (selector: &'static str)
        ensures
            selector@ == self.spec_selector(),
    {
        match self {
            Hook::CoordinateFlip => "isFlipped",
            Hook::LayerUpdate => "updateLayer",
            Hook::DraggingEntered => "draggingEntered:",
            Hook::PrepareForDragOperation => "prepareForDragOperation:",
            Hook::PerformDragOperation => "performDragOperation:",
            Hook::ConcludeDragOperation => "concludeDragOperation:",
            Hook::DraggingExited => "draggingExited:",
            Hook::Dealloc => "dealloc",
        }
    }

    /// Whether the callback brings the handle of a drag session with it.
    pub fn takes_session(self) -> (takes: bool)
        ensures
            takes == self.spec_takes_session(),
    {
        match self {
            Hook::DraggingEntered => true,
            Hook::PrepareForDragOperation => true,
            Hook::PerformDragOperation => true,
            Hook::ConcludeDragOperation => true,
            Hook::DraggingExited => true,
            _ => false,
        }
    }
}

/// How many arguments the runtime reads off a selector: one for each colon
/// among its first `upto` characters.
pub open spec fn colons(selector: Seq<char>, upto: nat) -> nat
    decreases upto,
{
    if upto == 0 {
        0
    } else {
        colons(selector, (upto - 1) as nat) + if selector[upto - 1] == ':' {
            1nat
        } else {
            0nat
        }
    }
}

/// The selector of each callback announces exactly the arguments that the
/// callback is sent with: one, the session handle, for the callbacks of a
/// drag, and none for the others.
pub proof fn selector_matches_arguments(hook: Hook)
    ensures
        colons(hook.spec_selector(), hook.spec_selector().len()) == if hook.spec_takes_session() {
            1nat
        } else {
            0nat
        },
{
    reveal_with_fuel(colons, 25);
    match hook {
        Hook::CoordinateFlip => {
            reveal_strlit("isFlipped");
        },
        Hook::LayerUpdate => {
            reveal_strlit("updateLayer");
        },
        Hook::DraggingEntered => {
            reveal_strlit("draggingEntered:");
        },
        Hook::PrepareForDragOperation => {
            reveal_strlit("prepareForDragOperation:");
        },
        Hook::PerformDragOperation => {
            reveal_strlit("performDragOperation:");
        },
        Hook::ConcludeDragOperation => {
            reveal_strlit("concludeDragOperation:");
        },
        Hook::DraggingExited => {
            reveal_strlit("draggingExited:");
        },
        Hook::Dealloc => {
            reveal_strlit("dealloc");
        },
    }
}

/// No two callbacks share a selector.
pub proof fn selectors_never_collide(a: Hook, b: Hook)
    requires
        a != b,
    ensures
        a.spec_selector() != b.spec_selector(),
{
    reveal_strlit("isFlipped");
    reveal_strlit("updateLayer");
    reveal_strlit("draggingEntered:");
    reveal_strlit("prepareForDragOperation:");
    reveal_strlit("performDragOperation:");
    reveal_strlit("concludeDragOperation:");
    reveal_strlit("draggingExited:");
    reveal_strlit("dealloc");
    assert(a.spec_selector().len() != b.spec_selector().len());
}

/// The two storage slots are declared under different names.
pub proof fn slot_names_never_collide(a: Slot, b: Slot)
    requires
        a != b,
    ensures
        a.spec_name() != b.spec_name(),
{
    reveal_strlit("rstListViewRowDelegatePtr");
    reveal_strlit("rstBackgroundColor");
    assert(a.spec_name().len() != b.spec_name().len());
}

/// Everything the native runtime is told when a row class is declared.
#[derive(Debug)]
pub struct ClassPlan {
    /// The name of the new class.
    pub name: String,
    /// The name of the class it extends.
    pub superclass: &'static str,
    /// The storage slots of each instance, in the order of their declaration.
    pub slots: Vec<Slot>,
    /// The callbacks that the class answers, in the order of their
    /// declaration.
    pub hooks: Vec<Hook>,
}

/// A class plan as plain mathematical values.
pub struct ClassPlanView {
    /// The name of the new class.
    pub name: Seq<char>,
    /// The name of the class it extends.
    pub superclass: Seq<char>,
    /// The storage slots of each instance.
    pub slots: Seq<Slot>,
    /// The callbacks that the class answers.
    pub hooks: Seq<Hook>,
}

impl View for ClassPlan {
    type V = ClassPlanView;

    open spec fn view(&self) -> ClassPlanView {
        ClassPlanView {
            name: self.name@,
            superclass: self.superclass@,
            slots: self.slots@,
            hooks: self.hooks@,
        }
    }
}

/// The storage slots of the class for `key`: none without a delegate, else
/// the delegate's address and the background color.
pub open spec fn spec_slots(key: ClassKey) -> Seq<Slot> {
    match key {
        ClassKey::Plain => Seq::empty(),
        ClassKey::Delegate(_) => seq![Slot::DelegatePtr, Slot::BackgroundColor],
    }
}

/// The callbacks of the class for `key`: without a delegate the coordinate
/// query alone, else all eight.
pub open spec fn spec_hooks(key: ClassKey) -> Seq<Hook> {
    match key {
        ClassKey::Plain => seq![Hook::CoordinateFlip],
        ClassKey::Delegate(_) => seq![
            Hook::CoordinateFlip,
            Hook::LayerUpdate,
            Hook::DraggingEntered,
            Hook::PrepareForDragOperation,
            Hook::PerformDragOperation,
            Hook::ConcludeDragOperation,
            Hook::DraggingExited,
            Hook::Dealloc,
        ],
    }
}

/// The plan of the class for `key`.
pub open spec fn spec_class_plan(key: ClassKey) -> ClassPlanView {
    ClassPlanView {
        name: spec_class_name(key),
        superclass: SUPERCLASS@,
        slots: spec_slots(key),
        hooks: spec_hooks(key),
    }
}

/// Draws up the plan of the class for `key`.
pub fn class_plan(key: ClassKey) -> (plan: ClassPlan)
    ensures
        plan@ == spec_class_plan(key),
{
    let mut slots: Vec<Slot> = Vec::new();
    let mut hooks: Vec<Hook> = Vec::new();
    hooks.push(Hook::CoordinateFlip);
    match key {
        ClassKey::Plain => {},
        ClassKey::Delegate(_) => {
            slots.push(Slot::DelegatePtr);
            slots.push(Slot::BackgroundColor);
            hooks.push(Hook::LayerUpdate);
            hooks.push(Hook::DraggingEntered);
            hooks.push(Hook::PrepareForDragOperation);
            hooks.push(Hook::PerformDragOperation);
            hooks.push(Hook::ConcludeDragOperation);
            hooks.push(Hook::DraggingExited);
            hooks.push(Hook::Dealloc);
        },
    }
    assert(slots@ =~= spec_slots(key));
    assert(hooks@ =~= spec_hooks(key));
    ClassPlan { name: class_name(key), superclass: SUPERCLASS, slots, hooks }
}

/// Every row class, with a delegate or without, answers the coordinate
/// query.
pub proof fn every_class_answers_coordinate_flip(key: ClassKey)
    ensures
        spec_hooks(key).contains(Hook::CoordinateFlip),
{
    assert(spec_hooks(key)[0] == Hook::CoordinateFlip);
}

/// Within one class no callback and no storage slot is declared twice, so
/// the runtime has no reason to refuse one of them as a duplicate.
pub proof fn plan_declares_nothing_twice(key: ClassKey)
    ensures
        spec_hooks(key).no_duplicates(),
        spec_slots(key).no_duplicates(),
        forall|i: int, j: int|
            0 <= i < j < spec_hooks(key).len() ==> spec_hooks(key)[i].spec_selector()
                != spec_hooks(key)[j].spec_selector(),
        forall|i: int, j: int|
            0 <= i < j < spec_slots(key).len() ==> spec_slots(key)[i].spec_name() != spec_slots(
                key,
            )[j].spec_name(),
{
    let hooks = spec_hooks(key);
    let slots = spec_slots(key);
    assert forall|i: int, j: int| 0 <= i < j < hooks.len() implies hooks[i].spec_selector()
        != hooks[j].spec_selector() by {
        selectors_never_collide(hooks[i], hooks[j]);
    }
    assert forall|i: int, j: int| 0 <= i < j < slots.len() implies slots[i].spec_name()
        != slots[j].spec_name() by {
        slot_names_never_collide(slots[i], slots[j]);
    }
}

} // verus!
