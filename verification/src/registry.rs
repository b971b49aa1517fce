//! The registry of row classes: which class has been registered for which
//! key, and what a caller who asks for a class is told.
//!
//! Registering a class with the native runtime is work that the registry
//! cannot do itself. It decides, and its caller acts: [`ClassRegistry::begin`]
//! says whether the class is there or must be declared, and
//! [`ClassRegistry::complete`] takes what the runtime handed back. A caller
//! that shares one registry between threads holds it under a lock from
//! `begin` to `complete`; the registry then tells every caller but the first
//! of the class that the first one registered.

use vstd::prelude::*;
use vstd::string::StringExecFns;
use crate::declare::{class_plan, spec_class_plan, ClassPlan};
use crate::foundation::NIL;
use crate::naming::{class_name, spec_class_name, ClassKey};

verus! {

/// The handle of a class that the native runtime has registered.
#[derive(Clone, Copy, Debug, PartialEq, Eq, Structural)]
pub struct ClassDescriptor {
    addr: usize,
}

impl ClassDescriptor {
    /// The address of the registered class.
    pub closed spec fn spec_addr(self) -> usize {
        self.addr
    }

    /// The handle for the class at `addr`; none for the address that stands
    /// for "no object".
    pub fn from_addr(addr: usize) -> (descriptor: Option<ClassDescriptor>)
        ensures
            addr == NIL <==> descriptor is None,
            descriptor matches Some(d) ==> d.spec_addr() == addr,
    {
        if addr == NIL {
            None
        } else {
            Some(ClassDescriptor { addr })
        }
    }

    /// The address of the registered class.
    pub fn addr(&self) -> (addr: usize)
        ensures
            addr == self.spec_addr(),
    {
        self.addr
    }
}

/// How far the registration of one class has come.
#[derive(Clone, Copy, Debug, PartialEq, Eq, Structural)]
pub enum Status {
    /// A caller has been told to declare the class and has not reported back.
    Pending,
    /// The runtime has registered the class.
    Registered(ClassDescriptor),
    /// The runtime has refused the class, or handed back a class that belongs
    /// to another key.
    Rejected,
}

/// What a caller who asks for a class is told.
#[derive(Clone, Copy, Debug, PartialEq, Eq, Structural)]
pub enum Registration {
    /// The class is registered: here it is.
    Ready(ClassDescriptor),
    /// The class is not there yet: declare it to the runtime, then report
    /// back.
    Declare,
}

/// Why a caller does not get the class.
#[derive(Clone, Copy, Debug, PartialEq, Eq, Structural)]
pub enum RegistrationError {
    /// The class is being declared right now: the caller asked from within
    /// the declaration of that very class.
    Reentrant(ClassKey),
    /// The runtime has refused to create the class.
    Rejected(ClassKey),
    /// The runtime handed back a class that is registered under another key.
    Conflict(ClassKey),
    /// A caller reported back on a class that nobody was told to declare.
    NotPending(ClassKey),
}

impl RegistrationError {
    /// The key of the class that the caller does not get.
    pub open spec fn spec_key(self) -> ClassKey {
        match self {
            RegistrationError::Reentrant(key) => key,
            RegistrationError::Rejected(key) => key,
            RegistrationError::Conflict(key) => key,
            RegistrationError::NotPending(key) => key,
        }
    }

    /// What went wrong, in words that follow the name of the class.
    pub open spec fn spec_reason(self) -> Seq<char> {
        match self {
            RegistrationError::Reentrant(_) => " is asked for while it is being declared"@,
            RegistrationError::Rejected(_) => " was refused by the native runtime"@,
            RegistrationError::Conflict(_) => " came back as a class that another key holds"@,
            RegistrationError::NotPending(_) => " was reported on without being declared"@,
        }
    }

    /// The error in words: the name of the class, then what went wrong.
    pub open spec fn spec_message(self) -> Seq<char> {
        "row class "@ + spec_class_name(self.spec_key()) + self.spec_reason()
    }

    /// The key of the class that the caller does not get.
    pub fn key(&self) -> (key: ClassKey)
        ensures
            key == self.spec_key(),
    {
        match self {
            RegistrationError::Reentrant(key) => *key,
            RegistrationError::Rejected(key) => *key,
            RegistrationError::Conflict(key) => *key,
            RegistrationError::NotPending(key) => *key,
        }
    }

    /// The error in words: the name of the class, then what went wrong.
    pub fn message(&self) -> (text: String)
        ensures
            text@ == self.spec_message(),
    {
        let reason = match self {
            RegistrationError::Reentrant(_) => " is asked for while it is being declared",
            RegistrationError::Rejected(_) => " was refused by the native runtime",
            RegistrationError::Conflict(_) => " came back as a class that another key holds",
            RegistrationError::NotPending(_) => " was reported on without being declared",
        };
        let name = class_name(self.key());
        let mut text = String::from_str("row class ");
        text.append(name.as_str());
        text.append(reason);
        text
    }
}

/// Whether `descriptor` is registered under some key of `classes`.
pub open spec fn is_held(classes: Map<ClassKey, Status>, descriptor: ClassDescriptor) -> bool {
    exists|k: ClassKey| #[trigger]
        classes.dom().contains(k) && classes[k] == Status::Registered(descriptor)
}

/// Whether no class is registered under two keys.
pub open spec fn descriptors_distinct(classes: Map<ClassKey, Status>) -> bool {
    forall|a: ClassKey, b: ClassKey|
        #![trigger classes[a], classes[b]]
        classes.dom().contains(a) && classes.dom().contains(b) && classes[a] is Registered
            && classes[a] == classes[b] ==> a == b
}

/// What asking for the class of `key` does to the registry, and what the
/// caller is told.
pub open spec fn spec_begin(classes: Map<ClassKey, Status>, key: ClassKey) -> (
    Map<ClassKey, Status>,
    Result<Registration, RegistrationError>,
) {
    if !classes.dom().contains(key) {
        (classes.insert(key, Status::Pending), Ok(Registration::Declare))
    } else {
        match classes[key] {
            Status::Pending => (classes, Err(RegistrationError::Reentrant(key))),
            Status::Registered(descriptor) => (classes, Ok(Registration::Ready(descriptor))),
            Status::Rejected => (classes, Err(RegistrationError::Rejected(key))),
        }
    }
}

/// What reporting the runtime's answer for `key` does to the registry, and
/// what the caller is told. `outcome` is the class that the runtime
/// registered, or none if it refused.
pub open spec fn spec_complete(
    classes: Map<ClassKey, Status>,
    key: ClassKey,
    outcome: Option<ClassDescriptor>,
) -> (Map<ClassKey, Status>, Result<ClassDescriptor, RegistrationError>) {
    if !(classes.dom().contains(key) && classes[key] == Status::Pending) {
        (classes, Err(RegistrationError::NotPending(key)))
    } else {
        match outcome {
            None => (classes.insert(key, Status::Rejected), Err(RegistrationError::Rejected(key))),
            Some(descriptor) => if is_held(classes, descriptor) {
                (classes.insert(key, Status::Rejected), Err(RegistrationError::Conflict(key)))
            } else {
                (classes.insert(key, Status::Registered(descriptor)), Ok(descriptor))
            },
        }
    }
}

/// One class of the registry.
struct Entry {
    key: ClassKey,
    status: Status,
}

/// Whether no key occurs twice in `entries`.
spec fn keys_unique(entries: Seq<Entry>) -> bool {
    forall|i: int, j: int| 0 <= i < j < entries.len() ==> entries[i].key != entries[j].key
}

/// Whether `key` occurs in `entries`.
spec fn has_key(entries: Seq<Entry>, key: ClassKey) -> bool {
    exists|i: int| 0 <= i < entries.len() && #[trigger] entries[i].key == key
}

/// Where `key` occurs in `entries`.
spec fn index_of(entries: Seq<Entry>, key: ClassKey) -> int {
    choose|i: int| 0 <= i < entries.len() && #[trigger] entries[i].key == key
}

/// The statuses of `entries` by key.
spec fn classes_of(entries: Seq<Entry>) -> Map<ClassKey, Status> {
    Map::new(
        |key: ClassKey| has_key(entries, key),
        |key: ClassKey| entries[index_of(entries, key)].status,
    )
}

proof fn lemma_entry_is_mapped(entries: Seq<Entry>, i: int)
    requires
        keys_unique(entries),
        0 <= i < entries.len(),
    ensures
        classes_of(entries).dom().contains(entries[i].key),
        classes_of(entries)[entries[i].key] == entries[i].status,
{
    let key = entries[i].key;
    assert(has_key(entries, key));
    let j = index_of(entries, key);
    assert(0 <= j < entries.len() && entries[j].key == key);
    assert(i == j);
}

proof fn lemma_push_inserts(entries: Seq<Entry>, entry: Entry)
    requires
        keys_unique(entries),
        !has_key(entries, entry.key),
    ensures
        keys_unique(entries.push(entry)),
        classes_of(entries.push(entry)) == classes_of(entries).insert(entry.key, entry.status),
{
    let after = entries.push(entry);
    assert forall|i: int, j: int| 0 <= i < j < after.len() implies after[i].key
        != after[j].key by {
        if j == entries.len() {
            assert(entries[i].key == after[i].key);
        }
    }
    assert forall|key: ClassKey| has_key(after, key) <==> (key == entry.key || has_key(
        entries,
        key,
    )) by {
        if has_key(after, key) {
            let i = index_of(after, key);
            if i < entries.len() {
                assert(entries[i].key == key);
            }
        }
        if has_key(entries, key) {
            let i = index_of(entries, key);
            assert(after[i].key == key);
        }
        if key == entry.key {
            assert(after[entries.len() as int].key == key);
        }
    }
    assert forall|key: ClassKey| has_key(after, key) implies classes_of(after)[key]
        == classes_of(entries).insert(entry.key, entry.status)[key] by {
        if key == entry.key {
            lemma_entry_is_mapped(after, entries.len() as int);
        } else {
            let i = index_of(entries, key);
            lemma_entry_is_mapped(entries, i);
            lemma_entry_is_mapped(after, i);
        }
    }
    assert(classes_of(after) =~= classes_of(entries).insert(entry.key, entry.status));
}

proof fn lemma_update_inserts(entries: Seq<Entry>, i: int, status: Status)
    requires
        keys_unique(entries),
        0 <= i < entries.len(),
    ensures
        keys_unique(entries.update(i, Entry { key: entries[i].key, status })),
        classes_of(entries.update(i, Entry { key: entries[i].key, status })) == classes_of(
            entries,
        ).insert(entries[i].key, status),
{
    let changed = entries[i].key;
    let after = entries.update(i, Entry { key: changed, status });
    assert forall|a: int, b: int| 0 <= a < b < after.len() implies after[a].key
        != after[b].key by {
        assert(after[a].key == entries[a].key);
        assert(after[b].key == entries[b].key);
    }
    assert forall|key: ClassKey| has_key(after, key) <==> has_key(entries, key) by {
        if has_key(after, key) {
            let j = index_of(after, key);
            assert(entries[j].key == key);
        }
        if has_key(entries, key) {
            let j = index_of(entries, key);
            assert(after[j].key == key);
        }
    }
    lemma_entry_is_mapped(entries, i);
    assert forall|key: ClassKey| has_key(after, key) implies classes_of(after)[key]
        == classes_of(entries).insert(changed, status)[key] by {
        let j = index_of(entries, key);
        lemma_entry_is_mapped(entries, j);
        lemma_entry_is_mapped(after, j);
    }
    assert(classes_of(after) =~= classes_of(entries).insert(changed, status));
}

/// The classes that have been asked for, each with the state of its
/// registration.
pub struct ClassRegistry {
    entries: Vec<Entry>,
}

impl View for ClassRegistry {
    type V = Map<ClassKey, Status>;

    closed spec fn view(&self) -> Map<ClassKey, Status> {
        classes_of(self.entries@)
    }
}

impl ClassRegistry {
    /// Whether the registry is in order: each key has one state, and no
    /// class is registered under two keys.
    pub closed spec fn wf(&self) -> bool {
        &&& keys_unique(self.entries@)
        &&& descriptors_distinct(self@)
    }

    /// In a registry that is in order no class is registered under two keys.
    pub proof fn lemma_wf_descriptors_distinct(&self)
        requires
            self.wf(),
        ensures
            descriptors_distinct(self@),
    {
    }

    /// A registry in which no class has been asked for.
    pub fn new() -> (registry: ClassRegistry)
        ensures
            registry.wf(),
            registry@ == Map::<ClassKey, Status>::empty(),
    {
        let registry = ClassRegistry { entries: Vec::new() };
        assert(registry@ =~= Map::<ClassKey, Status>::empty());
        registry
    }

    /// Where the entry of `key` stands.
    fn position(&self, key: ClassKey) -> (at: Option<usize>)
        ensures
            match at {
                Some(i) => i < self.entries@.len() && self.entries@[i as int].key == key,
                None => !has_key(self.entries@, key),
            },
    {
        let mut i: usize = 0;
        while i < self.entries.len()
            invariant
                i <= self.entries@.len(),
                forall|j: int| 0 <= j < i ==> self.entries@[j].key != key,
            decreases self.entries@.len() - i,
        {
            if self.entries[i].key == key {
                return Some(i);
            }
            i += 1;
        }
        None
    }

    /// Whether `descriptor` is registered under some key.
    fn holds(&self, descriptor: ClassDescriptor) -> (held: bool)
        requires
            self.wf(),
        ensures
            held == is_held(self@, descriptor),
    {
        let mut i: usize = 0;
        while i < self.entries.len()
            invariant
                self.wf(),
                i <= self.entries@.len(),
                forall|j: int|
                    0 <= j < i ==> self.entries@[j].status != Status::Registered(descriptor),
            decreases self.entries@.len() - i,
        {
            if self.entries[i].status == Status::Registered(descriptor) {
                proof {
                    lemma_entry_is_mapped(self.entries@, i as int);
                }
                return true;
            }
            i += 1;
        }
        proof {
            if is_held(self@, descriptor) {
                let k = choose|k: ClassKey| #[trigger]
                    self@.dom().contains(k) && self@[k] == Status::Registered(descriptor);
                let j = index_of(self.entries@, k);
                lemma_entry_is_mapped(self.entries@, j);
            }
        }
        false
    }

    /// The state of the registration of the class for `key`, if the class
    /// has been asked for.
    pub fn status(&self, key: ClassKey) -> (status: Option<Status>)
        requires
            self.wf(),
        ensures
            status == if self@.dom().contains(key) {
                Some(self@[key])
            } else {
                None
            },
    {
        match self.position(key) {
            Some(i) => {
                proof {
                    lemma_entry_is_mapped(self.entries@, i as int);
                }
                Some(self.entries[i].status)
            },
            None => None,
        }
    }

    /// The class registered for `key`, if there is one.
    pub fn lookup(&self, key: ClassKey) -> (descriptor: Option<ClassDescriptor>)
        requires
            self.wf(),
        ensures
            descriptor == if self@.dom().contains(key) && self@[key] is Registered {
                Some(self@[key]->Registered_0)
            } else {
                None
            },
    {
        match self.status(key) {
            Some(Status::Registered(descriptor)) => Some(descriptor),
            _ => None,
        }
    }

    /// Asks for the class of `key`. The first caller is told to declare it;
    /// after that the answer is the registered class, or the reason why there
    /// is none, and the registry stays as it is.
    pub fn begin(&mut self, key: ClassKey) -> (told: Result<Registration, RegistrationError>)
        requires
            old(self).wf(),
        ensures
            final(self).wf(),
            (final(self)@, told) == spec_begin(old(self)@, key),
    {
        match self.position(key) {
            None => {
                proof {
                    lemma_push_inserts(self.entries@, Entry { key, status: Status::Pending });
                }
                self.entries.push(Entry { key, status: Status::Pending });
                Ok(Registration::Declare)
            },
            Some(i) => {
                proof {
                    lemma_entry_is_mapped(self.entries@, i as int);
                }
                match self.entries[i].status {
                    Status::Pending => Err(RegistrationError::Reentrant(key)),
                    Status::Registered(descriptor) => Ok(Registration::Ready(descriptor)),
                    Status::Rejected => Err(RegistrationError::Rejected(key)),
                }
            },
        }
    }

    /// Reports what the runtime answered when the class of `key` was
    /// declared: the registered class, or none if it refused. The class is
    /// then registered for good, unless the runtime refused or handed back a
    /// class that another key holds: then it is rejected for good.
    pub fn complete(&mut self, key: ClassKey, outcome: Option<ClassDescriptor>) -> (told: Result<
        ClassDescriptor,
        RegistrationError,
    >)
        requires
            old(self).wf(),
        ensures
            final(self).wf(),
            (final(self)@, told) == spec_complete(old(self)@, key, outcome),
    {
        let at = match self.position(key) {
            Some(i) => i,
            None => {
                return Err(RegistrationError::NotPending(key));
            },
        };
        proof {
            lemma_entry_is_mapped(self.entries@, at as int);
        }
        if self.entries[at].status != Status::Pending {
            return Err(RegistrationError::NotPending(key));
        }
        let (status, told) = match outcome {
            None => (Status::Rejected, Err(RegistrationError::Rejected(key))),
            Some(descriptor) => if self.holds(descriptor) {
                (Status::Rejected, Err(RegistrationError::Conflict(key)))
            } else {
                (Status::Registered(descriptor), Ok(descriptor))
            },
        };
        proof {
            lemma_update_inserts(self.entries@, at as int, status);
        }
        self.entries.set(at, Entry { key, status });
        told
    }
}

/// One call on a registry.
pub enum Call {
    /// A caller asks for the class of a key.
    Begin(ClassKey),
    /// A caller reports what the runtime answered for a key.
    Complete(ClassKey, Option<ClassDescriptor>),
}

/// The registry after one call.
pub open spec fn spec_step(classes: Map<ClassKey, Status>, call: Call) -> Map<ClassKey, Status> {
    match call {
        Call::Begin(key) => spec_begin(classes, key).0,
        Call::Complete(key, outcome) => spec_complete(classes, key, outcome).0,
    }
}

/// The registry after a run of calls, one after the other.
pub open spec fn spec_run(classes: Map<ClassKey, Status>, calls: Seq<Call>) -> Map<
    ClassKey,
    Status,
>
    decreases calls.len(),
{
    if calls.len() == 0 {
        classes
    } else {
        spec_run(spec_step(classes, calls[0]), calls.drop_first())
    }
}

/// How often, in a run of calls, a caller is told to declare the class of
/// `key`.
pub open spec fn declarations(classes: Map<ClassKey, Status>, calls: Seq<Call>, key: ClassKey) -> nat
    decreases calls.len(),
{
    if calls.len() == 0 {
        0
    } else {
        let told: nat = if calls[0] == Call::Begin(key) && spec_begin(classes, key).1 == Ok::<
            Registration,
            RegistrationError,
        >(Registration::Declare) {
            1
        } else {
            0
        };
        told + declarations(spec_step(classes, calls[0]), calls.drop_first(), key)
    }
}

/// No call takes a key out of the registry, and none changes a class that
/// is registered.
pub proof fn step_keeps_registrations(classes: Map<ClassKey, Status>, call: Call, key: ClassKey)
    requires
        classes.dom().contains(key),
    ensures
        spec_step(classes, call).dom().contains(key),
        classes[key] is Registered ==> spec_step(classes, call)[key] == classes[key],
{
}

/// No call makes two keys hold one class.
pub proof fn step_keeps_descriptors_distinct(classes: Map<ClassKey, Status>, call: Call)
    requires
        descriptors_distinct(classes),
    ensures
        descriptors_distinct(spec_step(classes, call)),
{
    let after = spec_step(classes, call);
    assert forall|a: ClassKey, b: ClassKey|
        after.dom().contains(a) && after.dom().contains(b) && after[a] is Registered && after[a]
            == after[b] implies a == b by {
        if a != b {
            match call {
                Call::Begin(key) => {
                    assert(classes.dom().contains(a) && classes.dom().contains(b));
                    assert(classes[a] == classes[b]);
                },
                Call::Complete(key, outcome) => {
                    if after[key] is Registered && (a == key || b == key) && classes[key]
                        == Status::Pending {
                        let other = if a == key {
                            b
                        } else {
                            a
                        };
                        assert(classes.dom().contains(other) && classes[other] == after[key]);
                        assert(is_held(classes, outcome->Some_0));
                    } else {
                        assert(classes.dom().contains(a) && classes.dom().contains(b));
                        assert(classes[a] == classes[b]);
                    }
                },
            }
        }
    }
}

/// Once a caller has been handed the class of `key`, every caller that asks
/// for it is handed the same class, whatever calls come in between, and
/// asking changes nothing.
pub proof fn every_caller_gets_the_same_class(
    classes: Map<ClassKey, Status>,
    calls: Seq<Call>,
    key: ClassKey,
    descriptor: ClassDescriptor,
)
    requires
        spec_begin(classes, key).1 == Ok::<Registration, RegistrationError>(
            Registration::Ready(descriptor),
        ),
    ensures
        spec_begin(spec_run(classes, calls), key) == (
            spec_run(classes, calls),
            Ok::<Registration, RegistrationError>(Registration::Ready(descriptor)),
        ),
    decreases calls.len(),
{
    if calls.len() > 0 {
        step_keeps_registrations(classes, calls[0], key);
        every_caller_gets_the_same_class(
            spec_step(classes, calls[0]),
            calls.drop_first(),
            key,
            descriptor,
        );
    }
}

/// In any run of calls the class of a key is declared at most once: only
/// the first caller that asks for it is told to declare it, and none is if
/// the class had been asked for before the run.
pub proof fn class_is_declared_at_most_once(
    classes: Map<ClassKey, Status>,
    calls: Seq<Call>,
    key: ClassKey,
)
    ensures
        declarations(classes, calls, key) <= 1,
        classes.dom().contains(key) ==> declarations(classes, calls, key) == 0,
    decreases calls.len(),
{
    if calls.len() > 0 {
        let after = spec_step(classes, calls[0]);
        class_is_declared_at_most_once(after, calls.drop_first(), key);
        if classes.dom().contains(key) {
            step_keeps_registrations(classes, calls[0], key);
        }
        if calls[0] == Call::Begin(key) {
            assert(after.dom().contains(key));
        }
    }
}

/// In a registry that started empty, whatever calls it has seen, two
/// different keys never hold the same class.
pub proof fn distinct_keys_hold_distinct_classes(calls: Seq<Call>, a: ClassKey, b: ClassKey)
    requires
        a != b,
        spec_run(Map::empty(), calls).dom().contains(a),
        spec_run(Map::empty(), calls).dom().contains(b),
        spec_run(Map::empty(), calls)[a] is Registered,
    ensures
        spec_run(Map::empty(), calls)[a] != spec_run(Map::empty(), calls)[b],
{
    lemma_run_keeps_descriptors_distinct(Map::empty(), calls);
}

/// No run of calls makes two keys hold one class.
pub proof fn lemma_run_keeps_descriptors_distinct(classes: Map<ClassKey, Status>, calls: Seq<Call>)
    requires
        descriptors_distinct(classes),
    ensures
        descriptors_distinct(spec_run(classes, calls)),
    decreases calls.len(),
{
    if calls.len() > 0 {
        step_keeps_descriptors_distinct(classes, calls[0]);
        lemma_run_keeps_descriptors_distinct(spec_step(classes, calls[0]), calls.drop_first());
    }
}

/// What a caller of one of the two registrars does next.
#[derive(Debug)]
pub enum Admission {
    /// The class is registered: here it is.
    Ready(ClassDescriptor),
    /// The class is not there yet: declare it to the runtime as the plan
    /// says, then report back with [`ClassRegistry::complete`].
    Declare(ClassPlan),
}

/// Whether `told` is what a registrar tells a caller who asks for the class
/// of `key` and to whom the registry answers `answer`: the registry's answer,
/// with the plan of the class where the class must be declared.
pub open spec fn carries_answer(
    told: Result<Admission, RegistrationError>,
    key: ClassKey,
    answer: Result<Registration, RegistrationError>,
) -> bool {
    match answer {
        Ok(Registration::Ready(descriptor)) => told == Ok::<Admission, RegistrationError>(
            Admission::Ready(descriptor),
        ),
        Ok(Registration::Declare) => told matches Ok(Admission::Declare(plan)) && plan@
            == spec_class_plan(key),
        Err(e) => told == Err::<Admission, RegistrationError>(e),
    }
}

/// Asks for the class of `key`, and draws up its plan where it must be
/// declared.
fn enroll(registry: &mut ClassRegistry, key: ClassKey) -> (told: Result<
    Admission,
    RegistrationError,
>)
    requires
        old(registry).wf(),
    ensures
        final(registry).wf(),
        final(registry)@ == spec_begin(old(registry)@, key).0,
        carries_answer(told, key, spec_begin(old(registry)@, key).1),
{
    match registry.begin(key) {
        Ok(Registration::Ready(descriptor)) => Ok(Admission::Ready(descriptor)),
        Ok(Registration::Declare) => Ok(Admission::Declare(class_plan(key))),
        Err(e) => Err(e),
    }
}

/// Asks for the row class that takes no delegate. The first caller is handed
/// the plan of the class: its fixed name and the coordinate query as its one
/// callback. Every later caller is handed the registered class, or the reason
/// why there is none.
pub fn register_listview_row_class(registry: &mut ClassRegistry) -> (told: Result<
    Admission,
    RegistrationError,
>)
    requires
        old(registry).wf(),
    ensures
        final(registry).wf(),
        final(registry)@ == spec_begin(old(registry)@, ClassKey::Plain).0,
        carries_answer(told, ClassKey::Plain, spec_begin(old(registry)@, ClassKey::Plain).1),
{
    enroll(registry, ClassKey::Plain)
}

/// Asks for the row class of the delegate type with the identity
/// `delegate_type`. The first caller for that type is handed the plan of the
/// class: a name that no other type shares, the two storage slots and all
/// eight callbacks. Every later caller for that type is handed the registered
/// class, or the reason why there is none.
pub fn register_listview_row_class_with_delegate(
    registry: &mut ClassRegistry,
    delegate_type: u64,
) -> (told: Result<Admission, RegistrationError>)
    requires
        old(registry).wf(),
    ensures
        final(registry).wf(),
        final(registry)@ == spec_begin(old(registry)@, ClassKey::Delegate(delegate_type)).0,
        carries_answer(
            told,
            ClassKey::Delegate(delegate_type),
            spec_begin(old(registry)@, ClassKey::Delegate(delegate_type)).1,
        ),
{
    enroll(registry, ClassKey::Delegate(delegate_type))
}

} // verus!
