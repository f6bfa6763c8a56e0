//! The extension lifecycle: the operator index, the catalog of extensions, enabling and
//! disabling extensions, dispatching operators, and the bookkeeping that runs when an
//! extension's entities go away.

use vstd::prelude::*;
use crate::keyed::KeyedVec;
use crate::api::operator::{OperatorCommandBuffer, OperatorResult};

verus! {

/// The root record of a loaded extension.
#[derive(Clone, Debug)]
pub struct Extension {
    pub name: String,
}

/// A loaded extension: its entity and its name.
#[derive(Clone, Debug)]
pub struct LoadedExtension {
    pub entity: u64,
    pub name: String,
}

/// An operator of an extension, with the systems that run it (by entity number).
#[derive(Clone, Debug)]
pub struct OperatorEntity {
    pub id: String,
    pub label: String,
    pub description: String,
    pub execute: u64,
    pub invoke: u64,
    pub poll: Option<u64>,
}

/// Tracks a dock window that an extension registered.
#[derive(Clone, Debug)]
pub struct RegisteredWindow {
    pub id: String,
}

/// Tracks a workspace that an extension registered.
#[derive(Clone, Debug)]
pub struct RegisteredWorkspace {
    pub id: String,
}

/// Tracks a section that an extension added to a panel.
#[derive(Clone, Debug)]
pub struct RegisteredPanelExtension {
    pub panel_id: String,
    pub section_index: usize,
}

/// Operator id to operator entity.
pub struct OperatorIndex {
    by_id: KeyedVec<u64>,
}

impl OperatorIndex {
    pub closed spec fn view(&self) -> Map<Seq<char>, u64> {
        self.by_id.view()
    }

    pub fn new() -> (r: Self)
        ensures
            r.view() == Map::<Seq<char>, u64>::empty(),
    {
        OperatorIndex { by_id: KeyedVec::new() }
    }

    /// The operator entity registered under `id`.
    pub fn get(&self, id: &str) -> (r: Option<u64>)
        ensures
            r == if self.view().dom().contains(id@) {
                Some(self.view()[id@])
            } else {
                None
            },
    {
        match self.by_id.get(id) {
            Some(e) => Some(*e),
            None => None,
        }
    }

    /// Every (operator id, entity) entry, each id once.
    pub fn iter(&self) -> (r: Vec<(String, u64)>)
        ensures
            forall|i: int| 0 <= i < r@.len() ==> self.view().dom().contains(#[trigger] r@[i].0@)
                && self.view()[r@[i].0@] == r@[i].1,
            forall|k: Seq<char>| self.view().dom().contains(k) ==> exists|i: int| 0 <= i < r@.len() && #[trigger] r@[i].0@ == k,
            forall|i: int, j: int| 0 <= i < r@.len() && 0 <= j < r@.len() && i != j ==> r@[i].0@ != r@[j].0@,
    {
        let keys = self.by_id.keys();
        let ghost ks = crate::keyed::texts(keys@);
        let mut r: Vec<(String, u64)> = Vec::new();
        let mut i: usize = 0;
        while i < keys.len()
            invariant
                0 <= i <= keys.len(),
                ks == crate::keyed::texts(keys@),
                ks.len() == keys@.len(),
                forall|a: int, b: int| 0 <= a < ks.len() && 0 <= b < ks.len() && a != b ==> ks[a] != ks[b],
                forall|a: int| 0 <= a < ks.len() ==> self.view().dom().contains(#[trigger] ks[a]),
                r@.len() == i,
                forall|a: int| 0 <= a < i ==> r@[a].0@ == ks[a] && self.view()[ks[a]] == r@[a].1,
            decreases keys.len() - i,
        {
            assert(ks[i as int] == keys@[i as int]@);
            assert(self.view().dom().contains(ks[i as int]));
            let e = match self.by_id.get(keys[i].as_str()) {
                Some(e) => *e,
                None => 0,
            };
            r.push((keys[i].clone(), e));
            i += 1;
        }
        proof {
            assert forall|a: int| 0 <= a < r@.len() implies self.view().dom().contains(#[trigger] r@[a].0@)
                && self.view()[r@[a].0@] == r@[a].1 by {
                assert(r@[a].0@ == ks[a]);
            }
            assert forall|a: int, b: int| 0 <= a < r@.len() && 0 <= b < r@.len() && a != b implies r@[a].0@ != r@[b].0@ by {
                assert(r@[a].0@ == ks[a]);
                assert(r@[b].0@ == ks[b]);
            }
            assert forall|k: Seq<char>| self.view().dom().contains(k) implies exists|a: int| 0 <= a < r@.len() && #[trigger] r@[a].0@ == k by {
                assert(ks.contains(k));
                let a = choose|a: int| 0 <= a < ks.len() && ks[a] == k;
                assert(r@[a].0@ == k);
            }
        }
        r
    }
}

/// Keeps the index in step when an operator entity appears: its id now leads to it.
pub fn index_operator_on_add(index: &mut OperatorIndex, entity: u64, op: Option<&OperatorEntity>)
    ensures
        final(index).view() == match op {
            Some(o) => old(index).view().insert(o.id@, entity),
            None => old(index).view(),
        },
{
    if let Some(o) = op {
        index.by_id.insert(o.id.clone(), entity);
    }
}

/// The systems to unregister when an operator entity goes: its execute system, its invoke
/// system when that is another one, and its poll system when it has one.
pub open spec fn systems_of(op: OperatorEntity) -> Seq<u64> {
    let base = if op.invoke != op.execute { seq![op.execute, op.invoke] } else { seq![op.execute] };
    match op.poll {
        Some(p) => base.push(p),
        None => base,
    }
}

/// Keeps the index in step when an operator entity goes, and returns the systems to
/// unregister.
pub fn deindex_and_cleanup_operator_on_remove(index: &mut OperatorIndex, op: Option<&OperatorEntity>) -> (systems: Vec<u64>)
    ensures
        final(index).view() == match op {
            Some(o) => old(index).view().remove(o.id@),
            None => old(index).view(),
        },
        systems@ == match op {
            Some(o) => systems_of(*o),
            None => Seq::<u64>::empty(),
        },
{
    let mut systems: Vec<u64> = Vec::new();
    if let Some(o) = op {
        index.by_id.remove(o.id.as_str());
        systems.push(o.execute);
        if o.execute != o.invoke {
            systems.push(o.invoke);
        }
        if let Some(p) = o.poll {
            systems.push(p);
        }
        assert(systems@ =~= systems_of(*o));
    }
    systems
}

/// Every extension compiled into the editor: name to constructor.
pub struct ExtensionCatalog<C> {
    constructors: KeyedVec<C>,
}

impl<C> ExtensionCatalog<C> {
    pub closed spec fn view(&self) -> Map<Seq<char>, C> {
        self.constructors.view()
    }

    /// The names, in registration order.
    pub closed spec fn names(&self) -> Seq<Seq<char>> {
        self.constructors.key_seq()
    }

    pub fn new() -> (r: Self)
        ensures
            r.view() == Map::<Seq<char>, C>::empty(),
            r.names().len() == 0,
    {
        ExtensionCatalog { constructors: KeyedVec::new() }
    }

    /// Registers a constructor under a name, replacing any registered under that name.
    pub fn register(&mut self, name: String, ctor: C)
        ensures
            final(self).view() == old(self).view().insert(name@, ctor),
            final(self).names() == if old(self).view().dom().contains(name@) {
                old(self).names()
            } else {
                old(self).names().push(name@)
            },
    {
        self.constructors.insert(name, ctor);
    }

    /// Whether an extension of that name is registered.
    pub fn contains(&self, name: &str) -> (r: bool)
        ensures
            r == self.view().dom().contains(name@),
    {
        self.constructors.contains(name)
    }

    /// The registered names, in registration order; each name once.
    pub fn iter(&self) -> (r: Vec<String>)
        ensures
            crate::keyed::texts(r@) == self.names(),
            forall|i: int, j: int|
                0 <= i < self.names().len() && 0 <= j < self.names().len() && i != j ==> self.names()[i]
                    != self.names()[j],
            forall|i: int| 0 <= i < self.names().len() ==> self.view().dom().contains(#[trigger] self.names()[i]),
            forall|k: Seq<char>| self.view().dom().contains(k) ==> self.names().contains(k),
    {
        self.constructors.keys()
    }

    /// A fresh instance of the extension registered under `name`, built by its
    /// constructor; `None` when no extension of that name is registered.
    pub fn construct(&self, name: &str) -> (r: Option<C::Extension>)
        where C: ExtensionCtor,
        ensures
            r is Some <==> self.view().dom().contains(name@),
            r matches Some(x) ==> x == self.view()[name@].build_spec(),
    {
        match self.constructors.get(name) {
            Some(ctor) => Some(ctor.build()),
            None => None,
        }
    }

    /// The constructor registered under `name`.
    pub fn constructor(&self, name: &str) -> (r: Option<&C>)
        ensures
            r == if self.view().dom().contains(name@) {
                Some(&self.view()[name@])
            } else {
                None
            },
    {
        self.constructors.get(name)
    }
}

/// Builds an extension instance.
pub trait ExtensionCtor {
    type Extension;

    /// The instance that this constructor builds.
    spec fn build_spec(&self) -> Self::Extension;

    /// A fresh instance.
    fn build(&self) -> (r: Self::Extension)
        ensures
            r == self.build_spec(),
    ;
}

/// The one-time registration an extension makes in the application, apart from what it
/// registers each time it is enabled.
pub trait ExtensionInputs<A> {
    /// The application after this extension registers its input-context types in `app`.
    spec fn inputs_spec(&self, app: A) -> A;

    /// Registers the extension's input-context types with the application.
    fn register_input_contexts(&self, app: &mut A)
        ensures
            *final(app) == self.inputs_spec(*old(app)),
    ;
}

/// Registers an extension: one throwaway instance is built and registers its
/// input-context types with the application, and the constructor is stored in the
/// catalog under the extension's name, so that it can be enabled and disabled later; one
/// registered before under that name is replaced.
pub fn register_extension<A, C>(app: &mut A, catalog: &mut ExtensionCatalog<C>, name: &str, ctor: C)
    where C: ExtensionCtor, C::Extension: ExtensionInputs<A>,
    ensures
        *final(app) == ctor.build_spec().inputs_spec(*old(app)),
        final(catalog).view() == old(catalog).view().insert(name@, ctor),
        final(catalog).names() == if old(catalog).view().dom().contains(name@) {
            old(catalog).names()
        } else {
            old(catalog).names().push(name@)
        },
{
    let sample = ctor.build();
    sample.register_input_contexts(app);
    catalog.register(name.to_owned(), ctor);
}

/// Whether an extension of that name is loaded.
pub open spec fn is_loaded(loaded: Seq<LoadedExtension>, name: Seq<char>) -> bool {
    exists|i: int| 0 <= i < loaded.len() && loaded[i].name@ == name
}

/// The first loaded extension, in query order, with that name.
pub open spec fn first_loaded(loaded: Seq<LoadedExtension>, name: Seq<char>, i: int) -> Option<int>
    decreases loaded.len() - i,
{
    if i < 0 || i >= loaded.len() {
        None
    } else if loaded[i].name@ == name {
        Some(i)
    } else {
        first_loaded(loaded, name, i + 1)
    }
}

pub proof fn lemma_first_loaded(loaded: Seq<LoadedExtension>, name: Seq<char>, i: int)
    requires
        0 <= i,
    ensures
        match first_loaded(loaded, name, i) {
            Some(k) => i <= k < loaded.len() && loaded[k].name@ == name,
            None => forall|j: int| i <= j < loaded.len() ==> loaded[j].name@ != name,
        },
    decreases loaded.len() - i,
{
    if i >= loaded.len() {
    } else if loaded[i].name@ == name {
    } else {
        lemma_first_loaded(loaded, name, i + 1);
    }
}

/// What enabling `name` yields: nothing when an extension of that name is loaded, else
/// the constructor registered under it, if any.
pub open spec fn enable_choice<C>(loaded: Seq<LoadedExtension>, catalog: Map<Seq<char>, C>, name: Seq<char>) -> Option<C> {
    if is_loaded(loaded, name) {
        None
    } else if catalog.dom().contains(name) {
        Some(catalog[name])
    } else {
        None
    }
}

/// The position of the first loaded extension with that name.
fn find_loaded(loaded: &Vec<LoadedExtension>, name: &str) -> (r: Option<usize>)
    ensures
        match r {
            Some(k) => first_loaded(loaded@, name@, 0) == Some(k as int),
            None => first_loaded(loaded@, name@, 0) is None,
        },
{
    let key = name.to_owned();
    let mut i: usize = 0;
    while i < loaded.len()
        invariant
            0 <= i <= loaded.len(),
            key@ == name@,
            first_loaded(loaded@, name@, 0) == first_loaded(loaded@, name@, i as int),
        decreases loaded.len() - i,
    {
        if loaded[i].name == key {
            return Some(i);
        }
        i += 1;
    }
    None
}

/// Enabling a named extension: nothing when one of that name is already loaded;
/// otherwise the catalog's constructor for it, if it has one, which the caller then runs
/// and loads.
pub fn enable_extension<'a, C>(loaded: &Vec<LoadedExtension>, catalog: &'a ExtensionCatalog<C>, name: &str) -> (r: Option<&'a C>)
    ensures
        match r {
            Some(c) => enable_choice(loaded@, catalog.view(), name@) == Some(*c),
            None => enable_choice(loaded@, catalog.view(), name@) is None,
        },
{
    proof {
        lemma_first_loaded(loaded@, name@, 0);
    }
    if find_loaded(loaded, name).is_some() {
        return None;
    }
    catalog.constructor(name)
}

/// Disabling a named extension: the entity of the first loaded extension of that name,
/// which the caller then unloads; `None` when none is loaded.
pub fn disable_extension(loaded: &Vec<LoadedExtension>, name: &str) -> (r: Option<u64>)
    ensures
        r == match first_loaded(loaded@, name@, 0) {
            Some(k) => Some(loaded@[k].entity),
            None => None,
        },
        r is Some <==> is_loaded(loaded@, name@),
{
    proof {
        lemma_first_loaded(loaded@, name@, 0);
    }
    match find_loaded(loaded, name) {
        Some(k) => Some(loaded[k].entity),
        None => None,
    }
}

/// The position of the first loaded extension, from `i` on, whose entity is `entity`.
pub open spec fn entity_position(loaded: Seq<LoadedExtension>, entity: u64, i: int) -> Option<int>
    decreases loaded.len() - i,
{
    if i < 0 || i >= loaded.len() {
        None
    } else if loaded[i].entity == entity {
        Some(i)
    } else {
        entity_position(loaded, entity, i + 1)
    }
}

pub proof fn lemma_entity_position(loaded: Seq<LoadedExtension>, entity: u64, i: int)
    requires
        0 <= i,
    ensures
        match entity_position(loaded, entity, i) {
            Some(k) => i <= k < loaded.len() && loaded[k].entity == entity,
            None => forall|j: int| i <= j < loaded.len() ==> loaded[j].entity != entity,
        },
    decreases loaded.len() - i,
{
    if i < loaded.len() && loaded[i].entity != entity {
        lemma_entity_position(loaded, entity, i + 1);
    }
}

/// The loaded extensions once the extension entity `entity` is gone.
pub open spec fn unloaded(loaded: Seq<LoadedExtension>, entity: u64) -> Seq<LoadedExtension> {
    match entity_position(loaded, entity, 0) {
        Some(k) => loaded.remove(k),
        None => loaded,
    }
}

/// A step of unloading an extension, for the caller to carry out in order.
#[derive(Clone, Copy, PartialEq, Eq, Structural, Debug)]
pub enum UnloadStep {
    /// Take the extension's stored instance off the entity, if it has one, and run its
    /// unregister hook.
    RunUnregisterHook(u64),
    /// Despawn the entity with everything below it; the cleanup observers run.
    Despawn(u64),
}

/// How to unload an extension: its name (empty when the entity held no extension), and
/// the steps to carry out.
pub struct UnloadPlan {
    pub name: String,
    pub steps: Vec<UnloadStep>,
}

/// Unloads the extension whose entity is `ext_entity`: it leaves the loaded extensions,
/// and the plan names it (empty when no loaded extension has that entity) and says to
/// run its unregister hook first and then despawn the entity.
pub fn unload_extension(loaded: &mut Vec<LoadedExtension>, ext_entity: u64) -> (plan: UnloadPlan)
    ensures
        final(loaded)@ == unloaded(old(loaded)@, ext_entity),
        plan.name@ == match entity_position(old(loaded)@, ext_entity, 0) {
            Some(k) => old(loaded)@[k].name@,
            None => Seq::<char>::empty(),
        },
        plan.steps@ == seq![UnloadStep::RunUnregisterHook(ext_entity), UnloadStep::Despawn(ext_entity)],
{
    let name = remove_loaded(loaded, ext_entity);
    let mut steps: Vec<UnloadStep> = Vec::new();
    steps.push(UnloadStep::RunUnregisterHook(ext_entity));
    steps.push(UnloadStep::Despawn(ext_entity));
    assert(steps@ =~= seq![UnloadStep::RunUnregisterHook(ext_entity), UnloadStep::Despawn(ext_entity)]);
    UnloadPlan { name, steps }
}

/// Takes the extension whose entity is `ext_entity` out of the loaded ones and returns
/// its name, empty when none has that entity.
fn remove_loaded(loaded: &mut Vec<LoadedExtension>, ext_entity: u64) -> (name: String)
    ensures
        final(loaded)@ == unloaded(old(loaded)@, ext_entity),
        name@ == match entity_position(old(loaded)@, ext_entity, 0) {
            Some(k) => old(loaded)@[k].name@,
            None => Seq::<char>::empty(),
        },
{
    let ghost before = loaded@;
    let mut i: usize = 0;
    while i < loaded.len()
        invariant
            0 <= i <= loaded.len(),
            loaded@ == before,
            before == old(loaded)@,
            entity_position(before, ext_entity, 0) == entity_position(before, ext_entity, i as int),
        decreases loaded.len() - i,
    {
        if loaded[i].entity == ext_entity {
            assert(entity_position(before, ext_entity, i as int) == Some(i as int));
            let gone = loaded.remove(i);
            return gone.name;
        }
        i += 1;
    }
    String::new()
}

/// The names of the loaded extensions, in query order: what is persisted as the
/// enabled list.
pub fn persist_current_enabled(loaded: &Vec<LoadedExtension>) -> (names: Vec<String>)
    ensures
        names@.len() == loaded@.len(),
        forall|i: int| 0 <= i < loaded@.len() ==> names@[i]@ == loaded@[i].name@,
{
    let mut names: Vec<String> = Vec::new();
    let mut i: usize = 0;
    while i < loaded.len()
        invariant
            0 <= i <= loaded.len(),
            names@.len() == i,
            forall|j: int| 0 <= j < i ==> names@[j]@ == loaded@[j].name@,
        decreases loaded.len() - i,
    {
        names.push(loaded[i].name.clone());
        i += 1;
    }
    names
}


/// Commands grouped under a label: one undo entry.
pub struct CommandGroup<C> {
    pub commands: Vec<C>,
    pub label: String,
}

/// Where a dispatch of an operator stands.
#[derive(Clone, Copy, PartialEq, Eq, Structural, Debug)]
pub enum DispatchStage {
    Idle,
    /// Waiting for the operator entity that the index led to.
    AwaitingOperator,
    /// Waiting for the operator's poll system to say whether it may run.
    AwaitingPoll,
    /// Waiting for the operator's invoke system to finish.
    AwaitingInvoke,
}

/// What the caller reports to a dispatch.
pub enum DispatchEvent {
    /// Dispatch the operator with this id.
    Start { id: String, creates_history_entry: bool },
    /// The operator entity, or `None` when the entity has no operator.
    OperatorFetched(Option<OperatorEntity>),
    /// What the poll system returned, or `None` when it could not run.
    PollRan(Option<bool>),
    /// What the invoke system returned, or `None` when it could not run.
    InvokeRan(Option<OperatorResult>),
}

/// What the dispatch asks the caller to do next.
pub enum DispatchAction<C> {
    /// No operator has that id: warn.
    UnknownOperator,
    /// Fetch the operator record of this entity.
    FetchOperator(u64),
    /// Run this poll system.
    RunPoll(u64),
    /// Run this invoke system.
    RunInvoke(u64),
    /// The invoke system could not be run: report it.
    InvokeFailed,
    /// Push this group as one undo entry.
    PushHistory(CommandGroup<C>),
    /// Nothing more to do.
    Stop,
}

/// A dispatch of an operator by id, driven by the caller's reports.
pub struct OperatorDispatch {
    pub stage: DispatchStage,
    pub creates_history_entry: bool,
    pub op: Option<OperatorEntity>,
}

impl OperatorDispatch {
    pub fn new() -> (r: Self)
        ensures
            r.stage == DispatchStage::Idle,
    {
        OperatorDispatch { stage: DispatchStage::Idle, creates_history_entry: false, op: None }
    }

    /// Takes one report and says what to do next. A start resolves the id through the
    /// index; an operator with a poll system polls first, and one whose poll does not
    /// answer `true` stops there; before the invoke system runs, the buffer is readied;
    /// a run that could not happen leaves the buffer as it is; a cancelled run drops the
    /// recorded commands; a finished or running run takes them and, when the run makes a
    /// history entry and recorded any, pushes them as one entry under the operator's label.
    /// A report that does not fit the stage changes nothing.
    pub fn dispatch_operator_by_id<C>(
        &mut self,
        event: DispatchEvent,
        index: &OperatorIndex,
        buffer: &mut OperatorCommandBuffer<C>,
    ) -> (action: DispatchAction<C>)
        ensures
            match event {
                DispatchEvent::Start { id, creates_history_entry } => {
                    &&& final(buffer).recorded() == old(buffer).recorded()
                    &&& final(buffer).makes_entry() == old(buffer).makes_entry()
                    &&& if index.view().dom().contains(id@) {
                        &&& action matches DispatchAction::FetchOperator(e) && e == index.view()[id@]
                        &&& final(self).stage == DispatchStage::AwaitingOperator
                        &&& final(self).creates_history_entry == creates_history_entry
                    } else {
                        &&& action is UnknownOperator
                        &&& final(self).stage == DispatchStage::Idle
                    }
                },
                DispatchEvent::OperatorFetched(fetched) => if old(self).stage == DispatchStage::AwaitingOperator {
                    match fetched {
                        None => {
                            &&& action is Stop
                            &&& final(self).stage == DispatchStage::Idle
                            &&& final(buffer).recorded() == old(buffer).recorded()
                            &&& final(buffer).makes_entry() == old(buffer).makes_entry()
                        },
                        Some(o) => match o.poll {
                            Some(p) => {
                                &&& action matches DispatchAction::RunPoll(q) && q == p
                                &&& final(self).stage == DispatchStage::AwaitingPoll
                                &&& final(self).op == Some(o)
                                &&& final(self).creates_history_entry == old(self).creates_history_entry
                                &&& final(buffer).recorded() == old(buffer).recorded()
                                &&& final(buffer).makes_entry() == old(buffer).makes_entry()
                            },
                            None => {
                                &&& action matches DispatchAction::RunInvoke(q) && q == o.invoke
                                &&& final(self).stage == DispatchStage::AwaitingInvoke
                                &&& final(self).op == Some(o)
                                &&& final(buffer).recorded() == Seq::<C>::empty()
                                &&& final(buffer).makes_entry() == old(self).creates_history_entry
                            },
                        },
                    }
                } else {
                    &&& action is Stop
                    &&& *final(self) == *old(self)
                    &&& final(buffer).recorded() == old(buffer).recorded()
                    &&& final(buffer).makes_entry() == old(buffer).makes_entry()
                },
                DispatchEvent::PollRan(polled) => if old(self).stage == DispatchStage::AwaitingPoll
                    && old(self).op is Some {
                    if polled == Some(true) {
                        &&& action matches DispatchAction::RunInvoke(q) && q == old(self).op->0.invoke
                        &&& final(self).stage == DispatchStage::AwaitingInvoke
                        &&& final(self).op == old(self).op
                        &&& final(buffer).recorded() == Seq::<C>::empty()
                        &&& final(buffer).makes_entry() == old(self).creates_history_entry
                    } else {
                        &&& action is Stop
                        &&& final(self).stage == DispatchStage::Idle
                        &&& final(buffer).recorded() == old(buffer).recorded()
                        &&& final(buffer).makes_entry() == old(buffer).makes_entry()
                    }
                } else {
                    &&& action is Stop
                    &&& *final(self) == *old(self)
                    &&& final(buffer).recorded() == old(buffer).recorded()
                    &&& final(buffer).makes_entry() == old(buffer).makes_entry()
                },
                DispatchEvent::InvokeRan(ran) => if old(self).stage == DispatchStage::AwaitingInvoke
                    && old(self).op is Some {
                    &&& final(self).stage == DispatchStage::Idle
                    &&& match ran {
                        None => {
                            &&& action is InvokeFailed
                            &&& final(buffer).recorded() == old(buffer).recorded()
                            &&& final(buffer).makes_entry() == old(buffer).makes_entry()
                        },
                        Some(OperatorResult::Cancelled) => {
                            &&& action is Stop
                            &&& final(buffer).recorded() == Seq::<C>::empty()
                            &&& !final(buffer).makes_entry()
                        },
                        Some(_) => {
                            &&& final(buffer).recorded() == Seq::<C>::empty()
                            &&& !final(buffer).makes_entry()
                            &&& if old(buffer).makes_entry() && old(buffer).recorded().len() > 0 {
                                action matches DispatchAction::PushHistory(g)
                                    && g.commands@ == old(buffer).recorded()
                                    && g.label@ == old(self).op->0.label@
                            } else {
                                action is Stop
                            }
                        },
                    }
                } else {
                    &&& action is Stop
                    &&& *final(self) == *old(self)
                    &&& final(buffer).recorded() == old(buffer).recorded()
                    &&& final(buffer).makes_entry() == old(buffer).makes_entry()
                },
            },
    {
        match event {
            DispatchEvent::Start { id, creates_history_entry } => {
                match index.get(id.as_str()) {
                    None => {
                        self.stage = DispatchStage::Idle;
                        self.op = None;
                        DispatchAction::UnknownOperator
                    },
                    Some(e) => {
                        self.stage = DispatchStage::AwaitingOperator;
                        self.creates_history_entry = creates_history_entry;
                        self.op = None;
                        DispatchAction::FetchOperator(e)
                    },
                }
            },
            DispatchEvent::OperatorFetched(fetched) => {
                if self.stage != DispatchStage::AwaitingOperator {
                    return DispatchAction::Stop;
                }
                match fetched {
                    None => {
                        self.stage = DispatchStage::Idle;
                        DispatchAction::Stop
                    },
                    Some(o) => {
                        match o.poll {
                            Some(p) => {
                                self.stage = DispatchStage::AwaitingPoll;
                                self.op = Some(o);
                                DispatchAction::RunPoll(p)
                            },
                            None => {
                                buffer.prepare(self.creates_history_entry);
                                let invoke = o.invoke;
                                self.stage = DispatchStage::AwaitingInvoke;
                                self.op = Some(o);
                                DispatchAction::RunInvoke(invoke)
                            },
                        }
                    },
                }
            },
            DispatchEvent::PollRan(polled) => {
                if self.stage != DispatchStage::AwaitingPoll {
                    return DispatchAction::Stop;
                }
                let invoke = match &self.op {
                    Some(o) => o.invoke,
                    None => {
                        return DispatchAction::Stop;
                    },
                };
                let allowed = match polled {
                    Some(b) => b,
                    None => false,
                };
                if !allowed {
                    self.stage = DispatchStage::Idle;
                    return DispatchAction::Stop;
                }
                buffer.prepare(self.creates_history_entry);
                self.stage = DispatchStage::AwaitingInvoke;
                DispatchAction::RunInvoke(invoke)
            },
            DispatchEvent::InvokeRan(ran) => {
                if self.stage != DispatchStage::AwaitingInvoke {
                    return DispatchAction::Stop;
                }
                let label = match &self.op {
                    Some(o) => o.label.clone(),
                    None => {
                        return DispatchAction::Stop;
                    },
                };
                self.stage = DispatchStage::Idle;
                match ran {
                    None => DispatchAction::InvokeFailed,
                    Some(OperatorResult::Cancelled) => {
                        let _ = buffer.take();
                        DispatchAction::Stop
                    },
                    Some(_) => {
                        let (recorded, creates_history) = buffer.take();
                        if creates_history && recorded.len() > 0 {
                            DispatchAction::PushHistory(CommandGroup { commands: recorded, label })
                        } else {
                            DispatchAction::Stop
                        }
                    },
                }
            },
        }
    }
}

/// A change to the operator entities: one with an id appears, or goes.
pub enum OperatorEvent {
    Added(Seq<char>, u64),
    Removed(Seq<char>, u64),
}

/// The index after the observers saw `events`, from an empty index.
pub open spec fn index_after(events: Seq<OperatorEvent>) -> Map<Seq<char>, u64>
    decreases events.len(),
{
    if events.len() == 0 {
        Map::empty()
    } else {
        let before = index_after(events.drop_last());
        match events.last() {
            OperatorEvent::Added(id, e) => before.insert(id, e),
            OperatorEvent::Removed(id, _) => before.remove(id),
        }
    }
}

/// The live (id, entity) operator pairs after `events`.
pub open spec fn live_after(events: Seq<OperatorEvent>) -> Set<(Seq<char>, u64)>
    decreases events.len(),
{
    if events.len() == 0 {
        Set::empty()
    } else {
        let before = live_after(events.drop_last());
        match events.last() {
            OperatorEvent::Added(id, e) => before.insert((id, e)),
            OperatorEvent::Removed(id, e) => before.remove((id, e)),
        }
    }
}

/// Live operators have distinct ids: an operator appears only when no live one has its
/// id, and only a live operator goes.
pub open spec fn distinct_ids(events: Seq<OperatorEvent>) -> bool
    decreases events.len(),
{
    if events.len() == 0 {
        true
    } else {
        let before = live_after(events.drop_last());
        &&& distinct_ids(events.drop_last())
        &&& match events.last() {
            OperatorEvent::Added(id, _) => forall|x: u64| !before.contains((id, x)),
            OperatorEvent::Removed(id, e) => before.contains((id, e)),
        }
    }
}

/// While live operators have distinct ids, the index that the add and remove observers
/// keep leads each id to exactly the live operator entity with that id.
pub proof fn law_index_matches_live_operators(events: Seq<OperatorEvent>)
    requires
        distinct_ids(events),
    ensures
        forall|id: Seq<char>, e: u64|
            (index_after(events).dom().contains(id) && index_after(events)[id] == e) <==> #[trigger] live_after(
                events,
            ).contains((id, e)),
    decreases events.len(),
{
    if events.len() > 0 {
        let rest = events.drop_last();
        law_index_matches_live_operators(rest);
        let ib = index_after(rest);
        let lb = live_after(rest);
        match events.last() {
            OperatorEvent::Added(id0, e0) => {
                assert forall|id: Seq<char>, e: u64|
                    (index_after(events).dom().contains(id) && index_after(events)[id] == e) <==> #[trigger] live_after(
                        events,
                    ).contains((id, e)) by {
                    if id == id0 {
                        assert(!lb.contains((id, e)));
                    } else {
                        assert(lb.contains((id, e)) <==> (ib.dom().contains(id) && ib[id] == e));
                    }
                }
            },
            OperatorEvent::Removed(id0, e0) => {
                assert(lb.contains((id0, e0)));
                assert(ib.dom().contains(id0) && ib[id0] == e0);
                assert forall|id: Seq<char>, e: u64|
                    (index_after(events).dom().contains(id) && index_after(events)[id] == e) <==> #[trigger] live_after(
                        events,
                    ).contains((id, e)) by {
                    if id == id0 {
                        if lb.contains((id, e)) {
                            assert(ib[id] == e);
                        }
                    } else {
                        assert(lb.contains((id, e)) <==> (ib.dom().contains(id) && ib[id] == e));
                    }
                }
            },
        }
    }
}

/// Once an operator entity is indexed, its id resolves to it; once deindexed, the id
/// resolves to nothing; other ids are untouched either way.
pub proof fn law_index_tracks_operators(index: Map<Seq<char>, u64>, id: Seq<char>, entity: u64, other: Seq<char>)
    requires
        other != id,
    ensures
        index.insert(id, entity).dom().contains(id),
        index.insert(id, entity)[id] == entity,
        !index.remove(id).dom().contains(id),
        index.insert(id, entity).dom().contains(other) == index.dom().contains(other),
        index.dom().contains(other) ==> index.insert(id, entity)[other] == index[other]
            && index.remove(id)[other] == index[other],
{
}

/// Enabling an extension that is not loaded yields the constructor registered last under
/// its name; enabling one that is loaded yields nothing.
pub proof fn law_enable_uses_registered_constructor<C>(
    catalog: Map<Seq<char>, C>,
    loaded: Seq<LoadedExtension>,
    name: Seq<char>,
    ctor: C,
)
    ensures
        !is_loaded(loaded, name) ==> enable_choice(loaded, catalog.insert(name, ctor), name) == Some(ctor),
        is_loaded(loaded, name) ==> enable_choice(loaded, catalog, name) is None,
{
}

proof fn lemma_first_loaded_at_end(loaded: Seq<LoadedExtension>, ext: LoadedExtension, i: int)
    requires
        0 <= i <= loaded.len(),
        forall|j: int| 0 <= j < loaded.len() ==> loaded[j].name@ != ext.name@,
    ensures
        first_loaded(loaded.push(ext), ext.name@, i) == Some(loaded.len() as int),
    decreases loaded.len() - i,
{
    if i < loaded.len() {
        lemma_first_loaded_at_end(loaded, ext, i + 1);
    }
}

proof fn lemma_entity_at_end(loaded: Seq<LoadedExtension>, ext: LoadedExtension, i: int)
    requires
        0 <= i <= loaded.len(),
        forall|j: int| 0 <= j < loaded.len() ==> loaded[j].entity != ext.entity,
    ensures
        entity_position(loaded.push(ext), ext.entity, i) == Some(loaded.len() as int),
    decreases loaded.len() - i,
{
    if i < loaded.len() {
        lemma_entity_at_end(loaded, ext, i + 1);
    }
}

/// Disabling an extension just loaded, and unloading the entity that names, gives back
/// the loaded extensions as they were before it was loaded.
pub proof fn law_disable_undoes_enable(loaded: Seq<LoadedExtension>, ext: LoadedExtension)
    requires
        !is_loaded(loaded, ext.name@),
        forall|j: int| 0 <= j < loaded.len() ==> loaded[j].entity != ext.entity,
    ensures
        first_loaded(loaded.push(ext), ext.name@, 0) == Some(loaded.len() as int),
        loaded.push(ext)[loaded.len() as int].entity == ext.entity,
        unloaded(loaded.push(ext), ext.entity) == loaded,
{
    lemma_first_loaded_at_end(loaded, ext, 0);
    lemma_entity_at_end(loaded, ext, 0);
    assert(loaded.push(ext).remove(loaded.len() as int) =~= loaded);
}
} // verus!
