use jackdaw::api::lifecycle::{
    deindex_and_cleanup_operator_on_remove, disable_extension, enable_extension, index_operator_on_add,
    persist_current_enabled, register_extension, ExtensionCtor, ExtensionInputs, unload_extension, DispatchAction, UnloadStep, DispatchEvent, DispatchStage, ExtensionCatalog, LoadedExtension,
    OperatorDispatch, OperatorEntity, OperatorIndex,
};
use jackdaw::api::operator::{EditorCommand, OperatorCommandBuffer, OperatorResult};

fn op(id: &str, execute: u64, invoke: u64, poll: Option<u64>) -> OperatorEntity {
    OperatorEntity {
        id: id.to_string(),
        label: format!("Label of {}", id),
        description: String::new(),
        execute,
        invoke,
        poll,
    }
}

#[derive(Debug, PartialEq)]
struct Ctor(u32);

#[derive(Debug, PartialEq)]
struct Ext(u32);

impl ExtensionCtor for Ctor {
    type Extension = Ext;
    fn build_spec(&self) -> Ext {
        Ext(self.0)
    }
    fn build(&self) -> Ext {
        Ext(self.0)
    }
}

#[derive(Default)]
struct App {
    contexts: Vec<u32>,
}

impl ExtensionInputs<App> for Ext {
    fn inputs_spec(&self, app: App) -> App {
        let mut contexts = app.contexts;
        contexts.push(self.0);
        App { contexts }
    }
    fn register_input_contexts(&self, app: &mut App) {
        app.contexts.push(self.0);
    }
}

fn loaded(items: &[(u64, &str)]) -> Vec<LoadedExtension> {
    items.iter().map(|(e, n)| LoadedExtension { entity: *e, name: n.to_string() }).collect()
}

#[test]
fn indexed_operators_resolve_by_id() {
    let mut index = OperatorIndex::new();
    assert_eq!(index.get("sample.place_cube"), None);
    index_operator_on_add(&mut index, 7, Some(&op("sample.place_cube", 1, 1, None)));
    index_operator_on_add(&mut index, 8, Some(&op("sample.delete", 2, 3, None)));
    index_operator_on_add(&mut index, 9, None);
    assert_eq!(index.get("sample.place_cube"), Some(7));
    assert_eq!(index.get("sample.delete"), Some(8));
    let mut all = index.iter();
    all.sort();
    assert_eq!(all, vec![("sample.delete".to_string(), 8), ("sample.place_cube".to_string(), 7)]);
}

#[test]
fn reindexing_an_id_points_it_to_the_new_entity() {
    let mut index = OperatorIndex::new();
    index_operator_on_add(&mut index, 7, Some(&op("a", 1, 1, None)));
    index_operator_on_add(&mut index, 11, Some(&op("a", 1, 1, None)));
    assert_eq!(index.get("a"), Some(11));
    assert_eq!(index.iter().len(), 1);
}

#[test]
fn removing_an_operator_deindexes_it_and_lists_its_systems() {
    let mut index = OperatorIndex::new();
    let o = op("a", 1, 1, None);
    index_operator_on_add(&mut index, 7, Some(&o));
    let systems = deindex_and_cleanup_operator_on_remove(&mut index, Some(&o));
    assert_eq!(systems, vec![1]);
    assert_eq!(index.get("a"), None);
    let o2 = op("b", 4, 5, Some(6));
    index_operator_on_add(&mut index, 8, Some(&o2));
    assert_eq!(deindex_and_cleanup_operator_on_remove(&mut index, Some(&o2)), vec![4, 5, 6]);
    assert!(deindex_and_cleanup_operator_on_remove(&mut index, None).is_empty());
}

#[test]
fn the_catalog_keeps_the_last_constructor_per_name() {
    let mut catalog: ExtensionCatalog<Ctor> = ExtensionCatalog::new();
    catalog.register("jackdaw.inspector".to_string(), Ctor(1));
    catalog.register("sample".to_string(), Ctor(2));
    catalog.register("jackdaw.inspector".to_string(), Ctor(3));
    assert!(catalog.contains("sample"));
    assert!(!catalog.contains("missing"));
    assert_eq!(catalog.iter(), vec!["jackdaw.inspector".to_string(), "sample".to_string()]);
    assert_eq!(catalog.construct("jackdaw.inspector"), Some(Ext(3)));
    assert_eq!(catalog.construct("missing"), None);
    assert_eq!(catalog.constructor("sample"), Some(&Ctor(2)));
}

#[test]
fn enabling_skips_loaded_and_unknown_extensions() {
    let mut catalog: ExtensionCatalog<u32> = ExtensionCatalog::new();
    catalog.register("a".to_string(), 1);
    catalog.register("b".to_string(), 2);
    let l = loaded(&[(40, "a")]);
    assert_eq!(enable_extension(&l, &catalog, "a"), None);
    assert_eq!(enable_extension(&l, &catalog, "b"), Some(&2));
    assert_eq!(enable_extension(&l, &catalog, "c"), None);
}

#[test]
fn disabling_finds_the_first_loaded_extension_of_that_name() {
    let l = loaded(&[(40, "a"), (41, "b"), (42, "b")]);
    assert_eq!(disable_extension(&l, "b"), Some(41));
    assert_eq!(disable_extension(&l, "z"), None);
}

#[test]
fn the_persisted_list_is_the_loaded_names() {
    let l = loaded(&[(40, "jackdaw.core_windows"), (41, "sample")]);
    assert_eq!(persist_current_enabled(&l), vec!["jackdaw.core_windows".to_string(), "sample".to_string()]);
}

#[test]
fn the_buffer_hands_out_what_a_run_recorded() {
    let mut b: OperatorCommandBuffer<&str> = OperatorCommandBuffer::new();
    b.record("stale");
    b.prepare(true);
    assert!(b.creates_history_entry());
    b.record("move");
    b.record("rotate");
    let (cmds, history) = b.take();
    assert_eq!(cmds, vec!["move", "rotate"]);
    assert!(history);
    assert!(!b.creates_history_entry());
    let (cmds, history) = b.take();
    assert!(cmds.is_empty());
    assert!(!history);
}

fn index_with(o: &OperatorEntity, entity: u64) -> OperatorIndex {
    let mut index = OperatorIndex::new();
    index_operator_on_add(&mut index, entity, Some(o));
    index
}

#[test]
fn dispatching_an_unknown_operator_warns() {
    let index = OperatorIndex::new();
    let mut buffer: OperatorCommandBuffer<u8> = OperatorCommandBuffer::new();
    let mut d = OperatorDispatch::new();
    let a = d.dispatch_operator_by_id(
        DispatchEvent::Start { id: "nope".to_string(), creates_history_entry: true },
        &index,
        &mut buffer,
    );
    assert!(matches!(a, DispatchAction::UnknownOperator));
    assert_eq!(d.stage, DispatchStage::Idle);
}

#[test]
fn a_finished_run_pushes_one_history_entry() {
    let o = op("sample.place_cube", 1, 2, None);
    let index = index_with(&o, 7);
    let mut buffer: OperatorCommandBuffer<u8> = OperatorCommandBuffer::new();
    let mut d = OperatorDispatch::new();
    let a = d.dispatch_operator_by_id(
        DispatchEvent::Start { id: "sample.place_cube".to_string(), creates_history_entry: true },
        &index,
        &mut buffer,
    );
    assert!(matches!(a, DispatchAction::FetchOperator(7)));
    let a = d.dispatch_operator_by_id(DispatchEvent::OperatorFetched(Some(o)), &index, &mut buffer);
    assert!(matches!(a, DispatchAction::RunInvoke(2)));
    assert!(buffer.creates_history_entry());
    buffer.record(10);
    buffer.record(11);
    let a = d.dispatch_operator_by_id(DispatchEvent::InvokeRan(Some(OperatorResult::Finished)), &index, &mut buffer);
    match a {
        DispatchAction::PushHistory(group) => {
            assert_eq!(group.commands, vec![10, 11]);
            assert_eq!(group.label, "Label of sample.place_cube");
        },
        _ => panic!("expected a history entry"),
    }
    assert_eq!(d.stage, DispatchStage::Idle);
    assert!(!buffer.creates_history_entry());
}

#[test]
fn a_running_run_counts_as_finished() {
    let o = op("x", 1, 1, None);
    let index = index_with(&o, 7);
    let mut buffer: OperatorCommandBuffer<u8> = OperatorCommandBuffer::new();
    let mut d = OperatorDispatch::new();
    d.dispatch_operator_by_id(DispatchEvent::Start { id: "x".to_string(), creates_history_entry: true }, &index, &mut buffer);
    d.dispatch_operator_by_id(DispatchEvent::OperatorFetched(Some(o)), &index, &mut buffer);
    buffer.record(5);
    let a = d.dispatch_operator_by_id(DispatchEvent::InvokeRan(Some(OperatorResult::Running)), &index, &mut buffer);
    assert!(matches!(a, DispatchAction::PushHistory(_)));
}

#[test]
fn a_cancelled_run_drops_its_commands() {
    let o = op("x", 1, 1, None);
    let index = index_with(&o, 7);
    let mut buffer: OperatorCommandBuffer<u8> = OperatorCommandBuffer::new();
    let mut d = OperatorDispatch::new();
    d.dispatch_operator_by_id(DispatchEvent::Start { id: "x".to_string(), creates_history_entry: true }, &index, &mut buffer);
    d.dispatch_operator_by_id(DispatchEvent::OperatorFetched(Some(o)), &index, &mut buffer);
    buffer.record(5);
    let a = d.dispatch_operator_by_id(DispatchEvent::InvokeRan(Some(OperatorResult::Cancelled)), &index, &mut buffer);
    assert!(matches!(a, DispatchAction::Stop));
    let (left, _) = buffer.take();
    assert!(left.is_empty());
}

#[test]
fn a_run_without_history_or_commands_pushes_nothing() {
    let o = op("x", 1, 1, None);
    let index = index_with(&o, 7);
    let mut buffer: OperatorCommandBuffer<u8> = OperatorCommandBuffer::new();
    let mut d = OperatorDispatch::new();
    d.dispatch_operator_by_id(DispatchEvent::Start { id: "x".to_string(), creates_history_entry: false }, &index, &mut buffer);
    d.dispatch_operator_by_id(DispatchEvent::OperatorFetched(Some(o.clone())), &index, &mut buffer);
    buffer.record(5);
    let a = d.dispatch_operator_by_id(DispatchEvent::InvokeRan(Some(OperatorResult::Finished)), &index, &mut buffer);
    assert!(matches!(a, DispatchAction::Stop));
    d.dispatch_operator_by_id(DispatchEvent::Start { id: "x".to_string(), creates_history_entry: true }, &index, &mut buffer);
    d.dispatch_operator_by_id(DispatchEvent::OperatorFetched(Some(o)), &index, &mut buffer);
    let a = d.dispatch_operator_by_id(DispatchEvent::InvokeRan(Some(OperatorResult::Finished)), &index, &mut buffer);
    assert!(matches!(a, DispatchAction::Stop));
}

#[test]
fn a_poll_gates_the_run() {
    let o = op("x", 1, 2, Some(3));
    let index = index_with(&o, 7);
    let mut buffer: OperatorCommandBuffer<u8> = OperatorCommandBuffer::new();
    let mut d = OperatorDispatch::new();
    d.dispatch_operator_by_id(DispatchEvent::Start { id: "x".to_string(), creates_history_entry: true }, &index, &mut buffer);
    let a = d.dispatch_operator_by_id(DispatchEvent::OperatorFetched(Some(o.clone())), &index, &mut buffer);
    assert!(matches!(a, DispatchAction::RunPoll(3)));
    let a = d.dispatch_operator_by_id(DispatchEvent::PollRan(Some(false)), &index, &mut buffer);
    assert!(matches!(a, DispatchAction::Stop));
    assert_eq!(d.stage, DispatchStage::Idle);
    d.dispatch_operator_by_id(DispatchEvent::Start { id: "x".to_string(), creates_history_entry: true }, &index, &mut buffer);
    d.dispatch_operator_by_id(DispatchEvent::OperatorFetched(Some(o.clone())), &index, &mut buffer);
    let a = d.dispatch_operator_by_id(DispatchEvent::PollRan(None), &index, &mut buffer);
    assert!(matches!(a, DispatchAction::Stop));
    d.dispatch_operator_by_id(DispatchEvent::Start { id: "x".to_string(), creates_history_entry: true }, &index, &mut buffer);
    d.dispatch_operator_by_id(DispatchEvent::OperatorFetched(Some(o)), &index, &mut buffer);
    let a = d.dispatch_operator_by_id(DispatchEvent::PollRan(Some(true)), &index, &mut buffer);
    assert!(matches!(a, DispatchAction::RunInvoke(2)));
}

#[test]
fn a_failed_invoke_is_reported_and_keeps_the_buffer() {
    let o = op("x", 1, 1, None);
    let index = index_with(&o, 7);
    let mut buffer: OperatorCommandBuffer<u8> = OperatorCommandBuffer::new();
    let mut d = OperatorDispatch::new();
    d.dispatch_operator_by_id(DispatchEvent::Start { id: "x".to_string(), creates_history_entry: true }, &index, &mut buffer);
    d.dispatch_operator_by_id(DispatchEvent::OperatorFetched(Some(o)), &index, &mut buffer);
    buffer.record(9);
    let a = d.dispatch_operator_by_id(DispatchEvent::InvokeRan(None), &index, &mut buffer);
    assert!(matches!(a, DispatchAction::InvokeFailed));
    assert!(buffer.creates_history_entry());
    assert_eq!(buffer.take().0, vec![9]);
}

#[test]
fn a_missing_operator_record_stops_the_dispatch() {
    let o = op("x", 1, 1, None);
    let index = index_with(&o, 7);
    let mut buffer: OperatorCommandBuffer<u8> = OperatorCommandBuffer::new();
    let mut d = OperatorDispatch::new();
    d.dispatch_operator_by_id(DispatchEvent::Start { id: "x".to_string(), creates_history_entry: true }, &index, &mut buffer);
    let a = d.dispatch_operator_by_id(DispatchEvent::OperatorFetched(None), &index, &mut buffer);
    assert!(matches!(a, DispatchAction::Stop));
    assert_eq!(d.stage, DispatchStage::Idle);
}

#[test]
fn a_report_out_of_turn_is_ignored() {
    let index = OperatorIndex::new();
    let mut buffer: OperatorCommandBuffer<u8> = OperatorCommandBuffer::new();
    buffer.record(1);
    let mut d = OperatorDispatch::new();
    let a = d.dispatch_operator_by_id(DispatchEvent::InvokeRan(Some(OperatorResult::Finished)), &index, &mut buffer);
    assert!(matches!(a, DispatchAction::Stop));
    assert_eq!(buffer.take().0, vec![1]);
}

#[test]
fn registering_an_extension_lists_it_in_the_catalog() {
    let mut app = App::default();
    let mut catalog: ExtensionCatalog<Ctor> = ExtensionCatalog::new();
    register_extension(&mut app, &mut catalog, "sample", Ctor(1));
    register_extension(&mut app, &mut catalog, "other", Ctor(2));
    register_extension(&mut app, &mut catalog, "sample", Ctor(3));
    assert_eq!(app.contexts, vec![1, 2, 3]);
    assert!(catalog.contains("sample"));
    assert_eq!(catalog.construct("sample"), Some(Ext(3)));
    assert_eq!(catalog.iter(), vec!["sample".to_string(), "other".to_string()]);
}

#[test]
fn unloading_removes_the_extension_entity() {
    let mut exts = loaded(&[(3, "a"), (5, "b"), (9, "c")]);
    let plan = unload_extension(&mut exts, 5);
    assert_eq!(plan.name, "b");
    assert_eq!(plan.steps, vec![UnloadStep::RunUnregisterHook(5), UnloadStep::Despawn(5)]);
    assert_eq!(exts.iter().map(|e| e.entity).collect::<Vec<_>>(), vec![3, 9]);
    assert_eq!(unload_extension(&mut exts, 5).name, "");
    assert_eq!(exts.len(), 2);
}

#[test]
fn disabling_a_just_enabled_extension_restores_the_loaded_list() {
    let mut app = App::default();
    let mut catalog: ExtensionCatalog<Ctor> = ExtensionCatalog::new();
    register_extension(&mut app, &mut catalog, "sample", Ctor(42));
    let before = loaded(&[(3, "a"), (5, "b")]);
    let mut exts = loaded(&[(3, "a"), (5, "b")]);
    assert_eq!(enable_extension(&exts, &catalog, "sample"), Some(&Ctor(42)));
    exts.push(LoadedExtension { entity: 12, name: "sample".to_string() });
    assert_eq!(enable_extension(&exts, &catalog, "sample"), None);
    let entity = disable_extension(&exts, "sample").unwrap();
    assert_eq!(entity, 12);
    assert_eq!(unload_extension(&mut exts, entity).name, "sample");
    let names: Vec<_> = exts.iter().map(|e| (e.entity, e.name.clone())).collect();
    let expected: Vec<_> = before.iter().map(|e| (e.entity, e.name.clone())).collect();
    assert_eq!(names, expected);
}

struct AddOne {
    applied: bool,
}

impl EditorCommand<u32> for AddOne {
    fn execute_spec(&self, world: u32) -> (Self, u32) {
        (AddOne { applied: true }, world + 1)
    }
    fn execute(&mut self, world: &mut u32) {
        *world += 1;
        self.applied = true;
    }
}

#[test]
fn execute_and_record_runs_the_command_then_records_it() {
    let mut buffer: OperatorCommandBuffer<AddOne> = OperatorCommandBuffer::new();
    buffer.prepare(true);
    let mut world: u32 = 10;
    buffer.execute_and_record(AddOne { applied: false }, &mut world);
    buffer.execute_and_record(AddOne { applied: false }, &mut world);
    assert_eq!(world, 12);
    assert!(buffer.creates_history_entry());
    let (recorded, history) = buffer.take();
    assert!(history);
    assert_eq!(recorded.len(), 2);
    assert!(recorded.iter().all(|c| c.applied));
}
