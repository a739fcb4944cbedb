use bevy_register_in_world::add_systems::{
    add_requested_systems, try_add_systems, AddSystems, AddingSystems, Label, WorldAddSystems,
};
use bevy_register_in_world::app::RegisterInWorldPlugin;
use bevy_register_in_world::component::{register_on_add, ComponentAutoRegister};
use bevy_register_in_world::world::{DeferredWorld, World};
use bevy_register_in_world::{RegisterExtension, RegisterInWorld, RegisteredTypes};
use std::any::TypeId;
use std::marker::PhantomData;

const UPDATE: Label = Label::Schedule(1);
const POST_UPDATE: Label = Label::Schedule(2);

struct Generic<A, B>(PhantomData<(A, B)>);

impl<A: 'static, B: 'static> RegisterInWorld for Generic<A, B> {
    fn register(world: &mut DeferredWorld) {
        world.add_systems(UPDATE, 7);
    }
}

impl<A: 'static, B: 'static> ComponentAutoRegister for Generic<A, B> {}

struct Quiet;

impl RegisterInWorld for Quiet {
    fn register(_world: &mut DeferredWorld) {}
}

struct Chained;

impl RegisterInWorld for Chained {
    fn register(world: &mut DeferredWorld) {
        world.register::<Generic<u8, u8>>();
        world.add_systems(POST_UPDATE, 3);
    }
}

#[test]
fn ledger_starts_empty_and_marks_once() {
    let mut ledger = RegisteredTypes::new();
    let id = TypeId::of::<Quiet>();
    assert!(!ledger.is_registered_id(id));
    assert!(ledger.mark_registered(id));
    assert!(ledger.is_registered_id(id));
    assert!(!ledger.mark_registered(id));
    assert!(!ledger.mark_registered(id));
    assert!(ledger.is_registered_id(id));
}

#[test]
fn ledger_generic_register() {
    let mut ledger = RegisteredTypes::new();
    assert!(!ledger.is_registered::<Quiet>());
    assert!(ledger.register::<Quiet>());
    assert!(ledger.is_registered::<Quiet>());
    assert!(!ledger.register::<Quiet>());
    assert!(ledger.is_registered_id(TypeId::of::<Quiet>()));
}

#[test]
fn two_entities_register_once() {
    let mut world = DeferredWorld::new();
    register_on_add::<Generic<i32, bool>>(&mut world);
    register_on_add::<Generic<i32, bool>>(&mut world);
    assert_eq!(world.pending_requests().len(), 1);
    assert!(world.registered_types().is_registered::<Generic<i32, bool>>());
}

#[test]
fn registered_system_appears_next_cycle() {
    let mut world = World::new();
    world.register::<Generic<i32, bool>>();
    // During the cycle of the addition the system is not in its schedule.
    assert_eq!(world.systems_in(UPDATE), Vec::<u64>::new());
    assert_eq!(world.deferred().pending_requests().len(), 1);
    add_requested_systems(&mut world);
    assert_eq!(world.systems_in(UPDATE), vec![7]);
    assert!(world.deferred().pending_requests().is_empty());
    // Registering again adds nothing more.
    world.register::<Generic<i32, bool>>();
    add_requested_systems(&mut world);
    assert_eq!(world.systems_in(UPDATE), vec![7]);
}

#[test]
fn reserved_label_is_refused() {
    assert!(AddSystems::try_new(Label::AddingSystems, 1).is_none());
    assert!(AddSystems::try_new(AddingSystems.label(), 1).is_none());
    assert!(Label::AddingSystems.is_adding_systems());
    assert!(!UPDATE.is_adding_systems());
    let req = AddSystems::try_new(UPDATE, 4).unwrap();
    assert_eq!(req, AddSystems { schedule: UPDATE, systems: 4 });
    assert_eq!(AddSystems::new(POST_UPDATE, 5).schedule, POST_UPDATE);
    let mut world = World::new();
    add_requested_systems(&mut world);
    assert!(world.systems_in(Label::AddingSystems).is_empty());
}

#[test]
fn generic_instantiations_are_distinct() {
    let mut world = World::new();
    world.register::<Generic<i32, bool>>();
    let ledger = world.deferred().registered_types();
    assert!(ledger.is_registered::<Generic<i32, bool>>());
    assert!(!ledger.is_registered::<Generic<bool, i32>>());
    world.register::<Generic<bool, i32>>();
    assert_eq!(world.deferred().pending_requests().len(), 2);
}

#[test]
fn drain_keeps_order_per_schedule() {
    let mut world = World::new();
    world.add_systems(UPDATE, 1);
    world.add_systems(POST_UPDATE, 2);
    world.add_systems(UPDATE, 3);
    add_requested_systems(&mut world);
    assert_eq!(world.systems_in(UPDATE), vec![1, 3]);
    assert_eq!(world.systems_in(POST_UPDATE), vec![2]);
    assert_eq!(world.applied_requests().len(), 3);
    assert_eq!(world.applied_requests()[1], AddSystems { schedule: POST_UPDATE, systems: 2 });
}

#[test]
fn request_after_drain_waits_for_next_drain() {
    let mut world = World::new();
    world.add_systems(UPDATE, 1);
    add_requested_systems(&mut world);
    world.add_systems(UPDATE, 2);
    assert_eq!(world.systems_in(UPDATE), vec![1]);
    add_requested_systems(&mut world);
    assert_eq!(world.systems_in(UPDATE), vec![1, 2]);
}

#[test]
fn callback_can_register_other_types() {
    let mut world = World::new();
    world.register::<Chained>();
    world.register::<Generic<u8, u8>>();
    add_requested_systems(&mut world);
    assert_eq!(world.systems_in(UPDATE), vec![7]);
    assert_eq!(world.systems_in(POST_UPDATE), vec![3]);
}

#[test]
fn registering_without_callback_effects() {
    let mut world = DeferredWorld::new();
    world.register::<Quiet>();
    assert!(world.registered_types().is_registered::<Quiet>());
    assert!(world.pending_requests().is_empty());
    let mut deferred = DeferredWorld::new();
    deferred.send(AddSystems::new(UPDATE, 9));
    assert_eq!(deferred.pending_requests()[0].systems, 9);
    assert!(deferred.mark_registered(TypeId::of::<Quiet>()));
}

#[test]
fn plugin_inserts_phase_after_last() {
    let first = Label::Schedule(10);
    let last = Label::Schedule(11);
    let mut order = vec![first, last];
    let world = RegisterInWorldPlugin.build(&mut order, last);
    assert_eq!(order, vec![first, last, Label::AddingSystems]);
    assert!(world.deferred().pending_requests().is_empty());
    assert!(world.applied_requests().is_empty());

    let mut order = vec![first, last, Label::Schedule(12)];
    RegisterInWorldPlugin.build(&mut order, last);
    assert_eq!(order, vec![first, last, Label::AddingSystems, Label::Schedule(12)]);
}

#[test]
fn add_hook_through_full_world() {
    let mut world = World::new();
    register_on_add::<Generic<i32, bool>>(world.deferred_mut());
    register_on_add::<Generic<i32, bool>>(world.deferred_mut());
    assert_eq!(world.deferred().pending_requests().len(), 1);
    assert!(world.systems_in(UPDATE).is_empty());
    add_requested_systems(&mut world);
    assert_eq!(world.systems_in(UPDATE), vec![7]);
    assert_eq!(world.applied_requests().len(), 1);
}

#[test]
fn default_ledger_is_empty() {
    let mut ledger = RegisteredTypes::default();
    assert!(!ledger.is_registered::<Quiet>());
    assert!(ledger.register::<Chained>());
    assert!(!ledger.is_registered::<Quiet>());
}

#[test]
fn reserved_label_leaves_queue_unchanged() {
    let mut world = World::new();
    assert!(try_add_systems(&mut world, UPDATE, 1));
    assert!(!try_add_systems(&mut world, Label::AddingSystems, 2));
    assert_eq!(world.deferred().pending_requests().len(), 1);
    assert_eq!(world.deferred().pending_requests()[0], AddSystems { schedule: UPDATE, systems: 1 });
    let mut deferred = DeferredWorld::new();
    assert!(!try_add_systems(&mut deferred, AddingSystems.label(), 3));
    assert!(deferred.pending_requests().is_empty());
    add_requested_systems(&mut world);
    assert!(world.systems_in(Label::AddingSystems).is_empty());
    assert_eq!(world.systems_in(UPDATE), vec![1]);
}
