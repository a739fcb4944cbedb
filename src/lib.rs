//! Tracks which concrete types have been registered into a world, registers
//! auto-registering components the first time one is added, and lets restricted
//! world handles request new systems that are added at one safe point per cycle.

use vstd::prelude::*;

pub mod add_systems;
pub mod app;
pub mod component;
pub mod ledger;
pub mod world;

pub use ledger::RegisteredTypes;
use world::DeferredWorld;

verus! {

/// Types that can be registered to the world, once.
pub trait RegisterInWorld: 'static {
    /// Registers the type to the world. Runs at most once per world and type.
    /// It may mark other types and queue requests, and undoes nothing.
    fn register(world: &mut DeferredWorld)
        requires
            old(world).wf(),
        ensures
            final(world).wf(),
            world::extends(old(world)@, final(world)@),
    ;
}

/// Registering a type into a world handle.
pub trait RegisterExtension: world::WorldHandle {
    /// Registers `T` with its callback, unless it was registered already:
    /// afterwards `T`'s identity is marked, and if it was marked before,
    /// nothing has changed. Applied requests are never touched.
    fn register<T: RegisterInWorld>(&mut self)
        requires
            old(self).inv(),
        ensures
            final(self).inv(),
            final(self).model().applied == old(self).model().applied,
            old(self).model().registered.subset_of(final(self).model().registered),
            old(self).model().pending.is_prefix_of(final(self).model().pending),
            exists|k: std::any::TypeId|
                #![trigger final(self).model().registered.contains(k)]
                final(self).model().registered.contains(k) && (old(self).model().registered.contains(k)
                    ==> final(self).model() == old(self).model()),
    ;
}

} // verus!
