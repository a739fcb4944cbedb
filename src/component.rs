//! Components that register themselves the first time one is added.

use crate::world::DeferredWorld;
use crate::{RegisterExtension, RegisterInWorld};
use vstd::prelude::*;

verus! {

/// Implemented for components that are registered to the world automatically,
/// from their on-add hook, before any other on-add behaviour.
pub trait ComponentAutoRegister: RegisterInWorld {
}

/// To be called from the on-add hook of every component that registers itself
/// when added: registers `T` unless it is registered already.
pub fn register_on_add<T: ComponentAutoRegister>(world: &mut DeferredWorld)
    requires
        old(world).wf(),
    ensures
        final(world).wf(),
        crate::world::extends(old(world)@, final(world)@),
        exists|k: std::any::TypeId|
            #![trigger final(world)@.registered.contains(k)]
            final(world)@.registered.contains(k) && (old(world)@.registered.contains(k)
                ==> final(world)@ == old(world)@),
{
    world.register::<T>();
}

} // verus!
