//! Setting up a world for registration and for systems added at run time.

use crate::add_systems::Label;
use crate::world::World;
use std::any::TypeId;
use vstd::prelude::*;

verus! {

/// Sets up registration of types into the world and the `AddingSystems`
/// phase that adds requested systems at run time.
pub struct RegisterInWorldPlugin;

impl RegisterInWorldPlugin {
    /// Returns an empty world (no type registered, no request pending) and
    /// inserts the `AddingSystems` phase into `order` right after the first
    /// occurrence of `last`, the last ordinary phase.
    pub fn build(&self, order: &mut Vec<Label>, last: Label) -> (r: World)
        requires
            old(order)@.contains(last),
            old(order)@.len() < usize::MAX,
        ensures
            r.wf(),
            r@.registered == Set::<TypeId>::empty(),
            r@.pending.len() == 0,
            r@.applied.len() == 0,
            exists|i: int|
                0 <= i < old(order)@.len() && old(order)@[i] == last && (forall|j: int|
                    0 <= j < i ==> old(order)@[j] != last) && final(order)@ == old(order)@.insert(
                    i + 1,
                    Label::AddingSystems,
                ),
    {
        let mut i: usize = 0;
        while order[i] != last
            invariant
                0 <= i < order@.len(),
                order@ == old(order)@,
                order@.len() < usize::MAX,
                exists|j: int| i <= j < order@.len() && order@[j] == last,
                forall|j: int| 0 <= j < i ==> order@[j] != last,
            decreases order@.len() - i,
        {
            assert(order@[i as int] != last);
            i = i + 1;
        }
        order.insert(i + 1, Label::AddingSystems);
        World::new()
    }
}

} // verus!
