//! Requests to add systems, and the phase that applies them.

use crate::world::{drained, submitted, World, WorldHandle};
use vstd::prelude::*;

verus! {

/// Identifies one schedule (phase) of the pipeline. `AddingSystems` is the
/// reserved phase that applies pending requests; every other schedule is
/// `Schedule(n)` for a number chosen by the host.
#[derive(PartialEq, Eq, Structural, Clone, Copy, Debug, Hash)]
pub enum Label {
    AddingSystems,
    Schedule(u64),
}

impl Label {
    /// Whether this is the reserved label of the drain phase.
    pub fn is_adding_systems(&self) -> (r: bool)
        ensures
            r == (*self == Label::AddingSystems),
    {
        match self {
            Label::AddingSystems => true,
            Label::Schedule(_) => false,
        }
    }
}

/// The schedule that runs after the last ordinary phase. Its only system is
/// [`add_requested_systems`]; no
/// request can target it.
#[derive(PartialEq, Eq, Structural, Clone, Copy, Debug, Hash)]
pub struct AddingSystems;

impl AddingSystems {
    /// The label of this schedule.
    pub fn label(&self) -> (r: Label)
        ensures
            r == Label::AddingSystems,
    {
        Label::AddingSystems
    }
}

/// A request to add a bundle of systems to a schedule during the
/// `AddingSystems` phase. The bundle is held by the host and named here by
/// the number `systems`.
#[derive(PartialEq, Eq, Structural, Clone, Copy, Debug, Hash)]
pub struct AddSystems {
    pub schedule: Label,
    pub systems: u64,
}

impl AddSystems {
    /// A request that adds `systems` to `schedule`. The reserved label is not
    /// accepted: the drain phase cannot schedule work into itself.
    pub fn new(schedule: Label, systems: u64) -> (r: Self)
        requires
            schedule != Label::AddingSystems,
        ensures
            r.schedule == schedule,
            r.systems == systems,
            r.wf(),
    {
        AddSystems { schedule, systems }
    }

    /// A request that adds `systems` to `schedule`, or `None` when `schedule`
    /// is the reserved label.
    pub fn try_new(schedule: Label, systems: u64) -> (r: Option<Self>)
        ensures
            r is None <==> schedule == Label::AddingSystems,
            r matches Some(req) ==> req.schedule == schedule && req.systems == systems && req.wf(),
    {
        if schedule.is_adding_systems() {
            None
        } else {
            Some(AddSystems::new(schedule, systems))
        }
    }

    /// A request never targets the reserved label.
    pub open spec fn wf(&self) -> bool {
        self.schedule != Label::AddingSystems
    }
}

/// Every request of the sequence is well formed.
pub open spec fn all_wf(reqs: Seq<AddSystems>) -> bool {
    forall|i: int| 0 <= i < reqs.len() ==> (#[trigger] reqs[i]).wf()
}

/// The bundles that the requests of `log` added to `label`, in the order
/// in which they were applied.
pub open spec fn systems_of(log: Seq<AddSystems>, label: Label) -> Seq<u64>
    decreases log.len(),
{
    if log.len() == 0 {
        Seq::empty()
    } else {
        let prev = systems_of(log.drop_last(), label);
        if log.last().schedule == label {
            prev.push(log.last().systems)
        } else {
            prev
        }
    }
}

/// Convenience trait to request systems from either kind of world handle.
pub trait WorldAddSystems: WorldHandle {
    /// Queues a request to add `systems` to `schedule`, for the next
    /// `AddingSystems` phase. Nothing else changes.
    fn add_systems(&mut self, schedule: Label, systems: u64)
        requires
            old(self).inv(),
            schedule != Label::AddingSystems,
        ensures
            final(self).inv(),
            final(self).model() == submitted(old(self).model(), AddSystems { schedule, systems }),
    ;
}

/// Queues a request to add `systems` to `schedule`, unless `schedule` is the
/// reserved label: then the handle is left exactly as it was and `false`
/// comes back, so that the caller can abort with nothing queued.
pub fn try_add_systems<W: WorldAddSystems>(world: &mut W, schedule: Label, systems: u64) -> (r: bool)
    requires
        old(world).inv(),
    ensures
        final(world).inv(),
        r == (schedule != Label::AddingSystems),
        r ==> final(world).model() == submitted(old(world).model(), AddSystems { schedule, systems }),
        !r ==> *final(world) == *old(world),
{
    if schedule.is_adding_systems() {
        false
    } else {
        world.add_systems(schedule, systems);
        true
    }
}

/// Consumes every pending request and adds its systems to its schedule, in the
/// order in which the requests were sent. This is the only system of the
/// `AddingSystems` schedule.
pub fn add_requested_systems(world: &mut World)
    requires
        old(world).wf(),
    ensures
        final(world).wf(),
        final(world)@ == drained(old(world)@),
{
    world.apply_requests();
}

} // verus!
