//! The two world handles: the restricted one handed to registration callbacks,
//! which can mark types and queue requests, and the full one, which also holds
//! the schedules and runs the `AddingSystems` phase.

use crate::add_systems::{all_wf, systems_of, AddSystems, Label, WorldAddSystems};
use crate::ledger::RegisteredTypes;
use crate::{RegisterExtension, RegisterInWorld};
use std::any::TypeId;
use vstd::prelude::*;

verus! {

/// What a restricted handle holds: the registered types and the requests
/// waiting for the next `AddingSystems` phase, oldest first.
pub ghost struct DeferredModel {
    pub registered: Set<TypeId>,
    pub pending: Seq<AddSystems>,
}

/// What the full world holds: the restricted state, and every request that an
/// `AddingSystems` phase has applied, in the order of application.
pub ghost struct WorldModel {
    pub registered: Set<TypeId>,
    pub pending: Seq<AddSystems>,
    pub applied: Seq<AddSystems>,
}

/// Access to the state behind a world handle.
pub trait WorldHandle {
    /// The handle's own well-formedness.
    spec fn inv(&self) -> bool;

    /// The state behind the handle; a restricted handle has applied nothing.
    spec fn model(&self) -> WorldModel;
}

/// `after` extends `before`: no type is unmarked and no request is dropped.
pub open spec fn extends(before: DeferredModel, after: DeferredModel) -> bool {
    &&& before.registered.subset_of(after.registered)
    &&& before.pending.is_prefix_of(after.pending)
}

/// The world after one request is queued.
pub open spec fn submitted(m: WorldModel, req: AddSystems) -> WorldModel {
    WorldModel { pending: m.pending.push(req), ..m }
}

/// The world after an `AddingSystems` phase: every pending request is applied,
/// in order, and none is left pending.
pub open spec fn drained(m: WorldModel) -> WorldModel {
    WorldModel { applied: m.applied + m.pending, pending: Seq::empty(), ..m }
}

/// Restricted world access: types can be registered and systems requested,
/// but no schedule can be changed.
pub struct DeferredWorld {
    registered: RegisteredTypes,
    requests: Vec<AddSystems>,
}

impl View for DeferredWorld {
    type V = DeferredModel;

    closed spec fn view(&self) -> DeferredModel {
        DeferredModel { registered: self.registered@, pending: self.requests@ }
    }
}

impl DeferredWorld {
    /// No pending request targets the reserved label.
    pub open spec fn wf(&self) -> bool {
        all_wf(self@.pending)
    }

    /// No type registered and no request pending.
    pub fn new() -> (r: Self)
        ensures
            r@.registered == Set::<TypeId>::empty(),
            r@.pending == Seq::<AddSystems>::empty(),
            r.wf(),
    {
        DeferredWorld { registered: RegisteredTypes::new(), requests: Vec::new() }
    }

    /// The ledger of registered types.
    pub fn registered_types(&self) -> (r: &RegisteredTypes)
        ensures
            r@ == self@.registered,
    {
        &self.registered
    }

    /// The requests waiting for the next `AddingSystems` phase.
    pub fn pending_requests(&self) -> (r: &Vec<AddSystems>)
        ensures
            r@ == self@.pending,
    {
        &self.requests
    }

    /// Marks `id` in the ledger; `true` exactly when it was not marked before,
    /// that is when its registration callback is owed now.
    pub fn mark_registered(&mut self, id: TypeId) -> (r: bool)
        requires
            old(self).wf(),
        ensures
            final(self).wf(),
            r == !old(self)@.registered.contains(id),
            final(self)@ == (DeferredModel { registered: old(self)@.registered.insert(id), ..old(self)@ }),
    {
        self.registered.mark_registered(id)
    }

    /// Queues a request for the next `AddingSystems` phase.
    pub fn send(&mut self, req: AddSystems)
        requires
            old(self).wf(),
            req.wf(),
        ensures
            final(self).wf(),
            final(self)@ == (DeferredModel { pending: old(self)@.pending.push(req), ..old(self)@ }),
    {
        self.requests.push(req);
    }

    /// Registers the type `T`, whose identity is `id`: marks `id`, and runs
    /// `T`'s callback only when `id` was not marked before. Answers whether
    /// the callback ran.
    fn register_by_id<T: RegisterInWorld>(&mut self, id: TypeId) -> (r: bool)
        requires
            old(self).wf(),
        ensures
            final(self).wf(),
            r == !old(self)@.registered.contains(id),
            final(self)@.registered.contains(id),
            extends(old(self)@, final(self)@),
            !r ==> final(self)@ == old(self)@,
    {
        let ghost before = self@;
        if self.mark_registered(id) {
            T::register(self);
            true
        } else {
            assert(before.registered.insert(id) =~= before.registered);
            false
        }
    }

    /// Takes every pending request, oldest first, and leaves none.
    fn take_requests(&mut self) -> (r: Vec<AddSystems>)
        requires
            old(self).wf(),
        ensures
            final(self).wf(),
            r@ == old(self)@.pending,
            final(self)@ == (DeferredModel { pending: Seq::empty(), ..old(self)@ }),
    {
        let mut taken: Vec<AddSystems> = Vec::new();
        std::mem::swap(&mut self.requests, &mut taken);
        taken
    }
}

impl WorldHandle for DeferredWorld {
    open spec fn inv(&self) -> bool {
        self.wf()
    }

    open spec fn model(&self) -> WorldModel {
        WorldModel { registered: self@.registered, pending: self@.pending, applied: Seq::empty() }
    }
}

impl WorldAddSystems for DeferredWorld {
    fn add_systems(&mut self, schedule: Label, systems: u64) {
        self.send(AddSystems::new(schedule, systems));
    }
}

impl RegisterExtension for DeferredWorld {
    fn register<T: RegisterInWorld>(&mut self) {
        let id = TypeId::of::<T>();
        self.register_by_id::<T>(id);
        assert(self.model().registered.contains(id));
    }
}

/// The whole world: the restricted state, and the schedules, seen as the log of
/// the requests applied to them.
pub struct World {
    deferred: DeferredWorld,
    applied: Vec<AddSystems>,
}

impl View for World {
    type V = WorldModel;

    closed spec fn view(&self) -> WorldModel {
        WorldModel {
            registered: self.deferred@.registered,
            pending: self.deferred@.pending,
            applied: self.applied@,
        }
    }
}

impl World {
    /// No request, pending or applied, targets the reserved label.
    pub open spec fn wf(&self) -> bool {
        &&& all_wf(self@.pending)
        &&& all_wf(self@.applied)
    }

    /// A world with no type registered, no request pending and no system added.
    pub fn new() -> (r: Self)
        ensures
            r@.registered == Set::<TypeId>::empty(),
            r@.pending == Seq::<AddSystems>::empty(),
            r@.applied == Seq::<AddSystems>::empty(),
            r.wf(),
    {
        World { deferred: DeferredWorld::new(), applied: Vec::new() }
    }

    /// The restricted state of this world.
    pub fn deferred(&self) -> (r: &DeferredWorld)
        ensures
            r@.registered == self@.registered,
            r@.pending == self@.pending,
    {
        &self.deferred
    }

    /// The restricted handle of this world, for code that may only mark types
    /// and queue requests. The applied requests stay as they are.
    pub fn deferred_mut(&mut self) -> (r: &mut DeferredWorld)
        ensures
            r@ == (DeferredModel { registered: old(self)@.registered, pending: old(self)@.pending }),
            final(self)@ == (WorldModel {
                registered: final(r)@.registered,
                pending: final(r)@.pending,
                applied: old(self)@.applied,
            }),
    {
        &mut self.deferred
    }

    /// Every applied request, in the order of application.
    pub fn applied_requests(&self) -> (r: &Vec<AddSystems>)
        ensures
            r@ == self@.applied,
    {
        &self.applied
    }

    /// The bundles added to `schedule` so far, in the order they were added.
    pub fn systems_in(&self, schedule: Label) -> (r: Vec<u64>)
        ensures
            r@ == systems_of(self@.applied, schedule),
    {
        let mut out: Vec<u64> = Vec::new();
        let mut i: usize = 0;
        while i < self.applied.len()
            invariant
                0 <= i <= self.applied@.len(),
                out@ == systems_of(self.applied@.take(i as int), schedule),
            decreases self.applied@.len() - i,
        {
            let req = self.applied[i];
            proof {
                assert(self.applied@.take(i as int + 1).drop_last() == self.applied@.take(i as int));
            }
            if req.schedule == schedule {
                out.push(req.systems);
            }
            i = i + 1;
        }
        proof {
            assert(self.applied@.take(i as int) == self.applied@);
        }
        out
    }

    /// Moves every pending request, oldest first, to the applied log.
    pub(crate) fn apply_requests(&mut self)
        requires
            old(self).wf(),
        ensures
            final(self).wf(),
            final(self)@ == drained(old(self)@),
    {
        let taken = self.deferred.take_requests();
        let ghost start = self.applied@;
        let mut i: usize = 0;
        while i < taken.len()
            invariant
                0 <= i <= taken@.len(),
                taken@ == old(self)@.pending,
                start == old(self)@.applied,
                all_wf(start),
                all_wf(taken@),
                self.applied@ == start + taken@.take(i as int),
                self.deferred@ == (DeferredModel { pending: Seq::empty(), ..old(self).deferred@ }),
            decreases taken@.len() - i,
        {
            self.applied.push(taken[i]);
            proof {
                assert(taken@.take(i as int + 1) == taken@.take(i as int).push(taken@[i as int]));
            }
            i = i + 1;
        }
        proof {
            assert(taken@.take(i as int) == taken@);
            assert(self@.pending == Seq::<AddSystems>::empty());
        }
    }
}

impl WorldHandle for World {
    open spec fn inv(&self) -> bool {
        self.wf()
    }

    open spec fn model(&self) -> WorldModel {
        self@
    }
}

impl WorldAddSystems for World {
    fn add_systems(&mut self, schedule: Label, systems: u64) {
        self.deferred.send(AddSystems::new(schedule, systems));
    }
}

impl RegisterExtension for World {
    fn register<T: RegisterInWorld>(&mut self) {
        let id = TypeId::of::<T>();
        self.deferred.register_by_id::<T>(id);
        assert(self.model().registered.contains(id));
    }
}

/// Deferred application: a request sent at any point of a cycle before the
/// `AddingSystems` phase changes no schedule when it is sent, and that phase
/// applies it after the requests sent before it, so that its systems are
/// in its schedule from the next cycle on.
pub proof fn lemma_deferred_apply(m: WorldModel, req: AddSystems)
    ensures
        submitted(m, req).applied == m.applied,
        drained(submitted(m, req)).applied == m.applied + m.pending + seq![req],
        drained(submitted(m, req)).pending.len() == 0,
        systems_of(drained(submitted(m, req)).applied, req.schedule) == systems_of(
            m.applied + m.pending,
            req.schedule,
        ).push(req.systems),
{
    let log = m.applied + m.pending.push(req);
    assert(log == (m.applied + m.pending) + seq![req]);
    assert(log.drop_last() == m.applied + m.pending);
}

/// No same-cycle feedback: a request sent once the `AddingSystems` phase has
/// taken the pending requests is not applied by that phase; it waits, and the
/// next such phase applies it.
pub proof fn lemma_no_same_cycle_feedback(m: WorldModel, req: AddSystems)
    ensures
        submitted(drained(m), req).applied == m.applied + m.pending,
        submitted(drained(m), req).pending == seq![req],
        drained(submitted(drained(m), req)).applied == m.applied + m.pending + seq![req],
{
    assert(Seq::<AddSystems>::empty().push(req) == seq![req]);
}

/// A well-formed world never holds a request for the reserved label, pending
/// or applied, so no system is ever added to `AddingSystems` by a request;
/// queueing and applying keep it so.
pub proof fn lemma_reserved_label_never_targeted(m: WorldModel, req: AddSystems)
    requires
        all_wf(m.pending),
        all_wf(m.applied),
        req.wf(),
    ensures
        all_wf(submitted(m, req).pending),
        all_wf(drained(m).applied),
        systems_of(m.applied, Label::AddingSystems).len() == 0,
{
    lemma_no_reserved_systems(m.applied);
    assert forall|i: int| 0 <= i < drained(m).applied.len() implies (
    #[trigger] drained(m).applied[i]).wf() by {
        if i >= m.applied.len() {
            assert(drained(m).applied[i] == m.pending[i - m.applied.len()]);
        }
    }
}

proof fn lemma_no_reserved_systems(log: Seq<AddSystems>)
    requires
        all_wf(log),
    ensures
        systems_of(log, Label::AddingSystems).len() == 0,
    decreases log.len(),
{
    if log.len() > 0 {
        assert forall|i: int| 0 <= i < log.drop_last().len() implies (
        #[trigger] log.drop_last()[i]).wf() by {
            assert(log.drop_last()[i] == log[i]);
        }
        lemma_no_reserved_systems(log.drop_last());
        assert(log[log.len() - 1].wf());
    }
}

} // verus!
