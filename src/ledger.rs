//! The ledger of types whose registration callback has already run.

use bevy_utils::hashbrown::HashSet;
use bevy_utils::NoOpHash;
use std::any::TypeId;
use vstd::prelude::*;

verus! {

#[verifier::external_type_specification]
#[verifier::external_body]
pub struct ExTypeId(std::any::TypeId);

/// Relies on `TypeId::of`: the identity of one concrete, fully instantiated type.
pub assume_specification<T: ?Sized + 'static>[ std::any::TypeId::of::<T> ]() -> std::any::TypeId;

/// A `hashbrown` set of type identities, hashed with bevy's `NoOpHash`
/// (a `TypeId` already carries a good hash).
#[verifier::external_body]
pub struct TypeIdSet {
    set: HashSet<TypeId, NoOpHash>,
}

/// The identities that a `TypeIdSet` holds.
pub uninterp spec fn type_id_set_contents(s: TypeIdSet) -> Set<TypeId>;

/// Relies on `hashbrown::HashSet::default` (with `NoOpHash::default`): an empty set.
#[verifier::external_body]
fn type_id_set_new() -> (r: TypeIdSet)
    ensures
        type_id_set_contents(r) == Set::<TypeId>::empty(),
{
    TypeIdSet { set: HashSet::default() }
}

/// Relies on `hashbrown::HashSet::contains`: whether an equal identity is held
/// (`TypeId`'s `==` holds exactly between identities of the same type).
#[verifier::external_body]
fn type_id_set_contains(s: &TypeIdSet, id: TypeId) -> (r: bool)
    ensures
        r == type_id_set_contents(*s).contains(id),
{
    s.set.contains(&id)
}

/// Relies on `hashbrown::HashSet::insert`: adds the identity, and returns `true`
/// exactly when no equal identity was held before.
#[verifier::external_body]
fn type_id_set_insert(s: &mut TypeIdSet, id: TypeId) -> (r: bool)
    ensures
        r == !type_id_set_contents(*old(s)).contains(id),
        type_id_set_contents(*final(s)) == type_id_set_contents(*old(s)).insert(id),
{
    s.set.insert(id)
}

/// The set of types whose one-time registration callback has already run.
/// It only ever grows.
pub struct RegisteredTypes {
    types: TypeIdSet,
}

impl View for RegisteredTypes {
    type V = Set<TypeId>;

    closed spec fn view(&self) -> Set<TypeId> {
        type_id_set_contents(self.types)
    }
}

impl Default for RegisteredTypes {
    fn default() -> (r: Self)
        ensures
            r@ == Set::<TypeId>::empty(),
    {
        RegisteredTypes::new()
    }
}

impl RegisteredTypes {
    /// An empty ledger.
    pub fn new() -> (r: Self)
        ensures
            r@ == Set::<TypeId>::empty(),
    {
        RegisteredTypes { types: type_id_set_new() }
    }

    /// Whether the identity has been marked.
    pub fn is_registered_id(&self, id: TypeId) -> (r: bool)
        ensures
            r == self@.contains(id),
    {
        type_id_set_contains(&self.types, id)
    }

    /// Marks the identity; `true` exactly when it was not marked before.
    pub fn mark_registered(&mut self, id: TypeId) -> (r: bool)
        ensures
            r == !old(self)@.contains(id),
            final(self)@ == old(self)@.insert(id),
    {
        type_id_set_insert(&mut self.types, id)
    }

    /// Whether the type `T` is registered.
    pub fn is_registered<T: crate::RegisterInWorld>(&self) -> (r: bool)
        ensures
            exists|k: TypeId| r == self@.contains(k),
            self@ == Set::<TypeId>::empty() ==> !r,
    {
        self.is_registered_id(TypeId::of::<T>())
    }

    /// Marks the type `T`; `true` when it should be registered now, `false`
    /// when it was registered already.
    pub fn register<T: crate::RegisterInWorld>(&mut self) -> (r: bool)
        ensures
            exists|k: TypeId|
                r == !old(self)@.contains(k) && final(self)@ == old(self)@.insert(k),
    {
        self.mark_registered(TypeId::of::<T>())
    }
}

/// The ledger after marking each identity of `firings` in turn, starting
/// from `start`.
pub open spec fn marks_after(start: Set<TypeId>, firings: Seq<TypeId>) -> Set<TypeId>
    decreases firings.len(),
{
    if firings.len() == 0 {
        start
    } else {
        marks_after(start, firings.drop_last()).insert(firings.last())
    }
}

/// Whether the `i`-th marking of `firings` answers `true`, so that its
/// registration callback runs.
pub open spec fn runs_callback(start: Set<TypeId>, firings: Seq<TypeId>, i: int) -> bool {
    !marks_after(start, firings.take(i)).contains(firings[i])
}

/// How many markings among the first `n` of `firings` run the callback of `k`.
pub open spec fn callback_runs(start: Set<TypeId>, firings: Seq<TypeId>, k: TypeId, n: int) -> nat
    decreases n,
{
    if n <= 0 {
        0
    } else {
        callback_runs(start, firings, k, n - 1) + if firings[n - 1] == k && runs_callback(
            start,
            firings,
            n - 1,
        ) {
            1nat
        } else {
            0nat
        }
    }
}

/// The ledger after some markings holds exactly what it held, and what was marked.
pub proof fn lemma_marks_after_contains(start: Set<TypeId>, firings: Seq<TypeId>, k: TypeId)
    ensures
        marks_after(start, firings).contains(k) == (start.contains(k) || firings.contains(k)),
    decreases firings.len(),
{
    if firings.len() > 0 {
        lemma_marks_after_contains(start, firings.drop_last(), k);
        if firings.drop_last().contains(k) {
            let j = choose|j: int| 0 <= j < firings.drop_last().len() && firings.drop_last()[j] == k;
            assert(firings[j] == k);
        }
        if firings.contains(k) && firings.last() != k {
            let j = choose|j: int| 0 <= j < firings.len() && firings[j] == k;
            assert(firings.drop_last()[j] == k);
        }
    }
}

/// Ledger monotonicity: once an identity is marked it stays marked through any
/// later markings, and a marking answers `true` exactly on the first marking
/// of its identity (when the ledger did not hold it from the start).
pub proof fn lemma_ledger_monotone(start: Set<TypeId>, firings: Seq<TypeId>, i: int, j: int)
    requires
        0 <= i <= j <= firings.len(),
    ensures
        marks_after(start, firings.take(i)).subset_of(marks_after(start, firings.take(j))),
        j < firings.len() ==> (runs_callback(start, firings, j) <==> (!start.contains(firings[j])
            && forall|m: int| 0 <= m < j ==> firings[m] != firings[j])),
{
    assert forall|k: TypeId| marks_after(start, firings.take(i)).contains(k) implies marks_after(
        start,
        firings.take(j),
    ).contains(k) by {
        lemma_marks_after_contains(start, firings.take(i), k);
        lemma_marks_after_contains(start, firings.take(j), k);
        if firings.take(i).contains(k) {
            let m = choose|m: int| 0 <= m < firings.take(i).len() && firings.take(i)[m] == k;
            assert(firings.take(j)[m] == k);
        }
    }
    if j < firings.len() {
        let k = firings[j];
        lemma_marks_after_contains(start, firings.take(j), k);
        if firings.take(j).contains(k) {
            let m = choose|m: int| 0 <= m < firings.take(j).len() && firings.take(j)[m] == k;
            assert(firings[m] == k);
        }
        if exists|m: int| 0 <= m < j && firings[m] == k {
            let m = choose|m: int| 0 <= m < j && firings[m] == k;
            assert(firings.take(j)[m] == k);
        }
    }
}

/// Idempotent registration: over any sequence of markings (one per add-hook
/// firing or explicit registration, of any types in any order), the callback
/// of a type runs exactly once if the type is marked at all and was not
/// registered at the start, and never otherwise.
pub proof fn lemma_registers_once(start: Set<TypeId>, firings: Seq<TypeId>, k: TypeId)
    ensures
        callback_runs(start, firings, k, firings.len() as int) == if !start.contains(k)
            && firings.contains(k) {
            1nat
        } else {
            0nat
        },
{
    lemma_registers_once_prefix(start, firings, k, firings.len() as int);
    assert(firings.take(firings.len() as int) == firings);
}

proof fn lemma_registers_once_prefix(start: Set<TypeId>, firings: Seq<TypeId>, k: TypeId, n: int)
    requires
        0 <= n <= firings.len(),
    ensures
        callback_runs(start, firings, k, n) == if !start.contains(k) && firings.take(n).contains(
            k,
        ) {
            1nat
        } else {
            0nat
        },
    decreases n,
{
    if n > 0 {
        lemma_registers_once_prefix(start, firings, k, n - 1);
        let prev = firings.take(n - 1);
        lemma_marks_after_contains(start, prev, firings[n - 1]);
        let cur = firings.take(n);
        assert(cur == prev.push(firings[n - 1]));
        if prev.contains(k) {
            let m = choose|m: int| 0 <= m < prev.len() && prev[m] == k;
            assert(cur[m] == k);
        }
        if cur.contains(k) && firings[n - 1] != k {
            let m = choose|m: int| 0 <= m < cur.len() && cur[m] == k;
            assert(prev[m] == k);
        }
        if firings[n - 1] == k && !start.contains(k) {
            if prev.contains(k) {
                let m = choose|m: int| 0 <= m < prev.len() && prev[m] == k;
                assert(firings[m] == k);
            }
            assert(cur[n - 1] == k);
        }
    }
}

/// Distinct identities are independent: marking one leaves whether another is
/// marked as it was.
pub proof fn lemma_distinct_identities(before: Set<TypeId>, marked: TypeId, other: TypeId)
    requires
        marked != other,
    ensures
        before.insert(marked).contains(other) == before.contains(other),
{
}

} // verus!
