//! Single-flight loading: of the callers that ask for the same value while
//! it is being loaded, one starts the load and all are given its outcome.
//!
//! The registry of loads under way is a plain value here. The caller keeps
//! it behind a lock and takes each step of this file under that lock, so
//! that the steps happen one after the other.
//!
//! The registry is a hash table. What is proved of it holds for keys that
//! hash and compare as `vstd` asks of the keys of a hash table
//! (`obeys_key_model`), as the integers do.

use std::collections::HashMap;
use std::hash::Hash;
use vstd::prelude::*;
use vstd::std_specs::hash::*;

verus! {

/// The registry after a caller has asked for `id`, leaving `waiter` to be
/// told of the outcome: the caller joins the load under way, or is the
/// first to wait for a new one.
pub open spec fn enroll<I, W>(flights: Map<I, Seq<W>>, id: I, waiter: W) -> Map<I, Seq<W>> {
    if flights.contains_key(id) {
        flights.insert(id, flights[id].push(waiter))
    } else {
        flights.insert(id, seq![waiter])
    }
}

/// Whether a caller that asks for `id` has to start the load: it has
/// where none is under way.
pub open spec fn starts<I, W>(flights: Map<I, Seq<W>>, id: I) -> bool {
    !flights.contains_key(id)
}

/// Those who wait for the load of `id`, in the order in which they came.
pub open spec fn subscribers<I, W>(flights: Map<I, Seq<W>>, id: I) -> Seq<W> {
    if flights.contains_key(id) {
        flights[id]
    } else {
        Seq::empty()
    }
}

/// The registry after callers have asked for `id`, one after the other,
/// with nothing else in between.
pub open spec fn enroll_all<I, W>(flights: Map<I, Seq<W>>, id: I, waiters: Seq<W>) -> Map<
    I,
    Seq<W>,
>
    decreases waiters.len(),
{
    if waiters.len() == 0 {
        flights
    } else {
        enroll(enroll_all(flights, id, waiters.drop_last()), id, waiters.last())
    }
}

/// What those who waited for a load are told.
#[derive(Debug, PartialEq, Eq)]
pub enum Outcome<T> {
    /// The load has ended with this value.
    Completed(T),
    /// The load was given up before it had a value.
    Aborted,
}

/// The end of a load: whom to tell, and what. Every subscriber is told the
/// one outcome.
#[derive(Debug, PartialEq, Eq)]
pub struct Delivery<W, T> {
    pub subscribers: Vec<W>,
    pub outcome: Outcome<T>,
}

/// Loading<I, W> is a helper struct intended in cases when values
/// identified by I:
/// * need to be loaded asynchronously, and
/// * it is preferable not to repeat the loading multiple times
///
/// The `Loading` struct helps solve the latter issue by only running
/// one task at a time for each I, reusing existing loads when
/// necessary. A `W` is what a caller leaves behind to be told of the
/// outcome.
pub struct Loading<I, W> {
    futures: HashMap<I, Vec<W>>,
}

impl<I, W> View for Loading<I, W> {
    type V = Map<I, Seq<W>>;

    /// The loads under way, each with those who wait for it.
    closed spec fn view(&self) -> Map<I, Seq<W>> {
        self.futures@.map_values(|waiters: Vec<W>| waiters@)
    }
}

impl<I: Copy + Eq + Hash, W> Loading<I, W> {
    /// A registry with no load under way.
    pub fn new() -> (r: Self)
        ensures
            r@ == Map::<I, Seq<W>>::empty(),
    {
        let r = Loading { futures: HashMap::new() };
        assert(r@ =~= Map::<I, Seq<W>>::empty());
        r
    }

    /// Whether a load of `id` is under way.
    pub fn is_loading(&self, id: I) -> (r: bool)
        requires
            obeys_key_model::<I>(),
        ensures
            r == self@.contains_key(id),
    {
        broadcast use group_hash_axioms;

        self.futures.contains_key(&id)
    }

    /// How many wait for the load of `id`.
    pub fn waiting(&self, id: I) -> (r: usize)
        requires
            obeys_key_model::<I>(),
        ensures
            r == subscribers(self@, id).len(),
    {
        broadcast use group_hash_axioms;

        match self.futures.get(&id) {
            Some(waiters) => waiters.len(),
            None => 0,
        }
    }

    /// Asks for `id`, leaving `waiter` to be told of the outcome.
    ///
    /// If loading isn't in progress, registers `id` as loading and hands out
    /// the guard of the new load: the caller is to start it.
    /// Else, the caller only waits for the currently active loading to
    /// finish. Either way `waiter` is among those who are told.
    pub fn run(&mut self, id: I, waiter: W) -> (guard: Option<LoadingGuard<I>>)
        requires
            obeys_key_model::<I>(),
        ensures
            final(self)@ == enroll(old(self)@, id, waiter),
            guard is Some <==> starts(old(self)@, id),
            guard matches Some(g) ==> g.id() == id && g.armed(),
    {
        broadcast use group_hash_axioms;

        match self.futures.remove(&id) {
            Some(waiters) => {
                let mut waiters = waiters;
                waiters.push(waiter);
                self.futures.insert(id, waiters);
                assert(self@ =~= enroll(old(self)@, id, waiter));
                None
            },
            None => {
                let mut waiters: Vec<W> = Vec::new();
                waiters.push(waiter);
                self.futures.insert(id, waiters);
                assert(self@ =~= enroll(old(self)@, id, waiter));
                Some(LoadingGuard { id, armed: true })
            },
        }
    }
}

impl<I: Copy + Eq + Hash, W> Default for Loading<I, W> {
    /// A registry with no load under way.
    fn default() -> (r: Self)
        ensures
            r@ == Map::<I, Seq<W>>::empty(),
    {
        Self::new()
    }
}

/// The duty to end the load of one key: to take its entry out of the
/// registry, once, and to tell those who waited.
#[derive(Debug, PartialEq, Eq)]
pub struct LoadingGuard<I> {
    id: I,
    armed: bool,
}

impl<I: Copy + Eq + Hash> LoadingGuard<I> {
    /// The key whose load this guard ends.
    pub closed spec fn id(&self) -> I {
        self.id
    }

    /// Whether the guard has yet to take the entry out.
    pub closed spec fn armed(&self) -> bool {
        self.armed
    }

    /// The guard of the load of `id` in `ld`.
    pub fn new<W>(id: I, ld: &Loading<I, W>) -> (r: Self)
        ensures
            r.id() == id,
            r.armed(),
    {
        LoadingGuard { id, armed: true }
    }

    /// Takes the entry of the load out of the registry and hands out those
    /// who waited. Only the first call on a guard does so; any later one
    /// leaves the registry as it is and hands out nothing.
    pub fn sender<W>(&mut self, ld: &mut Loading<I, W>) -> (r: Option<Vec<W>>)
        requires
            obeys_key_model::<I>(),
        ensures
            final(self).id() == old(self).id(),
            !final(self).armed(),
            old(self).armed() ==> final(ld)@ == old(ld)@.remove(old(self).id()),
            !old(self).armed() ==> final(ld)@ == old(ld)@,
            r is Some <==> old(self).armed() && old(ld)@.contains_key(old(self).id()),
            r matches Some(waiters) ==> waiters@ == old(ld)@[old(self).id()],
    {
        broadcast use group_hash_axioms;

        if !self.armed {
            return None;
        }
        self.armed = false;
        let r = ld.futures.remove(&self.id);
        assert(ld@ =~= old(ld)@.remove(self.id));
        r
    }

    /// Ends the load with `val`: the entry leaves the registry, and every
    /// one who waited is to be told `val`.
    pub fn resolve<W, T>(self, ld: &mut Loading<I, W>, val: T) -> (r: Delivery<W, T>)
        requires
            obeys_key_model::<I>(),
        ensures
            self.armed() ==> final(ld)@ == old(ld)@.remove(self.id()),
            !self.armed() ==> final(ld)@ == old(ld)@,
            r.outcome == Outcome::Completed(val),
            r.subscribers@ == (if self.armed() {
                subscribers(old(ld)@, self.id())
            } else {
                Seq::empty()
            }),
    {
        let mut guard = self;
        let subscribers: Vec<W> = match guard.sender(ld) {
            Some(waiters) => waiters,
            None => Vec::new(),
        };
        Delivery { subscribers, outcome: Outcome::Completed(val) }
    }

    /// Ends a load that was given up before it had a value: the entry
    /// leaves the registry, and every one who waited is to be told so.
    pub fn abandon<W, T>(self, ld: &mut Loading<I, W>) -> (r: Delivery<W, T>)
        requires
            obeys_key_model::<I>(),
        ensures
            self.armed() ==> final(ld)@ == old(ld)@.remove(self.id()),
            !self.armed() ==> final(ld)@ == old(ld)@,
            r.outcome == Outcome::<T>::Aborted,
            r.subscribers@ == (if self.armed() {
                subscribers(old(ld)@, self.id())
            } else {
                Seq::empty()
            }),
    {
        let mut guard = self;
        let subscribers: Vec<W> = match guard.sender(ld) {
            Some(waiters) => waiters,
            None => Vec::new(),
        };
        Delivery { subscribers, outcome: Outcome::Aborted }
    }
}

/// Of the callers that ask for a key of which no load is under way, one
/// after the other and before the load ends, the first starts the load and
/// no other does; and when the load ends, those who are told are these
/// callers, each once, in the order in which they came. The loads of other
/// keys are as they were.
pub proof fn lemma_one_load_for_many_callers<I, W>(flights: Map<I, Seq<W>>, id: I, waiters: Seq<W>)
    requires
        !flights.contains_key(id),
    ensures
        forall|k: int|
            0 <= k < waiters.len() ==> (starts(#[trigger] enroll_all(flights, id, waiters.take(k)), id)
                <==> k == 0),
        waiters.len() > 0 ==> subscribers(enroll_all(flights, id, waiters), id) == waiters,
        enroll_all(flights, id, waiters).remove(id) == flights,
    decreases waiters.len(),
{
    if waiters.len() > 0 {
        let head = waiters.drop_last();
        lemma_one_load_for_many_callers(flights, id, head);
        assert(enroll_all(flights, id, waiters).remove(id) =~= enroll_all(flights, id, head).remove(
            id,
        ));
        assert forall|k: int| 0 <= k < waiters.len() implies (starts(
            #[trigger] enroll_all(flights, id, waiters.take(k)),
            id,
        ) <==> k == 0) by {
            if k < head.len() {
                assert(waiters.take(k) == head.take(k));
            } else {
                assert(waiters.take(k) == head);
                if head.len() > 0 {
                    assert(subscribers(enroll_all(flights, id, head), id) == head);
                }
            }
        }
        if head.len() == 0 {
            assert(enroll_all(flights, id, head) == flights);
            assert(seq![waiters.last()] =~= waiters);
        } else {
            assert(head.push(waiters.last()) =~= waiters);
        }
    } else {
        assert forall|k: int| 0 <= k < waiters.len() implies (starts(
            #[trigger] enroll_all(flights, id, waiters.take(k)),
            id,
        ) <==> k == 0) by {}
        assert(flights.remove(id) =~= flights);
    }
}

/// One step on the registry: a caller asks for a key, or the load of a key
/// ends.
pub enum LoadingOp<I, W> {
    Run(I, W),
    Finish(I),
}

/// The registry after one step.
pub open spec fn apply<I, W>(flights: Map<I, Seq<W>>, op: LoadingOp<I, W>) -> Map<I, Seq<W>> {
    match op {
        LoadingOp::Run(id, waiter) => enroll(flights, id, waiter),
        LoadingOp::Finish(id) => flights.remove(id),
    }
}

/// The registry after a run of steps.
pub open spec fn replay<I, W>(flights: Map<I, Seq<W>>, ops: Seq<LoadingOp<I, W>>) -> Map<I, Seq<W>>
    decreases ops.len(),
{
    if ops.len() == 0 {
        flights
    } else {
        apply(replay(flights, ops.drop_last()), ops.last())
    }
}

/// The callers that asked for `id` since the last load of it ended, in the
/// order in which they came.
pub open spec fn joined<I, W>(ops: Seq<LoadingOp<I, W>>, id: I) -> Seq<W>
    decreases ops.len(),
{
    if ops.len() == 0 {
        Seq::empty()
    } else {
        match ops.last() {
            LoadingOp::Run(key, waiter) => if key == id {
                joined(ops.drop_last(), id).push(waiter)
            } else {
                joined(ops.drop_last(), id)
            },
            LoadingOp::Finish(key) => if key == id {
                Seq::empty()
            } else {
                joined(ops.drop_last(), id)
            },
        }
    }
}

/// Whatever happens to other keys in between, those who wait for a key are
/// the callers that asked for it since its last load ended, each once and
/// in the order in which they came; so the load that ends next tells
/// exactly these, and tells them all the one outcome.
pub proof fn lemma_all_who_asked_are_told<I, W>(ops: Seq<LoadingOp<I, W>>, id: I)
    ensures
        subscribers(replay(Map::<I, Seq<W>>::empty(), ops), id) == joined(ops, id),
        replay(Map::<I, Seq<W>>::empty(), ops).contains_key(id) <==> joined(ops, id).len() > 0,
    decreases ops.len(),
{
    if ops.len() > 0 {
        lemma_all_who_asked_are_told(ops.drop_last(), id);
    }
}

proof fn lemma_stays_under_way<I, W>(
    flights: Map<I, Seq<W>>,
    ops: Seq<LoadingOp<I, W>>,
    i: int,
    upto: int,
    id: I,
)
    requires
        0 <= i < upto <= ops.len(),
        ops[i] matches LoadingOp::Run(k, _) && k == id,
        forall|k: int| i < k < upto ==> #[trigger] ops[k] != LoadingOp::<I, W>::Finish(id),
    ensures
        replay(flights, ops.take(upto)).contains_key(id),
    decreases upto - i,
{
    assert(ops.take(upto).drop_last() == ops.take(upto - 1));
    assert(ops.take(upto).last() == ops[upto - 1]);
    if upto > i + 1 {
        lemma_stays_under_way(flights, ops, i, upto - 1, id);
    }
}

/// No two loads of one key are under way at a time, whatever else happens
/// in between: where a caller asks for a key and a later caller starts a
/// load of it, a load of that key has ended between the two.
pub proof fn lemma_one_load_at_a_time<I, W>(
    flights: Map<I, Seq<W>>,
    ops: Seq<LoadingOp<I, W>>,
    i: int,
    j: int,
    id: I,
)
    requires
        0 <= i < j < ops.len(),
        ops[i] matches LoadingOp::Run(k, _) && k == id,
        ops[j] matches LoadingOp::Run(k, _) && k == id,
        starts(replay(flights, ops.take(j)), id),
    ensures
        exists|k: int| i < k < j && #[trigger] ops[k] == LoadingOp::<I, W>::Finish(id),
{
    if forall|k: int| i < k < j ==> #[trigger] ops[k] != LoadingOp::<I, W>::Finish(id) {
        lemma_stays_under_way(flights, ops, i, j, id);
    }
}

/// Once a load has ended, the registry holds no entry for its key: the next
/// caller that asks for the key starts a new load and joins no ended one.
pub proof fn lemma_no_entry_after_completion<I, W>(flights: Map<I, Seq<W>>, id: I, waiter: W)
    ensures
        !flights.remove(id).contains_key(id),
        starts(flights.remove(id), id),
        subscribers(enroll(flights.remove(id), id, waiter), id) == seq![waiter],
{
}

} // verus!
