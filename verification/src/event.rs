//! Events: systems registered per input slot, with at most one registration
//! per system function, and the dispatch of a sent event to them.

use std::collections::HashMap;

use vstd::prelude::*;

use crate::dispatch::{
    has_tid, sid_fits, slot_at, slot_entries, slot_vacant, taken_slots, AfterSlice, Batch, BatchPhase,
    Dispatch, DispatchError, Phase, SlotContents, Step,
};
use crate::small::{system_list_items, SystemList, MAX_SYSTEMS};
use crate::world::World;

verus! {

broadcast use vstd::std_specs::hash::group_hash_axioms;

/// A system registered for an event input: the handle of the boxed system and
/// the type key of the function it was made from.
#[derive(Clone, Copy, Debug, PartialEq, Eq, Structural)]
pub struct EventInSystem {
    pub v: u64,
    pub tid: u64,
}

/// The systems registered for one event input slot, in registration order,
/// with the position of each by the type key of its function.
pub struct RegisteredSystems {
    pub v: SystemList,
    pub tid: HashMap<u64, usize>,
}

impl SlotContents for RegisteredSystems {
    open spec fn entries(&self) -> Seq<(u64, u64)> {
        system_list_items(self.v)
    }

    /// The map from type key to position agrees with the list, and the list
    /// stays within the bound that a push needs.
    open spec fn wf(&self) -> bool {
        let items = system_list_items(self.v);
        &&& items.len() <= MAX_SYSTEMS
        &&& forall|i: int|
            0 <= i < items.len() ==> #[trigger] self.tid@.contains_key(items[i].1)
                && self.tid@[items[i].1] == i
        &&& forall|k: u64|
            #[trigger] self.tid@.contains_key(k) ==> self.tid@[k] < items.len()
                && items[self.tid@[k] as int].1 == k
    }

    proof fn lemma_wf_bounded(&self) {
    }

    fn count(&self) -> (n: usize) {
        self.v.len()
    }

    fn entry(&self, i: usize) -> (e: (u64, u64)) {
        self.v.get(i)
    }
}

impl Default for RegisteredSystems {
    /// No system registered.
    fn default() -> (r: Self)
        ensures
            r.entries() == Seq::<(u64, u64)>::empty(),
            r.wf(),
    {
        RegisteredSystems { v: SystemList::new(), tid: HashMap::new() }
    }
}

impl RegisteredSystems {
    /// Whether a system made from the function keyed `tid` is registered.
    pub fn contains_system(&self, tid: u64) -> (r: bool)
        requires
            self.wf(),
        ensures
            r == has_tid(self.entries(), tid),
    {
        let r = self.tid.contains_key(&tid);
        proof {
            if r {
                let k = self.tid@[tid] as int;
                assert(self.entries()[k].1 == tid);
            }
        }
        r
    }

    /// The system registered at position `i`.
    pub fn get(&self, i: usize) -> (s: EventInSystem)
        requires
            self.wf(),
            i < self.entries().len(),
        ensures
            s.v == self.entries()[i as int].0,
            s.tid == self.entries()[i as int].1,
    {
        let e = self.v.get(i);
        EventInSystem { v: e.0, tid: e.1 }
    }

    /// Appends `system`, made from the function keyed `tid`, and records its position.
    pub fn push_system(&mut self, system: u64, tid: u64)
        requires
            old(self).wf(),
            !has_tid(old(self).entries(), tid),
            old(self).entries().len() < MAX_SYSTEMS,
        ensures
            final(self).entries() == old(self).entries().push((system, tid)),
            final(self).wf(),
    {
        let index = self.v.len();
        self.v.push((system, tid));
        let _ = self.tid.insert(tid, index);
        proof {
            let old_items = old(self).entries();
            let items = self.entries();
            assert forall|i: int| 0 <= i < items.len() implies #[trigger] self.tid@.contains_key(
                items[i].1,
            ) && self.tid@[items[i].1] == i by {
                if i < old_items.len() {
                    assert(items[i] == old_items[i]);
                    assert(old(self).tid@.contains_key(old_items[i].1));
                }
            }
        }
    }
}

/// The type key list after registering `system` (keyed `tid`) into `entries`:
/// unchanged when that function is already registered, else appended.
pub open spec fn registered_entries(entries: Seq<(u64, u64)>, system: u64, tid: u64) -> Seq<(u64, u64)> {
    if has_tid(entries, tid) {
        entries
    } else {
        entries.push((system, tid))
    }
}

/// The smol id of the input "reference to an event of type `sid`".
pub fn ref_sid(sid: usize) -> (r: usize)
    requires
        sid < usize::MAX,
    ensures
        r == sid + 1,
{
    sid + 1
}

/// The smol id of the input "slice of events of type `sid`".
pub fn slice_sid(sid: usize) -> (r: usize)
    requires
        sid < usize::MAX - 1,
    ensures
        r == sid + 2,
{
    sid + 2
}

/// A dispatch of one event through the event registry.
pub type EventDispatch = Dispatch<RegisteredSystems>;

/// The handling of a batch of buffered events through the event registry.
pub type EventBatch = Batch<RegisteredSystems>;

impl World {
    /// Registers `system`, made from the function keyed `tid`, for event slot
    /// `sid` (see [`register_system`]).
    pub fn register_event_system(&mut self, sid: usize, tid: u64, system: u64)
        requires
            old(self).wf(),
            sid < usize::MAX,
            !has_tid(slot_entries(old(self).event_slots(), sid as int), tid) ==> slot_entries(
                old(self).event_slots(),
                sid as int,
            ).len() < MAX_SYSTEMS,
        ensures
            ({
                let before = old(self).event_slots();
                let after = final(self).event_slots();
                &&& after == taken_slots(before, sid as int).update(sid as int, after[sid as int])
                &&& after[sid as int] is Some
                &&& after[sid as int]->0.entries() == registered_entries(
                    slot_entries(before, sid as int),
                    system,
                    tid,
                )
                &&& has_tid(slot_entries(before, sid as int), tid) ==> after == before
                &&& !has_tid(slot_entries(before, sid as int), tid) ==> after[sid as int]->0.entries()
                    == slot_entries(before, sid as int).push((system, tid))
            }),
            final(self).event_motion_ready(),
            final(self).same_but_event_registration(old(self)),
            final(self).wf(),
    {
        register_system(self, sid, tid, system);
    }

    /// Sends an event of type `sid`: starts its dispatch with slice systems
    /// included (see [`run_this_event_system`]).
    pub fn send_event(&self, sid: usize) -> (d: EventDispatch)
        requires
            sid_fits(sid),
            self.event_motion_ready(),
        ensures
            d.wf(),
            d == (EventDispatch { sid, slice: true, phase: Phase::Ref, held: None, cursor: 0 }),
    {
        run_this_event_system(self, sid, true)
    }
}

/// Starts dispatching an event of type `sid`: its by-reference systems, next
/// (when `slice`) its slice systems with a one-element slice, last its by-value
/// system. An event of a type already being dispatched may be sent: the slots
/// that the enclosing dispatch holds contribute no systems. The record of
/// event types in motion, which the first event registration makes, must
/// exist.
pub fn run_this_event_system(world: &World, sid: usize, slice: bool) -> (d: EventDispatch)
    requires
        sid_fits(sid),
        world.event_motion_ready(),
    ensures
        d.wf(),
        d == (EventDispatch { sid, slice, phase: Phase::Ref, held: None, cursor: 0 }),
{
    Dispatch::begin(sid, slice)
}

/// Gives access to the buffer of events of type `sid` that a system fills;
/// after the system ran, the slice systems of that type see the whole buffer,
/// and next each event is dispatched on its own (`FORWARD`) or the buffer is cleared.
pub struct EventSlicer<const FORWARD: bool> {
    pub sid: usize,
}

impl<const FORWARD: bool> EventSlicer<FORWARD> {
    /// A slicer for events of type `sid`.
    pub fn new(sid: usize) -> (s: Self)
        ensures
            s.sid == sid,
    {
        EventSlicer { sid }
    }

    /// Starts handling the `count` events buffered during a run: the slice
    /// systems see them all, after they are forwarded or cleared.
    pub fn apply(&self, count: usize) -> (b: EventBatch)
        requires
            sid_fits(self.sid),
        ensures
            b == (EventBatch {
                slot: (self.sid + 2) as usize,
                count,
                after: if FORWARD {
                    AfterSlice::Forward
                } else {
                    AfterSlice::Clear
                },
                phase: BatchPhase::Systems,
                held: None,
                cursor: 0,
            }),
            b.wf(),
    {
        let after = if FORWARD {
            AfterSlice::Forward
        } else {
            AfterSlice::Clear
        };
        Batch::begin(slice_sid(self.sid), count, after)
    }
}

/// Registers `system`, made from the function keyed `tid`, for event slot
/// `sid`: the slot is taken out of the registry, the system appended unless a
/// system of that function is already there, and the slot put back. A slot
/// that is absent, or taken by a dispatch under way, starts out empty.
pub fn register_system(world: &mut World, sid: usize, tid: u64, system: u64)
    requires
        old(world).wf(),
        sid < usize::MAX,
        !has_tid(slot_entries(old(world).event_slots(), sid as int), tid) ==> slot_entries(
            old(world).event_slots(),
            sid as int,
        ).len() < MAX_SYSTEMS,
    ensures
        ({
            let before = old(world).event_slots();
            let after = final(world).event_slots();
            &&& after == taken_slots(before, sid as int).update(sid as int, after[sid as int])
            &&& after[sid as int] is Some
            &&& after[sid as int]->0.entries() == registered_entries(
                slot_entries(before, sid as int),
                system,
                tid,
            )
            &&& has_tid(slot_entries(before, sid as int), tid) ==> after == before
            &&& !has_tid(slot_entries(before, sid as int), tid) ==> after[sid as int]->0.entries()
                == slot_entries(before, sid as int).push((system, tid))
        }),
        final(world).event_motion_ready(),
        final(world).same_but_event_registration(old(world)),
        final(world).wf(),
{
    world.mark_event_motion();
    let ghost before = world.event_slots();
    let mut systems = match world.remove_event_system(sid) {
        Some(s) => s,
        None => RegisteredSystems::default(),
    };
    let ghost taken = world.event_slots();
    if systems.contains_system(tid) {
        world.put_back_event_system(sid, systems);
        proof {
            assert(world.event_slots() =~= before);
        }
        return;
    }
    systems.push_system(system, tid);
    world.put_back_event_system(sid, systems);
    proof {
        assert(world.event_slots() =~= taken.update(
            sid as int,
            world.event_slots()[sid as int],
        ));
    }
}

} // verus!
