//! The part of a world that the dispatch of events and packets works on.
//!
//! Its fields are private: the registries change only through the functions
//! below, which keep them consistent.

use std::collections::HashMap;

use vstd::prelude::*;

use crate::dispatch::{
    ends_dispatch, has_tid, slot_at, slot_entries, slot_vacant, taken_slots, value_slot_overfull, DispatchError,
    SlotContents, SlotTable, Step,
};
use crate::event;
use crate::packet;

verus! {

broadcast use vstd::std_specs::hash::group_hash_axioms;

/// The registries of a world: for events and for packets, a table of input
/// slots indexed by smol id.
pub struct Extras {
    event_systems: SlotTable<event::RegisteredSystems>,
    packet_systems: SlotTable<packet::RegisteredSystems>,
}

impl Extras {
    /// The event slots.
    pub closed spec fn event_slots(&self) -> Seq<Option<event::RegisteredSystems>> {
        self.event_systems@
    }

    /// The packet slots.
    pub closed spec fn packet_slots(&self) -> Seq<Option<packet::RegisteredSystems>> {
        self.packet_systems@
    }

    /// Both registries are consistent.
    pub closed spec fn wf(&self) -> bool {
        &&& self.event_systems.wf()
        &&& self.packet_systems.wf()
    }
}

impl Default for Extras {
    /// Empty registries.
    fn default() -> (e: Self)
        ensures
            e.event_slots().len() == 0,
            e.packet_slots().len() == 0,
            e.wf(),
    {
        Extras { event_systems: SlotTable::new(), packet_systems: SlotTable::new() }
    }
}

/// The first position of `sid` in `list`.
pub open spec fn first_index_of(list: Seq<usize>, sid: usize) -> int {
    choose|i: int|
        0 <= i < list.len() && list[i] == sid && forall|j: int| 0 <= j < i ==> list[j] != sid
}

/// `list` after removing the first `sid` in it by moving its last entry into
/// that place.
pub open spec fn motion_removed(list: Seq<usize>, sid: usize) -> Seq<usize> {
    list.update(first_index_of(list, sid), list.last()).drop_last()
}

/// The dispatch state of a world.
///
/// The cache maps the type key of a system run through the cached one-shot
/// API to the handle of its initialized instance, and the packet counter is
/// the next smol id that a packet type gets. The motion records exist once a
/// registration made them: the event one as a flag only, the packet one with
/// the smol ids of the packet types being dispatched.
pub struct World {
    extras: Extras,
    cached_systems: HashMap<u64, u64>,
    next_packet_id: usize,
    event_motion: bool,
    packet_motion: bool,
    packets_in_motion: Vec<usize>,
}

impl World {
    /// The event slots, by smol id.
    pub closed spec fn event_slots(&self) -> Seq<Option<event::RegisteredSystems>> {
        self.extras.event_systems@
    }

    /// The packet slots, by smol id.
    pub closed spec fn packet_slots(&self) -> Seq<Option<packet::RegisteredSystems>> {
        self.extras.packet_systems@
    }

    /// The cached one-shot systems, by type key.
    pub closed spec fn cache(&self) -> Map<u64, u64> {
        self.cached_systems@
    }

    /// The next smol id a packet type gets.
    pub closed spec fn packet_counter(&self) -> usize {
        self.next_packet_id
    }

    /// An event registration has made the record of event types in motion.
    pub closed spec fn event_motion_ready(&self) -> bool {
        self.event_motion
    }

    /// A packet registration has made the record of packet types in motion.
    pub closed spec fn packet_motion_ready(&self) -> bool {
        self.packet_motion
    }

    /// The smol ids of the packet types being dispatched, oldest first.
    pub closed spec fn packets_in_motion(&self) -> Seq<usize> {
        self.packets_in_motion@
    }

    /// Everything but the event registry and the event motion flag is as in `old`.
    pub open spec fn same_but_event_registration(&self, old: &World) -> bool {
        &&& self.packet_slots() == old.packet_slots()
        &&& self.cache() == old.cache()
        &&& self.packet_counter() == old.packet_counter()
        &&& self.packet_motion_ready() == old.packet_motion_ready()
        &&& self.packets_in_motion() == old.packets_in_motion()
    }

    /// Everything but the packet registry and the packet motion flag is as in `old`.
    pub open spec fn same_but_packet_registration(&self, old: &World) -> bool {
        &&& self.event_slots() == old.event_slots()
        &&& self.cache() == old.cache()
        &&& self.packet_counter() == old.packet_counter()
        &&& self.event_motion_ready() == old.event_motion_ready()
        &&& self.packets_in_motion() == old.packets_in_motion()
    }

    /// Everything but the packet types in motion is as in `old`.
    pub open spec fn same_but_packets_in_motion(&self, old: &World) -> bool {
        &&& self.event_slots() == old.event_slots()
        &&& self.packet_slots() == old.packet_slots()
        &&& self.cache() == old.cache()
        &&& self.packet_counter() == old.packet_counter()
        &&& self.event_motion_ready() == old.event_motion_ready()
        &&& self.packet_motion_ready() == old.packet_motion_ready()
    }

    /// The motion records are as in `old`.
    pub open spec fn same_motion(&self, old: &World) -> bool {
        &&& self.event_motion_ready() == old.event_motion_ready()
        &&& self.packet_motion_ready() == old.packet_motion_ready()
        &&& self.packets_in_motion() == old.packets_in_motion()
    }

    /// The world is consistent: every occupied slot is, and the packet counter
    /// is a multiple of three.
    pub closed spec fn wf(&self) -> bool {
        &&& self.extras.wf()
        &&& self.next_packet_id % 3 == 0
    }

    /// In a consistent world every occupied slot is consistent and the packet
    /// counter is a multiple of three.
    pub proof fn lemma_wf(&self)
        requires
            self.wf(),
        ensures
            crate::dispatch::slots_wf(self.event_slots()),
            crate::dispatch::slots_wf(self.packet_slots()),
            self.packet_counter() % 3 == 0,
    {
    }

    /// A world with nothing registered, nothing cached and no packet id given out.
    pub fn new() -> (w: Self)
        ensures
            w.wf(),
            w.event_slots().len() == 0,
            w.packet_slots().len() == 0,
            w.cache() == Map::<u64, u64>::empty(),
            w.packet_counter() == 0,
            !w.event_motion_ready(),
            !w.packet_motion_ready(),
            w.packets_in_motion() == Seq::<usize>::empty(),
    {
        World {
            extras: Extras::default(),
            cached_systems: HashMap::new(),
            next_packet_id: 0,
            event_motion: false,
            packet_motion: false,
            packets_in_motion: Vec::new(),
        }
    }

    /// Whether an event registration has made the record of event types in motion.
    pub fn has_event_motion(&self) -> (r: bool)
        ensures
            r == self.event_motion_ready(),
    {
        self.event_motion
    }

    /// Whether a packet registration has made the record of packet types in motion.
    pub fn has_packet_motion(&self) -> (r: bool)
        ensures
            r == self.packet_motion_ready(),
    {
        self.packet_motion
    }

    /// Whether a packet of type `sid` is being dispatched.
    pub fn packet_in_motion(&self, sid: usize) -> (r: bool)
        ensures
            r == self.packets_in_motion().contains(sid),
    {
        self.first_packet_in_motion(sid).is_some()
    }

    /// The first position of `sid` in the record of packet types in motion.
    fn first_packet_in_motion(&self, sid: usize) -> (r: Option<usize>)
        ensures
            match r {
                Some(i) => i < self.packets_in_motion().len() && i == first_index_of(
                    self.packets_in_motion(),
                    sid,
                ) && self.packets_in_motion().contains(sid),
                None => !self.packets_in_motion().contains(sid),
            },
    {
        let list = &self.packets_in_motion;
        let mut i: usize = 0;
        while i < list.len()
            invariant
                i <= list@.len(),
                list@ == self.packets_in_motion(),
                forall|j: int| 0 <= j < i ==> list@[j] != sid,
            decreases list@.len() - i,
        {
            if list[i] == sid {
                proof {
                    let l = list@;
                    assert(0 <= i < l.len() && l[i as int] == sid && forall|j: int|
                        0 <= j < i ==> l[j] != sid);
                    assert(exists|m: int|
                        0 <= m < l.len() && l[m] == sid && forall|j: int| 0 <= j < m ==> l[j] != sid);
                    let k = first_index_of(l, sid);
                    if k != i as int {
                        if k < i {
                            assert(l[k] != sid);
                        } else {
                            assert(l[i as int] != sid);
                        }
                    }

                }
                return Some(i);
            }
            i = i + 1;
        }
        None
    }

    /// Makes the record of event types in motion, as every event registration does.
    pub(crate) fn mark_event_motion(&mut self)
        ensures
            final(self).event_motion_ready(),
            final(self).packet_motion_ready() == old(self).packet_motion_ready(),
            final(self).packets_in_motion() == old(self).packets_in_motion(),
            final(self).event_slots() == old(self).event_slots(),
            final(self).packet_slots() == old(self).packet_slots(),
            final(self).cache() == old(self).cache(),
            final(self).packet_counter() == old(self).packet_counter(),
            old(self).wf() ==> final(self).wf(),
    {
        self.event_motion = true;
    }

    /// Makes the record of packet types in motion, as every packet registration does.
    pub(crate) fn mark_packet_motion(&mut self)
        ensures
            final(self).packet_motion_ready(),
            final(self).event_motion_ready() == old(self).event_motion_ready(),
            final(self).packets_in_motion() == old(self).packets_in_motion(),
            final(self).event_slots() == old(self).event_slots(),
            final(self).packet_slots() == old(self).packet_slots(),
            final(self).cache() == old(self).cache(),
            final(self).packet_counter() == old(self).packet_counter(),
            old(self).wf() ==> final(self).wf(),
    {
        self.packet_motion = true;
    }

    /// Records that a packet of type `sid` is being dispatched.
    pub(crate) fn enter_packet_motion(&mut self, sid: usize)
        ensures
            final(self).packets_in_motion() == old(self).packets_in_motion().push(sid),
            final(self).event_motion_ready() == old(self).event_motion_ready(),
            final(self).packet_motion_ready() == old(self).packet_motion_ready(),
            final(self).event_slots() == old(self).event_slots(),
            final(self).packet_slots() == old(self).packet_slots(),
            final(self).cache() == old(self).cache(),
            final(self).packet_counter() == old(self).packet_counter(),
            old(self).wf() ==> final(self).wf(),
    {
        self.packets_in_motion.push(sid);
    }

    /// Records that the dispatch of a packet of type `sid` is over.
    fn leave_packet_motion(&mut self, sid: usize)
        requires
            old(self).packets_in_motion().contains(sid),
        ensures
            final(self).packets_in_motion() == motion_removed(old(self).packets_in_motion(), sid),
            final(self).event_motion_ready() == old(self).event_motion_ready(),
            final(self).packet_motion_ready() == old(self).packet_motion_ready(),
            final(self).event_slots() == old(self).event_slots(),
            final(self).packet_slots() == old(self).packet_slots(),
            final(self).cache() == old(self).cache(),
            final(self).packet_counter() == old(self).packet_counter(),
            old(self).wf() ==> final(self).wf(),
    {
        match self.first_packet_in_motion(sid) {
            Some(i) => {
                let _ = self.packets_in_motion.swap_remove(i);
            },
            None => {},
        }
    }

    /// The event registry, to read.
    pub fn event_systems(&self) -> (t: &SlotTable<event::RegisteredSystems>)
        ensures
            t@ == self.event_slots(),
            self.wf() ==> t.wf(),
    {
        &self.extras.event_systems
    }

    /// The packet registry, to read.
    pub fn packet_systems(&self) -> (t: &SlotTable<packet::RegisteredSystems>)
        ensures
            t@ == self.packet_slots(),
            self.wf() ==> t.wf(),
    {
        &self.extras.packet_systems
    }

    /// The next smol id a packet type gets.
    pub fn peek_packet_id(&self) -> (n: usize)
        ensures
            n == self.packet_counter(),
    {
        self.next_packet_id
    }

    /// Begins a cached one-shot run of the system whose type is keyed `key`:
    /// its instance kept from an earlier run is taken out of the cache and
    /// returned; `None` means the runner makes and initializes a fresh one.
    /// Either way the runner hands the instance back with
    /// [`World::cache_system`] once it ran.
    pub fn run_once_np_cached_with(&mut self, key: u64) -> (r: Option<u64>)
        ensures
            r == (if old(self).cache().contains_key(key) {
                Some(old(self).cache()[key])
            } else {
                None
            }),
            final(self).cache() == old(self).cache().remove(key),
            final(self).event_slots() == old(self).event_slots(),
            final(self).packet_slots() == old(self).packet_slots(),
            final(self).packet_counter() == old(self).packet_counter(),
            final(self).same_motion(old(self)),
            old(self).wf() ==> final(self).wf(),
    {
        self.cached_systems.remove(&key)
    }

    /// Keeps the instance `system` of the system whose type is keyed `key`
    /// for the next cached run, in place of any instance kept meanwhile.
    pub fn cache_system(&mut self, key: u64, system: u64)
        ensures
            final(self).cache() == old(self).cache().insert(key, system),
            final(self).event_slots() == old(self).event_slots(),
            final(self).packet_slots() == old(self).packet_slots(),
            final(self).packet_counter() == old(self).packet_counter(),
            final(self).same_motion(old(self)),
            old(self).wf() ==> final(self).wf(),
    {
        let _ = self.cached_systems.insert(key, system);
    }
}

/// Hands out the smol id of a new packet type: the ids go up by three, one
/// each for the packet, a reference to it and a slice of packets.
pub fn next_packet_id(world: &mut World) -> (r: usize)
    requires
        old(world).wf(),
        old(world).packet_counter() <= usize::MAX - 3,
    ensures
        r == old(world).packet_counter(),
        r % 3 == 0,
        final(world).wf(),
        final(world).packet_counter() == old(world).packet_counter() + 3,
        final(world).event_slots() == old(world).event_slots(),
        final(world).packet_slots() == old(world).packet_slots(),
        final(world).cache() == old(world).cache(),
        final(world).same_motion(old(world)),
{
    let rv = world.next_packet_id;
    world.next_packet_id = world.next_packet_id + 3;
    rv
}

impl World {
    /// Everything but the event registry is as in `old`.
    pub open spec fn same_but_events(&self, old: &World) -> bool {
        &&& self.packet_slots() == old.packet_slots()
        &&& self.cache() == old.cache()
        &&& self.packet_counter() == old.packet_counter()
        &&& self.same_motion(old)
    }

    /// Takes the systems of event slot `sid` out of the registry; they must be
    /// put back. A registry too short to hold the slot is padded with empty slots.
    pub fn remove_event_system(&mut self, sid: usize) -> (r: Option<event::RegisteredSystems>)
        requires
            old(self).wf(),
            sid < usize::MAX,
        ensures
            r == slot_at(old(self).event_slots(), sid as int),
            final(self).event_slots() == taken_slots(
                old(self).event_slots(),
                sid as int,
            ),
            final(self).same_but_events(old(self)),
            final(self).wf(),
            r matches Some(s) ==> s.wf(),
    {
        self.extras.event_systems.take(sid)
    }

    /// Puts `systems` back into the empty event slot `sid`.
    pub fn put_back_event_system(&mut self, sid: usize, systems: event::RegisteredSystems)
        requires
            old(self).wf(),
            slot_vacant(old(self).event_slots(), sid as int),
            systems.wf(),
        ensures
            final(self).event_slots() == old(self).event_slots().update(
                sid as int,
                Some(systems),
            ),
            final(self).same_but_events(old(self)),
            final(self).wf(),
    {
        self.extras.event_systems.put_back(sid, systems);
    }

    /// Whether a system made from the function keyed `tid` is registered in
    /// event slot `sid` (a taken slot holds none).
    pub fn has_event_system(&self, sid: usize, tid: u64) -> (r: bool)
        requires
            self.wf(),
        ensures
            r == has_tid(slot_entries(self.event_slots(), sid as int), tid),
    {
        match self.extras.event_systems.get(sid) {
            Some(s) => s.contains_system(tid),
            None => false,
        }
    }

    /// Performs one step of the event dispatch `d` (see [`crate::dispatch::dispatch_step`]).
    /// No step may follow the run of a by-value system that shared its slot
    /// with others (see [`crate::dispatch::value_slot_overfull`]).
    pub fn event_step(&mut self, d: &mut event::EventDispatch) -> (r: Result<Step, DispatchError>)
        requires
            old(d).wf(),
            old(self).wf(),
            !value_slot_overfull(*old(d)),
        ensures
            ({
                let o = crate::dispatch::dispatch_step(*old(d), old(self).event_slots());
                &&& *final(d) == o.dispatch
                &&& final(self).event_slots() == o.slots
                &&& r == o.result
            }),
            final(d).wf(),
            final(self).same_but_events(old(self)),
            final(self).wf(),
    {
        d.next(&mut self.extras.event_systems)
    }

    /// Performs one step of handling the event batch `b` (see [`crate::dispatch::batch_step`]).
    pub fn event_batch_step(&mut self, b: &mut event::EventBatch) -> (r: Result<Step, DispatchError>)
        requires
            old(b).wf(),
            old(self).wf(),
        ensures
            ({
                let o = crate::dispatch::batch_step(*old(b), old(self).event_slots());
                &&& *final(b) == o.batch
                &&& final(self).event_slots() == o.slots
                &&& r == o.result
            }),
            final(b).wf(),
            final(self).same_but_events(old(self)),
            final(self).wf(),
    {
        b.next(&mut self.extras.event_systems)
    }

    /// Everything but the packet registry is as in `old`.
    pub open spec fn same_but_packets(&self, old: &World) -> bool {
        &&& self.event_slots() == old.event_slots()
        &&& self.cache() == old.cache()
        &&& self.packet_counter() == old.packet_counter()
        &&& self.same_motion(old)
    }

    /// Takes the systems of packet slot `sid` out of the registry; they must be
    /// put back. A registry too short to hold the slot is padded with empty slots.
    pub fn remove_packet_system(&mut self, sid: usize) -> (r: Option<packet::RegisteredSystems>)
        requires
            old(self).wf(),
            sid < usize::MAX,
        ensures
            r == slot_at(old(self).packet_slots(), sid as int),
            final(self).packet_slots() == taken_slots(
                old(self).packet_slots(),
                sid as int,
            ),
            final(self).same_but_packets(old(self)),
            final(self).wf(),
            r matches Some(s) ==> s.wf(),
    {
        self.extras.packet_systems.take(sid)
    }

    /// Puts `systems` back into the empty packet slot `sid`.
    pub fn put_back_packet_system(&mut self, sid: usize, systems: packet::RegisteredSystems)
        requires
            old(self).wf(),
            slot_vacant(old(self).packet_slots(), sid as int),
            systems.wf(),
        ensures
            final(self).packet_slots() == old(self).packet_slots().update(
                sid as int,
                Some(systems),
            ),
            final(self).same_but_packets(old(self)),
            final(self).wf(),
    {
        self.extras.packet_systems.put_back(sid, systems);
    }

    /// Whether a system made from the function keyed `tid` is registered in
    /// packet slot `sid` (a taken slot holds none).
    pub fn has_packet_system(&self, sid: usize, tid: u64) -> (r: bool)
        requires
            self.wf(),
        ensures
            r == has_tid(slot_entries(self.packet_slots(), sid as int), tid),
    {
        match self.extras.packet_systems.get(sid) {
            Some(s) => s.contains_system(tid),
            None => false,
        }
    }

    /// Performs one step of the packet dispatch `d` (see [`crate::dispatch::dispatch_step`]).
    /// No step may follow the run of a by-value system that shared its slot
    /// with others (see [`crate::dispatch::value_slot_overfull`]). The step that ends the dispatch takes its type off the record
    /// of packet types in motion, where it must stand.
    pub fn packet_step(&mut self, d: &mut packet::PacketDispatch) -> (r: Result<Step, DispatchError>)
        requires
            old(d).wf(),
            old(self).wf(),
            !value_slot_overfull(*old(d)),
            ends_dispatch(*old(d), old(self).packet_slots()) ==> old(self).packets_in_motion().contains(
                old(d).sid,
            ),
        ensures
            ({
                let o = crate::dispatch::dispatch_step(*old(d), old(self).packet_slots());
                &&& *final(d) == o.dispatch
                &&& final(self).packet_slots() == o.slots
                &&& r == o.result
            }),
            final(self).packets_in_motion() == (if ends_dispatch(*old(d), old(self).packet_slots()) {
                motion_removed(old(self).packets_in_motion(), old(d).sid)
            } else {
                old(self).packets_in_motion()
            }),
            old(d).phase != crate::dispatch::Phase::Done && final(d).phase
                == crate::dispatch::Phase::Done ==> final(self).packets_in_motion()
                == motion_removed(old(self).packets_in_motion(), old(d).sid),
            !(old(d).phase != crate::dispatch::Phase::Done && final(d).phase
                == crate::dispatch::Phase::Done) ==> final(self).packets_in_motion()
                == old(self).packets_in_motion(),
            final(d).wf(),
            final(self).event_slots() == old(self).event_slots(),
            final(self).cache() == old(self).cache(),
            final(self).packet_counter() == old(self).packet_counter(),
            final(self).event_motion_ready() == old(self).event_motion_ready(),
            final(self).packet_motion_ready() == old(self).packet_motion_ready(),
            final(self).wf(),
    {
        let was_done = d.phase == crate::dispatch::Phase::Done;
        let r = d.next(&mut self.extras.packet_systems);
        if !was_done && d.phase == crate::dispatch::Phase::Done {
            self.leave_packet_motion(d.sid);
        }
        r
    }

    /// Performs one step of handling the packet batch `b` (see [`crate::dispatch::batch_step`]).
    pub fn packet_batch_step(&mut self, b: &mut packet::PacketBatch) -> (r: Result<Step, DispatchError>)
        requires
            old(b).wf(),
            old(self).wf(),
        ensures
            ({
                let o = crate::dispatch::batch_step(*old(b), old(self).packet_slots());
                &&& *final(b) == o.batch
                &&& final(self).packet_slots() == o.slots
                &&& r == o.result
            }),
            final(b).wf(),
            final(self).same_but_packets(old(self)),
            final(self).wf(),
    {
        b.next(&mut self.extras.packet_systems)
    }
}

} // verus!
