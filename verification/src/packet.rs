//! Packets: systems registered per input slot, which can be unregistered,
//! the smol ids handed out to packet types, and the dispatch of a sent packet.

use vstd::prelude::*;

use crate::dispatch::{
    has_tid, sid_fits, slot_at, slot_entries, slot_vacant, taken_slots, AfterSlice, Batch, BatchPhase,
    Dispatch, DispatchError, Phase, SlotContents, Step,
};
use crate::small::{system_list_items, SystemList, MAX_SYSTEMS};
pub use crate::world::next_packet_id;
use crate::world::World;

verus! {

/// A system registered for a packet input: the handle of the boxed system and
/// the type key of the function it was made from.
#[derive(Clone, Copy, Debug, PartialEq, Eq, Structural)]
pub struct PacketInSystem {
    pub v: u64,
    pub tid: u64,
}

/// The systems registered for one packet input slot, in registration order.
pub struct RegisteredSystems {
    pub v: SystemList,
}

impl SlotContents for RegisteredSystems {
    open spec fn entries(&self) -> Seq<(u64, u64)> {
        system_list_items(self.v)
    }

    /// The list stays within the bound that a push needs.
    open spec fn wf(&self) -> bool {
        system_list_items(self.v).len() <= MAX_SYSTEMS
    }

    proof fn lemma_wf_bounded(&self) {
    }

    fn count(&self) -> (n: usize) {
        self.v.len()
    }

    fn entry(&self, i: usize) -> (e: (u64, u64)) {
        self.v.get(i)
    }
}

impl Default for RegisteredSystems {
    /// No system registered.
    fn default() -> (r: Self)
        ensures
            r.entries() == Seq::<(u64, u64)>::empty(),
            r.wf(),
    {
        RegisteredSystems { v: SystemList::new() }
    }
}

impl RegisteredSystems {
    /// Whether a system made from the function keyed `tid` is registered.
    pub fn contains_system(&self, tid: u64) -> (r: bool)
        requires
            self.wf(),
        ensures
            r == has_tid(self.entries(), tid),
    {
        let n = self.v.len();
        let mut i: usize = 0;
        while i < n
            invariant
                n == self.entries().len(),
                i <= n,
                forall|j: int| 0 <= j < i ==> #[trigger] self.entries()[j].1 != tid,
            decreases n - i,
        {
            let e = self.v.get(i);
            if e.1 == tid {
                return true;
            }
            i = i + 1;
        }
        false
    }

    /// The system registered at position `i`.
    pub fn get(&self, i: usize) -> (s: PacketInSystem)
        requires
            self.wf(),
            i < self.entries().len(),
        ensures
            s.v == self.entries()[i as int].0,
            s.tid == self.entries()[i as int].1,
    {
        let e = self.v.get(i);
        PacketInSystem { v: e.0, tid: e.1 }
    }

    /// Appends `system`, made from the function keyed `tid`.
    pub fn push_system(&mut self, system: u64, tid: u64)
        requires
            old(self).wf(),
            old(self).entries().len() < MAX_SYSTEMS,
        ensures
            final(self).entries() == old(self).entries().push((system, tid)),
            final(self).wf(),
    {
        self.v.push((system, tid));
    }

    /// Drops every system made from the function keyed `tid`, keeping the
    /// order of the others.
    pub fn retain_other(&mut self, tid: u64)
        requires
            old(self).wf(),
        ensures
            final(self).entries() == old(self).entries().filter(|e: (u64, u64)| e.1 != tid),
            final(self).wf(),
    {
        self.v.retain_other(tid);
        proof {
            old(self).entries().lemma_filter_len(|e: (u64, u64)| e.1 != tid);
        }
    }
}

/// The smol id of the input "reference to a packet of type `sid`".
pub fn ref_sid(sid: usize) -> (r: usize)
    requires
        sid < usize::MAX,
    ensures
        r == sid + 1,
{
    sid + 1
}

/// The smol id of the input "slice of packets of type `sid`".
pub fn slice_sid(sid: usize) -> (r: usize)
    requires
        sid < usize::MAX - 1,
    ensures
        r == sid + 2,
{
    sid + 2
}

/// A dispatch of one packet through the packet registry.
pub type PacketDispatch = Dispatch<RegisteredSystems>;

/// The handling of a batch of buffered packets through the packet registry.
pub type PacketBatch = Batch<RegisteredSystems>;

impl World {
    /// Registers `system`, made from the function keyed `tid`, for packet
    /// slot `sid` (see [`register_system`]).
    pub fn register_packet_system(&mut self, sid: usize, tid: u64, system: u64)
        requires
            old(self).wf(),
            sid < usize::MAX,
            slot_entries(old(self).packet_slots(), sid as int).len() < MAX_SYSTEMS,
            !has_tid(slot_entries(old(self).packet_slots(), sid as int), tid),
        ensures
            ({
                let before = old(self).packet_slots();
                let after = final(self).packet_slots();
                &&& after == taken_slots(before, sid as int).update(sid as int, after[sid as int])
                &&& after[sid as int] is Some
                &&& after[sid as int]->0.entries() == slot_entries(before, sid as int).push(
                    (system, tid),
                )
            }),
            final(self).packet_motion_ready(),
            final(self).same_but_packet_registration(old(self)),
            final(self).wf(),
    {
        register_system(self, sid, tid, system);
    }

    /// Unregisters every system made from the function keyed `tid` from
    /// packet slot `sid` (see [`unregister_system`]).
    pub fn unregister_packet_system(&mut self, sid: usize, tid: u64)
        requires
            old(self).wf(),
            sid < usize::MAX,
        ensures
            ({
                let before = old(self).packet_slots();
                let after = final(self).packet_slots();
                match slot_at(before, sid as int) {
                    Some(s) => {
                        &&& after == before.update(sid as int, after[sid as int])
                        &&& after[sid as int] is Some
                        &&& after[sid as int]->0.entries() == s.entries().filter(
                            |e: (u64, u64)| e.1 != tid,
                        )
                    },
                    None => after == taken_slots(before, sid as int),
                }
            }),
            final(self).same_but_packets(old(self)),
            final(self).wf(),
    {
        unregister_system(self, sid, tid);
    }

    /// Sends a packet of type `sid`: starts its dispatch with slice systems
    /// included (see [`run_this_packet_system`]).
    pub fn send(&mut self, sid: usize) -> (d: PacketDispatch)
        requires
            old(self).wf(),
            sid_fits(sid),
            old(self).packet_motion_ready(),
            !old(self).packets_in_motion().contains(sid),
        ensures
            d.wf(),
            d == (PacketDispatch { sid, slice: true, phase: Phase::Ref, held: None, cursor: 0 }),
            final(self).packets_in_motion() == old(self).packets_in_motion().push(sid),
            final(self).same_but_packets_in_motion(old(self)),
            final(self).wf(),
    {
        run_this_packet_system(self, sid, true)
    }
}

/// Registers `system`, made from the function keyed `tid`, for packet slot
/// `sid`: the slot is taken out of the registry, the system appended and the
/// slot put back. A slot that is absent, or taken by a dispatch under way,
/// starts out empty. Registering a function twice for one slot is refused.
pub fn register_system(world: &mut World, sid: usize, tid: u64, system: u64)
    requires
        old(world).wf(),
        sid < usize::MAX,
        slot_entries(old(world).packet_slots(), sid as int).len() < MAX_SYSTEMS,
        !has_tid(slot_entries(old(world).packet_slots(), sid as int), tid),
    ensures
        ({
            let before = old(world).packet_slots();
            let after = final(world).packet_slots();
            &&& after == taken_slots(before, sid as int).update(sid as int, after[sid as int])
            &&& after[sid as int] is Some
            &&& after[sid as int]->0.entries() == slot_entries(before, sid as int).push(
                (system, tid),
            )
        }),
        final(world).packet_motion_ready(),
        final(world).same_but_packet_registration(old(world)),
        final(world).wf(),
{
    world.mark_packet_motion();
    let mut systems = match world.remove_packet_system(sid) {
        Some(s) => s,
        None => RegisteredSystems::default(),
    };
    let ghost taken = world.packet_slots();
    systems.push_system(system, tid);
    world.put_back_packet_system(sid, systems);
    proof {
        assert(world.packet_slots() =~= taken.update(
            sid as int,
            world.packet_slots()[sid as int],
        ));
    }
}

/// Unregisters every system made from the function keyed `tid` from packet
/// slot `sid`, keeping the others in order. An empty or taken slot is left
/// as it is (a registry too short to hold it is padded).
pub fn unregister_system(world: &mut World, sid: usize, tid: u64)
    requires
        old(world).wf(),
        sid < usize::MAX,
    ensures
        ({
            let before = old(world).packet_slots();
            let after = final(world).packet_slots();
            match slot_at(before, sid as int) {
                Some(s) => {
                    &&& after == before.update(sid as int, after[sid as int])
                    &&& after[sid as int] is Some
                    &&& after[sid as int]->0.entries() == s.entries().filter(
                        |e: (u64, u64)| e.1 != tid,
                    )
                },
                None => after == taken_slots(before, sid as int),
            }
        }),
        final(world).same_but_packets(old(world)),
        final(world).wf(),
{
    let ghost before = world.packet_slots();
    match world.remove_packet_system(sid) {
        Some(mut systems) => {
            systems.retain_other(tid);
            world.put_back_packet_system(sid, systems);
            proof {
                assert(world.packet_slots() =~= before.update(
                    sid as int,
                    world.packet_slots()[sid as int],
                ));
            }
        },
        None => {},
    }
}

/// Starts dispatching a packet of type `sid`: its by-reference systems, next
/// (when `slice`) its slice systems with a one-element slice, last its by-value
/// system. The type is recorded as in motion until the step that ends the
/// dispatch (see [`World::packet_step`]); a packet of a type already in motion
/// cannot be sent, nor one before a packet registration made the record.
pub fn run_this_packet_system(world: &mut World, sid: usize, slice: bool) -> (d: PacketDispatch)
    requires
        old(world).wf(),
        sid_fits(sid),
        old(world).packet_motion_ready(),
        !old(world).packets_in_motion().contains(sid),
    ensures
        d.wf(),
        d == (PacketDispatch { sid, slice, phase: Phase::Ref, held: None, cursor: 0 }),
        final(world).packets_in_motion() == old(world).packets_in_motion().push(sid),
        final(world).same_but_packets_in_motion(old(world)),
        final(world).wf(),
{
    world.enter_packet_motion(sid);
    Dispatch::begin(sid, slice)
}

/// Starts running the slice systems of packet type `sid` over `count`
/// packets; the packets themselves are left as they are.
pub fn run_for_slice_packet(sid: usize, count: usize) -> (b: PacketBatch)
    requires
        sid_fits(sid),
    ensures
        b == (PacketBatch {
            slot: (sid + 2) as usize,
            count,
            after: AfterSlice::Keep,
            phase: BatchPhase::Systems,
            held: None,
            cursor: 0,
        }),
        b.wf(),
{
    Batch::begin(slice_sid(sid), count, AfterSlice::Keep)
}

/// The batch that runs the slice systems of packet type `sid` over `count`
/// packets and then dispatches each of them on its own, in order.
pub open spec fn forwarding_batch(sid: usize, count: usize) -> PacketBatch {
    PacketBatch {
        slot: (sid + 2) as usize,
        count,
        after: AfterSlice::Forward,
        phase: BatchPhase::Systems,
        held: None,
        cursor: 0,
    }
}

/// Gives access to the buffer of packets of type `sid` that a system fills;
/// after the system ran, the slice systems of that type see the whole buffer,
/// and next each packet is dispatched on its own.
pub struct PacketSlicer {
    pub sid: usize,
}

impl PacketSlicer {
    /// A slicer for packets of type `sid`.
    pub fn new(sid: usize) -> (s: Self)
        ensures
            s.sid == sid,
    {
        PacketSlicer { sid }
    }

    /// Starts handling the `count` packets buffered during a run.
    pub fn apply(&self, count: usize) -> (b: PacketBatch)
        requires
            sid_fits(self.sid),
        ensures
            b == forwarding_batch(self.sid, count),
            b == (PacketBatch {
                slot: (self.sid + 2) as usize,
                count,
                after: AfterSlice::Forward,
                phase: BatchPhase::Systems,
                held: None,
                cursor: 0,
            }),
            b.wf(),
    {
        Batch::begin(slice_sid(self.sid), count, AfterSlice::Forward)
    }
}

/// Packets of type `sid` returned together by a system: its slice systems see
/// them all, and next each is dispatched on its own, in order.
pub struct PacketVec<P> {
    pub sid: usize,
    pub packets: Vec<P>,
}

impl<P> PacketVec<P> {
    /// No packet yet.
    pub fn new(sid: usize) -> (v: Self)
        ensures
            v.sid == sid,
            v.packets@ == Seq::<P>::empty(),
    {
        PacketVec { sid, packets: Vec::new() }
    }

    /// Adds `packet` at the end.
    pub fn push(&mut self, packet: P)
        ensures
            final(self).sid == old(self).sid,
            final(self).packets@ == old(self).packets@.push(packet),
    {
        self.packets.push(packet);
    }

    /// The number of packets held.
    pub fn len(&self) -> (n: usize)
        ensures
            n == self.packets@.len(),
    {
        self.packets.len()
    }

    /// Starts handling the packets held, as the output of a system.
    pub fn run(&self) -> (b: PacketBatch)
        requires
            sid_fits(self.sid),
        ensures
            b == forwarding_batch(self.sid, self.packets@.len() as usize),
            b == (PacketBatch {
                slot: (self.sid + 2) as usize,
                count: self.packets@.len() as usize,
                after: AfterSlice::Forward,
                phase: BatchPhase::Systems,
                held: None,
                cursor: 0,
            }),
            b.wf(),
    {
        Batch::begin(slice_sid(self.sid), self.packets.len(), AfterSlice::Forward)
    }
}

} // verus!
