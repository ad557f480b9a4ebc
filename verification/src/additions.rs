//! Additions to the world: one-shot systems kept between runs, and the
//! `Player` parameter types.

use vstd::prelude::*;

use crate::dispatch::Step;
use crate::world::World;

verus! {

broadcast use vstd::std_specs::hash::group_hash_axioms;

/// Marks the entity that the [`Player`] parameter selects.
#[derive(Clone, Copy, Debug, PartialEq, Eq, Structural)]
pub struct PlayerMarker;

/// The query item of the single entity marked with [`PlayerMarker`].
pub struct Player<Q>(pub Q);

impl<Q> Player<Q> {
    /// Wraps the query item of the player entity.
    pub fn new(item: Q) -> (p: Self)
        ensures
            p.0 == item,
    {
        Player(item)
    }

    /// The query item, unwrapped.
    pub fn into_inner(self) -> (item: Q)
        ensures
            item == self.0,
    {
        self.0
    }

    /// A reference to the query item.
    pub fn get(&self) -> (item: &Q)
        ensures
            *item == self.0,
    {
        &self.0
    }

    /// A mutable reference to the query item.
    pub fn get_mut(&mut self) -> (item: &mut Q)
        ensures
            *item == old(self).0,
            final(self).0 == *final(item),
    {
        &mut self.0
    }
}

/// The resource that `WCommands` claims write access to.
#[derive(Clone, Copy, Debug, PartialEq, Eq, Structural)]
pub struct Internal;

/// Commands that a system issues straight into the world's command queue,
/// applied when the system's deferred work is applied. Derefs to the
/// commands it wraps.
pub struct WCommands<C> {
    v: C,
}

impl<C> WCommands<C> {
    /// Wraps the commands `v`.
    pub fn new(v: C) -> (w: Self)
        ensures
            w.commands() == v,
    {
        WCommands { v }
    }

    /// The wrapped commands.
    pub closed spec fn commands(&self) -> C {
        self.v
    }

    /// A reference to the wrapped commands.
    pub fn deref(&self) -> (c: &C)
        ensures
            *c == self.commands(),
    {
        &self.v
    }

    /// A mutable reference to the wrapped commands.
    pub fn deref_mut(&mut self) -> (c: &mut C)
        ensures
            *c == old(self).commands(),
            final(self).commands() == *final(c),
    {
        &mut self.v
    }
}

/// A queue of commands returned by a system, applied to the world as its
/// output. Derefs to the queue it wraps.
pub struct ECommands<Q> {
    queue: Q,
}

impl<Q> ECommands<Q> {
    /// Wraps the command queue `queue`.
    pub fn new(queue: Q) -> (e: Self)
        ensures
            e.queue() == queue,
    {
        ECommands { queue }
    }

    /// The wrapped queue.
    pub closed spec fn queue(&self) -> Q {
        self.queue
    }

    /// A reference to the wrapped queue.
    pub fn deref(&self) -> (q: &Q)
        ensures
            *q == self.queue(),
    {
        &self.queue
    }

    /// A mutable reference to the wrapped queue.
    pub fn deref_mut(&mut self) -> (q: &mut Q)
        ensures
            *q == old(self).queue(),
            final(self).queue() == *final(q),
    {
        &mut self.queue
    }

    /// The queue, to be applied to the world.
    pub fn into_inner(self) -> (q: Q)
        ensures
            q == self.queue(),
    {
        self.queue
    }
}

/// A cached one-shot run under way: the system's type key and the instance
/// taken out of the cache for it (`None`: the runner makes a fresh one).
pub struct CachedRun {
    pub key: u64,
    pub instance: Option<u64>,
}

/// The parts of a run's output (each a packet, sent with its slice systems,
/// or what the output sends as one), handed out one by one to be sent in the
/// order the output holds them.
pub struct OutputSends {
    pub count: usize,
    pub cursor: usize,
}

impl OutputSends {
    /// The next packet to send, or the end.
    pub fn next(&mut self) -> (r: Step)
        ensures
            final(self).count == old(self).count,
            if old(self).cursor < old(self).count {
                &&& r == Step::Forward { index: old(self).cursor, slice: true }
                &&& final(self).cursor == old(self).cursor + 1
            } else {
                &&& r == Step::Finished
                &&& final(self).cursor == old(self).cursor
            },
    {
        if self.cursor < self.count {
            let index = self.cursor;
            self.cursor = self.cursor + 1;
            Step::Forward { index, slice: true }
        } else {
            Step::Finished
        }
    }
}

impl CachedRun {
    /// Ends the run: the instance `system` that ran goes (back) into the cache
    /// under the run's key, and the `count` parts of its output are handed
    /// out to be sent.
    pub fn finish(self, world: &mut World, system: u64, count: usize) -> (s: OutputSends)
        ensures
            final(world).cache() == old(world).cache().insert(self.key, system),
            final(world).event_slots() == old(world).event_slots(),
            final(world).packet_slots() == old(world).packet_slots(),
            final(world).packet_counter() == old(world).packet_counter(),
            final(world).same_motion(old(world)),
            old(world).wf() ==> final(world).wf(),
            s == (OutputSends { count, cursor: 0 }),
    {
        world.cache_system(self.key, system);
        OutputSends { count, cursor: 0 }
    }
}

impl World {
    /// Begins a cached one-shot run whose output is sent afterwards: the
    /// instance is chosen as by [`World::run_once_np_cached_with`]; once it
    /// ran, [`CachedRun::finish`] caches it and hands out its output.
    pub fn run_once_cached_with(&mut self, key: u64) -> (r: CachedRun)
        ensures
            r.key == key,
            r.instance == (if old(self).cache().contains_key(key) {
                Some(old(self).cache()[key])
            } else {
                None
            }),
            final(self).cache() == old(self).cache().remove(key),
            final(self).event_slots() == old(self).event_slots(),
            final(self).packet_slots() == old(self).packet_slots(),
            final(self).packet_counter() == old(self).packet_counter(),
            final(self).same_motion(old(self)),
            old(self).wf() ==> final(self).wf(),
    {
        let instance = self.run_once_np_cached_with(key);
        CachedRun { key, instance }
    }

    /// Begins a cached one-shot run with no input (see [`World::run_once_cached_with`]).
    pub fn run_once_cached(&mut self, key: u64) -> (r: CachedRun)
        ensures
            r.key == key,
            r.instance == (if old(self).cache().contains_key(key) {
                Some(old(self).cache()[key])
            } else {
                None
            }),
            final(self).cache() == old(self).cache().remove(key),
            final(self).event_slots() == old(self).event_slots(),
            final(self).packet_slots() == old(self).packet_slots(),
            final(self).packet_counter() == old(self).packet_counter(),
            final(self).same_motion(old(self)),
            old(self).wf() ==> final(self).wf(),
    {
        self.run_once_cached_with(key)
    }
}

} // verus!
