# bevy_ecs dispatch core

Event and packet dispatch for an entity-component world, verified with Verus.

A world keeps, for every input slot, the systems registered for it. An event
type with smol id `sid` owns three slots: `sid` (systems that take the event by
value), `sid + 1` (by reference) and `sid + 2` (a slice of events). Sending an
event runs the by-reference systems, then the slice systems with a one-element
slice, then the single by-value system; each slot is taken out of the registry
while its systems run and put back afterwards. An event sent while another
dispatch runs, of the same type or another, proceeds: the slots that the
enclosing dispatch holds contribute no systems. Packets are stricter: a
world records the packet types being dispatched, and a packet of a type in
motion cannot be sent. Both records exist once a registration made them;
nothing can be sent before. Only one system may take an event by value:
when a slot holds more, the first runs and the dispatch can go no further.

Layout:

- `src/dispatch.rs`: the slot table and the two step machines (one event, a
  batch of buffered events) with their step specifications.
- `src/event.rs`, `src/packet.rs`: the event and packet registries and their API.
- `src/small.rs`: the `SmallVec` that holds the systems of a slot.
- `src/world.rs`, `src/additions.rs`: the world state (private, read through
  spec views), the one-shot system cache, and small wrapper types.
- `src/properties.rs`: what a whole dispatch does (order of the systems run,
  registry restored, nested dispatches invisible), and the registry laws.
- `app/`: a typed world that owns systems and event values and drives the
  step machines.
