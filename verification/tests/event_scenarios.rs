//! The example scenarios of the event API, driven by a small runner that
//! owns the systems and the event values and performs the steps that the
//! dispatch machines hand out.

use bevy_ecs::dispatch::{InputKind, Step};
use bevy_ecs::event::{run_this_event_system, EventSlicer};
use bevy_ecs::world::World as Core;

/// The event types of the scenarios, each with its smol id.
#[derive(Clone, Debug, PartialEq)]
enum Ev {
    C1,
    R1(u8),
    R2(u8),
    E1(u8),
    E2(u8),
}

impl Ev {
    fn sid(&self) -> usize {
        match self {
            Ev::C1 => 0,
            Ev::R1(_) => 3,
            Ev::R2(_) => 6,
            Ev::E1(_) => 9,
            Ev::E2(_) => 12,
        }
    }
}

/// How a system receives its input.
#[derive(Clone, Debug)]
enum Input {
    Value(Ev),
    Ref(Ev),
    Slice(Vec<Ev>),
}

/// What a run leaves behind: events returned by the system, and the buffers
/// its slicers filled (smol id, forwarding, events).
#[derive(Default)]
struct Out {
    events: Vec<Ev>,
    slices: Vec<(usize, bool, Vec<Ev>)>,
}

type System = Box<dyn FnMut(&mut Runner, Input) -> Out>;

#[derive(Default)]
struct Resources {
    r1: u8,
    counter: u8,
}

struct Runner {
    core: Core,
    systems: Vec<Option<System>>,
    res: Resources,
}

impl Runner {
    fn new() -> Self {
        Runner { core: Core::new(), systems: Vec::new(), res: Resources::default() }
    }

    /// Registers `f` for the input slot `slot`; `tid` names the function.
    fn register(&mut self, slot: usize, tid: u64, f: System) {
        if self.core.has_event_system(slot, tid) {
            return;
        }
        let handle = self.systems.len() as u64;
        self.systems.push(Some(f));
        self.core.register_event_system(slot, tid, handle);
    }

    fn run_system(&mut self, handle: u64, input: Input) {
        let mut f = self.systems[handle as usize].take().expect("system is running");
        let out = f(self, input);
        self.systems[handle as usize] = Some(f);
        for (sid, forward, events) in out.slices {
            self.apply_slicer(sid, forward, events);
        }
        for e in out.events {
            self.send_with(e, true);
        }
    }

    fn send(&mut self, e: Ev) {
        self.send_with(e, true);
    }

    fn send_with(&mut self, e: Ev, slice: bool) {
        let sid = e.sid();
        assert!(self.core.has_event_motion(), "missing resource EventInMotion");
        let mut d = run_this_event_system(&self.core, sid, slice);
        let mut value = Some(e.clone());
        loop {
            if d.value_slot_overfull() {
                panic!("Only one system can take value {:?}", e);
            }
            match self.core.event_step(&mut d).expect("dispatch step") {
                Step::Run { system, input } => {
                    let input = match input {
                        InputKind::Value => Input::Value(value.take().expect("value taken once")),
                        InputKind::Ref => Input::Ref(e.clone()),
                        InputKind::Slice => Input::Slice(vec![e.clone()]),
                    };
                    self.run_system(system, input);
                }
                Step::Pending => {}
                Step::Finished => return,
                other => panic!("unexpected step {:?}", other),
            }
        }
    }

    fn apply_slicer(&mut self, sid: usize, forward: bool, events: Vec<Ev>) {
        let mut b = if forward {
            EventSlicer::<true>::new(sid).apply(events.len())
        } else {
            EventSlicer::<false>::new(sid).apply(events.len())
        };
        let mut buffer = events;
        loop {
            match self.core.event_batch_step(&mut b).expect("batch step") {
                Step::Run { system, .. } => self.run_system(system, Input::Slice(buffer.clone())),
                Step::Forward { index, slice } => {
                    let e = buffer[index].clone();
                    self.send_with(e, slice);
                }
                Step::Clear => buffer.clear(),
                Step::Pending => {}
                Step::Finished => break,
                other => panic!("unexpected step {:?}", other),
            }
        }
    }
}

fn by_value(sid: usize) -> usize {
    sid
}

fn by_ref(sid: usize) -> usize {
    sid + 1
}

fn by_slice(sid: usize) -> usize {
    sid + 2
}

#[test]
fn event_system() {
    let mut w = Runner::new();
    w.res.r1 = 0;
    // add_it(what: &R1, to: ResMut<R1>) -> C1
    w.register(
        by_ref(3),
        1,
        Box::new(|w, input| {
            if let Input::Ref(Ev::R1(x)) = input {
                w.res.r1 += x;
            }
            Out { events: vec![Ev::C1], slices: vec![] }
        }),
    );
    // add_it2(what: &R2, to: ResMut<R1>) -> C1
    w.register(
        by_ref(6),
        2,
        Box::new(|w, input| {
            if let Input::Ref(Ev::R2(x)) = input {
                w.res.r1 += x;
            }
            Out { events: vec![Ev::C1], slices: vec![] }
        }),
    );
    // add_it3(what: R2, to: ResMut<R1>) -> C1
    w.register(
        by_value(6),
        3,
        Box::new(|w, input| {
            if let Input::Value(Ev::R2(x)) = input {
                w.res.r1 += x;
            }
            Out { events: vec![Ev::C1], slices: vec![] }
        }),
    );
    // inc_on_c1(_: C1, to: ResMut<R1>)
    w.register(
        by_value(0),
        4,
        Box::new(|w, _| {
            w.res.r1 += 1;
            Out::default()
        }),
    );
    w.send(Ev::R1(4));
    w.send(Ev::R2(5));
    assert_eq!(w.res.r1, 17);
}

#[test]
fn slicer_forward_event_system() {
    let mut w = Runner::new();
    // send_slice_event_forwarding(_: E2, slicer: EventSlicer<E1, true>)
    w.register(
        by_value(12),
        1,
        Box::new(|_, _| {
            let events = (0..10).map(Ev::E1).collect();
            Out { events: vec![], slices: vec![(9, true, events)] }
        }),
    );
    // e1_call_counter1(_: &E1, count: ResMut<Counter>)
    w.register(
        by_ref(9),
        2,
        Box::new(|w, _| {
            w.res.counter += 1;
            Out::default()
        }),
    );
    w.res.counter = 0;
    w.send(Ev::E2(0));
    assert_eq!(w.res.counter, 10);
}

#[test]
fn exclusive_systems_test() {
    let mut w = Runner::new();
    w.res.counter = 0;
    // iam_exclusive(e1: &E1, w: &mut World)
    w.register(
        by_ref(9),
        1,
        Box::new(|w, _| {
            w.res.counter = 14;
            Out::default()
        }),
    );
    w.send(Ev::E1(0));
    assert_eq!(w.res.counter, 14);
}

#[test]
fn slice_systems_see_buffer_in_order() {
    let mut w = Runner::new();
    // A system that fills a non-forwarding slicer with E1(0..10).
    w.register(
        by_value(12),
        1,
        Box::new(|_, _| {
            let events = (0..10).map(Ev::E1).collect();
            Out { events: vec![], slices: vec![(9, false, events)] }
        }),
    );
    // count_in_slice(events: &[E1]): the events come in buffer order.
    w.register(
        by_slice(9),
        2,
        Box::new(|w, input| {
            if let Input::Slice(events) = input {
                for (i, e) in events.iter().enumerate() {
                    assert_eq!(*e, Ev::E1(i as u8));
                }
                w.res.counter += events.len() as u8;
            }
            Out::default()
        }),
    );
    // Not forwarded: no by-reference system of E1 runs.
    w.register(
        by_ref(9),
        3,
        Box::new(|w, _| {
            w.res.counter += 100;
            Out::default()
        }),
    );
    w.send(Ev::E2(0));
    assert_eq!(w.res.counter, 10);
}

#[test]
fn slicer_event_system() {
    let mut w = Runner::new();
    // send_slice_event(_: E1, slicer: EventSlicer<E1>): forwards what it buffers.
    w.register(
        by_value(9),
        1,
        Box::new(|_, _| {
            let events = (0..10).map(Ev::E1).collect();
            Out { events: vec![], slices: vec![(9, true, events)] }
        }),
    );
    // count_in_slice(events: &[E1])
    w.register(
        by_slice(9),
        2,
        Box::new(|w, input| {
            if let Input::Slice(events) = input {
                let mut i = 0;
                for e in &events {
                    assert_eq!(*e, Ev::E1(i));
                    i += 1;
                }
                w.res.counter += 1;
                w.res.r1 += events.len() as u8;
            }
            Out::default()
        }),
    );
    w.send(Ev::E1(0));
    // The slice system saw [E1(0)], then the ten buffered events at once;
    // the forwarded events are not handed to it again.
    assert_eq!(w.res.counter, 2);
    assert_eq!(w.res.r1, 11);
}

#[test]
fn forwarded_events_of_the_sending_type_skip_its_held_slot() {
    let mut w = Runner::new();
    // The by-value system of E1 buffers three E1 and forwards them; while it
    // runs it holds the by-value slot of E1, so it is not run again for them.
    w.register(
        by_value(9),
        1,
        Box::new(|w, _| {
            w.res.r1 += 1;
            let events = (0..3).map(Ev::E1).collect();
            Out { events: vec![], slices: vec![(9, true, events)] }
        }),
    );
    // Each forwarded E1 still reaches the by-reference systems.
    w.register(
        by_ref(9),
        2,
        Box::new(|w, _| {
            w.res.counter += 1;
            Out::default()
        }),
    );
    w.send(Ev::E1(0));
    assert_eq!(w.res.r1, 1);
    assert_eq!(w.res.counter, 4);
}

#[test]
fn sending_twice_gives_same_result() {
    let mut w = Runner::new();
    w.register(
        by_ref(3),
        1,
        Box::new(|w, _| {
            w.res.r1 += 1;
            Out::default()
        }),
    );
    w.send(Ev::R1(0));
    w.send(Ev::R1(0));
    assert_eq!(w.res.r1, 2);
}
