//! The scenario of the packet API, driven by a small runner that owns the
//! systems and the packet values and performs the steps that the dispatch
//! machines hand out.

use bevy_ecs::dispatch::{InputKind, Phase, Step};
use bevy_ecs::packet::{next_packet_id, PacketVec};
use bevy_ecs::world::World as Core;

#[derive(Clone, Debug, PartialEq)]
enum Pk {
    Input(u8),
    Moved,
}

#[derive(Clone, Debug)]
enum Input {
    Value(Pk),
    Ref(Pk),
    Slice(Vec<Pk>),
}

type System = Box<dyn FnMut(&mut Runner, Input) -> Vec<Pk>>;

struct Runner {
    core: Core,
    systems: Vec<Option<System>>,
    input_sid: usize,
    moved_sid: usize,
    count: u8,
}

impl Runner {
    fn new() -> Self {
        let mut core = Core::new();
        let input_sid = next_packet_id(&mut core);
        let moved_sid = next_packet_id(&mut core);
        Runner { core, systems: Vec::new(), input_sid, moved_sid, count: 0 }
    }

    fn sid(&self, p: &Pk) -> usize {
        match p {
            Pk::Input(_) => self.input_sid,
            Pk::Moved => self.moved_sid,
        }
    }

    fn register(&mut self, slot: usize, tid: u64, f: System) {
        assert!(!self.core.has_packet_system(slot, tid));
        let handle = self.systems.len() as u64;
        self.systems.push(Some(f));
        self.core.register_packet_system(slot, tid, handle);
    }

    fn run_system(&mut self, handle: u64, input: Input) {
        let mut f = self.systems[handle as usize].take().expect("system is running");
        let out = f(self, input);
        self.systems[handle as usize] = Some(f);
        for p in out {
            self.send(p, true);
        }
    }

    fn send(&mut self, p: Pk, slice: bool) {
        let sid = self.sid(&p);
        assert!(self.core.has_packet_motion(), "missing resource PacketInMotion");
        assert!(!self.core.packet_in_motion(sid), "Recursive event {:?}", p);
        let mut d = if slice {
            self.core.send(sid)
        } else {
            bevy_ecs::packet::run_this_packet_system(&mut self.core, sid, false)
        };
        let mut value = Some(p.clone());
        loop {
            assert!(!d.value_slot_overfull());
            assert!(d.phase == Phase::Done || self.core.packet_in_motion(sid));
            match self.core.packet_step(&mut d).expect("packet step") {
                Step::Run { system, input } => {
                    let input = match input {
                        InputKind::Value => Input::Value(value.take().expect("value taken once")),
                        InputKind::Ref => Input::Ref(p.clone()),
                        InputKind::Slice => Input::Slice(vec![p.clone()]),
                    };
                    self.run_system(system, input);
                }
                Step::Pending => {}
                Step::Finished => return,
                other => panic!("unexpected step {:?}", other),
            }
        }
    }

    /// Runs a `PacketVec` returned as a system's output.
    fn run_packet_vec(&mut self, v: PacketVec<Pk>) {
        let mut b = v.run();
        loop {
            match self.core.packet_batch_step(&mut b).expect("batch step") {
                Step::Run { system, .. } => self.run_system(system, Input::Slice(v.packets.clone())),
                Step::Forward { index, slice } => self.send(v.packets[index].clone(), slice),
                Step::Pending => {}
                Step::Finished => break,
                other => panic!("unexpected step {:?}", other),
            }
        }
    }
}

#[test]
fn test() {
    let mut w = Runner::new();
    w.count = 0;
    let input = w.input_sid;
    let moved = w.moved_sid;
    // move_player(Input(input): Input) -> Option<Moved>
    w.register(
        input,
        1,
        Box::new(|_, i| match i {
            Input::Value(Pk::Input(b'a')) => vec![Pk::Moved],
            _ => vec![],
        }),
    );
    // count_moved(_: Moved, count: ResMut<Count>)
    w.register(
        moved,
        2,
        Box::new(|w, _| {
            w.count += 1;
            vec![]
        }),
    );
    // count_moved1(_: &Moved, count: ResMut<Count>)
    w.register(
        moved + 1,
        3,
        Box::new(|w, _| {
            w.count += 1;
            vec![]
        }),
    );
    // count_moved2(_: &Moved, count: ResMut<Count>)
    w.register(
        moved + 1,
        4,
        Box::new(|w, _| {
            w.count += 1;
            vec![]
        }),
    );
    w.send(Pk::Input(b'a'), true);
    assert_eq!(w.count, 3);
}

#[test]
fn packet_vec_runs_slice_systems_then_each_packet() {
    let mut w = Runner::new();
    let moved = w.moved_sid;
    // A slice system sees all three packets at once.
    w.register(
        moved + 2,
        1,
        Box::new(|w, i| {
            if let Input::Slice(v) = i {
                assert_eq!(v.len(), 3);
                w.count += 10;
            }
            vec![]
        }),
    );
    // A by-reference system sees each packet on its own; the slice systems do
    // not run again for the single packets.
    w.register(
        moved + 1,
        2,
        Box::new(|w, _| {
            w.count += 1;
            vec![]
        }),
    );
    let mut v = PacketVec::new(moved);
    v.push(Pk::Moved);
    v.push(Pk::Moved);
    v.push(Pk::Moved);
    w.run_packet_vec(v);
    assert_eq!(w.count, 13);
}

#[test]
fn unregistered_system_no_longer_runs() {
    let mut w = Runner::new();
    let moved = w.moved_sid;
    w.register(
        moved + 1,
        7,
        Box::new(|w, _| {
            w.count += 1;
            vec![]
        }),
    );
    w.send(Pk::Moved, true);
    w.core.unregister_packet_system(moved + 1, 7);
    assert!(!w.core.has_packet_system(moved + 1, 7));
    w.send(Pk::Moved, true);
    assert_eq!(w.count, 1);
}
