//! The registries and dispatch machines on concrete values.

use bevy_ecs::additions::{ECommands, Player, WCommands};
use bevy_ecs::dispatch::{AfterSlice, Batch, DispatchError, InputKind, SlotContents, Step};
use bevy_ecs::error::{ComponentId, Entity, EntityComponentError, EntityFetchError};
use bevy_ecs::event::{self, EventSlicer, RegisteredSystems as EventSystems};
use bevy_ecs::packet::{self, next_packet_id, run_for_slice_packet, PacketSlicer};
use bevy_ecs::world::World;

fn entries_of_event_slot(w: &World, slot: usize) -> Vec<(u64, u64)> {
    match w.event_systems().get(slot) {
        Some(s) => (0..s.count()).map(|i| { let e = s.get(i); (e.v, e.tid) }).collect(),
        None => vec![],
    }
}

fn entries_of_packet_slot(w: &World, slot: usize) -> Vec<(u64, u64)> {
    match w.packet_systems().get(slot) {
        Some(s) => (0..s.count()).map(|i| { let e = s.get(i); (e.v, e.tid) }).collect(),
        None => vec![],
    }
}

/// Steps an event dispatch to its end, collecting what every step reported.
fn run_event(w: &mut World, sid: usize, slice: bool) -> Vec<Result<Step, DispatchError>> {
    assert!(w.has_event_motion(), "missing resource EventInMotion");
    let mut d = event::run_this_event_system(w, sid, slice);
    let mut out = Vec::new();
    loop {
        if d.value_slot_overfull() {
            panic!("Only one system can take value");
        }
        let r = w.event_step(&mut d);
        out.push(r);
        match r {
            Ok(Step::Finished) | Err(_) => return out,
            _ => {}
        }
    }
}

#[test]
fn registering_a_function_twice_keeps_the_first() {
    let mut w = World::new();
    event::register_system(&mut w, 4, 7, 100);
    event::register_system(&mut w, 4, 7, 200);
    event::register_system(&mut w, 4, 8, 300);
    assert_eq!(entries_of_event_slot(&w, 4), vec![(100, 7), (300, 8)]);
    // One type key per registered system.
    assert_eq!(w.event_systems().get(4).map(|s| s.tid.len()), Some(2));
    assert!(w.has_event_system(4, 7));
    assert!(!w.has_event_system(4, 9));
    assert!(!w.has_event_system(40, 7));
    // Slots before the registered one exist and are empty.
    assert_eq!(w.event_systems().len(), 5);
    assert!(w.event_systems().get(0).is_none());
}

#[test]
fn removing_an_absent_slot_pads_the_table() {
    let mut w = World::new();
    assert!(w.remove_event_system(5).is_none());
    assert_eq!(w.event_systems().len(), 6);
    assert!(w.remove_packet_system(2).is_none());
    assert_eq!(w.packet_systems().len(), 3);
}

#[test]
fn take_and_put_back_restores() {
    let mut w = World::new();
    w.register_event_system(1, 10, 1000);
    w.register_event_system(1, 11, 1001);
    let taken = w.remove_event_system(1).expect("registered");
    assert!(w.event_systems().get(1).is_none());
    assert!(!w.has_event_system(1, 10));
    w.put_back_event_system(1, taken);
    assert_eq!(entries_of_event_slot(&w, 1), vec![(1000, 10), (1001, 11)]);
}

#[test]
fn dispatch_reports_ref_then_slice_then_value() {
    let mut w = World::new();
    let sid = 3;
    w.register_event_system(sid + 1, 1, 11);
    w.register_event_system(sid + 1, 2, 12);
    w.register_event_system(sid + 2, 3, 13);
    w.register_event_system(sid, 4, 14);
    let trace = run_event(&mut w, sid, true);
    let run = |system, input| Ok(Step::Run { system, input });
    assert_eq!(
        trace,
        vec![
            Ok(Step::Pending),
            run(11, InputKind::Ref),
            run(12, InputKind::Ref),
            Ok(Step::Pending),
            Ok(Step::Pending),
            run(13, InputKind::Slice),
            Ok(Step::Pending),
            Ok(Step::Pending),
            run(14, InputKind::Value),
            Ok(Step::Pending),
            Ok(Step::Finished),
        ]
    );
    // Registrations are back as they were.
    assert_eq!(entries_of_event_slot(&w, sid + 1), vec![(11, 1), (12, 2)]);
    assert_eq!(entries_of_event_slot(&w, sid + 2), vec![(13, 3)]);
    assert_eq!(entries_of_event_slot(&w, sid), vec![(14, 4)]);
}

#[test]
fn dispatch_without_slice_skips_slice_systems() {
    let mut w = World::new();
    w.register_event_system(1, 1, 11);
    w.register_event_system(2, 2, 12);
    let trace = run_event(&mut w, 0, false);
    assert_eq!(
        trace,
        vec![
            Ok(Step::Pending),
            Ok(Step::Run { system: 11, input: InputKind::Ref }),
            Ok(Step::Pending),
            Ok(Step::Pending),
            Ok(Step::Finished),
        ]
    );
    // The slot of a later step past the end is padded.
    assert_eq!(w.event_systems().len(), 3);
}

#[test]
fn dispatch_with_nothing_registered_pads_and_finishes() {
    let mut w = World::new();
    // A registration for another type makes the record of types in motion.
    w.register_event_system(2, 1, 11);
    let trace = run_event(&mut w, 6, true);
    assert_eq!(
        trace,
        vec![Ok(Step::Pending), Ok(Step::Pending), Ok(Step::Pending), Ok(Step::Finished)]
    );
    assert_eq!(w.event_systems().len(), 9);
    // A finished dispatch keeps reporting the end.
    let mut d = event::run_this_event_system(&w, 6, true);
    for _ in 0..4 {
        let _ = w.event_step(&mut d);
    }
    assert_eq!(w.event_step(&mut d), Ok(Step::Finished));
}

#[test]
fn a_dispatch_of_a_type_already_in_motion_proceeds() {
    let mut w = World::new();
    w.register_event_system(5, 1, 11);
    let _d = event::run_this_event_system(&w, 0, true);
    // Sending the same type again is no error: it starts like any dispatch.
    let again = w.send_event(0);
    assert_eq!(again.sid, 0);
    assert!(again.slice);
    assert_eq!(run_event(&mut w, 0, true).last(), Some(&Ok(Step::Finished)));
}

#[test]
fn only_the_first_value_system_runs_before_the_runner_stops() {
    let mut w = World::new();
    w.register_event_system(0, 1, 11);
    w.register_event_system(0, 2, 12);
    let mut d = event::run_this_event_system(&w, 0, false);
    assert_eq!(w.event_step(&mut d), Ok(Step::Pending));
    assert_eq!(w.event_step(&mut d), Ok(Step::Pending));
    assert!(!d.value_slot_overfull());
    assert_eq!(w.event_step(&mut d), Ok(Step::Run { system: 11, input: InputKind::Value }));
    // The slot held a second by-value system: no step may follow.
    assert!(d.value_slot_overfull());
}

#[test]
fn a_nested_dispatch_of_the_same_type_skips_the_held_slot() {
    let mut w = World::new();
    w.register_event_system(1, 1, 11);
    w.register_event_system(2, 2, 12);
    let mut outer = w.send_event(0);
    assert_eq!(w.event_step(&mut outer), Ok(Step::Pending));
    assert_eq!(w.event_step(&mut outer), Ok(Step::Run { system: 11, input: InputKind::Ref }));
    // While the reference system runs, it sends an event of its own type.
    let inner = run_event(&mut w, 0, true);
    assert_eq!(
        inner,
        vec![
            Ok(Step::Pending),
            Ok(Step::Pending),
            Ok(Step::Run { system: 12, input: InputKind::Slice }),
            Ok(Step::Pending),
            Ok(Step::Pending),
            Ok(Step::Finished),
        ]
    );
    // The outer dispatch goes on as if nothing happened.
    assert_eq!(w.event_step(&mut outer), Ok(Step::Pending));
    assert_eq!(entries_of_event_slot(&w, 1), vec![(11, 1)]);
    assert_eq!(w.event_step(&mut outer), Ok(Step::Pending));
    assert_eq!(w.event_step(&mut outer), Ok(Step::Run { system: 12, input: InputKind::Slice }));
}

#[test]
fn registering_into_a_taken_slot_blocks_putting_back() {
    let mut w = World::new();
    w.register_event_system(1, 1, 11);
    let mut d = event::run_this_event_system(&w, 0, false);
    assert_eq!(w.event_step(&mut d), Ok(Step::Pending));
    assert_eq!(w.event_step(&mut d), Ok(Step::Run { system: 11, input: InputKind::Ref }));
    // While the system runs, another registration for the same slot.
    assert!(!w.has_event_system(1, 2));
    w.register_event_system(1, 2, 12);
    assert_eq!(entries_of_event_slot(&w, 1), vec![(12, 2)]);
    assert_eq!(w.event_step(&mut d), Err(DispatchError::CannotPutBack { slot: 1 }));
}

#[test]
fn smol_ids_of_reference_and_slice_inputs() {
    assert_eq!(event::ref_sid(6), 7);
    assert_eq!(event::slice_sid(6), 8);
    assert_eq!(packet::ref_sid(9), 10);
    assert_eq!(packet::slice_sid(9), 11);
}

#[test]
fn packet_ids_go_up_by_three() {
    let mut w = World::new();
    assert_eq!(next_packet_id(&mut w), 0);
    assert_eq!(next_packet_id(&mut w), 3);
    assert_eq!(next_packet_id(&mut w), 6);
    assert_eq!(w.peek_packet_id(), 9);
}

#[test]
fn packet_unregister_keeps_others_in_order() {
    let mut w = World::new();
    packet::register_system(&mut w, 2, 1, 11);
    packet::register_system(&mut w, 2, 2, 12);
    packet::register_system(&mut w, 2, 3, 13);
    packet::unregister_system(&mut w, 2, 2);
    assert_eq!(entries_of_packet_slot(&w, 2), vec![(11, 1), (13, 3)]);
    // Unregistering what is not there changes nothing.
    w.unregister_packet_system(2, 9);
    assert_eq!(entries_of_packet_slot(&w, 2), vec![(11, 1), (13, 3)]);
    // Register then unregister gives back what was there.
    w.register_packet_system(2, 4, 14);
    w.unregister_packet_system(2, 4);
    assert_eq!(entries_of_packet_slot(&w, 2), vec![(11, 1), (13, 3)]);
    // An absent slot is padded and stays empty.
    w.unregister_packet_system(7, 1);
    assert_eq!(w.packet_systems().len(), 8);
    assert!(w.packet_systems().get(7).is_none());
}

#[test]
fn registered_systems_list_directly() {
    let mut s = EventSystems::default();
    assert_eq!(s.count(), 0);
    s.push_system(5, 50);
    s.push_system(6, 60);
    assert!(s.contains_system(60));
    assert!(!s.contains_system(70));
    assert_eq!(s.get(1).v, 6);
    let mut p = packet::RegisteredSystems::default();
    p.push_system(1, 10);
    p.push_system(2, 20);
    p.push_system(3, 10);
    p.retain_other(10);
    assert_eq!(p.count(), 1);
    assert_eq!(p.get(0).v, 2);
    assert!(p.contains_system(20));
    assert!(!p.contains_system(10));
}

#[test]
fn batch_without_forwarding_clears() {
    let mut w = World::new();
    w.register_event_system(5, 1, 11);
    let mut b = EventSlicer::<false>::new(3).apply(4);
    let mut out = Vec::new();
    loop {
        let r = w.event_batch_step(&mut b);
        out.push(r);
        if r == Ok(Step::Finished) || out.len() > 10 {
            break;
        }
    }
    assert_eq!(
        out,
        vec![
            Ok(Step::Pending),
            Ok(Step::Run { system: 11, input: InputKind::Slice }),
            Ok(Step::Pending),
            Ok(Step::Clear),
            Ok(Step::Finished),
        ]
    );
    assert_eq!(entries_of_event_slot(&w, 5), vec![(11, 1)]);
}

#[test]
fn batch_forwarding_hands_out_each_event() {
    let mut w = World::new();
    let mut b = PacketSlicer::new(0).apply(3);
    let mut out = Vec::new();
    loop {
        let r = w.packet_batch_step(&mut b);
        out.push(r);
        if r == Ok(Step::Finished) {
            break;
        }
    }
    assert_eq!(
        out,
        vec![
            Ok(Step::Pending),
            Ok(Step::Forward { index: 0, slice: false }),
            Ok(Step::Forward { index: 1, slice: false }),
            Ok(Step::Forward { index: 2, slice: false }),
            Ok(Step::Finished),
        ]
    );
}

#[test]
fn slice_run_alone_keeps_the_packets() {
    let mut w = World::new();
    w.register_packet_system(5, 1, 11);
    w.register_packet_system(5, 2, 12);
    let mut b = run_for_slice_packet(3, 2);
    assert_eq!(b.after, AfterSlice::Keep);
    let mut out = Vec::new();
    loop {
        let r = w.packet_batch_step(&mut b);
        out.push(r);
        if r == Ok(Step::Finished) {
            break;
        }
    }
    assert_eq!(
        out,
        vec![
            Ok(Step::Pending),
            Ok(Step::Run { system: 11, input: InputKind::Slice }),
            Ok(Step::Run { system: 12, input: InputKind::Slice }),
            Ok(Step::Pending),
            Ok(Step::Finished),
        ]
    );
}

#[test]
fn batch_slot_blocked_is_reported() {
    let mut w = World::new();
    w.register_packet_system(2, 1, 11);
    let mut b: Batch<packet::RegisteredSystems> = PacketSlicer::new(0).apply(1);
    assert_eq!(w.packet_batch_step(&mut b), Ok(Step::Pending));
    w.register_packet_system(2, 5, 15);
    assert_eq!(w.packet_batch_step(&mut b), Ok(Step::Run { system: 11, input: InputKind::Slice }));
    assert_eq!(w.packet_batch_step(&mut b), Err(DispatchError::CannotPutBack { slot: 2 }));
}

#[test]
fn cached_system_is_taken_and_given_back() {
    let mut w = World::new();
    assert_eq!(w.run_once_np_cached_with(42), None);
    w.cache_system(42, 7);
    let run = w.run_once_cached(42);
    assert_eq!((run.key, run.instance), (42, Some(7)));
    // Taken out while it runs.
    let again = w.run_once_cached_with(42);
    assert_eq!(again.instance, None);
    // The run ends: the instance goes back and the output is handed out.
    let mut sends = run.finish(&mut w, 7, 2);
    assert_eq!(sends.next(), Step::Forward { index: 0, slice: true });
    assert_eq!(sends.next(), Step::Forward { index: 1, slice: true });
    assert_eq!(sends.next(), Step::Finished);
    assert_eq!(sends.next(), Step::Finished);
    w.cache_system(42, 8);
    assert_eq!(w.run_once_np_cached_with(42), Some(8));
    // An output with nothing in it sends nothing.
    let mut none = again.finish(&mut w, 9, 0);
    assert_eq!(none.next(), Step::Finished);
    assert_eq!(w.run_once_np_cached_with(42), Some(9));
}

#[test]
fn registrations_make_the_motion_records() {
    let mut w = World::new();
    assert!(!w.has_event_motion());
    assert!(!w.has_packet_motion());
    w.register_event_system(0, 1, 11);
    // A second registration of one function still makes the record.
    let mut v = World::new();
    v.register_event_system(0, 1, 11);
    v.register_event_system(0, 1, 12);
    assert!(v.has_event_motion());
    assert!(w.has_event_motion());
    assert!(!w.has_packet_motion());
    w.register_packet_system(3, 1, 13);
    assert!(w.has_packet_motion());
    // Unregistering makes no record.
    let mut u = World::new();
    u.unregister_packet_system(3, 1);
    assert!(!u.has_packet_motion());
}

#[test]
fn packet_types_in_motion_are_recorded_until_the_dispatch_ends() {
    let mut w = World::new();
    w.register_packet_system(4, 1, 11);
    let mut d = w.send(3);
    assert!(w.packet_in_motion(3));
    // A packet of another type, sent while the first is in motion.
    let mut e = packet::run_this_packet_system(&mut w, 0, false);
    assert!(w.packet_in_motion(0));
    loop {
        if w.packet_step(&mut e) == Ok(Step::Finished) {
            break;
        }
    }
    assert!(!w.packet_in_motion(0));
    assert!(w.packet_in_motion(3));
    assert_eq!(w.packet_step(&mut d), Ok(Step::Pending));
    assert_eq!(w.packet_step(&mut d), Ok(Step::Run { system: 11, input: InputKind::Ref }));
    assert_eq!(w.packet_step(&mut d), Ok(Step::Pending));
    assert_eq!(w.packet_step(&mut d), Ok(Step::Pending));
    assert!(w.packet_in_motion(3));
    // The step that ends the dispatch takes its type off the record.
    assert_eq!(w.packet_step(&mut d), Ok(Step::Pending));
    assert!(!w.packet_in_motion(3));
    assert_eq!(w.packet_step(&mut d), Ok(Step::Finished));
    assert!(!w.packet_in_motion(3));
    // The type can be sent again.
    let _ = w.send(3);
    assert!(w.packet_in_motion(3));
}

#[test]
fn player_and_command_wrappers() {
    let mut p = Player::new((3u8, 4u8));
    p.get_mut().0 = 5;
    assert_eq!(*p.get(), (5, 4));
    p.get_mut().0 = 3;
    assert_eq!(*p.get(), (3, 4));
    assert_eq!(p.into_inner(), (3, 4));
    let mut c = WCommands::new(vec![1u8]);
    c.deref_mut().push(2);
    assert_eq!(c.deref(), &vec![1, 2]);
    let mut q = ECommands::new(vec![0u8]);
    q.deref_mut().push(9);
    assert_eq!(q.deref().len(), 2);
    assert_eq!(q.into_inner(), vec![0, 9]);
}

#[test]
fn error_values() {
    let a = EntityComponentError::MissingComponent(ComponentId(3));
    let b = EntityComponentError::AliasedMutability(ComponentId(3));
    assert_ne!(a, b);
    let e = Entity { index: 1, generation: 2 };
    assert_eq!(EntityFetchError::NoSuchEntity(e), EntityFetchError::NoSuchEntity(e));
    assert_ne!(EntityFetchError::NoSuchEntity(e), EntityFetchError::AliasedMutability(e));
}

#[test]
fn nested_dispatch_is_invisible_to_the_outer_one() {
    let setup = || {
        let mut w = World::new();
        w.register_event_system(1, 1, 11);
        w.register_event_system(1, 2, 12);
        w.register_event_system(0, 3, 13);
        w.register_event_system(4, 4, 14);
        w
    };
    let collect = |nested: bool| {
        let mut w = setup();
        let mut d = event::run_this_event_system(&w, 0, true);
        let mut out = Vec::new();
        loop {
            let r = w.event_step(&mut d);
            out.push(r);
            if nested && r == Ok(Step::Run { system: 11, input: InputKind::Ref }) {
                // The first system sends an event of another type.
                let inner = run_event(&mut w, 3, true);
                assert_eq!(inner[1], Ok(Step::Run { system: 14, input: InputKind::Ref }));
            }
            if matches!(r, Ok(Step::Finished) | Err(_)) {
                break;
            }
        }
        out
    };
    assert_eq!(collect(true), collect(false));
}
