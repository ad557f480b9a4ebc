//! What a whole dispatch does when the systems it runs leave the registry
//! alone: which systems run, in which order, and that the registry comes back
//! as it was.

use vstd::prelude::*;

use crate::dispatch::{
    batch_step, dispatch_step, has_tid, phase_after, phase_input, phase_slot, sid_fits, slot_at,
    slot_vacant, slots_wf, taken_slots, AfterSlice, Batch, BatchPhase, Dispatch, DispatchError,
    InputKind, Phase, SlotContents, Step,
};

verus! {

/// The state after `n` steps of a dispatch, and what the steps reported.
pub open spec fn dispatch_trace<S: SlotContents>(d: Dispatch<S>, slots: Seq<Option<S>>, n: nat) -> (
    Dispatch<S>,
    Seq<Option<S>>,
    Seq<Result<Step, DispatchError>>,
)
    decreases n,
{
    if n == 0 {
        (d, slots, Seq::empty())
    } else {
        let o = dispatch_step(d, slots);
        let t = dispatch_trace(o.dispatch, o.slots, (n - 1) as nat);
        (t.0, t.1, seq![o.result] + t.2)
    }
}

/// `slots` padded with empty slots up to length `n`.
pub open spec fn pad_to<S>(slots: Seq<Option<S>>, n: int) -> Seq<Option<S>> {
    if n <= slots.len() {
        slots
    } else {
        slots + Seq::new((n - slots.len()) as nat, |k: int| None::<S>)
    }
}

/// The reports of running the systems of `entries` in order, each receiving
/// its input as `input`.
pub open spec fn runs_of(entries: Seq<(u64, u64)>, input: InputKind) -> Seq<Result<Step, DispatchError>> {
    Seq::new(entries.len(), |i: int| Ok(Step::Run { system: entries[i].0, input }))
}

/// The reports of one phase whose slot holds `content`: taking the slot, then
/// (if it held systems) running them and putting them back.
pub open spec fn phase_trace<S: SlotContents>(content: Option<S>, phase: Phase) -> Seq<
    Result<Step, DispatchError>,
> {
    match content {
        None => seq![Ok(Step::Pending)],
        Some(s) => seq![Ok(Step::Pending)] + runs_of(s.entries(), phase_input(phase)) + seq![
            Ok(Step::Pending),
        ],
    }
}

/// The reports of a whole dispatch of an event of type `sid` over `slots`:
/// the by-reference systems, the slice systems (when `slice`), the by-value
/// system, and the end.
pub open spec fn send_trace<S: SlotContents>(slots: Seq<Option<S>>, sid: usize, slice: bool) -> Seq<
    Result<Step, DispatchError>,
> {
    phase_trace(slot_at(slots, sid + 1), Phase::Ref) + (if slice {
        phase_trace(slot_at(slots, sid + 2), Phase::Slice)
    } else {
        Seq::empty()
    }) + phase_trace(slot_at(slots, sid as int), Phase::Value) + seq![Ok(Step::Finished)]
}

/// Running `a` steps and then `b` more is running `a + b` steps.
proof fn lemma_trace_split<S: SlotContents>(d: Dispatch<S>, slots: Seq<Option<S>>, a: nat, b: nat)
    ensures
        ({
            let t1 = dispatch_trace(d, slots, a);
            let t2 = dispatch_trace(t1.0, t1.1, b);
            let t = dispatch_trace(d, slots, a + b);
            &&& t.0 == t2.0
            &&& t.1 == t2.1
            &&& t.2 == t1.2 + t2.2
        }),
    decreases a,
{
    if a == 0 {
        let t1 = dispatch_trace(d, slots, a);
        let t2 = dispatch_trace(t1.0, t1.1, b);
        assert(t1.2 + t2.2 =~= t2.2);
    } else {
        let o = dispatch_step(d, slots);
        lemma_trace_split(o.dispatch, o.slots, (a - 1) as nat, b);
        let t1 = dispatch_trace(d, slots, a);
        let r1 = dispatch_trace(o.dispatch, o.slots, (a - 1) as nat);
        let t2 = dispatch_trace(t1.0, t1.1, b);
        assert((a + b - 1) as nat == (a - 1) as nat + b);
        assert(seq![o.result] + (r1.2 + t2.2) =~= (seq![o.result] + r1.2) + t2.2);
    }
}

/// While the held systems last, each step hands out the next one.
proof fn lemma_runs<S: SlotContents>(d: Dispatch<S>, s: S, slots: Seq<Option<S>>, k: nat)
    requires
        d.held == Some(s),
        s.wf(),
        d.phase == Phase::Ref || d.phase == Phase::Slice || d.phase == Phase::Value,
        d.cursor + k <= s.entries().len(),
        d.phase == Phase::Value ==> s.entries().len() <= 1,
    ensures
        ({
            let t = dispatch_trace(d, slots, k);
            &&& t.0 == Dispatch::<S> {
                sid: d.sid,
                slice: d.slice,
                phase: d.phase,
                held: d.held,
                cursor: (d.cursor + k) as usize,
            }
            &&& t.1 == slots
            &&& t.2 == Seq::new(
                k,
                |i: int|
                    Ok::<Step, DispatchError>(
                        Step::Run {
                            system: s.entries()[d.cursor + i].0,
                            input: phase_input(d.phase),
                        },
                    ),
            )
        }),
    decreases k,
{
    s.lemma_wf_bounded();
    let expected = Seq::new(
        k,
        |i: int|
            Ok::<Step, DispatchError>(
                Step::Run { system: s.entries()[d.cursor + i].0, input: phase_input(d.phase) },
            ),
    );
    if k == 0 {
        assert(dispatch_trace(d, slots, k).2 =~= expected);
    } else {
        let o = dispatch_step(d, slots);
        lemma_runs(o.dispatch, s, slots, (k - 1) as nat);
        assert(dispatch_trace(d, slots, k).2 =~= expected);
    }
}

/// Padding keeps what every slot holds, and keeps the slots consistent.
proof fn lemma_pad_keeps<S: SlotContents>(slots: Seq<Option<S>>, n: int)
    requires
        slots_wf(slots),
    ensures
        forall|i: int| #[trigger] slot_at(pad_to(slots, n), i) == slot_at(slots, i),
        slots_wf(pad_to(slots, n)),
{
    let p = pad_to(slots, n);
    assert forall|i: int| #[trigger] slot_at(p, i) == slot_at(slots, i) by {
        if n > slots.len() && slots.len() <= i < p.len() {
            assert(p[i] == None::<S>);
        } else if 0 <= i < slots.len() && n > slots.len() {
            assert(p[i] == slots[i]);
        }
    }
    assert forall|i: int| 0 <= i < p.len() && #[trigger] p[i] is Some implies p[i]->0.wf() by {
        assert(slot_at(p, i) == slot_at(slots, i));
    }
}

/// Padding twice pads to the longer length.
proof fn lemma_pad_pad<S>(slots: Seq<Option<S>>, a: int, b: int)
    ensures
        pad_to(pad_to(slots, a), b) == pad_to(slots, if a < b { b } else { a }),
{
    let m = if a < b { b } else { a };
    assert(pad_to(pad_to(slots, a), b) =~= pad_to(slots, m));
}

/// One phase of a dispatch, left alone, takes its slot, runs its systems in
/// order and puts them back, leaving the slots as they were up to padding.
proof fn lemma_phase<S: SlotContents>(d: Dispatch<S>, slots: Seq<Option<S>>)
    requires
        d.wf(),
        d.phase == Phase::Ref || d.phase == Phase::Slice || d.phase == Phase::Value,
        d.held is None,
        slots_wf(slots),
        d.phase == Phase::Value ==> crate::dispatch::slot_entries(slots, d.sid as int).len() <= 1,
    ensures
        ({
            let slot = phase_slot(d.sid, d.phase);
            let tr = phase_trace(slot_at(slots, slot), d.phase);
            let t = dispatch_trace(d, slots, tr.len());
            &&& t.0 == Dispatch::<S> {
                sid: d.sid,
                slice: d.slice,
                phase: phase_after(d.phase, d.slice),
                held: None,
                cursor: 0,
            }
            &&& t.1 == pad_to(slots, slot + 1)
            &&& t.2 == tr
        }),
{
    let slot = phase_slot(d.sid, d.phase);
    let c = slot_at(slots, slot);
    let tr = phase_trace(c, d.phase);
    match c {
        None => {
            let o = dispatch_step(d, slots);
            assert(o.slots =~= pad_to(slots, slot + 1));
            let z = dispatch_trace(o.dispatch, o.slots, 0);
            assert(dispatch_trace(d, slots, tr.len()).2 =~= tr);
        },
        Some(s) => {
            let n = s.entries().len();
            s.lemma_wf_bounded();
            // Taking the slot.
            let o1 = dispatch_step(d, slots);
            let d1 = o1.dispatch;
            let slots1 = o1.slots;
            assert(slots1 == slots.update(slot, None));
            let z1 = dispatch_trace(d1, slots1, 0);
            assert(dispatch_trace(d, slots, 1).2 =~= seq![Ok::<Step, DispatchError>(Step::Pending)]);
            // Running the systems.
            lemma_runs(d1, s, slots1, n);
            let t2 = dispatch_trace(d1, slots1, n);
            let d2 = t2.0;
            // Putting them back.
            let o3 = dispatch_step(d2, slots1);
            assert(slot_vacant(slots1, slot));
            assert(o3.slots =~= slots);
            let z3 = dispatch_trace(o3.dispatch, o3.slots, 0);
            assert(o3.result == Ok::<Step, DispatchError>(Step::Pending));
            assert(dispatch_trace(d2, slots1, 1).2 =~= seq![Ok::<Step, DispatchError>(Step::Pending)]);
            lemma_trace_split(d, slots, 1, n);
            lemma_trace_split(d, slots, 1 + n, 1);
            assert(runs_of(s.entries(), phase_input(d.phase)) =~= t2.2);
            assert(pad_to(slots, slot + 1) == slots);
            assert(tr.len() == 1 + n + 1);
            assert(dispatch_trace(d, slots, tr.len()).2 =~= tr);
        },
    }
}

/// The dispatch of an event of type `sid`, when the systems it runs leave the
/// registry alone, reports exactly [`send_trace`]: every system that takes the
/// event by reference, in registration order, then (when `slice`) every slice
/// system, then the by-value system, then the end. The registry comes back as
/// it was, padded with empty slots up to the slots it took. The by-value slot
/// holds at most one system: with more, no step may follow the run of the
/// first.
pub proof fn lemma_send_dispatches_in_order<S: SlotContents>(
    slots: Seq<Option<S>>,
    sid: usize,
    slice: bool,
)
    requires
        slots_wf(slots),
        sid_fits(sid),
        crate::dispatch::slot_entries(slots, sid as int).len() <= 1,
    ensures
        ({
            let tr = send_trace(slots, sid, slice);
            let t = dispatch_trace(
                Dispatch::<S> { sid, slice, phase: Phase::Ref, held: None, cursor: 0 },
                slots,
                tr.len(),
            );
            &&& t.2 == tr
            &&& t.1 == pad_to(slots, if slice { sid + 3 } else { sid + 2 })
            &&& t.0.phase == Phase::Done
        }),
{
    let d0 = Dispatch::<S> { sid, slice, phase: Phase::Ref, held: None, cursor: 0 };
    // The by-reference phase.
    let tr_ref = phase_trace(slot_at(slots, sid + 1), Phase::Ref);
    lemma_phase(d0, slots);
    let t1 = dispatch_trace(d0, slots, tr_ref.len());
    let slots1 = pad_to(slots, sid + 2);
    lemma_pad_keeps(slots, sid + 2);
    // The slice phase, when asked for.
    let tr_slice: Seq<Result<Step, DispatchError>> = if slice {
        phase_trace(slot_at(slots, sid + 2), Phase::Slice)
    } else {
        Seq::empty()
    };
    let t2 = dispatch_trace(t1.0, t1.1, tr_slice.len());
    let slots2 = pad_to(slots, if slice { sid + 3 } else { sid + 2 });
    if slice {
        lemma_phase(t1.0, slots1);
        lemma_pad_pad(slots, sid + 2, sid + 3);
        assert(t2.1 == slots2);
    } else {
        assert(t2.2 =~= tr_slice);
    }
    assert(t2.0 == Dispatch::<S> { sid, slice, phase: Phase::Value, held: None, cursor: 0 });
    lemma_pad_keeps(slots, if slice { sid + 3 } else { sid + 2 });
    // The by-value phase.
    let tr_val = phase_trace(slot_at(slots, sid as int), Phase::Value);
    assert(slot_at(slots2, sid as int) == slot_at(slots, sid as int));
    lemma_phase(t2.0, slots2);
    let t3 = dispatch_trace(t2.0, t2.1, tr_val.len());
    lemma_pad_pad(slots, if slice { sid + 3 } else { sid + 2 }, sid + 1);
    assert(t3.1 == slots2);
    // The end.
    let o4 = dispatch_step(t3.0, t3.1);
    let z4 = dispatch_trace(o4.dispatch, o4.slots, 0);
    assert(dispatch_trace(t3.0, t3.1, 1).2 =~= seq![Ok::<Step, DispatchError>(Step::Finished)]);
    // Putting the pieces together.
    lemma_trace_split(d0, slots, tr_ref.len(), tr_slice.len());
    lemma_trace_split(d0, slots, tr_ref.len() + tr_slice.len(), tr_val.len());
    lemma_trace_split(d0, slots, tr_ref.len() + tr_slice.len() + tr_val.len(), 1);
    let tr = send_trace(slots, sid, slice);
    assert(tr == tr_ref + tr_slice + tr_val + seq![Ok::<Step, DispatchError>(Step::Finished)]);
    assert(tr.len() == tr_ref.len() + tr_slice.len() + tr_val.len() + 1);
    assert(dispatch_trace(d0, slots, tr.len()).2 =~= tr);
}

/// The state after `n` steps of handling a batch, and what the steps reported.
pub open spec fn batch_trace<S: SlotContents>(b: Batch<S>, slots: Seq<Option<S>>, n: nat) -> (
    Batch<S>,
    Seq<Option<S>>,
    Seq<Result<Step, DispatchError>>,
)
    decreases n,
{
    if n == 0 {
        (b, slots, Seq::empty())
    } else {
        let o = batch_step(b, slots);
        let t = batch_trace(o.batch, o.slots, (n - 1) as nat);
        (t.0, t.1, seq![o.result] + t.2)
    }
}

/// The reports of handing out buffered events `from..count`, each to be
/// dispatched on its own without its slice systems.
pub open spec fn forwards_from(from: int, count: int) -> Seq<Result<Step, DispatchError>> {
    Seq::new((count - from) as nat, |i: int| Ok(Step::Forward { index: (from + i) as usize, slice: false }))
}

/// The reports of handling `count` buffered events whose slice systems live
/// in slot `slot` of `slots`: the slice systems run over the whole batch,
/// then every event is handed out in order, or the batch is cleared, or kept.
pub open spec fn batch_expected<S: SlotContents>(
    slots: Seq<Option<S>>,
    slot: usize,
    count: usize,
    after: AfterSlice,
) -> Seq<Result<Step, DispatchError>> {
    phase_trace(slot_at(slots, slot as int), Phase::Slice) + match after {
        AfterSlice::Forward => forwards_from(0, count as int) + seq![Ok(Step::Finished)],
        AfterSlice::Clear => seq![Ok(Step::Clear)],
        AfterSlice::Keep => seq![Ok(Step::Finished)],
    }
}

/// Running `a` steps of a batch and then `b` more is running `a + b` steps.
proof fn lemma_batch_split<S: SlotContents>(b: Batch<S>, slots: Seq<Option<S>>, x: nat, y: nat)
    ensures
        ({
            let t1 = batch_trace(b, slots, x);
            let t2 = batch_trace(t1.0, t1.1, y);
            let t = batch_trace(b, slots, x + y);
            &&& t.0 == t2.0
            &&& t.1 == t2.1
            &&& t.2 == t1.2 + t2.2
        }),
    decreases x,
{
    if x == 0 {
        let t1 = batch_trace(b, slots, x);
        let t2 = batch_trace(t1.0, t1.1, y);
        assert(t1.2 + t2.2 =~= t2.2);
    } else {
        let o = batch_step(b, slots);
        lemma_batch_split(o.batch, o.slots, (x - 1) as nat, y);
        let t1 = batch_trace(b, slots, x);
        let r1 = batch_trace(o.batch, o.slots, (x - 1) as nat);
        let t2 = batch_trace(t1.0, t1.1, y);
        assert((x + y - 1) as nat == (x - 1) as nat + y);
        assert(seq![o.result] + (r1.2 + t2.2) =~= (seq![o.result] + r1.2) + t2.2);
    }
}

/// While the held slice systems last, each step hands out the next one.
proof fn lemma_batch_runs<S: SlotContents>(b: Batch<S>, s: S, slots: Seq<Option<S>>, k: nat)
    requires
        b.held == Some(s),
        s.wf(),
        b.phase == BatchPhase::Systems,
        b.cursor + k <= s.entries().len(),
    ensures
        ({
            let t = batch_trace(b, slots, k);
            &&& t.0 == Batch::<S> {
                slot: b.slot,
                count: b.count,
                after: b.after,
                phase: BatchPhase::Systems,
                held: b.held,
                cursor: (b.cursor + k) as usize,
            }
            &&& t.1 == slots
            &&& t.2 == Seq::new(
                k,
                |i: int|
                    Ok::<Step, DispatchError>(
                        Step::Run { system: s.entries()[b.cursor + i].0, input: InputKind::Slice },
                    ),
            )
        }),
    decreases k,
{
    s.lemma_wf_bounded();
    let expected = Seq::new(
        k,
        |i: int|
            Ok::<Step, DispatchError>(
                Step::Run { system: s.entries()[b.cursor + i].0, input: InputKind::Slice },
            ),
    );
    if k == 0 {
        assert(batch_trace(b, slots, k).2 =~= expected);
    } else {
        let o = batch_step(b, slots);
        lemma_batch_runs(o.batch, s, slots, (k - 1) as nat);
        assert(batch_trace(b, slots, k).2 =~= expected);
    }
}

/// While buffered events remain, each step hands out the next one.
proof fn lemma_batch_forwards<S: SlotContents>(b: Batch<S>, slots: Seq<Option<S>>, k: nat)
    requires
        b.phase == BatchPhase::Forward,
        b.after == AfterSlice::Forward,
        b.cursor + k <= b.count,
    ensures
        ({
            let t = batch_trace(b, slots, k);
            &&& t.0 == Batch::<S> {
                slot: b.slot,
                count: b.count,
                after: b.after,
                phase: BatchPhase::Forward,
                held: b.held,
                cursor: (b.cursor + k) as usize,
            }
            &&& t.1 == slots
            &&& t.2 == forwards_from(b.cursor as int, b.cursor + k)
        }),
    decreases k,
{
    if k == 0 {
        assert(batch_trace(b, slots, k).2 =~= forwards_from(b.cursor as int, b.cursor + k));
    } else {
        let o = batch_step(b, slots);
        lemma_batch_forwards(o.batch, slots, (k - 1) as nat);
        assert(batch_trace(b, slots, k).2 =~= forwards_from(b.cursor as int, b.cursor + k));
    }
}

/// Handling a batch of `count` buffered events, when the systems it runs
/// leave the registry alone, reports exactly [`batch_expected`]: every slice
/// system of the slot runs once over the whole batch, in registration order;
/// then the events are handed out one by one in buffer order (forwarding),
/// cleared, or kept. The registry comes back as it was, padded with empty
/// slots up to the slot it took.
pub proof fn lemma_batch_runs_slice_systems_then_forwards<S: SlotContents>(
    slots: Seq<Option<S>>,
    slot: usize,
    count: usize,
    after: AfterSlice,
)
    requires
        slots_wf(slots),
        slot < usize::MAX,
    ensures
        ({
            let tr = batch_expected(slots, slot, count, after);
            let t = batch_trace(
                Batch::<S> { slot, count, after, phase: BatchPhase::Systems, held: None, cursor: 0 },
                slots,
                tr.len(),
            );
            &&& t.2 == tr
            &&& t.1 == pad_to(slots, slot + 1)
            &&& t.0.phase == BatchPhase::Done
        }),
{
    let b0 = Batch::<S> { slot, count, after, phase: BatchPhase::Systems, held: None, cursor: 0 };
    let c = slot_at(slots, slot as int);
    let tr_sys = phase_trace(c, Phase::Slice);
    // The slice systems.
    match c {
        None => {
            let o = batch_step(b0, slots);
            assert(o.slots =~= pad_to(slots, slot + 1));
            let z = batch_trace(o.batch, o.slots, 0);
            assert(batch_trace(b0, slots, 1).2 =~= tr_sys);
        },
        Some(s) => {
            s.lemma_wf_bounded();
            let n = s.entries().len();
            let o1 = batch_step(b0, slots);
            let slots1 = o1.slots;
            assert(slots1 == slots.update(slot as int, None));
            let z1 = batch_trace(o1.batch, slots1, 0);
            assert(batch_trace(b0, slots, 1).2 =~= seq![Ok::<Step, DispatchError>(Step::Pending)]);
            lemma_batch_runs(o1.batch, s, slots1, n);
            let t2 = batch_trace(o1.batch, slots1, n);
            let o3 = batch_step(t2.0, slots1);
            assert(slot_vacant(slots1, slot as int));
            assert(o3.slots =~= slots);
            let z3 = batch_trace(o3.batch, o3.slots, 0);
            assert(batch_trace(t2.0, slots1, 1).2 =~= seq![Ok::<Step, DispatchError>(Step::Pending)]);
            lemma_batch_split(b0, slots, 1, n);
            lemma_batch_split(b0, slots, 1 + n, 1);
            assert(runs_of(s.entries(), InputKind::Slice) =~= t2.2);
            assert(pad_to(slots, slot + 1) == slots);
            assert(batch_trace(b0, slots, tr_sys.len()).2 =~= tr_sys);
        },
    }
    let t1 = batch_trace(b0, slots, tr_sys.len());
    assert(t1.0 == Batch::<S> { slot, count, after, phase: BatchPhase::Forward, held: None, cursor: 0 });
    assert(t1.1 == pad_to(slots, slot + 1));
    // What becomes of the batch.
    let tr_end: Seq<Result<Step, DispatchError>> = match after {
        AfterSlice::Forward => forwards_from(0, count as int) + seq![Ok(Step::Finished)],
        AfterSlice::Clear => seq![Ok(Step::Clear)],
        AfterSlice::Keep => seq![Ok(Step::Finished)],
    };
    match after {
        AfterSlice::Forward => {
            lemma_batch_forwards(t1.0, t1.1, count as nat);
            let tf = batch_trace(t1.0, t1.1, count as nat);
            let o = batch_step(tf.0, tf.1);
            let z = batch_trace(o.batch, o.slots, 0);
            assert(batch_trace(tf.0, tf.1, 1).2 =~= seq![Ok::<Step, DispatchError>(Step::Finished)]);
            lemma_batch_split(t1.0, t1.1, count as nat, 1);
            assert(batch_trace(t1.0, t1.1, tr_end.len()).2 =~= tr_end);
        },
        _ => {
            let o = batch_step(t1.0, t1.1);
            let z = batch_trace(o.batch, o.slots, 0);
            assert(batch_trace(t1.0, t1.1, tr_end.len()).2 =~= tr_end);
        },
    }
    lemma_batch_split(b0, slots, tr_sys.len(), tr_end.len());
    let tr = batch_expected(slots, slot, count, after);
    assert(tr =~= tr_sys + tr_end);
}


/// Taking a slot that holds systems and putting them back leaves the slots
/// as they were.
pub proof fn lemma_take_put_back_restores<S>(slots: Seq<Option<S>>, i: int)
    requires
        slot_at(slots, i) is Some,
    ensures
        taken_slots(slots, i).update(i, slot_at(slots, i)) == slots,
{
    assert(taken_slots(slots, i).update(i, slot_at(slots, i)) =~= slots);
}

/// Smol ids handed out by the packet counter (multiples of three) give
/// distinct packet types disjoint slots: the packet, a reference to it and a
/// slice of packets never share a slot with another packet type's.
pub proof fn lemma_packet_slots_disjoint(a: int, b: int, i: int, j: int)
    requires
        a % 3 == 0,
        b % 3 == 0,
        a != b,
        0 <= i < 3,
        0 <= j < 3,
    ensures
        a + i != b + j,
{
}

/// Registering a function that is already registered for an event slot
/// changes nothing, whichever system instance comes with it.
pub proof fn lemma_event_register_idempotent(
    entries: Seq<(u64, u64)>,
    first: u64,
    second: u64,
    tid: u64,
)
    ensures
        crate::event::registered_entries(
            crate::event::registered_entries(entries, first, tid),
            second,
            tid,
        ) == crate::event::registered_entries(entries, first, tid),
{
    let once = crate::event::registered_entries(entries, first, tid);
    if !has_tid(entries, tid) {
        assert(once[entries.len() as int].1 == tid);
    }
}

/// In consistent event registrations no two systems come from the same
/// function, and the map from type key to position holds exactly one key per
/// registered system.
pub proof fn lemma_event_type_keys_distinct(s: crate::event::RegisteredSystems)
    requires
        s.wf(),
    ensures
        forall|i: int, j: int|
            0 <= i < j < s.entries().len() ==> #[trigger] s.entries()[i].1 != #[trigger] s.entries()[j].1,
        s.tid@.len() == s.entries().len(),
{
    broadcast use vstd::std_specs::hash::group_hash_axioms;

    let items = s.entries();
    assert forall|i: int, j: int|
        0 <= i < j < items.len() implies #[trigger] items[i].1 != #[trigger] items[j].1 by {
        assert(s.tid@.contains_key(items[i].1));
        assert(s.tid@.contains_key(items[j].1));
    }
    let keys = items.map_values(|e: (u64, u64)| e.1);
    assert(keys.no_duplicates()) by {
        assert forall|i: int, j: int| 0 <= i < keys.len() && 0 <= j < keys.len() && i != j implies keys[i] != keys[j] by {
            if i < j {
                assert(items[i].1 != items[j].1);
            } else {
                assert(items[j].1 != items[i].1);
            }
        }
    }
    keys.unique_seq_to_set();
    assert(s.tid@.dom() =~= keys.to_set()) by {
        assert forall|k: u64| s.tid@.dom().contains(k) implies keys.to_set().contains(k) by {
            assert(s.tid@.contains_key(k));
            let i = s.tid@[k] as int;
            assert(keys[i] == k);
        }
        assert forall|k: u64| keys.to_set().contains(k) implies s.tid@.dom().contains(k) by {
            let i = choose|i: int| 0 <= i < keys.len() && keys[i] == k;
            assert(items[i].1 == k);
            assert(s.tid@.contains_key(items[i].1));
        }
    }
}

/// The record of packet types in motion comes back as it was once a dispatch
/// ends: its type was absent when it started and pushed, and taking the type
/// off again gives back the record from before. Dispatches of other types
/// that started and ended meanwhile leave it in the same state.
pub proof fn lemma_packet_motion_restored(list: Seq<usize>, sid: usize)
    requires
        !list.contains(sid),
    ensures
        crate::world::motion_removed(list.push(sid), sid) == list,
{
    let l = list.push(sid);
    let n = list.len() as int;
    assert(l[n] == sid);
    assert forall|j: int| 0 <= j < n implies l[j] != sid by {
        assert(l[j] == list[j]);
    }
    assert(exists|m: int| 0 <= m < l.len() && l[m] == sid && forall|j: int| 0 <= j < m ==> l[j] != sid);
    let k = crate::world::first_index_of(l, sid);
    if k < n {
        assert(l[k] != sid);
    }
    assert(k == n);
    assert(l.update(n, l.last()).drop_last() =~= list);
}

/// Unregistering a function drops every system made from it.
pub proof fn lemma_unregister_removes_all(entries: Seq<(u64, u64)>, tid: u64)
    ensures
        !has_tid(entries.filter(|e: (u64, u64)| e.1 != tid), tid),
{
    let f = entries.filter(|e: (u64, u64)| e.1 != tid);
    assert forall|i: int| 0 <= i < f.len() implies #[trigger] f[i].1 != tid by {
        entries.lemma_filter_pred(|e: (u64, u64)| e.1 != tid, i);
    }
}

/// Registering a packet system and then unregistering its function gives
/// back the systems registered before.
pub proof fn lemma_unregister_undoes_register(entries: Seq<(u64, u64)>, system: u64, tid: u64)
    requires
        !has_tid(entries, tid),
    ensures
        entries.push((system, tid)).filter(|e: (u64, u64)| e.1 != tid) == entries,
{
    let p = |e: (u64, u64)| e.1 != tid;
    reveal_with_fuel(Seq::filter, 1);
    assert(entries.push((system, tid)).drop_last() =~= entries);
    assert(entries.filter(p) == entries) by {
        lemma_filter_keeps_all(entries, tid);
    }
}

/// Filtering out a type key that no entry has keeps every entry.
proof fn lemma_filter_keeps_all(entries: Seq<(u64, u64)>, tid: u64)
    requires
        !has_tid(entries, tid),
    ensures
        entries.filter(|e: (u64, u64)| e.1 != tid) == entries,
    decreases entries.len(),
{
    let p = |e: (u64, u64)| e.1 != tid;
    reveal_with_fuel(Seq::filter, 1);
    if entries.len() > 0 {
        let rest = entries.drop_last();
        assert forall|i: int| 0 <= i < rest.len() implies #[trigger] rest[i].1 != tid by {
            assert(rest[i] == entries[i]);
            assert(entries[i].1 != tid);
        }
        lemma_filter_keeps_all(rest, tid);
        assert(entries.last().1 != tid) by {
            assert(entries[entries.len() - 1].1 != tid);
        }
        assert(rest.push(entries.last()) =~= entries);
    }
}


/// Taking a cached system out for a run and handing the same instance back
/// leaves the cache as it was.
pub proof fn lemma_cached_run_restores_cache(cache: Map<u64, u64>, key: u64)
    requires
        cache.contains_key(key),
    ensures
        cache.remove(key).insert(key, cache[key]) == cache,
{
    assert(cache.remove(key).insert(key, cache[key]) =~= cache);
}


/// A dispatch that holds the systems of a slot keeps that slot empty in the
/// table, ready to take them back.
pub open spec fn holds_taken_slot<S>(d: Dispatch<S>, slots: Seq<Option<S>>) -> bool {
    (d.phase == Phase::Ref || d.phase == Phase::Slice || d.phase == Phase::Value) && d.held is Some
        ==> slot_vacant(slots, phase_slot(d.sid, d.phase))
}

/// One step over a padded table is the same step, over the padded result.
proof fn lemma_step_padded<S: SlotContents>(d: Dispatch<S>, slots: Seq<Option<S>>, k: int)
    requires
        holds_taken_slot(d, slots),
    ensures
        ({
            let o1 = dispatch_step(d, pad_to(slots, k));
            let o2 = dispatch_step(d, slots);
            &&& o1.dispatch == o2.dispatch
            &&& o1.result == o2.result
            &&& o1.slots == pad_to(o2.slots, k)
            &&& holds_taken_slot(o2.dispatch, o2.slots)
        }),
{
    let p = pad_to(slots, k);
    let slot = phase_slot(d.sid, d.phase);
    assert forall|i: int| #[trigger] slot_at(p, i) == slot_at(slots, i) by {
        if k > slots.len() && slots.len() <= i < p.len() {
            assert(p[i] == None::<S>);
        } else if 0 <= i < slots.len() && k > slots.len() {
            assert(p[i] == slots[i]);
        }
    }
    if d.phase == Phase::Ref || d.phase == Phase::Slice || d.phase == Phase::Value {
        match d.held {
            None => {
                assert(taken_slots(p, slot) =~= pad_to(taken_slots(slots, slot), k));
            },
            Some(s) => {
                assert(slot_vacant(p, slot));
                assert(p.update(slot, Some(s)) =~= pad_to(slots.update(slot, Some(s)), k));
            },
        }
    }
}

/// Steps over a padded table report what they report over the table itself.
proof fn lemma_trace_padded<S: SlotContents>(d: Dispatch<S>, slots: Seq<Option<S>>, k: int, n: nat)
    requires
        holds_taken_slot(d, slots),
    ensures
        ({
            let t1 = dispatch_trace(d, pad_to(slots, k), n);
            let t2 = dispatch_trace(d, slots, n);
            &&& t1.0 == t2.0
            &&& t1.1 == pad_to(t2.1, k)
            &&& t1.2 == t2.2
        }),
    decreases n,
{
    if n > 0 {
        lemma_step_padded(d, slots, k);
        let o2 = dispatch_step(d, slots);
        lemma_trace_padded(o2.dispatch, o2.slots, k, (n - 1) as nat);
    }
}

/// A dispatch that runs to its end while a system of an outer dispatch runs
/// (and whose own systems leave the registry alone) is invisible to the outer
/// dispatch: whatever number of steps the outer dispatch takes afterwards,
/// they report what they would have reported had the inner dispatch not
/// happened. The inner event may be of the outer one's type; the slot the
/// outer dispatch holds is then empty to it.
pub proof fn lemma_nested_dispatch_invisible<S: SlotContents>(
    outer: Dispatch<S>,
    slots: Seq<Option<S>>,
    sid: usize,
    slice: bool,
    n: nat,
)
    requires
        slots_wf(slots),
        holds_taken_slot(outer, slots),
        sid_fits(sid),
        crate::dispatch::slot_entries(slots, sid as int).len() <= 1,
    ensures
        ({
            let inner = dispatch_trace(
                Dispatch::<S> { sid, slice, phase: Phase::Ref, held: None, cursor: 0 },
                slots,
                send_trace(slots, sid, slice).len(),
            );
            dispatch_trace(outer, inner.1, n).2 == dispatch_trace(outer, slots, n).2
        }),
{
    lemma_send_dispatches_in_order(slots, sid, slice);
    let k = if slice { sid + 3 } else { sid + 2 };
    lemma_trace_padded(outer, slots, k, n);
}

/// A dispatch nested in one of the same type, while the outer one runs the
/// systems of a slot, finds that slot empty: none of its systems run again.
pub proof fn lemma_same_type_nested_skips_held_slot<S: SlotContents>(
    outer: Dispatch<S>,
    slots: Seq<Option<S>>,
)
    requires
        holds_taken_slot(outer, slots),
        outer.phase == Phase::Ref || outer.phase == Phase::Slice || outer.phase == Phase::Value,
        outer.held is Some,
    ensures
        phase_trace(slot_at(slots, phase_slot(outer.sid, outer.phase)), outer.phase) == seq![
            Ok::<Step, DispatchError>(Step::Pending),
        ],
{
}

/// Every step of a dispatch keeps the slot it holds empty in the table.
pub proof fn lemma_step_keeps_taken_slot<S: SlotContents>(d: Dispatch<S>, slots: Seq<Option<S>>)
    requires
        holds_taken_slot(d, slots),
    ensures
        ({
            let o = dispatch_step(d, slots);
            holds_taken_slot(o.dispatch, o.slots)
        }),
{
    lemma_step_padded(d, slots, 0);
}

/// The batch that a packet slicer or a packet vector starts for `n` packets
/// of type `sid`, stepped to its end with the registry left alone, runs the
/// slice systems of that type and then hands out every one of the `n`
/// packets on its own, without its slice systems, in order: one forward for
/// each index below `n`, and next the end.
pub proof fn lemma_packet_batch_forwards_every_packet(
    slots: Seq<Option<crate::packet::RegisteredSystems>>,
    sid: usize,
    n: usize,
)
    requires
        slots_wf(slots),
        sid_fits(sid),
    ensures
        ({
            let systems = phase_trace(slot_at(slots, sid + 2), Phase::Slice);
            let forwards = Seq::new(
                n as nat,
                |i: int| Ok::<Step, DispatchError>(Step::Forward { index: i as usize, slice: false }),
            );
            let tr = systems + forwards + seq![Ok::<Step, DispatchError>(Step::Finished)];
            let t = batch_trace(crate::packet::forwarding_batch(sid, n), slots, tr.len());
            &&& t.2 == tr
            &&& t.0.phase == BatchPhase::Done
        }),
{
    let slot = (sid + 2) as usize;
    lemma_batch_runs_slice_systems_then_forwards(slots, slot, n, AfterSlice::Forward);
    let forwards = Seq::new(
        n as nat,
        |i: int| Ok::<Step, DispatchError>(Step::Forward { index: i as usize, slice: false }),
    );
    assert(forwards_from(0, n as int) =~= forwards);
    let systems = phase_trace(slot_at(slots, sid + 2), Phase::Slice);
    assert(batch_expected(slots, slot, n, AfterSlice::Forward) =~= systems + forwards + seq![
        Ok::<Step, DispatchError>(Step::Finished),
    ]);
}

/// Registering an event system whose function is not yet registered for a
/// slot appends exactly that system, with its type key, after the systems
/// already there, whatever they are.
pub proof fn lemma_register_appends_new_function(entries: Seq<(u64, u64)>, system: u64, tid: u64)
    requires
        !has_tid(entries, tid),
    ensures
        crate::event::registered_entries(entries, system, tid).len() == entries.len() + 1,
        crate::event::registered_entries(entries, system, tid).last() == (system, tid),
        crate::event::registered_entries(entries, system, tid).drop_last() == entries,
{
    assert(entries.push((system, tid)).drop_last() =~= entries);
}

/// The record of packet types in motion after `n` steps of the packet
/// dispatch `d` from `list`, each step changing it as
/// [`crate::world::World::packet_step`] does.
pub open spec fn motion_over(
    d: Dispatch<crate::packet::RegisteredSystems>,
    slots: Seq<Option<crate::packet::RegisteredSystems>>,
    list: Seq<usize>,
    n: nat,
) -> Seq<usize>
    decreases n,
{
    if n == 0 {
        list
    } else {
        let o = dispatch_step(d, slots);
        let next = if crate::dispatch::ends_dispatch(d, slots) {
            crate::world::motion_removed(list, d.sid)
        } else {
            list
        };
        motion_over(o.dispatch, o.slots, next, (n - 1) as nat)
    }
}

/// Along any steps of a packet dispatch, the record of packet types in motion
/// changes exactly once, when the dispatch reaches its end: it loses the
/// dispatch's type then, whatever the by-value slot held, and is untouched
/// otherwise.
pub proof fn lemma_motion_changes_once_at_the_end(
    d: Dispatch<crate::packet::RegisteredSystems>,
    slots: Seq<Option<crate::packet::RegisteredSystems>>,
    list: Seq<usize>,
    n: nat,
)
    ensures
        motion_over(d, slots, list, n) == (if d.phase != Phase::Done && dispatch_trace(
            d,
            slots,
            n,
        ).0.phase == Phase::Done {
            crate::world::motion_removed(list, d.sid)
        } else {
            list
        }),
        dispatch_trace(d, slots, n).0.sid == d.sid,
        d.phase == Phase::Done ==> dispatch_trace(d, slots, n).0.phase == Phase::Done,
    decreases n,
{
    if n > 0 {
        let o = dispatch_step(d, slots);
        let next = if crate::dispatch::ends_dispatch(d, slots) {
            crate::world::motion_removed(list, d.sid)
        } else {
            list
        };
        lemma_motion_changes_once_at_the_end(o.dispatch, o.slots, next, (n - 1) as nat);
    }
}

/// A whole packet dispatch, from the send that records its type as in motion
/// to its end, with the registry left alone, gives the record back as it was
/// before the send, whatever the slots hold: the step that ends the dispatch
/// always takes its type off again.
pub proof fn lemma_packet_send_restores_motion(
    slots: Seq<Option<crate::packet::RegisteredSystems>>,
    sid: usize,
    slice: bool,
    list: Seq<usize>,
)
    requires
        slots_wf(slots),
        sid_fits(sid),
        crate::dispatch::slot_entries(slots, sid as int).len() <= 1,
        !list.contains(sid),
    ensures
        ({
            let d = Dispatch::<crate::packet::RegisteredSystems> {
                sid,
                slice,
                phase: Phase::Ref,
                held: None,
                cursor: 0,
            };
            motion_over(d, slots, list.push(sid), send_trace(slots, sid, slice).len()) == list
        }),
{
    let d = Dispatch::<crate::packet::RegisteredSystems> {
        sid,
        slice,
        phase: Phase::Ref,
        held: None,
        cursor: 0,
    };
    let n = send_trace(slots, sid, slice).len();
    lemma_send_dispatches_in_order(slots, sid, slice);
    lemma_motion_changes_once_at_the_end(d, slots, list.push(sid), n);
    lemma_packet_motion_restored(list, sid);
}

} // verus!
