//! The machinery shared by events and packets.
//!
//! A world keeps, for each input slot, the systems registered for it. An
//! event type with smol id `sid` owns three slots: `sid` for systems that take
//! the event by value, `sid + 1` for systems that take it by reference and
//! `sid + 2` for systems that take a slice of events.
//!
//! Sending an event runs the by-reference systems, next (when asked) the slice
//! systems with a one-element slice, and last the by-value system. Each slot
//! is taken out of the table while its systems run and put back afterwards, so
//! systems that a run registers or sends meet a consistent table: an event
//! sent from inside a dispatch, of the same type or another, finds the slots
//! held by the outer dispatch empty. The runner (which owns the boxed systems
//! and the event values) drives a [`Dispatch`] step by step and performs each
//! [`Step::Run`] it is handed.

use vstd::prelude::*;

verus! {

/// How a system receives the event it is run for.
#[derive(Clone, Copy, Debug, PartialEq, Eq, Structural)]
pub enum InputKind {
    /// The event itself, moved into the system.
    Value,
    /// A reference to the event.
    Ref,
    /// A slice of events.
    Slice,
}

/// Where a dispatch of one event stands.
#[derive(Clone, Copy, Debug, PartialEq, Eq, Structural)]
pub enum Phase {
    /// Running the systems that take the event by reference.
    Ref,
    /// Running the systems that take a slice of events.
    Slice,
    /// Running the system that takes the event by value.
    Value,
    /// The dispatch is over.
    Done,
}

/// What the runner is asked to do next.
#[derive(Clone, Copy, Debug, PartialEq, Eq, Structural)]
pub enum Step {
    /// Run the system kept under handle `system`, handing it the input as `input`.
    Run { system: u64, input: InputKind },
    /// Dispatch the buffered event at position `index` on its own, with its
    /// slice systems when `slice`.
    Forward { index: usize, slice: bool },
    /// Drop the buffered events without dispatching them.
    Clear,
    /// The machine made progress of its own; ask again.
    Pending,
    /// Nothing is left to do.
    Finished,
}

/// Why a dispatch cannot go on.
#[derive(Clone, Copy, Debug, PartialEq, Eq, Structural)]
pub enum DispatchError {
    /// The slot that a dispatch took is no longer free to take its systems back.
    CannotPutBack { slot: usize },
}

/// What one input slot holds: systems in registration order, each a pair
/// `(system handle, type key)`.
pub trait SlotContents: Sized {
    /// The registered systems, in order.
    spec fn entries(&self) -> Seq<(u64, u64)>;

    /// The contents are internally consistent.
    spec fn wf(&self) -> bool;

    /// Consistent contents hold no more systems than a list can take.
    proof fn lemma_wf_bounded(&self)
        requires
            self.wf(),
        ensures
            self.entries().len() <= crate::small::MAX_SYSTEMS,
    ;

    /// The number of registered systems.
    fn count(&self) -> (n: usize)
        requires
            self.wf(),
        ensures
            n == self.entries().len(),
    ;

    /// The system registered at position `i`.
    fn entry(&self, i: usize) -> (e: (u64, u64))
        requires
            self.wf(),
            i < self.entries().len(),
        ensures
            e == self.entries()[i as int],
    ;
}

/// The contents of slot `i`, where a slot past the end is empty.
pub open spec fn slot_at<S>(slots: Seq<Option<S>>, i: int) -> Option<S> {
    if 0 <= i < slots.len() {
        slots[i]
    } else {
        None
    }
}

/// The systems that slot `i` holds; an absent or taken slot holds none.
pub open spec fn slot_entries<S: SlotContents>(slots: Seq<Option<S>>, i: int) -> Seq<(u64, u64)> {
    match slot_at(slots, i) {
        Some(s) => s.entries(),
        None => Seq::empty(),
    }
}

/// Some system in `entries` was made from the function keyed `tid`.
pub open spec fn has_tid(entries: Seq<(u64, u64)>, tid: u64) -> bool {
    exists|i: int| 0 <= i < entries.len() && #[trigger] entries[i].1 == tid
}

/// The slots after taking slot `i`: it is emptied, and a table too short to
/// hold it is first padded with empty slots up to it.
pub open spec fn taken_slots<S>(slots: Seq<Option<S>>, i: int) -> Seq<Option<S>> {
    if i < slots.len() {
        slots.update(i, None)
    } else {
        slots + Seq::new((i + 1 - slots.len()) as nat, |k: int| None::<S>)
    }
}

/// Whether slot `i` exists and is empty, so that systems can be put back there.
pub open spec fn slot_vacant<S>(slots: Seq<Option<S>>, i: int) -> bool {
    0 <= i < slots.len() && slots[i] is None
}


/// The table of slots of one kind (events or packets), indexed by smol id.
pub struct SlotTable<S> {
    slots: Vec<Option<S>>,
}

/// Every occupied slot of `slots` holds consistent contents.
pub open spec fn slots_wf<S: SlotContents>(slots: Seq<Option<S>>) -> bool {
    forall|i: int| 0 <= i < slots.len() && #[trigger] slots[i] is Some ==> slots[i]->0.wf()
}

impl<S> View for SlotTable<S> {
    type V = Seq<Option<S>>;

    /// The contents of every slot, by smol id.
    closed spec fn view(&self) -> Seq<Option<S>> {
        self.slots@
    }
}

impl<S: SlotContents> SlotTable<S> {
    /// Every occupied slot holds consistent contents.
    pub open spec fn wf(&self) -> bool {
        slots_wf(self@)
    }

    /// An empty table.
    pub fn new() -> (t: Self)
        ensures
            t@ == Seq::<Option<S>>::empty(),
            t.wf(),
    {
        SlotTable { slots: Vec::new() }
    }

    /// The number of slots.
    pub fn len(&self) -> (n: usize)
        ensures
            n == self@.len(),
    {
        self.slots.len()
    }

    /// The contents of slot `i` (none past the end).
    pub fn get(&self, i: usize) -> (r: Option<&S>)
        ensures
            match r {
                Some(s) => slot_at(self@, i as int) == Some(*s),
                None => slot_at(self@, i as int) is None,
            },
    {
        if i < self.slots.len() {
            match &self.slots[i] {
                Some(s) => Some(s),
                None => None,
            }
        } else {
            None
        }
    }

    /// The number of systems in slot `i` (none in an absent or taken slot).
    pub fn count_at(&self, i: usize) -> (n: usize)
        requires
            self.wf(),
        ensures
            n == slot_entries(self@, i as int).len(),
    {
        match self.get(i) {
            Some(s) => s.count(),
            None => 0,
        }
    }

    /// Takes the contents of slot `i` out of the table, padding the table with
    /// empty slots when it is too short to hold `i`.
    pub fn take(&mut self, i: usize) -> (r: Option<S>)
        requires
            i < usize::MAX,
            old(self).wf(),
        ensures
            r == slot_at(old(self)@, i as int),
            final(self)@ == taken_slots(old(self)@, i as int),
            final(self).wf(),
            r matches Some(s) ==> s.wf(),
    {
        if self.slots.len() <= i {
            let ghost start = self.slots@;
            while self.slots.len() < i + 1
                invariant
                    start.len() <= self.slots@.len() <= i + 1,
                    i < usize::MAX,
                    self.slots@ == start + Seq::new(
                        (self.slots@.len() - start.len()) as nat,
                        |k: int| None::<S>,
                    ),
                decreases i + 1 - self.slots@.len(),
            {
                self.slots.push(None);
                proof {
                    assert(self.slots@ =~= start + Seq::new(
                        (self.slots@.len() - start.len()) as nat,
                        |k: int| None::<S>,
                    ));
                }
            }
            proof {
                assert forall|k: int| 0 <= k < self.slots@.len() && #[trigger] self.slots@[k] is Some implies self.slots@[k]->0.wf() by {
                    if k >= start.len() {
                        assert(self.slots@[k] == None::<S>);
                    } else {
                        assert(self.slots@[k] == start[k]);
                    }
                }
            }
            None
        } else {
            let r = self.slots[i].take();
            proof {
                assert(self.slots@ =~= old(self).slots@.update(i as int, None));
            }
            r
        }
    }

    /// Whether slot `i` exists and is empty.
    pub fn is_vacant(&self, i: usize) -> (r: bool)
        ensures
            r == slot_vacant(self@, i as int),
    {
        i < self.slots.len() && self.slots[i].is_none()
    }

    /// Puts `s` back into the empty slot `i`.
    pub fn put_back(&mut self, i: usize, s: S)
        requires
            slot_vacant(old(self)@, i as int),
            old(self).wf(),
            s.wf(),
        ensures
            final(self)@ == old(self)@.update(i as int, Some(s)),
            final(self).wf(),
    {
        self.slots.set(i, Some(s));
    }
}

/// The dispatch of one event of type `sid` through a table of slots.
///
/// `held` is the contents of the slot whose systems are being run, taken out
/// of the table; `cursor` counts the systems of it already handed out.
pub struct Dispatch<S> {
    pub sid: usize,
    pub slice: bool,
    pub phase: Phase,
    pub held: Option<S>,
    pub cursor: usize,
}

/// The slot whose systems run in `phase` for event type `sid`.
pub open spec fn phase_slot(sid: usize, phase: Phase) -> int {
    match phase {
        Phase::Ref => sid + 1,
        Phase::Slice => sid + 2,
        _ => sid as int,
    }
}

/// The phase that follows `phase`; the slice phase is skipped unless `slice`.
pub open spec fn phase_after(phase: Phase, slice: bool) -> Phase {
    match phase {
        Phase::Ref => if slice {
            Phase::Slice
        } else {
            Phase::Value
        },
        Phase::Slice => Phase::Value,
        _ => Phase::Done,
    }
}

/// How the systems of `phase` receive the event.
pub open spec fn phase_input(phase: Phase) -> InputKind {
    match phase {
        Phase::Ref => InputKind::Ref,
        Phase::Slice => InputKind::Slice,
        _ => InputKind::Value,
    }
}

/// The state of a dispatch and of its table after one step, and what the step
/// reports.
pub struct Outcome<S> {
    pub dispatch: Dispatch<S>,
    pub slots: Seq<Option<S>>,
    pub result: Result<Step, DispatchError>,
}

/// `d` in another phase, holding `held` with `cursor` systems handed out.
pub open spec fn dispatch_moved<S>(d: Dispatch<S>, phase: Phase, held: Option<S>, cursor: usize) -> Dispatch<S> {
    Dispatch { sid: d.sid, slice: d.slice, phase, held, cursor }
}

/// One step of dispatching an event:
/// - a phase whose slot has not been taken takes it; an absent or empty slot
///   (one held by an enclosing dispatch, say) ends the phase;
/// - while the taken systems last, the next one is handed out to be run (of
///   the by-value systems only the first: one system takes the event itself);
/// - next the systems go back into their slot and the next phase begins,
///   unless the slot is no longer free.
pub open spec fn dispatch_step<S: SlotContents>(d: Dispatch<S>, slots: Seq<Option<S>>) -> Outcome<S> {
    match d.phase {
        Phase::Done => Outcome { dispatch: d, slots: slots, result: Ok(Step::Finished) },
        _ => {
            let slot = phase_slot(d.sid, d.phase);
            match d.held {
                None => match slot_at(slots, slot) {
                    None => Outcome {
                        dispatch: dispatch_moved(d, phase_after(d.phase, d.slice), None, 0),
                        slots: taken_slots(slots, slot),
                        result: Ok(Step::Pending),
                    },
                    Some(s) => Outcome {
                        dispatch: dispatch_moved(d, d.phase, Some(s), 0),
                        slots: taken_slots(slots, slot),
                        result: Ok(Step::Pending),
                    },
                },
                Some(s) => if d.cursor < s.entries().len() && (d.phase != Phase::Value || d.cursor
                    < 1) {
                    Outcome {
                        dispatch: dispatch_moved(d, d.phase, d.held, (d.cursor + 1) as usize),
                        slots: slots,
                        result: Ok(
                            Step::Run {
                                system: s.entries()[d.cursor as int].0,
                                input: phase_input(d.phase),
                            },
                        ),
                    }
                } else if !slot_vacant(slots, slot) {
                    Outcome {
                        dispatch: d,
                        slots: slots,
                        result: Err(DispatchError::CannotPutBack { slot: slot as usize }),
                    }
                } else {
                    Outcome {
                        dispatch: dispatch_moved(d, phase_after(d.phase, d.slice), None, 0),
                        slots: slots.update(slot, Some(s)),
                        result: Ok(Step::Pending),
                    }
                },
            }
        },
    }
}

/// The largest smol id whose three slots can be addressed.
pub open spec fn sid_fits(sid: usize) -> bool {
    sid < usize::MAX - 2
}

/// `d` has handed out the by-value system of its event while holding more
/// than one: only one system can take the event by value.
pub open spec fn value_slot_overfull<S: SlotContents>(d: Dispatch<S>) -> bool {
    &&& d.phase == Phase::Value
    &&& d.held matches Some(s) && s.entries().len() > 1
    &&& d.cursor >= 1
}


/// The next step of `d` ends the dispatch.
pub open spec fn ends_dispatch<S: SlotContents>(d: Dispatch<S>, slots: Seq<Option<S>>) -> bool {
    d.phase != Phase::Done && dispatch_step(d, slots).dispatch.phase == Phase::Done
}

impl<S: SlotContents> Dispatch<S> {
    /// The dispatch is internally consistent.
    pub open spec fn wf(&self) -> bool {
        &&& sid_fits(self.sid)
        &&& self.held matches Some(s) ==> s.wf()
        &&& self.phase == Phase::Slice ==> self.slice
    }

    /// Starts dispatching an event of type `sid`, with its slice systems when
    /// `slice`.
    pub fn begin(sid: usize, slice: bool) -> (d: Self)
        requires
            sid_fits(sid),
        ensures
            d.wf(),
            d == (Dispatch::<S> { sid, slice, phase: Phase::Ref, held: None, cursor: 0 }),
    {
        Dispatch { sid, slice, phase: Phase::Ref, held: None, cursor: 0 }
    }

    /// Whether the by-value system ran while other systems shared its slot
    /// (see [`value_slot_overfull`]); no step may follow.
    pub fn value_slot_overfull(&self) -> (r: bool)
        requires
            self.wf(),
        ensures
            r == value_slot_overfull(*self),
    {
        self.phase == Phase::Value && self.cursor >= 1 && match &self.held {
            Some(s) => s.count() > 1,
            None => false,
        }
    }

    /// The slot whose systems run in the current phase.
    fn current_slot(&self) -> (slot: usize)
        requires
            sid_fits(self.sid),
        ensures
            slot == phase_slot(self.sid, self.phase),
    {
        match self.phase {
            Phase::Ref => self.sid + 1,
            Phase::Slice => self.sid + 2,
            _ => self.sid,
        }
    }

    /// Moves on to the phase after the current one.
    fn advance(&mut self)
        ensures
            final(self).phase == phase_after(old(self).phase, old(self).slice),
            final(self).sid == old(self).sid,
            final(self).slice == old(self).slice,
            final(self).held == old(self).held,
            final(self).cursor == 0,
    {
        self.phase = match self.phase {
            Phase::Ref => if self.slice {
                Phase::Slice
            } else {
                Phase::Value
            },
            Phase::Slice => Phase::Value,
            _ => Phase::Done,
        };
        self.cursor = 0;
    }

    /// Performs one step of the dispatch (see [`dispatch_step`]).
    pub fn next(&mut self, table: &mut SlotTable<S>) -> (r: Result<Step, DispatchError>)
        requires
            old(self).wf(),
            old(table).wf(),
            !value_slot_overfull(*old(self)),
        ensures
            ({
                let o = dispatch_step(*old(self), old(table)@);
                &&& *final(self) == o.dispatch
                &&& final(table)@ == o.slots
                &&& r == o.result
            }),
            final(self).wf(),
            final(table).wf(),
    {
        if self.phase == Phase::Done {
            return Ok(Step::Finished);
        }
        let slot = self.current_slot();
        if self.held.is_none() {
            let taken = table.take(slot);
            if taken.is_none() {
                self.advance();
            } else {
                self.held = taken;
                self.cursor = 0;
            }
            return Ok(Step::Pending);
        }
        let n = match &self.held {
            Some(s) => s.count(),
            None => 0,
        };
        if self.cursor < n && (self.phase != Phase::Value || self.cursor < 1) {
            let e = match &self.held {
                Some(s) => s.entry(self.cursor),
                None => (0, 0),
            };
            let input = match self.phase {
                Phase::Ref => InputKind::Ref,
                Phase::Slice => InputKind::Slice,
                _ => InputKind::Value,
            };
            self.cursor = self.cursor + 1;
            return Ok(Step::Run { system: e.0, input });
        }
        if !table.is_vacant(slot) {
            return Err(DispatchError::CannotPutBack { slot });
        }
        let held = self.held.take();
        match held {
            Some(s) => table.put_back(slot, s),
            None => {},
        }
        self.advance();
        Ok(Step::Pending)
    }
}

/// Where the handling of a batch of buffered events stands.
#[derive(Clone, Copy, Debug, PartialEq, Eq, Structural)]
pub enum BatchPhase {
    /// Running the slice systems over the whole batch.
    Systems,
    /// Handing out the buffered events one by one (or clearing them).
    Forward,
    /// Nothing is left to do.
    Done,
}

/// What becomes of a batch once its slice systems have seen it.
#[derive(Clone, Copy, Debug, PartialEq, Eq, Structural)]
pub enum AfterSlice {
    /// Each buffered event is dispatched on its own, in order.
    Forward,
    /// The buffered events are dropped.
    Clear,
    /// The buffered events are left as they are.
    Keep,
}

/// The handling of `count` buffered events whose slice systems live in slot
/// `slot`: every slice system sees the whole batch; the batch is afterwards
/// forwarded, cleared or kept as `after` says.
pub struct Batch<S> {
    pub slot: usize,
    pub count: usize,
    pub after: AfterSlice,
    pub phase: BatchPhase,
    pub held: Option<S>,
    pub cursor: usize,
}

/// The state of a batch and of its table after one step, and what the step
/// reports.
pub struct BatchOutcome<S> {
    pub batch: Batch<S>,
    pub slots: Seq<Option<S>>,
    pub result: Result<Step, DispatchError>,
}

/// `b` with another phase and cursor.
pub open spec fn batch_moved<S>(b: Batch<S>, phase: BatchPhase, held: Option<S>, cursor: usize) -> Batch<S> {
    Batch { slot: b.slot, count: b.count, after: b.after, phase, held, cursor }
}

/// One step of handling a batch:
/// - the slice slot is taken; while its systems last, the next one is handed
///   out to run over the whole batch; next they go back into their slot;
/// - last each buffered event is handed out, in order, to be dispatched on its
///   own without its slice systems (they have seen it in the batch), or the
///   batch is cleared once, or left alone.
pub open spec fn batch_step<S: SlotContents>(b: Batch<S>, slots: Seq<Option<S>>) -> BatchOutcome<S> {
    let unchanged = |r: Result<Step, DispatchError>|
        BatchOutcome { batch: b, slots: slots, result: r };
    match b.phase {
        BatchPhase::Systems => match b.held {
            None => match slot_at(slots, b.slot as int) {
                None => BatchOutcome {
                    batch: batch_moved(b, BatchPhase::Forward, None, 0),
                    slots: taken_slots(slots, b.slot as int),
                    result: Ok(Step::Pending),
                },
                Some(s) => BatchOutcome {
                    batch: batch_moved(b, BatchPhase::Systems, Some(s), 0),
                    slots: taken_slots(slots, b.slot as int),
                    result: Ok(Step::Pending),
                },
            },
            Some(s) => if b.cursor < s.entries().len() {
                BatchOutcome {
                    batch: batch_moved(b, BatchPhase::Systems, b.held, (b.cursor + 1) as usize),
                    slots: slots,
                    result: Ok(
                        Step::Run { system: s.entries()[b.cursor as int].0, input: InputKind::Slice },
                    ),
                }
            } else if !slot_vacant(slots, b.slot as int) {
                unchanged(Err(DispatchError::CannotPutBack { slot: b.slot }))
            } else {
                BatchOutcome {
                    batch: batch_moved(b, BatchPhase::Forward, None, 0),
                    slots: slots.update(b.slot as int, Some(s)),
                    result: Ok(Step::Pending),
                }
            },
        },
        BatchPhase::Forward => if b.after == AfterSlice::Clear {
            BatchOutcome {
                batch: batch_moved(b, BatchPhase::Done, b.held, b.cursor),
                slots: slots,
                result: Ok(Step::Clear),
            }
        } else if b.after == AfterSlice::Forward && b.cursor < b.count {
            BatchOutcome {
                batch: batch_moved(b, BatchPhase::Forward, b.held, (b.cursor + 1) as usize),
                slots: slots,
                result: Ok(Step::Forward { index: b.cursor, slice: false }),
            }
        } else {
            BatchOutcome {
                batch: batch_moved(b, BatchPhase::Done, b.held, b.cursor),
                slots: slots,
                result: Ok(Step::Finished),
            }
        },
        BatchPhase::Done => unchanged(Ok(Step::Finished)),
    }
}

impl<S: SlotContents> Batch<S> {
    /// The batch is internally consistent.
    pub open spec fn wf(&self) -> bool {
        &&& self.slot < usize::MAX
        &&& self.held matches Some(s) ==> s.wf()
    }

    /// Starts handling `count` buffered events whose slice systems live in `slot`.
    pub fn begin(slot: usize, count: usize, after: AfterSlice) -> (b: Self)
        requires
            slot < usize::MAX,
        ensures
            b == (Batch::<S> { slot, count, after, phase: BatchPhase::Systems, held: None, cursor: 0 }),
            b.wf(),
    {
        Batch { slot, count, after, phase: BatchPhase::Systems, held: None, cursor: 0 }
    }

    /// Performs one step of handling the batch (see [`batch_step`]).
    pub fn next(&mut self, table: &mut SlotTable<S>) -> (r: Result<Step, DispatchError>)
        requires
            old(self).wf(),
            old(table).wf(),
        ensures
            ({
                let o = batch_step(*old(self), old(table)@);
                &&& *final(self) == o.batch
                &&& final(table)@ == o.slots
                &&& r == o.result
            }),
            final(self).wf(),
            final(table).wf(),
    {
        match self.phase {
            BatchPhase::Systems => {
                if self.held.is_none() {
                    let taken = table.take(self.slot);
                    if taken.is_none() {
                        self.phase = BatchPhase::Forward;
                    }
                    self.held = taken;
                    self.cursor = 0;
                    return Ok(Step::Pending);
                }
                let n = match &self.held {
                    Some(s) => s.count(),
                    None => 0,
                };
                if self.cursor < n {
                    let e = match &self.held {
                        Some(s) => s.entry(self.cursor),
                        None => (0, 0),
                    };
                    self.cursor = self.cursor + 1;
                    return Ok(Step::Run { system: e.0, input: InputKind::Slice });
                }
                if !table.is_vacant(self.slot) {
                    return Err(DispatchError::CannotPutBack { slot: self.slot });
                }
                let held = self.held.take();
                match held {
                    Some(s) => table.put_back(self.slot, s),
                    None => {},
                }
                self.phase = BatchPhase::Forward;
                self.cursor = 0;
                Ok(Step::Pending)
            },
            BatchPhase::Forward => {
                if self.after == AfterSlice::Clear {
                    self.phase = BatchPhase::Done;
                    Ok(Step::Clear)
                } else if self.after == AfterSlice::Forward && self.cursor < self.count {
                    let index = self.cursor;
                    self.cursor = self.cursor + 1;
                    Ok(Step::Forward { index, slice: false })
                } else {
                    self.phase = BatchPhase::Done;
                    Ok(Step::Finished)
                }
            },
            BatchPhase::Done => Ok(Step::Finished),
        }
    }
}

} // verus!
