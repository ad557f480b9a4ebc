//! The list of systems registered for one input slot, kept in a `SmallVec`.
//!
//! Each entry is a pair `(system, tid)`: the handle under which the runner
//! keeps the boxed system, and the type key of the function it was made from.

use smallvec::SmallVec;
use vstd::prelude::*;

verus! {

/// The most systems one input slot can hold.
pub const MAX_SYSTEMS: usize = 0x0400_0000;

/// The systems registered for one input slot, in registration order.
///
/// The `SmallVec` is held in a private field; Verus sees the list only through
/// `system_list_items` and the wrappers below.
#[verifier::external_body]
pub struct SystemList {
    items: SmallVec<[(u64, u64); 1]>,
}

/// What a list of registered systems holds, in order.
pub uninterp spec fn system_list_items(list: SystemList) -> Seq<(u64, u64)>;

impl SystemList {
    /// `SmallVec::new`: an empty list.
    #[verifier::external_body]
    pub(crate) fn new() -> (list: SystemList)
        ensures
            system_list_items(list) == Seq::<(u64, u64)>::empty(),
    {
        SystemList { items: SmallVec::new() }
    }

    /// `SmallVec::len`: the number of items held.
    #[verifier::external_body]
    pub(crate) fn len(&self) -> (n: usize)
        ensures
            n == system_list_items(*self).len(),
    {
        self.items.len()
    }

    /// Indexing a `SmallVec`: the item at position `i`.
    #[verifier::external_body]
    pub(crate) fn get(&self, i: usize) -> (item: (u64, u64))
        requires
            i < system_list_items(*self).len(),
        ensures
            item == system_list_items(*self)[i as int],
    {
        self.items[i]
    }

    /// `SmallVec::push`: appends `item` at the end.
    ///
    /// `push` panics with "capacity overflow" once the doubled capacity no
    /// longer fits a layout; the bound in `requires` keeps the list far below
    /// that size.
    #[verifier::external_body]
    pub(crate) fn push(&mut self, item: (u64, u64))
        requires
            system_list_items(*old(self)).len() < MAX_SYSTEMS,
        ensures
            system_list_items(*final(self)) == system_list_items(*old(self)).push(item),
    {
        self.items.push(item)
    }

    /// `SmallVec::retain`: keeps, in their order, exactly the items whose
    /// type key differs from `tid`.
    #[verifier::external_body]
    pub(crate) fn retain_other(&mut self, tid: u64)
        ensures
            system_list_items(*final(self)) == system_list_items(*old(self)).filter(
                |e: (u64, u64)| e.1 != tid,
            ),
    {
        self.items.retain(|e| is_other_system(e, tid))
    }
}

/// Whether `entry` was made from a function other than the one keyed `tid`.
pub fn is_other_system(entry: &(u64, u64), tid: u64) -> (r: bool)
    ensures
        r == (entry.1 != tid),
{
    entry.1 != tid
}

} // verus!
