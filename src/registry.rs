//! The handle registry: opened workbooks keyed by integer handles.
use vstd::prelude::*;

use std::collections::HashMap;

verus! {

broadcast use vstd::std_specs::hash::group_hash_axioms;

/// The handle that stands for "no workbook": never issued for a live entry.
pub const SENTINEL: u64 = 0;

/// Owns every opened resource and hands out handles for them.
///
/// Handles come from a counter that starts above the sentinel and only
/// grows, so a handle is never issued twice, and a released handle stays
/// dead for the registry's lifetime.
pub struct Registry<W> {
    entries: HashMap<u64, W>,
    next: u64,
    issued: Ghost<Seq<u64>>,
}

impl<W> Registry<W> {
    /// The live entries, by handle.
    pub closed spec fn live(&self) -> Map<u64, W> {
        self.entries@
    }

    /// Every handle issued so far, in order of issue.
    pub closed spec fn issued(&self) -> Seq<u64> {
        self.issued@
    }

    /// The handle the next successful open will receive.
    pub closed spec fn next_handle(&self) -> u64 {
        self.next
    }

    /// The registry's invariant: the counter stays above the sentinel, issued
    /// handles are nonzero, strictly increasing and below the counter, and
    /// every live handle was issued.
    pub closed spec fn wf(&self) -> bool {
        &&& self.next > SENTINEL
        &&& forall|i: int, j: int|
            0 <= i < j < self.issued@.len() ==> self.issued@[i] < self.issued@[j]
        &&& forall|i: int|
            0 <= i < self.issued@.len() ==> SENTINEL < #[trigger] self.issued@[i] < self.next
        &&& forall|h: u64| #[trigger] self.entries@.contains_key(h) ==> self.issued@.contains(h)
    }

    /// An empty registry whose first handle is one.
    pub fn new() -> (r: Self)
        ensures
            r.wf(),
            r.live() == Map::<u64, W>::empty(),
            r.issued() == Seq::<u64>::empty(),
            r.next_handle() == 1,
    {
        Registry { entries: HashMap::new(), next: 1, issued: Ghost(Seq::empty()) }
    }

    /// Whether another handle can still be issued.
    pub fn can_issue(&self) -> (r: bool)
        ensures
            r == (self.next_handle() < u64::MAX),
    {
        self.next < u64::MAX
    }

    /// Stores `resource` under a fresh handle and returns that handle.
    pub fn insert(&mut self, resource: W) -> (h: u64)
        requires
            old(self).wf(),
            old(self).next_handle() < u64::MAX,
        ensures
            final(self).wf(),
            h != SENTINEL,
            h == old(self).next_handle(),
            !old(self).live().contains_key(h),
            !old(self).issued().contains(h),
            final(self).live() == old(self).live().insert(h, resource),
            final(self).issued() == old(self).issued().push(h),
            final(self).next_handle() == h + 1,
    {
        let h = self.next;
        assert(!self.issued@.contains(h));
        self.entries.insert(h, resource);
        self.next = h + 1;
        self.issued = Ghost(self.issued@.push(h));
        assert forall|k: u64| #[trigger] self.entries@.contains_key(k) implies self.issued@.contains(k) by {
            if k != h {
                assert(old(self).issued@.contains(k));
                let idx = choose|idx: int| 0 <= idx < old(self).issued@.len() && old(self).issued@[idx] == k;
                assert(self.issued@[idx] == k);
            } else {
                assert(self.issued@[self.issued@.len() - 1] == h);
            }
        }
        h
    }

    /// Registers the outcome of opening a workbook: a fresh handle when it
    /// opened and a handle can still be issued, the sentinel otherwise, in
    /// which case nothing is stored.
    pub fn open(&mut self, opened: Option<W>) -> (h: u64)
        requires
            old(self).wf(),
        ensures
            final(self).wf(),
            (h == SENTINEL) <==> (opened is None || old(self).next_handle() == u64::MAX),
            h == SENTINEL ==> *final(self) == *old(self),
            h != SENTINEL ==> {
                &&& h == old(self).next_handle()
                &&& !old(self).live().contains_key(h)
                &&& !old(self).issued().contains(h)
                &&& final(self).live() == old(self).live().insert(h, opened.unwrap())
                &&& final(self).issued() == old(self).issued().push(h)
                &&& final(self).next_handle() == h + 1
            },
    {
        match opened {
            None => SENTINEL,
            Some(resource) => {
                if self.can_issue() {
                    self.insert(resource)
                } else {
                    SENTINEL
                }
            },
        }
    }

    /// The resource stored under `h`, if it is live.
    pub fn get(&self, h: u64) -> (r: Option<&W>)
        requires
            self.wf(),
        ensures
            r is None <==> !self.live().contains_key(h),
            r matches Some(w) ==> *w == self.live()[h],
            h == SENTINEL ==> r is None,
    {
        self.entries.get(&h)
    }

    /// Removes and drops the entry under `h`; returns whether there was one.
    /// An unknown or already released handle leaves the registry as it was.
    pub fn release(&mut self, h: u64) -> (r: bool)
        requires
            old(self).wf(),
        ensures
            final(self).wf(),
            r == old(self).live().contains_key(h),
            final(self).live() == old(self).live().remove(h),
            !final(self).live().contains_key(h),
            final(self).issued() == old(self).issued(),
            final(self).next_handle() == old(self).next_handle(),
            !r ==> final(self).live() == old(self).live(),
    {
        let removed = self.entries.remove(&h);
        match removed {
            None => {
                assert(self.entries@ =~= old(self).entries@.remove(h));
                false
            },
            Some(_resource) => true,
        }
    }
}

/// Every handle a registry has issued is distinct from every other one it
/// issued and from the sentinel.
pub proof fn lemma_handles_distinct<W>(r: &Registry<W>)
    requires
        r.wf(),
    ensures
        forall|i: int, j: int|
            0 <= i < r.issued().len() && 0 <= j < r.issued().len() && i != j
                ==> r.issued()[i] != r.issued()[j],
        forall|i: int| 0 <= i < r.issued().len() ==> #[trigger] r.issued()[i] != SENTINEL,
{
    assert forall|i: int, j: int|
        0 <= i < r.issued().len() && 0 <= j < r.issued().len() && i != j
            implies r.issued()[i] != r.issued()[j] by {
        if i < j {
            assert(r.issued@[i] < r.issued@[j]);
        } else {
            assert(r.issued@[j] < r.issued@[i]);
        }
    }
}

/// Releasing a handle a second time finds nothing and changes nothing.
pub proof fn lemma_release_twice<W>(live: Map<u64, W>, h: u64)
    ensures
        !live.remove(h).contains_key(h),
        live.remove(h).remove(h) == live.remove(h),
{
    assert(live.remove(h).remove(h) =~= live.remove(h));
}

} // verus!
