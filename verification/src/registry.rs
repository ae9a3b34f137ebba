//! The instance registry.
//!
//! The host identifies a plugin instance by an opaque handle: an integer-valued
//! key that is only ever compared for equality.  The registry maps each live
//! handle to the one instance it owns.  Because the number of live instances
//! is expected to be small, the registry is an ordered list of pairs rather
//! than a hash map.
//!
//! Policy for duplicate handles: an insert under a handle that is already
//! registered is rejected and hands the new instance back untouched, so a
//! host that reuses a pointer value cannot silently discard a live instance.
//! Removal of an unregistered handle is a no-op.

use vstd::prelude::*;

verus! {

/// The first instance registered under `handle`, if any.
pub open spec fn spec_find<P>(entries: Seq<(u64, P)>, handle: u64) -> Option<P>
    decreases entries.len(),
{
    if entries.len() == 0 {
        None
    } else if entries[0].0 == handle {
        Some(entries[0].1)
    } else {
        spec_find(entries.drop_first(), handle)
    }
}

/// Whether some instance is registered under `handle`.
pub open spec fn spec_contains<P>(entries: Seq<(u64, P)>, handle: u64) -> bool {
    spec_find(entries, handle) is Some
}

/// The entries with the first instance registered under `handle` removed.
pub open spec fn spec_remove<P>(entries: Seq<(u64, P)>, handle: u64) -> Seq<(u64, P)>
    decreases entries.len(),
{
    if entries.len() == 0 {
        entries
    } else if entries[0].0 == handle {
        entries.drop_first()
    } else {
        seq![entries[0]] + spec_remove(entries.drop_first(), handle)
    }
}

/// At most one entry per handle.
pub open spec fn distinct_handles<P>(entries: Seq<(u64, P)>) -> bool {
    forall|i: int, j: int|
        0 <= i < j < entries.len() ==> (#[trigger] entries[i]).0 != (#[trigger] entries[j]).0
}

/// Finding a handle looks no further than the first match: positions before
/// `i` that miss can be skipped.
proof fn lemma_find_skip<P>(entries: Seq<(u64, P)>, handle: u64, i: int)
    requires
        0 <= i <= entries.len(),
        forall|k: int| 0 <= k < i ==> (#[trigger] entries[k]).0 != handle,
    ensures
        spec_find(entries, handle) == spec_find(entries.skip(i), handle),
    decreases i,
{
    if i > 0 {
        assert(entries[0].0 != handle);
        assert(forall|k: int|
            0 <= k < i - 1 ==> (#[trigger] entries.drop_first()[k]).0 != handle) by {
            assert(forall|k: int|
                0 <= k < i - 1 ==> entries.drop_first()[k] == (#[trigger] entries[k + 1]));
        }
        lemma_find_skip(entries.drop_first(), handle, i - 1);
        assert(entries.drop_first().skip(i - 1) =~= entries.skip(i));
    } else {
        assert(entries.skip(0) =~= entries);
    }
}

/// If no entry carries `handle`, the search misses.
proof fn lemma_find_absent<P>(entries: Seq<(u64, P)>, handle: u64)
    requires
        forall|k: int| 0 <= k < entries.len() ==> (#[trigger] entries[k]).0 != handle,
    ensures
        spec_find(entries, handle) is None,
{
    lemma_find_skip(entries, handle, entries.len() as int);
    assert(entries.skip(entries.len() as int) =~= Seq::<(u64, P)>::empty());
}

/// If the first match sits at position `i`, the search yields that instance.
proof fn lemma_find_at<P>(entries: Seq<(u64, P)>, handle: u64, i: int)
    requires
        0 <= i < entries.len(),
        entries[i].0 == handle,
        forall|k: int| 0 <= k < i ==> (#[trigger] entries[k]).0 != handle,
    ensures
        spec_find(entries, handle) == Some(entries[i].1),
{
    lemma_find_skip(entries, handle, i);
    assert(entries.skip(i)[0] == entries[i]);
}

/// Removing a handle that no entry carries changes nothing.
proof fn lemma_remove_all_miss<P>(entries: Seq<(u64, P)>, handle: u64)
    requires
        forall|k: int| 0 <= k < entries.len() ==> (#[trigger] entries[k]).0 != handle,
    ensures
        spec_remove(entries, handle) =~= entries,
    decreases entries.len(),
{
    if entries.len() > 0 {
        assert(forall|k: int|
            0 <= k < entries.drop_first().len()
                ==> (#[trigger] entries.drop_first()[k]).0 != handle) by {
            assert(forall|k: int|
                0 <= k < entries.drop_first().len()
                    ==> entries.drop_first()[k] == (#[trigger] entries[k + 1]));
        }
        lemma_remove_all_miss(entries.drop_first(), handle);
    }
}

/// If the first match sits at position `i`, removal cuts exactly that entry.
proof fn lemma_remove_at<P>(entries: Seq<(u64, P)>, handle: u64, i: int)
    requires
        0 <= i < entries.len(),
        entries[i].0 == handle,
        forall|k: int| 0 <= k < i ==> (#[trigger] entries[k]).0 != handle,
    ensures
        spec_remove(entries, handle) =~= entries.take(i) + entries.skip(i + 1),
    decreases i,
{
    if i == 0 {
        assert(entries.take(0) + entries.skip(1) =~= entries.drop_first());
    } else {
        assert(forall|k: int|
            0 <= k < i - 1 ==> (#[trigger] entries.drop_first()[k]).0 != handle) by {
            assert(forall|k: int|
                0 <= k < i - 1 ==> entries.drop_first()[k] == (#[trigger] entries[k + 1]));
        }
        assert(entries.drop_first()[i - 1] == entries[i]);
        lemma_remove_at(entries.drop_first(), handle, i - 1);
        assert(seq![entries[0]] + (entries.drop_first().take(i - 1)
            + entries.drop_first().skip(i)) =~= entries.take(i) + entries.skip(i + 1));
    }
}

/// Registering a fresh handle and then looking it up yields the registered
/// instance.
pub proof fn lemma_insert_then_find<P>(entries: Seq<(u64, P)>, handle: u64, instance: P)
    requires
        !spec_contains(entries, handle),
    ensures
        spec_find(entries.push((handle, instance)), handle) == Some(instance),
    decreases entries.len(),
{
    if entries.len() == 0 {
        assert(entries.push((handle, instance))[0] == (handle, instance));
    } else {
        assert(entries.push((handle, instance))[0] == entries[0]);
        assert(entries.push((handle, instance)).drop_first()
            =~= entries.drop_first().push((handle, instance)));
        lemma_insert_then_find(entries.drop_first(), handle, instance);
    }
}

/// After removing a handle from a registry with distinct handles, looking the
/// handle up yields nothing.
pub proof fn lemma_remove_then_find<P>(entries: Seq<(u64, P)>, handle: u64)
    requires
        distinct_handles(entries),
    ensures
        spec_find(spec_remove(entries, handle), handle) is None,
    decreases entries.len(),
{
    if entries.len() == 0 {
    } else if entries[0].0 == handle {
        assert(forall|k: int|
            0 <= k < entries.drop_first().len()
                ==> (#[trigger] entries.drop_first()[k]).0 != handle) by {
            assert(forall|k: int|
                0 <= k < entries.drop_first().len()
                    ==> entries.drop_first()[k] == (#[trigger] entries[k + 1]));
        }
        lemma_find_absent(entries.drop_first(), handle);
    } else {
        assert(forall|i: int, j: int|
            0 <= i < j < entries.drop_first().len()
                ==> (#[trigger] entries.drop_first()[i]).0
                    != (#[trigger] entries.drop_first()[j]).0) by {
            assert(forall|k: int|
                0 <= k < entries.drop_first().len()
                    ==> entries.drop_first()[k] == (#[trigger] entries[k + 1]));
        }
        lemma_remove_then_find(entries.drop_first(), handle);
        let cut = spec_remove(entries, handle);
        assert(cut[0] == entries[0]);
        assert(cut.drop_first() =~= spec_remove(entries.drop_first(), handle));
    }
}

/// Removing an unregistered handle is a no-op.
pub proof fn lemma_remove_absent_is_noop<P>(entries: Seq<(u64, P)>, handle: u64)
    requires
        !spec_contains(entries, handle),
    ensures
        spec_remove(entries, handle) =~= entries,
    decreases entries.len(),
{
    if entries.len() > 0 {
        assert(entries[0].0 != handle);
        lemma_remove_absent_is_noop(entries.drop_first(), handle);
    }
}

/// Removing one handle leaves every other handle's registration untouched.
pub proof fn lemma_remove_preserves_others<P>(entries: Seq<(u64, P)>, handle: u64, other: u64)
    requires
        other != handle,
    ensures
        spec_find(spec_remove(entries, handle), other) == spec_find(entries, other),
    decreases entries.len(),
{
    if entries.len() == 0 {
    } else if entries[0].0 == handle {
    } else {
        lemma_remove_preserves_others(entries.drop_first(), handle, other);
        let cut = spec_remove(entries, handle);
        assert(cut[0] == entries[0]);
        assert(cut.drop_first() =~= spec_remove(entries.drop_first(), handle));
        if entries[0].0 != other {
            assert(spec_find(cut, other) == spec_find(cut.drop_first(), other));
        }
    }
}

/// A successful search hands back an instance that the registry really
/// holds, together with its handle.
pub proof fn lemma_find_is_element<P>(entries: Seq<(u64, P)>, handle: u64)
    requires
        spec_find(entries, handle) is Some,
    ensures
        exists|i: int|
            0 <= i < entries.len() && #[trigger] entries[i] == (
            handle,
            spec_find(entries, handle)->0,
            ),
    decreases entries.len(),
{
    if entries.len() > 0 {
        if entries[0].0 == handle {
            assert(entries[0] == (handle, spec_find(entries, handle)->0));
        } else {
            lemma_find_is_element(entries.drop_first(), handle);
            let i = choose|i: int|
                0 <= i < entries.drop_first().len() && #[trigger] entries.drop_first()[i] == (
                handle,
                spec_find(entries.drop_first(), handle)->0,
                );
            assert(entries[i + 1] == (handle, spec_find(entries, handle)->0));
        }
    }
}

/// Every entry that survives a removal was an entry before it.
pub proof fn lemma_remove_elements<P>(entries: Seq<(u64, P)>, handle: u64)
    ensures
        forall|i: int|
            0 <= i < spec_remove(entries, handle).len() ==> exists|j: int|
                0 <= j < entries.len() && #[trigger] spec_remove(entries, handle)[i] == entries[j],
    decreases entries.len(),
{
    if entries.len() == 0 {
    } else if entries[0].0 == handle {
        assert forall|i: int| 0 <= i < spec_remove(entries, handle).len() implies exists|j: int|
            0 <= j < entries.len() && #[trigger] spec_remove(entries, handle)[i] == entries[j] by {
            assert(spec_remove(entries, handle)[i] == entries[i + 1]);
        }
    } else {
        lemma_remove_elements(entries.drop_first(), handle);
        let cut = spec_remove(entries, handle);
        assert forall|i: int| 0 <= i < cut.len() implies exists|j: int|
            0 <= j < entries.len() && #[trigger] cut[i] == entries[j] by {
            if i == 0 {
                assert(cut[0] == entries[0]);
            } else {
                let rest = spec_remove(entries.drop_first(), handle);
                assert(cut[i] == rest[i - 1]);
                let j = choose|j: int|
                    0 <= j < entries.drop_first().len() && #[trigger] rest[i - 1]
                        == entries.drop_first()[j];
                assert(cut[i] == entries[j + 1]);
            }
        }
    }
}

/// Maps each opaque host handle to the one plugin instance registered under
/// it.  Its view is the sequence of live (handle, instance) pairs, oldest
/// registration first.
pub struct Registry<P> {
    entries: Vec<(u64, P)>,
}

impl<P> View for Registry<P> {
    type V = Seq<(u64, P)>;

    closed spec fn view(&self) -> Seq<(u64, P)> {
        self.entries@
    }
}

impl<P> Registry<P> {
    /// Registry invariant: at most one entry per handle.
    pub open spec fn wf(self) -> bool {
        distinct_handles(self@)
    }

    /// An empty registry.
    pub fn new() -> (registry: Registry<P>)
        ensures
            registry.wf(),
            registry@.len() == 0,
    {
        Registry { entries: Vec::new() }
    }

    /// How many instances are registered.
    pub fn len(&self) -> (n: usize)
        ensures
            n == self@.len(),
    {
        self.entries.len()
    }

    /// The position of the entry registered under `handle`, if any.
    fn position_of(&self, handle: u64) -> (position: Option<usize>)
        ensures
            match position {
                Some(i) => {
                    &&& i < self@.len()
                    &&& self@[i as int].0 == handle
                    &&& forall|k: int| 0 <= k < i ==> (#[trigger] self@[k]).0 != handle
                    &&& spec_find(self@, handle) == Some(self@[i as int].1)
                },
                None => spec_find(self@, handle) is None,
            },
    {
        let mut i: usize = 0;
        while i < self.entries.len()
            invariant
                i <= self.entries.len(),
                forall|k: int| 0 <= k < i ==> (#[trigger] self.entries@[k]).0 != handle,
            decreases self.entries.len() - i,
        {
            if self.entries[i].0 == handle {
                proof {
                    lemma_find_at(self@, handle, i as int);
                }
                return Some(i);
            }
            i = i + 1;
        }
        proof {
            lemma_find_absent(self@, handle);
        }
        None
    }

    /// Whether an instance is registered under `handle`.
    pub fn contains(&self, handle: u64) -> (found: bool)
        ensures
            found == spec_contains(self@, handle),
    {
        self.position_of(handle).is_some()
    }

    /// Registers `instance` under `handle`.  If the handle is already in use
    /// the registry is left untouched and the instance is handed back, so a
    /// reused handle can never displace a live instance.
    pub fn insert(&mut self, handle: u64, instance: P) -> (rejected: Result<(), P>)
        requires
            old(self).wf(),
        ensures
            final(self).wf(),
            if spec_contains(old(self)@, handle) {
                &&& rejected matches Err(p) && p == instance
                &&& final(self)@ == old(self)@
            } else {
                &&& rejected is Ok
                &&& final(self)@ == old(self)@.push((handle, instance))
                &&& spec_find(final(self)@, handle) == Some(instance)
            },
    {
        if self.contains(handle) {
            Err(instance)
        } else {
            proof {
                lemma_insert_then_find(self@, handle, instance);
            }
            let ghost pre = self@;
            self.entries.push((handle, instance));
            proof {
                assert forall|i: int, j: int| 0 <= i < j < self@.len()
                    implies (#[trigger] self@[i]).0 != (#[trigger] self@[j]).0 by {
                    if j == self@.len() - 1 {
                        if pre[i].0 == handle {
                            lemma_find_at(pre, handle, i);
                        }
                    }
                }
            }
            Ok(())
        }
    }

    /// Unregisters `handle` and hands its instance back; `None`, with the
    /// registry untouched, if the handle is unknown.
    pub fn take(&mut self, handle: u64) -> (instance: Option<P>)
        requires
            old(self).wf(),
        ensures
            final(self).wf(),
            instance == spec_find(old(self)@, handle),
            final(self)@ == spec_remove(old(self)@, handle),
    {
        let position = self.position_of(handle);
        match position {
            Some(i) => {
                proof {
                    lemma_remove_at(self@, handle, i as int);
                    let cut = self@.take(i as int) + self@.skip(i as int + 1);
                    assert(cut =~= self@.remove(i as int));
                    assert forall|a: int, b: int| 0 <= a < b < cut.len()
                        implies (#[trigger] cut[a]).0 != (#[trigger] cut[b]).0 by {
                        let a0 = if a < i { a } else { a + 1 };
                        let b0 = if b < i { b } else { b + 1 };
                        assert(cut[a] == self@[a0]);
                        assert(cut[b] == self@[b0]);
                    }
                }
                let pair = self.entries.remove(i);
                Some(pair.1)
            },
            None => {
                proof {
                    lemma_remove_all_miss_from_none(self@, handle);
                }
                None
            },
        }
    }

    /// Unregisters and drops the instance under `handle`; a no-op for an
    /// unknown handle, by design, so destruction is idempotent.
    pub fn remove(&mut self, handle: u64)
        requires
            old(self).wf(),
        ensures
            final(self).wf(),
            final(self)@ == spec_remove(old(self)@, handle),
            !spec_contains(old(self)@, handle) ==> final(self)@ == old(self)@,
    {
        let taken = self.take(handle);
        proof {
            if !spec_contains(old(self)@, handle) {
                lemma_remove_absent_is_noop(old(self)@, handle);
            }
        }
        let _ = taken;
    }

    /// A mutable borrow of the instance under `handle`, if any; `None`,
    /// with the registry untouched, for an unknown handle.  Mutations
    /// through the borrow land on exactly the entry registered under
    /// `handle` and on no other.
    pub fn find_mut(&mut self, handle: u64) -> (instance: Option<&mut P>)
        requires
            old(self).wf(),
        ensures
            match instance {
                None => {
                    &&& spec_find(old(self)@, handle) is None
                    &&& final(self)@ == old(self)@
                },
                Some(p) => {
                    &&& spec_find(old(self)@, handle) == Some(*p)
                    &&& exists|i: int|
                        {
                            &&& 0 <= i < old(self)@.len()
                            &&& (#[trigger] old(self)@[i]).0 == handle
                            &&& forall|k: int| 0 <= k < i ==> (#[trigger] old(self)@[k]).0 != handle
                            &&& final(self)@ == old(self)@.update(i, (handle, *final(p)))
                        }
                },
            },
    {
        let position = self.position_of(handle);
        match position {
            None => None,
            Some(i) => {
                let element = &mut self.entries[i];
                Some(&mut element.1)
            },
        }
    }

    /// A shared borrow of the instance under `handle`, if any.
    pub fn find(&self, handle: u64) -> (instance: Option<&P>)
        ensures
            match instance {
                Some(p) => spec_find(self@, handle) == Some(*p),
                None => spec_find(self@, handle) is None,
            },
    {
        match self.position_of(handle) {
            Some(i) => Some(&self.entries[i].1),
            None => None,
        }
    }
}

/// A search that misses means no entry carries the handle, so removal misses
/// everywhere too.
proof fn lemma_remove_all_miss_from_none<P>(entries: Seq<(u64, P)>, handle: u64)
    requires
        spec_find(entries, handle) is None,
    ensures
        spec_remove(entries, handle) =~= entries,
    decreases entries.len(),
{
    if entries.len() > 0 {
        lemma_remove_all_miss_from_none(entries.drop_first(), handle);
    }
}

} // verus!
