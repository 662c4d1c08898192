//! The destination registry: a capacity-bounded collection of live
//! destination connections, keyed by distinct connection identifiers.
//!
//! The registry is the single piece of state shared between the acceptor
//! path (which registers new destinations) and the source session (which
//! broadcasts each validated frame and prunes every destination whose
//! write failed). The caller performs the actual socket writes under its
//! lock and reports each destination's outcome; the registry decides
//! membership: a destination whose write failed is removed permanently and
//! never receives a later message.

use vstd::prelude::*;

verus! {

/// The admission-control error: the registry is at capacity and the new
/// destination was not added.
#[derive(Debug, PartialEq, Eq)]
pub struct Rejected;

/// The members that remain after a broadcast, given each member's
/// delivery outcome: exactly those whose write succeeded, in order.
pub open spec fn kept_after(ids: Seq<u64>, delivered: Seq<bool>) -> Seq<u64>
    recommends
        ids.len() == delivered.len(),
    decreases ids.len(),
{
    if ids.len() == 0 {
        Seq::empty()
    } else {
        let pre = kept_after(ids.drop_last(), delivered.drop_last());
        if delivered.last() {
            pre.push(ids.last())
        } else {
            pre
        }
    }
}

/// Every member kept after a broadcast was a member before it, the kept
/// members are no more numerous, and distinctness is preserved.
pub proof fn lemma_kept_after_subset(ids: Seq<u64>, delivered: Seq<bool>)
    requires
        ids.len() == delivered.len(),
    ensures
        kept_after(ids, delivered).len() <= ids.len(),
        forall|x: u64| kept_after(ids, delivered).contains(x) ==> ids.contains(x),
        ids.no_duplicates() ==> kept_after(ids, delivered).no_duplicates(),
    decreases ids.len(),
{
    if ids.len() > 0 {
        lemma_kept_after_subset(ids.drop_last(), delivered.drop_last());
        let pre = kept_after(ids.drop_last(), delivered.drop_last());
        assert forall|x: u64| pre.contains(x) implies ids.contains(x) by {
            assert(ids.drop_last().contains(x));
            let j = choose|j: int| 0 <= j < ids.drop_last().len() && ids.drop_last()[j] == x;
            assert(ids[j] == x);
        }
        if delivered.last() {
            assert forall|x: u64| pre.push(ids.last()).contains(x) implies ids.contains(x) by {
                if x == ids.last() {
                    assert(ids[ids.len() - 1] == x);
                } else {
                    assert(pre.contains(x));
                }
            }
            if ids.no_duplicates() {
                assert(forall|j: int|
                    0 <= j < ids.len() - 1 ==> ids.drop_last()[j] == ids[j]);
                assert(!ids.drop_last().contains(ids.last()));
            }
        }
    }
}

/// Removal law: a destination whose write failed during a broadcast is not
/// a member afterwards, so it can receive no later message, every
/// broadcast being delivered to members only.
pub proof fn lemma_removed_destination_excluded(ids: Seq<u64>, delivered: Seq<bool>, i: int)
    requires
        ids.no_duplicates(),
        ids.len() == delivered.len(),
        0 <= i < ids.len(),
        !delivered[i],
    ensures
        !kept_after(ids, delivered).contains(ids[i]),
    decreases ids.len(),
{
    lemma_kept_after_subset(ids.drop_last(), delivered.drop_last());
    let pre = kept_after(ids.drop_last(), delivered.drop_last());
    assert(forall|j: int| 0 <= j < ids.len() - 1 ==> ids.drop_last()[j] == ids[j]);
    if i == ids.len() - 1 {
        if pre.contains(ids[i]) {
            assert(ids.drop_last().contains(ids[i]));
        }
    } else {
        lemma_removed_destination_excluded(ids.drop_last(), delivered.drop_last(), i);
        if delivered.last() {
            assert(ids[i] != ids.last());
        }
    }
}

/// Capacity law: a well-formed registry never holds more members than its
/// capacity. `new` establishes well-formedness and both `register` and
/// `apply_broadcast` preserve it (see their contracts), so no sequence of
/// registrations and broadcasts can push membership past the bound.
pub proof fn lemma_capacity_never_exceeded(r: Registry)
    requires
        r.wf(),
    ensures
        r@.len() <= r.spec_capacity(),
{
}

/// The number of successful deliveries in a broadcast outcome.
pub open spec fn count_delivered(delivered: Seq<bool>) -> nat
    decreases delivered.len(),
{
    if delivered.len() == 0 {
        0
    } else {
        (count_delivered(delivered.drop_last()) + if delivered.last() {
            1nat
        } else {
            0nat
        }) as nat
    }
}

/// A capacity-bounded registry of live destination connections. Each
/// member is named by an identifier distinct among all connections the
/// caller ever registers.
pub struct Registry {
    ids: Vec<u64>,
    capacity: usize,
}

impl View for Registry {
    type V = Seq<u64>;

    closed spec fn view(&self) -> Seq<u64> {
        self.ids@
    }
}

impl Registry {
    /// The fixed maximum number of members.
    pub closed spec fn spec_capacity(&self) -> nat {
        self.capacity as nat
    }

    /// The registry invariant: membership never exceeds the capacity, and
    /// members are distinct connections.
    pub open spec fn wf(&self) -> bool {
        self@.len() <= self.spec_capacity() && self@.no_duplicates()
    }

    /// An empty registry with the given capacity.
    pub fn new(capacity: usize) -> (r: Registry)
        ensures
            r@ == Seq::<u64>::empty(),
            r.spec_capacity() == capacity,
            r.wf(),
    {
        Registry { ids: Vec::new(), capacity }
    }

    /// The current number of members.
    pub fn len(&self) -> (r: usize)
        ensures
            r == self@.len(),
    {
        self.ids.len()
    }

    /// The fixed capacity this registry was built with.
    pub fn capacity(&self) -> (r: usize)
        ensures
            r == self.spec_capacity(),
    {
        self.capacity
    }

    /// Whether a destination with this identifier is currently a member.
    pub fn contains(&self, id: u64) -> (r: bool)
        ensures
            r == self@.contains(id),
    {
        let n = self.ids.len();
        let mut i: usize = 0;
        while i < n
            invariant
                n == self@.len(),
                i <= n,
                forall|j: int| 0 <= j < i ==> self@[j] != id,
            decreases n - i,
        {
            if self.ids[i] == id {
                return true;
            }
            i = i + 1;
        }
        false
    }

    /// Admits a new destination unless the registry is full. At capacity
    /// the destination is rejected and membership is unchanged: the
    /// admission-control policy that protects the relay from unbounded
    /// fan-out. Below capacity it is appended and every existing member
    /// remains.
    pub fn register(&mut self, id: u64) -> (r: Result<(), Rejected>)
        requires
            old(self).wf(),
            !old(self)@.contains(id),
        ensures
            final(self).wf(),
            final(self).spec_capacity() == old(self).spec_capacity(),
            old(self)@.len() < old(self).spec_capacity() ==> r is Ok && final(self)@ == old(
                self,
            )@.push(id),
            old(self)@.len() >= old(self).spec_capacity() ==> r is Err && final(self)@ == old(
                self,
            )@,
    {
        if self.ids.len() >= self.capacity {
            Err(Rejected)
        } else {
            self.ids.push(id);
            Ok(())
        }
    }

    /// Records the outcome of one broadcast: `delivered[i]` says whether
    /// the full message was written to member `i`. Every member whose
    /// write failed is removed permanently; the rest remain in order. The
    /// returned count of successful deliveries is informational.
    pub fn apply_broadcast(&mut self, delivered: &Vec<bool>) -> (count: usize)
        requires
            old(self).wf(),
            delivered@.len() == old(self)@.len(),
        ensures
            final(self).wf(),
            final(self).spec_capacity() == old(self).spec_capacity(),
            final(self)@ == kept_after(old(self)@, delivered@),
            count == count_delivered(delivered@),
    {
        let ghost ids0 = self.ids@;
        let n = self.ids.len();
        let mut kept: Vec<u64> = Vec::new();
        let mut count: usize = 0;
        let mut i: usize = 0;
        assert(ids0.take(0) =~= Seq::<u64>::empty());
        assert(delivered@.take(0) =~= Seq::<bool>::empty());
        while i < n
            invariant
                n == ids0.len(),
                self@ == ids0,
                delivered@.len() == n,
                i <= n,
                kept@ == kept_after(ids0.take(i as int), delivered@.take(i as int)),
                count == count_delivered(delivered@.take(i as int)),
                count <= i,
                kept@.len() <= i,
            decreases n - i,
        {
            assert(ids0.take(i + 1).drop_last() =~= ids0.take(i as int));
            assert(delivered@.take(i + 1).drop_last() =~= delivered@.take(i as int));
            if delivered[i] {
                kept.push(self.ids[i]);
                count = count + 1;
            }
            i = i + 1;
        }
        assert(ids0.take(n as int) =~= ids0);
        assert(delivered@.take(n as int) =~= delivered@);
        proof {
            lemma_kept_after_subset(ids0, delivered@);
        }
        self.ids = kept;
        count
    }
}

} // verus!
