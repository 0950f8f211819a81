use crate::msg::ClientId;
use vstd::prelude::*;

verus! {

/// The pending deliveries held in a queue, oldest first, each as its bytes.
pub open spec fn queue_view(q: Vec<Vec<u8>>) -> Seq<Seq<u8>> {
    Seq::new(q@.len(), |i: int| q@[i]@)
}

/// One registered connection: its identity and its delivery handle, the
/// strict FIFO queue of encoded frames that the connection's writer drains.
pub struct RegistryEntry {
    pub id: ClientId,
    pub queue: Vec<Vec<u8>>,
}

/// The process-wide bookkeeping of which identities are connected and how to
/// reach each one: the single shared mutable resource of the relay.  An id is
/// present exactly between successful registration and disconnect cleanup.
pub struct ClientRegistry {
    pub entries: Vec<RegistryEntry>,
}

/// Copies a byte buffer, element for element.
fn clone_bytes(v: &Vec<u8>) -> (r: Vec<u8>)
    ensures
        r@ == v@,
{
    let mut r: Vec<u8> = Vec::new();
    let n: usize = v.len();
    let mut i: usize = 0;
    while i < n
        invariant
            i <= n,
            n == v@.len(),
            r@.len() == i,
            forall|k: int| 0 <= k < i ==> r@[k] == v@[k],
        decreases n - i,
    {
        r.push(v[i]);
        i = i + 1;
    }
    proof {
        assert(r@ =~= v@);
    }
    r
}

impl ClientRegistry {
    /// Well-formedness: no identity occurs twice.
    pub open spec fn wf(self) -> bool {
        forall|i: int, j: int|
            0 <= i < j < self.entries@.len() ==> self.entries@[i].id != self.entries@[j].id
    }

    /// Whether `id` is currently registered.
    pub open spec fn spec_contains(self, id: ClientId) -> bool {
        exists|i: int| 0 <= i < self.entries@.len() && self.entries@[i].id == id
    }

    /// The index of `id`'s entry (meaningful when the id is registered).
    pub open spec fn index_of(self, id: ClientId) -> int {
        choose|i: int| 0 <= i < self.entries@.len() && self.entries@[i].id == id
    }

    /// The pending deliveries of `id`, oldest first.
    pub open spec fn queue_of(self, id: ClientId) -> Seq<Seq<u8>> {
        queue_view(self.entries@[self.index_of(id)].queue)
    }

    pub fn new() -> (reg: Self)
        ensures
            reg.wf(),
            reg.entries@.len() == 0,
    {
        ClientRegistry { entries: Vec::new() }
    }

    /// How many clients are currently registered.
    pub fn member_count(&self) -> (n: usize)
        ensures
            n == self.entries@.len(),
    {
        self.entries.len()
    }

    fn find_index(&self, id: ClientId) -> (r: Option<usize>)
        ensures
            match r {
                Some(k) => k < self.entries@.len() && self.entries@[k as int].id == id,
                None => !self.spec_contains(id),
            },
    {
        let n: usize = self.entries.len();
        let mut k: usize = 0;
        while k < n
            invariant
                k <= n,
                n == self.entries@.len(),
                forall|i: int| 0 <= i < k ==> self.entries@[i].id != id,
            decreases n - k,
        {
            if self.entries[k].id == id {
                return Some(k);
            }
            k = k + 1;
        }
        None
    }

    /// Whether `id` is currently registered.
    pub fn contains(&self, id: ClientId) -> (r: bool)
        ensures
            r == self.spec_contains(id),
    {
        match self.find_index(id) {
            Some(_) => true,
            None => false,
        }
    }

    /// Inserts a new entry with an empty delivery queue.  Fails (returning
    /// false, changing nothing) only on a duplicate id, which the counter
    /// based allocation of identities rules out.
    pub fn register(&mut self, id: ClientId) -> (fresh: bool)
        requires
            old(self).wf(),
        ensures
            final(self).wf(),
            fresh == !old(self).spec_contains(id),
            final(self).spec_contains(id),
            !fresh ==> *final(self) == *old(self),
            fresh ==> final(self).entries@.len() == old(self).entries@.len() + 1
                && final(self).entries@[old(self).entries@.len() as int].id == id
                && queue_view(final(self).entries@[old(self).entries@.len() as int].queue)
                    == Seq::<Seq<u8>>::empty()
                && (forall|i: int| 0 <= i < old(self).entries@.len()
                    ==> final(self).entries@[i] == old(self).entries@[i]),
    {
        match self.find_index(id) {
            Some(_) => false,
            None => {
                let queue: Vec<Vec<u8>> = Vec::new();
                self.entries.push(RegistryEntry { id, queue });
                proof {
                    let n = old(self).entries@.len() as int;
                    assert(self.entries@[n].id == id);
                    assert(queue_view(self.entries@[n].queue) =~= Seq::<Seq<u8>>::empty());
                    assert forall|i: int, j: int|
                        0 <= i < j < self.entries@.len() implies self.entries@[i].id
                        != self.entries@[j].id by {
                        if j < n {
                        } else {
                            assert(self.entries@[i] == old(self).entries@[i]);
                        }
                    }
                }
                true
            },
        }
    }

    /// Removes `id`'s entry.  Idempotent: removing an absent id is a no-op,
    /// because disconnect cleanup may race with other cleanup paths.
    pub fn unregister(&mut self, id: ClientId)
        requires
            old(self).wf(),
        ensures
            final(self).wf(),
            !final(self).spec_contains(id),
            !old(self).spec_contains(id) ==> *final(self) == *old(self),
            old(self).spec_contains(id)
                ==> final(self).entries@ == old(self).entries@.remove(old(self).index_of(id)),
    {
        match self.find_index(id) {
            Some(k) => {
                proof {
                    let ix = old(self).index_of(id);
                    assert(old(self).spec_contains(id));
                    assert(0 <= ix < old(self).entries@.len() && old(self).entries@[ix].id == id);
                    assert(ix == k as int);
                }
                let _removed = self.entries.remove(k);
                proof {
                    let o = old(self).entries@;
                    assert(self.entries@ =~= o.remove(k as int));
                    assert forall|m: int|
                        0 <= m < self.entries@.len() implies self.entries@[m].id != id by {
                        if m < k {
                            assert(self.entries@[m] == o[m]);
                        } else {
                            assert(self.entries@[m] == o[m + 1]);
                        }
                    }
                    assert forall|i: int, j: int|
                        0 <= i < j < self.entries@.len() implies self.entries@[i].id
                        != self.entries@[j].id by {
                        let oi = if i < k { i } else { i + 1 };
                        let oj = if j < k { j } else { j + 1 };
                        assert(self.entries@[i] == o[oi]);
                        assert(self.entries@[j] == o[oj]);
                    }
                }
            },
            None => {},
        }
    }

    /// Appends `payload` to the delivery queue of one member.  Returns
    /// whether the member was present; an absent member changes nothing.
    pub fn enqueue_to(&mut self, id: ClientId, payload: &Vec<u8>) -> (delivered: bool)
        requires
            old(self).wf(),
        ensures
            final(self).wf(),
            delivered == old(self).spec_contains(id),
            !delivered ==> *final(self) == *old(self),
            delivered ==> final(self).entries@.len() == old(self).entries@.len()
                && (forall|m: int| 0 <= m < old(self).entries@.len() && m != old(self).index_of(id)
                    ==> final(self).entries@[m] == old(self).entries@[m])
                && final(self).entries@[old(self).index_of(id)].id == id
                && queue_view(final(self).entries@[old(self).index_of(id)].queue)
                    == queue_view(old(self).entries@[old(self).index_of(id)].queue).push(payload@),
    {
        match self.find_index(id) {
            Some(k) => {
                proof {
                    let ix = old(self).index_of(id);
                    assert(old(self).spec_contains(id));
                    assert(0 <= ix < old(self).entries@.len() && old(self).entries@[ix].id == id);
                    assert(ix == k as int);
                }
                let item = clone_bytes(payload);
                self.entries[k].queue.push(item);
                proof {
                    assert(queue_view(self.entries@[k as int].queue) =~= queue_view(
                        old(self).entries@[k as int].queue,
                    ).push(payload@));
                }
                true
            },
            None => false,
        }
    }

    /// Atomically observes the membership and appends `payload` to the
    /// delivery queue of every member other than `exclude`, exactly once
    /// each.  The excluded member's entry is untouched.
    pub fn broadcast_except(&mut self, exclude: ClientId, payload: &Vec<u8>)
        requires
            old(self).wf(),
        ensures
            final(self).wf(),
            final(self).entries@.len() == old(self).entries@.len(),
            forall|m: int| 0 <= m < old(self).entries@.len()
                ==> final(self).entries@[m].id == old(self).entries@[m].id,
            forall|m: int| 0 <= m < old(self).entries@.len() && old(self).entries@[m].id != exclude
                ==> queue_view(final(self).entries@[m].queue)
                    == queue_view(old(self).entries@[m].queue).push(payload@),
            forall|m: int| 0 <= m < old(self).entries@.len() && old(self).entries@[m].id == exclude
                ==> final(self).entries@[m] == old(self).entries@[m],
    {
        let n: usize = self.entries.len();
        let mut k: usize = 0;
        while k < n
            invariant
                k <= n,
                n == self.entries@.len(),
                self.entries@.len() == old(self).entries@.len(),
                forall|m: int| 0 <= m < n
                    ==> self.entries@[m].id == old(self).entries@[m].id,
                forall|m: int| 0 <= m < k && old(self).entries@[m].id != exclude
                    ==> queue_view(self.entries@[m].queue)
                        == queue_view(old(self).entries@[m].queue).push(payload@),
                forall|m: int| k <= m < n ==> self.entries@[m] == old(self).entries@[m],
                forall|m: int| 0 <= m < n && old(self).entries@[m].id == exclude
                    ==> self.entries@[m] == old(self).entries@[m],
            decreases n - k,
        {
            if self.entries[k].id != exclude {
                let item = clone_bytes(payload);
                self.entries[k].queue.push(item);
                proof {
                    assert(queue_view(self.entries@[k as int].queue) =~= queue_view(
                        old(self).entries@[k as int].queue,
                    ).push(payload@));
                }
            }
            k = k + 1;
        }
    }

    /// Takes every pending delivery of `id` out of its queue, in arrival
    /// order, leaving the queue empty.  An absent id yields nothing.
    pub fn drain(&mut self, id: ClientId) -> (out: Vec<Vec<u8>>)
        requires
            old(self).wf(),
        ensures
            final(self).wf(),
            !old(self).spec_contains(id) ==> *final(self) == *old(self) && out@.len() == 0,
            old(self).spec_contains(id)
                ==> queue_view(out) == queue_view(old(self).entries@[old(self).index_of(id)].queue)
                && final(self).entries@.len() == old(self).entries@.len()
                && (forall|m: int| 0 <= m < old(self).entries@.len() && m != old(self).index_of(id)
                    ==> final(self).entries@[m] == old(self).entries@[m])
                && final(self).entries@[old(self).index_of(id)].id == id
                && queue_view(final(self).entries@[old(self).index_of(id)].queue)
                    == Seq::<Seq<u8>>::empty(),
    {
        match self.find_index(id) {
            Some(k) => {
                proof {
                    let ix = old(self).index_of(id);
                    assert(old(self).spec_contains(id));
                    assert(0 <= ix < old(self).entries@.len() && old(self).entries@[ix].id == id);
                    assert(ix == k as int);
                }
                let mut out: Vec<Vec<u8>> = Vec::new();
                let qn: usize = self.entries[k].queue.len();
                let mut i: usize = 0;
                while i < qn
                    invariant
                        i <= qn,
                        k < self.entries@.len(),
                        *self == *old(self),
                        qn == self.entries@[k as int].queue@.len(),
                        out@.len() == i,
                        forall|m: int|
                            0 <= m < i ==> out@[m]@ == self.entries@[k as int].queue@[m]@,
                    decreases qn - i,
                {
                    let item = clone_bytes(&self.entries[k].queue[i]);
                    out.push(item);
                    i = i + 1;
                }
                self.entries[k].queue.clear();
                proof {
                    assert(queue_view(out) =~= queue_view(old(self).entries@[k as int].queue));
                    assert(queue_view(self.entries@[k as int].queue) =~= Seq::<Seq<u8>>::empty());
                }
                out
            },
            None => Vec::new(),
        }
    }
}

} // verus!
