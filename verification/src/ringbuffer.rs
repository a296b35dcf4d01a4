use vstd::prelude::*;

verus! {

/// The one way construction can fail: a buffer of capacity zero could never
/// hold an element and its wrap-around arithmetic would be degenerate.
#[derive(Clone, Copy, Debug, PartialEq, Eq, Structural)]
pub enum RingError {
    InvalidCapacity,
}

/// A fixed-capacity circular buffer. Once full, a push overwrites the oldest
/// entry; iteration walks the valid entries from newest to oldest.
pub struct Ringbuffer<T> {
    write_idx: usize,
    inserted: usize,
    buf: Vec<T>,
}

/// Index of the backing slot that holds the `i`-th newest element of a buffer
/// with capacity `cap` and write cursor `write_idx`: `i` steps behind the
/// cursor, wrapping around at slot zero.
pub open spec fn ring_slot(cap: int, write_idx: int, i: int) -> int {
    if write_idx - 1 - i >= 0 {
        write_idx - 1 - i
    } else {
        write_idx - 1 - i + cap
    }
}

impl<T> Ringbuffer<T> {
    /// Number of slots in the backing store, fixed at construction.
    pub closed spec fn capacity(&self) -> nat {
        self.buf@.len()
    }

    /// Lifetime count of pushes into this buffer.
    pub closed spec fn total_inserted(&self) -> nat {
        self.inserted as nat
    }

    /// The write cursor stays strictly inside a non-empty backing store.
    pub closed spec fn wf(&self) -> bool {
        0 < self.buf@.len() && self.write_idx < self.buf@.len()
    }
}

impl<T> View for Ringbuffer<T> {
    type V = Seq<T>;

    /// The logically valid contents, newest first.
    closed spec fn view(&self) -> Seq<T> {
        Seq::new(
            vstd::math::min(self.inserted as int, self.buf@.len() as int) as nat,
            |i: int| self.buf@[ring_slot(self.buf@.len() as int, self.write_idx as int, i)],
        )
    }
}

impl<T> Ringbuffer<T> {
    /// Allocates `capacity` slots, each pre-filled with a clone of `fill` as a
    /// placeholder, and starts with nothing logically inserted. A capacity of
    /// zero is rejected.
    pub fn new(capacity: usize, fill: T) -> (r: Result<Ringbuffer<T>, RingError>) where T: Clone
        ensures
            capacity == 0 <==> r is Err,
            r is Err ==> r == Err::<Ringbuffer<T>, RingError>(RingError::InvalidCapacity),
            r matches Ok(rb) ==> rb.wf() && rb.capacity() == capacity && rb.total_inserted() == 0
                && rb@ == Seq::<T>::empty(),
    {
        if capacity == 0 {
            return Err(RingError::InvalidCapacity);
        }
        let mut buf: Vec<T> = Vec::new();
        let mut i: usize = 0;
        while i < capacity
            invariant
                i <= capacity,
                buf@.len() == i,
            decreases capacity - i,
        {
            buf.push(fill.clone());
            i = i + 1;
        }
        let rb = Ringbuffer { write_idx: 0, inserted: 0, buf };
        proof {
            assert(rb@ =~= Seq::<T>::empty());
        }
        Ok(rb)
    }

    /// Overwrites the slot under the write cursor with `val`, advances the
    /// cursor with wrap-around, and counts the insertion. On the abstract
    /// contents this prepends `val` and drops whatever no longer fits.
    pub fn push(&mut self, val: T)
        requires
            old(self).wf(),
            old(self).total_inserted() < usize::MAX,
        ensures
            final(self).wf(),
            final(self).capacity() == old(self).capacity(),
            final(self).total_inserted() == old(self).total_inserted() + 1,
            final(self)@ == push_model(old(self)@, old(self).capacity(), val),
    {
        if self.write_idx == self.buf.len() {
            // Defensive reset: `wf` keeps the cursor strictly below the
            // capacity, so this branch never fires.
            self.write_idx = 0;
        }

        self.buf.set(self.write_idx, val);

        self.write_idx = self.write_idx + 1;
        if self.write_idx == self.buf.len() {
            self.write_idx = 0;
        }
        self.inserted = self.inserted + 1;

        proof {
            let c = self.buf@.len() as int;
            let w0 = old(self).write_idx as int;
            let lhs = self@;
            let rhs = push_model(old(self)@, old(self).capacity(), val);
            assert forall|i: int| 0 <= i < lhs.len() implies lhs[i] == rhs[i] by {
                if i == 0 {
                    assert(ring_slot(c, self.write_idx as int, 0) == w0);
                } else {
                    assert(ring_slot(c, self.write_idx as int, i) == ring_slot(c, w0, i - 1));
                    assert(ring_slot(c, w0, i - 1) != w0);
                }
            }
            assert(lhs =~= rhs);
        }
    }

    /// Starts a fresh, read-only snapshot iteration over the current
    /// contents, newest element first.
    pub fn into_iter<'a>(&'a self) -> (r: RingbufferIter<'a, T>)
        requires
            self.wf(),
        ensures
            r.wf(),
            r.ring() == *self,
            r.yielded() == 0,
            r.remaining() == self@,
    {
        let r = RingbufferIter {
            idx: self.write_idx,
            ring: self,
            items_to_yield: if self.inserted < self.buf.len() {
                self.inserted
            } else {
                self.buf.len()
            },
        };
        proof {
            assert(r.remaining() =~= self@);
        }
        r
    }
}

/// Effect of one push on the abstract contents `s` (newest first) of a buffer
/// with capacity `cap`: the new value is prepended and anything beyond the
/// capacity falls off the old end.
pub open spec fn push_model<T>(s: Seq<T>, cap: nat, v: T) -> Seq<T> {
    (seq![v] + s).take(vstd::math::min(s.len() as int + 1, cap as int))
}

/// Abstract contents after pushing the values of `vs`, in order, into a fresh
/// buffer of capacity `cap`.
pub open spec fn history_view<T>(vs: Seq<T>, cap: nat) -> Seq<T>
    decreases vs.len(),
{
    if vs.len() == 0 {
        Seq::empty()
    } else {
        push_model(history_view(vs.drop_last(), cap), cap, vs.last())
    }
}

/// Read-only iteration state over a `Ringbuffer`, walking from the newest
/// element back to the oldest valid one. Each instance is an independent
/// snapshot; it never mutates the buffer it reads.
pub struct RingbufferIter<'a, T> {
    idx: usize,
    items_to_yield: usize,
    ring: &'a Ringbuffer<T>,
}

/// Cursor of an iterator that has already yielded `yielded` elements: the
/// slot one step on the newer side of the next element to yield.
pub open spec fn iter_cursor(cap: int, write_idx: int, yielded: int) -> int {
    if yielded == 0 {
        write_idx
    } else {
        ring_slot(cap, write_idx, yielded - 1)
    }
}

impl<'a, T> RingbufferIter<'a, T> {
    /// The buffer state this iterator reads from.
    pub closed spec fn ring(&self) -> Ringbuffer<T> {
        *self.ring
    }

    /// How many elements this iterator has yielded so far.
    pub closed spec fn yielded(&self) -> nat {
        (self.ring@.len() - self.items_to_yield) as nat
    }

    /// The elements still to come, newest first.
    pub closed spec fn remaining(&self) -> Seq<T> {
        self.ring@.skip(self.yielded() as int)
    }

    /// The iterator reads a well-formed buffer, never promises more elements
    /// than are valid, and keeps its cursor aligned with its progress.
    pub closed spec fn wf(&self) -> bool {
        &&& self.ring.wf()
        &&& self.items_to_yield <= self.ring@.len()
        &&& self.idx == iter_cursor(
            self.ring.capacity() as int,
            self.ring.write_idx as int,
            self.yielded() as int,
        )
    }

    /// Yields the next element, newest remaining first, or `None` once every
    /// valid element has been produced. The exhausted state is terminal: the
    /// iterator is then left unchanged.
    pub fn next(&mut self) -> (r: Option<&'a T>)
        requires
            old(self).wf(),
        ensures
            final(self).wf(),
            final(self).ring() == old(self).ring(),
            old(self).remaining().len() == 0 ==> r is None && *final(self) == *old(self),
            old(self).remaining().len() > 0 ==> final(self).yielded() == old(self).yielded() + 1,
            old(self).remaining().len() > 0 ==> final(self).remaining() == old(
                self,
            ).remaining().skip(1),
            old(self).remaining().len() > 0 ==> (r matches Some(v) && *v == old(
                self,
            ).remaining()[0]),
    {
        if self.items_to_yield == 0 {
            None
        } else {
            if self.idx == 0 {
                self.idx = self.ring.buf.len();
            }

            self.items_to_yield = self.items_to_yield - 1;
            self.idx = self.idx - 1;

            proof {
                let c = self.ring.capacity() as int;
                let w = self.ring.write_idx as int;
                let y0 = old(self).yielded() as int;
                assert(self.idx == ring_slot(c, w, y0));
                assert(self.ring@[y0] == self.ring.buf@[ring_slot(c, w, y0)]);
                assert(self.remaining() =~= old(self).remaining().skip(1));
            }
            Some(&self.ring.buf[self.idx])
        }
    }
}

/// A well-formed buffer exposes exactly `min(total_inserted, capacity)`
/// elements.
pub proof fn lemma_view_len<T>(rb: &Ringbuffer<T>)
    requires
        rb.wf(),
    ensures
        rb@.len() == vstd::math::min(rb.total_inserted() as int, rb.capacity() as int),
{
}

/// Pushing `n` values into a fresh buffer of capacity `cap` leaves exactly
/// `min(n, cap)` elements observable.
pub proof fn lemma_history_len<T>(vs: Seq<T>, cap: nat)
    requires
        0 < cap,
    ensures
        history_view(vs, cap).len() == vstd::math::min(vs.len() as int, cap as int),
    decreases vs.len(),
{
    if vs.len() > 0 {
        lemma_history_len(vs.drop_last(), cap);
    }
}

/// Each observable position holds the matching push: position `i` (newest
/// first) of the contents after pushing `vs` holds the `i`-th most recent
/// value of `vs`.
pub proof fn lemma_history_item<T>(vs: Seq<T>, cap: nat, i: int)
    requires
        0 < cap,
        0 <= i < vstd::math::min(vs.len() as int, cap as int),
    ensures
        history_view(vs, cap)[i] == vs[vs.len() - 1 - i],
    decreases vs.len(),
{
    lemma_history_len(vs, cap);
    lemma_history_len(vs.drop_last(), cap);
    if i > 0 {
        lemma_history_item(vs.drop_last(), cap, i - 1);
    }
}

/// Within capacity, iteration order is exactly the reverse of push order:
/// pushing `v1, ..., vn` with `n <= cap` leaves the contents `vn, ..., v1`.
pub proof fn lemma_newest_to_oldest<T>(vs: Seq<T>, cap: nat)
    requires
        0 < cap,
        vs.len() <= cap,
    ensures
        history_view(vs, cap) == vs.reverse(),
{
    lemma_history_len(vs, cap);
    assert forall|i: int| 0 <= i < vs.len() implies history_view(vs, cap)[i] == vs.reverse()[i] by {
        lemma_history_item(vs, cap, i);
    }
    assert(history_view(vs, cap) =~= vs.reverse());
}

/// Overflowing forgets exactly the oldest pushes: after `n >= cap` pushes the
/// buffer holds the last `cap` values, newest first; the earlier pushes are no
/// longer observable.
pub proof fn lemma_overwrite<T>(vs: Seq<T>, cap: nat)
    requires
        0 < cap,
        vs.len() >= cap,
    ensures
        history_view(vs, cap) == vs.skip(vs.len() - cap).reverse(),
{
    lemma_history_len(vs, cap);
    assert forall|i: int| 0 <= i < cap implies history_view(vs, cap)[i] == vs.skip(
        vs.len() - cap,
    ).reverse()[i] by {
        lemma_history_item(vs, cap, i);
    }
    assert(history_view(vs, cap) =~= vs.skip(vs.len() - cap).reverse());
}

/// Stopping early loses nothing but the tail: after any number of steps, what
/// a well-formed iterator has yielded so far is exactly the prefix of the
/// buffer's contents (the most recent pushes, newest first), and what is still
/// to come is exactly the rest.
pub proof fn lemma_remaining_is_suffix<T>(it: &RingbufferIter<T>)
    requires
        it.wf(),
    ensures
        it.yielded() <= it.ring()@.len(),
        it.remaining() == it.ring()@.skip(it.yielded() as int),
{
}

/// Iteration is restartable and independent: two fresh iterators over the
/// same buffer state agree on the whole sequence they will yield.
pub proof fn lemma_iterate_restartable<T>(i1: &RingbufferIter<T>, i2: &RingbufferIter<T>)
    requires
        i1.wf(),
        i2.wf(),
        i1.ring() == i2.ring(),
        i1.yielded() == 0,
        i2.yielded() == 0,
    ensures
        i1.remaining() == i2.remaining(),
{
}

} // verus!
