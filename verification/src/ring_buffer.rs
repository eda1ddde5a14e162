//! Fixed size buffer: when it is at capacity pushes drop the oldest element.
use vstd::prelude::*;
use crate::text::{append_nat, join_str, join_strings, nat_str, texts_of};

verus! {

/// The contents a ring buffer holds after `e` is pushed onto contents `s`
/// when the buffer can hold `capacity` elements: `e` is appended and, if the
/// buffer was already full, the oldest element is dropped.
pub open spec fn ring_push<T>(s: Seq<T>, e: T, capacity: nat) -> Seq<T> {
    if s.len() < capacity {
        s.push(e)
    } else {
        s.push(e).drop_first()
    }
}

/// The contents after each element of `xs` is pushed, in order, onto `s`.
pub open spec fn ring_push_all<T>(s: Seq<T>, xs: Seq<T>, capacity: nat) -> Seq<T>
    decreases xs.len(),
{
    if xs.len() == 0 {
        s
    } else {
        ring_push_all(ring_push(s, xs[0], capacity), xs.drop_first(), capacity)
    }
}

/// The last `min(capacity, s.len())` elements of `s`.
pub open spec fn keep_last<T>(s: Seq<T>, capacity: nat) -> Seq<T> {
    if s.len() <= capacity {
        s
    } else {
        s.skip(s.len() - capacity)
    }
}

/// Fixed size buffer: when it is at capacity pushes drop the oldest element.
pub struct RingBuffer<T> {
    buffer: Vec<T>,
    capacity: usize,  // number of elements the buffer is able to hold
    size: usize,  // number of elements with legit values in the buffer
    next: usize,  // index at which new elements land
}

impl<T> View for RingBuffer<T> {
    type V = Seq<T>;

    /// The elements held, oldest first.
    closed spec fn view(&self) -> Seq<T> {
        if self.size < self.capacity {
            self.buffer@
        } else {
            Seq::new(self.size as nat, |i: int| self.buffer@[(self.next + i) % (self.capacity as int)])
        }
    }
}

impl<T> RingBuffer<T> {
    /// The number of elements the buffer is able to hold.
    pub closed spec fn spec_capacity(&self) -> nat {
        self.capacity as nat
    }

    /// Well-formedness: the internal layout agrees with the fields.
    pub closed spec fn wf(&self) -> bool {
        &&& self.buffer@.len() == self.size
        &&& self.size <= self.capacity
        &&& (self.size < self.capacity ==> self.next == self.size)
        &&& (self.capacity > 0 ==> self.next < self.capacity)
        &&& (self.capacity == 0 ==> self.next == 0)
    }

    proof fn lemma_len(&self)
        requires
            self.wf(),
        ensures
            self@.len() == self.size,
            self@.len() <= self.spec_capacity(),
    {
    }

    /// A well-formed buffer never holds more elements than its capacity.
    pub proof fn lemma_len_bound(&self)
        requires
            self.wf(),
        ensures
            self@.len() <= self.spec_capacity(),
    {
        self.lemma_len();
    }

    /// Creates an empty buffer able to hold `capacity` elements.
    pub fn new(capacity: usize) -> (r: Self)
        ensures
            r.wf(),
            r@ == Seq::<T>::empty(),
            r.spec_capacity() == capacity,
    {
        let r = RingBuffer { buffer: Vec::new(), capacity, size: 0, next: 0 };
        assert(r@ =~= Seq::<T>::empty());
        r
    }

    /// The number of elements held.
    pub fn len(&self) -> (r: usize)
        requires
            self.wf(),
        ensures
            r == self@.len(),
    {
        proof {
            self.lemma_len();
        }
        self.size
    }

    /// The number of elements the buffer is able to hold.
    pub fn capacity(&self) -> (r: usize)
        ensures
            r == self.spec_capacity(),
    {
        self.capacity
    }

    pub fn is_empty(&self) -> (r: bool)
        requires
            self.wf(),
        ensures
            r == (self@.len() == 0),
    {
        proof {
            self.lemma_len();
        }
        self.size == 0
    }

    pub fn is_not_empty(&self) -> (r: bool)
        requires
            self.wf(),
        ensures
            r == (self@.len() != 0),
    {
        proof {
            self.lemma_len();
        }
        self.size != 0
    }

    /// The number of elements held (same as `len`).
    pub fn buffer(&self) -> (r: usize)
        requires
            self.wf(),
        ensures
            r == self@.len(),
    {
        proof {
            self.lemma_len();
        }
        self.size
    }

    /// Removes every element; the capacity is kept.
    pub fn clear(&mut self)
        requires
            old(self).wf(),
        ensures
            final(self).wf(),
            final(self)@ == Seq::<T>::empty(),
            final(self).spec_capacity() == old(self).spec_capacity(),
    {
        self.buffer.truncate(0);
        self.size = 0;
        self.next = 0;
        assert(self@ =~= Seq::<T>::empty());
    }

    /// Appends `element`; when the buffer is full the oldest element is dropped.
    pub fn push(&mut self, element: T)
        requires
            old(self).wf(),
            old(self).spec_capacity() > 0,
        ensures
            final(self).wf(),
            final(self).spec_capacity() == old(self).spec_capacity(),
            final(self)@ == ring_push(old(self)@, element, old(self).spec_capacity()),
            final(self)@.len() <= final(self).spec_capacity(),
    {
        let ghost old_view = self@;
        let ghost e = element;
        let cap = self.capacity;
        if self.size < self.capacity {
            self.buffer.push(element);
            self.size = self.size + 1;
            if self.next + 1 == cap {
                self.next = 0;
            } else {
                self.next = self.next + 1;
            }
            proof {
                if self.size < self.capacity {
                    assert(self@ =~= old_view.push(e));
                } else {
                    assert forall|i: int| 0 <= i < self.size implies #[trigger] self@[i] == old_view.push(e)[i] by {
                        assert((0 + i) % (cap as int) == i) by (nonlinear_arith)
                            requires 0 <= i < cap;
                    }
                    assert(self@ =~= old_view.push(e));
                }
            }
        } else {
            let n = self.next;
            self.buffer.set(n, element);
            if n + 1 == cap {
                self.next = 0;
            } else {
                self.next = n + 1;
            }
            proof {
                let target = old_view.push(e).drop_first();
                assert forall|i: int| 0 <= i < self.size implies #[trigger] self@[i] == target[i] by {
                    let c = cap as int;
                    let nn = self.next as int;
                    let j = (nn + i) % c;
                    lemma_ring_index(n as int, nn, i, c);
                    if i < c - 1 {
                        assert(j == (n + 1 + i) % c);
                        assert(j != n);
                    } else {
                        assert(j == n);
                    }
                }
                assert(self@ =~= target);
            }
        }
    }

    /// The element at position `index`, counted from the oldest.
    pub fn index(&self, index: usize) -> (r: T)
        where
            T: Copy,
        requires
            self.wf(),
            index < self@.len(),
        ensures
            r == self@[index as int],
    {
        if self.size < self.capacity {
            self.buffer[index]
        } else {
            let k = if index < self.capacity - self.next {
                self.next + index
            } else {
                index - (self.capacity - self.next)
            };
            proof {
                let c = self.capacity as int;
                let s = self.next as int + index as int;
                if index < self.capacity - self.next {
                    assert(s % c == s) by (nonlinear_arith)
                        requires 0 <= s < c;
                } else {
                    assert(s % c == s - c) by (nonlinear_arith)
                        requires c <= s < 2 * c;
                }
            }
            self.buffer[k]
        }
    }

    /// Copies of the elements held, oldest first.
    pub fn to_vec(&self) -> (r: Vec<T>)
        where
            T: Copy,
        requires
            self.wf(),
        ensures
            r@ == self@,
    {
        let mut r: Vec<T> = Vec::new();
        let mut i: usize = 0;
        proof {
            self.lemma_len();
        }
        while i < self.size
            invariant
                self.wf(),
                i <= self.size,
                self@.len() == self.size,
                r@ =~= self@.take(i as int),
            decreases self.size - i,
        {
            let x = self.index(i);
            r.push(x);
            i = i + 1;
            assert(r@ =~= self@.take(i as int));
        }
        assert(self@.take(self.size as int) =~= self@);
        r
    }

    /// A copy of the buffer: same elements, same capacity.
    pub fn copy(&self) -> (r: Self)
        where
            T: Copy,
        requires
            self.wf(),
        ensures
            r.wf(),
            r@ == self@,
            r.spec_capacity() == self.spec_capacity(),
    {
        let mut buffer: Vec<T> = Vec::new();
        let mut i: usize = 0;
        while i < self.buffer.len()
            invariant
                i <= self.buffer@.len(),
                buffer@ =~= self.buffer@.take(i as int),
            decreases self.buffer.len() - i,
        {
            buffer.push(self.buffer[i]);
            i = i + 1;
            assert(buffer@ =~= self.buffer@.take(i as int));
        }
        assert(buffer@ =~= self.buffer@);
        RingBuffer { buffer, capacity: self.capacity, size: self.size, next: self.next }
    }

    /// Always the number of elements held.
    pub fn size_hint(&self) -> (r: Option<usize>)
        requires
            self.wf(),
        ensures
            r == Some(self@.len() as usize),
    {
        proof {
            self.lemma_len();
        }
        Some(self.size)
    }

    /// The slot at which the next element lands.
    pub closed spec fn spec_next(&self) -> nat {
        self.next as nat
    }

    /// The elements in the order they are stored.
    pub closed spec fn stored(&self) -> Seq<T> {
        self.buffer@
    }

    /// The buffer's fields written out, each stored element written by
    /// `show`: "size: N, next: N, capacity: N, buffer: [E, E]".
    pub fn to_str<F: Fn(&T) -> String>(&self, show: &F) -> (r: String)
        requires
            self.wf(),
            forall|i: int| 0 <= i < self.stored().len() ==> call_requires(*show, (&self.stored()[i],)),
        ensures
            exists|shown: Seq<String>| {
                &&& shown.len() == self.stored().len()
                &&& forall|i: int| 0 <= i < shown.len() ==> call_ensures(*show, (&self.stored()[i],), #[trigger] shown[i])
                &&& r@ == "size: "@ + nat_str(self@.len()) + ", next: "@ + nat_str(self.spec_next()) + ", capacity: "@
                    + nat_str(self.spec_capacity()) + ", buffer: ["@ + join_str(texts_of(shown), ", "@) + "]"@
            },
    {
        proof {
            self.lemma_len();
            assert forall|k: int| 0 <= k < self.buffer@.len() implies call_requires(*show, (&self.buffer@[k],)) by {
                assert(self.stored()[k] == self.buffer@[k]);
            }
        }
        let mut shown: Vec<String> = Vec::new();
        let mut i: usize = 0;
        while i < self.buffer.len()
            invariant
                i <= self.buffer@.len(),
                shown@.len() == i,
                forall|k: int| 0 <= k < self.buffer@.len() ==> call_requires(*show, (&self.buffer@[k],)),
                forall|k: int| 0 <= k < i ==> call_ensures(*show, (&self.buffer@[k],), #[trigger] shown@[k]),
            decreases self.buffer.len() - i,
        {
            let text = show(&self.buffer[i]);
            shown.push(text);
            i = i + 1;
        }
        let mut r = String::from_str("size: ");
        append_nat(&mut r, self.size as u64);
        r.append(", next: ");
        append_nat(&mut r, self.next as u64);
        r.append(", capacity: ");
        append_nat(&mut r, self.capacity as u64);
        r.append(", buffer: [");
        let joined = join_strings(&shown, ", ");
        r.append(joined.as_str());
        r.append("]");
        assert(shown@.len() == self.stored().len());
        assert(forall|k: int| 0 <= k < shown@.len() ==> call_ensures(*show, (&self.stored()[k],), #[trigger] shown@[k]));
        r
    }

    /// Calls `blk` on each element, oldest first, until it returns false.
    /// Returns the number of elements on which `blk` was called.
    pub fn each<F: Fn(&T) -> bool>(&self, blk: &F) -> (r: usize)
        where
            T: Copy,
        requires
            self.wf(),
            forall|i: int| 0 <= i < self@.len() ==> call_requires(*blk, (&self@[i],)),
        ensures
            r <= self@.len(),
            forall|i: int| 0 <= i < r - 1 ==> call_ensures(*blk, (&self@[i],), true),
            r < self@.len() ==> r > 0 && call_ensures(*blk, (&self@[r - 1],), false),
    {
        proof {
            self.lemma_len();
        }
        let mut i: usize = 0;
        while i < self.size
            invariant
                self.wf(),
                i <= self.size,
                self@.len() == self.size,
                forall|k: int| 0 <= k < self@.len() ==> call_requires(*blk, (&self@[k],)),
                forall|k: int| 0 <= k < i ==> call_ensures(*blk, (&self@[k],), true),
            decreases self.size - i,
        {
            let x = self.index(i);
            let keep_going = blk(&x);
            if !keep_going {
                return i + 1;
            }
            i = i + 1;
        }
        i
    }
}

proof fn lemma_ring_index(n: int, nn: int, i: int, c: int)
    requires
        0 <= n < c,
        nn == if n + 1 == c { 0 } else { n + 1 },
        0 <= i < c,
    ensures
        (nn + i) % c == (n + 1 + i) % c,
        i < c - 1 ==> (nn + i) % c != n,
        i == c - 1 ==> (nn + i) % c == n,
{
    assert((n + 1 + i) % c == if n + 1 + i < c { n + 1 + i } else { n + 1 + i - c }) by (nonlinear_arith)
        requires 0 <= n + 1 + i < 2 * c, c > 0;
    assert((nn + i) % c == if nn + i < c { nn + i } else { nn + i - c }) by (nonlinear_arith)
        requires 0 <= nn + i < 2 * c, c > 0;
}

/// Pushing elements one at a time onto a buffer of capacity `capacity` leaves
/// the last `capacity` elements pushed (or all of them if there were fewer),
/// oldest first.
pub proof fn lemma_push_all_keeps_last<T>(s: Seq<T>, xs: Seq<T>, capacity: nat)
    requires
        capacity > 0,
        s.len() <= capacity,
    ensures
        ring_push_all(s, xs, capacity) == keep_last(s + xs, capacity),
    decreases xs.len(),
{
    if xs.len() == 0 {
        assert(s + xs =~= s);
    } else {
        let s1 = ring_push(s, xs[0], capacity);
        lemma_push_all_keeps_last(s1, xs.drop_first(), capacity);
        let a = s + xs;
        let b = s1 + xs.drop_first();
        if s.len() < capacity {
            assert(b =~= a);
        } else {
            assert(b =~= a.drop_first());
            assert(keep_last(b, capacity) =~= keep_last(a, capacity));
        }
    }
}

/// A buffer never holds more elements than its capacity; each push leaves
/// the pushed element as the newest one, keeps the older ones in order, and
/// drops the oldest one when the buffer was full.
pub proof fn lemma_push_newest<T>(s: Seq<T>, e: T, capacity: nat)
    requires
        capacity > 0,
        s.len() <= capacity,
    ensures
        ring_push(s, e, capacity).len() <= capacity,
        ring_push(s, e, capacity).len() == if s.len() < capacity { s.len() + 1 } else { s.len() },
        ring_push(s, e, capacity).last() == e,
        s.len() < capacity ==> forall|i: int| 0 <= i < s.len() ==> #[trigger] ring_push(s, e, capacity)[i] == s[i],
        s.len() == capacity ==> forall|i: int| 0 <= i < capacity - 1 ==> #[trigger] ring_push(s, e, capacity)[i] == s[i + 1],
{
}

} // verus!
