//! A bounded history buffer: it keeps the most recent `capacity` items in
//! arrival order, dropping the oldest when full. The spectrogram, embedding
//! and classifier stages all aggregate their inputs through one of these.

use vstd::prelude::*;

verus! {

/// The most recent `n` items of a stream `s`: all of it while it is still
/// short, else its last `n` items in order.
pub open spec fn recent<T>(s: Seq<T>, n: int) -> Seq<T> {
    if s.len() <= n {
        s
    } else {
        s.skip(s.len() - n)
    }
}

/// How keeping the most recent `n` items reacts to one more arrival.
pub proof fn lemma_recent_push<T>(s: Seq<T>, x: T, n: int)
    requires
        n >= 1,
    ensures
        recent(s.push(x), n) == if recent(s, n).len() == n {
            recent(s, n).skip(1).push(x)
        } else {
            recent(s, n).push(x)
        },
{
    if s.len() < n {
        assert(recent(s.push(x), n) =~= recent(s, n).push(x));
    } else {
        assert(recent(s.push(x), n) =~= recent(s, n).skip(1).push(x));
    }
}

pub struct Ring<T> {
    items: Vec<T>,
    cap: usize,
}

impl<T> View for Ring<T> {
    type V = Seq<T>;

    closed spec fn view(&self) -> Seq<T> {
        self.items@
    }
}

impl<T> Ring<T> {
    pub closed spec fn capacity(&self) -> nat {
        self.cap as nat
    }

    pub open spec fn wf(&self) -> bool {
        self@.len() <= self.capacity() && self.capacity() >= 1
    }

    pub open spec fn is_full_spec(&self) -> bool {
        self@.len() == self.capacity()
    }

    pub fn new(capacity: usize) -> (r: Self)
        requires
            capacity >= 1,
        ensures
            r.wf(),
            r@ =~= Seq::<T>::empty(),
            r.capacity() == capacity,
    {
        Ring { items: Vec::new(), cap: capacity }
    }

    /// Append `x`, evicting the oldest item if the buffer is already full.
    pub fn push(&mut self, x: T)
        requires
            old(self).wf(),
        ensures
            final(self).wf(),
            final(self).capacity() == old(self).capacity(),
            final(self)@ == if old(self).is_full_spec() {
                old(self)@.skip(1).push(x)
            } else {
                old(self)@.push(x)
            },
    {
        if self.items.len() == self.cap {
            self.items.remove(0);
            proof {
                assert(self.items@ =~= old(self)@.skip(1));
            }
        }
        self.items.push(x);
    }

    pub fn len(&self) -> (n: usize)
        ensures
            n == self@.len(),
    {
        self.items.len()
    }

    pub fn is_full(&self) -> (b: bool)
        ensures
            b == self.is_full_spec(),
    {
        self.items.len() == self.cap
    }

    pub fn get(&self, i: usize) -> (x: &T)
        requires
            i < self@.len(),
        ensures
            *x == self@[i as int],
    {
        &self.items[i]
    }
}

} // verus!
