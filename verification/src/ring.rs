use vstd::prelude::*;

use ringbuf::traits::{Consumer, Producer, RingBuffer};

verus! {

/// A fixed-capacity overwrite-oldest ring buffer of sample words,
/// backed by ringbuf's heap-allocated ring buffer. The buffer itself is
/// opaque here; everything the engines rely on is stated over
/// [`ring_words`] and [`ring_capacity`] by the trusted wrappers below,
/// each of which makes exactly one call into ringbuf.
#[verifier::external_body]
pub struct WordRing {
    rb: ringbuf::HeapRb<u32>,
}

/// The sample words a ring buffer currently holds, oldest first.
pub uninterp spec fn ring_words(rb: WordRing) -> Seq<u32>;

/// The fixed capacity a ring buffer was created with.
pub uninterp spec fn ring_capacity(rb: WordRing) -> nat;

/// The smaller of two lengths.
pub open spec fn min_sz(a: nat, b: nat) -> nat {
    if a <= b {
        a
    } else {
        b
    }
}

/// What a ring buffer holds after an overwriting append: the slice is
/// appended after just enough of the oldest items were discarded that
/// everything fits.
pub open spec fn after_overwrite(held: Seq<u32>, pushed: Seq<u32>, cap: nat) -> Seq<u32> {
    let all = held + pushed;
    if all.len() <= cap {
        all
    } else {
        all.skip(all.len() - cap)
    }
}

impl WordRing {
    /// Relies on ringbuf's HeapRb::new: the buffer is created empty,
    /// with exactly the requested capacity. Creation panics on capacity
    /// zero, which the precondition rules out.
    #[verifier::external_body]
    pub(crate) fn new(capacity: usize) -> (rb: WordRing)
        requires
            1 <= capacity,
        ensures
            ring_words(rb) == Seq::<u32>::empty(),
            ring_capacity(rb) == capacity as nat,
    {
        WordRing { rb: ringbuf::HeapRb::new(capacity) }
    }

    /// Relies on ringbuf's Producer::try_push: appends the item at the
    /// newest end when the buffer is not full, and hands it back
    /// unchanged when the buffer is full.
    #[verifier::external_body]
    pub(crate) fn try_push(&mut self, word: u32) -> (r: Result<(), u32>)
        ensures
            ring_capacity(*final(self)) == ring_capacity(*old(self)),
            ring_words(*final(self)).len() <= ring_capacity(*final(self)),
            ring_words(*old(self)).len() < ring_capacity(*old(self)) ==> {
                &&& r is Ok
                &&& ring_words(*final(self)) == ring_words(*old(self)).push(word)
            },
            ring_words(*old(self)).len() >= ring_capacity(*old(self)) ==> {
                &&& r is Err
                &&& r->Err_0 == word
                &&& ring_words(*final(self)) == ring_words(*old(self))
            },
    {
        self.rb.try_push(word)
    }

    /// Relies on ringbuf's RingBuffer::push_slice_overwrite: appends the
    /// slice, first discarding just enough of the oldest items that
    /// everything fits; a slice longer than the capacity contributes
    /// only its last `capacity` items.
    #[verifier::external_body]
    pub(crate) fn push_slice_overwrite(&mut self, words: &Vec<u32>)
        ensures
            ring_capacity(*final(self)) == ring_capacity(*old(self)),
            ring_words(*final(self)).len() <= ring_capacity(*final(self)),
            ring_words(*final(self)) == after_overwrite(
                ring_words(*old(self)),
                words@,
                ring_capacity(*old(self)),
            ),
    {
        self.rb.push_slice_overwrite(words.as_slice());
    }

    /// Relies on ringbuf's Consumer::peek_slice: copies the oldest items
    /// into the front of the given buffer, as many as fit, without
    /// consuming them; the rest of the buffer is left as it was.
    #[verifier::external_body]
    pub(crate) fn peek_slice(&self, out: &mut Vec<u32>) -> (count: usize)
        ensures
            count as nat == min_sz(old(out)@.len(), ring_words(*self).len()),
            final(out)@ == ring_words(*self).take(count as int) + old(out)@.skip(count as int),
    {
        self.rb.peek_slice(out.as_mut_slice())
    }

    /// Relies on ringbuf's Consumer::pop_slice: removes the oldest items
    /// into the front of the given buffer, as many as fit; the rest of
    /// the buffer is left as it was.
    #[verifier::external_body]
    pub(crate) fn pop_slice(&mut self, out: &mut Vec<u32>) -> (count: usize)
        ensures
            ring_capacity(*final(self)) == ring_capacity(*old(self)),
            ring_words(*final(self)).len() <= ring_capacity(*final(self)),
            count as nat == min_sz(old(out)@.len(), ring_words(*old(self)).len()),
            final(out)@ == ring_words(*old(self)).take(count as int) + old(out)@.skip(
                count as int,
            ),
            ring_words(*final(self)) == ring_words(*old(self)).skip(count as int),
    {
        self.rb.pop_slice(out.as_mut_slice())
    }

    /// Relies on ringbuf's Producer::push_slice: appends items from the
    /// front of the slice until the buffer is full or the slice is
    /// exhausted, and returns how many were appended.
    #[verifier::external_body]
    pub(crate) fn push_slice(&mut self, words: &Vec<u32>) -> (count: usize)
        ensures
            ring_capacity(*final(self)) == ring_capacity(*old(self)),
            ring_words(*final(self)).len() <= ring_capacity(*final(self)),
            ring_words(*old(self)).len() <= ring_capacity(*old(self)) ==> count as nat == min_sz(
                words@.len(),
                (ring_capacity(*old(self)) - ring_words(*old(self)).len()) as nat,
            ),
            ring_words(*final(self)) == ring_words(*old(self)) + words@.take(count as int),
    {
        self.rb.push_slice(words.as_slice())
    }
}

} // verus!
