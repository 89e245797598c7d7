//! The queue of gray objects that wait to be scanned.

use vstd::prelude::*;

verus! {

/// A last-in, first-out queue of header addresses.
pub struct GrayQueue {
    queue: Vec<usize>,
}

impl View for GrayQueue {
    type V = Seq<usize>;

    /// The queued header addresses, oldest first: the last one is popped next.
    closed spec fn view(&self) -> Seq<usize> {
        self.queue@
    }
}

impl GrayQueue {
    /// An empty queue.
    pub fn new() -> (queue: GrayQueue)
        ensures
            queue@ == Seq::<usize>::empty(),
    {
        GrayQueue { queue: Vec::new() }
    }

    /// Whether the queue holds no header.
    #[inline]
    pub fn is_empty(&self) -> (empty: bool)
        ensures
            empty == (self@.len() == 0),
    {
        self.queue.len() == 0
    }

    /// The number of queued headers.
    #[inline]
    pub fn len(&self) -> (len: usize)
        ensures
            len == self@.len(),
    {
        self.queue.len()
    }

    /// Puts a header on top of the queue.
    #[inline]
    pub fn push(&mut self, header: usize)
        ensures
            final(self)@ == old(self)@.push(header),
    {
        self.queue.push(header);
    }

    /// Takes the header that was pushed last, if there is one.
    #[inline]
    pub fn pop(&mut self) -> (header: Option<usize>)
        ensures
            old(self)@.len() == 0 ==> header.is_none() && final(self)@ == old(self)@,
            old(self)@.len() > 0 ==> header == Some(old(self)@.last()) && final(self)@ == old(self)@.drop_last(),
    {
        self.queue.pop()
    }

    /// Removes every header from the queue.
    #[inline]
    pub fn clear(&mut self)
        ensures
            final(self)@ == Seq::<usize>::empty(),
    {
        self.queue.clear();
    }
}

impl Default for GrayQueue {
    fn default() -> (queue: Self)
        ensures
            queue@ == Seq::<usize>::empty(),
    {
        Self::new()
    }
}

} // verus!
