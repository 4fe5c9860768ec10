//! A pool of work that is driven piece by piece until it is done.
use vstd::prelude::*;

verus! {

/// Work under way, in the order in which it came.
pub struct WorkPool<T> {
    pub work: Vec<T>,
}

impl<T> View for WorkPool<T> {
    type V = Seq<T>;

    open spec fn view(&self) -> Seq<T> {
        self.work@
    }
}

impl<T> WorkPool<T> {
    /// A pool without work.
    pub fn new() -> (r: WorkPool<T>)
        ensures
            r@ == Seq::<T>::empty(),
    {
        WorkPool { work: Vec::new() }
    }

    /// Adds work behind what is there.
    pub fn enqueue(&mut self, item: T)
        ensures
            final(self)@ == old(self)@.push(item),
    {
        self.work.push(item);
    }
}

} // verus!
