use vstd::prelude::*;
use vstd::math::min;
use std::collections::VecDeque;

verus! {

/// The items removed from the front of a container in one batch,
/// oldest first.
pub struct PopFrontItems<T> {
    pub items: Vec<T>,
}

/// Batchwise removal from the front of a FIFO container.
pub trait PopFrontIter: Sized {
    type Elem;

    /// The container's contents, front first.
    spec fn elems(&self) -> Seq<Self::Elem>;

    /// Removes the first `n` items — all of them, if fewer are held — and
    /// hands them out in their queue order.
    fn pop_front_iter(&mut self, n: usize) -> (r: PopFrontItems<Self::Elem>)
        ensures
            r.items@ == old(self).elems().take(min(n as int, old(self).elems().len() as int)),
            final(self).elems() == old(self).elems().skip(
                min(n as int, old(self).elems().len() as int),
            ),
    ;
}

impl<T> PopFrontIter for VecDeque<T> {
    type Elem = T;

    open spec fn elems(&self) -> Seq<T> {
        self@
    }

    fn pop_front_iter(&mut self, n: usize) -> (r: PopFrontItems<T>) {
        let mut items: Vec<T> = Vec::new();
        while items.len() < n && self.len() > 0
            invariant
                items@.len() <= n,
                items@.len() <= old(self)@.len(),
                items@ == old(self)@.take(items@.len() as int),
                self@ == old(self)@.skip(items@.len() as int),
            decreases n - items@.len(),
        {
            let x = match self.pop_front() {
                Some(x) => x,
                None => {
                    proof {
                        assert(false);
                    }
                    unreached()
                },
            };
            items.push(x);
            assert(items@ =~= old(self)@.take(items@.len() as int));
        }
        assert(items@.len() == min(n as int, old(self)@.len() as int));
        PopFrontItems { items }
    }
}

} // verus!
