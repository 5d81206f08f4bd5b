//! The queue of runs to collect: each call of `consume` hands out the next
//! item, and no item is handed out twice.
use vstd::prelude::*;

verus! {

/// Items waiting to be handed out, in order.
pub struct ToCollectQueue<T> {
    // The next item is the last element.
    stack: Vec<T>,
}

impl<T> ToCollectQueue<T> {
    /// The items not yet handed out, next first.
    pub closed spec fn view(&self) -> Seq<T> {
        Seq::new(self.stack@.len(), |i: int| self.stack@[self.stack@.len() - 1 - i])
    }

    /// A queue that hands out `input` in order.
    pub fn new(input: Vec<T>) -> (r: Self)
        ensures
            r@ == input@,
    {
        let ghost orig = input@;
        let mut input = input;
        let mut stack: Vec<T> = Vec::new();
        while input.len() > 0
            invariant
                input@.len() + stack@.len() == orig.len(),
                input@ == orig.subrange(0, input@.len() as int),
                forall|i: int| 0 <= i < stack@.len() ==> stack@[i] == orig[orig.len() - 1 - i],
            decreases input.len(),
        {
            let x = input.pop().unwrap();
            stack.push(x);
        }
        let r = ToCollectQueue { stack };
        assert(r@ =~= orig);
        r
    }

    /// The next item, which leaves the queue; `None` once it is empty.
    pub fn consume(&mut self) -> (r: Option<T>)
        ensures
            old(self)@.len() == 0 ==> r is None && final(self)@ == old(self)@,
            old(self)@.len() > 0 ==> r == Some(old(self)@[0]) && final(self)@ == old(self)@.drop_first(),
    {
        let r = self.stack.pop();
        proof {
            if old(self)@.len() > 0 {
                assert(self@ =~= old(self)@.drop_first());
            } else {
                assert(self@ =~= old(self)@);
            }
        }
        r
    }

    /// How many items are left.
    pub fn remaining(&self) -> (r: usize)
        ensures
            r == self@.len(),
    {
        self.stack.len()
    }
}

} // verus!
