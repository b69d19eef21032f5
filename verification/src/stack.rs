//! A fixed-capacity stack of signed distances with an explicit index.
//!
//! Push and pop are O(1) and bounds-checked by contract: a caller must prove
//! it never pushes onto a full stack nor pops from an empty one, which is
//! exactly the interpreter's well-formedness obligation.

use vstd::prelude::*;

verus! {

/// A stack holding at most `N` fixed-point scalars.
pub struct Stack<const N: usize> {
    buf: [i64; N],
    sp: usize,
}

impl<const N: usize> View for Stack<N> {
    type V = Seq<i64>;

    /// The live values, bottom first.
    closed spec fn view(&self) -> Seq<i64> {
        self.buf@.take(self.sp as int)
    }
}

impl<const N: usize> Stack<N> {
    /// The stack index never exceeds the capacity.
    pub closed spec fn wf(&self) -> bool {
        self.sp <= N
    }

    /// An empty stack.
    pub fn new() -> (r: Stack<N>)
        ensures
            r.wf(),
            r@ == Seq::<i64>::empty(),
    {
        let r = Stack { buf: [0i64; N], sp: 0 };
        proof {
            assert(r@ =~= Seq::<i64>::empty());
        }
        r
    }

    /// How many values are live.
    pub fn len(&self) -> (n: usize)
        requires
            self.wf(),
        ensures
            n == self@.len(),
    {
        self.sp
    }

    /// Push a value on top.
    pub fn push(&mut self, x: i64)
        requires
            old(self).wf(),
            old(self)@.len() < N,
        ensures
            final(self).wf(),
            final(self)@ == old(self)@.push(x),
    {
        self.buf[self.sp] = x;
        self.sp = self.sp + 1;
        proof {
            assert(self@ =~= old(self)@.push(x));
        }
    }

    /// Pop the most recently pushed value.
    pub fn pop(&mut self) -> (x: i64)
        requires
            old(self).wf(),
            old(self)@.len() > 0,
        ensures
            final(self).wf(),
            x == old(self)@.last(),
            final(self)@ == old(self)@.drop_last(),
    {
        self.sp = self.sp - 1;
        let x = self.buf[self.sp];
        proof {
            assert(self@ =~= old(self)@.drop_last());
        }
        x
    }

    /// Read the most recently pushed value without removing it.
    pub fn peek(&self) -> (x: i64)
        requires
            self.wf(),
            self@.len() > 0,
        ensures
            x == self@.last(),
    {
        self.buf[self.sp - 1]
    }
}

} // verus!
