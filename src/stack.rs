use vstd::prelude::*;

verus! {

/// What `push` reports when the stack already holds `N` items.
pub const STACK_OVERFLOW: &'static str = "Stack Overflow";

/// A last-in, first-out stack that holds at most `N` items of a `Copy` type.
pub struct ArrayStack<T, const N: usize> where T: Copy {
    data: Vec<T>,
}

impl<T, const N: usize> View for ArrayStack<T, N> where T: Copy {
    type V = Seq<T>;

    /// The items from the bottom of the stack to its top.
    closed spec fn view(&self) -> Seq<T> {
        self.data@
    }
}

impl<T, const N: usize> ArrayStack<T, N> where T: Copy {
    /// The stack holds no more than its capacity.
    pub open spec fn wf(&self) -> bool {
        self@.len() <= N
    }

    /// An empty stack.
    pub fn new() -> (s: Self)
        ensures
            s.wf(),
            s@ == Seq::<T>::empty(),
    {
        ArrayStack { data: Vec::new() }
    }

    /// Puts `x` on top, or reports an overflow and leaves the stack as it was
    /// when it already holds `N` items.
    pub fn push(&mut self, x: T) -> (r: Result<(), &'static str>)
        requires
            old(self).wf(),
        ensures
            final(self).wf(),
            old(self)@.len() < N ==> r is Ok && final(self)@ == old(self)@.push(x),
            old(self)@.len() >= N ==> r == Err::<(), &'static str>(STACK_OVERFLOW)
                && final(self)@ == old(self)@,
    {
        if self.data.len() >= N {
            Err(STACK_OVERFLOW)
        } else {
            self.data.push(x);
            Ok(())
        }
    }

    /// Takes the top item off and returns it; `None` on an empty stack.
    pub fn pop(&mut self) -> (r: Option<T>)
        requires
            old(self).wf(),
        ensures
            final(self).wf(),
            old(self)@.len() == 0 ==> r is None && final(self)@ == old(self)@,
            old(self)@.len() > 0 ==> r == Some(old(self)@.last())
                && final(self)@ == old(self)@.drop_last(),
    {
        self.data.pop()
    }

    /// The top item, left in place; `None` on an empty stack.
    pub fn peek(&self) -> (r: Option<T>)
        ensures
            self@.len() == 0 ==> r is None,
            self@.len() > 0 ==> r == Some(self@.last()),
    {
        if self.data.len() == 0 {
            None
        } else {
            Some(self.data[self.data.len() - 1])
        }
    }

    /// Whether the stack holds no item.
    pub fn is_empty(&self) -> (r: bool)
        ensures
            r == (self@.len() == 0),
    {
        self.data.len() == 0
    }
}

} // verus!
