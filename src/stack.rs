use vstd::prelude::*;
use crate::executor::{Error, Instance, RegisterSpan};

verus! {

/// A growable buffer of untyped 64-bit slots with a configured maximum length.
#[derive(Debug)]
pub struct ValueStack {
    values: Vec<u64>,
    max_len: usize,
}

impl View for ValueStack {
    type V = Seq<u64>;

    closed spec fn view(&self) -> Seq<u64> {
        self.values@
    }
}

/// `n` zero slots.
pub open spec fn zeros(n: nat) -> Seq<u64> {
    Seq::new(n, |i: int| 0u64)
}

/// `s` with `params` written from `base` on.
pub open spec fn written_at(s: Seq<u64>, base: int, params: Seq<u64>) -> Seq<u64> {
    Seq::new(s.len(), |i: int| if base <= i < base + params.len() { params[i - base] } else { s[i] })
}

/// Whether `extra` more slots exceed the maximum length.
pub open spec fn overflows(len: nat, extra: nat, max_len: nat) -> bool {
    len + extra > max_len
}

impl ValueStack {
    pub closed spec fn max_len(&self) -> nat {
        self.max_len as nat
    }

    pub fn new(max_len: usize) -> (r: ValueStack)
        ensures
            r@ == Seq::<u64>::empty(),
            r.max_len() == max_len,
    {
        ValueStack { values: Vec::new(), max_len }
    }

    pub fn len(&self) -> (r: usize)
        ensures
            r == self@.len(),
    {
        self.values.len()
    }

    pub fn reset(&mut self)
        ensures
            final(self)@ == Seq::<u64>::empty(),
            final(self).max_len() == old(self).max_len(),
    {
        self.values.clear();
    }

    /// Empties the stack and sets its maximum length.
    pub fn reset_to(&mut self, max_len: usize)
        ensures
            final(self)@ == Seq::<u64>::empty(),
            final(self).max_len() == max_len,
    {
        self.values.clear();
        self.max_len = max_len;
    }

    /// Checks that `n` more slots fit under the maximum length.
    pub fn reserve(&mut self, n: usize) -> (r: Result<(), Error>)
        ensures
            final(self)@ == old(self)@,
            final(self).max_len() == old(self).max_len(),
            r is Err <==> overflows(old(self)@.len(), n as nat, old(self).max_len()),
            r is Err ==> r == Err::<(), Error>(Error::StackOverflow),
    {
        if self.values.len() > self.max_len || n > self.max_len - self.values.len() {
            Err(Error::StackOverflow)
        } else {
            Ok(())
        }
    }

    /// Appends `n` zero slots; the caller has reserved them.
    pub fn extend_zeros(&mut self, n: usize)
        requires
            !overflows(old(self)@.len(), n as nat, old(self).max_len()),
        ensures
            final(self)@ == old(self)@ + zeros(n as nat),
            final(self).max_len() == old(self).max_len(),
    {
        let ghost start = self.values@;
        let mut i: usize = 0;
        while i < n
            invariant
                i <= n,
                self.max_len == old(self).max_len,
                self.values@ =~= start + zeros(i as nat),
            decreases n - i,
        {
            self.values.push(0);
            i = i + 1;
        }
    }

    /// Removes the top `n` slots.
    pub fn drop(&mut self, n: usize)
        requires
            n <= old(self)@.len(),
        ensures
            final(self)@ == old(self)@.take(old(self)@.len() - n),
            final(self).max_len() == old(self).max_len(),
    {
        let keep = self.values.len() - n;
        self.values.truncate(keep);
    }

    /// Allocates a zeroed frame of `frame_size` slots on top of the stack and
    /// returns its base and frame offsets, both the previous length.
    pub fn alloc_call_frame(&mut self, frame_size: usize) -> (r: Result<(usize, usize), Error>)
        ensures
            final(self).max_len() == old(self).max_len(),
            r is Err <==> overflows(old(self)@.len(), frame_size as nat, old(self).max_len()),
            r is Err ==> r == Err::<(usize, usize), Error>(Error::StackOverflow) && final(self)@
                == old(self)@,
            r is Ok ==> r == Ok::<(usize, usize), Error>((old(self)@.len() as usize, old(self)@.len() as usize))
                && final(self)@ == old(self)@ + zeros(frame_size as nat),
    {
        let base_ptr = self.values.len();
        match self.reserve(frame_size) {
            Err(e) => Err(e),
            Ok(()) => {
                self.extend_zeros(frame_size);
                Ok((base_ptr, base_ptr))
            },
        }
    }

    /// Writes `params` into the slots from `base_ptr` on.
    pub fn fill_at(&mut self, base_ptr: usize, params: &Vec<u64>)
        requires
            base_ptr + params@.len() <= old(self)@.len(),
        ensures
            final(self)@ == written_at(old(self)@, base_ptr as int, params@),
            final(self).max_len() == old(self).max_len(),
    {
        let ghost start = self.values@;
        let mut i: usize = 0;
        while i < params.len()
            invariant
                base_ptr + params@.len() <= start.len(),
                i <= params@.len(),
                self.max_len == old(self).max_len,
                self.values@.len() == start.len(),
                base_ptr + params@.len() <= self.values.len(),
                self.values@ =~= written_at(start, base_ptr as int, params@.take(i as int)),
            decreases params@.len() - i,
        {
            self.values.set(base_ptr + i, params[i]);
            i = i + 1;
        }
        assert(params@.take(params@.len() as int) =~= params@);
    }

    pub fn get(&self, index: usize) -> (r: u64)
        requires
            index < self@.len(),
        ensures
            r == self@[index as int],
    {
        self.values[index]
    }

    pub fn set(&mut self, index: usize, value: u64)
        requires
            index < old(self)@.len(),
        ensures
            final(self)@ == old(self)@.update(index as int, value),
            final(self).max_len() == old(self).max_len(),
    {
        self.values.set(index, value);
    }

    /// Takes the top `n` slots off the stack, in order.
    pub fn split_top(&mut self, n: usize) -> (r: Vec<u64>)
        requires
            n <= old(self)@.len(),
        ensures
            final(self)@ == old(self)@.take(old(self)@.len() - n),
            r@ == old(self)@.skip(old(self)@.len() - n),
            final(self).max_len() == old(self).max_len(),
    {
        let at = self.values.len() - n;
        self.values.split_off(at)
    }

    /// Puts `top` back on top of the stack.
    pub fn push_all(&mut self, top: Vec<u64>)
        ensures
            final(self)@ == old(self)@ + top@,
            final(self).max_len() == old(self).max_len(),
    {
        let mut top = top;
        self.values.append(&mut top);
    }

    /// The first `n` slots.
    pub fn prefix(&self, n: usize) -> (r: Vec<u64>)
        requires
            n <= self@.len(),
        ensures
            r@ == self@.take(n as int),
    {
        let mut r: Vec<u64> = Vec::new();
        let mut i: usize = 0;
        while i < n
            invariant
                n <= self@.len(),
                i <= n,
                r@ =~= self@.take(i as int),
            decreases n - i,
        {
            r.push(self.values[i]);
            i = i + 1;
        }
        r
    }
}

/// One activation on the call stack.
#[derive(Clone, Copy, Debug, PartialEq, Eq, Structural)]
pub struct CallFrame {
    /// The compiled function that the frame runs.
    pub func_body: u32,
    /// The index of the next instruction in that function.
    pub ip: usize,
    /// The offset of the frame's locals.
    pub frame_ptr: usize,
    /// The offset of the frame's registers.
    pub base_ptr: usize,
    /// Where the caller expects this frame's results.
    pub results: RegisterSpan,
    /// The instance that owns the function.
    pub instance: Instance,
}

impl CallFrame {
    pub fn base_offset(&self) -> (r: usize)
        ensures
            r == self.base_ptr,
    {
        self.base_ptr
    }
}

/// The stack of active call frames, with a configured maximum depth.
#[derive(Debug)]
pub struct CallStack {
    frames: Vec<CallFrame>,
    max_depth: usize,
}

impl View for CallStack {
    type V = Seq<CallFrame>;

    closed spec fn view(&self) -> Seq<CallFrame> {
        self.frames@
    }
}

impl CallStack {
    pub closed spec fn max_depth(&self) -> nat {
        self.max_depth as nat
    }

    pub fn new(max_depth: usize) -> (r: CallStack)
        ensures
            r@ == Seq::<CallFrame>::empty(),
            r.max_depth() == max_depth,
    {
        CallStack { frames: Vec::new(), max_depth }
    }

    pub fn len(&self) -> (r: usize)
        ensures
            r == self@.len(),
    {
        self.frames.len()
    }

    pub fn reset(&mut self)
        ensures
            final(self)@ == Seq::<CallFrame>::empty(),
            final(self).max_depth() == old(self).max_depth(),
    {
        self.frames.clear();
    }

    /// Empties the stack and sets its maximum depth.
    pub fn reset_to(&mut self, max_depth: usize)
        ensures
            final(self)@ == Seq::<CallFrame>::empty(),
            final(self).max_depth() == max_depth,
    {
        self.frames.clear();
        self.max_depth = max_depth;
    }

    /// Pushes a frame, or fails with `StackOverflow` at the maximum depth.
    pub fn push(&mut self, frame: CallFrame) -> (r: Result<(), Error>)
        ensures
            final(self).max_depth() == old(self).max_depth(),
            r is Err <==> old(self)@.len() >= old(self).max_depth(),
            r is Err ==> r == Err::<(), Error>(Error::StackOverflow) && final(self)@ == old(self)@,
            r is Ok ==> final(self)@ == old(self)@.push(frame),
    {
        if self.frames.len() >= self.max_depth {
            Err(Error::StackOverflow)
        } else {
            self.frames.push(frame);
            Ok(())
        }
    }

    pub fn pop(&mut self) -> (r: Option<CallFrame>)
        ensures
            final(self).max_depth() == old(self).max_depth(),
            old(self)@.len() == 0 ==> r is None && final(self)@ == old(self)@,
            old(self)@.len() > 0 ==> r == Some(old(self)@.last()) && final(self)@
                == old(self)@.drop_last(),
    {
        self.frames.pop()
    }

    pub fn peek(&self) -> (r: Option<CallFrame>)
        ensures
            self@.len() == 0 ==> r is None,
            self@.len() > 0 ==> r == Some(self@.last()),
    {
        let n = self.frames.len();
        if n == 0 {
            None
        } else {
            Some(self.frames[n - 1])
        }
    }
}

/// The limits a new stack is made with.
#[derive(Clone, Copy, Debug, PartialEq, Eq, Structural)]
pub struct StackLimits {
    pub max_values: usize,
    pub max_frames: usize,
}

/// A value stack and a call stack.
#[derive(Debug)]
pub struct Stack {
    pub values: ValueStack,
    pub calls: CallStack,
}

impl Stack {
    pub open spec fn is_empty(&self) -> bool {
        self.values@.len() == 0 && self.calls@.len() == 0
    }

    pub open spec fn has_limits(&self, limits: StackLimits) -> bool {
        self.values.max_len() == limits.max_values && self.calls.max_depth() == limits.max_frames
    }

    pub fn new(limits: StackLimits) -> (r: Stack)
        ensures
            r.is_empty(),
            r.has_limits(limits),
    {
        Stack { values: ValueStack::new(limits.max_values), calls: CallStack::new(limits.max_frames) }
    }

    pub fn reset(&mut self)
        ensures
            final(self).is_empty(),
            final(self).values.max_len() == old(self).values.max_len(),
            final(self).calls.max_depth() == old(self).calls.max_depth(),
    {
        self.values.reset();
        self.calls.reset();
    }

    /// Empties both stacks and gives them `limits`.
    pub fn reset_to(&mut self, limits: StackLimits)
        ensures
            final(self).is_empty(),
            final(self).has_limits(limits),
    {
        self.values.reset_to(limits.max_values);
        self.calls.reset_to(limits.max_frames);
    }
}

/// Stacks kept for reuse across invocations; every pooled stack is empty and
/// has the pool's limits.
#[derive(Debug)]
pub struct StackPool {
    stacks: Vec<Stack>,
    limits: StackLimits,
}

impl View for StackPool {
    type V = Seq<Stack>;

    closed spec fn view(&self) -> Seq<Stack> {
        self.stacks@
    }
}

impl StackPool {
    pub closed spec fn limits(&self) -> StackLimits {
        self.limits
    }

    pub open spec fn wf(&self) -> bool {
        forall|i: int|
            0 <= i < self@.len() ==> (#[trigger] self@[i]).is_empty() && self@[i].has_limits(
                self.limits(),
            )
    }

    pub fn new(limits: StackLimits) -> (r: StackPool)
        ensures
            r@.len() == 0,
            r.wf(),
            r.limits() == limits,
    {
        StackPool { stacks: Vec::new(), limits }
    }

    pub fn len(&self) -> (r: usize)
        ensures
            r == self@.len(),
    {
        self.stacks.len()
    }

    /// Takes a pooled stack, or makes a new one when the pool is empty.
    pub fn reuse_or_new(&mut self) -> (r: Stack)
        requires
            old(self).wf(),
        ensures
            final(self).wf(),
            final(self).limits() == old(self).limits(),
            r.is_empty(),
            r.has_limits(old(self).limits()),
            old(self)@.len() == 0 ==> final(self)@ == old(self)@,
            old(self)@.len() > 0 ==> final(self)@ == old(self)@.drop_last() && r == old(self)@.last(),
    {
        match self.stacks.pop() {
            Some(stack) => stack,
            None => Stack::new(self.limits),
        }
    }

    /// Resets `stack` and returns it to the pool.
    pub fn recycle(&mut self, stack: Stack)
        requires
            old(self).wf(),
        ensures
            final(self).wf(),
            final(self).limits() == old(self).limits(),
            final(self)@.len() == old(self)@.len() + 1,
            final(self)@.take(old(self)@.len() as int) == old(self)@,
            final(self)@.last().is_empty(),
            final(self)@.last().has_limits(old(self).limits()),
    {
        let mut stack = stack;
        stack.reset_to(self.limits);
        self.stacks.push(stack);
        assert(self.stacks@.take(old(self)@.len() as int) =~= old(self)@);
    }
}

} // verus!
