//! Frames and the thread that stacks them.
use vstd::prelude::*;
use crate::slots::{OperandStack, Slot, Slots};

verus! {

/// One method activation: local variables, operand stack and the address
/// of the next instruction.
pub struct Frame {
    /// Arena index of the method's class.
    pub class: usize,
    /// Position of the method among its class's methods.
    pub method: usize,
    pub local_vars: Slots,
    pub operand_stack: OperandStack,
    pub next_pc: usize,
}

impl Frame {
    /// A fresh frame: `max_locals` zeroed locals, an empty stack, pc 0.
    pub fn new(class: usize, method: usize, max_locals: usize) -> (r: Frame)
        ensures
            r.class == class,
            r.method == method,
            r.local_vars@ == Seq::new(max_locals as nat, |i: int| Slot::zero()),
            r.operand_stack@.len() == 0,
            r.next_pc == 0,
    {
        Frame {
            class,
            method,
            local_vars: Slots::with_capacity(max_locals),
            operand_stack: OperandStack::new(),
            next_pc: 0,
        }
    }

    pub fn next_pc(&self) -> (r: usize)
        ensures
            r == self.next_pc,
    {
        self.next_pc
    }

    pub fn set_next_pc(&mut self, pc: usize)
        ensures
            *final(self) == (Frame { next_pc: pc, ..*old(self) }),
    {
        self.next_pc = pc;
    }
}

/// A fresh frame for method `method` of class `class`.
pub open spec fn is_fresh_frame(f: Frame, class: int, method: int, max_locals: int) -> bool {
    &&& f.class == class
    &&& f.method == method
    &&& f.local_vars@ == Seq::new(max_locals as nat, |i: int| Slot::zero())
    &&& f.operand_stack@.len() == 0
    &&& f.next_pc == 0
}

/// A logical thread: its frames (the last is the one executing) and the pc
/// of the instruction being executed.
pub struct Thread {
    pub frames: Vec<Frame>,
    pub pc: usize,
}

impl Thread {
    pub fn new_thread() -> (r: Thread)
        ensures
            r.frames@.len() == 0,
            r.pc == 0,
    {
        Thread { frames: Vec::new(), pc: 0 }
    }

    pub fn stack_size(&self) -> (r: usize)
        ensures
            r == self.frames@.len(),
    {
        self.frames.len()
    }

    pub fn is_stack_empty(&self) -> (r: bool)
        ensures
            r == (self.frames@.len() == 0),
    {
        self.frames.len() == 0
    }

    pub fn push_frame(&mut self, f: Frame)
        ensures
            final(self).frames@ == old(self).frames@.push(f),
            final(self).pc == old(self).pc,
    {
        self.frames.push(f);
    }

    pub fn pop_frame(&mut self) -> (r: Option<Frame>)
        ensures
            old(self).frames@.len() == 0 ==> r.is_none() && final(self).frames@ == old(self).frames@,
            old(self).frames@.len() > 0 ==> r == Some(old(self).frames@.last())
                && final(self).frames@ == old(self).frames@.drop_last(),
            final(self).pc == old(self).pc,
    {
        self.frames.pop()
    }

    pub fn clear_stack(&mut self)
        ensures
            final(self).frames@.len() == 0,
            final(self).pc == old(self).pc,
    {
        self.frames.clear();
    }
}

} // verus!
