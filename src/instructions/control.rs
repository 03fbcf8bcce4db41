//! Constants, loads, `dup` and method returns.
use vstd::prelude::*;
use crate::instructions::base::{
    lemma_top_update_wf, same_method, top_changed, BytecodeReader, Instruction, LocalVarsInstruction,
};
use crate::jvm::{Jvm, Step};
use crate::slots::Slot;
use crate::thread::Frame;

verus! {

/// Pushes `v`.
pub fn push_const(frame: &mut Frame, v: i32) -> (r: Step)
    ensures
        r is Continue,
        same_method(*old(frame), *final(frame)),
        final(frame).local_vars == old(frame).local_vars,
        final(frame).next_pc == old(frame).next_pc,
        final(frame).operand_stack@ == old(frame).operand_stack@.push(Slot { num: v, reference: None }),
{
    frame.operand_stack.push_int(v);
    Step::Continue
}

/// Pushes a copy of local `index`; `Fault` when it does not exist.
pub fn load_local(frame: &mut Frame, index: usize) -> (r: Step)
    ensures
        index >= old(frame).local_vars@.len() ==> r is Fault && *final(frame) == *old(frame),
        index < old(frame).local_vars@.len() ==> {
            &&& r is Continue
            &&& same_method(*old(frame), *final(frame))
            &&& final(frame).local_vars == old(frame).local_vars
            &&& final(frame).next_pc == old(frame).next_pc
            &&& final(frame).operand_stack@ == old(frame).operand_stack@.push(
                old(frame).local_vars@[index as int],
            )
        },
{
    if index >= frame.local_vars.len() {
        return Step::Fault;
    }
    let s = frame.local_vars.get_slot(index);
    frame.operand_stack.push_slot(s);
    Step::Continue
}

/// Duplicates the top slot; `Fault` on an empty stack.
pub fn dup(frame: &mut Frame) -> (r: Step)
    ensures
        old(frame).operand_stack@.len() == 0 ==> r is Fault && *final(frame) == *old(frame),
        old(frame).operand_stack@.len() > 0 ==> {
            &&& r is Continue
            &&& same_method(*old(frame), *final(frame))
            &&& final(frame).local_vars == old(frame).local_vars
            &&& final(frame).next_pc == old(frame).next_pc
            &&& final(frame).operand_stack@ == old(frame).operand_stack@.push(
                old(frame).operand_stack@.last(),
            )
        },
{
    if frame.operand_stack.size() == 0 {
        return Step::Fault;
    }
    let s = frame.operand_stack.pop_slot();
    frame.operand_stack.push_slot(s);
    frame.operand_stack.push_slot(s);
    proof {
        assert(old(frame).operand_stack@.drop_last().push(s) =~= old(frame).operand_stack@);
    }
    Step::Continue
}

/// The frame-local instructions that `on_top` runs.
#[derive(Clone, Copy)]
pub enum FrameOp {
    Const(i32),
    Load(usize),
    Dup,
}

/// What a frame-local instruction does to the frame.
pub open spec fn frame_op_post(op: FrameOp, f: Frame, g: Frame, r: Step) -> bool {
    let st = f.operand_stack@;
    match op {
        FrameOp::Const(v) => r is Continue && same_method(f, g) && g.local_vars == f.local_vars && g.next_pc
            == f.next_pc && g.operand_stack@ == st.push(Slot { num: v, reference: None }),
        FrameOp::Load(i) => if i >= f.local_vars@.len() {
            r is Fault && g == f
        } else {
            r is Continue && same_method(f, g) && g.local_vars == f.local_vars && g.next_pc == f.next_pc
                && g.operand_stack@ == st.push(f.local_vars@[i as int])
        },
        FrameOp::Dup => if st.len() == 0 {
            r is Fault && g == f
        } else {
            r is Continue && same_method(f, g) && g.local_vars == f.local_vars && g.next_pc == f.next_pc
                && g.operand_stack@ == st.push(st.last())
        },
    }
}

/// Runs a frame-local instruction on the current frame.
pub fn on_top(vm: &mut Jvm, op: FrameOp) -> (r: Step)
    requires
        old(vm).wf(),
        old(vm).main_thread.frames@.len() > 0,
    ensures
        final(vm).wf(),
        top_changed(*old(vm), *final(vm), |f: Frame, g: Frame, r: Step| frame_op_post(op, f, g, r), r),
{
    let ghost a = *vm;
    let r = match op {
        FrameOp::Const(v) => push_const(vm.top_frame_mut(), v),
        FrameOp::Load(i) => load_local(vm.top_frame_mut(), i),
        FrameOp::Dup => dup(vm.top_frame_mut()),
    };
    proof {
        let n = a.main_thread.frames@.len();
        assert(forall|k: int| 0 <= k < n - 1 ==> vm.main_thread.frames@[k] == a.main_thread.frames@[k]);
        lemma_top_update_wf(a, *vm);
        assert(top_changed(a, *vm, |f: Frame, g: Frame, r: Step| frame_op_post(op, f, g, r), r));
    }
    r
}

/// What returning `width` slots from the current method does.
pub open spec fn return_post(before: Jvm, after: Jvm, width: usize, r: Step) -> bool {
    &&& after.loader == before.loader
    &&& after.heap == before.heap
    &&& ({
        let fs = before.main_thread.frames@;
        let gs = after.main_thread.frames@;
        let st = fs.last().operand_stack@;
        if st.len() < width {
            r is Fault && after == before
        } else {
            &&& r is Continue
            &&& gs.len() == fs.len() - 1
            &&& fs.len() >= 2 ==> {
                &&& gs.subrange(0, gs.len() - 1) == fs.subrange(0, fs.len() - 2)
                &&& same_method(fs[fs.len() - 2], gs.last())
                &&& gs.last().operand_stack@ == fs[fs.len() - 2].operand_stack@ + st.subrange(
                    st.len() - width,
                    st.len() as int,
                )
            }
        }
    })
}

impl Jvm {
    /// Returns from the current method: its frame is popped and the top
    /// `width` slots of its stack (the return value) land on the caller's
    /// stack, if there is a caller. `Fault` when the stack holds fewer.
    pub fn return_value(&mut self, width: usize) -> (r: Step)
        requires
            old(self).wf(),
            old(self).main_thread.frames@.len() > 0,
        ensures
            final(self).wf(),
            return_post(*old(self), *final(self), width, r),
    {
        let top = self.main_thread.frames.len() - 1;
        if self.main_thread.frames[top].operand_stack.size() < width {
            return Step::Fault;
        }
        let ghost fs = self.main_thread.frames@;
        let mut f = self.main_thread.pop_frame().unwrap();
        let vals = f.operand_stack.pop_n(width);
        proof {
            assert forall|k: int| 0 <= k < self.main_thread.frames@.len() implies {
                let g = #[trigger] self.main_thread.frames@[k];
                g.class < self.loader@.len() && g.method < self.loader@[g.class as int].methods@.len()
            } by {
                assert(self.main_thread.frames@[k] == fs[k]);
            }
        }
        if top == 0 {
            return Step::Continue;
        }
        let ghost mid = self.main_thread.frames@;
        let mut k: usize = 0;
        while k < width
            invariant
                self.wf(),
                self.loader == old(self).loader,
                self.heap == old(self).heap,
                k <= width,
                vals@.len() == width,
                self.main_thread.frames@.len() == top,
                top >= 1,
                forall|j: int| 0 <= j < top - 1 ==> self.main_thread.frames@[j] == mid[j],
                same_method(mid[top - 1], self.main_thread.frames@[top - 1]),
                self.main_thread.frames@[top - 1].operand_stack@ == mid[top - 1].operand_stack@ + vals@.subrange(
                    0,
                    k as int,
                ),
            decreases width - k,
        {
            let ghost a = *self;
            let ghost before = self.main_thread.frames@[top - 1].operand_stack@;
            self.top_frame_mut().operand_stack.push_slot(vals[k]);
            proof {
                assert(forall|j: int| 0 <= j < top - 1 ==> self.main_thread.frames@[j] == a.main_thread.frames@[j]);
                lemma_top_update_wf(a, *self);
                assert(before.push(vals@[k as int]) =~= mid[top - 1].operand_stack@ + vals@.subrange(0, k + 1));
            }
            k = k + 1;
        }
        proof {
            let gs = self.main_thread.frames@;
            assert(gs.subrange(0, gs.len() - 1) =~= fs.subrange(0, fs.len() - 2));
            assert(vals@.subrange(0, width as int) =~= vals@);
        }
        Step::Continue
    }
}

/// `iconst_<n>` (and `bipush`, whose operand is the constant).
pub struct IConst(pub i32);

impl Instruction for IConst {
    open spec fn operand_bytes(&self) -> int {
        0
    }

    open spec fn executes(&self, before: Jvm, after: Jvm, r: Step) -> bool {
        top_changed(before, after, |f: Frame, g: Frame, r: Step| frame_op_post(FrameOp::Const(self.0), f, g, r), r)
    }

    fn fetch_operands(&mut self, reader: &mut BytecodeReader) {
    }

    fn execute(&mut self, vm: &mut Jvm) -> (r: Step) {
        on_top(vm, FrameOp::Const(self.0))
    }
}

/// `bipush byte`
pub struct BiPush(pub i32);

impl Instruction for BiPush {
    open spec fn operand_bytes(&self) -> int {
        1
    }

    open spec fn executes(&self, before: Jvm, after: Jvm, r: Step) -> bool {
        top_changed(before, after, |f: Frame, g: Frame, r: Step| frame_op_post(FrameOp::Const(self.0), f, g, r), r)
    }

    fn fetch_operands(&mut self, reader: &mut BytecodeReader) {
        let b = reader.read_u8();
        self.0 = (#[verifier::truncate] (b as i8)) as i32;
    }

    fn execute(&mut self, vm: &mut Jvm) -> (r: Step) {
        on_top(vm, FrameOp::Const(self.0))
    }
}

/// `iload index` and `aload index`.
pub struct Load(pub LocalVarsInstruction);

impl Instruction for Load {
    open spec fn operand_bytes(&self) -> int {
        1
    }

    open spec fn executes(&self, before: Jvm, after: Jvm, r: Step) -> bool {
        top_changed(before, after, |f: Frame, g: Frame, r: Step| frame_op_post(FrameOp::Load(self.0.index), f, g, r), r)
    }

    fn fetch_operands(&mut self, reader: &mut BytecodeReader) {
        self.0.fetch_operands(reader);
    }

    fn execute(&mut self, vm: &mut Jvm) -> (r: Step) {
        on_top(vm, FrameOp::Load(self.0.get_index()))
    }
}

/// `iload_<n>` and `aload_<n>`: the index is part of the opcode.
pub struct LoadN(pub usize);

impl Instruction for LoadN {
    open spec fn operand_bytes(&self) -> int {
        0
    }

    open spec fn executes(&self, before: Jvm, after: Jvm, r: Step) -> bool {
        top_changed(before, after, |f: Frame, g: Frame, r: Step| frame_op_post(FrameOp::Load(self.0), f, g, r), r)
    }

    fn fetch_operands(&mut self, reader: &mut BytecodeReader) {
    }

    fn execute(&mut self, vm: &mut Jvm) -> (r: Step) {
        on_top(vm, FrameOp::Load(self.0))
    }
}

/// `dup`
pub struct Dup;

impl Instruction for Dup {
    open spec fn operand_bytes(&self) -> int {
        0
    }

    open spec fn executes(&self, before: Jvm, after: Jvm, r: Step) -> bool {
        top_changed(before, after, |f: Frame, g: Frame, r: Step| frame_op_post(FrameOp::Dup, f, g, r), r)
    }

    fn fetch_operands(&mut self, reader: &mut BytecodeReader) {
    }

    fn execute(&mut self, vm: &mut Jvm) -> (r: Step) {
        on_top(vm, FrameOp::Dup)
    }
}

/// `return`, `ireturn`, `areturn` (one slot) and `lreturn` (two).
pub struct Return(pub usize);

impl Instruction for Return {
    open spec fn operand_bytes(&self) -> int {
        0
    }

    open spec fn executes(&self, before: Jvm, after: Jvm, r: Step) -> bool {
        return_post(before, after, self.0, r)
    }

    fn fetch_operands(&mut self, reader: &mut BytecodeReader) {
    }

    fn execute(&mut self, vm: &mut Jvm) -> (r: Step) {
        vm.return_value(self.0)
    }
}

} // verus!
