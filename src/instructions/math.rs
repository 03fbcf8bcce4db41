//! Bitwise exclusive or on ints and longs.
use vstd::prelude::*;
use crate::instructions::base::{
    lemma_top_update_wf, same_method, top_changed, BytecodeReader, Instruction, NoOperandsInstruction,
};
use crate::jvm::{Jvm, Step};
use crate::slots::{join_long, long_hi, long_lo, Slot};
use crate::thread::Frame;

verus! {

/// The long held by the two slots ending at position `end` of `st`.
pub open spec fn long_at(st: Seq<Slot>, end: int) -> i64 {
    join_long(st[end - 2].num, st[end - 1].num)
}

/// What `i_xor` does to the frame.
pub open spec fn i_xor_post(f: Frame, g: Frame, r: Step) -> bool {
    ({
        let st = f.operand_stack@;
        if st.len() < 2 {
            r is Fault && g == f
        } else {
            &&& r is Continue
            &&& same_method(f, g)
            &&& g.local_vars == f.local_vars
            &&& g.next_pc == f.next_pc
            &&& g.operand_stack@ == st.subrange(0, st.len() - 2).push(
                Slot { num: st[st.len() - 2].num ^ st.last().num, reference: None },
            )
        }
    })
}

/// `ixor`: pops two ints and pushes their exclusive or.
pub fn i_xor(frame: &mut Frame) -> (r: Step)
    ensures
        i_xor_post(*old(frame), *final(frame), r),
{
    if frame.operand_stack.size() < 2 {
        return Step::Fault;
    }
    let v2 = frame.operand_stack.pop_int();
    let v1 = frame.operand_stack.pop_int();
    frame.operand_stack.push_int(v1 ^ v2);
    proof {
        let st = old(frame).operand_stack@;
        assert(st.drop_last().drop_last() =~= st.subrange(0, st.len() - 2));
    }
    Step::Continue
}

/// What `l_xor` does to the frame.
pub open spec fn l_xor_post(f: Frame, g: Frame, r: Step) -> bool {
    ({
        let st = f.operand_stack@;
        if st.len() < 4 {
            r is Fault && g == f
        } else {
            let v = long_at(st, st.len() - 2) ^ long_at(st, st.len() as int);
            &&& r is Continue
            &&& same_method(f, g)
            &&& g.local_vars == f.local_vars
            &&& g.next_pc == f.next_pc
            &&& g.operand_stack@ == st.subrange(0, st.len() - 4).push(
                Slot { num: long_lo(v), reference: None },
            ).push(Slot { num: long_hi(v), reference: None })
        }
    })
}

/// `lxor`: pops two longs and pushes their exclusive or.
pub fn l_xor(frame: &mut Frame) -> (r: Step)
    ensures
        l_xor_post(*old(frame), *final(frame), r),
{
    if frame.operand_stack.size() < 4 {
        return Step::Fault;
    }
    let v2 = frame.operand_stack.pop_long();
    let v1 = frame.operand_stack.pop_long();
    frame.operand_stack.push_long(v1 ^ v2);
    proof {
        let st = old(frame).operand_stack@;
        assert(st.subrange(0, st.len() - 2).subrange(0, st.len() - 4) =~= st.subrange(0, st.len() - 4));
    }
    Step::Continue
}

/// Runs `ixor` (or, with `long`, `lxor`) on the current frame.
fn xor_on_top(vm: &mut Jvm, long: bool) -> (r: Step)
    requires
        old(vm).wf(),
        old(vm).main_thread.frames@.len() > 0,
    ensures
        final(vm).wf(),
        top_changed(*old(vm), *final(vm), |f: Frame, g: Frame, r: Step| xor_post(long, f, g, r), r),
{
    let ghost a = *vm;
    let r = if long {
        l_xor(vm.top_frame_mut())
    } else {
        i_xor(vm.top_frame_mut())
    };
    proof {
        let n = a.main_thread.frames@.len();
        assert(forall|k: int| 0 <= k < n - 1 ==> vm.main_thread.frames@[k] == a.main_thread.frames@[k]);
        lemma_top_update_wf(a, *vm);
        assert(top_changed(a, *vm, |f: Frame, g: Frame, r: Step| xor_post(long, f, g, r), r));
    }
    r
}

/// `lxor` when `long`, else `ixor`.
pub open spec fn xor_post(long: bool, f: Frame, g: Frame, r: Step) -> bool {
    if long {
        l_xor_post(f, g, r)
    } else {
        i_xor_post(f, g, r)
    }
}

/// `ixor`
pub struct IXor(pub NoOperandsInstruction);

impl Instruction for IXor {
    open spec fn operand_bytes(&self) -> int {
        0
    }

    open spec fn executes(&self, before: Jvm, after: Jvm, r: Step) -> bool {
        top_changed(before, after, |f: Frame, g: Frame, r: Step| xor_post(false, f, g, r), r)
    }

    fn fetch_operands(&mut self, reader: &mut BytecodeReader) {
    }

    fn execute(&mut self, vm: &mut Jvm) -> (r: Step) {
        xor_on_top(vm, false)
    }
}

/// `lxor`
pub struct LXor(pub NoOperandsInstruction);

impl Instruction for LXor {
    open spec fn operand_bytes(&self) -> int {
        0
    }

    open spec fn executes(&self, before: Jvm, after: Jvm, r: Step) -> bool {
        top_changed(before, after, |f: Frame, g: Frame, r: Step| xor_post(true, f, g, r), r)
    }

    fn fetch_operands(&mut self, reader: &mut BytecodeReader) {
    }

    fn execute(&mut self, vm: &mut Jvm) -> (r: Step) {
        xor_on_top(vm, true)
    }
}

} // verus!
