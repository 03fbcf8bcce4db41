//! Comparison of longs.
use vstd::prelude::*;
use crate::instructions::base::{
    lemma_top_update_wf, same_method, top_changed, BytecodeReader, Instruction, NoOperandsInstruction,
};
use crate::instructions::math::long_at;
use crate::jvm::{Jvm, Step};
use crate::slots::Slot;
use crate::thread::Frame;

verus! {

/// -1, 0 or 1 as `a` is below, equal to or above `b`.
pub open spec fn compare(a: i64, b: i64) -> i32 {
    if a > b {
        1
    } else if a == b {
        0
    } else {
        -1i32
    }
}

/// What `l_cmp` does to the frame.
pub open spec fn l_cmp_post(f: Frame, g: Frame, r: Step) -> bool {
    ({
        let st = f.operand_stack@;
        if st.len() < 4 {
            r is Fault && g == f
        } else {
            &&& r is Continue
            &&& same_method(f, g)
            &&& g.local_vars == f.local_vars
            &&& g.next_pc == f.next_pc
            &&& g.operand_stack@ == st.subrange(0, st.len() - 4).push(
                Slot {
                    num: compare(long_at(st, st.len() - 2), long_at(st, st.len() as int)),
                    reference: None,
                },
            )
        }
    })
}

/// `lcmp`: pops two longs and pushes how the first compares to the second.
pub fn l_cmp(frame: &mut Frame) -> (r: Step)
    ensures
        l_cmp_post(*old(frame), *final(frame), r),
{
    if frame.operand_stack.size() < 4 {
        return Step::Fault;
    }
    let v2 = frame.operand_stack.pop_long();
    let v1 = frame.operand_stack.pop_long();
    let c: i32 = if v1 > v2 {
        1
    } else if v1 == v2 {
        0
    } else {
        -1i32
    };
    frame.operand_stack.push_int(c);
    proof {
        let st = old(frame).operand_stack@;
        assert(st.subrange(0, st.len() - 2).subrange(0, st.len() - 4) =~= st.subrange(0, st.len() - 4));
    }
    Step::Continue
}

/// `lcmp`
pub struct Lcmp(pub NoOperandsInstruction);

impl Instruction for Lcmp {
    open spec fn operand_bytes(&self) -> int {
        0
    }

    open spec fn executes(&self, before: Jvm, after: Jvm, r: Step) -> bool {
        top_changed(before, after, |f: Frame, g: Frame, r: Step| l_cmp_post(f, g, r), r)
    }

    fn fetch_operands(&mut self, reader: &mut BytecodeReader) {
    }

    fn execute(&mut self, vm: &mut Jvm) -> (r: Step) {
        let ghost a = *vm;
        let r = l_cmp(vm.top_frame_mut());
        proof {
            let n = a.main_thread.frames@.len();
            assert(forall|k: int| 0 <= k < n - 1 ==> vm.main_thread.frames@[k] == a.main_thread.frames@[k]);
            lemma_top_update_wf(a, *vm);
            assert(top_changed(a, *vm, |f: Frame, g: Frame, r: Step| l_cmp_post(f, g, r), r));
        }
        r
    }
}

} // verus!
