//! Stores from the operand stack into local variables.
use vstd::prelude::*;
use crate::instructions::base::{
    lemma_top_update_wf, same_method, top_changed, BytecodeReader, Instruction, LocalVarsInstruction,
    NoOperandsInstruction,
};
use crate::jvm::{Jvm, Step};
use crate::slots::Slot;
use crate::thread::Frame;

verus! {

/// The effect of popping one slot into local `index`: `Fault` (and no
/// change) when the stack is empty or the local does not exist.
pub open spec fn stored_local(f: Frame, g: Frame, index: int, r: Step) -> bool {
    let st = f.operand_stack@;
    if st.len() == 0 || index >= f.local_vars@.len() {
        r is Fault && g == f
    } else {
        &&& r is Continue
        &&& same_method(f, g)
        &&& g.next_pc == f.next_pc
        &&& g.operand_stack@ == st.drop_last()
        &&& g.local_vars@ == f.local_vars@.update(index, Slot { num: st.last().num, reference: None })
    }
}

/// `istore`: pops an int into local `index`.
pub fn i_store(frame: &mut Frame, index: usize) -> (r: Step)
    ensures
        stored_local(*old(frame), *final(frame), index as int, r),
{
    if frame.operand_stack.size() == 0 || index >= frame.local_vars.len() {
        return Step::Fault;
    }
    let v = frame.operand_stack.pop_int();
    frame.local_vars.set_int(index, v);
    Step::Continue
}

/// `fstore`: pops a float, as its bits, into local `index`.
pub fn f_store(frame: &mut Frame, index: usize) -> (r: Step)
    ensures
        stored_local(*old(frame), *final(frame), index as int, r),
{
    if frame.operand_stack.size() == 0 || index >= frame.local_vars.len() {
        return Step::Fault;
    }
    let bits = frame.operand_stack.pop_int();
    frame.local_vars.set_int(index, bits);
    Step::Continue
}

/// Runs a store into local `index` on the current frame.
fn store_on_top(vm: &mut Jvm, index: usize, float: bool) -> (r: Step)
    requires
        old(vm).wf(),
        old(vm).main_thread.frames@.len() > 0,
    ensures
        final(vm).wf(),
        top_changed(*old(vm), *final(vm), |f: Frame, g: Frame, r: Step| stored_local(f, g, index as int, r), r),
{
    let ghost a = *vm;
    let r = if float {
        f_store(vm.top_frame_mut(), index)
    } else {
        i_store(vm.top_frame_mut(), index)
    };
    proof {
        let n = a.main_thread.frames@.len();
        assert(forall|k: int| 0 <= k < n - 1 ==> vm.main_thread.frames@[k] == a.main_thread.frames@[k]);
        assert(same_method(a.main_thread.frames@[n - 1], vm.main_thread.frames@[n - 1]));
        lemma_top_update_wf(a, *vm);
        assert(top_changed(a, *vm, |f: Frame, g: Frame, r: Step| stored_local(f, g, index as int, r), r));
    }
    r
}

/// `fstore index`
pub struct FStore(pub LocalVarsInstruction);

impl FStore {
    pub fn with_index(index: usize) -> (r: FStore)
        ensures
            r.0.index == index,
    {
        FStore(LocalVarsInstruction::with_index(index))
    }
}

impl Instruction for FStore {
    open spec fn operand_bytes(&self) -> int {
        1
    }

    open spec fn executes(&self, before: Jvm, after: Jvm, r: Step) -> bool {
        top_changed(before, after, |f: Frame, g: Frame, r: Step| stored_local(f, g, self.0.index as int, r), r)
    }

    fn fetch_operands(&mut self, reader: &mut BytecodeReader) {
        self.0.fetch_operands(reader);
    }

    fn execute(&mut self, vm: &mut Jvm) -> (r: Step) {
        store_on_top(vm, self.0.get_index(), true)
    }
}

/// `istore index`
pub struct IStore(pub LocalVarsInstruction);

impl IStore {
    pub fn with_index(index: usize) -> (r: IStore)
        ensures
            r.0.index == index,
    {
        IStore(LocalVarsInstruction::with_index(index))
    }
}

impl Instruction for IStore {
    open spec fn operand_bytes(&self) -> int {
        1
    }

    open spec fn executes(&self, before: Jvm, after: Jvm, r: Step) -> bool {
        top_changed(before, after, |f: Frame, g: Frame, r: Step| stored_local(f, g, self.0.index as int, r), r)
    }

    fn fetch_operands(&mut self, reader: &mut BytecodeReader) {
        self.0.fetch_operands(reader);
    }

    fn execute(&mut self, vm: &mut Jvm) -> (r: Step) {
        store_on_top(vm, self.0.get_index(), false)
    }
}

/// `fstore_0`
pub struct FStore0(pub NoOperandsInstruction);

impl FStore0 {
    pub fn new() -> (r: FStore0) {
        FStore0(NoOperandsInstruction::new())
    }
}

impl Instruction for FStore0 {
    open spec fn operand_bytes(&self) -> int {
        0
    }

    open spec fn executes(&self, before: Jvm, after: Jvm, r: Step) -> bool {
        top_changed(before, after, |f: Frame, g: Frame, r: Step| stored_local(f, g, 0, r), r)
    }

    fn fetch_operands(&mut self, reader: &mut BytecodeReader) {
    }

    fn execute(&mut self, vm: &mut Jvm) -> (r: Step) {
        store_on_top(vm, 0, true)
    }
}

/// `fstore_1`
pub struct FStore1(pub NoOperandsInstruction);

impl FStore1 {
    pub fn new() -> (r: FStore1) {
        FStore1(NoOperandsInstruction::new())
    }
}

impl Instruction for FStore1 {
    open spec fn operand_bytes(&self) -> int {
        0
    }

    open spec fn executes(&self, before: Jvm, after: Jvm, r: Step) -> bool {
        top_changed(before, after, |f: Frame, g: Frame, r: Step| stored_local(f, g, 1, r), r)
    }

    fn fetch_operands(&mut self, reader: &mut BytecodeReader) {
    }

    fn execute(&mut self, vm: &mut Jvm) -> (r: Step) {
        store_on_top(vm, 1, true)
    }
}

/// `fstore_2`
pub struct FStore2(pub NoOperandsInstruction);

impl FStore2 {
    pub fn new() -> (r: FStore2) {
        FStore2(NoOperandsInstruction::new())
    }
}

impl Instruction for FStore2 {
    open spec fn operand_bytes(&self) -> int {
        0
    }

    open spec fn executes(&self, before: Jvm, after: Jvm, r: Step) -> bool {
        top_changed(before, after, |f: Frame, g: Frame, r: Step| stored_local(f, g, 2, r), r)
    }

    fn fetch_operands(&mut self, reader: &mut BytecodeReader) {
    }

    fn execute(&mut self, vm: &mut Jvm) -> (r: Step) {
        store_on_top(vm, 2, true)
    }
}

/// `fstore_3`
pub struct FStore3(pub NoOperandsInstruction);

impl FStore3 {
    pub fn new() -> (r: FStore3) {
        FStore3(NoOperandsInstruction::new())
    }
}

impl Instruction for FStore3 {
    open spec fn operand_bytes(&self) -> int {
        0
    }

    open spec fn executes(&self, before: Jvm, after: Jvm, r: Step) -> bool {
        top_changed(before, after, |f: Frame, g: Frame, r: Step| stored_local(f, g, 3, r), r)
    }

    fn fetch_operands(&mut self, reader: &mut BytecodeReader) {
    }

    fn execute(&mut self, vm: &mut Jvm) -> (r: Step) {
        store_on_top(vm, 3, true)
    }
}

/// `istore_0`
pub struct IStore0(pub NoOperandsInstruction);

impl Instruction for IStore0 {
    open spec fn operand_bytes(&self) -> int {
        0
    }

    open spec fn executes(&self, before: Jvm, after: Jvm, r: Step) -> bool {
        top_changed(before, after, |f: Frame, g: Frame, r: Step| stored_local(f, g, 0, r), r)
    }

    fn fetch_operands(&mut self, reader: &mut BytecodeReader) {
    }

    fn execute(&mut self, vm: &mut Jvm) -> (r: Step) {
        store_on_top(vm, 0, false)
    }
}

/// `istore_1`
pub struct IStore1(pub NoOperandsInstruction);

impl Instruction for IStore1 {
    open spec fn operand_bytes(&self) -> int {
        0
    }

    open spec fn executes(&self, before: Jvm, after: Jvm, r: Step) -> bool {
        top_changed(before, after, |f: Frame, g: Frame, r: Step| stored_local(f, g, 1, r), r)
    }

    fn fetch_operands(&mut self, reader: &mut BytecodeReader) {
    }

    fn execute(&mut self, vm: &mut Jvm) -> (r: Step) {
        store_on_top(vm, 1, false)
    }
}

/// `istore_2`
pub struct IStore2(pub NoOperandsInstruction);

impl Instruction for IStore2 {
    open spec fn operand_bytes(&self) -> int {
        0
    }

    open spec fn executes(&self, before: Jvm, after: Jvm, r: Step) -> bool {
        top_changed(before, after, |f: Frame, g: Frame, r: Step| stored_local(f, g, 2, r), r)
    }

    fn fetch_operands(&mut self, reader: &mut BytecodeReader) {
    }

    fn execute(&mut self, vm: &mut Jvm) -> (r: Step) {
        store_on_top(vm, 2, false)
    }
}

/// `istore_3`
pub struct IStore3(pub NoOperandsInstruction);

impl Instruction for IStore3 {
    open spec fn operand_bytes(&self) -> int {
        0
    }

    open spec fn executes(&self, before: Jvm, after: Jvm, r: Step) -> bool {
        top_changed(before, after, |f: Frame, g: Frame, r: Step| stored_local(f, g, 3, r), r)
    }

    fn fetch_operands(&mut self, reader: &mut BytecodeReader) {
    }

    fn execute(&mut self, vm: &mut Jvm) -> (r: Step) {
        store_on_top(vm, 3, false)
    }
}

} // verus!
