//! The operand reader, the instruction interface, and the operand shapes
//! that concrete instructions share.
use vstd::prelude::*;
use crate::jvm::{Jvm, Step};
use crate::thread::Frame;

verus! {

/// A cursor over a method's code. Reading past the end gives zeros and
/// marks the reader as overrun.
pub struct BytecodeReader<'a> {
    pub code: &'a Vec<u8>,
    pub pc: usize,
    pub overrun: bool,
}

impl<'a> BytecodeReader<'a> {
    pub fn new(code: &'a Vec<u8>, pc: usize) -> (r: BytecodeReader<'a>)
        ensures
            r.code@ == code@,
            r.pc == pc,
            !r.overrun,
    {
        BytecodeReader { code, pc, overrun: false }
    }

    pub fn read_u8(&mut self) -> (r: u8)
        ensures
            final(self).code == old(self).code,
            old(self).pc < old(self).code@.len() ==> r == old(self).code@[old(self).pc as int]
                && final(self).pc == old(self).pc + 1 && final(self).overrun == old(self).overrun,
            old(self).pc >= old(self).code@.len() ==> r == 0 && final(self).overrun
                && final(self).pc == old(self).pc,
    {
        if self.pc < self.code.len() {
            let b = self.code[self.pc];
            self.pc = self.pc + 1;
            b
        } else {
            self.overrun = true;
            0
        }
    }

    /// A big-endian `u16`.
    pub fn read_u16(&mut self) -> (r: u16)
        ensures
            final(self).code == old(self).code,
            (old(self).pc + 1 < old(self).code@.len()) ==> r as int == crate::class_file::be16(
                old(self).code@,
                old(self).pc as int,
            ) && final(self).pc == old(self).pc + 2 && final(self).overrun == old(self).overrun,
    {
        let hi = self.read_u8() as u16;
        let lo = self.read_u8() as u16;
        hi * 256 + lo
    }

    /// A big-endian `i16`.
    pub fn read_i16(&mut self) -> (r: i16)
        ensures
            final(self).code == old(self).code,
            (old(self).pc + 1 < old(self).code@.len()) ==> final(self).pc == old(self).pc + 2
                && final(self).overrun == old(self).overrun && r as int == signed16(
                crate::class_file::be16(old(self).code@, old(self).pc as int),
            ),
    {
        let v = self.read_u16();
        if v >= 32768 {
            (v as i32 - 65536) as i16
        } else {
            v as i16
        }
    }
}

/// The signed 16-bit value with the bits of unsigned `v`.
pub open spec fn signed16(v: int) -> int {
    if v >= 32768 {
        v - 65536
    } else {
        v
    }
}

/// An instruction: it reads its operands, then executes against the
/// runtime with the current frame on top of the main thread.
pub trait Instruction {
    /// What executing the instruction does: `after` and `r` from `before`.
    spec fn executes(&self, before: Jvm, after: Jvm, r: Step) -> bool;

    /// Bytes of operands that follow the opcode.
    spec fn operand_bytes(&self) -> int;

    fn fetch_operands(&mut self, reader: &mut BytecodeReader)
        ensures
            final(reader).code == old(reader).code,
            old(reader).pc + old(self).operand_bytes() <= old(reader).code@.len() ==> final(reader).pc == old(
                reader,
            ).pc + old(self).operand_bytes(),
    ;

    fn execute(&mut self, vm: &mut Jvm) -> (r: Step)
        requires
            old(vm).wf(),
            old(vm).main_thread.frames@.len() > 0,
        ensures
            final(vm).wf(),
            old(self).executes(*old(vm), *final(vm), r),
    ;
}

/// `b` is `a` with only the current frame changed, as `post` says.
pub open spec fn top_changed(a: Jvm, b: Jvm, post: spec_fn(Frame, Frame, Step) -> bool, r: Step) -> bool {
    let n = a.main_thread.frames@.len();
    &&& b.loader == a.loader
    &&& b.heap == a.heap
    &&& b.registry == a.registry
    &&& b.pending_error == a.pending_error
    &&& b.main_thread.pc == a.main_thread.pc
    &&& b.main_thread.frames@.len() == n
    &&& forall|k: int| 0 <= k < n - 1 ==> #[trigger] b.main_thread.frames@[k] == a.main_thread.frames@[k]
    &&& post(a.main_thread.frames@.last(), b.main_thread.frames@.last(), r)
}

/// An instruction without operands.
pub struct NoOperandsInstruction {}

impl NoOperandsInstruction {
    pub fn new() -> (r: NoOperandsInstruction) {
        NoOperandsInstruction {}
    }
}

impl Instruction for NoOperandsInstruction {
    open spec fn operand_bytes(&self) -> int {
        0
    }

    open spec fn executes(&self, before: Jvm, after: Jvm, r: Step) -> bool {
        r is Continue && after == before
    }

    fn fetch_operands(&mut self, reader: &mut BytecodeReader) {
    }

    fn execute(&mut self, vm: &mut Jvm) -> (r: Step) {
        Step::Continue
    }
}

/// A branch: a signed 16-bit offset from the instruction's address.
pub struct BranchInstruction {
    pub offset: i32,
}

impl BranchInstruction {
    pub fn new() -> (r: BranchInstruction)
        ensures
            r.offset == 0,
    {
        BranchInstruction { offset: 0 }
    }

    pub fn get_offset(&self) -> (r: i32)
        ensures
            r == self.offset,
    {
        self.offset
    }

    pub fn fetch_operands(&mut self, reader: &mut BytecodeReader)
        ensures
            final(reader).code == old(reader).code,
            old(reader).pc + 1 < old(reader).code@.len() ==> final(reader).pc == old(reader).pc + 2
                && final(self).offset == signed16(crate::class_file::be16(old(reader).code@, old(reader).pc as int)),
    {
        self.offset = reader.read_i16() as i32;
    }
}

/// A local-variable access with an 8-bit index operand.
pub struct LocalVarsInstruction {
    pub index: usize,
}

impl LocalVarsInstruction {
    pub fn new() -> (r: LocalVarsInstruction)
        ensures
            r.index == 0,
    {
        LocalVarsInstruction { index: 0 }
    }

    pub fn with_index(index: usize) -> (r: LocalVarsInstruction)
        ensures
            r.index == index,
    {
        LocalVarsInstruction { index }
    }

    pub fn get_index(&self) -> (r: usize)
        ensures
            r == self.index,
    {
        self.index
    }

    pub fn fetch_operands(&mut self, reader: &mut BytecodeReader)
        ensures
            final(reader).code == old(reader).code,
            old(reader).pc < old(reader).code@.len() ==> final(self).index == old(reader).code@[old(
                reader,
            ).pc as int] && final(reader).pc == old(reader).pc + 1,
    {
        self.index = reader.read_u8() as usize;
    }
}

/// An instruction with a 16-bit constant-pool index operand.
pub struct ConstantPoolInstruction {
    pub index: usize,
}

impl ConstantPoolInstruction {
    pub fn new() -> (r: ConstantPoolInstruction)
        ensures
            r.index == 0,
    {
        ConstantPoolInstruction { index: 0 }
    }

    pub fn index(&self) -> (r: usize)
        ensures
            r == self.index,
    {
        self.index
    }

    pub fn fetch_operands(&mut self, reader: &mut BytecodeReader)
        ensures
            final(reader).code == old(reader).code,
            old(reader).pc + 1 < old(reader).code@.len() ==> final(self).index == crate::class_file::be16(
                old(reader).code@,
                old(reader).pc as int,
            ) && final(reader).pc == old(reader).pc + 2,
    {
        self.index = reader.read_u16() as usize;
    }
}

/// `g` is `f` with only its locals, operand stack and pc possibly changed.
pub open spec fn same_method(f: Frame, g: Frame) -> bool {
    g.class == f.class && g.method == f.method
}

impl Jvm {
    /// The current frame, to change in place.
    pub fn top_frame_mut(&mut self) -> (f: &mut Frame)
        requires
            old(self).main_thread.frames@.len() > 0,
        ensures
            *f == old(self).main_thread.frames@.last(),
            final(self).main_thread.frames@ == old(self).main_thread.frames@.update(
                old(self).main_thread.frames@.len() - 1,
                *final(f),
            ),
            final(self).main_thread.pc == old(self).main_thread.pc,
            final(self).loader == old(self).loader,
            final(self).heap == old(self).heap,
            final(self).registry == old(self).registry,
            final(self).lookups == old(self).lookups,
            final(self).pending_error == old(self).pending_error,
            final(self).uncaught_trace == old(self).uncaught_trace,
    {
        let top = self.main_thread.frames.len() - 1;
        &mut self.main_thread.frames[top]
    }
}

impl Jvm {
    /// Makes the current frame run its current instruction again: its
    /// next pc goes back to the instruction's address.
    pub fn revert_next_pc(&mut self)
        requires
            old(self).wf(),
            old(self).main_thread.frames@.len() > 0,
        ensures
            final(self).wf(),
            final(self).loader == old(self).loader,
            final(self).heap == old(self).heap,
            final(self).registry == old(self).registry,
            final(self).lookups == old(self).lookups,
            final(self).main_thread.pc == old(self).main_thread.pc,
            final(self).pending_error == old(self).pending_error,
            final(self).main_thread.frames@ == old(self).main_thread.frames@.update(
                old(self).main_thread.frames@.len() - 1,
                final(self).main_thread.frames@.last(),
            ),
            final(self).main_thread.frames@.len() == old(self).main_thread.frames@.len(),
            final(self).main_thread.frames@.last() == (Frame {
                next_pc: old(self).main_thread.pc,
                ..old(self).main_thread.frames@.last()
            }),
    {
        let ghost a = *self;
        let pc = self.main_thread.pc;
        self.top_frame_mut().set_next_pc(pc);
        proof {
            let n = a.main_thread.frames@.len();
            assert(forall|k: int| 0 <= k < n - 1 ==> self.main_thread.frames@[k] == a.main_thread.frames@[k]);
            lemma_top_update_wf(a, *self);
        }
    }
}

/// Changing the current frame in place, keeping its method, keeps the
/// runtime invariant.
pub proof fn lemma_top_update_wf(a: Jvm, b: Jvm)
    requires
        a.wf(),
        a.main_thread.frames@.len() > 0,
        b.loader == a.loader,
        b.heap == a.heap,
        b.main_thread.frames@.len() == a.main_thread.frames@.len(),
        forall|k: int|
            0 <= k < a.main_thread.frames@.len() ==> same_method(
                a.main_thread.frames@[k],
                #[trigger] b.main_thread.frames@[k],
            ),
    ensures
        b.wf(),
{
    assert forall|k: int| 0 <= k < b.main_thread.frames@.len() implies {
        let f = #[trigger] b.main_thread.frames@[k];
        f.class < b.loader@.len() && f.method < b.loader@[f.class as int].methods@.len()
    } by {
        assert(same_method(a.main_thread.frames@[k], b.main_thread.frames@[k]));
    }
}

} // verus!
