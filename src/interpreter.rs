//! The interpreter loop: fetch, decode and execute, one instruction per step.
use vstd::prelude::*;
use crate::class_file::be16;
use crate::instructions::base::{
    lemma_top_update_wf, ConstantPoolInstruction, Instruction, LocalVarsInstruction, NoOperandsInstruction,
};
use crate::instructions::comparisons::Lcmp;
use crate::instructions::constants::{LDC, LDC2w, LDCw};
use crate::instructions::control::{BiPush, Dup, IConst, Load, LoadN, Return};
use crate::instructions::math::{IXor, LXor};
use crate::instructions::references::{
    ANewArray, AThrow, GetStatic, InvokeInterface, InvokeSpecial, InvokeStatic, InvokeVirtual, New,
    PutField,
};
use crate::instructions::stores::{
    FStore, FStore0, FStore1, FStore2, FStore3, IStore, IStore0, IStore1, IStore2, IStore3,
};
use crate::invoke::raised;
use crate::jvm::{Jvm, Step};
use crate::thread::Frame;

verus! {

/// The supported opcodes, with what the opcode byte itself fixes.
#[derive(Clone, Copy, PartialEq, Eq, Structural, Debug)]
pub enum Op {
    Nop,
    Const(i32),
    BiPush,
    Ldc,
    LdcW,
    Ldc2W,
    Load,
    LoadN(usize),
    IStore,
    FStore,
    IStoreN(usize),
    FStoreN(usize),
    Dup,
    IXor,
    LXor,
    Lcmp,
    Return(usize),
    GetStatic,
    PutField,
    InvokeVirtual,
    InvokeSpecial,
    InvokeStatic,
    InvokeInterface,
    New,
    ANewArray,
    AThrow,
}

/// The instruction an opcode byte stands for.
pub open spec fn opcode_op(b: u8) -> Option<Op> {
    if b == 0x00 {
        Some(Op::Nop)
    } else if 0x02 <= b <= 0x08 {
        Some(Op::Const((b as i32 - 3) as i32))
    } else if b == 0x10 {
        Some(Op::BiPush)
    } else if b == 0x12 {
        Some(Op::Ldc)
    } else if b == 0x13 {
        Some(Op::LdcW)
    } else if b == 0x14 {
        Some(Op::Ldc2W)
    } else if b == 0x15 || b == 0x19 {
        Some(Op::Load)
    } else if 0x1a <= b <= 0x1d {
        Some(Op::LoadN((b - 0x1a) as usize))
    } else if 0x2a <= b <= 0x2d {
        Some(Op::LoadN((b - 0x2a) as usize))
    } else if b == 0x36 {
        Some(Op::IStore)
    } else if b == 0x38 {
        Some(Op::FStore)
    } else if 0x3b <= b <= 0x3e {
        Some(Op::IStoreN((b - 0x3b) as usize))
    } else if 0x43 <= b <= 0x46 {
        Some(Op::FStoreN((b - 0x43) as usize))
    } else if b == 0x59 {
        Some(Op::Dup)
    } else if b == 0x82 {
        Some(Op::IXor)
    } else if b == 0x83 {
        Some(Op::LXor)
    } else if b == 0x94 {
        Some(Op::Lcmp)
    } else if b == 0xac || b == 0xb0 {
        Some(Op::Return(1))
    } else if b == 0xad {
        Some(Op::Return(2))
    } else if b == 0xb1 {
        Some(Op::Return(0))
    } else if b == 0xb2 {
        Some(Op::GetStatic)
    } else if b == 0xb5 {
        Some(Op::PutField)
    } else if b == 0xb6 {
        Some(Op::InvokeVirtual)
    } else if b == 0xb7 {
        Some(Op::InvokeSpecial)
    } else if b == 0xb8 {
        Some(Op::InvokeStatic)
    } else if b == 0xb9 {
        Some(Op::InvokeInterface)
    } else if b == 0xbb {
        Some(Op::New)
    } else if b == 0xbd {
        Some(Op::ANewArray)
    } else if b == 0xbf {
        Some(Op::AThrow)
    } else {
        None
    }
}

/// Bytes of operands that follow the opcode.
pub open spec fn operand_width(op: Op) -> int {
    match op {
        Op::BiPush | Op::Ldc | Op::Load | Op::IStore | Op::FStore => 1,
        Op::LdcW | Op::Ldc2W | Op::GetStatic | Op::PutField | Op::InvokeVirtual | Op::InvokeSpecial
        | Op::InvokeStatic | Op::New | Op::ANewArray => 2,
        Op::InvokeInterface => 4,
        _ => 0,
    }
}

/// The operand of the instruction at `pc`: a signed byte for `bipush`, an
/// unsigned byte for the other one-byte forms, else a big-endian `u16`.
pub open spec fn operand_at(code: Seq<u8>, pc: int, op: Op) -> int {
    if operand_width(op) == 1 {
        if op is BiPush {
            code[pc + 1] as i8 as int
        } else {
            code[pc + 1] as int
        }
    } else if operand_width(op) >= 2 {
        be16(code, pc + 1)
    } else {
        0
    }
}

/// The instruction at `pc`: its kind, operand and the address after it.
pub open spec fn decode_spec(code: Seq<u8>, pc: int) -> Option<(Op, int, int)> {
    if pc < 0 || pc >= code.len() {
        None
    } else {
        match opcode_op(code[pc]) {
            None => None,
            Some(op) => {
                let next = pc + 1 + operand_width(op);
                if next > code.len() {
                    None
                } else {
                    Some((op, operand_at(code, pc, op), next))
                }
            },
        }
    }
}

/// What executing `op` with `operand` does, as its instruction states.
pub open spec fn op_executes(op: Op, operand: int, a: Jvm, b: Jvm, r: Step) -> bool {
    let lv = LocalVarsInstruction { index: operand as usize };
    let cp = ConstantPoolInstruction { index: operand as usize };
    let no = NoOperandsInstruction {};
    match op {
        Op::Nop => no.executes(a, b, r),
        Op::Const(v) => IConst(v).executes(a, b, r),
        Op::BiPush => BiPush(operand as i32).executes(a, b, r),
        Op::Ldc => LDC(lv).executes(a, b, r),
        Op::LdcW => LDCw(cp).executes(a, b, r),
        Op::Ldc2W => LDC2w(cp).executes(a, b, r),
        Op::Load => Load(lv).executes(a, b, r),
        Op::LoadN(n) => LoadN(n).executes(a, b, r),
        Op::IStore => IStore(lv).executes(a, b, r),
        Op::FStore => FStore(lv).executes(a, b, r),
        Op::IStoreN(n) => IStore(LocalVarsInstruction { index: n }).executes(a, b, r),
        Op::FStoreN(n) => FStore(LocalVarsInstruction { index: n }).executes(a, b, r),
        Op::Dup => Dup.executes(a, b, r),
        Op::IXor => IXor(no).executes(a, b, r),
        Op::LXor => LXor(no).executes(a, b, r),
        Op::Lcmp => Lcmp(no).executes(a, b, r),
        Op::Return(w) => Return(w).executes(a, b, r),
        Op::GetStatic => GetStatic(cp).executes(a, b, r),
        Op::PutField => PutField(cp).executes(a, b, r),
        Op::InvokeVirtual => InvokeVirtual(cp).executes(a, b, r),
        Op::InvokeSpecial => InvokeSpecial(cp).executes(a, b, r),
        Op::InvokeStatic => InvokeStatic(cp).executes(a, b, r),
        Op::InvokeInterface => InvokeInterface { index: operand as usize }.executes(a, b, r),
        Op::New => New(cp).executes(a, b, r),
        Op::ANewArray => ANewArray(cp).executes(a, b, r),
        Op::AThrow => AThrow(no).executes(a, b, r),
    }
}

/// `m` is `a` with the thread's pc at `pc` and the current frame's next pc
/// at `next`.
pub open spec fn advanced(a: Jvm, m: Jvm, pc: int, next: int) -> bool {
    let fs = a.main_thread.frames@;
    &&& m.loader == a.loader
    &&& m.heap == a.heap
    &&& m.registry == a.registry
    &&& m.pending_error == a.pending_error
    &&& m.uncaught_trace == a.uncaught_trace
    &&& m.lookups == a.lookups
    &&& m.main_thread.pc == pc
    &&& m.main_thread.frames@ == fs.update(fs.len() - 1, Frame { next_pc: next as usize, ..fs.last() })
}

/// One step from `a` gives `b` and `r`: a pending error is raised;
/// otherwise the instruction at the current frame's next pc is decoded, the
/// thread's pc mirrors its address, the frame's next pc moves past it, and
/// it executes. No frame, or no supported instruction there, is a fault.
pub open spec fn step_post(a: Jvm, b: Jvm, r: Step) -> bool {
    let fs = a.main_thread.frames@;
    if fs.len() == 0 {
        r is Fault && b == a
    } else {
        let f = fs.last();
        let code = a.loader@[f.class as int].methods@[f.method as int].code@;
        let pc = f.next_pc as int;
        match a.pending_error {
            Some(e) => exists|m: Jvm|
                #[trigger] raised(m, b, e, r) && m.pending_error.is_none() && m.main_thread.pc == pc
                    && m.main_thread.frames == a.main_thread.frames && m.loader == a.loader && m.heap == a.heap,
            None => match decode_spec(code, pc) {
                None => r is Fault,
                Some((op, operand, next)) => exists|m: Jvm|
                    #[trigger] advanced(a, m, pc, next) && op_executes(op, operand, m, b, r),
            },
        }
    }
}

/// The instruction at `pc` of `code`.
fn decode(code: &Vec<u8>, pc: usize) -> (r: Option<(Op, i32, usize)>)
    ensures
        match decode_spec(code@, pc as int) {
            None => r.is_none(),
            Some((op, operand, next)) => r == Some((op, operand as i32, next as usize)) && -32768 <= operand
                < 65536,
        },
{
    let n = code.len();
    if pc >= n {
        return None;
    }
    let b = code[pc];
    let op = if b == 0x00 {
        Op::Nop
    } else if 0x02 <= b && b <= 0x08 {
        Op::Const(b as i32 - 3)
    } else if b == 0x10 {
        Op::BiPush
    } else if b == 0x12 {
        Op::Ldc
    } else if b == 0x13 {
        Op::LdcW
    } else if b == 0x14 {
        Op::Ldc2W
    } else if b == 0x15 || b == 0x19 {
        Op::Load
    } else if 0x1a <= b && b <= 0x1d {
        Op::LoadN((b - 0x1a) as usize)
    } else if 0x2a <= b && b <= 0x2d {
        Op::LoadN((b - 0x2a) as usize)
    } else if b == 0x36 {
        Op::IStore
    } else if b == 0x38 {
        Op::FStore
    } else if 0x3b <= b && b <= 0x3e {
        Op::IStoreN((b - 0x3b) as usize)
    } else if 0x43 <= b && b <= 0x46 {
        Op::FStoreN((b - 0x43) as usize)
    } else if b == 0x59 {
        Op::Dup
    } else if b == 0x82 {
        Op::IXor
    } else if b == 0x83 {
        Op::LXor
    } else if b == 0x94 {
        Op::Lcmp
    } else if b == 0xac || b == 0xb0 {
        Op::Return(1)
    } else if b == 0xad {
        Op::Return(2)
    } else if b == 0xb1 {
        Op::Return(0)
    } else if b == 0xb2 {
        Op::GetStatic
    } else if b == 0xb5 {
        Op::PutField
    } else if b == 0xb6 {
        Op::InvokeVirtual
    } else if b == 0xb7 {
        Op::InvokeSpecial
    } else if b == 0xb8 {
        Op::InvokeStatic
    } else if b == 0xb9 {
        Op::InvokeInterface
    } else if b == 0xbb {
        Op::New
    } else if b == 0xbd {
        Op::ANewArray
    } else if b == 0xbf {
        Op::AThrow
    } else {
        return None;
    };
    let w: usize = match op {
        Op::BiPush | Op::Ldc | Op::Load | Op::IStore | Op::FStore => 1,
        Op::LdcW | Op::Ldc2W | Op::GetStatic | Op::PutField | Op::InvokeVirtual | Op::InvokeSpecial
        | Op::InvokeStatic | Op::New | Op::ANewArray => 2,
        Op::InvokeInterface => 4,
        _ => 0,
    };
    if n - pc - 1 < w {
        return None;
    }
    let operand: i32 = if w == 1 {
        match op {
            Op::BiPush => (#[verifier::truncate] (code[pc + 1] as i8)) as i32,
            _ => code[pc + 1] as i32,
        }
    } else if w >= 2 {
        (code[pc + 1] as i32) * 256 + (code[pc + 2] as i32)
    } else {
        0
    };
    Some((op, operand, pc + 1 + w))
}

impl Jvm {
    /// Moves the current frame's next pc to `next` and executes `op`.
    fn run_op(&mut self, op: Op, operand: i32, next: usize) -> (r: Step)
        requires
            old(self).wf(),
            old(self).main_thread.frames@.len() > 0,
        ensures
            final(self).wf(),
            exists|m: Jvm|
                #[trigger] advanced(*old(self), m, old(self).main_thread.pc as int, next as int) && op_executes(
                    op,
                    operand as int,
                    m,
                    *final(self),
                    r,
                ),
    {
        let ghost a = *self;
        self.top_frame_mut().set_next_pc(next);
        proof {
            let n = a.main_thread.frames@.len();
            assert(forall|k: int| 0 <= k < n - 1 ==> self.main_thread.frames@[k] == a.main_thread.frames@[k]);
            lemma_top_update_wf(a, *self);
            assert(self.main_thread.frames@ =~= a.main_thread.frames@.update(
                n - 1,
                Frame { next_pc: next, ..a.main_thread.frames@.last() },
            ));
        }
        let ghost m = *self;
        let lv = LocalVarsInstruction::with_index(operand as usize);
        let cp = ConstantPoolInstruction { index: operand as usize };
        let r = match op {
            Op::Nop => NoOperandsInstruction::new().execute(self),
            Op::Const(v) => IConst(v).execute(self),
            Op::BiPush => BiPush(operand).execute(self),
            Op::Ldc => LDC(lv).execute(self),
            Op::LdcW => LDCw(cp).execute(self),
            Op::Ldc2W => LDC2w(cp).execute(self),
            Op::Load => Load(lv).execute(self),
            Op::LoadN(n) => LoadN(n).execute(self),
            Op::IStore => IStore(lv).execute(self),
            Op::FStore => FStore(lv).execute(self),
            Op::IStoreN(n) => match n {
                0 => IStore0(NoOperandsInstruction::new()).execute(self),
                1 => IStore1(NoOperandsInstruction::new()).execute(self),
                2 => IStore2(NoOperandsInstruction::new()).execute(self),
                3 => IStore3(NoOperandsInstruction::new()).execute(self),
                _ => IStore::with_index(n).execute(self),
            },
            Op::FStoreN(n) => match n {
                0 => FStore0::new().execute(self),
                1 => FStore1::new().execute(self),
                2 => FStore2::new().execute(self),
                3 => FStore3::new().execute(self),
                _ => FStore::with_index(n).execute(self),
            },
            Op::Dup => Dup.execute(self),
            Op::IXor => IXor(NoOperandsInstruction::new()).execute(self),
            Op::LXor => LXor(NoOperandsInstruction::new()).execute(self),
            Op::Lcmp => Lcmp(NoOperandsInstruction::new()).execute(self),
            Op::Return(w) => Return(w).execute(self),
            Op::GetStatic => GetStatic(cp).execute(self),
            Op::PutField => PutField(cp).execute(self),
            Op::InvokeVirtual => InvokeVirtual(cp).execute(self),
            Op::InvokeSpecial => InvokeSpecial(cp).execute(self),
            Op::InvokeStatic => InvokeStatic(cp).execute(self),
            Op::InvokeInterface => InvokeInterface { index: operand as usize }.execute(self),
            Op::New => New(cp).execute(self),
            Op::ANewArray => ANewArray(cp).execute(self),
            Op::AThrow => AThrow::new().execute(self),
        };
        proof {
            assert(advanced(*old(self), m, old(self).main_thread.pc as int, next as int));
            assert(op_executes(op, operand as int, m, *self, r));
        }
        r
    }

    /// One fetch-decode-execute cycle on the main thread (see `step_post`).
    pub fn step(&mut self) -> (r: Step)
        requires
            old(self).wf(),
        ensures
            final(self).wf(),
            step_post(*old(self), *final(self), r),
    {
        let n = self.main_thread.frames.len();
        if n == 0 {
            return Step::Fault;
        }
        let (c, m, pc) = {
            let f = &self.main_thread.frames[n - 1];
            (f.class, f.method, f.next_pc)
        };
        proof {
            assert(crate::jvm::frames_ok(self.loader@, self.main_thread));
            assert(self.main_thread.frames@[n - 1].class < self.loader@.len());
        }
        self.main_thread.pc = pc;
        if let Some(e) = self.pending_error {
            self.pending_error = None;
            let ghost mid = *self;
            let r = self.raise(e);
            proof {
                assert(raised(mid, *self, e, r));
            }
            return r;
        }
        let _len = self.loader.classes[c].methods[m].code.len();
        match decode(&self.loader.classes[c].methods[m].code, pc) {
            None => Step::Fault,
            Some((op, operand, next)) => {
                let ghost mid = *self;
                let r = self.run_op(op, operand, next);
                proof {
                    let w = choose|w: Jvm|
                        #[trigger] advanced(mid, w, pc as int, next as int) && op_executes(op, operand as int, w, *self, r);
                    assert(advanced(*old(self), w, pc as int, next as int));
                }
                r
            },
        }
    }

    /// Runs the main thread until its frames return to `base_depth`
    /// (`Returned`), a step needs the host (a class to load, output to
    /// write, an uncaught exception, a fault), or `fuel` steps have run
    /// (`Continue`). The state reached is that of a sequence of steps.
    pub fn run(&mut self, base_depth: usize, fuel: u64) -> (r: Step)
        requires
            old(self).wf(),
        ensures
            final(self).wf(),
            r is Returned ==> final(self).main_thread.frames@.len() <= base_depth,
            r is Continue ==> final(self).main_thread.frames@.len() > base_depth,
            old(self).main_thread.frames@.len() <= base_depth ==> r is Returned && *final(self) == *old(self),
            exists|tr: Seq<Jvm>|
                #[trigger] steps_trace(tr) && tr.len() >= 1 && tr[0] == *old(self) && tr.len() <= fuel + 1 && if r is Continue
                    || r is Returned {
                    tr.last() == *final(self) && (r is Continue ==> tr.len() == fuel + 1)
                } else {
                    step_post(tr.last(), *final(self), r)
                },
    {
        let ghost mut tr: Seq<Jvm> = seq![*self];
        if self.main_thread.frames.len() <= base_depth {
            proof {
                assert(steps_trace(tr));
            }
            return Step::Returned;
        }
        let mut left = fuel;
        while left > 0
            invariant
                self.wf(),
                old(self).main_thread.frames@.len() > base_depth,
                steps_trace(tr),
                tr.len() >= 1,
                tr[0] == *old(self),
                tr.last() == *self,
                tr.len() + left == fuel + 1,
            decreases left,
        {
            if self.main_thread.frames.len() <= base_depth {
                return Step::Returned;
            }
            let ghost before = *self;
            let s = self.step();
            match s {
                Step::Continue | Step::Returned => {
                    proof {
                        let t2 = tr.push(*self);
                        assert(t2.drop_last() == tr);
                        assert(steps_trace(t2)) by {
                            assert forall|i: int| 0 <= i < t2.len() - 1 implies #[trigger] continued(t2[i], t2[i + 1]) by {
                                if i < tr.len() - 1 {
                                    assert(continued(tr[i], tr[i + 1]));
                                } else {
                                    assert(step_post(before, *self, s));
                                }
                            }
                        }
                        tr = t2;
                    }
                },
                other => {
                    return other;
                },
            }
            left = left - 1;
        }
        if self.main_thread.frames.len() <= base_depth {
            return Step::Returned;
        }
        Step::Continue
    }
}

/// `b` follows from `a` by one step that let the run go on.
pub open spec fn continued(a: Jvm, b: Jvm) -> bool {
    step_post(a, b, Step::Continue) || step_post(a, b, Step::Returned)
}

/// Each state of `tr` follows from the one before by a step.
pub open spec fn steps_trace(tr: Seq<Jvm>) -> bool {
    forall|i: int| 0 <= i < tr.len() - 1 ==> #[trigger] continued(tr[i], tr[i + 1])
}

} // verus!
