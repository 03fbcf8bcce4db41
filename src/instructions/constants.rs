//! Loading constants from the pool: `ldc`, `ldc_w` and `ldc2_w`.
use vstd::prelude::*;
use crate::constant_pool::Constant;
use crate::heap::{JavaError, Object, ObjectData};
use crate::instructions::base::{
    lemma_top_update_wf, BytecodeReader, ConstantPoolInstruction, Instruction, LocalVarsInstruction,
};
use crate::jvm::{class_named, Interrupt, Jvm, Step};
use crate::slots::{long_hi, long_lo, Slot};
use crate::thread::Frame;
use crate::strings::str_eq;
use vstd::string::*;

verus! {

/// The first string object of `heap` from `k` on that holds `s`.
pub open spec fn first_str(heap: Seq<Object>, s: Seq<char>, k: int) -> Option<int>
    decreases heap.len() - k,
{
    if k < 0 || k >= heap.len() {
        None
    } else if heap[k].data matches ObjectData::Str(t) && t@ == s {
        Some(k)
    } else {
        first_str(heap, s, k + 1)
    }
}

/// The interned string object for `s`: the first one already in `heap`,
/// else the one appended next.
pub open spec fn interned_at(heap: Seq<Object>, s: Seq<char>) -> int {
    match first_str(heap, s, 0) {
        Some(k) => k,
        None => heap.len() as int,
    }
}

impl Jvm {
    /// Pushes one or two slots onto the current frame.
    pub fn push_on_top(&mut self, s: Slot, wide: Option<Slot>)
        requires
            old(self).wf(),
            old(self).main_thread.frames@.len() > 0,
        ensures
            final(self).wf(),
            final(self).loader == old(self).loader,
            final(self).heap == old(self).heap,
            final(self).main_thread.frames@.len() == old(self).main_thread.frames@.len(),
            final(self).main_thread.frames@.last().operand_stack@ == match wide {
                None => old(self).main_thread.frames@.last().operand_stack@.push(s),
                Some(h) => old(self).main_thread.frames@.last().operand_stack@.push(s).push(h),
            },
            final(self).main_thread.frames@.last().next_pc == old(self).main_thread.frames@.last().next_pc,
            crate::jvm::only_top_stack(*old(self), *final(self)),
            final(self).registry == old(self).registry,
            final(self).pending_error == old(self).pending_error,
            final(self).uncaught_trace == old(self).uncaught_trace,
    {
        let ghost a = *self;
        let f = self.top_frame_mut();
        f.operand_stack.push_slot(s);
        if let Some(h) = wide {
            f.operand_stack.push_slot(h);
        }
        proof {
            let n = a.main_thread.frames@.len();
            assert(forall|k: int| 0 <= k < n - 1 ==> self.main_thread.frames@[k] == a.main_thread.frames@[k]);
            lemma_top_update_wf(a, *self);
        }
    }

    /// The interned string object holding `s`, created on first use.
    pub fn intern_string(&mut self, s: &String) -> (r: Result<usize, Interrupt>)
        requires
            old(self).wf(),
        ensures
            final(self).wf(),
            final(self).loader == old(self).loader,
            final(self).main_thread == old(self).main_thread,
            final(self).heap@.len() >= old(self).heap@.len(),
            forall|k: int| 0 <= k < old(self).heap@.len() ==> #[trigger] final(self).heap@[k] == old(self).heap@[k],
            r matches Ok(o) ==> o < final(self).heap@.len() && (final(self).heap@[o as int].data matches ObjectData::Str(
                t,
            ) && t@ == s@),
            r.is_err() ==> (r matches Err(Interrupt::NeedsClass(n)) && n@ == "java/lang/String"@)
                && *final(self) == *old(self),
            r.is_err() == (class_named(old(self).loader@, "java/lang/String"@) is None),
            r matches Ok(o) ==> o == interned_at(old(self).heap@, s@),
            (r.is_ok() && first_str(old(self).heap@, s@, 0) is None) ==> final(self).heap@.len() == old(
                self,
            ).heap@.len() + 1,
            (r.is_ok() && first_str(old(self).heap@, s@, 0) is Some) ==> final(self).heap == old(self).heap,
    {
        let found = self.loader.find_class("java/lang/String");
        proof {
            crate::class_loader::lemma_find_is_named(self.loader@, "java/lang/String"@, found);
        }
        let sc = match found {
            Some(c) => c,
            None => {
                let n = String::from_str("java/lang/String");
                return Err(Interrupt::NeedsClass(n));
            },
        };
        let mut o: usize = 0;
        while o < self.heap.len()
            invariant
                self.wf(),
                self.loader == old(self).loader,
                self.main_thread == old(self).main_thread,
                self.heap == old(self).heap,
                class_named(old(self).loader@, "java/lang/String"@) is Some,
                o <= self.heap@.len(),
                first_str(self.heap@, s@, 0) == first_str(self.heap@, s@, o as int),
            decreases self.heap@.len() - o,
        {
            if let ObjectData::Str(t) = &self.heap[o].data {
                if str_eq(t.as_str(), s.as_str()) {
                    return Ok(o);
                }
            }
            o = o + 1;
        }
        let r = self.heap.len();
        self.heap.push(Object { class: sc, data: ObjectData::Str(s.clone()) });
        Ok(r)
    }

    /// The `java/lang/Class` object standing for class `t`, created on first use.
    pub fn mirror_of(&mut self, t: usize) -> (r: Result<usize, Interrupt>)
        requires
            old(self).wf(),
        ensures
            final(self).wf(),
            final(self).loader == old(self).loader,
            final(self).main_thread == old(self).main_thread,
            final(self).heap@.len() >= old(self).heap@.len(),
            forall|k: int| 0 <= k < old(self).heap@.len() ==> #[trigger] final(self).heap@[k] == old(self).heap@[k],
            r matches Ok(o) ==> o < final(self).heap@.len() && final(self).heap@[o as int].data == ObjectData::Mirror(t),
            r.is_err() ==> (r matches Err(Interrupt::NeedsClass(n)) && n@ == "java/lang/Class"@)
                && *final(self) == *old(self),
            r.is_err() == (class_named(old(self).loader@, "java/lang/Class"@) is None),
    {
        let found = self.loader.find_class("java/lang/Class");
        proof {
            crate::class_loader::lemma_find_is_named(self.loader@, "java/lang/Class"@, found);
        }
        let mc = match found {
            Some(c) => c,
            None => {
                let n = String::from_str("java/lang/Class");
                return Err(Interrupt::NeedsClass(n));
            },
        };
        let mut o: usize = 0;
        while o < self.heap.len()
            invariant
                self.wf(),
                self.loader == old(self).loader,
                self.main_thread == old(self).main_thread,
                self.heap == old(self).heap,
                class_named(old(self).loader@, "java/lang/Class"@) is Some,
            decreases self.heap@.len() - o,
        {
            if let ObjectData::Mirror(k) = &self.heap[o].data {
                if *k == t {
                    return Ok(o);
                }
            }
            o = o + 1;
        }
        let r = self.heap.len();
        self.heap.push(Object { class: mc, data: ObjectData::Mirror(t) });
        Ok(r)
    }

    /// Hands an interruption to the interpreter: a class to load (the
    /// instruction runs again afterwards), an error to raise, or a fault.
    pub fn interrupted(&mut self, i: Interrupt) -> (r: Step)
        requires
            old(self).wf(),
        ensures
            final(self).wf(),
            final(self).loader == old(self).loader,
            match i {
                Interrupt::NeedsClass(n) => {
                    let fs = old(self).main_thread.frames@;
                    &&& r == Step::NeedsClass(n)
                    &&& final(self).heap == old(self).heap
                    &&& final(self).pending_error == old(self).pending_error
                    &&& fs.len() == 0 ==> final(self).main_thread == old(self).main_thread
                    &&& fs.len() > 0 ==> final(self).main_thread.frames@ == fs.update(
                        fs.len() - 1,
                        Frame { next_pc: old(self).main_thread.pc, ..fs.last() },
                    )
                },
                Interrupt::Throw(e) => crate::invoke::raised(*old(self), *final(self), e, r),
                Interrupt::Fault => r is Fault && *final(self) == *old(self),
            },
            i matches Interrupt::Throw(e) ==> forall|a: Jvm|
                a.heap == old(self).heap && a.loader@.len() == old(self).loader@.len() ==> #[trigger] crate::invoke::raises(
                    a,
                    *final(self),
                    e,
                    r,
                ),
    {
        match i {
            Interrupt::NeedsClass(n) => {
                if self.main_thread.frames.len() > 0 {
                    self.revert_next_pc();
                }
                Step::NeedsClass(n)
            },
            Interrupt::Throw(e) => self.raise(e),
            Interrupt::Fault => Step::Fault,
        }
    }
}

/// The reference on top of the current frame's stack.
pub open spec fn top_ref(j: Jvm) -> usize {
    j.main_thread.frames@.last().operand_stack@.last().reference.unwrap()
}

/// `b` is `a` with one reference to an object of its heap pushed onto the
/// current frame; objects that `a` had are unchanged.
pub open spec fn pushed_object(a: Jvm, b: Jvm) -> bool {
    let st = a.main_thread.frames@.last().operand_stack@;
    let g = b.main_thread.frames@.last().operand_stack@;
    &&& b.main_thread.frames@.len() == a.main_thread.frames@.len()
    &&& g.len() == st.len() + 1
    &&& g.drop_last() == st
    &&& g.last().num == 0
    &&& g.last().reference is Some
    &&& top_ref(b) < b.heap@.len()
    &&& b.heap@.len() >= a.heap@.len()
    &&& forall|k: int| 0 <= k < a.heap@.len() ==> #[trigger] b.heap@[k] == a.heap@[k]
}

/// What `ldc` leaves and returns.
pub open spec fn ldc_post(before: Jvm, after: Jvm, index: usize, r: Step) -> bool {
    ({
        let f = before.main_thread.frames@.last();
        let st = f.operand_stack@;
        let e = before.entry(f.class as int, index as int);
        &&& e matches Some(Constant::Integer(v)) ==> r is Continue
            && after.main_thread.frames@.last().operand_stack@ == st.push(Slot { num: v, reference: None })
        &&& e matches Some(Constant::Float(v)) ==> r is Continue
            && after.main_thread.frames@.last().operand_stack@ == st.push(
            Slot { num: v as i32, reference: None },
        )
        &&& e matches Some(Constant::Str(text)) ==> match class_named(before.loader@, "java/lang/String"@) {
            None => (r matches Step::NeedsClass(n) && n@ == "java/lang/String"@) && after.heap
                == before.heap,
            Some(_) => r is Continue && pushed_object(before, after) && (after.heap@[top_ref(
                after,
            ) as int].data matches ObjectData::Str(t) && t@ == text@) && top_ref(after) == interned_at(
                before.heap@,
                text@,
            ),
        }
        &&& e matches Some(Constant::ClassReference(_)) ==> match crate::instructions::references::class_target(
            before,
            f.class as int,
            index as int,
        ) {
            Some(t) => match class_named(before.loader@, "java/lang/Class"@) {
                None => (r matches Step::NeedsClass(n) && n@ == "java/lang/Class"@) && after.heap
                    == before.heap,
                Some(_) => r is Continue && pushed_object(before, after) && after.heap@[top_ref(
                    after,
                ) as int].data == ObjectData::Mirror(t),
            },
            None => true,
        }
        &&& !(e matches Some(Constant::Integer(_)) || e matches Some(Constant::Float(_)) || e matches Some(
            Constant::Str(_),
        ) || e matches Some(Constant::ClassReference(_))) ==> crate::invoke::raises(
            before,
            after,
            JavaError::ClassFormat,
            r,
        )
    })
}

/// `ldc` and `ldc_w`: pushes an int, a float's bits, an interned string or
/// a class object from the current class's pool.
pub fn ldc(vm: &mut Jvm, index: usize) -> (r: Step)
    requires
        old(vm).wf(),
        old(vm).main_thread.frames@.len() > 0,
    ensures
        final(vm).wf(),
        ldc_post(*old(vm), *final(vm), index, r),
{
    let top = vm.main_thread.frames.len() - 1;
    let c = vm.main_thread.frames[top].class;
    proof {
        assert(crate::jvm::frames_ok(vm.loader@, vm.main_thread));
        assert(vm.main_thread.frames@[top as int].class < vm.loader@.len());
    }
    let slot = match vm.loader.classes[c].constant_pool.get_constant(index) {
        Some(Constant::Integer(v)) => Slot { num: *v, reference: None },
        Some(Constant::Float(v)) => Slot { num: *v as i32, reference: None },
        Some(Constant::Str(s)) => {
            let s = s.clone();
            match vm.intern_string(&s) {
                Ok(o) => Slot { num: 0, reference: Some(o) },
                Err(i) => {
                    return vm.interrupted(i);
                },
            }
        },
        Some(Constant::ClassReference(_)) => {
            let t = match vm.resolve_class_ref(c, index) {
                Ok(t) => t,
                Err(i) => {
                    return vm.interrupted(i);
                },
            };
            match vm.mirror_of(t) {
                Ok(o) => Slot { num: 0, reference: Some(o) },
                Err(i) => {
                    return vm.interrupted(i);
                },
            }
        },
        _ => {
            return vm.raise(JavaError::ClassFormat);
        },
    };
    if vm.main_thread.frames.len() == 0 {
        return Step::Fault;
    }
    let ghost mid = *vm;
    vm.push_on_top(slot, None);
    proof {
        let e = old(vm).entry(c as int, index as int);
        if slot.reference is Some {
            assert(mid.heap == vm.heap);
            assert(mid.main_thread == old(vm).main_thread);
            assert(top_ref(*vm) < vm.heap@.len());
            assert(vm.heap@.len() >= old(vm).heap@.len());
            assert(forall|k: int| 0 <= k < old(vm).heap@.len() ==> #[trigger] vm.heap@[k] == old(vm).heap@[k]);
            assert(vm.main_thread.frames@.last().operand_stack@.drop_last() =~= old(
                vm,
            ).main_thread.frames@.last().operand_stack@);
            assert(pushed_object(*old(vm), *vm));
        }
    }
    Step::Continue
}

/// What `ldc2` leaves and returns.
pub open spec fn ldc2_post(before: Jvm, after: Jvm, index: usize, r: Step) -> bool {
    ({
        let f = before.main_thread.frames@.last();
        let st = f.operand_stack@;
        let e = before.entry(f.class as int, index as int);
        &&& e matches Some(Constant::Long(v)) ==> r is Continue
            && after.main_thread.frames@.last().operand_stack@ == st.push(
            Slot { num: long_lo(v), reference: None },
        ).push(Slot { num: long_hi(v), reference: None })
        &&& e matches Some(Constant::Double(v)) ==> r is Continue
            && after.main_thread.frames@.last().operand_stack@ == st.push(
            Slot { num: long_lo(v as i64), reference: None },
        ).push(Slot { num: long_hi(v as i64), reference: None })
    })
}

/// `ldc2_w`: pushes a long, or a double's bits, from the pool.
pub fn ldc2(vm: &mut Jvm, index: usize) -> (r: Step)
    requires
        old(vm).wf(),
        old(vm).main_thread.frames@.len() > 0,
    ensures
        final(vm).wf(),
        ldc2_post(*old(vm), *final(vm), index, r),
{
    let top = vm.main_thread.frames.len() - 1;
    let c = vm.main_thread.frames[top].class;
    proof {
        assert(crate::jvm::frames_ok(vm.loader@, vm.main_thread));
        assert(vm.main_thread.frames@[top as int].class < vm.loader@.len());
    }
    let v: i64 = match vm.loader.classes[c].constant_pool.get_constant(index) {
        Some(Constant::Long(v)) => *v,
        Some(Constant::Double(v)) => *v as i64,
        _ => {
            return vm.raise(JavaError::ClassFormat);
        },
    };
    let lo = Slot { num: v as i32, reference: None };
    let hi = Slot { num: (v >> 32u64) as i32, reference: None };
    vm.push_on_top(lo, Some(hi));
    Step::Continue
}

/// `ldc index` (8-bit index)
pub struct LDC(pub LocalVarsInstruction);

impl LDC {
    pub fn new() -> (r: LDC)
        ensures
            r.0.index == 0,
    {
        LDC(LocalVarsInstruction::new())
    }
}

impl Instruction for LDC {
    open spec fn operand_bytes(&self) -> int {
        1
    }

    open spec fn executes(&self, before: Jvm, after: Jvm, r: Step) -> bool {
        ldc_post(before, after, self.0.index, r)
    }

    fn fetch_operands(&mut self, reader: &mut BytecodeReader) {
        self.0.fetch_operands(reader);
    }

    fn execute(&mut self, vm: &mut Jvm) -> (r: Step) {
        ldc(vm, self.0.get_index())
    }
}

/// `ldc_w index` (16-bit index)
pub struct LDCw(pub ConstantPoolInstruction);

impl LDCw {
    pub fn new() -> (r: LDCw)
        ensures
            r.0.index == 0,
    {
        LDCw(ConstantPoolInstruction::new())
    }
}

impl Instruction for LDCw {
    open spec fn operand_bytes(&self) -> int {
        2
    }

    open spec fn executes(&self, before: Jvm, after: Jvm, r: Step) -> bool {
        ldc_post(before, after, self.0.index, r)
    }

    fn fetch_operands(&mut self, reader: &mut BytecodeReader) {
        self.0.fetch_operands(reader);
    }

    fn execute(&mut self, vm: &mut Jvm) -> (r: Step) {
        ldc(vm, self.0.index())
    }
}

/// `ldc2_w index`
pub struct LDC2w(pub ConstantPoolInstruction);

impl LDC2w {
    pub fn new() -> (r: LDC2w)
        ensures
            r.0.index == 0,
    {
        LDC2w(ConstantPoolInstruction::new())
    }
}

impl Instruction for LDC2w {
    open spec fn operand_bytes(&self) -> int {
        2
    }

    open spec fn executes(&self, before: Jvm, after: Jvm, r: Step) -> bool {
        ldc2_post(before, after, self.0.index, r)
    }

    fn fetch_operands(&mut self, reader: &mut BytecodeReader) {
        self.0.fetch_operands(reader);
    }

    fn execute(&mut self, vm: &mut Jvm) -> (r: Step) {
        ldc2(vm, self.0.index())
    }
}

} // verus!
