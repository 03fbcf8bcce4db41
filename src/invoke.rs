//! Pushing the callee's frame, or running a native in its place.
use vstd::prelude::*;
use crate::heap::{error_class_name, JavaError, ObjectData};
use crate::jvm::class_named;
use crate::unwind::unwound;
use crate::jvm::{Interrupt, Jvm, Step};
use crate::native::NativeMethod;
use crate::slots::Slot;
use crate::thread::Frame;
use vstd::string::*;

verus! {

/// `g` is the frame pushed for method `(c, m)` with arguments `args`: a
/// local per argument slot, in order, then zeroed locals up to
/// `max(max_locals, args.len())`; an empty stack; pc 0.
pub open spec fn is_call_frame(g: Frame, c: int, m: int, max_locals: int, args: Seq<Slot>) -> bool {
    &&& g.class == c
    &&& g.method == m
    &&& g.operand_stack@.len() == 0
    &&& g.next_pc == 0
    &&& g.local_vars@.len() == if max_locals < args.len() {
        args.len() as int
    } else {
        max_locals
    }
    &&& forall|i: int| 0 <= i < args.len() ==> #[trigger] g.local_vars@[i] == args[i]
    &&& forall|i: int| args.len() <= i < g.local_vars@.len() ==> #[trigger] g.local_vars@[i] == Slot::zero()
}

impl Jvm {
    /// Invokes method `m` of class `c` from the current frame. A method
    /// found in the native registry runs at once on its arguments and its
    /// result lands on the caller's stack. Any other gets a new frame whose
    /// locals hold the arguments popped from the caller's stack.
    pub fn invoke_method(&mut self, c: usize, m: usize) -> (r: Step)
        requires
            old(self).wf(),
            old(self).main_thread.frames@.len() > 0,
            c < old(self).loader@.len(),
            m < old(self).loader@[c as int].methods@.len(),
        ensures
            final(self).wf(),
            final(self).loader == old(self).loader,
            ({
                let cs = old(self).loader@;
                let meth = cs[c as int].methods@[m as int];
                let fs = old(self).main_thread.frames@;
                let top = fs.len() - 1;
                let st = fs[top].operand_stack@;
                let argc = meth.arg_slot_count as int;
                let gs = final(self).main_thread.frames@;
                let native = crate::native::first_native(
                    old(self).registry.entries@,
                    0,
                    cs[c as int].name@,
                    meth.name@,
                    meth.descriptor@,
                );
                &&& st.len() < argc ==> r is Fault && *final(self) == *old(self)
                &&& (st.len() >= argc && native.is_none()) ==> {
                    &&& r is Continue
                    &&& gs.len() == fs.len() + 1
                    &&& gs.subrange(0, top) == fs.subrange(0, top)
                    &&& gs[top].operand_stack@ == st.subrange(0, st.len() - argc)
                    &&& gs[top].class == fs[top].class
                    &&& gs[top].method == fs[top].method
                    &&& gs[top].local_vars == fs[top].local_vars
                    &&& gs[top].next_pc == fs[top].next_pc
                    &&& is_call_frame(
                        gs[top + 1],
                        c as int,
                        m as int,
                        meth.max_locals as int,
                        st.subrange(st.len() - argc, st.len() as int),
                    )
                    &&& final(self).heap == old(self).heap
                }
            }),
    {
        let top = self.main_thread.frames.len() - 1;
        let native = {
            let class = &self.loader.classes[c];
            let meth = &class.methods[m];
            self.registry.find(class.name.as_str(), meth.name.as_str(), meth.descriptor.as_str())
        };
        let argc = self.loader.classes[c].methods[m].arg_slot_count;
        let max_locals = self.loader.classes[c].methods[m].max_locals;
        if self.main_thread.frames[top].operand_stack.size() < argc {
            return Step::Fault;
        }
        if let Some(nm) = native {
            return self.invoke_native(nm, argc);
        }
        let ghost fs = self.main_thread.frames@;
        let args = self.main_thread.frames[top].operand_stack.pop_n(argc);
        let n = if max_locals < argc { argc } else { max_locals };
        let mut f = Frame::new(c, m, n);
        let mut i: usize = 0;
        while i < argc
            invariant
                i <= argc,
                argc <= n,
                args@.len() == argc,
                f.class == c,
                f.method == m,
                f.operand_stack@.len() == 0,
                f.next_pc == 0,
                f.local_vars@.len() == n,
                forall|k: int| 0 <= k < i ==> #[trigger] f.local_vars@[k] == args@[k],
                forall|k: int| i <= k < n ==> #[trigger] f.local_vars@[k] == Slot::zero(),
            decreases argc - i,
        {
            f.local_vars.set_slot(i, args[i]);
            i = i + 1;
        }
        let ghost mid = self.main_thread.frames@;
        self.main_thread.push_frame(f);
        proof {
            let gs = self.main_thread.frames@;
            assert(gs.subrange(0, top as int) =~= fs.subrange(0, top as int));
            assert(forall|k: int| 0 <= k < top ==> mid[k] == fs[k]);
            assert(forall|k: int| 0 <= k < gs.len() - 1 ==> gs[k] == mid[k]);
        }
        Step::Continue
    }

    /// Runs a native on the top `argc` slots of the current frame, which it
    /// takes as its arguments, and pushes its result onto that frame.
    fn invoke_native(&mut self, nm: NativeMethod, argc: usize) -> (r: Step)
        requires
            old(self).wf(),
            old(self).main_thread.frames@.len() > 0,
            old(self).main_thread.frames@.last().operand_stack@.len() >= argc,
        ensures
            final(self).wf(),
            final(self).loader == old(self).loader,
    {
        let top = self.main_thread.frames.len() - 1;
        let (c, m) = (self.main_thread.frames[top].class, self.main_thread.frames[top].method);
        // Classes a native allocates from are loaded before its arguments
        // are taken, so that the invoking instruction can simply run again.
        let needed = match nm {
            NativeMethod::CurrentThread => Some("java/lang/Thread"),
            NativeMethod::FindLoadedClass0 | NativeMethod::FindBootstrapClass => Some("java/lang/Class"),
            _ => None,
        };
        if let Some(n) = needed {
            if self.loader.find_class(n).is_none() {
                return self.interrupted(Interrupt::NeedsClass(String::from_str(n)));
            }
        }
        if let NativeMethod::CurrentThread = nm {
            if self.loader.find_class("java/lang/String").is_none() {
                return self.interrupted(Interrupt::NeedsClass(String::from_str("java/lang/String")));
            }
            if self.loader.find_class("java/lang/ThreadGroup").is_none() {
                return self.interrupted(Interrupt::NeedsClass(String::from_str("java/lang/ThreadGroup")));
            }
        }
        let args = self.main_thread.frames[top].operand_stack.pop_n(argc);
        let mut nf = Frame::new(c, m, argc);
        let mut i: usize = 0;
        while i < argc
            invariant
                i <= argc,
                args@.len() == argc,
                nf.local_vars@.len() == argc,
                nf.class == c,
                nf.method == m,
            decreases argc - i,
        {
            nf.local_vars.set_slot(i, args[i]);
            i = i + 1;
        }
        let mut out: Option<Vec<u8>> = None;
        match nm {
            NativeMethod::FindBuiltinLib => {
                if argc < 1 {
                    return Step::Fault;
                }
                crate::native::class_loader::find_built_in_lib(&mut nf);
            },
            NativeMethod::FindLoadedClass0 | NativeMethod::FindBootstrapClass => {
                if argc < 2 {
                    return Step::Fault;
                }
                match crate::native::class_loader::find_loaded_class0(self, &mut nf) {
                    Step::Continue => {},
                    other => {
                        return other;
                    },
                }
            },
            NativeMethod::IsAlive => crate::native::thread::is_alive(&mut nf),
            NativeMethod::SetPriority0 => crate::native::thread::set_priority0(&mut nf),
            NativeMethod::Start0 => crate::native::thread::start0(&mut nf),
            NativeMethod::VmSupportsCs8 => crate::native::atomic_long::vm_supports_cs8(&mut nf),
            NativeMethod::InitIds => crate::native::file_output_stream::init_ids(&mut nf),
            NativeMethod::CurrentThread => {
                match crate::native::thread::current_thread(self, &mut nf) {
                    Step::Continue => {},
                    other => {
                        return other;
                    },
                }
            },
            NativeMethod::WriteBytes => {
                if argc < 4 {
                    return Step::Fault;
                }
                let b = nf.local_vars.get_ref(1);
                let off = nf.local_vars.get_int(2);
                let len = nf.local_vars.get_int(3);
                let bytes = match b {
                    Some(o) if o < self.heap.len() => match &self.heap[o].data {
                        ObjectData::Array(a) => crate::native::file_output_stream::write_bytes(a, off, len),
                        _ => Err(JavaError::ArrayStore),
                    },
                    _ => Err(JavaError::NullPointer),
                };
                match bytes {
                    Ok(v) => {
                        out = Some(v);
                    },
                    Err(e) => {
                        return self.raise(e);
                    },
                }
            },
        }
        let results = nf.operand_stack.slots;
        let mut k: usize = 0;
        let top = self.main_thread.frames.len() - 1;
        while k < results.len()
            invariant
                self.wf(),
                self.loader == old(self).loader,
                top + 1 == self.main_thread.frames@.len(),
            decreases results@.len() - k,
        {
            let ghost before = self.main_thread.frames@;
            self.main_thread.frames[top].operand_stack.push_slot(results[k]);
            proof {
                assert(forall|j: int| 0 <= j < before.len() && j != top ==> self.main_thread.frames@[j] == before[j]);
                assert(self.main_thread.frames@[top as int].class == before[top as int].class);
            }
            k = k + 1;
        }
        match out {
            Some(v) => Step::Output(v),
            None => Step::Continue,
        }
    }

    /// Raises `e` through the unwinder: an object of its class is
    /// allocated and unwound (`Continue` when a handler took it, `Uncaught`
    /// when none did). When its class is not loaded, the error is kept
    /// pending and `NeedsClass` asks the host to load the class; the next
    /// step raises it.
    pub fn raise(&mut self, e: JavaError) -> (r: Step)
        requires
            old(self).wf(),
        ensures
            final(self).wf(),
            final(self).loader == old(self).loader,
            raised(*old(self), *final(self), e, r),
            forall|a: Jvm|
                a.heap == old(self).heap && a.loader@.len() == old(self).loader@.len() ==> #[trigger] raises(
                    a,
                    *final(self),
                    e,
                    r,
                ),
    {
        let r = match self.throw_error(e) {
            None => {
                self.pending_error = Some(e);
                Step::NeedsClass(String::from_str(e.class_name()))
            },
            Some((_, true)) => Step::Continue,
            Some((obj, false)) => Step::Uncaught(obj),
        };
        proof {
            assert forall|a: Jvm|
                a.heap == old(self).heap && a.loader@.len() == old(self).loader@.len() implies #[trigger] raises(
                a,
                *self,
                e,
                r,
            ) by {
                assert(raised(*old(self), *self, e, r));
            }
        }
        r
    }
}

/// Error `e` was raised from a state with the heap of `a` (an instruction
/// may first pop its operands or memoize a resolution).
pub open spec fn raises(a: Jvm, b: Jvm, e: JavaError, r: Step) -> bool {
    exists|mid: Jvm| #[trigger] raised(mid, b, e, r) && mid.heap == a.heap && mid.loader@.len() == a.loader@.len()
}

/// `b` and `r` are what raising `e` in state `a` gives.
pub open spec fn raised(a: Jvm, b: Jvm, e: JavaError, r: Step) -> bool {
    match class_named(a.loader@, error_class_name(e)) {
        None => (r matches Step::NeedsClass(n) && n@ == error_class_name(e)) && b == (Jvm {
            pending_error: Some(e),
            ..a
        }),
        Some(c) => {
            let o = a.heap@.len() as usize;
            &&& b.loader == a.loader
            &&& b.heap@.len() == a.heap@.len() + 1
            &&& b.heap@.drop_last() == a.heap@
            &&& b.heap@[o as int].class == c
            &&& unwound(a, b, o, c as int, r is Continue)
            &&& !(r is Continue) ==> r == Step::Uncaught(o)
        },
    }
}

} // verus!
