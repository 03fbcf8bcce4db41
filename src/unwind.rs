//! Exception-table driven unwinding.
use vstd::prelude::*;
use crate::class::{Class, ExceptionHandler};
use crate::class_loader::is_subclass;
use crate::constant_pool::Constant;
use crate::heap::{error_class_name, JavaError, Object, ObjectData};
use crate::jvm::{class_named, Jvm};
use crate::slots::{Slot, Slots};
use crate::thread::Frame;
use vstd::string::*;

verus! {

/// The handler's catch type, a pool index of `pool`, names a loaded class
/// that the thrown class `exc` is, or extends.
pub open spec fn catches(cs: Seq<Class>, pool: Seq<Constant>, idx: int, exc: int) -> bool {
    &&& 1 <= idx <= pool.len()
    &&& pool[idx - 1] is ClassReference
    &&& match class_named(cs, pool[idx - 1]->ClassReference_0.class_name@) {
        Some(t) => t == exc || is_subclass(cs, exc, t as int),
        None => false,
    }
}

/// Handler `h` covers `pc` and catches everything or the thrown class.
pub open spec fn handler_matches(
    cs: Seq<Class>,
    pool: Seq<Constant>,
    h: ExceptionHandler,
    exc: int,
    pc: int,
) -> bool {
    h.covers(pc) && (h.catch_type == 0 || catches(cs, pool, h.catch_type as int, exc))
}

/// The handler address of the first entry of `table` from `k` on that
/// matches.
pub open spec fn first_handler(
    cs: Seq<Class>,
    pool: Seq<Constant>,
    table: Seq<ExceptionHandler>,
    k: int,
    exc: int,
    pc: int,
) -> Option<usize>
    decreases table.len() - k,
{
    if k < 0 || k >= table.len() {
        None
    } else if handler_matches(cs, pool, table[k], exc, pc) {
        Some(table[k].handler_pc)
    } else {
        first_handler(cs, pool, table, k + 1, exc, pc)
    }
}

/// The handler in frame `f` for an exception of class `exc` thrown by the
/// instruction just before `next_pc`.
pub open spec fn frame_handler(cs: Seq<Class>, f: Frame, exc: int) -> Option<usize> {
    if f.next_pc == 0 || f.class >= cs.len() || f.method >= cs[f.class as int].methods@.len() {
        None
    } else {
        let c = cs[f.class as int];
        first_handler(
            cs,
            c.constant_pool@,
            c.methods@[f.method as int].exception_table@,
            0,
            exc,
            f.next_pc - 1,
        )
    }
}

/// Where unwinding from the top of `frames` stops: the position of the
/// first frame (from the top) with a handler, and the handler's address.
pub open spec fn unwind_target(cs: Seq<Class>, frames: Seq<Frame>, exc: int) -> Option<(int, usize)>
    decreases frames.len(),
{
    if frames.len() == 0 {
        None
    } else {
        match frame_handler(cs, frames.last(), exc) {
            Some(h) => Some((frames.len() - 1, h)),
            None => unwind_target(cs, frames.drop_last(), exc),
        }
    }
}

/// Where unwinding stops depends on each frame's method and pc alone, not
/// on its locals or operand stack.
pub proof fn lemma_unwind_ignores_stacks(cs: Seq<Class>, a: Seq<Frame>, b: Seq<Frame>, exc: int)
    requires
        a.len() == b.len(),
        forall|k: int|
            0 <= k < a.len() ==> (#[trigger] a[k]).class == b[k].class && a[k].method == b[k].method
                && a[k].next_pc == b[k].next_pc,
    ensures
        unwind_target(cs, a, exc) == unwind_target(cs, b, exc),
    decreases a.len(),
{
    if a.len() > 0 {
        let n = a.len() - 1;
        assert(a[n].class == b[n].class);
        lemma_unwind_ignores_stacks(cs, a.drop_last(), b.drop_last(), exc);
    }
}

/// `b` is `a` after unwinding for exception object `o` of class `c`: the
/// frame that handles it resumes at its handler with only `o` on its
/// stack (`caught`), or no frame handles it and none is left.
pub open spec fn unwound(a: Jvm, b: Jvm, o: usize, c: int, caught: bool) -> bool {
    let fs = a.main_thread.frames@;
    let gs = b.main_thread.frames@;
    match unwind_target(a.loader@, fs, c) {
        Some((d, h)) => {
            &&& caught
            &&& gs.len() == d + 1
            &&& gs.subrange(0, d) == fs.subrange(0, d)
            &&& gs[d].class == fs[d].class
            &&& gs[d].method == fs[d].method
            &&& gs[d].local_vars == fs[d].local_vars
            &&& gs[d].next_pc == h
            &&& gs[d].operand_stack@ == seq![Slot { num: 0, reference: Some(o) }]
        },
        None => !caught && gs.len() == 0,
    }
}

/// Exception matching, the catching side: a handler whose range covers the
/// throwing pc and whose catch type names exactly the thrown class takes
/// the exception.
pub proof fn lemma_exact_type_caught(cs: Seq<Class>, pool: Seq<Constant>, h: ExceptionHandler, exc: int, pc: int)
    requires
        crate::class_loader::classes_wf(cs),
        cs.len() <= usize::MAX,
        h.start_pc <= pc < h.end_pc,
        1 <= h.catch_type <= pool.len(),
        pool[h.catch_type - 1] is ClassReference,
        0 <= exc < cs.len(),
        cs[exc].name@ == pool[h.catch_type - 1]->ClassReference_0.class_name@,
    ensures
        handler_matches(cs, pool, h, exc, pc),
{
    let n = pool[h.catch_type - 1]->ClassReference_0.class_name@;
    assert(cs[(exc as usize) as int].name@ == n);
    let t = choose|t: usize| t < cs.len() && (#[trigger] cs[t as int]).name@ == n;
    assert(cs[t as int].name@ == cs[exc].name@);
}

/// Exception matching, the propagating side: a frame without a matching
/// handler passes the exception on to its caller, as if it were not there.
pub proof fn lemma_unmatched_propagates(cs: Seq<Class>, fs: Seq<Frame>, exc: int)
    requires
        fs.len() > 0,
        frame_handler(cs, fs.last(), exc) is None,
    ensures
        unwind_target(cs, fs, exc) == unwind_target(cs, fs.drop_last(), exc),
{
}

impl Jvm {
    /// Allocates a plain object of class `c` with its instance slots zeroed.
    pub fn new_object(&mut self, c: usize) -> (r: usize)
        requires
            old(self).wf(),
            c < old(self).loader@.len(),
        ensures
            final(self).wf(),
            r == old(self).heap@.len(),
            final(self).heap@.len() == old(self).heap@.len() + 1,
            final(self).heap@.drop_last() == old(self).heap@,
            final(self).heap@[r as int].class == c,
            final(self).heap@[r as int].data matches ObjectData::Fields(s) && s@ == Seq::new(
                old(self).loader@[c as int].instance_slot_count as nat,
                |i: int| Slot::zero(),
            ),
            final(self).pending_error == old(self).pending_error,
            final(self).uncaught_trace == old(self).uncaught_trace,
            final(self).loader == old(self).loader,
            final(self).main_thread == old(self).main_thread,
            final(self).registry == old(self).registry,
            final(self).lookups == old(self).lookups,
    {
        let n = self.loader.classes[c].instance_slot_count;
        let r = self.heap.len();
        self.heap.push(Object { class: c, data: ObjectData::Fields(Slots::with_capacity(n)) });
        proof {
            assert(self.heap@.drop_last() =~= old(self).heap@);
        }
        r
    }

    /// Address of the first handler of method `m` of class `c` that covers
    /// `pc` and catches class `exc`.
    pub fn find_exception_handler(&self, c: usize, m: usize, exc: usize, pc: usize) -> (r: Option<usize>)
        requires
            self.wf(),
            c < self.loader@.len(),
            m < self.loader@[c as int].methods@.len(),
        ensures
            r == first_handler(
                self.loader@,
                self.loader@[c as int].constant_pool@,
                self.loader@[c as int].methods@[m as int].exception_table@,
                0,
                exc as int,
                pc as int,
            ),
    {
        let class = &self.loader.classes[c];
        let table = &class.methods[m].exception_table.table;
        let mut k: usize = 0;
        while k < table.len()
            invariant
                self.wf(),
                c < self.loader@.len(),
                class == self.loader@[c as int],
                m < class.methods@.len(),
                table == class.methods@[m as int].exception_table.table,
                k <= table@.len(),
                first_handler(self.loader@, class.constant_pool@, table@, 0, exc as int, pc as int)
                    == first_handler(self.loader@, class.constant_pool@, table@, k as int, exc as int, pc as int),
            decreases table@.len() - k,
        {
            let h = &table[k];
            if h.start_pc <= pc && pc < h.end_pc {
                if h.catch_type == 0 {
                    return Some(h.handler_pc);
                }
                if let Some(Constant::ClassReference(cr)) = class.constant_pool.get_constant(h.catch_type) {
                    let found = self.loader.find_class(cr.class_name.as_str());
                    proof {
                        if let Some(t) = found {
                            let t2 = choose|t: usize| t < self.loader@.len() && (#[trigger] self.loader@[t as int]).name@ == cr.class_name@;
                            assert(self.loader@[t as int].name@ == self.loader@[t2 as int].name@);
                        }
                    }
                    if let Some(t) = found {
                        if t == exc || (exc < self.loader.classes.len() && self.loader.is_sub_class_of(exc, t)) {
                            return Some(h.handler_pc);
                        }
                        proof {
                            if exc >= self.loader@.len() {
                                assert(!is_subclass(self.loader@, exc as int, t as int));
                            }
                        }
                    }
                }
            }
            k = k + 1;
        }
        None
    }

    /// Unwinds the main thread for exception object `exc` of class
    /// `exc_class`: frame by frame from the top, the first handler found
    /// gets the frame's operand stack cleared to just the exception, and
    /// execution resumes at the handler; frames without one are popped. With
    /// no handler anywhere the thread is left without frames and the result
    /// is false.
    pub fn find_and_goto_exception_handler(&mut self, exc: usize, exc_class: usize) -> (r: bool)
        requires
            old(self).wf(),
        ensures
            final(self).wf(),
            final(self).loader == old(self).loader,
            final(self).heap == old(self).heap,
            final(self).registry == old(self).registry,
            final(self).lookups == old(self).lookups,
            final(self).main_thread.pc == old(self).main_thread.pc,
            final(self).pending_error == old(self).pending_error,
            ({
                let fs = old(self).main_thread.frames@;
                let gs = final(self).main_thread.frames@;
                match unwind_target(old(self).loader@, fs, exc_class as int) {
                    Some((d, h)) => {
                        &&& r
                        &&& gs.len() == d + 1
                        &&& gs.subrange(0, d) == fs.subrange(0, d)
                        &&& gs[d].class == fs[d].class
                        &&& gs[d].method == fs[d].method
                        &&& gs[d].local_vars == fs[d].local_vars
                        &&& gs[d].operand_stack@ == seq![Slot { num: 0, reference: Some(exc) }]
                        &&& gs[d].next_pc == h
                    },
                    None => !r && gs.len() == 0,
                }
            }),
    {
        let ghost fs0 = self.main_thread.frames@;
        loop
            invariant
                self.wf(),
                self.loader == old(self).loader,
                self.heap == old(self).heap,
                self.registry == old(self).registry,
                self.lookups == old(self).lookups,
                self.main_thread.pc == old(self).main_thread.pc,
                self.pending_error == old(self).pending_error,
                fs0 == old(self).main_thread.frames@,
                self.main_thread.frames@.len() <= fs0.len(),
                self.main_thread.frames@ == fs0.subrange(0, self.main_thread.frames@.len() as int),
                unwind_target(self.loader@, fs0, exc_class as int) == unwind_target(
                    self.loader@,
                    self.main_thread.frames@,
                    exc_class as int,
                ),
            decreases self.main_thread.frames@.len(),
        {
            let n = self.main_thread.frames.len();
            if n == 0 {
                proof {
                    assert(unwind_target(self.loader@, self.main_thread.frames@, exc_class as int) is None);
                }
                return false;
            }
            let top = n - 1;
            let (c, m, next) = {
                let f = &self.main_thread.frames[top];
                (f.class, f.method, f.next_pc)
            };
            proof {
                assert(crate::jvm::frames_ok(self.loader@, self.main_thread));
                let f = self.main_thread.frames@[top as int];
                assert(f.class < self.loader@.len());
            }
            let handler = if next == 0 {
                None
            } else {
                self.find_exception_handler(c, m, exc_class, next - 1)
            };
            proof {
                let f = self.main_thread.frames@[top as int];
                assert(f == self.main_thread.frames@.last());
                assert(handler == frame_handler(self.loader@, f, exc_class as int));
            }
            match handler {
                Some(h) => {
                    let ghost before = self.main_thread.frames@;
                    proof {
                        assert(unwind_target(self.loader@, before, exc_class as int) == Some((top as int, h)));
                    }
                    let f = &mut self.main_thread.frames[top];
                    f.operand_stack.clear();
                    f.operand_stack.push_ref(Some(exc));
                    f.next_pc = h;
                    proof {
                        let gs = self.main_thread.frames@;
                        assert(gs.subrange(0, top as int) =~= before.subrange(0, top as int));
                        assert(fs0.subrange(0, top as int) =~= before.subrange(0, top as int));
                        assert(before[top as int] == fs0[top as int]);
                        assert(forall|k: int| 0 <= k < gs.len() && k != top ==> gs[k] == before[k]);
                    }
                    return true;
                },
                None => {
                    let ghost before = self.main_thread.frames@;
                    self.main_thread.pop_frame();
                    proof {
                        assert(before.drop_last() =~= fs0.subrange(0, top as int));
                    }
                },
            }
        }
    }

    /// One line per frame of the main thread, innermost first:
    /// `at Class.method(SourceFile)`, with the class name in dotted form.
    pub fn stack_trace(&self) -> (r: Vec<String>)
        requires
            self.wf(),
        ensures
            r@.len() == self.main_thread.frames@.len(),
    {
        let mut out: Vec<String> = Vec::new();
        let n = self.main_thread.frames.len();
        let mut k: usize = n;
        while k > 0
            invariant
                self.wf(),
                k <= n,
                n == self.main_thread.frames@.len(),
                out@.len() == n - k,
            decreases k,
        {
            let f = &self.main_thread.frames[k - 1];
            proof {
                assert(crate::jvm::frames_ok(self.loader@, self.main_thread));
                assert(self.main_thread.frames@[k - 1].class < self.loader@.len());
            }
            let class = &self.loader.classes[f.class];
            let mut line = String::new();
            line.append("at ");
            line.append(class.java_name().as_str());
            crate::class_file::push_char(&mut line, '.');
            line.append(class.methods[f.method].name.as_str());
            crate::class_file::push_char(&mut line, '(');
            line.append(class.source_file().as_str());
            crate::class_file::push_char(&mut line, ')');
            out.push(line);
            k = k - 1;
        }
        out
    }

    /// What the host reports for an uncaught exception object: its class
    /// name in dotted form and, when its `detailMessage` field holds a
    /// string, `: ` and the message. The thread's frames are cleared.
    pub fn handle_uncaught_exception(&mut self, exc: usize) -> (r: String)
        requires
            old(self).wf(),
        ensures
            final(self).wf(),
            final(self).main_thread.frames@.len() == 0,
            final(self).loader == old(self).loader,
            final(self).heap == old(self).heap,
    {
        self.main_thread.clear_stack();
        if exc >= self.heap.len() {
            return String::new();
        }
        let c = self.heap[exc].class;
        proof {
            assert(crate::jvm::objects_ok(self.loader@, self.heap@));
            assert(self.heap@[exc as int].class < self.loader@.len());
        }
        let mut msg = self.loader.classes[c].java_name();
        let _n = self.loader.classes.len();
        if let Some((fc, fi)) = self.look_up_field(c, "detailMessage", "Ljava/lang/String;") {
            proof {
                crate::jvm::lemma_lookup_field_in_range(self.loader@, c as int, "detailMessage"@, "Ljava/lang/String;"@);
            }
            let slot = self.loader.classes[fc].fields[fi].slot_id;
            if let ObjectData::Fields(fs) = &self.heap[exc].data {
                if slot < fs.len() {
                    if let Some(m) = fs.get_ref(slot) {
                        if m < self.heap.len() {
                            if let ObjectData::Str(text) = &self.heap[m].data {
                                msg.append(": ");
                                msg.append(text.as_str());
                            }
                        }
                    }
                }
            }
        }
        msg
    }

    /// Raises `e`: allocates an object of its class and unwinds. `None`
    /// when the class of `e` is not loaded; otherwise the exception object
    /// and whether a handler took it.
    pub fn throw_error(&mut self, e: JavaError) -> (r: Option<(usize, bool)>)
        requires
            old(self).wf(),
        ensures
            final(self).wf(),
            final(self).loader == old(self).loader,
            final(self).registry == old(self).registry,
            final(self).pending_error == old(self).pending_error,
            match class_named(old(self).loader@, error_class_name(e)) {
                None => r.is_none() && *final(self) == *old(self),
                Some(c) => r matches Some((o, caught)) && o == old(self).heap@.len() && final(self).heap@.len()
                    == old(self).heap@.len() + 1 && final(self).heap@.drop_last() == old(self).heap@
                    && final(self).heap@[o as int].class == c && unwound(*old(self), *final(self), o, c as int, caught),
            },
    {
        let found = self.loader.find_class(e.class_name());
        proof {
            crate::class_loader::lemma_find_is_named(self.loader@, error_class_name(e), found);
        }
        match found {
            None => None,
            Some(c) => {
                let obj = self.new_object(c);
                let trace = self.stack_trace();
                let caught = self.find_and_goto_exception_handler(obj, c);
                if !caught {
                    self.uncaught_trace = trace;
                }
                Some((obj, caught))
            },
        }
    }
}

} // verus!
