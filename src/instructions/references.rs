//! Object construction, field access, invocation and `athrow`.
use vstd::prelude::*;
use crate::class::Class;
use crate::class_loader::{lookup_method, member_accessible};
use crate::constant_pool::{Constant, MemberRef};
use crate::jvm::{array_name_of, class_named, fields_of, fields_room, lookup_field, same_but_pool};
use crate::invoke::raises;
use crate::dispatch::{class_of_ref, interface_choice, virtual_choice};
use crate::unwind::{lemma_unwind_ignores_stacks, unwind_target};
use crate::heap::{ArrayData, JavaError, Object, ObjectData, Value};
use crate::instructions::base::{
    lemma_top_update_wf, BytecodeReader, ConstantPoolInstruction, Instruction,
};
use crate::jvm::{Interrupt, Jvm, Step};
use crate::slots::Slot;
use crate::strings::{starts_with_char, str_eq};
use vstd::string::*;

verus! {

/// The class that resolving the entry at `index` of class `c`'s pool
/// gives: its memo, or else the loaded class of that name when `c` may
/// name it.
pub open spec fn class_target(j: Jvm, c: int, index: int) -> Option<usize> {
    let cs = j.loader@;
    match j.entry(c, index) {
        Some(Constant::ClassReference(cr)) => match cr.resolved {
            Some(t) => Some(t),
            None => match class_named(cs, cr.class_name@) {
                Some(t) => if crate::jvm::class_accessible(cs, t as int, c) {
                    Some(t)
                } else {
                    None
                },
                None => None,
            },
        },
        _ => None,
    }
}

/// The member that resolving a member reference `mr` of class `c` gives,
/// when the owner is found by name, passes `owner_ok`, and the member
/// found by `found` may be used from `c`.
pub open spec fn member_target(
    cs: Seq<Class>,
    c: int,
    mr: MemberRef,
    owner_ok: spec_fn(int) -> bool,
    found: spec_fn(int) -> Option<(usize, usize)>,
    flags: spec_fn((usize, usize)) -> u16,
) -> Option<(usize, usize)> {
    match mr.resolved {
        Some(t) => Some(t),
        None => match class_named(cs, mr.class_name@) {
            Some(k) => if owner_ok(k as int) {
                match found(k as int) {
                    Some(t) => if member_accessible(cs, flags(t), t.0 as int, c) {
                        Some(t)
                    } else {
                        None
                    },
                    None => None,
                }
            } else {
                None
            },
            None => None,
        },
    }
}

/// The field that resolving the entry at `index` of class `c`'s pool gives.
pub open spec fn field_target(j: Jvm, c: int, index: int) -> Option<(usize, usize)> {
    let cs = j.loader@;
    match j.entry(c, index) {
        Some(Constant::FieldReference(mr)) => member_target(
            cs,
            c,
            mr,
            |k: int| true,
            |k: int| lookup_field(cs, k, mr.name@, mr.descriptor@),
            |t: (usize, usize)| cs[t.0 as int].fields@[t.1 as int].access_flags,
        ),
        _ => None,
    }
}

/// The method that resolving the entry at `index` of class `c`'s pool
/// gives: a method reference (`interface` false) or an interface method
/// reference.
pub open spec fn method_target(j: Jvm, c: int, index: int, interface: bool) -> Option<(usize, usize)> {
    let cs = j.loader@;
    let m = |mr: MemberRef| member_target(
        cs,
        c,
        mr,
        |k: int| cs[k].spec_is_interface() == interface,
        |k: int| lookup_method(cs, k, mr.name@, mr.descriptor@),
        |t: (usize, usize)| cs[t.0 as int].methods@[t.1 as int].access_flags,
    );
    match j.entry(c, index) {
        Some(Constant::MethodReference(mr)) => if interface {
            None
        } else {
            m(mr)
        },
        Some(Constant::InterfaceMethodReference(mr)) => if interface {
            m(mr)
        } else {
            None
        },
        _ => None,
    }
}

/// Resolving the class reference at `index` of class `c` failed, and `b`,
/// `r` report it: a malformed entry raises `ClassFormatError`, a class that
/// is not loaded is asked for, one that `c` may not name raises
/// `IllegalAccessError`.
pub open spec fn class_ref_failed(a: Jvm, b: Jvm, c: int, index: int, r: Step) -> bool {
    match a.entry(c, index) {
        Some(Constant::ClassReference(cr)) => match class_named(a.loader@, cr.class_name@) {
            None => (r matches Step::NeedsClass(n) && n@ == cr.class_name@) && b.heap == a.heap,
            Some(_) => raises(a, b, JavaError::IllegalAccess, r),
        },
        _ => raises(a, b, JavaError::ClassFormat, r),
    }
}

/// Resolving member reference `mr` failed, and `b`, `r` report it: an
/// owner class that is not loaded is asked for; an owner of the wrong kind
/// raises `IncompatibleClassChangeError`; a missing member raises `missing`;
/// one that `c` may not use raises `IllegalAccessError`.
pub open spec fn member_ref_failed(
    a: Jvm,
    b: Jvm,
    mr: MemberRef,
    owner_ok: spec_fn(int) -> bool,
    found: spec_fn(int) -> Option<(usize, usize)>,
    missing: JavaError,
    r: Step,
) -> bool {
    match class_named(a.loader@, mr.class_name@) {
        None => (r matches Step::NeedsClass(n) && n@ == mr.class_name@) && b.heap == a.heap,
        Some(k) => if !owner_ok(k as int) {
            raises(a, b, JavaError::IncompatibleClassChange, r)
        } else if found(k as int) is None {
            raises(a, b, missing, r)
        } else {
            raises(a, b, JavaError::IllegalAccess, r)
        },
    }
}

/// Resolving the field reference at `index` of class `c` failed (see
/// `member_ref_failed`); a malformed entry raises `ClassFormatError`.
pub open spec fn field_ref_failed(a: Jvm, b: Jvm, c: int, index: int, r: Step) -> bool {
    let cs = a.loader@;
    match a.entry(c, index) {
        Some(Constant::FieldReference(mr)) => member_ref_failed(
            a,
            b,
            mr,
            |k: int| true,
            |k: int| lookup_field(cs, k, mr.name@, mr.descriptor@),
            JavaError::NoSuchField,
            r,
        ),
        _ => raises(a, b, JavaError::ClassFormat, r),
    }
}

/// Resolving the method (or, with `interface`, interface method) reference
/// at `index` of class `c` failed (see `member_ref_failed`); an entry of
/// the wrong kind raises `ClassFormatError`.
pub open spec fn method_ref_failed(a: Jvm, b: Jvm, c: int, index: int, interface: bool, r: Step) -> bool {
    let cs = a.loader@;
    let f = |mr: MemberRef| member_ref_failed(
        a,
        b,
        mr,
        |k: int| cs[k].spec_is_interface() == interface,
        |k: int| lookup_method(cs, k, mr.name@, mr.descriptor@),
        JavaError::NoSuchMethod,
        r,
    );
    match a.entry(c, index) {
        Some(Constant::MethodReference(mr)) => if interface {
            raises(a, b, JavaError::ClassFormat, r)
        } else {
            f(mr)
        },
        Some(Constant::InterfaceMethodReference(mr)) => if interface {
            f(mr)
        } else {
            raises(a, b, JavaError::ClassFormat, r)
        },
        _ => raises(a, b, JavaError::ClassFormat, r),
    }
}

/// A call of method `u` from the current frame of `a` left `b`: unless the
/// method is native or the stack lacks its arguments, one frame for `u`
/// was pushed.
pub open spec fn calls(a: Jvm, b: Jvm, u: (usize, usize), r: Step) -> bool {
    let cs = a.loader@;
    let callee = cs[u.0 as int].methods@[u.1 as int];
    (a.main_thread.frames@.last().operand_stack@.len() >= callee.arg_slot_count && crate::native::first_native(
        a.registry.entries@,
        0,
        cs[u.0 as int].name@,
        callee.name@,
        callee.descriptor@,
    ) is None) ==> {
        let fs = a.main_thread.frames@;
        let gs = b.main_thread.frames@;
        let top = fs.len() - 1;
        let st = fs[top].operand_stack@;
        let argc = callee.arg_slot_count as int;
        &&& r is Continue
        &&& gs.len() == fs.len() + 1
        &&& gs.last().class == u.0
        &&& gs.last().method == u.1
        &&& gs.subrange(0, top) == fs.subrange(0, top)
        &&& gs[top].operand_stack@ == st.subrange(0, st.len() - argc)
        &&& gs[top].class == fs[top].class
        &&& gs[top].method == fs[top].method
        &&& gs[top].local_vars == fs[top].local_vars
        &&& gs[top].next_pc == fs[top].next_pc
        &&& crate::invoke::is_call_frame(
            gs[top + 1],
            u.0 as int,
            u.1 as int,
            callee.max_locals as int,
            st.subrange(st.len() - argc, st.len() as int),
        )
        &&& b.heap == a.heap
    }
}

impl Jvm {
    /// The class of the current frame.
    pub fn current_class(&self) -> (r: usize)
        requires
            self.wf(),
            self.main_thread.frames@.len() > 0,
        ensures
            r == self.main_thread.frames@.last().class,
            r < self.loader@.len(),
    {
        let top = self.main_thread.frames.len() - 1;
        proof {
            assert(crate::jvm::frames_ok(self.loader@, self.main_thread));
            assert(self.main_thread.frames@[top as int].class < self.loader@.len());
        }
        self.main_thread.frames[top].class
    }

    /// Pops the top slot of the current frame.
    pub fn pop_on_top(&mut self) -> (r: Slot)
        requires
            old(self).wf(),
            old(self).main_thread.frames@.len() > 0,
            old(self).main_thread.frames@.last().operand_stack@.len() > 0,
        ensures
            final(self).wf(),
            final(self).loader == old(self).loader,
            final(self).heap == old(self).heap,
            final(self).main_thread.frames@.len() == old(self).main_thread.frames@.len(),
            r == old(self).main_thread.frames@.last().operand_stack@.last(),
            final(self).main_thread.frames@.last().operand_stack@ == old(
                self,
            ).main_thread.frames@.last().operand_stack@.drop_last(),
            forall|k: int|
                0 <= k < old(self).main_thread.frames@.len() - 1 ==> #[trigger] final(self).main_thread.frames@[k]
                    == old(self).main_thread.frames@[k],
            final(self).main_thread.frames@.last().class == old(self).main_thread.frames@.last().class,
            final(self).main_thread.frames@.last().method == old(self).main_thread.frames@.last().method,
            final(self).main_thread.frames@.last().next_pc == old(self).main_thread.frames@.last().next_pc,
            final(self).main_thread.frames@.last().local_vars == old(self).main_thread.frames@.last().local_vars,
            crate::jvm::only_top_stack(*old(self), *final(self)),
            final(self).registry == old(self).registry,
            final(self).pending_error == old(self).pending_error,
    {
        let ghost a = *self;
        let r = self.top_frame_mut().operand_stack.pop_slot();
        proof {
            let n = a.main_thread.frames@.len();
            assert(forall|k: int| 0 <= k < n - 1 ==> self.main_thread.frames@[k] == a.main_thread.frames@[k]);
            lemma_top_update_wf(a, *self);
        }
        r
    }

    /// Depth of the current frame's operand stack.
    pub fn stack_depth(&self) -> (r: usize)
        requires
            self.main_thread.frames@.len() > 0,
        ensures
            r == self.main_thread.frames@.last().operand_stack@.len(),
    {
        self.main_thread.frames[self.main_thread.frames.len() - 1].operand_stack.size()
    }

    /// The reference `n` slots below the top of the current frame's stack.
    pub fn ref_from_top(&self, n: usize) -> (r: Option<usize>)
        requires
            self.main_thread.frames@.len() > 0,
            n < self.main_thread.frames@.last().operand_stack@.len(),
        ensures
            r == self.main_thread.frames@.last().operand_stack@[self.main_thread.frames@.last().operand_stack@.len()
                - 1 - n].reference,
    {
        self.main_thread.frames[self.main_thread.frames.len() - 1].operand_stack.get_ref_from_top(n)
    }
}

/// What `new_object_at` leaves and returns.
pub open spec fn new_object_at_post(before: Jvm, after: Jvm, index: usize, r: Step) -> bool {
    ({
        let f = before.main_thread.frames@.last();
        let cs = before.loader@;
        let n = before.main_thread.frames@.len();
        match class_target(before, f.class as int, index as int) {
            Some(t) => {
                let ct = cs[t as int];
                &&& after.loader@.len() == cs.len()
                &&& !ct.initialized ==> {
                    &&& r is Continue
                    &&& after.heap == before.heap
                    &&& crate::init::flags_marked(cs, after.loader@, crate::init::init_order(cs, t as int))
                    &&& after.main_thread.frames@.len() == n + crate::init::init_frames(cs, t as int).len()
                    &&& after.main_thread.frames@[n - 1].next_pc == before.main_thread.pc
                    &&& after.main_thread.frames@[n - 1].operand_stack == f.operand_stack
                }
                &&& (ct.initialized && (ct.spec_is_interface() || crate::access::has_flag(
                    ct.access_flags,
                    crate::access::ABSTRACT,
                ))) ==> raises(before, after, JavaError::Instantiation, r)
                &&& (ct.initialized && !ct.spec_is_interface() && !crate::access::has_flag(
                    ct.access_flags,
                    crate::access::ABSTRACT,
                )) ==> {
                    &&& r is Continue
                    &&& after.heap@.len() == before.heap@.len() + 1
                    &&& after.heap@.drop_last() == before.heap@
                    &&& after.heap@.last().class == t
                    &&& after.heap@.last().data is Fields
                    &&& fields_of(after.heap@.last()).len() == ct.instance_slot_count
                    &&& crate::jvm::classes_memo_only(before, after)
                    &&& crate::jvm::only_top_stack(before, after)
                    &&& after.main_thread.frames@.last().operand_stack@ == f.operand_stack@.push(
                        Slot { num: 0, reference: Some(before.heap@.len() as usize) },
                    )
                }
            },
            None => class_ref_failed(before, after, f.class as int, index as int, r),
        }
    })
}

/// `new`: allocates an object of the class named at `index`. The class is
/// initialized first: when it is not, the instruction is set to run again
/// and the initialization frames are pushed above it.
pub fn new_object_at(vm: &mut Jvm, index: usize) -> (r: Step)
    requires
        old(vm).wf(),
        old(vm).main_thread.frames@.len() > 0,
    ensures
        final(vm).wf(),
        new_object_at_post(*old(vm), *final(vm), index, r),
{
    let c = vm.current_class();
    let t = match vm.resolve_class_ref(c, index) {
        Ok(t) => t,
        Err(i) => {
            return vm.interrupted(i);
        },
    };
    if !vm.loader.classes[t].initialized() {
        vm.revert_next_pc();
        let ghost before = vm.main_thread.frames@;
        let ghost mid = vm.loader@;
        vm.init_class(t);
        proof {
            let n = before.len() as int;
            assert(vm.main_thread.frames@.subrange(0, n)[n - 1] == vm.main_thread.frames@[n - 1]);
            crate::init::lemma_init_same_but_pool(old(vm).loader@, mid, t as int);
        }
        return Step::Continue;
    }
    if vm.loader.classes[t].is_interface() || vm.loader.classes[t].is_abstract() {
        return vm.raise(JavaError::Instantiation);
    }
    let o = vm.new_object(t);
    vm.push_on_top(Slot { num: 0, reference: Some(o) }, None);
    Step::Continue
}

/// The name of the array class whose elements are of the named class.
fn array_class_name(component: &str) -> (r: String)
    ensures
        r@ == array_name_of(component@),
{
    let mut s = String::new();
    crate::class_file::push_char(&mut s, '[');
    let is_array = starts_with_char(component, '[');
    if !is_array {
        crate::class_file::push_char(&mut s, 'L');
    }
    s.append(component);
    if !is_array {
        crate::class_file::push_char(&mut s, ';');
    }
    proof {
        if is_array {
            assert(s@ =~= seq!['['] + component@);
        } else {
            assert(s@ =~= seq!['[', 'L'] + component@ + seq![';']);
        }
    }
    s
}

/// What `new_ref_array` leaves and returns.
pub open spec fn new_ref_array_post(before: Jvm, after: Jvm, index: usize, r: Step) -> bool {
    ({
        let f = before.main_thread.frames@.last();
        let st = f.operand_stack@;
        let cs = before.loader@;
        &&& st.len() == 0 ==> r is Fault
        &&& match class_target(before, f.class as int, index as int) {
            Some(t) => st.len() > 0 ==> {
                let an = array_name_of(cs[t as int].name@);
                match class_named(cs, an) {
                    None => (r matches Step::NeedsClass(m) && m@ == an) && after.heap == before.heap,
                    Some(ac) => if st.last().num < 0 {
                        raises(before, after, JavaError::NegativeArraySize, r)
                    } else {
                        let o = before.heap@.len() as usize;
                        &&& r is Continue
                        &&& after.heap@.len() == before.heap@.len() + 1
                        &&& after.heap@.drop_last() == before.heap@
                        &&& after.heap@[o as int].class == ac
                        &&& after.heap@[o as int].data is Array
                        &&& crate::jvm::classes_memo_only(before, after)
                        &&& crate::jvm::only_top_stack(before, after)
                        &&& after.heap@[o as int].data->Array_0.elems() == Seq::new(
                            st.last().num as nat,
                            |i: int| Value::Ref(None),
                        )
                        &&& after.main_thread.frames@.last().operand_stack@ == st.drop_last().push(
                            Slot { num: 0, reference: Some(o) },
                        )
                    },
                }
            },
            None => st.len() > 0 ==> class_ref_failed(before, after, f.class as int, index as int, r),
        }
    })
}

/// `anewarray`: pops a count and pushes a new array of references whose
/// element class is named at `index`. A negative count raises
/// `NegativeArraySizeException`; the array class must be loaded.
#[verifier::rlimit(40)]
pub fn new_ref_array(vm: &mut Jvm, index: usize) -> (r: Step)
    requires
        old(vm).wf(),
        old(vm).main_thread.frames@.len() > 0,
    ensures
        final(vm).wf(),
        new_ref_array_post(*old(vm), *final(vm), index, r),
{
    if vm.stack_depth() == 0 {
        return Step::Fault;
    }
    let c = vm.current_class();
    let t = match vm.resolve_class_ref(c, index) {
        Ok(t) => t,
        Err(i) => {
            return vm.interrupted(i);
        },
    };
    let name = array_class_name(vm.loader.classes[t].name.as_str());
    let found = vm.loader.find_class(name.as_str());
    proof {
        if let Some(ac) = found {
            let t2 = choose|t: usize| t < vm.loader@.len() && (#[trigger] vm.loader@[t as int]).name@ == name@;
            assert(vm.loader@[ac as int].name@ == vm.loader@[t2 as int].name@);
        }
    }
    let ac = match found {
        Some(ac) => ac,
        None => {
            return vm.interrupted(Interrupt::NeedsClass(name));
        },
    };
    let count = vm.pop_on_top().num;
    if count < 0 {
        return vm.raise(JavaError::NegativeArraySize);
    }
    let data = ArrayData::for_class_name(name.as_str(), count as usize);
    proof {
        assert(data.elems() =~= Seq::new(count as nat, |i: int| Value::Ref(None)));
    }
    let o = vm.heap.len();
    let ghost h0 = vm.heap@;
    vm.heap.push(Object { class: ac, data: ObjectData::Array(data) });
    proof {
        assert(vm.heap@.drop_last() =~= h0);
    }
    let ghost st0 = vm.main_thread.frames@.last().operand_stack@;
    vm.push_on_top(Slot { num: 0, reference: Some(o) }, None);
    proof {
        assert(st0 =~= old(vm).main_thread.frames@.last().operand_stack@.drop_last());
    }
    Step::Continue
}

/// What `athrow` leaves and returns.
pub open spec fn athrow_post(before: Jvm, after: Jvm, r: Step) -> bool {
    ({
        let fs = before.main_thread.frames@;
        let st = fs.last().operand_stack@;
        let gs = after.main_thread.frames@;
        &&& st.len() == 0 ==> r is Fault
        &&& (st.len() > 0 && class_of_ref(before.heap@, st.last().reference) is Some) ==> {
            let o = st.last().reference.unwrap();
            match unwind_target(before.loader@, fs, before.heap@[o as int].class as int) {
                Some((d, h)) => r is Continue && gs.len() == d + 1 && gs[d].next_pc == h
                    && gs[d].operand_stack@ == seq![Slot { num: 0, reference: Some(o) }],
                None => r == Step::Uncaught(o) && gs.len() == 0,
            }
        }
    })
}

/// `athrow`: pops the exception object and unwinds. A null reference raises
/// `NullPointerException`; an exception that no frame handles ends the
/// thread's execution and is handed to the host.
pub fn athrow(vm: &mut Jvm) -> (r: Step)
    requires
        old(vm).wf(),
        old(vm).main_thread.frames@.len() > 0,
    ensures
        final(vm).wf(),
        athrow_post(*old(vm), *final(vm), r),
{
    if vm.stack_depth() == 0 {
        return Step::Fault;
    }
    let ghost fs = vm.main_thread.frames@;
    let ex = vm.pop_on_top().reference;
    proof {
        if let Some(o) = ex {
            if o < vm.heap@.len() {
                let gs = vm.main_thread.frames@;
                assert forall|k: int| 0 <= k < fs.len() implies (#[trigger] fs[k]).class == gs[k].class
                    && fs[k].method == gs[k].method && fs[k].next_pc == gs[k].next_pc by {
                    if k < fs.len() - 1 {
                        assert(gs[k] == fs[k]);
                    }
                }
                lemma_unwind_ignores_stacks(vm.loader@, fs, gs, vm.heap@[o as int].class as int);
            }
        }
    }
    match ex {
        Some(o) if o < vm.heap.len() => {
            let oc = vm.heap[o].class;
            let trace = vm.stack_trace();
            if vm.find_and_goto_exception_handler(o, oc) {
                Step::Continue
            } else {
                vm.uncaught_trace = trace;
                Step::Uncaught(o)
            }
        },
        _ => vm.raise(JavaError::NullPointer),
    }
}

/// What `get_static` leaves and returns.
pub open spec fn get_static_post(before: Jvm, after: Jvm, index: usize, r: Step) -> bool {
    ({
        let f = before.main_thread.frames@.last();
        let cs = before.loader@;
        let n = before.main_thread.frames@.len();
        match field_target(before, f.class as int, index as int) {
            Some(t) => {
                let fc = cs[t.0 as int];
                let fld = fc.fields@[t.1 as int];
                let vars = fc.static_vars@;
                let st = f.operand_stack@;
                let g = after.main_thread.frames@.last();
                &&& !fld.spec_is_static() ==> raises(before, after, JavaError::IncompatibleClassChange, r)
                &&& (fld.spec_is_static() && !fc.initialized) ==> {
                    &&& r is Continue
                    &&& after.heap == before.heap
                    &&& crate::init::flags_marked(cs, after.loader@, crate::init::init_order(cs, t.0 as int))
                    &&& after.main_thread.frames@.len() == n + crate::init::init_frames(cs, t.0 as int).len()
                    &&& after.main_thread.frames@[n - 1].next_pc == before.main_thread.pc
                    &&& after.main_thread.frames@[n - 1].operand_stack == f.operand_stack
                    &&& forall|k: int| 0 <= k < n - 1 ==> #[trigger] after.main_thread.frames@[k] == before.main_thread.frames@[k]
                    &&& forall|x: int| 0 <= x < cs.len() ==> crate::jvm::same_layout(#[trigger] after.loader@[x], cs[x])
                }
                &&& (fld.spec_is_static() && fc.initialized && fld.slot_id + fld.width() <= vars.len()) ==> {
                    &&& r is Continue
                    &&& after.heap == before.heap
                    &&& crate::jvm::classes_memo_only(before, after)
                    &&& crate::jvm::only_top_stack(before, after)
                    &&& after.registry == before.registry
                    &&& after.pending_error == before.pending_error
                    &&& after.main_thread.frames@.len() == n
                    &&& g.operand_stack@ == if fld.width() == 2 {
                        st.push(vars[fld.slot_id as int]).push(vars[fld.slot_id + 1])
                    } else {
                        st.push(vars[fld.slot_id as int])
                    }
                }
            },
            None => field_ref_failed(before, after, f.class as int, index as int, r),
        }
    })
}

/// `getstatic`: pushes a static field's value, initializing its class first.
pub fn get_static(vm: &mut Jvm, index: usize) -> (r: Step)
    requires
        old(vm).wf(),
        old(vm).main_thread.frames@.len() > 0,
    ensures
        final(vm).wf(),
        get_static_post(*old(vm), *final(vm), index, r),
{
    let c = vm.current_class();
    let (fc, fi) = match vm.resolve_field_ref(c, index) {
        Ok(t) => t,
        Err(i) => {
            return vm.interrupted(i);
        },
    };
    if !vm.loader.classes[fc].fields[fi].is_static() {
        return vm.raise(JavaError::IncompatibleClassChange);
    }
    if !vm.loader.classes[fc].initialized() {
        vm.revert_next_pc();
        let ghost before = vm.main_thread.frames@;
        let ghost mid = vm.loader@;
        vm.init_class(fc);
        proof {
            let n = before.len() as int;
            assert(vm.main_thread.frames@.subrange(0, n)[n - 1] == vm.main_thread.frames@[n - 1]);
            crate::init::lemma_init_same_but_pool(old(vm).loader@, mid, fc as int);
            let cs0 = old(vm).loader@;
            assert forall|x: int| 0 <= x < cs0.len() implies crate::jvm::same_layout(#[trigger] vm.loader@[x], cs0[x]) by {
                assert(same_but_pool(mid[x], cs0[x]));
                assert(vm.loader@[x] == (Class {
                    initialized: mid[x].initialized || crate::init::init_order(mid, fc as int).contains(x as usize),
                    ..mid[x]
                }));
            }
            assert forall|k: int| 0 <= k < n - 1 implies #[trigger] vm.main_thread.frames@[k] == old(vm).main_thread.frames@[k] by {
                assert(vm.main_thread.frames@.subrange(0, n)[k] == before[k]);
            }
        }
        return Step::Continue;
    }
    let slot = vm.loader.classes[fc].fields[fi].slot_id;
    let wide = vm.loader.classes[fc].fields[fi].is_long_or_double();
    let vars = &vm.loader.classes[fc].static_vars;
    if wide {
        if slot >= vars.len() || slot + 1 >= vars.len() {
            return Step::Fault;
        }
        let lo = vars.get_slot(slot);
        let hi = vars.get_slot(slot + 1);
        vm.push_on_top(lo, Some(hi));
    } else {
        if slot >= vars.len() {
            return Step::Fault;
        }
        let s = vars.get_slot(slot);
        vm.push_on_top(s, None);
    }
    Step::Continue
}

/// What `put_field` leaves and returns.
pub open spec fn put_field_post(before: Jvm, after: Jvm, index: usize, r: Step) -> bool {
    ({
        let f = before.main_thread.frames@.last();
        let cs = before.loader@;
        match field_target(before, f.class as int, index as int) {
            Some(t) => {
                let fld = cs[t.0 as int].fields@[t.1 as int];
                let w = fld.width();
                let st = f.operand_stack@;
                let n = st.len();
                let target = st[n - w - 1].reference;
                let is_final = crate::access::has_flag(fld.access_flags, crate::access::FINAL);
                let own_init = t.0 == f.class && cs[f.class as int].methods@[f.method as int].name@ == "<init>"@;
                let writable = !fld.spec_is_static() && (!is_final || own_init);
                &&& fld.spec_is_static() ==> raises(before, after, JavaError::IncompatibleClassChange, r)
                &&& (!fld.spec_is_static() && is_final && !own_init) ==> raises(
                    before,
                    after,
                    JavaError::IllegalAccess,
                    r,
                )
                &&& (writable && n >= w + 1 && class_of_ref(before.heap@, target) is None) ==> raises(
                    before,
                    after,
                    JavaError::NullPointer,
                    r,
                )
                &&& (writable && n >= w + 1 && fields_room(before.heap@, target, fld.slot_id + w)) ==> {
                    let o = target.unwrap() as int;
                    let slots = fields_of(before.heap@[o]);
                    &&& r is Continue
                    &&& after.heap@.len() == before.heap@.len()
                    &&& forall|k: int| 0 <= k < before.heap@.len() && k != o ==> #[trigger] after.heap@[k] == before.heap@[k]
                    &&& after.heap@[o].class == before.heap@[o].class
                    &&& after.heap@[o].data is Fields
                    &&& fields_of(after.heap@[o]) == if w == 2 {
                        slots.update(fld.slot_id as int, st[n - 2]).update(fld.slot_id + 1, st[n - 1])
                    } else {
                        slots.update(fld.slot_id as int, st[n - 1])
                    }
                    &&& after.main_thread.frames@.last().operand_stack@ == st.subrange(0, n - w - 1)
                    &&& crate::jvm::classes_memo_only(before, after)
                    &&& crate::jvm::only_top_stack(before, after)
                }
            },
            None => field_ref_failed(before, after, f.class as int, index as int, r),
        }
    })
}

/// `putfield`: pops a value (two slots for a long or double) and an object
/// reference, and stores the value in the object's field. A static field
/// raises `IncompatibleClassChangeError`; a final field may be set only by
/// a constructor of its own class (`IllegalAccessError`); a null reference
/// raises `NullPointerException`.
#[verifier::rlimit(40)]
pub fn put_field(vm: &mut Jvm, index: usize) -> (r: Step)
    requires
        old(vm).wf(),
        old(vm).main_thread.frames@.len() > 0,
    ensures
        final(vm).wf(),
        put_field_post(*old(vm), *final(vm), index, r),
{
    let c = vm.current_class();
    let top = vm.main_thread.frames.len() - 1;
    let m = vm.main_thread.frames[top].method;
    proof {
        assert(crate::jvm::frames_ok(vm.loader@, vm.main_thread));
        assert(vm.main_thread.frames@[top as int].method < vm.loader@[c as int].methods@.len());
    }
    let (fc, fi) = match vm.resolve_field_ref(c, index) {
        Ok(t) => t,
        Err(i) => {
            return vm.interrupted(i);
        },
    };
    let field = &vm.loader.classes[fc].fields[fi];
    if field.is_static() {
        return vm.raise(JavaError::IncompatibleClassChange);
    }
    if field.is_final() {
        if fc != c || !str_eq(vm.loader.classes[c].methods[m].name.as_str(), "<init>") {
            return vm.raise(JavaError::IllegalAccess);
        }
    }
    let slot = field.slot_id;
    let width: usize = if field.is_long_or_double() { 2 } else { 1 };
    if vm.stack_depth() < width + 1 {
        return Step::Fault;
    }
    let ghost st0 = vm.main_thread.frames@.last().operand_stack@;
    let hi = if width == 2 { Some(vm.pop_on_top()) } else { None };
    let lo = vm.pop_on_top();
    let target = vm.pop_on_top().reference;
    proof {
        let n = st0.len() as int;
        assert(vm.main_thread.frames@.last().operand_stack@ =~= st0.subrange(0, n - width - 1));
    }
    let o = match target {
        Some(o) if o < vm.heap.len() => o,
        _ => {
            return vm.raise(JavaError::NullPointer);
        },
    };
    let ghost before = vm.heap@;
    if let ObjectData::Fields(fields) = &mut vm.heap[o].data {
        if slot >= fields.len() || width > fields.len() - slot {
            return Step::Fault;
        }
        fields.set_slot(slot, lo);
        if let Some(h) = hi {
            fields.set_slot(slot + 1, h);
        }
    } else {
        return Step::Fault;
    }
    proof {
        assert forall|k: int| 0 <= k < vm.heap@.len() implies (#[trigger] vm.heap@[k]).class < vm.loader@.len() by {
            if k != o {
                assert(vm.heap@[k] == before[k]);
            }
        }
        assert(forall|k: int| 0 <= k < before.len() && k != o ==> #[trigger] vm.heap@[k] == before[k]);
        assert(before == old(vm).heap@);
    }
    Step::Continue
}

/// Invocation kinds.
pub enum InvokeKind {
    Static,
    Special,
    Virtual,
    Interface,
}

/// What `invoke` leaves and returns.
pub open spec fn invoke_post(before: Jvm, after: Jvm, index: usize, kind: InvokeKind, r: Step) -> bool {
    ({
        let f = before.main_thread.frames@.last();
        let cs = before.loader@;
        let st = f.operand_stack@;
        let n = before.main_thread.frames@.len();
        match method_target(before, f.class as int, index as int, kind is Interface) {
            Some(t) => {
                let m = cs[t.0 as int].methods@[t.1 as int];
                let argc = m.arg_slot_count as int;
                let has_args = 1 <= argc <= st.len();
                let recv = if has_args {
                    st[st.len() - argc].reference
                } else {
                    None
                };
                &&& kind is Static ==> {
                    &&& !m.spec_is_static() ==> raises(before, after, JavaError::IncompatibleClassChange, r)
                    &&& (m.spec_is_static() && !cs[t.0 as int].initialized) ==> {
                        &&& r is Continue
                        &&& after.heap == before.heap
                        &&& after.main_thread.frames@.len() == n + crate::init::init_frames(cs, t.0 as int).len()
                        &&& after.main_thread.frames@[n - 1].next_pc == before.main_thread.pc
                    }
                    &&& (m.spec_is_static() && cs[t.0 as int].initialized) ==> calls(before, after, t, r)
                }
                &&& kind is Special ==> {
                    &&& m.spec_is_static() ==> raises(before, after, JavaError::IncompatibleClassChange, r)
                    &&& (!m.spec_is_static() && has_args && recv is None) ==> raises(
                        before,
                        after,
                        JavaError::NullPointer,
                        r,
                    )
                    &&& (!m.spec_is_static() && has_args && recv is Some) ==> calls(before, after, t, r)
                }
                &&& ((kind is Virtual || kind is Interface) && !has_args) ==> if m.spec_is_static() {
                    raises(before, after, JavaError::IncompatibleClassChange, r)
                } else {
                    r is Fault
                }
                &&& (kind is Virtual && has_args) ==> match virtual_choice(
                    cs,
                    f.class as int,
                    t.0 as int,
                    t.1 as int,
                    class_of_ref(before.heap@, recv),
                ) {
                    Err(e) => raises(before, after, e, r),
                    Ok(u) => calls(before, after, u, r),
                }
                &&& (kind is Interface && has_args) ==> match interface_choice(
                    cs,
                    t.0 as int,
                    t.1 as int,
                    class_of_ref(before.heap@, recv),
                ) {
                    Err(e) => raises(before, after, e, r),
                    Ok(u) => calls(before, after, u, r),
                }
            },
            None => method_ref_failed(before, after, f.class as int, index as int, kind is Interface, r),
        }
    })
}

/// `invokestatic`, `invokespecial`, `invokevirtual` and `invokeinterface`
/// on the method reference at `index`. Static and special calls run the
/// resolved method (a static call initializes its class first); virtual
/// and interface calls choose by the receiver's class (see
/// `virtual_choice` and `interface_choice`). Errors are raised through the
/// unwinder.
#[verifier::rlimit(50)]
pub fn invoke(vm: &mut Jvm, index: usize, kind: InvokeKind) -> (r: Step)
    requires
        old(vm).wf(),
        old(vm).main_thread.frames@.len() > 0,
    ensures
        final(vm).wf(),
        invoke_post(*old(vm), *final(vm), index, kind, r),
{
    let c = vm.current_class();
    let ghost cs0 = vm.loader@;
    let resolved = match kind {
        InvokeKind::Interface => vm.resolve_interface_method_ref(c, index),
        _ => vm.resolve_method_ref(c, index),
    };
    let (rc, rm) = match resolved {
        Ok(t) => t,
        Err(i) => {
            return vm.interrupted(i);
        },
    };
    let argc = vm.loader.classes[rc].methods[rm].arg_slot_count;
    let is_static = vm.loader.classes[rc].methods[rm].is_static();
    proof {
        assert(crate::class_loader::same_graph(cs0, vm.loader@));
        crate::class_loader::lemma_graph_queries_same(cs0, vm.loader@);
        assert(same_but_pool(vm.loader@[rc as int], cs0[rc as int]));
        assert(same_but_pool(vm.loader@[c as int], cs0[c as int]));
    }
    let target = match kind {
        InvokeKind::Static => {
            if !is_static {
                return vm.raise(JavaError::IncompatibleClassChange);
            }
            if !vm.loader.classes[rc].initialized() {
                vm.revert_next_pc();
                let ghost before = vm.main_thread.frames@;
                let ghost mid = vm.loader@;
                vm.init_class(rc);
                proof {
                    let n = before.len() as int;
                    assert(vm.main_thread.frames@.subrange(0, n)[n - 1] == vm.main_thread.frames@[n - 1]);
                    crate::init::lemma_init_same_but_pool(old(vm).loader@, mid, rc as int);
                }
                return Step::Continue;
            }
            (rc, rm)
        },
        InvokeKind::Special => {
            if is_static {
                return vm.raise(JavaError::IncompatibleClassChange);
            }
            if argc == 0 || vm.stack_depth() < argc {
                return Step::Fault;
            }
            if vm.ref_from_top(argc - 1).is_none() {
                return vm.raise(JavaError::NullPointer);
            }
            (rc, rm)
        },
        InvokeKind::Virtual => {
            if argc == 0 || vm.stack_depth() < argc {
                if is_static {
                    return vm.raise(JavaError::IncompatibleClassChange);
                }
                return Step::Fault;
            }
            let receiver = vm.ref_from_top(argc - 1);
            proof {
                if let Some(o) = receiver {
                    if o < vm.heap@.len() {
                        let oc = vm.heap@[o as int].class as int;
                        assert(crate::jvm::objects_ok(vm.loader@, vm.heap@));
                        assert(same_but_pool(vm.loader@[oc], cs0[oc]));
                    }
                }
                crate::dispatch::lemma_choices_same_graph(cs0, vm.loader@, c as int, rc as int, rm as int, class_of_ref(vm.heap@, receiver));
            }
            match vm.select_virtual(c, rc, rm, receiver) {
                Ok(t) => t,
                Err(e) => {
                    return vm.raise(e);
                },
            }
        },
        InvokeKind::Interface => {
            if argc == 0 || vm.stack_depth() < argc {
                if is_static {
                    return vm.raise(JavaError::IncompatibleClassChange);
                }
                return Step::Fault;
            }
            let receiver = vm.ref_from_top(argc - 1);
            proof {
                if let Some(o) = receiver {
                    if o < vm.heap@.len() {
                        let oc = vm.heap@[o as int].class as int;
                        assert(crate::jvm::objects_ok(vm.loader@, vm.heap@));
                        assert(same_but_pool(vm.loader@[oc], cs0[oc]));
                    }
                }
                crate::dispatch::lemma_choices_same_graph(cs0, vm.loader@, c as int, rc as int, rm as int, class_of_ref(vm.heap@, receiver));
            }
            match vm.select_interface(rc, rm, receiver) {
                Ok(t) => t,
                Err(e) => {
                    return vm.raise(e);
                },
            }
        },
    };
    proof {
        assert(same_but_pool(vm.loader@[target.0 as int], old(vm).loader@[target.0 as int]));
    }
    vm.invoke_method(target.0, target.1)
}

/// `new index`
pub struct New(pub ConstantPoolInstruction);

impl New {
    pub fn new() -> (r: New)
        ensures
            r.0.index == 0,
    {
        New(ConstantPoolInstruction::new())
    }
}

impl Instruction for New {
    open spec fn operand_bytes(&self) -> int {
        2
    }

    open spec fn executes(&self, before: Jvm, after: Jvm, r: Step) -> bool {
        new_object_at_post(before, after, self.0.index, r)
    }

    fn fetch_operands(&mut self, reader: &mut BytecodeReader) {
        self.0.fetch_operands(reader);
    }

    fn execute(&mut self, vm: &mut Jvm) -> (r: Step) {
        new_object_at(vm, self.0.index())
    }
}

/// `anewarray index`
pub struct ANewArray(pub ConstantPoolInstruction);

impl ANewArray {
    pub fn new() -> (r: ANewArray)
        ensures
            r.0.index == 0,
    {
        ANewArray(ConstantPoolInstruction::new())
    }
}

impl Instruction for ANewArray {
    open spec fn operand_bytes(&self) -> int {
        2
    }

    open spec fn executes(&self, before: Jvm, after: Jvm, r: Step) -> bool {
        new_ref_array_post(before, after, self.0.index, r)
    }

    fn fetch_operands(&mut self, reader: &mut BytecodeReader) {
        self.0.fetch_operands(reader);
    }

    fn execute(&mut self, vm: &mut Jvm) -> (r: Step) {
        new_ref_array(vm, self.0.index())
    }
}

/// `getstatic index`
pub struct GetStatic(pub ConstantPoolInstruction);

impl GetStatic {
    pub fn new() -> (r: GetStatic)
        ensures
            r.0.index == 0,
    {
        GetStatic(ConstantPoolInstruction::new())
    }
}

impl Instruction for GetStatic {
    open spec fn operand_bytes(&self) -> int {
        2
    }

    open spec fn executes(&self, before: Jvm, after: Jvm, r: Step) -> bool {
        get_static_post(before, after, self.0.index, r)
    }

    fn fetch_operands(&mut self, reader: &mut BytecodeReader) {
        self.0.fetch_operands(reader);
    }

    fn execute(&mut self, vm: &mut Jvm) -> (r: Step) {
        get_static(vm, self.0.index())
    }
}

/// `putfield index`
pub struct PutField(pub ConstantPoolInstruction);

impl PutField {
    pub fn new() -> (r: PutField)
        ensures
            r.0.index == 0,
    {
        PutField(ConstantPoolInstruction::new())
    }
}

impl Instruction for PutField {
    open spec fn operand_bytes(&self) -> int {
        2
    }

    open spec fn executes(&self, before: Jvm, after: Jvm, r: Step) -> bool {
        put_field_post(before, after, self.0.index, r)
    }

    fn fetch_operands(&mut self, reader: &mut BytecodeReader) {
        self.0.fetch_operands(reader);
    }

    fn execute(&mut self, vm: &mut Jvm) -> (r: Step) {
        put_field(vm, self.0.index())
    }
}

/// `invokevirtual index`
pub struct InvokeVirtual(pub ConstantPoolInstruction);

impl InvokeVirtual {
    pub fn new() -> (r: InvokeVirtual)
        ensures
            r.0.index == 0,
    {
        InvokeVirtual(ConstantPoolInstruction::new())
    }
}

impl Instruction for InvokeVirtual {
    open spec fn operand_bytes(&self) -> int {
        2
    }

    open spec fn executes(&self, before: Jvm, after: Jvm, r: Step) -> bool {
        invoke_post(before, after, self.0.index, InvokeKind::Virtual, r)
    }

    fn fetch_operands(&mut self, reader: &mut BytecodeReader) {
        self.0.fetch_operands(reader);
    }

    fn execute(&mut self, vm: &mut Jvm) -> (r: Step) {
        invoke(vm, self.0.index(), InvokeKind::Virtual)
    }
}

/// `invokespecial index`
pub struct InvokeSpecial(pub ConstantPoolInstruction);

impl InvokeSpecial {
    pub fn new() -> (r: InvokeSpecial)
        ensures
            r.0.index == 0,
    {
        InvokeSpecial(ConstantPoolInstruction::new())
    }
}

impl Instruction for InvokeSpecial {
    open spec fn operand_bytes(&self) -> int {
        2
    }

    open spec fn executes(&self, before: Jvm, after: Jvm, r: Step) -> bool {
        invoke_post(before, after, self.0.index, InvokeKind::Special, r)
    }

    fn fetch_operands(&mut self, reader: &mut BytecodeReader) {
        self.0.fetch_operands(reader);
    }

    fn execute(&mut self, vm: &mut Jvm) -> (r: Step) {
        invoke(vm, self.0.index(), InvokeKind::Special)
    }
}

/// `invokestatic index`
pub struct InvokeStatic(pub ConstantPoolInstruction);

impl InvokeStatic {
    pub fn new() -> (r: InvokeStatic)
        ensures
            r.0.index == 0,
    {
        InvokeStatic(ConstantPoolInstruction::new())
    }
}

impl Instruction for InvokeStatic {
    open spec fn operand_bytes(&self) -> int {
        2
    }

    open spec fn executes(&self, before: Jvm, after: Jvm, r: Step) -> bool {
        invoke_post(before, after, self.0.index, InvokeKind::Static, r)
    }

    fn fetch_operands(&mut self, reader: &mut BytecodeReader) {
        self.0.fetch_operands(reader);
    }

    fn execute(&mut self, vm: &mut Jvm) -> (r: Step) {
        invoke(vm, self.0.index(), InvokeKind::Static)
    }
}

/// `invokeinterface index count 0`
pub struct InvokeInterface {
    pub index: usize,
}

impl InvokeInterface {
    pub fn new() -> (r: InvokeInterface)
        ensures
            r.index == 0,
    {
        InvokeInterface { index: 0 }
    }
}

impl Instruction for InvokeInterface {
    open spec fn operand_bytes(&self) -> int {
        4
    }

    open spec fn executes(&self, before: Jvm, after: Jvm, r: Step) -> bool {
        invoke_post(before, after, self.index, InvokeKind::Interface, r)
    }

    fn fetch_operands(&mut self, reader: &mut BytecodeReader) {
        self.index = reader.read_u16() as usize;
        reader.read_u8();
        reader.read_u8();
    }

    fn execute(&mut self, vm: &mut Jvm) -> (r: Step) {
        invoke(vm, self.index, InvokeKind::Interface)
    }
}

/// `athrow`
pub struct AThrow(pub crate::instructions::base::NoOperandsInstruction);

impl AThrow {
    pub fn new() -> (r: AThrow) {
        AThrow(crate::instructions::base::NoOperandsInstruction::new())
    }
}

impl Instruction for AThrow {
    open spec fn operand_bytes(&self) -> int {
        0
    }

    open spec fn executes(&self, before: Jvm, after: Jvm, r: Step) -> bool {
        athrow_post(before, after, r)
    }

    fn fetch_operands(&mut self, reader: &mut BytecodeReader) {
    }

    fn execute(&mut self, vm: &mut Jvm) -> (r: Step) {
        athrow(vm)
    }
}

} // verus!
