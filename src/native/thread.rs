//! Natives of `java/lang/Thread`: a single main thread that is never
//! started again and reports itself not alive.
use vstd::prelude::*;
use crate::native::{native_of, NativeMethod, Registry};
use crate::slots::Slot;
use crate::class::Class;
use crate::heap::{Object, ObjectData};
use crate::jvm::{class_named, fields_of, set_named, Jvm, Step};
use crate::thread::Frame;
use vstd::string::*;

verus! {

pub fn init(registry: &mut Registry)
    ensures
        final(registry).entries@.len() == old(registry).entries@.len() + 4,
        native_of(final(registry).entries@, "java/lang/Thread"@, "currentThread"@, "()Ljava/lang/Thread;"@) == Some(NativeMethod::CurrentThread),
        native_of(final(registry).entries@, "java/lang/Thread"@, "setPriority0"@, "(I)V"@) == Some(NativeMethod::SetPriority0),
        native_of(final(registry).entries@, "java/lang/Thread"@, "isAlive"@, "()Z"@) == Some(NativeMethod::IsAlive),
        native_of(final(registry).entries@, "java/lang/Thread"@, "start0"@, "()V"@) == Some(NativeMethod::Start0),
        forall|c: Seq<char>, n: Seq<char>, d: Seq<char>|
            (!(c == "java/lang/Thread"@ && n == "currentThread"@ && d == "()Ljava/lang/Thread;"@) && !(c == "java/lang/Thread"@ && n == "setPriority0"@ && d == "(I)V"@) && !(c == "java/lang/Thread"@ && n == "isAlive"@ && d == "()Z"@) && !(c == "java/lang/Thread"@ && n == "start0"@ && d == "()V"@)) ==> #[trigger] native_of(final(registry).entries@, c, n, d) == native_of(old(registry).entries@, c, n, d),
{
    proof {
        reveal_strlit("currentThread");
        assert("currentThread"@.len() == 13);
        reveal_strlit("setPriority0");
        assert("setPriority0"@.len() == 12);
        reveal_strlit("isAlive");
        assert("isAlive"@.len() == 7);
        reveal_strlit("start0");
        assert("start0"@.len() == 6);
    }
    registry.register("java/lang/Thread", "currentThread", "()Ljava/lang/Thread;", NativeMethod::CurrentThread);
    registry.register("java/lang/Thread", "setPriority0", "(I)V", NativeMethod::SetPriority0);
    registry.register("java/lang/Thread", "isAlive", "()Z", NativeMethod::IsAlive);
    registry.register("java/lang/Thread", "start0", "()V", NativeMethod::Start0);
}

/// Object `o` of `h` is a thread named by the string object `s` (`Main`),
/// whose group is object `o + 1`, with priority 1; its other fields zero.
pub open spec fn thread_object_ok(cs: Seq<Class>, h: Seq<Object>, o: int, tc: int, s: usize) -> bool {
    &&& s < h.len()
    &&& (h[s as int].data matches ObjectData::Str(t) && t@ == "Main"@)
    &&& h[o].data is Fields
    &&& fields_of(h[o]) == set_named(
        cs,
        tc,
        set_named(
            cs,
            tc,
            set_named(
                cs,
                tc,
                Seq::new(cs[tc].instance_slot_count as nat, |i: int| Slot::zero()),
                "name"@,
                "Ljava/lang/String;"@,
                Slot { num: 0, reference: Some(s) },
            ),
            "group"@,
            "Ljava/lang/ThreadGroup;"@,
            Slot { num: 0, reference: Some((o + 1) as usize) },
        ),
        "priority"@,
        "I"@,
        Slot { num: 1, reference: None },
    )
}

/// `Thread.currentThread()`: a new `java/lang/Thread` object, named
/// `Main`, in a new `java/lang/ThreadGroup`, with priority 1, pushed onto
/// the native frame. `java/lang/Thread`, `java/lang/String` and
/// `java/lang/ThreadGroup` must be loaded; the first that is not is asked
/// for and nothing changes.
pub fn current_thread(vm: &mut Jvm, frame: &mut Frame) -> (r: Step)
    requires
        old(vm).wf(),
    ensures
        final(vm).wf(),
        final(vm).loader == old(vm).loader,
        final(vm).main_thread == old(vm).main_thread,
        ({
            let cs = old(vm).loader@;
            let loaded = class_named(cs, "java/lang/Thread"@) is Some && class_named(cs, "java/lang/String"@) is Some
                && class_named(cs, "java/lang/ThreadGroup"@) is Some;
            &&& !loaded ==> r is NeedsClass && *final(vm) == *old(vm) && *final(frame) == *old(frame)
            &&& loaded ==> {
                let tc = class_named(cs, "java/lang/Thread"@).unwrap() as int;
                let o = old(vm).heap@.len() as usize;
                let h = final(vm).heap@;
                &&& r is Continue
                &&& final(frame).operand_stack@ == old(frame).operand_stack@.push(Slot { num: 0, reference: Some(o) })
                &&& final(frame).class == old(frame).class
                &&& final(frame).method == old(frame).method
                &&& h.len() >= old(vm).heap@.len() + 2
                &&& forall|k: int| 0 <= k < old(vm).heap@.len() ==> #[trigger] h[k] == old(vm).heap@[k]
                &&& h[o as int].class == tc
                &&& h[o + 1].class == class_named(cs, "java/lang/ThreadGroup"@).unwrap()
                &&& exists|s: usize| #[trigger] thread_object_ok(cs, h, o as int, tc, s)
            }
        }),
{
    let tf = vm.loader.find_class("java/lang/Thread");
    let sf = vm.loader.find_class("java/lang/String");
    let gf = vm.loader.find_class("java/lang/ThreadGroup");
    proof {
        crate::class_loader::lemma_find_is_named(vm.loader@, "java/lang/Thread"@, tf);
        crate::class_loader::lemma_find_is_named(vm.loader@, "java/lang/String"@, sf);
        crate::class_loader::lemma_find_is_named(vm.loader@, "java/lang/ThreadGroup"@, gf);
    }
    let (tc, gc) = match (tf, sf, gf) {
        (Some(t), Some(_), Some(g)) => (t, g),
        (None, _, _) => {
            return Step::NeedsClass(String::from_str("java/lang/Thread"));
        },
        (_, None, _) => {
            return Step::NeedsClass(String::from_str("java/lang/String"));
        },
        _ => {
            return Step::NeedsClass(String::from_str("java/lang/ThreadGroup"));
        },
    };
    let obj = vm.new_object(tc);
    let group = vm.new_object(gc);
    let main = String::from_str("Main");
    let name = match vm.intern_string(&main) {
        Ok(s) => s,
        Err(_) => {
            return Step::Fault;
        },
    };
    let ghost h1 = vm.heap@;
    vm.set_field_by_name(obj, "name", "Ljava/lang/String;", Slot { num: 0, reference: Some(name) });
    vm.set_field_by_name(obj, "group", "Ljava/lang/ThreadGroup;", Slot { num: 0, reference: Some(group) });
    vm.set_field_by_name(obj, "priority", "I", Slot { num: 1, reference: None });
    proof {
        assert(vm.heap@[name as int].data == h1[name as int].data);
        assert(thread_object_ok(old(vm).loader@, vm.heap@, obj as int, tc as int, name));
    }
    frame.operand_stack.push_ref(Some(obj));
    Step::Continue
}

/// `Thread.setPriority0(int)`: priorities are not modeled; nothing changes.
pub fn set_priority0(frame: &mut Frame)
    ensures
        *final(frame) == *old(frame),
{
}

/// `Thread.isAlive()Z`: false.
pub fn is_alive(frame: &mut Frame)
    ensures
        final(frame).class == old(frame).class,
        final(frame).method == old(frame).method,
        final(frame).operand_stack@ == old(frame).operand_stack@.push(Slot { num: 0, reference: None }),
        final(frame).local_vars == old(frame).local_vars,
        final(frame).next_pc == old(frame).next_pc,
{
    frame.operand_stack.push_int(0);
}

/// `Thread.start0()V`: no second thread runs; nothing changes.
pub fn start0(frame: &mut Frame)
    ensures
        *final(frame) == *old(frame),
{
}

} // verus!
