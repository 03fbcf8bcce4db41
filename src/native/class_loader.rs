//! Natives of `java/lang/ClassLoader`.
use vstd::prelude::*;
use crate::native::{native_of, NativeMethod, Registry};
use crate::slots::Slot;
use crate::heap::ObjectData;
use crate::jvm::{Interrupt, Jvm, Step};
use crate::thread::Frame;

verus! {

pub fn init(registry: &mut Registry)
    ensures
        final(registry).entries@.len() == old(registry).entries@.len() + 3,
        native_of(final(registry).entries@, "java/lang/ClassLoader"@, "findBuiltinLib"@, "(Ljava/lang/String;)Ljava/lang/String;"@) == Some(NativeMethod::FindBuiltinLib),
        native_of(final(registry).entries@, "java/lang/ClassLoader"@, "findLoadedClass0"@, "(Ljava/lang/String;)Ljava/lang/Class;"@) == Some(NativeMethod::FindLoadedClass0),
        native_of(final(registry).entries@, "java/lang/ClassLoader"@, "findBootstrapClass"@, "(Ljava/lang/String;)Ljava/lang/Class;"@) == Some(NativeMethod::FindBootstrapClass),
        forall|c: Seq<char>, n: Seq<char>, d: Seq<char>|
            (!(c == "java/lang/ClassLoader"@ && n == "findBuiltinLib"@ && d == "(Ljava/lang/String;)Ljava/lang/String;"@) && !(c == "java/lang/ClassLoader"@ && n == "findLoadedClass0"@ && d == "(Ljava/lang/String;)Ljava/lang/Class;"@) && !(c == "java/lang/ClassLoader"@ && n == "findBootstrapClass"@ && d == "(Ljava/lang/String;)Ljava/lang/Class;"@)) ==> #[trigger] native_of(final(registry).entries@, c, n, d) == native_of(old(registry).entries@, c, n, d),
{
    proof {
        reveal_strlit("findBuiltinLib");
        assert("findBuiltinLib"@.len() == 14);
        reveal_strlit("findLoadedClass0");
        assert("findLoadedClass0"@.len() == 16);
        reveal_strlit("findBootstrapClass");
        assert("findBootstrapClass"@.len() == 18);
    }
    registry.register(
        "java/lang/ClassLoader",
        "findBuiltinLib",
        "(Ljava/lang/String;)Ljava/lang/String;",
        NativeMethod::FindBuiltinLib,
    );
    registry.register(
        "java/lang/ClassLoader",
        "findLoadedClass0",
        "(Ljava/lang/String;)Ljava/lang/Class;",
        NativeMethod::FindLoadedClass0,
    );
    registry.register(
        "java/lang/ClassLoader",
        "findBootstrapClass",
        "(Ljava/lang/String;)Ljava/lang/Class;",
        NativeMethod::FindBootstrapClass,
    );
}

/// `ClassLoader.findBuiltinLib(String)`: returns the name it is given.
pub fn find_built_in_lib(frame: &mut Frame)
    requires
        old(frame).local_vars@.len() >= 1,
    ensures
        final(frame).operand_stack@ == old(frame).operand_stack@.push(
            Slot { num: 0, reference: old(frame).local_vars@[0].reference },
        ),
        final(frame).local_vars == old(frame).local_vars,
        final(frame).next_pc == old(frame).next_pc,
{
    let name = frame.local_vars.get_ref(0);
    frame.operand_stack.push_ref(name);
}

/// `ClassLoader.findLoadedClass0(String)`: the class object of the loaded
/// class with that (dotted) name, or null. This runtime has one loader, so
/// `findBootstrapClass` answers the same way.
pub fn find_loaded_class0(vm: &mut Jvm, frame: &mut Frame) -> (r: Step)
    requires
        old(vm).wf(),
        old(frame).local_vars@.len() >= 2,
    ensures
        final(vm).wf(),
        final(vm).loader == old(vm).loader,
        final(vm).main_thread == old(vm).main_thread,
        r is Continue ==> final(frame).operand_stack@.len() == old(frame).operand_stack@.len() + 1,
{
    let name = frame.local_vars.get_ref(1);
    let class = match name {
        Some(o) if o < vm.heap.len() => match &vm.heap[o].data {
            ObjectData::Str(s) => {
                let slashed = crate::strings::replace_all(s.as_str(), '.', '/');
                vm.loader.find_class(slashed.as_str())
            },
            _ => None,
        },
        _ => None,
    };
    match class {
        Some(t) => match vm.mirror_of(t) {
            Ok(m) => frame.operand_stack.push_ref(Some(m)),
            Err(Interrupt::NeedsClass(n)) => {
                return Step::NeedsClass(n);
            },
            Err(_) => {
                return Step::Fault;
            },
        },
        None => frame.operand_stack.push_ref(None),
    }
    Step::Continue
}

} // verus!
