//! Natives of `java/util/concurrent/atomic/AtomicLong`.
use vstd::prelude::*;
use crate::native::{native_of, NativeMethod, Registry};
use crate::slots::Slot;
use crate::thread::Frame;

verus! {

pub fn init(registry: &mut Registry)
    ensures
        final(registry).entries@.len() == old(registry).entries@.len() + 1,
        native_of(final(registry).entries@, "java/util/concurrent/atomic/AtomicLong"@, "VMSupportsCS8"@, "()Z"@) == Some(NativeMethod::VmSupportsCs8),
        forall|c: Seq<char>, n: Seq<char>, d: Seq<char>|
            (!(c == "java/util/concurrent/atomic/AtomicLong"@ && n == "VMSupportsCS8"@ && d == "()Z"@)) ==> #[trigger] native_of(final(registry).entries@, c, n, d) == native_of(old(registry).entries@, c, n, d),
{
    proof {
        reveal_strlit("VMSupportsCS8");
        assert("VMSupportsCS8"@.len() == 13);
    }
    registry.register("java/util/concurrent/atomic/AtomicLong", "VMSupportsCS8", "()Z", NativeMethod::VmSupportsCs8);
}

/// `AtomicLong.VMSupportsCS8()Z`: this runtime answers false.
pub fn vm_supports_cs8(frame: &mut Frame)
    ensures
        final(frame).class == old(frame).class,
        final(frame).method == old(frame).method,
        final(frame).operand_stack@ == old(frame).operand_stack@.push(Slot { num: 0, reference: None }),
        final(frame).local_vars == old(frame).local_vars,
        final(frame).next_pc == old(frame).next_pc,
{
    frame.operand_stack.push_int(0);
}

} // verus!
