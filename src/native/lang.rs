//! Registration of the `java/lang` natives.
use vstd::prelude::*;
use crate::native::Registry;

verus! {

pub fn init(registry: &mut Registry)
    ensures
        final(registry).entries@.len() == old(registry).entries@.len() + 7,
{
    crate::native::thread::init(registry);
    crate::native::class_loader::init(registry);
}

} // verus!
