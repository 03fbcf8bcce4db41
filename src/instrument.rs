//! The instrumentation object that agents receive.
use vstd::prelude::*;
use crate::invoke_support::{encode_params, Parameter};
use crate::class::is_constructor;
use crate::jvm::class_named;
use crate::jvm::{Jvm, Step};
use vstd::string::*;

verus! {

/// Allocates a `sun/instrument/InstrumentationImpl` and sets up the call of
/// its `(JZZ)V` constructor with `(0, false, false)`; the host runs the
/// thread to finish it. The object, or what the host must do first: load
/// the class (`NeedsClass`), or nothing can be done (`Fault`: the class
/// declares no such constructor).
pub fn create_instrumentation(vm: &mut Jvm) -> (r: Result<usize, Step>)
    requires
        old(vm).wf(),
    ensures
        final(vm).wf(),
        class_named(old(vm).loader@, "sun/instrument/InstrumentationImpl"@) is None ==> (r matches Err(
            Step::NeedsClass(n),
        ) && n@ == "sun/instrument/InstrumentationImpl"@) && *final(vm) == *old(vm),
        ({
            let cs = old(vm).loader@;
            let c = class_named(cs, "sun/instrument/InstrumentationImpl"@);
            c is Some ==> (r.is_ok() == exists|m: int|
                0 <= m < cs[c.unwrap() as int].methods@.len() && is_constructor(
                    #[trigger] cs[c.unwrap() as int].methods@[m],
                    "(JZZ)V"@,
                ))
        }),
        r matches Ok(o) ==> {
            let fs = final(vm).main_thread.frames@;
            &&& o == old(vm).heap@.len()
            &&& final(vm).heap@[o as int].class == class_named(
                old(vm).loader@,
                "sun/instrument/InstrumentationImpl"@,
            ).unwrap()
            &&& fs.len() == old(vm).main_thread.frames@.len() + 2
            &&& fs.last().local_vars@.subrange(0, 5) == encode_params(
                seq![
                    Parameter::Object(Some(o)),
                    Parameter::Long(0),
                    Parameter::Boolean(false),
                    Parameter::Boolean(false),
                ],
            )
            &&& fs.last().method < final(vm).loader@[fs.last().class as int].methods@.len()
            &&& fs.last().class == final(vm).heap@[o as int].class
            &&& is_constructor(final(vm).loader@[fs.last().class as int].methods@[fs.last().method as int], "(JZZ)V"@)
        },
{
    let found = vm.loader.find_class("sun/instrument/InstrumentationImpl");
    proof {
        crate::class_loader::lemma_find_is_named(vm.loader@, "sun/instrument/InstrumentationImpl"@, found);
    }
    let c = match found {
        Some(c) => c,
        None => {
            return Err(Step::NeedsClass(String::from_str("sun/instrument/InstrumentationImpl")));
        },
    };
    let ctor = match vm.loader.classes[c].get_constructor("(JZZ)V") {
        Some(m) => (c, m),
        None => {
            return Err(Step::Fault);
        },
    };
    let obj = vm.new_object(c);
    let params = vec![
        Parameter::Object(Some(obj)),
        Parameter::Long(0),
        Parameter::Boolean(false),
        Parameter::Boolean(false),
    ];
    vm.begin_invoke(ctor.0, ctor.1, &params);
    proof {
        let ps = seq![
            Parameter::Object(Some(obj)),
            Parameter::Long(0),
            Parameter::Boolean(false),
            Parameter::Boolean(false),
        ];
        assert(params@ =~= ps);
        assert(encode_params(ps).len() == 5) by {
            reveal_with_fuel(encode_params, 5);
        }
    }
    Ok(obj)
}

} // verus!
