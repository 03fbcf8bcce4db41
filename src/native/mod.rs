//! The registry of host-implemented (native) methods, keyed by class name,
//! method name and descriptor, and the natives this runtime provides.
use vstd::prelude::*;
use crate::strings::str_eq;
use vstd::string::*;

pub mod atomic_long;
pub mod class_loader;
pub mod file_output_stream;
pub mod lang;
pub mod thread;

verus! {

#[derive(Clone, Copy, PartialEq, Eq, Structural, Debug)]
pub enum NativeMethod {
    FindBuiltinLib,
    FindLoadedClass0,
    FindBootstrapClass,
    CurrentThread,
    SetPriority0,
    IsAlive,
    Start0,
    VmSupportsCs8,
    WriteBytes,
    InitIds,
}

pub struct NativeEntry {
    pub class_name: String,
    pub name: String,
    pub descriptor: String,
    pub method: NativeMethod,
}

/// The first entry of `es` from `k` on for this class, name and descriptor.
pub open spec fn first_native(
    es: Seq<NativeEntry>,
    k: int,
    class_name: Seq<char>,
    name: Seq<char>,
    descriptor: Seq<char>,
) -> Option<NativeMethod>
    decreases es.len() - k,
{
    if k < 0 || k >= es.len() {
        None
    } else if es[k].class_name@ == class_name && es[k].name@ == name && es[k].descriptor@ == descriptor {
        Some(es[k].method)
    } else {
        first_native(es, k + 1, class_name, name, descriptor)
    }
}

/// The native that answers for a class, method name and descriptor.
pub open spec fn native_of(es: Seq<NativeEntry>, c: Seq<char>, n: Seq<char>, d: Seq<char>) -> Option<NativeMethod> {
    first_native(es, 0, c, n, d)
}

/// Searching from `k + 1` after an entry is put in front is searching `es`
/// from `k`.
proof fn lemma_first_native_shift(
    es: Seq<NativeEntry>,
    x: NativeEntry,
    k: int,
    c: Seq<char>,
    n: Seq<char>,
    d: Seq<char>,
)
    requires
        0 <= k,
    ensures
        first_native(es.insert(0, x), k + 1, c, n, d) == first_native(es, k, c, n, d),
    decreases es.len() - k,
{
    let t = es.insert(0, x);
    if k < es.len() {
        assert(t[k + 1] == es[k]);
        lemma_first_native_shift(es, x, k + 1, c, n, d);
    }
}

pub struct Registry {
    pub entries: Vec<NativeEntry>,
}

impl Registry {
    pub fn new() -> (r: Registry)
        ensures
            r.entries@.len() == 0,
    {
        Registry { entries: Vec::new() }
    }

    /// Registers a native for a class, method name and descriptor: from
    /// now on it answers for that key; every other key keeps its native.
    pub fn register(&mut self, class_name: &str, name: &str, descriptor: &str, method: NativeMethod)
        ensures
            final(self).entries@.len() == old(self).entries@.len() + 1,
            native_of(final(self).entries@, class_name@, name@, descriptor@) == Some(method),
            forall|c: Seq<char>, n: Seq<char>, d: Seq<char>|
                !(c == class_name@ && n == name@ && d == descriptor@) ==> #[trigger] native_of(
                    final(self).entries@,
                    c,
                    n,
                    d,
                ) == native_of(old(self).entries@, c, n, d),
    {
        let e = NativeEntry {
            class_name: String::from_str(class_name),
            name: String::from_str(name),
            descriptor: String::from_str(descriptor),
            method,
        };
        let ghost prev = self.entries@;
        let ghost ev = e;
        self.entries.insert(0, e);
        proof {
            assert forall|c: Seq<char>, n: Seq<char>, d: Seq<char>|
                !(c == class_name@ && n == name@ && d == descriptor@) implies #[trigger] native_of(
                self.entries@,
                c,
                n,
                d,
            ) == native_of(prev, c, n, d) by {
                lemma_first_native_shift(prev, ev, 0, c, n, d);
            }
        }
    }

    /// The native registered first for this class, name and descriptor.
    pub fn find(&self, class_name: &str, name: &str, descriptor: &str) -> (r: Option<NativeMethod>)
        ensures
            r == first_native(self.entries@, 0, class_name@, name@, descriptor@),
    {
        let mut k: usize = 0;
        while k < self.entries.len()
            invariant
                k <= self.entries@.len(),
                first_native(self.entries@, 0, class_name@, name@, descriptor@) == first_native(
                    self.entries@,
                    k as int,
                    class_name@,
                    name@,
                    descriptor@,
                ),
            decreases self.entries@.len() - k,
        {
            let e = &self.entries[k];
            if str_eq(e.class_name.as_str(), class_name) && str_eq(e.name.as_str(), name) && str_eq(
                e.descriptor.as_str(),
                descriptor,
            ) {
                return Some(e.method);
            }
            k = k + 1;
        }
        None
    }
}

} // verus!
