//! Choosing the method that a virtual or interface call runs on its
//! receiver.
use vstd::prelude::*;
use crate::class::{Class, Method};
use crate::class_loader::{implements, is_subclass, lookup_in_class, package_of};
use crate::heap::{JavaError, Object};
use crate::jvm::Jvm;

verus! {

/// The method that a virtual call of resolved method `(rc, rm)` from class
/// `caller` runs on a receiver of class `oc` (`None`: a null receiver), or
/// the error it raises.
pub open spec fn virtual_choice(
    cs: Seq<Class>,
    caller: int,
    rc: int,
    rm: int,
    oc: Option<int>,
) -> Result<(usize, usize), JavaError> {
    let m = cs[rc].methods@[rm];
    if m.spec_is_static() {
        Err(JavaError::IncompatibleClassChange)
    } else {
        match oc {
            None => Err(JavaError::NullPointer),
            Some(o) => if protected_denied(cs, caller, rc, m, o) {
                Err(JavaError::IllegalAccess)
            } else {
                match lookup_in_class(cs, o, m.name@, m.descriptor@) {
                    None => Err(JavaError::AbstractMethod),
                    Some(t) => if crate::access::has_flag(
                        cs[t.0 as int].methods@[t.1 as int].access_flags,
                        crate::access::ABSTRACT,
                    ) {
                        Err(JavaError::AbstractMethod)
                    } else {
                        Ok(t)
                    },
                }
            },
        }
    }
}

/// A protected method of a superclass in another package may be called
/// only on receivers of the caller's class or its subclasses (an array's
/// `clone` excepted).
pub open spec fn protected_denied(cs: Seq<Class>, caller: int, rc: int, m: Method, o: int) -> bool {
    &&& crate::access::has_flag(m.access_flags, crate::access::PROTECTED)
    &&& is_subclass(cs, caller, rc)
    &&& package_of(cs[rc]) != package_of(cs[caller])
    &&& o != caller
    &&& !is_subclass(cs, o, caller)
    &&& !(crate::class_loader::is_array_name(cs[o].name@) && m.name@ == "clone"@)
}

/// The method that an interface call of resolved method `(rc, rm)` runs on
/// a receiver of class `oc`, or the error it raises.
pub open spec fn interface_choice(cs: Seq<Class>, rc: int, rm: int, oc: Option<int>) -> Result<
    (usize, usize),
    JavaError,
> {
    let m = cs[rc].methods@[rm];
    if m.spec_is_static() || crate::access::has_flag(m.access_flags, crate::access::PRIVATE) {
        Err(JavaError::IncompatibleClassChange)
    } else {
        match oc {
            None => Err(JavaError::NullPointer),
            Some(o) => if !implements(cs, o, rc) {
                Err(JavaError::IncompatibleClassChange)
            } else {
                match lookup_in_class(cs, o, m.name@, m.descriptor@) {
                    None => Err(JavaError::AbstractMethod),
                    Some(t) => {
                        let f = cs[t.0 as int].methods@[t.1 as int].access_flags;
                        if crate::access::has_flag(f, crate::access::ABSTRACT) {
                            Err(JavaError::AbstractMethod)
                        } else if !crate::access::has_flag(f, crate::access::PUBLIC) {
                            Err(JavaError::IllegalAccess)
                        } else {
                            Ok(t)
                        }
                    },
                }
            },
        }
    }
}

/// The class of the object that `r` refers to; a null or dangling
/// reference has none.
pub open spec fn class_of_ref(heap: Seq<Object>, r: Option<usize>) -> Option<int> {
    match r {
        Some(o) => if o < heap.len() {
            Some(heap[o as int].class as int)
        } else {
            None
        },
        None => None,
    }
}

/// Dispatch correctness. When class `b` extends `a` and declares a method
/// with the signature of `a`'s method `f` (its first one with that
/// signature), a virtual call of `a`'s `f` on an instance of `b` runs
/// `b`'s method; on a null receiver it raises `NullPointerException`.
pub proof fn lemma_dispatch_override(cs: Seq<Class>, caller: int, a: int, f: int, b: int, g: int)
    requires
        crate::class_loader::classes_wf(cs),
        cs.len() <= usize::MAX,
        0 <= a < cs.len(),
        0 <= b < cs.len(),
        0 <= f < cs[a].methods@.len(),
        0 <= g < cs[b].methods@.len() <= usize::MAX,
        0 <= caller < cs.len(),
        !cs[a].methods@[f].spec_is_static(),
        !crate::access::has_flag(cs[a].methods@[f].access_flags, crate::access::PROTECTED),
        crate::class_loader::first_match(
            cs[b].methods@,
            0,
            cs[a].methods@[f].name@,
            cs[a].methods@[f].descriptor@,
        ) == Some(g as usize),
        !crate::access::has_flag(cs[b].methods@[g].access_flags, crate::access::ABSTRACT),
    ensures
        virtual_choice(cs, caller, a, f, Some(b)) == Ok::<(usize, usize), JavaError>((b as usize, g as usize)),
        virtual_choice(cs, caller, a, f, None) == Err::<(usize, usize), JavaError>(JavaError::NullPointer),
{
    crate::class_loader::lemma_lookup_in_class_in_range(cs, b, cs[a].methods@[f].name@, cs[a].methods@[f].descriptor@);
}

/// Memoizing resolutions changes neither the method a call chooses nor the
/// error it raises.
pub proof fn lemma_choices_same_graph(a: Seq<Class>, b: Seq<Class>, caller: int, rc: int, rm: int, oc: Option<int>)
    requires
        crate::class_loader::same_graph(a, b),
        0 <= caller < a.len(),
        0 <= rc < a.len(),
        oc matches Some(o) ==> 0 <= o < a.len(),
    ensures
        virtual_choice(a, caller, rc, rm, oc) == virtual_choice(b, caller, rc, rm, oc),
        interface_choice(a, rc, rm, oc) == interface_choice(b, rc, rm, oc),
{
    crate::class_loader::lemma_graph_queries_same(a, b);
    assert(crate::jvm::same_but_pool(b[rc], a[rc]));
    assert(crate::jvm::same_but_pool(b[caller], a[caller]));
    if let Some(o) = oc {
        assert(crate::jvm::same_but_pool(b[o], a[o]));
        let m = a[rc].methods@[rm];
        match lookup_in_class(a, o, m.name@, m.descriptor@) {
            Some(t) => {
                crate::class_loader::lemma_lookup_in_class_in_range_any(a, o, m.name@, m.descriptor@);
                assert(crate::jvm::same_but_pool(b[t.0 as int], a[t.0 as int]));
            },
            None => {},
        }
    }
}

impl Jvm {
    /// Chooses the method a virtual call runs (see `virtual_choice`).
    pub fn select_virtual(&self, caller: usize, rc: usize, rm: usize, receiver: Option<usize>) -> (r: Result<
        (usize, usize),
        JavaError,
    >)
        requires
            self.wf(),
            caller < self.loader@.len(),
            rc < self.loader@.len(),
            rm < self.loader@[rc as int].methods@.len(),
        ensures
            r == virtual_choice(self.loader@, caller as int, rc as int, rm as int, class_of_ref(self.heap@, receiver)),
            r matches Ok(t) ==> t.0 < self.loader@.len() && t.1 < self.loader@[t.0 as int].methods@.len(),
    {
        let _n = self.loader.classes.len();
        let m = &self.loader.classes[rc].methods[rm];
        if m.is_static() {
            return Err(JavaError::IncompatibleClassChange);
        }
        let o = match receiver {
            Some(o) => if o < self.heap.len() {
                self.heap[o].class
            } else {
                return Err(JavaError::NullPointer);
            },
            None => {
                return Err(JavaError::NullPointer);
            },
        };
        proof {
            assert(crate::jvm::objects_ok(self.loader@, self.heap@));
            assert(self.heap@[receiver.unwrap() as int].class < self.loader@.len());
        }
        if m.is_protected() && self.loader.is_sub_class_of(caller, rc) && !self.loader.same_package(rc, caller)
            && o != caller && !self.loader.is_sub_class_of(o, caller) {
            let exempt = self.loader.classes[o].is_array() && crate::strings::str_eq(m.name.as_str(), "clone");
            if !exempt {
                return Err(JavaError::IllegalAccess);
            }
        }
        proof {
            crate::class_loader::lemma_lookup_in_class_in_range(self.loader@, o as int, m.name@, m.descriptor@);
        }
        match self.loader.look_up_method_in_class(o, m.name.as_str(), m.descriptor.as_str()) {
            None => Err(JavaError::AbstractMethod),
            Some(t) => if self.loader.classes[t.0].methods[t.1].is_abstract() {
                Err(JavaError::AbstractMethod)
            } else {
                Ok(t)
            },
        }
    }

    /// Chooses the method an interface call runs (see `interface_choice`).
    pub fn select_interface(&self, rc: usize, rm: usize, receiver: Option<usize>) -> (r: Result<
        (usize, usize),
        JavaError,
    >)
        requires
            self.wf(),
            rc < self.loader@.len(),
            rm < self.loader@[rc as int].methods@.len(),
        ensures
            r == interface_choice(self.loader@, rc as int, rm as int, class_of_ref(self.heap@, receiver)),
            r matches Ok(t) ==> t.0 < self.loader@.len() && t.1 < self.loader@[t.0 as int].methods@.len(),
    {
        let _n = self.loader.classes.len();
        let m = &self.loader.classes[rc].methods[rm];
        if m.is_static() || m.is_private() {
            return Err(JavaError::IncompatibleClassChange);
        }
        let o = match receiver {
            Some(o) => if o < self.heap.len() {
                self.heap[o].class
            } else {
                return Err(JavaError::NullPointer);
            },
            None => {
                return Err(JavaError::NullPointer);
            },
        };
        proof {
            assert(crate::jvm::objects_ok(self.loader@, self.heap@));
            assert(self.heap@[receiver.unwrap() as int].class < self.loader@.len());
        }
        if !self.loader.is_implements(o, rc) {
            return Err(JavaError::IncompatibleClassChange);
        }
        proof {
            crate::class_loader::lemma_lookup_in_class_in_range(self.loader@, o as int, m.name@, m.descriptor@);
        }
        match self.loader.look_up_method_in_class(o, m.name.as_str(), m.descriptor.as_str()) {
            None => Err(JavaError::AbstractMethod),
            Some(t) => {
                let callee = &self.loader.classes[t.0].methods[t.1];
                if callee.is_abstract() {
                    Err(JavaError::AbstractMethod)
                } else if !callee.is_public() {
                    Err(JavaError::IllegalAccess)
                } else {
                    Ok(t)
                }
            },
        }
    }
}

} // verus!
