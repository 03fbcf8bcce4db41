//! The class arena: classes keyed by name, each referring to its superclass
//! and interfaces by index, and the queries over the type graph.
use vstd::prelude::*;
use crate::access::{has_flag, PRIVATE, PROTECTED, PUBLIC};
use crate::class::{Class, Field, Method};
use crate::class_file::{ClassFile, MemberInfo};
use crate::constant_pool::{pool_width, ConstantPool};
use crate::linker::{
    lemma_width_before_bounds, lemma_width_before_monotone, lemma_width_before_same, slot_of,
    width_before, ClassPreparation,
};
use crate::slots::Slots;
use crate::strings::{prefix_before_last, same_prefix_before_last, str_eq};
use vstd::string::*;

verus! {

/// Superclasses and interfaces come before the classes that name them, so
/// every walk up the type graph ends; methods point back at their class;
/// no two classes share a name.
pub open spec fn classes_wf(cs: Seq<Class>) -> bool {
    &&& forall|c: int|
        0 <= c < cs.len() ==> match (#[trigger] cs[c]).super_class {
            Some(s) => s < c,
            None => true,
        }
    &&& forall|c: int, k: int|
        0 <= c < cs.len() && 0 <= k < cs[c].interfaces@.len() ==> #[trigger] cs[c].interfaces@[k] < c
    &&& forall|c: int, m: int|
        0 <= c < cs.len() && 0 <= m < cs[c].methods@.len() ==> #[trigger] cs[c].methods@[m].class == c
    &&& forall|a: int, b: int|
        0 <= a < cs.len() && 0 <= b < cs.len() && a != b ==> #[trigger] cs[a].name@ != #[trigger] cs[b].name@
}

/// Instance slots held by the superclass of `c` (0 for a root class).
pub open spec fn super_slots(cs: Seq<Class>, c: int) -> int {
    match cs[c].super_class {
        Some(s) => cs[s as int].instance_slot_count as int,
        None => 0,
    }
}

/// Class `c` was prepared: its fields carry the slot ids that preparation
/// gives, and its instance slot count covers them.
pub open spec fn laid_out(cs: Seq<Class>, c: int) -> bool {
    let fs = cs[c].fields@;
    &&& forall|k: int| 0 <= k < fs.len() ==> (#[trigger] fs[k]).slot_id == slot_of(fs, k, super_slots(cs, c))
    &&& cs[c].instance_slot_count == super_slots(cs, c) + width_before(fs, fs.len() as int, false)
}

pub open spec fn layouts_wf(cs: Seq<Class>) -> bool {
    forall|c: int| 0 <= c < cs.len() ==> #[trigger] laid_out(cs, c)
}

/// Class `c` extends `d`, directly or through its superclasses.
pub open spec fn is_subclass(cs: Seq<Class>, c: int, d: int) -> bool
    decreases c,
{
    if 0 <= c < cs.len() {
        match cs[c].super_class {
            Some(s) => s == d || ((s as int) < c && is_subclass(cs, s as int, d)),
            None => false,
        }
    } else {
        false
    }
}

/// Interface `target` is among the interfaces of `owner` from position `k`
/// on, or among the interfaces those extend.
pub open spec fn ifaces_reach(cs: Seq<Class>, owner: int, k: int, target: int) -> bool
    decreases owner, cs[owner].interfaces@.len() - k,
{
    if 0 <= owner < cs.len() && 0 <= k < cs[owner].interfaces@.len() {
        let j = cs[owner].interfaces@[k] as int;
        j == target || (j < owner && ifaces_reach(cs, j, 0, target)) || ifaces_reach(
            cs,
            owner,
            k + 1,
            target,
        )
    } else {
        false
    }
}

/// Interface `i` extends `target`, directly or transitively.
pub open spec fn is_sub_interface(cs: Seq<Class>, i: int, target: int) -> bool {
    ifaces_reach(cs, i, 0, target)
}

/// Class `c`, or one of its superclasses, implements interface `target`.
pub open spec fn implements(cs: Seq<Class>, c: int, target: int) -> bool
    decreases c,
{
    if 0 <= c < cs.len() {
        ifaces_reach(cs, c, 0, target) || match cs[c].super_class {
            Some(s) => (s as int) < c && implements(cs, s as int, target),
            None => false,
        }
    } else {
        false
    }
}

/// The first method of `ms` from `k` on with this name and descriptor.
pub open spec fn first_match(ms: Seq<Method>, k: int, name: Seq<char>, desc: Seq<char>) -> Option<usize>
    decreases ms.len() - k,
{
    if k < 0 || k >= ms.len() {
        None
    } else if ms[k].name@ == name && ms[k].descriptor@ == desc {
        Some(k as usize)
    } else {
        first_match(ms, k + 1, name, desc)
    }
}

/// Method lookup in class `c` and then up its superclasses: the class and
/// the position of the first method found with this signature.
pub open spec fn lookup_in_class(cs: Seq<Class>, c: int, name: Seq<char>, desc: Seq<char>) -> Option<
    (usize, usize),
>
    decreases c,
{
    if 0 <= c < cs.len() {
        match first_match(cs[c].methods@, 0, name, desc) {
            Some(m) => Some((c as usize, m)),
            None => match cs[c].super_class {
                Some(s) => if (s as int) < c {
                    lookup_in_class(cs, s as int, name, desc)
                } else {
                    None
                },
                None => None,
            },
        }
    } else {
        None
    }
}

/// Depth-first method lookup through the interfaces of `owner` from position
/// `k` on: each interface's own methods, then the interfaces it extends.
pub open spec fn lookup_in_ifaces(
    cs: Seq<Class>,
    owner: int,
    k: int,
    name: Seq<char>,
    desc: Seq<char>,
) -> Option<(usize, usize)>
    decreases owner, cs[owner].interfaces@.len() - k,
{
    if 0 <= owner < cs.len() && 0 <= k < cs[owner].interfaces@.len() {
        let j = cs[owner].interfaces@[k] as int;
        if j < owner && 0 <= j {
            match first_match(cs[j].methods@, 0, name, desc) {
                Some(m) => Some((j as usize, m)),
                None => match lookup_in_ifaces(cs, j, 0, name, desc) {
                    Some(r) => Some(r),
                    None => lookup_in_ifaces(cs, owner, k + 1, name, desc),
                },
            }
        } else {
            lookup_in_ifaces(cs, owner, k + 1, name, desc)
        }
    } else {
        None
    }
}

/// Method lookup: the class and its superclasses first, then the class's
/// interfaces depth-first.
pub open spec fn lookup_method(cs: Seq<Class>, c: int, name: Seq<char>, desc: Seq<char>) -> Option<
    (usize, usize),
> {
    match lookup_in_class(cs, c, name, desc) {
        Some(r) => Some(r),
        None => lookup_in_ifaces(cs, c, 0, name, desc),
    }
}

/// The package of a class: its name up to the last `/`.
pub open spec fn package_of(c: Class) -> Seq<char> {
    prefix_before_last(c.name@, '/')
}

/// Whether a member with `flags` declared in class `d` may be used from class `c`.
pub open spec fn member_accessible(cs: Seq<Class>, flags: u16, d: int, c: int) -> bool {
    if has_flag(flags, PUBLIC) {
        true
    } else if has_flag(flags, PROTECTED) {
        c == d || is_subclass(cs, c, d) || package_of(cs[d]) == package_of(cs[c])
    } else if !has_flag(flags, PRIVATE) {
        package_of(cs[d]) == package_of(cs[c])
    } else {
        c == d
    }
}

pub open spec fn is_array_name(n: Seq<char>) -> bool {
    n.len() > 0 && n[0] == '['
}

/// The element type named by an array class name: `[Lp/C;` gives `p/C`,
/// `[[I` gives `[I`, and `[I` gives `I`.
pub open spec fn component_name(n: Seq<char>) -> Seq<char> {
    let r = n.drop_first();
    if r.len() >= 2 && r[0] == 'L' && r.last() == ';' {
        r.subrange(1, r.len() - 1)
    } else {
        r
    }
}

/// Whether a value of class `s` may be stored where class `t` is expected.
/// Two array classes: the same element type, or the target's element class
/// accepts the source's.
pub open spec fn assignable(cs: Seq<Class>, t: int, s: int) -> bool
    decreases cs[t].name@.len(),
{
    if !(0 <= t < cs.len() && 0 <= s < cs.len()) {
        false
    } else {
        let tc = cs[t];
        let sc = cs[s];
        if s == t {
            true
        } else if !is_array_name(sc.name@) {
            if !sc.spec_is_interface() {
                if !tc.spec_is_interface() {
                    is_subclass(cs, s, t)
                } else {
                    implements(cs, s, t)
                }
            } else {
                if !tc.spec_is_interface() {
                    tc.name@ == "java/lang/Object"@
                } else {
                    is_sub_interface(cs, s, t)
                }
            }
        } else if !is_array_name(tc.name@) {
            if !tc.spec_is_interface() {
                tc.name@ == "java/lang/Object"@
            } else {
                tc.name@ == "java/lang/Cloneable"@ || tc.name@ == "java/io/Serializable"@
            }
        } else {
            let tn = component_name(tc.name@);
            let sn = component_name(sc.name@);
            tn == sn || match (crate::jvm::class_named(cs, tn), crate::jvm::class_named(cs, sn)) {
                (Some(a), Some(b)) => if cs[a as int].name@.len() < tc.name@.len() {
                    assignable(cs, a as int, b as int)
                } else {
                    false
                },
                _ => false,
            }
        }
    }
}

/// The element type name of an array class name.
fn component_of(n: &str) -> (r: String)
    requires
        n@.len() >= 1,
    ensures
        r@ == component_name(n@),
{
    let len = n.unicode_len();
    let r = n.substring_char(1, len);
    let rl = len - 1;
    if rl >= 2 && r.get_char(0) == 'L' && r.get_char(rl - 1) == ';' {
        String::from_str(r.substring_char(1, rl - 1))
    } else {
        String::from_str(r)
    }
}

#[derive(Debug)]
pub enum LoadError {
    /// The class named must be loaded first: a superclass or interface.
    NeedsClass(String),
    /// The descriptor is malformed or too large for this machine.
    ClassFormat,
}

proof fn lemma_pool_width_bound(raw: Seq<crate::constant_pool::RawConstant>)
    ensures
        pool_width(raw) <= 2 * raw.len(),
    decreases raw.len(),
{
    if raw.len() > 0 {
        lemma_pool_width_bound(raw.drop_last());
    }
}

/// `cf` names a superclass that is not loaded.
pub open spec fn super_missing(cs: Seq<Class>, cf: ClassFile) -> bool {
    match cf.super_class_name {
        Some(n) => crate::jvm::class_named(cs, n@) is None,
        None => false,
    }
}

/// The superclass size that preparation starts from.
pub open spec fn super_base(cs: Seq<Class>, cf: ClassFile) -> int {
    match cf.super_class_name {
        Some(n) => match crate::jvm::class_named(cs, n@) {
            Some(s) => cs[s as int].instance_slot_count as int,
            None => 0,
        },
        None => 0,
    }
}

/// Everything `cf` names is loaded and it fits this machine: loading it
/// succeeds.
pub open spec fn loadable(cs: Seq<Class>, cf: ClassFile) -> bool {
    &&& (cf.super_class_name matches Some(n) ==> crate::jvm::class_named(cs, n@) is Some)
    &&& forall|k: int|
        0 <= k < cf.interface_names@.len() ==> crate::jvm::class_named(cs, (#[trigger] cf.interface_names@[k])@)
            is Some
    &&& cf.constant_pool@.len() < usize::MAX / 2
    &&& cf.fields@.len() <= (usize::MAX - super_base(cs, cf)) / 2
    &&& forall|k: int| 0 <= k < cf.methods@.len() ==> (#[trigger] cf.methods@[k]).descriptor@.len() < usize::MAX / 4
}

/// `find_class` answers with the class that `class_named` picks.
pub proof fn lemma_find_is_named(cs: Seq<Class>, name: Seq<char>, r: Option<usize>)
    requires
        classes_wf(cs),
        r.is_some() ==> r.unwrap() < cs.len() && cs[r.unwrap() as int].name@ == name,
        r.is_none() ==> forall|c: int| 0 <= c < cs.len() ==> #[trigger] cs[c].name@ != name,
    ensures
        r == crate::jvm::class_named(cs, name),
{
    if let Some(t) = r {
        let t2 = choose|t: usize| t < cs.len() && (#[trigger] cs[t as int]).name@ == name;
        assert(cs[t as int].name@ == cs[t2 as int].name@);
    }
}

/// Classes loaded so far, keyed by name.
pub struct ClassLoader {
    pub classes: Vec<Class>,
}

impl View for ClassLoader {
    type V = Seq<Class>;

    open spec fn view(&self) -> Seq<Class> {
        self.classes@
    }
}

impl ClassLoader {
    pub open spec fn wf(&self) -> bool {
        classes_wf(self@) && layouts_wf(self@)
    }

    pub fn new() -> (r: ClassLoader)
        ensures
            r@.len() == 0,
            r.wf(),
    {
        ClassLoader { classes: Vec::new() }
    }

    pub fn len(&self) -> (r: usize)
        ensures
            r == self@.len(),
    {
        self.classes.len()
    }

    /// The index of the class with this name, if it is loaded.
    pub fn find_class(&self, name: &str) -> (r: Option<usize>)
        ensures
            r.is_some() ==> r.unwrap() < self@.len() && self@[r.unwrap() as int].name@ == name@,
            r.is_none() ==> forall|c: int| 0 <= c < self@.len() ==> #[trigger] self@[c].name@ != name@,
    {
        let mut i: usize = 0;
        while i < self.classes.len()
            invariant
                i <= self@.len(),
                forall|c: int| 0 <= c < i ==> #[trigger] self@[c].name@ != name@,
            decreases self@.len() - i,
        {
            if str_eq(self.classes[i].name.as_str(), name) {
                return Some(i);
            }
            i = i + 1;
        }
        None
    }

    /// Class `c` extends `d`.
    pub fn is_sub_class_of(&self, c: usize, d: usize) -> (r: bool)
        requires
            self.wf(),
            c < self@.len(),
        ensures
            r == is_subclass(self@, c as int, d as int),
    {
        let mut cur = self.classes[c].super_class;
        let ghost mut prev: int = c as int;
        while cur.is_some()
            invariant
                self.wf(),
                0 <= prev < self@.len(),
                cur == self@[prev].super_class,
                is_subclass(self@, c as int, d as int) == is_subclass(self@, prev, d as int),
            decreases prev,
        {
            let s = cur.unwrap();
            if s == d {
                return true;
            }
            proof {
                prev = s as int;
            }
            cur = self.classes[s].super_class;
        }
        false
    }

    /// `d` is a superclass of `c`.
    pub fn is_super_class_of(&self, d: usize, c: usize) -> (r: bool)
        requires
            self.wf(),
            c < self@.len(),
        ensures
            r == is_subclass(self@, c as int, d as int),
    {
        self.is_sub_class_of(c, d)
    }

    fn ifaces_reach_exec(&self, owner: usize, k: usize, target: usize) -> (r: bool)
        requires
            self.wf(),
            owner < self@.len(),
            k <= self@[owner as int].interfaces@.len(),
        ensures
            r == ifaces_reach(self@, owner as int, k as int, target as int),
        decreases owner, self@[owner as int].interfaces@.len() - k,
    {
        if k >= self.classes[owner].interfaces.len() {
            return false;
        }
        let j = self.classes[owner].interfaces[k];
        if j == target {
            return true;
        }
        if self.ifaces_reach_exec(j, 0, target) {
            return true;
        }
        self.ifaces_reach_exec(owner, k + 1, target)
    }

    /// Interface `i` extends `target`, directly or transitively.
    pub fn is_sub_interface_of(&self, i: usize, target: usize) -> (r: bool)
        requires
            self.wf(),
            i < self@.len(),
        ensures
            r == is_sub_interface(self@, i as int, target as int),
    {
        self.ifaces_reach_exec(i, 0, target)
    }

    /// Class `c` or one of its superclasses implements `target`.
    pub fn is_implements(&self, c: usize, target: usize) -> (r: bool)
        requires
            self.wf(),
            c < self@.len(),
        ensures
            r == implements(self@, c as int, target as int),
        decreases c,
    {
        if self.ifaces_reach_exec(c, 0, target) {
            return true;
        }
        match self.classes[c].super_class {
            Some(s) => self.is_implements(s, target),
            None => false,
        }
    }

    /// Whether a value of class `s` may be stored where class `t` is expected.
    pub fn is_assignable_from(&self, t: usize, s: usize) -> (r: bool)
        requires
            self.wf(),
            t < self@.len(),
            s < self@.len(),
        ensures
            r == assignable(self@, t as int, s as int),
        decreases self@[t as int].name@.len(),
    {
        if s == t {
            return true;
        }
        let tc = &self.classes[t];
        let sc = &self.classes[s];
        if !sc.is_array() {
            if !sc.is_interface() {
                if !tc.is_interface() {
                    self.is_sub_class_of(s, t)
                } else {
                    self.is_implements(s, t)
                }
            } else {
                if !tc.is_interface() {
                    tc.is_java_lang_object()
                } else {
                    self.is_sub_interface_of(s, t)
                }
            }
        } else if !tc.is_array() {
            if !tc.is_interface() {
                tc.is_java_lang_object()
            } else {
                tc.is_java_lang_cloneable() || tc.is_java_io_serializable()
            }
        } else {
            let tn = component_of(tc.name.as_str());
            let sn = component_of(sc.name.as_str());
            if str_eq(tn.as_str(), sn.as_str()) {
                return true;
            }
            let fa = self.find_class(tn.as_str());
            let fb = self.find_class(sn.as_str());
            proof {
                lemma_find_is_named(self@, tn@, fa);
                lemma_find_is_named(self@, sn@, fb);
            }
            match (fa, fb) {
                (Some(a), Some(b)) => {
                    if self.classes[a].name.as_str().unicode_len() < tc.name.as_str().unicode_len() {
                        self.is_assignable_from(a, b)
                    } else {
                        false
                    }
                },
                _ => false,
            }
        }
    }

    /// Both classes are in the same package.
    pub fn same_package(&self, a: usize, b: usize) -> (r: bool)
        requires
            a < self@.len(),
            b < self@.len(),
        ensures
            r == (package_of(self@[a as int]) == package_of(self@[b as int])),
    {
        same_prefix_before_last(self.classes[a].name.as_str(), self.classes[b].name.as_str(), '/')
    }

    /// Whether a member with `flags` declared in class `d` may be used from class `c`.
    pub fn is_accessible_to(&self, flags: u16, d: usize, c: usize) -> (r: bool)
        requires
            self.wf(),
            d < self@.len(),
            c < self@.len(),
        ensures
            r == member_accessible(self@, flags, d as int, c as int),
    {
        if crate::access::flag_set(flags, PUBLIC) {
            true
        } else if crate::access::flag_set(flags, PROTECTED) {
            c == d || self.is_sub_class_of(c, d) || self.same_package(d, c)
        } else if !crate::access::flag_set(flags, PRIVATE) {
            self.same_package(d, c)
        } else {
            c == d
        }
    }

    fn first_match_exec(ms: &Vec<Method>, name: &str, desc: &str) -> (r: Option<usize>)
        ensures
            r == first_match(ms@, 0, name@, desc@),
            r.is_some() ==> r.unwrap() < ms@.len(),
    {
        let mut k: usize = 0;
        while k < ms.len()
            invariant
                k <= ms@.len(),
                first_match(ms@, 0, name@, desc@) == first_match(ms@, k as int, name@, desc@),
            decreases ms@.len() - k,
        {
            if ms[k].has_signature(name, desc) {
                return Some(k);
            }
            k = k + 1;
        }
        None
    }

    /// Looks a method up in class `c` and then its superclasses.
    pub fn look_up_method_in_class(&self, c: usize, name: &str, desc: &str) -> (r: Option<(usize, usize)>)
        requires
            self.wf(),
            c < self@.len(),
        ensures
            r == lookup_in_class(self@, c as int, name@, desc@),
        decreases c,
    {
        match Self::first_match_exec(&self.classes[c].methods, name, desc) {
            Some(m) => Some((c, m)),
            None => match self.classes[c].super_class {
                Some(s) => self.look_up_method_in_class(s, name, desc),
                None => None,
            },
        }
    }

    /// Looks a method up depth-first through the interfaces of `owner` from
    /// position `k` on.
    pub fn look_up_method_in_interfaces(&self, owner: usize, k: usize, name: &str, desc: &str) -> (r:
        Option<(usize, usize)>)
        requires
            self.wf(),
            owner < self@.len(),
            k <= self@[owner as int].interfaces@.len(),
        ensures
            r == lookup_in_ifaces(self@, owner as int, k as int, name@, desc@),
        decreases owner, self@[owner as int].interfaces@.len() - k,
    {
        if k >= self.classes[owner].interfaces.len() {
            return None;
        }
        let j = self.classes[owner].interfaces[k];
        match Self::first_match_exec(&self.classes[j].methods, name, desc) {
            Some(m) => Some((j, m)),
            None => match self.look_up_method_in_interfaces(j, 0, name, desc) {
                Some(r) => Some(r),
                None => self.look_up_method_in_interfaces(owner, k + 1, name, desc),
            },
        }
    }

    /// Looks up each interface name; the first one that is not loaded is
    /// returned as the error.
    fn find_interfaces(&self, names: &Vec<String>) -> (r: Result<Vec<usize>, String>)
        ensures
            r.is_ok() ==> r.unwrap()@.len() == names@.len() && forall|k: int|
                0 <= k < names@.len() ==> (#[trigger] r.unwrap()@[k]) < self@.len()
                    && self@[r.unwrap()@[k] as int].name@ == names@[k]@,
            r.is_err() ==> exists|k: int|
                0 <= k < names@.len() && (#[trigger] names@[k])@ == r->Err_0@ && forall|c: int|
                    0 <= c < self@.len() ==> #[trigger] self@[c].name@ != names@[k]@,
    {
        let mut out: Vec<usize> = Vec::new();
        let mut k: usize = 0;
        while k < names.len()
            invariant
                k <= names@.len(),
                out@.len() == k,
                forall|j: int|
                    0 <= j < k ==> (#[trigger] out@[j]) < self@.len() && self@[out@[j] as int].name@
                        == names@[j]@,
            decreases names@.len() - k,
        {
            match self.find_class(names[k].as_str()) {
                Some(i) => out.push(i),
                None => {
                    return Err(names[k].clone());
                },
            }
            k = k + 1;
        }
        Ok(out)
    }

    /// Whether every method descriptor is short enough to be parsed here.
    fn descriptors_fit(ms: &Vec<MemberInfo>) -> (r: bool)
        ensures
            r == forall|k: int| 0 <= k < ms@.len() ==> (#[trigger] ms@[k]).descriptor@.len() < usize::MAX / 4,
    {
        let mut k: usize = 0;
        while k < ms.len()
            invariant
                k <= ms@.len(),
                forall|j: int| 0 <= j < k ==> (#[trigger] ms@[j]).descriptor@.len() < usize::MAX / 4,
            decreases ms@.len() - k,
        {
            if ms[k].descriptor.as_str().unicode_len() >= usize::MAX / 4 {
                return false;
            }
            k = k + 1;
        }
        true
    }

    /// Loads and links a decoded class: its superclass and interfaces must be
    /// loaded already. A class whose name is loaded already is not loaded
    /// again: its index is returned.
    pub fn define_class(&mut self, cf: ClassFile) -> (r: Result<usize, LoadError>)
        requires
            old(self).wf(),
        ensures
            final(self).wf(),
            r.is_ok() ==> r.unwrap() < final(self)@.len() && final(self)@[r.unwrap() as int].name@
                == cf.name@,
            (exists|c: int| 0 <= c < old(self)@.len() && #[trigger] old(self)@[c].name@ == cf.name@)
                ==> r.is_ok() && final(self)@ == old(self)@,
            r.is_err() ==> final(self)@ == old(self)@,
            final(self)@.len() == old(self)@.len() ==> final(self)@ == old(self)@,
            (r matches Err(LoadError::NeedsClass(n)) ==> forall|c: int|
                0 <= c < old(self)@.len() ==> #[trigger] old(self)@[c].name@ != n@),
            (crate::jvm::class_named(old(self)@, cf.name@) is None && super_missing(old(self)@, cf)) ==> (
            r matches Err(LoadError::NeedsClass(m)) && m@ == cf.super_class_name.unwrap()@),
            (crate::jvm::class_named(old(self)@, cf.name@) is None && loadable(old(self)@, cf)) ==> r.is_ok()
                && final(self)@.len() == old(self)@.len() + 1,
            (r.is_ok() && final(self)@.len() != old(self)@.len()) ==> {
                let c = final(self)@.last();
                &&& final(self)@.len() == old(self)@.len() + 1
                &&& final(self)@.drop_last() == old(self)@
                &&& r.unwrap() == old(self)@.len()
                &&& c.access_flags == cf.access_flags
                &&& crate::constant_pool::pool_built_from(c.constant_pool@, cf.constant_pool@)
                &&& c.initialized == is_array_name(cf.name@)
                &&& c.fields@.len() == cf.fields@.len()
                &&& c.methods@.len() == cf.methods@.len()
                &&& forall|k: int| 0 <= k < c.fields@.len() ==> crate::class::field_from(#[trigger] c.fields@[k], cf.fields@[k])
                &&& forall|k: int|
                    0 <= k < c.methods@.len() ==> crate::class::method_from(#[trigger] c.methods@[k], cf.methods@[k], r.unwrap())
                &&& c.interfaces@.len() == cf.interface_names@.len()
                &&& forall|k: int|
                    0 <= k < cf.interface_names@.len() ==> old(self)@[#[trigger] c.interfaces@[k] as int].name@
                        == cf.interface_names@[k]@
                &&& cf.super_class_name.is_none() ==> c.super_class.is_none()
                &&& cf.super_class_name.is_some() ==> c.super_class.is_some() && old(
                    self,
                )@[c.super_class.unwrap() as int].name@ == cf.super_class_name.unwrap()@
                &&& forall|k: int|
                    0 <= k < c.fields@.len() ==> (#[trigger] c.fields@[k]).slot_id == slot_of(
                        c.fields@,
                        k,
                        match c.super_class {
                            Some(s) => old(self)@[s as int].instance_slot_count as int,
                            None => 0,
                        },
                    )
            },
    {
        let own = self.find_class(cf.name.as_str());
        proof {
            lemma_find_is_named(self@, cf.name@, own);
        }
        if let Some(i) = own {
            return Ok(i);
        }
        let super_class = match &cf.super_class_name {
            Some(n) => match self.find_class(n.as_str()) {
                Some(s) => {
                    proof {
                        lemma_find_is_named(self@, n@, Some(s));
                    }
                    Some(s)
                },
                None => {
                    return Err(LoadError::NeedsClass(n.clone()));
                },
            },
            None => None,
        };
        let interfaces = match self.find_interfaces(&cf.interface_names) {
            Ok(v) => v,
            Err(n) => {
                return Err(LoadError::NeedsClass(n));
            },
        };
        let base: usize = match super_class {
            Some(s) => self.classes[s].instance_slot_count,
            None => 0,
        };
        if cf.constant_pool.len() >= usize::MAX / 2 || cf.fields.len() > (usize::MAX - base) / 2
            || !Self::descriptors_fit(&cf.methods) {
            return Err(LoadError::ClassFormat);
        }
        proof {
            lemma_pool_width_bound(cf.constant_pool@);
        }
        let index = self.classes.len();
        let constant_pool = ConstantPool::new_constant_pool(&cf.constant_pool);
        let mut fields: Vec<Field> = Vec::new();
        let mut k: usize = 0;
        while k < cf.fields.len()
            invariant
                k <= cf.fields@.len(),
                fields@.len() == k,
                forall|j: int| 0 <= j < k ==> crate::class::field_from(#[trigger] fields@[j], cf.fields@[j]),
            decreases cf.fields@.len() - k,
        {
            fields.push(Field::new_field(&cf.fields[k]));
            k = k + 1;
        }
        let mut methods: Vec<Method> = Vec::new();
        let mut k: usize = 0;
        while k < cf.methods.len()
            invariant
                k <= cf.methods@.len(),
                methods@.len() == k,
                forall|j: int| 0 <= j < k ==> (#[trigger] methods@[j]).class == index,
                forall|j: int| 0 <= j < k ==> crate::class::method_from(#[trigger] methods@[j], cf.methods@[j], index),
                forall|j: int| 0 <= j < cf.methods@.len() ==> (#[trigger] cf.methods@[j]).descriptor@.len() < usize::MAX / 4,
            decreases cf.methods@.len() - k,
        {
            methods.push(Method::new_method(index, &cf.methods[k]));
            k = k + 1;
        }
        // An array class has no initializer: it is ready once loaded.
        let is_array = crate::strings::starts_with_char(cf.name.as_str(), '[');
        let mut class = Class {
            access_flags: cf.access_flags,
            name: cf.name,
            super_class,
            interfaces,
            fields,
            methods,
            constant_pool,
            instance_slot_count: 0,
            static_slot_count: 0,
            static_vars: Slots::with_capacity(0),
            initialized: is_array,
            source_file: cf.source_file,
        };
        let ghost unprepared = class.fields@;
        ClassPreparation::prepare(&mut class, base);
        proof {
            assert forall|k: int| 0 <= k < class.fields@.len() implies (#[trigger] class.fields@[k]).slot_id
                == slot_of(class.fields@, k, base as int) by {
                assert(class.fields@[k].access_flags == unprepared[k].access_flags);
                lemma_width_before_same(unprepared, class.fields@, k, true);
                lemma_width_before_same(unprepared, class.fields@, k, false);
            }
            lemma_width_before_same(unprepared, class.fields@, unprepared.len() as int, false);
        }
        let ghost prev = self@;
        self.classes.push(class);
        proof {
            assert(self@.drop_last() =~= prev);
            assert forall|c: int, m: int|
                0 <= c < self@.len() && 0 <= m < self@[c].methods@.len() implies #[trigger] self@[c].methods@[m].class
                == c by {
                if c < prev.len() {
                    assert(self@[c] == prev[c]);
                }
            }
            assert forall|c: int| 0 <= c < self@.len() implies #[trigger] laid_out(self@, c) by {
                if c < prev.len() {
                    assert(self@[c] == prev[c]);
                    assert(laid_out(prev, c));
                    match prev[c].super_class {
                        Some(s) => assert(self@[s as int] == prev[s as int]),
                        None => {},
                    }
                }
            }
            assert forall|c: int, j: int|
                0 <= c < self@.len() && 0 <= j < self@[c].interfaces@.len() implies #[trigger] self@[c].interfaces@[j]
                < c by {
                if c < prev.len() {
                    assert(self@[c] == prev[c]);
                }
            }
        }
        Ok(index)
    }

    /// Looks a method up in the class and its superclasses, then in the
    /// class's interfaces.
    pub fn look_up_method(&self, c: usize, name: &str, desc: &str) -> (r: Option<(usize, usize)>)
        requires
            self.wf(),
            c < self@.len(),
        ensures
            r == lookup_method(self@, c as int, name@, desc@),
    {
        match self.look_up_method_in_class(c, name, desc) {
            Some(r) => Some(r),
            None => self.look_up_method_in_interfaces(c, 0, name, desc),
        }
    }
}

} // verus!

verus! {

proof fn lemma_first_match_in_range(ms: Seq<Method>, k: int, name: Seq<char>, desc: Seq<char>)
    ensures
        first_match(ms, k, name, desc) matches Some(m) ==> m < ms.len(),
    decreases ms.len() - k,
{
    if 0 <= k < ms.len() && !(ms[k].name@ == name && ms[k].descriptor@ == desc) {
        lemma_first_match_in_range(ms, k + 1, name, desc);
    }
}

pub proof fn lemma_lookup_in_class_in_range(cs: Seq<Class>, c: int, name: Seq<char>, desc: Seq<char>)
    requires
        cs.len() <= usize::MAX,
    ensures
        lookup_in_class(cs, c, name, desc) matches Some(t) ==> t.0 < cs.len() && t.1 < cs[t.0 as int].methods@.len(),
    decreases c,
{
    if 0 <= c < cs.len() {
        lemma_first_match_in_range(cs[c].methods@, 0, name, desc);
        if let Some(s) = cs[c].super_class {
            if (s as int) < c {
                lemma_lookup_in_class_in_range(cs, s as int, name, desc);
            }
        }
    }
}

pub proof fn lemma_lookup_in_ifaces_in_range(cs: Seq<Class>, owner: int, k: int, name: Seq<char>, desc: Seq<char>)
    requires
        cs.len() <= usize::MAX,
    ensures
        lookup_in_ifaces(cs, owner, k, name, desc) matches Some(t) ==> t.0 < cs.len() && t.1
            < cs[t.0 as int].methods@.len(),
    decreases owner, cs[owner].interfaces@.len() - k,
{
    if 0 <= owner < cs.len() && 0 <= k < cs[owner].interfaces@.len() {
        let j = cs[owner].interfaces@[k] as int;
        if j < owner && 0 <= j {
            lemma_first_match_in_range(cs[j].methods@, 0, name, desc);
            lemma_lookup_in_ifaces_in_range(cs, j, 0, name, desc);
        }
        lemma_lookup_in_ifaces_in_range(cs, owner, k + 1, name, desc);
    }
}

proof fn lemma_count_covers_super(cs: Seq<Class>, c: int)
    requires
        0 <= c < cs.len(),
        laid_out(cs, c),
    ensures
        super_slots(cs, c) <= cs[c].instance_slot_count,
{
    let fs = cs[c].fields@;
    lemma_width_before_bounds(fs, fs.len() as int, false);
}

/// A superclass's instance slots all lie below the slots of its subclass's
/// own fields.
proof fn lemma_ancestor_slots_below(cs: Seq<Class>, a: int, b: int)
    requires
        classes_wf(cs),
        layouts_wf(cs),
        0 <= a < cs.len(),
        is_subclass(cs, a, b),
    ensures
        cs[b].instance_slot_count <= super_slots(cs, a),
    decreases a,
{
    let s = cs[a].super_class.unwrap() as int;
    assert(cs[a].super_class.is_some());
    if s != b {
        lemma_ancestor_slots_below(cs, s, b);
        assert(laid_out(cs, s));
        lemma_count_covers_super(cs, s);
    }
}

/// Two classes on the superclass chain of `c` are equal or one extends the other.
proof fn lemma_chain_total(cs: Seq<Class>, c: int, a: int, b: int)
    requires
        classes_wf(cs),
        0 <= c < cs.len(),
        a == c || is_subclass(cs, c, a),
        b == c || is_subclass(cs, c, b),
    ensures
        a == b || is_subclass(cs, a, b) || is_subclass(cs, b, a),
    decreases c,
{
    if a != c && b != c {
        let s = cs[c].super_class.unwrap() as int;
        assert(cs[c].super_class.is_some());
        lemma_chain_total(cs, s, a, b);
    }
}

/// An instance field of a prepared class ends within the class's instance slots.
proof fn lemma_field_in_class(cs: Seq<Class>, a: int, k: int)
    requires
        0 <= a < cs.len(),
        laid_out(cs, a),
        0 <= k < cs[a].fields@.len(),
        !cs[a].fields@[k].spec_is_static(),
    ensures
        super_slots(cs, a) <= cs[a].fields@[k].slot_id,
        cs[a].fields@[k].slot_id + cs[a].fields@[k].width() <= cs[a].instance_slot_count,
{
    let fs = cs[a].fields@;
    assert(fs[k].slot_id == slot_of(fs, k, super_slots(cs, a)));
    lemma_width_before_bounds(fs, k, false);
    lemma_width_before_monotone(fs, k, fs.len() as int, false);
}

/// Slot assignment. In any loaded hierarchy, an instance field's slot id is
/// the superclass's instance slot count plus the field's ordinal among the
/// class's own instance fields, a long or double counting twice; two
/// different instance fields in the layout of one class (its own fields and
/// its superclasses') never share a slot; and every one of them lies within
/// that class's instance slot count.
pub proof fn lemma_instance_layout(cs: Seq<Class>, c: int, a: int, k: int, b: int, j: int)
    requires
        classes_wf(cs),
        layouts_wf(cs),
        0 <= c < cs.len(),
        a == c || is_subclass(cs, c, a),
        b == c || is_subclass(cs, c, b),
        0 <= a < cs.len(),
        0 <= b < cs.len(),
        0 <= k < cs[a].fields@.len(),
        0 <= j < cs[b].fields@.len(),
        !cs[a].fields@[k].spec_is_static(),
        !cs[b].fields@[j].spec_is_static(),
        a != b || k != j,
    ensures
        cs[a].fields@[k].slot_id == super_slots(cs, a) + width_before(cs[a].fields@, k, false),
        cs[a].fields@[k].slot_id + cs[a].fields@[k].width() <= cs[b].fields@[j].slot_id
            || cs[b].fields@[j].slot_id + cs[b].fields@[j].width() <= cs[a].fields@[k].slot_id,
        cs[a].fields@[k].slot_id + cs[a].fields@[k].width() <= cs[c].instance_slot_count,
{
    assert(laid_out(cs, c));
    lemma_count_covers_super(cs, c);
    if a != c {
        lemma_ancestor_slots_below(cs, c, a);
    }
    assert(laid_out(cs, a));
    assert(laid_out(cs, b));
    let fa = cs[a].fields@;
    let fb = cs[b].fields@;
    assert(fa[k].slot_id == slot_of(fa, k, super_slots(cs, a)));
    assert(fb[j].slot_id == slot_of(fb, j, super_slots(cs, b)));
    lemma_field_in_class(cs, a, k);
    lemma_field_in_class(cs, b, j);
    if a == b {
        if k < j {
            lemma_width_before_monotone(fa, k, j, false);
        } else {
            lemma_width_before_monotone(fa, j, k, false);
        }
    } else {
        lemma_chain_total(cs, c, a, b);
        if is_subclass(cs, a, b) {
            lemma_ancestor_slots_below(cs, a, b);
        } else {
            lemma_ancestor_slots_below(cs, b, a);
        }
    }
}

} // verus!

verus! {

/// The two arenas differ at most in their classes' constant pools.
pub open spec fn same_graph(a: Seq<Class>, b: Seq<Class>) -> bool {
    a.len() == b.len() && forall|x: int| 0 <= x < a.len() ==> crate::jvm::same_but_pool(#[trigger] b[x], a[x])
}

proof fn lemma_subclass_same_graph(a: Seq<Class>, b: Seq<Class>, c: int, d: int)
    requires
        same_graph(a, b),
    ensures
        is_subclass(a, c, d) == is_subclass(b, c, d),
    decreases c,
{
    if 0 <= c < a.len() {
        assert(crate::jvm::same_but_pool(b[c], a[c]));
        if let Some(s) = a[c].super_class {
            if (s as int) < c {
                lemma_subclass_same_graph(a, b, s as int, d);
            }
        }
    }
}

proof fn lemma_ifaces_same_graph(a: Seq<Class>, b: Seq<Class>, owner: int, k: int, t: int)
    requires
        same_graph(a, b),
    ensures
        ifaces_reach(a, owner, k, t) == ifaces_reach(b, owner, k, t),
    decreases owner, a[owner].interfaces@.len() - k,
{
    if 0 <= owner < a.len() {
        assert(crate::jvm::same_but_pool(b[owner], a[owner]));
        if 0 <= k < a[owner].interfaces@.len() {
            let j = a[owner].interfaces@[k] as int;
            if j < owner {
                lemma_ifaces_same_graph(a, b, j, 0, t);
            }
            lemma_ifaces_same_graph(a, b, owner, k + 1, t);
        }
    }
}

proof fn lemma_implements_same_graph(a: Seq<Class>, b: Seq<Class>, c: int, t: int)
    requires
        same_graph(a, b),
    ensures
        implements(a, c, t) == implements(b, c, t),
    decreases c,
{
    if 0 <= c < a.len() {
        assert(crate::jvm::same_but_pool(b[c], a[c]));
        lemma_ifaces_same_graph(a, b, c, 0, t);
        if let Some(s) = a[c].super_class {
            if (s as int) < c {
                lemma_implements_same_graph(a, b, s as int, t);
            }
        }
    }
}

proof fn lemma_lookup_same_graph(a: Seq<Class>, b: Seq<Class>, c: int, name: Seq<char>, desc: Seq<char>)
    requires
        same_graph(a, b),
    ensures
        lookup_in_class(a, c, name, desc) == lookup_in_class(b, c, name, desc),
    decreases c,
{
    if 0 <= c < a.len() {
        assert(crate::jvm::same_but_pool(b[c], a[c]));
        if let Some(s) = a[c].super_class {
            if (s as int) < c {
                lemma_lookup_same_graph(a, b, s as int, name, desc);
            }
        }
    }
}

/// A method found by lookup lies in the arena (no machine bound needed).
pub proof fn lemma_lookup_in_class_in_range_any(cs: Seq<Class>, c: int, name: Seq<char>, desc: Seq<char>)
    ensures
        lookup_in_class(cs, c, name, desc) matches Some(t) ==> (t.0 as int) < cs.len() || cs.len() > usize::MAX,
    decreases c,
{
    if 0 <= c < cs.len() {
        if let Some(s) = cs[c].super_class {
            if (s as int) < c {
                lemma_lookup_in_class_in_range_any(cs, s as int, name, desc);
            }
        }
    }
}

/// Memoizing resolutions changes no answer about the type graph.
pub proof fn lemma_graph_queries_same(a: Seq<Class>, b: Seq<Class>)
    requires
        same_graph(a, b),
    ensures
        forall|c: int, d: int| #[trigger] is_subclass(a, c, d) == is_subclass(b, c, d),
        forall|c: int, t: int| #[trigger] implements(a, c, t) == implements(b, c, t),
        forall|c: int, name: Seq<char>, desc: Seq<char>|
            #[trigger] lookup_in_class(a, c, name, desc) == lookup_in_class(b, c, name, desc),
{
    assert forall|c: int, d: int| #[trigger] is_subclass(a, c, d) == is_subclass(b, c, d) by {
        lemma_subclass_same_graph(a, b, c, d);
    }
    assert forall|c: int, t: int| #[trigger] implements(a, c, t) == implements(b, c, t) by {
        lemma_implements_same_graph(a, b, c, t);
    }
    assert forall|c: int, name: Seq<char>, desc: Seq<char>|
        #[trigger] lookup_in_class(a, c, name, desc) == lookup_in_class(b, c, name, desc) by {
        lemma_lookup_same_graph(a, b, c, name, desc);
    }
}

} // verus!
