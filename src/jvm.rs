//! The runtime context: loaded classes, the heap, the main thread and the
//! native-method registry, and lazy resolution of constant-pool references.
use vstd::prelude::*;
use crate::access::{has_flag, PUBLIC};
use crate::class::{Class, Field};
use crate::class_loader::{lookup_method, package_of, ClassLoader};
use crate::constant_pool::{with_resolution, Constant};
use crate::heap::{JavaError, Object, ObjectData};
use crate::slots::Slot;
use crate::native::Registry;
use crate::thread::Thread;
use crate::strings::str_eq;

verus! {

/// Why an operation stopped short.
#[derive(Debug)]
pub enum Interrupt {
    /// The named class must be loaded before the operation can go on.
    NeedsClass(String),
    /// A Java-level error to raise through the exception unwinder.
    Throw(JavaError),
    /// The input is corrupt (a malformed method body or state): the host aborts.
    Fault,
}

/// What one interpreter step, or an instruction, left for the host to do.
#[derive(Debug)]
pub enum Step {
    /// Go on with the next instruction.
    Continue,
    /// Load the named class, then run the same instruction again.
    NeedsClass(String),
    /// An exception found no handler: the thread has no frames left. The
    /// exception object.
    Uncaught(usize),
    /// Bytes that a native method writes to standard output.
    Output(Vec<u8>),
    /// Corrupt input: the host aborts.
    Fault,
    /// The frames returned to the depth the run was asked to stop at.
    Returned,
}

pub struct Jvm {
    pub loader: ClassLoader,
    pub heap: Vec<Object>,
    pub main_thread: Thread,
    pub registry: Registry,
    /// Symbolic lookups performed by resolution so far (saturating).
    pub lookups: u64,
    /// The frames, innermost first, that the last uncaught exception left.
    pub uncaught_trace: Vec<String>,
    /// An error waiting for its class to be loaded; the next step raises it.
    pub pending_error: Option<JavaError>,
}

/// Every frame names a loaded method.
pub open spec fn frames_ok(cs: Seq<Class>, t: Thread) -> bool {
    forall|k: int|
        0 <= k < t.frames@.len() ==> {
            let f = #[trigger] t.frames@[k];
            f.class < cs.len() && f.method < cs[f.class as int].methods@.len()
        }
}

/// Every object's class is loaded.
pub open spec fn objects_ok(cs: Seq<Class>, heap: Seq<Object>) -> bool {
    forall|o: int| 0 <= o < heap.len() ==> (#[trigger] heap[o]).class < cs.len()
}

/// Each memoized resolution names a loaded class and one of its members.
pub open spec fn memo_ok(cs: Seq<Class>, e: Constant) -> bool {
    match e {
        Constant::ClassReference(r) => r.resolved matches Some(t) ==> t < cs.len(),
        Constant::FieldReference(m) => m.resolved matches Some(t) ==> t.0 < cs.len() && t.1
            < cs[t.0 as int].fields@.len(),
        Constant::MethodReference(m) => m.resolved matches Some(t) ==> t.0 < cs.len() && t.1
            < cs[t.0 as int].methods@.len(),
        Constant::InterfaceMethodReference(m) => m.resolved matches Some(t) ==> t.0 < cs.len() && t.1
            < cs[t.0 as int].methods@.len(),
        _ => true,
    }
}

pub open spec fn memos_ok(cs: Seq<Class>) -> bool {
    forall|c: int, i: int|
        0 <= c < cs.len() && 0 <= i < cs[c].constant_pool@.len() ==> memo_ok(
            cs,
            #[trigger] cs[c].constant_pool@[i],
        )
}

/// The first field of `fs` from `k` on with this name and descriptor.
pub open spec fn first_field(fs: Seq<Field>, k: int, name: Seq<char>, desc: Seq<char>) -> Option<usize>
    decreases fs.len() - k,
{
    if k < 0 || k >= fs.len() {
        None
    } else if fs[k].name@ == name && fs[k].descriptor@ == desc {
        Some(k as usize)
    } else {
        first_field(fs, k + 1, name, desc)
    }
}

/// Field lookup in class `c` and then up its superclasses.
pub open spec fn lookup_field(cs: Seq<Class>, c: int, name: Seq<char>, desc: Seq<char>) -> Option<
    (usize, usize),
>
    decreases c,
{
    if 0 <= c < cs.len() {
        match first_field(cs[c].fields@, 0, name, desc) {
            Some(f) => Some((c as usize, f)),
            None => match cs[c].super_class {
                Some(s) => if (s as int) < c {
                    lookup_field(cs, s as int, name, desc)
                } else {
                    None
                },
                None => None,
            },
        }
    } else {
        None
    }
}

/// Class `t` may be named from class `c`: it is public or in the same package.
pub open spec fn class_accessible(cs: Seq<Class>, t: int, c: int) -> bool {
    has_flag(cs[t].access_flags, PUBLIC) || package_of(cs[t]) == package_of(cs[c])
}

/// The loaded class with this name.
pub open spec fn class_named(cs: Seq<Class>, name: Seq<char>) -> Option<usize> {
    if exists|t: int| 0 <= t < cs.len() && (#[trigger] cs[t]).name@ == name {
        Some(choose|t: usize| t < cs.len() && (#[trigger] cs[t as int]).name@ == name)
    } else {
        None
    }
}

/// All of a class but its constant pool agree.
pub open spec fn same_but_pool(a: Class, b: Class) -> bool {
    &&& a.access_flags == b.access_flags
    &&& a.name == b.name
    &&& a.super_class == b.super_class
    &&& a.interfaces == b.interfaces
    &&& a.fields == b.fields
    &&& a.methods == b.methods
    &&& a.instance_slot_count == b.instance_slot_count
    &&& a.static_slot_count == b.static_slot_count
    &&& a.static_vars == b.static_vars
    &&& a.initialized == b.initialized
    &&& a.source_file == b.source_file
}

/// Only the constant-pool memos and the lookup count differ between `a` and
/// `b`: what resolution may change.
/// The classes of `b` are those of `a` but for constant-pool memos.
pub open spec fn classes_memo_only(a: Jvm, b: Jvm) -> bool {
    &&& b.loader@.len() == a.loader@.len()
    &&& forall|x: int| 0 <= x < a.loader@.len() ==> same_but_pool(#[trigger] b.loader@[x], a.loader@[x])
}

/// All of a class but its constant pool and initialization flag agree.
pub open spec fn same_layout(a: Class, b: Class) -> bool {
    same_but_pool(a, Class { initialized: a.initialized, ..b })
}

/// Of the main thread, only the current frame's operand stack differs.
pub open spec fn only_top_stack(a: Jvm, b: Jvm) -> bool {
    let fs = a.main_thread.frames@;
    let gs = b.main_thread.frames@;
    &&& gs.len() == fs.len()
    &&& b.main_thread.pc == a.main_thread.pc
    &&& forall|k: int| 0 <= k < fs.len() - 1 ==> #[trigger] gs[k] == fs[k]
    &&& gs.last().class == fs.last().class
    &&& gs.last().method == fs.last().method
    &&& gs.last().local_vars == fs.last().local_vars
    &&& gs.last().next_pc == fs.last().next_pc
}

pub open spec fn resolved_from(a: Jvm, b: Jvm) -> bool {
    &&& b.loader@.len() == a.loader@.len()
    &&& forall|x: int| 0 <= x < a.loader@.len() ==> same_but_pool(#[trigger] b.loader@[x], a.loader@[x])
    &&& b.heap == a.heap
    &&& b.main_thread == a.main_thread
    &&& b.registry == a.registry
    &&& b.pending_error == a.pending_error
    &&& b.uncaught_trace == a.uncaught_trace
}

/// The name of the array class whose elements are of the class named `n`.
pub open spec fn array_name_of(n: Seq<char>) -> Seq<char> {
    if n.len() > 0 && n[0] == '[' {
        seq!['['] + n
    } else {
        seq!['[', 'L'] + n + seq![';']
    }
}

/// The instance slots of a plain object (none for other objects).
pub open spec fn fields_of(o: Object) -> Seq<Slot> {
    match o.data {
        ObjectData::Fields(s) => s@,
        _ => Seq::empty(),
    }
}

/// `r` refers to a plain object with at least `end` instance slots.
pub open spec fn fields_room(heap: Seq<Object>, r: Option<usize>, end: int) -> bool {
    match r {
        Some(o) => o < heap.len() && heap[o as int].data is Fields && end <= fields_of(heap[o as int]).len(),
        None => false,
    }
}

/// `fs`, the instance slots of an object of class `c`, with field
/// `name`/`desc` (looked up from `c`) set to `v` when the object has that
/// slot.
pub open spec fn set_named(cs: Seq<Class>, c: int, fs: Seq<Slot>, name: Seq<char>, desc: Seq<char>, v: Slot) -> Seq<
    Slot,
> {
    match lookup_field(cs, c, name, desc) {
        Some(t) => {
            let id = cs[t.0 as int].fields@[t.1 as int].slot_id as int;
            if id < fs.len() {
                fs.update(id, v)
            } else {
                fs
            }
        },
        None => fs,
    }
}

pub open spec fn saturating_inc(n: u64) -> u64 {
    if n < u64::MAX {
        (n + 1) as u64
    } else {
        n
    }
}

proof fn lemma_first_field_in_range(fs: Seq<Field>, k: int, name: Seq<char>, desc: Seq<char>)
    ensures
        first_field(fs, k, name, desc) matches Some(f) ==> f < fs.len(),
    decreases fs.len() - k,
{
    if 0 <= k < fs.len() && !(fs[k].name@ == name && fs[k].descriptor@ == desc) {
        lemma_first_field_in_range(fs, k + 1, name, desc);
    }
}

pub proof fn lemma_lookup_field_in_range(cs: Seq<Class>, c: int, name: Seq<char>, desc: Seq<char>)
    requires
        cs.len() <= usize::MAX,
    ensures
        lookup_field(cs, c, name, desc) matches Some(t) ==> t.0 < cs.len() && t.1 < cs[t.0 as int].fields@.len(),
    decreases c,
{
    if 0 <= c < cs.len() {
        lemma_first_field_in_range(cs[c].fields@, 0, name, desc);
        if let Some(s) = cs[c].super_class {
            if (s as int) < c {
                lemma_lookup_field_in_range(cs, s as int, name, desc);
            }
        }
    }
}

proof fn lemma_lookup_method_in_range(cs: Seq<Class>, c: int, name: Seq<char>, desc: Seq<char>)
    requires
        cs.len() <= usize::MAX,
    ensures
        lookup_method(cs, c, name, desc) matches Some(t) ==> t.0 < cs.len() && t.1 < cs[t.0 as int].methods@.len(),
{
    crate::class_loader::lemma_lookup_in_class_in_range(cs, c, name, desc);
    crate::class_loader::lemma_lookup_in_ifaces_in_range(cs, c, 0, name, desc);
}

proof fn lemma_memo_in_range(j: Jvm, c: int, index: int)
    requires
        j.wf(),
        0 <= c < j.loader@.len(),
        1 <= index <= j.loader@[c].constant_pool@.len(),
    ensures
        memo_ok(j.loader@, j.loader@[c].constant_pool@[index - 1]),
{
    assert(memo_ok(j.loader@, j.loader@[c].constant_pool@[index - 1]));
}

/// Resolution memoization. Once resolving a class reference has succeeded,
/// the entry holds its target: resolving the same index again returns the
/// same class, with no symbolic lookup and no change to the runtime.
pub proof fn lemma_resolution_memoized(j0: Jvm, j1: Jvm, c: int, index: int, t: usize)
    requires
        j0.wf(),
        0 <= c < j0.loader@.len(),
        j0.entry(c, index) matches Some(Constant::ClassReference(cr)) && cr.resolved.is_none(),
        j1.memoized(j0, c, index, (t, 0)),
    ensures
        j1.entry(c, index) matches Some(Constant::ClassReference(cr1)) && cr1.resolved == Some(t)
            && cr1.class_name == j0.entry(c, index).unwrap()->ClassReference_0.class_name,
        j1.lookups == saturating_inc(j0.lookups),
{
}

impl Jvm {
    pub open spec fn wf(&self) -> bool {
        &&& self.loader.wf()
        &&& memos_ok(self.loader@)
        &&& frames_ok(self.loader@, self.main_thread)
        &&& objects_ok(self.loader@, self.heap@)
    }

    /// The pool entry at 1-based `index` of class `c`.
    pub open spec fn entry(&self, c: int, index: int) -> Option<Constant> {
        let pool = self.loader@[c].constant_pool@;
        if 1 <= index <= pool.len() {
            Some(pool[index - 1])
        } else {
            None
        }
    }

    /// `self` is `old` with the entry at `index` of class `c` memoizing `t`,
    /// and one more symbolic lookup counted.
    pub open spec fn memoized(&self, old: Jvm, c: int, index: int, t: (usize, usize)) -> bool {
        &&& self.loader@.len() == old.loader@.len()
        &&& forall|x: int| 0 <= x < old.loader@.len() && x != c ==> self.loader@[x] == old.loader@[x]
        &&& same_but_pool(self.loader@[c], old.loader@[c])
        &&& self.loader@[c].constant_pool@ == old.loader@[c].constant_pool@.update(
            index - 1,
            with_resolution(old.loader@[c].constant_pool@[index - 1], t),
        )
        &&& self.heap == old.heap
        &&& self.main_thread == old.main_thread
        &&& self.registry == old.registry
        &&& self.lookups == saturating_inc(old.lookups)
        &&& self.pending_error == old.pending_error
        &&& self.uncaught_trace == old.uncaught_trace
    }

    /// `self` is `old` with one more symbolic lookup counted.
    pub open spec fn counted(&self, old: Jvm) -> bool {
        &&& self.loader == old.loader
        &&& self.heap == old.heap
        &&& self.main_thread == old.main_thread
        &&& self.registry == old.registry
        &&& self.lookups == saturating_inc(old.lookups)
        &&& self.pending_error == old.pending_error
        &&& self.uncaught_trace == old.uncaught_trace
    }

    pub fn new(registry: Registry) -> (r: Jvm)
        ensures
            r.wf(),
            r.loader@.len() == 0,
            r.heap@.len() == 0,
            r.main_thread.frames@.len() == 0,
            r.registry == registry,
            r.lookups == 0,
    {
        Jvm { loader: ClassLoader::new(), heap: Vec::new(), main_thread: Thread::new_thread(), registry, lookups: 0, uncaught_trace: Vec::new(), pending_error: None }
    }

    pub fn main_thread(&self) -> (r: &Thread)
        ensures
            *r == self.main_thread,
    {
        &self.main_thread
    }

    pub fn boot_class_loader(&self) -> (r: &ClassLoader)
        ensures
            *r == self.loader,
    {
        &self.loader
    }

    /// Loads and links a decoded class into the arena (see
    /// `ClassLoader::define_class`); the rest of the runtime is untouched.
    pub fn define_class(&mut self, cf: crate::class_file::ClassFile) -> (r: Result<
        usize,
        crate::class_loader::LoadError,
    >)
        requires
            old(self).wf(),
        ensures
            final(self).wf(),
            final(self).loader@.len() >= old(self).loader@.len(),
            forall|x: int| 0 <= x < old(self).loader@.len() ==> final(self).loader@[x] == old(self).loader@[x],
            r.is_ok() ==> r.unwrap() < final(self).loader@.len() && final(self).loader@[r.unwrap() as int].name@
                == cf.name@,
            r.is_err() ==> final(self).loader@ == old(self).loader@,
            final(self).heap == old(self).heap,
            final(self).main_thread == old(self).main_thread,
            final(self).registry == old(self).registry,
            final(self).lookups == old(self).lookups,
    {
        let ghost prev = self.loader@;
        let r = self.loader.define_class(cf);
        proof {
            let cs = self.loader@;
            if cs.len() != prev.len() {
                crate::constant_pool::lemma_built_unresolved(cs.last().constant_pool@, cf.constant_pool@);
                assert(cs.drop_last() == prev);
            }
            assert forall|x: int| 0 <= x < prev.len() implies cs[x] == prev[x] by {
                if cs.len() != prev.len() {
                    assert(cs.drop_last()[x] == cs[x]);
                }
            }
            assert forall|x: int, i: int|
                0 <= x < cs.len() && 0 <= i < cs[x].constant_pool@.len() implies memo_ok(
                cs,
                #[trigger] cs[x].constant_pool@[i],
            ) by {
                if x < prev.len() {
                    assert(memo_ok(prev, prev[x].constant_pool@[i]));
                } else {
                    assert(crate::constant_pool::unresolved(cs[x].constant_pool@[i]));
                }
            }
        }
        r
    }

    /// Sets field `name`/`desc` of plain object `obj` to `v`, when its
    /// class has that field and the object that slot (see `set_named`).
    pub fn set_field_by_name(&mut self, obj: usize, name: &str, desc: &str, v: Slot)
        requires
            old(self).wf(),
            obj < old(self).heap@.len(),
            old(self).heap@[obj as int].data is Fields,
        ensures
            final(self).wf(),
            final(self).loader == old(self).loader,
            final(self).main_thread == old(self).main_thread,
            final(self).pending_error == old(self).pending_error,
            final(self).heap@.len() == old(self).heap@.len(),
            forall|k: int| 0 <= k < old(self).heap@.len() && k != obj ==> #[trigger] final(self).heap@[k] == old(self).heap@[k],
            final(self).heap@[obj as int].class == old(self).heap@[obj as int].class,
            final(self).heap@[obj as int].data is Fields,
            fields_of(final(self).heap@[obj as int]) == set_named(
                old(self).loader@,
                old(self).heap@[obj as int].class as int,
                fields_of(old(self).heap@[obj as int]),
                name@,
                desc@,
                v,
            ),
    {
        let c = self.heap[obj].class;
        proof {
            assert(objects_ok(self.loader@, self.heap@));
            assert(self.heap@[obj as int].class < self.loader@.len());
        }
        let _n = self.loader.classes.len();
        if let Some((fc, fi)) = self.look_up_field(c, name, desc) {
            proof {
                lemma_lookup_field_in_range(self.loader@, c as int, name@, desc@);
            }
            let slot = self.loader.classes[fc].fields[fi].slot_id;
            let ghost before = self.heap@;
            if let ObjectData::Fields(fields) = &mut self.heap[obj].data {
                if slot < fields.len() {
                    fields.set_slot(slot, v);
                }
            }
            proof {
                assert forall|o: int| 0 <= o < self.heap@.len() implies (#[trigger] self.heap@[o]).class
                    < self.loader@.len() by {
                    if o != obj {
                        assert(self.heap@[o] == before[o]);
                    }
                }
            }
        }
    }

    fn count_lookup(&mut self)
        ensures
            final(self).lookups == saturating_inc(old(self).lookups),
            final(self).loader == old(self).loader,
            final(self).heap == old(self).heap,
            final(self).main_thread == old(self).main_thread,
            final(self).registry == old(self).registry,
            final(self).pending_error == old(self).pending_error,
            final(self).uncaught_trace == old(self).uncaught_trace,
    {
        if self.lookups < u64::MAX {
            self.lookups = self.lookups + 1;
        }
    }

    fn find_named(&self, name: &String) -> (r: Option<usize>)
        requires
            self.loader.wf(),
        ensures
            r == class_named(self.loader@, name@),
    {
        let r = self.loader.find_class(name.as_str());
        proof {
            if let Some(t) = r {
                let t2 = choose|t: usize| t < self.loader@.len() && (#[trigger] self.loader@[t as int]).name@ == name@;
                assert(self.loader@[t as int].name@ == self.loader@[t2 as int].name@);
            }
        }
        r
    }

    fn first_field_exec(fs: &Vec<Field>, name: &str, desc: &str) -> (r: Option<usize>)
        ensures
            r == first_field(fs@, 0, name@, desc@),
    {
        let mut k: usize = 0;
        while k < fs.len()
            invariant
                k <= fs@.len(),
                first_field(fs@, 0, name@, desc@) == first_field(fs@, k as int, name@, desc@),
            decreases fs@.len() - k,
        {
            if str_eq(fs[k].name.as_str(), name) && str_eq(fs[k].descriptor.as_str(), desc) {
                return Some(k);
            }
            k = k + 1;
        }
        None
    }

    /// Looks a field up in class `c` and then its superclasses.
    pub fn look_up_field(&self, c: usize, name: &str, desc: &str) -> (r: Option<(usize, usize)>)
        requires
            self.loader.wf(),
            c < self.loader@.len(),
        ensures
            r == lookup_field(self.loader@, c as int, name@, desc@),
        decreases c,
    {
        match Self::first_field_exec(&self.loader.classes[c].fields, name, desc) {
            Some(f) => Some((c, f)),
            None => match self.loader.classes[c].super_class {
                Some(s) => self.look_up_field(s, name, desc),
                None => None,
            },
        }
    }

    /// Resolves the class reference at 1-based `index` of class `c`'s pool.
    /// A resolved entry answers at once; otherwise the class is looked up by
    /// name (it must be loaded, else the host is asked to load it), checked
    /// for access from `c`, and the result memoized.
    pub fn resolve_class_ref(&mut self, c: usize, index: usize) -> (r: Result<usize, Interrupt>)
        requires
            old(self).wf(),
            c < old(self).loader@.len(),
        ensures
            final(self).wf(),
            resolved_from(*old(self), *final(self)),
            r matches Ok(t) ==> t < final(self).loader@.len(),
            ({
                let e = old(self).entry(c as int, index as int);
                if !(e matches Some(Constant::ClassReference(_))) {
                    r matches Err(Interrupt::Throw(JavaError::ClassFormat)) && *final(self) == *old(self)
                } else {
                    let cr = e.unwrap()->ClassReference_0;
                    match cr.resolved {
                        Some(t) => r == Ok::<usize, Interrupt>(t) && *final(self) == *old(self),
                        None => match class_named(old(self).loader@, cr.class_name@) {
                            None => (r matches Err(Interrupt::NeedsClass(n)) && n@ == cr.class_name@)
                                && final(self).counted(*old(self)),
                            Some(t) => if class_accessible(old(self).loader@, t as int, c as int) {
                                r == Ok::<usize, Interrupt>(t) && final(self).memoized(
                                    *old(self),
                                    c as int,
                                    index as int,
                                    (t, 0),
                                )
                            } else {
                                r matches Err(Interrupt::Throw(JavaError::IllegalAccess))
                                    && final(self).counted(*old(self))
                            },
                        },
                    }
                }
            }),
    {
        let name = match self.loader.classes[c].constant_pool.get_constant(index) {
            Some(Constant::ClassReference(cr)) => match cr.resolved {
                Some(t) => {
                    proof {
                        lemma_memo_in_range(*self, c as int, index as int);
                    }
                    return Ok(t);
                },
                None => cr.class_name.clone(),
            },
            _ => {
                return Err(Interrupt::Throw(JavaError::ClassFormat));
            },
        };
        self.count_lookup();
        let t = match self.find_named(&name) {
            Some(t) => t,
            None => {
                return Err(Interrupt::NeedsClass(name));
            },
        };
        if !(self.loader.classes[t].is_public() || self.loader.same_package(t, c)) {
            return Err(Interrupt::Throw(JavaError::IllegalAccess));
        }
        self.set_resolved(c, index, (t, 0));
        Ok(t)
    }

    #[verifier::rlimit(40)]
    fn set_resolved(&mut self, c: usize, index: usize, t: (usize, usize))
        requires
            old(self).wf(),
            c < old(self).loader@.len(),
            1 <= index <= old(self).loader@[c as int].constant_pool@.len(),
            memo_ok(old(self).loader@, with_resolution(old(self).loader@[c as int].constant_pool@[index - 1], t)),
        ensures
            final(self).wf(),
            final(self).loader@.len() == old(self).loader@.len(),
            forall|x: int| 0 <= x < old(self).loader@.len() && x != c ==> final(self).loader@[x] == old(self).loader@[x],
            same_but_pool(final(self).loader@[c as int], old(self).loader@[c as int]),
            final(self).loader@[c as int].constant_pool@ == old(self).loader@[c as int].constant_pool@.update(
                index - 1,
                with_resolution(old(self).loader@[c as int].constant_pool@[index - 1], t),
            ),
            final(self).heap == old(self).heap,
            final(self).main_thread == old(self).main_thread,
            final(self).registry == old(self).registry,
            final(self).lookups == old(self).lookups,
            final(self).pending_error == old(self).pending_error,
            final(self).uncaught_trace == old(self).uncaught_trace,
    {
        let ghost prev = self.loader@;
        self.loader.classes[c].constant_pool.set_resolved(index, t);
        proof {
            let cs = self.loader@;
            assert forall|x: int, m: int|
                0 <= x < cs.len() && 0 <= m < cs[x].methods@.len() implies #[trigger] cs[x].methods@[m].class == x by {
                assert(cs[x].methods == prev[x].methods);
            }
            assert(forall|x: int| 0 <= x < cs.len() && x != c ==> cs[x] == prev[x]);
            assert(cs[c as int].super_class == prev[c as int].super_class);
            assert(cs[c as int].fields == prev[c as int].fields);
            assert forall|x: int| 0 <= x < cs.len() implies #[trigger] crate::class_loader::laid_out(cs, x) by {
                assert(crate::class_loader::laid_out(prev, x));
                match prev[x].super_class {
                    Some(s) => assert(cs[s as int].instance_slot_count == prev[s as int].instance_slot_count),
                    None => {},
                }
            }
            assert forall|x: int, i: int|
                0 <= x < cs.len() && 0 <= i < cs[x].constant_pool@.len() implies memo_ok(
                cs,
                #[trigger] cs[x].constant_pool@[i],
            ) by {
                assert(forall|y: int| 0 <= y < cs.len() ==> cs[y].fields == prev[y].fields && cs[y].methods == prev[y].methods);
                if x != c || i != index - 1 {
                    assert(cs[x].constant_pool@[i] == prev[x].constant_pool@[i]);
                    assert(memo_ok(prev, prev[x].constant_pool@[i]));
                }
            }
            assert forall|a: int, b: int| 0 <= a < cs.len() && 0 <= b < cs.len() && a != b implies
                #[trigger] cs[a].name@ != #[trigger] cs[b].name@ by {
                assert(cs[a].name == prev[a].name);
                assert(cs[b].name == prev[b].name);
            }
        }
    }

    /// Resolves the method reference at 1-based `index` of class `c`'s
    /// pool. A resolved entry answers at once; otherwise the owner class is
    /// looked up by name (loaded, else the host is asked to load it), which must not be an interface,
    /// the member is looked up, checked for access from `c`, and the result
    /// memoized.
    pub fn resolve_method_ref(&mut self, c: usize, index: usize) -> (r: Result<(usize, usize), Interrupt>)
        requires
            old(self).wf(),
            c < old(self).loader@.len(),
        ensures
            final(self).wf(),
            resolved_from(*old(self), *final(self)),
            r matches Ok(t) ==> t.0 < final(self).loader@.len() && t.1 < final(self).loader@[t.0 as int].methods@.len(),
            ({
                let e = old(self).entry(c as int, index as int);
                let cs = old(self).loader@;
                if !(e matches Some(Constant::MethodReference(_))) {
                    r matches Err(Interrupt::Throw(JavaError::ClassFormat)) && *final(self) == *old(self)
                } else {
                    let mr = e.unwrap()->MethodReference_0;
                    match mr.resolved {
                        Some(t) => r == Ok::<(usize, usize), Interrupt>(t) && *final(self) == *old(self),
                        None => match class_named(cs, mr.class_name@) {
                            None => (r matches Err(Interrupt::NeedsClass(n)) && n@ == mr.class_name@)
                                && final(self).counted(*old(self)),
                            Some(k) => if cs[k as int].spec_is_interface() {
                                r matches Err(Interrupt::Throw(JavaError::IncompatibleClassChange))
                                    && final(self).counted(*old(self))
                            } else {
                                match lookup_method(cs, k as int, mr.name@, mr.descriptor@) {
                                    None => r matches Err(Interrupt::Throw(JavaError::NoSuchMethod))
                                        && final(self).counted(*old(self)),
                                    Some(t) => if crate::class_loader::member_accessible(
                                        cs,
                                        cs[t.0 as int].methods@[t.1 as int].access_flags,
                                        t.0 as int,
                                        c as int,
                                    ) {
                                        r == Ok::<(usize, usize), Interrupt>(t) && final(self).memoized(
                                            *old(self),
                                            c as int,
                                            index as int,
                                            t,
                                        )
                                    } else {
                                        r matches Err(Interrupt::Throw(JavaError::IllegalAccess))
                                            && final(self).counted(*old(self))
                                    },
                                }
                            },
                        },
                    }
                }
            }),
    {
        let (class_name, name, desc) = match self.loader.classes[c].constant_pool.get_constant(index) {
            Some(Constant::MethodReference(mr)) => match mr.resolved {
                Some(t) => {
                    proof {
                        lemma_memo_in_range(*self, c as int, index as int);
                    }
                    return Ok(t);
                },
                None => (mr.class_name.clone(), mr.name.clone(), mr.descriptor.clone()),
            },
            _ => {
                return Err(Interrupt::Throw(JavaError::ClassFormat));
            },
        };
        self.count_lookup();
        let _n = self.loader.classes.len();
        let k = match self.find_named(&class_name) {
            Some(k) => k,
            None => {
                return Err(Interrupt::NeedsClass(class_name));
            },
        };
        if self.loader.classes[k].is_interface() {
            return Err(Interrupt::Throw(JavaError::IncompatibleClassChange));
        }
        let t = match self.loader.look_up_method(k, name.as_str(), desc.as_str()) {
            Some(t) => t,
            None => {
                return Err(Interrupt::Throw(JavaError::NoSuchMethod));
            },
        };
        proof {
            lemma_lookup_method_in_range(self.loader@, k as int, name@, desc@);
        }
        let flags = self.loader.classes[t.0].methods[t.1].access_flags;
        if !self.loader.is_accessible_to(flags, t.0, c) {
            return Err(Interrupt::Throw(JavaError::IllegalAccess));
        }
        self.set_resolved(c, index, t);
        Ok(t)
    }

    /// Resolves the interface method reference at 1-based `index` of class `c`'s
    /// pool. A resolved entry answers at once; otherwise the owner class is
    /// looked up by name (loaded, else the host is asked to load it), which must be an interface,
    /// the member is looked up, checked for access from `c`, and the result
    /// memoized.
    pub fn resolve_interface_method_ref(&mut self, c: usize, index: usize) -> (r: Result<(usize, usize), Interrupt>)
        requires
            old(self).wf(),
            c < old(self).loader@.len(),
        ensures
            final(self).wf(),
            resolved_from(*old(self), *final(self)),
            r matches Ok(t) ==> t.0 < final(self).loader@.len() && t.1 < final(self).loader@[t.0 as int].methods@.len(),
            ({
                let e = old(self).entry(c as int, index as int);
                let cs = old(self).loader@;
                if !(e matches Some(Constant::InterfaceMethodReference(_))) {
                    r matches Err(Interrupt::Throw(JavaError::ClassFormat)) && *final(self) == *old(self)
                } else {
                    let mr = e.unwrap()->InterfaceMethodReference_0;
                    match mr.resolved {
                        Some(t) => r == Ok::<(usize, usize), Interrupt>(t) && *final(self) == *old(self),
                        None => match class_named(cs, mr.class_name@) {
                            None => (r matches Err(Interrupt::NeedsClass(n)) && n@ == mr.class_name@)
                                && final(self).counted(*old(self)),
                            Some(k) => if !cs[k as int].spec_is_interface() {
                                r matches Err(Interrupt::Throw(JavaError::IncompatibleClassChange))
                                    && final(self).counted(*old(self))
                            } else {
                                match lookup_method(cs, k as int, mr.name@, mr.descriptor@) {
                                    None => r matches Err(Interrupt::Throw(JavaError::NoSuchMethod))
                                        && final(self).counted(*old(self)),
                                    Some(t) => if crate::class_loader::member_accessible(
                                        cs,
                                        cs[t.0 as int].methods@[t.1 as int].access_flags,
                                        t.0 as int,
                                        c as int,
                                    ) {
                                        r == Ok::<(usize, usize), Interrupt>(t) && final(self).memoized(
                                            *old(self),
                                            c as int,
                                            index as int,
                                            t,
                                        )
                                    } else {
                                        r matches Err(Interrupt::Throw(JavaError::IllegalAccess))
                                            && final(self).counted(*old(self))
                                    },
                                }
                            },
                        },
                    }
                }
            }),
    {
        let (class_name, name, desc) = match self.loader.classes[c].constant_pool.get_constant(index) {
            Some(Constant::InterfaceMethodReference(mr)) => match mr.resolved {
                Some(t) => {
                    proof {
                        lemma_memo_in_range(*self, c as int, index as int);
                    }
                    return Ok(t);
                },
                None => (mr.class_name.clone(), mr.name.clone(), mr.descriptor.clone()),
            },
            _ => {
                return Err(Interrupt::Throw(JavaError::ClassFormat));
            },
        };
        self.count_lookup();
        let _n = self.loader.classes.len();
        let k = match self.find_named(&class_name) {
            Some(k) => k,
            None => {
                return Err(Interrupt::NeedsClass(class_name));
            },
        };
        if !self.loader.classes[k].is_interface() {
            return Err(Interrupt::Throw(JavaError::IncompatibleClassChange));
        }
        let t = match self.loader.look_up_method(k, name.as_str(), desc.as_str()) {
            Some(t) => t,
            None => {
                return Err(Interrupt::Throw(JavaError::NoSuchMethod));
            },
        };
        proof {
            lemma_lookup_method_in_range(self.loader@, k as int, name@, desc@);
        }
        let flags = self.loader.classes[t.0].methods[t.1].access_flags;
        if !self.loader.is_accessible_to(flags, t.0, c) {
            return Err(Interrupt::Throw(JavaError::IllegalAccess));
        }
        self.set_resolved(c, index, t);
        Ok(t)
    }

    /// Resolves the field reference at 1-based `index` of class `c`'s
    /// pool. A resolved entry answers at once; otherwise the owner class is
    /// looked up by name (loaded, else the host is asked to load it), 
    /// the member is looked up, checked for access from `c`, and the result
    /// memoized.
    pub fn resolve_field_ref(&mut self, c: usize, index: usize) -> (r: Result<(usize, usize), Interrupt>)
        requires
            old(self).wf(),
            c < old(self).loader@.len(),
        ensures
            final(self).wf(),
            resolved_from(*old(self), *final(self)),
            r matches Ok(t) ==> t.0 < final(self).loader@.len() && t.1 < final(self).loader@[t.0 as int].fields@.len(),
            ({
                let e = old(self).entry(c as int, index as int);
                let cs = old(self).loader@;
                if !(e matches Some(Constant::FieldReference(_))) {
                    r matches Err(Interrupt::Throw(JavaError::ClassFormat)) && *final(self) == *old(self)
                } else {
                    let mr = e.unwrap()->FieldReference_0;
                    match mr.resolved {
                        Some(t) => r == Ok::<(usize, usize), Interrupt>(t) && *final(self) == *old(self),
                        None => match class_named(cs, mr.class_name@) {
                            None => (r matches Err(Interrupt::NeedsClass(n)) && n@ == mr.class_name@)
                                && final(self).counted(*old(self)),
                            Some(k) => {
                                match lookup_field(cs, k as int, mr.name@, mr.descriptor@) {
                                    None => r matches Err(Interrupt::Throw(JavaError::NoSuchField))
                                        && final(self).counted(*old(self)),
                                    Some(t) => if crate::class_loader::member_accessible(
                                        cs,
                                        cs[t.0 as int].fields@[t.1 as int].access_flags,
                                        t.0 as int,
                                        c as int,
                                    ) {
                                        r == Ok::<(usize, usize), Interrupt>(t) && final(self).memoized(
                                            *old(self),
                                            c as int,
                                            index as int,
                                            t,
                                        )
                                    } else {
                                        r matches Err(Interrupt::Throw(JavaError::IllegalAccess))
                                            && final(self).counted(*old(self))
                                    },
                                }
                            },
                        },
                    }
                }
            }),
    {
        let (class_name, name, desc) = match self.loader.classes[c].constant_pool.get_constant(index) {
            Some(Constant::FieldReference(mr)) => match mr.resolved {
                Some(t) => {
                    proof {
                        lemma_memo_in_range(*self, c as int, index as int);
                    }
                    return Ok(t);
                },
                None => (mr.class_name.clone(), mr.name.clone(), mr.descriptor.clone()),
            },
            _ => {
                return Err(Interrupt::Throw(JavaError::ClassFormat));
            },
        };
        self.count_lookup();
        let _n = self.loader.classes.len();
        let k = match self.find_named(&class_name) {
            Some(k) => k,
            None => {
                return Err(Interrupt::NeedsClass(class_name));
            },
        };
        let t = match self.look_up_field(k, name.as_str(), desc.as_str()) {
            Some(t) => t,
            None => {
                return Err(Interrupt::Throw(JavaError::NoSuchField));
            },
        };
        proof {
            lemma_lookup_field_in_range(self.loader@, k as int, name@, desc@);
        }
        let flags = self.loader.classes[t.0].fields[t.1].access_flags;
        if !self.loader.is_accessible_to(flags, t.0, c) {
            return Err(Interrupt::Throw(JavaError::IllegalAccess));
        }
        self.set_resolved(c, index, t);
        Ok(t)
    }
}

} // verus!
