//! The run-time constant pool: literals and symbolic references, indexed
//! from 1. A reference entry starts unresolved and memoizes its target.
use vstd::prelude::*;

verus! {

/// A pool entry as the class-file decoder hands it over.
pub enum RawConstant {
    Integer(i32),
    /// A float, as its IEEE-754 bits.
    Float(u32),
    Long(i64),
    /// A double, as its IEEE-754 bits.
    Double(u64),
    Str(String),
    Class(String),
    FieldRef(String, String, String),
    MethodRef(String, String, String),
    InterfaceMethodRef(String, String, String),
    /// An entry the runtime does not use (names, types, method handles).
    Other,
}

/// A symbolic class reference and, once resolved, the class's arena index.
pub struct ClassRef {
    pub class_name: String,
    pub resolved: Option<usize>,
}

impl ClassRef {
    pub fn new_class_ref(class_name: String) -> (r: ClassRef)
        ensures
            r.class_name@ == class_name@,
            r.resolved.is_none(),
    {
        ClassRef { class_name, resolved: None }
    }
}

/// A symbolic field or method reference: owner class name, member name and
/// descriptor; once resolved, the owner's arena index and the member's
/// position among the declaring class's fields or methods.
pub struct MemberRef {
    pub class_name: String,
    pub name: String,
    pub descriptor: String,
    pub resolved: Option<(usize, usize)>,
}

impl MemberRef {
    pub fn new_member_ref(class_name: String, name: String, descriptor: String) -> (r: MemberRef)
        ensures
            r.class_name@ == class_name@,
            r.name@ == name@,
            r.descriptor@ == descriptor@,
            r.resolved.is_none(),
    {
        MemberRef { class_name, name, descriptor, resolved: None }
    }
}

pub enum Constant {
    /// The second slot of a long or double, or an entry the runtime ignores.
    Empty,
    Integer(i32),
    Float(u32),
    Long(i64),
    Double(u64),
    Str(String),
    ClassReference(ClassRef),
    FieldReference(MemberRef),
    MethodReference(MemberRef),
    InterfaceMethodReference(MemberRef),
}

/// The unresolved entry for one raw entry.
pub open spec fn constant_matches(c: Constant, r: RawConstant) -> bool {
    match r {
        RawConstant::Integer(v) => c == Constant::Integer(v),
        RawConstant::Float(v) => c == Constant::Float(v),
        RawConstant::Long(v) => c == Constant::Long(v),
        RawConstant::Double(v) => c == Constant::Double(v),
        RawConstant::Str(s) => c is Str && c->Str_0@ == s@,
        RawConstant::Class(n) => c is ClassReference && c->ClassReference_0.class_name@ == n@
            && c->ClassReference_0.resolved.is_none(),
        RawConstant::FieldRef(k, n, d) => c is FieldReference && member_matches(
            c->FieldReference_0,
            k,
            n,
            d,
        ),
        RawConstant::MethodRef(k, n, d) => c is MethodReference && member_matches(
            c->MethodReference_0,
            k,
            n,
            d,
        ),
        RawConstant::InterfaceMethodRef(k, n, d) => c is InterfaceMethodReference
            && member_matches(c->InterfaceMethodReference_0, k, n, d),
        RawConstant::Other => c is Empty,
    }
}

pub open spec fn member_matches(m: MemberRef, k: String, n: String, d: String) -> bool {
    m.class_name@ == k@ && m.name@ == n@ && m.descriptor@ == d@ && m.resolved.is_none()
}

pub open spec fn is_wide_raw(r: RawConstant) -> bool {
    r is Long || r is Double
}

/// Number of pool positions taken by the raw entries: two for a long or a
/// double, one for any other.
pub open spec fn pool_width(raw: Seq<RawConstant>) -> int
    decreases raw.len(),
{
    if raw.len() == 0 {
        0
    } else {
        pool_width(raw.drop_last()) + if is_wide_raw(raw.last()) {
            2int
        } else {
            1int
        }
    }
}

/// The pool built from `raw`: each entry at its position, and an `Empty`
/// right after every long and double.
pub open spec fn pool_built_from(pool: Seq<Constant>, raw: Seq<RawConstant>) -> bool
    decreases raw.len(),
{
    if raw.len() == 0 {
        pool.len() == 0
    } else {
        let w = if is_wide_raw(raw.last()) {
            2int
        } else {
            1int
        };
        &&& pool.len() == pool_width(raw)
        &&& pool_built_from(pool.subrange(0, pool.len() - w), raw.drop_last())
        &&& constant_matches(pool[pool.len() - w], raw.last())
        &&& w == 2 ==> pool.last() is Empty
    }
}

pub struct ConstantPool {
    pub constants: Vec<Constant>,
}

impl View for ConstantPool {
    type V = Seq<Constant>;

    open spec fn view(&self) -> Seq<Constant> {
        self.constants@
    }
}

fn convert(r: &RawConstant) -> (c: Constant)
    ensures
        constant_matches(c, *r),
{
    match r {
        RawConstant::Integer(v) => Constant::Integer(*v),
        RawConstant::Float(v) => Constant::Float(*v),
        RawConstant::Long(v) => Constant::Long(*v),
        RawConstant::Double(v) => Constant::Double(*v),
        RawConstant::Str(s) => Constant::Str(s.clone()),
        RawConstant::Class(n) => Constant::ClassReference(ClassRef::new_class_ref(n.clone())),
        RawConstant::FieldRef(k, n, d) => Constant::FieldReference(
            MemberRef::new_member_ref(k.clone(), n.clone(), d.clone()),
        ),
        RawConstant::MethodRef(k, n, d) => Constant::MethodReference(
            MemberRef::new_member_ref(k.clone(), n.clone(), d.clone()),
        ),
        RawConstant::InterfaceMethodRef(k, n, d) => Constant::InterfaceMethodReference(
            MemberRef::new_member_ref(k.clone(), n.clone(), d.clone()),
        ),
        RawConstant::Other => Constant::Empty,
    }
}

impl ConstantPool {
    pub fn none() -> (r: ConstantPool)
        ensures
            r@.len() == 0,
    {
        ConstantPool { constants: Vec::new() }
    }

    /// Builds the pool, giving a long or a double two consecutive positions.
    pub fn new_constant_pool(raw: &Vec<RawConstant>) -> (r: ConstantPool)
        requires
            pool_width(raw@) <= usize::MAX,
        ensures
            pool_built_from(r@, raw@),
    {
        let mut constants: Vec<Constant> = Vec::new();
        let mut i: usize = 0;
        while i < raw.len()
            invariant
                i <= raw@.len(),
                pool_width(raw@) <= usize::MAX,
                pool_built_from(constants@, raw@.subrange(0, i as int)),
            decreases raw@.len() - i,
        {
            proof {
                let t = raw@.subrange(0, i + 1);
                assert(t.drop_last() =~= raw@.subrange(0, i as int));
                lemma_prefix_width(raw@, i + 1);
            }
            let c = convert(&raw[i]);
            let wide = match &raw[i] {
                RawConstant::Long(_) | RawConstant::Double(_) => true,
                _ => false,
            };
            let ghost before = constants@;
            constants.push(c);
            if wide {
                constants.push(Constant::Empty);
            }
            proof {
                let t = raw@.subrange(0, i + 1);
                let w: int = if wide { 2 } else { 1 };
                lemma_built_len(before, raw@.subrange(0, i as int));
                assert(t.drop_last() =~= raw@.subrange(0, i as int));
                assert(t.last() == raw@[i as int]);
                assert(constants@.subrange(0, constants@.len() - w) =~= before);
                assert(constants@[constants@.len() - w] == c);
                assert(pool_built_from(constants@, t));
            }
            i = i + 1;
        }
        proof {
            assert(raw@.subrange(0, raw@.len() as int) =~= raw@);
        }
        ConstantPool { constants }
    }

    pub fn size(&self) -> (r: usize)
        ensures
            r == self@.len(),
    {
        self.constants.len()
    }

    /// The entry at 1-based `index`, or `None` outside the pool.
    pub fn get_constant(&self, index: usize) -> (r: Option<&Constant>)
        ensures
            r.is_some() == (1 <= index <= self@.len()),
            r.is_some() ==> *r.unwrap() == self@[index - 1],
    {
        if index >= 1 && index <= self.constants.len() {
            Some(&self.constants[index - 1])
        } else {
            None
        }
    }
}

/// A freshly built pool holds no resolution.
pub proof fn lemma_built_unresolved(pool: Seq<Constant>, raw: Seq<RawConstant>)
    requires
        pool_built_from(pool, raw),
    ensures
        forall|i: int| 0 <= i < pool.len() ==> #[trigger] unresolved(pool[i]),
    decreases raw.len(),
{
    if raw.len() > 0 {
        let w: int = if is_wide_raw(raw.last()) { 2 } else { 1 };
        let pre = pool.subrange(0, pool.len() - w);
        lemma_built_unresolved(pre, raw.drop_last());
        assert forall|i: int| 0 <= i < pool.len() implies #[trigger] unresolved(pool[i]) by {
            if i < pool.len() - w {
                assert(pool[i] == pre[i]);
            }
        }
    }
}

/// No reference entry holds a resolution.
pub open spec fn unresolved(e: Constant) -> bool {
    match e {
        Constant::ClassReference(r) => r.resolved.is_none(),
        Constant::FieldReference(m) => m.resolved.is_none(),
        Constant::MethodReference(m) => m.resolved.is_none(),
        Constant::InterfaceMethodReference(m) => m.resolved.is_none(),
        _ => true,
    }
}

proof fn lemma_built_len(pool: Seq<Constant>, raw: Seq<RawConstant>)
    requires
        pool_built_from(pool, raw),
    ensures
        pool.len() == pool_width(raw),
{
}

/// Entry `e` with its resolution memoized as `t`: the class for a class
/// reference, the class and member position for a member reference.
pub open spec fn with_resolution(e: Constant, t: (usize, usize)) -> Constant {
    match e {
        Constant::ClassReference(r) => Constant::ClassReference(
            ClassRef { class_name: r.class_name, resolved: Some(t.0) },
        ),
        Constant::FieldReference(m) => Constant::FieldReference(MemberRef { resolved: Some(t), ..m }),
        Constant::MethodReference(m) => Constant::MethodReference(MemberRef { resolved: Some(t), ..m }),
        Constant::InterfaceMethodReference(m) => Constant::InterfaceMethodReference(
            MemberRef { resolved: Some(t), ..m },
        ),
        _ => e,
    }
}

impl ConstantPool {
    /// Memoizes the target of the reference at 1-based `index`.
    pub fn set_resolved(&mut self, index: usize, t: (usize, usize))
        requires
            1 <= index <= old(self)@.len(),
        ensures
            final(self)@ == old(self)@.update(index - 1, with_resolution(old(self)@[index - 1], t)),
    {
        let mut e = Constant::Empty;
        std::mem::swap(&mut e, &mut self.constants[index - 1]);
        let updated = match e {
            Constant::ClassReference(r) => Constant::ClassReference(
                ClassRef { class_name: r.class_name, resolved: Some(t.0) },
            ),
            Constant::FieldReference(m) => Constant::FieldReference(
                MemberRef { class_name: m.class_name, name: m.name, descriptor: m.descriptor, resolved: Some(t) },
            ),
            Constant::MethodReference(m) => Constant::MethodReference(
                MemberRef { class_name: m.class_name, name: m.name, descriptor: m.descriptor, resolved: Some(t) },
            ),
            Constant::InterfaceMethodReference(m) => Constant::InterfaceMethodReference(
                MemberRef { class_name: m.class_name, name: m.name, descriptor: m.descriptor, resolved: Some(t) },
            ),
            other => other,
        };
        self.constants.set(index - 1, updated);
    }
}

/// Width of a prefix is bounded by the width of the whole.
proof fn lemma_prefix_width(raw: Seq<RawConstant>, n: int)
    requires
        0 <= n <= raw.len(),
    ensures
        pool_width(raw.subrange(0, n)) <= pool_width(raw),
    decreases raw.len() - n,
{
    if n < raw.len() {
        lemma_prefix_width(raw, n + 1);
        let t = raw.subrange(0, n + 1);
        assert(t.drop_last() =~= raw.subrange(0, n));
    } else {
        assert(raw.subrange(0, n) =~= raw);
    }
}

} // verus!
