//! Preparation: slot ids for fields, static storage, and static-final
//! constants written before any code of the class runs.
use vstd::prelude::*;
use crate::class::{Class, Field};
use crate::constant_pool::{Constant, ConstantPool};
use crate::slots::{long_hi, long_lo, Slot, Slots};

verus! {

/// Slots taken by the instance (or, with `stat`, static) fields among the
/// first `k` fields: two for a long or double, one for any other.
pub open spec fn width_before(fields: Seq<Field>, k: int, stat: bool) -> int
    decreases k,
{
    if k <= 0 {
        0
    } else {
        width_before(fields, k - 1, stat) + if fields[k - 1].spec_is_static() == stat {
            fields[k - 1].width()
        } else {
            0int
        }
    }
}

/// The slot id that preparation gives field `k` of a class whose superclass
/// has `base` instance slots.
pub open spec fn slot_of(fields: Seq<Field>, k: int, base: int) -> int {
    if fields[k].spec_is_static() {
        width_before(fields, k, true)
    } else {
        base + width_before(fields, k, false)
    }
}

/// The layout depends on the fields' flags and descriptors alone.
pub proof fn lemma_width_before_same(a: Seq<Field>, b: Seq<Field>, k: int, stat: bool)
    requires
        0 <= k <= a.len(),
        a.len() == b.len(),
        forall|j: int|
            0 <= j < a.len() ==> (#[trigger] a[j]).access_flags == b[j].access_flags && a[j].descriptor@
                == b[j].descriptor@,
    ensures
        width_before(a, k, stat) == width_before(b, k, stat),
    decreases k,
{
    if k > 0 {
        lemma_width_before_same(a, b, k - 1, stat);
        assert(a[k - 1].access_flags == b[k - 1].access_flags);
    }
}

pub proof fn lemma_width_before_bounds(fields: Seq<Field>, k: int, stat: bool)
    requires
        0 <= k <= fields.len(),
    ensures
        0 <= width_before(fields, k, stat) <= 2 * k,
    decreases k,
{
    if k > 0 {
        lemma_width_before_bounds(fields, k - 1, stat);
    }
}

/// Fields of one kind laid out earlier end at or before the later ones start.
pub proof fn lemma_width_before_monotone(fields: Seq<Field>, j: int, k: int, stat: bool)
    requires
        0 <= j < k <= fields.len(),
        fields[j].spec_is_static() == stat,
    ensures
        width_before(fields, j, stat) + fields[j].width() <= width_before(fields, k, stat),
    decreases k - j,
{
    if k > j + 1 {
        lemma_width_before_monotone(fields, j, k - 1, stat);
    }
}

/// The value that a static-final field's constant places in static storage.
/// A long or double constant is written only into a two-slot field.
pub open spec fn const_slots_hold(
    vars: Seq<crate::slots::Slot>,
    slot: int,
    c: Constant,
    wide: bool,
) -> bool {
    match c {
        Constant::Integer(v) => vars[slot].num == v,
        Constant::Float(v) => vars[slot].num == v as i32,
        Constant::Long(v) => wide ==> vars[slot].num == long_lo(v) && vars[slot + 1].num == long_hi(
            v,
        ),
        Constant::Double(v) => wide ==> vars[slot].num == long_lo(v as i64) && vars[slot + 1].num
            == long_hi(v as i64),
        _ => true,
    }
}

/// Field `k` is static, final, and has a constant value in the pool.
pub open spec fn has_static_constant(c: Class, k: int) -> bool {
    let f = c.fields@[k];
    f.spec_is_static() && crate::access::has_flag(f.access_flags, crate::access::FINAL)
        && 1 <= f.const_value_index <= c.constant_pool@.len()
}

/// Static slot `s` lies in one of the first `i` fields that is static,
/// final and has a constant in `pool`.
pub open spec fn constant_covers(fields: Seq<Field>, pool: Seq<Constant>, i: int, s: int) -> bool
    decreases i,
{
    if i <= 0 {
        false
    } else {
        let f = fields[i - 1];
        constant_covers(fields, pool, i - 1, s) || (f.spec_is_static() && crate::access::has_flag(
            f.access_flags,
            crate::access::FINAL,
        ) && 1 <= f.const_value_index <= pool.len() && f.slot_id <= s < f.slot_id + f.width())
    }
}

pub struct ClassPreparation {}

impl ClassPreparation {
    /// Lays out `class`, whose superclass has `super_slots` instance slots:
    /// instance fields continue after the inherited ones, static fields
    /// count from 0, and static storage is allocated and given the
    /// static-final constants in declaration order.
    pub fn prepare(class: &mut Class, super_slots: usize)
        requires
            super_slots + 2 * old(class).fields@.len() <= usize::MAX,
        ensures
            final(class).fields@.len() == old(class).fields@.len(),
            forall|k: int|
                0 <= k < old(class).fields@.len() ==> {
                    let f = #[trigger] final(class).fields@[k];
                    let g = old(class).fields@[k];
                    &&& f.access_flags == g.access_flags
                    &&& f.name@ == g.name@
                    &&& f.descriptor@ == g.descriptor@
                    &&& f.const_value_index == g.const_value_index
                    &&& f.slot_id == slot_of(old(class).fields@, k, super_slots as int)
                },
            final(class).instance_slot_count == super_slots + width_before(
                old(class).fields@,
                old(class).fields@.len() as int,
                false,
            ),
            final(class).static_slot_count == width_before(
                old(class).fields@,
                old(class).fields@.len() as int,
                true,
            ),
            final(class).static_vars@.len() == final(class).static_slot_count,
            forall|s: int|
                0 <= s < final(class).static_vars@.len() && !constant_covers(
                    final(class).fields@,
                    final(class).constant_pool@,
                    final(class).fields@.len() as int,
                    s,
                ) ==> #[trigger] final(class).static_vars@[s] == Slot::zero(),
            forall|k: int|
                0 <= k < old(class).fields@.len() && #[trigger] has_static_constant(*final(class), k)
                    ==> const_slots_hold(
                    final(class).static_vars@,
                    final(class).fields@[k].slot_id as int,
                    final(class).constant_pool@[final(class).fields@[k].const_value_index - 1],
                    final(class).fields@[k].width() == 2,
                ),
            final(class).methods == old(class).methods,
            final(class).constant_pool == old(class).constant_pool,
            final(class).name == old(class).name,
            final(class).access_flags == old(class).access_flags,
            final(class).super_class == old(class).super_class,
            final(class).interfaces == old(class).interfaces,
            final(class).initialized == old(class).initialized,
            final(class).source_file == old(class).source_file,
    {
        let ghost fs = class.fields@;
        let mut fields: Vec<Field> = Vec::new();
        std::mem::swap(&mut fields, &mut class.fields);
        let mut inst: usize = super_slots;
        let mut stat: usize = 0;
        let mut i: usize = 0;
        let n = fields.len();
        while i < n
            invariant
                n == fs.len(),
                fields@.len() == n,
                i <= n,
                super_slots + 2 * n <= usize::MAX,
                inst == super_slots + width_before(fs, i as int, false),
                stat == width_before(fs, i as int, true),
                forall|k: int|
                    0 <= k < n ==> {
                        let f = #[trigger] fields@[k];
                        &&& f.access_flags == fs[k].access_flags
                        &&& f.name@ == fs[k].name@
                        &&& f.descriptor@ == fs[k].descriptor@
                        &&& f.const_value_index == fs[k].const_value_index
                        &&& k < i ==> f.slot_id == slot_of(fs, k, super_slots as int)
                    },
            decreases n - i,
        {
            proof {
                lemma_width_before_bounds(fs, i as int, false);
                lemma_width_before_bounds(fs, i as int, true);
            }
            let is_static = fields[i].is_static();
            let w: usize = if fields[i].is_long_or_double() { 2 } else { 1 };
            let ghost before = fields@;
            if is_static {
                let f = &mut fields[i];
                f.slot_id = stat;
                stat = stat + w;
            } else {
                let f = &mut fields[i];
                f.slot_id = inst;
                inst = inst + w;
            }
            proof {
                assert forall|k: int| 0 <= k < n && k != i implies fields@[k] == before[k] by {}
            }
            i = i + 1;
        }
        class.fields = fields;
        class.instance_slot_count = inst;
        class.static_slot_count = stat;
        proof {
            assert forall|j: int, k: int|
                0 <= j < k < n && (#[trigger] class.fields@[j]).spec_is_static()
                    && (#[trigger] class.fields@[k]).spec_is_static() implies class.fields@[j].slot_id
                + class.fields@[j].width() <= class.fields@[k].slot_id by {
                lemma_width_before_monotone(fs, j, k, true);
            }
            assert forall|k: int|
                0 <= k < n && (#[trigger] class.fields@[k]).spec_is_static() implies class.fields@[k].slot_id
                + class.fields@[k].width() <= class.static_slot_count by {
                lemma_width_before_monotone(fs, k, n as int, true);
            }
        }
        Self::alloc_and_init_static_vars(class);
    }

    /// Allocates static storage and writes each static-final constant into
    /// its field's slots.
    fn alloc_and_init_static_vars(class: &mut Class)
        requires
            forall|j: int, k: int|
                0 <= j < k < old(class).fields@.len() && (#[trigger] old(class).fields@[j]).spec_is_static()
                    && (#[trigger] old(class).fields@[k]).spec_is_static() ==> old(class).fields@[j].slot_id
                    + old(class).fields@[j].width() <= old(class).fields@[k].slot_id,
            forall|k: int|
                0 <= k < old(class).fields@.len() && (#[trigger] old(class).fields@[k]).spec_is_static()
                    ==> old(class).fields@[k].slot_id + old(class).fields@[k].width()
                    <= old(class).static_slot_count,
        ensures
            final(class).fields == old(class).fields,
            final(class).static_vars@.len() == old(class).static_slot_count,
            forall|k: int|
                0 <= k < old(class).fields@.len() && #[trigger] has_static_constant(*final(class), k)
                    ==> const_slots_hold(
                    final(class).static_vars@,
                    final(class).fields@[k].slot_id as int,
                    final(class).constant_pool@[final(class).fields@[k].const_value_index - 1],
                    final(class).fields@[k].width() == 2,
                ),
            final(class).methods == old(class).methods,
            final(class).constant_pool == old(class).constant_pool,
            final(class).name == old(class).name,
            final(class).access_flags == old(class).access_flags,
            final(class).super_class == old(class).super_class,
            final(class).interfaces == old(class).interfaces,
            final(class).initialized == old(class).initialized,
            final(class).source_file == old(class).source_file,
            final(class).instance_slot_count == old(class).instance_slot_count,
            final(class).static_slot_count == old(class).static_slot_count,
            forall|s: int|
                0 <= s < final(class).static_vars@.len() && !constant_covers(
                    final(class).fields@,
                    final(class).constant_pool@,
                    final(class).fields@.len() as int,
                    s,
                ) ==> #[trigger] final(class).static_vars@[s] == Slot::zero(),
    {
        let mut vars = Slots::with_capacity(class.static_slot_count);
        let n = class.fields.len();
        let mut i: usize = 0;
        while i < n
            invariant
                n == class.fields@.len(),
                i <= n,
                vars@.len() == class.static_slot_count,
                forall|j: int, k: int|
                    0 <= j < k < n && (#[trigger] class.fields@[j]).spec_is_static()
                        && (#[trigger] class.fields@[k]).spec_is_static() ==> class.fields@[j].slot_id
                        + class.fields@[j].width() <= class.fields@[k].slot_id,
                forall|k: int|
                    0 <= k < n && (#[trigger] class.fields@[k]).spec_is_static()
                        ==> class.fields@[k].slot_id + class.fields@[k].width()
                        <= class.static_slot_count,
                forall|k: int|
                    0 <= k < i && #[trigger] has_static_constant(*class, k) ==> const_slots_hold(
                        vars@,
                        class.fields@[k].slot_id as int,
                        class.constant_pool@[class.fields@[k].const_value_index - 1],
                        class.fields@[k].width() == 2,
                    ),
                forall|s: int|
                    0 <= s < vars@.len() && !constant_covers(class.fields@, class.constant_pool@, i as int, s)
                        ==> #[trigger] vars@[s] == Slot::zero(),
            decreases n - i,
        {
            let f = &class.fields[i];
            if f.is_static() && f.is_final() {
                let ghost old_vars = vars@;
                Self::init_static_final_var(&mut vars, f, &class.constant_pool);
                proof {
                    assert forall|s: int|
                        0 <= s < vars@.len() && !constant_covers(class.fields@, class.constant_pool@, i + 1, s)
                            implies #[trigger] vars@[s] == Slot::zero() by {
                        assert(!constant_covers(class.fields@, class.constant_pool@, i as int, s));
                        assert(vars@[s] == old_vars[s]);
                    }
                    assert forall|k: int|
                        0 <= k < i && #[trigger] has_static_constant(*class, k) implies const_slots_hold(
                        vars@,
                        class.fields@[k].slot_id as int,
                        class.constant_pool@[class.fields@[k].const_value_index - 1],
                        class.fields@[k].width() == 2,
                    ) by {
                        let sk = class.fields@[k].slot_id as int;
                        assert(class.fields@[k].spec_is_static());
                        assert(class.fields@[i as int].spec_is_static());
                        assert(sk + class.fields@[k].width() <= f.slot_id);
                        assert(vars@[sk] == old_vars[sk]);
                        if class.fields@[k].width() == 2 {
                            assert(vars@[sk + 1] == old_vars[sk + 1]);
                        }
                    }
                }
            }
            i = i + 1;
        }
        let ghost pre = *class;
        class.static_vars = vars;
        proof {
            assert forall|k: int|
                0 <= k < n && #[trigger] has_static_constant(*class, k) implies const_slots_hold(
                class.static_vars@,
                class.fields@[k].slot_id as int,
                class.constant_pool@[class.fields@[k].const_value_index - 1],
                class.fields@[k].width() == 2,
            ) by {
                assert(has_static_constant(pre, k));
            }
        }
    }

    /// Writes the constant of one static-final field into its slots; other
    /// slots keep their values.
    fn init_static_final_var(vars: &mut Slots, f: &Field, pool: &ConstantPool)
        requires
            f.spec_is_static(),
            f.slot_id + f.width() <= old(vars)@.len(),
        ensures
            final(vars)@.len() == old(vars)@.len(),
            forall|s: int|
                0 <= s < old(vars)@.len() && !(f.slot_id <= s < f.slot_id + f.width())
                    ==> #[trigger] final(vars)@[s] == old(vars)@[s],
            1 <= f.const_value_index <= pool@.len() ==> const_slots_hold(
                final(vars)@,
                f.slot_id as int,
                pool@[f.const_value_index - 1],
                f.width() == 2,
            ),
            !(1 <= f.const_value_index <= pool@.len()) ==> final(vars)@ == old(vars)@,
    {
        let wide = f.is_long_or_double();
        match pool.get_constant(f.const_value_index) {
            Some(Constant::Integer(v)) => vars.set_int(f.slot_id, *v),
            Some(Constant::Float(v)) => vars.set_int(f.slot_id, *v as i32),
            Some(Constant::Long(v)) => {
                if wide {
                    vars.set_long(f.slot_id, *v);
                }
            },
            Some(Constant::Double(v)) => {
                if wide {
                    vars.set_long(f.slot_id, *v as i64);
                }
            },
            _ => {},
        }
    }
}

} // verus!
