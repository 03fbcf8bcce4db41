//! Typed slot storage shared by local variables, static and instance fields,
//! and the operand stack. An int, a float (as its bits) or a reference takes
//! one slot; a long or a double (as its bits) takes two consecutive slots.
use vstd::prelude::*;

verus! {

/// One storage cell: a 32-bit number or a heap reference.
#[derive(Clone, Copy, PartialEq, Eq, Structural, Debug)]
pub struct Slot {
    pub num: i32,
    pub reference: Option<usize>,
}

impl Slot {
    pub open spec fn zero() -> Slot {
        Slot { num: 0, reference: None }
    }

    pub fn empty() -> (r: Slot)
        ensures
            r == Slot::zero(),
    {
        Slot { num: 0, reference: None }
    }
}

/// Low half of a long, as stored in its first slot.
pub open spec fn long_lo(v: i64) -> i32 {
    v as i32
}

/// High half of a long, as stored in its second slot.
pub open spec fn long_hi(v: i64) -> i32 {
    (v >> 32u64) as i32
}

/// The long whose halves are `lo` and `hi`.
pub open spec fn join_long(lo: i32, hi: i32) -> i64 {
    ((hi as i64) << 32u64) | (lo as u32 as i64)
}

/// Splitting a long into two slots and joining them gives the long back.
pub proof fn lemma_long_halves(v: i64)
    ensures
        join_long(long_lo(v), long_hi(v)) == v,
{
    assert(((((v >> 32u64) as i32) as i64) << 32u64) | ((v as i32) as u32 as i64) == v)
        by (bit_vector);
}

fn split_long(v: i64) -> (r: (i32, i32))
    ensures
        r.0 == long_lo(v),
        r.1 == long_hi(v),
{
    (v as i32, (v >> 32u64) as i32)
}

fn join(lo: i32, hi: i32) -> (r: i64)
    ensures
        r == join_long(lo, hi),
{
    ((hi as i64) << 32u64) | (lo as u32 as i64)
}

/// A fixed-size region of slots addressed by slot id.
pub struct Slots {
    pub slots: Vec<Slot>,
}

impl View for Slots {
    type V = Seq<Slot>;

    open spec fn view(&self) -> Seq<Slot> {
        self.slots@
    }
}

impl Slots {
    /// `n` slots, each holding zero and no reference.
    pub fn with_capacity(n: usize) -> (r: Slots)
        ensures
            r@ == Seq::new(n as nat, |i: int| Slot::zero()),
    {
        let mut v: Vec<Slot> = Vec::new();
        let mut i: usize = 0;
        while i < n
            invariant
                i <= n,
                v@ == Seq::new(i as nat, |k: int| Slot::zero()),
            decreases n - i,
        {
            v.push(Slot::empty());
            i = i + 1;
            assert(v@ =~= Seq::new(i as nat, |k: int| Slot::zero()));
        }
        Slots { slots: v }
    }

    pub fn len(&self) -> (r: usize)
        ensures
            r == self@.len(),
    {
        self.slots.len()
    }

    pub fn set_int(&mut self, index: usize, v: i32)
        requires
            index < old(self)@.len(),
        ensures
            final(self)@ == old(self)@.update(index as int, Slot { num: v, reference: None }),
    {
        self.slots.set(index, Slot { num: v, reference: None });
    }

    pub fn get_int(&self, index: usize) -> (r: i32)
        requires
            index < self@.len(),
        ensures
            r == self@[index as int].num,
    {
        self.slots[index].num
    }

    pub fn set_ref(&mut self, index: usize, v: Option<usize>)
        requires
            index < old(self)@.len(),
        ensures
            final(self)@ == old(self)@.update(index as int, Slot { num: 0, reference: v }),
    {
        self.slots.set(index, Slot { num: 0, reference: v });
    }

    pub fn get_ref(&self, index: usize) -> (r: Option<usize>)
        requires
            index < self@.len(),
        ensures
            r == self@[index as int].reference,
    {
        self.slots[index].reference
    }

    pub fn set_slot(&mut self, index: usize, s: Slot)
        requires
            index < old(self)@.len(),
        ensures
            final(self)@ == old(self)@.update(index as int, s),
    {
        self.slots.set(index, s);
    }

    pub fn get_slot(&self, index: usize) -> (r: Slot)
        requires
            index < self@.len(),
        ensures
            r == self@[index as int],
    {
        self.slots[index]
    }

    /// Stores a long in slots `index` (low half) and `index + 1` (high half).
    pub fn set_long(&mut self, index: usize, v: i64)
        requires
            index + 1 < old(self)@.len(),
        ensures
            final(self)@ == old(self)@.update(index as int, Slot { num: long_lo(v), reference: None }).update(
                index + 1,
                Slot { num: long_hi(v), reference: None },
            ),
    {
        let (lo, hi) = split_long(v);
        let _n = self.slots.len();
        self.slots.set(index, Slot { num: lo, reference: None });
        self.slots.set(index + 1, Slot { num: hi, reference: None });
    }

    pub fn get_long(&self, index: usize) -> (r: i64)
        requires
            index + 1 < self@.len(),
        ensures
            r == join_long(self@[index as int].num, self@[index + 1].num),
    {
        let _n = self.slots.len();
        join(self.slots[index].num, self.slots[index + 1].num)
    }
}

/// Per-frame operand stack; its top is the last element.
pub struct OperandStack {
    pub slots: Vec<Slot>,
}

impl View for OperandStack {
    type V = Seq<Slot>;

    open spec fn view(&self) -> Seq<Slot> {
        self.slots@
    }
}

impl OperandStack {
    pub fn new() -> (r: OperandStack)
        ensures
            r@ == Seq::<Slot>::empty(),
    {
        OperandStack { slots: Vec::new() }
    }

    pub fn size(&self) -> (r: usize)
        ensures
            r == self@.len(),
    {
        self.slots.len()
    }

    pub fn push_slot(&mut self, s: Slot)
        ensures
            final(self)@ == old(self)@.push(s),
    {
        self.slots.push(s);
    }

    pub fn pop_slot(&mut self) -> (r: Slot)
        requires
            old(self)@.len() > 0,
        ensures
            r == old(self)@.last(),
            final(self)@ == old(self)@.drop_last(),
    {
        self.slots.pop().unwrap()
    }

    pub fn push_int(&mut self, v: i32)
        ensures
            final(self)@ == old(self)@.push(Slot { num: v, reference: None }),
    {
        self.slots.push(Slot { num: v, reference: None });
    }

    pub fn pop_int(&mut self) -> (r: i32)
        requires
            old(self)@.len() > 0,
        ensures
            r == old(self)@.last().num,
            final(self)@ == old(self)@.drop_last(),
    {
        self.pop_slot().num
    }

    pub fn push_ref(&mut self, v: Option<usize>)
        ensures
            final(self)@ == old(self)@.push(Slot { num: 0, reference: v }),
    {
        self.slots.push(Slot { num: 0, reference: v });
    }

    pub fn pop_ref(&mut self) -> (r: Option<usize>)
        requires
            old(self)@.len() > 0,
        ensures
            r == old(self)@.last().reference,
            final(self)@ == old(self)@.drop_last(),
    {
        self.pop_slot().reference
    }

    /// Pushes a long as two slots: low half, then high half on top.
    pub fn push_long(&mut self, v: i64)
        ensures
            final(self)@ == old(self)@.push(Slot { num: long_lo(v), reference: None }).push(
                Slot { num: long_hi(v), reference: None },
            ),
    {
        let (lo, hi) = split_long(v);
        self.slots.push(Slot { num: lo, reference: None });
        self.slots.push(Slot { num: hi, reference: None });
    }

    pub fn pop_long(&mut self) -> (r: i64)
        requires
            old(self)@.len() >= 2,
        ensures
            r == join_long(old(self)@[old(self)@.len() - 2].num, old(self)@.last().num),
            final(self)@ == old(self)@.subrange(0, old(self)@.len() - 2),
    {
        let hi = self.pop_slot().num;
        let lo = self.pop_slot().num;
        join(lo, hi)
    }

    /// Pops the top `n` slots, returned bottom first.
    pub fn pop_n(&mut self, n: usize) -> (r: Vec<Slot>)
        requires
            n <= old(self)@.len(),
        ensures
            r@ == old(self)@.subrange(old(self)@.len() - n, old(self)@.len() as int),
            final(self)@ == old(self)@.subrange(0, old(self)@.len() - n),
    {
        let at = self.slots.len() - n;
        self.slots.split_off(at)
    }

    pub fn clear(&mut self)
        ensures
            final(self)@ == Seq::<Slot>::empty(),
    {
        self.slots.clear();
    }

    /// The reference `n` slots below the top (0 is the top).
    pub fn get_ref_from_top(&self, n: usize) -> (r: Option<usize>)
        requires
            n < self@.len(),
        ensures
            r == self@[self@.len() - 1 - n].reference,
    {
        self.slots[self.slots.len() - 1 - n].reference
    }
}

/// A long pushed on the operand stack is popped back unchanged.
pub proof fn lemma_stack_long_round_trip(s: Seq<Slot>, v: i64)
    ensures
        ({
            let t = s.push(Slot { num: long_lo(v), reference: None }).push(
                Slot { num: long_hi(v), reference: None },
            );
            join_long(t[t.len() - 2].num, t.last().num) == v && t.subrange(0, t.len() - 2) =~= s
        }),
{
    lemma_long_halves(v);
}

} // verus!
