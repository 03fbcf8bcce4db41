//! Calling a Java method from the host: arguments in, one return value out.
use vstd::prelude::*;
use crate::jvm::{class_named, Jvm, Step};
use crate::slots::{join_long, long_hi, long_lo, Slot};
use crate::heap::{ArrayData, Object, ObjectData};
use crate::thread::Frame;
use vstd::string::*;

verus! {

/// An argument handed to a method from the host; floats and doubles as bits.
#[derive(Clone, Copy, PartialEq, Eq, Structural, Debug)]
pub enum Parameter {
    Boolean(bool),
    Byte(i8),
    Short(i16),
    Int(i32),
    Long(i64),
    Float(u32),
    Double(u64),
    Char(u16),
    Object(Option<usize>),
}

/// The kind of value a method returns.
#[derive(Clone, Copy, PartialEq, Eq, Structural, Debug)]
pub enum ReturnType {
    Void,
    Boolean,
    Byte,
    Short,
    Int,
    Long,
    Float,
    Double,
    Char,
    Object,
}

/// A method's result as the host receives it; floats and doubles as bits.
#[derive(Clone, Copy, PartialEq, Eq, Structural, Debug)]
pub enum ReturnValue {
    Void,
    Boolean(bool),
    Byte(i8),
    Short(i16),
    Int(i32),
    Long(i64),
    Float(u32),
    Double(u64),
    Char(u16),
    Object(Option<usize>),
}

pub open spec fn int_slot(v: i32) -> Slot {
    Slot { num: v, reference: None }
}

/// The slots an argument takes: two for a long or a double.
pub open spec fn param_slots_of(p: Parameter) -> Seq<Slot> {
    match p {
        Parameter::Boolean(b) => seq![int_slot(if b { 1 } else { 0 })],
        Parameter::Byte(v) => seq![int_slot(v as i32)],
        Parameter::Short(v) => seq![int_slot(v as i32)],
        Parameter::Int(v) => seq![int_slot(v)],
        Parameter::Long(v) => seq![int_slot(long_lo(v)), int_slot(long_hi(v))],
        Parameter::Float(v) => seq![int_slot(v as i32)],
        Parameter::Double(v) => seq![int_slot(long_lo(v as i64)), int_slot(long_hi(v as i64))],
        Parameter::Char(v) => seq![int_slot(v as i32)],
        Parameter::Object(r) => seq![Slot { num: 0, reference: r }],
    }
}

/// The local variables that the arguments fill, in order.
pub open spec fn encode_params(ps: Seq<Parameter>) -> Seq<Slot>
    decreases ps.len(),
{
    if ps.len() == 0 {
        Seq::empty()
    } else {
        encode_params(ps.drop_last()) + param_slots_of(ps.last())
    }
}

fn slots_of(p: Parameter) -> (r: Vec<Slot>)
    ensures
        r@ == param_slots_of(p),
{
    let mut v: Vec<Slot> = Vec::new();
    match p {
        Parameter::Boolean(b) => v.push(Slot { num: if b { 1 } else { 0 }, reference: None }),
        Parameter::Byte(x) => v.push(Slot { num: x as i32, reference: None }),
        Parameter::Short(x) => v.push(Slot { num: x as i32, reference: None }),
        Parameter::Int(x) => v.push(Slot { num: x, reference: None }),
        Parameter::Long(x) => {
            v.push(Slot { num: x as i32, reference: None });
            v.push(Slot { num: (x >> 32u64) as i32, reference: None });
        },
        Parameter::Float(x) => v.push(Slot { num: x as i32, reference: None }),
        Parameter::Double(x) => {
            let y = x as i64;
            v.push(Slot { num: y as i32, reference: None });
            v.push(Slot { num: (y >> 32u64) as i32, reference: None });
        },
        Parameter::Char(x) => v.push(Slot { num: x as i32, reference: None }),
        Parameter::Object(r) => v.push(Slot { num: 0, reference: r }),
    }
    assert(v@ =~= param_slots_of(p));
    v
}

/// The local-variable slots for `params`, in order.
pub fn prepare_parameter(params: &Vec<Parameter>) -> (r: Vec<Slot>)
    ensures
        r@ == encode_params(params@),
{
    let mut out: Vec<Slot> = Vec::new();
    let mut i: usize = 0;
    while i < params.len()
        invariant
            i <= params@.len(),
            out@ == encode_params(params@.subrange(0, i as int)),
        decreases params@.len() - i,
    {
        let mut s = slots_of(params[i]);
        let ghost before = out@;
        out.append(&mut s);
        proof {
            let t = params@.subrange(0, i + 1);
            assert(t.drop_last() =~= params@.subrange(0, i as int));
            assert(out@ =~= encode_params(t));
        }
        i = i + 1;
    }
    assert(params@.subrange(0, params@.len() as int) =~= params@);
    out
}

/// `r` refers to a string object of `heap` holding `s`.
pub open spec fn holds_string(heap: Seq<Object>, r: Option<usize>, s: Seq<char>) -> bool {
    match r {
        Some(p) => p < heap.len() && (heap[p as int].data matches ObjectData::Str(t) && t@ == s),
        None => false,
    }
}

/// The value of type `rt` on top of `st`; `None` when `st` holds too few
/// slots. Narrow types keep the low bits of the int slot; floats and
/// doubles are read as bits.
pub open spec fn return_value_of(st: Seq<Slot>, rt: ReturnType) -> Option<ReturnValue> {
    let n = st.len();
    let need: int = match rt {
        ReturnType::Void => 0,
        ReturnType::Long | ReturnType::Double => 2,
        _ => 1,
    };
    if n < need {
        None
    } else {
        Some(
            match rt {
                ReturnType::Void => ReturnValue::Void,
                ReturnType::Boolean => ReturnValue::Boolean(st.last().num != 0),
                ReturnType::Byte => ReturnValue::Byte(st.last().num as i8),
                ReturnType::Short => ReturnValue::Short(st.last().num as i16),
                ReturnType::Int => ReturnValue::Int(st.last().num),
                ReturnType::Long => ReturnValue::Long(join_long(st[n - 2].num, st.last().num)),
                ReturnType::Float => ReturnValue::Float(st.last().num as u32),
                ReturnType::Double => ReturnValue::Double(join_long(st[n - 2].num, st.last().num) as u64),
                ReturnType::Char => ReturnValue::Char(st.last().num as u16),
                ReturnType::Object => ReturnValue::Object(st.last().reference),
            },
        )
    }
}

impl Jvm {
    /// The `String[]` handed to `main`: one interned string per argument.
    /// The classes `java/lang/String` and `[Ljava/lang/String;` must be
    /// loaded; `NeedsClass` names the first one that is not.
    pub fn create_args_array(&mut self, args: &Vec<String>) -> (r: Result<usize, Step>)
        requires
            old(self).wf(),
        ensures
            final(self).wf(),
            final(self).loader == old(self).loader,
            final(self).main_thread == old(self).main_thread,
            r matches Ok(o) ==> o < final(self).heap@.len() && final(self).heap@[o as int].class == class_named(
                old(self).loader@,
                "[Ljava/lang/String;"@,
            ).unwrap() && (final(self).heap@[o as int].data matches ObjectData::Array(ArrayData::References(v))
                && v@.len() == args@.len() && forall|k: int|
                0 <= k < args@.len() ==> #[trigger] holds_string(final(self).heap@, v@[k], args@[k]@)),
            class_named(old(self).loader@, "[Ljava/lang/String;"@) is None ==> (r matches Err(Step::NeedsClass(n))
                && n@ == "[Ljava/lang/String;"@) && *final(self) == *old(self),
            (class_named(old(self).loader@, "[Ljava/lang/String;"@) is Some && class_named(
                old(self).loader@,
                "java/lang/String"@,
            ) is Some) ==> r.is_ok(),
            (r.is_err() && class_named(old(self).loader@, "[Ljava/lang/String;"@) is Some) ==> (r matches Err(
                Step::NeedsClass(n),
            ) && n@ == "java/lang/String"@),
    {
        let found = self.loader.find_class("[Ljava/lang/String;");
        proof {
            crate::class_loader::lemma_find_is_named(self.loader@, "[Ljava/lang/String;"@, found);
        }
        let ac = match found {
            Some(c) => c,
            None => {
                return Err(Step::NeedsClass(String::from_str("[Ljava/lang/String;")));
            },
        };
        let mut refs: Vec<Option<usize>> = Vec::new();
        let mut k: usize = 0;
        while k < args.len()
            invariant
                self.wf(),
                self.loader == old(self).loader,
                self.main_thread == old(self).main_thread,
                k <= args@.len(),
                refs@.len() == k,
                ac < self.loader@.len(),
                Some(ac) == class_named(old(self).loader@, "[Ljava/lang/String;"@),
                forall|j: int| 0 <= j < k ==> #[trigger] holds_string(self.heap@, refs@[j], args@[j]@),
            decreases args@.len() - k,
        {
            let ghost h0 = self.heap@;
            match self.intern_string(&args[k]) {
                Ok(o) => {
                    refs.push(Some(o));
                    proof {
                        assert forall|j: int| 0 <= j < k + 1 implies #[trigger] holds_string(
                            self.heap@,
                            refs@[j],
                            args@[j]@,
                        ) by {
                            if j < k {
                                assert(holds_string(h0, refs@[j], args@[j]@));
                                let p = refs@[j].unwrap() as int;
                                assert(self.heap@[p] == h0[p]);
                            }
                        }
                    }
                },
                Err(crate::jvm::Interrupt::NeedsClass(n)) => {
                    return Err(Step::NeedsClass(n));
                },
                Err(_) => {
                    return Err(Step::Fault);
                },
            }
            k = k + 1;
        }
        let o = self.heap.len();
        let ghost h0 = self.heap@;
        let ghost rv = refs@;
        self.heap.push(Object { class: ac, data: ObjectData::Array(ArrayData::References(refs)) });
        proof {
            assert forall|j: int| 0 <= j < args@.len() implies #[trigger] holds_string(self.heap@, rv[j], args@[j]@) by {
                assert(holds_string(h0, rv[j], args@[j]@));
                let p = rv[j].unwrap() as int;
                assert(self.heap@[p] == h0[p]);
            }
        }
        Ok(o)
    }

    /// Sets up a call of method `m` of class `c`: a frame that will receive
    /// the result, and above it the method's frame with the arguments in
    /// its first locals. Run the thread down to the receiving frame, then
    /// take the result with `finish_invoke`.
    pub fn begin_invoke(&mut self, c: usize, m: usize, params: &Vec<Parameter>)
        requires
            old(self).wf(),
            c < old(self).loader@.len(),
            m < old(self).loader@[c as int].methods@.len(),
        ensures
            final(self).wf(),
            final(self).loader == old(self).loader,
            final(self).heap == old(self).heap,
            final(self).main_thread.frames@.len() == old(self).main_thread.frames@.len() + 2,
            final(self).main_thread.frames@.last().class == c,
            final(self).main_thread.frames@.last().method == m,
            final(self).main_thread.frames@.last().next_pc == 0,
            final(self).main_thread.frames@.last().local_vars@.subrange(0, encode_params(params@).len() as int)
                == encode_params(params@),
    {
        let args = prepare_parameter(params);
        let max_locals = self.loader.classes[c].methods[m].max_locals;
        let n = if max_locals < args.len() { args.len() } else { max_locals };
        let mut f = Frame::new(c, m, n);
        let mut i: usize = 0;
        while i < args.len()
            invariant
                i <= args@.len() <= n,
                f.class == c,
                f.method == m,
                f.next_pc == 0,
                f.local_vars@.len() == n,
                forall|k: int| 0 <= k < i ==> #[trigger] f.local_vars@[k] == args@[k],
            decreases args@.len() - i,
        {
            f.local_vars.set_slot(i, args[i]);
            i = i + 1;
        }
        assert(f.local_vars@.subrange(0, args@.len() as int) =~= args@);
        self.main_thread.push_frame(Frame::new(c, m, 0));
        self.main_thread.push_frame(f);
    }

    /// Takes the result of a call set up by `begin_invoke` once the thread
    /// has run down to the receiving frame: that frame is popped and its
    /// top slots read as a value of type `rt`. `None` when there is no frame
    /// or too few slots.
    pub fn finish_invoke(&mut self, rt: ReturnType) -> (r: Option<ReturnValue>)
        requires
            old(self).wf(),
        ensures
            final(self).wf(),
            final(self).loader == old(self).loader,
            ({
                let fs = old(self).main_thread.frames@;
                &&& fs.len() == 0 ==> r.is_none() && final(self).main_thread.frames@.len() == 0
                &&& fs.len() > 0 ==> {
                    let st = fs.last().operand_stack@;
                    &&& final(self).main_thread.frames@ == fs.drop_last()
                    &&& final(self).heap == old(self).heap
                    &&& r == return_value_of(st, rt)
                }
            }),
    {
        let mut f = match self.main_thread.pop_frame() {
            Some(f) => f,
            None => {
                return None;
            },
        };
        proof {
            assert forall|k: int| 0 <= k < self.main_thread.frames@.len() implies {
                let g = #[trigger] self.main_thread.frames@[k];
                g.class < self.loader@.len() && g.method < self.loader@[g.class as int].methods@.len()
            } by {
                assert(self.main_thread.frames@[k] == old(self).main_thread.frames@[k]);
            }
        }
        let st = &mut f.operand_stack;
        let need: usize = match rt {
            ReturnType::Void => 0,
            ReturnType::Long | ReturnType::Double => 2,
            _ => 1,
        };
        if st.size() < need {
            return None;
        }
        let v = match rt {
            ReturnType::Void => ReturnValue::Void,
            ReturnType::Boolean => ReturnValue::Boolean(st.pop_int() != 0),
            ReturnType::Byte => ReturnValue::Byte(#[verifier::truncate] (st.pop_int() as i8)),
            ReturnType::Short => ReturnValue::Short(#[verifier::truncate] (st.pop_int() as i16)),
            ReturnType::Int => ReturnValue::Int(st.pop_int()),
            ReturnType::Long => ReturnValue::Long(st.pop_long()),
            ReturnType::Float => ReturnValue::Float(st.pop_int() as u32),
            ReturnType::Double => ReturnValue::Double(st.pop_long() as u64),
            ReturnType::Char => ReturnValue::Char(#[verifier::truncate] (st.pop_int() as u16)),
            ReturnType::Object => ReturnValue::Object(st.pop_ref()),
        };
        Some(v)
    }
}

} // verus!
