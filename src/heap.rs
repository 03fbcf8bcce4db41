//! Heap objects: plain objects with a slot per instance field, arrays with a
//! typed buffer per element kind, and interned strings.
use vstd::prelude::*;
use crate::slots::Slots;
use vstd::string::*;

verus! {

/// Java-level error and exception kinds that the runtime raises itself.
#[derive(Clone, Copy, PartialEq, Eq, Structural, Debug)]
pub enum JavaError {
    NullPointer,
    NegativeArraySize,
    ArrayIndexOutOfBounds,
    ArrayStore,
    IncompatibleClassChange,
    IllegalAccess,
    AbstractMethod,
    NoSuchMethod,
    NoSuchField,
    Instantiation,
    ClassFormat,
}

/// The name of the class that represents error `e`.
pub open spec fn error_class_name(e: JavaError) -> Seq<char> {
    match e {
        JavaError::NullPointer => "java/lang/NullPointerException"@,
        JavaError::NegativeArraySize => "java/lang/NegativeArraySizeException"@,
        JavaError::ArrayIndexOutOfBounds => "java/lang/ArrayIndexOutOfBoundsException"@,
        JavaError::ArrayStore => "java/lang/ArrayStoreException"@,
        JavaError::IncompatibleClassChange => "java/lang/IncompatibleClassChangeError"@,
        JavaError::IllegalAccess => "java/lang/IllegalAccessError"@,
        JavaError::AbstractMethod => "java/lang/AbstractMethodError"@,
        JavaError::NoSuchMethod => "java/lang/NoSuchMethodError"@,
        JavaError::NoSuchField => "java/lang/NoSuchFieldError"@,
        JavaError::Instantiation => "java/lang/InstantiationError"@,
        JavaError::ClassFormat => "java/lang/ClassFormatError"@,
    }
}

impl JavaError {
    /// The name of the class that represents the error.
    pub fn class_name(&self) -> (r: &'static str)
        ensures
            r@ == error_class_name(*self),
    {
        match self {
            JavaError::NullPointer => "java/lang/NullPointerException",
            JavaError::NegativeArraySize => "java/lang/NegativeArraySizeException",
            JavaError::ArrayIndexOutOfBounds => "java/lang/ArrayIndexOutOfBoundsException",
            JavaError::ArrayStore => "java/lang/ArrayStoreException",
            JavaError::IncompatibleClassChange => "java/lang/IncompatibleClassChangeError",
            JavaError::IllegalAccess => "java/lang/IllegalAccessError",
            JavaError::AbstractMethod => "java/lang/AbstractMethodError",
            JavaError::NoSuchMethod => "java/lang/NoSuchMethodError",
            JavaError::NoSuchField => "java/lang/NoSuchFieldError",
            JavaError::Instantiation => "java/lang/InstantiationError",
            JavaError::ClassFormat => "java/lang/ClassFormatError",
        }
    }
}

/// An element value read from or written to an array.
#[derive(Clone, Copy, PartialEq, Eq, Structural, Debug)]
pub enum Value {
    Int(i32),
    Long(i64),
    Ref(Option<usize>),
}

/// An array's elements, one buffer per element kind; floats and doubles are
/// kept as their bits.
pub enum ArrayData {
    Bytes(Vec<i8>),
    Chars(Vec<u16>),
    Shorts(Vec<i16>),
    Ints(Vec<i32>),
    Longs(Vec<i64>),
    Floats(Vec<u32>),
    Doubles(Vec<u64>),
    References(Vec<Option<usize>>),
}

impl ArrayData {
    /// The elements as values: narrow integers widen to `Int`, float bits
    /// read as `Int` and double bits as `Long`.
    pub open spec fn elems(&self) -> Seq<Value> {
        match self {
            ArrayData::Bytes(v) => v@.map_values(|x: i8| Value::Int(x as i32)),
            ArrayData::Chars(v) => v@.map_values(|x: u16| Value::Int(x as i32)),
            ArrayData::Shorts(v) => v@.map_values(|x: i16| Value::Int(x as i32)),
            ArrayData::Ints(v) => v@.map_values(|x: i32| Value::Int(x)),
            ArrayData::Longs(v) => v@.map_values(|x: i64| Value::Long(x)),
            ArrayData::Floats(v) => v@.map_values(|x: u32| Value::Int(x as i32)),
            ArrayData::Doubles(v) => v@.map_values(|x: u64| Value::Long(x as i64)),
            ArrayData::References(v) => v@.map_values(|x: Option<usize>| Value::Ref(x)),
        }
    }

    /// What storing `v` leaves in an element: the value narrowed to the
    /// element kind, or `None` when `v` has the wrong shape for it.
    pub open spec fn stored(&self, v: Value) -> Option<Value> {
        match (self, v) {
            (ArrayData::Bytes(_), Value::Int(x)) => Some(Value::Int(x as i8 as i32)),
            (ArrayData::Chars(_), Value::Int(x)) => Some(Value::Int(x as u16 as i32)),
            (ArrayData::Shorts(_), Value::Int(x)) => Some(Value::Int(x as i16 as i32)),
            (ArrayData::Ints(_), Value::Int(x)) => Some(Value::Int(x)),
            (ArrayData::Floats(_), Value::Int(x)) => Some(Value::Int(x as u32 as i32)),
            (ArrayData::Longs(_), Value::Long(x)) => Some(Value::Long(x)),
            (ArrayData::Doubles(_), Value::Long(x)) => Some(Value::Long(x as u64 as i64)),
            (ArrayData::References(_), Value::Ref(x)) => Some(Value::Ref(x)),
            _ => None,
        }
    }

    /// `v` fits the element kind: storing it keeps it as it is.
    pub open spec fn fits(&self, v: Value) -> bool {
        self.stored(v) == Some(v)
    }

    /// The zero-filled buffer for an array class name (`[I`, `[J`, ...);
    /// any other name gets a buffer of null references.
    pub fn for_class_name(name: &str, count: usize) -> (r: ArrayData)
        ensures
            r.elems().len() == count,
            r.elems() == Seq::new(count as nat, |i: int| default_elem(name@)),
    {
        if name.unicode_len() == 2 && name.get_char(0) == '[' {
            let c = name.get_char(1);
            let r = if c == 'Z' || c == 'B' {
                ArrayData::Bytes(filled(count, 0i8))
            } else if c == 'C' {
                ArrayData::Chars(filled(count, 0u16))
            } else if c == 'S' {
                ArrayData::Shorts(filled(count, 0i16))
            } else if c == 'I' {
                ArrayData::Ints(filled(count, 0i32))
            } else if c == 'J' {
                ArrayData::Longs(filled(count, 0i64))
            } else if c == 'F' {
                ArrayData::Floats(filled(count, 0u32))
            } else if c == 'D' {
                ArrayData::Doubles(filled(count, 0u64))
            } else {
                ArrayData::References(filled(count, None))
            };
            assert(r.elems() =~= Seq::new(count as nat, |i: int| default_elem(name@)));
            return r;
        }
        let r = ArrayData::References(filled(count, None));
        assert(r.elems() =~= Seq::new(count as nat, |i: int| default_elem(name@)));
        r
    }

    pub fn len(&self) -> (r: usize)
        ensures
            r == self.elems().len(),
    {
        match self {
            ArrayData::Bytes(v) => v.len(),
            ArrayData::Chars(v) => v.len(),
            ArrayData::Shorts(v) => v.len(),
            ArrayData::Ints(v) => v.len(),
            ArrayData::Longs(v) => v.len(),
            ArrayData::Floats(v) => v.len(),
            ArrayData::Doubles(v) => v.len(),
            ArrayData::References(v) => v.len(),
        }
    }

    /// The element at `index`, or an out-of-bounds error outside `[0, len)`.
    pub fn load(&self, index: i32) -> (r: Result<Value, JavaError>)
        ensures
            (0 <= index < self.elems().len()) ==> r == Ok::<Value, JavaError>(self.elems()[index as int]),
            !(0 <= index < self.elems().len()) ==> r == Err::<Value, JavaError>(
                JavaError::ArrayIndexOutOfBounds,
            ),
    {
        if index < 0 || index as usize >= self.len() {
            return Err(JavaError::ArrayIndexOutOfBounds);
        }
        let i = index as usize;
        match self {
            ArrayData::Bytes(v) => Ok(Value::Int(v[i] as i32)),
            ArrayData::Chars(v) => Ok(Value::Int(v[i] as i32)),
            ArrayData::Shorts(v) => Ok(Value::Int(v[i] as i32)),
            ArrayData::Ints(v) => Ok(Value::Int(v[i])),
            ArrayData::Longs(v) => Ok(Value::Long(v[i])),
            ArrayData::Floats(v) => Ok(Value::Int(v[i] as i32)),
            ArrayData::Doubles(v) => Ok(Value::Long(v[i] as i64)),
            ArrayData::References(v) => Ok(Value::Ref(v[i])),
        }
    }

    /// Writes `value` at `index`, narrowed to the element kind. An index
    /// outside `[0, len)` is an out-of-bounds error and a value of the wrong
    /// shape an array-store error; both leave the array as it was.
    pub fn store(&mut self, index: i32, value: Value) -> (r: Result<(), JavaError>)
        ensures
            !(0 <= index < old(self).elems().len()) ==> r == Err::<(), JavaError>(
                JavaError::ArrayIndexOutOfBounds,
            ) && final(self).elems() == old(self).elems(),
            (0 <= index < old(self).elems().len() && old(self).stored(value).is_none()) ==> r == Err::<
                (),
                JavaError,
            >(JavaError::ArrayStore) && final(self).elems() == old(self).elems(),
            (0 <= index < old(self).elems().len() && old(self).stored(value).is_some()) ==> r == Ok::<
                (),
                JavaError,
            >(()) && final(self).elems() == old(self).elems().update(
                index as int,
                old(self).stored(value).unwrap(),
            ),
            final(self).stored(value) == old(self).stored(value),
    {
        if index < 0 || index as usize >= self.len() {
            return Err(JavaError::ArrayIndexOutOfBounds);
        }
        let i = index as usize;
        let ghost before = *self;
        let r = match (&mut *self, value) {
            (ArrayData::Bytes(v), Value::Int(x)) => {
                v.set(i, #[verifier::truncate] (x as i8));
                Ok(())
            },
            (ArrayData::Chars(v), Value::Int(x)) => {
                v.set(i, #[verifier::truncate] (x as u16));
                Ok(())
            },
            (ArrayData::Shorts(v), Value::Int(x)) => {
                v.set(i, #[verifier::truncate] (x as i16));
                Ok(())
            },
            (ArrayData::Ints(v), Value::Int(x)) => {
                v.set(i, x);
                Ok(())
            },
            (ArrayData::Floats(v), Value::Int(x)) => {
                v.set(i, #[verifier::truncate] (x as u32));
                Ok(())
            },
            (ArrayData::Longs(v), Value::Long(x)) => {
                v.set(i, x);
                Ok(())
            },
            (ArrayData::Doubles(v), Value::Long(x)) => {
                v.set(i, #[verifier::truncate] (x as u64));
                Ok(())
            },
            (ArrayData::References(v), Value::Ref(x)) => {
                v.set(i, x);
                Ok(())
            },
            _ => Err(JavaError::ArrayStore),
        };
        proof {
            if r.is_ok() {
                assert(self.elems() =~= before.elems().update(index as int, before.stored(value).unwrap()));
            } else {
                assert(self.elems() =~= before.elems());
            }
        }
        r
    }
}

/// The initial element of an array of the named class.
pub open spec fn default_elem(name: Seq<char>) -> Value {
    if name.len() == 2 && name[0] == '[' && (name[1] == 'J' || name[1] == 'D') {
        Value::Long(0)
    } else if name.len() == 2 && name[0] == '[' && (name[1] == 'Z' || name[1] == 'B' || name[1] == 'C'
        || name[1] == 'S' || name[1] == 'I' || name[1] == 'F') {
        Value::Int(0)
    } else {
        Value::Ref(None)
    }
}

fn filled<T: Copy>(count: usize, x: T) -> (r: Vec<T>)
    ensures
        r@ == Seq::new(count as nat, |i: int| x),
{
    let mut v: Vec<T> = Vec::new();
    let mut i: usize = 0;
    while i < count
        invariant
            i <= count,
            v@ == Seq::new(i as nat, |k: int| x),
        decreases count - i,
    {
        v.push(x);
        i = i + 1;
        assert(v@ =~= Seq::new(i as nat, |k: int| x));
    }
    v
}

/// Array round trip: writing a value that fits the element kind at any
/// valid index and reading that index gives the value back, and the other
/// elements keep theirs.
pub proof fn lemma_array_round_trip(a: ArrayData, b: ArrayData, index: int, v: Value)
    requires
        0 <= index < a.elems().len(),
        a.fits(v),
        b.elems() == a.elems().update(index, a.stored(v).unwrap()),
    ensures
        b.elems()[index] == v,
        forall|k: int| 0 <= k < a.elems().len() && k != index ==> b.elems()[k] == a.elems()[k],
{
}

/// After writes of `vals[0]`, `vals[1]`, ... at indices 0, 1, ..., the
/// first `k` elements read back as the first `k` values written.
proof fn lemma_fill_prefix(states: Seq<ArrayData>, vals: Seq<Value>, k: int)
    requires
        states.len() == vals.len() + 1,
        states[0].elems().len() == vals.len(),
        forall|j: int|
            0 <= j < vals.len() ==> (#[trigger] states[j]).fits(vals[j]) && states[j + 1].elems()
                == states[j].elems().update(j, states[j].stored(vals[j]).unwrap()),
        0 <= k <= vals.len(),
    ensures
        states[k].elems().len() == vals.len(),
        forall|i: int| 0 <= i < k ==> #[trigger] states[k].elems()[i] == vals[i],
    decreases k,
{
    if k > 0 {
        lemma_fill_prefix(states, vals, k - 1);
        assert(states[k - 1].fits(vals[k - 1]));
    }
}

/// Array round trip over the whole array: writing a fitting value at every
/// valid index in turn, then reading any index, gives the value written
/// there.
pub proof fn lemma_array_fill_round_trip(states: Seq<ArrayData>, vals: Seq<Value>)
    requires
        states.len() == vals.len() + 1,
        states[0].elems().len() == vals.len(),
        forall|j: int|
            0 <= j < vals.len() ==> (#[trigger] states[j]).fits(vals[j]) && states[j + 1].elems()
                == states[j].elems().update(j, states[j].stored(vals[j]).unwrap()),
    ensures
        forall|i: int| 0 <= i < vals.len() ==> #[trigger] states.last().elems()[i] == vals[i],
{
    lemma_fill_prefix(states, vals, vals.len() as int);
}

/// The value that the last of the first `n` writes (index `idx[j]`,
/// value `vals[j]`) to index `i` left there, if any wrote there.
pub open spec fn last_write(idx: Seq<int>, vals: Seq<Value>, n: int, i: int) -> Option<Value>
    decreases n,
{
    if n <= 0 {
        None
    } else if idx[n - 1] == i {
        Some(vals[n - 1])
    } else {
        last_write(idx, vals, n - 1, i)
    }
}

/// Array round trip, writes in any order: after fitting writes at valid
/// indices in any order, each index reads the value last written there,
/// and an index never written keeps its value.
pub proof fn lemma_array_writes_any_order(states: Seq<ArrayData>, idx: Seq<int>, vals: Seq<Value>, n: int)
    requires
        states.len() == vals.len() + 1,
        idx.len() == vals.len(),
        0 <= n <= vals.len(),
        forall|j: int|
            0 <= j < vals.len() ==> 0 <= #[trigger] idx[j] < states[j].elems().len() && states[j].fits(vals[j])
                && states[j + 1].elems() == states[j].elems().update(idx[j], states[j].stored(vals[j]).unwrap()),
    ensures
        states[n].elems().len() == states[0].elems().len(),
        forall|i: int|
            0 <= i < states[0].elems().len() ==> #[trigger] states[n].elems()[i] == match last_write(idx, vals, n, i) {
                Some(v) => v,
                None => states[0].elems()[i],
            },
    decreases n,
{
    if n > 0 {
        lemma_array_writes_any_order(states, idx, vals, n - 1);
        assert(0 <= idx[n - 1]);
        assert(states[n - 1].fits(vals[n - 1]));
    }
}

pub enum ObjectData {
    /// A plain object: one slot per instance field slot id.
    Fields(Slots),
    Array(ArrayData),
    /// An interned string constant.
    Str(String),
    /// The `java/lang/Class` object that stands for the class at this index.
    Mirror(usize),
}

pub struct Object {
    /// Arena index of the object's class.
    pub class: usize,
    pub data: ObjectData,
}

impl Object {
    pub fn class(&self) -> (r: usize)
        ensures
            r == self.class,
    {
        self.class
    }
}

} // verus!
