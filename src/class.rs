//! Classes, fields and methods as the runtime holds them. Classes live in an
//! arena and refer to each other, and methods to their class, by index.
use vstd::prelude::*;
use crate::access::{flag_set, has_flag, ABSTRACT, FINAL, INTERFACE, PRIVATE, PROTECTED, PUBLIC, STATIC};
use vstd::string::*;
use crate::class_file::{ExceptionTableEntry, MemberInfo};
use crate::constant_pool::ConstantPool;
use crate::slots::Slots;
use crate::strings::{str_eq, starts_with_char};

verus! {

/// Index just past the next `;` at or after `i` (the end when there is none).
pub open spec fn after_semicolon(d: Seq<char>, i: int) -> int
    decreases d.len() - i,
{
    if i >= d.len() {
        d.len() as int
    } else if d[i] == ';' {
        i + 1
    } else {
        after_semicolon(d, i + 1)
    }
}

/// Index just past the field type that starts at `i`.
pub open spec fn after_field_type(d: Seq<char>, i: int) -> int
    decreases d.len() - i,
{
    if i >= d.len() {
        d.len() as int
    } else if d[i] == '[' {
        after_field_type(d, i + 1)
    } else if d[i] == 'L' {
        after_semicolon(d, i + 1)
    } else {
        i + 1
    }
}

/// Slots taken by the parameter types from position `i` up to `)`.
pub open spec fn param_slots_from(d: Seq<char>, i: int) -> int
    decreases d.len() - i,
{
    if i < 0 || i >= d.len() || d[i] == ')' {
        0
    } else {
        let w: int = if d[i] == 'J' || d[i] == 'D' {
            2
        } else {
            1
        };
        let j = after_field_type(d, i);
        if i < j <= d.len() {
            w + param_slots_from(d, j)
        } else {
            w
        }
    }
}

/// Slots taken by the parameters of method descriptor `d`, which starts with `(`.
pub open spec fn param_slots(d: Seq<char>) -> int {
    param_slots_from(d, 1)
}

fn after_semicolon_exec(d: &str, n: usize, i: usize) -> (r: usize)
    requires
        n == d@.len(),
        i <= n,
    ensures
        r == after_semicolon(d@, i as int),
        i <= r <= n,
    decreases n - i,
{
    if i >= n {
        n
    } else if d.get_char(i) == ';' {
        i + 1
    } else {
        after_semicolon_exec(d, n, i + 1)
    }
}

fn after_field_type_exec(d: &str, n: usize, i: usize) -> (r: usize)
    requires
        n == d@.len(),
        i <= n,
    ensures
        r == after_field_type(d@, i as int),
        i <= r <= n,
        i < n ==> i < r,
    decreases n - i,
{
    if i >= n {
        n
    } else {
        let c = d.get_char(i);
        if c == '[' {
            after_field_type_exec(d, n, i + 1)
        } else if c == 'L' {
            after_semicolon_exec(d, n, i + 1)
        } else {
            i + 1
        }
    }
}

/// Counts the slots that the parameters of a method descriptor take.
pub fn count_param_slots(d: &str) -> (r: usize)
    requires
        d@.len() < usize::MAX / 4,
    ensures
        r == param_slots(d@),
{
    let n = d.unicode_len();
    if n == 0 {
        return 0;
    }
    let mut i: usize = 1;
    let mut total: usize = 0;
    while i < n && d.get_char(i) != ')'
        invariant
            n == d@.len(),
            1 <= i <= n,
            total + param_slots_from(d@, i as int) == param_slots(d@),
            total <= 2 * i,
            d@.len() < usize::MAX / 4,
        decreases n - i,
    {
        let c = d.get_char(i);
        let w: usize = if c == 'J' || c == 'D' { 2 } else { 1 };
        let j = after_field_type_exec(d, n, i);
        total = total + w;
        i = j;
    }
    total
}

/// Field `f` keeps what its class-file entry `info` says.
pub open spec fn field_from(f: Field, info: MemberInfo) -> bool {
    &&& f.access_flags == info.access_flags
    &&& f.name@ == info.name@
    &&& f.descriptor@ == info.descriptor@
    &&& f.const_value_index == info.constant_value_index
}

/// Method `m` of class `class` keeps what its class-file entry `info` says.
pub open spec fn method_from(m: Method, info: MemberInfo, class: usize) -> bool {
    &&& m.class == class
    &&& m.access_flags == info.access_flags
    &&& m.name@ == info.name@
    &&& m.descriptor@ == info.descriptor@
    &&& m.arg_slot_count == arg_slots(info.access_flags, info.descriptor@)
    &&& match info.code {
        Some(code) => {
            &&& m.code@ == code.code@
            &&& m.max_stack == code.max_stack
            &&& m.max_locals == code.max_locals
            &&& m.exception_table@.len() == code.exception_table@.len()
            &&& forall|k: int|
                0 <= k < code.exception_table@.len() ==> {
                    &&& #[trigger] m.exception_table@[k].start_pc == code.exception_table@[k].start_pc
                    &&& m.exception_table@[k].end_pc == code.exception_table@[k].end_pc
                    &&& m.exception_table@[k].handler_pc == code.exception_table@[k].handler_pc
                    &&& m.exception_table@[k].catch_type == code.exception_table@[k].catch_type
                }
        },
        None => m.code@.len() == 0 && m.exception_table@.len() == 0,
    }
}

pub struct Field {
    pub access_flags: u16,
    pub name: String,
    pub descriptor: String,
    /// Slot id within the instance layout or within the class's static slots.
    pub slot_id: usize,
    /// Pool index of the field's constant value; 0 when it has none.
    pub const_value_index: usize,
}

/// Whether a field descriptor names a long or a double.
pub open spec fn is_wide_descriptor(d: Seq<char>) -> bool {
    d.len() > 0 && (d[0] == 'J' || d[0] == 'D')
}

impl Field {
    pub open spec fn spec_is_static(&self) -> bool {
        has_flag(self.access_flags, STATIC)
    }

    pub open spec fn width(&self) -> int {
        if is_wide_descriptor(self.descriptor@) {
            2
        } else {
            1
        }
    }

    pub fn new_field(info: &MemberInfo) -> (r: Field)
        ensures
            r.access_flags == info.access_flags,
            r.name@ == info.name@,
            r.descriptor@ == info.descriptor@,
            r.slot_id == 0,
            r.const_value_index == info.constant_value_index,
    {
        Field {
            access_flags: info.access_flags,
            name: info.name.clone(),
            descriptor: info.descriptor.clone(),
            slot_id: 0,
            const_value_index: info.constant_value_index as usize,
        }
    }

    pub fn is_static(&self) -> (r: bool)
        ensures
            r == self.spec_is_static(),
    {
        flag_set(self.access_flags, STATIC)
    }

    pub fn is_final(&self) -> (r: bool)
        ensures
            r == has_flag(self.access_flags, FINAL),
    {
        flag_set(self.access_flags, FINAL)
    }

    pub fn is_long_or_double(&self) -> (r: bool)
        ensures
            r == is_wide_descriptor(self.descriptor@),
    {
        let d = self.descriptor.as_str();
        starts_with_char(d, 'J') || starts_with_char(d, 'D')
    }
}

/// One handler of a method's exception table; `catch_type` is a pool index
/// naming the caught class, 0 for a handler that catches everything.
pub struct ExceptionHandler {
    pub start_pc: usize,
    pub end_pc: usize,
    pub handler_pc: usize,
    pub catch_type: usize,
}

impl ExceptionHandler {
    pub fn handler_pc(&self) -> (r: usize)
        ensures
            r == self.handler_pc,
    {
        self.handler_pc
    }

    /// Whether `pc` lies in `[start_pc, end_pc)`.
    pub open spec fn covers(&self, pc: int) -> bool {
        self.start_pc <= pc < self.end_pc
    }
}

pub struct ExceptionTable {
    pub table: Vec<ExceptionHandler>,
}

impl View for ExceptionTable {
    type V = Seq<ExceptionHandler>;

    open spec fn view(&self) -> Seq<ExceptionHandler> {
        self.table@
    }
}

impl ExceptionTable {
    pub fn none() -> (r: ExceptionTable)
        ensures
            r@.len() == 0,
    {
        ExceptionTable { table: Vec::new() }
    }

    /// The table with each class-file row taken over as it stands.
    pub fn new(entries: &Vec<ExceptionTableEntry>) -> (r: ExceptionTable)
        ensures
            r@.len() == entries@.len(),
            forall|k: int|
                0 <= k < entries@.len() ==> {
                    &&& #[trigger] r@[k].start_pc == entries@[k].start_pc
                    &&& r@[k].end_pc == entries@[k].end_pc
                    &&& r@[k].handler_pc == entries@[k].handler_pc
                    &&& r@[k].catch_type == entries@[k].catch_type
                },
    {
        let mut table: Vec<ExceptionHandler> = Vec::new();
        let mut i: usize = 0;
        while i < entries.len()
            invariant
                i <= entries@.len(),
                table@.len() == i,
                forall|k: int|
                    0 <= k < i ==> {
                        &&& #[trigger] table@[k].start_pc == entries@[k].start_pc
                        &&& table@[k].end_pc == entries@[k].end_pc
                        &&& table@[k].handler_pc == entries@[k].handler_pc
                        &&& table@[k].catch_type == entries@[k].catch_type
                    },
            decreases entries@.len() - i,
        {
            let e = &entries[i];
            table.push(
                ExceptionHandler {
                    start_pc: e.start_pc() as usize,
                    end_pc: e.end_pc() as usize,
                    handler_pc: e.handler_pc() as usize,
                    catch_type: e.catch_type() as usize,
                },
            );
            i = i + 1;
        }
        ExceptionTable { table }
    }
}

pub struct Method {
    pub access_flags: u16,
    pub name: String,
    pub descriptor: String,
    /// Arena index of the declaring class.
    pub class: usize,
    pub max_stack: usize,
    pub max_locals: usize,
    pub code: Vec<u8>,
    pub exception_table: ExceptionTable,
    /// Slots taken by the arguments, `this` included for an instance method.
    pub arg_slot_count: usize,
}

/// Argument slots of a method: its parameters, and `this` unless it is static.
pub open spec fn arg_slots(flags: u16, descriptor: Seq<char>) -> int {
    param_slots(descriptor) + if has_flag(flags, STATIC) {
        0int
    } else {
        1int
    }
}

impl Method {
    pub open spec fn spec_is_static(&self) -> bool {
        has_flag(self.access_flags, STATIC)
    }

    /// The method declared by `info` in the class at `class`.
    pub fn new_method(class: usize, info: &MemberInfo) -> (r: Method)
        requires
            info.descriptor@.len() < usize::MAX / 4,
        ensures
            method_from(r, *info, class),
            r.class == class,
            r.access_flags == info.access_flags,
            r.name@ == info.name@,
            r.descriptor@ == info.descriptor@,
            r.arg_slot_count == arg_slots(info.access_flags, info.descriptor@),
            info.code.is_some() ==> r.code@ == info.code.unwrap().code@ && r.max_stack
                == info.code.unwrap().max_stack && r.max_locals == info.code.unwrap().max_locals
                && r.exception_table@.len() == info.code.unwrap().exception_table@.len(),
            info.code.is_none() ==> r.code@.len() == 0 && r.exception_table@.len() == 0,
    {
        let p = count_param_slots(info.descriptor.as_str());
        let is_static = flag_set(info.access_flags, STATIC);
        proof {
            lemma_param_slots_bound(info.descriptor@, 1);
        }
        let count: usize = if is_static { p } else { p + 1 };
        let (max_stack, max_locals, code, exception_table) = match &info.code {
            Some(attr) => (
                attr.max_stack as usize,
                attr.max_locals as usize,
                attr.code.clone(),
                ExceptionTable::new(&attr.exception_table),
            ),
            None => (0, 0, Vec::new(), ExceptionTable::none()),
        };
        Method {
            access_flags: info.access_flags,
            name: info.name.clone(),
            descriptor: info.descriptor.clone(),
            class,
            max_stack,
            max_locals,
            code,
            exception_table,
            arg_slot_count: count,
        }
    }

    pub fn is_static(&self) -> (r: bool)
        ensures
            r == has_flag(self.access_flags, STATIC),
    {
        flag_set(self.access_flags, STATIC)
    }

    pub fn is_public(&self) -> (r: bool)
        ensures
            r == has_flag(self.access_flags, PUBLIC),
    {
        flag_set(self.access_flags, PUBLIC)
    }

    pub fn is_private(&self) -> (r: bool)
        ensures
            r == has_flag(self.access_flags, PRIVATE),
    {
        flag_set(self.access_flags, PRIVATE)
    }

    pub fn is_protected(&self) -> (r: bool)
        ensures
            r == has_flag(self.access_flags, PROTECTED),
    {
        flag_set(self.access_flags, PROTECTED)
    }

    pub fn is_abstract(&self) -> (r: bool)
        ensures
            r == has_flag(self.access_flags, ABSTRACT),
    {
        flag_set(self.access_flags, ABSTRACT)
    }

    pub fn max_stack(&self) -> (r: usize)
        ensures
            r == self.max_stack,
    {
        self.max_stack
    }

    pub fn max_locals(&self) -> (r: usize)
        ensures
            r == self.max_locals,
    {
        self.max_locals
    }

    /// Whether this method has the name and descriptor given.
    pub fn has_signature(&self, name: &str, descriptor: &str) -> (r: bool)
        ensures
            r == (self.name@ == name@ && self.descriptor@ == descriptor@),
    {
        str_eq(self.name.as_str(), name) && str_eq(self.descriptor.as_str(), descriptor)
    }
}

proof fn lemma_param_slots_bound(d: Seq<char>, i: int)
    requires
        i >= 0,
    ensures
        param_slots_from(d, i) <= 2 * (d.len() - i) || param_slots_from(d, i) == 0,
        param_slots_from(d, i) <= 2 * d.len(),
    decreases d.len() - i,
{
    if i < 0 || i >= d.len() || d[i] == ')' {
    } else {
        let j = after_field_type(d, i);
        lemma_after_field_type(d, i);
        if i < j <= d.len() {
            lemma_param_slots_bound(d, j);
        }
    }
}

proof fn lemma_after_semicolon(d: Seq<char>, i: int)
    requires
        0 <= i,
    ensures
        after_semicolon(d, i) <= d.len() || i > d.len(),
        i <= d.len() ==> i <= after_semicolon(d, i) <= d.len(),
    decreases d.len() - i,
{
    if i < d.len() && d[i] != ';' {
        lemma_after_semicolon(d, i + 1);
    }
}

proof fn lemma_after_field_type(d: Seq<char>, i: int)
    requires
        0 <= i < d.len(),
    ensures
        i < after_field_type(d, i) <= d.len(),
    decreases d.len() - i,
{
    if d[i] == '[' {
        if i + 1 < d.len() {
            lemma_after_field_type(d, i + 1);
        }
    } else if d[i] == 'L' {
        lemma_after_semicolon(d, i + 1);
    }
}

} // verus!

verus! {

pub struct Class {
    pub access_flags: u16,
    pub name: String,
    /// Arena index of the superclass; `None` for the root class.
    pub super_class: Option<usize>,
    /// Arena indices of the directly implemented interfaces.
    pub interfaces: Vec<usize>,
    pub fields: Vec<Field>,
    pub methods: Vec<Method>,
    pub constant_pool: ConstantPool,
    pub instance_slot_count: usize,
    pub static_slot_count: usize,
    pub static_vars: Slots,
    pub initialized: bool,
    pub source_file: Option<String>,
}

impl Class {
    pub open spec fn spec_is_interface(&self) -> bool {
        has_flag(self.access_flags, INTERFACE)
    }

    pub fn is_public(&self) -> (r: bool)
        ensures
            r == has_flag(self.access_flags, PUBLIC),
    {
        flag_set(self.access_flags, PUBLIC)
    }

    pub fn is_final(&self) -> (r: bool)
        ensures
            r == has_flag(self.access_flags, FINAL),
    {
        flag_set(self.access_flags, FINAL)
    }

    pub fn is_interface(&self) -> (r: bool)
        ensures
            r == self.spec_is_interface(),
    {
        flag_set(self.access_flags, INTERFACE)
    }

    pub fn is_abstract(&self) -> (r: bool)
        ensures
            r == has_flag(self.access_flags, ABSTRACT),
    {
        flag_set(self.access_flags, ABSTRACT)
    }

    pub fn is_array(&self) -> (r: bool)
        ensures
            r == (self.name@.len() > 0 && self.name@[0] == '['),
    {
        starts_with_char(self.name.as_str(), '[')
    }

    pub fn initialized(&self) -> (r: bool)
        ensures
            r == self.initialized,
    {
        self.initialized
    }

    pub fn instance_slot_count(&self) -> (r: usize)
        ensures
            r == self.instance_slot_count,
    {
        self.instance_slot_count
    }

    pub fn static_slot_count(&self) -> (r: usize)
        ensures
            r == self.static_slot_count,
    {
        self.static_slot_count
    }

    /// The name with `/` shown as `.`.
    pub fn java_name(&self) -> (r: String)
        ensures
            r@ == crate::strings::replace_char(self.name@, '/', '.'),
    {
        crate::strings::replace_all(self.name.as_str(), '/', '.')
    }

    /// The source file recorded for the class, or `Unknown`.
    pub fn source_file(&self) -> (r: String)
        ensures
            self.source_file.is_some() ==> r@ == self.source_file.unwrap()@,
            self.source_file.is_none() ==> r@ == "Unknown"@,
    {
        match &self.source_file {
            Some(s) => s.clone(),
            None => String::from_str("Unknown"),
        }
    }

    /// Position of the static method with this name and descriptor.
    pub fn get_static_method(&self, name: &str, desc: &str) -> (r: Option<usize>)
        ensures
            r.is_some() ==> r.unwrap() < self.methods@.len() && self.methods@[r.unwrap() as int].spec_is_static()
                && self.methods@[r.unwrap() as int].name@ == name@
                && self.methods@[r.unwrap() as int].descriptor@ == desc@,
            r.is_none() ==> forall|m: int|
                0 <= m < self.methods@.len() ==> !(#[trigger] self.methods@[m].spec_is_static()
                    && self.methods@[m].name@ == name@ && self.methods@[m].descriptor@ == desc@),
    {
        let mut i: usize = 0;
        while i < self.methods.len()
            invariant
                i <= self.methods@.len(),
                forall|m: int|
                    0 <= m < i ==> !(#[trigger] self.methods@[m].spec_is_static()
                        && self.methods@[m].name@ == name@ && self.methods@[m].descriptor@ == desc@),
            decreases self.methods@.len() - i,
        {
            let m = &self.methods[i];
            if m.is_static() && m.has_signature(name, desc) {
                return Some(i);
            }
            i = i + 1;
        }
        None
    }

    /// Position of the constructor `<init>` with this descriptor, if the
    /// class declares one.
    pub fn get_constructor(&self, desc: &str) -> (r: Option<usize>)
        ensures
            r.is_some() ==> r.unwrap() < self.methods@.len() && is_constructor(
                self.methods@[r.unwrap() as int],
                desc@,
            ),
            r.is_none() ==> forall|m: int|
                0 <= m < self.methods@.len() ==> !is_constructor(#[trigger] self.methods@[m], desc@),
    {
        let mut i: usize = 0;
        while i < self.methods.len()
            invariant
                i <= self.methods@.len(),
                forall|m: int| 0 <= m < i ==> !is_constructor(#[trigger] self.methods@[m], desc@),
            decreases self.methods@.len() - i,
        {
            let m = &self.methods[i];
            if !m.is_static() && m.has_signature("<init>", desc) {
                return Some(i);
            }
            i = i + 1;
        }
        None
    }

    /// Position of `public static void main(String[])`, if the class has one.
    pub fn get_main_method(&self) -> (r: Option<usize>)
        ensures
            r.is_some() ==> r.unwrap() < self.methods@.len() && self.methods@[r.unwrap() as int].name@
                == "main"@ && self.methods@[r.unwrap() as int].descriptor@ == "([Ljava/lang/String;)V"@,
    {
        self.get_static_method("main", "([Ljava/lang/String;)V")
    }

    /// Position of the class initializer `<clinit>()V`, if the class has one.
    pub fn get_clinit_method(&self) -> (r: Option<usize>)
        ensures
            r.is_some() == has_clinit(*self),
            r.is_some() ==> r.unwrap() < self.methods@.len() && is_clinit(self.methods@[r.unwrap() as int]),
    {
        let r = self.get_static_method("<clinit>", "()V");
        proof {
            lemma_clinit_unique(*self, r);
        }
        r
    }

    pub fn is_java_lang_object(&self) -> (r: bool)
        ensures
            r == (self.name@ == "java/lang/Object"@),
    {
        str_eq(self.name.as_str(), "java/lang/Object")
    }

    pub fn is_java_lang_cloneable(&self) -> (r: bool)
        ensures
            r == (self.name@ == "java/lang/Cloneable"@),
    {
        str_eq(self.name.as_str(), "java/lang/Cloneable")
    }

    pub fn is_java_io_serializable(&self) -> (r: bool)
        ensures
            r == (self.name@ == "java/io/Serializable"@),
    {
        str_eq(self.name.as_str(), "java/io/Serializable")
    }
}

/// `m` is an instance constructor with descriptor `desc`.
pub open spec fn is_constructor(m: Method, desc: Seq<char>) -> bool {
    !m.spec_is_static() && m.name@ == "<init>"@ && m.descriptor@ == desc
}

pub open spec fn is_clinit(m: Method) -> bool {
    m.spec_is_static() && m.name@ == "<clinit>"@ && m.descriptor@ == "()V"@
}

/// Whether class `c` declares a class initializer.
pub open spec fn has_clinit(c: Class) -> bool {
    exists|m: int| 0 <= m < c.methods@.len() && is_clinit(#[trigger] c.methods@[m])
}

proof fn lemma_clinit_unique(c: Class, r: Option<usize>)
    requires
        r.is_some() ==> r.unwrap() < c.methods@.len() && is_clinit(c.methods@[r.unwrap() as int]),
        r.is_none() ==> forall|m: int| 0 <= m < c.methods@.len() ==> !is_clinit(#[trigger] c.methods@[m]),
    ensures
        r.is_some() == has_clinit(c),
{
}

} // verus!
