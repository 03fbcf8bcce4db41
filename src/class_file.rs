//! Plain values handed over by the class-file decoder, and the few byte-level
//! helpers the runtime owns: reading an exception table and showing bytes in hex.
use vstd::prelude::*;
use vstd::string::*;

verus! {

/// Big-endian unsigned 16-bit value at `i`.
pub open spec fn be16(b: Seq<u8>, i: int) -> int {
    b[i] as int * 256 + b[i + 1] as int
}

/// A cursor over class-file bytes.
pub struct ClassReader {
    pub data: Vec<u8>,
    pub pos: usize,
}

impl ClassReader {
    pub fn new(data: Vec<u8>) -> (r: ClassReader)
        ensures
            r.data@ == data@,
            r.pos == 0,
    {
        ClassReader { data, pos: 0 }
    }

    /// The next byte; `None`, with the cursor unmoved, at the end.
    pub fn read_u8(&mut self) -> (r: Option<u8>)
        ensures
            final(self).data == old(self).data,
            old(self).pos < old(self).data@.len() ==> r == Some(old(self).data@[old(self).pos as int])
                && final(self).pos == old(self).pos + 1,
            old(self).pos >= old(self).data@.len() ==> r.is_none() && final(self).pos == old(self).pos,
    {
        if self.pos < self.data.len() {
            let b = self.data[self.pos];
            self.pos = self.pos + 1;
            Some(b)
        } else {
            None
        }
    }

    /// The next big-endian `u16`; `None`, with the cursor unmoved, when
    /// fewer than two bytes are left.
    pub fn read_u16(&mut self) -> (r: Option<u16>)
        ensures
            final(self).data == old(self).data,
            old(self).pos + 2 <= old(self).data@.len() ==> (r matches Some(v) && v as int == be16(
                old(self).data@,
                old(self).pos as int,
            )) && final(self).pos == old(self).pos + 2,
            !(old(self).pos + 2 <= old(self).data@.len()) ==> r.is_none() && final(self).pos == old(self).pos,
    {
        let n = self.data.len();
        if self.pos > n || n - self.pos < 2 {
            return None;
        }
        let v = self.u16_at(self.pos);
        self.pos = self.pos + 2;
        Some(v)
    }

    /// The next big-endian `u32`; `None`, with the cursor unmoved, when
    /// fewer than four bytes are left.
    pub fn read_u32(&mut self) -> (r: Option<u32>)
        ensures
            final(self).data == old(self).data,
            old(self).pos + 4 <= old(self).data@.len() ==> (r matches Some(v) && v as int == be16(
                old(self).data@,
                old(self).pos as int,
            ) * 65536 + be16(old(self).data@, old(self).pos + 2)) && final(self).pos == old(self).pos + 4,
            !(old(self).pos + 4 <= old(self).data@.len()) ==> r.is_none() && final(self).pos == old(self).pos,
    {
        let n = self.data.len();
        if self.pos > n || n - self.pos < 4 {
            return None;
        }
        let hi = self.u16_at(self.pos) as u32;
        let lo = self.u16_at(self.pos + 2) as u32;
        self.pos = self.pos + 4;
        Some(hi * 65536 + lo)
    }

    /// The next `len` bytes; `None`, with the cursor unmoved, when fewer
    /// are left.
    pub fn read_bytes(&mut self, len: usize) -> (r: Option<Vec<u8>>)
        ensures
            final(self).data == old(self).data,
            old(self).pos + len <= old(self).data@.len() ==> (r matches Some(v) && v@ == old(self).data@.subrange(
                old(self).pos as int,
                old(self).pos + len,
            )) && final(self).pos == old(self).pos + len,
            !(old(self).pos + len <= old(self).data@.len()) ==> r.is_none() && final(self).pos == old(self).pos,
    {
        let n = self.data.len();
        if self.pos > n || n - self.pos < len {
            return None;
        }
        let mut out: Vec<u8> = Vec::new();
        let start = self.pos;
        let mut i: usize = 0;
        while i < len
            invariant
                start + len <= n,
                n == self.data@.len(),
                i <= len,
                out@ == self.data@.subrange(start as int, start + i),
            decreases len - i,
        {
            out.push(self.data[start + i]);
            i = i + 1;
            assert(out@ =~= self.data@.subrange(start as int, start + i));
        }
        self.pos = start + len;
        Some(out)
    }

    fn u16_at(&self, i: usize) -> (r: u16)
        requires
            i + 1 < self.data@.len(),
        ensures
            r as int == be16(self.data@, i as int),
    {
        let _n = self.data.len();
        let hi = self.data[i] as u16;
        let lo = self.data[i + 1] as u16;
        hi * 256 + lo
    }
}

/// Row `k` of a table whose rows start at `start` reads as `e`.
pub open spec fn row_read(b: Seq<u8>, start: int, k: int, e: ExceptionTableEntry) -> bool {
    let q = start + 8 * k;
    &&& e.start_pc == be16(b, q)
    &&& e.end_pc == be16(b, q + 2)
    &&& e.handler_pc == be16(b, q + 4)
    &&& e.catch_type == be16(b, q + 6)
}

/// One row of a method's exception table, as it stands in the class file.
pub struct ExceptionTableEntry {
    pub start_pc: u16,
    pub end_pc: u16,
    pub handler_pc: u16,
    pub catch_type: u16,
}

impl ExceptionTableEntry {
    pub fn new(start_pc: u16, end_pc: u16, handler_pc: u16, catch_type: u16) -> (r: ExceptionTableEntry)
        ensures
            r.start_pc == start_pc,
            r.end_pc == end_pc,
            r.handler_pc == handler_pc,
            r.catch_type == catch_type,
    {
        ExceptionTableEntry { start_pc, end_pc, handler_pc, catch_type }
    }

    /// Reads a table length, then that many rows of four big-endian `u16`
    /// values. `None`, with the cursor unmoved, when the bytes run out.
    pub fn read_exception_table(reader: &mut ClassReader) -> (r: Option<Vec<ExceptionTableEntry>>)
        ensures
            final(reader).data@ == old(reader).data@,
            ({
                let b = old(reader).data@;
                let p = old(reader).pos as int;
                let fits = p + 2 <= b.len() && p + 2 + 8 * be16(b, p) <= b.len();
                &&& r.is_some() == fits
                &&& r.is_none() ==> final(reader).pos == old(reader).pos
                &&& r.is_some() ==> {
                    let t = r.unwrap()@;
                    &&& final(reader).pos == p + 2 + 8 * be16(b, p)
                    &&& t.len() == be16(b, p)
                    &&& forall|k: int| 0 <= k < t.len() ==> #[trigger] row_read(b, p + 2, k, t[k])
                }
            }),
    {
        let len = reader.data.len();
        if reader.pos > len || len - reader.pos < 2 {
            return None;
        }
        let n = reader.u16_at(reader.pos);
        let start = reader.pos + 2;
        if len - start < 8 * (n as usize) {
            return None;
        }
        let mut table: Vec<ExceptionTableEntry> = Vec::new();
        let mut k: usize = 0;
        while k < n as usize
            invariant
                reader.data@.len() == len,
                start as int + 8 * (n as int) <= len,
                k <= n,
                table@.len() == k,
                forall|j: int| 0 <= j < k ==> #[trigger] row_read(reader.data@, start as int, j, table@[j]),
            decreases n - k,
        {
            let q = start + 8 * k;
            let e = ExceptionTableEntry {
                start_pc: reader.u16_at(q),
                end_pc: reader.u16_at(q + 2),
                handler_pc: reader.u16_at(q + 4),
                catch_type: reader.u16_at(q + 6),
            };
            let ghost prev = table@;
            table.push(e);
            proof {
                assert(table@ == prev.push(e));
                assert(table@[k as int] == e);
                assert(row_read(reader.data@, start as int, k as int, table@[k as int]));
                assert(forall|j: int| 0 <= j < k ==> table@[j] == prev[j]);
            }
            k = k + 1;
        }
        reader.pos = start + 8 * (n as usize);
        Some(table)
    }

    pub fn start_pc(&self) -> (r: u16)
        ensures
            r == self.start_pc,
    {
        self.start_pc
    }

    pub fn end_pc(&self) -> (r: u16)
        ensures
            r == self.end_pc,
    {
        self.end_pc
    }

    pub fn handler_pc(&self) -> (r: u16)
        ensures
            r == self.handler_pc,
    {
        self.handler_pc
    }

    pub fn catch_type(&self) -> (r: u16)
        ensures
            r == self.catch_type,
    {
        self.catch_type
    }
}

/// Upper-case hex digit of a value below 16.
pub open spec fn hex_digit(d: int) -> char {
    if d < 10 {
        (48 + d) as char
    } else {
        (55 + d) as char
    }
}

/// Two hex digits of a byte.
pub open spec fn hex2(v: u8) -> Seq<char> {
    seq![hex_digit(v as int / 16), hex_digit(v as int % 16)]
}

/// `[`, then each byte as two hex digits followed by two spaces.
pub open spec fn hex_listing(b: Seq<u8>) -> Seq<char>
    decreases b.len(),
{
    if b.len() == 0 {
        seq!['[']
    } else {
        hex_listing(b.drop_last()) + hex2(b.last()) + seq![' ', ' ']
    }
}

fn digit_char(d: u8) -> (c: char)
    requires
        d < 16,
    ensures
        c == hex_digit(d as int),
{
    if d < 10 {
        (48 + d) as char
    } else {
        (55 + d) as char
    }
}

fn to_16(v: u8) -> (r: (char, char))
    ensures
        seq![r.0, r.1] == hex2(v),
{
    (digit_char(v / 16), digit_char(v % 16))
}

/// Relies on `String::push`: appends one character at the end.
#[verifier::external_body]
pub(crate) fn push_char(s: &mut String, c: char)
    ensures
        final(s)@ == old(s)@.push(c),
{
    s.push(c);
}

/// Shows bytes in hex for diagnostics.
pub fn display_16(vec: Vec<u8>) -> (r: String)
    ensures
        r@ == hex_listing(vec@),
{
    let mut s = String::new();
    push_char(&mut s, '[');
    proof {
        assert(s@ =~= hex_listing(vec@.subrange(0, 0)));
    }
    let mut i: usize = 0;
    while i < vec.len()
        invariant
            i <= vec@.len(),
            s@ == hex_listing(vec@.subrange(0, i as int)),
        decreases vec@.len() - i,
    {
        let (a, b) = to_16(vec[i]);
        push_char(&mut s, a);
        push_char(&mut s, b);
        push_char(&mut s, ' ');
        push_char(&mut s, ' ');
        proof {
            let t = vec@.subrange(0, i + 1);
            assert(t.drop_last() =~= vec@.subrange(0, i as int));
            assert(t.last() == vec@[i as int]);
            assert(s@ =~= hex_listing(t));
        }
        i = i + 1;
    }
    proof {
        assert(vec@.subrange(0, vec@.len() as int) =~= vec@);
    }
    s
}

} // verus!

verus! {

/// The `Code` attribute of a method.
pub struct CodeAttribute {
    pub max_stack: u16,
    pub max_locals: u16,
    pub code: Vec<u8>,
    pub exception_table: Vec<ExceptionTableEntry>,
}

/// A field or method as the decoder hands it over.
pub struct MemberInfo {
    pub access_flags: u16,
    pub name: String,
    pub descriptor: String,
    /// Pool index of a `ConstantValue` attribute; 0 when there is none.
    pub constant_value_index: u16,
    pub code: Option<CodeAttribute>,
}

/// An immutable, already-decoded class descriptor.
pub struct ClassFile {
    pub access_flags: u16,
    pub name: String,
    pub super_class_name: Option<String>,
    pub interface_names: Vec<String>,
    pub constant_pool: Vec<crate::constant_pool::RawConstant>,
    pub fields: Vec<MemberInfo>,
    pub methods: Vec<MemberInfo>,
    pub source_file: Option<String>,
}

impl ClassFile {
    /// The descriptor of an array class: public, extends `java/lang/Object`,
    /// implements `java/lang/Cloneable` and `java/io/Serializable`, and
    /// declares nothing of its own.
    pub fn new_array_class(name: &str) -> (r: ClassFile)
        ensures
            r.name@ == name@,
            r.access_flags == crate::access::PUBLIC,
            r.super_class_name matches Some(n) && n@ == "java/lang/Object"@,
            r.interface_names@.len() == 2,
            r.interface_names@[0]@ == "java/lang/Cloneable"@,
            r.interface_names@[1]@ == "java/io/Serializable"@,
            r.constant_pool@.len() == 0,
            r.fields@.len() == 0,
            r.methods@.len() == 0,
    {
        ClassFile {
            access_flags: crate::access::PUBLIC,
            name: String::from_str(name),
            super_class_name: Some(String::from_str("java/lang/Object")),
            interface_names: vec![String::from_str("java/lang/Cloneable"), String::from_str("java/io/Serializable")],
            constant_pool: Vec::new(),
            fields: Vec::new(),
            methods: Vec::new(),
            source_file: None,
        }
    }

    /// The descriptor of a primitive type's class (`int`, `void`, ...):
    /// public, with no superclass and nothing declared.
    pub fn primitive_class(name: &str) -> (r: ClassFile)
        ensures
            r.name@ == name@,
            r.access_flags == crate::access::PUBLIC,
            r.super_class_name.is_none(),
            r.interface_names@.len() == 0,
            r.constant_pool@.len() == 0,
            r.fields@.len() == 0,
            r.methods@.len() == 0,
    {
        ClassFile {
            access_flags: crate::access::PUBLIC,
            name: String::from_str(name),
            super_class_name: None,
            interface_names: Vec::new(),
            constant_pool: Vec::new(),
            fields: Vec::new(),
            methods: Vec::new(),
            source_file: None,
        }
    }
}

} // verus!
