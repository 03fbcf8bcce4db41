//! Natives of `java/io/FileOutputStream`. The bytes to write are taken from
//! the Java array here; writing them is the host's part.
use vstd::prelude::*;
use crate::heap::{ArrayData, JavaError};
use crate::native::{native_of, NativeMethod, Registry};
use crate::thread::Frame;

verus! {

pub fn init(registry: &mut Registry)
    ensures
        final(registry).entries@.len() == old(registry).entries@.len() + 2,
        native_of(final(registry).entries@, "java/io/FileOutputStream"@, "writeBytes"@, "([BIIZ)V"@) == Some(NativeMethod::WriteBytes),
        native_of(final(registry).entries@, "java/io/FileOutputStream"@, "initIDs"@, "()V"@) == Some(NativeMethod::InitIds),
        forall|c: Seq<char>, n: Seq<char>, d: Seq<char>|
            (!(c == "java/io/FileOutputStream"@ && n == "writeBytes"@ && d == "([BIIZ)V"@) && !(c == "java/io/FileOutputStream"@ && n == "initIDs"@ && d == "()V"@)) ==> #[trigger] native_of(final(registry).entries@, c, n, d) == native_of(old(registry).entries@, c, n, d),
{
    proof {
        reveal_strlit("writeBytes");
        assert("writeBytes"@.len() == 10);
        reveal_strlit("initIDs");
        assert("initIDs"@.len() == 7);
    }
    registry.register("java/io/FileOutputStream", "writeBytes", "([BIIZ)V", NativeMethod::WriteBytes);
    registry.register("java/io/FileOutputStream", "initIDs", "()V", NativeMethod::InitIds);
}

/// `FileOutputStream.initIDs()V`: nothing to set up.
pub fn init_ids(frame: &mut Frame)
    ensures
        *final(frame) == *old(frame),
{
}

/// Java bytes reinterpreted as unsigned bytes.
pub fn byte_change(java_bytes: &Vec<i8>) -> (r: Vec<u8>)
    ensures
        r@ == java_bytes@.map_values(|b: i8| b as u8),
{
    let mut v: Vec<u8> = Vec::new();
    let mut i: usize = 0;
    while i < java_bytes.len()
        invariant
            i <= java_bytes@.len(),
            v@ == java_bytes@.subrange(0, i as int).map_values(|b: i8| b as u8),
        decreases java_bytes@.len() - i,
    {
        v.push(#[verifier::truncate] (java_bytes[i] as u8));
        i = i + 1;
        assert(v@ =~= java_bytes@.subrange(0, i as int).map_values(|b: i8| b as u8));
    }
    assert(java_bytes@.subrange(0, java_bytes@.len() as int) =~= java_bytes@);
    v
}

/// The bytes `b[off .. off + len]` that `writeBytes(byte[] b, int off, int
/// len, boolean append)` writes; an out-of-range slice is an
/// `ArrayIndexOutOfBoundsException`, an array of another kind an
/// `ArrayStoreException`.
pub fn write_bytes(array: &ArrayData, off: i32, len: i32) -> (r: Result<Vec<u8>, JavaError>)
    ensures
        !(array is Bytes) ==> r == Err::<Vec<u8>, JavaError>(JavaError::ArrayStore),
        array is Bytes ==> {
            let b = array->Bytes_0@;
            if 0 <= off && 0 <= len && off + len <= b.len() {
                r matches Ok(v) && v@ == b.subrange(off as int, off + len).map_values(|x: i8| x as u8)
            } else {
                r == Err::<Vec<u8>, JavaError>(JavaError::ArrayIndexOutOfBounds)
            }
        },
{
    match array {
        ArrayData::Bytes(b) => {
            if off < 0 || len < 0 || off as usize > b.len() || len as usize > b.len() - off as usize {
                return Err(JavaError::ArrayIndexOutOfBounds);
            }
            let mut slice: Vec<i8> = Vec::new();
            let mut i: usize = off as usize;
            let end: usize = off as usize + len as usize;
            while i < end
                invariant
                    0 <= off,
                    0 <= len,
                    off as int <= i <= end,
                    end == off + len,
                    end <= b@.len(),
                    slice@ == b@.subrange(off as int, i as int),
                decreases end - i,
            {
                let ghost prev = slice@;
                let x = b[i];
                slice.push(x);
                proof {
                    assert(slice@ == prev.push(x));
                    assert(b@.subrange(off as int, i + 1) =~= b@.subrange(off as int, i as int).push(b@[i as int]));
                }
                i = i + 1;
            }
            Ok(byte_change(&slice))
        },
        _ => Err(JavaError::ArrayStore),
    }
}

} // verus!
