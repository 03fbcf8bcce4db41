use std::io;
use std::io::Write;

use lark_jvm::native::file_output_stream::byte_change;

#[test]
fn test_stdout() {
    let str = "123456789".to_string();
    let bytes = str.as_bytes();
    let mut out = io::stdout();
    let _ = out.write(bytes);
}

#[test]
fn test_char() {
    let bytes: Vec<u8> = vec![0; 8];
    let string = String::from_utf8(bytes).unwrap();
    println!("{},", string);
}

#[test]
fn byte_change_reinterprets_signed_bytes() {
    assert_eq!(byte_change(&vec![0i8, 1, -1, -128, 127]), vec![0u8, 1, 255, 128, 127]);
}
