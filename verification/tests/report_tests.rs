use gifpipe::report::{success_message, u128_to_dec};
use gifpipe::errors::RuntimeError;

#[test]
fn decimal_rendering() {
    assert_eq!(u128_to_dec(0), "0");
    assert_eq!(u128_to_dec(7), "7");
    assert_eq!(u128_to_dec(10), "10");
    assert_eq!(u128_to_dec(120034), "120034");
}

#[test]
fn success_line_names_file_and_milliseconds() {
    let msg = success_message(&"out.gif".to_string(), 12);
    assert_eq!(msg, "Wrote out.gif in 12 ms");
}

#[test]
fn success_line_with_zero_milliseconds() {
    let msg = success_message(&"a/b.gif".to_string(), 0);
    assert_eq!(msg, "Wrote a/b.gif in 0 ms");
}

#[test]
fn each_error_kind_has_its_message() {
    let e = RuntimeError::DirectoryNotFound { dir: "pics".to_string() };
    assert_eq!(e.message(), "No such directory \"pics\"");
    let e = RuntimeError::DestinationUnwritable { dest: "o.gif".to_string() };
    assert_eq!(e.message(), "Couldn't write to output 'o.gif'");
    let e = RuntimeError::Decode { detail: "bad header".to_string() };
    assert_eq!(e.message(), "Image load error: bad header");
    let e = RuntimeError::Encode { detail: "No frames sent for engiffening".to_string() };
    assert_eq!(e.message(), "No frames sent for engiffening");
}
