use dbg_rs::error::DbgError;
use dbg_rs::text::{encode_text, output_text, text_from_sized_buffer, to_cstring, CSTR_MAX_BYTES, SYMBOL_NAME_CAPACITY};

#[test]
fn encode_text_appends_terminator() {
    assert_eq!(encode_text("abc"), Ok(vec![97, 98, 99, 0]));
}

#[test]
fn encode_text_of_empty_text_is_terminator_alone() {
    assert_eq!(encode_text(""), Ok(vec![0]));
}

#[test]
fn command_with_embedded_nul_is_refused() {
    assert_eq!(encode_text(".echo a\0b"), Err(DbgError::InvalidString(7)));
}

#[test]
fn to_cstring_reports_first_nul() {
    assert_eq!(to_cstring(vec![1, 0, 2, 0]), Err(DbgError::InvalidString(1)));
    assert_eq!(to_cstring(vec![0]), Err(DbgError::InvalidString(0)));
}

#[test]
fn to_cstring_keeps_multibyte_text() {
    let bytes = "é".as_bytes().to_vec();
    assert_eq!(to_cstring(bytes), Ok(vec![0xc3, 0xa9, 0]));
}

#[test]
fn output_text_with_and_without_newline() {
    assert_eq!(output_text("hi", true), Ok(vec![104, 105, 10, 0]));
    assert_eq!(output_text("hi", false), Ok(vec![104, 105, 0]));
    assert_eq!(output_text("a\0", true), Err(DbgError::InvalidString(1)));
}

#[test]
fn zero_reported_size_is_invalid_size() {
    let buffer = vec![0u8; SYMBOL_NAME_CAPACITY];
    assert_eq!(text_from_sized_buffer(buffer, 0), Err(DbgError::InvalidSize(0)));
}

#[test]
fn symbol_name_drops_terminator() {
    let mut buffer = vec![0u8; SYMBOL_NAME_CAPACITY];
    let name = b"ntdll!NtClose";
    buffer[..name.len()].copy_from_slice(name);
    let size = (name.len() + 1) as u32;
    assert_eq!(text_from_sized_buffer(buffer, size), Ok("ntdll!NtClose".to_string()));
}

#[test]
fn short_cstr_read_ignores_trailing_bytes() {
    let mut buffer = vec![0x41u8; CSTR_MAX_BYTES];
    buffer[..6].copy_from_slice(b"hello\0");
    assert_eq!(text_from_sized_buffer(buffer, 6), Ok("hello".to_string()));
}

#[test]
fn cstr_of_only_terminator_is_empty() {
    let buffer = vec![0u8; CSTR_MAX_BYTES];
    assert_eq!(text_from_sized_buffer(buffer, 1), Ok(String::new()));
}

#[test]
fn size_beyond_buffer_pads_with_zeros() {
    assert_eq!(text_from_sized_buffer(vec![65], 3), Ok("A\0".to_string()));
}

#[test]
fn invalid_utf8_is_replaced() {
    let buffer = vec![0x66, 0xff, 0x6f, 0];
    assert_eq!(text_from_sized_buffer(buffer, 4), Ok("f\u{FFFD}o".to_string()));
}

#[test]
fn valid_utf8_is_decoded() {
    let buffer = vec![0xc3, 0xa9, 0x21, 0];
    assert_eq!(text_from_sized_buffer(buffer, 4), Ok("é!".to_string()));
}

#[test]
fn symbol_name_goes_back_unchanged() {
    let mut buffer = vec![0u8; SYMBOL_NAME_CAPACITY];
    let name = b"kernel32!CreateFileW";
    buffer[..name.len()].copy_from_slice(name);
    let resolved = text_from_sized_buffer(buffer, (name.len() + 1) as u32).unwrap();
    let mut expected = name.to_vec();
    expected.push(0);
    assert_eq!(encode_text(&resolved), Ok(expected));
}
