use dbg_rs::error::DbgError;
use dbg_rs::value::{
    engine_count, le_decode, scratch_len, DebugValue, Float32Bits, Float64Bits, TaggedValue, DEBUG_VALUE_FLOAT32,
    DEBUG_VALUE_FLOAT64, DEBUG_VALUE_INT32, DEBUG_VALUE_INT64, DEBUG_VALUE_RAW_LEN,
};

fn tagged(prefix: &[u8], value_type: u32) -> TaggedValue {
    let mut raw = vec![0xeeu8; DEBUG_VALUE_RAW_LEN];
    raw[..prefix.len()].copy_from_slice(prefix);
    TaggedValue { raw, tail: 0, value_type }
}

#[test]
fn int64_literal_round_trips() {
    let v = tagged(&0x500u64.to_le_bytes(), DEBUG_VALUE_INT64);
    assert_eq!(u64::from_debug_value(&v), 0x500);
    let v = tagged(&u64::MAX.to_le_bytes(), DEBUG_VALUE_INT64);
    assert_eq!(u64::from_debug_value(&v), u64::MAX);
}

#[test]
fn int32_literal_round_trips() {
    let v = tagged(&0xdead_beefu32.to_le_bytes(), DEBUG_VALUE_INT32);
    assert_eq!(u32::from_debug_value(&v), 0xdead_beef);
}

#[test]
fn float64_literal_round_trips() {
    let v = tagged(&1.5f64.to_le_bytes(), DEBUG_VALUE_FLOAT64);
    let bits = Float64Bits::from_debug_value(&v);
    assert_eq!(f64::from_bits(bits.0), 1.5);
}

#[test]
fn float32_literal_round_trips() {
    let v = tagged(&(-2.25f32).to_le_bytes(), DEBUG_VALUE_FLOAT32);
    let bits = Float32Bits::from_debug_value(&v);
    assert_eq!(f32::from_bits(bits.0), -2.25);
}

#[test]
fn value_type_tags() {
    assert_eq!(<u64 as DebugValue>::value_type(), 4);
    assert_eq!(<u32 as DebugValue>::value_type(), 3);
    assert_eq!(<Float64Bits as DebugValue>::value_type(), 6);
    assert_eq!(<Float32Bits as DebugValue>::value_type(), 5);
}

#[test]
fn le_decode_reads_prefix_only() {
    assert_eq!(le_decode(&[0x34, 0x12, 0xff], 2), 0x1234);
    assert_eq!(le_decode(&[0xff], 0), 0);
}

#[test]
fn unaligned_pattern_is_reconstructed() {
    let pattern = [0x01u8, 0x23, 0x45, 0x67, 0x89, 0xab, 0xcd, 0xef];
    let mut memory = vec![0u8; 3];
    memory.extend_from_slice(&pattern);
    let value = le_decode(&memory[3..], 8);
    assert_eq!(value.to_le_bytes(), pattern);
}

#[test]
fn scratch_len_of_sized_and_zero_sized_types() {
    assert_eq!(scratch_len::<u64>(), Ok(8));
    assert_eq!(scratch_len::<[u16; 3]>(), Ok(6));
    assert_eq!(scratch_len::<()>(), Err(DbgError::InvalidSize(0)));
}

#[test]
fn engine_count_fits_or_is_refused() {
    assert_eq!(engine_count(0), Ok(0));
    assert_eq!(engine_count(4096), Ok(4096));
    assert_eq!(engine_count(u32::MAX as usize), Ok(u32::MAX));
    assert_eq!(engine_count(u32::MAX as usize + 1), Err(DbgError::InvalidSize(u32::MAX as usize + 1)));
}
