//! The engine's tagged evaluation result, and the scalar kinds read out of it.
use crate::error::DbgError;
use vstd::layout::size_of;
use vstd::prelude::*;

verus! {

/// Tag asking the engine for a 32-bit integer.
pub const DEBUG_VALUE_INT32: u32 = 3;

/// Tag asking the engine for a 64-bit integer.
pub const DEBUG_VALUE_INT64: u32 = 4;

/// Tag asking the engine for a 32-bit float.
pub const DEBUG_VALUE_FLOAT32: u32 = 5;

/// Tag asking the engine for a 64-bit float.
pub const DEBUG_VALUE_FLOAT64: u32 = 6;

/// Bytes in the payload union of a tagged value.
pub const DEBUG_VALUE_RAW_LEN: usize = 24;

/// A tagged value as the engine hands it back: the payload union as raw
/// bytes, the word that follows it, and the type tag.
pub struct TaggedValue {
    pub raw: Vec<u8>,
    pub tail: u32,
    pub value_type: u32,
}

impl TaggedValue {
    /// The payload holds exactly the union's bytes.
    pub open spec fn wf(&self) -> bool {
        self.raw@.len() == DEBUG_VALUE_RAW_LEN
    }
}

/// `256` to the power `n`.
pub open spec fn pow256(n: nat) -> nat
    decreases n,
{
    if n == 0 {
        1
    } else {
        256 * pow256((n - 1) as nat)
    }
}

/// The number whose little-endian bytes are `bytes`.
pub open spec fn le_value(bytes: Seq<u8>) -> nat
    decreases bytes.len(),
{
    if bytes.len() == 0 {
        0
    } else {
        bytes[0] as nat + 256 * le_value(bytes.drop_first())
    }
}

/// The `n` low little-endian bytes of `v`.
pub open spec fn le_bytes(v: nat, n: nat) -> Seq<u8>
    decreases n,
{
    if n == 0 {
        seq![]
    } else {
        seq![(v % 256) as u8] + le_bytes(v / 256, (n - 1) as nat)
    }
}

proof fn lemma_pow256_positive(n: nat)
    ensures
        pow256(n) > 0,
    decreases n,
{
    if n > 0 {
        lemma_pow256_positive((n - 1) as nat);
    }
}

proof fn lemma_pow256_monotone(a: nat, b: nat)
    requires
        a <= b,
    ensures
        pow256(a) <= pow256(b),
    decreases b,
{
    if a < b {
        lemma_pow256_monotone(a, (b - 1) as nat);
        lemma_pow256_positive((b - 1) as nat);
    }
}

proof fn lemma_le_value_bound(bytes: Seq<u8>)
    ensures
        le_value(bytes) < pow256(bytes.len()),
    decreases bytes.len(),
{
    if bytes.len() > 0 {
        lemma_le_value_bound(bytes.drop_first());
        let rest = le_value(bytes.drop_first());
        let p = pow256((bytes.len() - 1) as nat);
        assert(bytes[0] as nat + 256 * rest < 256 * p) by (nonlinear_arith)
            requires
                bytes[0] < 256,
                rest < p,
        ;
    }
}

/// Reading back the little-endian bytes of `v` gives `v`, when it fits.
pub proof fn lemma_le_value_of_bytes(v: nat, n: nat)
    requires
        v < pow256(n),
    ensures
        le_value(le_bytes(v, n)) == v,
        le_bytes(v, n).len() == n,
    decreases n,
{
    if n > 0 {
        let p = pow256((n - 1) as nat);
        assert(v / 256 < p) by (nonlinear_arith)
            requires
                v < 256 * p,
        ;
        lemma_le_value_of_bytes(v / 256, (n - 1) as nat);
        let b = le_bytes(v, n);
        assert(b.drop_first() =~= le_bytes(v / 256, (n - 1) as nat));
        assert(v == v % 256 + 256 * (v / 256)) by (nonlinear_arith);
    }
}

/// A value read from memory as little-endian bytes holds exactly those
/// bytes: writing it back out gives the pattern that was read.
pub proof fn lemma_le_bytes_of_value(bytes: Seq<u8>)
    ensures
        le_bytes(le_value(bytes), bytes.len()) == bytes,
    decreases bytes.len(),
{
    if bytes.len() > 0 {
        let rest = le_value(bytes.drop_first());
        let v = bytes[0] as nat + 256 * rest;
        assert(v % 256 == bytes[0] as nat && v / 256 == rest) by (nonlinear_arith)
            requires
                v == bytes[0] as nat + 256 * rest,
                bytes[0] < 256,
        ;
        lemma_le_bytes_of_value(bytes.drop_first());
        assert(le_bytes(v, bytes.len()) =~= bytes);
    }
}

/// The number held by the first `n` bytes of `bytes`, little-endian.
pub fn le_decode(bytes: &[u8], n: usize) -> (r: u64)
    requires
        n <= 8,
        n <= bytes@.len(),
    ensures
        r as nat == le_value(bytes@.take(n as int)),
        r < pow256(n as nat),
{
    let mut acc: u64 = 0;
    let mut i: usize = n;
    while i > 0
        invariant
            i <= n <= 8,
            n <= bytes@.len(),
            acc as nat == le_value(bytes@.subrange(i as int, n as int)),
        decreases i,
    {
        let ghost tail = bytes@.subrange(i as int, n as int);
        proof {
            lemma_le_value_bound(tail);
            lemma_pow256_monotone(tail.len(), 7);
            reveal_with_fuel(pow256, 8);
            assert(pow256(7) == 72057594037927936nat);
        }
        i = i - 1;
        let b = bytes[i];
        assert(acc as nat * 256 + b as nat <= 18446744073709551615nat) by (nonlinear_arith)
            requires
                acc < 72057594037927936nat,
                b < 256,
        ;
        acc = acc * 256 + b as u64;
        assert(bytes@.subrange(i as int, n as int).drop_first() =~= tail);
    }
    assert(bytes@.subrange(0, n as int) =~= bytes@.take(n as int));
    proof {
        lemma_le_value_bound(bytes@.take(n as int));
    }
    acc
}

/// A scalar kind that can be read out of a tagged value: the tag the engine
/// is asked for, and where the scalar stands in the payload.
pub trait DebugValue: Sized {
    /// The tag of this kind.
    spec fn spec_value_type() -> u32;

    /// The scalar that a payload holds for this kind.
    spec fn spec_from_raw(raw: Seq<u8>) -> Self;

    /// The tag the engine is asked to produce for this kind.
    fn value_type() -> (t: u32)
        ensures
            t == Self::spec_value_type(),
    ;

    /// Reads this kind out of a tagged value.
    fn from_debug_value(val: &TaggedValue) -> (r: Self)
        requires
            val.wf(),
        ensures
            r == Self::spec_from_raw(val.raw@),
    ;
}

/// The bit pattern of a 64-bit float read out of a tagged value.
#[derive(Debug, Clone, Copy, PartialEq, Eq, Structural)]
pub struct Float64Bits(pub u64);

/// The bit pattern of a 32-bit float read out of a tagged value.
#[derive(Debug, Clone, Copy, PartialEq, Eq, Structural)]
pub struct Float32Bits(pub u32);

impl DebugValue for u64 {
    open spec fn spec_value_type() -> u32 {
        DEBUG_VALUE_INT64
    }

    open spec fn spec_from_raw(raw: Seq<u8>) -> u64 {
        le_value(raw.take(8)) as u64
    }

    fn value_type() -> (t: u32) {
        DEBUG_VALUE_INT64
    }

    fn from_debug_value(val: &TaggedValue) -> (r: u64) {
        le_decode(val.raw.as_slice(), 8)
    }
}

impl DebugValue for u32 {
    open spec fn spec_value_type() -> u32 {
        DEBUG_VALUE_INT32
    }

    open spec fn spec_from_raw(raw: Seq<u8>) -> u32 {
        le_value(raw.take(4)) as u32
    }

    fn value_type() -> (t: u32) {
        DEBUG_VALUE_INT32
    }

    fn from_debug_value(val: &TaggedValue) -> (r: u32) {
        proof {
            reveal_with_fuel(pow256, 5);
        }
        le_decode(val.raw.as_slice(), 4) as u32
    }
}

impl DebugValue for Float64Bits {
    open spec fn spec_value_type() -> u32 {
        DEBUG_VALUE_FLOAT64
    }

    open spec fn spec_from_raw(raw: Seq<u8>) -> Float64Bits {
        Float64Bits(le_value(raw.take(8)) as u64)
    }

    fn value_type() -> (t: u32) {
        DEBUG_VALUE_FLOAT64
    }

    fn from_debug_value(val: &TaggedValue) -> (r: Float64Bits) {
        Float64Bits(le_decode(val.raw.as_slice(), 8))
    }
}

impl DebugValue for Float32Bits {
    open spec fn spec_value_type() -> u32 {
        DEBUG_VALUE_FLOAT32
    }

    open spec fn spec_from_raw(raw: Seq<u8>) -> Float32Bits {
        Float32Bits(le_value(raw.take(4)) as u32)
    }

    fn value_type() -> (t: u32) {
        DEBUG_VALUE_FLOAT32
    }

    fn from_debug_value(val: &TaggedValue) -> (r: Float32Bits) {
        proof {
            reveal_with_fuel(pow256, 5);
        }
        Float32Bits(le_decode(val.raw.as_slice(), 4) as u32)
    }
}

/// When the engine evaluates to `v` in a kind `width` bytes wide, it writes
/// `v`'s little-endian bytes at the start of the payload: the kind's reading
/// gives back `v` exactly, whatever the rest of the payload holds.
pub proof fn lemma_eval_round_trip(v: nat, width: nat, raw: Seq<u8>)
    requires
        width == 4 || width == 8,
        v < pow256(width),
        raw.len() == DEBUG_VALUE_RAW_LEN,
        raw.take(width as int) == le_bytes(v, width),
    ensures
        width == 8 ==> u64::spec_from_raw(raw) == v && Float64Bits::spec_from_raw(raw) == Float64Bits(
            v as u64,
        ),
        width == 4 ==> u32::spec_from_raw(raw) == v && Float32Bits::spec_from_raw(raw) == Float32Bits(
            v as u32,
        ),
{
    lemma_le_value_of_bytes(v, width);
    reveal_with_fuel(pow256, 9);
}

/// The length of the scratch buffer that a read of one `T` from the target
/// fills: the size of `T`, or `InvalidSize(0)` for a type of size zero.
pub fn scratch_len<T>() -> (r: Result<usize, DbgError>)
    ensures
        size_of::<T>() == 0 ==> r == Err::<usize, DbgError>(DbgError::InvalidSize(0)),
        size_of::<T>() > 0 ==> r == Ok::<usize, DbgError>(size_of::<T>() as usize),
{
    let size = core::mem::size_of::<T>();
    if size == 0 {
        Err(DbgError::InvalidSize(size))
    } else {
        Ok(size)
    }
}

/// The count of a buffer or list as the engine takes it: a 32-bit number,
/// or `InvalidSize` with the length when it does not fit.
pub fn engine_count(len: usize) -> (r: Result<u32, DbgError>)
    ensures
        len <= u32::MAX ==> r == Ok::<u32, DbgError>(len as u32),
        len > u32::MAX ==> r == Err::<u32, DbgError>(DbgError::InvalidSize(len)),
{
    if len <= u32::MAX as usize {
        Ok(len as u32)
    } else {
        Err(DbgError::InvalidSize(len))
    }
}

} // verus!
