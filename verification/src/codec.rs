//! Binary encoding of the primitive protocol types: VarInt, big-endian
//! fixed-width integers, booleans and length-prefixed UTF-8 strings.
//!
//! Every encoder appends to a byte vector and every decoder consumes a prefix
//! of a byte slice.  Each one is stated against a spec function over byte
//! sequences, and the round trip `decode(encode(x) ++ rest) == (x, rest)` is
//! proved for each of them.
use vstd::prelude::*;
use vstd::string::StringSliceAdditionalSpecFns;

verus! {

/// Reasons a decoder refuses its input.
#[derive(Debug, PartialEq, Eq, Clone, Copy, Structural)]
pub enum DecodeError {
    /// The input ended before the value was complete.
    UnexpectedEof,
    /// A VarInt ran over its five-byte limit.
    VarIntTooLarge,
    /// A boolean byte was neither 0 nor 1.
    InvalidBool,
    /// A length prefix was negative.
    NegativeLength,
    /// A length prefix asked for more bytes than the input holds.
    NotEnoughData,
    /// A string was longer than the protocol allows.
    StringTooLong,
    /// A string's bytes were not valid UTF-8.
    InvalidUtf8,
    /// An NBT tag byte was not the one the format asks for at that place.
    UnexpectedNbtTag,
    /// An NBT tag byte named no known tag type.
    UnknownNbtTag,
}

/// Reasons an encoder refuses its input.
#[derive(Debug, PartialEq, Eq, Clone, Copy, Structural)]
pub enum EncodeError {
    /// A string was longer than the protocol allows.
    StringTooLong,
    /// A byte slice was longer than the bound placed on it.
    TooManyBytes,
    /// A sequence had more elements than a VarInt count can hold.
    TooManyElements,
}

/// Maximum number of UTF-16 code units of a protocol string.
pub const MAX_STRING_CHARS: usize = 32767;

/// A 32-bit integer that travels in the LEB128-like variable-length form
/// of the protocol (one to five bytes, seven value bits per byte).
#[derive(Debug, PartialEq, Eq, Clone, Copy, Structural)]
pub struct VarInt(pub i32);

// ---------------------------------------------------------------------------
// VarInt
// ---------------------------------------------------------------------------

/// The bytes of an unsigned value in the seven-bits-per-byte form:
/// low group first, high bit set on every byte but the last.
pub open spec fn varint_bytes(x: nat) -> Seq<u8>
    decreases x,
{
    if x < 128 {
        seq![x as u8]
    } else {
        seq![((x % 128) + 128) as u8] + varint_bytes(x / 128)
    }
}

/// The encoding of a VarInt: its two's-complement bit pattern as an
/// unsigned 32-bit value, in the seven-bits-per-byte form.
pub open spec fn spec_varint_encode(v: i32) -> Seq<u8> {
    varint_bytes((v as u32) as nat)
}

/// Reads at most `budget` bytes of a seven-bits-per-byte value; the result
/// is the unbounded value of the groups read and the number of bytes read.
pub open spec fn varint_groups(s: Seq<u8>, budget: nat) -> Result<(nat, nat), DecodeError>
    decreases budget,
{
    if budget == 0 {
        Err(DecodeError::VarIntTooLarge)
    } else if s.len() == 0 {
        Err(DecodeError::UnexpectedEof)
    } else if s[0] < 128 {
        Ok((s[0] as nat, 1))
    } else {
        match varint_groups(s.drop_first(), (budget - 1) as nat) {
            Ok((v, n)) => Ok((((s[0] - 128) + 128 * v) as nat, n + 1)),
            Err(e) => Err(e),
        }
    }
}

/// What decoding a VarInt at the front of `s` gives: the value (its low 32
/// bits taken as a two's-complement integer) and the number of bytes read.
pub open spec fn spec_varint_decode(s: Seq<u8>) -> Result<(i32, nat), DecodeError> {
    match varint_groups(s, 5) {
        Ok((v, n)) => Ok((((v % 0x1_0000_0000) as u32) as i32, n)),
        Err(e) => Err(e),
    }
}

pub proof fn lemma_varint_bytes_len(x: nat)
    ensures
        1 <= varint_bytes(x).len(),
        x < 0x1_0000_0000 ==> varint_bytes(x).len() <= 5,
        x < 128 ==> varint_bytes(x).len() == 1,
        x < 16384 ==> varint_bytes(x).len() <= 2,
        x < 2097152 ==> varint_bytes(x).len() <= 3,
        x < 268435456 ==> varint_bytes(x).len() <= 4,
    decreases x,
{
    if x >= 128 {
        lemma_varint_bytes_len(x / 128);
    }
}

proof fn lemma_varint_groups_roundtrip(x: nat, rest: Seq<u8>, budget: nat)
    requires
        varint_bytes(x).len() <= budget,
    ensures
        varint_groups(varint_bytes(x) + rest, budget) == Ok::<(nat, nat), DecodeError>(
            (x, varint_bytes(x).len()),
        ),
    decreases x,
{
    let s = varint_bytes(x) + rest;
    if x < 128 {
        assert(s[0] == x as u8);
    } else {
        lemma_varint_bytes_len(x / 128);
        lemma_varint_groups_roundtrip(x / 128, rest, (budget - 1) as nat);
        assert(s.drop_first() =~= varint_bytes(x / 128) + rest);
        assert(s[0] == ((x % 128) + 128) as u8);
    }
}

/// Decoding the encoding of a VarInt, followed by anything, gives the value
/// back and consumes exactly the encoding.
pub proof fn lemma_varint_roundtrip(v: i32, rest: Seq<u8>)
    ensures
        spec_varint_decode(spec_varint_encode(v) + rest) == Ok::<(i32, nat), DecodeError>(
            (v, spec_varint_encode(v).len()),
        ),
        1 <= spec_varint_encode(v).len() <= 5,
{
    let x = (v as u32) as nat;
    lemma_varint_bytes_len(x);
    lemma_varint_groups_roundtrip(x, rest, 5);
    assert(((x % 0x1_0000_0000) as u32) == v as u32);
    assert(((v as u32) as i32) == v) by (bit_vector);
}

/// A successful reading consumes at least one byte and at most the budget.
pub proof fn lemma_varint_groups_len(s: Seq<u8>, budget: nat)
    ensures
        varint_groups(s, budget) matches Ok((v, n)) ==> 1 <= n <= s.len() && n <= budget,
    decreases budget,
{
    if budget > 0 && s.len() > 0 && s[0] >= 128 {
        lemma_varint_groups_len(s.drop_first(), (budget - 1) as nat);
    }
}

proof fn lemma_varint_groups_step(s: Seq<u8>, budget: nat)
    requires
        budget > 0,
        s.len() > 0,
        s[0] >= 128,
    ensures
        varint_groups(s, budget) == (match varint_groups(s.drop_first(), (budget - 1) as nat) {
            Ok((v, n)) => Ok((((s[0] - 128) + 128 * v) as nat, n + 1)),
            Err(e) => Err(e),
        }),
{
}

/// The value of the groups `s[0..k]` read in order, low group first.
pub open spec fn varint_prefix_value(s: Seq<u8>, k: nat) -> nat
    decreases k,
{
    if k == 0 || s.len() == 0 {
        0
    } else {
        ((s[0] % 128) + 128 * varint_prefix_value(s.drop_first(), (k - 1) as nat)) as nat
    }
}

/// 128 to the power `i`.
pub open spec fn pow128(i: nat) -> nat
    decreases i,
{
    if i == 0 {
        1
    } else {
        128 * pow128((i - 1) as nat)
    }
}

proof fn lemma_pow128_step(i: nat)
    ensures
        pow128(i + 1) == 128 * pow128(i),
        pow128(i) > 0,
    decreases i,
{
    if i > 0 {
        lemma_pow128_step((i - 1) as nat);
    }
}

/// Reading one more group adds that group times 128 to the power of its index.
proof fn lemma_varint_prefix_extend(s: Seq<u8>, k: nat)
    requires
        k < s.len(),
    ensures
        varint_prefix_value(s, k + 1) == varint_prefix_value(s, k) + (s[k as int] % 128)
            * pow128(k),
        pow128(k) > 0,
    decreases k,
{
    lemma_pow128_step(k);
    if k == 0 {
        assert(varint_prefix_value(s.drop_first(), 0) == 0);
    } else {
        let t = s.drop_first();
        lemma_varint_prefix_extend(t, (k - 1) as nat);
        assert(t[(k - 1) as int] == s[k as int]);
        lemma_pow128_step((k - 1) as nat);
        let a = varint_prefix_value(t, (k - 1) as nat);
        let g = (s[k as int] % 128) as int;
        let p = pow128((k - 1) as nat);
        assert(128 * (a + g * p) == 128 * a + g * (128 * p)) by (nonlinear_arith);
    }
}

/// Appends the VarInt encoding of `v`.
pub fn write_varint(v: i32, w: &mut Vec<u8>)
    ensures
        final(w)@ == old(w)@ + spec_varint_encode(v),
{
    let mut x: u32 = v as u32;
    let ghost start = old(w)@;
    proof {
        lemma_varint_bytes_len(x as nat);
    }
    while x >= 128
        invariant
            w@ + varint_bytes(x as nat) == start + spec_varint_encode(v),
        decreases x,
    {
        let b: u8 = ((x % 128) + 128) as u8;
        let ghost before = w@;
        w.push(b);
        let ghost old_x = x;
        x = x / 128;
        proof {
            assert(varint_bytes(old_x as nat) == seq![b] + varint_bytes(x as nat));
            assert(w@ + varint_bytes(x as nat) =~= before + varint_bytes(old_x as nat));
        }
    }
    let ghost before = w@;
    w.push(x as u8);
    proof {
        assert(varint_bytes(x as nat) =~= seq![x as u8]);
        assert(w@ =~= before + varint_bytes(x as nat));
    }
}

impl VarInt {
    /// Appends the encoding of this value.
    pub fn encode(&self, w: &mut Vec<u8>) -> (res: Result<(), EncodeError>)
        ensures
            res is Ok,
            final(w)@ == old(w)@ + spec_varint_encode(self.0),
    {
        write_varint(self.0, w);
        Ok(())
    }

    /// Number of bytes of the encoding of this value.
    pub fn written_size(&self) -> (n: usize)
        ensures
            n == spec_varint_encode(self.0).len(),
            1 <= n <= 5,
    {
        let mut x: u32 = self.0 as u32;
        let mut n: usize = 1;
        proof {
            lemma_varint_bytes_len(x as nat);
        }
        while x >= 128
            invariant
                n + varint_bytes(x as nat).len() == spec_varint_encode(self.0).len() + 1,
                spec_varint_encode(self.0).len() <= 5,
                1 <= n,
                varint_bytes(x as nat).len() >= 1,
            decreases x,
        {
            proof {
                lemma_varint_bytes_len((x / 128) as nat);
            }
            x = x / 128;
            n = n + 1;
        }
        n
    }

    /// Decodes a VarInt from the front of `r` and advances `r` past it.
    pub fn decode(r: &mut &[u8]) -> (res: Result<VarInt, DecodeError>)
        ensures
            match spec_varint_decode(old(r)@) {
                Ok((v, n)) => res == Ok::<VarInt, DecodeError>(VarInt(v)) && final(r)@ == old(r)@.skip(n as int),
                Err(e) => res == Err::<VarInt, DecodeError>(e),
            },
    {
        let ghost s = r@;
        let mut acc: u64 = 0;
        let mut mult: u64 = 1;
        let mut i: usize = 0;
        proof {
            assert(s.skip(0) =~= s);
        }
        while i < 5
            invariant
                s == old(r)@,
                i <= 5,
                r@ == s.skip(i as int),
                i <= s.len(),
                forall|j: int| 0 <= j < i ==> s[j] >= 128,
                acc == varint_prefix_value(s, i as nat),
                mult == pow128(i as nat),
                acc < mult,
                varint_groups(s, 5) == (match varint_groups(s.skip(i as int), (5 - i) as nat) {
                    Ok((v, n)) => Ok::<(nat, nat), DecodeError>(
                        ((acc + mult * v) as nat, n + i as nat),
                    ),
                    Err(e) => Err(e),
                }),
            decreases 5 - i,
        {
            if r.len() == 0 {
                return Err(DecodeError::UnexpectedEof);
            }
            let byte = r[0];
            let (_, rest) = r.split_at(1);
            *r = rest;
            proof {
                assert(r@ =~= s.skip((i + 1) as int));
                assert(s[i as int] == byte);
                lemma_varint_prefix_extend(s, i as nat);
                lemma_pow128_step(i as nat);
                assert(byte % 128 < 128);
                assert(acc + (byte % 128) as nat * mult < 128 * mult) by (nonlinear_arith)
                    requires
                        acc < mult,
                        (byte % 128) < 128,
                ;
                assert(mult <= 268435456) by {
                    reveal_with_fuel(pow128, 5);
                }
            }
            if byte < 128 {
                proof {
                    let t = s.skip(i as int);
                    assert(t[0] == byte);
                    assert(varint_groups(t, (5 - i) as nat) == Ok::<(nat, nat), DecodeError>(
                        (byte as nat, 1),
                    ));
                    assert(byte % 128 == byte);
                    assert(s.skip((i + 1) as int) =~= t.drop_first());
                    assert(acc + mult * byte < 0x8_0000_0000) by (nonlinear_arith)
                        requires
                            acc < mult,
                            mult <= 268435456,
                            byte < 128,
                    ;
                }
                let total: u64 = acc + mult * (byte as u64);
                proof {
                    assert((total as u32) == ((total % 0x1_0000_0000u64) as u32)) by (bit_vector);
                    assert(total as nat == (acc + mult * byte) as nat);
                    assert(varint_groups(s, 5) == Ok::<(nat, nat), DecodeError>(
                        ((acc + mult * byte) as nat, (i + 1) as nat),
                    ));
                }
                return Ok(VarInt((total as u32) as i32));
            }
            let ghost old_acc = acc;
            let ghost old_mult = mult;
            acc = acc + ((byte - 128) as u64) * mult;
            mult = mult * 128;
            i = i + 1;
            proof {
                let t = s.skip((i - 1) as int);
                assert(t[0] == byte);
                lemma_varint_groups_step(t, (5 - (i - 1)) as nat);
                assert(t.drop_first() =~= s.skip(i as int));
                assert(byte % 128 == byte - 128);
                match varint_groups(s.skip(i as int), (5 - i) as nat) {
                    Ok((v, n)) => {
                        assert(old_acc + old_mult * ((byte - 128) + 128 * v) == (old_acc + (
                        byte - 128) * old_mult) + (old_mult * 128) * v) by (nonlinear_arith);
                    },
                    Err(e) => {},
                }
            }
        }
        Err(DecodeError::VarIntTooLarge)
    }
}

// ---------------------------------------------------------------------------
// Single bytes and booleans
// ---------------------------------------------------------------------------

/// Reads one byte from the front of `r` and advances `r` past it.
pub fn read_u8(r: &mut &[u8]) -> (res: Result<u8, DecodeError>)
    ensures
        old(r)@.len() == 0 ==> res == Err::<u8, DecodeError>(DecodeError::UnexpectedEof)
            && final(r)@ == old(r)@,
        old(r)@.len() > 0 ==> res == Ok::<u8, DecodeError>(old(r)@[0]) && final(r)@ == old(r)@.drop_first(),
{
    if r.len() == 0 {
        return Err(DecodeError::UnexpectedEof);
    }
    let b = r[0];
    let (_, rest) = r.split_at(1);
    *r = rest;
    proof {
        assert(rest@ =~= old(r)@.drop_first());
    }
    Ok(b)
}

/// The encoding of a boolean: one byte, 1 for true and 0 for false.
pub open spec fn spec_bool_encode(b: bool) -> Seq<u8> {
    if b {
        seq![1u8]
    } else {
        seq![0u8]
    }
}

/// What decoding a boolean at the front of `s` gives.
pub open spec fn spec_bool_decode(s: Seq<u8>) -> Result<(bool, nat), DecodeError> {
    if s.len() == 0 {
        Err(DecodeError::UnexpectedEof)
    } else if s[0] > 1 {
        Err(DecodeError::InvalidBool)
    } else {
        Ok((s[0] == 1, 1))
    }
}

/// Appends the encoding of a boolean.
pub fn write_bool(b: bool, w: &mut Vec<u8>)
    ensures
        final(w)@ == old(w)@ + spec_bool_encode(b),
{
    if b {
        w.push(1u8);
    } else {
        w.push(0u8);
    }
    proof {
        assert(w@ =~= old(w)@ + spec_bool_encode(b));
    }
}

/// Decodes a boolean from the front of `r` and advances `r` past it.
pub fn read_bool(r: &mut &[u8]) -> (res: Result<bool, DecodeError>)
    ensures
        match spec_bool_decode(old(r)@) {
            Ok((v, n)) => res == Ok::<bool, DecodeError>(v) && final(r)@ == old(r)@.skip(n as int),
            Err(e) => res == Err::<bool, DecodeError>(e),
        },
{
    let b = read_u8(r)?;
    if b > 1 {
        return Err(DecodeError::InvalidBool);
    }
    proof {
        assert(old(r)@.drop_first() =~= old(r)@.skip(1));
    }
    Ok(b == 1)
}

pub proof fn lemma_bool_roundtrip(b: bool, rest: Seq<u8>)
    ensures
        spec_bool_decode(spec_bool_encode(b) + rest) == Ok::<(bool, nat), DecodeError>((b, 1)),
{
    assert((spec_bool_encode(b) + rest)[0] == spec_bool_encode(b)[0]);
}

// ---------------------------------------------------------------------------
// Big-endian fixed-width integers
// ---------------------------------------------------------------------------

/// The eight big-endian bytes of a 64-bit pattern.
pub open spec fn u64_be(x: u64) -> Seq<u8> {
    seq![
        (x >> 56u64) as u8,
        (x >> 48u64) as u8,
        (x >> 40u64) as u8,
        (x >> 32u64) as u8,
        (x >> 24u64) as u8,
        (x >> 16u64) as u8,
        (x >> 8u64) as u8,
        x as u8,
    ]
}

/// The 64-bit pattern of eight big-endian bytes.
pub open spec fn u64_from_be(s: Seq<u8>) -> u64 {
    ((s[0] as u64) << 56u64) | ((s[1] as u64) << 48u64) | ((s[2] as u64) << 40u64) | ((
    s[3] as u64) << 32u64) | ((s[4] as u64) << 24u64) | ((s[5] as u64) << 16u64) | ((
    s[6] as u64) << 8u64) | (s[7] as u64)
}

/// The four big-endian bytes of a 32-bit pattern.
pub open spec fn u32_be(x: u32) -> Seq<u8> {
    seq![(x >> 24u32) as u8, (x >> 16u32) as u8, (x >> 8u32) as u8, x as u8]
}

/// The 32-bit pattern of four big-endian bytes.
pub open spec fn u32_from_be(s: Seq<u8>) -> u32 {
    ((s[0] as u32) << 24u32) | ((s[1] as u32) << 16u32) | ((s[2] as u32) << 8u32) | (s[3] as u32)
}

/// The two big-endian bytes of a 16-bit pattern.
pub open spec fn u16_be(x: u16) -> Seq<u8> {
    seq![(x >> 8u16) as u8, x as u8]
}

/// The 16-bit pattern of two big-endian bytes.
pub open spec fn u16_from_be(s: Seq<u8>) -> u16 {
    ((s[0] as u16) << 8u16) | (s[1] as u16)
}

proof fn lemma_u64_be_roundtrip(x: u64)
    ensures
        u64_from_be(u64_be(x)) == x,
{
    let s = u64_be(x);
    let (b0, b1, b2, b3, b4, b5, b6, b7) = (s[0], s[1], s[2], s[3], s[4], s[5], s[6], s[7]);
    assert(b0 == (x >> 56u64) as u8 && b1 == (x >> 48u64) as u8 && b2 == (x >> 40u64) as u8 && b3
        == (x >> 32u64) as u8 && b4 == (x >> 24u64) as u8 && b5 == (x >> 16u64) as u8 && b6 == (x
        >> 8u64) as u8 && b7 == x as u8);
    assert(((b0 as u64) << 56u64) | ((b1 as u64) << 48u64) | ((b2 as u64) << 40u64) | ((
    b3 as u64) << 32u64) | ((b4 as u64) << 24u64) | ((b5 as u64) << 16u64) | ((b6 as u64)
        << 8u64) | (b7 as u64) == x) by (bit_vector)
        requires
            b0 == (x >> 56u64) as u8,
            b1 == (x >> 48u64) as u8,
            b2 == (x >> 40u64) as u8,
            b3 == (x >> 32u64) as u8,
            b4 == (x >> 24u64) as u8,
            b5 == (x >> 16u64) as u8,
            b6 == (x >> 8u64) as u8,
            b7 == x as u8,
    ;
}

proof fn lemma_u32_be_roundtrip(x: u32)
    ensures
        u32_from_be(u32_be(x)) == x,
{
    let s = u32_be(x);
    let (b0, b1, b2, b3) = (s[0], s[1], s[2], s[3]);
    assert(((b0 as u32) << 24u32) | ((b1 as u32) << 16u32) | ((b2 as u32) << 8u32) | (b3 as u32)
        == x) by (bit_vector)
        requires
            b0 == (x >> 24u32) as u8,
            b1 == (x >> 16u32) as u8,
            b2 == (x >> 8u32) as u8,
            b3 == x as u8,
    ;
}

proof fn lemma_u16_be_roundtrip(x: u16)
    ensures
        u16_from_be(u16_be(x)) == x,
{
    let s = u16_be(x);
    let (b0, b1) = (s[0], s[1]);
    assert(((b0 as u16) << 8u16) | (b1 as u16) == x) by (bit_vector)
        requires
            b0 == (x >> 8u16) as u8,
            b1 == x as u8,
    ;
}

/// Encoding of an `i64`: its bit pattern in eight big-endian bytes.
pub open spec fn spec_i64_encode(v: i64) -> Seq<u8> {
    u64_be(v as u64)
}

/// Encoding of an `i32`: its bit pattern in four big-endian bytes.
pub open spec fn spec_i32_encode(v: i32) -> Seq<u8> {
    u32_be(v as u32)
}

/// Encoding of an `i16`: its bit pattern in two big-endian bytes.
pub open spec fn spec_i16_encode(v: i16) -> Seq<u8> {
    u16_be(v as u16)
}

/// What decoding a fixed-width value of `n` bytes gives at the front of `s`:
/// the value of the first `n` bytes, or an error when fewer remain.
pub open spec fn spec_i64_decode(s: Seq<u8>) -> Result<(i64, nat), DecodeError> {
    if s.len() < 8 {
        Err(DecodeError::UnexpectedEof)
    } else {
        Ok((u64_from_be(s) as i64, 8))
    }
}

pub open spec fn spec_i32_decode(s: Seq<u8>) -> Result<(i32, nat), DecodeError> {
    if s.len() < 4 {
        Err(DecodeError::UnexpectedEof)
    } else {
        Ok((u32_from_be(s) as i32, 4))
    }
}

pub open spec fn spec_i16_decode(s: Seq<u8>) -> Result<(i16, nat), DecodeError> {
    if s.len() < 2 {
        Err(DecodeError::UnexpectedEof)
    } else {
        Ok((u16_from_be(s) as i16, 2))
    }
}

pub proof fn lemma_i64_roundtrip(v: i64, rest: Seq<u8>)
    ensures
        spec_i64_decode(spec_i64_encode(v) + rest) == Ok::<(i64, nat), DecodeError>((v, 8)),
{
    let s = spec_i64_encode(v) + rest;
    lemma_u64_be_roundtrip(v as u64);
    assert(u64_from_be(s) == u64_from_be(u64_be(v as u64)));
    assert(((v as u64) as i64) == v) by (bit_vector);
}

pub proof fn lemma_i32_roundtrip(v: i32, rest: Seq<u8>)
    ensures
        spec_i32_decode(spec_i32_encode(v) + rest) == Ok::<(i32, nat), DecodeError>((v, 4)),
{
    let s = spec_i32_encode(v) + rest;
    lemma_u32_be_roundtrip(v as u32);
    assert(u32_from_be(s) == u32_from_be(u32_be(v as u32)));
    assert(((v as u32) as i32) == v) by (bit_vector);
}

pub proof fn lemma_i16_roundtrip(v: i16, rest: Seq<u8>)
    ensures
        spec_i16_decode(spec_i16_encode(v) + rest) == Ok::<(i16, nat), DecodeError>((v, 2)),
{
    let s = spec_i16_encode(v) + rest;
    lemma_u16_be_roundtrip(v as u16);
    assert(u16_from_be(s) == u16_from_be(u16_be(v as u16)));
    assert(((v as u16) as i16) == v) by (bit_vector);
}

/// Appends the eight big-endian bytes of `v`.
pub fn write_i64(v: i64, w: &mut Vec<u8>)
    ensures
        final(w)@ == old(w)@ + spec_i64_encode(v),
{
    let x = v as u64;
    w.push((x >> 56u64) as u8);
    w.push((x >> 48u64) as u8);
    w.push((x >> 40u64) as u8);
    w.push((x >> 32u64) as u8);
    w.push((x >> 24u64) as u8);
    w.push((x >> 16u64) as u8);
    w.push((x >> 8u64) as u8);
    w.push(x as u8);
    proof {
        assert(w@ =~= old(w)@ + spec_i64_encode(v));
    }
}

/// Appends the four big-endian bytes of `v`.
pub fn write_i32(v: i32, w: &mut Vec<u8>)
    ensures
        final(w)@ == old(w)@ + spec_i32_encode(v),
{
    let x = v as u32;
    w.push((x >> 24u32) as u8);
    w.push((x >> 16u32) as u8);
    w.push((x >> 8u32) as u8);
    w.push(x as u8);
    proof {
        assert(w@ =~= old(w)@ + spec_i32_encode(v));
    }
}

/// Appends the two big-endian bytes of `v`.
pub fn write_i16(v: i16, w: &mut Vec<u8>)
    ensures
        final(w)@ == old(w)@ + spec_i16_encode(v),
{
    let x = v as u16;
    w.push((x >> 8u16) as u8);
    w.push(x as u8);
    proof {
        assert(w@ =~= old(w)@ + spec_i16_encode(v));
    }
}

/// Splits `n` bytes off the front of `r`.
pub fn take_bytes<'a>(r: &mut &'a [u8], n: usize) -> (res: Result<&'a [u8], DecodeError>)
    ensures
        n > old(r)@.len() ==> res == Err::<&[u8], DecodeError>(DecodeError::UnexpectedEof)
            && final(r)@ == old(r)@,
        n <= old(r)@.len() ==> res is Ok && res->Ok_0@ == old(r)@.take(n as int) && final(r)@
            == old(r)@.skip(n as int),
{
    if n > r.len() {
        return Err(DecodeError::UnexpectedEof);
    }
    let (head, rest) = r.split_at(n);
    *r = rest;
    Ok(head)
}

/// Decodes a big-endian `i64` from the front of `r` and advances past it.
pub fn read_i64(r: &mut &[u8]) -> (res: Result<i64, DecodeError>)
    ensures
        match spec_i64_decode(old(r)@) {
            Ok((v, n)) => res == Ok::<i64, DecodeError>(v) && final(r)@ == old(r)@.skip(n as int),
            Err(e) => res == Err::<i64, DecodeError>(e),
        },
{
    let b = take_bytes(r, 8)?;
    let x: u64 = ((b[0] as u64) << 56u64) | ((b[1] as u64) << 48u64) | ((b[2] as u64) << 40u64)
        | ((b[3] as u64) << 32u64) | ((b[4] as u64) << 24u64) | ((b[5] as u64) << 16u64) | ((
    b[6] as u64) << 8u64) | (b[7] as u64);
    Ok(x as i64)
}

/// Decodes a big-endian `i32` from the front of `r` and advances past it.
pub fn read_i32(r: &mut &[u8]) -> (res: Result<i32, DecodeError>)
    ensures
        match spec_i32_decode(old(r)@) {
            Ok((v, n)) => res == Ok::<i32, DecodeError>(v) && final(r)@ == old(r)@.skip(n as int),
            Err(e) => res == Err::<i32, DecodeError>(e),
        },
{
    let b = take_bytes(r, 4)?;
    let x: u32 = ((b[0] as u32) << 24u32) | ((b[1] as u32) << 16u32) | ((b[2] as u32) << 8u32) | (
    b[3] as u32);
    Ok(x as i32)
}

/// Decodes a big-endian `i16` from the front of `r` and advances past it.
pub fn read_i16(r: &mut &[u8]) -> (res: Result<i16, DecodeError>)
    ensures
        match spec_i16_decode(old(r)@) {
            Ok((v, n)) => res == Ok::<i16, DecodeError>(v) && final(r)@ == old(r)@.skip(n as int),
            Err(e) => res == Err::<i16, DecodeError>(e),
        },
{
    let b = take_bytes(r, 2)?;
    let x: u16 = ((b[0] as u16) << 8u16) | (b[1] as u16);
    Ok(x as i16)
}

/// Appends the bytes of a slice.
pub fn write_bytes(bytes: &[u8], w: &mut Vec<u8>)
    ensures
        final(w)@ == old(w)@ + bytes@,
{
    let mut i: usize = 0;
    while i < bytes.len()
        invariant
            i <= bytes.len(),
            w@ == old(w)@ + bytes@.take(i as int),
        decreases bytes.len() - i,
    {
        w.push(bytes[i]);
        i = i + 1;
        proof {
            assert(bytes@.take(i as int) =~= bytes@.take((i - 1) as int).push(bytes@[i - 1]));
        }
    }
    proof {
        assert(bytes@.take(bytes@.len() as int) =~= bytes@);
    }
}

// ---------------------------------------------------------------------------
// Strings
// ---------------------------------------------------------------------------

/// How many UTF-16 code units the UTF-8 byte `b` stands for: a four-byte
/// leading byte stands for a surrogate pair, any other leading byte for one
/// unit, and a continuation byte for none.
pub open spec fn utf16_weight(b: u8) -> nat {
    if b >= 0xF0 {
        2
    } else if b < 0x80 || b >= 0xC0 {
        1
    } else {
        0
    }
}

/// Number of UTF-16 code units of a UTF-8 byte sequence.
pub open spec fn utf16_units(s: Seq<u8>) -> nat
    decreases s.len(),
{
    if s.len() == 0 {
        0
    } else {
        utf16_units(s.drop_last()) + utf16_weight(s.last())
    }
}

/// Counts the UTF-16 code units of a UTF-8 byte slice.
pub fn count_utf16_units(bytes: &[u8]) -> (n: usize)
    requires
        bytes@.len() <= MAX_STRING_CHARS * 4,
    ensures
        n == utf16_units(bytes@),
{
    let mut i: usize = 0;
    let mut n: usize = 0;
    while i < bytes.len()
        invariant
            i <= bytes.len(),
            bytes@.len() <= MAX_STRING_CHARS * 4,
            n == utf16_units(bytes@.take(i as int)),
            n <= 2 * i,
        decreases bytes.len() - i,
    {
        let b = bytes[i];
        proof {
            assert(bytes@.take((i + 1) as int).drop_last() =~= bytes@.take(i as int));
            assert(bytes@.take((i + 1) as int).last() == b);
        }
        if b >= 0xF0 {
            n = n + 2;
        } else if b < 0x80 || b >= 0xC0 {
            n = n + 1;
        }
        i = i + 1;
    }
    proof {
        assert(bytes@.take(bytes@.len() as int) =~= bytes@);
    }
    n
}

/// A string can be encoded when it has at most [`MAX_STRING_CHARS`] UTF-16
/// units (a valid UTF-8 string within that bound never has more than four
/// bytes per unit, which the second conjunct records).
pub open spec fn str_encodable(bytes: Seq<u8>) -> bool {
    utf16_units(bytes) <= MAX_STRING_CHARS && bytes.len() <= MAX_STRING_CHARS * 4
}

/// Encoding of a string: the byte length as a VarInt, then the UTF-8 bytes.
pub open spec fn spec_str_encode(bytes: Seq<u8>) -> Seq<u8> {
    spec_varint_encode(bytes.len() as i32) + bytes
}

/// What decoding a string at the front of `s` gives: its UTF-8 bytes and the
/// number of input bytes read.
pub open spec fn spec_str_decode(s: Seq<u8>) -> Result<(Seq<u8>, nat), DecodeError> {
    match spec_varint_decode(s) {
        Err(e) => Err(e),
        Ok((len, k)) => if len < 0 {
            Err(DecodeError::NegativeLength)
        } else if len > MAX_STRING_CHARS * 4 {
            Err(DecodeError::StringTooLong)
        } else if k + len > s.len() {
            Err(DecodeError::NotEnoughData)
        } else {
            let body = s.subrange(k as int, k + len);
            if !vstd::utf8::valid_utf8(body) {
                Err(DecodeError::InvalidUtf8)
            } else if utf16_units(body) > MAX_STRING_CHARS {
                Err(DecodeError::StringTooLong)
            } else {
                Ok((body, k + len as nat))
            }
        },
    }
}

/// `std::str::from_utf8`: the documentation promises `Ok` exactly when the
/// bytes are valid UTF-8, and then a string slice over those same bytes.
#[verifier::external_body]
pub(crate) fn str_from_utf8<'a>(bytes: &'a [u8]) -> (res: Option<&'a str>)
    ensures
        res is Some <==> vstd::utf8::valid_utf8(bytes@),
        res matches Some(s) ==> s.spec_bytes() == bytes@,
{
    std::str::from_utf8(bytes).ok()
}

/// Appends the encoding of a string.
pub fn write_str(s: &str, w: &mut Vec<u8>) -> (res: Result<(), EncodeError>)
    ensures
        res is Ok <==> str_encodable(s.spec_bytes()),
        res is Ok ==> final(w)@ == old(w)@ + spec_str_encode(s.spec_bytes()),
        res is Err ==> res == Err::<(), EncodeError>(EncodeError::StringTooLong) && final(w)@ == old(w)@,
{
    let bytes = s.as_bytes();
    if bytes.len() > MAX_STRING_CHARS * 4 {
        return Err(EncodeError::StringTooLong);
    }
    if count_utf16_units(bytes) > MAX_STRING_CHARS {
        return Err(EncodeError::StringTooLong);
    }
    write_varint(bytes.len() as i32, w);
    write_bytes(bytes, w);
    proof {
        assert(w@ =~= old(w)@ + spec_str_encode(s.spec_bytes()));
    }
    Ok(())
}

/// Decodes a string slice from the front of `r` and advances past it.
pub fn read_str<'a>(r: &mut &'a [u8]) -> (res: Result<&'a str, DecodeError>)
    ensures
        match spec_str_decode(old(r)@) {
            Ok((body, n)) => res is Ok && res->Ok_0.spec_bytes() == body && final(r)@ == old(r)@.skip(n as int),
            Err(e) => res == Err::<&str, DecodeError>(e),
        },
{
    let ghost s = r@;
    proof {
        lemma_varint_groups_len(s, 5);
    }
    let len = VarInt::decode(r)?.0;
    let ghost k = (s.len() - r@.len()) as nat;
    proof {
        assert(spec_varint_decode(s) == Ok::<(i32, nat), DecodeError>((len, k)));
    }
    if len < 0 {
        return Err(DecodeError::NegativeLength);
    }
    if len as usize > MAX_STRING_CHARS * 4 {
        return Err(DecodeError::StringTooLong);
    }
    let len = len as usize;
    if len > r.len() {
        return Err(DecodeError::NotEnoughData);
    }
    let (body, rest) = r.split_at(len);
    proof {
        assert(body@ =~= s.subrange(k as int, k + len));
    }
    let text = match str_from_utf8(body) {
        Some(t) => t,
        None => {
            return Err(DecodeError::InvalidUtf8);
        },
    };
    if count_utf16_units(body) > MAX_STRING_CHARS {
        return Err(DecodeError::StringTooLong);
    }
    *r = rest;
    proof {
        assert(rest@ =~= s.skip(k + len));
    }
    Ok(text)
}

/// Decoding the encoding of an encodable string gives its bytes back.
pub proof fn lemma_str_roundtrip(bytes: Seq<u8>, rest: Seq<u8>)
    requires
        str_encodable(bytes),
        vstd::utf8::valid_utf8(bytes),
    ensures
        spec_str_decode(spec_str_encode(bytes) + rest) == Ok::<(Seq<u8>, nat), DecodeError>((bytes, spec_str_encode(bytes).len())),
{
    let n = bytes.len() as i32;
    let prefix = spec_varint_encode(n);
    lemma_varint_roundtrip(n, bytes + rest);
    assert(spec_str_encode(bytes) + rest =~= prefix + (bytes + rest));
    let s = spec_str_encode(bytes) + rest;
    assert(s.subrange(prefix.len() as int, (prefix.len() + bytes.len()) as int) =~= bytes);
}

} // verus!
