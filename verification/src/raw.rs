//! Raw byte fields of packets and the chunk-data field, whose length is
//! found by walking the NBT heightmaps, the section data and the block
//! entities without building any of them.
use vstd::prelude::*;

use crate::codec::{
    spec_varint_decode, take_bytes, u16_from_be, u32_from_be, write_bytes, write_varint,
    spec_varint_encode, DecodeError, EncodeError, VarInt, lemma_varint_roundtrip,
    lemma_varint_groups_len,
};

verus! {

/// What skipping one NBT item at the front of a byte sequence comes to.
pub enum NbtSkip {
    /// The item is complete and takes this many bytes.
    Done(nat),
    /// The item is malformed or cut short; the walk reports this error.
    Fail(DecodeError),
    /// The walk would slice past the end of its input (a fixed-width payload
    /// cut short, or a long-array length whose byte count overflows).
    Crash,
}

/// Skipping a string: a big-endian `u16` length and that many bytes.
pub open spec fn nbt_string_skip(s: Seq<u8>) -> NbtSkip {
    if s.len() < 2 {
        NbtSkip::Fail(DecodeError::UnexpectedEof)
    } else if s.len() - 2 < u16_from_be(s) {
        NbtSkip::Fail(DecodeError::UnexpectedEof)
    } else {
        NbtSkip::Done((2 + u16_from_be(s)) as nat)
    }
}

/// The signed big-endian 32-bit length at the front of `s`.
pub open spec fn be_i32(s: Seq<u8>) -> i32 {
    u32_from_be(s) as i32
}

/// Width of the fixed-size payloads (byte, short, int, long, float, double).
pub open spec fn fixed_width(tag: u8) -> nat {
    if tag == 1 {
        1
    } else if tag == 2 {
        2
    } else if tag == 3 || tag == 5 {
        4
    } else {
        8
    }
}

/// Skipping the payload of a tag of type `tag`.
pub open spec fn nbt_payload_skip(tag: u8, s: Seq<u8>) -> NbtSkip
    decreases s.len(), 3nat, 0nat,
{
    if 1 <= tag <= 6 {
        if s.len() < fixed_width(tag) {
            NbtSkip::Crash
        } else {
            NbtSkip::Done(fixed_width(tag))
        }
    } else if tag == 7 {
        if s.len() < 4 {
            NbtSkip::Fail(DecodeError::UnexpectedEof)
        } else if be_i32(s) < 0 || s.len() - 4 < be_i32(s) {
            NbtSkip::Fail(DecodeError::UnexpectedEof)
        } else {
            NbtSkip::Done((4 + be_i32(s)) as nat)
        }
    } else if tag == 8 {
        nbt_string_skip(s)
    } else if tag == 9 {
        if s.len() < 5 {
            NbtSkip::Fail(DecodeError::UnexpectedEof)
        } else {
            let count = ((u32_from_be(s.drop_first()) as i32) as usize) as nat;
            match nbt_list_skip(s[0], count, s.skip(5)) {
                NbtSkip::Done(n) => NbtSkip::Done(n + 5),
                other => other,
            }
        }
    } else if tag == 10 {
        nbt_compound_skip(s)
    } else if tag == 11 {
        if s.len() < 4 {
            NbtSkip::Fail(DecodeError::UnexpectedEof)
        } else if ((be_i32(s) as usize) as nat) * 8 > usize::MAX {
            NbtSkip::Crash
        } else if s.len() - 4 < ((be_i32(s) as usize) as nat) * 8 {
            NbtSkip::Fail(DecodeError::UnexpectedEof)
        } else {
            NbtSkip::Done(4 + ((be_i32(s) as usize) as nat) * 8)
        }
    } else {
        NbtSkip::Fail(DecodeError::UnknownNbtTag)
    }
}

/// Skipping `count` payloads of type `tag`, one after another.
pub open spec fn nbt_list_skip(tag: u8, count: nat, s: Seq<u8>) -> NbtSkip
    decreases s.len(), 4nat, count,
{
    if count == 0 {
        NbtSkip::Done(0)
    } else {
        match nbt_payload_skip(tag, s) {
            NbtSkip::Done(a) => if a > s.len() {
                NbtSkip::Crash
            } else {
                match nbt_list_skip(tag, (count - 1) as nat, s.skip(a as int)) {
                    NbtSkip::Done(b) => NbtSkip::Done(a + b),
                    other => other,
                }
            },
            other => other,
        }
    }
}

/// Skipping a compound: the tag byte 10, then entries up to an end tag.
pub open spec fn nbt_compound_skip(s: Seq<u8>) -> NbtSkip
    decreases s.len(), 2nat, 0nat,
{
    if s.len() == 0 {
        NbtSkip::Fail(DecodeError::UnexpectedEof)
    } else if s[0] != 10 {
        NbtSkip::Fail(DecodeError::UnexpectedNbtTag)
    } else {
        match nbt_entries_skip(s.drop_first()) {
            NbtSkip::Done(n) => NbtSkip::Done(n + 1),
            other => other,
        }
    }
}

/// Skipping the entries of a compound: each is a type byte, a name and a
/// payload; a zero type byte ends the compound.
pub open spec fn nbt_entries_skip(s: Seq<u8>) -> NbtSkip
    decreases s.len(), 1nat, 0nat,
{
    if s.len() == 0 {
        NbtSkip::Fail(DecodeError::UnexpectedEof)
    } else if s[0] == 0 {
        NbtSkip::Done(1)
    } else {
        let t = s.drop_first();
        match nbt_string_skip(t) {
            NbtSkip::Done(a) => if a > t.len() {
                NbtSkip::Crash
            } else {
                match nbt_payload_skip(s[0], t.skip(a as int)) {
                    NbtSkip::Done(b) => if a + b > t.len() {
                        NbtSkip::Crash
                    } else {
                        match nbt_entries_skip(t.skip((a + b) as int)) {
                            NbtSkip::Done(c) => NbtSkip::Done(1 + a + b + c),
                            other => other,
                        }
                    },
                    other => other,
                }
            },
            other => other,
        }
    }
}

/// Every complete item lies within its input.
pub proof fn lemma_nbt_string_within(s: Seq<u8>)
    ensures
        nbt_string_skip(s) matches NbtSkip::Done(n) ==> 2 <= n <= s.len(),
{
}

/// A complete payload, list, compound or run of entries lies within its
/// input, and a payload or compound takes at least one byte.
pub proof fn lemma_nbt_payload_within(tag: u8, s: Seq<u8>)
    ensures
        nbt_payload_skip(tag, s) matches NbtSkip::Done(n) ==> 1 <= n <= s.len(),
    decreases s.len(), 3nat, 0nat,
{
    if tag == 9 && s.len() >= 5 {
        let count = ((u32_from_be(s.drop_first()) as i32) as usize) as nat;
        lemma_nbt_list_within(s[0], count, s.skip(5));
    } else if tag == 10 {
        lemma_nbt_compound_within(s);
    }
}

pub proof fn lemma_nbt_list_within(tag: u8, count: nat, s: Seq<u8>)
    ensures
        nbt_list_skip(tag, count, s) matches NbtSkip::Done(n) ==> n <= s.len(),
    decreases s.len(), 4nat, count,
{
    if count > 0 {
        lemma_nbt_payload_within(tag, s);
        if let NbtSkip::Done(a) = nbt_payload_skip(tag, s) {
            if a <= s.len() {
                lemma_nbt_list_within(tag, (count - 1) as nat, s.skip(a as int));
            }
        }
    }
}

pub proof fn lemma_nbt_compound_within(s: Seq<u8>)
    ensures
        nbt_compound_skip(s) matches NbtSkip::Done(n) ==> 1 <= n <= s.len(),
    decreases s.len(), 2nat, 0nat,
{
    if s.len() > 0 && s[0] == 10 {
        lemma_nbt_entries_within(s.drop_first());
    }
}

pub proof fn lemma_nbt_entries_within(s: Seq<u8>)
    ensures
        nbt_entries_skip(s) matches NbtSkip::Done(n) ==> 1 <= n <= s.len(),
    decreases s.len(), 1nat, 0nat,
{
    if s.len() > 0 && s[0] != 0 {
        let t = s.drop_first();
        if let NbtSkip::Done(a) = nbt_string_skip(t) {
            if a <= t.len() {
                lemma_nbt_payload_within(s[0], t.skip(a as int));
                if let NbtSkip::Done(b) = nbt_payload_skip(s[0], t.skip(a as int)) {
                    if a + b <= t.len() {
                        lemma_nbt_entries_within(t.skip((a + b) as int));
                    }
                }
            }
        }
    }
}

/// Somewhere in `s` a byte, short, int, long, float or double payload is
/// cut short, or a long-array length is too large for its byte count.
pub open spec fn fixed_crash_in(s: Seq<u8>) -> bool {
    exists|k: int, t: u8|
        0 <= k <= s.len() && (1 <= t <= 6 || t == 11) && (#[trigger] nbt_payload_skip(t, s.skip(k)) is Crash)
}

proof fn lemma_fixed_crash_shift(s: Seq<u8>, m: int)
    requires
        0 <= m <= s.len(),
        fixed_crash_in(s.skip(m)),
    ensures
        fixed_crash_in(s),
{
    let (k, t) = choose|k: int, t: u8|
        0 <= k <= s.skip(m).len() && (1 <= t <= 6 || t == 11) && (#[trigger] nbt_payload_skip(t, s.skip(m).skip(k)) is Crash);
    assert(s.skip(m).skip(k) =~= s.skip(m + k));
    assert(nbt_payload_skip(t, s.skip(m + k)) is Crash);
}

/// A walk over NBT fails by slicing past its input only where a
/// fixed-width payload is cut short or a long-array length is too large:
/// where neither happens anywhere in the input, the walk does not crash.
pub proof fn lemma_payload_crash_cause(tag: u8, s: Seq<u8>)
    ensures
        nbt_payload_skip(tag, s) is Crash ==> fixed_crash_in(s),
    decreases s.len(), 3nat, 0nat,
{
    if nbt_payload_skip(tag, s) is Crash {
        if (1 <= tag <= 6) || tag == 11 {
            assert(s.skip(0) =~= s);
            assert(nbt_payload_skip(tag, s.skip(0)) is Crash);
        } else if tag == 9 {
            let count = ((u32_from_be(s.drop_first()) as i32) as usize) as nat;
            lemma_list_crash_cause(s[0], count, s.skip(5));
            lemma_fixed_crash_shift(s, 5);
        } else if tag == 10 {
            lemma_compound_crash_cause(s);
        }
    }
}

/// See [`lemma_payload_crash_cause`].
pub proof fn lemma_list_crash_cause(tag: u8, count: nat, s: Seq<u8>)
    ensures
        nbt_list_skip(tag, count, s) is Crash ==> fixed_crash_in(s),
    decreases s.len(), 4nat, count,
{
    if count > 0 && nbt_list_skip(tag, count, s) is Crash {
        lemma_payload_crash_cause(tag, s);
        lemma_nbt_payload_within(tag, s);
        if let NbtSkip::Done(a) = nbt_payload_skip(tag, s) {
            lemma_list_crash_cause(tag, (count - 1) as nat, s.skip(a as int));
            lemma_fixed_crash_shift(s, a as int);
        }
    }
}

/// See [`lemma_payload_crash_cause`].
pub proof fn lemma_compound_crash_cause(s: Seq<u8>)
    ensures
        nbt_compound_skip(s) is Crash ==> fixed_crash_in(s),
    decreases s.len(), 2nat, 0nat,
{
    if s.len() > 0 && s[0] == 10 && nbt_compound_skip(s) is Crash {
        lemma_entries_crash_cause(s.drop_first());
        assert(s.drop_first() =~= s.skip(1));
        lemma_fixed_crash_shift(s, 1);
    }
}

/// See [`lemma_payload_crash_cause`].
pub proof fn lemma_entries_crash_cause(s: Seq<u8>)
    ensures
        nbt_entries_skip(s) is Crash ==> fixed_crash_in(s),
    decreases s.len(), 1nat, 0nat,
{
    if s.len() > 0 && s[0] != 0 && nbt_entries_skip(s) is Crash {
        let t = s.drop_first();
        assert(t =~= s.skip(1));
        lemma_nbt_string_within(t);
        if let NbtSkip::Done(a) = nbt_string_skip(t) {
            lemma_payload_crash_cause(s[0], t.skip(a as int));
            lemma_nbt_payload_within(s[0], t.skip(a as int));
            if nbt_payload_skip(s[0], t.skip(a as int)) is Crash {
                lemma_fixed_crash_shift(t, a as int);
            }
            if let NbtSkip::Done(b) = nbt_payload_skip(s[0], t.skip(a as int)) {
                assert(t.skip(a as int).skip(b as int) =~= t.skip((a + b) as int));
                lemma_entries_crash_cause(t.skip((a + b) as int));
                lemma_fixed_crash_shift(t, (a + b) as int);
            }
            lemma_fixed_crash_shift(s, 1);
        }
    }
}

/// Contract shared by the skipping functions: on a complete item the input
/// advances past it; on a malformed one the error is the one the spec names.
pub open spec fn skipped(outcome: NbtSkip, before: Seq<u8>, after: Seq<u8>, res: Result<(), DecodeError>) -> bool {
    match outcome {
        NbtSkip::Done(n) => res is Ok && n <= before.len() && after == before.skip(n as int),
        NbtSkip::Fail(e) => res == Err::<(), DecodeError>(e),
        NbtSkip::Crash => false,
    }
}

fn read_be_u16(b: &[u8]) -> (v: u16)
    requires
        b@.len() >= 2,
    ensures
        v == u16_from_be(b@),
{
    ((b[0] as u16) << 8u16) | (b[1] as u16)
}

fn read_be_i32(b: &[u8]) -> (v: i32)
    requires
        b@.len() >= 4,
    ensures
        v == be_i32(b@),
{
    (((b[0] as u32) << 24u32) | ((b[1] as u32) << 16u32) | ((b[2] as u32) << 8u32) | (
    b[3] as u32)) as i32
}

/// Skips an NBT string (a `u16` length and its bytes).
pub fn skip_nbt_string(r: &mut &[u8]) -> (res: Result<(), DecodeError>)
    ensures
        skipped(nbt_string_skip(old(r)@), old(r)@, final(r)@, res),
{
    if r.len() < 2 {
        return Err(DecodeError::UnexpectedEof);
    }
    let len = read_be_u16(*r) as usize;
    let _ = take_bytes(r, 2);
    if r.len() < len {
        return Err(DecodeError::UnexpectedEof);
    }
    let _ = take_bytes(r, len);
    proof {
        assert(r@ =~= old(r)@.skip((2 + len) as int));
    }
    Ok(())
}

/// Skips an NBT compound: the tag byte 10 and its entries up to the end tag.
pub fn skip_nbt_compound(r: &mut &[u8]) -> (res: Result<(), DecodeError>)
    requires
        !(nbt_compound_skip(old(r)@) is Crash),
    ensures
        skipped(nbt_compound_skip(old(r)@), old(r)@, final(r)@, res),
    decreases old(r)@.len(), 2nat, 0nat,
{
    proof {
        lemma_nbt_compound_within(old(r)@);
    }
    if r.len() == 0 {
        return Err(DecodeError::UnexpectedEof);
    }
    let tag_type = r[0];
    let _ = take_bytes(r, 1);
    if tag_type != 10 {
        return Err(DecodeError::UnexpectedNbtTag);
    }
    let res = skip_nbt_entries(r);
    proof {
        if res is Ok {
            assert(r@ =~= old(r)@.skip((nbt_entries_skip(old(r)@.drop_first())->Done_0 + 1) as int));
        }
    }
    res
}

fn skip_nbt_entries(r: &mut &[u8]) -> (res: Result<(), DecodeError>)
    requires
        !(nbt_entries_skip(old(r)@) is Crash),
    ensures
        skipped(nbt_entries_skip(old(r)@), old(r)@, final(r)@, res),
    decreases old(r)@.len(), 1nat, 0nat,
{
    let ghost s = r@;
    let ghost mut used: nat = 0;
    loop
        invariant
            s == old(r)@,
            used <= s.len(),
            r@ == s.skip(used as int),
            nbt_entries_skip(s) == shift(used, nbt_entries_skip(r@)),
            !(nbt_entries_skip(r@) is Crash),
        decreases r@.len(),
    {
        let ghost cur = r@;
        proof {
            lemma_nbt_entries_within(cur);
        }
        if r.len() == 0 {
            return Err(DecodeError::UnexpectedEof);
        }
        let entry_type = r[0];
        let _ = take_bytes(r, 1);
        if entry_type == 0 {
            proof {
                assert(r@ =~= s.skip((used + 1) as int));
            }
            return Ok(());
        }
        let ghost t = r@;
        proof {
            assert(t =~= cur.drop_first());
            lemma_nbt_string_within(t);
        }
        skip_nbt_string(r)?;
        let ghost a = (t.len() - r@.len()) as nat;
        proof {
            assert(r@ =~= t.skip(a as int));
            lemma_nbt_payload_within(entry_type, r@);
        }
        skip_nbt_payload(entry_type, r)?;
        proof {
            let ab = (t.len() - r@.len()) as nat;
            assert(r@ =~= t.skip(ab as int));
            assert(r@ =~= s.skip((used + 1 + ab) as int));
            used = used + 1 + ab;
        }
    }
}

/// Shifts a completed skip by `k` bytes taken before it.
pub open spec fn shift(k: nat, o: NbtSkip) -> NbtSkip {
    match o {
        NbtSkip::Done(n) => NbtSkip::Done(k + n),
        other => other,
    }
}

/// Skips the payload of an NBT tag of type `tag_type`.
pub fn skip_nbt_payload(tag_type: u8, r: &mut &[u8]) -> (res: Result<(), DecodeError>)
    requires
        !(nbt_payload_skip(tag_type, old(r)@) is Crash),
    ensures
        skipped(nbt_payload_skip(tag_type, old(r)@), old(r)@, final(r)@, res),
    decreases old(r)@.len(), 3nat, 0nat,
{
    let ghost s = r@;
    proof {
        lemma_nbt_payload_within(tag_type, s);
    }
    if 1 <= tag_type && tag_type <= 6 {
        let width: usize = if tag_type == 1 {
            1
        } else if tag_type == 2 {
            2
        } else if tag_type == 3 || tag_type == 5 {
            4
        } else {
            8
        };
        let _ = take_bytes(r, width);
        return Ok(());
    } else if tag_type == 7 {
        if r.len() < 4 {
            return Err(DecodeError::UnexpectedEof);
        }
        let len = read_be_i32(*r);
        let _ = take_bytes(r, 4);
        if len < 0 || r.len() < len as usize {
            return Err(DecodeError::UnexpectedEof);
        }
        let _ = take_bytes(r, len as usize);
        proof {
            assert(r@ =~= s.skip(4 + len));
        }
        return Ok(());
    } else if tag_type == 8 {
        return skip_nbt_string(r);
    } else if tag_type == 9 {
        if r.len() < 5 {
            return Err(DecodeError::UnexpectedEof);
        }
        let list_type = r[0];
        let (_, after_type) = r.split_at(1);
        let list_len = read_be_i32(after_type);
        proof {
            assert(after_type@ =~= s.drop_first());
        }
        let _ = take_bytes(r, 5);
        let count = list_len as usize;
        let res = skip_nbt_list(list_type, count, r);
        proof {
            if res is Ok {
                assert(r@ =~= s.skip(
                    (5 + nbt_list_skip(list_type, count as nat, s.skip(5))->Done_0) as int,
                ));
            }
        }
        return res;
    } else if tag_type == 10 {
        return skip_nbt_compound(r);
    } else if tag_type == 11 {
        if r.len() < 4 {
            return Err(DecodeError::UnexpectedEof);
        }
        let len = read_be_i32(*r) as usize;
        let _ = take_bytes(r, 4);
        let bytes = match len.checked_mul(8) {
            Some(b) => b,
            None => {
                return Err(DecodeError::UnexpectedEof);
            },
        };
        if r.len() < bytes {
            return Err(DecodeError::UnexpectedEof);
        }
        let _ = take_bytes(r, bytes);
        proof {
            assert(r@ =~= s.skip(4 + bytes));
        }
        return Ok(());
    }
    Err(DecodeError::UnknownNbtTag)
}

/// Skips `count` payloads of type `tag_type`, stopping at the first error.
fn skip_nbt_list(tag_type: u8, count: usize, r: &mut &[u8]) -> (res: Result<(), DecodeError>)
    requires
        !(nbt_list_skip(tag_type, count as nat, old(r)@) is Crash),
    ensures
        skipped(nbt_list_skip(tag_type, count as nat, old(r)@), old(r)@, final(r)@, res),
    decreases old(r)@.len(), 4nat, count,
{
    let ghost s = r@;
    let ghost mut used: nat = 0;
    let mut i: usize = 0;
    while i < count
        invariant
            s == old(r)@,
            i <= count,
            used <= s.len(),
            r@ == s.skip(used as int),
            nbt_list_skip(tag_type, count as nat, s) == shift(
                used,
                nbt_list_skip(tag_type, (count - i) as nat, r@),
            ),
            !(nbt_list_skip(tag_type, (count - i) as nat, r@) is Crash),
        decreases count - i,
    {
        let ghost cur = r@;
        proof {
            lemma_nbt_payload_within(tag_type, cur);
        }
        skip_nbt_payload(tag_type, r)?;
        proof {
            let a = (cur.len() - r@.len()) as nat;
            assert(r@ =~= cur.skip(a as int));
            assert(r@ =~= s.skip((used + a) as int));
            used = used + a;
        }
        i = i + 1;
    }
    proof {
        assert(nbt_list_skip(tag_type, 0, r@) == NbtSkip::Done(0));
    }
    Ok(())
}

/// Skipping the block-entity entries of chunk data: each is three bytes of
/// packed position, a VarInt kind and a compound.
pub open spec fn block_entities_skip(count: nat, s: Seq<u8>) -> NbtSkip
    decreases s.len(), count,
{
    if count == 0 {
        NbtSkip::Done(0)
    } else if s.len() < 3 {
        NbtSkip::Fail(DecodeError::UnexpectedEof)
    } else {
        let t = s.skip(3);
        match spec_varint_decode(t) {
            Err(e) => NbtSkip::Fail(e),
            Ok((_, k)) => if k > t.len() {
                NbtSkip::Crash
            } else {
                match nbt_compound_skip(t.skip(k as int)) {
                    NbtSkip::Done(c) => if 3 + k + c > s.len() {
                        NbtSkip::Crash
                    } else {
                        shift(
                            3 + k + c,
                            block_entities_skip((count - 1) as nat, s.skip((3 + k + c) as int)),
                        )
                    },
                    other => other,
                }
            },
        }
    }
}

/// Length of the chunk-data field at the front of `s`: the heightmaps
/// compound, the VarInt-prefixed section data, then a VarInt count of
/// block entities and the entities themselves.
pub open spec fn chunk_data_skip(s: Seq<u8>) -> NbtSkip {
    match nbt_compound_skip(s) {
        NbtSkip::Done(a) => if a > s.len() {
            NbtSkip::Crash
        } else {
            let t = s.skip(a as int);
            match spec_varint_decode(t) {
                Err(e) => NbtSkip::Fail(e),
                Ok((sec_len, k)) => {
                    let sl = (sec_len as usize) as nat;
                    if k > t.len() {
                        NbtSkip::Crash
                    } else if t.len() - k < sl {
                        NbtSkip::Fail(DecodeError::NotEnoughData)
                    } else {
                        let u = t.skip((k + sl) as int);
                        match spec_varint_decode(u) {
                            Err(e) => NbtSkip::Fail(e),
                            Ok((cnt, k2)) => if k2 > u.len() {
                                NbtSkip::Crash
                            } else {
                                shift(
                                    a + k + sl + k2,
                                    block_entities_skip(
                                        (cnt as usize) as nat,
                                        u.skip(k2 as int),
                                    ),
                                )
                            },
                        }
                    }
                },
            }
        },
        other => other,
    }
}

proof fn lemma_block_entities_within(count: nat, s: Seq<u8>)
    ensures
        block_entities_skip(count, s) matches NbtSkip::Done(n) ==> n <= s.len(),
    decreases s.len(), count,
{
    if count > 0 && s.len() >= 3 {
        let t = s.skip(3);
        if let Ok((_, k)) = spec_varint_decode(t) {
            if k <= t.len() {
                if let NbtSkip::Done(c) = nbt_compound_skip(t.skip(k as int)) {
                    if 3 + k + c <= s.len() {
                        lemma_block_entities_within(
                            (count - 1) as nat,
                            s.skip((3 + k + c) as int),
                        );
                    }
                }
            }
        }
    }
}

/// Walks the chunk-data field at the front of `r`, advances `r` past it and
/// returns the bytes it spans.
#[verifier::rlimit(80)]
#[verifier::spinoff_prover]
fn decode_chunk_data<'a>(r: &mut &'a [u8]) -> (res: Result<&'a [u8], DecodeError>)
    requires
        !(chunk_data_skip(old(r)@) is Crash),
    ensures
        match chunk_data_skip(old(r)@) {
            NbtSkip::Done(n) => res is Ok && n <= old(r)@.len() && res->Ok_0@ == old(r)@.take(
                n as int,
            ) && final(r)@ == old(r)@.skip(n as int),
            NbtSkip::Fail(e) => res == Err::<&[u8], DecodeError>(e),
            NbtSkip::Crash => false,
        },
{
    let start: &'a [u8] = *r;
    let ghost s = start@;
    proof {
        lemma_nbt_compound_within(s);
        lemma_varint_groups_len(s, 5);
    }
    skip_nbt_compound(r)?;
    let ghost a = (s.len() - r@.len()) as nat;
    let ghost t = r@;
    proof {
        lemma_varint_groups_len(t, 5);
    }
    let section_len = #[verifier::truncate] (VarInt::decode(r)?.0 as usize);
    let ghost k = (t.len() - r@.len()) as nat;
    if r.len() < section_len {
        return Err(DecodeError::NotEnoughData);
    }
    let _ = take_bytes(r, section_len);
    let ghost u = r@;
    proof {
        assert(u =~= t.skip((k + section_len) as int));
        lemma_varint_groups_len(u, 5);
    }
    let be_count = #[verifier::truncate] (VarInt::decode(r)?.0 as usize);
    let ghost k2 = (u.len() - r@.len()) as nat;
    proof {
        assert(r@ =~= s.skip((a + k + section_len + k2) as int));
        lemma_block_entities_within(be_count as nat, r@);
    }
    skip_block_entities(be_count, r)?;
    let (data, _) = start.split_at(start.len() - r.len());
    Ok(data)
}

#[verifier::rlimit(60)]
#[verifier::spinoff_prover]
fn skip_block_entities(count: usize, r: &mut &[u8]) -> (res: Result<(), DecodeError>)
    requires
        !(block_entities_skip(count as nat, old(r)@) is Crash),
    ensures
        skipped(block_entities_skip(count as nat, old(r)@), old(r)@, final(r)@, res),
{
    let ghost s = r@;
    let ghost mut used: nat = 0;
    let mut i: usize = 0;
    while i < count
        invariant
            s == old(r)@,
            i <= count,
            used <= s.len(),
            r@ == s.skip(used as int),
            block_entities_skip(count as nat, s) == shift(
                used,
                block_entities_skip((count - i) as nat, r@),
            ),
            !(block_entities_skip((count - i) as nat, r@) is Crash),
        decreases count - i,
    {
        let ghost cur = r@;
        let ghost cnt = (count - i) as nat;
        if r.len() < 3 {
            proof {
                assert(block_entities_skip(cnt, cur) == NbtSkip::Fail(DecodeError::UnexpectedEof));
            }
            return Err(DecodeError::UnexpectedEof);
        }
        let _ = take_bytes(r, 3);
        let ghost t2 = r@;
        proof {
            lemma_varint_groups_len(t2, 5);
            assert(t2 =~= cur.skip(3));
            if let Err(e) = spec_varint_decode(t2) {
                assert(block_entities_skip(cnt, cur) == NbtSkip::Fail(e));
            }
        }
        let _kind = VarInt::decode(r)?;
        let ghost kk = (t2.len() - r@.len()) as nat;
        proof {
            assert(r@ =~= t2.skip(kk as int));
            lemma_nbt_compound_within(r@);
        }
        let ghost before_compound = r@;
        skip_nbt_compound(r)?;
        proof {
            let c = (before_compound.len() - r@.len()) as nat;
            assert(r@ =~= cur.skip((3 + kk + c) as int));
            assert(r@ =~= s.skip((used + 3 + kk + c) as int));
            used = used + 3 + kk + c;
        }
        i = i + 1;
    }
    proof {
        assert(block_entities_skip(0, r@) == NbtSkip::Done(0));
    }
    Ok(())
}

/// A byte field written as-is; decoding it takes the rest of the input.
#[derive(Clone, Copy, Debug)]
pub struct RawBytes<'a>(pub &'a [u8]);

impl<'a> RawBytes<'a> {
    /// Appends the bytes without any prefix.
    pub fn encode(&self, w: &mut Vec<u8>) -> (res: Result<(), EncodeError>)
        ensures
            res is Ok,
            final(w)@ == old(w)@ + self.0@,
    {
        write_bytes(self.0, w);
        Ok(())
    }

    /// Takes the whole remaining input.
    pub fn decode(r: &mut &'a [u8]) -> (res: Result<RawBytes<'a>, DecodeError>)
        ensures
            res is Ok,
            (res matches Ok(d) && d.0@ == old(r)@),
            final(r)@.len() == 0,
    {
        let all: &'a [u8] = *r;
        let (taken, rest) = all.split_at(all.len());
        *r = rest;
        Ok(RawBytes(taken))
    }

    /// Appends the bytes when there are at most `max` of them.
    pub fn encode_bounded(&self, max: usize, w: &mut Vec<u8>) -> (res: Result<(), EncodeError>)
        ensures
            res is Ok <==> self.0@.len() <= max,
            res is Ok ==> final(w)@ == old(w)@ + self.0@,
            res is Err ==> res == Err::<(), EncodeError>(EncodeError::TooManyBytes) && final(w)@ == old(w)@,
    {
        if self.0.len() > max {
            return Err(EncodeError::TooManyBytes);
        }
        write_bytes(self.0, w);
        Ok(())
    }

    /// Takes the whole remaining input when it has at most `max` bytes.
    pub fn decode_bounded(r: &mut &'a [u8], max: usize) -> (res: Result<RawBytes<'a>, DecodeError>)
        ensures
            res is Ok <==> old(r)@.len() <= max,
            res is Ok ==> (res matches Ok(d) && d.0@ == old(r)@) && final(r)@.len() == 0,
            res is Err ==> res == Err::<RawBytes, DecodeError>(DecodeError::NotEnoughData)
                && final(r)@ == old(r)@,
    {
        if r.len() > max {
            return Err(DecodeError::NotEnoughData);
        }
        RawBytes::decode(r)
    }
}

/// A value whose encoding may take at most `MAX_BYTES` bytes.
#[derive(Clone, Copy, Debug)]
pub struct Bounded<T, const MAX_BYTES: usize>(pub T);

impl<'a, const MAX_BYTES: usize> Bounded<RawBytes<'a>, MAX_BYTES> {
    /// Appends the bytes when there are at most `MAX_BYTES` of them (see
    /// [`RawBytes::encode_bounded`]).
    pub fn encode(&self, w: &mut Vec<u8>) -> (res: Result<(), EncodeError>)
        ensures
            res is Ok <==> self.0.0@.len() <= MAX_BYTES,
            res is Ok ==> final(w)@ == old(w)@ + self.0.0@,
            res is Err ==> res == Err::<(), EncodeError>(EncodeError::TooManyBytes) && final(w)@ == old(w)@,
    {
        self.0.encode_bounded(MAX_BYTES, w)
    }

    /// Takes the whole remaining input when it has at most `MAX_BYTES` bytes
    /// (see [`RawBytes::decode_bounded`]).
    pub fn decode(r: &mut &'a [u8]) -> (res: Result<Bounded<RawBytes<'a>, MAX_BYTES>, DecodeError>)
        ensures
            res is Ok <==> old(r)@.len() <= MAX_BYTES,
            res is Ok ==> (res matches Ok(d) && d.0.0@ == old(r)@) && final(r)@.len() == 0,
            res is Err ==> res == Err::<Bounded<RawBytes, MAX_BYTES>, DecodeError>(DecodeError::NotEnoughData)
                && final(r)@ == old(r)@,
    {
        match RawBytes::decode_bounded(r, MAX_BYTES) {
            Ok(d) => Ok(Bounded(d)),
            Err(e) => Err(e),
        }
    }
}

/// The chunk-data field of a chunk packet: written as-is, and decoded by
/// walking its structure so that the fields after it stay in the input.
#[derive(Clone, Copy, Debug)]
pub struct ChunkDataBytes<'a>(pub &'a [u8]);

impl<'a> ChunkDataBytes<'a> {
    /// Appends the bytes without any prefix.
    pub fn encode(&self, w: &mut Vec<u8>) -> (res: Result<(), EncodeError>)
        ensures
            res is Ok,
            final(w)@ == old(w)@ + self.0@,
    {
        write_bytes(self.0, w);
        Ok(())
    }

    /// Decodes the chunk-data field at the front of `r` (see
    /// [`chunk_data_skip`]) and advances `r` past it.
    pub fn decode(r: &mut &'a [u8]) -> (res: Result<ChunkDataBytes<'a>, DecodeError>)
        requires
            !(chunk_data_skip(old(r)@) is Crash),
        ensures
            match chunk_data_skip(old(r)@) {
                NbtSkip::Done(n) => (res matches Ok(d) && d.0@ == old(r)@.take(n as int)) && final(r)@ == old(r)@.skip(n as int),
                NbtSkip::Fail(e) => res == Err::<ChunkDataBytes, DecodeError>(e),
                NbtSkip::Crash => false,
            },
    {
        let data = decode_chunk_data(r)?;
        Ok(ChunkDataBytes(data))
    }
}

/// The chunk-data field as the chunk packet carries it; same encoding and
/// decoding as [`ChunkDataBytes`].
#[derive(Clone, Copy, Debug)]
pub struct ChunkDataWrapper<'a>(pub &'a [u8]);

impl<'a> ChunkDataWrapper<'a> {
    /// Appends the bytes without any prefix.
    pub fn encode(&self, w: &mut Vec<u8>) -> (res: Result<(), EncodeError>)
        ensures
            res is Ok,
            final(w)@ == old(w)@ + self.0@,
    {
        write_bytes(self.0, w);
        Ok(())
    }

    /// Decodes the chunk-data field at the front of `r` (see
    /// [`chunk_data_skip`]) and advances `r` past it.
    pub fn decode(r: &mut &'a [u8]) -> (res: Result<ChunkDataWrapper<'a>, DecodeError>)
        requires
            !(chunk_data_skip(old(r)@) is Crash),
        ensures
            match chunk_data_skip(old(r)@) {
                NbtSkip::Done(n) => (res matches Ok(d) && d.0@ == old(r)@.take(n as int)) && final(r)@ == old(r)@.skip(n as int),
                NbtSkip::Fail(e) => res == Err::<ChunkDataWrapper, DecodeError>(e),
                NbtSkip::Crash => false,
            },
    {
        let data = decode_chunk_data(r)?;
        Ok(ChunkDataWrapper(data))
    }
}

/// A byte field prefixed with its length as a VarInt; decoding it takes only
/// that many bytes.
#[derive(Clone, Copy, Debug)]
pub struct BoundedRawBytes<'a>(pub &'a [u8]);

/// What decoding a length-prefixed byte field at the front of `s` gives.
pub open spec fn spec_bounded_raw_decode(s: Seq<u8>) -> Result<(Seq<u8>, nat), DecodeError> {
    match spec_varint_decode(s) {
        Err(e) => Err(e),
        Ok((len, k)) => {
            let n = (len as usize) as nat;
            if s.len() - k < n {
                Err(DecodeError::NotEnoughData)
            } else {
                Ok((s.subrange(k as int, (k + n) as int), k + n))
            }
        },
    }
}

impl<'a> BoundedRawBytes<'a> {
    /// Appends the length (taken as an `i32`) as a VarInt, then the bytes.
    pub fn encode(&self, w: &mut Vec<u8>) -> (res: Result<(), EncodeError>)
        ensures
            res is Ok,
            final(w)@ == old(w)@ + spec_varint_encode(self.0@.len() as i32) + self.0@,
    {
        write_varint(self.0.len() as i32, w);
        write_bytes(self.0, w);
        proof {
            assert(w@ =~= old(w)@ + spec_varint_encode(self.0@.len() as i32) + self.0@);
        }
        Ok(())
    }

    /// Decodes a length-prefixed byte field at the front of `r` and advances
    /// `r` past it.
    pub fn decode(r: &mut &'a [u8]) -> (res: Result<BoundedRawBytes<'a>, DecodeError>)
        ensures
            match spec_bounded_raw_decode(old(r)@) {
                Ok((body, n)) => (res matches Ok(d) && d.0@ == body) && final(r)@ == old(r)@.skip(
                    n as int,
                ),
                Err(e) => res == Err::<BoundedRawBytes, DecodeError>(e),
            },
    {
        let ghost s = r@;
        proof {
            lemma_varint_groups_len(s, 5);
        }
        let len = #[verifier::truncate] (VarInt::decode(r)?.0 as usize);
        let ghost k = (s.len() - r@.len()) as nat;
        if r.len() < len {
            return Err(DecodeError::NotEnoughData);
        }
        let data = take_bytes(r, len)?;
        proof {
            assert(data@ =~= s.subrange(k as int, (k + len) as int));
            assert(r@ =~= s.skip((k + len) as int));
        }
        Ok(BoundedRawBytes(data))
    }
}

/// Decoding an encoded length-prefixed field gives the same bytes back.
pub proof fn lemma_bounded_raw_roundtrip(bytes: Seq<u8>, rest: Seq<u8>)
    requires
        bytes.len() <= i32::MAX,
    ensures
        spec_bounded_raw_decode(spec_varint_encode(bytes.len() as i32) + bytes + rest) == Ok::<
            (Seq<u8>, nat),
            DecodeError,
        >((bytes, spec_varint_encode(bytes.len() as i32).len() + bytes.len())),
{
    let p = spec_varint_encode(bytes.len() as i32);
    lemma_varint_roundtrip(bytes.len() as i32, bytes + rest);
    assert(p + bytes + rest =~= p + (bytes + rest));
    let s = p + bytes + rest;
    assert(((bytes.len() as i32) as usize) as nat == bytes.len());
    assert(s.subrange(p.len() as int, (p.len() + bytes.len()) as int) =~= bytes);
}

} // verus!
