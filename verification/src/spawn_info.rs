//! The world-state block shared by the join and respawn packets, and the
//! packed block position that the death location travels in.
use vstd::prelude::*;
use vstd::string::StringSliceAdditionalSpecFns;
use vstd::utf8::{decode_utf8, encode_utf8, valid_utf8};

use crate::codec::{
    lemma_bool_roundtrip, lemma_varint_roundtrip, read_bool, read_u8, spec_bool_decode,
    spec_bool_encode, spec_varint_decode, spec_varint_encode, write_bool, write_varint, VarInt,
    lemma_i64_roundtrip, lemma_str_roundtrip, lemma_varint_groups_len, read_i64, read_str,
    spec_i64_decode, spec_i64_encode, spec_str_decode, spec_str_encode, str_encodable, write_i64,
    write_str, DecodeError, EncodeError,
};

verus! {

/// The packed 64-bit form of a block position: x in the top 26 bits, z in
/// the next 26 and y in the low 12, each as two's complement.
pub open spec fn spec_pack_position(x: i32, y: i32, z: i32) -> i64 {
    (((x as i64) & 0x3FFFFFFi64) << 38i64) | (((z as i64) & 0x3FFFFFFi64) << 12i64) | ((
    y as i64) & 0xFFFi64)
}

/// The three fields of a packed position, each sign-extended.
pub open spec fn spec_unpack_position(val: i64) -> (i32, i32, i32) {
    ((val >> 38i64) as i32, ((val << 52i64) >> 52i64) as i32, ((val << 26i64) >> 38i64) as i32)
}

/// The coordinates that the packed form holds exactly.
pub open spec fn position_packable(x: i32, y: i32, z: i32) -> bool {
    -0x2000000 <= x < 0x2000000 && -0x800 <= y < 0x800 && -0x2000000 <= z < 0x2000000
}

/// Packs a block position into 64 bits.
pub fn pack_position(x: i32, y: i32, z: i32) -> (v: i64)
    ensures
        v == spec_pack_position(x, y, z),
{
    (((x as i64) & 0x3FFFFFFi64) << 38i64) | (((z as i64) & 0x3FFFFFFi64) << 12i64) | ((
    y as i64) & 0xFFFi64)
}

/// Unpacks a packed block position.
pub fn unpack_position(val: i64) -> (p: (i32, i32, i32))
    ensures
        p == spec_unpack_position(val),
{
    ((val >> 38i64) as i32, ((val << 52i64) >> 52i64) as i32, ((val << 26i64) >> 38i64) as i32)
}

/// Unpacking a packed position gives the coordinates back whenever they fit
/// their fields.
pub proof fn lemma_pack_unpack(x: i32, y: i32, z: i32)
    requires
        position_packable(x, y, z),
    ensures
        spec_unpack_position(spec_pack_position(x, y, z)) == (x, y, z),
{
    let v = spec_pack_position(x, y, z);
    assert((v >> 38i64) as i32 == x) by (bit_vector)
        requires
            v == (((x as i64) & 0x3FFFFFFi64) << 38i64) | (((z as i64) & 0x3FFFFFFi64) << 12i64)
                | ((y as i64) & 0xFFFi64),
            -0x2000000 <= x < 0x2000000,
    ;
    assert(((v << 52i64) >> 52i64) as i32 == y) by (bit_vector)
        requires
            v == (((x as i64) & 0x3FFFFFFi64) << 38i64) | (((z as i64) & 0x3FFFFFFi64) << 12i64)
                | ((y as i64) & 0xFFFi64),
            -0x800 <= y < 0x800,
    ;
    assert(((v << 26i64) >> 38i64) as i32 == z) by (bit_vector)
        requires
            v == (((x as i64) & 0x3FFFFFFi64) << 38i64) | (((z as i64) & 0x3FFFFFFi64) << 12i64)
                | ((y as i64) & 0xFFFi64),
            -0x2000000 <= z < 0x2000000,
    ;
}

/// Packing the fields of a packed value gives the value back.
pub proof fn lemma_unpack_pack(val: i64)
    ensures
        ({
            let (x, y, z) = spec_unpack_position(val);
            spec_pack_position(x, y, z) == val
        }),
{
    let (x, y, z) = spec_unpack_position(val);
    assert(spec_pack_position(x, y, z) == val) by (bit_vector)
        requires
            x == (val >> 38i64) as i32,
            y == ((val << 52i64) >> 52i64) as i32,
            z == ((val << 26i64) >> 38i64) as i32,
    ;
}

/// The UTF-8 bytes of a string.
pub open spec fn str_bytes(s: Seq<char>) -> Seq<u8> {
    encode_utf8(s)
}

/// A dimension name and a block position in it.
#[derive(Clone, Debug)]
pub struct GlobalPos {
    pub dimension_name: String,
    pub x: i32,
    pub y: i32,
    pub z: i32,
}

/// The value of a [`GlobalPos`]: the name as characters, and the position.
pub struct GlobalPosView {
    pub dimension_name: Seq<char>,
    pub x: i32,
    pub y: i32,
    pub z: i32,
}

impl View for GlobalPos {
    type V = GlobalPosView;

    open spec fn view(&self) -> GlobalPosView {
        GlobalPosView { dimension_name: self.dimension_name@, x: self.x, y: self.y, z: self.z }
    }
}

/// Encoding of a global position: the name as a string, then the packed
/// position as an `i64`.
pub open spec fn spec_global_pos_encode(g: GlobalPosView) -> Seq<u8> {
    spec_str_encode(str_bytes(g.dimension_name)) + spec_i64_encode(
        spec_pack_position(g.x, g.y, g.z),
    )
}

/// What decoding a global position at the front of `s` gives.
pub open spec fn spec_global_pos_decode(s: Seq<u8>) -> Result<(GlobalPosView, nat), DecodeError> {
    match spec_str_decode(s) {
        Err(e) => Err(e),
        Ok((name, n1)) => match spec_i64_decode(s.skip(n1 as int)) {
            Err(e) => Err(e),
            Ok((packed, n2)) => {
                let (x, y, z) = spec_unpack_position(packed);
                Ok((GlobalPosView { dimension_name: decode_utf8(name), x, y, z }, n1 + n2))
            },
        },
    }
}

/// Decodes a string into an owned `String`.
pub fn read_string(r: &mut &[u8]) -> (res: Result<String, DecodeError>)
    ensures
        match spec_str_decode(old(r)@) {
            Ok((body, n)) => res is Ok && res->Ok_0@ == decode_utf8(body) && final(r)@ == old(r)@.skip(n as int),
            Err(e) => res == Err::<String, DecodeError>(e),
        },
{
    let s = read_str(r)?;
    proof {
        vstd::utf8::encode_utf8_decode_utf8(s@);
    }
    Ok(s.to_owned())
}

/// Appends the encoding of an owned string.
pub fn write_string(s: &String, w: &mut Vec<u8>) -> (res: Result<(), EncodeError>)
    ensures
        res is Ok <==> str_encodable(str_bytes(s@)),
        res is Ok ==> final(w)@ == old(w)@ + spec_str_encode(str_bytes(s@)),
        res is Err ==> res == Err::<(), EncodeError>(EncodeError::StringTooLong) && final(w)@ == old(w)@,
{
    write_str(s.as_str(), w)
}

/// Decoding an encodable string gives the same characters back.
pub proof fn lemma_string_roundtrip(chars: Seq<char>, rest: Seq<u8>)
    requires
        str_encodable(str_bytes(chars)),
    ensures
        spec_str_decode(spec_str_encode(str_bytes(chars)) + rest) matches Ok((body, n)) && n
            == spec_str_encode(str_bytes(chars)).len() && decode_utf8(body) == chars,
{
    vstd::utf8::encode_utf8_valid_utf8(chars);
    vstd::utf8::encode_utf8_decode_utf8(chars);
    lemma_str_roundtrip(str_bytes(chars), rest);
}

impl GlobalPos {
    /// Appends the encoding of this position.
    pub fn encode(&self, w: &mut Vec<u8>) -> (res: Result<(), EncodeError>)
        ensures
            res is Ok <==> str_encodable(str_bytes(self.dimension_name@)),
            res is Ok ==> final(w)@ == old(w)@ + spec_global_pos_encode(self@),
            res is Err ==> res == Err::<(), EncodeError>(EncodeError::StringTooLong),
    {
        write_string(&self.dimension_name, w)?;
        let packed = pack_position(self.x, self.y, self.z);
        write_i64(packed, w);
        proof {
            assert(w@ =~= old(w)@ + spec_global_pos_encode(self@));
        }
        Ok(())
    }

    /// Decodes a position from the front of `r` and advances past it.
    pub fn decode(r: &mut &[u8]) -> (res: Result<GlobalPos, DecodeError>)
        ensures
            match spec_global_pos_decode(old(r)@) {
                Ok((v, n)) => res is Ok && res->Ok_0@ == v && final(r)@ == old(r)@.skip(n as int),
                Err(e) => res == Err::<GlobalPos, DecodeError>(e),
            },
    {
        let ghost s = r@;
        let dimension_name = read_string(r)?;
        let ghost n1 = (s.len() - r@.len()) as nat;
        proof {
            lemma_str_decode_len(s);
        }
        let packed = read_i64(r)?;
        let (x, y, z) = unpack_position(packed);
        proof {
            assert(r@ =~= s.skip((n1 + 8) as int));
        }
        Ok(GlobalPos { dimension_name, x, y, z })
    }
}

/// A successful string decoding consumes no more than its input.
pub proof fn lemma_str_decode_len(s: Seq<u8>)
    ensures
        spec_str_decode(s) matches Ok((body, n)) ==> n <= s.len(),
{
    lemma_varint_groups_len(s, 5);
}

/// Decoding an encoded global position gives it back, when its name is
/// encodable and its coordinates fit the packed form.
pub proof fn lemma_global_pos_roundtrip(g: GlobalPosView, rest: Seq<u8>)
    requires
        str_encodable(str_bytes(g.dimension_name)),
        position_packable(g.x, g.y, g.z),
    ensures
        spec_global_pos_decode(spec_global_pos_encode(g) + rest) == Ok::<
            (GlobalPosView, nat),
            DecodeError,
        >((g, spec_global_pos_encode(g).len())),
{
    let a = spec_str_encode(str_bytes(g.dimension_name));
    let b = spec_i64_encode(spec_pack_position(g.x, g.y, g.z));
    let s = spec_global_pos_encode(g) + rest;
    assert(s =~= a + (b + rest));
    lemma_string_roundtrip(g.dimension_name, b + rest);
    assert(s.skip(a.len() as int) =~= b + rest);
    lemma_i64_roundtrip(spec_pack_position(g.x, g.y, g.z), rest);
    lemma_pack_unpack(g.x, g.y, g.z);
}

/// The world a player is put in when joining or respawning.
#[derive(Clone, Debug)]
pub struct SpawnInfo {
    pub dimension: VarInt,
    pub name: String,
    pub hashed_seed: i64,
    pub gamemode: u8,
    pub previous_gamemode: i8,
    pub is_debug: bool,
    pub is_flat: bool,
    pub death_location: Option<GlobalPos>,
    pub portal_cooldown: VarInt,
    pub sea_level: VarInt,
}

/// The value of a [`SpawnInfo`], with its strings as characters.
pub struct SpawnInfoView {
    pub dimension: i32,
    pub name: Seq<char>,
    pub hashed_seed: i64,
    pub gamemode: u8,
    pub previous_gamemode: i8,
    pub is_debug: bool,
    pub is_flat: bool,
    pub death_location: Option<GlobalPosView>,
    pub portal_cooldown: i32,
    pub sea_level: i32,
}

impl View for SpawnInfo {
    type V = SpawnInfoView;

    open spec fn view(&self) -> SpawnInfoView {
        SpawnInfoView {
            dimension: self.dimension.0,
            name: self.name@,
            hashed_seed: self.hashed_seed,
            gamemode: self.gamemode,
            previous_gamemode: self.previous_gamemode,
            is_debug: self.is_debug,
            is_flat: self.is_flat,
            death_location: match self.death_location {
                Some(g) => Some(g@),
                None => None,
            },
            portal_cooldown: self.portal_cooldown.0,
            sea_level: self.sea_level.0,
        }
    }
}

/// Encoding of an optional death location: a presence boolean, then the
/// location when there is one.
pub open spec fn spec_death_location_encode(d: Option<GlobalPosView>) -> Seq<u8> {
    match d {
        Some(g) => spec_bool_encode(true) + spec_global_pos_encode(g),
        None => spec_bool_encode(false),
    }
}

/// Encoding of the world state: its fields in declaration order.
pub open spec fn spec_spawn_info_encode(v: SpawnInfoView) -> Seq<u8> {
    spec_varint_encode(v.dimension) + spec_str_encode(str_bytes(v.name)) + spec_i64_encode(
        v.hashed_seed,
    ) + seq![v.gamemode] + seq![v.previous_gamemode as u8] + spec_bool_encode(v.is_debug)
        + spec_bool_encode(v.is_flat) + spec_death_location_encode(v.death_location)
        + spec_varint_encode(v.portal_cooldown) + spec_varint_encode(v.sea_level)
}

/// The length of a world state's encoding is the sum of its parts: the
/// dimension's VarInt, the name's length VarInt and bytes, 13 bytes of
/// seed, game modes and flags (with the presence byte of the death
/// location), the death location's name and position when there is one,
/// and the VarInts of the portal cooldown and sea level.
pub proof fn lemma_spawn_info_len(v: SpawnInfoView)
    ensures
        spec_spawn_info_encode(v).len() == spec_varint_encode(v.dimension).len() + spec_varint_encode(
            str_bytes(v.name).len() as i32,
        ).len() + str_bytes(v.name).len() + 13 + match v.death_location {
            Some(g) => spec_varint_encode(str_bytes(g.dimension_name).len() as i32).len() + str_bytes(
                g.dimension_name,
            ).len() + 8,
            None => 0,
        } + spec_varint_encode(v.portal_cooldown).len() + spec_varint_encode(v.sea_level).len(),
{
    assert(spec_i64_encode(v.hashed_seed).len() == 8);
    assert(spec_bool_encode(v.is_debug).len() == 1);
    assert(spec_bool_encode(v.is_flat).len() == 1);
    match v.death_location {
        Some(g) => {
            assert(spec_i64_encode(spec_pack_position(g.x, g.y, g.z)).len() == 8);
            assert(spec_bool_encode(true).len() == 1);
        },
        None => {
            assert(spec_bool_encode(false).len() == 1);
        },
    }
}

/// The world state can be encoded when its strings are encodable.
pub open spec fn spawn_info_encodable(v: SpawnInfoView) -> bool {
    &&& str_encodable(str_bytes(v.name))
    &&& v.death_location matches Some(g) ==> str_encodable(str_bytes(g.dimension_name))
}

/// What decoding an optional death location at the front of `s` gives.
pub open spec fn spec_death_location_decode(s: Seq<u8>) -> Result<
    (Option<GlobalPosView>, nat),
    DecodeError,
> {
    match spec_bool_decode(s) {
        Err(e) => Err(e),
        Ok((present, n)) => if present {
            match spec_global_pos_decode(s.skip(n as int)) {
                Err(e) => Err(e),
                Ok((g, m)) => Ok((Some(g), n + m)),
            }
        } else {
            Ok((None, n))
        },
    }
}

/// What decoding the first three fields (dimension, name, seed) gives.
#[verifier::opaque]
pub open spec fn spec_spawn_head_decode(s: Seq<u8>) -> Result<((i32, Seq<char>, i64), nat), DecodeError> {
    match spec_varint_decode(s) {
        Err(e) => Err(e),
        Ok((dim, n1)) => match spec_str_decode(s.skip(n1 as int)) {
            Err(e) => Err(e),
            Ok((name, n2)) => match spec_i64_decode(s.skip((n1 + n2) as int)) {
                Err(e) => Err(e),
                Ok((seed, n3)) => Ok(((dim, decode_utf8(name), seed), n1 + n2 + n3)),
            },
        },
    }
}

/// What decoding the game modes and the two flags gives.
#[verifier::opaque]
pub open spec fn spec_spawn_flags_decode(s: Seq<u8>) -> Result<((u8, i8, bool, bool), nat), DecodeError> {
    if s.len() < 1 {
        Err(DecodeError::UnexpectedEof)
    } else if s.len() < 2 {
        Err(DecodeError::UnexpectedEof)
    } else {
        match spec_bool_decode(s.skip(2)) {
            Err(e) => Err(e),
            Ok((debug, _)) => match spec_bool_decode(s.skip(3)) {
                Err(e) => Err(e),
                Ok((flat, _)) => Ok(((s[0], s[1] as i8, debug, flat), 4)),
            },
        }
    }
}

/// What decoding the death location and the last two VarInts gives.
#[verifier::opaque]
pub open spec fn spec_spawn_tail_decode(s: Seq<u8>) -> Result<((Option<GlobalPosView>, i32, i32), nat), DecodeError> {
    match spec_death_location_decode(s) {
        Err(e) => Err(e),
        Ok((d, n1)) => match spec_varint_decode(s.skip(n1 as int)) {
            Err(e) => Err(e),
            Ok((pc, n2)) => match spec_varint_decode(s.skip((n1 + n2) as int)) {
                Err(e) => Err(e),
                Ok((sl, n3)) => Ok(((d, pc, sl), n1 + n2 + n3)),
            },
        },
    }
}

/// What decoding the world state at the front of `s` gives.
pub open spec fn spec_spawn_info_decode(s: Seq<u8>) -> Result<(SpawnInfoView, nat), DecodeError> {
    match spec_spawn_head_decode(s) {
        Err(e) => Err(e),
        Ok(((dim, name, seed), n1)) => match spec_spawn_flags_decode(s.skip(n1 as int)) {
            Err(e) => Err(e),
            Ok(((gm, pgm, debug, flat), n2)) => match spec_spawn_tail_decode(
                s.skip((n1 + n2) as int),
            ) {
                Err(e) => Err(e),
                Ok(((d, pc, sl), n3)) => Ok(
                    (
                        SpawnInfoView {
                            dimension: dim,
                            name,
                            hashed_seed: seed,
                            gamemode: gm,
                            previous_gamemode: pgm,
                            is_debug: debug,
                            is_flat: flat,
                            death_location: d,
                            portal_cooldown: pc,
                            sea_level: sl,
                        },
                        n1 + n2 + n3,
                    ),
                ),
            },
        },
    }
}

fn decode_spawn_head(r: &mut &[u8]) -> (res: Result<(VarInt, String, i64), DecodeError>)
    ensures
        match spec_spawn_head_decode(old(r)@) {
            Ok(((d, name, seed), n)) => res is Ok && res->Ok_0.0 == VarInt(d) && res->Ok_0.1@ == name
                && res->Ok_0.2 == seed && n <= old(r)@.len() && final(r)@ == old(r)@.skip(n as int),
            Err(e) => res == Err::<(VarInt, String, i64), DecodeError>(e),
        },
{
    reveal(spec_spawn_head_decode);
    let ghost s = r@;
    proof {
        lemma_varint_groups_len(s, 5);
    }
    let dimension = VarInt::decode(r)?;
    let ghost n1 = (s.len() - r@.len()) as nat;
    proof {
        lemma_str_decode_len(r@);
    }
    let name = read_string(r)?;
    let ghost n2 = (s.len() - r@.len() - n1) as nat;
    proof {
        assert(r@ =~= s.skip((n1 + n2) as int));
    }
    let seed = read_i64(r)?;
    proof {
        assert(r@ =~= s.skip((n1 + n2 + 8) as int));
    }
    Ok((dimension, name, seed))
}

fn decode_spawn_flags(r: &mut &[u8]) -> (res: Result<(u8, i8, bool, bool), DecodeError>)
    ensures
        match spec_spawn_flags_decode(old(r)@) {
            Ok((v, n)) => res == Ok::<(u8, i8, bool, bool), DecodeError>(v) && n <= old(r)@.len()
                && final(r)@ == old(r)@.skip(n as int),
            Err(e) => res == Err::<(u8, i8, bool, bool), DecodeError>(e),
        },
{
    reveal(spec_spawn_flags_decode);
    let ghost s = r@;
    let gamemode = read_u8(r)?;
    let previous = read_u8(r)? as i8;
    proof {
        assert(r@ =~= s.skip(2));
    }
    let is_debug = read_bool(r)?;
    proof {
        assert(r@ =~= s.skip(3));
    }
    let is_flat = read_bool(r)?;
    proof {
        assert(r@ =~= s.skip(4));
    }
    Ok((gamemode, previous, is_debug, is_flat))
}

fn decode_death_location(r: &mut &[u8]) -> (res: Result<Option<GlobalPos>, DecodeError>)
    ensures
        match spec_death_location_decode(old(r)@) {
            Ok((d, n)) => res is Ok && (match res->Ok_0 {
                Some(g) => d == Some(g@),
                None => d is None,
            }) && n <= old(r)@.len() && final(r)@ == old(r)@.skip(n as int),
            Err(e) => res == Err::<Option<GlobalPos>, DecodeError>(e),
        },
{
    let ghost s = r@;
    let present = read_bool(r)?;
    if present {
        proof {
            lemma_str_decode_len(r@);
        }
        let g = GlobalPos::decode(r)?;
        proof {
            assert(r@ =~= s.skip((s.len() - r@.len()) as int));
        }
        Ok(Some(g))
    } else {
        Ok(None)
    }
}

fn decode_spawn_tail(r: &mut &[u8]) -> (res: Result<(Option<GlobalPos>, VarInt, VarInt), DecodeError>)
    ensures
        match spec_spawn_tail_decode(old(r)@) {
            Ok(((d, pc, sl), n)) => res is Ok && (match res->Ok_0.0 {
                Some(g) => d == Some(g@),
                None => d is None,
            }) && res->Ok_0.1 == VarInt(pc) && res->Ok_0.2 == VarInt(sl) && n <= old(r)@.len()
                && final(r)@ == old(r)@.skip(n as int),
            Err(e) => res == Err::<(Option<GlobalPos>, VarInt, VarInt), DecodeError>(e),
        },
{
    reveal(spec_spawn_tail_decode);
    let ghost s = r@;
    let death_location = decode_death_location(r)?;
    let ghost n1 = (s.len() - r@.len()) as nat;
    proof {
        lemma_varint_groups_len(r@, 5);
    }
    let portal_cooldown = VarInt::decode(r)?;
    let ghost n2 = (s.len() - r@.len() - n1) as nat;
    proof {
        assert(r@ =~= s.skip((n1 + n2) as int));
        lemma_varint_groups_len(r@, 5);
    }
    let sea_level = VarInt::decode(r)?;
    proof {
        assert(r@ =~= s.skip((s.len() - r@.len()) as int));
    }
    Ok((death_location, portal_cooldown, sea_level))
}

fn encode_death_location(d: &Option<GlobalPos>, w: &mut Vec<u8>) -> (res: Result<(), EncodeError>)
    ensures
        res is Ok <==> (d matches Some(g) ==> str_encodable(str_bytes(g.dimension_name@))),
        res is Ok ==> final(w)@ == old(w)@ + spec_death_location_encode(match d {
            Some(g) => Some(g@),
            None => None,
        }),
        res is Err ==> res == Err::<(), EncodeError>(EncodeError::StringTooLong),
{
    match d {
        Some(pos) => {
            write_bool(true, w);
            pos.encode(w)?;
            proof {
                assert(w@ =~= old(w)@ + spec_death_location_encode(Some(pos@)));
            }
        },
        None => {
            write_bool(false, w);
        },
    }
    Ok(())
}

impl SpawnInfo {
    /// Appends the encoding of the world state.
    #[verifier::rlimit(100)]
    pub fn encode(&self, w: &mut Vec<u8>) -> (res: Result<(), EncodeError>)
        ensures
            res is Ok <==> spawn_info_encodable(self@),
            res is Ok ==> final(w)@ == old(w)@ + spec_spawn_info_encode(self@),
            res is Err ==> res == Err::<(), EncodeError>(EncodeError::StringTooLong),
    {
        let ghost w0 = w@;
        write_varint(self.dimension.0, w);
        write_string(&self.name, w)?;
        let ghost w2 = w@;
        write_i64(self.hashed_seed, w);
        w.push(self.gamemode);
        w.push(self.previous_gamemode as u8);
        write_bool(self.is_debug, w);
        write_bool(self.is_flat, w);
        let ghost f = spec_i64_encode(self.hashed_seed) + seq![self.gamemode] + seq![
            self.previous_gamemode as u8,
        ] + spec_bool_encode(self.is_debug) + spec_bool_encode(self.is_flat);
        proof {
            assert(w@ =~= w2 + f);
        }
        let ghost w3 = w@;
        encode_death_location(&self.death_location, w)?;
        let ghost w4 = w@;
        write_varint(self.portal_cooldown.0, w);
        write_varint(self.sea_level.0, w);
        proof {
            let e1 = spec_varint_encode(self.dimension.0);
            let e2 = spec_str_encode(str_bytes(self.name@));
            let d = spec_death_location_encode(self@.death_location);
            let e4 = spec_varint_encode(self.portal_cooldown.0);
            let e5 = spec_varint_encode(self.sea_level.0);
            assert(w2 == w0 + e1 + e2);
            assert(w4 == w3 + d);
            assert(w@ == w4 + e4 + e5);
            assert(spec_spawn_info_encode(self@) =~= e1 + e2 + f + d + e4 + e5);
            assert(w@ =~= w0 + (e1 + e2 + f + d + e4 + e5));
        }
        Ok(())
    }

    /// Number of bytes of the encoding of the world state.
    pub fn encoded_len(&self) -> (n: usize)
        requires
            spawn_info_encodable(self@),
        ensures
            n == spec_spawn_info_encode(self@).len(),
    {
        let mut buf: Vec<u8> = Vec::new();
        let _ = self.encode(&mut buf);
        proof {
            assert(buf@ =~= spec_spawn_info_encode(self@));
        }
        buf.len()
    }

    /// Decodes the world state from the front of `r` and advances past it.
    pub fn decode(r: &mut &[u8]) -> (res: Result<SpawnInfo, DecodeError>)
        ensures
            match spec_spawn_info_decode(old(r)@) {
                Ok((v, n)) => res is Ok && res->Ok_0@ == v && final(r)@ == old(r)@.skip(n as int),
                Err(e) => res == Err::<SpawnInfo, DecodeError>(e),
            },
    {
        let ghost s = r@;
        let (dimension, name, hashed_seed) = decode_spawn_head(r)?;
        let ghost n1 = (s.len() - r@.len()) as nat;
        let (gamemode, previous_gamemode, is_debug, is_flat) = decode_spawn_flags(r)?;
        let ghost n2 = (s.len() - r@.len() - n1) as nat;
        proof {
            assert(r@ =~= s.skip((n1 + n2) as int));
        }
        let (death_location, portal_cooldown, sea_level) = decode_spawn_tail(r)?;
        proof {
            assert(r@ =~= s.skip((s.len() - r@.len()) as int));
        }
        let info = SpawnInfo {
            dimension,
            name,
            hashed_seed,
            gamemode,
            previous_gamemode,
            is_debug,
            is_flat,
            death_location,
            portal_cooldown,
            sea_level,
        };
        Ok(info)
    }
}

proof fn lemma_spawn_head_roundtrip(v: SpawnInfoView, rest: Seq<u8>)
    requires
        str_encodable(str_bytes(v.name)),
    ensures
        ({
            let e = spec_varint_encode(v.dimension) + spec_str_encode(str_bytes(v.name))
                + spec_i64_encode(v.hashed_seed);
            spec_spawn_head_decode(e + rest) == Ok::<((i32, Seq<char>, i64), nat), DecodeError>(
                ((v.dimension, v.name, v.hashed_seed), e.len()),
            )
        }),
{
    reveal(spec_spawn_head_decode);
    let e1 = spec_varint_encode(v.dimension);
    let e2 = spec_str_encode(str_bytes(v.name));
    let e3 = spec_i64_encode(v.hashed_seed);
    let s = e1 + e2 + e3 + rest;
    assert(s =~= e1 + (e2 + (e3 + rest)));
    lemma_varint_roundtrip(v.dimension, e2 + (e3 + rest));
    assert(s.skip(e1.len() as int) =~= e2 + (e3 + rest));
    lemma_string_roundtrip(v.name, e3 + rest);
    assert(s.skip((e1.len() + e2.len()) as int) =~= e3 + rest);
    lemma_i64_roundtrip(v.hashed_seed, rest);
}

proof fn lemma_spawn_flags_roundtrip(v: SpawnInfoView, rest: Seq<u8>)
    ensures
        ({
            let f = seq![v.gamemode] + seq![v.previous_gamemode as u8] + spec_bool_encode(
                v.is_debug,
            ) + spec_bool_encode(v.is_flat);
            spec_spawn_flags_decode(f + rest) == Ok::<((u8, i8, bool, bool), nat), DecodeError>(
                ((v.gamemode, v.previous_gamemode, v.is_debug, v.is_flat), 4),
            )
        }),
{
    let f = seq![v.gamemode] + seq![v.previous_gamemode as u8] + spec_bool_encode(v.is_debug)
        + spec_bool_encode(v.is_flat);
    let fs = f + rest;
    reveal(spec_spawn_flags_decode);
    lemma_bool_roundtrip(v.is_debug, spec_bool_encode(v.is_flat) + rest);
    assert(fs.skip(2) =~= spec_bool_encode(v.is_debug) + (spec_bool_encode(v.is_flat) + rest));
    lemma_bool_roundtrip(v.is_flat, rest);
    assert(fs.skip(3) =~= spec_bool_encode(v.is_flat) + rest);
    let pg = v.previous_gamemode;
    assert(((pg as u8) as i8) == pg) by (bit_vector);
}

proof fn lemma_death_location_roundtrip(dl: Option<GlobalPosView>, rest: Seq<u8>)
    requires
        dl matches Some(g) ==> str_encodable(str_bytes(g.dimension_name)) && position_packable(g.x, g.y, g.z),
    ensures
        spec_death_location_decode(spec_death_location_encode(dl) + rest) == Ok::<(Option<GlobalPosView>, nat), DecodeError>(
            (dl, spec_death_location_encode(dl).len()),
        ),
{
    let ts = spec_death_location_encode(dl) + rest;
    match dl {
        Some(g) => {
            lemma_bool_roundtrip(true, spec_global_pos_encode(g) + rest);
            assert(ts =~= spec_bool_encode(true) + (spec_global_pos_encode(g) + rest));
            assert(ts.skip(1) =~= spec_global_pos_encode(g) + rest);
            lemma_global_pos_roundtrip(g, rest);
        },
        None => {
            lemma_bool_roundtrip(false, rest);
            assert(ts =~= spec_bool_encode(false) + rest);
        },
    }
}

#[verifier::rlimit(60)]
proof fn lemma_spawn_tail_roundtrip(v: SpawnInfoView, rest: Seq<u8>)
    requires
        v.death_location matches Some(g) ==> str_encodable(str_bytes(g.dimension_name))
            && position_packable(g.x, g.y, g.z),
    ensures
        ({
            let t = spec_death_location_encode(v.death_location) + spec_varint_encode(
                v.portal_cooldown,
            ) + spec_varint_encode(v.sea_level);
            spec_spawn_tail_decode(t + rest) == Ok::<
                ((Option<GlobalPosView>, i32, i32), nat),
                DecodeError,
            >(((v.death_location, v.portal_cooldown, v.sea_level), t.len()))
        }),
{
    let d = spec_death_location_encode(v.death_location);
    let e4 = spec_varint_encode(v.portal_cooldown);
    let e5 = spec_varint_encode(v.sea_level);
    let ts = d + e4 + e5 + rest;
    reveal(spec_spawn_tail_decode);
    assert(ts =~= d + (e4 + e5 + rest));
    lemma_death_location_roundtrip(v.death_location, e4 + e5 + rest);
    assert(ts.skip(d.len() as int) =~= e4 + (e5 + rest));
    lemma_varint_roundtrip(v.portal_cooldown, e5 + rest);
    assert(ts.skip((d.len() + e4.len()) as int) =~= e5 + rest);
    lemma_varint_roundtrip(v.sea_level, rest);
}

/// Decoding an encoded world state gives it back, when its strings are
/// encodable and its death location fits the packed form.
#[verifier::rlimit(60)]
pub proof fn lemma_spawn_info_roundtrip(v: SpawnInfoView, rest: Seq<u8>)
    requires
        spawn_info_encodable(v),
        v.death_location matches Some(g) ==> position_packable(g.x, g.y, g.z),
    ensures
        spec_spawn_info_decode(spec_spawn_info_encode(v) + rest) == Ok::<(SpawnInfoView, nat), DecodeError>(
            (v, spec_spawn_info_encode(v).len()),
        ),
{
    let h = spec_varint_encode(v.dimension) + spec_str_encode(str_bytes(v.name)) + spec_i64_encode(
        v.hashed_seed,
    );
    let f = seq![v.gamemode] + seq![v.previous_gamemode as u8] + spec_bool_encode(v.is_debug)
        + spec_bool_encode(v.is_flat);
    let t = spec_death_location_encode(v.death_location) + spec_varint_encode(v.portal_cooldown)
        + spec_varint_encode(v.sea_level);
    let s = spec_spawn_info_encode(v) + rest;
    assert(spec_spawn_info_encode(v) =~= h + f + t);
    assert(s =~= h + (f + t + rest));
    lemma_spawn_head_roundtrip(v, f + t + rest);
    assert(s.skip(h.len() as int) =~= f + (t + rest));
    lemma_spawn_flags_roundtrip(v, t + rest);
    assert(s.skip((h.len() + 4) as int) =~= t + rest);
    lemma_spawn_tail_roundtrip(v, rest);
}

} // verus!
