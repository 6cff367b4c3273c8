//! Packets of the play phase.
use vstd::prelude::*;
use crate::codec::{
    DecodeError, EncodeError, VarInt, spec_varint_encode, spec_bool_encode, spec_i32_encode, spec_i64_encode,
    write_varint, write_bool, write_i32, write_i64, read_u8, read_i32, read_bool, spec_i32_decode,
    spec_bool_decode, spec_varint_decode, lemma_i32_roundtrip, lemma_bool_roundtrip, lemma_varint_roundtrip,
    lemma_varint_groups_len,
};
use crate::spawn_info::{
    SpawnInfo, SpawnInfoView, spec_spawn_info_encode, spec_spawn_info_decode, spawn_info_encodable,
    lemma_spawn_info_roundtrip, position_packable,
};
use crate::raw::{ChunkDataWrapper, RawBytes};
use crate::packets::configuration::{
    PacketState, PacketSide, list_encode, items_encode, strings_view, strings_encodable, string_enc,
    write_string_list, list_decode, string_dec, read_string_list, lemma_string_list_roundtrip,
};

verus! {

/// The server puts a player back into a world.
#[derive(Clone, Debug)]
pub struct PlayerRespawnS2c {
    pub world_state: SpawnInfo,
    pub copy_metadata: u8,
}

/// Decoding a respawn packet: the world state, then one byte; the world
/// state, the byte, and the input after the world state.
pub open spec fn spec_respawn_decode(s: Seq<u8>) -> Result<(SpawnInfoView, u8, Seq<u8>), DecodeError> {
    match spec_spawn_info_decode(s) {
        Err(e) => Err(e),
        Ok((v, n)) => if s.skip(n as int).len() == 0 {
            Err(DecodeError::UnexpectedEof)
        } else {
            Ok((v, s.skip(n as int)[0], s.skip(n as int)))
        },
    }
}

impl PlayerRespawnS2c {
    /// The packet belongs to the play phase.
    pub fn state() -> (s: PacketState)
        ensures
            s == PacketState::Play,
    {
        PacketState::Play
    }

    /// Appends the world state and the metadata byte.
    pub fn encode(&self, w: &mut Vec<u8>) -> (res: Result<(), EncodeError>)
        ensures
            res is Ok <==> spawn_info_encodable(self.world_state@),
            res is Ok ==> final(w)@ == old(w)@ + spec_spawn_info_encode(self.world_state@) + seq![self.copy_metadata],
    {
        self.world_state.encode(w)?;
        w.push(self.copy_metadata);
        Ok(())
    }

    /// Decodes the world state and the metadata byte (see
    /// [`spec_respawn_decode`]).
    pub fn decode(r: &mut &[u8]) -> (res: Result<PlayerRespawnS2c, DecodeError>)
        ensures
            match spec_respawn_decode(old(r)@) {
                Ok((v, c, after)) => res matches Ok(p) && p.world_state@ == v && p.copy_metadata == c && final(r)@
                    == after.drop_first(),
                Err(e) => res matches Err(e2) && e2 == e,
            },
    {
        let world_state = SpawnInfo::decode(r)?;
        let copy_metadata = read_u8(r)?;
        Ok(PlayerRespawnS2c { world_state, copy_metadata })
    }
}

/// The server lets a player into the game.
#[derive(Clone, Debug)]
pub struct GameJoinS2c {
    pub entity_id: i32,
    pub is_hardcore: bool,
    pub world_names: Vec<String>,
    pub max_players: VarInt,
    pub view_distance: VarInt,
    pub simulation_distance: VarInt,
    pub reduced_debug_info: bool,
    pub enable_respawn_screen: bool,
    pub do_limited_crafting: bool,
    pub world_state: SpawnInfo,
    pub online_mode: bool,
    pub enforces_secure_chat: bool,
}

/// The encoding of the join packet: its fields in declaration order.
pub open spec fn spec_game_join_encode(p: GameJoinS2c) -> Seq<u8> {
    spec_i32_encode(p.entity_id) + spec_bool_encode(p.is_hardcore) + list_encode(
        strings_view(p.world_names@),
        string_enc(),
    ) + join_settings_encode(p) + spec_spawn_info_encode(p.world_state@) + spec_bool_encode(p.online_mode) + spec_bool_encode(
        p.enforces_secure_chat,
    )
}

/// Whether the join packet can be encoded: its world names fit a counted
/// list of encodable strings and its world state is encodable.
pub open spec fn game_join_encodable(p: GameJoinS2c) -> bool {
    &&& p.world_names@.len() <= i32::MAX
    &&& strings_encodable(strings_view(p.world_names@))
    &&& spawn_info_encodable(p.world_state@)
}

/// The encoding of the join packet's view and gameplay settings.
pub open spec fn join_settings_encode(p: GameJoinS2c) -> Seq<u8> {
    spec_varint_encode(p.max_players.0) + spec_varint_encode(p.view_distance.0) + spec_varint_encode(
        p.simulation_distance.0,
    ) + spec_bool_encode(p.reduced_debug_info) + spec_bool_encode(p.enable_respawn_screen) + spec_bool_encode(
        p.do_limited_crafting,
    )
}

fn write_join_settings(p: &GameJoinS2c, w: &mut Vec<u8>)
    ensures
        final(w)@ == old(w)@ + join_settings_encode(*p),
{
    write_varint(p.max_players.0, w);
    write_varint(p.view_distance.0, w);
    write_varint(p.simulation_distance.0, w);
    write_bool(p.reduced_debug_info, w);
    write_bool(p.enable_respawn_screen, w);
    write_bool(p.do_limited_crafting, w);
    proof {
        assert(w@ =~= old(w)@ + join_settings_encode(*p));
    }
}

impl GameJoinS2c {
    /// The packet belongs to the play phase.
    pub fn state() -> (s: PacketState)
        ensures
            s == PacketState::Play,
    {
        PacketState::Play
    }

    /// Appends the fields in declaration order.
    #[verifier::rlimit(30)]
    pub fn encode(&self, w: &mut Vec<u8>) -> (res: Result<(), EncodeError>)
        ensures
            res is Ok <==> game_join_encodable(*self),
            res is Ok ==> final(w)@ == old(w)@ + spec_game_join_encode(*self),
    {
        let ghost w0 = w@;
        write_i32(self.entity_id, w);
        write_bool(self.is_hardcore, w);
        let ghost a = spec_i32_encode(self.entity_id) + spec_bool_encode(self.is_hardcore);
        proof {
            assert(w@ =~= w0 + a);
        }
        let ghost wa = w@;
        write_string_list(&self.world_names, w)?;
        let ghost b = list_encode(strings_view(self.world_names@), string_enc());
        let ghost wb = w@;
        write_join_settings(self, w);
        let ghost c = join_settings_encode(*self);
        let ghost wc = w@;
        self.world_state.encode(w)?;
        let ghost d = spec_spawn_info_encode(self.world_state@);
        let ghost wd = w@;
        write_bool(self.online_mode, w);
        write_bool(self.enforces_secure_chat, w);
        let ghost e = spec_bool_encode(self.online_mode) + spec_bool_encode(self.enforces_secure_chat);
        proof {
            assert(w@ =~= wd + e);
            assert(spec_game_join_encode(*self) =~= a + b + c + d + e);
            assert(w@ =~= w0 + (a + b + c + d + e));
        }
        Ok(())
    }
}


/// The value of a join packet, with its strings as characters.
pub struct GameJoinView {
    pub entity_id: i32,
    pub is_hardcore: bool,
    pub world_names: Seq<Seq<char>>,
    pub max_players: i32,
    pub view_distance: i32,
    pub simulation_distance: i32,
    pub reduced_debug_info: bool,
    pub enable_respawn_screen: bool,
    pub do_limited_crafting: bool,
    pub world_state: SpawnInfoView,
    pub online_mode: bool,
    pub enforces_secure_chat: bool,
}

pub open spec fn game_join_view(p: GameJoinS2c) -> GameJoinView {
    GameJoinView {
        entity_id: p.entity_id,
        is_hardcore: p.is_hardcore,
        world_names: strings_view(p.world_names@),
        max_players: p.max_players.0,
        view_distance: p.view_distance.0,
        simulation_distance: p.simulation_distance.0,
        reduced_debug_info: p.reduced_debug_info,
        enable_respawn_screen: p.enable_respawn_screen,
        do_limited_crafting: p.do_limited_crafting,
        world_state: p.world_state@,
        online_mode: p.online_mode,
        enforces_secure_chat: p.enforces_secure_chat,
    }
}

/// Decoding the entity id, the hardcore flag and the world names; they and
/// the input after them.
#[verifier::opaque]
pub open spec fn spec_join_head_decode(s: Seq<u8>) -> Result<((i32, bool, Seq<Seq<char>>), Seq<u8>), DecodeError> {
    match spec_i32_decode(s) {
        Err(e) => Err(e),
        Ok((id, n1)) => match spec_bool_decode(s.skip(n1 as int)) {
            Err(e) => Err(e),
            Ok((hc, n2)) => match list_decode(s.skip(n1 as int).skip(n2 as int), string_dec()) {
                Err(e) => Err(e),
                Ok((names, n3)) => Ok(((id, hc, names), s.skip(n1 as int).skip(n2 as int).skip(n3 as int))),
            },
        },
    }
}

/// Decoding the three counts and three flags of the settings; they and the
/// input after them.
#[verifier::opaque]
pub open spec fn spec_join_settings_decode(s: Seq<u8>) -> Result<((i32, i32, i32, bool, bool, bool), Seq<u8>), DecodeError> {
    match spec_varint_decode(s) {
        Err(e) => Err(e),
        Ok((a, n1)) => {
            let s1 = s.skip(n1 as int);
            match spec_varint_decode(s1) {
                Err(e) => Err(e),
                Ok((b, n2)) => {
                    let s2 = s1.skip(n2 as int);
                    match spec_varint_decode(s2) {
                        Err(e) => Err(e),
                        Ok((c, n3)) => {
                            let s3 = s2.skip(n3 as int);
                            match spec_bool_decode(s3) {
                                Err(e) => Err(e),
                                Ok((f1, _)) => match spec_bool_decode(s3.skip(1)) {
                                    Err(e) => Err(e),
                                    Ok((f2, _)) => match spec_bool_decode(s3.skip(1).skip(1)) {
                                        Err(e) => Err(e),
                                        Ok((f3, _)) => Ok(((a, b, c, f1, f2, f3), s3.skip(1).skip(1).skip(1))),
                                    },
                                },
                            }
                        },
                    }
                },
            }
        },
    }
}

/// Decoding the world state and the two closing flags; they and the input
/// after them.
#[verifier::opaque]
pub open spec fn spec_join_tail_decode(s: Seq<u8>) -> Result<((SpawnInfoView, bool, bool), Seq<u8>), DecodeError> {
    match spec_spawn_info_decode(s) {
        Err(e) => Err(e),
        Ok((ws, n1)) => {
            let s1 = s.skip(n1 as int);
            match spec_bool_decode(s1) {
                Err(e) => Err(e),
                Ok((om, _)) => match spec_bool_decode(s1.skip(1)) {
                    Err(e) => Err(e),
                    Ok((sc, _)) => Ok(((ws, om, sc), s1.skip(1).skip(1))),
                },
            }
        },
    }
}

/// Decoding a join packet: its fields in declaration order; the packet and
/// the input after it.
pub open spec fn spec_game_join_decode(s: Seq<u8>) -> Result<(GameJoinView, Seq<u8>), DecodeError> {
    match spec_join_head_decode(s) {
        Err(e) => Err(e),
        Ok(((id, hc, names), s1)) => match spec_join_settings_decode(s1) {
            Err(e) => Err(e),
            Ok(((mp, vd, sd, rdi, ers, dlc), s2)) => match spec_join_tail_decode(s2) {
                Err(e) => Err(e),
                Ok(((ws, om, sc), s3)) => Ok(
                    (
                        GameJoinView {
                            entity_id: id,
                            is_hardcore: hc,
                            world_names: names,
                            max_players: mp,
                            view_distance: vd,
                            simulation_distance: sd,
                            reduced_debug_info: rdi,
                            enable_respawn_screen: ers,
                            do_limited_crafting: dlc,
                            world_state: ws,
                            online_mode: om,
                            enforces_secure_chat: sc,
                        },
                        s3,
                    ),
                ),
            },
        },
    }
}

fn decode_join_head(r: &mut &[u8]) -> (res: Result<(i32, bool, Vec<String>), DecodeError>)
    ensures
        match spec_join_head_decode(old(r)@) {
            Ok(((id, hc, names), rest)) => res matches Ok((a, b, c)) && a == id && b == hc && strings_view(c@)
                == names && final(r)@ == rest,
            Err(e) => res == Err::<(i32, bool, Vec<String>), DecodeError>(e),
        },
{
    proof {
        reveal(spec_join_head_decode);
    }
    let id = read_i32(r)?;
    let hc = read_bool(r)?;
    let names = read_string_list(r)?;
    Ok((id, hc, names))
}

fn decode_join_settings(r: &mut &[u8]) -> (res: Result<(i32, i32, i32, bool, bool, bool), DecodeError>)
    ensures
        match spec_join_settings_decode(old(r)@) {
            Ok((v, rest)) => res == Ok::<(i32, i32, i32, bool, bool, bool), DecodeError>(v) && final(r)@ == rest,
            Err(e) => res == Err::<(i32, i32, i32, bool, bool, bool), DecodeError>(e),
        },
{
    proof {
        reveal(spec_join_settings_decode);
    }
    let a = VarInt::decode(r)?.0;
    let b = VarInt::decode(r)?.0;
    let c = VarInt::decode(r)?.0;
    let f1 = read_bool(r)?;
    let f2 = read_bool(r)?;
    let f3 = read_bool(r)?;
    Ok((a, b, c, f1, f2, f3))
}

fn decode_join_tail(r: &mut &[u8]) -> (res: Result<(SpawnInfo, bool, bool), DecodeError>)
    ensures
        match spec_join_tail_decode(old(r)@) {
            Ok(((ws, om, sc), rest)) => res matches Ok((a, b, c)) && a@ == ws && b == om && c == sc
                && final(r)@ == rest,
            Err(e) => res == Err::<(SpawnInfo, bool, bool), DecodeError>(e),
        },
{
    proof {
        reveal(spec_join_tail_decode);
    }
    let ws = SpawnInfo::decode(r)?;
    let om = read_bool(r)?;
    let sc = read_bool(r)?;
    Ok((ws, om, sc))
}

impl GameJoinS2c {
    /// Decodes a join packet from the front of `r` (see
    /// [`spec_game_join_decode`]).
    pub fn decode(r: &mut &[u8]) -> (res: Result<GameJoinS2c, DecodeError>)
        ensures
            match spec_game_join_decode(old(r)@) {
                Ok((v, rest)) => res matches Ok(p) && game_join_view(p) == v && final(r)@ == rest,
                Err(e) => res matches Err(e2) && e2 == e,
            },
    {
        let (entity_id, is_hardcore, world_names) = decode_join_head(r)?;
        let (mp, vd, sd, reduced_debug_info, enable_respawn_screen, do_limited_crafting) =
            decode_join_settings(r)?;
        let (world_state, online_mode, enforces_secure_chat) = decode_join_tail(r)?;
        Ok(
            GameJoinS2c {
                entity_id,
                is_hardcore,
                world_names,
                max_players: VarInt(mp),
                view_distance: VarInt(vd),
                simulation_distance: VarInt(sd),
                reduced_debug_info,
                enable_respawn_screen,
                do_limited_crafting,
                world_state,
                online_mode,
                enforces_secure_chat,
            },
        )
    }
}


proof fn lemma_skip_prefix(x: Seq<u8>, y: Seq<u8>)
    ensures
        (x + y).skip(x.len() as int) == y,
{
    assert((x + y).skip(x.len() as int) =~= y);
}

proof fn lemma_flags_roundtrip(f1: bool, f2: bool, f3: bool, rest: Seq<u8>)
    ensures
        ({
            let t = spec_bool_encode(f1) + (spec_bool_encode(f2) + (spec_bool_encode(f3) + rest));
            &&& spec_bool_decode(t) == Ok::<(bool, nat), DecodeError>((f1, 1))
            &&& spec_bool_decode(t.skip(1)) == Ok::<(bool, nat), DecodeError>((f2, 1))
            &&& spec_bool_decode(t.skip(1).skip(1)) == Ok::<(bool, nat), DecodeError>((f3, 1))
            &&& t.skip(1).skip(1).skip(1) == rest
        }),
{
    let t3 = spec_bool_encode(f3) + rest;
    let t2 = spec_bool_encode(f2) + t3;
    let t = spec_bool_encode(f1) + t2;
    lemma_bool_roundtrip(f1, t2);
    lemma_skip_prefix(spec_bool_encode(f1), t2);
    lemma_bool_roundtrip(f2, t3);
    lemma_skip_prefix(spec_bool_encode(f2), t3);
    lemma_bool_roundtrip(f3, rest);
    lemma_skip_prefix(spec_bool_encode(f3), rest);
}

#[verifier::rlimit(30)]
proof fn lemma_join_settings_roundtrip(p: GameJoinS2c, rest: Seq<u8>)
    ensures
        spec_join_settings_decode(join_settings_encode(p) + rest) == Ok::<
            ((i32, i32, i32, bool, bool, bool), Seq<u8>),
            DecodeError,
        >(
            (
                (
                    p.max_players.0,
                    p.view_distance.0,
                    p.simulation_distance.0,
                    p.reduced_debug_info,
                    p.enable_respawn_screen,
                    p.do_limited_crafting,
                ),
                rest,
            ),
        ),
{
    reveal(spec_join_settings_decode);
    let a = spec_varint_encode(p.max_players.0);
    let b = spec_varint_encode(p.view_distance.0);
    let c = spec_varint_encode(p.simulation_distance.0);
    let t3 = spec_bool_encode(p.reduced_debug_info) + (spec_bool_encode(p.enable_respawn_screen) + (
    spec_bool_encode(p.do_limited_crafting) + rest));
    let t2 = c + t3;
    let t1 = b + t2;
    let s = a + t1;
    assert(join_settings_encode(p) + rest =~= s);
    lemma_varint_roundtrip(p.max_players.0, t1);
    lemma_skip_prefix(a, t1);
    lemma_varint_roundtrip(p.view_distance.0, t2);
    lemma_skip_prefix(b, t2);
    lemma_varint_roundtrip(p.simulation_distance.0, t3);
    lemma_skip_prefix(c, t3);
    lemma_flags_roundtrip(p.reduced_debug_info, p.enable_respawn_screen, p.do_limited_crafting, rest);
}

proof fn lemma_join_tail_roundtrip(p: GameJoinS2c, rest: Seq<u8>)
    requires
        spawn_info_encodable(p.world_state@),
        p.world_state@.death_location matches Some(g) ==> position_packable(g.x, g.y, g.z),
    ensures
        spec_join_tail_decode(
            spec_spawn_info_encode(p.world_state@) + spec_bool_encode(p.online_mode) + spec_bool_encode(
                p.enforces_secure_chat,
            ) + rest,
        ) == Ok::<((SpawnInfoView, bool, bool), Seq<u8>), DecodeError>(
            ((p.world_state@, p.online_mode, p.enforces_secure_chat), rest),
        ),
{
    reveal(spec_join_tail_decode);
    let e = spec_spawn_info_encode(p.world_state@);
    let f = spec_bool_encode(p.online_mode);
    let g = spec_bool_encode(p.enforces_secure_chat);
    let t = f + g + rest;
    assert(e + f + g + rest =~= e + t);
    lemma_spawn_info_roundtrip(p.world_state@, t);
    assert((e + t).skip(e.len() as int) =~= t);
    lemma_bool_roundtrip(p.online_mode, g + rest);
    assert(t =~= f + (g + rest));
    assert(t.skip(1) =~= g + rest);
    lemma_bool_roundtrip(p.enforces_secure_chat, rest);
    assert(t.skip(1).skip(1) =~= rest);
}

proof fn lemma_join_head_roundtrip(p: GameJoinS2c, rest: Seq<u8>)
    requires
        p.world_names@.len() <= i32::MAX,
        strings_encodable(strings_view(p.world_names@)),
    ensures
        spec_join_head_decode(
            spec_i32_encode(p.entity_id) + (spec_bool_encode(p.is_hardcore) + (list_encode(
                strings_view(p.world_names@),
                string_enc(),
            ) + rest)),
        ) == Ok::<((i32, bool, Seq<Seq<char>>), Seq<u8>), DecodeError>(
            ((p.entity_id, p.is_hardcore, strings_view(p.world_names@)), rest),
        ),
{
    reveal(spec_join_head_decode);
    let a = spec_i32_encode(p.entity_id);
    let b = spec_bool_encode(p.is_hardcore);
    let names = strings_view(p.world_names@);
    let c = list_encode(names, string_enc());
    let t2 = c + rest;
    let t1 = b + t2;
    lemma_i32_roundtrip(p.entity_id, t1);
    lemma_skip_prefix(a, t1);
    lemma_bool_roundtrip(p.is_hardcore, t2);
    lemma_skip_prefix(b, t2);
    lemma_string_list_roundtrip(names, rest);
    lemma_skip_prefix(c, rest);
}

proof fn lemma_join_encode_shape(p: GameJoinS2c, rest: Seq<u8>)
    ensures
        spec_game_join_encode(p) + rest == spec_i32_encode(p.entity_id) + (spec_bool_encode(p.is_hardcore) + (
        list_encode(strings_view(p.world_names@), string_enc()) + (join_settings_encode(p) + (
        spec_spawn_info_encode(p.world_state@) + spec_bool_encode(p.online_mode) + spec_bool_encode(
            p.enforces_secure_chat,
        ) + rest)))),
{
    let a = spec_i32_encode(p.entity_id);
    let b = spec_bool_encode(p.is_hardcore);
    let c = list_encode(strings_view(p.world_names@), string_enc());
    let d = join_settings_encode(p);
    let e1 = spec_spawn_info_encode(p.world_state@);
    let f = spec_bool_encode(p.online_mode);
    let g = spec_bool_encode(p.enforces_secure_chat);
    let x = a + b + c + d;
    assert(spec_game_join_encode(p) == x + e1 + f + g);
    lemma_assoc(x + e1, f, g);
    lemma_assoc(x, e1, f + g);
    lemma_assoc(e1, f, g);
    let e = e1 + f + g;
    lemma_assoc(x, e, rest);
    let t = e + rest;
    lemma_assoc(a + b + c, d, t);
    lemma_assoc(a + b, c, d + t);
    lemma_assoc(a, b, c + (d + t));
}

proof fn lemma_assoc(x: Seq<u8>, y: Seq<u8>, z: Seq<u8>)
    ensures
        x + y + z == x + (y + z),
{
    assert(x + y + z =~= x + (y + z));
}

/// Decoding an encoded join packet gives it back, and leaves what followed
/// it, when it is encodable and its death location fits the packed form.
pub proof fn lemma_game_join_roundtrip(p: GameJoinS2c, rest: Seq<u8>)
    requires
        game_join_encodable(p),
        p.world_state@.death_location matches Some(g) ==> position_packable(g.x, g.y, g.z),
    ensures
        spec_game_join_decode(spec_game_join_encode(p) + rest) == Ok::<(GameJoinView, Seq<u8>), DecodeError>(
            (game_join_view(p), rest),
        ),
{
    let a = spec_i32_encode(p.entity_id);
    let b = spec_bool_encode(p.is_hardcore);
    let c = list_encode(strings_view(p.world_names@), string_enc());
    let d = join_settings_encode(p);
    let e = spec_spawn_info_encode(p.world_state@) + spec_bool_encode(p.online_mode) + spec_bool_encode(
        p.enforces_secure_chat,
    );
    let tail_rest = e + rest;
    let head_rest = d + tail_rest;
    lemma_join_encode_shape(p, rest);
    lemma_join_head_roundtrip(p, head_rest);
    lemma_join_settings_roundtrip(p, tail_rest);
    lemma_join_tail_roundtrip(p, rest);
}

/// The server's world border; sent with an empty body.
#[derive(Clone, Copy, Debug, Default)]
pub struct WorldBorderInitializeS2c;

impl WorldBorderInitializeS2c {
    /// The packet id.
    pub const ID: i32 = 43;

    /// The packet's name.
    pub fn name() -> (s: &'static str)
        ensures
            s@ == "WorldBorderInitializeS2c_STUB"@,
    {
        "WorldBorderInitializeS2c_STUB"
    }

    /// The packet goes to the client.
    pub fn side() -> (s: PacketSide)
        ensures
            s == PacketSide::Clientbound,
    {
        PacketSide::Clientbound
    }

    /// The packet belongs to the play phase.
    pub fn state() -> (s: PacketState)
        ensures
            s == PacketState::Play,
    {
        PacketState::Play
    }

    /// Nothing is written.
    pub fn encode(&self, w: &mut Vec<u8>) -> (res: Result<(), EncodeError>)
        ensures
            res is Ok,
            final(w)@ == old(w)@,
    {
        Ok(())
    }
}

/// The encoding of a bit mask: its words as a counted list, each word in
/// eight big-endian bytes.
pub open spec fn mask_encode(m: Seq<u64>) -> Seq<u8> {
    list_encode(m, |x: u64| spec_i64_encode(x as i64))
}

/// Appends a bit mask (see [`mask_encode`]); refuses one with more words
/// than a VarInt count holds.
pub fn write_mask(m: &[u64], w: &mut Vec<u8>) -> (res: Result<(), EncodeError>)
    ensures
        res is Ok <==> m@.len() <= i32::MAX,
        res is Ok ==> final(w)@ == old(w)@ + mask_encode(m@),
        res is Err ==> final(w)@ == old(w)@,
{
    if m.len() > i32::MAX as usize {
        return Err(EncodeError::TooManyElements);
    }
    write_varint(m.len() as i32, w);
    let ghost w1 = w@;
    let mut i: usize = 0;
    while i < m.len()
        invariant
            i <= m@.len(),
            w@ == w1 + items_encode(m@.take(i as int), |x: u64| spec_i64_encode(x as i64)),
        decreases m@.len() - i,
    {
        write_i64(m[i] as i64, w);
        proof {
            assert(m@.take(i + 1).drop_last() =~= m@.take(i as int));
        }
        i = i + 1;
    }
    proof {
        assert(m@.take(m@.len() as int) =~= m@);
    }
    Ok(())
}

/// A chunk column: its position, block data, light masks and light data.
#[derive(Clone, Debug)]
pub struct ChunkDataS2c<'a> {
    pub x: i32,
    pub z: i32,
    pub chunk_data: ChunkDataWrapper<'a>,
    pub sky_light_mask: Vec<u64>,
    pub block_light_mask: Vec<u64>,
    pub empty_sky_light_mask: Vec<u64>,
    pub empty_block_light_mask: Vec<u64>,
    pub sky_light_arrays: RawBytes<'a>,
    pub block_light_arrays: RawBytes<'a>,
}

/// The encoding of a chunk packet: its fields in declaration order, the
/// block data and light data as they are.
pub open spec fn spec_chunk_data_encode(p: ChunkDataS2c) -> Seq<u8> {
    spec_i32_encode(p.x) + spec_i32_encode(p.z) + p.chunk_data.0@ + mask_encode(p.sky_light_mask@) + mask_encode(
        p.block_light_mask@,
    ) + mask_encode(p.empty_sky_light_mask@) + mask_encode(p.empty_block_light_mask@) + p.sky_light_arrays.0@
        + p.block_light_arrays.0@
}

/// Whether a chunk packet can be encoded: each mask has at most
/// `i32::MAX` words.
pub open spec fn chunk_data_encodable(p: ChunkDataS2c) -> bool {
    &&& p.sky_light_mask@.len() <= i32::MAX
    &&& p.block_light_mask@.len() <= i32::MAX
    &&& p.empty_sky_light_mask@.len() <= i32::MAX
    &&& p.empty_block_light_mask@.len() <= i32::MAX
}

impl<'a> ChunkDataS2c<'a> {
    /// The packet belongs to the play phase.
    pub fn state() -> (s: PacketState)
        ensures
            s == PacketState::Play,
    {
        PacketState::Play
    }

    /// Appends the fields in declaration order.
    pub fn encode(&self, w: &mut Vec<u8>) -> (res: Result<(), EncodeError>)
        ensures
            res is Ok <==> chunk_data_encodable(*self),
            res is Ok ==> final(w)@ == old(w)@ + spec_chunk_data_encode(*self),
    {
        let ghost w0 = w@;
        write_i32(self.x, w);
        write_i32(self.z, w);
        let _ = self.chunk_data.encode(w);
        write_mask(self.sky_light_mask.as_slice(), w)?;
        write_mask(self.block_light_mask.as_slice(), w)?;
        write_mask(self.empty_sky_light_mask.as_slice(), w)?;
        write_mask(self.empty_block_light_mask.as_slice(), w)?;
        let _ = self.sky_light_arrays.encode(w);
        let _ = self.block_light_arrays.encode(w);
        proof {
            assert(w@ =~= w0 + spec_chunk_data_encode(*self));
        }
        Ok(())
    }
}

} // verus!
