use mili_rust::codec::{DecodeError, VarInt};
use mili_rust::packets::configuration::{
    read_pack_list, write_pack_list, ConfigFinishConfigurationS2c, ConfigSelectKnownPacksC2s, KnownPack,
    LoginAcknowledgedC2s,
};
use mili_rust::packets::play::{PlayerRespawnS2c, WorldBorderInitializeS2c};
use mili_rust::raw::{Bounded, BoundedRawBytes, RawBytes};
use mili_rust::spawn::{initial_join_packet, respawn_packet, world_state};
use mili_rust::spawn_info::{pack_position, unpack_position, GlobalPos, SpawnInfo};
use mili_rust::world::BlockPos;

#[test]
fn varint_bytes() {
    let cases: [(i32, &[u8]); 6] = [
        (0, &[0]),
        (1, &[1]),
        (127, &[0x7f]),
        (128, &[0x80, 0x01]),
        (2097151, &[0xff, 0xff, 0x7f]),
        (-1, &[0xff, 0xff, 0xff, 0xff, 0x0f]),
    ];
    for (v, bytes) in cases {
        let mut w = Vec::new();
        VarInt(v).encode(&mut w).unwrap();
        assert_eq!(w, bytes, "encode {v}");
        assert_eq!(VarInt(v).written_size(), bytes.len());
        let mut r: &[u8] = bytes;
        assert_eq!(VarInt::decode(&mut r).unwrap().0, v);
        assert!(r.is_empty());
    }
    let mut r: &[u8] = &[0x80, 0x80];
    assert_eq!(VarInt::decode(&mut r).unwrap_err(), DecodeError::UnexpectedEof);
    let mut r: &[u8] = &[0xff, 0xff, 0xff, 0xff, 0xff, 0x01];
    assert_eq!(VarInt::decode(&mut r).unwrap_err(), DecodeError::VarIntTooLarge);
}

#[test]
fn positions_pack_and_unpack() {
    assert_eq!(pack_position(0, 0, 0), 0);
    assert_eq!(pack_position(1, 2, 3), (1i64 << 38) | (3 << 12) | 2);
    for (x, y, z) in [(1, 2, 3), (-1, -1, -1), (33554431, 2047, -33554432), (-33554432, -2048, 100)] {
        assert_eq!(unpack_position(pack_position(x, y, z)), (x, y, z));
    }
}

#[test]
fn spawn_info_round_trip() {
    let info = SpawnInfo {
        dimension: VarInt(0),
        name: "minecraft:overworld".to_owned(),
        hashed_seed: 42,
        gamemode: 0,
        previous_gamemode: -1,
        is_debug: false,
        is_flat: true,
        death_location: Some(GlobalPos { dimension_name: "minecraft:the_end".to_owned(), x: 5, y: -3, z: 9 }),
        portal_cooldown: VarInt(0),
        sea_level: VarInt(64),
    };
    let mut w = Vec::new();
    info.encode(&mut w).unwrap();
    assert_eq!(w.len(), info.encoded_len());
    let mut r: &[u8] = &w;
    let back = SpawnInfo::decode(&mut r).unwrap();
    assert!(r.is_empty());
    assert_eq!(back.name, info.name);
    assert_eq!(back.hashed_seed, 42);
    assert_eq!(back.previous_gamemode, -1);
    assert!(back.is_flat);
    let d = back.death_location.unwrap();
    assert_eq!((d.dimension_name.as_str(), d.x, d.y, d.z), ("minecraft:the_end", 5, -3, 9));
    assert_eq!(back.sea_level.0, 64);
    let packet = PlayerRespawnS2c { world_state: info, copy_metadata: 1 };
    let mut w2 = Vec::new();
    packet.encode(&mut w2).unwrap();
    let mut r2: &[u8] = &w2;
    let p2 = PlayerRespawnS2c::decode(&mut r2).unwrap();
    assert_eq!(p2.copy_metadata, 1);
    assert_eq!(p2.world_state.name, "minecraft:overworld");
}

#[test]
fn known_packs_round_trip() {
    let packs = vec![
        KnownPack { namespace: "minecraft".to_owned(), id: "core".to_owned(), version: "26.2".to_owned() },
        KnownPack { namespace: "x".to_owned(), id: "".to_owned(), version: "1".to_owned() },
    ];
    let mut w = Vec::new();
    write_pack_list(&packs, &mut w).unwrap();
    assert_eq!(&w[..11], &[2, 9, b'm', b'i', b'n', b'e', b'c', b'r', b'a', b'f', b't']);
    let mut r: &[u8] = &w;
    let back = read_pack_list(&mut r).unwrap();
    assert_eq!(back.len(), 2);
    assert_eq!(back[1].namespace, "x");
    assert_eq!(back[1].id, "");
    let mut neg: &[u8] = &[0xff, 0xff, 0xff, 0xff, 0x0f];
    assert_eq!(read_pack_list(&mut neg).unwrap_err(), DecodeError::NegativeLength);
    let msg = ConfigSelectKnownPacksC2s { packs };
    let mut w2 = Vec::new();
    msg.encode(&mut w2).unwrap();
    assert_eq!(w2, w);
}

#[test]
fn empty_packets() {
    let mut w = Vec::new();
    LoginAcknowledgedC2s.encode(&mut w).unwrap();
    ConfigFinishConfigurationS2c.encode(&mut w).unwrap();
    assert!(w.is_empty());
    assert_eq!(LoginAcknowledgedC2s::ID, 3);
    assert_eq!(WorldBorderInitializeS2c::ID, 43);
}

#[test]
fn raw_bytes() {
    let mut w = Vec::new();
    RawBytes(&[1, 2, 3]).encode(&mut w).unwrap();
    assert_eq!(w, vec![1, 2, 3]);
    let mut r: &[u8] = &[4, 5];
    assert_eq!(RawBytes::decode(&mut r).unwrap().0, &[4, 5]);
    assert!(r.is_empty());
    let mut w = Vec::new();
    BoundedRawBytes(&[9, 8]).encode(&mut w).unwrap();
    assert_eq!(w, vec![2, 9, 8]);
    let mut r: &[u8] = &w;
    assert_eq!(BoundedRawBytes::decode(&mut r).unwrap().0, &[9, 8]);
    let mut short: &[u8] = &[3, 1];
    assert_eq!(BoundedRawBytes::decode(&mut short).unwrap_err(), DecodeError::NotEnoughData);
}

#[test]
fn join_and_respawn_packets() {
    let death = Some(("minecraft:the_nether".to_owned(), BlockPos::new(1, 2, 3)));
    let p = initial_join_packet(Some(2), "minecraft:overworld", death, false, 8);
    assert_eq!(p.entity_id, 1);
    assert_eq!(p.world_names, vec!["minecraft:overworld".to_owned()]);
    assert_eq!(p.max_players.0, 20);
    assert_eq!(p.view_distance.0, 8);
    assert_eq!(p.simulation_distance.0, 10);
    assert!(p.enable_respawn_screen && p.online_mode);
    assert_eq!(p.world_state.dimension.0, 2);
    assert_eq!(p.world_state.sea_level.0, 64);
    assert_eq!(p.world_state.previous_gamemode, -1);
    let d = p.world_state.death_location.as_ref().unwrap();
    assert_eq!((d.dimension_name.as_str(), d.x, d.y, d.z), ("minecraft:the_nether", 1, 2, 3));
    let mut w = Vec::new();
    p.encode(&mut w).unwrap();
    assert!(!w.is_empty());
    let r = respawn_packet(None, "minecraft:the_end");
    assert_eq!(r.world_state.dimension.0, 0);
    assert!(r.world_state.death_location.is_none());
    assert_eq!(r.copy_metadata, 1);
    assert_eq!(world_state(Some(5), "x", None).dimension.0, 5);
}

#[test]
fn bounded_raw_bytes() {
    let mut w = Vec::new();
    assert!(Bounded::<RawBytes, 4>(RawBytes(&[1, 2, 3])).encode(&mut w).is_ok());
    assert_eq!(w, vec![1, 2, 3]);
    assert!(Bounded::<RawBytes, 2>(RawBytes(&[1, 2, 3])).encode(&mut w).is_err());
    assert_eq!(w, vec![1, 2, 3]);
    let data = [9u8, 8, 7];
    let mut r: &[u8] = &data;
    let d = Bounded::<RawBytes, 3>::decode(&mut r).unwrap();
    assert_eq!(d.0 .0, &[9, 8, 7]);
    assert!(r.is_empty());
    let mut r: &[u8] = &data;
    assert!(Bounded::<RawBytes, 2>::decode(&mut r).is_err());
    assert_eq!(r.len(), 3);
}
