use hmac::{Hmac, Mac};
use mili_rust::codec::DecodeError;
use mili_rust::connection::{
    brand_payload, classify_configuration_packet, core_pack_known, handshake_address_ok, offered_core_pack,
    server_brand_payload, ConfigurationPacket,
    favicon_data_uri,
};
use mili_rust::forwarding::{
    bungeecord_fields, bungeecord_uuid, velocity_reply_head, velocity_reply_tail, write_velocity_query, VelocityError,
};
use mili_rust::packets::configuration::KnownPack;
use sha2::Sha256;

fn pack(ns: &str, id: &str, version: &str) -> KnownPack {
    KnownPack { namespace: ns.to_owned(), id: id.to_owned(), version: version.to_owned() }
}

#[test]
fn configuration_packets() {
    assert_eq!(classify_configuration_packet(0), ConfigurationPacket::ClientInformation);
    assert_eq!(classify_configuration_packet(2), ConfigurationPacket::PluginMessage);
    assert_eq!(classify_configuration_packet(7), ConfigurationPacket::Unexpected(7));
}

#[test]
fn core_pack_detection() {
    let offered = offered_core_pack();
    assert_eq!((offered.namespace.as_str(), offered.id.as_str(), offered.version.as_str()), ("minecraft", "core", "26.2"));
    assert!(core_pack_known(&vec![pack("foo", "bar", "1"), pack("minecraft", "core", "26.2")]));
    assert!(!core_pack_known(&vec![pack("minecraft", "core", "1.21")]));
    assert!(!core_pack_known(&vec![]));
}

#[test]
fn brand_message() {
    let mut expected = vec![9u8];
    expected.extend_from_slice(b"Mili-rust");
    assert_eq!(server_brand_payload(), expected);
    assert_eq!(brand_payload(""), vec![0]);
}

#[test]
fn handshake_address_length() {
    assert!(handshake_address_ok(false, &"a".repeat(255)));
    assert!(!handshake_address_ok(false, &"a".repeat(256)));
    assert!(handshake_address_ok(true, &"a".repeat(1000)));
    // Characters outside the basic plane take two UTF-16 units.
    assert!(handshake_address_ok(false, &"\u{1F600}".repeat(127)));
    assert!(!handshake_address_ok(false, &"\u{1F600}".repeat(128)));
}

fn string(s: &str) -> Vec<u8> {
    let mut v = vec![s.len() as u8];
    v.extend_from_slice(s.as_bytes());
    v
}

fn forwarded_payload(username: &str) -> Vec<u8> {
    let mut p = vec![1u8];
    p.extend(string("127.0.0.1"));
    p.extend((1u8..=16).collect::<Vec<u8>>());
    p.extend(string(username));
    p.push(1);
    p.extend(string("textures"));
    p.extend(string("abc"));
    p.push(1);
    p.extend(string("sig"));
    p
}

fn sign(secret: &str, payload: &[u8]) -> Vec<u8> {
    let mut mac = Hmac::<Sha256>::new_from_slice(secret.as_bytes()).unwrap();
    mac.update(payload);
    let mut data = mac.finalize().into_bytes().to_vec();
    data.extend_from_slice(payload);
    data
}

#[test]
fn velocity_reply_is_checked_and_decoded() {
    let data = sign("secret", &forwarded_payload("Steve"));
    let (version, address, rest) = velocity_reply_head(0, Some(&data), "secret").unwrap();
    assert_eq!(version, 1);
    assert_eq!(address, "127.0.0.1");
    let (uuid, props) = velocity_reply_tail(&rest, "Steve").unwrap();
    assert_eq!(uuid, u128::from_be_bytes((1u8..=16).collect::<Vec<u8>>().try_into().unwrap()));
    assert_eq!(props.len(), 1);
    assert_eq!(props[0].name, "textures");
    assert_eq!(props[0].value, "abc");
    assert_eq!(props[0].signature.as_deref(), Some("sig"));
}

#[test]
fn velocity_reply_errors() {
    let data = sign("secret", &forwarded_payload("Steve"));
    assert_eq!(velocity_reply_head(1, Some(&data), "secret").unwrap_err(), VelocityError::MismatchedMessageId);
    assert_eq!(velocity_reply_head(0, None, "secret").unwrap_err(), VelocityError::MissingData);
    assert_eq!(velocity_reply_head(0, Some(&data[..31]), "secret").unwrap_err(), VelocityError::TooShort);
    assert_eq!(velocity_reply_head(0, Some(&data), "other").unwrap_err(), VelocityError::BadSignature);
    let mut tampered = data.clone();
    let last = tampered.len() - 1;
    tampered[last] ^= 1;
    assert_eq!(velocity_reply_head(0, Some(&tampered), "secret").unwrap_err(), VelocityError::BadSignature);
    let (_, _, rest) = velocity_reply_head(0, Some(&data), "secret").unwrap();
    assert_eq!(velocity_reply_tail(&rest, "Alex").unwrap_err(), VelocityError::UsernameMismatch);
    assert_eq!(velocity_reply_tail(&rest[..10], "Steve").unwrap_err(), VelocityError::Decode(DecodeError::UnexpectedEof));
    let short = sign("secret", &[1u8]);
    assert_eq!(
        velocity_reply_head(0, Some(&short), "secret").unwrap_err(),
        VelocityError::Decode(DecodeError::UnexpectedEof)
    );
}

#[test]
fn velocity_query_body() {
    let mut w = Vec::new();
    write_velocity_query(&mut w);
    let mut expected = vec![0u8];
    expected.extend(string("velocity:player_info"));
    expected.push(1);
    assert_eq!(w, expected);
}

#[test]
fn bungeecord_forwarded_fields() {
    let fields = bungeecord_fields(b"host\x00127.0.0.1\x00550e8400-e29b-41d4-a716-446655440000\x00[]\x00extra");
    assert_eq!(fields.len(), 4);
    assert_eq!(fields[0], b"host".to_vec());
    assert_eq!(fields[1], b"127.0.0.1".to_vec());
    assert_eq!(fields[3], b"[]".to_vec());
    assert_eq!(
        bungeecord_uuid(Some(&fields[2]), "Steve"),
        Some(0x550e8400_e29b_41d4_a716_446655440000)
    );
    assert_eq!(bungeecord_uuid(Some(b"550e8400e29b41d4a716446655440000"), "Steve"), Some(0x550e8400_e29b_41d4_a716_446655440000));
    assert_eq!(bungeecord_uuid(Some(b"not-a-uuid"), "Steve"), None);
    assert_eq!(bungeecord_uuid(None, "Steve"), Some(mili_rust::auth::offline_uuid("Steve")));
    assert_eq!(bungeecord_fields(b"host"), vec![b"host".to_vec()]);
    assert_eq!(bungeecord_fields(b""), vec![Vec::<u8>::new()]);
    assert_eq!(bungeecord_fields(b"a\x00"), vec![b"a".to_vec(), Vec::new()]);
}

#[test]
fn favicon_as_data_uri() {
    assert_eq!(favicon_data_uri(&[]), None);
    assert_eq!(favicon_data_uri(b"\x89PNG"), Some("data:image/png;base64,iVBORw==".to_string()));
    assert_eq!(favicon_data_uri(b"Man"), Some("data:image/png;base64,TWFu".to_string()));
    assert_eq!(favicon_data_uri(b"Ma"), Some("data:image/png;base64,TWE=".to_string()));
}
