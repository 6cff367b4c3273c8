//! Player information forwarded by a Velocity proxy: the signed reply to the
//! server's login query, checked and decoded.
use vstd::prelude::*;
use vstd::string::StringSliceAdditionalSpecFns;
use hmac::{Hmac, Mac};
use sha2::Sha256;
use crate::auth::{digits_value, offline_uuid, sha256};
use crate::codec::{DecodeError, VarInt, spec_varint_decode, lemma_varint_groups_len, read_bool, spec_bool_decode, take_bytes, write_varint, spec_varint_encode};
use crate::packets::configuration::{items_decode, list_decode, string_decode, lemma_items_decode_err, string_encode};
use crate::spawn_info::{read_string, write_string, lemma_str_decode_len, str_bytes};
use crate::codec::str_encodable;

verus! {

/// The message id of the server's player-info query.
pub const VELOCITY_MESSAGE_ID: i32 = 0;

/// The oldest forwarding version the server asks for.
pub const VELOCITY_MIN_SUPPORTED_VERSION: u8 = 1;

/// A property of a player's game profile.
#[derive(Clone, Debug)]
pub struct Property {
    pub name: String,
    pub value: String,
    pub signature: Option<String>,
}

pub type PropertyView = (Seq<char>, Seq<char>, Option<Seq<char>>);

impl View for Property {
    type V = (Seq<char>, Seq<char>, Option<Seq<char>>);

    open spec fn view(&self) -> (Seq<char>, Seq<char>, Option<Seq<char>>) {
        (
            self.name@,
            self.value@,
            match self.signature {
                Some(s) => Some(s@),
                None => None,
            },
        )
    }
}

/// Decoding a property: name, value, then a flag and, where it is set, the
/// signature.
pub open spec fn property_decode(s: Seq<u8>) -> Result<(PropertyView, nat), DecodeError> {
    match string_decode(s) {
        Err(e) => Err(e),
        Ok((name, n1)) => match string_decode(s.skip(n1 as int)) {
            Err(e) => Err(e),
            Ok((value, n2)) => match spec_bool_decode(s.skip((n1 + n2) as int)) {
                Err(e) => Err(e),
                Ok((has_sig, n3)) => if has_sig {
                    match string_decode(s.skip((n1 + n2 + n3) as int)) {
                        Err(e) => Err(e),
                        Ok((sig, n4)) => Ok(((name, value, Some(sig)), n1 + n2 + n3 + n4)),
                    }
                } else {
                    Ok(((name, value, None), n1 + n2 + n3))
                },
            },
        },
    }
}

/// The property decoder, as a function.
pub open spec fn property_dec() -> spec_fn(Seq<u8>) -> Result<(PropertyView, nat), DecodeError> {
    |s: Seq<u8>| property_decode(s)
}

pub open spec fn properties_view(v: Seq<Property>) -> Seq<PropertyView> {
    v.map_values(|p: Property| p@)
}

proof fn lemma_property_decode_len(s: Seq<u8>)
    ensures
        property_decode(s) matches Ok((p, n)) ==> n <= s.len(),
{
    lemma_str_decode_len(s);
    if let Ok((a, n1)) = string_decode(s) {
        lemma_str_decode_len(s.skip(n1 as int));
        if let Ok((b, n2)) = string_decode(s.skip(n1 as int)) {
            if let Ok((f, n3)) = spec_bool_decode(s.skip((n1 + n2) as int)) {
                lemma_str_decode_len(s.skip((n1 + n2 + n3) as int));
            }
        }
    }
}

impl Property {
    /// Decodes a property from the front of `r` (see [`property_decode`]).
    pub fn decode(r: &mut &[u8]) -> (res: Result<Property, DecodeError>)
        ensures
            match property_decode(old(r)@) {
                Ok((p, n)) => res is Ok && res->Ok_0@ == p && final(r)@ == old(r)@.skip(n as int),
                Err(e) => res == Err::<Property, DecodeError>(e),
            },
    {
        let ghost s = r@;
        proof {
            lemma_str_decode_len(s);
        }
        let name = read_string(r)?;
        let ghost n1 = (s.len() - r@.len()) as nat;
        proof {
            assert(r@ =~= s.skip(n1 as int));
            lemma_str_decode_len(r@);
        }
        let value = read_string(r)?;
        let ghost n2 = (s.len() - r@.len() - n1) as nat;
        proof {
            assert(r@ =~= s.skip((n1 + n2) as int));
        }
        let has_sig = read_bool(r)?;
        let ghost n3 = (s.len() - r@.len() - n1 - n2) as nat;
        proof {
            assert(r@ =~= s.skip((n1 + n2 + n3) as int));
            lemma_str_decode_len(r@);
        }
        let signature = if has_sig {
            Some(read_string(r)?)
        } else {
            None
        };
        proof {
            assert(r@ =~= s.skip((s.len() - r@.len()) as int));
        }
        Ok(Property { name, value, signature })
    }
}

/// Decodes a counted list of properties (see [`list_decode`]).
#[verifier::rlimit(60)]
pub fn read_property_list(r: &mut &[u8]) -> (res: Result<Vec<Property>, DecodeError>)
    ensures
        match list_decode(old(r)@, property_dec()) {
            Ok((xs, n)) => res is Ok && properties_view(res->Ok_0@) == xs && final(r)@ == old(
                r,
            )@.skip(n as int),
            Err(e) => res == Err::<Vec<Property>, DecodeError>(e),
        },
{
    let ghost s = r@;
    let ghost dec = property_dec();
    proof {
        lemma_varint_groups_len(s, 5);
    }
    let count = VarInt::decode(r)?.0;
    let ghost k = (s.len() - r@.len()) as nat;
    if count < 0 {
        return Err(DecodeError::NegativeLength);
    }
    let ghost body = r@;
    proof {
        assert(body =~= s.skip(k as int));
        assert(spec_varint_decode(s) == Ok::<(i32, nat), DecodeError>((count, k)));
    }
    let mut out: Vec<Property> = Vec::new();
    let mut i: i32 = 0;
    proof {
        assert(properties_view(out@) =~= Seq::<PropertyView>::empty());
        assert(body.skip(0) =~= body);
    }
    while i < count
        invariant
            0 <= i <= count,
            dec == property_dec(),
            s == old(r)@,
            spec_varint_decode(s) == Ok::<(i32, nat), DecodeError>((count, k)),
            body == s.skip(k as int),
            r@.len() <= body.len(),
            r@ == body.skip(body.len() - r@.len()),
            items_decode(body, i as nat, dec) == Ok::<(Seq<PropertyView>, nat), DecodeError>(
                (properties_view(out@), (body.len() - r@.len()) as nat),
            ),
        decreases count - i,
    {
        let ghost n = (body.len() - r@.len()) as nat;
        let ghost out0 = out@;
        let ghost r0 = r@;
        proof {
            lemma_property_decode_len(r0);
            assert(dec(body.skip(n as int)) == property_decode(r0));
        }
        let item = match Property::decode(r) {
            Ok(x) => x,
            Err(e) => {
                proof {
                    assert(items_decode(body, (i + 1) as nat, dec) == Err::<
                        (Seq<PropertyView>, nat),
                        DecodeError,
                    >(e));
                    lemma_items_decode_err(body, (i + 1) as nat, count as nat, dec);
                }
                return Err(e);
            },
        };
        let ghost iv = item@;
        let ghost m = (r0.len() - r@.len()) as nat;
        proof {
            assert(property_decode(r0) == Ok::<(PropertyView, nat), DecodeError>((iv, m)));
            assert(r@ =~= body.skip((n + m) as int));
            assert(items_decode(body, (i + 1) as nat, dec) == Ok::<
                (Seq<PropertyView>, nat),
                DecodeError,
            >((properties_view(out0).push(iv), n + m)));
        }
        out.push(item);
        i = i + 1;
        proof {
            assert(properties_view(out@) =~= properties_view(out0).push(iv));
        }
    }
    proof {
        assert(r@ =~= s.skip((k + (body.len() - r@.len())) as int));
    }
    Ok(out)
}

/// The HMAC-SHA-256 tag of `msg` under `key`.
pub uninterp spec fn hmac_sha256(key: Seq<u8>, msg: Seq<u8>) -> Seq<u8>;

/// Checks `tag` against `msg` with `Hmac::<Sha256>::new_from_slice(key)`,
/// `Mac::update` and `Mac::verify_slice`: true exactly when `tag` is the
/// HMAC-SHA-256 tag of `msg` under `key` (a tag of the wrong length never is).
#[verifier::external_body]
fn hmac_sha256_verify(key: &[u8], msg: &[u8], tag: &[u8]) -> (ok: bool)
    ensures
        ok == (hmac_sha256(key@, msg@) == tag@),
{
    let mut mac = match <Hmac<Sha256> as Mac>::new_from_slice(key) {
        Ok(m) => m,
        Err(_) => return false,
    };
    Mac::update(&mut mac, msg);
    mac.verify_slice(tag).is_ok()
}

/// Why a Velocity reply was refused.
#[derive(Clone, Copy, Debug, PartialEq, Eq, Structural)]
pub enum VelocityError {
    /// The reply answers another query.
    MismatchedMessageId,
    /// The reply carries no data.
    MissingData,
    /// The data is shorter than its 32-byte signature.
    TooShort,
    /// The signature does not match the forwarding secret.
    BadSignature,
    /// The forwarded username differs from the one the client gave.
    UsernameMismatch,
    /// A forwarded field did not decode.
    Decode(DecodeError),
}

/// The forwarded fields before the player's address is read: the
/// forwarding version, the address as text, and the bytes after it.
pub open spec fn spec_velocity_head(
    message_id: i32,
    data: Option<Seq<u8>>,
    secret: Seq<u8>,
) -> Result<(i32, Seq<char>, Seq<u8>), VelocityError> {
    if message_id != VELOCITY_MESSAGE_ID {
        Err(VelocityError::MismatchedMessageId)
    } else {
        match data {
            None => Err(VelocityError::MissingData),
            Some(d) => if d.len() < 32 {
                Err(VelocityError::TooShort)
            } else if hmac_sha256(secret, d.skip(32)) != d.take(32) {
                Err(VelocityError::BadSignature)
            } else {
                let payload = d.skip(32);
                match spec_varint_decode(payload) {
                    Err(e) => Err(VelocityError::Decode(e)),
                    Ok((version, n1)) => match string_decode(payload.skip(n1 as int)) {
                        Err(e) => Err(VelocityError::Decode(e)),
                        Ok((address, n2)) => Ok(
                            (version, address, payload.skip(n1 as int).skip(n2 as int)),
                        ),
                    },
                }
            },
        }
    }
}

/// The forwarded fields after the address: the UUID (16 bytes, big-endian),
/// the username, which must be the client's, and the profile properties.
pub open spec fn spec_velocity_tail(rest: Seq<u8>, username: Seq<char>) -> Result<
    (u128, Seq<PropertyView>),
    VelocityError,
> {
    if rest.len() < 16 {
        Err(VelocityError::Decode(DecodeError::UnexpectedEof))
    } else {
        let uuid = digits_value(rest.take(16), 256) as u128;
        let s3 = rest.skip(16);
        match string_decode(s3) {
            Err(e) => Err(VelocityError::Decode(e)),
            Ok((name, n4)) => if name != username {
                Err(VelocityError::UsernameMismatch)
            } else {
                match list_decode(s3.skip(n4 as int), property_dec()) {
                    Err(e) => Err(VelocityError::Decode(e)),
                    Ok((properties, _)) => Ok((uuid, properties)),
                }
            },
        }
    }
}

pub open spec fn bytes_opt(data: Option<&[u8]>) -> Option<Seq<u8>> {
    match data {
        Some(d) => Some(d@),
        None => None,
    }
}

fn read_u128_be(r: &mut &[u8]) -> (res: Result<u128, DecodeError>)
    ensures
        old(r)@.len() < 16 ==> res == Err::<u128, DecodeError>(DecodeError::UnexpectedEof),
        old(r)@.len() >= 16 ==> res == Ok::<u128, DecodeError>(
            digits_value(old(r)@.take(16), 256) as u128,
        ) && final(r)@ == old(r)@.skip(16),
{
    let bytes = take_bytes(r, 16)?;
    let u = crate::auth::uuid_from_digest(bytes);
    proof {
        assert(bytes@.take(16) =~= bytes@);
    }
    Ok(u)
}

/// Checks the proxy's reply to the player-info query and reads the
/// forwarding version and the player's address (see [`spec_velocity_head`]);
/// returns them with the bytes that follow. The address is read as an IP
/// address by the caller before the rest is decoded.
pub fn velocity_reply_head(
    message_id: i32,
    data: Option<&[u8]>,
    secret: &str,
) -> (res: Result<(i32, String, Vec<u8>), VelocityError>)
    ensures
        match spec_velocity_head(message_id, bytes_opt(data), secret.spec_bytes()) {
            Ok((v, a, rest)) => res is Ok && res->Ok_0.0 == v && res->Ok_0.1@ == a
                && res->Ok_0.2@ == rest,
            Err(e) => res == Err::<(i32, String, Vec<u8>), VelocityError>(e),
        },
{
    if message_id != VELOCITY_MESSAGE_ID {
        return Err(VelocityError::MismatchedMessageId);
    }
    let d = match data {
        Some(d) => d,
        None => return Err(VelocityError::MissingData),
    };
    if d.len() < 32 {
        return Err(VelocityError::TooShort);
    }
    let (signature, payload) = d.split_at(32);
    assert(signature@ =~= d@.take(32));
    assert(payload@ =~= d@.skip(32));
    if !hmac_sha256_verify(secret.as_bytes(), payload, signature) {
        return Err(VelocityError::BadSignature);
    }
    let ghost p = payload@;
    let mut r: &[u8] = payload;
    proof {
        lemma_varint_groups_len(p, 5);
    }
    let version = match VarInt::decode(&mut r) {
        Ok(v) => v.0,
        Err(e) => return Err(VelocityError::Decode(e)),
    };
    let ghost s1 = r@;
    proof {
        lemma_str_decode_len(s1);
    }
    let address = match read_string(&mut r) {
        Ok(t) => t,
        Err(e) => return Err(VelocityError::Decode(e)),
    };
    let mut rest: Vec<u8> = Vec::new();
    crate::codec::write_bytes(r, &mut rest);
    assert(rest@ =~= r@);
    proof {
        assert(s1 =~= p.skip((p.len() - s1.len()) as int));
        assert(r@ =~= s1.skip((s1.len() - r@.len()) as int));
    }
    Ok((version, address, rest))
}

/// Decodes the forwarded fields that follow the player's address (see
/// [`spec_velocity_tail`]): the UUID and the profile properties.
pub fn velocity_reply_tail(rest: &[u8], username: &str) -> (res: Result<
    (u128, Vec<Property>),
    VelocityError,
>)
    ensures
        match spec_velocity_tail(rest@, username@) {
            Ok((u, ps)) => res is Ok && res->Ok_0.0 == u && properties_view(res->Ok_0.1@) == ps,
            Err(e) => res == Err::<(u128, Vec<Property>), VelocityError>(e),
        },
{
    let mut r: &[u8] = rest;
    let uuid = match read_u128_be(&mut r) {
        Ok(u) => u,
        Err(e) => return Err(VelocityError::Decode(e)),
    };
    let ghost s3 = r@;
    proof {
        lemma_str_decode_len(s3);
    }
    let name = match read_string(&mut r) {
        Ok(t) => t,
        Err(e) => return Err(VelocityError::Decode(e)),
    };
    let given = username.to_owned();
    if name != given {
        return Err(VelocityError::UsernameMismatch);
    }
    let properties = match read_property_list(&mut r) {
        Ok(ps) => ps,
        Err(e) => return Err(VelocityError::Decode(e)),
    };
    Ok((uuid, properties))
}

/// The body of the player-info query: its message id, the channel
/// `velocity:player_info`, and the oldest forwarding version supported.
pub open spec fn spec_velocity_query() -> Seq<u8> {
    spec_varint_encode(VELOCITY_MESSAGE_ID) + string_encode("velocity:player_info"@) + seq![
        VELOCITY_MIN_SUPPORTED_VERSION,
    ]
}

proof fn lemma_ascii_utf16_units(b: Seq<u8>)
    requires
        forall|i: int| 0 <= i < b.len() ==> b[i] < 0x80,
    ensures
        crate::codec::utf16_units(b) == b.len(),
    decreases b.len(),
{
    if b.len() > 0 {
        lemma_ascii_utf16_units(b.drop_last());
    }
}

/// Appends the body of the player-info query sent to a Velocity proxy.
pub fn write_velocity_query(w: &mut Vec<u8>)
    ensures
        final(w)@ == old(w)@ + spec_velocity_query(),
{
    write_varint(VELOCITY_MESSAGE_ID, w);
    let channel = "velocity:player_info".to_owned();
    proof {
        reveal_strlit("velocity:player_info");
    }
    proof {
        vstd::utf8::is_ascii_chars_encode_utf8(channel@);
        lemma_ascii_utf16_units(str_bytes(channel@));
    }
    assert(str_encodable(str_bytes(channel@)));
    let written = write_string(&channel, w);
    assert(written is Ok);
    w.push(VELOCITY_MIN_SUPPORTED_VERSION);
    assert(w@ =~= old(w)@ + spec_velocity_query());
}

/// The UUID that `Uuid::try_parse_ascii` reads from `text`, as a big-endian
/// number, if it reads one.
pub uninterp spec fn uuid_from_text(text: Seq<u8>) -> Option<u128>;

/// Reads a UUID (simple, hyphenated, URN or braced hexadecimal text) with
/// `uuid::Uuid::try_parse_ascii`, the parser behind `str::parse::<Uuid>`,
/// and gives it as a big-endian number (`Uuid::as_u128`).
#[verifier::external_body]
fn parse_uuid(text: &[u8]) -> (r: Option<u128>)
    ensures
        r == uuid_from_text(text@),
{
    match uuid::Uuid::try_parse_ascii(text) {
        Ok(u) => Some(u.as_u128()),
        Err(_) => None,
    }
}

/// The fields of `s` between its NUL bytes, in order: one more than there
/// are NULs.
pub open spec fn split_nul(s: Seq<u8>) -> Seq<Seq<u8>>
    decreases s.len(),
{
    if s.len() == 0 {
        seq![Seq::<u8>::empty()]
    } else {
        let f = split_nul(s.drop_last());
        if s.last() == 0 {
            f.push(Seq::<u8>::empty())
        } else {
            f.update(f.len() - 1, f.last().push(s.last()))
        }
    }
}

proof fn lemma_split_nul_len(s: Seq<u8>)
    ensures
        split_nul(s).len() >= 1,
    decreases s.len(),
{
    if s.len() > 0 {
        lemma_split_nul_len(s.drop_last());
    }
}

/// At most the first four of the NUL-separated fields of `s`.
pub open spec fn first_four_fields(s: Seq<u8>) -> Seq<Seq<u8>> {
    let all = split_nul(s);
    if all.len() <= 4 {
        all
    } else {
        all.take(4)
    }
}

pub open spec fn byte_fields(v: Seq<Vec<u8>>) -> Seq<Seq<u8>> {
    v.map_values(|f: Vec<u8>| f@)
}

/// The first four NUL-separated fields of the server address a BungeeCord
/// proxy sends in the handshake: the host, the player's address, UUID and
/// profile properties (the last three only when the proxy forwards them).
pub fn bungeecord_fields(address: &[u8]) -> (r: Vec<Vec<u8>>)
    ensures
        byte_fields(r@) == first_four_fields(address@),
        r@.len() <= 4,
{
    let mut done: Vec<Vec<u8>> = Vec::new();
    let mut current: Vec<u8> = Vec::new();
    let mut i: usize = 0;
    assert(address@.take(0) =~= Seq::<u8>::empty());
    while i < address.len()
        invariant
            i <= address.len(),
            byte_fields(done@).push(current@) == split_nul(address@.take(i as int)),
        decreases address.len() - i,
    {
        let b = address[i];
        let ghost before = split_nul(address@.take(i as int));
        assert(address@.take(i + 1).drop_last() =~= address@.take(i as int));
        if b == 0 {
            let ghost d0 = byte_fields(done@);
            let ghost c0 = current@;
            done.push(current);
            current = Vec::new();
            assert(byte_fields(done@) =~= d0.push(c0));
            assert(byte_fields(done@).push(current@) =~= before.push(Seq::<u8>::empty()));
        } else {
            current.push(b);
            assert(byte_fields(done@).push(current@) =~= before.update(
                before.len() - 1,
                before.last().push(b),
            ));
        }
        i = i + 1;
    }
    assert(address@.take(address.len() as int) =~= address@);
    let ghost all = split_nul(address@);
    done.push(current);
    assert(byte_fields(done@) =~= all);
    let mut out: Vec<Vec<u8>> = Vec::new();
    let mut k: usize = 0;
    while k < done.len() && k < 4
        invariant
            k <= done.len(),
            k <= 4,
            byte_fields(done@) == all,
            byte_fields(out@) =~= all.take(k as int),
        decreases done.len() - k,
    {
        let field = done[k].clone();
        let ghost o0 = byte_fields(out@);
        out.push(field);
        assert(byte_fields(out@) =~= o0.push(all[k as int]));
        assert(all.take(k + 1) =~= all.take(k as int).push(all[k as int]));
        k = k + 1;
    }
    if k == done.len() {
        assert(all.take(k as int) =~= all);
    }
    out
}

/// The player's UUID from a BungeeCord handshake: the third field read as a
/// UUID when the proxy forwards it (`None` when it does not read), else the
/// offline UUID of the player's name.
pub fn bungeecord_uuid(uuid_field: Option<&[u8]>, username: &str) -> (r: Option<u128>)
    ensures
        match uuid_field {
            Some(t) => r == uuid_from_text(t@),
            None => r == Some(digits_value(sha256(username.spec_bytes()).take(16), 256) as u128),
        },
{
    match uuid_field {
        Some(t) => parse_uuid(t),
        None => Some(offline_uuid(username)),
    }
}

} // verus!
