//! Decisions of the handshake, login and configuration phases of a
//! connection: which packets are accepted, whether the client knows the core
//! data pack, and the server brand sent to it.
use vstd::prelude::*;
use vstd::string::StringSliceAdditionalSpecFns;
use vstd::string::StringExecFns;
use base64::Engine;
use crate::codec::{spec_varint_encode, utf16_units, utf16_weight, write_varint, write_bytes};
use crate::packets::configuration::KnownPack;

verus! {

/// The most UTF-16 code units of the server address a handshake may carry.
pub const MAX_HANDSHAKE_ADDRESS_UNITS: u64 = 255;

/// What the server does with a packet received in the configuration phase
/// before the client information.
#[derive(Clone, Copy, Debug, PartialEq, Eq, Structural)]
pub enum ConfigurationPacket {
    /// Id 0: the client information; the phase goes on.
    ClientInformation,
    /// Id 2: a plugin message; it is skipped.
    PluginMessage,
    /// Any other id: the connection is refused.
    Unexpected(i32),
}

/// Sorts a packet id received while waiting for the client information.
pub fn classify_configuration_packet(id: i32) -> (r: ConfigurationPacket)
    ensures
        id == 0 ==> r == ConfigurationPacket::ClientInformation,
        id == 2 ==> r == ConfigurationPacket::PluginMessage,
        id != 0 && id != 2 ==> r == ConfigurationPacket::Unexpected(id),
{
    if id == 0 {
        ConfigurationPacket::ClientInformation
    } else if id == 2 {
        ConfigurationPacket::PluginMessage
    } else {
        ConfigurationPacket::Unexpected(id)
    }
}

/// The pack the server offers: `minecraft:core` of version 26.2.
pub open spec fn core_pack() -> (Seq<char>, Seq<char>, Seq<char>) {
    ("minecraft"@, "core"@, "26.2"@)
}

/// The pack the server offers to the client.
pub fn offered_core_pack() -> (p: KnownPack)
    ensures
        p@ == core_pack(),
{
    KnownPack {
        namespace: "minecraft".to_owned(),
        id: "core".to_owned(),
        version: "26.2".to_owned(),
    }
}

/// Whether the client's reply lists the core pack the server offered.
pub fn core_pack_known(packs: &Vec<KnownPack>) -> (r: bool)
    ensures
        r == exists|i: int| 0 <= i < packs.len() && #[trigger] packs@[i]@ == core_pack(),
{
    let core = offered_core_pack();
    let mut i: usize = 0;
    while i < packs.len()
        invariant
            i <= packs.len(),
            core@ == core_pack(),
            forall|j: int| 0 <= j < i ==> #[trigger] packs@[j]@ != core_pack(),
        decreases packs.len() - i,
    {
        let p = &packs[i];
        if p.namespace == core.namespace && p.id == core.id && p.version == core.version {
            assert(packs@[i as int]@ == core_pack());
            return true;
        }
        i = i + 1;
    }
    false
}

/// The payload of the `minecraft:brand` plugin message: the brand's byte
/// length as a VarInt (cut to 32 bits), then its UTF-8 bytes.
pub open spec fn spec_brand_payload(brand: Seq<u8>) -> Seq<u8> {
    spec_varint_encode(brand.len() as i32) + brand
}

/// The payload of the `minecraft:brand` plugin message for `brand`.
pub fn brand_payload(brand: &str) -> (r: Vec<u8>)
    ensures
        r@ == spec_brand_payload(brand.spec_bytes()),
{
    let bytes = brand.as_bytes();
    let mut out: Vec<u8> = Vec::new();
    write_varint(bytes.len() as i32, &mut out);
    write_bytes(bytes, &mut out);
    assert(out@ =~= spec_brand_payload(brand.spec_bytes()));
    out
}

/// The payload of the brand message this server sends.
pub fn server_brand_payload() -> (r: Vec<u8>)
    ensures
        r@ == spec_brand_payload("Mili-rust".spec_bytes()),
{
    brand_payload("Mili-rust")
}

/// Whether a handshake's server address is accepted: always behind a
/// BungeeCord proxy (which packs forwarded data into it), else when it has
/// at most 255 UTF-16 code units.
pub fn handshake_address_ok(bungeecord: bool, address: &str) -> (ok: bool)
    ensures
        ok == (bungeecord || utf16_units(address.spec_bytes()) <= MAX_HANDSHAKE_ADDRESS_UNITS),
{
    if bungeecord {
        return true;
    }
    let b = address.as_bytes();
    let mut units: u64 = 0;
    let mut i: usize = 0;
    while i < b.len()
        invariant
            i <= b.len(),
            b@ == address.spec_bytes(),
            !bungeecord,
            units == utf16_units(b@.take(i as int)),
            units <= MAX_HANDSHAKE_ADDRESS_UNITS,
        decreases b.len() - i,
    {
        let c = b[i];
        let w: u64 = if c >= 0xF0 {
            2
        } else if c < 0x80 || c >= 0xC0 {
            1
        } else {
            0
        };
        assert(b@.take(i + 1).drop_last() =~= b@.take(i as int));
        assert(b@.take(i + 1).last() == c);
        assert(w == utf16_weight(c));
        assert(utf16_units(b@.take(i + 1)) == utf16_units(b@.take(i as int)) + w);
        units = units + w;
        if units > MAX_HANDSHAKE_ADDRESS_UNITS {
            proof {
                lemma_utf16_units_prefix(b@, i + 1);
            }
            return false;
        }
        i = i + 1;
    }
    assert(b@.take(b.len() as int) =~= b@);
    true
}

/// The units of a prefix are at most those of the whole.
proof fn lemma_utf16_units_prefix(s: Seq<u8>, k: int)
    requires
        0 <= k <= s.len(),
    ensures
        utf16_units(s.take(k)) <= utf16_units(s),
    decreases s.len() - k,
{
    if k < s.len() {
        lemma_utf16_units_prefix(s, k + 1);
        assert(s.take(k + 1).drop_last() =~= s.take(k));
    } else {
        assert(s.take(k) =~= s);
    }
}

// ---------------------------------------------------------------------
// The favicon of the status response
// ---------------------------------------------------------------------

/// The digit of the standard base64 alphabet for `n` (below 64):
/// `A`-`Z`, `a`-`z`, `0`-`9`, `+`, `/`.
pub open spec fn base64_digit(n: int) -> char {
    if n < 26 {
        (n + 65) as char
    } else if n < 52 {
        (n - 26 + 97) as char
    } else if n < 62 {
        (n - 52 + 48) as char
    } else if n == 62 {
        '+'
    } else {
        '/'
    }
}

/// The standard base64 encoding of `s`, with `=` padding: each three bytes
/// give four digits of six bits each, most significant first.
pub open spec fn spec_base64(s: Seq<u8>) -> Seq<char>
    decreases s.len(),
{
    if s.len() == 0 {
        Seq::empty()
    } else {
        let a = s[0] as int;
        let b = if s.len() > 1 { s[1] as int } else { 0 };
        let c = if s.len() > 2 { s[2] as int } else { 0 };
        if s.len() == 1 {
            seq![base64_digit(a / 4), base64_digit((a % 4) * 16), '=', '=']
        } else if s.len() == 2 {
            seq![base64_digit(a / 4), base64_digit((a % 4) * 16 + b / 16), base64_digit((b % 16) * 4), '=']
        } else {
            seq![
                base64_digit(a / 4),
                base64_digit((a % 4) * 16 + b / 16),
                base64_digit((b % 16) * 4 + c / 64),
                base64_digit(c % 64),
            ] + spec_base64(s.skip(3))
        }
    }
}

/// `base64`'s standard engine (`BASE64_STANDARD.encode_string`): appends the
/// RFC 4648 base64 encoding of `data`, standard alphabet and `=` padding, to
/// `out`.
#[verifier::external_body]
fn base64_encode_into(data: &[u8], out: &mut String)
    ensures
        final(out)@ == old(out)@ + spec_base64(data@),
{
    base64::prelude::BASE64_STANDARD.encode_string(data, out);
}

/// The favicon entry of a status response: none for an empty image, else
/// the PNG bytes as a base64 data URI.
pub open spec fn spec_favicon(png: Seq<u8>) -> Option<Seq<char>> {
    if png.len() == 0 {
        None
    } else {
        Some("data:image/png;base64,"@ + spec_base64(png))
    }
}

/// The favicon entry of a status response (see [`spec_favicon`]).
pub fn favicon_data_uri(png: &[u8]) -> (r: Option<String>)
    ensures
        r.is_some() == spec_favicon(png@).is_some(),
        r.is_some() ==> r.unwrap()@ == spec_favicon(png@).unwrap(),
{
    if png.len() == 0 {
        return None;
    }
    let mut buf = String::new();
    buf.append("data:image/png;base64,");
    base64_encode_into(png, &mut buf);
    Some(buf)
}

} // verus!
