//! Packets of the login and configuration phases.
use vstd::prelude::*;
use crate::codec::{
    DecodeError, EncodeError, VarInt, spec_varint_encode, spec_varint_decode, spec_str_encode, spec_str_decode,
    str_encodable, write_varint, lemma_varint_groups_len,
};
use crate::spawn_info::{str_bytes, read_string, write_string, lemma_str_decode_len, lemma_string_roundtrip};

verus! {

/// The phase of a connection a packet belongs to.
#[derive(Clone, Copy, Debug, PartialEq, Eq, Structural)]
pub enum PacketState {
    Handshaking,
    Status,
    Login,
    Configuration,
    Play,
}

/// Which way a packet travels.
#[derive(Clone, Copy, Debug, PartialEq, Eq, Structural)]
pub enum PacketSide {
    Clientbound,
    Serverbound,
}

/// The client acknowledges the end of login.
#[derive(Clone, Copy, Debug, PartialEq, Eq, Structural)]
pub struct LoginAcknowledgedC2s;

impl LoginAcknowledgedC2s {
    /// The packet id.
    pub const ID: i32 = 3;

    /// The packet belongs to the login phase.
    pub fn state() -> (s: PacketState)
        ensures
            s == PacketState::Login,
    {
        PacketState::Login
    }

    /// The packet has no body: nothing is written.
    pub fn encode(&self, w: &mut Vec<u8>) -> (res: Result<(), EncodeError>)
        ensures
            res is Ok,
            final(w)@ == old(w)@,
    {
        Ok(())
    }

    /// The packet has no body: nothing is read.
    pub fn decode(r: &mut &[u8]) -> (res: Result<LoginAcknowledgedC2s, DecodeError>)
        ensures
            res is Ok,
            final(r)@ == old(r)@,
    {
        Ok(LoginAcknowledgedC2s)
    }
}

/// The concatenated encodings of the items.
pub open spec fn items_encode<A>(xs: Seq<A>, enc: spec_fn(A) -> Seq<u8>) -> Seq<u8>
    decreases xs.len(),
{
    if xs.len() == 0 {
        Seq::empty()
    } else {
        items_encode(xs.drop_last(), enc) + enc(xs.last())
    }
}

/// A counted list: the count as a VarInt, then the items.
pub open spec fn list_encode<A>(xs: Seq<A>, enc: spec_fn(A) -> Seq<u8>) -> Seq<u8> {
    spec_varint_encode(xs.len() as i32) + items_encode(xs, enc)
}

/// Decoding `count` items one after another from the front of `s`: the
/// items and how many bytes they took, or the first item's error.
pub open spec fn items_decode<A>(
    s: Seq<u8>,
    count: nat,
    dec: spec_fn(Seq<u8>) -> Result<(A, nat), DecodeError>,
) -> Result<(Seq<A>, nat), DecodeError>
    decreases count,
{
    if count == 0 {
        Ok((Seq::empty(), 0))
    } else {
        match items_decode(s, (count - 1) as nat, dec) {
            Err(e) => Err(e),
            Ok((xs, n)) => match dec(s.skip(n as int)) {
                Err(e) => Err(e),
                Ok((x, m)) => Ok((xs.push(x), n + m)),
            },
        }
    }
}

/// Decoding a counted list: a negative count is refused.
pub open spec fn list_decode<A>(s: Seq<u8>, dec: spec_fn(Seq<u8>) -> Result<(A, nat), DecodeError>) -> Result<
    (Seq<A>, nat),
    DecodeError,
> {
    match spec_varint_decode(s) {
        Err(e) => Err(e),
        Ok((count, k)) => if count < 0 {
            Err(DecodeError::NegativeLength)
        } else {
            match items_decode(s.skip(k as int), count as nat, dec) {
                Err(e) => Err(e),
                Ok((xs, n)) => Ok((xs, k + n)),
            }
        },
    }
}

/// Whether an item decoder gives back every item of `xs` from its
/// encoding, whatever follows it.
pub open spec fn decodes_back<A>(
    xs: Seq<A>,
    enc: spec_fn(A) -> Seq<u8>,
    dec: spec_fn(Seq<u8>) -> Result<(A, nat), DecodeError>,
) -> bool {
    forall|i: int, rest: Seq<u8>|
        0 <= i < xs.len() ==> #[trigger] dec(enc(xs[i]) + rest) == Ok::<(A, nat), DecodeError>((xs[i], enc(xs[i]).len()))
}

/// Decoding items from their concatenated encodings gives them back.
pub proof fn lemma_items_roundtrip<A>(
    xs: Seq<A>,
    enc: spec_fn(A) -> Seq<u8>,
    dec: spec_fn(Seq<u8>) -> Result<(A, nat), DecodeError>,
    rest: Seq<u8>,
)
    requires
        decodes_back(xs, enc, dec),
    ensures
        items_decode(items_encode(xs, enc) + rest, xs.len(), dec) == Ok::<(Seq<A>, nat), DecodeError>(
            (xs, items_encode(xs, enc).len()),
        ),
    decreases xs.len(),
{
    if xs.len() == 0 {
        assert(items_encode(xs, enc) + rest =~= rest);
        assert(xs =~= Seq::<A>::empty());
    } else {
        let init = xs.drop_last();
        let x = xs.last();
        let tail = enc(x) + rest;
        assert(items_encode(xs, enc) + rest =~= items_encode(init, enc) + tail);
        assert forall|i: int, r: Seq<u8>| 0 <= i < init.len() implies #[trigger] dec(enc(init[i]) + r) == Ok::<
            (A, nat),
            DecodeError,
        >((init[i], enc(init[i]).len())) by {
            assert(init[i] == xs[i]);
        }
        lemma_items_roundtrip(init, enc, dec, tail);
        let n = items_encode(init, enc).len();
        let s = items_encode(xs, enc) + rest;
        assert(s.skip(n as int) =~= tail);
        assert(xs[xs.len() - 1] == x);
        assert(dec(enc(xs[xs.len() - 1]) + rest) == Ok::<(A, nat), DecodeError>((x, enc(x).len())));
        assert(((xs.len() - 1) as nat) == init.len());
        assert(items_decode(s, init.len(), dec) == Ok::<(Seq<A>, nat), DecodeError>((init, n)));
        assert(items_encode(xs, enc) == items_encode(init, enc) + enc(x));
        assert(init.push(x) =~= xs);
    }
}

/// Decoding a counted list from its encoding gives the list back, when
/// the count fits a VarInt.
pub proof fn lemma_list_roundtrip<A>(
    xs: Seq<A>,
    enc: spec_fn(A) -> Seq<u8>,
    dec: spec_fn(Seq<u8>) -> Result<(A, nat), DecodeError>,
    rest: Seq<u8>,
)
    requires
        decodes_back(xs, enc, dec),
        xs.len() <= i32::MAX,
    ensures
        list_decode(list_encode(xs, enc) + rest, dec) == Ok::<(Seq<A>, nat), DecodeError>(
            (xs, list_encode(xs, enc).len()),
        ),
{
    let c = spec_varint_encode(xs.len() as i32);
    let body = items_encode(xs, enc) + rest;
    crate::codec::lemma_varint_roundtrip(xs.len() as i32, body);
    assert(list_encode(xs, enc) + rest =~= c + body);
    assert((c + body).skip(c.len() as int) =~= body);
    lemma_items_roundtrip(xs, enc, dec, rest);
}

/// The encoding of a string given by its characters.
pub open spec fn string_encode(s: Seq<char>) -> Seq<u8> {
    spec_str_encode(str_bytes(s))
}

/// Decoding a string into its characters.
pub open spec fn string_decode(s: Seq<u8>) -> Result<(Seq<char>, nat), DecodeError> {
    match spec_str_decode(s) {
        Err(e) => Err(e),
        Ok((body, n)) => Ok((vstd::utf8::decode_utf8(body), n)),
    }
}

/// The string encoder, as a function.
pub open spec fn string_enc() -> spec_fn(Seq<char>) -> Seq<u8> {
    |s: Seq<char>| string_encode(s)
}

/// The string decoder, as a function.
pub open spec fn string_dec() -> spec_fn(Seq<u8>) -> Result<(Seq<char>, nat), DecodeError> {
    |s: Seq<u8>| string_decode(s)
}

/// Whether every string can be encoded.
pub open spec fn strings_encodable(ss: Seq<Seq<char>>) -> bool {
    forall|i: int| 0 <= i < ss.len() ==> str_encodable(str_bytes(#[trigger] ss[i]))
}

/// The characters of each string.
pub open spec fn strings_view(v: Seq<String>) -> Seq<Seq<char>> {
    v.map_values(|s: String| s@)
}

/// Appends a counted list of strings. Refuses a list longer than a
/// VarInt count holds, or a string too long, having written what came
/// before it.
pub fn write_string_list(v: &Vec<String>, w: &mut Vec<u8>) -> (res: Result<(), EncodeError>)
    ensures
        res is Ok <==> v@.len() <= i32::MAX && strings_encodable(strings_view(v@)),
        res is Ok ==> final(w)@ == old(w)@ + list_encode(strings_view(v@), string_enc()),
        v@.len() > i32::MAX ==> res == Err::<(), EncodeError>(EncodeError::TooManyElements),
        v@.len() <= i32::MAX && !strings_encodable(strings_view(v@)) ==> res == Err::<(), EncodeError>(
            EncodeError::StringTooLong,
        ),
{
    if v.len() > i32::MAX as usize {
        return Err(EncodeError::TooManyElements);
    }
    write_varint(v.len() as i32, w);
    let ghost w1 = w@;
    let ghost sv = strings_view(v@);
    let mut i: usize = 0;
    while i < v.len()
        invariant
            i <= v@.len(),
            v@.len() <= i32::MAX,
            sv == strings_view(v@),
            w@ == w1 + items_encode(sv.take(i as int), string_enc()),
            forall|j: int| 0 <= j < i ==> str_encodable(str_bytes(#[trigger] sv[j])),
        decreases v@.len() - i,
    {
        match write_string(&v[i], w) {
            Ok(()) => {},
            Err(e) => {
                proof {
                    assert(sv[i as int] == v@[i as int]@);
                    assert(!str_encodable(str_bytes(sv[i as int])));
                }
                return Err(e);
            },
        }
        proof {
            assert(sv.take(i + 1).drop_last() =~= sv.take(i as int));
            assert(sv[i as int] == v@[i as int]@);
        }
        i = i + 1;
    }
    proof {
        assert(sv.take(v@.len() as int) =~= sv);
        assert(w@ =~= old(w)@ + list_encode(sv, string_enc()));
    }
    Ok(())
}

/// Once decoding some item fails, decoding more items fails the same way.
pub proof fn lemma_items_decode_err<A>(
    s: Seq<u8>,
    i: nat,
    j: nat,
    dec: spec_fn(Seq<u8>) -> Result<(A, nat), DecodeError>,
)
    requires
        i <= j,
        items_decode(s, i, dec) is Err,
    ensures
        items_decode(s, j, dec) == items_decode(s, i, dec),
    decreases j,
{
    if i < j {
        lemma_items_decode_err(s, i, (j - 1) as nat, dec);
    }
}

/// Decodes a counted list of strings (see [`list_decode`]).
pub fn read_string_list(r: &mut &[u8]) -> (res: Result<Vec<String>, DecodeError>)
    ensures
        match list_decode(old(r)@, string_dec()) {
            Ok((xs, n)) => res is Ok && strings_view(res->Ok_0@) == xs && final(r)@ == old(r)@.skip(n as int),
            Err(e) => res == Err::<Vec<String>, DecodeError>(e),
        },
{
    let ghost s = r@;
    let ghost dec = string_dec();
    proof {
        lemma_varint_groups_len(s, 5);
    }
    let count = VarInt::decode(r)?.0;
    let ghost k = (s.len() - r@.len()) as nat;
    if count < 0 {
        return Err(DecodeError::NegativeLength);
    }
    let ghost body = r@;
    proof {
        assert(body =~= s.skip(k as int));
        assert(spec_varint_decode(s) == Ok::<(i32, nat), DecodeError>((count, k)));
    }
    let mut out: Vec<String> = Vec::new();
    let mut i: i32 = 0;
    proof {
        assert(strings_view(out@) =~= Seq::<Seq<char>>::empty());
        assert(body.skip(0) =~= body);
    }
    while i < count
        invariant
            0 <= i <= count,
            dec == string_dec(),
            s == old(r)@,
            spec_varint_decode(s) == Ok::<(i32, nat), DecodeError>((count, k)),
            body == s.skip(k as int),
            r@.len() <= body.len(),
            r@ == body.skip(body.len() - r@.len()),
            items_decode(body, i as nat, dec) == Ok::<(Seq<Seq<char>>, nat), DecodeError>(
                (strings_view(out@), (body.len() - r@.len()) as nat),
            ),
        decreases count - i,
    {
        let ghost n = (body.len() - r@.len()) as nat;
        let ghost out0 = out@;
        let ghost r0 = r@;
        proof {
            lemma_str_decode_len(r0);
            assert(dec(body.skip(n as int)) == string_decode(r0));
        }
        let item = match read_string(r) {
            Ok(x) => x,
            Err(e) => {
                proof {
                    assert(items_decode(body, (i + 1) as nat, dec) == Err::<(Seq<Seq<char>>, nat), DecodeError>(e));
                    lemma_items_decode_err(body, (i + 1) as nat, count as nat, dec);
                }
                return Err(e);
            },
        };
        let ghost iv = item@;
        let ghost m = (r0.len() - r@.len()) as nat;
        proof {
            assert(string_decode(r0) == Ok::<(Seq<char>, nat), DecodeError>((iv, m)));
            assert(r@ =~= body.skip((n + m) as int));
            assert(items_decode(body, (i + 1) as nat, dec) == Ok::<(Seq<Seq<char>>, nat), DecodeError>(
                (strings_view(out0).push(iv), n + m),
            ));
        }
        out.push(item);
        i = i + 1;
        proof {
            assert(strings_view(out@) =~= strings_view(out0).push(iv));
        }
    }
    proof {
        assert(r@ =~= s.skip((k + (body.len() - r@.len())) as int));
    }
    Ok(out)
}


/// A data pack both sides know: its namespace, id and version.
#[derive(Clone, Debug)]
pub struct KnownPack {
    pub namespace: String,
    pub id: String,
    pub version: String,
}

/// A pack as characters: namespace, id and version.
pub type KnownPackView = (Seq<char>, Seq<char>, Seq<char>);

impl View for KnownPack {
    type V = (Seq<char>, Seq<char>, Seq<char>);

    open spec fn view(&self) -> (Seq<char>, Seq<char>, Seq<char>) {
        (self.namespace@, self.id@, self.version@)
    }
}

/// The encoding of a pack: its three strings in order.
pub open spec fn pack_encode(p: (Seq<char>, Seq<char>, Seq<char>)) -> Seq<u8> {
    string_encode(p.0) + string_encode(p.1) + string_encode(p.2)
}

/// Whether the three strings of a pack can be encoded.
pub open spec fn pack_encodable(p: (Seq<char>, Seq<char>, Seq<char>)) -> bool {
    str_encodable(str_bytes(p.0)) && str_encodable(str_bytes(p.1)) && str_encodable(str_bytes(p.2))
}

/// Decoding a pack: three strings.
pub open spec fn pack_decode(s: Seq<u8>) -> Result<((Seq<char>, Seq<char>, Seq<char>), nat), DecodeError> {
    match string_decode(s) {
        Err(e) => Err(e),
        Ok((a, n1)) => match string_decode(s.skip(n1 as int)) {
            Err(e) => Err(e),
            Ok((b, n2)) => match string_decode(s.skip((n1 + n2) as int)) {
                Err(e) => Err(e),
                Ok((c, n3)) => Ok(((a, b, c), n1 + n2 + n3)),
            },
        },
    }
}

/// The pack encoder, as a function.
pub open spec fn pack_enc() -> spec_fn((Seq<char>, Seq<char>, Seq<char>)) -> Seq<u8> {
    |p: (Seq<char>, Seq<char>, Seq<char>)| pack_encode(p)
}

/// The pack decoder, as a function.
pub open spec fn pack_dec() -> spec_fn(Seq<u8>) -> Result<((Seq<char>, Seq<char>, Seq<char>), nat), DecodeError> {
    |s: Seq<u8>| pack_decode(s)
}

/// Whether every pack can be encoded.
pub open spec fn packs_encodable(ps: Seq<(Seq<char>, Seq<char>, Seq<char>)>) -> bool {
    forall|i: int| 0 <= i < ps.len() ==> pack_encodable(#[trigger] ps[i])
}

/// The view of each pack.
pub open spec fn packs_view(v: Seq<KnownPack>) -> Seq<(Seq<char>, Seq<char>, Seq<char>)> {
    v.map_values(|p: KnownPack| p@)
}

/// A successful pack decoding consumes no more than its input.
proof fn lemma_pack_decode_len(s: Seq<u8>)
    ensures
        pack_decode(s) matches Ok((p, n)) ==> n <= s.len(),
{
    lemma_str_decode_len(s);
    if let Ok((a, n1)) = string_decode(s) {
        lemma_str_decode_len(s.skip(n1 as int));
        if let Ok((b, n2)) = string_decode(s.skip(n1 as int)) {
            lemma_str_decode_len(s.skip((n1 + n2) as int));
        }
    }
}

impl KnownPack {
    /// Appends the pack's three strings; refuses a string too long.
    pub fn encode(&self, w: &mut Vec<u8>) -> (res: Result<(), EncodeError>)
        ensures
            res is Ok <==> pack_encodable(self@),
            res is Ok ==> final(w)@ == old(w)@ + pack_encode(self@),
            res is Err ==> res == Err::<(), EncodeError>(EncodeError::StringTooLong),
    {
        write_string(&self.namespace, w)?;
        write_string(&self.id, w)?;
        write_string(&self.version, w)?;
        proof {
            assert(w@ =~= old(w)@ + pack_encode(self@));
        }
        Ok(())
    }

    /// Decodes a pack from the front of `r` (see [`pack_decode`]).
    pub fn decode(r: &mut &[u8]) -> (res: Result<KnownPack, DecodeError>)
        ensures
            match pack_decode(old(r)@) {
                Ok((p, n)) => res is Ok && res->Ok_0@ == p && final(r)@ == old(r)@.skip(n as int),
                Err(e) => res == Err::<KnownPack, DecodeError>(e),
            },
    {
        let ghost s = r@;
        proof {
            lemma_str_decode_len(s);
        }
        let namespace = read_string(r)?;
        let ghost n1 = (s.len() - r@.len()) as nat;
        proof {
            assert(r@ =~= s.skip(n1 as int));
            lemma_str_decode_len(r@);
        }
        let id = read_string(r)?;
        let ghost n2 = (s.len() - r@.len() - n1) as nat;
        proof {
            assert(r@ =~= s.skip((n1 + n2) as int));
            lemma_str_decode_len(r@);
        }
        let version = read_string(r)?;
        proof {
            assert(r@ =~= s.skip((s.len() - r@.len()) as int));
        }
        Ok(KnownPack { namespace, id, version })
    }
}

/// Appends a counted list of packs. Refuses a list longer than a VarInt
/// count holds, or a pack with a string too long, having written what came
/// before it.
pub fn write_pack_list(v: &Vec<KnownPack>, w: &mut Vec<u8>) -> (res: Result<(), EncodeError>)
    ensures
        res is Ok <==> v@.len() <= i32::MAX && packs_encodable(packs_view(v@)),
        res is Ok ==> final(w)@ == old(w)@ + list_encode(packs_view(v@), pack_enc()),
        v@.len() > i32::MAX ==> res == Err::<(), EncodeError>(EncodeError::TooManyElements),
        v@.len() <= i32::MAX && !packs_encodable(packs_view(v@)) ==> res == Err::<(), EncodeError>(
            EncodeError::StringTooLong,
        ),
{
    if v.len() > i32::MAX as usize {
        return Err(EncodeError::TooManyElements);
    }
    write_varint(v.len() as i32, w);
    let ghost w1 = w@;
    let ghost sv = packs_view(v@);
    let mut i: usize = 0;
    while i < v.len()
        invariant
            i <= v@.len(),
            v@.len() <= i32::MAX,
            sv == packs_view(v@),
            w@ == w1 + items_encode(sv.take(i as int), pack_enc()),
            forall|j: int| 0 <= j < i ==> pack_encodable(#[trigger] sv[j]),
        decreases v@.len() - i,
    {
        match v[i].encode(w) {
            Ok(()) => {},
            Err(e) => {
                proof {
                    assert(sv[i as int] == v@[i as int]@);
                    assert(!pack_encodable(sv[i as int]));
                }
                return Err(e);
            },
        }
        proof {
            assert(sv.take(i + 1).drop_last() =~= sv.take(i as int));
            assert(sv[i as int] == v@[i as int]@);
        }
        i = i + 1;
    }
    proof {
        assert(sv.take(v@.len() as int) =~= sv);
        assert(w@ =~= old(w)@ + list_encode(sv, pack_enc()));
    }
    Ok(())
}

/// Decodes a counted list of packs (see [`list_decode`]).
#[verifier::rlimit(60)]
pub fn read_pack_list(r: &mut &[u8]) -> (res: Result<Vec<KnownPack>, DecodeError>)
    ensures
        match list_decode(old(r)@, pack_dec()) {
            Ok((xs, n)) => res is Ok && packs_view(res->Ok_0@) == xs && final(r)@ == old(r)@.skip(n as int),
            Err(e) => res == Err::<Vec<KnownPack>, DecodeError>(e),
        },
{
    let ghost s = r@;
    let ghost dec = pack_dec();
    proof {
        lemma_varint_groups_len(s, 5);
    }
    let count = VarInt::decode(r)?.0;
    let ghost k = (s.len() - r@.len()) as nat;
    if count < 0 {
        return Err(DecodeError::NegativeLength);
    }
    let ghost body = r@;
    proof {
        assert(body =~= s.skip(k as int));
        assert(spec_varint_decode(s) == Ok::<(i32, nat), DecodeError>((count, k)));
    }
    let mut out: Vec<KnownPack> = Vec::new();
    let mut i: i32 = 0;
    proof {
        assert(packs_view(out@) =~= Seq::<KnownPackView>::empty());
        assert(body.skip(0) =~= body);
    }
    while i < count
        invariant
            0 <= i <= count,
            dec == pack_dec(),
            s == old(r)@,
            spec_varint_decode(s) == Ok::<(i32, nat), DecodeError>((count, k)),
            body == s.skip(k as int),
            r@.len() <= body.len(),
            r@ == body.skip(body.len() - r@.len()),
            items_decode(body, i as nat, dec) == Ok::<(Seq<KnownPackView>, nat), DecodeError>(
                (packs_view(out@), (body.len() - r@.len()) as nat),
            ),
        decreases count - i,
    {
        let ghost n = (body.len() - r@.len()) as nat;
        let ghost out0 = out@;
        let ghost r0 = r@;
        proof {
            lemma_pack_decode_len(r0);
            assert(dec(body.skip(n as int)) == pack_decode(r0));
        }
        let item = match KnownPack::decode(r) {
            Ok(x) => x,
            Err(e) => {
                proof {
                    assert(items_decode(body, (i + 1) as nat, dec) == Err::<(Seq<KnownPackView>, nat), DecodeError>(e));
                    lemma_items_decode_err(body, (i + 1) as nat, count as nat, dec);
                }
                return Err(e);
            },
        };
        let ghost iv = item@;
        let ghost m = (r0.len() - r@.len()) as nat;
        proof {
            assert(pack_decode(r0) == Ok::<(KnownPackView, nat), DecodeError>((iv, m)));
            assert(r@ =~= body.skip((n + m) as int));
            assert(items_decode(body, (i + 1) as nat, dec) == Ok::<(Seq<KnownPackView>, nat), DecodeError>(
                (packs_view(out0).push(iv), n + m),
            ));
        }
        out.push(item);
        i = i + 1;
        proof {
            assert(packs_view(out@) =~= packs_view(out0).push(iv));
        }
    }
    proof {
        assert(r@ =~= s.skip((k + (body.len() - r@.len())) as int));
    }
    Ok(out)
}

/// Decoding a counted list of encodable strings gives it back.
pub proof fn lemma_string_list_roundtrip(ss: Seq<Seq<char>>, rest: Seq<u8>)
    requires
        strings_encodable(ss),
        ss.len() <= i32::MAX,
    ensures
        list_decode(list_encode(ss, string_enc()) + rest, string_dec()) == Ok::<(Seq<Seq<char>>, nat), DecodeError>(
            (ss, list_encode(ss, string_enc()).len()),
        ),
{
    assert forall|i: int, r: Seq<u8>| 0 <= i < ss.len() implies #[trigger] string_dec()(string_enc()(ss[i]) + r)
        == Ok::<(Seq<char>, nat), DecodeError>((ss[i], string_enc()(ss[i]).len())) by {
        lemma_string_roundtrip(ss[i], r);
    }
    lemma_list_roundtrip(ss, string_enc(), string_dec(), rest);
}

/// Decoding a counted list of encodable packs gives it back.
pub proof fn lemma_pack_list_roundtrip(ps: Seq<(Seq<char>, Seq<char>, Seq<char>)>, rest: Seq<u8>)
    requires
        packs_encodable(ps),
        ps.len() <= i32::MAX,
    ensures
        list_decode(list_encode(ps, pack_enc()) + rest, pack_dec()) == Ok::<
            (Seq<(Seq<char>, Seq<char>, Seq<char>)>, nat),
            DecodeError,
        >((ps, list_encode(ps, pack_enc()).len())),
{
    assert forall|i: int, r: Seq<u8>| 0 <= i < ps.len() implies #[trigger] pack_dec()(pack_enc()(ps[i]) + r)
        == Ok::<((Seq<char>, Seq<char>, Seq<char>), nat), DecodeError>((ps[i], pack_enc()(ps[i]).len())) by {
        lemma_pack_roundtrip(ps[i], r);
    }
    lemma_list_roundtrip(ps, pack_enc(), pack_dec(), rest);
}

/// Decoding an encodable pack gives it back.
pub proof fn lemma_pack_roundtrip(p: (Seq<char>, Seq<char>, Seq<char>), rest: Seq<u8>)
    requires
        pack_encodable(p),
    ensures
        pack_decode(pack_encode(p) + rest) == Ok::<((Seq<char>, Seq<char>, Seq<char>), nat), DecodeError>(
            (p, pack_encode(p).len()),
        ),
{
    let e0 = string_encode(p.0);
    let e1 = string_encode(p.1);
    let e2 = string_encode(p.2);
    let s = pack_encode(p) + rest;
    assert(s =~= e0 + (e1 + e2 + rest));
    lemma_string_roundtrip(p.0, e1 + e2 + rest);
    assert(s.skip(e0.len() as int) =~= e1 + (e2 + rest));
    lemma_string_roundtrip(p.1, e2 + rest);
    assert(s.skip((e0.len() + e1.len()) as int) =~= e2 + rest);
    lemma_string_roundtrip(p.2, rest);
}

/// The server ends the configuration phase.
#[derive(Clone, Copy, Debug, PartialEq, Eq, Structural)]
pub struct ConfigFinishConfigurationS2c;

impl ConfigFinishConfigurationS2c {
    /// The packet id.
    pub const ID: i32 = 3;

    /// The packet belongs to the configuration phase.
    pub fn state() -> (s: PacketState)
        ensures
            s == PacketState::Configuration,
    {
        PacketState::Configuration
    }

    /// The packet has no body: nothing is written.
    pub fn encode(&self, w: &mut Vec<u8>) -> (res: Result<(), EncodeError>)
        ensures
            res is Ok,
            final(w)@ == old(w)@,
    {
        Ok(())
    }

    /// The packet has no body: nothing is read.
    pub fn decode(r: &mut &[u8]) -> (res: Result<ConfigFinishConfigurationS2c, DecodeError>)
        ensures
            res is Ok,
            final(r)@ == old(r)@,
    {
        Ok(ConfigFinishConfigurationS2c)
    }
}

/// The server names the features it enables.
#[derive(Clone, Debug)]
pub struct ConfigUpdateEnabledFeaturesS2c {
    pub features: Vec<String>,
}

impl ConfigUpdateEnabledFeaturesS2c {
    /// The packet id.
    pub const ID: i32 = 12;

    /// The packet belongs to the configuration phase.
    pub fn state() -> (s: PacketState)
        ensures
            s == PacketState::Configuration,
    {
        PacketState::Configuration
    }

    /// Appends the counted list of feature names.
    pub fn encode(&self, w: &mut Vec<u8>) -> (res: Result<(), EncodeError>)
        ensures
            res is Ok <==> self.features@.len() <= i32::MAX && strings_encodable(strings_view(self.features@)),
            res is Ok ==> final(w)@ == old(w)@ + list_encode(strings_view(self.features@), string_enc()),
    {
        write_string_list(&self.features, w)
    }

    /// Decodes the counted list of feature names.
    pub fn decode(r: &mut &[u8]) -> (res: Result<ConfigUpdateEnabledFeaturesS2c, DecodeError>)
        ensures
            match list_decode(old(r)@, string_dec()) {
                Ok((xs, n)) => res is Ok && strings_view(res->Ok_0.features@) == xs && final(r)@ == old(r)@.skip(
                    n as int,
                ),
                Err(e) => res == Err::<ConfigUpdateEnabledFeaturesS2c, DecodeError>(e),
            },
    {
        let features = read_string_list(r)?;
        Ok(ConfigUpdateEnabledFeaturesS2c { features })
    }
}

/// The client names the data packs it knows.
#[derive(Clone, Debug)]
pub struct ConfigSelectKnownPacksC2s {
    pub packs: Vec<KnownPack>,
}

impl ConfigSelectKnownPacksC2s {
    /// The packet id.
    pub const ID: i32 = 7;

    /// The packet belongs to the configuration phase.
    pub fn state() -> (s: PacketState)
        ensures
            s == PacketState::Configuration,
    {
        PacketState::Configuration
    }

    /// Appends the counted list of packs.
    pub fn encode(&self, w: &mut Vec<u8>) -> (res: Result<(), EncodeError>)
        ensures
            res is Ok <==> self.packs@.len() <= i32::MAX && packs_encodable(packs_view(self.packs@)),
            res is Ok ==> final(w)@ == old(w)@ + list_encode(packs_view(self.packs@), pack_enc()),
    {
        write_pack_list(&self.packs, w)
    }

    /// Decodes the counted list of packs.
    pub fn decode(r: &mut &[u8]) -> (res: Result<ConfigSelectKnownPacksC2s, DecodeError>)
        ensures
            match list_decode(old(r)@, pack_dec()) {
                Ok((xs, n)) => res is Ok && packs_view(res->Ok_0.packs@) == xs && final(r)@ == old(r)@.skip(n as int),
                Err(e) => res == Err::<ConfigSelectKnownPacksC2s, DecodeError>(e),
            },
    {
        let packs = read_pack_list(r)?;
        Ok(ConfigSelectKnownPacksC2s { packs })
    }
}

/// The server names the data packs it knows.
#[derive(Clone, Debug)]
pub struct ConfigSelectKnownPacksS2c {
    pub packs: Vec<KnownPack>,
}

impl ConfigSelectKnownPacksS2c {
    /// The packet id.
    pub const ID: i32 = 14;

    /// The packet belongs to the configuration phase.
    pub fn state() -> (s: PacketState)
        ensures
            s == PacketState::Configuration,
    {
        PacketState::Configuration
    }

    /// Appends the counted list of packs.
    pub fn encode(&self, w: &mut Vec<u8>) -> (res: Result<(), EncodeError>)
        ensures
            res is Ok <==> self.packs@.len() <= i32::MAX && packs_encodable(packs_view(self.packs@)),
            res is Ok ==> final(w)@ == old(w)@ + list_encode(packs_view(self.packs@), pack_enc()),
    {
        write_pack_list(&self.packs, w)
    }

    /// Decodes the counted list of packs.
    pub fn decode(r: &mut &[u8]) -> (res: Result<ConfigSelectKnownPacksS2c, DecodeError>)
        ensures
            match list_decode(old(r)@, pack_dec()) {
                Ok((xs, n)) => res is Ok && packs_view(res->Ok_0.packs@) == xs && final(r)@ == old(r)@.skip(n as int),
                Err(e) => res == Err::<ConfigSelectKnownPacksS2c, DecodeError>(e),
            },
    {
        let packs = read_pack_list(r)?;
        Ok(ConfigSelectKnownPacksS2c { packs })
    }
}

} // verus!
