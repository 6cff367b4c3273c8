//! Login helpers: the hexadecimal server hash of session authentication,
//! and the UUID an offline-mode player gets from their name.
//!
//! The server hash is a digest read as a signed big-endian number (two's
//! complement) and written in lower-case hexadecimal without leading
//! zeros, with a minus sign when it is negative.
use vstd::prelude::*;
use sha2::Digest;
use rsa::pkcs8::DecodePrivateKey;
use vstd::string::StringExecFns;
use vstd::string::StringSliceAdditionalSpecFns;

verus! {

/// The value of big-endian digits in base `base`.
pub open spec fn digits_value(ds: Seq<u8>, base: nat) -> nat
    decreases ds.len(),
{
    if ds.len() == 0 {
        0
    } else {
        digits_value(ds.drop_last(), base) * base + ds.last() as nat
    }
}

/// `256` to the power `n`.
pub open spec fn pow256(n: nat) -> nat
    decreases n,
{
    if n == 0 {
        1
    } else {
        256 * pow256((n - 1) as nat)
    }
}

/// The bytes read as a signed big-endian number in two's complement.
pub open spec fn signed_be(b: Seq<u8>) -> int {
    if b.len() > 0 && b[0] >= 128 {
        digits_value(b, 256) - pow256(b.len())
    } else {
        digits_value(b, 256) as int
    }
}

/// The lower-case hexadecimal digit for `d`, below 16.
pub open spec fn hex_char(d: nat) -> char {
    if d < 10 {
        (48 + d) as char
    } else {
        (87 + d) as char
    }
}

/// `n` in lower-case hexadecimal without leading zeros.
pub open spec fn hex_of(n: nat) -> Seq<char>
    decreases n,
{
    if n < 16 {
        seq![hex_char(n)]
    } else {
        hex_of(n / 16).push(hex_char(n % 16))
    }
}

/// The server hash of a digest: its signed big-endian value in
/// hexadecimal, with a minus sign when negative.
pub open spec fn spec_auth_digest(b: Seq<u8>) -> Seq<char> {
    let v = signed_be(b);
    if v < 0 {
        seq!['-'] + hex_of((-v) as nat)
    } else {
        hex_of(v as nat)
    }
}

/// The two hexadecimal digits of each byte, in order.
pub open spec fn nibbles(b: Seq<u8>) -> Seq<u8>
    decreases b.len(),
{
    if b.len() == 0 {
        Seq::empty()
    } else {
        nibbles(b.drop_last()) + seq![b.last() / 16, b.last() % 16]
    }
}

proof fn lemma_pow256_positive(n: nat)
    ensures
        pow256(n) >= 1,
    decreases n,
{
    if n > 0 {
        lemma_pow256_positive((n - 1) as nat);
    }
}

/// Putting a digit in front adds it times the place value.
proof fn lemma_value_prepend(x: u8, s: Seq<u8>)
    ensures
        digits_value(seq![x] + s, 256) == x as nat * pow256(s.len()) + digits_value(s, 256),
    decreases s.len(),
{
    let t = seq![x] + s;
    if s.len() == 0 {
        assert(t.drop_last() =~= Seq::<u8>::empty());
        assert(t.last() == x);
        assert(digits_value(Seq::<u8>::empty(), 256) == 0);
        assert(digits_value(t, 256) == digits_value(t.drop_last(), 256) * 256 + x as nat);
        assert(digits_value(t, 256) == x as nat);
        assert(pow256(0) == 1);
        assert(x as nat * 1 == x as nat);
    } else {
        assert(t.drop_last() =~= seq![x] + s.drop_last());
        assert(t.last() == s.last());
        lemma_value_prepend(x, s.drop_last());
        let a = x as nat;
        let p = pow256(s.drop_last().len());
        let v = digits_value(s.drop_last(), 256);
        let l = s.last() as nat;
        assert(pow256(s.len()) == 256 * p);
        assert(digits_value(t, 256) == (a * p + v) * 256 + l);
        assert(digits_value(s, 256) == v * 256 + l);
        assert((a * p + v) * 256 + l == a * (256 * p) + (v * 256 + l)) by (nonlinear_arith);
    }
}

/// A suffix's value from one more digit on.
proof fn lemma_suffix_step(b: Seq<u8>, i: int)
    requires
        0 <= i < b.len(),
    ensures
        digits_value(b.subrange(i, b.len() as int), 256) == b[i] as nat * pow256((b.len() - i - 1) as nat)
            + digits_value(b.subrange(i + 1, b.len() as int), 256),
{
    assert(b.subrange(i, b.len() as int) =~= seq![b[i]] + b.subrange(i + 1, b.len() as int));
    lemma_value_prepend(b[i], b.subrange(i + 1, b.len() as int));
}

/// A number of `n` bytes is below `256^n`.
proof fn lemma_value_bound(b: Seq<u8>)
    ensures
        digits_value(b, 256) < pow256(b.len()),
    decreases b.len(),
{
    if b.len() > 0 {
        lemma_value_bound(b.drop_last());
        let v = digits_value(b.drop_last(), 256);
        let p = pow256(b.drop_last().len());
        assert(v * 256 + (b.last() as nat) < 256 * p) by (nonlinear_arith)
            requires
                v < p,
                b.last() < 256,
        ;
    }
}

/// The hexadecimal digits of the bytes have the bytes' value.
proof fn lemma_nibbles_value(b: Seq<u8>)
    ensures
        digits_value(nibbles(b), 16) == digits_value(b, 256),
        nibbles(b).len() == 2 * b.len(),
        forall|i: int| 0 <= i < nibbles(b).len() ==> #[trigger] nibbles(b)[i] < 16,
    decreases b.len(),
{
    if b.len() > 0 {
        lemma_nibbles_value(b.drop_last());
        let n = nibbles(b);
        let m = nibbles(b.drop_last());
        let h = b.last() / 16;
        let l = b.last() % 16;
        assert(n =~= m + seq![h, l]);
        assert(n.drop_last() =~= m.push(h));
        assert(n.drop_last().drop_last() =~= m);
        assert forall|i: int| 0 <= i < n.len() implies #[trigger] n[i] < 16 by {
            if i < m.len() {
                assert(n[i] == m[i]);
            }
        }
        let mv = digits_value(m, 16);
        let hn = h as nat;
        let ln = l as nat;
        assert(n.last() == l);
        assert(n.drop_last().last() == h);
        assert(digits_value(n.drop_last(), 16) == mv * 16 + hn);
        assert(digits_value(n, 16) == (mv * 16 + hn) * 16 + ln);
        assert(hn * 16 + ln == b.last() as nat);
        assert(digits_value(b, 256) == digits_value(b.drop_last(), 256) * 256 + b.last() as nat);
        assert((mv * 16 + hn) * 16 + ln == mv * 256 + (hn * 16 + ln)) by (nonlinear_arith);
    }
}

/// Leading zero digits add nothing.
proof fn lemma_leading_zeros(z: Seq<u8>, s: Seq<u8>, base: nat)
    requires
        forall|i: int| 0 <= i < z.len() ==> z[i] == 0,
    ensures
        digits_value(z + s, base) == digits_value(s, base),
    decreases s.len(),
{
    if s.len() == 0 {
        lemma_zeros_value(z, base);
        assert(z + s =~= z);
    } else {
        assert((z + s).drop_last() =~= z + s.drop_last());
        lemma_leading_zeros(z, s.drop_last(), base);
    }
}

proof fn lemma_zeros_value(z: Seq<u8>, base: nat)
    requires
        forall|i: int| 0 <= i < z.len() ==> z[i] == 0,
    ensures
        digits_value(z, base) == 0,
    decreases z.len(),
{
    if z.len() > 0 {
        assert forall|i: int| 0 <= i < z.drop_last().len() implies z.drop_last()[i] == 0 by {
            assert(z.drop_last()[i] == z[i]);
        }
        lemma_zeros_value(z.drop_last(), base);
        assert(z.last() == z[z.len() - 1]);
        assert(digits_value(z, base) == 0 * base + 0);
    }
}

/// The value of hexadecimal digits that start with a non-zero one is
/// written as those digits.
proof fn lemma_hex_of_digits(s: Seq<u8>)
    requires
        s.len() > 0,
        s[0] != 0,
        forall|i: int| 0 <= i < s.len() ==> s[i] < 16,
    ensures
        hex_of(digits_value(s, 16)) == s.map_values(|d: u8| hex_char(d as nat)),
        digits_value(s, 16) > 0,
    decreases s.len(),
{
    let v = digits_value(s, 16);
    if s.len() == 1 {
        assert(s.drop_last() =~= Seq::<u8>::empty());
        assert(digits_value(Seq::<u8>::empty(), 16) == 0);
        assert(v == digits_value(s.drop_last(), 16) * 16 + s.last() as nat);
        assert(v == s[0] as nat);
        assert(hex_of(v) == seq![hex_char(v)]);
        assert(s.map_values(|d: u8| hex_char(d as nat)) =~= seq![hex_char(s[0] as nat)]);
    } else {
        let p = s.drop_last();
        lemma_hex_of_digits(p);
        let w = digits_value(p, 16);
        let l = s.last() as nat;
        assert(v == w * 16 + l);
        assert(v / 16 == w && v % 16 == l && v >= 16) by (nonlinear_arith)
            requires
                v == w * 16 + l,
                l < 16,
                w > 0,
        ;
        assert(hex_of(v) == hex_of(v / 16).push(hex_char(v % 16)));
        assert(s.map_values(|d: u8| hex_char(d as nat)) =~= p.map_values(|d: u8| hex_char(d as nat)).push(
            hex_char(l),
        ));
    }
}

/// The lower-case hexadecimal digit for `d`, below 16, as a string.
fn hex_digit_str(d: u8) -> (s: &'static str)
    requires
        d < 16,
    ensures
        s@ == seq![hex_char(d as nat)],
{
    match d {
        0 => {
            proof {
                reveal_strlit("0");
            }
            "0"
        },
        1 => {
            proof {
                reveal_strlit("1");
            }
            "1"
        },
        2 => {
            proof {
                reveal_strlit("2");
            }
            "2"
        },
        3 => {
            proof {
                reveal_strlit("3");
            }
            "3"
        },
        4 => {
            proof {
                reveal_strlit("4");
            }
            "4"
        },
        5 => {
            proof {
                reveal_strlit("5");
            }
            "5"
        },
        6 => {
            proof {
                reveal_strlit("6");
            }
            "6"
        },
        7 => {
            proof {
                reveal_strlit("7");
            }
            "7"
        },
        8 => {
            proof {
                reveal_strlit("8");
            }
            "8"
        },
        9 => {
            proof {
                reveal_strlit("9");
            }
            "9"
        },
        10 => {
            proof {
                reveal_strlit("a");
            }
            "a"
        },
        11 => {
            proof {
                reveal_strlit("b");
            }
            "b"
        },
        12 => {
            proof {
                reveal_strlit("c");
            }
            "c"
        },
        13 => {
            proof {
                reveal_strlit("d");
            }
            "d"
        },
        14 => {
            proof {
                reveal_strlit("e");
            }
            "e"
        },
        _ => {
            proof {
                reveal_strlit("f");
            }
            "f"
        },
    }
}

/// `256^len` less the value of the bytes, as bytes of the same length, for
/// bytes whose value is not zero.
fn negate_bytes(b: &[u8]) -> (m: Vec<u8>)
    ensures
        m@.len() == b@.len(),
        digits_value(b@, 256) > 0 ==> digits_value(m@, 256) == pow256(b@.len()) - digits_value(b@, 256),
{
    let n = b.len();
    let mut m: Vec<u8> = Vec::new();
    let mut k: usize = 0;
    while k < n
        invariant
            n == b@.len(),
            k <= n,
            m@.len() == k,
        decreases n - k,
    {
        m.push(0);
        k = k + 1;
    }
    let mut borrow: u8 = 0;
    let mut i: usize = n;
    proof {
        assert(b@.subrange(n as int, n as int) =~= Seq::<u8>::empty());
        assert(m@.subrange(n as int, n as int) =~= Seq::<u8>::empty());
    }
    while i > 0
        invariant
            n == b@.len(),
            m@.len() == n,
            i <= n,
            borrow <= 1,
            borrow == 0 ==> digits_value(b@.subrange(i as int, n as int), 256) == 0 && digits_value(
                m@.subrange(i as int, n as int),
                256,
            ) == 0,
            borrow == 1 ==> digits_value(b@.subrange(i as int, n as int), 256) > 0 && digits_value(
                m@.subrange(i as int, n as int),
                256,
            ) + digits_value(b@.subrange(i as int, n as int), 256) == pow256((n - i) as nat),
        decreases i,
    {
        let idx = i - 1;
        let ghost p = pow256((n - i) as nat);
        let ghost bs = digits_value(b@.subrange(i as int, n as int), 256);
        let ghost ms = digits_value(m@.subrange(i as int, n as int), 256);
        let x: u16 = b[idx] as u16 + borrow as u16;
        let ghost m_before = m@;
        if x == 0 {
            m.set(idx, 0);
        } else {
            m.set(idx, (256 - x) as u8);
        }
        proof {
            assert(m@.subrange(i as int, n as int) =~= m_before.subrange(i as int, n as int));
            lemma_suffix_step(b@, idx as int);
            lemma_suffix_step(m@, idx as int);
            lemma_pow256_positive((n - i) as nat);
            assert(pow256((n - idx) as nat) == 256 * p);
            let bb = b@[idx as int] as nat;
            let mb = m@[idx as int] as nat;
            if x == 0 {
                assert(bb * p == 0) by (nonlinear_arith)
                    requires
                        bb == 0,
                ;
                assert(mb * p == 0) by (nonlinear_arith)
                    requires
                        mb == 0,
                ;
            } else if borrow == 0 {
                assert(mb * p + bb * p == 256 * p) by (nonlinear_arith)
                    requires
                        mb + bb == 256,
                ;
                assert(bb * p > 0) by (nonlinear_arith)
                    requires
                        bb > 0,
                        p >= 1,
                ;
            } else {
                assert(mb * p + ms + bb * p + bs == 256 * p) by (nonlinear_arith)
                    requires
                        mb + bb == 255,
                        ms + bs == p,
                ;
                assert(bb * p >= 0) by (nonlinear_arith);
            }
        }
        borrow = if x == 0 { 0 } else { 1 };
        i = idx;
    }
    proof {
        assert(b@.subrange(0, n as int) =~= b@);
        assert(m@.subrange(0, n as int) =~= m@);
    }
    m
}

/// The two hexadecimal digits of each byte, in order.
fn nibbles_of(b: &[u8]) -> (digits: Vec<u8>)
    ensures
        digits@ == nibbles(b@),
{
    let mut digits: Vec<u8> = Vec::new();
    let mut i: usize = 0;
    while i < b.len()
        invariant
            i <= b@.len(),
            digits@ == nibbles(b@.take(i as int)),
        decreases b@.len() - i,
    {
        proof {
            assert(b@.take(i + 1).drop_last() =~= b@.take(i as int));
        }
        digits.push(b[i] / 16);
        digits.push(b[i] % 16);
        i = i + 1;
        proof {
            assert(digits@ =~= nibbles(b@.take(i as int)));
        }
    }
    proof {
        assert(b@.take(b@.len() as int) =~= b@);
    }
    digits
}

/// Appends the lower-case hexadecimal digits of the bytes' value, without
/// leading zeros ("0" for zero).
fn push_hex_of_bytes(b: &[u8], s: &mut String)
    ensures
        final(s)@ == old(s)@ + hex_of(digits_value(b@, 256)),
{
    let ghost ns = nibbles(b@);
    proof {
        lemma_nibbles_value(b@);
    }
    let digits = nibbles_of(b);
    let mut start: usize = 0;
    while start < digits.len() && digits[start] == 0
        invariant
            digits@ == ns,
            start <= digits@.len(),
            forall|j: int| 0 <= j < start ==> digits@[j] == 0,
        decreases digits@.len() - start,
    {
        start = start + 1;
    }
    let ghost lead = digits@.take(start as int);
    let ghost rest = digits@.skip(start as int);
    proof {
        assert(lead + rest =~= digits@);
        lemma_leading_zeros(lead, rest, 16);
    }
    if start == digits.len() {
        proof {
            assert(rest =~= Seq::<u8>::empty());
        }
        s.append(hex_digit_str(0));
        return;
    }
    let ghost s0 = s@;
    let mut j: usize = start;
    while j < digits.len()
        invariant
            digits@ == ns,
            start <= j <= digits@.len(),
            forall|k: int| 0 <= k < digits@.len() ==> #[trigger] digits@[k] < 16,
            s@ == s0 + digits@.subrange(start as int, j as int).map_values(|d: u8| hex_char(d as nat)),
        decreases digits@.len() - j,
    {
        s.append(hex_digit_str(digits[j]));
        j = j + 1;
        proof {
            assert(s@ =~= s0 + digits@.subrange(start as int, j as int).map_values(|d: u8| hex_char(d as nat)));
        }
    }
    proof {
        assert(digits@.subrange(start as int, digits@.len() as int) =~= rest);
        lemma_hex_of_digits(rest);
    }
}

/// The server hash of a digest (see [`spec_auth_digest`]).
pub fn auth_digest(bytes: &[u8]) -> (s: String)
    ensures
        s@ == spec_auth_digest(bytes@),
{
    let negative = bytes.len() > 0 && bytes[0] >= 128;
    if negative {
        proof {
            lemma_suffix_step(bytes@, 0);
            lemma_pow256_positive((bytes@.len() - 1) as nat);
            assert(bytes@.subrange(0, bytes@.len() as int) =~= bytes@);
            assert(bytes@[0] as nat * pow256((bytes@.len() - 1) as nat) > 0) by (nonlinear_arith)
                requires
                    bytes@[0] >= 128,
                    pow256((bytes@.len() - 1) as nat) >= 1,
            ;
            lemma_value_bound(bytes@);
        }
        let m = negate_bytes(bytes);
        let mut out = String::new();
        proof {
            reveal_strlit("-");
        }
        out.append("-");
        push_hex_of_bytes(m.as_slice(), &mut out);
        out
    } else {
        let mut out = String::new();
        push_hex_of_bytes(bytes, &mut out);
        out
    }
}

/// The SHA-256 digest of `data`.
pub uninterp spec fn sha256(data: Seq<u8>) -> Seq<u8>;

/// The SHA-256 digest of `data`, from `sha2::Sha256::digest`. The contract
/// names the digest and claims only its length of 32 bytes.
#[verifier::external_body]
fn sha256_digest(data: &[u8]) -> (d: Vec<u8>)
    ensures
        d@ == sha256(data@),
        d@.len() == 32,
{
    sha2::Sha256::digest(data).to_vec()
}

/// The UUID made of the first 16 bytes of a digest, read big-endian.
pub fn uuid_from_digest(digest: &[u8]) -> (u: u128)
    requires
        digest@.len() >= 16,
    ensures
        u == digits_value(digest@.take(16), 256),
{
    let mut u: u128 = 0;
    let mut i: usize = 0;
    while i < 16
        invariant
            i <= 16,
            digest@.len() >= 16,
            u == digits_value(digest@.take(i as int), 256),
        decreases 16 - i,
    {
        proof {
            assert(digest@.take(i + 1).drop_last() =~= digest@.take(i as int));
            lemma_value_bound(digest@.take(i as int));
            lemma_pow256_16(i as nat);
            assert(u * 256 + digest@[i as int] < 0x1_0000_0000_0000_0000_0000_0000_0000_0000) by (nonlinear_arith)
                requires
                    u < pow256(i as nat),
                    pow256(i as nat) * 256 <= 0x1_0000_0000_0000_0000_0000_0000_0000_0000,
                    digest@[i as int] < 256,
            ;
        }
        u = u * 256 + digest[i] as u128;
        i = i + 1;
    }
    u
}

/// `256^i`, for `i` up to 15, times 256 fits in 128 bits.
proof fn lemma_pow256_16(i: nat)
    requires
        i < 16,
    ensures
        pow256(i) * 256 <= 0x1_0000_0000_0000_0000_0000_0000_0000_0000,
{
    lemma_pow256_mono(i, 15);
    assert(pow256(15) == 0x1000000000000000000000000000000) by {
        assert(pow256(0) == 0x1);
        assert(pow256(1) == 0x100);
        assert(pow256(2) == 0x10000);
        assert(pow256(3) == 0x1000000);
        assert(pow256(4) == 0x100000000);
        assert(pow256(5) == 0x10000000000);
        assert(pow256(6) == 0x1000000000000);
        assert(pow256(7) == 0x100000000000000);
        assert(pow256(8) == 0x10000000000000000);
        assert(pow256(9) == 0x1000000000000000000);
        assert(pow256(10) == 0x100000000000000000000);
        assert(pow256(11) == 0x10000000000000000000000);
        assert(pow256(12) == 0x1000000000000000000000000);
        assert(pow256(13) == 0x100000000000000000000000000);
        assert(pow256(14) == 0x10000000000000000000000000000);
        assert(pow256(15) == 0x1000000000000000000000000000000);
    }
}

/// `256^i` grows with `i`.
proof fn lemma_pow256_mono(i: nat, j: nat)
    requires
        i <= j,
    ensures
        pow256(i) <= pow256(j),
    decreases j,
{
    if i < j {
        lemma_pow256_mono(i, (j - 1) as nat);
        lemma_pow256_positive((j - 1) as nat);
    }
}

/// The UUID of an offline-mode player: the first 16 bytes of the SHA-256
/// digest of their name, read big-endian.
pub fn offline_uuid(username: &str) -> (u: u128)
    ensures
        u == digits_value(sha256(username.spec_bytes()).take(16), 256),
{
    let digest = sha256_digest(username.as_bytes());
    uuid_from_digest(digest.as_slice())
}

// ---------------------------------------------------------------------
// Online-mode login
// ---------------------------------------------------------------------

/// The SHA-1 digest of `data`.
pub uninterp spec fn sha1(data: Seq<u8>) -> Seq<u8>;

/// The SHA-1 digest of `data`, from `sha1::Sha1::digest`. The contract
/// names the digest and claims only its length of 20 bytes.
#[verifier::external_body]
fn sha1_digest(data: &[u8]) -> (d: Vec<u8>)
    ensures
        d@ == sha1(data@),
        d@.len() == 20,
{
    sha1::Sha1::digest(data).to_vec()
}

/// The server hash that the session server is asked about: the server hash
/// (see [`spec_auth_digest`]) of the SHA-1 digest of the shared secret
/// followed by the server's public key in DER.
pub fn session_hash(shared_secret: &[u8], public_key_der: &[u8]) -> (s: String)
    ensures
        s@ == spec_auth_digest(sha1(shared_secret@ + public_key_der@)),
{
    let mut data: Vec<u8> = Vec::new();
    let mut i: usize = 0;
    while i < shared_secret.len()
        invariant
            i <= shared_secret.len(),
            data@ == shared_secret@.take(i as int),
        decreases shared_secret.len() - i,
    {
        data.push(shared_secret[i]);
        i = i + 1;
        assert(data@ =~= shared_secret@.take(i as int));
    }
    let mut j: usize = 0;
    while j < public_key_der.len()
        invariant
            j <= public_key_der.len(),
            data@ == shared_secret@ + public_key_der@.take(j as int),
        decreases public_key_der.len() - j,
    {
        proof {
            assert(shared_secret@.take(shared_secret.len() as int) =~= shared_secret@);
        }
        data.push(public_key_der[j]);
        j = j + 1;
        assert(data@ =~= shared_secret@ + public_key_der@.take(j as int));
    }
    proof {
        assert(shared_secret@.take(shared_secret.len() as int) =~= shared_secret@);
        assert(public_key_der@.take(public_key_der.len() as int) =~= public_key_der@);
        assert(data@ =~= shared_secret@ + public_key_der@);
    }
    let digest = sha1_digest(data.as_slice());
    auth_digest(digest.as_slice())
}

/// Why the encryption key a client sent is refused.
#[derive(Clone, Copy, Debug, PartialEq, Eq, Structural)]
pub enum LoginKeyError {
    /// The shared secret could not be decrypted.
    SecretNotDecrypted,
    /// The verify token could not be decrypted.
    TokenNotDecrypted,
    /// The verify token is not the one the server sent.
    TokenMismatch,
    /// The shared secret is not 16 bytes long.
    SecretLength,
}

/// What a client's encryption key gives, from the decrypted shared secret
/// and verify token (`None` where one could not be decrypted) and the token
/// the server sent: the 16-byte key, or the first thing wrong of: the
/// secret not decrypted, the token not decrypted, the token not the one
/// sent, the secret not 16 bytes long.
pub open spec fn spec_login_key(
    sent_token: Seq<u8>,
    secret: Option<Seq<u8>>,
    token: Option<Seq<u8>>,
) -> Result<Seq<u8>, LoginKeyError> {
    match secret {
        None => Err(LoginKeyError::SecretNotDecrypted),
        Some(s) => match token {
            None => Err(LoginKeyError::TokenNotDecrypted),
            Some(t) => if t != sent_token {
                Err(LoginKeyError::TokenMismatch)
            } else if s.len() != 16 {
                Err(LoginKeyError::SecretLength)
            } else {
                Ok(s)
            },
        },
    }
}

pub open spec fn opt_bytes(v: Option<Vec<u8>>) -> Option<Seq<u8>> {
    match v {
        Some(b) => Some(b@),
        None => None,
    }
}

pub open spec fn key_result(r: Result<Vec<u8>, LoginKeyError>) -> Result<Seq<u8>, LoginKeyError> {
    match r {
        Ok(k) => Ok(k@),
        Err(e) => Err(e),
    }
}

fn bytes_equal(a: &[u8], b: &[u8]) -> (r: bool)
    ensures
        r == (a@ == b@),
{
    if a.len() != b.len() {
        return false;
    }
    let mut i: usize = 0;
    while i < a.len()
        invariant
            i <= a.len(),
            a.len() == b.len(),
            forall|j: int| 0 <= j < i ==> a@[j] == b@[j],
        decreases a.len() - i,
    {
        if a[i] != b[i] {
            return false;
        }
        i = i + 1;
    }
    assert(a@ =~= b@);
    true
}

/// What a client's encryption key gives (see [`spec_login_key`]).
pub fn check_login_key(sent_token: &[u8], secret: Option<Vec<u8>>, token: Option<Vec<u8>>) -> (r: Result<
    Vec<u8>,
    LoginKeyError,
>)
    ensures
        key_result(r) == spec_login_key(sent_token@, opt_bytes(secret), opt_bytes(token)),
{
    let s = match secret {
        Some(s) => s,
        None => return Err(LoginKeyError::SecretNotDecrypted),
    };
    let t = match token {
        Some(t) => t,
        None => return Err(LoginKeyError::TokenNotDecrypted),
    };
    if !bytes_equal(t.as_slice(), sent_token) {
        return Err(LoginKeyError::TokenMismatch);
    }
    if s.len() != 16 {
        return Err(LoginKeyError::SecretLength);
    }
    Ok(s)
}

/// What PKCS#1 v1.5 decryption gives of `data` with the RSA private key
/// whose PKCS#8 DER encoding is `key_der`: the plaintext, or `None`.
pub uninterp spec fn rsa_pkcs1v15_decrypt(key_der: Seq<u8>, data: Seq<u8>) -> Option<Seq<u8>>;

/// `rsa::RsaPrivateKey::from_pkcs8_der` then `RsaPrivateKey::decrypt` with
/// PKCS#1 v1.5 padding (no blinding, so no randomness): the plaintext,
/// `None` where the key does not decode or decryption fails. The contract
/// names the result, a function of the key's bytes and the data alone.
#[verifier::external_body]
fn rsa_decrypt(key_der: &[u8], data: &[u8]) -> (r: Option<Vec<u8>>)
    ensures
        opt_bytes(r) == rsa_pkcs1v15_decrypt(key_der@, data@),
{
    let key = rsa::RsaPrivateKey::from_pkcs8_der(key_der).ok()?;
    key.decrypt(rsa::Pkcs1v15Encrypt, data).ok()
}

/// Decrypts the shared secret and verify token a client sent with the
/// server's key (given by its PKCS#8 DER encoding) and checks them against
/// the token the server sent (see [`spec_login_key`]).
pub fn decrypt_login_key(
    key_der: &[u8],
    sent_token: &[u8],
    encrypted_secret: &[u8],
    encrypted_token: &[u8],
) -> (r: Result<Vec<u8>, LoginKeyError>)
    ensures
        key_result(r) == spec_login_key(
            sent_token@,
            rsa_pkcs1v15_decrypt(key_der@, encrypted_secret@),
            rsa_pkcs1v15_decrypt(key_der@, encrypted_token@),
        ),
{
    let secret = rsa_decrypt(key_der, encrypted_secret);
    let token = rsa_decrypt(key_der, encrypted_token);
    check_login_key(sent_token, secret, token)
}

/// What the server does with the session server's answer to a login.
#[derive(Clone, Copy, Debug, PartialEq, Eq, Structural)]
pub enum SessionAnswer {
    /// 200: the profile in the answer is read.
    Verified,
    /// 204: the player is told that their name could not be verified.
    Unverified,
    /// Any other status: the login fails.
    Failed,
}

/// What the server does with an HTTP status of the session server.
pub fn session_answer(status: u16) -> (a: SessionAnswer)
    ensures
        a == (if status == 200 {
            SessionAnswer::Verified
        } else if status == 204 {
            SessionAnswer::Unverified
        } else {
            SessionAnswer::Failed
        }),
{
    if status == 200 {
        SessionAnswer::Verified
    } else if status == 204 {
        SessionAnswer::Unverified
    } else {
        SessionAnswer::Failed
    }
}

} // verus!
