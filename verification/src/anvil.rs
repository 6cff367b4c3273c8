//! Chunk sections in the Anvil region layout: the palette of the distinct
//! values of a section, and the index of each value packed into 64-bit words.
use vstd::prelude::*;
use crate::registry::BiomeId;
use crate::villager::trunc_div;
use crate::world::{spec_default_state, BlockKind, BlockState};

verus! {

/// `2^e`.
pub open spec fn two_pow(e: nat) -> nat
    decreases e,
{
    if e == 0 {
        1
    } else {
        2 * two_pow((e - 1) as nat)
    }
}

/// The number of binary digits of `n` (none for zero).
pub open spec fn bit_len(n: nat) -> nat
    decreases n,
{
    if n == 0 {
        0
    } else {
        1 + bit_len(n / 2)
    }
}

/// `ceil(log2(n))`: the least `k` with `n <= 2^k` (0 for `n <= 1`).
pub open spec fn spec_ceil_log2(n: nat) -> nat {
    if n <= 1 {
        0
    } else {
        bit_len((n - 1) as nat)
    }
}

proof fn lemma_two_pow_monotone(a: nat, b: nat)
    requires
        a <= b,
    ensures
        two_pow(a) <= two_pow(b),
    decreases b,
{
    if a < b {
        lemma_two_pow_monotone(a, (b - 1) as nat);
    }
}

/// A positive `m` has `bit_len(m)` digits: `2^(bit_len(m) - 1) <= m < 2^bit_len(m)`.
pub proof fn lemma_bit_len_bounds(m: nat)
    requires
        m > 0,
    ensures
        bit_len(m) >= 1,
        two_pow((bit_len(m) - 1) as nat) <= m,
        m < two_pow(bit_len(m)),
    decreases m,
{
    if m == 1 {
        reveal_with_fuel(bit_len, 2);
        reveal_with_fuel(two_pow, 2);
    } else {
        lemma_bit_len_bounds(m / 2);
        let b = bit_len(m / 2);
        assert(bit_len(m) == 1 + b);
        assert(two_pow(b + 1) == 2 * two_pow(b));
        assert(two_pow(b) == 2 * two_pow((b - 1) as nat));
    }
}

/// For `n >= 2`, `r = ceil_log2(n)` is the least `r` with `n <= 2^r`.
pub proof fn lemma_ceil_log2_bounds(n: nat)
    requires
        n >= 2,
    ensures
        spec_ceil_log2(n) >= 1,
        two_pow((spec_ceil_log2(n) - 1) as nat) < n,
        n <= two_pow(spec_ceil_log2(n)),
{
    lemma_bit_len_bounds((n - 1) as nat);
}

/// `ceil_log2(n)` is the least `k` with `n <= 2^k`.
pub proof fn lemma_ceil_log2_least(n: nat)
    ensures
        n <= two_pow(spec_ceil_log2(n)),
        spec_ceil_log2(n) > 0 ==> two_pow((spec_ceil_log2(n) - 1) as nat) < n,
{
    if n >= 2 {
        lemma_ceil_log2_bounds(n);
    } else {
        assert(two_pow(0) == 1);
    }
}

proof fn lemma_two_pow_64()
    ensures
        two_pow(64) == 0x1_0000_0000_0000_0000,
{
    reveal_with_fuel(two_pow, 65);
}

/// `ceil(log2(n))` (see [`spec_ceil_log2`]).
pub fn ceil_log2(n: u64) -> (r: u32)
    ensures
        r == spec_ceil_log2(n as nat),
        r <= 64,
{
    if n <= 1 {
        return 0;
    }
    let mut m: u64 = n - 1;
    let mut bits: u32 = 0;
    proof {
        lemma_two_pow_64();
    }
    while m > 0
        invariant
            bits <= 64,
            bits + bit_len(m as nat) == bit_len((n - 1) as nat),
            (m as nat) < two_pow((64 - bits) as nat),
        decreases m,
    {
        if bits == 64 {
            assert(two_pow(0) == 1);
            assert(false);
        }
        assert(two_pow((64 - bits) as nat) == 2 * two_pow((64 - bits - 1) as nat));
        m = m / 2;
        bits = bits + 1;
    }
    proof {
        lemma_bit_len_bounds((n - 1) as nat);
    }
    bits
}

/// The low `bw` bits set.
pub open spec fn low_mask(bw: u32) -> u64 {
    ((1u64 << bw) - 1u64) as u64
}

/// How many fields of `bw` bits one 64-bit word holds.
pub open spec fn fields_per_word(bw: u32) -> nat {
    (64u32 / bw) as nat
}

/// The word whose field `k` (for `k < count`), at bit `k * bw`, holds the low
/// `bw` bits of `indices[start + k]`; fields past the end of `indices` are 0.
pub open spec fn packed_word(indices: Seq<u64>, start: int, count: nat, bw: u32) -> u64
    decreases count,
{
    if count == 0 {
        0
    } else {
        let k = (count - 1) as nat;
        let prev = packed_word(indices, start, k, bw);
        if 0 <= start + k < indices.len() {
            prev | ((indices[start + k] & low_mask(bw)) << ((k * bw) as u32))
        } else {
            prev
        }
    }
}

proof fn lemma_mask_pos(bw: u32)
    by (bit_vector)
    requires
        1 <= bw <= 63,
    ensures
        (1u64 << bw) >= 1u64,
{
}

proof fn lemma_field_new(a: u64, x: u64, s: u32, bw: u32)
    by (bit_vector)
    requires
        1 <= bw <= 63,
        s + bw <= 64,
        a < (1u64 << s),
    ensures
        ((a | ((x & (((1u64 << bw) - 1u64) as u64)) << s)) >> s) & (((1u64 << bw) - 1u64) as u64)
            == x & (((1u64 << bw) - 1u64) as u64),
{
}

proof fn lemma_field_old(a: u64, x: u64, s: u32, t: u32, bw: u32)
    by (bit_vector)
    requires
        1 <= bw <= 63,
        t + bw <= s,
        s < 64,
        a < (1u64 << s),
    ensures
        ((a | ((x & (((1u64 << bw) - 1u64) as u64)) << s)) >> t) & (((1u64 << bw) - 1u64) as u64)
            == (a >> t) & (((1u64 << bw) - 1u64) as u64),
{
}

proof fn lemma_field_bound(a: u64, x: u64, s: u32, bw: u32)
    by (bit_vector)
    requires
        1 <= bw <= 63,
        s + bw < 64,
        a < (1u64 << s),
    ensures
        (a | ((x & (((1u64 << bw) - 1u64) as u64)) << s)) < (1u64 << ((s + bw) as u32)),
{
}

proof fn lemma_shift_monotone(s: u32, t: u32)
    by (bit_vector)
    requires
        s <= t < 64,
    ensures
        (1u64 << s) <= (1u64 << t),
{
}

proof fn lemma_fields_per_word_pos(bw: u32)
    requires
        1 <= bw <= 63,
    ensures
        fields_per_word(bw) >= 1,
{
    assert(64int / (bw as int) >= 1) by (nonlinear_arith)
        requires
            1 <= bw <= 63,
    ;
}

proof fn lemma_fields_fit(k: nat, bw: u32)
    requires
        1 <= bw <= 63,
        k < fields_per_word(bw),
    ensures
        k * bw + bw <= 64,
{
    let q = 64int / (bw as int);
    assert(q * bw <= 64) by (nonlinear_arith)
        requires
            q == 64int / (bw as int),
            bw >= 1,
    ;
    assert(k * bw + bw <= q * bw) by (nonlinear_arith)
        requires
            k + 1 <= q,
            bw >= 1,
    ;
}

/// A word of `count` fields uses only its low `count * bw` bits.
proof fn lemma_packed_word_bound(indices: Seq<u64>, start: int, count: nat, bw: u32)
    requires
        1 <= bw <= 63,
        count * bw < 64,
    ensures
        packed_word(indices, start, count, bw) < (1u64 << ((count * bw) as u32)),
    decreases count,
{
    if count == 0 {
        assert(0u64 < (1u64 << 0u32)) by (bit_vector);
        assert(count * bw == 0) by (nonlinear_arith)
            requires
                count == 0,
        ;
    } else {
        let k = (count - 1) as nat;
        assert(k * bw + bw == count * bw) by (nonlinear_arith)
            requires
                k + 1 == count,
        ;
        lemma_packed_word_bound(indices, start, k, bw);
        let prev = packed_word(indices, start, k, bw);
        let s = (k * bw) as u32;
        assert((s + bw) as u32 == (count * bw) as u32);
        if 0 <= start + k < indices.len() {
            lemma_field_bound(prev, indices[start + k], s, bw);
        } else {
            lemma_shift_monotone(s, (count * bw) as u32);
        }
    }
}

/// Reading field `k` of a packed word gives back the low `bw` bits of the
/// index packed there.
pub proof fn lemma_packed_field(indices: Seq<u64>, start: int, count: nat, bw: u32, k: nat)
    requires
        1 <= bw <= 63,
        count * bw <= 64,
        k < count,
        0 <= start + k < indices.len(),
    ensures
        (packed_word(indices, start, count, bw) >> ((k * bw) as u32)) & low_mask(bw)
            == indices[start + k] & low_mask(bw),
    decreases count,
{
    let c = (count - 1) as nat;
    assert(c * bw + bw == count * bw) by (nonlinear_arith)
        requires
            c + 1 == count,
    ;
    assert(k * bw + bw <= c * bw + bw) by (nonlinear_arith)
        requires
            k <= c,
    ;
    lemma_packed_word_bound(indices, start, c, bw);
    let prev = packed_word(indices, start, c, bw);
    let s = (c * bw) as u32;
    if k == c {
        lemma_field_new(prev, indices[start + k], s, bw);
    } else {
        lemma_packed_field(indices, start, c, bw, k);
        if 0 <= start + c < indices.len() {
            assert(k * bw + bw <= c * bw) by (nonlinear_arith)
                requires
                    k + 1 <= c,
            ;
            lemma_field_old(prev, indices[start + c], s, (k * bw) as u32, bw);
        }
    }
}

/// `ceil(n / d)`.
pub open spec fn ceil_div(n: nat, d: nat) -> nat {
    ((n + d - 1) / (d as int)) as nat
}

/// The words that `pack_indices` makes of `indices`.
pub open spec fn spec_pack(indices: Seq<u64>, bw: u32) -> Seq<i64> {
    let vpl = fields_per_word(bw);
    Seq::new(
        ceil_div(indices.len(), vpl),
        |j: int| packed_word(indices, j * vpl, vpl, bw) as i64,
    )
}

proof fn lemma_ceil_div(n: nat, d: nat, l: nat)
    requires
        d >= 1,
        l * d >= n,
        l == 0 || (l - 1) * d < n,
    ensures
        l == ceil_div(n, d),
{
    let m = (n + d - 1) as int;
    let q = m / (d as int);
    let r = m % (d as int);
    assert(m == q * d + r && 0 <= r < d) by (nonlinear_arith)
        requires
            d >= 1,
            q == m / (d as int),
            r == m % (d as int),
    ;
    if q > l {
        assert(q * d >= l * d + d) by (nonlinear_arith)
            requires
                q >= l + 1,
                d >= 1,
        ;
    }
    if q < l {
        assert(q * d <= (l - 1) * d) by (nonlinear_arith)
            requires
                q <= l - 1,
                d >= 1,
        ;
    }
}

/// Packs each index into `bit_width` bits, `64 / bit_width` of them to a word,
/// the first in the lowest bits; the last word is filled up with zeros.
pub fn pack_indices(indices: &[u64], bit_width: u32) -> (packed: Vec<i64>)
    requires
        1 <= bit_width <= 63,
    ensures
        packed.len() * fields_per_word(bit_width) >= indices.len(),
        packed.len() == 0 || (packed.len() - 1) * fields_per_word(bit_width) < indices.len(),
        forall|j: int|
            0 <= j < packed.len() ==> #[trigger] packed[j] == packed_word(
                indices@,
                j * fields_per_word(bit_width),
                fields_per_word(bit_width),
                bit_width,
            ) as i64,
        packed@ == spec_pack(indices@, bit_width),
{
    let values_per_long: u32 = 64 / bit_width;
    proof {
        lemma_mask_pos(bit_width);
    }
    let mask: u64 = (1u64 << bit_width) - 1;
    let len = indices.len();
    let ghost vpl = fields_per_word(bit_width);
    proof {
        lemma_fields_per_word_pos(bit_width);
    }
    let mut packed: Vec<i64> = Vec::new();
    assert(packed.len() * vpl == 0) by (nonlinear_arith)
        requires
            packed.len() == 0,
    ;
    let mut start: usize = 0;
    while start < len
        invariant
            1 <= bit_width <= 63,
            values_per_long == vpl,
            vpl == fields_per_word(bit_width),
            vpl >= 1,
            mask == low_mask(bit_width),
            len == indices.len(),
            start <= len,
            packed.len() * vpl >= start,
            start < len ==> start == packed.len() * vpl,
            packed.len() == 0 || (packed.len() - 1) * vpl < len,
            forall|j: int|
                0 <= j < packed.len() ==> #[trigger] packed[j] == packed_word(
                    indices@,
                    j * vpl,
                    vpl,
                    bit_width,
                ) as i64,
        decreases len - start,
    {
        let mut word: u64 = 0;
        let mut k: u32 = 0;
        while k < values_per_long
            invariant
                1 <= bit_width <= 63,
                values_per_long == vpl,
                vpl == fields_per_word(bit_width),
                mask == low_mask(bit_width),
                len == indices.len(),
                start < len,
                k <= vpl,
                word == packed_word(indices@, start as int, k as nat, bit_width),
            decreases vpl - k,
        {
            proof {
                lemma_fields_fit(k as nat, bit_width);
            }
            if (k as usize) < len - start {
                word = word | ((indices[start + k as usize] & mask) << (k * bit_width));
            }
            k = k + 1;
        }
        let ghost n = packed.len();
        packed.push(word as i64);
        assert((n + 1) * vpl == n * vpl + vpl) by (nonlinear_arith);
        assert(forall|j: int|
            0 <= j < packed.len() ==> #[trigger] packed[j] == packed_word(
                indices@,
                j * vpl,
                vpl,
                bit_width,
            ) as i64);
        if len - start > values_per_long as usize {
            start = start + values_per_long as usize;
        } else {
            start = len;
        }
    }
    proof {
        lemma_ceil_div(indices@.len(), vpl, packed.len() as nat);
        assert(packed@ =~= spec_pack(indices@, bit_width));
    }
    packed
}

/// Reading the fields of what `pack_indices` returned gives back the low
/// `bit_width` bits of each index, in order.
pub proof fn lemma_pack_unpack(indices: Seq<u64>, bit_width: u32, packed: Seq<i64>, i: int)
    requires
        1 <= bit_width <= 63,
        forall|j: int|
            0 <= j < packed.len() ==> #[trigger] packed[j] == packed_word(
                indices,
                j * fields_per_word(bit_width),
                fields_per_word(bit_width),
                bit_width,
            ) as i64,
        packed.len() * fields_per_word(bit_width) >= indices.len(),
        0 <= i < indices.len(),
    ensures
        0 <= i / (fields_per_word(bit_width) as int) < packed.len(),
        ((packed[i / (fields_per_word(bit_width) as int)] as u64) >> (((i % (fields_per_word(
            bit_width,
        ) as int)) * bit_width) as u32)) & low_mask(bit_width) == indices[i] & low_mask(
            bit_width,
        ),
{
    let vpl = fields_per_word(bit_width) as int;
    lemma_fields_per_word_pos(bit_width);
    let j = i / vpl;
    let k = i % vpl;
    assert(i == j * vpl + k && 0 <= k < vpl) by (nonlinear_arith)
        requires
            vpl >= 1,
            j == i / vpl,
            k == i % vpl,
    ;
    assert(0 <= j < packed.len()) by (nonlinear_arith)
        requires
            i == j * vpl + k,
            0 <= k < vpl,
            0 <= i < packed.len() * vpl,
            vpl >= 1,
    ;
    let w = packed_word(indices, j * vpl, vpl as nat, bit_width);
    assert((w as i64) as u64 == w) by (bit_vector);
    assert(vpl * bit_width <= 64) by (nonlinear_arith)
        requires
            vpl == 64int / (bit_width as int),
            bit_width >= 1,
    ;
    lemma_packed_field(indices, j * vpl, vpl as nat, bit_width, k as nat);
}

/// The distinct values of `s`, in the order in which each first occurs.
pub open spec fn palette_of<T>(s: Seq<T>) -> Seq<T>
    decreases s.len(),
{
    if s.len() == 0 {
        Seq::empty()
    } else {
        let p = palette_of(s.drop_last());
        if p.contains(s.last()) {
            p
        } else {
            p.push(s.last())
        }
    }
}

/// The position of the first `x` in `p`.
pub open spec fn first_index<T>(p: Seq<T>, x: T) -> int
    decreases p.len(),
{
    if p.len() == 0 || p[0] == x {
        0
    } else {
        1 + first_index(p.drop_first(), x)
    }
}

/// The position of each value of `s` in its palette.
pub open spec fn palette_indices<T>(s: Seq<T>) -> Seq<u64> {
    Seq::new(s.len(), |i: int| first_index(palette_of(s), s[i]) as u64)
}

pub open spec fn no_duplicates<T>(p: Seq<T>) -> bool {
    forall|a: int, b: int| 0 <= a < b < p.len() ==> p[a] != p[b]
}

/// A palette holds each value of `s` once, and nothing else; it is no longer
/// than `s`.
pub proof fn lemma_palette_props<T>(s: Seq<T>)
    ensures
        no_duplicates(palette_of(s)),
        forall|x: T| palette_of(s).contains(x) <==> s.contains(x),
        palette_of(s).len() <= s.len(),
    decreases s.len(),
{
    if s.len() > 0 {
        let t = s.drop_last();
        let l = s.last();
        let p = palette_of(t);
        lemma_palette_props(t);
        assert forall|x: T| s.contains(x) <==> (t.contains(x) || x == l) by {
            if s.contains(x) {
                let i = choose|i: int| 0 <= i < s.len() && s[i] == x;
                if i < s.len() - 1 {
                    assert(t[i] == x);
                }
            }
            if t.contains(x) {
                let i = choose|i: int| 0 <= i < t.len() && t[i] == x;
                assert(s[i] == x);
            }
            if x == l {
                assert(s[s.len() - 1] == x);
            }
        }
        if !p.contains(l) {
            assert forall|x: T| p.push(l).contains(x) <==> (p.contains(x) || x == l) by {
                if p.push(l).contains(x) {
                    let i = choose|i: int| 0 <= i < p.push(l).len() && p.push(l)[i] == x;
                    if i < p.len() {
                        assert(p[i] == x);
                    }
                }
                if p.contains(x) {
                    let i = choose|i: int| 0 <= i < p.len() && p[i] == x;
                    assert(p.push(l)[i] == x);
                }
                if x == l {
                    assert(p.push(l)[p.len() as int] == x);
                }
            }
            assert forall|a: int, b: int| 0 <= a < b < p.push(l).len() implies p.push(l)[a] != p.push(
                l,
            )[b] by {
                if b == p.len() {
                    assert(p[a] == p.push(l)[a]);
                }
            }
        }
    }
}

proof fn lemma_first_index<T>(p: Seq<T>, x: T, k: int)
    requires
        no_duplicates(p),
        0 <= k < p.len(),
        p[k] == x,
    ensures
        first_index(p, x) == k,
    decreases p.len(),
{
    if k > 0 {
        assert(p[0] != x);
        lemma_first_index(p.drop_first(), x, k - 1);
    }
}

/// Each index of what `block_palette` or `biome_palette` returns points back
/// at the value it was made from.
pub proof fn lemma_palette_indices<T>(s: Seq<T>, i: int)
    requires
        0 <= i < s.len(),
        s.len() <= u64::MAX,
    ensures
        0 <= palette_indices(s)[i] < palette_of(s).len(),
        palette_of(s)[palette_indices(s)[i] as int] == s[i],
{
    lemma_palette_props(s);
    assert(s.contains(s[i]));
    let k = choose|k: int| 0 <= k < palette_of(s).len() && palette_of(s)[k] == s[i];
    lemma_first_index(palette_of(s), s[i], k);
}

proof fn lemma_palette_step<T>(s: Seq<T>, i: int)
    requires
        0 <= i < s.len(),
    ensures
        palette_of(s.take(i + 1)) == (if palette_of(s.take(i)).contains(s[i]) {
            palette_of(s.take(i))
        } else {
            palette_of(s.take(i)).push(s[i])
        }),
{
    assert(s.take(i + 1).drop_last() =~= s.take(i));
}

proof fn lemma_indices_final<T>(s: Seq<T>, p: Seq<T>, ix: Seq<u64>)
    requires
        p == palette_of(s),
        s.len() <= u64::MAX,
        ix.len() == s.len(),
        forall|j: int| 0 <= j < s.len() ==> #[trigger] ix[j] < p.len() && p[ix[j] as int] == s[j],
    ensures
        ix == palette_indices(s),
{
    lemma_palette_props(s);
    assert forall|j: int| 0 <= j < s.len() implies ix[j] == palette_indices(s)[j] by {
        lemma_first_index(p, s[j], ix[j] as int);
    }
    assert(ix =~= palette_indices(s));
}

fn find_block_state(palette: &Vec<BlockState>, state: BlockState) -> (p: usize)
    ensures
        p <= palette.len(),
        p < palette.len() ==> palette@[p as int] == state,
        p == palette.len() ==> !palette@.contains(state),
{
    let mut p: usize = 0;
    while p < palette.len() && palette[p] != state
        invariant
            p <= palette.len(),
            forall|q: int| 0 <= q < p ==> palette@[q] != state,
        decreases palette.len() - p,
    {
        p = p + 1;
    }
    p
}

fn find_biome(palette: &Vec<BiomeId>, biome: BiomeId) -> (p: usize)
    ensures
        p <= palette.len(),
        p < palette.len() ==> palette@[p as int] == biome,
        p == palette.len() ==> !palette@.contains(biome),
{
    let mut p: usize = 0;
    while p < palette.len() && palette[p] != biome
        invariant
            p <= palette.len(),
            forall|q: int| 0 <= q < p ==> palette@[q] != biome,
        decreases palette.len() - p,
    {
        p = p + 1;
    }
    p
}

/// The palette of a section's block states, and each state's position in it.
pub fn block_palette(states: &Vec<BlockState>) -> (res: (Vec<BlockState>, Vec<u64>))
    ensures
        res.0@ == palette_of(states@),
        res.1@ == palette_indices(states@),
{
    let mut palette: Vec<BlockState> = Vec::new();
    let mut indices: Vec<u64> = Vec::new();
    let mut i: usize = 0;
    assert(states@.take(0) =~= Seq::<BlockState>::empty());
    while i < states.len()
        invariant
            i <= states.len(),
            palette@ == palette_of(states@.take(i as int)),
            no_duplicates(palette@),
            palette.len() <= i,
            indices.len() == i,
            forall|j: int|
                0 <= j < i ==> #[trigger] indices@[j] < palette@.len() && palette@[indices@[j] as int]
                    == states@[j],
        decreases states.len() - i,
    {
        let state = states[i];
        let p = find_block_state(&palette, state);
        proof {
            lemma_palette_step(states@, i as int);
        }
        let ghost old_palette = palette@;
        if p == palette.len() {
            assert(!palette@.contains(state));
            palette.push(state);
        } else {
            assert(palette@.contains(state));
        }
        assert(palette@[p as int] == state);
        let ghost old_indices = indices@;
        indices.push(p as u64);
        assert forall|j: int| 0 <= j < i + 1 implies indices@[j] < palette@.len()
            && palette@[indices@[j] as int] == states@[j] by {
            if j < i {
                assert(indices@[j] == old_indices[j]);
                assert(palette@[old_indices[j] as int] == old_palette[old_indices[j] as int]);
            }
        }
        i = i + 1;
    }
    proof {
        assert(states@.take(states.len() as int) =~= states@);
        lemma_indices_final(states@, palette@, indices@);
    }
    (palette, indices)
}

/// The palette of a section's biomes, and each biome's position in it.
pub fn biome_palette(biomes: &Vec<BiomeId>) -> (res: (Vec<BiomeId>, Vec<u64>))
    ensures
        res.0@ == palette_of(biomes@),
        res.1@ == palette_indices(biomes@),
{
    let mut palette: Vec<BiomeId> = Vec::new();
    let mut indices: Vec<u64> = Vec::new();
    let mut i: usize = 0;
    assert(biomes@.take(0) =~= Seq::<BiomeId>::empty());
    while i < biomes.len()
        invariant
            i <= biomes.len(),
            palette@ == palette_of(biomes@.take(i as int)),
            no_duplicates(palette@),
            palette.len() <= i,
            indices.len() == i,
            forall|j: int|
                0 <= j < i ==> #[trigger] indices@[j] < palette@.len() && palette@[indices@[j] as int]
                    == biomes@[j],
        decreases biomes.len() - i,
    {
        let biome = biomes[i];
        let p = find_biome(&palette, biome);
        proof {
            lemma_palette_step(biomes@, i as int);
        }
        let ghost old_palette = palette@;
        if p == palette.len() {
            assert(!palette@.contains(biome));
            palette.push(biome);
        } else {
            assert(palette@.contains(biome));
        }
        assert(palette@[p as int] == biome);
        let ghost old_indices = indices@;
        indices.push(p as u64);
        assert forall|j: int| 0 <= j < i + 1 implies indices@[j] < palette@.len()
            && palette@[indices@[j] as int] == biomes@[j] by {
            if j < i {
                assert(indices@[j] == old_indices[j]);
                assert(palette@[old_indices[j] as int] == old_palette[old_indices[j] as int]);
            }
        }
        i = i + 1;
    }
    proof {
        assert(biomes@.take(biomes.len() as int) =~= biomes@);
        lemma_indices_final(biomes@, palette@, indices@);
    }
    (palette, indices)
}

/// The blocks and biomes of a chunk column, section by section from the
/// bottom. A section holds its 16×16×16 block states in `(y * 16 + z) * 16 + x`
/// order and the biomes of its 4×4×4 cells in `(y * 4 + z) * 4 + x` order.
#[derive(Debug)]
pub struct LoadedChunk {
    blocks: Vec<BlockState>,
    biomes: Vec<BiomeId>,
    section_count: usize,
}

impl LoadedChunk {
    pub closed spec fn spec_section_count(&self) -> nat {
        self.section_count as nat
    }

    /// The column's invariant: `section_count` sections of blocks and of
    /// biome cells.
    #[verifier::type_invariant]
    pub closed spec fn wf(&self) -> bool {
        &&& self.blocks.len() == self.section_count * 4096
        &&& self.biomes.len() == self.section_count * 64
    }

    /// The block states of section `s`, in `(y * 16 + z) * 16 + x` order.
    pub closed spec fn section_blocks(&self, s: int) -> Seq<BlockState> {
        self.blocks@.subrange(s * 4096, s * 4096 + 4096)
    }

    /// The biomes of section `s`, in `(y * 4 + z) * 4 + x` order.
    pub closed spec fn section_biomes(&self, s: int) -> Seq<BiomeId> {
        self.biomes@.subrange(s * 64, s * 64 + 64)
    }

    /// The block at column-local `(x, y, z)`.
    pub open spec fn block_at(&self, x: int, y: int, z: int) -> BlockState {
        self.section_blocks(y / 16)[((y % 16) * 16 + z) * 16 + x]
    }

    /// The biome of the 4×4×4 cell at `(x, y, z)` (in cells).
    pub open spec fn biome_at(&self, x: int, y: int, z: int) -> BiomeId {
        self.section_biomes(y / 4)[((y % 4) * 4 + z) * 4 + x]
    }

    /// A column of `section_count` sections of air in the first biome.
    pub fn new(section_count: usize) -> (r: Self)
        requires
            section_count * 4096 <= usize::MAX,
        ensures
            r.spec_section_count() == section_count,
            forall|s: int, k: int|
                0 <= s < section_count && 0 <= k < 4096 ==> #[trigger] r.section_blocks(s)[k]
                    == spec_default_state(BlockKind::Air),
            forall|s: int, k: int|
                0 <= s < section_count && 0 <= k < 64 ==> #[trigger] r.section_biomes(s)[k].spec_index()
                    == 0,
    {
        let air = BlockState::default_of(BlockKind::Air);
        let mut blocks: Vec<BlockState> = Vec::new();
        let nb = section_count * 4096;
        while blocks.len() < nb
            invariant
                blocks.len() <= nb,
                forall|k: int| 0 <= k < blocks.len() ==> blocks@[k] == air,
            decreases nb - blocks.len(),
        {
            blocks.push(air);
        }
        let plains = BiomeId::default();
        let mut biomes: Vec<BiomeId> = Vec::new();
        let nm = section_count * 64;
        while biomes.len() < nm
            invariant
                biomes.len() <= nm,
                forall|k: int| 0 <= k < biomes.len() ==> biomes@[k] == plains,
            decreases nm - biomes.len(),
        {
            biomes.push(plains);
        }
        LoadedChunk { blocks, biomes, section_count }
    }

    pub fn section_count(&self) -> (r: usize)
        ensures
            r == self.spec_section_count(),
    {
        self.section_count
    }

    /// The block at column-local `(x, y, z)`.
    pub fn block_state(&self, x: u32, y: u32, z: u32) -> (r: BlockState)
        requires
            x < 16,
            z < 16,
            y < self.spec_section_count() * 16,
        ensures
            r == self.block_at(x as int, y as int, z as int),
    {
        proof {
            use_type_invariant(self);
        }
        let s = (y / 16) as usize;
        let k = (((y % 16) * 16 + z) * 16 + x) as usize;
        self.blocks[s * 4096 + k]
    }

    /// Sets the block at column-local `(x, y, z)`; every other block stays.
    pub fn set_block_state(&mut self, x: u32, y: u32, z: u32, state: BlockState)
        requires
            x < 16,
            z < 16,
            y < old(self).spec_section_count() * 16,
        ensures
            final(self).spec_section_count() == old(self).spec_section_count(),
            final(self).section_blocks((y / 16) as int) == old(self).section_blocks(
                (y / 16) as int,
            ).update(((y % 16) * 16 + z) * 16 + x, state),
            forall|s: int|
                0 <= s < old(self).spec_section_count() && s != y / 16 ==> #[trigger] final(self).section_blocks(s) == old(self).section_blocks(s),
            forall|s: int|
                0 <= s < old(self).spec_section_count() ==> #[trigger] final(self).section_biomes(s)
                    == old(self).section_biomes(s),
    {
        proof {
            use_type_invariant(&*self);
        }
        let s = (y / 16) as usize;
        let k = (((y % 16) * 16 + z) * 16 + x) as usize;
        let ghost before = self.blocks@;
        let mut column = LoadedChunk::new(0);
        std::mem::swap(self, &mut column);
        let LoadedChunk { blocks: mut blocks, biomes, section_count } = column;
        blocks.set(s * 4096 + k, state);
        *self = LoadedChunk { blocks, biomes, section_count };
        assert(self.section_blocks(s as int) =~= before.subrange(s * 4096, s * 4096 + 4096).update(
            k as int,
            state,
        ));
        assert forall|t: int|
            0 <= t < old(self).spec_section_count() && t != y / 16 implies #[trigger] self.section_blocks(
            t,
        ) == old(self).section_blocks(t) by {
            assert(self.section_blocks(t) =~= old(self).section_blocks(t));
        }
    }

    /// The biome of the 4×4×4 cell at `(x, y, z)` (in cells).
    pub fn biome(&self, x: u32, y: u32, z: u32) -> (r: BiomeId)
        requires
            x < 4,
            z < 4,
            y < self.spec_section_count() * 4,
        ensures
            r == self.biome_at(x as int, y as int, z as int),
    {
        proof {
            use_type_invariant(self);
        }
        let s = (y / 4) as usize;
        let k = (((y % 4) * 4 + z) * 4 + x) as usize;
        self.biomes[s * 64 + k]
    }

    /// Sets the biome of the cell at `(x, y, z)` (in cells); every other cell stays.
    pub fn set_biome(&mut self, x: u32, y: u32, z: u32, biome: BiomeId)
        requires
            x < 4,
            z < 4,
            y < old(self).spec_section_count() * 4,
        ensures
            final(self).spec_section_count() == old(self).spec_section_count(),
            final(self).section_biomes((y / 4) as int) == old(self).section_biomes(
                (y / 4) as int,
            ).update(((y % 4) * 4 + z) * 4 + x, biome),
            forall|s: int|
                0 <= s < old(self).spec_section_count() && s != y / 4 ==> #[trigger] final(self).section_biomes(s) == old(self).section_biomes(s),
            forall|s: int|
                0 <= s < old(self).spec_section_count() ==> #[trigger] final(self).section_blocks(s)
                    == old(self).section_blocks(s),
    {
        proof {
            use_type_invariant(&*self);
        }
        let s = (y / 4) as usize;
        let k = (((y % 4) * 4 + z) * 4 + x) as usize;
        let ghost before = self.biomes@;
        let mut column = LoadedChunk::new(0);
        std::mem::swap(self, &mut column);
        let LoadedChunk { blocks, biomes: mut biomes, section_count } = column;
        biomes.set(s * 64 + k, biome);
        *self = LoadedChunk { blocks, biomes, section_count };
        assert(self.section_biomes(s as int) =~= before.subrange(s * 64, s * 64 + 64).update(
            k as int,
            biome,
        ));
        assert forall|t: int|
            0 <= t < old(self).spec_section_count() && t != y / 4 implies #[trigger] self.section_biomes(
            t,
        ) == old(self).section_biomes(t) by {
            assert(self.section_biomes(t) =~= old(self).section_biomes(t));
        }
    }

    fn section_block_list(&self, s: usize) -> (r: Vec<BlockState>)
        requires
            self.wf(),
            s < self.spec_section_count(),
        ensures
            r@ == self.section_blocks(s as int),
    {
        let base = s * 4096;
        let mut r: Vec<BlockState> = Vec::new();
        let mut k: usize = 0;
        while k < 4096
            invariant
                self.wf(),
                s < self.spec_section_count(),
                base == s * 4096,
                k <= 4096,
                r@ =~= self.blocks@.subrange(base as int, base + k),
            decreases 4096 - k,
        {
            r.push(self.blocks[base + k]);
            k = k + 1;
        }
        r
    }

    fn section_biome_list(&self, s: usize) -> (r: Vec<BiomeId>)
        requires
            self.wf(),
            s < self.spec_section_count(),
        ensures
            r@ == self.section_biomes(s as int),
    {
        let base = s * 64;
        let mut r: Vec<BiomeId> = Vec::new();
        let mut k: usize = 0;
        while k < 64
            invariant
                self.wf(),
                s < self.spec_section_count(),
                base == s * 64,
                k <= 64,
                r@ =~= self.biomes@.subrange(base as int, base + k),
            decreases 64 - k,
        {
            r.push(self.biomes[base + k]);
            k = k + 1;
        }
        r
    }
}

/// One section in the Anvil layout: its height in sections, the palette of
/// its block states and of its biomes, and where a palette has more than one
/// entry, the packed palette index of each block or biome cell.
#[derive(Debug)]
pub struct AnvilSection {
    pub y: i8,
    pub block_palette: Vec<BlockState>,
    pub block_data: Option<Vec<i64>>,
    pub biome_palette: Vec<String>,
    pub biome_data: Option<Vec<i64>>,
}

/// A chunk column in the Anvil layout. Its height maps are empty and it has
/// no block entities.
#[derive(Debug)]
pub struct AnvilChunk {
    pub data_version: i32,
    pub x_pos: i32,
    pub z_pos: i32,
    pub y_pos: i32,
    pub status: String,
    pub sections: Vec<AnvilSection>,
}

/// The packed indices of a palette of more than one entry.
pub open spec fn spec_palette_data<T>(values: Seq<T>) -> Option<Seq<i64>> {
    let n = palette_of(values).len();
    if n > 1 {
        Some(spec_pack(palette_indices(values), spec_ceil_log2(n) as u32))
    } else {
        None
    }
}

pub open spec fn data_matches(data: Option<Vec<i64>>, expected: Option<Seq<i64>>) -> bool {
    match (data, expected) {
        (Some(d), Some(e)) => d@ == e,
        (None, None) => true,
        _ => false,
    }
}

/// What `chunk_to_anvil_compound` writes for a section of these blocks and
/// biomes at section height `y`. Every biome of the palette is written as
/// plains.
pub open spec fn section_matches(
    sec: AnvilSection,
    blocks: Seq<BlockState>,
    biomes: Seq<BiomeId>,
    y: i8,
) -> bool {
    &&& sec.y == y
    &&& sec.block_palette@ == palette_of(blocks)
    &&& data_matches(sec.block_data, spec_palette_data(blocks))
    &&& sec.biome_palette.len() == palette_of(biomes).len()
    &&& forall|k: int|
        0 <= k < sec.biome_palette.len() ==> #[trigger] sec.biome_palette[k]@ == "minecraft:plains"@
    &&& data_matches(sec.biome_data, spec_palette_data(biomes))
}

proof fn lemma_ceil_log2_small(n: nat)
    requires
        2 <= n <= 4096,
    ensures
        1 <= spec_ceil_log2(n) <= 12,
{
    if n >= 2 {
        lemma_ceil_log2_bounds(n);
        reveal_with_fuel(two_pow, 13);
        if spec_ceil_log2(n) > 12 {
            lemma_two_pow_monotone(12, (spec_ceil_log2(n) - 1) as nat);
        }
    }
}

fn palette_data(indices: &Vec<u64>, palette_len: usize) -> (r: Option<Vec<i64>>)
    requires
        palette_len <= 4096,
    ensures
        palette_len > 1 ==> (r matches Some(d) && d@ == spec_pack(
            indices@,
            spec_ceil_log2(palette_len as nat) as u32,
        )),
        palette_len <= 1 ==> r is None,
{
    if palette_len > 1 {
        let bits = ceil_log2(palette_len as u64);
        proof {
            lemma_ceil_log2_small(palette_len as nat);
        }
        let bit_width = if bits < 1 {
            1
        } else {
            bits
        };
        Some(pack_indices(indices.as_slice(), bit_width))
    } else {
        None
    }
}

fn section_to_anvil(blocks: &Vec<BlockState>, biomes: &Vec<BiomeId>, y: i8) -> (sec: AnvilSection)
    requires
        blocks.len() == 4096,
        biomes.len() == 64,
    ensures
        section_matches(sec, blocks@, biomes@, y),
{
    let (block_palette, block_indices) = block_palette(blocks);
    proof {
        lemma_palette_props(blocks@);
        lemma_palette_props(biomes@);
    }
    let block_data = palette_data(&block_indices, block_palette.len());
    let (biome_ids, biome_indices) = biome_palette(biomes);
    let mut biome_names: Vec<String> = Vec::new();
    let mut k: usize = 0;
    while k < biome_ids.len()
        invariant
            k <= biome_ids.len(),
            biome_names.len() == k,
            forall|j: int| 0 <= j < k ==> #[trigger] biome_names[j]@ == "minecraft:plains"@,
        decreases biome_ids.len() - k,
    {
        biome_names.push("minecraft:plains".to_owned());
        k = k + 1;
    }
    let biome_data = palette_data(&biome_indices, biome_ids.len());
    AnvilSection { y, block_palette, block_data, biome_palette: biome_names, biome_data }
}

/// The section height of section `s` of a column whose bottom is at `min_y`.
pub open spec fn section_y(s: int, min_y: i32) -> i8 {
    (s + trunc_div(min_y as int, 16)) as i8
}

/// Writes the bottom `height / 16` sections of a chunk column in the Anvil
/// layout: each section's block states and biomes become a palette of the
/// distinct values in order of first occurrence, and, where a palette has
/// more than one entry, each value's palette index packed into
/// `ceil(log2(palette size))` bits.
pub fn chunk_to_anvil_compound(
    chunk: &LoadedChunk,
    chunk_x: i32,
    chunk_z: i32,
    min_y: i32,
    height: u32,
) -> (r: Result<AnvilChunk, String>)
    requires
        height / 16 <= chunk.spec_section_count(),
    ensures
        r matches Ok(c) && {
            &&& c.data_version == 3715
            &&& c.x_pos == chunk_x
            &&& c.z_pos == chunk_z
            &&& c.y_pos == trunc_div(min_y as int, 16)
            &&& c.status@ == "full"@
            &&& c.sections.len() == height / 16
            &&& forall|s: int|
                0 <= s < c.sections.len() ==> section_matches(
                    #[trigger] c.sections[s],
                    chunk.section_blocks(s),
                    chunk.section_biomes(s),
                    section_y(s, min_y),
                )
        },
{
    proof {
        use_type_invariant(chunk);
    }
    let y_pos = min_y / 16;
    assert(y_pos == trunc_div(min_y as int, 16));
    let section_count = height / 16;
    let mut sections: Vec<AnvilSection> = Vec::new();
    let mut sect_y: u32 = 0;
    while sect_y < section_count
        invariant
            chunk.wf(),
            section_count == height / 16,
            section_count <= chunk.spec_section_count(),
            y_pos == trunc_div(min_y as int, 16),
            sect_y <= section_count,
            sections.len() == sect_y,
            forall|s: int|
                0 <= s < sect_y ==> section_matches(
                    #[trigger] sections[s],
                    chunk.section_blocks(s),
                    chunk.section_biomes(s),
                    section_y(s, min_y),
                ),
        decreases section_count - sect_y,
    {
        let byte_y = (sect_y as i32 + y_pos) as i8;
        let blocks = chunk.section_block_list(sect_y as usize);
        let biomes = chunk.section_biome_list(sect_y as usize);
        let sec = section_to_anvil(&blocks, &biomes, byte_y);
        sections.push(sec);
        sect_y = sect_y + 1;
    }
    Ok(
        AnvilChunk {
            data_version: 3715,
            x_pos: chunk_x,
            z_pos: chunk_z,
            y_pos,
            status: "full".to_owned(),
            sections,
        },
    )
}

/// The `i`th field of `bw` bits of packed words.
pub open spec fn packed_field(data: Seq<i64>, bw: u32, i: int) -> u64 {
    let vpl = fields_per_word(bw) as int;
    ((data[i / vpl] as u64) >> (((i % vpl) * bw) as u32)) & low_mask(bw)
}

/// Reading a written section back: where a section has more than one block
/// state, the `i`th field of its packed data is the position in its palette
/// of its `i`th block.
pub proof fn lemma_section_blocks_read_back(
    sec: AnvilSection,
    blocks: Seq<BlockState>,
    biomes: Seq<BiomeId>,
    y: i8,
    i: int,
)
    requires
        section_matches(sec, blocks, biomes, y),
        blocks.len() == 4096,
        0 <= i < 4096,
        sec.block_palette.len() > 1,
    ensures
        sec.block_data matches Some(d) && {
            let bw = spec_ceil_log2(sec.block_palette.len() as nat) as u32;
            &&& 0 <= i / (fields_per_word(bw) as int) < d@.len()
            &&& packed_field(d@, bw, i) < sec.block_palette.len()
            &&& sec.block_palette@[packed_field(d@, bw, i) as int] == blocks[i]
        },
{
    let n = palette_of(blocks).len();
    lemma_palette_props(blocks);
    lemma_ceil_log2_small(n);
    let bw = spec_ceil_log2(n) as u32;
    let ix = palette_indices(blocks);
    let d = spec_pack(ix, bw);
    lemma_palette_indices(blocks, i);
    // The packed words satisfy what `lemma_pack_unpack` asks of them.
    let vpl = fields_per_word(bw);
    lemma_fields_per_word_pos(bw);
    assert(d.len() * vpl >= ix.len()) by {
        let m = (ix.len() + vpl - 1) as int;
        assert((m / (vpl as int)) * vpl > m - vpl) by (nonlinear_arith)
            requires
                vpl >= 1,
        ;
    }
    lemma_pack_unpack(ix, bw, d, i);
    lemma_ceil_log2_bounds(n);
    // The index fits its field, so reading the field gives it back whole.
    let v = ix[i];
    assert(v < two_pow(bw as nat));
    lemma_low_bits_of_small(v, bw);
}

proof fn lemma_two_pow_shift(bw: u32)
    requires
        bw <= 63,
    ensures
        two_pow(bw as nat) == (1u64 << bw) as nat,
    decreases bw,
{
    if bw == 0 {
        assert((1u64 << 0u32) == 1u64) by (bit_vector);
    } else {
        lemma_two_pow_shift((bw - 1) as u32);
        let b1 = (bw - 1) as u32;
        assert((1u64 << bw) == 2 * (1u64 << b1)) by (bit_vector)
            requires
                1 <= bw <= 63,
                b1 == bw - 1,
        ;
    }
}

proof fn lemma_low_bits_of_small(v: u64, bw: u32)
    requires
        1 <= bw <= 63,
        v < two_pow(bw as nat),
    ensures
        v & low_mask(bw) == v,
{
    lemma_two_pow_shift(bw);
    assert(v & (((1u64 << bw) - 1u64) as u64) == v) by (bit_vector)
        requires
            1 <= bw <= 63,
            v < (1u64 << bw),
    ;
}

} // verus!
