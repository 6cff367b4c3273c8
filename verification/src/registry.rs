//! Registry indices, biome colours and the light level at which monsters
//! spawn.
use vstd::prelude::*;
use vstd::string::StringSliceAdditionalSpecFns;
use vstd::utf8::is_char_boundary;

verus! {

/// The index of a biome in the biome registry.
#[derive(Clone, Copy, Debug, PartialEq, Eq, Hash, Structural)]
pub struct BiomeId(u32);

impl BiomeId {
    /// The registry index this id stands for.
    pub closed spec fn spec_index(self) -> nat {
        self.0 as nat
    }

    pub fn to_index(self) -> (r: usize)
        ensures
            r == self.spec_index(),
    {
        self.0 as usize
    }

    /// The id of registry index `idx`, cut to 32 bits.
    pub fn from_index(idx: usize) -> (r: Self)
        ensures
            r.spec_index() == (idx as u32) as nat,
    {
        BiomeId(idx as u32)
    }

    /// Two ids are equal exactly when their indices are.
    pub proof fn lemma_index_injective(a: Self, b: Self)
        ensures
            a.spec_index() == b.spec_index() <==> a == b,
    {
    }
}

impl Default for BiomeId {
    /// The first biome of the registry, plains.
    fn default() -> (r: Self)
        ensures
            r.spec_index() == 0,
    {
        BiomeId(0)
    }
}

/// The index of a dimension type in the dimension type registry.
#[derive(Clone, Copy, Debug, PartialEq, Eq, Hash, Structural)]
pub struct DimensionTypeId(u16);

impl DimensionTypeId {
    /// The registry index this id stands for.
    pub closed spec fn spec_index(self) -> nat {
        self.0 as nat
    }

    pub fn to_index(self) -> (r: usize)
        ensures
            r == self.spec_index(),
    {
        self.0 as usize
    }

    /// The id of registry index `idx`, cut to 16 bits.
    pub fn from_index(idx: usize) -> (r: Self)
        ensures
            r.spec_index() == (idx as u16) as nat,
    {
        DimensionTypeId(idx as u16)
    }
}

impl Default for DimensionTypeId {
    fn default() -> (r: Self)
        ensures
            r.spec_index() == 0,
    {
        DimensionTypeId(0)
    }
}

/// The block light level up to which monsters may spawn: a constant, or a
/// uniform range.
#[derive(Clone, Copy, Debug, PartialEq, Eq, Structural)]
pub enum MonsterSpawnLightLevel {
    Int(i32),
    Tagged(MonsterSpawnLightLevelTagged),
}

#[derive(Clone, Copy, Debug, PartialEq, Eq, Structural)]
pub enum MonsterSpawnLightLevelTagged {
    Uniform { min_inclusive: i32, max_inclusive: i32 },
}

impl From<i32> for MonsterSpawnLightLevel {
    fn from(value: i32) -> (r: Self) {
        MonsterSpawnLightLevel::Int(value)
    }
}

impl vstd::std_specs::convert::FromSpecImpl<i32> for MonsterSpawnLightLevel {
    open spec fn obeys_from_spec() -> bool {
        true
    }

    open spec fn from_spec(v: i32) -> Self {
        MonsterSpawnLightLevel::Int(v)
    }
}

/// The colours of a biome, each `0xRRGGBB`.
#[derive(Clone, Copy, Debug, PartialEq, Eq, Structural)]
pub struct BiomeEffects {
    pub fog_color: u32,
    pub sky_color: u32,
    pub water_color: u32,
    pub water_fog_color: u32,
    pub grass_color: Option<u32>,
}

impl Default for BiomeEffects {
    /// The plains colours.
    fn default() -> (r: Self)
        ensures
            r == (BiomeEffects {
                fog_color: 12638463,
                sky_color: 7907327,
                water_color: 4159204,
                water_fog_color: 329011,
                grass_color: None,
            }),
    {
        BiomeEffects {
            fog_color: 12638463,
            sky_color: 7907327,
            water_color: 4159204,
            water_fog_color: 329011,
            grass_color: None,
        }
    }
}

/// Which part of a hex colour failed to parse.
#[derive(Clone, Copy, Debug, PartialEq, Eq, Structural)]
pub enum ColorError {
    BadAlpha,
    BadRed,
    BadGreen,
    BadBlue,
    /// After the leading `#`s, the text is neither 6 nor 8 bytes long.
    InvalidLength,
}

/// The value of a hexadecimal digit.
pub open spec fn hex_digit(c: u8) -> Option<u32> {
    if 0x30 <= c <= 0x39 {
        Some((c - 0x30) as u32)
    } else if 0x61 <= c <= 0x66 {
        Some((c - 0x61 + 10) as u32)
    } else if 0x41 <= c <= 0x46 {
        Some((c - 0x41 + 10) as u32)
    } else {
        None
    }
}

/// Two bytes read as an unsigned base-16 number: two digits, or a `+` sign
/// and one digit.
pub open spec fn hex_pair(a: u8, b: u8) -> Option<u32> {
    if a == 0x2b {
        hex_digit(b)
    } else {
        match (hex_digit(a), hex_digit(b)) {
            (Some(x), Some(y)) => Some((16 * x + y) as u32),
            _ => None,
        }
    }
}

/// The bytes after the leading `#`s.
pub open spec fn trim_hashes(b: Seq<u8>) -> Seq<u8>
    decreases b.len(),
{
    if b.len() > 0 && b[0] == 0x23 {
        trim_hashes(b.drop_first())
    } else {
        b
    }
}

pub open spec fn pair_at(b: Seq<u8>, i: int) -> Option<u32> {
    hex_pair(b[i], b[i + 1])
}

/// `#RRGGBB` or `#AARRGGBB` (any number of leading `#`s) as a colour.
pub open spec fn spec_parse_hex_color(s: Seq<u8>) -> Result<u32, ColorError> {
    let t = trim_hashes(s);
    if t.len() == 6 {
        match (pair_at(t, 0), pair_at(t, 2), pair_at(t, 4)) {
            (None, _, _) => Err(ColorError::BadRed),
            (Some(_), None, _) => Err(ColorError::BadGreen),
            (Some(_), Some(_), None) => Err(ColorError::BadBlue),
            (Some(r), Some(g), Some(b)) => Ok((r * 0x10000 + g * 0x100 + b) as u32),
        }
    } else if t.len() == 8 {
        match (pair_at(t, 0), pair_at(t, 2), pair_at(t, 4), pair_at(t, 6)) {
            (None, _, _, _) => Err(ColorError::BadAlpha),
            (Some(_), None, _, _) => Err(ColorError::BadRed),
            (Some(_), Some(_), None, _) => Err(ColorError::BadGreen),
            (Some(_), Some(_), Some(_), None) => Err(ColorError::BadBlue),
            (Some(a), Some(r), Some(g), Some(b)) => Ok(
                (a * 0x1000000 + r * 0x10000 + g * 0x100 + b) as u32,
            ),
        }
    } else {
        Err(ColorError::InvalidLength)
    }
}

/// The text is cut into its byte pairs on character boundaries.
pub open spec fn color_pairs_on_boundaries(s: &str) -> bool {
    let b = s.spec_bytes();
    let t = trim_hashes(b);
    let skip = b.len() - t.len();
    &&& t.len() == 6 ==> is_char_boundary(b, skip + 2) && is_char_boundary(b, skip + 4)
    &&& t.len() == 8 ==> is_char_boundary(b, skip + 2) && is_char_boundary(b, skip + 4)
        && is_char_boundary(b, skip + 6)
}

proof fn lemma_trim_hashes_suffix(b: Seq<u8>)
    ensures
        trim_hashes(b).len() <= b.len(),
        trim_hashes(b) =~= b.subrange(b.len() - trim_hashes(b).len(), b.len() as int),
        trim_hashes(b).len() > 0 ==> trim_hashes(b)[0] != 0x23,
    decreases b.len(),
{
    if b.len() > 0 && b[0] == 0x23 {
        lemma_trim_hashes_suffix(b.drop_first());
    }
}

fn hex_digit_of(c: u8) -> (r: Option<u32>)
    ensures
        r == hex_digit(c),
{
    if 0x30 <= c && c <= 0x39 {
        Some((c - 0x30) as u32)
    } else if 0x61 <= c && c <= 0x66 {
        Some((c - 0x61 + 10) as u32)
    } else if 0x41 <= c && c <= 0x46 {
        Some((c - 0x41 + 10) as u32)
    } else {
        None
    }
}

fn hex_pair_of(a: u8, b: u8) -> (r: Option<u32>)
    ensures
        r == hex_pair(a, b),
        r matches Some(v) ==> v < 256,
{
    if a == 0x2b {
        hex_digit_of(b)
    } else {
        match (hex_digit_of(a), hex_digit_of(b)) {
            (Some(x), Some(y)) => Some(16 * x + y),
            _ => None,
        }
    }
}

/// Parses `#RRGGBB` or `#AARRGGBB` (the `#`s are optional) into
/// `0xRRGGBB` or `0xAARRGGBB`; each pair is read as `u32::from_str_radix`
/// reads it in base 16.
pub fn parse_hex_color(s: &str) -> (r: Result<u32, ColorError>)
    requires
        color_pairs_on_boundaries(s),
    ensures
        r == spec_parse_hex_color(s.spec_bytes()),
{
    let b = s.as_bytes();
    let mut start: usize = 0;
    proof {
        lemma_trim_hashes_suffix(b@);
    }
    assert(b@.subrange(0, b@.len() as int) =~= b@);
    while start < b.len() && b[start] == 0x23
        invariant
            start <= b.len(),
            trim_hashes(b@) == trim_hashes(b@.subrange(start as int, b@.len() as int)),
        decreases b.len() - start,
    {
        assert(b@.subrange(start as int, b@.len() as int).drop_first() =~= b@.subrange(
            start + 1,
            b@.len() as int,
        ));
        start = start + 1;
    }
    let ghost t = trim_hashes(b@);
    assert(t =~= b@.subrange(start as int, b@.len() as int));
    let n = b.len() - start;
    if n == 6 {
        let red = hex_pair_of(b[start], b[start + 1]);
        let green = hex_pair_of(b[start + 2], b[start + 3]);
        let blue = hex_pair_of(b[start + 4], b[start + 5]);
        assert(pair_at(t, 0) == red && pair_at(t, 2) == green && pair_at(t, 4) == blue);
        match (red, green, blue) {
            (None, _, _) => Err(ColorError::BadRed),
            (Some(_), None, _) => Err(ColorError::BadGreen),
            (Some(_), Some(_), None) => Err(ColorError::BadBlue),
            (Some(r), Some(g), Some(bl)) => {
                assert((r << 16) | (g << 8) | bl == r * 0x10000 + g * 0x100 + bl) by (bit_vector)
                    requires
                        r < 256,
                        g < 256,
                        bl < 256,
                ;
                Ok((r << 16) | (g << 8) | bl)
            },
        }
    } else if n == 8 {
        let alpha = hex_pair_of(b[start], b[start + 1]);
        let red = hex_pair_of(b[start + 2], b[start + 3]);
        let green = hex_pair_of(b[start + 4], b[start + 5]);
        let blue = hex_pair_of(b[start + 6], b[start + 7]);
        assert(pair_at(t, 0) == alpha && pair_at(t, 2) == red && pair_at(t, 4) == green && pair_at(
            t,
            6,
        ) == blue);
        match (alpha, red, green, blue) {
            (None, _, _, _) => Err(ColorError::BadAlpha),
            (Some(_), None, _, _) => Err(ColorError::BadRed),
            (Some(_), Some(_), None, _) => Err(ColorError::BadGreen),
            (Some(_), Some(_), Some(_), None) => Err(ColorError::BadBlue),
            (Some(a), Some(r), Some(g), Some(bl)) => {
                assert((a << 24) | (r << 16) | (g << 8) | bl == a * 0x1000000 + r * 0x10000 + g
                    * 0x100 + bl) by (bit_vector)
                    requires
                        a < 256,
                        r < 256,
                        g < 256,
                        bl < 256,
                ;
                Ok((a << 24) | (r << 16) | (g << 8) | bl)
            },
        }
    } else {
        Err(ColorError::InvalidLength)
    }
}

} // verus!
