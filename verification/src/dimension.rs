//! The three dimensions, their sea levels and dimension type names.
use vstd::prelude::*;

verus! {

/// The dimensions of the world.
#[derive(Clone, Copy, PartialEq, Eq, Debug, Hash, Structural)]
pub enum Dimension {
    Overworld,
    Nether,
    End,
}

/// The name of a dimension's dimension type.
pub open spec fn spec_dimension_type_name(d: Dimension) -> Seq<char> {
    match d {
        Dimension::Overworld => "minecraft:overworld"@,
        Dimension::Nether => "minecraft:the_nether"@,
        Dimension::End => "minecraft:the_end"@,
    }
}

impl Dimension {
    /// The name of the dimension's dimension type.
    pub fn dimension_type_name(&self) -> (s: String)
        ensures
            s@ == spec_dimension_type_name(*self),
    {
        match self {
            Dimension::Overworld => "minecraft:overworld".to_owned(),
            Dimension::Nether => "minecraft:the_nether".to_owned(),
            Dimension::End => "minecraft:the_end".to_owned(),
        }
    }

    /// The sea level: 63 in the overworld, 32 in the nether, 0 in the end.
    pub fn sea_level(&self) -> (y: i32)
        ensures
            y == match *self {
                Dimension::Overworld => 63i32,
                Dimension::Nether => 32i32,
                Dimension::End => 0i32,
            },
    {
        match self {
            Dimension::Overworld => 63,
            Dimension::Nether => 32,
            Dimension::End => 0,
        }
    }
}

/// Whether `needle` occurs in `hay` as a run of consecutive characters.
pub open spec fn has_substring(hay: Seq<char>, needle: Seq<char>) -> bool {
    exists|i: int| 0 <= i <= hay.len() - needle.len() && #[trigger] hay.subrange(i, i + needle.len()) == needle
}

/// The sea level for a dimension type name: 63 for a name containing
/// "overworld", else 32 for one containing "nether", else 0 for one
/// containing "end", else 63.
pub open spec fn spec_sea_level_for(name: Seq<char>) -> i32 {
    if has_substring(name, seq!['o', 'v', 'e', 'r', 'w', 'o', 'r', 'l', 'd']) {
        63
    } else if has_substring(name, seq!['n', 'e', 't', 'h', 'e', 'r']) {
        32
    } else if has_substring(name, seq!['e', 'n', 'd']) {
        0
    } else {
        63
    }
}

/// Whether `needle` occurs in `hay`.
fn contains_chars(hay: &Vec<char>, needle: &[char]) -> (b: bool)
    ensures
        b == has_substring(hay@, needle@),
{
    if needle.len() > hay.len() {
        return false;
    }
    let n = hay.len();
    let last = n - needle.len();
    let mut i: usize = 0;
    while i <= last
        invariant
            last == hay@.len() - needle@.len(),
            needle@.len() <= hay@.len(),
            n == hay@.len(),
            i <= last,
            forall|k: int| 0 <= k < i ==> #[trigger] hay@.subrange(k, k + needle@.len()) != needle@,
        decreases last + 1 - i,
    {
        let mut j: usize = 0;
        let mut same = true;
        while j < needle.len()
            invariant
                i <= last,
                last == hay@.len() - needle@.len(),
                needle@.len() <= hay@.len(),
                n == hay@.len(),
                j <= needle@.len(),
                same == forall|m: int| 0 <= m < j ==> hay@[i + m] == needle@[m],
            decreases needle@.len() - j,
        {
            if hay[i + j] != needle[j] {
                same = false;
            }
            j = j + 1;
        }
        if same {
            assert(hay@.subrange(i as int, i + needle@.len()) =~= needle@);
            return true;
        }
        proof {
            let m = choose|m: int| 0 <= m < needle@.len() && hay@[i + m] != needle@[m];
            assert(hay@.subrange(i as int, i + needle@.len())[m] != needle@[m]);
        }
        if i == last {
            return false;
        }
        i = i + 1;
    }
    false
}

/// The characters of a string, in order.
pub(crate) fn chars_of(s: &str) -> (v: Vec<char>)
    ensures
        v@ == s@,
{
    let mut v: Vec<char> = Vec::new();
    for c in iter: s.chars()
        invariant
            v@ == iter.seq().take(iter.index() as int),
    {
        v.push(c);
    }
    proof {
        broadcast use vstd::string::axiom_spec_iter;
    }
    v
}

/// The sea level for a dimension type name (see [`spec_sea_level_for`]).
pub fn sea_level_for_dimension(dim_name: &str) -> (y: i32)
    ensures
        y == spec_sea_level_for(dim_name@),
{
    let name = chars_of(dim_name);
    let overworld: [char; 9] = ['o', 'v', 'e', 'r', 'w', 'o', 'r', 'l', 'd'];
    let nether: [char; 6] = ['n', 'e', 't', 'h', 'e', 'r'];
    let end: [char; 3] = ['e', 'n', 'd'];
    proof {
        assert(overworld@ =~= seq!['o', 'v', 'e', 'r', 'w', 'o', 'r', 'l', 'd']);
        assert(nether@ =~= seq!['n', 'e', 't', 'h', 'e', 'r']);
        assert(end@ =~= seq!['e', 'n', 'd']);
    }
    if contains_chars(&name, overworld.as_slice()) {
        63
    } else if contains_chars(&name, nether.as_slice()) {
        32
    } else if contains_chars(&name, end.as_slice()) {
        0
    } else {
        63
    }
}

} // verus!
