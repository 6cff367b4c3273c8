//! What the server reads from the vanilla server jar: which nested jar holds
//! the game's data, which dynamic registries and tag registries it reads,
//! and the entry and tag names that the archive's file paths give.
use vstd::prelude::*;
use vstd::string::StringExecFns;
use crate::dimension::chars_of;
use crate::registry_sync::strs;
use crate::tags::{prefixed_minecraft, JarTag, JarTags, jar_tags_view, names_of};
use crate::codec::str_from_utf8;
use crate::registry_sync::{find_name_pos, sort_by_name, firsts};
use vstd::string::StringSliceAdditionalSpecFns;

verus! {

// ---------------------------------------------------------------------
// Whitespace and fields
// ---------------------------------------------------------------------

/// The characters of the Unicode property White_Space.
pub open spec fn white_space(c: char) -> bool {
    ('\u{9}' <= c && c <= '\u{d}') || c == ' ' || c == '\u{85}' || c == '\u{a0}' || c == '\u{1680}'
        || ('\u{2000}' <= c && c <= '\u{200a}') || c == '\u{2028}' || c == '\u{2029}' || c
        == '\u{202f}' || c == '\u{205f}' || c == '\u{3000}'
}

/// The number of whitespace characters `s` starts with.
pub open spec fn leading_ws(s: Seq<char>) -> nat
    decreases s.len(),
{
    if s.len() > 0 && white_space(s[0]) {
        1 + leading_ws(s.drop_first())
    } else {
        0
    }
}

/// The number of whitespace characters `s` ends with.
pub open spec fn trailing_ws(s: Seq<char>) -> nat
    decreases s.len(),
{
    if s.len() > 0 && white_space(s.last()) {
        1 + trailing_ws(s.drop_last())
    } else {
        0
    }
}

/// `s` without its leading and trailing whitespace.
pub open spec fn trim(s: Seq<char>) -> Seq<char> {
    let rest = s.skip(leading_ws(s) as int);
    rest.take(rest.len() - trailing_ws(rest))
}

/// The index of the first tab of `s`, its length where it has none.
pub open spec fn first_tab(s: Seq<char>) -> nat
    decreases s.len(),
{
    if s.len() == 0 || s[0] == '\t' {
        0
    } else {
        1 + first_tab(s.drop_first())
    }
}

/// The `n`-th field of `s` when it is split at its tabs.
pub open spec fn tab_field(s: Seq<char>, n: nat) -> Option<Seq<char>>
    decreases s.len(),
{
    let i = first_tab(s);
    if n == 0 {
        Some(s.take(i as int))
    } else if i >= s.len() {
        None
    } else {
        tab_field(s.skip(i + 1 as int), (n - 1) as nat)
    }
}

proof fn lemma_first_tab(s: Seq<char>)
    ensures
        first_tab(s) <= s.len(),
        first_tab(s) < s.len() ==> s[first_tab(s) as int] == '\t',
        forall|j: int| 0 <= j < first_tab(s) ==> s[j] != '\t',
    decreases s.len(),
{
    if s.len() > 0 && s[0] != '\t' {
        lemma_first_tab(s.drop_first());
        assert forall|j: int| 0 <= j < first_tab(s) implies s[j] != '\t' by {
            if j > 0 {
                assert(s[j] == s.drop_first()[j - 1]);
            }
        }
    }
}

/// The string of the characters, in order, from `String`'s `FromIterator<char>`
/// (`collect`): its documentation makes the string of the characters in the
/// order the iterator gives them.
#[verifier::external_body]
fn string_from_chars(v: &[char]) -> (s: String)
    ensures
        s@ == v@,
{
    v.iter().collect()
}

fn is_white_space(c: char) -> (r: bool)
    ensures
        r == white_space(c),
{
    ('\u{9}' <= c && c <= '\u{d}') || c == ' ' || c == '\u{85}' || c == '\u{a0}' || c == '\u{1680}'
        || ('\u{2000}' <= c && c <= '\u{200a}') || c == '\u{2028}' || c == '\u{2029}' || c
        == '\u{202f}' || c == '\u{205f}' || c == '\u{3000}'
}

/// The range of `s` from `start` to `end` without leading and trailing
/// whitespace, as indexes.
fn trim_range(s: &Vec<char>, start: usize, end: usize) -> (r: (usize, usize))
    requires
        start <= end <= s.len(),
    ensures
        start <= r.0 <= r.1 <= end,
        s@.subrange(r.0 as int, r.1 as int) == trim(s@.subrange(start as int, end as int)),
{
    let ghost f = s@.subrange(start as int, end as int);
    let mut a: usize = start;
    proof {
        assert(f.skip(0) =~= f);
    }
    while a < end && is_white_space(s[a])
        invariant
            start <= a <= end <= s.len(),
            f == s@.subrange(start as int, end as int),
            leading_ws(f) == (a - start) + leading_ws(f.skip(a - start)),
        decreases end - a,
    {
        proof {
            let g = f.skip(a - start);
            assert(g[0] == s@[a as int]);
            assert(g.drop_first() =~= f.skip(a + 1 - start));
        }
        a = a + 1;
    }
    proof {
        let g = f.skip(a - start);
        if a < end {
            assert(g[0] == s@[a as int]);
        }
        assert(leading_ws(g) == 0);
    }
    let ghost rest = f.skip(leading_ws(f) as int);
    assert(rest =~= s@.subrange(a as int, end as int));
    let mut b: usize = end;
    proof {
        assert(rest.take(rest.len() as int) =~= rest);
    }
    while b > a && is_white_space(s[b - 1])
        invariant
            start <= a <= b <= end <= s.len(),
            rest == s@.subrange(a as int, end as int),
            trailing_ws(rest) == (end - b) + trailing_ws(rest.take(b - a)),
        decreases b - a,
    {
        proof {
            let g = rest.take(b - a);
            assert(g.last() == s@[b - 1]);
            assert(g.drop_last() =~= rest.take(b - 1 - a));
        }
        b = b - 1;
    }
    proof {
        let g = rest.take(b - a);
        if b > a {
            assert(g.last() == s@[b - 1]);
        }
        assert(trailing_ws(g) == 0);
        assert(rest.take(rest.len() - trailing_ws(rest)) =~= s@.subrange(a as int, b as int));
    }
    (a, b)
}

// ---------------------------------------------------------------------
// The nested jar
// ---------------------------------------------------------------------

/// The path of the nested jar that a `versions.list` names: its third
/// tab-separated field, trimmed, under `META-INF/versions/`; none where it
/// has fewer than three fields.
pub open spec fn spec_versions_jar_path(content: Seq<char>) -> Option<Seq<char>> {
    match tab_field(content, 2) {
        Some(f) => Some("META-INF/versions/"@ + trim(f)),
        None => None,
    }
}

/// The path of the nested jar that the content of a `versions.list` names
/// (see [`spec_versions_jar_path`]).
pub fn versions_jar_path(content: &str) -> (r: Option<String>)
    ensures
        r.is_some() == spec_versions_jar_path(content@).is_some(),
        r.is_some() ==> r.unwrap()@ == spec_versions_jar_path(content@).unwrap(),
{
    let c = chars_of(content);
    let ghost s = c@;
    // Skip two fields.
    let mut start: usize = 0;
    let mut skipped: usize = 0;
    proof {
        assert(s.skip(0) =~= s);
    }
    while skipped < 2
        invariant
            skipped <= 2,
            start <= c.len(),
            s == c@,
            s == content@,
            tab_field(s, 2) == tab_field(s.skip(start as int), (2 - skipped) as nat),
        decreases 2 - skipped,
    {
        let ghost rest = s.skip(start as int);
        let mut i: usize = start;
        proof {
            assert(rest.skip(0) =~= rest);
        }
        while i < c.len() && c[i] != '\t'
            invariant
                start <= i <= c.len(),
                s == c@,
                rest == s.skip(start as int),
                first_tab(rest) == (i - start) + first_tab(rest.skip(i - start)),
            decreases c.len() - i,
        {
            proof {
                let g = rest.skip(i - start);
                assert(g[0] == s[i as int]);
                assert(g.drop_first() =~= rest.skip(i + 1 - start));
            }
            i = i + 1;
        }
        proof {
            let g = rest.skip(i - start);
            if i < c.len() {
                assert(g[0] == s[i as int]);
            }
            assert(first_tab(g) == 0);
        }
        if i >= c.len() {
            return None;
        }
        proof {
            assert(rest.skip(first_tab(rest) + 1 as int) =~= s.skip(i + 1));
        }
        start = i + 1;
        skipped = skipped + 1;
    }
    let ghost rest = s.skip(start as int);
    let mut end: usize = start;
    proof {
        assert(rest.skip(0) =~= rest);
    }
    while end < c.len() && c[end] != '\t'
        invariant
            start <= end <= c.len(),
            s == c@,
            rest == s.skip(start as int),
            first_tab(rest) == (end - start) + first_tab(rest.skip(end - start)),
        decreases c.len() - end,
    {
        proof {
            let g = rest.skip(end - start);
            assert(g[0] == s[end as int]);
            assert(g.drop_first() =~= rest.skip(end + 1 - start));
        }
        end = end + 1;
    }
    proof {
        let g = rest.skip(end - start);
        if end < c.len() {
            assert(g[0] == s[end as int]);
        }
        assert(first_tab(g) == 0);
        assert(rest.take(first_tab(rest) as int) =~= s.subrange(start as int, end as int));
    }
    let (a, b) = trim_range(&c, start, end);
    let field = string_from_chars(c.as_slice().split_at(b).0.split_at(a).1);
    proof {
        assert(c@.subrange(0, b as int).subrange(a as int, b as int) =~= c@.subrange(a as int, b as int));
    }
    let mut out = String::new();
    proof {
        reveal_strlit("META-INF/versions/");
    }
    out.append("META-INF/versions/");
    out.append(field.as_str());
    Some(out)
}

// ---------------------------------------------------------------------
// Entry and tag names from file paths
// ---------------------------------------------------------------------

/// `s` with every occurrence of `pat` taken out, the occurrences found from
/// the left without overlapping.
pub open spec fn remove_all(s: Seq<char>, pat: Seq<char>) -> Seq<char>
    decreases s.len(),
{
    if pat.len() == 0 || s.len() < pat.len() {
        s
    } else if s.take(pat.len() as int) == pat {
        remove_all(s.skip(pat.len() as int), pat)
    } else {
        seq![s[0]] + remove_all(s.drop_first(), pat)
    }
}

/// What follows the last `/` of `s`; all of `s` where it has none.
pub open spec fn last_segment(s: Seq<char>) -> Seq<char>
    decreases s.len(),
{
    if s.len() == 0 {
        s
    } else if s.last() == '/' {
        Seq::empty()
    } else {
        last_segment(s.drop_last()).push(s.last())
    }
}

/// `name` starts with `prefix` and ends with `.json`.
pub open spec fn json_under(name: Seq<char>, prefix: Seq<char>) -> bool {
    &&& name.len() >= prefix.len()
    &&& name.take(prefix.len() as int) == prefix
    &&& name.len() >= 5
    &&& name.skip(name.len() - 5) == ".json"@
}

/// The directory of the jar that holds the entries of a registry.
pub open spec fn registry_dir(reg: Seq<char>) -> Seq<char> {
    "data/minecraft/"@ + reg + "/"@
}

/// The directory of the jar that holds the tags of a registry.
pub open spec fn tag_dir(reg: Seq<char>) -> Seq<char> {
    "data/minecraft/tags/"@ + reg + "/"@
}

/// The entry that a file of the jar gives a registry: for a JSON file of the
/// registry's directory, its file name without `.json`, in the `minecraft`
/// namespace.
pub open spec fn spec_registry_entry_name(reg: Seq<char>, name: Seq<char>) -> Option<Seq<char>> {
    if json_under(name, registry_dir(reg)) {
        Some("minecraft:"@ + remove_all(last_segment(name), ".json"@))
    } else {
        None
    }
}

/// The tag that a file of the jar gives a registry: for a JSON file under the
/// registry's tag directory, its path below that directory without `.json`,
/// in the `minecraft` namespace.
pub open spec fn spec_tag_entry_name(reg: Seq<char>, name: Seq<char>) -> Option<Seq<char>> {
    if json_under(name, tag_dir(reg)) {
        Some("minecraft:"@ + remove_all(name.skip(tag_dir(reg).len() as int), ".json"@))
    } else {
        None
    }
}

fn literal_chars(s: &str) -> (v: Vec<char>)
    ensures
        v@ == s@,
{
    chars_of(s)
}

fn append_chars(v: &mut Vec<char>, w: &Vec<char>)
    ensures
        final(v)@ == old(v)@ + w@,
{
    let mut i: usize = 0;
    let ghost v0 = v@;
    while i < w.len()
        invariant
            i <= w.len(),
            v@ == v0 + w@.take(i as int),
        decreases w.len() - i,
    {
        v.push(w[i]);
        i = i + 1;
        assert(v@ =~= v0 + w@.take(i as int));
    }
    assert(w@.take(w.len() as int) =~= w@);
}

fn has_prefix_at(s: &Vec<char>, at: usize, p: &Vec<char>) -> (r: bool)
    requires
        at <= s.len(),
    ensures
        r == (s.len() - at >= p.len() && s@.subrange(at as int, at + p.len()) == p@),
{
    if s.len() - at < p.len() {
        return false;
    }
    let mut j: usize = 0;
    while j < p.len()
        invariant
            j <= p.len(),
            at + p.len() <= s.len(),
            forall|m: int| 0 <= m < j ==> s@[at + m] == p@[m],
        decreases p.len() - j,
    {
        if s[at + j] != p[j] {
            assert(s@.subrange(at as int, at + p.len())[j as int] != p@[j as int]);
            return false;
        }
        j = j + 1;
    }
    assert(s@.subrange(at as int, at + p.len()) =~= p@);
    true
}

/// `name` starts with `prefix` and ends with `.json` (see [`json_under`]).
fn is_json_under(name: &Vec<char>, prefix: &Vec<char>) -> (r: bool)
    ensures
        r == json_under(name@, prefix@),
{
    let json = literal_chars(".json");
    proof {
        reveal_strlit(".json");
    }
    if name.len() < prefix.len() || name.len() < 5 {
        return false;
    }
    let starts = has_prefix_at(name, 0, prefix);
    let ends = has_prefix_at(name, name.len() - 5, &json);
    proof {
        assert(name@.subrange(0, prefix@.len() as int) =~= name@.take(prefix@.len() as int));
        assert(name@.subrange(name.len() - 5, name.len() as int) =~= name@.skip(name.len() - 5));
    }
    starts && ends
}

/// `s` from index `from` on, with every `.json` taken out (see [`remove_all`]).
fn remove_json(s: &Vec<char>, from: usize) -> (r: Vec<char>)
    requires
        from <= s.len(),
    ensures
        r@ == remove_all(s@.skip(from as int), ".json"@),
{
    let json = literal_chars(".json");
    proof {
        reveal_strlit(".json");
    }
    let ghost pat = json@;
    let mut out: Vec<char> = Vec::new();
    let mut i: usize = from;
    proof {
        assert(out@ + remove_all(s@.skip(from as int), pat) =~= remove_all(s@.skip(from as int), pat));
    }
    while i < s.len()
        invariant
            from <= i <= s.len(),
            json@ == pat,
            pat.len() == 5,
            out@ + remove_all(s@.skip(i as int), pat) == remove_all(s@.skip(from as int), pat),
        decreases s.len() - i,
    {
        let ghost rest = s@.skip(i as int);
        if has_prefix_at(s, i, &json) {
            proof {
                assert(rest.take(5) =~= s@.subrange(i as int, i + 5));
                assert(rest.skip(5) =~= s@.skip(i + 5));
            }
            i = i + 5;
        } else {
            proof {
                if rest.len() >= 5 {
                    assert(rest.take(5) =~= s@.subrange(i as int, i + 5));
                    assert(rest.drop_first() =~= s@.skip(i + 1));
                    assert(remove_all(rest, pat) == seq![rest[0]] + remove_all(rest.drop_first(), pat));
                } else {
                    assert(remove_all(rest, pat) == rest);
                    assert(rest.drop_first() =~= s@.skip(i + 1));
                    assert(remove_all(rest.drop_first(), pat) == rest.drop_first());
                    assert(rest =~= seq![rest[0]] + rest.drop_first());
                }
                assert(rest[0] == s@[i as int]);
            }
            let ghost prev = out@;
            out.push(s[i]);
            proof {
                assert(out@ + remove_all(s@.skip(i + 1), pat) =~= prev + (seq![rest[0]] + remove_all(
                    rest.drop_first(),
                    pat,
                )));
            }
            i = i + 1;
        }
    }
    proof {
        assert(s@.skip(i as int) =~= Seq::<char>::empty());
        assert(out@ + remove_all(s@.skip(i as int), pat) =~= out@);
    }
    out
}

/// The index after the last `/` of `s`, 0 where it has none.
fn segment_start(s: &Vec<char>) -> (k: usize)
    ensures
        k <= s.len(),
        last_segment(s@) == s@.skip(k as int),
{
    let mut k: usize = s.len();
    proof {
        assert(s@.take(k as int) =~= s@);
        assert(s@.skip(k as int) =~= Seq::<char>::empty());
    }
    while k > 0 && s[k - 1] != '/'
        invariant
            k <= s.len(),
            last_segment(s@) == last_segment(s@.take(k as int)) + s@.skip(k as int),
        decreases k,
    {
        proof {
            let t = s@.take(k as int);
            assert(t.last() == s@[k - 1]);
            assert(t.drop_last() =~= s@.take(k - 1));
            assert(last_segment(t) == last_segment(t.drop_last()).push(t.last()));
            assert(last_segment(t.drop_last()).push(t.last()) + s@.skip(k as int) =~= last_segment(
                s@.take(k - 1),
            ) + s@.skip(k - 1));
        }
        k = k - 1;
    }
    proof {
        let t = s@.take(k as int);
        if k > 0 {
            assert(t.last() == s@[k - 1]);
        }
        assert(last_segment(t) =~= Seq::<char>::empty());
        assert(Seq::<char>::empty() + s@.skip(k as int) =~= s@.skip(k as int));
    }
    k
}

/// The directory `start` + `reg` + `/`, as characters.
fn dir_chars(start: &str, reg: &str) -> (v: Vec<char>)
    ensures
        v@ == start@ + reg@ + "/"@,
{
    let mut v = literal_chars(start);
    append_chars(&mut v, &chars_of(reg));
    append_chars(&mut v, &literal_chars("/"));
    v
}

/// The entry a file of the jar gives a registry (see
/// [`spec_registry_entry_name`]).
pub fn registry_entry_name(reg: &str, name: &str) -> (r: Option<String>)
    ensures
        r.is_some() == spec_registry_entry_name(reg@, name@).is_some(),
        r.is_some() ==> r.unwrap()@ == spec_registry_entry_name(reg@, name@).unwrap(),
{
    let dir = dir_chars("data/minecraft/", reg);
    let c = chars_of(name);
    if !is_json_under(&c, &dir) {
        return None;
    }
    let k = segment_start(&c);
    let id = remove_json(&c, k);
    let text = string_from_chars(id.as_slice());
    Some(prefixed_minecraft(text.as_str()))
}

/// The tag a file of the jar gives a registry (see [`spec_tag_entry_name`]).
pub fn tag_entry_name(reg: &str, name: &str) -> (r: Option<String>)
    ensures
        r.is_some() == spec_tag_entry_name(reg@, name@).is_some(),
        r.is_some() ==> r.unwrap()@ == spec_tag_entry_name(reg@, name@).unwrap(),
{
    let dir = dir_chars("data/minecraft/tags/", reg);
    let c = chars_of(name);
    if !is_json_under(&c, &dir) {
        return None;
    }
    let rel = remove_json(&c, dir.len());
    let text = string_from_chars(rel.as_slice());
    Some(prefixed_minecraft(text.as_str()))
}

// ---------------------------------------------------------------------
// The registries read from the jar
// ---------------------------------------------------------------------

/// The dynamic registries whose entries are read from the jar.
pub open spec fn spec_jar_dynamic_registry_names() -> Seq<Seq<char>> {
    seq![
        "cat_variant"@,
        "cat_sound_variant"@,
        "chicken_variant"@,
        "chicken_sound_variant"@,
        "cow_variant"@,
        "cow_sound_variant"@,
        "frog_variant"@,
        "painting_variant"@,
        "pig_variant"@,
        "pig_sound_variant"@,
        "wolf_variant"@,
        "wolf_sound_variant"@,
        "zombie_nautilus_variant"@,
        "banner_pattern"@,
        "damage_type"@,
        "instrument"@,
        "dialog"@,
        "timeline"@,
        "world_clock"@,
        "trim_material"@,
        "trim_pattern"@,
        "jukebox_song"@,
    ]
}

/// The registries whose tags are read from the jar.
pub open spec fn spec_jar_tag_registry_names() -> Seq<Seq<char>> {
    seq![
        "banner_pattern"@,
        "cat_variant"@,
        "painting_variant"@,
        "damage_type"@,
        "instrument"@,
        "trim_material"@,
        "trim_pattern"@,
        "world_clock"@,
        "jukebox_song"@,
        "dialog"@,
        "timeline"@,
    ]
}

fn owned_list(list: &Vec<&str>) -> (r: Vec<String>)
    ensures
        strs(r@) == list@.map_values(|s: &str| s@),
{
    let ghost views = list@.map_values(|s: &str| s@);
    let mut r: Vec<String> = Vec::new();
    let mut i: usize = 0;
    while i < list.len()
        invariant
            i <= list.len(),
            views == list@.map_values(|s: &str| s@),
            strs(r@) =~= views.subrange(0, i as int),
        decreases list.len() - i,
    {
        let ghost before = strs(r@);
        r.push(list[i].to_owned());
        assert(strs(r@) =~= before.push(views[i as int]));
        assert(views.subrange(0, i + 1) =~= views.subrange(0, i as int).push(views[i as int]));
        i = i + 1;
    }
    assert(views.subrange(0, list.len() as int) =~= views);
    r
}

/// The dynamic registries whose entries are read from the jar.
pub fn jar_dynamic_registry_names() -> (r: Vec<String>)
    ensures
        strs(r@) == spec_jar_dynamic_registry_names(),
{
    let list: Vec<&str> = vec![
        "cat_variant",
        "cat_sound_variant",
        "chicken_variant",
        "chicken_sound_variant",
        "cow_variant",
        "cow_sound_variant",
        "frog_variant",
        "painting_variant",
        "pig_variant",
        "pig_sound_variant",
        "wolf_variant",
        "wolf_sound_variant",
        "zombie_nautilus_variant",
        "banner_pattern",
        "damage_type",
        "instrument",
        "dialog",
        "timeline",
        "world_clock",
        "trim_material",
        "trim_pattern",
        "jukebox_song",
    ];
    let r = owned_list(&list);
    assert(list@.map_values(|s: &str| s@) =~= spec_jar_dynamic_registry_names());
    r
}

/// The registries whose tags are read from the jar.
pub fn jar_tag_registry_names() -> (r: Vec<String>)
    ensures
        strs(r@) == spec_jar_tag_registry_names(),
{
    let list: Vec<&str> = vec![
        "banner_pattern",
        "cat_variant",
        "painting_variant",
        "damage_type",
        "instrument",
        "trim_material",
        "trim_pattern",
        "world_clock",
        "jukebox_song",
        "dialog",
        "timeline",
    ];
    let r = owned_list(&list);
    assert(list@.map_values(|s: &str| s@) =~= spec_jar_tag_registry_names());
    r
}

// ---------------------------------------------------------------------
// Reading the archive
// ---------------------------------------------------------------------

/// A file of a zip archive: its name, and its bytes where they could be
/// read.
#[derive(Debug)]
pub struct ZipEntry {
    pub name: String,
    pub content: Option<Vec<u8>>,
}

/// The files of an archive, as names and contents.
pub type Entries = Seq<(Seq<char>, Option<Seq<u8>>)>;

pub open spec fn zip_entry_view(e: ZipEntry) -> (Seq<char>, Option<Seq<u8>>) {
    (
        e.name@,
        match e.content {
            Some(c) => Some(c@),
            None => None,
        },
    )
}

pub open spec fn zip_view(r: Option<Vec<ZipEntry>>) -> Option<Entries> {
    match r {
        Some(v) => Some(v@.map_values(|e: ZipEntry| zip_entry_view(e))),
        None => None,
    }
}

/// What the `zip` crate reads of an archive's bytes: `None` where they are
/// no archive; else, in the archive's order, each file whose entry and name
/// can be read, with its bytes where they can be read.
pub uninterp spec fn zip_entries(archive: Seq<u8>) -> Option<Entries>;

/// The files of a zip archive held in memory, from `zip::ZipArchive::new`,
/// `ZipArchive::by_index`, `ZipFile::name` and `Read::read_to_end`: the
/// contract names the result, a function of the bytes alone; a file whose
/// entry or name cannot be read is left out.
#[verifier::external_body]
fn read_zip(archive: &[u8]) -> (r: Option<Vec<ZipEntry>>)
    ensures
        zip_view(r) == zip_entries(archive@),
{
    let mut zip = zip::ZipArchive::new(std::io::Cursor::new(archive)).ok()?;
    let mut out = Vec::new();
    for i in 0..zip.len() {
        if let Ok(mut file) = zip.by_index(i) {
            if let Ok(name) = file.name().map(|n| n.into_owned()) {
                let mut buf = Vec::new();
                let content = std::io::Read::read_to_end(&mut file, &mut buf).ok().map(|_| buf);
                out.push(ZipEntry { name, content });
            }
        }
    }
    Some(out)
}

/// What `serde_json` reads of a text as the list under `key`: `None` where
/// the text is no JSON; `Some(None)` where the value has no list under
/// `key`; else each item of the list, as its string where it is one.
pub uninterp spec fn json_list_field(text: Seq<char>, key: Seq<char>) -> Option<Option<Seq<Option<Seq<char>>>>>;

pub open spec fn opt_list_view(r: Option<Option<Vec<Option<String>>>>) -> Option<Option<Seq<Option<Seq<char>>>>> {
    match r {
        Some(Some(v)) => Some(Some(crate::tags::opt_names(v@))),
        Some(None) => Some(None),
        None => None,
    }
}

/// `serde_json::from_str` into a `serde_json::Value`, then `Value::get` of
/// `key`, `Value::as_array` and `Value::as_str` of each item: the contract
/// names the result, a function of the text and key alone.
#[verifier::external_body]
fn read_json_list_field(text: &str, key: &str) -> (r: Option<Option<Vec<Option<String>>>>)
    ensures
        opt_list_view(r) == json_list_field(text@, key@),
{
    let value: serde_json::Value = serde_json::from_str(text).ok()?;
    Some(value.get(key).and_then(|v| v.as_array()).map(|a| a.iter().map(|x| x.as_str().map(str::to_owned)).collect()))
}

/// The text that bytes hold where they are UTF-8.
pub open spec fn utf8_text(b: Seq<u8>) -> Option<Seq<char>> {
    if vstd::utf8::valid_utf8(b) {
        Some(vstd::utf8::decode_utf8(b))
    } else {
        None
    }
}

/// The text of a file, where it was read and is UTF-8.
pub open spec fn entry_text(e: (Seq<char>, Option<Seq<u8>>)) -> Option<Seq<char>> {
    match e.1 {
        Some(b) => utf8_text(b),
        None => None,
    }
}

fn entry_text_of(e: &ZipEntry) -> (r: Option<&str>)
    ensures
        match r {
            Some(t) => entry_text(zip_entry_view(*e)) == Some(t@),
            None => entry_text(zip_entry_view(*e)) is None,
        },
{
    match &e.content {
        Some(b) => {
            let t = str_from_utf8(b.as_slice());
            proof {
                if let Some(t) = t {
                    vstd::utf8::encode_utf8_decode_utf8(t@);
                }
            }
            t
        },
        None => None,
    }
}

/// The nested jar that the last readable `META-INF/versions.list` of the
/// files names, if any does.
pub open spec fn listed_jar_path(es: Entries) -> Option<Seq<char>>
    decreases es.len(),
{
    if es.len() == 0 {
        None
    } else {
        let prev = listed_jar_path(es.drop_last());
        let e = es.last();
        if e.0 == "META-INF/versions.list"@ {
            match entry_text(e) {
                Some(t) => match spec_versions_jar_path(t) {
                    Some(p) => Some(p),
                    None => prev,
                },
                None => prev,
            }
        } else {
            prev
        }
    }
}

/// The contents of the first file named `p`, where there is one.
pub open spec fn first_named(es: Entries, p: Seq<char>) -> Option<Option<Seq<u8>>>
    decreases es.len(),
{
    if es.len() == 0 {
        None
    } else if es[0].0 == p {
        Some(es[0].1)
    } else {
        first_named(es.drop_first(), p)
    }
}

/// The jar that holds the game's data: the nested jar that the bundler's
/// `versions.list` names, where it names one that can be read, else the
/// jar itself; none where the bytes are no archive.
pub open spec fn spec_version_jar(jar: Seq<u8>) -> Option<Seq<u8>> {
    match zip_entries(jar) {
        None => None,
        Some(es) => match listed_jar_path(es) {
            None => Some(jar),
            Some(p) => match first_named(es, p) {
                Some(Some(b)) => Some(b),
                _ => Some(jar),
            },
        },
    }
}

fn copy_bytes(b: &[u8]) -> (r: Vec<u8>)
    ensures
        r@ == b@,
{
    let mut r: Vec<u8> = Vec::new();
    let mut i: usize = 0;
    while i < b.len()
        invariant
            i <= b.len(),
            r@ == b@.take(i as int),
        decreases b.len() - i,
    {
        r.push(b[i]);
        i = i + 1;
        assert(r@ =~= b@.take(i as int));
    }
    assert(b@.take(b.len() as int) =~= b@);
    r
}

/// The jar that holds the game's data (see [`spec_version_jar`]).
pub fn version_jar(jar: &[u8]) -> (r: Option<Vec<u8>>)
    ensures
        match r {
            Some(v) => spec_version_jar(jar@) == Some(v@),
            None => spec_version_jar(jar@) is None,
        },
{
    let files = match read_zip(jar) {
        Some(f) => f,
        None => return None,
    };
    let ghost es = files@.map_values(|e: ZipEntry| zip_entry_view(e));
    let list_name = "META-INF/versions.list".to_owned();
    let mut path: Option<String> = None;
    let mut i: usize = 0;
    proof {
        assert(es.take(0) =~= Seq::<(Seq<char>, Option<Seq<u8>>)>::empty());
    }
    while i < files.len()
        invariant
            i <= files.len(),
            es == files@.map_values(|e: ZipEntry| zip_entry_view(e)),
            list_name@ == "META-INF/versions.list"@,
            match path {
                Some(p) => listed_jar_path(es.take(i as int)) == Some(p@),
                None => listed_jar_path(es.take(i as int)) is None,
            },
        decreases files.len() - i,
    {
        proof {
            let pre = es.take(i + 1);
            assert(pre.drop_last() =~= es.take(i as int));
            assert(pre.last() == es[i as int]);
        }
        if files[i].name == list_name {
            match entry_text_of(&files[i]) {
                Some(t) => match versions_jar_path(t) {
                    Some(p) => {
                        path = Some(p);
                    },
                    None => {},
                },
                None => {},
            }
        }
        i = i + 1;
    }
    proof {
        assert(es.take(files.len() as int) =~= es);
    }
    let p = match path {
        Some(p) => p,
        None => return Some(copy_bytes(jar)),
    };
    let mut j: usize = 0;
    proof {
        assert(es.skip(0) =~= es);
    }
    while j < files.len()
        invariant
            j <= files.len(),
            es == files@.map_values(|e: ZipEntry| zip_entry_view(e)),
            first_named(es, p@) == first_named(es.skip(j as int), p@),
            listed_jar_path(es) == Some(p@),
            zip_entries(jar@) == Some(es),
        decreases files.len() - j,
    {
        assert(es.skip(j as int)[0] == es[j as int]);
        if files[j].name == p {
            proof {
                assert(es[j as int] == zip_entry_view(files@[j as int]));
                assert(first_named(es.skip(j as int), p@) == Some(es[j as int].1));
            }
            match &files[j].content {
                Some(b) => {
                    let v = copy_bytes(b.as_slice());
                    assert(es[j as int].1 == Some(b@));
                    assert(first_named(es, p@) == Some(Some(b@)));
                    return Some(v);
                },
                None => {
                    let v = copy_bytes(jar);
                    assert(es[j as int].1 is None);
                    assert(first_named(es, p@) == Some(None::<Seq<u8>>));
                    return Some(v);
                },
            }
        }
        assert(es.skip(j as int).drop_first() =~= es.skip(j + 1));
        j = j + 1;
    }
    Some(copy_bytes(jar))
}

// ---------------------------------------------------------------------
// The tags of the jar
// ---------------------------------------------------------------------

/// The strings of a list, in order.
pub open spec fn strings_only(vs: Seq<Option<Seq<char>>>) -> Seq<Seq<char>>
    decreases vs.len(),
{
    if vs.len() == 0 {
        Seq::empty()
    } else {
        let head = strings_only(vs.drop_last());
        match vs.last() {
            Some(v) => head.push(v),
            None => head,
        }
    }
}

/// The tags with the values of `name` set: in place of the tag of that
/// name where there is one, else after the others.
pub open spec fn set_tag(tags: Seq<(Seq<char>, Seq<Seq<char>>)>, name: Seq<char>, values: Seq<Seq<char>>) -> Seq<
    (Seq<char>, Seq<Seq<char>>),
>
    decreases tags.len(),
{
    if tags.len() == 0 {
        seq![(name, values)]
    } else if tags[0].0 == name {
        seq![(name, values)] + tags.drop_first()
    } else {
        seq![tags[0]] + set_tag(tags.drop_first(), name, values)
    }
}

/// The tags that the files give a registry: for each JSON file under the
/// registry's tag directory whose `values` list holds at least one string,
/// those strings, a later file of a tag taking the place of an earlier one.
pub open spec fn registry_jar_tags(es: Entries, reg: Seq<char>) -> Seq<(Seq<char>, Seq<Seq<char>>)>
    decreases es.len(),
{
    if es.len() == 0 {
        Seq::empty()
    } else {
        let acc = registry_jar_tags(es.drop_last(), reg);
        let e = es.last();
        match spec_tag_entry_name(reg, e.0) {
            None => acc,
            Some(t) => match entry_text(e) {
                None => acc,
                Some(txt) => match json_list_field(txt, "values"@) {
                    Some(Some(vs)) => {
                        let v = strings_only(vs);
                        if v.len() > 0 {
                            set_tag(acc, t, v)
                        } else {
                            acc
                        }
                    },
                    _ => acc,
                },
            },
        }
    }
}

/// The tags of each registry of `regs` that has any, under the registry's
/// name in the `minecraft` namespace.
pub open spec fn jar_tags_for(es: Entries, regs: Seq<Seq<char>>) -> Seq<(Seq<char>, Seq<(Seq<char>, Seq<Seq<char>>)>)>
    decreases regs.len(),
{
    if regs.len() == 0 {
        Seq::empty()
    } else {
        let acc = jar_tags_for(es, regs.drop_last());
        let t = registry_jar_tags(es, regs.last());
        if t.len() > 0 {
            acc.push(("minecraft:"@ + regs.last(), t))
        } else {
            acc
        }
    }
}

/// The tags of the version jar: none where it is no archive.
pub open spec fn spec_jar_dynamic_tags(version_jar: Seq<u8>) -> Seq<(Seq<char>, Seq<(Seq<char>, Seq<Seq<char>>)>)> {
    match zip_entries(version_jar) {
        None => Seq::empty(),
        Some(es) => jar_tags_for(es, spec_jar_tag_registry_names()),
    }
}

pub open spec fn jar_tag_list_view(t: Seq<JarTag>) -> Seq<(Seq<char>, Seq<Seq<char>>)> {
    t.map_values(|x: JarTag| (x.name@, names_of(x.values@)))
}

fn strings_of(vs: &Vec<Option<String>>) -> (r: Vec<String>)
    ensures
        names_of(r@) == strings_only(crate::tags::opt_names(vs@)),
{
    let ghost vv = crate::tags::opt_names(vs@);
    let mut r: Vec<String> = Vec::new();
    let mut i: usize = 0;
    proof {
        assert(vv.take(0) =~= Seq::<Option<Seq<char>>>::empty());
        assert(names_of(r@) =~= Seq::<Seq<char>>::empty());
    }
    while i < vs.len()
        invariant
            i <= vs.len(),
            vv == crate::tags::opt_names(vs@),
            names_of(r@) == strings_only(vv.take(i as int)),
        decreases vs.len() - i,
    {
        proof {
            let pre = vv.take(i + 1);
            assert(pre.drop_last() =~= vv.take(i as int));
            assert(pre.last() == vv[i as int]);
        }
        match &vs[i] {
            Some(v) => {
                let ghost before = r@;
                r.push(v.clone());
                proof {
                    assert(names_of(r@) =~= names_of(before).push(v@));
                }
            },
            None => {},
        }
        i = i + 1;
    }
    proof {
        assert(vv.take(vs.len() as int) =~= vv);
    }
    r
}

fn set_jar_tag(tags: &mut Vec<JarTag>, name: String, values: Vec<String>)
    ensures
        jar_tag_list_view(final(tags)@) == set_tag(jar_tag_list_view(old(tags)@), name@, names_of(values@)),
{
    let ghost tv = jar_tag_list_view(tags@);
    let ghost v = names_of(values@);
    let mut p: usize = 0;
    proof {
        assert(tv.skip(0) =~= tv);
        assert(tv.take(0) =~= Seq::<(Seq<char>, Seq<Seq<char>>)>::empty());
    }
    while p < tags.len()
        invariant
            p <= tags.len(),
            tags@ == old(tags)@,
            tv == jar_tag_list_view(tags@),
            v == names_of(values@),
            set_tag(tv, name@, v) == tv.take(p as int) + set_tag(tv.skip(p as int), name@, v),
        decreases tags.len() - p,
    {
        let ghost rest = tv.skip(p as int);
        assert(rest[0] == tv[p as int]);
        if tags[p].name == name {
            let ghost k = name@;
            tags.set(p, JarTag { name, values });
            proof {
                assert(rest.drop_first() =~= tv.skip(p + 1));
                assert(jar_tag_list_view(tags@) =~= tv.take(p as int) + seq![(k, v)] + tv.skip(p + 1));
            }
            return;
        }
        proof {
            assert(rest.drop_first() =~= tv.skip(p + 1));
            assert(tv.take(p as int) + seq![rest[0]] =~= tv.take(p + 1));
        }
        p = p + 1;
    }
    proof {
        assert(tv.skip(p as int) =~= Seq::<(Seq<char>, Seq<Seq<char>>)>::empty());
        assert(tv.take(p as int) =~= tv);
    }
    let ghost k = name@;
    tags.push(JarTag { name, values });
    proof {
        assert(jar_tag_list_view(tags@) =~= tv + seq![(k, v)]);
    }
}

/// The tags that the files give a registry (see [`registry_jar_tags`]).
fn registry_jar_tags_of(files: &Vec<ZipEntry>, reg: &str) -> (r: Vec<JarTag>)
    ensures
        jar_tag_list_view(r@) == registry_jar_tags(files@.map_values(|e: ZipEntry| zip_entry_view(e)), reg@),
{
    let ghost es = files@.map_values(|e: ZipEntry| zip_entry_view(e));
    let mut r: Vec<JarTag> = Vec::new();
    let mut i: usize = 0;
    proof {
        assert(es.take(0) =~= Seq::<(Seq<char>, Option<Seq<u8>>)>::empty());
        assert(jar_tag_list_view(r@) =~= Seq::<(Seq<char>, Seq<Seq<char>>)>::empty());
    }
    while i < files.len()
        invariant
            i <= files.len(),
            es == files@.map_values(|e: ZipEntry| zip_entry_view(e)),
            jar_tag_list_view(r@) == registry_jar_tags(es.take(i as int), reg@),
        decreases files.len() - i,
    {
        proof {
            let pre = es.take(i + 1);
            assert(pre.drop_last() =~= es.take(i as int));
            assert(pre.last() == es[i as int]);
        }
        match tag_entry_name(reg, files[i].name.as_str()) {
            Some(t) => match entry_text_of(&files[i]) {
                Some(txt) => {
                    proof {
                        reveal_strlit("values");
                    }
                    match read_json_list_field(txt, "values") {
                        Some(Some(vs)) => {
                            let v = strings_of(&vs);
                            if v.len() > 0 {
                                set_jar_tag(&mut r, t, v);
                            }
                        },
                        _ => {},
                    }
                },
                None => {},
            },
            None => {},
        }
        i = i + 1;
    }
    proof {
        assert(es.take(files.len() as int) =~= es);
    }
    r
}

/// The tags of the version jar (see [`spec_jar_dynamic_tags`]).
pub fn jar_dynamic_tags(version_jar: &[u8]) -> (r: Vec<JarTags>)
    ensures
        jar_tags_view(r@) == spec_jar_dynamic_tags(version_jar@),
{
    let files = match read_zip(version_jar) {
        Some(f) => f,
        None => return Vec::new(),
    };
    let ghost es = files@.map_values(|e: ZipEntry| zip_entry_view(e));
    let regs = jar_tag_registry_names();
    let ghost rv = strs(regs@);
    let mut out: Vec<JarTags> = Vec::new();
    let mut i: usize = 0;
    proof {
        assert(rv.take(0) =~= Seq::<Seq<char>>::empty());
        assert(jar_tags_view(out@) =~= Seq::<(Seq<char>, Seq<(Seq<char>, Seq<Seq<char>>)>)>::empty());
    }
    while i < regs.len()
        invariant
            i <= regs.len(),
            rv == strs(regs@),
            rv == spec_jar_tag_registry_names(),
            es == files@.map_values(|e: ZipEntry| zip_entry_view(e)),
            jar_tags_view(out@) == jar_tags_for(es, rv.take(i as int)),
        decreases regs.len() - i,
    {
        proof {
            let pre = rv.take(i + 1);
            assert(pre.drop_last() =~= rv.take(i as int));
            assert(pre.last() == rv[i as int]);
        }
        let tags = registry_jar_tags_of(&files, regs[i].as_str());
        if tags.len() > 0 {
            let ghost before = out@;
            let registry = prefixed_minecraft(regs[i].as_str());
            let ghost entry = (registry@, jar_tag_list_view(tags@));
            out.push(JarTags { registry, tags });
            proof {
                assert(jar_tags_view(out@) =~= jar_tags_view(before).push(entry));
            }
        }
        i = i + 1;
    }
    proof {
        assert(rv.take(regs.len() as int) =~= rv);
    }
    out
}

// ---------------------------------------------------------------------
// The dynamic registries of the jar
// ---------------------------------------------------------------------

/// An entry of a dynamic registry read from the jar: its name and the JSON
/// text of its file.
#[derive(Debug)]
pub struct JarRegistryEntry {
    pub name: String,
    pub json: String,
}

/// A dynamic registry read from the jar, under its name in the `minecraft`
/// namespace, with its entries ordered by name.
#[derive(Debug)]
pub struct JarRegistryFiles {
    pub registry: String,
    pub entries: Vec<JarRegistryEntry>,
}

pub open spec fn registry_entries_view(e: Seq<JarRegistryEntry>) -> Seq<(Seq<char>, Seq<char>)> {
    e.map_values(|x: JarRegistryEntry| (x.name@, x.json@))
}

pub open spec fn jar_registry_files_view(r: Seq<JarRegistryFiles>) -> Seq<(Seq<char>, Seq<(Seq<char>, Seq<char>)>)> {
    r.map_values(|x: JarRegistryFiles| (x.registry@, registry_entries_view(x.entries@)))
}

/// The entries that the files give a registry, in the archive's order: each
/// JSON file of the registry's directory whose text is JSON, under its entry
/// name, with its text.
pub open spec fn registry_jar_files(es: Entries, reg: Seq<char>) -> Seq<(Seq<char>, Seq<char>)>
    decreases es.len(),
{
    if es.len() == 0 {
        Seq::empty()
    } else {
        let acc = registry_jar_files(es.drop_last(), reg);
        let e = es.last();
        match spec_registry_entry_name(reg, e.0) {
            None => acc,
            Some(id) => match entry_text(e) {
                None => acc,
                Some(t) => if json_list_field(t, ""@) is Some {
                    acc.push((id, t))
                } else {
                    acc
                },
            },
        }
    }
}

/// Each registry of `regs` that has entries, under its name in the
/// `minecraft` namespace, with its entries ordered by name.
pub open spec fn jar_registries_for(es: Entries, regs: Seq<Seq<char>>) -> Seq<(Seq<char>, Seq<(Seq<char>, Seq<char>)>)>
    decreases regs.len(),
{
    if regs.len() == 0 {
        Seq::empty()
    } else {
        let acc = jar_registries_for(es, regs.drop_last());
        let f = sort_by_name(registry_jar_files(es, regs.last()));
        if f.len() > 0 {
            acc.push(("minecraft:"@ + regs.last(), f))
        } else {
            acc
        }
    }
}

/// The dynamic registries of the version jar: none where it is no archive.
pub open spec fn spec_jar_dynamic_registries(version_jar: Seq<u8>) -> Seq<(Seq<char>, Seq<(Seq<char>, Seq<char>)>)> {
    match zip_entries(version_jar) {
        None => Seq::empty(),
        Some(es) => jar_registries_for(es, spec_jar_dynamic_registry_names()),
    }
}

/// The entries that the files give a registry, ordered by name (see
/// [`registry_jar_files`]).
fn registry_jar_files_of(files: &Vec<ZipEntry>, reg: &str) -> (r: Vec<JarRegistryEntry>)
    ensures
        registry_entries_view(r@) == sort_by_name(
            registry_jar_files(files@.map_values(|e: ZipEntry| zip_entry_view(e)), reg@),
        ),
{
    let ghost es = files@.map_values(|e: ZipEntry| zip_entry_view(e));
    let mut r: Vec<JarRegistryEntry> = Vec::new();
    let mut keys: Vec<Vec<char>> = Vec::new();
    let mut i: usize = 0;
    proof {
        assert(es.take(0) =~= Seq::<(Seq<char>, Option<Seq<u8>>)>::empty());
        assert(registry_entries_view(r@) =~= Seq::<(Seq<char>, Seq<char>)>::empty());
    }
    while i < files.len()
        invariant
            i <= files.len(),
            es == files@.map_values(|e: ZipEntry| zip_entry_view(e)),
            registry_entries_view(r@) == sort_by_name(registry_jar_files(es.take(i as int), reg@)),
            keys@.map_values(|c: Vec<char>| c@) == firsts(registry_entries_view(r@)),
            keys@.len() == r@.len(),
        decreases files.len() - i,
    {
        proof {
            let pre = es.take(i + 1);
            assert(pre.drop_last() =~= es.take(i as int));
            assert(pre.last() == es[i as int]);
        }
        match registry_entry_name(reg, files[i].name.as_str()) {
            Some(id) => match entry_text_of(&files[i]) {
                Some(txt) => {
                    proof {
                        reveal_strlit("");
                    }
                    let parsed = read_json_list_field(txt, "");
                    if parsed.is_some() {
                        let ghost item = (id@, txt@);
                        let ghost before = registry_jar_files(es.take(i as int), reg@);
                        let key = chars_of(id.as_str());
                        let p = find_name_pos(&keys, &key);
                        let ghost kv = keys@;
                        let ghost rv = r@;
                        let entry = JarRegistryEntry { name: id, json: txt.to_owned() };
                        r.insert(p, entry);
                        keys.insert(p, key);
                        proof {
                            assert(registry_jar_files(es.take(i + 1), reg@) == before.push(item));
                            assert(before.push(item).drop_last() =~= before);
                            assert(registry_entries_view(r@) =~= registry_entries_view(rv).insert(p as int, item));
                            assert(keys@.map_values(|c: Vec<char>| c@) =~= kv.map_values(|c: Vec<char>| c@).insert(
                                p as int,
                                item.0,
                            ));
                            assert(firsts(registry_entries_view(r@)) =~= firsts(registry_entries_view(rv)).insert(
                                p as int,
                                item.0,
                            ));
                        }
                    }
                },
                None => {},
            },
            None => {},
        }
        i = i + 1;
    }
    proof {
        assert(es.take(files.len() as int) =~= es);
    }
    r
}

/// The dynamic registries of the version jar (see
/// [`spec_jar_dynamic_registries`]). The JSON of each entry is kept as text.
pub fn jar_dynamic_registries(version_jar: &[u8]) -> (r: Vec<JarRegistryFiles>)
    ensures
        jar_registry_files_view(r@) == spec_jar_dynamic_registries(version_jar@),
{
    let files = match read_zip(version_jar) {
        Some(f) => f,
        None => return Vec::new(),
    };
    let ghost es = files@.map_values(|e: ZipEntry| zip_entry_view(e));
    let regs = jar_dynamic_registry_names();
    let ghost rv = strs(regs@);
    let mut out: Vec<JarRegistryFiles> = Vec::new();
    let mut i: usize = 0;
    proof {
        assert(rv.take(0) =~= Seq::<Seq<char>>::empty());
        assert(jar_registry_files_view(out@) =~= Seq::<(Seq<char>, Seq<(Seq<char>, Seq<char>)>)>::empty());
    }
    while i < regs.len()
        invariant
            i <= regs.len(),
            rv == strs(regs@),
            rv == spec_jar_dynamic_registry_names(),
            es == files@.map_values(|e: ZipEntry| zip_entry_view(e)),
            jar_registry_files_view(out@) == jar_registries_for(es, rv.take(i as int)),
        decreases regs.len() - i,
    {
        proof {
            let pre = rv.take(i + 1);
            assert(pre.drop_last() =~= rv.take(i as int));
            assert(pre.last() == rv[i as int]);
        }
        let entries = registry_jar_files_of(&files, regs[i].as_str());
        if entries.len() > 0 {
            let ghost before = out@;
            let registry = prefixed_minecraft(regs[i].as_str());
            let ghost entry = (registry@, registry_entries_view(entries@));
            out.push(JarRegistryFiles { registry, entries });
            proof {
                assert(jar_registry_files_view(out@) =~= jar_registry_files_view(before).push(entry));
            }
        }
        i = i + 1;
    }
    proof {
        assert(rv.take(regs.len() as int) =~= rv);
    }
    out
}

/// Each registry that the jar gives is a registry of `regs` under its name
/// in the `minecraft` namespace, has at least one entry, and has its entries
/// ordered by name; the entries are those its files give, each as many
/// times.
pub proof fn lemma_jar_registries_for_shape(es: Entries, regs: Seq<Seq<char>>)
    ensures
        forall|i: int|
            0 <= i < jar_registries_for(es, regs).len() ==> {
                let r = #[trigger] jar_registries_for(es, regs)[i];
                &&& exists|j: int| 0 <= j < regs.len() && r.0 == "minecraft:"@ + regs[j]
                &&& r.1.len() > 0
                &&& crate::registry_sync::names_sorted(firsts(r.1))
                &&& exists|j: int|
                    0 <= j < regs.len() && r.0 == "minecraft:"@ + regs[j] && r.1.to_multiset()
                        == registry_jar_files(es, regs[j]).to_multiset()
            },
    decreases regs.len(),
{
    if regs.len() > 0 {
        let d = regs.drop_last();
        lemma_jar_registries_for_shape(es, d);
        let acc = jar_registries_for(es, d);
        let last = regs[regs.len() - 1];
        let f = sort_by_name(registry_jar_files(es, last));
        crate::registry_sync::lemma_sort_by_name(registry_jar_files(es, last));
        let out = jar_registries_for(es, regs);
        assert forall|i: int| 0 <= i < out.len() implies {
            let r = #[trigger] out[i];
            &&& exists|j: int| 0 <= j < regs.len() && r.0 == "minecraft:"@ + regs[j]
            &&& r.1.len() > 0
            &&& crate::registry_sync::names_sorted(firsts(r.1))
            &&& exists|j: int|
                0 <= j < regs.len() && r.0 == "minecraft:"@ + regs[j] && r.1.to_multiset()
                    == registry_jar_files(es, regs[j]).to_multiset()
        } by {
            if i < acc.len() {
                assert(out[i] == acc[i]);
                let j = choose|j: int|
                    0 <= j < d.len() && acc[i].0 == "minecraft:"@ + d[j] && acc[i].1.to_multiset()
                        == registry_jar_files(es, d[j]).to_multiset();
                assert(d[j] == regs[j]);
            } else {
                assert(out[i] == ("minecraft:"@ + last, f));
                assert(regs[regs.len() - 1] == last);
            }
        }
    }
}

/// The dynamic registries of the version jar: each is one of the jar's
/// dynamic registries (see [`spec_jar_dynamic_registry_names`]) under its
/// name in the `minecraft` namespace, has at least one entry, has its
/// entries ordered by name, and holds the entries its files give, each as
/// many times; there are none where the jar is no archive.
pub proof fn lemma_jar_dynamic_registries_shape(version_jar: Seq<u8>)
    ensures
        zip_entries(version_jar) is None ==> spec_jar_dynamic_registries(version_jar).len() == 0,
        forall|i: int|
            0 <= i < spec_jar_dynamic_registries(version_jar).len() ==> {
                let r = #[trigger] spec_jar_dynamic_registries(version_jar)[i];
                let names = spec_jar_dynamic_registry_names();
                &&& r.1.len() > 0
                &&& crate::registry_sync::names_sorted(firsts(r.1))
                &&& exists|j: int|
                    0 <= j < names.len() && r.0 == "minecraft:"@ + names[j] && zip_entries(version_jar) is Some
                        && r.1.to_multiset() == registry_jar_files(zip_entries(version_jar).unwrap(), names[j]).to_multiset()
            },
{
    if let Some(es) = zip_entries(version_jar) {
        lemma_jar_registries_for_shape(es, spec_jar_dynamic_registry_names());
    }
}

} // verus!
