//! Which registries the server sends a client during configuration, in what
//! order, and where the entries of each come from.
use vstd::prelude::*;
use crate::dimension::chars_of;
use crate::tags::{name_less, name_lt, lemma_name_lt_transitive, lemma_name_lt_irreflexive};

verus! {

/// Where the entries of a registry that is sent come from.
#[derive(Clone, Copy, Debug, PartialEq, Eq, Structural)]
pub enum RegistrySource {
    /// The entry names of the registry list, without data: the client has
    /// the data built in.
    CoreNames,
    /// The entries read from the server jar, with their data.
    Jar,
    /// The entries of the registry codec, with their data.
    Codec,
    /// The entry names of the registry list, each with an empty compound.
    Placeholder,
    /// The entry names of the registry codec, without data.
    CodecNames,
}

/// One registry data packet to send.
#[derive(Debug)]
pub struct RegistrySend {
    pub registry: String,
    pub source: RegistrySource,
}

/// A registry and the number of its entries.
#[derive(Debug)]
pub struct NamedCount {
    pub name: String,
    pub entries: usize,
}

pub open spec fn strs(v: Seq<String>) -> Seq<Seq<char>> {
    v.map_values(|s: String| s@)
}

pub open spec fn counted(v: Seq<NamedCount>) -> Seq<(Seq<char>, nat)> {
    v.map_values(|c: NamedCount| (c.name@, c.entries as nat))
}

pub open spec fn names(v: Seq<(Seq<char>, nat)>) -> Seq<Seq<char>> {
    v.map_values(|c: (Seq<char>, nat)| c.0)
}

pub open spec fn sends_view(v: Seq<RegistrySend>) -> Seq<(Seq<char>, RegistrySource)> {
    v.map_values(|r: RegistrySend| (r.registry@, r.source))
}

/// The source of a registry of the registry list: built in if it is a core
/// registry, else the jar's entries if the jar has it, else the codec's if
/// the codec has it, else empty compounds.
pub open spec fn listed_source(
    name: Seq<char>,
    core: Seq<Seq<char>>,
    jar: Seq<Seq<char>>,
    codec: Seq<Seq<char>>,
) -> RegistrySource {
    if core.contains(name) {
        RegistrySource::CoreNames
    } else if jar.contains(name) {
        RegistrySource::Jar
    } else if codec.contains(name) {
        RegistrySource::Codec
    } else {
        RegistrySource::Placeholder
    }
}

/// The registries of `items` sent after those in `sent`: each one that is not
/// sent yet, has entries, and (where `core_only`) is a core registry, once;
/// and the names sent by then.
pub open spec fn extra_sends(
    items: Seq<(Seq<char>, nat)>,
    sent: Set<Seq<char>>,
    core: Seq<Seq<char>>,
    core_only: bool,
    source: RegistrySource,
) -> (Seq<(Seq<char>, RegistrySource)>, Set<Seq<char>>)
    decreases items.len(),
{
    if items.len() == 0 {
        (Seq::empty(), sent)
    } else {
        let (name, count) = items[0];
        if !sent.contains(name) && count > 0 && (!core_only || core.contains(name)) {
            let rest = extra_sends(items.drop_first(), sent.insert(name), core, core_only, source);
            (seq![(name, source)] + rest.0, rest.1)
        } else {
            extra_sends(items.drop_first(), sent, core, core_only, source)
        }
    }
}

/// The registry data packets of the configuration phase. Where the client
/// knows the core pack: each registry of the registry list, from the source
/// `listed_source` picks; then each registry of the jar not sent yet; then
/// each core registry of the codec not sent yet, by name only. Where it does
/// not: each registry of the codec but the enchantments, with the codec's
/// entries.
pub open spec fn spec_registry_sends(
    core_known: bool,
    listed: Seq<Seq<char>>,
    core: Seq<Seq<char>>,
    jar: Seq<(Seq<char>, nat)>,
    codec: Seq<(Seq<char>, nat)>,
) -> Seq<(Seq<char>, RegistrySource)> {
    if core_known {
        let first = listed.map_values(
            |n: Seq<char>| (n, listed_source(n, core, names(jar), names(codec))),
        );
        let second = extra_sends(jar, listed.to_set(), core, false, RegistrySource::Jar);
        let third = extra_sends(codec, second.1, core, true, RegistrySource::CodecNames);
        first + second.0 + third.0
    } else {
        names(codec).filter(|n: Seq<char>| n != "minecraft:enchantment"@).map_values(
            |n: Seq<char>| (n, RegistrySource::Codec),
        )
    }
}

/// The registry names of planned sends.
pub open spec fn sent_names(v: Seq<(Seq<char>, RegistrySource)>) -> Seq<Seq<char>> {
    v.map_values(|e: (Seq<char>, RegistrySource)| e.0)
}

proof fn lemma_extra_sends(
    items: Seq<(Seq<char>, nat)>,
    sent: Set<Seq<char>>,
    core: Seq<Seq<char>>,
    core_only: bool,
    source: RegistrySource,
)
    ensures
        sent_names(extra_sends(items, sent, core, core_only, source).0).no_duplicates(),
        forall|i: int|
            0 <= i < extra_sends(items, sent, core, core_only, source).0.len() ==> !sent.contains(
                #[trigger] extra_sends(items, sent, core, core_only, source).0[i].0,
            ) && extra_sends(items, sent, core, core_only, source).1.contains(
                extra_sends(items, sent, core, core_only, source).0[i].0,
            ),
        sent.subset_of(extra_sends(items, sent, core, core_only, source).1),
    decreases items.len(),
{
    if items.len() > 0 {
        let (name, count) = items[0];
        if !sent.contains(name) && count > 0 && (!core_only || core.contains(name)) {
            let rest = extra_sends(items.drop_first(), sent.insert(name), core, core_only, source);
            lemma_extra_sends(items.drop_first(), sent.insert(name), core, core_only, source);
            let out = seq![(name, source)] + rest.0;
            assert forall|i: int| 0 <= i < out.len() implies !sent.contains(#[trigger] out[i].0) && rest.1.contains(
                out[i].0,
            ) by {
                if i > 0 {
                    assert(out[i] == rest.0[i - 1]);
                }
            }
            assert forall|i: int, j: int| 0 <= i < j < sent_names(out).len() implies sent_names(out)[i]
                != sent_names(out)[j] by {
                assert(sent_names(out)[j] == rest.0[j - 1].0);
                if i > 0 {
                    assert(sent_names(out)[i] == rest.0[i - 1].0);
                    assert(sent_names(rest.0)[i - 1] == rest.0[i - 1].0);
                    assert(sent_names(rest.0)[j - 1] == rest.0[j - 1].0);
                }
            }
        } else {
            lemma_extra_sends(items.drop_first(), sent, core, core_only, source);
        }
    }
}

proof fn lemma_filter_no_dup(s: Seq<Seq<char>>, p: spec_fn(Seq<char>) -> bool)
    requires
        s.no_duplicates(),
    ensures
        s.filter(p).no_duplicates(),
        forall|i: int| 0 <= i < s.filter(p).len() ==> s.contains(#[trigger] s.filter(p)[i]),
    decreases s.len(),
{
    reveal(Seq::filter);
    if s.len() > 0 {
        let d = s.drop_last();
        assert(d.no_duplicates()) by {
            assert forall|i: int, j: int| 0 <= i < j < d.len() implies d[i] != d[j] by {
                assert(d[i] == s[i] && d[j] == s[j]);
            }
        }
        lemma_filter_no_dup(d, p);
        let sub = d.filter(p);
        assert(s.filter(p) == if p(s.last()) { sub.push(s.last()) } else { sub });
        assert forall|i: int| 0 <= i < sub.len() implies s.contains(#[trigger] sub[i]) && sub[i] != s.last() by {
            assert(d.contains(sub[i]));
            let k = choose|k: int| 0 <= k < d.len() && d[k] == sub[i];
            assert(s[k] == sub[i]);
            assert(s[s.len() - 1] == s.last());
        }
        if p(s.last()) {
            let out = sub.push(s.last());
            assert forall|i: int, j: int| 0 <= i < j < out.len() implies out[i] != out[j] by {
                if j == out.len() - 1 {
                    assert(out[i] == sub[i]);
                } else {
                    assert(out[i] == sub[i] && out[j] == sub[j]);
                }
            }
            assert forall|i: int| 0 <= i < out.len() implies s.contains(#[trigger] out[i]) by {
                if i < sub.len() {
                    assert(out[i] == sub[i]);
                } else {
                    assert(s[s.len() - 1] == out[i]);
                }
            }
        }
    }
}

/// Where the registry list names each registry once (and, where the client
/// does not know the core pack, so does the codec), every registry is sent
/// at most once.
pub proof fn lemma_registry_sends_distinct(
    core_known: bool,
    listed: Seq<Seq<char>>,
    core: Seq<Seq<char>>,
    jar: Seq<(Seq<char>, nat)>,
    codec: Seq<(Seq<char>, nat)>,
)
    requires
        core_known ==> listed.no_duplicates(),
        !core_known ==> names(codec).no_duplicates(),
    ensures
        sent_names(spec_registry_sends(core_known, listed, core, jar, codec)).no_duplicates(),
{
    let out = spec_registry_sends(core_known, listed, core, jar, codec);
    if core_known {
        let first = listed.map_values(|n: Seq<char>| (n, listed_source(n, core, names(jar), names(codec))));
        let second = extra_sends(jar, listed.to_set(), core, false, RegistrySource::Jar);
        let third = extra_sends(codec, second.1, core, true, RegistrySource::CodecNames);
        lemma_extra_sends(jar, listed.to_set(), core, false, RegistrySource::Jar);
        lemma_extra_sends(codec, second.1, core, true, RegistrySource::CodecNames);
        assert(out == first + second.0 + third.0);
        let n1 = first.len();
        let n2 = second.0.len();
        assert forall|i: int, j: int| 0 <= i < j < sent_names(out).len() implies sent_names(out)[i]
            != sent_names(out)[j] by {
            let a = out[i].0;
            let b = out[j].0;
            assert(sent_names(out)[i] == a && sent_names(out)[j] == b);
            if j < n1 {
                assert(a == listed[i] && b == listed[j]);
            } else if j < n1 + n2 {
                assert(b == second.0[j - n1].0);
                if i < n1 {
                    assert(a == listed[i]);
                    assert(listed.to_set().contains(a));
                } else {
                    assert(a == second.0[i - n1].0);
                    assert(sent_names(second.0)[i - n1] == a);
                    assert(sent_names(second.0)[j - n1] == b);
                }
            } else {
                assert(b == third.0[j - n1 - n2].0);
                assert(!second.1.contains(b));
                if i < n1 {
                    assert(a == listed[i]);
                    assert(listed.to_set().contains(a));
                } else if i < n1 + n2 {
                    assert(a == second.0[i - n1].0);
                } else {
                    assert(a == third.0[i - n1 - n2].0);
                    assert(sent_names(third.0)[i - n1 - n2] == a);
                    assert(sent_names(third.0)[j - n1 - n2] == b);
                }
            }
        }
    } else {
        let f = names(codec).filter(|n: Seq<char>| n != "minecraft:enchantment"@);
        lemma_filter_no_dup(names(codec), |n: Seq<char>| n != "minecraft:enchantment"@);
        assert(sent_names(out) =~= f);
    }
}

proof fn lemma_extra_sends_from(
    items: Seq<(Seq<char>, nat)>,
    sent: Set<Seq<char>>,
    core: Seq<Seq<char>>,
    core_only: bool,
    source: RegistrySource,
)
    ensures
        forall|i: int|
            0 <= i < extra_sends(items, sent, core, core_only, source).0.len() ==> names(items).contains(
                (#[trigger] extra_sends(items, sent, core, core_only, source).0[i]).0,
            ) && extra_sends(items, sent, core, core_only, source).0[i].1 == source,
    decreases items.len(),
{
    if items.len() > 0 {
        let (name, count) = items[0];
        let d = items.drop_first();
        assert forall|k: int| 0 <= k < d.len() implies names(items).contains(#[trigger] names(d)[k]) by {
            assert(names(items)[k + 1] == names(d)[k]);
        }
        assert(names(items)[0] == name);
        if !sent.contains(name) && count > 0 && (!core_only || core.contains(name)) {
            let rest = extra_sends(d, sent.insert(name), core, core_only, source);
            lemma_extra_sends_from(d, sent.insert(name), core, core_only, source);
            let out = seq![(name, source)] + rest.0;
            assert forall|i: int| 0 <= i < out.len() implies names(items).contains((#[trigger] out[i]).0)
                && out[i].1 == source by {
                if i > 0 {
                    assert(out[i] == rest.0[i - 1]);
                    let k = choose|k: int| 0 <= k < names(d).len() && names(d)[k] == rest.0[i - 1].0;
                }
            }
        } else {
            let rest = extra_sends(d, sent, core, core_only, source);
            lemma_extra_sends_from(d, sent, core, core_only, source);
            assert forall|i: int| 0 <= i < rest.0.len() implies names(items).contains((#[trigger] rest.0[i]).0)
                && rest.0[i].1 == source by {
                let k = choose|k: int| 0 <= k < names(d).len() && names(d)[k] == rest.0[i].0;
            }
        }
    }
}

/// Where the client knows the core pack and the jar holds no core registry
/// that the registry list lacks, every core registry is sent by its entry
/// names only, without data.
pub proof fn lemma_core_sends_without_data(
    listed: Seq<Seq<char>>,
    core: Seq<Seq<char>>,
    jar: Seq<(Seq<char>, nat)>,
    codec: Seq<(Seq<char>, nat)>,
)
    requires
        forall|n: Seq<char>| names(jar).contains(n) && core.contains(n) ==> listed.contains(n),
    ensures
        forall|i: int|
            0 <= i < spec_registry_sends(true, listed, core, jar, codec).len() && core.contains(
                (#[trigger] spec_registry_sends(true, listed, core, jar, codec)[i]).0,
            ) ==> spec_registry_sends(true, listed, core, jar, codec)[i].1 == RegistrySource::CoreNames
                || spec_registry_sends(true, listed, core, jar, codec)[i].1 == RegistrySource::CodecNames,
{
    let out = spec_registry_sends(true, listed, core, jar, codec);
    let first = listed.map_values(|n: Seq<char>| (n, listed_source(n, core, names(jar), names(codec))));
    let second = extra_sends(jar, listed.to_set(), core, false, RegistrySource::Jar);
    let third = extra_sends(codec, second.1, core, true, RegistrySource::CodecNames);
    lemma_extra_sends(jar, listed.to_set(), core, false, RegistrySource::Jar);
    lemma_extra_sends_from(jar, listed.to_set(), core, false, RegistrySource::Jar);
    lemma_extra_sends_from(codec, second.1, core, true, RegistrySource::CodecNames);
    assert(out == first + second.0 + third.0);
    let n1 = first.len();
    let n2 = second.0.len();
    assert forall|i: int| 0 <= i < out.len() && core.contains((#[trigger] out[i]).0) implies out[i].1
        == RegistrySource::CoreNames || out[i].1 == RegistrySource::CodecNames by {
        if i < n1 {
            assert(out[i] == first[i]);
        } else if i < n1 + n2 {
            let e = second.0[i - n1];
            assert(out[i] == e);
            assert(!listed.to_set().contains(e.0));
            assert(names(jar).contains(e.0));
        } else {
            assert(out[i] == third.0[i - n1 - n2]);
        }
    }
}

/// Where the client knows the core pack, the registries of the registry
/// list are sent first, in the list's order.
pub proof fn lemma_listed_sent_first(
    listed: Seq<Seq<char>>,
    core: Seq<Seq<char>>,
    jar: Seq<(Seq<char>, nat)>,
    codec: Seq<(Seq<char>, nat)>,
)
    ensures
        spec_registry_sends(true, listed, core, jar, codec).len() >= listed.len(),
        forall|i: int|
            0 <= i < listed.len() ==> (#[trigger] spec_registry_sends(true, listed, core, jar, codec)[i]).0 == listed[i],
{
    let out = spec_registry_sends(true, listed, core, jar, codec);
    let first = listed.map_values(|n: Seq<char>| (n, listed_source(n, core, names(jar), names(codec))));
    let second = extra_sends(jar, listed.to_set(), core, false, RegistrySource::Jar);
    let third = extra_sends(codec, second.1, core, true, RegistrySource::CodecNames);
    assert(out == first + second.0 + third.0);
    assert forall|i: int| 0 <= i < listed.len() implies (#[trigger] out[i]).0 == listed[i] by {
        assert(out[i] == first[i]);
    }
}

/// Where the client does not know the core pack, every registry is sent
/// with the codec's entries, and the enchantments never.
pub proof fn lemma_sends_without_core_pack(
    listed: Seq<Seq<char>>,
    core: Seq<Seq<char>>,
    jar: Seq<(Seq<char>, nat)>,
    codec: Seq<(Seq<char>, nat)>,
)
    ensures
        forall|i: int|
            0 <= i < spec_registry_sends(false, listed, core, jar, codec).len() ==> (#[trigger] spec_registry_sends(
                false,
                listed,
                core,
                jar,
                codec,
            )[i]).0 != "minecraft:enchantment"@ && spec_registry_sends(false, listed, core, jar, codec)[i].1
                == RegistrySource::Codec,
{
    let pred = |n: Seq<char>| n != "minecraft:enchantment"@;
    let f = names(codec).filter(pred);
    let out = spec_registry_sends(false, listed, core, jar, codec);
    assert forall|i: int| 0 <= i < out.len() implies (#[trigger] out[i]).0 != "minecraft:enchantment"@ && out[i].1
        == RegistrySource::Codec by {
        names(codec).lemma_filter_pred(pred, i);
        assert(out[i] == (f[i], RegistrySource::Codec));
    }
}

fn contains_name(v: &Vec<String>, s: &String) -> (r: bool)
    ensures
        r == strs(v@).contains(s@),
{
    let mut i: usize = 0;
    while i < v.len()
        invariant
            i <= v.len(),
            forall|j: int| 0 <= j < i ==> v@[j]@ != s@,
        decreases v.len() - i,
    {
        if v[i] == *s {
            assert(strs(v@)[i as int] == s@);
            return true;
        }
        i = i + 1;
    }
    assert(!strs(v@).contains(s@)) by {
        if strs(v@).contains(s@) {
            let j = choose|j: int| 0 <= j < strs(v@).len() && strs(v@)[j] == s@;
            assert(v@[j]@ == s@);
        }
    }
    false
}

fn contains_counted(v: &Vec<NamedCount>, s: &String) -> (r: bool)
    ensures
        r == names(counted(v@)).contains(s@),
{
    let mut i: usize = 0;
    while i < v.len()
        invariant
            i <= v.len(),
            forall|j: int| 0 <= j < i ==> v@[j].name@ != s@,
        decreases v.len() - i,
    {
        if v[i].name == *s {
            assert(names(counted(v@))[i as int] == s@);
            return true;
        }
        i = i + 1;
    }
    assert(!names(counted(v@)).contains(s@)) by {
        if names(counted(v@)).contains(s@) {
            let j = choose|j: int|
                0 <= j < names(counted(v@)).len() && names(counted(v@))[j] == s@;
            assert(v@[j].name@ == s@);
        }
    }
    false
}

proof fn lemma_to_set_push(s: Seq<Seq<char>>, x: Seq<char>)
    ensures
        s.push(x).to_set() == s.to_set().insert(x),
{
    assert forall|y: Seq<char>| s.push(x).to_set().contains(y) <==> s.to_set().insert(x).contains(
        y,
    ) by {
        if s.push(x).contains(y) {
            let i = choose|i: int| 0 <= i < s.push(x).len() && s.push(x)[i] == y;
            if i < s.len() {
                assert(s[i] == y);
            }
        }
        if s.contains(y) {
            let i = choose|i: int| 0 <= i < s.len() && s[i] == y;
            assert(s.push(x)[i] == y);
        }
        if y == x {
            assert(s.push(x)[s.len() as int] == x);
        }
    }
    assert(s.push(x).to_set() =~= s.to_set().insert(x));
}

proof fn lemma_extra_step(
    items: Seq<(Seq<char>, nat)>,
    i: int,
    sent: Set<Seq<char>>,
    core: Seq<Seq<char>>,
    core_only: bool,
    source: RegistrySource,
)
    requires
        0 <= i < items.len(),
    ensures
        ({
            let here = extra_sends(items.subrange(i, items.len() as int), sent, core, core_only, source);
            let (name, count) = items[i];
            let next = items.subrange(i + 1, items.len() as int);
            if !sent.contains(name) && count > 0 && (!core_only || core.contains(name)) {
                let rest = extra_sends(next, sent.insert(name), core, core_only, source);
                here.0 == seq![(name, source)] + rest.0 && here.1 == rest.1
            } else {
                here == extra_sends(next, sent, core, core_only, source)
            }
        }),
{
    assert(items.subrange(i, items.len() as int).drop_first() =~= items.subrange(
        i + 1,
        items.len() as int,
    ));
}

/// Appends the registries of `items` that `extra_sends` picks, and records
/// each in `sent`.
fn push_extra_sends(
    out: &mut Vec<RegistrySend>,
    sent: &mut Vec<String>,
    items: &Vec<NamedCount>,
    core: &Vec<String>,
    core_only: bool,
    source: RegistrySource,
)
    ensures
        ({
            let r = extra_sends(
                counted(items@),
                strs(old(sent)@).to_set(),
                strs(core@),
                core_only,
                source,
            );
            &&& sends_view(final(out)@) == sends_view(old(out)@) + r.0
            &&& strs(final(sent)@).to_set() == r.1
        }),
{
    let ghost total = extra_sends(
        counted(items@),
        strs(sent@).to_set(),
        strs(core@),
        core_only,
        source,
    );
    let ghost out0 = sends_view(out@);
    let ghost c = counted(items@);
    assert(c.subrange(0, c.len() as int) =~= c);
    let mut i: usize = 0;
    while i < items.len()
        invariant
            i <= items.len(),
            c == counted(items@),
            ({
                let rest = extra_sends(
                    c.subrange(i as int, c.len() as int),
                    strs(sent@).to_set(),
                    strs(core@),
                    core_only,
                    source,
                );
                &&& sends_view(out@) + rest.0 == out0 + total.0
                &&& rest.1 == total.1
            }),
        decreases items.len() - i,
    {
        proof {
            lemma_extra_step(c, i as int, strs(sent@).to_set(), strs(core@), core_only, source);
        }
        let name = &items[i].name;
        let is_sent = contains_name(sent, name);
        let is_core = contains_name(core, name);
        if !is_sent && items[i].entries > 0 && (!core_only || is_core) {
            let ghost before = sends_view(out@);
            out.push(RegistrySend { registry: name.clone(), source });
            assert(sends_view(out@) =~= before + seq![(name@, source)]);
            let ghost sent_before = strs(sent@);
            sent.push(name.clone());
            assert(strs(sent@) =~= sent_before.push(name@));
            proof {
                lemma_to_set_push(sent_before, name@);
            }
        }
        i = i + 1;
    }
    assert(c.subrange(c.len() as int, c.len() as int) =~= Seq::<(Seq<char>, nat)>::empty());
}

/// The registry data packets to send in the configuration phase, in order,
/// with the source of each one's entries (see `spec_registry_sends`).
/// `listed` are the registries of the registry list, `core` the core
/// registries, `jar` the registries read from the server jar and `codec`
/// those of the registry codec, each with the number of its entries.
pub fn plan_registry_sends(
    core_known: bool,
    listed: &Vec<String>,
    core: &Vec<String>,
    jar: &Vec<NamedCount>,
    codec: &Vec<NamedCount>,
) -> (r: Vec<RegistrySend>)
    ensures
        sends_view(r@) == spec_registry_sends(
            core_known,
            strs(listed@),
            strs(core@),
            counted(jar@),
            counted(codec@),
        ),
{
    let mut out: Vec<RegistrySend> = Vec::new();
    if core_known {
        let mut sent: Vec<String> = Vec::new();
        let mut i: usize = 0;
        let ghost first = strs(listed@).map_values(
            |n: Seq<char>|
                (n, listed_source(n, strs(core@), names(counted(jar@)), names(counted(codec@)))),
        );
        while i < listed.len()
            invariant
                i <= listed.len(),
                first == strs(listed@).map_values(
                    |n: Seq<char>|
                        (
                            n,
                            listed_source(
                                n,
                                strs(core@),
                                names(counted(jar@)),
                                names(counted(codec@)),
                            ),
                        ),
                ),
                sends_view(out@) =~= first.subrange(0, i as int),
                strs(sent@) =~= strs(listed@).subrange(0, i as int),
            decreases listed.len() - i,
        {
            let name = &listed[i];
            let source = if contains_name(core, name) {
                RegistrySource::CoreNames
            } else if contains_counted(jar, name) {
                RegistrySource::Jar
            } else if contains_counted(codec, name) {
                RegistrySource::Codec
            } else {
                RegistrySource::Placeholder
            };
            let ghost out_before = sends_view(out@);
            let ghost sent_before = strs(sent@);
            out.push(RegistrySend { registry: name.clone(), source });
            sent.push(name.clone());
            assert(sends_view(out@) =~= out_before.push((name@, source)));
            assert(strs(sent@) =~= sent_before.push(name@));
            assert(first[i as int] == (name@, source));
            assert(first.subrange(0, i + 1) =~= first.subrange(0, i as int).push(first[i as int]));
            assert(strs(listed@).subrange(0, i + 1) =~= strs(listed@).subrange(0, i as int).push(
                name@,
            ));
            i = i + 1;
        }
        assert(strs(listed@).subrange(0, listed.len() as int) =~= strs(listed@));
        push_extra_sends(&mut out, &mut sent, jar, core, false, RegistrySource::Jar);
        push_extra_sends(&mut out, &mut sent, codec, core, true, RegistrySource::CodecNames);
        proof {
            let second = extra_sends(
                counted(jar@),
                strs(listed@).to_set(),
                strs(core@),
                false,
                RegistrySource::Jar,
            );
            let third = extra_sends(
                counted(codec@),
                second.1,
                strs(core@),
                true,
                RegistrySource::CodecNames,
            );
            assert(sends_view(out@) =~= first + second.0 + third.0);
        }
    } else {
        let ghost kept = names(counted(codec@)).filter(
            |n: Seq<char>| n != "minecraft:enchantment"@,
        );
        let enchantment = "minecraft:enchantment".to_owned();
        let mut i: usize = 0;
        assert(names(counted(codec@)).subrange(0, 0) =~= Seq::<Seq<char>>::empty());
        while i < codec.len()
            invariant
                i <= codec.len(),
                enchantment@ == "minecraft:enchantment"@,
                sends_view(out@) =~= names(counted(codec@)).subrange(0, i as int).filter(
                    |n: Seq<char>| n != "minecraft:enchantment"@,
                ).map_values(|n: Seq<char>| (n, RegistrySource::Codec)),
            decreases codec.len() - i,
        {
            let ghost pre = names(counted(codec@)).subrange(0, i as int);
            assert(names(counted(codec@)).subrange(0, i + 1) =~= pre.push(codec@[i as int].name@));
            proof {
                pre.lemma_filter_push(codec@[i as int].name@, |n: Seq<char>| n != "minecraft:enchantment"@);
            }
            let ghost out_before = sends_view(out@);
            let ghost kept_before = pre.filter(|n: Seq<char>| n != "minecraft:enchantment"@);
            if codec[i].name != enchantment {
                out.push(
                    RegistrySend { registry: codec[i].name.clone(), source: RegistrySource::Codec },
                );
                assert(sends_view(out@) =~= out_before.push((codec@[i as int].name@, RegistrySource::Codec)));
                assert(kept_before.push(codec@[i as int].name@).map_values(
                    |n: Seq<char>| (n, RegistrySource::Codec),
                ) =~= kept_before.map_values(|n: Seq<char>| (n, RegistrySource::Codec)).push(
                    (codec@[i as int].name@, RegistrySource::Codec),
                ));
            }
            i = i + 1;
        }
        assert(names(counted(codec@)).subrange(0, codec.len() as int) =~= names(counted(codec@)));
    }
    out
}

/// The core registries: the client has their entries built in.
pub open spec fn spec_core_registry_names() -> Seq<Seq<char>> {
    seq![
        "minecraft:activity"@,
        "minecraft:attribute"@,
        "minecraft:attribute_type"@,
        "minecraft:block"@,
        "minecraft:block_entity_type"@,
        "minecraft:block_predicate_type"@,
        "minecraft:block_type"@,
        "minecraft:chunk_status"@,
        "minecraft:command_argument_type"@,
        "minecraft:consume_effect_type"@,
        "minecraft:creative_mode_tab"@,
        "minecraft:custom_stat"@,
        "minecraft:data_component_predicate_type"@,
        "minecraft:data_component_type"@,
        "minecraft:enchantment_effect_component_type"@,
        "minecraft:enchantment_entity_effect_type"@,
        "minecraft:enchantment_level_based_value_type"@,
        "minecraft:enchantment_location_based_effect_type"@,
        "minecraft:enchantment_provider_type"@,
        "minecraft:enchantment_value_effect_type"@,
        "minecraft:entity_sub_predicate_type"@,
        "minecraft:entity_type"@,
        "minecraft:float_provider_type"@,
        "minecraft:fluid"@,
        "minecraft:game_event"@,
        "minecraft:game_rule"@,
        "minecraft:height_provider_type"@,
        "minecraft:int_provider_type"@,
        "minecraft:item"@,
        "minecraft:loot_condition_type"@,
        "minecraft:loot_function_type"@,
        "minecraft:loot_nbt_provider_type"@,
        "minecraft:loot_number_provider_type"@,
        "minecraft:loot_pool_entry_type"@,
        "minecraft:loot_score_provider_type"@,
        "minecraft:map_decoration_type"@,
        "minecraft:memory_module_type"@,
        "minecraft:menu"@,
        "minecraft:mob_effect"@,
        "minecraft:number_format_type"@,
        "minecraft:particle_type"@,
        "minecraft:point_of_interest_type"@,
        "minecraft:position_source_type"@,
        "minecraft:potion"@,
        "minecraft:recipe_book_category"@,
        "minecraft:recipe_display"@,
        "minecraft:recipe_serializer"@,
        "minecraft:recipe_type"@,
        "minecraft:rule_block_entity_modifier"@,
        "minecraft:rule_test"@,
        "minecraft:sensor_type"@,
        "minecraft:slot_display"@,
        "minecraft:slot_source_type"@,
        "minecraft:sound_event"@,
        "minecraft:stat_type"@,
        "minecraft:trigger_type"@,
        "minecraft:villager_profession"@,
        "minecraft:villager_type"@,
        "minecraft:worldgen/biome_source"@,
        "minecraft:worldgen/block_state_provider_type"@,
        "minecraft:worldgen/carver"@,
        "minecraft:worldgen/chunk_generator"@,
        "minecraft:worldgen/density_function_type"@,
        "minecraft:worldgen/feature"@,
        "minecraft:worldgen/feature_size_type"@,
        "minecraft:worldgen/foliage_placer_type"@,
        "minecraft:worldgen/material_condition"@,
        "minecraft:worldgen/material_rule"@,
        "minecraft:worldgen/placement_modifier_type"@,
        "minecraft:worldgen/pool_alias_binding"@,
        "minecraft:worldgen/root_placer_type"@,
        "minecraft:worldgen/structure_piece"@,
        "minecraft:worldgen/structure_placement"@,
        "minecraft:worldgen/structure_pool_element"@,
        "minecraft:worldgen/structure_processor"@,
        "minecraft:worldgen/structure_type"@,
        "minecraft:worldgen/tree_decorator_type"@,
        "minecraft:worldgen/trunk_placer_type"@,
        "minecraft:dimension_type"@,
        "minecraft:worldgen/biome"@,
    ]
}

/// The names of the core registries, whose entries the client has built in.
pub fn get_core_registry_names() -> (r: Vec<String>)
    ensures
        strs(r@) == spec_core_registry_names(),
{
    let list: Vec<&str> = vec![
        "minecraft:activity",
        "minecraft:attribute",
        "minecraft:attribute_type",
        "minecraft:block",
        "minecraft:block_entity_type",
        "minecraft:block_predicate_type",
        "minecraft:block_type",
        "minecraft:chunk_status",
        "minecraft:command_argument_type",
        "minecraft:consume_effect_type",
        "minecraft:creative_mode_tab",
        "minecraft:custom_stat",
        "minecraft:data_component_predicate_type",
        "minecraft:data_component_type",
        "minecraft:enchantment_effect_component_type",
        "minecraft:enchantment_entity_effect_type",
        "minecraft:enchantment_level_based_value_type",
        "minecraft:enchantment_location_based_effect_type",
        "minecraft:enchantment_provider_type",
        "minecraft:enchantment_value_effect_type",
        "minecraft:entity_sub_predicate_type",
        "minecraft:entity_type",
        "minecraft:float_provider_type",
        "minecraft:fluid",
        "minecraft:game_event",
        "minecraft:game_rule",
        "minecraft:height_provider_type",
        "minecraft:int_provider_type",
        "minecraft:item",
        "minecraft:loot_condition_type",
        "minecraft:loot_function_type",
        "minecraft:loot_nbt_provider_type",
        "minecraft:loot_number_provider_type",
        "minecraft:loot_pool_entry_type",
        "minecraft:loot_score_provider_type",
        "minecraft:map_decoration_type",
        "minecraft:memory_module_type",
        "minecraft:menu",
        "minecraft:mob_effect",
        "minecraft:number_format_type",
        "minecraft:particle_type",
        "minecraft:point_of_interest_type",
        "minecraft:position_source_type",
        "minecraft:potion",
        "minecraft:recipe_book_category",
        "minecraft:recipe_display",
        "minecraft:recipe_serializer",
        "minecraft:recipe_type",
        "minecraft:rule_block_entity_modifier",
        "minecraft:rule_test",
        "minecraft:sensor_type",
        "minecraft:slot_display",
        "minecraft:slot_source_type",
        "minecraft:sound_event",
        "minecraft:stat_type",
        "minecraft:trigger_type",
        "minecraft:villager_profession",
        "minecraft:villager_type",
        "minecraft:worldgen/biome_source",
        "minecraft:worldgen/block_state_provider_type",
        "minecraft:worldgen/carver",
        "minecraft:worldgen/chunk_generator",
        "minecraft:worldgen/density_function_type",
        "minecraft:worldgen/feature",
        "minecraft:worldgen/feature_size_type",
        "minecraft:worldgen/foliage_placer_type",
        "minecraft:worldgen/material_condition",
        "minecraft:worldgen/material_rule",
        "minecraft:worldgen/placement_modifier_type",
        "minecraft:worldgen/pool_alias_binding",
        "minecraft:worldgen/root_placer_type",
        "minecraft:worldgen/structure_piece",
        "minecraft:worldgen/structure_placement",
        "minecraft:worldgen/structure_pool_element",
        "minecraft:worldgen/structure_processor",
        "minecraft:worldgen/structure_type",
        "minecraft:worldgen/tree_decorator_type",
        "minecraft:worldgen/trunk_placer_type",
        "minecraft:dimension_type",
        "minecraft:worldgen/biome",
    ];
    let ghost views = list@.map_values(|s: &str| s@);
    assert(views =~= spec_core_registry_names());
    let mut r: Vec<String> = Vec::new();
    let mut i: usize = 0;
    while i < list.len()
        invariant
            i <= list.len(),
            views == list@.map_values(|s: &str| s@),
            strs(r@) =~= views.subrange(0, i as int),
        decreases list.len() - i,
    {
        let ghost before = strs(r@);
        r.push(list[i].to_owned());
        assert(strs(r@) =~= before.push(views[i as int]));
        assert(views.subrange(0, i + 1) =~= views.subrange(0, i as int).push(views[i as int]));
        i = i + 1;
    }
    assert(views.subrange(0, list.len() as int) =~= views);
    r
}

// ---------------------------------------------------------------------
// The registry list, ordered
// ---------------------------------------------------------------------

/// A registry of the registry list with the names of its entries.
#[derive(Debug)]
pub struct RegistryEntries {
    pub registry: String,
    pub entries: Vec<String>,
}

pub open spec fn entries_view(r: Seq<RegistryEntries>) -> Seq<(Seq<char>, Seq<Seq<char>>)> {
    r.map_values(|x: RegistryEntries| (x.registry@, strs(x.entries@)))
}

/// Where `x` goes in `s`: before the first name after it.
pub open spec fn name_pos(s: Seq<Seq<char>>, x: Seq<char>) -> int
    decreases s.len(),
{
    if s.len() == 0 || name_lt(x, s[0]) {
        0
    } else {
        1 + name_pos(s.drop_first(), x)
    }
}

/// The names sorted, by inserting each in turn (equal names keep their
/// order).
pub open spec fn sort_names(s: Seq<Seq<char>>) -> Seq<Seq<char>>
    decreases s.len(),
{
    if s.len() == 0 {
        s
    } else {
        let acc = sort_names(s.drop_last());
        acc.insert(name_pos(acc, s.last()), s.last())
    }
}

/// The names of registries: the first of each pair.
pub open spec fn firsts<V>(s: Seq<(Seq<char>, V)>) -> Seq<Seq<char>> {
    s.map_values(|e: (Seq<char>, V)| e.0)
}

/// Registries sorted by name, by inserting each in turn (registries of one
/// name keep their order).
pub open spec fn sort_by_name<V>(s: Seq<(Seq<char>, V)>) -> Seq<(Seq<char>, V)>
    decreases s.len(),
{
    if s.len() == 0 {
        s
    } else {
        let acc = sort_by_name(s.drop_last());
        acc.insert(name_pos(firsts(acc), s.last().0), s.last())
    }
}

/// The registry list ordered by registry name, the entry names of each
/// ordered too.
pub open spec fn spec_all_registry_entries(r: Seq<(Seq<char>, Seq<Seq<char>>)>) -> Seq<
    (Seq<char>, Seq<Seq<char>>),
> {
    sort_by_name(r.map_values(|e: (Seq<char>, Seq<Seq<char>>)| (e.0, sort_names(e.1))))
}

/// No name comes before the one before it.
pub open spec fn names_sorted(s: Seq<Seq<char>>) -> bool {
    forall|i: int, j: int| 0 <= i < j < s.len() ==> !name_lt(#[trigger] s[j], #[trigger] s[i])
}

proof fn lemma_name_pos(s: Seq<Seq<char>>, x: Seq<char>)
    ensures
        0 <= name_pos(s, x) <= s.len(),
        forall|i: int| 0 <= i < name_pos(s, x) ==> !name_lt(x, #[trigger] s[i]),
        name_pos(s, x) < s.len() ==> name_lt(x, s[name_pos(s, x)]),
    decreases s.len(),
{
    if s.len() > 0 && !name_lt(x, s[0]) {
        lemma_name_pos(s.drop_first(), x);
        assert forall|i: int| 0 <= i < name_pos(s, x) implies !name_lt(x, #[trigger] s[i]) by {
            if i > 0 {
                assert(s[i] == s.drop_first()[i - 1]);
            }
        }
    }
}

/// Inserting a name where `name_pos` puts it keeps a sorted sequence sorted.
proof fn lemma_insert_sorted(s: Seq<Seq<char>>, x: Seq<char>)
    requires
        names_sorted(s),
    ensures
        names_sorted(s.insert(name_pos(s, x), x)),
{
    lemma_name_pos(s, x);
    let p = name_pos(s, x);
    let r = s.insert(p, x);
    assert forall|i: int, j: int| 0 <= i < j < r.len() implies !name_lt(#[trigger] r[j], #[trigger] r[i]) by {
        if j < p {
            assert(r[i] == s[i] && r[j] == s[j]);
        } else if j == p {
            assert(r[j] == x && r[i] == s[i]);
        } else if i == p {
            assert(r[i] == x && r[j] == s[j - 1]);
            if name_lt(s[j - 1], x) {
                lemma_name_lt_transitive(s[j - 1], x, s[p]);
                if j - 1 == p {
                    lemma_name_lt_irreflexive(s[p]);
                }
            }
        } else if i < p {
            assert(r[i] == s[i] && r[j] == s[j - 1]);
        } else {
            assert(r[i] == s[i - 1] && r[j] == s[j - 1]);
        }
    }
}

/// Sorting names gives them in order, each as many times as before.
pub proof fn lemma_sort_names(s: Seq<Seq<char>>)
    ensures
        names_sorted(sort_names(s)),
        sort_names(s).to_multiset() == s.to_multiset(),
    decreases s.len(),
{
    broadcast use vstd::seq_lib::to_multiset_build, vstd::seq_lib::to_multiset_insert;

    if s.len() > 0 {
        lemma_sort_names(s.drop_last());
        let acc = sort_names(s.drop_last());
        lemma_name_pos(acc, s.last());
        lemma_insert_sorted(acc, s.last());
        assert(s.drop_last().push(s.last()) =~= s);
    }
}

proof fn lemma_firsts_insert<V>(s: Seq<(Seq<char>, V)>, p: int, e: (Seq<char>, V))
    requires
        0 <= p <= s.len(),
    ensures
        firsts(s.insert(p, e)) == firsts(s).insert(p, e.0),
{
    assert(firsts(s.insert(p, e)) =~= firsts(s).insert(p, e.0));
}

/// Sorting registries by name gives them in order of their names, each as
/// many times as before.
pub proof fn lemma_sort_by_name<V>(s: Seq<(Seq<char>, V)>)
    ensures
        names_sorted(firsts(sort_by_name(s))),
        sort_by_name(s).to_multiset() == s.to_multiset(),
    decreases s.len(),
{
    broadcast use vstd::seq_lib::to_multiset_build, vstd::seq_lib::to_multiset_insert;

    if s.len() > 0 {
        lemma_sort_by_name(s.drop_last());
        let acc = sort_by_name(s.drop_last());
        lemma_name_pos(firsts(acc), s.last().0);
        lemma_insert_sorted(firsts(acc), s.last().0);
        lemma_firsts_insert(acc, name_pos(firsts(acc), s.last().0), s.last());
        assert(s.drop_last().push(s.last()) =~= s);
    }
}

/// The registry list comes ordered by registry name, and the entry names of
/// each registry in order; it holds the registries and entries given, each
/// as many times.
pub proof fn lemma_all_registry_entries_sorted(r: Seq<(Seq<char>, Seq<Seq<char>>)>)
    ensures
        names_sorted(firsts(spec_all_registry_entries(r))),
        forall|i: int|
            0 <= i < spec_all_registry_entries(r).len() ==> names_sorted(
                (#[trigger] spec_all_registry_entries(r)[i]).1,
            ),
        spec_all_registry_entries(r).to_multiset() == r.map_values(
            |e: (Seq<char>, Seq<Seq<char>>)| (e.0, sort_names(e.1)),
        ).to_multiset(),
{
    broadcast use vstd::seq_lib::to_multiset_contains;

    let m = r.map_values(|e: (Seq<char>, Seq<Seq<char>>)| (e.0, sort_names(e.1)));
    lemma_sort_by_name(m);
    let out = spec_all_registry_entries(r);
    assert forall|i: int| 0 <= i < out.len() implies names_sorted((#[trigger] out[i]).1) by {
        assert(out.to_multiset().count(out[i]) > 0);
        assert(m.contains(out[i]));
        let j = choose|j: int| 0 <= j < m.len() && m[j] == out[i];
        lemma_sort_names(r[j].1);
    }
}

/// Where `x` goes in `v` (see [`name_pos`]).
pub(crate) fn find_name_pos(v: &Vec<Vec<char>>, x: &Vec<char>) -> (p: usize)
    ensures
        p == name_pos(v@.map_values(|c: Vec<char>| c@), x@),
        p <= v.len(),
{
    let ghost s = v@.map_values(|c: Vec<char>| c@);
    let mut p: usize = 0;
    proof {
        assert(s.skip(0) =~= s);
    }
    while p < v.len()
        invariant
            p <= v.len(),
            s == v@.map_values(|c: Vec<char>| c@),
            name_pos(s, x@) == p + name_pos(s.skip(p as int), x@),
        decreases v.len() - p,
    {
        assert(s.skip(p as int)[0] == v@[p as int]@);
        if name_less(x, &v[p]) {
            return p;
        }
        assert(s.skip(p as int).drop_first() =~= s.skip(p + 1));
        p = p + 1;
    }
    p
}

/// Entry names sorted (see [`sort_names`]).
pub fn sort_entry_names(v: &Vec<String>) -> (r: Vec<String>)
    ensures
        strs(r@) == sort_names(strs(v@)),
{
    let ghost sv = strs(v@);
    let mut r: Vec<String> = Vec::new();
    let mut keys: Vec<Vec<char>> = Vec::new();
    let mut i: usize = 0;
    proof {
        assert(sv.take(0) =~= Seq::<Seq<char>>::empty());
        assert(strs(r@) =~= Seq::<Seq<char>>::empty());
    }
    while i < v.len()
        invariant
            i <= v.len(),
            sv == strs(v@),
            strs(r@) == sort_names(sv.take(i as int)),
            keys@.map_values(|c: Vec<char>| c@) == strs(r@),
            keys@.len() == r@.len(),
        decreases v.len() - i,
    {
        let ghost pre = sv.take(i + 1);
        proof {
            assert(pre.drop_last() =~= sv.take(i as int));
            assert(pre.last() == sv[i as int]);
        }
        let key = chars_of(v[i].as_str());
        let p = find_name_pos(&keys, &key);
        let ghost kv = keys@;
        let ghost rv = r@;
        r.insert(p, v[i].clone());
        keys.insert(p, key);
        proof {
            assert(strs(r@) =~= strs(rv).insert(p as int, sv[i as int]));
            assert(keys@.map_values(|c: Vec<char>| c@) =~= kv.map_values(|c: Vec<char>| c@).insert(
                p as int,
                sv[i as int],
            ));
        }
        i = i + 1;
    }
    proof {
        assert(sv.take(v.len() as int) =~= sv);
    }
    r
}

/// The registry list ordered by registry name, with the entry names of each
/// ordered (see [`spec_all_registry_entries`]).
pub fn get_all_registry_entries(listed: &Vec<RegistryEntries>) -> (r: Vec<RegistryEntries>)
    ensures
        entries_view(r@) == spec_all_registry_entries(entries_view(listed@)),
{
    let ghost lv = entries_view(listed@);
    let ghost m = lv.map_values(|e: (Seq<char>, Seq<Seq<char>>)| (e.0, sort_names(e.1)));
    let mut r: Vec<RegistryEntries> = Vec::new();
    let mut keys: Vec<Vec<char>> = Vec::new();
    let mut i: usize = 0;
    proof {
        assert(m.take(0) =~= Seq::<(Seq<char>, Seq<Seq<char>>)>::empty());
        assert(entries_view(r@) =~= Seq::<(Seq<char>, Seq<Seq<char>>)>::empty());
    }
    while i < listed.len()
        invariant
            i <= listed.len(),
            lv == entries_view(listed@),
            m == lv.map_values(|e: (Seq<char>, Seq<Seq<char>>)| (e.0, sort_names(e.1))),
            entries_view(r@) == sort_by_name(m.take(i as int)),
            keys@.map_values(|c: Vec<char>| c@) == firsts(entries_view(r@)),
            keys@.len() == r@.len(),
        decreases listed.len() - i,
    {
        let ghost pre = m.take(i + 1);
        proof {
            assert(pre.drop_last() =~= m.take(i as int));
            assert(pre.last() == m[i as int]);
        }
        let key = chars_of(listed[i].registry.as_str());
        let p = find_name_pos(&keys, &key);
        let entry = RegistryEntries {
            registry: listed[i].registry.clone(),
            entries: sort_entry_names(&listed[i].entries),
        };
        let ghost kv = keys@;
        let ghost rv = r@;
        r.insert(p, entry);
        keys.insert(p, key);
        proof {
            assert(entries_view(r@) =~= entries_view(rv).insert(p as int, m[i as int]));
            assert(keys@.map_values(|c: Vec<char>| c@) =~= kv.map_values(|c: Vec<char>| c@).insert(
                p as int,
                m[i as int].0,
            ));
            assert(firsts(entries_view(r@)) =~= firsts(entries_view(rv)).insert(p as int, m[i as int].0));
        }
        i = i + 1;
    }
    proof {
        assert(m.take(listed.len() as int) =~= m);
    }
    r
}

} // verus!
