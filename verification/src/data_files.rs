//! The bundled data files: the registry list (`registries.json`) and the
//! tag file (`tags.json`), read from their text into what the tag and
//! registry logic works on.
use vstd::prelude::*;
use crate::registry_sync::{entries_view, strs, RegistryEntries};
use crate::tags::{registry_ids_view, registry_tags_view, EntryId, Ids, RegistryIds, RegistryTags, TagSource, TagValues};

verus! {

/// An entry of a registry of the registry list, with its `protocol_id`
/// where the entry holds an integer there.
pub struct JsonEntry {
    pub name: String,
    pub protocol_id: Option<i64>,
}

/// A registry of the registry list. `entries` is `None` where the registry
/// holds no object under `entries`.
pub struct JsonRegistry {
    pub registry: String,
    pub entries: Option<Vec<JsonEntry>>,
}

/// An entry name with its protocol id, where it has one.
pub type JsonEntryView = (Seq<char>, Option<i64>);

/// A registry name with its entries, where it has an object of them.
pub type JsonRegistryView = (Seq<char>, Option<Seq<JsonEntryView>>);

pub open spec fn json_entries_view(e: Seq<JsonEntry>) -> Seq<JsonEntryView> {
    e.map_values(|x: JsonEntry| (x.name@, x.protocol_id))
}

pub open spec fn json_registry_view(r: JsonRegistry) -> JsonRegistryView {
    (
        r.registry@,
        match r.entries {
            Some(es) => Some(json_entries_view(es@)),
            None => None,
        },
    )
}

pub open spec fn json_registries_view(r: Option<Vec<JsonRegistry>>) -> Option<Seq<JsonRegistryView>> {
    match r {
        Some(v) => Some(v@.map_values(|x: JsonRegistry| json_registry_view(x))),
        None => None,
    }
}

/// What `serde_json` reads of the registry list's text: `None` where the
/// text is no JSON object; else, for each key of the object in the order
/// in which the parsed map walks it, the registry's entries (the object
/// under `entries`), each with the integer under `protocol_id`.
pub uninterp spec fn registry_file_json(text: Seq<char>) -> Option<Seq<JsonRegistryView>>;

/// `serde_json::from_str` into a `serde_json::Value`, `Value::as_object`,
/// then `Value::get` of `entries` and `protocol_id`, `Value::as_object` and
/// `Value::as_i64`, one for one: the contract names the result, a function
/// of the text alone.
#[verifier::external_body]
fn read_registry_file(text: &str) -> (r: Option<Vec<JsonRegistry>>)
    ensures
        json_registries_view(r) == registry_file_json(text@),
{
    let value: serde_json::Value = serde_json::from_str(text).ok()?;
    Some(value.as_object()?.iter().map(|(reg, v)| JsonRegistry {
        registry: reg.clone(),
        entries: v.get("entries").and_then(|e| e.as_object()).map(|es| es.iter().map(|(name, e)| JsonEntry {
            name: name.clone(),
            protocol_id: e.get("protocol_id").and_then(|p| p.as_i64()),
        }).collect()),
    }).collect())
}

pub open spec fn opt_tags_view(r: Option<Vec<RegistryTags>>) -> Option<
    Seq<(Seq<char>, Option<Seq<(Seq<char>, TagValues)>>)>,
> {
    match r {
        Some(v) => Some(registry_tags_view(v@)),
        None => None,
    }
}

/// What `serde_json` reads of the tag file's text: `None` where the text is
/// no JSON object; else, for each key of the object, the registry's tags
/// where it holds an object of them, each tag's list where it holds one,
/// and each item of the list as its string where it is one.
pub uninterp spec fn tag_file_json(text: Seq<char>) -> Option<
    Seq<(Seq<char>, Option<Seq<(Seq<char>, Option<Seq<Option<Seq<char>>>>)>>)>,
>;

/// `serde_json::from_str` into a `serde_json::Value`, then
/// `Value::as_object`, `Value::as_array` and `Value::as_str`, one for one:
/// the contract names the result, a function of the text alone.
#[verifier::external_body]
fn read_tag_file(text: &str) -> (r: Option<Vec<RegistryTags>>)
    ensures
        opt_tags_view(r) == tag_file_json(text@),
{
    let value: serde_json::Value = serde_json::from_str(text).ok()?;
    Some(value.as_object()?.iter().map(|(reg, v)| RegistryTags {
        registry: reg.clone(),
        tags: v.as_object().map(|ts| ts.iter().map(|(name, vs)| TagSource {
            name: name.clone(),
            values: vs.as_array().map(|a| a.iter().map(|x| x.as_str().map(str::to_owned)).collect()),
        }).collect()),
    }).collect())
}

/// The entries of a registry that carry a protocol id, with it taken as a
/// 32-bit integer (its low 32 bits), in the registry's order.
pub open spec fn ids_of(es: Seq<JsonEntryView>) -> Ids
    decreases es.len(),
{
    if es.len() == 0 {
        Seq::empty()
    } else {
        let rest = ids_of(es.drop_last());
        match es.last().1 {
            Some(p) => rest.push((es.last().0, p as i32)),
            None => rest,
        }
    }
}

/// The entries of a registry, as the list gives them.
pub open spec fn reg_entries(r: JsonRegistryView) -> Seq<JsonEntryView> {
    match r.1 {
        Some(es) => es,
        None => Seq::empty(),
    }
}

pub open spec fn reg_ids(r: JsonRegistryView) -> (Seq<char>, Ids) {
    (r.0, ids_of(reg_entries(r)))
}

pub open spec fn reg_names(r: JsonRegistryView) -> (Seq<char>, Seq<Seq<char>>) {
    (r.0, reg_entries(r).map_values(|e: JsonEntryView| e.0))
}

/// The protocol ids of the registry list: each registry, with those of its
/// entries that carry one; nothing where the text is no JSON object.
pub open spec fn spec_registry_ids(f: Option<Seq<JsonRegistryView>>) -> Seq<(Seq<char>, Ids)> {
    match f {
        Some(rs) => rs.map_values(|r: JsonRegistryView| reg_ids(r)),
        None => Seq::empty(),
    }
}

/// The entry names of each registry of the registry list; nothing where
/// the text is no JSON object.
pub open spec fn spec_registry_entries(f: Option<Seq<JsonRegistryView>>) -> Seq<(Seq<char>, Seq<Seq<char>>)> {
    match f {
        Some(rs) => rs.map_values(|r: JsonRegistryView| reg_names(r)),
        None => Seq::empty(),
    }
}

/// The registries of the tag file; nothing where the text is no JSON
/// object.
pub open spec fn spec_tag_file(
    f: Option<Seq<(Seq<char>, Option<Seq<(Seq<char>, TagValues)>>)>>,
) -> Seq<(Seq<char>, Option<Seq<(Seq<char>, TagValues)>>)> {
    match f {
        Some(t) => t,
        None => Seq::empty(),
    }
}

fn entry_ids(es: &Vec<JsonEntry>) -> (r: (Vec<EntryId>, Vec<String>))
    ensures
        crate::tags::entry_ids_view(r.0@) == ids_of(json_entries_view(es@)),
        strs(r.1@) == json_entries_view(es@).map_values(|e: JsonEntryView| e.0),
{
    let ghost ev = json_entries_view(es@);
    let mut ids: Vec<EntryId> = Vec::new();
    let mut names: Vec<String> = Vec::new();
    let mut i: usize = 0;
    proof {
        assert(ev.take(0) =~= Seq::<JsonEntryView>::empty());
        assert(strs(names@) =~= ev.take(0).map_values(|e: JsonEntryView| e.0));
    }
    while i < es.len()
        invariant
            i <= es.len(),
            ev == json_entries_view(es@),
            crate::tags::entry_ids_view(ids@) == ids_of(ev.take(i as int)),
            strs(names@) == ev.take(i as int).map_values(|e: JsonEntryView| e.0),
        decreases es.len() - i,
    {
        let e = &es[i];
        proof {
            assert(ev.take(i as int + 1).drop_last() =~= ev.take(i as int));
            assert(ev.take(i as int + 1) =~= ev.take(i as int).push(ev[i as int]));
            assert(ev[i as int] == (e.name@, e.protocol_id));
        }
        let name = e.name.clone();
        match e.protocol_id {
            Some(p) => {
                let id: i32 = #[verifier::truncate] (p as i32);
                ids.push(EntryId { name: e.name.clone(), id });
                proof {
                    assert(crate::tags::entry_ids_view(ids@) =~= ids_of(ev.take(i as int)).push((e.name@, #[verifier::truncate] (p as i32))));
                }
            },
            None => {},
        }
        let ghost nb = strs(names@);
        names.push(name);
        proof {
            assert(strs(names@) =~= nb.push(e.name@));
            assert(strs(names@) =~= ev.take(i as int + 1).map_values(|x: JsonEntryView| x.0));
        }
        i = i + 1;
    }
    proof {
        assert(ev.take(es.len() as int) =~= ev);
    }
    (ids, names)
}

/// The registry list read from its text: the registries with the protocol
/// ids of their entries, and with the names of all their entries, each in
/// the order of the parsed file (see [`spec_registry_ids`] and
/// [`spec_registry_entries`]).
pub fn registry_list(text: &str) -> (r: (Vec<RegistryIds>, Vec<RegistryEntries>))
    ensures
        registry_ids_view(r.0@) == spec_registry_ids(registry_file_json(text@)),
        entries_view(r.1@) == spec_registry_entries(registry_file_json(text@)),
{
    let mut ids: Vec<RegistryIds> = Vec::new();
    let mut entries: Vec<RegistryEntries> = Vec::new();
    let parsed = read_registry_file(text);
    match parsed {
        None => {
            proof {
                assert(registry_ids_view(ids@) =~= Seq::<(Seq<char>, Ids)>::empty());
                assert(entries_view(entries@) =~= Seq::<(Seq<char>, Seq<Seq<char>>)>::empty());
            }
        },
        Some(regs) => {
            let ghost rv = regs@.map_values(|x: JsonRegistry| json_registry_view(x));
            let mut i: usize = 0;
            proof {
                assert(registry_ids_view(ids@) =~= rv.take(0).map_values(|r: JsonRegistryView| reg_ids(r)));
                assert(entries_view(entries@) =~= rv.take(0).map_values(|r: JsonRegistryView| reg_names(r)));
            }
            while i < regs.len()
                invariant
                    i <= regs.len(),
                    rv == regs@.map_values(|x: JsonRegistry| json_registry_view(x)),
                    registry_ids_view(ids@) == rv.take(i as int).map_values(|r: JsonRegistryView| reg_ids(r)),
                    entries_view(entries@) == rv.take(i as int).map_values(|r: JsonRegistryView| reg_names(r)),
                decreases regs.len() - i,
            {
                let reg = &regs[i];
                let (with_ids, names) = match &reg.entries {
                    Some(es) => entry_ids(es),
                    None => (Vec::new(), Vec::new()),
                };
                proof {
                    assert(rv[i as int] == json_registry_view(*reg));
                    assert(rv.take(i as int + 1) =~= rv.take(i as int).push(rv[i as int]));
                    if reg.entries is None {
                        assert(crate::tags::entry_ids_view(with_ids@) =~= ids_of(reg_entries(rv[i as int])));
                        assert(strs(names@) =~= reg_entries(rv[i as int]).map_values(|e: JsonEntryView| e.0));
                    }
                }
                let ghost ib = registry_ids_view(ids@);
                let ghost eb = entries_view(entries@);
                let ghost wv = crate::tags::entry_ids_view(with_ids@);
                let ghost nv = strs(names@);
                ids.push(RegistryIds { registry: reg.registry.clone(), entries: with_ids });
                entries.push(RegistryEntries { registry: reg.registry.clone(), entries: names });
                proof {
                    assert(registry_ids_view(ids@) =~= ib.push((reg.registry@, wv)));
                    assert(entries_view(entries@) =~= eb.push((reg.registry@, nv)));
                    assert(registry_ids_view(ids@) =~= rv.take(i as int + 1).map_values(|r: JsonRegistryView| reg_ids(r)));
                    assert(entries_view(entries@) =~= rv.take(i as int + 1).map_values(|r: JsonRegistryView| reg_names(r)));
                }
                i = i + 1;
            }
            proof {
                assert(rv.take(regs.len() as int) =~= rv);
            }
        },
    }
    (ids, entries)
}

/// The tag file read from its text: its registries, with their tags and
/// the values of each, in the order of the parsed file; nothing where the
/// text is no JSON object.
pub fn tag_file(text: &str) -> (r: Vec<RegistryTags>)
    ensures
        registry_tags_view(r@) == spec_tag_file(tag_file_json(text@)),
{
    match read_tag_file(text) {
        Some(v) => v,
        None => {
            let r: Vec<RegistryTags> = Vec::new();
            proof {
                assert(registry_tags_view(r@) =~= Seq::<(Seq<char>, Option<Seq<(Seq<char>, TagValues)>>)>::empty());
            }
            r
        },
    }
}

} // verus!
