//! Tag groups: for each registry, its tags and the protocol ids of the
//! entries each tag lists, as the server sends them to clients.
//!
//! Registries and tags are kept in maps ordered by name (code point order,
//! which is the order of their UTF-8 bytes), each name once.
use vstd::prelude::*;
use vstd::string::StringExecFns;
use crate::dimension::chars_of;

verus! {

// ---------------------------------------------------------------------
// The order of names
// ---------------------------------------------------------------------

/// Lexicographic order of names by code point.
pub open spec fn name_lt(a: Seq<char>, b: Seq<char>) -> bool
    decreases a.len(),
{
    if a.len() == 0 {
        b.len() > 0
    } else if b.len() == 0 {
        false
    } else if a[0] < b[0] {
        true
    } else if a[0] > b[0] {
        false
    } else {
        name_lt(a.drop_first(), b.drop_first())
    }
}

/// No name comes before itself.
pub proof fn lemma_name_lt_irreflexive(a: Seq<char>)
    ensures
        !name_lt(a, a),
    decreases a.len(),
{
    if a.len() > 0 {
        lemma_name_lt_irreflexive(a.drop_first());
    }
}

/// Of two names, at most one comes before the other.
pub proof fn lemma_name_lt_asymmetric(a: Seq<char>, b: Seq<char>)
    ensures
        name_lt(a, b) ==> !name_lt(b, a),
    decreases a.len(),
{
    if a.len() > 0 && b.len() > 0 {
        lemma_name_lt_asymmetric(a.drop_first(), b.drop_first());
    }
}

/// Of two different names, one comes before the other.
pub proof fn lemma_name_lt_total(a: Seq<char>, b: Seq<char>)
    ensures
        a != b ==> name_lt(a, b) || name_lt(b, a),
    decreases a.len(),
{
    if a.len() > 0 && b.len() > 0 {
        lemma_name_lt_total(a.drop_first(), b.drop_first());
        if a[0] == b[0] && a != b {
            assert(a =~= seq![a[0]] + a.drop_first());
            assert(b =~= seq![b[0]] + b.drop_first());
        }
    } else if a.len() == 0 && b.len() == 0 {
        assert(a =~= b);
    }
}

/// The order of names is transitive.
pub proof fn lemma_name_lt_transitive(a: Seq<char>, b: Seq<char>, c: Seq<char>)
    ensures
        name_lt(a, b) && name_lt(b, c) ==> name_lt(a, c),
    decreases a.len(),
{
    if a.len() > 0 && b.len() > 0 && c.len() > 0 {
        lemma_name_lt_transitive(a.drop_first(), b.drop_first(), c.drop_first());
    }
}

/// Whether `a` comes before `b` (see [`name_lt`]).
pub fn name_less(a: &Vec<char>, b: &Vec<char>) -> (r: bool)
    ensures
        r == name_lt(a@, b@),
{
    let mut i: usize = 0;
    proof {
        assert(a@.skip(0) =~= a@);
        assert(b@.skip(0) =~= b@);
    }
    while i < a.len() && i < b.len()
        invariant
            i <= a@.len(),
            i <= b@.len(),
            name_lt(a@, b@) == name_lt(a@.skip(i as int), b@.skip(i as int)),
        decreases a.len() - i,
    {
        let x = a[i];
        let y = b[i];
        if x < y {
            return true;
        }
        if x > y {
            return false;
        }
        assert(a@.skip(i as int).drop_first() =~= a@.skip(i + 1));
        assert(b@.skip(i as int).drop_first() =~= b@.skip(i + 1));
        i = i + 1;
    }
    i < b.len()
}

// ---------------------------------------------------------------------
// Maps ordered by name
// ---------------------------------------------------------------------

/// The names of a map, in order.
pub open spec fn keys<V>(t: Seq<(Seq<char>, V)>) -> Seq<Seq<char>> {
    t.map_values(|e: (Seq<char>, V)| e.0)
}

/// Each name comes before the names after it: the map is ordered and holds
/// each name once.
pub open spec fn ordered<V>(t: Seq<(Seq<char>, V)>) -> bool {
    forall|i: int, j: int| 0 <= i < j < t.len() ==> name_lt(#[trigger] t[i].0, #[trigger] t[j].0)
}

/// The value of a name in a map.
pub open spec fn lookup<V>(t: Seq<(Seq<char>, V)>, k: Seq<char>) -> Option<V>
    decreases t.len(),
{
    if t.len() == 0 {
        None
    } else if t[0].0 == k {
        Some(t[0].1)
    } else {
        lookup(t.drop_first(), k)
    }
}

/// The map with the value of `k` set to `v`: in place of the entry of `k`
/// where there is one, else before the first name after `k`.
pub open spec fn insert<V>(t: Seq<(Seq<char>, V)>, k: Seq<char>, v: V) -> Seq<(Seq<char>, V)>
    decreases t.len(),
{
    if t.len() == 0 {
        seq![(k, v)]
    } else if t[0].0 == k {
        seq![(k, v)] + t.drop_first()
    } else if name_lt(k, t[0].0) {
        seq![(k, v)] + t
    } else {
        seq![t[0]] + insert(t.drop_first(), k, v)
    }
}

/// After an insertion, the name has the value inserted and every other
/// name keeps its value.
pub proof fn lemma_insert_lookup<V>(t: Seq<(Seq<char>, V)>, k: Seq<char>, v: V, other: Seq<char>)
    ensures
        lookup(insert(t, k, v), k) == Some(v),
        other != k ==> lookup(insert(t, k, v), other) == lookup(t, other),
    decreases t.len(),
{
    let r = insert(t, k, v);
    if t.len() == 0 {
        assert(r[0] == (k, v));
        assert(r.drop_first() =~= Seq::<(Seq<char>, V)>::empty());
        if other != k {
            assert(lookup(r, other) == lookup(r.drop_first(), other));
            assert(lookup(r, other) == lookup(t, other));
        }
    } else if t[0].0 == k {
        assert(r[0] == (k, v));
        assert(r.drop_first() =~= t.drop_first());
        if other != k {
            assert(lookup(r, other) == lookup(r.drop_first(), other));
            assert(lookup(t, other) == lookup(t.drop_first(), other));
        }
    } else if name_lt(k, t[0].0) {
        assert(r[0] == (k, v));
        assert(r.drop_first() =~= t);
    } else {
        lemma_insert_lookup(t.drop_first(), k, v, other);
        assert(r[0] == t[0]);
        assert(r.drop_first() =~= insert(t.drop_first(), k, v));
    }
}

/// An insertion into an ordered map gives an ordered map.
pub proof fn lemma_insert_ordered<V>(t: Seq<(Seq<char>, V)>, k: Seq<char>, v: V)
    requires
        ordered(t),
    ensures
        ordered(insert(t, k, v)),
        forall|n: Seq<char>|
            #![trigger keys(insert(t, k, v)).contains(n)]
            keys(insert(t, k, v)).contains(n) <==> (n == k || keys(t).contains(n)),
    decreases t.len(),
{
    let r = insert(t, k, v);
    if t.len() == 0 {
        assert forall|n: Seq<char>| keys(r).contains(n) <==> (n == k || keys(t).contains(n)) by {
            if keys(r).contains(n) {
                let i = choose|i: int| 0 <= i < keys(r).len() && keys(r)[i] == n;
                assert(i == 0);
            }
            if n == k {
                assert(keys(r)[0] == n);
            }
        }
    } else if t[0].0 == k {
        assert forall|i: int, j: int| 0 <= i < j < r.len() implies name_lt(#[trigger] r[i].0, #[trigger] r[j].0) by {
            if i == 0 {
                assert(r[i].0 == t[0].0);
            } else {
                assert(r[i] == t[i]);
            }
            assert(r[j] == t[j]);
        }
        assert forall|n: Seq<char>| keys(r).contains(n) <==> (n == k || keys(t).contains(n)) by {
            if keys(r).contains(n) {
                let i = choose|i: int| 0 <= i < keys(r).len() && keys(r)[i] == n;
                if i > 0 {
                    assert(keys(t)[i] == n);
                }
            }
            if n == k {
                assert(keys(r)[0] == n);
            }
            if keys(t).contains(n) {
                let i = choose|i: int| 0 <= i < keys(t).len() && keys(t)[i] == n;
                assert(keys(r)[i] == n);
            }
        }
    } else if name_lt(k, t[0].0) {
        assert forall|i: int, j: int| 0 <= i < j < r.len() implies name_lt(#[trigger] r[i].0, #[trigger] r[j].0) by {
            if i == 0 {
                assert(r[j] == t[j - 1]);
                if j > 1 {
                    assert(name_lt(t[0].0, t[j - 1].0));
                    lemma_name_lt_transitive(k, t[0].0, t[j - 1].0);
                }
            } else {
                assert(r[i] == t[i - 1]);
                assert(r[j] == t[j - 1]);
            }
        }
        assert forall|n: Seq<char>| keys(r).contains(n) <==> (n == k || keys(t).contains(n)) by {
            if keys(r).contains(n) {
                let i = choose|i: int| 0 <= i < keys(r).len() && keys(r)[i] == n;
                if i > 0 {
                    assert(keys(t)[i - 1] == n);
                }
            }
            if n == k {
                assert(keys(r)[0] == n);
            }
            if keys(t).contains(n) {
                let i = choose|i: int| 0 <= i < keys(t).len() && keys(t)[i] == n;
                assert(keys(r)[i + 1] == n);
            }
        }
    } else {
        let rest = t.drop_first();
        assert(ordered(rest)) by {
            assert forall|i: int, j: int| 0 <= i < j < rest.len() implies name_lt(#[trigger] rest[i].0, #[trigger] rest[j].0) by {
                assert(rest[i] == t[i + 1]);
                assert(rest[j] == t[j + 1]);
            }
        }
        lemma_insert_ordered(rest, k, v);
        let ir = insert(rest, k, v);
        assert(r =~= seq![t[0]] + ir);
        lemma_name_lt_total(k, t[0].0);
        assert forall|i: int, j: int| 0 <= i < j < r.len() implies name_lt(#[trigger] r[i].0, #[trigger] r[j].0) by {
            if i == 0 {
                assert(r[j] == ir[j - 1]);
                assert(keys(ir)[j - 1] == ir[j - 1].0);
                assert(keys(ir).contains(ir[j - 1].0));
                if ir[j - 1].0 != k {
                    let m = choose|m: int| 0 <= m < keys(rest).len() && keys(rest)[m] == ir[j - 1].0;
                    assert(rest[m] == t[m + 1]);
                }
            } else {
                assert(r[i] == ir[i - 1]);
                assert(r[j] == ir[j - 1]);
            }
        }
        assert forall|n: Seq<char>| keys(r).contains(n) <==> (n == k || keys(t).contains(n)) by {
            if keys(r).contains(n) {
                let i = choose|i: int| 0 <= i < keys(r).len() && keys(r)[i] == n;
                if i > 0 {
                    assert(keys(ir)[i - 1] == n);
                    assert(keys(ir).contains(n));
                    if n != k {
                        let m = choose|m: int| 0 <= m < keys(rest).len() && keys(rest)[m] == n;
                        assert(keys(t)[m + 1] == n);
                    }
                } else {
                    assert(keys(t)[0] == n);
                }
            }
            if n == k {
                assert(keys(ir).contains(n));
                let i = choose|i: int| 0 <= i < keys(ir).len() && keys(ir)[i] == n;
                assert(keys(r)[i + 1] == n);
            }
            if keys(t).contains(n) {
                let i = choose|i: int| 0 <= i < keys(t).len() && keys(t)[i] == n;
                if i == 0 {
                    assert(keys(r)[0] == n);
                } else {
                    assert(keys(rest)[i - 1] == n);
                    assert(keys(rest).contains(n));
                    assert(keys(ir).contains(n));
                    let m = choose|m: int| 0 <= m < keys(ir).len() && keys(ir)[m] == n;
                    assert(keys(r)[m + 1] == n);
                }
            }
        }
    }
}

// ---------------------------------------------------------------------
// Tags and tag groups
// ---------------------------------------------------------------------

/// A tag: its name and the protocol ids of the entries it lists.
#[derive(Debug)]
pub struct Tag {
    pub name: String,
    pub ids: Vec<i32>,
}

/// The tags of one registry, ordered by name.
#[derive(Debug)]
pub struct TagGroup {
    pub registry: String,
    pub tags: Vec<Tag>,
}

pub open spec fn tags_view(t: Seq<Tag>) -> Seq<(Seq<char>, Seq<i32>)> {
    t.map_values(|x: Tag| (x.name@, x.ids@))
}

pub open spec fn groups_view(g: Seq<TagGroup>) -> Seq<(Seq<char>, Seq<(Seq<char>, Seq<i32>)>)> {
    g.map_values(|x: TagGroup| (x.registry@, tags_view(x.tags@)))
}

/// The map after inserting each item of `items`, in order.
pub open spec fn insert_all<V>(t: Seq<(Seq<char>, V)>, items: Seq<(Seq<char>, V)>) -> Seq<(Seq<char>, V)>
    decreases items.len(),
{
    if items.len() == 0 {
        t
    } else {
        let acc = insert_all(t, items.drop_last());
        insert(acc, items.last().0, items.last().1)
    }
}

/// The tags of `k` in `g` (none where `g` has no group `k`), with the tags
/// of `items` set in them.
pub open spec fn extend<V>(
    g: Seq<(Seq<char>, Seq<(Seq<char>, V)>)>,
    k: Seq<char>,
    items: Seq<(Seq<char>, V)>,
) -> Seq<(Seq<char>, Seq<(Seq<char>, V)>)> {
    let base = match lookup(g, k) {
        Some(b) => b,
        None => Seq::empty(),
    };
    insert(g, k, insert_all(base, items))
}

fn copy_ids(v: &Vec<i32>) -> (r: Vec<i32>)
    ensures
        r@ == v@,
{
    let mut r: Vec<i32> = Vec::new();
    let mut i: usize = 0;
    while i < v.len()
        invariant
            i <= v.len(),
            r@ == v@.take(i as int),
        decreases v.len() - i,
    {
        r.push(v[i]);
        i = i + 1;
        assert(r@ =~= v@.take(i as int));
    }
    assert(v@.take(v.len() as int) =~= v@);
    r
}

fn copy_tags(t: &Vec<Tag>) -> (r: Vec<Tag>)
    ensures
        tags_view(r@) == tags_view(t@),
{
    let mut r: Vec<Tag> = Vec::new();
    let mut i: usize = 0;
    while i < t.len()
        invariant
            i <= t.len(),
            r@.len() == i,
            tags_view(r@) == tags_view(t@).take(i as int),
        decreases t.len() - i,
    {
        let name = t[i].name.clone();
        let ids = copy_ids(&t[i].ids);
        let ghost prev = r@;
        r.push(Tag { name, ids });
        proof {
            assert(r@ == prev.push(r@[i as int]));
            assert(tags_view(r@)[i as int] == tags_view(t@)[i as int]);
            assert forall|j: int| 0 <= j < i implies tags_view(r@)[j] == tags_view(prev)[j] by {
                assert(r@[j] == prev[j]);
            }
        }
        i = i + 1;
        assert(tags_view(r@) =~= tags_view(t@).take(i as int));
    }
    assert(tags_view(t@).take(t.len() as int) =~= tags_view(t@));
    r
}

/// Sets the ids of the tag `name` (see [`insert`]).
fn insert_tag(tags: &mut Vec<Tag>, name: String, ids: Vec<i32>)
    ensures
        tags_view(final(tags)@) == insert(tags_view(old(tags)@), name@, ids@),
{
    let ghost tv = tags_view(tags@);
    let ghost k = name@;
    let ghost v = ids@;
    let key = chars_of(name.as_str());
    let mut p: usize = 0;
    proof {
        assert(tv.skip(0) =~= tv);
        assert(tv.take(0) =~= Seq::<(Seq<char>, Seq<i32>)>::empty());
    }
    while p < tags.len()
        invariant
            p <= tags.len(),
            tags@ == old(tags)@,
            tv == tags_view(tags@),
            key@ == k,
            name@ == k,
            ids@ == v,
            insert(tv, k, v) == tv.take(p as int) + insert(tv.skip(p as int), k, v),
        decreases tags.len() - p,
    {
        let ghost rest = tv.skip(p as int);
        assert(rest[0] == tv[p as int]);
        if tags[p].name == name {
            proof {
                assert(rest[0].0 == k);
                assert(insert(rest, k, v) == seq![(k, v)] + rest.drop_first());
            }
            tags.set(p, Tag { name, ids });
            proof {
                assert(rest.drop_first() =~= tv.skip(p + 1));
                assert(tags_view(tags@) =~= tv.take(p as int) + seq![(k, v)] + tv.skip(p + 1));
            }
            return;
        }
        let other = chars_of(tags[p].name.as_str());
        if name_less(&key, &other) {
            proof {
                assert(insert(rest, k, v) == seq![(k, v)] + rest);
            }
            tags.insert(p, Tag { name, ids });
            proof {
                assert(tags_view(tags@) =~= tv.take(p as int) + (seq![(k, v)] + rest));
            }
            return;
        }
        proof {
            assert(insert(rest, k, v) == seq![rest[0]] + insert(rest.drop_first(), k, v));
            assert(rest.drop_first() =~= tv.skip(p + 1));
            assert(tv.take(p as int) + seq![rest[0]] =~= tv.take(p + 1));
        }
        p = p + 1;
    }
    proof {
        assert(tv.skip(p as int) =~= Seq::<(Seq<char>, Seq<i32>)>::empty());
        assert(tv.take(p as int) =~= tv);
    }
    tags.push(Tag { name, ids });
    proof {
        assert(tags_view(tags@) =~= tv + seq![(k, v)]);
    }
}

/// Sets the tags of the group `registry` (see [`insert`]).
fn insert_group(groups: &mut Vec<TagGroup>, registry: String, tags: Vec<Tag>)
    ensures
        groups_view(final(groups)@) == insert(groups_view(old(groups)@), registry@, tags_view(tags@)),
{
    let ghost gv = groups_view(groups@);
    let ghost k = registry@;
    let ghost v = tags_view(tags@);
    let key = chars_of(registry.as_str());
    let mut p: usize = 0;
    proof {
        assert(gv.skip(0) =~= gv);
        assert(gv.take(0) =~= Seq::<(Seq<char>, Seq<(Seq<char>, Seq<i32>)>)>::empty());
    }
    while p < groups.len()
        invariant
            p <= groups.len(),
            groups@ == old(groups)@,
            gv == groups_view(groups@),
            key@ == k,
            registry@ == k,
            tags_view(tags@) == v,
            insert(gv, k, v) == gv.take(p as int) + insert(gv.skip(p as int), k, v),
        decreases groups.len() - p,
    {
        let ghost rest = gv.skip(p as int);
        assert(rest[0] == gv[p as int]);
        if groups[p].registry == registry {
            proof {
                assert(insert(rest, k, v) == seq![(k, v)] + rest.drop_first());
            }
            groups.set(p, TagGroup { registry, tags });
            proof {
                assert(rest.drop_first() =~= gv.skip(p + 1));
                assert(groups_view(groups@) =~= gv.take(p as int) + seq![(k, v)] + gv.skip(p + 1));
            }
            return;
        }
        let other = chars_of(groups[p].registry.as_str());
        if name_less(&key, &other) {
            proof {
                assert(insert(rest, k, v) == seq![(k, v)] + rest);
            }
            groups.insert(p, TagGroup { registry, tags });
            proof {
                assert(groups_view(groups@) =~= gv.take(p as int) + (seq![(k, v)] + rest));
            }
            return;
        }
        proof {
            assert(insert(rest, k, v) == seq![rest[0]] + insert(rest.drop_first(), k, v));
            assert(rest.drop_first() =~= gv.skip(p + 1));
            assert(gv.take(p as int) + seq![rest[0]] =~= gv.take(p + 1));
        }
        p = p + 1;
    }
    proof {
        assert(gv.skip(p as int) =~= Seq::<(Seq<char>, Seq<(Seq<char>, Seq<i32>)>)>::empty());
        assert(gv.take(p as int) =~= gv);
    }
    groups.push(TagGroup { registry, tags });
    proof {
        assert(groups_view(groups@) =~= gv + seq![(k, v)]);
    }
}

/// Sets each tag of `items` in `tags`, in order.
fn insert_all_tags(tags: &mut Vec<Tag>, items: &Vec<Tag>)
    ensures
        tags_view(final(tags)@) == insert_all(tags_view(old(tags)@), tags_view(items@)),
{
    let ghost base = tags_view(tags@);
    let mut i: usize = 0;
    proof {
        assert(tags_view(items@).take(0) =~= Seq::<(Seq<char>, Seq<i32>)>::empty());
    }
    while i < items.len()
        invariant
            i <= items.len(),
            tags_view(tags@) == insert_all(base, tags_view(items@).take(i as int)),
        decreases items.len() - i,
    {
        let name = items[i].name.clone();
        let ids = copy_ids(&items[i].ids);
        insert_tag(tags, name, ids);
        proof {
            let pre = tags_view(items@).take(i + 1);
            assert(pre.drop_last() =~= tags_view(items@).take(i as int));
            assert(pre.last() == tags_view(items@)[i as int]);
        }
        i = i + 1;
    }
    proof {
        assert(tags_view(items@).take(items.len() as int) =~= tags_view(items@));
    }
}

/// The tags of the first group named `registry`, copied; none where there
/// is no such group.
fn group_tags(groups: &Vec<TagGroup>, registry: &String) -> (r: Vec<Tag>)
    ensures
        tags_view(r@) == (match lookup(groups_view(groups@), registry@) {
            Some(b) => b,
            None => Seq::empty(),
        }),
{
    let ghost gv = groups_view(groups@);
    let mut i: usize = 0;
    proof {
        assert(gv.skip(0) =~= gv);
    }
    while i < groups.len()
        invariant
            i <= groups.len(),
            gv == groups_view(groups@),
            lookup(gv, registry@) == lookup(gv.skip(i as int), registry@),
        decreases groups.len() - i,
    {
        let ghost rest = gv.skip(i as int);
        assert(rest[0] == gv[i as int]);
        if groups[i].registry == *registry {
            return copy_tags(&groups[i].tags);
        }
        assert(rest.drop_first() =~= gv.skip(i + 1));
        i = i + 1;
    }
    proof {
        assert(gv.skip(i as int) =~= Seq::<(Seq<char>, Seq<(Seq<char>, Seq<i32>)>)>::empty());
    }
    Vec::new()
}

/// Sets the tags of `items` in the group `registry`, which is made where
/// there is none (see [`extend`]).
fn extend_group(groups: &mut Vec<TagGroup>, registry: String, items: &Vec<Tag>)
    ensures
        groups_view(final(groups)@) == extend(groups_view(old(groups)@), registry@, tags_view(items@)),
{
    let mut merged = group_tags(groups, &registry);
    insert_all_tags(&mut merged, items);
    insert_group(groups, registry, merged);
}

// ---------------------------------------------------------------------
// Identifiers
// ---------------------------------------------------------------------

/// A character allowed in the namespace of an identifier.
pub open spec fn namespace_char(c: char) -> bool {
    ('a' <= c && c <= 'z') || ('0' <= c && c <= '9') || c == '_' || c == '.' || c == '-'
}

/// A character allowed in the path of an identifier.
pub open spec fn path_char(c: char) -> bool {
    namespace_char(c) || c == '/'
}

/// Every character of `s` from index `from` on is allowed in a path.
pub open spec fn path_from(s: Seq<char>, from: int) -> bool {
    forall|j: int| from <= j < s.len() ==> path_char(#[trigger] s[j])
}

/// `s` is `namespace:path`, both parts non-empty and made of the
/// characters they allow.
pub open spec fn namespaced(s: Seq<char>) -> bool {
    exists|i: int|
        0 < i < s.len() - 1 && #[trigger] s[i] == ':' && (forall|j: int|
            0 <= j < i ==> namespace_char(#[trigger] s[j])) && path_from(s, i + 1)
}

/// The identifier that a name stands for: the name itself where it is
/// `namespace:path`, the name in the `minecraft` namespace where it is a
/// bare path, and none where it is neither.
pub open spec fn spec_ident(s: Seq<char>) -> Option<Seq<char>> {
    if namespaced(s) {
        Some(s)
    } else if s.len() > 0 && path_from(s, 0) {
        Some("minecraft:"@ + s)
    } else {
        None
    }
}

/// The identifier of a name, `minecraft:unknown` where it has none.
pub open spec fn ident_or_unknown(s: Seq<char>) -> Seq<char> {
    match spec_ident(s) {
        Some(x) => x,
        None => "minecraft:unknown"@,
    }
}

/// The full name of a registry: the name where it has a namespace, else
/// the name in the `minecraft` namespace.
pub open spec fn full_registry_name(n: Seq<char>) -> Seq<char> {
    if n.contains(':') {
        n
    } else {
        "minecraft:"@ + n
    }
}

fn is_namespace_char(c: char) -> (r: bool)
    ensures
        r == namespace_char(c),
{
    ('a' <= c && c <= 'z') || ('0' <= c && c <= '9') || c == '_' || c == '.' || c == '-'
}

fn is_path_from(c: &Vec<char>, from: usize) -> (r: bool)
    requires
        from <= c.len(),
    ensures
        r == path_from(c@, from as int),
{
    let mut j: usize = from;
    while j < c.len()
        invariant
            from <= j <= c.len(),
            forall|m: int| from <= m < j ==> path_char(#[trigger] c@[m]),
        decreases c.len() - j,
    {
        if !(is_namespace_char(c[j]) || c[j] == '/') {
            return false;
        }
        j = j + 1;
    }
    true
}

pub(crate) fn prefixed_minecraft(s: &str) -> (r: String)
    ensures
        r@ == "minecraft:"@ + s@,
{
    let mut out = String::new();
    proof {
        reveal_strlit("minecraft:");
    }
    out.append("minecraft:");
    out.append(s);
    out
}

/// The identifier that `s` stands for (see [`spec_ident`]).
pub fn parse_ident(s: &String) -> (r: Option<String>)
    ensures
        r.is_some() == spec_ident(s@).is_some(),
        r.is_some() ==> r.unwrap()@ == spec_ident(s@).unwrap(),
{
    let c = chars_of(s.as_str());
    let mut i: usize = 0;
    while i < c.len() && c[i] != ':'
        invariant
            i <= c.len(),
            c@ == s@,
            forall|j: int| 0 <= j < i ==> c@[j] != ':',
        decreases c.len() - i,
    {
        i = i + 1;
    }
    if i < c.len() {
        let mut ns_ok = i > 0 && i + 1 < c.len();
        let mut j: usize = 0;
        while ns_ok && j < i
            invariant
                j <= i < c.len(),
                c@ == s@,
                ns_ok ==> 0 < i && i + 1 < c.len(),
                ns_ok ==> forall|m: int| 0 <= m < j ==> namespace_char(#[trigger] c@[m]),
                !ns_ok ==> (i == 0 || i + 1 >= c.len() || exists|m: int|
                    0 <= m < j && !namespace_char(#[trigger] c@[m])),
            decreases i - j,
        {
            if !is_namespace_char(c[j]) {
                ns_ok = false;
            }
            j = j + 1;
        }
        let ok = ns_ok && is_path_from(&c, i + 1);
        proof {
            assert(c@[i as int] == ':');
            assert(!path_char(c@[i as int]));
            if namespaced(s@) {
                let w = choose|w: int|
                    0 < w < s@.len() - 1 && #[trigger] s@[w] == ':' && (forall|m: int|
                        0 <= m < w ==> namespace_char(#[trigger] s@[m])) && path_from(s@, w + 1);
                if w < i {
                } else if w > i {
                    assert(namespace_char(s@[i as int]));
                }
                assert(w == i);
                assert(ns_ok) by {
                    if !ns_ok {
                        let bad = choose|m: int| 0 <= m < j && !namespace_char(#[trigger] c@[m]);
                        assert(namespace_char(s@[bad]));
                    }
                }
            }
            if ok {
                assert(0 < i < s@.len() - 1 && s@[i as int] == ':');
            }
        }
        if ok {
            Some(s.clone())
        } else {
            None
        }
    } else {
        proof {
            if namespaced(s@) {
                let w = choose|w: int|
                    0 < w < s@.len() - 1 && #[trigger] s@[w] == ':' && (forall|m: int|
                        0 <= m < w ==> namespace_char(#[trigger] s@[m])) && path_from(s@, w + 1);
                assert(c@[w] != ':');
            }
        }
        if c.len() > 0 && is_path_from(&c, 0) {
            Some(prefixed_minecraft(s.as_str()))
        } else {
            None
        }
    }
}

/// The identifier of `s`, `minecraft:unknown` where it has none.
pub fn ident_or_unknown_of(s: &String) -> (r: String)
    ensures
        r@ == ident_or_unknown(s@),
{
    match parse_ident(s) {
        Some(x) => x,
        None => {
            proof {
                reveal_strlit("minecraft:unknown");
            }
            "minecraft:unknown".to_owned()
        },
    }
}

/// The full name of a registry (see [`full_registry_name`]).
pub fn registry_full_name(s: &String) -> (r: String)
    ensures
        r@ == full_registry_name(s@),
{
    let c = chars_of(s.as_str());
    let mut i: usize = 0;
    while i < c.len()
        invariant
            i <= c.len(),
            c@ == s@,
            forall|j: int| 0 <= j < i ==> c@[j] != ':',
        decreases c.len() - i,
    {
        if c[i] == ':' {
            assert(s@[i as int] == ':');
            return s.clone();
        }
        i = i + 1;
    }
    proof {
        if s@.contains(':') {
            let j = choose|j: int| 0 <= j < s@.len() && s@[j] == ':';
            assert(c@[j] != ':');
        }
    }
    prefixed_minecraft(s.as_str())
}

// ---------------------------------------------------------------------
// What tags are read from
// ---------------------------------------------------------------------

/// The protocol id of an entry of a registry.
#[derive(Debug)]
pub struct EntryId {
    pub name: String,
    pub id: i32,
}

/// A registry of the registry list, with the protocol ids of its entries.
#[derive(Debug)]
pub struct RegistryIds {
    pub registry: String,
    pub entries: Vec<EntryId>,
}

/// A tag of the tag file. `values` is `None` where the file holds something
/// other than a list for the tag; a value is `None` where it is not a string.
#[derive(Debug)]
pub struct TagSource {
    pub name: String,
    pub values: Option<Vec<Option<String>>>,
}

/// A registry of the tag file. `tags` is `None` where the file holds
/// something other than an object for the registry.
#[derive(Debug)]
pub struct RegistryTags {
    pub registry: String,
    pub tags: Option<Vec<TagSource>>,
}

/// Entry names with their protocol ids.
pub type Ids = Seq<(Seq<char>, i32)>;

/// The values of a tag of the tag file.
pub type TagValues = Option<Seq<Option<Seq<char>>>>;

/// Registries with the tags of each and their ids.
pub type Groups = Seq<(Seq<char>, Seq<(Seq<char>, Seq<i32>)>)>;

pub open spec fn entry_ids_view(e: Seq<EntryId>) -> Ids {
    e.map_values(|x: EntryId| (x.name@, x.id))
}

pub open spec fn registry_ids_view(r: Seq<RegistryIds>) -> Seq<(Seq<char>, Ids)> {
    r.map_values(|x: RegistryIds| (x.registry@, entry_ids_view(x.entries@)))
}

pub open spec fn opt_names(v: Seq<Option<String>>) -> Seq<Option<Seq<char>>> {
    v.map_values(
        |x: Option<String>|
            match x {
                Some(s) => Some(s@),
                None => None,
            },
    )
}

pub open spec fn values_view(v: Option<Vec<Option<String>>>) -> TagValues {
    match v {
        Some(vs) => Some(opt_names(vs@)),
        None => None,
    }
}

pub open spec fn tag_sources_view(t: Seq<TagSource>) -> Seq<(Seq<char>, TagValues)> {
    t.map_values(|x: TagSource| (x.name@, values_view(x.values)))
}

pub open spec fn registry_tags_view(r: Seq<RegistryTags>) -> Seq<
    (Seq<char>, Option<Seq<(Seq<char>, TagValues)>>),
> {
    r.map_values(
        |x: RegistryTags|
            (
                x.registry@,
                match x.tags {
                    Some(ts) => Some(tag_sources_view(ts@)),
                    None => None,
                },
            ),
    )
}

pub open spec fn opt_ids(r: Option<&Vec<EntryId>>) -> Option<Ids> {
    match r {
        Some(e) => Some(entry_ids_view(e@)),
        None => None,
    }
}

/// The value of the last entry named `k`: a later entry of a name takes
/// the place of an earlier one.
pub open spec fn last_match<V>(t: Seq<(Seq<char>, V)>, k: Seq<char>) -> Option<V>
    decreases t.len(),
{
    if t.len() == 0 {
        None
    } else if t.last().0 == k {
        Some(t.last().1)
    } else {
        last_match(t.drop_last(), k)
    }
}

/// A name without the `#` it starts with, if it starts with one.
pub open spec fn strip_hash(s: Seq<char>) -> Seq<char> {
    if s.len() > 0 && s[0] == '#' {
        s.drop_first()
    } else {
        s
    }
}

/// The ids of the values of a tag that name an entry of `ids`, in order;
/// a value is read without its leading `#`.
pub open spec fn resolve(vs: Seq<Option<Seq<char>>>, ids: Option<Ids>) -> Seq<i32>
    decreases vs.len(),
{
    if vs.len() == 0 {
        Seq::empty()
    } else {
        let head = resolve(vs.drop_last(), ids);
        match vs.last() {
            Some(v) => match ids {
                Some(m) => match last_match(m, strip_hash(v)) {
                    Some(id) => head.push(id),
                    None => head,
                },
                None => head,
            },
            None => head,
        }
    }
}

/// The tags of a registry for the play phase: each tag whose values are a
/// list and whose name is an identifier, where at least one value names an
/// entry.
pub open spec fn play_tags(tags: Seq<(Seq<char>, TagValues)>, ids: Option<Ids>) -> Seq<
    (Seq<char>, Seq<i32>),
>
    decreases tags.len(),
{
    if tags.len() == 0 {
        Seq::empty()
    } else {
        let acc = play_tags(tags.drop_last(), ids);
        let (name, values) = tags.last();
        match values {
            Some(vs) => match spec_ident(name) {
                Some(t) => {
                    let e = resolve(vs, ids);
                    if e.len() > 0 {
                        insert(acc, t, e)
                    } else {
                        acc
                    }
                },
                None => acc,
            },
            None => acc,
        }
    }
}

/// The tag groups of the play phase: for each registry of the tag file
/// whose full name is an identifier and that holds an object, its play
/// tags, where there is one.
pub open spec fn spec_play_tag_groups(
    sources: Seq<(Seq<char>, Option<Seq<(Seq<char>, TagValues)>>)>,
    regs: Seq<(Seq<char>, Ids)>,
) -> Groups
    decreases sources.len(),
{
    if sources.len() == 0 {
        Seq::empty()
    } else {
        let acc = spec_play_tag_groups(sources.drop_last(), regs);
        let (reg, tags) = sources.last();
        match tags {
            Some(ts) => {
                let full = full_registry_name(reg);
                match spec_ident(full) {
                    Some(r) => {
                        let tm = play_tags(ts, last_match(regs, full));
                        if tm.len() > 0 {
                            insert(acc, r, tm)
                        } else {
                            acc
                        }
                    },
                    None => acc,
                }
            },
            None => acc,
        }
    }
}

fn chars_equal(a: &Vec<char>, b: &Vec<char>) -> (r: bool)
    ensures
        r == (a@ == b@),
{
    if a.len() != b.len() {
        return false;
    }
    let mut i: usize = 0;
    while i < a.len()
        invariant
            i <= a.len(),
            a.len() == b.len(),
            forall|j: int| 0 <= j < i ==> a@[j] == b@[j],
        decreases a.len() - i,
    {
        if a[i] != b[i] {
            return false;
        }
        i = i + 1;
    }
    assert(a@ =~= b@);
    true
}

fn strip_hash_chars(v: Vec<char>) -> (r: Vec<char>)
    ensures
        r@ == strip_hash(v@),
{
    if v.len() > 0 && v[0] == '#' {
        let mut r: Vec<char> = Vec::new();
        let mut i: usize = 1;
        while i < v.len()
            invariant
                1 <= i <= v.len(),
                r@ == v@.subrange(1, i as int),
            decreases v.len() - i,
        {
            r.push(v[i]);
            i = i + 1;
            assert(r@ =~= v@.subrange(1, i as int));
        }
        assert(v@.subrange(1, v.len() as int) =~= v@.drop_first());
        r
    } else {
        v
    }
}

/// The entries of the last registry named `name`.
fn registry_ids_of<'a>(regs: &'a Vec<RegistryIds>, name: &String) -> (r: Option<&'a Vec<EntryId>>)
    ensures
        opt_ids(r) == last_match(registry_ids_view(regs@), name@),
{
    let ghost rv = registry_ids_view(regs@);
    let mut i: usize = regs.len();
    proof {
        assert(rv.take(i as int) =~= rv);
    }
    while i > 0
        invariant
            i <= regs.len(),
            rv == registry_ids_view(regs@),
            last_match(rv, name@) == last_match(rv.take(i as int), name@),
        decreases i,
    {
        let ghost pre = rv.take(i as int);
        assert(pre.last() == rv[i - 1]);
        if regs[i - 1].registry == *name {
            return Some(&regs[i - 1].entries);
        }
        assert(pre.drop_last() =~= rv.take(i - 1));
        i = i - 1;
    }
    None
}

/// The id of the last entry named `key`.
fn entry_id_of(entries: &Vec<EntryId>, key: &Vec<char>) -> (r: Option<i32>)
    ensures
        r == last_match(entry_ids_view(entries@), key@),
{
    let ghost ev = entry_ids_view(entries@);
    let mut i: usize = entries.len();
    proof {
        assert(ev.take(i as int) =~= ev);
    }
    while i > 0
        invariant
            i <= entries.len(),
            ev == entry_ids_view(entries@),
            last_match(ev, key@) == last_match(ev.take(i as int), key@),
        decreases i,
    {
        let ghost pre = ev.take(i as int);
        assert(pre.last() == ev[i - 1]);
        let name = chars_of(entries[i - 1].name.as_str());
        if chars_equal(&name, key) {
            return Some(entries[i - 1].id);
        }
        assert(pre.drop_last() =~= ev.take(i - 1));
        i = i - 1;
    }
    None
}

/// The ids of the values of a tag (see [`resolve`]).
fn resolve_values(values: &Vec<Option<String>>, ids: Option<&Vec<EntryId>>) -> (r: Vec<i32>)
    ensures
        r@ == resolve(opt_names(values@), opt_ids(ids)),
{
    let ghost vv = opt_names(values@);
    let mut r: Vec<i32> = Vec::new();
    let mut i: usize = 0;
    proof {
        assert(vv.take(0) =~= Seq::<Option<Seq<char>>>::empty());
    }
    while i < values.len()
        invariant
            i <= values.len(),
            vv == opt_names(values@),
            r@ == resolve(vv.take(i as int), opt_ids(ids)),
        decreases values.len() - i,
    {
        let ghost pre = vv.take(i + 1);
        proof {
            assert(pre.drop_last() =~= vv.take(i as int));
            assert(pre.last() == vv[i as int]);
        }
        match &values[i] {
            Some(v) => {
                match ids {
                    Some(m) => {
                        let key = strip_hash_chars(chars_of(v.as_str()));
                        match entry_id_of(m, &key) {
                            Some(id) => {
                                r.push(id);
                            },
                            None => {},
                        }
                    },
                    None => {},
                }
            },
            None => {},
        }
        i = i + 1;
    }
    proof {
        assert(vv.take(values.len() as int) =~= vv);
    }
    r
}

/// The play tags of one registry (see [`play_tags`]).
fn play_tags_of(tags: &Vec<TagSource>, ids: Option<&Vec<EntryId>>) -> (r: Vec<Tag>)
    ensures
        tags_view(r@) == play_tags(tag_sources_view(tags@), opt_ids(ids)),
{
    let ghost tv = tag_sources_view(tags@);
    let mut r: Vec<Tag> = Vec::new();
    let mut i: usize = 0;
    proof {
        assert(tv.take(0) =~= Seq::<(Seq<char>, TagValues)>::empty());
    }
    while i < tags.len()
        invariant
            i <= tags.len(),
            tv == tag_sources_view(tags@),
            tags_view(r@) == play_tags(tv.take(i as int), opt_ids(ids)),
        decreases tags.len() - i,
    {
        let ghost pre = tv.take(i + 1);
        proof {
            assert(pre.drop_last() =~= tv.take(i as int));
            assert(pre.last() == tv[i as int]);
        }
        match &tags[i].values {
            Some(vs) => {
                match parse_ident(&tags[i].name) {
                    Some(t) => {
                        let e = resolve_values(vs, ids);
                        if e.len() > 0 {
                            insert_tag(&mut r, t, e);
                        }
                    },
                    None => {},
                }
            },
            None => {},
        }
        i = i + 1;
    }
    proof {
        assert(tv.take(tags.len() as int) =~= tv);
    }
    r
}

/// The tag groups the server sends in the play phase, from the tag file and
/// the registry list (see [`spec_play_tag_groups`]).
pub fn init_tags_registry(sources: &Vec<RegistryTags>, regs: &Vec<RegistryIds>) -> (r: Vec<TagGroup>)
    ensures
        groups_view(r@) == spec_play_tag_groups(registry_tags_view(sources@), registry_ids_view(regs@)),
{
    let ghost sv = registry_tags_view(sources@);
    let mut r: Vec<TagGroup> = Vec::new();
    let mut i: usize = 0;
    proof {
        assert(sv.take(0) =~= Seq::<(Seq<char>, Option<Seq<(Seq<char>, TagValues)>>)>::empty());
    }
    while i < sources.len()
        invariant
            i <= sources.len(),
            sv == registry_tags_view(sources@),
            groups_view(r@) == spec_play_tag_groups(sv.take(i as int), registry_ids_view(regs@)),
        decreases sources.len() - i,
    {
        let ghost pre = sv.take(i + 1);
        proof {
            assert(pre.drop_last() =~= sv.take(i as int));
            assert(pre.last() == sv[i as int]);
        }
        match &sources[i].tags {
            Some(ts) => {
                let full = registry_full_name(&sources[i].registry);
                match parse_ident(&full) {
                    Some(reg) => {
                        let tm = play_tags_of(ts, registry_ids_of(regs, &full));
                        if tm.len() > 0 {
                            insert_group(&mut r, reg, tm);
                        }
                    },
                    None => {},
                }
            },
            None => {},
        }
        i = i + 1;
    }
    proof {
        assert(sv.take(sources.len() as int) =~= sv);
    }
    r
}

// ---------------------------------------------------------------------
// The tag groups of the configuration phase
// ---------------------------------------------------------------------

/// A tag read from the server jar, with the names it lists.
#[derive(Debug)]
pub struct JarTag {
    pub name: String,
    pub values: Vec<String>,
}

/// The tags of a registry read from the server jar, under the registry's
/// full name.
#[derive(Debug)]
pub struct JarTags {
    pub registry: String,
    pub tags: Vec<JarTag>,
}

/// The entry names of a dynamic registry read from the server jar, in the
/// order that gives their protocol ids.
#[derive(Debug)]
pub struct JarRegistry {
    pub registry: String,
    pub entries: Vec<String>,
}

pub open spec fn names_of(v: Seq<String>) -> Seq<Seq<char>> {
    v.map_values(|s: String| s@)
}

pub open spec fn jar_tags_view(j: Seq<JarTags>) -> Seq<(Seq<char>, Seq<(Seq<char>, Seq<Seq<char>>)>)> {
    j.map_values(
        |x: JarTags|
            (x.registry@, x.tags@.map_values(|t: JarTag| (t.name@, names_of(t.values@)))),
    )
}

pub open spec fn jar_registries_view(j: Seq<JarRegistry>) -> Seq<(Seq<char>, Seq<Seq<char>>)> {
    j.map_values(|x: JarRegistry| (x.registry@, names_of(x.entries@)))
}

pub open spec fn opt_names_of(r: Option<&Vec<String>>) -> Option<Seq<Seq<char>>> {
    match r {
        Some(v) => Some(names_of(v@)),
        None => None,
    }
}

/// The tags of a registry of the tag file for the configuration phase:
/// every tag, under its identifier (`minecraft:unknown` where it has none),
/// with the ids of its values (none where they are not a list).
pub open spec fn file_tags(tags: Seq<(Seq<char>, TagValues)>, ids: Option<Ids>) -> Seq<
    (Seq<char>, Seq<i32>),
>
    decreases tags.len(),
{
    if tags.len() == 0 {
        Seq::empty()
    } else {
        let acc = file_tags(tags.drop_last(), ids);
        let (name, values) = tags.last();
        let e = match values {
            Some(vs) => resolve(vs, ids),
            None => Seq::empty(),
        };
        insert(acc, ident_or_unknown(name), e)
    }
}

/// The tag groups of the tag file for the configuration phase: for each
/// registry that holds an object with at least one tag, its tags under the
/// identifier of its full name.
pub open spec fn file_tag_groups(
    sources: Seq<(Seq<char>, Option<Seq<(Seq<char>, TagValues)>>)>,
    regs: Seq<(Seq<char>, Ids)>,
) -> Groups
    decreases sources.len(),
{
    if sources.len() == 0 {
        Seq::empty()
    } else {
        let acc = file_tag_groups(sources.drop_last(), regs);
        let (reg, tags) = sources.last();
        match tags {
            Some(ts) => {
                let full = full_registry_name(reg);
                let tm = file_tags(ts, last_match(regs, full));
                if tm.len() > 0 {
                    insert(acc, ident_or_unknown(full), tm)
                } else {
                    acc
                }
            },
            None => acc,
        }
    }
}

/// The index of the last `k` in `names`.
pub open spec fn last_index(names: Seq<Seq<char>>, k: Seq<char>) -> Option<int>
    decreases names.len(),
{
    if names.len() == 0 {
        None
    } else if names.last() == k {
        Some(names.len() - 1)
    } else {
        last_index(names.drop_last(), k)
    }
}

/// The id of an entry of a registry of the jar: its index among the jar's
/// entries where the jar lists it, else its id in the registry list.
pub open spec fn jar_id(jar_names: Option<Seq<Seq<char>>>, ids: Option<Ids>, n: Seq<char>) -> Option<i32> {
    let from_jar = match jar_names {
        Some(ns) => last_index(ns, n),
        None => None,
    };
    match from_jar {
        Some(i) => Some(i as i32),
        None => match ids {
            Some(m) => last_match(m, n),
            None => None,
        },
    }
}

/// The ids of the names a jar tag lists, in order (see [`jar_id`]).
pub open spec fn jar_tag_ids(
    vs: Seq<Seq<char>>,
    jar_names: Option<Seq<Seq<char>>>,
    ids: Option<Ids>,
) -> Seq<i32>
    decreases vs.len(),
{
    if vs.len() == 0 {
        Seq::empty()
    } else {
        let head = jar_tag_ids(vs.drop_last(), jar_names, ids);
        match jar_id(jar_names, ids, strip_hash(vs.last())) {
            Some(id) => head.push(id),
            None => head,
        }
    }
}

/// The tags of a registry of the jar: each tag with at least one id, under
/// its identifier (`minecraft:unknown` where it has none).
pub open spec fn jar_tag_map(
    tags: Seq<(Seq<char>, Seq<Seq<char>>)>,
    jar_names: Option<Seq<Seq<char>>>,
    ids: Option<Ids>,
) -> Seq<(Seq<char>, Seq<i32>)>
    decreases tags.len(),
{
    if tags.len() == 0 {
        Seq::empty()
    } else {
        let acc = jar_tag_map(tags.drop_last(), jar_names, ids);
        let e = jar_tag_ids(tags.last().1, jar_names, ids);
        if e.len() > 0 {
            insert(acc, ident_or_unknown(tags.last().0), e)
        } else {
            acc
        }
    }
}

/// The groups `base` with the tags of the jar set in them: for each registry
/// of the jar with at least one tag, its tags are set in the group of its
/// identifier (`minecraft:unknown` where it has none), which is made where
/// there is none.
pub open spec fn merge_jar_tags(
    base: Groups,
    jar: Seq<(Seq<char>, Seq<(Seq<char>, Seq<Seq<char>>)>)>,
    jar_regs: Seq<(Seq<char>, Seq<Seq<char>>)>,
    regs: Seq<(Seq<char>, Ids)>,
) -> Groups
    decreases jar.len(),
{
    if jar.len() == 0 {
        base
    } else {
        let acc = merge_jar_tags(base, jar.drop_last(), jar_regs, regs);
        let full = jar.last().0;
        let tm = jar_tag_map(jar.last().1, last_match(jar_regs, full), last_match(regs, full));
        if tm.len() > 0 {
            extend(acc, ident_or_unknown(full), tm)
        } else {
            acc
        }
    }
}

/// The tag groups of the configuration phase: those of the tag file, with
/// the tags of the server jar set in them.
pub open spec fn spec_tags_data(
    sources: Seq<(Seq<char>, Option<Seq<(Seq<char>, TagValues)>>)>,
    regs: Seq<(Seq<char>, Ids)>,
    jar: Seq<(Seq<char>, Seq<(Seq<char>, Seq<Seq<char>>)>)>,
    jar_regs: Seq<(Seq<char>, Seq<Seq<char>>)>,
) -> Groups {
    merge_jar_tags(file_tag_groups(sources, regs), jar, jar_regs, regs)
}

/// The configuration tags of one registry of the tag file (see [`file_tags`]).
fn file_tags_of(tags: &Vec<TagSource>, ids: Option<&Vec<EntryId>>) -> (r: Vec<Tag>)
    ensures
        tags_view(r@) == file_tags(tag_sources_view(tags@), opt_ids(ids)),
{
    let ghost tv = tag_sources_view(tags@);
    let mut r: Vec<Tag> = Vec::new();
    let mut i: usize = 0;
    proof {
        assert(tv.take(0) =~= Seq::<(Seq<char>, TagValues)>::empty());
    }
    while i < tags.len()
        invariant
            i <= tags.len(),
            tv == tag_sources_view(tags@),
            tags_view(r@) == file_tags(tv.take(i as int), opt_ids(ids)),
        decreases tags.len() - i,
    {
        let ghost pre = tv.take(i + 1);
        proof {
            assert(pre.drop_last() =~= tv.take(i as int));
            assert(pre.last() == tv[i as int]);
        }
        let e = match &tags[i].values {
            Some(vs) => resolve_values(vs, ids),
            None => Vec::new(),
        };
        let name = ident_or_unknown_of(&tags[i].name);
        insert_tag(&mut r, name, e);
        i = i + 1;
    }
    proof {
        assert(tv.take(tags.len() as int) =~= tv);
    }
    r
}

/// The configuration tag groups of the tag file (see [`file_tag_groups`]).
fn file_tag_groups_of(sources: &Vec<RegistryTags>, regs: &Vec<RegistryIds>) -> (r: Vec<TagGroup>)
    ensures
        groups_view(r@) == file_tag_groups(registry_tags_view(sources@), registry_ids_view(regs@)),
{
    let ghost sv = registry_tags_view(sources@);
    let mut r: Vec<TagGroup> = Vec::new();
    let mut i: usize = 0;
    proof {
        assert(sv.take(0) =~= Seq::<(Seq<char>, Option<Seq<(Seq<char>, TagValues)>>)>::empty());
    }
    while i < sources.len()
        invariant
            i <= sources.len(),
            sv == registry_tags_view(sources@),
            groups_view(r@) == file_tag_groups(sv.take(i as int), registry_ids_view(regs@)),
        decreases sources.len() - i,
    {
        let ghost pre = sv.take(i + 1);
        proof {
            assert(pre.drop_last() =~= sv.take(i as int));
            assert(pre.last() == sv[i as int]);
        }
        match &sources[i].tags {
            Some(ts) => {
                let full = registry_full_name(&sources[i].registry);
                let tm = file_tags_of(ts, registry_ids_of(regs, &full));
                if tm.len() > 0 {
                    let reg = ident_or_unknown_of(&full);
                    insert_group(&mut r, reg, tm);
                }
            },
            None => {},
        }
        i = i + 1;
    }
    proof {
        assert(sv.take(sources.len() as int) =~= sv);
    }
    r
}

/// The entry names of the last jar registry named `name`.
fn jar_names_of<'a>(jar_regs: &'a Vec<JarRegistry>, name: &String) -> (r: Option<&'a Vec<String>>)
    ensures
        opt_names_of(r) == last_match(jar_registries_view(jar_regs@), name@),
{
    let ghost rv = jar_registries_view(jar_regs@);
    let mut i: usize = jar_regs.len();
    proof {
        assert(rv.take(i as int) =~= rv);
    }
    while i > 0
        invariant
            i <= jar_regs.len(),
            rv == jar_registries_view(jar_regs@),
            last_match(rv, name@) == last_match(rv.take(i as int), name@),
        decreases i,
    {
        let ghost pre = rv.take(i as int);
        assert(pre.last() == rv[i - 1]);
        if jar_regs[i - 1].registry == *name {
            return Some(&jar_regs[i - 1].entries);
        }
        assert(pre.drop_last() =~= rv.take(i - 1));
        i = i - 1;
    }
    None
}

/// The index of the last name `key` in `names`.
fn last_index_of(names: &Vec<String>, key: &Vec<char>) -> (r: Option<usize>)
    ensures
        match r {
            Some(i) => last_index(names_of(names@), key@) == Some(i as int),
            None => last_index(names_of(names@), key@) is None,
        },
{
    let ghost nv = names_of(names@);
    let mut i: usize = names.len();
    proof {
        assert(nv.take(i as int) =~= nv);
    }
    while i > 0
        invariant
            i <= names.len(),
            nv == names_of(names@),
            last_index(nv, key@) == last_index(nv.take(i as int), key@),
        decreases i,
    {
        let ghost pre = nv.take(i as int);
        assert(pre.last() == nv[i - 1]);
        let name = chars_of(names[i - 1].as_str());
        if chars_equal(&name, key) {
            return Some(i - 1);
        }
        assert(pre.drop_last() =~= nv.take(i - 1));
        i = i - 1;
    }
    None
}

/// The id of a jar registry's entry (see [`jar_id`]).
fn jar_id_of(jar_names: Option<&Vec<String>>, ids: Option<&Vec<EntryId>>, key: &Vec<char>) -> (r: Option<i32>)
    ensures
        r == jar_id(opt_names_of(jar_names), opt_ids(ids), key@),
{
    let from_jar = match jar_names {
        Some(ns) => last_index_of(ns, key),
        None => None,
    };
    match from_jar {
        Some(i) => Some(i as i32),
        None => match ids {
            Some(m) => entry_id_of(m, key),
            None => None,
        },
    }
}

/// The ids of the names a jar tag lists (see [`jar_tag_ids`]).
fn jar_tag_ids_of(values: &Vec<String>, jar_names: Option<&Vec<String>>, ids: Option<&Vec<EntryId>>) -> (r: Vec<i32>)
    ensures
        r@ == jar_tag_ids(names_of(values@), opt_names_of(jar_names), opt_ids(ids)),
{
    let ghost vv = names_of(values@);
    let mut r: Vec<i32> = Vec::new();
    let mut i: usize = 0;
    proof {
        assert(vv.take(0) =~= Seq::<Seq<char>>::empty());
    }
    while i < values.len()
        invariant
            i <= values.len(),
            vv == names_of(values@),
            r@ == jar_tag_ids(vv.take(i as int), opt_names_of(jar_names), opt_ids(ids)),
        decreases values.len() - i,
    {
        let ghost pre = vv.take(i + 1);
        proof {
            assert(pre.drop_last() =~= vv.take(i as int));
            assert(pre.last() == vv[i as int]);
        }
        let key = strip_hash_chars(chars_of(values[i].as_str()));
        match jar_id_of(jar_names, ids, &key) {
            Some(id) => {
                r.push(id);
            },
            None => {},
        }
        i = i + 1;
    }
    proof {
        assert(vv.take(values.len() as int) =~= vv);
    }
    r
}

/// The tags of one registry of the jar (see [`jar_tag_map`]).
fn jar_tag_map_of(tags: &Vec<JarTag>, jar_names: Option<&Vec<String>>, ids: Option<&Vec<EntryId>>) -> (r: Vec<Tag>)
    ensures
        tags_view(r@) == jar_tag_map(
            tags@.map_values(|t: JarTag| (t.name@, names_of(t.values@))),
            opt_names_of(jar_names),
            opt_ids(ids),
        ),
{
    let ghost tv = tags@.map_values(|t: JarTag| (t.name@, names_of(t.values@)));
    let mut r: Vec<Tag> = Vec::new();
    let mut i: usize = 0;
    proof {
        assert(tv.take(0) =~= Seq::<(Seq<char>, Seq<Seq<char>>)>::empty());
    }
    while i < tags.len()
        invariant
            i <= tags.len(),
            tv == tags@.map_values(|t: JarTag| (t.name@, names_of(t.values@))),
            tags_view(r@) == jar_tag_map(tv.take(i as int), opt_names_of(jar_names), opt_ids(ids)),
        decreases tags.len() - i,
    {
        let ghost pre = tv.take(i + 1);
        proof {
            assert(pre.drop_last() =~= tv.take(i as int));
            assert(pre.last() == tv[i as int]);
        }
        let e = jar_tag_ids_of(&tags[i].values, jar_names, ids);
        if e.len() > 0 {
            let name = ident_or_unknown_of(&tags[i].name);
            insert_tag(&mut r, name, e);
        }
        i = i + 1;
    }
    proof {
        assert(tv.take(tags.len() as int) =~= tv);
    }
    r
}

/// The tag groups the server sends in the configuration phase, from the tag
/// file, the registry list and what was read from the server jar (see
/// [`spec_tags_data`]).
pub fn get_tags_data(
    sources: &Vec<RegistryTags>,
    regs: &Vec<RegistryIds>,
    jar: &Vec<JarTags>,
    jar_regs: &Vec<JarRegistry>,
) -> (r: Vec<TagGroup>)
    ensures
        groups_view(r@) == spec_tags_data(
            registry_tags_view(sources@),
            registry_ids_view(regs@),
            jar_tags_view(jar@),
            jar_registries_view(jar_regs@),
        ),
{
    let ghost base = file_tag_groups(registry_tags_view(sources@), registry_ids_view(regs@));
    let ghost jv = jar_tags_view(jar@);
    let mut r = file_tag_groups_of(sources, regs);
    let mut i: usize = 0;
    proof {
        assert(jv.take(0) =~= Seq::<(Seq<char>, Seq<(Seq<char>, Seq<Seq<char>>)>)>::empty());
    }
    while i < jar.len()
        invariant
            i <= jar.len(),
            jv == jar_tags_view(jar@),
            groups_view(r@) == merge_jar_tags(
                base,
                jv.take(i as int),
                jar_registries_view(jar_regs@),
                registry_ids_view(regs@),
            ),
        decreases jar.len() - i,
    {
        let ghost pre = jv.take(i + 1);
        proof {
            assert(pre.drop_last() =~= jv.take(i as int));
            assert(pre.last() == jv[i as int]);
        }
        let full = &jar[i].registry;
        let tm = jar_tag_map_of(&jar[i].tags, jar_names_of(jar_regs, full), registry_ids_of(regs, full));
        if tm.len() > 0 {
            let reg = ident_or_unknown_of(full);
            extend_group(&mut r, reg, &tm);
        }
        i = i + 1;
    }
    proof {
        assert(jv.take(jar.len() as int) =~= jv);
    }
    r
}

// ---------------------------------------------------------------------
// Laws of the tag groups
// ---------------------------------------------------------------------

/// Every entry of a map after an insertion is the one inserted or an entry
/// of the map before.
pub proof fn lemma_insert_entries<V>(t: Seq<(Seq<char>, V)>, k: Seq<char>, v: V)
    ensures
        forall|i: int|
            0 <= i < insert(t, k, v).len() ==> #[trigger] insert(t, k, v)[i] == (k, v) || t.contains(
                insert(t, k, v)[i],
            ),
    decreases t.len(),
{
    let r = insert(t, k, v);
    if t.len() == 0 {
    } else if t[0].0 == k {
        assert forall|i: int| 0 <= i < r.len() implies #[trigger] r[i] == (k, v) || t.contains(r[i]) by {
            if i > 0 {
                assert(r[i] == t[i]);
            }
        }
    } else if name_lt(k, t[0].0) {
        assert forall|i: int| 0 <= i < r.len() implies #[trigger] r[i] == (k, v) || t.contains(r[i]) by {
            if i > 0 {
                assert(r[i] == t[i - 1]);
            }
        }
    } else {
        let rest = t.drop_first();
        lemma_insert_entries(rest, k, v);
        let ir = insert(rest, k, v);
        assert(r =~= seq![t[0]] + ir);
        assert forall|i: int| 0 <= i < r.len() implies #[trigger] r[i] == (k, v) || t.contains(r[i]) by {
            if i == 0 {
                assert(t[0] == r[i]);
            } else {
                assert(r[i] == ir[i - 1]);
                if ir[i - 1] != (k, v) {
                    let j = choose|j: int| 0 <= j < rest.len() && rest[j] == ir[i - 1];
                    assert(t[j + 1] == r[i]);
                }
            }
        }
    }
}

/// The value a map gives a name is the value of one of its entries.
pub proof fn lemma_lookup_entry<V>(t: Seq<(Seq<char>, V)>, k: Seq<char>)
    ensures
        lookup(t, k) matches Some(v) ==> t.contains((k, v)),
    decreases t.len(),
{
    if t.len() > 0 && t[0].0 != k {
        lemma_lookup_entry(t.drop_first(), k);
        if let Some(v) = lookup(t, k) {
            let j = choose|j: int| 0 <= j < t.drop_first().len() && t.drop_first()[j] == (k, v);
            assert(t[j + 1] == (k, v));
        }
    } else if t.len() > 0 {
        assert(t[0] == (k, t[0].1));
    }
}

/// Every id list of a map is non-empty.
pub open spec fn nonempty_values<V>(t: Seq<(Seq<char>, Seq<V>)>) -> bool {
    forall|i: int| 0 <= i < t.len() ==> (#[trigger] t[i]).1.len() > 0
}

/// Inserting each item into an ordered map gives an ordered map.
pub proof fn lemma_insert_all_ordered<V>(t: Seq<(Seq<char>, V)>, items: Seq<(Seq<char>, V)>)
    requires
        ordered(t),
    ensures
        ordered(insert_all(t, items)),
    decreases items.len(),
{
    if items.len() > 0 {
        lemma_insert_all_ordered(t, items.drop_last());
        lemma_insert_ordered(insert_all(t, items.drop_last()), items.last().0, items.last().1);
    }
}

proof fn lemma_play_tags_props(tags: Seq<(Seq<char>, TagValues)>, ids: Option<Ids>)
    ensures
        ordered(play_tags(tags, ids)),
        nonempty_values(play_tags(tags, ids)),
    decreases tags.len(),
{
    if tags.len() > 0 {
        let acc = play_tags(tags.drop_last(), ids);
        lemma_play_tags_props(tags.drop_last(), ids);
        let (name, values) = tags.last();
        if let Some(vs) = values {
            if let Some(t) = spec_ident(name) {
                let e = resolve(vs, ids);
                if e.len() > 0 {
                    lemma_insert_ordered(acc, t, e);
                    lemma_insert_entries(acc, t, e);
                    let r = insert(acc, t, e);
                    assert forall|i: int| 0 <= i < r.len() implies (#[trigger] r[i]).1.len() > 0 by {
                        if r[i] != (t, e) {
                            let j = choose|j: int| 0 <= j < acc.len() && acc[j] == r[i];
                            assert(acc[j].1.len() > 0);
                        }
                    }
                }
            }
        }
    }
}

/// The tag groups of the play phase are ordered by registry; the tags of
/// each group are ordered by name; no group is empty and every tag lists
/// at least one id.
pub proof fn lemma_play_tag_groups_ordered(
    sources: Seq<(Seq<char>, Option<Seq<(Seq<char>, TagValues)>>)>,
    regs: Seq<(Seq<char>, Ids)>,
)
    ensures
        ordered(spec_play_tag_groups(sources, regs)),
        forall|i: int|
            0 <= i < spec_play_tag_groups(sources, regs).len() ==> {
                let g = #[trigger] spec_play_tag_groups(sources, regs)[i];
                &&& ordered(g.1)
                &&& g.1.len() > 0
                &&& nonempty_values(g.1)
            },
    decreases sources.len(),
{
    if sources.len() > 0 {
        let acc = spec_play_tag_groups(sources.drop_last(), regs);
        lemma_play_tag_groups_ordered(sources.drop_last(), regs);
        let (reg, tags) = sources.last();
        if let Some(ts) = tags {
            let full = full_registry_name(reg);
            if let Some(r) = spec_ident(full) {
                let tm = play_tags(ts, last_match(regs, full));
                if tm.len() > 0 {
                    lemma_play_tags_props(ts, last_match(regs, full));
                    lemma_insert_ordered(acc, r, tm);
                    lemma_insert_entries(acc, r, tm);
                    let out = insert(acc, r, tm);
                    assert forall|i: int| 0 <= i < out.len() implies {
                        let g = #[trigger] out[i];
                        &&& ordered(g.1)
                        &&& g.1.len() > 0
                        &&& nonempty_values(g.1)
                    } by {
                        if out[i] != (r, tm) {
                            let j = choose|j: int| 0 <= j < acc.len() && acc[j] == out[i];
                            assert(ordered(acc[j].1));
                        }
                    }
                }
            }
        }
    }
}

proof fn lemma_file_tags_ordered(tags: Seq<(Seq<char>, TagValues)>, ids: Option<Ids>)
    ensures
        ordered(file_tags(tags, ids)),
    decreases tags.len(),
{
    if tags.len() > 0 {
        lemma_file_tags_ordered(tags.drop_last(), ids);
        let (name, values) = tags.last();
        let e = match values {
            Some(vs) => resolve(vs, ids),
            None => Seq::empty(),
        };
        lemma_insert_ordered(file_tags(tags.drop_last(), ids), ident_or_unknown(name), e);
    }
}

proof fn lemma_jar_tag_map_ordered(
    tags: Seq<(Seq<char>, Seq<Seq<char>>)>,
    jar_names: Option<Seq<Seq<char>>>,
    ids: Option<Ids>,
)
    ensures
        ordered(jar_tag_map(tags, jar_names, ids)),
    decreases tags.len(),
{
    if tags.len() > 0 {
        lemma_jar_tag_map_ordered(tags.drop_last(), jar_names, ids);
        let e = jar_tag_ids(tags.last().1, jar_names, ids);
        if e.len() > 0 {
            lemma_insert_ordered(jar_tag_map(tags.drop_last(), jar_names, ids), ident_or_unknown(tags.last().0), e);
        }
    }
}

/// Each group of `g` has its tags ordered by name.
pub open spec fn groups_ordered(g: Groups) -> bool {
    ordered(g) && forall|i: int| 0 <= i < g.len() ==> ordered(#[trigger] g[i].1)
}

proof fn lemma_insert_group_ordered(g: Groups, k: Seq<char>, tm: Seq<(Seq<char>, Seq<i32>)>)
    requires
        groups_ordered(g),
        ordered(tm),
    ensures
        groups_ordered(insert(g, k, tm)),
{
    lemma_insert_ordered(g, k, tm);
    lemma_insert_entries(g, k, tm);
    let out = insert(g, k, tm);
    assert forall|i: int| 0 <= i < out.len() implies ordered(#[trigger] out[i].1) by {
        if out[i] != (k, tm) {
            let j = choose|j: int| 0 <= j < g.len() && g[j] == out[i];
            assert(ordered(g[j].1));
        }
    }
}

proof fn lemma_file_tag_groups_ordered(
    sources: Seq<(Seq<char>, Option<Seq<(Seq<char>, TagValues)>>)>,
    regs: Seq<(Seq<char>, Ids)>,
)
    ensures
        groups_ordered(file_tag_groups(sources, regs)),
    decreases sources.len(),
{
    if sources.len() > 0 {
        lemma_file_tag_groups_ordered(sources.drop_last(), regs);
        let (reg, tags) = sources.last();
        if let Some(ts) = tags {
            let full = full_registry_name(reg);
            let tm = file_tags(ts, last_match(regs, full));
            if tm.len() > 0 {
                lemma_file_tags_ordered(ts, last_match(regs, full));
                lemma_insert_group_ordered(file_tag_groups(sources.drop_last(), regs), ident_or_unknown(full), tm);
            }
        }
    }
}

proof fn lemma_merge_jar_tags_ordered(
    base: Groups,
    jar: Seq<(Seq<char>, Seq<(Seq<char>, Seq<Seq<char>>)>)>,
    jar_regs: Seq<(Seq<char>, Seq<Seq<char>>)>,
    regs: Seq<(Seq<char>, Ids)>,
)
    requires
        groups_ordered(base),
    ensures
        groups_ordered(merge_jar_tags(base, jar, jar_regs, regs)),
    decreases jar.len(),
{
    if jar.len() > 0 {
        lemma_merge_jar_tags_ordered(base, jar.drop_last(), jar_regs, regs);
        let acc = merge_jar_tags(base, jar.drop_last(), jar_regs, regs);
        let full = jar.last().0;
        let tm = jar_tag_map(jar.last().1, last_match(jar_regs, full), last_match(regs, full));
        if tm.len() > 0 {
            let k = ident_or_unknown(full);
            lemma_lookup_entry(acc, k);
            let b = match lookup(acc, k) {
                Some(b) => b,
                None => Seq::empty(),
            };
            if let Some(v) = lookup(acc, k) {
                let j = choose|j: int| 0 <= j < acc.len() && acc[j] == (k, v);
                assert(ordered(acc[j].1));
            }
            lemma_insert_all_ordered(b, tm);
            lemma_insert_group_ordered(acc, k, insert_all(b, tm));
        }
    }
}

/// The tag groups of the configuration phase are ordered by registry, and
/// the tags of each group by name.
pub proof fn lemma_tags_data_ordered(
    sources: Seq<(Seq<char>, Option<Seq<(Seq<char>, TagValues)>>)>,
    regs: Seq<(Seq<char>, Ids)>,
    jar: Seq<(Seq<char>, Seq<(Seq<char>, Seq<Seq<char>>)>)>,
    jar_regs: Seq<(Seq<char>, Seq<Seq<char>>)>,
)
    ensures
        groups_ordered(spec_tags_data(sources, regs, jar, jar_regs)),
{
    lemma_file_tag_groups_ordered(sources, regs);
    lemma_merge_jar_tags_ordered(file_tag_groups(sources, regs), jar, jar_regs, regs);
}

/// `x` is the protocol id of some entry of some registry of `regs`.
pub open spec fn id_listed(regs: Seq<(Seq<char>, Ids)>, x: i32) -> bool {
    exists|r: int, j: int| 0 <= r < regs.len() && 0 <= j < regs[r].1.len() && #[trigger] regs[r].1[j].1 == x
}

proof fn lemma_last_match_entry<V>(t: Seq<(Seq<char>, V)>, k: Seq<char>)
    ensures
        last_match(t, k) matches Some(v) ==> exists|j: int| 0 <= j < t.len() && #[trigger] t[j] == (k, v),
    decreases t.len(),
{
    if t.len() > 0 {
        if t.last().0 == k {
            assert(t[t.len() - 1] == (k, t.last().1));
        } else {
            lemma_last_match_entry(t.drop_last(), k);
            if let Some(v) = last_match(t, k) {
                let j = choose|j: int| 0 <= j < t.drop_last().len() && #[trigger] t.drop_last()[j] == (k, v);
                assert(t[j] == (k, v));
            }
        }
    }
}

proof fn lemma_resolve_none(vs: Seq<Option<Seq<char>>>)
    ensures
        resolve(vs, None).len() == 0,
    decreases vs.len(),
{
    if vs.len() > 0 {
        lemma_resolve_none(vs.drop_last());
    }
}

proof fn lemma_resolve_listed(vs: Seq<Option<Seq<char>>>, ids: Option<Ids>, regs: Seq<(Seq<char>, Ids)>, r: int)
    requires
        0 <= r < regs.len(),
        ids matches Some(m) ==> m == regs[r].1,
    ensures
        forall|i: int| 0 <= i < resolve(vs, ids).len() ==> id_listed(regs, #[trigger] resolve(vs, ids)[i]),
    decreases vs.len(),
{
    if vs.len() > 0 {
        lemma_resolve_listed(vs.drop_last(), ids, regs, r);
        let head = resolve(vs.drop_last(), ids);
        if let (Some(v), Some(m)) = (vs.last(), ids) {
            lemma_last_match_entry(m, strip_hash(v));
            if let Some(id) = last_match(m, strip_hash(v)) {
                let j = choose|j: int| 0 <= j < m.len() && #[trigger] m[j] == (strip_hash(v), id);
                assert(regs[r].1[j].1 == id);
                let out = head.push(id);
                assert forall|i: int| 0 <= i < out.len() implies id_listed(regs, #[trigger] out[i]) by {
                    if i < head.len() {
                        assert(out[i] == head[i]);
                    }
                }
            }
        }
    }
}

proof fn lemma_play_tags_listed(tags: Seq<(Seq<char>, TagValues)>, regs: Seq<(Seq<char>, Ids)>, full: Seq<char>)
    ensures
        forall|i: int, k: int|
            0 <= i < play_tags(tags, last_match(regs, full)).len() && 0 <= k < play_tags(
                tags,
                last_match(regs, full),
            )[i].1.len() ==> id_listed(regs, #[trigger] play_tags(tags, last_match(regs, full))[i].1[k]),
    decreases tags.len(),
{
    let ids = last_match(regs, full);
    if tags.len() > 0 {
        lemma_play_tags_listed(tags.drop_last(), regs, full);
        let acc = play_tags(tags.drop_last(), ids);
        let (name, values) = tags.last();
        if let Some(vs) = values {
            if let Some(t) = spec_ident(name) {
                let e = resolve(vs, ids);
                if e.len() > 0 {
                    lemma_last_match_entry(regs, full);
                    lemma_resolve_none(vs);
                    if let Some(m) = ids {
                        let r = choose|r: int| 0 <= r < regs.len() && #[trigger] regs[r] == (full, m);
                        lemma_resolve_listed(vs, ids, regs, r);
                    }
                    lemma_insert_entries(acc, t, e);
                    let out = insert(acc, t, e);
                    assert forall|i: int, k: int| 0 <= i < out.len() && 0 <= k < out[i].1.len() implies id_listed(
                        regs,
                        #[trigger] out[i].1[k],
                    ) by {
                        if out[i] != (t, e) {
                            let j = choose|j: int| 0 <= j < acc.len() && acc[j] == out[i];
                            assert(acc[j].1[k] == out[i].1[k]);
                        } else {
                            assert(out[i].1[k] == e[k]);
                        }
                    }
                }
            }
        }
    }
}

/// Every id of every tag of the play phase is the protocol id of an entry
/// that the registry list holds.
pub proof fn lemma_play_tag_ids_listed(
    sources: Seq<(Seq<char>, Option<Seq<(Seq<char>, TagValues)>>)>,
    regs: Seq<(Seq<char>, Ids)>,
)
    ensures
        forall|g: int, i: int, k: int|
            0 <= g < spec_play_tag_groups(sources, regs).len() && 0 <= i < spec_play_tag_groups(
                sources,
                regs,
            )[g].1.len() && 0 <= k < spec_play_tag_groups(sources, regs)[g].1[i].1.len() ==> id_listed(
                regs,
                #[trigger] spec_play_tag_groups(sources, regs)[g].1[i].1[k],
            ),
    decreases sources.len(),
{
    if sources.len() > 0 {
        lemma_play_tag_ids_listed(sources.drop_last(), regs);
        let acc = spec_play_tag_groups(sources.drop_last(), regs);
        let (reg, tags) = sources.last();
        if let Some(ts) = tags {
            let full = full_registry_name(reg);
            if let Some(r) = spec_ident(full) {
                let tm = play_tags(ts, last_match(regs, full));
                if tm.len() > 0 {
                    lemma_play_tags_listed(ts, regs, full);
                    lemma_insert_entries(acc, r, tm);
                    let out = insert(acc, r, tm);
                    assert forall|g: int, i: int, k: int|
                        0 <= g < out.len() && 0 <= i < out[g].1.len() && 0 <= k < out[g].1[i].1.len() implies id_listed(
                        regs,
                        #[trigger] out[g].1[i].1[k],
                    ) by {
                        if out[g] != (r, tm) {
                            let j = choose|j: int| 0 <= j < acc.len() && acc[j] == out[g];
                            assert(acc[j].1[i].1[k] == out[g].1[i].1[k]);
                        } else {
                            assert(tm[i].1[k] == out[g].1[i].1[k]);
                        }
                    }
                }
            }
        }
    }
}

/// The position `i` of a name in a registry of the jar, as an id.
pub open spec fn index_id(names: Seq<Seq<char>>, i: int) -> i32 {
    i as i32
}

/// `x` is the index of an entry name of some registry of the jar.
pub open spec fn jar_index_listed(jar_regs: Seq<(Seq<char>, Seq<Seq<char>>)>, x: i32) -> bool {
    exists|r: int, i: int|
        0 <= r < jar_regs.len() && 0 <= i < jar_regs[r].1.len() && x == #[trigger] index_id(jar_regs[r].1, i)
}

/// `x` is the protocol id of an entry of the registry list, or the index of
/// an entry of a registry of the jar.
pub open spec fn tag_id_known(regs: Seq<(Seq<char>, Ids)>, jar_regs: Seq<(Seq<char>, Seq<Seq<char>>)>, x: i32) -> bool {
    id_listed(regs, x) || jar_index_listed(jar_regs, x)
}

/// Every id of every tag of `t` is known (see [`tag_id_known`]).
pub open spec fn tag_ids_known(
    regs: Seq<(Seq<char>, Ids)>,
    jar_regs: Seq<(Seq<char>, Seq<Seq<char>>)>,
    t: Seq<(Seq<char>, Seq<i32>)>,
) -> bool {
    forall|i: int, k: int| 0 <= i < t.len() && 0 <= k < t[i].1.len() ==> tag_id_known(regs, jar_regs, #[trigger] t[i].1[k])
}

/// Every group of `g` has at least one tag, and every id of its tags is
/// known (see [`tag_id_known`]).
pub open spec fn groups_known(regs: Seq<(Seq<char>, Ids)>, jar_regs: Seq<(Seq<char>, Seq<Seq<char>>)>, g: Groups) -> bool {
    forall|i: int| 0 <= i < g.len() ==> (#[trigger] g[i]).1.len() > 0 && tag_ids_known(regs, jar_regs, g[i].1)
}

proof fn lemma_insert_known(
    regs: Seq<(Seq<char>, Ids)>,
    jr: Seq<(Seq<char>, Seq<Seq<char>>)>,
    t: Seq<(Seq<char>, Seq<i32>)>,
    k: Seq<char>,
    v: Seq<i32>,
)
    requires
        tag_ids_known(regs, jr, t),
        forall|j: int| 0 <= j < v.len() ==> tag_id_known(regs, jr, #[trigger] v[j]),
    ensures
        tag_ids_known(regs, jr, insert(t, k, v)),
{
    lemma_insert_entries(t, k, v);
    let out = insert(t, k, v);
    assert forall|i: int, j: int| 0 <= i < out.len() && 0 <= j < out[i].1.len() implies tag_id_known(
        regs,
        jr,
        #[trigger] out[i].1[j],
    ) by {
        if out[i] != (k, v) {
            let m = choose|m: int| 0 <= m < t.len() && t[m] == out[i];
            assert(t[m].1[j] == out[i].1[j]);
        } else {
            assert(out[i].1[j] == v[j]);
        }
    }
}

proof fn lemma_insert_group_known(
    regs: Seq<(Seq<char>, Ids)>,
    jr: Seq<(Seq<char>, Seq<Seq<char>>)>,
    g: Groups,
    k: Seq<char>,
    tm: Seq<(Seq<char>, Seq<i32>)>,
)
    requires
        groups_known(regs, jr, g),
        tm.len() > 0,
        tag_ids_known(regs, jr, tm),
    ensures
        groups_known(regs, jr, insert(g, k, tm)),
{
    lemma_insert_entries(g, k, tm);
    let out = insert(g, k, tm);
    assert forall|i: int| 0 <= i < out.len() implies (#[trigger] out[i]).1.len() > 0 && tag_ids_known(regs, jr, out[i].1) by {
        if out[i] != (k, tm) {
            let m = choose|m: int| 0 <= m < g.len() && g[m] == out[i];
            assert(g[m].1.len() > 0 && tag_ids_known(regs, jr, g[m].1));
        }
    }
}

proof fn lemma_resolve_known(
    vs: Seq<Option<Seq<char>>>,
    regs: Seq<(Seq<char>, Ids)>,
    jr: Seq<(Seq<char>, Seq<Seq<char>>)>,
    full: Seq<char>,
)
    ensures
        forall|j: int|
            0 <= j < resolve(vs, last_match(regs, full)).len() ==> tag_id_known(
                regs,
                jr,
                #[trigger] resolve(vs, last_match(regs, full))[j],
            ),
{
    lemma_last_match_entry(regs, full);
    match last_match(regs, full) {
        Some(m) => {
            let r = choose|r: int| 0 <= r < regs.len() && #[trigger] regs[r] == (full, m);
            lemma_resolve_listed(vs, Some(m), regs, r);
        },
        None => {
            lemma_resolve_none(vs);
        },
    }
}

proof fn lemma_file_tags_known(
    tags: Seq<(Seq<char>, TagValues)>,
    regs: Seq<(Seq<char>, Ids)>,
    jr: Seq<(Seq<char>, Seq<Seq<char>>)>,
    full: Seq<char>,
)
    ensures
        tag_ids_known(regs, jr, file_tags(tags, last_match(regs, full))),
    decreases tags.len(),
{
    let ids = last_match(regs, full);
    if tags.len() > 0 {
        lemma_file_tags_known(tags.drop_last(), regs, jr, full);
        let (name, values) = tags.last();
        let e = match values {
            Some(vs) => resolve(vs, ids),
            None => Seq::empty(),
        };
        if let Some(vs) = values {
            lemma_resolve_known(vs, regs, jr, full);
        }
        lemma_insert_known(regs, jr, file_tags(tags.drop_last(), ids), ident_or_unknown(name), e);
    }
}

proof fn lemma_file_tag_groups_known(
    sources: Seq<(Seq<char>, Option<Seq<(Seq<char>, TagValues)>>)>,
    regs: Seq<(Seq<char>, Ids)>,
    jr: Seq<(Seq<char>, Seq<Seq<char>>)>,
)
    ensures
        groups_known(regs, jr, file_tag_groups(sources, regs)),
    decreases sources.len(),
{
    if sources.len() > 0 {
        lemma_file_tag_groups_known(sources.drop_last(), regs, jr);
        let (reg, tags) = sources.last();
        if let Some(ts) = tags {
            let full = full_registry_name(reg);
            let tm = file_tags(ts, last_match(regs, full));
            if tm.len() > 0 {
                lemma_file_tags_known(ts, regs, jr, full);
                lemma_insert_group_known(regs, jr, file_tag_groups(sources.drop_last(), regs), ident_or_unknown(full), tm);
            }
        }
    }
}

proof fn lemma_last_index_bounds(names: Seq<Seq<char>>, k: Seq<char>)
    ensures
        last_index(names, k) matches Some(i) ==> 0 <= i < names.len(),
    decreases names.len(),
{
    if names.len() > 0 && names.last() != k {
        lemma_last_index_bounds(names.drop_last(), k);
    }
}

proof fn lemma_jar_id_known(
    regs: Seq<(Seq<char>, Ids)>,
    jr: Seq<(Seq<char>, Seq<Seq<char>>)>,
    full: Seq<char>,
    n: Seq<char>,
)
    ensures
        jar_id(last_match(jr, full), last_match(regs, full), n) matches Some(id) ==> tag_id_known(regs, jr, id),
{
    lemma_last_match_entry(jr, full);
    lemma_last_match_entry(regs, full);
    if let Some(ns) = last_match(jr, full) {
        lemma_last_index_bounds(ns, n);
        if let Some(i) = last_index(ns, n) {
            let r = choose|r: int| 0 <= r < jr.len() && #[trigger] jr[r] == (full, ns);
            assert(index_id(jr[r].1, i) == i as i32);
        }
    }
    if let Some(m) = last_match(regs, full) {
        lemma_last_match_entry(m, n);
        if let Some(id) = last_match(m, n) {
            let r = choose|r: int| 0 <= r < regs.len() && #[trigger] regs[r] == (full, m);
            let j = choose|j: int| 0 <= j < m.len() && #[trigger] m[j] == (n, id);
            assert(regs[r].1[j].1 == id);
        }
    }
}

proof fn lemma_jar_tag_ids_known(
    vs: Seq<Seq<char>>,
    regs: Seq<(Seq<char>, Ids)>,
    jr: Seq<(Seq<char>, Seq<Seq<char>>)>,
    full: Seq<char>,
)
    ensures
        forall|j: int|
            0 <= j < jar_tag_ids(vs, last_match(jr, full), last_match(regs, full)).len() ==> tag_id_known(
                regs,
                jr,
                #[trigger] jar_tag_ids(vs, last_match(jr, full), last_match(regs, full))[j],
            ),
    decreases vs.len(),
{
    if vs.len() > 0 {
        lemma_jar_tag_ids_known(vs.drop_last(), regs, jr, full);
        lemma_jar_id_known(regs, jr, full, strip_hash(vs.last()));
        let head = jar_tag_ids(vs.drop_last(), last_match(jr, full), last_match(regs, full));
        let out = jar_tag_ids(vs, last_match(jr, full), last_match(regs, full));
        assert forall|j: int| 0 <= j < out.len() implies tag_id_known(regs, jr, #[trigger] out[j]) by {
            if j < head.len() {
                assert(out[j] == head[j]);
            }
        }
    }
}

proof fn lemma_jar_tag_map_known(
    tags: Seq<(Seq<char>, Seq<Seq<char>>)>,
    regs: Seq<(Seq<char>, Ids)>,
    jr: Seq<(Seq<char>, Seq<Seq<char>>)>,
    full: Seq<char>,
)
    ensures
        tag_ids_known(regs, jr, jar_tag_map(tags, last_match(jr, full), last_match(regs, full))),
    decreases tags.len(),
{
    if tags.len() > 0 {
        lemma_jar_tag_map_known(tags.drop_last(), regs, jr, full);
        let e = jar_tag_ids(tags.last().1, last_match(jr, full), last_match(regs, full));
        if e.len() > 0 {
            lemma_jar_tag_ids_known(tags.last().1, regs, jr, full);
            lemma_insert_known(
                regs,
                jr,
                jar_tag_map(tags.drop_last(), last_match(jr, full), last_match(regs, full)),
                ident_or_unknown(tags.last().0),
                e,
            );
        }
    }
}

proof fn lemma_insert_all_known(
    regs: Seq<(Seq<char>, Ids)>,
    jr: Seq<(Seq<char>, Seq<Seq<char>>)>,
    t: Seq<(Seq<char>, Seq<i32>)>,
    items: Seq<(Seq<char>, Seq<i32>)>,
)
    requires
        tag_ids_known(regs, jr, t),
        tag_ids_known(regs, jr, items),
    ensures
        tag_ids_known(regs, jr, insert_all(t, items)),
        items.len() > 0 ==> insert_all(t, items).len() > 0,
    decreases items.len(),
{
    if items.len() > 0 {
        let d = items.drop_last();
        assert forall|i: int, k: int| 0 <= i < d.len() && 0 <= k < d[i].1.len() implies tag_id_known(
            regs,
            jr,
            #[trigger] d[i].1[k],
        ) by {
            assert(d[i] == items[i]);
        }
        lemma_insert_all_known(regs, jr, t, d);
        let last = items[items.len() - 1];
        assert forall|j: int| 0 <= j < last.1.len() implies tag_id_known(regs, jr, #[trigger] last.1[j]) by {
            assert(items[items.len() - 1].1[j] == last.1[j]);
        }
        lemma_insert_known(regs, jr, insert_all(t, d), last.0, last.1);
    }
}

proof fn lemma_merge_jar_tags_known(
    base: Groups,
    jar: Seq<(Seq<char>, Seq<(Seq<char>, Seq<Seq<char>>)>)>,
    jar_regs: Seq<(Seq<char>, Seq<Seq<char>>)>,
    regs: Seq<(Seq<char>, Ids)>,
)
    requires
        groups_known(regs, jar_regs, base),
    ensures
        groups_known(regs, jar_regs, merge_jar_tags(base, jar, jar_regs, regs)),
    decreases jar.len(),
{
    if jar.len() > 0 {
        lemma_merge_jar_tags_known(base, jar.drop_last(), jar_regs, regs);
        let acc = merge_jar_tags(base, jar.drop_last(), jar_regs, regs);
        let full = jar.last().0;
        let tm = jar_tag_map(jar.last().1, last_match(jar_regs, full), last_match(regs, full));
        if tm.len() > 0 {
            let k = ident_or_unknown(full);
            lemma_lookup_entry(acc, k);
            let b = match lookup(acc, k) {
                Some(b) => b,
                None => Seq::empty(),
            };
            if let Some(v) = lookup(acc, k) {
                let j = choose|j: int| 0 <= j < acc.len() && acc[j] == (k, v);
                assert(tag_ids_known(regs, jar_regs, acc[j].1));
            }
            lemma_jar_tag_map_known(jar.last().1, regs, jar_regs, full);
            lemma_insert_all_known(regs, jar_regs, b, tm);
            lemma_insert_group_known(regs, jar_regs, acc, k, insert_all(b, tm));
        }
    }
}

/// Every registry of the configuration-phase tag groups has at least one
/// tag, and every id of every tag is the protocol id of an entry of the
/// registry list or the index of an entry of a registry of the jar.
pub proof fn lemma_tags_data_ids_known(
    sources: Seq<(Seq<char>, Option<Seq<(Seq<char>, TagValues)>>)>,
    regs: Seq<(Seq<char>, Ids)>,
    jar: Seq<(Seq<char>, Seq<(Seq<char>, Seq<Seq<char>>)>)>,
    jar_regs: Seq<(Seq<char>, Seq<Seq<char>>)>,
)
    ensures
        forall|g: int|
            0 <= g < spec_tags_data(sources, regs, jar, jar_regs).len() ==> (#[trigger] spec_tags_data(
                sources,
                regs,
                jar,
                jar_regs,
            )[g]).1.len() > 0,
        forall|g: int, i: int, k: int|
            0 <= g < spec_tags_data(sources, regs, jar, jar_regs).len() && 0 <= i < spec_tags_data(
                sources,
                regs,
                jar,
                jar_regs,
            )[g].1.len() && 0 <= k < spec_tags_data(sources, regs, jar, jar_regs)[g].1[i].1.len()
                ==> tag_id_known(regs, jar_regs, #[trigger] spec_tags_data(sources, regs, jar, jar_regs)[g].1[i].1[k]),
{
    lemma_file_tag_groups_known(sources, regs, jar_regs);
    lemma_merge_jar_tags_known(file_tag_groups(sources, regs), jar, jar_regs, regs);
    let out = spec_tags_data(sources, regs, jar, jar_regs);
    assert forall|g: int, i: int, k: int|
        0 <= g < out.len() && 0 <= i < out[g].1.len() && 0 <= k < out[g].1[i].1.len() implies tag_id_known(
        regs,
        jar_regs,
        #[trigger] out[g].1[i].1[k],
    ) by {
        assert(tag_ids_known(regs, jar_regs, out[g].1));
    }
}

} // verus!
