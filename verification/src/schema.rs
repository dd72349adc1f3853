//! Tool parameter schemas are written in JSON Schema for the OpenAI-style
//! tools; Gemini function declarations accept only a subset of OpenAPI
//! schemas. This module rewrites a schema into that subset at the Gemini
//! boundary: `oneOf`/`anyOf` collapse to their first variant that is not the
//! `null` schema, `allOf` merges its parts, a `type` list collapses to its
//! first type other than `null`, and keywords that Gemini refuses are dropped.
use vstd::prelude::*;
use crate::text::str_eq;

verus! {

/// A JSON value. A number keeps its text; an object keeps its members in
/// order, each name once.
#[derive(Debug, PartialEq)]
pub enum Json {
    Null,
    Bool(bool),
    Number(String),
    Str(String),
    Array(Vec<Json>),
    Object(Vec<(String, Json)>),
}

/// The mathematical model of a [`Json`] value.
pub enum JsonV {
    Null,
    Bool(bool),
    Number(Seq<char>),
    Str(Seq<char>),
    Array(Seq<JsonV>),
    Object(Seq<(Seq<char>, JsonV)>),
}

pub open spec fn json_view(j: Json) -> JsonV
    decreases j,
{
    match j {
        Json::Null => JsonV::Null,
        Json::Bool(b) => JsonV::Bool(b),
        Json::Number(s) => JsonV::Number(s@),
        Json::Str(s) => JsonV::Str(s@),
        Json::Array(v) => JsonV::Array(items_view(v@)),
        Json::Object(v) => JsonV::Object(members_view(v@)),
    }
}

pub open spec fn items_view(s: Seq<Json>) -> Seq<JsonV>
    decreases s,
{
    if s.len() == 0 {
        Seq::empty()
    } else {
        items_view(s.subrange(0, s.len() - 1)).push(json_view(s[s.len() - 1]))
    }
}

pub open spec fn members_view(s: Seq<(String, Json)>) -> Seq<(Seq<char>, JsonV)>
    decreases s,
{
    if s.len() == 0 {
        Seq::empty()
    } else {
        members_view(s.subrange(0, s.len() - 1)).push(
            (s[s.len() - 1].0@, json_view(s[s.len() - 1].1)),
        )
    }
}

impl View for Json {
    type V = JsonV;

    open spec fn view(&self) -> JsonV {
        json_view(*self)
    }
}

pub proof fn lemma_items_view(s: Seq<Json>)
    ensures
        items_view(s).len() == s.len(),
        forall|i: int| 0 <= i < s.len() ==> #[trigger] items_view(s)[i] == json_view(s[i]),
    decreases s.len(),
{
    if s.len() > 0 {
        lemma_items_view(s.subrange(0, s.len() - 1));
    }
}

pub proof fn lemma_members_view(s: Seq<(String, Json)>)
    ensures
        members_view(s).len() == s.len(),
        forall|i: int|
            0 <= i < s.len() ==> #[trigger] members_view(s)[i] == (s[i].0@, json_view(s[i].1)),
    decreases s.len(),
{
    if s.len() > 0 {
        lemma_members_view(s.subrange(0, s.len() - 1));
    }
}

proof fn lemma_items_view_push(s: Seq<Json>, x: Json)
    ensures
        items_view(s.push(x)) == items_view(s).push(json_view(x)),
{
    assert(s.push(x).subrange(0, s.len() as int) =~= s);
}

proof fn lemma_members_view_push(s: Seq<(String, Json)>, x: (String, Json))
    ensures
        members_view(s.push(x)) == members_view(s).push((x.0@, json_view(x.1))),
{
    assert(s.push(x).subrange(0, s.len() as int) =~= s);
}

/// Nesting depth: 0 for a scalar, one more than the deepest item or member
/// value for an array or an object.
pub open spec fn height(j: JsonV) -> nat
    decreases j,
{
    match j {
        JsonV::Array(s) => 1 + items_height(s),
        JsonV::Object(es) => 1 + members_height(es),
        _ => 0,
    }
}

pub open spec fn items_height(s: Seq<JsonV>) -> nat
    decreases s,
{
    if s.len() == 0 {
        0
    } else {
        let a = items_height(s.subrange(0, s.len() - 1));
        let b = height(s[s.len() - 1]);
        if a < b { b } else { a }
    }
}

pub open spec fn members_height(s: Seq<(Seq<char>, JsonV)>) -> nat
    decreases s,
{
    if s.len() == 0 {
        0
    } else {
        let a = members_height(s.subrange(0, s.len() - 1));
        let b = height(s[s.len() - 1].1);
        if a < b { b } else { a }
    }
}

/// Every member value of `es` is at most `q` deep.
pub open spec fn values_below(es: Seq<(Seq<char>, JsonV)>, q: nat) -> bool {
    forall|i: int| 0 <= i < es.len() ==> height(#[trigger] es[i].1) <= q
}

/// Every item of `s` is at most `q` deep.
pub open spec fn items_below(s: Seq<JsonV>, q: nat) -> bool {
    forall|i: int| 0 <= i < s.len() ==> height(#[trigger] s[i]) <= q
}

proof fn lemma_items_height(s: Seq<JsonV>, q: nat)
    ensures
        items_below(s, items_height(s)),
        items_below(s, q) ==> items_height(s) <= q,
    decreases s.len(),
{
    if s.len() > 0 {
        let p = s.subrange(0, s.len() - 1);
        lemma_items_height(p, q);
        assert forall|i: int| 0 <= i < s.len() implies height(#[trigger] s[i]) <= items_height(s) by {
            if i < s.len() - 1 {
                assert(s[i] == p[i]);
            }
        }
        if items_below(s, q) {
            assert forall|i: int| 0 <= i < p.len() implies height(#[trigger] p[i]) <= q by {
                assert(s[i] == p[i]);
            }
        }
    }
}

proof fn lemma_members_height(s: Seq<(Seq<char>, JsonV)>, q: nat)
    ensures
        values_below(s, members_height(s)),
        values_below(s, q) ==> members_height(s) <= q,
    decreases s.len(),
{
    if s.len() > 0 {
        let p = s.subrange(0, s.len() - 1);
        lemma_members_height(p, q);
        assert forall|i: int| 0 <= i < s.len() implies height(#[trigger] s[i].1) <= members_height(s) by {
            if i < s.len() - 1 {
                assert(s[i] == p[i]);
            }
        }
        if values_below(s, q) {
            assert forall|i: int| 0 <= i < p.len() implies height(#[trigger] p[i].1) <= q by {
                assert(s[i] == p[i]);
            }
        }
    }
}

/// The members of an object, as the model sees them.
pub type Members = Seq<(Seq<char>, JsonV)>;

/// `i` is the first position of a member named `k`.
pub open spec fn key_at(es: Members, k: Seq<char>, i: int) -> bool {
    &&& 0 <= i < es.len()
    &&& es[i].0 == k
    &&& forall|j: int| 0 <= j < i ==> es[j].0 != k
}

pub open spec fn has_member(es: Members, k: Seq<char>) -> bool {
    exists|i: int| 0 <= i < es.len() && es[i].0 == k
}

/// The position of the first member named `k`, or -1.
pub open spec fn first_key(es: Members, k: Seq<char>) -> int {
    if exists|i: int| key_at(es, k, i) {
        choose|i: int| key_at(es, k, i)
    } else {
        -1
    }
}

/// The value of the member named `k`, as a map lookup gives it.
pub open spec fn member_value(es: Members, k: Seq<char>) -> Option<JsonV> {
    let i = first_key(es, k);
    if 0 <= i {
        Some(es[i].1)
    } else {
        None
    }
}

/// Adds the member unless one of that name is there.
pub open spec fn insert_absent(es: Members, k: Seq<char>, v: JsonV) -> Members {
    if has_member(es, k) {
        es
    } else {
        es.push((k, v))
    }
}

/// Adds each member of `src`, in order, unless one of its name is there.
pub open spec fn merge(es: Members, src: Members) -> Members
    decreases src.len(),
{
    if src.len() == 0 {
        es
    } else {
        let m = merge(es, src.drop_last());
        insert_absent(m, src.last().0, src.last().1)
    }
}

/// Adds the members of `v` when it is an object.
pub open spec fn merge_value(es: Members, v: JsonV) -> Members {
    match v {
        JsonV::Object(src) => merge(es, src),
        _ => es,
    }
}

/// Drops every member named `k`.
pub open spec fn remove_key(es: Members, k: Seq<char>) -> Members
    decreases es.len(),
{
    if es.len() == 0 {
        es
    } else {
        let r = remove_key(es.drop_last(), k);
        if es.last().0 == k {
            r
        } else {
            r.push(es.last())
        }
    }
}

/// Replaces the value of the member named `k`, when there is one.
pub open spec fn set_value(es: Members, k: Seq<char>, v: JsonV) -> Members {
    let i = first_key(es, k);
    if 0 <= i {
        es.update(i, (k, v))
    } else {
        es
    }
}

pub proof fn lemma_first_key(es: Members, k: Seq<char>)
    ensures
        has_member(es, k) ==> key_at(es, k, first_key(es, k)),
        !has_member(es, k) ==> first_key(es, k) == -1,
        forall|i: int| key_at(es, k, i) ==> first_key(es, k) == i,
    decreases es.len(),
{
    if has_member(es, k) {
        let p = es.drop_last();
        if has_member(p, k) {
            lemma_first_key(p, k);
            let i = first_key(p, k);
            assert(es[i] == p[i]);
            assert forall|j: int| 0 <= j < i implies es[j].0 != k by {
                assert(es[j] == p[j]);
            }
            assert(key_at(es, k, i));
        } else {
            let i = es.len() - 1;
            assert forall|j: int| 0 <= j < i implies es[j].0 != k by {
                assert(es[j] == p[j]);
            }
            assert(key_at(es, k, i));
        }
    }
    assert forall|i: int| key_at(es, k, i) implies first_key(es, k) == i by {
        let c = choose|c: int| key_at(es, k, c);
        assert(key_at(es, k, c));
        if c < i {
            assert(es[c].0 != k);
        }
        if c > i {
            assert(es[i].0 != k);
        }
    }
}

proof fn lemma_remove_key(es: Members, k: Seq<char>, q: nat)
    ensures
        values_below(es, q) ==> values_below(remove_key(es, k), q),
        !has_member(remove_key(es, k), k),
    decreases es.len(),
{
    if es.len() > 0 {
        let p = es.drop_last();
        lemma_remove_key(p, k, q);
        if values_below(es, q) {
            assert forall|i: int| 0 <= i < p.len() implies height(#[trigger] p[i].1) <= q by {
                assert(p[i] == es[i]);
            }
        }
        let r = remove_key(p, k);
        if es.last().0 != k {
            assert forall|i: int| 0 <= i < r.push(es.last()).len() implies r.push(es.last())[i].0
                != k by {
                if i < r.len() {
                    assert(!(r[i].0 == k));
                }
            }
        }
    }
}

proof fn lemma_merge_below(es: Members, src: Members, q: nat)
    requires
        values_below(es, q),
        values_below(src, q),
    ensures
        values_below(merge(es, src), q),
    decreases src.len(),
{
    if src.len() > 0 {
        let p = src.drop_last();
        assert forall|i: int| 0 <= i < p.len() implies height(#[trigger] p[i].1) <= q by {
            assert(p[i] == src[i]);
        }
        lemma_merge_below(es, p, q);
        assert(height(src[src.len() - 1].1) <= q);
    }
}

proof fn lemma_set_value_below(es: Members, k: Seq<char>, v: JsonV, q: nat)
    requires
        values_below(es, q),
        height(v) <= q,
    ensures
        values_below(set_value(es, k, v), q),
{
    lemma_first_key(es, k);
}

/// The position of the first member named `k`.
fn find_member(es: &Vec<(String, Json)>, k: &str) -> (r: Option<usize>)
    ensures
        match r {
            Some(i) => key_at(members_view(es@), k@, i as int),
            None => !has_member(members_view(es@), k@),
        },
{
    proof {
        lemma_members_view(es@);
    }
    let mut i: usize = 0;
    while i < es.len()
        invariant
            i <= es.len(),
            members_view(es@).len() == es@.len(),
            forall|j: int| 0 <= j < es@.len() ==> #[trigger] members_view(es@)[j] == (es@[j].0@, json_view(es@[j].1)),
            forall|j: int| 0 <= j < i ==> members_view(es@)[j].0 != k@,
        decreases es.len() - i,
    {
        if str_eq(es[i].0.as_str(), k) {
            return Some(i);
        }
        i = i + 1;
    }
    None
}

/// Adds each member of `src` whose name is not there yet.
fn merge_members(es: Vec<(String, Json)>, src: Vec<(String, Json)>) -> (r: Vec<(String, Json)>)
    ensures
        members_view(r@) == merge(members_view(es@), members_view(src@)),
{
    let ghost orig = src@;
    let ghost base = members_view(es@);
    let mut out = es;
    for e in it: src.into_iter()
        invariant
            it.seq() == orig,
            members_view(out@) == merge(base, members_view(orig.subrange(0, it.index() as int))),
    {
        let ghost i = it.index();
        proof {
            assert(orig.subrange(0, i + 1).subrange(0, i) =~= orig.subrange(0, i));
            assert(members_view(orig.subrange(0, i + 1)).drop_last() =~= members_view(orig.subrange(0, i)));
        }
        match find_member(&out, e.0.as_str()) {
            Some(_) => {},
            None => {
                proof {
                    lemma_members_view_push(out@, e);
                }
                out.push(e);
            },
        }
    }
    proof {
        assert(orig.subrange(0, orig.len() as int) =~= orig);
    }
    out
}

/// The type that a `type` list collapses to: its first string other than
/// `null`, or `string` when there is none.
pub open spec fn pick_type(types: Seq<JsonV>) -> Seq<char>
    decreases types.len(),
{
    if types.len() == 0 {
        "string"@
    } else {
        match types[0] {
            JsonV::Str(t) => if t != "null"@ {
                t
            } else {
                pick_type(types.drop_first())
            },
            _ => pick_type(types.drop_first()),
        }
    }
}

/// A `type` list collapses to one type, and the type `null` becomes
/// `string`; any other `type` stays.
pub open spec fn normalize_type(es: Members) -> Members {
    match member_value(es, "type"@) {
        Some(JsonV::Array(types)) => set_value(es, "type"@, JsonV::Str(pick_type(types))),
        Some(JsonV::Str(t)) => if t == "null"@ {
            set_value(es, "type"@, JsonV::Str("string"@))
        } else {
            es
        },
        _ => es,
    }
}

/// The keywords that Gemini function declarations refuse.
pub open spec fn is_unsupported_key(k: Seq<char>) -> bool {
    ||| k == "$id"@
    ||| k == "$schema"@
    ||| k == "$defs"@
    ||| k == "additionalProperties"@
    ||| k == "dependentSchemas"@
    ||| k == "else"@
    ||| k == "if"@
    ||| k == "not"@
    ||| k == "nullable"@
    ||| k == "patternProperties"@
    ||| k == "then"@
    ||| k == "unevaluatedProperties"@
}

/// Drops every member whose name is a refused keyword.
pub open spec fn drop_unsupported(es: Members) -> Members
    decreases es.len(),
{
    if es.len() == 0 {
        es
    } else {
        let r = drop_unsupported(es.drop_last());
        if is_unsupported_key(es.last().0) {
            r
        } else {
            r.push(es.last())
        }
    }
}

/// Every string in the `type` list is `null`.
pub open spec fn all_null_types(types: Seq<JsonV>) -> bool {
    forall|i: int|
        0 <= i < types.len() ==> match #[trigger] types[i] {
            JsonV::Str(t) => t == "null"@,
            _ => true,
        }
}

/// The schema of `null` alone: an object whose `type` is `null` or a list of
/// no type but `null`.
pub open spec fn is_null_schema(v: JsonV) -> bool {
    match v {
        JsonV::Object(es) => match member_value(es, "type"@) {
            Some(JsonV::Str(t)) => t == "null"@,
            Some(JsonV::Array(types)) => all_null_types(types),
            _ => false,
        },
        _ => false,
    }
}

/// The first variant that is not the `null` schema.
pub open spec fn select_variant(opts: Seq<JsonV>) -> Option<JsonV>
    decreases opts.len(),
{
    if opts.len() == 0 {
        None
    } else if !is_null_schema(opts[0]) {
        Some(opts[0])
    } else {
        select_variant(opts.drop_first())
    }
}

/// The rewritten schema.
pub open spec fn norm(j: JsonV) -> JsonV
    decreases height(j), 0nat, 0nat,
{
    match j {
        JsonV::Array(items) => JsonV::Array(norm_items(items, (height(j) - 1) as nat)),
        JsonV::Object(es) => JsonV::Object(norm_object(es, (height(j) - 1) as nat)),
        _ => j,
    }
}

/// `norm(x)` for a value at most `q` deep (and `x` itself for a deeper one,
/// which the rewrite never meets: see the height lemmas).
pub open spec fn norm_below(x: JsonV, q: nat) -> JsonV
    decreases q, 0nat, 1nat,
{
    if height(x) <= q {
        norm(x)
    } else {
        x
    }
}

pub open spec fn norm_items(items: Seq<JsonV>, q: nat) -> Seq<JsonV>
    decreases q, 1nat, items.len(),
{
    if items.len() == 0 {
        Seq::empty()
    } else {
        norm_items(items.drop_last(), q).push(norm_below(items.last(), q))
    }
}

pub open spec fn norm_values(es: Members, q: nat) -> Members
    decreases q, 1nat, es.len(),
{
    if es.len() == 0 {
        Seq::empty()
    } else {
        norm_values(es.drop_last(), q).push((es.last().0, norm_below(es.last().1, q)))
    }
}

/// The members that the parts of an `allOf` contribute, each part rewritten
/// first; an earlier part wins a name.
pub open spec fn merged_options(opts: Seq<JsonV>, q: nat) -> Members
    decreases q, 1nat, opts.len(),
{
    if opts.len() == 0 {
        Seq::empty()
    } else {
        merge_value(merged_options(opts.drop_last(), q), norm_below(opts.last(), q))
    }
}

/// `oneOf` or `anyOf` (`key`) is dropped; when it lists variants, the first
/// one that is not the `null` schema is rewritten and lends the object the
/// members it lacks.
pub open spec fn collapse_variant(es: Members, key: Seq<char>, q: nat) -> Members
    decreases q, 2nat, 0nat,
{
    let rest = remove_key(es, key);
    match member_value(es, key) {
        Some(JsonV::Array(opts)) => match select_variant(opts) {
            Some(sel) => merge_value(rest, norm_below(sel, q)),
            None => rest,
        },
        _ => rest,
    }
}

/// `allOf` is dropped; when it lists parts, their merged members fill in
/// what the object lacks.
pub open spec fn collapse_all_of(es: Members, q: nat) -> Members
    decreases q, 2nat, 0nat,
{
    let rest = remove_key(es, "allOf"@);
    match member_value(es, "allOf"@) {
        Some(JsonV::Array(opts)) => merge(rest, merged_options(opts, q)),
        _ => rest,
    }
}

/// The members of a rewritten object whose values are at most `q` deep.
pub open spec fn norm_object(es: Members, q: nat) -> Members
    decreases q, 3nat, 0nat,
{
    let es1 = collapse_variant(es, "oneOf"@, q);
    let es2 = collapse_variant(es1, "anyOf"@, q);
    let es3 = collapse_all_of(es2, q);
    norm_values(drop_unsupported(normalize_type(es3)), q)
}

proof fn lemma_member_push(s: Members, x: (Seq<char>, JsonV), k: Seq<char>)
    ensures
        has_member(s.push(x), k) == (has_member(s, k) || x.0 == k),
        member_value(s.push(x), k) == (if has_member(s, k) {
            member_value(s, k)
        } else if x.0 == k {
            Some(x.1)
        } else {
            None
        }),
{
    let t = s.push(x);
    lemma_first_key(s, k);
    lemma_first_key(t, k);
    if has_member(s, k) {
        let i = first_key(s, k);
        assert(t[i] == s[i]);
        assert forall|j: int| 0 <= j < i implies t[j].0 != k by {
            assert(t[j] == s[j]);
        }
        assert(key_at(t, k, i));
        assert(has_member(t, k));
    } else if x.0 == k {
        let i = s.len() as int;
        assert forall|j: int| 0 <= j < i implies t[j].0 != k by {
            assert(t[j] == s[j]);
        }
        assert(key_at(t, k, i));
        assert(has_member(t, k));
    } else {
        assert forall|j: int| 0 <= j < t.len() implies t[j].0 != k by {
            if j < s.len() {
                assert(t[j] == s[j]);
            }
        }
    }
}

proof fn lemma_members_view_update(s: Seq<(String, Json)>, i: int, x: (String, Json))
    requires
        0 <= i < s.len(),
    ensures
        members_view(s.update(i, x)) == members_view(s).update(i, (x.0@, json_view(x.1))),
{
    lemma_members_view(s);
    lemma_members_view(s.update(i, x));
    assert(members_view(s.update(i, x)) =~= members_view(s).update(i, (x.0@, json_view(x.1))));
}

/// The members with `k` set to `v`: the first member of that name gets the
/// value, or the member is added at the end when there is none (as a JSON
/// map insert does).
pub open spec fn put_member(es: Members, k: Seq<char>, v: JsonV) -> Members {
    if has_member(es, k) {
        set_value(es, k, v)
    } else {
        es.push((k, v))
    }
}

/// Sets the member `k` to `v`.
pub fn put_member_exec(es: &mut Vec<(String, Json)>, k: &str, v: Json)
    ensures
        members_view(final(es)@) == put_member(members_view(old(es)@), k@, v@),
{
    let ghost before = es@;
    proof {
        lemma_members_view(before);
    }
    let entry = (String::from_str(k), v);
    let ghost ge = entry;
    match find_member(es, k) {
        Some(i) => {
            proof {
                let mv = members_view(before);
                lemma_first_key(mv, k@);
                let f = first_key(mv, k@);
                assert(key_at(mv, k@, f));
                if f < i {
                    assert(mv[f].0 == k@);
                } else if i < f {
                    assert(mv[i as int].0 == k@);
                }
                assert(f == i);
            }
            es.set(i, entry);
            proof {
                lemma_members_view_update(before, i as int, ge);
            }
        },
        None => {
            es.push(entry);
            proof {
                lemma_members_view_push(before, ge);
            }
        },
    }
}

/// A copy of a JSON value.
pub fn clone_json(j: &Json) -> (r: Json)
    ensures
        r@ == j@,
    decreases height(j@),
{
    match j {
        Json::Null => Json::Null,
        Json::Bool(b) => Json::Bool(*b),
        Json::Number(t) => Json::Number(t.clone()),
        Json::Str(t) => Json::Str(t.clone()),
        Json::Array(items) => {
            let ghost iv = items_view(items@);
            proof {
                lemma_items_view(items@);
                lemma_items_height(iv, 0);
            }
            let mut out: Vec<Json> = Vec::new();
            assert(items_view(out@) =~= Seq::<JsonV>::empty());
            let mut i: usize = 0;
            while i < items.len()
                invariant
                    i <= items@.len(),
                    iv == items_view(items@),
                    iv.len() == items@.len(),
                    j@ == JsonV::Array(iv),
                    items_below(iv, items_height(iv)),
                    forall|k: int| 0 <= k < items@.len() ==> #[trigger] iv[k] == items@[k]@,
                    items_view(out@) == iv.subrange(0, i as int),
                decreases items@.len() - i,
            {
                assert(height(iv[i as int]) < height(j@));
                let c = clone_json(&items[i]);
                let ghost before = out@;
                out.push(c);
                proof {
                    lemma_items_view_push(before, c);
                    assert(iv.subrange(0, i + 1) =~= iv.subrange(0, i as int).push(iv[i as int]));
                }
                i = i + 1;
            }
            assert(iv.subrange(0, iv.len() as int) =~= iv);
            Json::Array(out)
        },
        Json::Object(ms) => {
            let ghost mv = members_view(ms@);
            proof {
                lemma_members_view(ms@);
                lemma_members_height(mv, 0);
            }
            let mut out: Vec<(String, Json)> = Vec::new();
            assert(members_view(out@) =~= Seq::<(Seq<char>, JsonV)>::empty());
            let mut i: usize = 0;
            while i < ms.len()
                invariant
                    i <= ms@.len(),
                    mv == members_view(ms@),
                    mv.len() == ms@.len(),
                    j@ == JsonV::Object(mv),
                    values_below(mv, members_height(mv)),
                    forall|k: int| 0 <= k < ms@.len() ==> #[trigger] mv[k] == (ms@[k].0@, ms@[k].1@),
                    members_view(out@) == mv.subrange(0, i as int),
                decreases ms@.len() - i,
            {
                assert(height(mv[i as int].1) < height(j@));
                let v = clone_json(&ms[i].1);
                let k = ms[i].0.clone();
                let ghost before = out@;
                let ghost e = (k, v);
                out.push((k, v));
                proof {
                    lemma_members_view_push(before, e);
                    assert(mv.subrange(0, i + 1) =~= mv.subrange(0, i as int).push(mv[i as int]));
                }
                i = i + 1;
            }
            assert(mv.subrange(0, mv.len() as int) =~= mv);
            Json::Object(out)
        },
    }
}

/// The value of the member `k` of an object, as a JSON map lookup gives it;
/// nothing for a value that is not an object.
pub open spec fn json_get(j: JsonV, k: Seq<char>) -> Option<JsonV> {
    match j {
        JsonV::Object(ms) => member_value(ms, k),
        _ => None,
    }
}

/// `value.get(k)`.
pub fn json_get_ref<'a>(j: &'a Json, k: &str) -> (r: Option<&'a Json>)
    ensures
        match r {
            Some(v) => json_get(j@, k@) == Some(v@),
            None => json_get(j@, k@) is None,
        },
{
    match j {
        Json::Object(ms) => {
            proof {
                lemma_members_view(ms@);
            }
            match find_member(ms, k) {
                Some(i) => {
                    proof {
                        let mv = members_view(ms@);
                        lemma_first_key(mv, k@);
                        let f = first_key(mv, k@);
                        if f < i {
                            assert(mv[f].0 == k@);
                        } else if i < f {
                            assert(mv[i as int].0 == k@);
                        }
                        assert(f == i);
                    }
                    Some(&ms[i].1)
                },
                None => {
                    proof {
                        lemma_first_key(members_view(ms@), k@);
                    }
                    None
                },
            }
        },
        _ => None,
    }
}

/// Takes out the value of the first member named `k` and drops every member
/// of that name.
fn split_member(es: Vec<(String, Json)>, k: &str) -> (r: (Vec<(String, Json)>, Option<Json>))
    ensures
        members_view(r.0@) == remove_key(members_view(es@), k@),
        match r.1 {
            Some(v) => member_value(members_view(es@), k@) == Some(v@),
            None => member_value(members_view(es@), k@) is None,
        },
{
    let ghost orig = es@;
    let mut out: Vec<(String, Json)> = Vec::new();
    let mut found: Option<Json> = None;
    for e in it: es.into_iter()
        invariant
            it.seq() == orig,
            members_view(out@) == remove_key(members_view(orig.subrange(0, it.index() as int)), k@),
            found is Some <==> has_member(members_view(orig.subrange(0, it.index() as int)), k@),
            match found {
                Some(v) => member_value(members_view(orig.subrange(0, it.index() as int)), k@) == Some(v@),
                None => member_value(members_view(orig.subrange(0, it.index() as int)), k@) is None,
            },
    {
        let ghost i = it.index();
        let ghost p = members_view(orig.subrange(0, i));
        proof {
            assert(orig.subrange(0, i + 1).subrange(0, i) =~= orig.subrange(0, i));
            assert(orig.subrange(0, i + 1) =~= orig.subrange(0, i).push(e));
            lemma_members_view_push(orig.subrange(0, i), e);
            lemma_member_push(p, (e.0@, json_view(e.1)), k@);
            lemma_first_key(p, k@);
            assert(p.push((e.0@, json_view(e.1))).drop_last() =~= p);
        }
        let (name, value) = e;
        if str_eq(name.as_str(), k) {
            if found.is_none() {
                found = Some(value);
            }
        } else {
            proof {
                lemma_members_view_push(out@, (name, value));
            }
            out.push((name, value));
        }
    }
    proof {
        assert(orig.subrange(0, orig.len() as int) =~= orig);
    }
    (out, found)
}

/// The first string of the list other than `null`, or `string`.
fn pick_type_exec(types: &Vec<Json>) -> (r: String)
    ensures
        r@ == pick_type(items_view(types@)),
{
    let ghost tv = items_view(types@);
    proof {
        lemma_items_view(types@);
        assert(tv.subrange(0, tv.len() as int) =~= tv);
    }
    let mut i: usize = 0;
    while i < types.len()
        invariant
            i <= types.len(),
            tv == items_view(types@),
            tv.len() == types@.len(),
            forall|j: int| 0 <= j < types@.len() ==> #[trigger] tv[j] == json_view(types@[j]),
            pick_type(tv) == pick_type(tv.subrange(i as int, tv.len() as int)),
        decreases types.len() - i,
    {
        proof {
            let t = tv.subrange(i as int, tv.len() as int);
            assert(t[0] == tv[i as int]);
            assert(t.drop_first() =~= tv.subrange(i + 1, tv.len() as int));
        }
        match &types[i] {
            Json::Str(t) => {
                if !str_eq(t.as_str(), "null") {
                    return t.clone();
                }
            },
            _ => {},
        }
        i = i + 1;
    }
    String::from_str("string")
}

/// Whether every string of the list is `null`.
fn all_null_types_exec(types: &Vec<Json>) -> (r: bool)
    ensures
        r == all_null_types(items_view(types@)),
{
    let ghost tv = items_view(types@);
    proof {
        lemma_items_view(types@);
    }
    let mut i: usize = 0;
    while i < types.len()
        invariant
            i <= types.len(),
            tv == items_view(types@),
            tv.len() == types@.len(),
            forall|j: int| 0 <= j < types@.len() ==> #[trigger] tv[j] == json_view(types@[j]),
            forall|j: int|
                0 <= j < i ==> match #[trigger] tv[j] {
                    JsonV::Str(t) => t == "null"@,
                    _ => true,
                },
        decreases types.len() - i,
    {
        match &types[i] {
            Json::Str(t) => {
                if !str_eq(t.as_str(), "null") {
                    assert(tv[i as int] == JsonV::Str(t@));
                    return false;
                }
            },
            _ => {},
        }
        i = i + 1;
    }
    true
}

/// Whether `v` is the schema of `null` alone.
fn is_null_schema_exec(v: &Json) -> (r: bool)
    ensures
        r == is_null_schema(v@),
{
    match v {
        Json::Object(es) => {
            proof {
                lemma_members_view(es@);
                lemma_first_key(members_view(es@), "type"@);
            }
            match find_member(es, "type") {
                Some(i) => {
                    assert(first_key(members_view(es@), "type"@) == i);
                    match &es[i].1 {
                        Json::Str(t) => str_eq(t.as_str(), "null"),
                        Json::Array(types) => all_null_types_exec(types),
                        _ => false,
                    }
                },
                None => false,
            }
        },
        _ => false,
    }
}

proof fn lemma_select_variant_member(opts: Seq<JsonV>)
    ensures
        select_variant(opts) matches Some(x) ==> exists|i: int| 0 <= i < opts.len() && opts[i] == x,
    decreases opts.len(),
{
    if opts.len() > 0 && is_null_schema(opts[0]) {
        let d = opts.drop_first();
        lemma_select_variant_member(d);
        if select_variant(d) is Some {
            let x = select_variant(d).unwrap();
            let i = choose|i: int| 0 <= i < d.len() && d[i] == x;
            assert(opts[i + 1] == x);
        }
    }
}

/// The first variant that is not the `null` schema.
fn select_variant_exec(opts: Vec<Json>) -> (r: Option<Json>)
    ensures
        match r {
            Some(x) => select_variant(items_view(opts@)) == Some(x@),
            None => select_variant(items_view(opts@)) is None,
        },
{
    let ghost orig = opts@;
    let ghost tv = items_view(orig);
    proof {
        lemma_items_view(orig);
        assert(tv.subrange(0, tv.len() as int) =~= tv);
    }
    for x in it: opts.into_iter()
        invariant
            it.seq() == orig,
            tv == items_view(orig),
            tv.len() == orig.len(),
            forall|j: int| 0 <= j < orig.len() ==> #[trigger] tv[j] == json_view(orig[j]),
            select_variant(tv) == select_variant(tv.subrange(it.index() as int, tv.len() as int)),
    {
        proof {
            let i = it.index() as int;
            let t = tv.subrange(i, tv.len() as int);
            assert(t[0] == tv[i]);
            assert(t.drop_first() =~= tv.subrange(i + 1, tv.len() as int));
        }
        if !is_null_schema_exec(&x) {
            return Some(x);
        }
    }
    None
}

/// Collapses a `type` list to one type and turns the type `null` into
/// `string`.
fn normalize_type_exec(es: Vec<(String, Json)>) -> (r: Vec<(String, Json)>)
    ensures
        members_view(r@) == normalize_type(members_view(es@)),
{
    let mut es = es;
    proof {
        lemma_members_view(es@);
        lemma_first_key(members_view(es@), "type"@);
    }
    match find_member(&es, "type") {
        None => es,
        Some(i) => {
            assert(first_key(members_view(es@), "type"@) == i);
            let replacement: Option<String> = match &es[i].1 {
                Json::Array(types) => Some(pick_type_exec(types)),
                Json::Str(t) => {
                    if str_eq(t.as_str(), "null") {
                        Some(String::from_str("string"))
                    } else {
                        None
                    }
                },
                _ => None,
            };
            match replacement {
                Some(t) => {
                    let entry = (String::from_str("type"), Json::Str(t));
                    proof {
                        lemma_members_view_update(es@, i as int, entry);
                    }
                    es[i] = entry;
                    es
                },
                None => es,
            }
        },
    }
}

/// Whether `k` is a keyword that Gemini refuses.
fn is_unsupported_key_exec(k: &str) -> (r: bool)
    ensures
        r == is_unsupported_key(k@),
{
    str_eq(k, "$id") || str_eq(k, "$schema") || str_eq(k, "$defs") || str_eq(k, "additionalProperties")
        || str_eq(k, "dependentSchemas") || str_eq(k, "else") || str_eq(k, "if") || str_eq(k, "not")
        || str_eq(k, "nullable") || str_eq(k, "patternProperties") || str_eq(k, "then")
        || str_eq(k, "unevaluatedProperties")
}

/// Drops the members named by a refused keyword.
fn drop_unsupported_exec(es: Vec<(String, Json)>) -> (r: Vec<(String, Json)>)
    ensures
        members_view(r@) == drop_unsupported(members_view(es@)),
{
    let ghost orig = es@;
    let mut out: Vec<(String, Json)> = Vec::new();
    for e in it: es.into_iter()
        invariant
            it.seq() == orig,
            members_view(out@) == drop_unsupported(members_view(orig.subrange(0, it.index() as int))),
    {
        let ghost i = it.index();
        proof {
            assert(orig.subrange(0, i + 1).subrange(0, i) =~= orig.subrange(0, i));
            assert(members_view(orig.subrange(0, i + 1)).drop_last() =~= members_view(orig.subrange(0, i)));
        }
        if !is_unsupported_key_exec(e.0.as_str()) {
            proof {
                lemma_members_view_push(out@, e);
            }
            out.push(e);
        }
    }
    proof {
        assert(orig.subrange(0, orig.len() as int) =~= orig);
    }
    out
}

proof fn lemma_drop_unsupported(es: Members, q: nat)
    ensures
        values_below(es, q) ==> values_below(drop_unsupported(es), q),
        forall|i: int|
            0 <= i < drop_unsupported(es).len() ==> !is_unsupported_key(
                #[trigger] drop_unsupported(es)[i].0,
            ),
    decreases es.len(),
{
    if es.len() > 0 {
        let p = es.drop_last();
        lemma_drop_unsupported(p, q);
        if values_below(es, q) {
            assert forall|i: int| 0 <= i < p.len() implies height(#[trigger] p[i].1) <= q by {
                assert(p[i] == es[i]);
            }
        }
    }
}

/// Adds the members of `v` that the object lacks, when `v` is an object.
fn merge_value_exec(es: Vec<(String, Json)>, v: Json) -> (r: Vec<(String, Json)>)
    ensures
        members_view(r@) == merge_value(members_view(es@), v@),
{
    match v {
        Json::Object(src) => merge_members(es, src),
        _ => es,
    }
}

proof fn lemma_member_value_below(es: Members, k: Seq<char>, q: nat)
    requires
        values_below(es, q),
    ensures
        member_value(es, k) matches Some(v) ==> height(v) <= q,
{
    lemma_first_key(es, k);
}

proof fn lemma_merge_value_below(es: Members, v: JsonV, q: nat)
    requires
        values_below(es, q),
        height(v) <= q + 1,
    ensures
        values_below(merge_value(es, v), q),
{
    if let JsonV::Object(src) = v {
        lemma_members_height(src, q);
        lemma_merge_below(es, src, q);
    }
}

proof fn lemma_normalize_type_below(es: Members, q: nat)
    requires
        values_below(es, q),
    ensures
        values_below(normalize_type(es), q),
{
    lemma_set_value_below(es, "type"@, JsonV::Str("string"@), q);
    if let Some(JsonV::Array(types)) = member_value(es, "type"@) {
        lemma_set_value_below(es, "type"@, JsonV::Str(pick_type(types)), q);
    }
}

/// Rewrites `oneOf` or `anyOf` (`key`) in an object whose member values are
/// at most `q` deep.
fn collapse_variant_exec(es: Vec<(String, Json)>, key: &str, Ghost(q): Ghost<nat>) -> (r: Vec<(String, Json)>)
    requires
        values_below(members_view(es@), q),
    ensures
        members_view(r@) == collapse_variant(members_view(es@), key@, q),
        values_below(members_view(r@), q),
    decreases q, 2nat,
{
    let ghost ev = members_view(es@);
    proof {
        lemma_remove_key(ev, key@, q);
        lemma_member_value_below(ev, key@, q);
    }
    let (rest, found) = split_member(es, key);
    match found {
        Some(Json::Array(opts)) => {
            let ghost ov = items_view(opts@);
            proof {
                lemma_select_variant_member(ov);
                lemma_items_height(ov, q);
            }
            match select_variant_exec(opts) {
                Some(sel) => {
                    proof {
                        let i = choose|i: int| 0 <= i < ov.len() && ov[i] == sel@;
                        assert(height(ov[i]) <= items_height(ov));
                    }
                    let n = normalize(sel);
                    proof {
                        lemma_merge_value_below(members_view(rest@), n@, q);
                    }
                    merge_value_exec(rest, n)
                },
                None => rest,
            }
        },
        _ => rest,
    }
}

/// Rewrites `allOf` in an object whose member values are at most `q` deep.
fn collapse_all_of_exec(es: Vec<(String, Json)>, Ghost(q): Ghost<nat>) -> (r: Vec<(String, Json)>)
    requires
        values_below(members_view(es@), q),
    ensures
        members_view(r@) == collapse_all_of(members_view(es@), q),
        values_below(members_view(r@), q),
    decreases q, 2nat,
{
    let ghost ev = members_view(es@);
    proof {
        lemma_remove_key(ev, "allOf"@, q);
        lemma_member_value_below(ev, "allOf"@, q);
    }
    let (rest, found) = split_member(es, "allOf");
    match found {
        Some(Json::Array(opts)) => {
            let ghost orig = opts@;
            let ghost ov = items_view(orig);
            proof {
                lemma_items_view(orig);
                lemma_items_height(ov, q);
                assert(ov.subrange(0, 0) =~= Seq::<JsonV>::empty());
            }
            let mut merged: Vec<(String, Json)> = Vec::new();
            for opt in it: opts.into_iter()
                invariant
                    it.seq() == orig,
                    ov == items_view(orig),
                    ov.len() == orig.len(),
                    forall|j: int| 0 <= j < orig.len() ==> #[trigger] ov[j] == json_view(orig[j]),
                    items_below(ov, q),
                    members_view(merged@) == merged_options(ov.subrange(0, it.index() as int), q),
                    values_below(members_view(merged@), q),
            {
                let ghost i = it.index() as int;
                proof {
                    assert(ov.subrange(0, i + 1).drop_last() =~= ov.subrange(0, i));
                    assert(ov.subrange(0, i + 1).last() == ov[i]);
                    assert(height(ov[i]) <= q);
                }
                let n = normalize(opt);
                proof {
                    lemma_merge_value_below(members_view(merged@), n@, q);
                    assert(norm_below(ov[i], q) == n@);
                    assert(merged_options(ov.subrange(0, i + 1), q) == merge_value(
                        merged_options(ov.subrange(0, i), q),
                        n@,
                    ));
                }
                merged = merge_value_exec(merged, n);
            }
            proof {
                assert(ov.subrange(0, ov.len() as int) =~= ov);
                lemma_merge_below(members_view(rest@), members_view(merged@), q);
            }
            merge_members(rest, merged)
        },
        _ => rest,
    }
}

/// Rewrites the members of an object.
fn normalize_object_exec(es: Vec<(String, Json)>) -> (r: Vec<(String, Json)>)
    ensures
        members_view(r@) == norm_object(members_view(es@), members_height(members_view(es@))),
        values_below(members_view(r@), members_height(members_view(es@))),
    decreases members_height(members_view(es@)), 3nat,
{
    let ghost q = members_height(members_view(es@));
    proof {
        lemma_members_height(members_view(es@), q);
    }
    let es1 = collapse_variant_exec(es, "oneOf", Ghost(q));
    let es2 = collapse_variant_exec(es1, "anyOf", Ghost(q));
    let es3 = collapse_all_of_exec(es2, Ghost(q));
    proof {
        lemma_normalize_type_below(members_view(es3@), q);
    }
    let es4 = normalize_type_exec(es3);
    proof {
        lemma_drop_unsupported(members_view(es4@), q);
    }
    let es5 = drop_unsupported_exec(es4);
    let ghost orig = es5@;
    let ghost ev = members_view(orig);
    proof {
        lemma_members_view(orig);
        assert(ev.subrange(0, 0) =~= Seq::<(Seq<char>, JsonV)>::empty());
    }
    let mut out: Vec<(String, Json)> = Vec::new();
    for e in it: es5.into_iter()
        invariant
            it.seq() == orig,
            ev == members_view(orig),
            ev.len() == orig.len(),
            forall|j: int| 0 <= j < orig.len() ==> #[trigger] ev[j] == (orig[j].0@, json_view(orig[j].1)),
            values_below(ev, q),
            q == members_height(members_view(es@)),
            members_view(out@) == norm_values(ev.subrange(0, it.index() as int), q),
            values_below(members_view(out@), q),
    {
        let ghost i = it.index() as int;
        proof {
            assert(ev.subrange(0, i + 1).drop_last() =~= ev.subrange(0, i));
            assert(ev.subrange(0, i + 1).last() == ev[i]);
            assert(height(ev[i].1) <= q);
        }
        let (name, value) = e;
        let n = normalize(value);
        proof {
            lemma_members_view_push(out@, (name, n));
            assert(norm_below(ev[i].1, q) == n@);
            assert(norm_values(ev.subrange(0, i + 1), q) == norm_values(ev.subrange(0, i), q).push(
                (ev[i].0, n@),
            ));
        }
        out.push((name, n));
    }
    proof {
        assert(ev.subrange(0, ev.len() as int) =~= ev);
    }
    out
}

/// Rewrites a schema, or any JSON value within one.
fn normalize(j: Json) -> (r: Json)
    ensures
        r@ == norm(j@),
        height(r@) <= height(j@),
    decreases height(j@), 1nat,
{
    let ghost jv = j@;
    match j {
        Json::Array(items) => {
            let ghost orig = items@;
            let ghost iv = items_view(orig);
            let ghost q = items_height(iv);
            proof {
                lemma_items_view(orig);
                lemma_items_height(iv, q);
                assert(iv.subrange(0, 0) =~= Seq::<JsonV>::empty());
            }
            let mut out: Vec<Json> = Vec::new();
            for x in it: items.into_iter()
                invariant
                    it.seq() == orig,
                    iv == items_view(orig),
                    iv.len() == orig.len(),
                    forall|k: int| 0 <= k < orig.len() ==> #[trigger] iv[k] == json_view(orig[k]),
                    items_below(iv, q),
                    height(jv) == q + 1,
                    jv == json_view(j),
                    items_view(out@) == norm_items(iv.subrange(0, it.index() as int), q),
                    items_below(items_view(out@), q),
            {
                let ghost i = it.index() as int;
                proof {
                    assert(iv.subrange(0, i + 1).drop_last() =~= iv.subrange(0, i));
                    assert(iv.subrange(0, i + 1).last() == iv[i]);
                    assert(height(iv[i]) <= q);
                    lemma_items_view(out@);
                }
                let n = normalize(x);
                proof {
                    assert(norm_below(iv[i], q) == n@);
                    assert(norm_items(iv.subrange(0, i + 1), q) == norm_items(iv.subrange(0, i), q).push(
                        n@,
                    ));
                    lemma_items_view_push(out@, n);
                    lemma_items_view(out@.push(n));
                    assert forall|k: int| 0 <= k < out@.len() + 1 implies height(
                        #[trigger] items_view(out@.push(n))[k],
                    ) <= q by {
                        if k < out@.len() {
                            assert(items_view(out@.push(n))[k] == items_view(out@)[k]);
                        }
                    }
                }
                out.push(n);
            }
            proof {
                assert(iv.subrange(0, iv.len() as int) =~= iv);
                lemma_items_height(items_view(out@), q);
            }
            Json::Array(out)
        },
        Json::Object(es) => {
            let r = normalize_object_exec(es);
            proof {
                lemma_members_height(members_view(r@), members_height(members_view(es@)));
            }
            Json::Object(r)
        },
        other => other,
    }
}

/// Rewrites a tool's parameter schema into the subset that Gemini function
/// declarations accept (see the module documentation).
pub fn to_gemini_schema(schema: Json) -> (r: Json)
    ensures
        r@ == norm(schema@),
        declaration_ready(r@),
        combiner_free(r@),
        combiner_free_deep(r@),
        free_of_refused_keywords(r@),
        norm(r@) == r@,
{
    proof {
        lemma_norm_free_of_refused_keywords(schema@);
        lemma_norm_declaration_ready(schema@);
        lemma_norm_combiner_free(schema@);
        lemma_norm_combiner_free_deep(schema@);
        lemma_norm_idempotent(schema@);
    }
    normalize(schema)
}

/// A `type` member that Gemini takes: absent, or neither a list nor `null`.
pub open spec fn type_settled(t: Option<JsonV>) -> bool {
    match t {
        Some(JsonV::Array(_)) => false,
        Some(JsonV::Str(s)) => s != "null"@,
        _ => true,
    }
}

/// No object anywhere in `j` has a member named by a refused keyword, a
/// `type` list or the type `null`.
pub open spec fn declaration_ready(j: JsonV) -> bool
    decreases j,
{
    match j {
        JsonV::Array(s) => forall|i: int| 0 <= i < s.len() ==> declaration_ready(#[trigger] s[i]),
        JsonV::Object(es) => {
            &&& forall|i: int| 0 <= i < es.len() ==> !is_unsupported_key(#[trigger] es[i].0)
            &&& type_settled(member_value(es, "type"@))
            &&& forall|i: int| 0 <= i < es.len() ==> declaration_ready(#[trigger] es[i].1)
        },
        _ => true,
    }
}

/// Every value at most `q` deep keeps or loses depth under the rewrite.
pub open spec fn shrinks_up_to(q: nat) -> bool {
    forall|x: JsonV| height(x) <= q ==> height(#[trigger] norm(x)) <= height(x)
}

proof fn lemma_norm_items_shape(items: Seq<JsonV>, q: nat)
    ensures
        norm_items(items, q).len() == items.len(),
        forall|i: int|
            0 <= i < items.len() ==> #[trigger] norm_items(items, q)[i] == norm_below(items[i], q),
    decreases items.len(),
{
    if items.len() > 0 {
        let p = items.drop_last();
        lemma_norm_items_shape(p, q);
        assert forall|i: int| 0 <= i < items.len() implies #[trigger] norm_items(items, q)[i]
            == norm_below(items[i], q) by {
            if i < p.len() {
                assert(items[i] == p[i]);
            }
        }
    }
}

proof fn lemma_norm_values_shape(es: Members, q: nat)
    ensures
        norm_values(es, q).len() == es.len(),
        forall|i: int|
            0 <= i < es.len() ==> #[trigger] norm_values(es, q)[i] == (es[i].0, norm_below(es[i].1, q)),
    decreases es.len(),
{
    if es.len() > 0 {
        let p = es.drop_last();
        lemma_norm_values_shape(p, q);
        assert forall|i: int| 0 <= i < es.len() implies #[trigger] norm_values(es, q)[i] == (
            es[i].0,
            norm_below(es[i].1, q),
        ) by {
            if i < p.len() {
                assert(es[i] == p[i]);
            }
        }
    }
}

proof fn lemma_norm_items_below(items: Seq<JsonV>, q: nat)
    requires
        items_below(items, q),
        shrinks_up_to(q),
    ensures
        items_below(norm_items(items, q), q),
{
    lemma_norm_items_shape(items, q);
    assert forall|i: int| 0 <= i < norm_items(items, q).len() implies height(
        #[trigger] norm_items(items, q)[i],
    ) <= q by {
        assert(height(items[i]) <= q);
        assert(height(norm(items[i])) <= height(items[i]));
    }
}

proof fn lemma_norm_values_below(es: Members, q: nat)
    requires
        values_below(es, q),
        shrinks_up_to(q),
    ensures
        values_below(norm_values(es, q), q),
{
    lemma_norm_values_shape(es, q);
    assert forall|i: int| 0 <= i < norm_values(es, q).len() implies height(
        #[trigger] norm_values(es, q)[i].1,
    ) <= q by {
        assert(height(es[i].1) <= q);
        assert(height(norm(es[i].1)) <= height(es[i].1));
    }
}

proof fn lemma_collapse_variant_below(es: Members, key: Seq<char>, q: nat)
    requires
        values_below(es, q),
        shrinks_up_to(q),
    ensures
        values_below(collapse_variant(es, key, q), q),
{
    lemma_remove_key(es, key, q);
    lemma_member_value_below(es, key, q);
    if let Some(JsonV::Array(opts)) = member_value(es, key) {
        lemma_select_variant_member(opts);
        lemma_items_height(opts, q);
        if let Some(sel) = select_variant(opts) {
            let i = choose|i: int| 0 <= i < opts.len() && opts[i] == sel;
            assert(height(opts[i]) <= items_height(opts));
            assert(height(norm(sel)) <= height(sel));
            lemma_merge_value_below(remove_key(es, key), norm(sel), q);
        }
    }
}

proof fn lemma_merged_options_below(opts: Seq<JsonV>, q: nat)
    requires
        items_below(opts, q),
        shrinks_up_to(q),
    ensures
        values_below(merged_options(opts, q), q),
    decreases opts.len(),
{
    if opts.len() > 0 {
        let p = opts.drop_last();
        assert forall|i: int| 0 <= i < p.len() implies height(#[trigger] p[i]) <= q by {
            assert(p[i] == opts[i]);
        }
        lemma_merged_options_below(p, q);
        let x = opts.last();
        assert(height(x) <= q);
        assert(height(norm(x)) <= height(x));
        lemma_merge_value_below(merged_options(p, q), norm_below(x, q), q);
    }
}

proof fn lemma_collapse_all_of_below(es: Members, q: nat)
    requires
        values_below(es, q),
        shrinks_up_to(q),
    ensures
        values_below(collapse_all_of(es, q), q),
{
    lemma_remove_key(es, "allOf"@, q);
    lemma_member_value_below(es, "allOf"@, q);
    if let Some(JsonV::Array(opts)) = member_value(es, "allOf"@) {
        lemma_items_height(opts, q);
        lemma_merged_options_below(opts, q);
        lemma_merge_below(remove_key(es, "allOf"@), merged_options(opts, q), q);
    }
}

/// The members just before their values are rewritten.
pub open spec fn object_stage(es: Members, q: nat) -> Members {
    let es1 = collapse_variant(es, "oneOf"@, q);
    let es2 = collapse_variant(es1, "anyOf"@, q);
    drop_unsupported(normalize_type(collapse_all_of(es2, q)))
}

proof fn lemma_object_stage_below(es: Members, q: nat)
    requires
        values_below(es, q),
        shrinks_up_to(q),
    ensures
        values_below(object_stage(es, q), q),
        norm_object(es, q) == norm_values(object_stage(es, q), q),
{
    let es1 = collapse_variant(es, "oneOf"@, q);
    let es2 = collapse_variant(es1, "anyOf"@, q);
    let es3 = collapse_all_of(es2, q);
    lemma_collapse_variant_below(es, "oneOf"@, q);
    lemma_collapse_variant_below(es1, "anyOf"@, q);
    lemma_collapse_all_of_below(es2, q);
    lemma_normalize_type_below(es3, q);
    lemma_drop_unsupported(normalize_type(es3), q);
}

/// Depth never grows under the rewrite.
pub proof fn lemma_norm_height(j: JsonV)
    ensures
        height(norm(j)) <= height(j),
    decreases height(j),
{
    assert forall|x: JsonV| height(x) < height(j) implies height(#[trigger] norm(x)) <= height(x) by {
        lemma_norm_height(x);
    }
    match j {
        JsonV::Array(items) => {
            let q = items_height(items);
            lemma_items_height(items, q);
            lemma_norm_items_below(items, q);
            lemma_items_height(norm_items(items, q), q);
        },
        JsonV::Object(es) => {
            let q = members_height(es);
            lemma_members_height(es, q);
            lemma_object_stage_below(es, q);
            lemma_norm_values_below(object_stage(es, q), q);
            lemma_members_height(norm_object(es, q), q);
        },
        _ => {},
    }
}

proof fn lemma_shrinks_up_to(q: nat)
    ensures
        shrinks_up_to(q),
{
    assert forall|x: JsonV| height(x) <= q implies height(#[trigger] norm(x)) <= height(x) by {
        lemma_norm_height(x);
    }
}

proof fn lemma_set_value_member(es: Members, k: Seq<char>, v: JsonV)
    requires
        has_member(es, k),
    ensures
        member_value(set_value(es, k, v), k) == Some(v),
{
    lemma_first_key(es, k);
    let i = first_key(es, k);
    let t = es.update(i, (k, v));
    assert forall|j: int| 0 <= j < i implies t[j].0 != k by {
        assert(t[j] == es[j]);
    }
    assert(key_at(t, k, i));
    lemma_first_key(t, k);
}

proof fn lemma_pick_type_not_null(types: Seq<JsonV>)
    ensures
        pick_type(types) != "null"@,
    decreases types.len(),
{
    reveal_strlit("string");
    reveal_strlit("null");
    assert("string"@.len() != "null"@.len());
    if types.len() > 0 {
        lemma_pick_type_not_null(types.drop_first());
    }
}

proof fn lemma_normalize_type_settled(es: Members)
    ensures
        type_settled(member_value(normalize_type(es), "type"@)),
{
    reveal_strlit("string");
    reveal_strlit("null");
    assert("string"@.len() != "null"@.len());
    lemma_first_key(es, "type"@);
    match member_value(es, "type"@) {
        Some(JsonV::Array(types)) => {
            lemma_set_value_member(es, "type"@, JsonV::Str(pick_type(types)));
            lemma_pick_type_not_null(types);
        },
        Some(JsonV::Str(t)) => {
            lemma_set_value_member(es, "type"@, JsonV::Str("string"@));
        },
        _ => {},
    }
}

proof fn lemma_drop_unsupported_member(es: Members, k: Seq<char>)
    requires
        !is_unsupported_key(k),
    ensures
        has_member(drop_unsupported(es), k) == has_member(es, k),
        member_value(drop_unsupported(es), k) == member_value(es, k),
    decreases es.len(),
{
    if es.len() == 0 {
        lemma_first_key(es, k);
    } else {
        let p = es.drop_last();
        let x = es.last();
        lemma_drop_unsupported_member(p, k);
        assert(p.push(x) =~= es);
        lemma_member_push(p, x, k);
        lemma_first_key(p, k);
        lemma_first_key(drop_unsupported(p), k);
        if !is_unsupported_key(x.0) {
            lemma_member_push(drop_unsupported(p), x, k);
        }
    }
}

proof fn lemma_norm_values_member(es: Members, q: nat, k: Seq<char>)
    ensures
        has_member(norm_values(es, q), k) == has_member(es, k),
        member_value(norm_values(es, q), k) == match member_value(es, k) {
            Some(v) => Some(norm_below(v, q)),
            None => None,
        },
    decreases es.len(),
{
    if es.len() == 0 {
        lemma_first_key(es, k);
        lemma_first_key(norm_values(es, q), k);
    } else {
        let p = es.drop_last();
        let x = es.last();
        lemma_norm_values_member(p, q, k);
        assert(p.push(x) =~= es);
        lemma_member_push(p, x, k);
        lemma_member_push(norm_values(p, q), (x.0, norm_below(x.1, q)), k);
        lemma_first_key(p, k);
        lemma_first_key(norm_values(p, q), k);
    }
}

proof fn lemma_norm_below_settled(t: Option<JsonV>, q: nat)
    requires
        type_settled(t),
    ensures
        type_settled(
            match t {
                Some(v) => Some(norm_below(v, q)),
                None => None,
            },
        ),
{
}

/// The rewrite leaves no refused keyword, no `type` list and no type `null`
/// in any object of the schema.
pub proof fn lemma_norm_declaration_ready(j: JsonV)
    ensures
        declaration_ready(norm(j)),
    decreases height(j),
{
    assert forall|x: JsonV| height(x) < height(j) implies declaration_ready(#[trigger] norm(x)) by {
        lemma_norm_declaration_ready(x);
    }
    match j {
        JsonV::Array(items) => {
            let q = items_height(items);
            lemma_items_height(items, q);
            lemma_norm_items_shape(items, q);
            let r = norm_items(items, q);
            assert forall|i: int| 0 <= i < r.len() implies declaration_ready(#[trigger] r[i]) by {
                assert(height(items[i]) <= q);
                assert(r[i] == norm(items[i]));
            }
        },
        JsonV::Object(es) => {
            let q = members_height(es);
            lemma_members_height(es, q);
            lemma_shrinks_up_to(q);
            lemma_object_stage_below(es, q);
            let st = object_stage(es, q);
            let es1 = collapse_variant(es, "oneOf"@, q);
            let es2 = collapse_variant(es1, "anyOf"@, q);
            let es4 = normalize_type(collapse_all_of(es2, q));
            lemma_drop_unsupported(es4, q);
            lemma_norm_values_shape(st, q);
            let r = norm_values(st, q);
            assert forall|i: int| 0 <= i < r.len() implies !is_unsupported_key(#[trigger] r[i].0)
                && declaration_ready(r[i].1) by {
                assert(r[i].0 == st[i].0);
                assert(height(st[i].1) <= q);
                assert(r[i].1 == norm(st[i].1));
            }
            assert(!is_unsupported_key("type"@)) by {
                reveal_strlit("type");
                reveal_strlit("$id");
                reveal_strlit("$schema");
                reveal_strlit("$defs");
                reveal_strlit("additionalProperties");
                reveal_strlit("dependentSchemas");
                reveal_strlit("else");
                reveal_strlit("if");
                reveal_strlit("not");
                reveal_strlit("nullable");
                reveal_strlit("patternProperties");
                reveal_strlit("then");
                reveal_strlit("unevaluatedProperties");
                assert("type"@[1] != "else"@[1]);
                assert("type"@[1] != "then"@[1]);
            }
            lemma_normalize_type_settled(collapse_all_of(es2, q));
            lemma_drop_unsupported_member(es4, "type"@);
            lemma_norm_values_member(st, q, "type"@);
            lemma_norm_below_settled(member_value(st, "type"@), q);
            assert(forall|i: int| 0 <= i < r.len() ==> !is_unsupported_key(#[trigger] r[i].0));
            assert(forall|i: int| 0 <= i < r.len() ==> declaration_ready(#[trigger] r[i].1));
        },
        _ => {},
    }
}

proof fn lemma_remove_key_member(es: Members, k: Seq<char>, k2: Seq<char>)
    requires
        k2 != k,
    ensures
        has_member(remove_key(es, k), k2) == has_member(es, k2),
        member_value(remove_key(es, k), k2) == member_value(es, k2),
    decreases es.len(),
{
    if es.len() == 0 {
        lemma_first_key(es, k2);
    } else {
        let p = es.drop_last();
        let x = es.last();
        lemma_remove_key_member(p, k, k2);
        assert(p.push(x) =~= es);
        lemma_member_push(p, x, k2);
        lemma_first_key(p, k2);
        lemma_first_key(remove_key(p, k), k2);
        if x.0 != k {
            lemma_member_push(remove_key(p, k), x, k2);
        }
    }
}

proof fn lemma_remove_absent_key(es: Members, k: Seq<char>)
    requires
        !has_member(es, k),
    ensures
        remove_key(es, k) == es,
    decreases es.len(),
{
    if es.len() > 0 {
        let p = es.drop_last();
        assert(!has_member(p, k)) by {
            if has_member(p, k) {
                let i = choose|i: int| 0 <= i < p.len() && p[i].0 == k;
                assert(es[i] == p[i]);
            }
        }
        lemma_remove_absent_key(p, k);
        assert(p.push(es.last()) =~= es);
    }
}

proof fn lemma_merge_member(es: Members, src: Members, k: Seq<char>)
    ensures
        has_member(merge(es, src), k) == (has_member(es, k) || has_member(src, k)),
        has_member(es, k) ==> member_value(merge(es, src), k) == member_value(es, k),
        !has_member(es, k) ==> member_value(merge(es, src), k) == member_value(src, k),
    decreases src.len(),
{
    if src.len() == 0 {
        lemma_first_key(src, k);
        lemma_first_key(es, k);
    } else {
        let p = src.drop_last();
        let x = src.last();
        lemma_merge_member(es, p, k);
        assert(p.push(x) =~= src);
        lemma_member_push(p, x, k);
        let m = merge(es, p);
        lemma_first_key(m, k);
        lemma_first_key(es, k);
        lemma_first_key(p, k);
        if !has_member(m, x.0) {
            lemma_member_push(m, x, k);
        }
    }
}

/// No `oneOf`, `anyOf` or `allOf` member.
pub open spec fn no_combiners(es: Members) -> bool {
    &&& !has_member(es, "oneOf"@)
    &&& !has_member(es, "anyOf"@)
    &&& !has_member(es, "allOf"@)
}

pub open spec fn combiner_free(v: JsonV) -> bool {
    match v {
        JsonV::Object(es) => no_combiners(es),
        _ => true,
    }
}

proof fn lemma_combiner_names_differ()
    ensures
        "oneOf"@ != "anyOf"@,
        "oneOf"@ != "allOf"@,
        "anyOf"@ != "allOf"@,
{
    reveal_strlit("oneOf");
    reveal_strlit("anyOf");
    reveal_strlit("allOf");
    assert("oneOf"@[0] != "anyOf"@[0]);
    assert("oneOf"@[0] != "allOf"@[0]);
    assert("anyOf"@[1] != "allOf"@[1]);
}

proof fn lemma_merge_value_keeps_absent(es: Members, v: JsonV, k: Seq<char>)
    requires
        combiner_free(v),
        k == "oneOf"@ || k == "anyOf"@ || k == "allOf"@,
    ensures
        has_member(merge_value(es, v), k) == has_member(es, k),
        member_value(merge_value(es, v), k) == member_value(es, k),
{
    if let JsonV::Object(src) = v {
        lemma_merge_member(es, src, k);
        lemma_first_key(es, k);
        lemma_first_key(src, k);
    }
}

proof fn lemma_merged_options_free(opts: Seq<JsonV>, q: nat)
    requires
        forall|i: int| 0 <= i < opts.len() ==> combiner_free(#[trigger] norm_below(opts[i], q)),
    ensures
        no_combiners(merged_options(opts, q)),
    decreases opts.len(),
{
    if opts.len() > 0 {
        let p = opts.drop_last();
        assert forall|i: int| 0 <= i < p.len() implies combiner_free(#[trigger] norm_below(p[i], q)) by {
            assert(p[i] == opts[i]);
        }
        lemma_merged_options_free(p, q);
        let x = norm_below(opts.last(), q);
        assert(combiner_free(x));
        let m = merged_options(p, q);
        lemma_merge_value_keeps_absent(m, x, "oneOf"@);
        lemma_merge_value_keeps_absent(m, x, "anyOf"@);
        lemma_merge_value_keeps_absent(m, x, "allOf"@);
    }
}

proof fn lemma_set_value_names(es: Members, k: Seq<char>, v: JsonV)
    ensures
        set_value(es, k, v).len() == es.len(),
        forall|i: int| 0 <= i < es.len() ==> #[trigger] set_value(es, k, v)[i].0 == es[i].0,
{
    lemma_first_key(es, k);
}

proof fn lemma_same_names_members(a: Members, b: Members, k: Seq<char>)
    requires
        a.len() == b.len(),
        forall|i: int| 0 <= i < a.len() ==> #[trigger] a[i].0 == b[i].0,
    ensures
        has_member(a, k) == has_member(b, k),
{
    if has_member(a, k) {
        let i = choose|i: int| 0 <= i < a.len() && a[i].0 == k;
        assert(b[i].0 == k);
    }
    if has_member(b, k) {
        let i = choose|i: int| 0 <= i < b.len() && b[i].0 == k;
        assert(a[i].0 == k);
    }
}

proof fn lemma_drop_unsupported_names(es: Members, k: Seq<char>)
    ensures
        has_member(drop_unsupported(es), k) ==> has_member(es, k),
    decreases es.len(),
{
    if es.len() > 0 {
        let p = es.drop_last();
        lemma_drop_unsupported_names(p, k);
        assert(p.push(es.last()) =~= es);
        lemma_member_push(p, es.last(), k);
        if !is_unsupported_key(es.last().0) {
            lemma_member_push(drop_unsupported(p), es.last(), k);
        }
    }
}

/// A variant picked from an object's member is less deep than the object.
proof fn lemma_variant_below(es: Members, key: Seq<char>, q: nat)
    requires
        values_below(es, q),
        member_value(es, key) matches Some(JsonV::Array(opts)),
    ensures
        member_value(es, key) matches Some(JsonV::Array(opts)) && select_variant(opts) matches Some(sel)
            ==> height(sel) < q,
        member_value(es, key) matches Some(JsonV::Array(opts)) && items_below(opts, (q - 1) as nat),
{
    lemma_member_value_below(es, key, q);
    if let Some(JsonV::Array(opts)) = member_value(es, key) {
        lemma_items_height(opts, (q - 1) as nat);
        lemma_select_variant_member(opts);
        if let Some(sel) = select_variant(opts) {
            let i = choose|i: int| 0 <= i < opts.len() && opts[i] == sel;
            assert(height(opts[i]) <= items_height(opts));
        }
    }
}

/// The rewrite leaves no `oneOf`, `anyOf` or `allOf` member in a rewritten
/// object.
pub proof fn lemma_norm_combiner_free(j: JsonV)
    ensures
        combiner_free(norm(j)),
    decreases height(j),
{
    assert forall|x: JsonV| height(x) < height(j) implies combiner_free(#[trigger] norm(x)) by {
        lemma_norm_combiner_free(x);
    }
    if let JsonV::Object(es) = j {
        lemma_combiner_names_differ();
        let q = members_height(es);
        lemma_members_height(es, q);
        lemma_shrinks_up_to(q);
        // oneOf
        let r0 = remove_key(es, "oneOf"@);
        lemma_remove_key(es, "oneOf"@, q);
        lemma_remove_key_member(es, "oneOf"@, "anyOf"@);
        lemma_remove_key_member(es, "oneOf"@, "allOf"@);
        let es1 = collapse_variant(es, "oneOf"@, q);
        if let Some(JsonV::Array(opts)) = member_value(es, "oneOf"@) {
            lemma_variant_below(es, "oneOf"@, q);
            if let Some(sel) = select_variant(opts) {
                let x = norm_below(sel, q);
                assert(height(sel) < q);
                assert(x == norm(sel));
                assert(height(sel) < height(j));
                assert(combiner_free(x));
                lemma_merge_value_keeps_absent(r0, x, "oneOf"@);
                lemma_merge_value_keeps_absent(r0, x, "anyOf"@);
                lemma_merge_value_keeps_absent(r0, x, "allOf"@);
            }
        }
        assert(!has_member(es1, "oneOf"@));
        assert(member_value(es1, "anyOf"@) == member_value(es, "anyOf"@));
        assert(member_value(es1, "allOf"@) == member_value(es, "allOf"@));
        // anyOf
        let r1 = remove_key(es1, "anyOf"@);
        lemma_remove_key(es1, "anyOf"@, q);
        lemma_remove_key_member(es1, "anyOf"@, "oneOf"@);
        lemma_remove_key_member(es1, "anyOf"@, "allOf"@);
        let es2 = collapse_variant(es1, "anyOf"@, q);
        if let Some(JsonV::Array(opts)) = member_value(es1, "anyOf"@) {
            lemma_variant_below(es, "anyOf"@, q);
            if let Some(sel) = select_variant(opts) {
                let x = norm_below(sel, q);
                assert(height(sel) < q);
                assert(x == norm(sel));
                assert(height(sel) < height(j));
                assert(combiner_free(x));
                lemma_merge_value_keeps_absent(r1, x, "oneOf"@);
                lemma_merge_value_keeps_absent(r1, x, "anyOf"@);
                lemma_merge_value_keeps_absent(r1, x, "allOf"@);
            }
        }
        assert(!has_member(es2, "oneOf"@));
        assert(!has_member(es2, "anyOf"@));
        assert(member_value(es2, "allOf"@) == member_value(es, "allOf"@));
        // allOf
        let r2 = remove_key(es2, "allOf"@);
        lemma_remove_key(es2, "allOf"@, q);
        lemma_remove_key_member(es2, "allOf"@, "oneOf"@);
        lemma_remove_key_member(es2, "allOf"@, "anyOf"@);
        let es3 = collapse_all_of(es2, q);
        if let Some(JsonV::Array(opts)) = member_value(es2, "allOf"@) {
            lemma_variant_below(es, "allOf"@, q);
            assert(items_below(opts, (q - 1) as nat));
            assert forall|i: int| 0 <= i < opts.len() implies combiner_free(#[trigger] norm_below(opts[i], q)) by {
                assert(height(opts[i]) <= q - 1);
                assert(norm_below(opts[i], q) == norm(opts[i]));
                assert(height(opts[i]) < height(j));
            }
            lemma_merged_options_free(opts, q);
            let mo = merged_options(opts, q);
            lemma_merge_member(r2, mo, "oneOf"@);
            lemma_merge_member(r2, mo, "anyOf"@);
            lemma_merge_member(r2, mo, "allOf"@);
        }
        assert(no_combiners(es3));
        // type, refused keywords, values
        let es4 = normalize_type(es3);
        lemma_set_value_names(es3, "type"@, JsonV::Str("string"@));
        if let Some(JsonV::Array(types)) = member_value(es3, "type"@) {
            lemma_set_value_names(es3, "type"@, JsonV::Str(pick_type(types)));
        }
        lemma_same_names_members(es3, es4, "oneOf"@);
        lemma_same_names_members(es3, es4, "anyOf"@);
        lemma_same_names_members(es3, es4, "allOf"@);
        let es5 = drop_unsupported(es4);
        lemma_drop_unsupported_names(es4, "oneOf"@);
        lemma_drop_unsupported_names(es4, "anyOf"@);
        lemma_drop_unsupported_names(es4, "allOf"@);
        lemma_norm_values_member(es5, q, "oneOf"@);
        lemma_norm_values_member(es5, q, "anyOf"@);
        lemma_norm_values_member(es5, q, "allOf"@);
        assert(norm(j) == JsonV::Object(norm_values(es5, q)));
    }
}

proof fn lemma_drop_unsupported_identity(es: Members)
    requires
        forall|i: int| 0 <= i < es.len() ==> !is_unsupported_key(#[trigger] es[i].0),
    ensures
        drop_unsupported(es) == es,
    decreases es.len(),
{
    if es.len() > 0 {
        let p = es.drop_last();
        assert forall|i: int| 0 <= i < p.len() implies !is_unsupported_key(#[trigger] p[i].0) by {
            assert(p[i] == es[i]);
        }
        lemma_drop_unsupported_identity(p);
        assert(p.push(es.last()) =~= es);
    }
}

/// Rewriting a rewritten schema changes nothing.
pub proof fn lemma_norm_idempotent(j: JsonV)
    ensures
        norm(norm(j)) == norm(j),
    decreases height(j),
{
    assert forall|x: JsonV| height(x) < height(j) implies #[trigger] norm(norm(x)) == norm(x) by {
        lemma_norm_idempotent(x);
    }
    match j {
        JsonV::Array(items) => {
            let q = items_height(items);
            lemma_items_height(items, q);
            lemma_norm_items_shape(items, q);
            let n = norm_items(items, q);
            let q2 = items_height(n);
            lemma_items_height(n, q2);
            lemma_norm_items_shape(n, q2);
            assert forall|i: int| 0 <= i < n.len() implies #[trigger] norm_items(n, q2)[i] == n[i] by {
                assert(height(items[i]) <= q);
                assert(n[i] == norm(items[i]));
                assert(height(n[i]) <= q2);
                assert(norm(norm(items[i])) == norm(items[i]));
            }
            assert(norm_items(n, q2) =~= n);
            assert(norm(j) == JsonV::Array(n));
        },
        JsonV::Object(es) => {
            let q = members_height(es);
            lemma_members_height(es, q);
            lemma_shrinks_up_to(q);
            lemma_object_stage_below(es, q);
            let st = object_stage(es, q);
            lemma_norm_values_shape(st, q);
            let r = norm_values(st, q);
            assert(norm(j) == JsonV::Object(r));
            lemma_norm_declaration_ready(j);
            lemma_norm_combiner_free(j);
            let q2 = members_height(r);
            lemma_members_height(r, q2);
            lemma_first_key(r, "oneOf"@);
            lemma_first_key(r, "anyOf"@);
            lemma_first_key(r, "allOf"@);
            lemma_remove_absent_key(r, "oneOf"@);
            lemma_remove_absent_key(r, "anyOf"@);
            lemma_remove_absent_key(r, "allOf"@);
            assert(collapse_variant(r, "oneOf"@, q2) == r);
            assert(collapse_variant(r, "anyOf"@, q2) == r);
            assert(collapse_all_of(r, q2) == r);
            assert(type_settled(member_value(r, "type"@)));
            assert(normalize_type(r) == r);
            lemma_drop_unsupported_identity(r);
            lemma_norm_values_shape(r, q2);
            assert forall|i: int| 0 <= i < r.len() implies #[trigger] norm_values(r, q2)[i] == r[i] by {
                assert(height(st[i].1) <= q);
                assert(r[i].1 == norm(st[i].1));
                assert(height(r[i].1) <= q2);
                assert(norm(norm(st[i].1)) == norm(st[i].1));
            }
            assert(norm_values(r, q2) =~= r);
            assert(norm_object(r, q2) == r);
        },
        _ => {},
    }
}

/// No object anywhere in `v`, at any depth, has a `oneOf`, `anyOf` or
/// `allOf` member.
pub open spec fn combiner_free_deep(v: JsonV) -> bool
    decreases v,
{
    match v {
        JsonV::Array(s) => forall|i: int| 0 <= i < s.len() ==> combiner_free_deep(#[trigger] s[i]),
        JsonV::Object(es) => {
            &&& no_combiners(es)
            &&& forall|i: int| 0 <= i < es.len() ==> combiner_free_deep(#[trigger] es[i].1)
        },
        _ => true,
    }
}

/// Law: the rewrite leaves no `oneOf`, `anyOf` or `allOf` member in any
/// object of the schema, however deep.
pub proof fn lemma_norm_combiner_free_deep(j: JsonV)
    ensures
        combiner_free_deep(norm(j)),
    decreases height(j),
{
    assert forall|x: JsonV| height(x) < height(j) implies combiner_free_deep(#[trigger] norm(x)) by {
        lemma_norm_combiner_free_deep(x);
    }
    lemma_norm_combiner_free(j);
    match j {
        JsonV::Array(items) => {
            let q = items_height(items);
            lemma_items_height(items, q);
            lemma_norm_items_shape(items, q);
            let r = norm_items(items, q);
            assert forall|i: int| 0 <= i < r.len() implies combiner_free_deep(#[trigger] r[i]) by {
                assert(height(items[i]) <= q);
                assert(r[i] == norm(items[i]));
            }
        },
        JsonV::Object(es) => {
            let q = members_height(es);
            lemma_members_height(es, q);
            lemma_shrinks_up_to(q);
            lemma_object_stage_below(es, q);
            let st = object_stage(es, q);
            lemma_norm_values_shape(st, q);
            let r = norm_values(st, q);
            assert forall|i: int| 0 <= i < r.len() implies combiner_free_deep(#[trigger] r[i].1) by {
                assert(height(st[i].1) <= q);
                assert(r[i].1 == norm(st[i].1));
            }
        },
        _ => {},
    }
}

/// No object anywhere in `v` has a member named `$id`, `$schema`, `$defs`,
/// `additionalProperties`, `dependentSchemas`, `else`, `if`, `not`,
/// `nullable`, `patternProperties`, `then` or `unevaluatedProperties`.
pub open spec fn free_of_refused_keywords(v: JsonV) -> bool
    decreases v,
{
    match v {
        JsonV::Array(s) => forall|i: int| 0 <= i < s.len() ==> free_of_refused_keywords(#[trigger] s[i]),
        JsonV::Object(es) => forall|i: int|
            0 <= i < es.len() ==> {
                &&& (#[trigger] es[i]).0 != "$id"@
                &&& es[i].0 != "$schema"@
                &&& es[i].0 != "$defs"@
                &&& es[i].0 != "additionalProperties"@
                &&& es[i].0 != "dependentSchemas"@
                &&& es[i].0 != "else"@
                &&& es[i].0 != "if"@
                &&& es[i].0 != "not"@
                &&& es[i].0 != "nullable"@
                &&& es[i].0 != "patternProperties"@
                &&& es[i].0 != "then"@
                &&& es[i].0 != "unevaluatedProperties"@
                &&& free_of_refused_keywords(es[i].1)
            },
        _ => true,
    }
}

proof fn lemma_ready_free_of_refused(v: JsonV)
    requires
        declaration_ready(v),
    ensures
        free_of_refused_keywords(v),
    decreases v,
{
    match v {
        JsonV::Array(s) => {
            assert forall|i: int| 0 <= i < s.len() implies free_of_refused_keywords(#[trigger] s[i]) by {
                lemma_ready_free_of_refused(s[i]);
            }
        },
        JsonV::Object(es) => {
            assert forall|i: int| 0 <= i < es.len() implies free_of_refused_keywords(#[trigger] es[i].1) by {
                lemma_ready_free_of_refused(es[i].1);
            }
            assert forall|i: int| 0 <= i < es.len() implies !is_unsupported_key(#[trigger] es[i].0) by {}
        },
        _ => {},
    }
}

/// Law: the rewritten schema has, in no object at any depth, a member named
/// by one of the twelve keywords Gemini function declarations refuse.
pub proof fn lemma_norm_free_of_refused_keywords(j: JsonV)
    ensures
        free_of_refused_keywords(norm(j)),
{
    lemma_norm_declaration_ready(j);
    lemma_ready_free_of_refused(norm(j));
}

} // verus!
