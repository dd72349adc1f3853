//! The vocabulary in which the tools describe their parameters to the
//! language model: an object schema whose properties each carry a type and a
//! description, some of them a list of the values allowed.
use vstd::prelude::*;
use crate::schema::{
    Json, JsonV, items_view, members_view, lemma_items_view, lemma_members_view, norm, declaration_ready,
    to_gemini_schema,
};

verus! {

/// The JSON strings for a list of texts, in order.
pub open spec fn str_items(s: Seq<Seq<char>>) -> Seq<JsonV> {
    s.map_values(|x: Seq<char>| JsonV::Str(x))
}

/// `{"type": ty, "description": desc}`.
pub open spec fn typed_view(ty: JsonV, desc: Seq<char>) -> JsonV {
    JsonV::Object(seq![("type"@, ty), ("description"@, JsonV::Str(desc))])
}

/// A property of the single type `ty`.
pub open spec fn property_view(ty: Seq<char>, desc: Seq<char>) -> JsonV {
    typed_view(JsonV::Str(ty), desc)
}

/// A property whose type may be any of `types`.
pub open spec fn union_property_view(types: Seq<Seq<char>>, desc: Seq<char>) -> JsonV {
    typed_view(JsonV::Array(str_items(types)), desc)
}

/// A string property limited to `values`:
/// `{"type": "string", "description": desc, "enum": values}`.
pub open spec fn enum_property_view(desc: Seq<char>, values: Seq<Seq<char>>) -> JsonV {
    JsonV::Object(
        seq![
            ("type"@, JsonV::Str("string"@)),
            ("description"@, JsonV::Str(desc)),
            ("enum"@, JsonV::Array(str_items(values))),
        ],
    )
}

/// An array property whose items follow `items`:
/// `{"type": "array", "description": desc, "items": items}`.
pub open spec fn array_property_view(desc: Seq<char>, items: JsonV) -> JsonV {
    JsonV::Object(
        seq![
            ("type"@, JsonV::Str("array"@)),
            ("description"@, JsonV::Str(desc)),
            ("items"@, items),
        ],
    )
}

/// `{"type": "object", "properties": {..}, "required": [..]}`.
pub open spec fn object_schema_view(props: Seq<(Seq<char>, JsonV)>, required: Seq<Seq<char>>) -> JsonV {
    JsonV::Object(
        seq![
            ("type"@, JsonV::Str("object"@)),
            ("properties"@, JsonV::Object(props)),
            ("required"@, JsonV::Array(str_items(required))),
        ],
    )
}

/// The value under `key` in an object's members, the first such.
pub open spec fn member_of(ms: Seq<(Seq<char>, JsonV)>, key: Seq<char>) -> Option<JsonV>
    decreases ms.len(),
{
    if ms.len() == 0 {
        None
    } else if ms[0].0 == key {
        Some(ms[0].1)
    } else {
        member_of(ms.drop_first(), key)
    }
}

/// The schema of the property `name` of an object schema.
pub open spec fn schema_property(schema: JsonV, name: Seq<char>) -> Option<JsonV> {
    match schema {
        JsonV::Object(ms) => match member_of(ms, "properties"@) {
            Some(JsonV::Object(ps)) => member_of(ps, name),
            _ => None,
        },
        _ => None,
    }
}

/// The texts listed under `enum` in a property's schema.
pub open spec fn enum_values(prop: Option<JsonV>) -> Seq<JsonV> {
    match prop {
        Some(JsonV::Object(ms)) => match member_of(ms, "enum"@) {
            Some(JsonV::Array(vs)) => vs,
            _ => Seq::empty(),
        },
        _ => Seq::empty(),
    }
}

/// An object's members, none yet.
pub fn new_members() -> (r: Vec<(String, Json)>)
    ensures
        members_view(r@) == Seq::<(Seq<char>, JsonV)>::empty(),
{
    let r: Vec<(String, Json)> = Vec::new();
    assert(members_view(r@) =~= Seq::<(Seq<char>, JsonV)>::empty());
    r
}

/// The object with the members `ms`.
pub fn object(ms: Vec<(String, Json)>) -> (r: Json)
    ensures
        r@ == JsonV::Object(members_view(ms@)),
{
    let r = Json::Object(ms);
    assert(r@ == JsonV::Object(members_view(ms@)));
    r
}

/// The array of `items`.
pub fn array(items: Vec<Json>) -> (r: Json)
    ensures
        r@ == JsonV::Array(items_view(items@)),
{
    let r = Json::Array(items);
    assert(r@ == JsonV::Array(items_view(items@)));
    r
}

/// The property `name` of an object schema is the first member of that name
/// among its properties.
pub proof fn lemma_object_schema_property(
    props: Seq<(Seq<char>, JsonV)>,
    required: Seq<Seq<char>>,
    name: Seq<char>,
)
    ensures
        schema_property(object_schema_view(props, required), name) == member_of(props, name),
{
    reveal_strlit("type");
    reveal_strlit("properties");
    let top = seq![
        ("type"@, JsonV::Str("object"@)),
        ("properties"@, JsonV::Object(props)),
        ("required"@, JsonV::Array(str_items(required))),
    ];
    assert(top.drop_first() =~= seq![top[1], top[2]]);
    assert("type"@.len() != "properties"@.len());
    assert(member_of(top, "properties"@) == member_of(top.drop_first(), "properties"@));
}

/// Looking a name up skips the leading members of other names.
pub proof fn lemma_member_of_skip(ms: Seq<(Seq<char>, JsonV)>, key: Seq<char>, n: int)
    requires
        0 <= n <= ms.len(),
        forall|i: int| 0 <= i < n ==> ms[i].0 != key,
    ensures
        member_of(ms, key) == member_of(ms.subrange(n, ms.len() as int), key),
    decreases n,
{
    if n == 0 {
        assert(ms.subrange(0, ms.len() as int) =~= ms);
    } else {
        let rest = ms.drop_first();
        assert forall|i: int| 0 <= i < n - 1 implies rest[i].0 != key by {
            assert(rest[i] == ms[i + 1]);
        }
        lemma_member_of_skip(rest, key, n - 1);
        assert(rest.subrange(n - 1, rest.len() as int) =~= ms.subrange(n, ms.len() as int));
    }
}

/// The values an enumerated property allows.
pub proof fn lemma_enum_property_values(desc: Seq<char>, values: Seq<Seq<char>>)
    ensures
        enum_values(Some(enum_property_view(desc, values))) == str_items(values),
{
    reveal_strlit("type");
    reveal_strlit("description");
    reveal_strlit("enum");
    let ms = seq![
        ("type"@, JsonV::Str("string"@)),
        ("description"@, JsonV::Str(desc)),
        ("enum"@, JsonV::Array(str_items(values))),
    ];
    assert(ms.drop_first() =~= seq![ms[1], ms[2]]);
    assert(ms.drop_first().drop_first() =~= seq![ms[2]]);
    assert("type"@[0] != "enum"@[0]);
    assert("description"@.len() != "enum"@.len());
    assert(member_of(ms, "enum"@) == member_of(ms.drop_first(), "enum"@));
    assert(member_of(ms.drop_first(), "enum"@) == member_of(ms.drop_first().drop_first(), "enum"@));
}

/// A text is among the JSON strings of a list exactly when it is in the list.
pub proof fn lemma_str_items_contains(s: Seq<Seq<char>>, x: Seq<char>)
    ensures
        str_items(s).contains(JsonV::Str(x)) <==> s.contains(x),
{
    if s.contains(x) {
        let i = choose|i: int| 0 <= i < s.len() && s[i] == x;
        assert(str_items(s)[i] == JsonV::Str(x));
    }
    if str_items(s).contains(JsonV::Str(x)) {
        let i = choose|i: int| 0 <= i < str_items(s).len() && str_items(s)[i] == JsonV::Str(x);
        assert(s[i] == x);
    }
}

/// The schema of the items of an array property.
pub open spec fn array_items(prop: Option<JsonV>) -> Option<JsonV> {
    match prop {
        Some(JsonV::Object(ms)) => member_of(ms, "items"@),
        _ => None,
    }
}

/// The items of an array property follow the schema it was given.
pub proof fn lemma_array_property_items(desc: Seq<char>, items: JsonV)
    ensures
        array_items(Some(array_property_view(desc, items))) == Some(items),
{
    reveal_strlit("type");
    reveal_strlit("description");
    reveal_strlit("items");
    let ms = seq![
        ("type"@, JsonV::Str("array"@)),
        ("description"@, JsonV::Str(desc)),
        ("items"@, items),
    ];
    assert(ms.drop_first() =~= seq![ms[1], ms[2]]);
    assert(ms.drop_first().drop_first() =~= seq![ms[2]]);
    assert("type"@.len() != "items"@.len());
    assert("description"@.len() != "items"@.len());
    assert(member_of(ms, "items"@) == member_of(ms.drop_first(), "items"@));
    assert(member_of(ms.drop_first(), "items"@) == member_of(ms.drop_first().drop_first(), "items"@));
}

/// A JSON string.
pub fn json_str(s: &str) -> (r: Json)
    ensures
        r@ == JsonV::Str(s@),
{
    Json::Str(String::from_str(s))
}

/// Appends the string `s` to a list of items.
pub fn push_str_item(items: &mut Vec<Json>, s: &str)
    ensures
        items_view(final(items)@) == items_view(old(items)@).push(JsonV::Str(s@)),
{
    let ghost before = items@;
    items.push(json_str(s));
    proof {
        lemma_items_view(before);
        lemma_items_view(items@);
        assert(items_view(items@) =~= items_view(before).push(JsonV::Str(s@)));
    }
}

/// Appends `x` to a list of items.
pub fn push_item(items: &mut Vec<Json>, x: Json)
    ensures
        items_view(final(items)@) == items_view(old(items)@).push(x@),
{
    let ghost before = items@;
    let ghost v = x@;
    items.push(x);
    proof {
        lemma_items_view(before);
        lemma_items_view(items@);
        assert(items_view(items@) =~= items_view(before).push(v));
    }
}

/// Appends the member `key: value` to an object's members.
pub fn push_member(members: &mut Vec<(String, Json)>, key: &str, value: Json)
    ensures
        members_view(final(members)@) == members_view(old(members)@).push((key@, value@)),
{
    let ghost before = members@;
    let ghost v = value@;
    members.push((String::from_str(key), value));
    proof {
        lemma_members_view(before);
        lemma_members_view(members@);
        assert(members_view(members@) =~= members_view(before).push((key@, v)));
    }
}

/// The JSON strings for `values`, in order.
pub fn str_array(values: &Vec<&str>) -> (r: Vec<Json>)
    ensures
        items_view(r@) == str_items(values@.map_values(|s: &str| s@)),
{
    let mut out: Vec<Json> = Vec::new();
    let mut i: usize = 0;
    while i < values.len()
        invariant
            0 <= i <= values.len(),
            items_view(out@) == str_items(values@.subrange(0, i as int).map_values(|s: &str| s@)),
        decreases values.len() - i,
    {
        push_str_item(&mut out, values[i]);
        assert(values@.subrange(0, i + 1) =~= values@.subrange(0, i as int).push(values@[i as int]));
        assert(str_items(values@.subrange(0, i + 1).map_values(|s: &str| s@)) =~= str_items(
            values@.subrange(0, i as int).map_values(|s: &str| s@),
        ).push(JsonV::Str(values@[i as int]@)));
        i = i + 1;
    }
    assert(values@.subrange(0, values.len() as int) =~= values@);
    out
}

/// `{"type": ty, "description": desc}` for a single type.
pub fn property(ty: &str, desc: &str) -> (r: Json)
    ensures
        r@ == property_view(ty@, desc@),
{
    let mut ms = new_members();
    push_member(&mut ms, "type", json_str(ty));
    push_member(&mut ms, "description", json_str(desc));
    assert(members_view(ms@) =~= seq![("type"@, JsonV::Str(ty@)), ("description"@, JsonV::Str(desc@))]);
    object(ms)
}

/// `{"type": [types..], "description": desc}`.
pub fn union_property(types: &Vec<&str>, desc: &str) -> (r: Json)
    ensures
        r@ == union_property_view(types@.map_values(|s: &str| s@), desc@),
{
    let mut ms = new_members();
    push_member(&mut ms, "type", array(str_array(types)));
    push_member(&mut ms, "description", json_str(desc));
    assert(members_view(ms@) =~= seq![
        ("type"@, JsonV::Array(str_items(types@.map_values(|s: &str| s@)))),
        ("description"@, JsonV::Str(desc@)),
    ]);
    object(ms)
}

/// A string property limited to `values`.
pub fn enum_property(desc: &str, values: &Vec<&str>) -> (r: Json)
    ensures
        r@ == enum_property_view(desc@, values@.map_values(|s: &str| s@)),
{
    let mut ms = new_members();
    push_member(&mut ms, "type", json_str("string"));
    push_member(&mut ms, "description", json_str(desc));
    push_member(&mut ms, "enum", array(str_array(values)));
    assert(members_view(ms@) =~= seq![
        ("type"@, JsonV::Str("string"@)),
        ("description"@, JsonV::Str(desc@)),
        ("enum"@, JsonV::Array(str_items(values@.map_values(|s: &str| s@)))),
    ]);
    object(ms)
}

/// An array property whose items follow `items`.
pub fn array_property(desc: &str, items: Json) -> (r: Json)
    ensures
        r@ == array_property_view(desc@, items@),
{
    let ghost iv = items@;
    let mut ms = new_members();
    push_member(&mut ms, "type", json_str("array"));
    push_member(&mut ms, "description", json_str(desc));
    push_member(&mut ms, "items", items);
    assert(members_view(ms@) =~= seq![
        ("type"@, JsonV::Str("array"@)),
        ("description"@, JsonV::Str(desc@)),
        ("items"@, iv),
    ]);
    object(ms)
}

/// An object schema with the given properties and required names.
pub fn object_schema(props: Vec<(String, Json)>, required: &Vec<&str>) -> (r: Json)
    ensures
        r@ == object_schema_view(members_view(props@), required@.map_values(|s: &str| s@)),
{
    let ghost pv = members_view(props@);
    let mut ms = new_members();
    push_member(&mut ms, "type", json_str("object"));
    push_member(&mut ms, "properties", object(props));
    push_member(&mut ms, "required", array(str_array(required)));
    assert(members_view(ms@) =~= seq![
        ("type"@, JsonV::Str("object"@)),
        ("properties"@, JsonV::Object(pv)),
        ("required"@, JsonV::Array(str_items(required@.map_values(|s: &str| s@)))),
    ]);
    object(ms)
}


/// What the model is told of a tool: its name, what it does, and the schema
/// of its parameters.
pub struct FunctionDeclaration {
    pub name: String,
    pub description: String,
    pub parameters: Json,
}

/// The plain values of a declaration.
pub open spec fn declaration_view(d: FunctionDeclaration) -> (Seq<char>, Seq<char>, JsonV) {
    (d.name@, d.description@, d.parameters@)
}

/// A function declaration of a Gemini request, its parameters rewritten
/// for Gemini.
pub open spec fn gemini_declaration_view(d: (Seq<char>, Seq<char>, JsonV)) -> JsonV {
    JsonV::Object(
        seq![
            ("name"@, JsonV::Str(d.0)),
            ("description"@, JsonV::Str(d.1)),
            ("parameters"@, norm(d.2)),
        ],
    )
}

/// The `tools` of a Gemini request: the function declarations, when there
/// are any, then Google Search, when it is enabled; nothing when neither.
pub open spec fn gemini_tools_view(decls: Seq<(Seq<char>, Seq<char>, JsonV)>, google_search: bool) -> Option<JsonV> {
    let functions = if decls.len() > 0 {
        seq![
            JsonV::Object(
                seq![
                    (
                        "functionDeclarations"@,
                        JsonV::Array(decls.map_values(|d: (Seq<char>, Seq<char>, JsonV)| gemini_declaration_view(d))),
                    ),
                ],
            ),
        ]
    } else {
        Seq::<JsonV>::empty()
    };
    let tools = if google_search {
        functions.push(JsonV::Object(seq![("googleSearch"@, JsonV::Object(Seq::empty()))]))
    } else {
        functions
    };
    if tools.len() > 0 {
        Some(JsonV::Array(tools))
    } else {
        None
    }
}

/// The `tools` of a Gemini request for these declarations. Every schema it
/// carries is one Gemini takes: no keyword it refuses, no list or `null` as
/// a type.
pub fn gemini_tools(decls: Vec<FunctionDeclaration>, google_search: bool) -> (r: Option<Json>)
    ensures
        match r {
            Some(j) => gemini_tools_view(decls@.map_values(|d: FunctionDeclaration| declaration_view(d)), google_search) == Some(j@),
            None => gemini_tools_view(decls@.map_values(|d: FunctionDeclaration| declaration_view(d)), google_search) is None,
        },
        forall|i: int| 0 <= i < decls@.len() ==> declaration_ready(#[trigger] norm(decls@[i].parameters@)),
{
    let ghost dv = decls@.map_values(|d: FunctionDeclaration| declaration_view(d));
    let n = decls.len();
    let mut items: Vec<Json> = Vec::new();
    assert(items_view(items@) =~= Seq::<JsonV>::empty());
    proof {
        assert forall|k: int| 0 <= k < decls@.len() implies declaration_ready(
            #[trigger] norm(decls@[k].parameters@),
        ) by {
            crate::schema::lemma_norm_declaration_ready(decls@[k].parameters@);
        }
    }
    let mut rest = decls;
    let mut i: usize = 0;
    while rest.len() > 0
        invariant
            i + rest@.len() == n,
            n == dv.len(),
            forall|k: int| 0 <= k < rest@.len() ==> declaration_view(#[trigger] rest@[k]) == dv[i + k],
            items_view(items@) == dv.subrange(0, i as int).map_values(
                |d: (Seq<char>, Seq<char>, JsonV)| gemini_declaration_view(d),
            ),
        decreases rest@.len(),
    {
        let d = rest.remove(0);
        let ghost dd = declaration_view(d);
        assert(dd == dv[i as int]);
        let mut ms = new_members();
        push_member(&mut ms, "name", Json::Str(d.name));
        push_member(&mut ms, "description", Json::Str(d.description));
        push_member(&mut ms, "parameters", to_gemini_schema(d.parameters));
        assert(members_view(ms@) =~= seq![
            ("name"@, JsonV::Str(dd.0)),
            ("description"@, JsonV::Str(dd.1)),
            ("parameters"@, norm(dd.2)),
        ]);
        push_item(&mut items, object(ms));
        proof {
            assert(dv.subrange(0, i + 1).map_values(|d: (Seq<char>, Seq<char>, JsonV)| gemini_declaration_view(d))
                =~= dv.subrange(0, i as int).map_values(|d: (Seq<char>, Seq<char>, JsonV)| gemini_declaration_view(d)).push(
                gemini_declaration_view(dd),
            ));
        }
        i = i + 1;
    }
    assert(dv.subrange(0, n as int) =~= dv);
    let ghost fv = items_view(items@);
    let mut tools: Vec<Json> = Vec::new();
    assert(items_view(tools@) =~= Seq::<JsonV>::empty());
    if n > 0 {
        let mut ms = new_members();
        push_member(&mut ms, "functionDeclarations", array(items));
        assert(members_view(ms@) =~= seq![("functionDeclarations"@, JsonV::Array(fv))]);
        push_item(&mut tools, object(ms));
    }
    if google_search {
        let mut ms = new_members();
        push_member(&mut ms, "googleSearch", object(new_members()));
        assert(members_view(ms@) =~= seq![("googleSearch"@, JsonV::Object(Seq::empty()))]);
        push_item(&mut tools, object(ms));
    }
    if tools.len() > 0 {
        Some(array(tools))
    } else {
        None
    }
}

} // verus!
