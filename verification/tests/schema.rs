use nelfie::schema::{to_gemini_schema, Json};

fn s(text: &str) -> Json {
    Json::Str(text.to_string())
}

fn obj(members: Vec<(&str, Json)>) -> Json {
    Json::Object(members.into_iter().map(|(k, v)| (k.to_string(), v)).collect())
}

fn member<'a>(value: &'a Json, key: &str) -> Option<&'a Json> {
    match value {
        Json::Object(members) => members.iter().find(|(k, _)| k == key).map(|(_, v)| v),
        _ => None,
    }
}

fn at<'a>(value: &'a Json, path: &[&str]) -> &'a Json {
    let mut cur = value;
    for key in path {
        cur = member(cur, key).expect("member present");
    }
    cur
}

#[test]
fn collapses_json_schema_type_arrays() {
    let normalized = to_gemini_schema(obj(vec![
        ("type", s("object")),
        (
            "properties",
            obj(vec![
                ("speaker", obj(vec![("type", Json::Array(vec![s("integer"), s("string"), s("null")]))])),
                ("voice_pan", obj(vec![("type", Json::Array(vec![s("number"), s("string"), s("null")]))])),
            ]),
        ),
    ]));

    assert_eq!(at(&normalized, &["properties", "speaker", "type"]), &s("integer"));
    assert_eq!(at(&normalized, &["properties", "voice_pan", "type"]), &s("number"));
}

#[test]
fn removes_keywords_not_supported_by_gemini_function_declarations() {
    let normalized = to_gemini_schema(obj(vec![
        ("type", s("object")),
        ("$schema", s("https://json-schema.org/draft/2020-12/schema")),
        ("additionalProperties", Json::Bool(false)),
        (
            "properties",
            obj(vec![(
                "value",
                obj(vec![
                    ("nullable", Json::Bool(true)),
                    ("oneOf", Json::Array(vec![obj(vec![("type", s("null"))]), obj(vec![("type", s("string"))])])),
                ]),
            )]),
        ),
    ]));

    assert!(member(&normalized, "$schema").is_none());
    assert!(member(&normalized, "additionalProperties").is_none());
    assert!(member(at(&normalized, &["properties", "value"]), "nullable").is_none());
    assert_eq!(at(&normalized, &["properties", "value", "type"]), &s("string"));
}

#[test]
fn null_type_becomes_string() {
    let normalized = to_gemini_schema(obj(vec![("type", s("null"))]));
    assert_eq!(normalized, obj(vec![("type", s("string"))]));
}

#[test]
fn type_list_of_only_null_becomes_string() {
    let normalized = to_gemini_schema(obj(vec![("type", Json::Array(vec![s("null"), Json::Bool(true)]))]));
    assert_eq!(normalized, obj(vec![("type", s("string"))]));
}

#[test]
fn any_of_lends_missing_members_only() {
    let normalized = to_gemini_schema(obj(vec![
        ("description", s("outer")),
        (
            "anyOf",
            Json::Array(vec![
                obj(vec![("type", Json::Array(vec![s("null")]))]),
                obj(vec![("type", s("integer")), ("description", s("inner")), ("minimum", Json::Number("0".to_string()))]),
            ]),
        ),
    ]));
    assert_eq!(
        normalized,
        obj(vec![
            ("description", s("outer")),
            ("type", s("integer")),
            ("minimum", Json::Number("0".to_string())),
        ])
    );
}

#[test]
fn all_of_merges_parts_first_part_wins() {
    let normalized = to_gemini_schema(obj(vec![(
        "allOf",
        Json::Array(vec![
            obj(vec![("type", s("object")), ("title", s("first"))]),
            obj(vec![("title", s("second")), ("required", Json::Array(vec![s("a")]))]),
            s("not an object"),
        ]),
    )]));
    assert_eq!(
        normalized,
        obj(vec![
            ("type", s("object")),
            ("title", s("first")),
            ("required", Json::Array(vec![s("a")])),
        ])
    );
}

#[test]
fn one_of_without_a_usable_variant_is_dropped() {
    let normalized = to_gemini_schema(obj(vec![
        ("type", s("string")),
        ("oneOf", Json::Array(vec![obj(vec![("type", s("null"))])])),
        ("anyOf", s("not a list")),
    ]));
    assert_eq!(normalized, obj(vec![("type", s("string"))]));
}

#[test]
fn arrays_and_scalars_are_rewritten_inside() {
    let normalized = to_gemini_schema(Json::Array(vec![
        obj(vec![("if", Json::Null), ("type", Json::Array(vec![s("null"), s("boolean")]))]),
        Json::Number("1.5".to_string()),
    ]));
    assert_eq!(
        normalized,
        Json::Array(vec![obj(vec![("type", s("boolean"))]), Json::Number("1.5".to_string())])
    );
}

#[test]
fn rewriting_twice_is_rewriting_once() {
    let schema = || {
        obj(vec![
            ("type", Json::Array(vec![s("object"), s("null")])),
            ("not", obj(vec![])),
            (
                "properties",
                obj(vec![(
                    "mode",
                    obj(vec![("anyOf", Json::Array(vec![obj(vec![("type", s("null"))]), obj(vec![("enum", Json::Array(vec![s("a")]))])]))]),
                )]),
            ),
        ])
    };
    let once = to_gemini_schema(schema());
    let again = to_gemini_schema(to_gemini_schema(schema()));
    assert_eq!(again, once);
    assert!(member(&once, "not").is_none());
    assert_eq!(member(&once, "type"), Some(&s("object")));
    assert!(member(at(&once, &["properties", "mode"]), "anyOf").is_none());
    assert_eq!(at(&once, &["properties", "mode", "enum"]), &Json::Array(vec![s("a")]));
}

fn has_combiner(value: &Json) -> bool {
    match value {
        Json::Object(members) => members.iter().any(|(k, v)| k == "oneOf" || k == "anyOf" || k == "allOf" || has_combiner(v)),
        Json::Array(items) => items.iter().any(has_combiner),
        _ => false,
    }
}

#[test]
fn combiners_are_removed_at_every_depth() {
    let nested = obj(vec![
        ("type", s("object")),
        (
            "properties",
            obj(vec![(
                "list",
                obj(vec![
                    ("type", s("array")),
                    ("items", obj(vec![("anyOf", Json::Array(vec![obj(vec![("type", s("null"))]), obj(vec![("type", s("integer"))])]))])),
                ]),
            ), (
                "both",
                obj(vec![("allOf", Json::Array(vec![obj(vec![("oneOf", Json::Array(vec![obj(vec![("type", s("string"))])]))])]))]),
            )]),
        ),
    ]);
    assert!(has_combiner(&nested));
    let normalized = to_gemini_schema(nested);
    assert!(!has_combiner(&normalized));
    assert_eq!(at(&normalized, &["properties", "list", "items", "type"]), &s("integer"));
}
