use jsl_codegen::union::{decode_union, Json, UnionHolder};

fn obj(fields: Vec<(&str, Json)>) -> Vec<(String, Json)> {
    fields.into_iter().map(|(k, v)| (k.to_owned(), v)).collect()
}

#[test]
fn union_encode_emits_flat_object_with_tag_first() {
    let holder = UnionHolder {
        tag: "circle".to_owned(),
        fields: obj(vec![("radius", Json::Number("5.0".to_owned()))]),
    };
    let wire = holder.encode(&"type".to_owned());
    assert_eq!(
        wire,
        obj(vec![
            ("type", Json::Str("circle".to_owned())),
            ("radius", Json::Number("5.0".to_owned())),
        ])
    );
}

#[test]
fn union_round_trip_reproduces_holder() {
    let holder = UnionHolder {
        tag: "circle".to_owned(),
        fields: obj(vec![
            ("radius", Json::Number("5.0".to_owned())),
            ("label", Json::Str("big".to_owned())),
        ]),
    };
    let expected = UnionHolder {
        tag: "circle".to_owned(),
        fields: obj(vec![
            ("radius", Json::Number("5.0".to_owned())),
            ("label", Json::Str("big".to_owned())),
        ]),
    };
    let wire = holder.encode(&"type".to_owned());
    let back = decode_union(&"type".to_owned(), wire);
    assert_eq!(back, Some(expected));
}

#[test]
fn union_decode_without_tag_field_yields_nothing() {
    let wire = obj(vec![("radius", Json::Number("5.0".to_owned()))]);
    assert_eq!(decode_union(&"type".to_owned(), wire), None);
}

#[test]
fn union_decode_with_non_string_tag_yields_nothing() {
    let wire = obj(vec![("type", Json::Null)]);
    assert_eq!(decode_union(&"type".to_owned(), wire), None);
}

#[test]
fn union_decode_keeps_remaining_fields_in_order() {
    let wire = obj(vec![
        ("a", Json::Bool(true)),
        ("kind", Json::Str("x".to_owned())),
        ("b", Json::Null),
    ]);
    let back = decode_union(&"kind".to_owned(), wire).unwrap();
    assert_eq!(back.tag, "x");
    assert_eq!(back.fields, obj(vec![("a", Json::Bool(true)), ("b", Json::Null)]));
}

#[test]
fn union_round_trip_with_no_variant_fields() {
    let holder = UnionHolder { tag: "empty".to_owned(), fields: Vec::new() };
    let expected = UnionHolder { tag: "empty".to_owned(), fields: Vec::new() };
    let wire = holder.encode(&"type".to_owned());
    assert_eq!(wire, obj(vec![("type", Json::Str("empty".to_owned()))]));
    assert_eq!(decode_union(&"type".to_owned(), wire), Some(expected));
}
