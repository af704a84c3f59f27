use jsl_codegen::codegen::go;
use jsl_codegen::codegen::java;
use jsl_codegen::codegen::java::JavaType;
use jsl_codegen::codegen::typescript;
use jsl_codegen::schema::{Form, Prim, Schema};

fn node(form: Form) -> Schema {
    Schema { definitions: Vec::new(), form, description: None }
}

fn doc(definitions: Vec<(String, Schema)>, form: Form) -> Schema {
    Schema { definitions, form, description: None }
}

fn prop(name: &str, form: Form) -> (String, Schema) {
    (name.to_owned(), node(form))
}

#[test]
fn go_enum_emits_type_and_constants() {
    let cg = go::Codegen { root_name: "Color".to_owned(), out_pkg: "colors".to_owned() };
    let schema = node(Form::Enum(vec!["RED".to_owned(), "GREEN".to_owned()]));
    let out = cg.transform(&schema);
    assert_eq!(out.len(), 3);
    let text = cg.serialize(&out);
    assert_eq!(
        text,
        "package colors\ntype Color string\nvar colorRED Color = \"RED\"\nvar colorGREEN Color = \"GREEN\"\n"
    );
}

#[test]
fn go_definitions_and_refs_resolve_by_name() {
    let cg = go::Codegen { root_name: "Root".to_owned(), out_pkg: "things".to_owned() };
    let schema = doc(
        vec![("thing".to_owned(), node(Form::Type(Prim::Str)))],
        Form::Elements(Box::new(node(Form::Ref("thing".to_owned())))),
    );
    let out = cg.transform(&schema);
    let text = cg.serialize(&out);
    assert_eq!(text, "package things\ntype Thing string\ntype Root []Thing\n");
}

#[test]
fn go_bare_primitive_root_still_gets_named_alias() {
    let cg = go::Codegen { root_name: "Age".to_owned(), out_pkg: "ages".to_owned() };
    let schema = node(Form::Type(Prim::Number));
    let out = cg.transform(&schema);
    assert_eq!(out.len(), 1);
    let text = cg.serialize(&out);
    assert_eq!(text, "package ages\ntype Age float64\n");
}

#[test]
fn go_discriminator_renders_two_pass_decode_and_tagged_encode() {
    let cg = go::Codegen { root_name: "Shape".to_owned(), out_pkg: "shapes".to_owned() };
    let circle = node(Form::Properties(
        vec![prop("radius", Form::Type(Prim::Number))],
        Vec::new(),
        true,
    ));
    let schema = node(Form::Discriminator(
        "type".to_owned(),
        vec![("circle".to_owned(), circle)],
    ));
    let out = cg.transform(&schema);
    let text = cg.serialize(&out);
    let expected = "package shapes\ntype ShapeCircle struct {\n\tRadius float64 `json:\"radius,omitempty\"`\n}\ntype Shape struct {\n\tType string `json:\"type,omitempty\"`\n\tVal interface{} `json:\"-,omitempty\"`\n}\nfunc (s *Shape) UnmarshalJSON(buf []byte) error {\n\tvar x struct{ Tag string `json:\"type\"` }\n\tif err := json.Unmarshal(buf, &x); err != nil {\n\t\treturn err\n\t}\n\tswitch x.Tag {\n\tcase \"circle\":\n\t\tvar data ShapeCircle\n\t\tif err := json.Unmarshal(buf, &data); err != nil {\n\t\t\treturn err\n\t\t}\n\t\ts.Val = data\n\t}\n\ts.Type = x.Tag\n\treturn nil\n}\nfunc (s Shape) MarshalJSON() ([]byte, error) {\n\tswitch val := s.Val.(type) {\n\tcase ShapeCircle:\n\t\tvar data struct{\n\t\t\tTag string `json:\"type\"`\n\t\t\tShapeCircle\n\t\t}\n\t\tdata.ShapeCircle = val\n\t\tdata.Tag = s.Type\n\t\treturn json.Marshal(data)\n\t}\n\tpanic(\"invalid discriminator tag\")\n}\n";
    assert_eq!(text, expected);
}

#[test]
fn go_output_is_deterministic_across_runs() {
    let cg = go::Codegen { root_name: "Root".to_owned(), out_pkg: "pkg".to_owned() };
    let make = || {
        doc(
            vec![("thing".to_owned(), node(Form::Type(Prim::Str)))],
            Form::Properties(
                vec![prop("a", Form::Ref("thing".to_owned()))],
                vec![prop("b", Form::Type(Prim::Boolean))],
                true,
            ),
        )
    };
    let first = cg.serialize(&cg.transform(&make()));
    let second = cg.serialize(&cg.transform(&make()));
    assert_eq!(first, second);
}

#[test]
fn go_path_to_identifier_pascal_cases_joined_path() {
    let path = vec!["user".to_owned(), "home".to_owned()];
    assert_eq!(go::Codegen::path_to_identifier(&path), "UserHome");
}

#[test]
fn ts_aggregate_keeps_required_and_optional_fields() {
    let cg = typescript::Codegen { root_name: "root".to_owned() };
    let schema = node(Form::Properties(
        vec![prop("a", Form::Type(Prim::Str))],
        vec![prop("b", Form::Type(Prim::Number))],
        true,
    ));
    let out = cg.transform(&schema);
    assert_eq!(out.len(), 1);
    let text = cg.serialize(&out);
    assert_eq!(text, "export interface Root {\n  a: string;\n  b?: number;\n}\n");
}

#[test]
fn ts_empty_root_object_yields_exactly_one_aggregate() {
    let cg = typescript::Codegen { root_name: "root".to_owned() };
    let schema = node(Form::Properties(Vec::new(), Vec::new(), true));
    let out = cg.transform(&schema);
    assert_eq!(out.len(), 1);
    let text = cg.serialize(&out);
    assert_eq!(text, "export interface Root {\n}\n");
}

#[test]
fn ts_enum_becomes_union_of_literals_with_alias() {
    let cg = typescript::Codegen { root_name: "color".to_owned() };
    let schema = node(Form::Enum(vec!["RED".to_owned(), "GREEN".to_owned()]));
    let out = cg.transform(&schema);
    let text = cg.serialize(&out);
    assert_eq!(text, "export type Color = \"RED\" | \"GREEN\";\n");
}

#[test]
fn ts_literal_values_are_escaped_when_quoted() {
    let cg = typescript::Codegen { root_name: "root".to_owned() };
    let schema = node(Form::Enum(vec!["A\"B".to_owned()]));
    let out = cg.transform(&schema);
    let text = cg.serialize(&out);
    assert_eq!(text, "export type Root = \"A\\\"B\";\n");
}

#[test]
fn ts_discriminator_cases_carry_literal_tag_fields() {
    let cg = typescript::Codegen { root_name: "shape".to_owned() };
    let circle = node(Form::Properties(
        vec![prop("radius", Form::Type(Prim::Number))],
        Vec::new(),
        true,
    ));
    let square = node(Form::Properties(
        vec![prop("side", Form::Type(Prim::Number))],
        Vec::new(),
        true,
    ));
    let schema = node(Form::Discriminator(
        "type".to_owned(),
        vec![("circle".to_owned(), circle), ("square".to_owned(), square)],
    ));
    let out = cg.transform(&schema);
    let text = cg.serialize(&out);
    let expected = "export interface ShapeCircle {\n  type: \"circle\";\n  radius: number;\n}\nexport interface ShapeSquare {\n  type: \"square\";\n  side: number;\n}\nexport type Shape = ShapeCircle | ShapeSquare;\n";
    assert_eq!(text, expected);
}

#[test]
fn java_class_fields_keep_required_then_optional_order() {
    let cg = java::Codegen {
        root_name: "Person".to_owned(),
        out_pkg: vec!["com".to_owned(), "example".to_owned()],
    };
    let schema = node(Form::Properties(
        vec![prop("name", Form::Type(Prim::Str))],
        vec![prop("age", Form::Type(Prim::Number))],
        true,
    ));
    let out = cg.transform(&schema);
    let files = cg.serialize(&out);
    assert_eq!(files.len(), 1);
    assert_eq!(files[0].0, "Person.java");
    assert_eq!(
        files[0].1,
        "package com.example;\n\npublic class Person {\n    public String name;\n    public double age;\n}\n"
    );
}

#[test]
fn java_enum_gets_its_own_file() {
    let cg = java::Codegen {
        root_name: "Kind".to_owned(),
        out_pkg: vec!["demo".to_owned()],
    };
    let schema = node(Form::Enum(vec!["A".to_owned(), "B".to_owned()]));
    let out = cg.transform(&schema);
    let files = cg.serialize(&out);
    assert_eq!(files.len(), 1);
    assert_eq!(files[0].0, "Kind.java");
    assert_eq!(files[0].1, "package demo;\n\npublic enum Kind {\n   A,\n   B,\n}\n");
}

#[test]
fn java_boxed_and_unboxed_spellings() {
    assert_eq!(JavaType::Boolean.unboxed(), "boolean");
    assert_eq!(JavaType::Boolean.boxed(), "Boolean");
    assert_eq!(JavaType::List(Box::new(JavaType::Double)).unboxed(), "List<Double>");
    assert_eq!(
        JavaType::Dict(Box::new(JavaType::List(Box::new(JavaType::Str)))).boxed(),
        "Map<String, List<String>>"
    );
    assert_eq!(JavaType::Timestamp.unboxed(), "Instant");
}

#[test]
fn go_empty_form_root_gets_untyped_alias() {
    let cg = go::Codegen { root_name: "Thing".to_owned(), out_pkg: "p".to_owned() };
    let schema = node(Form::Empty);
    let out = cg.transform(&schema);
    let text = cg.serialize(&out);
    assert_eq!(text, "package p\ntype Thing interface{}\n");
}

#[test]
fn ts_map_form_root_gets_named_alias() {
    let cg = typescript::Codegen { root_name: "root".to_owned() };
    let schema = node(Form::Values(Box::new(node(Form::Type(Prim::Str)))));
    let out = cg.transform(&schema);
    let text = cg.serialize(&out);
    assert_eq!(text, "export type Root = { [name: string]: string };\n");
}

#[test]
fn go_timestamp_renders_as_time_type() {
    let cg = go::Codegen { root_name: "When".to_owned(), out_pkg: "p".to_owned() };
    let schema = node(Form::Type(Prim::Timestamp));
    let out = cg.transform(&schema);
    let text = cg.serialize(&out);
    assert_eq!(text, "package p\ntype When time.Time\n");
}

#[test]
fn go_nested_object_is_hoisted_before_its_parent() {
    let cg = go::Codegen { root_name: "Root".to_owned(), out_pkg: "p".to_owned() };
    let inner = node(Form::Properties(
        vec![prop("b", Form::Type(Prim::Str))],
        Vec::new(),
        true,
    ));
    let schema = node(Form::Properties(
        vec![("a".to_owned(), inner)],
        Vec::new(),
        true,
    ));
    let out = cg.transform(&schema);
    let text = cg.serialize(&out);
    assert_eq!(
        text,
        "package p\ntype RootA struct {\n\tB string `json:\"b,omitempty\"`\n}\ntype Root struct {\n\tA RootA `json:\"a,omitempty\"`\n}\n"
    );
}

#[test]
fn java_discriminator_falls_back_to_object() {
    let cg = java::Codegen {
        root_name: "Event".to_owned(),
        out_pkg: vec!["demo".to_owned()],
    };
    let case = node(Form::Properties(Vec::new(), Vec::new(), true));
    let schema = node(Form::Properties(
        vec![(
            "payload".to_owned(),
            node(Form::Discriminator("type".to_owned(), vec![("x".to_owned(), case)])),
        )],
        Vec::new(),
        true,
    ));
    let out = cg.transform(&schema);
    let files = cg.serialize(&out);
    assert_eq!(files.len(), 1);
    assert_eq!(
        files[0].1,
        "package demo;\n\npublic class Event {\n    public Object payload;\n}\n"
    );
}
