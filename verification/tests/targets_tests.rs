use jsl_codegen::schema::{Form, Prim, Schema};
use jsl_codegen::targets::java as java_target;
use jsl_codegen::targets::typescript as ts_target;

fn node(form: Form) -> Schema {
    Schema { definitions: Vec::new(), form, description: None }
}

fn described(form: Form, text: &str) -> Schema {
    Schema { definitions: Vec::new(), form, description: Some(text.to_owned()) }
}

fn prop(name: &str, form: Form) -> (String, Schema) {
    (name.to_owned(), node(form))
}

#[test]
fn ts_target_renders_interface_with_description_comments() {
    let schema = described(
        Form::Properties(vec![prop("id", Form::Type(Prim::Str))], Vec::new(), true),
        "The thing.\nIt is good.",
    );
    let mut out = String::new();
    ts_target::render(&mut out, "widget", &schema);
    assert_eq!(out, "// The thing.\n// It is good.\nexport interface Widget {\n  id: string;\n}\nexport default Widget;\n");
}

#[test]
fn ts_target_aliases_definitions_without_own_declarations() {
    let schema = Schema {
        definitions: vec![(
            "color".to_owned(),
            node(Form::Enum(vec!["RED".to_owned(), "GREEN".to_owned()])),
        )],
        form: Form::Ref("color".to_owned()),
        description: None,
    };
    let mut out = String::new();
    ts_target::render(&mut out, "paint", &schema);
    assert_eq!(out, "export type Color = \"RED\" | \"GREEN\";\nexport default Color;\n");
}

#[test]
fn ts_target_discriminator_union_of_case_interfaces() {
    let circle = node(Form::Properties(
        vec![prop("radius", Form::Type(Prim::Number))],
        Vec::new(),
        true,
    ));
    let schema = node(Form::Discriminator(
        "type".to_owned(),
        vec![("circle".to_owned(), circle)],
    ));
    let mut out = String::new();
    ts_target::render(&mut out, "shape", &schema);
    assert_eq!(out, "export interface ShapeCircle {\n  type: \"circle\";\n  radius: number;\n}\nexport type Shape = ShapeCircle;\nexport default Shape;\n");
}

#[test]
fn ts_target_field_descriptions_become_field_comments() {
    let schema = node(Form::Properties(
        vec![("id".to_owned(), described(Form::Type(Prim::Str), "Unique."))],
        Vec::new(),
        true,
    ));
    let mut out = String::new();
    ts_target::render(&mut out, "item", &schema);
    assert_eq!(out, "export interface Item {\n  // Unique.\n  id: string;\n}\nexport default Item;\n");
}

#[test]
fn ts_target_path_to_identifier_class_cases_joined_path() {
    let path = vec!["user_profile".to_owned()];
    assert_eq!(ts_target::path_to_identifier(&path), "UserProfile");
}

#[test]
fn java_target_renders_class_with_resolved_refs() {
    let schema = Schema {
        definitions: vec![("name".to_owned(), node(Form::Type(Prim::Str)))],
        form: Form::Properties(
            vec![prop("first", Form::Ref("name".to_owned()))],
            vec![prop("nick", Form::Type(Prim::Str))],
            true,
        ),
        description: None,
    };
    let mut out = String::new();
    java_target::render_document(&mut out, "person", &schema);
    assert_eq!(out, "public class Person {\n    @NotNull\n    private String first;\n    private String nick;\n}\n");
}

#[test]
fn java_target_inline_forms_render_as_type_expressions() {
    let schema = node(Form::Properties(
        vec![
            prop("tags", Form::Elements(Box::new(node(Form::Type(Prim::Str))))),
            prop("scores", Form::Values(Box::new(node(Form::Type(Prim::Number))))),
        ],
        Vec::new(),
        true,
    ));
    let mut out = String::new();
    java_target::render_document(&mut out, "bag", &schema);
    assert_eq!(out, "public class Bag {\n    @NotNull\n    private List<String> tags;\n    @NotNull\n    private Map<String, double> scores;\n}\n");
}

#[test]
fn java_target_path_to_identifier_class_cases_joined_path() {
    let path = vec!["user".to_owned(), "home".to_owned()];
    assert_eq!(java_target::path_to_identifier(&path), "UserHome");
}
