//! The Go target. The transformer walks the schema depth-first, hoisting a
//! named declaration for every enum, object and discriminated union it
//! meets, and coercing each definition and the document root into a named
//! top-level declaration. The emitter renders the declarations to one Go
//! source unit; for a discriminated union it also renders the two-pass
//! decode and the tag-dispatched encode described by the union protocol.

use vstd::prelude::*;

use crate::ident::{camel_case, camel_of, class_case, class_of, lemma_path_view_drop,
    lemma_path_view_len, lemma_path_view_push, pascal_case, pascal_ident_spec, pascal_of,
    pascal_identifier, path_view};
use crate::text::{quote, quote_spec};
use crate::schema::{definition_names, lemma_pairs_view_points, lemma_wf_pairs_index, pairs_view,
    schema_refs, wf_form, wf_pairs, wf_schema, Form, FormV, Prim, Schema, SchemaV};

verus! {

/// The Go code generator: the name given to the document root, and the Go
/// package the output belongs to.
pub struct Codegen {
    pub root_name: String,
    pub out_pkg: String,
}

/// A Go declaration or type expression.
#[derive(Debug)]
pub enum Ast {
    Any,
    Boolean,
    Number,
    Str,
    Time,
    /// A string literal.
    Literal(String),
    /// An identifier.
    Identifier(String),
    /// An array with elements of some type.
    Array(Box<Ast>),
    /// A map from strings to some type.
    Dict(Box<Ast>),
    /// A type declaration.
    Type(String, Box<Ast>),
    /// A var declaration: name, type, value.
    Var(String, Box<Ast>, Box<Ast>),
    /// A struct with a name and properties. A present third argument makes
    /// the struct a discriminated union holder: the wire name of the tag
    /// field, and the mapping from tag values to variant type identifiers;
    /// its JSON encode and decode are then rendered by hand.
    Struct(String, Vec<Property>, Option<(String, Vec<(String, Ast)>)>),
}

/// A struct field: its Go name, its wire name, and its type.
#[derive(Debug)]
pub struct Property {
    pub name: String,
    pub json_name: String,
    pub value: Ast,
}

/// Mathematical model of a Go AST node.
pub enum AstV {
    Any,
    Boolean,
    Number,
    Str,
    Time,
    Literal(Seq<char>),
    Identifier(Seq<char>),
    Array(Box<AstV>),
    Dict(Box<AstV>),
    Type(Seq<char>, Box<AstV>),
    Var(Seq<char>, Box<AstV>, Box<AstV>),
    Struct(Seq<char>, Seq<PropertyV>, Option<(Seq<char>, Seq<(Seq<char>, AstV)>)>),
}

/// Mathematical model of a struct field.
pub struct PropertyV {
    pub name: Seq<char>,
    pub json_name: Seq<char>,
    pub value: AstV,
}

pub open spec fn props_view(ps: Seq<Property>) -> Seq<PropertyV>
    decreases ps,
{
    if ps.len() == 0 {
        Seq::empty()
    } else {
        props_view(ps.drop_last()).push(prop_view(ps.last()))
    }
}

pub open spec fn prop_view(p: Property) -> PropertyV
    decreases p,
{
    PropertyV { name: p.name@, json_name: p.json_name@, value: ast_view(p.value) }
}

pub open spec fn union_cases_view(cs: Seq<(String, Ast)>) -> Seq<(Seq<char>, AstV)>
    decreases cs,
{
    if cs.len() == 0 {
        Seq::empty()
    } else {
        union_cases_view(cs.drop_last()).push((cs.last().0@, ast_view(cs.last().1)))
    }
}

pub open spec fn ast_view(a: Ast) -> AstV
    decreases a,
{
    match a {
        Ast::Any => AstV::Any,
        Ast::Boolean => AstV::Boolean,
        Ast::Number => AstV::Number,
        Ast::Str => AstV::Str,
        Ast::Time => AstV::Time,
        Ast::Literal(s) => AstV::Literal(s@),
        Ast::Identifier(s) => AstV::Identifier(s@),
        Ast::Array(sub) => AstV::Array(Box::new(ast_view(*sub))),
        Ast::Dict(sub) => AstV::Dict(Box::new(ast_view(*sub))),
        Ast::Type(id, sub) => AstV::Type(id@, Box::new(ast_view(*sub))),
        Ast::Var(id, typ, val) => AstV::Var(id@, Box::new(ast_view(*typ)), Box::new(ast_view(*val))),
        Ast::Struct(id, props, json) => AstV::Struct(
            id@,
            props_view(props@),
            match json {
                Option::Some(j) => Option::Some((j.0@, union_cases_view(j.1@))),
                Option::None => Option::None,
            },
        ),
    }
}

impl View for Ast {
    type V = AstV;

    open spec fn view(&self) -> AstV {
        ast_view(*self)
    }
}

impl View for Property {
    type V = PropertyV;

    open spec fn view(&self) -> PropertyV {
        prop_view(*self)
    }
}

/// The views of a declaration list, in order.
pub open spec fn asts_view(s: Seq<Ast>) -> Seq<AstV> {
    s.map_values(|a: Ast| ast_view(a))
}

/// The inline expression of a primitive type.
pub open spec fn prim_spec(p: Prim) -> AstV {
    match p {
        Prim::Boolean => AstV::Boolean,
        Prim::Number => AstV::Number,
        Prim::Str => AstV::Str,
        Prim::Timestamp => AstV::Time,
    }
}

/// The var declarations of an enum: one addressable constant per value,
/// each referencing the enum type.
pub open spec fn enum_vars_spec(vals: Seq<Seq<char>>, id: Seq<char>) -> Seq<AstV>
    decreases vals,
{
    if vals.len() == 0 {
        Seq::empty()
    } else {
        enum_vars_spec(vals.drop_last(), id).push(
            AstV::Var(
                camel_of(id + "_"@ + vals.last()),
                Box::new(AstV::Identifier(id)),
                Box::new(AstV::Literal(vals.last())),
            ),
        )
    }
}

/// What transforming one node at a path yields: the declarations hoisted to
/// the output, and the inline expression handed to the parent.
pub open spec fn transform_spec(s: SchemaV, path: Seq<Seq<char>>) -> (Seq<AstV>, AstV)
    decreases s,
{
    match s.form {
        FormV::Empty => (Seq::empty(), AstV::Any),
        FormV::Ref(def) => (Seq::empty(), AstV::Identifier(pascal_ident_spec(seq![def]))),
        FormV::Type(p) => (Seq::empty(), prim_spec(p)),
        FormV::Enum(vals) => {
            let id = pascal_ident_spec(path);
            (
                seq![AstV::Type(id, Box::new(AstV::Str))] + enum_vars_spec(vals, id),
                AstV::Identifier(id),
            )
        },
        FormV::Elements(sub) => {
            let r = transform_spec(*sub, path);
            (r.0, AstV::Array(Box::new(r.1)))
        },
        FormV::Properties(req, opt, _) => {
            let r = props_spec(req, path);
            let o = props_spec(opt, path);
            let id = pascal_ident_spec(path);
            (r.0 + o.0 + seq![AstV::Struct(id, r.1 + o.1, Option::None)], AstV::Identifier(id))
        },
        FormV::Values(sub) => {
            let r = transform_spec(*sub, path);
            (r.0, AstV::Dict(Box::new(r.1)))
        },
        FormV::Discriminator(tag, mapping) => {
            let c = cases_spec(mapping, path);
            let id = pascal_ident_spec(path);
            let props = seq![
                PropertyV { name: class_of(tag), json_name: tag, value: AstV::Str },
                PropertyV { name: "Val"@, json_name: "-"@, value: AstV::Any },
            ];
            (c.0.push(AstV::Struct(id, props, Option::Some((tag, c.1)))), AstV::Identifier(id))
        },
    }
}

/// What transforming a property list yields: hoisted declarations, and the
/// fields of the enclosing aggregate, required properties before optional
/// ones, wire names kept verbatim.
pub open spec fn props_spec(ps: Seq<(Seq<char>, SchemaV)>, path: Seq<Seq<char>>) -> (
    Seq<AstV>,
    Seq<PropertyV>,
)
    decreases ps,
{
    if ps.len() == 0 {
        (Seq::empty(), Seq::empty())
    } else {
        let r = props_spec(ps.drop_last(), path);
        let name = ps.last().0;
        let t = transform_spec(ps.last().1, path.push(name));
        (
            r.0 + t.0,
            r.1.push(PropertyV { name: pascal_of(name), json_name: name, value: t.1 }),
        )
    }
}

/// What transforming a discriminator mapping yields: the hoisted variant
/// aggregates (one per case, carrying the case's own fields), and the
/// mapping from tag values to variant type identifiers, one entry per case.
pub open spec fn cases_spec(ms: Seq<(Seq<char>, SchemaV)>, path: Seq<Seq<char>>) -> (
    Seq<AstV>,
    Seq<(Seq<char>, AstV)>,
)
    decreases ms,
{
    if ms.len() == 0 {
        (Seq::empty(), Seq::empty())
    } else {
        let c = cases_spec(ms.drop_last(), path);
        let name = ms.last().0;
        let cpath = path.push(name);
        let id = pascal_ident_spec(cpath);
        let body = match ms.last().1.form {
            FormV::Properties(req, opt, _) => {
                let r = props_spec(req, cpath);
                let o = props_spec(opt, cpath);
                (r.0 + o.0, r.1 + o.1)
            },
            _ => (Seq::empty(), Seq::empty()),
        };
        (
            c.0 + body.0 + seq![AstV::Struct(id, body.1, Option::None)],
            c.1.push((name, AstV::Identifier(id))),
        )
    }
}

/// The declarations that guarantee a transformed node a top-level name: an
/// alias is synthesized exactly when the inline expression is not already a
/// reference to (or itself) a named declaration.
pub open spec fn for_id_decls(path: Seq<Seq<char>>, a: AstV) -> Seq<AstV> {
    match a {
        AstV::Struct(_, _, _) => Seq::empty(),
        AstV::Type(_, _) => Seq::empty(),
        AstV::Identifier(_) => Seq::empty(),
        _ => seq![AstV::Type(pascal_ident_spec(path), Box::new(a))],
    }
}

/// The declarations of all definitions, each transformed at its
/// one-segment path and then coerced to a named declaration.
pub open spec fn defs_decls(defs: Seq<(Seq<char>, SchemaV)>) -> Seq<AstV>
    decreases defs,
{
    if defs.len() == 0 {
        Seq::empty()
    } else {
        let name = defs.last().0;
        let t = transform_spec(defs.last().1, seq![name]);
        defs_decls(defs.drop_last()) + t.0 + for_id_decls(seq![name], t.1)
    }
}

/// Everything one invocation of the transformer emits: the definitions in
/// order, then the document root under the root name.
pub open spec fn transform_doc_spec(s: SchemaV, root: Seq<char>) -> Seq<AstV> {
    let t = transform_spec(s, seq![root]);
    defs_decls(s.definitions) + t.0 + for_id_decls(seq![root], t.1)
}

/// The Go source text of one inline expression or declaration.
pub open spec fn render_spec(a: AstV) -> Seq<char>
    decreases a, 1int,
{
    match a {
        AstV::Any => "interface{}"@,
        AstV::Boolean => "bool"@,
        AstV::Number => "float64"@,
        AstV::Str => "string"@,
        AstV::Time => "time.Time"@,
        AstV::Identifier(id) => id,
        AstV::Literal(lit) => quote_spec(lit),
        AstV::Array(sub) => "[]"@ + render_spec(*sub),
        AstV::Dict(sub) => "map[string]"@ + render_spec(*sub),
        AstV::Type(id, sub) => "type "@ + id + " "@ + render_spec(*sub) + "\n"@,
        AstV::Var(nm, typ, val) => "var "@ + nm + " "@ + render_spec(*typ) + " = "@
            + render_spec(*val) + "\n"@,
        AstV::Struct(nm, props, json) => {
            let head = "type "@ + nm + " struct {\n"@ + render_props_spec(props) + "}\n"@;
            match json {
                Option::None => head,
                Option::Some(j) => head + unmarshal_spec(nm, j.0, j.1) + marshal_spec(
                    nm,
                    j.0,
                    j.1,
                ),
            }
        },
    }
}

/// One struct field line: Go name, type, and the wire name in a json tag.
pub open spec fn render_prop_spec(p: PropertyV) -> Seq<char>
    decreases p, 2int,
{
    "\t"@ + p.name + " "@ + render_spec(p.value) + " `json:\""@ + p.json_name
        + ",omitempty\"`\n"@
}

pub open spec fn render_props_spec(ps: Seq<PropertyV>) -> Seq<char>
    decreases ps, 3int,
{
    if ps.len() == 0 {
        Seq::empty()
    } else {
        render_props_spec(ps.drop_last()) + render_prop_spec(ps.last())
    }
}

/// One decode case: re-parse the whole raw object into the variant type
/// named by the tag, and store it as the active value.
pub open spec fn unmarshal_case_spec(name: Seq<char>, val: AstV) -> Seq<char>
    decreases val, 2int,
{
    "\tcase "@ + quote_spec(name) + ":\n"@ + "\t\tvar data "@ + render_spec(val) + "\n"@
        + "\t\tif err := json.Unmarshal(buf, &data); err != nil {\n"@ + "\t\t\treturn err\n"@
        + "\t\t}\n"@ + "\t\ts.Val = data\n"@
}

pub open spec fn unmarshal_cases_spec(cs: Seq<(Seq<char>, AstV)>) -> Seq<char>
    decreases cs, 3int,
{
    if cs.len() == 0 {
        Seq::empty()
    } else {
        unmarshal_cases_spec(cs.drop_last()) + unmarshal_case_spec(cs.last().0, cs.last().1)
    }
}

/// The generated decode: pass one parses only the tag field to pick the
/// variant, pass two re-parses the whole object as that variant.
pub open spec fn unmarshal_spec(nm: Seq<char>, tag: Seq<char>, cs: Seq<(Seq<char>, AstV)>) -> Seq<
    char,
>
    decreases cs, 4int,
{
    "func (s *"@ + nm + ") UnmarshalJSON(buf []byte) error {\n"@
        + "\tvar x struct{ Tag string `json:"@ + quote_spec(tag) + "` }\n"@
        + "\tif err := json.Unmarshal(buf, &x); err != nil {\n"@ + "\t\treturn err\n"@
        + "\t}\n"@ + "\tswitch x.Tag {\n"@ + unmarshal_cases_spec(cs) + "\t}\n"@ + "\ts."@
        + class_of(tag) + " = x.Tag\n"@ + "\treturn nil\n"@ + "}\n"@
}

/// One encode case: build a flat temporary holding the tag field and the
/// variant's fields, and marshal it as one object.
pub open spec fn marshal_case_spec(tag: Seq<char>, val: AstV) -> Seq<char>
    decreases val, 2int,
{
    "\tcase "@ + render_spec(val) + ":\n"@ + "\t\tvar data struct{\n"@
        + "\t\t\tTag string `json:"@ + quote_spec(tag) + "`\n"@ + "\t\t\t"@ + render_spec(val)
        + "\n"@ + "\t\t}\n"@ + "\t\tdata."@ + render_spec(val) + " = val\n"@
        + "\t\tdata.Tag = s."@ + class_of(tag) + "\n"@ + "\t\treturn json.Marshal(data)\n"@
}

pub open spec fn marshal_cases_spec(tag: Seq<char>, cs: Seq<(Seq<char>, AstV)>) -> Seq<char>
    decreases cs, 3int,
{
    if cs.len() == 0 {
        Seq::empty()
    } else {
        marshal_cases_spec(tag, cs.drop_last()) + marshal_case_spec(tag, cs.last().1)
    }
}

/// The generated encode: a switch over the variant's concrete type; the
/// emitted tag is the holder's own tag field. A holder whose active value
/// matches no case is a fatal internal-consistency violation.
pub open spec fn marshal_spec(nm: Seq<char>, tag: Seq<char>, cs: Seq<(Seq<char>, AstV)>) -> Seq<
    char,
>
    decreases cs, 4int,
{
    "func (s "@ + nm + ") MarshalJSON() ([]byte, error) {\n"@ + "\tswitch val := s.Val.(type) {\n"@
        + marshal_cases_spec(tag, cs) + "\t}\n"@ + "\tpanic(\"invalid discriminator tag\")\n"@
        + "}\n"@
}

pub open spec fn render_list_spec(asts: Seq<AstV>) -> Seq<char>
    decreases asts,
{
    if asts.len() == 0 {
        Seq::empty()
    } else {
        render_list_spec(asts.drop_last()) + render_spec(asts.last())
    }
}

/// The whole Go source unit: the package line, then every declaration.
pub open spec fn serialize_spec(asts: Seq<AstV>, pkg: Seq<char>) -> Seq<char> {
    "package "@ + pkg + "\n"@ + render_list_spec(asts)
}

pub proof fn lemma_props_view_points(ps: Seq<Property>)
    ensures
        props_view(ps).len() == ps.len(),
        forall|i: int| 0 <= i < ps.len() ==> #[trigger] props_view(ps)[i] == prop_view(ps[i]),
    decreases ps,
{
    if ps.len() > 0 {
        lemma_props_view_points(ps.drop_last());
        assert(forall|i: int| 0 <= i < ps.len() - 1 ==> ps.drop_last()[i] == ps[i]);
    }
}

pub proof fn lemma_union_cases_view_points(cs: Seq<(String, Ast)>)
    ensures
        union_cases_view(cs).len() == cs.len(),
        forall|i: int|
            0 <= i < cs.len() ==> #[trigger] union_cases_view(cs)[i] == (
                cs[i].0@,
                ast_view(cs[i].1),
            ),
    decreases cs,
{
    if cs.len() > 0 {
        lemma_union_cases_view_points(cs.drop_last());
        assert(forall|i: int| 0 <= i < cs.len() - 1 ==> cs.drop_last()[i] == cs[i]);
    }
}

pub proof fn lemma_asts_push(s: Seq<Ast>, x: Ast)
    ensures
        asts_view(s.push(x)) == asts_view(s).push(ast_view(x)),
{
    assert(asts_view(s.push(x)) =~= asts_view(s).push(ast_view(x)));
}

impl Codegen {
    /// Derives the Go identifier of a traversal path.
    pub fn path_to_identifier(path: &Vec<String>) -> (r: String)
        ensures
            r@ == pascal_ident_spec(path_view(path@)),
    {
        pascal_identifier(path)
    }

    /// Transforms one property's schema with the property's name pushed on
    /// the path, and builds the field that carries it: the Go name is the
    /// pascal-cased property name, the wire name is kept verbatim.
    fn transform_prop(
        &self,
        out: &mut Vec<Ast>,
        path: &mut Vec<String>,
        required: bool,
        name: &str,
        prop: &Schema,
    ) -> (p: Property)
        requires
            wf_form(prop@.form),
        ensures
            asts_view(final(out)@) == asts_view(old(out)@) + transform_spec(
                prop@,
                path_view(old(path)@).push(name@),
            ).0,
            path_view(final(path)@) == path_view(old(path)@),
            p@ == (PropertyV {
                name: pascal_of(name@),
                json_name: name@,
                value: transform_spec(prop@, path_view(old(path)@).push(name@)).1,
            }),
        decreases prop, 1int,
    {
        let owned = name.to_owned();
        path.push(owned);
        proof {
            lemma_path_view_push(old(path)@, owned);
        }
        let value = self.transform_subschema(out, path, prop);
        proof {
            lemma_path_view_len(path@);
            lemma_path_view_len(old(path)@);
            assert(path_view(path@).len() == path_view(old(path)@).len() + 1);
        }
        let ghost mid = path@;
        let _ = path.pop();
        proof {
            assert(path@ =~= mid.drop_last());
            lemma_path_view_drop(mid);
            assert(path_view(mid).drop_last() =~= path_view(old(path)@));
        }
        Property { name: pascal_case(name), json_name: name.to_owned(), value }
    }

    /// Transforms every property of one list in order, hoisting what the
    /// children declare and appending one field per property.
    #[verifier::loop_isolation(false)]
    fn transform_props(
        &self,
        out: &mut Vec<Ast>,
        path: &mut Vec<String>,
        required: bool,
        pairs: &Vec<(String, Schema)>,
        props: &mut Vec<Property>,
    )
        requires
            wf_pairs(pairs_view(pairs@)),
        ensures
            asts_view(final(out)@) == asts_view(old(out)@) + props_spec(
                pairs_view(pairs@),
                path_view(old(path)@),
            ).0,
            props_view(final(props)@) == props_view(old(props)@) + props_spec(
                pairs_view(pairs@),
                path_view(old(path)@),
            ).1,
            path_view(final(path)@) == path_view(old(path)@),
        decreases pairs@, 2int,
    {
        let ghost pv = path_view(old(path)@);
        let ghost psv = pairs_view(pairs@);
        proof {
            lemma_pairs_view_points(pairs@);
            assert(psv.take(0) =~= Seq::<(Seq<char>, SchemaV)>::empty());
            assert(asts_view(out@) =~= asts_view(out@) + props_spec(psv.take(0), pv).0);
            assert(props_view(props@) =~= props_view(props@) + props_spec(psv.take(0), pv).1);
        }
        let mut i: usize = 0;
        while i < pairs.len()
            invariant
                i <= pairs.len(),
                psv == pairs_view(pairs@),
                psv.len() == pairs@.len(),
                forall|k: int|
                    0 <= k < pairs@.len() ==> #[trigger] psv[k] == (
                        pairs@[k].0@,
                        crate::schema::schema_view(pairs@[k].1),
                    ),
                wf_pairs(psv),
                pv == path_view(old(path)@),
                asts_view(out@) == asts_view(old(out)@) + props_spec(psv.take(i as int), pv).0,
                props_view(props@) == props_view(old(props)@) + props_spec(
                    psv.take(i as int),
                    pv,
                ).1,
                path_view(path@) == pv,
            decreases pairs@.len() - i,
        {
            let pair = &pairs[i];
            proof {
                lemma_wf_pairs_index(psv, i as int);
                assert(decreases_to!(pairs@ => pairs@[i as int]));
            }
            let p = self.transform_prop(out, path, required, pair.0.as_str(), &pair.1);
            let ghost props_pre = props@;
            let ghost p_v = prop_view(p);
            props.push(p);
            proof {
                assert(props_pre.push(p).drop_last() =~= props_pre);
                assert(props_view(props@) == props_view(props_pre).push(p_v));
                assert(psv.take(i + 1).drop_last() =~= psv.take(i as int));
                assert(psv.take(i + 1).last() == psv[i as int]);
                assert(props_view(props@) =~= props_view(old(props)@) + props_spec(
                    psv.take(i + 1),
                    pv,
                ).1);
                assert(asts_view(out@) =~= asts_view(old(out)@) + props_spec(
                    psv.take(i + 1),
                    pv,
                ).0);
            }
            i = i + 1;
        }
        proof {
            assert(psv.take(pairs@.len() as int) =~= psv);
        }
    }

    /// Transforms one node: returns the inline expression for the node and
    /// appends to the output whatever named declarations the node and its
    /// descendants require.
    #[verifier::loop_isolation(false)]
    #[verifier::rlimit(60)]
    fn transform_subschema(
        &self,
        out: &mut Vec<Ast>,
        path: &mut Vec<String>,
        schema: &Schema,
    ) -> (ast: Ast)
        requires
            wf_form(schema@.form),
        ensures
            asts_view(final(out)@) == asts_view(old(out)@) + transform_spec(
                schema@,
                path_view(old(path)@),
            ).0,
            path_view(final(path)@) == path_view(old(path)@),
            ast@ == transform_spec(schema@, path_view(old(path)@)).1,
        decreases schema, 0int,
    {
        let ghost pv = path_view(old(path)@);
        match &schema.form {
            Form::Empty => {
                proof {
                    assert(asts_view(out@) =~= asts_view(out@) + Seq::<AstV>::empty());
                }
                Ast::Any
            },
            Form::Ref(def) => {
                let mut p: Vec<String> = Vec::new();
                p.push(def.clone());
                let id = Self::path_to_identifier(&p);
                proof {
                    assert(path_view(p@) =~= seq![def@]);
                    assert(asts_view(out@) =~= asts_view(out@) + Seq::<AstV>::empty());
                }
                Ast::Identifier(id)
            },
            Form::Type(typ) => {
                proof {
                    assert(asts_view(out@) =~= asts_view(out@) + Seq::<AstV>::empty());
                }
                match typ {
                    Prim::Boolean => Ast::Boolean,
                    Prim::Number => Ast::Number,
                    Prim::Str => Ast::Str,
                    Prim::Timestamp => Ast::Time,
                }
            },
            Form::Enum(vals) => {
                let name = Self::path_to_identifier(path);
                let ghost id = name@;
                let ghost out0 = out@;
                let tdecl = Ast::Type(name.clone(), Box::new(Ast::Str));
                out.push(tdecl);
                proof {
                    lemma_asts_push(out0, tdecl);
                    assert(ast_view(Ast::Str) == AstV::Str);
                    assert(ast_view(tdecl) == AstV::Type(id, Box::new(AstV::Str)));
                    assert(vals.deep_view().take(0) =~= Seq::<Seq<char>>::empty());
                    assert(asts_view(out@) =~= asts_view(old(out)@) + seq![
                        AstV::Type(id, Box::new(AstV::Str)),
                    ] + enum_vars_spec(vals.deep_view().take(0), id));
                }
                let mut i: usize = 0;
                while i < vals.len()
                    invariant
                        i <= vals.len(),
                        id == pascal_ident_spec(pv),
                        name@ == id,
                        asts_view(out@) == asts_view(old(out)@) + seq![
                            AstV::Type(id, Box::new(AstV::Str)),
                        ] + enum_vars_spec(vals.deep_view().take(i as int), id),
                        path_view(path@) == pv,
                    decreases vals@.len() - i,
                {
                    let val = &vals[i];
                    let mut var_name = name.clone();
                    var_name.append("_");
                    var_name.append(val.as_str());
                    let cc = camel_case(var_name.as_str());
                    let ghost outp = out@;
                    let idast = Ast::Identifier(name.clone());
                    let litast = Ast::Literal(val.clone());
                    let vdecl = Ast::Var(cc, Box::new(idast), Box::new(litast));
                    out.push(vdecl);
                    proof {
                        let vdv = vals.deep_view();
                        lemma_asts_push(outp, vdecl);
                        assert(vdv[i as int] == vals@[i as int]@);
                        assert(ast_view(idast) == AstV::Identifier(id));
                        assert(ast_view(litast) == AstV::Literal(vdv[i as int]));
                        assert(ast_view(vdecl) == AstV::Var(
                            camel_of(id + "_"@ + vdv[i as int]),
                            Box::new(AstV::Identifier(id)),
                            Box::new(AstV::Literal(vdv[i as int])),
                        ));
                        assert(vdv.take(i + 1).drop_last() =~= vdv.take(i as int));
                        assert(vdv.take(i + 1).last() == vdv[i as int]);
                        assert(asts_view(out@) =~= asts_view(old(out)@) + seq![
                            AstV::Type(id, Box::new(AstV::Str)),
                        ] + enum_vars_spec(vdv.take(i + 1), id));
                    }
                    i = i + 1;
                }
                proof {
                    assert(vals.deep_view().take(vals@.len() as int) =~= vals.deep_view());
                    assert(asts_view(out@) =~= asts_view(old(out)@) + (seq![
                        AstV::Type(id, Box::new(AstV::Str)),
                    ] + enum_vars_spec(vals.deep_view(), id)));
                }
                Ast::Identifier(name)
            },
            Form::Elements(sub_schema) => {
                let inner = self.transform_subschema(out, path, sub_schema);
                Ast::Array(Box::new(inner))
            },
            Form::Properties(required, optional, _) => {
                let mut props: Vec<Property> = Vec::new();
                self.transform_props(out, path, true, required, &mut props);
                self.transform_props(out, path, false, optional, &mut props);
                let id = Self::path_to_identifier(path);
                let ghost r = props_spec(pairs_view(required@), pv);
                let ghost o = props_spec(pairs_view(optional@), pv);
                let ghost propsv = props_view(props@);
                proof {
                    assert(propsv =~= r.1 + o.1);
                }
                let ghost outp = out@;
                let sdecl = Ast::Struct(id.clone(), props, Option::None);
                out.push(sdecl);
                proof {
                    lemma_asts_push(outp, sdecl);
                    assert(ast_view(sdecl) == AstV::Struct(pascal_ident_spec(pv), propsv,
                        Option::None));
                    assert(asts_view(out@) =~= asts_view(old(out)@) + (r.0 + o.0 + seq![
                        AstV::Struct(pascal_ident_spec(pv), r.1 + o.1, Option::None),
                    ]));
                }
                Ast::Identifier(id)
            },
            Form::Values(sub_schema) => {
                let inner = self.transform_subschema(out, path, sub_schema);
                Ast::Dict(Box::new(inner))
            },
            Form::Discriminator(tag, mapping) => {
                let ghost mv = pairs_view(mapping@);
                proof {
                    lemma_pairs_view_points(mapping@);
                    assert(mv.take(0) =~= Seq::<(Seq<char>, SchemaV)>::empty());
                    assert(asts_view(out@) =~= asts_view(out@) + cases_spec(mv.take(0), pv).0);
                }
                let mut cases: Vec<(String, Ast)> = Vec::new();
                let mut i: usize = 0;
                while i < mapping.len()
                    invariant
                        i <= mapping.len(),
                        mv == pairs_view(mapping@),
                        mv.len() == mapping@.len(),
                        forall|k: int|
                            0 <= k < mapping@.len() ==> #[trigger] mv[k] == (
                                mapping@[k].0@,
                                crate::schema::schema_view(mapping@[k].1),
                            ),
                        wf_pairs(mv),
                        forall|k: int|
                            0 <= k < mv.len() ==> (#[trigger] mv[k].1.form) is Properties,
                        pv == path_view(old(path)@),
                        asts_view(out@) == asts_view(old(out)@) + cases_spec(
                            mv.take(i as int),
                            pv,
                        ).0,
                        union_cases_view(cases@) == cases_spec(mv.take(i as int), pv).1,
                        path_view(path@) == pv,
                    decreases mapping@.len() - i,
                {
                    let pair = &mapping[i];
                    proof {
                        lemma_wf_pairs_index(mv, i as int);
                    }
                    let cased = pair.0.clone();
                    path.push(cased);
                    proof {
                        lemma_path_view_push(old(path)@, cased);
                        assert(path_view(path@) == pv.push(pair.0@));
                    }
                    match &pair.1.form {
                        Form::Properties(req, opt, _) => {
                            proof {
                                assert(decreases_to!(*schema => schema.form));
                                assert(decreases_to!(schema.form =>
                                    schema.form->Discriminator_1));
                                assert(decreases_to!(*schema => mapping@[i as int].1));
                                assert(pair.1 == mapping@[i as int].1);
                                assert(decreases_to!(pair.1 => pair.1.form));
                                assert(decreases_to!(pair.1.form => *req));
                                assert(decreases_to!(pair.1.form => *opt));
                                assert(decreases_to!(*req => req@));
                                assert(decreases_to!(*opt => opt@));
                                assert(decreases_to!(*schema => req@));
                                assert(decreases_to!(*schema => opt@));
                            }
                            let mut props: Vec<Property> = Vec::new();
                            self.transform_props(out, path, true, req, &mut props);
                            self.transform_props(out, path, false, opt, &mut props);
                            let id = Self::path_to_identifier(path);
                            let ghost cpath = pv.push(pair.0@);
                            let ghost r = props_spec(pairs_view(req@), cpath);
                            let ghost o = props_spec(pairs_view(opt@), cpath);
                            let ghost propsv = props_view(props@);
                            proof {
                                assert(propsv =~= r.1 + o.1);
                            }
                            let ghost outp = out@;
                            let sdecl = Ast::Struct(id.clone(), props, Option::None);
                            out.push(sdecl);
                            let ghost cases_pre = cases@;
                            let cident = Ast::Identifier(id);
                            proof {
                                assert(ast_view(cident) == AstV::Identifier(
                                    pascal_ident_spec(cpath),
                                ));
                            }
                            let centry = (pair.0.clone(), cident);
                            cases.push(centry);
                            proof {
                                lemma_asts_push(outp, sdecl);
                                assert(ast_view(sdecl) == AstV::Struct(
                                    pascal_ident_spec(cpath),
                                    propsv,
                                    Option::None,
                                ));
                                assert(cases_pre.push(centry).drop_last() =~= cases_pre);
                                assert(union_cases_view(cases@) == union_cases_view(
                                    cases_pre,
                                ).push((pair.0@, AstV::Identifier(pascal_ident_spec(cpath)))));
                                assert(mv.take(i + 1).drop_last() =~= mv.take(i as int));
                                assert(mv.take(i + 1).last() == mv[i as int]);
                                assert(union_cases_view(cases@) =~= cases_spec(
                                    mv.take(i + 1),
                                    pv,
                                ).1);
                                assert(asts_view(out@) =~= asts_view(old(out)@) + cases_spec(
                                    mv.take(i + 1),
                                    pv,
                                ).0);
                            }
                        },
                        _ => {
                            proof {
                                assert(false);
                            }
                        },
                    }
                    proof {
                        lemma_path_view_len(path@);
                    }
                    let ghost mid = path@;
                    let _ = path.pop();
                    proof {
                        assert(path@ =~= mid.drop_last());
                        lemma_path_view_drop(mid);
                        assert(path_view(mid).drop_last() =~= pv);
                    }
                    i = i + 1;
                }
                proof {
                    assert(mv.take(mapping@.len() as int) =~= mv);
                }
                let id = Self::path_to_identifier(path);
                let tag_name = class_case(tag.as_str());
                let mut dprops: Vec<Property> = Vec::new();
                let tprop = Property { name: tag_name, json_name: tag.clone(), value: Ast::Str };
                dprops.push(tprop);
                proof {
                    assert(props_view(Seq::<Property>::empty()) == Seq::<PropertyV>::empty());
                    assert(ast_view(Ast::Str) == AstV::Str);
                    assert(prop_view(tprop) == (PropertyV {
                        name: class_of(tag@),
                        json_name: tag@,
                        value: AstV::Str,
                    }));
                    assert(dprops@.drop_last() =~= Seq::<Property>::empty());
                    assert(props_view(dprops@) =~= seq![prop_view(tprop)]);
                }
                let ghost dprops1 = dprops@;
                let vprop = Property {
                    name: "Val".to_owned(),
                    json_name: "-".to_owned(),
                    value: Ast::Any,
                };
                dprops.push(vprop);
                proof {
                    assert(ast_view(Ast::Any) == AstV::Any);
                    assert(prop_view(vprop) == (PropertyV {
                        name: "Val"@,
                        json_name: "-"@,
                        value: AstV::Any,
                    }));
                    assert(dprops@.drop_last() =~= dprops1);
                    assert(props_view(dprops@) =~= seq![
                        PropertyV { name: class_of(tag@), json_name: tag@, value: AstV::Str },
                        PropertyV { name: "Val"@, json_name: "-"@, value: AstV::Any },
                    ]);
                }
                let ghost dpropsv = props_view(dprops@);
                let ghost outp = out@;
                let sdecl = Ast::Struct(id.clone(), dprops, Option::Some((tag.clone(), cases)));
                out.push(sdecl);
                proof {
                    lemma_asts_push(outp, sdecl);
                    assert(ast_view(sdecl) == AstV::Struct(
                        pascal_ident_spec(pv),
                        dpropsv,
                        Option::Some((tag@, cases_spec(mv, pv).1)),
                    ));
                    assert(asts_view(out@) =~= asts_view(old(out)@) + cases_spec(mv, pv).0.push(
                        ast_view(sdecl),
                    ));
                }
                Ast::Identifier(id)
            },
        }
    }

    /// Ensures that a transformed node will have a top-level named
    /// declaration, and returns an identifier expression referring to it.
    /// An alias is synthesized exactly when the inline expression is not
    /// already a named declaration or a reference to one.
    fn transform_for_id(&self, out: &mut Vec<Ast>, path: &Vec<String>, ast: Ast) -> (r: Ast)
        ensures
            asts_view(final(out)@) == asts_view(old(out)@) + for_id_decls(
                path_view(path@),
                ast@,
            ),
            r@ == AstV::Identifier(pascal_ident_spec(path_view(path@))),
    {
        let needs_alias = match &ast {
            Ast::Struct(_, _, _) => false,
            Ast::Type(_, _) => false,
            Ast::Identifier(_) => false,
            _ => true,
        };
        if needs_alias {
            let ghost outp = out@;
            let ghost astv = ast_view(ast);
            let id = Self::path_to_identifier(path);
            let adecl = Ast::Type(id, Box::new(ast));
            out.push(adecl);
            proof {
                lemma_asts_push(outp, adecl);
                assert(ast_view(adecl) == AstV::Type(
                    pascal_ident_spec(path_view(path@)),
                    Box::new(astv),
                ));
                assert(asts_view(out@) =~= asts_view(old(out)@) + seq![ast_view(adecl)]);
            }
        } else {
            proof {
                assert(asts_view(out@) =~= asts_view(out@) + Seq::<AstV>::empty());
            }
        }
        Ast::Identifier(Self::path_to_identifier(path))
    }

    /// Transforms a whole document: every definition in order, then the
    /// document root, each coerced into a guaranteed named top-level
    /// declaration.
    #[verifier::loop_isolation(false)]
    pub fn transform(&self, schema: &Schema) -> (out: Vec<Ast>)
        requires
            wf_schema(schema@),
        ensures
            asts_view(out@) == transform_doc_spec(schema@, self.root_name@),
    {
        let ghost dv = pairs_view(schema.definitions@);
        proof {
            lemma_pairs_view_points(schema.definitions@);
        }
        let mut out: Vec<Ast> = Vec::new();
        proof {
            assert(asts_view(out@) =~= Seq::<AstV>::empty());
            assert(dv.take(0) =~= Seq::<(Seq<char>, SchemaV)>::empty());
        }
        let mut i: usize = 0;
        while i < schema.definitions.len()
            invariant
                i <= schema.definitions.len(),
                asts_view(out@) == defs_decls(dv.take(i as int)),
            decreases schema.definitions@.len() - i,
        {
            let def = &schema.definitions[i];
            proof {
                lemma_wf_pairs_index(dv, i as int);
                assert(decreases_to!(schema.definitions@ => schema.definitions@[i as int]));
            }
            let mut path: Vec<String> = Vec::new();
            path.push(def.0.clone());
            proof {
                assert(path_view(path@) =~= seq![def.0@]);
            }
            let ast = self.transform_subschema(&mut out, &mut path, &def.1);
            let _ = self.transform_for_id(&mut out, &path, ast);
            proof {
                assert(dv.take(i + 1).drop_last() =~= dv.take(i as int));
                assert(dv.take(i + 1).last() == dv[i as int]);
                assert(asts_view(out@) =~= defs_decls(dv.take(i + 1)));
            }
            i = i + 1;
        }
        proof {
            assert(dv.take(schema.definitions@.len() as int) =~= dv);
        }
        let mut path: Vec<String> = Vec::new();
        path.push(self.root_name.clone());
        proof {
            assert(path_view(path@) =~= seq![self.root_name@]);
        }
        let ast = self.transform_subschema(&mut out, &mut path, schema);
        let _ = self.transform_for_id(&mut out, &path, ast);
        proof {
            assert(asts_view(out@) =~= transform_doc_spec(schema@, self.root_name@));
        }
        out
    }

    /// Renders one declaration or inline expression as Go source text.
    #[verifier::loop_isolation(false)]
    #[verifier::rlimit(60)]
    fn serialize_subschema(&self, out: &mut String, ast: &Ast)
        ensures
            final(out)@ == old(out)@ + render_spec(ast@),
        decreases ast, 0int,
    {
        match ast {
            Ast::Any => {
                out.append("interface{}");
            },
            Ast::Boolean => {
                out.append("bool");
            },
            Ast::Number => {
                out.append("float64");
            },
            Ast::Str => {
                out.append("string");
            },
            Ast::Time => {
                out.append("time.Time");
            },
            Ast::Identifier(id) => {
                out.append(id.as_str());
            },
            Ast::Literal(lit) => {
                let q = quote(lit.as_str());
                out.append(q.as_str());
            },
            Ast::Array(sub) => {
                out.append("[]");
                self.serialize_subschema(out, &**sub);
                proof {
                    assert(out@ =~= old(out)@ + render_spec(ast@));
                }
            },
            Ast::Dict(sub) => {
                out.append("map[string]");
                self.serialize_subschema(out, &**sub);
                proof {
                    assert(out@ =~= old(out)@ + render_spec(ast@));
                }
            },
            Ast::Type(id, sub) => {
                out.append("type ");
                out.append(id.as_str());
                out.append(" ");
                self.serialize_subschema(out, &**sub);
                out.append("\n");
                proof {
                    assert(out@ =~= old(out)@ + render_spec(ast@));
                }
            },
            Ast::Var(nm, typ, val) => {
                out.append("var ");
                out.append(nm.as_str());
                out.append(" ");
                self.serialize_subschema(out, &**typ);
                out.append(" = ");
                self.serialize_subschema(out, &**val);
                out.append("\n");
                proof {
                    assert(out@ =~= old(out)@ + render_spec(ast@));
                }
            },
            Ast::Struct(name, props, json) => {
                out.append("type ");
                out.append(name.as_str());
                out.append(" struct {\n");
                proof {
                    assert(decreases_to!(*ast => props@));
                }
                self.serialize_props(out, props);
                out.append("}\n");
                proof {
                    assert(out@ =~= old(out)@ + ("type "@ + name@ + " struct {\n"@
                        + render_props_spec(props_view(props@)) + "}\n"@));
                }
                match json {
                    Option::None => {
                        proof {
                            assert(out@ =~= old(out)@ + render_spec(ast@));
                        }
                    },
                    Option::Some(j) => {
                        proof {
                            assert(decreases_to!(*ast => *json));
                            assert(decreases_to!(*json => *j));
                            assert(decreases_to!(*j => j.1));
                            assert(decreases_to!(j.1 => j.1@));
                            assert(decreases_to!(*ast => j.1@));
                        }
                        self.serialize_unmarshal(out, name, &j.0, &j.1);
                        self.serialize_marshal(out, name, &j.0, &j.1);
                        proof {
                            assert(out@ =~= old(out)@ + render_spec(ast@));
                        }
                    },
                }
            },
        }
    }

    /// Renders the field lines of a struct.
    #[verifier::loop_isolation(false)]
    #[verifier::rlimit(60)]
    fn serialize_props(&self, out: &mut String, props: &Vec<Property>)
        ensures
            final(out)@ == old(out)@ + render_props_spec(props_view(props@)),
        decreases props@, 1int,
    {
        let ghost propsv = props_view(props@);
        let ghost base = out@;
        proof {
            lemma_props_view_points(props@);
            assert(propsv.take(0) =~= Seq::<PropertyV>::empty());
            assert(out@ =~= base + render_props_spec(propsv.take(0)));
        }
        let mut k: usize = 0;
        while k < props.len()
            invariant
                k <= props.len(),
                out@ == base + render_props_spec(propsv.take(k as int)),
            decreases props@.len() - k,
        {
            let prop = &props[k];
            proof {
                assert(decreases_to!(props@ => props@[k as int]));
                assert(decreases_to!(props@ => prop.value));
            }
            out.append("\t");
            out.append(prop.name.as_str());
            out.append(" ");
            self.serialize_subschema(out, &prop.value);
            out.append(" `json:\"");
            out.append(prop.json_name.as_str());
            out.append(",omitempty\"`\n");
            proof {
                assert(propsv.take(k + 1).drop_last() =~= propsv.take(k as int));
                assert(propsv.take(k + 1).last() == propsv[k as int]);
                assert(propsv[k as int] == prop_view(props@[k as int]));
                assert(prop_view(props@[k as int]) == (PropertyV {
                    name: prop.name@,
                    json_name: prop.json_name@,
                    value: ast_view(prop.value),
                }));
                assert(render_props_spec(propsv.take(k + 1)) == render_props_spec(
                    propsv.take(k as int),
                ) + render_prop_spec(propsv[k as int]));
                assert(render_prop_spec(propsv[k as int]) == "\t"@ + prop.name@ + " "@
                    + render_spec(ast_view(prop.value)) + " `json:\""@ + prop.json_name@
                    + ",omitempty\"`\n"@);
                assert(out@ =~= base + render_props_spec(propsv.take(k + 1)));
            }
            k = k + 1;
        }
        proof {
            assert(propsv.take(props@.len() as int) =~= propsv);
        }
    }

    /// Renders one decode case of a discriminated union.
    #[verifier::loop_isolation(false)]
    fn serialize_unmarshal_case(&self, out: &mut String, case_name: &String, case_ast: &Ast)
        ensures
            final(out)@ == old(out)@ + unmarshal_case_spec(case_name@, case_ast@),
        decreases case_ast, 1int,
    {
        out.append("\tcase ");
        let q = quote(case_name.as_str());
        out.append(q.as_str());
        out.append(":\n");
        out.append("\t\tvar data ");
        self.serialize_subschema(out, case_ast);
        out.append("\n");
        out.append("\t\tif err := json.Unmarshal(buf, &data); err != nil {\n");
        out.append("\t\t\treturn err\n");
        out.append("\t\t}\n");
        out.append("\t\ts.Val = data\n");
        proof {
            assert(out@ =~= old(out)@ + unmarshal_case_spec(case_name@, case_ast@));
        }
    }

    /// Renders the generated decode of a discriminated union: pass one
    /// parses only the tag field to pick the variant, pass two re-parses
    /// the whole raw object as that variant.
    #[verifier::loop_isolation(false)]
    #[verifier::rlimit(60)]
    fn serialize_unmarshal(
        &self,
        out: &mut String,
        name: &String,
        tag: &String,
        cases: &Vec<(String, Ast)>,
    )
        ensures
            final(out)@ == old(out)@ + unmarshal_spec(name@, tag@, union_cases_view(cases@)),
        decreases cases@, 2int,
    {
        let ghost cv = union_cases_view(cases@);
        proof {
            lemma_union_cases_view_points(cases@);
        }
        out.append("func (s *");
        out.append(name.as_str());
        out.append(") UnmarshalJSON(buf []byte) error {\n");
        out.append("\tvar x struct{ Tag string `json:");
        let q = quote(tag.as_str());
        out.append(q.as_str());
        out.append("` }\n");
        out.append("\tif err := json.Unmarshal(buf, &x); err != nil {\n");
        out.append("\t\treturn err\n");
        out.append("\t}\n");
        out.append("\tswitch x.Tag {\n");
        let ghost ubase = out@;
        proof {
            assert(cv.take(0) =~= Seq::<(Seq<char>, AstV)>::empty());
            assert(out@ =~= ubase + unmarshal_cases_spec(cv.take(0)));
        }
        let mut k: usize = 0;
        while k < cases.len()
            invariant
                k <= cases.len(),
                out@ == ubase + unmarshal_cases_spec(cv.take(k as int)),
            decreases cases@.len() - k,
        {
            let case = &cases[k];
            proof {
                assert(decreases_to!(cases@ => cases@[k as int]));
                assert(decreases_to!(cases@ => case.1));
            }
            self.serialize_unmarshal_case(out, &case.0, &case.1);
            proof {
                assert(cv.take(k + 1).drop_last() =~= cv.take(k as int));
                assert(cv.take(k + 1).last() == cv[k as int]);
                assert(cv[k as int] == (case.0@, ast_view(case.1)));
                assert(unmarshal_cases_spec(cv.take(k + 1)) == unmarshal_cases_spec(
                    cv.take(k as int),
                ) + unmarshal_case_spec(cv[k as int].0, cv[k as int].1));
                assert(out@ =~= ubase + unmarshal_cases_spec(cv.take(k + 1)));
            }
            k = k + 1;
        }
        out.append("\t}\n");
        out.append("\ts.");
        let ct = class_case(tag.as_str());
        out.append(ct.as_str());
        out.append(" = x.Tag\n");
        out.append("\treturn nil\n");
        out.append("}\n");
        proof {
            assert(cv.take(cases@.len() as int) =~= cv);
            assert(out@ =~= old(out)@ + unmarshal_spec(name@, tag@, cv));
        }
    }

    /// Renders one encode case of a discriminated union.
    #[verifier::loop_isolation(false)]
    #[verifier::rlimit(60)]
    fn serialize_marshal_case(&self, out: &mut String, tag: &String, case_ast: &Ast)
        ensures
            final(out)@ == old(out)@ + marshal_case_spec(tag@, case_ast@),
        decreases case_ast, 1int,
    {
        out.append("\tcase ");
        self.serialize_subschema(out, case_ast);
        out.append(":\n");
        out.append("\t\tvar data struct{\n");
        out.append("\t\t\tTag string `json:");
        let q = quote(tag.as_str());
        out.append(q.as_str());
        out.append("`\n");
        out.append("\t\t\t");
        self.serialize_subschema(out, case_ast);
        out.append("\n");
        out.append("\t\t}\n");
        out.append("\t\tdata.");
        self.serialize_subschema(out, case_ast);
        out.append(" = val\n");
        out.append("\t\tdata.Tag = s.");
        let ct = class_case(tag.as_str());
        out.append(ct.as_str());
        out.append("\n");
        out.append("\t\treturn json.Marshal(data)\n");
        proof {
            assert(out@ =~= old(out)@ + marshal_case_spec(tag@, case_ast@));
        }
    }

    /// Renders the generated encode of a discriminated union: a switch
    /// over the variant's concrete type, emitting the holder's own tag
    /// beside the variant's fields in one flat object.
    #[verifier::loop_isolation(false)]
    #[verifier::rlimit(60)]
    fn serialize_marshal(
        &self,
        out: &mut String,
        name: &String,
        tag: &String,
        cases: &Vec<(String, Ast)>,
    )
        ensures
            final(out)@ == old(out)@ + marshal_spec(name@, tag@, union_cases_view(cases@)),
        decreases cases@, 2int,
    {
        let ghost cv = union_cases_view(cases@);
        proof {
            lemma_union_cases_view_points(cases@);
        }
        out.append("func (s ");
        out.append(name.as_str());
        out.append(") MarshalJSON() ([]byte, error) {\n");
        out.append("\tswitch val := s.Val.(type) {\n");
        let ghost mbase = out@;
        proof {
            assert(cv.take(0) =~= Seq::<(Seq<char>, AstV)>::empty());
            assert(out@ =~= mbase + marshal_cases_spec(tag@, cv.take(0)));
        }
        let mut k: usize = 0;
        while k < cases.len()
            invariant
                k <= cases.len(),
                out@ == mbase + marshal_cases_spec(tag@, cv.take(k as int)),
            decreases cases@.len() - k,
        {
            let case = &cases[k];
            proof {
                assert(decreases_to!(cases@ => cases@[k as int]));
                assert(decreases_to!(cases@ => case.1));
            }
            self.serialize_marshal_case(out, tag, &case.1);
            proof {
                assert(cv.take(k + 1).drop_last() =~= cv.take(k as int));
                assert(cv.take(k + 1).last() == cv[k as int]);
                assert(cv[k as int] == (case.0@, ast_view(case.1)));
                assert(marshal_cases_spec(tag@, cv.take(k + 1)) == marshal_cases_spec(
                    tag@,
                    cv.take(k as int),
                ) + marshal_case_spec(tag@, cv[k as int].1));
                assert(out@ =~= mbase + marshal_cases_spec(tag@, cv.take(k + 1)));
            }
            k = k + 1;
        }
        out.append("\t}\n");
        out.append("\tpanic(\"invalid discriminator tag\")\n");
        out.append("}\n");
        proof {
            assert(cv.take(cases@.len() as int) =~= cv);
            assert(out@ =~= old(out)@ + marshal_spec(name@, tag@, cv));
        }
    }

    /// Emits the whole Go source unit: the package line, then every
    /// declaration in order.
    #[verifier::loop_isolation(false)]
    pub fn serialize(&self, asts: &Vec<Ast>) -> (r: String)
        ensures
            r@ == serialize_spec(asts_view(asts@), self.out_pkg@),
    {
        let mut out = String::new();
        out.append("package ");
        out.append(self.out_pkg.as_str());
        out.append("\n");
        let ghost av = asts_view(asts@);
        let ghost base = out@;
        proof {
            assert(av.take(0) =~= Seq::<AstV>::empty());
            assert(out@ =~= base + render_list_spec(av.take(0)));
        }
        let mut k: usize = 0;
        while k < asts.len()
            invariant
                k <= asts.len(),
                out@ == base + render_list_spec(av.take(k as int)),
            decreases asts@.len() - k,
        {
            self.serialize_subschema(&mut out, &asts[k]);
            proof {
                assert(av.take(k + 1).drop_last() =~= av.take(k as int));
                assert(av.take(k + 1).last() == av[k as int]);
                assert(out@ =~= base + render_list_spec(av.take(k + 1)));
            }
            k = k + 1;
        }
        proof {
            assert(av.take(asts@.len() as int) =~= av);
            assert(out@ =~= serialize_spec(av, self.out_pkg@));
        }
        out
    }

}


/// The name a declaration is reachable under, if it has one.
pub open spec fn decl_name(a: AstV) -> Option<Seq<char>> {
    match a {
        AstV::Type(id, _) => Option::Some(id),
        AstV::Var(id, _, _) => Option::Some(id),
        AstV::Struct(id, _, _) => Option::Some(id),
        _ => Option::None,
    }
}

/// Whether an output holds a declaration reachable under a name.
pub open spec fn declares(out: Seq<AstV>, name: Seq<char>) -> bool {
    exists|k: int| 0 <= k < out.len() && decl_name(#[trigger] out[k]) == Option::Some(name)
}

/// Transforming one node and coercing the result always leaves a
/// declaration named by the node's own path, for every form but a bare
/// reference (which stays a reference to the definition it names).
pub proof fn lemma_transform_named(s: SchemaV, path: Seq<Seq<char>>)
    requires
        wf_form(s.form),
        !(s.form is Ref),
    ensures
        declares(
            transform_spec(s, path).0 + for_id_decls(path, transform_spec(s, path).1),
            pascal_ident_spec(path),
        ),
{
    let t = transform_spec(s, path);
    let d = t.0 + for_id_decls(path, t.1);
    let id = pascal_ident_spec(path);
    match s.form {
        FormV::Empty => {
            assert(decl_name(d[0]) == Option::Some(id));
        },
        FormV::Ref(_) => {
        },
        FormV::Type(_) => {
            assert(decl_name(d[0]) == Option::Some(id));
        },
        FormV::Enum(vals) => {
            assert(t.0[0] == AstV::Type(id, Box::new(AstV::Str)));
            assert(decl_name(d[0]) == Option::Some(id));
        },
        FormV::Elements(_) => {
            assert(d.len() == t.0.len() + 1);
            assert(decl_name(d[d.len() - 1]) == Option::Some(id));
        },
        FormV::Properties(req, opt, _) => {
            let r = props_spec(req, path);
            let o = props_spec(opt, path);
            let w = r.0.len() + o.0.len();
            assert(t.0[w as int] == AstV::Struct(id, r.1 + o.1, Option::None));
            assert(decl_name(d[w as int]) == Option::Some(id));
        },
        FormV::Values(_) => {
            assert(d.len() == t.0.len() + 1);
            assert(decl_name(d[d.len() - 1]) == Option::Some(id));
        },
        FormV::Discriminator(tag, mapping) => {
            let c = cases_spec(mapping, path);
            assert(t.0.len() == c.0.len() + 1);
            assert(decl_name(t.0[t.0.len() - 1]) == Option::Some(id));
            assert(decl_name(d[t.0.len() - 1]) == Option::Some(id));
        },
    }
}

/// A declaration block keeps its names when more declarations follow or
/// precede it.
pub proof fn lemma_declares_concat(a: Seq<AstV>, b: Seq<AstV>, name: Seq<char>)
    requires
        declares(a, name) || declares(b, name),
    ensures
        declares(a + b, name),
{
    if declares(a, name) {
        let k = choose|k: int| 0 <= k < a.len() && decl_name(#[trigger] a[k]) == Option::Some(
            name,
        );
        assert(decl_name((a + b)[k]) == Option::Some(name));
    } else {
        let k = choose|k: int| 0 <= k < b.len() && decl_name(#[trigger] b[k]) == Option::Some(
            name,
        );
        assert(decl_name((a + b)[a.len() + k]) == Option::Some(name));
    }
}

/// Every definition whose form is not a bare reference gets a top-level
/// declaration named by its one-segment path.
pub proof fn lemma_defs_decls_named(defs: Seq<(Seq<char>, SchemaV)>, i: int)
    requires
        wf_pairs(defs),
        0 <= i < defs.len(),
        !(defs[i].1.form is Ref),
    ensures
        declares(defs_decls(defs), pascal_ident_spec(seq![defs[i].0])),
    decreases defs,
{
    let name = defs.last().0;
    let t = transform_spec(defs.last().1, seq![name]);
    if i == defs.len() - 1 {
        lemma_wf_pairs_index(defs, i);
        lemma_transform_named(defs.last().1, seq![defs.last().0]);
        lemma_declares_concat(
            defs_decls(defs.drop_last()),
            t.0 + for_id_decls(seq![name], t.1),
            pascal_ident_spec(seq![defs.last().0]),
        );
        assert(defs_decls(defs.drop_last()) + (t.0 + for_id_decls(seq![name], t.1))
            =~= defs_decls(defs));
    } else {
        lemma_defs_decls_named(defs.drop_last(), i);
        lemma_declares_concat(
            defs_decls(defs.drop_last()),
            t.0 + for_id_decls(seq![name], t.1),
            pascal_ident_spec(seq![defs.drop_last()[i].0]),
        );
        assert(defs_decls(defs.drop_last()) + (t.0 + for_id_decls(seq![name], t.1))
            =~= defs_decls(defs));
    }
}

/// Top-level nameability: transforming a document leaves, for every
/// definition that is not a bare reference, a top-level declaration
/// reachable under the identifier of that definition's one-segment path.
pub proof fn lemma_definition_nameable(s: SchemaV, root: Seq<char>, i: int)
    requires
        wf_schema(s),
        0 <= i < s.definitions.len(),
        !(s.definitions[i].1.form is Ref),
    ensures
        declares(transform_doc_spec(s, root), pascal_ident_spec(seq![s.definitions[i].0])),
{
    let t = transform_spec(s, seq![root]);
    lemma_defs_decls_named(s.definitions, i);
    lemma_declares_concat(
        defs_decls(s.definitions),
        t.0 + for_id_decls(seq![root], t.1),
        pascal_ident_spec(seq![s.definitions[i].0]),
    );
    assert(defs_decls(s.definitions) + (t.0 + for_id_decls(seq![root], t.1))
        =~= transform_doc_spec(s, root));
}

/// Top-level nameability of the document root: unless the root is a bare
/// reference, the output holds a declaration reachable under the root
/// identifier.
pub proof fn lemma_root_nameable(s: SchemaV, root: Seq<char>)
    requires
        wf_schema(s),
        !(s.form is Ref),
    ensures
        declares(transform_doc_spec(s, root), pascal_ident_spec(seq![root])),
{
    let t = transform_spec(s, seq![root]);
    lemma_transform_named(s, seq![root]);
    lemma_declares_concat(
        defs_decls(s.definitions),
        t.0 + for_id_decls(seq![root], t.1),
        pascal_ident_spec(seq![root]),
    );
    assert(defs_decls(s.definitions) + (t.0 + for_id_decls(seq![root], t.1))
        =~= transform_doc_spec(s, root));
}

/// Naming round trip: when every name a ref form mentions is a definition
/// name, and no definition is itself a bare reference, every ref in the
/// document resolves to a declaration whose identifier is derived from the
/// referenced definition's one-segment path.
pub proof fn lemma_refs_resolve(s: SchemaV, root: Seq<char>, name: Seq<char>)
    requires
        wf_schema(s),
        schema_refs(s).contains(name),
        forall|n: Seq<char>|
            schema_refs(s).contains(n) ==> definition_names(s).contains(n),
        forall|i: int|
            0 <= i < s.definitions.len() ==> !((#[trigger] s.definitions[i].1).form is Ref),
    ensures
        declares(transform_doc_spec(s, root), pascal_ident_spec(seq![name])),
{
    assert(definition_names(s).contains(name));
    let i = choose|i: int|
        0 <= i < definition_names(s).len() && definition_names(s)[i] == name;
    assert(s.definitions[i].0 == name);
    lemma_definition_nameable(s, root, i);
}

/// Determinism: the transformation and the emission are functions of the
/// schema, the root name and the package alone, so two runs over equal
/// inputs agree declaration for declaration and byte for byte.
pub proof fn lemma_output_deterministic(
    s1: SchemaV,
    s2: SchemaV,
    root1: Seq<char>,
    root2: Seq<char>,
    pkg1: Seq<char>,
    pkg2: Seq<char>,
)
    requires
        s1 == s2,
        root1 == root2,
        pkg1 == pkg2,
    ensures
        transform_doc_spec(s1, root1) == transform_doc_spec(s2, root2),
        serialize_spec(transform_doc_spec(s1, root1), pkg1) == serialize_spec(
            transform_doc_spec(s2, root2),
            pkg2,
        ),
{
}

} // verus!
