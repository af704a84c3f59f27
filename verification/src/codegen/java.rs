//! The Java target. The transformer hoists a class for every object and an
//! enum for every enum form; everything else is carried as an inline type
//! expression. Java draws a line between primitive and reference types, so
//! every type knows both an unboxed and a boxed spelling, and generic
//! positions always take the boxed one. The emitter renders one source
//! file per top-level declaration. A discriminated union falls back to a
//! plain object reference in this target.

use vstd::prelude::*;

use crate::ident::{class_ident_spec, class_identifier, lemma_path_view_drop,
    lemma_path_view_len, lemma_path_view_push, path_view};
use crate::schema::{lemma_pairs_view_points, lemma_wf_pairs_index, pairs_view, wf_form,
    wf_pairs, wf_schema, Form, FormV, Prim, Schema, SchemaV};

verus! {

/// The Java code generator: the name given to the document root, and the
/// package path the output belongs to.
pub struct Codegen {
    pub root_name: String,
    pub out_pkg: Vec<String>,
}

/// A top-level Java declaration: a class with its fields, or an enum with
/// its constants.
#[derive(Debug)]
pub enum TopLevel {
    Class(String, Vec<(String, JavaType)>),
    Enum(String, Vec<String>),
}

/// A Java type expression.
#[derive(Debug)]
pub enum JavaType {
    Object,
    Boolean,
    Double,
    Str,
    Timestamp,
    Identifier(String),
    List(Box<JavaType>),
    Dict(Box<JavaType>),
}

/// Mathematical model of a top-level declaration.
pub enum TopLevelV {
    Class(Seq<char>, Seq<(Seq<char>, JavaTypeV)>),
    Enum(Seq<char>, Seq<Seq<char>>),
}

/// Mathematical model of a Java type expression.
pub enum JavaTypeV {
    Object,
    Boolean,
    Double,
    Str,
    Timestamp,
    Identifier(Seq<char>),
    List(Box<JavaTypeV>),
    Dict(Box<JavaTypeV>),
}

pub open spec fn jprops_view(ps: Seq<(String, JavaType)>) -> Seq<(Seq<char>, JavaTypeV)>
    decreases ps,
{
    if ps.len() == 0 {
        Seq::empty()
    } else {
        jprops_view(ps.drop_last()).push((ps.last().0@, jtype_view(ps.last().1)))
    }
}

pub open spec fn jtype_view(t: JavaType) -> JavaTypeV
    decreases t,
{
    match t {
        JavaType::Object => JavaTypeV::Object,
        JavaType::Boolean => JavaTypeV::Boolean,
        JavaType::Double => JavaTypeV::Double,
        JavaType::Str => JavaTypeV::Str,
        JavaType::Timestamp => JavaTypeV::Timestamp,
        JavaType::Identifier(id) => JavaTypeV::Identifier(id@),
        JavaType::List(sub) => JavaTypeV::List(Box::new(jtype_view(*sub))),
        JavaType::Dict(sub) => JavaTypeV::Dict(Box::new(jtype_view(*sub))),
    }
}

pub open spec fn toplevel_view(t: TopLevel) -> TopLevelV
    decreases t,
{
    match t {
        TopLevel::Class(name, props) => TopLevelV::Class(name@, jprops_view(props@)),
        TopLevel::Enum(name, vals) => TopLevelV::Enum(name@, vals.deep_view()),
    }
}

impl View for JavaType {
    type V = JavaTypeV;

    open spec fn view(&self) -> JavaTypeV {
        jtype_view(*self)
    }
}

impl View for TopLevel {
    type V = TopLevelV;

    open spec fn view(&self) -> TopLevelV {
        toplevel_view(*self)
    }
}

/// The views of a declaration list, in order.
pub open spec fn tops_view(s: Seq<TopLevel>) -> Seq<TopLevelV> {
    s.map_values(|t: TopLevel| toplevel_view(t))
}

/// The inline expression of a primitive type.
pub open spec fn prim_spec(p: Prim) -> JavaTypeV {
    match p {
        Prim::Boolean => JavaTypeV::Boolean,
        Prim::Number => JavaTypeV::Double,
        Prim::Str => JavaTypeV::Str,
        Prim::Timestamp => JavaTypeV::Timestamp,
    }
}

/// What transforming one node at a path yields: the declarations hoisted
/// to the output, and the inline type expression handed to the parent.
pub open spec fn transform_spec(s: SchemaV, path: Seq<Seq<char>>) -> (Seq<TopLevelV>, JavaTypeV)
    decreases s,
{
    match s.form {
        FormV::Empty => (Seq::empty(), JavaTypeV::Object),
        FormV::Ref(def) => (Seq::empty(), JavaTypeV::Identifier(class_ident_spec(seq![def]))),
        FormV::Type(p) => (Seq::empty(), prim_spec(p)),
        FormV::Enum(vals) => {
            let id = class_ident_spec(path);
            (seq![TopLevelV::Enum(id, vals)], JavaTypeV::Identifier(id))
        },
        FormV::Elements(sub) => {
            let r = transform_spec(*sub, path);
            (r.0, JavaTypeV::List(Box::new(r.1)))
        },
        FormV::Properties(req, opt, _) => {
            let r = props_spec(req, path);
            let o = props_spec(opt, path);
            let id = class_ident_spec(path);
            (
                r.0 + o.0 + seq![TopLevelV::Class(id, r.1 + o.1)],
                JavaTypeV::Identifier(id),
            )
        },
        FormV::Values(sub) => {
            let r = transform_spec(*sub, path);
            (r.0, JavaTypeV::Dict(Box::new(r.1)))
        },
        FormV::Discriminator(_, _) => (Seq::empty(), JavaTypeV::Object),
    }
}

/// What transforming a property list yields: hoisted declarations and one
/// field per property, names kept verbatim, required before optional.
pub open spec fn props_spec(ps: Seq<(Seq<char>, SchemaV)>, path: Seq<Seq<char>>) -> (
    Seq<TopLevelV>,
    Seq<(Seq<char>, JavaTypeV)>,
)
    decreases ps,
{
    if ps.len() == 0 {
        (Seq::empty(), Seq::empty())
    } else {
        let r = props_spec(ps.drop_last(), path);
        let name = ps.last().0;
        let t = transform_spec(ps.last().1, path.push(name));
        (r.0 + t.0, r.1.push((name, t.1)))
    }
}

/// The declarations of all definitions, each transformed at its
/// one-segment path.
pub open spec fn defs_decls(defs: Seq<(Seq<char>, SchemaV)>) -> Seq<TopLevelV>
    decreases defs,
{
    if defs.len() == 0 {
        Seq::empty()
    } else {
        defs_decls(defs.drop_last()) + transform_spec(defs.last().1, seq![defs.last().0]).0
    }
}

/// Everything one invocation of the transformer emits: the definitions in
/// order, then the document root under the root name.
pub open spec fn transform_doc_spec(s: SchemaV, root: Seq<char>) -> Seq<TopLevelV> {
    defs_decls(s.definitions) + transform_spec(s, seq![root]).0
}


/// The package path segments joined with dots.
pub open spec fn join_dot_spec(parts: Seq<Seq<char>>) -> Seq<char>
    decreases parts,
{
    if parts.len() == 0 {
        Seq::empty()
    } else if parts.len() == 1 {
        parts[0]
    } else {
        join_dot_spec(parts.drop_last()) + "."@ + parts.last()
    }
}

/// The unboxed spelling of a type: primitives stay primitive; generic
/// positions inside always take the boxed spelling.
pub open spec fn unboxed_spec(t: JavaTypeV) -> Seq<char>
    decreases t,
{
    match t {
        JavaTypeV::Object => "Object"@,
        JavaTypeV::Boolean => "boolean"@,
        JavaTypeV::Double => "double"@,
        JavaTypeV::Str => "String"@,
        JavaTypeV::Timestamp => "Instant"@,
        JavaTypeV::Identifier(id) => id,
        JavaTypeV::List(sub) => "List<"@ + boxed_spec(*sub) + ">"@,
        JavaTypeV::Dict(sub) => "Map<String, "@ + boxed_spec(*sub) + ">"@,
    }
}

/// The boxed spelling of a type, as a generic argument needs it.
pub open spec fn boxed_spec(t: JavaTypeV) -> Seq<char>
    decreases t,
{
    match t {
        JavaTypeV::Object => "Object"@,
        JavaTypeV::Boolean => "Boolean"@,
        JavaTypeV::Double => "Double"@,
        JavaTypeV::Str => "String"@,
        JavaTypeV::Timestamp => "Instant"@,
        JavaTypeV::Identifier(id) => id,
        JavaTypeV::List(sub) => "List<"@ + boxed_spec(*sub) + ">"@,
        JavaTypeV::Dict(sub) => "Map<String, "@ + boxed_spec(*sub) + ">"@,
    }
}

pub open spec fn class_props_spec(ps: Seq<(Seq<char>, JavaTypeV)>) -> Seq<char>
    decreases ps,
{
    if ps.len() == 0 {
        Seq::empty()
    } else {
        class_props_spec(ps.drop_last()) + "    public "@ + unboxed_spec(ps.last().1) + " "@
            + ps.last().0 + ";\n"@
    }
}

pub open spec fn enum_vals_spec(vals: Seq<Seq<char>>) -> Seq<char>
    decreases vals,
{
    if vals.len() == 0 {
        Seq::empty()
    } else {
        enum_vals_spec(vals.drop_last()) + "   "@ + vals.last() + ",\n"@
    }
}

/// The body of one Java source file.
pub open spec fn file_body_spec(t: TopLevelV) -> Seq<char> {
    match t {
        TopLevelV::Class(name, props) => "public class "@ + name + " {\n"@ + class_props_spec(
            props,
        ) + "}\n"@,
        TopLevelV::Enum(name, vals) => "public enum "@ + name + " {\n"@ + enum_vals_spec(vals)
            + "}\n"@,
    }
}

/// The file a declaration is written to.
pub open spec fn file_name_spec(t: TopLevelV) -> Seq<char> {
    match t {
        TopLevelV::Class(name, _) => name + ".java"@,
        TopLevelV::Enum(name, _) => name + ".java"@,
    }
}

/// One whole Java source file: the package line, a blank line, the body.
pub open spec fn file_spec(t: TopLevelV, pkg: Seq<Seq<char>>) -> Seq<char> {
    "package "@ + join_dot_spec(pkg) + ";\n\n"@ + file_body_spec(t)
}

/// The views of a (file name, file content) list.
pub open spec fn files_view(fs: Seq<(String, String)>) -> Seq<(Seq<char>, Seq<char>)> {
    fs.map_values(|p: (String, String)| (p.0@, p.1@))
}

/// What serializing emits: one file per declaration, in order.
pub open spec fn serialize_spec(tls: Seq<TopLevelV>, pkg: Seq<Seq<char>>) -> Seq<
    (Seq<char>, Seq<char>),
>
    decreases tls,
{
    if tls.len() == 0 {
        Seq::empty()
    } else {
        serialize_spec(tls.drop_last(), pkg).push(
            (file_name_spec(tls.last()), file_spec(tls.last(), pkg)),
        )
    }
}

pub proof fn lemma_jprops_view_points(ps: Seq<(String, JavaType)>)
    ensures
        jprops_view(ps).len() == ps.len(),
        forall|i: int|
            0 <= i < ps.len() ==> #[trigger] jprops_view(ps)[i] == (
                ps[i].0@,
                jtype_view(ps[i].1),
            ),
    decreases ps,
{
    if ps.len() > 0 {
        lemma_jprops_view_points(ps.drop_last());
        assert(forall|i: int| 0 <= i < ps.len() - 1 ==> ps.drop_last()[i] == ps[i]);
    }
}

impl JavaType {
    /// The unboxed spelling of this type.
    pub fn unboxed(&self) -> (r: String)
        ensures
            r@ == unboxed_spec(self@),
        decreases self,
    {
        match self {
            JavaType::Object => "Object".to_owned(),
            JavaType::Boolean => "boolean".to_owned(),
            JavaType::Double => "double".to_owned(),
            JavaType::Str => "String".to_owned(),
            JavaType::Timestamp => "Instant".to_owned(),
            JavaType::Identifier(id) => id.clone(),
            JavaType::List(sub) => {
                let mut r = String::from_str("List<");
                let b = sub.boxed();
                r.append(b.as_str());
                r.append(">");
                proof {
                    assert(r@ =~= unboxed_spec(self@));
                }
                r
            },
            JavaType::Dict(sub) => {
                let mut r = String::from_str("Map<String, ");
                let b = sub.boxed();
                r.append(b.as_str());
                r.append(">");
                proof {
                    assert(r@ =~= unboxed_spec(self@));
                }
                r
            },
        }
    }

    /// The boxed spelling of this type.
    pub fn boxed(&self) -> (r: String)
        ensures
            r@ == boxed_spec(self@),
        decreases self,
    {
        match self {
            JavaType::Object => "Object".to_owned(),
            JavaType::Boolean => "Boolean".to_owned(),
            JavaType::Double => "Double".to_owned(),
            JavaType::Str => "String".to_owned(),
            JavaType::Timestamp => "Instant".to_owned(),
            JavaType::Identifier(id) => id.clone(),
            JavaType::List(sub) => {
                let mut r = String::from_str("List<");
                let b = sub.boxed();
                r.append(b.as_str());
                r.append(">");
                proof {
                    assert(r@ =~= boxed_spec(self@));
                }
                r
            },
            JavaType::Dict(sub) => {
                let mut r = String::from_str("Map<String, ");
                let b = sub.boxed();
                r.append(b.as_str());
                r.append(">");
                proof {
                    assert(r@ =~= boxed_spec(self@));
                }
                r
            },
        }
    }
}

pub proof fn lemma_tops_push(s: Seq<TopLevel>, x: TopLevel)
    ensures
        tops_view(s.push(x)) == tops_view(s).push(toplevel_view(x)),
{
    assert(tops_view(s.push(x)) =~= tops_view(s).push(toplevel_view(x)));
}

impl Codegen {
    /// Derives the Java identifier of a traversal path.
    pub fn path_to_identifier(path: &Vec<String>) -> (r: String)
        ensures
            r@ == class_ident_spec(path_view(path@)),
    {
        class_identifier(path)
    }

    /// Transforms every property of one list in order.
    #[verifier::loop_isolation(false)]
    fn transform_props(
        &self,
        out: &mut Vec<TopLevel>,
        path: &mut Vec<String>,
        pairs: &Vec<(String, Schema)>,
        props: &mut Vec<(String, JavaType)>,
    )
        requires
            wf_pairs(pairs_view(pairs@)),
        ensures
            tops_view(final(out)@) == tops_view(old(out)@) + props_spec(
                pairs_view(pairs@),
                path_view(old(path)@),
            ).0,
            jprops_view(final(props)@) == jprops_view(old(props)@) + props_spec(
                pairs_view(pairs@),
                path_view(old(path)@),
            ).1,
            path_view(final(path)@) == path_view(old(path)@),
        decreases pairs@, 2int,
    {
        let ghost pv = path_view(old(path)@);
        let ghost psv = pairs_view(pairs@);
        proof {
            lemma_pairs_view_points(pairs@);
            assert(psv.take(0) =~= Seq::<(Seq<char>, SchemaV)>::empty());
            assert(tops_view(out@) =~= tops_view(out@) + props_spec(psv.take(0), pv).0);
            assert(jprops_view(props@) =~= jprops_view(props@) + props_spec(psv.take(0), pv).1);
        }
        let mut i: usize = 0;
        while i < pairs.len()
            invariant
                i <= pairs.len(),
                tops_view(out@) == tops_view(old(out)@) + props_spec(psv.take(i as int), pv).0,
                jprops_view(props@) == jprops_view(old(props)@) + props_spec(
                    psv.take(i as int),
                    pv,
                ).1,
                path_view(path@) == pv,
            decreases pairs@.len() - i,
        {
            let pair = &pairs[i];
            proof {
                lemma_wf_pairs_index(psv, i as int);
                assert(decreases_to!(pairs@ => pairs@[i as int]));
                assert(decreases_to!(pairs@ => pair.1));
            }
            let ghost cur = path@;
            let pname = pair.0.clone();
            path.push(pname);
            proof {
                lemma_path_view_push(cur, pname);
                assert(path_view(path@) == pv.push(pair.0@));
            }
            let value = self.transform_subschema(out, path, &pair.1);
            proof {
                lemma_path_view_len(path@);
                lemma_path_view_len(old(path)@);
                assert(path_view(path@).len() == pv.len() + 1);
            }
            let ghost mid = path@;
            let _ = path.pop();
            proof {
                assert(path@ =~= mid.drop_last());
                lemma_path_view_drop(mid);
                assert(path_view(mid).drop_last() =~= pv);
            }
            let ghost props_pre = props@;
            let ghost value_v = jtype_view(value);
            let entry = (pair.0.clone(), value);
            props.push(entry);
            proof {
                assert(props_pre.push(entry).drop_last() =~= props_pre);
                assert(jprops_view(props@) == jprops_view(props_pre).push((pair.0@, value_v)));
                assert(psv.take(i + 1).drop_last() =~= psv.take(i as int));
                assert(psv.take(i + 1).last() == psv[i as int]);
                assert(jprops_view(props@) =~= jprops_view(old(props)@) + props_spec(
                    psv.take(i + 1),
                    pv,
                ).1);
                assert(tops_view(out@) =~= tops_view(old(out)@) + props_spec(
                    psv.take(i + 1),
                    pv,
                ).0);
            }
            i = i + 1;
        }
        proof {
            assert(psv.take(pairs@.len() as int) =~= psv);
        }
    }

    /// Transforms one node: returns the inline type expression for the
    /// node and appends to the output whatever declarations the node and
    /// its descendants require.
    #[verifier::loop_isolation(false)]
    #[verifier::rlimit(60)]
    fn transform_subschema(
        &self,
        out: &mut Vec<TopLevel>,
        path: &mut Vec<String>,
        schema: &Schema,
    ) -> (t: JavaType)
        requires
            wf_form(schema@.form),
        ensures
            tops_view(final(out)@) == tops_view(old(out)@) + transform_spec(
                schema@,
                path_view(old(path)@),
            ).0,
            path_view(final(path)@) == path_view(old(path)@),
            t@ == transform_spec(schema@, path_view(old(path)@)).1,
        decreases schema, 0int,
    {
        let ghost pv = path_view(old(path)@);
        match &schema.form {
            Form::Empty => {
                proof {
                    assert(tops_view(out@) =~= tops_view(out@) + Seq::<TopLevelV>::empty());
                }
                JavaType::Object
            },
            Form::Ref(def) => {
                let mut p: Vec<String> = Vec::new();
                p.push(def.clone());
                let id = Self::path_to_identifier(&p);
                proof {
                    assert(path_view(p@) =~= seq![def@]);
                    assert(tops_view(out@) =~= tops_view(out@) + Seq::<TopLevelV>::empty());
                }
                JavaType::Identifier(id)
            },
            Form::Type(typ) => {
                proof {
                    assert(tops_view(out@) =~= tops_view(out@) + Seq::<TopLevelV>::empty());
                }
                match typ {
                    Prim::Boolean => JavaType::Boolean,
                    Prim::Number => JavaType::Double,
                    Prim::Str => JavaType::Str,
                    Prim::Timestamp => JavaType::Timestamp,
                }
            },
            Form::Enum(vals) => {
                let name = Self::path_to_identifier(path);
                let ghost id = name@;
                let mut copied: Vec<String> = Vec::new();
                let mut i: usize = 0;
                while i < vals.len()
                    invariant
                        i <= vals.len(),
                        copied.deep_view() == vals.deep_view().take(i as int),
                    decreases vals@.len() - i,
                {
                    let ghost copied_pre = copied@;
                    copied.push(vals[i].clone());
                    proof {
                        assert(copied.deep_view() =~= vals.deep_view().take(i + 1));
                    }
                    i = i + 1;
                }
                proof {
                    assert(vals.deep_view().take(vals@.len() as int) =~= vals.deep_view());
                }
                let ghost outp = out@;
                let decl = TopLevel::Enum(name.clone(), copied);
                out.push(decl);
                proof {
                    lemma_tops_push(outp, decl);
                    assert(toplevel_view(decl) == TopLevelV::Enum(id, vals.deep_view()));
                    assert(tops_view(out@) =~= tops_view(old(out)@) + seq![
                        TopLevelV::Enum(id, vals.deep_view()),
                    ]);
                }
                JavaType::Identifier(name)
            },
            Form::Elements(sub_schema) => {
                let inner = self.transform_subschema(out, path, sub_schema);
                JavaType::List(Box::new(inner))
            },
            Form::Properties(required, optional, _) => {
                let mut props: Vec<(String, JavaType)> = Vec::new();
                self.transform_props(out, path, required, &mut props);
                self.transform_props(out, path, optional, &mut props);
                let id = Self::path_to_identifier(path);
                let ghost r = props_spec(pairs_view(required@), pv);
                let ghost o = props_spec(pairs_view(optional@), pv);
                let ghost propsv = jprops_view(props@);
                proof {
                    assert(propsv =~= r.1 + o.1);
                }
                let ghost outp = out@;
                let decl = TopLevel::Class(id.clone(), props);
                out.push(decl);
                proof {
                    lemma_tops_push(outp, decl);
                    assert(toplevel_view(decl) == TopLevelV::Class(class_ident_spec(pv), propsv));
                    assert(tops_view(out@) =~= tops_view(old(out)@) + (r.0 + o.0 + seq![
                        TopLevelV::Class(class_ident_spec(pv), r.1 + o.1),
                    ]));
                }
                JavaType::Identifier(id)
            },
            Form::Values(sub_schema) => {
                let inner = self.transform_subschema(out, path, sub_schema);
                JavaType::Dict(Box::new(inner))
            },
            Form::Discriminator(_, _) => {
                proof {
                    assert(tops_view(out@) =~= tops_view(out@) + Seq::<TopLevelV>::empty());
                }
                JavaType::Object
            },
        }
    }

    /// Transforms a whole document: every definition in order, then the
    /// document root under the root name.
    #[verifier::loop_isolation(false)]
    pub fn transform(&self, schema: &Schema) -> (out: Vec<TopLevel>)
        requires
            wf_schema(schema@),
        ensures
            tops_view(out@) == transform_doc_spec(schema@, self.root_name@),
    {
        let ghost dv = pairs_view(schema.definitions@);
        proof {
            lemma_pairs_view_points(schema.definitions@);
        }
        let mut out: Vec<TopLevel> = Vec::new();
        proof {
            assert(tops_view(out@) =~= Seq::<TopLevelV>::empty());
            assert(dv.take(0) =~= Seq::<(Seq<char>, SchemaV)>::empty());
        }
        let mut i: usize = 0;
        while i < schema.definitions.len()
            invariant
                i <= schema.definitions.len(),
                tops_view(out@) == defs_decls(dv.take(i as int)),
            decreases schema.definitions@.len() - i,
        {
            let def = &schema.definitions[i];
            proof {
                lemma_wf_pairs_index(dv, i as int);
                assert(decreases_to!(schema.definitions@ => schema.definitions@[i as int]));
            }
            let mut path: Vec<String> = Vec::new();
            path.push(def.0.clone());
            proof {
                assert(path_view(path@) =~= seq![def.0@]);
            }
            let _ = self.transform_subschema(&mut out, &mut path, &def.1);
            proof {
                assert(dv.take(i + 1).drop_last() =~= dv.take(i as int));
                assert(dv.take(i + 1).last() == dv[i as int]);
                assert(tops_view(out@) =~= defs_decls(dv.take(i + 1)));
            }
            i = i + 1;
        }
        proof {
            assert(dv.take(schema.definitions@.len() as int) =~= dv);
        }
        let mut path: Vec<String> = Vec::new();
        path.push(self.root_name.clone());
        proof {
            assert(path_view(path@) =~= seq![self.root_name@]);
        }
        let _ = self.transform_subschema(&mut out, &mut path, schema);
        proof {
            assert(tops_view(out@) =~= transform_doc_spec(schema@, self.root_name@));
        }
        out
    }

    /// Joins the package path with dots.
    #[verifier::loop_isolation(false)]
    fn join_dot(parts: &Vec<String>) -> (r: String)
        ensures
            r@ == join_dot_spec(path_view(parts@)),
    {
        let mut r = String::new();
        let mut i: usize = 0;
        while i < parts.len()
            invariant
                i <= parts.len(),
                r@ == join_dot_spec(path_view(parts@).take(i as int)),
            decreases parts@.len() - i,
        {
            if i > 0 {
                r.append(".");
            }
            r.append(parts[i].as_str());
            proof {
                let pv = path_view(parts@);
                assert(pv.take(i + 1).drop_last() =~= pv.take(i as int));
                assert(pv.take(i + 1).last() == pv[i as int]);
            }
            i = i + 1;
        }
        proof {
            assert(path_view(parts@).take(parts.len() as int) =~= path_view(parts@));
        }
        r
    }

    /// Renders one declaration's source file body.
    #[verifier::loop_isolation(false)]
    #[verifier::rlimit(60)]
    fn serialize_top_level(&self, top_level: &TopLevel) -> (r: String)
        ensures
            r@ == file_body_spec(top_level@),
    {
        match top_level {
            TopLevel::Class(name, props) => {
                let ghost propsv = jprops_view(props@);
                proof {
                    lemma_jprops_view_points(props@);
                }
                let mut out = String::from_str("public class ");
                out.append(name.as_str());
                out.append(" {\n");
                let ghost base = out@;
                proof {
                    assert(propsv.take(0) =~= Seq::<(Seq<char>, JavaTypeV)>::empty());
                    assert(out@ =~= base + class_props_spec(propsv.take(0)));
                }
                let mut k: usize = 0;
                while k < props.len()
                    invariant
                        k <= props.len(),
                        out@ == base + class_props_spec(propsv.take(k as int)),
                    decreases props@.len() - k,
                {
                    let prop = &props[k];
                    out.append("    public ");
                    let u = prop.1.unboxed();
                    out.append(u.as_str());
                    out.append(" ");
                    out.append(prop.0.as_str());
                    out.append(";\n");
                    proof {
                        assert(propsv.take(k + 1).drop_last() =~= propsv.take(k as int));
                        assert(propsv.take(k + 1).last() == propsv[k as int]);
                        assert(class_props_spec(propsv.take(k + 1)) == class_props_spec(
                            propsv.take(k as int),
                        ) + "    public "@ + unboxed_spec(propsv[k as int].1) + " "@
                            + propsv[k as int].0 + ";\n"@);
                        assert(out@ =~= base + class_props_spec(propsv.take(k + 1)));
                    }
                    k = k + 1;
                }
                out.append("}\n");
                proof {
                    assert(propsv.take(props@.len() as int) =~= propsv);
                    assert(out@ =~= file_body_spec(top_level@));
                }
                out
            },
            TopLevel::Enum(name, vals) => {
                let ghost valsv = vals.deep_view();
                let mut out = String::from_str("public enum ");
                out.append(name.as_str());
                out.append(" {\n");
                let ghost base = out@;
                proof {
                    assert(valsv.take(0) =~= Seq::<Seq<char>>::empty());
                    assert(out@ =~= base + enum_vals_spec(valsv.take(0)));
                }
                let mut k: usize = 0;
                while k < vals.len()
                    invariant
                        k <= vals.len(),
                        out@ == base + enum_vals_spec(valsv.take(k as int)),
                    decreases vals@.len() - k,
                {
                    out.append("   ");
                    out.append(vals[k].as_str());
                    out.append(",\n");
                    proof {
                        assert(valsv.take(k + 1).drop_last() =~= valsv.take(k as int));
                        assert(valsv.take(k + 1).last() == valsv[k as int]);
                        assert(valsv[k as int] == vals@[k as int]@);
                        assert(out@ =~= base + enum_vals_spec(valsv.take(k + 1)));
                    }
                    k = k + 1;
                }
                out.append("}\n");
                proof {
                    assert(valsv.take(vals@.len() as int) =~= valsv);
                    assert(out@ =~= file_body_spec(top_level@));
                }
                out
            },
        }
    }

    /// Emits one source file per declaration: its file name, and its
    /// content under the configured package.
    #[verifier::loop_isolation(false)]
    #[verifier::rlimit(60)]
    pub fn serialize(&self, ast: &Vec<TopLevel>) -> (files: Vec<(String, String)>)
        ensures
            files_view(files@) == serialize_spec(tops_view(ast@), path_view(self.out_pkg@)),
    {
        let ghost av = tops_view(ast@);
        let ghost pkgv = path_view(self.out_pkg@);
        let mut files: Vec<(String, String)> = Vec::new();
        proof {
            assert(av.take(0) =~= Seq::<TopLevelV>::empty());
            assert(files_view(files@) =~= serialize_spec(av.take(0), pkgv));
        }
        let mut k: usize = 0;
        while k < ast.len()
            invariant
                k <= ast.len(),
                files_view(files@) == serialize_spec(av.take(k as int), pkgv),
            decreases ast@.len() - k,
        {
            let top_level = &ast[k];
            let mut name = match top_level {
                TopLevel::Class(name, _) => name.clone(),
                TopLevel::Enum(name, _) => name.clone(),
            };
            name.append(".java");
            let mut content = String::from_str("package ");
            let dotted = Self::join_dot(&self.out_pkg);
            content.append(dotted.as_str());
            content.append(";\n\n");
            let body = self.serialize_top_level(top_level);
            content.append(body.as_str());
            let ghost files_pre = files@;
            let entry = (name, content);
            let ghost entry_v = (entry.0@, entry.1@);
            files.push(entry);
            proof {
                assert(entry_v.0 =~= file_name_spec(av[k as int]));
                assert(entry_v.1 =~= file_spec(av[k as int], pkgv));
                assert(av.take(k + 1).drop_last() =~= av.take(k as int));
                assert(av.take(k + 1).last() == av[k as int]);
                assert(files_view(files@) =~= files_view(files_pre).push(entry_v));
                assert(files_view(files@) =~= serialize_spec(av.take(k + 1), pkgv));
            }
            k = k + 1;
        }
        proof {
            assert(av.take(ast@.len() as int) =~= av);
        }
        files
    }

}


/// Determinism: the transformation and the emission are functions of the
/// schema, the root name and the package alone, so two runs over equal
/// inputs agree file for file and byte for byte.
pub proof fn lemma_output_deterministic(
    s1: SchemaV,
    s2: SchemaV,
    root1: Seq<char>,
    root2: Seq<char>,
    pkg1: Seq<Seq<char>>,
    pkg2: Seq<Seq<char>>,
)
    requires
        s1 == s2,
        root1 == root2,
        pkg1 == pkg2,
    ensures
        serialize_spec(transform_doc_spec(s1, root1), pkg1) == serialize_spec(
            transform_doc_spec(s2, root2),
            pkg2,
        ),
{
}

} // verus!
