//! The TypeScript target. The transformer hoists an interface for every
//! object and for every case of a discriminated union, renders an enum as
//! an inline union of string literals, and coerces each definition and the
//! document root into a named top-level declaration. A discriminated union
//! becomes a union of its case interfaces, each carrying the tag property
//! as a literal type, so the type checker itself discriminates on the tag.

use vstd::prelude::*;

use crate::ident::{lemma_path_view_drop, lemma_path_view_len, lemma_path_view_push,
    pascal_ident_spec, pascal_identifier, path_view};
use crate::schema::{definition_names, lemma_pairs_view_points, lemma_wf_pairs_index, pairs_view,
    schema_refs, wf_form, wf_pairs, wf_schema, Form, FormV, Prim, Schema, SchemaV};
use crate::text::{quote, quote_spec};

verus! {

/// The TypeScript code generator: the name given to the document root.
pub struct Codegen {
    pub root_name: String,
}

/// A TypeScript declaration or type expression.
#[derive(Debug)]
pub enum Ast {
    Any,
    Boolean,
    Number,
    Str,
    /// An identifier.
    Identifier(String),
    /// A constant string type.
    Literal(String),
    /// An array with elements of some type.
    Array(Box<Ast>),
    /// A map from strings to some type.
    Dict(Box<Ast>),
    /// A type declaration.
    Type(String, Box<Ast>),
    /// An interface with a name and properties.
    Interface(String, Vec<Property>),
    /// A union of types.
    Union(Vec<Ast>),
}

/// An interface property: its name, whether it is required, and its type.
#[derive(Debug)]
pub struct Property {
    pub name: String,
    pub required: bool,
    pub value: Ast,
}

/// Mathematical model of a TypeScript AST node.
pub enum AstV {
    Any,
    Boolean,
    Number,
    Str,
    Identifier(Seq<char>),
    Literal(Seq<char>),
    Array(Box<AstV>),
    Dict(Box<AstV>),
    Type(Seq<char>, Box<AstV>),
    Interface(Seq<char>, Seq<PropertyV>),
    Union(Seq<AstV>),
}

/// Mathematical model of an interface property.
pub struct PropertyV {
    pub name: Seq<char>,
    pub required: bool,
    pub value: AstV,
}

pub open spec fn props_view(ps: Seq<Property>) -> Seq<PropertyV>
    decreases ps,
{
    if ps.len() == 0 {
        Seq::empty()
    } else {
        props_view(ps.drop_last()).push(prop_view(ps.last()))
    }
}

pub open spec fn prop_view(p: Property) -> PropertyV
    decreases p,
{
    PropertyV { name: p.name@, required: p.required, value: ast_view(p.value) }
}

pub open spec fn list_view(vs: Seq<Ast>) -> Seq<AstV>
    decreases vs,
{
    if vs.len() == 0 {
        Seq::empty()
    } else {
        list_view(vs.drop_last()).push(ast_view(vs.last()))
    }
}

pub open spec fn ast_view(a: Ast) -> AstV
    decreases a,
{
    match a {
        Ast::Any => AstV::Any,
        Ast::Boolean => AstV::Boolean,
        Ast::Number => AstV::Number,
        Ast::Str => AstV::Str,
        Ast::Identifier(s) => AstV::Identifier(s@),
        Ast::Literal(s) => AstV::Literal(s@),
        Ast::Array(sub) => AstV::Array(Box::new(ast_view(*sub))),
        Ast::Dict(sub) => AstV::Dict(Box::new(ast_view(*sub))),
        Ast::Type(id, sub) => AstV::Type(id@, Box::new(ast_view(*sub))),
        Ast::Interface(id, props) => AstV::Interface(id@, props_view(props@)),
        Ast::Union(vs) => AstV::Union(list_view(vs@)),
    }
}

impl View for Ast {
    type V = AstV;

    open spec fn view(&self) -> AstV {
        ast_view(*self)
    }
}

impl View for Property {
    type V = PropertyV;

    open spec fn view(&self) -> PropertyV {
        prop_view(*self)
    }
}

/// The views of a declaration list, in order.
pub open spec fn asts_view(s: Seq<Ast>) -> Seq<AstV> {
    s.map_values(|a: Ast| ast_view(a))
}

/// The inline expression of a primitive type. TypeScript has no native
/// timestamp type, so a timestamp is carried as a string.
pub open spec fn prim_spec(p: Prim) -> AstV {
    match p {
        Prim::Boolean => AstV::Boolean,
        Prim::Number => AstV::Number,
        Prim::Str => AstV::Str,
        Prim::Timestamp => AstV::Str,
    }
}

/// The inline union of string literal types an enum becomes.
pub open spec fn enum_union_spec(vals: Seq<Seq<char>>) -> Seq<AstV>
    decreases vals,
{
    if vals.len() == 0 {
        Seq::empty()
    } else {
        enum_union_spec(vals.drop_last()).push(AstV::Literal(vals.last()))
    }
}

/// What transforming one node at a path yields: the declarations hoisted
/// to the output, and the inline expression handed to the parent.
pub open spec fn transform_spec(s: SchemaV, path: Seq<Seq<char>>) -> (Seq<AstV>, AstV)
    decreases s,
{
    match s.form {
        FormV::Empty => (Seq::empty(), AstV::Any),
        FormV::Ref(def) => (Seq::empty(), AstV::Identifier(pascal_ident_spec(seq![def]))),
        FormV::Type(p) => (Seq::empty(), prim_spec(p)),
        FormV::Enum(vals) => (Seq::empty(), AstV::Union(enum_union_spec(vals))),
        FormV::Elements(sub) => {
            let r = transform_spec(*sub, path);
            (r.0, AstV::Array(Box::new(r.1)))
        },
        FormV::Properties(req, opt, _) => {
            let r = props_spec(req, path, true);
            let o = props_spec(opt, path, false);
            let id = pascal_ident_spec(path);
            (
                r.0 + o.0 + seq![AstV::Interface(id, r.1 + o.1)],
                AstV::Identifier(id),
            )
        },
        FormV::Values(sub) => {
            let r = transform_spec(*sub, path);
            (r.0, AstV::Dict(Box::new(r.1)))
        },
        FormV::Discriminator(tag, mapping) => {
            let c = cases_spec(mapping, path, tag);
            (c.0, AstV::Union(c.1))
        },
    }
}

/// What transforming a property list yields: hoisted declarations, and
/// one field per property, names kept verbatim.
pub open spec fn props_spec(
    ps: Seq<(Seq<char>, SchemaV)>,
    path: Seq<Seq<char>>,
    required: bool,
) -> (Seq<AstV>, Seq<PropertyV>)
    decreases ps,
{
    if ps.len() == 0 {
        (Seq::empty(), Seq::empty())
    } else {
        let r = props_spec(ps.drop_last(), path, required);
        let name = ps.last().0;
        let t = transform_spec(ps.last().1, path.push(name));
        (r.0 + t.0, r.1.push(PropertyV { name: name, required: required, value: t.1 }))
    }
}

/// What transforming a discriminator mapping yields: one hoisted interface
/// per case, whose first property is the tag carrying the case name as a
/// literal type, and the case interfaces' identifiers for the union.
pub open spec fn cases_spec(
    ms: Seq<(Seq<char>, SchemaV)>,
    path: Seq<Seq<char>>,
    tag: Seq<char>,
) -> (Seq<AstV>, Seq<AstV>)
    decreases ms,
{
    if ms.len() == 0 {
        (Seq::empty(), Seq::empty())
    } else {
        let c = cases_spec(ms.drop_last(), path, tag);
        let name = ms.last().0;
        let cpath = path.push(name);
        let id = pascal_ident_spec(cpath);
        let tag_prop = PropertyV { name: tag, required: true, value: AstV::Literal(name) };
        let body = match ms.last().1.form {
            FormV::Properties(req, opt, _) => {
                let r = props_spec(req, cpath, true);
                let o = props_spec(opt, cpath, false);
                (r.0 + o.0, r.1 + o.1)
            },
            _ => (Seq::empty(), Seq::empty()),
        };
        (
            c.0 + body.0 + seq![AstV::Interface(id, seq![tag_prop] + body.1)],
            c.1.push(AstV::Identifier(id)),
        )
    }
}

/// The declarations that guarantee a transformed node a top-level name: an
/// alias is synthesized exactly when the inline expression is not already
/// a reference to (or itself) a named declaration.
pub open spec fn for_id_decls(path: Seq<Seq<char>>, a: AstV) -> Seq<AstV> {
    match a {
        AstV::Interface(_, _) => Seq::empty(),
        AstV::Type(_, _) => Seq::empty(),
        AstV::Identifier(_) => Seq::empty(),
        _ => seq![AstV::Type(pascal_ident_spec(path), Box::new(a))],
    }
}

/// The declarations of all definitions, each transformed at its
/// one-segment path and then coerced to a named declaration.
pub open spec fn defs_decls(defs: Seq<(Seq<char>, SchemaV)>) -> Seq<AstV>
    decreases defs,
{
    if defs.len() == 0 {
        Seq::empty()
    } else {
        let name = defs.last().0;
        let t = transform_spec(defs.last().1, seq![name]);
        defs_decls(defs.drop_last()) + t.0 + for_id_decls(seq![name], t.1)
    }
}

/// Everything one invocation of the transformer emits: the definitions in
/// order, then the document root under the root name.
pub open spec fn transform_doc_spec(s: SchemaV, root: Seq<char>) -> Seq<AstV> {
    let t = transform_spec(s, seq![root]);
    defs_decls(s.definitions) + t.0 + for_id_decls(seq![root], t.1)
}


/// Whether an AST can be rendered: a union of no members has no
/// TypeScript syntax, so every union must carry at least one member.
pub open spec fn ast_wf(a: AstV) -> bool
    decreases a, 1int,
{
    match a {
        AstV::Any => true,
        AstV::Boolean => true,
        AstV::Number => true,
        AstV::Str => true,
        AstV::Identifier(_) => true,
        AstV::Literal(_) => true,
        AstV::Array(sub) => ast_wf(*sub),
        AstV::Dict(sub) => ast_wf(*sub),
        AstV::Type(_, sub) => ast_wf(*sub),
        AstV::Interface(_, props) => props_wf(props),
        AstV::Union(vs) => vs.len() > 0 && list_wf(vs),
    }
}

pub open spec fn props_wf(ps: Seq<PropertyV>) -> bool
    decreases ps, 2int,
{
    if ps.len() == 0 {
        true
    } else {
        props_wf(ps.drop_last()) && ast_wf(ps.last().value)
    }
}

pub open spec fn list_wf(vs: Seq<AstV>) -> bool
    decreases vs, 2int,
{
    if vs.len() == 0 {
        true
    } else {
        list_wf(vs.drop_last()) && ast_wf(vs.last())
    }
}

pub open spec fn asts_wf(s: Seq<AstV>) -> bool {
    forall|k: int| 0 <= k < s.len() ==> ast_wf(#[trigger] s[k])
}

/// The TypeScript source text of one inline expression or declaration.
pub open spec fn render_spec(a: AstV) -> Seq<char>
    decreases a, 1int,
{
    match a {
        AstV::Any => "any"@,
        AstV::Boolean => "boolean"@,
        AstV::Number => "number"@,
        AstV::Str => "string"@,
        AstV::Identifier(id) => id,
        AstV::Literal(lit) => quote_spec(lit),
        AstV::Array(sub) => render_spec(*sub) + "[]"@,
        AstV::Dict(sub) => "{ [name: string]: "@ + render_spec(*sub) + " }"@,
        AstV::Type(id, sub) => "export type "@ + id + " = "@ + render_spec(*sub) + ";\n"@,
        AstV::Interface(name, props) => "export interface "@ + name + " {\n"@
            + render_props_spec(props) + "}\n"@,
        AstV::Union(vs) => render_union_spec(vs),
    }
}

/// One interface property line; an optional property gets a question mark.
pub open spec fn render_prop_spec(p: PropertyV) -> Seq<char>
    decreases p, 2int,
{
    let q = if p.required {
        Seq::<char>::empty()
    } else {
        "?"@
    };
    "  "@ + p.name + q + ": "@ + render_spec(p.value) + ";\n"@
}

pub open spec fn render_props_spec(ps: Seq<PropertyV>) -> Seq<char>
    decreases ps, 3int,
{
    if ps.len() == 0 {
        Seq::empty()
    } else {
        render_props_spec(ps.drop_last()) + render_prop_spec(ps.last())
    }
}

/// A union's members separated by vertical bars.
pub open spec fn render_union_spec(vs: Seq<AstV>) -> Seq<char>
    decreases vs, 2int,
{
    if vs.len() == 0 {
        Seq::empty()
    } else if vs.len() == 1 {
        render_spec(vs[0])
    } else {
        render_union_spec(vs.drop_last()) + " | "@ + render_spec(vs.last())
    }
}

pub open spec fn render_list_spec(asts: Seq<AstV>) -> Seq<char>
    decreases asts,
{
    if asts.len() == 0 {
        Seq::empty()
    } else {
        render_list_spec(asts.drop_last()) + render_spec(asts.last())
    }
}

/// The whole TypeScript source unit: every declaration in order.
pub open spec fn serialize_spec(asts: Seq<AstV>) -> Seq<char> {
    render_list_spec(asts)
}

pub proof fn lemma_props_view_points(ps: Seq<Property>)
    ensures
        props_view(ps).len() == ps.len(),
        forall|i: int| 0 <= i < ps.len() ==> #[trigger] props_view(ps)[i] == prop_view(ps[i]),
    decreases ps,
{
    if ps.len() > 0 {
        lemma_props_view_points(ps.drop_last());
        assert(forall|i: int| 0 <= i < ps.len() - 1 ==> ps.drop_last()[i] == ps[i]);
    }
}

pub proof fn lemma_list_view_points(vs: Seq<Ast>)
    ensures
        list_view(vs).len() == vs.len(),
        forall|i: int| 0 <= i < vs.len() ==> #[trigger] list_view(vs)[i] == ast_view(vs[i]),
    decreases vs,
{
    if vs.len() > 0 {
        lemma_list_view_points(vs.drop_last());
        assert(forall|i: int| 0 <= i < vs.len() - 1 ==> vs.drop_last()[i] == vs[i]);
    }
}

pub proof fn lemma_props_wf_index(ps: Seq<PropertyV>, i: int)
    requires
        props_wf(ps),
        0 <= i < ps.len(),
    ensures
        ast_wf(ps[i].value),
    decreases ps,
{
    if i < ps.len() - 1 {
        lemma_props_wf_index(ps.drop_last(), i);
    }
}

pub proof fn lemma_list_wf_index(vs: Seq<AstV>, i: int)
    requires
        list_wf(vs),
        0 <= i < vs.len(),
    ensures
        ast_wf(vs[i]),
    decreases vs,
{
    if i < vs.len() - 1 {
        lemma_list_wf_index(vs.drop_last(), i);
    }
}

pub proof fn lemma_asts_push(s: Seq<Ast>, x: Ast)
    ensures
        asts_view(s.push(x)) == asts_view(s).push(ast_view(x)),
{
    assert(asts_view(s.push(x)) =~= asts_view(s).push(ast_view(x)));
}

impl Codegen {
    /// Derives the TypeScript identifier of a traversal path.
    pub fn path_to_identifier(path: &Vec<String>) -> (r: String)
        ensures
            r@ == pascal_ident_spec(path_view(path@)),
    {
        pascal_identifier(path)
    }

    /// Transforms one property's schema with the property's name pushed on
    /// the path, and builds the field that carries it.
    fn transform_prop(
        &self,
        out: &mut Vec<Ast>,
        path: &mut Vec<String>,
        required: bool,
        name: &str,
        prop: &Schema,
    ) -> (p: Property)
        requires
            wf_form(prop@.form),
        ensures
            asts_view(final(out)@) == asts_view(old(out)@) + transform_spec(
                prop@,
                path_view(old(path)@).push(name@),
            ).0,
            path_view(final(path)@) == path_view(old(path)@),
            p@ == (PropertyV {
                name: name@,
                required: required,
                value: transform_spec(prop@, path_view(old(path)@).push(name@)).1,
            }),
        decreases prop, 1int,
    {
        let owned = name.to_owned();
        path.push(owned);
        proof {
            lemma_path_view_push(old(path)@, owned);
        }
        let value = self.transform_subschema(out, path, prop);
        proof {
            lemma_path_view_len(path@);
            lemma_path_view_len(old(path)@);
            assert(path_view(path@).len() == path_view(old(path)@).len() + 1);
        }
        let ghost mid = path@;
        let _ = path.pop();
        proof {
            assert(path@ =~= mid.drop_last());
            lemma_path_view_drop(mid);
            assert(path_view(mid).drop_last() =~= path_view(old(path)@));
        }
        Property { name: name.to_owned(), required, value }
    }

    /// Transforms every property of one list in order.
    #[verifier::loop_isolation(false)]
    fn transform_props(
        &self,
        out: &mut Vec<Ast>,
        path: &mut Vec<String>,
        required: bool,
        pairs: &Vec<(String, Schema)>,
        props: &mut Vec<Property>,
    )
        requires
            wf_pairs(pairs_view(pairs@)),
        ensures
            asts_view(final(out)@) == asts_view(old(out)@) + props_spec(
                pairs_view(pairs@),
                path_view(old(path)@),
                required,
            ).0,
            props_view(final(props)@) == props_view(old(props)@) + props_spec(
                pairs_view(pairs@),
                path_view(old(path)@),
                required,
            ).1,
            path_view(final(path)@) == path_view(old(path)@),
        decreases pairs@, 2int,
    {
        let ghost pv = path_view(old(path)@);
        let ghost psv = pairs_view(pairs@);
        proof {
            lemma_pairs_view_points(pairs@);
            assert(psv.take(0) =~= Seq::<(Seq<char>, SchemaV)>::empty());
            assert(asts_view(out@) =~= asts_view(out@) + props_spec(psv.take(0), pv, required).0);
            assert(props_view(props@) =~= props_view(props@) + props_spec(
                psv.take(0),
                pv,
                required,
            ).1);
        }
        let mut i: usize = 0;
        while i < pairs.len()
            invariant
                i <= pairs.len(),
                asts_view(out@) == asts_view(old(out)@) + props_spec(
                    psv.take(i as int),
                    pv,
                    required,
                ).0,
                props_view(props@) == props_view(old(props)@) + props_spec(
                    psv.take(i as int),
                    pv,
                    required,
                ).1,
                path_view(path@) == pv,
            decreases pairs@.len() - i,
        {
            let pair = &pairs[i];
            proof {
                lemma_wf_pairs_index(psv, i as int);
                assert(decreases_to!(pairs@ => pairs@[i as int]));
            }
            let p = self.transform_prop(out, path, required, pair.0.as_str(), &pair.1);
            let ghost props_pre = props@;
            let ghost p_v = prop_view(p);
            props.push(p);
            proof {
                assert(props_pre.push(p).drop_last() =~= props_pre);
                assert(props_view(props@) == props_view(props_pre).push(p_v));
                assert(psv.take(i + 1).drop_last() =~= psv.take(i as int));
                assert(psv.take(i + 1).last() == psv[i as int]);
                assert(props_view(props@) =~= props_view(old(props)@) + props_spec(
                    psv.take(i + 1),
                    pv,
                    required,
                ).1);
                assert(asts_view(out@) =~= asts_view(old(out)@) + props_spec(
                    psv.take(i + 1),
                    pv,
                    required,
                ).0);
            }
            i = i + 1;
        }
        proof {
            assert(psv.take(pairs@.len() as int) =~= psv);
        }
    }

    /// Transforms one node: returns the inline expression for the node and
    /// appends to the output whatever named declarations the node and its
    /// descendants require.
    #[verifier::loop_isolation(false)]
    #[verifier::rlimit(60)]
    fn transform_subschema(
        &self,
        out: &mut Vec<Ast>,
        path: &mut Vec<String>,
        schema: &Schema,
    ) -> (ast: Ast)
        requires
            wf_form(schema@.form),
        ensures
            asts_view(final(out)@) == asts_view(old(out)@) + transform_spec(
                schema@,
                path_view(old(path)@),
            ).0,
            path_view(final(path)@) == path_view(old(path)@),
            ast@ == transform_spec(schema@, path_view(old(path)@)).1,
        decreases schema, 0int,
    {
        let ghost pv = path_view(old(path)@);
        match &schema.form {
            Form::Empty => {
                proof {
                    assert(asts_view(out@) =~= asts_view(out@) + Seq::<AstV>::empty());
                }
                Ast::Any
            },
            Form::Ref(def) => {
                let mut p: Vec<String> = Vec::new();
                p.push(def.clone());
                let id = Self::path_to_identifier(&p);
                proof {
                    assert(path_view(p@) =~= seq![def@]);
                    assert(asts_view(out@) =~= asts_view(out@) + Seq::<AstV>::empty());
                }
                Ast::Identifier(id)
            },
            Form::Type(typ) => {
                proof {
                    assert(asts_view(out@) =~= asts_view(out@) + Seq::<AstV>::empty());
                }
                match typ {
                    Prim::Boolean => Ast::Boolean,
                    Prim::Number => Ast::Number,
                    Prim::Str => Ast::Str,
                    Prim::Timestamp => Ast::Str,
                }
            },
            Form::Enum(vals) => {
                let mut lits: Vec<Ast> = Vec::new();
                proof {
                    assert(vals.deep_view().take(0) =~= Seq::<Seq<char>>::empty());
                    assert(list_view(lits@) =~= enum_union_spec(vals.deep_view().take(0)));
                }
                let mut i: usize = 0;
                while i < vals.len()
                    invariant
                        i <= vals.len(),
                        list_view(lits@) == enum_union_spec(vals.deep_view().take(i as int)),
                    decreases vals@.len() - i,
                {
                    let ghost lits_pre = lits@;
                    let lit = Ast::Literal(vals[i].clone());
                    proof {
                        assert(ast_view(lit) == AstV::Literal(vals@[i as int]@));
                    }
                    lits.push(lit);
                    proof {
                        let vdv = vals.deep_view();
                        assert(lits_pre.push(lit).drop_last() =~= lits_pre);
                        assert(vdv.take(i + 1).drop_last() =~= vdv.take(i as int));
                        assert(vdv.take(i + 1).last() == vdv[i as int]);
                        assert(vdv[i as int] == vals@[i as int]@);
                        assert(list_view(lits@) =~= enum_union_spec(vdv.take(i + 1)));
                    }
                    i = i + 1;
                }
                proof {
                    assert(vals.deep_view().take(vals@.len() as int) =~= vals.deep_view());
                    assert(asts_view(out@) =~= asts_view(out@) + Seq::<AstV>::empty());
                }
                Ast::Union(lits)
            },
            Form::Elements(sub_schema) => {
                let inner = self.transform_subschema(out, path, sub_schema);
                Ast::Array(Box::new(inner))
            },
            Form::Properties(required, optional, _) => {
                let mut props: Vec<Property> = Vec::new();
                self.transform_props(out, path, true, required, &mut props);
                self.transform_props(out, path, false, optional, &mut props);
                let id = Self::path_to_identifier(path);
                let ghost r = props_spec(pairs_view(required@), pv, true);
                let ghost o = props_spec(pairs_view(optional@), pv, false);
                let ghost propsv = props_view(props@);
                proof {
                    assert(propsv =~= r.1 + o.1);
                }
                let ghost outp = out@;
                let idecl = Ast::Interface(id.clone(), props);
                out.push(idecl);
                proof {
                    lemma_asts_push(outp, idecl);
                    assert(ast_view(idecl) == AstV::Interface(pascal_ident_spec(pv), propsv));
                    assert(asts_view(out@) =~= asts_view(old(out)@) + (r.0 + o.0 + seq![
                        AstV::Interface(pascal_ident_spec(pv), r.1 + o.1),
                    ]));
                }
                Ast::Identifier(id)
            },
            Form::Values(sub_schema) => {
                let inner = self.transform_subschema(out, path, sub_schema);
                Ast::Dict(Box::new(inner))
            },
            Form::Discriminator(tag, mapping) => {
                let ghost mv = pairs_view(mapping@);
                proof {
                    lemma_pairs_view_points(mapping@);
                    assert(mv.take(0) =~= Seq::<(Seq<char>, SchemaV)>::empty());
                    assert(asts_view(out@) =~= asts_view(out@) + cases_spec(
                        mv.take(0),
                        pv,
                        tag@,
                    ).0);
                    assert(list_view(Seq::<Ast>::empty()) =~= cases_spec(
                        mv.take(0),
                        pv,
                        tag@,
                    ).1);
                }
                let mut cases: Vec<Ast> = Vec::new();
                let mut i: usize = 0;
                while i < mapping.len()
                    invariant
                        i <= mapping.len(),
                        asts_view(out@) == asts_view(old(out)@) + cases_spec(
                            mv.take(i as int),
                            pv,
                            tag@,
                        ).0,
                        list_view(cases@) == cases_spec(mv.take(i as int), pv, tag@).1,
                        path_view(path@) == pv,
                    decreases mapping@.len() - i,
                {
                    let pair = &mapping[i];
                    proof {
                        lemma_wf_pairs_index(mv, i as int);
                    }
                    let cased = pair.0.clone();
                    path.push(cased);
                    proof {
                        lemma_path_view_push(old(path)@, cased);
                        assert(path_view(path@) == pv.push(pair.0@));
                    }
                    match &pair.1.form {
                        Form::Properties(req, opt, _) => {
                            proof {
                                assert(decreases_to!(*schema => schema.form));
                                assert(decreases_to!(schema.form =>
                                    schema.form->Discriminator_1));
                                assert(decreases_to!(*schema => mapping@[i as int].1));
                                assert(pair.1 == mapping@[i as int].1);
                                assert(decreases_to!(pair.1 => pair.1.form));
                                assert(decreases_to!(pair.1.form => *req));
                                assert(decreases_to!(pair.1.form => *opt));
                                assert(decreases_to!(*req => req@));
                                assert(decreases_to!(*opt => opt@));
                                assert(decreases_to!(*schema => req@));
                                assert(decreases_to!(*schema => opt@));
                            }
                            let mut props: Vec<Property> = Vec::new();
                            let lit = Ast::Literal(pair.0.clone());
                            proof {
                                assert(ast_view(lit) == AstV::Literal(pair.0@));
                            }
                            let tag_prop = Property {
                                name: tag.clone(),
                                required: true,
                                value: lit,
                            };
                            proof {
                                assert(prop_view(tag_prop) == (PropertyV {
                                    name: tag@,
                                    required: true,
                                    value: AstV::Literal(pair.0@),
                                }));
                            }
                            props.push(tag_prop);
                            proof {
                                assert(props_view(Seq::<Property>::empty())
                                    == Seq::<PropertyV>::empty());
                                assert(props@.drop_last() =~= Seq::<Property>::empty());
                                assert(props_view(props@) =~= seq![
                                    PropertyV {
                                        name: tag@,
                                        required: true,
                                        value: AstV::Literal(pair.0@),
                                    },
                                ]);
                            }
                            let ghost props0 = props_view(props@);
                            self.transform_props(out, path, true, req, &mut props);
                            self.transform_props(out, path, false, opt, &mut props);
                            let id = Self::path_to_identifier(path);
                            let ghost cpath = pv.push(pair.0@);
                            let ghost r = props_spec(pairs_view(req@), cpath, true);
                            let ghost o = props_spec(pairs_view(opt@), cpath, false);
                            let ghost propsv = props_view(props@);
                            proof {
                                assert(propsv =~= props0 + r.1 + o.1);
                            }
                            let ghost outp = out@;
                            let idecl = Ast::Interface(id.clone(), props);
                            out.push(idecl);
                            let ghost cases_pre = cases@;
                            let cident = Ast::Identifier(id);
                            proof {
                                assert(ast_view(cident) == AstV::Identifier(
                                    pascal_ident_spec(cpath),
                                ));
                            }
                            cases.push(cident);
                            proof {
                                lemma_asts_push(outp, idecl);
                                assert(ast_view(idecl) == AstV::Interface(
                                    pascal_ident_spec(cpath),
                                    propsv,
                                ));
                                assert(cases_pre.push(cident).drop_last() =~= cases_pre);
                                assert(list_view(cases@) == list_view(cases_pre).push(
                                    AstV::Identifier(pascal_ident_spec(cpath)),
                                ));
                                assert(mv.take(i + 1).drop_last() =~= mv.take(i as int));
                                assert(mv.take(i + 1).last() == mv[i as int]);
                                assert(propsv =~= seq![
                                    PropertyV {
                                        name: tag@,
                                        required: true,
                                        value: AstV::Literal(pair.0@),
                                    },
                                ] + (r.1 + o.1));
                                assert(list_view(cases@) =~= cases_spec(
                                    mv.take(i + 1),
                                    pv,
                                    tag@,
                                ).1);
                                assert(asts_view(out@) =~= asts_view(old(out)@) + cases_spec(
                                    mv.take(i + 1),
                                    pv,
                                    tag@,
                                ).0);
                            }
                        },
                        _ => {
                            proof {
                                assert(false);
                            }
                        },
                    }
                    proof {
                        lemma_path_view_len(path@);
                    }
                    let ghost mid = path@;
                    let _ = path.pop();
                    proof {
                        assert(path@ =~= mid.drop_last());
                        lemma_path_view_drop(mid);
                        assert(path_view(mid).drop_last() =~= pv);
                    }
                    i = i + 1;
                }
                proof {
                    assert(mv.take(mapping@.len() as int) =~= mv);
                }
                Ast::Union(cases)
            },
        }
    }

    /// Ensures that a transformed node will have a top-level named
    /// declaration, and returns an identifier expression referring to it.
    fn transform_for_id(&self, out: &mut Vec<Ast>, path: &Vec<String>, ast: Ast) -> (r: Ast)
        ensures
            asts_view(final(out)@) == asts_view(old(out)@) + for_id_decls(
                path_view(path@),
                ast@,
            ),
            r@ == AstV::Identifier(pascal_ident_spec(path_view(path@))),
    {
        let needs_alias = match &ast {
            Ast::Interface(_, _) => false,
            Ast::Type(_, _) => false,
            Ast::Identifier(_) => false,
            _ => true,
        };
        if needs_alias {
            let ghost outp = out@;
            let ghost astv = ast_view(ast);
            let id = Self::path_to_identifier(path);
            let adecl = Ast::Type(id, Box::new(ast));
            out.push(adecl);
            proof {
                lemma_asts_push(outp, adecl);
                assert(ast_view(adecl) == AstV::Type(
                    pascal_ident_spec(path_view(path@)),
                    Box::new(astv),
                ));
                assert(asts_view(out@) =~= asts_view(old(out)@) + seq![ast_view(adecl)]);
            }
        } else {
            proof {
                assert(asts_view(out@) =~= asts_view(out@) + Seq::<AstV>::empty());
            }
        }
        Ast::Identifier(Self::path_to_identifier(path))
    }

    /// Transforms a whole document: every definition in order, then the
    /// document root, each coerced into a guaranteed named top-level
    /// declaration.
    #[verifier::loop_isolation(false)]
    pub fn transform(&self, schema: &Schema) -> (out: Vec<Ast>)
        requires
            wf_schema(schema@),
        ensures
            asts_view(out@) == transform_doc_spec(schema@, self.root_name@),
    {
        let ghost dv = pairs_view(schema.definitions@);
        proof {
            lemma_pairs_view_points(schema.definitions@);
        }
        let mut out: Vec<Ast> = Vec::new();
        proof {
            assert(asts_view(out@) =~= Seq::<AstV>::empty());
            assert(dv.take(0) =~= Seq::<(Seq<char>, SchemaV)>::empty());
        }
        let mut i: usize = 0;
        while i < schema.definitions.len()
            invariant
                i <= schema.definitions.len(),
                asts_view(out@) == defs_decls(dv.take(i as int)),
            decreases schema.definitions@.len() - i,
        {
            let def = &schema.definitions[i];
            proof {
                lemma_wf_pairs_index(dv, i as int);
                assert(decreases_to!(schema.definitions@ => schema.definitions@[i as int]));
            }
            let mut path: Vec<String> = Vec::new();
            path.push(def.0.clone());
            proof {
                assert(path_view(path@) =~= seq![def.0@]);
            }
            let ast = self.transform_subschema(&mut out, &mut path, &def.1);
            let _ = self.transform_for_id(&mut out, &path, ast);
            proof {
                assert(dv.take(i + 1).drop_last() =~= dv.take(i as int));
                assert(dv.take(i + 1).last() == dv[i as int]);
                assert(asts_view(out@) =~= defs_decls(dv.take(i + 1)));
            }
            i = i + 1;
        }
        proof {
            assert(dv.take(schema.definitions@.len() as int) =~= dv);
        }
        let mut path: Vec<String> = Vec::new();
        path.push(self.root_name.clone());
        proof {
            assert(path_view(path@) =~= seq![self.root_name@]);
        }
        let ast = self.transform_subschema(&mut out, &mut path, schema);
        let _ = self.transform_for_id(&mut out, &path, ast);
        proof {
            assert(asts_view(out@) =~= transform_doc_spec(schema@, self.root_name@));
        }
        out
    }

    /// Renders one declaration or inline expression as TypeScript source.
    #[verifier::loop_isolation(false)]
    #[verifier::rlimit(60)]
    fn serialize_subschema(&self, out: &mut String, ast: &Ast)
        requires
            ast_wf(ast@),
        ensures
            final(out)@ == old(out)@ + render_spec(ast@),
        decreases ast, 0int,
    {
        match ast {
            Ast::Any => {
                out.append("any");
            },
            Ast::Boolean => {
                out.append("boolean");
            },
            Ast::Number => {
                out.append("number");
            },
            Ast::Str => {
                out.append("string");
            },
            Ast::Identifier(id) => {
                out.append(id.as_str());
            },
            Ast::Literal(lit) => {
                let q = quote(lit.as_str());
                out.append(q.as_str());
            },
            Ast::Array(sub) => {
                self.serialize_subschema(out, &**sub);
                out.append("[]");
                proof {
                    assert(out@ =~= old(out)@ + render_spec(ast@));
                }
            },
            Ast::Dict(sub) => {
                out.append("{ [name: string]: ");
                self.serialize_subschema(out, &**sub);
                out.append(" }");
                proof {
                    assert(out@ =~= old(out)@ + render_spec(ast@));
                }
            },
            Ast::Type(id, sub) => {
                out.append("export type ");
                out.append(id.as_str());
                out.append(" = ");
                self.serialize_subschema(out, &**sub);
                out.append(";\n");
                proof {
                    assert(out@ =~= old(out)@ + render_spec(ast@));
                }
            },
            Ast::Interface(name, props) => {
                out.append("export interface ");
                out.append(name.as_str());
                out.append(" {\n");
                proof {
                    assert(decreases_to!(*ast => props@));
                }
                self.serialize_props(out, props);
                out.append("}\n");
                proof {
                    assert(out@ =~= old(out)@ + render_spec(ast@));
                }
            },
            Ast::Union(vs) => {
                proof {
                    assert(decreases_to!(*ast => vs@));
                }
                self.serialize_union(out, vs);
            },
        }
    }

    /// Renders the property lines of an interface.
    #[verifier::loop_isolation(false)]
    #[verifier::rlimit(60)]
    fn serialize_props(&self, out: &mut String, props: &Vec<Property>)
        requires
            props_wf(props_view(props@)),
        ensures
            final(out)@ == old(out)@ + render_props_spec(props_view(props@)),
        decreases props@, 1int,
    {
        let ghost propsv = props_view(props@);
        let ghost base = out@;
        proof {
            lemma_props_view_points(props@);
            assert(propsv.take(0) =~= Seq::<PropertyV>::empty());
            assert(out@ =~= base + render_props_spec(propsv.take(0)));
        }
        let mut k: usize = 0;
        while k < props.len()
            invariant
                k <= props.len(),
                out@ == base + render_props_spec(propsv.take(k as int)),
            decreases props@.len() - k,
        {
            let prop = &props[k];
            proof {
                lemma_props_wf_index(propsv, k as int);
                assert(decreases_to!(props@ => props@[k as int]));
                assert(decreases_to!(props@ => prop.value));
            }
            out.append("  ");
            out.append(prop.name.as_str());
            if !prop.required {
                out.append("?");
            }
            out.append(": ");
            self.serialize_subschema(out, &prop.value);
            out.append(";\n");
            proof {
                assert(propsv.take(k + 1).drop_last() =~= propsv.take(k as int));
                assert(propsv.take(k + 1).last() == propsv[k as int]);
                assert(propsv[k as int] == prop_view(props@[k as int]));
                assert(render_props_spec(propsv.take(k + 1)) == render_props_spec(
                    propsv.take(k as int),
                ) + render_prop_spec(propsv[k as int]));
                assert(render_prop_spec(propsv[k as int]) == "  "@ + prop.name@ + (
                    if prop.required {
                        Seq::<char>::empty()
                    } else {
                        "?"@
                    }) + ": "@ + render_spec(ast_view(prop.value)) + ";\n"@);
                assert(out@ =~= base + render_props_spec(propsv.take(k + 1)));
            }
            k = k + 1;
        }
        proof {
            assert(propsv.take(props@.len() as int) =~= propsv);
        }
    }

    /// Renders a union's members separated by vertical bars.
    #[verifier::loop_isolation(false)]
    #[verifier::rlimit(60)]
    fn serialize_union(&self, out: &mut String, vs: &Vec<Ast>)
        requires
            list_wf(list_view(vs@)),
            vs@.len() > 0,
        ensures
            final(out)@ == old(out)@ + render_union_spec(list_view(vs@)),
        decreases vs@, 1int,
    {
        let ghost lv = list_view(vs@);
        let ghost base = out@;
        proof {
            lemma_list_view_points(vs@);
        }
        let mut k: usize = 0;
        while k < vs.len()
            invariant
                k <= vs.len(),
                out@ == base + render_union_spec(lv.take(k as int)),
            decreases vs@.len() - k,
        {
            let member = &vs[k];
            proof {
                lemma_list_wf_index(lv, k as int);
                assert(decreases_to!(vs@ => vs@[k as int]));
            }
            if k > 0 {
                out.append(" | ");
            }
            self.serialize_subschema(out, member);
            proof {
                assert(lv.take(k + 1).drop_last() =~= lv.take(k as int));
                assert(lv.take(k + 1).last() == lv[k as int]);
                if k == 0 {
                    assert(lv.take(1) =~= seq![lv[0]]);
                    assert(render_union_spec(lv.take(1)) == render_spec(lv[0]));
                } else {
                    assert(render_union_spec(lv.take(k + 1)) == render_union_spec(
                        lv.take(k as int),
                    ) + " | "@ + render_spec(lv[k as int]));
                }
                assert(out@ =~= base + render_union_spec(lv.take(k + 1)));
            }
            k = k + 1;
        }
        proof {
            assert(lv.take(vs@.len() as int) =~= lv);
        }
    }

    /// Emits the whole TypeScript source unit: every declaration in order.
    #[verifier::loop_isolation(false)]
    pub fn serialize(&self, asts: &Vec<Ast>) -> (r: String)
        requires
            asts_wf(asts_view(asts@)),
        ensures
            r@ == serialize_spec(asts_view(asts@)),
    {
        let mut out = String::new();
        let ghost av = asts_view(asts@);
        let ghost base = out@;
        proof {
            assert(av.take(0) =~= Seq::<AstV>::empty());
            assert(out@ =~= base + render_list_spec(av.take(0)));
        }
        let mut k: usize = 0;
        while k < asts.len()
            invariant
                k <= asts.len(),
                out@ == base + render_list_spec(av.take(k as int)),
            decreases asts@.len() - k,
        {
            proof {
                assert(ast_wf(av[k as int]));
            }
            self.serialize_subschema(&mut out, &asts[k]);
            proof {
                assert(av.take(k + 1).drop_last() =~= av.take(k as int));
                assert(av.take(k + 1).last() == av[k as int]);
                assert(out@ =~= base + render_list_spec(av.take(k + 1)));
            }
            k = k + 1;
        }
        proof {
            assert(av.take(asts@.len() as int) =~= av);
            assert(out@ =~= serialize_spec(av));
        }
        out
    }

}


/// The name a declaration is reachable under, if it has one.
pub open spec fn decl_name(a: AstV) -> Option<Seq<char>> {
    match a {
        AstV::Type(id, _) => Option::Some(id),
        AstV::Interface(id, _) => Option::Some(id),
        _ => Option::None,
    }
}

/// Whether an output holds a declaration reachable under a name.
pub open spec fn declares(out: Seq<AstV>, name: Seq<char>) -> bool {
    exists|k: int| 0 <= k < out.len() && decl_name(#[trigger] out[k]) == Option::Some(name)
}

/// Transforming one node and coercing the result always leaves a
/// declaration named by the node's own path, for every form but a bare
/// reference (which stays a reference to the definition it names).
pub proof fn lemma_transform_named(s: SchemaV, path: Seq<Seq<char>>)
    requires
        wf_form(s.form),
        !(s.form is Ref),
    ensures
        declares(
            transform_spec(s, path).0 + for_id_decls(path, transform_spec(s, path).1),
            pascal_ident_spec(path),
        ),
{
    let t = transform_spec(s, path);
    let d = t.0 + for_id_decls(path, t.1);
    let id = pascal_ident_spec(path);
    match s.form {
        FormV::Empty => {
            assert(decl_name(d[0]) == Option::Some(id));
        },
        FormV::Ref(_) => {
        },
        FormV::Type(_) => {
            assert(decl_name(d[0]) == Option::Some(id));
        },
        FormV::Enum(_) => {
            assert(d.len() == 1);
            assert(decl_name(d[0]) == Option::Some(id));
        },
        FormV::Elements(_) => {
            assert(d.len() == t.0.len() + 1);
            assert(decl_name(d[d.len() - 1]) == Option::Some(id));
        },
        FormV::Properties(req, opt, _) => {
            let r = props_spec(req, path, true);
            let o = props_spec(opt, path, false);
            let w = r.0.len() + o.0.len();
            assert(t.0[w as int] == AstV::Interface(id, r.1 + o.1));
            assert(decl_name(d[w as int]) == Option::Some(id));
        },
        FormV::Values(_) => {
            assert(d.len() == t.0.len() + 1);
            assert(decl_name(d[d.len() - 1]) == Option::Some(id));
        },
        FormV::Discriminator(tag, mapping) => {
            assert(d.len() == t.0.len() + 1);
            assert(decl_name(d[d.len() - 1]) == Option::Some(id));
        },
    }
}

/// A declaration block keeps its names when more declarations follow or
/// precede it.
pub proof fn lemma_declares_concat(a: Seq<AstV>, b: Seq<AstV>, name: Seq<char>)
    requires
        declares(a, name) || declares(b, name),
    ensures
        declares(a + b, name),
{
    if declares(a, name) {
        let k = choose|k: int| 0 <= k < a.len() && decl_name(#[trigger] a[k]) == Option::Some(
            name,
        );
        assert(decl_name((a + b)[k]) == Option::Some(name));
    } else {
        let k = choose|k: int| 0 <= k < b.len() && decl_name(#[trigger] b[k]) == Option::Some(
            name,
        );
        assert(decl_name((a + b)[a.len() + k]) == Option::Some(name));
    }
}

/// Every definition whose form is not a bare reference gets a top-level
/// declaration named by its one-segment path.
pub proof fn lemma_defs_decls_named(defs: Seq<(Seq<char>, SchemaV)>, i: int)
    requires
        wf_pairs(defs),
        0 <= i < defs.len(),
        !(defs[i].1.form is Ref),
    ensures
        declares(defs_decls(defs), pascal_ident_spec(seq![defs[i].0])),
    decreases defs,
{
    let name = defs.last().0;
    let t = transform_spec(defs.last().1, seq![name]);
    if i == defs.len() - 1 {
        lemma_wf_pairs_index(defs, i);
        lemma_transform_named(defs.last().1, seq![defs.last().0]);
        lemma_declares_concat(
            defs_decls(defs.drop_last()),
            t.0 + for_id_decls(seq![name], t.1),
            pascal_ident_spec(seq![defs.last().0]),
        );
        assert(defs_decls(defs.drop_last()) + (t.0 + for_id_decls(seq![name], t.1))
            =~= defs_decls(defs));
    } else {
        lemma_defs_decls_named(defs.drop_last(), i);
        lemma_declares_concat(
            defs_decls(defs.drop_last()),
            t.0 + for_id_decls(seq![name], t.1),
            pascal_ident_spec(seq![defs.drop_last()[i].0]),
        );
        assert(defs_decls(defs.drop_last()) + (t.0 + for_id_decls(seq![name], t.1))
            =~= defs_decls(defs));
    }
}

/// Top-level nameability: transforming a document leaves, for every
/// definition that is not a bare reference, a top-level declaration
/// reachable under the identifier of that definition's one-segment path.
pub proof fn lemma_definition_nameable(s: SchemaV, root: Seq<char>, i: int)
    requires
        wf_schema(s),
        0 <= i < s.definitions.len(),
        !(s.definitions[i].1.form is Ref),
    ensures
        declares(transform_doc_spec(s, root), pascal_ident_spec(seq![s.definitions[i].0])),
{
    let t = transform_spec(s, seq![root]);
    lemma_defs_decls_named(s.definitions, i);
    lemma_declares_concat(
        defs_decls(s.definitions),
        t.0 + for_id_decls(seq![root], t.1),
        pascal_ident_spec(seq![s.definitions[i].0]),
    );
    assert(defs_decls(s.definitions) + (t.0 + for_id_decls(seq![root], t.1))
        =~= transform_doc_spec(s, root));
}

/// Top-level nameability of the document root: unless the root is a bare
/// reference, the output holds a declaration reachable under the root
/// identifier.
pub proof fn lemma_root_nameable(s: SchemaV, root: Seq<char>)
    requires
        wf_schema(s),
        !(s.form is Ref),
    ensures
        declares(transform_doc_spec(s, root), pascal_ident_spec(seq![root])),
{
    let t = transform_spec(s, seq![root]);
    lemma_transform_named(s, seq![root]);
    lemma_declares_concat(
        defs_decls(s.definitions),
        t.0 + for_id_decls(seq![root], t.1),
        pascal_ident_spec(seq![root]),
    );
    assert(defs_decls(s.definitions) + (t.0 + for_id_decls(seq![root], t.1))
        =~= transform_doc_spec(s, root));
}

/// Naming round trip: when every name a ref form mentions is a definition
/// name, and no definition is itself a bare reference, every ref in the
/// document resolves to a declaration whose identifier is derived from the
/// referenced definition's one-segment path.
pub proof fn lemma_refs_resolve(s: SchemaV, root: Seq<char>, name: Seq<char>)
    requires
        wf_schema(s),
        schema_refs(s).contains(name),
        forall|n: Seq<char>|
            schema_refs(s).contains(n) ==> definition_names(s).contains(n),
        forall|i: int|
            0 <= i < s.definitions.len() ==> !((#[trigger] s.definitions[i].1).form is Ref),
    ensures
        declares(transform_doc_spec(s, root), pascal_ident_spec(seq![name])),
{
    assert(definition_names(s).contains(name));
    let i = choose|i: int|
        0 <= i < definition_names(s).len() && definition_names(s)[i] == name;
    assert(s.definitions[i].0 == name);
    lemma_definition_nameable(s, root, i);
}

/// Determinism: the transformation and the emission are functions of the
/// schema and the root name alone, so two runs over equal inputs agree
/// declaration for declaration and byte for byte.
pub proof fn lemma_output_deterministic(
    s1: SchemaV,
    s2: SchemaV,
    root1: Seq<char>,
    root2: Seq<char>,
)
    requires
        s1 == s2,
        root1 == root2,
    ensures
        transform_doc_spec(s1, root1) == transform_doc_spec(s2, root2),
        serialize_spec(transform_doc_spec(s1, root1)) == serialize_spec(
            transform_doc_spec(s2, root2),
        ),
{
}

} // verus!
