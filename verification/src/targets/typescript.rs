//! A TypeScript renderer that emits source text directly while walking the
//! schema: interfaces for objects and for discriminated-union cases, type
//! aliases so that every definition is nameable, and description texts
//! copied into line comments. Only object and discriminated-union forms get
//! declarations of their own; every other form is embedded inline.

use vstd::prelude::*;

use crate::ident::{class_ident_spec, class_identifier, lemma_path_view_drop,
    lemma_path_view_len, lemma_path_view_push, path_view};
use crate::schema::{lemma_pairs_view_points, lemma_wf_pairs_index, pairs_view, wf_form,
    wf_pairs, wf_schema, Form, FormV, Prim, Schema, SchemaV};

verus! {

/// Where the renderer reads and writes: the output directory, the input
/// file whose stem names the root type, and an optional explicit output
/// file name.
pub struct Config {
    pub out_dir: String,
    pub in_file: String,
    pub out_file: Option<String>,
}

/// A description copied into comments: each line of the text behind the
/// given prefix, every line closed with a newline.
pub open spec fn comment_body_spec(prefix: Seq<char>, s: Seq<char>) -> Seq<char>
    decreases s.len(),
{
    if s.len() == 0 {
        Seq::empty()
    } else {
        comment_body_spec(prefix, s.drop_last()) + (if s.last() == '\n' {
            "\n"@ + prefix
        } else {
            seq![s.last()]
        })
    }
}

pub open spec fn comment_spec(prefix: Seq<char>, s: Seq<char>) -> Seq<char> {
    prefix + comment_body_spec(prefix, s) + "\n"@
}

/// An enum as an inline union of quoted values.
pub open spec fn enum_expr_spec(vals: Seq<Seq<char>>) -> Seq<char>
    decreases vals,
{
    if vals.len() == 0 {
        Seq::empty()
    } else if vals.len() == 1 {
        "\""@ + vals[0] + "\""@
    } else {
        enum_expr_spec(vals.drop_last()) + " | "@ + "\""@ + vals.last() + "\""@
    }
}

/// Names joined into a union type expression.
pub open spec fn join_bar_spec(names: Seq<Seq<char>>) -> Seq<char>
    decreases names,
{
    if names.len() == 0 {
        Seq::empty()
    } else if names.len() == 1 {
        names[0]
    } else {
        join_bar_spec(names.drop_last()) + " | "@ + names.last()
    }
}

/// One interface field line, with the property's description, if any, as
/// a comment above it.
pub open spec fn field_spec(entry: (Seq<char>, Seq<char>, Option<Seq<char>>), opt: bool) -> Seq<
    char,
> {
    let comment = match entry.2 {
        Option::Some(d) => comment_spec("  // "@, d),
        Option::None => Seq::empty(),
    };
    let q = if opt {
        "?"@
    } else {
        Seq::<char>::empty()
    };
    comment + "  "@ + entry.0 + q + ": "@ + entry.1 + ";\n"@
}

pub open spec fn fields_spec(
    entries: Seq<(Seq<char>, Seq<char>, Option<Seq<char>>)>,
    opt: bool,
) -> Seq<char>
    decreases entries,
{
    if entries.len() == 0 {
        Seq::empty()
    } else {
        fields_spec(entries.drop_last(), opt) + field_spec(entries.last(), opt)
    }
}

/// The text of one interface, assembled from the already-rendered
/// property parts: the nested declarations first, then the interface
/// itself — the tag field as a literal type when the interface is a
/// discriminated-union case, then the required fields, then the optional
/// ones.
pub open spec fn interface_text_spec(
    id: Seq<char>,
    tag: Option<(Seq<char>, Seq<char>)>,
    rp: (Seq<char>, Seq<(Seq<char>, Seq<char>, Option<Seq<char>>)>),
    op: (Seq<char>, Seq<(Seq<char>, Seq<char>, Option<Seq<char>>)>),
) -> Seq<char> {
    let tag_line = match tag {
        Option::Some(t) => "  "@ + t.0 + ": "@ + "\""@ + t.1 + "\""@ + ";\n"@,
        Option::None => Seq::<char>::empty(),
    };
    rp.0 + op.0 + "export interface "@ + id + " {\n"@ + tag_line + fields_spec(rp.1, false)
        + fields_spec(op.1, true) + "}\n"@
}

/// What rendering one node yields: the declarations and comments written
/// to the output, and the inline type expression returned to the parent.
pub open spec fn render_schema_spec(s: SchemaV, path: Seq<Seq<char>>) -> (Seq<char>, Seq<char>)
    decreases s,
{
    match s.form {
        FormV::Empty => (Seq::empty(), "any"@),
        FormV::Ref(def) => (Seq::empty(), class_ident_spec(seq![def])),
        FormV::Type(p) => (
            Seq::empty(),
            match p {
                Prim::Boolean => "boolean"@,
                Prim::Number => "number"@,
                Prim::Str => "string"@,
                Prim::Timestamp => "string"@,
            },
        ),
        FormV::Enum(vals) => (Seq::empty(), enum_expr_spec(vals)),
        FormV::Elements(sub) => {
            let r = render_schema_spec(*sub, path);
            (r.0, r.1 + "[]"@)
        },
        FormV::Properties(req, opt, _) => {
            let comment = match s.description {
                Option::Some(d) => comment_spec("// "@, d),
                Option::None => Seq::empty(),
            };
            let id = class_ident_spec(path);
            let text = interface_text_spec(
                id,
                Option::None,
                props_render_spec(req, path),
                props_render_spec(opt, path),
            );
            (comment + text, id)
        },
        FormV::Values(sub) => {
            let r = render_schema_spec(*sub, path);
            (r.0, "{ [name: string]: "@ + r.1 + " }"@)
        },
        FormV::Discriminator(tag, mapping) => {
            let c = cases_spec(mapping, path, tag);
            let id = class_ident_spec(path);
            (c.0 + "export type "@ + id + " = "@ + join_bar_spec(c.1) + ";\n"@, id)
        },
    }
}

/// What rendering a property list yields: the children's declaration
/// text, and one (name, expression, description) entry per property.
pub open spec fn props_render_spec(ps: Seq<(Seq<char>, SchemaV)>, path: Seq<Seq<char>>) -> (
    Seq<char>,
    Seq<(Seq<char>, Seq<char>, Option<Seq<char>>)>,
)
    decreases ps,
{
    if ps.len() == 0 {
        (Seq::empty(), Seq::empty())
    } else {
        let r = props_render_spec(ps.drop_last(), path);
        let name = ps.last().0;
        let t = render_schema_spec(ps.last().1, path.push(name));
        (r.0 + t.0, r.1.push((name, t.1, ps.last().1.description)))
    }
}

/// What rendering a discriminator mapping yields: each case as an
/// interface whose tag field carries the case name as a literal type, and
/// the case identifiers for the union alias.
pub open spec fn cases_spec(
    ms: Seq<(Seq<char>, SchemaV)>,
    path: Seq<Seq<char>>,
    tag: Seq<char>,
) -> (Seq<char>, Seq<Seq<char>>)
    decreases ms,
{
    if ms.len() == 0 {
        (Seq::empty(), Seq::empty())
    } else {
        let c = cases_spec(ms.drop_last(), path, tag);
        let name = ms.last().0;
        let cpath = path.push(name);
        let id = class_ident_spec(cpath);
        let body = match ms.last().1.form {
            FormV::Properties(req, opt, _) => interface_text_spec(
                id,
                Option::Some((tag, name)),
                props_render_spec(req, cpath),
                props_render_spec(opt, cpath),
            ),
            _ => Seq::<char>::empty(),
        };
        (c.0 + body, c.1.push(id))
    }
}

/// What rendering an interface yields: its text and its identifier.
pub open spec fn render_interface_spec(
    path: Seq<Seq<char>>,
    tag: Option<(Seq<char>, Seq<char>)>,
    req: Seq<(Seq<char>, SchemaV)>,
    opt: Seq<(Seq<char>, SchemaV)>,
) -> (Seq<char>, Seq<char>) {
    let id = class_ident_spec(path);
    (
        interface_text_spec(id, tag, props_render_spec(req, path), props_render_spec(opt, path)),
        id,
    )
}

/// A definition whose form writes no declaration of its own still gets a
/// type alias, so that every ref form resolves to an eponymous type.
pub open spec fn def_alias_spec(s: SchemaV, name: Seq<char>, expr: Seq<char>) -> Seq<char> {
    match s.form {
        FormV::Properties(_, _, _) => Seq::empty(),
        FormV::Discriminator(_, _) => Seq::empty(),
        _ => "export type "@ + class_ident_spec(seq![name]) + " = "@ + expr + ";\n"@,
    }
}

pub open spec fn defs_render_spec(defs: Seq<(Seq<char>, SchemaV)>) -> Seq<char>
    decreases defs,
{
    if defs.len() == 0 {
        Seq::empty()
    } else {
        let name = defs.last().0;
        let t = render_schema_spec(defs.last().1, seq![name]);
        defs_render_spec(defs.drop_last()) + t.0 + def_alias_spec(defs.last().1, name, t.1)
    }
}

/// The whole source unit: every definition, an alias where one is needed,
/// the root's declarations, and a default export of the root type.
pub open spec fn render_doc_spec(s: SchemaV, root: Seq<char>) -> Seq<char> {
    let t = render_schema_spec(s, seq![root]);
    defs_render_spec(s.definitions) + t.0 + "export default "@ + t.1 + ";\n"@
}


/// The view of an optional tag pair.
pub open spec fn tag_view(t: Option<(String, String)>) -> Option<(Seq<char>, Seq<char>)> {
    match t {
        Option::Some(p) => Option::Some((p.0@, p.1@)),
        Option::None => Option::None,
    }
}

/// The views of collected property entries.
pub open spec fn entries_view(es: Seq<(String, String, Option<String>)>) -> Seq<
    (Seq<char>, Seq<char>, Option<Seq<char>>),
> {
    es.map_values(
        |e: (String, String, Option<String>)|
            (
                e.0@,
                e.1@,
                match e.2 {
                    Option::Some(d) => Option::Some(d@),
                    Option::None => Option::None,
                },
            ),
    )
}

/// Derives the identifier of a traversal path.
pub fn path_to_identifier(path: &Vec<String>) -> (r: String)
    ensures
        r@ == class_ident_spec(path_view(path@)),
{
    class_identifier(path)
}

/// Writes a description as line comments behind a prefix.
#[verifier::loop_isolation(false)]
fn write_comment(out: &mut String, prefix: &str, text: &str)
    ensures
        final(out)@ == old(out)@ + comment_spec(prefix@, text@),
{
    out.append(prefix);
    let n = text.unicode_len();
    let mut i: usize = 0;
    while i < n
        invariant
            i <= n,
            n == text@.len(),
            out@ == old(out)@ + prefix@ + comment_body_spec(prefix@, text@.take(i as int)),
        decreases n - i,
    {
        let c = text.get_char(i);
        if c == '\n' {
            out.append("\n");
            out.append(prefix);
        } else {
            crate::text::push_char(out, c);
        }
        proof {
            assert(text@.take(i + 1).drop_last() =~= text@.take(i as int));
            assert(text@.take(i + 1).last() == text@[i as int]);
            assert(out@ =~= old(out)@ + prefix@ + comment_body_spec(prefix@, text@.take(i + 1)));
        }
        i = i + 1;
    }
    out.append("\n");
    proof {
        assert(text@.take(text@.len() as int) =~= text@);
        assert(out@ =~= old(out)@ + comment_spec(prefix@, text@));
    }
}

/// Writes the collected fields of one interface section.
#[verifier::loop_isolation(false)]
#[verifier::rlimit(60)]
fn write_fields(out: &mut String, entries: &Vec<(String, String, Option<String>)>, opt: bool)
    ensures
        final(out)@ == old(out)@ + fields_spec(entries_view(entries@), opt),
{
    let ghost ev = entries_view(entries@);
    let ghost base = out@;
    proof {
        assert(ev.take(0) =~= Seq::<(Seq<char>, Seq<char>, Option<Seq<char>>)>::empty());
        assert(out@ =~= base + fields_spec(ev.take(0), opt));
    }
    let mut k: usize = 0;
    while k < entries.len()
        invariant
            k <= entries.len(),
            out@ == base + fields_spec(ev.take(k as int), opt),
        decreases entries@.len() - k,
    {
        let entry = &entries[k];
        match &entry.2 {
            Option::Some(d) => {
                write_comment(out, "  // ", d.as_str());
            },
            Option::None => {},
        }
        out.append("  ");
        out.append(entry.0.as_str());
        if opt {
            out.append("?");
        }
        out.append(": ");
        out.append(entry.1.as_str());
        out.append(";\n");
        proof {
            assert(ev.take(k + 1).drop_last() =~= ev.take(k as int));
            assert(ev.take(k + 1).last() == ev[k as int]);
            assert(fields_spec(ev.take(k + 1), opt) == fields_spec(ev.take(k as int), opt)
                + field_spec(ev[k as int], opt));
            assert(out@ =~= base + fields_spec(ev.take(k + 1), opt));
        }
        k = k + 1;
    }
    proof {
        assert(ev.take(entries@.len() as int) =~= ev);
    }
}

/// Renders every property of one list: the children's declarations go to
/// the output at once, the field entries are collected for the enclosing
/// interface.
#[verifier::loop_isolation(false)]
#[verifier::rlimit(60)]
fn render_props(
    out: &mut String,
    path: &mut Vec<String>,
    pairs: &Vec<(String, Schema)>,
    entries: &mut Vec<(String, String, Option<String>)>,
)
    requires
        wf_pairs(pairs_view(pairs@)),
    ensures
        final(out)@ == old(out)@ + props_render_spec(
            pairs_view(pairs@),
            path_view(old(path)@),
        ).0,
        entries_view(final(entries)@) == entries_view(old(entries)@) + props_render_spec(
            pairs_view(pairs@),
            path_view(old(path)@),
        ).1,
        path_view(final(path)@) == path_view(old(path)@),
    decreases pairs@, 1int,
{
    let ghost pv = path_view(old(path)@);
    let ghost psv = pairs_view(pairs@);
    proof {
        lemma_pairs_view_points(pairs@);
        assert(psv.take(0) =~= Seq::<(Seq<char>, SchemaV)>::empty());
        assert(out@ =~= out@ + props_render_spec(psv.take(0), pv).0);
        assert(entries_view(entries@) =~= entries_view(entries@) + props_render_spec(
            psv.take(0),
            pv,
        ).1);
    }
    let mut i: usize = 0;
    while i < pairs.len()
        invariant
            i <= pairs.len(),
            out@ == old(out)@ + props_render_spec(psv.take(i as int), pv).0,
            entries_view(entries@) == entries_view(old(entries)@) + props_render_spec(
                psv.take(i as int),
                pv,
            ).1,
            path_view(path@) == pv,
        decreases pairs@.len() - i,
    {
        let pair = &pairs[i];
        proof {
            lemma_wf_pairs_index(psv, i as int);
            assert(decreases_to!(pairs@ => pairs@[i as int]));
            assert(decreases_to!(pairs@ => pair.1));
        }
        let ghost cur = path@;
        let pname = pair.0.clone();
        path.push(pname);
        proof {
            lemma_path_view_push(cur, pname);
            assert(path_view(path@) == pv.push(pair.0@));
        }
        let expr = render_schema(out, path, &pair.1);
        proof {
            lemma_path_view_len(path@);
            lemma_path_view_len(cur);
        }
        let ghost mid = path@;
        let _ = path.pop();
        proof {
            assert(path@ =~= mid.drop_last());
            lemma_path_view_drop(mid);
            assert(path_view(mid).drop_last() =~= pv);
        }
        let desc: Option<String> = match &pair.1.description {
            Option::Some(d) => Option::Some(d.clone()),
            Option::None => Option::None,
        };
        let ghost entries_pre = entries@;
        let entry = (pair.0.clone(), expr, desc);
        entries.push(entry);
        proof {
            assert(psv.take(i + 1).drop_last() =~= psv.take(i as int));
            assert(psv.take(i + 1).last() == psv[i as int]);
            assert(entries_view(entries@) =~= entries_view(entries_pre).push((
                psv[i as int].0,
                render_schema_spec(psv[i as int].1, pv.push(psv[i as int].0)).1,
                psv[i as int].1.description,
            )));
            assert(entries_view(entries@) =~= entries_view(old(entries)@) + props_render_spec(
                psv.take(i + 1),
                pv,
            ).1);
            assert(out@ =~= old(out)@ + props_render_spec(psv.take(i + 1), pv).0);
        }
        i = i + 1;
    }
    proof {
        assert(psv.take(pairs@.len() as int) =~= psv);
    }
}

/// Renders one interface: the properties' nested declarations first, then
/// the interface with its tag field, required fields and optional fields.
/// Returns the interface's identifier.
#[verifier::loop_isolation(false)]
#[verifier::rlimit(60)]
fn render_interface(
    out: &mut String,
    path: &mut Vec<String>,
    tag: Option<(String, String)>,
    required: &Vec<(String, Schema)>,
    optional: &Vec<(String, Schema)>,
    parent: Ghost<Schema>,
) -> (r: String)
    requires
        wf_pairs(pairs_view(required@)),
        wf_pairs(pairs_view(optional@)),
        decreases_to!(parent@, 0int => required@, 1int),
        decreases_to!(parent@, 0int => optional@, 1int),
    ensures
        final(out)@ == old(out)@ + render_interface_spec(
            path_view(old(path)@),
            tag_view(tag),
            pairs_view(required@),
            pairs_view(optional@),
        ).0,
        path_view(final(path)@) == path_view(old(path)@),
        r@ == class_ident_spec(path_view(old(path)@)),
    decreases parent@, 0int,
{
    let ghost pv = path_view(old(path)@);
    let mut rentries: Vec<(String, String, Option<String>)> = Vec::new();
    render_props(out, path, required, &mut rentries);
    let mut oentries: Vec<(String, String, Option<String>)> = Vec::new();
    render_props(out, path, optional, &mut oentries);
    proof {
        assert(entries_view(rentries@) =~= props_render_spec(pairs_view(required@), pv).1);
        assert(entries_view(oentries@) =~= props_render_spec(pairs_view(optional@), pv).1);
    }
    let id = path_to_identifier(path);
    out.append("export interface ");
    out.append(id.as_str());
    out.append(" {\n");
    match &tag {
        Option::Some(t) => {
            out.append("  ");
            out.append(t.0.as_str());
            out.append(": ");
            out.append("\"");
            out.append(t.1.as_str());
            out.append("\"");
            out.append(";\n");
        },
        Option::None => {},
    }
    write_fields(out, &rentries, false);
    write_fields(out, &oentries, true);
    out.append("}\n");
    proof {
        assert(out@ =~= old(out)@ + render_interface_spec(
            pv,
            tag_view(tag),
            pairs_view(required@),
            pairs_view(optional@),
        ).0);
    }
    id
}

/// Renders one node: writes whatever declarations the node and its
/// descendants need, and returns the inline type expression.
#[verifier::loop_isolation(false)]
#[verifier::rlimit(100)]
fn render_schema(out: &mut String, path: &mut Vec<String>, schema: &Schema) -> (r: String)
    requires
        wf_form(schema@.form),
    ensures
        final(out)@ == old(out)@ + render_schema_spec(schema@, path_view(old(path)@)).0,
        path_view(final(path)@) == path_view(old(path)@),
        r@ == render_schema_spec(schema@, path_view(old(path)@)).1,
    decreases schema, 1int,
{
    let ghost pv = path_view(old(path)@);
    match &schema.form {
        Form::Empty => {
            proof {
                assert(out@ =~= out@ + Seq::<char>::empty());
            }
            "any".to_owned()
        },
        Form::Ref(def) => {
            let mut p: Vec<String> = Vec::new();
            p.push(def.clone());
            let id = path_to_identifier(&p);
            proof {
                assert(path_view(p@) =~= seq![def@]);
                assert(out@ =~= out@ + Seq::<char>::empty());
            }
            id
        },
        Form::Type(typ) => {
            proof {
                assert(out@ =~= out@ + Seq::<char>::empty());
            }
            match typ {
                Prim::Boolean => "boolean".to_owned(),
                Prim::Number => "number".to_owned(),
                Prim::Str => "string".to_owned(),
                Prim::Timestamp => "string".to_owned(),
            }
        },
        Form::Enum(vals) => {
            let ghost vdv = vals.deep_view();
            let mut r = String::new();
            proof {
                assert(vdv.take(0) =~= Seq::<Seq<char>>::empty());
                assert(r@ =~= enum_expr_spec(vdv.take(0)));
            }
            let mut k: usize = 0;
            while k < vals.len()
                invariant
                    k <= vals.len(),
                    r@ == enum_expr_spec(vdv.take(k as int)),
                decreases vals@.len() - k,
            {
                if k > 0 {
                    r.append(" | ");
                }
                r.append("\"");
                r.append(vals[k].as_str());
                r.append("\"");
                proof {
                    assert(vdv.take(k + 1).drop_last() =~= vdv.take(k as int));
                    assert(vdv.take(k + 1).last() == vdv[k as int]);
                    assert(vdv[k as int] == vals@[k as int]@);
                    if k == 0 {
                        assert(vdv.take(1) =~= seq![vdv[0]]);
                    }
                    assert(r@ =~= enum_expr_spec(vdv.take(k + 1)));
                }
                k = k + 1;
            }
            proof {
                assert(vdv.take(vals@.len() as int) =~= vdv);
                assert(out@ =~= out@ + Seq::<char>::empty());
            }
            r
        },
        Form::Elements(sub_schema) => {
            let mut e = render_schema(out, path, sub_schema);
            e.append("[]");
            e
        },
        Form::Properties(required, optional, _) => {
            match &schema.description {
                Option::Some(d) => {
                    write_comment(out, "// ", d.as_str());
                },
                Option::None => {},
            }
            proof {
                assert(decreases_to!(*schema => schema.form));
                assert(decreases_to!(schema.form => *required));
                assert(decreases_to!(schema.form => *optional));
                assert(decreases_to!(*required => required@));
                assert(decreases_to!(*optional => optional@));
                assert(decreases_to!(*schema => required@));
                assert(decreases_to!(*schema => optional@));
            }
            let id = render_interface(out, path, Option::None, required, optional,
                Ghost(*schema));
            proof {
                assert(out@ =~= old(out)@ + render_schema_spec(schema@, pv).0);
            }
            id
        },
        Form::Values(sub_schema) => {
            let e = render_schema(out, path, sub_schema);
            let mut r = String::from_str("{ [name: string]: ");
            r.append(e.as_str());
            r.append(" }");
            proof {
                assert(r@ =~= render_schema_spec(schema@, pv).1);
            }
            r
        },
        Form::Discriminator(tag, mapping) => {
            let ghost mv = pairs_view(mapping@);
            proof {
                lemma_pairs_view_points(mapping@);
                assert(mv.take(0) =~= Seq::<(Seq<char>, SchemaV)>::empty());
                assert(out@ =~= out@ + cases_spec(mv.take(0), pv, tag@).0);
            }
            let mut names: Vec<String> = Vec::new();
            proof {
                assert(names.deep_view() =~= cases_spec(mv.take(0), pv, tag@).1);
            }
            let mut i: usize = 0;
            while i < mapping.len()
                invariant
                    i <= mapping.len(),
                    out@ == old(out)@ + cases_spec(mv.take(i as int), pv, tag@).0,
                    names.deep_view() == cases_spec(mv.take(i as int), pv, tag@).1,
                    path_view(path@) == pv,
                decreases mapping@.len() - i,
            {
                let pair = &mapping[i];
                proof {
                    lemma_wf_pairs_index(mv, i as int);
                }
                let ghost cur = path@;
                let cased = pair.0.clone();
                path.push(cased);
                proof {
                    lemma_path_view_push(cur, cased);
                    assert(path_view(path@) == pv.push(pair.0@));
                }
                match &pair.1.form {
                    Form::Properties(req, opt, _) => {
                        proof {
                            assert(decreases_to!(*schema => schema.form));
                            assert(decreases_to!(schema.form =>
                                schema.form->Discriminator_1));
                            assert(decreases_to!(*schema => mapping@[i as int].1));
                            assert(pair.1 == mapping@[i as int].1);
                            assert(decreases_to!(pair.1 => pair.1.form));
                            assert(decreases_to!(pair.1.form => *req));
                            assert(decreases_to!(pair.1.form => *opt));
                            assert(decreases_to!(*req => req@));
                            assert(decreases_to!(*opt => opt@));
                            assert(decreases_to!(pair.1 => req@));
                            assert(decreases_to!(pair.1 => opt@));
                        }
                        let cid = render_interface(
                            out,
                            path,
                            Option::Some((tag.clone(), pair.0.clone())),
                            req,
                            opt,
                            Ghost(pair.1),
                        );
                        let ghost names_pre = names@;
                        names.push(cid);
                        proof {
                            assert(mv.take(i + 1).drop_last() =~= mv.take(i as int));
                            assert(mv.take(i + 1).last() == mv[i as int]);
                            assert(names.deep_view() =~= cases_spec(
                                mv.take(i + 1),
                                pv,
                                tag@,
                            ).1);
                            assert(out@ =~= old(out)@ + cases_spec(mv.take(i + 1), pv, tag@).0);
                        }
                    },
                    _ => {
                        proof {
                            assert(false);
                        }
                    },
                }
                proof {
                    lemma_path_view_len(path@);
                }
                let ghost mid = path@;
                let _ = path.pop();
                proof {
                    assert(path@ =~= mid.drop_last());
                    lemma_path_view_drop(mid);
                    assert(path_view(mid).drop_last() =~= pv);
                }
                i = i + 1;
            }
            proof {
                assert(mv.take(mapping@.len() as int) =~= mv);
            }
            let id = path_to_identifier(path);
            out.append("export type ");
            out.append(id.as_str());
            out.append(" = ");
            let ghost nv = names.deep_view();
            let ghost ubase = out@;
            proof {
                assert(nv.take(0) =~= Seq::<Seq<char>>::empty());
                assert(out@ =~= ubase + join_bar_spec(nv.take(0)));
            }
            let mut k: usize = 0;
            while k < names.len()
                invariant
                    k <= names.len(),
                    out@ == ubase + join_bar_spec(nv.take(k as int)),
                decreases names@.len() - k,
            {
                if k > 0 {
                    out.append(" | ");
                }
                out.append(names[k].as_str());
                proof {
                    assert(nv.take(k + 1).drop_last() =~= nv.take(k as int));
                    assert(nv.take(k + 1).last() == nv[k as int]);
                    assert(nv[k as int] == names@[k as int]@);
                    if k == 0 {
                        assert(nv.take(1) =~= seq![nv[0]]);
                    }
                    assert(out@ =~= ubase + join_bar_spec(nv.take(k + 1)));
                }
                k = k + 1;
            }
            out.append(";\n");
            proof {
                assert(nv.take(names@.len() as int) =~= nv);
                assert(out@ =~= old(out)@ + render_schema_spec(schema@, pv).0);
            }
            id
        },
    }
}

/// Renders the whole document: every definition, a type alias where the
/// definition's form wrote no declaration of its own, then the root and a
/// default export of its type.
#[verifier::loop_isolation(false)]
#[verifier::rlimit(60)]
pub fn render(out: &mut String, root_name: &str, schema: &Schema)
    requires
        wf_schema(schema@),
    ensures
        final(out)@ == old(out)@ + render_doc_spec(schema@, root_name@),
{
    let ghost dv = pairs_view(schema.definitions@);
    proof {
        lemma_pairs_view_points(schema.definitions@);
        assert(dv.take(0) =~= Seq::<(Seq<char>, SchemaV)>::empty());
        assert(out@ =~= out@ + defs_render_spec(dv.take(0)));
    }
    let mut i: usize = 0;
    while i < schema.definitions.len()
        invariant
            i <= schema.definitions.len(),
            out@ == old(out)@ + defs_render_spec(dv.take(i as int)),
        decreases schema.definitions@.len() - i,
    {
        let def = &schema.definitions[i];
        proof {
            lemma_wf_pairs_index(dv, i as int);
            assert(decreases_to!(schema.definitions@ => schema.definitions@[i as int]));
        }
        let mut path: Vec<String> = Vec::new();
        path.push(def.0.clone());
        proof {
            assert(path_view(path@) =~= seq![def.0@]);
        }
        let expr = render_schema(out, &mut path, &def.1);
        let needs_alias = match &def.1.form {
            Form::Properties(_, _, _) => false,
            Form::Discriminator(_, _) => false,
            _ => true,
        };
        if needs_alias {
            out.append("export type ");
            let id = path_to_identifier(&path);
            out.append(id.as_str());
            out.append(" = ");
            out.append(expr.as_str());
            out.append(";\n");
        }
        proof {
            assert(dv.take(i + 1).drop_last() =~= dv.take(i as int));
            assert(dv.take(i + 1).last() == dv[i as int]);
            assert(out@ =~= old(out)@ + defs_render_spec(dv.take(i + 1)));
        }
        i = i + 1;
    }
    proof {
        assert(dv.take(schema.definitions@.len() as int) =~= dv);
    }
    let mut path: Vec<String> = Vec::new();
    path.push(root_name.to_owned());
    proof {
        assert(path_view(path@) =~= seq![root_name@]);
    }
    let expr = render_schema(out, &mut path, schema);
    out.append("export default ");
    out.append(expr.as_str());
    out.append(";\n");
    proof {
        assert(out@ =~= old(out)@ + render_doc_spec(schema@, root_name@));
    }
}


/// Determinism: the rendered document is a function of the schema and the
/// root name alone.
pub proof fn lemma_output_deterministic(
    s1: SchemaV,
    s2: SchemaV,
    root1: Seq<char>,
    root2: Seq<char>,
)
    requires
        s1 == s2,
        root1 == root2,
    ensures
        render_doc_spec(s1, root1) == render_doc_spec(s2, root2),
{
}

} // verus!
