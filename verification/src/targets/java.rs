//! A Java renderer that emits class summaries directly while walking the
//! schema: one class per object form, required fields annotated as
//! non-null, and inline Java type expressions for every other form.
//! References resolve through a mapping from definition names to the
//! expressions their definitions rendered to, built up in definition
//! order, so a reference may only name a definition that came before it.

use vstd::prelude::*;

use crate::ident::{class_ident_spec, class_identifier, lemma_path_view_drop,
    lemma_path_view_len, lemma_path_view_push, path_view};
use crate::schema::{form_refs, lemma_pairs_refs_index, lemma_pairs_view_points,
    lemma_wf_pairs_index, pairs_refs, pairs_view, wf_form, wf_pairs, wf_schema, Form, FormV,
    Prim, Schema, SchemaV};

verus! {

/// Where the renderer reads and writes: the output directory, the output
/// package, and the input file whose stem names the root type.
pub struct Config {
    pub out_dir: String,
    pub out_pkg: String,
    pub in_file: String,
}

/// The views of a (definition name, rendered expression) list.
pub open spec fn names_view(m: Seq<(String, String)>) -> Seq<(Seq<char>, Seq<char>)> {
    m.map_values(|p: (String, String)| (p.0@, p.1@))
}

/// Whether a mapping carries a key.
pub open spec fn contains_key(m: Seq<(Seq<char>, Seq<char>)>, k: Seq<char>) -> bool {
    exists|j: int| 0 <= j < m.len() && (#[trigger] m[j]).0 == k
}

/// The first entry under a key.
pub open spec fn lookup_spec(m: Seq<(Seq<char>, Seq<char>)>, k: Seq<char>) -> Seq<char>
    decreases m,
{
    if m.len() == 0 {
        Seq::empty()
    } else if m[0].0 == k {
        m[0].1
    } else {
        lookup_spec(m.drop_first(), k)
    }
}

/// What rendering one node yields: the class declarations written to the
/// output, and the inline Java type expression returned to the parent.
pub open spec fn render_schema_spec(
    s: SchemaV,
    path: Seq<Seq<char>>,
    defs: Seq<(Seq<char>, Seq<char>)>,
) -> (Seq<char>, Seq<char>)
    decreases s,
{
    match s.form {
        FormV::Empty => (Seq::empty(), "Object"@),
        FormV::Ref(def) => (Seq::empty(), lookup_spec(defs, def)),
        FormV::Type(p) => (
            Seq::empty(),
            match p {
                Prim::Boolean => "boolean"@,
                Prim::Number => "double"@,
                Prim::Str => "String"@,
                Prim::Timestamp => "Instant"@,
            },
        ),
        FormV::Enum(_) => (Seq::empty(), "String"@),
        FormV::Elements(sub) => {
            let r = render_schema_spec(*sub, path, defs);
            (r.0, "List<"@ + r.1 + ">"@)
        },
        FormV::Properties(req, opt, _) => {
            let rp = props_render_spec(req, path, defs);
            let op = props_render_spec(opt, path, defs);
            let id = class_ident_spec(path);
            (
                rp.0 + op.0 + "public class "@ + id + " {\n"@ + req_fields_spec(rp.1)
                    + opt_fields_spec(op.1) + "}\n"@,
                id,
            )
        },
        FormV::Values(sub) => {
            let r = render_schema_spec(*sub, path, defs);
            (r.0, "Map<String, "@ + r.1 + ">"@)
        },
        FormV::Discriminator(_, _) => (Seq::empty(), "Object"@),
    }
}

/// What rendering a property list yields: the children's declaration
/// text, and one (name, expression) entry per property.
pub open spec fn props_render_spec(
    ps: Seq<(Seq<char>, SchemaV)>,
    path: Seq<Seq<char>>,
    defs: Seq<(Seq<char>, Seq<char>)>,
) -> (Seq<char>, Seq<(Seq<char>, Seq<char>)>)
    decreases ps,
{
    if ps.len() == 0 {
        (Seq::empty(), Seq::empty())
    } else {
        let r = props_render_spec(ps.drop_last(), path, defs);
        let name = ps.last().0;
        let t = render_schema_spec(ps.last().1, path.push(name), defs);
        (r.0 + t.0, r.1.push((name, t.1)))
    }
}

/// A required field carries a non-null annotation.
pub open spec fn req_fields_spec(entries: Seq<(Seq<char>, Seq<char>)>) -> Seq<char>
    decreases entries,
{
    if entries.len() == 0 {
        Seq::empty()
    } else {
        req_fields_spec(entries.drop_last()) + "    @NotNull\n"@ + "    private "@
            + entries.last().1 + " "@ + entries.last().0 + ";\n"@
    }
}

pub open spec fn opt_fields_spec(entries: Seq<(Seq<char>, Seq<char>)>) -> Seq<char>
    decreases entries,
{
    if entries.len() == 0 {
        Seq::empty()
    } else {
        opt_fields_spec(entries.drop_last()) + "    private "@ + entries.last().1 + " "@
            + entries.last().0 + ";\n"@
    }
}

/// The definitions rendered in order, each seeing only the mapping the
/// definitions before it built up.
pub open spec fn defs_render_spec(defs: Seq<(Seq<char>, SchemaV)>) -> (
    Seq<char>,
    Seq<(Seq<char>, Seq<char>)>,
)
    decreases defs,
{
    if defs.len() == 0 {
        (Seq::empty(), Seq::empty())
    } else {
        let r = defs_render_spec(defs.drop_last());
        let name = defs.last().0;
        let t = render_schema_spec(defs.last().1, seq![name], r.1);
        (r.0 + t.0, r.1.push((name, t.1)))
    }
}

/// The whole output: every definition, then the document root, rendered
/// against the full mapping.
pub open spec fn render_doc_spec(s: SchemaV, root: Seq<char>) -> Seq<char> {
    let d = defs_render_spec(s.definitions);
    d.0 + render_schema_spec(s, seq![root], d.1).0
}

/// Every ref in a tree finds its key in the mapping.
pub open spec fn refs_bound(f: FormV, defs: Seq<(Seq<char>, Seq<char>)>) -> bool {
    forall|n: Seq<char>| form_refs(f).contains(n) ==> #[trigger] contains_key(defs, n)
}

/// Every ref of every definition names a definition that came earlier.
pub open spec fn refs_in_order(defs: Seq<(Seq<char>, SchemaV)>) -> bool {
    forall|i: int|
        0 <= i < defs.len() ==> refs_bound(
            (#[trigger] defs[i]).1.form,
            defs_render_spec(defs.take(i)).1,
        )
}

/// The mapping the definitions build carries exactly their names.
pub proof fn lemma_defs_render_names(defs: Seq<(Seq<char>, SchemaV)>)
    ensures
        defs_render_spec(defs).1.len() == defs.len(),
        forall|j: int|
            0 <= j < defs.len() ==> (#[trigger] defs_render_spec(defs).1[j]).0 == defs[j].0,
    decreases defs,
{
    if defs.len() > 0 {
        lemma_defs_render_names(defs.drop_last());
        assert(forall|j: int| 0 <= j < defs.len() - 1 ==> defs.drop_last()[j] == defs[j]);
    }
}

/// Derives the identifier of a traversal path.
pub fn path_to_identifier(path: &Vec<String>) -> (r: String)
    ensures
        r@ == class_ident_spec(path_view(path@)),
{
    class_identifier(path)
}

/// Looks a definition name up in the mapping.
#[verifier::loop_isolation(false)]
fn lookup(defs: &Vec<(String, String)>, key: &String) -> (r: String)
    requires
        contains_key(names_view(defs@), key@),
    ensures
        r@ == lookup_spec(names_view(defs@), key@),
{
    let ghost m = names_view(defs@);
    proof {
        assert(m.skip(0) =~= m);
    }
    let mut i: usize = 0;
    while i < defs.len()
        invariant
            i <= defs.len(),
            forall|j: int| 0 <= j < i ==> (#[trigger] m[j]).0 != key@,
            lookup_spec(m, key@) == lookup_spec(m.skip(i as int), key@),
        decreases defs@.len() - i,
    {
        if defs[i].0 == *key {
            proof {
                assert(m.skip(i as int)[0] == m[i as int]);
                assert(lookup_spec(m.skip(i as int), key@) == m[i as int].1);
            }
            return defs[i].1.clone();
        }
        proof {
            assert(m.skip(i as int)[0] == m[i as int]);
            assert(m.skip(i as int).drop_first() =~= m.skip(i + 1));
        }
        i = i + 1;
    }
    proof {
        let j = choose|j: int| 0 <= j < m.len() && (#[trigger] m[j]).0 == key@;
        assert(false);
    }
    String::new()
}

/// Renders one node: writes whatever class declarations the node and its
/// descendants need, and returns the inline Java type expression.
#[verifier::loop_isolation(false)]
#[verifier::rlimit(100)]
pub fn render_schema(
    out: &mut String,
    def_names: &Vec<(String, String)>,
    path: &mut Vec<String>,
    schema: &Schema,
) -> (r: String)
    requires
        wf_form(schema@.form),
        refs_bound(schema@.form, names_view(def_names@)),
    ensures
        final(out)@ == old(out)@ + render_schema_spec(
            schema@,
            path_view(old(path)@),
            names_view(def_names@),
        ).0,
        path_view(final(path)@) == path_view(old(path)@),
        r@ == render_schema_spec(schema@, path_view(old(path)@), names_view(def_names@)).1,
    decreases schema, 1int,
{
    let ghost pv = path_view(old(path)@);
    let ghost dm = names_view(def_names@);
    match &schema.form {
        Form::Empty => {
            proof {
                assert(out@ =~= out@ + Seq::<char>::empty());
            }
            "Object".to_owned()
        },
        Form::Ref(def) => {
            proof {
                assert(form_refs(schema@.form).contains(def@));
                assert(out@ =~= out@ + Seq::<char>::empty());
            }
            lookup(def_names, def)
        },
        Form::Type(typ) => {
            proof {
                assert(out@ =~= out@ + Seq::<char>::empty());
            }
            match typ {
                Prim::Boolean => "boolean".to_owned(),
                Prim::Number => "double".to_owned(),
                Prim::Str => "String".to_owned(),
                Prim::Timestamp => "Instant".to_owned(),
            }
        },
        Form::Enum(_) => {
            proof {
                assert(out@ =~= out@ + Seq::<char>::empty());
            }
            "String".to_owned()
        },
        Form::Elements(sub_schema) => {
            proof {
                assert(form_refs(schema@.form) == form_refs(sub_schema@.form));
            }
            let e = render_schema(out, def_names, path, sub_schema);
            let mut r = String::from_str("List<");
            r.append(e.as_str());
            r.append(">");
            proof {
                assert(r@ =~= render_schema_spec(schema@, pv, dm).1);
            }
            r
        },
        Form::Properties(required, optional, _) => {
            let mut rentries: Vec<(String, String)> = Vec::new();
            render_props(out, def_names, path, required, &mut rentries, Ghost(*schema));
            let mut oentries: Vec<(String, String)> = Vec::new();
            render_props(out, def_names, path, optional, &mut oentries, Ghost(*schema));
            let ghost rp = props_render_spec(pairs_view(required@), pv, dm);
            let ghost op = props_render_spec(pairs_view(optional@), pv, dm);
            proof {
                assert(names_view(rentries@) =~= rp.1);
                assert(names_view(oentries@) =~= op.1);
            }
            let id = path_to_identifier(path);
            out.append("public class ");
            out.append(id.as_str());
            out.append(" {\n");
            let ghost base = out@;
            proof {
                assert(rp.1.take(0) =~= Seq::<(Seq<char>, Seq<char>)>::empty());
                assert(out@ =~= base + req_fields_spec(rp.1.take(0)));
            }
            let mut k: usize = 0;
            while k < rentries.len()
                invariant
                    k <= rentries.len(),
                    out@ == base + req_fields_spec(rp.1.take(k as int)),
                decreases rentries@.len() - k,
            {
                let entry = &rentries[k];
                out.append("    @NotNull\n");
                out.append("    private ");
                out.append(entry.1.as_str());
                out.append(" ");
                out.append(entry.0.as_str());
                out.append(";\n");
                proof {
                    assert(rp.1.take(k + 1).drop_last() =~= rp.1.take(k as int));
                    assert(rp.1.take(k + 1).last() == rp.1[k as int]);
                    assert(rp.1[k as int] == (entry.0@, entry.1@));
                    assert(out@ =~= base + req_fields_spec(rp.1.take(k + 1)));
                }
                k = k + 1;
            }
            proof {
                assert(rp.1.take(rentries@.len() as int) =~= rp.1);
            }
            let ghost obase = out@;
            proof {
                assert(op.1.take(0) =~= Seq::<(Seq<char>, Seq<char>)>::empty());
                assert(out@ =~= obase + opt_fields_spec(op.1.take(0)));
            }
            let mut k: usize = 0;
            while k < oentries.len()
                invariant
                    k <= oentries.len(),
                    out@ == obase + opt_fields_spec(op.1.take(k as int)),
                decreases oentries@.len() - k,
            {
                let entry = &oentries[k];
                out.append("    private ");
                out.append(entry.1.as_str());
                out.append(" ");
                out.append(entry.0.as_str());
                out.append(";\n");
                proof {
                    assert(op.1.take(k + 1).drop_last() =~= op.1.take(k as int));
                    assert(op.1.take(k + 1).last() == op.1[k as int]);
                    assert(op.1[k as int] == (entry.0@, entry.1@));
                    assert(out@ =~= obase + opt_fields_spec(op.1.take(k + 1)));
                }
                k = k + 1;
            }
            out.append("}\n");
            proof {
                assert(op.1.take(oentries@.len() as int) =~= op.1);
                assert(out@ =~= old(out)@ + render_schema_spec(schema@, pv, dm).0);
            }
            id
        },
        Form::Values(sub_schema) => {
            proof {
                assert(form_refs(schema@.form) == form_refs(sub_schema@.form));
            }
            let e = render_schema(out, def_names, path, sub_schema);
            let mut r = String::from_str("Map<String, ");
            r.append(e.as_str());
            r.append(">");
            proof {
                assert(r@ =~= render_schema_spec(schema@, pv, dm).1);
            }
            r
        },
        Form::Discriminator(_, _) => {
            proof {
                assert(out@ =~= out@ + Seq::<char>::empty());
            }
            "Object".to_owned()
        },
    }
}

/// Renders every property of one list: the children's declarations go to
/// the output, the (name, expression) entries are collected for the
/// enclosing class.
#[verifier::loop_isolation(false)]
#[verifier::rlimit(60)]
fn render_props(
    out: &mut String,
    def_names: &Vec<(String, String)>,
    path: &mut Vec<String>,
    pairs: &Vec<(String, Schema)>,
    entries: &mut Vec<(String, String)>,
    parent: Ghost<Schema>,
)
    requires
        wf_pairs(pairs_view(pairs@)),
        forall|n: Seq<char>|
            pairs_refs(pairs_view(pairs@)).contains(n) ==> #[trigger] contains_key(
                names_view(def_names@),
                n,
            ),
        decreases_to!(parent@, 2int => pairs@, 0int),
    ensures
        final(out)@ == old(out)@ + props_render_spec(
            pairs_view(pairs@),
            path_view(old(path)@),
            names_view(def_names@),
        ).0,
        names_view(final(entries)@) == names_view(old(entries)@) + props_render_spec(
            pairs_view(pairs@),
            path_view(old(path)@),
            names_view(def_names@),
        ).1,
        path_view(final(path)@) == path_view(old(path)@),
    decreases pairs@, 0int,
{
    let ghost pv = path_view(old(path)@);
    let ghost psv = pairs_view(pairs@);
    let ghost dm = names_view(def_names@);
    proof {
        lemma_pairs_view_points(pairs@);
        assert(psv.take(0) =~= Seq::<(Seq<char>, SchemaV)>::empty());
        assert(out@ =~= out@ + props_render_spec(psv.take(0), pv, dm).0);
        assert(names_view(entries@) =~= names_view(entries@) + props_render_spec(
            psv.take(0),
            pv,
            dm,
        ).1);
    }
    let mut i: usize = 0;
    while i < pairs.len()
        invariant
            i <= pairs.len(),
            out@ == old(out)@ + props_render_spec(psv.take(i as int), pv, dm).0,
            names_view(entries@) == names_view(old(entries)@) + props_render_spec(
                psv.take(i as int),
                pv,
                dm,
            ).1,
            path_view(path@) == pv,
        decreases pairs@.len() - i,
    {
        let pair = &pairs[i];
        proof {
            lemma_wf_pairs_index(psv, i as int);
            lemma_pairs_refs_index(psv, i as int);
            assert(decreases_to!(pairs@ => pairs@[i as int]));
            assert(decreases_to!(pairs@ => pair.1));
        }
        let ghost cur = path@;
        let pname = pair.0.clone();
        path.push(pname);
        proof {
            lemma_path_view_push(cur, pname);
            assert(path_view(path@) == pv.push(pair.0@));
        }
        let expr = render_schema(out, def_names, path, &pair.1);
        proof {
            lemma_path_view_len(path@);
            lemma_path_view_len(cur);
        }
        let ghost mid = path@;
        let _ = path.pop();
        proof {
            assert(path@ =~= mid.drop_last());
            lemma_path_view_drop(mid);
            assert(path_view(mid).drop_last() =~= pv);
        }
        let ghost entries_pre = entries@;
        let entry = (pair.0.clone(), expr);
        entries.push(entry);
        proof {
            assert(psv.take(i + 1).drop_last() =~= psv.take(i as int));
            assert(psv.take(i + 1).last() == psv[i as int]);
            assert(names_view(entries@) =~= names_view(entries_pre).push((
                psv[i as int].0,
                render_schema_spec(psv[i as int].1, pv.push(psv[i as int].0), dm).1,
            )));
            assert(names_view(entries@) =~= names_view(old(entries)@) + props_render_spec(
                psv.take(i + 1),
                pv,
                dm,
            ).1);
            assert(out@ =~= old(out)@ + props_render_spec(psv.take(i + 1), pv, dm).0);
        }
        i = i + 1;
    }
    proof {
        assert(psv.take(pairs@.len() as int) =~= psv);
    }
}

/// Renders the whole document: every definition in order, each added to
/// the name mapping the later definitions and the root resolve through.
#[verifier::loop_isolation(false)]
#[verifier::rlimit(60)]
pub fn render_document(out: &mut String, root_name: &str, schema: &Schema)
    requires
        wf_schema(schema@),
        refs_in_order(schema@.definitions),
        refs_bound(schema@.form, defs_render_spec(schema@.definitions).1),
    ensures
        final(out)@ == old(out)@ + render_doc_spec(schema@, root_name@),
{
    let ghost dv = pairs_view(schema.definitions@);
    proof {
        lemma_pairs_view_points(schema.definitions@);
        assert(dv.take(0) =~= Seq::<(Seq<char>, SchemaV)>::empty());
    }
    let mut def_names: Vec<(String, String)> = Vec::new();
    proof {
        assert(out@ =~= out@ + defs_render_spec(dv.take(0)).0);
        assert(names_view(def_names@) =~= defs_render_spec(dv.take(0)).1);
    }
    let mut i: usize = 0;
    while i < schema.definitions.len()
        invariant
            i <= schema.definitions.len(),
            out@ == old(out)@ + defs_render_spec(dv.take(i as int)).0,
            names_view(def_names@) == defs_render_spec(dv.take(i as int)).1,
        decreases schema.definitions@.len() - i,
    {
        let def = &schema.definitions[i];
        proof {
            lemma_wf_pairs_index(dv, i as int);
            assert(decreases_to!(schema.definitions@ => schema.definitions@[i as int]));
            assert(dv.take(i as int) =~= dv.take(i as int));
            assert(refs_bound(dv[i as int].1.form, defs_render_spec(dv.take(i as int)).1));
        }
        let mut path: Vec<String> = Vec::new();
        path.push(def.0.clone());
        proof {
            assert(path_view(path@) =~= seq![def.0@]);
        }
        let expr = render_schema(out, &def_names, &mut path, &def.1);
        let ghost names_pre = def_names@;
        def_names.push((def.0.clone(), expr));
        proof {
            assert(dv.take(i + 1).drop_last() =~= dv.take(i as int));
            assert(dv.take(i + 1).last() == dv[i as int]);
            assert(names_view(def_names@) =~= defs_render_spec(dv.take(i + 1)).1);
            assert(out@ =~= old(out)@ + defs_render_spec(dv.take(i + 1)).0);
        }
        i = i + 1;
    }
    proof {
        assert(dv.take(schema.definitions@.len() as int) =~= dv);
    }
    let mut path: Vec<String> = Vec::new();
    path.push(root_name.to_owned());
    proof {
        assert(path_view(path@) =~= seq![root_name@]);
    }
    let _ = render_schema(out, &def_names, &mut path, schema);
    proof {
        assert(out@ =~= old(out)@ + render_doc_spec(schema@, root_name@));
    }
}


/// Determinism: the rendered document is a function of the schema and the
/// root name alone.
pub proof fn lemma_output_deterministic(
    s1: SchemaV,
    s2: SchemaV,
    root1: Seq<char>,
    root2: Seq<char>,
)
    requires
        s1 == s2,
        root1 == root2,
    ensures
        render_doc_spec(s1, root1) == render_doc_spec(s2, root2),
{
}

} // verus!
