//! The schema model: an immutable tree of nodes, each carrying one of the
//! seven forms. An external collaborator parses and validates the document;
//! the transformers here receive the finished tree and never re-validate it.
//!
//! Node identity is positional: a node is addressed by the path of names from
//! the nearest named ancestor, never by reference. Property and definition
//! maps are kept as ordered pairs so that a schema has exactly one traversal
//! order and transformation is deterministic.

use vstd::prelude::*;

verus! {

/// The primitive types the type form can name.
#[derive(Clone, Copy, Debug, PartialEq, Eq, Structural)]
pub enum Prim {
    Boolean,
    Number,
    Str,
    Timestamp,
}

/// One of the seven forms a schema node can take.
#[derive(Debug)]
pub enum Form {
    /// Accepts anything; no structure.
    Empty,
    /// Refers to a definition by name.
    Ref(String),
    /// One of the primitive types.
    Type(Prim),
    /// A closed set of string values.
    Enum(Vec<String>),
    /// An array whose elements all match the inner schema.
    Elements(Box<Schema>),
    /// An object: required properties, optional properties, and whether the
    /// schema spelled out a `properties` member at all.
    Properties(Vec<(String, Schema)>, Vec<(String, Schema)>, bool),
    /// A string-keyed map whose values all match the inner schema.
    Values(Box<Schema>),
    /// A tagged union: the tag property's name, and the mapping from tag
    /// value to the case's schema (always of properties form).
    Discriminator(String, Vec<(String, Schema)>),
}

/// A schema node. Only the document root carries definitions; nested nodes
/// hold an empty list. The description is free-form documentation text that
/// some emitters copy into comments.
#[derive(Debug)]
pub struct Schema {
    pub definitions: Vec<(String, Schema)>,
    pub form: Form,
    pub description: Option<String>,
}

/// Mathematical model of a form.
pub enum FormV {
    Empty,
    Ref(Seq<char>),
    Type(Prim),
    Enum(Seq<Seq<char>>),
    Elements(Box<SchemaV>),
    Properties(Seq<(Seq<char>, SchemaV)>, Seq<(Seq<char>, SchemaV)>, bool),
    Values(Box<SchemaV>),
    Discriminator(Seq<char>, Seq<(Seq<char>, SchemaV)>),
}

/// Mathematical model of a schema node.
pub struct SchemaV {
    pub definitions: Seq<(Seq<char>, SchemaV)>,
    pub form: FormV,
    pub description: Option<Seq<char>>,
}

pub open spec fn pairs_view(ps: Seq<(String, Schema)>) -> Seq<(Seq<char>, SchemaV)>
    decreases ps,
{
    if ps.len() == 0 {
        Seq::empty()
    } else {
        pairs_view(ps.drop_last()).push((ps.last().0@, schema_view(ps.last().1)))
    }
}

pub open spec fn form_view(f: Form) -> FormV
    decreases f,
{
    match f {
        Form::Empty => FormV::Empty,
        Form::Ref(name) => FormV::Ref(name@),
        Form::Type(p) => FormV::Type(p),
        Form::Enum(vals) => FormV::Enum(vals.deep_view()),
        Form::Elements(sub) => FormV::Elements(Box::new(schema_view(*sub))),
        Form::Properties(req, opt, has) => FormV::Properties(
            pairs_view(req@),
            pairs_view(opt@),
            has,
        ),
        Form::Values(sub) => FormV::Values(Box::new(schema_view(*sub))),
        Form::Discriminator(tag, mapping) => FormV::Discriminator(tag@, pairs_view(mapping@)),
    }
}

pub open spec fn schema_view(s: Schema) -> SchemaV
    decreases s,
{
    SchemaV {
        definitions: pairs_view(s.definitions@),
        form: form_view(s.form),
        description: match s.description {
            Option::Some(d) => Option::Some(d@),
            Option::None => Option::None,
        },
    }
}

impl View for Form {
    type V = FormV;

    open spec fn view(&self) -> FormV {
        form_view(*self)
    }
}

impl View for Schema {
    type V = SchemaV;

    open spec fn view(&self) -> SchemaV {
        schema_view(*self)
    }
}

/// Well-formedness of a node, as the external validator guarantees it:
/// every case of a discriminator mapping is itself of properties form.
pub open spec fn wf_form(f: FormV) -> bool
    decreases f,
{
    match f {
        FormV::Empty => true,
        FormV::Ref(_) => true,
        FormV::Type(_) => true,
        FormV::Enum(_) => true,
        FormV::Elements(sub) => wf_form(sub.form),
        FormV::Properties(req, opt, _) => wf_pairs(req) && wf_pairs(opt),
        FormV::Values(sub) => wf_form(sub.form),
        FormV::Discriminator(_, mapping) => wf_pairs(mapping) && forall|i: int|
            0 <= i < mapping.len() ==> (#[trigger] mapping[i].1.form) is Properties,
    }
}

pub open spec fn wf_pairs(ps: Seq<(Seq<char>, SchemaV)>) -> bool
    decreases ps,
{
    if ps.len() == 0 {
        true
    } else {
        wf_pairs(ps.drop_last()) && wf_form(ps.last().1.form)
    }
}

/// A whole document is well formed when its own form and every definition's
/// form are.
pub open spec fn wf_schema(s: SchemaV) -> bool {
    wf_form(s.form) && wf_pairs(s.definitions)
}

/// The names every ref form in a tree refers to.
pub open spec fn form_refs(f: FormV) -> Set<Seq<char>>
    decreases f,
{
    match f {
        FormV::Empty => Set::empty(),
        FormV::Ref(name) => Set::empty().insert(name),
        FormV::Type(_) => Set::empty(),
        FormV::Enum(_) => Set::empty(),
        FormV::Elements(sub) => form_refs(sub.form),
        FormV::Properties(req, opt, _) => pairs_refs(req).union(pairs_refs(opt)),
        FormV::Values(sub) => form_refs(sub.form),
        FormV::Discriminator(_, mapping) => pairs_refs(mapping),
    }
}

pub open spec fn pairs_refs(ps: Seq<(Seq<char>, SchemaV)>) -> Set<Seq<char>>
    decreases ps,
{
    if ps.len() == 0 {
        Set::empty()
    } else {
        pairs_refs(ps.drop_last()).union(form_refs(ps.last().1.form))
    }
}

/// All refs of a document: those of the root form and of every definition.
pub open spec fn schema_refs(s: SchemaV) -> Set<Seq<char>> {
    form_refs(s.form).union(pairs_refs(s.definitions))
}

/// The definition names of a document, in order.
pub open spec fn definition_names(s: SchemaV) -> Seq<Seq<char>> {
    s.definitions.map_values(|p: (Seq<char>, SchemaV)| p.0)
}

/// The view of a pair list is the pointwise view of its pairs.
pub proof fn lemma_pairs_view_points(ps: Seq<(String, Schema)>)
    ensures
        pairs_view(ps).len() == ps.len(),
        forall|i: int|
            0 <= i < ps.len() ==> #[trigger] pairs_view(ps)[i] == (ps[i].0@, schema_view(ps[i].1)),
    decreases ps,
{
    if ps.len() > 0 {
        lemma_pairs_view_points(ps.drop_last());
        assert(forall|i: int| 0 <= i < ps.len() - 1 ==> ps.drop_last()[i] == ps[i]);
    }
}

/// Each pair's refs are among the refs of the whole pair list.
pub proof fn lemma_pairs_refs_index(ps: Seq<(Seq<char>, SchemaV)>, i: int)
    requires
        0 <= i < ps.len(),
    ensures
        forall|n: Seq<char>|
            form_refs(ps[i].1.form).contains(n) ==> #[trigger] pairs_refs(ps).contains(n),
    decreases ps,
{
    if i == ps.len() - 1 {
        assert forall|n: Seq<char>|
            form_refs(ps[i].1.form).contains(n) implies #[trigger] pairs_refs(ps).contains(
            n,
        ) by {
            assert(pairs_refs(ps) == pairs_refs(ps.drop_last()).union(
                form_refs(ps.last().1.form),
            ));
        }
    } else {
        lemma_pairs_refs_index(ps.drop_last(), i);
        assert(ps.drop_last()[i] == ps[i]);
        assert forall|n: Seq<char>|
            form_refs(ps[i].1.form).contains(n) implies #[trigger] pairs_refs(ps).contains(
            n,
        ) by {
            assert(pairs_refs(ps.drop_last()).contains(n));
        }
    }
}

/// Well-formedness of a pair list gives well-formedness of each pair.
pub proof fn lemma_wf_pairs_index(ps: Seq<(Seq<char>, SchemaV)>, i: int)
    requires
        wf_pairs(ps),
        0 <= i < ps.len(),
    ensures
        wf_form(ps[i].1.form),
    decreases ps,
{
    if i < ps.len() - 1 {
        lemma_wf_pairs_index(ps.drop_last(), i);
    }
}

} // verus!
