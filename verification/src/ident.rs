//! The identifier namer: a deterministic function from a traversal path (the
//! ordered segments from the nearest named ancestor down to a node) to a
//! single target-language identifier. The segments are joined with an
//! underscore and the joined word is case-converted; both steps are pure
//! functions of the path, so the same schema always names its declarations
//! the same way.

use vstd::prelude::*;

verus! {

/// The character sequences of a path's segments.
pub open spec fn path_view(p: Seq<String>) -> Seq<Seq<char>> {
    p.map_values(|s: String| s@)
}

pub proof fn lemma_path_view_len(p: Seq<String>)
    ensures
        path_view(p).len() == p.len(),
{
}

pub proof fn lemma_path_view_push(p: Seq<String>, x: String)
    ensures
        path_view(p.push(x)) == path_view(p).push(x@),
{
    assert(path_view(p.push(x)) =~= path_view(p).push(x@));
}

pub proof fn lemma_path_view_drop(p: Seq<String>)
    requires
        p.len() > 0,
    ensures
        path_view(p.drop_last()) == path_view(p).drop_last(),
{
    assert(path_view(p.drop_last()) =~= path_view(p).drop_last());
}

/// The path segments joined with a single underscore between them.
pub open spec fn join_spec(path: Seq<Seq<char>>) -> Seq<char>
    decreases path,
{
    if path.len() == 0 {
        Seq::empty()
    } else if path.len() == 1 {
        path[0]
    } else {
        join_spec(path.drop_last()) + "_"@ + path.last()
    }
}

/// What inflector's pascal-case conversion returns for a given string.
pub uninterp spec fn pascal_of(s: Seq<char>) -> Seq<char>;

/// What inflector's class-case conversion returns for a given string.
pub uninterp spec fn class_of(s: Seq<char>) -> Seq<char>;

/// What inflector's camel-case conversion returns for a given string.
pub uninterp spec fn camel_of(s: Seq<char>) -> Seq<char>;

/// Relies on inflector's to_pascal_case: the result depends on the
/// characters of the argument alone.
#[verifier::external_body]
pub fn pascal_case(s: &str) -> (r: String)
    ensures
        r@ == pascal_of(s@),
{
    inflector::cases::pascalcase::to_pascal_case(s)
}

/// Relies on inflector's to_class_case: the result depends on the
/// characters of the argument alone.
#[verifier::external_body]
pub fn class_case(s: &str) -> (r: String)
    ensures
        r@ == class_of(s@),
{
    inflector::cases::classcase::to_class_case(s)
}

/// Relies on inflector's to_camel_case: the result depends on the
/// characters of the argument alone.
#[verifier::external_body]
pub fn camel_case(s: &str) -> (r: String)
    ensures
        r@ == camel_of(s@),
{
    inflector::cases::camelcase::to_camel_case(s)
}

/// The identifier of a path under pascal-case naming.
pub open spec fn pascal_ident_spec(path: Seq<Seq<char>>) -> Seq<char> {
    pascal_of(join_spec(path))
}

/// The identifier of a path under class-case naming.
pub open spec fn class_ident_spec(path: Seq<Seq<char>>) -> Seq<char> {
    class_of(join_spec(path))
}

/// Joins the path segments with underscores.
pub fn join_underscore(path: &Vec<String>) -> (r: String)
    ensures
        r@ == join_spec(path_view(path@)),
{
    let mut r = String::new();
    let mut i: usize = 0;
    while i < path.len()
        invariant
            i <= path.len(),
            r@ == join_spec(path_view(path@).take(i as int)),
        decreases path.len() - i,
    {
        if i > 0 {
            r.append("_");
        }
        r.append(path[i].as_str());
        proof {
            let pv = path_view(path@);
            assert(pv.take(i + 1).drop_last() =~= pv.take(i as int));
            assert(pv.take(i + 1).last() == pv[i as int]);
        }
        i = i + 1;
    }
    proof {
        assert(path_view(path@).take(path.len() as int) =~= path_view(path@));
    }
    r
}

/// The pascal-case identifier derived from a path.
pub fn pascal_identifier(path: &Vec<String>) -> (r: String)
    ensures
        r@ == pascal_ident_spec(path_view(path@)),
{
    let joined = join_underscore(path);
    pascal_case(joined.as_str())
}

/// The class-case identifier derived from a path.
pub fn class_identifier(path: &Vec<String>) -> (r: String)
    ensures
        r@ == class_ident_spec(path_view(path@)),
{
    let joined = join_underscore(path);
    class_case(joined.as_str())
}

} // verus!
