//! The discriminated-union wire protocol: the value-level model of the
//! encode and decode logic that the emitters generate for a discriminator
//! form.
//!
//! The wire shape is one flat JSON object holding one reserved string field
//! (the tag) beside exactly the fields of the variant the tag selects; the
//! variant's fields are never nested under a payload key. The holder couples
//! the tag value with the active variant's fields in one value, so the tag
//! and the variant can never disagree. Decoding is two-pass: the first pass
//! reads only the tag field, the second re-reads the whole object as the
//! selected variant, which ignores the reserved field.

use vstd::prelude::*;

verus! {

/// A JSON value as the union codec sees one. A number is carried as its
/// decimal text: the codec moves values, it never computes with them.
#[derive(Debug, PartialEq)]
pub enum Json {
    Null,
    Bool(bool),
    Number(String),
    Str(String),
    Array(Vec<Json>),
    Object(Vec<(String, Json)>),
}

/// Mathematical model of a JSON value.
#[verifier::ext_equal]
pub enum JsonV {
    Null,
    Bool(bool),
    Number(Seq<char>),
    Str(Seq<char>),
    Array(Seq<JsonV>),
    Object(Seq<(Seq<char>, JsonV)>),
}

pub open spec fn jlist_view(vs: Seq<Json>) -> Seq<JsonV>
    decreases vs,
{
    if vs.len() == 0 {
        Seq::empty()
    } else {
        jlist_view(vs.drop_last()).push(json_view(vs.last()))
    }
}

pub open spec fn jfields_view(fs: Seq<(String, Json)>) -> Seq<(Seq<char>, JsonV)>
    decreases fs,
{
    if fs.len() == 0 {
        Seq::empty()
    } else {
        jfields_view(fs.drop_last()).push((fs.last().0@, json_view(fs.last().1)))
    }
}

pub open spec fn json_view(j: Json) -> JsonV
    decreases j,
{
    match j {
        Json::Null => JsonV::Null,
        Json::Bool(b) => JsonV::Bool(b),
        Json::Number(n) => JsonV::Number(n@),
        Json::Str(s) => JsonV::Str(s@),
        Json::Array(vs) => JsonV::Array(jlist_view(vs@)),
        Json::Object(fs) => JsonV::Object(jfields_view(fs@)),
    }
}

impl View for Json {
    type V = JsonV;

    open spec fn view(&self) -> JsonV {
        json_view(*self)
    }
}

/// The holder of a discriminated-union value: the tag value as a plain
/// string, and the fields of the variant that tag selects. Keeping the two
/// in one value removes the tag/variant mismatch hazard by construction.
#[derive(Debug, PartialEq)]
pub struct UnionHolder {
    pub tag: String,
    pub fields: Vec<(String, Json)>,
}

/// Mathematical model of a holder.
#[verifier::ext_equal]
pub struct UnionHolderV {
    pub tag: Seq<char>,
    pub fields: Seq<(Seq<char>, JsonV)>,
}

impl View for UnionHolder {
    type V = UnionHolderV;

    open spec fn view(&self) -> UnionHolderV {
        UnionHolderV { tag: self.tag@, fields: jfields_view(self.fields@) }
    }
}

/// The holder invariant: the variant's own fields never carry the reserved
/// tag key, so tag and payload can share one flat object without loss.
pub open spec fn holder_wf(h: UnionHolderV, tag_field: Seq<char>) -> bool {
    forall|k: int| 0 <= k < h.fields.len() ==> (#[trigger] h.fields[k]).0 != tag_field
}

/// The encoded wire object: the tag field first, then the variant's fields
/// verbatim, all in one flat object.
pub open spec fn encode_spec(tag_field: Seq<char>, h: UnionHolderV) -> Seq<(Seq<char>, JsonV)> {
    seq![(tag_field, JsonV::Str(h.tag))] + h.fields
}

/// The position of the tag field in a wire object, or -1 when it has none.
pub open spec fn tag_index(tag_field: Seq<char>, obj: Seq<(Seq<char>, JsonV)>) -> int
    decreases obj,
{
    if obj.len() == 0 {
        -1
    } else if obj[0].0 == tag_field {
        0
    } else {
        let r = tag_index(tag_field, obj.drop_first());
        if r < 0 {
            -1
        } else {
            r + 1
        }
    }
}

/// What decoding a wire object yields: the tag field's string value and
/// the remaining fields, or nothing when the tag field is missing or is
/// not a string.
pub open spec fn decode_spec(tag_field: Seq<char>, obj: Seq<(Seq<char>, JsonV)>) -> Option<
    UnionHolderV,
> {
    let i = tag_index(tag_field, obj);
    if i < 0 {
        Option::None
    } else {
        match obj[i].1 {
            JsonV::Str(t) => Option::Some(UnionHolderV { tag: t, fields: obj.remove(i) }),
            _ => Option::None,
        }
    }
}

/// The tag index is the first position carrying the tag key, when any does.
pub proof fn lemma_tag_index(tag_field: Seq<char>, obj: Seq<(Seq<char>, JsonV)>)
    ensures
        tag_index(tag_field, obj) == -1 ==> forall|k: int|
            0 <= k < obj.len() ==> (#[trigger] obj[k]).0 != tag_field,
        tag_index(tag_field, obj) >= 0 ==> {
            &&& tag_index(tag_field, obj) < obj.len()
            &&& obj[tag_index(tag_field, obj)].0 == tag_field
            &&& forall|k: int|
                0 <= k < tag_index(tag_field, obj) ==> (#[trigger] obj[k]).0 != tag_field
        },
    decreases obj,
{
    if obj.len() > 0 && obj[0].0 != tag_field {
        let rest = obj.drop_first();
        lemma_tag_index(tag_field, rest);
        let r = tag_index(tag_field, rest);
        if r < 0 {
            assert forall|k: int| 0 <= k < obj.len() implies (#[trigger] obj[k]).0 != tag_field by {
                if k > 0 {
                    assert(obj[k] == rest[k - 1]);
                }
            }
        } else {
            assert(obj[r + 1] == rest[r]);
            assert forall|k: int|
                0 <= k < tag_index(tag_field, obj) implies (#[trigger] obj[k]).0 != tag_field by {
                if k > 0 {
                    assert(obj[k] == rest[k - 1]);
                }
            }
        }
    }
}

pub proof fn lemma_jfields_points(fs: Seq<(String, Json)>)
    ensures
        jfields_view(fs).len() == fs.len(),
        forall|i: int|
            0 <= i < fs.len() ==> #[trigger] jfields_view(fs)[i] == (
                fs[i].0@,
                json_view(fs[i].1),
            ),
    decreases fs,
{
    if fs.len() > 0 {
        lemma_jfields_points(fs.drop_last());
        assert(forall|i: int| 0 <= i < fs.len() - 1 ==> fs.drop_last()[i] == fs[i]);
    }
}

impl UnionHolder {
    /// Encodes the holder to its wire object: one flat object holding the
    /// tag field first and then every field of the active variant.
    pub fn encode(self, tag_field: &String) -> (o: Vec<(String, Json)>)
        ensures
            jfields_view(o@) == encode_spec(tag_field@, self@),
    {
        let ghost hv = self@;
        let ghost fsv = self.fields@;
        let tag = self.tag;
        let ghost tagv = tag@;
        let mut fields = self.fields;
        let mut o: Vec<(String, Json)> = Vec::new();
        let jtag = Json::Str(tag);
        proof {
            assert(json_view(jtag) == JsonV::Str(tagv));
        }
        o.push((tag_field.clone(), jtag));
        o.append(&mut fields);
        proof {
            lemma_jfields_points(o@);
            lemma_jfields_points(fsv);
            assert(jfields_view(o@) =~= encode_spec(tag_field@, hv));
        }
        o
    }
}

/// Decodes a wire object: pass one scans for the reserved tag field, pass
/// two takes every other field as the variant's own. Yields nothing
/// exactly when the object has no tag field or its value is not a string.
pub fn decode_union(tag_field: &String, obj: Vec<(String, Json)>) -> (r: Option<UnionHolder>)
    ensures
        match decode_spec(tag_field@, jfields_view(obj@)) {
            Option::Some(hv) => r is Some && r->0@ == hv,
            Option::None => r is None,
        },
{
    let ghost ov = jfields_view(obj@);
    proof {
        lemma_jfields_points(obj@);
    }
    let n = obj.len();
    let mut i: usize = 0;
    while i < n
        invariant_except_break
            i <= n,
            n == obj.len(),
            ov == jfields_view(obj@),
            ov.len() == n,
            forall|k: int|
                0 <= k < n ==> #[trigger] ov[k] == (obj@[k].0@, json_view(obj@[k].1)),
            forall|k: int| 0 <= k < i ==> (#[trigger] ov[k]).0 != tag_field@,
        ensures
            i <= n,
            n == obj.len(),
            ov == jfields_view(obj@),
            ov.len() == n,
            forall|k: int|
                0 <= k < n ==> #[trigger] ov[k] == (obj@[k].0@, json_view(obj@[k].1)),
            forall|k: int| 0 <= k < i ==> (#[trigger] ov[k]).0 != tag_field@,
            i < n ==> ov[i as int].0 == tag_field@,
        decreases n - i,
    {
        if obj[i].0 == *tag_field {
            break;
        }
        i = i + 1;
    }
    if i == n {
        proof {
            lemma_tag_index(tag_field@, ov);
            if tag_index(tag_field@, ov) >= 0 {
                assert(ov[tag_index(tag_field@, ov)].0 == tag_field@);
            }
        }
        return Option::None;
    }
    proof {
        lemma_tag_index(tag_field@, ov);
        let ti = tag_index(tag_field@, ov);
        if ti < 0 {
            assert(ov[i as int].0 != tag_field@);
        } else if ti < i as int {
            assert(ov[ti].0 != tag_field@);
        } else if ti > i as int {
            assert(ov[i as int].0 != tag_field@);
        }
        assert(ti == i as int);
    }
    let tag_opt: Option<String> = match &obj[i].1 {
        Json::Str(t) => Option::Some(t.clone()),
        _ => Option::None,
    };
    match tag_opt {
        Option::Some(tag) => {
            proof {
                assert(ov[i as int].1 == json_view(obj@[i as int].1));
                assert(ov[i as int].1 == JsonV::Str(tag@));
            }
            let mut fields = obj;
            let _ = fields.remove(i);
            proof {
                lemma_jfields_points(fields@);
                assert(jfields_view(fields@) =~= ov.remove(i as int));
            }
            Option::Some(UnionHolder { tag, fields })
        },
        Option::None => {
            proof {
                assert(ov[i as int].1 == json_view(obj@[i as int].1));
                assert(!(ov[i as int].1 is Str));
            }
            Option::None
        },
    }
}

/// Discriminated-union round trip: encoding a holder whose variant fields
/// avoid the reserved tag key, then decoding the wire object, reproduces
/// the holder: same tag, field-for-field equal variant.
pub proof fn lemma_union_round_trip(tag_field: Seq<char>, h: UnionHolderV)
    requires
        holder_wf(h, tag_field),
    ensures
        decode_spec(tag_field, encode_spec(tag_field, h)) == Option::Some(h),
{
    let obj = encode_spec(tag_field, h);
    assert(obj[0].0 == tag_field);
    assert(tag_index(tag_field, obj) == 0);
    assert(obj.remove(0) =~= h.fields);
    assert(decode_spec(tag_field, obj)->0 =~= h);
}

/// The other direction: a wire object whose first field is a string tag
/// and whose remaining fields avoid the tag key decodes to a holder that
/// encodes back to the very same object.
pub proof fn lemma_decode_encode(tag_field: Seq<char>, obj: Seq<(Seq<char>, JsonV)>)
    requires
        obj.len() > 0,
        obj[0].0 == tag_field,
        obj[0].1 is Str,
        forall|k: int| 1 <= k < obj.len() ==> (#[trigger] obj[k]).0 != tag_field,
    ensures
        decode_spec(tag_field, obj) is Some,
        encode_spec(tag_field, decode_spec(tag_field, obj)->0) == obj,
{
    assert(tag_index(tag_field, obj) == 0);
    let h = decode_spec(tag_field, obj)->0;
    assert(encode_spec(tag_field, h) =~= obj);
}

} // verus!
