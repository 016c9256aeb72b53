//! The library's general laws, stated once over the spec functions that the
//! record contracts use.

use vstd::prelude::*;

use crate::codec::{JsonForm, lemma_jv_get_present, lemma_present_names, names_of};
use crate::json::{
    JVal, ext_fields, is_known_name, jv_get, lemma_jv_get_ext,
};
use crate::metadata::{
    MetadataMessage, lemma_metadata_message_names_distinct, metadata_message_names,
    metadata_message_norm_pairs,
};
use crate::structure::AttributeRelationship;

verus! {

/// Round trip: a well-formed record serializes to a document that parses, and
/// the parse re-serializes to the same document.  Together with `from_json`'s
/// contract this pins `parse(serialize(v))` down to `v`'s document for every
/// record type, extension fields included.
pub proof fn lemma_round_trip<T: JsonForm>(x: &T)
    requires
        x.wf(),
    ensures
        T::doc_ok(x.ser()),
        T::doc_norm(x.ser()) == x.ser(),
{
    x.lemma_canon();
}

/// Extension preservation: an unrecognized field of a metadata message
/// document survives parse-then-serialize at its level, unchanged.
pub proof fn lemma_extension_preserved(v: JVal, n: Seq<char>)
    requires
        MetadataMessage::doc_ok(v),
        !is_known_name(n, metadata_message_names()),
        jv_get(v->Obj_0, n) is Some,
    ensures
        jv_get(MetadataMessage::doc_norm(v)->Obj_0, n) == jv_get(v->Obj_0, n),
{
    let fs = v->Obj_0;
    let ps = metadata_message_norm_pairs(fs);
    let ext = ext_fields(fs, metadata_message_names());
    lemma_metadata_message_names_distinct();
    assert(names_of(ps) =~= metadata_message_names());
    lemma_present_names(ps);
    crate::codec::lemma_jv_get_concat(crate::codec::present_fields(ps), ext, n);
    assert forall|i: int|
        0 <= i < crate::codec::present_fields(ps).len() implies crate::codec::present_fields(
        ps,
    )[i].0 != n by {
        let j = choose|j: int|
            0 <= j < ps.len() && #[trigger] crate::codec::present_fields(ps)[i].0 == ps[j].0;
        assert(ps[j].0 == metadata_message_names()[j]);
    }
    crate::codec::lemma_jv_get_absent(crate::codec::present_fields(ps), n);
    lemma_jv_get_ext(fs, metadata_message_names(), n);
}

/// Optional omission: a metadata message whose header is absent never writes
/// a header field, not even as a null.
pub proof fn lemma_optional_omitted(m: &MetadataMessage)
    requires
        m.wf(),
        m.meta is None,
    ensures
        jv_get(m.ser()->Obj_0, "meta"@) is None,
{
    m.lemma_canon();
    let ps = crate::metadata::metadata_message_pairs(*m);
    let ext = m.other.view_fields();
    lemma_metadata_message_names_distinct();
    assert(names_of(ps) =~= metadata_message_names());
    crate::codec::lemma_distinct_from_names(ps, metadata_message_names());
    crate::codec::lemma_disjoint_from_ext(ext, ps, metadata_message_names());
    lemma_jv_get_present(ps, ext);
    assert(jv_get(m.ser()->Obj_0, "meta"@) == ps[0].1);
}

/// Disambiguation determinism: two parses of the same attribute-relationship
/// document carry the same document back out; the shape chosen is a function
/// of the input alone.
pub proof fn lemma_disambiguation_deterministic(
    v: JVal,
    a: AttributeRelationship,
    b: AttributeRelationship,
)
    requires
        a.ser() == AttributeRelationship::doc_norm(v),
        b.ser() == AttributeRelationship::doc_norm(v),
    ensures
        a.ser() == b.ser(),
{
}

} // verus!
