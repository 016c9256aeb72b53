//! The structure message: the full catalogue of artefacts a registry can
//! describe, and the constraint value unions.

use vstd::prelude::*;

use crate::codec::{
    JsonForm, chunk, disjoint_from, distinct_names, ext_ok, finish_with_ext, is_opt_rec,
    is_opt_recarr, is_req_rec, is_req_recarr, lemma_arr_canon, lemma_ext_of_present,
    lemma_jv_get_present, names_of, opt_rec_norm, opt_recarr_norm, orec_ser, orec_wf, ovec_ser,
    ovec_wf, parse_opt, parse_opt_vec, parse_req, parse_req_vec, present_fields, put_opt_bool,
    put_opt_isize, put_opt_rec, put_opt_str, put_opt_usize, put_opt_vec, put_rec, put_str,
    put_usize, put_vec, req_rec_norm, seq_ser, seq_wf, vec_ser,
};
use crate::fields::{
    Extensions, FieldBag, ObjBuilder, ParseError, get_opt_bool, get_opt_isize, get_opt_string,
    get_opt_usize, get_req_bool, get_req_string, get_req_usize, str_eq,
};
use crate::json::{
    JVal, JsonValue, ext_fields, is_known_name, is_opt_bool, is_opt_isize, is_opt_str,
    is_opt_usize, is_req_bool, is_req_str, is_req_usize, jv_get, jv_of_obool, jv_of_oint,
    jv_of_ostr, jview, jview_field_vec, oisize_view, opt_bool, opt_int, opt_str, ostr_view,
    ousize_view,
};
use crate::primitives::{
    Annotation, Link, LocalizedText, MetaSingleReceiver, StatusMessage, lemma_pairs_chain,
    pairs_prefix_chunks,
};
use crate::schemes::{
    AgencyScheme, Categorization, CategoryScheme, Codelist, ConceptScheme, CustomTypeScheme,
    DataConsumerScheme, DataProviderScheme, Dataflow, GeoGridCodelist, GeographyCodelist,
    MetadataProviderScheme, NamePersonalizationScheme, OrganizationUnitScheme, ReportingTaxonomy,
    RulesetScheme, TransformationScheme, UserDefinedOperatorsScheme, VtlMappingScheme,
};
use crate::structure::{CommonArtefactType, DataStructure};

verus! {


/// The purpose of a constraint: whether it describes data actually present
/// or data that is allowed.
#[derive(Debug, Clone, Copy, PartialEq, Eq)]
pub enum Role {
    Actual,
    Allowed,
}

impl Role {
    /// The wire token of this value.
    pub open spec fn tok(self) -> Seq<char> {
        match self {
            Role::Actual => "Actual"@,
            Role::Allowed => "Allowed"@,
        }
    }
}

impl JsonForm for Role {
    open spec fn wf(&self) -> bool {
        true
    }

    open spec fn ser(&self) -> JVal {
        JVal::Str(self.tok())
    }

    open spec fn doc_ok(v: JVal) -> bool {
        v matches JVal::Str(s) && {
            ||| s == "Actual"@
            ||| s == "Allowed"@
        }
    }

    open spec fn doc_norm(v: JVal) -> JVal {
        v
    }

    fn from_json(v: JsonValue) -> (r: Result<Self, ParseError>) {
        match v {
            JsonValue::Str(s) => {
                if str_eq(s.as_str(), "Actual") {
                    Ok(Role::Actual)
                } else if str_eq(s.as_str(), "Allowed") {
                    Ok(Role::Allowed)
                } else {
                    Err(ParseError::Token(s))
                }
            },
            _ => Err(ParseError::Shape("role".to_owned(), crate::fields::ValueKind::Text)),
        }
    }

    fn to_json(&self) -> (r: JsonValue) {
        match self {
            Role::Actual => JsonValue::Str("Actual".to_owned()),
            Role::Allowed => JsonValue::Str("Allowed".to_owned()),
        }
    }

    proof fn lemma_canon(&self) {
    }
}

/// Whether a value should be cascaded: a plain boolean, or the token that
/// excludes the root.  The wire shape alone decides.
#[derive(Debug, Clone, Copy, PartialEq, Eq)]
pub enum CascadeValues {
    Boolean(bool),
    ExcludeRoot,
}

impl JsonForm for CascadeValues {
    open spec fn wf(&self) -> bool {
        true
    }

    open spec fn ser(&self) -> JVal {
        match self {
            CascadeValues::Boolean(b) => JVal::Bool(*b),
            CascadeValues::ExcludeRoot => JVal::Str("excluderoot"@),
        }
    }

    open spec fn doc_ok(v: JVal) -> bool {
        match v {
            JVal::Bool(_) => true,
            JVal::Str(s) => s == "excluderoot"@,
            _ => false,
        }
    }

    open spec fn doc_norm(v: JVal) -> JVal {
        v
    }

    fn from_json(v: JsonValue) -> (r: Result<Self, ParseError>) {
        match v {
            JsonValue::Bool(b) => Ok(CascadeValues::Boolean(b)),
            JsonValue::Str(s) => {
                if str_eq(s.as_str(), "excluderoot") {
                    Ok(CascadeValues::ExcludeRoot)
                } else {
                    Err(ParseError::Token(s))
                }
            },
            _ => Err(ParseError::Shape("cascadeValues".to_owned(), crate::fields::ValueKind::Text)),
        }
    }

    fn to_json(&self) -> (r: JsonValue) {
        match self {
            CascadeValues::Boolean(b) => JsonValue::Bool(*b),
            CascadeValues::ExcludeRoot => JsonValue::Str("excluderoot".to_owned()),
        }
    }

    proof fn lemma_canon(&self) {
    }
}

impl From<bool> for CascadeValues {
    /// A plain boolean cascades or not; the root-excluding form never comes
    /// from a boolean.
    fn from(value: bool) -> (r: CascadeValues) {
        CascadeValues::Boolean(value)
    }
}

impl vstd::std_specs::convert::FromSpecImpl<bool> for CascadeValues {
    open spec fn obeys_from_spec() -> bool {
        true
    }

    open spec fn from_spec(value: bool) -> CascadeValues {
        CascadeValues::Boolean(value)
    }
}

/// A simple value for a component of a constraint.
#[derive(Debug, PartialEq)]
pub struct SimpleComponentValue {
    pub value: String,
    pub lang: Option<String>,
    pub cascade_values: CascadeValues,
    pub valid_from: Option<String>,
    pub valid_to: Option<String>,
    pub other: Extensions,
}

pub open spec fn simple_component_value_names() -> Seq<Seq<char>> {
    seq!["value"@, "lang"@, "cascadeValues"@, "validFrom"@, "validTo"@]
}

pub open spec fn simple_component_value_pairs(x: SimpleComponentValue) -> Seq<(Seq<char>, Option<JVal>)> {
    seq![
        ("value"@, Some(JVal::Str(x.value@))),
        ("lang"@, jv_of_ostr(ostr_view(x.lang))),
        ("cascadeValues"@, Some(x.cascade_values.ser())),
        ("validFrom"@, jv_of_ostr(ostr_view(x.valid_from))),
        ("validTo"@, jv_of_ostr(ostr_view(x.valid_to))),
    ]
}

pub open spec fn simple_component_value_norm_pairs(fs: Seq<(Seq<char>, JVal)>) -> Seq<(Seq<char>, Option<JVal>)> {
    seq![
        ("value"@, jv_of_ostr(opt_str(jv_get(fs, "value"@)))),
        ("lang"@, jv_of_ostr(opt_str(jv_get(fs, "lang"@)))),
        ("cascadeValues"@, req_rec_norm::<CascadeValues>(jv_get(fs, "cascadeValues"@))),
        ("validFrom"@, jv_of_ostr(opt_str(jv_get(fs, "validFrom"@)))),
        ("validTo"@, jv_of_ostr(opt_str(jv_get(fs, "validTo"@)))),
    ]
}

/// The names this record knows are pairwise distinct.
pub proof fn lemma_simple_component_value_names_distinct()
    ensures
        forall|i: int, j: int|
            0 <= i < j < simple_component_value_names().len() ==> simple_component_value_names()[i] != simple_component_value_names()[j],
{
    reveal_strlit("value");
    reveal_strlit("lang");
    reveal_strlit("cascadeValues");
    reveal_strlit("validFrom");
    reveal_strlit("validTo");
    let ns = simple_component_value_names();
    assert(ns.len() == 5);
    assert forall|i: int, j: int| 0 <= i < j < ns.len() implies ns[i] != ns[j] by {
        assert("value"@.len() == 5);
        assert("lang"@.len() == 4);
        assert("cascadeValues"@.len() == 13);
        assert("validFrom"@.len() == 9);
        assert("validTo"@.len() == 7);
    }
}

impl JsonForm for SimpleComponentValue {
    open spec fn wf(&self) -> bool {
        &&& ext_ok(self.other.view_fields(), simple_component_value_names())
        &&& crate::fields::window_le(ostr_view(self.valid_from), ostr_view(self.valid_to))
        &&& self.cascade_values.wf()
    }

    open spec fn ser(&self) -> JVal {
        JVal::Obj(present_fields(simple_component_value_pairs(*self)) + self.other.view_fields())
    }

    open spec fn doc_ok(v: JVal) -> bool {
        &&& v is Obj
        &&& {
            let fs = v->Obj_0;
            &&& is_req_str(jv_get(fs, "value"@))
            &&& is_opt_str(jv_get(fs, "lang"@))
            &&& is_req_rec::<CascadeValues>(jv_get(fs, "cascadeValues"@))
            &&& is_opt_str(jv_get(fs, "validFrom"@))
            &&& is_opt_str(jv_get(fs, "validTo"@))
            &&& crate::fields::window_le(
                opt_str(jv_get(fs, "validFrom"@)),
                opt_str(jv_get(fs, "validTo"@)),
            )
        }
    }

    open spec fn doc_norm(v: JVal) -> JVal {
        JVal::Obj(
            present_fields(simple_component_value_norm_pairs(v->Obj_0)) + ext_fields(v->Obj_0, simple_component_value_names()),
        )
    }

    #[verifier::rlimit(50)]
    fn from_json(v: JsonValue) -> (r: Result<Self, ParseError>) {
        let o = match v {
            JsonValue::Obj(o) => o,
            _ => { return Err(ParseError::NotObject) },
        };
        let ghost fs = jview_field_vec(o);
        let mut bag = FieldBag::new(o);
        proof {
            lemma_simple_component_value_names_distinct();
        }
        proof {
            assert(bag.taken() =~= simple_component_value_names().subrange(0, 0));
            crate::codec::lemma_take_fresh(simple_component_value_names(), 0, bag.taken());
        }
        let value = match get_req_string(bag.take("value"), "value") {
            Ok(x) => x,
            Err(e) => { return Err(e) },
        };
        proof {
            assert(bag.taken() =~= simple_component_value_names().subrange(0, 1));
            crate::codec::lemma_take_fresh(simple_component_value_names(), 1, bag.taken());
        }
        let lang = match get_opt_string(bag.take("lang"), "lang") {
            Ok(x) => x,
            Err(e) => { return Err(e) },
        };
        proof {
            assert(bag.taken() =~= simple_component_value_names().subrange(0, 2));
            crate::codec::lemma_take_fresh(simple_component_value_names(), 2, bag.taken());
        }
        let cascade_values = match parse_req::<CascadeValues>(bag.take("cascadeValues"), "cascadeValues") {
            Ok(x) => x,
            Err(e) => { return Err(e) },
        };
        proof {
            assert(bag.taken() =~= simple_component_value_names().subrange(0, 3));
            crate::codec::lemma_take_fresh(simple_component_value_names(), 3, bag.taken());
        }
        let valid_from = match get_opt_string(bag.take("validFrom"), "validFrom") {
            Ok(x) => x,
            Err(e) => { return Err(e) },
        };
        proof {
            assert(bag.taken() =~= simple_component_value_names().subrange(0, 4));
            crate::codec::lemma_take_fresh(simple_component_value_names(), 4, bag.taken());
        }
        let valid_to = match get_opt_string(bag.take("validTo"), "validTo") {
            Ok(x) => x,
            Err(e) => { return Err(e) },
        };
        match (&valid_from, &valid_to) {
            (Some(f), Some(t)) => {
                if !crate::fields::str_le(f.as_str(), t.as_str()) {
                    return Err(
                        ParseError::Shape("validTo".to_owned(), crate::fields::ValueKind::Window),
                    );
                }
            },
            _ => (),
        }
        let ghost tk = bag.taken();
        let other = bag.rest();
        let out = SimpleComponentValue { value, lang, cascade_values, valid_from, valid_to, other };
        proof {
            assert(tk =~= simple_component_value_names());
            crate::codec::lemma_ext_fields_names(fs, tk);
            assert(simple_component_value_pairs(out) =~= simple_component_value_norm_pairs(fs));
        }
        Ok(out)
    }

    fn to_json(&self) -> (r: JsonValue) {
        let mut b = ObjBuilder::new();
        put_str(&mut b, "value", &self.value);
        put_opt_str(&mut b, "lang", &self.lang);
        put_rec(&mut b, "cascadeValues", &self.cascade_values);
        put_opt_str(&mut b, "validFrom", &self.valid_from);
        put_opt_str(&mut b, "validTo", &self.valid_to);
        proof {
            let ps = simple_component_value_pairs(*self);
            lemma_pairs_chain(ps, 5);
            assert(ps.subrange(0, 5) =~= ps);
            assert(b.view_fields() == present_fields(ps)) by {
                reveal_with_fuel(pairs_prefix_chunks, 6);
            }
        }
        finish_with_ext(b, &self.other)
    }

    #[verifier::rlimit(50)]
    #[verifier::spinoff_prover]
    proof fn lemma_canon(&self) {
        lemma_simple_component_value_names_distinct();
        let ps = simple_component_value_pairs(*self);
        let ext = self.other.view_fields();
        assert(names_of(ps) =~= simple_component_value_names());
        assert(distinct_names(ps)) by {
            assert forall|i: int, j: int|
                0 <= i < j < ps.len() implies ps[i].0 != ps[j].0 by {
                assert(ps[i].0 == simple_component_value_names()[i]);
                assert(ps[j].0 == simple_component_value_names()[j]);
            }
        }
        assert(disjoint_from(ext, ps)) by {
            assert forall|i: int, j: int|
                0 <= i < ext.len() && 0 <= j < ps.len() implies ext[i].0 != ps[j].0 by {
                assert(!is_known_name(ext[i].0, simple_component_value_names()));
                assert(simple_component_value_names()[j] == ps[j].0);
            }
        }
        lemma_jv_get_present(ps, ext);
        lemma_ext_of_present(ps, ext);
        let fs = self.ser()->Obj_0;
        assert(jv_get(fs, "value"@) == ps[0].1);
        assert(jv_get(fs, "lang"@) == ps[1].1);
        assert(jv_get(fs, "cascadeValues"@) == ps[2].1);
        assert(jv_get(fs, "validFrom"@) == ps[3].1);
        assert(jv_get(fs, "validTo"@) == ps[4].1);
        self.cascade_values.lemma_canon();
        assert(Self::doc_ok(self.ser()));
        assert(simple_component_value_norm_pairs(fs)[0] == ps[0]);
        assert(simple_component_value_norm_pairs(fs)[1] == ps[1]);
        assert(simple_component_value_norm_pairs(fs)[2] == ps[2]);
        assert(simple_component_value_norm_pairs(fs)[3] == ps[3]);
        assert(simple_component_value_norm_pairs(fs)[4] == ps[4]);
        assert(simple_component_value_norm_pairs(fs) =~= ps);
        assert(ext_fields(fs, names_of(ps)) == ext);
        assert(ext_fields(fs, simple_component_value_names()) == ext);
    }
}

/// A simple value for a data component of a constraint.
#[derive(Debug, PartialEq)]
pub struct DataComponentValue {
    pub cascade_values: Option<CascadeValues>,
    pub lang: Option<String>,
    pub value: String,
    pub other: Extensions,
}

pub open spec fn data_component_value_names() -> Seq<Seq<char>> {
    seq!["cascadeValues"@, "lang"@, "value"@]
}

pub open spec fn data_component_value_pairs(x: DataComponentValue) -> Seq<(Seq<char>, Option<JVal>)> {
    seq![
        ("cascadeValues"@, orec_ser(x.cascade_values)),
        ("lang"@, jv_of_ostr(ostr_view(x.lang))),
        ("value"@, Some(JVal::Str(x.value@))),
    ]
}

pub open spec fn data_component_value_norm_pairs(fs: Seq<(Seq<char>, JVal)>) -> Seq<(Seq<char>, Option<JVal>)> {
    seq![
        ("cascadeValues"@, opt_rec_norm::<CascadeValues>(jv_get(fs, "cascadeValues"@))),
        ("lang"@, jv_of_ostr(opt_str(jv_get(fs, "lang"@)))),
        ("value"@, jv_of_ostr(opt_str(jv_get(fs, "value"@)))),
    ]
}

/// The names this record knows are pairwise distinct.
pub proof fn lemma_data_component_value_names_distinct()
    ensures
        forall|i: int, j: int|
            0 <= i < j < data_component_value_names().len() ==> data_component_value_names()[i] != data_component_value_names()[j],
{
    reveal_strlit("cascadeValues");
    reveal_strlit("lang");
    reveal_strlit("value");
    let ns = data_component_value_names();
    assert(ns.len() == 3);
    assert forall|i: int, j: int| 0 <= i < j < ns.len() implies ns[i] != ns[j] by {
        assert("cascadeValues"@.len() == 13);
        assert("lang"@.len() == 4);
        assert("value"@.len() == 5);
    }
}

impl JsonForm for DataComponentValue {
    open spec fn wf(&self) -> bool {
        &&& ext_ok(self.other.view_fields(), data_component_value_names())
        &&& orec_wf(self.cascade_values)
    }

    open spec fn ser(&self) -> JVal {
        JVal::Obj(present_fields(data_component_value_pairs(*self)) + self.other.view_fields())
    }

    open spec fn doc_ok(v: JVal) -> bool {
        &&& v is Obj
        &&& {
            let fs = v->Obj_0;
            &&& is_opt_rec::<CascadeValues>(jv_get(fs, "cascadeValues"@))
            &&& is_opt_str(jv_get(fs, "lang"@))
            &&& is_req_str(jv_get(fs, "value"@))
        }
    }

    open spec fn doc_norm(v: JVal) -> JVal {
        JVal::Obj(
            present_fields(data_component_value_norm_pairs(v->Obj_0)) + ext_fields(v->Obj_0, data_component_value_names()),
        )
    }

    #[verifier::rlimit(50)]
    fn from_json(v: JsonValue) -> (r: Result<Self, ParseError>) {
        let o = match v {
            JsonValue::Obj(o) => o,
            _ => { return Err(ParseError::NotObject) },
        };
        let ghost fs = jview_field_vec(o);
        let mut bag = FieldBag::new(o);
        proof {
            lemma_data_component_value_names_distinct();
        }
        proof {
            assert(bag.taken() =~= data_component_value_names().subrange(0, 0));
            crate::codec::lemma_take_fresh(data_component_value_names(), 0, bag.taken());
        }
        let cascade_values = match parse_opt::<CascadeValues>(bag.take("cascadeValues")) {
            Ok(x) => x,
            Err(e) => { return Err(e) },
        };
        proof {
            assert(bag.taken() =~= data_component_value_names().subrange(0, 1));
            crate::codec::lemma_take_fresh(data_component_value_names(), 1, bag.taken());
        }
        let lang = match get_opt_string(bag.take("lang"), "lang") {
            Ok(x) => x,
            Err(e) => { return Err(e) },
        };
        proof {
            assert(bag.taken() =~= data_component_value_names().subrange(0, 2));
            crate::codec::lemma_take_fresh(data_component_value_names(), 2, bag.taken());
        }
        let value = match get_req_string(bag.take("value"), "value") {
            Ok(x) => x,
            Err(e) => { return Err(e) },
        };
        let ghost tk = bag.taken();
        let other = bag.rest();
        let out = DataComponentValue { cascade_values, lang, value, other };
        proof {
            assert(tk =~= data_component_value_names());
            crate::codec::lemma_ext_fields_names(fs, tk);
            assert(data_component_value_pairs(out) =~= data_component_value_norm_pairs(fs));
        }
        Ok(out)
    }

    fn to_json(&self) -> (r: JsonValue) {
        let mut b = ObjBuilder::new();
        put_opt_rec(&mut b, "cascadeValues", &self.cascade_values);
        put_opt_str(&mut b, "lang", &self.lang);
        put_str(&mut b, "value", &self.value);
        proof {
            let ps = data_component_value_pairs(*self);
            lemma_pairs_chain(ps, 3);
            assert(ps.subrange(0, 3) =~= ps);
            assert(b.view_fields() == present_fields(ps)) by {
                reveal_with_fuel(pairs_prefix_chunks, 4);
            }
        }
        finish_with_ext(b, &self.other)
    }

    #[verifier::rlimit(50)]
    #[verifier::spinoff_prover]
    proof fn lemma_canon(&self) {
        lemma_data_component_value_names_distinct();
        let ps = data_component_value_pairs(*self);
        let ext = self.other.view_fields();
        assert(names_of(ps) =~= data_component_value_names());
        assert(distinct_names(ps)) by {
            assert forall|i: int, j: int|
                0 <= i < j < ps.len() implies ps[i].0 != ps[j].0 by {
                assert(ps[i].0 == data_component_value_names()[i]);
                assert(ps[j].0 == data_component_value_names()[j]);
            }
        }
        assert(disjoint_from(ext, ps)) by {
            assert forall|i: int, j: int|
                0 <= i < ext.len() && 0 <= j < ps.len() implies ext[i].0 != ps[j].0 by {
                assert(!is_known_name(ext[i].0, data_component_value_names()));
                assert(data_component_value_names()[j] == ps[j].0);
            }
        }
        lemma_jv_get_present(ps, ext);
        lemma_ext_of_present(ps, ext);
        let fs = self.ser()->Obj_0;
        assert(jv_get(fs, "cascadeValues"@) == ps[0].1);
        assert(jv_get(fs, "lang"@) == ps[1].1);
        assert(jv_get(fs, "value"@) == ps[2].1);
        match self.cascade_values {
            Some(t) => {
                t.lemma_canon();
            },
            None => {},
        }
        assert(Self::doc_ok(self.ser()));
        assert(data_component_value_norm_pairs(fs)[0] == ps[0]);
        assert(data_component_value_norm_pairs(fs)[1] == ps[1]);
        assert(data_component_value_norm_pairs(fs)[2] == ps[2]);
        assert(data_component_value_norm_pairs(fs) =~= ps);
        assert(ext_fields(fs, names_of(ps)) == ext);
        assert(ext_fields(fs, data_component_value_names()) == ext);
    }
}


/// A bare string or a simple component value.  The wire shape carries no
/// tag: a bare string is tried first, then the object shape.
#[derive(Debug, PartialEq)]
pub enum StringOrScv {
    String(String),
    SimpleComponent(SimpleComponentValue),
}

impl JsonForm for StringOrScv {
    open spec fn wf(&self) -> bool {
        match self {
            StringOrScv::String(_) => true,
            StringOrScv::SimpleComponent(x) => x.wf(),
        }
    }

    open spec fn ser(&self) -> JVal {
        match self {
            StringOrScv::String(s) => JVal::Str(s@),
            StringOrScv::SimpleComponent(x) => x.ser(),
        }
    }

    open spec fn doc_ok(v: JVal) -> bool {
        v is Str || SimpleComponentValue::doc_ok(v)
    }

    open spec fn doc_norm(v: JVal) -> JVal {
        if v is Str {
            v
        } else {
            SimpleComponentValue::doc_norm(v)
        }
    }

    fn from_json(v: JsonValue) -> (r: Result<Self, ParseError>) {
        match v {
            JsonValue::Str(s) => Ok(StringOrScv::String(s)),
            other => match SimpleComponentValue::from_json(other) {
                Ok(x) => Ok(StringOrScv::SimpleComponent(x)),
                Err(e) => Err(e),
            },
        }
    }

    fn to_json(&self) -> (r: JsonValue) {
        match self {
            StringOrScv::String(s) => JsonValue::Str(s.clone()),
            StringOrScv::SimpleComponent(x) => x.to_json(),
        }
    }

    proof fn lemma_canon(&self) {
        match self {
            StringOrScv::String(_) => {},
            StringOrScv::SimpleComponent(x) => {
                x.lemma_canon();
            },
        }
    }
}

impl From<String> for StringOrScv {
    /// A bare piece of text is the string shape.
    fn from(value: String) -> (r: StringOrScv) {
        StringOrScv::String(value)
    }
}

impl vstd::std_specs::convert::FromSpecImpl<String> for StringOrScv {
    open spec fn obeys_from_spec() -> bool {
        true
    }

    open spec fn from_spec(value: String) -> StringOrScv {
        StringOrScv::String(value)
    }
}

impl From<SimpleComponentValue> for StringOrScv {
    /// A component value is the object shape.
    fn from(value: SimpleComponentValue) -> (r: StringOrScv) {
        StringOrScv::SimpleComponent(value)
    }
}

impl vstd::std_specs::convert::FromSpecImpl<SimpleComponentValue> for StringOrScv {
    open spec fn obeys_from_spec() -> bool {
        true
    }

    open spec fn from_spec(value: SimpleComponentValue) -> StringOrScv {
        StringOrScv::SimpleComponent(value)
    }
}


/// A bare string or a data component value.  The wire shape carries no tag:
/// a bare string is tried first, then the object shape.
#[derive(Debug, PartialEq)]
pub enum StringOrDcv {
    String(String),
    Dcv(DataComponentValue),
}

impl JsonForm for StringOrDcv {
    open spec fn wf(&self) -> bool {
        match self {
            StringOrDcv::String(_) => true,
            StringOrDcv::Dcv(x) => x.wf(),
        }
    }

    open spec fn ser(&self) -> JVal {
        match self {
            StringOrDcv::String(s) => JVal::Str(s@),
            StringOrDcv::Dcv(x) => x.ser(),
        }
    }

    open spec fn doc_ok(v: JVal) -> bool {
        v is Str || DataComponentValue::doc_ok(v)
    }

    open spec fn doc_norm(v: JVal) -> JVal {
        if v is Str {
            v
        } else {
            DataComponentValue::doc_norm(v)
        }
    }

    fn from_json(v: JsonValue) -> (r: Result<Self, ParseError>) {
        match v {
            JsonValue::Str(s) => Ok(StringOrDcv::String(s)),
            other => match DataComponentValue::from_json(other) {
                Ok(x) => Ok(StringOrDcv::Dcv(x)),
                Err(e) => Err(e),
            },
        }
    }

    fn to_json(&self) -> (r: JsonValue) {
        match self {
            StringOrDcv::String(s) => JsonValue::Str(s.clone()),
            StringOrDcv::Dcv(x) => x.to_json(),
        }
    }

    proof fn lemma_canon(&self) {
        match self {
            StringOrDcv::String(_) => {},
            StringOrDcv::Dcv(x) => {
                x.lemma_canon();
            },
        }
    }
}

impl From<String> for StringOrDcv {
    /// A bare piece of text is the string shape.
    fn from(value: String) -> (r: StringOrDcv) {
        StringOrDcv::String(value)
    }
}

impl vstd::std_specs::convert::FromSpecImpl<String> for StringOrDcv {
    open spec fn obeys_from_spec() -> bool {
        true
    }

    open spec fn from_spec(value: String) -> StringOrDcv {
        StringOrDcv::String(value)
    }
}

impl From<DataComponentValue> for StringOrDcv {
    /// A component value is the object shape.
    fn from(value: DataComponentValue) -> (r: StringOrDcv) {
        StringOrDcv::Dcv(value)
    }
}

impl vstd::std_specs::convert::FromSpecImpl<DataComponentValue> for StringOrDcv {
    open spec fn obeys_from_spec() -> bool {
        true
    }

    open spec fn from_spec(value: DataComponentValue) -> StringOrDcv {
        StringOrDcv::Dcv(value)
    }
}

/// The timing of releases of the constrained data.
#[derive(Debug, PartialEq)]
pub struct ReleaseCalendar {
    pub offset: String,
    pub periodicity: String,
    pub tolerance: String,
    pub other: Extensions,
}

pub open spec fn release_calendar_names() -> Seq<Seq<char>> {
    seq!["offset"@, "periodicity"@, "tolerance"@]
}

pub open spec fn release_calendar_pairs(x: ReleaseCalendar) -> Seq<(Seq<char>, Option<JVal>)> {
    seq![
        ("offset"@, Some(JVal::Str(x.offset@))),
        ("periodicity"@, Some(JVal::Str(x.periodicity@))),
        ("tolerance"@, Some(JVal::Str(x.tolerance@))),
    ]
}

pub open spec fn release_calendar_norm_pairs(fs: Seq<(Seq<char>, JVal)>) -> Seq<(Seq<char>, Option<JVal>)> {
    seq![
        ("offset"@, jv_of_ostr(opt_str(jv_get(fs, "offset"@)))),
        ("periodicity"@, jv_of_ostr(opt_str(jv_get(fs, "periodicity"@)))),
        ("tolerance"@, jv_of_ostr(opt_str(jv_get(fs, "tolerance"@)))),
    ]
}

/// The names this record knows are pairwise distinct.
pub proof fn lemma_release_calendar_names_distinct()
    ensures
        forall|i: int, j: int|
            0 <= i < j < release_calendar_names().len() ==> release_calendar_names()[i] != release_calendar_names()[j],
{
    reveal_strlit("offset");
    reveal_strlit("periodicity");
    reveal_strlit("tolerance");
    let ns = release_calendar_names();
    assert(ns.len() == 3);
    assert forall|i: int, j: int| 0 <= i < j < ns.len() implies ns[i] != ns[j] by {
        assert("offset"@.len() == 6);
        assert("periodicity"@.len() == 11);
        assert("tolerance"@.len() == 9);
    }
}

impl JsonForm for ReleaseCalendar {
    open spec fn wf(&self) -> bool {
        &&& ext_ok(self.other.view_fields(), release_calendar_names())
        
    }

    open spec fn ser(&self) -> JVal {
        JVal::Obj(present_fields(release_calendar_pairs(*self)) + self.other.view_fields())
    }

    open spec fn doc_ok(v: JVal) -> bool {
        &&& v is Obj
        &&& {
            let fs = v->Obj_0;
            &&& is_req_str(jv_get(fs, "offset"@))
            &&& is_req_str(jv_get(fs, "periodicity"@))
            &&& is_req_str(jv_get(fs, "tolerance"@))
        }
    }

    open spec fn doc_norm(v: JVal) -> JVal {
        JVal::Obj(
            present_fields(release_calendar_norm_pairs(v->Obj_0)) + ext_fields(v->Obj_0, release_calendar_names()),
        )
    }

    #[verifier::rlimit(50)]
    fn from_json(v: JsonValue) -> (r: Result<Self, ParseError>) {
        let o = match v {
            JsonValue::Obj(o) => o,
            _ => { return Err(ParseError::NotObject) },
        };
        let ghost fs = jview_field_vec(o);
        let mut bag = FieldBag::new(o);
        proof {
            lemma_release_calendar_names_distinct();
        }
        proof {
            assert(bag.taken() =~= release_calendar_names().subrange(0, 0));
            crate::codec::lemma_take_fresh(release_calendar_names(), 0, bag.taken());
        }
        let offset = match get_req_string(bag.take("offset"), "offset") {
            Ok(x) => x,
            Err(e) => { return Err(e) },
        };
        proof {
            assert(bag.taken() =~= release_calendar_names().subrange(0, 1));
            crate::codec::lemma_take_fresh(release_calendar_names(), 1, bag.taken());
        }
        let periodicity = match get_req_string(bag.take("periodicity"), "periodicity") {
            Ok(x) => x,
            Err(e) => { return Err(e) },
        };
        proof {
            assert(bag.taken() =~= release_calendar_names().subrange(0, 2));
            crate::codec::lemma_take_fresh(release_calendar_names(), 2, bag.taken());
        }
        let tolerance = match get_req_string(bag.take("tolerance"), "tolerance") {
            Ok(x) => x,
            Err(e) => { return Err(e) },
        };
        let ghost tk = bag.taken();
        let other = bag.rest();
        let out = ReleaseCalendar { offset, periodicity, tolerance, other };
        proof {
            assert(tk =~= release_calendar_names());
            crate::codec::lemma_ext_fields_names(fs, tk);
            assert(release_calendar_pairs(out) =~= release_calendar_norm_pairs(fs));
        }
        Ok(out)
    }

    fn to_json(&self) -> (r: JsonValue) {
        let mut b = ObjBuilder::new();
        put_str(&mut b, "offset", &self.offset);
        put_str(&mut b, "periodicity", &self.periodicity);
        put_str(&mut b, "tolerance", &self.tolerance);
        proof {
            let ps = release_calendar_pairs(*self);
            lemma_pairs_chain(ps, 3);
            assert(ps.subrange(0, 3) =~= ps);
            assert(b.view_fields() == present_fields(ps)) by {
                reveal_with_fuel(pairs_prefix_chunks, 4);
            }
        }
        finish_with_ext(b, &self.other)
    }

    #[verifier::rlimit(50)]
    #[verifier::spinoff_prover]
    proof fn lemma_canon(&self) {
        lemma_release_calendar_names_distinct();
        let ps = release_calendar_pairs(*self);
        let ext = self.other.view_fields();
        assert(names_of(ps) =~= release_calendar_names());
        assert(distinct_names(ps)) by {
            assert forall|i: int, j: int|
                0 <= i < j < ps.len() implies ps[i].0 != ps[j].0 by {
                assert(ps[i].0 == release_calendar_names()[i]);
                assert(ps[j].0 == release_calendar_names()[j]);
            }
        }
        assert(disjoint_from(ext, ps)) by {
            assert forall|i: int, j: int|
                0 <= i < ext.len() && 0 <= j < ps.len() implies ext[i].0 != ps[j].0 by {
                assert(!is_known_name(ext[i].0, release_calendar_names()));
                assert(release_calendar_names()[j] == ps[j].0);
            }
        }
        lemma_jv_get_present(ps, ext);
        lemma_ext_of_present(ps, ext);
        let fs = self.ser()->Obj_0;
        assert(jv_get(fs, "offset"@) == ps[0].1);
        assert(jv_get(fs, "periodicity"@) == ps[1].1);
        assert(jv_get(fs, "tolerance"@) == ps[2].1);
        
        assert(Self::doc_ok(self.ser()));
        assert(release_calendar_norm_pairs(fs)[0] == ps[0]);
        assert(release_calendar_norm_pairs(fs)[1] == ps[1]);
        assert(release_calendar_norm_pairs(fs)[2] == ps[2]);
        assert(release_calendar_norm_pairs(fs) =~= ps);
        assert(ext_fields(fs, names_of(ps)) == ext);
        assert(ext_fields(fs, release_calendar_names()) == ext);
    }
}

/// A subset of the allowable or available content of a dataset.  Cube
/// regions and key sets ride through the side table.
#[derive(Debug, PartialEq)]
pub struct DataConstraint {
    pub id: String,
    pub agency_id: Option<String>,
    pub version: Option<String>,
    pub name: Option<String>,
    pub names: Option<LocalizedText>,
    pub valid_from: Option<String>,
    pub valid_to: Option<String>,
    pub is_external_reference: Option<bool>,
    pub annotations: Option<Vec<Annotation>>,
    pub links: Option<Vec<Link>>,
    pub role: Role,
    pub release_calendar: Option<ReleaseCalendar>,
    pub other: Extensions,
}

pub open spec fn data_constraint_names() -> Seq<Seq<char>> {
    seq!["id"@, "agencyId"@, "version"@, "name"@, "names"@, "validFrom"@, "validTo"@, "isExternalReference"@, "annotations"@, "links"@, "role"@, "releaseCalendar"@]
}

pub open spec fn data_constraint_pairs(x: DataConstraint) -> Seq<(Seq<char>, Option<JVal>)> {
    seq![
        ("id"@, Some(JVal::Str(x.id@))),
        ("agencyId"@, jv_of_ostr(ostr_view(x.agency_id))),
        ("version"@, jv_of_ostr(ostr_view(x.version))),
        ("name"@, jv_of_ostr(ostr_view(x.name))),
        ("names"@, orec_ser(x.names)),
        ("validFrom"@, jv_of_ostr(ostr_view(x.valid_from))),
        ("validTo"@, jv_of_ostr(ostr_view(x.valid_to))),
        ("isExternalReference"@, jv_of_obool(x.is_external_reference)),
        ("annotations"@, ovec_ser(x.annotations)),
        ("links"@, ovec_ser(x.links)),
        ("role"@, Some(x.role.ser())),
        ("releaseCalendar"@, orec_ser(x.release_calendar)),
    ]
}

pub open spec fn data_constraint_norm_pairs(fs: Seq<(Seq<char>, JVal)>) -> Seq<(Seq<char>, Option<JVal>)> {
    seq![
        ("id"@, jv_of_ostr(opt_str(jv_get(fs, "id"@)))),
        ("agencyId"@, jv_of_ostr(opt_str(jv_get(fs, "agencyId"@)))),
        ("version"@, jv_of_ostr(opt_str(jv_get(fs, "version"@)))),
        ("name"@, jv_of_ostr(opt_str(jv_get(fs, "name"@)))),
        ("names"@, opt_rec_norm::<LocalizedText>(jv_get(fs, "names"@))),
        ("validFrom"@, jv_of_ostr(opt_str(jv_get(fs, "validFrom"@)))),
        ("validTo"@, jv_of_ostr(opt_str(jv_get(fs, "validTo"@)))),
        ("isExternalReference"@, jv_of_obool(opt_bool(jv_get(fs, "isExternalReference"@)))),
        ("annotations"@, opt_recarr_norm::<Annotation>(jv_get(fs, "annotations"@))),
        ("links"@, opt_recarr_norm::<Link>(jv_get(fs, "links"@))),
        ("role"@, req_rec_norm::<Role>(jv_get(fs, "role"@))),
        ("releaseCalendar"@, opt_rec_norm::<ReleaseCalendar>(jv_get(fs, "releaseCalendar"@))),
    ]
}

/// The names this record knows are pairwise distinct.
pub proof fn lemma_data_constraint_names_distinct()
    ensures
        forall|i: int, j: int|
            0 <= i < j < data_constraint_names().len() ==> data_constraint_names()[i] != data_constraint_names()[j],
{
    reveal_strlit("id");
    reveal_strlit("agencyId");
    reveal_strlit("version");
    reveal_strlit("name");
    reveal_strlit("names");
    reveal_strlit("validFrom");
    reveal_strlit("validTo");
    reveal_strlit("isExternalReference");
    reveal_strlit("annotations");
    reveal_strlit("links");
    reveal_strlit("role");
    reveal_strlit("releaseCalendar");
    let ns = data_constraint_names();
    assert(ns.len() == 12);
    assert forall|i: int, j: int| 0 <= i < j < ns.len() implies ns[i] != ns[j] by {
        assert("id"@.len() == 2);
        assert("agencyId"@.len() == 8);
        assert("version"@.len() == 7);
        assert("name"@.len() == 4);
        assert("names"@.len() == 5);
        assert("validFrom"@.len() == 9);
        assert("validTo"@.len() == 7);
        assert("isExternalReference"@.len() == 19);
        assert("annotations"@.len() == 11);
        assert("links"@.len() == 5);
        assert("role"@.len() == 4);
        assert("releaseCalendar"@.len() == 15);
        assert("version"@[1] == 'e');
        assert("validTo"@[1] == 'a');
        assert("name"@[0] == 'n');
        assert("role"@[0] == 'r');
        assert("names"@[0] == 'n');
        assert("links"@[0] == 'l');
    }
}

impl JsonForm for DataConstraint {
    open spec fn wf(&self) -> bool {
        &&& ext_ok(self.other.view_fields(), data_constraint_names())
        &&& crate::fields::window_le(ostr_view(self.valid_from), ostr_view(self.valid_to))
        &&& orec_wf(self.names)
        &&& ovec_wf(self.annotations)
        &&& ovec_wf(self.links)
        &&& self.role.wf()
        &&& orec_wf(self.release_calendar)
    }

    open spec fn ser(&self) -> JVal {
        JVal::Obj(present_fields(data_constraint_pairs(*self)) + self.other.view_fields())
    }

    open spec fn doc_ok(v: JVal) -> bool {
        &&& v is Obj
        &&& {
            let fs = v->Obj_0;
            &&& is_req_str(jv_get(fs, "id"@))
            &&& is_opt_str(jv_get(fs, "agencyId"@))
            &&& is_opt_str(jv_get(fs, "version"@))
            &&& is_opt_str(jv_get(fs, "name"@))
            &&& is_opt_rec::<LocalizedText>(jv_get(fs, "names"@))
            &&& is_opt_str(jv_get(fs, "validFrom"@))
            &&& is_opt_str(jv_get(fs, "validTo"@))
            &&& crate::fields::window_le(
                opt_str(jv_get(fs, "validFrom"@)),
                opt_str(jv_get(fs, "validTo"@)),
            )
            &&& is_opt_bool(jv_get(fs, "isExternalReference"@))
            &&& is_opt_recarr::<Annotation>(jv_get(fs, "annotations"@))
            &&& is_opt_recarr::<Link>(jv_get(fs, "links"@))
            &&& is_req_rec::<Role>(jv_get(fs, "role"@))
            &&& is_opt_rec::<ReleaseCalendar>(jv_get(fs, "releaseCalendar"@))
        }
    }

    open spec fn doc_norm(v: JVal) -> JVal {
        JVal::Obj(
            present_fields(data_constraint_norm_pairs(v->Obj_0)) + ext_fields(v->Obj_0, data_constraint_names()),
        )
    }

    #[verifier::rlimit(50)]
    fn from_json(v: JsonValue) -> (r: Result<Self, ParseError>) {
        let o = match v {
            JsonValue::Obj(o) => o,
            _ => { return Err(ParseError::NotObject) },
        };
        let ghost fs = jview_field_vec(o);
        let mut bag = FieldBag::new(o);
        proof {
            lemma_data_constraint_names_distinct();
        }
        proof {
            assert(bag.taken() =~= data_constraint_names().subrange(0, 0));
            crate::codec::lemma_take_fresh(data_constraint_names(), 0, bag.taken());
        }
        let id = match get_req_string(bag.take("id"), "id") {
            Ok(x) => x,
            Err(e) => { return Err(e) },
        };
        proof {
            assert(bag.taken() =~= data_constraint_names().subrange(0, 1));
            crate::codec::lemma_take_fresh(data_constraint_names(), 1, bag.taken());
        }
        let agency_id = match get_opt_string(bag.take("agencyId"), "agencyId") {
            Ok(x) => x,
            Err(e) => { return Err(e) },
        };
        proof {
            assert(bag.taken() =~= data_constraint_names().subrange(0, 2));
            crate::codec::lemma_take_fresh(data_constraint_names(), 2, bag.taken());
        }
        let version = match get_opt_string(bag.take("version"), "version") {
            Ok(x) => x,
            Err(e) => { return Err(e) },
        };
        proof {
            assert(bag.taken() =~= data_constraint_names().subrange(0, 3));
            crate::codec::lemma_take_fresh(data_constraint_names(), 3, bag.taken());
        }
        let name = match get_opt_string(bag.take("name"), "name") {
            Ok(x) => x,
            Err(e) => { return Err(e) },
        };
        proof {
            assert(bag.taken() =~= data_constraint_names().subrange(0, 4));
            crate::codec::lemma_take_fresh(data_constraint_names(), 4, bag.taken());
        }
        let names = match parse_opt::<LocalizedText>(bag.take("names")) {
            Ok(x) => x,
            Err(e) => { return Err(e) },
        };
        proof {
            assert(bag.taken() =~= data_constraint_names().subrange(0, 5));
            crate::codec::lemma_take_fresh(data_constraint_names(), 5, bag.taken());
        }
        let valid_from = match get_opt_string(bag.take("validFrom"), "validFrom") {
            Ok(x) => x,
            Err(e) => { return Err(e) },
        };
        proof {
            assert(bag.taken() =~= data_constraint_names().subrange(0, 6));
            crate::codec::lemma_take_fresh(data_constraint_names(), 6, bag.taken());
        }
        let valid_to = match get_opt_string(bag.take("validTo"), "validTo") {
            Ok(x) => x,
            Err(e) => { return Err(e) },
        };
        match (&valid_from, &valid_to) {
            (Some(f), Some(t)) => {
                if !crate::fields::str_le(f.as_str(), t.as_str()) {
                    return Err(
                        ParseError::Shape("validTo".to_owned(), crate::fields::ValueKind::Window),
                    );
                }
            },
            _ => (),
        }
        proof {
            assert(bag.taken() =~= data_constraint_names().subrange(0, 7));
            crate::codec::lemma_take_fresh(data_constraint_names(), 7, bag.taken());
        }
        let is_external_reference = match get_opt_bool(bag.take("isExternalReference"), "isExternalReference") {
            Ok(x) => x,
            Err(e) => { return Err(e) },
        };
        proof {
            assert(bag.taken() =~= data_constraint_names().subrange(0, 8));
            crate::codec::lemma_take_fresh(data_constraint_names(), 8, bag.taken());
        }
        let annotations = match parse_opt_vec::<Annotation>(bag.take("annotations"), "annotations") {
            Ok(x) => x,
            Err(e) => { return Err(e) },
        };
        proof {
            assert(bag.taken() =~= data_constraint_names().subrange(0, 9));
            crate::codec::lemma_take_fresh(data_constraint_names(), 9, bag.taken());
        }
        let links = match parse_opt_vec::<Link>(bag.take("links"), "links") {
            Ok(x) => x,
            Err(e) => { return Err(e) },
        };
        proof {
            assert(bag.taken() =~= data_constraint_names().subrange(0, 10));
            crate::codec::lemma_take_fresh(data_constraint_names(), 10, bag.taken());
        }
        let role = match parse_req::<Role>(bag.take("role"), "role") {
            Ok(x) => x,
            Err(e) => { return Err(e) },
        };
        proof {
            assert(bag.taken() =~= data_constraint_names().subrange(0, 11));
            crate::codec::lemma_take_fresh(data_constraint_names(), 11, bag.taken());
        }
        let release_calendar = match parse_opt::<ReleaseCalendar>(bag.take("releaseCalendar")) {
            Ok(x) => x,
            Err(e) => { return Err(e) },
        };
        let ghost tk = bag.taken();
        let other = bag.rest();
        let out = DataConstraint { id, agency_id, version, name, names, valid_from, valid_to, is_external_reference, annotations, links, role, release_calendar, other };
        proof {
            assert(tk =~= data_constraint_names());
            crate::codec::lemma_ext_fields_names(fs, tk);
            assert(data_constraint_pairs(out) =~= data_constraint_norm_pairs(fs));
        }
        Ok(out)
    }

    fn to_json(&self) -> (r: JsonValue) {
        let mut b = ObjBuilder::new();
        put_str(&mut b, "id", &self.id);
        put_opt_str(&mut b, "agencyId", &self.agency_id);
        put_opt_str(&mut b, "version", &self.version);
        put_opt_str(&mut b, "name", &self.name);
        put_opt_rec(&mut b, "names", &self.names);
        put_opt_str(&mut b, "validFrom", &self.valid_from);
        put_opt_str(&mut b, "validTo", &self.valid_to);
        put_opt_bool(&mut b, "isExternalReference", &self.is_external_reference);
        put_opt_vec(&mut b, "annotations", &self.annotations);
        put_opt_vec(&mut b, "links", &self.links);
        put_rec(&mut b, "role", &self.role);
        put_opt_rec(&mut b, "releaseCalendar", &self.release_calendar);
        proof {
            let ps = data_constraint_pairs(*self);
            lemma_pairs_chain(ps, 12);
            assert(ps.subrange(0, 12) =~= ps);
            assert(b.view_fields() == present_fields(ps)) by {
                reveal_with_fuel(pairs_prefix_chunks, 13);
            }
        }
        finish_with_ext(b, &self.other)
    }

    #[verifier::rlimit(50)]
    #[verifier::spinoff_prover]
    proof fn lemma_canon(&self) {
        lemma_data_constraint_names_distinct();
        let ps = data_constraint_pairs(*self);
        let ext = self.other.view_fields();
        assert(names_of(ps) =~= data_constraint_names());
        assert(distinct_names(ps)) by {
            assert forall|i: int, j: int|
                0 <= i < j < ps.len() implies ps[i].0 != ps[j].0 by {
                assert(ps[i].0 == data_constraint_names()[i]);
                assert(ps[j].0 == data_constraint_names()[j]);
            }
        }
        assert(disjoint_from(ext, ps)) by {
            assert forall|i: int, j: int|
                0 <= i < ext.len() && 0 <= j < ps.len() implies ext[i].0 != ps[j].0 by {
                assert(!is_known_name(ext[i].0, data_constraint_names()));
                assert(data_constraint_names()[j] == ps[j].0);
            }
        }
        lemma_jv_get_present(ps, ext);
        lemma_ext_of_present(ps, ext);
        let fs = self.ser()->Obj_0;
        assert(jv_get(fs, "id"@) == ps[0].1);
        assert(jv_get(fs, "agencyId"@) == ps[1].1);
        assert(jv_get(fs, "version"@) == ps[2].1);
        assert(jv_get(fs, "name"@) == ps[3].1);
        assert(jv_get(fs, "names"@) == ps[4].1);
        assert(jv_get(fs, "validFrom"@) == ps[5].1);
        assert(jv_get(fs, "validTo"@) == ps[6].1);
        assert(jv_get(fs, "isExternalReference"@) == ps[7].1);
        assert(jv_get(fs, "annotations"@) == ps[8].1);
        assert(jv_get(fs, "links"@) == ps[9].1);
        assert(jv_get(fs, "role"@) == ps[10].1);
        assert(jv_get(fs, "releaseCalendar"@) == ps[11].1);
        match self.names {
            Some(t) => {
                t.lemma_canon();
            },
            None => {},
        }
        match &self.annotations {
            Some(v) => {
                lemma_arr_canon::<Annotation>(v@);
            },
            None => {},
        }
        match &self.links {
            Some(v) => {
                lemma_arr_canon::<Link>(v@);
            },
            None => {},
        }
        self.role.lemma_canon();
        match self.release_calendar {
            Some(t) => {
                t.lemma_canon();
            },
            None => {},
        }
        assert(Self::doc_ok(self.ser()));
        assert(data_constraint_norm_pairs(fs)[0] == ps[0]);
        assert(data_constraint_norm_pairs(fs)[1] == ps[1]);
        assert(data_constraint_norm_pairs(fs)[2] == ps[2]);
        assert(data_constraint_norm_pairs(fs)[3] == ps[3]);
        assert(data_constraint_norm_pairs(fs)[4] == ps[4]);
        assert(data_constraint_norm_pairs(fs)[5] == ps[5]);
        assert(data_constraint_norm_pairs(fs)[6] == ps[6]);
        assert(data_constraint_norm_pairs(fs)[7] == ps[7]);
        assert(data_constraint_norm_pairs(fs)[8] == ps[8]);
        assert(data_constraint_norm_pairs(fs)[9] == ps[9]);
        assert(data_constraint_norm_pairs(fs)[10] == ps[10]);
        assert(data_constraint_norm_pairs(fs)[11] == ps[11]);
        assert(data_constraint_norm_pairs(fs) =~= ps);
        assert(ext_fields(fs, names_of(ps)) == ext);
        assert(ext_fields(fs, data_constraint_names()) == ext);
    }
}

/// A subset of the allowable or available content of a metadata set.
#[derive(Debug, PartialEq)]
pub struct MetadataConstraint {
    pub id: String,
    pub agency_id: Option<String>,
    pub version: Option<String>,
    pub name: Option<String>,
    pub names: Option<LocalizedText>,
    pub valid_from: Option<String>,
    pub valid_to: Option<String>,
    pub is_external_reference: Option<bool>,
    pub annotations: Option<Vec<Annotation>>,
    pub links: Option<Vec<Link>>,
    pub role: Role,
    pub release_calendar: Option<ReleaseCalendar>,
    pub other: Extensions,
}

pub open spec fn metadata_constraint_names() -> Seq<Seq<char>> {
    seq!["id"@, "agencyId"@, "version"@, "name"@, "names"@, "validFrom"@, "validTo"@, "isExternalReference"@, "annotations"@, "links"@, "role"@, "releaseCalendar"@]
}

pub open spec fn metadata_constraint_pairs(x: MetadataConstraint) -> Seq<(Seq<char>, Option<JVal>)> {
    seq![
        ("id"@, Some(JVal::Str(x.id@))),
        ("agencyId"@, jv_of_ostr(ostr_view(x.agency_id))),
        ("version"@, jv_of_ostr(ostr_view(x.version))),
        ("name"@, jv_of_ostr(ostr_view(x.name))),
        ("names"@, orec_ser(x.names)),
        ("validFrom"@, jv_of_ostr(ostr_view(x.valid_from))),
        ("validTo"@, jv_of_ostr(ostr_view(x.valid_to))),
        ("isExternalReference"@, jv_of_obool(x.is_external_reference)),
        ("annotations"@, ovec_ser(x.annotations)),
        ("links"@, ovec_ser(x.links)),
        ("role"@, Some(x.role.ser())),
        ("releaseCalendar"@, orec_ser(x.release_calendar)),
    ]
}

pub open spec fn metadata_constraint_norm_pairs(fs: Seq<(Seq<char>, JVal)>) -> Seq<(Seq<char>, Option<JVal>)> {
    seq![
        ("id"@, jv_of_ostr(opt_str(jv_get(fs, "id"@)))),
        ("agencyId"@, jv_of_ostr(opt_str(jv_get(fs, "agencyId"@)))),
        ("version"@, jv_of_ostr(opt_str(jv_get(fs, "version"@)))),
        ("name"@, jv_of_ostr(opt_str(jv_get(fs, "name"@)))),
        ("names"@, opt_rec_norm::<LocalizedText>(jv_get(fs, "names"@))),
        ("validFrom"@, jv_of_ostr(opt_str(jv_get(fs, "validFrom"@)))),
        ("validTo"@, jv_of_ostr(opt_str(jv_get(fs, "validTo"@)))),
        ("isExternalReference"@, jv_of_obool(opt_bool(jv_get(fs, "isExternalReference"@)))),
        ("annotations"@, opt_recarr_norm::<Annotation>(jv_get(fs, "annotations"@))),
        ("links"@, opt_recarr_norm::<Link>(jv_get(fs, "links"@))),
        ("role"@, req_rec_norm::<Role>(jv_get(fs, "role"@))),
        ("releaseCalendar"@, opt_rec_norm::<ReleaseCalendar>(jv_get(fs, "releaseCalendar"@))),
    ]
}

/// The names this record knows are pairwise distinct.
pub proof fn lemma_metadata_constraint_names_distinct()
    ensures
        forall|i: int, j: int|
            0 <= i < j < metadata_constraint_names().len() ==> metadata_constraint_names()[i] != metadata_constraint_names()[j],
{
    reveal_strlit("id");
    reveal_strlit("agencyId");
    reveal_strlit("version");
    reveal_strlit("name");
    reveal_strlit("names");
    reveal_strlit("validFrom");
    reveal_strlit("validTo");
    reveal_strlit("isExternalReference");
    reveal_strlit("annotations");
    reveal_strlit("links");
    reveal_strlit("role");
    reveal_strlit("releaseCalendar");
    let ns = metadata_constraint_names();
    assert(ns.len() == 12);
    assert forall|i: int, j: int| 0 <= i < j < ns.len() implies ns[i] != ns[j] by {
        assert("id"@.len() == 2);
        assert("agencyId"@.len() == 8);
        assert("version"@.len() == 7);
        assert("name"@.len() == 4);
        assert("names"@.len() == 5);
        assert("validFrom"@.len() == 9);
        assert("validTo"@.len() == 7);
        assert("isExternalReference"@.len() == 19);
        assert("annotations"@.len() == 11);
        assert("links"@.len() == 5);
        assert("role"@.len() == 4);
        assert("releaseCalendar"@.len() == 15);
        assert("version"@[1] == 'e');
        assert("validTo"@[1] == 'a');
        assert("name"@[0] == 'n');
        assert("role"@[0] == 'r');
        assert("names"@[0] == 'n');
        assert("links"@[0] == 'l');
    }
}

impl JsonForm for MetadataConstraint {
    open spec fn wf(&self) -> bool {
        &&& ext_ok(self.other.view_fields(), metadata_constraint_names())
        &&& crate::fields::window_le(ostr_view(self.valid_from), ostr_view(self.valid_to))
        &&& orec_wf(self.names)
        &&& ovec_wf(self.annotations)
        &&& ovec_wf(self.links)
        &&& self.role.wf()
        &&& orec_wf(self.release_calendar)
    }

    open spec fn ser(&self) -> JVal {
        JVal::Obj(present_fields(metadata_constraint_pairs(*self)) + self.other.view_fields())
    }

    open spec fn doc_ok(v: JVal) -> bool {
        &&& v is Obj
        &&& {
            let fs = v->Obj_0;
            &&& is_req_str(jv_get(fs, "id"@))
            &&& is_opt_str(jv_get(fs, "agencyId"@))
            &&& is_opt_str(jv_get(fs, "version"@))
            &&& is_opt_str(jv_get(fs, "name"@))
            &&& is_opt_rec::<LocalizedText>(jv_get(fs, "names"@))
            &&& is_opt_str(jv_get(fs, "validFrom"@))
            &&& is_opt_str(jv_get(fs, "validTo"@))
            &&& crate::fields::window_le(
                opt_str(jv_get(fs, "validFrom"@)),
                opt_str(jv_get(fs, "validTo"@)),
            )
            &&& is_opt_bool(jv_get(fs, "isExternalReference"@))
            &&& is_opt_recarr::<Annotation>(jv_get(fs, "annotations"@))
            &&& is_opt_recarr::<Link>(jv_get(fs, "links"@))
            &&& is_req_rec::<Role>(jv_get(fs, "role"@))
            &&& is_opt_rec::<ReleaseCalendar>(jv_get(fs, "releaseCalendar"@))
        }
    }

    open spec fn doc_norm(v: JVal) -> JVal {
        JVal::Obj(
            present_fields(metadata_constraint_norm_pairs(v->Obj_0)) + ext_fields(v->Obj_0, metadata_constraint_names()),
        )
    }

    #[verifier::rlimit(50)]
    fn from_json(v: JsonValue) -> (r: Result<Self, ParseError>) {
        let o = match v {
            JsonValue::Obj(o) => o,
            _ => { return Err(ParseError::NotObject) },
        };
        let ghost fs = jview_field_vec(o);
        let mut bag = FieldBag::new(o);
        proof {
            lemma_metadata_constraint_names_distinct();
        }
        proof {
            assert(bag.taken() =~= metadata_constraint_names().subrange(0, 0));
            crate::codec::lemma_take_fresh(metadata_constraint_names(), 0, bag.taken());
        }
        let id = match get_req_string(bag.take("id"), "id") {
            Ok(x) => x,
            Err(e) => { return Err(e) },
        };
        proof {
            assert(bag.taken() =~= metadata_constraint_names().subrange(0, 1));
            crate::codec::lemma_take_fresh(metadata_constraint_names(), 1, bag.taken());
        }
        let agency_id = match get_opt_string(bag.take("agencyId"), "agencyId") {
            Ok(x) => x,
            Err(e) => { return Err(e) },
        };
        proof {
            assert(bag.taken() =~= metadata_constraint_names().subrange(0, 2));
            crate::codec::lemma_take_fresh(metadata_constraint_names(), 2, bag.taken());
        }
        let version = match get_opt_string(bag.take("version"), "version") {
            Ok(x) => x,
            Err(e) => { return Err(e) },
        };
        proof {
            assert(bag.taken() =~= metadata_constraint_names().subrange(0, 3));
            crate::codec::lemma_take_fresh(metadata_constraint_names(), 3, bag.taken());
        }
        let name = match get_opt_string(bag.take("name"), "name") {
            Ok(x) => x,
            Err(e) => { return Err(e) },
        };
        proof {
            assert(bag.taken() =~= metadata_constraint_names().subrange(0, 4));
            crate::codec::lemma_take_fresh(metadata_constraint_names(), 4, bag.taken());
        }
        let names = match parse_opt::<LocalizedText>(bag.take("names")) {
            Ok(x) => x,
            Err(e) => { return Err(e) },
        };
        proof {
            assert(bag.taken() =~= metadata_constraint_names().subrange(0, 5));
            crate::codec::lemma_take_fresh(metadata_constraint_names(), 5, bag.taken());
        }
        let valid_from = match get_opt_string(bag.take("validFrom"), "validFrom") {
            Ok(x) => x,
            Err(e) => { return Err(e) },
        };
        proof {
            assert(bag.taken() =~= metadata_constraint_names().subrange(0, 6));
            crate::codec::lemma_take_fresh(metadata_constraint_names(), 6, bag.taken());
        }
        let valid_to = match get_opt_string(bag.take("validTo"), "validTo") {
            Ok(x) => x,
            Err(e) => { return Err(e) },
        };
        match (&valid_from, &valid_to) {
            (Some(f), Some(t)) => {
                if !crate::fields::str_le(f.as_str(), t.as_str()) {
                    return Err(
                        ParseError::Shape("validTo".to_owned(), crate::fields::ValueKind::Window),
                    );
                }
            },
            _ => (),
        }
        proof {
            assert(bag.taken() =~= metadata_constraint_names().subrange(0, 7));
            crate::codec::lemma_take_fresh(metadata_constraint_names(), 7, bag.taken());
        }
        let is_external_reference = match get_opt_bool(bag.take("isExternalReference"), "isExternalReference") {
            Ok(x) => x,
            Err(e) => { return Err(e) },
        };
        proof {
            assert(bag.taken() =~= metadata_constraint_names().subrange(0, 8));
            crate::codec::lemma_take_fresh(metadata_constraint_names(), 8, bag.taken());
        }
        let annotations = match parse_opt_vec::<Annotation>(bag.take("annotations"), "annotations") {
            Ok(x) => x,
            Err(e) => { return Err(e) },
        };
        proof {
            assert(bag.taken() =~= metadata_constraint_names().subrange(0, 9));
            crate::codec::lemma_take_fresh(metadata_constraint_names(), 9, bag.taken());
        }
        let links = match parse_opt_vec::<Link>(bag.take("links"), "links") {
            Ok(x) => x,
            Err(e) => { return Err(e) },
        };
        proof {
            assert(bag.taken() =~= metadata_constraint_names().subrange(0, 10));
            crate::codec::lemma_take_fresh(metadata_constraint_names(), 10, bag.taken());
        }
        let role = match parse_req::<Role>(bag.take("role"), "role") {
            Ok(x) => x,
            Err(e) => { return Err(e) },
        };
        proof {
            assert(bag.taken() =~= metadata_constraint_names().subrange(0, 11));
            crate::codec::lemma_take_fresh(metadata_constraint_names(), 11, bag.taken());
        }
        let release_calendar = match parse_opt::<ReleaseCalendar>(bag.take("releaseCalendar")) {
            Ok(x) => x,
            Err(e) => { return Err(e) },
        };
        let ghost tk = bag.taken();
        let other = bag.rest();
        let out = MetadataConstraint { id, agency_id, version, name, names, valid_from, valid_to, is_external_reference, annotations, links, role, release_calendar, other };
        proof {
            assert(tk =~= metadata_constraint_names());
            crate::codec::lemma_ext_fields_names(fs, tk);
            assert(metadata_constraint_pairs(out) =~= metadata_constraint_norm_pairs(fs));
        }
        Ok(out)
    }

    fn to_json(&self) -> (r: JsonValue) {
        let mut b = ObjBuilder::new();
        put_str(&mut b, "id", &self.id);
        put_opt_str(&mut b, "agencyId", &self.agency_id);
        put_opt_str(&mut b, "version", &self.version);
        put_opt_str(&mut b, "name", &self.name);
        put_opt_rec(&mut b, "names", &self.names);
        put_opt_str(&mut b, "validFrom", &self.valid_from);
        put_opt_str(&mut b, "validTo", &self.valid_to);
        put_opt_bool(&mut b, "isExternalReference", &self.is_external_reference);
        put_opt_vec(&mut b, "annotations", &self.annotations);
        put_opt_vec(&mut b, "links", &self.links);
        put_rec(&mut b, "role", &self.role);
        put_opt_rec(&mut b, "releaseCalendar", &self.release_calendar);
        proof {
            let ps = metadata_constraint_pairs(*self);
            lemma_pairs_chain(ps, 12);
            assert(ps.subrange(0, 12) =~= ps);
            assert(b.view_fields() == present_fields(ps)) by {
                reveal_with_fuel(pairs_prefix_chunks, 13);
            }
        }
        finish_with_ext(b, &self.other)
    }

    #[verifier::rlimit(50)]
    #[verifier::spinoff_prover]
    proof fn lemma_canon(&self) {
        lemma_metadata_constraint_names_distinct();
        let ps = metadata_constraint_pairs(*self);
        let ext = self.other.view_fields();
        assert(names_of(ps) =~= metadata_constraint_names());
        assert(distinct_names(ps)) by {
            assert forall|i: int, j: int|
                0 <= i < j < ps.len() implies ps[i].0 != ps[j].0 by {
                assert(ps[i].0 == metadata_constraint_names()[i]);
                assert(ps[j].0 == metadata_constraint_names()[j]);
            }
        }
        assert(disjoint_from(ext, ps)) by {
            assert forall|i: int, j: int|
                0 <= i < ext.len() && 0 <= j < ps.len() implies ext[i].0 != ps[j].0 by {
                assert(!is_known_name(ext[i].0, metadata_constraint_names()));
                assert(metadata_constraint_names()[j] == ps[j].0);
            }
        }
        lemma_jv_get_present(ps, ext);
        lemma_ext_of_present(ps, ext);
        let fs = self.ser()->Obj_0;
        assert(jv_get(fs, "id"@) == ps[0].1);
        assert(jv_get(fs, "agencyId"@) == ps[1].1);
        assert(jv_get(fs, "version"@) == ps[2].1);
        assert(jv_get(fs, "name"@) == ps[3].1);
        assert(jv_get(fs, "names"@) == ps[4].1);
        assert(jv_get(fs, "validFrom"@) == ps[5].1);
        assert(jv_get(fs, "validTo"@) == ps[6].1);
        assert(jv_get(fs, "isExternalReference"@) == ps[7].1);
        assert(jv_get(fs, "annotations"@) == ps[8].1);
        assert(jv_get(fs, "links"@) == ps[9].1);
        assert(jv_get(fs, "role"@) == ps[10].1);
        assert(jv_get(fs, "releaseCalendar"@) == ps[11].1);
        match self.names {
            Some(t) => {
                t.lemma_canon();
            },
            None => {},
        }
        match &self.annotations {
            Some(v) => {
                lemma_arr_canon::<Annotation>(v@);
            },
            None => {},
        }
        match &self.links {
            Some(v) => {
                lemma_arr_canon::<Link>(v@);
            },
            None => {},
        }
        self.role.lemma_canon();
        match self.release_calendar {
            Some(t) => {
                t.lemma_canon();
            },
            None => {},
        }
        assert(Self::doc_ok(self.ser()));
        assert(metadata_constraint_norm_pairs(fs)[0] == ps[0]);
        assert(metadata_constraint_norm_pairs(fs)[1] == ps[1]);
        assert(metadata_constraint_norm_pairs(fs)[2] == ps[2]);
        assert(metadata_constraint_norm_pairs(fs)[3] == ps[3]);
        assert(metadata_constraint_norm_pairs(fs)[4] == ps[4]);
        assert(metadata_constraint_norm_pairs(fs)[5] == ps[5]);
        assert(metadata_constraint_norm_pairs(fs)[6] == ps[6]);
        assert(metadata_constraint_norm_pairs(fs)[7] == ps[7]);
        assert(metadata_constraint_norm_pairs(fs)[8] == ps[8]);
        assert(metadata_constraint_norm_pairs(fs)[9] == ps[9]);
        assert(metadata_constraint_norm_pairs(fs)[10] == ps[10]);
        assert(metadata_constraint_norm_pairs(fs)[11] == ps[11]);
        assert(metadata_constraint_norm_pairs(fs) =~= ps);
        assert(ext_fields(fs, names_of(ps)) == ext);
        assert(ext_fields(fs, metadata_constraint_names()) == ext);
    }
}

/// The payload of a structure message: one optional list per artefact kind
/// the model types.  Kinds it does not type ride through the side table.
#[derive(Debug, PartialEq)]
pub struct Data {
    pub data_structures: Option<Vec<DataStructure>>,
    pub metadata_structures: Option<Vec<CommonArtefactType>>,
    pub category_schemas: Option<Vec<CategoryScheme>>,
    pub concept_schemas: Option<Vec<ConceptScheme>>,
    pub concepts: Option<Vec<Codelist>>,
    pub geographic_codelists: Option<Vec<GeographyCodelist>>,
    pub geo_grid_codelists: Option<Vec<GeoGridCodelist>>,
    pub agency_schemes: Option<Vec<AgencyScheme>>,
    pub data_provider_schemes: Option<Vec<DataProviderScheme>>,
    pub data_consumer_schemes: Option<Vec<DataConsumerScheme>>,
    pub metadata_provider_schemes: Option<Vec<MetadataProviderScheme>>,
    pub organisation_unit_schemes: Option<Vec<OrganizationUnitScheme>>,
    pub dataflows: Option<Vec<Dataflow>>,
    pub reporting_taxonomies: Option<Vec<ReportingTaxonomy>>,
    pub categorisations: Option<Vec<Categorization>>,
    pub data_constraints: Option<Vec<DataConstraint>>,
    pub metadata_constraints: Option<Vec<MetadataConstraint>>,
    pub custom_type_schemes: Option<Vec<CustomTypeScheme>>,
    pub vtl_mapping_schemes: Option<Vec<VtlMappingScheme>>,
    pub name_personalisation_schemes: Option<Vec<NamePersonalizationScheme>>,
    pub ruleset_schemes: Option<Vec<RulesetScheme>>,
    pub transformation_schemes: Option<Vec<TransformationScheme>>,
    pub user_defined_operator_schemes: Option<Vec<UserDefinedOperatorsScheme>>,
    pub other: Extensions,
}

pub open spec fn structure_payload_names() -> Seq<Seq<char>> {
    seq!["dataStructures"@, "metadataStructures"@, "categorySchemas"@, "conceptSchemas"@, "concepts"@, "geographicCodelists"@, "geoGridCodelists"@, "agencySchemes"@, "dataProviderSchemes"@, "dataConsumerSchemes"@, "metadataProviderSchemes"@, "organisationUnitSchemes"@, "dataflows"@, "reportingTaxonomies"@, "categorisations"@, "dataConstraints"@, "metadataConstraints"@, "customTypeSchemes"@, "vtlMappingSchemes"@, "namePersonalisationSchemes"@, "rulesetSchemes"@, "transformationSchemes"@, "userDefinedOperatorSchemes"@]
}

pub open spec fn structure_payload_pairs(x: Data) -> Seq<(Seq<char>, Option<JVal>)> {
    seq![
        ("dataStructures"@, ovec_ser(x.data_structures)),
        ("metadataStructures"@, ovec_ser(x.metadata_structures)),
        ("categorySchemas"@, ovec_ser(x.category_schemas)),
        ("conceptSchemas"@, ovec_ser(x.concept_schemas)),
        ("concepts"@, ovec_ser(x.concepts)),
        ("geographicCodelists"@, ovec_ser(x.geographic_codelists)),
        ("geoGridCodelists"@, ovec_ser(x.geo_grid_codelists)),
        ("agencySchemes"@, ovec_ser(x.agency_schemes)),
        ("dataProviderSchemes"@, ovec_ser(x.data_provider_schemes)),
        ("dataConsumerSchemes"@, ovec_ser(x.data_consumer_schemes)),
        ("metadataProviderSchemes"@, ovec_ser(x.metadata_provider_schemes)),
        ("organisationUnitSchemes"@, ovec_ser(x.organisation_unit_schemes)),
        ("dataflows"@, ovec_ser(x.dataflows)),
        ("reportingTaxonomies"@, ovec_ser(x.reporting_taxonomies)),
        ("categorisations"@, ovec_ser(x.categorisations)),
        ("dataConstraints"@, ovec_ser(x.data_constraints)),
        ("metadataConstraints"@, ovec_ser(x.metadata_constraints)),
        ("customTypeSchemes"@, ovec_ser(x.custom_type_schemes)),
        ("vtlMappingSchemes"@, ovec_ser(x.vtl_mapping_schemes)),
        ("namePersonalisationSchemes"@, ovec_ser(x.name_personalisation_schemes)),
        ("rulesetSchemes"@, ovec_ser(x.ruleset_schemes)),
        ("transformationSchemes"@, ovec_ser(x.transformation_schemes)),
        ("userDefinedOperatorSchemes"@, ovec_ser(x.user_defined_operator_schemes)),
    ]
}

pub open spec fn structure_payload_norm_pairs(fs: Seq<(Seq<char>, JVal)>) -> Seq<(Seq<char>, Option<JVal>)> {
    seq![
        ("dataStructures"@, opt_recarr_norm::<DataStructure>(jv_get(fs, "dataStructures"@))),
        ("metadataStructures"@, opt_recarr_norm::<CommonArtefactType>(jv_get(fs, "metadataStructures"@))),
        ("categorySchemas"@, opt_recarr_norm::<CategoryScheme>(jv_get(fs, "categorySchemas"@))),
        ("conceptSchemas"@, opt_recarr_norm::<ConceptScheme>(jv_get(fs, "conceptSchemas"@))),
        ("concepts"@, opt_recarr_norm::<Codelist>(jv_get(fs, "concepts"@))),
        ("geographicCodelists"@, opt_recarr_norm::<GeographyCodelist>(jv_get(fs, "geographicCodelists"@))),
        ("geoGridCodelists"@, opt_recarr_norm::<GeoGridCodelist>(jv_get(fs, "geoGridCodelists"@))),
        ("agencySchemes"@, opt_recarr_norm::<AgencyScheme>(jv_get(fs, "agencySchemes"@))),
        ("dataProviderSchemes"@, opt_recarr_norm::<DataProviderScheme>(jv_get(fs, "dataProviderSchemes"@))),
        ("dataConsumerSchemes"@, opt_recarr_norm::<DataConsumerScheme>(jv_get(fs, "dataConsumerSchemes"@))),
        ("metadataProviderSchemes"@, opt_recarr_norm::<MetadataProviderScheme>(jv_get(fs, "metadataProviderSchemes"@))),
        ("organisationUnitSchemes"@, opt_recarr_norm::<OrganizationUnitScheme>(jv_get(fs, "organisationUnitSchemes"@))),
        ("dataflows"@, opt_recarr_norm::<Dataflow>(jv_get(fs, "dataflows"@))),
        ("reportingTaxonomies"@, opt_recarr_norm::<ReportingTaxonomy>(jv_get(fs, "reportingTaxonomies"@))),
        ("categorisations"@, opt_recarr_norm::<Categorization>(jv_get(fs, "categorisations"@))),
        ("dataConstraints"@, opt_recarr_norm::<DataConstraint>(jv_get(fs, "dataConstraints"@))),
        ("metadataConstraints"@, opt_recarr_norm::<MetadataConstraint>(jv_get(fs, "metadataConstraints"@))),
        ("customTypeSchemes"@, opt_recarr_norm::<CustomTypeScheme>(jv_get(fs, "customTypeSchemes"@))),
        ("vtlMappingSchemes"@, opt_recarr_norm::<VtlMappingScheme>(jv_get(fs, "vtlMappingSchemes"@))),
        ("namePersonalisationSchemes"@, opt_recarr_norm::<NamePersonalizationScheme>(jv_get(fs, "namePersonalisationSchemes"@))),
        ("rulesetSchemes"@, opt_recarr_norm::<RulesetScheme>(jv_get(fs, "rulesetSchemes"@))),
        ("transformationSchemes"@, opt_recarr_norm::<TransformationScheme>(jv_get(fs, "transformationSchemes"@))),
        ("userDefinedOperatorSchemes"@, opt_recarr_norm::<UserDefinedOperatorsScheme>(jv_get(fs, "userDefinedOperatorSchemes"@))),
    ]
}

/// The names this record knows are pairwise distinct.
pub proof fn lemma_structure_payload_names_distinct()
    ensures
        forall|i: int, j: int|
            0 <= i < j < structure_payload_names().len() ==> structure_payload_names()[i] != structure_payload_names()[j],
{
    reveal_strlit("dataStructures");
    reveal_strlit("metadataStructures");
    reveal_strlit("categorySchemas");
    reveal_strlit("conceptSchemas");
    reveal_strlit("concepts");
    reveal_strlit("geographicCodelists");
    reveal_strlit("geoGridCodelists");
    reveal_strlit("agencySchemes");
    reveal_strlit("dataProviderSchemes");
    reveal_strlit("dataConsumerSchemes");
    reveal_strlit("metadataProviderSchemes");
    reveal_strlit("organisationUnitSchemes");
    reveal_strlit("dataflows");
    reveal_strlit("reportingTaxonomies");
    reveal_strlit("categorisations");
    reveal_strlit("dataConstraints");
    reveal_strlit("metadataConstraints");
    reveal_strlit("customTypeSchemes");
    reveal_strlit("vtlMappingSchemes");
    reveal_strlit("namePersonalisationSchemes");
    reveal_strlit("rulesetSchemes");
    reveal_strlit("transformationSchemes");
    reveal_strlit("userDefinedOperatorSchemes");
    let ns = structure_payload_names();
    assert(ns.len() == 23);
    assert forall|i: int, j: int| 0 <= i < j < ns.len() implies ns[i] != ns[j] by {
        assert("dataStructures"@.len() == 14);
        assert("metadataStructures"@.len() == 18);
        assert("categorySchemas"@.len() == 15);
        assert("conceptSchemas"@.len() == 14);
        assert("concepts"@.len() == 8);
        assert("geographicCodelists"@.len() == 19);
        assert("geoGridCodelists"@.len() == 16);
        assert("agencySchemes"@.len() == 13);
        assert("dataProviderSchemes"@.len() == 19);
        assert("dataConsumerSchemes"@.len() == 19);
        assert("metadataProviderSchemes"@.len() == 23);
        assert("organisationUnitSchemes"@.len() == 23);
        assert("dataflows"@.len() == 9);
        assert("reportingTaxonomies"@.len() == 19);
        assert("categorisations"@.len() == 15);
        assert("dataConstraints"@.len() == 15);
        assert("metadataConstraints"@.len() == 19);
        assert("customTypeSchemes"@.len() == 17);
        assert("vtlMappingSchemes"@.len() == 17);
        assert("namePersonalisationSchemes"@.len() == 26);
        assert("rulesetSchemes"@.len() == 14);
        assert("transformationSchemes"@.len() == 21);
        assert("userDefinedOperatorSchemes"@.len() == 26);
        assert("dataStructures"@[0] == 'd');
        assert("conceptSchemas"@[0] == 'c');
        assert("rulesetSchemes"@[0] == 'r');
        assert("categorySchemas"@[7] == 'y');
        assert("categorisations"@[7] == 'i');
        assert("categorySchemas"@[0] == 'c');
        assert("dataConstraints"@[0] == 'd');
        assert("geographicCodelists"@[0] == 'g');
        assert("dataProviderSchemes"@[0] == 'd');
        assert("dataConsumerSchemes"@[0] == 'd');
        assert("reportingTaxonomies"@[0] == 'r');
        assert("metadataConstraints"@[0] == 'm');
        assert("dataProviderSchemes"@[4] == 'P');
        assert("dataConsumerSchemes"@[4] == 'C');
        assert("metadataProviderSchemes"@[0] == 'm');
        assert("organisationUnitSchemes"@[0] == 'o');
        assert("categorisations"@[0] == 'c');
        assert("customTypeSchemes"@[0] == 'c');
        assert("vtlMappingSchemes"@[0] == 'v');
        assert("namePersonalisationSchemes"@[0] == 'n');
        assert("userDefinedOperatorSchemes"@[0] == 'u');
    }
}


/// The child lists of the first half of the payload survive a round trip.
#[verifier::rlimit(100)]
#[verifier::spinoff_prover]
pub proof fn lemma_structure_payload_children_a(d: &Data)
    requires
        d.wf(),
    ensures
        is_opt_recarr::<DataStructure>(ovec_ser(d.data_structures)),
        opt_recarr_norm::<DataStructure>(ovec_ser(d.data_structures)) == ovec_ser(d.data_structures),
        is_opt_recarr::<CommonArtefactType>(ovec_ser(d.metadata_structures)),
        opt_recarr_norm::<CommonArtefactType>(ovec_ser(d.metadata_structures)) == ovec_ser(d.metadata_structures),
        is_opt_recarr::<CategoryScheme>(ovec_ser(d.category_schemas)),
        opt_recarr_norm::<CategoryScheme>(ovec_ser(d.category_schemas)) == ovec_ser(d.category_schemas),
        is_opt_recarr::<ConceptScheme>(ovec_ser(d.concept_schemas)),
        opt_recarr_norm::<ConceptScheme>(ovec_ser(d.concept_schemas)) == ovec_ser(d.concept_schemas),
        is_opt_recarr::<Codelist>(ovec_ser(d.concepts)),
        opt_recarr_norm::<Codelist>(ovec_ser(d.concepts)) == ovec_ser(d.concepts),
        is_opt_recarr::<GeographyCodelist>(ovec_ser(d.geographic_codelists)),
        opt_recarr_norm::<GeographyCodelist>(ovec_ser(d.geographic_codelists)) == ovec_ser(d.geographic_codelists),
        is_opt_recarr::<GeoGridCodelist>(ovec_ser(d.geo_grid_codelists)),
        opt_recarr_norm::<GeoGridCodelist>(ovec_ser(d.geo_grid_codelists)) == ovec_ser(d.geo_grid_codelists),
        is_opt_recarr::<AgencyScheme>(ovec_ser(d.agency_schemes)),
        opt_recarr_norm::<AgencyScheme>(ovec_ser(d.agency_schemes)) == ovec_ser(d.agency_schemes),
        is_opt_recarr::<DataProviderScheme>(ovec_ser(d.data_provider_schemes)),
        opt_recarr_norm::<DataProviderScheme>(ovec_ser(d.data_provider_schemes)) == ovec_ser(d.data_provider_schemes),
        is_opt_recarr::<DataConsumerScheme>(ovec_ser(d.data_consumer_schemes)),
        opt_recarr_norm::<DataConsumerScheme>(ovec_ser(d.data_consumer_schemes)) == ovec_ser(d.data_consumer_schemes),
        is_opt_recarr::<MetadataProviderScheme>(ovec_ser(d.metadata_provider_schemes)),
        opt_recarr_norm::<MetadataProviderScheme>(ovec_ser(d.metadata_provider_schemes)) == ovec_ser(d.metadata_provider_schemes),
        is_opt_recarr::<OrganizationUnitScheme>(ovec_ser(d.organisation_unit_schemes)),
        opt_recarr_norm::<OrganizationUnitScheme>(ovec_ser(d.organisation_unit_schemes)) == ovec_ser(d.organisation_unit_schemes),
{
        match &d.data_structures {
            Some(v) => {
                lemma_arr_canon::<DataStructure>(v@);
            },
            None => {},
        }
        match &d.metadata_structures {
            Some(v) => {
                lemma_arr_canon::<CommonArtefactType>(v@);
            },
            None => {},
        }
        match &d.category_schemas {
            Some(v) => {
                lemma_arr_canon::<CategoryScheme>(v@);
            },
            None => {},
        }
        match &d.concept_schemas {
            Some(v) => {
                lemma_arr_canon::<ConceptScheme>(v@);
            },
            None => {},
        }
        match &d.concepts {
            Some(v) => {
                lemma_arr_canon::<Codelist>(v@);
            },
            None => {},
        }
        match &d.geographic_codelists {
            Some(v) => {
                lemma_arr_canon::<GeographyCodelist>(v@);
            },
            None => {},
        }
        match &d.geo_grid_codelists {
            Some(v) => {
                lemma_arr_canon::<GeoGridCodelist>(v@);
            },
            None => {},
        }
        match &d.agency_schemes {
            Some(v) => {
                lemma_arr_canon::<AgencyScheme>(v@);
            },
            None => {},
        }
        match &d.data_provider_schemes {
            Some(v) => {
                lemma_arr_canon::<DataProviderScheme>(v@);
            },
            None => {},
        }
        match &d.data_consumer_schemes {
            Some(v) => {
                lemma_arr_canon::<DataConsumerScheme>(v@);
            },
            None => {},
        }
        match &d.metadata_provider_schemes {
            Some(v) => {
                lemma_arr_canon::<MetadataProviderScheme>(v@);
            },
            None => {},
        }
        match &d.organisation_unit_schemes {
            Some(v) => {
                lemma_arr_canon::<OrganizationUnitScheme>(v@);
            },
            None => {},
        }
}

/// The child lists of the second half of the payload survive a round trip.
#[verifier::rlimit(100)]
#[verifier::spinoff_prover]
pub proof fn lemma_structure_payload_children_b(d: &Data)
    requires
        d.wf(),
    ensures
        is_opt_recarr::<Dataflow>(ovec_ser(d.dataflows)),
        opt_recarr_norm::<Dataflow>(ovec_ser(d.dataflows)) == ovec_ser(d.dataflows),
        is_opt_recarr::<ReportingTaxonomy>(ovec_ser(d.reporting_taxonomies)),
        opt_recarr_norm::<ReportingTaxonomy>(ovec_ser(d.reporting_taxonomies)) == ovec_ser(d.reporting_taxonomies),
        is_opt_recarr::<Categorization>(ovec_ser(d.categorisations)),
        opt_recarr_norm::<Categorization>(ovec_ser(d.categorisations)) == ovec_ser(d.categorisations),
        is_opt_recarr::<DataConstraint>(ovec_ser(d.data_constraints)),
        opt_recarr_norm::<DataConstraint>(ovec_ser(d.data_constraints)) == ovec_ser(d.data_constraints),
        is_opt_recarr::<MetadataConstraint>(ovec_ser(d.metadata_constraints)),
        opt_recarr_norm::<MetadataConstraint>(ovec_ser(d.metadata_constraints)) == ovec_ser(d.metadata_constraints),
        is_opt_recarr::<CustomTypeScheme>(ovec_ser(d.custom_type_schemes)),
        opt_recarr_norm::<CustomTypeScheme>(ovec_ser(d.custom_type_schemes)) == ovec_ser(d.custom_type_schemes),
        is_opt_recarr::<VtlMappingScheme>(ovec_ser(d.vtl_mapping_schemes)),
        opt_recarr_norm::<VtlMappingScheme>(ovec_ser(d.vtl_mapping_schemes)) == ovec_ser(d.vtl_mapping_schemes),
        is_opt_recarr::<NamePersonalizationScheme>(ovec_ser(d.name_personalisation_schemes)),
        opt_recarr_norm::<NamePersonalizationScheme>(ovec_ser(d.name_personalisation_schemes)) == ovec_ser(d.name_personalisation_schemes),
        is_opt_recarr::<RulesetScheme>(ovec_ser(d.ruleset_schemes)),
        opt_recarr_norm::<RulesetScheme>(ovec_ser(d.ruleset_schemes)) == ovec_ser(d.ruleset_schemes),
        is_opt_recarr::<TransformationScheme>(ovec_ser(d.transformation_schemes)),
        opt_recarr_norm::<TransformationScheme>(ovec_ser(d.transformation_schemes)) == ovec_ser(d.transformation_schemes),
        is_opt_recarr::<UserDefinedOperatorsScheme>(ovec_ser(d.user_defined_operator_schemes)),
        opt_recarr_norm::<UserDefinedOperatorsScheme>(ovec_ser(d.user_defined_operator_schemes)) == ovec_ser(d.user_defined_operator_schemes),
{
        match &d.dataflows {
            Some(v) => {
                lemma_arr_canon::<Dataflow>(v@);
            },
            None => {},
        }
        match &d.reporting_taxonomies {
            Some(v) => {
                lemma_arr_canon::<ReportingTaxonomy>(v@);
            },
            None => {},
        }
        match &d.categorisations {
            Some(v) => {
                lemma_arr_canon::<Categorization>(v@);
            },
            None => {},
        }
        match &d.data_constraints {
            Some(v) => {
                lemma_arr_canon::<DataConstraint>(v@);
            },
            None => {},
        }
        match &d.metadata_constraints {
            Some(v) => {
                lemma_arr_canon::<MetadataConstraint>(v@);
            },
            None => {},
        }
        match &d.custom_type_schemes {
            Some(v) => {
                lemma_arr_canon::<CustomTypeScheme>(v@);
            },
            None => {},
        }
        match &d.vtl_mapping_schemes {
            Some(v) => {
                lemma_arr_canon::<VtlMappingScheme>(v@);
            },
            None => {},
        }
        match &d.name_personalisation_schemes {
            Some(v) => {
                lemma_arr_canon::<NamePersonalizationScheme>(v@);
            },
            None => {},
        }
        match &d.ruleset_schemes {
            Some(v) => {
                lemma_arr_canon::<RulesetScheme>(v@);
            },
            None => {},
        }
        match &d.transformation_schemes {
            Some(v) => {
                lemma_arr_canon::<TransformationScheme>(v@);
            },
            None => {},
        }
        match &d.user_defined_operator_schemes {
            Some(v) => {
                lemma_arr_canon::<UserDefinedOperatorsScheme>(v@);
            },
            None => {},
        }
}

impl JsonForm for Data {
    open spec fn wf(&self) -> bool {
        &&& ext_ok(self.other.view_fields(), structure_payload_names())
        &&& ovec_wf(self.data_structures)
        &&& ovec_wf(self.metadata_structures)
        &&& ovec_wf(self.category_schemas)
        &&& ovec_wf(self.concept_schemas)
        &&& ovec_wf(self.concepts)
        &&& ovec_wf(self.geographic_codelists)
        &&& ovec_wf(self.geo_grid_codelists)
        &&& ovec_wf(self.agency_schemes)
        &&& ovec_wf(self.data_provider_schemes)
        &&& ovec_wf(self.data_consumer_schemes)
        &&& ovec_wf(self.metadata_provider_schemes)
        &&& ovec_wf(self.organisation_unit_schemes)
        &&& ovec_wf(self.dataflows)
        &&& ovec_wf(self.reporting_taxonomies)
        &&& ovec_wf(self.categorisations)
        &&& ovec_wf(self.data_constraints)
        &&& ovec_wf(self.metadata_constraints)
        &&& ovec_wf(self.custom_type_schemes)
        &&& ovec_wf(self.vtl_mapping_schemes)
        &&& ovec_wf(self.name_personalisation_schemes)
        &&& ovec_wf(self.ruleset_schemes)
        &&& ovec_wf(self.transformation_schemes)
        &&& ovec_wf(self.user_defined_operator_schemes)
    }

    open spec fn ser(&self) -> JVal {
        JVal::Obj(present_fields(structure_payload_pairs(*self)) + self.other.view_fields())
    }

    open spec fn doc_ok(v: JVal) -> bool {
        &&& v is Obj
        &&& {
            let fs = v->Obj_0;
            &&& is_opt_recarr::<DataStructure>(jv_get(fs, "dataStructures"@))
            &&& is_opt_recarr::<CommonArtefactType>(jv_get(fs, "metadataStructures"@))
            &&& is_opt_recarr::<CategoryScheme>(jv_get(fs, "categorySchemas"@))
            &&& is_opt_recarr::<ConceptScheme>(jv_get(fs, "conceptSchemas"@))
            &&& is_opt_recarr::<Codelist>(jv_get(fs, "concepts"@))
            &&& is_opt_recarr::<GeographyCodelist>(jv_get(fs, "geographicCodelists"@))
            &&& is_opt_recarr::<GeoGridCodelist>(jv_get(fs, "geoGridCodelists"@))
            &&& is_opt_recarr::<AgencyScheme>(jv_get(fs, "agencySchemes"@))
            &&& is_opt_recarr::<DataProviderScheme>(jv_get(fs, "dataProviderSchemes"@))
            &&& is_opt_recarr::<DataConsumerScheme>(jv_get(fs, "dataConsumerSchemes"@))
            &&& is_opt_recarr::<MetadataProviderScheme>(jv_get(fs, "metadataProviderSchemes"@))
            &&& is_opt_recarr::<OrganizationUnitScheme>(jv_get(fs, "organisationUnitSchemes"@))
            &&& is_opt_recarr::<Dataflow>(jv_get(fs, "dataflows"@))
            &&& is_opt_recarr::<ReportingTaxonomy>(jv_get(fs, "reportingTaxonomies"@))
            &&& is_opt_recarr::<Categorization>(jv_get(fs, "categorisations"@))
            &&& is_opt_recarr::<DataConstraint>(jv_get(fs, "dataConstraints"@))
            &&& is_opt_recarr::<MetadataConstraint>(jv_get(fs, "metadataConstraints"@))
            &&& is_opt_recarr::<CustomTypeScheme>(jv_get(fs, "customTypeSchemes"@))
            &&& is_opt_recarr::<VtlMappingScheme>(jv_get(fs, "vtlMappingSchemes"@))
            &&& is_opt_recarr::<NamePersonalizationScheme>(jv_get(fs, "namePersonalisationSchemes"@))
            &&& is_opt_recarr::<RulesetScheme>(jv_get(fs, "rulesetSchemes"@))
            &&& is_opt_recarr::<TransformationScheme>(jv_get(fs, "transformationSchemes"@))
            &&& is_opt_recarr::<UserDefinedOperatorsScheme>(jv_get(fs, "userDefinedOperatorSchemes"@))
        }
    }

    open spec fn doc_norm(v: JVal) -> JVal {
        JVal::Obj(
            present_fields(structure_payload_norm_pairs(v->Obj_0)) + ext_fields(v->Obj_0, structure_payload_names()),
        )
    }

    #[verifier::rlimit(50)]
    fn from_json(v: JsonValue) -> (r: Result<Self, ParseError>) {
        let o = match v {
            JsonValue::Obj(o) => o,
            _ => { return Err(ParseError::NotObject) },
        };
        let ghost fs = jview_field_vec(o);
        let mut bag = FieldBag::new(o);
        proof {
            lemma_structure_payload_names_distinct();
        }
        proof {
            assert(bag.taken() =~= structure_payload_names().subrange(0, 0));
            crate::codec::lemma_take_fresh(structure_payload_names(), 0, bag.taken());
        }
        let data_structures = match parse_opt_vec::<DataStructure>(bag.take("dataStructures"), "dataStructures") {
            Ok(x) => x,
            Err(e) => { return Err(e) },
        };
        proof {
            assert(bag.taken() =~= structure_payload_names().subrange(0, 1));
            crate::codec::lemma_take_fresh(structure_payload_names(), 1, bag.taken());
        }
        let metadata_structures = match parse_opt_vec::<CommonArtefactType>(bag.take("metadataStructures"), "metadataStructures") {
            Ok(x) => x,
            Err(e) => { return Err(e) },
        };
        proof {
            assert(bag.taken() =~= structure_payload_names().subrange(0, 2));
            crate::codec::lemma_take_fresh(structure_payload_names(), 2, bag.taken());
        }
        let category_schemas = match parse_opt_vec::<CategoryScheme>(bag.take("categorySchemas"), "categorySchemas") {
            Ok(x) => x,
            Err(e) => { return Err(e) },
        };
        proof {
            assert(bag.taken() =~= structure_payload_names().subrange(0, 3));
            crate::codec::lemma_take_fresh(structure_payload_names(), 3, bag.taken());
        }
        let concept_schemas = match parse_opt_vec::<ConceptScheme>(bag.take("conceptSchemas"), "conceptSchemas") {
            Ok(x) => x,
            Err(e) => { return Err(e) },
        };
        proof {
            assert(bag.taken() =~= structure_payload_names().subrange(0, 4));
            crate::codec::lemma_take_fresh(structure_payload_names(), 4, bag.taken());
        }
        let concepts = match parse_opt_vec::<Codelist>(bag.take("concepts"), "concepts") {
            Ok(x) => x,
            Err(e) => { return Err(e) },
        };
        proof {
            assert(bag.taken() =~= structure_payload_names().subrange(0, 5));
            crate::codec::lemma_take_fresh(structure_payload_names(), 5, bag.taken());
        }
        let geographic_codelists = match parse_opt_vec::<GeographyCodelist>(bag.take("geographicCodelists"), "geographicCodelists") {
            Ok(x) => x,
            Err(e) => { return Err(e) },
        };
        proof {
            assert(bag.taken() =~= structure_payload_names().subrange(0, 6));
            crate::codec::lemma_take_fresh(structure_payload_names(), 6, bag.taken());
        }
        let geo_grid_codelists = match parse_opt_vec::<GeoGridCodelist>(bag.take("geoGridCodelists"), "geoGridCodelists") {
            Ok(x) => x,
            Err(e) => { return Err(e) },
        };
        proof {
            assert(bag.taken() =~= structure_payload_names().subrange(0, 7));
            crate::codec::lemma_take_fresh(structure_payload_names(), 7, bag.taken());
        }
        let agency_schemes = match parse_opt_vec::<AgencyScheme>(bag.take("agencySchemes"), "agencySchemes") {
            Ok(x) => x,
            Err(e) => { return Err(e) },
        };
        proof {
            assert(bag.taken() =~= structure_payload_names().subrange(0, 8));
            crate::codec::lemma_take_fresh(structure_payload_names(), 8, bag.taken());
        }
        let data_provider_schemes = match parse_opt_vec::<DataProviderScheme>(bag.take("dataProviderSchemes"), "dataProviderSchemes") {
            Ok(x) => x,
            Err(e) => { return Err(e) },
        };
        proof {
            assert(bag.taken() =~= structure_payload_names().subrange(0, 9));
            crate::codec::lemma_take_fresh(structure_payload_names(), 9, bag.taken());
        }
        let data_consumer_schemes = match parse_opt_vec::<DataConsumerScheme>(bag.take("dataConsumerSchemes"), "dataConsumerSchemes") {
            Ok(x) => x,
            Err(e) => { return Err(e) },
        };
        proof {
            assert(bag.taken() =~= structure_payload_names().subrange(0, 10));
            crate::codec::lemma_take_fresh(structure_payload_names(), 10, bag.taken());
        }
        let metadata_provider_schemes = match parse_opt_vec::<MetadataProviderScheme>(bag.take("metadataProviderSchemes"), "metadataProviderSchemes") {
            Ok(x) => x,
            Err(e) => { return Err(e) },
        };
        proof {
            assert(bag.taken() =~= structure_payload_names().subrange(0, 11));
            crate::codec::lemma_take_fresh(structure_payload_names(), 11, bag.taken());
        }
        let organisation_unit_schemes = match parse_opt_vec::<OrganizationUnitScheme>(bag.take("organisationUnitSchemes"), "organisationUnitSchemes") {
            Ok(x) => x,
            Err(e) => { return Err(e) },
        };
        proof {
            assert(bag.taken() =~= structure_payload_names().subrange(0, 12));
            crate::codec::lemma_take_fresh(structure_payload_names(), 12, bag.taken());
        }
        let dataflows = match parse_opt_vec::<Dataflow>(bag.take("dataflows"), "dataflows") {
            Ok(x) => x,
            Err(e) => { return Err(e) },
        };
        proof {
            assert(bag.taken() =~= structure_payload_names().subrange(0, 13));
            crate::codec::lemma_take_fresh(structure_payload_names(), 13, bag.taken());
        }
        let reporting_taxonomies = match parse_opt_vec::<ReportingTaxonomy>(bag.take("reportingTaxonomies"), "reportingTaxonomies") {
            Ok(x) => x,
            Err(e) => { return Err(e) },
        };
        proof {
            assert(bag.taken() =~= structure_payload_names().subrange(0, 14));
            crate::codec::lemma_take_fresh(structure_payload_names(), 14, bag.taken());
        }
        let categorisations = match parse_opt_vec::<Categorization>(bag.take("categorisations"), "categorisations") {
            Ok(x) => x,
            Err(e) => { return Err(e) },
        };
        proof {
            assert(bag.taken() =~= structure_payload_names().subrange(0, 15));
            crate::codec::lemma_take_fresh(structure_payload_names(), 15, bag.taken());
        }
        let data_constraints = match parse_opt_vec::<DataConstraint>(bag.take("dataConstraints"), "dataConstraints") {
            Ok(x) => x,
            Err(e) => { return Err(e) },
        };
        proof {
            assert(bag.taken() =~= structure_payload_names().subrange(0, 16));
            crate::codec::lemma_take_fresh(structure_payload_names(), 16, bag.taken());
        }
        let metadata_constraints = match parse_opt_vec::<MetadataConstraint>(bag.take("metadataConstraints"), "metadataConstraints") {
            Ok(x) => x,
            Err(e) => { return Err(e) },
        };
        proof {
            assert(bag.taken() =~= structure_payload_names().subrange(0, 17));
            crate::codec::lemma_take_fresh(structure_payload_names(), 17, bag.taken());
        }
        let custom_type_schemes = match parse_opt_vec::<CustomTypeScheme>(bag.take("customTypeSchemes"), "customTypeSchemes") {
            Ok(x) => x,
            Err(e) => { return Err(e) },
        };
        proof {
            assert(bag.taken() =~= structure_payload_names().subrange(0, 18));
            crate::codec::lemma_take_fresh(structure_payload_names(), 18, bag.taken());
        }
        let vtl_mapping_schemes = match parse_opt_vec::<VtlMappingScheme>(bag.take("vtlMappingSchemes"), "vtlMappingSchemes") {
            Ok(x) => x,
            Err(e) => { return Err(e) },
        };
        proof {
            assert(bag.taken() =~= structure_payload_names().subrange(0, 19));
            crate::codec::lemma_take_fresh(structure_payload_names(), 19, bag.taken());
        }
        let name_personalisation_schemes = match parse_opt_vec::<NamePersonalizationScheme>(bag.take("namePersonalisationSchemes"), "namePersonalisationSchemes") {
            Ok(x) => x,
            Err(e) => { return Err(e) },
        };
        proof {
            assert(bag.taken() =~= structure_payload_names().subrange(0, 20));
            crate::codec::lemma_take_fresh(structure_payload_names(), 20, bag.taken());
        }
        let ruleset_schemes = match parse_opt_vec::<RulesetScheme>(bag.take("rulesetSchemes"), "rulesetSchemes") {
            Ok(x) => x,
            Err(e) => { return Err(e) },
        };
        proof {
            assert(bag.taken() =~= structure_payload_names().subrange(0, 21));
            crate::codec::lemma_take_fresh(structure_payload_names(), 21, bag.taken());
        }
        let transformation_schemes = match parse_opt_vec::<TransformationScheme>(bag.take("transformationSchemes"), "transformationSchemes") {
            Ok(x) => x,
            Err(e) => { return Err(e) },
        };
        proof {
            assert(bag.taken() =~= structure_payload_names().subrange(0, 22));
            crate::codec::lemma_take_fresh(structure_payload_names(), 22, bag.taken());
        }
        let user_defined_operator_schemes = match parse_opt_vec::<UserDefinedOperatorsScheme>(bag.take("userDefinedOperatorSchemes"), "userDefinedOperatorSchemes") {
            Ok(x) => x,
            Err(e) => { return Err(e) },
        };
        let ghost tk = bag.taken();
        let other = bag.rest();
        let out = Data { data_structures, metadata_structures, category_schemas, concept_schemas, concepts, geographic_codelists, geo_grid_codelists, agency_schemes, data_provider_schemes, data_consumer_schemes, metadata_provider_schemes, organisation_unit_schemes, dataflows, reporting_taxonomies, categorisations, data_constraints, metadata_constraints, custom_type_schemes, vtl_mapping_schemes, name_personalisation_schemes, ruleset_schemes, transformation_schemes, user_defined_operator_schemes, other };
        proof {
            assert(tk =~= structure_payload_names());
            crate::codec::lemma_ext_fields_names(fs, tk);
            assert(structure_payload_pairs(out) =~= structure_payload_norm_pairs(fs));
        }
        Ok(out)
    }

    fn to_json(&self) -> (r: JsonValue) {
        let mut b = ObjBuilder::new();
        put_opt_vec(&mut b, "dataStructures", &self.data_structures);
        put_opt_vec(&mut b, "metadataStructures", &self.metadata_structures);
        put_opt_vec(&mut b, "categorySchemas", &self.category_schemas);
        put_opt_vec(&mut b, "conceptSchemas", &self.concept_schemas);
        put_opt_vec(&mut b, "concepts", &self.concepts);
        put_opt_vec(&mut b, "geographicCodelists", &self.geographic_codelists);
        put_opt_vec(&mut b, "geoGridCodelists", &self.geo_grid_codelists);
        put_opt_vec(&mut b, "agencySchemes", &self.agency_schemes);
        put_opt_vec(&mut b, "dataProviderSchemes", &self.data_provider_schemes);
        put_opt_vec(&mut b, "dataConsumerSchemes", &self.data_consumer_schemes);
        put_opt_vec(&mut b, "metadataProviderSchemes", &self.metadata_provider_schemes);
        put_opt_vec(&mut b, "organisationUnitSchemes", &self.organisation_unit_schemes);
        put_opt_vec(&mut b, "dataflows", &self.dataflows);
        put_opt_vec(&mut b, "reportingTaxonomies", &self.reporting_taxonomies);
        put_opt_vec(&mut b, "categorisations", &self.categorisations);
        put_opt_vec(&mut b, "dataConstraints", &self.data_constraints);
        put_opt_vec(&mut b, "metadataConstraints", &self.metadata_constraints);
        put_opt_vec(&mut b, "customTypeSchemes", &self.custom_type_schemes);
        put_opt_vec(&mut b, "vtlMappingSchemes", &self.vtl_mapping_schemes);
        put_opt_vec(&mut b, "namePersonalisationSchemes", &self.name_personalisation_schemes);
        put_opt_vec(&mut b, "rulesetSchemes", &self.ruleset_schemes);
        put_opt_vec(&mut b, "transformationSchemes", &self.transformation_schemes);
        put_opt_vec(&mut b, "userDefinedOperatorSchemes", &self.user_defined_operator_schemes);
        proof {
            let ps = structure_payload_pairs(*self);
            lemma_pairs_chain(ps, 23);
            assert(ps.subrange(0, 23) =~= ps);
            assert(b.view_fields() == present_fields(ps)) by {
                reveal_with_fuel(pairs_prefix_chunks, 24);
            }
        }
        finish_with_ext(b, &self.other)
    }

    #[verifier::rlimit(100)]
    #[verifier::spinoff_prover]
    proof fn lemma_canon(&self) {
        lemma_structure_payload_names_distinct();
        let ps = structure_payload_pairs(*self);
        let ext = self.other.view_fields();
        assert(names_of(ps) =~= structure_payload_names());
        crate::codec::lemma_distinct_from_names(ps, structure_payload_names());
        crate::codec::lemma_disjoint_from_ext(ext, ps, structure_payload_names());
        lemma_jv_get_present(ps, ext);
        lemma_ext_of_present(ps, ext);
        lemma_structure_payload_children_a(self);
        lemma_structure_payload_children_b(self);
        let fs = self.ser()->Obj_0;
        assert(jv_get(fs, "dataStructures"@) == ps[0].1);
        assert(jv_get(fs, "metadataStructures"@) == ps[1].1);
        assert(jv_get(fs, "categorySchemas"@) == ps[2].1);
        assert(jv_get(fs, "conceptSchemas"@) == ps[3].1);
        assert(jv_get(fs, "concepts"@) == ps[4].1);
        assert(jv_get(fs, "geographicCodelists"@) == ps[5].1);
        assert(jv_get(fs, "geoGridCodelists"@) == ps[6].1);
        assert(jv_get(fs, "agencySchemes"@) == ps[7].1);
        assert(jv_get(fs, "dataProviderSchemes"@) == ps[8].1);
        assert(jv_get(fs, "dataConsumerSchemes"@) == ps[9].1);
        assert(jv_get(fs, "metadataProviderSchemes"@) == ps[10].1);
        assert(jv_get(fs, "organisationUnitSchemes"@) == ps[11].1);
        assert(jv_get(fs, "dataflows"@) == ps[12].1);
        assert(jv_get(fs, "reportingTaxonomies"@) == ps[13].1);
        assert(jv_get(fs, "categorisations"@) == ps[14].1);
        assert(jv_get(fs, "dataConstraints"@) == ps[15].1);
        assert(jv_get(fs, "metadataConstraints"@) == ps[16].1);
        assert(jv_get(fs, "customTypeSchemes"@) == ps[17].1);
        assert(jv_get(fs, "vtlMappingSchemes"@) == ps[18].1);
        assert(jv_get(fs, "namePersonalisationSchemes"@) == ps[19].1);
        assert(jv_get(fs, "rulesetSchemes"@) == ps[20].1);
        assert(jv_get(fs, "transformationSchemes"@) == ps[21].1);
        assert(jv_get(fs, "userDefinedOperatorSchemes"@) == ps[22].1);
        assert(Self::doc_ok(self.ser()));
        assert(structure_payload_norm_pairs(fs)[0] == ps[0]);
        assert(structure_payload_norm_pairs(fs)[1] == ps[1]);
        assert(structure_payload_norm_pairs(fs)[2] == ps[2]);
        assert(structure_payload_norm_pairs(fs)[3] == ps[3]);
        assert(structure_payload_norm_pairs(fs)[4] == ps[4]);
        assert(structure_payload_norm_pairs(fs)[5] == ps[5]);
        assert(structure_payload_norm_pairs(fs)[6] == ps[6]);
        assert(structure_payload_norm_pairs(fs)[7] == ps[7]);
        assert(structure_payload_norm_pairs(fs)[8] == ps[8]);
        assert(structure_payload_norm_pairs(fs)[9] == ps[9]);
        assert(structure_payload_norm_pairs(fs)[10] == ps[10]);
        assert(structure_payload_norm_pairs(fs)[11] == ps[11]);
        assert(structure_payload_norm_pairs(fs)[12] == ps[12]);
        assert(structure_payload_norm_pairs(fs)[13] == ps[13]);
        assert(structure_payload_norm_pairs(fs)[14] == ps[14]);
        assert(structure_payload_norm_pairs(fs)[15] == ps[15]);
        assert(structure_payload_norm_pairs(fs)[16] == ps[16]);
        assert(structure_payload_norm_pairs(fs)[17] == ps[17]);
        assert(structure_payload_norm_pairs(fs)[18] == ps[18]);
        assert(structure_payload_norm_pairs(fs)[19] == ps[19]);
        assert(structure_payload_norm_pairs(fs)[20] == ps[20]);
        assert(structure_payload_norm_pairs(fs)[21] == ps[21]);
        assert(structure_payload_norm_pairs(fs)[22] == ps[22]);
        assert(structure_payload_norm_pairs(fs) =~= ps);
        assert(ext_fields(fs, names_of(ps)) == ext);
        assert(ext_fields(fs, structure_payload_names()) == ext);
    }
}

/// The top-level shape of a structure message document.  The header is
/// required: a structure message always carries one.
#[derive(Debug, PartialEq)]
pub struct StructureMessage {
    pub meta: MetaSingleReceiver,
    pub data: Option<Data>,
    pub errors: Option<Vec<StatusMessage>>,
    pub other: Extensions,
}

pub open spec fn structure_message_names() -> Seq<Seq<char>> {
    seq!["meta"@, "data"@, "errors"@]
}

pub open spec fn structure_message_pairs(x: StructureMessage) -> Seq<(Seq<char>, Option<JVal>)> {
    seq![
        ("meta"@, Some(x.meta.ser())),
        ("data"@, orec_ser(x.data)),
        ("errors"@, ovec_ser(x.errors)),
    ]
}

pub open spec fn structure_message_norm_pairs(fs: Seq<(Seq<char>, JVal)>) -> Seq<(Seq<char>, Option<JVal>)> {
    seq![
        ("meta"@, req_rec_norm::<MetaSingleReceiver>(jv_get(fs, "meta"@))),
        ("data"@, opt_rec_norm::<Data>(jv_get(fs, "data"@))),
        ("errors"@, opt_recarr_norm::<StatusMessage>(jv_get(fs, "errors"@))),
    ]
}

/// The names this record knows are pairwise distinct.
pub proof fn lemma_structure_message_names_distinct()
    ensures
        forall|i: int, j: int|
            0 <= i < j < structure_message_names().len() ==> structure_message_names()[i] != structure_message_names()[j],
{
    reveal_strlit("meta");
    reveal_strlit("data");
    reveal_strlit("errors");
    let ns = structure_message_names();
    assert(ns.len() == 3);
    assert forall|i: int, j: int| 0 <= i < j < ns.len() implies ns[i] != ns[j] by {
        assert("meta"@.len() == 4);
        assert("data"@.len() == 4);
        assert("errors"@.len() == 6);
        assert("meta"@[0] == 'm');
        assert("data"@[0] == 'd');
    }
}

impl JsonForm for StructureMessage {
    open spec fn wf(&self) -> bool {
        &&& ext_ok(self.other.view_fields(), structure_message_names())
        &&& self.meta.wf()
        &&& orec_wf(self.data)
        &&& ovec_wf(self.errors)
    }

    open spec fn ser(&self) -> JVal {
        JVal::Obj(present_fields(structure_message_pairs(*self)) + self.other.view_fields())
    }

    open spec fn doc_ok(v: JVal) -> bool {
        &&& v is Obj
        &&& {
            let fs = v->Obj_0;
            &&& is_req_rec::<MetaSingleReceiver>(jv_get(fs, "meta"@))
            &&& is_opt_rec::<Data>(jv_get(fs, "data"@))
            &&& is_opt_recarr::<StatusMessage>(jv_get(fs, "errors"@))
        }
    }

    open spec fn doc_norm(v: JVal) -> JVal {
        JVal::Obj(
            present_fields(structure_message_norm_pairs(v->Obj_0)) + ext_fields(v->Obj_0, structure_message_names()),
        )
    }

    #[verifier::rlimit(50)]
    fn from_json(v: JsonValue) -> (r: Result<Self, ParseError>) {
        let o = match v {
            JsonValue::Obj(o) => o,
            _ => { return Err(ParseError::NotObject) },
        };
        let ghost fs = jview_field_vec(o);
        let mut bag = FieldBag::new(o);
        proof {
            lemma_structure_message_names_distinct();
        }
        proof {
            assert(bag.taken() =~= structure_message_names().subrange(0, 0));
            crate::codec::lemma_take_fresh(structure_message_names(), 0, bag.taken());
        }
        let meta = match parse_req::<MetaSingleReceiver>(bag.take("meta"), "meta") {
            Ok(x) => x,
            Err(e) => { return Err(e) },
        };
        proof {
            assert(bag.taken() =~= structure_message_names().subrange(0, 1));
            crate::codec::lemma_take_fresh(structure_message_names(), 1, bag.taken());
        }
        let data = match parse_opt::<Data>(bag.take("data")) {
            Ok(x) => x,
            Err(e) => { return Err(e) },
        };
        proof {
            assert(bag.taken() =~= structure_message_names().subrange(0, 2));
            crate::codec::lemma_take_fresh(structure_message_names(), 2, bag.taken());
        }
        let errors = match parse_opt_vec::<StatusMessage>(bag.take("errors"), "errors") {
            Ok(x) => x,
            Err(e) => { return Err(e) },
        };
        let ghost tk = bag.taken();
        let other = bag.rest();
        let out = StructureMessage { meta, data, errors, other };
        proof {
            assert(tk =~= structure_message_names());
            crate::codec::lemma_ext_fields_names(fs, tk);
            assert(structure_message_pairs(out) =~= structure_message_norm_pairs(fs));
        }
        Ok(out)
    }

    fn to_json(&self) -> (r: JsonValue) {
        let mut b = ObjBuilder::new();
        put_rec(&mut b, "meta", &self.meta);
        put_opt_rec(&mut b, "data", &self.data);
        put_opt_vec(&mut b, "errors", &self.errors);
        proof {
            let ps = structure_message_pairs(*self);
            lemma_pairs_chain(ps, 3);
            assert(ps.subrange(0, 3) =~= ps);
            assert(b.view_fields() == present_fields(ps)) by {
                reveal_with_fuel(pairs_prefix_chunks, 4);
            }
        }
        finish_with_ext(b, &self.other)
    }

    #[verifier::rlimit(50)]
    #[verifier::spinoff_prover]
    proof fn lemma_canon(&self) {
        lemma_structure_message_names_distinct();
        let ps = structure_message_pairs(*self);
        let ext = self.other.view_fields();
        assert(names_of(ps) =~= structure_message_names());
        assert(distinct_names(ps)) by {
            assert forall|i: int, j: int|
                0 <= i < j < ps.len() implies ps[i].0 != ps[j].0 by {
                assert(ps[i].0 == structure_message_names()[i]);
                assert(ps[j].0 == structure_message_names()[j]);
            }
        }
        assert(disjoint_from(ext, ps)) by {
            assert forall|i: int, j: int|
                0 <= i < ext.len() && 0 <= j < ps.len() implies ext[i].0 != ps[j].0 by {
                assert(!is_known_name(ext[i].0, structure_message_names()));
                assert(structure_message_names()[j] == ps[j].0);
            }
        }
        lemma_jv_get_present(ps, ext);
        lemma_ext_of_present(ps, ext);
        let fs = self.ser()->Obj_0;
        assert(jv_get(fs, "meta"@) == ps[0].1);
        assert(jv_get(fs, "data"@) == ps[1].1);
        assert(jv_get(fs, "errors"@) == ps[2].1);
        self.meta.lemma_canon();
        match self.data {
            Some(t) => {
                t.lemma_canon();
            },
            None => {},
        }
        match &self.errors {
            Some(v) => {
                lemma_arr_canon::<StatusMessage>(v@);
            },
            None => {},
        }
        assert(Self::doc_ok(self.ser()));
        assert(structure_message_norm_pairs(fs)[0] == ps[0]);
        assert(structure_message_norm_pairs(fs)[1] == ps[1]);
        assert(structure_message_norm_pairs(fs)[2] == ps[2]);
        assert(structure_message_norm_pairs(fs) =~= ps);
        assert(ext_fields(fs, names_of(ps)) == ext);
        assert(ext_fields(fs, structure_message_names()) == ext);
    }
}

impl crate::primitives::SdmxMessage for StructureMessage {
    type Header = MetaSingleReceiver;

    type Payload = Data;

    open spec fn meta_spec(&self) -> Option<MetaSingleReceiver> {
        Some(self.meta)
    }

    open spec fn data_spec(&self) -> Option<Data> {
        self.data
    }

    open spec fn errors_spec(&self) -> Option<Seq<StatusMessage>> {
        match self.errors {
            Some(v) => Some(v@),
            None => None,
        }
    }

    fn meta(&self) -> (r: Option<&MetaSingleReceiver>) {
        Some(&self.meta)
    }

    fn data(&self) -> (r: Option<&Data>) {
        self.data.as_ref()
    }

    fn errors(&self) -> (r: Option<&Vec<StatusMessage>>) {
        self.errors.as_ref()
    }
}

/// One artefact of any kind: the closed union used where a message holds a
/// heterogeneous collection.  Each variant is boxed so the union stays small.
#[derive(Debug, PartialEq)]
pub enum ArtefactType {
    DataStructures(Box<DataStructure>),
    MetadataStructures(Box<CommonArtefactType>),
    CategorySchemes(Box<CategoryScheme>),
    ConceptSchemes(Box<ConceptScheme>),
    Codelists(Box<Codelist>),
    GeographicCodelists(Box<GeographyCodelist>),
    GeoGridCodelists(Box<GeoGridCodelist>),
    ValueLists(Box<CommonArtefactType>),
    Hierarchies(Box<CommonArtefactType>),
    HierarchyAssociations(Box<CommonArtefactType>),
    AgencySchemes(Box<AgencyScheme>),
    DataProviderSchemes(Box<DataProviderScheme>),
    DataConsumerSchemes(Box<DataConsumerScheme>),
    MetadataProviderSchemes(Box<MetadataProviderScheme>),
    OrganisationUnitSchemes(Box<OrganizationUnitScheme>),
    Dataflows(Box<Dataflow>),
    Metadataflows(Box<CommonArtefactType>),
    ReportingTaxonomies(Box<ReportingTaxonomy>),
    ProvisionAgreements(Box<CommonArtefactType>),
    MetadataProvisionAgreements(Box<CommonArtefactType>),
    StructureMaps(Box<CommonArtefactType>),
    RepresentationMaps(Box<CommonArtefactType>),
    ConceptSchemeMaps(Box<CommonArtefactType>),
    CategorySchemeMaps(Box<CommonArtefactType>),
    OrganisationSchemeMaps(Box<CommonArtefactType>),
    ReportingTaxonomyMaps(Box<CommonArtefactType>),
    Processes(Box<CommonArtefactType>),
    Categorisations(Box<Categorization>),
    DataConstraints(Box<DataConstraint>),
    MetadataConstraints(Box<MetadataConstraint>),
    CustomTypeSchemes(Box<CustomTypeScheme>),
    VtlMappingSchemes(Box<VtlMappingScheme>),
    NamePersonalisationSchemes(Box<NamePersonalizationScheme>),
    RulesetSchemes(Box<RulesetScheme>),
    TransformationSchemes(Box<TransformationScheme>),
    UserDefinedOperatorSchemes(Box<UserDefinedOperatorsScheme>),
}

} // verus!
