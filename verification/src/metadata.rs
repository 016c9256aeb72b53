//! The metadata message: reported metadata sets whose attributes nest.

use vstd::prelude::*;

use crate::codec::{
    JsonForm, chunk, disjoint_from, distinct_names, ext_ok, finish_with_ext, is_opt_rec,
    is_opt_recarr, is_req_rec, is_req_recarr, lemma_arr_canon, lemma_ext_of_present,
    lemma_jv_get_present, names_of, opt_rec_norm, opt_recarr_norm, orec_ser, orec_wf, ovec_ser,
    ovec_wf, parse_opt, parse_opt_vec, parse_req, parse_req_vec, present_fields, put_opt_bool,
    put_opt_isize, put_opt_rec, put_opt_str, put_opt_usize, put_opt_vec, put_rec, put_str,
    put_vec, req_rec_norm, seq_ser, seq_wf, vec_ser,
};
use crate::fields::{
    Extensions, FieldBag, ObjBuilder, ParseError, get_opt_arr, get_opt_bool, get_opt_isize,
    get_opt_string, get_opt_usize, get_req_bool, get_req_string, get_req_usize,
};
use crate::json::{
    JVal, JsonValue, ext_fields, is_known_name, is_opt_arr, is_opt_bool, is_opt_isize, is_opt_str,
    is_opt_usize, is_req_bool, is_req_str, is_req_usize, jv_get, jv_of_obool, jv_of_oint,
    jv_of_ostr, jview, jview_field_vec, jview_seq, lemma_jv_get_member, oisize_view, opt_arr,
    opt_bool, opt_int, opt_str, ostr_view, ousize_view,
};
use crate::primitives::{
    Action, Annotation, DataType, Link, LocalizedText, Meta, NumberOrString, SdmxValue,
    StatusMessage, lemma_pairs_chain, pairs_prefix_chunks, sv_ok, sv_ser,
};

verus! {


/// The representation of a reported metadata attribute.
#[derive(Debug, PartialEq)]
pub struct Format {
    pub data_type: Option<DataType>,
    pub is_sequence: Option<bool>,
    pub interval: Option<isize>,
    pub start_time: Option<String>,
    pub end_time: Option<String>,
    pub min_length: Option<usize>,
    pub max_length: Option<usize>,
    pub min_value: Option<isize>,
    pub max_value: Option<isize>,
    pub decimals: Option<usize>,
    pub is_multilingual: Option<bool>,
    pub sentinel_values: Option<Vec<NumberOrString>>,
    pub other: Extensions,
}

pub open spec fn md_format_names() -> Seq<Seq<char>> {
    seq!["dataType"@, "isSequence"@, "interval"@, "startTime"@, "endTime"@, "minLength"@, "maxLength"@, "minValue"@, "maxValue"@, "decimals"@, "isMultilingual"@, "sentinelValues"@]
}

pub open spec fn md_format_pairs(x: Format) -> Seq<(Seq<char>, Option<JVal>)> {
    seq![
        ("dataType"@, orec_ser(x.data_type)),
        ("isSequence"@, jv_of_obool(x.is_sequence)),
        ("interval"@, jv_of_oint(oisize_view(x.interval))),
        ("startTime"@, jv_of_ostr(ostr_view(x.start_time))),
        ("endTime"@, jv_of_ostr(ostr_view(x.end_time))),
        ("minLength"@, jv_of_oint(ousize_view(x.min_length))),
        ("maxLength"@, jv_of_oint(ousize_view(x.max_length))),
        ("minValue"@, jv_of_oint(oisize_view(x.min_value))),
        ("maxValue"@, jv_of_oint(oisize_view(x.max_value))),
        ("decimals"@, jv_of_oint(ousize_view(x.decimals))),
        ("isMultilingual"@, jv_of_obool(x.is_multilingual)),
        ("sentinelValues"@, ovec_ser(x.sentinel_values)),
    ]
}

pub open spec fn md_format_norm_pairs(fs: Seq<(Seq<char>, JVal)>) -> Seq<(Seq<char>, Option<JVal>)> {
    seq![
        ("dataType"@, opt_rec_norm::<DataType>(jv_get(fs, "dataType"@))),
        ("isSequence"@, jv_of_obool(opt_bool(jv_get(fs, "isSequence"@)))),
        ("interval"@, jv_of_oint(opt_int(jv_get(fs, "interval"@)))),
        ("startTime"@, jv_of_ostr(opt_str(jv_get(fs, "startTime"@)))),
        ("endTime"@, jv_of_ostr(opt_str(jv_get(fs, "endTime"@)))),
        ("minLength"@, jv_of_oint(opt_int(jv_get(fs, "minLength"@)))),
        ("maxLength"@, jv_of_oint(opt_int(jv_get(fs, "maxLength"@)))),
        ("minValue"@, jv_of_oint(opt_int(jv_get(fs, "minValue"@)))),
        ("maxValue"@, jv_of_oint(opt_int(jv_get(fs, "maxValue"@)))),
        ("decimals"@, jv_of_oint(opt_int(jv_get(fs, "decimals"@)))),
        ("isMultilingual"@, jv_of_obool(opt_bool(jv_get(fs, "isMultilingual"@)))),
        ("sentinelValues"@, opt_recarr_norm::<NumberOrString>(jv_get(fs, "sentinelValues"@))),
    ]
}

/// The names this record knows are pairwise distinct.
pub proof fn lemma_md_format_names_distinct()
    ensures
        forall|i: int, j: int|
            0 <= i < j < md_format_names().len() ==> md_format_names()[i] != md_format_names()[j],
{
    reveal_strlit("dataType");
    reveal_strlit("isSequence");
    reveal_strlit("interval");
    reveal_strlit("startTime");
    reveal_strlit("endTime");
    reveal_strlit("minLength");
    reveal_strlit("maxLength");
    reveal_strlit("minValue");
    reveal_strlit("maxValue");
    reveal_strlit("decimals");
    reveal_strlit("isMultilingual");
    reveal_strlit("sentinelValues");
    let ns = md_format_names();
    assert(ns.len() == 12);
    assert forall|i: int, j: int| 0 <= i < j < ns.len() implies ns[i] != ns[j] by {
        assert("dataType"@.len() == 8);
        assert("isSequence"@.len() == 10);
        assert("interval"@.len() == 8);
        assert("startTime"@.len() == 9);
        assert("endTime"@.len() == 7);
        assert("minLength"@.len() == 9);
        assert("maxLength"@.len() == 9);
        assert("minValue"@.len() == 8);
        assert("maxValue"@.len() == 8);
        assert("decimals"@.len() == 8);
        assert("isMultilingual"@.len() == 14);
        assert("sentinelValues"@.len() == 14);
        assert("dataType"@[0] == 'd');
        assert("interval"@[0] == 'i');
        assert("minValue"@[0] == 'm');
        assert("maxValue"@[0] == 'm');
        assert("dataType"@[1] == 'a');
        assert("decimals"@[1] == 'e');
        assert("decimals"@[0] == 'd');
        assert("startTime"@[0] == 's');
        assert("minLength"@[0] == 'm');
        assert("maxLength"@[0] == 'm');
        assert("minLength"@[1] == 'i');
        assert("maxLength"@[1] == 'a');
        assert("minValue"@[1] == 'i');
        assert("maxValue"@[1] == 'a');
        assert("isMultilingual"@[0] == 'i');
        assert("sentinelValues"@[0] == 's');
    }
}

impl JsonForm for Format {
    open spec fn wf(&self) -> bool {
        &&& ext_ok(self.other.view_fields(), md_format_names())
        &&& orec_wf(self.data_type)
        &&& ovec_wf(self.sentinel_values)
    }

    open spec fn ser(&self) -> JVal {
        JVal::Obj(present_fields(md_format_pairs(*self)) + self.other.view_fields())
    }

    open spec fn doc_ok(v: JVal) -> bool {
        &&& v is Obj
        &&& {
            let fs = v->Obj_0;
            &&& is_opt_rec::<DataType>(jv_get(fs, "dataType"@))
            &&& is_opt_bool(jv_get(fs, "isSequence"@))
            &&& is_opt_isize(jv_get(fs, "interval"@))
            &&& is_opt_str(jv_get(fs, "startTime"@))
            &&& is_opt_str(jv_get(fs, "endTime"@))
            &&& is_opt_usize(jv_get(fs, "minLength"@))
            &&& is_opt_usize(jv_get(fs, "maxLength"@))
            &&& is_opt_isize(jv_get(fs, "minValue"@))
            &&& is_opt_isize(jv_get(fs, "maxValue"@))
            &&& is_opt_usize(jv_get(fs, "decimals"@))
            &&& is_opt_bool(jv_get(fs, "isMultilingual"@))
            &&& is_opt_recarr::<NumberOrString>(jv_get(fs, "sentinelValues"@))
        }
    }

    open spec fn doc_norm(v: JVal) -> JVal {
        JVal::Obj(
            present_fields(md_format_norm_pairs(v->Obj_0)) + ext_fields(v->Obj_0, md_format_names()),
        )
    }

    #[verifier::rlimit(50)]
    fn from_json(v: JsonValue) -> (r: Result<Self, ParseError>) {
        let o = match v {
            JsonValue::Obj(o) => o,
            _ => { return Err(ParseError::NotObject) },
        };
        let ghost fs = jview_field_vec(o);
        let mut bag = FieldBag::new(o);
        proof {
            lemma_md_format_names_distinct();
        }
        proof {
            assert(bag.taken() =~= md_format_names().subrange(0, 0));
            crate::codec::lemma_take_fresh(md_format_names(), 0, bag.taken());
        }
        let data_type = match parse_opt::<DataType>(bag.take("dataType")) {
            Ok(x) => x,
            Err(e) => { return Err(e) },
        };
        proof {
            assert(bag.taken() =~= md_format_names().subrange(0, 1));
            crate::codec::lemma_take_fresh(md_format_names(), 1, bag.taken());
        }
        let is_sequence = match get_opt_bool(bag.take("isSequence"), "isSequence") {
            Ok(x) => x,
            Err(e) => { return Err(e) },
        };
        proof {
            assert(bag.taken() =~= md_format_names().subrange(0, 2));
            crate::codec::lemma_take_fresh(md_format_names(), 2, bag.taken());
        }
        let interval = match get_opt_isize(bag.take("interval"), "interval") {
            Ok(x) => x,
            Err(e) => { return Err(e) },
        };
        proof {
            assert(bag.taken() =~= md_format_names().subrange(0, 3));
            crate::codec::lemma_take_fresh(md_format_names(), 3, bag.taken());
        }
        let start_time = match get_opt_string(bag.take("startTime"), "startTime") {
            Ok(x) => x,
            Err(e) => { return Err(e) },
        };
        proof {
            assert(bag.taken() =~= md_format_names().subrange(0, 4));
            crate::codec::lemma_take_fresh(md_format_names(), 4, bag.taken());
        }
        let end_time = match get_opt_string(bag.take("endTime"), "endTime") {
            Ok(x) => x,
            Err(e) => { return Err(e) },
        };
        proof {
            assert(bag.taken() =~= md_format_names().subrange(0, 5));
            crate::codec::lemma_take_fresh(md_format_names(), 5, bag.taken());
        }
        let min_length = match get_opt_usize(bag.take("minLength"), "minLength") {
            Ok(x) => x,
            Err(e) => { return Err(e) },
        };
        proof {
            assert(bag.taken() =~= md_format_names().subrange(0, 6));
            crate::codec::lemma_take_fresh(md_format_names(), 6, bag.taken());
        }
        let max_length = match get_opt_usize(bag.take("maxLength"), "maxLength") {
            Ok(x) => x,
            Err(e) => { return Err(e) },
        };
        proof {
            assert(bag.taken() =~= md_format_names().subrange(0, 7));
            crate::codec::lemma_take_fresh(md_format_names(), 7, bag.taken());
        }
        let min_value = match get_opt_isize(bag.take("minValue"), "minValue") {
            Ok(x) => x,
            Err(e) => { return Err(e) },
        };
        proof {
            assert(bag.taken() =~= md_format_names().subrange(0, 8));
            crate::codec::lemma_take_fresh(md_format_names(), 8, bag.taken());
        }
        let max_value = match get_opt_isize(bag.take("maxValue"), "maxValue") {
            Ok(x) => x,
            Err(e) => { return Err(e) },
        };
        proof {
            assert(bag.taken() =~= md_format_names().subrange(0, 9));
            crate::codec::lemma_take_fresh(md_format_names(), 9, bag.taken());
        }
        let decimals = match get_opt_usize(bag.take("decimals"), "decimals") {
            Ok(x) => x,
            Err(e) => { return Err(e) },
        };
        proof {
            assert(bag.taken() =~= md_format_names().subrange(0, 10));
            crate::codec::lemma_take_fresh(md_format_names(), 10, bag.taken());
        }
        let is_multilingual = match get_opt_bool(bag.take("isMultilingual"), "isMultilingual") {
            Ok(x) => x,
            Err(e) => { return Err(e) },
        };
        proof {
            assert(bag.taken() =~= md_format_names().subrange(0, 11));
            crate::codec::lemma_take_fresh(md_format_names(), 11, bag.taken());
        }
        let sentinel_values = match parse_opt_vec::<NumberOrString>(bag.take("sentinelValues"), "sentinelValues") {
            Ok(x) => x,
            Err(e) => { return Err(e) },
        };
        let ghost tk = bag.taken();
        let other = bag.rest();
        let out = Format { data_type, is_sequence, interval, start_time, end_time, min_length, max_length, min_value, max_value, decimals, is_multilingual, sentinel_values, other };
        proof {
            assert(tk =~= md_format_names());
            crate::codec::lemma_ext_fields_names(fs, tk);
            assert(md_format_pairs(out) =~= md_format_norm_pairs(fs));
        }
        Ok(out)
    }

    fn to_json(&self) -> (r: JsonValue) {
        let mut b = ObjBuilder::new();
        put_opt_rec(&mut b, "dataType", &self.data_type);
        put_opt_bool(&mut b, "isSequence", &self.is_sequence);
        put_opt_isize(&mut b, "interval", &self.interval);
        put_opt_str(&mut b, "startTime", &self.start_time);
        put_opt_str(&mut b, "endTime", &self.end_time);
        put_opt_usize(&mut b, "minLength", &self.min_length);
        put_opt_usize(&mut b, "maxLength", &self.max_length);
        put_opt_isize(&mut b, "minValue", &self.min_value);
        put_opt_isize(&mut b, "maxValue", &self.max_value);
        put_opt_usize(&mut b, "decimals", &self.decimals);
        put_opt_bool(&mut b, "isMultilingual", &self.is_multilingual);
        put_opt_vec(&mut b, "sentinelValues", &self.sentinel_values);
        proof {
            let ps = md_format_pairs(*self);
            lemma_pairs_chain(ps, 12);
            assert(ps.subrange(0, 12) =~= ps);
            assert(b.view_fields() == present_fields(ps)) by {
                reveal_with_fuel(pairs_prefix_chunks, 13);
            }
        }
        finish_with_ext(b, &self.other)
    }

    #[verifier::rlimit(50)]
    #[verifier::spinoff_prover]
    proof fn lemma_canon(&self) {
        lemma_md_format_names_distinct();
        let ps = md_format_pairs(*self);
        let ext = self.other.view_fields();
        assert(names_of(ps) =~= md_format_names());
        assert(distinct_names(ps)) by {
            assert forall|i: int, j: int|
                0 <= i < j < ps.len() implies ps[i].0 != ps[j].0 by {
                assert(ps[i].0 == md_format_names()[i]);
                assert(ps[j].0 == md_format_names()[j]);
            }
        }
        assert(disjoint_from(ext, ps)) by {
            assert forall|i: int, j: int|
                0 <= i < ext.len() && 0 <= j < ps.len() implies ext[i].0 != ps[j].0 by {
                assert(!is_known_name(ext[i].0, md_format_names()));
                assert(md_format_names()[j] == ps[j].0);
            }
        }
        lemma_jv_get_present(ps, ext);
        lemma_ext_of_present(ps, ext);
        let fs = self.ser()->Obj_0;
        assert(jv_get(fs, "dataType"@) == ps[0].1);
        assert(jv_get(fs, "isSequence"@) == ps[1].1);
        assert(jv_get(fs, "interval"@) == ps[2].1);
        assert(jv_get(fs, "startTime"@) == ps[3].1);
        assert(jv_get(fs, "endTime"@) == ps[4].1);
        assert(jv_get(fs, "minLength"@) == ps[5].1);
        assert(jv_get(fs, "maxLength"@) == ps[6].1);
        assert(jv_get(fs, "minValue"@) == ps[7].1);
        assert(jv_get(fs, "maxValue"@) == ps[8].1);
        assert(jv_get(fs, "decimals"@) == ps[9].1);
        assert(jv_get(fs, "isMultilingual"@) == ps[10].1);
        assert(jv_get(fs, "sentinelValues"@) == ps[11].1);
        match self.data_type {
            Some(t) => {
                t.lemma_canon();
            },
            None => {},
        }
        match &self.sentinel_values {
            Some(v) => {
                lemma_arr_canon::<NumberOrString>(v@);
            },
            None => {},
        }
        assert(Self::doc_ok(self.ser()));
        assert(md_format_norm_pairs(fs) =~= ps);
        assert(ext_fields(fs, names_of(ps)) == ext);
        assert(ext_fields(fs, md_format_names()) == ext);
    }
}


/// A reported metadata attribute value.  Attributes nest: an attribute may
/// carry further attributes beneath it.
#[derive(Debug, PartialEq)]
pub struct Attribute {
    pub id: String,
    pub annotations: Option<Vec<Annotation>>,
    pub format: Option<Format>,
    pub value: Option<SdmxValue>,
    pub attributes: Option<Vec<Attribute>>,
    pub other: Extensions,
}

pub open spec fn attribute_names() -> Seq<Seq<char>> {
    seq!["id"@, "annotations"@, "format"@, "value"@, "attributes"@]
}

pub open spec fn attr_pairs(x: Attribute) -> Seq<(Seq<char>, Option<JVal>)>
    decreases x,
{
    seq![
        ("id"@, Some(JVal::Str(x.id@))),
        ("annotations"@, ovec_ser(x.annotations)),
        ("format"@, orec_ser(x.format)),
        ("value"@, orec_ser(x.value)),
        ("attributes"@, attr_children_ser(x.attributes)),
    ]
}

pub open spec fn attr_children_ser(o: Option<Vec<Attribute>>) -> Option<JVal>
    decreases o,
{
    match o {
        Some(v) => Some(JVal::Arr(attr_ser_vec(v))),
        None => None,
    }
}

pub open spec fn attr_ser_vec(v: Vec<Attribute>) -> Seq<JVal>
    decreases v,
{
    attr_ser_seq(v@)
}

pub open spec fn attr_ser_seq(s: Seq<Attribute>) -> Seq<JVal>
    decreases s,
{
    if s.len() == 0 {
        Seq::empty()
    } else {
        seq![
            JVal::Obj(present_fields(attr_pairs(s[0])) + s[0].other.view_fields()),
        ] + attr_ser_seq(s.subrange(1, s.len() as int))
    }
}

/// The document of one attribute.
pub open spec fn attr_ser(x: Attribute) -> JVal {
    JVal::Obj(present_fields(attr_pairs(x)) + x.other.view_fields())
}

pub proof fn lemma_attr_ser_seq(s: Seq<Attribute>)
    ensures
        attr_ser_seq(s).len() == s.len(),
        forall|i: int| 0 <= i < s.len() ==> #[trigger] attr_ser_seq(s)[i] == attr_ser(s[i]),
    decreases s.len(),
{
    if s.len() > 0 {
        lemma_attr_ser_seq(s.subrange(1, s.len() as int));
    }
}

pub proof fn lemma_attr_ser_seq_push(s: Seq<Attribute>, x: Attribute)
    ensures
        attr_ser_seq(s.push(x)) == attr_ser_seq(s).push(attr_ser(x)),
{
    lemma_attr_ser_seq(s.push(x));
    lemma_attr_ser_seq(s);
    assert(attr_ser_seq(s.push(x)) =~= attr_ser_seq(s).push(attr_ser(x)));
}

/// Which documents are attributes.
pub open spec fn attr_ok(v: JVal) -> bool
    decreases v,
{
    &&& v is Obj
    &&& is_req_str(jv_get(v->Obj_0, "id"@))
    &&& is_opt_recarr::<Annotation>(jv_get(v->Obj_0, "annotations"@))
    &&& is_opt_rec::<Format>(jv_get(v->Obj_0, "format"@))
    &&& is_opt_rec::<SdmxValue>(jv_get(v->Obj_0, "value"@))
    &&& (match jv_get(v->Obj_0, "attributes"@) {
        None => true,
        Some(JVal::Null) => true,
        Some(JVal::Arr(s)) => {
            proof {
                lemma_slot_smaller(v, "attributes"@);
            }
            attr_ok_seq(s)
        },
        Some(_) => false,
    })
}

/// A field looked up in an object is structurally beneath the object, and so
/// is the element list of an array standing there.
pub proof fn lemma_slot_smaller(v: JVal, name: Seq<char>)
    requires
        v is Obj,
        jv_get(v->Obj_0, name) matches Some(g) && g is Arr,
    ensures
        decreases_to!(v => jv_get(v->Obj_0, name)->Some_0->Arr_0),
{
    let fs = v->Obj_0;
    let g = jv_get(fs, name)->Some_0;
    lemma_jv_get_member(fs, name);
    let i = choose|i: int| 0 <= i < fs.len() && #[trigger] fs[i] == (name, g);
    assert(decreases_to!(v => fs));
    assert(decreases_to!(fs => fs[i]));
    assert(decreases_to!(fs[i] => fs[i].1));
    assert(decreases_to!(g => g->Arr_0));
    assert(decreases_to!(v => g->Arr_0));
}

pub open spec fn attr_ok_seq(s: Seq<JVal>) -> bool
    decreases s,
{
    if s.len() == 0 {
        true
    } else {
        attr_ok(s[0]) && attr_ok_seq(s.subrange(1, s.len() as int))
    }
}

pub proof fn lemma_attr_ok_seq(s: Seq<JVal>)
    ensures
        attr_ok_seq(s) <==> (forall|i: int| 0 <= i < s.len() ==> attr_ok(#[trigger] s[i])),
    decreases s.len(),
{
    if s.len() > 0 {
        lemma_attr_ok_seq(s.subrange(1, s.len() as int));
        let rest = s.subrange(1, s.len() as int);
        assert(forall|i: int| 0 <= i < rest.len() ==> rest[i] == s[i + 1]);
        if attr_ok(s[0]) && (forall|i: int| 0 <= i < rest.len() ==> attr_ok(#[trigger] rest[i])) {
            assert forall|i: int| 0 <= i < s.len() implies attr_ok(#[trigger] s[i]) by {
                if i > 0 {
                    assert(rest[i - 1] == s[i]);
                }
            }
        }
    }
}

/// The slot list of the normal form of an attribute document.
pub open spec fn attr_norm_pairs(v: JVal) -> Seq<(Seq<char>, Option<JVal>)>
    decreases v, 0int,
{
    if v is Obj {
        seq![
            ("id"@, jv_of_ostr(opt_str(jv_get(v->Obj_0, "id"@)))),
            ("annotations"@, opt_recarr_norm::<Annotation>(jv_get(v->Obj_0, "annotations"@))),
            ("format"@, opt_rec_norm::<Format>(jv_get(v->Obj_0, "format"@))),
            ("value"@, opt_rec_norm::<SdmxValue>(jv_get(v->Obj_0, "value"@))),
            (
                "attributes"@,
                match jv_get(v->Obj_0, "attributes"@) {
                    Some(JVal::Arr(s)) => {
                        proof {
                            lemma_slot_smaller(v, "attributes"@);
                        }
                        Some(JVal::Arr(attr_norm_seq(s)))
                    },
                    _ => None,
                },
            ),
        ]
    } else {
        Seq::empty()
    }
}

/// The normal form of an attribute document.
pub open spec fn attr_norm(v: JVal) -> JVal
    decreases v, 1int,
{
    if v is Obj {
        JVal::Obj(
            present_fields(attr_norm_pairs(v)) + ext_fields(v->Obj_0, attribute_names()),
        )
    } else {
        JVal::Null
    }
}

pub open spec fn attr_norm_seq(s: Seq<JVal>) -> Seq<JVal>
    decreases s, 1int,
{
    if s.len() == 0 {
        Seq::empty()
    } else {
        seq![attr_norm(s[0])] + attr_norm_seq(s.subrange(1, s.len() as int))
    }
}

pub proof fn lemma_attr_norm_seq(s: Seq<JVal>)
    ensures
        attr_norm_seq(s).len() == s.len(),
        forall|i: int| 0 <= i < s.len() ==> #[trigger] attr_norm_seq(s)[i] == attr_norm(s[i]),
    decreases s.len(),
{
    if s.len() > 0 {
        lemma_attr_norm_seq(s.subrange(1, s.len() as int));
    }
}

pub proof fn lemma_attr_norm_seq_push(s: Seq<JVal>, x: JVal)
    ensures
        attr_norm_seq(s.push(x)) == attr_norm_seq(s).push(attr_norm(x)),
{
    lemma_attr_norm_seq(s.push(x));
    lemma_attr_norm_seq(s);
    assert(attr_norm_seq(s.push(x)) =~= attr_norm_seq(s).push(attr_norm(x)));
}

/// Internal consistency of an attribute tree.
pub open spec fn attr_wf(x: Attribute) -> bool
    decreases x,
{
    &&& ext_ok(x.other.view_fields(), attribute_names())
    &&& ovec_wf(x.annotations)
    &&& orec_wf(x.format)
    &&& orec_wf(x.value)
    &&& !(x.value matches Some(SdmxValue::Null))
    &&& (match x.attributes {
        Some(v) => attr_wf_vec(v),
        None => true,
    })
}

pub open spec fn attr_wf_vec(v: Vec<Attribute>) -> bool
    decreases v,
{
    attr_wf_seq(v@)
}

pub open spec fn attr_wf_seq(s: Seq<Attribute>) -> bool
    decreases s,
{
    if s.len() == 0 {
        true
    } else {
        attr_wf(s[0]) && attr_wf_seq(s.subrange(1, s.len() as int))
    }
}

pub proof fn lemma_attr_wf_seq(s: Seq<Attribute>)
    ensures
        attr_wf_seq(s) <==> (forall|i: int| 0 <= i < s.len() ==> attr_wf(#[trigger] s[i])),
    decreases s.len(),
{
    if s.len() > 0 {
        lemma_attr_wf_seq(s.subrange(1, s.len() as int));
        let rest = s.subrange(1, s.len() as int);
        assert(forall|i: int| 0 <= i < rest.len() ==> rest[i] == s[i + 1]);
        if attr_wf(s[0]) && (forall|i: int| 0 <= i < rest.len() ==> attr_wf(#[trigger] rest[i])) {
            assert forall|i: int| 0 <= i < s.len() implies attr_wf(#[trigger] s[i]) by {
                if i > 0 {
                    assert(rest[i - 1] == s[i]);
                }
            }
        }
    }
}

pub proof fn lemma_attribute_names_distinct()
    ensures
        forall|i: int, j: int|
            0 <= i < j < attribute_names().len() ==> attribute_names()[i]
                != attribute_names()[j],
{
    reveal_strlit("id");
    reveal_strlit("annotations");
    reveal_strlit("format");
    reveal_strlit("value");
    reveal_strlit("attributes");
    let ns = attribute_names();
    assert(ns.len() == 5);
    assert forall|i: int, j: int| 0 <= i < j < ns.len() implies ns[i] != ns[j] by {
        assert("id"@.len() == 2);
        assert("annotations"@.len() == 11);
        assert("format"@.len() == 6);
        assert("value"@.len() == 5);
        assert("attributes"@.len() == 10);
    }
}

impl Attribute {
    /// Parses one attribute, and beneath it the attributes it nests.
    #[verifier::rlimit(100)]
    #[verifier::loop_isolation(false)]
    pub fn parse_attr(v: JsonValue) -> (r: Result<Attribute, ParseError>)
        ensures
            (r is Ok) == attr_ok(jview(v)),
            r matches Ok(x) ==> attr_wf(x) && attr_ser(x) == attr_norm(jview(v)),
        decreases jview(v),
    {
        let ghost vw = jview(v);
        let o = match v {
            JsonValue::Obj(o) => o,
            _ => { return Err(ParseError::NotObject) },
        };
        let ghost fs = jview_field_vec(o);
        let mut bag = FieldBag::new(o);
        proof {
            lemma_attribute_names_distinct();
            assert(bag.taken() =~= attribute_names().subrange(0, 0));
            crate::codec::lemma_take_fresh(attribute_names(), 0, bag.taken());
        }
        let id = match get_req_string(bag.take("id"), "id") {
            Ok(x) => x,
            Err(e) => { return Err(e) },
        };
        proof {
            assert(bag.taken() =~= attribute_names().subrange(0, 1));
            crate::codec::lemma_take_fresh(attribute_names(), 1, bag.taken());
        }
        let annotations = match parse_opt_vec::<Annotation>(bag.take("annotations"), "annotations") {
            Ok(x) => x,
            Err(e) => { return Err(e) },
        };
        proof {
            assert(bag.taken() =~= attribute_names().subrange(0, 2));
            crate::codec::lemma_take_fresh(attribute_names(), 2, bag.taken());
        }
        let format = match parse_opt::<Format>(bag.take("format")) {
            Ok(x) => x,
            Err(e) => { return Err(e) },
        };
        proof {
            assert(bag.taken() =~= attribute_names().subrange(0, 3));
            crate::codec::lemma_take_fresh(attribute_names(), 3, bag.taken());
        }
        let value = match parse_opt::<SdmxValue>(bag.take("value")) {
            Ok(x) => x,
            Err(e) => { return Err(e) },
        };
        proof {
            assert(bag.taken() =~= attribute_names().subrange(0, 4));
            crate::codec::lemma_take_fresh(attribute_names(), 4, bag.taken());
        }
        let attrs_slot = bag.take("attributes");
        let ghost slot_view = crate::json::jv_opt(attrs_slot);
        let attributes: Option<Vec<Attribute>> = match attrs_slot {
            None => None,
            Some(JsonValue::Null) => None,
            Some(JsonValue::Arr(items0)) => {
                let ghost arrnode = JVal::Arr(crate::json::jview_seq(items0@));
                let ghost ga = items0@;
                let ghost s = crate::json::jview_seq(ga);
                proof {
                    crate::json::lemma_jview_seq(ga);
                    lemma_slot_smaller(vw, "attributes"@);
                    assert(decreases_to!(vw => s));
                    lemma_attr_ok_seq(s);
                    assert(attr_ser_seq(Seq::<Attribute>::empty()) =~= Seq::<JVal>::empty());
                    assert(attr_norm_seq(s.subrange(0, 0)) =~= Seq::<JVal>::empty());
                    assert(s.subrange(0, 0) =~= Seq::<JVal>::empty());
                }
                let mut items = items0;
                let mut out: Vec<Attribute> = Vec::new();
                let ghost mut done: int = 0;
                while items.len() > 0
                    invariant
                        0 <= done <= s.len(),
                        ga.len() == s.len(),
                        items@ =~= ga.subrange(done, ga.len() as int),
                        out@.len() == done,
                        forall|i: int| 0 <= i < done ==> attr_ok(#[trigger] s[i]),
                        forall|i: int| 0 <= i < done ==> attr_wf(#[trigger] out@[i]),
                        attr_ser_seq(out@) =~= attr_norm_seq(s.subrange(0, done)),
                    decreases items@.len(),
                {
                    let ghost pre = items@;
                    let elem = items.remove(0);
                    proof {
                        assert(elem == pre[0]);
                        assert(pre[0] == ga[done]);
                        assert(jview(elem) == s[done]);
                        assert(decreases_to!(s => s[done]));
                        assert(decreases_to!(vw => jview(elem)));
                    }
                    match Attribute::parse_attr(elem) {
                        Ok(x) => {
                            proof {
                                lemma_attr_ser_seq_push(out@, x);
                                lemma_attr_norm_seq_push(s.subrange(0, done), s[done]);
                                assert(s.subrange(0, done).push(s[done]) =~= s.subrange(
                                    0,
                                    done + 1,
                                ));
                            }
                            out.push(x);
                        },
                        Err(e) => {
                            proof {
                                assert(!attr_ok(s[done]));
                                assert(!attr_ok_seq(s));
                            }
                            return Err(e);
                        },
                    }
                    proof {
                        done = done + 1;
                    }
                }
                proof {
                    assert(s.subrange(0, s.len() as int) =~= s);
                    lemma_attr_wf_seq(out@);
                }
                Some(out)
            },
            Some(_) => { return Err(ParseError::Shape("attributes".to_owned(), crate::fields::ValueKind::Array)) },
        };
        let ghost tk = bag.taken();
        let other = bag.rest();
        let out = Attribute { id, annotations, format, value, attributes, other };
        proof {
            assert(tk =~= attribute_names());
            crate::codec::lemma_ext_fields_names(fs, tk);
            assert(attr_ok(vw));
            assert(!(value matches Some(SdmxValue::Null))) by {
                if value matches Some(sv) && sv is Null {
                    assert(orec_ser(value) == Some(JVal::Null));
                }
            }
            assert(attr_wf(out));
            assert(attr_norm_pairs(vw) =~= attr_pairs(out));
            assert(attr_ser(out)->Obj_0 =~= attr_norm(vw)->Obj_0);
        }
        Ok(out)
    }

    /// Re-emits one attribute and the attributes it nests.
    #[verifier::rlimit(100)]
    #[verifier::loop_isolation(false)]
    pub fn emit_attr(&self) -> (r: JsonValue)
        ensures
            jview(r) == attr_ser(*self),
        decreases *self,
    {
        let mut b = ObjBuilder::new();
        put_str(&mut b, "id", &self.id);
        put_opt_vec(&mut b, "annotations", &self.annotations);
        put_opt_rec(&mut b, "format", &self.format);
        put_opt_rec(&mut b, "value", &self.value);
        match &self.attributes {
            Some(children) => {
                let mut arr: Vec<JsonValue> = Vec::new();
                let mut i: usize = 0;
                proof {
                    assert(crate::json::jview_seq(Seq::<JsonValue>::empty()) =~= Seq::<
                        JVal,
                    >::empty());
                    assert(attr_ser_seq(children@.subrange(0, 0)) =~= Seq::<JVal>::empty());
                }
                while i < children.len()
                    invariant
                        i <= children@.len(),
                        crate::json::jview_seq(arr@) == attr_ser_seq(
                            children@.subrange(0, i as int),
                        ),
                    decreases children@.len() - i,
                {
                    proof {
                        assert(decreases_to!(children@ => children@[i as int]));
                    }
                    let c = children[i].emit_attr();
                    proof {
                        crate::json::lemma_jview_seq_push(arr@, c);
                        lemma_attr_ser_seq_push(
                            children@.subrange(0, i as int),
                            children@[i as int],
                        );
                        assert(children@.subrange(0, i as int).push(children@[i as int])
                            =~= children@.subrange(0, i as int + 1));
                    }
                    arr.push(c);
                    i = i + 1;
                }
                proof {
                    assert(children@.subrange(0, children@.len() as int) =~= children@);
                }
                b.put("attributes", JsonValue::Arr(arr));
            },
            None => {},
        }
        proof {
            let ps = attr_pairs(*self);
            lemma_pairs_chain(ps, 5);
            assert(ps.subrange(0, 5) =~= ps);
            assert(b.view_fields() =~= present_fields(ps)) by {
                reveal_with_fuel(pairs_prefix_chunks, 6);
            }
        }
        finish_with_ext(b, &self.other)
    }

    /// The round-trip law for one attribute tree.
    #[verifier::rlimit(100)]
    #[verifier::spinoff_prover]
    pub proof fn lemma_attr_canon(&self)
        requires
            attr_wf(*self),
        ensures
            attr_ok(attr_ser(*self)),
            attr_norm(attr_ser(*self)) == attr_ser(*self),
        decreases *self,
    {
        lemma_attribute_names_distinct();
        let ps = attr_pairs(*self);
        let ext = self.other.view_fields();
        assert(names_of(ps) =~= attribute_names());
        assert(distinct_names(ps)) by {
            assert forall|i: int, j: int|
                0 <= i < j < ps.len() implies ps[i].0 != ps[j].0 by {
                assert(ps[i].0 == attribute_names()[i]);
                assert(ps[j].0 == attribute_names()[j]);
            }
        }
        assert(disjoint_from(ext, ps)) by {
            assert forall|i: int, j: int|
                0 <= i < ext.len() && 0 <= j < ps.len() implies ext[i].0 != ps[j].0 by {
                assert(!is_known_name(ext[i].0, attribute_names()));
                assert(attribute_names()[j] == ps[j].0);
            }
        }
        lemma_jv_get_present(ps, ext);
        lemma_ext_of_present(ps, ext);
        let fs = attr_ser(*self)->Obj_0;
        assert(jv_get(fs, "id"@) == ps[0].1);
        assert(jv_get(fs, "annotations"@) == ps[1].1);
        assert(jv_get(fs, "format"@) == ps[2].1);
        assert(jv_get(fs, "value"@) == ps[3].1);
        assert(jv_get(fs, "attributes"@) == ps[4].1);
        match &self.annotations {
            Some(v) => {
                lemma_arr_canon::<Annotation>(v@);
            },
            None => {},
        }
        match &self.format {
            Some(t) => {
                t.lemma_canon();
            },
            None => {},
        }
        match &self.value {
            Some(t) => {
                t.lemma_canon();
            },
            None => {},
        }
        match &self.attributes {
            Some(children) => {
                assert(decreases_to!(*self => *children));
                lemma_attr_canon_seq(children@);
            },
            None => {},
        }
        assert(attr_ok(attr_ser(*self)));
        assert(ext_fields(fs, names_of(ps)) == ext);
        assert(ext_fields(fs, attribute_names()) == ext);
        assert(attr_norm_pairs(attr_ser(*self)) =~= ps);
        assert(attr_norm(attr_ser(*self))->Obj_0 =~= attr_ser(*self)->Obj_0);
    }
}

pub proof fn lemma_attr_canon_seq(s: Seq<Attribute>)
    requires
        attr_wf_seq(s),
    ensures
        attr_ok_seq(attr_ser_seq(s)),
        attr_norm_seq(attr_ser_seq(s)) == attr_ser_seq(s),
    decreases s,
{
    if s.len() > 0 {
        let h = s[0];
        assert(attr_wf(h));
        h.lemma_attr_canon();
        lemma_attr_canon_seq(s.subrange(1, s.len() as int));
        let t = attr_ser_seq(s);
        lemma_attr_ser_seq(s);
        lemma_attr_ser_seq(s.subrange(1, s.len() as int));
        assert(t[0] == attr_ser(s[0]));
        assert(t.subrange(1, t.len() as int) =~= attr_ser_seq(s.subrange(1, s.len() as int))) by {
            assert(forall|i: int|
                0 <= i < s.len() - 1 ==> #[trigger] s.subrange(1, s.len() as int)[i] == s[i + 1]);
        }
        lemma_attr_norm_seq(t);
        lemma_attr_norm_seq(t.subrange(1, t.len() as int));
        assert(attr_norm_seq(t) =~= t) by {
            assert forall|i: int| 0 <= i < t.len() implies #[trigger] attr_norm_seq(t)[i] == t[
            i] by {
                if i == 0 {
                    assert(attr_norm(t[0]) == t[0]);
                } else {
                    assert(t.subrange(1, t.len() as int)[i - 1] == t[i]);
                    assert(attr_norm_seq(t.subrange(1, t.len() as int))[i - 1] == t[i]);
                }
            }
        }
    }
}

impl JsonForm for Attribute {
    open spec fn wf(&self) -> bool {
        attr_wf(*self)
    }

    open spec fn ser(&self) -> JVal {
        attr_ser(*self)
    }

    open spec fn doc_ok(v: JVal) -> bool {
        attr_ok(v)
    }

    open spec fn doc_norm(v: JVal) -> JVal {
        attr_norm(v)
    }

    fn from_json(v: JsonValue) -> (r: Result<Self, ParseError>) {
        Attribute::parse_attr(v)
    }

    fn to_json(&self) -> (r: JsonValue) {
        self.emit_attr()
    }

    proof fn lemma_canon(&self) {
        self.lemma_attr_canon();
    }
}


/// A collection of reported metadata against a set of values for a full or
/// partial target identifier.
#[derive(Debug, PartialEq)]
pub struct MetadataSet {
    pub action: Option<Action>,
    pub publication_period: Option<String>,
    pub publication_year: Option<String>,
    pub reporting_begin: Option<String>,
    pub reporting_year: Option<String>,
    pub id: String,
    pub agency_id: String,
    pub version: Option<String>,
    pub is_external_reference: Option<bool>,
    pub metadataflow: Option<String>,
    pub metadata_provision_agreement: Option<String>,
    pub valid_from: Option<String>,
    pub valid_to: Option<String>,
    pub annotations: Option<Vec<Annotation>>,
    pub links: Option<Vec<Link>>,
    pub name: String,
    pub names: Option<LocalizedText>,
    pub description: Option<String>,
    pub descriptions: Option<LocalizedText>,
    pub targets: Vec<String>,
    pub attributes: Vec<Attribute>,
    pub other: Extensions,
}

pub open spec fn metadata_set_names() -> Seq<Seq<char>> {
    seq!["action"@, "publicationPeriod"@, "publicationYear"@, "reportingBegin"@, "reportingYear"@, "id"@, "agencyID"@, "version"@, "isExternalReference"@, "metadataflow"@, "metadataProvisionAgreement"@, "validFrom"@, "validTo"@, "annotations"@, "links"@, "name"@, "names"@, "description"@, "descriptions"@, "targets"@, "attributes"@]
}

pub open spec fn metadata_set_pairs(x: MetadataSet) -> Seq<(Seq<char>, Option<JVal>)> {
    seq![
        ("action"@, orec_ser(x.action)),
        ("publicationPeriod"@, jv_of_ostr(ostr_view(x.publication_period))),
        ("publicationYear"@, jv_of_ostr(ostr_view(x.publication_year))),
        ("reportingBegin"@, jv_of_ostr(ostr_view(x.reporting_begin))),
        ("reportingYear"@, jv_of_ostr(ostr_view(x.reporting_year))),
        ("id"@, Some(JVal::Str(x.id@))),
        ("agencyID"@, Some(JVal::Str(x.agency_id@))),
        ("version"@, jv_of_ostr(ostr_view(x.version))),
        ("isExternalReference"@, jv_of_obool(x.is_external_reference)),
        ("metadataflow"@, jv_of_ostr(ostr_view(x.metadataflow))),
        ("metadataProvisionAgreement"@, jv_of_ostr(ostr_view(x.metadata_provision_agreement))),
        ("validFrom"@, jv_of_ostr(ostr_view(x.valid_from))),
        ("validTo"@, jv_of_ostr(ostr_view(x.valid_to))),
        ("annotations"@, ovec_ser(x.annotations)),
        ("links"@, ovec_ser(x.links)),
        ("name"@, Some(JVal::Str(x.name@))),
        ("names"@, orec_ser(x.names)),
        ("description"@, jv_of_ostr(ostr_view(x.description))),
        ("descriptions"@, orec_ser(x.descriptions)),
        ("targets"@, Some(vec_ser(x.targets))),
        ("attributes"@, Some(vec_ser(x.attributes))),
    ]
}

pub open spec fn metadata_set_norm_pairs(fs: Seq<(Seq<char>, JVal)>) -> Seq<(Seq<char>, Option<JVal>)> {
    seq![
        ("action"@, opt_rec_norm::<Action>(jv_get(fs, "action"@))),
        ("publicationPeriod"@, jv_of_ostr(opt_str(jv_get(fs, "publicationPeriod"@)))),
        ("publicationYear"@, jv_of_ostr(opt_str(jv_get(fs, "publicationYear"@)))),
        ("reportingBegin"@, jv_of_ostr(opt_str(jv_get(fs, "reportingBegin"@)))),
        ("reportingYear"@, jv_of_ostr(opt_str(jv_get(fs, "reportingYear"@)))),
        ("id"@, jv_of_ostr(opt_str(jv_get(fs, "id"@)))),
        ("agencyID"@, jv_of_ostr(opt_str(jv_get(fs, "agencyID"@)))),
        ("version"@, jv_of_ostr(opt_str(jv_get(fs, "version"@)))),
        ("isExternalReference"@, jv_of_obool(opt_bool(jv_get(fs, "isExternalReference"@)))),
        ("metadataflow"@, jv_of_ostr(opt_str(jv_get(fs, "metadataflow"@)))),
        ("metadataProvisionAgreement"@, jv_of_ostr(opt_str(jv_get(fs, "metadataProvisionAgreement"@)))),
        ("validFrom"@, jv_of_ostr(opt_str(jv_get(fs, "validFrom"@)))),
        ("validTo"@, jv_of_ostr(opt_str(jv_get(fs, "validTo"@)))),
        ("annotations"@, opt_recarr_norm::<Annotation>(jv_get(fs, "annotations"@))),
        ("links"@, opt_recarr_norm::<Link>(jv_get(fs, "links"@))),
        ("name"@, jv_of_ostr(opt_str(jv_get(fs, "name"@)))),
        ("names"@, opt_rec_norm::<LocalizedText>(jv_get(fs, "names"@))),
        ("description"@, jv_of_ostr(opt_str(jv_get(fs, "description"@)))),
        ("descriptions"@, opt_rec_norm::<LocalizedText>(jv_get(fs, "descriptions"@))),
        ("targets"@, opt_recarr_norm::<String>(jv_get(fs, "targets"@))),
        ("attributes"@, opt_recarr_norm::<Attribute>(jv_get(fs, "attributes"@))),
    ]
}

/// The names this record knows are pairwise distinct.
pub proof fn lemma_metadata_set_names_distinct()
    ensures
        forall|i: int, j: int|
            0 <= i < j < metadata_set_names().len() ==> metadata_set_names()[i] != metadata_set_names()[j],
{
    reveal_strlit("action");
    reveal_strlit("publicationPeriod");
    reveal_strlit("publicationYear");
    reveal_strlit("reportingBegin");
    reveal_strlit("reportingYear");
    reveal_strlit("id");
    reveal_strlit("agencyID");
    reveal_strlit("version");
    reveal_strlit("isExternalReference");
    reveal_strlit("metadataflow");
    reveal_strlit("metadataProvisionAgreement");
    reveal_strlit("validFrom");
    reveal_strlit("validTo");
    reveal_strlit("annotations");
    reveal_strlit("links");
    reveal_strlit("name");
    reveal_strlit("names");
    reveal_strlit("description");
    reveal_strlit("descriptions");
    reveal_strlit("targets");
    reveal_strlit("attributes");
    let ns = metadata_set_names();
    assert(ns.len() == 21);
    assert forall|i: int, j: int| 0 <= i < j < ns.len() implies ns[i] != ns[j] by {
        assert("action"@.len() == 6);
        assert("publicationPeriod"@.len() == 17);
        assert("publicationYear"@.len() == 15);
        assert("reportingBegin"@.len() == 14);
        assert("reportingYear"@.len() == 13);
        assert("id"@.len() == 2);
        assert("agencyID"@.len() == 8);
        assert("version"@.len() == 7);
        assert("isExternalReference"@.len() == 19);
        assert("metadataflow"@.len() == 12);
        assert("metadataProvisionAgreement"@.len() == 26);
        assert("validFrom"@.len() == 9);
        assert("validTo"@.len() == 7);
        assert("annotations"@.len() == 11);
        assert("links"@.len() == 5);
        assert("name"@.len() == 4);
        assert("names"@.len() == 5);
        assert("description"@.len() == 11);
        assert("descriptions"@.len() == 12);
        assert("targets"@.len() == 7);
        assert("attributes"@.len() == 10);
        assert("version"@[1] == 'e');
        assert("validTo"@[1] == 'a');
        assert("version"@[0] == 'v');
        assert("targets"@[0] == 't');
        assert("metadataflow"@[0] == 'm');
        assert("descriptions"@[0] == 'd');
        assert("validTo"@[0] == 'v');
        assert("annotations"@[0] == 'a');
        assert("description"@[0] == 'd');
        assert("links"@[0] == 'l');
        assert("names"@[0] == 'n');
    }
}

impl JsonForm for MetadataSet {
    open spec fn wf(&self) -> bool {
        &&& ext_ok(self.other.view_fields(), metadata_set_names())
        &&& crate::fields::window_le(ostr_view(self.valid_from), ostr_view(self.valid_to))
        &&& orec_wf(self.action)
        &&& ovec_wf(self.annotations)
        &&& ovec_wf(self.links)
        &&& orec_wf(self.names)
        &&& orec_wf(self.descriptions)
        &&& seq_wf(self.targets@)
        &&& seq_wf(self.attributes@)
    }

    open spec fn ser(&self) -> JVal {
        JVal::Obj(present_fields(metadata_set_pairs(*self)) + self.other.view_fields())
    }

    open spec fn doc_ok(v: JVal) -> bool {
        &&& v is Obj
        &&& {
            let fs = v->Obj_0;
            &&& is_opt_rec::<Action>(jv_get(fs, "action"@))
            &&& is_opt_str(jv_get(fs, "publicationPeriod"@))
            &&& is_opt_str(jv_get(fs, "publicationYear"@))
            &&& is_opt_str(jv_get(fs, "reportingBegin"@))
            &&& is_opt_str(jv_get(fs, "reportingYear"@))
            &&& is_req_str(jv_get(fs, "id"@))
            &&& is_req_str(jv_get(fs, "agencyID"@))
            &&& is_opt_str(jv_get(fs, "version"@))
            &&& is_opt_bool(jv_get(fs, "isExternalReference"@))
            &&& is_opt_str(jv_get(fs, "metadataflow"@))
            &&& is_opt_str(jv_get(fs, "metadataProvisionAgreement"@))
            &&& is_opt_str(jv_get(fs, "validFrom"@))
            &&& is_opt_str(jv_get(fs, "validTo"@))
            &&& crate::fields::window_le(
                opt_str(jv_get(fs, "validFrom"@)),
                opt_str(jv_get(fs, "validTo"@)),
            )
            &&& is_opt_recarr::<Annotation>(jv_get(fs, "annotations"@))
            &&& is_opt_recarr::<Link>(jv_get(fs, "links"@))
            &&& is_req_str(jv_get(fs, "name"@))
            &&& is_opt_rec::<LocalizedText>(jv_get(fs, "names"@))
            &&& is_opt_str(jv_get(fs, "description"@))
            &&& is_opt_rec::<LocalizedText>(jv_get(fs, "descriptions"@))
            &&& is_req_recarr::<String>(jv_get(fs, "targets"@))
            &&& is_req_recarr::<Attribute>(jv_get(fs, "attributes"@))
        }
    }

    open spec fn doc_norm(v: JVal) -> JVal {
        JVal::Obj(
            present_fields(metadata_set_norm_pairs(v->Obj_0)) + ext_fields(v->Obj_0, metadata_set_names()),
        )
    }

    #[verifier::rlimit(50)]
    fn from_json(v: JsonValue) -> (r: Result<Self, ParseError>) {
        let o = match v {
            JsonValue::Obj(o) => o,
            _ => { return Err(ParseError::NotObject) },
        };
        let ghost fs = jview_field_vec(o);
        let mut bag = FieldBag::new(o);
        proof {
            lemma_metadata_set_names_distinct();
        }
        proof {
            assert(bag.taken() =~= metadata_set_names().subrange(0, 0));
            crate::codec::lemma_take_fresh(metadata_set_names(), 0, bag.taken());
        }
        let action = match parse_opt::<Action>(bag.take("action")) {
            Ok(x) => x,
            Err(e) => { return Err(e) },
        };
        proof {
            assert(bag.taken() =~= metadata_set_names().subrange(0, 1));
            crate::codec::lemma_take_fresh(metadata_set_names(), 1, bag.taken());
        }
        let publication_period = match get_opt_string(bag.take("publicationPeriod"), "publicationPeriod") {
            Ok(x) => x,
            Err(e) => { return Err(e) },
        };
        proof {
            assert(bag.taken() =~= metadata_set_names().subrange(0, 2));
            crate::codec::lemma_take_fresh(metadata_set_names(), 2, bag.taken());
        }
        let publication_year = match get_opt_string(bag.take("publicationYear"), "publicationYear") {
            Ok(x) => x,
            Err(e) => { return Err(e) },
        };
        proof {
            assert(bag.taken() =~= metadata_set_names().subrange(0, 3));
            crate::codec::lemma_take_fresh(metadata_set_names(), 3, bag.taken());
        }
        let reporting_begin = match get_opt_string(bag.take("reportingBegin"), "reportingBegin") {
            Ok(x) => x,
            Err(e) => { return Err(e) },
        };
        proof {
            assert(bag.taken() =~= metadata_set_names().subrange(0, 4));
            crate::codec::lemma_take_fresh(metadata_set_names(), 4, bag.taken());
        }
        let reporting_year = match get_opt_string(bag.take("reportingYear"), "reportingYear") {
            Ok(x) => x,
            Err(e) => { return Err(e) },
        };
        proof {
            assert(bag.taken() =~= metadata_set_names().subrange(0, 5));
            crate::codec::lemma_take_fresh(metadata_set_names(), 5, bag.taken());
        }
        let id = match get_req_string(bag.take("id"), "id") {
            Ok(x) => x,
            Err(e) => { return Err(e) },
        };
        proof {
            assert(bag.taken() =~= metadata_set_names().subrange(0, 6));
            crate::codec::lemma_take_fresh(metadata_set_names(), 6, bag.taken());
        }
        let agency_id = match get_req_string(bag.take("agencyID"), "agencyID") {
            Ok(x) => x,
            Err(e) => { return Err(e) },
        };
        proof {
            assert(bag.taken() =~= metadata_set_names().subrange(0, 7));
            crate::codec::lemma_take_fresh(metadata_set_names(), 7, bag.taken());
        }
        let version = match get_opt_string(bag.take("version"), "version") {
            Ok(x) => x,
            Err(e) => { return Err(e) },
        };
        proof {
            assert(bag.taken() =~= metadata_set_names().subrange(0, 8));
            crate::codec::lemma_take_fresh(metadata_set_names(), 8, bag.taken());
        }
        let is_external_reference = match get_opt_bool(bag.take("isExternalReference"), "isExternalReference") {
            Ok(x) => x,
            Err(e) => { return Err(e) },
        };
        proof {
            assert(bag.taken() =~= metadata_set_names().subrange(0, 9));
            crate::codec::lemma_take_fresh(metadata_set_names(), 9, bag.taken());
        }
        let metadataflow = match get_opt_string(bag.take("metadataflow"), "metadataflow") {
            Ok(x) => x,
            Err(e) => { return Err(e) },
        };
        proof {
            assert(bag.taken() =~= metadata_set_names().subrange(0, 10));
            crate::codec::lemma_take_fresh(metadata_set_names(), 10, bag.taken());
        }
        let metadata_provision_agreement = match get_opt_string(bag.take("metadataProvisionAgreement"), "metadataProvisionAgreement") {
            Ok(x) => x,
            Err(e) => { return Err(e) },
        };
        proof {
            assert(bag.taken() =~= metadata_set_names().subrange(0, 11));
            crate::codec::lemma_take_fresh(metadata_set_names(), 11, bag.taken());
        }
        let valid_from = match get_opt_string(bag.take("validFrom"), "validFrom") {
            Ok(x) => x,
            Err(e) => { return Err(e) },
        };
        proof {
            assert(bag.taken() =~= metadata_set_names().subrange(0, 12));
            crate::codec::lemma_take_fresh(metadata_set_names(), 12, bag.taken());
        }
        let valid_to = match get_opt_string(bag.take("validTo"), "validTo") {
            Ok(x) => x,
            Err(e) => { return Err(e) },
        };
        match (&valid_from, &valid_to) {
            (Some(f), Some(t)) => {
                if !crate::fields::str_le(f.as_str(), t.as_str()) {
                    return Err(
                        ParseError::Shape("validTo".to_owned(), crate::fields::ValueKind::Window),
                    );
                }
            },
            _ => (),
        }
        proof {
            assert(bag.taken() =~= metadata_set_names().subrange(0, 13));
            crate::codec::lemma_take_fresh(metadata_set_names(), 13, bag.taken());
        }
        let annotations = match parse_opt_vec::<Annotation>(bag.take("annotations"), "annotations") {
            Ok(x) => x,
            Err(e) => { return Err(e) },
        };
        proof {
            assert(bag.taken() =~= metadata_set_names().subrange(0, 14));
            crate::codec::lemma_take_fresh(metadata_set_names(), 14, bag.taken());
        }
        let links = match parse_opt_vec::<Link>(bag.take("links"), "links") {
            Ok(x) => x,
            Err(e) => { return Err(e) },
        };
        proof {
            assert(bag.taken() =~= metadata_set_names().subrange(0, 15));
            crate::codec::lemma_take_fresh(metadata_set_names(), 15, bag.taken());
        }
        let name = match get_req_string(bag.take("name"), "name") {
            Ok(x) => x,
            Err(e) => { return Err(e) },
        };
        proof {
            assert(bag.taken() =~= metadata_set_names().subrange(0, 16));
            crate::codec::lemma_take_fresh(metadata_set_names(), 16, bag.taken());
        }
        let names = match parse_opt::<LocalizedText>(bag.take("names")) {
            Ok(x) => x,
            Err(e) => { return Err(e) },
        };
        proof {
            assert(bag.taken() =~= metadata_set_names().subrange(0, 17));
            crate::codec::lemma_take_fresh(metadata_set_names(), 17, bag.taken());
        }
        let description = match get_opt_string(bag.take("description"), "description") {
            Ok(x) => x,
            Err(e) => { return Err(e) },
        };
        proof {
            assert(bag.taken() =~= metadata_set_names().subrange(0, 18));
            crate::codec::lemma_take_fresh(metadata_set_names(), 18, bag.taken());
        }
        let descriptions = match parse_opt::<LocalizedText>(bag.take("descriptions")) {
            Ok(x) => x,
            Err(e) => { return Err(e) },
        };
        proof {
            assert(bag.taken() =~= metadata_set_names().subrange(0, 19));
            crate::codec::lemma_take_fresh(metadata_set_names(), 19, bag.taken());
        }
        let targets = match parse_req_vec::<String>(bag.take("targets"), "targets") {
            Ok(x) => x,
            Err(e) => { return Err(e) },
        };
        proof {
            assert(bag.taken() =~= metadata_set_names().subrange(0, 20));
            crate::codec::lemma_take_fresh(metadata_set_names(), 20, bag.taken());
        }
        let attributes = match parse_req_vec::<Attribute>(bag.take("attributes"), "attributes") {
            Ok(x) => x,
            Err(e) => { return Err(e) },
        };
        let ghost tk = bag.taken();
        let other = bag.rest();
        let out = MetadataSet { action, publication_period, publication_year, reporting_begin, reporting_year, id, agency_id, version, is_external_reference, metadataflow, metadata_provision_agreement, valid_from, valid_to, annotations, links, name, names, description, descriptions, targets, attributes, other };
        proof {
            assert(tk =~= metadata_set_names());
            crate::codec::lemma_ext_fields_names(fs, tk);
            assert(metadata_set_pairs(out) =~= metadata_set_norm_pairs(fs));
        }
        Ok(out)
    }

    fn to_json(&self) -> (r: JsonValue) {
        let mut b = ObjBuilder::new();
        put_opt_rec(&mut b, "action", &self.action);
        put_opt_str(&mut b, "publicationPeriod", &self.publication_period);
        put_opt_str(&mut b, "publicationYear", &self.publication_year);
        put_opt_str(&mut b, "reportingBegin", &self.reporting_begin);
        put_opt_str(&mut b, "reportingYear", &self.reporting_year);
        put_str(&mut b, "id", &self.id);
        put_str(&mut b, "agencyID", &self.agency_id);
        put_opt_str(&mut b, "version", &self.version);
        put_opt_bool(&mut b, "isExternalReference", &self.is_external_reference);
        put_opt_str(&mut b, "metadataflow", &self.metadataflow);
        put_opt_str(&mut b, "metadataProvisionAgreement", &self.metadata_provision_agreement);
        put_opt_str(&mut b, "validFrom", &self.valid_from);
        put_opt_str(&mut b, "validTo", &self.valid_to);
        put_opt_vec(&mut b, "annotations", &self.annotations);
        put_opt_vec(&mut b, "links", &self.links);
        put_str(&mut b, "name", &self.name);
        put_opt_rec(&mut b, "names", &self.names);
        put_opt_str(&mut b, "description", &self.description);
        put_opt_rec(&mut b, "descriptions", &self.descriptions);
        put_vec(&mut b, "targets", &self.targets);
        put_vec(&mut b, "attributes", &self.attributes);
        proof {
            let ps = metadata_set_pairs(*self);
            lemma_pairs_chain(ps, 21);
            assert(ps.subrange(0, 21) =~= ps);
            assert(b.view_fields() == present_fields(ps)) by {
                reveal_with_fuel(pairs_prefix_chunks, 22);
            }
        }
        finish_with_ext(b, &self.other)
    }

    #[verifier::rlimit(100)]
    #[verifier::spinoff_prover]
    proof fn lemma_canon(&self) {
        lemma_metadata_set_names_distinct();
        let ps = metadata_set_pairs(*self);
        let ext = self.other.view_fields();
        assert(names_of(ps) =~= metadata_set_names());
        assert(distinct_names(ps)) by {
            assert forall|i: int, j: int|
                0 <= i < j < ps.len() implies ps[i].0 != ps[j].0 by {
                assert(ps[i].0 == metadata_set_names()[i]);
                assert(ps[j].0 == metadata_set_names()[j]);
            }
        }
        assert(disjoint_from(ext, ps)) by {
            assert forall|i: int, j: int|
                0 <= i < ext.len() && 0 <= j < ps.len() implies ext[i].0 != ps[j].0 by {
                assert(!is_known_name(ext[i].0, metadata_set_names()));
                assert(metadata_set_names()[j] == ps[j].0);
            }
        }
        lemma_jv_get_present(ps, ext);
        lemma_ext_of_present(ps, ext);
        let fs = self.ser()->Obj_0;
        assert(jv_get(fs, "action"@) == ps[0].1);
        assert(jv_get(fs, "publicationPeriod"@) == ps[1].1);
        assert(jv_get(fs, "publicationYear"@) == ps[2].1);
        assert(jv_get(fs, "reportingBegin"@) == ps[3].1);
        assert(jv_get(fs, "reportingYear"@) == ps[4].1);
        assert(jv_get(fs, "id"@) == ps[5].1);
        assert(jv_get(fs, "agencyID"@) == ps[6].1);
        assert(jv_get(fs, "version"@) == ps[7].1);
        assert(jv_get(fs, "isExternalReference"@) == ps[8].1);
        assert(jv_get(fs, "metadataflow"@) == ps[9].1);
        assert(jv_get(fs, "metadataProvisionAgreement"@) == ps[10].1);
        assert(jv_get(fs, "validFrom"@) == ps[11].1);
        assert(jv_get(fs, "validTo"@) == ps[12].1);
        assert(jv_get(fs, "annotations"@) == ps[13].1);
        assert(jv_get(fs, "links"@) == ps[14].1);
        assert(jv_get(fs, "name"@) == ps[15].1);
        assert(jv_get(fs, "names"@) == ps[16].1);
        assert(jv_get(fs, "description"@) == ps[17].1);
        assert(jv_get(fs, "descriptions"@) == ps[18].1);
        assert(jv_get(fs, "targets"@) == ps[19].1);
        assert(jv_get(fs, "attributes"@) == ps[20].1);
        match self.action {
            Some(t) => {
                t.lemma_canon();
            },
            None => {},
        }
        match &self.annotations {
            Some(v) => {
                lemma_arr_canon::<Annotation>(v@);
            },
            None => {},
        }
        match &self.links {
            Some(v) => {
                lemma_arr_canon::<Link>(v@);
            },
            None => {},
        }
        match self.names {
            Some(t) => {
                t.lemma_canon();
            },
            None => {},
        }
        match self.descriptions {
            Some(t) => {
                t.lemma_canon();
            },
            None => {},
        }
        lemma_arr_canon::<String>(self.targets@);
        lemma_arr_canon::<Attribute>(self.attributes@);
        assert(Self::doc_ok(self.ser()));
        assert(metadata_set_norm_pairs(fs)[0] == ps[0]);
        assert(metadata_set_norm_pairs(fs)[1] == ps[1]);
        assert(metadata_set_norm_pairs(fs)[2] == ps[2]);
        assert(metadata_set_norm_pairs(fs)[3] == ps[3]);
        assert(metadata_set_norm_pairs(fs)[4] == ps[4]);
        assert(metadata_set_norm_pairs(fs)[5] == ps[5]);
        assert(metadata_set_norm_pairs(fs)[6] == ps[6]);
        assert(metadata_set_norm_pairs(fs)[7] == ps[7]);
        assert(metadata_set_norm_pairs(fs)[8] == ps[8]);
        assert(metadata_set_norm_pairs(fs)[9] == ps[9]);
        assert(metadata_set_norm_pairs(fs)[10] == ps[10]);
        assert(metadata_set_norm_pairs(fs)[11] == ps[11]);
        assert(metadata_set_norm_pairs(fs)[12] == ps[12]);
        assert(metadata_set_norm_pairs(fs)[13] == ps[13]);
        assert(metadata_set_norm_pairs(fs)[14] == ps[14]);
        assert(metadata_set_norm_pairs(fs)[15] == ps[15]);
        assert(metadata_set_norm_pairs(fs)[16] == ps[16]);
        assert(metadata_set_norm_pairs(fs)[17] == ps[17]);
        assert(metadata_set_norm_pairs(fs)[18] == ps[18]);
        assert(metadata_set_norm_pairs(fs)[19] == ps[19]);
        assert(metadata_set_norm_pairs(fs)[20] == ps[20]);
        assert(metadata_set_norm_pairs(fs) =~= ps);
        assert(ext_fields(fs, names_of(ps)) == ext);
        assert(ext_fields(fs, metadata_set_names()) == ext);
    }
}

/// The payload of a metadata message.
#[derive(Debug, PartialEq)]
pub struct Data {
    pub metadata_sets: Option<Vec<MetadataSet>>,
    pub other: Extensions,
}

pub open spec fn md_data_names() -> Seq<Seq<char>> {
    seq!["metadataSets"@]
}

pub open spec fn md_data_pairs(x: Data) -> Seq<(Seq<char>, Option<JVal>)> {
    seq![
        ("metadataSets"@, ovec_ser(x.metadata_sets)),
    ]
}

pub open spec fn md_data_norm_pairs(fs: Seq<(Seq<char>, JVal)>) -> Seq<(Seq<char>, Option<JVal>)> {
    seq![
        ("metadataSets"@, opt_recarr_norm::<MetadataSet>(jv_get(fs, "metadataSets"@))),
    ]
}

/// The names this record knows are pairwise distinct.
pub proof fn lemma_md_data_names_distinct()
    ensures
        forall|i: int, j: int|
            0 <= i < j < md_data_names().len() ==> md_data_names()[i] != md_data_names()[j],
{
    reveal_strlit("metadataSets");
    let ns = md_data_names();
    assert(ns.len() == 1);
    assert forall|i: int, j: int| 0 <= i < j < ns.len() implies ns[i] != ns[j] by {
        assert("metadataSets"@.len() == 12);
    }
}

impl JsonForm for Data {
    open spec fn wf(&self) -> bool {
        &&& ext_ok(self.other.view_fields(), md_data_names())
        &&& ovec_wf(self.metadata_sets)
    }

    open spec fn ser(&self) -> JVal {
        JVal::Obj(present_fields(md_data_pairs(*self)) + self.other.view_fields())
    }

    open spec fn doc_ok(v: JVal) -> bool {
        &&& v is Obj
        &&& {
            let fs = v->Obj_0;
            &&& is_opt_recarr::<MetadataSet>(jv_get(fs, "metadataSets"@))
        }
    }

    open spec fn doc_norm(v: JVal) -> JVal {
        JVal::Obj(
            present_fields(md_data_norm_pairs(v->Obj_0)) + ext_fields(v->Obj_0, md_data_names()),
        )
    }

    #[verifier::rlimit(50)]
    fn from_json(v: JsonValue) -> (r: Result<Self, ParseError>) {
        let o = match v {
            JsonValue::Obj(o) => o,
            _ => { return Err(ParseError::NotObject) },
        };
        let ghost fs = jview_field_vec(o);
        let mut bag = FieldBag::new(o);
        proof {
            lemma_md_data_names_distinct();
        }
        proof {
            assert(bag.taken() =~= md_data_names().subrange(0, 0));
            crate::codec::lemma_take_fresh(md_data_names(), 0, bag.taken());
        }
        let metadata_sets = match parse_opt_vec::<MetadataSet>(bag.take("metadataSets"), "metadataSets") {
            Ok(x) => x,
            Err(e) => { return Err(e) },
        };
        let ghost tk = bag.taken();
        let other = bag.rest();
        let out = Data { metadata_sets, other };
        proof {
            assert(tk =~= md_data_names());
            crate::codec::lemma_ext_fields_names(fs, tk);
            assert(md_data_pairs(out) =~= md_data_norm_pairs(fs));
        }
        Ok(out)
    }

    fn to_json(&self) -> (r: JsonValue) {
        let mut b = ObjBuilder::new();
        put_opt_vec(&mut b, "metadataSets", &self.metadata_sets);
        proof {
            let ps = md_data_pairs(*self);
            lemma_pairs_chain(ps, 1);
            assert(ps.subrange(0, 1) =~= ps);
            assert(b.view_fields() == present_fields(ps)) by {
                reveal_with_fuel(pairs_prefix_chunks, 2);
            }
        }
        finish_with_ext(b, &self.other)
    }

    #[verifier::rlimit(50)]
    #[verifier::spinoff_prover]
    proof fn lemma_canon(&self) {
        lemma_md_data_names_distinct();
        let ps = md_data_pairs(*self);
        let ext = self.other.view_fields();
        assert(names_of(ps) =~= md_data_names());
        assert(distinct_names(ps)) by {
            assert forall|i: int, j: int|
                0 <= i < j < ps.len() implies ps[i].0 != ps[j].0 by {
                assert(ps[i].0 == md_data_names()[i]);
                assert(ps[j].0 == md_data_names()[j]);
            }
        }
        assert(disjoint_from(ext, ps)) by {
            assert forall|i: int, j: int|
                0 <= i < ext.len() && 0 <= j < ps.len() implies ext[i].0 != ps[j].0 by {
                assert(!is_known_name(ext[i].0, md_data_names()));
                assert(md_data_names()[j] == ps[j].0);
            }
        }
        lemma_jv_get_present(ps, ext);
        lemma_ext_of_present(ps, ext);
        let fs = self.ser()->Obj_0;
        assert(jv_get(fs, "metadataSets"@) == ps[0].1);
        match &self.metadata_sets {
            Some(v) => {
                lemma_arr_canon::<MetadataSet>(v@);
            },
            None => {},
        }
        assert(Self::doc_ok(self.ser()));
        assert(md_data_norm_pairs(fs) =~= ps);
        assert(ext_fields(fs, names_of(ps)) == ext);
        assert(ext_fields(fs, md_data_names()) == ext);
    }
}

/// The top-level shape of a metadata message document.
#[derive(Debug, PartialEq)]
pub struct MetadataMessage {
    pub meta: Option<Meta>,
    pub data: Option<Data>,
    pub errors: Option<Vec<StatusMessage>>,
    pub other: Extensions,
}

pub open spec fn metadata_message_names() -> Seq<Seq<char>> {
    seq!["meta"@, "data"@, "errors"@]
}

pub open spec fn metadata_message_pairs(x: MetadataMessage) -> Seq<(Seq<char>, Option<JVal>)> {
    seq![
        ("meta"@, orec_ser(x.meta)),
        ("data"@, orec_ser(x.data)),
        ("errors"@, ovec_ser(x.errors)),
    ]
}

pub open spec fn metadata_message_norm_pairs(fs: Seq<(Seq<char>, JVal)>) -> Seq<(Seq<char>, Option<JVal>)> {
    seq![
        ("meta"@, opt_rec_norm::<Meta>(jv_get(fs, "meta"@))),
        ("data"@, opt_rec_norm::<Data>(jv_get(fs, "data"@))),
        ("errors"@, opt_recarr_norm::<StatusMessage>(jv_get(fs, "errors"@))),
    ]
}

/// The names this record knows are pairwise distinct.
pub proof fn lemma_metadata_message_names_distinct()
    ensures
        forall|i: int, j: int|
            0 <= i < j < metadata_message_names().len() ==> metadata_message_names()[i] != metadata_message_names()[j],
{
    reveal_strlit("meta");
    reveal_strlit("data");
    reveal_strlit("errors");
    let ns = metadata_message_names();
    assert(ns.len() == 3);
    assert forall|i: int, j: int| 0 <= i < j < ns.len() implies ns[i] != ns[j] by {
        assert("meta"@.len() == 4);
        assert("data"@.len() == 4);
        assert("errors"@.len() == 6);
        assert("meta"@[0] == 'm');
        assert("data"@[0] == 'd');
    }
}

impl JsonForm for MetadataMessage {
    open spec fn wf(&self) -> bool {
        &&& ext_ok(self.other.view_fields(), metadata_message_names())
        &&& orec_wf(self.meta)
        &&& orec_wf(self.data)
        &&& ovec_wf(self.errors)
    }

    open spec fn ser(&self) -> JVal {
        JVal::Obj(present_fields(metadata_message_pairs(*self)) + self.other.view_fields())
    }

    open spec fn doc_ok(v: JVal) -> bool {
        &&& v is Obj
        &&& {
            let fs = v->Obj_0;
            &&& is_opt_rec::<Meta>(jv_get(fs, "meta"@))
            &&& is_opt_rec::<Data>(jv_get(fs, "data"@))
            &&& is_opt_recarr::<StatusMessage>(jv_get(fs, "errors"@))
        }
    }

    open spec fn doc_norm(v: JVal) -> JVal {
        JVal::Obj(
            present_fields(metadata_message_norm_pairs(v->Obj_0)) + ext_fields(v->Obj_0, metadata_message_names()),
        )
    }

    #[verifier::rlimit(50)]
    fn from_json(v: JsonValue) -> (r: Result<Self, ParseError>) {
        let o = match v {
            JsonValue::Obj(o) => o,
            _ => { return Err(ParseError::NotObject) },
        };
        let ghost fs = jview_field_vec(o);
        let mut bag = FieldBag::new(o);
        proof {
            lemma_metadata_message_names_distinct();
        }
        proof {
            assert(bag.taken() =~= metadata_message_names().subrange(0, 0));
            crate::codec::lemma_take_fresh(metadata_message_names(), 0, bag.taken());
        }
        let meta = match parse_opt::<Meta>(bag.take("meta")) {
            Ok(x) => x,
            Err(e) => { return Err(e) },
        };
        proof {
            assert(bag.taken() =~= metadata_message_names().subrange(0, 1));
            crate::codec::lemma_take_fresh(metadata_message_names(), 1, bag.taken());
        }
        let data = match parse_opt::<Data>(bag.take("data")) {
            Ok(x) => x,
            Err(e) => { return Err(e) },
        };
        proof {
            assert(bag.taken() =~= metadata_message_names().subrange(0, 2));
            crate::codec::lemma_take_fresh(metadata_message_names(), 2, bag.taken());
        }
        let errors = match parse_opt_vec::<StatusMessage>(bag.take("errors"), "errors") {
            Ok(x) => x,
            Err(e) => { return Err(e) },
        };
        let ghost tk = bag.taken();
        let other = bag.rest();
        let out = MetadataMessage { meta, data, errors, other };
        proof {
            assert(tk =~= metadata_message_names());
            crate::codec::lemma_ext_fields_names(fs, tk);
            assert(metadata_message_pairs(out) =~= metadata_message_norm_pairs(fs));
        }
        Ok(out)
    }

    fn to_json(&self) -> (r: JsonValue) {
        let mut b = ObjBuilder::new();
        put_opt_rec(&mut b, "meta", &self.meta);
        put_opt_rec(&mut b, "data", &self.data);
        put_opt_vec(&mut b, "errors", &self.errors);
        proof {
            let ps = metadata_message_pairs(*self);
            lemma_pairs_chain(ps, 3);
            assert(ps.subrange(0, 3) =~= ps);
            assert(b.view_fields() == present_fields(ps)) by {
                reveal_with_fuel(pairs_prefix_chunks, 4);
            }
        }
        finish_with_ext(b, &self.other)
    }

    #[verifier::rlimit(50)]
    #[verifier::spinoff_prover]
    proof fn lemma_canon(&self) {
        lemma_metadata_message_names_distinct();
        let ps = metadata_message_pairs(*self);
        let ext = self.other.view_fields();
        assert(names_of(ps) =~= metadata_message_names());
        assert(distinct_names(ps)) by {
            assert forall|i: int, j: int|
                0 <= i < j < ps.len() implies ps[i].0 != ps[j].0 by {
                assert(ps[i].0 == metadata_message_names()[i]);
                assert(ps[j].0 == metadata_message_names()[j]);
            }
        }
        assert(disjoint_from(ext, ps)) by {
            assert forall|i: int, j: int|
                0 <= i < ext.len() && 0 <= j < ps.len() implies ext[i].0 != ps[j].0 by {
                assert(!is_known_name(ext[i].0, metadata_message_names()));
                assert(metadata_message_names()[j] == ps[j].0);
            }
        }
        lemma_jv_get_present(ps, ext);
        lemma_ext_of_present(ps, ext);
        let fs = self.ser()->Obj_0;
        assert(jv_get(fs, "meta"@) == ps[0].1);
        assert(jv_get(fs, "data"@) == ps[1].1);
        assert(jv_get(fs, "errors"@) == ps[2].1);
        match self.meta {
            Some(t) => {
                t.lemma_canon();
            },
            None => {},
        }
        match self.data {
            Some(t) => {
                t.lemma_canon();
            },
            None => {},
        }
        match &self.errors {
            Some(v) => {
                lemma_arr_canon::<StatusMessage>(v@);
            },
            None => {},
        }
        assert(Self::doc_ok(self.ser()));
        assert(metadata_message_norm_pairs(fs) =~= ps);
        assert(ext_fields(fs, names_of(ps)) == ext);
        assert(ext_fields(fs, metadata_message_names()) == ext);
    }
}

impl crate::primitives::SdmxMessage for MetadataMessage {
    type Header = Meta;

    type Payload = Data;

    open spec fn meta_spec(&self) -> Option<Meta> {
        self.meta
    }

    open spec fn data_spec(&self) -> Option<Data> {
        self.data
    }

    open spec fn errors_spec(&self) -> Option<Seq<StatusMessage>> {
        match self.errors {
            Some(v) => Some(v@),
            None => None,
        }
    }

    fn meta(&self) -> (r: Option<&Meta>) {
        self.meta.as_ref()
    }

    fn data(&self) -> (r: Option<&Data>) {
        self.data.as_ref()
    }

    fn errors(&self) -> (r: Option<&Vec<StatusMessage>>) {
        self.errors.as_ref()
    }
}

} // verus!
