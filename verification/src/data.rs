//! The data message: structural metadata for interpreting the data and the
//! datasets themselves.

use vstd::prelude::*;

use crate::codec::{
    JsonForm, chunk, disjoint_from, distinct_names, ext_ok, finish_with_ext, is_opt_rec,
    is_opt_recarr, is_req_rec, is_req_recarr, lemma_arr_canon, lemma_ext_of_present,
    lemma_jv_get_present, names_of, opt_rec_norm, opt_recarr_norm, orec_ser, orec_wf, ovec_ser,
    ovec_wf, parse_opt, parse_opt_vec, parse_req, parse_req_vec, present_fields, put_opt_bool,
    put_opt_isize, put_opt_rec, put_opt_str, put_opt_usize, put_opt_vec, put_rec, put_str,
    put_usize, put_vec, req_rec_norm, seq_ser, seq_wf, vec_ser,
};
use crate::fields::{
    Extensions, FieldBag, ObjBuilder, ParseError, get_opt_bool, get_opt_isize, get_opt_string,
    get_opt_usize, get_req_bool, get_req_string, get_req_usize,
};
use crate::json::{
    JVal, JsonValue, ext_fields, is_known_name, is_opt_bool, is_opt_isize, is_opt_str,
    is_opt_usize, is_req_bool, is_req_str, is_req_usize, jv_get, jv_of_obool, jv_of_oint,
    jv_of_ostr, jview, jview_field_vec, oisize_view, opt_bool, opt_int, opt_str, ostr_view,
    ousize_view,
};
use crate::primitives::{
    Action, Annotation, DataType, Link, LocalizedText, Meta, NumberOrString, SdmxObject,
    SdmxValue, StatusMessage, lemma_pairs_chain, pairs_prefix_chunks,
};
use crate::structure::AttributeRelationship;

verus! {


/// The representation for a component of a data message.
#[derive(Debug, PartialEq)]
pub struct Format {
    pub min_occurs: Option<usize>,
    pub max_occurs: Option<usize>,
    pub data_type: Option<DataType>,
    pub is_sequence: Option<bool>,
    pub interval: Option<String>,
    pub start_time: Option<String>,
    pub end_time: Option<String>,
    pub min_length: Option<usize>,
    pub max_length: Option<usize>,
    pub min_value: Option<isize>,
    pub max_value: Option<isize>,
    pub decimals: Option<usize>,
    pub is_multilingual: Option<bool>,
    pub sentinel_values: Option<Vec<NumberOrString>>,
    pub other: Extensions,
}

pub open spec fn data_format_names() -> Seq<Seq<char>> {
    seq!["minOccurs"@, "maxOccurs"@, "dataType"@, "isSequence"@, "interval"@, "startTime"@, "endTime"@, "minLength"@, "maxLength"@, "minValue"@, "maxValue"@, "decimals"@, "isMultilingual"@, "sentinelValues"@]
}

pub open spec fn data_format_pairs(x: Format) -> Seq<(Seq<char>, Option<JVal>)> {
    seq![
        ("minOccurs"@, jv_of_oint(ousize_view(x.min_occurs))),
        ("maxOccurs"@, jv_of_oint(ousize_view(x.max_occurs))),
        ("dataType"@, orec_ser(x.data_type)),
        ("isSequence"@, jv_of_obool(x.is_sequence)),
        ("interval"@, jv_of_ostr(ostr_view(x.interval))),
        ("startTime"@, jv_of_ostr(ostr_view(x.start_time))),
        ("endTime"@, jv_of_ostr(ostr_view(x.end_time))),
        ("minLength"@, jv_of_oint(ousize_view(x.min_length))),
        ("maxLength"@, jv_of_oint(ousize_view(x.max_length))),
        ("minValue"@, jv_of_oint(oisize_view(x.min_value))),
        ("maxValue"@, jv_of_oint(oisize_view(x.max_value))),
        ("decimals"@, jv_of_oint(ousize_view(x.decimals))),
        ("isMultilingual"@, jv_of_obool(x.is_multilingual)),
        ("sentinelValues"@, ovec_ser(x.sentinel_values)),
    ]
}

pub open spec fn data_format_norm_pairs(fs: Seq<(Seq<char>, JVal)>) -> Seq<(Seq<char>, Option<JVal>)> {
    seq![
        ("minOccurs"@, jv_of_oint(opt_int(jv_get(fs, "minOccurs"@)))),
        ("maxOccurs"@, jv_of_oint(opt_int(jv_get(fs, "maxOccurs"@)))),
        ("dataType"@, opt_rec_norm::<DataType>(jv_get(fs, "dataType"@))),
        ("isSequence"@, jv_of_obool(opt_bool(jv_get(fs, "isSequence"@)))),
        ("interval"@, jv_of_ostr(opt_str(jv_get(fs, "interval"@)))),
        ("startTime"@, jv_of_ostr(opt_str(jv_get(fs, "startTime"@)))),
        ("endTime"@, jv_of_ostr(opt_str(jv_get(fs, "endTime"@)))),
        ("minLength"@, jv_of_oint(opt_int(jv_get(fs, "minLength"@)))),
        ("maxLength"@, jv_of_oint(opt_int(jv_get(fs, "maxLength"@)))),
        ("minValue"@, jv_of_oint(opt_int(jv_get(fs, "minValue"@)))),
        ("maxValue"@, jv_of_oint(opt_int(jv_get(fs, "maxValue"@)))),
        ("decimals"@, jv_of_oint(opt_int(jv_get(fs, "decimals"@)))),
        ("isMultilingual"@, jv_of_obool(opt_bool(jv_get(fs, "isMultilingual"@)))),
        ("sentinelValues"@, opt_recarr_norm::<NumberOrString>(jv_get(fs, "sentinelValues"@))),
    ]
}

/// The names this record knows are pairwise distinct.
pub proof fn lemma_data_format_names_distinct()
    ensures
        forall|i: int, j: int|
            0 <= i < j < data_format_names().len() ==> data_format_names()[i] != data_format_names()[j],
{
    reveal_strlit("minOccurs");
    reveal_strlit("maxOccurs");
    reveal_strlit("dataType");
    reveal_strlit("isSequence");
    reveal_strlit("interval");
    reveal_strlit("startTime");
    reveal_strlit("endTime");
    reveal_strlit("minLength");
    reveal_strlit("maxLength");
    reveal_strlit("minValue");
    reveal_strlit("maxValue");
    reveal_strlit("decimals");
    reveal_strlit("isMultilingual");
    reveal_strlit("sentinelValues");
    let ns = data_format_names();
    assert(ns.len() == 14);
    assert forall|i: int, j: int| 0 <= i < j < ns.len() implies ns[i] != ns[j] by {
        assert("minOccurs"@.len() == 9);
        assert("maxOccurs"@.len() == 9);
        assert("dataType"@.len() == 8);
        assert("isSequence"@.len() == 10);
        assert("interval"@.len() == 8);
        assert("startTime"@.len() == 9);
        assert("endTime"@.len() == 7);
        assert("minLength"@.len() == 9);
        assert("maxLength"@.len() == 9);
        assert("minValue"@.len() == 8);
        assert("maxValue"@.len() == 8);
        assert("decimals"@.len() == 8);
        assert("isMultilingual"@.len() == 14);
        assert("sentinelValues"@.len() == 14);
        assert("minOccurs"@[1] == 'i');
        assert("maxOccurs"@[1] == 'a');
        assert("minOccurs"@[0] == 'm');
        assert("startTime"@[0] == 's');
        assert("minOccurs"@[3] == 'O');
        assert("minLength"@[3] == 'L');
        assert("maxLength"@[1] == 'a');
        assert("maxOccurs"@[0] == 'm');
        assert("minLength"@[1] == 'i');
        assert("maxOccurs"@[3] == 'O');
        assert("maxLength"@[3] == 'L');
        assert("dataType"@[0] == 'd');
        assert("interval"@[0] == 'i');
        assert("minValue"@[0] == 'm');
        assert("maxValue"@[0] == 'm');
        assert("dataType"@[1] == 'a');
        assert("decimals"@[1] == 'e');
        assert("decimals"@[0] == 'd');
        assert("minLength"@[0] == 'm');
        assert("maxLength"@[0] == 'm');
        assert("minValue"@[1] == 'i');
        assert("maxValue"@[1] == 'a');
        assert("isMultilingual"@[0] == 'i');
        assert("sentinelValues"@[0] == 's');
    }
}

impl JsonForm for Format {
    open spec fn wf(&self) -> bool {
        &&& ext_ok(self.other.view_fields(), data_format_names())
        &&& orec_wf(self.data_type)
        &&& ovec_wf(self.sentinel_values)
    }

    open spec fn ser(&self) -> JVal {
        JVal::Obj(present_fields(data_format_pairs(*self)) + self.other.view_fields())
    }

    open spec fn doc_ok(v: JVal) -> bool {
        &&& v is Obj
        &&& {
            let fs = v->Obj_0;
            &&& is_opt_usize(jv_get(fs, "minOccurs"@))
            &&& is_opt_usize(jv_get(fs, "maxOccurs"@))
            &&& is_opt_rec::<DataType>(jv_get(fs, "dataType"@))
            &&& is_opt_bool(jv_get(fs, "isSequence"@))
            &&& is_opt_str(jv_get(fs, "interval"@))
            &&& is_opt_str(jv_get(fs, "startTime"@))
            &&& is_opt_str(jv_get(fs, "endTime"@))
            &&& is_opt_usize(jv_get(fs, "minLength"@))
            &&& is_opt_usize(jv_get(fs, "maxLength"@))
            &&& is_opt_isize(jv_get(fs, "minValue"@))
            &&& is_opt_isize(jv_get(fs, "maxValue"@))
            &&& is_opt_usize(jv_get(fs, "decimals"@))
            &&& is_opt_bool(jv_get(fs, "isMultilingual"@))
            &&& is_opt_recarr::<NumberOrString>(jv_get(fs, "sentinelValues"@))
        }
    }

    open spec fn doc_norm(v: JVal) -> JVal {
        JVal::Obj(
            present_fields(data_format_norm_pairs(v->Obj_0)) + ext_fields(v->Obj_0, data_format_names()),
        )
    }

    #[verifier::rlimit(50)]
    fn from_json(v: JsonValue) -> (r: Result<Self, ParseError>) {
        let o = match v {
            JsonValue::Obj(o) => o,
            _ => { return Err(ParseError::NotObject) },
        };
        let ghost fs = jview_field_vec(o);
        let mut bag = FieldBag::new(o);
        proof {
            lemma_data_format_names_distinct();
        }
        proof {
            assert(bag.taken() =~= data_format_names().subrange(0, 0));
            crate::codec::lemma_take_fresh(data_format_names(), 0, bag.taken());
        }
        let min_occurs = match get_opt_usize(bag.take("minOccurs"), "minOccurs") {
            Ok(x) => x,
            Err(e) => { return Err(e) },
        };
        proof {
            assert(bag.taken() =~= data_format_names().subrange(0, 1));
            crate::codec::lemma_take_fresh(data_format_names(), 1, bag.taken());
        }
        let max_occurs = match get_opt_usize(bag.take("maxOccurs"), "maxOccurs") {
            Ok(x) => x,
            Err(e) => { return Err(e) },
        };
        proof {
            assert(bag.taken() =~= data_format_names().subrange(0, 2));
            crate::codec::lemma_take_fresh(data_format_names(), 2, bag.taken());
        }
        let data_type = match parse_opt::<DataType>(bag.take("dataType")) {
            Ok(x) => x,
            Err(e) => { return Err(e) },
        };
        proof {
            assert(bag.taken() =~= data_format_names().subrange(0, 3));
            crate::codec::lemma_take_fresh(data_format_names(), 3, bag.taken());
        }
        let is_sequence = match get_opt_bool(bag.take("isSequence"), "isSequence") {
            Ok(x) => x,
            Err(e) => { return Err(e) },
        };
        proof {
            assert(bag.taken() =~= data_format_names().subrange(0, 4));
            crate::codec::lemma_take_fresh(data_format_names(), 4, bag.taken());
        }
        let interval = match get_opt_string(bag.take("interval"), "interval") {
            Ok(x) => x,
            Err(e) => { return Err(e) },
        };
        proof {
            assert(bag.taken() =~= data_format_names().subrange(0, 5));
            crate::codec::lemma_take_fresh(data_format_names(), 5, bag.taken());
        }
        let start_time = match get_opt_string(bag.take("startTime"), "startTime") {
            Ok(x) => x,
            Err(e) => { return Err(e) },
        };
        proof {
            assert(bag.taken() =~= data_format_names().subrange(0, 6));
            crate::codec::lemma_take_fresh(data_format_names(), 6, bag.taken());
        }
        let end_time = match get_opt_string(bag.take("endTime"), "endTime") {
            Ok(x) => x,
            Err(e) => { return Err(e) },
        };
        proof {
            assert(bag.taken() =~= data_format_names().subrange(0, 7));
            crate::codec::lemma_take_fresh(data_format_names(), 7, bag.taken());
        }
        let min_length = match get_opt_usize(bag.take("minLength"), "minLength") {
            Ok(x) => x,
            Err(e) => { return Err(e) },
        };
        proof {
            assert(bag.taken() =~= data_format_names().subrange(0, 8));
            crate::codec::lemma_take_fresh(data_format_names(), 8, bag.taken());
        }
        let max_length = match get_opt_usize(bag.take("maxLength"), "maxLength") {
            Ok(x) => x,
            Err(e) => { return Err(e) },
        };
        proof {
            assert(bag.taken() =~= data_format_names().subrange(0, 9));
            crate::codec::lemma_take_fresh(data_format_names(), 9, bag.taken());
        }
        let min_value = match get_opt_isize(bag.take("minValue"), "minValue") {
            Ok(x) => x,
            Err(e) => { return Err(e) },
        };
        proof {
            assert(bag.taken() =~= data_format_names().subrange(0, 10));
            crate::codec::lemma_take_fresh(data_format_names(), 10, bag.taken());
        }
        let max_value = match get_opt_isize(bag.take("maxValue"), "maxValue") {
            Ok(x) => x,
            Err(e) => { return Err(e) },
        };
        proof {
            assert(bag.taken() =~= data_format_names().subrange(0, 11));
            crate::codec::lemma_take_fresh(data_format_names(), 11, bag.taken());
        }
        let decimals = match get_opt_usize(bag.take("decimals"), "decimals") {
            Ok(x) => x,
            Err(e) => { return Err(e) },
        };
        proof {
            assert(bag.taken() =~= data_format_names().subrange(0, 12));
            crate::codec::lemma_take_fresh(data_format_names(), 12, bag.taken());
        }
        let is_multilingual = match get_opt_bool(bag.take("isMultilingual"), "isMultilingual") {
            Ok(x) => x,
            Err(e) => { return Err(e) },
        };
        proof {
            assert(bag.taken() =~= data_format_names().subrange(0, 13));
            crate::codec::lemma_take_fresh(data_format_names(), 13, bag.taken());
        }
        let sentinel_values = match parse_opt_vec::<NumberOrString>(bag.take("sentinelValues"), "sentinelValues") {
            Ok(x) => x,
            Err(e) => { return Err(e) },
        };
        let ghost tk = bag.taken();
        let other = bag.rest();
        let out = Format { min_occurs, max_occurs, data_type, is_sequence, interval, start_time, end_time, min_length, max_length, min_value, max_value, decimals, is_multilingual, sentinel_values, other };
        proof {
            assert(tk =~= data_format_names());
            crate::codec::lemma_ext_fields_names(fs, tk);
            assert(data_format_pairs(out) =~= data_format_norm_pairs(fs));
        }
        Ok(out)
    }

    fn to_json(&self) -> (r: JsonValue) {
        let mut b = ObjBuilder::new();
        put_opt_usize(&mut b, "minOccurs", &self.min_occurs);
        put_opt_usize(&mut b, "maxOccurs", &self.max_occurs);
        put_opt_rec(&mut b, "dataType", &self.data_type);
        put_opt_bool(&mut b, "isSequence", &self.is_sequence);
        put_opt_str(&mut b, "interval", &self.interval);
        put_opt_str(&mut b, "startTime", &self.start_time);
        put_opt_str(&mut b, "endTime", &self.end_time);
        put_opt_usize(&mut b, "minLength", &self.min_length);
        put_opt_usize(&mut b, "maxLength", &self.max_length);
        put_opt_isize(&mut b, "minValue", &self.min_value);
        put_opt_isize(&mut b, "maxValue", &self.max_value);
        put_opt_usize(&mut b, "decimals", &self.decimals);
        put_opt_bool(&mut b, "isMultilingual", &self.is_multilingual);
        put_opt_vec(&mut b, "sentinelValues", &self.sentinel_values);
        proof {
            let ps = data_format_pairs(*self);
            lemma_pairs_chain(ps, 14);
            assert(ps.subrange(0, 14) =~= ps);
            assert(b.view_fields() == present_fields(ps)) by {
                reveal_with_fuel(pairs_prefix_chunks, 15);
            }
        }
        finish_with_ext(b, &self.other)
    }

    #[verifier::rlimit(50)]
    #[verifier::spinoff_prover]
    proof fn lemma_canon(&self) {
        lemma_data_format_names_distinct();
        let ps = data_format_pairs(*self);
        let ext = self.other.view_fields();
        assert(names_of(ps) =~= data_format_names());
        assert(distinct_names(ps)) by {
            assert forall|i: int, j: int|
                0 <= i < j < ps.len() implies ps[i].0 != ps[j].0 by {
                assert(ps[i].0 == data_format_names()[i]);
                assert(ps[j].0 == data_format_names()[j]);
            }
        }
        assert(disjoint_from(ext, ps)) by {
            assert forall|i: int, j: int|
                0 <= i < ext.len() && 0 <= j < ps.len() implies ext[i].0 != ps[j].0 by {
                assert(!is_known_name(ext[i].0, data_format_names()));
                assert(data_format_names()[j] == ps[j].0);
            }
        }
        lemma_jv_get_present(ps, ext);
        lemma_ext_of_present(ps, ext);
        let fs = self.ser()->Obj_0;
        assert(jv_get(fs, "minOccurs"@) == ps[0].1);
        assert(jv_get(fs, "maxOccurs"@) == ps[1].1);
        assert(jv_get(fs, "dataType"@) == ps[2].1);
        assert(jv_get(fs, "isSequence"@) == ps[3].1);
        assert(jv_get(fs, "interval"@) == ps[4].1);
        assert(jv_get(fs, "startTime"@) == ps[5].1);
        assert(jv_get(fs, "endTime"@) == ps[6].1);
        assert(jv_get(fs, "minLength"@) == ps[7].1);
        assert(jv_get(fs, "maxLength"@) == ps[8].1);
        assert(jv_get(fs, "minValue"@) == ps[9].1);
        assert(jv_get(fs, "maxValue"@) == ps[10].1);
        assert(jv_get(fs, "decimals"@) == ps[11].1);
        assert(jv_get(fs, "isMultilingual"@) == ps[12].1);
        assert(jv_get(fs, "sentinelValues"@) == ps[13].1);
        match self.data_type {
            Some(t) => {
                t.lemma_canon();
            },
            None => {},
        }
        match &self.sentinel_values {
            Some(v) => {
                lemma_arr_canon::<NumberOrString>(v@);
            },
            None => {},
        }
        assert(Self::doc_ok(self.ser()));
        assert(data_format_norm_pairs(fs) =~= ps);
        assert(ext_fields(fs, names_of(ps)) == ext);
        assert(ext_fields(fs, data_format_names()) == ext);
    }
}

/// A particular value for a component in a data message.
#[derive(Debug, PartialEq)]
pub struct ComponentValue {
    pub id: String,
    pub name: Option<String>,
    pub names: Option<LocalizedText>,
    pub values: Option<Vec<SdmxValue>>,
    pub description: Option<String>,
    pub descriptions: Option<LocalizedText>,
    pub start: Option<String>,
    pub end: Option<String>,
    pub parent: Option<String>,
    pub order: Option<isize>,
    pub links: Option<Vec<Link>>,
    pub annotations: Option<Vec<usize>>,
    pub other: Extensions,
}

pub open spec fn component_value_names() -> Seq<Seq<char>> {
    seq!["id"@, "name"@, "names"@, "values"@, "description"@, "descriptions"@, "start"@, "end"@, "parent"@, "order"@, "links"@, "annotations"@]
}

pub open spec fn component_value_pairs(x: ComponentValue) -> Seq<(Seq<char>, Option<JVal>)> {
    seq![
        ("id"@, Some(JVal::Str(x.id@))),
        ("name"@, jv_of_ostr(ostr_view(x.name))),
        ("names"@, orec_ser(x.names)),
        ("values"@, ovec_ser(x.values)),
        ("description"@, jv_of_ostr(ostr_view(x.description))),
        ("descriptions"@, orec_ser(x.descriptions)),
        ("start"@, jv_of_ostr(ostr_view(x.start))),
        ("end"@, jv_of_ostr(ostr_view(x.end))),
        ("parent"@, jv_of_ostr(ostr_view(x.parent))),
        ("order"@, jv_of_oint(oisize_view(x.order))),
        ("links"@, ovec_ser(x.links)),
        ("annotations"@, ovec_ser(x.annotations)),
    ]
}

pub open spec fn component_value_norm_pairs(fs: Seq<(Seq<char>, JVal)>) -> Seq<(Seq<char>, Option<JVal>)> {
    seq![
        ("id"@, jv_of_ostr(opt_str(jv_get(fs, "id"@)))),
        ("name"@, jv_of_ostr(opt_str(jv_get(fs, "name"@)))),
        ("names"@, opt_rec_norm::<LocalizedText>(jv_get(fs, "names"@))),
        ("values"@, opt_recarr_norm::<SdmxValue>(jv_get(fs, "values"@))),
        ("description"@, jv_of_ostr(opt_str(jv_get(fs, "description"@)))),
        ("descriptions"@, opt_rec_norm::<LocalizedText>(jv_get(fs, "descriptions"@))),
        ("start"@, jv_of_ostr(opt_str(jv_get(fs, "start"@)))),
        ("end"@, jv_of_ostr(opt_str(jv_get(fs, "end"@)))),
        ("parent"@, jv_of_ostr(opt_str(jv_get(fs, "parent"@)))),
        ("order"@, jv_of_oint(opt_int(jv_get(fs, "order"@)))),
        ("links"@, opt_recarr_norm::<Link>(jv_get(fs, "links"@))),
        ("annotations"@, opt_recarr_norm::<usize>(jv_get(fs, "annotations"@))),
    ]
}

/// The names this record knows are pairwise distinct.
pub proof fn lemma_component_value_names_distinct()
    ensures
        forall|i: int, j: int|
            0 <= i < j < component_value_names().len() ==> component_value_names()[i] != component_value_names()[j],
{
    reveal_strlit("id");
    reveal_strlit("name");
    reveal_strlit("names");
    reveal_strlit("values");
    reveal_strlit("description");
    reveal_strlit("descriptions");
    reveal_strlit("start");
    reveal_strlit("end");
    reveal_strlit("parent");
    reveal_strlit("order");
    reveal_strlit("links");
    reveal_strlit("annotations");
    let ns = component_value_names();
    assert(ns.len() == 12);
    assert forall|i: int, j: int| 0 <= i < j < ns.len() implies ns[i] != ns[j] by {
        assert("id"@.len() == 2);
        assert("name"@.len() == 4);
        assert("names"@.len() == 5);
        assert("values"@.len() == 6);
        assert("description"@.len() == 11);
        assert("descriptions"@.len() == 12);
        assert("start"@.len() == 5);
        assert("end"@.len() == 3);
        assert("parent"@.len() == 6);
        assert("order"@.len() == 5);
        assert("links"@.len() == 5);
        assert("annotations"@.len() == 11);
        assert("names"@[0] == 'n');
        assert("start"@[0] == 's');
        assert("order"@[0] == 'o');
        assert("links"@[0] == 'l');
        assert("values"@[0] == 'v');
        assert("parent"@[0] == 'p');
        assert("description"@[0] == 'd');
        assert("annotations"@[0] == 'a');
    }
}

impl JsonForm for ComponentValue {
    open spec fn wf(&self) -> bool {
        &&& ext_ok(self.other.view_fields(), component_value_names())
        &&& orec_wf(self.names)
        &&& ovec_wf(self.values)
        &&& orec_wf(self.descriptions)
        &&& ovec_wf(self.links)
        &&& ovec_wf(self.annotations)
    }

    open spec fn ser(&self) -> JVal {
        JVal::Obj(present_fields(component_value_pairs(*self)) + self.other.view_fields())
    }

    open spec fn doc_ok(v: JVal) -> bool {
        &&& v is Obj
        &&& {
            let fs = v->Obj_0;
            &&& is_req_str(jv_get(fs, "id"@))
            &&& is_opt_str(jv_get(fs, "name"@))
            &&& is_opt_rec::<LocalizedText>(jv_get(fs, "names"@))
            &&& is_opt_recarr::<SdmxValue>(jv_get(fs, "values"@))
            &&& is_opt_str(jv_get(fs, "description"@))
            &&& is_opt_rec::<LocalizedText>(jv_get(fs, "descriptions"@))
            &&& is_opt_str(jv_get(fs, "start"@))
            &&& is_opt_str(jv_get(fs, "end"@))
            &&& is_opt_str(jv_get(fs, "parent"@))
            &&& is_opt_isize(jv_get(fs, "order"@))
            &&& is_opt_recarr::<Link>(jv_get(fs, "links"@))
            &&& is_opt_recarr::<usize>(jv_get(fs, "annotations"@))
        }
    }

    open spec fn doc_norm(v: JVal) -> JVal {
        JVal::Obj(
            present_fields(component_value_norm_pairs(v->Obj_0)) + ext_fields(v->Obj_0, component_value_names()),
        )
    }

    #[verifier::rlimit(50)]
    fn from_json(v: JsonValue) -> (r: Result<Self, ParseError>) {
        let o = match v {
            JsonValue::Obj(o) => o,
            _ => { return Err(ParseError::NotObject) },
        };
        let ghost fs = jview_field_vec(o);
        let mut bag = FieldBag::new(o);
        proof {
            lemma_component_value_names_distinct();
        }
        proof {
            assert(bag.taken() =~= component_value_names().subrange(0, 0));
            crate::codec::lemma_take_fresh(component_value_names(), 0, bag.taken());
        }
        let id = match get_req_string(bag.take("id"), "id") {
            Ok(x) => x,
            Err(e) => { return Err(e) },
        };
        proof {
            assert(bag.taken() =~= component_value_names().subrange(0, 1));
            crate::codec::lemma_take_fresh(component_value_names(), 1, bag.taken());
        }
        let name = match get_opt_string(bag.take("name"), "name") {
            Ok(x) => x,
            Err(e) => { return Err(e) },
        };
        proof {
            assert(bag.taken() =~= component_value_names().subrange(0, 2));
            crate::codec::lemma_take_fresh(component_value_names(), 2, bag.taken());
        }
        let names = match parse_opt::<LocalizedText>(bag.take("names")) {
            Ok(x) => x,
            Err(e) => { return Err(e) },
        };
        proof {
            assert(bag.taken() =~= component_value_names().subrange(0, 3));
            crate::codec::lemma_take_fresh(component_value_names(), 3, bag.taken());
        }
        let values = match parse_opt_vec::<SdmxValue>(bag.take("values"), "values") {
            Ok(x) => x,
            Err(e) => { return Err(e) },
        };
        proof {
            assert(bag.taken() =~= component_value_names().subrange(0, 4));
            crate::codec::lemma_take_fresh(component_value_names(), 4, bag.taken());
        }
        let description = match get_opt_string(bag.take("description"), "description") {
            Ok(x) => x,
            Err(e) => { return Err(e) },
        };
        proof {
            assert(bag.taken() =~= component_value_names().subrange(0, 5));
            crate::codec::lemma_take_fresh(component_value_names(), 5, bag.taken());
        }
        let descriptions = match parse_opt::<LocalizedText>(bag.take("descriptions")) {
            Ok(x) => x,
            Err(e) => { return Err(e) },
        };
        proof {
            assert(bag.taken() =~= component_value_names().subrange(0, 6));
            crate::codec::lemma_take_fresh(component_value_names(), 6, bag.taken());
        }
        let start = match get_opt_string(bag.take("start"), "start") {
            Ok(x) => x,
            Err(e) => { return Err(e) },
        };
        proof {
            assert(bag.taken() =~= component_value_names().subrange(0, 7));
            crate::codec::lemma_take_fresh(component_value_names(), 7, bag.taken());
        }
        let end = match get_opt_string(bag.take("end"), "end") {
            Ok(x) => x,
            Err(e) => { return Err(e) },
        };
        proof {
            assert(bag.taken() =~= component_value_names().subrange(0, 8));
            crate::codec::lemma_take_fresh(component_value_names(), 8, bag.taken());
        }
        let parent = match get_opt_string(bag.take("parent"), "parent") {
            Ok(x) => x,
            Err(e) => { return Err(e) },
        };
        proof {
            assert(bag.taken() =~= component_value_names().subrange(0, 9));
            crate::codec::lemma_take_fresh(component_value_names(), 9, bag.taken());
        }
        let order = match get_opt_isize(bag.take("order"), "order") {
            Ok(x) => x,
            Err(e) => { return Err(e) },
        };
        proof {
            assert(bag.taken() =~= component_value_names().subrange(0, 10));
            crate::codec::lemma_take_fresh(component_value_names(), 10, bag.taken());
        }
        let links = match parse_opt_vec::<Link>(bag.take("links"), "links") {
            Ok(x) => x,
            Err(e) => { return Err(e) },
        };
        proof {
            assert(bag.taken() =~= component_value_names().subrange(0, 11));
            crate::codec::lemma_take_fresh(component_value_names(), 11, bag.taken());
        }
        let annotations = match parse_opt_vec::<usize>(bag.take("annotations"), "annotations") {
            Ok(x) => x,
            Err(e) => { return Err(e) },
        };
        let ghost tk = bag.taken();
        let other = bag.rest();
        let out = ComponentValue { id, name, names, values, description, descriptions, start, end, parent, order, links, annotations, other };
        proof {
            assert(tk =~= component_value_names());
            crate::codec::lemma_ext_fields_names(fs, tk);
            assert(component_value_pairs(out) =~= component_value_norm_pairs(fs));
        }
        Ok(out)
    }

    fn to_json(&self) -> (r: JsonValue) {
        let mut b = ObjBuilder::new();
        put_str(&mut b, "id", &self.id);
        put_opt_str(&mut b, "name", &self.name);
        put_opt_rec(&mut b, "names", &self.names);
        put_opt_vec(&mut b, "values", &self.values);
        put_opt_str(&mut b, "description", &self.description);
        put_opt_rec(&mut b, "descriptions", &self.descriptions);
        put_opt_str(&mut b, "start", &self.start);
        put_opt_str(&mut b, "end", &self.end);
        put_opt_str(&mut b, "parent", &self.parent);
        put_opt_isize(&mut b, "order", &self.order);
        put_opt_vec(&mut b, "links", &self.links);
        put_opt_vec(&mut b, "annotations", &self.annotations);
        proof {
            let ps = component_value_pairs(*self);
            lemma_pairs_chain(ps, 12);
            assert(ps.subrange(0, 12) =~= ps);
            assert(b.view_fields() == present_fields(ps)) by {
                reveal_with_fuel(pairs_prefix_chunks, 13);
            }
        }
        finish_with_ext(b, &self.other)
    }

    #[verifier::rlimit(50)]
    #[verifier::spinoff_prover]
    proof fn lemma_canon(&self) {
        lemma_component_value_names_distinct();
        let ps = component_value_pairs(*self);
        let ext = self.other.view_fields();
        assert(names_of(ps) =~= component_value_names());
        assert(distinct_names(ps)) by {
            assert forall|i: int, j: int|
                0 <= i < j < ps.len() implies ps[i].0 != ps[j].0 by {
                assert(ps[i].0 == component_value_names()[i]);
                assert(ps[j].0 == component_value_names()[j]);
            }
        }
        assert(disjoint_from(ext, ps)) by {
            assert forall|i: int, j: int|
                0 <= i < ext.len() && 0 <= j < ps.len() implies ext[i].0 != ps[j].0 by {
                assert(!is_known_name(ext[i].0, component_value_names()));
                assert(component_value_names()[j] == ps[j].0);
            }
        }
        lemma_jv_get_present(ps, ext);
        lemma_ext_of_present(ps, ext);
        let fs = self.ser()->Obj_0;
        assert(jv_get(fs, "id"@) == ps[0].1);
        assert(jv_get(fs, "name"@) == ps[1].1);
        assert(jv_get(fs, "names"@) == ps[2].1);
        assert(jv_get(fs, "values"@) == ps[3].1);
        assert(jv_get(fs, "description"@) == ps[4].1);
        assert(jv_get(fs, "descriptions"@) == ps[5].1);
        assert(jv_get(fs, "start"@) == ps[6].1);
        assert(jv_get(fs, "end"@) == ps[7].1);
        assert(jv_get(fs, "parent"@) == ps[8].1);
        assert(jv_get(fs, "order"@) == ps[9].1);
        assert(jv_get(fs, "links"@) == ps[10].1);
        assert(jv_get(fs, "annotations"@) == ps[11].1);
        match self.names {
            Some(t) => {
                t.lemma_canon();
            },
            None => {},
        }
        match &self.values {
            Some(v) => {
                lemma_arr_canon::<SdmxValue>(v@);
            },
            None => {},
        }
        match self.descriptions {
            Some(t) => {
                t.lemma_canon();
            },
            None => {},
        }
        match &self.links {
            Some(v) => {
                lemma_arr_canon::<Link>(v@);
            },
            None => {},
        }
        match &self.annotations {
            Some(v) => {
                lemma_arr_canon::<usize>(v@);
            },
            None => {},
        }
        assert(Self::doc_ok(self.ser()));
        assert(component_value_norm_pairs(fs) =~= ps);
        assert(ext_fields(fs, names_of(ps)) == ext);
        assert(ext_fields(fs, component_value_names()) == ext);
    }
}

/// A dimension, measure or attribute used in the message.
#[derive(Debug, PartialEq)]
pub struct Component {
    pub id: String,
    pub name: Option<String>,
    pub names: Option<LocalizedText>,
    pub description: Option<String>,
    pub descriptions: Option<LocalizedText>,
    pub key_position: Option<usize>,
    pub roles: Option<Vec<String>>,
    pub is_mandatory: Option<bool>,
    pub relationship: Option<AttributeRelationship>,
    pub format: Option<Format>,
    pub default_value: Option<NumberOrString>,
    pub links: Option<Vec<Link>>,
    pub annotations: Option<Vec<usize>>,
    pub values: Option<Vec<ComponentValue>>,
    pub other: Extensions,
}

pub open spec fn component_names() -> Seq<Seq<char>> {
    seq!["id"@, "name"@, "names"@, "description"@, "descriptions"@, "keyPosition"@, "roles"@, "isMandatory"@, "relationship"@, "format"@, "defaultValue"@, "links"@, "annotations"@, "values"@]
}

pub open spec fn component_pairs(x: Component) -> Seq<(Seq<char>, Option<JVal>)> {
    seq![
        ("id"@, Some(JVal::Str(x.id@))),
        ("name"@, jv_of_ostr(ostr_view(x.name))),
        ("names"@, orec_ser(x.names)),
        ("description"@, jv_of_ostr(ostr_view(x.description))),
        ("descriptions"@, orec_ser(x.descriptions)),
        ("keyPosition"@, jv_of_oint(ousize_view(x.key_position))),
        ("roles"@, ovec_ser(x.roles)),
        ("isMandatory"@, jv_of_obool(x.is_mandatory)),
        ("relationship"@, orec_ser(x.relationship)),
        ("format"@, orec_ser(x.format)),
        ("defaultValue"@, orec_ser(x.default_value)),
        ("links"@, ovec_ser(x.links)),
        ("annotations"@, ovec_ser(x.annotations)),
        ("values"@, ovec_ser(x.values)),
    ]
}

pub open spec fn component_norm_pairs(fs: Seq<(Seq<char>, JVal)>) -> Seq<(Seq<char>, Option<JVal>)> {
    seq![
        ("id"@, jv_of_ostr(opt_str(jv_get(fs, "id"@)))),
        ("name"@, jv_of_ostr(opt_str(jv_get(fs, "name"@)))),
        ("names"@, opt_rec_norm::<LocalizedText>(jv_get(fs, "names"@))),
        ("description"@, jv_of_ostr(opt_str(jv_get(fs, "description"@)))),
        ("descriptions"@, opt_rec_norm::<LocalizedText>(jv_get(fs, "descriptions"@))),
        ("keyPosition"@, jv_of_oint(opt_int(jv_get(fs, "keyPosition"@)))),
        ("roles"@, opt_recarr_norm::<String>(jv_get(fs, "roles"@))),
        ("isMandatory"@, jv_of_obool(opt_bool(jv_get(fs, "isMandatory"@)))),
        ("relationship"@, opt_rec_norm::<AttributeRelationship>(jv_get(fs, "relationship"@))),
        ("format"@, opt_rec_norm::<Format>(jv_get(fs, "format"@))),
        ("defaultValue"@, opt_rec_norm::<NumberOrString>(jv_get(fs, "defaultValue"@))),
        ("links"@, opt_recarr_norm::<Link>(jv_get(fs, "links"@))),
        ("annotations"@, opt_recarr_norm::<usize>(jv_get(fs, "annotations"@))),
        ("values"@, opt_recarr_norm::<ComponentValue>(jv_get(fs, "values"@))),
    ]
}

/// The names this record knows are pairwise distinct.
pub proof fn lemma_component_names_distinct()
    ensures
        forall|i: int, j: int|
            0 <= i < j < component_names().len() ==> component_names()[i] != component_names()[j],
{
    reveal_strlit("id");
    reveal_strlit("name");
    reveal_strlit("names");
    reveal_strlit("description");
    reveal_strlit("descriptions");
    reveal_strlit("keyPosition");
    reveal_strlit("roles");
    reveal_strlit("isMandatory");
    reveal_strlit("relationship");
    reveal_strlit("format");
    reveal_strlit("defaultValue");
    reveal_strlit("links");
    reveal_strlit("annotations");
    reveal_strlit("values");
    let ns = component_names();
    assert(ns.len() == 14);
    assert forall|i: int, j: int| 0 <= i < j < ns.len() implies ns[i] != ns[j] by {
        assert("id"@.len() == 2);
        assert("name"@.len() == 4);
        assert("names"@.len() == 5);
        assert("description"@.len() == 11);
        assert("descriptions"@.len() == 12);
        assert("keyPosition"@.len() == 11);
        assert("roles"@.len() == 5);
        assert("isMandatory"@.len() == 11);
        assert("relationship"@.len() == 12);
        assert("format"@.len() == 6);
        assert("defaultValue"@.len() == 12);
        assert("links"@.len() == 5);
        assert("annotations"@.len() == 11);
        assert("values"@.len() == 6);
        assert("names"@[0] == 'n');
        assert("roles"@[0] == 'r');
        assert("links"@[0] == 'l');
        assert("description"@[0] == 'd');
        assert("keyPosition"@[0] == 'k');
        assert("isMandatory"@[0] == 'i');
        assert("annotations"@[0] == 'a');
        assert("descriptions"@[0] == 'd');
        assert("relationship"@[0] == 'r');
        assert("descriptions"@[2] == 's');
        assert("defaultValue"@[2] == 'f');
        assert("defaultValue"@[0] == 'd');
        assert("format"@[0] == 'f');
        assert("values"@[0] == 'v');
    }
}

impl JsonForm for Component {
    open spec fn wf(&self) -> bool {
        &&& ext_ok(self.other.view_fields(), component_names())
        &&& orec_wf(self.names)
        &&& orec_wf(self.descriptions)
        &&& ovec_wf(self.roles)
        &&& orec_wf(self.relationship)
        &&& orec_wf(self.format)
        &&& orec_wf(self.default_value)
        &&& ovec_wf(self.links)
        &&& ovec_wf(self.annotations)
        &&& ovec_wf(self.values)
    }

    open spec fn ser(&self) -> JVal {
        JVal::Obj(present_fields(component_pairs(*self)) + self.other.view_fields())
    }

    open spec fn doc_ok(v: JVal) -> bool {
        &&& v is Obj
        &&& {
            let fs = v->Obj_0;
            &&& is_req_str(jv_get(fs, "id"@))
            &&& is_opt_str(jv_get(fs, "name"@))
            &&& is_opt_rec::<LocalizedText>(jv_get(fs, "names"@))
            &&& is_opt_str(jv_get(fs, "description"@))
            &&& is_opt_rec::<LocalizedText>(jv_get(fs, "descriptions"@))
            &&& is_opt_usize(jv_get(fs, "keyPosition"@))
            &&& is_opt_recarr::<String>(jv_get(fs, "roles"@))
            &&& is_opt_bool(jv_get(fs, "isMandatory"@))
            &&& is_opt_rec::<AttributeRelationship>(jv_get(fs, "relationship"@))
            &&& is_opt_rec::<Format>(jv_get(fs, "format"@))
            &&& is_opt_rec::<NumberOrString>(jv_get(fs, "defaultValue"@))
            &&& is_opt_recarr::<Link>(jv_get(fs, "links"@))
            &&& is_opt_recarr::<usize>(jv_get(fs, "annotations"@))
            &&& is_opt_recarr::<ComponentValue>(jv_get(fs, "values"@))
        }
    }

    open spec fn doc_norm(v: JVal) -> JVal {
        JVal::Obj(
            present_fields(component_norm_pairs(v->Obj_0)) + ext_fields(v->Obj_0, component_names()),
        )
    }

    #[verifier::rlimit(50)]
    fn from_json(v: JsonValue) -> (r: Result<Self, ParseError>) {
        let o = match v {
            JsonValue::Obj(o) => o,
            _ => { return Err(ParseError::NotObject) },
        };
        let ghost fs = jview_field_vec(o);
        let mut bag = FieldBag::new(o);
        proof {
            lemma_component_names_distinct();
        }
        proof {
            assert(bag.taken() =~= component_names().subrange(0, 0));
            crate::codec::lemma_take_fresh(component_names(), 0, bag.taken());
        }
        let id = match get_req_string(bag.take("id"), "id") {
            Ok(x) => x,
            Err(e) => { return Err(e) },
        };
        proof {
            assert(bag.taken() =~= component_names().subrange(0, 1));
            crate::codec::lemma_take_fresh(component_names(), 1, bag.taken());
        }
        let name = match get_opt_string(bag.take("name"), "name") {
            Ok(x) => x,
            Err(e) => { return Err(e) },
        };
        proof {
            assert(bag.taken() =~= component_names().subrange(0, 2));
            crate::codec::lemma_take_fresh(component_names(), 2, bag.taken());
        }
        let names = match parse_opt::<LocalizedText>(bag.take("names")) {
            Ok(x) => x,
            Err(e) => { return Err(e) },
        };
        proof {
            assert(bag.taken() =~= component_names().subrange(0, 3));
            crate::codec::lemma_take_fresh(component_names(), 3, bag.taken());
        }
        let description = match get_opt_string(bag.take("description"), "description") {
            Ok(x) => x,
            Err(e) => { return Err(e) },
        };
        proof {
            assert(bag.taken() =~= component_names().subrange(0, 4));
            crate::codec::lemma_take_fresh(component_names(), 4, bag.taken());
        }
        let descriptions = match parse_opt::<LocalizedText>(bag.take("descriptions")) {
            Ok(x) => x,
            Err(e) => { return Err(e) },
        };
        proof {
            assert(bag.taken() =~= component_names().subrange(0, 5));
            crate::codec::lemma_take_fresh(component_names(), 5, bag.taken());
        }
        let key_position = match get_opt_usize(bag.take("keyPosition"), "keyPosition") {
            Ok(x) => x,
            Err(e) => { return Err(e) },
        };
        proof {
            assert(bag.taken() =~= component_names().subrange(0, 6));
            crate::codec::lemma_take_fresh(component_names(), 6, bag.taken());
        }
        let roles = match parse_opt_vec::<String>(bag.take("roles"), "roles") {
            Ok(x) => x,
            Err(e) => { return Err(e) },
        };
        proof {
            assert(bag.taken() =~= component_names().subrange(0, 7));
            crate::codec::lemma_take_fresh(component_names(), 7, bag.taken());
        }
        let is_mandatory = match get_opt_bool(bag.take("isMandatory"), "isMandatory") {
            Ok(x) => x,
            Err(e) => { return Err(e) },
        };
        proof {
            assert(bag.taken() =~= component_names().subrange(0, 8));
            crate::codec::lemma_take_fresh(component_names(), 8, bag.taken());
        }
        let relationship = match parse_opt::<AttributeRelationship>(bag.take("relationship")) {
            Ok(x) => x,
            Err(e) => { return Err(e) },
        };
        proof {
            assert(bag.taken() =~= component_names().subrange(0, 9));
            crate::codec::lemma_take_fresh(component_names(), 9, bag.taken());
        }
        let format = match parse_opt::<Format>(bag.take("format")) {
            Ok(x) => x,
            Err(e) => { return Err(e) },
        };
        proof {
            assert(bag.taken() =~= component_names().subrange(0, 10));
            crate::codec::lemma_take_fresh(component_names(), 10, bag.taken());
        }
        let default_value = match parse_opt::<NumberOrString>(bag.take("defaultValue")) {
            Ok(x) => x,
            Err(e) => { return Err(e) },
        };
        proof {
            assert(bag.taken() =~= component_names().subrange(0, 11));
            crate::codec::lemma_take_fresh(component_names(), 11, bag.taken());
        }
        let links = match parse_opt_vec::<Link>(bag.take("links"), "links") {
            Ok(x) => x,
            Err(e) => { return Err(e) },
        };
        proof {
            assert(bag.taken() =~= component_names().subrange(0, 12));
            crate::codec::lemma_take_fresh(component_names(), 12, bag.taken());
        }
        let annotations = match parse_opt_vec::<usize>(bag.take("annotations"), "annotations") {
            Ok(x) => x,
            Err(e) => { return Err(e) },
        };
        proof {
            assert(bag.taken() =~= component_names().subrange(0, 13));
            crate::codec::lemma_take_fresh(component_names(), 13, bag.taken());
        }
        let values = match parse_opt_vec::<ComponentValue>(bag.take("values"), "values") {
            Ok(x) => x,
            Err(e) => { return Err(e) },
        };
        let ghost tk = bag.taken();
        let other = bag.rest();
        let out = Component { id, name, names, description, descriptions, key_position, roles, is_mandatory, relationship, format, default_value, links, annotations, values, other };
        proof {
            assert(tk =~= component_names());
            crate::codec::lemma_ext_fields_names(fs, tk);
            assert(component_pairs(out) =~= component_norm_pairs(fs));
        }
        Ok(out)
    }

    fn to_json(&self) -> (r: JsonValue) {
        let mut b = ObjBuilder::new();
        put_str(&mut b, "id", &self.id);
        put_opt_str(&mut b, "name", &self.name);
        put_opt_rec(&mut b, "names", &self.names);
        put_opt_str(&mut b, "description", &self.description);
        put_opt_rec(&mut b, "descriptions", &self.descriptions);
        put_opt_usize(&mut b, "keyPosition", &self.key_position);
        put_opt_vec(&mut b, "roles", &self.roles);
        put_opt_bool(&mut b, "isMandatory", &self.is_mandatory);
        put_opt_rec(&mut b, "relationship", &self.relationship);
        put_opt_rec(&mut b, "format", &self.format);
        put_opt_rec(&mut b, "defaultValue", &self.default_value);
        put_opt_vec(&mut b, "links", &self.links);
        put_opt_vec(&mut b, "annotations", &self.annotations);
        put_opt_vec(&mut b, "values", &self.values);
        proof {
            let ps = component_pairs(*self);
            lemma_pairs_chain(ps, 14);
            assert(ps.subrange(0, 14) =~= ps);
            assert(b.view_fields() == present_fields(ps)) by {
                reveal_with_fuel(pairs_prefix_chunks, 15);
            }
        }
        finish_with_ext(b, &self.other)
    }

    #[verifier::rlimit(50)]
    #[verifier::spinoff_prover]
    proof fn lemma_canon(&self) {
        lemma_component_names_distinct();
        let ps = component_pairs(*self);
        let ext = self.other.view_fields();
        assert(names_of(ps) =~= component_names());
        assert(distinct_names(ps)) by {
            assert forall|i: int, j: int|
                0 <= i < j < ps.len() implies ps[i].0 != ps[j].0 by {
                assert(ps[i].0 == component_names()[i]);
                assert(ps[j].0 == component_names()[j]);
            }
        }
        assert(disjoint_from(ext, ps)) by {
            assert forall|i: int, j: int|
                0 <= i < ext.len() && 0 <= j < ps.len() implies ext[i].0 != ps[j].0 by {
                assert(!is_known_name(ext[i].0, component_names()));
                assert(component_names()[j] == ps[j].0);
            }
        }
        lemma_jv_get_present(ps, ext);
        lemma_ext_of_present(ps, ext);
        let fs = self.ser()->Obj_0;
        assert(jv_get(fs, "id"@) == ps[0].1);
        assert(jv_get(fs, "name"@) == ps[1].1);
        assert(jv_get(fs, "names"@) == ps[2].1);
        assert(jv_get(fs, "description"@) == ps[3].1);
        assert(jv_get(fs, "descriptions"@) == ps[4].1);
        assert(jv_get(fs, "keyPosition"@) == ps[5].1);
        assert(jv_get(fs, "roles"@) == ps[6].1);
        assert(jv_get(fs, "isMandatory"@) == ps[7].1);
        assert(jv_get(fs, "relationship"@) == ps[8].1);
        assert(jv_get(fs, "format"@) == ps[9].1);
        assert(jv_get(fs, "defaultValue"@) == ps[10].1);
        assert(jv_get(fs, "links"@) == ps[11].1);
        assert(jv_get(fs, "annotations"@) == ps[12].1);
        assert(jv_get(fs, "values"@) == ps[13].1);
        match self.names {
            Some(t) => {
                t.lemma_canon();
            },
            None => {},
        }
        match self.descriptions {
            Some(t) => {
                t.lemma_canon();
            },
            None => {},
        }
        match &self.roles {
            Some(v) => {
                lemma_arr_canon::<String>(v@);
            },
            None => {},
        }
        match self.relationship {
            Some(t) => {
                t.lemma_canon();
            },
            None => {},
        }
        match self.format {
            Some(t) => {
                t.lemma_canon();
            },
            None => {},
        }
        match self.default_value {
            Some(t) => {
                t.lemma_canon();
            },
            None => {},
        }
        match &self.links {
            Some(v) => {
                lemma_arr_canon::<Link>(v@);
            },
            None => {},
        }
        match &self.annotations {
            Some(v) => {
                lemma_arr_canon::<usize>(v@);
            },
            None => {},
        }
        match &self.values {
            Some(v) => {
                lemma_arr_canon::<ComponentValue>(v@);
            },
            None => {},
        }
        assert(Self::doc_ok(self.ser()));
        assert(component_norm_pairs(fs) =~= ps);
        assert(ext_fields(fs, names_of(ps)) == ext);
        assert(ext_fields(fs, component_names()) == ext);
    }
}

/// The components of one grouping level: attached to the whole dataset, to a
/// dimension group, to a series, or to the observation.
#[derive(Debug, PartialEq)]
pub struct DimsMeasuresAttributes {
    pub data_set: Option<Vec<Component>>,
    pub dimension_group: Option<Vec<Component>>,
    pub series: Option<Vec<Component>>,
    pub observation: Option<Vec<Component>>,
    pub other: Extensions,
}

pub open spec fn dims_measures_attributes_names() -> Seq<Seq<char>> {
    seq!["dataSet"@, "dimensionGroup"@, "series"@, "observation"@]
}

pub open spec fn dims_measures_attributes_pairs(x: DimsMeasuresAttributes) -> Seq<(Seq<char>, Option<JVal>)> {
    seq![
        ("dataSet"@, ovec_ser(x.data_set)),
        ("dimensionGroup"@, ovec_ser(x.dimension_group)),
        ("series"@, ovec_ser(x.series)),
        ("observation"@, ovec_ser(x.observation)),
    ]
}

pub open spec fn dims_measures_attributes_norm_pairs(fs: Seq<(Seq<char>, JVal)>) -> Seq<(Seq<char>, Option<JVal>)> {
    seq![
        ("dataSet"@, opt_recarr_norm::<Component>(jv_get(fs, "dataSet"@))),
        ("dimensionGroup"@, opt_recarr_norm::<Component>(jv_get(fs, "dimensionGroup"@))),
        ("series"@, opt_recarr_norm::<Component>(jv_get(fs, "series"@))),
        ("observation"@, opt_recarr_norm::<Component>(jv_get(fs, "observation"@))),
    ]
}

/// The names this record knows are pairwise distinct.
pub proof fn lemma_dims_measures_attributes_names_distinct()
    ensures
        forall|i: int, j: int|
            0 <= i < j < dims_measures_attributes_names().len() ==> dims_measures_attributes_names()[i] != dims_measures_attributes_names()[j],
{
    reveal_strlit("dataSet");
    reveal_strlit("dimensionGroup");
    reveal_strlit("series");
    reveal_strlit("observation");
    let ns = dims_measures_attributes_names();
    assert(ns.len() == 4);
    assert forall|i: int, j: int| 0 <= i < j < ns.len() implies ns[i] != ns[j] by {
        assert("dataSet"@.len() == 7);
        assert("dimensionGroup"@.len() == 14);
        assert("series"@.len() == 6);
        assert("observation"@.len() == 11);
    }
}

impl JsonForm for DimsMeasuresAttributes {
    open spec fn wf(&self) -> bool {
        &&& ext_ok(self.other.view_fields(), dims_measures_attributes_names())
        &&& ovec_wf(self.data_set)
        &&& ovec_wf(self.dimension_group)
        &&& ovec_wf(self.series)
        &&& ovec_wf(self.observation)
    }

    open spec fn ser(&self) -> JVal {
        JVal::Obj(present_fields(dims_measures_attributes_pairs(*self)) + self.other.view_fields())
    }

    open spec fn doc_ok(v: JVal) -> bool {
        &&& v is Obj
        &&& {
            let fs = v->Obj_0;
            &&& is_opt_recarr::<Component>(jv_get(fs, "dataSet"@))
            &&& is_opt_recarr::<Component>(jv_get(fs, "dimensionGroup"@))
            &&& is_opt_recarr::<Component>(jv_get(fs, "series"@))
            &&& is_opt_recarr::<Component>(jv_get(fs, "observation"@))
        }
    }

    open spec fn doc_norm(v: JVal) -> JVal {
        JVal::Obj(
            present_fields(dims_measures_attributes_norm_pairs(v->Obj_0)) + ext_fields(v->Obj_0, dims_measures_attributes_names()),
        )
    }

    #[verifier::rlimit(50)]
    fn from_json(v: JsonValue) -> (r: Result<Self, ParseError>) {
        let o = match v {
            JsonValue::Obj(o) => o,
            _ => { return Err(ParseError::NotObject) },
        };
        let ghost fs = jview_field_vec(o);
        let mut bag = FieldBag::new(o);
        proof {
            lemma_dims_measures_attributes_names_distinct();
        }
        proof {
            assert(bag.taken() =~= dims_measures_attributes_names().subrange(0, 0));
            crate::codec::lemma_take_fresh(dims_measures_attributes_names(), 0, bag.taken());
        }
        let data_set = match parse_opt_vec::<Component>(bag.take("dataSet"), "dataSet") {
            Ok(x) => x,
            Err(e) => { return Err(e) },
        };
        proof {
            assert(bag.taken() =~= dims_measures_attributes_names().subrange(0, 1));
            crate::codec::lemma_take_fresh(dims_measures_attributes_names(), 1, bag.taken());
        }
        let dimension_group = match parse_opt_vec::<Component>(bag.take("dimensionGroup"), "dimensionGroup") {
            Ok(x) => x,
            Err(e) => { return Err(e) },
        };
        proof {
            assert(bag.taken() =~= dims_measures_attributes_names().subrange(0, 2));
            crate::codec::lemma_take_fresh(dims_measures_attributes_names(), 2, bag.taken());
        }
        let series = match parse_opt_vec::<Component>(bag.take("series"), "series") {
            Ok(x) => x,
            Err(e) => { return Err(e) },
        };
        proof {
            assert(bag.taken() =~= dims_measures_attributes_names().subrange(0, 3));
            crate::codec::lemma_take_fresh(dims_measures_attributes_names(), 3, bag.taken());
        }
        let observation = match parse_opt_vec::<Component>(bag.take("observation"), "observation") {
            Ok(x) => x,
            Err(e) => { return Err(e) },
        };
        let ghost tk = bag.taken();
        let other = bag.rest();
        let out = DimsMeasuresAttributes { data_set, dimension_group, series, observation, other };
        proof {
            assert(tk =~= dims_measures_attributes_names());
            crate::codec::lemma_ext_fields_names(fs, tk);
            assert(dims_measures_attributes_pairs(out) =~= dims_measures_attributes_norm_pairs(fs));
        }
        Ok(out)
    }

    fn to_json(&self) -> (r: JsonValue) {
        let mut b = ObjBuilder::new();
        put_opt_vec(&mut b, "dataSet", &self.data_set);
        put_opt_vec(&mut b, "dimensionGroup", &self.dimension_group);
        put_opt_vec(&mut b, "series", &self.series);
        put_opt_vec(&mut b, "observation", &self.observation);
        proof {
            let ps = dims_measures_attributes_pairs(*self);
            lemma_pairs_chain(ps, 4);
            assert(ps.subrange(0, 4) =~= ps);
            assert(b.view_fields() == present_fields(ps)) by {
                reveal_with_fuel(pairs_prefix_chunks, 5);
            }
        }
        finish_with_ext(b, &self.other)
    }

    #[verifier::rlimit(50)]
    #[verifier::spinoff_prover]
    proof fn lemma_canon(&self) {
        lemma_dims_measures_attributes_names_distinct();
        let ps = dims_measures_attributes_pairs(*self);
        let ext = self.other.view_fields();
        assert(names_of(ps) =~= dims_measures_attributes_names());
        assert(distinct_names(ps)) by {
            assert forall|i: int, j: int|
                0 <= i < j < ps.len() implies ps[i].0 != ps[j].0 by {
                assert(ps[i].0 == dims_measures_attributes_names()[i]);
                assert(ps[j].0 == dims_measures_attributes_names()[j]);
            }
        }
        assert(disjoint_from(ext, ps)) by {
            assert forall|i: int, j: int|
                0 <= i < ext.len() && 0 <= j < ps.len() implies ext[i].0 != ps[j].0 by {
                assert(!is_known_name(ext[i].0, dims_measures_attributes_names()));
                assert(dims_measures_attributes_names()[j] == ps[j].0);
            }
        }
        lemma_jv_get_present(ps, ext);
        lemma_ext_of_present(ps, ext);
        let fs = self.ser()->Obj_0;
        assert(jv_get(fs, "dataSet"@) == ps[0].1);
        assert(jv_get(fs, "dimensionGroup"@) == ps[1].1);
        assert(jv_get(fs, "series"@) == ps[2].1);
        assert(jv_get(fs, "observation"@) == ps[3].1);
        match &self.data_set {
            Some(v) => {
                lemma_arr_canon::<Component>(v@);
            },
            None => {},
        }
        match &self.dimension_group {
            Some(v) => {
                lemma_arr_canon::<Component>(v@);
            },
            None => {},
        }
        match &self.series {
            Some(v) => {
                lemma_arr_canon::<Component>(v@);
            },
            None => {},
        }
        match &self.observation {
            Some(v) => {
                lemma_arr_canon::<Component>(v@);
            },
            None => {},
        }
        assert(Self::doc_ok(self.ser()));
        assert(dims_measures_attributes_norm_pairs(fs) =~= ps);
        assert(ext_fields(fs, names_of(ps)) == ext);
        assert(ext_fields(fs, dims_measures_attributes_names()) == ext);
    }
}

/// A collection of observations with meta-information about the dataset.
/// Series carried under a dataset are preserved through the side table.
#[derive(Debug, PartialEq)]
pub struct DataSet {
    pub structure: Option<isize>,
    pub action: Option<Action>,
    pub reporting_begin: Option<String>,
    pub reporting_end: Option<String>,
    pub valid_from: Option<String>,
    pub valid_to: Option<String>,
    pub publication_year: Option<String>,
    pub publication_period: Option<String>,
    pub links: Option<Vec<Link>>,
    pub annotations: Option<Vec<usize>>,
    pub attributes: Option<Vec<SdmxValue>>,
    pub dimension_group_attributes: Option<SdmxObject>,
    pub observations: Option<SdmxObject>,
    pub other: Extensions,
}

pub open spec fn data_set_names() -> Seq<Seq<char>> {
    seq!["structure"@, "action"@, "reportingBegin"@, "reportingEnd"@, "validFrom"@, "validTo"@, "publicationYear"@, "publicationPeriod"@, "links"@, "annotations"@, "attributes"@, "dimensionGroupAttributes"@, "observations"@]
}

pub open spec fn data_set_pairs(x: DataSet) -> Seq<(Seq<char>, Option<JVal>)> {
    seq![
        ("structure"@, jv_of_oint(oisize_view(x.structure))),
        ("action"@, orec_ser(x.action)),
        ("reportingBegin"@, jv_of_ostr(ostr_view(x.reporting_begin))),
        ("reportingEnd"@, jv_of_ostr(ostr_view(x.reporting_end))),
        ("validFrom"@, jv_of_ostr(ostr_view(x.valid_from))),
        ("validTo"@, jv_of_ostr(ostr_view(x.valid_to))),
        ("publicationYear"@, jv_of_ostr(ostr_view(x.publication_year))),
        ("publicationPeriod"@, jv_of_ostr(ostr_view(x.publication_period))),
        ("links"@, ovec_ser(x.links)),
        ("annotations"@, ovec_ser(x.annotations)),
        ("attributes"@, ovec_ser(x.attributes)),
        ("dimensionGroupAttributes"@, orec_ser(x.dimension_group_attributes)),
        ("observations"@, orec_ser(x.observations)),
    ]
}

pub open spec fn data_set_norm_pairs(fs: Seq<(Seq<char>, JVal)>) -> Seq<(Seq<char>, Option<JVal>)> {
    seq![
        ("structure"@, jv_of_oint(opt_int(jv_get(fs, "structure"@)))),
        ("action"@, opt_rec_norm::<Action>(jv_get(fs, "action"@))),
        ("reportingBegin"@, jv_of_ostr(opt_str(jv_get(fs, "reportingBegin"@)))),
        ("reportingEnd"@, jv_of_ostr(opt_str(jv_get(fs, "reportingEnd"@)))),
        ("validFrom"@, jv_of_ostr(opt_str(jv_get(fs, "validFrom"@)))),
        ("validTo"@, jv_of_ostr(opt_str(jv_get(fs, "validTo"@)))),
        ("publicationYear"@, jv_of_ostr(opt_str(jv_get(fs, "publicationYear"@)))),
        ("publicationPeriod"@, jv_of_ostr(opt_str(jv_get(fs, "publicationPeriod"@)))),
        ("links"@, opt_recarr_norm::<Link>(jv_get(fs, "links"@))),
        ("annotations"@, opt_recarr_norm::<usize>(jv_get(fs, "annotations"@))),
        ("attributes"@, opt_recarr_norm::<SdmxValue>(jv_get(fs, "attributes"@))),
        ("dimensionGroupAttributes"@, opt_rec_norm::<SdmxObject>(jv_get(fs, "dimensionGroupAttributes"@))),
        ("observations"@, opt_rec_norm::<SdmxObject>(jv_get(fs, "observations"@))),
    ]
}

/// The names this record knows are pairwise distinct.
pub proof fn lemma_data_set_names_distinct()
    ensures
        forall|i: int, j: int|
            0 <= i < j < data_set_names().len() ==> data_set_names()[i] != data_set_names()[j],
{
    reveal_strlit("structure");
    reveal_strlit("action");
    reveal_strlit("reportingBegin");
    reveal_strlit("reportingEnd");
    reveal_strlit("validFrom");
    reveal_strlit("validTo");
    reveal_strlit("publicationYear");
    reveal_strlit("publicationPeriod");
    reveal_strlit("links");
    reveal_strlit("annotations");
    reveal_strlit("attributes");
    reveal_strlit("dimensionGroupAttributes");
    reveal_strlit("observations");
    let ns = data_set_names();
    assert(ns.len() == 13);
    assert forall|i: int, j: int| 0 <= i < j < ns.len() implies ns[i] != ns[j] by {
        assert("structure"@.len() == 9);
        assert("action"@.len() == 6);
        assert("reportingBegin"@.len() == 14);
        assert("reportingEnd"@.len() == 12);
        assert("validFrom"@.len() == 9);
        assert("validTo"@.len() == 7);
        assert("publicationYear"@.len() == 15);
        assert("publicationPeriod"@.len() == 17);
        assert("links"@.len() == 5);
        assert("annotations"@.len() == 11);
        assert("attributes"@.len() == 10);
        assert("dimensionGroupAttributes"@.len() == 24);
        assert("observations"@.len() == 12);
        assert("structure"@[0] == 's');
        assert("validFrom"@[0] == 'v');
        assert("reportingEnd"@[0] == 'r');
        assert("observations"@[0] == 'o');
    }
}

impl JsonForm for DataSet {
    open spec fn wf(&self) -> bool {
        &&& ext_ok(self.other.view_fields(), data_set_names())
        &&& orec_wf(self.action)
        &&& ovec_wf(self.links)
        &&& ovec_wf(self.annotations)
        &&& ovec_wf(self.attributes)
        &&& orec_wf(self.dimension_group_attributes)
        &&& orec_wf(self.observations)
    }

    open spec fn ser(&self) -> JVal {
        JVal::Obj(present_fields(data_set_pairs(*self)) + self.other.view_fields())
    }

    open spec fn doc_ok(v: JVal) -> bool {
        &&& v is Obj
        &&& {
            let fs = v->Obj_0;
            &&& is_opt_isize(jv_get(fs, "structure"@))
            &&& is_opt_rec::<Action>(jv_get(fs, "action"@))
            &&& is_opt_str(jv_get(fs, "reportingBegin"@))
            &&& is_opt_str(jv_get(fs, "reportingEnd"@))
            &&& is_opt_str(jv_get(fs, "validFrom"@))
            &&& is_opt_str(jv_get(fs, "validTo"@))
            &&& is_opt_str(jv_get(fs, "publicationYear"@))
            &&& is_opt_str(jv_get(fs, "publicationPeriod"@))
            &&& is_opt_recarr::<Link>(jv_get(fs, "links"@))
            &&& is_opt_recarr::<usize>(jv_get(fs, "annotations"@))
            &&& is_opt_recarr::<SdmxValue>(jv_get(fs, "attributes"@))
            &&& is_opt_rec::<SdmxObject>(jv_get(fs, "dimensionGroupAttributes"@))
            &&& is_opt_rec::<SdmxObject>(jv_get(fs, "observations"@))
        }
    }

    open spec fn doc_norm(v: JVal) -> JVal {
        JVal::Obj(
            present_fields(data_set_norm_pairs(v->Obj_0)) + ext_fields(v->Obj_0, data_set_names()),
        )
    }

    #[verifier::rlimit(50)]
    fn from_json(v: JsonValue) -> (r: Result<Self, ParseError>) {
        let o = match v {
            JsonValue::Obj(o) => o,
            _ => { return Err(ParseError::NotObject) },
        };
        let ghost fs = jview_field_vec(o);
        let mut bag = FieldBag::new(o);
        proof {
            lemma_data_set_names_distinct();
        }
        proof {
            assert(bag.taken() =~= data_set_names().subrange(0, 0));
            crate::codec::lemma_take_fresh(data_set_names(), 0, bag.taken());
        }
        let structure = match get_opt_isize(bag.take("structure"), "structure") {
            Ok(x) => x,
            Err(e) => { return Err(e) },
        };
        proof {
            assert(bag.taken() =~= data_set_names().subrange(0, 1));
            crate::codec::lemma_take_fresh(data_set_names(), 1, bag.taken());
        }
        let action = match parse_opt::<Action>(bag.take("action")) {
            Ok(x) => x,
            Err(e) => { return Err(e) },
        };
        proof {
            assert(bag.taken() =~= data_set_names().subrange(0, 2));
            crate::codec::lemma_take_fresh(data_set_names(), 2, bag.taken());
        }
        let reporting_begin = match get_opt_string(bag.take("reportingBegin"), "reportingBegin") {
            Ok(x) => x,
            Err(e) => { return Err(e) },
        };
        proof {
            assert(bag.taken() =~= data_set_names().subrange(0, 3));
            crate::codec::lemma_take_fresh(data_set_names(), 3, bag.taken());
        }
        let reporting_end = match get_opt_string(bag.take("reportingEnd"), "reportingEnd") {
            Ok(x) => x,
            Err(e) => { return Err(e) },
        };
        proof {
            assert(bag.taken() =~= data_set_names().subrange(0, 4));
            crate::codec::lemma_take_fresh(data_set_names(), 4, bag.taken());
        }
        let valid_from = match get_opt_string(bag.take("validFrom"), "validFrom") {
            Ok(x) => x,
            Err(e) => { return Err(e) },
        };
        proof {
            assert(bag.taken() =~= data_set_names().subrange(0, 5));
            crate::codec::lemma_take_fresh(data_set_names(), 5, bag.taken());
        }
        let valid_to = match get_opt_string(bag.take("validTo"), "validTo") {
            Ok(x) => x,
            Err(e) => { return Err(e) },
        };
        proof {
            assert(bag.taken() =~= data_set_names().subrange(0, 6));
            crate::codec::lemma_take_fresh(data_set_names(), 6, bag.taken());
        }
        let publication_year = match get_opt_string(bag.take("publicationYear"), "publicationYear") {
            Ok(x) => x,
            Err(e) => { return Err(e) },
        };
        proof {
            assert(bag.taken() =~= data_set_names().subrange(0, 7));
            crate::codec::lemma_take_fresh(data_set_names(), 7, bag.taken());
        }
        let publication_period = match get_opt_string(bag.take("publicationPeriod"), "publicationPeriod") {
            Ok(x) => x,
            Err(e) => { return Err(e) },
        };
        proof {
            assert(bag.taken() =~= data_set_names().subrange(0, 8));
            crate::codec::lemma_take_fresh(data_set_names(), 8, bag.taken());
        }
        let links = match parse_opt_vec::<Link>(bag.take("links"), "links") {
            Ok(x) => x,
            Err(e) => { return Err(e) },
        };
        proof {
            assert(bag.taken() =~= data_set_names().subrange(0, 9));
            crate::codec::lemma_take_fresh(data_set_names(), 9, bag.taken());
        }
        let annotations = match parse_opt_vec::<usize>(bag.take("annotations"), "annotations") {
            Ok(x) => x,
            Err(e) => { return Err(e) },
        };
        proof {
            assert(bag.taken() =~= data_set_names().subrange(0, 10));
            crate::codec::lemma_take_fresh(data_set_names(), 10, bag.taken());
        }
        let attributes = match parse_opt_vec::<SdmxValue>(bag.take("attributes"), "attributes") {
            Ok(x) => x,
            Err(e) => { return Err(e) },
        };
        proof {
            assert(bag.taken() =~= data_set_names().subrange(0, 11));
            crate::codec::lemma_take_fresh(data_set_names(), 11, bag.taken());
        }
        let dimension_group_attributes = match parse_opt::<SdmxObject>(bag.take("dimensionGroupAttributes")) {
            Ok(x) => x,
            Err(e) => { return Err(e) },
        };
        proof {
            assert(bag.taken() =~= data_set_names().subrange(0, 12));
            crate::codec::lemma_take_fresh(data_set_names(), 12, bag.taken());
        }
        let observations = match parse_opt::<SdmxObject>(bag.take("observations")) {
            Ok(x) => x,
            Err(e) => { return Err(e) },
        };
        let ghost tk = bag.taken();
        let other = bag.rest();
        let out = DataSet { structure, action, reporting_begin, reporting_end, valid_from, valid_to, publication_year, publication_period, links, annotations, attributes, dimension_group_attributes, observations, other };
        proof {
            assert(tk =~= data_set_names());
            crate::codec::lemma_ext_fields_names(fs, tk);
            assert(data_set_pairs(out) =~= data_set_norm_pairs(fs));
        }
        Ok(out)
    }

    fn to_json(&self) -> (r: JsonValue) {
        let mut b = ObjBuilder::new();
        put_opt_isize(&mut b, "structure", &self.structure);
        put_opt_rec(&mut b, "action", &self.action);
        put_opt_str(&mut b, "reportingBegin", &self.reporting_begin);
        put_opt_str(&mut b, "reportingEnd", &self.reporting_end);
        put_opt_str(&mut b, "validFrom", &self.valid_from);
        put_opt_str(&mut b, "validTo", &self.valid_to);
        put_opt_str(&mut b, "publicationYear", &self.publication_year);
        put_opt_str(&mut b, "publicationPeriod", &self.publication_period);
        put_opt_vec(&mut b, "links", &self.links);
        put_opt_vec(&mut b, "annotations", &self.annotations);
        put_opt_vec(&mut b, "attributes", &self.attributes);
        put_opt_rec(&mut b, "dimensionGroupAttributes", &self.dimension_group_attributes);
        put_opt_rec(&mut b, "observations", &self.observations);
        proof {
            let ps = data_set_pairs(*self);
            lemma_pairs_chain(ps, 13);
            assert(ps.subrange(0, 13) =~= ps);
            assert(b.view_fields() == present_fields(ps)) by {
                reveal_with_fuel(pairs_prefix_chunks, 14);
            }
        }
        finish_with_ext(b, &self.other)
    }

    #[verifier::rlimit(50)]
    #[verifier::spinoff_prover]
    proof fn lemma_canon(&self) {
        lemma_data_set_names_distinct();
        let ps = data_set_pairs(*self);
        let ext = self.other.view_fields();
        assert(names_of(ps) =~= data_set_names());
        assert(distinct_names(ps)) by {
            assert forall|i: int, j: int|
                0 <= i < j < ps.len() implies ps[i].0 != ps[j].0 by {
                assert(ps[i].0 == data_set_names()[i]);
                assert(ps[j].0 == data_set_names()[j]);
            }
        }
        assert(disjoint_from(ext, ps)) by {
            assert forall|i: int, j: int|
                0 <= i < ext.len() && 0 <= j < ps.len() implies ext[i].0 != ps[j].0 by {
                assert(!is_known_name(ext[i].0, data_set_names()));
                assert(data_set_names()[j] == ps[j].0);
            }
        }
        lemma_jv_get_present(ps, ext);
        lemma_ext_of_present(ps, ext);
        let fs = self.ser()->Obj_0;
        assert(jv_get(fs, "structure"@) == ps[0].1);
        assert(jv_get(fs, "action"@) == ps[1].1);
        assert(jv_get(fs, "reportingBegin"@) == ps[2].1);
        assert(jv_get(fs, "reportingEnd"@) == ps[3].1);
        assert(jv_get(fs, "validFrom"@) == ps[4].1);
        assert(jv_get(fs, "validTo"@) == ps[5].1);
        assert(jv_get(fs, "publicationYear"@) == ps[6].1);
        assert(jv_get(fs, "publicationPeriod"@) == ps[7].1);
        assert(jv_get(fs, "links"@) == ps[8].1);
        assert(jv_get(fs, "annotations"@) == ps[9].1);
        assert(jv_get(fs, "attributes"@) == ps[10].1);
        assert(jv_get(fs, "dimensionGroupAttributes"@) == ps[11].1);
        assert(jv_get(fs, "observations"@) == ps[12].1);
        match self.action {
            Some(t) => {
                t.lemma_canon();
            },
            None => {},
        }
        match &self.links {
            Some(v) => {
                lemma_arr_canon::<Link>(v@);
            },
            None => {},
        }
        match &self.annotations {
            Some(v) => {
                lemma_arr_canon::<usize>(v@);
            },
            None => {},
        }
        match &self.attributes {
            Some(v) => {
                lemma_arr_canon::<SdmxValue>(v@);
            },
            None => {},
        }
        match self.dimension_group_attributes {
            Some(t) => {
                t.lemma_canon();
            },
            None => {},
        }
        match self.observations {
            Some(t) => {
                t.lemma_canon();
            },
            None => {},
        }
        assert(Self::doc_ok(self.ser()));
        assert(data_set_norm_pairs(fs) =~= ps);
        assert(ext_fields(fs, names_of(ps)) == ext);
        assert(ext_fields(fs, data_set_names()) == ext);
    }
}

/// The structural metadata for interpreting the data in the message.
#[derive(Debug, PartialEq)]
pub struct Structure {
    pub links: Option<Vec<Link>>,
    pub dimensions: DimsMeasuresAttributes,
    pub measures: Option<DimsMeasuresAttributes>,
    pub attributes: DimsMeasuresAttributes,
    pub annotations: Option<Vec<Annotation>>,
    pub dataset: Option<DataSet>,
    pub other: Extensions,
}

pub open spec fn data_structure_info_names() -> Seq<Seq<char>> {
    seq!["links"@, "dimensions"@, "measures"@, "attributes"@, "annotations"@, "dataset"@]
}

pub open spec fn data_structure_info_pairs(x: Structure) -> Seq<(Seq<char>, Option<JVal>)> {
    seq![
        ("links"@, ovec_ser(x.links)),
        ("dimensions"@, Some(x.dimensions.ser())),
        ("measures"@, orec_ser(x.measures)),
        ("attributes"@, Some(x.attributes.ser())),
        ("annotations"@, ovec_ser(x.annotations)),
        ("dataset"@, orec_ser(x.dataset)),
    ]
}

pub open spec fn data_structure_info_norm_pairs(fs: Seq<(Seq<char>, JVal)>) -> Seq<(Seq<char>, Option<JVal>)> {
    seq![
        ("links"@, opt_recarr_norm::<Link>(jv_get(fs, "links"@))),
        ("dimensions"@, req_rec_norm::<DimsMeasuresAttributes>(jv_get(fs, "dimensions"@))),
        ("measures"@, opt_rec_norm::<DimsMeasuresAttributes>(jv_get(fs, "measures"@))),
        ("attributes"@, req_rec_norm::<DimsMeasuresAttributes>(jv_get(fs, "attributes"@))),
        ("annotations"@, opt_recarr_norm::<Annotation>(jv_get(fs, "annotations"@))),
        ("dataset"@, opt_rec_norm::<DataSet>(jv_get(fs, "dataset"@))),
    ]
}

/// The names this record knows are pairwise distinct.
pub proof fn lemma_data_structure_info_names_distinct()
    ensures
        forall|i: int, j: int|
            0 <= i < j < data_structure_info_names().len() ==> data_structure_info_names()[i] != data_structure_info_names()[j],
{
    reveal_strlit("links");
    reveal_strlit("dimensions");
    reveal_strlit("measures");
    reveal_strlit("attributes");
    reveal_strlit("annotations");
    reveal_strlit("dataset");
    let ns = data_structure_info_names();
    assert(ns.len() == 6);
    assert forall|i: int, j: int| 0 <= i < j < ns.len() implies ns[i] != ns[j] by {
        assert("links"@.len() == 5);
        assert("dimensions"@.len() == 10);
        assert("measures"@.len() == 8);
        assert("attributes"@.len() == 10);
        assert("annotations"@.len() == 11);
        assert("dataset"@.len() == 7);
        assert("dimensions"@[0] == 'd');
        assert("attributes"@[0] == 'a');
    }
}

impl JsonForm for Structure {
    open spec fn wf(&self) -> bool {
        &&& ext_ok(self.other.view_fields(), data_structure_info_names())
        &&& ovec_wf(self.links)
        &&& self.dimensions.wf()
        &&& orec_wf(self.measures)
        &&& self.attributes.wf()
        &&& ovec_wf(self.annotations)
        &&& orec_wf(self.dataset)
    }

    open spec fn ser(&self) -> JVal {
        JVal::Obj(present_fields(data_structure_info_pairs(*self)) + self.other.view_fields())
    }

    open spec fn doc_ok(v: JVal) -> bool {
        &&& v is Obj
        &&& {
            let fs = v->Obj_0;
            &&& is_opt_recarr::<Link>(jv_get(fs, "links"@))
            &&& is_req_rec::<DimsMeasuresAttributes>(jv_get(fs, "dimensions"@))
            &&& is_opt_rec::<DimsMeasuresAttributes>(jv_get(fs, "measures"@))
            &&& is_req_rec::<DimsMeasuresAttributes>(jv_get(fs, "attributes"@))
            &&& is_opt_recarr::<Annotation>(jv_get(fs, "annotations"@))
            &&& is_opt_rec::<DataSet>(jv_get(fs, "dataset"@))
        }
    }

    open spec fn doc_norm(v: JVal) -> JVal {
        JVal::Obj(
            present_fields(data_structure_info_norm_pairs(v->Obj_0)) + ext_fields(v->Obj_0, data_structure_info_names()),
        )
    }

    #[verifier::rlimit(50)]
    fn from_json(v: JsonValue) -> (r: Result<Self, ParseError>) {
        let o = match v {
            JsonValue::Obj(o) => o,
            _ => { return Err(ParseError::NotObject) },
        };
        let ghost fs = jview_field_vec(o);
        let mut bag = FieldBag::new(o);
        proof {
            lemma_data_structure_info_names_distinct();
        }
        proof {
            assert(bag.taken() =~= data_structure_info_names().subrange(0, 0));
            crate::codec::lemma_take_fresh(data_structure_info_names(), 0, bag.taken());
        }
        let links = match parse_opt_vec::<Link>(bag.take("links"), "links") {
            Ok(x) => x,
            Err(e) => { return Err(e) },
        };
        proof {
            assert(bag.taken() =~= data_structure_info_names().subrange(0, 1));
            crate::codec::lemma_take_fresh(data_structure_info_names(), 1, bag.taken());
        }
        let dimensions = match parse_req::<DimsMeasuresAttributes>(bag.take("dimensions"), "dimensions") {
            Ok(x) => x,
            Err(e) => { return Err(e) },
        };
        proof {
            assert(bag.taken() =~= data_structure_info_names().subrange(0, 2));
            crate::codec::lemma_take_fresh(data_structure_info_names(), 2, bag.taken());
        }
        let measures = match parse_opt::<DimsMeasuresAttributes>(bag.take("measures")) {
            Ok(x) => x,
            Err(e) => { return Err(e) },
        };
        proof {
            assert(bag.taken() =~= data_structure_info_names().subrange(0, 3));
            crate::codec::lemma_take_fresh(data_structure_info_names(), 3, bag.taken());
        }
        let attributes = match parse_req::<DimsMeasuresAttributes>(bag.take("attributes"), "attributes") {
            Ok(x) => x,
            Err(e) => { return Err(e) },
        };
        proof {
            assert(bag.taken() =~= data_structure_info_names().subrange(0, 4));
            crate::codec::lemma_take_fresh(data_structure_info_names(), 4, bag.taken());
        }
        let annotations = match parse_opt_vec::<Annotation>(bag.take("annotations"), "annotations") {
            Ok(x) => x,
            Err(e) => { return Err(e) },
        };
        proof {
            assert(bag.taken() =~= data_structure_info_names().subrange(0, 5));
            crate::codec::lemma_take_fresh(data_structure_info_names(), 5, bag.taken());
        }
        let dataset = match parse_opt::<DataSet>(bag.take("dataset")) {
            Ok(x) => x,
            Err(e) => { return Err(e) },
        };
        let ghost tk = bag.taken();
        let other = bag.rest();
        let out = Structure { links, dimensions, measures, attributes, annotations, dataset, other };
        proof {
            assert(tk =~= data_structure_info_names());
            crate::codec::lemma_ext_fields_names(fs, tk);
            assert(data_structure_info_pairs(out) =~= data_structure_info_norm_pairs(fs));
        }
        Ok(out)
    }

    fn to_json(&self) -> (r: JsonValue) {
        let mut b = ObjBuilder::new();
        put_opt_vec(&mut b, "links", &self.links);
        put_rec(&mut b, "dimensions", &self.dimensions);
        put_opt_rec(&mut b, "measures", &self.measures);
        put_rec(&mut b, "attributes", &self.attributes);
        put_opt_vec(&mut b, "annotations", &self.annotations);
        put_opt_rec(&mut b, "dataset", &self.dataset);
        proof {
            let ps = data_structure_info_pairs(*self);
            lemma_pairs_chain(ps, 6);
            assert(ps.subrange(0, 6) =~= ps);
            assert(b.view_fields() == present_fields(ps)) by {
                reveal_with_fuel(pairs_prefix_chunks, 7);
            }
        }
        finish_with_ext(b, &self.other)
    }

    #[verifier::rlimit(50)]
    #[verifier::spinoff_prover]
    proof fn lemma_canon(&self) {
        lemma_data_structure_info_names_distinct();
        let ps = data_structure_info_pairs(*self);
        let ext = self.other.view_fields();
        assert(names_of(ps) =~= data_structure_info_names());
        assert(distinct_names(ps)) by {
            assert forall|i: int, j: int|
                0 <= i < j < ps.len() implies ps[i].0 != ps[j].0 by {
                assert(ps[i].0 == data_structure_info_names()[i]);
                assert(ps[j].0 == data_structure_info_names()[j]);
            }
        }
        assert(disjoint_from(ext, ps)) by {
            assert forall|i: int, j: int|
                0 <= i < ext.len() && 0 <= j < ps.len() implies ext[i].0 != ps[j].0 by {
                assert(!is_known_name(ext[i].0, data_structure_info_names()));
                assert(data_structure_info_names()[j] == ps[j].0);
            }
        }
        lemma_jv_get_present(ps, ext);
        lemma_ext_of_present(ps, ext);
        let fs = self.ser()->Obj_0;
        assert(jv_get(fs, "links"@) == ps[0].1);
        assert(jv_get(fs, "dimensions"@) == ps[1].1);
        assert(jv_get(fs, "measures"@) == ps[2].1);
        assert(jv_get(fs, "attributes"@) == ps[3].1);
        assert(jv_get(fs, "annotations"@) == ps[4].1);
        assert(jv_get(fs, "dataset"@) == ps[5].1);
        match &self.links {
            Some(v) => {
                lemma_arr_canon::<Link>(v@);
            },
            None => {},
        }
        self.dimensions.lemma_canon();
        match self.measures {
            Some(t) => {
                t.lemma_canon();
            },
            None => {},
        }
        self.attributes.lemma_canon();
        match &self.annotations {
            Some(v) => {
                lemma_arr_canon::<Annotation>(v@);
            },
            None => {},
        }
        match self.dataset {
            Some(t) => {
                t.lemma_canon();
            },
            None => {},
        }
        assert(Self::doc_ok(self.ser()));
        assert(data_structure_info_norm_pairs(fs) =~= ps);
        assert(ext_fields(fs, names_of(ps)) == ext);
        assert(ext_fields(fs, data_structure_info_names()) == ext);
    }
}

/// The payload of a data message.
#[derive(Debug, PartialEq)]
pub struct Data {
    pub structures: Option<Vec<Structure>>,
    pub data_sets: Option<Vec<DataSet>>,
    pub other: Extensions,
}

pub open spec fn data_payload_names() -> Seq<Seq<char>> {
    seq!["structures"@, "dataSets"@]
}

pub open spec fn data_payload_pairs(x: Data) -> Seq<(Seq<char>, Option<JVal>)> {
    seq![
        ("structures"@, ovec_ser(x.structures)),
        ("dataSets"@, ovec_ser(x.data_sets)),
    ]
}

pub open spec fn data_payload_norm_pairs(fs: Seq<(Seq<char>, JVal)>) -> Seq<(Seq<char>, Option<JVal>)> {
    seq![
        ("structures"@, opt_recarr_norm::<Structure>(jv_get(fs, "structures"@))),
        ("dataSets"@, opt_recarr_norm::<DataSet>(jv_get(fs, "dataSets"@))),
    ]
}

/// The names this record knows are pairwise distinct.
pub proof fn lemma_data_payload_names_distinct()
    ensures
        forall|i: int, j: int|
            0 <= i < j < data_payload_names().len() ==> data_payload_names()[i] != data_payload_names()[j],
{
    reveal_strlit("structures");
    reveal_strlit("dataSets");
    let ns = data_payload_names();
    assert(ns.len() == 2);
    assert forall|i: int, j: int| 0 <= i < j < ns.len() implies ns[i] != ns[j] by {
        assert("structures"@.len() == 10);
        assert("dataSets"@.len() == 8);
    }
}

impl JsonForm for Data {
    open spec fn wf(&self) -> bool {
        &&& ext_ok(self.other.view_fields(), data_payload_names())
        &&& ovec_wf(self.structures)
        &&& ovec_wf(self.data_sets)
    }

    open spec fn ser(&self) -> JVal {
        JVal::Obj(present_fields(data_payload_pairs(*self)) + self.other.view_fields())
    }

    open spec fn doc_ok(v: JVal) -> bool {
        &&& v is Obj
        &&& {
            let fs = v->Obj_0;
            &&& is_opt_recarr::<Structure>(jv_get(fs, "structures"@))
            &&& is_opt_recarr::<DataSet>(jv_get(fs, "dataSets"@))
        }
    }

    open spec fn doc_norm(v: JVal) -> JVal {
        JVal::Obj(
            present_fields(data_payload_norm_pairs(v->Obj_0)) + ext_fields(v->Obj_0, data_payload_names()),
        )
    }

    #[verifier::rlimit(50)]
    fn from_json(v: JsonValue) -> (r: Result<Self, ParseError>) {
        let o = match v {
            JsonValue::Obj(o) => o,
            _ => { return Err(ParseError::NotObject) },
        };
        let ghost fs = jview_field_vec(o);
        let mut bag = FieldBag::new(o);
        proof {
            lemma_data_payload_names_distinct();
        }
        proof {
            assert(bag.taken() =~= data_payload_names().subrange(0, 0));
            crate::codec::lemma_take_fresh(data_payload_names(), 0, bag.taken());
        }
        let structures = match parse_opt_vec::<Structure>(bag.take("structures"), "structures") {
            Ok(x) => x,
            Err(e) => { return Err(e) },
        };
        proof {
            assert(bag.taken() =~= data_payload_names().subrange(0, 1));
            crate::codec::lemma_take_fresh(data_payload_names(), 1, bag.taken());
        }
        let data_sets = match parse_opt_vec::<DataSet>(bag.take("dataSets"), "dataSets") {
            Ok(x) => x,
            Err(e) => { return Err(e) },
        };
        let ghost tk = bag.taken();
        let other = bag.rest();
        let out = Data { structures, data_sets, other };
        proof {
            assert(tk =~= data_payload_names());
            crate::codec::lemma_ext_fields_names(fs, tk);
            assert(data_payload_pairs(out) =~= data_payload_norm_pairs(fs));
        }
        Ok(out)
    }

    fn to_json(&self) -> (r: JsonValue) {
        let mut b = ObjBuilder::new();
        put_opt_vec(&mut b, "structures", &self.structures);
        put_opt_vec(&mut b, "dataSets", &self.data_sets);
        proof {
            let ps = data_payload_pairs(*self);
            lemma_pairs_chain(ps, 2);
            assert(ps.subrange(0, 2) =~= ps);
            assert(b.view_fields() == present_fields(ps)) by {
                reveal_with_fuel(pairs_prefix_chunks, 3);
            }
        }
        finish_with_ext(b, &self.other)
    }

    #[verifier::rlimit(50)]
    #[verifier::spinoff_prover]
    proof fn lemma_canon(&self) {
        lemma_data_payload_names_distinct();
        let ps = data_payload_pairs(*self);
        let ext = self.other.view_fields();
        assert(names_of(ps) =~= data_payload_names());
        assert(distinct_names(ps)) by {
            assert forall|i: int, j: int|
                0 <= i < j < ps.len() implies ps[i].0 != ps[j].0 by {
                assert(ps[i].0 == data_payload_names()[i]);
                assert(ps[j].0 == data_payload_names()[j]);
            }
        }
        assert(disjoint_from(ext, ps)) by {
            assert forall|i: int, j: int|
                0 <= i < ext.len() && 0 <= j < ps.len() implies ext[i].0 != ps[j].0 by {
                assert(!is_known_name(ext[i].0, data_payload_names()));
                assert(data_payload_names()[j] == ps[j].0);
            }
        }
        lemma_jv_get_present(ps, ext);
        lemma_ext_of_present(ps, ext);
        let fs = self.ser()->Obj_0;
        assert(jv_get(fs, "structures"@) == ps[0].1);
        assert(jv_get(fs, "dataSets"@) == ps[1].1);
        match &self.structures {
            Some(v) => {
                lemma_arr_canon::<Structure>(v@);
            },
            None => {},
        }
        match &self.data_sets {
            Some(v) => {
                lemma_arr_canon::<DataSet>(v@);
            },
            None => {},
        }
        assert(Self::doc_ok(self.ser()));
        assert(data_payload_norm_pairs(fs) =~= ps);
        assert(ext_fields(fs, names_of(ps)) == ext);
        assert(ext_fields(fs, data_payload_names()) == ext);
    }
}

/// The top-level shape of a data message document.
#[derive(Debug, PartialEq)]
pub struct DataMessage {
    pub meta: Option<Meta>,
    pub data: Option<Data>,
    pub error: Option<StatusMessage>,
    pub other: Extensions,
}

pub open spec fn data_message_names() -> Seq<Seq<char>> {
    seq!["meta"@, "data"@, "error"@]
}

pub open spec fn data_message_pairs(x: DataMessage) -> Seq<(Seq<char>, Option<JVal>)> {
    seq![
        ("meta"@, orec_ser(x.meta)),
        ("data"@, orec_ser(x.data)),
        ("error"@, orec_ser(x.error)),
    ]
}

pub open spec fn data_message_norm_pairs(fs: Seq<(Seq<char>, JVal)>) -> Seq<(Seq<char>, Option<JVal>)> {
    seq![
        ("meta"@, opt_rec_norm::<Meta>(jv_get(fs, "meta"@))),
        ("data"@, opt_rec_norm::<Data>(jv_get(fs, "data"@))),
        ("error"@, opt_rec_norm::<StatusMessage>(jv_get(fs, "error"@))),
    ]
}

/// The names this record knows are pairwise distinct.
pub proof fn lemma_data_message_names_distinct()
    ensures
        forall|i: int, j: int|
            0 <= i < j < data_message_names().len() ==> data_message_names()[i] != data_message_names()[j],
{
    reveal_strlit("meta");
    reveal_strlit("data");
    reveal_strlit("error");
    let ns = data_message_names();
    assert(ns.len() == 3);
    assert forall|i: int, j: int| 0 <= i < j < ns.len() implies ns[i] != ns[j] by {
        assert("meta"@.len() == 4);
        assert("data"@.len() == 4);
        assert("error"@.len() == 5);
        assert("meta"@[0] == 'm');
        assert("data"@[0] == 'd');
    }
}

impl JsonForm for DataMessage {
    open spec fn wf(&self) -> bool {
        &&& ext_ok(self.other.view_fields(), data_message_names())
        &&& orec_wf(self.meta)
        &&& orec_wf(self.data)
        &&& orec_wf(self.error)
    }

    open spec fn ser(&self) -> JVal {
        JVal::Obj(present_fields(data_message_pairs(*self)) + self.other.view_fields())
    }

    open spec fn doc_ok(v: JVal) -> bool {
        &&& v is Obj
        &&& {
            let fs = v->Obj_0;
            &&& is_opt_rec::<Meta>(jv_get(fs, "meta"@))
            &&& is_opt_rec::<Data>(jv_get(fs, "data"@))
            &&& is_opt_rec::<StatusMessage>(jv_get(fs, "error"@))
        }
    }

    open spec fn doc_norm(v: JVal) -> JVal {
        JVal::Obj(
            present_fields(data_message_norm_pairs(v->Obj_0)) + ext_fields(v->Obj_0, data_message_names()),
        )
    }

    #[verifier::rlimit(50)]
    fn from_json(v: JsonValue) -> (r: Result<Self, ParseError>) {
        let o = match v {
            JsonValue::Obj(o) => o,
            _ => { return Err(ParseError::NotObject) },
        };
        let ghost fs = jview_field_vec(o);
        let mut bag = FieldBag::new(o);
        proof {
            lemma_data_message_names_distinct();
        }
        proof {
            assert(bag.taken() =~= data_message_names().subrange(0, 0));
            crate::codec::lemma_take_fresh(data_message_names(), 0, bag.taken());
        }
        let meta = match parse_opt::<Meta>(bag.take("meta")) {
            Ok(x) => x,
            Err(e) => { return Err(e) },
        };
        proof {
            assert(bag.taken() =~= data_message_names().subrange(0, 1));
            crate::codec::lemma_take_fresh(data_message_names(), 1, bag.taken());
        }
        let data = match parse_opt::<Data>(bag.take("data")) {
            Ok(x) => x,
            Err(e) => { return Err(e) },
        };
        proof {
            assert(bag.taken() =~= data_message_names().subrange(0, 2));
            crate::codec::lemma_take_fresh(data_message_names(), 2, bag.taken());
        }
        let error = match parse_opt::<StatusMessage>(bag.take("error")) {
            Ok(x) => x,
            Err(e) => { return Err(e) },
        };
        let ghost tk = bag.taken();
        let other = bag.rest();
        let out = DataMessage { meta, data, error, other };
        proof {
            assert(tk =~= data_message_names());
            crate::codec::lemma_ext_fields_names(fs, tk);
            assert(data_message_pairs(out) =~= data_message_norm_pairs(fs));
        }
        Ok(out)
    }

    fn to_json(&self) -> (r: JsonValue) {
        let mut b = ObjBuilder::new();
        put_opt_rec(&mut b, "meta", &self.meta);
        put_opt_rec(&mut b, "data", &self.data);
        put_opt_rec(&mut b, "error", &self.error);
        proof {
            let ps = data_message_pairs(*self);
            lemma_pairs_chain(ps, 3);
            assert(ps.subrange(0, 3) =~= ps);
            assert(b.view_fields() == present_fields(ps)) by {
                reveal_with_fuel(pairs_prefix_chunks, 4);
            }
        }
        finish_with_ext(b, &self.other)
    }

    #[verifier::rlimit(50)]
    #[verifier::spinoff_prover]
    proof fn lemma_canon(&self) {
        lemma_data_message_names_distinct();
        let ps = data_message_pairs(*self);
        let ext = self.other.view_fields();
        assert(names_of(ps) =~= data_message_names());
        assert(distinct_names(ps)) by {
            assert forall|i: int, j: int|
                0 <= i < j < ps.len() implies ps[i].0 != ps[j].0 by {
                assert(ps[i].0 == data_message_names()[i]);
                assert(ps[j].0 == data_message_names()[j]);
            }
        }
        assert(disjoint_from(ext, ps)) by {
            assert forall|i: int, j: int|
                0 <= i < ext.len() && 0 <= j < ps.len() implies ext[i].0 != ps[j].0 by {
                assert(!is_known_name(ext[i].0, data_message_names()));
                assert(data_message_names()[j] == ps[j].0);
            }
        }
        lemma_jv_get_present(ps, ext);
        lemma_ext_of_present(ps, ext);
        let fs = self.ser()->Obj_0;
        assert(jv_get(fs, "meta"@) == ps[0].1);
        assert(jv_get(fs, "data"@) == ps[1].1);
        assert(jv_get(fs, "error"@) == ps[2].1);
        match self.meta {
            Some(t) => {
                t.lemma_canon();
            },
            None => {},
        }
        match self.data {
            Some(t) => {
                t.lemma_canon();
            },
            None => {},
        }
        match self.error {
            Some(t) => {
                t.lemma_canon();
            },
            None => {},
        }
        assert(Self::doc_ok(self.ser()));
        assert(data_message_norm_pairs(fs) =~= ps);
        assert(ext_fields(fs, names_of(ps)) == ext);
        assert(ext_fields(fs, data_message_names()) == ext);
    }
}


} // verus!
