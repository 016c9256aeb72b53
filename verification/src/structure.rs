//! The common artefact identity, items, representations, and the
//! structurally-disambiguated values of the structural metadata model.

use vstd::prelude::*;

use crate::codec::{
    JsonForm, arr_norm, arr_ok, chunk, disjoint_from, distinct_names, ext_ok, finish_with_ext,
    is_opt_rec, is_opt_recarr, is_req_rec, is_req_recarr, lemma_arr_canon, lemma_ext_of_present,
    lemma_jv_get_present, names_of, opt_rec_norm, opt_recarr_norm, orec_ser, orec_wf, ovec_ser,
    ovec_wf, parse_opt, parse_opt_vec, parse_req, parse_req_vec, present_fields, put_bool,
    put_opt_bool, put_opt_isize, put_opt_rec, put_opt_str, put_opt_usize, put_opt_vec, put_rec,
    put_str, put_usize, put_vec, req_rec_norm, seq_ser, seq_wf, vec_ser,
};
use crate::fields::{
    Extensions, FieldBag, ObjBuilder, ParseError, get_opt_bool, get_opt_isize, get_opt_string,
    get_opt_usize, get_req_bool, get_req_string, get_req_usize, str_eq,
};
use crate::json::{
    JVal, JsonValue, ext_fields, is_known_name, is_opt_bool, is_opt_isize, is_opt_str,
    is_opt_usize, is_req_bool, is_req_str, is_req_usize, jv_get, jv_of_obool, jv_of_oint,
    jv_of_ostr, jview, jview_field_vec, oisize_view, opt_bool, opt_int, opt_str, ostr_view,
    ousize_view,
};
use crate::primitives::{Annotation, DataType, Link, LocalizedText, SentinelValue};
use crate::primitives::{lemma_pairs_chain, pairs_prefix_chunks};

verus! {


/// Whether a component is required or optional.
#[derive(Debug, Clone, Copy, PartialEq, Eq)]
pub enum Usage {
    Mandatory,
    Optional,
}

impl Usage {
    /// The wire token of this value.
    pub open spec fn tok(self) -> Seq<char> {
        match self {
            Usage::Mandatory => "mandatory"@,
            Usage::Optional => "optional"@,
        }
    }
}

impl JsonForm for Usage {
    open spec fn wf(&self) -> bool {
        true
    }

    open spec fn ser(&self) -> JVal {
        JVal::Str(self.tok())
    }

    open spec fn doc_ok(v: JVal) -> bool {
        v matches JVal::Str(s) && {
            ||| s == "mandatory"@
            ||| s == "optional"@
        }
    }

    open spec fn doc_norm(v: JVal) -> JVal {
        v
    }

    fn from_json(v: JsonValue) -> (r: Result<Self, ParseError>) {
        match v {
            JsonValue::Str(s) => {
                if str_eq(s.as_str(), "mandatory") {
                    Ok(Usage::Mandatory)
                } else if str_eq(s.as_str(), "optional") {
                    Ok(Usage::Optional)
                } else {
                    Err(ParseError::Token(s))
                }
            },
            _ => Err(ParseError::Shape("usage".to_owned(), crate::fields::ValueKind::Text)),
        }
    }

    fn to_json(&self) -> (r: JsonValue) {
        match self {
            Usage::Mandatory => JsonValue::Str("mandatory".to_owned()),
            Usage::Optional => JsonValue::Str("optional".to_owned()),
        }
    }

    proof fn lemma_canon(&self) {
    }
}

/// The specific data type of a time dimension.
#[derive(Debug, Clone, Copy, PartialEq, Eq)]
pub enum TimeDimensionDataType {
    ObservationalTimePeriod,
    StandardTimePeriod,
    BasicTimePeriod,
    GregorianTimePeriod,
    GregorianYear,
    GregorianYearMonth,
    GregorianDay,
    ReportingTimePeriod,
    ReportingYear,
    ReportingSemester,
    ReportingTrimester,
    ReportingQuarter,
    ReportingMonth,
    ReportingWeek,
    ReportingDay,
    DateTime,
    TimeRange,
}

impl TimeDimensionDataType {
    /// The wire token of this value.
    pub open spec fn tok(self) -> Seq<char> {
        match self {
            TimeDimensionDataType::ObservationalTimePeriod => "ObservationalTimePeriod"@,
            TimeDimensionDataType::StandardTimePeriod => "StandardTimePeriod"@,
            TimeDimensionDataType::BasicTimePeriod => "BasicTimePeriod"@,
            TimeDimensionDataType::GregorianTimePeriod => "GregorianTimePeriod"@,
            TimeDimensionDataType::GregorianYear => "GregorianYear"@,
            TimeDimensionDataType::GregorianYearMonth => "GregorianYearMonth"@,
            TimeDimensionDataType::GregorianDay => "GregorianDay"@,
            TimeDimensionDataType::ReportingTimePeriod => "ReportingTimePeriod"@,
            TimeDimensionDataType::ReportingYear => "ReportingYear"@,
            TimeDimensionDataType::ReportingSemester => "ReportingSemester"@,
            TimeDimensionDataType::ReportingTrimester => "ReportingTrimester"@,
            TimeDimensionDataType::ReportingQuarter => "ReportingQuarter"@,
            TimeDimensionDataType::ReportingMonth => "ReportingMonth"@,
            TimeDimensionDataType::ReportingWeek => "ReportingWeek"@,
            TimeDimensionDataType::ReportingDay => "ReportingDay"@,
            TimeDimensionDataType::DateTime => "DateTime"@,
            TimeDimensionDataType::TimeRange => "TimeRange"@,
        }
    }
}

impl JsonForm for TimeDimensionDataType {
    open spec fn wf(&self) -> bool {
        true
    }

    open spec fn ser(&self) -> JVal {
        JVal::Str(self.tok())
    }

    open spec fn doc_ok(v: JVal) -> bool {
        v matches JVal::Str(s) && {
            ||| s == "ObservationalTimePeriod"@
            ||| s == "StandardTimePeriod"@
            ||| s == "BasicTimePeriod"@
            ||| s == "GregorianTimePeriod"@
            ||| s == "GregorianYear"@
            ||| s == "GregorianYearMonth"@
            ||| s == "GregorianDay"@
            ||| s == "ReportingTimePeriod"@
            ||| s == "ReportingYear"@
            ||| s == "ReportingSemester"@
            ||| s == "ReportingTrimester"@
            ||| s == "ReportingQuarter"@
            ||| s == "ReportingMonth"@
            ||| s == "ReportingWeek"@
            ||| s == "ReportingDay"@
            ||| s == "DateTime"@
            ||| s == "TimeRange"@
        }
    }

    open spec fn doc_norm(v: JVal) -> JVal {
        v
    }

    fn from_json(v: JsonValue) -> (r: Result<Self, ParseError>) {
        match v {
            JsonValue::Str(s) => {
                if str_eq(s.as_str(), "ObservationalTimePeriod") {
                    Ok(TimeDimensionDataType::ObservationalTimePeriod)
                } else if str_eq(s.as_str(), "StandardTimePeriod") {
                    Ok(TimeDimensionDataType::StandardTimePeriod)
                } else if str_eq(s.as_str(), "BasicTimePeriod") {
                    Ok(TimeDimensionDataType::BasicTimePeriod)
                } else if str_eq(s.as_str(), "GregorianTimePeriod") {
                    Ok(TimeDimensionDataType::GregorianTimePeriod)
                } else if str_eq(s.as_str(), "GregorianYear") {
                    Ok(TimeDimensionDataType::GregorianYear)
                } else if str_eq(s.as_str(), "GregorianYearMonth") {
                    Ok(TimeDimensionDataType::GregorianYearMonth)
                } else if str_eq(s.as_str(), "GregorianDay") {
                    Ok(TimeDimensionDataType::GregorianDay)
                } else if str_eq(s.as_str(), "ReportingTimePeriod") {
                    Ok(TimeDimensionDataType::ReportingTimePeriod)
                } else if str_eq(s.as_str(), "ReportingYear") {
                    Ok(TimeDimensionDataType::ReportingYear)
                } else if str_eq(s.as_str(), "ReportingSemester") {
                    Ok(TimeDimensionDataType::ReportingSemester)
                } else if str_eq(s.as_str(), "ReportingTrimester") {
                    Ok(TimeDimensionDataType::ReportingTrimester)
                } else if str_eq(s.as_str(), "ReportingQuarter") {
                    Ok(TimeDimensionDataType::ReportingQuarter)
                } else if str_eq(s.as_str(), "ReportingMonth") {
                    Ok(TimeDimensionDataType::ReportingMonth)
                } else if str_eq(s.as_str(), "ReportingWeek") {
                    Ok(TimeDimensionDataType::ReportingWeek)
                } else if str_eq(s.as_str(), "ReportingDay") {
                    Ok(TimeDimensionDataType::ReportingDay)
                } else if str_eq(s.as_str(), "DateTime") {
                    Ok(TimeDimensionDataType::DateTime)
                } else if str_eq(s.as_str(), "TimeRange") {
                    Ok(TimeDimensionDataType::TimeRange)
                } else {
                    Err(ParseError::Token(s))
                }
            },
            _ => Err(ParseError::Shape("time dimension data type".to_owned(), crate::fields::ValueKind::Text)),
        }
    }

    fn to_json(&self) -> (r: JsonValue) {
        match self {
            TimeDimensionDataType::ObservationalTimePeriod => JsonValue::Str("ObservationalTimePeriod".to_owned()),
            TimeDimensionDataType::StandardTimePeriod => JsonValue::Str("StandardTimePeriod".to_owned()),
            TimeDimensionDataType::BasicTimePeriod => JsonValue::Str("BasicTimePeriod".to_owned()),
            TimeDimensionDataType::GregorianTimePeriod => JsonValue::Str("GregorianTimePeriod".to_owned()),
            TimeDimensionDataType::GregorianYear => JsonValue::Str("GregorianYear".to_owned()),
            TimeDimensionDataType::GregorianYearMonth => JsonValue::Str("GregorianYearMonth".to_owned()),
            TimeDimensionDataType::GregorianDay => JsonValue::Str("GregorianDay".to_owned()),
            TimeDimensionDataType::ReportingTimePeriod => JsonValue::Str("ReportingTimePeriod".to_owned()),
            TimeDimensionDataType::ReportingYear => JsonValue::Str("ReportingYear".to_owned()),
            TimeDimensionDataType::ReportingSemester => JsonValue::Str("ReportingSemester".to_owned()),
            TimeDimensionDataType::ReportingTrimester => JsonValue::Str("ReportingTrimester".to_owned()),
            TimeDimensionDataType::ReportingQuarter => JsonValue::Str("ReportingQuarter".to_owned()),
            TimeDimensionDataType::ReportingMonth => JsonValue::Str("ReportingMonth".to_owned()),
            TimeDimensionDataType::ReportingWeek => JsonValue::Str("ReportingWeek".to_owned()),
            TimeDimensionDataType::ReportingDay => JsonValue::Str("ReportingDay".to_owned()),
            TimeDimensionDataType::DateTime => JsonValue::Str("DateTime".to_owned()),
            TimeDimensionDataType::TimeRange => JsonValue::Str("TimeRange".to_owned()),
        }
    }

    proof fn lemma_canon(&self) {
    }
}

impl TimeDimensionDataType {
    /// The time data types are the subset of the data types naming a time
    /// period; any other data type is refused.
    pub fn try_from(value: DataType) -> (r: Result<Self, ()>)
        ensures
            r matches Ok(t) ==> t.tok() == value.tok(),
            (r is Ok) == value.spec_is_time(),
    {
        match value {
            DataType::ObservationalTimePeriod => Ok(Self::ObservationalTimePeriod),
            DataType::StandardTimePeriod => Ok(Self::StandardTimePeriod),
            DataType::BasicTimePeriod => Ok(Self::BasicTimePeriod),
            DataType::GregorianTimePeriod => Ok(Self::GregorianTimePeriod),
            DataType::GregorianYear => Ok(Self::GregorianYear),
            DataType::GregorianYearMonth => Ok(Self::GregorianYearMonth),
            DataType::GregorianDay => Ok(Self::GregorianDay),
            DataType::ReportingTimePeriod => Ok(Self::ReportingTimePeriod),
            DataType::ReportingYear => Ok(Self::ReportingYear),
            DataType::ReportingSemester => Ok(Self::ReportingSemester),
            DataType::ReportingTrimester => Ok(Self::ReportingTrimester),
            DataType::ReportingQuarter => Ok(Self::ReportingQuarter),
            DataType::ReportingMonth => Ok(Self::ReportingMonth),
            DataType::ReportingWeek => Ok(Self::ReportingWeek),
            DataType::ReportingDay => Ok(Self::ReportingDay),
            DataType::DateTime => Ok(Self::DateTime),
            DataType::TimeRange => Ok(Self::TimeRange),
            _ => Err(()),
        }
    }

    /// Whether this is one of the reporting time periods.
    pub fn is_reporting(&self) -> (r: bool)
        ensures
            r == self.spec_is_reporting(),
    {
        matches!(
            self,
            Self::ReportingDay
                | Self::ReportingWeek
                | Self::ReportingMonth
                | Self::ReportingYear
                | Self::ReportingQuarter
                | Self::ReportingSemester
                | Self::ReportingTrimester
                | Self::ReportingTimePeriod
        )
    }

    pub open spec fn spec_is_reporting(&self) -> bool {
        self is ReportingDay || self is ReportingWeek || self is ReportingMonth
            || self is ReportingYear || self is ReportingQuarter || self is ReportingSemester
            || self is ReportingTrimester || self is ReportingTimePeriod
    }

    /// Whether this is one of the Gregorian calendar periods.
    pub fn is_gregorian(&self) -> (r: bool)
        ensures
            r == self.spec_is_gregorian(),
    {
        matches!(
            self,
            Self::GregorianTimePeriod
                | Self::GregorianYear
                | Self::GregorianYearMonth
                | Self::GregorianDay
        )
    }

    pub open spec fn spec_is_gregorian(&self) -> bool {
        self is GregorianTimePeriod || self is GregorianYear || self is GregorianYearMonth
            || self is GregorianDay
    }
}

impl DataType {
    /// Whether this data type names a time period.
    pub open spec fn spec_is_time(&self) -> bool {
        ||| self is ObservationalTimePeriod
        ||| self is StandardTimePeriod
        ||| self is BasicTimePeriod
        ||| self is GregorianTimePeriod
        ||| self is GregorianYear
        ||| self is GregorianYearMonth
        ||| self is GregorianDay
        ||| self is ReportingTimePeriod
        ||| self is ReportingYear
        ||| self is ReportingSemester
        ||| self is ReportingTrimester
        ||| self is ReportingQuarter
        ||| self is ReportingMonth
        ||| self is ReportingWeek
        ||| self is ReportingDay
        ||| self is DateTime
        ||| self is TimeRange
    }

    /// Widens a time data type back into the full set of data types.
    pub fn from(value: TimeDimensionDataType) -> (r: Self)
        ensures
            r.tok() == value.tok(),
            r.spec_is_time(),
    {
        match value {
            TimeDimensionDataType::ObservationalTimePeriod => Self::ObservationalTimePeriod,
            TimeDimensionDataType::StandardTimePeriod => Self::StandardTimePeriod,
            TimeDimensionDataType::BasicTimePeriod => Self::BasicTimePeriod,
            TimeDimensionDataType::GregorianTimePeriod => Self::GregorianTimePeriod,
            TimeDimensionDataType::GregorianYear => Self::GregorianYear,
            TimeDimensionDataType::GregorianYearMonth => Self::GregorianYearMonth,
            TimeDimensionDataType::GregorianDay => Self::GregorianDay,
            TimeDimensionDataType::ReportingTimePeriod => Self::ReportingTimePeriod,
            TimeDimensionDataType::ReportingYear => Self::ReportingYear,
            TimeDimensionDataType::ReportingSemester => Self::ReportingSemester,
            TimeDimensionDataType::ReportingTrimester => Self::ReportingTrimester,
            TimeDimensionDataType::ReportingQuarter => Self::ReportingQuarter,
            TimeDimensionDataType::ReportingMonth => Self::ReportingMonth,
            TimeDimensionDataType::ReportingWeek => Self::ReportingWeek,
            TimeDimensionDataType::ReportingDay => Self::ReportingDay,
            TimeDimensionDataType::DateTime => Self::DateTime,
            TimeDimensionDataType::TimeRange => Self::TimeRange,
        }
    }
}

/// The identity, versioning, validity and annotation fields every named
/// artefact carries.
#[derive(Debug, PartialEq)]
pub struct CommonArtefactType {
    pub id: String,
    pub agency_id: Option<String>,
    pub version: Option<String>,
    pub name: Option<String>,
    pub names: Option<LocalizedText>,
    pub valid_from: Option<String>,
    pub valid_to: Option<String>,
    pub is_external_reference: Option<bool>,
    pub annotations: Option<Vec<Annotation>>,
    pub links: Option<Vec<Link>>,
    pub other: Extensions,
}

pub open spec fn common_artefact_names() -> Seq<Seq<char>> {
    seq!["id"@, "agencyId"@, "version"@, "name"@, "names"@, "validFrom"@, "validTo"@, "isExternalReference"@, "annotations"@, "links"@]
}

pub open spec fn common_artefact_pairs(x: CommonArtefactType) -> Seq<(Seq<char>, Option<JVal>)> {
    seq![
        ("id"@, Some(JVal::Str(x.id@))),
        ("agencyId"@, jv_of_ostr(ostr_view(x.agency_id))),
        ("version"@, jv_of_ostr(ostr_view(x.version))),
        ("name"@, jv_of_ostr(ostr_view(x.name))),
        ("names"@, orec_ser(x.names)),
        ("validFrom"@, jv_of_ostr(ostr_view(x.valid_from))),
        ("validTo"@, jv_of_ostr(ostr_view(x.valid_to))),
        ("isExternalReference"@, jv_of_obool(x.is_external_reference)),
        ("annotations"@, ovec_ser(x.annotations)),
        ("links"@, ovec_ser(x.links)),
    ]
}

pub open spec fn common_artefact_norm_pairs(fs: Seq<(Seq<char>, JVal)>) -> Seq<(Seq<char>, Option<JVal>)> {
    seq![
        ("id"@, jv_of_ostr(opt_str(jv_get(fs, "id"@)))),
        ("agencyId"@, jv_of_ostr(opt_str(jv_get(fs, "agencyId"@)))),
        ("version"@, jv_of_ostr(opt_str(jv_get(fs, "version"@)))),
        ("name"@, jv_of_ostr(opt_str(jv_get(fs, "name"@)))),
        ("names"@, opt_rec_norm::<LocalizedText>(jv_get(fs, "names"@))),
        ("validFrom"@, jv_of_ostr(opt_str(jv_get(fs, "validFrom"@)))),
        ("validTo"@, jv_of_ostr(opt_str(jv_get(fs, "validTo"@)))),
        ("isExternalReference"@, jv_of_obool(opt_bool(jv_get(fs, "isExternalReference"@)))),
        ("annotations"@, opt_recarr_norm::<Annotation>(jv_get(fs, "annotations"@))),
        ("links"@, opt_recarr_norm::<Link>(jv_get(fs, "links"@))),
    ]
}

/// The names this record knows are pairwise distinct.
pub proof fn lemma_common_artefact_names_distinct()
    ensures
        forall|i: int, j: int|
            0 <= i < j < common_artefact_names().len() ==> common_artefact_names()[i] != common_artefact_names()[j],
{
    reveal_strlit("id");
    reveal_strlit("agencyId");
    reveal_strlit("version");
    reveal_strlit("name");
    reveal_strlit("names");
    reveal_strlit("validFrom");
    reveal_strlit("validTo");
    reveal_strlit("isExternalReference");
    reveal_strlit("annotations");
    reveal_strlit("links");
    let ns = common_artefact_names();
    assert(ns.len() == 10);
    assert forall|i: int, j: int| 0 <= i < j < ns.len() implies ns[i] != ns[j] by {
        assert("id"@.len() == 2);
        assert("agencyId"@.len() == 8);
        assert("version"@.len() == 7);
        assert("name"@.len() == 4);
        assert("names"@.len() == 5);
        assert("validFrom"@.len() == 9);
        assert("validTo"@.len() == 7);
        assert("isExternalReference"@.len() == 19);
        assert("annotations"@.len() == 11);
        assert("links"@.len() == 5);
        assert("version"@[1] == 'e');
        assert("validTo"@[1] == 'a');
        assert("names"@[0] == 'n');
        assert("links"@[0] == 'l');
    }
}

impl JsonForm for CommonArtefactType {
    open spec fn wf(&self) -> bool {
        &&& ext_ok(self.other.view_fields(), common_artefact_names())
        &&& crate::fields::window_le(ostr_view(self.valid_from), ostr_view(self.valid_to))
        &&& orec_wf(self.names)
        &&& ovec_wf(self.annotations)
        &&& ovec_wf(self.links)
    }

    open spec fn ser(&self) -> JVal {
        JVal::Obj(present_fields(common_artefact_pairs(*self)) + self.other.view_fields())
    }

    open spec fn doc_ok(v: JVal) -> bool {
        &&& v is Obj
        &&& {
            let fs = v->Obj_0;
            &&& is_req_str(jv_get(fs, "id"@))
            &&& is_opt_str(jv_get(fs, "agencyId"@))
            &&& is_opt_str(jv_get(fs, "version"@))
            &&& is_opt_str(jv_get(fs, "name"@))
            &&& is_opt_rec::<LocalizedText>(jv_get(fs, "names"@))
            &&& is_opt_str(jv_get(fs, "validFrom"@))
            &&& is_opt_str(jv_get(fs, "validTo"@))
            &&& crate::fields::window_le(
                opt_str(jv_get(fs, "validFrom"@)),
                opt_str(jv_get(fs, "validTo"@)),
            )
            &&& is_opt_bool(jv_get(fs, "isExternalReference"@))
            &&& is_opt_recarr::<Annotation>(jv_get(fs, "annotations"@))
            &&& is_opt_recarr::<Link>(jv_get(fs, "links"@))
        }
    }

    open spec fn doc_norm(v: JVal) -> JVal {
        JVal::Obj(
            present_fields(common_artefact_norm_pairs(v->Obj_0)) + ext_fields(v->Obj_0, common_artefact_names()),
        )
    }

    #[verifier::rlimit(50)]
    #[verifier::rlimit(50)]
    fn from_json(v: JsonValue) -> (r: Result<Self, ParseError>) {
        let o = match v {
            JsonValue::Obj(o) => o,
            _ => { return Err(ParseError::NotObject) },
        };
        let ghost fs = jview_field_vec(o);
        let mut bag = FieldBag::new(o);
        proof {
            lemma_common_artefact_names_distinct();
        }
        proof {
            assert(bag.taken() =~= common_artefact_names().subrange(0, 0));
            crate::codec::lemma_take_fresh(common_artefact_names(), 0, bag.taken());
        }
        let id = match get_req_string(bag.take("id"), "id") {
            Ok(x) => x,
            Err(e) => { return Err(e) },
        };
        proof {
            assert(bag.taken() =~= common_artefact_names().subrange(0, 1));
            crate::codec::lemma_take_fresh(common_artefact_names(), 1, bag.taken());
        }
        let agency_id = match get_opt_string(bag.take("agencyId"), "agencyId") {
            Ok(x) => x,
            Err(e) => { return Err(e) },
        };
        proof {
            assert(bag.taken() =~= common_artefact_names().subrange(0, 2));
            crate::codec::lemma_take_fresh(common_artefact_names(), 2, bag.taken());
        }
        let version = match get_opt_string(bag.take("version"), "version") {
            Ok(x) => x,
            Err(e) => { return Err(e) },
        };
        proof {
            assert(bag.taken() =~= common_artefact_names().subrange(0, 3));
            crate::codec::lemma_take_fresh(common_artefact_names(), 3, bag.taken());
        }
        let name = match get_opt_string(bag.take("name"), "name") {
            Ok(x) => x,
            Err(e) => { return Err(e) },
        };
        proof {
            assert(bag.taken() =~= common_artefact_names().subrange(0, 4));
            crate::codec::lemma_take_fresh(common_artefact_names(), 4, bag.taken());
        }
        let names = match parse_opt::<LocalizedText>(bag.take("names")) {
            Ok(x) => x,
            Err(e) => { return Err(e) },
        };
        proof {
            assert(bag.taken() =~= common_artefact_names().subrange(0, 5));
            crate::codec::lemma_take_fresh(common_artefact_names(), 5, bag.taken());
        }
        let valid_from = match get_opt_string(bag.take("validFrom"), "validFrom") {
            Ok(x) => x,
            Err(e) => { return Err(e) },
        };
        proof {
            assert(bag.taken() =~= common_artefact_names().subrange(0, 6));
            crate::codec::lemma_take_fresh(common_artefact_names(), 6, bag.taken());
        }
        let valid_to = match get_opt_string(bag.take("validTo"), "validTo") {
            Ok(x) => x,
            Err(e) => { return Err(e) },
        };
        match (&valid_from, &valid_to) {
            (Some(f), Some(t)) => {
                if !crate::fields::str_le(f.as_str(), t.as_str()) {
                    return Err(
                        ParseError::Shape("validTo".to_owned(), crate::fields::ValueKind::Window),
                    );
                }
            },
            _ => (),
        }
        proof {
            assert(bag.taken() =~= common_artefact_names().subrange(0, 7));
            crate::codec::lemma_take_fresh(common_artefact_names(), 7, bag.taken());
        }
        let is_external_reference = match get_opt_bool(bag.take("isExternalReference"), "isExternalReference") {
            Ok(x) => x,
            Err(e) => { return Err(e) },
        };
        proof {
            assert(bag.taken() =~= common_artefact_names().subrange(0, 8));
            crate::codec::lemma_take_fresh(common_artefact_names(), 8, bag.taken());
        }
        let annotations = match parse_opt_vec::<Annotation>(bag.take("annotations"), "annotations") {
            Ok(x) => x,
            Err(e) => { return Err(e) },
        };
        proof {
            assert(bag.taken() =~= common_artefact_names().subrange(0, 9));
            crate::codec::lemma_take_fresh(common_artefact_names(), 9, bag.taken());
        }
        let links = match parse_opt_vec::<Link>(bag.take("links"), "links") {
            Ok(x) => x,
            Err(e) => { return Err(e) },
        };
        let ghost tk = bag.taken();
        let other = bag.rest();
        let out = CommonArtefactType { id, agency_id, version, name, names, valid_from, valid_to, is_external_reference, annotations, links, other };
        proof {
            assert(tk =~= common_artefact_names());
            crate::codec::lemma_ext_fields_names(fs, tk);
            assert(common_artefact_pairs(out) =~= common_artefact_norm_pairs(fs));
        }
        Ok(out)
    }

    fn to_json(&self) -> (r: JsonValue) {
        let mut b = ObjBuilder::new();
        put_str(&mut b, "id", &self.id);
        put_opt_str(&mut b, "agencyId", &self.agency_id);
        put_opt_str(&mut b, "version", &self.version);
        put_opt_str(&mut b, "name", &self.name);
        put_opt_rec(&mut b, "names", &self.names);
        put_opt_str(&mut b, "validFrom", &self.valid_from);
        put_opt_str(&mut b, "validTo", &self.valid_to);
        put_opt_bool(&mut b, "isExternalReference", &self.is_external_reference);
        put_opt_vec(&mut b, "annotations", &self.annotations);
        put_opt_vec(&mut b, "links", &self.links);
        proof {
            let ps = common_artefact_pairs(*self);
            lemma_pairs_chain(ps, 10);
            assert(ps.subrange(0, 10) =~= ps);
            assert(b.view_fields() == present_fields(ps)) by {
                reveal_with_fuel(pairs_prefix_chunks, 11);
            }
        }
        finish_with_ext(b, &self.other)
    }

    #[verifier::rlimit(50)]
    #[verifier::spinoff_prover]
    proof fn lemma_canon(&self) {
        lemma_common_artefact_names_distinct();
        let ps = common_artefact_pairs(*self);
        let ext = self.other.view_fields();
        assert(names_of(ps) =~= common_artefact_names());
        assert(distinct_names(ps)) by {
            assert forall|i: int, j: int|
                0 <= i < j < ps.len() implies ps[i].0 != ps[j].0 by {
                assert(ps[i].0 == common_artefact_names()[i]);
                assert(ps[j].0 == common_artefact_names()[j]);
            }
        }
        assert(disjoint_from(ext, ps)) by {
            assert forall|i: int, j: int|
                0 <= i < ext.len() && 0 <= j < ps.len() implies ext[i].0 != ps[j].0 by {
                assert(!is_known_name(ext[i].0, common_artefact_names()));
                assert(common_artefact_names()[j] == ps[j].0);
            }
        }
        lemma_jv_get_present(ps, ext);
        lemma_ext_of_present(ps, ext);
        let fs = self.ser()->Obj_0;
        assert(jv_get(fs, "id"@) == ps[0].1);
        assert(jv_get(fs, "agencyId"@) == ps[1].1);
        assert(jv_get(fs, "version"@) == ps[2].1);
        assert(jv_get(fs, "name"@) == ps[3].1);
        assert(jv_get(fs, "names"@) == ps[4].1);
        assert(jv_get(fs, "validFrom"@) == ps[5].1);
        assert(jv_get(fs, "validTo"@) == ps[6].1);
        assert(jv_get(fs, "isExternalReference"@) == ps[7].1);
        assert(jv_get(fs, "annotations"@) == ps[8].1);
        assert(jv_get(fs, "links"@) == ps[9].1);
        match self.names {
            Some(t) => {
                t.lemma_canon();
            },
            None => {},
        }
        match &self.annotations {
            Some(v) => {
                lemma_arr_canon::<Annotation>(v@);
            },
            None => {},
        }
        match &self.links {
            Some(v) => {
                lemma_arr_canon::<Link>(v@);
            },
            None => {},
        }
        assert(Self::doc_ok(self.ser()));
        assert(common_artefact_norm_pairs(fs) =~= ps);
        assert(ext_fields(fs, names_of(ps)) == ext);
        assert(ext_fields(fs, common_artefact_names()) == ext);
    }
}

/// An abstract generic item within an item scheme.
#[derive(Debug, PartialEq)]
pub struct Item {
    pub id: String,
    pub name: Option<String>,
    pub names: Option<LocalizedText>,
    pub description: Option<String>,
    pub descriptions: Option<LocalizedText>,
    pub annotations: Option<Vec<Annotation>>,
    pub links: Option<Vec<Link>>,
    pub other: Extensions,
}

pub open spec fn item_names() -> Seq<Seq<char>> {
    seq!["id"@, "name"@, "names"@, "description"@, "descriptions"@, "annotations"@, "links"@]
}

pub open spec fn item_pairs(x: Item) -> Seq<(Seq<char>, Option<JVal>)> {
    seq![
        ("id"@, Some(JVal::Str(x.id@))),
        ("name"@, jv_of_ostr(ostr_view(x.name))),
        ("names"@, orec_ser(x.names)),
        ("description"@, jv_of_ostr(ostr_view(x.description))),
        ("descriptions"@, orec_ser(x.descriptions)),
        ("annotations"@, ovec_ser(x.annotations)),
        ("links"@, ovec_ser(x.links)),
    ]
}

pub open spec fn item_norm_pairs(fs: Seq<(Seq<char>, JVal)>) -> Seq<(Seq<char>, Option<JVal>)> {
    seq![
        ("id"@, jv_of_ostr(opt_str(jv_get(fs, "id"@)))),
        ("name"@, jv_of_ostr(opt_str(jv_get(fs, "name"@)))),
        ("names"@, opt_rec_norm::<LocalizedText>(jv_get(fs, "names"@))),
        ("description"@, jv_of_ostr(opt_str(jv_get(fs, "description"@)))),
        ("descriptions"@, opt_rec_norm::<LocalizedText>(jv_get(fs, "descriptions"@))),
        ("annotations"@, opt_recarr_norm::<Annotation>(jv_get(fs, "annotations"@))),
        ("links"@, opt_recarr_norm::<Link>(jv_get(fs, "links"@))),
    ]
}

/// The names this record knows are pairwise distinct.
pub proof fn lemma_item_names_distinct()
    ensures
        forall|i: int, j: int|
            0 <= i < j < item_names().len() ==> item_names()[i] != item_names()[j],
{
    reveal_strlit("id");
    reveal_strlit("name");
    reveal_strlit("names");
    reveal_strlit("description");
    reveal_strlit("descriptions");
    reveal_strlit("annotations");
    reveal_strlit("links");
    let ns = item_names();
    assert(ns.len() == 7);
    assert forall|i: int, j: int| 0 <= i < j < ns.len() implies ns[i] != ns[j] by {
        assert("id"@.len() == 2);
        assert("name"@.len() == 4);
        assert("names"@.len() == 5);
        assert("description"@.len() == 11);
        assert("descriptions"@.len() == 12);
        assert("annotations"@.len() == 11);
        assert("links"@.len() == 5);
        assert("names"@[0] == 'n');
        assert("links"@[0] == 'l');
        assert("description"@[0] == 'd');
        assert("annotations"@[0] == 'a');
    }
}

impl JsonForm for Item {
    open spec fn wf(&self) -> bool {
        &&& ext_ok(self.other.view_fields(), item_names())
        &&& orec_wf(self.names)
        &&& orec_wf(self.descriptions)
        &&& ovec_wf(self.annotations)
        &&& ovec_wf(self.links)
    }

    open spec fn ser(&self) -> JVal {
        JVal::Obj(present_fields(item_pairs(*self)) + self.other.view_fields())
    }

    open spec fn doc_ok(v: JVal) -> bool {
        &&& v is Obj
        &&& {
            let fs = v->Obj_0;
            &&& is_req_str(jv_get(fs, "id"@))
            &&& is_opt_str(jv_get(fs, "name"@))
            &&& is_opt_rec::<LocalizedText>(jv_get(fs, "names"@))
            &&& is_opt_str(jv_get(fs, "description"@))
            &&& is_opt_rec::<LocalizedText>(jv_get(fs, "descriptions"@))
            &&& is_opt_recarr::<Annotation>(jv_get(fs, "annotations"@))
            &&& is_opt_recarr::<Link>(jv_get(fs, "links"@))
        }
    }

    open spec fn doc_norm(v: JVal) -> JVal {
        JVal::Obj(
            present_fields(item_norm_pairs(v->Obj_0)) + ext_fields(v->Obj_0, item_names()),
        )
    }

    #[verifier::rlimit(50)]
    #[verifier::rlimit(50)]
    fn from_json(v: JsonValue) -> (r: Result<Self, ParseError>) {
        let o = match v {
            JsonValue::Obj(o) => o,
            _ => { return Err(ParseError::NotObject) },
        };
        let ghost fs = jview_field_vec(o);
        let mut bag = FieldBag::new(o);
        proof {
            lemma_item_names_distinct();
        }
        proof {
            assert(bag.taken() =~= item_names().subrange(0, 0));
            crate::codec::lemma_take_fresh(item_names(), 0, bag.taken());
        }
        let id = match get_req_string(bag.take("id"), "id") {
            Ok(x) => x,
            Err(e) => { return Err(e) },
        };
        proof {
            assert(bag.taken() =~= item_names().subrange(0, 1));
            crate::codec::lemma_take_fresh(item_names(), 1, bag.taken());
        }
        let name = match get_opt_string(bag.take("name"), "name") {
            Ok(x) => x,
            Err(e) => { return Err(e) },
        };
        proof {
            assert(bag.taken() =~= item_names().subrange(0, 2));
            crate::codec::lemma_take_fresh(item_names(), 2, bag.taken());
        }
        let names = match parse_opt::<LocalizedText>(bag.take("names")) {
            Ok(x) => x,
            Err(e) => { return Err(e) },
        };
        proof {
            assert(bag.taken() =~= item_names().subrange(0, 3));
            crate::codec::lemma_take_fresh(item_names(), 3, bag.taken());
        }
        let description = match get_opt_string(bag.take("description"), "description") {
            Ok(x) => x,
            Err(e) => { return Err(e) },
        };
        proof {
            assert(bag.taken() =~= item_names().subrange(0, 4));
            crate::codec::lemma_take_fresh(item_names(), 4, bag.taken());
        }
        let descriptions = match parse_opt::<LocalizedText>(bag.take("descriptions")) {
            Ok(x) => x,
            Err(e) => { return Err(e) },
        };
        proof {
            assert(bag.taken() =~= item_names().subrange(0, 5));
            crate::codec::lemma_take_fresh(item_names(), 5, bag.taken());
        }
        let annotations = match parse_opt_vec::<Annotation>(bag.take("annotations"), "annotations") {
            Ok(x) => x,
            Err(e) => { return Err(e) },
        };
        proof {
            assert(bag.taken() =~= item_names().subrange(0, 6));
            crate::codec::lemma_take_fresh(item_names(), 6, bag.taken());
        }
        let links = match parse_opt_vec::<Link>(bag.take("links"), "links") {
            Ok(x) => x,
            Err(e) => { return Err(e) },
        };
        let ghost tk = bag.taken();
        let other = bag.rest();
        let out = Item { id, name, names, description, descriptions, annotations, links, other };
        proof {
            assert(tk =~= item_names());
            crate::codec::lemma_ext_fields_names(fs, tk);
            assert(item_pairs(out) =~= item_norm_pairs(fs));
        }
        Ok(out)
    }

    fn to_json(&self) -> (r: JsonValue) {
        let mut b = ObjBuilder::new();
        put_str(&mut b, "id", &self.id);
        put_opt_str(&mut b, "name", &self.name);
        put_opt_rec(&mut b, "names", &self.names);
        put_opt_str(&mut b, "description", &self.description);
        put_opt_rec(&mut b, "descriptions", &self.descriptions);
        put_opt_vec(&mut b, "annotations", &self.annotations);
        put_opt_vec(&mut b, "links", &self.links);
        proof {
            let ps = item_pairs(*self);
            lemma_pairs_chain(ps, 7);
            assert(ps.subrange(0, 7) =~= ps);
            assert(b.view_fields() == present_fields(ps)) by {
                reveal_with_fuel(pairs_prefix_chunks, 8);
            }
        }
        finish_with_ext(b, &self.other)
    }

    #[verifier::rlimit(50)]
    #[verifier::spinoff_prover]
    proof fn lemma_canon(&self) {
        lemma_item_names_distinct();
        let ps = item_pairs(*self);
        let ext = self.other.view_fields();
        assert(names_of(ps) =~= item_names());
        assert(distinct_names(ps)) by {
            assert forall|i: int, j: int|
                0 <= i < j < ps.len() implies ps[i].0 != ps[j].0 by {
                assert(ps[i].0 == item_names()[i]);
                assert(ps[j].0 == item_names()[j]);
            }
        }
        assert(disjoint_from(ext, ps)) by {
            assert forall|i: int, j: int|
                0 <= i < ext.len() && 0 <= j < ps.len() implies ext[i].0 != ps[j].0 by {
                assert(!is_known_name(ext[i].0, item_names()));
                assert(item_names()[j] == ps[j].0);
            }
        }
        lemma_jv_get_present(ps, ext);
        lemma_ext_of_present(ps, ext);
        let fs = self.ser()->Obj_0;
        assert(jv_get(fs, "id"@) == ps[0].1);
        assert(jv_get(fs, "name"@) == ps[1].1);
        assert(jv_get(fs, "names"@) == ps[2].1);
        assert(jv_get(fs, "description"@) == ps[3].1);
        assert(jv_get(fs, "descriptions"@) == ps[4].1);
        assert(jv_get(fs, "annotations"@) == ps[5].1);
        assert(jv_get(fs, "links"@) == ps[6].1);
        match self.names {
            Some(t) => {
                t.lemma_canon();
            },
            None => {},
        }
        match self.descriptions {
            Some(t) => {
                t.lemma_canon();
            },
            None => {},
        }
        match &self.annotations {
            Some(v) => {
                lemma_arr_canon::<Annotation>(v@);
            },
            None => {},
        }
        match &self.links {
            Some(v) => {
                lemma_arr_canon::<Link>(v@);
            },
            None => {},
        }
        assert(Self::doc_ok(self.ser()));
        assert(item_norm_pairs(fs) =~= ps);
        assert(ext_fields(fs, names_of(ps)) == ext);
        assert(ext_fields(fs, item_names()) == ext);
    }
}

/// A restricted format allowing only facets and text types applicable to
/// codes.
#[derive(Debug, PartialEq)]
pub struct EnumerationFormat {
    pub data_type: Option<DataType>,
    pub is_sequence: Option<bool>,
    pub interval: Option<isize>,
    pub start_value: Option<isize>,
    pub end_value: Option<isize>,
    pub time_interval: Option<String>,
    pub start_time: Option<String>,
    pub end_time: Option<String>,
    pub min_length: Option<usize>,
    pub max_length: Option<usize>,
    pub min_value: Option<isize>,
    pub max_value: Option<isize>,
    pub pattern: Option<String>,
    pub other: Extensions,
}

pub open spec fn enumeration_format_names() -> Seq<Seq<char>> {
    seq!["dataType"@, "isSequence"@, "interval"@, "startValue"@, "endValue"@, "timeInterval"@, "startTime"@, "endTime"@, "minLength"@, "maxLength"@, "minValue"@, "maxValue"@, "pattern"@]
}

pub open spec fn enumeration_format_pairs(x: EnumerationFormat) -> Seq<(Seq<char>, Option<JVal>)> {
    seq![
        ("dataType"@, orec_ser(x.data_type)),
        ("isSequence"@, jv_of_obool(x.is_sequence)),
        ("interval"@, jv_of_oint(oisize_view(x.interval))),
        ("startValue"@, jv_of_oint(oisize_view(x.start_value))),
        ("endValue"@, jv_of_oint(oisize_view(x.end_value))),
        ("timeInterval"@, jv_of_ostr(ostr_view(x.time_interval))),
        ("startTime"@, jv_of_ostr(ostr_view(x.start_time))),
        ("endTime"@, jv_of_ostr(ostr_view(x.end_time))),
        ("minLength"@, jv_of_oint(ousize_view(x.min_length))),
        ("maxLength"@, jv_of_oint(ousize_view(x.max_length))),
        ("minValue"@, jv_of_oint(oisize_view(x.min_value))),
        ("maxValue"@, jv_of_oint(oisize_view(x.max_value))),
        ("pattern"@, jv_of_ostr(ostr_view(x.pattern))),
    ]
}

pub open spec fn enumeration_format_norm_pairs(fs: Seq<(Seq<char>, JVal)>) -> Seq<(Seq<char>, Option<JVal>)> {
    seq![
        ("dataType"@, opt_rec_norm::<DataType>(jv_get(fs, "dataType"@))),
        ("isSequence"@, jv_of_obool(opt_bool(jv_get(fs, "isSequence"@)))),
        ("interval"@, jv_of_oint(opt_int(jv_get(fs, "interval"@)))),
        ("startValue"@, jv_of_oint(opt_int(jv_get(fs, "startValue"@)))),
        ("endValue"@, jv_of_oint(opt_int(jv_get(fs, "endValue"@)))),
        ("timeInterval"@, jv_of_ostr(opt_str(jv_get(fs, "timeInterval"@)))),
        ("startTime"@, jv_of_ostr(opt_str(jv_get(fs, "startTime"@)))),
        ("endTime"@, jv_of_ostr(opt_str(jv_get(fs, "endTime"@)))),
        ("minLength"@, jv_of_oint(opt_int(jv_get(fs, "minLength"@)))),
        ("maxLength"@, jv_of_oint(opt_int(jv_get(fs, "maxLength"@)))),
        ("minValue"@, jv_of_oint(opt_int(jv_get(fs, "minValue"@)))),
        ("maxValue"@, jv_of_oint(opt_int(jv_get(fs, "maxValue"@)))),
        ("pattern"@, jv_of_ostr(opt_str(jv_get(fs, "pattern"@)))),
    ]
}

/// The names this record knows are pairwise distinct.
pub proof fn lemma_enumeration_format_names_distinct()
    ensures
        forall|i: int, j: int|
            0 <= i < j < enumeration_format_names().len() ==> enumeration_format_names()[i] != enumeration_format_names()[j],
{
    reveal_strlit("dataType");
    reveal_strlit("isSequence");
    reveal_strlit("interval");
    reveal_strlit("startValue");
    reveal_strlit("endValue");
    reveal_strlit("timeInterval");
    reveal_strlit("startTime");
    reveal_strlit("endTime");
    reveal_strlit("minLength");
    reveal_strlit("maxLength");
    reveal_strlit("minValue");
    reveal_strlit("maxValue");
    reveal_strlit("pattern");
    let ns = enumeration_format_names();
    assert(ns.len() == 13);
    assert forall|i: int, j: int| 0 <= i < j < ns.len() implies ns[i] != ns[j] by {
        assert("dataType"@.len() == 8);
        assert("isSequence"@.len() == 10);
        assert("interval"@.len() == 8);
        assert("startValue"@.len() == 10);
        assert("endValue"@.len() == 8);
        assert("timeInterval"@.len() == 12);
        assert("startTime"@.len() == 9);
        assert("endTime"@.len() == 7);
        assert("minLength"@.len() == 9);
        assert("maxLength"@.len() == 9);
        assert("minValue"@.len() == 8);
        assert("maxValue"@.len() == 8);
        assert("pattern"@.len() == 7);
        assert("dataType"@[0] == 'd');
        assert("interval"@[0] == 'i');
        assert("endValue"@[0] == 'e');
        assert("minValue"@[0] == 'm');
        assert("maxValue"@[0] == 'm');
        assert("isSequence"@[0] == 'i');
        assert("startValue"@[0] == 's');
        assert("startTime"@[0] == 's');
        assert("minLength"@[0] == 'm');
        assert("maxLength"@[0] == 'm');
        assert("endTime"@[0] == 'e');
        assert("pattern"@[0] == 'p');
        assert("minLength"@[1] == 'i');
        assert("maxLength"@[1] == 'a');
        assert("minValue"@[1] == 'i');
        assert("maxValue"@[1] == 'a');
    }
}

impl JsonForm for EnumerationFormat {
    open spec fn wf(&self) -> bool {
        &&& ext_ok(self.other.view_fields(), enumeration_format_names())
        &&& orec_wf(self.data_type)
    }

    open spec fn ser(&self) -> JVal {
        JVal::Obj(present_fields(enumeration_format_pairs(*self)) + self.other.view_fields())
    }

    open spec fn doc_ok(v: JVal) -> bool {
        &&& v is Obj
        &&& {
            let fs = v->Obj_0;
            &&& is_opt_rec::<DataType>(jv_get(fs, "dataType"@))
            &&& is_opt_bool(jv_get(fs, "isSequence"@))
            &&& is_opt_isize(jv_get(fs, "interval"@))
            &&& is_opt_isize(jv_get(fs, "startValue"@))
            &&& is_opt_isize(jv_get(fs, "endValue"@))
            &&& is_opt_str(jv_get(fs, "timeInterval"@))
            &&& is_opt_str(jv_get(fs, "startTime"@))
            &&& is_opt_str(jv_get(fs, "endTime"@))
            &&& is_opt_usize(jv_get(fs, "minLength"@))
            &&& is_opt_usize(jv_get(fs, "maxLength"@))
            &&& is_opt_isize(jv_get(fs, "minValue"@))
            &&& is_opt_isize(jv_get(fs, "maxValue"@))
            &&& is_opt_str(jv_get(fs, "pattern"@))
        }
    }

    open spec fn doc_norm(v: JVal) -> JVal {
        JVal::Obj(
            present_fields(enumeration_format_norm_pairs(v->Obj_0)) + ext_fields(v->Obj_0, enumeration_format_names()),
        )
    }

    #[verifier::rlimit(50)]
    #[verifier::rlimit(50)]
    fn from_json(v: JsonValue) -> (r: Result<Self, ParseError>) {
        let o = match v {
            JsonValue::Obj(o) => o,
            _ => { return Err(ParseError::NotObject) },
        };
        let ghost fs = jview_field_vec(o);
        let mut bag = FieldBag::new(o);
        proof {
            lemma_enumeration_format_names_distinct();
        }
        proof {
            assert(bag.taken() =~= enumeration_format_names().subrange(0, 0));
            crate::codec::lemma_take_fresh(enumeration_format_names(), 0, bag.taken());
        }
        let data_type = match parse_opt::<DataType>(bag.take("dataType")) {
            Ok(x) => x,
            Err(e) => { return Err(e) },
        };
        proof {
            assert(bag.taken() =~= enumeration_format_names().subrange(0, 1));
            crate::codec::lemma_take_fresh(enumeration_format_names(), 1, bag.taken());
        }
        let is_sequence = match get_opt_bool(bag.take("isSequence"), "isSequence") {
            Ok(x) => x,
            Err(e) => { return Err(e) },
        };
        proof {
            assert(bag.taken() =~= enumeration_format_names().subrange(0, 2));
            crate::codec::lemma_take_fresh(enumeration_format_names(), 2, bag.taken());
        }
        let interval = match get_opt_isize(bag.take("interval"), "interval") {
            Ok(x) => x,
            Err(e) => { return Err(e) },
        };
        proof {
            assert(bag.taken() =~= enumeration_format_names().subrange(0, 3));
            crate::codec::lemma_take_fresh(enumeration_format_names(), 3, bag.taken());
        }
        let start_value = match get_opt_isize(bag.take("startValue"), "startValue") {
            Ok(x) => x,
            Err(e) => { return Err(e) },
        };
        proof {
            assert(bag.taken() =~= enumeration_format_names().subrange(0, 4));
            crate::codec::lemma_take_fresh(enumeration_format_names(), 4, bag.taken());
        }
        let end_value = match get_opt_isize(bag.take("endValue"), "endValue") {
            Ok(x) => x,
            Err(e) => { return Err(e) },
        };
        proof {
            assert(bag.taken() =~= enumeration_format_names().subrange(0, 5));
            crate::codec::lemma_take_fresh(enumeration_format_names(), 5, bag.taken());
        }
        let time_interval = match get_opt_string(bag.take("timeInterval"), "timeInterval") {
            Ok(x) => x,
            Err(e) => { return Err(e) },
        };
        proof {
            assert(bag.taken() =~= enumeration_format_names().subrange(0, 6));
            crate::codec::lemma_take_fresh(enumeration_format_names(), 6, bag.taken());
        }
        let start_time = match get_opt_string(bag.take("startTime"), "startTime") {
            Ok(x) => x,
            Err(e) => { return Err(e) },
        };
        proof {
            assert(bag.taken() =~= enumeration_format_names().subrange(0, 7));
            crate::codec::lemma_take_fresh(enumeration_format_names(), 7, bag.taken());
        }
        let end_time = match get_opt_string(bag.take("endTime"), "endTime") {
            Ok(x) => x,
            Err(e) => { return Err(e) },
        };
        proof {
            assert(bag.taken() =~= enumeration_format_names().subrange(0, 8));
            crate::codec::lemma_take_fresh(enumeration_format_names(), 8, bag.taken());
        }
        let min_length = match get_opt_usize(bag.take("minLength"), "minLength") {
            Ok(x) => x,
            Err(e) => { return Err(e) },
        };
        proof {
            assert(bag.taken() =~= enumeration_format_names().subrange(0, 9));
            crate::codec::lemma_take_fresh(enumeration_format_names(), 9, bag.taken());
        }
        let max_length = match get_opt_usize(bag.take("maxLength"), "maxLength") {
            Ok(x) => x,
            Err(e) => { return Err(e) },
        };
        proof {
            assert(bag.taken() =~= enumeration_format_names().subrange(0, 10));
            crate::codec::lemma_take_fresh(enumeration_format_names(), 10, bag.taken());
        }
        let min_value = match get_opt_isize(bag.take("minValue"), "minValue") {
            Ok(x) => x,
            Err(e) => { return Err(e) },
        };
        proof {
            assert(bag.taken() =~= enumeration_format_names().subrange(0, 11));
            crate::codec::lemma_take_fresh(enumeration_format_names(), 11, bag.taken());
        }
        let max_value = match get_opt_isize(bag.take("maxValue"), "maxValue") {
            Ok(x) => x,
            Err(e) => { return Err(e) },
        };
        proof {
            assert(bag.taken() =~= enumeration_format_names().subrange(0, 12));
            crate::codec::lemma_take_fresh(enumeration_format_names(), 12, bag.taken());
        }
        let pattern = match get_opt_string(bag.take("pattern"), "pattern") {
            Ok(x) => x,
            Err(e) => { return Err(e) },
        };
        let ghost tk = bag.taken();
        let other = bag.rest();
        let out = EnumerationFormat { data_type, is_sequence, interval, start_value, end_value, time_interval, start_time, end_time, min_length, max_length, min_value, max_value, pattern, other };
        proof {
            assert(tk =~= enumeration_format_names());
            crate::codec::lemma_ext_fields_names(fs, tk);
            assert(enumeration_format_pairs(out) =~= enumeration_format_norm_pairs(fs));
        }
        Ok(out)
    }

    fn to_json(&self) -> (r: JsonValue) {
        let mut b = ObjBuilder::new();
        put_opt_rec(&mut b, "dataType", &self.data_type);
        put_opt_bool(&mut b, "isSequence", &self.is_sequence);
        put_opt_isize(&mut b, "interval", &self.interval);
        put_opt_isize(&mut b, "startValue", &self.start_value);
        put_opt_isize(&mut b, "endValue", &self.end_value);
        put_opt_str(&mut b, "timeInterval", &self.time_interval);
        put_opt_str(&mut b, "startTime", &self.start_time);
        put_opt_str(&mut b, "endTime", &self.end_time);
        put_opt_usize(&mut b, "minLength", &self.min_length);
        put_opt_usize(&mut b, "maxLength", &self.max_length);
        put_opt_isize(&mut b, "minValue", &self.min_value);
        put_opt_isize(&mut b, "maxValue", &self.max_value);
        put_opt_str(&mut b, "pattern", &self.pattern);
        proof {
            let ps = enumeration_format_pairs(*self);
            lemma_pairs_chain(ps, 13);
            assert(ps.subrange(0, 13) =~= ps);
            assert(b.view_fields() == present_fields(ps)) by {
                reveal_with_fuel(pairs_prefix_chunks, 14);
            }
        }
        finish_with_ext(b, &self.other)
    }

    #[verifier::rlimit(50)]
    #[verifier::spinoff_prover]
    proof fn lemma_canon(&self) {
        lemma_enumeration_format_names_distinct();
        let ps = enumeration_format_pairs(*self);
        let ext = self.other.view_fields();
        assert(names_of(ps) =~= enumeration_format_names());
        assert(distinct_names(ps)) by {
            assert forall|i: int, j: int|
                0 <= i < j < ps.len() implies ps[i].0 != ps[j].0 by {
                assert(ps[i].0 == enumeration_format_names()[i]);
                assert(ps[j].0 == enumeration_format_names()[j]);
            }
        }
        assert(disjoint_from(ext, ps)) by {
            assert forall|i: int, j: int|
                0 <= i < ext.len() && 0 <= j < ps.len() implies ext[i].0 != ps[j].0 by {
                assert(!is_known_name(ext[i].0, enumeration_format_names()));
                assert(enumeration_format_names()[j] == ps[j].0);
            }
        }
        lemma_jv_get_present(ps, ext);
        lemma_ext_of_present(ps, ext);
        let fs = self.ser()->Obj_0;
        assert(jv_get(fs, "dataType"@) == ps[0].1);
        assert(jv_get(fs, "isSequence"@) == ps[1].1);
        assert(jv_get(fs, "interval"@) == ps[2].1);
        assert(jv_get(fs, "startValue"@) == ps[3].1);
        assert(jv_get(fs, "endValue"@) == ps[4].1);
        assert(jv_get(fs, "timeInterval"@) == ps[5].1);
        assert(jv_get(fs, "startTime"@) == ps[6].1);
        assert(jv_get(fs, "endTime"@) == ps[7].1);
        assert(jv_get(fs, "minLength"@) == ps[8].1);
        assert(jv_get(fs, "maxLength"@) == ps[9].1);
        assert(jv_get(fs, "minValue"@) == ps[10].1);
        assert(jv_get(fs, "maxValue"@) == ps[11].1);
        assert(jv_get(fs, "pattern"@) == ps[12].1);
        match self.data_type {
            Some(t) => {
                t.lemma_canon();
            },
            None => {},
        }
        assert(Self::doc_ok(self.ser()));
        assert(enumeration_format_norm_pairs(fs) =~= ps);
        assert(ext_fields(fs, names_of(ps)) == ext);
        assert(ext_fields(fs, enumeration_format_names()) == ext);
    }
}

/// The range of data formats allowed for components other than target
/// objects.
#[derive(Debug, PartialEq)]
pub struct Format {
    pub data_type: Option<DataType>,
    pub is_sequence: Option<bool>,
    pub interval: Option<isize>,
    pub start_value: Option<isize>,
    pub end_value: Option<isize>,
    pub time_interval: Option<String>,
    pub start_time: Option<String>,
    pub end_time: Option<String>,
    pub min_length: Option<usize>,
    pub max_length: Option<usize>,
    pub min_value: Option<isize>,
    pub max_value: Option<isize>,
    pub is_multilingual: bool,
    pub sentinel_value: Option<Vec<SentinelValue>>,
    pub other: Extensions,
}

pub open spec fn format_names() -> Seq<Seq<char>> {
    seq!["dataType"@, "isSequence"@, "interval"@, "startValue"@, "endValue"@, "timeInterval"@, "startTime"@, "endTime"@, "minLength"@, "maxLength"@, "minValue"@, "maxValue"@, "isMultilingual"@, "sentinelValue"@]
}

pub open spec fn format_pairs(x: Format) -> Seq<(Seq<char>, Option<JVal>)> {
    seq![
        ("dataType"@, orec_ser(x.data_type)),
        ("isSequence"@, jv_of_obool(x.is_sequence)),
        ("interval"@, jv_of_oint(oisize_view(x.interval))),
        ("startValue"@, jv_of_oint(oisize_view(x.start_value))),
        ("endValue"@, jv_of_oint(oisize_view(x.end_value))),
        ("timeInterval"@, jv_of_ostr(ostr_view(x.time_interval))),
        ("startTime"@, jv_of_ostr(ostr_view(x.start_time))),
        ("endTime"@, jv_of_ostr(ostr_view(x.end_time))),
        ("minLength"@, jv_of_oint(ousize_view(x.min_length))),
        ("maxLength"@, jv_of_oint(ousize_view(x.max_length))),
        ("minValue"@, jv_of_oint(oisize_view(x.min_value))),
        ("maxValue"@, jv_of_oint(oisize_view(x.max_value))),
        ("isMultilingual"@, Some(JVal::Bool(x.is_multilingual))),
        ("sentinelValue"@, ovec_ser(x.sentinel_value)),
    ]
}

pub open spec fn format_norm_pairs(fs: Seq<(Seq<char>, JVal)>) -> Seq<(Seq<char>, Option<JVal>)> {
    seq![
        ("dataType"@, opt_rec_norm::<DataType>(jv_get(fs, "dataType"@))),
        ("isSequence"@, jv_of_obool(opt_bool(jv_get(fs, "isSequence"@)))),
        ("interval"@, jv_of_oint(opt_int(jv_get(fs, "interval"@)))),
        ("startValue"@, jv_of_oint(opt_int(jv_get(fs, "startValue"@)))),
        ("endValue"@, jv_of_oint(opt_int(jv_get(fs, "endValue"@)))),
        ("timeInterval"@, jv_of_ostr(opt_str(jv_get(fs, "timeInterval"@)))),
        ("startTime"@, jv_of_ostr(opt_str(jv_get(fs, "startTime"@)))),
        ("endTime"@, jv_of_ostr(opt_str(jv_get(fs, "endTime"@)))),
        ("minLength"@, jv_of_oint(opt_int(jv_get(fs, "minLength"@)))),
        ("maxLength"@, jv_of_oint(opt_int(jv_get(fs, "maxLength"@)))),
        ("minValue"@, jv_of_oint(opt_int(jv_get(fs, "minValue"@)))),
        ("maxValue"@, jv_of_oint(opt_int(jv_get(fs, "maxValue"@)))),
        ("isMultilingual"@, jv_of_obool(opt_bool(jv_get(fs, "isMultilingual"@)))),
        ("sentinelValue"@, opt_recarr_norm::<SentinelValue>(jv_get(fs, "sentinelValue"@))),
    ]
}

/// The names this record knows are pairwise distinct.
pub proof fn lemma_format_names_distinct()
    ensures
        forall|i: int, j: int|
            0 <= i < j < format_names().len() ==> format_names()[i] != format_names()[j],
{
    reveal_strlit("dataType");
    reveal_strlit("isSequence");
    reveal_strlit("interval");
    reveal_strlit("startValue");
    reveal_strlit("endValue");
    reveal_strlit("timeInterval");
    reveal_strlit("startTime");
    reveal_strlit("endTime");
    reveal_strlit("minLength");
    reveal_strlit("maxLength");
    reveal_strlit("minValue");
    reveal_strlit("maxValue");
    reveal_strlit("isMultilingual");
    reveal_strlit("sentinelValue");
    let ns = format_names();
    assert(ns.len() == 14);
    assert forall|i: int, j: int| 0 <= i < j < ns.len() implies ns[i] != ns[j] by {
        assert("dataType"@.len() == 8);
        assert("isSequence"@.len() == 10);
        assert("interval"@.len() == 8);
        assert("startValue"@.len() == 10);
        assert("endValue"@.len() == 8);
        assert("timeInterval"@.len() == 12);
        assert("startTime"@.len() == 9);
        assert("endTime"@.len() == 7);
        assert("minLength"@.len() == 9);
        assert("maxLength"@.len() == 9);
        assert("minValue"@.len() == 8);
        assert("maxValue"@.len() == 8);
        assert("isMultilingual"@.len() == 14);
        assert("sentinelValue"@.len() == 13);
        assert("dataType"@[0] == 'd');
        assert("interval"@[0] == 'i');
        assert("endValue"@[0] == 'e');
        assert("minValue"@[0] == 'm');
        assert("maxValue"@[0] == 'm');
        assert("isSequence"@[0] == 'i');
        assert("startValue"@[0] == 's');
        assert("startTime"@[0] == 's');
        assert("minLength"@[0] == 'm');
        assert("maxLength"@[0] == 'm');
        assert("minLength"@[1] == 'i');
        assert("maxLength"@[1] == 'a');
        assert("minValue"@[1] == 'i');
        assert("maxValue"@[1] == 'a');
    }
}

impl JsonForm for Format {
    open spec fn wf(&self) -> bool {
        &&& ext_ok(self.other.view_fields(), format_names())
        &&& orec_wf(self.data_type)
        &&& ovec_wf(self.sentinel_value)
    }

    open spec fn ser(&self) -> JVal {
        JVal::Obj(present_fields(format_pairs(*self)) + self.other.view_fields())
    }

    open spec fn doc_ok(v: JVal) -> bool {
        &&& v is Obj
        &&& {
            let fs = v->Obj_0;
            &&& is_opt_rec::<DataType>(jv_get(fs, "dataType"@))
            &&& is_opt_bool(jv_get(fs, "isSequence"@))
            &&& is_opt_isize(jv_get(fs, "interval"@))
            &&& is_opt_isize(jv_get(fs, "startValue"@))
            &&& is_opt_isize(jv_get(fs, "endValue"@))
            &&& is_opt_str(jv_get(fs, "timeInterval"@))
            &&& is_opt_str(jv_get(fs, "startTime"@))
            &&& is_opt_str(jv_get(fs, "endTime"@))
            &&& is_opt_usize(jv_get(fs, "minLength"@))
            &&& is_opt_usize(jv_get(fs, "maxLength"@))
            &&& is_opt_isize(jv_get(fs, "minValue"@))
            &&& is_opt_isize(jv_get(fs, "maxValue"@))
            &&& is_req_bool(jv_get(fs, "isMultilingual"@))
            &&& is_opt_recarr::<SentinelValue>(jv_get(fs, "sentinelValue"@))
        }
    }

    open spec fn doc_norm(v: JVal) -> JVal {
        JVal::Obj(
            present_fields(format_norm_pairs(v->Obj_0)) + ext_fields(v->Obj_0, format_names()),
        )
    }

    #[verifier::rlimit(50)]
    #[verifier::rlimit(50)]
    fn from_json(v: JsonValue) -> (r: Result<Self, ParseError>) {
        let o = match v {
            JsonValue::Obj(o) => o,
            _ => { return Err(ParseError::NotObject) },
        };
        let ghost fs = jview_field_vec(o);
        let mut bag = FieldBag::new(o);
        proof {
            lemma_format_names_distinct();
        }
        proof {
            assert(bag.taken() =~= format_names().subrange(0, 0));
            crate::codec::lemma_take_fresh(format_names(), 0, bag.taken());
        }
        let data_type = match parse_opt::<DataType>(bag.take("dataType")) {
            Ok(x) => x,
            Err(e) => { return Err(e) },
        };
        proof {
            assert(bag.taken() =~= format_names().subrange(0, 1));
            crate::codec::lemma_take_fresh(format_names(), 1, bag.taken());
        }
        let is_sequence = match get_opt_bool(bag.take("isSequence"), "isSequence") {
            Ok(x) => x,
            Err(e) => { return Err(e) },
        };
        proof {
            assert(bag.taken() =~= format_names().subrange(0, 2));
            crate::codec::lemma_take_fresh(format_names(), 2, bag.taken());
        }
        let interval = match get_opt_isize(bag.take("interval"), "interval") {
            Ok(x) => x,
            Err(e) => { return Err(e) },
        };
        proof {
            assert(bag.taken() =~= format_names().subrange(0, 3));
            crate::codec::lemma_take_fresh(format_names(), 3, bag.taken());
        }
        let start_value = match get_opt_isize(bag.take("startValue"), "startValue") {
            Ok(x) => x,
            Err(e) => { return Err(e) },
        };
        proof {
            assert(bag.taken() =~= format_names().subrange(0, 4));
            crate::codec::lemma_take_fresh(format_names(), 4, bag.taken());
        }
        let end_value = match get_opt_isize(bag.take("endValue"), "endValue") {
            Ok(x) => x,
            Err(e) => { return Err(e) },
        };
        proof {
            assert(bag.taken() =~= format_names().subrange(0, 5));
            crate::codec::lemma_take_fresh(format_names(), 5, bag.taken());
        }
        let time_interval = match get_opt_string(bag.take("timeInterval"), "timeInterval") {
            Ok(x) => x,
            Err(e) => { return Err(e) },
        };
        proof {
            assert(bag.taken() =~= format_names().subrange(0, 6));
            crate::codec::lemma_take_fresh(format_names(), 6, bag.taken());
        }
        let start_time = match get_opt_string(bag.take("startTime"), "startTime") {
            Ok(x) => x,
            Err(e) => { return Err(e) },
        };
        proof {
            assert(bag.taken() =~= format_names().subrange(0, 7));
            crate::codec::lemma_take_fresh(format_names(), 7, bag.taken());
        }
        let end_time = match get_opt_string(bag.take("endTime"), "endTime") {
            Ok(x) => x,
            Err(e) => { return Err(e) },
        };
        proof {
            assert(bag.taken() =~= format_names().subrange(0, 8));
            crate::codec::lemma_take_fresh(format_names(), 8, bag.taken());
        }
        let min_length = match get_opt_usize(bag.take("minLength"), "minLength") {
            Ok(x) => x,
            Err(e) => { return Err(e) },
        };
        proof {
            assert(bag.taken() =~= format_names().subrange(0, 9));
            crate::codec::lemma_take_fresh(format_names(), 9, bag.taken());
        }
        let max_length = match get_opt_usize(bag.take("maxLength"), "maxLength") {
            Ok(x) => x,
            Err(e) => { return Err(e) },
        };
        proof {
            assert(bag.taken() =~= format_names().subrange(0, 10));
            crate::codec::lemma_take_fresh(format_names(), 10, bag.taken());
        }
        let min_value = match get_opt_isize(bag.take("minValue"), "minValue") {
            Ok(x) => x,
            Err(e) => { return Err(e) },
        };
        proof {
            assert(bag.taken() =~= format_names().subrange(0, 11));
            crate::codec::lemma_take_fresh(format_names(), 11, bag.taken());
        }
        let max_value = match get_opt_isize(bag.take("maxValue"), "maxValue") {
            Ok(x) => x,
            Err(e) => { return Err(e) },
        };
        proof {
            assert(bag.taken() =~= format_names().subrange(0, 12));
            crate::codec::lemma_take_fresh(format_names(), 12, bag.taken());
        }
        let is_multilingual = match get_req_bool(bag.take("isMultilingual"), "isMultilingual") {
            Ok(x) => x,
            Err(e) => { return Err(e) },
        };
        proof {
            assert(bag.taken() =~= format_names().subrange(0, 13));
            crate::codec::lemma_take_fresh(format_names(), 13, bag.taken());
        }
        let sentinel_value = match parse_opt_vec::<SentinelValue>(bag.take("sentinelValue"), "sentinelValue") {
            Ok(x) => x,
            Err(e) => { return Err(e) },
        };
        let ghost tk = bag.taken();
        let other = bag.rest();
        let out = Format { data_type, is_sequence, interval, start_value, end_value, time_interval, start_time, end_time, min_length, max_length, min_value, max_value, is_multilingual, sentinel_value, other };
        proof {
            assert(tk =~= format_names());
            crate::codec::lemma_ext_fields_names(fs, tk);
            assert(format_pairs(out) =~= format_norm_pairs(fs));
        }
        Ok(out)
    }

    fn to_json(&self) -> (r: JsonValue) {
        let mut b = ObjBuilder::new();
        put_opt_rec(&mut b, "dataType", &self.data_type);
        put_opt_bool(&mut b, "isSequence", &self.is_sequence);
        put_opt_isize(&mut b, "interval", &self.interval);
        put_opt_isize(&mut b, "startValue", &self.start_value);
        put_opt_isize(&mut b, "endValue", &self.end_value);
        put_opt_str(&mut b, "timeInterval", &self.time_interval);
        put_opt_str(&mut b, "startTime", &self.start_time);
        put_opt_str(&mut b, "endTime", &self.end_time);
        put_opt_usize(&mut b, "minLength", &self.min_length);
        put_opt_usize(&mut b, "maxLength", &self.max_length);
        put_opt_isize(&mut b, "minValue", &self.min_value);
        put_opt_isize(&mut b, "maxValue", &self.max_value);
        put_bool(&mut b, "isMultilingual", self.is_multilingual);
        put_opt_vec(&mut b, "sentinelValue", &self.sentinel_value);
        proof {
            let ps = format_pairs(*self);
            lemma_pairs_chain(ps, 14);
            assert(ps.subrange(0, 14) =~= ps);
            assert(b.view_fields() == present_fields(ps)) by {
                reveal_with_fuel(pairs_prefix_chunks, 15);
            }
        }
        finish_with_ext(b, &self.other)
    }

    #[verifier::rlimit(50)]
    #[verifier::spinoff_prover]
    proof fn lemma_canon(&self) {
        lemma_format_names_distinct();
        let ps = format_pairs(*self);
        let ext = self.other.view_fields();
        assert(names_of(ps) =~= format_names());
        assert(distinct_names(ps)) by {
            assert forall|i: int, j: int|
                0 <= i < j < ps.len() implies ps[i].0 != ps[j].0 by {
                assert(ps[i].0 == format_names()[i]);
                assert(ps[j].0 == format_names()[j]);
            }
        }
        assert(disjoint_from(ext, ps)) by {
            assert forall|i: int, j: int|
                0 <= i < ext.len() && 0 <= j < ps.len() implies ext[i].0 != ps[j].0 by {
                assert(!is_known_name(ext[i].0, format_names()));
                assert(format_names()[j] == ps[j].0);
            }
        }
        lemma_jv_get_present(ps, ext);
        lemma_ext_of_present(ps, ext);
        let fs = self.ser()->Obj_0;
        assert(jv_get(fs, "dataType"@) == ps[0].1);
        assert(jv_get(fs, "isSequence"@) == ps[1].1);
        assert(jv_get(fs, "interval"@) == ps[2].1);
        assert(jv_get(fs, "startValue"@) == ps[3].1);
        assert(jv_get(fs, "endValue"@) == ps[4].1);
        assert(jv_get(fs, "timeInterval"@) == ps[5].1);
        assert(jv_get(fs, "startTime"@) == ps[6].1);
        assert(jv_get(fs, "endTime"@) == ps[7].1);
        assert(jv_get(fs, "minLength"@) == ps[8].1);
        assert(jv_get(fs, "maxLength"@) == ps[9].1);
        assert(jv_get(fs, "minValue"@) == ps[10].1);
        assert(jv_get(fs, "maxValue"@) == ps[11].1);
        assert(jv_get(fs, "isMultilingual"@) == ps[12].1);
        assert(jv_get(fs, "sentinelValue"@) == ps[13].1);
        match self.data_type {
            Some(t) => {
                t.lemma_canon();
            },
            None => {},
        }
        match &self.sentinel_value {
            Some(v) => {
                lemma_arr_canon::<SentinelValue>(v@);
            },
            None => {},
        }
        assert(Self::doc_ok(self.ser()));
        assert(format_norm_pairs(fs) =~= ps);
        assert(ext_fields(fs, names_of(ps)) == ext);
        assert(ext_fields(fs, format_names()) == ext);
    }
}

/// A reference to an ISO 11179 concept.
#[derive(Debug, PartialEq)]
pub struct IsoConceptReference {
    pub concept_agency: String,
    pub concept_id: String,
    pub concept_scheme_id: String,
    pub other: Extensions,
}

pub open spec fn iso_concept_reference_names() -> Seq<Seq<char>> {
    seq!["conceptAgency"@, "conceptId"@, "conceptSchemeId"@]
}

pub open spec fn iso_concept_reference_pairs(x: IsoConceptReference) -> Seq<(Seq<char>, Option<JVal>)> {
    seq![
        ("conceptAgency"@, Some(JVal::Str(x.concept_agency@))),
        ("conceptId"@, Some(JVal::Str(x.concept_id@))),
        ("conceptSchemeId"@, Some(JVal::Str(x.concept_scheme_id@))),
    ]
}

pub open spec fn iso_concept_reference_norm_pairs(fs: Seq<(Seq<char>, JVal)>) -> Seq<(Seq<char>, Option<JVal>)> {
    seq![
        ("conceptAgency"@, jv_of_ostr(opt_str(jv_get(fs, "conceptAgency"@)))),
        ("conceptId"@, jv_of_ostr(opt_str(jv_get(fs, "conceptId"@)))),
        ("conceptSchemeId"@, jv_of_ostr(opt_str(jv_get(fs, "conceptSchemeId"@)))),
    ]
}

/// The names this record knows are pairwise distinct.
pub proof fn lemma_iso_concept_reference_names_distinct()
    ensures
        forall|i: int, j: int|
            0 <= i < j < iso_concept_reference_names().len() ==> iso_concept_reference_names()[i] != iso_concept_reference_names()[j],
{
    reveal_strlit("conceptAgency");
    reveal_strlit("conceptId");
    reveal_strlit("conceptSchemeId");
    let ns = iso_concept_reference_names();
    assert(ns.len() == 3);
    assert forall|i: int, j: int| 0 <= i < j < ns.len() implies ns[i] != ns[j] by {
        assert("conceptAgency"@.len() == 13);
        assert("conceptId"@.len() == 9);
        assert("conceptSchemeId"@.len() == 15);
    }
}

impl JsonForm for IsoConceptReference {
    open spec fn wf(&self) -> bool {
        &&& ext_ok(self.other.view_fields(), iso_concept_reference_names())
        
    }

    open spec fn ser(&self) -> JVal {
        JVal::Obj(present_fields(iso_concept_reference_pairs(*self)) + self.other.view_fields())
    }

    open spec fn doc_ok(v: JVal) -> bool {
        &&& v is Obj
        &&& {
            let fs = v->Obj_0;
            &&& is_req_str(jv_get(fs, "conceptAgency"@))
            &&& is_req_str(jv_get(fs, "conceptId"@))
            &&& is_req_str(jv_get(fs, "conceptSchemeId"@))
        }
    }

    open spec fn doc_norm(v: JVal) -> JVal {
        JVal::Obj(
            present_fields(iso_concept_reference_norm_pairs(v->Obj_0)) + ext_fields(v->Obj_0, iso_concept_reference_names()),
        )
    }

    #[verifier::rlimit(50)]
    #[verifier::rlimit(50)]
    fn from_json(v: JsonValue) -> (r: Result<Self, ParseError>) {
        let o = match v {
            JsonValue::Obj(o) => o,
            _ => { return Err(ParseError::NotObject) },
        };
        let ghost fs = jview_field_vec(o);
        let mut bag = FieldBag::new(o);
        proof {
            lemma_iso_concept_reference_names_distinct();
        }
        proof {
            assert(bag.taken() =~= iso_concept_reference_names().subrange(0, 0));
            crate::codec::lemma_take_fresh(iso_concept_reference_names(), 0, bag.taken());
        }
        let concept_agency = match get_req_string(bag.take("conceptAgency"), "conceptAgency") {
            Ok(x) => x,
            Err(e) => { return Err(e) },
        };
        proof {
            assert(bag.taken() =~= iso_concept_reference_names().subrange(0, 1));
            crate::codec::lemma_take_fresh(iso_concept_reference_names(), 1, bag.taken());
        }
        let concept_id = match get_req_string(bag.take("conceptId"), "conceptId") {
            Ok(x) => x,
            Err(e) => { return Err(e) },
        };
        proof {
            assert(bag.taken() =~= iso_concept_reference_names().subrange(0, 2));
            crate::codec::lemma_take_fresh(iso_concept_reference_names(), 2, bag.taken());
        }
        let concept_scheme_id = match get_req_string(bag.take("conceptSchemeId"), "conceptSchemeId") {
            Ok(x) => x,
            Err(e) => { return Err(e) },
        };
        let ghost tk = bag.taken();
        let other = bag.rest();
        let out = IsoConceptReference { concept_agency, concept_id, concept_scheme_id, other };
        proof {
            assert(tk =~= iso_concept_reference_names());
            crate::codec::lemma_ext_fields_names(fs, tk);
            assert(iso_concept_reference_pairs(out) =~= iso_concept_reference_norm_pairs(fs));
        }
        Ok(out)
    }

    fn to_json(&self) -> (r: JsonValue) {
        let mut b = ObjBuilder::new();
        put_str(&mut b, "conceptAgency", &self.concept_agency);
        put_str(&mut b, "conceptId", &self.concept_id);
        put_str(&mut b, "conceptSchemeId", &self.concept_scheme_id);
        proof {
            let ps = iso_concept_reference_pairs(*self);
            lemma_pairs_chain(ps, 3);
            assert(ps.subrange(0, 3) =~= ps);
            assert(b.view_fields() == present_fields(ps)) by {
                reveal_with_fuel(pairs_prefix_chunks, 4);
            }
        }
        finish_with_ext(b, &self.other)
    }

    #[verifier::rlimit(50)]
    #[verifier::spinoff_prover]
    proof fn lemma_canon(&self) {
        lemma_iso_concept_reference_names_distinct();
        let ps = iso_concept_reference_pairs(*self);
        let ext = self.other.view_fields();
        assert(names_of(ps) =~= iso_concept_reference_names());
        assert(distinct_names(ps)) by {
            assert forall|i: int, j: int|
                0 <= i < j < ps.len() implies ps[i].0 != ps[j].0 by {
                assert(ps[i].0 == iso_concept_reference_names()[i]);
                assert(ps[j].0 == iso_concept_reference_names()[j]);
            }
        }
        assert(disjoint_from(ext, ps)) by {
            assert forall|i: int, j: int|
                0 <= i < ext.len() && 0 <= j < ps.len() implies ext[i].0 != ps[j].0 by {
                assert(!is_known_name(ext[i].0, iso_concept_reference_names()));
                assert(iso_concept_reference_names()[j] == ps[j].0);
            }
        }
        lemma_jv_get_present(ps, ext);
        lemma_ext_of_present(ps, ext);
        let fs = self.ser()->Obj_0;
        assert(jv_get(fs, "conceptAgency"@) == ps[0].1);
        assert(jv_get(fs, "conceptId"@) == ps[1].1);
        assert(jv_get(fs, "conceptSchemeId"@) == ps[2].1);
        
        assert(Self::doc_ok(self.ser()));
        assert(iso_concept_reference_norm_pairs(fs) =~= ps);
        assert(ext_fields(fs, names_of(ps)) == ext);
        assert(ext_fields(fs, iso_concept_reference_names()) == ext);
    }
}


/// The allowed repetition count of a component: a fixed non-negative bound
/// or unbounded.
#[derive(Debug, Clone, Copy, PartialEq, Eq)]
pub enum MaxOccurs {
    Signed(usize),
    Unbounded,
}

pub open spec fn is_dec_digit(c: char) -> bool {
    48 <= c as u32 <= 57
}

pub open spec fn all_dec_digits(s: Seq<char>) -> bool {
    forall|i: int| 0 <= i < s.len() ==> is_dec_digit(#[trigger] s[i])
}

/// The value of a decimal digit string, most significant digit first.
pub open spec fn dec_val(s: Seq<char>) -> int
    decreases s.len(),
{
    if s.len() == 0 {
        0
    } else {
        dec_val(s.drop_last()) * 10 + (s.last() as u32 - 48)
    }
}

pub proof fn lemma_dec_val_nonneg(s: Seq<char>)
    requires
        all_dec_digits(s),
    ensures
        dec_val(s) >= 0,
    decreases s.len(),
{
    if s.len() > 0 {
        assert(forall|i: int| 0 <= i < s.drop_last().len() ==> s.drop_last()[i] == s[i]);
        lemma_dec_val_nonneg(s.drop_last());
    }
}

/// A longer digit string never has a smaller value.
pub proof fn lemma_dec_val_extends(s: Seq<char>, k: int)
    requires
        all_dec_digits(s),
        0 <= k <= s.len(),
    ensures
        dec_val(s) >= dec_val(s.subrange(0, k)),
    decreases s.len() - k,
{
    if k == s.len() {
        assert(s.subrange(0, k) =~= s);
    } else {
        lemma_dec_val_extends(s, k + 1);
        let p = s.subrange(0, k + 1);
        assert(p.drop_last() =~= s.subrange(0, k));
        assert(forall|i: int| 0 <= i < p.len() ==> p[i] == s[i]);
        lemma_dec_val_nonneg(s.subrange(0, k));
        assert(dec_val(p) == dec_val(s.subrange(0, k)) * 10 + (p.last() as u32 - 48));
        assert(dec_val(s.subrange(0, k)) * 10 >= dec_val(s.subrange(0, k)));
    }
}

/// Parses a non-negative decimal token.
fn parse_dec(s: &String) -> (r: Result<usize, ParseError>)
    ensures
        (r is Ok) == (s@.len() > 0 && all_dec_digits(s@) && dec_val(s@) <= usize::MAX as int),
        r matches Ok(u) ==> u as int == dec_val(s@),
{
    let st = s.as_str();
    let n = st.unicode_len();
    if n == 0 {
        return Err(ParseError::Token(s.clone()));
    }
    let mut acc: usize = 0;
    let mut i: usize = 0;
    proof {
        assert(s@.subrange(0, 0) =~= Seq::<char>::empty());
    }
    while i < n
        invariant
            st@ == s@,
            n == s@.len(),
            0 <= i <= n,
            forall|j: int| 0 <= j < i ==> is_dec_digit(#[trigger] s@[j]),
            acc as int == dec_val(s@.subrange(0, i as int)),
        decreases n - i,
    {
        let c = st.get_char(i);
        let cu = c as u32;
        if cu < 48 || cu > 57 {
            proof {
                assert(!is_dec_digit(s@[i as int]));
            }
            return Err(ParseError::Token(s.clone()));
        }
        let d = (cu - 48) as usize;
        if acc > (usize::MAX - d) / 10 {
            proof {
                let p = s@.subrange(0, i as int + 1);
                assert(p.drop_last() =~= s@.subrange(0, i as int));
                assert(p.last() == s@[i as int]);
                assert(dec_val(p) == acc as int * 10 + d);
                assert(acc as int * 10 + d > usize::MAX as int) by (nonlinear_arith)
                    requires
                        acc as int > (usize::MAX as int - d) / 10,
                        0 <= d <= 9,
                        acc as int >= 0,
                {}
                if all_dec_digits(s@) && dec_val(s@) <= usize::MAX as int {
                    lemma_dec_val_extends(s@, i as int + 1);
                }
            }
            return Err(ParseError::Token(s.clone()));
        }
        proof {
            assert(acc as int * 10 + d <= usize::MAX as int) by (nonlinear_arith)
                requires
                    acc as int <= (usize::MAX as int - d) / 10,
                    0 <= d <= 9,
                    acc as int >= 0,
            {}
            let p = s@.subrange(0, i as int + 1);
            assert(p.drop_last() =~= s@.subrange(0, i as int));
            assert(p.last() == s@[i as int]);
        }
        acc = acc * 10 + d;
        i = i + 1;
    }
    proof {
        assert(s@.subrange(0, n as int) =~= s@);
    }
    Ok(acc)
}

impl JsonForm for MaxOccurs {
    open spec fn wf(&self) -> bool {
        true
    }

    open spec fn ser(&self) -> JVal {
        match self {
            MaxOccurs::Signed(n) => JVal::Int(*n as int),
            MaxOccurs::Unbounded => JVal::Str("unbounded"@),
        }
    }

    open spec fn doc_ok(v: JVal) -> bool {
        match v {
            JVal::Int(i) => 0 <= i <= usize::MAX as int,
            JVal::Str(s) => s == "unbounded"@ || (s.len() > 0 && all_dec_digits(s) && dec_val(s)
                <= usize::MAX as int),
            _ => false,
        }
    }

    /// A numeric bound re-serializes as a number whatever its wire spelling;
    /// the token keeps its shape.
    open spec fn doc_norm(v: JVal) -> JVal {
        match v {
            JVal::Str(s) => if s == "unbounded"@ {
                JVal::Str(s)
            } else {
                JVal::Int(dec_val(s))
            },
            _ => v,
        }
    }

    #[verifier::loop_isolation(false)]
    fn from_json(v: JsonValue) -> (r: Result<Self, ParseError>) {
        match v {
            JsonValue::Int(i) => {
                if i >= 0 && (i as u64) <= (usize::MAX as u64) {
                    Ok(MaxOccurs::Signed(i as usize))
                } else {
                    Err(ParseError::Token("maxOccurs".to_owned()))
                }
            },
            JsonValue::UInt(u) => {
                if u <= (usize::MAX as u64) {
                    Ok(MaxOccurs::Signed(u as usize))
                } else {
                    Err(ParseError::Token("maxOccurs".to_owned()))
                }
            },
            JsonValue::Str(s) => {
                if str_eq(s.as_str(), "unbounded") {
                    Ok(MaxOccurs::Unbounded)
                } else {
                    proof {
                        reveal_strlit("unbounded");
                    }
                    match parse_dec(&s) {
                        Ok(u) => Ok(MaxOccurs::Signed(u)),
                        Err(e) => Err(e),
                    }
                }
            },
            _ => Err(ParseError::Token("maxOccurs".to_owned())),
        }
    }

    fn to_json(&self) -> (r: JsonValue) {
        match self {
            MaxOccurs::Signed(n) => crate::fields::json_of_usize(*n),
            MaxOccurs::Unbounded => JsonValue::Str("unbounded".to_owned()),
        }
    }

    proof fn lemma_canon(&self) {
        match self {
            MaxOccurs::Signed(n) => {},
            MaxOccurs::Unbounded => {
                reveal_strlit("unbounded");
            },
        }
    }
}

/// A core representation for a concept.
#[derive(Debug, PartialEq)]
pub struct CoreRepresentation {
    pub enumeration: Option<String>,
    pub enumeration_format: Option<EnumerationFormat>,
    pub format: Option<Format>,
    pub min_occurs: Option<usize>,
    pub max_occurs: Option<MaxOccurs>,
    pub other: Extensions,
}

pub open spec fn core_representation_names() -> Seq<Seq<char>> {
    seq!["enumeration"@, "enumerationFormat"@, "format"@, "minOccurs"@, "maxOccurs"@]
}

pub open spec fn core_representation_pairs(x: CoreRepresentation) -> Seq<(Seq<char>, Option<JVal>)> {
    seq![
        ("enumeration"@, jv_of_ostr(ostr_view(x.enumeration))),
        ("enumerationFormat"@, orec_ser(x.enumeration_format)),
        ("format"@, orec_ser(x.format)),
        ("minOccurs"@, jv_of_oint(ousize_view(x.min_occurs))),
        ("maxOccurs"@, orec_ser(x.max_occurs)),
    ]
}

pub open spec fn core_representation_norm_pairs(fs: Seq<(Seq<char>, JVal)>) -> Seq<(Seq<char>, Option<JVal>)> {
    seq![
        ("enumeration"@, jv_of_ostr(opt_str(jv_get(fs, "enumeration"@)))),
        ("enumerationFormat"@, opt_rec_norm::<EnumerationFormat>(jv_get(fs, "enumerationFormat"@))),
        ("format"@, opt_rec_norm::<Format>(jv_get(fs, "format"@))),
        ("minOccurs"@, jv_of_oint(opt_int(jv_get(fs, "minOccurs"@)))),
        ("maxOccurs"@, opt_rec_norm::<MaxOccurs>(jv_get(fs, "maxOccurs"@))),
    ]
}

/// The names this record knows are pairwise distinct.
pub proof fn lemma_core_representation_names_distinct()
    ensures
        forall|i: int, j: int|
            0 <= i < j < core_representation_names().len() ==> core_representation_names()[i] != core_representation_names()[j],
{
    reveal_strlit("enumeration");
    reveal_strlit("enumerationFormat");
    reveal_strlit("format");
    reveal_strlit("minOccurs");
    reveal_strlit("maxOccurs");
    let ns = core_representation_names();
    assert(ns.len() == 5);
    assert forall|i: int, j: int| 0 <= i < j < ns.len() implies ns[i] != ns[j] by {
        assert("enumeration"@.len() == 11);
        assert("enumerationFormat"@.len() == 17);
        assert("format"@.len() == 6);
        assert("minOccurs"@.len() == 9);
        assert("maxOccurs"@.len() == 9);
        assert("minOccurs"@[1] == 'i');
        assert("maxOccurs"@[1] == 'a');
    }
}

impl JsonForm for CoreRepresentation {
    open spec fn wf(&self) -> bool {
        &&& ext_ok(self.other.view_fields(), core_representation_names())
        &&& orec_wf(self.enumeration_format)
        &&& orec_wf(self.format)
        &&& orec_wf(self.max_occurs)
    }

    open spec fn ser(&self) -> JVal {
        JVal::Obj(present_fields(core_representation_pairs(*self)) + self.other.view_fields())
    }

    open spec fn doc_ok(v: JVal) -> bool {
        &&& v is Obj
        &&& {
            let fs = v->Obj_0;
            &&& is_opt_str(jv_get(fs, "enumeration"@))
            &&& is_opt_rec::<EnumerationFormat>(jv_get(fs, "enumerationFormat"@))
            &&& is_opt_rec::<Format>(jv_get(fs, "format"@))
            &&& is_opt_usize(jv_get(fs, "minOccurs"@))
            &&& is_opt_rec::<MaxOccurs>(jv_get(fs, "maxOccurs"@))
        }
    }

    open spec fn doc_norm(v: JVal) -> JVal {
        JVal::Obj(
            present_fields(core_representation_norm_pairs(v->Obj_0)) + ext_fields(v->Obj_0, core_representation_names()),
        )
    }

    #[verifier::rlimit(50)]
    fn from_json(v: JsonValue) -> (r: Result<Self, ParseError>) {
        let o = match v {
            JsonValue::Obj(o) => o,
            _ => { return Err(ParseError::NotObject) },
        };
        let ghost fs = jview_field_vec(o);
        let mut bag = FieldBag::new(o);
        proof {
            lemma_core_representation_names_distinct();
        }
        proof {
            assert(bag.taken() =~= core_representation_names().subrange(0, 0));
            crate::codec::lemma_take_fresh(core_representation_names(), 0, bag.taken());
        }
        let enumeration = match get_opt_string(bag.take("enumeration"), "enumeration") {
            Ok(x) => x,
            Err(e) => { return Err(e) },
        };
        proof {
            assert(bag.taken() =~= core_representation_names().subrange(0, 1));
            crate::codec::lemma_take_fresh(core_representation_names(), 1, bag.taken());
        }
        let enumeration_format = match parse_opt::<EnumerationFormat>(bag.take("enumerationFormat")) {
            Ok(x) => x,
            Err(e) => { return Err(e) },
        };
        proof {
            assert(bag.taken() =~= core_representation_names().subrange(0, 2));
            crate::codec::lemma_take_fresh(core_representation_names(), 2, bag.taken());
        }
        let format = match parse_opt::<Format>(bag.take("format")) {
            Ok(x) => x,
            Err(e) => { return Err(e) },
        };
        proof {
            assert(bag.taken() =~= core_representation_names().subrange(0, 3));
            crate::codec::lemma_take_fresh(core_representation_names(), 3, bag.taken());
        }
        let min_occurs = match get_opt_usize(bag.take("minOccurs"), "minOccurs") {
            Ok(x) => x,
            Err(e) => { return Err(e) },
        };
        proof {
            assert(bag.taken() =~= core_representation_names().subrange(0, 4));
            crate::codec::lemma_take_fresh(core_representation_names(), 4, bag.taken());
        }
        let max_occurs = match parse_opt::<MaxOccurs>(bag.take("maxOccurs")) {
            Ok(x) => x,
            Err(e) => { return Err(e) },
        };
        let ghost tk = bag.taken();
        let other = bag.rest();
        let out = CoreRepresentation { enumeration, enumeration_format, format, min_occurs, max_occurs, other };
        proof {
            assert(tk =~= core_representation_names());
            crate::codec::lemma_ext_fields_names(fs, tk);
            assert(core_representation_pairs(out) =~= core_representation_norm_pairs(fs));
        }
        Ok(out)
    }

    fn to_json(&self) -> (r: JsonValue) {
        let mut b = ObjBuilder::new();
        put_opt_str(&mut b, "enumeration", &self.enumeration);
        put_opt_rec(&mut b, "enumerationFormat", &self.enumeration_format);
        put_opt_rec(&mut b, "format", &self.format);
        put_opt_usize(&mut b, "minOccurs", &self.min_occurs);
        put_opt_rec(&mut b, "maxOccurs", &self.max_occurs);
        proof {
            let ps = core_representation_pairs(*self);
            lemma_pairs_chain(ps, 5);
            assert(ps.subrange(0, 5) =~= ps);
            assert(b.view_fields() == present_fields(ps)) by {
                reveal_with_fuel(pairs_prefix_chunks, 6);
            }
        }
        finish_with_ext(b, &self.other)
    }

    #[verifier::rlimit(50)]
    #[verifier::spinoff_prover]
    proof fn lemma_canon(&self) {
        lemma_core_representation_names_distinct();
        let ps = core_representation_pairs(*self);
        let ext = self.other.view_fields();
        assert(names_of(ps) =~= core_representation_names());
        assert(distinct_names(ps)) by {
            assert forall|i: int, j: int|
                0 <= i < j < ps.len() implies ps[i].0 != ps[j].0 by {
                assert(ps[i].0 == core_representation_names()[i]);
                assert(ps[j].0 == core_representation_names()[j]);
            }
        }
        assert(disjoint_from(ext, ps)) by {
            assert forall|i: int, j: int|
                0 <= i < ext.len() && 0 <= j < ps.len() implies ext[i].0 != ps[j].0 by {
                assert(!is_known_name(ext[i].0, core_representation_names()));
                assert(core_representation_names()[j] == ps[j].0);
            }
        }
        lemma_jv_get_present(ps, ext);
        lemma_ext_of_present(ps, ext);
        let fs = self.ser()->Obj_0;
        assert(jv_get(fs, "enumeration"@) == ps[0].1);
        assert(jv_get(fs, "enumerationFormat"@) == ps[1].1);
        assert(jv_get(fs, "format"@) == ps[2].1);
        assert(jv_get(fs, "minOccurs"@) == ps[3].1);
        assert(jv_get(fs, "maxOccurs"@) == ps[4].1);
        match self.enumeration_format {
            Some(t) => {
                t.lemma_canon();
            },
            None => {},
        }
        match self.format {
            Some(t) => {
                t.lemma_canon();
            },
            None => {},
        }
        match self.max_occurs {
            Some(t) => {
                t.lemma_canon();
            },
            None => {},
        }
        assert(Self::doc_ok(self.ser()));
        assert(core_representation_norm_pairs(fs) =~= ps);
        assert(ext_fields(fs, names_of(ps)) == ext);
        assert(ext_fields(fs, core_representation_names()) == ext);
    }
}

/// The data representation of a component.
#[derive(Debug, PartialEq)]
pub struct LocalRepresentation {
    pub enumeration: Option<String>,
    pub enumeration_format: Option<EnumerationFormat>,
    pub format: Option<Format>,
    pub min_occurs: Option<usize>,
    pub max_occurs: Option<MaxOccurs>,
    pub other: Extensions,
}

pub open spec fn local_representation_names() -> Seq<Seq<char>> {
    seq!["enumeration"@, "enumerationFormat"@, "format"@, "minOccurs"@, "maxOccurs"@]
}

pub open spec fn local_representation_pairs(x: LocalRepresentation) -> Seq<(Seq<char>, Option<JVal>)> {
    seq![
        ("enumeration"@, jv_of_ostr(ostr_view(x.enumeration))),
        ("enumerationFormat"@, orec_ser(x.enumeration_format)),
        ("format"@, orec_ser(x.format)),
        ("minOccurs"@, jv_of_oint(ousize_view(x.min_occurs))),
        ("maxOccurs"@, orec_ser(x.max_occurs)),
    ]
}

pub open spec fn local_representation_norm_pairs(fs: Seq<(Seq<char>, JVal)>) -> Seq<(Seq<char>, Option<JVal>)> {
    seq![
        ("enumeration"@, jv_of_ostr(opt_str(jv_get(fs, "enumeration"@)))),
        ("enumerationFormat"@, opt_rec_norm::<EnumerationFormat>(jv_get(fs, "enumerationFormat"@))),
        ("format"@, opt_rec_norm::<Format>(jv_get(fs, "format"@))),
        ("minOccurs"@, jv_of_oint(opt_int(jv_get(fs, "minOccurs"@)))),
        ("maxOccurs"@, opt_rec_norm::<MaxOccurs>(jv_get(fs, "maxOccurs"@))),
    ]
}

/// The names this record knows are pairwise distinct.
pub proof fn lemma_local_representation_names_distinct()
    ensures
        forall|i: int, j: int|
            0 <= i < j < local_representation_names().len() ==> local_representation_names()[i] != local_representation_names()[j],
{
    reveal_strlit("enumeration");
    reveal_strlit("enumerationFormat");
    reveal_strlit("format");
    reveal_strlit("minOccurs");
    reveal_strlit("maxOccurs");
    let ns = local_representation_names();
    assert(ns.len() == 5);
    assert forall|i: int, j: int| 0 <= i < j < ns.len() implies ns[i] != ns[j] by {
        assert("enumeration"@.len() == 11);
        assert("enumerationFormat"@.len() == 17);
        assert("format"@.len() == 6);
        assert("minOccurs"@.len() == 9);
        assert("maxOccurs"@.len() == 9);
        assert("minOccurs"@[1] == 'i');
        assert("maxOccurs"@[1] == 'a');
    }
}

impl JsonForm for LocalRepresentation {
    open spec fn wf(&self) -> bool {
        &&& ext_ok(self.other.view_fields(), local_representation_names())
        &&& orec_wf(self.enumeration_format)
        &&& orec_wf(self.format)
        &&& orec_wf(self.max_occurs)
    }

    open spec fn ser(&self) -> JVal {
        JVal::Obj(present_fields(local_representation_pairs(*self)) + self.other.view_fields())
    }

    open spec fn doc_ok(v: JVal) -> bool {
        &&& v is Obj
        &&& {
            let fs = v->Obj_0;
            &&& is_opt_str(jv_get(fs, "enumeration"@))
            &&& is_opt_rec::<EnumerationFormat>(jv_get(fs, "enumerationFormat"@))
            &&& is_opt_rec::<Format>(jv_get(fs, "format"@))
            &&& is_opt_usize(jv_get(fs, "minOccurs"@))
            &&& is_opt_rec::<MaxOccurs>(jv_get(fs, "maxOccurs"@))
        }
    }

    open spec fn doc_norm(v: JVal) -> JVal {
        JVal::Obj(
            present_fields(local_representation_norm_pairs(v->Obj_0)) + ext_fields(v->Obj_0, local_representation_names()),
        )
    }

    #[verifier::rlimit(50)]
    fn from_json(v: JsonValue) -> (r: Result<Self, ParseError>) {
        let o = match v {
            JsonValue::Obj(o) => o,
            _ => { return Err(ParseError::NotObject) },
        };
        let ghost fs = jview_field_vec(o);
        let mut bag = FieldBag::new(o);
        proof {
            lemma_local_representation_names_distinct();
        }
        proof {
            assert(bag.taken() =~= local_representation_names().subrange(0, 0));
            crate::codec::lemma_take_fresh(local_representation_names(), 0, bag.taken());
        }
        let enumeration = match get_opt_string(bag.take("enumeration"), "enumeration") {
            Ok(x) => x,
            Err(e) => { return Err(e) },
        };
        proof {
            assert(bag.taken() =~= local_representation_names().subrange(0, 1));
            crate::codec::lemma_take_fresh(local_representation_names(), 1, bag.taken());
        }
        let enumeration_format = match parse_opt::<EnumerationFormat>(bag.take("enumerationFormat")) {
            Ok(x) => x,
            Err(e) => { return Err(e) },
        };
        proof {
            assert(bag.taken() =~= local_representation_names().subrange(0, 2));
            crate::codec::lemma_take_fresh(local_representation_names(), 2, bag.taken());
        }
        let format = match parse_opt::<Format>(bag.take("format")) {
            Ok(x) => x,
            Err(e) => { return Err(e) },
        };
        proof {
            assert(bag.taken() =~= local_representation_names().subrange(0, 3));
            crate::codec::lemma_take_fresh(local_representation_names(), 3, bag.taken());
        }
        let min_occurs = match get_opt_usize(bag.take("minOccurs"), "minOccurs") {
            Ok(x) => x,
            Err(e) => { return Err(e) },
        };
        proof {
            assert(bag.taken() =~= local_representation_names().subrange(0, 4));
            crate::codec::lemma_take_fresh(local_representation_names(), 4, bag.taken());
        }
        let max_occurs = match parse_opt::<MaxOccurs>(bag.take("maxOccurs")) {
            Ok(x) => x,
            Err(e) => { return Err(e) },
        };
        let ghost tk = bag.taken();
        let other = bag.rest();
        let out = LocalRepresentation { enumeration, enumeration_format, format, min_occurs, max_occurs, other };
        proof {
            assert(tk =~= local_representation_names());
            crate::codec::lemma_ext_fields_names(fs, tk);
            assert(local_representation_pairs(out) =~= local_representation_norm_pairs(fs));
        }
        Ok(out)
    }

    fn to_json(&self) -> (r: JsonValue) {
        let mut b = ObjBuilder::new();
        put_opt_str(&mut b, "enumeration", &self.enumeration);
        put_opt_rec(&mut b, "enumerationFormat", &self.enumeration_format);
        put_opt_rec(&mut b, "format", &self.format);
        put_opt_usize(&mut b, "minOccurs", &self.min_occurs);
        put_opt_rec(&mut b, "maxOccurs", &self.max_occurs);
        proof {
            let ps = local_representation_pairs(*self);
            lemma_pairs_chain(ps, 5);
            assert(ps.subrange(0, 5) =~= ps);
            assert(b.view_fields() == present_fields(ps)) by {
                reveal_with_fuel(pairs_prefix_chunks, 6);
            }
        }
        finish_with_ext(b, &self.other)
    }

    #[verifier::rlimit(50)]
    #[verifier::spinoff_prover]
    proof fn lemma_canon(&self) {
        lemma_local_representation_names_distinct();
        let ps = local_representation_pairs(*self);
        let ext = self.other.view_fields();
        assert(names_of(ps) =~= local_representation_names());
        assert(distinct_names(ps)) by {
            assert forall|i: int, j: int|
                0 <= i < j < ps.len() implies ps[i].0 != ps[j].0 by {
                assert(ps[i].0 == local_representation_names()[i]);
                assert(ps[j].0 == local_representation_names()[j]);
            }
        }
        assert(disjoint_from(ext, ps)) by {
            assert forall|i: int, j: int|
                0 <= i < ext.len() && 0 <= j < ps.len() implies ext[i].0 != ps[j].0 by {
                assert(!is_known_name(ext[i].0, local_representation_names()));
                assert(local_representation_names()[j] == ps[j].0);
            }
        }
        lemma_jv_get_present(ps, ext);
        lemma_ext_of_present(ps, ext);
        let fs = self.ser()->Obj_0;
        assert(jv_get(fs, "enumeration"@) == ps[0].1);
        assert(jv_get(fs, "enumerationFormat"@) == ps[1].1);
        assert(jv_get(fs, "format"@) == ps[2].1);
        assert(jv_get(fs, "minOccurs"@) == ps[3].1);
        assert(jv_get(fs, "maxOccurs"@) == ps[4].1);
        match self.enumeration_format {
            Some(t) => {
                t.lemma_canon();
            },
            None => {},
        }
        match self.format {
            Some(t) => {
                t.lemma_canon();
            },
            None => {},
        }
        match self.max_occurs {
            Some(t) => {
                t.lemma_canon();
            },
            None => {},
        }
        assert(Self::doc_ok(self.ser()));
        assert(local_representation_norm_pairs(fs) =~= ps);
        assert(ext_fields(fs, names_of(ps)) == ext);
        assert(ext_fields(fs, local_representation_names()) == ext);
    }
}


/// What an attribute is attached to.  The wire shape carries no tag: the
/// first recognized shape wins, in the fixed priority order dataflow,
/// dimensions, group, observation.
#[derive(Debug, PartialEq)]
pub enum AttributeAttachment {
    /// Tied to the dataflow as a whole.
    Dataflow,
    /// Tied to a named set of dimensions, each optionally flagged optional.
    Dimensions { dimensions: Vec<String>, optional_flags: Option<Vec<bool>> },
    /// Tied to a named group.
    Group(String),
    /// Tied to the observation.
    Observation,
}

/// The association between an attribute and other data structure definition
/// components.
#[derive(Debug, PartialEq)]
pub struct AttributeRelationship {
    pub attachment: AttributeAttachment,
    pub other: Extensions,
}

pub open spec fn attribute_relationship_names() -> Seq<Seq<char>> {
    seq!["dataflow"@, "dimensions"@, "areDimensionsOptional"@, "group"@, "observation"@]
}

pub open spec fn attribute_relationship_pairs(x: AttributeRelationship) -> Seq<
    (Seq<char>, Option<JVal>),
> {
    seq![
        ("dataflow"@, if x.attachment is Dataflow { Some(JVal::Null) } else { None }),
        (
            "dimensions"@,
            match x.attachment {
                AttributeAttachment::Dimensions { dimensions, .. } => Some(
                    JVal::Arr(seq_ser(dimensions@)),
                ),
                _ => None,
            },
        ),
        (
            "areDimensionsOptional"@,
            match x.attachment {
                AttributeAttachment::Dimensions { optional_flags, .. } => ovec_ser(optional_flags),
                _ => None,
            },
        ),
        (
            "group"@,
            match x.attachment {
                AttributeAttachment::Group(g) => Some(JVal::Str(g@)),
                _ => None,
            },
        ),
        ("observation"@, if x.attachment is Observation { Some(JVal::Null) } else { None }),
    ]
}

pub open spec fn attribute_relationship_norm_pairs(fs: Seq<(Seq<char>, JVal)>) -> Seq<
    (Seq<char>, Option<JVal>),
> {
    let df = jv_get(fs, "dataflow"@);
    let dims = jv_get(fs, "dimensions"@);
    let grp = jv_get(fs, "group"@);
    let obs = jv_get(fs, "observation"@);
    seq![
        ("dataflow"@, if df is Some { Some(JVal::Null) } else { None }),
        (
            "dimensions"@,
            if df is None && dims is Some {
                opt_recarr_norm::<String>(dims)
            } else {
                None
            },
        ),
        (
            "areDimensionsOptional"@,
            if df is None && dims is Some {
                opt_recarr_norm::<bool>(jv_get(fs, "areDimensionsOptional"@))
            } else {
                None
            },
        ),
        (
            "group"@,
            if df is None && dims is None && grp is Some {
                jv_of_ostr(opt_str(grp))
            } else {
                None
            },
        ),
        (
            "observation"@,
            if df is None && dims is None && grp is None && obs is Some {
                Some(JVal::Null)
            } else {
                None
            },
        ),
    ]
}

pub proof fn lemma_attribute_relationship_names_distinct()
    ensures
        forall|i: int, j: int|
            0 <= i < j < attribute_relationship_names().len()
                ==> attribute_relationship_names()[i] != attribute_relationship_names()[j],
{
    reveal_strlit("dataflow");
    reveal_strlit("dimensions");
    reveal_strlit("areDimensionsOptional");
    reveal_strlit("group");
    reveal_strlit("observation");
    let ns = attribute_relationship_names();
    assert(ns.len() == 5);
    assert forall|i: int, j: int| 0 <= i < j < ns.len() implies ns[i] != ns[j] by {
        assert("dataflow"@.len() == 8);
        assert("dimensions"@.len() == 10);
        assert("areDimensionsOptional"@.len() == 21);
        assert("group"@.len() == 5);
        assert("observation"@.len() == 11);
        assert("dimensions"@[0] == 'd');
        assert("observation"@[0] == 'o');
    }
}

impl JsonForm for AttributeRelationship {
    open spec fn wf(&self) -> bool {
        ext_ok(self.other.view_fields(), attribute_relationship_names())
    }

    open spec fn ser(&self) -> JVal {
        JVal::Obj(
            present_fields(attribute_relationship_pairs(*self)) + self.other.view_fields(),
        )
    }

    /// Exactly one recognized shape must match, tried in the documented
    /// priority order; a shape that matches with ill-typed required fields is
    /// a hard failure.
    open spec fn doc_ok(v: JVal) -> bool {
        &&& v is Obj
        &&& {
            let fs = v->Obj_0;
            if jv_get(fs, "dataflow"@) is Some {
                true
            } else if jv_get(fs, "dimensions"@) is Some {
                &&& is_req_recarr::<String>(jv_get(fs, "dimensions"@))
                &&& is_opt_recarr::<bool>(jv_get(fs, "areDimensionsOptional"@))
            } else if jv_get(fs, "group"@) is Some {
                is_req_str(jv_get(fs, "group"@))
            } else {
                jv_get(fs, "observation"@) is Some
            }
        }
    }

    open spec fn doc_norm(v: JVal) -> JVal {
        JVal::Obj(
            present_fields(attribute_relationship_norm_pairs(v->Obj_0)) + ext_fields(
                v->Obj_0,
                attribute_relationship_names(),
            ),
        )
    }

    #[verifier::rlimit(50)]
    fn from_json(v: JsonValue) -> (r: Result<Self, ParseError>) {
        let o = match v {
            JsonValue::Obj(o) => o,
            _ => { return Err(ParseError::NotObject) },
        };
        let ghost fs = jview_field_vec(o);
        let mut bag = FieldBag::new(o);
        proof {
            lemma_attribute_relationship_names_distinct();
            assert(bag.taken() =~= attribute_relationship_names().subrange(0, 0));
            crate::codec::lemma_take_fresh(attribute_relationship_names(), 0, bag.taken());
        }
        let df = bag.take("dataflow");
        proof {
            assert(bag.taken() =~= attribute_relationship_names().subrange(0, 1));
            crate::codec::lemma_take_fresh(attribute_relationship_names(), 1, bag.taken());
        }
        let dims_slot = bag.take("dimensions");
        proof {
            assert(bag.taken() =~= attribute_relationship_names().subrange(0, 2));
            crate::codec::lemma_take_fresh(attribute_relationship_names(), 2, bag.taken());
        }
        let flags_slot = bag.take("areDimensionsOptional");
        proof {
            assert(bag.taken() =~= attribute_relationship_names().subrange(0, 3));
            crate::codec::lemma_take_fresh(attribute_relationship_names(), 3, bag.taken());
        }
        let grp_slot = bag.take("group");
        proof {
            assert(bag.taken() =~= attribute_relationship_names().subrange(0, 4));
            crate::codec::lemma_take_fresh(attribute_relationship_names(), 4, bag.taken());
        }
        let obs_slot = bag.take("observation");
        let ghost tk = bag.taken();
        let attachment = if df.is_some() {
            AttributeAttachment::Dataflow
        } else if dims_slot.is_some() {
            let dimensions = match parse_req_vec::<String>(dims_slot, "dimensions") {
                Ok(x) => x,
                Err(e) => { return Err(e) },
            };
            let optional_flags = match parse_opt_vec::<bool>(
                flags_slot,
                "areDimensionsOptional",
            ) {
                Ok(x) => x,
                Err(e) => { return Err(e) },
            };
            AttributeAttachment::Dimensions { dimensions, optional_flags }
        } else if grp_slot.is_some() {
            let g = match get_req_string(grp_slot, "group") {
                Ok(x) => x,
                Err(e) => { return Err(e) },
            };
            AttributeAttachment::Group(g)
        } else if obs_slot.is_some() {
            AttributeAttachment::Observation
        } else {
            return Err(ParseError::Shape("attributeRelationship".to_owned(), crate::fields::ValueKind::Object));
        };
        let other = bag.rest();
        let out = AttributeRelationship { attachment, other };
        proof {
            assert(tk =~= attribute_relationship_names());
            crate::codec::lemma_ext_fields_names(fs, tk);
            assert(attribute_relationship_pairs(out) =~= attribute_relationship_norm_pairs(fs));
        }
        Ok(out)
    }

    fn to_json(&self) -> (r: JsonValue) {
        let mut b = ObjBuilder::new();
        let ghost ps = attribute_relationship_pairs(*self);
        match &self.attachment {
            AttributeAttachment::Dataflow => {
                b.put("dataflow", JsonValue::Null);
            },
            AttributeAttachment::Dimensions { dimensions, optional_flags } => {
                put_vec(&mut b, "dimensions", dimensions);
                put_opt_vec(&mut b, "areDimensionsOptional", optional_flags);
            },
            AttributeAttachment::Group(g) => {
                put_str(&mut b, "group", g);
            },
            AttributeAttachment::Observation => {
                b.put("observation", JsonValue::Null);
            },
        }
        proof {
            lemma_pairs_chain(ps, 5);
            assert(ps.subrange(0, 5) =~= ps);
            assert(b.view_fields() =~= present_fields(ps)) by {
                reveal_with_fuel(pairs_prefix_chunks, 6);
            }
        }
        finish_with_ext(b, &self.other)
    }

    #[verifier::rlimit(50)]
    #[verifier::spinoff_prover]
    proof fn lemma_canon(&self) {
        lemma_attribute_relationship_names_distinct();
        let ps = attribute_relationship_pairs(*self);
        let ext = self.other.view_fields();
        assert(names_of(ps) =~= attribute_relationship_names());
        assert(distinct_names(ps)) by {
            assert forall|i: int, j: int|
                0 <= i < j < ps.len() implies ps[i].0 != ps[j].0 by {
                assert(ps[i].0 == attribute_relationship_names()[i]);
                assert(ps[j].0 == attribute_relationship_names()[j]);
            }
        }
        assert(disjoint_from(ext, ps)) by {
            assert forall|i: int, j: int|
                0 <= i < ext.len() && 0 <= j < ps.len() implies ext[i].0 != ps[j].0 by {
                assert(!is_known_name(ext[i].0, attribute_relationship_names()));
                assert(attribute_relationship_names()[j] == ps[j].0);
            }
        }
        lemma_jv_get_present(ps, ext);
        lemma_ext_of_present(ps, ext);
        let fs = self.ser()->Obj_0;
        assert(jv_get(fs, "dataflow"@) == ps[0].1);
        assert(jv_get(fs, "dimensions"@) == ps[1].1);
        assert(jv_get(fs, "areDimensionsOptional"@) == ps[2].1);
        assert(jv_get(fs, "group"@) == ps[3].1);
        assert(jv_get(fs, "observation"@) == ps[4].1);
        match &self.attachment {
            AttributeAttachment::Dimensions { dimensions, optional_flags } => {
                assert(seq_wf(dimensions@)) by {
                    assert forall|i: int|
                        0 <= i < dimensions@.len() implies (#[trigger] dimensions@[i]).wf() by {}
                }
                lemma_arr_canon::<String>(dimensions@);
                match optional_flags {
                    Some(fl) => {
                        assert(seq_wf(fl@)) by {
                            assert forall|i: int|
                                0 <= i < fl@.len() implies (#[trigger] fl@[i]).wf() by {}
                        }
                        lemma_arr_canon::<bool>(fl@);
                    },
                    None => {},
                }
            },
            _ => {},
        }
        assert(Self::doc_ok(self.ser()));
        assert(attribute_relationship_norm_pairs(fs) =~= ps);
        assert(ext_fields(fs, names_of(ps)) == ext);
        assert(ext_fields(fs, attribute_relationship_names()) == ext);
    }
}


/// A data attribute of a data structure definition.
#[derive(Debug, PartialEq)]
pub struct Attribute {
    pub id: String,
    pub annotations: Option<Vec<Annotation>>,
    pub links: Option<Vec<Link>>,
    pub usage: Usage,
    pub attribute_relationship: AttributeRelationship,
    pub measure_relationship: Option<Vec<String>>,
    pub concept_identity: String,
    pub concept_roles: Option<Vec<String>>,
    pub local_representation: LocalRepresentation,
    pub other: Extensions,
}

pub open spec fn ds_attribute_names() -> Seq<Seq<char>> {
    seq!["id"@, "annotations"@, "links"@, "usage"@, "attributeRelationship"@, "measureRelationship"@, "conceptIdentity"@, "conceptRoles"@, "localRepresentation"@]
}

pub open spec fn ds_attribute_pairs(x: Attribute) -> Seq<(Seq<char>, Option<JVal>)> {
    seq![
        ("id"@, Some(JVal::Str(x.id@))),
        ("annotations"@, ovec_ser(x.annotations)),
        ("links"@, ovec_ser(x.links)),
        ("usage"@, Some(x.usage.ser())),
        ("attributeRelationship"@, Some(x.attribute_relationship.ser())),
        ("measureRelationship"@, ovec_ser(x.measure_relationship)),
        ("conceptIdentity"@, Some(JVal::Str(x.concept_identity@))),
        ("conceptRoles"@, ovec_ser(x.concept_roles)),
        ("localRepresentation"@, Some(x.local_representation.ser())),
    ]
}

pub open spec fn ds_attribute_norm_pairs(fs: Seq<(Seq<char>, JVal)>) -> Seq<(Seq<char>, Option<JVal>)> {
    seq![
        ("id"@, jv_of_ostr(opt_str(jv_get(fs, "id"@)))),
        ("annotations"@, opt_recarr_norm::<Annotation>(jv_get(fs, "annotations"@))),
        ("links"@, opt_recarr_norm::<Link>(jv_get(fs, "links"@))),
        ("usage"@, req_rec_norm::<Usage>(jv_get(fs, "usage"@))),
        ("attributeRelationship"@, req_rec_norm::<AttributeRelationship>(jv_get(fs, "attributeRelationship"@))),
        ("measureRelationship"@, opt_recarr_norm::<String>(jv_get(fs, "measureRelationship"@))),
        ("conceptIdentity"@, jv_of_ostr(opt_str(jv_get(fs, "conceptIdentity"@)))),
        ("conceptRoles"@, opt_recarr_norm::<String>(jv_get(fs, "conceptRoles"@))),
        ("localRepresentation"@, req_rec_norm::<LocalRepresentation>(jv_get(fs, "localRepresentation"@))),
    ]
}

/// The names this record knows are pairwise distinct.
pub proof fn lemma_ds_attribute_names_distinct()
    ensures
        forall|i: int, j: int|
            0 <= i < j < ds_attribute_names().len() ==> ds_attribute_names()[i] != ds_attribute_names()[j],
{
    reveal_strlit("id");
    reveal_strlit("annotations");
    reveal_strlit("links");
    reveal_strlit("usage");
    reveal_strlit("attributeRelationship");
    reveal_strlit("measureRelationship");
    reveal_strlit("conceptIdentity");
    reveal_strlit("conceptRoles");
    reveal_strlit("localRepresentation");
    let ns = ds_attribute_names();
    assert(ns.len() == 9);
    assert forall|i: int, j: int| 0 <= i < j < ns.len() implies ns[i] != ns[j] by {
        assert("id"@.len() == 2);
        assert("annotations"@.len() == 11);
        assert("links"@.len() == 5);
        assert("usage"@.len() == 5);
        assert("attributeRelationship"@.len() == 21);
        assert("measureRelationship"@.len() == 19);
        assert("conceptIdentity"@.len() == 15);
        assert("conceptRoles"@.len() == 12);
        assert("localRepresentation"@.len() == 19);
        assert("links"@[0] == 'l');
        assert("usage"@[0] == 'u');
        assert("measureRelationship"@[0] == 'm');
        assert("localRepresentation"@[0] == 'l');
    }
}

impl JsonForm for Attribute {
    open spec fn wf(&self) -> bool {
        &&& ext_ok(self.other.view_fields(), ds_attribute_names())
        &&& ovec_wf(self.annotations)
        &&& ovec_wf(self.links)
        &&& self.usage.wf()
        &&& self.attribute_relationship.wf()
        &&& ovec_wf(self.measure_relationship)
        &&& ovec_wf(self.concept_roles)
        &&& self.local_representation.wf()
    }

    open spec fn ser(&self) -> JVal {
        JVal::Obj(present_fields(ds_attribute_pairs(*self)) + self.other.view_fields())
    }

    open spec fn doc_ok(v: JVal) -> bool {
        &&& v is Obj
        &&& {
            let fs = v->Obj_0;
            &&& is_req_str(jv_get(fs, "id"@))
            &&& is_opt_recarr::<Annotation>(jv_get(fs, "annotations"@))
            &&& is_opt_recarr::<Link>(jv_get(fs, "links"@))
            &&& is_req_rec::<Usage>(jv_get(fs, "usage"@))
            &&& is_req_rec::<AttributeRelationship>(jv_get(fs, "attributeRelationship"@))
            &&& is_opt_recarr::<String>(jv_get(fs, "measureRelationship"@))
            &&& is_req_str(jv_get(fs, "conceptIdentity"@))
            &&& is_opt_recarr::<String>(jv_get(fs, "conceptRoles"@))
            &&& is_req_rec::<LocalRepresentation>(jv_get(fs, "localRepresentation"@))
        }
    }

    open spec fn doc_norm(v: JVal) -> JVal {
        JVal::Obj(
            present_fields(ds_attribute_norm_pairs(v->Obj_0)) + ext_fields(v->Obj_0, ds_attribute_names()),
        )
    }

    #[verifier::rlimit(50)]
    fn from_json(v: JsonValue) -> (r: Result<Self, ParseError>) {
        let o = match v {
            JsonValue::Obj(o) => o,
            _ => { return Err(ParseError::NotObject) },
        };
        let ghost fs = jview_field_vec(o);
        let mut bag = FieldBag::new(o);
        proof {
            lemma_ds_attribute_names_distinct();
        }
        proof {
            assert(bag.taken() =~= ds_attribute_names().subrange(0, 0));
            crate::codec::lemma_take_fresh(ds_attribute_names(), 0, bag.taken());
        }
        let id = match get_req_string(bag.take("id"), "id") {
            Ok(x) => x,
            Err(e) => { return Err(e) },
        };
        proof {
            assert(bag.taken() =~= ds_attribute_names().subrange(0, 1));
            crate::codec::lemma_take_fresh(ds_attribute_names(), 1, bag.taken());
        }
        let annotations = match parse_opt_vec::<Annotation>(bag.take("annotations"), "annotations") {
            Ok(x) => x,
            Err(e) => { return Err(e) },
        };
        proof {
            assert(bag.taken() =~= ds_attribute_names().subrange(0, 2));
            crate::codec::lemma_take_fresh(ds_attribute_names(), 2, bag.taken());
        }
        let links = match parse_opt_vec::<Link>(bag.take("links"), "links") {
            Ok(x) => x,
            Err(e) => { return Err(e) },
        };
        proof {
            assert(bag.taken() =~= ds_attribute_names().subrange(0, 3));
            crate::codec::lemma_take_fresh(ds_attribute_names(), 3, bag.taken());
        }
        let usage = match parse_req::<Usage>(bag.take("usage"), "usage") {
            Ok(x) => x,
            Err(e) => { return Err(e) },
        };
        proof {
            assert(bag.taken() =~= ds_attribute_names().subrange(0, 4));
            crate::codec::lemma_take_fresh(ds_attribute_names(), 4, bag.taken());
        }
        let attribute_relationship = match parse_req::<AttributeRelationship>(bag.take("attributeRelationship"), "attributeRelationship") {
            Ok(x) => x,
            Err(e) => { return Err(e) },
        };
        proof {
            assert(bag.taken() =~= ds_attribute_names().subrange(0, 5));
            crate::codec::lemma_take_fresh(ds_attribute_names(), 5, bag.taken());
        }
        let measure_relationship = match parse_opt_vec::<String>(bag.take("measureRelationship"), "measureRelationship") {
            Ok(x) => x,
            Err(e) => { return Err(e) },
        };
        proof {
            assert(bag.taken() =~= ds_attribute_names().subrange(0, 6));
            crate::codec::lemma_take_fresh(ds_attribute_names(), 6, bag.taken());
        }
        let concept_identity = match get_req_string(bag.take("conceptIdentity"), "conceptIdentity") {
            Ok(x) => x,
            Err(e) => { return Err(e) },
        };
        proof {
            assert(bag.taken() =~= ds_attribute_names().subrange(0, 7));
            crate::codec::lemma_take_fresh(ds_attribute_names(), 7, bag.taken());
        }
        let concept_roles = match parse_opt_vec::<String>(bag.take("conceptRoles"), "conceptRoles") {
            Ok(x) => x,
            Err(e) => { return Err(e) },
        };
        proof {
            assert(bag.taken() =~= ds_attribute_names().subrange(0, 8));
            crate::codec::lemma_take_fresh(ds_attribute_names(), 8, bag.taken());
        }
        let local_representation = match parse_req::<LocalRepresentation>(bag.take("localRepresentation"), "localRepresentation") {
            Ok(x) => x,
            Err(e) => { return Err(e) },
        };
        let ghost tk = bag.taken();
        let other = bag.rest();
        let out = Attribute { id, annotations, links, usage, attribute_relationship, measure_relationship, concept_identity, concept_roles, local_representation, other };
        proof {
            assert(tk =~= ds_attribute_names());
            crate::codec::lemma_ext_fields_names(fs, tk);
            assert(ds_attribute_pairs(out) =~= ds_attribute_norm_pairs(fs));
        }
        Ok(out)
    }

    fn to_json(&self) -> (r: JsonValue) {
        let mut b = ObjBuilder::new();
        put_str(&mut b, "id", &self.id);
        put_opt_vec(&mut b, "annotations", &self.annotations);
        put_opt_vec(&mut b, "links", &self.links);
        put_rec(&mut b, "usage", &self.usage);
        put_rec(&mut b, "attributeRelationship", &self.attribute_relationship);
        put_opt_vec(&mut b, "measureRelationship", &self.measure_relationship);
        put_str(&mut b, "conceptIdentity", &self.concept_identity);
        put_opt_vec(&mut b, "conceptRoles", &self.concept_roles);
        put_rec(&mut b, "localRepresentation", &self.local_representation);
        proof {
            let ps = ds_attribute_pairs(*self);
            lemma_pairs_chain(ps, 9);
            assert(ps.subrange(0, 9) =~= ps);
            assert(b.view_fields() == present_fields(ps)) by {
                reveal_with_fuel(pairs_prefix_chunks, 10);
            }
        }
        finish_with_ext(b, &self.other)
    }

    #[verifier::rlimit(50)]
    #[verifier::spinoff_prover]
    proof fn lemma_canon(&self) {
        lemma_ds_attribute_names_distinct();
        let ps = ds_attribute_pairs(*self);
        let ext = self.other.view_fields();
        assert(names_of(ps) =~= ds_attribute_names());
        assert(distinct_names(ps)) by {
            assert forall|i: int, j: int|
                0 <= i < j < ps.len() implies ps[i].0 != ps[j].0 by {
                assert(ps[i].0 == ds_attribute_names()[i]);
                assert(ps[j].0 == ds_attribute_names()[j]);
            }
        }
        assert(disjoint_from(ext, ps)) by {
            assert forall|i: int, j: int|
                0 <= i < ext.len() && 0 <= j < ps.len() implies ext[i].0 != ps[j].0 by {
                assert(!is_known_name(ext[i].0, ds_attribute_names()));
                assert(ds_attribute_names()[j] == ps[j].0);
            }
        }
        lemma_jv_get_present(ps, ext);
        lemma_ext_of_present(ps, ext);
        let fs = self.ser()->Obj_0;
        assert(jv_get(fs, "id"@) == ps[0].1);
        assert(jv_get(fs, "annotations"@) == ps[1].1);
        assert(jv_get(fs, "links"@) == ps[2].1);
        assert(jv_get(fs, "usage"@) == ps[3].1);
        assert(jv_get(fs, "attributeRelationship"@) == ps[4].1);
        assert(jv_get(fs, "measureRelationship"@) == ps[5].1);
        assert(jv_get(fs, "conceptIdentity"@) == ps[6].1);
        assert(jv_get(fs, "conceptRoles"@) == ps[7].1);
        assert(jv_get(fs, "localRepresentation"@) == ps[8].1);
        match &self.annotations {
            Some(v) => {
                lemma_arr_canon::<Annotation>(v@);
            },
            None => {},
        }
        match &self.links {
            Some(v) => {
                lemma_arr_canon::<Link>(v@);
            },
            None => {},
        }
        self.usage.lemma_canon();
        self.attribute_relationship.lemma_canon();
        match &self.measure_relationship {
            Some(v) => {
                lemma_arr_canon::<String>(v@);
            },
            None => {},
        }
        match &self.concept_roles {
            Some(v) => {
                lemma_arr_canon::<String>(v@);
            },
            None => {},
        }
        self.local_representation.lemma_canon();
        assert(Self::doc_ok(self.ser()));
        assert(ds_attribute_norm_pairs(fs)[0] == ps[0]);
        assert(ds_attribute_norm_pairs(fs)[1] == ps[1]);
        assert(ds_attribute_norm_pairs(fs)[2] == ps[2]);
        assert(ds_attribute_norm_pairs(fs)[3] == ps[3]);
        assert(ds_attribute_norm_pairs(fs)[4] == ps[4]);
        assert(ds_attribute_norm_pairs(fs)[5] == ps[5]);
        assert(ds_attribute_norm_pairs(fs)[6] == ps[6]);
        assert(ds_attribute_norm_pairs(fs)[7] == ps[7]);
        assert(ds_attribute_norm_pairs(fs)[8] == ps[8]);
        assert(ds_attribute_norm_pairs(fs) =~= ps);
        assert(ext_fields(fs, names_of(ps)) == ext);
        assert(ext_fields(fs, ds_attribute_names()) == ext);
    }
}

/// The attributes of a data structure definition.
#[derive(Debug, PartialEq)]
pub struct AttributeList {
    pub id: String,
    pub annotations: Option<Vec<Annotation>>,
    pub links: Option<Vec<Link>>,
    pub attributes: Option<Vec<Attribute>>,
    pub other: Extensions,
}

pub open spec fn attribute_list_names() -> Seq<Seq<char>> {
    seq!["id"@, "annotations"@, "links"@, "attributes"@]
}

pub open spec fn attribute_list_pairs(x: AttributeList) -> Seq<(Seq<char>, Option<JVal>)> {
    seq![
        ("id"@, Some(JVal::Str(x.id@))),
        ("annotations"@, ovec_ser(x.annotations)),
        ("links"@, ovec_ser(x.links)),
        ("attributes"@, ovec_ser(x.attributes)),
    ]
}

pub open spec fn attribute_list_norm_pairs(fs: Seq<(Seq<char>, JVal)>) -> Seq<(Seq<char>, Option<JVal>)> {
    seq![
        ("id"@, jv_of_ostr(opt_str(jv_get(fs, "id"@)))),
        ("annotations"@, opt_recarr_norm::<Annotation>(jv_get(fs, "annotations"@))),
        ("links"@, opt_recarr_norm::<Link>(jv_get(fs, "links"@))),
        ("attributes"@, opt_recarr_norm::<Attribute>(jv_get(fs, "attributes"@))),
    ]
}

/// The names this record knows are pairwise distinct.
pub proof fn lemma_attribute_list_names_distinct()
    ensures
        forall|i: int, j: int|
            0 <= i < j < attribute_list_names().len() ==> attribute_list_names()[i] != attribute_list_names()[j],
{
    reveal_strlit("id");
    reveal_strlit("annotations");
    reveal_strlit("links");
    reveal_strlit("attributes");
    let ns = attribute_list_names();
    assert(ns.len() == 4);
    assert forall|i: int, j: int| 0 <= i < j < ns.len() implies ns[i] != ns[j] by {
        assert("id"@.len() == 2);
        assert("annotations"@.len() == 11);
        assert("links"@.len() == 5);
        assert("attributes"@.len() == 10);
    }
}

impl JsonForm for AttributeList {
    open spec fn wf(&self) -> bool {
        &&& ext_ok(self.other.view_fields(), attribute_list_names())
        &&& ovec_wf(self.annotations)
        &&& ovec_wf(self.links)
        &&& ovec_wf(self.attributes)
    }

    open spec fn ser(&self) -> JVal {
        JVal::Obj(present_fields(attribute_list_pairs(*self)) + self.other.view_fields())
    }

    open spec fn doc_ok(v: JVal) -> bool {
        &&& v is Obj
        &&& {
            let fs = v->Obj_0;
            &&& is_req_str(jv_get(fs, "id"@))
            &&& is_opt_recarr::<Annotation>(jv_get(fs, "annotations"@))
            &&& is_opt_recarr::<Link>(jv_get(fs, "links"@))
            &&& is_opt_recarr::<Attribute>(jv_get(fs, "attributes"@))
        }
    }

    open spec fn doc_norm(v: JVal) -> JVal {
        JVal::Obj(
            present_fields(attribute_list_norm_pairs(v->Obj_0)) + ext_fields(v->Obj_0, attribute_list_names()),
        )
    }

    #[verifier::rlimit(50)]
    fn from_json(v: JsonValue) -> (r: Result<Self, ParseError>) {
        let o = match v {
            JsonValue::Obj(o) => o,
            _ => { return Err(ParseError::NotObject) },
        };
        let ghost fs = jview_field_vec(o);
        let mut bag = FieldBag::new(o);
        proof {
            lemma_attribute_list_names_distinct();
        }
        proof {
            assert(bag.taken() =~= attribute_list_names().subrange(0, 0));
            crate::codec::lemma_take_fresh(attribute_list_names(), 0, bag.taken());
        }
        let id = match get_req_string(bag.take("id"), "id") {
            Ok(x) => x,
            Err(e) => { return Err(e) },
        };
        proof {
            assert(bag.taken() =~= attribute_list_names().subrange(0, 1));
            crate::codec::lemma_take_fresh(attribute_list_names(), 1, bag.taken());
        }
        let annotations = match parse_opt_vec::<Annotation>(bag.take("annotations"), "annotations") {
            Ok(x) => x,
            Err(e) => { return Err(e) },
        };
        proof {
            assert(bag.taken() =~= attribute_list_names().subrange(0, 2));
            crate::codec::lemma_take_fresh(attribute_list_names(), 2, bag.taken());
        }
        let links = match parse_opt_vec::<Link>(bag.take("links"), "links") {
            Ok(x) => x,
            Err(e) => { return Err(e) },
        };
        proof {
            assert(bag.taken() =~= attribute_list_names().subrange(0, 3));
            crate::codec::lemma_take_fresh(attribute_list_names(), 3, bag.taken());
        }
        let attributes = match parse_opt_vec::<Attribute>(bag.take("attributes"), "attributes") {
            Ok(x) => x,
            Err(e) => { return Err(e) },
        };
        let ghost tk = bag.taken();
        let other = bag.rest();
        let out = AttributeList { id, annotations, links, attributes, other };
        proof {
            assert(tk =~= attribute_list_names());
            crate::codec::lemma_ext_fields_names(fs, tk);
            assert(attribute_list_pairs(out) =~= attribute_list_norm_pairs(fs));
        }
        Ok(out)
    }

    fn to_json(&self) -> (r: JsonValue) {
        let mut b = ObjBuilder::new();
        put_str(&mut b, "id", &self.id);
        put_opt_vec(&mut b, "annotations", &self.annotations);
        put_opt_vec(&mut b, "links", &self.links);
        put_opt_vec(&mut b, "attributes", &self.attributes);
        proof {
            let ps = attribute_list_pairs(*self);
            lemma_pairs_chain(ps, 4);
            assert(ps.subrange(0, 4) =~= ps);
            assert(b.view_fields() == present_fields(ps)) by {
                reveal_with_fuel(pairs_prefix_chunks, 5);
            }
        }
        finish_with_ext(b, &self.other)
    }

    #[verifier::rlimit(50)]
    #[verifier::spinoff_prover]
    proof fn lemma_canon(&self) {
        lemma_attribute_list_names_distinct();
        let ps = attribute_list_pairs(*self);
        let ext = self.other.view_fields();
        assert(names_of(ps) =~= attribute_list_names());
        assert(distinct_names(ps)) by {
            assert forall|i: int, j: int|
                0 <= i < j < ps.len() implies ps[i].0 != ps[j].0 by {
                assert(ps[i].0 == attribute_list_names()[i]);
                assert(ps[j].0 == attribute_list_names()[j]);
            }
        }
        assert(disjoint_from(ext, ps)) by {
            assert forall|i: int, j: int|
                0 <= i < ext.len() && 0 <= j < ps.len() implies ext[i].0 != ps[j].0 by {
                assert(!is_known_name(ext[i].0, attribute_list_names()));
                assert(attribute_list_names()[j] == ps[j].0);
            }
        }
        lemma_jv_get_present(ps, ext);
        lemma_ext_of_present(ps, ext);
        let fs = self.ser()->Obj_0;
        assert(jv_get(fs, "id"@) == ps[0].1);
        assert(jv_get(fs, "annotations"@) == ps[1].1);
        assert(jv_get(fs, "links"@) == ps[2].1);
        assert(jv_get(fs, "attributes"@) == ps[3].1);
        match &self.annotations {
            Some(v) => {
                lemma_arr_canon::<Annotation>(v@);
            },
            None => {},
        }
        match &self.links {
            Some(v) => {
                lemma_arr_canon::<Link>(v@);
            },
            None => {},
        }
        match &self.attributes {
            Some(v) => {
                lemma_arr_canon::<Attribute>(v@);
            },
            None => {},
        }
        assert(Self::doc_ok(self.ser()));
        assert(attribute_list_norm_pairs(fs)[0] == ps[0]);
        assert(attribute_list_norm_pairs(fs)[1] == ps[1]);
        assert(attribute_list_norm_pairs(fs)[2] == ps[2]);
        assert(attribute_list_norm_pairs(fs)[3] == ps[3]);
        assert(attribute_list_norm_pairs(fs) =~= ps);
        assert(ext_fields(fs, names_of(ps)) == ext);
        assert(ext_fields(fs, attribute_list_names()) == ext);
    }
}

/// A dimension of a data structure definition.
#[derive(Debug, PartialEq)]
pub struct Dimension {
    pub id: Option<String>,
    pub annotations: Option<Vec<Annotation>>,
    pub links: Option<Vec<Link>>,
    pub position: usize,
    pub concept_identity: String,
    pub concept_roles: Option<Vec<String>>,
    pub local_representation: Option<LocalRepresentation>,
    pub other: Extensions,
}

pub open spec fn dimension_names() -> Seq<Seq<char>> {
    seq!["id"@, "annotations"@, "links"@, "position"@, "conceptIdentity"@, "conceptRoles"@, "localRepresentation"@]
}

pub open spec fn dimension_pairs(x: Dimension) -> Seq<(Seq<char>, Option<JVal>)> {
    seq![
        ("id"@, jv_of_ostr(ostr_view(x.id))),
        ("annotations"@, ovec_ser(x.annotations)),
        ("links"@, ovec_ser(x.links)),
        ("position"@, Some(JVal::Int(x.position as int))),
        ("conceptIdentity"@, Some(JVal::Str(x.concept_identity@))),
        ("conceptRoles"@, ovec_ser(x.concept_roles)),
        ("localRepresentation"@, orec_ser(x.local_representation)),
    ]
}

pub open spec fn dimension_norm_pairs(fs: Seq<(Seq<char>, JVal)>) -> Seq<(Seq<char>, Option<JVal>)> {
    seq![
        ("id"@, jv_of_ostr(opt_str(jv_get(fs, "id"@)))),
        ("annotations"@, opt_recarr_norm::<Annotation>(jv_get(fs, "annotations"@))),
        ("links"@, opt_recarr_norm::<Link>(jv_get(fs, "links"@))),
        ("position"@, jv_of_oint(opt_int(jv_get(fs, "position"@)))),
        ("conceptIdentity"@, jv_of_ostr(opt_str(jv_get(fs, "conceptIdentity"@)))),
        ("conceptRoles"@, opt_recarr_norm::<String>(jv_get(fs, "conceptRoles"@))),
        ("localRepresentation"@, opt_rec_norm::<LocalRepresentation>(jv_get(fs, "localRepresentation"@))),
    ]
}

/// The names this record knows are pairwise distinct.
pub proof fn lemma_dimension_names_distinct()
    ensures
        forall|i: int, j: int|
            0 <= i < j < dimension_names().len() ==> dimension_names()[i] != dimension_names()[j],
{
    reveal_strlit("id");
    reveal_strlit("annotations");
    reveal_strlit("links");
    reveal_strlit("position");
    reveal_strlit("conceptIdentity");
    reveal_strlit("conceptRoles");
    reveal_strlit("localRepresentation");
    let ns = dimension_names();
    assert(ns.len() == 7);
    assert forall|i: int, j: int| 0 <= i < j < ns.len() implies ns[i] != ns[j] by {
        assert("id"@.len() == 2);
        assert("annotations"@.len() == 11);
        assert("links"@.len() == 5);
        assert("position"@.len() == 8);
        assert("conceptIdentity"@.len() == 15);
        assert("conceptRoles"@.len() == 12);
        assert("localRepresentation"@.len() == 19);
    }
}

impl JsonForm for Dimension {
    open spec fn wf(&self) -> bool {
        &&& ext_ok(self.other.view_fields(), dimension_names())
        &&& ovec_wf(self.annotations)
        &&& ovec_wf(self.links)
        &&& ovec_wf(self.concept_roles)
        &&& orec_wf(self.local_representation)
    }

    open spec fn ser(&self) -> JVal {
        JVal::Obj(present_fields(dimension_pairs(*self)) + self.other.view_fields())
    }

    open spec fn doc_ok(v: JVal) -> bool {
        &&& v is Obj
        &&& {
            let fs = v->Obj_0;
            &&& is_opt_str(jv_get(fs, "id"@))
            &&& is_opt_recarr::<Annotation>(jv_get(fs, "annotations"@))
            &&& is_opt_recarr::<Link>(jv_get(fs, "links"@))
            &&& is_req_usize(jv_get(fs, "position"@))
            &&& is_req_str(jv_get(fs, "conceptIdentity"@))
            &&& is_opt_recarr::<String>(jv_get(fs, "conceptRoles"@))
            &&& is_opt_rec::<LocalRepresentation>(jv_get(fs, "localRepresentation"@))
        }
    }

    open spec fn doc_norm(v: JVal) -> JVal {
        JVal::Obj(
            present_fields(dimension_norm_pairs(v->Obj_0)) + ext_fields(v->Obj_0, dimension_names()),
        )
    }

    #[verifier::rlimit(50)]
    fn from_json(v: JsonValue) -> (r: Result<Self, ParseError>) {
        let o = match v {
            JsonValue::Obj(o) => o,
            _ => { return Err(ParseError::NotObject) },
        };
        let ghost fs = jview_field_vec(o);
        let mut bag = FieldBag::new(o);
        proof {
            lemma_dimension_names_distinct();
        }
        proof {
            assert(bag.taken() =~= dimension_names().subrange(0, 0));
            crate::codec::lemma_take_fresh(dimension_names(), 0, bag.taken());
        }
        let id = match get_opt_string(bag.take("id"), "id") {
            Ok(x) => x,
            Err(e) => { return Err(e) },
        };
        proof {
            assert(bag.taken() =~= dimension_names().subrange(0, 1));
            crate::codec::lemma_take_fresh(dimension_names(), 1, bag.taken());
        }
        let annotations = match parse_opt_vec::<Annotation>(bag.take("annotations"), "annotations") {
            Ok(x) => x,
            Err(e) => { return Err(e) },
        };
        proof {
            assert(bag.taken() =~= dimension_names().subrange(0, 2));
            crate::codec::lemma_take_fresh(dimension_names(), 2, bag.taken());
        }
        let links = match parse_opt_vec::<Link>(bag.take("links"), "links") {
            Ok(x) => x,
            Err(e) => { return Err(e) },
        };
        proof {
            assert(bag.taken() =~= dimension_names().subrange(0, 3));
            crate::codec::lemma_take_fresh(dimension_names(), 3, bag.taken());
        }
        let position = match get_req_usize(bag.take("position"), "position") {
            Ok(x) => x,
            Err(e) => { return Err(e) },
        };
        proof {
            assert(bag.taken() =~= dimension_names().subrange(0, 4));
            crate::codec::lemma_take_fresh(dimension_names(), 4, bag.taken());
        }
        let concept_identity = match get_req_string(bag.take("conceptIdentity"), "conceptIdentity") {
            Ok(x) => x,
            Err(e) => { return Err(e) },
        };
        proof {
            assert(bag.taken() =~= dimension_names().subrange(0, 5));
            crate::codec::lemma_take_fresh(dimension_names(), 5, bag.taken());
        }
        let concept_roles = match parse_opt_vec::<String>(bag.take("conceptRoles"), "conceptRoles") {
            Ok(x) => x,
            Err(e) => { return Err(e) },
        };
        proof {
            assert(bag.taken() =~= dimension_names().subrange(0, 6));
            crate::codec::lemma_take_fresh(dimension_names(), 6, bag.taken());
        }
        let local_representation = match parse_opt::<LocalRepresentation>(bag.take("localRepresentation")) {
            Ok(x) => x,
            Err(e) => { return Err(e) },
        };
        let ghost tk = bag.taken();
        let other = bag.rest();
        let out = Dimension { id, annotations, links, position, concept_identity, concept_roles, local_representation, other };
        proof {
            assert(tk =~= dimension_names());
            crate::codec::lemma_ext_fields_names(fs, tk);
            assert(dimension_pairs(out) =~= dimension_norm_pairs(fs));
        }
        Ok(out)
    }

    fn to_json(&self) -> (r: JsonValue) {
        let mut b = ObjBuilder::new();
        put_opt_str(&mut b, "id", &self.id);
        put_opt_vec(&mut b, "annotations", &self.annotations);
        put_opt_vec(&mut b, "links", &self.links);
        put_usize(&mut b, "position", self.position);
        put_str(&mut b, "conceptIdentity", &self.concept_identity);
        put_opt_vec(&mut b, "conceptRoles", &self.concept_roles);
        put_opt_rec(&mut b, "localRepresentation", &self.local_representation);
        proof {
            let ps = dimension_pairs(*self);
            lemma_pairs_chain(ps, 7);
            assert(ps.subrange(0, 7) =~= ps);
            assert(b.view_fields() == present_fields(ps)) by {
                reveal_with_fuel(pairs_prefix_chunks, 8);
            }
        }
        finish_with_ext(b, &self.other)
    }

    #[verifier::rlimit(50)]
    #[verifier::spinoff_prover]
    proof fn lemma_canon(&self) {
        lemma_dimension_names_distinct();
        let ps = dimension_pairs(*self);
        let ext = self.other.view_fields();
        assert(names_of(ps) =~= dimension_names());
        assert(distinct_names(ps)) by {
            assert forall|i: int, j: int|
                0 <= i < j < ps.len() implies ps[i].0 != ps[j].0 by {
                assert(ps[i].0 == dimension_names()[i]);
                assert(ps[j].0 == dimension_names()[j]);
            }
        }
        assert(disjoint_from(ext, ps)) by {
            assert forall|i: int, j: int|
                0 <= i < ext.len() && 0 <= j < ps.len() implies ext[i].0 != ps[j].0 by {
                assert(!is_known_name(ext[i].0, dimension_names()));
                assert(dimension_names()[j] == ps[j].0);
            }
        }
        lemma_jv_get_present(ps, ext);
        lemma_ext_of_present(ps, ext);
        let fs = self.ser()->Obj_0;
        assert(jv_get(fs, "id"@) == ps[0].1);
        assert(jv_get(fs, "annotations"@) == ps[1].1);
        assert(jv_get(fs, "links"@) == ps[2].1);
        assert(jv_get(fs, "position"@) == ps[3].1);
        assert(jv_get(fs, "conceptIdentity"@) == ps[4].1);
        assert(jv_get(fs, "conceptRoles"@) == ps[5].1);
        assert(jv_get(fs, "localRepresentation"@) == ps[6].1);
        match &self.annotations {
            Some(v) => {
                lemma_arr_canon::<Annotation>(v@);
            },
            None => {},
        }
        match &self.links {
            Some(v) => {
                lemma_arr_canon::<Link>(v@);
            },
            None => {},
        }
        match &self.concept_roles {
            Some(v) => {
                lemma_arr_canon::<String>(v@);
            },
            None => {},
        }
        match self.local_representation {
            Some(t) => {
                t.lemma_canon();
            },
            None => {},
        }
        assert(Self::doc_ok(self.ser()));
        assert(dimension_norm_pairs(fs)[0] == ps[0]);
        assert(dimension_norm_pairs(fs)[1] == ps[1]);
        assert(dimension_norm_pairs(fs)[2] == ps[2]);
        assert(dimension_norm_pairs(fs)[3] == ps[3]);
        assert(dimension_norm_pairs(fs)[4] == ps[4]);
        assert(dimension_norm_pairs(fs)[5] == ps[5]);
        assert(dimension_norm_pairs(fs)[6] == ps[6]);
        assert(dimension_norm_pairs(fs) =~= ps);
        assert(ext_fields(fs, names_of(ps)) == ext);
        assert(ext_fields(fs, dimension_names()) == ext);
    }
}

/// The dimension representing time.
#[derive(Debug, PartialEq)]
pub struct TimeDimension {
    pub id: Option<String>,
    pub annotations: Option<Vec<Annotation>>,
    pub links: Option<Vec<Link>>,
    pub concept_identity: String,
    pub local_representation: LocalRepresentation,
    pub other: Extensions,
}

pub open spec fn time_dimension_names() -> Seq<Seq<char>> {
    seq!["id"@, "annotations"@, "links"@, "conceptIdentity"@, "localRepresentation"@]
}

pub open spec fn time_dimension_pairs(x: TimeDimension) -> Seq<(Seq<char>, Option<JVal>)> {
    seq![
        ("id"@, jv_of_ostr(ostr_view(x.id))),
        ("annotations"@, ovec_ser(x.annotations)),
        ("links"@, ovec_ser(x.links)),
        ("conceptIdentity"@, Some(JVal::Str(x.concept_identity@))),
        ("localRepresentation"@, Some(x.local_representation.ser())),
    ]
}

pub open spec fn time_dimension_norm_pairs(fs: Seq<(Seq<char>, JVal)>) -> Seq<(Seq<char>, Option<JVal>)> {
    seq![
        ("id"@, jv_of_ostr(opt_str(jv_get(fs, "id"@)))),
        ("annotations"@, opt_recarr_norm::<Annotation>(jv_get(fs, "annotations"@))),
        ("links"@, opt_recarr_norm::<Link>(jv_get(fs, "links"@))),
        ("conceptIdentity"@, jv_of_ostr(opt_str(jv_get(fs, "conceptIdentity"@)))),
        ("localRepresentation"@, req_rec_norm::<LocalRepresentation>(jv_get(fs, "localRepresentation"@))),
    ]
}

/// The names this record knows are pairwise distinct.
pub proof fn lemma_time_dimension_names_distinct()
    ensures
        forall|i: int, j: int|
            0 <= i < j < time_dimension_names().len() ==> time_dimension_names()[i] != time_dimension_names()[j],
{
    reveal_strlit("id");
    reveal_strlit("annotations");
    reveal_strlit("links");
    reveal_strlit("conceptIdentity");
    reveal_strlit("localRepresentation");
    let ns = time_dimension_names();
    assert(ns.len() == 5);
    assert forall|i: int, j: int| 0 <= i < j < ns.len() implies ns[i] != ns[j] by {
        assert("id"@.len() == 2);
        assert("annotations"@.len() == 11);
        assert("links"@.len() == 5);
        assert("conceptIdentity"@.len() == 15);
        assert("localRepresentation"@.len() == 19);
    }
}

impl JsonForm for TimeDimension {
    open spec fn wf(&self) -> bool {
        &&& ext_ok(self.other.view_fields(), time_dimension_names())
        &&& ovec_wf(self.annotations)
        &&& ovec_wf(self.links)
        &&& self.local_representation.wf()
    }

    open spec fn ser(&self) -> JVal {
        JVal::Obj(present_fields(time_dimension_pairs(*self)) + self.other.view_fields())
    }

    open spec fn doc_ok(v: JVal) -> bool {
        &&& v is Obj
        &&& {
            let fs = v->Obj_0;
            &&& is_opt_str(jv_get(fs, "id"@))
            &&& is_opt_recarr::<Annotation>(jv_get(fs, "annotations"@))
            &&& is_opt_recarr::<Link>(jv_get(fs, "links"@))
            &&& is_req_str(jv_get(fs, "conceptIdentity"@))
            &&& is_req_rec::<LocalRepresentation>(jv_get(fs, "localRepresentation"@))
        }
    }

    open spec fn doc_norm(v: JVal) -> JVal {
        JVal::Obj(
            present_fields(time_dimension_norm_pairs(v->Obj_0)) + ext_fields(v->Obj_0, time_dimension_names()),
        )
    }

    #[verifier::rlimit(50)]
    fn from_json(v: JsonValue) -> (r: Result<Self, ParseError>) {
        let o = match v {
            JsonValue::Obj(o) => o,
            _ => { return Err(ParseError::NotObject) },
        };
        let ghost fs = jview_field_vec(o);
        let mut bag = FieldBag::new(o);
        proof {
            lemma_time_dimension_names_distinct();
        }
        proof {
            assert(bag.taken() =~= time_dimension_names().subrange(0, 0));
            crate::codec::lemma_take_fresh(time_dimension_names(), 0, bag.taken());
        }
        let id = match get_opt_string(bag.take("id"), "id") {
            Ok(x) => x,
            Err(e) => { return Err(e) },
        };
        proof {
            assert(bag.taken() =~= time_dimension_names().subrange(0, 1));
            crate::codec::lemma_take_fresh(time_dimension_names(), 1, bag.taken());
        }
        let annotations = match parse_opt_vec::<Annotation>(bag.take("annotations"), "annotations") {
            Ok(x) => x,
            Err(e) => { return Err(e) },
        };
        proof {
            assert(bag.taken() =~= time_dimension_names().subrange(0, 2));
            crate::codec::lemma_take_fresh(time_dimension_names(), 2, bag.taken());
        }
        let links = match parse_opt_vec::<Link>(bag.take("links"), "links") {
            Ok(x) => x,
            Err(e) => { return Err(e) },
        };
        proof {
            assert(bag.taken() =~= time_dimension_names().subrange(0, 3));
            crate::codec::lemma_take_fresh(time_dimension_names(), 3, bag.taken());
        }
        let concept_identity = match get_req_string(bag.take("conceptIdentity"), "conceptIdentity") {
            Ok(x) => x,
            Err(e) => { return Err(e) },
        };
        proof {
            assert(bag.taken() =~= time_dimension_names().subrange(0, 4));
            crate::codec::lemma_take_fresh(time_dimension_names(), 4, bag.taken());
        }
        let local_representation = match parse_req::<LocalRepresentation>(bag.take("localRepresentation"), "localRepresentation") {
            Ok(x) => x,
            Err(e) => { return Err(e) },
        };
        let ghost tk = bag.taken();
        let other = bag.rest();
        let out = TimeDimension { id, annotations, links, concept_identity, local_representation, other };
        proof {
            assert(tk =~= time_dimension_names());
            crate::codec::lemma_ext_fields_names(fs, tk);
            assert(time_dimension_pairs(out) =~= time_dimension_norm_pairs(fs));
        }
        Ok(out)
    }

    fn to_json(&self) -> (r: JsonValue) {
        let mut b = ObjBuilder::new();
        put_opt_str(&mut b, "id", &self.id);
        put_opt_vec(&mut b, "annotations", &self.annotations);
        put_opt_vec(&mut b, "links", &self.links);
        put_str(&mut b, "conceptIdentity", &self.concept_identity);
        put_rec(&mut b, "localRepresentation", &self.local_representation);
        proof {
            let ps = time_dimension_pairs(*self);
            lemma_pairs_chain(ps, 5);
            assert(ps.subrange(0, 5) =~= ps);
            assert(b.view_fields() == present_fields(ps)) by {
                reveal_with_fuel(pairs_prefix_chunks, 6);
            }
        }
        finish_with_ext(b, &self.other)
    }

    #[verifier::rlimit(50)]
    #[verifier::spinoff_prover]
    proof fn lemma_canon(&self) {
        lemma_time_dimension_names_distinct();
        let ps = time_dimension_pairs(*self);
        let ext = self.other.view_fields();
        assert(names_of(ps) =~= time_dimension_names());
        assert(distinct_names(ps)) by {
            assert forall|i: int, j: int|
                0 <= i < j < ps.len() implies ps[i].0 != ps[j].0 by {
                assert(ps[i].0 == time_dimension_names()[i]);
                assert(ps[j].0 == time_dimension_names()[j]);
            }
        }
        assert(disjoint_from(ext, ps)) by {
            assert forall|i: int, j: int|
                0 <= i < ext.len() && 0 <= j < ps.len() implies ext[i].0 != ps[j].0 by {
                assert(!is_known_name(ext[i].0, time_dimension_names()));
                assert(time_dimension_names()[j] == ps[j].0);
            }
        }
        lemma_jv_get_present(ps, ext);
        lemma_ext_of_present(ps, ext);
        let fs = self.ser()->Obj_0;
        assert(jv_get(fs, "id"@) == ps[0].1);
        assert(jv_get(fs, "annotations"@) == ps[1].1);
        assert(jv_get(fs, "links"@) == ps[2].1);
        assert(jv_get(fs, "conceptIdentity"@) == ps[3].1);
        assert(jv_get(fs, "localRepresentation"@) == ps[4].1);
        match &self.annotations {
            Some(v) => {
                lemma_arr_canon::<Annotation>(v@);
            },
            None => {},
        }
        match &self.links {
            Some(v) => {
                lemma_arr_canon::<Link>(v@);
            },
            None => {},
        }
        self.local_representation.lemma_canon();
        assert(Self::doc_ok(self.ser()));
        assert(time_dimension_norm_pairs(fs)[0] == ps[0]);
        assert(time_dimension_norm_pairs(fs)[1] == ps[1]);
        assert(time_dimension_norm_pairs(fs)[2] == ps[2]);
        assert(time_dimension_norm_pairs(fs)[3] == ps[3]);
        assert(time_dimension_norm_pairs(fs)[4] == ps[4]);
        assert(time_dimension_norm_pairs(fs) =~= ps);
        assert(ext_fields(fs, names_of(ps)) == ext);
        assert(ext_fields(fs, time_dimension_names()) == ext);
    }
}

/// The representation of a time dimension.
#[derive(Debug, PartialEq)]
pub struct TimeDimensionFormat {
    pub start_time: Option<String>,
    pub end_time: Option<String>,
    pub data_type: TimeDimensionDataType,
    pub sentinel_values: Option<Vec<SentinelValue>>,
    pub other: Extensions,
}

pub open spec fn time_dimension_format_names() -> Seq<Seq<char>> {
    seq!["startTime"@, "endTime"@, "dataType"@, "sentinelValues"@]
}

pub open spec fn time_dimension_format_pairs(x: TimeDimensionFormat) -> Seq<(Seq<char>, Option<JVal>)> {
    seq![
        ("startTime"@, jv_of_ostr(ostr_view(x.start_time))),
        ("endTime"@, jv_of_ostr(ostr_view(x.end_time))),
        ("dataType"@, Some(x.data_type.ser())),
        ("sentinelValues"@, ovec_ser(x.sentinel_values)),
    ]
}

pub open spec fn time_dimension_format_norm_pairs(fs: Seq<(Seq<char>, JVal)>) -> Seq<(Seq<char>, Option<JVal>)> {
    seq![
        ("startTime"@, jv_of_ostr(opt_str(jv_get(fs, "startTime"@)))),
        ("endTime"@, jv_of_ostr(opt_str(jv_get(fs, "endTime"@)))),
        ("dataType"@, req_rec_norm::<TimeDimensionDataType>(jv_get(fs, "dataType"@))),
        ("sentinelValues"@, opt_recarr_norm::<SentinelValue>(jv_get(fs, "sentinelValues"@))),
    ]
}

/// The names this record knows are pairwise distinct.
pub proof fn lemma_time_dimension_format_names_distinct()
    ensures
        forall|i: int, j: int|
            0 <= i < j < time_dimension_format_names().len() ==> time_dimension_format_names()[i] != time_dimension_format_names()[j],
{
    reveal_strlit("startTime");
    reveal_strlit("endTime");
    reveal_strlit("dataType");
    reveal_strlit("sentinelValues");
    let ns = time_dimension_format_names();
    assert(ns.len() == 4);
    assert forall|i: int, j: int| 0 <= i < j < ns.len() implies ns[i] != ns[j] by {
        assert("startTime"@.len() == 9);
        assert("endTime"@.len() == 7);
        assert("dataType"@.len() == 8);
        assert("sentinelValues"@.len() == 14);
    }
}

impl JsonForm for TimeDimensionFormat {
    open spec fn wf(&self) -> bool {
        &&& ext_ok(self.other.view_fields(), time_dimension_format_names())
        &&& self.data_type.wf()
        &&& ovec_wf(self.sentinel_values)
    }

    open spec fn ser(&self) -> JVal {
        JVal::Obj(present_fields(time_dimension_format_pairs(*self)) + self.other.view_fields())
    }

    open spec fn doc_ok(v: JVal) -> bool {
        &&& v is Obj
        &&& {
            let fs = v->Obj_0;
            &&& is_opt_str(jv_get(fs, "startTime"@))
            &&& is_opt_str(jv_get(fs, "endTime"@))
            &&& is_req_rec::<TimeDimensionDataType>(jv_get(fs, "dataType"@))
            &&& is_opt_recarr::<SentinelValue>(jv_get(fs, "sentinelValues"@))
        }
    }

    open spec fn doc_norm(v: JVal) -> JVal {
        JVal::Obj(
            present_fields(time_dimension_format_norm_pairs(v->Obj_0)) + ext_fields(v->Obj_0, time_dimension_format_names()),
        )
    }

    #[verifier::rlimit(50)]
    fn from_json(v: JsonValue) -> (r: Result<Self, ParseError>) {
        let o = match v {
            JsonValue::Obj(o) => o,
            _ => { return Err(ParseError::NotObject) },
        };
        let ghost fs = jview_field_vec(o);
        let mut bag = FieldBag::new(o);
        proof {
            lemma_time_dimension_format_names_distinct();
        }
        proof {
            assert(bag.taken() =~= time_dimension_format_names().subrange(0, 0));
            crate::codec::lemma_take_fresh(time_dimension_format_names(), 0, bag.taken());
        }
        let start_time = match get_opt_string(bag.take("startTime"), "startTime") {
            Ok(x) => x,
            Err(e) => { return Err(e) },
        };
        proof {
            assert(bag.taken() =~= time_dimension_format_names().subrange(0, 1));
            crate::codec::lemma_take_fresh(time_dimension_format_names(), 1, bag.taken());
        }
        let end_time = match get_opt_string(bag.take("endTime"), "endTime") {
            Ok(x) => x,
            Err(e) => { return Err(e) },
        };
        proof {
            assert(bag.taken() =~= time_dimension_format_names().subrange(0, 2));
            crate::codec::lemma_take_fresh(time_dimension_format_names(), 2, bag.taken());
        }
        let data_type = match parse_req::<TimeDimensionDataType>(bag.take("dataType"), "dataType") {
            Ok(x) => x,
            Err(e) => { return Err(e) },
        };
        proof {
            assert(bag.taken() =~= time_dimension_format_names().subrange(0, 3));
            crate::codec::lemma_take_fresh(time_dimension_format_names(), 3, bag.taken());
        }
        let sentinel_values = match parse_opt_vec::<SentinelValue>(bag.take("sentinelValues"), "sentinelValues") {
            Ok(x) => x,
            Err(e) => { return Err(e) },
        };
        let ghost tk = bag.taken();
        let other = bag.rest();
        let out = TimeDimensionFormat { start_time, end_time, data_type, sentinel_values, other };
        proof {
            assert(tk =~= time_dimension_format_names());
            crate::codec::lemma_ext_fields_names(fs, tk);
            assert(time_dimension_format_pairs(out) =~= time_dimension_format_norm_pairs(fs));
        }
        Ok(out)
    }

    fn to_json(&self) -> (r: JsonValue) {
        let mut b = ObjBuilder::new();
        put_opt_str(&mut b, "startTime", &self.start_time);
        put_opt_str(&mut b, "endTime", &self.end_time);
        put_rec(&mut b, "dataType", &self.data_type);
        put_opt_vec(&mut b, "sentinelValues", &self.sentinel_values);
        proof {
            let ps = time_dimension_format_pairs(*self);
            lemma_pairs_chain(ps, 4);
            assert(ps.subrange(0, 4) =~= ps);
            assert(b.view_fields() == present_fields(ps)) by {
                reveal_with_fuel(pairs_prefix_chunks, 5);
            }
        }
        finish_with_ext(b, &self.other)
    }

    #[verifier::rlimit(50)]
    #[verifier::spinoff_prover]
    proof fn lemma_canon(&self) {
        lemma_time_dimension_format_names_distinct();
        let ps = time_dimension_format_pairs(*self);
        let ext = self.other.view_fields();
        assert(names_of(ps) =~= time_dimension_format_names());
        assert(distinct_names(ps)) by {
            assert forall|i: int, j: int|
                0 <= i < j < ps.len() implies ps[i].0 != ps[j].0 by {
                assert(ps[i].0 == time_dimension_format_names()[i]);
                assert(ps[j].0 == time_dimension_format_names()[j]);
            }
        }
        assert(disjoint_from(ext, ps)) by {
            assert forall|i: int, j: int|
                0 <= i < ext.len() && 0 <= j < ps.len() implies ext[i].0 != ps[j].0 by {
                assert(!is_known_name(ext[i].0, time_dimension_format_names()));
                assert(time_dimension_format_names()[j] == ps[j].0);
            }
        }
        lemma_jv_get_present(ps, ext);
        lemma_ext_of_present(ps, ext);
        let fs = self.ser()->Obj_0;
        assert(jv_get(fs, "startTime"@) == ps[0].1);
        assert(jv_get(fs, "endTime"@) == ps[1].1);
        assert(jv_get(fs, "dataType"@) == ps[2].1);
        assert(jv_get(fs, "sentinelValues"@) == ps[3].1);
        self.data_type.lemma_canon();
        match &self.sentinel_values {
            Some(v) => {
                lemma_arr_canon::<SentinelValue>(v@);
            },
            None => {},
        }
        assert(Self::doc_ok(self.ser()));
        assert(time_dimension_format_norm_pairs(fs)[0] == ps[0]);
        assert(time_dimension_format_norm_pairs(fs)[1] == ps[1]);
        assert(time_dimension_format_norm_pairs(fs)[2] == ps[2]);
        assert(time_dimension_format_norm_pairs(fs)[3] == ps[3]);
        assert(time_dimension_format_norm_pairs(fs) =~= ps);
        assert(ext_fields(fs, names_of(ps)) == ext);
        assert(ext_fields(fs, time_dimension_format_names()) == ext);
    }
}

/// The order in which dimensions appear in data formats.
#[derive(Debug, PartialEq)]
pub struct DimensionList {
    pub id: Option<String>,
    pub annotations: Option<Vec<String>>,
    pub links: Option<Vec<Link>>,
    pub dimensions: Option<Vec<Dimension>>,
    pub time_dimensions: Option<TimeDimension>,
    pub other: Extensions,
}

pub open spec fn dimension_list_names() -> Seq<Seq<char>> {
    seq!["id"@, "annotations"@, "links"@, "dimensions"@, "timeDimensions"@]
}

pub open spec fn dimension_list_pairs(x: DimensionList) -> Seq<(Seq<char>, Option<JVal>)> {
    seq![
        ("id"@, jv_of_ostr(ostr_view(x.id))),
        ("annotations"@, ovec_ser(x.annotations)),
        ("links"@, ovec_ser(x.links)),
        ("dimensions"@, ovec_ser(x.dimensions)),
        ("timeDimensions"@, orec_ser(x.time_dimensions)),
    ]
}

pub open spec fn dimension_list_norm_pairs(fs: Seq<(Seq<char>, JVal)>) -> Seq<(Seq<char>, Option<JVal>)> {
    seq![
        ("id"@, jv_of_ostr(opt_str(jv_get(fs, "id"@)))),
        ("annotations"@, opt_recarr_norm::<String>(jv_get(fs, "annotations"@))),
        ("links"@, opt_recarr_norm::<Link>(jv_get(fs, "links"@))),
        ("dimensions"@, opt_recarr_norm::<Dimension>(jv_get(fs, "dimensions"@))),
        ("timeDimensions"@, opt_rec_norm::<TimeDimension>(jv_get(fs, "timeDimensions"@))),
    ]
}

/// The names this record knows are pairwise distinct.
pub proof fn lemma_dimension_list_names_distinct()
    ensures
        forall|i: int, j: int|
            0 <= i < j < dimension_list_names().len() ==> dimension_list_names()[i] != dimension_list_names()[j],
{
    reveal_strlit("id");
    reveal_strlit("annotations");
    reveal_strlit("links");
    reveal_strlit("dimensions");
    reveal_strlit("timeDimensions");
    let ns = dimension_list_names();
    assert(ns.len() == 5);
    assert forall|i: int, j: int| 0 <= i < j < ns.len() implies ns[i] != ns[j] by {
        assert("id"@.len() == 2);
        assert("annotations"@.len() == 11);
        assert("links"@.len() == 5);
        assert("dimensions"@.len() == 10);
        assert("timeDimensions"@.len() == 14);
    }
}

impl JsonForm for DimensionList {
    open spec fn wf(&self) -> bool {
        &&& ext_ok(self.other.view_fields(), dimension_list_names())
        &&& ovec_wf(self.annotations)
        &&& ovec_wf(self.links)
        &&& ovec_wf(self.dimensions)
        &&& orec_wf(self.time_dimensions)
    }

    open spec fn ser(&self) -> JVal {
        JVal::Obj(present_fields(dimension_list_pairs(*self)) + self.other.view_fields())
    }

    open spec fn doc_ok(v: JVal) -> bool {
        &&& v is Obj
        &&& {
            let fs = v->Obj_0;
            &&& is_opt_str(jv_get(fs, "id"@))
            &&& is_opt_recarr::<String>(jv_get(fs, "annotations"@))
            &&& is_opt_recarr::<Link>(jv_get(fs, "links"@))
            &&& is_opt_recarr::<Dimension>(jv_get(fs, "dimensions"@))
            &&& is_opt_rec::<TimeDimension>(jv_get(fs, "timeDimensions"@))
        }
    }

    open spec fn doc_norm(v: JVal) -> JVal {
        JVal::Obj(
            present_fields(dimension_list_norm_pairs(v->Obj_0)) + ext_fields(v->Obj_0, dimension_list_names()),
        )
    }

    #[verifier::rlimit(50)]
    fn from_json(v: JsonValue) -> (r: Result<Self, ParseError>) {
        let o = match v {
            JsonValue::Obj(o) => o,
            _ => { return Err(ParseError::NotObject) },
        };
        let ghost fs = jview_field_vec(o);
        let mut bag = FieldBag::new(o);
        proof {
            lemma_dimension_list_names_distinct();
        }
        proof {
            assert(bag.taken() =~= dimension_list_names().subrange(0, 0));
            crate::codec::lemma_take_fresh(dimension_list_names(), 0, bag.taken());
        }
        let id = match get_opt_string(bag.take("id"), "id") {
            Ok(x) => x,
            Err(e) => { return Err(e) },
        };
        proof {
            assert(bag.taken() =~= dimension_list_names().subrange(0, 1));
            crate::codec::lemma_take_fresh(dimension_list_names(), 1, bag.taken());
        }
        let annotations = match parse_opt_vec::<String>(bag.take("annotations"), "annotations") {
            Ok(x) => x,
            Err(e) => { return Err(e) },
        };
        proof {
            assert(bag.taken() =~= dimension_list_names().subrange(0, 2));
            crate::codec::lemma_take_fresh(dimension_list_names(), 2, bag.taken());
        }
        let links = match parse_opt_vec::<Link>(bag.take("links"), "links") {
            Ok(x) => x,
            Err(e) => { return Err(e) },
        };
        proof {
            assert(bag.taken() =~= dimension_list_names().subrange(0, 3));
            crate::codec::lemma_take_fresh(dimension_list_names(), 3, bag.taken());
        }
        let dimensions = match parse_opt_vec::<Dimension>(bag.take("dimensions"), "dimensions") {
            Ok(x) => x,
            Err(e) => { return Err(e) },
        };
        proof {
            assert(bag.taken() =~= dimension_list_names().subrange(0, 4));
            crate::codec::lemma_take_fresh(dimension_list_names(), 4, bag.taken());
        }
        let time_dimensions = match parse_opt::<TimeDimension>(bag.take("timeDimensions")) {
            Ok(x) => x,
            Err(e) => { return Err(e) },
        };
        let ghost tk = bag.taken();
        let other = bag.rest();
        let out = DimensionList { id, annotations, links, dimensions, time_dimensions, other };
        proof {
            assert(tk =~= dimension_list_names());
            crate::codec::lemma_ext_fields_names(fs, tk);
            assert(dimension_list_pairs(out) =~= dimension_list_norm_pairs(fs));
        }
        Ok(out)
    }

    fn to_json(&self) -> (r: JsonValue) {
        let mut b = ObjBuilder::new();
        put_opt_str(&mut b, "id", &self.id);
        put_opt_vec(&mut b, "annotations", &self.annotations);
        put_opt_vec(&mut b, "links", &self.links);
        put_opt_vec(&mut b, "dimensions", &self.dimensions);
        put_opt_rec(&mut b, "timeDimensions", &self.time_dimensions);
        proof {
            let ps = dimension_list_pairs(*self);
            lemma_pairs_chain(ps, 5);
            assert(ps.subrange(0, 5) =~= ps);
            assert(b.view_fields() == present_fields(ps)) by {
                reveal_with_fuel(pairs_prefix_chunks, 6);
            }
        }
        finish_with_ext(b, &self.other)
    }

    #[verifier::rlimit(50)]
    #[verifier::spinoff_prover]
    proof fn lemma_canon(&self) {
        lemma_dimension_list_names_distinct();
        let ps = dimension_list_pairs(*self);
        let ext = self.other.view_fields();
        assert(names_of(ps) =~= dimension_list_names());
        assert(distinct_names(ps)) by {
            assert forall|i: int, j: int|
                0 <= i < j < ps.len() implies ps[i].0 != ps[j].0 by {
                assert(ps[i].0 == dimension_list_names()[i]);
                assert(ps[j].0 == dimension_list_names()[j]);
            }
        }
        assert(disjoint_from(ext, ps)) by {
            assert forall|i: int, j: int|
                0 <= i < ext.len() && 0 <= j < ps.len() implies ext[i].0 != ps[j].0 by {
                assert(!is_known_name(ext[i].0, dimension_list_names()));
                assert(dimension_list_names()[j] == ps[j].0);
            }
        }
        lemma_jv_get_present(ps, ext);
        lemma_ext_of_present(ps, ext);
        let fs = self.ser()->Obj_0;
        assert(jv_get(fs, "id"@) == ps[0].1);
        assert(jv_get(fs, "annotations"@) == ps[1].1);
        assert(jv_get(fs, "links"@) == ps[2].1);
        assert(jv_get(fs, "dimensions"@) == ps[3].1);
        assert(jv_get(fs, "timeDimensions"@) == ps[4].1);
        match &self.annotations {
            Some(v) => {
                lemma_arr_canon::<String>(v@);
            },
            None => {},
        }
        match &self.links {
            Some(v) => {
                lemma_arr_canon::<Link>(v@);
            },
            None => {},
        }
        match &self.dimensions {
            Some(v) => {
                lemma_arr_canon::<Dimension>(v@);
            },
            None => {},
        }
        match self.time_dimensions {
            Some(t) => {
                t.lemma_canon();
            },
            None => {},
        }
        assert(Self::doc_ok(self.ser()));
        assert(dimension_list_norm_pairs(fs)[0] == ps[0]);
        assert(dimension_list_norm_pairs(fs)[1] == ps[1]);
        assert(dimension_list_norm_pairs(fs)[2] == ps[2]);
        assert(dimension_list_norm_pairs(fs)[3] == ps[3]);
        assert(dimension_list_norm_pairs(fs)[4] == ps[4]);
        assert(dimension_list_norm_pairs(fs) =~= ps);
        assert(ext_fields(fs, names_of(ps)) == ext);
        assert(ext_fields(fs, dimension_list_names()) == ext);
    }
}

/// Attribute values sharing a value over a common dimensionality.
#[derive(Debug, PartialEq)]
pub struct Group {
    pub id: String,
    pub annotations: Option<Vec<Annotation>>,
    pub links: Option<Vec<Link>>,
    pub group_dimensions: Option<Vec<String>>,
    pub other: Extensions,
}

pub open spec fn group_names() -> Seq<Seq<char>> {
    seq!["id"@, "annotations"@, "links"@, "groupDimensions"@]
}

pub open spec fn group_pairs(x: Group) -> Seq<(Seq<char>, Option<JVal>)> {
    seq![
        ("id"@, Some(JVal::Str(x.id@))),
        ("annotations"@, ovec_ser(x.annotations)),
        ("links"@, ovec_ser(x.links)),
        ("groupDimensions"@, ovec_ser(x.group_dimensions)),
    ]
}

pub open spec fn group_norm_pairs(fs: Seq<(Seq<char>, JVal)>) -> Seq<(Seq<char>, Option<JVal>)> {
    seq![
        ("id"@, jv_of_ostr(opt_str(jv_get(fs, "id"@)))),
        ("annotations"@, opt_recarr_norm::<Annotation>(jv_get(fs, "annotations"@))),
        ("links"@, opt_recarr_norm::<Link>(jv_get(fs, "links"@))),
        ("groupDimensions"@, opt_recarr_norm::<String>(jv_get(fs, "groupDimensions"@))),
    ]
}

/// The names this record knows are pairwise distinct.
pub proof fn lemma_group_names_distinct()
    ensures
        forall|i: int, j: int|
            0 <= i < j < group_names().len() ==> group_names()[i] != group_names()[j],
{
    reveal_strlit("id");
    reveal_strlit("annotations");
    reveal_strlit("links");
    reveal_strlit("groupDimensions");
    let ns = group_names();
    assert(ns.len() == 4);
    assert forall|i: int, j: int| 0 <= i < j < ns.len() implies ns[i] != ns[j] by {
        assert("id"@.len() == 2);
        assert("annotations"@.len() == 11);
        assert("links"@.len() == 5);
        assert("groupDimensions"@.len() == 15);
    }
}

impl JsonForm for Group {
    open spec fn wf(&self) -> bool {
        &&& ext_ok(self.other.view_fields(), group_names())
        &&& ovec_wf(self.annotations)
        &&& ovec_wf(self.links)
        &&& ovec_wf(self.group_dimensions)
    }

    open spec fn ser(&self) -> JVal {
        JVal::Obj(present_fields(group_pairs(*self)) + self.other.view_fields())
    }

    open spec fn doc_ok(v: JVal) -> bool {
        &&& v is Obj
        &&& {
            let fs = v->Obj_0;
            &&& is_req_str(jv_get(fs, "id"@))
            &&& is_opt_recarr::<Annotation>(jv_get(fs, "annotations"@))
            &&& is_opt_recarr::<Link>(jv_get(fs, "links"@))
            &&& is_opt_recarr::<String>(jv_get(fs, "groupDimensions"@))
        }
    }

    open spec fn doc_norm(v: JVal) -> JVal {
        JVal::Obj(
            present_fields(group_norm_pairs(v->Obj_0)) + ext_fields(v->Obj_0, group_names()),
        )
    }

    #[verifier::rlimit(50)]
    fn from_json(v: JsonValue) -> (r: Result<Self, ParseError>) {
        let o = match v {
            JsonValue::Obj(o) => o,
            _ => { return Err(ParseError::NotObject) },
        };
        let ghost fs = jview_field_vec(o);
        let mut bag = FieldBag::new(o);
        proof {
            lemma_group_names_distinct();
        }
        proof {
            assert(bag.taken() =~= group_names().subrange(0, 0));
            crate::codec::lemma_take_fresh(group_names(), 0, bag.taken());
        }
        let id = match get_req_string(bag.take("id"), "id") {
            Ok(x) => x,
            Err(e) => { return Err(e) },
        };
        proof {
            assert(bag.taken() =~= group_names().subrange(0, 1));
            crate::codec::lemma_take_fresh(group_names(), 1, bag.taken());
        }
        let annotations = match parse_opt_vec::<Annotation>(bag.take("annotations"), "annotations") {
            Ok(x) => x,
            Err(e) => { return Err(e) },
        };
        proof {
            assert(bag.taken() =~= group_names().subrange(0, 2));
            crate::codec::lemma_take_fresh(group_names(), 2, bag.taken());
        }
        let links = match parse_opt_vec::<Link>(bag.take("links"), "links") {
            Ok(x) => x,
            Err(e) => { return Err(e) },
        };
        proof {
            assert(bag.taken() =~= group_names().subrange(0, 3));
            crate::codec::lemma_take_fresh(group_names(), 3, bag.taken());
        }
        let group_dimensions = match parse_opt_vec::<String>(bag.take("groupDimensions"), "groupDimensions") {
            Ok(x) => x,
            Err(e) => { return Err(e) },
        };
        let ghost tk = bag.taken();
        let other = bag.rest();
        let out = Group { id, annotations, links, group_dimensions, other };
        proof {
            assert(tk =~= group_names());
            crate::codec::lemma_ext_fields_names(fs, tk);
            assert(group_pairs(out) =~= group_norm_pairs(fs));
        }
        Ok(out)
    }

    fn to_json(&self) -> (r: JsonValue) {
        let mut b = ObjBuilder::new();
        put_str(&mut b, "id", &self.id);
        put_opt_vec(&mut b, "annotations", &self.annotations);
        put_opt_vec(&mut b, "links", &self.links);
        put_opt_vec(&mut b, "groupDimensions", &self.group_dimensions);
        proof {
            let ps = group_pairs(*self);
            lemma_pairs_chain(ps, 4);
            assert(ps.subrange(0, 4) =~= ps);
            assert(b.view_fields() == present_fields(ps)) by {
                reveal_with_fuel(pairs_prefix_chunks, 5);
            }
        }
        finish_with_ext(b, &self.other)
    }

    #[verifier::rlimit(50)]
    #[verifier::spinoff_prover]
    proof fn lemma_canon(&self) {
        lemma_group_names_distinct();
        let ps = group_pairs(*self);
        let ext = self.other.view_fields();
        assert(names_of(ps) =~= group_names());
        assert(distinct_names(ps)) by {
            assert forall|i: int, j: int|
                0 <= i < j < ps.len() implies ps[i].0 != ps[j].0 by {
                assert(ps[i].0 == group_names()[i]);
                assert(ps[j].0 == group_names()[j]);
            }
        }
        assert(disjoint_from(ext, ps)) by {
            assert forall|i: int, j: int|
                0 <= i < ext.len() && 0 <= j < ps.len() implies ext[i].0 != ps[j].0 by {
                assert(!is_known_name(ext[i].0, group_names()));
                assert(group_names()[j] == ps[j].0);
            }
        }
        lemma_jv_get_present(ps, ext);
        lemma_ext_of_present(ps, ext);
        let fs = self.ser()->Obj_0;
        assert(jv_get(fs, "id"@) == ps[0].1);
        assert(jv_get(fs, "annotations"@) == ps[1].1);
        assert(jv_get(fs, "links"@) == ps[2].1);
        assert(jv_get(fs, "groupDimensions"@) == ps[3].1);
        match &self.annotations {
            Some(v) => {
                lemma_arr_canon::<Annotation>(v@);
            },
            None => {},
        }
        match &self.links {
            Some(v) => {
                lemma_arr_canon::<Link>(v@);
            },
            None => {},
        }
        match &self.group_dimensions {
            Some(v) => {
                lemma_arr_canon::<String>(v@);
            },
            None => {},
        }
        assert(Self::doc_ok(self.ser()));
        assert(group_norm_pairs(fs)[0] == ps[0]);
        assert(group_norm_pairs(fs)[1] == ps[1]);
        assert(group_norm_pairs(fs)[2] == ps[2]);
        assert(group_norm_pairs(fs)[3] == ps[3]);
        assert(group_norm_pairs(fs) =~= ps);
        assert(ext_fields(fs, names_of(ps)) == ext);
        assert(ext_fields(fs, group_names()) == ext);
    }
}

/// A concept quantifying the size, amount or degree of something.
#[derive(Debug, PartialEq)]
pub struct Measure {
    pub id: String,
    pub annotations: Option<Vec<Annotation>>,
    pub links: Option<Vec<Link>>,
    pub concept_identity: String,
    pub concept_roles: Option<Vec<String>>,
    pub local_representation: LocalRepresentation,
    pub usage: Usage,
    pub other: Extensions,
}

pub open spec fn measure_names() -> Seq<Seq<char>> {
    seq!["id"@, "annotations"@, "links"@, "conceptIdentity"@, "conceptRoles"@, "localRepresentation"@, "usage"@]
}

pub open spec fn measure_pairs(x: Measure) -> Seq<(Seq<char>, Option<JVal>)> {
    seq![
        ("id"@, Some(JVal::Str(x.id@))),
        ("annotations"@, ovec_ser(x.annotations)),
        ("links"@, ovec_ser(x.links)),
        ("conceptIdentity"@, Some(JVal::Str(x.concept_identity@))),
        ("conceptRoles"@, ovec_ser(x.concept_roles)),
        ("localRepresentation"@, Some(x.local_representation.ser())),
        ("usage"@, Some(x.usage.ser())),
    ]
}

pub open spec fn measure_norm_pairs(fs: Seq<(Seq<char>, JVal)>) -> Seq<(Seq<char>, Option<JVal>)> {
    seq![
        ("id"@, jv_of_ostr(opt_str(jv_get(fs, "id"@)))),
        ("annotations"@, opt_recarr_norm::<Annotation>(jv_get(fs, "annotations"@))),
        ("links"@, opt_recarr_norm::<Link>(jv_get(fs, "links"@))),
        ("conceptIdentity"@, jv_of_ostr(opt_str(jv_get(fs, "conceptIdentity"@)))),
        ("conceptRoles"@, opt_recarr_norm::<String>(jv_get(fs, "conceptRoles"@))),
        ("localRepresentation"@, req_rec_norm::<LocalRepresentation>(jv_get(fs, "localRepresentation"@))),
        ("usage"@, req_rec_norm::<Usage>(jv_get(fs, "usage"@))),
    ]
}

/// The names this record knows are pairwise distinct.
pub proof fn lemma_measure_names_distinct()
    ensures
        forall|i: int, j: int|
            0 <= i < j < measure_names().len() ==> measure_names()[i] != measure_names()[j],
{
    reveal_strlit("id");
    reveal_strlit("annotations");
    reveal_strlit("links");
    reveal_strlit("conceptIdentity");
    reveal_strlit("conceptRoles");
    reveal_strlit("localRepresentation");
    reveal_strlit("usage");
    let ns = measure_names();
    assert(ns.len() == 7);
    assert forall|i: int, j: int| 0 <= i < j < ns.len() implies ns[i] != ns[j] by {
        assert("id"@.len() == 2);
        assert("annotations"@.len() == 11);
        assert("links"@.len() == 5);
        assert("conceptIdentity"@.len() == 15);
        assert("conceptRoles"@.len() == 12);
        assert("localRepresentation"@.len() == 19);
        assert("usage"@.len() == 5);
        assert("links"@[0] == 'l');
        assert("usage"@[0] == 'u');
    }
}

impl JsonForm for Measure {
    open spec fn wf(&self) -> bool {
        &&& ext_ok(self.other.view_fields(), measure_names())
        &&& ovec_wf(self.annotations)
        &&& ovec_wf(self.links)
        &&& ovec_wf(self.concept_roles)
        &&& self.local_representation.wf()
        &&& self.usage.wf()
    }

    open spec fn ser(&self) -> JVal {
        JVal::Obj(present_fields(measure_pairs(*self)) + self.other.view_fields())
    }

    open spec fn doc_ok(v: JVal) -> bool {
        &&& v is Obj
        &&& {
            let fs = v->Obj_0;
            &&& is_req_str(jv_get(fs, "id"@))
            &&& is_opt_recarr::<Annotation>(jv_get(fs, "annotations"@))
            &&& is_opt_recarr::<Link>(jv_get(fs, "links"@))
            &&& is_req_str(jv_get(fs, "conceptIdentity"@))
            &&& is_opt_recarr::<String>(jv_get(fs, "conceptRoles"@))
            &&& is_req_rec::<LocalRepresentation>(jv_get(fs, "localRepresentation"@))
            &&& is_req_rec::<Usage>(jv_get(fs, "usage"@))
        }
    }

    open spec fn doc_norm(v: JVal) -> JVal {
        JVal::Obj(
            present_fields(measure_norm_pairs(v->Obj_0)) + ext_fields(v->Obj_0, measure_names()),
        )
    }

    #[verifier::rlimit(50)]
    fn from_json(v: JsonValue) -> (r: Result<Self, ParseError>) {
        let o = match v {
            JsonValue::Obj(o) => o,
            _ => { return Err(ParseError::NotObject) },
        };
        let ghost fs = jview_field_vec(o);
        let mut bag = FieldBag::new(o);
        proof {
            lemma_measure_names_distinct();
        }
        proof {
            assert(bag.taken() =~= measure_names().subrange(0, 0));
            crate::codec::lemma_take_fresh(measure_names(), 0, bag.taken());
        }
        let id = match get_req_string(bag.take("id"), "id") {
            Ok(x) => x,
            Err(e) => { return Err(e) },
        };
        proof {
            assert(bag.taken() =~= measure_names().subrange(0, 1));
            crate::codec::lemma_take_fresh(measure_names(), 1, bag.taken());
        }
        let annotations = match parse_opt_vec::<Annotation>(bag.take("annotations"), "annotations") {
            Ok(x) => x,
            Err(e) => { return Err(e) },
        };
        proof {
            assert(bag.taken() =~= measure_names().subrange(0, 2));
            crate::codec::lemma_take_fresh(measure_names(), 2, bag.taken());
        }
        let links = match parse_opt_vec::<Link>(bag.take("links"), "links") {
            Ok(x) => x,
            Err(e) => { return Err(e) },
        };
        proof {
            assert(bag.taken() =~= measure_names().subrange(0, 3));
            crate::codec::lemma_take_fresh(measure_names(), 3, bag.taken());
        }
        let concept_identity = match get_req_string(bag.take("conceptIdentity"), "conceptIdentity") {
            Ok(x) => x,
            Err(e) => { return Err(e) },
        };
        proof {
            assert(bag.taken() =~= measure_names().subrange(0, 4));
            crate::codec::lemma_take_fresh(measure_names(), 4, bag.taken());
        }
        let concept_roles = match parse_opt_vec::<String>(bag.take("conceptRoles"), "conceptRoles") {
            Ok(x) => x,
            Err(e) => { return Err(e) },
        };
        proof {
            assert(bag.taken() =~= measure_names().subrange(0, 5));
            crate::codec::lemma_take_fresh(measure_names(), 5, bag.taken());
        }
        let local_representation = match parse_req::<LocalRepresentation>(bag.take("localRepresentation"), "localRepresentation") {
            Ok(x) => x,
            Err(e) => { return Err(e) },
        };
        proof {
            assert(bag.taken() =~= measure_names().subrange(0, 6));
            crate::codec::lemma_take_fresh(measure_names(), 6, bag.taken());
        }
        let usage = match parse_req::<Usage>(bag.take("usage"), "usage") {
            Ok(x) => x,
            Err(e) => { return Err(e) },
        };
        let ghost tk = bag.taken();
        let other = bag.rest();
        let out = Measure { id, annotations, links, concept_identity, concept_roles, local_representation, usage, other };
        proof {
            assert(tk =~= measure_names());
            crate::codec::lemma_ext_fields_names(fs, tk);
            assert(measure_pairs(out) =~= measure_norm_pairs(fs));
        }
        Ok(out)
    }

    fn to_json(&self) -> (r: JsonValue) {
        let mut b = ObjBuilder::new();
        put_str(&mut b, "id", &self.id);
        put_opt_vec(&mut b, "annotations", &self.annotations);
        put_opt_vec(&mut b, "links", &self.links);
        put_str(&mut b, "conceptIdentity", &self.concept_identity);
        put_opt_vec(&mut b, "conceptRoles", &self.concept_roles);
        put_rec(&mut b, "localRepresentation", &self.local_representation);
        put_rec(&mut b, "usage", &self.usage);
        proof {
            let ps = measure_pairs(*self);
            lemma_pairs_chain(ps, 7);
            assert(ps.subrange(0, 7) =~= ps);
            assert(b.view_fields() == present_fields(ps)) by {
                reveal_with_fuel(pairs_prefix_chunks, 8);
            }
        }
        finish_with_ext(b, &self.other)
    }

    #[verifier::rlimit(50)]
    #[verifier::spinoff_prover]
    proof fn lemma_canon(&self) {
        lemma_measure_names_distinct();
        let ps = measure_pairs(*self);
        let ext = self.other.view_fields();
        assert(names_of(ps) =~= measure_names());
        assert(distinct_names(ps)) by {
            assert forall|i: int, j: int|
                0 <= i < j < ps.len() implies ps[i].0 != ps[j].0 by {
                assert(ps[i].0 == measure_names()[i]);
                assert(ps[j].0 == measure_names()[j]);
            }
        }
        assert(disjoint_from(ext, ps)) by {
            assert forall|i: int, j: int|
                0 <= i < ext.len() && 0 <= j < ps.len() implies ext[i].0 != ps[j].0 by {
                assert(!is_known_name(ext[i].0, measure_names()));
                assert(measure_names()[j] == ps[j].0);
            }
        }
        lemma_jv_get_present(ps, ext);
        lemma_ext_of_present(ps, ext);
        let fs = self.ser()->Obj_0;
        assert(jv_get(fs, "id"@) == ps[0].1);
        assert(jv_get(fs, "annotations"@) == ps[1].1);
        assert(jv_get(fs, "links"@) == ps[2].1);
        assert(jv_get(fs, "conceptIdentity"@) == ps[3].1);
        assert(jv_get(fs, "conceptRoles"@) == ps[4].1);
        assert(jv_get(fs, "localRepresentation"@) == ps[5].1);
        assert(jv_get(fs, "usage"@) == ps[6].1);
        match &self.annotations {
            Some(v) => {
                lemma_arr_canon::<Annotation>(v@);
            },
            None => {},
        }
        match &self.links {
            Some(v) => {
                lemma_arr_canon::<Link>(v@);
            },
            None => {},
        }
        match &self.concept_roles {
            Some(v) => {
                lemma_arr_canon::<String>(v@);
            },
            None => {},
        }
        self.local_representation.lemma_canon();
        self.usage.lemma_canon();
        assert(Self::doc_ok(self.ser()));
        assert(measure_norm_pairs(fs)[0] == ps[0]);
        assert(measure_norm_pairs(fs)[1] == ps[1]);
        assert(measure_norm_pairs(fs)[2] == ps[2]);
        assert(measure_norm_pairs(fs)[3] == ps[3]);
        assert(measure_norm_pairs(fs)[4] == ps[4]);
        assert(measure_norm_pairs(fs)[5] == ps[5]);
        assert(measure_norm_pairs(fs)[6] == ps[6]);
        assert(measure_norm_pairs(fs) =~= ps);
        assert(ext_fields(fs, names_of(ps)) == ext);
        assert(ext_fields(fs, measure_names()) == ext);
    }
}

/// The measure descriptor of a data structure definition.
#[derive(Debug, PartialEq)]
pub struct MeasureList {
    pub id: String,
    pub annotations: Option<Vec<Annotation>>,
    pub links: Option<Vec<Link>>,
    pub measures: Option<Vec<Measure>>,
    pub other: Extensions,
}

pub open spec fn measure_list_names() -> Seq<Seq<char>> {
    seq!["id"@, "annotations"@, "links"@, "measures"@]
}

pub open spec fn measure_list_pairs(x: MeasureList) -> Seq<(Seq<char>, Option<JVal>)> {
    seq![
        ("id"@, Some(JVal::Str(x.id@))),
        ("annotations"@, ovec_ser(x.annotations)),
        ("links"@, ovec_ser(x.links)),
        ("measures"@, ovec_ser(x.measures)),
    ]
}

pub open spec fn measure_list_norm_pairs(fs: Seq<(Seq<char>, JVal)>) -> Seq<(Seq<char>, Option<JVal>)> {
    seq![
        ("id"@, jv_of_ostr(opt_str(jv_get(fs, "id"@)))),
        ("annotations"@, opt_recarr_norm::<Annotation>(jv_get(fs, "annotations"@))),
        ("links"@, opt_recarr_norm::<Link>(jv_get(fs, "links"@))),
        ("measures"@, opt_recarr_norm::<Measure>(jv_get(fs, "measures"@))),
    ]
}

/// The names this record knows are pairwise distinct.
pub proof fn lemma_measure_list_names_distinct()
    ensures
        forall|i: int, j: int|
            0 <= i < j < measure_list_names().len() ==> measure_list_names()[i] != measure_list_names()[j],
{
    reveal_strlit("id");
    reveal_strlit("annotations");
    reveal_strlit("links");
    reveal_strlit("measures");
    let ns = measure_list_names();
    assert(ns.len() == 4);
    assert forall|i: int, j: int| 0 <= i < j < ns.len() implies ns[i] != ns[j] by {
        assert("id"@.len() == 2);
        assert("annotations"@.len() == 11);
        assert("links"@.len() == 5);
        assert("measures"@.len() == 8);
    }
}

impl JsonForm for MeasureList {
    open spec fn wf(&self) -> bool {
        &&& ext_ok(self.other.view_fields(), measure_list_names())
        &&& ovec_wf(self.annotations)
        &&& ovec_wf(self.links)
        &&& ovec_wf(self.measures)
    }

    open spec fn ser(&self) -> JVal {
        JVal::Obj(present_fields(measure_list_pairs(*self)) + self.other.view_fields())
    }

    open spec fn doc_ok(v: JVal) -> bool {
        &&& v is Obj
        &&& {
            let fs = v->Obj_0;
            &&& is_req_str(jv_get(fs, "id"@))
            &&& is_opt_recarr::<Annotation>(jv_get(fs, "annotations"@))
            &&& is_opt_recarr::<Link>(jv_get(fs, "links"@))
            &&& is_opt_recarr::<Measure>(jv_get(fs, "measures"@))
        }
    }

    open spec fn doc_norm(v: JVal) -> JVal {
        JVal::Obj(
            present_fields(measure_list_norm_pairs(v->Obj_0)) + ext_fields(v->Obj_0, measure_list_names()),
        )
    }

    #[verifier::rlimit(50)]
    fn from_json(v: JsonValue) -> (r: Result<Self, ParseError>) {
        let o = match v {
            JsonValue::Obj(o) => o,
            _ => { return Err(ParseError::NotObject) },
        };
        let ghost fs = jview_field_vec(o);
        let mut bag = FieldBag::new(o);
        proof {
            lemma_measure_list_names_distinct();
        }
        proof {
            assert(bag.taken() =~= measure_list_names().subrange(0, 0));
            crate::codec::lemma_take_fresh(measure_list_names(), 0, bag.taken());
        }
        let id = match get_req_string(bag.take("id"), "id") {
            Ok(x) => x,
            Err(e) => { return Err(e) },
        };
        proof {
            assert(bag.taken() =~= measure_list_names().subrange(0, 1));
            crate::codec::lemma_take_fresh(measure_list_names(), 1, bag.taken());
        }
        let annotations = match parse_opt_vec::<Annotation>(bag.take("annotations"), "annotations") {
            Ok(x) => x,
            Err(e) => { return Err(e) },
        };
        proof {
            assert(bag.taken() =~= measure_list_names().subrange(0, 2));
            crate::codec::lemma_take_fresh(measure_list_names(), 2, bag.taken());
        }
        let links = match parse_opt_vec::<Link>(bag.take("links"), "links") {
            Ok(x) => x,
            Err(e) => { return Err(e) },
        };
        proof {
            assert(bag.taken() =~= measure_list_names().subrange(0, 3));
            crate::codec::lemma_take_fresh(measure_list_names(), 3, bag.taken());
        }
        let measures = match parse_opt_vec::<Measure>(bag.take("measures"), "measures") {
            Ok(x) => x,
            Err(e) => { return Err(e) },
        };
        let ghost tk = bag.taken();
        let other = bag.rest();
        let out = MeasureList { id, annotations, links, measures, other };
        proof {
            assert(tk =~= measure_list_names());
            crate::codec::lemma_ext_fields_names(fs, tk);
            assert(measure_list_pairs(out) =~= measure_list_norm_pairs(fs));
        }
        Ok(out)
    }

    fn to_json(&self) -> (r: JsonValue) {
        let mut b = ObjBuilder::new();
        put_str(&mut b, "id", &self.id);
        put_opt_vec(&mut b, "annotations", &self.annotations);
        put_opt_vec(&mut b, "links", &self.links);
        put_opt_vec(&mut b, "measures", &self.measures);
        proof {
            let ps = measure_list_pairs(*self);
            lemma_pairs_chain(ps, 4);
            assert(ps.subrange(0, 4) =~= ps);
            assert(b.view_fields() == present_fields(ps)) by {
                reveal_with_fuel(pairs_prefix_chunks, 5);
            }
        }
        finish_with_ext(b, &self.other)
    }

    #[verifier::rlimit(50)]
    #[verifier::spinoff_prover]
    proof fn lemma_canon(&self) {
        lemma_measure_list_names_distinct();
        let ps = measure_list_pairs(*self);
        let ext = self.other.view_fields();
        assert(names_of(ps) =~= measure_list_names());
        assert(distinct_names(ps)) by {
            assert forall|i: int, j: int|
                0 <= i < j < ps.len() implies ps[i].0 != ps[j].0 by {
                assert(ps[i].0 == measure_list_names()[i]);
                assert(ps[j].0 == measure_list_names()[j]);
            }
        }
        assert(disjoint_from(ext, ps)) by {
            assert forall|i: int, j: int|
                0 <= i < ext.len() && 0 <= j < ps.len() implies ext[i].0 != ps[j].0 by {
                assert(!is_known_name(ext[i].0, measure_list_names()));
                assert(measure_list_names()[j] == ps[j].0);
            }
        }
        lemma_jv_get_present(ps, ext);
        lemma_ext_of_present(ps, ext);
        let fs = self.ser()->Obj_0;
        assert(jv_get(fs, "id"@) == ps[0].1);
        assert(jv_get(fs, "annotations"@) == ps[1].1);
        assert(jv_get(fs, "links"@) == ps[2].1);
        assert(jv_get(fs, "measures"@) == ps[3].1);
        match &self.annotations {
            Some(v) => {
                lemma_arr_canon::<Annotation>(v@);
            },
            None => {},
        }
        match &self.links {
            Some(v) => {
                lemma_arr_canon::<Link>(v@);
            },
            None => {},
        }
        match &self.measures {
            Some(v) => {
                lemma_arr_canon::<Measure>(v@);
            },
            None => {},
        }
        assert(Self::doc_ok(self.ser()));
        assert(measure_list_norm_pairs(fs)[0] == ps[0]);
        assert(measure_list_norm_pairs(fs)[1] == ps[1]);
        assert(measure_list_norm_pairs(fs)[2] == ps[2]);
        assert(measure_list_norm_pairs(fs)[3] == ps[3]);
        assert(measure_list_norm_pairs(fs) =~= ps);
        assert(ext_fields(fs, names_of(ps)) == ext);
        assert(ext_fields(fs, measure_list_names()) == ext);
    }
}

/// The grouped structural concepts of a data structure definition.
#[derive(Debug, PartialEq)]
pub struct DataStructureComponents {
    pub attribute_list: Option<AttributeList>,
    pub dimension_list: DimensionList,
    pub groups: Option<Vec<Group>>,
    pub measure_list: Option<MeasureList>,
    pub other: Extensions,
}

pub open spec fn data_structure_components_names() -> Seq<Seq<char>> {
    seq!["attributeList"@, "dimensionList"@, "groups"@, "measureList"@]
}

pub open spec fn data_structure_components_pairs(x: DataStructureComponents) -> Seq<(Seq<char>, Option<JVal>)> {
    seq![
        ("attributeList"@, orec_ser(x.attribute_list)),
        ("dimensionList"@, Some(x.dimension_list.ser())),
        ("groups"@, ovec_ser(x.groups)),
        ("measureList"@, orec_ser(x.measure_list)),
    ]
}

pub open spec fn data_structure_components_norm_pairs(fs: Seq<(Seq<char>, JVal)>) -> Seq<(Seq<char>, Option<JVal>)> {
    seq![
        ("attributeList"@, opt_rec_norm::<AttributeList>(jv_get(fs, "attributeList"@))),
        ("dimensionList"@, req_rec_norm::<DimensionList>(jv_get(fs, "dimensionList"@))),
        ("groups"@, opt_recarr_norm::<Group>(jv_get(fs, "groups"@))),
        ("measureList"@, opt_rec_norm::<MeasureList>(jv_get(fs, "measureList"@))),
    ]
}

/// The names this record knows are pairwise distinct.
pub proof fn lemma_data_structure_components_names_distinct()
    ensures
        forall|i: int, j: int|
            0 <= i < j < data_structure_components_names().len() ==> data_structure_components_names()[i] != data_structure_components_names()[j],
{
    reveal_strlit("attributeList");
    reveal_strlit("dimensionList");
    reveal_strlit("groups");
    reveal_strlit("measureList");
    let ns = data_structure_components_names();
    assert(ns.len() == 4);
    assert forall|i: int, j: int| 0 <= i < j < ns.len() implies ns[i] != ns[j] by {
        assert("attributeList"@.len() == 13);
        assert("dimensionList"@.len() == 13);
        assert("groups"@.len() == 6);
        assert("measureList"@.len() == 11);
        assert("attributeList"@[0] == 'a');
        assert("dimensionList"@[0] == 'd');
    }
}

impl JsonForm for DataStructureComponents {
    open spec fn wf(&self) -> bool {
        &&& ext_ok(self.other.view_fields(), data_structure_components_names())
        &&& orec_wf(self.attribute_list)
        &&& self.dimension_list.wf()
        &&& ovec_wf(self.groups)
        &&& orec_wf(self.measure_list)
    }

    open spec fn ser(&self) -> JVal {
        JVal::Obj(present_fields(data_structure_components_pairs(*self)) + self.other.view_fields())
    }

    open spec fn doc_ok(v: JVal) -> bool {
        &&& v is Obj
        &&& {
            let fs = v->Obj_0;
            &&& is_opt_rec::<AttributeList>(jv_get(fs, "attributeList"@))
            &&& is_req_rec::<DimensionList>(jv_get(fs, "dimensionList"@))
            &&& is_opt_recarr::<Group>(jv_get(fs, "groups"@))
            &&& is_opt_rec::<MeasureList>(jv_get(fs, "measureList"@))
        }
    }

    open spec fn doc_norm(v: JVal) -> JVal {
        JVal::Obj(
            present_fields(data_structure_components_norm_pairs(v->Obj_0)) + ext_fields(v->Obj_0, data_structure_components_names()),
        )
    }

    #[verifier::rlimit(50)]
    fn from_json(v: JsonValue) -> (r: Result<Self, ParseError>) {
        let o = match v {
            JsonValue::Obj(o) => o,
            _ => { return Err(ParseError::NotObject) },
        };
        let ghost fs = jview_field_vec(o);
        let mut bag = FieldBag::new(o);
        proof {
            lemma_data_structure_components_names_distinct();
        }
        proof {
            assert(bag.taken() =~= data_structure_components_names().subrange(0, 0));
            crate::codec::lemma_take_fresh(data_structure_components_names(), 0, bag.taken());
        }
        let attribute_list = match parse_opt::<AttributeList>(bag.take("attributeList")) {
            Ok(x) => x,
            Err(e) => { return Err(e) },
        };
        proof {
            assert(bag.taken() =~= data_structure_components_names().subrange(0, 1));
            crate::codec::lemma_take_fresh(data_structure_components_names(), 1, bag.taken());
        }
        let dimension_list = match parse_req::<DimensionList>(bag.take("dimensionList"), "dimensionList") {
            Ok(x) => x,
            Err(e) => { return Err(e) },
        };
        proof {
            assert(bag.taken() =~= data_structure_components_names().subrange(0, 2));
            crate::codec::lemma_take_fresh(data_structure_components_names(), 2, bag.taken());
        }
        let groups = match parse_opt_vec::<Group>(bag.take("groups"), "groups") {
            Ok(x) => x,
            Err(e) => { return Err(e) },
        };
        proof {
            assert(bag.taken() =~= data_structure_components_names().subrange(0, 3));
            crate::codec::lemma_take_fresh(data_structure_components_names(), 3, bag.taken());
        }
        let measure_list = match parse_opt::<MeasureList>(bag.take("measureList")) {
            Ok(x) => x,
            Err(e) => { return Err(e) },
        };
        let ghost tk = bag.taken();
        let other = bag.rest();
        let out = DataStructureComponents { attribute_list, dimension_list, groups, measure_list, other };
        proof {
            assert(tk =~= data_structure_components_names());
            crate::codec::lemma_ext_fields_names(fs, tk);
            assert(data_structure_components_pairs(out) =~= data_structure_components_norm_pairs(fs));
        }
        Ok(out)
    }

    fn to_json(&self) -> (r: JsonValue) {
        let mut b = ObjBuilder::new();
        put_opt_rec(&mut b, "attributeList", &self.attribute_list);
        put_rec(&mut b, "dimensionList", &self.dimension_list);
        put_opt_vec(&mut b, "groups", &self.groups);
        put_opt_rec(&mut b, "measureList", &self.measure_list);
        proof {
            let ps = data_structure_components_pairs(*self);
            lemma_pairs_chain(ps, 4);
            assert(ps.subrange(0, 4) =~= ps);
            assert(b.view_fields() == present_fields(ps)) by {
                reveal_with_fuel(pairs_prefix_chunks, 5);
            }
        }
        finish_with_ext(b, &self.other)
    }

    #[verifier::rlimit(50)]
    #[verifier::spinoff_prover]
    proof fn lemma_canon(&self) {
        lemma_data_structure_components_names_distinct();
        let ps = data_structure_components_pairs(*self);
        let ext = self.other.view_fields();
        assert(names_of(ps) =~= data_structure_components_names());
        assert(distinct_names(ps)) by {
            assert forall|i: int, j: int|
                0 <= i < j < ps.len() implies ps[i].0 != ps[j].0 by {
                assert(ps[i].0 == data_structure_components_names()[i]);
                assert(ps[j].0 == data_structure_components_names()[j]);
            }
        }
        assert(disjoint_from(ext, ps)) by {
            assert forall|i: int, j: int|
                0 <= i < ext.len() && 0 <= j < ps.len() implies ext[i].0 != ps[j].0 by {
                assert(!is_known_name(ext[i].0, data_structure_components_names()));
                assert(data_structure_components_names()[j] == ps[j].0);
            }
        }
        lemma_jv_get_present(ps, ext);
        lemma_ext_of_present(ps, ext);
        let fs = self.ser()->Obj_0;
        assert(jv_get(fs, "attributeList"@) == ps[0].1);
        assert(jv_get(fs, "dimensionList"@) == ps[1].1);
        assert(jv_get(fs, "groups"@) == ps[2].1);
        assert(jv_get(fs, "measureList"@) == ps[3].1);
        match self.attribute_list {
            Some(t) => {
                t.lemma_canon();
            },
            None => {},
        }
        self.dimension_list.lemma_canon();
        match &self.groups {
            Some(v) => {
                lemma_arr_canon::<Group>(v@);
            },
            None => {},
        }
        match self.measure_list {
            Some(t) => {
                t.lemma_canon();
            },
            None => {},
        }
        assert(Self::doc_ok(self.ser()));
        assert(data_structure_components_norm_pairs(fs)[0] == ps[0]);
        assert(data_structure_components_norm_pairs(fs)[1] == ps[1]);
        assert(data_structure_components_norm_pairs(fs)[2] == ps[2]);
        assert(data_structure_components_norm_pairs(fs)[3] == ps[3]);
        assert(data_structure_components_norm_pairs(fs) =~= ps);
        assert(ext_fields(fs, names_of(ps)) == ext);
        assert(ext_fields(fs, data_structure_components_names()) == ext);
    }
}

/// A data structure definition: metadata concepts, their structure and
/// usage when collecting or disseminating data.
#[derive(Debug, PartialEq)]
pub struct DataStructure {
    pub id: String,
    pub agency_id: Option<String>,
    pub version: Option<String>,
    pub name: Option<String>,
    pub names: Option<LocalizedText>,
    pub valid_from: Option<String>,
    pub valid_to: Option<String>,
    pub is_external_reference: Option<bool>,
    pub annotations: Option<Vec<Annotation>>,
    pub links: Option<Vec<Link>>,
    pub data_structure_components: Option<DataStructureComponents>,
    pub metadata: Option<String>,
    pub other: Extensions,
}

pub open spec fn data_structure_names() -> Seq<Seq<char>> {
    seq!["id"@, "agencyId"@, "version"@, "name"@, "names"@, "validFrom"@, "validTo"@, "isExternalReference"@, "annotations"@, "links"@, "dataStructureComponents"@, "metadata"@]
}

pub open spec fn data_structure_pairs(x: DataStructure) -> Seq<(Seq<char>, Option<JVal>)> {
    seq![
        ("id"@, Some(JVal::Str(x.id@))),
        ("agencyId"@, jv_of_ostr(ostr_view(x.agency_id))),
        ("version"@, jv_of_ostr(ostr_view(x.version))),
        ("name"@, jv_of_ostr(ostr_view(x.name))),
        ("names"@, orec_ser(x.names)),
        ("validFrom"@, jv_of_ostr(ostr_view(x.valid_from))),
        ("validTo"@, jv_of_ostr(ostr_view(x.valid_to))),
        ("isExternalReference"@, jv_of_obool(x.is_external_reference)),
        ("annotations"@, ovec_ser(x.annotations)),
        ("links"@, ovec_ser(x.links)),
        ("dataStructureComponents"@, orec_ser(x.data_structure_components)),
        ("metadata"@, jv_of_ostr(ostr_view(x.metadata))),
    ]
}

pub open spec fn data_structure_norm_pairs(fs: Seq<(Seq<char>, JVal)>) -> Seq<(Seq<char>, Option<JVal>)> {
    seq![
        ("id"@, jv_of_ostr(opt_str(jv_get(fs, "id"@)))),
        ("agencyId"@, jv_of_ostr(opt_str(jv_get(fs, "agencyId"@)))),
        ("version"@, jv_of_ostr(opt_str(jv_get(fs, "version"@)))),
        ("name"@, jv_of_ostr(opt_str(jv_get(fs, "name"@)))),
        ("names"@, opt_rec_norm::<LocalizedText>(jv_get(fs, "names"@))),
        ("validFrom"@, jv_of_ostr(opt_str(jv_get(fs, "validFrom"@)))),
        ("validTo"@, jv_of_ostr(opt_str(jv_get(fs, "validTo"@)))),
        ("isExternalReference"@, jv_of_obool(opt_bool(jv_get(fs, "isExternalReference"@)))),
        ("annotations"@, opt_recarr_norm::<Annotation>(jv_get(fs, "annotations"@))),
        ("links"@, opt_recarr_norm::<Link>(jv_get(fs, "links"@))),
        ("dataStructureComponents"@, opt_rec_norm::<DataStructureComponents>(jv_get(fs, "dataStructureComponents"@))),
        ("metadata"@, jv_of_ostr(opt_str(jv_get(fs, "metadata"@)))),
    ]
}

/// The names this record knows are pairwise distinct.
pub proof fn lemma_data_structure_names_distinct()
    ensures
        forall|i: int, j: int|
            0 <= i < j < data_structure_names().len() ==> data_structure_names()[i] != data_structure_names()[j],
{
    reveal_strlit("id");
    reveal_strlit("agencyId");
    reveal_strlit("version");
    reveal_strlit("name");
    reveal_strlit("names");
    reveal_strlit("validFrom");
    reveal_strlit("validTo");
    reveal_strlit("isExternalReference");
    reveal_strlit("annotations");
    reveal_strlit("links");
    reveal_strlit("dataStructureComponents");
    reveal_strlit("metadata");
    let ns = data_structure_names();
    assert(ns.len() == 12);
    assert forall|i: int, j: int| 0 <= i < j < ns.len() implies ns[i] != ns[j] by {
        assert("id"@.len() == 2);
        assert("agencyId"@.len() == 8);
        assert("version"@.len() == 7);
        assert("name"@.len() == 4);
        assert("names"@.len() == 5);
        assert("validFrom"@.len() == 9);
        assert("validTo"@.len() == 7);
        assert("isExternalReference"@.len() == 19);
        assert("annotations"@.len() == 11);
        assert("links"@.len() == 5);
        assert("dataStructureComponents"@.len() == 23);
        assert("metadata"@.len() == 8);
        assert("agencyId"@[0] == 'a');
        assert("metadata"@[0] == 'm');
        assert("version"@[1] == 'e');
        assert("validTo"@[1] == 'a');
        assert("names"@[0] == 'n');
        assert("links"@[0] == 'l');
    }
}

impl JsonForm for DataStructure {
    open spec fn wf(&self) -> bool {
        &&& ext_ok(self.other.view_fields(), data_structure_names())
        &&& crate::fields::window_le(ostr_view(self.valid_from), ostr_view(self.valid_to))
        &&& orec_wf(self.names)
        &&& ovec_wf(self.annotations)
        &&& ovec_wf(self.links)
        &&& orec_wf(self.data_structure_components)
    }

    open spec fn ser(&self) -> JVal {
        JVal::Obj(present_fields(data_structure_pairs(*self)) + self.other.view_fields())
    }

    open spec fn doc_ok(v: JVal) -> bool {
        &&& v is Obj
        &&& {
            let fs = v->Obj_0;
            &&& is_req_str(jv_get(fs, "id"@))
            &&& is_opt_str(jv_get(fs, "agencyId"@))
            &&& is_opt_str(jv_get(fs, "version"@))
            &&& is_opt_str(jv_get(fs, "name"@))
            &&& is_opt_rec::<LocalizedText>(jv_get(fs, "names"@))
            &&& is_opt_str(jv_get(fs, "validFrom"@))
            &&& is_opt_str(jv_get(fs, "validTo"@))
            &&& crate::fields::window_le(
                opt_str(jv_get(fs, "validFrom"@)),
                opt_str(jv_get(fs, "validTo"@)),
            )
            &&& is_opt_bool(jv_get(fs, "isExternalReference"@))
            &&& is_opt_recarr::<Annotation>(jv_get(fs, "annotations"@))
            &&& is_opt_recarr::<Link>(jv_get(fs, "links"@))
            &&& is_opt_rec::<DataStructureComponents>(jv_get(fs, "dataStructureComponents"@))
            &&& is_opt_str(jv_get(fs, "metadata"@))
        }
    }

    open spec fn doc_norm(v: JVal) -> JVal {
        JVal::Obj(
            present_fields(data_structure_norm_pairs(v->Obj_0)) + ext_fields(v->Obj_0, data_structure_names()),
        )
    }

    #[verifier::rlimit(50)]
    fn from_json(v: JsonValue) -> (r: Result<Self, ParseError>) {
        let o = match v {
            JsonValue::Obj(o) => o,
            _ => { return Err(ParseError::NotObject) },
        };
        let ghost fs = jview_field_vec(o);
        let mut bag = FieldBag::new(o);
        proof {
            lemma_data_structure_names_distinct();
        }
        proof {
            assert(bag.taken() =~= data_structure_names().subrange(0, 0));
            crate::codec::lemma_take_fresh(data_structure_names(), 0, bag.taken());
        }
        let id = match get_req_string(bag.take("id"), "id") {
            Ok(x) => x,
            Err(e) => { return Err(e) },
        };
        proof {
            assert(bag.taken() =~= data_structure_names().subrange(0, 1));
            crate::codec::lemma_take_fresh(data_structure_names(), 1, bag.taken());
        }
        let agency_id = match get_opt_string(bag.take("agencyId"), "agencyId") {
            Ok(x) => x,
            Err(e) => { return Err(e) },
        };
        proof {
            assert(bag.taken() =~= data_structure_names().subrange(0, 2));
            crate::codec::lemma_take_fresh(data_structure_names(), 2, bag.taken());
        }
        let version = match get_opt_string(bag.take("version"), "version") {
            Ok(x) => x,
            Err(e) => { return Err(e) },
        };
        proof {
            assert(bag.taken() =~= data_structure_names().subrange(0, 3));
            crate::codec::lemma_take_fresh(data_structure_names(), 3, bag.taken());
        }
        let name = match get_opt_string(bag.take("name"), "name") {
            Ok(x) => x,
            Err(e) => { return Err(e) },
        };
        proof {
            assert(bag.taken() =~= data_structure_names().subrange(0, 4));
            crate::codec::lemma_take_fresh(data_structure_names(), 4, bag.taken());
        }
        let names = match parse_opt::<LocalizedText>(bag.take("names")) {
            Ok(x) => x,
            Err(e) => { return Err(e) },
        };
        proof {
            assert(bag.taken() =~= data_structure_names().subrange(0, 5));
            crate::codec::lemma_take_fresh(data_structure_names(), 5, bag.taken());
        }
        let valid_from = match get_opt_string(bag.take("validFrom"), "validFrom") {
            Ok(x) => x,
            Err(e) => { return Err(e) },
        };
        proof {
            assert(bag.taken() =~= data_structure_names().subrange(0, 6));
            crate::codec::lemma_take_fresh(data_structure_names(), 6, bag.taken());
        }
        let valid_to = match get_opt_string(bag.take("validTo"), "validTo") {
            Ok(x) => x,
            Err(e) => { return Err(e) },
        };
        match (&valid_from, &valid_to) {
            (Some(f), Some(t)) => {
                if !crate::fields::str_le(f.as_str(), t.as_str()) {
                    return Err(
                        ParseError::Shape("validTo".to_owned(), crate::fields::ValueKind::Window),
                    );
                }
            },
            _ => (),
        }
        proof {
            assert(bag.taken() =~= data_structure_names().subrange(0, 7));
            crate::codec::lemma_take_fresh(data_structure_names(), 7, bag.taken());
        }
        let is_external_reference = match get_opt_bool(bag.take("isExternalReference"), "isExternalReference") {
            Ok(x) => x,
            Err(e) => { return Err(e) },
        };
        proof {
            assert(bag.taken() =~= data_structure_names().subrange(0, 8));
            crate::codec::lemma_take_fresh(data_structure_names(), 8, bag.taken());
        }
        let annotations = match parse_opt_vec::<Annotation>(bag.take("annotations"), "annotations") {
            Ok(x) => x,
            Err(e) => { return Err(e) },
        };
        proof {
            assert(bag.taken() =~= data_structure_names().subrange(0, 9));
            crate::codec::lemma_take_fresh(data_structure_names(), 9, bag.taken());
        }
        let links = match parse_opt_vec::<Link>(bag.take("links"), "links") {
            Ok(x) => x,
            Err(e) => { return Err(e) },
        };
        proof {
            assert(bag.taken() =~= data_structure_names().subrange(0, 10));
            crate::codec::lemma_take_fresh(data_structure_names(), 10, bag.taken());
        }
        let data_structure_components = match parse_opt::<DataStructureComponents>(bag.take("dataStructureComponents")) {
            Ok(x) => x,
            Err(e) => { return Err(e) },
        };
        proof {
            assert(bag.taken() =~= data_structure_names().subrange(0, 11));
            crate::codec::lemma_take_fresh(data_structure_names(), 11, bag.taken());
        }
        let metadata = match get_opt_string(bag.take("metadata"), "metadata") {
            Ok(x) => x,
            Err(e) => { return Err(e) },
        };
        let ghost tk = bag.taken();
        let other = bag.rest();
        let out = DataStructure { id, agency_id, version, name, names, valid_from, valid_to, is_external_reference, annotations, links, data_structure_components, metadata, other };
        proof {
            assert(tk =~= data_structure_names());
            crate::codec::lemma_ext_fields_names(fs, tk);
            assert(data_structure_pairs(out) =~= data_structure_norm_pairs(fs));
        }
        Ok(out)
    }

    fn to_json(&self) -> (r: JsonValue) {
        let mut b = ObjBuilder::new();
        put_str(&mut b, "id", &self.id);
        put_opt_str(&mut b, "agencyId", &self.agency_id);
        put_opt_str(&mut b, "version", &self.version);
        put_opt_str(&mut b, "name", &self.name);
        put_opt_rec(&mut b, "names", &self.names);
        put_opt_str(&mut b, "validFrom", &self.valid_from);
        put_opt_str(&mut b, "validTo", &self.valid_to);
        put_opt_bool(&mut b, "isExternalReference", &self.is_external_reference);
        put_opt_vec(&mut b, "annotations", &self.annotations);
        put_opt_vec(&mut b, "links", &self.links);
        put_opt_rec(&mut b, "dataStructureComponents", &self.data_structure_components);
        put_opt_str(&mut b, "metadata", &self.metadata);
        proof {
            let ps = data_structure_pairs(*self);
            lemma_pairs_chain(ps, 12);
            assert(ps.subrange(0, 12) =~= ps);
            assert(b.view_fields() == present_fields(ps)) by {
                reveal_with_fuel(pairs_prefix_chunks, 13);
            }
        }
        finish_with_ext(b, &self.other)
    }

    #[verifier::rlimit(50)]
    #[verifier::spinoff_prover]
    proof fn lemma_canon(&self) {
        lemma_data_structure_names_distinct();
        let ps = data_structure_pairs(*self);
        let ext = self.other.view_fields();
        assert(names_of(ps) =~= data_structure_names());
        assert(distinct_names(ps)) by {
            assert forall|i: int, j: int|
                0 <= i < j < ps.len() implies ps[i].0 != ps[j].0 by {
                assert(ps[i].0 == data_structure_names()[i]);
                assert(ps[j].0 == data_structure_names()[j]);
            }
        }
        assert(disjoint_from(ext, ps)) by {
            assert forall|i: int, j: int|
                0 <= i < ext.len() && 0 <= j < ps.len() implies ext[i].0 != ps[j].0 by {
                assert(!is_known_name(ext[i].0, data_structure_names()));
                assert(data_structure_names()[j] == ps[j].0);
            }
        }
        lemma_jv_get_present(ps, ext);
        lemma_ext_of_present(ps, ext);
        let fs = self.ser()->Obj_0;
        assert(jv_get(fs, "id"@) == ps[0].1);
        assert(jv_get(fs, "agencyId"@) == ps[1].1);
        assert(jv_get(fs, "version"@) == ps[2].1);
        assert(jv_get(fs, "name"@) == ps[3].1);
        assert(jv_get(fs, "names"@) == ps[4].1);
        assert(jv_get(fs, "validFrom"@) == ps[5].1);
        assert(jv_get(fs, "validTo"@) == ps[6].1);
        assert(jv_get(fs, "isExternalReference"@) == ps[7].1);
        assert(jv_get(fs, "annotations"@) == ps[8].1);
        assert(jv_get(fs, "links"@) == ps[9].1);
        assert(jv_get(fs, "dataStructureComponents"@) == ps[10].1);
        assert(jv_get(fs, "metadata"@) == ps[11].1);
        match self.names {
            Some(t) => {
                t.lemma_canon();
            },
            None => {},
        }
        match &self.annotations {
            Some(v) => {
                lemma_arr_canon::<Annotation>(v@);
            },
            None => {},
        }
        match &self.links {
            Some(v) => {
                lemma_arr_canon::<Link>(v@);
            },
            None => {},
        }
        match self.data_structure_components {
            Some(t) => {
                t.lemma_canon();
            },
            None => {},
        }
        assert(Self::doc_ok(self.ser()));
        assert(data_structure_norm_pairs(fs)[0] == ps[0]);
        assert(data_structure_norm_pairs(fs)[1] == ps[1]);
        assert(data_structure_norm_pairs(fs)[2] == ps[2]);
        assert(data_structure_norm_pairs(fs)[3] == ps[3]);
        assert(data_structure_norm_pairs(fs)[4] == ps[4]);
        assert(data_structure_norm_pairs(fs)[5] == ps[5]);
        assert(data_structure_norm_pairs(fs)[6] == ps[6]);
        assert(data_structure_norm_pairs(fs)[7] == ps[7]);
        assert(data_structure_norm_pairs(fs)[8] == ps[8]);
        assert(data_structure_norm_pairs(fs)[9] == ps[9]);
        assert(data_structure_norm_pairs(fs)[10] == ps[10]);
        assert(data_structure_norm_pairs(fs)[11] == ps[11]);
        assert(data_structure_norm_pairs(fs) =~= ps);
        assert(ext_fields(fs, names_of(ps)) == ext);
        assert(ext_fields(fs, data_structure_names()) == ext);
    }
}

} // verus!
