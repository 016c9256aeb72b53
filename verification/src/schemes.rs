//! The item-scheme abstraction: one identity and iteration contract shared
//! by every differently-named collection of items, together with the scheme
//! kinds themselves.

use vstd::prelude::*;

use crate::codec::{
    JsonForm, chunk, disjoint_from, distinct_names, ext_ok, finish_with_ext, is_opt_rec,
    is_opt_recarr, lemma_arr_canon, lemma_ext_of_present, lemma_jv_get_present, names_of,
    opt_rec_norm, opt_recarr_norm, orec_ser, orec_wf, ovec_ser, ovec_wf, parse_opt,
    parse_opt_vec, present_fields, put_opt_bool, put_opt_rec, put_opt_str, put_opt_vec, put_str,
    seq_wf,
};
use crate::fields::{
    Extensions, FieldBag, ObjBuilder, ParseError, get_opt_bool, get_opt_string, get_req_string,
};
use crate::json::{
    JVal, JsonValue, ext_fields, is_known_name, is_opt_bool, is_opt_str, is_req_str, jv_get,
    jv_of_obool, jv_of_ostr, jview, jview_field_vec, opt_bool, opt_str, ostr_view,
};
use crate::primitives::{Annotation, Link, LocalizedText};
use crate::primitives::{lemma_pairs_chain, pairs_prefix_chunks};
use crate::structure::{CoreRepresentation, IsoConceptReference, Item};

verus! {

/// The shared identity of every named artefact.
pub trait Artefact {
    spec fn id_spec(&self) -> Seq<char>;

    spec fn agency_id_spec(&self) -> Option<Seq<char>>;

    spec fn version_spec(&self) -> Option<Seq<char>>;

    spec fn name_spec(&self) -> Option<Seq<char>>;

    spec fn names_spec(&self) -> Option<LocalizedText>;

    spec fn valid_from_spec(&self) -> Option<Seq<char>>;

    spec fn valid_to_spec(&self) -> Option<Seq<char>>;

    spec fn is_external_reference_spec(&self) -> Option<bool>;

    spec fn annotations_spec(&self) -> Option<Seq<Annotation>>;

    spec fn links_spec(&self) -> Option<Seq<Link>>;

    fn id(&self) -> (r: &String)
        ensures
            r@ == self.id_spec(),
    ;

    fn agency_id(&self) -> (r: Option<&String>)
        ensures
            (match r {
                Some(s) => self.agency_id_spec() == Some(s@),
                None => self.agency_id_spec() is None,
            }),
    ;

    fn version(&self) -> (r: Option<&String>)
        ensures
            (match r {
                Some(s) => self.version_spec() == Some(s@),
                None => self.version_spec() is None,
            }),
    ;

    fn name(&self) -> (r: Option<&String>)
        ensures
            (match r {
                Some(s) => self.name_spec() == Some(s@),
                None => self.name_spec() is None,
            }),
    ;

    fn names(&self) -> (r: Option<&LocalizedText>)
        ensures
            (match r {
                Some(t) => self.names_spec() == Some(*t),
                None => self.names_spec() is None,
            }),
    ;

    fn valid_from(&self) -> (r: Option<&String>)
        ensures
            (match r {
                Some(s) => self.valid_from_spec() == Some(s@),
                None => self.valid_from_spec() is None,
            }),
    ;

    fn valid_to(&self) -> (r: Option<&String>)
        ensures
            (match r {
                Some(s) => self.valid_to_spec() == Some(s@),
                None => self.valid_to_spec() is None,
            }),
    ;

    fn is_external_reference(&self) -> (r: Option<bool>)
        ensures
            r == self.is_external_reference_spec(),
    ;

    fn annotations(&self) -> (r: Option<&Vec<Annotation>>)
        ensures
            (match r {
                Some(v) => self.annotations_spec() == Some(v@),
                None => self.annotations_spec() is None,
            }),
    ;

    fn links(&self) -> (r: Option<&Vec<Link>>)
        ensures
            (match r {
                Some(v) => self.links_spec() == Some(v@),
                None => self.links_spec() is None,
            }),
    ;
}

/// A scheme that is fully or partially enumerated and contains items.  Every
/// concrete scheme kind answers through the same contract, whatever named
/// field backs its collection.
pub trait ItemScheme {
    spec fn is_partial_spec(&self) -> Option<bool>;

    spec fn items_spec(&self) -> Option<Seq<Item>>;

    fn is_partial(&self) -> (r: Option<bool>)
        ensures
            r == self.is_partial_spec(),
    ;

    fn items(&self) -> (r: Option<&Vec<Item>>)
        ensures
            (match r {
                Some(v) => self.items_spec() == Some(v@),
                None => self.items_spec() is None,
            }),
    ;

    fn set_items(&mut self, items: Option<Vec<Item>>)
        ensures
            final (self).items_spec() == (match items {
                Some(v) => Some(v@),
                None => None::<Seq<Item>>,
            }),
            final (self).is_partial_spec() == old(self).is_partial_spec(),
    ;

    fn clear_items(&mut self)
        ensures
            final (self).items_spec() is None,
            final (self).is_partial_spec() == old(self).is_partial_spec(),
    ;

    fn contains_items(&self) -> (r: bool)
        ensures
            r == (self.items_spec() matches Some(s) && s.len() > 0),
    ;
}


/// The item scheme for a category.
#[derive(Debug, PartialEq)]
pub struct CategoryScheme {
    pub id: String,
    pub agency_id: Option<String>,
    pub version: Option<String>,
    pub name: Option<String>,
    pub names: Option<LocalizedText>,
    pub valid_from: Option<String>,
    pub valid_to: Option<String>,
    pub is_external_reference: Option<bool>,
    pub annotations: Option<Vec<Annotation>>,
    pub links: Option<Vec<Link>>,
    pub is_partial: Option<bool>,
    pub categories: Option<Vec<Item>>,
    pub other: Extensions,
}

pub open spec fn category_scheme_names() -> Seq<Seq<char>> {
    seq!["id"@, "agencyId"@, "version"@, "name"@, "names"@, "validFrom"@, "validTo"@, "isExternalReference"@, "annotations"@, "links"@, "isPartial"@, "categories"@]
}

pub open spec fn category_scheme_pairs(x: CategoryScheme) -> Seq<(Seq<char>, Option<JVal>)> {
    seq![
        ("id"@, Some(JVal::Str(x.id@))),
        ("agencyId"@, jv_of_ostr(ostr_view(x.agency_id))),
        ("version"@, jv_of_ostr(ostr_view(x.version))),
        ("name"@, jv_of_ostr(ostr_view(x.name))),
        ("names"@, orec_ser(x.names)),
        ("validFrom"@, jv_of_ostr(ostr_view(x.valid_from))),
        ("validTo"@, jv_of_ostr(ostr_view(x.valid_to))),
        ("isExternalReference"@, jv_of_obool(x.is_external_reference)),
        ("annotations"@, ovec_ser(x.annotations)),
        ("links"@, ovec_ser(x.links)),
        ("isPartial"@, jv_of_obool(x.is_partial)),
        ("categories"@, ovec_ser(x.categories)),
    ]
}

pub open spec fn category_scheme_norm_pairs(fs: Seq<(Seq<char>, JVal)>) -> Seq<(Seq<char>, Option<JVal>)> {
    seq![
        ("id"@, jv_of_ostr(opt_str(jv_get(fs, "id"@)))),
        ("agencyId"@, jv_of_ostr(opt_str(jv_get(fs, "agencyId"@)))),
        ("version"@, jv_of_ostr(opt_str(jv_get(fs, "version"@)))),
        ("name"@, jv_of_ostr(opt_str(jv_get(fs, "name"@)))),
        ("names"@, opt_rec_norm::<LocalizedText>(jv_get(fs, "names"@))),
        ("validFrom"@, jv_of_ostr(opt_str(jv_get(fs, "validFrom"@)))),
        ("validTo"@, jv_of_ostr(opt_str(jv_get(fs, "validTo"@)))),
        ("isExternalReference"@, jv_of_obool(opt_bool(jv_get(fs, "isExternalReference"@)))),
        ("annotations"@, opt_recarr_norm::<Annotation>(jv_get(fs, "annotations"@))),
        ("links"@, opt_recarr_norm::<Link>(jv_get(fs, "links"@))),
        ("isPartial"@, jv_of_obool(opt_bool(jv_get(fs, "isPartial"@)))),
        ("categories"@, opt_recarr_norm::<Item>(jv_get(fs, "categories"@))),
    ]
}

/// The names this record knows are pairwise distinct.
pub proof fn lemma_category_scheme_names_distinct()
    ensures
        forall|i: int, j: int|
            0 <= i < j < category_scheme_names().len() ==> category_scheme_names()[i] != category_scheme_names()[j],
{
    reveal_strlit("id");
    reveal_strlit("agencyId");
    reveal_strlit("version");
    reveal_strlit("name");
    reveal_strlit("names");
    reveal_strlit("validFrom");
    reveal_strlit("validTo");
    reveal_strlit("isExternalReference");
    reveal_strlit("annotations");
    reveal_strlit("links");
    reveal_strlit("isPartial");
    reveal_strlit("categories");
    let ns = category_scheme_names();
    assert(ns.len() == 12);
    assert forall|i: int, j: int| 0 <= i < j < ns.len() implies ns[i] != ns[j] by {
        assert("id"@.len() == 2);
        assert("agencyId"@.len() == 8);
        assert("version"@.len() == 7);
        assert("name"@.len() == 4);
        assert("names"@.len() == 5);
        assert("validFrom"@.len() == 9);
        assert("validTo"@.len() == 7);
        assert("isExternalReference"@.len() == 19);
        assert("annotations"@.len() == 11);
        assert("links"@.len() == 5);
        assert("isPartial"@.len() == 9);
        assert("categories"@.len() == 10);
        assert("version"@[1] == 'e');
        assert("validTo"@[1] == 'a');
        assert("names"@[0] == 'n');
        assert("links"@[0] == 'l');
        assert("validFrom"@[0] == 'v');
        assert("isPartial"@[0] == 'i');
    }
}

impl JsonForm for CategoryScheme {
    open spec fn wf(&self) -> bool {
        &&& ext_ok(self.other.view_fields(), category_scheme_names())
        &&& crate::fields::window_le(ostr_view(self.valid_from), ostr_view(self.valid_to))
        &&& orec_wf(self.names)
        &&& ovec_wf(self.annotations)
        &&& ovec_wf(self.links)
        &&& ovec_wf(self.categories)
    }

    open spec fn ser(&self) -> JVal {
        JVal::Obj(present_fields(category_scheme_pairs(*self)) + self.other.view_fields())
    }

    open spec fn doc_ok(v: JVal) -> bool {
        &&& v is Obj
        &&& {
            let fs = v->Obj_0;
            &&& is_req_str(jv_get(fs, "id"@))
            &&& is_opt_str(jv_get(fs, "agencyId"@))
            &&& is_opt_str(jv_get(fs, "version"@))
            &&& is_opt_str(jv_get(fs, "name"@))
            &&& is_opt_rec::<LocalizedText>(jv_get(fs, "names"@))
            &&& is_opt_str(jv_get(fs, "validFrom"@))
            &&& is_opt_str(jv_get(fs, "validTo"@))
            &&& crate::fields::window_le(
                opt_str(jv_get(fs, "validFrom"@)),
                opt_str(jv_get(fs, "validTo"@)),
            )
            &&& is_opt_bool(jv_get(fs, "isExternalReference"@))
            &&& is_opt_recarr::<Annotation>(jv_get(fs, "annotations"@))
            &&& is_opt_recarr::<Link>(jv_get(fs, "links"@))
            &&& is_opt_bool(jv_get(fs, "isPartial"@))
            &&& is_opt_recarr::<Item>(jv_get(fs, "categories"@))
        }
    }

    open spec fn doc_norm(v: JVal) -> JVal {
        JVal::Obj(
            present_fields(category_scheme_norm_pairs(v->Obj_0)) + ext_fields(v->Obj_0, category_scheme_names()),
        )
    }

    #[verifier::rlimit(50)]
    fn from_json(v: JsonValue) -> (r: Result<Self, ParseError>) {
        let o = match v {
            JsonValue::Obj(o) => o,
            _ => { return Err(ParseError::NotObject) },
        };
        let ghost fs = jview_field_vec(o);
        let mut bag = FieldBag::new(o);
        proof {
            lemma_category_scheme_names_distinct();
        }
        proof {
            assert(bag.taken() =~= category_scheme_names().subrange(0, 0));
            crate::codec::lemma_take_fresh(category_scheme_names(), 0, bag.taken());
        }
        let id = match get_req_string(bag.take("id"), "id") {
            Ok(x) => x,
            Err(e) => { return Err(e) },
        };
        proof {
            assert(bag.taken() =~= category_scheme_names().subrange(0, 1));
            crate::codec::lemma_take_fresh(category_scheme_names(), 1, bag.taken());
        }
        let agency_id = match get_opt_string(bag.take("agencyId"), "agencyId") {
            Ok(x) => x,
            Err(e) => { return Err(e) },
        };
        proof {
            assert(bag.taken() =~= category_scheme_names().subrange(0, 2));
            crate::codec::lemma_take_fresh(category_scheme_names(), 2, bag.taken());
        }
        let version = match get_opt_string(bag.take("version"), "version") {
            Ok(x) => x,
            Err(e) => { return Err(e) },
        };
        proof {
            assert(bag.taken() =~= category_scheme_names().subrange(0, 3));
            crate::codec::lemma_take_fresh(category_scheme_names(), 3, bag.taken());
        }
        let name = match get_opt_string(bag.take("name"), "name") {
            Ok(x) => x,
            Err(e) => { return Err(e) },
        };
        proof {
            assert(bag.taken() =~= category_scheme_names().subrange(0, 4));
            crate::codec::lemma_take_fresh(category_scheme_names(), 4, bag.taken());
        }
        let names = match parse_opt::<LocalizedText>(bag.take("names")) {
            Ok(x) => x,
            Err(e) => { return Err(e) },
        };
        proof {
            assert(bag.taken() =~= category_scheme_names().subrange(0, 5));
            crate::codec::lemma_take_fresh(category_scheme_names(), 5, bag.taken());
        }
        let valid_from = match get_opt_string(bag.take("validFrom"), "validFrom") {
            Ok(x) => x,
            Err(e) => { return Err(e) },
        };
        proof {
            assert(bag.taken() =~= category_scheme_names().subrange(0, 6));
            crate::codec::lemma_take_fresh(category_scheme_names(), 6, bag.taken());
        }
        let valid_to = match get_opt_string(bag.take("validTo"), "validTo") {
            Ok(x) => x,
            Err(e) => { return Err(e) },
        };
        match (&valid_from, &valid_to) {
            (Some(f), Some(t)) => {
                if !crate::fields::str_le(f.as_str(), t.as_str()) {
                    return Err(
                        ParseError::Shape("validTo".to_owned(), crate::fields::ValueKind::Window),
                    );
                }
            },
            _ => (),
        }
        proof {
            assert(bag.taken() =~= category_scheme_names().subrange(0, 7));
            crate::codec::lemma_take_fresh(category_scheme_names(), 7, bag.taken());
        }
        let is_external_reference = match get_opt_bool(bag.take("isExternalReference"), "isExternalReference") {
            Ok(x) => x,
            Err(e) => { return Err(e) },
        };
        proof {
            assert(bag.taken() =~= category_scheme_names().subrange(0, 8));
            crate::codec::lemma_take_fresh(category_scheme_names(), 8, bag.taken());
        }
        let annotations = match parse_opt_vec::<Annotation>(bag.take("annotations"), "annotations") {
            Ok(x) => x,
            Err(e) => { return Err(e) },
        };
        proof {
            assert(bag.taken() =~= category_scheme_names().subrange(0, 9));
            crate::codec::lemma_take_fresh(category_scheme_names(), 9, bag.taken());
        }
        let links = match parse_opt_vec::<Link>(bag.take("links"), "links") {
            Ok(x) => x,
            Err(e) => { return Err(e) },
        };
        proof {
            assert(bag.taken() =~= category_scheme_names().subrange(0, 10));
            crate::codec::lemma_take_fresh(category_scheme_names(), 10, bag.taken());
        }
        let is_partial = match get_opt_bool(bag.take("isPartial"), "isPartial") {
            Ok(x) => x,
            Err(e) => { return Err(e) },
        };
        proof {
            assert(bag.taken() =~= category_scheme_names().subrange(0, 11));
            crate::codec::lemma_take_fresh(category_scheme_names(), 11, bag.taken());
        }
        let categories = match parse_opt_vec::<Item>(bag.take("categories"), "categories") {
            Ok(x) => x,
            Err(e) => { return Err(e) },
        };
        let ghost tk = bag.taken();
        let other = bag.rest();
        let out = CategoryScheme { id, agency_id, version, name, names, valid_from, valid_to, is_external_reference, annotations, links, is_partial, categories, other };
        proof {
            assert(tk =~= category_scheme_names());
            crate::codec::lemma_ext_fields_names(fs, tk);
            assert(category_scheme_pairs(out) =~= category_scheme_norm_pairs(fs));
        }
        Ok(out)
    }

    fn to_json(&self) -> (r: JsonValue) {
        let mut b = ObjBuilder::new();
        put_str(&mut b, "id", &self.id);
        put_opt_str(&mut b, "agencyId", &self.agency_id);
        put_opt_str(&mut b, "version", &self.version);
        put_opt_str(&mut b, "name", &self.name);
        put_opt_rec(&mut b, "names", &self.names);
        put_opt_str(&mut b, "validFrom", &self.valid_from);
        put_opt_str(&mut b, "validTo", &self.valid_to);
        put_opt_bool(&mut b, "isExternalReference", &self.is_external_reference);
        put_opt_vec(&mut b, "annotations", &self.annotations);
        put_opt_vec(&mut b, "links", &self.links);
        put_opt_bool(&mut b, "isPartial", &self.is_partial);
        put_opt_vec(&mut b, "categories", &self.categories);
        proof {
            let ps = category_scheme_pairs(*self);
            lemma_pairs_chain(ps, 12);
            assert(ps.subrange(0, 12) =~= ps);
            assert(b.view_fields() == present_fields(ps)) by {
                reveal_with_fuel(pairs_prefix_chunks, 13);
            }
        }
        finish_with_ext(b, &self.other)
    }

    #[verifier::rlimit(50)]
    #[verifier::spinoff_prover]
    proof fn lemma_canon(&self) {
        lemma_category_scheme_names_distinct();
        let ps = category_scheme_pairs(*self);
        let ext = self.other.view_fields();
        assert(names_of(ps) =~= category_scheme_names());
        assert(distinct_names(ps)) by {
            assert forall|i: int, j: int|
                0 <= i < j < ps.len() implies ps[i].0 != ps[j].0 by {
                assert(ps[i].0 == category_scheme_names()[i]);
                assert(ps[j].0 == category_scheme_names()[j]);
            }
        }
        assert(disjoint_from(ext, ps)) by {
            assert forall|i: int, j: int|
                0 <= i < ext.len() && 0 <= j < ps.len() implies ext[i].0 != ps[j].0 by {
                assert(!is_known_name(ext[i].0, category_scheme_names()));
                assert(category_scheme_names()[j] == ps[j].0);
            }
        }
        lemma_jv_get_present(ps, ext);
        lemma_ext_of_present(ps, ext);
        let fs = self.ser()->Obj_0;
        assert(jv_get(fs, "id"@) == ps[0].1);
        assert(jv_get(fs, "agencyId"@) == ps[1].1);
        assert(jv_get(fs, "version"@) == ps[2].1);
        assert(jv_get(fs, "name"@) == ps[3].1);
        assert(jv_get(fs, "names"@) == ps[4].1);
        assert(jv_get(fs, "validFrom"@) == ps[5].1);
        assert(jv_get(fs, "validTo"@) == ps[6].1);
        assert(jv_get(fs, "isExternalReference"@) == ps[7].1);
        assert(jv_get(fs, "annotations"@) == ps[8].1);
        assert(jv_get(fs, "links"@) == ps[9].1);
        assert(jv_get(fs, "isPartial"@) == ps[10].1);
        assert(jv_get(fs, "categories"@) == ps[11].1);
        match self.names {
            Some(t) => {
                t.lemma_canon();
            },
            None => {},
        }
        match &self.annotations {
            Some(v) => {
                lemma_arr_canon::<Annotation>(v@);
            },
            None => {},
        }
        match &self.links {
            Some(v) => {
                lemma_arr_canon::<Link>(v@);
            },
            None => {},
        }
        match &self.categories {
            Some(v) => {
                lemma_arr_canon::<Item>(v@);
            },
            None => {},
        }
        assert(Self::doc_ok(self.ser()));
        assert(category_scheme_norm_pairs(fs) =~= ps);
        assert(ext_fields(fs, names_of(ps)) == ext);
        assert(ext_fields(fs, category_scheme_names()) == ext);
    }
}

impl Artefact for CategoryScheme {
    open spec fn id_spec(&self) -> Seq<char> {
        self.id@
    }

    open spec fn agency_id_spec(&self) -> Option<Seq<char>> {
        ostr_view(self.agency_id)
    }

    open spec fn version_spec(&self) -> Option<Seq<char>> {
        ostr_view(self.version)
    }

    open spec fn name_spec(&self) -> Option<Seq<char>> {
        ostr_view(self.name)
    }

    open spec fn names_spec(&self) -> Option<LocalizedText> {
        self.names
    }

    open spec fn valid_from_spec(&self) -> Option<Seq<char>> {
        ostr_view(self.valid_from)
    }

    open spec fn valid_to_spec(&self) -> Option<Seq<char>> {
        ostr_view(self.valid_to)
    }

    open spec fn is_external_reference_spec(&self) -> Option<bool> {
        self.is_external_reference
    }

    open spec fn annotations_spec(&self) -> Option<Seq<Annotation>> {
        match self.annotations {
            Some(v) => Some(v@),
            None => None,
        }
    }

    open spec fn links_spec(&self) -> Option<Seq<Link>> {
        match self.links {
            Some(v) => Some(v@),
            None => None,
        }
    }

    fn id(&self) -> (r: &String) {
        &self.id
    }

    fn agency_id(&self) -> (r: Option<&String>) {
        self.agency_id.as_ref()
    }

    fn version(&self) -> (r: Option<&String>) {
        self.version.as_ref()
    }

    fn name(&self) -> (r: Option<&String>) {
        self.name.as_ref()
    }

    fn names(&self) -> (r: Option<&LocalizedText>) {
        self.names.as_ref()
    }

    fn valid_from(&self) -> (r: Option<&String>) {
        self.valid_from.as_ref()
    }

    fn valid_to(&self) -> (r: Option<&String>) {
        self.valid_to.as_ref()
    }

    fn is_external_reference(&self) -> (r: Option<bool>) {
        self.is_external_reference
    }

    fn annotations(&self) -> (r: Option<&Vec<Annotation>>) {
        self.annotations.as_ref()
    }

    fn links(&self) -> (r: Option<&Vec<Link>>) {
        self.links.as_ref()
    }
}

impl ItemScheme for CategoryScheme {
    open spec fn is_partial_spec(&self) -> Option<bool> {
        self.is_partial
    }

    open spec fn items_spec(&self) -> Option<Seq<Item>> {
        match self.categories {
            Some(v) => Some(v@),
            None => None,
        }
    }

    fn is_partial(&self) -> (r: Option<bool>) {
        self.is_partial
    }

    fn items(&self) -> (r: Option<&Vec<Item>>) {
        self.categories.as_ref()
    }

    fn set_items(&mut self, items: Option<Vec<Item>>) {
        self.categories = items;
    }

    fn clear_items(&mut self) {
        self.categories = None;
    }

    fn contains_items(&self) -> (r: bool) {
        match &self.categories {
            Some(v) => v.len() > 0,
            None => false,
        }
    }
}

/// The item scheme for a concept.
#[derive(Debug, PartialEq)]
pub struct ConceptScheme {
    pub id: String,
    pub agency_id: Option<String>,
    pub version: Option<String>,
    pub name: Option<String>,
    pub names: Option<LocalizedText>,
    pub valid_from: Option<String>,
    pub valid_to: Option<String>,
    pub is_external_reference: Option<bool>,
    pub annotations: Option<Vec<Annotation>>,
    pub links: Option<Vec<Link>>,
    pub is_partial: Option<bool>,
    pub concepts: Option<Vec<Item>>,
    pub core_representation: Option<CoreRepresentation>,
    pub iso_concept_reference: Option<IsoConceptReference>,
    pub parent: Option<String>,
    pub other: Extensions,
}

pub open spec fn concept_scheme_names() -> Seq<Seq<char>> {
    seq!["id"@, "agencyId"@, "version"@, "name"@, "names"@, "validFrom"@, "validTo"@, "isExternalReference"@, "annotations"@, "links"@, "isPartial"@, "concepts"@, "coreRepresentation"@, "isoConceptReference"@, "parent"@]
}

pub open spec fn concept_scheme_pairs(x: ConceptScheme) -> Seq<(Seq<char>, Option<JVal>)> {
    seq![
        ("id"@, Some(JVal::Str(x.id@))),
        ("agencyId"@, jv_of_ostr(ostr_view(x.agency_id))),
        ("version"@, jv_of_ostr(ostr_view(x.version))),
        ("name"@, jv_of_ostr(ostr_view(x.name))),
        ("names"@, orec_ser(x.names)),
        ("validFrom"@, jv_of_ostr(ostr_view(x.valid_from))),
        ("validTo"@, jv_of_ostr(ostr_view(x.valid_to))),
        ("isExternalReference"@, jv_of_obool(x.is_external_reference)),
        ("annotations"@, ovec_ser(x.annotations)),
        ("links"@, ovec_ser(x.links)),
        ("isPartial"@, jv_of_obool(x.is_partial)),
        ("concepts"@, ovec_ser(x.concepts)),
        ("coreRepresentation"@, orec_ser(x.core_representation)),
        ("isoConceptReference"@, orec_ser(x.iso_concept_reference)),
        ("parent"@, jv_of_ostr(ostr_view(x.parent))),
    ]
}

pub open spec fn concept_scheme_norm_pairs(fs: Seq<(Seq<char>, JVal)>) -> Seq<(Seq<char>, Option<JVal>)> {
    seq![
        ("id"@, jv_of_ostr(opt_str(jv_get(fs, "id"@)))),
        ("agencyId"@, jv_of_ostr(opt_str(jv_get(fs, "agencyId"@)))),
        ("version"@, jv_of_ostr(opt_str(jv_get(fs, "version"@)))),
        ("name"@, jv_of_ostr(opt_str(jv_get(fs, "name"@)))),
        ("names"@, opt_rec_norm::<LocalizedText>(jv_get(fs, "names"@))),
        ("validFrom"@, jv_of_ostr(opt_str(jv_get(fs, "validFrom"@)))),
        ("validTo"@, jv_of_ostr(opt_str(jv_get(fs, "validTo"@)))),
        ("isExternalReference"@, jv_of_obool(opt_bool(jv_get(fs, "isExternalReference"@)))),
        ("annotations"@, opt_recarr_norm::<Annotation>(jv_get(fs, "annotations"@))),
        ("links"@, opt_recarr_norm::<Link>(jv_get(fs, "links"@))),
        ("isPartial"@, jv_of_obool(opt_bool(jv_get(fs, "isPartial"@)))),
        ("concepts"@, opt_recarr_norm::<Item>(jv_get(fs, "concepts"@))),
        ("coreRepresentation"@, opt_rec_norm::<CoreRepresentation>(jv_get(fs, "coreRepresentation"@))),
        ("isoConceptReference"@, opt_rec_norm::<IsoConceptReference>(jv_get(fs, "isoConceptReference"@))),
        ("parent"@, jv_of_ostr(opt_str(jv_get(fs, "parent"@)))),
    ]
}

/// The names this record knows are pairwise distinct.
pub proof fn lemma_concept_scheme_names_distinct()
    ensures
        forall|i: int, j: int|
            0 <= i < j < concept_scheme_names().len() ==> concept_scheme_names()[i] != concept_scheme_names()[j],
{
    reveal_strlit("id");
    reveal_strlit("agencyId");
    reveal_strlit("version");
    reveal_strlit("name");
    reveal_strlit("names");
    reveal_strlit("validFrom");
    reveal_strlit("validTo");
    reveal_strlit("isExternalReference");
    reveal_strlit("annotations");
    reveal_strlit("links");
    reveal_strlit("isPartial");
    reveal_strlit("concepts");
    reveal_strlit("coreRepresentation");
    reveal_strlit("isoConceptReference");
    reveal_strlit("parent");
    let ns = concept_scheme_names();
    assert(ns.len() == 15);
    assert forall|i: int, j: int| 0 <= i < j < ns.len() implies ns[i] != ns[j] by {
        assert("id"@.len() == 2);
        assert("agencyId"@.len() == 8);
        assert("version"@.len() == 7);
        assert("name"@.len() == 4);
        assert("names"@.len() == 5);
        assert("validFrom"@.len() == 9);
        assert("validTo"@.len() == 7);
        assert("isExternalReference"@.len() == 19);
        assert("annotations"@.len() == 11);
        assert("links"@.len() == 5);
        assert("isPartial"@.len() == 9);
        assert("concepts"@.len() == 8);
        assert("coreRepresentation"@.len() == 18);
        assert("isoConceptReference"@.len() == 19);
        assert("parent"@.len() == 6);
        assert("agencyId"@[0] == 'a');
        assert("concepts"@[0] == 'c');
        assert("version"@[1] == 'e');
        assert("validTo"@[1] == 'a');
        assert("names"@[0] == 'n');
        assert("links"@[0] == 'l');
        assert("validFrom"@[0] == 'v');
        assert("isPartial"@[0] == 'i');
        assert("isExternalReference"@[2] == 'E');
        assert("isoConceptReference"@[2] == 'o');
    }
}

impl JsonForm for ConceptScheme {
    open spec fn wf(&self) -> bool {
        &&& ext_ok(self.other.view_fields(), concept_scheme_names())
        &&& crate::fields::window_le(ostr_view(self.valid_from), ostr_view(self.valid_to))
        &&& orec_wf(self.names)
        &&& ovec_wf(self.annotations)
        &&& ovec_wf(self.links)
        &&& ovec_wf(self.concepts)
        &&& orec_wf(self.core_representation)
        &&& orec_wf(self.iso_concept_reference)
    }

    open spec fn ser(&self) -> JVal {
        JVal::Obj(present_fields(concept_scheme_pairs(*self)) + self.other.view_fields())
    }

    open spec fn doc_ok(v: JVal) -> bool {
        &&& v is Obj
        &&& {
            let fs = v->Obj_0;
            &&& is_req_str(jv_get(fs, "id"@))
            &&& is_opt_str(jv_get(fs, "agencyId"@))
            &&& is_opt_str(jv_get(fs, "version"@))
            &&& is_opt_str(jv_get(fs, "name"@))
            &&& is_opt_rec::<LocalizedText>(jv_get(fs, "names"@))
            &&& is_opt_str(jv_get(fs, "validFrom"@))
            &&& is_opt_str(jv_get(fs, "validTo"@))
            &&& crate::fields::window_le(
                opt_str(jv_get(fs, "validFrom"@)),
                opt_str(jv_get(fs, "validTo"@)),
            )
            &&& is_opt_bool(jv_get(fs, "isExternalReference"@))
            &&& is_opt_recarr::<Annotation>(jv_get(fs, "annotations"@))
            &&& is_opt_recarr::<Link>(jv_get(fs, "links"@))
            &&& is_opt_bool(jv_get(fs, "isPartial"@))
            &&& is_opt_recarr::<Item>(jv_get(fs, "concepts"@))
            &&& is_opt_rec::<CoreRepresentation>(jv_get(fs, "coreRepresentation"@))
            &&& is_opt_rec::<IsoConceptReference>(jv_get(fs, "isoConceptReference"@))
            &&& is_opt_str(jv_get(fs, "parent"@))
        }
    }

    open spec fn doc_norm(v: JVal) -> JVal {
        JVal::Obj(
            present_fields(concept_scheme_norm_pairs(v->Obj_0)) + ext_fields(v->Obj_0, concept_scheme_names()),
        )
    }

    #[verifier::rlimit(50)]
    fn from_json(v: JsonValue) -> (r: Result<Self, ParseError>) {
        let o = match v {
            JsonValue::Obj(o) => o,
            _ => { return Err(ParseError::NotObject) },
        };
        let ghost fs = jview_field_vec(o);
        let mut bag = FieldBag::new(o);
        proof {
            lemma_concept_scheme_names_distinct();
        }
        proof {
            assert(bag.taken() =~= concept_scheme_names().subrange(0, 0));
            crate::codec::lemma_take_fresh(concept_scheme_names(), 0, bag.taken());
        }
        let id = match get_req_string(bag.take("id"), "id") {
            Ok(x) => x,
            Err(e) => { return Err(e) },
        };
        proof {
            assert(bag.taken() =~= concept_scheme_names().subrange(0, 1));
            crate::codec::lemma_take_fresh(concept_scheme_names(), 1, bag.taken());
        }
        let agency_id = match get_opt_string(bag.take("agencyId"), "agencyId") {
            Ok(x) => x,
            Err(e) => { return Err(e) },
        };
        proof {
            assert(bag.taken() =~= concept_scheme_names().subrange(0, 2));
            crate::codec::lemma_take_fresh(concept_scheme_names(), 2, bag.taken());
        }
        let version = match get_opt_string(bag.take("version"), "version") {
            Ok(x) => x,
            Err(e) => { return Err(e) },
        };
        proof {
            assert(bag.taken() =~= concept_scheme_names().subrange(0, 3));
            crate::codec::lemma_take_fresh(concept_scheme_names(), 3, bag.taken());
        }
        let name = match get_opt_string(bag.take("name"), "name") {
            Ok(x) => x,
            Err(e) => { return Err(e) },
        };
        proof {
            assert(bag.taken() =~= concept_scheme_names().subrange(0, 4));
            crate::codec::lemma_take_fresh(concept_scheme_names(), 4, bag.taken());
        }
        let names = match parse_opt::<LocalizedText>(bag.take("names")) {
            Ok(x) => x,
            Err(e) => { return Err(e) },
        };
        proof {
            assert(bag.taken() =~= concept_scheme_names().subrange(0, 5));
            crate::codec::lemma_take_fresh(concept_scheme_names(), 5, bag.taken());
        }
        let valid_from = match get_opt_string(bag.take("validFrom"), "validFrom") {
            Ok(x) => x,
            Err(e) => { return Err(e) },
        };
        proof {
            assert(bag.taken() =~= concept_scheme_names().subrange(0, 6));
            crate::codec::lemma_take_fresh(concept_scheme_names(), 6, bag.taken());
        }
        let valid_to = match get_opt_string(bag.take("validTo"), "validTo") {
            Ok(x) => x,
            Err(e) => { return Err(e) },
        };
        match (&valid_from, &valid_to) {
            (Some(f), Some(t)) => {
                if !crate::fields::str_le(f.as_str(), t.as_str()) {
                    return Err(
                        ParseError::Shape("validTo".to_owned(), crate::fields::ValueKind::Window),
                    );
                }
            },
            _ => (),
        }
        proof {
            assert(bag.taken() =~= concept_scheme_names().subrange(0, 7));
            crate::codec::lemma_take_fresh(concept_scheme_names(), 7, bag.taken());
        }
        let is_external_reference = match get_opt_bool(bag.take("isExternalReference"), "isExternalReference") {
            Ok(x) => x,
            Err(e) => { return Err(e) },
        };
        proof {
            assert(bag.taken() =~= concept_scheme_names().subrange(0, 8));
            crate::codec::lemma_take_fresh(concept_scheme_names(), 8, bag.taken());
        }
        let annotations = match parse_opt_vec::<Annotation>(bag.take("annotations"), "annotations") {
            Ok(x) => x,
            Err(e) => { return Err(e) },
        };
        proof {
            assert(bag.taken() =~= concept_scheme_names().subrange(0, 9));
            crate::codec::lemma_take_fresh(concept_scheme_names(), 9, bag.taken());
        }
        let links = match parse_opt_vec::<Link>(bag.take("links"), "links") {
            Ok(x) => x,
            Err(e) => { return Err(e) },
        };
        proof {
            assert(bag.taken() =~= concept_scheme_names().subrange(0, 10));
            crate::codec::lemma_take_fresh(concept_scheme_names(), 10, bag.taken());
        }
        let is_partial = match get_opt_bool(bag.take("isPartial"), "isPartial") {
            Ok(x) => x,
            Err(e) => { return Err(e) },
        };
        proof {
            assert(bag.taken() =~= concept_scheme_names().subrange(0, 11));
            crate::codec::lemma_take_fresh(concept_scheme_names(), 11, bag.taken());
        }
        let concepts = match parse_opt_vec::<Item>(bag.take("concepts"), "concepts") {
            Ok(x) => x,
            Err(e) => { return Err(e) },
        };
        proof {
            assert(bag.taken() =~= concept_scheme_names().subrange(0, 12));
            crate::codec::lemma_take_fresh(concept_scheme_names(), 12, bag.taken());
        }
        let core_representation = match parse_opt::<CoreRepresentation>(bag.take("coreRepresentation")) {
            Ok(x) => x,
            Err(e) => { return Err(e) },
        };
        proof {
            assert(bag.taken() =~= concept_scheme_names().subrange(0, 13));
            crate::codec::lemma_take_fresh(concept_scheme_names(), 13, bag.taken());
        }
        let iso_concept_reference = match parse_opt::<IsoConceptReference>(bag.take("isoConceptReference")) {
            Ok(x) => x,
            Err(e) => { return Err(e) },
        };
        proof {
            assert(bag.taken() =~= concept_scheme_names().subrange(0, 14));
            crate::codec::lemma_take_fresh(concept_scheme_names(), 14, bag.taken());
        }
        let parent = match get_opt_string(bag.take("parent"), "parent") {
            Ok(x) => x,
            Err(e) => { return Err(e) },
        };
        let ghost tk = bag.taken();
        let other = bag.rest();
        let out = ConceptScheme { id, agency_id, version, name, names, valid_from, valid_to, is_external_reference, annotations, links, is_partial, concepts, core_representation, iso_concept_reference, parent, other };
        proof {
            assert(tk =~= concept_scheme_names());
            crate::codec::lemma_ext_fields_names(fs, tk);
            assert(concept_scheme_pairs(out) =~= concept_scheme_norm_pairs(fs));
        }
        Ok(out)
    }

    fn to_json(&self) -> (r: JsonValue) {
        let mut b = ObjBuilder::new();
        put_str(&mut b, "id", &self.id);
        put_opt_str(&mut b, "agencyId", &self.agency_id);
        put_opt_str(&mut b, "version", &self.version);
        put_opt_str(&mut b, "name", &self.name);
        put_opt_rec(&mut b, "names", &self.names);
        put_opt_str(&mut b, "validFrom", &self.valid_from);
        put_opt_str(&mut b, "validTo", &self.valid_to);
        put_opt_bool(&mut b, "isExternalReference", &self.is_external_reference);
        put_opt_vec(&mut b, "annotations", &self.annotations);
        put_opt_vec(&mut b, "links", &self.links);
        put_opt_bool(&mut b, "isPartial", &self.is_partial);
        put_opt_vec(&mut b, "concepts", &self.concepts);
        put_opt_rec(&mut b, "coreRepresentation", &self.core_representation);
        put_opt_rec(&mut b, "isoConceptReference", &self.iso_concept_reference);
        put_opt_str(&mut b, "parent", &self.parent);
        proof {
            let ps = concept_scheme_pairs(*self);
            lemma_pairs_chain(ps, 15);
            assert(ps.subrange(0, 15) =~= ps);
            assert(b.view_fields() == present_fields(ps)) by {
                reveal_with_fuel(pairs_prefix_chunks, 16);
            }
        }
        finish_with_ext(b, &self.other)
    }

    #[verifier::rlimit(50)]
    #[verifier::spinoff_prover]
    proof fn lemma_canon(&self) {
        lemma_concept_scheme_names_distinct();
        let ps = concept_scheme_pairs(*self);
        let ext = self.other.view_fields();
        assert(names_of(ps) =~= concept_scheme_names());
        assert(distinct_names(ps)) by {
            assert forall|i: int, j: int|
                0 <= i < j < ps.len() implies ps[i].0 != ps[j].0 by {
                assert(ps[i].0 == concept_scheme_names()[i]);
                assert(ps[j].0 == concept_scheme_names()[j]);
            }
        }
        assert(disjoint_from(ext, ps)) by {
            assert forall|i: int, j: int|
                0 <= i < ext.len() && 0 <= j < ps.len() implies ext[i].0 != ps[j].0 by {
                assert(!is_known_name(ext[i].0, concept_scheme_names()));
                assert(concept_scheme_names()[j] == ps[j].0);
            }
        }
        lemma_jv_get_present(ps, ext);
        lemma_ext_of_present(ps, ext);
        let fs = self.ser()->Obj_0;
        assert(jv_get(fs, "id"@) == ps[0].1);
        assert(jv_get(fs, "agencyId"@) == ps[1].1);
        assert(jv_get(fs, "version"@) == ps[2].1);
        assert(jv_get(fs, "name"@) == ps[3].1);
        assert(jv_get(fs, "names"@) == ps[4].1);
        assert(jv_get(fs, "validFrom"@) == ps[5].1);
        assert(jv_get(fs, "validTo"@) == ps[6].1);
        assert(jv_get(fs, "isExternalReference"@) == ps[7].1);
        assert(jv_get(fs, "annotations"@) == ps[8].1);
        assert(jv_get(fs, "links"@) == ps[9].1);
        assert(jv_get(fs, "isPartial"@) == ps[10].1);
        assert(jv_get(fs, "concepts"@) == ps[11].1);
        assert(jv_get(fs, "coreRepresentation"@) == ps[12].1);
        assert(jv_get(fs, "isoConceptReference"@) == ps[13].1);
        assert(jv_get(fs, "parent"@) == ps[14].1);
        match self.names {
            Some(t) => {
                t.lemma_canon();
            },
            None => {},
        }
        match &self.annotations {
            Some(v) => {
                lemma_arr_canon::<Annotation>(v@);
            },
            None => {},
        }
        match &self.links {
            Some(v) => {
                lemma_arr_canon::<Link>(v@);
            },
            None => {},
        }
        match &self.concepts {
            Some(v) => {
                lemma_arr_canon::<Item>(v@);
            },
            None => {},
        }
        match self.core_representation {
            Some(t) => {
                t.lemma_canon();
            },
            None => {},
        }
        match self.iso_concept_reference {
            Some(t) => {
                t.lemma_canon();
            },
            None => {},
        }
        assert(Self::doc_ok(self.ser()));
        assert(concept_scheme_norm_pairs(fs) =~= ps);
        assert(ext_fields(fs, names_of(ps)) == ext);
        assert(ext_fields(fs, concept_scheme_names()) == ext);
    }
}

impl Artefact for ConceptScheme {
    open spec fn id_spec(&self) -> Seq<char> {
        self.id@
    }

    open spec fn agency_id_spec(&self) -> Option<Seq<char>> {
        ostr_view(self.agency_id)
    }

    open spec fn version_spec(&self) -> Option<Seq<char>> {
        ostr_view(self.version)
    }

    open spec fn name_spec(&self) -> Option<Seq<char>> {
        ostr_view(self.name)
    }

    open spec fn names_spec(&self) -> Option<LocalizedText> {
        self.names
    }

    open spec fn valid_from_spec(&self) -> Option<Seq<char>> {
        ostr_view(self.valid_from)
    }

    open spec fn valid_to_spec(&self) -> Option<Seq<char>> {
        ostr_view(self.valid_to)
    }

    open spec fn is_external_reference_spec(&self) -> Option<bool> {
        self.is_external_reference
    }

    open spec fn annotations_spec(&self) -> Option<Seq<Annotation>> {
        match self.annotations {
            Some(v) => Some(v@),
            None => None,
        }
    }

    open spec fn links_spec(&self) -> Option<Seq<Link>> {
        match self.links {
            Some(v) => Some(v@),
            None => None,
        }
    }

    fn id(&self) -> (r: &String) {
        &self.id
    }

    fn agency_id(&self) -> (r: Option<&String>) {
        self.agency_id.as_ref()
    }

    fn version(&self) -> (r: Option<&String>) {
        self.version.as_ref()
    }

    fn name(&self) -> (r: Option<&String>) {
        self.name.as_ref()
    }

    fn names(&self) -> (r: Option<&LocalizedText>) {
        self.names.as_ref()
    }

    fn valid_from(&self) -> (r: Option<&String>) {
        self.valid_from.as_ref()
    }

    fn valid_to(&self) -> (r: Option<&String>) {
        self.valid_to.as_ref()
    }

    fn is_external_reference(&self) -> (r: Option<bool>) {
        self.is_external_reference
    }

    fn annotations(&self) -> (r: Option<&Vec<Annotation>>) {
        self.annotations.as_ref()
    }

    fn links(&self) -> (r: Option<&Vec<Link>>) {
        self.links.as_ref()
    }
}

impl ItemScheme for ConceptScheme {
    open spec fn is_partial_spec(&self) -> Option<bool> {
        self.is_partial
    }

    open spec fn items_spec(&self) -> Option<Seq<Item>> {
        match self.concepts {
            Some(v) => Some(v@),
            None => None,
        }
    }

    fn is_partial(&self) -> (r: Option<bool>) {
        self.is_partial
    }

    fn items(&self) -> (r: Option<&Vec<Item>>) {
        self.concepts.as_ref()
    }

    fn set_items(&mut self, items: Option<Vec<Item>>) {
        self.concepts = items;
    }

    fn clear_items(&mut self) {
        self.concepts = None;
    }

    fn contains_items(&self) -> (r: bool) {
        match &self.concepts {
            Some(v) => v.len() > 0,
            None => false,
        }
    }
}

/// The item scheme for a codelist.
#[derive(Debug, PartialEq)]
pub struct Codelist {
    pub id: String,
    pub agency_id: Option<String>,
    pub version: Option<String>,
    pub name: Option<String>,
    pub names: Option<LocalizedText>,
    pub valid_from: Option<String>,
    pub valid_to: Option<String>,
    pub is_external_reference: Option<bool>,
    pub annotations: Option<Vec<Annotation>>,
    pub links: Option<Vec<Link>>,
    pub is_partial: Option<bool>,
    pub codes: Option<Vec<Item>>,
    pub parent: Option<String>,
    pub other: Extensions,
}

pub open spec fn codelist_names() -> Seq<Seq<char>> {
    seq!["id"@, "agencyId"@, "version"@, "name"@, "names"@, "validFrom"@, "validTo"@, "isExternalReference"@, "annotations"@, "links"@, "isPartial"@, "codes"@, "parent"@]
}

pub open spec fn codelist_pairs(x: Codelist) -> Seq<(Seq<char>, Option<JVal>)> {
    seq![
        ("id"@, Some(JVal::Str(x.id@))),
        ("agencyId"@, jv_of_ostr(ostr_view(x.agency_id))),
        ("version"@, jv_of_ostr(ostr_view(x.version))),
        ("name"@, jv_of_ostr(ostr_view(x.name))),
        ("names"@, orec_ser(x.names)),
        ("validFrom"@, jv_of_ostr(ostr_view(x.valid_from))),
        ("validTo"@, jv_of_ostr(ostr_view(x.valid_to))),
        ("isExternalReference"@, jv_of_obool(x.is_external_reference)),
        ("annotations"@, ovec_ser(x.annotations)),
        ("links"@, ovec_ser(x.links)),
        ("isPartial"@, jv_of_obool(x.is_partial)),
        ("codes"@, ovec_ser(x.codes)),
        ("parent"@, jv_of_ostr(ostr_view(x.parent))),
    ]
}

pub open spec fn codelist_norm_pairs(fs: Seq<(Seq<char>, JVal)>) -> Seq<(Seq<char>, Option<JVal>)> {
    seq![
        ("id"@, jv_of_ostr(opt_str(jv_get(fs, "id"@)))),
        ("agencyId"@, jv_of_ostr(opt_str(jv_get(fs, "agencyId"@)))),
        ("version"@, jv_of_ostr(opt_str(jv_get(fs, "version"@)))),
        ("name"@, jv_of_ostr(opt_str(jv_get(fs, "name"@)))),
        ("names"@, opt_rec_norm::<LocalizedText>(jv_get(fs, "names"@))),
        ("validFrom"@, jv_of_ostr(opt_str(jv_get(fs, "validFrom"@)))),
        ("validTo"@, jv_of_ostr(opt_str(jv_get(fs, "validTo"@)))),
        ("isExternalReference"@, jv_of_obool(opt_bool(jv_get(fs, "isExternalReference"@)))),
        ("annotations"@, opt_recarr_norm::<Annotation>(jv_get(fs, "annotations"@))),
        ("links"@, opt_recarr_norm::<Link>(jv_get(fs, "links"@))),
        ("isPartial"@, jv_of_obool(opt_bool(jv_get(fs, "isPartial"@)))),
        ("codes"@, opt_recarr_norm::<Item>(jv_get(fs, "codes"@))),
        ("parent"@, jv_of_ostr(opt_str(jv_get(fs, "parent"@)))),
    ]
}

/// The names this record knows are pairwise distinct.
pub proof fn lemma_codelist_names_distinct()
    ensures
        forall|i: int, j: int|
            0 <= i < j < codelist_names().len() ==> codelist_names()[i] != codelist_names()[j],
{
    reveal_strlit("id");
    reveal_strlit("agencyId");
    reveal_strlit("version");
    reveal_strlit("name");
    reveal_strlit("names");
    reveal_strlit("validFrom");
    reveal_strlit("validTo");
    reveal_strlit("isExternalReference");
    reveal_strlit("annotations");
    reveal_strlit("links");
    reveal_strlit("isPartial");
    reveal_strlit("codes");
    reveal_strlit("parent");
    let ns = codelist_names();
    assert(ns.len() == 13);
    assert forall|i: int, j: int| 0 <= i < j < ns.len() implies ns[i] != ns[j] by {
        assert("id"@.len() == 2);
        assert("agencyId"@.len() == 8);
        assert("version"@.len() == 7);
        assert("name"@.len() == 4);
        assert("names"@.len() == 5);
        assert("validFrom"@.len() == 9);
        assert("validTo"@.len() == 7);
        assert("isExternalReference"@.len() == 19);
        assert("annotations"@.len() == 11);
        assert("links"@.len() == 5);
        assert("isPartial"@.len() == 9);
        assert("codes"@.len() == 5);
        assert("parent"@.len() == 6);
        assert("version"@[1] == 'e');
        assert("validTo"@[1] == 'a');
        assert("names"@[0] == 'n');
        assert("links"@[0] == 'l');
        assert("codes"@[0] == 'c');
        assert("validFrom"@[0] == 'v');
        assert("isPartial"@[0] == 'i');
    }
}

impl JsonForm for Codelist {
    open spec fn wf(&self) -> bool {
        &&& ext_ok(self.other.view_fields(), codelist_names())
        &&& crate::fields::window_le(ostr_view(self.valid_from), ostr_view(self.valid_to))
        &&& orec_wf(self.names)
        &&& ovec_wf(self.annotations)
        &&& ovec_wf(self.links)
        &&& ovec_wf(self.codes)
    }

    open spec fn ser(&self) -> JVal {
        JVal::Obj(present_fields(codelist_pairs(*self)) + self.other.view_fields())
    }

    open spec fn doc_ok(v: JVal) -> bool {
        &&& v is Obj
        &&& {
            let fs = v->Obj_0;
            &&& is_req_str(jv_get(fs, "id"@))
            &&& is_opt_str(jv_get(fs, "agencyId"@))
            &&& is_opt_str(jv_get(fs, "version"@))
            &&& is_opt_str(jv_get(fs, "name"@))
            &&& is_opt_rec::<LocalizedText>(jv_get(fs, "names"@))
            &&& is_opt_str(jv_get(fs, "validFrom"@))
            &&& is_opt_str(jv_get(fs, "validTo"@))
            &&& crate::fields::window_le(
                opt_str(jv_get(fs, "validFrom"@)),
                opt_str(jv_get(fs, "validTo"@)),
            )
            &&& is_opt_bool(jv_get(fs, "isExternalReference"@))
            &&& is_opt_recarr::<Annotation>(jv_get(fs, "annotations"@))
            &&& is_opt_recarr::<Link>(jv_get(fs, "links"@))
            &&& is_opt_bool(jv_get(fs, "isPartial"@))
            &&& is_opt_recarr::<Item>(jv_get(fs, "codes"@))
            &&& is_opt_str(jv_get(fs, "parent"@))
        }
    }

    open spec fn doc_norm(v: JVal) -> JVal {
        JVal::Obj(
            present_fields(codelist_norm_pairs(v->Obj_0)) + ext_fields(v->Obj_0, codelist_names()),
        )
    }

    #[verifier::rlimit(50)]
    fn from_json(v: JsonValue) -> (r: Result<Self, ParseError>) {
        let o = match v {
            JsonValue::Obj(o) => o,
            _ => { return Err(ParseError::NotObject) },
        };
        let ghost fs = jview_field_vec(o);
        let mut bag = FieldBag::new(o);
        proof {
            lemma_codelist_names_distinct();
        }
        proof {
            assert(bag.taken() =~= codelist_names().subrange(0, 0));
            crate::codec::lemma_take_fresh(codelist_names(), 0, bag.taken());
        }
        let id = match get_req_string(bag.take("id"), "id") {
            Ok(x) => x,
            Err(e) => { return Err(e) },
        };
        proof {
            assert(bag.taken() =~= codelist_names().subrange(0, 1));
            crate::codec::lemma_take_fresh(codelist_names(), 1, bag.taken());
        }
        let agency_id = match get_opt_string(bag.take("agencyId"), "agencyId") {
            Ok(x) => x,
            Err(e) => { return Err(e) },
        };
        proof {
            assert(bag.taken() =~= codelist_names().subrange(0, 2));
            crate::codec::lemma_take_fresh(codelist_names(), 2, bag.taken());
        }
        let version = match get_opt_string(bag.take("version"), "version") {
            Ok(x) => x,
            Err(e) => { return Err(e) },
        };
        proof {
            assert(bag.taken() =~= codelist_names().subrange(0, 3));
            crate::codec::lemma_take_fresh(codelist_names(), 3, bag.taken());
        }
        let name = match get_opt_string(bag.take("name"), "name") {
            Ok(x) => x,
            Err(e) => { return Err(e) },
        };
        proof {
            assert(bag.taken() =~= codelist_names().subrange(0, 4));
            crate::codec::lemma_take_fresh(codelist_names(), 4, bag.taken());
        }
        let names = match parse_opt::<LocalizedText>(bag.take("names")) {
            Ok(x) => x,
            Err(e) => { return Err(e) },
        };
        proof {
            assert(bag.taken() =~= codelist_names().subrange(0, 5));
            crate::codec::lemma_take_fresh(codelist_names(), 5, bag.taken());
        }
        let valid_from = match get_opt_string(bag.take("validFrom"), "validFrom") {
            Ok(x) => x,
            Err(e) => { return Err(e) },
        };
        proof {
            assert(bag.taken() =~= codelist_names().subrange(0, 6));
            crate::codec::lemma_take_fresh(codelist_names(), 6, bag.taken());
        }
        let valid_to = match get_opt_string(bag.take("validTo"), "validTo") {
            Ok(x) => x,
            Err(e) => { return Err(e) },
        };
        match (&valid_from, &valid_to) {
            (Some(f), Some(t)) => {
                if !crate::fields::str_le(f.as_str(), t.as_str()) {
                    return Err(
                        ParseError::Shape("validTo".to_owned(), crate::fields::ValueKind::Window),
                    );
                }
            },
            _ => (),
        }
        proof {
            assert(bag.taken() =~= codelist_names().subrange(0, 7));
            crate::codec::lemma_take_fresh(codelist_names(), 7, bag.taken());
        }
        let is_external_reference = match get_opt_bool(bag.take("isExternalReference"), "isExternalReference") {
            Ok(x) => x,
            Err(e) => { return Err(e) },
        };
        proof {
            assert(bag.taken() =~= codelist_names().subrange(0, 8));
            crate::codec::lemma_take_fresh(codelist_names(), 8, bag.taken());
        }
        let annotations = match parse_opt_vec::<Annotation>(bag.take("annotations"), "annotations") {
            Ok(x) => x,
            Err(e) => { return Err(e) },
        };
        proof {
            assert(bag.taken() =~= codelist_names().subrange(0, 9));
            crate::codec::lemma_take_fresh(codelist_names(), 9, bag.taken());
        }
        let links = match parse_opt_vec::<Link>(bag.take("links"), "links") {
            Ok(x) => x,
            Err(e) => { return Err(e) },
        };
        proof {
            assert(bag.taken() =~= codelist_names().subrange(0, 10));
            crate::codec::lemma_take_fresh(codelist_names(), 10, bag.taken());
        }
        let is_partial = match get_opt_bool(bag.take("isPartial"), "isPartial") {
            Ok(x) => x,
            Err(e) => { return Err(e) },
        };
        proof {
            assert(bag.taken() =~= codelist_names().subrange(0, 11));
            crate::codec::lemma_take_fresh(codelist_names(), 11, bag.taken());
        }
        let codes = match parse_opt_vec::<Item>(bag.take("codes"), "codes") {
            Ok(x) => x,
            Err(e) => { return Err(e) },
        };
        proof {
            assert(bag.taken() =~= codelist_names().subrange(0, 12));
            crate::codec::lemma_take_fresh(codelist_names(), 12, bag.taken());
        }
        let parent = match get_opt_string(bag.take("parent"), "parent") {
            Ok(x) => x,
            Err(e) => { return Err(e) },
        };
        let ghost tk = bag.taken();
        let other = bag.rest();
        let out = Codelist { id, agency_id, version, name, names, valid_from, valid_to, is_external_reference, annotations, links, is_partial, codes, parent, other };
        proof {
            assert(tk =~= codelist_names());
            crate::codec::lemma_ext_fields_names(fs, tk);
            assert(codelist_pairs(out) =~= codelist_norm_pairs(fs));
        }
        Ok(out)
    }

    fn to_json(&self) -> (r: JsonValue) {
        let mut b = ObjBuilder::new();
        put_str(&mut b, "id", &self.id);
        put_opt_str(&mut b, "agencyId", &self.agency_id);
        put_opt_str(&mut b, "version", &self.version);
        put_opt_str(&mut b, "name", &self.name);
        put_opt_rec(&mut b, "names", &self.names);
        put_opt_str(&mut b, "validFrom", &self.valid_from);
        put_opt_str(&mut b, "validTo", &self.valid_to);
        put_opt_bool(&mut b, "isExternalReference", &self.is_external_reference);
        put_opt_vec(&mut b, "annotations", &self.annotations);
        put_opt_vec(&mut b, "links", &self.links);
        put_opt_bool(&mut b, "isPartial", &self.is_partial);
        put_opt_vec(&mut b, "codes", &self.codes);
        put_opt_str(&mut b, "parent", &self.parent);
        proof {
            let ps = codelist_pairs(*self);
            lemma_pairs_chain(ps, 13);
            assert(ps.subrange(0, 13) =~= ps);
            assert(b.view_fields() == present_fields(ps)) by {
                reveal_with_fuel(pairs_prefix_chunks, 14);
            }
        }
        finish_with_ext(b, &self.other)
    }

    #[verifier::rlimit(50)]
    #[verifier::spinoff_prover]
    proof fn lemma_canon(&self) {
        lemma_codelist_names_distinct();
        let ps = codelist_pairs(*self);
        let ext = self.other.view_fields();
        assert(names_of(ps) =~= codelist_names());
        assert(distinct_names(ps)) by {
            assert forall|i: int, j: int|
                0 <= i < j < ps.len() implies ps[i].0 != ps[j].0 by {
                assert(ps[i].0 == codelist_names()[i]);
                assert(ps[j].0 == codelist_names()[j]);
            }
        }
        assert(disjoint_from(ext, ps)) by {
            assert forall|i: int, j: int|
                0 <= i < ext.len() && 0 <= j < ps.len() implies ext[i].0 != ps[j].0 by {
                assert(!is_known_name(ext[i].0, codelist_names()));
                assert(codelist_names()[j] == ps[j].0);
            }
        }
        lemma_jv_get_present(ps, ext);
        lemma_ext_of_present(ps, ext);
        let fs = self.ser()->Obj_0;
        assert(jv_get(fs, "id"@) == ps[0].1);
        assert(jv_get(fs, "agencyId"@) == ps[1].1);
        assert(jv_get(fs, "version"@) == ps[2].1);
        assert(jv_get(fs, "name"@) == ps[3].1);
        assert(jv_get(fs, "names"@) == ps[4].1);
        assert(jv_get(fs, "validFrom"@) == ps[5].1);
        assert(jv_get(fs, "validTo"@) == ps[6].1);
        assert(jv_get(fs, "isExternalReference"@) == ps[7].1);
        assert(jv_get(fs, "annotations"@) == ps[8].1);
        assert(jv_get(fs, "links"@) == ps[9].1);
        assert(jv_get(fs, "isPartial"@) == ps[10].1);
        assert(jv_get(fs, "codes"@) == ps[11].1);
        assert(jv_get(fs, "parent"@) == ps[12].1);
        match self.names {
            Some(t) => {
                t.lemma_canon();
            },
            None => {},
        }
        match &self.annotations {
            Some(v) => {
                lemma_arr_canon::<Annotation>(v@);
            },
            None => {},
        }
        match &self.links {
            Some(v) => {
                lemma_arr_canon::<Link>(v@);
            },
            None => {},
        }
        match &self.codes {
            Some(v) => {
                lemma_arr_canon::<Item>(v@);
            },
            None => {},
        }
        assert(Self::doc_ok(self.ser()));
        assert(codelist_norm_pairs(fs) =~= ps);
        assert(ext_fields(fs, names_of(ps)) == ext);
        assert(ext_fields(fs, codelist_names()) == ext);
    }
}

impl Artefact for Codelist {
    open spec fn id_spec(&self) -> Seq<char> {
        self.id@
    }

    open spec fn agency_id_spec(&self) -> Option<Seq<char>> {
        ostr_view(self.agency_id)
    }

    open spec fn version_spec(&self) -> Option<Seq<char>> {
        ostr_view(self.version)
    }

    open spec fn name_spec(&self) -> Option<Seq<char>> {
        ostr_view(self.name)
    }

    open spec fn names_spec(&self) -> Option<LocalizedText> {
        self.names
    }

    open spec fn valid_from_spec(&self) -> Option<Seq<char>> {
        ostr_view(self.valid_from)
    }

    open spec fn valid_to_spec(&self) -> Option<Seq<char>> {
        ostr_view(self.valid_to)
    }

    open spec fn is_external_reference_spec(&self) -> Option<bool> {
        self.is_external_reference
    }

    open spec fn annotations_spec(&self) -> Option<Seq<Annotation>> {
        match self.annotations {
            Some(v) => Some(v@),
            None => None,
        }
    }

    open spec fn links_spec(&self) -> Option<Seq<Link>> {
        match self.links {
            Some(v) => Some(v@),
            None => None,
        }
    }

    fn id(&self) -> (r: &String) {
        &self.id
    }

    fn agency_id(&self) -> (r: Option<&String>) {
        self.agency_id.as_ref()
    }

    fn version(&self) -> (r: Option<&String>) {
        self.version.as_ref()
    }

    fn name(&self) -> (r: Option<&String>) {
        self.name.as_ref()
    }

    fn names(&self) -> (r: Option<&LocalizedText>) {
        self.names.as_ref()
    }

    fn valid_from(&self) -> (r: Option<&String>) {
        self.valid_from.as_ref()
    }

    fn valid_to(&self) -> (r: Option<&String>) {
        self.valid_to.as_ref()
    }

    fn is_external_reference(&self) -> (r: Option<bool>) {
        self.is_external_reference
    }

    fn annotations(&self) -> (r: Option<&Vec<Annotation>>) {
        self.annotations.as_ref()
    }

    fn links(&self) -> (r: Option<&Vec<Link>>) {
        self.links.as_ref()
    }
}

impl ItemScheme for Codelist {
    open spec fn is_partial_spec(&self) -> Option<bool> {
        self.is_partial
    }

    open spec fn items_spec(&self) -> Option<Seq<Item>> {
        match self.codes {
            Some(v) => Some(v@),
            None => None,
        }
    }

    fn is_partial(&self) -> (r: Option<bool>) {
        self.is_partial
    }

    fn items(&self) -> (r: Option<&Vec<Item>>) {
        self.codes.as_ref()
    }

    fn set_items(&mut self, items: Option<Vec<Item>>) {
        self.codes = items;
    }

    fn clear_items(&mut self) {
        self.codes = None;
    }

    fn contains_items(&self) -> (r: bool) {
        match &self.codes {
            Some(v) => v.len() > 0,
            None => false,
        }
    }
}

/// The item scheme for a geography codelist.
#[derive(Debug, PartialEq)]
pub struct GeographyCodelist {
    pub id: String,
    pub agency_id: Option<String>,
    pub version: Option<String>,
    pub name: Option<String>,
    pub names: Option<LocalizedText>,
    pub valid_from: Option<String>,
    pub valid_to: Option<String>,
    pub is_external_reference: Option<bool>,
    pub annotations: Option<Vec<Annotation>>,
    pub links: Option<Vec<Link>>,
    pub is_partial: Option<bool>,
    pub geo_feature_set_codes: Option<Vec<Item>>,
    pub other: Extensions,
}

pub open spec fn geography_codelist_names() -> Seq<Seq<char>> {
    seq!["id"@, "agencyId"@, "version"@, "name"@, "names"@, "validFrom"@, "validTo"@, "isExternalReference"@, "annotations"@, "links"@, "isPartial"@, "geoFeatureSetCodes"@]
}

pub open spec fn geography_codelist_pairs(x: GeographyCodelist) -> Seq<(Seq<char>, Option<JVal>)> {
    seq![
        ("id"@, Some(JVal::Str(x.id@))),
        ("agencyId"@, jv_of_ostr(ostr_view(x.agency_id))),
        ("version"@, jv_of_ostr(ostr_view(x.version))),
        ("name"@, jv_of_ostr(ostr_view(x.name))),
        ("names"@, orec_ser(x.names)),
        ("validFrom"@, jv_of_ostr(ostr_view(x.valid_from))),
        ("validTo"@, jv_of_ostr(ostr_view(x.valid_to))),
        ("isExternalReference"@, jv_of_obool(x.is_external_reference)),
        ("annotations"@, ovec_ser(x.annotations)),
        ("links"@, ovec_ser(x.links)),
        ("isPartial"@, jv_of_obool(x.is_partial)),
        ("geoFeatureSetCodes"@, ovec_ser(x.geo_feature_set_codes)),
    ]
}

pub open spec fn geography_codelist_norm_pairs(fs: Seq<(Seq<char>, JVal)>) -> Seq<(Seq<char>, Option<JVal>)> {
    seq![
        ("id"@, jv_of_ostr(opt_str(jv_get(fs, "id"@)))),
        ("agencyId"@, jv_of_ostr(opt_str(jv_get(fs, "agencyId"@)))),
        ("version"@, jv_of_ostr(opt_str(jv_get(fs, "version"@)))),
        ("name"@, jv_of_ostr(opt_str(jv_get(fs, "name"@)))),
        ("names"@, opt_rec_norm::<LocalizedText>(jv_get(fs, "names"@))),
        ("validFrom"@, jv_of_ostr(opt_str(jv_get(fs, "validFrom"@)))),
        ("validTo"@, jv_of_ostr(opt_str(jv_get(fs, "validTo"@)))),
        ("isExternalReference"@, jv_of_obool(opt_bool(jv_get(fs, "isExternalReference"@)))),
        ("annotations"@, opt_recarr_norm::<Annotation>(jv_get(fs, "annotations"@))),
        ("links"@, opt_recarr_norm::<Link>(jv_get(fs, "links"@))),
        ("isPartial"@, jv_of_obool(opt_bool(jv_get(fs, "isPartial"@)))),
        ("geoFeatureSetCodes"@, opt_recarr_norm::<Item>(jv_get(fs, "geoFeatureSetCodes"@))),
    ]
}

/// The names this record knows are pairwise distinct.
pub proof fn lemma_geography_codelist_names_distinct()
    ensures
        forall|i: int, j: int|
            0 <= i < j < geography_codelist_names().len() ==> geography_codelist_names()[i] != geography_codelist_names()[j],
{
    reveal_strlit("id");
    reveal_strlit("agencyId");
    reveal_strlit("version");
    reveal_strlit("name");
    reveal_strlit("names");
    reveal_strlit("validFrom");
    reveal_strlit("validTo");
    reveal_strlit("isExternalReference");
    reveal_strlit("annotations");
    reveal_strlit("links");
    reveal_strlit("isPartial");
    reveal_strlit("geoFeatureSetCodes");
    let ns = geography_codelist_names();
    assert(ns.len() == 12);
    assert forall|i: int, j: int| 0 <= i < j < ns.len() implies ns[i] != ns[j] by {
        assert("id"@.len() == 2);
        assert("agencyId"@.len() == 8);
        assert("version"@.len() == 7);
        assert("name"@.len() == 4);
        assert("names"@.len() == 5);
        assert("validFrom"@.len() == 9);
        assert("validTo"@.len() == 7);
        assert("isExternalReference"@.len() == 19);
        assert("annotations"@.len() == 11);
        assert("links"@.len() == 5);
        assert("isPartial"@.len() == 9);
        assert("geoFeatureSetCodes"@.len() == 18);
        assert("version"@[1] == 'e');
        assert("validTo"@[1] == 'a');
        assert("names"@[0] == 'n');
        assert("links"@[0] == 'l');
        assert("validFrom"@[0] == 'v');
        assert("isPartial"@[0] == 'i');
    }
}

impl JsonForm for GeographyCodelist {
    open spec fn wf(&self) -> bool {
        &&& ext_ok(self.other.view_fields(), geography_codelist_names())
        &&& crate::fields::window_le(ostr_view(self.valid_from), ostr_view(self.valid_to))
        &&& orec_wf(self.names)
        &&& ovec_wf(self.annotations)
        &&& ovec_wf(self.links)
        &&& ovec_wf(self.geo_feature_set_codes)
    }

    open spec fn ser(&self) -> JVal {
        JVal::Obj(present_fields(geography_codelist_pairs(*self)) + self.other.view_fields())
    }

    open spec fn doc_ok(v: JVal) -> bool {
        &&& v is Obj
        &&& {
            let fs = v->Obj_0;
            &&& is_req_str(jv_get(fs, "id"@))
            &&& is_opt_str(jv_get(fs, "agencyId"@))
            &&& is_opt_str(jv_get(fs, "version"@))
            &&& is_opt_str(jv_get(fs, "name"@))
            &&& is_opt_rec::<LocalizedText>(jv_get(fs, "names"@))
            &&& is_opt_str(jv_get(fs, "validFrom"@))
            &&& is_opt_str(jv_get(fs, "validTo"@))
            &&& crate::fields::window_le(
                opt_str(jv_get(fs, "validFrom"@)),
                opt_str(jv_get(fs, "validTo"@)),
            )
            &&& is_opt_bool(jv_get(fs, "isExternalReference"@))
            &&& is_opt_recarr::<Annotation>(jv_get(fs, "annotations"@))
            &&& is_opt_recarr::<Link>(jv_get(fs, "links"@))
            &&& is_opt_bool(jv_get(fs, "isPartial"@))
            &&& is_opt_recarr::<Item>(jv_get(fs, "geoFeatureSetCodes"@))
        }
    }

    open spec fn doc_norm(v: JVal) -> JVal {
        JVal::Obj(
            present_fields(geography_codelist_norm_pairs(v->Obj_0)) + ext_fields(v->Obj_0, geography_codelist_names()),
        )
    }

    #[verifier::rlimit(50)]
    fn from_json(v: JsonValue) -> (r: Result<Self, ParseError>) {
        let o = match v {
            JsonValue::Obj(o) => o,
            _ => { return Err(ParseError::NotObject) },
        };
        let ghost fs = jview_field_vec(o);
        let mut bag = FieldBag::new(o);
        proof {
            lemma_geography_codelist_names_distinct();
        }
        proof {
            assert(bag.taken() =~= geography_codelist_names().subrange(0, 0));
            crate::codec::lemma_take_fresh(geography_codelist_names(), 0, bag.taken());
        }
        let id = match get_req_string(bag.take("id"), "id") {
            Ok(x) => x,
            Err(e) => { return Err(e) },
        };
        proof {
            assert(bag.taken() =~= geography_codelist_names().subrange(0, 1));
            crate::codec::lemma_take_fresh(geography_codelist_names(), 1, bag.taken());
        }
        let agency_id = match get_opt_string(bag.take("agencyId"), "agencyId") {
            Ok(x) => x,
            Err(e) => { return Err(e) },
        };
        proof {
            assert(bag.taken() =~= geography_codelist_names().subrange(0, 2));
            crate::codec::lemma_take_fresh(geography_codelist_names(), 2, bag.taken());
        }
        let version = match get_opt_string(bag.take("version"), "version") {
            Ok(x) => x,
            Err(e) => { return Err(e) },
        };
        proof {
            assert(bag.taken() =~= geography_codelist_names().subrange(0, 3));
            crate::codec::lemma_take_fresh(geography_codelist_names(), 3, bag.taken());
        }
        let name = match get_opt_string(bag.take("name"), "name") {
            Ok(x) => x,
            Err(e) => { return Err(e) },
        };
        proof {
            assert(bag.taken() =~= geography_codelist_names().subrange(0, 4));
            crate::codec::lemma_take_fresh(geography_codelist_names(), 4, bag.taken());
        }
        let names = match parse_opt::<LocalizedText>(bag.take("names")) {
            Ok(x) => x,
            Err(e) => { return Err(e) },
        };
        proof {
            assert(bag.taken() =~= geography_codelist_names().subrange(0, 5));
            crate::codec::lemma_take_fresh(geography_codelist_names(), 5, bag.taken());
        }
        let valid_from = match get_opt_string(bag.take("validFrom"), "validFrom") {
            Ok(x) => x,
            Err(e) => { return Err(e) },
        };
        proof {
            assert(bag.taken() =~= geography_codelist_names().subrange(0, 6));
            crate::codec::lemma_take_fresh(geography_codelist_names(), 6, bag.taken());
        }
        let valid_to = match get_opt_string(bag.take("validTo"), "validTo") {
            Ok(x) => x,
            Err(e) => { return Err(e) },
        };
        match (&valid_from, &valid_to) {
            (Some(f), Some(t)) => {
                if !crate::fields::str_le(f.as_str(), t.as_str()) {
                    return Err(
                        ParseError::Shape("validTo".to_owned(), crate::fields::ValueKind::Window),
                    );
                }
            },
            _ => (),
        }
        proof {
            assert(bag.taken() =~= geography_codelist_names().subrange(0, 7));
            crate::codec::lemma_take_fresh(geography_codelist_names(), 7, bag.taken());
        }
        let is_external_reference = match get_opt_bool(bag.take("isExternalReference"), "isExternalReference") {
            Ok(x) => x,
            Err(e) => { return Err(e) },
        };
        proof {
            assert(bag.taken() =~= geography_codelist_names().subrange(0, 8));
            crate::codec::lemma_take_fresh(geography_codelist_names(), 8, bag.taken());
        }
        let annotations = match parse_opt_vec::<Annotation>(bag.take("annotations"), "annotations") {
            Ok(x) => x,
            Err(e) => { return Err(e) },
        };
        proof {
            assert(bag.taken() =~= geography_codelist_names().subrange(0, 9));
            crate::codec::lemma_take_fresh(geography_codelist_names(), 9, bag.taken());
        }
        let links = match parse_opt_vec::<Link>(bag.take("links"), "links") {
            Ok(x) => x,
            Err(e) => { return Err(e) },
        };
        proof {
            assert(bag.taken() =~= geography_codelist_names().subrange(0, 10));
            crate::codec::lemma_take_fresh(geography_codelist_names(), 10, bag.taken());
        }
        let is_partial = match get_opt_bool(bag.take("isPartial"), "isPartial") {
            Ok(x) => x,
            Err(e) => { return Err(e) },
        };
        proof {
            assert(bag.taken() =~= geography_codelist_names().subrange(0, 11));
            crate::codec::lemma_take_fresh(geography_codelist_names(), 11, bag.taken());
        }
        let geo_feature_set_codes = match parse_opt_vec::<Item>(bag.take("geoFeatureSetCodes"), "geoFeatureSetCodes") {
            Ok(x) => x,
            Err(e) => { return Err(e) },
        };
        let ghost tk = bag.taken();
        let other = bag.rest();
        let out = GeographyCodelist { id, agency_id, version, name, names, valid_from, valid_to, is_external_reference, annotations, links, is_partial, geo_feature_set_codes, other };
        proof {
            assert(tk =~= geography_codelist_names());
            crate::codec::lemma_ext_fields_names(fs, tk);
            assert(geography_codelist_pairs(out) =~= geography_codelist_norm_pairs(fs));
        }
        Ok(out)
    }

    fn to_json(&self) -> (r: JsonValue) {
        let mut b = ObjBuilder::new();
        put_str(&mut b, "id", &self.id);
        put_opt_str(&mut b, "agencyId", &self.agency_id);
        put_opt_str(&mut b, "version", &self.version);
        put_opt_str(&mut b, "name", &self.name);
        put_opt_rec(&mut b, "names", &self.names);
        put_opt_str(&mut b, "validFrom", &self.valid_from);
        put_opt_str(&mut b, "validTo", &self.valid_to);
        put_opt_bool(&mut b, "isExternalReference", &self.is_external_reference);
        put_opt_vec(&mut b, "annotations", &self.annotations);
        put_opt_vec(&mut b, "links", &self.links);
        put_opt_bool(&mut b, "isPartial", &self.is_partial);
        put_opt_vec(&mut b, "geoFeatureSetCodes", &self.geo_feature_set_codes);
        proof {
            let ps = geography_codelist_pairs(*self);
            lemma_pairs_chain(ps, 12);
            assert(ps.subrange(0, 12) =~= ps);
            assert(b.view_fields() == present_fields(ps)) by {
                reveal_with_fuel(pairs_prefix_chunks, 13);
            }
        }
        finish_with_ext(b, &self.other)
    }

    #[verifier::rlimit(50)]
    #[verifier::spinoff_prover]
    proof fn lemma_canon(&self) {
        lemma_geography_codelist_names_distinct();
        let ps = geography_codelist_pairs(*self);
        let ext = self.other.view_fields();
        assert(names_of(ps) =~= geography_codelist_names());
        assert(distinct_names(ps)) by {
            assert forall|i: int, j: int|
                0 <= i < j < ps.len() implies ps[i].0 != ps[j].0 by {
                assert(ps[i].0 == geography_codelist_names()[i]);
                assert(ps[j].0 == geography_codelist_names()[j]);
            }
        }
        assert(disjoint_from(ext, ps)) by {
            assert forall|i: int, j: int|
                0 <= i < ext.len() && 0 <= j < ps.len() implies ext[i].0 != ps[j].0 by {
                assert(!is_known_name(ext[i].0, geography_codelist_names()));
                assert(geography_codelist_names()[j] == ps[j].0);
            }
        }
        lemma_jv_get_present(ps, ext);
        lemma_ext_of_present(ps, ext);
        let fs = self.ser()->Obj_0;
        assert(jv_get(fs, "id"@) == ps[0].1);
        assert(jv_get(fs, "agencyId"@) == ps[1].1);
        assert(jv_get(fs, "version"@) == ps[2].1);
        assert(jv_get(fs, "name"@) == ps[3].1);
        assert(jv_get(fs, "names"@) == ps[4].1);
        assert(jv_get(fs, "validFrom"@) == ps[5].1);
        assert(jv_get(fs, "validTo"@) == ps[6].1);
        assert(jv_get(fs, "isExternalReference"@) == ps[7].1);
        assert(jv_get(fs, "annotations"@) == ps[8].1);
        assert(jv_get(fs, "links"@) == ps[9].1);
        assert(jv_get(fs, "isPartial"@) == ps[10].1);
        assert(jv_get(fs, "geoFeatureSetCodes"@) == ps[11].1);
        match self.names {
            Some(t) => {
                t.lemma_canon();
            },
            None => {},
        }
        match &self.annotations {
            Some(v) => {
                lemma_arr_canon::<Annotation>(v@);
            },
            None => {},
        }
        match &self.links {
            Some(v) => {
                lemma_arr_canon::<Link>(v@);
            },
            None => {},
        }
        match &self.geo_feature_set_codes {
            Some(v) => {
                lemma_arr_canon::<Item>(v@);
            },
            None => {},
        }
        assert(Self::doc_ok(self.ser()));
        assert(geography_codelist_norm_pairs(fs) =~= ps);
        assert(ext_fields(fs, names_of(ps)) == ext);
        assert(ext_fields(fs, geography_codelist_names()) == ext);
    }
}

impl Artefact for GeographyCodelist {
    open spec fn id_spec(&self) -> Seq<char> {
        self.id@
    }

    open spec fn agency_id_spec(&self) -> Option<Seq<char>> {
        ostr_view(self.agency_id)
    }

    open spec fn version_spec(&self) -> Option<Seq<char>> {
        ostr_view(self.version)
    }

    open spec fn name_spec(&self) -> Option<Seq<char>> {
        ostr_view(self.name)
    }

    open spec fn names_spec(&self) -> Option<LocalizedText> {
        self.names
    }

    open spec fn valid_from_spec(&self) -> Option<Seq<char>> {
        ostr_view(self.valid_from)
    }

    open spec fn valid_to_spec(&self) -> Option<Seq<char>> {
        ostr_view(self.valid_to)
    }

    open spec fn is_external_reference_spec(&self) -> Option<bool> {
        self.is_external_reference
    }

    open spec fn annotations_spec(&self) -> Option<Seq<Annotation>> {
        match self.annotations {
            Some(v) => Some(v@),
            None => None,
        }
    }

    open spec fn links_spec(&self) -> Option<Seq<Link>> {
        match self.links {
            Some(v) => Some(v@),
            None => None,
        }
    }

    fn id(&self) -> (r: &String) {
        &self.id
    }

    fn agency_id(&self) -> (r: Option<&String>) {
        self.agency_id.as_ref()
    }

    fn version(&self) -> (r: Option<&String>) {
        self.version.as_ref()
    }

    fn name(&self) -> (r: Option<&String>) {
        self.name.as_ref()
    }

    fn names(&self) -> (r: Option<&LocalizedText>) {
        self.names.as_ref()
    }

    fn valid_from(&self) -> (r: Option<&String>) {
        self.valid_from.as_ref()
    }

    fn valid_to(&self) -> (r: Option<&String>) {
        self.valid_to.as_ref()
    }

    fn is_external_reference(&self) -> (r: Option<bool>) {
        self.is_external_reference
    }

    fn annotations(&self) -> (r: Option<&Vec<Annotation>>) {
        self.annotations.as_ref()
    }

    fn links(&self) -> (r: Option<&Vec<Link>>) {
        self.links.as_ref()
    }
}

impl ItemScheme for GeographyCodelist {
    open spec fn is_partial_spec(&self) -> Option<bool> {
        self.is_partial
    }

    open spec fn items_spec(&self) -> Option<Seq<Item>> {
        match self.geo_feature_set_codes {
            Some(v) => Some(v@),
            None => None,
        }
    }

    fn is_partial(&self) -> (r: Option<bool>) {
        self.is_partial
    }

    fn items(&self) -> (r: Option<&Vec<Item>>) {
        self.geo_feature_set_codes.as_ref()
    }

    fn set_items(&mut self, items: Option<Vec<Item>>) {
        self.geo_feature_set_codes = items;
    }

    fn clear_items(&mut self) {
        self.geo_feature_set_codes = None;
    }

    fn contains_items(&self) -> (r: bool) {
        match &self.geo_feature_set_codes {
            Some(v) => v.len() > 0,
            None => false,
        }
    }
}

/// The item scheme for a geographic grid codelist.
#[derive(Debug, PartialEq)]
pub struct GeoGridCodelist {
    pub id: String,
    pub agency_id: Option<String>,
    pub version: Option<String>,
    pub name: Option<String>,
    pub names: Option<LocalizedText>,
    pub valid_from: Option<String>,
    pub valid_to: Option<String>,
    pub is_external_reference: Option<bool>,
    pub annotations: Option<Vec<Annotation>>,
    pub links: Option<Vec<Link>>,
    pub is_partial: Option<bool>,
    pub geo_grid_codes: Option<Vec<Item>>,
    pub other: Extensions,
}

pub open spec fn geo_grid_codelist_names() -> Seq<Seq<char>> {
    seq!["id"@, "agencyId"@, "version"@, "name"@, "names"@, "validFrom"@, "validTo"@, "isExternalReference"@, "annotations"@, "links"@, "isPartial"@, "geoGridCodes"@]
}

pub open spec fn geo_grid_codelist_pairs(x: GeoGridCodelist) -> Seq<(Seq<char>, Option<JVal>)> {
    seq![
        ("id"@, Some(JVal::Str(x.id@))),
        ("agencyId"@, jv_of_ostr(ostr_view(x.agency_id))),
        ("version"@, jv_of_ostr(ostr_view(x.version))),
        ("name"@, jv_of_ostr(ostr_view(x.name))),
        ("names"@, orec_ser(x.names)),
        ("validFrom"@, jv_of_ostr(ostr_view(x.valid_from))),
        ("validTo"@, jv_of_ostr(ostr_view(x.valid_to))),
        ("isExternalReference"@, jv_of_obool(x.is_external_reference)),
        ("annotations"@, ovec_ser(x.annotations)),
        ("links"@, ovec_ser(x.links)),
        ("isPartial"@, jv_of_obool(x.is_partial)),
        ("geoGridCodes"@, ovec_ser(x.geo_grid_codes)),
    ]
}

pub open spec fn geo_grid_codelist_norm_pairs(fs: Seq<(Seq<char>, JVal)>) -> Seq<(Seq<char>, Option<JVal>)> {
    seq![
        ("id"@, jv_of_ostr(opt_str(jv_get(fs, "id"@)))),
        ("agencyId"@, jv_of_ostr(opt_str(jv_get(fs, "agencyId"@)))),
        ("version"@, jv_of_ostr(opt_str(jv_get(fs, "version"@)))),
        ("name"@, jv_of_ostr(opt_str(jv_get(fs, "name"@)))),
        ("names"@, opt_rec_norm::<LocalizedText>(jv_get(fs, "names"@))),
        ("validFrom"@, jv_of_ostr(opt_str(jv_get(fs, "validFrom"@)))),
        ("validTo"@, jv_of_ostr(opt_str(jv_get(fs, "validTo"@)))),
        ("isExternalReference"@, jv_of_obool(opt_bool(jv_get(fs, "isExternalReference"@)))),
        ("annotations"@, opt_recarr_norm::<Annotation>(jv_get(fs, "annotations"@))),
        ("links"@, opt_recarr_norm::<Link>(jv_get(fs, "links"@))),
        ("isPartial"@, jv_of_obool(opt_bool(jv_get(fs, "isPartial"@)))),
        ("geoGridCodes"@, opt_recarr_norm::<Item>(jv_get(fs, "geoGridCodes"@))),
    ]
}

/// The names this record knows are pairwise distinct.
pub proof fn lemma_geo_grid_codelist_names_distinct()
    ensures
        forall|i: int, j: int|
            0 <= i < j < geo_grid_codelist_names().len() ==> geo_grid_codelist_names()[i] != geo_grid_codelist_names()[j],
{
    reveal_strlit("id");
    reveal_strlit("agencyId");
    reveal_strlit("version");
    reveal_strlit("name");
    reveal_strlit("names");
    reveal_strlit("validFrom");
    reveal_strlit("validTo");
    reveal_strlit("isExternalReference");
    reveal_strlit("annotations");
    reveal_strlit("links");
    reveal_strlit("isPartial");
    reveal_strlit("geoGridCodes");
    let ns = geo_grid_codelist_names();
    assert(ns.len() == 12);
    assert forall|i: int, j: int| 0 <= i < j < ns.len() implies ns[i] != ns[j] by {
        assert("id"@.len() == 2);
        assert("agencyId"@.len() == 8);
        assert("version"@.len() == 7);
        assert("name"@.len() == 4);
        assert("names"@.len() == 5);
        assert("validFrom"@.len() == 9);
        assert("validTo"@.len() == 7);
        assert("isExternalReference"@.len() == 19);
        assert("annotations"@.len() == 11);
        assert("links"@.len() == 5);
        assert("isPartial"@.len() == 9);
        assert("geoGridCodes"@.len() == 12);
        assert("version"@[1] == 'e');
        assert("validTo"@[1] == 'a');
        assert("names"@[0] == 'n');
        assert("links"@[0] == 'l');
        assert("validFrom"@[0] == 'v');
        assert("isPartial"@[0] == 'i');
    }
}

impl JsonForm for GeoGridCodelist {
    open spec fn wf(&self) -> bool {
        &&& ext_ok(self.other.view_fields(), geo_grid_codelist_names())
        &&& crate::fields::window_le(ostr_view(self.valid_from), ostr_view(self.valid_to))
        &&& orec_wf(self.names)
        &&& ovec_wf(self.annotations)
        &&& ovec_wf(self.links)
        &&& ovec_wf(self.geo_grid_codes)
    }

    open spec fn ser(&self) -> JVal {
        JVal::Obj(present_fields(geo_grid_codelist_pairs(*self)) + self.other.view_fields())
    }

    open spec fn doc_ok(v: JVal) -> bool {
        &&& v is Obj
        &&& {
            let fs = v->Obj_0;
            &&& is_req_str(jv_get(fs, "id"@))
            &&& is_opt_str(jv_get(fs, "agencyId"@))
            &&& is_opt_str(jv_get(fs, "version"@))
            &&& is_opt_str(jv_get(fs, "name"@))
            &&& is_opt_rec::<LocalizedText>(jv_get(fs, "names"@))
            &&& is_opt_str(jv_get(fs, "validFrom"@))
            &&& is_opt_str(jv_get(fs, "validTo"@))
            &&& crate::fields::window_le(
                opt_str(jv_get(fs, "validFrom"@)),
                opt_str(jv_get(fs, "validTo"@)),
            )
            &&& is_opt_bool(jv_get(fs, "isExternalReference"@))
            &&& is_opt_recarr::<Annotation>(jv_get(fs, "annotations"@))
            &&& is_opt_recarr::<Link>(jv_get(fs, "links"@))
            &&& is_opt_bool(jv_get(fs, "isPartial"@))
            &&& is_opt_recarr::<Item>(jv_get(fs, "geoGridCodes"@))
        }
    }

    open spec fn doc_norm(v: JVal) -> JVal {
        JVal::Obj(
            present_fields(geo_grid_codelist_norm_pairs(v->Obj_0)) + ext_fields(v->Obj_0, geo_grid_codelist_names()),
        )
    }

    #[verifier::rlimit(50)]
    fn from_json(v: JsonValue) -> (r: Result<Self, ParseError>) {
        let o = match v {
            JsonValue::Obj(o) => o,
            _ => { return Err(ParseError::NotObject) },
        };
        let ghost fs = jview_field_vec(o);
        let mut bag = FieldBag::new(o);
        proof {
            lemma_geo_grid_codelist_names_distinct();
        }
        proof {
            assert(bag.taken() =~= geo_grid_codelist_names().subrange(0, 0));
            crate::codec::lemma_take_fresh(geo_grid_codelist_names(), 0, bag.taken());
        }
        let id = match get_req_string(bag.take("id"), "id") {
            Ok(x) => x,
            Err(e) => { return Err(e) },
        };
        proof {
            assert(bag.taken() =~= geo_grid_codelist_names().subrange(0, 1));
            crate::codec::lemma_take_fresh(geo_grid_codelist_names(), 1, bag.taken());
        }
        let agency_id = match get_opt_string(bag.take("agencyId"), "agencyId") {
            Ok(x) => x,
            Err(e) => { return Err(e) },
        };
        proof {
            assert(bag.taken() =~= geo_grid_codelist_names().subrange(0, 2));
            crate::codec::lemma_take_fresh(geo_grid_codelist_names(), 2, bag.taken());
        }
        let version = match get_opt_string(bag.take("version"), "version") {
            Ok(x) => x,
            Err(e) => { return Err(e) },
        };
        proof {
            assert(bag.taken() =~= geo_grid_codelist_names().subrange(0, 3));
            crate::codec::lemma_take_fresh(geo_grid_codelist_names(), 3, bag.taken());
        }
        let name = match get_opt_string(bag.take("name"), "name") {
            Ok(x) => x,
            Err(e) => { return Err(e) },
        };
        proof {
            assert(bag.taken() =~= geo_grid_codelist_names().subrange(0, 4));
            crate::codec::lemma_take_fresh(geo_grid_codelist_names(), 4, bag.taken());
        }
        let names = match parse_opt::<LocalizedText>(bag.take("names")) {
            Ok(x) => x,
            Err(e) => { return Err(e) },
        };
        proof {
            assert(bag.taken() =~= geo_grid_codelist_names().subrange(0, 5));
            crate::codec::lemma_take_fresh(geo_grid_codelist_names(), 5, bag.taken());
        }
        let valid_from = match get_opt_string(bag.take("validFrom"), "validFrom") {
            Ok(x) => x,
            Err(e) => { return Err(e) },
        };
        proof {
            assert(bag.taken() =~= geo_grid_codelist_names().subrange(0, 6));
            crate::codec::lemma_take_fresh(geo_grid_codelist_names(), 6, bag.taken());
        }
        let valid_to = match get_opt_string(bag.take("validTo"), "validTo") {
            Ok(x) => x,
            Err(e) => { return Err(e) },
        };
        match (&valid_from, &valid_to) {
            (Some(f), Some(t)) => {
                if !crate::fields::str_le(f.as_str(), t.as_str()) {
                    return Err(
                        ParseError::Shape("validTo".to_owned(), crate::fields::ValueKind::Window),
                    );
                }
            },
            _ => (),
        }
        proof {
            assert(bag.taken() =~= geo_grid_codelist_names().subrange(0, 7));
            crate::codec::lemma_take_fresh(geo_grid_codelist_names(), 7, bag.taken());
        }
        let is_external_reference = match get_opt_bool(bag.take("isExternalReference"), "isExternalReference") {
            Ok(x) => x,
            Err(e) => { return Err(e) },
        };
        proof {
            assert(bag.taken() =~= geo_grid_codelist_names().subrange(0, 8));
            crate::codec::lemma_take_fresh(geo_grid_codelist_names(), 8, bag.taken());
        }
        let annotations = match parse_opt_vec::<Annotation>(bag.take("annotations"), "annotations") {
            Ok(x) => x,
            Err(e) => { return Err(e) },
        };
        proof {
            assert(bag.taken() =~= geo_grid_codelist_names().subrange(0, 9));
            crate::codec::lemma_take_fresh(geo_grid_codelist_names(), 9, bag.taken());
        }
        let links = match parse_opt_vec::<Link>(bag.take("links"), "links") {
            Ok(x) => x,
            Err(e) => { return Err(e) },
        };
        proof {
            assert(bag.taken() =~= geo_grid_codelist_names().subrange(0, 10));
            crate::codec::lemma_take_fresh(geo_grid_codelist_names(), 10, bag.taken());
        }
        let is_partial = match get_opt_bool(bag.take("isPartial"), "isPartial") {
            Ok(x) => x,
            Err(e) => { return Err(e) },
        };
        proof {
            assert(bag.taken() =~= geo_grid_codelist_names().subrange(0, 11));
            crate::codec::lemma_take_fresh(geo_grid_codelist_names(), 11, bag.taken());
        }
        let geo_grid_codes = match parse_opt_vec::<Item>(bag.take("geoGridCodes"), "geoGridCodes") {
            Ok(x) => x,
            Err(e) => { return Err(e) },
        };
        let ghost tk = bag.taken();
        let other = bag.rest();
        let out = GeoGridCodelist { id, agency_id, version, name, names, valid_from, valid_to, is_external_reference, annotations, links, is_partial, geo_grid_codes, other };
        proof {
            assert(tk =~= geo_grid_codelist_names());
            crate::codec::lemma_ext_fields_names(fs, tk);
            assert(geo_grid_codelist_pairs(out) =~= geo_grid_codelist_norm_pairs(fs));
        }
        Ok(out)
    }

    fn to_json(&self) -> (r: JsonValue) {
        let mut b = ObjBuilder::new();
        put_str(&mut b, "id", &self.id);
        put_opt_str(&mut b, "agencyId", &self.agency_id);
        put_opt_str(&mut b, "version", &self.version);
        put_opt_str(&mut b, "name", &self.name);
        put_opt_rec(&mut b, "names", &self.names);
        put_opt_str(&mut b, "validFrom", &self.valid_from);
        put_opt_str(&mut b, "validTo", &self.valid_to);
        put_opt_bool(&mut b, "isExternalReference", &self.is_external_reference);
        put_opt_vec(&mut b, "annotations", &self.annotations);
        put_opt_vec(&mut b, "links", &self.links);
        put_opt_bool(&mut b, "isPartial", &self.is_partial);
        put_opt_vec(&mut b, "geoGridCodes", &self.geo_grid_codes);
        proof {
            let ps = geo_grid_codelist_pairs(*self);
            lemma_pairs_chain(ps, 12);
            assert(ps.subrange(0, 12) =~= ps);
            assert(b.view_fields() == present_fields(ps)) by {
                reveal_with_fuel(pairs_prefix_chunks, 13);
            }
        }
        finish_with_ext(b, &self.other)
    }

    #[verifier::rlimit(50)]
    #[verifier::spinoff_prover]
    proof fn lemma_canon(&self) {
        lemma_geo_grid_codelist_names_distinct();
        let ps = geo_grid_codelist_pairs(*self);
        let ext = self.other.view_fields();
        assert(names_of(ps) =~= geo_grid_codelist_names());
        assert(distinct_names(ps)) by {
            assert forall|i: int, j: int|
                0 <= i < j < ps.len() implies ps[i].0 != ps[j].0 by {
                assert(ps[i].0 == geo_grid_codelist_names()[i]);
                assert(ps[j].0 == geo_grid_codelist_names()[j]);
            }
        }
        assert(disjoint_from(ext, ps)) by {
            assert forall|i: int, j: int|
                0 <= i < ext.len() && 0 <= j < ps.len() implies ext[i].0 != ps[j].0 by {
                assert(!is_known_name(ext[i].0, geo_grid_codelist_names()));
                assert(geo_grid_codelist_names()[j] == ps[j].0);
            }
        }
        lemma_jv_get_present(ps, ext);
        lemma_ext_of_present(ps, ext);
        let fs = self.ser()->Obj_0;
        assert(jv_get(fs, "id"@) == ps[0].1);
        assert(jv_get(fs, "agencyId"@) == ps[1].1);
        assert(jv_get(fs, "version"@) == ps[2].1);
        assert(jv_get(fs, "name"@) == ps[3].1);
        assert(jv_get(fs, "names"@) == ps[4].1);
        assert(jv_get(fs, "validFrom"@) == ps[5].1);
        assert(jv_get(fs, "validTo"@) == ps[6].1);
        assert(jv_get(fs, "isExternalReference"@) == ps[7].1);
        assert(jv_get(fs, "annotations"@) == ps[8].1);
        assert(jv_get(fs, "links"@) == ps[9].1);
        assert(jv_get(fs, "isPartial"@) == ps[10].1);
        assert(jv_get(fs, "geoGridCodes"@) == ps[11].1);
        match self.names {
            Some(t) => {
                t.lemma_canon();
            },
            None => {},
        }
        match &self.annotations {
            Some(v) => {
                lemma_arr_canon::<Annotation>(v@);
            },
            None => {},
        }
        match &self.links {
            Some(v) => {
                lemma_arr_canon::<Link>(v@);
            },
            None => {},
        }
        match &self.geo_grid_codes {
            Some(v) => {
                lemma_arr_canon::<Item>(v@);
            },
            None => {},
        }
        assert(Self::doc_ok(self.ser()));
        assert(geo_grid_codelist_norm_pairs(fs) =~= ps);
        assert(ext_fields(fs, names_of(ps)) == ext);
        assert(ext_fields(fs, geo_grid_codelist_names()) == ext);
    }
}

impl Artefact for GeoGridCodelist {
    open spec fn id_spec(&self) -> Seq<char> {
        self.id@
    }

    open spec fn agency_id_spec(&self) -> Option<Seq<char>> {
        ostr_view(self.agency_id)
    }

    open spec fn version_spec(&self) -> Option<Seq<char>> {
        ostr_view(self.version)
    }

    open spec fn name_spec(&self) -> Option<Seq<char>> {
        ostr_view(self.name)
    }

    open spec fn names_spec(&self) -> Option<LocalizedText> {
        self.names
    }

    open spec fn valid_from_spec(&self) -> Option<Seq<char>> {
        ostr_view(self.valid_from)
    }

    open spec fn valid_to_spec(&self) -> Option<Seq<char>> {
        ostr_view(self.valid_to)
    }

    open spec fn is_external_reference_spec(&self) -> Option<bool> {
        self.is_external_reference
    }

    open spec fn annotations_spec(&self) -> Option<Seq<Annotation>> {
        match self.annotations {
            Some(v) => Some(v@),
            None => None,
        }
    }

    open spec fn links_spec(&self) -> Option<Seq<Link>> {
        match self.links {
            Some(v) => Some(v@),
            None => None,
        }
    }

    fn id(&self) -> (r: &String) {
        &self.id
    }

    fn agency_id(&self) -> (r: Option<&String>) {
        self.agency_id.as_ref()
    }

    fn version(&self) -> (r: Option<&String>) {
        self.version.as_ref()
    }

    fn name(&self) -> (r: Option<&String>) {
        self.name.as_ref()
    }

    fn names(&self) -> (r: Option<&LocalizedText>) {
        self.names.as_ref()
    }

    fn valid_from(&self) -> (r: Option<&String>) {
        self.valid_from.as_ref()
    }

    fn valid_to(&self) -> (r: Option<&String>) {
        self.valid_to.as_ref()
    }

    fn is_external_reference(&self) -> (r: Option<bool>) {
        self.is_external_reference
    }

    fn annotations(&self) -> (r: Option<&Vec<Annotation>>) {
        self.annotations.as_ref()
    }

    fn links(&self) -> (r: Option<&Vec<Link>>) {
        self.links.as_ref()
    }
}

impl ItemScheme for GeoGridCodelist {
    open spec fn is_partial_spec(&self) -> Option<bool> {
        self.is_partial
    }

    open spec fn items_spec(&self) -> Option<Seq<Item>> {
        match self.geo_grid_codes {
            Some(v) => Some(v@),
            None => None,
        }
    }

    fn is_partial(&self) -> (r: Option<bool>) {
        self.is_partial
    }

    fn items(&self) -> (r: Option<&Vec<Item>>) {
        self.geo_grid_codes.as_ref()
    }

    fn set_items(&mut self, items: Option<Vec<Item>>) {
        self.geo_grid_codes = items;
    }

    fn clear_items(&mut self) {
        self.geo_grid_codes = None;
    }

    fn contains_items(&self) -> (r: bool) {
        match &self.geo_grid_codes {
            Some(v) => v.len() > 0,
            None => false,
        }
    }
}

/// The item scheme for an agency.
#[derive(Debug, PartialEq)]
pub struct AgencyScheme {
    pub id: String,
    pub agency_id: Option<String>,
    pub version: Option<String>,
    pub name: Option<String>,
    pub names: Option<LocalizedText>,
    pub valid_from: Option<String>,
    pub valid_to: Option<String>,
    pub is_external_reference: Option<bool>,
    pub annotations: Option<Vec<Annotation>>,
    pub links: Option<Vec<Link>>,
    pub is_partial: Option<bool>,
    pub agencies: Option<Vec<Item>>,
    pub other: Extensions,
}

pub open spec fn agency_scheme_names() -> Seq<Seq<char>> {
    seq!["id"@, "agencyId"@, "version"@, "name"@, "names"@, "validFrom"@, "validTo"@, "isExternalReference"@, "annotations"@, "links"@, "isPartial"@, "agencies"@]
}

pub open spec fn agency_scheme_pairs(x: AgencyScheme) -> Seq<(Seq<char>, Option<JVal>)> {
    seq![
        ("id"@, Some(JVal::Str(x.id@))),
        ("agencyId"@, jv_of_ostr(ostr_view(x.agency_id))),
        ("version"@, jv_of_ostr(ostr_view(x.version))),
        ("name"@, jv_of_ostr(ostr_view(x.name))),
        ("names"@, orec_ser(x.names)),
        ("validFrom"@, jv_of_ostr(ostr_view(x.valid_from))),
        ("validTo"@, jv_of_ostr(ostr_view(x.valid_to))),
        ("isExternalReference"@, jv_of_obool(x.is_external_reference)),
        ("annotations"@, ovec_ser(x.annotations)),
        ("links"@, ovec_ser(x.links)),
        ("isPartial"@, jv_of_obool(x.is_partial)),
        ("agencies"@, ovec_ser(x.agencies)),
    ]
}

pub open spec fn agency_scheme_norm_pairs(fs: Seq<(Seq<char>, JVal)>) -> Seq<(Seq<char>, Option<JVal>)> {
    seq![
        ("id"@, jv_of_ostr(opt_str(jv_get(fs, "id"@)))),
        ("agencyId"@, jv_of_ostr(opt_str(jv_get(fs, "agencyId"@)))),
        ("version"@, jv_of_ostr(opt_str(jv_get(fs, "version"@)))),
        ("name"@, jv_of_ostr(opt_str(jv_get(fs, "name"@)))),
        ("names"@, opt_rec_norm::<LocalizedText>(jv_get(fs, "names"@))),
        ("validFrom"@, jv_of_ostr(opt_str(jv_get(fs, "validFrom"@)))),
        ("validTo"@, jv_of_ostr(opt_str(jv_get(fs, "validTo"@)))),
        ("isExternalReference"@, jv_of_obool(opt_bool(jv_get(fs, "isExternalReference"@)))),
        ("annotations"@, opt_recarr_norm::<Annotation>(jv_get(fs, "annotations"@))),
        ("links"@, opt_recarr_norm::<Link>(jv_get(fs, "links"@))),
        ("isPartial"@, jv_of_obool(opt_bool(jv_get(fs, "isPartial"@)))),
        ("agencies"@, opt_recarr_norm::<Item>(jv_get(fs, "agencies"@))),
    ]
}

/// The names this record knows are pairwise distinct.
pub proof fn lemma_agency_scheme_names_distinct()
    ensures
        forall|i: int, j: int|
            0 <= i < j < agency_scheme_names().len() ==> agency_scheme_names()[i] != agency_scheme_names()[j],
{
    reveal_strlit("id");
    reveal_strlit("agencyId");
    reveal_strlit("version");
    reveal_strlit("name");
    reveal_strlit("names");
    reveal_strlit("validFrom");
    reveal_strlit("validTo");
    reveal_strlit("isExternalReference");
    reveal_strlit("annotations");
    reveal_strlit("links");
    reveal_strlit("isPartial");
    reveal_strlit("agencies");
    let ns = agency_scheme_names();
    assert(ns.len() == 12);
    assert forall|i: int, j: int| 0 <= i < j < ns.len() implies ns[i] != ns[j] by {
        assert("id"@.len() == 2);
        assert("agencyId"@.len() == 8);
        assert("version"@.len() == 7);
        assert("name"@.len() == 4);
        assert("names"@.len() == 5);
        assert("validFrom"@.len() == 9);
        assert("validTo"@.len() == 7);
        assert("isExternalReference"@.len() == 19);
        assert("annotations"@.len() == 11);
        assert("links"@.len() == 5);
        assert("isPartial"@.len() == 9);
        assert("agencies"@.len() == 8);
        assert("agencyId"@[5] == 'y');
        assert("agencies"@[5] == 'i');
        assert("version"@[1] == 'e');
        assert("validTo"@[1] == 'a');
        assert("names"@[0] == 'n');
        assert("links"@[0] == 'l');
        assert("validFrom"@[0] == 'v');
        assert("isPartial"@[0] == 'i');
    }
}

impl JsonForm for AgencyScheme {
    open spec fn wf(&self) -> bool {
        &&& ext_ok(self.other.view_fields(), agency_scheme_names())
        &&& crate::fields::window_le(ostr_view(self.valid_from), ostr_view(self.valid_to))
        &&& orec_wf(self.names)
        &&& ovec_wf(self.annotations)
        &&& ovec_wf(self.links)
        &&& ovec_wf(self.agencies)
    }

    open spec fn ser(&self) -> JVal {
        JVal::Obj(present_fields(agency_scheme_pairs(*self)) + self.other.view_fields())
    }

    open spec fn doc_ok(v: JVal) -> bool {
        &&& v is Obj
        &&& {
            let fs = v->Obj_0;
            &&& is_req_str(jv_get(fs, "id"@))
            &&& is_opt_str(jv_get(fs, "agencyId"@))
            &&& is_opt_str(jv_get(fs, "version"@))
            &&& is_opt_str(jv_get(fs, "name"@))
            &&& is_opt_rec::<LocalizedText>(jv_get(fs, "names"@))
            &&& is_opt_str(jv_get(fs, "validFrom"@))
            &&& is_opt_str(jv_get(fs, "validTo"@))
            &&& crate::fields::window_le(
                opt_str(jv_get(fs, "validFrom"@)),
                opt_str(jv_get(fs, "validTo"@)),
            )
            &&& is_opt_bool(jv_get(fs, "isExternalReference"@))
            &&& is_opt_recarr::<Annotation>(jv_get(fs, "annotations"@))
            &&& is_opt_recarr::<Link>(jv_get(fs, "links"@))
            &&& is_opt_bool(jv_get(fs, "isPartial"@))
            &&& is_opt_recarr::<Item>(jv_get(fs, "agencies"@))
        }
    }

    open spec fn doc_norm(v: JVal) -> JVal {
        JVal::Obj(
            present_fields(agency_scheme_norm_pairs(v->Obj_0)) + ext_fields(v->Obj_0, agency_scheme_names()),
        )
    }

    #[verifier::rlimit(50)]
    fn from_json(v: JsonValue) -> (r: Result<Self, ParseError>) {
        let o = match v {
            JsonValue::Obj(o) => o,
            _ => { return Err(ParseError::NotObject) },
        };
        let ghost fs = jview_field_vec(o);
        let mut bag = FieldBag::new(o);
        proof {
            lemma_agency_scheme_names_distinct();
        }
        proof {
            assert(bag.taken() =~= agency_scheme_names().subrange(0, 0));
            crate::codec::lemma_take_fresh(agency_scheme_names(), 0, bag.taken());
        }
        let id = match get_req_string(bag.take("id"), "id") {
            Ok(x) => x,
            Err(e) => { return Err(e) },
        };
        proof {
            assert(bag.taken() =~= agency_scheme_names().subrange(0, 1));
            crate::codec::lemma_take_fresh(agency_scheme_names(), 1, bag.taken());
        }
        let agency_id = match get_opt_string(bag.take("agencyId"), "agencyId") {
            Ok(x) => x,
            Err(e) => { return Err(e) },
        };
        proof {
            assert(bag.taken() =~= agency_scheme_names().subrange(0, 2));
            crate::codec::lemma_take_fresh(agency_scheme_names(), 2, bag.taken());
        }
        let version = match get_opt_string(bag.take("version"), "version") {
            Ok(x) => x,
            Err(e) => { return Err(e) },
        };
        proof {
            assert(bag.taken() =~= agency_scheme_names().subrange(0, 3));
            crate::codec::lemma_take_fresh(agency_scheme_names(), 3, bag.taken());
        }
        let name = match get_opt_string(bag.take("name"), "name") {
            Ok(x) => x,
            Err(e) => { return Err(e) },
        };
        proof {
            assert(bag.taken() =~= agency_scheme_names().subrange(0, 4));
            crate::codec::lemma_take_fresh(agency_scheme_names(), 4, bag.taken());
        }
        let names = match parse_opt::<LocalizedText>(bag.take("names")) {
            Ok(x) => x,
            Err(e) => { return Err(e) },
        };
        proof {
            assert(bag.taken() =~= agency_scheme_names().subrange(0, 5));
            crate::codec::lemma_take_fresh(agency_scheme_names(), 5, bag.taken());
        }
        let valid_from = match get_opt_string(bag.take("validFrom"), "validFrom") {
            Ok(x) => x,
            Err(e) => { return Err(e) },
        };
        proof {
            assert(bag.taken() =~= agency_scheme_names().subrange(0, 6));
            crate::codec::lemma_take_fresh(agency_scheme_names(), 6, bag.taken());
        }
        let valid_to = match get_opt_string(bag.take("validTo"), "validTo") {
            Ok(x) => x,
            Err(e) => { return Err(e) },
        };
        match (&valid_from, &valid_to) {
            (Some(f), Some(t)) => {
                if !crate::fields::str_le(f.as_str(), t.as_str()) {
                    return Err(
                        ParseError::Shape("validTo".to_owned(), crate::fields::ValueKind::Window),
                    );
                }
            },
            _ => (),
        }
        proof {
            assert(bag.taken() =~= agency_scheme_names().subrange(0, 7));
            crate::codec::lemma_take_fresh(agency_scheme_names(), 7, bag.taken());
        }
        let is_external_reference = match get_opt_bool(bag.take("isExternalReference"), "isExternalReference") {
            Ok(x) => x,
            Err(e) => { return Err(e) },
        };
        proof {
            assert(bag.taken() =~= agency_scheme_names().subrange(0, 8));
            crate::codec::lemma_take_fresh(agency_scheme_names(), 8, bag.taken());
        }
        let annotations = match parse_opt_vec::<Annotation>(bag.take("annotations"), "annotations") {
            Ok(x) => x,
            Err(e) => { return Err(e) },
        };
        proof {
            assert(bag.taken() =~= agency_scheme_names().subrange(0, 9));
            crate::codec::lemma_take_fresh(agency_scheme_names(), 9, bag.taken());
        }
        let links = match parse_opt_vec::<Link>(bag.take("links"), "links") {
            Ok(x) => x,
            Err(e) => { return Err(e) },
        };
        proof {
            assert(bag.taken() =~= agency_scheme_names().subrange(0, 10));
            crate::codec::lemma_take_fresh(agency_scheme_names(), 10, bag.taken());
        }
        let is_partial = match get_opt_bool(bag.take("isPartial"), "isPartial") {
            Ok(x) => x,
            Err(e) => { return Err(e) },
        };
        proof {
            assert(bag.taken() =~= agency_scheme_names().subrange(0, 11));
            crate::codec::lemma_take_fresh(agency_scheme_names(), 11, bag.taken());
        }
        let agencies = match parse_opt_vec::<Item>(bag.take("agencies"), "agencies") {
            Ok(x) => x,
            Err(e) => { return Err(e) },
        };
        let ghost tk = bag.taken();
        let other = bag.rest();
        let out = AgencyScheme { id, agency_id, version, name, names, valid_from, valid_to, is_external_reference, annotations, links, is_partial, agencies, other };
        proof {
            assert(tk =~= agency_scheme_names());
            crate::codec::lemma_ext_fields_names(fs, tk);
            assert(agency_scheme_pairs(out) =~= agency_scheme_norm_pairs(fs));
        }
        Ok(out)
    }

    fn to_json(&self) -> (r: JsonValue) {
        let mut b = ObjBuilder::new();
        put_str(&mut b, "id", &self.id);
        put_opt_str(&mut b, "agencyId", &self.agency_id);
        put_opt_str(&mut b, "version", &self.version);
        put_opt_str(&mut b, "name", &self.name);
        put_opt_rec(&mut b, "names", &self.names);
        put_opt_str(&mut b, "validFrom", &self.valid_from);
        put_opt_str(&mut b, "validTo", &self.valid_to);
        put_opt_bool(&mut b, "isExternalReference", &self.is_external_reference);
        put_opt_vec(&mut b, "annotations", &self.annotations);
        put_opt_vec(&mut b, "links", &self.links);
        put_opt_bool(&mut b, "isPartial", &self.is_partial);
        put_opt_vec(&mut b, "agencies", &self.agencies);
        proof {
            let ps = agency_scheme_pairs(*self);
            lemma_pairs_chain(ps, 12);
            assert(ps.subrange(0, 12) =~= ps);
            assert(b.view_fields() == present_fields(ps)) by {
                reveal_with_fuel(pairs_prefix_chunks, 13);
            }
        }
        finish_with_ext(b, &self.other)
    }

    #[verifier::rlimit(50)]
    #[verifier::spinoff_prover]
    proof fn lemma_canon(&self) {
        lemma_agency_scheme_names_distinct();
        let ps = agency_scheme_pairs(*self);
        let ext = self.other.view_fields();
        assert(names_of(ps) =~= agency_scheme_names());
        assert(distinct_names(ps)) by {
            assert forall|i: int, j: int|
                0 <= i < j < ps.len() implies ps[i].0 != ps[j].0 by {
                assert(ps[i].0 == agency_scheme_names()[i]);
                assert(ps[j].0 == agency_scheme_names()[j]);
            }
        }
        assert(disjoint_from(ext, ps)) by {
            assert forall|i: int, j: int|
                0 <= i < ext.len() && 0 <= j < ps.len() implies ext[i].0 != ps[j].0 by {
                assert(!is_known_name(ext[i].0, agency_scheme_names()));
                assert(agency_scheme_names()[j] == ps[j].0);
            }
        }
        lemma_jv_get_present(ps, ext);
        lemma_ext_of_present(ps, ext);
        let fs = self.ser()->Obj_0;
        assert(jv_get(fs, "id"@) == ps[0].1);
        assert(jv_get(fs, "agencyId"@) == ps[1].1);
        assert(jv_get(fs, "version"@) == ps[2].1);
        assert(jv_get(fs, "name"@) == ps[3].1);
        assert(jv_get(fs, "names"@) == ps[4].1);
        assert(jv_get(fs, "validFrom"@) == ps[5].1);
        assert(jv_get(fs, "validTo"@) == ps[6].1);
        assert(jv_get(fs, "isExternalReference"@) == ps[7].1);
        assert(jv_get(fs, "annotations"@) == ps[8].1);
        assert(jv_get(fs, "links"@) == ps[9].1);
        assert(jv_get(fs, "isPartial"@) == ps[10].1);
        assert(jv_get(fs, "agencies"@) == ps[11].1);
        match self.names {
            Some(t) => {
                t.lemma_canon();
            },
            None => {},
        }
        match &self.annotations {
            Some(v) => {
                lemma_arr_canon::<Annotation>(v@);
            },
            None => {},
        }
        match &self.links {
            Some(v) => {
                lemma_arr_canon::<Link>(v@);
            },
            None => {},
        }
        match &self.agencies {
            Some(v) => {
                lemma_arr_canon::<Item>(v@);
            },
            None => {},
        }
        assert(Self::doc_ok(self.ser()));
        assert(agency_scheme_norm_pairs(fs) =~= ps);
        assert(ext_fields(fs, names_of(ps)) == ext);
        assert(ext_fields(fs, agency_scheme_names()) == ext);
    }
}

impl Artefact for AgencyScheme {
    open spec fn id_spec(&self) -> Seq<char> {
        self.id@
    }

    open spec fn agency_id_spec(&self) -> Option<Seq<char>> {
        ostr_view(self.agency_id)
    }

    open spec fn version_spec(&self) -> Option<Seq<char>> {
        ostr_view(self.version)
    }

    open spec fn name_spec(&self) -> Option<Seq<char>> {
        ostr_view(self.name)
    }

    open spec fn names_spec(&self) -> Option<LocalizedText> {
        self.names
    }

    open spec fn valid_from_spec(&self) -> Option<Seq<char>> {
        ostr_view(self.valid_from)
    }

    open spec fn valid_to_spec(&self) -> Option<Seq<char>> {
        ostr_view(self.valid_to)
    }

    open spec fn is_external_reference_spec(&self) -> Option<bool> {
        self.is_external_reference
    }

    open spec fn annotations_spec(&self) -> Option<Seq<Annotation>> {
        match self.annotations {
            Some(v) => Some(v@),
            None => None,
        }
    }

    open spec fn links_spec(&self) -> Option<Seq<Link>> {
        match self.links {
            Some(v) => Some(v@),
            None => None,
        }
    }

    fn id(&self) -> (r: &String) {
        &self.id
    }

    fn agency_id(&self) -> (r: Option<&String>) {
        self.agency_id.as_ref()
    }

    fn version(&self) -> (r: Option<&String>) {
        self.version.as_ref()
    }

    fn name(&self) -> (r: Option<&String>) {
        self.name.as_ref()
    }

    fn names(&self) -> (r: Option<&LocalizedText>) {
        self.names.as_ref()
    }

    fn valid_from(&self) -> (r: Option<&String>) {
        self.valid_from.as_ref()
    }

    fn valid_to(&self) -> (r: Option<&String>) {
        self.valid_to.as_ref()
    }

    fn is_external_reference(&self) -> (r: Option<bool>) {
        self.is_external_reference
    }

    fn annotations(&self) -> (r: Option<&Vec<Annotation>>) {
        self.annotations.as_ref()
    }

    fn links(&self) -> (r: Option<&Vec<Link>>) {
        self.links.as_ref()
    }
}

impl ItemScheme for AgencyScheme {
    open spec fn is_partial_spec(&self) -> Option<bool> {
        self.is_partial
    }

    open spec fn items_spec(&self) -> Option<Seq<Item>> {
        match self.agencies {
            Some(v) => Some(v@),
            None => None,
        }
    }

    fn is_partial(&self) -> (r: Option<bool>) {
        self.is_partial
    }

    fn items(&self) -> (r: Option<&Vec<Item>>) {
        self.agencies.as_ref()
    }

    fn set_items(&mut self, items: Option<Vec<Item>>) {
        self.agencies = items;
    }

    fn clear_items(&mut self) {
        self.agencies = None;
    }

    fn contains_items(&self) -> (r: bool) {
        match &self.agencies {
            Some(v) => v.len() > 0,
            None => false,
        }
    }
}

/// The item scheme for a data provider.
#[derive(Debug, PartialEq)]
pub struct DataProviderScheme {
    pub id: String,
    pub agency_id: Option<String>,
    pub version: Option<String>,
    pub name: Option<String>,
    pub names: Option<LocalizedText>,
    pub valid_from: Option<String>,
    pub valid_to: Option<String>,
    pub is_external_reference: Option<bool>,
    pub annotations: Option<Vec<Annotation>>,
    pub links: Option<Vec<Link>>,
    pub is_partial: Option<bool>,
    pub data_providers: Option<Vec<Item>>,
    pub other: Extensions,
}

pub open spec fn data_provider_scheme_names() -> Seq<Seq<char>> {
    seq!["id"@, "agencyId"@, "version"@, "name"@, "names"@, "validFrom"@, "validTo"@, "isExternalReference"@, "annotations"@, "links"@, "isPartial"@, "dataProviders"@]
}

pub open spec fn data_provider_scheme_pairs(x: DataProviderScheme) -> Seq<(Seq<char>, Option<JVal>)> {
    seq![
        ("id"@, Some(JVal::Str(x.id@))),
        ("agencyId"@, jv_of_ostr(ostr_view(x.agency_id))),
        ("version"@, jv_of_ostr(ostr_view(x.version))),
        ("name"@, jv_of_ostr(ostr_view(x.name))),
        ("names"@, orec_ser(x.names)),
        ("validFrom"@, jv_of_ostr(ostr_view(x.valid_from))),
        ("validTo"@, jv_of_ostr(ostr_view(x.valid_to))),
        ("isExternalReference"@, jv_of_obool(x.is_external_reference)),
        ("annotations"@, ovec_ser(x.annotations)),
        ("links"@, ovec_ser(x.links)),
        ("isPartial"@, jv_of_obool(x.is_partial)),
        ("dataProviders"@, ovec_ser(x.data_providers)),
    ]
}

pub open spec fn data_provider_scheme_norm_pairs(fs: Seq<(Seq<char>, JVal)>) -> Seq<(Seq<char>, Option<JVal>)> {
    seq![
        ("id"@, jv_of_ostr(opt_str(jv_get(fs, "id"@)))),
        ("agencyId"@, jv_of_ostr(opt_str(jv_get(fs, "agencyId"@)))),
        ("version"@, jv_of_ostr(opt_str(jv_get(fs, "version"@)))),
        ("name"@, jv_of_ostr(opt_str(jv_get(fs, "name"@)))),
        ("names"@, opt_rec_norm::<LocalizedText>(jv_get(fs, "names"@))),
        ("validFrom"@, jv_of_ostr(opt_str(jv_get(fs, "validFrom"@)))),
        ("validTo"@, jv_of_ostr(opt_str(jv_get(fs, "validTo"@)))),
        ("isExternalReference"@, jv_of_obool(opt_bool(jv_get(fs, "isExternalReference"@)))),
        ("annotations"@, opt_recarr_norm::<Annotation>(jv_get(fs, "annotations"@))),
        ("links"@, opt_recarr_norm::<Link>(jv_get(fs, "links"@))),
        ("isPartial"@, jv_of_obool(opt_bool(jv_get(fs, "isPartial"@)))),
        ("dataProviders"@, opt_recarr_norm::<Item>(jv_get(fs, "dataProviders"@))),
    ]
}

/// The names this record knows are pairwise distinct.
pub proof fn lemma_data_provider_scheme_names_distinct()
    ensures
        forall|i: int, j: int|
            0 <= i < j < data_provider_scheme_names().len() ==> data_provider_scheme_names()[i] != data_provider_scheme_names()[j],
{
    reveal_strlit("id");
    reveal_strlit("agencyId");
    reveal_strlit("version");
    reveal_strlit("name");
    reveal_strlit("names");
    reveal_strlit("validFrom");
    reveal_strlit("validTo");
    reveal_strlit("isExternalReference");
    reveal_strlit("annotations");
    reveal_strlit("links");
    reveal_strlit("isPartial");
    reveal_strlit("dataProviders");
    let ns = data_provider_scheme_names();
    assert(ns.len() == 12);
    assert forall|i: int, j: int| 0 <= i < j < ns.len() implies ns[i] != ns[j] by {
        assert("id"@.len() == 2);
        assert("agencyId"@.len() == 8);
        assert("version"@.len() == 7);
        assert("name"@.len() == 4);
        assert("names"@.len() == 5);
        assert("validFrom"@.len() == 9);
        assert("validTo"@.len() == 7);
        assert("isExternalReference"@.len() == 19);
        assert("annotations"@.len() == 11);
        assert("links"@.len() == 5);
        assert("isPartial"@.len() == 9);
        assert("dataProviders"@.len() == 13);
        assert("version"@[1] == 'e');
        assert("validTo"@[1] == 'a');
        assert("names"@[0] == 'n');
        assert("links"@[0] == 'l');
        assert("validFrom"@[0] == 'v');
        assert("isPartial"@[0] == 'i');
    }
}

impl JsonForm for DataProviderScheme {
    open spec fn wf(&self) -> bool {
        &&& ext_ok(self.other.view_fields(), data_provider_scheme_names())
        &&& crate::fields::window_le(ostr_view(self.valid_from), ostr_view(self.valid_to))
        &&& orec_wf(self.names)
        &&& ovec_wf(self.annotations)
        &&& ovec_wf(self.links)
        &&& ovec_wf(self.data_providers)
    }

    open spec fn ser(&self) -> JVal {
        JVal::Obj(present_fields(data_provider_scheme_pairs(*self)) + self.other.view_fields())
    }

    open spec fn doc_ok(v: JVal) -> bool {
        &&& v is Obj
        &&& {
            let fs = v->Obj_0;
            &&& is_req_str(jv_get(fs, "id"@))
            &&& is_opt_str(jv_get(fs, "agencyId"@))
            &&& is_opt_str(jv_get(fs, "version"@))
            &&& is_opt_str(jv_get(fs, "name"@))
            &&& is_opt_rec::<LocalizedText>(jv_get(fs, "names"@))
            &&& is_opt_str(jv_get(fs, "validFrom"@))
            &&& is_opt_str(jv_get(fs, "validTo"@))
            &&& crate::fields::window_le(
                opt_str(jv_get(fs, "validFrom"@)),
                opt_str(jv_get(fs, "validTo"@)),
            )
            &&& is_opt_bool(jv_get(fs, "isExternalReference"@))
            &&& is_opt_recarr::<Annotation>(jv_get(fs, "annotations"@))
            &&& is_opt_recarr::<Link>(jv_get(fs, "links"@))
            &&& is_opt_bool(jv_get(fs, "isPartial"@))
            &&& is_opt_recarr::<Item>(jv_get(fs, "dataProviders"@))
        }
    }

    open spec fn doc_norm(v: JVal) -> JVal {
        JVal::Obj(
            present_fields(data_provider_scheme_norm_pairs(v->Obj_0)) + ext_fields(v->Obj_0, data_provider_scheme_names()),
        )
    }

    #[verifier::rlimit(50)]
    fn from_json(v: JsonValue) -> (r: Result<Self, ParseError>) {
        let o = match v {
            JsonValue::Obj(o) => o,
            _ => { return Err(ParseError::NotObject) },
        };
        let ghost fs = jview_field_vec(o);
        let mut bag = FieldBag::new(o);
        proof {
            lemma_data_provider_scheme_names_distinct();
        }
        proof {
            assert(bag.taken() =~= data_provider_scheme_names().subrange(0, 0));
            crate::codec::lemma_take_fresh(data_provider_scheme_names(), 0, bag.taken());
        }
        let id = match get_req_string(bag.take("id"), "id") {
            Ok(x) => x,
            Err(e) => { return Err(e) },
        };
        proof {
            assert(bag.taken() =~= data_provider_scheme_names().subrange(0, 1));
            crate::codec::lemma_take_fresh(data_provider_scheme_names(), 1, bag.taken());
        }
        let agency_id = match get_opt_string(bag.take("agencyId"), "agencyId") {
            Ok(x) => x,
            Err(e) => { return Err(e) },
        };
        proof {
            assert(bag.taken() =~= data_provider_scheme_names().subrange(0, 2));
            crate::codec::lemma_take_fresh(data_provider_scheme_names(), 2, bag.taken());
        }
        let version = match get_opt_string(bag.take("version"), "version") {
            Ok(x) => x,
            Err(e) => { return Err(e) },
        };
        proof {
            assert(bag.taken() =~= data_provider_scheme_names().subrange(0, 3));
            crate::codec::lemma_take_fresh(data_provider_scheme_names(), 3, bag.taken());
        }
        let name = match get_opt_string(bag.take("name"), "name") {
            Ok(x) => x,
            Err(e) => { return Err(e) },
        };
        proof {
            assert(bag.taken() =~= data_provider_scheme_names().subrange(0, 4));
            crate::codec::lemma_take_fresh(data_provider_scheme_names(), 4, bag.taken());
        }
        let names = match parse_opt::<LocalizedText>(bag.take("names")) {
            Ok(x) => x,
            Err(e) => { return Err(e) },
        };
        proof {
            assert(bag.taken() =~= data_provider_scheme_names().subrange(0, 5));
            crate::codec::lemma_take_fresh(data_provider_scheme_names(), 5, bag.taken());
        }
        let valid_from = match get_opt_string(bag.take("validFrom"), "validFrom") {
            Ok(x) => x,
            Err(e) => { return Err(e) },
        };
        proof {
            assert(bag.taken() =~= data_provider_scheme_names().subrange(0, 6));
            crate::codec::lemma_take_fresh(data_provider_scheme_names(), 6, bag.taken());
        }
        let valid_to = match get_opt_string(bag.take("validTo"), "validTo") {
            Ok(x) => x,
            Err(e) => { return Err(e) },
        };
        match (&valid_from, &valid_to) {
            (Some(f), Some(t)) => {
                if !crate::fields::str_le(f.as_str(), t.as_str()) {
                    return Err(
                        ParseError::Shape("validTo".to_owned(), crate::fields::ValueKind::Window),
                    );
                }
            },
            _ => (),
        }
        proof {
            assert(bag.taken() =~= data_provider_scheme_names().subrange(0, 7));
            crate::codec::lemma_take_fresh(data_provider_scheme_names(), 7, bag.taken());
        }
        let is_external_reference = match get_opt_bool(bag.take("isExternalReference"), "isExternalReference") {
            Ok(x) => x,
            Err(e) => { return Err(e) },
        };
        proof {
            assert(bag.taken() =~= data_provider_scheme_names().subrange(0, 8));
            crate::codec::lemma_take_fresh(data_provider_scheme_names(), 8, bag.taken());
        }
        let annotations = match parse_opt_vec::<Annotation>(bag.take("annotations"), "annotations") {
            Ok(x) => x,
            Err(e) => { return Err(e) },
        };
        proof {
            assert(bag.taken() =~= data_provider_scheme_names().subrange(0, 9));
            crate::codec::lemma_take_fresh(data_provider_scheme_names(), 9, bag.taken());
        }
        let links = match parse_opt_vec::<Link>(bag.take("links"), "links") {
            Ok(x) => x,
            Err(e) => { return Err(e) },
        };
        proof {
            assert(bag.taken() =~= data_provider_scheme_names().subrange(0, 10));
            crate::codec::lemma_take_fresh(data_provider_scheme_names(), 10, bag.taken());
        }
        let is_partial = match get_opt_bool(bag.take("isPartial"), "isPartial") {
            Ok(x) => x,
            Err(e) => { return Err(e) },
        };
        proof {
            assert(bag.taken() =~= data_provider_scheme_names().subrange(0, 11));
            crate::codec::lemma_take_fresh(data_provider_scheme_names(), 11, bag.taken());
        }
        let data_providers = match parse_opt_vec::<Item>(bag.take("dataProviders"), "dataProviders") {
            Ok(x) => x,
            Err(e) => { return Err(e) },
        };
        let ghost tk = bag.taken();
        let other = bag.rest();
        let out = DataProviderScheme { id, agency_id, version, name, names, valid_from, valid_to, is_external_reference, annotations, links, is_partial, data_providers, other };
        proof {
            assert(tk =~= data_provider_scheme_names());
            crate::codec::lemma_ext_fields_names(fs, tk);
            assert(data_provider_scheme_pairs(out) =~= data_provider_scheme_norm_pairs(fs));
        }
        Ok(out)
    }

    fn to_json(&self) -> (r: JsonValue) {
        let mut b = ObjBuilder::new();
        put_str(&mut b, "id", &self.id);
        put_opt_str(&mut b, "agencyId", &self.agency_id);
        put_opt_str(&mut b, "version", &self.version);
        put_opt_str(&mut b, "name", &self.name);
        put_opt_rec(&mut b, "names", &self.names);
        put_opt_str(&mut b, "validFrom", &self.valid_from);
        put_opt_str(&mut b, "validTo", &self.valid_to);
        put_opt_bool(&mut b, "isExternalReference", &self.is_external_reference);
        put_opt_vec(&mut b, "annotations", &self.annotations);
        put_opt_vec(&mut b, "links", &self.links);
        put_opt_bool(&mut b, "isPartial", &self.is_partial);
        put_opt_vec(&mut b, "dataProviders", &self.data_providers);
        proof {
            let ps = data_provider_scheme_pairs(*self);
            lemma_pairs_chain(ps, 12);
            assert(ps.subrange(0, 12) =~= ps);
            assert(b.view_fields() == present_fields(ps)) by {
                reveal_with_fuel(pairs_prefix_chunks, 13);
            }
        }
        finish_with_ext(b, &self.other)
    }

    #[verifier::rlimit(50)]
    #[verifier::spinoff_prover]
    proof fn lemma_canon(&self) {
        lemma_data_provider_scheme_names_distinct();
        let ps = data_provider_scheme_pairs(*self);
        let ext = self.other.view_fields();
        assert(names_of(ps) =~= data_provider_scheme_names());
        assert(distinct_names(ps)) by {
            assert forall|i: int, j: int|
                0 <= i < j < ps.len() implies ps[i].0 != ps[j].0 by {
                assert(ps[i].0 == data_provider_scheme_names()[i]);
                assert(ps[j].0 == data_provider_scheme_names()[j]);
            }
        }
        assert(disjoint_from(ext, ps)) by {
            assert forall|i: int, j: int|
                0 <= i < ext.len() && 0 <= j < ps.len() implies ext[i].0 != ps[j].0 by {
                assert(!is_known_name(ext[i].0, data_provider_scheme_names()));
                assert(data_provider_scheme_names()[j] == ps[j].0);
            }
        }
        lemma_jv_get_present(ps, ext);
        lemma_ext_of_present(ps, ext);
        let fs = self.ser()->Obj_0;
        assert(jv_get(fs, "id"@) == ps[0].1);
        assert(jv_get(fs, "agencyId"@) == ps[1].1);
        assert(jv_get(fs, "version"@) == ps[2].1);
        assert(jv_get(fs, "name"@) == ps[3].1);
        assert(jv_get(fs, "names"@) == ps[4].1);
        assert(jv_get(fs, "validFrom"@) == ps[5].1);
        assert(jv_get(fs, "validTo"@) == ps[6].1);
        assert(jv_get(fs, "isExternalReference"@) == ps[7].1);
        assert(jv_get(fs, "annotations"@) == ps[8].1);
        assert(jv_get(fs, "links"@) == ps[9].1);
        assert(jv_get(fs, "isPartial"@) == ps[10].1);
        assert(jv_get(fs, "dataProviders"@) == ps[11].1);
        match self.names {
            Some(t) => {
                t.lemma_canon();
            },
            None => {},
        }
        match &self.annotations {
            Some(v) => {
                lemma_arr_canon::<Annotation>(v@);
            },
            None => {},
        }
        match &self.links {
            Some(v) => {
                lemma_arr_canon::<Link>(v@);
            },
            None => {},
        }
        match &self.data_providers {
            Some(v) => {
                lemma_arr_canon::<Item>(v@);
            },
            None => {},
        }
        assert(Self::doc_ok(self.ser()));
        assert(data_provider_scheme_norm_pairs(fs) =~= ps);
        assert(ext_fields(fs, names_of(ps)) == ext);
        assert(ext_fields(fs, data_provider_scheme_names()) == ext);
    }
}

impl Artefact for DataProviderScheme {
    open spec fn id_spec(&self) -> Seq<char> {
        self.id@
    }

    open spec fn agency_id_spec(&self) -> Option<Seq<char>> {
        ostr_view(self.agency_id)
    }

    open spec fn version_spec(&self) -> Option<Seq<char>> {
        ostr_view(self.version)
    }

    open spec fn name_spec(&self) -> Option<Seq<char>> {
        ostr_view(self.name)
    }

    open spec fn names_spec(&self) -> Option<LocalizedText> {
        self.names
    }

    open spec fn valid_from_spec(&self) -> Option<Seq<char>> {
        ostr_view(self.valid_from)
    }

    open spec fn valid_to_spec(&self) -> Option<Seq<char>> {
        ostr_view(self.valid_to)
    }

    open spec fn is_external_reference_spec(&self) -> Option<bool> {
        self.is_external_reference
    }

    open spec fn annotations_spec(&self) -> Option<Seq<Annotation>> {
        match self.annotations {
            Some(v) => Some(v@),
            None => None,
        }
    }

    open spec fn links_spec(&self) -> Option<Seq<Link>> {
        match self.links {
            Some(v) => Some(v@),
            None => None,
        }
    }

    fn id(&self) -> (r: &String) {
        &self.id
    }

    fn agency_id(&self) -> (r: Option<&String>) {
        self.agency_id.as_ref()
    }

    fn version(&self) -> (r: Option<&String>) {
        self.version.as_ref()
    }

    fn name(&self) -> (r: Option<&String>) {
        self.name.as_ref()
    }

    fn names(&self) -> (r: Option<&LocalizedText>) {
        self.names.as_ref()
    }

    fn valid_from(&self) -> (r: Option<&String>) {
        self.valid_from.as_ref()
    }

    fn valid_to(&self) -> (r: Option<&String>) {
        self.valid_to.as_ref()
    }

    fn is_external_reference(&self) -> (r: Option<bool>) {
        self.is_external_reference
    }

    fn annotations(&self) -> (r: Option<&Vec<Annotation>>) {
        self.annotations.as_ref()
    }

    fn links(&self) -> (r: Option<&Vec<Link>>) {
        self.links.as_ref()
    }
}

impl ItemScheme for DataProviderScheme {
    open spec fn is_partial_spec(&self) -> Option<bool> {
        self.is_partial
    }

    open spec fn items_spec(&self) -> Option<Seq<Item>> {
        match self.data_providers {
            Some(v) => Some(v@),
            None => None,
        }
    }

    fn is_partial(&self) -> (r: Option<bool>) {
        self.is_partial
    }

    fn items(&self) -> (r: Option<&Vec<Item>>) {
        self.data_providers.as_ref()
    }

    fn set_items(&mut self, items: Option<Vec<Item>>) {
        self.data_providers = items;
    }

    fn clear_items(&mut self) {
        self.data_providers = None;
    }

    fn contains_items(&self) -> (r: bool) {
        match &self.data_providers {
            Some(v) => v.len() > 0,
            None => false,
        }
    }
}

/// The item scheme for a data consumer.
#[derive(Debug, PartialEq)]
pub struct DataConsumerScheme {
    pub id: String,
    pub agency_id: Option<String>,
    pub version: Option<String>,
    pub name: Option<String>,
    pub names: Option<LocalizedText>,
    pub valid_from: Option<String>,
    pub valid_to: Option<String>,
    pub is_external_reference: Option<bool>,
    pub annotations: Option<Vec<Annotation>>,
    pub links: Option<Vec<Link>>,
    pub is_partial: Option<bool>,
    pub data_consumers: Option<Vec<Item>>,
    pub other: Extensions,
}

pub open spec fn data_consumer_scheme_names() -> Seq<Seq<char>> {
    seq!["id"@, "agencyId"@, "version"@, "name"@, "names"@, "validFrom"@, "validTo"@, "isExternalReference"@, "annotations"@, "links"@, "isPartial"@, "dataConsumers"@]
}

pub open spec fn data_consumer_scheme_pairs(x: DataConsumerScheme) -> Seq<(Seq<char>, Option<JVal>)> {
    seq![
        ("id"@, Some(JVal::Str(x.id@))),
        ("agencyId"@, jv_of_ostr(ostr_view(x.agency_id))),
        ("version"@, jv_of_ostr(ostr_view(x.version))),
        ("name"@, jv_of_ostr(ostr_view(x.name))),
        ("names"@, orec_ser(x.names)),
        ("validFrom"@, jv_of_ostr(ostr_view(x.valid_from))),
        ("validTo"@, jv_of_ostr(ostr_view(x.valid_to))),
        ("isExternalReference"@, jv_of_obool(x.is_external_reference)),
        ("annotations"@, ovec_ser(x.annotations)),
        ("links"@, ovec_ser(x.links)),
        ("isPartial"@, jv_of_obool(x.is_partial)),
        ("dataConsumers"@, ovec_ser(x.data_consumers)),
    ]
}

pub open spec fn data_consumer_scheme_norm_pairs(fs: Seq<(Seq<char>, JVal)>) -> Seq<(Seq<char>, Option<JVal>)> {
    seq![
        ("id"@, jv_of_ostr(opt_str(jv_get(fs, "id"@)))),
        ("agencyId"@, jv_of_ostr(opt_str(jv_get(fs, "agencyId"@)))),
        ("version"@, jv_of_ostr(opt_str(jv_get(fs, "version"@)))),
        ("name"@, jv_of_ostr(opt_str(jv_get(fs, "name"@)))),
        ("names"@, opt_rec_norm::<LocalizedText>(jv_get(fs, "names"@))),
        ("validFrom"@, jv_of_ostr(opt_str(jv_get(fs, "validFrom"@)))),
        ("validTo"@, jv_of_ostr(opt_str(jv_get(fs, "validTo"@)))),
        ("isExternalReference"@, jv_of_obool(opt_bool(jv_get(fs, "isExternalReference"@)))),
        ("annotations"@, opt_recarr_norm::<Annotation>(jv_get(fs, "annotations"@))),
        ("links"@, opt_recarr_norm::<Link>(jv_get(fs, "links"@))),
        ("isPartial"@, jv_of_obool(opt_bool(jv_get(fs, "isPartial"@)))),
        ("dataConsumers"@, opt_recarr_norm::<Item>(jv_get(fs, "dataConsumers"@))),
    ]
}

/// The names this record knows are pairwise distinct.
pub proof fn lemma_data_consumer_scheme_names_distinct()
    ensures
        forall|i: int, j: int|
            0 <= i < j < data_consumer_scheme_names().len() ==> data_consumer_scheme_names()[i] != data_consumer_scheme_names()[j],
{
    reveal_strlit("id");
    reveal_strlit("agencyId");
    reveal_strlit("version");
    reveal_strlit("name");
    reveal_strlit("names");
    reveal_strlit("validFrom");
    reveal_strlit("validTo");
    reveal_strlit("isExternalReference");
    reveal_strlit("annotations");
    reveal_strlit("links");
    reveal_strlit("isPartial");
    reveal_strlit("dataConsumers");
    let ns = data_consumer_scheme_names();
    assert(ns.len() == 12);
    assert forall|i: int, j: int| 0 <= i < j < ns.len() implies ns[i] != ns[j] by {
        assert("id"@.len() == 2);
        assert("agencyId"@.len() == 8);
        assert("version"@.len() == 7);
        assert("name"@.len() == 4);
        assert("names"@.len() == 5);
        assert("validFrom"@.len() == 9);
        assert("validTo"@.len() == 7);
        assert("isExternalReference"@.len() == 19);
        assert("annotations"@.len() == 11);
        assert("links"@.len() == 5);
        assert("isPartial"@.len() == 9);
        assert("dataConsumers"@.len() == 13);
        assert("version"@[1] == 'e');
        assert("validTo"@[1] == 'a');
        assert("names"@[0] == 'n');
        assert("links"@[0] == 'l');
        assert("validFrom"@[0] == 'v');
        assert("isPartial"@[0] == 'i');
    }
}

impl JsonForm for DataConsumerScheme {
    open spec fn wf(&self) -> bool {
        &&& ext_ok(self.other.view_fields(), data_consumer_scheme_names())
        &&& crate::fields::window_le(ostr_view(self.valid_from), ostr_view(self.valid_to))
        &&& orec_wf(self.names)
        &&& ovec_wf(self.annotations)
        &&& ovec_wf(self.links)
        &&& ovec_wf(self.data_consumers)
    }

    open spec fn ser(&self) -> JVal {
        JVal::Obj(present_fields(data_consumer_scheme_pairs(*self)) + self.other.view_fields())
    }

    open spec fn doc_ok(v: JVal) -> bool {
        &&& v is Obj
        &&& {
            let fs = v->Obj_0;
            &&& is_req_str(jv_get(fs, "id"@))
            &&& is_opt_str(jv_get(fs, "agencyId"@))
            &&& is_opt_str(jv_get(fs, "version"@))
            &&& is_opt_str(jv_get(fs, "name"@))
            &&& is_opt_rec::<LocalizedText>(jv_get(fs, "names"@))
            &&& is_opt_str(jv_get(fs, "validFrom"@))
            &&& is_opt_str(jv_get(fs, "validTo"@))
            &&& crate::fields::window_le(
                opt_str(jv_get(fs, "validFrom"@)),
                opt_str(jv_get(fs, "validTo"@)),
            )
            &&& is_opt_bool(jv_get(fs, "isExternalReference"@))
            &&& is_opt_recarr::<Annotation>(jv_get(fs, "annotations"@))
            &&& is_opt_recarr::<Link>(jv_get(fs, "links"@))
            &&& is_opt_bool(jv_get(fs, "isPartial"@))
            &&& is_opt_recarr::<Item>(jv_get(fs, "dataConsumers"@))
        }
    }

    open spec fn doc_norm(v: JVal) -> JVal {
        JVal::Obj(
            present_fields(data_consumer_scheme_norm_pairs(v->Obj_0)) + ext_fields(v->Obj_0, data_consumer_scheme_names()),
        )
    }

    #[verifier::rlimit(50)]
    fn from_json(v: JsonValue) -> (r: Result<Self, ParseError>) {
        let o = match v {
            JsonValue::Obj(o) => o,
            _ => { return Err(ParseError::NotObject) },
        };
        let ghost fs = jview_field_vec(o);
        let mut bag = FieldBag::new(o);
        proof {
            lemma_data_consumer_scheme_names_distinct();
        }
        proof {
            assert(bag.taken() =~= data_consumer_scheme_names().subrange(0, 0));
            crate::codec::lemma_take_fresh(data_consumer_scheme_names(), 0, bag.taken());
        }
        let id = match get_req_string(bag.take("id"), "id") {
            Ok(x) => x,
            Err(e) => { return Err(e) },
        };
        proof {
            assert(bag.taken() =~= data_consumer_scheme_names().subrange(0, 1));
            crate::codec::lemma_take_fresh(data_consumer_scheme_names(), 1, bag.taken());
        }
        let agency_id = match get_opt_string(bag.take("agencyId"), "agencyId") {
            Ok(x) => x,
            Err(e) => { return Err(e) },
        };
        proof {
            assert(bag.taken() =~= data_consumer_scheme_names().subrange(0, 2));
            crate::codec::lemma_take_fresh(data_consumer_scheme_names(), 2, bag.taken());
        }
        let version = match get_opt_string(bag.take("version"), "version") {
            Ok(x) => x,
            Err(e) => { return Err(e) },
        };
        proof {
            assert(bag.taken() =~= data_consumer_scheme_names().subrange(0, 3));
            crate::codec::lemma_take_fresh(data_consumer_scheme_names(), 3, bag.taken());
        }
        let name = match get_opt_string(bag.take("name"), "name") {
            Ok(x) => x,
            Err(e) => { return Err(e) },
        };
        proof {
            assert(bag.taken() =~= data_consumer_scheme_names().subrange(0, 4));
            crate::codec::lemma_take_fresh(data_consumer_scheme_names(), 4, bag.taken());
        }
        let names = match parse_opt::<LocalizedText>(bag.take("names")) {
            Ok(x) => x,
            Err(e) => { return Err(e) },
        };
        proof {
            assert(bag.taken() =~= data_consumer_scheme_names().subrange(0, 5));
            crate::codec::lemma_take_fresh(data_consumer_scheme_names(), 5, bag.taken());
        }
        let valid_from = match get_opt_string(bag.take("validFrom"), "validFrom") {
            Ok(x) => x,
            Err(e) => { return Err(e) },
        };
        proof {
            assert(bag.taken() =~= data_consumer_scheme_names().subrange(0, 6));
            crate::codec::lemma_take_fresh(data_consumer_scheme_names(), 6, bag.taken());
        }
        let valid_to = match get_opt_string(bag.take("validTo"), "validTo") {
            Ok(x) => x,
            Err(e) => { return Err(e) },
        };
        match (&valid_from, &valid_to) {
            (Some(f), Some(t)) => {
                if !crate::fields::str_le(f.as_str(), t.as_str()) {
                    return Err(
                        ParseError::Shape("validTo".to_owned(), crate::fields::ValueKind::Window),
                    );
                }
            },
            _ => (),
        }
        proof {
            assert(bag.taken() =~= data_consumer_scheme_names().subrange(0, 7));
            crate::codec::lemma_take_fresh(data_consumer_scheme_names(), 7, bag.taken());
        }
        let is_external_reference = match get_opt_bool(bag.take("isExternalReference"), "isExternalReference") {
            Ok(x) => x,
            Err(e) => { return Err(e) },
        };
        proof {
            assert(bag.taken() =~= data_consumer_scheme_names().subrange(0, 8));
            crate::codec::lemma_take_fresh(data_consumer_scheme_names(), 8, bag.taken());
        }
        let annotations = match parse_opt_vec::<Annotation>(bag.take("annotations"), "annotations") {
            Ok(x) => x,
            Err(e) => { return Err(e) },
        };
        proof {
            assert(bag.taken() =~= data_consumer_scheme_names().subrange(0, 9));
            crate::codec::lemma_take_fresh(data_consumer_scheme_names(), 9, bag.taken());
        }
        let links = match parse_opt_vec::<Link>(bag.take("links"), "links") {
            Ok(x) => x,
            Err(e) => { return Err(e) },
        };
        proof {
            assert(bag.taken() =~= data_consumer_scheme_names().subrange(0, 10));
            crate::codec::lemma_take_fresh(data_consumer_scheme_names(), 10, bag.taken());
        }
        let is_partial = match get_opt_bool(bag.take("isPartial"), "isPartial") {
            Ok(x) => x,
            Err(e) => { return Err(e) },
        };
        proof {
            assert(bag.taken() =~= data_consumer_scheme_names().subrange(0, 11));
            crate::codec::lemma_take_fresh(data_consumer_scheme_names(), 11, bag.taken());
        }
        let data_consumers = match parse_opt_vec::<Item>(bag.take("dataConsumers"), "dataConsumers") {
            Ok(x) => x,
            Err(e) => { return Err(e) },
        };
        let ghost tk = bag.taken();
        let other = bag.rest();
        let out = DataConsumerScheme { id, agency_id, version, name, names, valid_from, valid_to, is_external_reference, annotations, links, is_partial, data_consumers, other };
        proof {
            assert(tk =~= data_consumer_scheme_names());
            crate::codec::lemma_ext_fields_names(fs, tk);
            assert(data_consumer_scheme_pairs(out) =~= data_consumer_scheme_norm_pairs(fs));
        }
        Ok(out)
    }

    fn to_json(&self) -> (r: JsonValue) {
        let mut b = ObjBuilder::new();
        put_str(&mut b, "id", &self.id);
        put_opt_str(&mut b, "agencyId", &self.agency_id);
        put_opt_str(&mut b, "version", &self.version);
        put_opt_str(&mut b, "name", &self.name);
        put_opt_rec(&mut b, "names", &self.names);
        put_opt_str(&mut b, "validFrom", &self.valid_from);
        put_opt_str(&mut b, "validTo", &self.valid_to);
        put_opt_bool(&mut b, "isExternalReference", &self.is_external_reference);
        put_opt_vec(&mut b, "annotations", &self.annotations);
        put_opt_vec(&mut b, "links", &self.links);
        put_opt_bool(&mut b, "isPartial", &self.is_partial);
        put_opt_vec(&mut b, "dataConsumers", &self.data_consumers);
        proof {
            let ps = data_consumer_scheme_pairs(*self);
            lemma_pairs_chain(ps, 12);
            assert(ps.subrange(0, 12) =~= ps);
            assert(b.view_fields() == present_fields(ps)) by {
                reveal_with_fuel(pairs_prefix_chunks, 13);
            }
        }
        finish_with_ext(b, &self.other)
    }

    #[verifier::rlimit(50)]
    #[verifier::spinoff_prover]
    proof fn lemma_canon(&self) {
        lemma_data_consumer_scheme_names_distinct();
        let ps = data_consumer_scheme_pairs(*self);
        let ext = self.other.view_fields();
        assert(names_of(ps) =~= data_consumer_scheme_names());
        assert(distinct_names(ps)) by {
            assert forall|i: int, j: int|
                0 <= i < j < ps.len() implies ps[i].0 != ps[j].0 by {
                assert(ps[i].0 == data_consumer_scheme_names()[i]);
                assert(ps[j].0 == data_consumer_scheme_names()[j]);
            }
        }
        assert(disjoint_from(ext, ps)) by {
            assert forall|i: int, j: int|
                0 <= i < ext.len() && 0 <= j < ps.len() implies ext[i].0 != ps[j].0 by {
                assert(!is_known_name(ext[i].0, data_consumer_scheme_names()));
                assert(data_consumer_scheme_names()[j] == ps[j].0);
            }
        }
        lemma_jv_get_present(ps, ext);
        lemma_ext_of_present(ps, ext);
        let fs = self.ser()->Obj_0;
        assert(jv_get(fs, "id"@) == ps[0].1);
        assert(jv_get(fs, "agencyId"@) == ps[1].1);
        assert(jv_get(fs, "version"@) == ps[2].1);
        assert(jv_get(fs, "name"@) == ps[3].1);
        assert(jv_get(fs, "names"@) == ps[4].1);
        assert(jv_get(fs, "validFrom"@) == ps[5].1);
        assert(jv_get(fs, "validTo"@) == ps[6].1);
        assert(jv_get(fs, "isExternalReference"@) == ps[7].1);
        assert(jv_get(fs, "annotations"@) == ps[8].1);
        assert(jv_get(fs, "links"@) == ps[9].1);
        assert(jv_get(fs, "isPartial"@) == ps[10].1);
        assert(jv_get(fs, "dataConsumers"@) == ps[11].1);
        match self.names {
            Some(t) => {
                t.lemma_canon();
            },
            None => {},
        }
        match &self.annotations {
            Some(v) => {
                lemma_arr_canon::<Annotation>(v@);
            },
            None => {},
        }
        match &self.links {
            Some(v) => {
                lemma_arr_canon::<Link>(v@);
            },
            None => {},
        }
        match &self.data_consumers {
            Some(v) => {
                lemma_arr_canon::<Item>(v@);
            },
            None => {},
        }
        assert(Self::doc_ok(self.ser()));
        assert(data_consumer_scheme_norm_pairs(fs) =~= ps);
        assert(ext_fields(fs, names_of(ps)) == ext);
        assert(ext_fields(fs, data_consumer_scheme_names()) == ext);
    }
}

impl Artefact for DataConsumerScheme {
    open spec fn id_spec(&self) -> Seq<char> {
        self.id@
    }

    open spec fn agency_id_spec(&self) -> Option<Seq<char>> {
        ostr_view(self.agency_id)
    }

    open spec fn version_spec(&self) -> Option<Seq<char>> {
        ostr_view(self.version)
    }

    open spec fn name_spec(&self) -> Option<Seq<char>> {
        ostr_view(self.name)
    }

    open spec fn names_spec(&self) -> Option<LocalizedText> {
        self.names
    }

    open spec fn valid_from_spec(&self) -> Option<Seq<char>> {
        ostr_view(self.valid_from)
    }

    open spec fn valid_to_spec(&self) -> Option<Seq<char>> {
        ostr_view(self.valid_to)
    }

    open spec fn is_external_reference_spec(&self) -> Option<bool> {
        self.is_external_reference
    }

    open spec fn annotations_spec(&self) -> Option<Seq<Annotation>> {
        match self.annotations {
            Some(v) => Some(v@),
            None => None,
        }
    }

    open spec fn links_spec(&self) -> Option<Seq<Link>> {
        match self.links {
            Some(v) => Some(v@),
            None => None,
        }
    }

    fn id(&self) -> (r: &String) {
        &self.id
    }

    fn agency_id(&self) -> (r: Option<&String>) {
        self.agency_id.as_ref()
    }

    fn version(&self) -> (r: Option<&String>) {
        self.version.as_ref()
    }

    fn name(&self) -> (r: Option<&String>) {
        self.name.as_ref()
    }

    fn names(&self) -> (r: Option<&LocalizedText>) {
        self.names.as_ref()
    }

    fn valid_from(&self) -> (r: Option<&String>) {
        self.valid_from.as_ref()
    }

    fn valid_to(&self) -> (r: Option<&String>) {
        self.valid_to.as_ref()
    }

    fn is_external_reference(&self) -> (r: Option<bool>) {
        self.is_external_reference
    }

    fn annotations(&self) -> (r: Option<&Vec<Annotation>>) {
        self.annotations.as_ref()
    }

    fn links(&self) -> (r: Option<&Vec<Link>>) {
        self.links.as_ref()
    }
}

impl ItemScheme for DataConsumerScheme {
    open spec fn is_partial_spec(&self) -> Option<bool> {
        self.is_partial
    }

    open spec fn items_spec(&self) -> Option<Seq<Item>> {
        match self.data_consumers {
            Some(v) => Some(v@),
            None => None,
        }
    }

    fn is_partial(&self) -> (r: Option<bool>) {
        self.is_partial
    }

    fn items(&self) -> (r: Option<&Vec<Item>>) {
        self.data_consumers.as_ref()
    }

    fn set_items(&mut self, items: Option<Vec<Item>>) {
        self.data_consumers = items;
    }

    fn clear_items(&mut self) {
        self.data_consumers = None;
    }

    fn contains_items(&self) -> (r: bool) {
        match &self.data_consumers {
            Some(v) => v.len() > 0,
            None => false,
        }
    }
}

/// The item scheme for a metadata provider.
#[derive(Debug, PartialEq)]
pub struct MetadataProviderScheme {
    pub id: String,
    pub agency_id: Option<String>,
    pub version: Option<String>,
    pub name: Option<String>,
    pub names: Option<LocalizedText>,
    pub valid_from: Option<String>,
    pub valid_to: Option<String>,
    pub is_external_reference: Option<bool>,
    pub annotations: Option<Vec<Annotation>>,
    pub links: Option<Vec<Link>>,
    pub is_partial: Option<bool>,
    pub metadata_providers: Option<Vec<Item>>,
    pub other: Extensions,
}

pub open spec fn metadata_provider_scheme_names() -> Seq<Seq<char>> {
    seq!["id"@, "agencyId"@, "version"@, "name"@, "names"@, "validFrom"@, "validTo"@, "isExternalReference"@, "annotations"@, "links"@, "isPartial"@, "metadataProviders"@]
}

pub open spec fn metadata_provider_scheme_pairs(x: MetadataProviderScheme) -> Seq<(Seq<char>, Option<JVal>)> {
    seq![
        ("id"@, Some(JVal::Str(x.id@))),
        ("agencyId"@, jv_of_ostr(ostr_view(x.agency_id))),
        ("version"@, jv_of_ostr(ostr_view(x.version))),
        ("name"@, jv_of_ostr(ostr_view(x.name))),
        ("names"@, orec_ser(x.names)),
        ("validFrom"@, jv_of_ostr(ostr_view(x.valid_from))),
        ("validTo"@, jv_of_ostr(ostr_view(x.valid_to))),
        ("isExternalReference"@, jv_of_obool(x.is_external_reference)),
        ("annotations"@, ovec_ser(x.annotations)),
        ("links"@, ovec_ser(x.links)),
        ("isPartial"@, jv_of_obool(x.is_partial)),
        ("metadataProviders"@, ovec_ser(x.metadata_providers)),
    ]
}

pub open spec fn metadata_provider_scheme_norm_pairs(fs: Seq<(Seq<char>, JVal)>) -> Seq<(Seq<char>, Option<JVal>)> {
    seq![
        ("id"@, jv_of_ostr(opt_str(jv_get(fs, "id"@)))),
        ("agencyId"@, jv_of_ostr(opt_str(jv_get(fs, "agencyId"@)))),
        ("version"@, jv_of_ostr(opt_str(jv_get(fs, "version"@)))),
        ("name"@, jv_of_ostr(opt_str(jv_get(fs, "name"@)))),
        ("names"@, opt_rec_norm::<LocalizedText>(jv_get(fs, "names"@))),
        ("validFrom"@, jv_of_ostr(opt_str(jv_get(fs, "validFrom"@)))),
        ("validTo"@, jv_of_ostr(opt_str(jv_get(fs, "validTo"@)))),
        ("isExternalReference"@, jv_of_obool(opt_bool(jv_get(fs, "isExternalReference"@)))),
        ("annotations"@, opt_recarr_norm::<Annotation>(jv_get(fs, "annotations"@))),
        ("links"@, opt_recarr_norm::<Link>(jv_get(fs, "links"@))),
        ("isPartial"@, jv_of_obool(opt_bool(jv_get(fs, "isPartial"@)))),
        ("metadataProviders"@, opt_recarr_norm::<Item>(jv_get(fs, "metadataProviders"@))),
    ]
}

/// The names this record knows are pairwise distinct.
pub proof fn lemma_metadata_provider_scheme_names_distinct()
    ensures
        forall|i: int, j: int|
            0 <= i < j < metadata_provider_scheme_names().len() ==> metadata_provider_scheme_names()[i] != metadata_provider_scheme_names()[j],
{
    reveal_strlit("id");
    reveal_strlit("agencyId");
    reveal_strlit("version");
    reveal_strlit("name");
    reveal_strlit("names");
    reveal_strlit("validFrom");
    reveal_strlit("validTo");
    reveal_strlit("isExternalReference");
    reveal_strlit("annotations");
    reveal_strlit("links");
    reveal_strlit("isPartial");
    reveal_strlit("metadataProviders");
    let ns = metadata_provider_scheme_names();
    assert(ns.len() == 12);
    assert forall|i: int, j: int| 0 <= i < j < ns.len() implies ns[i] != ns[j] by {
        assert("id"@.len() == 2);
        assert("agencyId"@.len() == 8);
        assert("version"@.len() == 7);
        assert("name"@.len() == 4);
        assert("names"@.len() == 5);
        assert("validFrom"@.len() == 9);
        assert("validTo"@.len() == 7);
        assert("isExternalReference"@.len() == 19);
        assert("annotations"@.len() == 11);
        assert("links"@.len() == 5);
        assert("isPartial"@.len() == 9);
        assert("metadataProviders"@.len() == 17);
        assert("version"@[1] == 'e');
        assert("validTo"@[1] == 'a');
        assert("names"@[0] == 'n');
        assert("links"@[0] == 'l');
        assert("validFrom"@[0] == 'v');
        assert("isPartial"@[0] == 'i');
    }
}

impl JsonForm for MetadataProviderScheme {
    open spec fn wf(&self) -> bool {
        &&& ext_ok(self.other.view_fields(), metadata_provider_scheme_names())
        &&& crate::fields::window_le(ostr_view(self.valid_from), ostr_view(self.valid_to))
        &&& orec_wf(self.names)
        &&& ovec_wf(self.annotations)
        &&& ovec_wf(self.links)
        &&& ovec_wf(self.metadata_providers)
    }

    open spec fn ser(&self) -> JVal {
        JVal::Obj(present_fields(metadata_provider_scheme_pairs(*self)) + self.other.view_fields())
    }

    open spec fn doc_ok(v: JVal) -> bool {
        &&& v is Obj
        &&& {
            let fs = v->Obj_0;
            &&& is_req_str(jv_get(fs, "id"@))
            &&& is_opt_str(jv_get(fs, "agencyId"@))
            &&& is_opt_str(jv_get(fs, "version"@))
            &&& is_opt_str(jv_get(fs, "name"@))
            &&& is_opt_rec::<LocalizedText>(jv_get(fs, "names"@))
            &&& is_opt_str(jv_get(fs, "validFrom"@))
            &&& is_opt_str(jv_get(fs, "validTo"@))
            &&& crate::fields::window_le(
                opt_str(jv_get(fs, "validFrom"@)),
                opt_str(jv_get(fs, "validTo"@)),
            )
            &&& is_opt_bool(jv_get(fs, "isExternalReference"@))
            &&& is_opt_recarr::<Annotation>(jv_get(fs, "annotations"@))
            &&& is_opt_recarr::<Link>(jv_get(fs, "links"@))
            &&& is_opt_bool(jv_get(fs, "isPartial"@))
            &&& is_opt_recarr::<Item>(jv_get(fs, "metadataProviders"@))
        }
    }

    open spec fn doc_norm(v: JVal) -> JVal {
        JVal::Obj(
            present_fields(metadata_provider_scheme_norm_pairs(v->Obj_0)) + ext_fields(v->Obj_0, metadata_provider_scheme_names()),
        )
    }

    #[verifier::rlimit(50)]
    fn from_json(v: JsonValue) -> (r: Result<Self, ParseError>) {
        let o = match v {
            JsonValue::Obj(o) => o,
            _ => { return Err(ParseError::NotObject) },
        };
        let ghost fs = jview_field_vec(o);
        let mut bag = FieldBag::new(o);
        proof {
            lemma_metadata_provider_scheme_names_distinct();
        }
        proof {
            assert(bag.taken() =~= metadata_provider_scheme_names().subrange(0, 0));
            crate::codec::lemma_take_fresh(metadata_provider_scheme_names(), 0, bag.taken());
        }
        let id = match get_req_string(bag.take("id"), "id") {
            Ok(x) => x,
            Err(e) => { return Err(e) },
        };
        proof {
            assert(bag.taken() =~= metadata_provider_scheme_names().subrange(0, 1));
            crate::codec::lemma_take_fresh(metadata_provider_scheme_names(), 1, bag.taken());
        }
        let agency_id = match get_opt_string(bag.take("agencyId"), "agencyId") {
            Ok(x) => x,
            Err(e) => { return Err(e) },
        };
        proof {
            assert(bag.taken() =~= metadata_provider_scheme_names().subrange(0, 2));
            crate::codec::lemma_take_fresh(metadata_provider_scheme_names(), 2, bag.taken());
        }
        let version = match get_opt_string(bag.take("version"), "version") {
            Ok(x) => x,
            Err(e) => { return Err(e) },
        };
        proof {
            assert(bag.taken() =~= metadata_provider_scheme_names().subrange(0, 3));
            crate::codec::lemma_take_fresh(metadata_provider_scheme_names(), 3, bag.taken());
        }
        let name = match get_opt_string(bag.take("name"), "name") {
            Ok(x) => x,
            Err(e) => { return Err(e) },
        };
        proof {
            assert(bag.taken() =~= metadata_provider_scheme_names().subrange(0, 4));
            crate::codec::lemma_take_fresh(metadata_provider_scheme_names(), 4, bag.taken());
        }
        let names = match parse_opt::<LocalizedText>(bag.take("names")) {
            Ok(x) => x,
            Err(e) => { return Err(e) },
        };
        proof {
            assert(bag.taken() =~= metadata_provider_scheme_names().subrange(0, 5));
            crate::codec::lemma_take_fresh(metadata_provider_scheme_names(), 5, bag.taken());
        }
        let valid_from = match get_opt_string(bag.take("validFrom"), "validFrom") {
            Ok(x) => x,
            Err(e) => { return Err(e) },
        };
        proof {
            assert(bag.taken() =~= metadata_provider_scheme_names().subrange(0, 6));
            crate::codec::lemma_take_fresh(metadata_provider_scheme_names(), 6, bag.taken());
        }
        let valid_to = match get_opt_string(bag.take("validTo"), "validTo") {
            Ok(x) => x,
            Err(e) => { return Err(e) },
        };
        match (&valid_from, &valid_to) {
            (Some(f), Some(t)) => {
                if !crate::fields::str_le(f.as_str(), t.as_str()) {
                    return Err(
                        ParseError::Shape("validTo".to_owned(), crate::fields::ValueKind::Window),
                    );
                }
            },
            _ => (),
        }
        proof {
            assert(bag.taken() =~= metadata_provider_scheme_names().subrange(0, 7));
            crate::codec::lemma_take_fresh(metadata_provider_scheme_names(), 7, bag.taken());
        }
        let is_external_reference = match get_opt_bool(bag.take("isExternalReference"), "isExternalReference") {
            Ok(x) => x,
            Err(e) => { return Err(e) },
        };
        proof {
            assert(bag.taken() =~= metadata_provider_scheme_names().subrange(0, 8));
            crate::codec::lemma_take_fresh(metadata_provider_scheme_names(), 8, bag.taken());
        }
        let annotations = match parse_opt_vec::<Annotation>(bag.take("annotations"), "annotations") {
            Ok(x) => x,
            Err(e) => { return Err(e) },
        };
        proof {
            assert(bag.taken() =~= metadata_provider_scheme_names().subrange(0, 9));
            crate::codec::lemma_take_fresh(metadata_provider_scheme_names(), 9, bag.taken());
        }
        let links = match parse_opt_vec::<Link>(bag.take("links"), "links") {
            Ok(x) => x,
            Err(e) => { return Err(e) },
        };
        proof {
            assert(bag.taken() =~= metadata_provider_scheme_names().subrange(0, 10));
            crate::codec::lemma_take_fresh(metadata_provider_scheme_names(), 10, bag.taken());
        }
        let is_partial = match get_opt_bool(bag.take("isPartial"), "isPartial") {
            Ok(x) => x,
            Err(e) => { return Err(e) },
        };
        proof {
            assert(bag.taken() =~= metadata_provider_scheme_names().subrange(0, 11));
            crate::codec::lemma_take_fresh(metadata_provider_scheme_names(), 11, bag.taken());
        }
        let metadata_providers = match parse_opt_vec::<Item>(bag.take("metadataProviders"), "metadataProviders") {
            Ok(x) => x,
            Err(e) => { return Err(e) },
        };
        let ghost tk = bag.taken();
        let other = bag.rest();
        let out = MetadataProviderScheme { id, agency_id, version, name, names, valid_from, valid_to, is_external_reference, annotations, links, is_partial, metadata_providers, other };
        proof {
            assert(tk =~= metadata_provider_scheme_names());
            crate::codec::lemma_ext_fields_names(fs, tk);
            assert(metadata_provider_scheme_pairs(out) =~= metadata_provider_scheme_norm_pairs(fs));
        }
        Ok(out)
    }

    fn to_json(&self) -> (r: JsonValue) {
        let mut b = ObjBuilder::new();
        put_str(&mut b, "id", &self.id);
        put_opt_str(&mut b, "agencyId", &self.agency_id);
        put_opt_str(&mut b, "version", &self.version);
        put_opt_str(&mut b, "name", &self.name);
        put_opt_rec(&mut b, "names", &self.names);
        put_opt_str(&mut b, "validFrom", &self.valid_from);
        put_opt_str(&mut b, "validTo", &self.valid_to);
        put_opt_bool(&mut b, "isExternalReference", &self.is_external_reference);
        put_opt_vec(&mut b, "annotations", &self.annotations);
        put_opt_vec(&mut b, "links", &self.links);
        put_opt_bool(&mut b, "isPartial", &self.is_partial);
        put_opt_vec(&mut b, "metadataProviders", &self.metadata_providers);
        proof {
            let ps = metadata_provider_scheme_pairs(*self);
            lemma_pairs_chain(ps, 12);
            assert(ps.subrange(0, 12) =~= ps);
            assert(b.view_fields() == present_fields(ps)) by {
                reveal_with_fuel(pairs_prefix_chunks, 13);
            }
        }
        finish_with_ext(b, &self.other)
    }

    #[verifier::rlimit(50)]
    #[verifier::spinoff_prover]
    proof fn lemma_canon(&self) {
        lemma_metadata_provider_scheme_names_distinct();
        let ps = metadata_provider_scheme_pairs(*self);
        let ext = self.other.view_fields();
        assert(names_of(ps) =~= metadata_provider_scheme_names());
        assert(distinct_names(ps)) by {
            assert forall|i: int, j: int|
                0 <= i < j < ps.len() implies ps[i].0 != ps[j].0 by {
                assert(ps[i].0 == metadata_provider_scheme_names()[i]);
                assert(ps[j].0 == metadata_provider_scheme_names()[j]);
            }
        }
        assert(disjoint_from(ext, ps)) by {
            assert forall|i: int, j: int|
                0 <= i < ext.len() && 0 <= j < ps.len() implies ext[i].0 != ps[j].0 by {
                assert(!is_known_name(ext[i].0, metadata_provider_scheme_names()));
                assert(metadata_provider_scheme_names()[j] == ps[j].0);
            }
        }
        lemma_jv_get_present(ps, ext);
        lemma_ext_of_present(ps, ext);
        let fs = self.ser()->Obj_0;
        assert(jv_get(fs, "id"@) == ps[0].1);
        assert(jv_get(fs, "agencyId"@) == ps[1].1);
        assert(jv_get(fs, "version"@) == ps[2].1);
        assert(jv_get(fs, "name"@) == ps[3].1);
        assert(jv_get(fs, "names"@) == ps[4].1);
        assert(jv_get(fs, "validFrom"@) == ps[5].1);
        assert(jv_get(fs, "validTo"@) == ps[6].1);
        assert(jv_get(fs, "isExternalReference"@) == ps[7].1);
        assert(jv_get(fs, "annotations"@) == ps[8].1);
        assert(jv_get(fs, "links"@) == ps[9].1);
        assert(jv_get(fs, "isPartial"@) == ps[10].1);
        assert(jv_get(fs, "metadataProviders"@) == ps[11].1);
        match self.names {
            Some(t) => {
                t.lemma_canon();
            },
            None => {},
        }
        match &self.annotations {
            Some(v) => {
                lemma_arr_canon::<Annotation>(v@);
            },
            None => {},
        }
        match &self.links {
            Some(v) => {
                lemma_arr_canon::<Link>(v@);
            },
            None => {},
        }
        match &self.metadata_providers {
            Some(v) => {
                lemma_arr_canon::<Item>(v@);
            },
            None => {},
        }
        assert(Self::doc_ok(self.ser()));
        assert(metadata_provider_scheme_norm_pairs(fs) =~= ps);
        assert(ext_fields(fs, names_of(ps)) == ext);
        assert(ext_fields(fs, metadata_provider_scheme_names()) == ext);
    }
}

impl Artefact for MetadataProviderScheme {
    open spec fn id_spec(&self) -> Seq<char> {
        self.id@
    }

    open spec fn agency_id_spec(&self) -> Option<Seq<char>> {
        ostr_view(self.agency_id)
    }

    open spec fn version_spec(&self) -> Option<Seq<char>> {
        ostr_view(self.version)
    }

    open spec fn name_spec(&self) -> Option<Seq<char>> {
        ostr_view(self.name)
    }

    open spec fn names_spec(&self) -> Option<LocalizedText> {
        self.names
    }

    open spec fn valid_from_spec(&self) -> Option<Seq<char>> {
        ostr_view(self.valid_from)
    }

    open spec fn valid_to_spec(&self) -> Option<Seq<char>> {
        ostr_view(self.valid_to)
    }

    open spec fn is_external_reference_spec(&self) -> Option<bool> {
        self.is_external_reference
    }

    open spec fn annotations_spec(&self) -> Option<Seq<Annotation>> {
        match self.annotations {
            Some(v) => Some(v@),
            None => None,
        }
    }

    open spec fn links_spec(&self) -> Option<Seq<Link>> {
        match self.links {
            Some(v) => Some(v@),
            None => None,
        }
    }

    fn id(&self) -> (r: &String) {
        &self.id
    }

    fn agency_id(&self) -> (r: Option<&String>) {
        self.agency_id.as_ref()
    }

    fn version(&self) -> (r: Option<&String>) {
        self.version.as_ref()
    }

    fn name(&self) -> (r: Option<&String>) {
        self.name.as_ref()
    }

    fn names(&self) -> (r: Option<&LocalizedText>) {
        self.names.as_ref()
    }

    fn valid_from(&self) -> (r: Option<&String>) {
        self.valid_from.as_ref()
    }

    fn valid_to(&self) -> (r: Option<&String>) {
        self.valid_to.as_ref()
    }

    fn is_external_reference(&self) -> (r: Option<bool>) {
        self.is_external_reference
    }

    fn annotations(&self) -> (r: Option<&Vec<Annotation>>) {
        self.annotations.as_ref()
    }

    fn links(&self) -> (r: Option<&Vec<Link>>) {
        self.links.as_ref()
    }
}

impl ItemScheme for MetadataProviderScheme {
    open spec fn is_partial_spec(&self) -> Option<bool> {
        self.is_partial
    }

    open spec fn items_spec(&self) -> Option<Seq<Item>> {
        match self.metadata_providers {
            Some(v) => Some(v@),
            None => None,
        }
    }

    fn is_partial(&self) -> (r: Option<bool>) {
        self.is_partial
    }

    fn items(&self) -> (r: Option<&Vec<Item>>) {
        self.metadata_providers.as_ref()
    }

    fn set_items(&mut self, items: Option<Vec<Item>>) {
        self.metadata_providers = items;
    }

    fn clear_items(&mut self) {
        self.metadata_providers = None;
    }

    fn contains_items(&self) -> (r: bool) {
        match &self.metadata_providers {
            Some(v) => v.len() > 0,
            None => false,
        }
    }
}

/// The item scheme for an organization unit.
#[derive(Debug, PartialEq)]
pub struct OrganizationUnitScheme {
    pub id: String,
    pub agency_id: Option<String>,
    pub version: Option<String>,
    pub name: Option<String>,
    pub names: Option<LocalizedText>,
    pub valid_from: Option<String>,
    pub valid_to: Option<String>,
    pub is_external_reference: Option<bool>,
    pub annotations: Option<Vec<Annotation>>,
    pub links: Option<Vec<Link>>,
    pub is_partial: Option<bool>,
    pub organization_units: Option<Vec<Item>>,
    pub other: Extensions,
}

pub open spec fn organization_unit_scheme_names() -> Seq<Seq<char>> {
    seq!["id"@, "agencyId"@, "version"@, "name"@, "names"@, "validFrom"@, "validTo"@, "isExternalReference"@, "annotations"@, "links"@, "isPartial"@, "organizationUnits"@]
}

pub open spec fn organization_unit_scheme_pairs(x: OrganizationUnitScheme) -> Seq<(Seq<char>, Option<JVal>)> {
    seq![
        ("id"@, Some(JVal::Str(x.id@))),
        ("agencyId"@, jv_of_ostr(ostr_view(x.agency_id))),
        ("version"@, jv_of_ostr(ostr_view(x.version))),
        ("name"@, jv_of_ostr(ostr_view(x.name))),
        ("names"@, orec_ser(x.names)),
        ("validFrom"@, jv_of_ostr(ostr_view(x.valid_from))),
        ("validTo"@, jv_of_ostr(ostr_view(x.valid_to))),
        ("isExternalReference"@, jv_of_obool(x.is_external_reference)),
        ("annotations"@, ovec_ser(x.annotations)),
        ("links"@, ovec_ser(x.links)),
        ("isPartial"@, jv_of_obool(x.is_partial)),
        ("organizationUnits"@, ovec_ser(x.organization_units)),
    ]
}

pub open spec fn organization_unit_scheme_norm_pairs(fs: Seq<(Seq<char>, JVal)>) -> Seq<(Seq<char>, Option<JVal>)> {
    seq![
        ("id"@, jv_of_ostr(opt_str(jv_get(fs, "id"@)))),
        ("agencyId"@, jv_of_ostr(opt_str(jv_get(fs, "agencyId"@)))),
        ("version"@, jv_of_ostr(opt_str(jv_get(fs, "version"@)))),
        ("name"@, jv_of_ostr(opt_str(jv_get(fs, "name"@)))),
        ("names"@, opt_rec_norm::<LocalizedText>(jv_get(fs, "names"@))),
        ("validFrom"@, jv_of_ostr(opt_str(jv_get(fs, "validFrom"@)))),
        ("validTo"@, jv_of_ostr(opt_str(jv_get(fs, "validTo"@)))),
        ("isExternalReference"@, jv_of_obool(opt_bool(jv_get(fs, "isExternalReference"@)))),
        ("annotations"@, opt_recarr_norm::<Annotation>(jv_get(fs, "annotations"@))),
        ("links"@, opt_recarr_norm::<Link>(jv_get(fs, "links"@))),
        ("isPartial"@, jv_of_obool(opt_bool(jv_get(fs, "isPartial"@)))),
        ("organizationUnits"@, opt_recarr_norm::<Item>(jv_get(fs, "organizationUnits"@))),
    ]
}

/// The names this record knows are pairwise distinct.
pub proof fn lemma_organization_unit_scheme_names_distinct()
    ensures
        forall|i: int, j: int|
            0 <= i < j < organization_unit_scheme_names().len() ==> organization_unit_scheme_names()[i] != organization_unit_scheme_names()[j],
{
    reveal_strlit("id");
    reveal_strlit("agencyId");
    reveal_strlit("version");
    reveal_strlit("name");
    reveal_strlit("names");
    reveal_strlit("validFrom");
    reveal_strlit("validTo");
    reveal_strlit("isExternalReference");
    reveal_strlit("annotations");
    reveal_strlit("links");
    reveal_strlit("isPartial");
    reveal_strlit("organizationUnits");
    let ns = organization_unit_scheme_names();
    assert(ns.len() == 12);
    assert forall|i: int, j: int| 0 <= i < j < ns.len() implies ns[i] != ns[j] by {
        assert("id"@.len() == 2);
        assert("agencyId"@.len() == 8);
        assert("version"@.len() == 7);
        assert("name"@.len() == 4);
        assert("names"@.len() == 5);
        assert("validFrom"@.len() == 9);
        assert("validTo"@.len() == 7);
        assert("isExternalReference"@.len() == 19);
        assert("annotations"@.len() == 11);
        assert("links"@.len() == 5);
        assert("isPartial"@.len() == 9);
        assert("organizationUnits"@.len() == 17);
        assert("version"@[1] == 'e');
        assert("validTo"@[1] == 'a');
        assert("names"@[0] == 'n');
        assert("links"@[0] == 'l');
        assert("validFrom"@[0] == 'v');
        assert("isPartial"@[0] == 'i');
    }
}

impl JsonForm for OrganizationUnitScheme {
    open spec fn wf(&self) -> bool {
        &&& ext_ok(self.other.view_fields(), organization_unit_scheme_names())
        &&& crate::fields::window_le(ostr_view(self.valid_from), ostr_view(self.valid_to))
        &&& orec_wf(self.names)
        &&& ovec_wf(self.annotations)
        &&& ovec_wf(self.links)
        &&& ovec_wf(self.organization_units)
    }

    open spec fn ser(&self) -> JVal {
        JVal::Obj(present_fields(organization_unit_scheme_pairs(*self)) + self.other.view_fields())
    }

    open spec fn doc_ok(v: JVal) -> bool {
        &&& v is Obj
        &&& {
            let fs = v->Obj_0;
            &&& is_req_str(jv_get(fs, "id"@))
            &&& is_opt_str(jv_get(fs, "agencyId"@))
            &&& is_opt_str(jv_get(fs, "version"@))
            &&& is_opt_str(jv_get(fs, "name"@))
            &&& is_opt_rec::<LocalizedText>(jv_get(fs, "names"@))
            &&& is_opt_str(jv_get(fs, "validFrom"@))
            &&& is_opt_str(jv_get(fs, "validTo"@))
            &&& crate::fields::window_le(
                opt_str(jv_get(fs, "validFrom"@)),
                opt_str(jv_get(fs, "validTo"@)),
            )
            &&& is_opt_bool(jv_get(fs, "isExternalReference"@))
            &&& is_opt_recarr::<Annotation>(jv_get(fs, "annotations"@))
            &&& is_opt_recarr::<Link>(jv_get(fs, "links"@))
            &&& is_opt_bool(jv_get(fs, "isPartial"@))
            &&& is_opt_recarr::<Item>(jv_get(fs, "organizationUnits"@))
        }
    }

    open spec fn doc_norm(v: JVal) -> JVal {
        JVal::Obj(
            present_fields(organization_unit_scheme_norm_pairs(v->Obj_0)) + ext_fields(v->Obj_0, organization_unit_scheme_names()),
        )
    }

    #[verifier::rlimit(50)]
    fn from_json(v: JsonValue) -> (r: Result<Self, ParseError>) {
        let o = match v {
            JsonValue::Obj(o) => o,
            _ => { return Err(ParseError::NotObject) },
        };
        let ghost fs = jview_field_vec(o);
        let mut bag = FieldBag::new(o);
        proof {
            lemma_organization_unit_scheme_names_distinct();
        }
        proof {
            assert(bag.taken() =~= organization_unit_scheme_names().subrange(0, 0));
            crate::codec::lemma_take_fresh(organization_unit_scheme_names(), 0, bag.taken());
        }
        let id = match get_req_string(bag.take("id"), "id") {
            Ok(x) => x,
            Err(e) => { return Err(e) },
        };
        proof {
            assert(bag.taken() =~= organization_unit_scheme_names().subrange(0, 1));
            crate::codec::lemma_take_fresh(organization_unit_scheme_names(), 1, bag.taken());
        }
        let agency_id = match get_opt_string(bag.take("agencyId"), "agencyId") {
            Ok(x) => x,
            Err(e) => { return Err(e) },
        };
        proof {
            assert(bag.taken() =~= organization_unit_scheme_names().subrange(0, 2));
            crate::codec::lemma_take_fresh(organization_unit_scheme_names(), 2, bag.taken());
        }
        let version = match get_opt_string(bag.take("version"), "version") {
            Ok(x) => x,
            Err(e) => { return Err(e) },
        };
        proof {
            assert(bag.taken() =~= organization_unit_scheme_names().subrange(0, 3));
            crate::codec::lemma_take_fresh(organization_unit_scheme_names(), 3, bag.taken());
        }
        let name = match get_opt_string(bag.take("name"), "name") {
            Ok(x) => x,
            Err(e) => { return Err(e) },
        };
        proof {
            assert(bag.taken() =~= organization_unit_scheme_names().subrange(0, 4));
            crate::codec::lemma_take_fresh(organization_unit_scheme_names(), 4, bag.taken());
        }
        let names = match parse_opt::<LocalizedText>(bag.take("names")) {
            Ok(x) => x,
            Err(e) => { return Err(e) },
        };
        proof {
            assert(bag.taken() =~= organization_unit_scheme_names().subrange(0, 5));
            crate::codec::lemma_take_fresh(organization_unit_scheme_names(), 5, bag.taken());
        }
        let valid_from = match get_opt_string(bag.take("validFrom"), "validFrom") {
            Ok(x) => x,
            Err(e) => { return Err(e) },
        };
        proof {
            assert(bag.taken() =~= organization_unit_scheme_names().subrange(0, 6));
            crate::codec::lemma_take_fresh(organization_unit_scheme_names(), 6, bag.taken());
        }
        let valid_to = match get_opt_string(bag.take("validTo"), "validTo") {
            Ok(x) => x,
            Err(e) => { return Err(e) },
        };
        match (&valid_from, &valid_to) {
            (Some(f), Some(t)) => {
                if !crate::fields::str_le(f.as_str(), t.as_str()) {
                    return Err(
                        ParseError::Shape("validTo".to_owned(), crate::fields::ValueKind::Window),
                    );
                }
            },
            _ => (),
        }
        proof {
            assert(bag.taken() =~= organization_unit_scheme_names().subrange(0, 7));
            crate::codec::lemma_take_fresh(organization_unit_scheme_names(), 7, bag.taken());
        }
        let is_external_reference = match get_opt_bool(bag.take("isExternalReference"), "isExternalReference") {
            Ok(x) => x,
            Err(e) => { return Err(e) },
        };
        proof {
            assert(bag.taken() =~= organization_unit_scheme_names().subrange(0, 8));
            crate::codec::lemma_take_fresh(organization_unit_scheme_names(), 8, bag.taken());
        }
        let annotations = match parse_opt_vec::<Annotation>(bag.take("annotations"), "annotations") {
            Ok(x) => x,
            Err(e) => { return Err(e) },
        };
        proof {
            assert(bag.taken() =~= organization_unit_scheme_names().subrange(0, 9));
            crate::codec::lemma_take_fresh(organization_unit_scheme_names(), 9, bag.taken());
        }
        let links = match parse_opt_vec::<Link>(bag.take("links"), "links") {
            Ok(x) => x,
            Err(e) => { return Err(e) },
        };
        proof {
            assert(bag.taken() =~= organization_unit_scheme_names().subrange(0, 10));
            crate::codec::lemma_take_fresh(organization_unit_scheme_names(), 10, bag.taken());
        }
        let is_partial = match get_opt_bool(bag.take("isPartial"), "isPartial") {
            Ok(x) => x,
            Err(e) => { return Err(e) },
        };
        proof {
            assert(bag.taken() =~= organization_unit_scheme_names().subrange(0, 11));
            crate::codec::lemma_take_fresh(organization_unit_scheme_names(), 11, bag.taken());
        }
        let organization_units = match parse_opt_vec::<Item>(bag.take("organizationUnits"), "organizationUnits") {
            Ok(x) => x,
            Err(e) => { return Err(e) },
        };
        let ghost tk = bag.taken();
        let other = bag.rest();
        let out = OrganizationUnitScheme { id, agency_id, version, name, names, valid_from, valid_to, is_external_reference, annotations, links, is_partial, organization_units, other };
        proof {
            assert(tk =~= organization_unit_scheme_names());
            crate::codec::lemma_ext_fields_names(fs, tk);
            assert(organization_unit_scheme_pairs(out) =~= organization_unit_scheme_norm_pairs(fs));
        }
        Ok(out)
    }

    fn to_json(&self) -> (r: JsonValue) {
        let mut b = ObjBuilder::new();
        put_str(&mut b, "id", &self.id);
        put_opt_str(&mut b, "agencyId", &self.agency_id);
        put_opt_str(&mut b, "version", &self.version);
        put_opt_str(&mut b, "name", &self.name);
        put_opt_rec(&mut b, "names", &self.names);
        put_opt_str(&mut b, "validFrom", &self.valid_from);
        put_opt_str(&mut b, "validTo", &self.valid_to);
        put_opt_bool(&mut b, "isExternalReference", &self.is_external_reference);
        put_opt_vec(&mut b, "annotations", &self.annotations);
        put_opt_vec(&mut b, "links", &self.links);
        put_opt_bool(&mut b, "isPartial", &self.is_partial);
        put_opt_vec(&mut b, "organizationUnits", &self.organization_units);
        proof {
            let ps = organization_unit_scheme_pairs(*self);
            lemma_pairs_chain(ps, 12);
            assert(ps.subrange(0, 12) =~= ps);
            assert(b.view_fields() == present_fields(ps)) by {
                reveal_with_fuel(pairs_prefix_chunks, 13);
            }
        }
        finish_with_ext(b, &self.other)
    }

    #[verifier::rlimit(50)]
    #[verifier::spinoff_prover]
    proof fn lemma_canon(&self) {
        lemma_organization_unit_scheme_names_distinct();
        let ps = organization_unit_scheme_pairs(*self);
        let ext = self.other.view_fields();
        assert(names_of(ps) =~= organization_unit_scheme_names());
        assert(distinct_names(ps)) by {
            assert forall|i: int, j: int|
                0 <= i < j < ps.len() implies ps[i].0 != ps[j].0 by {
                assert(ps[i].0 == organization_unit_scheme_names()[i]);
                assert(ps[j].0 == organization_unit_scheme_names()[j]);
            }
        }
        assert(disjoint_from(ext, ps)) by {
            assert forall|i: int, j: int|
                0 <= i < ext.len() && 0 <= j < ps.len() implies ext[i].0 != ps[j].0 by {
                assert(!is_known_name(ext[i].0, organization_unit_scheme_names()));
                assert(organization_unit_scheme_names()[j] == ps[j].0);
            }
        }
        lemma_jv_get_present(ps, ext);
        lemma_ext_of_present(ps, ext);
        let fs = self.ser()->Obj_0;
        assert(jv_get(fs, "id"@) == ps[0].1);
        assert(jv_get(fs, "agencyId"@) == ps[1].1);
        assert(jv_get(fs, "version"@) == ps[2].1);
        assert(jv_get(fs, "name"@) == ps[3].1);
        assert(jv_get(fs, "names"@) == ps[4].1);
        assert(jv_get(fs, "validFrom"@) == ps[5].1);
        assert(jv_get(fs, "validTo"@) == ps[6].1);
        assert(jv_get(fs, "isExternalReference"@) == ps[7].1);
        assert(jv_get(fs, "annotations"@) == ps[8].1);
        assert(jv_get(fs, "links"@) == ps[9].1);
        assert(jv_get(fs, "isPartial"@) == ps[10].1);
        assert(jv_get(fs, "organizationUnits"@) == ps[11].1);
        match self.names {
            Some(t) => {
                t.lemma_canon();
            },
            None => {},
        }
        match &self.annotations {
            Some(v) => {
                lemma_arr_canon::<Annotation>(v@);
            },
            None => {},
        }
        match &self.links {
            Some(v) => {
                lemma_arr_canon::<Link>(v@);
            },
            None => {},
        }
        match &self.organization_units {
            Some(v) => {
                lemma_arr_canon::<Item>(v@);
            },
            None => {},
        }
        assert(Self::doc_ok(self.ser()));
        assert(organization_unit_scheme_norm_pairs(fs) =~= ps);
        assert(ext_fields(fs, names_of(ps)) == ext);
        assert(ext_fields(fs, organization_unit_scheme_names()) == ext);
    }
}

impl Artefact for OrganizationUnitScheme {
    open spec fn id_spec(&self) -> Seq<char> {
        self.id@
    }

    open spec fn agency_id_spec(&self) -> Option<Seq<char>> {
        ostr_view(self.agency_id)
    }

    open spec fn version_spec(&self) -> Option<Seq<char>> {
        ostr_view(self.version)
    }

    open spec fn name_spec(&self) -> Option<Seq<char>> {
        ostr_view(self.name)
    }

    open spec fn names_spec(&self) -> Option<LocalizedText> {
        self.names
    }

    open spec fn valid_from_spec(&self) -> Option<Seq<char>> {
        ostr_view(self.valid_from)
    }

    open spec fn valid_to_spec(&self) -> Option<Seq<char>> {
        ostr_view(self.valid_to)
    }

    open spec fn is_external_reference_spec(&self) -> Option<bool> {
        self.is_external_reference
    }

    open spec fn annotations_spec(&self) -> Option<Seq<Annotation>> {
        match self.annotations {
            Some(v) => Some(v@),
            None => None,
        }
    }

    open spec fn links_spec(&self) -> Option<Seq<Link>> {
        match self.links {
            Some(v) => Some(v@),
            None => None,
        }
    }

    fn id(&self) -> (r: &String) {
        &self.id
    }

    fn agency_id(&self) -> (r: Option<&String>) {
        self.agency_id.as_ref()
    }

    fn version(&self) -> (r: Option<&String>) {
        self.version.as_ref()
    }

    fn name(&self) -> (r: Option<&String>) {
        self.name.as_ref()
    }

    fn names(&self) -> (r: Option<&LocalizedText>) {
        self.names.as_ref()
    }

    fn valid_from(&self) -> (r: Option<&String>) {
        self.valid_from.as_ref()
    }

    fn valid_to(&self) -> (r: Option<&String>) {
        self.valid_to.as_ref()
    }

    fn is_external_reference(&self) -> (r: Option<bool>) {
        self.is_external_reference
    }

    fn annotations(&self) -> (r: Option<&Vec<Annotation>>) {
        self.annotations.as_ref()
    }

    fn links(&self) -> (r: Option<&Vec<Link>>) {
        self.links.as_ref()
    }
}

impl ItemScheme for OrganizationUnitScheme {
    open spec fn is_partial_spec(&self) -> Option<bool> {
        self.is_partial
    }

    open spec fn items_spec(&self) -> Option<Seq<Item>> {
        match self.organization_units {
            Some(v) => Some(v@),
            None => None,
        }
    }

    fn is_partial(&self) -> (r: Option<bool>) {
        self.is_partial
    }

    fn items(&self) -> (r: Option<&Vec<Item>>) {
        self.organization_units.as_ref()
    }

    fn set_items(&mut self, items: Option<Vec<Item>>) {
        self.organization_units = items;
    }

    fn clear_items(&mut self) {
        self.organization_units = None;
    }

    fn contains_items(&self) -> (r: bool) {
        match &self.organization_units {
            Some(v) => v.len() > 0,
            None => false,
        }
    }
}

/// The structure of data provided for different reference periods.
#[derive(Debug, PartialEq)]
pub struct Dataflow {
    pub id: String,
    pub agency_id: Option<String>,
    pub version: Option<String>,
    pub name: Option<String>,
    pub names: Option<LocalizedText>,
    pub valid_from: Option<String>,
    pub valid_to: Option<String>,
    pub is_external_reference: Option<bool>,
    pub annotations: Option<Vec<Annotation>>,
    pub links: Option<Vec<Link>>,
    pub structure: Option<String>,
    pub other: Extensions,
}

pub open spec fn dataflow_names() -> Seq<Seq<char>> {
    seq!["id"@, "agencyId"@, "version"@, "name"@, "names"@, "validFrom"@, "validTo"@, "isExternalReference"@, "annotations"@, "links"@, "structure"@]
}

pub open spec fn dataflow_pairs(x: Dataflow) -> Seq<(Seq<char>, Option<JVal>)> {
    seq![
        ("id"@, Some(JVal::Str(x.id@))),
        ("agencyId"@, jv_of_ostr(ostr_view(x.agency_id))),
        ("version"@, jv_of_ostr(ostr_view(x.version))),
        ("name"@, jv_of_ostr(ostr_view(x.name))),
        ("names"@, orec_ser(x.names)),
        ("validFrom"@, jv_of_ostr(ostr_view(x.valid_from))),
        ("validTo"@, jv_of_ostr(ostr_view(x.valid_to))),
        ("isExternalReference"@, jv_of_obool(x.is_external_reference)),
        ("annotations"@, ovec_ser(x.annotations)),
        ("links"@, ovec_ser(x.links)),
        ("structure"@, jv_of_ostr(ostr_view(x.structure))),
    ]
}

pub open spec fn dataflow_norm_pairs(fs: Seq<(Seq<char>, JVal)>) -> Seq<(Seq<char>, Option<JVal>)> {
    seq![
        ("id"@, jv_of_ostr(opt_str(jv_get(fs, "id"@)))),
        ("agencyId"@, jv_of_ostr(opt_str(jv_get(fs, "agencyId"@)))),
        ("version"@, jv_of_ostr(opt_str(jv_get(fs, "version"@)))),
        ("name"@, jv_of_ostr(opt_str(jv_get(fs, "name"@)))),
        ("names"@, opt_rec_norm::<LocalizedText>(jv_get(fs, "names"@))),
        ("validFrom"@, jv_of_ostr(opt_str(jv_get(fs, "validFrom"@)))),
        ("validTo"@, jv_of_ostr(opt_str(jv_get(fs, "validTo"@)))),
        ("isExternalReference"@, jv_of_obool(opt_bool(jv_get(fs, "isExternalReference"@)))),
        ("annotations"@, opt_recarr_norm::<Annotation>(jv_get(fs, "annotations"@))),
        ("links"@, opt_recarr_norm::<Link>(jv_get(fs, "links"@))),
        ("structure"@, jv_of_ostr(opt_str(jv_get(fs, "structure"@)))),
    ]
}

/// The names this record knows are pairwise distinct.
pub proof fn lemma_dataflow_names_distinct()
    ensures
        forall|i: int, j: int|
            0 <= i < j < dataflow_names().len() ==> dataflow_names()[i] != dataflow_names()[j],
{
    reveal_strlit("id");
    reveal_strlit("agencyId");
    reveal_strlit("version");
    reveal_strlit("name");
    reveal_strlit("names");
    reveal_strlit("validFrom");
    reveal_strlit("validTo");
    reveal_strlit("isExternalReference");
    reveal_strlit("annotations");
    reveal_strlit("links");
    reveal_strlit("structure");
    let ns = dataflow_names();
    assert(ns.len() == 11);
    assert forall|i: int, j: int| 0 <= i < j < ns.len() implies ns[i] != ns[j] by {
        assert("id"@.len() == 2);
        assert("agencyId"@.len() == 8);
        assert("version"@.len() == 7);
        assert("name"@.len() == 4);
        assert("names"@.len() == 5);
        assert("validFrom"@.len() == 9);
        assert("validTo"@.len() == 7);
        assert("isExternalReference"@.len() == 19);
        assert("annotations"@.len() == 11);
        assert("links"@.len() == 5);
        assert("structure"@.len() == 9);
        assert("version"@[1] == 'e');
        assert("validTo"@[1] == 'a');
        assert("names"@[0] == 'n');
        assert("links"@[0] == 'l');
        assert("validFrom"@[0] == 'v');
        assert("structure"@[0] == 's');
    }
}

impl JsonForm for Dataflow {
    open spec fn wf(&self) -> bool {
        &&& ext_ok(self.other.view_fields(), dataflow_names())
        &&& crate::fields::window_le(ostr_view(self.valid_from), ostr_view(self.valid_to))
        &&& orec_wf(self.names)
        &&& ovec_wf(self.annotations)
        &&& ovec_wf(self.links)
    }

    open spec fn ser(&self) -> JVal {
        JVal::Obj(present_fields(dataflow_pairs(*self)) + self.other.view_fields())
    }

    open spec fn doc_ok(v: JVal) -> bool {
        &&& v is Obj
        &&& {
            let fs = v->Obj_0;
            &&& is_req_str(jv_get(fs, "id"@))
            &&& is_opt_str(jv_get(fs, "agencyId"@))
            &&& is_opt_str(jv_get(fs, "version"@))
            &&& is_opt_str(jv_get(fs, "name"@))
            &&& is_opt_rec::<LocalizedText>(jv_get(fs, "names"@))
            &&& is_opt_str(jv_get(fs, "validFrom"@))
            &&& is_opt_str(jv_get(fs, "validTo"@))
            &&& crate::fields::window_le(
                opt_str(jv_get(fs, "validFrom"@)),
                opt_str(jv_get(fs, "validTo"@)),
            )
            &&& is_opt_bool(jv_get(fs, "isExternalReference"@))
            &&& is_opt_recarr::<Annotation>(jv_get(fs, "annotations"@))
            &&& is_opt_recarr::<Link>(jv_get(fs, "links"@))
            &&& is_opt_str(jv_get(fs, "structure"@))
        }
    }

    open spec fn doc_norm(v: JVal) -> JVal {
        JVal::Obj(
            present_fields(dataflow_norm_pairs(v->Obj_0)) + ext_fields(v->Obj_0, dataflow_names()),
        )
    }

    #[verifier::rlimit(50)]
    fn from_json(v: JsonValue) -> (r: Result<Self, ParseError>) {
        let o = match v {
            JsonValue::Obj(o) => o,
            _ => { return Err(ParseError::NotObject) },
        };
        let ghost fs = jview_field_vec(o);
        let mut bag = FieldBag::new(o);
        proof {
            lemma_dataflow_names_distinct();
        }
        proof {
            assert(bag.taken() =~= dataflow_names().subrange(0, 0));
            crate::codec::lemma_take_fresh(dataflow_names(), 0, bag.taken());
        }
        let id = match get_req_string(bag.take("id"), "id") {
            Ok(x) => x,
            Err(e) => { return Err(e) },
        };
        proof {
            assert(bag.taken() =~= dataflow_names().subrange(0, 1));
            crate::codec::lemma_take_fresh(dataflow_names(), 1, bag.taken());
        }
        let agency_id = match get_opt_string(bag.take("agencyId"), "agencyId") {
            Ok(x) => x,
            Err(e) => { return Err(e) },
        };
        proof {
            assert(bag.taken() =~= dataflow_names().subrange(0, 2));
            crate::codec::lemma_take_fresh(dataflow_names(), 2, bag.taken());
        }
        let version = match get_opt_string(bag.take("version"), "version") {
            Ok(x) => x,
            Err(e) => { return Err(e) },
        };
        proof {
            assert(bag.taken() =~= dataflow_names().subrange(0, 3));
            crate::codec::lemma_take_fresh(dataflow_names(), 3, bag.taken());
        }
        let name = match get_opt_string(bag.take("name"), "name") {
            Ok(x) => x,
            Err(e) => { return Err(e) },
        };
        proof {
            assert(bag.taken() =~= dataflow_names().subrange(0, 4));
            crate::codec::lemma_take_fresh(dataflow_names(), 4, bag.taken());
        }
        let names = match parse_opt::<LocalizedText>(bag.take("names")) {
            Ok(x) => x,
            Err(e) => { return Err(e) },
        };
        proof {
            assert(bag.taken() =~= dataflow_names().subrange(0, 5));
            crate::codec::lemma_take_fresh(dataflow_names(), 5, bag.taken());
        }
        let valid_from = match get_opt_string(bag.take("validFrom"), "validFrom") {
            Ok(x) => x,
            Err(e) => { return Err(e) },
        };
        proof {
            assert(bag.taken() =~= dataflow_names().subrange(0, 6));
            crate::codec::lemma_take_fresh(dataflow_names(), 6, bag.taken());
        }
        let valid_to = match get_opt_string(bag.take("validTo"), "validTo") {
            Ok(x) => x,
            Err(e) => { return Err(e) },
        };
        match (&valid_from, &valid_to) {
            (Some(f), Some(t)) => {
                if !crate::fields::str_le(f.as_str(), t.as_str()) {
                    return Err(
                        ParseError::Shape("validTo".to_owned(), crate::fields::ValueKind::Window),
                    );
                }
            },
            _ => (),
        }
        proof {
            assert(bag.taken() =~= dataflow_names().subrange(0, 7));
            crate::codec::lemma_take_fresh(dataflow_names(), 7, bag.taken());
        }
        let is_external_reference = match get_opt_bool(bag.take("isExternalReference"), "isExternalReference") {
            Ok(x) => x,
            Err(e) => { return Err(e) },
        };
        proof {
            assert(bag.taken() =~= dataflow_names().subrange(0, 8));
            crate::codec::lemma_take_fresh(dataflow_names(), 8, bag.taken());
        }
        let annotations = match parse_opt_vec::<Annotation>(bag.take("annotations"), "annotations") {
            Ok(x) => x,
            Err(e) => { return Err(e) },
        };
        proof {
            assert(bag.taken() =~= dataflow_names().subrange(0, 9));
            crate::codec::lemma_take_fresh(dataflow_names(), 9, bag.taken());
        }
        let links = match parse_opt_vec::<Link>(bag.take("links"), "links") {
            Ok(x) => x,
            Err(e) => { return Err(e) },
        };
        proof {
            assert(bag.taken() =~= dataflow_names().subrange(0, 10));
            crate::codec::lemma_take_fresh(dataflow_names(), 10, bag.taken());
        }
        let structure = match get_opt_string(bag.take("structure"), "structure") {
            Ok(x) => x,
            Err(e) => { return Err(e) },
        };
        let ghost tk = bag.taken();
        let other = bag.rest();
        let out = Dataflow { id, agency_id, version, name, names, valid_from, valid_to, is_external_reference, annotations, links, structure, other };
        proof {
            assert(tk =~= dataflow_names());
            crate::codec::lemma_ext_fields_names(fs, tk);
            assert(dataflow_pairs(out) =~= dataflow_norm_pairs(fs));
        }
        Ok(out)
    }

    fn to_json(&self) -> (r: JsonValue) {
        let mut b = ObjBuilder::new();
        put_str(&mut b, "id", &self.id);
        put_opt_str(&mut b, "agencyId", &self.agency_id);
        put_opt_str(&mut b, "version", &self.version);
        put_opt_str(&mut b, "name", &self.name);
        put_opt_rec(&mut b, "names", &self.names);
        put_opt_str(&mut b, "validFrom", &self.valid_from);
        put_opt_str(&mut b, "validTo", &self.valid_to);
        put_opt_bool(&mut b, "isExternalReference", &self.is_external_reference);
        put_opt_vec(&mut b, "annotations", &self.annotations);
        put_opt_vec(&mut b, "links", &self.links);
        put_opt_str(&mut b, "structure", &self.structure);
        proof {
            let ps = dataflow_pairs(*self);
            lemma_pairs_chain(ps, 11);
            assert(ps.subrange(0, 11) =~= ps);
            assert(b.view_fields() == present_fields(ps)) by {
                reveal_with_fuel(pairs_prefix_chunks, 12);
            }
        }
        finish_with_ext(b, &self.other)
    }

    #[verifier::rlimit(50)]
    #[verifier::spinoff_prover]
    proof fn lemma_canon(&self) {
        lemma_dataflow_names_distinct();
        let ps = dataflow_pairs(*self);
        let ext = self.other.view_fields();
        assert(names_of(ps) =~= dataflow_names());
        assert(distinct_names(ps)) by {
            assert forall|i: int, j: int|
                0 <= i < j < ps.len() implies ps[i].0 != ps[j].0 by {
                assert(ps[i].0 == dataflow_names()[i]);
                assert(ps[j].0 == dataflow_names()[j]);
            }
        }
        assert(disjoint_from(ext, ps)) by {
            assert forall|i: int, j: int|
                0 <= i < ext.len() && 0 <= j < ps.len() implies ext[i].0 != ps[j].0 by {
                assert(!is_known_name(ext[i].0, dataflow_names()));
                assert(dataflow_names()[j] == ps[j].0);
            }
        }
        lemma_jv_get_present(ps, ext);
        lemma_ext_of_present(ps, ext);
        let fs = self.ser()->Obj_0;
        assert(jv_get(fs, "id"@) == ps[0].1);
        assert(jv_get(fs, "agencyId"@) == ps[1].1);
        assert(jv_get(fs, "version"@) == ps[2].1);
        assert(jv_get(fs, "name"@) == ps[3].1);
        assert(jv_get(fs, "names"@) == ps[4].1);
        assert(jv_get(fs, "validFrom"@) == ps[5].1);
        assert(jv_get(fs, "validTo"@) == ps[6].1);
        assert(jv_get(fs, "isExternalReference"@) == ps[7].1);
        assert(jv_get(fs, "annotations"@) == ps[8].1);
        assert(jv_get(fs, "links"@) == ps[9].1);
        assert(jv_get(fs, "structure"@) == ps[10].1);
        match self.names {
            Some(t) => {
                t.lemma_canon();
            },
            None => {},
        }
        match &self.annotations {
            Some(v) => {
                lemma_arr_canon::<Annotation>(v@);
            },
            None => {},
        }
        match &self.links {
            Some(v) => {
                lemma_arr_canon::<Link>(v@);
            },
            None => {},
        }
        assert(Self::doc_ok(self.ser()));
        assert(dataflow_norm_pairs(fs) =~= ps);
        assert(ext_fields(fs, names_of(ps)) == ext);
        assert(ext_fields(fs, dataflow_names()) == ext);
    }
}

impl Artefact for Dataflow {
    open spec fn id_spec(&self) -> Seq<char> {
        self.id@
    }

    open spec fn agency_id_spec(&self) -> Option<Seq<char>> {
        ostr_view(self.agency_id)
    }

    open spec fn version_spec(&self) -> Option<Seq<char>> {
        ostr_view(self.version)
    }

    open spec fn name_spec(&self) -> Option<Seq<char>> {
        ostr_view(self.name)
    }

    open spec fn names_spec(&self) -> Option<LocalizedText> {
        self.names
    }

    open spec fn valid_from_spec(&self) -> Option<Seq<char>> {
        ostr_view(self.valid_from)
    }

    open spec fn valid_to_spec(&self) -> Option<Seq<char>> {
        ostr_view(self.valid_to)
    }

    open spec fn is_external_reference_spec(&self) -> Option<bool> {
        self.is_external_reference
    }

    open spec fn annotations_spec(&self) -> Option<Seq<Annotation>> {
        match self.annotations {
            Some(v) => Some(v@),
            None => None,
        }
    }

    open spec fn links_spec(&self) -> Option<Seq<Link>> {
        match self.links {
            Some(v) => Some(v@),
            None => None,
        }
    }

    fn id(&self) -> (r: &String) {
        &self.id
    }

    fn agency_id(&self) -> (r: Option<&String>) {
        self.agency_id.as_ref()
    }

    fn version(&self) -> (r: Option<&String>) {
        self.version.as_ref()
    }

    fn name(&self) -> (r: Option<&String>) {
        self.name.as_ref()
    }

    fn names(&self) -> (r: Option<&LocalizedText>) {
        self.names.as_ref()
    }

    fn valid_from(&self) -> (r: Option<&String>) {
        self.valid_from.as_ref()
    }

    fn valid_to(&self) -> (r: Option<&String>) {
        self.valid_to.as_ref()
    }

    fn is_external_reference(&self) -> (r: Option<bool>) {
        self.is_external_reference
    }

    fn annotations(&self) -> (r: Option<&Vec<Annotation>>) {
        self.annotations.as_ref()
    }

    fn links(&self) -> (r: Option<&Vec<Link>>) {
        self.links.as_ref()
    }
}

/// The item scheme for name personalization.
#[derive(Debug, PartialEq)]
pub struct NamePersonalizationScheme {
    pub id: String,
    pub agency_id: Option<String>,
    pub version: Option<String>,
    pub name: Option<String>,
    pub names: Option<LocalizedText>,
    pub valid_from: Option<String>,
    pub valid_to: Option<String>,
    pub is_external_reference: Option<bool>,
    pub annotations: Option<Vec<Annotation>>,
    pub links: Option<Vec<Link>>,
    pub is_partial: Option<bool>,
    pub name_personalizations: Option<Vec<Item>>,
    pub other: Extensions,
}

pub open spec fn name_personalization_scheme_names() -> Seq<Seq<char>> {
    seq!["id"@, "agencyId"@, "version"@, "name"@, "names"@, "validFrom"@, "validTo"@, "isExternalReference"@, "annotations"@, "links"@, "isPartial"@, "namePersonalizations"@]
}

pub open spec fn name_personalization_scheme_pairs(x: NamePersonalizationScheme) -> Seq<(Seq<char>, Option<JVal>)> {
    seq![
        ("id"@, Some(JVal::Str(x.id@))),
        ("agencyId"@, jv_of_ostr(ostr_view(x.agency_id))),
        ("version"@, jv_of_ostr(ostr_view(x.version))),
        ("name"@, jv_of_ostr(ostr_view(x.name))),
        ("names"@, orec_ser(x.names)),
        ("validFrom"@, jv_of_ostr(ostr_view(x.valid_from))),
        ("validTo"@, jv_of_ostr(ostr_view(x.valid_to))),
        ("isExternalReference"@, jv_of_obool(x.is_external_reference)),
        ("annotations"@, ovec_ser(x.annotations)),
        ("links"@, ovec_ser(x.links)),
        ("isPartial"@, jv_of_obool(x.is_partial)),
        ("namePersonalizations"@, ovec_ser(x.name_personalizations)),
    ]
}

pub open spec fn name_personalization_scheme_norm_pairs(fs: Seq<(Seq<char>, JVal)>) -> Seq<(Seq<char>, Option<JVal>)> {
    seq![
        ("id"@, jv_of_ostr(opt_str(jv_get(fs, "id"@)))),
        ("agencyId"@, jv_of_ostr(opt_str(jv_get(fs, "agencyId"@)))),
        ("version"@, jv_of_ostr(opt_str(jv_get(fs, "version"@)))),
        ("name"@, jv_of_ostr(opt_str(jv_get(fs, "name"@)))),
        ("names"@, opt_rec_norm::<LocalizedText>(jv_get(fs, "names"@))),
        ("validFrom"@, jv_of_ostr(opt_str(jv_get(fs, "validFrom"@)))),
        ("validTo"@, jv_of_ostr(opt_str(jv_get(fs, "validTo"@)))),
        ("isExternalReference"@, jv_of_obool(opt_bool(jv_get(fs, "isExternalReference"@)))),
        ("annotations"@, opt_recarr_norm::<Annotation>(jv_get(fs, "annotations"@))),
        ("links"@, opt_recarr_norm::<Link>(jv_get(fs, "links"@))),
        ("isPartial"@, jv_of_obool(opt_bool(jv_get(fs, "isPartial"@)))),
        ("namePersonalizations"@, opt_recarr_norm::<Item>(jv_get(fs, "namePersonalizations"@))),
    ]
}

/// The names this record knows are pairwise distinct.
pub proof fn lemma_name_personalization_scheme_names_distinct()
    ensures
        forall|i: int, j: int|
            0 <= i < j < name_personalization_scheme_names().len() ==> name_personalization_scheme_names()[i] != name_personalization_scheme_names()[j],
{
    reveal_strlit("id");
    reveal_strlit("agencyId");
    reveal_strlit("version");
    reveal_strlit("name");
    reveal_strlit("names");
    reveal_strlit("validFrom");
    reveal_strlit("validTo");
    reveal_strlit("isExternalReference");
    reveal_strlit("annotations");
    reveal_strlit("links");
    reveal_strlit("isPartial");
    reveal_strlit("namePersonalizations");
    let ns = name_personalization_scheme_names();
    assert(ns.len() == 12);
    assert forall|i: int, j: int| 0 <= i < j < ns.len() implies ns[i] != ns[j] by {
        assert("id"@.len() == 2);
        assert("agencyId"@.len() == 8);
        assert("version"@.len() == 7);
        assert("name"@.len() == 4);
        assert("names"@.len() == 5);
        assert("validFrom"@.len() == 9);
        assert("validTo"@.len() == 7);
        assert("isExternalReference"@.len() == 19);
        assert("annotations"@.len() == 11);
        assert("links"@.len() == 5);
        assert("isPartial"@.len() == 9);
        assert("namePersonalizations"@.len() == 20);
        assert("version"@[1] == 'e');
        assert("validTo"@[1] == 'a');
        assert("names"@[0] == 'n');
        assert("links"@[0] == 'l');
        assert("validFrom"@[0] == 'v');
        assert("isPartial"@[0] == 'i');
    }
}

impl JsonForm for NamePersonalizationScheme {
    open spec fn wf(&self) -> bool {
        &&& ext_ok(self.other.view_fields(), name_personalization_scheme_names())
        &&& crate::fields::window_le(ostr_view(self.valid_from), ostr_view(self.valid_to))
        &&& orec_wf(self.names)
        &&& ovec_wf(self.annotations)
        &&& ovec_wf(self.links)
        &&& ovec_wf(self.name_personalizations)
    }

    open spec fn ser(&self) -> JVal {
        JVal::Obj(present_fields(name_personalization_scheme_pairs(*self)) + self.other.view_fields())
    }

    open spec fn doc_ok(v: JVal) -> bool {
        &&& v is Obj
        &&& {
            let fs = v->Obj_0;
            &&& is_req_str(jv_get(fs, "id"@))
            &&& is_opt_str(jv_get(fs, "agencyId"@))
            &&& is_opt_str(jv_get(fs, "version"@))
            &&& is_opt_str(jv_get(fs, "name"@))
            &&& is_opt_rec::<LocalizedText>(jv_get(fs, "names"@))
            &&& is_opt_str(jv_get(fs, "validFrom"@))
            &&& is_opt_str(jv_get(fs, "validTo"@))
            &&& crate::fields::window_le(
                opt_str(jv_get(fs, "validFrom"@)),
                opt_str(jv_get(fs, "validTo"@)),
            )
            &&& is_opt_bool(jv_get(fs, "isExternalReference"@))
            &&& is_opt_recarr::<Annotation>(jv_get(fs, "annotations"@))
            &&& is_opt_recarr::<Link>(jv_get(fs, "links"@))
            &&& is_opt_bool(jv_get(fs, "isPartial"@))
            &&& is_opt_recarr::<Item>(jv_get(fs, "namePersonalizations"@))
        }
    }

    open spec fn doc_norm(v: JVal) -> JVal {
        JVal::Obj(
            present_fields(name_personalization_scheme_norm_pairs(v->Obj_0)) + ext_fields(v->Obj_0, name_personalization_scheme_names()),
        )
    }

    #[verifier::rlimit(50)]
    fn from_json(v: JsonValue) -> (r: Result<Self, ParseError>) {
        let o = match v {
            JsonValue::Obj(o) => o,
            _ => { return Err(ParseError::NotObject) },
        };
        let ghost fs = jview_field_vec(o);
        let mut bag = FieldBag::new(o);
        proof {
            lemma_name_personalization_scheme_names_distinct();
        }
        proof {
            assert(bag.taken() =~= name_personalization_scheme_names().subrange(0, 0));
            crate::codec::lemma_take_fresh(name_personalization_scheme_names(), 0, bag.taken());
        }
        let id = match get_req_string(bag.take("id"), "id") {
            Ok(x) => x,
            Err(e) => { return Err(e) },
        };
        proof {
            assert(bag.taken() =~= name_personalization_scheme_names().subrange(0, 1));
            crate::codec::lemma_take_fresh(name_personalization_scheme_names(), 1, bag.taken());
        }
        let agency_id = match get_opt_string(bag.take("agencyId"), "agencyId") {
            Ok(x) => x,
            Err(e) => { return Err(e) },
        };
        proof {
            assert(bag.taken() =~= name_personalization_scheme_names().subrange(0, 2));
            crate::codec::lemma_take_fresh(name_personalization_scheme_names(), 2, bag.taken());
        }
        let version = match get_opt_string(bag.take("version"), "version") {
            Ok(x) => x,
            Err(e) => { return Err(e) },
        };
        proof {
            assert(bag.taken() =~= name_personalization_scheme_names().subrange(0, 3));
            crate::codec::lemma_take_fresh(name_personalization_scheme_names(), 3, bag.taken());
        }
        let name = match get_opt_string(bag.take("name"), "name") {
            Ok(x) => x,
            Err(e) => { return Err(e) },
        };
        proof {
            assert(bag.taken() =~= name_personalization_scheme_names().subrange(0, 4));
            crate::codec::lemma_take_fresh(name_personalization_scheme_names(), 4, bag.taken());
        }
        let names = match parse_opt::<LocalizedText>(bag.take("names")) {
            Ok(x) => x,
            Err(e) => { return Err(e) },
        };
        proof {
            assert(bag.taken() =~= name_personalization_scheme_names().subrange(0, 5));
            crate::codec::lemma_take_fresh(name_personalization_scheme_names(), 5, bag.taken());
        }
        let valid_from = match get_opt_string(bag.take("validFrom"), "validFrom") {
            Ok(x) => x,
            Err(e) => { return Err(e) },
        };
        proof {
            assert(bag.taken() =~= name_personalization_scheme_names().subrange(0, 6));
            crate::codec::lemma_take_fresh(name_personalization_scheme_names(), 6, bag.taken());
        }
        let valid_to = match get_opt_string(bag.take("validTo"), "validTo") {
            Ok(x) => x,
            Err(e) => { return Err(e) },
        };
        match (&valid_from, &valid_to) {
            (Some(f), Some(t)) => {
                if !crate::fields::str_le(f.as_str(), t.as_str()) {
                    return Err(
                        ParseError::Shape("validTo".to_owned(), crate::fields::ValueKind::Window),
                    );
                }
            },
            _ => (),
        }
        proof {
            assert(bag.taken() =~= name_personalization_scheme_names().subrange(0, 7));
            crate::codec::lemma_take_fresh(name_personalization_scheme_names(), 7, bag.taken());
        }
        let is_external_reference = match get_opt_bool(bag.take("isExternalReference"), "isExternalReference") {
            Ok(x) => x,
            Err(e) => { return Err(e) },
        };
        proof {
            assert(bag.taken() =~= name_personalization_scheme_names().subrange(0, 8));
            crate::codec::lemma_take_fresh(name_personalization_scheme_names(), 8, bag.taken());
        }
        let annotations = match parse_opt_vec::<Annotation>(bag.take("annotations"), "annotations") {
            Ok(x) => x,
            Err(e) => { return Err(e) },
        };
        proof {
            assert(bag.taken() =~= name_personalization_scheme_names().subrange(0, 9));
            crate::codec::lemma_take_fresh(name_personalization_scheme_names(), 9, bag.taken());
        }
        let links = match parse_opt_vec::<Link>(bag.take("links"), "links") {
            Ok(x) => x,
            Err(e) => { return Err(e) },
        };
        proof {
            assert(bag.taken() =~= name_personalization_scheme_names().subrange(0, 10));
            crate::codec::lemma_take_fresh(name_personalization_scheme_names(), 10, bag.taken());
        }
        let is_partial = match get_opt_bool(bag.take("isPartial"), "isPartial") {
            Ok(x) => x,
            Err(e) => { return Err(e) },
        };
        proof {
            assert(bag.taken() =~= name_personalization_scheme_names().subrange(0, 11));
            crate::codec::lemma_take_fresh(name_personalization_scheme_names(), 11, bag.taken());
        }
        let name_personalizations = match parse_opt_vec::<Item>(bag.take("namePersonalizations"), "namePersonalizations") {
            Ok(x) => x,
            Err(e) => { return Err(e) },
        };
        let ghost tk = bag.taken();
        let other = bag.rest();
        let out = NamePersonalizationScheme { id, agency_id, version, name, names, valid_from, valid_to, is_external_reference, annotations, links, is_partial, name_personalizations, other };
        proof {
            assert(tk =~= name_personalization_scheme_names());
            crate::codec::lemma_ext_fields_names(fs, tk);
            assert(name_personalization_scheme_pairs(out) =~= name_personalization_scheme_norm_pairs(fs));
        }
        Ok(out)
    }

    fn to_json(&self) -> (r: JsonValue) {
        let mut b = ObjBuilder::new();
        put_str(&mut b, "id", &self.id);
        put_opt_str(&mut b, "agencyId", &self.agency_id);
        put_opt_str(&mut b, "version", &self.version);
        put_opt_str(&mut b, "name", &self.name);
        put_opt_rec(&mut b, "names", &self.names);
        put_opt_str(&mut b, "validFrom", &self.valid_from);
        put_opt_str(&mut b, "validTo", &self.valid_to);
        put_opt_bool(&mut b, "isExternalReference", &self.is_external_reference);
        put_opt_vec(&mut b, "annotations", &self.annotations);
        put_opt_vec(&mut b, "links", &self.links);
        put_opt_bool(&mut b, "isPartial", &self.is_partial);
        put_opt_vec(&mut b, "namePersonalizations", &self.name_personalizations);
        proof {
            let ps = name_personalization_scheme_pairs(*self);
            lemma_pairs_chain(ps, 12);
            assert(ps.subrange(0, 12) =~= ps);
            assert(b.view_fields() == present_fields(ps)) by {
                reveal_with_fuel(pairs_prefix_chunks, 13);
            }
        }
        finish_with_ext(b, &self.other)
    }

    #[verifier::rlimit(50)]
    #[verifier::spinoff_prover]
    proof fn lemma_canon(&self) {
        lemma_name_personalization_scheme_names_distinct();
        let ps = name_personalization_scheme_pairs(*self);
        let ext = self.other.view_fields();
        assert(names_of(ps) =~= name_personalization_scheme_names());
        assert(distinct_names(ps)) by {
            assert forall|i: int, j: int|
                0 <= i < j < ps.len() implies ps[i].0 != ps[j].0 by {
                assert(ps[i].0 == name_personalization_scheme_names()[i]);
                assert(ps[j].0 == name_personalization_scheme_names()[j]);
            }
        }
        assert(disjoint_from(ext, ps)) by {
            assert forall|i: int, j: int|
                0 <= i < ext.len() && 0 <= j < ps.len() implies ext[i].0 != ps[j].0 by {
                assert(!is_known_name(ext[i].0, name_personalization_scheme_names()));
                assert(name_personalization_scheme_names()[j] == ps[j].0);
            }
        }
        lemma_jv_get_present(ps, ext);
        lemma_ext_of_present(ps, ext);
        let fs = self.ser()->Obj_0;
        assert(jv_get(fs, "id"@) == ps[0].1);
        assert(jv_get(fs, "agencyId"@) == ps[1].1);
        assert(jv_get(fs, "version"@) == ps[2].1);
        assert(jv_get(fs, "name"@) == ps[3].1);
        assert(jv_get(fs, "names"@) == ps[4].1);
        assert(jv_get(fs, "validFrom"@) == ps[5].1);
        assert(jv_get(fs, "validTo"@) == ps[6].1);
        assert(jv_get(fs, "isExternalReference"@) == ps[7].1);
        assert(jv_get(fs, "annotations"@) == ps[8].1);
        assert(jv_get(fs, "links"@) == ps[9].1);
        assert(jv_get(fs, "isPartial"@) == ps[10].1);
        assert(jv_get(fs, "namePersonalizations"@) == ps[11].1);
        match self.names {
            Some(t) => {
                t.lemma_canon();
            },
            None => {},
        }
        match &self.annotations {
            Some(v) => {
                lemma_arr_canon::<Annotation>(v@);
            },
            None => {},
        }
        match &self.links {
            Some(v) => {
                lemma_arr_canon::<Link>(v@);
            },
            None => {},
        }
        match &self.name_personalizations {
            Some(v) => {
                lemma_arr_canon::<Item>(v@);
            },
            None => {},
        }
        assert(Self::doc_ok(self.ser()));
        assert(name_personalization_scheme_norm_pairs(fs) =~= ps);
        assert(ext_fields(fs, names_of(ps)) == ext);
        assert(ext_fields(fs, name_personalization_scheme_names()) == ext);
    }
}

impl Artefact for NamePersonalizationScheme {
    open spec fn id_spec(&self) -> Seq<char> {
        self.id@
    }

    open spec fn agency_id_spec(&self) -> Option<Seq<char>> {
        ostr_view(self.agency_id)
    }

    open spec fn version_spec(&self) -> Option<Seq<char>> {
        ostr_view(self.version)
    }

    open spec fn name_spec(&self) -> Option<Seq<char>> {
        ostr_view(self.name)
    }

    open spec fn names_spec(&self) -> Option<LocalizedText> {
        self.names
    }

    open spec fn valid_from_spec(&self) -> Option<Seq<char>> {
        ostr_view(self.valid_from)
    }

    open spec fn valid_to_spec(&self) -> Option<Seq<char>> {
        ostr_view(self.valid_to)
    }

    open spec fn is_external_reference_spec(&self) -> Option<bool> {
        self.is_external_reference
    }

    open spec fn annotations_spec(&self) -> Option<Seq<Annotation>> {
        match self.annotations {
            Some(v) => Some(v@),
            None => None,
        }
    }

    open spec fn links_spec(&self) -> Option<Seq<Link>> {
        match self.links {
            Some(v) => Some(v@),
            None => None,
        }
    }

    fn id(&self) -> (r: &String) {
        &self.id
    }

    fn agency_id(&self) -> (r: Option<&String>) {
        self.agency_id.as_ref()
    }

    fn version(&self) -> (r: Option<&String>) {
        self.version.as_ref()
    }

    fn name(&self) -> (r: Option<&String>) {
        self.name.as_ref()
    }

    fn names(&self) -> (r: Option<&LocalizedText>) {
        self.names.as_ref()
    }

    fn valid_from(&self) -> (r: Option<&String>) {
        self.valid_from.as_ref()
    }

    fn valid_to(&self) -> (r: Option<&String>) {
        self.valid_to.as_ref()
    }

    fn is_external_reference(&self) -> (r: Option<bool>) {
        self.is_external_reference
    }

    fn annotations(&self) -> (r: Option<&Vec<Annotation>>) {
        self.annotations.as_ref()
    }

    fn links(&self) -> (r: Option<&Vec<Link>>) {
        self.links.as_ref()
    }
}

impl ItemScheme for NamePersonalizationScheme {
    open spec fn is_partial_spec(&self) -> Option<bool> {
        self.is_partial
    }

    open spec fn items_spec(&self) -> Option<Seq<Item>> {
        match self.name_personalizations {
            Some(v) => Some(v@),
            None => None,
        }
    }

    fn is_partial(&self) -> (r: Option<bool>) {
        self.is_partial
    }

    fn items(&self) -> (r: Option<&Vec<Item>>) {
        self.name_personalizations.as_ref()
    }

    fn set_items(&mut self, items: Option<Vec<Item>>) {
        self.name_personalizations = items;
    }

    fn clear_items(&mut self) {
        self.name_personalizations = None;
    }

    fn contains_items(&self) -> (r: bool) {
        match &self.name_personalizations {
            Some(v) => v.len() > 0,
            None => false,
        }
    }
}

/// The item scheme for a reporting taxonomy.
#[derive(Debug, PartialEq)]
pub struct ReportingTaxonomy {
    pub id: String,
    pub agency_id: Option<String>,
    pub version: Option<String>,
    pub name: Option<String>,
    pub names: Option<LocalizedText>,
    pub valid_from: Option<String>,
    pub valid_to: Option<String>,
    pub is_external_reference: Option<bool>,
    pub annotations: Option<Vec<Annotation>>,
    pub links: Option<Vec<Link>>,
    pub is_partial: Option<bool>,
    pub reporting_categories: Option<Vec<Item>>,
    pub other: Extensions,
}

pub open spec fn reporting_taxonomy_names() -> Seq<Seq<char>> {
    seq!["id"@, "agencyId"@, "version"@, "name"@, "names"@, "validFrom"@, "validTo"@, "isExternalReference"@, "annotations"@, "links"@, "isPartial"@, "reportingCategories"@]
}

pub open spec fn reporting_taxonomy_pairs(x: ReportingTaxonomy) -> Seq<(Seq<char>, Option<JVal>)> {
    seq![
        ("id"@, Some(JVal::Str(x.id@))),
        ("agencyId"@, jv_of_ostr(ostr_view(x.agency_id))),
        ("version"@, jv_of_ostr(ostr_view(x.version))),
        ("name"@, jv_of_ostr(ostr_view(x.name))),
        ("names"@, orec_ser(x.names)),
        ("validFrom"@, jv_of_ostr(ostr_view(x.valid_from))),
        ("validTo"@, jv_of_ostr(ostr_view(x.valid_to))),
        ("isExternalReference"@, jv_of_obool(x.is_external_reference)),
        ("annotations"@, ovec_ser(x.annotations)),
        ("links"@, ovec_ser(x.links)),
        ("isPartial"@, jv_of_obool(x.is_partial)),
        ("reportingCategories"@, ovec_ser(x.reporting_categories)),
    ]
}

pub open spec fn reporting_taxonomy_norm_pairs(fs: Seq<(Seq<char>, JVal)>) -> Seq<(Seq<char>, Option<JVal>)> {
    seq![
        ("id"@, jv_of_ostr(opt_str(jv_get(fs, "id"@)))),
        ("agencyId"@, jv_of_ostr(opt_str(jv_get(fs, "agencyId"@)))),
        ("version"@, jv_of_ostr(opt_str(jv_get(fs, "version"@)))),
        ("name"@, jv_of_ostr(opt_str(jv_get(fs, "name"@)))),
        ("names"@, opt_rec_norm::<LocalizedText>(jv_get(fs, "names"@))),
        ("validFrom"@, jv_of_ostr(opt_str(jv_get(fs, "validFrom"@)))),
        ("validTo"@, jv_of_ostr(opt_str(jv_get(fs, "validTo"@)))),
        ("isExternalReference"@, jv_of_obool(opt_bool(jv_get(fs, "isExternalReference"@)))),
        ("annotations"@, opt_recarr_norm::<Annotation>(jv_get(fs, "annotations"@))),
        ("links"@, opt_recarr_norm::<Link>(jv_get(fs, "links"@))),
        ("isPartial"@, jv_of_obool(opt_bool(jv_get(fs, "isPartial"@)))),
        ("reportingCategories"@, opt_recarr_norm::<Item>(jv_get(fs, "reportingCategories"@))),
    ]
}

/// The names this record knows are pairwise distinct.
pub proof fn lemma_reporting_taxonomy_names_distinct()
    ensures
        forall|i: int, j: int|
            0 <= i < j < reporting_taxonomy_names().len() ==> reporting_taxonomy_names()[i] != reporting_taxonomy_names()[j],
{
    reveal_strlit("id");
    reveal_strlit("agencyId");
    reveal_strlit("version");
    reveal_strlit("name");
    reveal_strlit("names");
    reveal_strlit("validFrom");
    reveal_strlit("validTo");
    reveal_strlit("isExternalReference");
    reveal_strlit("annotations");
    reveal_strlit("links");
    reveal_strlit("isPartial");
    reveal_strlit("reportingCategories");
    let ns = reporting_taxonomy_names();
    assert(ns.len() == 12);
    assert forall|i: int, j: int| 0 <= i < j < ns.len() implies ns[i] != ns[j] by {
        assert("id"@.len() == 2);
        assert("agencyId"@.len() == 8);
        assert("version"@.len() == 7);
        assert("name"@.len() == 4);
        assert("names"@.len() == 5);
        assert("validFrom"@.len() == 9);
        assert("validTo"@.len() == 7);
        assert("isExternalReference"@.len() == 19);
        assert("annotations"@.len() == 11);
        assert("links"@.len() == 5);
        assert("isPartial"@.len() == 9);
        assert("reportingCategories"@.len() == 19);
        assert("version"@[1] == 'e');
        assert("validTo"@[1] == 'a');
        assert("names"@[0] == 'n');
        assert("links"@[0] == 'l');
        assert("validFrom"@[0] == 'v');
        assert("isPartial"@[0] == 'i');
        assert("isExternalReference"@[0] == 'i');
        assert("reportingCategories"@[0] == 'r');
    }
}

impl JsonForm for ReportingTaxonomy {
    open spec fn wf(&self) -> bool {
        &&& ext_ok(self.other.view_fields(), reporting_taxonomy_names())
        &&& crate::fields::window_le(ostr_view(self.valid_from), ostr_view(self.valid_to))
        &&& orec_wf(self.names)
        &&& ovec_wf(self.annotations)
        &&& ovec_wf(self.links)
        &&& ovec_wf(self.reporting_categories)
    }

    open spec fn ser(&self) -> JVal {
        JVal::Obj(present_fields(reporting_taxonomy_pairs(*self)) + self.other.view_fields())
    }

    open spec fn doc_ok(v: JVal) -> bool {
        &&& v is Obj
        &&& {
            let fs = v->Obj_0;
            &&& is_req_str(jv_get(fs, "id"@))
            &&& is_opt_str(jv_get(fs, "agencyId"@))
            &&& is_opt_str(jv_get(fs, "version"@))
            &&& is_opt_str(jv_get(fs, "name"@))
            &&& is_opt_rec::<LocalizedText>(jv_get(fs, "names"@))
            &&& is_opt_str(jv_get(fs, "validFrom"@))
            &&& is_opt_str(jv_get(fs, "validTo"@))
            &&& crate::fields::window_le(
                opt_str(jv_get(fs, "validFrom"@)),
                opt_str(jv_get(fs, "validTo"@)),
            )
            &&& is_opt_bool(jv_get(fs, "isExternalReference"@))
            &&& is_opt_recarr::<Annotation>(jv_get(fs, "annotations"@))
            &&& is_opt_recarr::<Link>(jv_get(fs, "links"@))
            &&& is_opt_bool(jv_get(fs, "isPartial"@))
            &&& is_opt_recarr::<Item>(jv_get(fs, "reportingCategories"@))
        }
    }

    open spec fn doc_norm(v: JVal) -> JVal {
        JVal::Obj(
            present_fields(reporting_taxonomy_norm_pairs(v->Obj_0)) + ext_fields(v->Obj_0, reporting_taxonomy_names()),
        )
    }

    #[verifier::rlimit(50)]
    fn from_json(v: JsonValue) -> (r: Result<Self, ParseError>) {
        let o = match v {
            JsonValue::Obj(o) => o,
            _ => { return Err(ParseError::NotObject) },
        };
        let ghost fs = jview_field_vec(o);
        let mut bag = FieldBag::new(o);
        proof {
            lemma_reporting_taxonomy_names_distinct();
        }
        proof {
            assert(bag.taken() =~= reporting_taxonomy_names().subrange(0, 0));
            crate::codec::lemma_take_fresh(reporting_taxonomy_names(), 0, bag.taken());
        }
        let id = match get_req_string(bag.take("id"), "id") {
            Ok(x) => x,
            Err(e) => { return Err(e) },
        };
        proof {
            assert(bag.taken() =~= reporting_taxonomy_names().subrange(0, 1));
            crate::codec::lemma_take_fresh(reporting_taxonomy_names(), 1, bag.taken());
        }
        let agency_id = match get_opt_string(bag.take("agencyId"), "agencyId") {
            Ok(x) => x,
            Err(e) => { return Err(e) },
        };
        proof {
            assert(bag.taken() =~= reporting_taxonomy_names().subrange(0, 2));
            crate::codec::lemma_take_fresh(reporting_taxonomy_names(), 2, bag.taken());
        }
        let version = match get_opt_string(bag.take("version"), "version") {
            Ok(x) => x,
            Err(e) => { return Err(e) },
        };
        proof {
            assert(bag.taken() =~= reporting_taxonomy_names().subrange(0, 3));
            crate::codec::lemma_take_fresh(reporting_taxonomy_names(), 3, bag.taken());
        }
        let name = match get_opt_string(bag.take("name"), "name") {
            Ok(x) => x,
            Err(e) => { return Err(e) },
        };
        proof {
            assert(bag.taken() =~= reporting_taxonomy_names().subrange(0, 4));
            crate::codec::lemma_take_fresh(reporting_taxonomy_names(), 4, bag.taken());
        }
        let names = match parse_opt::<LocalizedText>(bag.take("names")) {
            Ok(x) => x,
            Err(e) => { return Err(e) },
        };
        proof {
            assert(bag.taken() =~= reporting_taxonomy_names().subrange(0, 5));
            crate::codec::lemma_take_fresh(reporting_taxonomy_names(), 5, bag.taken());
        }
        let valid_from = match get_opt_string(bag.take("validFrom"), "validFrom") {
            Ok(x) => x,
            Err(e) => { return Err(e) },
        };
        proof {
            assert(bag.taken() =~= reporting_taxonomy_names().subrange(0, 6));
            crate::codec::lemma_take_fresh(reporting_taxonomy_names(), 6, bag.taken());
        }
        let valid_to = match get_opt_string(bag.take("validTo"), "validTo") {
            Ok(x) => x,
            Err(e) => { return Err(e) },
        };
        match (&valid_from, &valid_to) {
            (Some(f), Some(t)) => {
                if !crate::fields::str_le(f.as_str(), t.as_str()) {
                    return Err(
                        ParseError::Shape("validTo".to_owned(), crate::fields::ValueKind::Window),
                    );
                }
            },
            _ => (),
        }
        proof {
            assert(bag.taken() =~= reporting_taxonomy_names().subrange(0, 7));
            crate::codec::lemma_take_fresh(reporting_taxonomy_names(), 7, bag.taken());
        }
        let is_external_reference = match get_opt_bool(bag.take("isExternalReference"), "isExternalReference") {
            Ok(x) => x,
            Err(e) => { return Err(e) },
        };
        proof {
            assert(bag.taken() =~= reporting_taxonomy_names().subrange(0, 8));
            crate::codec::lemma_take_fresh(reporting_taxonomy_names(), 8, bag.taken());
        }
        let annotations = match parse_opt_vec::<Annotation>(bag.take("annotations"), "annotations") {
            Ok(x) => x,
            Err(e) => { return Err(e) },
        };
        proof {
            assert(bag.taken() =~= reporting_taxonomy_names().subrange(0, 9));
            crate::codec::lemma_take_fresh(reporting_taxonomy_names(), 9, bag.taken());
        }
        let links = match parse_opt_vec::<Link>(bag.take("links"), "links") {
            Ok(x) => x,
            Err(e) => { return Err(e) },
        };
        proof {
            assert(bag.taken() =~= reporting_taxonomy_names().subrange(0, 10));
            crate::codec::lemma_take_fresh(reporting_taxonomy_names(), 10, bag.taken());
        }
        let is_partial = match get_opt_bool(bag.take("isPartial"), "isPartial") {
            Ok(x) => x,
            Err(e) => { return Err(e) },
        };
        proof {
            assert(bag.taken() =~= reporting_taxonomy_names().subrange(0, 11));
            crate::codec::lemma_take_fresh(reporting_taxonomy_names(), 11, bag.taken());
        }
        let reporting_categories = match parse_opt_vec::<Item>(bag.take("reportingCategories"), "reportingCategories") {
            Ok(x) => x,
            Err(e) => { return Err(e) },
        };
        let ghost tk = bag.taken();
        let other = bag.rest();
        let out = ReportingTaxonomy { id, agency_id, version, name, names, valid_from, valid_to, is_external_reference, annotations, links, is_partial, reporting_categories, other };
        proof {
            assert(tk =~= reporting_taxonomy_names());
            crate::codec::lemma_ext_fields_names(fs, tk);
            assert(reporting_taxonomy_pairs(out) =~= reporting_taxonomy_norm_pairs(fs));
        }
        Ok(out)
    }

    fn to_json(&self) -> (r: JsonValue) {
        let mut b = ObjBuilder::new();
        put_str(&mut b, "id", &self.id);
        put_opt_str(&mut b, "agencyId", &self.agency_id);
        put_opt_str(&mut b, "version", &self.version);
        put_opt_str(&mut b, "name", &self.name);
        put_opt_rec(&mut b, "names", &self.names);
        put_opt_str(&mut b, "validFrom", &self.valid_from);
        put_opt_str(&mut b, "validTo", &self.valid_to);
        put_opt_bool(&mut b, "isExternalReference", &self.is_external_reference);
        put_opt_vec(&mut b, "annotations", &self.annotations);
        put_opt_vec(&mut b, "links", &self.links);
        put_opt_bool(&mut b, "isPartial", &self.is_partial);
        put_opt_vec(&mut b, "reportingCategories", &self.reporting_categories);
        proof {
            let ps = reporting_taxonomy_pairs(*self);
            lemma_pairs_chain(ps, 12);
            assert(ps.subrange(0, 12) =~= ps);
            assert(b.view_fields() == present_fields(ps)) by {
                reveal_with_fuel(pairs_prefix_chunks, 13);
            }
        }
        finish_with_ext(b, &self.other)
    }

    #[verifier::rlimit(50)]
    #[verifier::spinoff_prover]
    proof fn lemma_canon(&self) {
        lemma_reporting_taxonomy_names_distinct();
        let ps = reporting_taxonomy_pairs(*self);
        let ext = self.other.view_fields();
        assert(names_of(ps) =~= reporting_taxonomy_names());
        assert(distinct_names(ps)) by {
            assert forall|i: int, j: int|
                0 <= i < j < ps.len() implies ps[i].0 != ps[j].0 by {
                assert(ps[i].0 == reporting_taxonomy_names()[i]);
                assert(ps[j].0 == reporting_taxonomy_names()[j]);
            }
        }
        assert(disjoint_from(ext, ps)) by {
            assert forall|i: int, j: int|
                0 <= i < ext.len() && 0 <= j < ps.len() implies ext[i].0 != ps[j].0 by {
                assert(!is_known_name(ext[i].0, reporting_taxonomy_names()));
                assert(reporting_taxonomy_names()[j] == ps[j].0);
            }
        }
        lemma_jv_get_present(ps, ext);
        lemma_ext_of_present(ps, ext);
        let fs = self.ser()->Obj_0;
        assert(jv_get(fs, "id"@) == ps[0].1);
        assert(jv_get(fs, "agencyId"@) == ps[1].1);
        assert(jv_get(fs, "version"@) == ps[2].1);
        assert(jv_get(fs, "name"@) == ps[3].1);
        assert(jv_get(fs, "names"@) == ps[4].1);
        assert(jv_get(fs, "validFrom"@) == ps[5].1);
        assert(jv_get(fs, "validTo"@) == ps[6].1);
        assert(jv_get(fs, "isExternalReference"@) == ps[7].1);
        assert(jv_get(fs, "annotations"@) == ps[8].1);
        assert(jv_get(fs, "links"@) == ps[9].1);
        assert(jv_get(fs, "isPartial"@) == ps[10].1);
        assert(jv_get(fs, "reportingCategories"@) == ps[11].1);
        match self.names {
            Some(t) => {
                t.lemma_canon();
            },
            None => {},
        }
        match &self.annotations {
            Some(v) => {
                lemma_arr_canon::<Annotation>(v@);
            },
            None => {},
        }
        match &self.links {
            Some(v) => {
                lemma_arr_canon::<Link>(v@);
            },
            None => {},
        }
        match &self.reporting_categories {
            Some(v) => {
                lemma_arr_canon::<Item>(v@);
            },
            None => {},
        }
        assert(Self::doc_ok(self.ser()));
        assert(reporting_taxonomy_norm_pairs(fs) =~= ps);
        assert(ext_fields(fs, names_of(ps)) == ext);
        assert(ext_fields(fs, reporting_taxonomy_names()) == ext);
    }
}

impl Artefact for ReportingTaxonomy {
    open spec fn id_spec(&self) -> Seq<char> {
        self.id@
    }

    open spec fn agency_id_spec(&self) -> Option<Seq<char>> {
        ostr_view(self.agency_id)
    }

    open spec fn version_spec(&self) -> Option<Seq<char>> {
        ostr_view(self.version)
    }

    open spec fn name_spec(&self) -> Option<Seq<char>> {
        ostr_view(self.name)
    }

    open spec fn names_spec(&self) -> Option<LocalizedText> {
        self.names
    }

    open spec fn valid_from_spec(&self) -> Option<Seq<char>> {
        ostr_view(self.valid_from)
    }

    open spec fn valid_to_spec(&self) -> Option<Seq<char>> {
        ostr_view(self.valid_to)
    }

    open spec fn is_external_reference_spec(&self) -> Option<bool> {
        self.is_external_reference
    }

    open spec fn annotations_spec(&self) -> Option<Seq<Annotation>> {
        match self.annotations {
            Some(v) => Some(v@),
            None => None,
        }
    }

    open spec fn links_spec(&self) -> Option<Seq<Link>> {
        match self.links {
            Some(v) => Some(v@),
            None => None,
        }
    }

    fn id(&self) -> (r: &String) {
        &self.id
    }

    fn agency_id(&self) -> (r: Option<&String>) {
        self.agency_id.as_ref()
    }

    fn version(&self) -> (r: Option<&String>) {
        self.version.as_ref()
    }

    fn name(&self) -> (r: Option<&String>) {
        self.name.as_ref()
    }

    fn names(&self) -> (r: Option<&LocalizedText>) {
        self.names.as_ref()
    }

    fn valid_from(&self) -> (r: Option<&String>) {
        self.valid_from.as_ref()
    }

    fn valid_to(&self) -> (r: Option<&String>) {
        self.valid_to.as_ref()
    }

    fn is_external_reference(&self) -> (r: Option<bool>) {
        self.is_external_reference
    }

    fn annotations(&self) -> (r: Option<&Vec<Annotation>>) {
        self.annotations.as_ref()
    }

    fn links(&self) -> (r: Option<&Vec<Link>>) {
        self.links.as_ref()
    }
}

impl ItemScheme for ReportingTaxonomy {
    open spec fn is_partial_spec(&self) -> Option<bool> {
        self.is_partial
    }

    open spec fn items_spec(&self) -> Option<Seq<Item>> {
        match self.reporting_categories {
            Some(v) => Some(v@),
            None => None,
        }
    }

    fn is_partial(&self) -> (r: Option<bool>) {
        self.is_partial
    }

    fn items(&self) -> (r: Option<&Vec<Item>>) {
        self.reporting_categories.as_ref()
    }

    fn set_items(&mut self, items: Option<Vec<Item>>) {
        self.reporting_categories = items;
    }

    fn clear_items(&mut self) {
        self.reporting_categories = None;
    }

    fn contains_items(&self) -> (r: bool) {
        match &self.reporting_categories {
            Some(v) => v.len() > 0,
            None => false,
        }
    }
}

/// Describes what something (the source) falls under (the target).
#[derive(Debug, PartialEq)]
pub struct Categorization {
    pub id: String,
    pub agency_id: Option<String>,
    pub version: Option<String>,
    pub name: Option<String>,
    pub names: Option<LocalizedText>,
    pub valid_from: Option<String>,
    pub valid_to: Option<String>,
    pub is_external_reference: Option<bool>,
    pub annotations: Option<Vec<Annotation>>,
    pub links: Option<Vec<Link>>,
    pub source: Option<String>,
    pub target: Option<String>,
    pub other: Extensions,
}

pub open spec fn categorization_names() -> Seq<Seq<char>> {
    seq!["id"@, "agencyId"@, "version"@, "name"@, "names"@, "validFrom"@, "validTo"@, "isExternalReference"@, "annotations"@, "links"@, "source"@, "target"@]
}

pub open spec fn categorization_pairs(x: Categorization) -> Seq<(Seq<char>, Option<JVal>)> {
    seq![
        ("id"@, Some(JVal::Str(x.id@))),
        ("agencyId"@, jv_of_ostr(ostr_view(x.agency_id))),
        ("version"@, jv_of_ostr(ostr_view(x.version))),
        ("name"@, jv_of_ostr(ostr_view(x.name))),
        ("names"@, orec_ser(x.names)),
        ("validFrom"@, jv_of_ostr(ostr_view(x.valid_from))),
        ("validTo"@, jv_of_ostr(ostr_view(x.valid_to))),
        ("isExternalReference"@, jv_of_obool(x.is_external_reference)),
        ("annotations"@, ovec_ser(x.annotations)),
        ("links"@, ovec_ser(x.links)),
        ("source"@, jv_of_ostr(ostr_view(x.source))),
        ("target"@, jv_of_ostr(ostr_view(x.target))),
    ]
}

pub open spec fn categorization_norm_pairs(fs: Seq<(Seq<char>, JVal)>) -> Seq<(Seq<char>, Option<JVal>)> {
    seq![
        ("id"@, jv_of_ostr(opt_str(jv_get(fs, "id"@)))),
        ("agencyId"@, jv_of_ostr(opt_str(jv_get(fs, "agencyId"@)))),
        ("version"@, jv_of_ostr(opt_str(jv_get(fs, "version"@)))),
        ("name"@, jv_of_ostr(opt_str(jv_get(fs, "name"@)))),
        ("names"@, opt_rec_norm::<LocalizedText>(jv_get(fs, "names"@))),
        ("validFrom"@, jv_of_ostr(opt_str(jv_get(fs, "validFrom"@)))),
        ("validTo"@, jv_of_ostr(opt_str(jv_get(fs, "validTo"@)))),
        ("isExternalReference"@, jv_of_obool(opt_bool(jv_get(fs, "isExternalReference"@)))),
        ("annotations"@, opt_recarr_norm::<Annotation>(jv_get(fs, "annotations"@))),
        ("links"@, opt_recarr_norm::<Link>(jv_get(fs, "links"@))),
        ("source"@, jv_of_ostr(opt_str(jv_get(fs, "source"@)))),
        ("target"@, jv_of_ostr(opt_str(jv_get(fs, "target"@)))),
    ]
}

/// The names this record knows are pairwise distinct.
pub proof fn lemma_categorization_names_distinct()
    ensures
        forall|i: int, j: int|
            0 <= i < j < categorization_names().len() ==> categorization_names()[i] != categorization_names()[j],
{
    reveal_strlit("id");
    reveal_strlit("agencyId");
    reveal_strlit("version");
    reveal_strlit("name");
    reveal_strlit("names");
    reveal_strlit("validFrom");
    reveal_strlit("validTo");
    reveal_strlit("isExternalReference");
    reveal_strlit("annotations");
    reveal_strlit("links");
    reveal_strlit("source");
    reveal_strlit("target");
    let ns = categorization_names();
    assert(ns.len() == 12);
    assert forall|i: int, j: int| 0 <= i < j < ns.len() implies ns[i] != ns[j] by {
        assert("id"@.len() == 2);
        assert("agencyId"@.len() == 8);
        assert("version"@.len() == 7);
        assert("name"@.len() == 4);
        assert("names"@.len() == 5);
        assert("validFrom"@.len() == 9);
        assert("validTo"@.len() == 7);
        assert("isExternalReference"@.len() == 19);
        assert("annotations"@.len() == 11);
        assert("links"@.len() == 5);
        assert("source"@.len() == 6);
        assert("target"@.len() == 6);
        assert("version"@[1] == 'e');
        assert("validTo"@[1] == 'a');
        assert("names"@[0] == 'n');
        assert("links"@[0] == 'l');
        assert("source"@[0] == 's');
        assert("target"@[0] == 't');
    }
}

impl JsonForm for Categorization {
    open spec fn wf(&self) -> bool {
        &&& ext_ok(self.other.view_fields(), categorization_names())
        &&& crate::fields::window_le(ostr_view(self.valid_from), ostr_view(self.valid_to))
        &&& orec_wf(self.names)
        &&& ovec_wf(self.annotations)
        &&& ovec_wf(self.links)
    }

    open spec fn ser(&self) -> JVal {
        JVal::Obj(present_fields(categorization_pairs(*self)) + self.other.view_fields())
    }

    open spec fn doc_ok(v: JVal) -> bool {
        &&& v is Obj
        &&& {
            let fs = v->Obj_0;
            &&& is_req_str(jv_get(fs, "id"@))
            &&& is_opt_str(jv_get(fs, "agencyId"@))
            &&& is_opt_str(jv_get(fs, "version"@))
            &&& is_opt_str(jv_get(fs, "name"@))
            &&& is_opt_rec::<LocalizedText>(jv_get(fs, "names"@))
            &&& is_opt_str(jv_get(fs, "validFrom"@))
            &&& is_opt_str(jv_get(fs, "validTo"@))
            &&& crate::fields::window_le(
                opt_str(jv_get(fs, "validFrom"@)),
                opt_str(jv_get(fs, "validTo"@)),
            )
            &&& is_opt_bool(jv_get(fs, "isExternalReference"@))
            &&& is_opt_recarr::<Annotation>(jv_get(fs, "annotations"@))
            &&& is_opt_recarr::<Link>(jv_get(fs, "links"@))
            &&& is_opt_str(jv_get(fs, "source"@))
            &&& is_opt_str(jv_get(fs, "target"@))
        }
    }

    open spec fn doc_norm(v: JVal) -> JVal {
        JVal::Obj(
            present_fields(categorization_norm_pairs(v->Obj_0)) + ext_fields(v->Obj_0, categorization_names()),
        )
    }

    #[verifier::rlimit(50)]
    fn from_json(v: JsonValue) -> (r: Result<Self, ParseError>) {
        let o = match v {
            JsonValue::Obj(o) => o,
            _ => { return Err(ParseError::NotObject) },
        };
        let ghost fs = jview_field_vec(o);
        let mut bag = FieldBag::new(o);
        proof {
            lemma_categorization_names_distinct();
        }
        proof {
            assert(bag.taken() =~= categorization_names().subrange(0, 0));
            crate::codec::lemma_take_fresh(categorization_names(), 0, bag.taken());
        }
        let id = match get_req_string(bag.take("id"), "id") {
            Ok(x) => x,
            Err(e) => { return Err(e) },
        };
        proof {
            assert(bag.taken() =~= categorization_names().subrange(0, 1));
            crate::codec::lemma_take_fresh(categorization_names(), 1, bag.taken());
        }
        let agency_id = match get_opt_string(bag.take("agencyId"), "agencyId") {
            Ok(x) => x,
            Err(e) => { return Err(e) },
        };
        proof {
            assert(bag.taken() =~= categorization_names().subrange(0, 2));
            crate::codec::lemma_take_fresh(categorization_names(), 2, bag.taken());
        }
        let version = match get_opt_string(bag.take("version"), "version") {
            Ok(x) => x,
            Err(e) => { return Err(e) },
        };
        proof {
            assert(bag.taken() =~= categorization_names().subrange(0, 3));
            crate::codec::lemma_take_fresh(categorization_names(), 3, bag.taken());
        }
        let name = match get_opt_string(bag.take("name"), "name") {
            Ok(x) => x,
            Err(e) => { return Err(e) },
        };
        proof {
            assert(bag.taken() =~= categorization_names().subrange(0, 4));
            crate::codec::lemma_take_fresh(categorization_names(), 4, bag.taken());
        }
        let names = match parse_opt::<LocalizedText>(bag.take("names")) {
            Ok(x) => x,
            Err(e) => { return Err(e) },
        };
        proof {
            assert(bag.taken() =~= categorization_names().subrange(0, 5));
            crate::codec::lemma_take_fresh(categorization_names(), 5, bag.taken());
        }
        let valid_from = match get_opt_string(bag.take("validFrom"), "validFrom") {
            Ok(x) => x,
            Err(e) => { return Err(e) },
        };
        proof {
            assert(bag.taken() =~= categorization_names().subrange(0, 6));
            crate::codec::lemma_take_fresh(categorization_names(), 6, bag.taken());
        }
        let valid_to = match get_opt_string(bag.take("validTo"), "validTo") {
            Ok(x) => x,
            Err(e) => { return Err(e) },
        };
        match (&valid_from, &valid_to) {
            (Some(f), Some(t)) => {
                if !crate::fields::str_le(f.as_str(), t.as_str()) {
                    return Err(
                        ParseError::Shape("validTo".to_owned(), crate::fields::ValueKind::Window),
                    );
                }
            },
            _ => (),
        }
        proof {
            assert(bag.taken() =~= categorization_names().subrange(0, 7));
            crate::codec::lemma_take_fresh(categorization_names(), 7, bag.taken());
        }
        let is_external_reference = match get_opt_bool(bag.take("isExternalReference"), "isExternalReference") {
            Ok(x) => x,
            Err(e) => { return Err(e) },
        };
        proof {
            assert(bag.taken() =~= categorization_names().subrange(0, 8));
            crate::codec::lemma_take_fresh(categorization_names(), 8, bag.taken());
        }
        let annotations = match parse_opt_vec::<Annotation>(bag.take("annotations"), "annotations") {
            Ok(x) => x,
            Err(e) => { return Err(e) },
        };
        proof {
            assert(bag.taken() =~= categorization_names().subrange(0, 9));
            crate::codec::lemma_take_fresh(categorization_names(), 9, bag.taken());
        }
        let links = match parse_opt_vec::<Link>(bag.take("links"), "links") {
            Ok(x) => x,
            Err(e) => { return Err(e) },
        };
        proof {
            assert(bag.taken() =~= categorization_names().subrange(0, 10));
            crate::codec::lemma_take_fresh(categorization_names(), 10, bag.taken());
        }
        let source = match get_opt_string(bag.take("source"), "source") {
            Ok(x) => x,
            Err(e) => { return Err(e) },
        };
        proof {
            assert(bag.taken() =~= categorization_names().subrange(0, 11));
            crate::codec::lemma_take_fresh(categorization_names(), 11, bag.taken());
        }
        let target = match get_opt_string(bag.take("target"), "target") {
            Ok(x) => x,
            Err(e) => { return Err(e) },
        };
        let ghost tk = bag.taken();
        let other = bag.rest();
        let out = Categorization { id, agency_id, version, name, names, valid_from, valid_to, is_external_reference, annotations, links, source, target, other };
        proof {
            assert(tk =~= categorization_names());
            crate::codec::lemma_ext_fields_names(fs, tk);
            assert(categorization_pairs(out) =~= categorization_norm_pairs(fs));
        }
        Ok(out)
    }

    fn to_json(&self) -> (r: JsonValue) {
        let mut b = ObjBuilder::new();
        put_str(&mut b, "id", &self.id);
        put_opt_str(&mut b, "agencyId", &self.agency_id);
        put_opt_str(&mut b, "version", &self.version);
        put_opt_str(&mut b, "name", &self.name);
        put_opt_rec(&mut b, "names", &self.names);
        put_opt_str(&mut b, "validFrom", &self.valid_from);
        put_opt_str(&mut b, "validTo", &self.valid_to);
        put_opt_bool(&mut b, "isExternalReference", &self.is_external_reference);
        put_opt_vec(&mut b, "annotations", &self.annotations);
        put_opt_vec(&mut b, "links", &self.links);
        put_opt_str(&mut b, "source", &self.source);
        put_opt_str(&mut b, "target", &self.target);
        proof {
            let ps = categorization_pairs(*self);
            lemma_pairs_chain(ps, 12);
            assert(ps.subrange(0, 12) =~= ps);
            assert(b.view_fields() == present_fields(ps)) by {
                reveal_with_fuel(pairs_prefix_chunks, 13);
            }
        }
        finish_with_ext(b, &self.other)
    }

    #[verifier::rlimit(50)]
    #[verifier::spinoff_prover]
    proof fn lemma_canon(&self) {
        lemma_categorization_names_distinct();
        let ps = categorization_pairs(*self);
        let ext = self.other.view_fields();
        assert(names_of(ps) =~= categorization_names());
        assert(distinct_names(ps)) by {
            assert forall|i: int, j: int|
                0 <= i < j < ps.len() implies ps[i].0 != ps[j].0 by {
                assert(ps[i].0 == categorization_names()[i]);
                assert(ps[j].0 == categorization_names()[j]);
            }
        }
        assert(disjoint_from(ext, ps)) by {
            assert forall|i: int, j: int|
                0 <= i < ext.len() && 0 <= j < ps.len() implies ext[i].0 != ps[j].0 by {
                assert(!is_known_name(ext[i].0, categorization_names()));
                assert(categorization_names()[j] == ps[j].0);
            }
        }
        lemma_jv_get_present(ps, ext);
        lemma_ext_of_present(ps, ext);
        let fs = self.ser()->Obj_0;
        assert(jv_get(fs, "id"@) == ps[0].1);
        assert(jv_get(fs, "agencyId"@) == ps[1].1);
        assert(jv_get(fs, "version"@) == ps[2].1);
        assert(jv_get(fs, "name"@) == ps[3].1);
        assert(jv_get(fs, "names"@) == ps[4].1);
        assert(jv_get(fs, "validFrom"@) == ps[5].1);
        assert(jv_get(fs, "validTo"@) == ps[6].1);
        assert(jv_get(fs, "isExternalReference"@) == ps[7].1);
        assert(jv_get(fs, "annotations"@) == ps[8].1);
        assert(jv_get(fs, "links"@) == ps[9].1);
        assert(jv_get(fs, "source"@) == ps[10].1);
        assert(jv_get(fs, "target"@) == ps[11].1);
        match self.names {
            Some(t) => {
                t.lemma_canon();
            },
            None => {},
        }
        match &self.annotations {
            Some(v) => {
                lemma_arr_canon::<Annotation>(v@);
            },
            None => {},
        }
        match &self.links {
            Some(v) => {
                lemma_arr_canon::<Link>(v@);
            },
            None => {},
        }
        assert(Self::doc_ok(self.ser()));
        assert(categorization_norm_pairs(fs) =~= ps);
        assert(ext_fields(fs, names_of(ps)) == ext);
        assert(ext_fields(fs, categorization_names()) == ext);
    }
}

impl Artefact for Categorization {
    open spec fn id_spec(&self) -> Seq<char> {
        self.id@
    }

    open spec fn agency_id_spec(&self) -> Option<Seq<char>> {
        ostr_view(self.agency_id)
    }

    open spec fn version_spec(&self) -> Option<Seq<char>> {
        ostr_view(self.version)
    }

    open spec fn name_spec(&self) -> Option<Seq<char>> {
        ostr_view(self.name)
    }

    open spec fn names_spec(&self) -> Option<LocalizedText> {
        self.names
    }

    open spec fn valid_from_spec(&self) -> Option<Seq<char>> {
        ostr_view(self.valid_from)
    }

    open spec fn valid_to_spec(&self) -> Option<Seq<char>> {
        ostr_view(self.valid_to)
    }

    open spec fn is_external_reference_spec(&self) -> Option<bool> {
        self.is_external_reference
    }

    open spec fn annotations_spec(&self) -> Option<Seq<Annotation>> {
        match self.annotations {
            Some(v) => Some(v@),
            None => None,
        }
    }

    open spec fn links_spec(&self) -> Option<Seq<Link>> {
        match self.links {
            Some(v) => Some(v@),
            None => None,
        }
    }

    fn id(&self) -> (r: &String) {
        &self.id
    }

    fn agency_id(&self) -> (r: Option<&String>) {
        self.agency_id.as_ref()
    }

    fn version(&self) -> (r: Option<&String>) {
        self.version.as_ref()
    }

    fn name(&self) -> (r: Option<&String>) {
        self.name.as_ref()
    }

    fn names(&self) -> (r: Option<&LocalizedText>) {
        self.names.as_ref()
    }

    fn valid_from(&self) -> (r: Option<&String>) {
        self.valid_from.as_ref()
    }

    fn valid_to(&self) -> (r: Option<&String>) {
        self.valid_to.as_ref()
    }

    fn is_external_reference(&self) -> (r: Option<bool>) {
        self.is_external_reference
    }

    fn annotations(&self) -> (r: Option<&Vec<Annotation>>) {
        self.annotations.as_ref()
    }

    fn links(&self) -> (r: Option<&Vec<Link>>) {
        self.links.as_ref()
    }
}

/// The item scheme for a custom type.
#[derive(Debug, PartialEq)]
pub struct CustomTypeScheme {
    pub id: String,
    pub agency_id: Option<String>,
    pub version: Option<String>,
    pub name: Option<String>,
    pub names: Option<LocalizedText>,
    pub valid_from: Option<String>,
    pub valid_to: Option<String>,
    pub is_external_reference: Option<bool>,
    pub annotations: Option<Vec<Annotation>>,
    pub links: Option<Vec<Link>>,
    pub is_partial: Option<bool>,
    pub custom_types: Option<Vec<Item>>,
    pub other: Extensions,
}

pub open spec fn custom_type_scheme_names() -> Seq<Seq<char>> {
    seq!["id"@, "agencyId"@, "version"@, "name"@, "names"@, "validFrom"@, "validTo"@, "isExternalReference"@, "annotations"@, "links"@, "isPartial"@, "customTypes"@]
}

pub open spec fn custom_type_scheme_pairs(x: CustomTypeScheme) -> Seq<(Seq<char>, Option<JVal>)> {
    seq![
        ("id"@, Some(JVal::Str(x.id@))),
        ("agencyId"@, jv_of_ostr(ostr_view(x.agency_id))),
        ("version"@, jv_of_ostr(ostr_view(x.version))),
        ("name"@, jv_of_ostr(ostr_view(x.name))),
        ("names"@, orec_ser(x.names)),
        ("validFrom"@, jv_of_ostr(ostr_view(x.valid_from))),
        ("validTo"@, jv_of_ostr(ostr_view(x.valid_to))),
        ("isExternalReference"@, jv_of_obool(x.is_external_reference)),
        ("annotations"@, ovec_ser(x.annotations)),
        ("links"@, ovec_ser(x.links)),
        ("isPartial"@, jv_of_obool(x.is_partial)),
        ("customTypes"@, ovec_ser(x.custom_types)),
    ]
}

pub open spec fn custom_type_scheme_norm_pairs(fs: Seq<(Seq<char>, JVal)>) -> Seq<(Seq<char>, Option<JVal>)> {
    seq![
        ("id"@, jv_of_ostr(opt_str(jv_get(fs, "id"@)))),
        ("agencyId"@, jv_of_ostr(opt_str(jv_get(fs, "agencyId"@)))),
        ("version"@, jv_of_ostr(opt_str(jv_get(fs, "version"@)))),
        ("name"@, jv_of_ostr(opt_str(jv_get(fs, "name"@)))),
        ("names"@, opt_rec_norm::<LocalizedText>(jv_get(fs, "names"@))),
        ("validFrom"@, jv_of_ostr(opt_str(jv_get(fs, "validFrom"@)))),
        ("validTo"@, jv_of_ostr(opt_str(jv_get(fs, "validTo"@)))),
        ("isExternalReference"@, jv_of_obool(opt_bool(jv_get(fs, "isExternalReference"@)))),
        ("annotations"@, opt_recarr_norm::<Annotation>(jv_get(fs, "annotations"@))),
        ("links"@, opt_recarr_norm::<Link>(jv_get(fs, "links"@))),
        ("isPartial"@, jv_of_obool(opt_bool(jv_get(fs, "isPartial"@)))),
        ("customTypes"@, opt_recarr_norm::<Item>(jv_get(fs, "customTypes"@))),
    ]
}

/// The names this record knows are pairwise distinct.
pub proof fn lemma_custom_type_scheme_names_distinct()
    ensures
        forall|i: int, j: int|
            0 <= i < j < custom_type_scheme_names().len() ==> custom_type_scheme_names()[i] != custom_type_scheme_names()[j],
{
    reveal_strlit("id");
    reveal_strlit("agencyId");
    reveal_strlit("version");
    reveal_strlit("name");
    reveal_strlit("names");
    reveal_strlit("validFrom");
    reveal_strlit("validTo");
    reveal_strlit("isExternalReference");
    reveal_strlit("annotations");
    reveal_strlit("links");
    reveal_strlit("isPartial");
    reveal_strlit("customTypes");
    let ns = custom_type_scheme_names();
    assert(ns.len() == 12);
    assert forall|i: int, j: int| 0 <= i < j < ns.len() implies ns[i] != ns[j] by {
        assert("id"@.len() == 2);
        assert("agencyId"@.len() == 8);
        assert("version"@.len() == 7);
        assert("name"@.len() == 4);
        assert("names"@.len() == 5);
        assert("validFrom"@.len() == 9);
        assert("validTo"@.len() == 7);
        assert("isExternalReference"@.len() == 19);
        assert("annotations"@.len() == 11);
        assert("links"@.len() == 5);
        assert("isPartial"@.len() == 9);
        assert("customTypes"@.len() == 11);
        assert("version"@[1] == 'e');
        assert("validTo"@[1] == 'a');
        assert("names"@[0] == 'n');
        assert("links"@[0] == 'l');
        assert("validFrom"@[0] == 'v');
        assert("isPartial"@[0] == 'i');
        assert("annotations"@[0] == 'a');
        assert("customTypes"@[0] == 'c');
    }
}

impl JsonForm for CustomTypeScheme {
    open spec fn wf(&self) -> bool {
        &&& ext_ok(self.other.view_fields(), custom_type_scheme_names())
        &&& crate::fields::window_le(ostr_view(self.valid_from), ostr_view(self.valid_to))
        &&& orec_wf(self.names)
        &&& ovec_wf(self.annotations)
        &&& ovec_wf(self.links)
        &&& ovec_wf(self.custom_types)
    }

    open spec fn ser(&self) -> JVal {
        JVal::Obj(present_fields(custom_type_scheme_pairs(*self)) + self.other.view_fields())
    }

    open spec fn doc_ok(v: JVal) -> bool {
        &&& v is Obj
        &&& {
            let fs = v->Obj_0;
            &&& is_req_str(jv_get(fs, "id"@))
            &&& is_opt_str(jv_get(fs, "agencyId"@))
            &&& is_opt_str(jv_get(fs, "version"@))
            &&& is_opt_str(jv_get(fs, "name"@))
            &&& is_opt_rec::<LocalizedText>(jv_get(fs, "names"@))
            &&& is_opt_str(jv_get(fs, "validFrom"@))
            &&& is_opt_str(jv_get(fs, "validTo"@))
            &&& crate::fields::window_le(
                opt_str(jv_get(fs, "validFrom"@)),
                opt_str(jv_get(fs, "validTo"@)),
            )
            &&& is_opt_bool(jv_get(fs, "isExternalReference"@))
            &&& is_opt_recarr::<Annotation>(jv_get(fs, "annotations"@))
            &&& is_opt_recarr::<Link>(jv_get(fs, "links"@))
            &&& is_opt_bool(jv_get(fs, "isPartial"@))
            &&& is_opt_recarr::<Item>(jv_get(fs, "customTypes"@))
        }
    }

    open spec fn doc_norm(v: JVal) -> JVal {
        JVal::Obj(
            present_fields(custom_type_scheme_norm_pairs(v->Obj_0)) + ext_fields(v->Obj_0, custom_type_scheme_names()),
        )
    }

    #[verifier::rlimit(50)]
    fn from_json(v: JsonValue) -> (r: Result<Self, ParseError>) {
        let o = match v {
            JsonValue::Obj(o) => o,
            _ => { return Err(ParseError::NotObject) },
        };
        let ghost fs = jview_field_vec(o);
        let mut bag = FieldBag::new(o);
        proof {
            lemma_custom_type_scheme_names_distinct();
        }
        proof {
            assert(bag.taken() =~= custom_type_scheme_names().subrange(0, 0));
            crate::codec::lemma_take_fresh(custom_type_scheme_names(), 0, bag.taken());
        }
        let id = match get_req_string(bag.take("id"), "id") {
            Ok(x) => x,
            Err(e) => { return Err(e) },
        };
        proof {
            assert(bag.taken() =~= custom_type_scheme_names().subrange(0, 1));
            crate::codec::lemma_take_fresh(custom_type_scheme_names(), 1, bag.taken());
        }
        let agency_id = match get_opt_string(bag.take("agencyId"), "agencyId") {
            Ok(x) => x,
            Err(e) => { return Err(e) },
        };
        proof {
            assert(bag.taken() =~= custom_type_scheme_names().subrange(0, 2));
            crate::codec::lemma_take_fresh(custom_type_scheme_names(), 2, bag.taken());
        }
        let version = match get_opt_string(bag.take("version"), "version") {
            Ok(x) => x,
            Err(e) => { return Err(e) },
        };
        proof {
            assert(bag.taken() =~= custom_type_scheme_names().subrange(0, 3));
            crate::codec::lemma_take_fresh(custom_type_scheme_names(), 3, bag.taken());
        }
        let name = match get_opt_string(bag.take("name"), "name") {
            Ok(x) => x,
            Err(e) => { return Err(e) },
        };
        proof {
            assert(bag.taken() =~= custom_type_scheme_names().subrange(0, 4));
            crate::codec::lemma_take_fresh(custom_type_scheme_names(), 4, bag.taken());
        }
        let names = match parse_opt::<LocalizedText>(bag.take("names")) {
            Ok(x) => x,
            Err(e) => { return Err(e) },
        };
        proof {
            assert(bag.taken() =~= custom_type_scheme_names().subrange(0, 5));
            crate::codec::lemma_take_fresh(custom_type_scheme_names(), 5, bag.taken());
        }
        let valid_from = match get_opt_string(bag.take("validFrom"), "validFrom") {
            Ok(x) => x,
            Err(e) => { return Err(e) },
        };
        proof {
            assert(bag.taken() =~= custom_type_scheme_names().subrange(0, 6));
            crate::codec::lemma_take_fresh(custom_type_scheme_names(), 6, bag.taken());
        }
        let valid_to = match get_opt_string(bag.take("validTo"), "validTo") {
            Ok(x) => x,
            Err(e) => { return Err(e) },
        };
        match (&valid_from, &valid_to) {
            (Some(f), Some(t)) => {
                if !crate::fields::str_le(f.as_str(), t.as_str()) {
                    return Err(
                        ParseError::Shape("validTo".to_owned(), crate::fields::ValueKind::Window),
                    );
                }
            },
            _ => (),
        }
        proof {
            assert(bag.taken() =~= custom_type_scheme_names().subrange(0, 7));
            crate::codec::lemma_take_fresh(custom_type_scheme_names(), 7, bag.taken());
        }
        let is_external_reference = match get_opt_bool(bag.take("isExternalReference"), "isExternalReference") {
            Ok(x) => x,
            Err(e) => { return Err(e) },
        };
        proof {
            assert(bag.taken() =~= custom_type_scheme_names().subrange(0, 8));
            crate::codec::lemma_take_fresh(custom_type_scheme_names(), 8, bag.taken());
        }
        let annotations = match parse_opt_vec::<Annotation>(bag.take("annotations"), "annotations") {
            Ok(x) => x,
            Err(e) => { return Err(e) },
        };
        proof {
            assert(bag.taken() =~= custom_type_scheme_names().subrange(0, 9));
            crate::codec::lemma_take_fresh(custom_type_scheme_names(), 9, bag.taken());
        }
        let links = match parse_opt_vec::<Link>(bag.take("links"), "links") {
            Ok(x) => x,
            Err(e) => { return Err(e) },
        };
        proof {
            assert(bag.taken() =~= custom_type_scheme_names().subrange(0, 10));
            crate::codec::lemma_take_fresh(custom_type_scheme_names(), 10, bag.taken());
        }
        let is_partial = match get_opt_bool(bag.take("isPartial"), "isPartial") {
            Ok(x) => x,
            Err(e) => { return Err(e) },
        };
        proof {
            assert(bag.taken() =~= custom_type_scheme_names().subrange(0, 11));
            crate::codec::lemma_take_fresh(custom_type_scheme_names(), 11, bag.taken());
        }
        let custom_types = match parse_opt_vec::<Item>(bag.take("customTypes"), "customTypes") {
            Ok(x) => x,
            Err(e) => { return Err(e) },
        };
        let ghost tk = bag.taken();
        let other = bag.rest();
        let out = CustomTypeScheme { id, agency_id, version, name, names, valid_from, valid_to, is_external_reference, annotations, links, is_partial, custom_types, other };
        proof {
            assert(tk =~= custom_type_scheme_names());
            crate::codec::lemma_ext_fields_names(fs, tk);
            assert(custom_type_scheme_pairs(out) =~= custom_type_scheme_norm_pairs(fs));
        }
        Ok(out)
    }

    fn to_json(&self) -> (r: JsonValue) {
        let mut b = ObjBuilder::new();
        put_str(&mut b, "id", &self.id);
        put_opt_str(&mut b, "agencyId", &self.agency_id);
        put_opt_str(&mut b, "version", &self.version);
        put_opt_str(&mut b, "name", &self.name);
        put_opt_rec(&mut b, "names", &self.names);
        put_opt_str(&mut b, "validFrom", &self.valid_from);
        put_opt_str(&mut b, "validTo", &self.valid_to);
        put_opt_bool(&mut b, "isExternalReference", &self.is_external_reference);
        put_opt_vec(&mut b, "annotations", &self.annotations);
        put_opt_vec(&mut b, "links", &self.links);
        put_opt_bool(&mut b, "isPartial", &self.is_partial);
        put_opt_vec(&mut b, "customTypes", &self.custom_types);
        proof {
            let ps = custom_type_scheme_pairs(*self);
            lemma_pairs_chain(ps, 12);
            assert(ps.subrange(0, 12) =~= ps);
            assert(b.view_fields() == present_fields(ps)) by {
                reveal_with_fuel(pairs_prefix_chunks, 13);
            }
        }
        finish_with_ext(b, &self.other)
    }

    #[verifier::rlimit(50)]
    #[verifier::spinoff_prover]
    proof fn lemma_canon(&self) {
        lemma_custom_type_scheme_names_distinct();
        let ps = custom_type_scheme_pairs(*self);
        let ext = self.other.view_fields();
        assert(names_of(ps) =~= custom_type_scheme_names());
        assert(distinct_names(ps)) by {
            assert forall|i: int, j: int|
                0 <= i < j < ps.len() implies ps[i].0 != ps[j].0 by {
                assert(ps[i].0 == custom_type_scheme_names()[i]);
                assert(ps[j].0 == custom_type_scheme_names()[j]);
            }
        }
        assert(disjoint_from(ext, ps)) by {
            assert forall|i: int, j: int|
                0 <= i < ext.len() && 0 <= j < ps.len() implies ext[i].0 != ps[j].0 by {
                assert(!is_known_name(ext[i].0, custom_type_scheme_names()));
                assert(custom_type_scheme_names()[j] == ps[j].0);
            }
        }
        lemma_jv_get_present(ps, ext);
        lemma_ext_of_present(ps, ext);
        let fs = self.ser()->Obj_0;
        assert(jv_get(fs, "id"@) == ps[0].1);
        assert(jv_get(fs, "agencyId"@) == ps[1].1);
        assert(jv_get(fs, "version"@) == ps[2].1);
        assert(jv_get(fs, "name"@) == ps[3].1);
        assert(jv_get(fs, "names"@) == ps[4].1);
        assert(jv_get(fs, "validFrom"@) == ps[5].1);
        assert(jv_get(fs, "validTo"@) == ps[6].1);
        assert(jv_get(fs, "isExternalReference"@) == ps[7].1);
        assert(jv_get(fs, "annotations"@) == ps[8].1);
        assert(jv_get(fs, "links"@) == ps[9].1);
        assert(jv_get(fs, "isPartial"@) == ps[10].1);
        assert(jv_get(fs, "customTypes"@) == ps[11].1);
        match self.names {
            Some(t) => {
                t.lemma_canon();
            },
            None => {},
        }
        match &self.annotations {
            Some(v) => {
                lemma_arr_canon::<Annotation>(v@);
            },
            None => {},
        }
        match &self.links {
            Some(v) => {
                lemma_arr_canon::<Link>(v@);
            },
            None => {},
        }
        match &self.custom_types {
            Some(v) => {
                lemma_arr_canon::<Item>(v@);
            },
            None => {},
        }
        assert(Self::doc_ok(self.ser()));
        assert(custom_type_scheme_norm_pairs(fs) =~= ps);
        assert(ext_fields(fs, names_of(ps)) == ext);
        assert(ext_fields(fs, custom_type_scheme_names()) == ext);
    }
}

impl Artefact for CustomTypeScheme {
    open spec fn id_spec(&self) -> Seq<char> {
        self.id@
    }

    open spec fn agency_id_spec(&self) -> Option<Seq<char>> {
        ostr_view(self.agency_id)
    }

    open spec fn version_spec(&self) -> Option<Seq<char>> {
        ostr_view(self.version)
    }

    open spec fn name_spec(&self) -> Option<Seq<char>> {
        ostr_view(self.name)
    }

    open spec fn names_spec(&self) -> Option<LocalizedText> {
        self.names
    }

    open spec fn valid_from_spec(&self) -> Option<Seq<char>> {
        ostr_view(self.valid_from)
    }

    open spec fn valid_to_spec(&self) -> Option<Seq<char>> {
        ostr_view(self.valid_to)
    }

    open spec fn is_external_reference_spec(&self) -> Option<bool> {
        self.is_external_reference
    }

    open spec fn annotations_spec(&self) -> Option<Seq<Annotation>> {
        match self.annotations {
            Some(v) => Some(v@),
            None => None,
        }
    }

    open spec fn links_spec(&self) -> Option<Seq<Link>> {
        match self.links {
            Some(v) => Some(v@),
            None => None,
        }
    }

    fn id(&self) -> (r: &String) {
        &self.id
    }

    fn agency_id(&self) -> (r: Option<&String>) {
        self.agency_id.as_ref()
    }

    fn version(&self) -> (r: Option<&String>) {
        self.version.as_ref()
    }

    fn name(&self) -> (r: Option<&String>) {
        self.name.as_ref()
    }

    fn names(&self) -> (r: Option<&LocalizedText>) {
        self.names.as_ref()
    }

    fn valid_from(&self) -> (r: Option<&String>) {
        self.valid_from.as_ref()
    }

    fn valid_to(&self) -> (r: Option<&String>) {
        self.valid_to.as_ref()
    }

    fn is_external_reference(&self) -> (r: Option<bool>) {
        self.is_external_reference
    }

    fn annotations(&self) -> (r: Option<&Vec<Annotation>>) {
        self.annotations.as_ref()
    }

    fn links(&self) -> (r: Option<&Vec<Link>>) {
        self.links.as_ref()
    }
}

impl ItemScheme for CustomTypeScheme {
    open spec fn is_partial_spec(&self) -> Option<bool> {
        self.is_partial
    }

    open spec fn items_spec(&self) -> Option<Seq<Item>> {
        match self.custom_types {
            Some(v) => Some(v@),
            None => None,
        }
    }

    fn is_partial(&self) -> (r: Option<bool>) {
        self.is_partial
    }

    fn items(&self) -> (r: Option<&Vec<Item>>) {
        self.custom_types.as_ref()
    }

    fn set_items(&mut self, items: Option<Vec<Item>>) {
        self.custom_types = items;
    }

    fn clear_items(&mut self) {
        self.custom_types = None;
    }

    fn contains_items(&self) -> (r: bool) {
        match &self.custom_types {
            Some(v) => v.len() > 0,
            None => false,
        }
    }
}

/// The item scheme for a validation-and-transformation-language mapping.
#[derive(Debug, PartialEq)]
pub struct VtlMappingScheme {
    pub id: String,
    pub agency_id: Option<String>,
    pub version: Option<String>,
    pub name: Option<String>,
    pub names: Option<LocalizedText>,
    pub valid_from: Option<String>,
    pub valid_to: Option<String>,
    pub is_external_reference: Option<bool>,
    pub annotations: Option<Vec<Annotation>>,
    pub links: Option<Vec<Link>>,
    pub is_partial: Option<bool>,
    pub vtl_mappings: Option<Vec<Item>>,
    pub other: Extensions,
}

pub open spec fn vtl_mapping_scheme_names() -> Seq<Seq<char>> {
    seq!["id"@, "agencyId"@, "version"@, "name"@, "names"@, "validFrom"@, "validTo"@, "isExternalReference"@, "annotations"@, "links"@, "isPartial"@, "vtlMappings"@]
}

pub open spec fn vtl_mapping_scheme_pairs(x: VtlMappingScheme) -> Seq<(Seq<char>, Option<JVal>)> {
    seq![
        ("id"@, Some(JVal::Str(x.id@))),
        ("agencyId"@, jv_of_ostr(ostr_view(x.agency_id))),
        ("version"@, jv_of_ostr(ostr_view(x.version))),
        ("name"@, jv_of_ostr(ostr_view(x.name))),
        ("names"@, orec_ser(x.names)),
        ("validFrom"@, jv_of_ostr(ostr_view(x.valid_from))),
        ("validTo"@, jv_of_ostr(ostr_view(x.valid_to))),
        ("isExternalReference"@, jv_of_obool(x.is_external_reference)),
        ("annotations"@, ovec_ser(x.annotations)),
        ("links"@, ovec_ser(x.links)),
        ("isPartial"@, jv_of_obool(x.is_partial)),
        ("vtlMappings"@, ovec_ser(x.vtl_mappings)),
    ]
}

pub open spec fn vtl_mapping_scheme_norm_pairs(fs: Seq<(Seq<char>, JVal)>) -> Seq<(Seq<char>, Option<JVal>)> {
    seq![
        ("id"@, jv_of_ostr(opt_str(jv_get(fs, "id"@)))),
        ("agencyId"@, jv_of_ostr(opt_str(jv_get(fs, "agencyId"@)))),
        ("version"@, jv_of_ostr(opt_str(jv_get(fs, "version"@)))),
        ("name"@, jv_of_ostr(opt_str(jv_get(fs, "name"@)))),
        ("names"@, opt_rec_norm::<LocalizedText>(jv_get(fs, "names"@))),
        ("validFrom"@, jv_of_ostr(opt_str(jv_get(fs, "validFrom"@)))),
        ("validTo"@, jv_of_ostr(opt_str(jv_get(fs, "validTo"@)))),
        ("isExternalReference"@, jv_of_obool(opt_bool(jv_get(fs, "isExternalReference"@)))),
        ("annotations"@, opt_recarr_norm::<Annotation>(jv_get(fs, "annotations"@))),
        ("links"@, opt_recarr_norm::<Link>(jv_get(fs, "links"@))),
        ("isPartial"@, jv_of_obool(opt_bool(jv_get(fs, "isPartial"@)))),
        ("vtlMappings"@, opt_recarr_norm::<Item>(jv_get(fs, "vtlMappings"@))),
    ]
}

/// The names this record knows are pairwise distinct.
pub proof fn lemma_vtl_mapping_scheme_names_distinct()
    ensures
        forall|i: int, j: int|
            0 <= i < j < vtl_mapping_scheme_names().len() ==> vtl_mapping_scheme_names()[i] != vtl_mapping_scheme_names()[j],
{
    reveal_strlit("id");
    reveal_strlit("agencyId");
    reveal_strlit("version");
    reveal_strlit("name");
    reveal_strlit("names");
    reveal_strlit("validFrom");
    reveal_strlit("validTo");
    reveal_strlit("isExternalReference");
    reveal_strlit("annotations");
    reveal_strlit("links");
    reveal_strlit("isPartial");
    reveal_strlit("vtlMappings");
    let ns = vtl_mapping_scheme_names();
    assert(ns.len() == 12);
    assert forall|i: int, j: int| 0 <= i < j < ns.len() implies ns[i] != ns[j] by {
        assert("id"@.len() == 2);
        assert("agencyId"@.len() == 8);
        assert("version"@.len() == 7);
        assert("name"@.len() == 4);
        assert("names"@.len() == 5);
        assert("validFrom"@.len() == 9);
        assert("validTo"@.len() == 7);
        assert("isExternalReference"@.len() == 19);
        assert("annotations"@.len() == 11);
        assert("links"@.len() == 5);
        assert("isPartial"@.len() == 9);
        assert("vtlMappings"@.len() == 11);
        assert("version"@[1] == 'e');
        assert("validTo"@[1] == 'a');
        assert("names"@[0] == 'n');
        assert("links"@[0] == 'l');
        assert("validFrom"@[0] == 'v');
        assert("isPartial"@[0] == 'i');
        assert("annotations"@[0] == 'a');
        assert("vtlMappings"@[0] == 'v');
    }
}

impl JsonForm for VtlMappingScheme {
    open spec fn wf(&self) -> bool {
        &&& ext_ok(self.other.view_fields(), vtl_mapping_scheme_names())
        &&& crate::fields::window_le(ostr_view(self.valid_from), ostr_view(self.valid_to))
        &&& orec_wf(self.names)
        &&& ovec_wf(self.annotations)
        &&& ovec_wf(self.links)
        &&& ovec_wf(self.vtl_mappings)
    }

    open spec fn ser(&self) -> JVal {
        JVal::Obj(present_fields(vtl_mapping_scheme_pairs(*self)) + self.other.view_fields())
    }

    open spec fn doc_ok(v: JVal) -> bool {
        &&& v is Obj
        &&& {
            let fs = v->Obj_0;
            &&& is_req_str(jv_get(fs, "id"@))
            &&& is_opt_str(jv_get(fs, "agencyId"@))
            &&& is_opt_str(jv_get(fs, "version"@))
            &&& is_opt_str(jv_get(fs, "name"@))
            &&& is_opt_rec::<LocalizedText>(jv_get(fs, "names"@))
            &&& is_opt_str(jv_get(fs, "validFrom"@))
            &&& is_opt_str(jv_get(fs, "validTo"@))
            &&& crate::fields::window_le(
                opt_str(jv_get(fs, "validFrom"@)),
                opt_str(jv_get(fs, "validTo"@)),
            )
            &&& is_opt_bool(jv_get(fs, "isExternalReference"@))
            &&& is_opt_recarr::<Annotation>(jv_get(fs, "annotations"@))
            &&& is_opt_recarr::<Link>(jv_get(fs, "links"@))
            &&& is_opt_bool(jv_get(fs, "isPartial"@))
            &&& is_opt_recarr::<Item>(jv_get(fs, "vtlMappings"@))
        }
    }

    open spec fn doc_norm(v: JVal) -> JVal {
        JVal::Obj(
            present_fields(vtl_mapping_scheme_norm_pairs(v->Obj_0)) + ext_fields(v->Obj_0, vtl_mapping_scheme_names()),
        )
    }

    #[verifier::rlimit(50)]
    fn from_json(v: JsonValue) -> (r: Result<Self, ParseError>) {
        let o = match v {
            JsonValue::Obj(o) => o,
            _ => { return Err(ParseError::NotObject) },
        };
        let ghost fs = jview_field_vec(o);
        let mut bag = FieldBag::new(o);
        proof {
            lemma_vtl_mapping_scheme_names_distinct();
        }
        proof {
            assert(bag.taken() =~= vtl_mapping_scheme_names().subrange(0, 0));
            crate::codec::lemma_take_fresh(vtl_mapping_scheme_names(), 0, bag.taken());
        }
        let id = match get_req_string(bag.take("id"), "id") {
            Ok(x) => x,
            Err(e) => { return Err(e) },
        };
        proof {
            assert(bag.taken() =~= vtl_mapping_scheme_names().subrange(0, 1));
            crate::codec::lemma_take_fresh(vtl_mapping_scheme_names(), 1, bag.taken());
        }
        let agency_id = match get_opt_string(bag.take("agencyId"), "agencyId") {
            Ok(x) => x,
            Err(e) => { return Err(e) },
        };
        proof {
            assert(bag.taken() =~= vtl_mapping_scheme_names().subrange(0, 2));
            crate::codec::lemma_take_fresh(vtl_mapping_scheme_names(), 2, bag.taken());
        }
        let version = match get_opt_string(bag.take("version"), "version") {
            Ok(x) => x,
            Err(e) => { return Err(e) },
        };
        proof {
            assert(bag.taken() =~= vtl_mapping_scheme_names().subrange(0, 3));
            crate::codec::lemma_take_fresh(vtl_mapping_scheme_names(), 3, bag.taken());
        }
        let name = match get_opt_string(bag.take("name"), "name") {
            Ok(x) => x,
            Err(e) => { return Err(e) },
        };
        proof {
            assert(bag.taken() =~= vtl_mapping_scheme_names().subrange(0, 4));
            crate::codec::lemma_take_fresh(vtl_mapping_scheme_names(), 4, bag.taken());
        }
        let names = match parse_opt::<LocalizedText>(bag.take("names")) {
            Ok(x) => x,
            Err(e) => { return Err(e) },
        };
        proof {
            assert(bag.taken() =~= vtl_mapping_scheme_names().subrange(0, 5));
            crate::codec::lemma_take_fresh(vtl_mapping_scheme_names(), 5, bag.taken());
        }
        let valid_from = match get_opt_string(bag.take("validFrom"), "validFrom") {
            Ok(x) => x,
            Err(e) => { return Err(e) },
        };
        proof {
            assert(bag.taken() =~= vtl_mapping_scheme_names().subrange(0, 6));
            crate::codec::lemma_take_fresh(vtl_mapping_scheme_names(), 6, bag.taken());
        }
        let valid_to = match get_opt_string(bag.take("validTo"), "validTo") {
            Ok(x) => x,
            Err(e) => { return Err(e) },
        };
        match (&valid_from, &valid_to) {
            (Some(f), Some(t)) => {
                if !crate::fields::str_le(f.as_str(), t.as_str()) {
                    return Err(
                        ParseError::Shape("validTo".to_owned(), crate::fields::ValueKind::Window),
                    );
                }
            },
            _ => (),
        }
        proof {
            assert(bag.taken() =~= vtl_mapping_scheme_names().subrange(0, 7));
            crate::codec::lemma_take_fresh(vtl_mapping_scheme_names(), 7, bag.taken());
        }
        let is_external_reference = match get_opt_bool(bag.take("isExternalReference"), "isExternalReference") {
            Ok(x) => x,
            Err(e) => { return Err(e) },
        };
        proof {
            assert(bag.taken() =~= vtl_mapping_scheme_names().subrange(0, 8));
            crate::codec::lemma_take_fresh(vtl_mapping_scheme_names(), 8, bag.taken());
        }
        let annotations = match parse_opt_vec::<Annotation>(bag.take("annotations"), "annotations") {
            Ok(x) => x,
            Err(e) => { return Err(e) },
        };
        proof {
            assert(bag.taken() =~= vtl_mapping_scheme_names().subrange(0, 9));
            crate::codec::lemma_take_fresh(vtl_mapping_scheme_names(), 9, bag.taken());
        }
        let links = match parse_opt_vec::<Link>(bag.take("links"), "links") {
            Ok(x) => x,
            Err(e) => { return Err(e) },
        };
        proof {
            assert(bag.taken() =~= vtl_mapping_scheme_names().subrange(0, 10));
            crate::codec::lemma_take_fresh(vtl_mapping_scheme_names(), 10, bag.taken());
        }
        let is_partial = match get_opt_bool(bag.take("isPartial"), "isPartial") {
            Ok(x) => x,
            Err(e) => { return Err(e) },
        };
        proof {
            assert(bag.taken() =~= vtl_mapping_scheme_names().subrange(0, 11));
            crate::codec::lemma_take_fresh(vtl_mapping_scheme_names(), 11, bag.taken());
        }
        let vtl_mappings = match parse_opt_vec::<Item>(bag.take("vtlMappings"), "vtlMappings") {
            Ok(x) => x,
            Err(e) => { return Err(e) },
        };
        let ghost tk = bag.taken();
        let other = bag.rest();
        let out = VtlMappingScheme { id, agency_id, version, name, names, valid_from, valid_to, is_external_reference, annotations, links, is_partial, vtl_mappings, other };
        proof {
            assert(tk =~= vtl_mapping_scheme_names());
            crate::codec::lemma_ext_fields_names(fs, tk);
            assert(vtl_mapping_scheme_pairs(out) =~= vtl_mapping_scheme_norm_pairs(fs));
        }
        Ok(out)
    }

    fn to_json(&self) -> (r: JsonValue) {
        let mut b = ObjBuilder::new();
        put_str(&mut b, "id", &self.id);
        put_opt_str(&mut b, "agencyId", &self.agency_id);
        put_opt_str(&mut b, "version", &self.version);
        put_opt_str(&mut b, "name", &self.name);
        put_opt_rec(&mut b, "names", &self.names);
        put_opt_str(&mut b, "validFrom", &self.valid_from);
        put_opt_str(&mut b, "validTo", &self.valid_to);
        put_opt_bool(&mut b, "isExternalReference", &self.is_external_reference);
        put_opt_vec(&mut b, "annotations", &self.annotations);
        put_opt_vec(&mut b, "links", &self.links);
        put_opt_bool(&mut b, "isPartial", &self.is_partial);
        put_opt_vec(&mut b, "vtlMappings", &self.vtl_mappings);
        proof {
            let ps = vtl_mapping_scheme_pairs(*self);
            lemma_pairs_chain(ps, 12);
            assert(ps.subrange(0, 12) =~= ps);
            assert(b.view_fields() == present_fields(ps)) by {
                reveal_with_fuel(pairs_prefix_chunks, 13);
            }
        }
        finish_with_ext(b, &self.other)
    }

    #[verifier::rlimit(50)]
    #[verifier::spinoff_prover]
    proof fn lemma_canon(&self) {
        lemma_vtl_mapping_scheme_names_distinct();
        let ps = vtl_mapping_scheme_pairs(*self);
        let ext = self.other.view_fields();
        assert(names_of(ps) =~= vtl_mapping_scheme_names());
        assert(distinct_names(ps)) by {
            assert forall|i: int, j: int|
                0 <= i < j < ps.len() implies ps[i].0 != ps[j].0 by {
                assert(ps[i].0 == vtl_mapping_scheme_names()[i]);
                assert(ps[j].0 == vtl_mapping_scheme_names()[j]);
            }
        }
        assert(disjoint_from(ext, ps)) by {
            assert forall|i: int, j: int|
                0 <= i < ext.len() && 0 <= j < ps.len() implies ext[i].0 != ps[j].0 by {
                assert(!is_known_name(ext[i].0, vtl_mapping_scheme_names()));
                assert(vtl_mapping_scheme_names()[j] == ps[j].0);
            }
        }
        lemma_jv_get_present(ps, ext);
        lemma_ext_of_present(ps, ext);
        let fs = self.ser()->Obj_0;
        assert(jv_get(fs, "id"@) == ps[0].1);
        assert(jv_get(fs, "agencyId"@) == ps[1].1);
        assert(jv_get(fs, "version"@) == ps[2].1);
        assert(jv_get(fs, "name"@) == ps[3].1);
        assert(jv_get(fs, "names"@) == ps[4].1);
        assert(jv_get(fs, "validFrom"@) == ps[5].1);
        assert(jv_get(fs, "validTo"@) == ps[6].1);
        assert(jv_get(fs, "isExternalReference"@) == ps[7].1);
        assert(jv_get(fs, "annotations"@) == ps[8].1);
        assert(jv_get(fs, "links"@) == ps[9].1);
        assert(jv_get(fs, "isPartial"@) == ps[10].1);
        assert(jv_get(fs, "vtlMappings"@) == ps[11].1);
        match self.names {
            Some(t) => {
                t.lemma_canon();
            },
            None => {},
        }
        match &self.annotations {
            Some(v) => {
                lemma_arr_canon::<Annotation>(v@);
            },
            None => {},
        }
        match &self.links {
            Some(v) => {
                lemma_arr_canon::<Link>(v@);
            },
            None => {},
        }
        match &self.vtl_mappings {
            Some(v) => {
                lemma_arr_canon::<Item>(v@);
            },
            None => {},
        }
        assert(Self::doc_ok(self.ser()));
        assert(vtl_mapping_scheme_norm_pairs(fs) =~= ps);
        assert(ext_fields(fs, names_of(ps)) == ext);
        assert(ext_fields(fs, vtl_mapping_scheme_names()) == ext);
    }
}

impl Artefact for VtlMappingScheme {
    open spec fn id_spec(&self) -> Seq<char> {
        self.id@
    }

    open spec fn agency_id_spec(&self) -> Option<Seq<char>> {
        ostr_view(self.agency_id)
    }

    open spec fn version_spec(&self) -> Option<Seq<char>> {
        ostr_view(self.version)
    }

    open spec fn name_spec(&self) -> Option<Seq<char>> {
        ostr_view(self.name)
    }

    open spec fn names_spec(&self) -> Option<LocalizedText> {
        self.names
    }

    open spec fn valid_from_spec(&self) -> Option<Seq<char>> {
        ostr_view(self.valid_from)
    }

    open spec fn valid_to_spec(&self) -> Option<Seq<char>> {
        ostr_view(self.valid_to)
    }

    open spec fn is_external_reference_spec(&self) -> Option<bool> {
        self.is_external_reference
    }

    open spec fn annotations_spec(&self) -> Option<Seq<Annotation>> {
        match self.annotations {
            Some(v) => Some(v@),
            None => None,
        }
    }

    open spec fn links_spec(&self) -> Option<Seq<Link>> {
        match self.links {
            Some(v) => Some(v@),
            None => None,
        }
    }

    fn id(&self) -> (r: &String) {
        &self.id
    }

    fn agency_id(&self) -> (r: Option<&String>) {
        self.agency_id.as_ref()
    }

    fn version(&self) -> (r: Option<&String>) {
        self.version.as_ref()
    }

    fn name(&self) -> (r: Option<&String>) {
        self.name.as_ref()
    }

    fn names(&self) -> (r: Option<&LocalizedText>) {
        self.names.as_ref()
    }

    fn valid_from(&self) -> (r: Option<&String>) {
        self.valid_from.as_ref()
    }

    fn valid_to(&self) -> (r: Option<&String>) {
        self.valid_to.as_ref()
    }

    fn is_external_reference(&self) -> (r: Option<bool>) {
        self.is_external_reference
    }

    fn annotations(&self) -> (r: Option<&Vec<Annotation>>) {
        self.annotations.as_ref()
    }

    fn links(&self) -> (r: Option<&Vec<Link>>) {
        self.links.as_ref()
    }
}

impl ItemScheme for VtlMappingScheme {
    open spec fn is_partial_spec(&self) -> Option<bool> {
        self.is_partial
    }

    open spec fn items_spec(&self) -> Option<Seq<Item>> {
        match self.vtl_mappings {
            Some(v) => Some(v@),
            None => None,
        }
    }

    fn is_partial(&self) -> (r: Option<bool>) {
        self.is_partial
    }

    fn items(&self) -> (r: Option<&Vec<Item>>) {
        self.vtl_mappings.as_ref()
    }

    fn set_items(&mut self, items: Option<Vec<Item>>) {
        self.vtl_mappings = items;
    }

    fn clear_items(&mut self) {
        self.vtl_mappings = None;
    }

    fn contains_items(&self) -> (r: bool) {
        match &self.vtl_mappings {
            Some(v) => v.len() > 0,
            None => false,
        }
    }
}

/// The item scheme for a ruleset.
#[derive(Debug, PartialEq)]
pub struct RulesetScheme {
    pub id: String,
    pub agency_id: Option<String>,
    pub version: Option<String>,
    pub name: Option<String>,
    pub names: Option<LocalizedText>,
    pub valid_from: Option<String>,
    pub valid_to: Option<String>,
    pub is_external_reference: Option<bool>,
    pub annotations: Option<Vec<Annotation>>,
    pub links: Option<Vec<Link>>,
    pub is_partial: Option<bool>,
    pub rulesets: Option<Vec<Item>>,
    pub other: Extensions,
}

pub open spec fn ruleset_scheme_names() -> Seq<Seq<char>> {
    seq!["id"@, "agencyId"@, "version"@, "name"@, "names"@, "validFrom"@, "validTo"@, "isExternalReference"@, "annotations"@, "links"@, "isPartial"@, "rulesets"@]
}

pub open spec fn ruleset_scheme_pairs(x: RulesetScheme) -> Seq<(Seq<char>, Option<JVal>)> {
    seq![
        ("id"@, Some(JVal::Str(x.id@))),
        ("agencyId"@, jv_of_ostr(ostr_view(x.agency_id))),
        ("version"@, jv_of_ostr(ostr_view(x.version))),
        ("name"@, jv_of_ostr(ostr_view(x.name))),
        ("names"@, orec_ser(x.names)),
        ("validFrom"@, jv_of_ostr(ostr_view(x.valid_from))),
        ("validTo"@, jv_of_ostr(ostr_view(x.valid_to))),
        ("isExternalReference"@, jv_of_obool(x.is_external_reference)),
        ("annotations"@, ovec_ser(x.annotations)),
        ("links"@, ovec_ser(x.links)),
        ("isPartial"@, jv_of_obool(x.is_partial)),
        ("rulesets"@, ovec_ser(x.rulesets)),
    ]
}

pub open spec fn ruleset_scheme_norm_pairs(fs: Seq<(Seq<char>, JVal)>) -> Seq<(Seq<char>, Option<JVal>)> {
    seq![
        ("id"@, jv_of_ostr(opt_str(jv_get(fs, "id"@)))),
        ("agencyId"@, jv_of_ostr(opt_str(jv_get(fs, "agencyId"@)))),
        ("version"@, jv_of_ostr(opt_str(jv_get(fs, "version"@)))),
        ("name"@, jv_of_ostr(opt_str(jv_get(fs, "name"@)))),
        ("names"@, opt_rec_norm::<LocalizedText>(jv_get(fs, "names"@))),
        ("validFrom"@, jv_of_ostr(opt_str(jv_get(fs, "validFrom"@)))),
        ("validTo"@, jv_of_ostr(opt_str(jv_get(fs, "validTo"@)))),
        ("isExternalReference"@, jv_of_obool(opt_bool(jv_get(fs, "isExternalReference"@)))),
        ("annotations"@, opt_recarr_norm::<Annotation>(jv_get(fs, "annotations"@))),
        ("links"@, opt_recarr_norm::<Link>(jv_get(fs, "links"@))),
        ("isPartial"@, jv_of_obool(opt_bool(jv_get(fs, "isPartial"@)))),
        ("rulesets"@, opt_recarr_norm::<Item>(jv_get(fs, "rulesets"@))),
    ]
}

/// The names this record knows are pairwise distinct.
pub proof fn lemma_ruleset_scheme_names_distinct()
    ensures
        forall|i: int, j: int|
            0 <= i < j < ruleset_scheme_names().len() ==> ruleset_scheme_names()[i] != ruleset_scheme_names()[j],
{
    reveal_strlit("id");
    reveal_strlit("agencyId");
    reveal_strlit("version");
    reveal_strlit("name");
    reveal_strlit("names");
    reveal_strlit("validFrom");
    reveal_strlit("validTo");
    reveal_strlit("isExternalReference");
    reveal_strlit("annotations");
    reveal_strlit("links");
    reveal_strlit("isPartial");
    reveal_strlit("rulesets");
    let ns = ruleset_scheme_names();
    assert(ns.len() == 12);
    assert forall|i: int, j: int| 0 <= i < j < ns.len() implies ns[i] != ns[j] by {
        assert("id"@.len() == 2);
        assert("agencyId"@.len() == 8);
        assert("version"@.len() == 7);
        assert("name"@.len() == 4);
        assert("names"@.len() == 5);
        assert("validFrom"@.len() == 9);
        assert("validTo"@.len() == 7);
        assert("isExternalReference"@.len() == 19);
        assert("annotations"@.len() == 11);
        assert("links"@.len() == 5);
        assert("isPartial"@.len() == 9);
        assert("rulesets"@.len() == 8);
        assert("agencyId"@[0] == 'a');
        assert("rulesets"@[0] == 'r');
        assert("version"@[1] == 'e');
        assert("validTo"@[1] == 'a');
        assert("names"@[0] == 'n');
        assert("links"@[0] == 'l');
        assert("validFrom"@[0] == 'v');
        assert("isPartial"@[0] == 'i');
    }
}

impl JsonForm for RulesetScheme {
    open spec fn wf(&self) -> bool {
        &&& ext_ok(self.other.view_fields(), ruleset_scheme_names())
        &&& crate::fields::window_le(ostr_view(self.valid_from), ostr_view(self.valid_to))
        &&& orec_wf(self.names)
        &&& ovec_wf(self.annotations)
        &&& ovec_wf(self.links)
        &&& ovec_wf(self.rulesets)
    }

    open spec fn ser(&self) -> JVal {
        JVal::Obj(present_fields(ruleset_scheme_pairs(*self)) + self.other.view_fields())
    }

    open spec fn doc_ok(v: JVal) -> bool {
        &&& v is Obj
        &&& {
            let fs = v->Obj_0;
            &&& is_req_str(jv_get(fs, "id"@))
            &&& is_opt_str(jv_get(fs, "agencyId"@))
            &&& is_opt_str(jv_get(fs, "version"@))
            &&& is_opt_str(jv_get(fs, "name"@))
            &&& is_opt_rec::<LocalizedText>(jv_get(fs, "names"@))
            &&& is_opt_str(jv_get(fs, "validFrom"@))
            &&& is_opt_str(jv_get(fs, "validTo"@))
            &&& crate::fields::window_le(
                opt_str(jv_get(fs, "validFrom"@)),
                opt_str(jv_get(fs, "validTo"@)),
            )
            &&& is_opt_bool(jv_get(fs, "isExternalReference"@))
            &&& is_opt_recarr::<Annotation>(jv_get(fs, "annotations"@))
            &&& is_opt_recarr::<Link>(jv_get(fs, "links"@))
            &&& is_opt_bool(jv_get(fs, "isPartial"@))
            &&& is_opt_recarr::<Item>(jv_get(fs, "rulesets"@))
        }
    }

    open spec fn doc_norm(v: JVal) -> JVal {
        JVal::Obj(
            present_fields(ruleset_scheme_norm_pairs(v->Obj_0)) + ext_fields(v->Obj_0, ruleset_scheme_names()),
        )
    }

    #[verifier::rlimit(50)]
    fn from_json(v: JsonValue) -> (r: Result<Self, ParseError>) {
        let o = match v {
            JsonValue::Obj(o) => o,
            _ => { return Err(ParseError::NotObject) },
        };
        let ghost fs = jview_field_vec(o);
        let mut bag = FieldBag::new(o);
        proof {
            lemma_ruleset_scheme_names_distinct();
        }
        proof {
            assert(bag.taken() =~= ruleset_scheme_names().subrange(0, 0));
            crate::codec::lemma_take_fresh(ruleset_scheme_names(), 0, bag.taken());
        }
        let id = match get_req_string(bag.take("id"), "id") {
            Ok(x) => x,
            Err(e) => { return Err(e) },
        };
        proof {
            assert(bag.taken() =~= ruleset_scheme_names().subrange(0, 1));
            crate::codec::lemma_take_fresh(ruleset_scheme_names(), 1, bag.taken());
        }
        let agency_id = match get_opt_string(bag.take("agencyId"), "agencyId") {
            Ok(x) => x,
            Err(e) => { return Err(e) },
        };
        proof {
            assert(bag.taken() =~= ruleset_scheme_names().subrange(0, 2));
            crate::codec::lemma_take_fresh(ruleset_scheme_names(), 2, bag.taken());
        }
        let version = match get_opt_string(bag.take("version"), "version") {
            Ok(x) => x,
            Err(e) => { return Err(e) },
        };
        proof {
            assert(bag.taken() =~= ruleset_scheme_names().subrange(0, 3));
            crate::codec::lemma_take_fresh(ruleset_scheme_names(), 3, bag.taken());
        }
        let name = match get_opt_string(bag.take("name"), "name") {
            Ok(x) => x,
            Err(e) => { return Err(e) },
        };
        proof {
            assert(bag.taken() =~= ruleset_scheme_names().subrange(0, 4));
            crate::codec::lemma_take_fresh(ruleset_scheme_names(), 4, bag.taken());
        }
        let names = match parse_opt::<LocalizedText>(bag.take("names")) {
            Ok(x) => x,
            Err(e) => { return Err(e) },
        };
        proof {
            assert(bag.taken() =~= ruleset_scheme_names().subrange(0, 5));
            crate::codec::lemma_take_fresh(ruleset_scheme_names(), 5, bag.taken());
        }
        let valid_from = match get_opt_string(bag.take("validFrom"), "validFrom") {
            Ok(x) => x,
            Err(e) => { return Err(e) },
        };
        proof {
            assert(bag.taken() =~= ruleset_scheme_names().subrange(0, 6));
            crate::codec::lemma_take_fresh(ruleset_scheme_names(), 6, bag.taken());
        }
        let valid_to = match get_opt_string(bag.take("validTo"), "validTo") {
            Ok(x) => x,
            Err(e) => { return Err(e) },
        };
        match (&valid_from, &valid_to) {
            (Some(f), Some(t)) => {
                if !crate::fields::str_le(f.as_str(), t.as_str()) {
                    return Err(
                        ParseError::Shape("validTo".to_owned(), crate::fields::ValueKind::Window),
                    );
                }
            },
            _ => (),
        }
        proof {
            assert(bag.taken() =~= ruleset_scheme_names().subrange(0, 7));
            crate::codec::lemma_take_fresh(ruleset_scheme_names(), 7, bag.taken());
        }
        let is_external_reference = match get_opt_bool(bag.take("isExternalReference"), "isExternalReference") {
            Ok(x) => x,
            Err(e) => { return Err(e) },
        };
        proof {
            assert(bag.taken() =~= ruleset_scheme_names().subrange(0, 8));
            crate::codec::lemma_take_fresh(ruleset_scheme_names(), 8, bag.taken());
        }
        let annotations = match parse_opt_vec::<Annotation>(bag.take("annotations"), "annotations") {
            Ok(x) => x,
            Err(e) => { return Err(e) },
        };
        proof {
            assert(bag.taken() =~= ruleset_scheme_names().subrange(0, 9));
            crate::codec::lemma_take_fresh(ruleset_scheme_names(), 9, bag.taken());
        }
        let links = match parse_opt_vec::<Link>(bag.take("links"), "links") {
            Ok(x) => x,
            Err(e) => { return Err(e) },
        };
        proof {
            assert(bag.taken() =~= ruleset_scheme_names().subrange(0, 10));
            crate::codec::lemma_take_fresh(ruleset_scheme_names(), 10, bag.taken());
        }
        let is_partial = match get_opt_bool(bag.take("isPartial"), "isPartial") {
            Ok(x) => x,
            Err(e) => { return Err(e) },
        };
        proof {
            assert(bag.taken() =~= ruleset_scheme_names().subrange(0, 11));
            crate::codec::lemma_take_fresh(ruleset_scheme_names(), 11, bag.taken());
        }
        let rulesets = match parse_opt_vec::<Item>(bag.take("rulesets"), "rulesets") {
            Ok(x) => x,
            Err(e) => { return Err(e) },
        };
        let ghost tk = bag.taken();
        let other = bag.rest();
        let out = RulesetScheme { id, agency_id, version, name, names, valid_from, valid_to, is_external_reference, annotations, links, is_partial, rulesets, other };
        proof {
            assert(tk =~= ruleset_scheme_names());
            crate::codec::lemma_ext_fields_names(fs, tk);
            assert(ruleset_scheme_pairs(out) =~= ruleset_scheme_norm_pairs(fs));
        }
        Ok(out)
    }

    fn to_json(&self) -> (r: JsonValue) {
        let mut b = ObjBuilder::new();
        put_str(&mut b, "id", &self.id);
        put_opt_str(&mut b, "agencyId", &self.agency_id);
        put_opt_str(&mut b, "version", &self.version);
        put_opt_str(&mut b, "name", &self.name);
        put_opt_rec(&mut b, "names", &self.names);
        put_opt_str(&mut b, "validFrom", &self.valid_from);
        put_opt_str(&mut b, "validTo", &self.valid_to);
        put_opt_bool(&mut b, "isExternalReference", &self.is_external_reference);
        put_opt_vec(&mut b, "annotations", &self.annotations);
        put_opt_vec(&mut b, "links", &self.links);
        put_opt_bool(&mut b, "isPartial", &self.is_partial);
        put_opt_vec(&mut b, "rulesets", &self.rulesets);
        proof {
            let ps = ruleset_scheme_pairs(*self);
            lemma_pairs_chain(ps, 12);
            assert(ps.subrange(0, 12) =~= ps);
            assert(b.view_fields() == present_fields(ps)) by {
                reveal_with_fuel(pairs_prefix_chunks, 13);
            }
        }
        finish_with_ext(b, &self.other)
    }

    #[verifier::rlimit(50)]
    #[verifier::spinoff_prover]
    proof fn lemma_canon(&self) {
        lemma_ruleset_scheme_names_distinct();
        let ps = ruleset_scheme_pairs(*self);
        let ext = self.other.view_fields();
        assert(names_of(ps) =~= ruleset_scheme_names());
        assert(distinct_names(ps)) by {
            assert forall|i: int, j: int|
                0 <= i < j < ps.len() implies ps[i].0 != ps[j].0 by {
                assert(ps[i].0 == ruleset_scheme_names()[i]);
                assert(ps[j].0 == ruleset_scheme_names()[j]);
            }
        }
        assert(disjoint_from(ext, ps)) by {
            assert forall|i: int, j: int|
                0 <= i < ext.len() && 0 <= j < ps.len() implies ext[i].0 != ps[j].0 by {
                assert(!is_known_name(ext[i].0, ruleset_scheme_names()));
                assert(ruleset_scheme_names()[j] == ps[j].0);
            }
        }
        lemma_jv_get_present(ps, ext);
        lemma_ext_of_present(ps, ext);
        let fs = self.ser()->Obj_0;
        assert(jv_get(fs, "id"@) == ps[0].1);
        assert(jv_get(fs, "agencyId"@) == ps[1].1);
        assert(jv_get(fs, "version"@) == ps[2].1);
        assert(jv_get(fs, "name"@) == ps[3].1);
        assert(jv_get(fs, "names"@) == ps[4].1);
        assert(jv_get(fs, "validFrom"@) == ps[5].1);
        assert(jv_get(fs, "validTo"@) == ps[6].1);
        assert(jv_get(fs, "isExternalReference"@) == ps[7].1);
        assert(jv_get(fs, "annotations"@) == ps[8].1);
        assert(jv_get(fs, "links"@) == ps[9].1);
        assert(jv_get(fs, "isPartial"@) == ps[10].1);
        assert(jv_get(fs, "rulesets"@) == ps[11].1);
        match self.names {
            Some(t) => {
                t.lemma_canon();
            },
            None => {},
        }
        match &self.annotations {
            Some(v) => {
                lemma_arr_canon::<Annotation>(v@);
            },
            None => {},
        }
        match &self.links {
            Some(v) => {
                lemma_arr_canon::<Link>(v@);
            },
            None => {},
        }
        match &self.rulesets {
            Some(v) => {
                lemma_arr_canon::<Item>(v@);
            },
            None => {},
        }
        assert(Self::doc_ok(self.ser()));
        assert(ruleset_scheme_norm_pairs(fs) =~= ps);
        assert(ext_fields(fs, names_of(ps)) == ext);
        assert(ext_fields(fs, ruleset_scheme_names()) == ext);
    }
}

impl Artefact for RulesetScheme {
    open spec fn id_spec(&self) -> Seq<char> {
        self.id@
    }

    open spec fn agency_id_spec(&self) -> Option<Seq<char>> {
        ostr_view(self.agency_id)
    }

    open spec fn version_spec(&self) -> Option<Seq<char>> {
        ostr_view(self.version)
    }

    open spec fn name_spec(&self) -> Option<Seq<char>> {
        ostr_view(self.name)
    }

    open spec fn names_spec(&self) -> Option<LocalizedText> {
        self.names
    }

    open spec fn valid_from_spec(&self) -> Option<Seq<char>> {
        ostr_view(self.valid_from)
    }

    open spec fn valid_to_spec(&self) -> Option<Seq<char>> {
        ostr_view(self.valid_to)
    }

    open spec fn is_external_reference_spec(&self) -> Option<bool> {
        self.is_external_reference
    }

    open spec fn annotations_spec(&self) -> Option<Seq<Annotation>> {
        match self.annotations {
            Some(v) => Some(v@),
            None => None,
        }
    }

    open spec fn links_spec(&self) -> Option<Seq<Link>> {
        match self.links {
            Some(v) => Some(v@),
            None => None,
        }
    }

    fn id(&self) -> (r: &String) {
        &self.id
    }

    fn agency_id(&self) -> (r: Option<&String>) {
        self.agency_id.as_ref()
    }

    fn version(&self) -> (r: Option<&String>) {
        self.version.as_ref()
    }

    fn name(&self) -> (r: Option<&String>) {
        self.name.as_ref()
    }

    fn names(&self) -> (r: Option<&LocalizedText>) {
        self.names.as_ref()
    }

    fn valid_from(&self) -> (r: Option<&String>) {
        self.valid_from.as_ref()
    }

    fn valid_to(&self) -> (r: Option<&String>) {
        self.valid_to.as_ref()
    }

    fn is_external_reference(&self) -> (r: Option<bool>) {
        self.is_external_reference
    }

    fn annotations(&self) -> (r: Option<&Vec<Annotation>>) {
        self.annotations.as_ref()
    }

    fn links(&self) -> (r: Option<&Vec<Link>>) {
        self.links.as_ref()
    }
}

impl ItemScheme for RulesetScheme {
    open spec fn is_partial_spec(&self) -> Option<bool> {
        self.is_partial
    }

    open spec fn items_spec(&self) -> Option<Seq<Item>> {
        match self.rulesets {
            Some(v) => Some(v@),
            None => None,
        }
    }

    fn is_partial(&self) -> (r: Option<bool>) {
        self.is_partial
    }

    fn items(&self) -> (r: Option<&Vec<Item>>) {
        self.rulesets.as_ref()
    }

    fn set_items(&mut self, items: Option<Vec<Item>>) {
        self.rulesets = items;
    }

    fn clear_items(&mut self) {
        self.rulesets = None;
    }

    fn contains_items(&self) -> (r: bool) {
        match &self.rulesets {
            Some(v) => v.len() > 0,
            None => false,
        }
    }
}

/// The item scheme for a transformation.
#[derive(Debug, PartialEq)]
pub struct TransformationScheme {
    pub id: String,
    pub agency_id: Option<String>,
    pub version: Option<String>,
    pub name: Option<String>,
    pub names: Option<LocalizedText>,
    pub valid_from: Option<String>,
    pub valid_to: Option<String>,
    pub is_external_reference: Option<bool>,
    pub annotations: Option<Vec<Annotation>>,
    pub links: Option<Vec<Link>>,
    pub is_partial: Option<bool>,
    pub transformations: Option<Vec<Item>>,
    pub other: Extensions,
}

pub open spec fn transformation_scheme_names() -> Seq<Seq<char>> {
    seq!["id"@, "agencyId"@, "version"@, "name"@, "names"@, "validFrom"@, "validTo"@, "isExternalReference"@, "annotations"@, "links"@, "isPartial"@, "transformations"@]
}

pub open spec fn transformation_scheme_pairs(x: TransformationScheme) -> Seq<(Seq<char>, Option<JVal>)> {
    seq![
        ("id"@, Some(JVal::Str(x.id@))),
        ("agencyId"@, jv_of_ostr(ostr_view(x.agency_id))),
        ("version"@, jv_of_ostr(ostr_view(x.version))),
        ("name"@, jv_of_ostr(ostr_view(x.name))),
        ("names"@, orec_ser(x.names)),
        ("validFrom"@, jv_of_ostr(ostr_view(x.valid_from))),
        ("validTo"@, jv_of_ostr(ostr_view(x.valid_to))),
        ("isExternalReference"@, jv_of_obool(x.is_external_reference)),
        ("annotations"@, ovec_ser(x.annotations)),
        ("links"@, ovec_ser(x.links)),
        ("isPartial"@, jv_of_obool(x.is_partial)),
        ("transformations"@, ovec_ser(x.transformations)),
    ]
}

pub open spec fn transformation_scheme_norm_pairs(fs: Seq<(Seq<char>, JVal)>) -> Seq<(Seq<char>, Option<JVal>)> {
    seq![
        ("id"@, jv_of_ostr(opt_str(jv_get(fs, "id"@)))),
        ("agencyId"@, jv_of_ostr(opt_str(jv_get(fs, "agencyId"@)))),
        ("version"@, jv_of_ostr(opt_str(jv_get(fs, "version"@)))),
        ("name"@, jv_of_ostr(opt_str(jv_get(fs, "name"@)))),
        ("names"@, opt_rec_norm::<LocalizedText>(jv_get(fs, "names"@))),
        ("validFrom"@, jv_of_ostr(opt_str(jv_get(fs, "validFrom"@)))),
        ("validTo"@, jv_of_ostr(opt_str(jv_get(fs, "validTo"@)))),
        ("isExternalReference"@, jv_of_obool(opt_bool(jv_get(fs, "isExternalReference"@)))),
        ("annotations"@, opt_recarr_norm::<Annotation>(jv_get(fs, "annotations"@))),
        ("links"@, opt_recarr_norm::<Link>(jv_get(fs, "links"@))),
        ("isPartial"@, jv_of_obool(opt_bool(jv_get(fs, "isPartial"@)))),
        ("transformations"@, opt_recarr_norm::<Item>(jv_get(fs, "transformations"@))),
    ]
}

/// The names this record knows are pairwise distinct.
pub proof fn lemma_transformation_scheme_names_distinct()
    ensures
        forall|i: int, j: int|
            0 <= i < j < transformation_scheme_names().len() ==> transformation_scheme_names()[i] != transformation_scheme_names()[j],
{
    reveal_strlit("id");
    reveal_strlit("agencyId");
    reveal_strlit("version");
    reveal_strlit("name");
    reveal_strlit("names");
    reveal_strlit("validFrom");
    reveal_strlit("validTo");
    reveal_strlit("isExternalReference");
    reveal_strlit("annotations");
    reveal_strlit("links");
    reveal_strlit("isPartial");
    reveal_strlit("transformations");
    let ns = transformation_scheme_names();
    assert(ns.len() == 12);
    assert forall|i: int, j: int| 0 <= i < j < ns.len() implies ns[i] != ns[j] by {
        assert("id"@.len() == 2);
        assert("agencyId"@.len() == 8);
        assert("version"@.len() == 7);
        assert("name"@.len() == 4);
        assert("names"@.len() == 5);
        assert("validFrom"@.len() == 9);
        assert("validTo"@.len() == 7);
        assert("isExternalReference"@.len() == 19);
        assert("annotations"@.len() == 11);
        assert("links"@.len() == 5);
        assert("isPartial"@.len() == 9);
        assert("transformations"@.len() == 15);
        assert("version"@[1] == 'e');
        assert("validTo"@[1] == 'a');
        assert("names"@[0] == 'n');
        assert("links"@[0] == 'l');
        assert("validFrom"@[0] == 'v');
        assert("isPartial"@[0] == 'i');
    }
}

impl JsonForm for TransformationScheme {
    open spec fn wf(&self) -> bool {
        &&& ext_ok(self.other.view_fields(), transformation_scheme_names())
        &&& crate::fields::window_le(ostr_view(self.valid_from), ostr_view(self.valid_to))
        &&& orec_wf(self.names)
        &&& ovec_wf(self.annotations)
        &&& ovec_wf(self.links)
        &&& ovec_wf(self.transformations)
    }

    open spec fn ser(&self) -> JVal {
        JVal::Obj(present_fields(transformation_scheme_pairs(*self)) + self.other.view_fields())
    }

    open spec fn doc_ok(v: JVal) -> bool {
        &&& v is Obj
        &&& {
            let fs = v->Obj_0;
            &&& is_req_str(jv_get(fs, "id"@))
            &&& is_opt_str(jv_get(fs, "agencyId"@))
            &&& is_opt_str(jv_get(fs, "version"@))
            &&& is_opt_str(jv_get(fs, "name"@))
            &&& is_opt_rec::<LocalizedText>(jv_get(fs, "names"@))
            &&& is_opt_str(jv_get(fs, "validFrom"@))
            &&& is_opt_str(jv_get(fs, "validTo"@))
            &&& crate::fields::window_le(
                opt_str(jv_get(fs, "validFrom"@)),
                opt_str(jv_get(fs, "validTo"@)),
            )
            &&& is_opt_bool(jv_get(fs, "isExternalReference"@))
            &&& is_opt_recarr::<Annotation>(jv_get(fs, "annotations"@))
            &&& is_opt_recarr::<Link>(jv_get(fs, "links"@))
            &&& is_opt_bool(jv_get(fs, "isPartial"@))
            &&& is_opt_recarr::<Item>(jv_get(fs, "transformations"@))
        }
    }

    open spec fn doc_norm(v: JVal) -> JVal {
        JVal::Obj(
            present_fields(transformation_scheme_norm_pairs(v->Obj_0)) + ext_fields(v->Obj_0, transformation_scheme_names()),
        )
    }

    #[verifier::rlimit(50)]
    fn from_json(v: JsonValue) -> (r: Result<Self, ParseError>) {
        let o = match v {
            JsonValue::Obj(o) => o,
            _ => { return Err(ParseError::NotObject) },
        };
        let ghost fs = jview_field_vec(o);
        let mut bag = FieldBag::new(o);
        proof {
            lemma_transformation_scheme_names_distinct();
        }
        proof {
            assert(bag.taken() =~= transformation_scheme_names().subrange(0, 0));
            crate::codec::lemma_take_fresh(transformation_scheme_names(), 0, bag.taken());
        }
        let id = match get_req_string(bag.take("id"), "id") {
            Ok(x) => x,
            Err(e) => { return Err(e) },
        };
        proof {
            assert(bag.taken() =~= transformation_scheme_names().subrange(0, 1));
            crate::codec::lemma_take_fresh(transformation_scheme_names(), 1, bag.taken());
        }
        let agency_id = match get_opt_string(bag.take("agencyId"), "agencyId") {
            Ok(x) => x,
            Err(e) => { return Err(e) },
        };
        proof {
            assert(bag.taken() =~= transformation_scheme_names().subrange(0, 2));
            crate::codec::lemma_take_fresh(transformation_scheme_names(), 2, bag.taken());
        }
        let version = match get_opt_string(bag.take("version"), "version") {
            Ok(x) => x,
            Err(e) => { return Err(e) },
        };
        proof {
            assert(bag.taken() =~= transformation_scheme_names().subrange(0, 3));
            crate::codec::lemma_take_fresh(transformation_scheme_names(), 3, bag.taken());
        }
        let name = match get_opt_string(bag.take("name"), "name") {
            Ok(x) => x,
            Err(e) => { return Err(e) },
        };
        proof {
            assert(bag.taken() =~= transformation_scheme_names().subrange(0, 4));
            crate::codec::lemma_take_fresh(transformation_scheme_names(), 4, bag.taken());
        }
        let names = match parse_opt::<LocalizedText>(bag.take("names")) {
            Ok(x) => x,
            Err(e) => { return Err(e) },
        };
        proof {
            assert(bag.taken() =~= transformation_scheme_names().subrange(0, 5));
            crate::codec::lemma_take_fresh(transformation_scheme_names(), 5, bag.taken());
        }
        let valid_from = match get_opt_string(bag.take("validFrom"), "validFrom") {
            Ok(x) => x,
            Err(e) => { return Err(e) },
        };
        proof {
            assert(bag.taken() =~= transformation_scheme_names().subrange(0, 6));
            crate::codec::lemma_take_fresh(transformation_scheme_names(), 6, bag.taken());
        }
        let valid_to = match get_opt_string(bag.take("validTo"), "validTo") {
            Ok(x) => x,
            Err(e) => { return Err(e) },
        };
        match (&valid_from, &valid_to) {
            (Some(f), Some(t)) => {
                if !crate::fields::str_le(f.as_str(), t.as_str()) {
                    return Err(
                        ParseError::Shape("validTo".to_owned(), crate::fields::ValueKind::Window),
                    );
                }
            },
            _ => (),
        }
        proof {
            assert(bag.taken() =~= transformation_scheme_names().subrange(0, 7));
            crate::codec::lemma_take_fresh(transformation_scheme_names(), 7, bag.taken());
        }
        let is_external_reference = match get_opt_bool(bag.take("isExternalReference"), "isExternalReference") {
            Ok(x) => x,
            Err(e) => { return Err(e) },
        };
        proof {
            assert(bag.taken() =~= transformation_scheme_names().subrange(0, 8));
            crate::codec::lemma_take_fresh(transformation_scheme_names(), 8, bag.taken());
        }
        let annotations = match parse_opt_vec::<Annotation>(bag.take("annotations"), "annotations") {
            Ok(x) => x,
            Err(e) => { return Err(e) },
        };
        proof {
            assert(bag.taken() =~= transformation_scheme_names().subrange(0, 9));
            crate::codec::lemma_take_fresh(transformation_scheme_names(), 9, bag.taken());
        }
        let links = match parse_opt_vec::<Link>(bag.take("links"), "links") {
            Ok(x) => x,
            Err(e) => { return Err(e) },
        };
        proof {
            assert(bag.taken() =~= transformation_scheme_names().subrange(0, 10));
            crate::codec::lemma_take_fresh(transformation_scheme_names(), 10, bag.taken());
        }
        let is_partial = match get_opt_bool(bag.take("isPartial"), "isPartial") {
            Ok(x) => x,
            Err(e) => { return Err(e) },
        };
        proof {
            assert(bag.taken() =~= transformation_scheme_names().subrange(0, 11));
            crate::codec::lemma_take_fresh(transformation_scheme_names(), 11, bag.taken());
        }
        let transformations = match parse_opt_vec::<Item>(bag.take("transformations"), "transformations") {
            Ok(x) => x,
            Err(e) => { return Err(e) },
        };
        let ghost tk = bag.taken();
        let other = bag.rest();
        let out = TransformationScheme { id, agency_id, version, name, names, valid_from, valid_to, is_external_reference, annotations, links, is_partial, transformations, other };
        proof {
            assert(tk =~= transformation_scheme_names());
            crate::codec::lemma_ext_fields_names(fs, tk);
            assert(transformation_scheme_pairs(out) =~= transformation_scheme_norm_pairs(fs));
        }
        Ok(out)
    }

    fn to_json(&self) -> (r: JsonValue) {
        let mut b = ObjBuilder::new();
        put_str(&mut b, "id", &self.id);
        put_opt_str(&mut b, "agencyId", &self.agency_id);
        put_opt_str(&mut b, "version", &self.version);
        put_opt_str(&mut b, "name", &self.name);
        put_opt_rec(&mut b, "names", &self.names);
        put_opt_str(&mut b, "validFrom", &self.valid_from);
        put_opt_str(&mut b, "validTo", &self.valid_to);
        put_opt_bool(&mut b, "isExternalReference", &self.is_external_reference);
        put_opt_vec(&mut b, "annotations", &self.annotations);
        put_opt_vec(&mut b, "links", &self.links);
        put_opt_bool(&mut b, "isPartial", &self.is_partial);
        put_opt_vec(&mut b, "transformations", &self.transformations);
        proof {
            let ps = transformation_scheme_pairs(*self);
            lemma_pairs_chain(ps, 12);
            assert(ps.subrange(0, 12) =~= ps);
            assert(b.view_fields() == present_fields(ps)) by {
                reveal_with_fuel(pairs_prefix_chunks, 13);
            }
        }
        finish_with_ext(b, &self.other)
    }

    #[verifier::rlimit(50)]
    #[verifier::spinoff_prover]
    proof fn lemma_canon(&self) {
        lemma_transformation_scheme_names_distinct();
        let ps = transformation_scheme_pairs(*self);
        let ext = self.other.view_fields();
        assert(names_of(ps) =~= transformation_scheme_names());
        assert(distinct_names(ps)) by {
            assert forall|i: int, j: int|
                0 <= i < j < ps.len() implies ps[i].0 != ps[j].0 by {
                assert(ps[i].0 == transformation_scheme_names()[i]);
                assert(ps[j].0 == transformation_scheme_names()[j]);
            }
        }
        assert(disjoint_from(ext, ps)) by {
            assert forall|i: int, j: int|
                0 <= i < ext.len() && 0 <= j < ps.len() implies ext[i].0 != ps[j].0 by {
                assert(!is_known_name(ext[i].0, transformation_scheme_names()));
                assert(transformation_scheme_names()[j] == ps[j].0);
            }
        }
        lemma_jv_get_present(ps, ext);
        lemma_ext_of_present(ps, ext);
        let fs = self.ser()->Obj_0;
        assert(jv_get(fs, "id"@) == ps[0].1);
        assert(jv_get(fs, "agencyId"@) == ps[1].1);
        assert(jv_get(fs, "version"@) == ps[2].1);
        assert(jv_get(fs, "name"@) == ps[3].1);
        assert(jv_get(fs, "names"@) == ps[4].1);
        assert(jv_get(fs, "validFrom"@) == ps[5].1);
        assert(jv_get(fs, "validTo"@) == ps[6].1);
        assert(jv_get(fs, "isExternalReference"@) == ps[7].1);
        assert(jv_get(fs, "annotations"@) == ps[8].1);
        assert(jv_get(fs, "links"@) == ps[9].1);
        assert(jv_get(fs, "isPartial"@) == ps[10].1);
        assert(jv_get(fs, "transformations"@) == ps[11].1);
        match self.names {
            Some(t) => {
                t.lemma_canon();
            },
            None => {},
        }
        match &self.annotations {
            Some(v) => {
                lemma_arr_canon::<Annotation>(v@);
            },
            None => {},
        }
        match &self.links {
            Some(v) => {
                lemma_arr_canon::<Link>(v@);
            },
            None => {},
        }
        match &self.transformations {
            Some(v) => {
                lemma_arr_canon::<Item>(v@);
            },
            None => {},
        }
        assert(Self::doc_ok(self.ser()));
        assert(transformation_scheme_norm_pairs(fs) =~= ps);
        assert(ext_fields(fs, names_of(ps)) == ext);
        assert(ext_fields(fs, transformation_scheme_names()) == ext);
    }
}

impl Artefact for TransformationScheme {
    open spec fn id_spec(&self) -> Seq<char> {
        self.id@
    }

    open spec fn agency_id_spec(&self) -> Option<Seq<char>> {
        ostr_view(self.agency_id)
    }

    open spec fn version_spec(&self) -> Option<Seq<char>> {
        ostr_view(self.version)
    }

    open spec fn name_spec(&self) -> Option<Seq<char>> {
        ostr_view(self.name)
    }

    open spec fn names_spec(&self) -> Option<LocalizedText> {
        self.names
    }

    open spec fn valid_from_spec(&self) -> Option<Seq<char>> {
        ostr_view(self.valid_from)
    }

    open spec fn valid_to_spec(&self) -> Option<Seq<char>> {
        ostr_view(self.valid_to)
    }

    open spec fn is_external_reference_spec(&self) -> Option<bool> {
        self.is_external_reference
    }

    open spec fn annotations_spec(&self) -> Option<Seq<Annotation>> {
        match self.annotations {
            Some(v) => Some(v@),
            None => None,
        }
    }

    open spec fn links_spec(&self) -> Option<Seq<Link>> {
        match self.links {
            Some(v) => Some(v@),
            None => None,
        }
    }

    fn id(&self) -> (r: &String) {
        &self.id
    }

    fn agency_id(&self) -> (r: Option<&String>) {
        self.agency_id.as_ref()
    }

    fn version(&self) -> (r: Option<&String>) {
        self.version.as_ref()
    }

    fn name(&self) -> (r: Option<&String>) {
        self.name.as_ref()
    }

    fn names(&self) -> (r: Option<&LocalizedText>) {
        self.names.as_ref()
    }

    fn valid_from(&self) -> (r: Option<&String>) {
        self.valid_from.as_ref()
    }

    fn valid_to(&self) -> (r: Option<&String>) {
        self.valid_to.as_ref()
    }

    fn is_external_reference(&self) -> (r: Option<bool>) {
        self.is_external_reference
    }

    fn annotations(&self) -> (r: Option<&Vec<Annotation>>) {
        self.annotations.as_ref()
    }

    fn links(&self) -> (r: Option<&Vec<Link>>) {
        self.links.as_ref()
    }
}

impl ItemScheme for TransformationScheme {
    open spec fn is_partial_spec(&self) -> Option<bool> {
        self.is_partial
    }

    open spec fn items_spec(&self) -> Option<Seq<Item>> {
        match self.transformations {
            Some(v) => Some(v@),
            None => None,
        }
    }

    fn is_partial(&self) -> (r: Option<bool>) {
        self.is_partial
    }

    fn items(&self) -> (r: Option<&Vec<Item>>) {
        self.transformations.as_ref()
    }

    fn set_items(&mut self, items: Option<Vec<Item>>) {
        self.transformations = items;
    }

    fn clear_items(&mut self) {
        self.transformations = None;
    }

    fn contains_items(&self) -> (r: bool) {
        match &self.transformations {
            Some(v) => v.len() > 0,
            None => false,
        }
    }
}

/// The item scheme for a user defined operator.
#[derive(Debug, PartialEq)]
pub struct UserDefinedOperatorsScheme {
    pub id: String,
    pub agency_id: Option<String>,
    pub version: Option<String>,
    pub name: Option<String>,
    pub names: Option<LocalizedText>,
    pub valid_from: Option<String>,
    pub valid_to: Option<String>,
    pub is_external_reference: Option<bool>,
    pub annotations: Option<Vec<Annotation>>,
    pub links: Option<Vec<Link>>,
    pub is_partial: Option<bool>,
    pub user_defined_operators: Option<Vec<Item>>,
    pub other: Extensions,
}

pub open spec fn user_defined_operators_scheme_names() -> Seq<Seq<char>> {
    seq!["id"@, "agencyId"@, "version"@, "name"@, "names"@, "validFrom"@, "validTo"@, "isExternalReference"@, "annotations"@, "links"@, "isPartial"@, "userDefinedOperators"@]
}

pub open spec fn user_defined_operators_scheme_pairs(x: UserDefinedOperatorsScheme) -> Seq<(Seq<char>, Option<JVal>)> {
    seq![
        ("id"@, Some(JVal::Str(x.id@))),
        ("agencyId"@, jv_of_ostr(ostr_view(x.agency_id))),
        ("version"@, jv_of_ostr(ostr_view(x.version))),
        ("name"@, jv_of_ostr(ostr_view(x.name))),
        ("names"@, orec_ser(x.names)),
        ("validFrom"@, jv_of_ostr(ostr_view(x.valid_from))),
        ("validTo"@, jv_of_ostr(ostr_view(x.valid_to))),
        ("isExternalReference"@, jv_of_obool(x.is_external_reference)),
        ("annotations"@, ovec_ser(x.annotations)),
        ("links"@, ovec_ser(x.links)),
        ("isPartial"@, jv_of_obool(x.is_partial)),
        ("userDefinedOperators"@, ovec_ser(x.user_defined_operators)),
    ]
}

pub open spec fn user_defined_operators_scheme_norm_pairs(fs: Seq<(Seq<char>, JVal)>) -> Seq<(Seq<char>, Option<JVal>)> {
    seq![
        ("id"@, jv_of_ostr(opt_str(jv_get(fs, "id"@)))),
        ("agencyId"@, jv_of_ostr(opt_str(jv_get(fs, "agencyId"@)))),
        ("version"@, jv_of_ostr(opt_str(jv_get(fs, "version"@)))),
        ("name"@, jv_of_ostr(opt_str(jv_get(fs, "name"@)))),
        ("names"@, opt_rec_norm::<LocalizedText>(jv_get(fs, "names"@))),
        ("validFrom"@, jv_of_ostr(opt_str(jv_get(fs, "validFrom"@)))),
        ("validTo"@, jv_of_ostr(opt_str(jv_get(fs, "validTo"@)))),
        ("isExternalReference"@, jv_of_obool(opt_bool(jv_get(fs, "isExternalReference"@)))),
        ("annotations"@, opt_recarr_norm::<Annotation>(jv_get(fs, "annotations"@))),
        ("links"@, opt_recarr_norm::<Link>(jv_get(fs, "links"@))),
        ("isPartial"@, jv_of_obool(opt_bool(jv_get(fs, "isPartial"@)))),
        ("userDefinedOperators"@, opt_recarr_norm::<Item>(jv_get(fs, "userDefinedOperators"@))),
    ]
}

/// The names this record knows are pairwise distinct.
pub proof fn lemma_user_defined_operators_scheme_names_distinct()
    ensures
        forall|i: int, j: int|
            0 <= i < j < user_defined_operators_scheme_names().len() ==> user_defined_operators_scheme_names()[i] != user_defined_operators_scheme_names()[j],
{
    reveal_strlit("id");
    reveal_strlit("agencyId");
    reveal_strlit("version");
    reveal_strlit("name");
    reveal_strlit("names");
    reveal_strlit("validFrom");
    reveal_strlit("validTo");
    reveal_strlit("isExternalReference");
    reveal_strlit("annotations");
    reveal_strlit("links");
    reveal_strlit("isPartial");
    reveal_strlit("userDefinedOperators");
    let ns = user_defined_operators_scheme_names();
    assert(ns.len() == 12);
    assert forall|i: int, j: int| 0 <= i < j < ns.len() implies ns[i] != ns[j] by {
        assert("id"@.len() == 2);
        assert("agencyId"@.len() == 8);
        assert("version"@.len() == 7);
        assert("name"@.len() == 4);
        assert("names"@.len() == 5);
        assert("validFrom"@.len() == 9);
        assert("validTo"@.len() == 7);
        assert("isExternalReference"@.len() == 19);
        assert("annotations"@.len() == 11);
        assert("links"@.len() == 5);
        assert("isPartial"@.len() == 9);
        assert("userDefinedOperators"@.len() == 20);
        assert("version"@[1] == 'e');
        assert("validTo"@[1] == 'a');
        assert("names"@[0] == 'n');
        assert("links"@[0] == 'l');
        assert("validFrom"@[0] == 'v');
        assert("isPartial"@[0] == 'i');
    }
}

impl JsonForm for UserDefinedOperatorsScheme {
    open spec fn wf(&self) -> bool {
        &&& ext_ok(self.other.view_fields(), user_defined_operators_scheme_names())
        &&& crate::fields::window_le(ostr_view(self.valid_from), ostr_view(self.valid_to))
        &&& orec_wf(self.names)
        &&& ovec_wf(self.annotations)
        &&& ovec_wf(self.links)
        &&& ovec_wf(self.user_defined_operators)
    }

    open spec fn ser(&self) -> JVal {
        JVal::Obj(present_fields(user_defined_operators_scheme_pairs(*self)) + self.other.view_fields())
    }

    open spec fn doc_ok(v: JVal) -> bool {
        &&& v is Obj
        &&& {
            let fs = v->Obj_0;
            &&& is_req_str(jv_get(fs, "id"@))
            &&& is_opt_str(jv_get(fs, "agencyId"@))
            &&& is_opt_str(jv_get(fs, "version"@))
            &&& is_opt_str(jv_get(fs, "name"@))
            &&& is_opt_rec::<LocalizedText>(jv_get(fs, "names"@))
            &&& is_opt_str(jv_get(fs, "validFrom"@))
            &&& is_opt_str(jv_get(fs, "validTo"@))
            &&& crate::fields::window_le(
                opt_str(jv_get(fs, "validFrom"@)),
                opt_str(jv_get(fs, "validTo"@)),
            )
            &&& is_opt_bool(jv_get(fs, "isExternalReference"@))
            &&& is_opt_recarr::<Annotation>(jv_get(fs, "annotations"@))
            &&& is_opt_recarr::<Link>(jv_get(fs, "links"@))
            &&& is_opt_bool(jv_get(fs, "isPartial"@))
            &&& is_opt_recarr::<Item>(jv_get(fs, "userDefinedOperators"@))
        }
    }

    open spec fn doc_norm(v: JVal) -> JVal {
        JVal::Obj(
            present_fields(user_defined_operators_scheme_norm_pairs(v->Obj_0)) + ext_fields(v->Obj_0, user_defined_operators_scheme_names()),
        )
    }

    #[verifier::rlimit(50)]
    fn from_json(v: JsonValue) -> (r: Result<Self, ParseError>) {
        let o = match v {
            JsonValue::Obj(o) => o,
            _ => { return Err(ParseError::NotObject) },
        };
        let ghost fs = jview_field_vec(o);
        let mut bag = FieldBag::new(o);
        proof {
            lemma_user_defined_operators_scheme_names_distinct();
        }
        proof {
            assert(bag.taken() =~= user_defined_operators_scheme_names().subrange(0, 0));
            crate::codec::lemma_take_fresh(user_defined_operators_scheme_names(), 0, bag.taken());
        }
        let id = match get_req_string(bag.take("id"), "id") {
            Ok(x) => x,
            Err(e) => { return Err(e) },
        };
        proof {
            assert(bag.taken() =~= user_defined_operators_scheme_names().subrange(0, 1));
            crate::codec::lemma_take_fresh(user_defined_operators_scheme_names(), 1, bag.taken());
        }
        let agency_id = match get_opt_string(bag.take("agencyId"), "agencyId") {
            Ok(x) => x,
            Err(e) => { return Err(e) },
        };
        proof {
            assert(bag.taken() =~= user_defined_operators_scheme_names().subrange(0, 2));
            crate::codec::lemma_take_fresh(user_defined_operators_scheme_names(), 2, bag.taken());
        }
        let version = match get_opt_string(bag.take("version"), "version") {
            Ok(x) => x,
            Err(e) => { return Err(e) },
        };
        proof {
            assert(bag.taken() =~= user_defined_operators_scheme_names().subrange(0, 3));
            crate::codec::lemma_take_fresh(user_defined_operators_scheme_names(), 3, bag.taken());
        }
        let name = match get_opt_string(bag.take("name"), "name") {
            Ok(x) => x,
            Err(e) => { return Err(e) },
        };
        proof {
            assert(bag.taken() =~= user_defined_operators_scheme_names().subrange(0, 4));
            crate::codec::lemma_take_fresh(user_defined_operators_scheme_names(), 4, bag.taken());
        }
        let names = match parse_opt::<LocalizedText>(bag.take("names")) {
            Ok(x) => x,
            Err(e) => { return Err(e) },
        };
        proof {
            assert(bag.taken() =~= user_defined_operators_scheme_names().subrange(0, 5));
            crate::codec::lemma_take_fresh(user_defined_operators_scheme_names(), 5, bag.taken());
        }
        let valid_from = match get_opt_string(bag.take("validFrom"), "validFrom") {
            Ok(x) => x,
            Err(e) => { return Err(e) },
        };
        proof {
            assert(bag.taken() =~= user_defined_operators_scheme_names().subrange(0, 6));
            crate::codec::lemma_take_fresh(user_defined_operators_scheme_names(), 6, bag.taken());
        }
        let valid_to = match get_opt_string(bag.take("validTo"), "validTo") {
            Ok(x) => x,
            Err(e) => { return Err(e) },
        };
        match (&valid_from, &valid_to) {
            (Some(f), Some(t)) => {
                if !crate::fields::str_le(f.as_str(), t.as_str()) {
                    return Err(
                        ParseError::Shape("validTo".to_owned(), crate::fields::ValueKind::Window),
                    );
                }
            },
            _ => (),
        }
        proof {
            assert(bag.taken() =~= user_defined_operators_scheme_names().subrange(0, 7));
            crate::codec::lemma_take_fresh(user_defined_operators_scheme_names(), 7, bag.taken());
        }
        let is_external_reference = match get_opt_bool(bag.take("isExternalReference"), "isExternalReference") {
            Ok(x) => x,
            Err(e) => { return Err(e) },
        };
        proof {
            assert(bag.taken() =~= user_defined_operators_scheme_names().subrange(0, 8));
            crate::codec::lemma_take_fresh(user_defined_operators_scheme_names(), 8, bag.taken());
        }
        let annotations = match parse_opt_vec::<Annotation>(bag.take("annotations"), "annotations") {
            Ok(x) => x,
            Err(e) => { return Err(e) },
        };
        proof {
            assert(bag.taken() =~= user_defined_operators_scheme_names().subrange(0, 9));
            crate::codec::lemma_take_fresh(user_defined_operators_scheme_names(), 9, bag.taken());
        }
        let links = match parse_opt_vec::<Link>(bag.take("links"), "links") {
            Ok(x) => x,
            Err(e) => { return Err(e) },
        };
        proof {
            assert(bag.taken() =~= user_defined_operators_scheme_names().subrange(0, 10));
            crate::codec::lemma_take_fresh(user_defined_operators_scheme_names(), 10, bag.taken());
        }
        let is_partial = match get_opt_bool(bag.take("isPartial"), "isPartial") {
            Ok(x) => x,
            Err(e) => { return Err(e) },
        };
        proof {
            assert(bag.taken() =~= user_defined_operators_scheme_names().subrange(0, 11));
            crate::codec::lemma_take_fresh(user_defined_operators_scheme_names(), 11, bag.taken());
        }
        let user_defined_operators = match parse_opt_vec::<Item>(bag.take("userDefinedOperators"), "userDefinedOperators") {
            Ok(x) => x,
            Err(e) => { return Err(e) },
        };
        let ghost tk = bag.taken();
        let other = bag.rest();
        let out = UserDefinedOperatorsScheme { id, agency_id, version, name, names, valid_from, valid_to, is_external_reference, annotations, links, is_partial, user_defined_operators, other };
        proof {
            assert(tk =~= user_defined_operators_scheme_names());
            crate::codec::lemma_ext_fields_names(fs, tk);
            assert(user_defined_operators_scheme_pairs(out) =~= user_defined_operators_scheme_norm_pairs(fs));
        }
        Ok(out)
    }

    fn to_json(&self) -> (r: JsonValue) {
        let mut b = ObjBuilder::new();
        put_str(&mut b, "id", &self.id);
        put_opt_str(&mut b, "agencyId", &self.agency_id);
        put_opt_str(&mut b, "version", &self.version);
        put_opt_str(&mut b, "name", &self.name);
        put_opt_rec(&mut b, "names", &self.names);
        put_opt_str(&mut b, "validFrom", &self.valid_from);
        put_opt_str(&mut b, "validTo", &self.valid_to);
        put_opt_bool(&mut b, "isExternalReference", &self.is_external_reference);
        put_opt_vec(&mut b, "annotations", &self.annotations);
        put_opt_vec(&mut b, "links", &self.links);
        put_opt_bool(&mut b, "isPartial", &self.is_partial);
        put_opt_vec(&mut b, "userDefinedOperators", &self.user_defined_operators);
        proof {
            let ps = user_defined_operators_scheme_pairs(*self);
            lemma_pairs_chain(ps, 12);
            assert(ps.subrange(0, 12) =~= ps);
            assert(b.view_fields() == present_fields(ps)) by {
                reveal_with_fuel(pairs_prefix_chunks, 13);
            }
        }
        finish_with_ext(b, &self.other)
    }

    #[verifier::rlimit(50)]
    #[verifier::spinoff_prover]
    proof fn lemma_canon(&self) {
        lemma_user_defined_operators_scheme_names_distinct();
        let ps = user_defined_operators_scheme_pairs(*self);
        let ext = self.other.view_fields();
        assert(names_of(ps) =~= user_defined_operators_scheme_names());
        assert(distinct_names(ps)) by {
            assert forall|i: int, j: int|
                0 <= i < j < ps.len() implies ps[i].0 != ps[j].0 by {
                assert(ps[i].0 == user_defined_operators_scheme_names()[i]);
                assert(ps[j].0 == user_defined_operators_scheme_names()[j]);
            }
        }
        assert(disjoint_from(ext, ps)) by {
            assert forall|i: int, j: int|
                0 <= i < ext.len() && 0 <= j < ps.len() implies ext[i].0 != ps[j].0 by {
                assert(!is_known_name(ext[i].0, user_defined_operators_scheme_names()));
                assert(user_defined_operators_scheme_names()[j] == ps[j].0);
            }
        }
        lemma_jv_get_present(ps, ext);
        lemma_ext_of_present(ps, ext);
        let fs = self.ser()->Obj_0;
        assert(jv_get(fs, "id"@) == ps[0].1);
        assert(jv_get(fs, "agencyId"@) == ps[1].1);
        assert(jv_get(fs, "version"@) == ps[2].1);
        assert(jv_get(fs, "name"@) == ps[3].1);
        assert(jv_get(fs, "names"@) == ps[4].1);
        assert(jv_get(fs, "validFrom"@) == ps[5].1);
        assert(jv_get(fs, "validTo"@) == ps[6].1);
        assert(jv_get(fs, "isExternalReference"@) == ps[7].1);
        assert(jv_get(fs, "annotations"@) == ps[8].1);
        assert(jv_get(fs, "links"@) == ps[9].1);
        assert(jv_get(fs, "isPartial"@) == ps[10].1);
        assert(jv_get(fs, "userDefinedOperators"@) == ps[11].1);
        match self.names {
            Some(t) => {
                t.lemma_canon();
            },
            None => {},
        }
        match &self.annotations {
            Some(v) => {
                lemma_arr_canon::<Annotation>(v@);
            },
            None => {},
        }
        match &self.links {
            Some(v) => {
                lemma_arr_canon::<Link>(v@);
            },
            None => {},
        }
        match &self.user_defined_operators {
            Some(v) => {
                lemma_arr_canon::<Item>(v@);
            },
            None => {},
        }
        assert(Self::doc_ok(self.ser()));
        assert(user_defined_operators_scheme_norm_pairs(fs) =~= ps);
        assert(ext_fields(fs, names_of(ps)) == ext);
        assert(ext_fields(fs, user_defined_operators_scheme_names()) == ext);
    }
}

impl Artefact for UserDefinedOperatorsScheme {
    open spec fn id_spec(&self) -> Seq<char> {
        self.id@
    }

    open spec fn agency_id_spec(&self) -> Option<Seq<char>> {
        ostr_view(self.agency_id)
    }

    open spec fn version_spec(&self) -> Option<Seq<char>> {
        ostr_view(self.version)
    }

    open spec fn name_spec(&self) -> Option<Seq<char>> {
        ostr_view(self.name)
    }

    open spec fn names_spec(&self) -> Option<LocalizedText> {
        self.names
    }

    open spec fn valid_from_spec(&self) -> Option<Seq<char>> {
        ostr_view(self.valid_from)
    }

    open spec fn valid_to_spec(&self) -> Option<Seq<char>> {
        ostr_view(self.valid_to)
    }

    open spec fn is_external_reference_spec(&self) -> Option<bool> {
        self.is_external_reference
    }

    open spec fn annotations_spec(&self) -> Option<Seq<Annotation>> {
        match self.annotations {
            Some(v) => Some(v@),
            None => None,
        }
    }

    open spec fn links_spec(&self) -> Option<Seq<Link>> {
        match self.links {
            Some(v) => Some(v@),
            None => None,
        }
    }

    fn id(&self) -> (r: &String) {
        &self.id
    }

    fn agency_id(&self) -> (r: Option<&String>) {
        self.agency_id.as_ref()
    }

    fn version(&self) -> (r: Option<&String>) {
        self.version.as_ref()
    }

    fn name(&self) -> (r: Option<&String>) {
        self.name.as_ref()
    }

    fn names(&self) -> (r: Option<&LocalizedText>) {
        self.names.as_ref()
    }

    fn valid_from(&self) -> (r: Option<&String>) {
        self.valid_from.as_ref()
    }

    fn valid_to(&self) -> (r: Option<&String>) {
        self.valid_to.as_ref()
    }

    fn is_external_reference(&self) -> (r: Option<bool>) {
        self.is_external_reference
    }

    fn annotations(&self) -> (r: Option<&Vec<Annotation>>) {
        self.annotations.as_ref()
    }

    fn links(&self) -> (r: Option<&Vec<Link>>) {
        self.links.as_ref()
    }
}

impl ItemScheme for UserDefinedOperatorsScheme {
    open spec fn is_partial_spec(&self) -> Option<bool> {
        self.is_partial
    }

    open spec fn items_spec(&self) -> Option<Seq<Item>> {
        match self.user_defined_operators {
            Some(v) => Some(v@),
            None => None,
        }
    }

    fn is_partial(&self) -> (r: Option<bool>) {
        self.is_partial
    }

    fn items(&self) -> (r: Option<&Vec<Item>>) {
        self.user_defined_operators.as_ref()
    }

    fn set_items(&mut self, items: Option<Vec<Item>>) {
        self.user_defined_operators = items;
    }

    fn clear_items(&mut self) {
        self.user_defined_operators = None;
    }

    fn contains_items(&self) -> (r: bool) {
        match &self.user_defined_operators {
            Some(v) => v.len() > 0,
            None => false,
        }
    }
}

} // verus!
