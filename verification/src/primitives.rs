//! The primitive value layer: localized text and the small records that
//! nearly every other record embeds.

use vstd::prelude::*;

use crate::codec::{
    JsonForm, arr_norm, arr_ok, chunk, disjoint_from, distinct_names, ext_ok, finish_with_ext,
    is_om, is_opt_rec, is_opt_recarr, is_req_rec, is_req_recarr, lemma_arr_canon,
    lemma_ext_of_present, lemma_jv_get_present, names_of, om_norm, om_ser, opt_rec_norm,
    opt_recarr_norm, orec_ser, orec_wf, ovec_ser, ovec_wf, parse_one_many, parse_opt,
    parse_opt_vec, parse_req, parse_req_vec, present_fields, put_bool, put_one_many, put_opt_bool,
    put_opt_isize, put_opt_rec, put_opt_str, put_opt_usize, put_opt_vec, put_rec, put_str,
    put_usize, put_vec, req_rec_norm, seq_ser, seq_wf, vec_ser,
};
use crate::fields::{
    Extensions, FieldBag, ObjBuilder, ParseError, get_opt_bool, get_opt_isize, get_opt_string,
    get_opt_usize, get_req_bool, get_req_string, get_req_usize, str_eq,
};
use crate::json::{
    JVal, JsonValue, ext_fields, is_known_name, is_opt_bool, is_opt_isize, is_opt_str,
    is_opt_usize, is_req_bool, is_req_str, is_req_usize, jv_get, jv_of_obool, jv_of_oint,
    jv_of_ostr, jview, jview_field_seq, jview_field_vec, lemma_jview_field_seq,
    lemma_jview_field_seq_push, oisize_view, opt_bool, opt_int, opt_str, ostr_view, ousize_view,
};

verus! {

/// A map from language tag to the content in that language, kept in wire
/// order.
#[derive(Debug, PartialEq)]
pub struct LocalizedText(pub Vec<(String, String)>);

/// The document form of the entries of a localized-text map.
pub open spec fn lt_entries(s: Seq<(String, String)>) -> Seq<(Seq<char>, JVal)>
    decreases s.len(),
{
    if s.len() == 0 {
        Seq::empty()
    } else {
        seq![(s[0].0@, JVal::Str(s[0].1@))] + lt_entries(s.drop_first())
    }
}

pub proof fn lemma_lt_entries(s: Seq<(String, String)>)
    ensures
        lt_entries(s).len() == s.len(),
        forall|i: int|
            0 <= i < s.len() ==> #[trigger] lt_entries(s)[i] == (s[i].0@, JVal::Str(s[i].1@)),
    decreases s.len(),
{
    if s.len() > 0 {
        lemma_lt_entries(s.drop_first());
    }
}

pub proof fn lemma_lt_entries_push(s: Seq<(String, String)>, e: (String, String))
    ensures
        lt_entries(s.push(e)) == lt_entries(s).push((e.0@, JVal::Str(e.1@))),
{
    lemma_lt_entries(s.push(e));
    lemma_lt_entries(s);
    assert(lt_entries(s.push(e)) =~= lt_entries(s).push((e.0@, JVal::Str(e.1@))));
}

impl JsonForm for LocalizedText {
    open spec fn wf(&self) -> bool {
        true
    }

    open spec fn ser(&self) -> JVal {
        JVal::Obj(lt_entries(self.0@))
    }

    open spec fn doc_ok(v: JVal) -> bool {
        &&& v is Obj
        &&& forall|i: int| 0 <= i < v->Obj_0.len() ==> ((#[trigger] v->Obj_0[i]).1 is Str)
    }

    open spec fn doc_norm(v: JVal) -> JVal {
        v
    }

    #[verifier::loop_isolation(false)]
    fn from_json(v: JsonValue) -> (r: Result<Self, ParseError>) {
        let mut fs = match v {
            JsonValue::Obj(fs) => fs,
            _ => { return Err(ParseError::NotObject) },
        };
        let ghost all = jview_field_vec(fs);
        proof {
            lemma_jview_field_seq(fs@);
        }
        let mut out: Vec<(String, String)> = Vec::new();
        let ghost mut done: int = 0;
        while fs.len() > 0
            invariant
                0 <= done <= all.len(),
                fs@.len() == all.len() - done,
                forall|i: int|
                    0 <= i < fs@.len() ==> crate::json::jview_field(#[trigger] fs@[i]) == all[done
                        + i],
                out@.len() == done,
                forall|i: int| 0 <= i < done ==> (#[trigger] all[i]).1 is Str,
                lt_entries(out@) =~= all.subrange(0, done),
            decreases fs@.len(),
        {
            let (k, val) = fs.remove(0);
            let ghost kv = k@;
            match val {
                JsonValue::Str(s) => {
                    proof {
                        lemma_lt_entries_push(out@, (k, s));
                        assert(all.subrange(0, done).push(all[done]) =~= all.subrange(
                            0,
                            done + 1,
                        ));
                    }
                    out.push((k, s));
                },
                _ => {
                    proof {
                        assert(0 <= done < all.len());
                        assert(!((all[done]).1 is Str));
                        assert(!Self::doc_ok(JVal::Obj(all))) by {
                            if Self::doc_ok(JVal::Obj(all)) {
                                let fsv = JVal::Obj(all)->Obj_0;
                                assert(fsv == all);
                                assert(0 <= done < fsv.len());
                                assert((fsv[done]).1 is Str);
                                assert((all[done]).1 is Str);
                            }
                        }
                    }
                    return Err(ParseError::Shape(k, crate::fields::ValueKind::Text));
                },
            }
            proof {
                done = done + 1;
            }
        }
        proof {
            assert(all.subrange(0, all.len() as int) =~= all);
        }
        Ok(LocalizedText(out))
    }

    #[verifier::loop_isolation(false)]
    fn to_json(&self) -> (r: JsonValue) {
        let mut out: Vec<(String, JsonValue)> = Vec::new();
        let mut i: usize = 0;
        proof {
            assert(jview_field_seq(Seq::<(String, JsonValue)>::empty()) =~= Seq::<
                (Seq<char>, JVal),
            >::empty());
            assert(lt_entries(self.0@.subrange(0, 0)) =~= Seq::<(Seq<char>, JVal)>::empty());
        }
        while i < self.0.len()
            invariant
                i <= self.0@.len(),
                jview_field_seq(out@) == lt_entries(self.0@.subrange(0, i as int)),
            decreases self.0@.len() - i,
        {
            let k = self.0[i].0.clone();
            let s = self.0[i].1.clone();
            proof {
                lemma_jview_field_seq_push(out@, (k, JsonValue::Str(s)));
                lemma_lt_entries_push(self.0@.subrange(0, i as int), self.0@[i as int]);
                assert(self.0@.subrange(0, i as int).push(self.0@[i as int]) =~= self.0@.subrange(
                    0,
                    i as int + 1,
                ));
            }
            out.push((k, JsonValue::Str(s)));
            i = i + 1;
        }
        proof {
            assert(self.0@.subrange(0, self.0@.len() as int) =~= self.0@);
        }
        JsonValue::Obj(out)
    }

    proof fn lemma_canon(&self) {
        lemma_lt_entries(self.0@);
    }
}

/// A reference to a digital location: a hyperlink reference or a uniform
/// resource name.  The wire shape carries no tag; the field name decides.
#[derive(Debug, PartialEq, Eq)]
pub enum Location {
    /// A hyperlink reference.
    Href(String),
    /// A uniform resource name.
    Urn(String),
}

impl Location {
    pub fn as_string(&self) -> (r: &String)
        ensures
            r@ == self.loc_text(),
    {
        match self {
            Location::Href(s) => s,
            Location::Urn(s) => s,
        }
    }

    /// The text of the location, whichever shape carries it.
    pub open spec fn loc_text(&self) -> Seq<char> {
        match self {
            Location::Href(s) => s@,
            Location::Urn(s) => s@,
        }
    }

    pub open spec fn href_slot(self) -> Option<JVal> {
        match self {
            Location::Href(s) => Some(JVal::Str(s@)),
            Location::Urn(_) => None,
        }
    }

    pub open spec fn urn_slot(self) -> Option<JVal> {
        match self {
            Location::Href(_) => None,
            Location::Urn(s) => Some(JVal::Str(s@)),
        }
    }
}


/// A link to an external resource.
#[derive(Debug, PartialEq)]
pub struct Link {
    /// Captured from the `href` or `urn` field; `href` takes priority when
    /// both stand in the input.
    pub location: Location,
    pub rel: String,
    pub url: Option<String>,
    pub uri: Option<String>,
    pub title: Option<String>,
    pub titles: Option<LocalizedText>,
    pub type_: Option<String>,
    pub hreflang: Option<String>,
    pub other: Extensions,
}

pub open spec fn link_names() -> Seq<Seq<char>> {
    seq!["href"@, "urn"@, "rel"@, "url"@, "uri"@, "title"@, "titles"@, "type"@, "hreflang"@]
}

pub open spec fn link_pairs(x: Link) -> Seq<(Seq<char>, Option<JVal>)> {
    seq![
        ("href"@, x.location.href_slot()),
        ("urn"@, x.location.urn_slot()),
        ("rel"@, Some(JVal::Str(x.rel@))),
        ("url"@, jv_of_ostr(ostr_view(x.url))),
        ("uri"@, jv_of_ostr(ostr_view(x.uri))),
        ("title"@, jv_of_ostr(ostr_view(x.title))),
        ("titles"@, orec_ser(x.titles)),
        ("type"@, jv_of_ostr(ostr_view(x.type_))),
        ("hreflang"@, jv_of_ostr(ostr_view(x.hreflang))),
    ]
}

pub open spec fn link_norm_pairs(fs: Seq<(Seq<char>, JVal)>) -> Seq<(Seq<char>, Option<JVal>)> {
    seq![
        ("href"@, jv_of_ostr(opt_str(jv_get(fs, "href"@)))),
        (
            "urn"@,
            if opt_str(jv_get(fs, "href"@)) is Some {
                None
            } else {
                jv_of_ostr(opt_str(jv_get(fs, "urn"@)))
            },
        ),
        ("rel"@, jv_of_ostr(opt_str(jv_get(fs, "rel"@)))),
        ("url"@, jv_of_ostr(opt_str(jv_get(fs, "url"@)))),
        ("uri"@, jv_of_ostr(opt_str(jv_get(fs, "uri"@)))),
        ("title"@, jv_of_ostr(opt_str(jv_get(fs, "title"@)))),
        ("titles"@, opt_rec_norm::<LocalizedText>(jv_get(fs, "titles"@))),
        ("type"@, jv_of_ostr(opt_str(jv_get(fs, "type"@)))),
        ("hreflang"@, jv_of_ostr(opt_str(jv_get(fs, "hreflang"@)))),
    ]
}

/// The nine names a link knows are pairwise distinct.
pub proof fn lemma_link_names_distinct()
    ensures
        forall|i: int, j: int|
            0 <= i < j < link_names().len() ==> link_names()[i] != link_names()[j],
{
    reveal_strlit("href");
    reveal_strlit("urn");
    reveal_strlit("rel");
    reveal_strlit("url");
    reveal_strlit("uri");
    reveal_strlit("title");
    reveal_strlit("titles");
    reveal_strlit("type");
    reveal_strlit("hreflang");
    let ns = link_names();
    assert(ns.len() == 9);
    assert forall|i: int, j: int| 0 <= i < j < ns.len() implies ns[i] != ns[j] by {
        assert("href"@.len() == 4);
        assert("urn"@.len() == 3);
        assert("rel"@.len() == 3);
        assert("url"@.len() == 3);
        assert("uri"@.len() == 3);
        assert("title"@.len() == 5);
        assert("titles"@.len() == 6);
        assert("type"@.len() == 4);
        assert("hreflang"@.len() == 8);
        assert("urn"@[0] == 'u');
        assert("rel"@[0] == 'r');
        assert("url"@[0] == 'u');
        assert("uri"@[0] == 'u');
        assert("url"@[1] == 'r');
        assert("uri"@[1] == 'r');
        assert("url"@[2] == 'l');
        assert("uri"@[2] == 'i');
        assert("urn"@[1] == 'r');
        assert("urn"@[2] == 'n');
        assert("href"@[0] == 'h');
        assert("type"@[0] == 't');
    }
}

impl JsonForm for Link {
    open spec fn wf(&self) -> bool {
        &&& crate::codec::ext_ok(self.other.view_fields(), link_names())
        &&& orec_wf(self.titles)
    }

    open spec fn ser(&self) -> JVal {
        JVal::Obj(present_fields(link_pairs(*self)) + self.other.view_fields())
    }

    open spec fn doc_ok(v: JVal) -> bool {
        &&& v is Obj
        &&& {
            let fs = v->Obj_0;
            &&& is_opt_str(jv_get(fs, "href"@))
            &&& is_opt_str(jv_get(fs, "urn"@))
            &&& (opt_str(jv_get(fs, "href"@)) is Some || opt_str(jv_get(fs, "urn"@)) is Some)
            &&& is_req_str(jv_get(fs, "rel"@))
            &&& is_opt_str(jv_get(fs, "url"@))
            &&& is_opt_str(jv_get(fs, "uri"@))
            &&& is_opt_str(jv_get(fs, "title"@))
            &&& is_opt_rec::<LocalizedText>(jv_get(fs, "titles"@))
            &&& is_opt_str(jv_get(fs, "type"@))
            &&& is_opt_str(jv_get(fs, "hreflang"@))
        }
    }

    open spec fn doc_norm(v: JVal) -> JVal {
        JVal::Obj(
            present_fields(link_norm_pairs(v->Obj_0)) + ext_fields(v->Obj_0, link_names()),
        )
    }

    fn from_json(v: JsonValue) -> (r: Result<Self, ParseError>) {
        let o = match v {
            JsonValue::Obj(o) => o,
            _ => { return Err(ParseError::NotObject) },
        };
        let ghost fs = jview_field_vec(o);
        let mut bag = FieldBag::new(o);
        proof {
            lemma_link_names_distinct();
            assert(bag.taken() =~= link_names().subrange(0, 0));
            crate::codec::lemma_take_fresh(link_names(), 0, bag.taken());
        }
        let href = match get_opt_string(bag.take("href"), "href") {
            Ok(x) => x,
            Err(e) => { return Err(e) },
        };
        proof {
            assert(bag.taken() =~= link_names().subrange(0, 1));
            crate::codec::lemma_take_fresh(link_names(), 1, bag.taken());
        }
        let urn = match get_opt_string(bag.take("urn"), "urn") {
            Ok(x) => x,
            Err(e) => { return Err(e) },
        };
        let location = match href {
            Some(s) => Location::Href(s),
            None => match urn {
                Some(s) => Location::Urn(s),
                None => { return Err(ParseError::Missing("href".to_owned())) },
            },
        };
        proof {
            assert(bag.taken() =~= link_names().subrange(0, 2));
            crate::codec::lemma_take_fresh(link_names(), 2, bag.taken());
        }
        let rel = match get_req_string(bag.take("rel"), "rel") {
            Ok(x) => x,
            Err(e) => { return Err(e) },
        };
        proof {
            assert(bag.taken() =~= link_names().subrange(0, 3));
            crate::codec::lemma_take_fresh(link_names(), 3, bag.taken());
        }
        let url = match get_opt_string(bag.take("url"), "url") {
            Ok(x) => x,
            Err(e) => { return Err(e) },
        };
        proof {
            assert(bag.taken() =~= link_names().subrange(0, 4));
            crate::codec::lemma_take_fresh(link_names(), 4, bag.taken());
        }
        let uri = match get_opt_string(bag.take("uri"), "uri") {
            Ok(x) => x,
            Err(e) => { return Err(e) },
        };
        proof {
            assert(bag.taken() =~= link_names().subrange(0, 5));
            crate::codec::lemma_take_fresh(link_names(), 5, bag.taken());
        }
        let title = match get_opt_string(bag.take("title"), "title") {
            Ok(x) => x,
            Err(e) => { return Err(e) },
        };
        proof {
            assert(bag.taken() =~= link_names().subrange(0, 6));
            crate::codec::lemma_take_fresh(link_names(), 6, bag.taken());
        }
        let titles = match parse_opt::<LocalizedText>(bag.take("titles")) {
            Ok(x) => x,
            Err(e) => { return Err(e) },
        };
        proof {
            assert(bag.taken() =~= link_names().subrange(0, 7));
            crate::codec::lemma_take_fresh(link_names(), 7, bag.taken());
        }
        let type_ = match get_opt_string(bag.take("type"), "type") {
            Ok(x) => x,
            Err(e) => { return Err(e) },
        };
        proof {
            assert(bag.taken() =~= link_names().subrange(0, 8));
            crate::codec::lemma_take_fresh(link_names(), 8, bag.taken());
        }
        let hreflang = match get_opt_string(bag.take("hreflang"), "hreflang") {
            Ok(x) => x,
            Err(e) => { return Err(e) },
        };
        let ghost tk = bag.taken();
        let other = bag.rest();
        let out = Link { location, rel, url, uri, title, titles, type_, hreflang, other };
        proof {
            assert(tk =~= link_names());
            crate::codec::lemma_ext_fields_names(fs, tk);
            assert(link_pairs(out) =~= link_norm_pairs(fs));
        }
        Ok(out)
    }

    fn to_json(&self) -> (r: JsonValue) {
        let mut b = ObjBuilder::new();
        match &self.location {
            Location::Href(s) => {
                b.put("href", JsonValue::Str(s.clone()));
            },
            Location::Urn(s) => {
                b.put("urn", JsonValue::Str(s.clone()));
            },
        }
        proof {
            assert(b.view_fields() =~= Seq::<(Seq<char>, JVal)>::empty() + chunk(
                "href"@,
                self.location.href_slot(),
            ) + chunk("urn"@, self.location.urn_slot()));
        }
        put_str(&mut b, "rel", &self.rel);
        put_opt_str(&mut b, "url", &self.url);
        put_opt_str(&mut b, "uri", &self.uri);
        put_opt_str(&mut b, "title", &self.title);
        put_opt_rec(&mut b, "titles", &self.titles);
        put_opt_str(&mut b, "type", &self.type_);
        put_opt_str(&mut b, "hreflang", &self.hreflang);
        proof {
            let ps = link_pairs(*self);
            lemma_pairs_chain(ps, 9);
            assert(ps.subrange(0, 9) =~= ps);
            assert(b.view_fields() == present_fields(ps)) by {
                reveal_with_fuel(pairs_prefix_chunks, 10);
            }
        }
        finish_with_ext(b, &self.other)
    }

    proof fn lemma_canon(&self) {
        lemma_link_names_distinct();
        let ps = link_pairs(*self);
        let ext = self.other.view_fields();
        assert(names_of(ps) =~= link_names());
        assert(distinct_names(ps)) by {
            assert forall|i: int, j: int|
                0 <= i < j < ps.len() implies ps[i].0 != ps[j].0 by {
                assert(ps[i].0 == link_names()[i]);
                assert(ps[j].0 == link_names()[j]);
            }
        }
        assert(disjoint_from(ext, ps)) by {
            assert forall|i: int, j: int|
                0 <= i < ext.len() && 0 <= j < ps.len() implies ext[i].0 != ps[j].0 by {
                assert(!is_known_name(ext[i].0, link_names()));
                assert(link_names()[j] == ps[j].0);
            }
        }
        lemma_jv_get_present(ps, ext);
        lemma_ext_of_present(ps, ext);
        let fs = self.ser()->Obj_0;
        assert(jv_get(fs, "href"@) == ps[0].1);
        assert(jv_get(fs, "urn"@) == ps[1].1);
        assert(jv_get(fs, "rel"@) == ps[2].1);
        assert(jv_get(fs, "url"@) == ps[3].1);
        assert(jv_get(fs, "uri"@) == ps[4].1);
        assert(jv_get(fs, "title"@) == ps[5].1);
        assert(jv_get(fs, "titles"@) == ps[6].1);
        assert(jv_get(fs, "type"@) == ps[7].1);
        assert(jv_get(fs, "hreflang"@) == ps[8].1);
        match self.titles {
            Some(t) => {
                t.lemma_canon();
            },
            None => {},
        }
        assert(Self::doc_ok(self.ser()));
        assert(link_norm_pairs(fs) =~= ps);
        assert(ext_fields(fs, names_of(ps)) == ext);
        assert(ext_fields(fs, link_names()) == ext);
    }
}

/// `present_fields` of the first `k` slots, built one push at a time.
pub open spec fn pairs_prefix_chunks(ps: Seq<(Seq<char>, Option<JVal>)>, k: int) -> Seq<
    (Seq<char>, JVal),
>
    decreases k,
{
    if k <= 0 {
        Seq::empty()
    } else {
        pairs_prefix_chunks(ps, k - 1) + chunk(ps[k - 1].0, ps[k - 1].1)
    }
}

pub proof fn lemma_pairs_chain(ps: Seq<(Seq<char>, Option<JVal>)>, k: int)
    requires
        0 <= k <= ps.len(),
    ensures
        present_fields(ps.subrange(0, k)) == pairs_prefix_chunks(ps, k),
    decreases k,
{
    if k == 0 {
        assert(ps.subrange(0, 0) =~= Seq::<(Seq<char>, Option<JVal>)>::empty());
        assert(present_fields(Seq::<(Seq<char>, Option<JVal>)>::empty()) == Seq::<
            (Seq<char>, JVal),
        >::empty());
    } else {
        lemma_pairs_chain(ps, k - 1);
        assert(ps.subrange(0, k) =~= ps.subrange(0, k - 1).push(ps[k - 1]));
        crate::codec::lemma_present_push(ps.subrange(0, k - 1), ps[k - 1]);
    }
}



/// Extra information that may be attached to another object.
#[derive(Debug, PartialEq)]
pub struct Annotation {
    pub id: Option<String>,
    pub title: Option<String>,
    pub type_: Option<String>,
    pub value: Option<String>,
    pub text: Option<String>,
    pub texts: Option<LocalizedText>,
    pub links: Option<Vec<Link>>,
    pub other: Extensions,
}

pub open spec fn annotation_names() -> Seq<Seq<char>> {
    seq!["id"@, "title"@, "type"@, "value"@, "text"@, "texts"@, "links"@]
}

pub open spec fn annotation_pairs(x: Annotation) -> Seq<(Seq<char>, Option<JVal>)> {
    seq![
        ("id"@, jv_of_ostr(ostr_view(x.id))),
        ("title"@, jv_of_ostr(ostr_view(x.title))),
        ("type"@, jv_of_ostr(ostr_view(x.type_))),
        ("value"@, jv_of_ostr(ostr_view(x.value))),
        ("text"@, jv_of_ostr(ostr_view(x.text))),
        ("texts"@, orec_ser(x.texts)),
        ("links"@, ovec_ser(x.links)),
    ]
}

pub open spec fn annotation_norm_pairs(fs: Seq<(Seq<char>, JVal)>) -> Seq<(Seq<char>, Option<JVal>)> {
    seq![
        ("id"@, jv_of_ostr(opt_str(jv_get(fs, "id"@)))),
        ("title"@, jv_of_ostr(opt_str(jv_get(fs, "title"@)))),
        ("type"@, jv_of_ostr(opt_str(jv_get(fs, "type"@)))),
        ("value"@, jv_of_ostr(opt_str(jv_get(fs, "value"@)))),
        ("text"@, jv_of_ostr(opt_str(jv_get(fs, "text"@)))),
        ("texts"@, opt_rec_norm::<LocalizedText>(jv_get(fs, "texts"@))),
        ("links"@, opt_recarr_norm::<Link>(jv_get(fs, "links"@))),
    ]
}

/// The names this record knows are pairwise distinct.
pub proof fn lemma_annotation_names_distinct()
    ensures
        forall|i: int, j: int|
            0 <= i < j < annotation_names().len() ==> annotation_names()[i] != annotation_names()[j],
{
    reveal_strlit("id");
    reveal_strlit("title");
    reveal_strlit("type");
    reveal_strlit("value");
    reveal_strlit("text");
    reveal_strlit("texts");
    reveal_strlit("links");
    let ns = annotation_names();
    assert(ns.len() == 7);
    assert forall|i: int, j: int| 0 <= i < j < ns.len() implies ns[i] != ns[j] by {
        assert("id"@.len() == 2);
        assert("title"@.len() == 5);
        assert("type"@.len() == 4);
        assert("value"@.len() == 5);
        assert("text"@.len() == 4);
        assert("texts"@.len() == 5);
        assert("links"@.len() == 5);
        assert("title"@[0] == 't');
        assert("value"@[0] == 'v');
        assert("title"@[1] == 'i');
        assert("texts"@[1] == 'e');
        assert("links"@[0] == 'l');
        assert("type"@[1] == 'y');
        assert("text"@[1] == 'e');
        assert("texts"@[0] == 't');
    }
}

impl JsonForm for Annotation {
    open spec fn wf(&self) -> bool {
        &&& ext_ok(self.other.view_fields(), annotation_names())
        &&& orec_wf(self.texts)
        &&& ovec_wf(self.links)
    }

    open spec fn ser(&self) -> JVal {
        JVal::Obj(present_fields(annotation_pairs(*self)) + self.other.view_fields())
    }

    open spec fn doc_ok(v: JVal) -> bool {
        &&& v is Obj
        &&& {
            let fs = v->Obj_0;
            &&& is_opt_str(jv_get(fs, "id"@))
            &&& is_opt_str(jv_get(fs, "title"@))
            &&& is_opt_str(jv_get(fs, "type"@))
            &&& is_opt_str(jv_get(fs, "value"@))
            &&& is_opt_str(jv_get(fs, "text"@))
            &&& is_opt_rec::<LocalizedText>(jv_get(fs, "texts"@))
            &&& is_opt_recarr::<Link>(jv_get(fs, "links"@))
        }
    }

    open spec fn doc_norm(v: JVal) -> JVal {
        JVal::Obj(
            present_fields(annotation_norm_pairs(v->Obj_0)) + ext_fields(v->Obj_0, annotation_names()),
        )
    }

    fn from_json(v: JsonValue) -> (r: Result<Self, ParseError>) {
        let o = match v {
            JsonValue::Obj(o) => o,
            _ => { return Err(ParseError::NotObject) },
        };
        let ghost fs = jview_field_vec(o);
        let mut bag = FieldBag::new(o);
        proof {
            lemma_annotation_names_distinct();
        }
        proof {
            assert(bag.taken() =~= annotation_names().subrange(0, 0));
            crate::codec::lemma_take_fresh(annotation_names(), 0, bag.taken());
        }
        let id = match get_opt_string(bag.take("id"), "id") {
            Ok(x) => x,
            Err(e) => { return Err(e) },
        };
        proof {
            assert(bag.taken() =~= annotation_names().subrange(0, 1));
            crate::codec::lemma_take_fresh(annotation_names(), 1, bag.taken());
        }
        let title = match get_opt_string(bag.take("title"), "title") {
            Ok(x) => x,
            Err(e) => { return Err(e) },
        };
        proof {
            assert(bag.taken() =~= annotation_names().subrange(0, 2));
            crate::codec::lemma_take_fresh(annotation_names(), 2, bag.taken());
        }
        let type_ = match get_opt_string(bag.take("type"), "type") {
            Ok(x) => x,
            Err(e) => { return Err(e) },
        };
        proof {
            assert(bag.taken() =~= annotation_names().subrange(0, 3));
            crate::codec::lemma_take_fresh(annotation_names(), 3, bag.taken());
        }
        let value = match get_opt_string(bag.take("value"), "value") {
            Ok(x) => x,
            Err(e) => { return Err(e) },
        };
        proof {
            assert(bag.taken() =~= annotation_names().subrange(0, 4));
            crate::codec::lemma_take_fresh(annotation_names(), 4, bag.taken());
        }
        let text = match get_opt_string(bag.take("text"), "text") {
            Ok(x) => x,
            Err(e) => { return Err(e) },
        };
        proof {
            assert(bag.taken() =~= annotation_names().subrange(0, 5));
            crate::codec::lemma_take_fresh(annotation_names(), 5, bag.taken());
        }
        let texts = match parse_opt::<LocalizedText>(bag.take("texts")) {
            Ok(x) => x,
            Err(e) => { return Err(e) },
        };
        proof {
            assert(bag.taken() =~= annotation_names().subrange(0, 6));
            crate::codec::lemma_take_fresh(annotation_names(), 6, bag.taken());
        }
        let links = match parse_opt_vec::<Link>(bag.take("links"), "links") {
            Ok(x) => x,
            Err(e) => { return Err(e) },
        };
        let ghost tk = bag.taken();
        let other = bag.rest();
        let out = Annotation { id, title, type_, value, text, texts, links, other };
        proof {
            assert(tk =~= annotation_names());
            crate::codec::lemma_ext_fields_names(fs, tk);
            assert(annotation_pairs(out) =~= annotation_norm_pairs(fs));
        }
        Ok(out)
    }

    fn to_json(&self) -> (r: JsonValue) {
        let mut b = ObjBuilder::new();
        put_opt_str(&mut b, "id", &self.id);
        put_opt_str(&mut b, "title", &self.title);
        put_opt_str(&mut b, "type", &self.type_);
        put_opt_str(&mut b, "value", &self.value);
        put_opt_str(&mut b, "text", &self.text);
        put_opt_rec(&mut b, "texts", &self.texts);
        put_opt_vec(&mut b, "links", &self.links);
        proof {
            let ps = annotation_pairs(*self);
            lemma_pairs_chain(ps, 7);
            assert(ps.subrange(0, 7) =~= ps);
            assert(b.view_fields() == present_fields(ps)) by {
                reveal_with_fuel(pairs_prefix_chunks, 8);
            }
        }
        finish_with_ext(b, &self.other)
    }

    proof fn lemma_canon(&self) {
        lemma_annotation_names_distinct();
        let ps = annotation_pairs(*self);
        let ext = self.other.view_fields();
        assert(names_of(ps) =~= annotation_names());
        assert(distinct_names(ps)) by {
            assert forall|i: int, j: int|
                0 <= i < j < ps.len() implies ps[i].0 != ps[j].0 by {
                assert(ps[i].0 == annotation_names()[i]);
                assert(ps[j].0 == annotation_names()[j]);
            }
        }
        assert(disjoint_from(ext, ps)) by {
            assert forall|i: int, j: int|
                0 <= i < ext.len() && 0 <= j < ps.len() implies ext[i].0 != ps[j].0 by {
                assert(!is_known_name(ext[i].0, annotation_names()));
                assert(annotation_names()[j] == ps[j].0);
            }
        }
        lemma_jv_get_present(ps, ext);
        lemma_ext_of_present(ps, ext);
        let fs = self.ser()->Obj_0;
        assert(jv_get(fs, "id"@) == ps[0].1);
        assert(jv_get(fs, "title"@) == ps[1].1);
        assert(jv_get(fs, "type"@) == ps[2].1);
        assert(jv_get(fs, "value"@) == ps[3].1);
        assert(jv_get(fs, "text"@) == ps[4].1);
        assert(jv_get(fs, "texts"@) == ps[5].1);
        assert(jv_get(fs, "links"@) == ps[6].1);
        match self.texts {
            Some(t) => {
                t.lemma_canon();
            },
            None => {},
        }
        match &self.links {
            Some(v) => {
                lemma_arr_canon::<Link>(v@);
            },
            None => {},
        }
        assert(Self::doc_ok(self.ser()));
        assert(annotation_norm_pairs(fs) =~= ps);
        assert(ext_fields(fs, names_of(ps)) == ext);
        assert(ext_fields(fs, annotation_names()) == ext);
    }
}


/// A message with an HTTP status code, usually an error status code.
#[derive(Debug, PartialEq)]
pub struct StatusMessage {
    pub code: usize,
    pub title: Option<String>,
    pub titles: Option<LocalizedText>,
    pub detail: Option<String>,
    pub details: Option<LocalizedText>,
    pub links: Option<Vec<Link>>,
    pub other: Extensions,
}

pub open spec fn status_message_names() -> Seq<Seq<char>> {
    seq!["code"@, "title"@, "titles"@, "detail"@, "details"@, "links"@]
}

pub open spec fn status_message_pairs(x: StatusMessage) -> Seq<(Seq<char>, Option<JVal>)> {
    seq![
        ("code"@, Some(JVal::Int(x.code as int))),
        ("title"@, jv_of_ostr(ostr_view(x.title))),
        ("titles"@, orec_ser(x.titles)),
        ("detail"@, jv_of_ostr(ostr_view(x.detail))),
        ("details"@, orec_ser(x.details)),
        ("links"@, ovec_ser(x.links)),
    ]
}

pub open spec fn status_message_norm_pairs(fs: Seq<(Seq<char>, JVal)>) -> Seq<(Seq<char>, Option<JVal>)> {
    seq![
        ("code"@, jv_of_oint(opt_int(jv_get(fs, "code"@)))),
        ("title"@, jv_of_ostr(opt_str(jv_get(fs, "title"@)))),
        ("titles"@, opt_rec_norm::<LocalizedText>(jv_get(fs, "titles"@))),
        ("detail"@, jv_of_ostr(opt_str(jv_get(fs, "detail"@)))),
        ("details"@, opt_rec_norm::<LocalizedText>(jv_get(fs, "details"@))),
        ("links"@, opt_recarr_norm::<Link>(jv_get(fs, "links"@))),
    ]
}

/// The names this record knows are pairwise distinct.
pub proof fn lemma_status_message_names_distinct()
    ensures
        forall|i: int, j: int|
            0 <= i < j < status_message_names().len() ==> status_message_names()[i] != status_message_names()[j],
{
    reveal_strlit("code");
    reveal_strlit("title");
    reveal_strlit("titles");
    reveal_strlit("detail");
    reveal_strlit("details");
    reveal_strlit("links");
    let ns = status_message_names();
    assert(ns.len() == 6);
    assert forall|i: int, j: int| 0 <= i < j < ns.len() implies ns[i] != ns[j] by {
        assert("code"@.len() == 4);
        assert("title"@.len() == 5);
        assert("titles"@.len() == 6);
        assert("detail"@.len() == 6);
        assert("details"@.len() == 7);
        assert("links"@.len() == 5);
        assert("title"@[0] == 't');
        assert("links"@[0] == 'l');
        assert("titles"@[0] == 't');
        assert("detail"@[0] == 'd');
    }
}

impl JsonForm for StatusMessage {
    open spec fn wf(&self) -> bool {
        &&& ext_ok(self.other.view_fields(), status_message_names())
        &&& orec_wf(self.titles)
        &&& orec_wf(self.details)
        &&& ovec_wf(self.links)
    }

    open spec fn ser(&self) -> JVal {
        JVal::Obj(present_fields(status_message_pairs(*self)) + self.other.view_fields())
    }

    open spec fn doc_ok(v: JVal) -> bool {
        &&& v is Obj
        &&& {
            let fs = v->Obj_0;
            &&& is_req_usize(jv_get(fs, "code"@))
            &&& is_opt_str(jv_get(fs, "title"@))
            &&& is_opt_rec::<LocalizedText>(jv_get(fs, "titles"@))
            &&& is_opt_str(jv_get(fs, "detail"@))
            &&& is_opt_rec::<LocalizedText>(jv_get(fs, "details"@))
            &&& is_opt_recarr::<Link>(jv_get(fs, "links"@))
        }
    }

    open spec fn doc_norm(v: JVal) -> JVal {
        JVal::Obj(
            present_fields(status_message_norm_pairs(v->Obj_0)) + ext_fields(v->Obj_0, status_message_names()),
        )
    }

    fn from_json(v: JsonValue) -> (r: Result<Self, ParseError>) {
        let o = match v {
            JsonValue::Obj(o) => o,
            _ => { return Err(ParseError::NotObject) },
        };
        let ghost fs = jview_field_vec(o);
        let mut bag = FieldBag::new(o);
        proof {
            lemma_status_message_names_distinct();
        }
        proof {
            assert(bag.taken() =~= status_message_names().subrange(0, 0));
            crate::codec::lemma_take_fresh(status_message_names(), 0, bag.taken());
        }
        let code = match get_req_usize(bag.take("code"), "code") {
            Ok(x) => x,
            Err(e) => { return Err(e) },
        };
        proof {
            assert(bag.taken() =~= status_message_names().subrange(0, 1));
            crate::codec::lemma_take_fresh(status_message_names(), 1, bag.taken());
        }
        let title = match get_opt_string(bag.take("title"), "title") {
            Ok(x) => x,
            Err(e) => { return Err(e) },
        };
        proof {
            assert(bag.taken() =~= status_message_names().subrange(0, 2));
            crate::codec::lemma_take_fresh(status_message_names(), 2, bag.taken());
        }
        let titles = match parse_opt::<LocalizedText>(bag.take("titles")) {
            Ok(x) => x,
            Err(e) => { return Err(e) },
        };
        proof {
            assert(bag.taken() =~= status_message_names().subrange(0, 3));
            crate::codec::lemma_take_fresh(status_message_names(), 3, bag.taken());
        }
        let detail = match get_opt_string(bag.take("detail"), "detail") {
            Ok(x) => x,
            Err(e) => { return Err(e) },
        };
        proof {
            assert(bag.taken() =~= status_message_names().subrange(0, 4));
            crate::codec::lemma_take_fresh(status_message_names(), 4, bag.taken());
        }
        let details = match parse_opt::<LocalizedText>(bag.take("details")) {
            Ok(x) => x,
            Err(e) => { return Err(e) },
        };
        proof {
            assert(bag.taken() =~= status_message_names().subrange(0, 5));
            crate::codec::lemma_take_fresh(status_message_names(), 5, bag.taken());
        }
        let links = match parse_opt_vec::<Link>(bag.take("links"), "links") {
            Ok(x) => x,
            Err(e) => { return Err(e) },
        };
        let ghost tk = bag.taken();
        let other = bag.rest();
        let out = StatusMessage { code, title, titles, detail, details, links, other };
        proof {
            assert(tk =~= status_message_names());
            crate::codec::lemma_ext_fields_names(fs, tk);
            assert(status_message_pairs(out) =~= status_message_norm_pairs(fs));
        }
        Ok(out)
    }

    fn to_json(&self) -> (r: JsonValue) {
        let mut b = ObjBuilder::new();
        put_usize(&mut b, "code", self.code);
        put_opt_str(&mut b, "title", &self.title);
        put_opt_rec(&mut b, "titles", &self.titles);
        put_opt_str(&mut b, "detail", &self.detail);
        put_opt_rec(&mut b, "details", &self.details);
        put_opt_vec(&mut b, "links", &self.links);
        proof {
            let ps = status_message_pairs(*self);
            lemma_pairs_chain(ps, 6);
            assert(ps.subrange(0, 6) =~= ps);
            assert(b.view_fields() == present_fields(ps)) by {
                reveal_with_fuel(pairs_prefix_chunks, 7);
            }
        }
        finish_with_ext(b, &self.other)
    }

    proof fn lemma_canon(&self) {
        lemma_status_message_names_distinct();
        let ps = status_message_pairs(*self);
        let ext = self.other.view_fields();
        assert(names_of(ps) =~= status_message_names());
        assert(distinct_names(ps)) by {
            assert forall|i: int, j: int|
                0 <= i < j < ps.len() implies ps[i].0 != ps[j].0 by {
                assert(ps[i].0 == status_message_names()[i]);
                assert(ps[j].0 == status_message_names()[j]);
            }
        }
        assert(disjoint_from(ext, ps)) by {
            assert forall|i: int, j: int|
                0 <= i < ext.len() && 0 <= j < ps.len() implies ext[i].0 != ps[j].0 by {
                assert(!is_known_name(ext[i].0, status_message_names()));
                assert(status_message_names()[j] == ps[j].0);
            }
        }
        lemma_jv_get_present(ps, ext);
        lemma_ext_of_present(ps, ext);
        let fs = self.ser()->Obj_0;
        assert(jv_get(fs, "code"@) == ps[0].1);
        assert(jv_get(fs, "title"@) == ps[1].1);
        assert(jv_get(fs, "titles"@) == ps[2].1);
        assert(jv_get(fs, "detail"@) == ps[3].1);
        assert(jv_get(fs, "details"@) == ps[4].1);
        assert(jv_get(fs, "links"@) == ps[5].1);
        match self.titles {
            Some(t) => {
                t.lemma_canon();
            },
            None => {},
        }
        match self.details {
            Some(t) => {
                t.lemma_canon();
            },
            None => {},
        }
        match &self.links {
            Some(v) => {
                lemma_arr_canon::<Link>(v@);
            },
            None => {},
        }
        assert(Self::doc_ok(self.ser()));
        assert(status_message_norm_pairs(fs) =~= ps);
        assert(ext_fields(fs, names_of(ps)) == ext);
        assert(ext_fields(fs, status_message_names()) == ext);
    }
}


/// A collection of contact information for an individual.
#[derive(Debug, PartialEq)]
pub struct Contact {
    pub id: String,
    pub name: Option<String>,
    pub names: Option<LocalizedText>,
    pub department: Option<String>,
    pub departments: Option<LocalizedText>,
    pub role: Option<String>,
    pub roles: Option<LocalizedText>,
    pub telephones: Option<Vec<String>>,
    pub faxes: Option<Vec<String>>,
    pub uris: Option<Vec<String>>,
    pub emails: Option<Vec<String>>,
    pub x400s: Option<Vec<String>>,
    pub other: Extensions,
}

pub open spec fn contact_names() -> Seq<Seq<char>> {
    seq!["id"@, "name"@, "names"@, "department"@, "departments"@, "role"@, "roles"@, "telephones"@, "faxes"@, "uris"@, "emails"@, "x400s"@]
}

pub open spec fn contact_pairs(x: Contact) -> Seq<(Seq<char>, Option<JVal>)> {
    seq![
        ("id"@, Some(JVal::Str(x.id@))),
        ("name"@, jv_of_ostr(ostr_view(x.name))),
        ("names"@, orec_ser(x.names)),
        ("department"@, jv_of_ostr(ostr_view(x.department))),
        ("departments"@, orec_ser(x.departments)),
        ("role"@, jv_of_ostr(ostr_view(x.role))),
        ("roles"@, orec_ser(x.roles)),
        ("telephones"@, ovec_ser(x.telephones)),
        ("faxes"@, ovec_ser(x.faxes)),
        ("uris"@, ovec_ser(x.uris)),
        ("emails"@, ovec_ser(x.emails)),
        ("x400s"@, ovec_ser(x.x400s)),
    ]
}

pub open spec fn contact_norm_pairs(fs: Seq<(Seq<char>, JVal)>) -> Seq<(Seq<char>, Option<JVal>)> {
    seq![
        ("id"@, jv_of_ostr(opt_str(jv_get(fs, "id"@)))),
        ("name"@, jv_of_ostr(opt_str(jv_get(fs, "name"@)))),
        ("names"@, opt_rec_norm::<LocalizedText>(jv_get(fs, "names"@))),
        ("department"@, jv_of_ostr(opt_str(jv_get(fs, "department"@)))),
        ("departments"@, opt_rec_norm::<LocalizedText>(jv_get(fs, "departments"@))),
        ("role"@, jv_of_ostr(opt_str(jv_get(fs, "role"@)))),
        ("roles"@, opt_rec_norm::<LocalizedText>(jv_get(fs, "roles"@))),
        ("telephones"@, opt_recarr_norm::<String>(jv_get(fs, "telephones"@))),
        ("faxes"@, opt_recarr_norm::<String>(jv_get(fs, "faxes"@))),
        ("uris"@, opt_recarr_norm::<String>(jv_get(fs, "uris"@))),
        ("emails"@, opt_recarr_norm::<String>(jv_get(fs, "emails"@))),
        ("x400s"@, opt_recarr_norm::<String>(jv_get(fs, "x400s"@))),
    ]
}

/// The names this record knows are pairwise distinct.
pub proof fn lemma_contact_names_distinct()
    ensures
        forall|i: int, j: int|
            0 <= i < j < contact_names().len() ==> contact_names()[i] != contact_names()[j],
{
    reveal_strlit("id");
    reveal_strlit("name");
    reveal_strlit("names");
    reveal_strlit("department");
    reveal_strlit("departments");
    reveal_strlit("role");
    reveal_strlit("roles");
    reveal_strlit("telephones");
    reveal_strlit("faxes");
    reveal_strlit("uris");
    reveal_strlit("emails");
    reveal_strlit("x400s");
    let ns = contact_names();
    assert(ns.len() == 12);
    assert forall|i: int, j: int| 0 <= i < j < ns.len() implies ns[i] != ns[j] by {
        assert("id"@.len() == 2);
        assert("name"@.len() == 4);
        assert("names"@.len() == 5);
        assert("department"@.len() == 10);
        assert("departments"@.len() == 11);
        assert("role"@.len() == 4);
        assert("roles"@.len() == 5);
        assert("telephones"@.len() == 10);
        assert("faxes"@.len() == 5);
        assert("uris"@.len() == 4);
        assert("emails"@.len() == 6);
        assert("x400s"@.len() == 5);
        assert("name"@[0] == 'n');
        assert("role"@[0] == 'r');
        assert("uris"@[0] == 'u');
        assert("names"@[0] == 'n');
        assert("roles"@[0] == 'r');
        assert("faxes"@[0] == 'f');
        assert("x400s"@[0] == 'x');
        assert("department"@[0] == 'd');
        assert("telephones"@[0] == 't');
    }
}

impl JsonForm for Contact {
    open spec fn wf(&self) -> bool {
        &&& ext_ok(self.other.view_fields(), contact_names())
        &&& orec_wf(self.names)
        &&& orec_wf(self.departments)
        &&& orec_wf(self.roles)
        &&& ovec_wf(self.telephones)
        &&& ovec_wf(self.faxes)
        &&& ovec_wf(self.uris)
        &&& ovec_wf(self.emails)
        &&& ovec_wf(self.x400s)
    }

    open spec fn ser(&self) -> JVal {
        JVal::Obj(present_fields(contact_pairs(*self)) + self.other.view_fields())
    }

    open spec fn doc_ok(v: JVal) -> bool {
        &&& v is Obj
        &&& {
            let fs = v->Obj_0;
            &&& is_req_str(jv_get(fs, "id"@))
            &&& is_opt_str(jv_get(fs, "name"@))
            &&& is_opt_rec::<LocalizedText>(jv_get(fs, "names"@))
            &&& is_opt_str(jv_get(fs, "department"@))
            &&& is_opt_rec::<LocalizedText>(jv_get(fs, "departments"@))
            &&& is_opt_str(jv_get(fs, "role"@))
            &&& is_opt_rec::<LocalizedText>(jv_get(fs, "roles"@))
            &&& is_opt_recarr::<String>(jv_get(fs, "telephones"@))
            &&& is_opt_recarr::<String>(jv_get(fs, "faxes"@))
            &&& is_opt_recarr::<String>(jv_get(fs, "uris"@))
            &&& is_opt_recarr::<String>(jv_get(fs, "emails"@))
            &&& is_opt_recarr::<String>(jv_get(fs, "x400s"@))
        }
    }

    open spec fn doc_norm(v: JVal) -> JVal {
        JVal::Obj(
            present_fields(contact_norm_pairs(v->Obj_0)) + ext_fields(v->Obj_0, contact_names()),
        )
    }

    fn from_json(v: JsonValue) -> (r: Result<Self, ParseError>) {
        let o = match v {
            JsonValue::Obj(o) => o,
            _ => { return Err(ParseError::NotObject) },
        };
        let ghost fs = jview_field_vec(o);
        let mut bag = FieldBag::new(o);
        proof {
            lemma_contact_names_distinct();
        }
        proof {
            assert(bag.taken() =~= contact_names().subrange(0, 0));
            crate::codec::lemma_take_fresh(contact_names(), 0, bag.taken());
        }
        let id = match get_req_string(bag.take("id"), "id") {
            Ok(x) => x,
            Err(e) => { return Err(e) },
        };
        proof {
            assert(bag.taken() =~= contact_names().subrange(0, 1));
            crate::codec::lemma_take_fresh(contact_names(), 1, bag.taken());
        }
        let name = match get_opt_string(bag.take("name"), "name") {
            Ok(x) => x,
            Err(e) => { return Err(e) },
        };
        proof {
            assert(bag.taken() =~= contact_names().subrange(0, 2));
            crate::codec::lemma_take_fresh(contact_names(), 2, bag.taken());
        }
        let names = match parse_opt::<LocalizedText>(bag.take("names")) {
            Ok(x) => x,
            Err(e) => { return Err(e) },
        };
        proof {
            assert(bag.taken() =~= contact_names().subrange(0, 3));
            crate::codec::lemma_take_fresh(contact_names(), 3, bag.taken());
        }
        let department = match get_opt_string(bag.take("department"), "department") {
            Ok(x) => x,
            Err(e) => { return Err(e) },
        };
        proof {
            assert(bag.taken() =~= contact_names().subrange(0, 4));
            crate::codec::lemma_take_fresh(contact_names(), 4, bag.taken());
        }
        let departments = match parse_opt::<LocalizedText>(bag.take("departments")) {
            Ok(x) => x,
            Err(e) => { return Err(e) },
        };
        proof {
            assert(bag.taken() =~= contact_names().subrange(0, 5));
            crate::codec::lemma_take_fresh(contact_names(), 5, bag.taken());
        }
        let role = match get_opt_string(bag.take("role"), "role") {
            Ok(x) => x,
            Err(e) => { return Err(e) },
        };
        proof {
            assert(bag.taken() =~= contact_names().subrange(0, 6));
            crate::codec::lemma_take_fresh(contact_names(), 6, bag.taken());
        }
        let roles = match parse_opt::<LocalizedText>(bag.take("roles")) {
            Ok(x) => x,
            Err(e) => { return Err(e) },
        };
        proof {
            assert(bag.taken() =~= contact_names().subrange(0, 7));
            crate::codec::lemma_take_fresh(contact_names(), 7, bag.taken());
        }
        let telephones = match parse_opt_vec::<String>(bag.take("telephones"), "telephones") {
            Ok(x) => x,
            Err(e) => { return Err(e) },
        };
        proof {
            assert(bag.taken() =~= contact_names().subrange(0, 8));
            crate::codec::lemma_take_fresh(contact_names(), 8, bag.taken());
        }
        let faxes = match parse_opt_vec::<String>(bag.take("faxes"), "faxes") {
            Ok(x) => x,
            Err(e) => { return Err(e) },
        };
        proof {
            assert(bag.taken() =~= contact_names().subrange(0, 9));
            crate::codec::lemma_take_fresh(contact_names(), 9, bag.taken());
        }
        let uris = match parse_opt_vec::<String>(bag.take("uris"), "uris") {
            Ok(x) => x,
            Err(e) => { return Err(e) },
        };
        proof {
            assert(bag.taken() =~= contact_names().subrange(0, 10));
            crate::codec::lemma_take_fresh(contact_names(), 10, bag.taken());
        }
        let emails = match parse_opt_vec::<String>(bag.take("emails"), "emails") {
            Ok(x) => x,
            Err(e) => { return Err(e) },
        };
        proof {
            assert(bag.taken() =~= contact_names().subrange(0, 11));
            crate::codec::lemma_take_fresh(contact_names(), 11, bag.taken());
        }
        let x400s = match parse_opt_vec::<String>(bag.take("x400s"), "x400s") {
            Ok(x) => x,
            Err(e) => { return Err(e) },
        };
        let ghost tk = bag.taken();
        let other = bag.rest();
        let out = Contact { id, name, names, department, departments, role, roles, telephones, faxes, uris, emails, x400s, other };
        proof {
            assert(tk =~= contact_names());
            crate::codec::lemma_ext_fields_names(fs, tk);
            assert(contact_pairs(out) =~= contact_norm_pairs(fs));
        }
        Ok(out)
    }

    fn to_json(&self) -> (r: JsonValue) {
        let mut b = ObjBuilder::new();
        put_str(&mut b, "id", &self.id);
        put_opt_str(&mut b, "name", &self.name);
        put_opt_rec(&mut b, "names", &self.names);
        put_opt_str(&mut b, "department", &self.department);
        put_opt_rec(&mut b, "departments", &self.departments);
        put_opt_str(&mut b, "role", &self.role);
        put_opt_rec(&mut b, "roles", &self.roles);
        put_opt_vec(&mut b, "telephones", &self.telephones);
        put_opt_vec(&mut b, "faxes", &self.faxes);
        put_opt_vec(&mut b, "uris", &self.uris);
        put_opt_vec(&mut b, "emails", &self.emails);
        put_opt_vec(&mut b, "x400s", &self.x400s);
        proof {
            let ps = contact_pairs(*self);
            lemma_pairs_chain(ps, 12);
            assert(ps.subrange(0, 12) =~= ps);
            assert(b.view_fields() == present_fields(ps)) by {
                reveal_with_fuel(pairs_prefix_chunks, 13);
            }
        }
        finish_with_ext(b, &self.other)
    }

    proof fn lemma_canon(&self) {
        lemma_contact_names_distinct();
        let ps = contact_pairs(*self);
        let ext = self.other.view_fields();
        assert(names_of(ps) =~= contact_names());
        assert(distinct_names(ps)) by {
            assert forall|i: int, j: int|
                0 <= i < j < ps.len() implies ps[i].0 != ps[j].0 by {
                assert(ps[i].0 == contact_names()[i]);
                assert(ps[j].0 == contact_names()[j]);
            }
        }
        assert(disjoint_from(ext, ps)) by {
            assert forall|i: int, j: int|
                0 <= i < ext.len() && 0 <= j < ps.len() implies ext[i].0 != ps[j].0 by {
                assert(!is_known_name(ext[i].0, contact_names()));
                assert(contact_names()[j] == ps[j].0);
            }
        }
        lemma_jv_get_present(ps, ext);
        lemma_ext_of_present(ps, ext);
        let fs = self.ser()->Obj_0;
        assert(jv_get(fs, "id"@) == ps[0].1);
        assert(jv_get(fs, "name"@) == ps[1].1);
        assert(jv_get(fs, "names"@) == ps[2].1);
        assert(jv_get(fs, "department"@) == ps[3].1);
        assert(jv_get(fs, "departments"@) == ps[4].1);
        assert(jv_get(fs, "role"@) == ps[5].1);
        assert(jv_get(fs, "roles"@) == ps[6].1);
        assert(jv_get(fs, "telephones"@) == ps[7].1);
        assert(jv_get(fs, "faxes"@) == ps[8].1);
        assert(jv_get(fs, "uris"@) == ps[9].1);
        assert(jv_get(fs, "emails"@) == ps[10].1);
        assert(jv_get(fs, "x400s"@) == ps[11].1);
        match self.names {
            Some(t) => {
                t.lemma_canon();
            },
            None => {},
        }
        match self.departments {
            Some(t) => {
                t.lemma_canon();
            },
            None => {},
        }
        match self.roles {
            Some(t) => {
                t.lemma_canon();
            },
            None => {},
        }
        match &self.telephones {
            Some(v) => {
                lemma_arr_canon::<String>(v@);
            },
            None => {},
        }
        match &self.faxes {
            Some(v) => {
                lemma_arr_canon::<String>(v@);
            },
            None => {},
        }
        match &self.uris {
            Some(v) => {
                lemma_arr_canon::<String>(v@);
            },
            None => {},
        }
        match &self.emails {
            Some(v) => {
                lemma_arr_canon::<String>(v@);
            },
            None => {},
        }
        match &self.x400s {
            Some(v) => {
                lemma_arr_canon::<String>(v@);
            },
            None => {},
        }
        assert(Self::doc_ok(self.ser()));
        assert(contact_norm_pairs(fs) =~= ps);
        assert(ext_fields(fs, names_of(ps)) == ext);
        assert(ext_fields(fs, contact_names()) == ext);
    }
}


/// An individual responsible for transmitting or receiving a message.
#[derive(Debug, PartialEq)]
pub struct Party {
    pub id: String,
    pub name: Option<String>,
    pub names: Option<LocalizedText>,
    pub contacts: Option<Vec<Contact>>,
    pub other: Extensions,
}

pub open spec fn party_names() -> Seq<Seq<char>> {
    seq!["id"@, "name"@, "names"@, "contacts"@]
}

pub open spec fn party_pairs(x: Party) -> Seq<(Seq<char>, Option<JVal>)> {
    seq![
        ("id"@, Some(JVal::Str(x.id@))),
        ("name"@, jv_of_ostr(ostr_view(x.name))),
        ("names"@, orec_ser(x.names)),
        ("contacts"@, ovec_ser(x.contacts)),
    ]
}

pub open spec fn party_norm_pairs(fs: Seq<(Seq<char>, JVal)>) -> Seq<(Seq<char>, Option<JVal>)> {
    seq![
        ("id"@, jv_of_ostr(opt_str(jv_get(fs, "id"@)))),
        ("name"@, jv_of_ostr(opt_str(jv_get(fs, "name"@)))),
        ("names"@, opt_rec_norm::<LocalizedText>(jv_get(fs, "names"@))),
        ("contacts"@, opt_recarr_norm::<Contact>(jv_get(fs, "contacts"@))),
    ]
}

/// The names this record knows are pairwise distinct.
pub proof fn lemma_party_names_distinct()
    ensures
        forall|i: int, j: int|
            0 <= i < j < party_names().len() ==> party_names()[i] != party_names()[j],
{
    reveal_strlit("id");
    reveal_strlit("name");
    reveal_strlit("names");
    reveal_strlit("contacts");
    let ns = party_names();
    assert(ns.len() == 4);
    assert forall|i: int, j: int| 0 <= i < j < ns.len() implies ns[i] != ns[j] by {
        assert("id"@.len() == 2);
        assert("name"@.len() == 4);
        assert("names"@.len() == 5);
        assert("contacts"@.len() == 8);
    }
}

impl JsonForm for Party {
    open spec fn wf(&self) -> bool {
        &&& ext_ok(self.other.view_fields(), party_names())
        &&& orec_wf(self.names)
        &&& ovec_wf(self.contacts)
    }

    open spec fn ser(&self) -> JVal {
        JVal::Obj(present_fields(party_pairs(*self)) + self.other.view_fields())
    }

    open spec fn doc_ok(v: JVal) -> bool {
        &&& v is Obj
        &&& {
            let fs = v->Obj_0;
            &&& is_req_str(jv_get(fs, "id"@))
            &&& is_opt_str(jv_get(fs, "name"@))
            &&& is_opt_rec::<LocalizedText>(jv_get(fs, "names"@))
            &&& is_opt_recarr::<Contact>(jv_get(fs, "contacts"@))
        }
    }

    open spec fn doc_norm(v: JVal) -> JVal {
        JVal::Obj(
            present_fields(party_norm_pairs(v->Obj_0)) + ext_fields(v->Obj_0, party_names()),
        )
    }

    fn from_json(v: JsonValue) -> (r: Result<Self, ParseError>) {
        let o = match v {
            JsonValue::Obj(o) => o,
            _ => { return Err(ParseError::NotObject) },
        };
        let ghost fs = jview_field_vec(o);
        let mut bag = FieldBag::new(o);
        proof {
            lemma_party_names_distinct();
        }
        proof {
            assert(bag.taken() =~= party_names().subrange(0, 0));
            crate::codec::lemma_take_fresh(party_names(), 0, bag.taken());
        }
        let id = match get_req_string(bag.take("id"), "id") {
            Ok(x) => x,
            Err(e) => { return Err(e) },
        };
        proof {
            assert(bag.taken() =~= party_names().subrange(0, 1));
            crate::codec::lemma_take_fresh(party_names(), 1, bag.taken());
        }
        let name = match get_opt_string(bag.take("name"), "name") {
            Ok(x) => x,
            Err(e) => { return Err(e) },
        };
        proof {
            assert(bag.taken() =~= party_names().subrange(0, 2));
            crate::codec::lemma_take_fresh(party_names(), 2, bag.taken());
        }
        let names = match parse_opt::<LocalizedText>(bag.take("names")) {
            Ok(x) => x,
            Err(e) => { return Err(e) },
        };
        proof {
            assert(bag.taken() =~= party_names().subrange(0, 3));
            crate::codec::lemma_take_fresh(party_names(), 3, bag.taken());
        }
        let contacts = match parse_opt_vec::<Contact>(bag.take("contacts"), "contacts") {
            Ok(x) => x,
            Err(e) => { return Err(e) },
        };
        let ghost tk = bag.taken();
        let other = bag.rest();
        let out = Party { id, name, names, contacts, other };
        proof {
            assert(tk =~= party_names());
            crate::codec::lemma_ext_fields_names(fs, tk);
            assert(party_pairs(out) =~= party_norm_pairs(fs));
        }
        Ok(out)
    }

    fn to_json(&self) -> (r: JsonValue) {
        let mut b = ObjBuilder::new();
        put_str(&mut b, "id", &self.id);
        put_opt_str(&mut b, "name", &self.name);
        put_opt_rec(&mut b, "names", &self.names);
        put_opt_vec(&mut b, "contacts", &self.contacts);
        proof {
            let ps = party_pairs(*self);
            lemma_pairs_chain(ps, 4);
            assert(ps.subrange(0, 4) =~= ps);
            assert(b.view_fields() == present_fields(ps)) by {
                reveal_with_fuel(pairs_prefix_chunks, 5);
            }
        }
        finish_with_ext(b, &self.other)
    }

    proof fn lemma_canon(&self) {
        lemma_party_names_distinct();
        let ps = party_pairs(*self);
        let ext = self.other.view_fields();
        assert(names_of(ps) =~= party_names());
        assert(distinct_names(ps)) by {
            assert forall|i: int, j: int|
                0 <= i < j < ps.len() implies ps[i].0 != ps[j].0 by {
                assert(ps[i].0 == party_names()[i]);
                assert(ps[j].0 == party_names()[j]);
            }
        }
        assert(disjoint_from(ext, ps)) by {
            assert forall|i: int, j: int|
                0 <= i < ext.len() && 0 <= j < ps.len() implies ext[i].0 != ps[j].0 by {
                assert(!is_known_name(ext[i].0, party_names()));
                assert(party_names()[j] == ps[j].0);
            }
        }
        lemma_jv_get_present(ps, ext);
        lemma_ext_of_present(ps, ext);
        let fs = self.ser()->Obj_0;
        assert(jv_get(fs, "id"@) == ps[0].1);
        assert(jv_get(fs, "name"@) == ps[1].1);
        assert(jv_get(fs, "names"@) == ps[2].1);
        assert(jv_get(fs, "contacts"@) == ps[3].1);
        match self.names {
            Some(t) => {
                t.lemma_canon();
            },
            None => {},
        }
        match &self.contacts {
            Some(v) => {
                lemma_arr_canon::<Contact>(v@);
            },
            None => {},
        }
        assert(Self::doc_ok(self.ser()));
        assert(party_norm_pairs(fs) =~= ps);
        assert(ext_fields(fs, names_of(ps)) == ext);
        assert(ext_fields(fs, party_names()) == ext);
    }
}


/// An action describing how or why the data is being transmitted from the
/// sender's side.
#[derive(Debug, Clone, Copy, PartialEq, Eq)]
pub enum Action {
    Append,
    Replace,
    Delete,
    Information,
}

impl Action {
    /// The wire token of this value.
    pub open spec fn tok(self) -> Seq<char> {
        match self {
            Action::Append => "Append"@,
            Action::Replace => "Replace"@,
            Action::Delete => "Delete"@,
            Action::Information => "Information"@,
        }
    }
}

impl JsonForm for Action {
    open spec fn wf(&self) -> bool {
        true
    }

    open spec fn ser(&self) -> JVal {
        JVal::Str(self.tok())
    }

    open spec fn doc_ok(v: JVal) -> bool {
        v matches JVal::Str(s) && {
            ||| s == "Append"@
            ||| s == "Replace"@
            ||| s == "Delete"@
            ||| s == "Information"@
        }
    }

    open spec fn doc_norm(v: JVal) -> JVal {
        v
    }

    fn from_json(v: JsonValue) -> (r: Result<Self, ParseError>) {
        match v {
            JsonValue::Str(s) => {
                if str_eq(s.as_str(), "Append") {
                    Ok(Action::Append)
                } else if str_eq(s.as_str(), "Replace") {
                    Ok(Action::Replace)
                } else if str_eq(s.as_str(), "Delete") {
                    Ok(Action::Delete)
                } else if str_eq(s.as_str(), "Information") {
                    Ok(Action::Information)
                } else {
                    Err(ParseError::Token(s))
                }
            },
            _ => Err(ParseError::Shape("action".to_owned(), crate::fields::ValueKind::Text)),
        }
    }

    fn to_json(&self) -> (r: JsonValue) {
        match self {
            Action::Append => JsonValue::Str("Append".to_owned()),
            Action::Replace => JsonValue::Str("Replace".to_owned()),
            Action::Delete => JsonValue::Str("Delete".to_owned()),
            Action::Information => JsonValue::Str("Information".to_owned()),
        }
    }

    proof fn lemma_canon(&self) {
    }
}

impl Default for Action {
    /// An absent action means plain information.
    fn default() -> (r: Action)
        ensures
            r == Action::Information,
    {
        Action::Information
    }
}

/// The specific data format for representing something.
#[derive(Debug, Clone, Copy, PartialEq, Eq)]
pub enum DataType {
    String,
    Alpha,
    AlphaNumeric,
    Numeric,
    BigInteger,
    Integer,
    Long,
    Short,
    Decimal,
    Float,
    Double,
    Boolean,
    Uri,
    Count,
    InclusiveValueRange,
    ExclusiveValueRange,
    Incremental,
    ObservationalTimePeriod,
    StandardTimePeriod,
    BasicTimePeriod,
    GregorianTimePeriod,
    GregorianYear,
    GregorianYearMonth,
    GregorianDay,
    ReportingTimePeriod,
    ReportingYear,
    ReportingSemester,
    ReportingTrimester,
    ReportingQuarter,
    ReportingMonth,
    ReportingWeek,
    ReportingDay,
    DateTime,
    TimeRange,
    Month,
    MonthDay,
    Day,
    Time,
    Duration,
    GeospatialInformation,
    Xhtml,
}

impl DataType {
    /// The wire token of this value.
    pub open spec fn tok(self) -> Seq<char> {
        match self {
            DataType::String => "String"@,
            DataType::Alpha => "Alpha"@,
            DataType::AlphaNumeric => "AlphaNumeric"@,
            DataType::Numeric => "Numeric"@,
            DataType::BigInteger => "BigInteger"@,
            DataType::Integer => "Integer"@,
            DataType::Long => "Long"@,
            DataType::Short => "Short"@,
            DataType::Decimal => "Decimal"@,
            DataType::Float => "Float"@,
            DataType::Double => "Double"@,
            DataType::Boolean => "Boolean"@,
            DataType::Uri => "URI"@,
            DataType::Count => "Count"@,
            DataType::InclusiveValueRange => "InclusiveValueRange"@,
            DataType::ExclusiveValueRange => "ExclusiveValueRange"@,
            DataType::Incremental => "Incremental"@,
            DataType::ObservationalTimePeriod => "ObservationalTimePeriod"@,
            DataType::StandardTimePeriod => "StandardTimePeriod"@,
            DataType::BasicTimePeriod => "BasicTimePeriod"@,
            DataType::GregorianTimePeriod => "GregorianTimePeriod"@,
            DataType::GregorianYear => "GregorianYear"@,
            DataType::GregorianYearMonth => "GregorianYearMonth"@,
            DataType::GregorianDay => "GregorianDay"@,
            DataType::ReportingTimePeriod => "ReportingTimePeriod"@,
            DataType::ReportingYear => "ReportingYear"@,
            DataType::ReportingSemester => "ReportingSemester"@,
            DataType::ReportingTrimester => "ReportingTrimester"@,
            DataType::ReportingQuarter => "ReportingQuarter"@,
            DataType::ReportingMonth => "ReportingMonth"@,
            DataType::ReportingWeek => "ReportingWeek"@,
            DataType::ReportingDay => "ReportingDay"@,
            DataType::DateTime => "DateTime"@,
            DataType::TimeRange => "TimeRange"@,
            DataType::Month => "Month"@,
            DataType::MonthDay => "MonthDay"@,
            DataType::Day => "Day"@,
            DataType::Time => "Time"@,
            DataType::Duration => "Duration"@,
            DataType::GeospatialInformation => "GeospatialInformation"@,
            DataType::Xhtml => "XHTML"@,
        }
    }
}

impl JsonForm for DataType {
    open spec fn wf(&self) -> bool {
        true
    }

    open spec fn ser(&self) -> JVal {
        JVal::Str(self.tok())
    }

    open spec fn doc_ok(v: JVal) -> bool {
        v matches JVal::Str(s) && {
            ||| s == "String"@
            ||| s == "Alpha"@
            ||| s == "AlphaNumeric"@
            ||| s == "Numeric"@
            ||| s == "BigInteger"@
            ||| s == "Integer"@
            ||| s == "Long"@
            ||| s == "Short"@
            ||| s == "Decimal"@
            ||| s == "Float"@
            ||| s == "Double"@
            ||| s == "Boolean"@
            ||| s == "URI"@
            ||| s == "Count"@
            ||| s == "InclusiveValueRange"@
            ||| s == "ExclusiveValueRange"@
            ||| s == "Incremental"@
            ||| s == "ObservationalTimePeriod"@
            ||| s == "StandardTimePeriod"@
            ||| s == "BasicTimePeriod"@
            ||| s == "GregorianTimePeriod"@
            ||| s == "GregorianYear"@
            ||| s == "GregorianYearMonth"@
            ||| s == "GregorianDay"@
            ||| s == "ReportingTimePeriod"@
            ||| s == "ReportingYear"@
            ||| s == "ReportingSemester"@
            ||| s == "ReportingTrimester"@
            ||| s == "ReportingQuarter"@
            ||| s == "ReportingMonth"@
            ||| s == "ReportingWeek"@
            ||| s == "ReportingDay"@
            ||| s == "DateTime"@
            ||| s == "TimeRange"@
            ||| s == "Month"@
            ||| s == "MonthDay"@
            ||| s == "Day"@
            ||| s == "Time"@
            ||| s == "Duration"@
            ||| s == "GeospatialInformation"@
            ||| s == "XHTML"@
        }
    }

    open spec fn doc_norm(v: JVal) -> JVal {
        v
    }

    fn from_json(v: JsonValue) -> (r: Result<Self, ParseError>) {
        match v {
            JsonValue::Str(s) => {
                if str_eq(s.as_str(), "String") {
                    Ok(DataType::String)
                } else if str_eq(s.as_str(), "Alpha") {
                    Ok(DataType::Alpha)
                } else if str_eq(s.as_str(), "AlphaNumeric") {
                    Ok(DataType::AlphaNumeric)
                } else if str_eq(s.as_str(), "Numeric") {
                    Ok(DataType::Numeric)
                } else if str_eq(s.as_str(), "BigInteger") {
                    Ok(DataType::BigInteger)
                } else if str_eq(s.as_str(), "Integer") {
                    Ok(DataType::Integer)
                } else if str_eq(s.as_str(), "Long") {
                    Ok(DataType::Long)
                } else if str_eq(s.as_str(), "Short") {
                    Ok(DataType::Short)
                } else if str_eq(s.as_str(), "Decimal") {
                    Ok(DataType::Decimal)
                } else if str_eq(s.as_str(), "Float") {
                    Ok(DataType::Float)
                } else if str_eq(s.as_str(), "Double") {
                    Ok(DataType::Double)
                } else if str_eq(s.as_str(), "Boolean") {
                    Ok(DataType::Boolean)
                } else if str_eq(s.as_str(), "URI") {
                    Ok(DataType::Uri)
                } else if str_eq(s.as_str(), "Count") {
                    Ok(DataType::Count)
                } else if str_eq(s.as_str(), "InclusiveValueRange") {
                    Ok(DataType::InclusiveValueRange)
                } else if str_eq(s.as_str(), "ExclusiveValueRange") {
                    Ok(DataType::ExclusiveValueRange)
                } else if str_eq(s.as_str(), "Incremental") {
                    Ok(DataType::Incremental)
                } else if str_eq(s.as_str(), "ObservationalTimePeriod") {
                    Ok(DataType::ObservationalTimePeriod)
                } else if str_eq(s.as_str(), "StandardTimePeriod") {
                    Ok(DataType::StandardTimePeriod)
                } else if str_eq(s.as_str(), "BasicTimePeriod") {
                    Ok(DataType::BasicTimePeriod)
                } else if str_eq(s.as_str(), "GregorianTimePeriod") {
                    Ok(DataType::GregorianTimePeriod)
                } else if str_eq(s.as_str(), "GregorianYear") {
                    Ok(DataType::GregorianYear)
                } else if str_eq(s.as_str(), "GregorianYearMonth") {
                    Ok(DataType::GregorianYearMonth)
                } else if str_eq(s.as_str(), "GregorianDay") {
                    Ok(DataType::GregorianDay)
                } else if str_eq(s.as_str(), "ReportingTimePeriod") {
                    Ok(DataType::ReportingTimePeriod)
                } else if str_eq(s.as_str(), "ReportingYear") {
                    Ok(DataType::ReportingYear)
                } else if str_eq(s.as_str(), "ReportingSemester") {
                    Ok(DataType::ReportingSemester)
                } else if str_eq(s.as_str(), "ReportingTrimester") {
                    Ok(DataType::ReportingTrimester)
                } else if str_eq(s.as_str(), "ReportingQuarter") {
                    Ok(DataType::ReportingQuarter)
                } else if str_eq(s.as_str(), "ReportingMonth") {
                    Ok(DataType::ReportingMonth)
                } else if str_eq(s.as_str(), "ReportingWeek") {
                    Ok(DataType::ReportingWeek)
                } else if str_eq(s.as_str(), "ReportingDay") {
                    Ok(DataType::ReportingDay)
                } else if str_eq(s.as_str(), "DateTime") {
                    Ok(DataType::DateTime)
                } else if str_eq(s.as_str(), "TimeRange") {
                    Ok(DataType::TimeRange)
                } else if str_eq(s.as_str(), "Month") {
                    Ok(DataType::Month)
                } else if str_eq(s.as_str(), "MonthDay") {
                    Ok(DataType::MonthDay)
                } else if str_eq(s.as_str(), "Day") {
                    Ok(DataType::Day)
                } else if str_eq(s.as_str(), "Time") {
                    Ok(DataType::Time)
                } else if str_eq(s.as_str(), "Duration") {
                    Ok(DataType::Duration)
                } else if str_eq(s.as_str(), "GeospatialInformation") {
                    Ok(DataType::GeospatialInformation)
                } else if str_eq(s.as_str(), "XHTML") {
                    Ok(DataType::Xhtml)
                } else {
                    Err(ParseError::Token(s))
                }
            },
            _ => Err(ParseError::Shape("data type".to_owned(), crate::fields::ValueKind::Text)),
        }
    }

    fn to_json(&self) -> (r: JsonValue) {
        match self {
            DataType::String => JsonValue::Str("String".to_owned()),
            DataType::Alpha => JsonValue::Str("Alpha".to_owned()),
            DataType::AlphaNumeric => JsonValue::Str("AlphaNumeric".to_owned()),
            DataType::Numeric => JsonValue::Str("Numeric".to_owned()),
            DataType::BigInteger => JsonValue::Str("BigInteger".to_owned()),
            DataType::Integer => JsonValue::Str("Integer".to_owned()),
            DataType::Long => JsonValue::Str("Long".to_owned()),
            DataType::Short => JsonValue::Str("Short".to_owned()),
            DataType::Decimal => JsonValue::Str("Decimal".to_owned()),
            DataType::Float => JsonValue::Str("Float".to_owned()),
            DataType::Double => JsonValue::Str("Double".to_owned()),
            DataType::Boolean => JsonValue::Str("Boolean".to_owned()),
            DataType::Uri => JsonValue::Str("URI".to_owned()),
            DataType::Count => JsonValue::Str("Count".to_owned()),
            DataType::InclusiveValueRange => JsonValue::Str("InclusiveValueRange".to_owned()),
            DataType::ExclusiveValueRange => JsonValue::Str("ExclusiveValueRange".to_owned()),
            DataType::Incremental => JsonValue::Str("Incremental".to_owned()),
            DataType::ObservationalTimePeriod => JsonValue::Str("ObservationalTimePeriod".to_owned()),
            DataType::StandardTimePeriod => JsonValue::Str("StandardTimePeriod".to_owned()),
            DataType::BasicTimePeriod => JsonValue::Str("BasicTimePeriod".to_owned()),
            DataType::GregorianTimePeriod => JsonValue::Str("GregorianTimePeriod".to_owned()),
            DataType::GregorianYear => JsonValue::Str("GregorianYear".to_owned()),
            DataType::GregorianYearMonth => JsonValue::Str("GregorianYearMonth".to_owned()),
            DataType::GregorianDay => JsonValue::Str("GregorianDay".to_owned()),
            DataType::ReportingTimePeriod => JsonValue::Str("ReportingTimePeriod".to_owned()),
            DataType::ReportingYear => JsonValue::Str("ReportingYear".to_owned()),
            DataType::ReportingSemester => JsonValue::Str("ReportingSemester".to_owned()),
            DataType::ReportingTrimester => JsonValue::Str("ReportingTrimester".to_owned()),
            DataType::ReportingQuarter => JsonValue::Str("ReportingQuarter".to_owned()),
            DataType::ReportingMonth => JsonValue::Str("ReportingMonth".to_owned()),
            DataType::ReportingWeek => JsonValue::Str("ReportingWeek".to_owned()),
            DataType::ReportingDay => JsonValue::Str("ReportingDay".to_owned()),
            DataType::DateTime => JsonValue::Str("DateTime".to_owned()),
            DataType::TimeRange => JsonValue::Str("TimeRange".to_owned()),
            DataType::Month => JsonValue::Str("Month".to_owned()),
            DataType::MonthDay => JsonValue::Str("MonthDay".to_owned()),
            DataType::Day => JsonValue::Str("Day".to_owned()),
            DataType::Time => JsonValue::Str("Time".to_owned()),
            DataType::Duration => JsonValue::Str("Duration".to_owned()),
            DataType::GeospatialInformation => JsonValue::Str("GeospatialInformation".to_owned()),
            DataType::Xhtml => JsonValue::Str("XHTML".to_owned()),
        }
    }

    proof fn lemma_canon(&self) {
    }
}

impl DataType {
    /// Whether this is one of the reporting time periods.
    pub fn is_reporting(&self) -> (r: bool)
        ensures
            r == self.spec_is_reporting(),
    {
        matches!(
            self,
            Self::ReportingDay
                | Self::ReportingWeek
                | Self::ReportingMonth
                | Self::ReportingYear
                | Self::ReportingQuarter
                | Self::ReportingSemester
                | Self::ReportingTrimester
                | Self::ReportingTimePeriod
        )
    }

    pub open spec fn spec_is_reporting(&self) -> bool {
        self is ReportingDay || self is ReportingWeek || self is ReportingMonth
            || self is ReportingYear || self is ReportingQuarter || self is ReportingSemester
            || self is ReportingTrimester || self is ReportingTimePeriod
    }

    /// Whether this is one of the Gregorian calendar periods.
    pub fn is_gregorian(&self) -> (r: bool)
        ensures
            r == self.spec_is_gregorian(),
    {
        matches!(
            self,
            Self::GregorianTimePeriod
                | Self::GregorianYear
                | Self::GregorianYearMonth
                | Self::GregorianDay
        )
    }

    pub open spec fn spec_is_gregorian(&self) -> bool {
        self is GregorianTimePeriod || self is GregorianYear || self is GregorianYearMonth
            || self is GregorianDay
    }
}

/// A primitive representing either a string or a signed integer, carried on
/// the wire as an object with the one matching tag.
#[derive(Debug, PartialEq, Eq)]
pub enum NumberOrString {
    Number(isize),
    String(String),
}

/// The one tagged entry of a number-or-string value, with `Number` taking
/// priority over `String` should the tags ever collide.
pub open spec fn num_or_str_entry_ok(e: (Seq<char>, JVal)) -> bool {
    if e.0 == "Number"@ {
        match e.1 {
            JVal::Int(i) => isize::MIN as int <= i && i <= isize::MAX as int,
            _ => false,
        }
    } else if e.0 == "String"@ {
        e.1 is Str
    } else {
        false
    }
}

impl JsonForm for NumberOrString {
    open spec fn wf(&self) -> bool {
        true
    }

    open spec fn ser(&self) -> JVal {
        match self {
            NumberOrString::Number(i) => JVal::Obj(seq![("Number"@, JVal::Int(*i as int))]),
            NumberOrString::String(s) => JVal::Obj(seq![("String"@, JVal::Str(s@))]),
        }
    }

    open spec fn doc_ok(v: JVal) -> bool {
        &&& v is Obj
        &&& v->Obj_0.len() == 1
        &&& num_or_str_entry_ok(v->Obj_0[0])
    }

    open spec fn doc_norm(v: JVal) -> JVal {
        v
    }

    fn from_json(v: JsonValue) -> (r: Result<Self, ParseError>) {
        let mut o = match v {
            JsonValue::Obj(o) => o,
            _ => { return Err(ParseError::NotObject) },
        };
        let ghost fs = jview_field_vec(o);
        proof {
            crate::json::lemma_jview_field_seq(o@);
            reveal_strlit("Number");
            reveal_strlit("String");
        }
        if o.len() != 1 {
            return Err(ParseError::Shape("value".to_owned(), crate::fields::ValueKind::Object));
        }
        let (tag, val) = o.remove(0);
        let ghost vv = jview(val);
        proof {
            assert(fs =~= seq![(tag@, vv)]);
        }
        if str_eq(tag.as_str(), "Number") {
            match val {
                JsonValue::Int(i) => {
                    if i >= (isize::MIN as i64) && i <= (isize::MAX as i64) {
                        let out = NumberOrString::Number(i as isize);
                        proof {
                            assert(out.ser()->Obj_0 =~= fs);
                            assert(Self::doc_ok(JVal::Obj(fs)));
                        }
                        Ok(out)
                    } else {
                        proof {
                            assert(!Self::doc_ok(JVal::Obj(fs)));
                        }
                        Err(ParseError::Shape(tag, crate::fields::ValueKind::Integer))
                    }
                },
                JsonValue::UInt(u) => {
                    if u <= (isize::MAX as u64) {
                        let out = NumberOrString::Number(u as isize);
                        proof {
                            assert(out.ser()->Obj_0 =~= fs);
                        }
                        Ok(out)
                    } else {
                        Err(ParseError::Shape(tag, crate::fields::ValueKind::Integer))
                    }
                },
                _ => {
                    proof {
                        assert(!(vv is Int));
                        assert(!Self::doc_ok(JVal::Obj(fs)));
                    }
                    Err(ParseError::Shape(tag, crate::fields::ValueKind::Integer))
                },
            }
        } else if str_eq(tag.as_str(), "String") {
            match val {
                JsonValue::Str(s) => {
                    let ghost sv = s@;
                    let out = NumberOrString::String(s);
                    proof {
                        assert(out.ser()->Obj_0 =~= fs);
                    }
                    Ok(out)
                },
                _ => {
                    proof {
                        assert(!Self::doc_ok(JVal::Obj(fs)));
                    }
                    Err(ParseError::Shape(tag, crate::fields::ValueKind::Integer))
                },
            }
        } else {
            proof {
                assert(!Self::doc_ok(JVal::Obj(fs)));
            }
            Err(ParseError::Token(tag))
        }
    }

    fn to_json(&self) -> (r: JsonValue) {
        let r = match self {
            NumberOrString::Number(i) => {
                let mut fields: Vec<(String, JsonValue)> = Vec::new();
                fields.push(("Number".to_owned(), crate::fields::json_of_isize(*i)));
                JsonValue::Obj(fields)
            },
            NumberOrString::String(s) => {
                let mut fields: Vec<(String, JsonValue)> = Vec::new();
                fields.push(("String".to_owned(), JsonValue::Str(s.clone())));
                JsonValue::Obj(fields)
            },
        };
        proof {
            crate::json::lemma_jview_field_seq(r->Obj_0@);
            assert(jview(r)->Obj_0 =~= self.ser()->Obj_0);
        }
        r
    }

    proof fn lemma_canon(&self) {
        reveal_strlit("Number");
        reveal_strlit("String");
        assert("Number"@.len() == 6);
        assert("String"@.len() == 6);
        assert("Number"@[0] == 'N');
        assert("String"@[0] == 'S');
    }
}

/// A reserved value within an associated data domain carrying some semantic
/// meaning.
#[derive(Debug, PartialEq)]
pub struct SentinelValue {
    pub value: Option<NumberOrString>,
    pub name: Option<String>,
    pub names: Option<LocalizedText>,
    pub description: Option<String>,
    pub descriptions: Option<LocalizedText>,
    pub other: Extensions,
}

pub open spec fn sentinel_value_names() -> Seq<Seq<char>> {
    seq!["value"@, "name"@, "names"@, "description"@, "descriptions"@]
}

pub open spec fn sentinel_value_pairs(x: SentinelValue) -> Seq<(Seq<char>, Option<JVal>)> {
    seq![
        ("value"@, orec_ser(x.value)),
        ("name"@, jv_of_ostr(ostr_view(x.name))),
        ("names"@, orec_ser(x.names)),
        ("description"@, jv_of_ostr(ostr_view(x.description))),
        ("descriptions"@, orec_ser(x.descriptions)),
    ]
}

pub open spec fn sentinel_value_norm_pairs(fs: Seq<(Seq<char>, JVal)>) -> Seq<(Seq<char>, Option<JVal>)> {
    seq![
        ("value"@, opt_rec_norm::<NumberOrString>(jv_get(fs, "value"@))),
        ("name"@, jv_of_ostr(opt_str(jv_get(fs, "name"@)))),
        ("names"@, opt_rec_norm::<LocalizedText>(jv_get(fs, "names"@))),
        ("description"@, jv_of_ostr(opt_str(jv_get(fs, "description"@)))),
        ("descriptions"@, opt_rec_norm::<LocalizedText>(jv_get(fs, "descriptions"@))),
    ]
}

/// The names this record knows are pairwise distinct.
pub proof fn lemma_sentinel_value_names_distinct()
    ensures
        forall|i: int, j: int|
            0 <= i < j < sentinel_value_names().len() ==> sentinel_value_names()[i] != sentinel_value_names()[j],
{
    reveal_strlit("value");
    reveal_strlit("name");
    reveal_strlit("names");
    reveal_strlit("description");
    reveal_strlit("descriptions");
    let ns = sentinel_value_names();
    assert(ns.len() == 5);
    assert forall|i: int, j: int| 0 <= i < j < ns.len() implies ns[i] != ns[j] by {
        assert("value"@.len() == 5);
        assert("name"@.len() == 4);
        assert("names"@.len() == 5);
        assert("description"@.len() == 11);
        assert("descriptions"@.len() == 12);
        assert("value"@[0] == 'v');
        assert("names"@[0] == 'n');
    }
}

impl JsonForm for SentinelValue {
    open spec fn wf(&self) -> bool {
        &&& ext_ok(self.other.view_fields(), sentinel_value_names())
        &&& orec_wf(self.value)
        &&& orec_wf(self.names)
        &&& orec_wf(self.descriptions)
    }

    open spec fn ser(&self) -> JVal {
        JVal::Obj(present_fields(sentinel_value_pairs(*self)) + self.other.view_fields())
    }

    open spec fn doc_ok(v: JVal) -> bool {
        &&& v is Obj
        &&& {
            let fs = v->Obj_0;
            &&& is_opt_rec::<NumberOrString>(jv_get(fs, "value"@))
            &&& is_opt_str(jv_get(fs, "name"@))
            &&& is_opt_rec::<LocalizedText>(jv_get(fs, "names"@))
            &&& is_opt_str(jv_get(fs, "description"@))
            &&& is_opt_rec::<LocalizedText>(jv_get(fs, "descriptions"@))
        }
    }

    open spec fn doc_norm(v: JVal) -> JVal {
        JVal::Obj(
            present_fields(sentinel_value_norm_pairs(v->Obj_0)) + ext_fields(v->Obj_0, sentinel_value_names()),
        )
    }

    fn from_json(v: JsonValue) -> (r: Result<Self, ParseError>) {
        let o = match v {
            JsonValue::Obj(o) => o,
            _ => { return Err(ParseError::NotObject) },
        };
        let ghost fs = jview_field_vec(o);
        let mut bag = FieldBag::new(o);
        proof {
            lemma_sentinel_value_names_distinct();
        }
        proof {
            assert(bag.taken() =~= sentinel_value_names().subrange(0, 0));
            crate::codec::lemma_take_fresh(sentinel_value_names(), 0, bag.taken());
        }
        let value = match parse_opt::<NumberOrString>(bag.take("value")) {
            Ok(x) => x,
            Err(e) => { return Err(e) },
        };
        proof {
            assert(bag.taken() =~= sentinel_value_names().subrange(0, 1));
            crate::codec::lemma_take_fresh(sentinel_value_names(), 1, bag.taken());
        }
        let name = match get_opt_string(bag.take("name"), "name") {
            Ok(x) => x,
            Err(e) => { return Err(e) },
        };
        proof {
            assert(bag.taken() =~= sentinel_value_names().subrange(0, 2));
            crate::codec::lemma_take_fresh(sentinel_value_names(), 2, bag.taken());
        }
        let names = match parse_opt::<LocalizedText>(bag.take("names")) {
            Ok(x) => x,
            Err(e) => { return Err(e) },
        };
        proof {
            assert(bag.taken() =~= sentinel_value_names().subrange(0, 3));
            crate::codec::lemma_take_fresh(sentinel_value_names(), 3, bag.taken());
        }
        let description = match get_opt_string(bag.take("description"), "description") {
            Ok(x) => x,
            Err(e) => { return Err(e) },
        };
        proof {
            assert(bag.taken() =~= sentinel_value_names().subrange(0, 4));
            crate::codec::lemma_take_fresh(sentinel_value_names(), 4, bag.taken());
        }
        let descriptions = match parse_opt::<LocalizedText>(bag.take("descriptions")) {
            Ok(x) => x,
            Err(e) => { return Err(e) },
        };
        let ghost tk = bag.taken();
        let other = bag.rest();
        let out = SentinelValue { value, name, names, description, descriptions, other };
        proof {
            assert(tk =~= sentinel_value_names());
            crate::codec::lemma_ext_fields_names(fs, tk);
            assert(sentinel_value_pairs(out) =~= sentinel_value_norm_pairs(fs));
        }
        Ok(out)
    }

    fn to_json(&self) -> (r: JsonValue) {
        let mut b = ObjBuilder::new();
        put_opt_rec(&mut b, "value", &self.value);
        put_opt_str(&mut b, "name", &self.name);
        put_opt_rec(&mut b, "names", &self.names);
        put_opt_str(&mut b, "description", &self.description);
        put_opt_rec(&mut b, "descriptions", &self.descriptions);
        proof {
            let ps = sentinel_value_pairs(*self);
            lemma_pairs_chain(ps, 5);
            assert(ps.subrange(0, 5) =~= ps);
            assert(b.view_fields() == present_fields(ps)) by {
                reveal_with_fuel(pairs_prefix_chunks, 6);
            }
        }
        finish_with_ext(b, &self.other)
    }

    proof fn lemma_canon(&self) {
        lemma_sentinel_value_names_distinct();
        let ps = sentinel_value_pairs(*self);
        let ext = self.other.view_fields();
        assert(names_of(ps) =~= sentinel_value_names());
        assert(distinct_names(ps)) by {
            assert forall|i: int, j: int|
                0 <= i < j < ps.len() implies ps[i].0 != ps[j].0 by {
                assert(ps[i].0 == sentinel_value_names()[i]);
                assert(ps[j].0 == sentinel_value_names()[j]);
            }
        }
        assert(disjoint_from(ext, ps)) by {
            assert forall|i: int, j: int|
                0 <= i < ext.len() && 0 <= j < ps.len() implies ext[i].0 != ps[j].0 by {
                assert(!is_known_name(ext[i].0, sentinel_value_names()));
                assert(sentinel_value_names()[j] == ps[j].0);
            }
        }
        lemma_jv_get_present(ps, ext);
        lemma_ext_of_present(ps, ext);
        let fs = self.ser()->Obj_0;
        assert(jv_get(fs, "value"@) == ps[0].1);
        assert(jv_get(fs, "name"@) == ps[1].1);
        assert(jv_get(fs, "names"@) == ps[2].1);
        assert(jv_get(fs, "description"@) == ps[3].1);
        assert(jv_get(fs, "descriptions"@) == ps[4].1);
        match self.value {
            Some(t) => {
                t.lemma_canon();
            },
            None => {},
        }
        match self.names {
            Some(t) => {
                t.lemma_canon();
            },
            None => {},
        }
        match self.descriptions {
            Some(t) => {
                t.lemma_canon();
            },
            None => {},
        }
        assert(Self::doc_ok(self.ser()));
        assert(sentinel_value_norm_pairs(fs) =~= ps);
        assert(ext_fields(fs, names_of(ps)) == ext);
        assert(ext_fields(fs, sentinel_value_names()) == ext);
    }
}

/// Non-standard information and basic technical information associated with
/// a message.
#[derive(Debug, PartialEq)]
pub struct Meta {
    pub schema: Option<String>,
    pub id: String,
    pub test: Option<bool>,
    pub prepared: String,
    pub content_languages: Option<Vec<String>>,
    pub name: Option<String>,
    pub names: Option<LocalizedText>,
    pub sender: Party,
    pub receivers: Option<Vec<Party>>,
    pub links: Option<Vec<Link>>,
    pub other: Extensions,
}

pub open spec fn meta_names() -> Seq<Seq<char>> {
    seq!["schema"@, "id"@, "test"@, "prepared"@, "contentLanguages"@, "name"@, "names"@, "sender"@, "receivers"@, "links"@]
}

pub open spec fn meta_pairs(x: Meta) -> Seq<(Seq<char>, Option<JVal>)> {
    seq![
        ("schema"@, jv_of_ostr(ostr_view(x.schema))),
        ("id"@, Some(JVal::Str(x.id@))),
        ("test"@, jv_of_obool(x.test)),
        ("prepared"@, Some(JVal::Str(x.prepared@))),
        ("contentLanguages"@, ovec_ser(x.content_languages)),
        ("name"@, jv_of_ostr(ostr_view(x.name))),
        ("names"@, orec_ser(x.names)),
        ("sender"@, Some(x.sender.ser())),
        ("receivers"@, om_ser(x.receivers)),
        ("links"@, ovec_ser(x.links)),
    ]
}

pub open spec fn meta_norm_pairs(fs: Seq<(Seq<char>, JVal)>) -> Seq<(Seq<char>, Option<JVal>)> {
    seq![
        ("schema"@, jv_of_ostr(opt_str(jv_get(fs, "schema"@)))),
        ("id"@, jv_of_ostr(opt_str(jv_get(fs, "id"@)))),
        ("test"@, jv_of_obool(opt_bool(jv_get(fs, "test"@)))),
        ("prepared"@, jv_of_ostr(opt_str(jv_get(fs, "prepared"@)))),
        ("contentLanguages"@, opt_recarr_norm::<String>(jv_get(fs, "contentLanguages"@))),
        ("name"@, jv_of_ostr(opt_str(jv_get(fs, "name"@)))),
        ("names"@, opt_rec_norm::<LocalizedText>(jv_get(fs, "names"@))),
        ("sender"@, req_rec_norm::<Party>(jv_get(fs, "sender"@))),
        ("receivers"@, om_norm::<Party>(jv_get(fs, "receivers"@))),
        ("links"@, opt_recarr_norm::<Link>(jv_get(fs, "links"@))),
    ]
}

/// The names this record knows are pairwise distinct.
pub proof fn lemma_meta_names_distinct()
    ensures
        forall|i: int, j: int|
            0 <= i < j < meta_names().len() ==> meta_names()[i] != meta_names()[j],
{
    reveal_strlit("schema");
    reveal_strlit("id");
    reveal_strlit("test");
    reveal_strlit("prepared");
    reveal_strlit("contentLanguages");
    reveal_strlit("name");
    reveal_strlit("names");
    reveal_strlit("sender");
    reveal_strlit("receivers");
    reveal_strlit("links");
    let ns = meta_names();
    assert(ns.len() == 10);
    assert forall|i: int, j: int| 0 <= i < j < ns.len() implies ns[i] != ns[j] by {
        assert("schema"@.len() == 6);
        assert("id"@.len() == 2);
        assert("test"@.len() == 4);
        assert("prepared"@.len() == 8);
        assert("contentLanguages"@.len() == 16);
        assert("name"@.len() == 4);
        assert("names"@.len() == 5);
        assert("sender"@.len() == 6);
        assert("receivers"@.len() == 9);
        assert("links"@.len() == 5);
        assert("schema"@[1] == 'c');
        assert("sender"@[1] == 'e');
        assert("test"@[0] == 't');
        assert("name"@[0] == 'n');
        assert("names"@[0] == 'n');
        assert("links"@[0] == 'l');
    }
}

impl JsonForm for Meta {
    open spec fn wf(&self) -> bool {
        &&& ext_ok(self.other.view_fields(), meta_names())
        &&& ovec_wf(self.content_languages)
        &&& orec_wf(self.names)
        &&& self.sender.wf()
        &&& ovec_wf(self.receivers)
        &&& ovec_wf(self.links)
    }

    open spec fn ser(&self) -> JVal {
        JVal::Obj(present_fields(meta_pairs(*self)) + self.other.view_fields())
    }

    open spec fn doc_ok(v: JVal) -> bool {
        &&& v is Obj
        &&& {
            let fs = v->Obj_0;
            &&& is_opt_str(jv_get(fs, "schema"@))
            &&& is_req_str(jv_get(fs, "id"@))
            &&& is_opt_bool(jv_get(fs, "test"@))
            &&& is_req_str(jv_get(fs, "prepared"@))
            &&& is_opt_recarr::<String>(jv_get(fs, "contentLanguages"@))
            &&& is_opt_str(jv_get(fs, "name"@))
            &&& is_opt_rec::<LocalizedText>(jv_get(fs, "names"@))
            &&& is_req_rec::<Party>(jv_get(fs, "sender"@))
            &&& is_om::<Party>(jv_get(fs, "receivers"@))
            &&& is_opt_recarr::<Link>(jv_get(fs, "links"@))
        }
    }

    open spec fn doc_norm(v: JVal) -> JVal {
        JVal::Obj(
            present_fields(meta_norm_pairs(v->Obj_0)) + ext_fields(v->Obj_0, meta_names()),
        )
    }

    fn from_json(v: JsonValue) -> (r: Result<Self, ParseError>) {
        let o = match v {
            JsonValue::Obj(o) => o,
            _ => { return Err(ParseError::NotObject) },
        };
        let ghost fs = jview_field_vec(o);
        let mut bag = FieldBag::new(o);
        proof {
            lemma_meta_names_distinct();
        }
        proof {
            assert(bag.taken() =~= meta_names().subrange(0, 0));
            crate::codec::lemma_take_fresh(meta_names(), 0, bag.taken());
        }
        let schema = match get_opt_string(bag.take("schema"), "schema") {
            Ok(x) => x,
            Err(e) => { return Err(e) },
        };
        proof {
            assert(bag.taken() =~= meta_names().subrange(0, 1));
            crate::codec::lemma_take_fresh(meta_names(), 1, bag.taken());
        }
        let id = match get_req_string(bag.take("id"), "id") {
            Ok(x) => x,
            Err(e) => { return Err(e) },
        };
        proof {
            assert(bag.taken() =~= meta_names().subrange(0, 2));
            crate::codec::lemma_take_fresh(meta_names(), 2, bag.taken());
        }
        let test = match get_opt_bool(bag.take("test"), "test") {
            Ok(x) => x,
            Err(e) => { return Err(e) },
        };
        proof {
            assert(bag.taken() =~= meta_names().subrange(0, 3));
            crate::codec::lemma_take_fresh(meta_names(), 3, bag.taken());
        }
        let prepared = match get_req_string(bag.take("prepared"), "prepared") {
            Ok(x) => x,
            Err(e) => { return Err(e) },
        };
        proof {
            assert(bag.taken() =~= meta_names().subrange(0, 4));
            crate::codec::lemma_take_fresh(meta_names(), 4, bag.taken());
        }
        let content_languages = match parse_opt_vec::<String>(bag.take("contentLanguages"), "contentLanguages") {
            Ok(x) => x,
            Err(e) => { return Err(e) },
        };
        proof {
            assert(bag.taken() =~= meta_names().subrange(0, 5));
            crate::codec::lemma_take_fresh(meta_names(), 5, bag.taken());
        }
        let name = match get_opt_string(bag.take("name"), "name") {
            Ok(x) => x,
            Err(e) => { return Err(e) },
        };
        proof {
            assert(bag.taken() =~= meta_names().subrange(0, 6));
            crate::codec::lemma_take_fresh(meta_names(), 6, bag.taken());
        }
        let names = match parse_opt::<LocalizedText>(bag.take("names")) {
            Ok(x) => x,
            Err(e) => { return Err(e) },
        };
        proof {
            assert(bag.taken() =~= meta_names().subrange(0, 7));
            crate::codec::lemma_take_fresh(meta_names(), 7, bag.taken());
        }
        let sender = match parse_req::<Party>(bag.take("sender"), "sender") {
            Ok(x) => x,
            Err(e) => { return Err(e) },
        };
        proof {
            assert(bag.taken() =~= meta_names().subrange(0, 8));
            crate::codec::lemma_take_fresh(meta_names(), 8, bag.taken());
        }
        let receivers = match parse_one_many::<Party>(bag.take("receivers")) {
            Ok(x) => x,
            Err(e) => { return Err(e) },
        };
        proof {
            assert(bag.taken() =~= meta_names().subrange(0, 9));
            crate::codec::lemma_take_fresh(meta_names(), 9, bag.taken());
        }
        let links = match parse_opt_vec::<Link>(bag.take("links"), "links") {
            Ok(x) => x,
            Err(e) => { return Err(e) },
        };
        let ghost tk = bag.taken();
        let other = bag.rest();
        let out = Meta { schema, id, test, prepared, content_languages, name, names, sender, receivers, links, other };
        proof {
            assert(tk =~= meta_names());
            crate::codec::lemma_ext_fields_names(fs, tk);
            assert(meta_pairs(out) =~= meta_norm_pairs(fs));
        }
        Ok(out)
    }

    fn to_json(&self) -> (r: JsonValue) {
        let mut b = ObjBuilder::new();
        put_opt_str(&mut b, "schema", &self.schema);
        put_str(&mut b, "id", &self.id);
        put_opt_bool(&mut b, "test", &self.test);
        put_str(&mut b, "prepared", &self.prepared);
        put_opt_vec(&mut b, "contentLanguages", &self.content_languages);
        put_opt_str(&mut b, "name", &self.name);
        put_opt_rec(&mut b, "names", &self.names);
        put_rec(&mut b, "sender", &self.sender);
        put_one_many(&mut b, "receivers", &self.receivers);
        put_opt_vec(&mut b, "links", &self.links);
        proof {
            let ps = meta_pairs(*self);
            lemma_pairs_chain(ps, 10);
            assert(ps.subrange(0, 10) =~= ps);
            assert(b.view_fields() == present_fields(ps)) by {
                reveal_with_fuel(pairs_prefix_chunks, 11);
            }
        }
        finish_with_ext(b, &self.other)
    }

    proof fn lemma_canon(&self) {
        lemma_meta_names_distinct();
        let ps = meta_pairs(*self);
        let ext = self.other.view_fields();
        assert(names_of(ps) =~= meta_names());
        assert(distinct_names(ps)) by {
            assert forall|i: int, j: int|
                0 <= i < j < ps.len() implies ps[i].0 != ps[j].0 by {
                assert(ps[i].0 == meta_names()[i]);
                assert(ps[j].0 == meta_names()[j]);
            }
        }
        assert(disjoint_from(ext, ps)) by {
            assert forall|i: int, j: int|
                0 <= i < ext.len() && 0 <= j < ps.len() implies ext[i].0 != ps[j].0 by {
                assert(!is_known_name(ext[i].0, meta_names()));
                assert(meta_names()[j] == ps[j].0);
            }
        }
        lemma_jv_get_present(ps, ext);
        lemma_ext_of_present(ps, ext);
        let fs = self.ser()->Obj_0;
        assert(jv_get(fs, "schema"@) == ps[0].1);
        assert(jv_get(fs, "id"@) == ps[1].1);
        assert(jv_get(fs, "test"@) == ps[2].1);
        assert(jv_get(fs, "prepared"@) == ps[3].1);
        assert(jv_get(fs, "contentLanguages"@) == ps[4].1);
        assert(jv_get(fs, "name"@) == ps[5].1);
        assert(jv_get(fs, "names"@) == ps[6].1);
        assert(jv_get(fs, "sender"@) == ps[7].1);
        assert(jv_get(fs, "receivers"@) == ps[8].1);
        assert(jv_get(fs, "links"@) == ps[9].1);
        match &self.content_languages {
            Some(v) => {
                lemma_arr_canon::<String>(v@);
            },
            None => {},
        }
        match self.names {
            Some(t) => {
                t.lemma_canon();
            },
            None => {},
        }
        self.sender.lemma_canon();
        match &self.receivers {
            Some(v) => {
                lemma_arr_canon::<Party>(v@);
                if v@.len() == 1 {
                    assert(v@[0].wf());
                    v@[0].lemma_canon();
                }
            },
            None => {},
        }
        match &self.links {
            Some(v) => {
                lemma_arr_canon::<Link>(v@);
            },
            None => {},
        }
        assert(Self::doc_ok(self.ser()));
        assert(meta_norm_pairs(fs) =~= ps);
        assert(ext_fields(fs, names_of(ps)) == ext);
        assert(ext_fields(fs, meta_names()) == ext);
    }
}


/// An untyped value: text, integer, non-integral number (as its decimal
/// text), boolean, localized text, or a nested array.
#[derive(Debug, PartialEq)]
pub enum SdmxValue {
    Null,
    String(String),
    Integer(isize),
    Number(String),
    Boolean(bool),
    LocalizedText(LocalizedText),
    Array(Vec<SdmxValue>),
}

/// The document of an untyped value; the wire shape alone identifies the
/// variant, so re-serialization reproduces the input exactly.
pub open spec fn sv_ser(x: SdmxValue) -> JVal
    decreases x,
{
    match x {
        SdmxValue::Null => JVal::Null,
        SdmxValue::String(s) => JVal::Str(s@),
        SdmxValue::Integer(i) => JVal::Int(i as int),
        SdmxValue::Number(s) => JVal::Num(s@),
        SdmxValue::Boolean(b) => JVal::Bool(b),
        SdmxValue::LocalizedText(lt) => JVal::Obj(lt_entries(lt.0@)),
        SdmxValue::Array(a) => JVal::Arr(sv_ser_vec(a)),
    }
}

pub open spec fn sv_ser_vec(a: Vec<SdmxValue>) -> Seq<JVal>
    decreases a,
{
    sv_ser_seq(a@)
}

pub open spec fn sv_ser_seq(s: Seq<SdmxValue>) -> Seq<JVal>
    decreases s,
{
    if s.len() == 0 {
        Seq::empty()
    } else {
        seq![sv_ser(s[0])] + sv_ser_seq(s.subrange(1, s.len() as int))
    }
}

pub proof fn lemma_sv_ser_seq(s: Seq<SdmxValue>)
    ensures
        sv_ser_seq(s).len() == s.len(),
        forall|i: int| 0 <= i < s.len() ==> #[trigger] sv_ser_seq(s)[i] == sv_ser(s[i]),
    decreases s.len(),
{
    if s.len() > 0 {
        lemma_sv_ser_seq(s.subrange(1, s.len() as int));
    }
}

pub proof fn lemma_sv_ser_seq_push(s: Seq<SdmxValue>, x: SdmxValue)
    ensures
        sv_ser_seq(s.push(x)) == sv_ser_seq(s).push(sv_ser(x)),
{
    lemma_sv_ser_seq(s.push(x));
    lemma_sv_ser_seq(s);
    assert(sv_ser_seq(s.push(x)) =~= sv_ser_seq(s).push(sv_ser(x)));
}

/// Which documents are untyped values.
pub open spec fn sv_ok(v: JVal) -> bool
    decreases v,
{
    match v {
        JVal::Null => true,
        JVal::Bool(_) => true,
        JVal::Int(i) => isize::MIN as int <= i <= isize::MAX as int,
        JVal::Num(_) => true,
        JVal::Str(_) => true,
        JVal::Obj(fs) => sv_ok_fields(fs),
        JVal::Arr(s) => sv_ok_seq(s),
    }
}

pub open spec fn sv_ok_fields(fs: Seq<(Seq<char>, JVal)>) -> bool {
    forall|i: int| 0 <= i < fs.len() ==> ((#[trigger] fs[i]).1 is Str)
}

pub open spec fn sv_ok_seq(s: Seq<JVal>) -> bool
    decreases s,
{
    if s.len() == 0 {
        true
    } else {
        sv_ok(s[0]) && sv_ok_seq(s.subrange(1, s.len() as int))
    }
}

pub proof fn lemma_sv_ok_seq(s: Seq<JVal>)
    ensures
        sv_ok_seq(s) <==> (forall|i: int| 0 <= i < s.len() ==> sv_ok(#[trigger] s[i])),
    decreases s.len(),
{
    if s.len() > 0 {
        lemma_sv_ok_seq(s.subrange(1, s.len() as int));
        let rest = s.subrange(1, s.len() as int);
        assert(forall|i: int| 0 <= i < rest.len() ==> rest[i] == s[i + 1]);
        if sv_ok(s[0]) && (forall|i: int| 0 <= i < rest.len() ==> sv_ok(#[trigger] rest[i])) {
            assert forall|i: int| 0 <= i < s.len() implies sv_ok(#[trigger] s[i]) by {
                if i > 0 {
                    assert(rest[i - 1] == s[i]);
                }
            }
        }
    }
}

impl SdmxValue {
    /// Parses an untyped value; the wire shape alone decides the variant, so
    /// repeated parses of one input always take the same shape.
    #[verifier::loop_isolation(false)]
    pub fn parse_value(v: JsonValue) -> (r: Result<SdmxValue, ParseError>)
        ensures
            (r is Ok) == sv_ok(jview(v)),
            r matches Ok(x) ==> sv_ser(x) == jview(v),
        decreases v,
    {
        match v {
            JsonValue::Null => Ok(SdmxValue::Null),
            JsonValue::Bool(b) => Ok(SdmxValue::Boolean(b)),
            JsonValue::Int(i) => {
                if i >= (isize::MIN as i64) && i <= (isize::MAX as i64) {
                    Ok(SdmxValue::Integer(i as isize))
                } else {
                    Err(ParseError::Shape("value".to_owned(), crate::fields::ValueKind::Integer))
                }
            },
            JsonValue::UInt(u) => {
                if u <= (isize::MAX as u64) {
                    Ok(SdmxValue::Integer(u as isize))
                } else {
                    Err(ParseError::Shape("value".to_owned(), crate::fields::ValueKind::Integer))
                }
            },
            JsonValue::Num(s) => Ok(SdmxValue::Number(s)),
            JsonValue::Str(s) => Ok(SdmxValue::String(s)),
            JsonValue::Obj(o) => {
                match LocalizedText::from_json(JsonValue::Obj(o)) {
                    Ok(lt) => Ok(SdmxValue::LocalizedText(lt)),
                    Err(e) => Err(e),
                }
            },
            JsonValue::Arr(items0) => {
                let ghost whole = v;
                let ghost ga = items0@;
                let ghost all = crate::json::jview_seq(ga);
                proof {
                    crate::json::lemma_jview_seq(ga);
                    assert(sv_ser_seq(Seq::<SdmxValue>::empty()) =~= Seq::<JVal>::empty());
                    assert(all.subrange(0, 0) =~= Seq::<JVal>::empty());
                    lemma_sv_ok_seq(all);
                }
                let mut items = items0;
                let mut out: Vec<SdmxValue> = Vec::new();
                let ghost mut done: int = 0;
                while items.len() > 0
                    invariant
                        0 <= done <= all.len(),
                        ga.len() == all.len(),
                        items@ =~= ga.subrange(done, ga.len() as int),
                        forall|i: int|
                            0 <= i < items@.len() ==> jview(#[trigger] items@[i]) == all[done + i],
                        out@.len() == done,
                        forall|i: int| 0 <= i < done ==> sv_ok(#[trigger] all[i]),
                        sv_ser_seq(out@) =~= all.subrange(0, done),
                    decreases items@.len(),
                {
                    let ghost pre = items@;
                    let elem = items.remove(0);
                    proof {
                        assert(elem == pre[0]);
                        assert(pre[0] == ga[done]);
                        assert(decreases_to!(whole => items0));
                        assert(decreases_to!(items0 => ga));
                        assert(decreases_to!(ga => ga[done]));
                        assert(decreases_to!(whole => elem));
                        assert(items@ =~= ga.subrange(done + 1, ga.len() as int));
                    }
                    match SdmxValue::parse_value(elem) {
                        Ok(x) => {
                            proof {
                                lemma_sv_ser_seq_push(out@, x);
                                assert(all.subrange(0, done).push(all[done]) =~= all.subrange(
                                    0,
                                    done + 1,
                                ));
                            }
                            out.push(x);
                        },
                        Err(e) => {
                            proof {
                                assert(!sv_ok(all[done]));
                            }
                            return Err(e);
                        },
                    }
                    proof {
                        done = done + 1;
                    }
                }
                proof {
                    assert(all.subrange(0, all.len() as int) =~= all);
                }
                Ok(SdmxValue::Array(out))
            },
        }
    }

    /// Re-emits an untyped value in the shape it was parsed from.
    #[verifier::loop_isolation(false)]
    pub fn emit_value(&self) -> (r: JsonValue)
        ensures
            jview(r) == sv_ser(*self),
        decreases *self,
    {
        match self {
            SdmxValue::Null => JsonValue::Null,
            SdmxValue::String(s) => JsonValue::Str(s.clone()),
            SdmxValue::Integer(i) => crate::fields::json_of_isize(*i),
            SdmxValue::Number(s) => JsonValue::Num(s.clone()),
            SdmxValue::Boolean(b) => JsonValue::Bool(*b),
            SdmxValue::LocalizedText(lt) => lt.to_json(),
            SdmxValue::Array(a) => {
                let mut out: Vec<JsonValue> = Vec::new();
                let mut i: usize = 0;
                proof {
                    assert(crate::json::jview_seq(Seq::<JsonValue>::empty()) =~= Seq::<
                        JVal,
                    >::empty());
                    assert(sv_ser_seq(a@.subrange(0, 0)) =~= Seq::<JVal>::empty());
                }
                while i < a.len()
                    invariant
                        i <= a@.len(),
                        crate::json::jview_seq(out@) == sv_ser_seq(a@.subrange(0, i as int)),
                    decreases a@.len() - i,
                {
                    proof {
                        assert(decreases_to!(a@ => a@[i as int]));
                    }
                    let c = a[i].emit_value();
                    proof {
                        crate::json::lemma_jview_seq_push(out@, c);
                        lemma_sv_ser_seq_push(a@.subrange(0, i as int), a@[i as int]);
                        assert(a@.subrange(0, i as int).push(a@[i as int]) =~= a@.subrange(
                            0,
                            i as int + 1,
                        ));
                    }
                    out.push(c);
                    i = i + 1;
                }
                proof {
                    assert(a@.subrange(0, a@.len() as int) =~= a@);
                }
                JsonValue::Arr(out)
            },
        }
    }

    /// The document of an untyped value always parses back.
    pub proof fn lemma_value_canon(&self)
        ensures
            sv_ok(sv_ser(*self)),
        decreases *self,
    {
        match self {
            SdmxValue::LocalizedText(lt) => {
                lemma_lt_entries(lt.0@);
            },
            SdmxValue::Array(a) => {
                lemma_sv_canon_seq(a@);
            },
            _ => {},
        }
    }
}

pub proof fn lemma_sv_canon_seq(s: Seq<SdmxValue>)
    ensures
        sv_ok_seq(sv_ser_seq(s)),
    decreases s,
{
    if s.len() > 0 {
        let h = s[0];
        h.lemma_value_canon();
        lemma_sv_canon_seq(s.subrange(1, s.len() as int));
        lemma_sv_ser_seq(s);
        let t = sv_ser_seq(s);
        assert(t[0] == sv_ser(s[0]));
        assert(t.subrange(1, t.len() as int) =~= sv_ser_seq(s.subrange(1, s.len() as int))) by {
            lemma_sv_ser_seq(s.subrange(1, s.len() as int));
            assert(forall|i: int|
                0 <= i < s.len() - 1 ==> #[trigger] s.subrange(1, s.len() as int)[i] == s[i + 1]);
        }
    }
}

impl JsonForm for SdmxValue {
    open spec fn wf(&self) -> bool {
        true
    }

    open spec fn ser(&self) -> JVal {
        sv_ser(*self)
    }

    open spec fn doc_ok(v: JVal) -> bool {
        sv_ok(v)
    }

    open spec fn doc_norm(v: JVal) -> JVal {
        v
    }

    fn from_json(v: JsonValue) -> (r: Result<Self, ParseError>) {
        SdmxValue::parse_value(v)
    }

    fn to_json(&self) -> (r: JsonValue) {
        self.emit_value()
    }

    proof fn lemma_canon(&self) {
        self.lemma_value_canon();
    }
}

/// An object of keys mapping to untyped values, kept in wire order.
#[derive(Debug, PartialEq)]
pub struct SdmxObject(pub Vec<(String, SdmxValue)>);

/// The document form of the entries of a keyed value object.
pub open spec fn so_entries(s: Seq<(String, SdmxValue)>) -> Seq<(Seq<char>, JVal)>
    decreases s.len(),
{
    if s.len() == 0 {
        Seq::empty()
    } else {
        seq![(s[0].0@, sv_ser(s[0].1))] + so_entries(s.drop_first())
    }
}

pub proof fn lemma_so_entries(s: Seq<(String, SdmxValue)>)
    ensures
        so_entries(s).len() == s.len(),
        forall|i: int|
            0 <= i < s.len() ==> #[trigger] so_entries(s)[i] == (s[i].0@, sv_ser(s[i].1)),
    decreases s.len(),
{
    if s.len() > 0 {
        lemma_so_entries(s.drop_first());
    }
}

pub proof fn lemma_so_entries_push(s: Seq<(String, SdmxValue)>, e: (String, SdmxValue))
    ensures
        so_entries(s.push(e)) == so_entries(s).push((e.0@, sv_ser(e.1))),
{
    lemma_so_entries(s.push(e));
    lemma_so_entries(s);
    assert(so_entries(s.push(e)) =~= so_entries(s).push((e.0@, sv_ser(e.1))));
}

impl JsonForm for SdmxObject {
    open spec fn wf(&self) -> bool {
        true
    }

    open spec fn ser(&self) -> JVal {
        JVal::Obj(so_entries(self.0@))
    }

    open spec fn doc_ok(v: JVal) -> bool {
        &&& v is Obj
        &&& forall|i: int| 0 <= i < v->Obj_0.len() ==> sv_ok((#[trigger] v->Obj_0[i]).1)
    }

    open spec fn doc_norm(v: JVal) -> JVal {
        v
    }

    #[verifier::loop_isolation(false)]
    fn from_json(v: JsonValue) -> (r: Result<Self, ParseError>) {
        let mut fs = match v {
            JsonValue::Obj(fs) => fs,
            _ => { return Err(ParseError::NotObject) },
        };
        let ghost all = jview_field_vec(fs);
        proof {
            crate::json::lemma_jview_field_seq(fs@);
        }
        let mut out: Vec<(String, SdmxValue)> = Vec::new();
        let ghost mut done: int = 0;
        while fs.len() > 0
            invariant
                0 <= done <= all.len(),
                fs@.len() == all.len() - done,
                forall|i: int|
                    0 <= i < fs@.len() ==> crate::json::jview_field(#[trigger] fs@[i]) == all[done
                        + i],
                out@.len() == done,
                forall|i: int| 0 <= i < done ==> sv_ok((#[trigger] all[i]).1),
                so_entries(out@) =~= all.subrange(0, done),
            decreases fs@.len(),
        {
            let (k, val) = fs.remove(0);
            match SdmxValue::parse_value(val) {
                Ok(x) => {
                    proof {
                        lemma_so_entries_push(out@, (k, x));
                        assert(all.subrange(0, done).push(all[done]) =~= all.subrange(
                            0,
                            done + 1,
                        ));
                    }
                    out.push((k, x));
                },
                Err(e) => {
                    proof {
                        assert(0 <= done < all.len());
                        assert(!sv_ok((all[done]).1));
                        assert(!Self::doc_ok(JVal::Obj(all))) by {
                            if Self::doc_ok(JVal::Obj(all)) {
                                let fsv = JVal::Obj(all)->Obj_0;
                                assert(fsv == all);
                                assert(0 <= done < fsv.len());
                                assert(sv_ok((fsv[done]).1));
                                assert(sv_ok((all[done]).1));
                            }
                        }
                    }
                    return Err(e);
                },
            }
            proof {
                done = done + 1;
            }
        }
        proof {
            assert(all.subrange(0, all.len() as int) =~= all);
        }
        Ok(SdmxObject(out))
    }

    #[verifier::loop_isolation(false)]
    fn to_json(&self) -> (r: JsonValue) {
        let mut out: Vec<(String, JsonValue)> = Vec::new();
        let mut i: usize = 0;
        proof {
            assert(jview_field_seq(Seq::<(String, JsonValue)>::empty()) =~= Seq::<
                (Seq<char>, JVal),
            >::empty());
            assert(so_entries(self.0@.subrange(0, 0)) =~= Seq::<(Seq<char>, JVal)>::empty());
        }
        while i < self.0.len()
            invariant
                i <= self.0@.len(),
                jview_field_seq(out@) == so_entries(self.0@.subrange(0, i as int)),
            decreases self.0@.len() - i,
        {
            let k = self.0[i].0.clone();
            let c = self.0[i].1.emit_value();
            proof {
                lemma_jview_field_seq_push(out@, (k, c));
                lemma_so_entries_push(self.0@.subrange(0, i as int), self.0@[i as int]);
                assert(self.0@.subrange(0, i as int).push(self.0@[i as int]) =~= self.0@.subrange(
                    0,
                    i as int + 1,
                ));
            }
            out.push((k, c));
            i = i + 1;
        }
        proof {
            assert(self.0@.subrange(0, self.0@.len() as int) =~= self.0@);
        }
        JsonValue::Obj(out)
    }

    proof fn lemma_canon(&self) {
        lemma_so_entries(self.0@);
        assert forall|i: int|
            0 <= i < so_entries(self.0@).len() implies sv_ok(
            (#[trigger] so_entries(self.0@)[i]).1,
        ) by {
            self.0@[i].1.lemma_value_canon();
        }
    }
}


/// The shared surface of the top-level message shapes: an optional header, an
/// optional payload, and an optional error list.
pub trait SdmxMessage {
    type Header;

    type Payload;

    spec fn meta_spec(&self) -> Option<Self::Header>;

    spec fn data_spec(&self) -> Option<Self::Payload>;

    spec fn errors_spec(&self) -> Option<Seq<StatusMessage>>;

    fn meta(&self) -> (r: Option<&Self::Header>)
        ensures
            (match r {
                Some(m) => self.meta_spec() == Some(*m),
                None => self.meta_spec() is None,
            }),
    ;

    fn data(&self) -> (r: Option<&Self::Payload>)
        ensures
            (match r {
                Some(d) => self.data_spec() == Some(*d),
                None => self.data_spec() is None,
            }),
    ;

    fn errors(&self) -> (r: Option<&Vec<StatusMessage>>)
        ensures
            (match r {
                Some(v) => self.errors_spec() == Some(v@),
                None => self.errors_spec() is None,
            }),
    ;
}


/// The header of a structure message: basic technical information with at
/// most one receiver.
#[derive(Debug, PartialEq)]
pub struct MetaSingleReceiver {
    pub schema: Option<String>,
    pub id: String,
    pub test: Option<bool>,
    pub prepared: String,
    pub content_languages: Option<Vec<String>>,
    pub name: Option<String>,
    pub names: Option<LocalizedText>,
    pub sender: Party,
    pub receiver: Option<Party>,
    pub links: Option<Vec<Link>>,
    pub other: Extensions,
}

pub open spec fn meta_single_receiver_names() -> Seq<Seq<char>> {
    seq!["schema"@, "id"@, "test"@, "prepared"@, "contentLanguages"@, "name"@, "names"@, "sender"@, "receiver"@, "links"@]
}

pub open spec fn meta_single_receiver_pairs(x: MetaSingleReceiver) -> Seq<(Seq<char>, Option<JVal>)> {
    seq![
        ("schema"@, jv_of_ostr(ostr_view(x.schema))),
        ("id"@, Some(JVal::Str(x.id@))),
        ("test"@, jv_of_obool(x.test)),
        ("prepared"@, Some(JVal::Str(x.prepared@))),
        ("contentLanguages"@, ovec_ser(x.content_languages)),
        ("name"@, jv_of_ostr(ostr_view(x.name))),
        ("names"@, orec_ser(x.names)),
        ("sender"@, Some(x.sender.ser())),
        ("receiver"@, orec_ser(x.receiver)),
        ("links"@, ovec_ser(x.links)),
    ]
}

pub open spec fn meta_single_receiver_norm_pairs(fs: Seq<(Seq<char>, JVal)>) -> Seq<(Seq<char>, Option<JVal>)> {
    seq![
        ("schema"@, jv_of_ostr(opt_str(jv_get(fs, "schema"@)))),
        ("id"@, jv_of_ostr(opt_str(jv_get(fs, "id"@)))),
        ("test"@, jv_of_obool(opt_bool(jv_get(fs, "test"@)))),
        ("prepared"@, jv_of_ostr(opt_str(jv_get(fs, "prepared"@)))),
        ("contentLanguages"@, opt_recarr_norm::<String>(jv_get(fs, "contentLanguages"@))),
        ("name"@, jv_of_ostr(opt_str(jv_get(fs, "name"@)))),
        ("names"@, opt_rec_norm::<LocalizedText>(jv_get(fs, "names"@))),
        ("sender"@, req_rec_norm::<Party>(jv_get(fs, "sender"@))),
        ("receiver"@, opt_rec_norm::<Party>(jv_get(fs, "receiver"@))),
        ("links"@, opt_recarr_norm::<Link>(jv_get(fs, "links"@))),
    ]
}

/// The names this record knows are pairwise distinct.
pub proof fn lemma_meta_single_receiver_names_distinct()
    ensures
        forall|i: int, j: int|
            0 <= i < j < meta_single_receiver_names().len() ==> meta_single_receiver_names()[i] != meta_single_receiver_names()[j],
{
    reveal_strlit("schema");
    reveal_strlit("id");
    reveal_strlit("test");
    reveal_strlit("prepared");
    reveal_strlit("contentLanguages");
    reveal_strlit("name");
    reveal_strlit("names");
    reveal_strlit("sender");
    reveal_strlit("receiver");
    reveal_strlit("links");
    let ns = meta_single_receiver_names();
    assert(ns.len() == 10);
    assert forall|i: int, j: int| 0 <= i < j < ns.len() implies ns[i] != ns[j] by {
        assert("schema"@.len() == 6);
        assert("id"@.len() == 2);
        assert("test"@.len() == 4);
        assert("prepared"@.len() == 8);
        assert("contentLanguages"@.len() == 16);
        assert("name"@.len() == 4);
        assert("names"@.len() == 5);
        assert("sender"@.len() == 6);
        assert("receiver"@.len() == 8);
        assert("links"@.len() == 5);
        assert("schema"@[1] == 'c');
        assert("sender"@[1] == 'e');
        assert("test"@[0] == 't');
        assert("name"@[0] == 'n');
        assert("prepared"@[0] == 'p');
        assert("receiver"@[0] == 'r');
        assert("names"@[0] == 'n');
        assert("links"@[0] == 'l');
    }
}

impl JsonForm for MetaSingleReceiver {
    open spec fn wf(&self) -> bool {
        &&& ext_ok(self.other.view_fields(), meta_single_receiver_names())
        &&& ovec_wf(self.content_languages)
        &&& orec_wf(self.names)
        &&& self.sender.wf()
        &&& orec_wf(self.receiver)
        &&& ovec_wf(self.links)
    }

    open spec fn ser(&self) -> JVal {
        JVal::Obj(present_fields(meta_single_receiver_pairs(*self)) + self.other.view_fields())
    }

    open spec fn doc_ok(v: JVal) -> bool {
        &&& v is Obj
        &&& {
            let fs = v->Obj_0;
            &&& is_opt_str(jv_get(fs, "schema"@))
            &&& is_req_str(jv_get(fs, "id"@))
            &&& is_opt_bool(jv_get(fs, "test"@))
            &&& is_req_str(jv_get(fs, "prepared"@))
            &&& is_opt_recarr::<String>(jv_get(fs, "contentLanguages"@))
            &&& is_opt_str(jv_get(fs, "name"@))
            &&& is_opt_rec::<LocalizedText>(jv_get(fs, "names"@))
            &&& is_req_rec::<Party>(jv_get(fs, "sender"@))
            &&& is_opt_rec::<Party>(jv_get(fs, "receiver"@))
            &&& is_opt_recarr::<Link>(jv_get(fs, "links"@))
        }
    }

    open spec fn doc_norm(v: JVal) -> JVal {
        JVal::Obj(
            present_fields(meta_single_receiver_norm_pairs(v->Obj_0)) + ext_fields(v->Obj_0, meta_single_receiver_names()),
        )
    }

    #[verifier::rlimit(50)]
    fn from_json(v: JsonValue) -> (r: Result<Self, ParseError>) {
        let o = match v {
            JsonValue::Obj(o) => o,
            _ => { return Err(ParseError::NotObject) },
        };
        let ghost fs = jview_field_vec(o);
        let mut bag = FieldBag::new(o);
        proof {
            lemma_meta_single_receiver_names_distinct();
        }
        proof {
            assert(bag.taken() =~= meta_single_receiver_names().subrange(0, 0));
            crate::codec::lemma_take_fresh(meta_single_receiver_names(), 0, bag.taken());
        }
        let schema = match get_opt_string(bag.take("schema"), "schema") {
            Ok(x) => x,
            Err(e) => { return Err(e) },
        };
        proof {
            assert(bag.taken() =~= meta_single_receiver_names().subrange(0, 1));
            crate::codec::lemma_take_fresh(meta_single_receiver_names(), 1, bag.taken());
        }
        let id = match get_req_string(bag.take("id"), "id") {
            Ok(x) => x,
            Err(e) => { return Err(e) },
        };
        proof {
            assert(bag.taken() =~= meta_single_receiver_names().subrange(0, 2));
            crate::codec::lemma_take_fresh(meta_single_receiver_names(), 2, bag.taken());
        }
        let test = match get_opt_bool(bag.take("test"), "test") {
            Ok(x) => x,
            Err(e) => { return Err(e) },
        };
        proof {
            assert(bag.taken() =~= meta_single_receiver_names().subrange(0, 3));
            crate::codec::lemma_take_fresh(meta_single_receiver_names(), 3, bag.taken());
        }
        let prepared = match get_req_string(bag.take("prepared"), "prepared") {
            Ok(x) => x,
            Err(e) => { return Err(e) },
        };
        proof {
            assert(bag.taken() =~= meta_single_receiver_names().subrange(0, 4));
            crate::codec::lemma_take_fresh(meta_single_receiver_names(), 4, bag.taken());
        }
        let content_languages = match parse_opt_vec::<String>(bag.take("contentLanguages"), "contentLanguages") {
            Ok(x) => x,
            Err(e) => { return Err(e) },
        };
        proof {
            assert(bag.taken() =~= meta_single_receiver_names().subrange(0, 5));
            crate::codec::lemma_take_fresh(meta_single_receiver_names(), 5, bag.taken());
        }
        let name = match get_opt_string(bag.take("name"), "name") {
            Ok(x) => x,
            Err(e) => { return Err(e) },
        };
        proof {
            assert(bag.taken() =~= meta_single_receiver_names().subrange(0, 6));
            crate::codec::lemma_take_fresh(meta_single_receiver_names(), 6, bag.taken());
        }
        let names = match parse_opt::<LocalizedText>(bag.take("names")) {
            Ok(x) => x,
            Err(e) => { return Err(e) },
        };
        proof {
            assert(bag.taken() =~= meta_single_receiver_names().subrange(0, 7));
            crate::codec::lemma_take_fresh(meta_single_receiver_names(), 7, bag.taken());
        }
        let sender = match parse_req::<Party>(bag.take("sender"), "sender") {
            Ok(x) => x,
            Err(e) => { return Err(e) },
        };
        proof {
            assert(bag.taken() =~= meta_single_receiver_names().subrange(0, 8));
            crate::codec::lemma_take_fresh(meta_single_receiver_names(), 8, bag.taken());
        }
        let receiver = match parse_opt::<Party>(bag.take("receiver")) {
            Ok(x) => x,
            Err(e) => { return Err(e) },
        };
        proof {
            assert(bag.taken() =~= meta_single_receiver_names().subrange(0, 9));
            crate::codec::lemma_take_fresh(meta_single_receiver_names(), 9, bag.taken());
        }
        let links = match parse_opt_vec::<Link>(bag.take("links"), "links") {
            Ok(x) => x,
            Err(e) => { return Err(e) },
        };
        let ghost tk = bag.taken();
        let other = bag.rest();
        let out = MetaSingleReceiver { schema, id, test, prepared, content_languages, name, names, sender, receiver, links, other };
        proof {
            assert(tk =~= meta_single_receiver_names());
            crate::codec::lemma_ext_fields_names(fs, tk);
            assert(meta_single_receiver_pairs(out) =~= meta_single_receiver_norm_pairs(fs));
        }
        Ok(out)
    }

    fn to_json(&self) -> (r: JsonValue) {
        let mut b = ObjBuilder::new();
        put_opt_str(&mut b, "schema", &self.schema);
        put_str(&mut b, "id", &self.id);
        put_opt_bool(&mut b, "test", &self.test);
        put_str(&mut b, "prepared", &self.prepared);
        put_opt_vec(&mut b, "contentLanguages", &self.content_languages);
        put_opt_str(&mut b, "name", &self.name);
        put_opt_rec(&mut b, "names", &self.names);
        put_rec(&mut b, "sender", &self.sender);
        put_opt_rec(&mut b, "receiver", &self.receiver);
        put_opt_vec(&mut b, "links", &self.links);
        proof {
            let ps = meta_single_receiver_pairs(*self);
            lemma_pairs_chain(ps, 10);
            assert(ps.subrange(0, 10) =~= ps);
            assert(b.view_fields() == present_fields(ps)) by {
                reveal_with_fuel(pairs_prefix_chunks, 11);
            }
        }
        finish_with_ext(b, &self.other)
    }

    #[verifier::rlimit(50)]
    #[verifier::spinoff_prover]
    proof fn lemma_canon(&self) {
        lemma_meta_single_receiver_names_distinct();
        let ps = meta_single_receiver_pairs(*self);
        let ext = self.other.view_fields();
        assert(names_of(ps) =~= meta_single_receiver_names());
        assert(distinct_names(ps)) by {
            assert forall|i: int, j: int|
                0 <= i < j < ps.len() implies ps[i].0 != ps[j].0 by {
                assert(ps[i].0 == meta_single_receiver_names()[i]);
                assert(ps[j].0 == meta_single_receiver_names()[j]);
            }
        }
        assert(disjoint_from(ext, ps)) by {
            assert forall|i: int, j: int|
                0 <= i < ext.len() && 0 <= j < ps.len() implies ext[i].0 != ps[j].0 by {
                assert(!is_known_name(ext[i].0, meta_single_receiver_names()));
                assert(meta_single_receiver_names()[j] == ps[j].0);
            }
        }
        lemma_jv_get_present(ps, ext);
        lemma_ext_of_present(ps, ext);
        let fs = self.ser()->Obj_0;
        assert(jv_get(fs, "schema"@) == ps[0].1);
        assert(jv_get(fs, "id"@) == ps[1].1);
        assert(jv_get(fs, "test"@) == ps[2].1);
        assert(jv_get(fs, "prepared"@) == ps[3].1);
        assert(jv_get(fs, "contentLanguages"@) == ps[4].1);
        assert(jv_get(fs, "name"@) == ps[5].1);
        assert(jv_get(fs, "names"@) == ps[6].1);
        assert(jv_get(fs, "sender"@) == ps[7].1);
        assert(jv_get(fs, "receiver"@) == ps[8].1);
        assert(jv_get(fs, "links"@) == ps[9].1);
        match &self.content_languages {
            Some(v) => {
                lemma_arr_canon::<String>(v@);
            },
            None => {},
        }
        match self.names {
            Some(t) => {
                t.lemma_canon();
            },
            None => {},
        }
        self.sender.lemma_canon();
        match self.receiver {
            Some(t) => {
                t.lemma_canon();
            },
            None => {},
        }
        match &self.links {
            Some(v) => {
                lemma_arr_canon::<Link>(v@);
            },
            None => {},
        }
        assert(Self::doc_ok(self.ser()));
        assert(meta_single_receiver_norm_pairs(fs)[0] == ps[0]);
        assert(meta_single_receiver_norm_pairs(fs)[1] == ps[1]);
        assert(meta_single_receiver_norm_pairs(fs)[2] == ps[2]);
        assert(meta_single_receiver_norm_pairs(fs)[3] == ps[3]);
        assert(meta_single_receiver_norm_pairs(fs)[4] == ps[4]);
        assert(meta_single_receiver_norm_pairs(fs)[5] == ps[5]);
        assert(meta_single_receiver_norm_pairs(fs)[6] == ps[6]);
        assert(meta_single_receiver_norm_pairs(fs)[7] == ps[7]);
        assert(meta_single_receiver_norm_pairs(fs)[8] == ps[8]);
        assert(meta_single_receiver_norm_pairs(fs)[9] == ps[9]);
        assert(meta_single_receiver_norm_pairs(fs) =~= ps);
        assert(ext_fields(fs, names_of(ps)) == ext);
        assert(ext_fields(fs, meta_single_receiver_names()) == ext);
    }
}

} // verus!
