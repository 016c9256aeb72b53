//! The shared shape of every record's wire form: a spec-level serializer, a
//! parse-success predicate, and a normal form, tied together by the
//! round-trip obligation `doc_norm(ser(x)) == ser(x)`.

use vstd::prelude::*;

use crate::fields::{
    Extensions, ObjBuilder, ParseError, get_opt_arr, get_req_arr, json_of_isize, json_of_usize,
};
use crate::json::jv_opt;
use crate::json::{
    JVal, JsonValue, ext_fields, is_known_name, jv_get, jview, jview_seq, lemma_jview_seq_push,
    remove_name,
};

verus! {

/// A record type with a document form.
///
/// `ser` is the record's document; `doc_ok` says which documents parse;
/// `doc_norm` is the document that parsing and re-serializing produces.
/// `lemma_canon` is the round-trip law: a serialized record parses, and
/// re-serializing the parse yields the same document.
pub trait JsonForm: Sized {
    /// Internal consistency: the extension side table holds no known name,
    /// and every child record is well formed in turn.
    spec fn wf(&self) -> bool;

    /// The record as a document.
    spec fn ser(&self) -> JVal;

    /// The documents this record parses from.
    spec fn doc_ok(v: JVal) -> bool;

    /// The document that parse-then-serialize yields; meaningful only when
    /// `doc_ok` holds.
    spec fn doc_norm(v: JVal) -> JVal;

    fn from_json(v: JsonValue) -> (r: Result<Self, ParseError>)
        ensures
            (r is Ok) == Self::doc_ok(jview(v)),
            r matches Ok(x) ==> x.wf() && x.ser() == Self::doc_norm(jview(v));

    fn to_json(&self) -> (r: JsonValue)
        ensures
            jview(r) == self.ser(),
    ;

    /// The round-trip law for one record.
    proof fn lemma_canon(&self)
        requires
            self.wf(),
        ensures
            Self::doc_ok(self.ser()),
            Self::doc_norm(self.ser()) == self.ser(),
    ;
}

/// The field list a record emits: one slot per known name, in canonical
/// order, where an absent optional field holds `None`.
pub open spec fn present_fields(ps: Seq<(Seq<char>, Option<JVal>)>) -> Seq<(Seq<char>, JVal)>
    decreases ps.len(),
{
    if ps.len() == 0 {
        Seq::empty()
    } else {
        let rest = present_fields(ps.drop_first());
        match ps[0].1 {
            Some(v) => seq![(ps[0].0, v)] + rest,
            None => rest,
        }
    }
}

/// The names of the slots, in order.
pub open spec fn names_of(ps: Seq<(Seq<char>, Option<JVal>)>) -> Seq<Seq<char>> {
    Seq::new(ps.len(), |i: int| ps[i].0)
}

pub open spec fn distinct_names(ps: Seq<(Seq<char>, Option<JVal>)>) -> bool {
    forall|i: int, j: int| 0 <= i < j < ps.len() ==> ps[i].0 != ps[j].0
}

pub open spec fn disjoint_from(ext: Seq<(Seq<char>, JVal)>, ps: Seq<(Seq<char>, Option<JVal>)>) -> bool {
    forall|i: int, j: int| 0 <= i < ext.len() && 0 <= j < ps.len() ==> ext[i].0 != ps[j].0
}

pub proof fn lemma_jv_get_concat(a: Seq<(Seq<char>, JVal)>, b: Seq<(Seq<char>, JVal)>, n: Seq<char>)
    ensures
        jv_get(a + b, n) == (match jv_get(a, n) {
            Some(v) => Some(v),
            None => jv_get(b, n),
        }),
    decreases a.len(),
{
    if a.len() == 0 {
        assert(a + b =~= b);
    } else {
        assert((a + b).drop_first() =~= a.drop_first() + b);
        lemma_jv_get_concat(a.drop_first(), b, n);
    }
}

pub proof fn lemma_jv_get_absent(fs: Seq<(Seq<char>, JVal)>, n: Seq<char>)
    requires
        forall|i: int| 0 <= i < fs.len() ==> fs[i].0 != n,
    ensures
        jv_get(fs, n) is None,
    decreases fs.len(),
{
    if fs.len() > 0 {
        assert(forall|i: int|
            0 <= i < fs.drop_first().len() ==> fs.drop_first()[i] == fs[i + 1]);
        lemma_jv_get_absent(fs.drop_first(), n);
    }
}

pub proof fn lemma_remove_absent(fs: Seq<(Seq<char>, JVal)>, n: Seq<char>)
    requires
        forall|i: int| 0 <= i < fs.len() ==> fs[i].0 != n,
    ensures
        remove_name(fs, n) == fs,
    decreases fs.len(),
{
    if fs.len() > 0 {
        assert(forall|i: int|
            0 <= i < fs.drop_first().len() ==> fs.drop_first()[i] == fs[i + 1]);
        lemma_remove_absent(fs.drop_first(), n);
        assert(seq![fs[0]] + fs.drop_first() =~= fs);
    }
}

pub proof fn lemma_remove_concat(
    a: Seq<(Seq<char>, JVal)>,
    b: Seq<(Seq<char>, JVal)>,
    n: Seq<char>,
)
    ensures
        remove_name(a + b, n) == remove_name(a, n) + remove_name(b, n),
    decreases a.len(),
{
    if a.len() == 0 {
        assert(a + b =~= b);
        assert(remove_name(a, n) =~= Seq::<(Seq<char>, JVal)>::empty());
        assert(remove_name(a, n) + remove_name(b, n) =~= remove_name(b, n));
    } else {
        assert((a + b).drop_first() =~= a.drop_first() + b);
        lemma_remove_concat(a.drop_first(), b, n);
        if a[0].0 != n {
            assert(seq![a[0]] + (remove_name(a.drop_first(), n) + remove_name(b, n)) =~= (
            seq![a[0]] + remove_name(a.drop_first(), n)) + remove_name(b, n));
        }
    }
}

/// Every name a record emits is one of its slot names.
pub proof fn lemma_present_names(ps: Seq<(Seq<char>, Option<JVal>)>)
    ensures
        forall|i: int|
            0 <= i < present_fields(ps).len() ==> exists|j: int|
                0 <= j < ps.len() && #[trigger] present_fields(ps)[i].0 == ps[j].0,
    decreases ps.len(),
{
    if ps.len() > 0 {
        lemma_present_names(ps.drop_first());
        assert forall|i: int| 0 <= i < present_fields(ps).len() implies exists|j: int|
            0 <= j < ps.len() && #[trigger] present_fields(ps)[i].0 == ps[j].0 by {
            let rest = present_fields(ps.drop_first());
            match ps[0].1 {
                Some(v) => {
                    if i == 0 {
                        assert(present_fields(ps)[0].0 == ps[0].0);
                    } else {
                        assert(present_fields(ps)[i] == rest[i - 1]);
                        let j = choose|j: int|
                            0 <= j < ps.drop_first().len() && rest[i - 1].0
                                == ps.drop_first()[j].0;
                        assert(present_fields(ps)[i].0 == ps[j + 1].0);
                    }
                },
                None => {
                    let j = choose|j: int|
                        0 <= j < ps.drop_first().len() && rest[i].0 == ps.drop_first()[j].0;
                    assert(present_fields(ps)[i].0 == ps[j + 1].0);
                },
            }
        }
    }
}

/// Looking up any slot name in the emitted object answers with that slot.
pub proof fn lemma_jv_get_present(
    ps: Seq<(Seq<char>, Option<JVal>)>,
    ext: Seq<(Seq<char>, JVal)>,
)
    requires
        distinct_names(ps),
        disjoint_from(ext, ps),
    ensures
        forall|j: int|
            0 <= j < ps.len() ==> jv_get(present_fields(ps) + ext, #[trigger] ps[j].0) == ps[j].1,
    decreases ps.len(),
{
    if ps.len() > 0 {
        let tail = ps.drop_first();
        assert(forall|i: int| 0 <= i < tail.len() ==> tail[i] == ps[i + 1]);
        assert(forall|i: int, j: int|
            0 <= i < ext.len() && 0 <= j < tail.len() ==> ext[i].0 != tail[j].0);
        lemma_jv_get_present(tail, ext);
        let rest = present_fields(tail);
        assert forall|j: int|
            0 <= j < ps.len() implies jv_get(present_fields(ps) + ext, #[trigger] ps[j].0) == ps[j].1 by {
            let n = ps[j].0;
            match ps[0].1 {
                Some(v) => {
                    assert(present_fields(ps) + ext =~= seq![(ps[0].0, v)] + (rest + ext));
                    assert((seq![(ps[0].0, v)] + (rest + ext)).drop_first() =~= rest + ext);
                    if j == 0 {
                        assert(jv_get(present_fields(ps) + ext, n) == Some(v));
                    } else {
                        assert(ps[0].0 != n);
                        assert(jv_get(rest + ext, tail[j - 1].0) == tail[j - 1].1);
                    }
                },
                None => {
                    assert(present_fields(ps) + ext =~= rest + ext);
                    if j == 0 {
                        lemma_present_names(tail);
                        assert forall|i: int| 0 <= i < rest.len() implies rest[i].0 != n by {
                            let k = choose|k: int|
                                0 <= k < tail.len() && rest[i].0 == tail[k].0;
                            assert(tail[k].0 == ps[k + 1].0);
                        }
                        lemma_jv_get_concat(rest, ext, n);
                        lemma_jv_get_absent(rest, n);
                        assert(forall|i: int| 0 <= i < ext.len() ==> ext[i].0 != n);
                        lemma_jv_get_absent(ext, n);
                    } else {
                        assert(jv_get(rest + ext, tail[j - 1].0) == tail[j - 1].1);
                    }
                },
            }
        }
    }
}

/// Re-splitting the emitted object over the record's own names recovers the
/// side table exactly.
pub proof fn lemma_ext_of_present(
    ps: Seq<(Seq<char>, Option<JVal>)>,
    ext: Seq<(Seq<char>, JVal)>,
)
    requires
        distinct_names(ps),
        disjoint_from(ext, ps),
    ensures
        ext_fields(present_fields(ps) + ext, names_of(ps)) == ext,
    decreases ps.len(),
{
    if ps.len() == 0 {
        assert(names_of(ps) =~= Seq::<Seq<char>>::empty());
        assert(present_fields(ps) + ext =~= ext);
    } else {
        let n0 = ps[0].0;
        let tail = ps.drop_first();
        let rest = present_fields(tail);
        assert(forall|i: int| 0 <= i < tail.len() ==> tail[i] == ps[i + 1]);
        assert(names_of(ps).len() > 0 && names_of(ps)[0] == n0);
        assert(names_of(ps).drop_first() =~= names_of(tail));

        // The tail of the emitted list holds no field named `n0`.
        lemma_present_names(tail);
        assert forall|i: int| 0 <= i < rest.len() implies rest[i].0 != n0 by {
            let k = choose|k: int| 0 <= k < tail.len() && rest[i].0 == tail[k].0;
            assert(tail[k].0 == ps[k + 1].0);
        }
        assert(forall|i: int| 0 <= i < ext.len() ==> ext[i].0 != n0);

        lemma_remove_absent(rest, n0);
        lemma_remove_absent(ext, n0);
        match ps[0].1 {
            Some(v) => {
                assert(present_fields(ps) + ext =~= seq![(n0, v)] + (rest + ext));
                assert((seq![(n0, v)] + (rest + ext)).drop_first() =~= rest + ext);
                lemma_remove_concat(rest, ext, n0);
                assert(remove_name(present_fields(ps) + ext, n0) == rest + ext);
            },
            None => {
                assert(present_fields(ps) + ext =~= rest + ext);
                lemma_remove_concat(rest, ext, n0);
                assert(remove_name(present_fields(ps) + ext, n0) == rest + ext);
            },
        }
        assert(forall|i: int, j: int|
            0 <= i < ext.len() && 0 <= j < tail.len() ==> ext[i].0 != tail[j].0);
        lemma_ext_of_present(tail, ext);
    }
}

/// No element of a side table carries a known name.
pub proof fn lemma_remove_name_gone(fs: Seq<(Seq<char>, JVal)>, n: Seq<char>)
    ensures
        forall|i: int| 0 <= i < remove_name(fs, n).len() ==> remove_name(fs, n)[i].0 != n,
    decreases fs.len(),
{
    if fs.len() > 0 {
        lemma_remove_name_gone(fs.drop_first(), n);
        let rest = remove_name(fs.drop_first(), n);
        if fs[0].0 != n {
            assert(forall|i: int|
                1 <= i < remove_name(fs, n).len() ==> remove_name(fs, n)[i] == rest[i - 1]);
        }
    }
}

pub proof fn lemma_remove_name_keeps_absent(fs: Seq<(Seq<char>, JVal)>, n: Seq<char>, m: Seq<char>)
    requires
        forall|i: int| 0 <= i < fs.len() ==> fs[i].0 != m,
    ensures
        forall|i: int| 0 <= i < remove_name(fs, n).len() ==> remove_name(fs, n)[i].0 != m,
    decreases fs.len(),
{
    if fs.len() > 0 {
        assert(forall|i: int|
            0 <= i < fs.drop_first().len() ==> fs.drop_first()[i] == fs[i + 1]);
        lemma_remove_name_keeps_absent(fs.drop_first(), n, m);
        let rest = remove_name(fs.drop_first(), n);
        if fs[0].0 != n {
            assert(forall|i: int|
                1 <= i < remove_name(fs, n).len() ==> remove_name(fs, n)[i] == rest[i - 1]);
        }
    }
}

pub proof fn lemma_ext_fields_keeps_absent(
    fs: Seq<(Seq<char>, JVal)>,
    ks: Seq<Seq<char>>,
    m: Seq<char>,
)
    requires
        forall|i: int| 0 <= i < fs.len() ==> fs[i].0 != m,
    ensures
        forall|i: int| 0 <= i < ext_fields(fs, ks).len() ==> ext_fields(fs, ks)[i].0 != m,
    decreases ks.len(),
{
    if ks.len() > 0 {
        lemma_remove_name_keeps_absent(fs, ks[0], m);
        lemma_ext_fields_keeps_absent(remove_name(fs, ks[0]), ks.drop_first(), m);
        assert(ext_fields(fs, ks) == ext_fields(remove_name(fs, ks[0]), ks.drop_first()));
    }
}

/// Each name of the side table is unknown.
pub proof fn lemma_ext_fields_names(fs: Seq<(Seq<char>, JVal)>, ks: Seq<Seq<char>>)
    ensures
        forall|i: int|
            0 <= i < ext_fields(fs, ks).len() ==> !is_known_name(
                #[trigger] ext_fields(fs, ks)[i].0,
                ks,
            ),
    decreases ks.len(),
{
    if ks.len() > 0 {
        let fs1 = remove_name(fs, ks[0]);
        lemma_remove_name_gone(fs, ks[0]);
        lemma_ext_fields_keeps_absent(fs1, ks.drop_first(), ks[0]);
        lemma_ext_fields_names(fs1, ks.drop_first());
        assert forall|i: int| 0 <= i < ext_fields(fs, ks).len() implies !is_known_name(
            #[trigger] ext_fields(fs, ks)[i].0,
            ks,
        ) by {
            let e = ext_fields(fs, ks)[i].0;
            assert(ext_fields(fs, ks) == ext_fields(fs1, ks.drop_first()));
            assert(e != ks[0]);
            assert(!is_known_name(e, ks.drop_first()));
            assert forall|j: int| 0 <= j < ks.len() implies ks[j] != e by {
                if j > 0 {
                    assert(ks.drop_first()[j - 1] == ks[j]);
                }
            }
        }
    }
}

/// The document of a list of records.
pub open spec fn seq_ser<T: JsonForm>(s: Seq<T>) -> Seq<JVal> {
    Seq::new(s.len(), |i: int| s[i].ser())
}

pub open spec fn seq_wf<T: JsonForm>(s: Seq<T>) -> bool {
    forall|i: int| 0 <= i < s.len() ==> (#[trigger] s[i]).wf()
}

pub open spec fn arr_ok<T: JsonForm>(s: Seq<JVal>) -> bool {
    forall|i: int| 0 <= i < s.len() ==> T::doc_ok(#[trigger] s[i])
}

pub open spec fn arr_norm<T: JsonForm>(s: Seq<JVal>) -> Seq<JVal> {
    Seq::new(s.len(), |i: int| T::doc_norm(s[i]))
}

/// Parses every element of an array; the first failing element fails the
/// array.
#[verifier::loop_isolation(false)]
pub fn parse_vec<T: JsonForm>(items: Vec<JsonValue>) -> (r: Result<Vec<T>, ParseError>)
    ensures
        (r is Ok) == arr_ok::<T>(jview_seq(items@)),
        r matches Ok(out) ==> seq_wf(out@) && seq_ser(out@) == arr_norm::<T>(
            jview_seq(items@),
        ),
{
    let ghost all = jview_seq(items@);
    proof {
        crate::json::lemma_jview_seq(items@);
    }
    let mut rem = items;
    let mut out: Vec<T> = Vec::new();
    let ghost mut done: int = 0;
    proof {
        assert(all.subrange(0, 0) =~= Seq::<JVal>::empty());
    }
    while rem.len() > 0
        invariant
            0 <= done <= all.len(),
            rem@.len() == all.len() - done,
            forall|i: int| 0 <= i < rem@.len() ==> jview(#[trigger] rem@[i]) == all[done + i],
            out@.len() == done,
            seq_wf(out@),
            forall|i: int| 0 <= i < done ==> T::doc_ok(#[trigger] all[i]),
            forall|i: int| 0 <= i < done ==> (#[trigger] out@[i]).ser() == T::doc_norm(all[i]),
        decreases rem@.len(),
    {
        let v = rem.remove(0);
        let ghost vv = jview(v);
        proof {
            assert(vv == all[done]);
        }
        match T::from_json(v) {
            Ok(x) => {
                out.push(x);
            },
            Err(e) => {
                proof {
                    assert(0 <= done < all.len());
                    assert(!T::doc_ok(vv));
                    assert(!arr_ok::<T>(all));
                }
                return Err(e);
            },
        }
        proof {
            done = done + 1;
        }
    }
    proof {
        assert(seq_ser(out@) =~= arr_norm::<T>(all));
    }
    Ok(out)
}

/// Serializes every element of a list.
pub fn ser_vec<T: JsonForm>(items: &Vec<T>) -> (r: Vec<JsonValue>)
    ensures
        jview_seq(r@) == seq_ser(items@),
{
    let mut out: Vec<JsonValue> = Vec::new();
    let mut i: usize = 0;
    while i < items.len()
        invariant
            i <= items@.len(),
            jview_seq(out@) == seq_ser(items@.subrange(0, i as int)),
        decreases items@.len() - i,
    {
        proof {
            assert(jview_seq(Seq::<JsonValue>::empty()) =~= Seq::<JVal>::empty());
        }
        let v = items[i].to_json();
        proof {
            lemma_jview_seq_push(out@, v);
            assert(seq_ser(items@.subrange(0, i as int)).push(items@[i as int].ser()) =~= seq_ser(
                items@.subrange(0, i as int + 1),
            ));
        }
        out.push(v);
        i = i + 1;
    }
    proof {
        assert(items@.subrange(0, items@.len() as int) =~= items@);
        assert(jview_seq(Seq::<JsonValue>::empty()) =~= Seq::<JVal>::empty());
    }
    out
}

/// The round-trip law for a list of records.
pub proof fn lemma_arr_canon<T: JsonForm>(s: Seq<T>)
    requires
        seq_wf(s),
    ensures
        arr_ok::<T>(seq_ser(s)),
        arr_norm::<T>(seq_ser(s)) == seq_ser(s),
{
    assert forall|i: int| 0 <= i < seq_ser(s).len() implies T::doc_ok(#[trigger] seq_ser(s)[i]) by {
        s[i].lemma_canon();
    }
    assert forall|i: int|
        0 <= i < seq_ser(s).len() implies #[trigger] arr_norm::<T>(seq_ser(s))[i] == seq_ser(s)[i] by {
        s[i].lemma_canon();
    }
    assert(arr_norm::<T>(seq_ser(s)) =~= seq_ser(s));
}


/// One emitted slot: nothing when the field is absent, one field otherwise.
pub open spec fn chunk(n: Seq<char>, o: Option<JVal>) -> Seq<(Seq<char>, JVal)> {
    match o {
        Some(v) => seq![(n, v)],
        None => Seq::empty(),
    }
}

/// Emission appends slots left to right.
pub proof fn lemma_present_push(ps: Seq<(Seq<char>, Option<JVal>)>, p: (Seq<char>, Option<JVal>))
    ensures
        present_fields(ps.push(p)) == present_fields(ps) + chunk(p.0, p.1),
    decreases ps.len(),
{
    if ps.len() == 0 {
        assert(ps.push(p).drop_first() =~= Seq::<(Seq<char>, Option<JVal>)>::empty());
        assert(present_fields(Seq::<(Seq<char>, Option<JVal>)>::empty()) == Seq::<
            (Seq<char>, JVal),
        >::empty());
        assert(ps.push(p)[0] == p);
        assert(ps =~= Seq::<(Seq<char>, Option<JVal>)>::empty());
        match p.1 {
            Some(v) => {
                assert(seq![(p.0, v)] + Seq::<(Seq<char>, JVal)>::empty() =~= chunk(p.0, p.1));
                assert(Seq::<(Seq<char>, JVal)>::empty() + chunk(p.0, p.1) =~= chunk(p.0, p.1));
            },
            None => {
                assert(Seq::<(Seq<char>, JVal)>::empty() + chunk(p.0, p.1) =~= Seq::<
                    (Seq<char>, JVal),
                >::empty());
            },
        }
    } else {
        assert(ps.push(p).drop_first() =~= ps.drop_first().push(p));
        assert(ps.push(p)[0] == ps[0]);
        lemma_present_push(ps.drop_first(), p);
        match ps[0].1 {
            Some(v) => {
                assert(seq![(ps[0].0, v)] + (present_fields(ps.drop_first()) + chunk(p.0, p.1))
                    =~= (seq![(ps[0].0, v)] + present_fields(ps.drop_first())) + chunk(p.0, p.1));
            },
            None => {},
        }
    }
}

/// The view of an optional child record.
pub open spec fn orec_ser<T: JsonForm>(o: Option<T>) -> Option<JVal> {
    match o {
        Some(t) => Some(t.ser()),
        None => None,
    }
}

pub open spec fn orec_wf<T: JsonForm>(o: Option<T>) -> bool {
    o matches Some(t) ==> t.wf()
}

pub open spec fn is_opt_rec<T: JsonForm>(g: Option<JVal>) -> bool {
    match g {
        None => true,
        Some(JVal::Null) => true,
        Some(v) => T::doc_ok(v),
    }
}

pub open spec fn opt_rec_norm<T: JsonForm>(g: Option<JVal>) -> Option<JVal> {
    match g {
        None => None,
        Some(JVal::Null) => None,
        Some(v) => Some(T::doc_norm(v)),
    }
}

/// The view of an optional list of child records.
pub open spec fn ovec_ser<T: JsonForm>(o: Option<Vec<T>>) -> Option<JVal> {
    match o {
        Some(v) => Some(JVal::Arr(seq_ser(v@))),
        None => None,
    }
}

pub open spec fn ovec_wf<T: JsonForm>(o: Option<Vec<T>>) -> bool {
    o matches Some(v) ==> seq_wf(v@)
}

pub open spec fn is_opt_recarr<T: JsonForm>(g: Option<JVal>) -> bool {
    match g {
        None => true,
        Some(JVal::Null) => true,
        Some(JVal::Arr(s)) => arr_ok::<T>(s),
        Some(_) => false,
    }
}

pub open spec fn opt_recarr_norm<T: JsonForm>(g: Option<JVal>) -> Option<JVal> {
    match g {
        Some(JVal::Arr(s)) => Some(JVal::Arr(arr_norm::<T>(s))),
        _ => None,
    }
}

/// The view of a required list of child records.
pub open spec fn vec_ser<T: JsonForm>(v: Vec<T>) -> JVal {
    JVal::Arr(seq_ser(v@))
}

pub open spec fn is_req_recarr<T: JsonForm>(g: Option<JVal>) -> bool {
    g matches Some(v) && (v matches JVal::Arr(s) && arr_ok::<T>(s))
}

pub open spec fn req_recarr_norm<T: JsonForm>(g: Option<JVal>) -> Option<JVal> {
    match g {
        Some(JVal::Arr(s)) => Some(JVal::Arr(arr_norm::<T>(s))),
        _ => None,
    }
}

/// Parses an optional child record; `null` counts as absent.
pub fn parse_opt<T: JsonForm>(slot: Option<JsonValue>) -> (r: Result<Option<T>, ParseError>)
    ensures
        (r is Ok) == is_opt_rec::<T>(crate::json::jv_opt(slot)),
        r matches Ok(x) ==> orec_wf(x) && orec_ser(x) == opt_rec_norm::<T>(
            crate::json::jv_opt(slot),
        ),
{
    match slot {
        None => Ok(None),
        Some(JsonValue::Null) => Ok(None),
        Some(v) => match T::from_json(v) {
            Ok(t) => Ok(Some(t)),
            Err(e) => Err(e),
        },
    }
}

/// Parses an optional array of child records; `null` counts as absent.
pub fn parse_opt_vec<T: JsonForm>(slot: Option<JsonValue>, field: &str) -> (r: Result<
    Option<Vec<T>>,
    ParseError,
>)
    ensures
        (r is Ok) == is_opt_recarr::<T>(crate::json::jv_opt(slot)),
        r matches Ok(x) ==> ovec_wf(x) && ovec_ser(x) == opt_recarr_norm::<T>(
            crate::json::jv_opt(slot),
        ),
{
    match get_opt_arr(slot, field) {
        Ok(None) => Ok(None),
        Ok(Some(items)) => match parse_vec::<T>(items) {
            Ok(out) => Ok(Some(out)),
            Err(e) => Err(e),
        },
        Err(e) => Err(e),
    }
}

/// Parses a required array of child records.
pub fn parse_req_vec<T: JsonForm>(slot: Option<JsonValue>, field: &str) -> (r: Result<
    Vec<T>,
    ParseError,
>)
    ensures
        (r is Ok) == is_req_recarr::<T>(crate::json::jv_opt(slot)),
        r matches Ok(x) ==> seq_wf(x@) && Some(vec_ser(x)) == req_recarr_norm::<T>(
            crate::json::jv_opt(slot),
        ),
{
    match get_req_arr(slot, field) {
        Ok(items) => match parse_vec::<T>(items) {
            Ok(out) => Ok(out),
            Err(e) => Err(e),
        },
        Err(e) => Err(e),
    }
}

/// Writes an optional child record.
pub fn put_opt_rec<T: JsonForm>(b: &mut ObjBuilder, name: &str, o: &Option<T>)
    ensures
        final (b).view_fields() == old(b).view_fields() + chunk(name@, orec_ser(*o)),
{
    match o {
        Some(t) => {
            let v = t.to_json();
            b.put(name, v);
            proof {
                assert(old(b).view_fields().push((name@, t.ser())) =~= old(b).view_fields()
                    + chunk(name@, orec_ser(*o)));
            }
        },
        None => {
            proof {
                assert(old(b).view_fields() + chunk(name@, orec_ser(*o)) =~= old(
                    b,
                ).view_fields());
            }
        },
    }
}

/// Writes a required child record.
pub fn put_rec<T: JsonForm>(b: &mut ObjBuilder, name: &str, t: &T)
    ensures
        final (b).view_fields() == old(b).view_fields() + chunk(name@, Some(t.ser())),
{
    let v = t.to_json();
    b.put(name, v);
    proof {
        assert(old(b).view_fields().push((name@, t.ser())) =~= old(b).view_fields() + chunk(
            name@,
            Some(t.ser()),
        ));
    }
}

/// Writes an optional array of child records.
pub fn put_opt_vec<T: JsonForm>(b: &mut ObjBuilder, name: &str, o: &Option<Vec<T>>)
    ensures
        final (b).view_fields() == old(b).view_fields() + chunk(name@, ovec_ser(*o)),
{
    match o {
        Some(items) => {
            let arr = ser_vec(items);
            b.put(name, JsonValue::Arr(arr));
            proof {
                assert(old(b).view_fields().push((name@, JVal::Arr(seq_ser(items@)))) =~= old(
                    b,
                ).view_fields() + chunk(name@, ovec_ser(*o)));
            }
        },
        None => {
            proof {
                assert(old(b).view_fields() + chunk(name@, ovec_ser(*o)) =~= old(
                    b,
                ).view_fields());
            }
        },
    }
}

/// Writes a required array of child records.
pub fn put_vec<T: JsonForm>(b: &mut ObjBuilder, name: &str, items: &Vec<T>)
    ensures
        final (b).view_fields() == old(b).view_fields() + chunk(name@, Some(vec_ser(*items))),
{
    let arr = ser_vec(items);
    b.put(name, JsonValue::Arr(arr));
    proof {
        assert(old(b).view_fields().push((name@, JVal::Arr(seq_ser(items@)))) =~= old(
            b,
        ).view_fields() + chunk(name@, Some(vec_ser(*items))));
    }
}

/// A bare string as a document: lists of identifiers reuse the record
/// machinery through this form.
impl JsonForm for String {
    open spec fn wf(&self) -> bool {
        true
    }

    open spec fn ser(&self) -> JVal {
        JVal::Str(self@)
    }

    open spec fn doc_ok(v: JVal) -> bool {
        v is Str
    }

    open spec fn doc_norm(v: JVal) -> JVal {
        v
    }

    fn from_json(v: JsonValue) -> (r: Result<Self, ParseError>) {
        match v {
            JsonValue::Str(s) => Ok(s),
            _ => Err(ParseError::Shape("element".to_owned(), crate::fields::ValueKind::Text)),
        }
    }

    fn to_json(&self) -> (r: JsonValue) {
        JsonValue::Str(self.clone())
    }

    proof fn lemma_canon(&self) {
    }
}

/// A bare boolean as a document.
impl JsonForm for bool {
    open spec fn wf(&self) -> bool {
        true
    }

    open spec fn ser(&self) -> JVal {
        JVal::Bool(*self)
    }

    open spec fn doc_ok(v: JVal) -> bool {
        v is Bool
    }

    open spec fn doc_norm(v: JVal) -> JVal {
        v
    }

    fn from_json(v: JsonValue) -> (r: Result<Self, ParseError>) {
        match v {
            JsonValue::Bool(b) => Ok(b),
            _ => Err(ParseError::Shape("element".to_owned(), crate::fields::ValueKind::Boolean)),
        }
    }

    fn to_json(&self) -> (r: JsonValue) {
        JsonValue::Bool(*self)
    }

    proof fn lemma_canon(&self) {
    }
}


/// A side table is consistent with a record when none of its names is one the
/// record knows.
pub open spec fn ext_ok(ext: Seq<(Seq<char>, JVal)>, names: Seq<Seq<char>>) -> bool {
    forall|i: int| 0 <= i < ext.len() ==> !is_known_name((#[trigger] ext[i]).0, names)
}

/// Writes an optional string field.
pub fn put_opt_str(b: &mut ObjBuilder, name: &str, o: &Option<String>)
    ensures
        final (b).view_fields() == old(b).view_fields() + chunk(
            name@,
            crate::json::jv_of_ostr(crate::json::ostr_view(*o)),
        ),
{
    match o {
        Some(s) => {
            b.put(name, JsonValue::Str(s.clone()));
            proof {
                assert(old(b).view_fields().push((name@, JVal::Str(s@))) =~= old(b).view_fields()
                    + chunk(name@, crate::json::jv_of_ostr(crate::json::ostr_view(*o))));
            }
        },
        None => {
            proof {
                assert(old(b).view_fields() + chunk(
                    name@,
                    crate::json::jv_of_ostr(crate::json::ostr_view(*o)),
                ) =~= old(b).view_fields());
            }
        },
    }
}

/// Writes a required string field.
pub fn put_str(b: &mut ObjBuilder, name: &str, s: &String)
    ensures
        final (b).view_fields() == old(b).view_fields() + chunk(name@, Some(JVal::Str(s@))),
{
    b.put(name, JsonValue::Str(s.clone()));
    proof {
        assert(old(b).view_fields().push((name@, JVal::Str(s@))) =~= old(b).view_fields() + chunk(
            name@,
            Some(JVal::Str(s@)),
        ));
    }
}

/// Writes an optional boolean field.
pub fn put_opt_bool(b: &mut ObjBuilder, name: &str, o: &Option<bool>)
    ensures
        final (b).view_fields() == old(b).view_fields() + chunk(
            name@,
            crate::json::jv_of_obool(*o),
        ),
{
    match o {
        Some(x) => {
            b.put(name, JsonValue::Bool(*x));
            proof {
                assert(old(b).view_fields().push((name@, JVal::Bool(*x))) =~= old(b).view_fields()
                    + chunk(name@, crate::json::jv_of_obool(*o)));
            }
        },
        None => {
            proof {
                assert(old(b).view_fields() + chunk(name@, crate::json::jv_of_obool(*o)) =~= old(
                    b,
                ).view_fields());
            }
        },
    }
}

/// Writes an optional non-negative integer field.
pub fn put_opt_usize(b: &mut ObjBuilder, name: &str, o: &Option<usize>)
    ensures
        final (b).view_fields() == old(b).view_fields() + chunk(
            name@,
            crate::json::jv_of_oint(crate::json::ousize_view(*o)),
        ),
{
    match o {
        Some(x) => {
            let v = json_of_usize(*x);
            b.put(name, v);
            proof {
                assert(old(b).view_fields().push((name@, JVal::Int(*x as int))) =~= old(
                    b,
                ).view_fields() + chunk(
                    name@,
                    crate::json::jv_of_oint(crate::json::ousize_view(*o)),
                ));
            }
        },
        None => {
            proof {
                assert(old(b).view_fields() + chunk(
                    name@,
                    crate::json::jv_of_oint(crate::json::ousize_view(*o)),
                ) =~= old(b).view_fields());
            }
        },
    }
}

/// Writes an optional signed integer field.
pub fn put_opt_isize(b: &mut ObjBuilder, name: &str, o: &Option<isize>)
    ensures
        final (b).view_fields() == old(b).view_fields() + chunk(
            name@,
            crate::json::jv_of_oint(crate::json::oisize_view(*o)),
        ),
{
    match o {
        Some(x) => {
            let v = json_of_isize(*x);
            b.put(name, v);
            proof {
                assert(old(b).view_fields().push((name@, JVal::Int(*x as int))) =~= old(
                    b,
                ).view_fields() + chunk(
                    name@,
                    crate::json::jv_of_oint(crate::json::oisize_view(*o)),
                ));
            }
        },
        None => {
            proof {
                assert(old(b).view_fields() + chunk(
                    name@,
                    crate::json::jv_of_oint(crate::json::oisize_view(*o)),
                ) =~= old(b).view_fields());
            }
        },
    }
}

/// Closes the record: appends the side table and hands back the object.
pub fn finish_with_ext(b: ObjBuilder, ext: &Extensions) -> (r: JsonValue)
    ensures
        jview(r) == JVal::Obj(b.view_fields() + ext.view_fields()),
{
    let mut b = b;
    b.put_ext(ext);
    b.finish()
}


/// Taking the next known name finds it absent from the names already taken,
/// because a record's names are pairwise distinct.
pub proof fn lemma_take_fresh(ns: Seq<Seq<char>>, k: int, taken: Seq<Seq<char>>)
    requires
        0 <= k < ns.len(),
        taken =~= ns.subrange(0, k),
        forall|i: int, j: int| 0 <= i < j < ns.len() ==> ns[i] != ns[j],
    ensures
        !is_known_name(ns[k], taken),
{
    assert forall|j: int| 0 <= j < taken.len() implies taken[j] != ns[k] by {
        assert(taken[j] == ns[j]);
    }
}


/// Writes a required boolean field.
pub fn put_bool(b: &mut ObjBuilder, name: &str, x: bool)
    ensures
        final (b).view_fields() == old(b).view_fields() + chunk(name@, Some(JVal::Bool(x))),
{
    b.put(name, JsonValue::Bool(x));
    proof {
        assert(old(b).view_fields().push((name@, JVal::Bool(x))) =~= old(b).view_fields() + chunk(
            name@,
            Some(JVal::Bool(x)),
        ));
    }
}

/// Writes a required non-negative integer field.
pub fn put_usize(b: &mut ObjBuilder, name: &str, x: usize)
    ensures
        final (b).view_fields() == old(b).view_fields() + chunk(
            name@,
            Some(JVal::Int(x as int)),
        ),
{
    let v = json_of_usize(x);
    b.put(name, v);
    proof {
        assert(old(b).view_fields().push((name@, JVal::Int(x as int))) =~= old(b).view_fields()
            + chunk(name@, Some(JVal::Int(x as int))));
    }
}

/// A required child record is present and parses.
pub open spec fn is_req_rec<T: JsonForm>(g: Option<JVal>) -> bool {
    g matches Some(v) && T::doc_ok(v)
}

pub open spec fn req_rec_norm<T: JsonForm>(g: Option<JVal>) -> Option<JVal> {
    match g {
        Some(v) => Some(T::doc_norm(v)),
        None => None,
    }
}

/// Parses a required child record.
pub fn parse_req<T: JsonForm>(slot: Option<JsonValue>, field: &str) -> (r: Result<T, ParseError>)
    ensures
        (r is Ok) == is_req_rec::<T>(jv_opt(slot)),
        r matches Ok(t) ==> t.wf() && Some(t.ser()) == req_rec_norm::<T>(jv_opt(slot)),
        r matches Err(e) ==> (slot is None ==> (e matches ParseError::Missing(n) && n@
            == field@)),
{
    match slot {
        None => Err(ParseError::Missing(field.to_owned())),
        Some(v) => {
            match T::from_json(v) {
                Ok(t) => Ok(t),
                Err(e) => Err(e),
            }
        },
    }
}

/// The view of a list that prefers a single bare element on the wire: one
/// element is emitted as the element itself, any other count as an array.
pub open spec fn om_ser<T: JsonForm>(o: Option<Vec<T>>) -> Option<JVal> {
    match o {
        None => None,
        Some(v) => if v@.len() == 1 {
            Some(v@[0].ser())
        } else {
            Some(JVal::Arr(seq_ser(v@)))
        },
    }
}

pub open spec fn is_om<T: JsonForm>(g: Option<JVal>) -> bool {
    match g {
        None => true,
        Some(JVal::Null) => true,
        Some(JVal::Arr(s)) => arr_ok::<T>(s),
        Some(v) => T::doc_ok(v),
    }
}

pub open spec fn om_norm<T: JsonForm>(g: Option<JVal>) -> Option<JVal> {
    match g {
        None => None,
        Some(JVal::Null) => None,
        Some(JVal::Arr(s)) => if s.len() == 1 {
            Some(T::doc_norm(s[0]))
        } else {
            Some(JVal::Arr(arr_norm::<T>(s)))
        },
        Some(v) => Some(T::doc_norm(v)),
    }
}

/// Parses a field that may hold one element or an array of them.
pub fn parse_one_many<T: JsonForm>(slot: Option<JsonValue>) -> (r: Result<
    Option<Vec<T>>,
    ParseError,
>)
    ensures
        (r is Ok) == is_om::<T>(jv_opt(slot)),
        r matches Ok(x) ==> ovec_wf(x) && om_ser(x) == om_norm::<T>(jv_opt(slot)),
{
    match slot {
        None => Ok(None),
        Some(JsonValue::Null) => Ok(None),
        Some(JsonValue::Arr(items)) => {
            let ghost s = crate::json::jview_seq(items@);
            match parse_vec::<T>(items) {
                Ok(out) => {
                    proof {
                        assert(seq_ser(out@) == arr_norm::<T>(s));
                        assert(seq_ser(out@).len() == out@.len());
                        assert(arr_norm::<T>(s).len() == s.len());
                        assert(out@.len() == s.len());
                        if out@.len() == 1 {
                            assert(seq_ser(out@)[0] == out@[0].ser());
                            assert(arr_norm::<T>(s)[0] == T::doc_norm(s[0]));
                            assert(out@[0].ser() == T::doc_norm(s[0]));
                        } else {
                            assert(om_ser(Some(out)) == om_norm::<T>(Some(JVal::Arr(s))));
                        }
                    }
                    Ok(Some(out))
                },
                Err(e) => Err(e),
            }
        },
        Some(v) => {
            let ghost gv = jview(v);
            match T::from_json(v) {
                Ok(t) => {
                    let mut one: Vec<T> = Vec::new();
                    one.push(t);
                    proof {
                        if gv is Null {
                            assert(T::doc_ok(gv));
                        }
                        assert(one@[0] == t);
                        assert forall|i: int| 0 <= i < one@.len() implies (
                        #[trigger] one@[i]).wf() by {
                            assert(one@[i] == t);
                        }
                    }
                    Ok(Some(one))
                },
                Err(e) => Err(e),
            }
        },
    }
}

/// Writes a one-or-many field.
pub fn put_one_many<T: JsonForm>(b: &mut ObjBuilder, name: &str, o: &Option<Vec<T>>)
    ensures
        final (b).view_fields() == old(b).view_fields() + chunk(name@, om_ser(*o)),
{
    match o {
        Some(items) => {
            if items.len() == 1 {
                let v = items[0].to_json();
                b.put(name, v);
                proof {
                    assert(old(b).view_fields().push((name@, items@[0].ser())) =~= old(
                        b,
                    ).view_fields() + chunk(name@, om_ser(*o)));
                }
            } else {
                let arr = ser_vec(items);
                b.put(name, JsonValue::Arr(arr));
                proof {
                    assert(old(b).view_fields().push((name@, JVal::Arr(seq_ser(items@)))) =~= old(
                        b,
                    ).view_fields() + chunk(name@, om_ser(*o)));
                }
            }
        },
        None => {
            proof {
                assert(old(b).view_fields() + chunk(name@, om_ser(*o)) =~= old(b).view_fields());
            }
        },
    }
}


/// A bare non-negative integer as a document: lists of indexes reuse the
/// record machinery through this form.
impl JsonForm for usize {
    open spec fn wf(&self) -> bool {
        true
    }

    open spec fn ser(&self) -> JVal {
        JVal::Int(*self as int)
    }

    open spec fn doc_ok(v: JVal) -> bool {
        v matches JVal::Int(i) && 0 <= i <= usize::MAX as int
    }

    open spec fn doc_norm(v: JVal) -> JVal {
        v
    }

    fn from_json(v: JsonValue) -> (r: Result<Self, ParseError>) {
        match v {
            JsonValue::Int(i) => {
                if i >= 0 && (i as u64) <= (usize::MAX as u64) {
                    Ok(i as usize)
                } else {
                    Err(ParseError::Shape("element".to_owned(), crate::fields::ValueKind::Integer))
                }
            },
            JsonValue::UInt(u) => {
                if u <= (usize::MAX as u64) {
                    Ok(u as usize)
                } else {
                    Err(ParseError::Shape("element".to_owned(), crate::fields::ValueKind::Integer))
                }
            },
            _ => Err(ParseError::Shape("element".to_owned(), crate::fields::ValueKind::Integer)),
        }
    }

    fn to_json(&self) -> (r: JsonValue) {
        json_of_usize(*self)
    }

    proof fn lemma_canon(&self) {
    }
}


/// Slot names distinct as a list give pairwise-distinct slots.
pub proof fn lemma_distinct_from_names(ps: Seq<(Seq<char>, Option<JVal>)>, ns: Seq<Seq<char>>)
    requires
        names_of(ps) == ns,
        forall|i: int, j: int| 0 <= i < j < ns.len() ==> ns[i] != ns[j],
    ensures
        distinct_names(ps),
{
    assert forall|i: int, j: int| 0 <= i < j < ps.len() implies ps[i].0 != ps[j].0 by {
        assert(names_of(ps)[i] == ps[i].0);
        assert(names_of(ps)[j] == ps[j].0);
    }
}

/// A side table that avoids the record's names is disjoint from its slots.
pub proof fn lemma_disjoint_from_ext(
    ext: Seq<(Seq<char>, JVal)>,
    ps: Seq<(Seq<char>, Option<JVal>)>,
    ns: Seq<Seq<char>>,
)
    requires
        names_of(ps) == ns,
        ext_ok(ext, ns),
    ensures
        disjoint_from(ext, ps),
{
    assert forall|i: int, j: int|
        0 <= i < ext.len() && 0 <= j < ps.len() implies ext[i].0 != ps[j].0 by {
        assert(!is_known_name(ext[i].0, ns));
        assert(names_of(ps)[j] == ps[j].0);
    }
}

} // verus!
