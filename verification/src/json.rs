//! The document tree that both wire encodings are stated against, and the
//! generic field-splitting machinery used by every record parser.

use vstd::prelude::*;

verus! {

/// A node of a keyed-object document tree.
///
/// Non-integral numbers are carried as their decimal text so the tree holds
/// no floating point; integers keep their signedness on the wire.
#[derive(Debug, PartialEq)]
pub enum JsonValue {
    Null,
    Bool(bool),
    Int(i64),
    UInt(u64),
    Num(String),
    Str(String),
    Arr(Vec<JsonValue>),
    Obj(Vec<(String, JsonValue)>),
}

/// The mathematical abstraction of a document tree node.
pub enum JVal {
    Null,
    Bool(bool),
    Int(int),
    Num(Seq<char>),
    Str(Seq<char>),
    Arr(Seq<JVal>),
    Obj(Seq<(Seq<char>, JVal)>),
}

/// The abstraction of one node.
pub open spec fn jview(v: JsonValue) -> JVal
    decreases v,
{
    match v {
        JsonValue::Null => JVal::Null,
        JsonValue::Bool(b) => JVal::Bool(b),
        JsonValue::Int(i) => JVal::Int(i as int),
        JsonValue::UInt(u) => JVal::Int(u as int),
        JsonValue::Num(s) => JVal::Num(s@),
        JsonValue::Str(s) => JVal::Str(s@),
        JsonValue::Arr(a) => JVal::Arr(jview_vec(a)),
        JsonValue::Obj(o) => JVal::Obj(jview_field_vec(o)),
    }
}

pub open spec fn jview_vec(v: Vec<JsonValue>) -> Seq<JVal>
    decreases v,
{
    jview_seq(v@)
}

pub open spec fn jview_seq(s: Seq<JsonValue>) -> Seq<JVal>
    decreases s,
{
    if s.len() == 0 {
        Seq::empty()
    } else {
        seq![jview(s[0])] + jview_seq(s.subrange(1, s.len() as int))
    }
}

pub open spec fn jview_field(f: (String, JsonValue)) -> (Seq<char>, JVal)
    decreases f,
{
    (f.0@, jview(f.1))
}

pub open spec fn jview_field_vec(v: Vec<(String, JsonValue)>) -> Seq<(Seq<char>, JVal)>
    decreases v,
{
    jview_field_seq(v@)
}

/// The view of a list of named fields.
pub open spec fn jview_field_seq(s: Seq<(String, JsonValue)>) -> Seq<(Seq<char>, JVal)>
    decreases s,
{
    if s.len() == 0 {
        Seq::empty()
    } else {
        seq![jview_field(s[0])] + jview_field_seq(s.subrange(1, s.len() as int))
    }
}

/// The element-wise characterization of `jview_seq`.
pub proof fn lemma_jview_seq(s: Seq<JsonValue>)
    ensures
        jview_seq(s).len() == s.len(),
        forall|i: int| 0 <= i < s.len() ==> #[trigger] jview_seq(s)[i] == jview(s[i]),
    decreases s.len(),
{
    if s.len() > 0 {
        lemma_jview_seq(s.subrange(1, s.len() as int));
    }
}

/// The element-wise characterization of `jview_field_seq`.
pub proof fn lemma_jview_field_seq(s: Seq<(String, JsonValue)>)
    ensures
        jview_field_seq(s).len() == s.len(),
        forall|i: int|
            0 <= i < s.len() ==> #[trigger] jview_field_seq(s)[i] == jview_field(s[i]),
    decreases s.len(),
{
    if s.len() > 0 {
        lemma_jview_field_seq(s.subrange(1, s.len() as int));
    }
}

impl View for JsonValue {
    type V = JVal;

    open spec fn view(&self) -> JVal {
        jview(*self)
    }
}

/// The value of the first field named `name`, if any.
pub open spec fn jv_get(fs: Seq<(Seq<char>, JVal)>, name: Seq<char>) -> Option<JVal>
    decreases fs.len(),
{
    if fs.len() == 0 {
        None
    } else if fs[0].0 == name {
        Some(fs[0].1)
    } else {
        jv_get(fs.drop_first(), name)
    }
}

/// Appending a field only matters to a lookup that found nothing before it.
pub proof fn lemma_jv_get_push(fs: Seq<(Seq<char>, JVal)>, f: (Seq<char>, JVal), name: Seq<char>)
    ensures
        jv_get(fs.push(f), name) == (match jv_get(fs, name) {
            Some(v) => Some(v),
            None => if f.0 == name {
                Some(f.1)
            } else {
                None
            },
        }),
    decreases fs.len(),
{
    if fs.len() == 0 {
        assert(fs.push(f).drop_first() =~= Seq::<(Seq<char>, JVal)>::empty());
        assert(jv_get(Seq::<(Seq<char>, JVal)>::empty(), name) is None);
        assert(fs.push(f)[0] == f);
        assert(fs =~= Seq::<(Seq<char>, JVal)>::empty());
    } else {
        assert(fs.push(f).drop_first() =~= fs.drop_first().push(f));
        assert(fs.push(f)[0] == fs[0]);
        lemma_jv_get_push(fs.drop_first(), f, name);
    }
}

/// A found field is a member of the object.
pub proof fn lemma_jv_get_member(fs: Seq<(Seq<char>, JVal)>, name: Seq<char>)
    requires
        jv_get(fs, name) is Some,
    ensures
        exists|i: int|
            0 <= i < fs.len() && #[trigger] fs[i] == (name, jv_get(fs, name)->Some_0),
    decreases fs.len(),
{
    if fs[0].0 == name {
        assert(fs[0] == (name, jv_get(fs, name)->Some_0));
    } else {
        lemma_jv_get_member(fs.drop_first(), name);
        let i = choose|i: int|
            0 <= i < fs.drop_first().len() && #[trigger] fs.drop_first()[i] == (
            name,
            jv_get(fs.drop_first(), name)->Some_0,
            );
        assert(fs[i + 1] == (name, jv_get(fs, name)->Some_0));
    }
}

/// The view of an optional node.
pub open spec fn jv_opt(o: Option<JsonValue>) -> Option<JVal> {
    match o {
        None => None,
        Some(v) => Some(jview(v)),
    }
}

/// Presence and shape of scalar fields, over the view of an optional field.
/// A `null` in an optional slot counts as absent; a required slot must hold
/// the exact shape.
pub open spec fn is_opt_str(g: Option<JVal>) -> bool {
    match g {
        None => true,
        Some(JVal::Null) => true,
        Some(v) => v is Str,
    }
}

pub open spec fn opt_str(g: Option<JVal>) -> Option<Seq<char>> {
    match g {
        Some(JVal::Str(s)) => Some(s),
        _ => None,
    }
}

pub open spec fn is_req_str(g: Option<JVal>) -> bool {
    g matches Some(v) && v is Str
}

pub open spec fn is_opt_bool(g: Option<JVal>) -> bool {
    match g {
        None => true,
        Some(JVal::Null) => true,
        Some(v) => v is Bool,
    }
}

pub open spec fn opt_bool(g: Option<JVal>) -> Option<bool> {
    match g {
        Some(JVal::Bool(b)) => Some(b),
        _ => None,
    }
}

pub open spec fn is_req_bool(g: Option<JVal>) -> bool {
    g matches Some(v) && v is Bool
}

pub open spec fn is_opt_usize(g: Option<JVal>) -> bool {
    match g {
        None => true,
        Some(JVal::Null) => true,
        Some(JVal::Int(i)) => 0 <= i <= usize::MAX as int,
        Some(_) => false,
    }
}

pub open spec fn opt_int(g: Option<JVal>) -> Option<int> {
    match g {
        Some(JVal::Int(i)) => Some(i),
        _ => None,
    }
}

pub open spec fn is_req_usize(g: Option<JVal>) -> bool {
    g matches Some(v) && (v matches JVal::Int(i) && 0 <= i <= usize::MAX as int)
}

pub open spec fn is_opt_isize(g: Option<JVal>) -> bool {
    match g {
        None => true,
        Some(JVal::Null) => true,
        Some(JVal::Int(i)) => isize::MIN as int <= i <= isize::MAX as int,
        Some(_) => false,
    }
}

pub open spec fn is_opt_arr(g: Option<JVal>) -> bool {
    match g {
        None => true,
        Some(JVal::Null) => true,
        Some(v) => v is Arr,
    }
}

pub open spec fn opt_arr(g: Option<JVal>) -> Option<Seq<JVal>> {
    match g {
        Some(JVal::Arr(s)) => Some(s),
        _ => None,
    }
}

pub open spec fn is_req_arr(g: Option<JVal>) -> bool {
    g matches Some(v) && v is Arr
}

pub open spec fn is_opt_obj(g: Option<JVal>) -> bool {
    match g {
        None => true,
        Some(JVal::Null) => true,
        Some(v) => v is Obj,
    }
}

pub open spec fn opt_obj(g: Option<JVal>) -> Option<Seq<(Seq<char>, JVal)>> {
    match g {
        Some(JVal::Obj(fs)) => Some(fs),
        _ => None,
    }
}

/// Views of the optional owned values a record holds.
pub open spec fn ostr_view(o: Option<String>) -> Option<Seq<char>> {
    match o {
        Some(s) => Some(s@),
        None => None,
    }
}

pub open spec fn ousize_view(o: Option<usize>) -> Option<int> {
    match o {
        Some(u) => Some(u as int),
        None => None,
    }
}

pub open spec fn oisize_view(o: Option<isize>) -> Option<int> {
    match o {
        Some(u) => Some(u as int),
        None => None,
    }
}

/// Wraps an optional scalar view back into an optional document node.
pub open spec fn jv_of_ostr(o: Option<Seq<char>>) -> Option<JVal> {
    match o {
        Some(s) => Some(JVal::Str(s)),
        None => None,
    }
}

pub open spec fn jv_of_obool(o: Option<bool>) -> Option<JVal> {
    match o {
        Some(b) => Some(JVal::Bool(b)),
        None => None,
    }
}

pub open spec fn jv_of_oint(o: Option<int>) -> Option<JVal> {
    match o {
        Some(i) => Some(JVal::Int(i)),
        None => None,
    }
}

/// Whether `name` is one of the known field names.
pub open spec fn is_known_name(name: Seq<char>, knowns: Seq<Seq<char>>) -> bool {
    exists|j: int| 0 <= j < knowns.len() && knowns[j] == name
}

/// The object with every field named `name` removed.
pub open spec fn remove_name(fs: Seq<(Seq<char>, JVal)>, name: Seq<char>) -> Seq<(Seq<char>, JVal)>
    decreases fs.len(),
{
    if fs.len() == 0 {
        Seq::empty()
    } else {
        let rest = remove_name(fs.drop_first(), name);
        if fs[0].0 == name {
            rest
        } else {
            seq![fs[0]] + rest
        }
    }
}

/// The extension side table of an object: what is left of its fields once
/// every known name has been removed, in input order.
pub open spec fn ext_fields(fs: Seq<(Seq<char>, JVal)>, knowns: Seq<Seq<char>>) -> Seq<
    (Seq<char>, JVal),
>
    decreases knowns.len(),
{
    if knowns.len() == 0 {
        fs
    } else {
        ext_fields(remove_name(fs, knowns[0]), knowns.drop_first())
    }
}

pub proof fn lemma_remove_name_push(
    fs: Seq<(Seq<char>, JVal)>,
    f: (Seq<char>, JVal),
    name: Seq<char>,
)
    ensures
        remove_name(fs.push(f), name) == (if f.0 == name {
            remove_name(fs, name)
        } else {
            remove_name(fs, name).push(f)
        }),
    decreases fs.len(),
{
    if fs.len() == 0 {
        assert(fs.push(f).drop_first() =~= Seq::<(Seq<char>, JVal)>::empty());
        assert(remove_name(Seq::<(Seq<char>, JVal)>::empty(), name) =~= Seq::<
            (Seq<char>, JVal),
        >::empty());
        assert(fs.push(f)[0] == f);
        if f.0 != name {
            assert(seq![f] + Seq::<(Seq<char>, JVal)>::empty() =~= Seq::empty().push(f));
        }
        assert(fs =~= Seq::<(Seq<char>, JVal)>::empty());
    } else {
        assert(fs.push(f).drop_first() =~= fs.drop_first().push(f));
        lemma_remove_name_push(fs.drop_first(), f, name);
        if fs[0].0 != name && f.0 != name {
            assert(seq![fs[0]] + remove_name(fs.drop_first(), name).push(f) =~= (seq![fs[0]]
                + remove_name(fs.drop_first(), name)).push(f));
        }
    }
}

/// Removing one name answers lookups of that name with nothing and leaves
/// every other lookup unchanged.
pub proof fn lemma_jv_get_remove(fs: Seq<(Seq<char>, JVal)>, m: Seq<char>, n: Seq<char>)
    ensures
        jv_get(remove_name(fs, m), n) == (if m == n {
            None::<JVal>
        } else {
            jv_get(fs, n)
        }),
    decreases fs.len(),
{
    if fs.len() > 0 {
        lemma_jv_get_remove(fs.drop_first(), m, n);
        if fs[0].0 != m {
            let rest = remove_name(fs.drop_first(), m);
            assert((seq![fs[0]] + rest).drop_first() =~= rest);
        }
    }
}

/// Removing a second name commutes past a first removal.
pub proof fn lemma_remove_name_commute(fs: Seq<(Seq<char>, JVal)>, m: Seq<char>, n: Seq<char>)
    ensures
        remove_name(remove_name(fs, m), n) == remove_name(remove_name(fs, n), m),
    decreases fs.len(),
{
    if fs.len() > 0 {
        lemma_remove_name_commute(fs.drop_first(), m, n);
        let rest = fs.drop_first();
        if fs[0].0 != m {
            assert((seq![fs[0]] + remove_name(rest, m)).drop_first() =~= remove_name(rest, m));
        }
        if fs[0].0 != n {
            assert((seq![fs[0]] + remove_name(rest, n)).drop_first() =~= remove_name(rest, n));
        }
        if fs[0].0 != m && fs[0].0 != n {
            assert(seq![fs[0]] + remove_name(remove_name(rest, m), n) =~= seq![fs[0]]
                + remove_name(remove_name(rest, n), m));
        }
    }
}

/// Taking one more known name out of the side table is one more removal.
pub proof fn lemma_ext_fields_take(
    fs: Seq<(Seq<char>, JVal)>,
    knowns: Seq<Seq<char>>,
    n: Seq<char>,
)
    ensures
        ext_fields(fs, knowns.push(n)) == remove_name(ext_fields(fs, knowns), n),
    decreases knowns.len(),
{
    if knowns.len() == 0 {
        assert(knowns.push(n)[0] == n);
        assert(knowns.push(n).drop_first() =~= Seq::<Seq<char>>::empty());
        assert(knowns =~= Seq::<Seq<char>>::empty());
        assert(ext_fields(remove_name(fs, n), Seq::<Seq<char>>::empty()) == remove_name(fs, n));
    } else {
        assert(knowns.push(n)[0] == knowns[0]);
        assert(knowns.push(n).drop_first() =~= knowns.drop_first().push(n));
        lemma_ext_fields_take(remove_name(fs, knowns[0]), knowns.drop_first(), n);
    }
}

/// A lookup of a name that is not known is answered by the side table
/// exactly as by the object itself.
pub proof fn lemma_jv_get_ext(fs: Seq<(Seq<char>, JVal)>, knowns: Seq<Seq<char>>, n: Seq<char>)
    requires
        !is_known_name(n, knowns),
    ensures
        jv_get(ext_fields(fs, knowns), n) == jv_get(fs, n),
    decreases knowns.len(),
{
    if knowns.len() > 0 {
        assert(!is_known_name(n, knowns.drop_first())) by {
            assert(forall|j: int|
                0 <= j < knowns.drop_first().len() ==> knowns.drop_first()[j] == knowns[j + 1]);
        }
        lemma_jv_get_ext(remove_name(fs, knowns[0]), knowns.drop_first(), n);
        assert(knowns[0] != n);
        lemma_jv_get_remove(fs, knowns[0], n);
    }
}

/// A known name is never answered by the side table.
pub proof fn lemma_jv_get_ext_known(
    fs: Seq<(Seq<char>, JVal)>,
    knowns: Seq<Seq<char>>,
    n: Seq<char>,
)
    requires
        is_known_name(n, knowns),
    ensures
        jv_get(ext_fields(fs, knowns), n) is None,
    decreases knowns.len(),
{
    let j = choose|j: int| 0 <= j < knowns.len() && knowns[j] == n;
    if j == 0 {
        lemma_jv_get_remove(fs, knowns[0], n);
        lemma_jv_get_ext_none_stays(remove_name(fs, knowns[0]), knowns.drop_first(), n);
    } else {
        assert(is_known_name(n, knowns.drop_first())) by {
            assert(knowns.drop_first()[j - 1] == n);
        }
        lemma_jv_get_ext_known(remove_name(fs, knowns[0]), knowns.drop_first(), n);
    }
}

/// A name the object does not answer is not answered by the side table.
pub proof fn lemma_jv_get_ext_none_stays(
    fs: Seq<(Seq<char>, JVal)>,
    knowns: Seq<Seq<char>>,
    n: Seq<char>,
)
    requires
        jv_get(fs, n) is None,
    ensures
        jv_get(ext_fields(fs, knowns), n) is None,
    decreases knowns.len(),
{
    if knowns.len() > 0 {
        lemma_jv_get_remove(fs, knowns[0], n);
        lemma_jv_get_ext_none_stays(remove_name(fs, knowns[0]), knowns.drop_first(), n);
    }
}

pub proof fn lemma_jview_seq_push(s: Seq<JsonValue>, v: JsonValue)
    ensures
        jview_seq(s.push(v)) == jview_seq(s).push(jview(v)),
    decreases s.len(),
{
    if s.len() == 0 {
        assert(s.push(v).subrange(1, 1) =~= Seq::<JsonValue>::empty());
        assert(jview_seq(Seq::<JsonValue>::empty()) =~= Seq::<JVal>::empty());
        assert(s.push(v)[0] == v);
        assert(s =~= Seq::<JsonValue>::empty());
        assert(seq![jview(v)] + Seq::<JVal>::empty() =~= Seq::<JVal>::empty().push(jview(v)));
    } else {
        let t = s.push(v);
        assert(t.subrange(1, t.len() as int) =~= s.subrange(1, s.len() as int).push(v));
        lemma_jview_seq_push(s.subrange(1, s.len() as int), v);
        assert(seq![jview(s[0])] + jview_seq(s.subrange(1, s.len() as int)).push(jview(v))
            =~= (seq![jview(s[0])] + jview_seq(s.subrange(1, s.len() as int))).push(jview(v)));
    }
}

pub proof fn lemma_jview_field_seq_push(s: Seq<(String, JsonValue)>, f: (String, JsonValue))
    ensures
        jview_field_seq(s.push(f)) == jview_field_seq(s).push(jview_field(f)),
    decreases s.len(),
{
    if s.len() == 0 {
        assert(s.push(f).subrange(1, 1) =~= Seq::<(String, JsonValue)>::empty());
        assert(jview_field_seq(Seq::<(String, JsonValue)>::empty()) =~= Seq::<
            (Seq<char>, JVal),
        >::empty());
        assert(s.push(f)[0] == f);
        assert(s =~= Seq::<(String, JsonValue)>::empty());
        assert(seq![jview_field(f)] + Seq::<(Seq<char>, JVal)>::empty() =~= Seq::<
            (Seq<char>, JVal),
        >::empty().push(jview_field(f)));
    } else {
        let t = s.push(f);
        assert(t.subrange(1, t.len() as int) =~= s.subrange(1, s.len() as int).push(f));
        lemma_jview_field_seq_push(s.subrange(1, s.len() as int), f);
        assert(seq![jview_field(s[0])] + jview_field_seq(
            s.subrange(1, s.len() as int),
        ).push(jview_field(f)) =~= (seq![jview_field(s[0])] + jview_field_seq(
            s.subrange(1, s.len() as int),
        )).push(jview_field(f)));
    }
}

} // verus!
