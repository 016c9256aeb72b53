//! Extension capture: the field bag that every record parser draws its known
//! fields from, the side table of what remains, and the builder that re-emits
//! a record with its side table appended.

use vstd::prelude::*;

use crate::json::{
    JVal, JsonValue, ext_fields, is_known_name, is_opt_arr, is_opt_bool, is_opt_isize, is_opt_obj,
    is_opt_str, is_opt_usize, is_req_arr, is_req_str, is_req_usize, jv_get, jv_opt, jview,
    jview_field_seq, jview_field_vec, jview_seq, lemma_ext_fields_take, lemma_jv_get_ext,
    lemma_jv_get_push, lemma_jview_field_seq_push, lemma_jview_seq_push, lemma_remove_name_push,
    opt_arr, opt_bool, opt_int, opt_obj, opt_str, oisize_view, ostr_view, ousize_view,
    remove_name,
};

verus! {

/// The shape a field was expected to hold.
#[derive(Debug, Clone, Copy, PartialEq, Eq)]
pub enum ValueKind {
    Text,
    Boolean,
    Integer,
    Array,
    Object,
    Character,
    /// A validity window whose start precedes its end.
    Window,
}

/// Why a document was rejected.
#[derive(Debug, PartialEq, Eq)]
pub enum ParseError {
    /// A keyed object was required and something else stood there.
    NotObject,
    /// The named required field is missing.
    Missing(String),
    /// The named field is present but does not match its expected shape.
    Shape(String, ValueKind),
    /// A value lies outside its closed set of recognized tokens.
    Token(String),
    /// The raw text is not a well-formed document at all.
    Syntax(String),
}

/// Lexicographic order on character sequences, by code point; the order in
/// which calendar dates in their usual written form compare.
pub open spec fn seq_le(a: Seq<char>, b: Seq<char>) -> bool
    decreases a.len(),
{
    if a.len() == 0 {
        true
    } else if b.len() == 0 {
        false
    } else if (a[0] as u32) < (b[0] as u32) {
        true
    } else if (a[0] as u32) > (b[0] as u32) {
        false
    } else {
        seq_le(a.drop_first(), b.drop_first())
    }
}

/// A validity window is in order when its start does not exceed its end;
/// a window missing either bound is unconstrained.
pub open spec fn window_le(f: Option<Seq<char>>, t: Option<Seq<char>>) -> bool {
    match (f, t) {
        (Some(a), Some(b)) => seq_le(a, b),
        _ => true,
    }
}

/// Compares two pieces of text in the order `seq_le` states.
#[verifier::loop_isolation(false)]
pub fn str_le(a: &str, b: &str) -> (r: bool)
    ensures
        r == seq_le(a@, b@),
{
    let la = a.unicode_len();
    let lb = b.unicode_len();
    let mut i: usize = 0;
    proof {
        assert(a@.skip(0) =~= a@);
        assert(b@.skip(0) =~= b@);
    }
    while i < la && i < lb
        invariant
            i <= la,
            i <= lb,
            seq_le(a@, b@) == seq_le(a@.skip(i as int), b@.skip(i as int)),
        decreases la - i,
    {
        let ca = a.get_char(i);
        let cb = b.get_char(i);
        proof {
            assert(a@.skip(i as int)[0] == a@[i as int]);
            assert(b@.skip(i as int)[0] == b@[i as int]);
            assert(a@.skip(i as int).drop_first() =~= a@.skip(i as int + 1));
            assert(b@.skip(i as int).drop_first() =~= b@.skip(i as int + 1));
        }
        if (ca as u32) < (cb as u32) {
            return true;
        }
        if (ca as u32) > (cb as u32) {
            return false;
        }
        i = i + 1;
    }
    proof {
        if la <= lb {
            assert(a@.skip(i as int).len() == 0);
        } else {
            assert(b@.skip(i as int).len() == 0);
            assert(a@.skip(i as int).len() > 0);
        }
    }
    la <= lb
}

/// Relies on `str`'s `==` (`<str as PartialEq>::eq`): string slices compare
/// equal exactly when their character contents are equal.
#[verifier::external_body]
pub fn str_eq(a: &str, b: &str) -> (r: bool)
    ensures
        r == (a@ == b@),
{
    a == b
}

/// A record's side table: the fields whose names the record does not know,
/// kept verbatim and in input order.
#[derive(Debug, PartialEq)]
pub struct Extensions(pub Vec<(String, JsonValue)>);

impl Extensions {
    pub open spec fn view_fields(self) -> Seq<(Seq<char>, JVal)> {
        jview_field_vec(self.0)
    }

    pub fn empty() -> (r: Extensions)
        ensures
            r.view_fields() == Seq::<(Seq<char>, JVal)>::empty(),
    {
        Extensions(Vec::new())
    }

    pub fn duplicate(&self) -> (r: Extensions)
        ensures
            r.view_fields() == self.view_fields(),
    {
        Extensions(jclone_fields(&self.0))
    }

    pub fn is_empty(&self) -> (r: bool)
        ensures
            r == (self.view_fields().len() == 0),
    {
        proof {
            crate::json::lemma_jview_field_seq(self.0@);
        }
        self.0.len() == 0
    }
}

/// The fields of one object during parsing.  Known fields are taken out one
/// by one; what remains at the end is the record's extension side table.
pub struct FieldBag {
    fields: Vec<(String, JsonValue)>,
    orig: Ghost<Seq<(Seq<char>, JVal)>>,
    taken: Ghost<Seq<Seq<char>>>,
}

impl FieldBag {
    /// The object's fields as first seen.
    pub closed spec fn orig(self) -> Seq<(Seq<char>, JVal)> {
        self.orig@
    }

    /// The names taken so far, in order.
    pub closed spec fn taken(self) -> Seq<Seq<char>> {
        self.taken@
    }

    pub closed spec fn wf(self) -> bool {
        jview_field_vec(self.fields) == ext_fields(self.orig@, self.taken@)
    }

    pub fn new(fields: Vec<(String, JsonValue)>) -> (r: FieldBag)
        ensures
            r.wf(),
            r.orig() == jview_field_vec(fields),
            r.taken() == Seq::<Seq<char>>::empty(),
    {
        let ghost orig = jview_field_vec(fields);
        FieldBag { fields, orig: Ghost(orig), taken: Ghost(Seq::empty()) }
    }

    /// Takes every field named `name` out of the bag and hands back the first,
    /// which is what the object holds under that name.
    pub fn take(&mut self, name: &str) -> (r: Option<JsonValue>)
        requires
            old(self).wf(),
            !is_known_name(name@, old(self).taken()),
        ensures
            final (self).wf(),
            final (self).orig() == old(self).orig(),
            final (self).taken() == old(self).taken().push(name@),
            crate::json::jv_opt(r) == jv_get(old(self).orig(), name@),
    {
        let mut rest: Vec<(String, JsonValue)> = Vec::new();
        let mut found: Option<JsonValue> = None;
        let ghost before = jview_field_vec(self.fields);
        let ghost mut done: Seq<(Seq<char>, JVal)> = Seq::empty();
        proof {
            assert(jview_field_seq(Seq::<(String, JsonValue)>::empty()) =~= Seq::<
                (Seq<char>, JVal),
            >::empty());
            assert(remove_name(Seq::<(Seq<char>, JVal)>::empty(), name@) =~= Seq::<
                (Seq<char>, JVal),
            >::empty());
        }
        while self.fields.len() > 0
            invariant
                self.orig@ == old(self).orig@,
                self.taken@ == old(self).taken@,
                done + jview_field_vec(self.fields) =~= before,
                jview_field_vec(rest) == remove_name(done, name@),
                crate::json::jv_opt(found) == jv_get(done, name@),
            decreases self.fields.len(),
        {
            let ghost oldfs = self.fields@;
            let f = self.fields.remove(0);
            let ghost fv = crate::json::jview_field(f);
            proof {
                assert(oldfs.subrange(1, oldfs.len() as int) =~= oldfs.remove(0));
                assert(jview_field_seq(oldfs) == seq![fv] + jview_field_seq(self.fields@));
                assert(done.push(fv) + jview_field_seq(self.fields@) =~= before);
                lemma_remove_name_push(done, fv, name@);
                lemma_jv_get_push(done, fv, name@);
            }
            let (k, v) = f;
            if str_eq(k.as_str(), name) {
                if found.is_none() {
                    found = Some(v);
                }
            } else {
                proof {
                    lemma_jview_field_seq_push(rest@, (k, v));
                }
                rest.push((k, v));
            }
            proof {
                done = done.push(fv);
            }
        }
        proof {
            assert(jview_field_seq(self.fields@) =~= Seq::<(Seq<char>, JVal)>::empty()) by {
                crate::json::lemma_jview_field_seq(self.fields@);
            }
            assert(done =~= before);
            lemma_jv_get_ext(self.orig@, self.taken@, name@);
            lemma_ext_fields_take(self.orig@, self.taken@, name@);
        }
        self.fields = rest;
        proof {
            self.taken = Ghost(self.taken@.push(name@));
        }
        found
    }

    /// What remains once the record has taken every field it knows.
    pub fn rest(self) -> (r: Extensions)
        requires
            self.wf(),
        ensures
            r.view_fields() == ext_fields(self.orig(), self.taken()),
    {
        let FieldBag { fields, orig: _, taken: _ } = self;
        Extensions(fields)
    }
}

/// Builds the output object of a record: known fields first, in the record's
/// canonical order, then the side table verbatim.
pub struct ObjBuilder {
    fields: Vec<(String, JsonValue)>,
}

impl ObjBuilder {
    pub closed spec fn view_fields(self) -> Seq<(Seq<char>, JVal)> {
        jview_field_vec(self.fields)
    }

    pub fn new() -> (r: ObjBuilder)
        ensures
            r.view_fields() == Seq::<(Seq<char>, JVal)>::empty(),
    {
        ObjBuilder { fields: Vec::new() }
    }

    pub fn put(&mut self, name: &str, v: JsonValue)
        ensures
            final (self).view_fields() == old(self).view_fields().push((name@, jview(v))),
    {
        let owned = name.to_owned();
        proof {
            lemma_jview_field_seq_push(self.fields@, (owned, v));
        }
        self.fields.push((owned, v));
    }

    /// Writes the field only when the value is present: an absent optional
    /// field is omitted entirely, never written as a null.
    pub fn put_opt(&mut self, name: &str, v: Option<JsonValue>)
        ensures
            final (self).view_fields() == (match v {
                Some(x) => old(self).view_fields().push((name@, jview(x))),
                None => old(self).view_fields(),
            }),
    {
        match v {
            Some(x) => self.put(name, x),
            None => (),
        }
    }

    /// Appends the side table unchanged.
    pub fn put_ext(&mut self, ext: &Extensions)
        ensures
            final (self).view_fields() == old(self).view_fields() + ext.view_fields(),
    {
        let more = jclone_fields(&ext.0);
        proof {
            crate::json::lemma_jview_field_seq(self.fields@);
            crate::json::lemma_jview_field_seq(more@);
            crate::json::lemma_jview_field_seq((self.fields@ + more@));
            assert(jview_field_seq(self.fields@ + more@) =~= jview_field_seq(self.fields@)
                + jview_field_seq(more@));
        }
        let mut more = more;
        self.fields.append(&mut more);
    }

    pub fn finish(self) -> (r: JsonValue)
        ensures
            jview(r) == JVal::Obj(self.view_fields()),
    {
        JsonValue::Obj(self.fields)
    }
}

/// A deep copy of a node, equal to the original as a document.
pub fn jclone(v: &JsonValue) -> (r: JsonValue)
    ensures
        jview(r) == jview(*v),
    decreases *v,
{
    match v {
        JsonValue::Null => JsonValue::Null,
        JsonValue::Bool(b) => JsonValue::Bool(*b),
        JsonValue::Int(i) => JsonValue::Int(*i),
        JsonValue::UInt(u) => JsonValue::UInt(*u),
        JsonValue::Num(s) => JsonValue::Num(s.clone()),
        JsonValue::Str(s) => JsonValue::Str(s.clone()),
        JsonValue::Arr(a) => JsonValue::Arr(jclone_vec(a)),
        JsonValue::Obj(o) => JsonValue::Obj(jclone_fields(o)),
    }
}

pub fn jclone_vec(a: &Vec<JsonValue>) -> (r: Vec<JsonValue>)
    ensures
        jview_seq(r@) == jview_seq(a@),
    decreases a@,
{
    let mut out: Vec<JsonValue> = Vec::new();
    let mut i: usize = 0;
    while i < a.len()
        invariant
            i <= a@.len(),
            jview_seq(out@) == jview_seq(a@.subrange(0, i as int)),
        decreases a@.len() - i,
    {
        proof {
            assert(decreases_to!(a@ => a@[i as int]));
        }
        let c = jclone(&a[i]);
        proof {
            lemma_jview_seq_push(out@, c);
            lemma_jview_seq_push(a@.subrange(0, i as int), a@[i as int]);
            assert(a@.subrange(0, i as int).push(a@[i as int]) =~= a@.subrange(0, i as int + 1));
        }
        out.push(c);
        i = i + 1;
    }
    proof {
        assert(a@.subrange(0, a@.len() as int) =~= a@);
    }
    out
}

pub fn jclone_fields(o: &Vec<(String, JsonValue)>) -> (r: Vec<(String, JsonValue)>)
    ensures
        jview_field_seq(r@) == jview_field_seq(o@),
    decreases o@,
{
    let mut out: Vec<(String, JsonValue)> = Vec::new();
    let mut i: usize = 0;
    while i < o.len()
        invariant
            i <= o@.len(),
            jview_field_seq(out@) == jview_field_seq(o@.subrange(0, i as int)),
        decreases o@.len() - i,
    {
        proof {
            assert(decreases_to!(o@ => o@[i as int]));
        }
        let name = o[i].0.clone();
        let c = jclone(&o[i].1);
        proof {
            lemma_jview_field_seq_push(out@, (name, c));
            lemma_jview_field_seq_push(o@.subrange(0, i as int), o@[i as int]);
            assert(o@.subrange(0, i as int).push(o@[i as int]) =~= o@.subrange(0, i as int + 1));
        }
        out.push((name, c));
        i = i + 1;
    }
    proof {
        assert(o@.subrange(0, o@.len() as int) =~= o@);
    }
    out
}


/// The slot of an optional string field.
pub fn get_opt_string(slot: Option<JsonValue>, field: &str) -> (r: Result<
    Option<String>,
    ParseError,
>)
    ensures
        (r is Ok) == is_opt_str(jv_opt(slot)),
        r matches Ok(x) ==> ostr_view(x) == opt_str(jv_opt(slot)),
        r matches Err(e) ==> e matches ParseError::Shape(n, _) && n@ == field@,
{
    match slot {
        None => Ok(None),
        Some(JsonValue::Null) => Ok(None),
        Some(JsonValue::Str(s)) => Ok(Some(s)),
        Some(_) => Err(ParseError::Shape(field.to_owned(), ValueKind::Text)),
    }
}

/// The slot of a required string field.
pub fn get_req_string(slot: Option<JsonValue>, field: &str) -> (r: Result<String, ParseError>)
    ensures
        (r is Ok) == is_req_str(jv_opt(slot)),
        r matches Ok(x) ==> Some(x@) == opt_str(jv_opt(slot)),
        r matches Err(e) ==> (match slot {
            None => e matches ParseError::Missing(n) && n@ == field@,
            Some(_) => e matches ParseError::Shape(n, _) && n@ == field@,
        }),
{
    match slot {
        None => Err(ParseError::Missing(field.to_owned())),
        Some(JsonValue::Str(s)) => Ok(s),
        Some(_) => Err(ParseError::Shape(field.to_owned(), ValueKind::Text)),
    }
}

/// The slot of an optional boolean field.
pub fn get_opt_bool(slot: Option<JsonValue>, field: &str) -> (r: Result<Option<bool>, ParseError>)
    ensures
        (r is Ok) == is_opt_bool(jv_opt(slot)),
        r matches Ok(x) ==> x == opt_bool(jv_opt(slot)),
        r matches Err(e) ==> e matches ParseError::Shape(n, _) && n@ == field@,
{
    match slot {
        None => Ok(None),
        Some(JsonValue::Null) => Ok(None),
        Some(JsonValue::Bool(b)) => Ok(Some(b)),
        Some(_) => Err(ParseError::Shape(field.to_owned(), ValueKind::Boolean)),
    }
}

/// The slot of an optional non-negative integer field.
pub fn get_opt_usize(slot: Option<JsonValue>, field: &str) -> (r: Result<
    Option<usize>,
    ParseError,
>)
    ensures
        (r is Ok) == is_opt_usize(jv_opt(slot)),
        r matches Ok(x) ==> ousize_view(x) == opt_int(jv_opt(slot)),
        r matches Err(e) ==> e matches ParseError::Shape(n, _) && n@ == field@,
{
    match slot {
        None => Ok(None),
        Some(JsonValue::Null) => Ok(None),
        Some(JsonValue::Int(i)) => {
            if i >= 0 && (i as u64) <= (usize::MAX as u64) {
                Ok(Some(i as usize))
            } else {
                Err(ParseError::Shape(field.to_owned(), ValueKind::Integer))
            }
        },
        Some(JsonValue::UInt(u)) => {
            if u <= (usize::MAX as u64) {
                Ok(Some(u as usize))
            } else {
                Err(ParseError::Shape(field.to_owned(), ValueKind::Integer))
            }
        },
        Some(_) => Err(ParseError::Shape(field.to_owned(), ValueKind::Integer)),
    }
}

/// The slot of a required non-negative integer field.
pub fn get_req_usize(slot: Option<JsonValue>, field: &str) -> (r: Result<usize, ParseError>)
    ensures
        (r is Ok) == is_req_usize(jv_opt(slot)),
        r matches Ok(x) ==> Some(x as int) == opt_int(jv_opt(slot)),
        r matches Err(e) ==> (match slot {
            None => e matches ParseError::Missing(n) && n@ == field@,
            Some(_) => e matches ParseError::Shape(n, _) && n@ == field@,
        }),
{
    match slot {
        None => Err(ParseError::Missing(field.to_owned())),
        Some(JsonValue::Int(i)) => {
            if i >= 0 && (i as u64) <= (usize::MAX as u64) {
                Ok(i as usize)
            } else {
                Err(ParseError::Shape(field.to_owned(), ValueKind::Integer))
            }
        },
        Some(JsonValue::UInt(u)) => {
            if u <= (usize::MAX as u64) {
                Ok(u as usize)
            } else {
                Err(ParseError::Shape(field.to_owned(), ValueKind::Integer))
            }
        },
        Some(_) => Err(ParseError::Shape(field.to_owned(), ValueKind::Integer)),
    }
}

/// The slot of an optional signed integer field.
pub fn get_opt_isize(slot: Option<JsonValue>, field: &str) -> (r: Result<
    Option<isize>,
    ParseError,
>)
    ensures
        (r is Ok) == is_opt_isize(jv_opt(slot)),
        r matches Ok(x) ==> oisize_view(x) == opt_int(jv_opt(slot)),
        r matches Err(e) ==> e matches ParseError::Shape(n, _) && n@ == field@,
{
    match slot {
        None => Ok(None),
        Some(JsonValue::Null) => Ok(None),
        Some(JsonValue::Int(i)) => {
            if i >= (isize::MIN as i64) && i <= (isize::MAX as i64) {
                Ok(Some(i as isize))
            } else {
                Err(ParseError::Shape(field.to_owned(), ValueKind::Integer))
            }
        },
        Some(JsonValue::UInt(u)) => {
            if u <= (isize::MAX as u64) {
                Ok(Some(u as isize))
            } else {
                Err(ParseError::Shape(field.to_owned(), ValueKind::Integer))
            }
        },
        Some(_) => Err(ParseError::Shape(field.to_owned(), ValueKind::Integer)),
    }
}

/// The slot of an optional array field.
pub fn get_opt_arr(slot: Option<JsonValue>, field: &str) -> (r: Result<
    Option<Vec<JsonValue>>,
    ParseError,
>)
    ensures
        (r is Ok) == is_opt_arr(jv_opt(slot)),
        r matches Ok(x) ==> (match x {
            Some(items) => opt_arr(jv_opt(slot)) == Some(jview_seq(items@)),
            None => opt_arr(jv_opt(slot)) is None,
        }),
        r matches Err(e) ==> e matches ParseError::Shape(n, _) && n@ == field@,
{
    match slot {
        None => Ok(None),
        Some(JsonValue::Null) => Ok(None),
        Some(JsonValue::Arr(items)) => Ok(Some(items)),
        Some(_) => Err(ParseError::Shape(field.to_owned(), ValueKind::Array)),
    }
}

/// The slot of a required array field.
pub fn get_req_arr(slot: Option<JsonValue>, field: &str) -> (r: Result<Vec<JsonValue>, ParseError>)
    ensures
        (r is Ok) == is_req_arr(jv_opt(slot)),
        r matches Ok(items) ==> opt_arr(jv_opt(slot)) == Some(jview_seq(items@)),
        r matches Err(e) ==> (match slot {
            None => e matches ParseError::Missing(n) && n@ == field@,
            Some(_) => e matches ParseError::Shape(n, _) && n@ == field@,
        }),
{
    match slot {
        None => Err(ParseError::Missing(field.to_owned())),
        Some(JsonValue::Arr(items)) => Ok(items),
        Some(_) => Err(ParseError::Shape(field.to_owned(), ValueKind::Array)),
    }
}

/// The slot of an optional nested-object field.
pub fn get_opt_obj(slot: Option<JsonValue>, field: &str) -> (r: Result<
    Option<Vec<(String, JsonValue)>>,
    ParseError,
>)
    ensures
        (r is Ok) == is_opt_obj(jv_opt(slot)),
        r matches Ok(x) ==> (match x {
            Some(fs) => opt_obj(jv_opt(slot)) == Some(jview_field_seq(fs@)),
            None => opt_obj(jv_opt(slot)) is None,
        }),
        r matches Err(e) ==> e matches ParseError::Shape(n, _) && n@ == field@,
{
    match slot {
        None => Ok(None),
        Some(JsonValue::Null) => Ok(None),
        Some(JsonValue::Obj(fs)) => Ok(Some(fs)),
        Some(_) => Err(ParseError::Shape(field.to_owned(), ValueKind::Object)),
    }
}

/// Emits a non-negative integer, choosing the signed wire form when it fits.
pub fn json_of_usize(u: usize) -> (r: JsonValue)
    ensures
        jview(r) == JVal::Int(u as int),
{
    if (u as u64) <= (i64::MAX as u64) {
        JsonValue::Int(u as i64)
    } else {
        JsonValue::UInt(u as u64)
    }
}

/// Emits a signed integer.
pub fn json_of_isize(i: isize) -> (r: JsonValue)
    ensures
        jview(r) == JVal::Int(i as int),
{
    JsonValue::Int(i as i64)
}


/// The slot of a required boolean field.
pub fn get_req_bool(slot: Option<JsonValue>, field: &str) -> (r: Result<bool, ParseError>)
    ensures
        (r is Ok) == crate::json::is_req_bool(jv_opt(slot)),
        r matches Ok(x) ==> Some(x) == crate::json::opt_bool(jv_opt(slot)),
        r matches Err(e) ==> (match slot {
            None => e matches ParseError::Missing(n) && n@ == field@,
            Some(_) => e matches ParseError::Shape(n, _) && n@ == field@,
        }),
{
    match slot {
        None => Err(ParseError::Missing(field.to_owned())),
        Some(JsonValue::Bool(b)) => Ok(b),
        Some(_) => Err(ParseError::Shape(field.to_owned(), ValueKind::Boolean)),
    }
}

} // verus!
