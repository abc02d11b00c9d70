//! A plain JSON tree and the trusted boundary to the JSON parser.
//!
//! The remote reply is parsed by `serde_json` into its `Value` tree, which is
//! opaque to the verifier.  A trusted conversion moves that tree, variant by
//! variant, into the library's own [`Json`], whose mathematical shape is
//! [`Jv`].  Everything that reads the tree afterwards is verified code.

use vstd::prelude::*;

verus! {

broadcast use vstd::std_specs::vec::group_vec_axioms;

/// The mathematical shape of a parsed JSON document.
pub enum Jv {
    /// A JSON `null`.
    Null,
    /// A JSON boolean.
    Bool(bool),
    /// A JSON number that is an unsigned integer; the only numbers the
    /// decoder ever reads (error locations).
    Num(u64),
    /// Any other JSON number (negative or fractional); the decoder treats
    /// such a value as unreadable.
    NumOther,
    /// A JSON string.
    Str(Seq<char>),
    /// A JSON array, in received order.
    Arr(Seq<Jv>),
    /// A JSON object as a key/value listing, in received order; a lookup
    /// reads the first binding of a key.
    Obj(Seq<(Seq<char>, Jv)>),
}

/// An executable JSON tree holding only plain values.
pub enum Json {
    /// A JSON `null`.
    Null,
    /// A JSON boolean.
    Bool(bool),
    /// A JSON number that is an unsigned integer.
    Num(u64),
    /// Any other JSON number (negative or fractional).
    NumOther,
    /// A JSON string.
    Str(String),
    /// A JSON array, in received order.
    Arr(Vec<Json>),
    /// A JSON object as a key/value listing, in received order; a lookup
    /// reads the first binding of a key.
    Obj(Vec<(String, Json)>),
}

impl Json {
    /// The mathematical value of this tree.
    pub open spec fn jv(self) -> Jv
        decreases self,
    {
        match self {
            Json::Null => Jv::Null,
            Json::Bool(b) => Jv::Bool(b),
            Json::Num(n) => Jv::Num(n),
            Json::NumOther => Jv::NumOther,
            Json::Str(s) => Jv::Str(s@),
            Json::Arr(items) => Jv::Arr(
                Seq::new(
                    items@.len(),
                    |i: int|
                        if 0 <= i < items@.len() {
                            items@[i].jv()
                        } else {
                            Jv::Null
                        },
                ),
            ),
            Json::Obj(fields) => Jv::Obj(
                Seq::new(
                    fields@.len(),
                    |i: int|
                        if 0 <= i < fields@.len() {
                            (fields@[i].0@, fields@[i].1.jv())
                        } else {
                            (Seq::empty(), Jv::Null)
                        },
                ),
            ),
        }
    }
}

/// The element-wise mathematical shape of a tree listing.
pub open spec fn jvs_of(items: Seq<Json>) -> Seq<Jv> {
    Seq::new(items.len(), |i: int| items[i].jv())
}

/// The value under `key` in an object's field listing: the first binding
/// whose key matches, if any.
pub open spec fn spec_lookup(fields: Seq<(Seq<char>, Jv)>, key: Seq<char>) -> Option<Jv>
    decreases fields.len(),
{
    if fields.len() == 0 {
        None
    } else if fields[0].0 == key {
        Some(fields[0].1)
    } else {
        spec_lookup(fields.drop_first(), key)
    }
}

/// The value under `key` if `j` is an object that carries it.
pub open spec fn jv_get(j: Jv, key: Seq<char>) -> Option<Jv> {
    match j {
        Jv::Obj(fields) => spec_lookup(fields, key),
        _ => None,
    }
}

/// Character-for-character string equality.
pub fn str_eq(a: &str, b: &str) -> (r: bool)
    ensures
        r == (a@ == b@),
{
    let an = a.unicode_len();
    let bn = b.unicode_len();
    if an != bn {
        return false;
    }
    for i in 0..an
        invariant
            an == a@.len(),
            an == b@.len(),
            forall|j: int| 0 <= j < i ==> a@[j] == b@[j],
    {
        if a.get_char(i) != b.get_char(i) {
            return false;
        }
    }
    proof {
        assert(a@ =~= b@);
    }
    true
}

proof fn lemma_lookup_step(fields: Seq<(Seq<char>, Jv)>, key: Seq<char>, i: int)
    requires
        0 <= i < fields.len(),
        fields[i].0 != key,
    ensures
        spec_lookup(fields.skip(i), key) == spec_lookup(fields.skip(i + 1), key),
{
    assert(fields.skip(i).drop_first() =~= fields.skip(i + 1));
}

impl Json {
    /// The value under `key` when this tree is an object carrying it.
    pub fn get<'a>(&'a self, key: &str) -> (r: Option<&'a Json>)
        ensures
            match r {
                Some(v) => jv_get(self.jv(), key@) == Some(v.jv()),
                None => jv_get(self.jv(), key@) is None,
            },
    {
        match self {
            Json::Obj(fields) => {
                let ghost fobj: Seq<(Seq<char>, Jv)> = self.jv()->Obj_0;
                proof {
                    assert(fobj.skip(0) =~= fobj);
                }
                let n = fields.len();
                for i in 0..n
                    invariant
                        n == fields@.len(),
                        fobj.len() == n,
                        fobj == self.jv()->Obj_0,
                        self.jv() is Obj,
                        forall|k: int|
                            0 <= k < n ==> fobj[k] == (fields@[k].0@, fields@[k].1.jv()),
                        jv_get(self.jv(), key@) == spec_lookup(fobj.skip(i as int), key@),
                {
                    if str_eq(fields[i].0.as_str(), key) {
                        assert(fobj.skip(i as int)[0] == fobj[i as int]);
                        return Some(&fields[i].1);
                    }
                    proof {
                        assert(fobj.skip(i as int)[0] == fobj[i as int]);
                        lemma_lookup_step(fobj, key@, i as int);
                    }
                }
                assert(fobj.skip(n as int) =~= Seq::empty());
                None
            },
            _ => None,
        }
    }
}

impl Json {
    /// The carried string, when this tree is a JSON string.
    pub fn as_str(&self) -> (r: Option<&String>)
        ensures
            match r {
                Some(s) => self.jv() == Jv::Str(s@),
                None => !(self.jv() is Str),
            },
    {
        match self {
            Json::Str(s) => Some(s),
            _ => None,
        }
    }

    /// The carried items, when this tree is a JSON array.
    pub fn as_arr(&self) -> (r: Option<&Vec<Json>>)
        ensures
            match r {
                Some(items) => {
                    &&& self.jv() is Arr
                    &&& self.jv()->Arr_0.len() == items@.len()
                    &&& forall|i: int|
                        0 <= i < items@.len() ==> self.jv()->Arr_0[i] == items@[i].jv()
                },
                None => !(self.jv() is Arr),
            },
    {
        match self {
            Json::Arr(items) => Some(items),
            _ => None,
        }
    }

    /// The carried integer, when this tree is an unsigned JSON number.
    pub fn as_num(&self) -> (r: Option<u64>)
        ensures
            match r {
                Some(n) => self.jv() == Jv::Num(n),
                None => !(self.jv() is Num),
            },
    {
        match self {
            Json::Num(n) => Some(*n),
            _ => None,
        }
    }

    /// Whether this tree is a JSON `null`.
    pub fn is_null(&self) -> (r: bool)
        ensures
            r == (self.jv() is Null),
    {
        match self {
            Json::Null => true,
            _ => false,
        }
    }
}

#[verifier::external_type_specification]
#[verifier::external_body]
pub struct ExValue(serde_json::Value);

/// The JSON tree that the body text parses to, or nothing where the text is
/// not valid JSON.  The result depends on the text alone.
pub uninterp spec fn json_of(s: Seq<char>) -> Option<Jv>;

/// Relies on `serde_json::Value` being a plain tree: each variant is moved,
/// one arm each, into the library's own `Json`; a number is kept when it is
/// an unsigned integer and marked unreadable otherwise.
#[verifier::external_body]
fn from_value(v: serde_json::Value) -> Json {
    match v {
        serde_json::Value::Null => Json::Null,
        serde_json::Value::Bool(b) => Json::Bool(b),
        serde_json::Value::Number(n) => match n.as_u64() {
            Some(u) => Json::Num(u),
            None => Json::NumOther,
        },
        serde_json::Value::String(s) => Json::Str(s),
        serde_json::Value::Array(a) => Json::Arr(a.into_iter().map(from_value).collect()),
        serde_json::Value::Object(m) => Json::Obj(
            m.into_iter().map(|(k, x)| (k, from_value(x))).collect(),
        ),
    }
}

/// Relies on `serde_json::from_str::<Value>`: it returns a tree exactly when
/// the text is valid JSON, and the tree is a function of the text alone.
#[verifier::external_body]
pub(crate) fn parse_json(s: &str) -> (r: Option<Json>)
    ensures
        r is Some <==> json_of(s@) is Some,
        r matches Some(j) ==> json_of(s@) == Some(j.jv()),
{
    serde_json::from_str::<serde_json::Value>(s).ok().map(from_value)
}

} // verus!
