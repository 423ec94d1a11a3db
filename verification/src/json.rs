//! JSON values as the library holds them, with a mathematical view and the
//! accessors that the rendering and selection logic read through.
use vstd::prelude::*;


verus! {

/// A JSON value. Integers are held exactly; any other number is kept by its
/// JSON text.
#[derive(Debug)]
pub enum Json {
    Null,
    Bool(bool),
    Int(i64),
    UInt(u64),
    Float(String),
    Str(String),
    Array(Vec<Json>),
    Object(Vec<(String, Json)>),
}

/// The mathematical content of a JSON value.
pub enum JVal {
    Null,
    Bool(bool),
    Int(int),
    Float(Seq<char>),
    Str(Seq<char>),
    Arr(Seq<JVal>),
    Obj(Seq<(Seq<char>, JVal)>),
}

pub open spec fn jv(j: Json) -> JVal
    decreases j,
{
    match j {
        Json::Null => JVal::Null,
        Json::Bool(b) => JVal::Bool(b),
        Json::Int(i) => JVal::Int(i as int),
        Json::UInt(u) => JVal::Int(u as int),
        Json::Float(s) => JVal::Float(s@),
        Json::Str(s) => JVal::Str(s@),
        Json::Array(v) => JVal::Arr(
            Seq::new(v.len() as nat, |i: int| if 0 <= i < v.len() { jv(v@[i]) } else { JVal::Null }),
        ),
        Json::Object(v) => JVal::Obj(
            Seq::new(
                v.len() as nat,
                |i: int|
                    if 0 <= i < v.len() {
                        (v@[i].0@, jv(v@[i].1))
                    } else {
                        (Seq::empty(), JVal::Null)
                    },
            ),
        ),
    }
}

impl View for Json {
    type V = JVal;

    open spec fn view(&self) -> JVal {
        jv(*self)
    }
}

/// The views of a list of values.
pub open spec fn jvs(v: Seq<Json>) -> Seq<JVal> {
    Seq::new(v.len(), |i: int| jv(v[i]))
}

/// The value under the first entry named `key`.
pub open spec fn obj_lookup(es: Seq<(Seq<char>, JVal)>, key: Seq<char>) -> Option<JVal>
    decreases es.len(),
{
    if es.len() == 0 {
        None
    } else if es[0].0 == key {
        Some(es[0].1)
    } else {
        obj_lookup(es.drop_first(), key)
    }
}

/// Looking a key up in two runs of entries one after the other finds it in
/// the first run where it is there, else in the second.
pub proof fn lemma_lookup_append(a: Seq<(Seq<char>, JVal)>, b: Seq<(Seq<char>, JVal)>, key: Seq<char>)
    ensures
        obj_lookup(a + b, key) == match obj_lookup(a, key) {
            Some(v) => Some(v),
            None => obj_lookup(b, key),
        },
    decreases a.len(),
{
    if a.len() == 0 {
        assert(a + b =~= b);
    } else {
        lemma_lookup_append(a.drop_first(), b, key);
        assert((a + b).drop_first() =~= a.drop_first() + b);
    }
}

impl JVal {
    /// `Value::get(key)`: the member `key` of an object, `None` for anything else.
    pub open spec fn get(self, key: Seq<char>) -> Option<JVal> {
        match self {
            JVal::Obj(es) => obj_lookup(es, key),
            _ => None,
        }
    }

    /// `value[key]`: the member `key`, or `Null` where there is none.
    pub open spec fn field(self, key: Seq<char>) -> JVal {
        match self.get(key) {
            Some(v) => v,
            None => JVal::Null,
        }
    }

    pub open spec fn as_str(self) -> Option<Seq<char>> {
        match self {
            JVal::Str(s) => Some(s),
            _ => None,
        }
    }

    pub open spec fn as_i64(self) -> Option<int> {
        match self {
            JVal::Int(i) => if i64::MIN <= i <= i64::MAX { Some(i) } else { None },
            _ => None,
        }
    }

    pub open spec fn as_u64(self) -> Option<int> {
        match self {
            JVal::Int(i) => if 0 <= i <= u64::MAX { Some(i) } else { None },
            _ => None,
        }
    }

    pub open spec fn as_bool(self) -> Option<bool> {
        match self {
            JVal::Bool(b) => Some(b),
            _ => None,
        }
    }

    pub open spec fn as_arr(self) -> Option<Seq<JVal>> {
        match self {
            JVal::Arr(a) => Some(a),
            _ => None,
        }
    }

    /// The string member `key`, if the member exists and is a string.
    pub open spec fn str_at(self, key: Seq<char>) -> Option<Seq<char>> {
        match self.get(key) {
            Some(v) => v.as_str(),
            None => None,
        }
    }

    /// The integer member `key`, if it exists and fits in `i64`.
    pub open spec fn i64_at(self, key: Seq<char>) -> Option<int> {
        match self.get(key) {
            Some(v) => v.as_i64(),
            None => None,
        }
    }

    /// The boolean member `key`, if it exists and is a boolean.
    pub open spec fn bool_at(self, key: Seq<char>) -> Option<bool> {
        match self.get(key) {
            Some(v) => v.as_bool(),
            None => None,
        }
    }

    /// The array member `key`, if it exists and is an array.
    pub open spec fn arr_at(self, key: Seq<char>) -> Option<Seq<JVal>> {
        match self.get(key) {
            Some(v) => v.as_arr(),
            None => None,
        }
    }

    /// Whether the member `key` exists.
    pub open spec fn has(self, key: Seq<char>) -> bool {
        self.get(key) is Some
    }
}

/// The entries of an object, viewed.
pub open spec fn entries_view(v: Seq<(String, Json)>) -> Seq<(Seq<char>, JVal)> {
    Seq::new(v.len(), |i: int| (v[i].0@, jv(v[i].1)))
}

pub proof fn lemma_obj_view(v: Vec<(String, Json)>)
    ensures
        jv(Json::Object(v)) == JVal::Obj(entries_view(v@)),
{
    match jv(Json::Object(v)) {
        JVal::Obj(es) => {
            assert(es =~= entries_view(v@));
        },
        _ => {},
    }
}

pub proof fn lemma_arr_view(v: Vec<Json>)
    ensures
        jv(Json::Array(v)) == JVal::Arr(jvs(v@)),
{
    match jv(Json::Array(v)) {
        JVal::Arr(a) => {
            assert(a =~= jvs(v@));
        },
        _ => {},
    }
}

impl Json {
    /// `Value::get(key)`.
    pub fn get(&self, key: &str) -> (r: Option<&Json>)
        ensures
            r matches Some(x) ==> self@.get(key@) == Some(x@),
            r is None ==> self@.get(key@) is None,
    {
        match self {
            Json::Object(es) => {
                proof {
                    lemma_obj_view(*es);
                }
                let k = key.to_owned();
                let mut i: usize = 0;
                assert(entries_view(es@).skip(0) =~= entries_view(es@));
                while i < es.len()
                    invariant
                        i <= es@.len(),
                        k@ == key@,
                        self@ == JVal::Obj(entries_view(es@)),
                        obj_lookup(entries_view(es@), key@) == obj_lookup(
                            entries_view(es@).skip(i as int),
                            key@,
                        ),
                    decreases es@.len() - i,
                {
                    assert(entries_view(es@).skip(i as int).drop_first() =~= entries_view(es@).skip(
                        i + 1,
                    ));
                    if es[i].0 == k {
                        let ghost sk = entries_view(es@).skip(i as int);
                        assert(sk[0] == (es@[i as int].0@, jv(es@[i as int].1)));
                        assert(sk[0].0 == key@);
                        assert(obj_lookup(sk, key@) == Some(jv(es@[i as int].1)));
                        return Some(&es[i].1);
                    }
                    i += 1;
                }
                None
            },
            _ => None,
        }
    }

    /// The member `key` if it is a string.
    pub fn get_str(&self, key: &str) -> (r: Option<&String>)
        ensures
            r matches Some(s) ==> self@.str_at(key@) == Some(s@),
            r is None ==> self@.str_at(key@) is None,
    {
        match self.get(key) {
            Some(Json::Str(s)) => Some(s),
            _ => None,
        }
    }

    /// The member `key` if it is an integer in `i64` range.
    pub fn get_i64(&self, key: &str) -> (r: Option<i64>)
        ensures
            r matches Some(n) ==> self@.i64_at(key@) == Some(n as int),
            r is None ==> self@.i64_at(key@) is None,
    {
        match self.get(key) {
            Some(v) => v.as_i64(),
            None => None,
        }
    }

    /// The member `key` if it is a boolean.
    pub fn get_bool(&self, key: &str) -> (r: Option<bool>)
        ensures
            r == self@.bool_at(key@),
    {
        match self.get(key) {
            Some(Json::Bool(b)) => Some(*b),
            _ => None,
        }
    }

    /// The member `key` if it is an array.
    pub fn get_array(&self, key: &str) -> (r: Option<&Vec<Json>>)
        ensures
            r matches Some(a) ==> self@.arr_at(key@) == Some(jvs(a@)),
            r is None ==> self@.arr_at(key@) is None,
    {
        match self.get(key) {
            Some(Json::Array(a)) => {
                proof {
                    lemma_arr_view(*a);
                }
                Some(a)
            },
            _ => None,
        }
    }

    /// `Value::as_i64`.
    pub fn as_i64(&self) -> (r: Option<i64>)
        ensures
            r matches Some(n) ==> self@.as_i64() == Some(n as int),
            r is None ==> self@.as_i64() is None,
    {
        match self {
            Json::Int(i) => Some(*i),
            Json::UInt(u) => if *u <= 9223372036854775807u64 {
                Some(*u as i64)
            } else {
                None
            },
            _ => None,
        }
    }

    /// `Value::as_u64`.
    pub fn as_u64(&self) -> (r: Option<u64>)
        ensures
            r matches Some(n) ==> self@.as_u64() == Some(n as int),
            r is None ==> self@.as_u64() is None,
    {
        match self {
            Json::Int(i) => if *i >= 0 {
                Some(*i as u64)
            } else {
                None
            },
            Json::UInt(u) => Some(*u),
            _ => None,
        }
    }

    /// `Value::as_str`.
    pub fn as_str(&self) -> (r: Option<&String>)
        ensures
            r matches Some(s) ==> self@.as_str() == Some(s@),
            r is None ==> self@.as_str() is None,
    {
        match self {
            Json::Str(s) => Some(s),
            _ => None,
        }
    }

    /// `Value::as_array`.
    pub fn as_array(&self) -> (r: Option<&Vec<Json>>)
        ensures
            r matches Some(a) ==> self@.as_arr() == Some(jvs(a@)),
            r is None ==> self@.as_arr() is None,
    {
        match self {
            Json::Array(a) => {
                proof {
                    lemma_arr_view(*a);
                }
                Some(a)
            },
            _ => None,
        }
    }

    /// Whether the member `key` exists.
    pub fn has(&self, key: &str) -> (r: bool)
        ensures
            r == self@.has(key@),
    {
        self.get(key).is_some()
    }

    /// A string value holding `s`.
    pub fn string(s: &str) -> (r: Json)
        ensures
            r@ == JVal::Str(s@),
    {
        Json::Str(s.to_owned())
    }
}

/// An object entry.
pub fn entry(key: &str, value: Json) -> (r: (String, Json))
    ensures
        r.0@ == key@,
        r.1 == value,
{
    (key.to_owned(), value)
}

} // verus!

verus! {

impl Json {
    /// A copy of this value with the same content.
    pub fn deep_clone(&self) -> (r: Json)
        ensures
            r@ == self@,
        decreases self,
    {
        match self {
            Json::Null => Json::Null,
            Json::Bool(b) => Json::Bool(*b),
            Json::Int(i) => Json::Int(*i),
            Json::UInt(u) => Json::UInt(*u),
            Json::Float(s) => Json::Float(s.clone()),
            Json::Str(s) => Json::Str(s.clone()),
            Json::Array(a) => {
                let r = clone_values(a);
                proof {
                    lemma_arr_view(*a);
                    lemma_arr_view(r);
                }
                Json::Array(r)
            },
            Json::Object(es) => {
                let out = clone_entries(es);
                proof {
                    lemma_obj_view(*es);
                    lemma_obj_view(out);
                }
                Json::Object(out)
            },
        }
    }
}

/// Copies of a list of object entries.
pub fn clone_entries(es: &Vec<(String, Json)>) -> (r: Vec<(String, Json)>)
    ensures
        entries_view(r@) == entries_view(es@),
    decreases es,
{
    let mut out: Vec<(String, Json)> = Vec::new();
    let mut i: usize = 0;
    while i < es.len()
        invariant
            i <= es@.len(),
            out@.len() == i,
            forall|k: int| 0 <= k < i ==> #[trigger] entries_view(out@)[k] == entries_view(es@)[k],
        decreases es@.len() - i,
    {
        proof {
            assert(decreases_to!(es => es@));
            assert(decreases_to!(es@ => es@[i as int]));
            assert(decreases_to!(es@[i as int] => es@[i as int].1));
        }
        let v = es[i].1.deep_clone();
        let ghost before = out@;
        out.push((es[i].0.clone(), v));
        assert forall|k: int| 0 <= k < i + 1 implies #[trigger] entries_view(out@)[k] == entries_view(es@)[k] by {
            if k < i {
                assert(out@[k] == before[k]);
                assert(entries_view(before)[k] == entries_view(es@)[k]);
            }
        }
        i += 1;
    }
    assert(entries_view(out@) =~= entries_view(es@));
    out
}

/// Copies of a list of values.
pub fn clone_values(a: &Vec<Json>) -> (r: Vec<Json>)
    ensures
        jvs(r@) == jvs(a@),
    decreases a,
{
    let mut out: Vec<Json> = Vec::new();
    let mut i: usize = 0;
    while i < a.len()
        invariant
            i <= a@.len(),
            out@.len() == i,
            forall|k: int| 0 <= k < i ==> #[trigger] jv(out@[k]) == jv(a@[k]),
        decreases a@.len() - i,
    {
        assert(a@[i as int] == a[i as int]);
        let v = a[i].deep_clone();
        out.push(v);
        i += 1;
    }
    assert(jvs(out@) =~= jvs(a@));
    out
}

} // verus!
