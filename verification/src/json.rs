//! JSON values as the library reads and builds them, with a mathematical
//! view; the text form is parsed and printed by `serde_json`.

use vstd::prelude::*;
use crate::text::{seq_eq, to_chars};

verus! {

/// A JSON value. A number is held as its decimal text; an object as its
/// entries, in order.
#[derive(Debug, PartialEq)]
pub enum Json {
    Null,
    Bool(bool),
    Number(String),
    Str(String),
    Array(Vec<Json>),
    Object(Vec<(String, Json)>),
}

/// The mathematical form of a [`Json`] value.
pub enum JsonV {
    Null,
    Bool(bool),
    Number(Seq<char>),
    Str(Seq<char>),
    Array(Seq<JsonV>),
    Object(Seq<(Seq<char>, JsonV)>),
}

pub open spec fn jview(j: Json) -> JsonV
    decreases j,
{
    match j {
        Json::Null => JsonV::Null,
        Json::Bool(b) => JsonV::Bool(b),
        Json::Number(n) => JsonV::Number(n@),
        Json::Str(s) => JsonV::Str(s@),
        Json::Array(v) => JsonV::Array(jviews(v@)),
        Json::Object(m) => JsonV::Object(eviews(m@)),
    }
}

pub open spec fn jviews(s: Seq<Json>) -> Seq<JsonV>
    decreases s,
{
    if s.len() == 0 {
        seq![]
    } else {
        jviews(s.drop_last()).push(jview(s.last()))
    }
}

pub open spec fn eviews(s: Seq<(String, Json)>) -> Seq<(Seq<char>, JsonV)>
    decreases s,
{
    if s.len() == 0 {
        seq![]
    } else {
        eviews(s.drop_last()).push((s.last().0@, jview(s.last().1)))
    }
}

impl View for Json {
    type V = JsonV;

    open spec fn view(&self) -> JsonV {
        jview(*self)
    }
}

pub proof fn lemma_jviews(s: Seq<Json>)
    ensures
        jviews(s).len() == s.len(),
        forall|i: int| 0 <= i < s.len() ==> #[trigger] jviews(s)[i] == jview(s[i]),
    decreases s.len(),
{
    if s.len() > 0 {
        lemma_jviews(s.drop_last());
        assert forall|i: int| 0 <= i < s.len() implies #[trigger] jviews(s)[i] == jview(s[i]) by {
            if i < s.len() - 1 {
                assert(s.drop_last()[i] == s[i]);
            }
        }
    }
}

pub proof fn lemma_eviews(s: Seq<(String, Json)>)
    ensures
        eviews(s).len() == s.len(),
        forall|i: int| 0 <= i < s.len() ==> #[trigger] eviews(s)[i] == (s[i].0@, jview(s[i].1)),
    decreases s.len(),
{
    if s.len() > 0 {
        lemma_eviews(s.drop_last());
        assert forall|i: int| 0 <= i < s.len() implies #[trigger] eviews(s)[i] == (
            s[i].0@,
            jview(s[i].1),
        ) by {
            if i < s.len() - 1 {
                assert(s.drop_last()[i] == s[i]);
            }
        }
    }
}

/// The value of the first entry named `key`.
pub open spec fn lookup(m: Seq<(Seq<char>, JsonV)>, key: Seq<char>) -> Option<JsonV>
    decreases m.len(),
{
    if m.len() == 0 {
        None
    } else if m[0].0 == key {
        Some(m[0].1)
    } else {
        lookup(m.drop_first(), key)
    }
}

/// `value.get(key)`: the member named `key` of an object.
pub open spec fn vget(j: JsonV, key: Seq<char>) -> Option<JsonV> {
    match j {
        JsonV::Object(m) => lookup(m, key),
        _ => None,
    }
}

/// `value.get(i)`: the element at `i` of an array.
pub open spec fn vat(j: JsonV, i: int) -> Option<JsonV> {
    match j {
        JsonV::Array(a) => if 0 <= i < a.len() {
            Some(a[i])
        } else {
            None
        },
        _ => None,
    }
}

/// `value.as_str()`.
pub open spec fn vstr(j: JsonV) -> Option<Seq<char>> {
    match j {
        JsonV::Str(s) => Some(s),
        _ => None,
    }
}

/// [`vget`] on an optional value.
pub open spec fn oget(o: Option<JsonV>, key: Seq<char>) -> Option<JsonV> {
    match o {
        Some(j) => vget(j, key),
        None => None,
    }
}

/// [`vstr`] on an optional value.
pub open spec fn ostr(o: Option<JsonV>) -> Option<Seq<char>> {
    match o {
        Some(j) => vstr(j),
        None => None,
    }
}

/// The entries with the first one named `key` given `val`, or with the
/// entry appended when there is none (`Map::insert`).
pub open spec fn insert_entry(m: Seq<(Seq<char>, JsonV)>, key: Seq<char>, val: JsonV) -> Seq<
    (Seq<char>, JsonV),
>
    decreases m.len(),
{
    if m.len() == 0 {
        seq![(key, val)]
    } else if m[0].0 == key {
        m.update(0, (key, val))
    } else {
        seq![m[0]] + insert_entry(m.drop_first(), key, val)
    }
}

/// A string value from its text.
pub fn jstr(s: &str) -> (r: Json)
    ensures
        r@ == JsonV::Str(s@),
{
    Json::Str(s.to_owned())
}

/// Exec form of [`lookup`] on object entries.
pub fn entries_get<'a>(m: &'a Vec<(String, Json)>, key: &str) -> (r: Option<&'a Json>)
    ensures
        r matches Some(v) ==> lookup(eviews(m@), key@) == Some(v@),
        r is None ==> lookup(eviews(m@), key@) is None,
{
    let k = to_chars(key);
    let ghost ms = eviews(m@);
    proof {
        lemma_eviews(m@);
    }
    let mut i: usize = 0;
    assert(ms.skip(0) =~= ms);
    while i < m.len()
        invariant
            i <= m@.len(),
            ms == eviews(m@),
            ms.len() == m@.len(),
            forall|t: int| 0 <= t < m@.len() ==> #[trigger] ms[t] == (m@[t].0@, jview(m@[t].1)),
            k@ == key@,
            lookup(ms.skip(i as int), key@) == lookup(ms, key@),
        decreases m@.len() - i,
    {
        let name = to_chars(m[i].0.as_str());
        assert(ms.skip(i as int)[0] == ms[i as int]);
        if seq_eq(&name, &k) {
            assert(ms[i as int].0 == key@);
            assert(lookup(ms.skip(i as int), key@) == Some(ms[i as int].1));
            return Some(&m[i].1);
        }
        assert(ms.skip(i as int).drop_first() =~= ms.skip(i + 1));
        i = i + 1;
    }
    assert(ms.skip(i as int) =~= Seq::<(Seq<char>, JsonV)>::empty());
    None
}

/// Exec form of [`vget`].
pub fn get<'a>(j: &'a Json, key: &str) -> (r: Option<&'a Json>)
    ensures
        r matches Some(v) ==> vget(j@, key@) == Some(v@),
        r is None ==> vget(j@, key@) is None,
{
    match j {
        Json::Object(m) => entries_get(m, key),
        _ => None,
    }
}

/// Exec form of [`vat`].
pub fn at<'a>(j: &'a Json, i: usize) -> (r: Option<&'a Json>)
    ensures
        r matches Some(v) ==> vat(j@, i as int) == Some(v@),
        r is None ==> vat(j@, i as int) is None,
{
    match j {
        Json::Array(a) => {
            proof {
                lemma_jviews(a@);
            }
            if i < a.len() {
                Some(&a[i])
            } else {
                None
            }
        },
        _ => None,
    }
}

/// Exec form of [`vstr`].
pub fn as_str(j: &Json) -> (r: Option<&str>)
    ensures
        r matches Some(s) ==> vstr(j@) == Some(s@),
        r is None ==> vstr(j@) is None,
{
    match j {
        Json::Str(s) => Some(s.as_str()),
        _ => None,
    }
}

/// Exec form of [`ostr`] after [`oget`]: the text of member `key`, when it
/// is a string.
pub fn get_str<'a>(j: &'a Json, key: &str) -> (r: Option<&'a str>)
    ensures
        r matches Some(s) ==> ostr(vget(j@, key@)) == Some(s@),
        r is None ==> ostr(vget(j@, key@)) is None,
{
    match get(j, key) {
        Some(v) => as_str(v),
        None => None,
    }
}

/// A copy of a value.
pub fn copy_json(j: &Json) -> (r: Json)
    ensures
        r@ == j@,
    decreases j,
{
    match j {
        Json::Null => Json::Null,
        Json::Bool(b) => Json::Bool(*b),
        Json::Number(n) => Json::Number(n.clone()),
        Json::Str(s) => Json::Str(s.clone()),
        Json::Array(a) => {
            let mut out: Vec<Json> = Vec::new();
            let mut i: usize = 0;
            proof {
                lemma_jviews(a@);
            }
            while i < a.len()
                invariant
                    i <= a@.len(),
                    *j == Json::Array(*a),
                    jviews(out@) == jviews(a@).take(i as int),
                    jviews(a@).len() == a@.len(),
                    forall|t: int| 0 <= t < a@.len() ==> #[trigger] jviews(a@)[t] == jview(a@[t]),
                decreases a@.len() - i,
            {
                assert(*j == Json::Array(*a));
                assert(decreases_to!(*j => (*j)->Array_0));
                assert(decreases_to!(*a => a@));
                assert(decreases_to!(a@ => a@[i as int]));
                let c = copy_json(&a[i]);
                let ghost prev = out@;
                out.push(c);
                assert(out@.drop_last() =~= prev);
                assert(jviews(a@).take(i + 1) =~= jviews(a@).take(i as int).push(jview(a@[i as int])));
                i = i + 1;
            }
            assert(jviews(a@).take(a@.len() as int) =~= jviews(a@));
            Json::Array(out)
        },
        Json::Object(m) => {
            let mut out: Vec<(String, Json)> = Vec::new();
            let mut i: usize = 0;
            proof {
                lemma_eviews(m@);
            }
            while i < m.len()
                invariant
                    i <= m@.len(),
                    *j == Json::Object(*m),
                    eviews(out@) == eviews(m@).take(i as int),
                    eviews(m@).len() == m@.len(),
                    forall|t: int| 0 <= t < m@.len() ==> #[trigger] eviews(m@)[t] == (m@[t].0@, jview(m@[t].1)),
                decreases m@.len() - i,
            {
                assert(*j == Json::Object(*m));
                assert(decreases_to!(*j => (*j)->Object_0));
                assert(decreases_to!(*m => m@));
                assert(decreases_to!(m@ => m@[i as int]));
                assert(decreases_to!(m@[i as int] => m@[i as int].1));
                let c = copy_json(&m[i].1);
                let k = m[i].0.clone();
                let ghost prev = out@;
                out.push((k, c));
                assert(out@.drop_last() =~= prev);
                assert(eviews(m@).take(i + 1) =~= eviews(m@).take(i as int).push(
                    (m@[i as int].0@, jview(m@[i as int].1)),
                ));
                i = i + 1;
            }
            assert(eviews(m@).take(m@.len() as int) =~= eviews(m@));
            Json::Object(out)
        },
    }
}

#[verifier::external_type_specification]
#[verifier::external_body]
pub struct ExValue(serde_json::Value);

/// A name for what `serde_json::from_str::<serde_json::Value>` makes of a
/// text: the value when the text is one JSON document, nothing when it is
/// refused.
pub uninterp spec fn json_parse(text: Seq<char>) -> Option<JsonV>;

/// A name for the text `serde_json::to_string` gives a value.
pub uninterp spec fn json_text(v: JsonV) -> Seq<char>;

/// Turns a `serde_json::Value` into a [`Json`], one for one (object entries
/// in the map's order).
#[verifier::external_body]
fn from_value(v: &serde_json::Value) -> Json {
    match v {
        serde_json::Value::Null => Json::Null,
        serde_json::Value::Bool(b) => Json::Bool(*b),
        serde_json::Value::Number(n) => Json::Number(n.to_string()),
        serde_json::Value::String(s) => Json::Str(s.clone()),
        serde_json::Value::Array(a) => Json::Array(a.iter().map(from_value).collect()),
        serde_json::Value::Object(m) => Json::Object(
            m.iter().map(|(k, x)| (k.clone(), from_value(x))).collect(),
        ),
    }
}

/// Turns a [`Json`] into a `serde_json::Value`, one for one (a later entry
/// of an object replacing an earlier one of the same name, and a number
/// text that `serde_json` does not read becoming null).
#[verifier::external_body]
fn to_value(j: &Json) -> serde_json::Value {
    match j {
        Json::Null => serde_json::Value::Null,
        Json::Bool(b) => serde_json::Value::Bool(*b),
        Json::Number(n) => n.parse::<serde_json::Number>().map(serde_json::Value::Number).unwrap_or(
            serde_json::Value::Null,
        ),
        Json::Str(s) => serde_json::Value::String(s.clone()),
        Json::Array(a) => serde_json::Value::Array(a.iter().map(to_value).collect()),
        Json::Object(m) => serde_json::Value::Object(
            m.iter().map(|(k, x)| (k.clone(), to_value(x))).collect(),
        ),
    }
}

/// Parses a text with `serde_json::from_str` into a `serde_json::Value` and
/// converts it; claims only that the outcome is [`json_parse`] of the text.
#[verifier::external_body]
pub(crate) fn parse_json(text: &str) -> (r: Option<Json>)
    ensures
        r matches Some(j) ==> json_parse(text@) == Some(j@),
        r is None ==> json_parse(text@) is None,
{
    match serde_json::from_str::<serde_json::Value>(text) {
        Ok(v) => Some(from_value(&v)),
        Err(_) => None,
    }
}

/// Prints a value with `serde_json::to_string` (which does not fail on a
/// `serde_json::Value`); claims only that the text is [`json_text`] of the
/// value.
#[verifier::external_body]
pub(crate) fn print_json(j: &Json) -> (r: String)
    ensures
        r@ == json_text(j@),
{
    serde_json::to_string(&to_value(j)).unwrap_or_default()
}

/// An object of 1 entry, in the order given.
pub fn obj1(k1: &str, v1: Json) -> (r: Json)
    ensures
        r@ == JsonV::Object(seq![(k1@, v1@)]),
{
    let v = vec![(k1.to_owned(), v1)];
    proof {
        lemma_eviews(v@);
    }
    assert(eviews(v@) =~= seq![(k1@, v1@)]);
    Json::Object(v)
}

/// An object of 2 entries, in the order given.
pub fn obj2(k1: &str, v1: Json, k2: &str, v2: Json) -> (r: Json)
    ensures
        r@ == JsonV::Object(seq![(k1@, v1@), (k2@, v2@)]),
{
    let v = vec![(k1.to_owned(), v1), (k2.to_owned(), v2)];
    proof {
        lemma_eviews(v@);
    }
    assert(eviews(v@) =~= seq![(k1@, v1@), (k2@, v2@)]);
    Json::Object(v)
}

/// An object of 3 entries, in the order given.
pub fn obj3(k1: &str, v1: Json, k2: &str, v2: Json, k3: &str, v3: Json) -> (r: Json)
    ensures
        r@ == JsonV::Object(seq![(k1@, v1@), (k2@, v2@), (k3@, v3@)]),
{
    let v = vec![(k1.to_owned(), v1), (k2.to_owned(), v2), (k3.to_owned(), v3)];
    proof {
        lemma_eviews(v@);
    }
    assert(eviews(v@) =~= seq![(k1@, v1@), (k2@, v2@), (k3@, v3@)]);
    Json::Object(v)
}

/// An object of 4 entries, in the order given.
pub fn obj4(k1: &str, v1: Json, k2: &str, v2: Json, k3: &str, v3: Json, k4: &str, v4: Json) -> (r: Json)
    ensures
        r@ == JsonV::Object(seq![(k1@, v1@), (k2@, v2@), (k3@, v3@), (k4@, v4@)]),
{
    let v = vec![(k1.to_owned(), v1), (k2.to_owned(), v2), (k3.to_owned(), v3), (k4.to_owned(), v4)];
    proof {
        lemma_eviews(v@);
    }
    assert(eviews(v@) =~= seq![(k1@, v1@), (k2@, v2@), (k3@, v3@), (k4@, v4@)]);
    Json::Object(v)
}

/// An object of 5 entries, in the order given.
pub fn obj5(k1: &str, v1: Json, k2: &str, v2: Json, k3: &str, v3: Json, k4: &str, v4: Json, k5: &str, v5: Json) -> (r: Json)
    ensures
        r@ == JsonV::Object(seq![(k1@, v1@), (k2@, v2@), (k3@, v3@), (k4@, v4@), (k5@, v5@)]),
{
    let v = vec![(k1.to_owned(), v1), (k2.to_owned(), v2), (k3.to_owned(), v3), (k4.to_owned(), v4), (k5.to_owned(), v5)];
    proof {
        lemma_eviews(v@);
    }
    assert(eviews(v@) =~= seq![(k1@, v1@), (k2@, v2@), (k3@, v3@), (k4@, v4@), (k5@, v5@)]);
    Json::Object(v)
}

/// An object of 6 entries, in the order given.
pub fn obj6(k1: &str, v1: Json, k2: &str, v2: Json, k3: &str, v3: Json, k4: &str, v4: Json, k5: &str, v5: Json, k6: &str, v6: Json) -> (r: Json)
    ensures
        r@ == JsonV::Object(seq![(k1@, v1@), (k2@, v2@), (k3@, v3@), (k4@, v4@), (k5@, v5@), (k6@, v6@)]),
{
    let v = vec![(k1.to_owned(), v1), (k2.to_owned(), v2), (k3.to_owned(), v3), (k4.to_owned(), v4), (k5.to_owned(), v5), (k6.to_owned(), v6)];
    proof {
        lemma_eviews(v@);
    }
    assert(eviews(v@) =~= seq![(k1@, v1@), (k2@, v2@), (k3@, v3@), (k4@, v4@), (k5@, v5@), (k6@, v6@)]);
    Json::Object(v)
}

/// An array of the values given, in order.
pub fn array_of(v: Vec<Json>) -> (r: Json)
    ensures
        r@ == JsonV::Array(jviews(v@)),
{
    Json::Array(v)
}

/// Copies of the values of a vector.
pub fn copy_all(a: &Vec<Json>) -> (r: Vec<Json>)
    ensures
        jviews(r@) == jviews(a@),
{
    let mut out: Vec<Json> = Vec::new();
    let mut i: usize = 0;
    proof {
        lemma_jviews(a@);
    }
    while i < a.len()
        invariant
            i <= a@.len(),
            jviews(out@) == jviews(a@).take(i as int),
            jviews(a@).len() == a@.len(),
            forall|t: int| 0 <= t < a@.len() ==> #[trigger] jviews(a@)[t] == jview(a@[t]),
        decreases a@.len() - i,
    {
        let c = copy_json(&a[i]);
        let ghost prev = out@;
        out.push(c);
        assert(out@.drop_last() =~= prev);
        assert(jviews(a@).take(i + 1) =~= jviews(a@).take(i as int).push(jview(a@[i as int])));
        i = i + 1;
    }
    assert(jviews(a@).take(a@.len() as int) =~= jviews(a@));
    out
}


/// After setting `key`, looking it up gives the value set.
pub proof fn lemma_lookup_insert_same(m: Seq<(Seq<char>, JsonV)>, key: Seq<char>, val: JsonV)
    ensures
        lookup(insert_entry(m, key, val), key) == Some(val),
    decreases m.len(),
{
    if m.len() > 0 && m[0].0 != key {
        lemma_lookup_insert_same(m.drop_first(), key, val);
        assert((seq![m[0]] + insert_entry(m.drop_first(), key, val)).drop_first() =~= insert_entry(
            m.drop_first(),
            key,
            val,
        ));
    }
}

/// Setting one key leaves every other key as it was.
pub proof fn lemma_lookup_insert_other(m: Seq<(Seq<char>, JsonV)>, key: Seq<char>, val: JsonV, other: Seq<char>)
    requires
        other != key,
    ensures
        lookup(insert_entry(m, key, val), other) == lookup(m, other),
    decreases m.len(),
{
    let r = insert_entry(m, key, val);
    if m.len() == 0 {
        assert(r == seq![(key, val)]);
        assert(r.drop_first() =~= Seq::<(Seq<char>, JsonV)>::empty());
        assert(lookup(r, other) == lookup(r.drop_first(), other));
    } else if m[0].0 != key {
        lemma_lookup_insert_other(m.drop_first(), key, val, other);
        assert(r == seq![m[0]] + insert_entry(m.drop_first(), key, val));
        assert(r[0] == m[0]);
        assert(r.drop_first() =~= insert_entry(m.drop_first(), key, val));
    } else {
        assert(r == m.update(0, (key, val)));
        assert(r[0] == (key, val));
        assert(r.drop_first() =~= m.drop_first());
        assert(lookup(r, other) == lookup(r.drop_first(), other));
    }
}

/// Setting a key to the value it already has changes nothing.
pub proof fn lemma_insert_present(m: Seq<(Seq<char>, JsonV)>, key: Seq<char>, val: JsonV)
    requires
        lookup(m, key) == Some(val),
    ensures
        insert_entry(m, key, val) == m,
    decreases m.len(),
{
    if m.len() > 0 {
        if m[0].0 == key {
            assert(m.update(0, (key, val)) =~= m);
        } else {
            lemma_insert_present(m.drop_first(), key, val);
            assert(seq![m[0]] + m.drop_first() =~= m);
        }
    }
}

} // verus!
