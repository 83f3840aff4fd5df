//! TOML values as the manifest rewrites read them, with a mathematical
//! view; documents are parsed by the `toml` crate.

use vstd::prelude::*;
use crate::text::{extend, extend_lit, fmt_i64, from_chars, seq_eq, signed_dec, to_chars};

verus! {

/// A TOML value. A float and a datetime are held as the text they print
/// as; a table as its entries, in order.
#[derive(Debug)]
pub enum Toml {
    Str(String),
    Int(i64),
    Float(String),
    Bool(bool),
    Datetime(String),
    Array(Vec<Toml>),
    Table(Vec<(String, Toml)>),
}

/// The mathematical form of a [`Toml`] value.
pub enum TomlV {
    Str(Seq<char>),
    Int(int),
    Float(Seq<char>),
    Bool(bool),
    Datetime(Seq<char>),
    Array(Seq<TomlV>),
    Table(Seq<(Seq<char>, TomlV)>),
}

pub open spec fn tview(t: Toml) -> TomlV
    decreases t,
{
    match t {
        Toml::Str(s) => TomlV::Str(s@),
        Toml::Int(i) => TomlV::Int(i as int),
        Toml::Float(f) => TomlV::Float(f@),
        Toml::Bool(b) => TomlV::Bool(b),
        Toml::Datetime(d) => TomlV::Datetime(d@),
        Toml::Array(a) => TomlV::Array(tviews(a@)),
        Toml::Table(m) => TomlV::Table(teviews(m@)),
    }
}

pub open spec fn tviews(s: Seq<Toml>) -> Seq<TomlV>
    decreases s,
{
    if s.len() == 0 {
        seq![]
    } else {
        tviews(s.drop_last()).push(tview(s.last()))
    }
}

pub open spec fn teviews(s: Seq<(String, Toml)>) -> Seq<(Seq<char>, TomlV)>
    decreases s,
{
    if s.len() == 0 {
        seq![]
    } else {
        teviews(s.drop_last()).push((s.last().0@, tview(s.last().1)))
    }
}

impl View for Toml {
    type V = TomlV;

    open spec fn view(&self) -> TomlV {
        tview(*self)
    }
}

pub proof fn lemma_tviews(s: Seq<Toml>)
    ensures
        tviews(s).len() == s.len(),
        forall|i: int| 0 <= i < s.len() ==> #[trigger] tviews(s)[i] == tview(s[i]),
    decreases s.len(),
{
    if s.len() > 0 {
        lemma_tviews(s.drop_last());
        assert forall|i: int| 0 <= i < s.len() implies #[trigger] tviews(s)[i] == tview(s[i]) by {
            if i < s.len() - 1 {
                assert(s.drop_last()[i] == s[i]);
            }
        }
    }
}

pub proof fn lemma_teviews(s: Seq<(String, Toml)>)
    ensures
        teviews(s).len() == s.len(),
        forall|i: int| 0 <= i < s.len() ==> #[trigger] teviews(s)[i] == (s[i].0@, tview(s[i].1)),
    decreases s.len(),
{
    if s.len() > 0 {
        lemma_teviews(s.drop_last());
        assert forall|i: int| 0 <= i < s.len() implies #[trigger] teviews(s)[i] == (
            s[i].0@,
            tview(s[i].1),
        ) by {
            if i < s.len() - 1 {
                assert(s.drop_last()[i] == s[i]);
            }
        }
    }
}

/// The value of the first entry named `key`.
pub open spec fn tlookup(m: Seq<(Seq<char>, TomlV)>, key: Seq<char>) -> Option<TomlV>
    decreases m.len(),
{
    if m.len() == 0 {
        None
    } else if m[0].0 == key {
        Some(m[0].1)
    } else {
        tlookup(m.drop_first(), key)
    }
}

/// `value.get(key)`: the member `key` of a table.
pub open spec fn tget(v: TomlV, key: Seq<char>) -> Option<TomlV> {
    match v {
        TomlV::Table(m) => tlookup(m, key),
        _ => None,
    }
}

/// [`tget`] on an optional value.
pub open spec fn toget(o: Option<TomlV>, key: Seq<char>) -> Option<TomlV> {
    match o {
        Some(v) => tget(v, key),
        None => None,
    }
}

/// Exec form of [`tlookup`].
pub fn entries_get<'a>(m: &'a Vec<(String, Toml)>, key: &str) -> (r: Option<&'a Toml>)
    ensures
        r matches Some(v) ==> tlookup(teviews(m@), key@) == Some(v@),
        r is None ==> tlookup(teviews(m@), key@) is None,
{
    let k = to_chars(key);
    let ghost ms = teviews(m@);
    proof {
        lemma_teviews(m@);
    }
    let mut i: usize = 0;
    assert(ms.skip(0) =~= ms);
    while i < m.len()
        invariant
            i <= m@.len(),
            ms == teviews(m@),
            ms.len() == m@.len(),
            forall|t: int| 0 <= t < m@.len() ==> #[trigger] ms[t] == (m@[t].0@, tview(m@[t].1)),
            k@ == key@,
            tlookup(ms.skip(i as int), key@) == tlookup(ms, key@),
        decreases m@.len() - i,
    {
        let name = to_chars(m[i].0.as_str());
        assert(ms.skip(i as int)[0] == ms[i as int]);
        if seq_eq(&name, &k) {
            assert(tlookup(ms.skip(i as int), key@) == Some(ms[i as int].1));
            return Some(&m[i].1);
        }
        assert(ms.skip(i as int).drop_first() =~= ms.skip(i + 1));
        i = i + 1;
    }
    assert(ms.skip(i as int) =~= Seq::<(Seq<char>, TomlV)>::empty());
    None
}

/// Exec form of [`tget`].
pub fn tget_exec<'a>(v: &'a Toml, key: &str) -> (r: Option<&'a Toml>)
    ensures
        r matches Some(x) ==> tget(v@, key@) == Some(x@),
        r is None ==> tget(v@, key@) is None,
{
    match v {
        Toml::Table(m) => entries_get(m, key),
        _ => None,
    }
}

// ---------------------------------------------------------------------------
// Rendering
// ---------------------------------------------------------------------------

/// The items joined with `", "`.
pub open spec fn join(items: Seq<Seq<char>>) -> Seq<char>
    decreases items.len(),
{
    if items.len() == 0 {
        seq![]
    } else if items.len() == 1 {
        items[0]
    } else {
        join(items.drop_last()) + ", "@ + items.last()
    }
}

/// A value written inline: strings and datetimes in double quotes (as
/// they are, without escaping), arrays as `[a, b]`, tables as
/// `{ k = v, .. }`.
pub open spec fn render(v: TomlV) -> Seq<char>
    decreases v, 1nat,
{
    match v {
        TomlV::Str(s) => "\""@ + s + "\""@,
        TomlV::Int(i) => signed_dec(i),
        TomlV::Float(f) => f,
        TomlV::Bool(b) => if b {
            "true"@
        } else {
            "false"@
        },
        TomlV::Datetime(d) => "\""@ + d + "\""@,
        TomlV::Array(a) => "["@ + render_items(a) + "]"@,
        TomlV::Table(m) => "{ "@ + render_entries(m) + " }"@,
    }
}

/// The items rendered and joined with `", "`.
pub open spec fn render_items(a: Seq<TomlV>) -> Seq<char>
    decreases a, 0nat,
{
    if a.len() == 0 {
        seq![]
    } else if a.len() == 1 {
        render(a[0])
    } else {
        render_items(a.drop_last()) + ", "@ + render(a.last())
    }
}

/// The entries rendered as `k = v` and joined with `", "`.
pub open spec fn render_entries(m: Seq<(Seq<char>, TomlV)>) -> Seq<char>
    decreases m, 0nat,
{
    if m.len() == 0 {
        seq![]
    } else if m.len() == 1 {
        m[0].0 + " = "@ + render(m[0].1)
    } else {
        render_entries(m.drop_last()) + ", "@ + m.last().0 + " = "@ + render(m.last().1)
    }
}

/// Writes a value inline (see [`render`]).
pub fn render_toml_value(v: &Toml) -> (r: Vec<char>)
    ensures
        r@ == render(v@),
    decreases v,
{
    match v {
        Toml::Str(s) => {
            let mut out = to_chars("\"");
            extend(&mut out, &to_chars(s.as_str()));
            extend_lit(&mut out, "\"");
            out
        },
        Toml::Int(i) => fmt_i64(*i),
        Toml::Float(f) => to_chars(f.as_str()),
        Toml::Bool(b) => if *b {
            to_chars("true")
        } else {
            to_chars("false")
        },
        Toml::Datetime(d) => {
            let mut out = to_chars("\"");
            extend(&mut out, &to_chars(d.as_str()));
            extend_lit(&mut out, "\"");
            out
        },
        Toml::Array(a) => {
            let mut out = to_chars("[");
            proof {
                lemma_tviews(a@);
            }
            let ghost av = tviews(a@);
            let mut body: Vec<char> = Vec::new();
            let mut i: usize = 0;
            assert(av.take(0) =~= Seq::<TomlV>::empty());
            while i < a.len()
                invariant
                    i <= a@.len(),
                    *v == Toml::Array(*a),
                    av == tviews(a@),
                    av.len() == a@.len(),
                    forall|t: int| 0 <= t < a@.len() ==> #[trigger] av[t] == tview(a@[t]),
                    body@ == render_items(av.take(i as int)),
                decreases a@.len() - i,
            {
                assert(decreases_to!(*v => (*v)->Array_0));
                assert(decreases_to!((*v)->Array_0 => a@));
                assert(decreases_to!(a@ => a@[i as int]));
                let item = render_toml_value(&a[i]);
                assert(av.take(i + 1).drop_last() =~= av.take(i as int));
                if i > 0 {
                    extend_lit(&mut body, ", ");
                } else {
                    assert(av.take(1) =~= seq![av[0]]);
                }
                extend(&mut body, &item);
                i = i + 1;
            }
            assert(av.take(a@.len() as int) =~= av);
            extend(&mut out, &body);
            extend_lit(&mut out, "]");
            out
        },
        Toml::Table(m) => {
            let mut out = to_chars("{ ");
            proof {
                lemma_teviews(m@);
            }
            let ghost mv = teviews(m@);
            let mut body: Vec<char> = Vec::new();
            let mut i: usize = 0;
            assert(mv.take(0) =~= Seq::<(Seq<char>, TomlV)>::empty());
            while i < m.len()
                invariant
                    i <= m@.len(),
                    *v == Toml::Table(*m),
                    mv == teviews(m@),
                    mv.len() == m@.len(),
                    forall|t: int| 0 <= t < m@.len() ==> #[trigger] mv[t] == (m@[t].0@, tview(m@[t].1)),
                    body@ == render_entries(mv.take(i as int)),
                decreases m@.len() - i,
            {
                assert(decreases_to!(*v => (*v)->Table_0));
                assert(decreases_to!((*v)->Table_0 => m@));
                assert(decreases_to!(m@ => m@[i as int]));
                assert(decreases_to!(m@[i as int] => m@[i as int].1));
                let item = render_toml_value(&m[i].1);
                assert(mv.take(i + 1).drop_last() =~= mv.take(i as int));
                if i > 0 {
                    extend_lit(&mut body, ", ");
                } else {
                    assert(mv.take(1) =~= seq![mv[0]]);
                }
                extend(&mut body, &to_chars(m[i].0.as_str()));
                extend_lit(&mut body, " = ");
                extend(&mut body, &item);
                i = i + 1;
            }
            assert(mv.take(m@.len() as int) =~= mv);
            extend(&mut out, &body);
            extend_lit(&mut out, " }");
            out
        },
    }
}

/// A copy of a value.
pub fn copy_toml(v: &Toml) -> (r: Toml)
    ensures
        r@ == v@,
    decreases v,
{
    match v {
        Toml::Str(s) => Toml::Str(s.clone()),
        Toml::Int(i) => Toml::Int(*i),
        Toml::Float(f) => Toml::Float(f.clone()),
        Toml::Bool(b) => Toml::Bool(*b),
        Toml::Datetime(d) => Toml::Datetime(d.clone()),
        Toml::Array(a) => {
            let mut out: Vec<Toml> = Vec::new();
            let mut i: usize = 0;
            proof {
                lemma_tviews(a@);
            }
            while i < a.len()
                invariant
                    i <= a@.len(),
                    *v == Toml::Array(*a),
                    tviews(out@) == tviews(a@).take(i as int),
                    tviews(a@).len() == a@.len(),
                    forall|t: int| 0 <= t < a@.len() ==> #[trigger] tviews(a@)[t] == tview(a@[t]),
                decreases a@.len() - i,
            {
                assert(decreases_to!(*v => (*v)->Array_0));
                assert(decreases_to!((*v)->Array_0 => a@));
                assert(decreases_to!(a@ => a@[i as int]));
                let c = copy_toml(&a[i]);
                let ghost prev = out@;
                out.push(c);
                assert(out@.drop_last() =~= prev);
                assert(tviews(a@).take(i + 1) =~= tviews(a@).take(i as int).push(tview(a@[i as int])));
                i = i + 1;
            }
            assert(tviews(a@).take(a@.len() as int) =~= tviews(a@));
            Toml::Array(out)
        },
        Toml::Table(m) => {
            let mut out: Vec<(String, Toml)> = Vec::new();
            let mut i: usize = 0;
            proof {
                lemma_teviews(m@);
            }
            while i < m.len()
                invariant
                    i <= m@.len(),
                    *v == Toml::Table(*m),
                    teviews(out@) == teviews(m@).take(i as int),
                    teviews(m@).len() == m@.len(),
                    forall|t: int| 0 <= t < m@.len() ==> #[trigger] teviews(m@)[t] == (m@[t].0@, tview(m@[t].1)),
                decreases m@.len() - i,
            {
                assert(decreases_to!(*v => (*v)->Table_0));
                assert(decreases_to!((*v)->Table_0 => m@));
                assert(decreases_to!(m@ => m@[i as int]));
                assert(decreases_to!(m@[i as int] => m@[i as int].1));
                let c = copy_toml(&m[i].1);
                let k = m[i].0.clone();
                let ghost prev = out@;
                out.push((k, c));
                assert(out@.drop_last() =~= prev);
                assert(teviews(m@).take(i + 1) =~= teviews(m@).take(i as int).push(
                    (m@[i as int].0@, tview(m@[i as int].1)),
                ));
                i = i + 1;
            }
            assert(teviews(m@).take(m@.len() as int) =~= teviews(m@));
            Toml::Table(out)
        },
    }
}

/// Copies of table entries.
pub fn copy_entries(m: &Vec<(String, Toml)>) -> (r: Vec<(String, Toml)>)
    ensures
        teviews(r@) == teviews(m@),
{
    let mut out: Vec<(String, Toml)> = Vec::new();
    let mut i: usize = 0;
    proof {
        lemma_teviews(m@);
    }
    while i < m.len()
        invariant
            i <= m@.len(),
            teviews(out@) == teviews(m@).take(i as int),
            teviews(m@).len() == m@.len(),
            forall|t: int| 0 <= t < m@.len() ==> #[trigger] teviews(m@)[t] == (m@[t].0@, tview(m@[t].1)),
        decreases m@.len() - i,
    {
        let c = copy_toml(&m[i].1);
        let k = m[i].0.clone();
        let ghost prev = out@;
        out.push((k, c));
        assert(out@.drop_last() =~= prev);
        assert(teviews(m@).take(i + 1) =~= teviews(m@).take(i as int).push(
            (m@[i as int].0@, tview(m@[i as int].1)),
        ));
        i = i + 1;
    }
    assert(teviews(m@).take(m@.len() as int) =~= teviews(m@));
    out
}

// ---------------------------------------------------------------------------
// Parsing
// ---------------------------------------------------------------------------

#[verifier::external_type_specification]
#[verifier::external_body]
pub struct ExTomlValue(toml::Value);

/// A name for what `toml::from_str::<toml::Value>` makes of a text: the
/// document when the text is TOML, nothing when it is refused.
pub uninterp spec fn toml_parse(text: Seq<char>) -> Option<TomlV>;

/// Turns a `toml::Value` into a [`Toml`], one for one (table entries in the
/// map's order, which is key order; floats and datetimes as the text they
/// print as).
#[verifier::external_body]
fn from_toml(v: &toml::Value) -> Toml {
    match v {
        toml::Value::String(s) => Toml::Str(s.clone()),
        toml::Value::Integer(i) => Toml::Int(*i),
        toml::Value::Float(f) => Toml::Float(f.to_string()),
        toml::Value::Boolean(b) => Toml::Bool(*b),
        toml::Value::Datetime(d) => Toml::Datetime(d.to_string()),
        toml::Value::Array(a) => Toml::Array(a.iter().map(from_toml).collect()),
        toml::Value::Table(t) => Toml::Table(t.iter().map(|(k, x)| (k.clone(), from_toml(x))).collect()),
    }
}

/// Parses a text with `toml::from_str` into a `toml::Value` and converts
/// it; claims only that the outcome is [`toml_parse`] of the text.
#[verifier::external_body]
pub(crate) fn parse_toml(text: &str) -> (r: Option<Toml>)
    ensures
        r matches Some(t) ==> toml_parse(text@) == Some(t@),
        r is None ==> toml_parse(text@) is None,
{
    match toml::from_str::<toml::Value>(text) {
        Ok(v) => Some(from_toml(&v)),
        Err(_) => None,
    }
}

} // verus!
