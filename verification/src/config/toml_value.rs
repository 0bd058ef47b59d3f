//! A parsed TOML document as plain values: what the configuration rules
//! read of it. Parsing itself is done by the `toml` crate.

use vstd::prelude::*;

verus! {

/// One TOML value. Only the types of floats and datetimes matter here,
/// never their values.
#[derive(Debug)]
pub enum TomlValue {
    String(String),
    Integer(i64),
    Float,
    Boolean(bool),
    Datetime,
    Array(Vec<TomlValue>),
    Table(Vec<(String, TomlValue)>),
}

/// The spec-level value of a [`TomlValue`].
pub enum TomlView {
    String(Seq<char>),
    Integer(i64),
    Float,
    Boolean(bool),
    Datetime,
    Array(Seq<TomlView>),
    Table(Seq<(Seq<char>, TomlView)>),
}

/// The spec-level value of `v`.
pub open spec fn toml_view(v: TomlValue) -> TomlView
    decreases v,
{
    match v {
        TomlValue::String(s) => TomlView::String(s@),
        TomlValue::Integer(n) => TomlView::Integer(n),
        TomlValue::Float => TomlView::Float,
        TomlValue::Boolean(b) => TomlView::Boolean(b),
        TomlValue::Datetime => TomlView::Datetime,
        TomlValue::Array(items) => TomlView::Array(
            items@.map(
                |i: int, x: TomlValue|
                    if 0 <= i < items@.len() && x == items@[i] {
                        toml_view(x)
                    } else {
                        TomlView::Float
                    },
            ),
        ),
        TomlValue::Table(entries) => TomlView::Table(
            entries@.map(
                |i: int, e: (String, TomlValue)|
                    if 0 <= i < entries@.len() && e == entries@[i] {
                        (e.0@, toml_view(e.1))
                    } else {
                        (e.0@, TomlView::Float)
                    },
            ),
        ),
    }
}

/// The spec-level value of a table's entries, in order.
pub open spec fn entries_view(t: Seq<(String, TomlValue)>) -> Seq<(Seq<char>, TomlView)> {
    t.map_values(|e: (String, TomlValue)| (e.0@, toml_view(e.1)))
}

/// The spec-level value of an array's items, in order.
pub open spec fn items_view(a: Seq<TomlValue>) -> Seq<TomlView> {
    a.map_values(|x: TomlValue| toml_view(x))
}

/// A table's or an array's view is the view of its parts.
pub proof fn lemma_toml_view_parts(v: TomlValue)
    ensures
        v matches TomlValue::Table(t) ==> toml_view(v) == TomlView::Table(entries_view(t@)),
        v matches TomlValue::Array(a) ==> toml_view(v) == TomlView::Array(items_view(a@)),
{
    match v {
        TomlValue::Table(t) => {
            if let TomlView::Table(x) = toml_view(v) {
                assert(x =~= entries_view(t@));
            }
        },
        TomlValue::Array(a) => {
            if let TomlView::Array(x) = toml_view(v) {
                assert(x =~= items_view(a@));
            }
        },
        _ => {},
    }
}

/// The TOML type name of a value, as `toml::Value::type_str` gives it.
pub open spec fn toml_type(v: TomlView) -> Seq<char> {
    match v {
        TomlView::String(_) => "string"@,
        TomlView::Integer(_) => "integer"@,
        TomlView::Float => "float"@,
        TomlView::Boolean(_) => "boolean"@,
        TomlView::Datetime => "datetime"@,
        TomlView::Array(_) => "array"@,
        TomlView::Table(_) => "table"@,
    }
}

impl TomlValue {
    /// The value's TOML type name.
    pub fn type_str(&self) -> (s: &'static str)
        ensures
            s@ == toml_type(toml_view(*self)),
    {
        proof {
            lemma_toml_view_parts(*self);
        }
        match self {
            TomlValue::String(_) => "string",
            TomlValue::Integer(_) => "integer",
            TomlValue::Float => "float",
            TomlValue::Boolean(_) => "boolean",
            TomlValue::Datetime => "datetime",
            TomlValue::Array(_) => "array",
            TomlValue::Table(_) => "table",
        }
    }
}

/// What `str::parse::<toml::Table>` makes of `text`: the document's
/// top-level table, or the parse error's text.
pub uninterp spec fn toml_table(text: Seq<char>) -> Result<Seq<(Seq<char>, TomlView)>, Seq<char>>;

#[verifier::external_type_specification]
#[verifier::external_body]
pub struct ExTomlValue(toml::Value);

/// Carries one `toml::Value` over into a [`TomlValue`], variant for
/// variant (a float or datetime keeps only its type). Only
/// [`toml_crate_parse`] calls it.
#[verifier::external_body]
fn from_toml(v: toml::Value) -> TomlValue {
    match v {
        toml::Value::String(s) => TomlValue::String(s),
        toml::Value::Integer(n) => TomlValue::Integer(n),
        toml::Value::Float(_) => TomlValue::Float,
        toml::Value::Boolean(b) => TomlValue::Boolean(b),
        toml::Value::Datetime(_) => TomlValue::Datetime,
        toml::Value::Array(a) => TomlValue::Array(a.into_iter().map(from_toml).collect()),
        toml::Value::Table(t) => TomlValue::Table(t.into_iter().map(|(k, x)| (k, from_toml(x))).collect()),
    }
}

/// `text.parse::<toml::Table>()`: the top-level table's entries (each
/// value carried over by [`from_toml`]), or the parse error's text. The
/// result is named by [`toml_table`].
#[verifier::external_body]
fn toml_crate_parse(text: &str) -> (r: Result<Vec<(String, TomlValue)>, String>)
    ensures
        match toml_table(text@) {
            Ok(t) => r matches Ok(e) && entries_view(e@) == t,
            Err(m) => r matches Err(e) && e@ == m,
        },
{
    match text.parse::<toml::Table>() {
        Ok(t) => Ok(t.into_iter().map(|(k, x)| (k, from_toml(x))).collect()),
        Err(err) => Err(err.to_string()),
    }
}

/// Parses `text` as a TOML document: the top-level table's entries, or
/// the parse error's text (see [`toml_table`]).
pub fn parse_toml_table(text: &str) -> (r: Result<Vec<(String, TomlValue)>, String>)
    ensures
        match toml_table(text@) {
            Ok(t) => r matches Ok(e) && entries_view(e@) == t,
            Err(m) => r matches Err(e) && e@ == m,
        },
{
    toml_crate_parse(text)
}

/// The value of the first entry of `t` named `key`.
pub open spec fn lookup(t: Seq<(Seq<char>, TomlView)>, key: Seq<char>) -> Option<TomlView>
    decreases t.len(),
{
    if t.len() == 0 {
        None
    } else if t[0].0 == key {
        Some(t[0].1)
    } else {
        lookup(t.skip(1), key)
    }
}

/// The value of the first entry of `t` named `key`.
pub fn get<'a>(t: &'a Vec<(String, TomlValue)>, key: &str) -> (r: Option<&'a TomlValue>)
    ensures
        match lookup(entries_view(t@), key@) {
            Some(v) => r matches Some(x) && toml_view(*x) == v,
            None => r is None,
        },
{
    let ghost ev = entries_view(t@);
    let k = String::from_str(key);
    let mut i: usize = 0;
    assert(ev.skip(0) =~= ev);
    while i < t.len()
        invariant
            ev == entries_view(t@),
            k@ == key@,
            i <= t@.len(),
            lookup(ev, key@) == lookup(ev.skip(i as int), key@),
        decreases t@.len() - i,
    {
        let ghost rest = ev.skip(i as int);
        assert(rest[0] == ev[i as int]);
        assert(rest.skip(1) =~= ev.skip(i + 1));
        if t[i].0 == k {
            return Some(&t[i].1);
        }
        i = i + 1;
    }
    assert(ev.skip(i as int).len() == 0);
    None
}

} // verus!
