//! What the text backend indexes of a document and which fields a search
//! looks in: each JSON field value is typed by the kind of its schema field
//! (dates from RFC 3339 strings or epoch microseconds, unsigned and signed
//! integers, floats, booleans, text), and fields outside the schema, or
//! values that do not fit their field, are skipped.

use crate::date_math::{parse_rfc3339, rfc3339_parsed, Timestamp};
use vstd::prelude::*;

verus! {

/// The kind of a schema field, as the index stores it.
#[derive(Debug, Clone, Copy, PartialEq, Eq, Structural)]
pub enum FieldKind {
    Text,
    Date,
    U64,
    I64,
    F64,
    Bool,
    /// Any other kind (bytes, facets, JSON objects, addresses).
    Other,
}

/// A JSON number, as serde_json holds it: a non-negative integer, a
/// negative integer, or a float (as `f64` bits).
#[derive(Debug, Clone, Copy, PartialEq, Eq, Structural)]
pub enum JsonNumber {
    PosInt(u64),
    NegInt(i64),
    Float(u64),
}

/// A JSON value as the indexer reads it.
#[derive(Debug)]
pub enum JsonScalar {
    Null,
    Bool(bool),
    Number(JsonNumber),
    Str(String),
    /// An array or an object.
    Other,
}

pub enum JsonView {
    Null,
    Bool(bool),
    Number(JsonNumber),
    Str(Seq<char>),
    Other,
}

impl View for JsonScalar {
    type V = JsonView;

    open spec fn view(&self) -> JsonView {
        match self {
            JsonScalar::Null => JsonView::Null,
            JsonScalar::Bool(b) => JsonView::Bool(*b),
            JsonScalar::Number(n) => JsonView::Number(*n),
            JsonScalar::Str(s) => JsonView::Str(s@),
            JsonScalar::Other => JsonView::Other,
        }
    }
}

/// A value ready for the index.
#[derive(Debug, PartialEq)]
pub enum Typed {
    Text(String),
    /// Microseconds since the Unix epoch.
    Date(i64),
    U64(u64),
    I64(i64),
    /// The number, to be stored as its `f64` value.
    F64(JsonNumber),
    Bool(bool),
}

pub enum TypedView {
    Text(Seq<char>),
    Date(i64),
    U64(u64),
    I64(i64),
    F64(JsonNumber),
    Bool(bool),
}

impl View for Typed {
    type V = TypedView;

    open spec fn view(&self) -> TypedView {
        match self {
            Typed::Text(s) => TypedView::Text(s@),
            Typed::Date(d) => TypedView::Date(*d),
            Typed::U64(v) => TypedView::U64(*v),
            Typed::I64(v) => TypedView::I64(*v),
            Typed::F64(n) => TypedView::F64(*n),
            Typed::Bool(b) => TypedView::Bool(*b),
        }
    }
}

/// `Number::as_u64`: non-negative integers.
pub open spec fn number_as_u64(n: JsonNumber) -> Option<u64> {
    match n {
        JsonNumber::PosInt(u) => Some(u),
        _ => None,
    }
}

/// `Number::as_i64`: integers that fit in `i64`.
pub open spec fn number_as_i64(n: JsonNumber) -> Option<i64> {
    match n {
        JsonNumber::PosInt(u) => if u <= i64::MAX {
            Some(u as i64)
        } else {
            None
        },
        JsonNumber::NegInt(i) => Some(i),
        JsonNumber::Float(_) => None,
    }
}

/// Microseconds of an instant (`DateTime::timestamp_micros`), when they fit
/// in `i64`.
pub open spec fn micros_of(t: Timestamp) -> Option<i64> {
    let m = t.secs * 1_000_000 + t.nanos / 1000;
    if i64::MIN <= m <= i64::MAX {
        Some(m as i64)
    } else {
        None
    }
}

/// The value a field of kind `kind` gets from the JSON value `v`, or
/// `None` when the value is skipped.
pub open spec fn typed_value(kind: FieldKind, v: JsonView) -> Option<TypedView> {
    match v {
        JsonView::Str(s) => if kind == FieldKind::Date {
            match rfc3339_parsed(s) {
                Some(t) => match micros_of(t) {
                    Some(m) => Some(TypedView::Date(m)),
                    None => None,
                },
                None => None,
            }
        } else {
            Some(TypedView::Text(s))
        },
        JsonView::Number(n) => match kind {
            FieldKind::Date => match number_as_i64(n) {
                Some(m) => Some(TypedView::Date(m)),
                None => None,
            },
            FieldKind::U64 => match number_as_u64(n) {
                Some(u) => Some(TypedView::U64(u)),
                None => match number_as_i64(n) {
                    Some(i) => if i >= 0 {
                        Some(TypedView::U64(i as u64))
                    } else {
                        None
                    },
                    None => None,
                },
            },
            FieldKind::I64 => match number_as_i64(n) {
                Some(i) => Some(TypedView::I64(i)),
                None => None,
            },
            FieldKind::F64 => Some(TypedView::F64(n)),
            _ => None,
        },
        JsonView::Bool(b) => if kind == FieldKind::Bool {
            Some(TypedView::Bool(b))
        } else {
            None
        },
        _ => None,
    }
}

/// The kind of the first schema field with this name.
pub open spec fn schema_kind(schema: Seq<(Seq<char>, FieldKind)>, name: Seq<char>) -> Option<FieldKind>
    decreases schema.len(),
{
    if schema.len() == 0 {
        None
    } else if schema[0].0 == name {
        Some(schema[0].1)
    } else {
        schema_kind(schema.drop_first(), name)
    }
}

/// The typed values of a document's fields, in field order: fields outside
/// the schema and values that do not fit their field are skipped.
pub open spec fn typed_fields_spec(
    schema: Seq<(Seq<char>, FieldKind)>,
    fields: Seq<(Seq<char>, JsonView)>,
) -> Seq<(Seq<char>, TypedView)>
    decreases fields.len(),
{
    if fields.len() == 0 {
        Seq::empty()
    } else {
        let prev = typed_fields_spec(schema, fields.drop_last());
        let (name, v) = fields.last();
        match schema_kind(schema, name) {
            Some(k) => match typed_value(k, v) {
                Some(t) => prev.push((name, t)),
                None => prev,
            },
            None => prev,
        }
    }
}

pub open spec fn schema_view(schema: Seq<(String, FieldKind)>) -> Seq<(Seq<char>, FieldKind)> {
    schema.map_values(|p: (String, FieldKind)| (p.0@, p.1))
}

pub open spec fn json_fields_view(fields: Seq<(String, JsonScalar)>) -> Seq<(Seq<char>, JsonView)> {
    fields.map_values(|p: (String, JsonScalar)| (p.0@, p.1@))
}

pub open spec fn typed_view(r: Seq<(String, Typed)>) -> Seq<(Seq<char>, TypedView)> {
    r.map_values(|p: (String, Typed)| (p.0@, p.1@))
}

fn lookup_kind(schema: &Vec<(String, FieldKind)>, name: &String) -> (r: Option<FieldKind>)
    ensures
        r == schema_kind(schema_view(schema@), name@),
{
    let ghost sv = schema_view(schema@);
    proof {
        assert(sv.skip(0) =~= sv);
    }
    let mut i: usize = 0;
    while i < schema.len()
        invariant
            i <= schema@.len(),
            sv == schema_view(schema@),
            schema_kind(sv, name@) == schema_kind(sv.skip(i as int), name@),
        decreases schema.len() - i,
    {
        proof {
            assert(sv.skip(i as int).drop_first() =~= sv.skip(i as int + 1));
            assert(sv.skip(i as int)[0] == sv[i as int]);
            assert(sv[i as int] == (schema@[i as int].0@, schema@[i as int].1));
        }
        if schema[i].0 == *name {
            return Some(schema[i].1);
        }
        i = i + 1;
    }
    proof {
        assert(sv.skip(i as int).len() == 0);
    }
    None
}

fn micros(t: Timestamp) -> (r: Option<i64>)
    ensures
        r == micros_of(t),
{
    let s = t.secs as i128;
    let m = s * 1_000_000 + (t.nanos / 1000) as i128;
    if m >= i64::MIN as i128 && m <= i64::MAX as i128 {
        Some(m as i64)
    } else {
        None
    }
}

fn as_i64(n: JsonNumber) -> (r: Option<i64>)
    ensures
        r == number_as_i64(n),
{
    match n {
        JsonNumber::PosInt(u) => if u <= i64::MAX as u64 {
            Some(u as i64)
        } else {
            None
        },
        JsonNumber::NegInt(i) => Some(i),
        JsonNumber::Float(_) => None,
    }
}

/// The value a field of kind `kind` gets from `v`, or `None` when it is
/// skipped.
pub fn type_value(kind: FieldKind, v: &JsonScalar) -> (r: Option<Typed>)
    ensures
        match r {
            Some(t) => typed_value(kind, v@) == Some(t@),
            None => typed_value(kind, v@) is None,
        },
{
    match v {
        JsonScalar::Str(s) => {
            if kind == FieldKind::Date {
                match parse_rfc3339(s.as_str()) {
                    Some(t) => match micros(t) {
                        Some(m) => Some(Typed::Date(m)),
                        None => None,
                    },
                    None => None,
                }
            } else {
                Some(Typed::Text(s.clone()))
            }
        },
        JsonScalar::Number(n) => match kind {
            FieldKind::Date => match as_i64(*n) {
                Some(m) => Some(Typed::Date(m)),
                None => None,
            },
            FieldKind::U64 => match n {
                JsonNumber::PosInt(u) => Some(Typed::U64(*u)),
                _ => match as_i64(*n) {
                    Some(i) => if i >= 0 {
                        Some(Typed::U64(i as u64))
                    } else {
                        None
                    },
                    None => None,
                },
            },
            FieldKind::I64 => match as_i64(*n) {
                Some(i) => Some(Typed::I64(i)),
                None => None,
            },
            FieldKind::F64 => Some(Typed::F64(*n)),
            _ => None,
        },
        JsonScalar::Bool(b) => if kind == FieldKind::Bool {
            Some(Typed::Bool(*b))
        } else {
            None
        },
        _ => None,
    }
}

/// The typed values a document's fields give, in field order.
pub fn typed_fields(schema: &Vec<(String, FieldKind)>, fields: &Vec<(String, JsonScalar)>) -> (r: Vec<(String, Typed)>)
    ensures
        typed_view(r@) == typed_fields_spec(schema_view(schema@), json_fields_view(fields@)),
{
    let ghost fv = json_fields_view(fields@);
    let ghost sv = schema_view(schema@);
    let mut out: Vec<(String, Typed)> = Vec::new();
    let mut i: usize = 0;
    while i < fields.len()
        invariant
            i <= fields@.len(),
            fv == json_fields_view(fields@),
            sv == schema_view(schema@),
            typed_view(out@) == typed_fields_spec(sv, fv.take(i as int)),
        decreases fields.len() - i,
    {
        proof {
            assert(fv.take(i as int + 1).drop_last() =~= fv.take(i as int));
            assert(fv.take(i as int + 1).last() == (fields@[i as int].0@, fields@[i as int].1@));
        }
        let ghost before = out@;
        match lookup_kind(schema, &fields[i].0) {
            Some(k) => match type_value(k, &fields[i].1) {
                Some(t) => {
                    out.push((fields[i].0.clone(), t));
                    proof {
                        assert(typed_view(out@) =~= typed_view(before).push((out@.last().0@, out@.last().1@)));
                    }
                },
                None => {},
            },
            None => {},
        }
        i = i + 1;
    }
    proof {
        assert(fv.take(fields@.len() as int) =~= fv);
    }
    out
}

// ---------------------------------------------------------------------------
// Searching
// ---------------------------------------------------------------------------

/// A schema field as search sees it: name, kind and whether it is indexed.
pub open spec fn searchable(schema: Seq<(Seq<char>, FieldKind, bool)>) -> Seq<Seq<char>>
    decreases schema.len(),
{
    if schema.len() == 0 {
        Seq::empty()
    } else {
        let prev = searchable(schema.drop_last());
        let f = schema.last();
        if f.2 && f.1 == FieldKind::Text {
            prev.push(f.0)
        } else {
            prev
        }
    }
}

/// The requested fields that the schema has, in request order.
pub open spec fn known_fields(requested: Seq<Seq<char>>, schema: Seq<(Seq<char>, FieldKind, bool)>) -> Seq<
    Seq<char>,
>
    decreases requested.len(),
{
    if requested.len() == 0 {
        Seq::empty()
    } else {
        let prev = known_fields(requested.drop_last(), schema);
        if exists|j: int| 0 <= j < schema.len() && (#[trigger] schema[j]).0 == requested.last() {
            prev.push(requested.last())
        } else {
            prev
        }
    }
}

/// The fields a search looks in: the requested ones that the schema has,
/// or, when none is requested, every indexed text field.
pub open spec fn fields_to_search_spec(requested: Seq<Seq<char>>, schema: Seq<(Seq<char>, FieldKind, bool)>) -> Seq<
    Seq<char>,
> {
    if requested.len() == 0 {
        searchable(schema)
    } else {
        known_fields(requested, schema)
    }
}

pub open spec fn search_schema_view(schema: Seq<(String, FieldKind, bool)>) -> Seq<(Seq<char>, FieldKind, bool)> {
    schema.map_values(|p: (String, FieldKind, bool)| (p.0@, p.1, p.2))
}

pub open spec fn names_view(v: Seq<String>) -> Seq<Seq<char>> {
    v.map_values(|s: String| s@)
}

fn has_field(schema: &Vec<(String, FieldKind, bool)>, name: &String) -> (r: bool)
    ensures
        r == exists|j: int|
            0 <= j < schema@.len() && (#[trigger] search_schema_view(schema@)[j]).0 == name@,
{
    let ghost sv = search_schema_view(schema@);
    let mut i: usize = 0;
    while i < schema.len()
        invariant
            i <= schema@.len(),
            sv == search_schema_view(schema@),
            forall|j: int| 0 <= j < i ==> (#[trigger] sv[j]).0 != name@,
        decreases schema.len() - i,
    {
        if schema[i].0 == *name {
            assert(sv[i as int].0 == name@);
            return true;
        }
        i = i + 1;
    }
    false
}

/// The fields a search looks in (see `fields_to_search_spec`).
pub fn fields_to_search(requested: &Vec<String>, schema: &Vec<(String, FieldKind, bool)>) -> (r: Vec<String>)
    ensures
        names_view(r@) == fields_to_search_spec(names_view(requested@), search_schema_view(schema@)),
{
    let ghost sv = search_schema_view(schema@);
    let ghost rv = names_view(requested@);
    let mut out: Vec<String> = Vec::new();
    if requested.len() == 0 {
        let mut i: usize = 0;
        while i < schema.len()
            invariant
                i <= schema@.len(),
                sv == search_schema_view(schema@),
                names_view(out@) == searchable(sv.take(i as int)),
            decreases schema.len() - i,
        {
            proof {
                assert(sv.take(i as int + 1).drop_last() =~= sv.take(i as int));
                assert(sv.take(i as int + 1).last() == sv[i as int]);
            }
            let ghost before = out@;
            if schema[i].2 && schema[i].1 == FieldKind::Text {
                out.push(schema[i].0.clone());
                proof {
                    assert(names_view(out@) =~= names_view(before).push(sv[i as int].0));
                }
            }
            i = i + 1;
        }
        proof {
            assert(sv.take(schema@.len() as int) =~= sv);
        }
    } else {
        let mut i: usize = 0;
        while i < requested.len()
            invariant
                i <= requested@.len(),
                requested@.len() > 0,
                sv == search_schema_view(schema@),
                rv == names_view(requested@),
                names_view(out@) == known_fields(rv.take(i as int), sv),
            decreases requested.len() - i,
        {
            proof {
                assert(rv.take(i as int + 1).drop_last() =~= rv.take(i as int));
                assert(rv.take(i as int + 1).last() == rv[i as int]);
            }
            let ghost before = out@;
            if has_field(schema, &requested[i]) {
                out.push(requested[i].clone());
                proof {
                    assert(names_view(out@) =~= names_view(before).push(rv[i as int]));
                }
            }
            i = i + 1;
        }
        proof {
            assert(rv.take(requested@.len() as int) =~= rv);
        }
    }
    out
}

/// The ranked hits a page keeps: those after the first `offset` ranks.
pub fn page_after<T>(ranked: Vec<T>, offset: usize) -> (r: Vec<T>)
    ensures
        r@ == ranked@.skip(if offset < ranked@.len() {
            offset as int
        } else {
            ranked@.len() as int
        }),
{
    let mut out: Vec<T> = Vec::new();
    let mut rest = ranked;
    let ghost orig = rest@;
    let mut rank: usize = 0;
    let total: usize = rest.len();
    while rest.len() > 0
        invariant
            orig.len() == total,
            rank + rest@.len() == orig.len(),
            rest@ == orig.skip(rank as int),
            out@ == orig.subrange(
                if offset < rank {
                    offset as int
                } else {
                    rank as int
                },
                rank as int,
            ),
        decreases rest.len(),
    {
        let item = rest.remove(0);
        if rank >= offset {
            out.push(item);
        }
        proof {
            assert(item == orig[rank as int]);
        }
        rank = rank + 1;
        proof {
            if offset < rank {
                assert(out@ =~= orig.subrange(offset as int, rank as int));
            } else {
                assert(out@ =~= orig.subrange(rank as int, rank as int));
            }
        }
    }
    proof {
        if offset < orig.len() {
            assert(out@ =~= orig.skip(offset as int));
        } else {
            assert(out@ =~= orig.skip(orig.len() as int));
        }
    }
    out
}

} // verus!
