//! Schema inference for `call_mcp` results.
//!
//! The table a tool call yields is typed by looking at the first rows:
//! up to ten sample rows are inspected, each must be a JSON record, and
//! the per-row schemas are merged — the union of the field names, in
//! first-seen order, widening integer fields to floats where both
//! occur. Column types are recursive: a nested record becomes a struct
//! column and a nested array a list column, merged by the same rules at
//! every depth. Rows whose fields cannot be merged fail planning.
//!
//! The table's column list is a vector; inside a column type, a nested
//! record carries its fields as a recursive list, so that the
//! specifications can build and take it apart.

use crate::engine_error::EngineError;
use crate::json::JsonValue;
use crate::text::str_eq;
use vstd::prelude::*;

verus! {

broadcast use vstd::std_specs::vec::group_vec_axioms;

use vstd::string::StringExecFns;

/// How many sample rows inference looks at.
pub open spec fn sample_bound() -> int {
    10
}

/// The inferred type of one column, at any nesting depth.
#[derive(Debug, PartialEq, Eq)]
pub enum JsonType {
    /// Only nulls seen so far.
    Null,
    Boolean,
    Int64,
    Float64,
    Utf8,
    /// An array column, with its element type.
    List(Box<JsonType>),
    /// A nested record column, with its fields.
    Struct(FieldList),
}

/// The fields of a nested record type, in first-seen order.
#[derive(Debug, PartialEq, Eq)]
pub enum FieldList {
    Nil,
    Cons(Box<Field>, Box<FieldList>),
}

/// One inferred column: a name and a type.
#[derive(Debug, PartialEq, Eq)]
pub struct Field {
    pub name: String,
    pub jtype: JsonType,
}

// ---------------------------------------------------------------------------
// Widening.
// ---------------------------------------------------------------------------
/// Widening of two column types: `Null` yields to anything, integers
/// widen to floats, equal scalars stay; lists widen elementwise and
/// records merge field by field; anything else is incompatible.
pub open spec fn spec_widen(a: JsonType, b: JsonType) -> Option<JsonType>
    decreases b, a,
{
    match (a, b) {
        (JsonType::Null, t) => Some(t),
        (t, JsonType::Null) => Some(t),
        (JsonType::Boolean, JsonType::Boolean) => Some(JsonType::Boolean),
        (JsonType::Int64, JsonType::Int64) => Some(JsonType::Int64),
        (JsonType::Float64, JsonType::Float64) => Some(JsonType::Float64),
        (JsonType::Int64, JsonType::Float64) => Some(JsonType::Float64),
        (JsonType::Float64, JsonType::Int64) => Some(JsonType::Float64),
        (JsonType::Utf8, JsonType::Utf8) => Some(JsonType::Utf8),
        (JsonType::List(x), JsonType::List(y)) => match spec_widen(*x, *y) {
            Some(w) => Some(JsonType::List(Box::new(w))),
            None => None,
        },
        (JsonType::Struct(f), JsonType::Struct(g)) => match spec_merge_fields(f, g) {
            Some(m) => Some(JsonType::Struct(m)),
            None => None,
        },
        _ => None,
    }
}

/// Folds the fields of `g` into `f`, in `g`'s order: the union of the
/// two records' fields.
pub open spec fn spec_merge_fields(f: FieldList, g: FieldList) -> Option<FieldList>
    decreases g, f,
{
    match g {
        FieldList::Nil => Some(f),
        FieldList::Cons(h, rest) => match spec_merge_field(f, (*h).name, (*h).jtype) {
            Some(f2) => spec_merge_fields(f2, *rest),
            None => None,
        },
    }
}

/// Merges one nested field: a known name widens in place, a fresh name
/// is appended.
pub open spec fn spec_merge_field(f: FieldList, name: String, t: JsonType) -> Option<FieldList>
    decreases t, f,
{
    match f {
        FieldList::Nil => Some(
            FieldList::Cons(Box::new(Field { name, jtype: t }), Box::new(FieldList::Nil)),
        ),
        FieldList::Cons(h, rest) => if (*h).name@ == name@ {
            match spec_widen((*h).jtype, t) {
                Some(w) => Some(
                    FieldList::Cons(Box::new(Field { name: (*h).name, jtype: w }), rest),
                ),
                None => None,
            }
        } else {
            match spec_merge_field(*rest, name, t) {
                Some(r2) => Some(FieldList::Cons(h, Box::new(r2))),
                None => None,
            }
        },
    }
}

/// Widens two column types executably.
fn widen(a: JsonType, b: JsonType) -> (r: Option<JsonType>)
    ensures
        r == spec_widen(a, b),
    decreases b, a,
{
    match (a, b) {
        (JsonType::Null, t) => Some(t),
        (t, JsonType::Null) => Some(t),
        (JsonType::Boolean, JsonType::Boolean) => Some(JsonType::Boolean),
        (JsonType::Int64, JsonType::Int64) => Some(JsonType::Int64),
        (JsonType::Float64, JsonType::Float64) => Some(JsonType::Float64),
        (JsonType::Int64, JsonType::Float64) => Some(JsonType::Float64),
        (JsonType::Float64, JsonType::Int64) => Some(JsonType::Float64),
        (JsonType::Utf8, JsonType::Utf8) => Some(JsonType::Utf8),
        (JsonType::List(x), JsonType::List(y)) => match widen(*x, *y) {
            Some(w) => Some(JsonType::List(Box::new(w))),
            None => None,
        },
        (JsonType::Struct(f), JsonType::Struct(g)) => match merge_fields(f, g) {
            Some(m) => Some(JsonType::Struct(m)),
            None => None,
        },
        _ => None,
    }
}

/// Folds the fields of `g` into `f` executably.
fn merge_fields(f: FieldList, g: FieldList) -> (r: Option<FieldList>)
    ensures
        r == spec_merge_fields(f, g),
    decreases g, f,
{
    match g {
        FieldList::Nil => Some(f),
        FieldList::Cons(h, rest) => {
            let hf = *h;
            match merge_field(f, hf.name, hf.jtype) {
                Some(f2) => merge_fields(f2, *rest),
                None => None,
            }
        },
    }
}

/// Merges one nested field executably.
fn merge_field(f: FieldList, name: String, t: JsonType) -> (r: Option<FieldList>)
    ensures
        r == spec_merge_field(f, name, t),
    decreases t, f,
{
    match f {
        FieldList::Nil => Some(
            FieldList::Cons(Box::new(Field { name, jtype: t }), Box::new(FieldList::Nil)),
        ),
        FieldList::Cons(h, rest) => {
            let hf = *h;
            if str_eq(hf.name.as_str(), name.as_str()) {
                match widen(hf.jtype, t) {
                    Some(w) => Some(
                        FieldList::Cons(Box::new(Field { name: hf.name, jtype: w }), rest),
                    ),
                    None => None,
                }
            } else {
                match merge_field(*rest, name, t) {
                    Some(r2) => Some(
                        FieldList::Cons(
                            Box::new(Field { name: hf.name, jtype: hf.jtype }),
                            Box::new(r2),
                        ),
                    ),
                    None => None,
                }
            }
        },
    }
}

// ---------------------------------------------------------------------------
// Typing one JSON value.
// ---------------------------------------------------------------------------
/// The column type of one JSON value: scalars map to scalar types, an
/// array to a list of its elements' widened type, a record to a struct
/// of its fields' types; `None` when nested values cannot be widened
/// together.
pub open spec fn spec_type_of(v: JsonValue) -> Option<JsonType>
    decreases v,
{
    match v {
        JsonValue::Null => Some(JsonType::Null),
        JsonValue::Bool(_) => Some(JsonType::Boolean),
        JsonValue::Int(_) => Some(JsonType::Int64),
        JsonValue::NumText(_) => Some(JsonType::Float64),
        JsonValue::Str(_) => Some(JsonType::Utf8),
        JsonValue::Array(es) => match spec_elems_acc(es@, JsonType::Null) {
            Some(t) => Some(JsonType::List(Box::new(t))),
            None => None,
        },
        JsonValue::Object(ps) => match spec_obj_acc(ps@, FieldList::Nil) {
            Some(f) => Some(JsonType::Struct(f)),
            None => None,
        },
    }
}

/// Widens the element types of an array into `acc`, left to right.
pub open spec fn spec_elems_acc(es: Seq<JsonValue>, acc: JsonType) -> Option<JsonType>
    decreases es,
{
    if es.len() == 0 {
        Some(acc)
    } else {
        match spec_type_of(es[0]) {
            None => None,
            Some(t) => match spec_widen(acc, t) {
                None => None,
                Some(w) => spec_elems_acc(es.drop_first(), w),
            },
        }
    }
}

/// Folds a record's fields into `acc`, in document order.
pub open spec fn spec_obj_acc(ps: Seq<(String, JsonValue)>, acc: FieldList) -> Option<FieldList>
    decreases ps,
{
    if ps.len() == 0 {
        Some(acc)
    } else {
        match spec_type_of(ps[0].1) {
            None => None,
            Some(t) => match spec_merge_field(acc, ps[0].0, t) {
                None => None,
                Some(f2) => spec_obj_acc(ps.drop_first(), f2),
            },
        }
    }
}

/// The column type of one JSON value, executably.
#[verifier::loop_isolation(false)]
pub fn type_of(v: &JsonValue) -> (r: Option<JsonType>)
    ensures
        r == spec_type_of(*v),
    decreases v,
{
    match v {
        JsonValue::Null => Some(JsonType::Null),
        JsonValue::Bool(_) => Some(JsonType::Boolean),
        JsonValue::Int(_) => Some(JsonType::Int64),
        JsonValue::NumText(_) => Some(JsonType::Float64),
        JsonValue::Str(_) => Some(JsonType::Utf8),
        JsonValue::Array(es) => {
            let mut acc = JsonType::Null;
            let mut i: usize = 0;
            proof {
                assert(es@.skip(0) =~= es@);
            }
            while i < es.len()
                invariant
                    0 <= i <= es@.len(),
                    spec_elems_acc(es@.skip(i as int), acc) == spec_elems_acc(
                        es@,
                        JsonType::Null,
                    ),
                decreases es@.len() - i,
            {
                proof {
                    assert(es@.skip(i as int)[0] == es@[i as int]);
                    assert(es@.skip(i as int).drop_first() =~= es@.skip(i as int + 1));
                }
                let t = match type_of(&es[i]) {
                    Some(t) => t,
                    None => {
                        return None;
                    },
                };
                acc = match widen(acc, t) {
                    Some(w) => w,
                    None => {
                        return None;
                    },
                };
                i = i + 1;
            }
            proof {
                assert(es@.skip(es@.len() as int).len() == 0);
            }
            Some(JsonType::List(Box::new(acc)))
        },
        JsonValue::Object(ps) => {
            let mut acc = FieldList::Nil;
            let mut i: usize = 0;
            proof {
                assert(ps@.skip(0) =~= ps@);
            }
            while i < ps.len()
                invariant
                    0 <= i <= ps@.len(),
                    spec_obj_acc(ps@.skip(i as int), acc) == spec_obj_acc(ps@, FieldList::Nil),
                decreases ps@.len() - i,
            {
                proof {
                    assert(ps@.skip(i as int)[0] == ps@[i as int]);
                    assert(ps@.skip(i as int).drop_first() =~= ps@.skip(i as int + 1));
                }
                let t = match type_of(&ps[i].1) {
                    Some(t) => t,
                    None => {
                        return None;
                    },
                };
                let name = ps[i].0.clone();
                acc = match merge_field(acc, name, t) {
                    Some(f2) => f2,
                    None => {
                        return None;
                    },
                };
                i = i + 1;
            }
            proof {
                assert(ps@.skip(ps@.len() as int).len() == 0);
            }
            Some(JsonType::Struct(acc))
        },
    }
}

// ---------------------------------------------------------------------------
// Merging sample rows into the table schema.
// ---------------------------------------------------------------------------
/// Merges one record field into the schema: a known name widens in
/// place, a fresh name is appended.
pub open spec fn spec_merge_pair(fields: Seq<Field>, name: String, t: JsonType) -> Option<
    Seq<Field>,
>
    decreases fields.len(),
{
    if fields.len() == 0 {
        Some(seq![Field { name, jtype: t }])
    } else if fields[0].name@ == name@ {
        match spec_widen(fields[0].jtype, t) {
            Some(w) => Some(seq![Field { name: fields[0].name, jtype: w }] + fields.drop_first()),
            None => None,
        }
    } else {
        match spec_merge_pair(fields.drop_first(), name, t) {
            Some(r) => Some(seq![fields[0]] + r),
            None => None,
        }
    }
}

/// Merges one sample record into the schema, field by field, in record
/// order.
pub open spec fn spec_merge_obj(
    fields: Seq<Field>,
    pairs: Seq<(String, JsonValue)>,
) -> Option<Seq<Field>>
    decreases pairs.len(),
{
    if pairs.len() == 0 {
        Some(fields)
    } else {
        match spec_type_of(pairs[0].1) {
            None => None,
            Some(t) => match spec_merge_pair(fields, pairs[0].0, t) {
                None => None,
                Some(f2) => spec_merge_obj(f2, pairs.drop_first()),
            },
        }
    }
}

/// Folds samples into the schema; fails on a sample that is not a
/// record.
pub open spec fn spec_infer_from(fields: Seq<Field>, values: Seq<JsonValue>) -> Option<Seq<Field>>
    decreases values.len(),
{
    if values.len() == 0 {
        Some(fields)
    } else {
        match values[0] {
            JsonValue::Object(ps) => match spec_merge_obj(fields, ps@) {
                Some(f2) => spec_infer_from(f2, values.drop_first()),
                None => None,
            },
            _ => None,
        }
    }
}

/// The schema inferred from the first up to ten rows.
pub open spec fn spec_infer(values: Seq<JsonValue>) -> Option<Seq<Field>> {
    let n = if values.len() > sample_bound() {
        sample_bound()
    } else {
        values.len() as int
    };
    spec_infer_from(Seq::empty(), values.take(n))
}

/// Merges one field into the schema, per `spec_merge_pair`.
fn merge_pair(fields: Vec<Field>, name: String, t: JsonType) -> (r: Result<
    Vec<Field>,
    EngineError,
>)
    ensures
        match spec_merge_pair(fields@, name, t) {
            Some(f2) => r matches Ok(out) && out@ == f2,
            None => r matches Err(e) && e is Plan,
        },
    decreases fields@.len(),
{
    let ghost fields0 = fields@;
    let mut fields = fields;
    if fields.len() == 0 {
        fields.push(Field { name, jtype: t });
        proof {
            assert(fields@ =~= seq![Field { name, jtype: t }]);
        }
        Ok(fields)
    } else {
        let head = fields.remove(0);
        if str_eq(head.name.as_str(), name.as_str()) {
            match widen(head.jtype, t) {
                Some(w) => {
                    fields.insert(0, Field { name: head.name, jtype: w });
                    proof {
                        assert(fields@ =~= seq![Field { name: fields0[0].name, jtype: w }]
                            + fields0.drop_first());
                    }
                    Ok(fields)
                },
                None => Err(
                    EngineError::Plan(
                        String::from_str(
                            "schema inference failed: incompatible types for one field across sample rows",
                        ),
                    ),
                ),
            }
        } else {
            match merge_pair(fields, name, t) {
                Ok(mut rest) => {
                    rest.insert(0, head);
                    proof {
                        assert(rest@ =~= seq![fields0[0]] + spec_merge_pair(
                            fields0.drop_first(),
                            name,
                            t,
                        )->Some_0);
                    }
                    Ok(rest)
                },
                Err(e) => Err(e),
            }
        }
    }
}

/// Merges one sample record into the schema, per `spec_merge_obj`.
#[verifier::loop_isolation(false)]
fn merge_obj(fields: Vec<Field>, pairs: &Vec<(String, JsonValue)>) -> (r: Result<
    Vec<Field>,
    EngineError,
>)
    ensures
        match spec_merge_obj(fields@, pairs@) {
            Some(f2) => r matches Ok(out) && out@ == f2,
            None => r matches Err(e) && e is Plan,
        },
{
    let ghost fields0 = fields@;
    let mut cur = fields;
    let mut i: usize = 0;
    proof {
        assert(pairs@.skip(0) =~= pairs@);
    }
    while i < pairs.len()
        invariant
            0 <= i <= pairs@.len(),
            spec_merge_obj(cur@, pairs@.skip(i as int)) == spec_merge_obj(fields0, pairs@),
        decreases pairs@.len() - i,
    {
        let ghost suff = pairs@.skip(i as int);
        proof {
            assert(suff[0] == pairs@[i as int]);
            assert(suff.drop_first() =~= pairs@.skip(i as int + 1));
        }
        let t = match type_of(&pairs[i].1) {
            Some(t) => t,
            None => {
                return Err(
                    EngineError::Plan(
                        String::from_str(
                            "schema inference failed: a sample row's nested values cannot be typed together",
                        ),
                    ),
                );
            },
        };
        let name = pairs[i].0.clone();
        cur = match merge_pair(cur, name, t) {
            Ok(f2) => f2,
            Err(e) => {
                return Err(e);
            },
        };
        i = i + 1;
    }
    proof {
        assert(pairs@.skip(pairs@.len() as int).len() == 0);
    }
    Ok(cur)
}

/// Infers the table schema from the first up to ten rows; the union of
/// the sample records' fields in first-seen order, integers widened to
/// floats where both occur, nested records and arrays merged by the
/// same rules at every depth. Fails when a sample is not a record or
/// two samples type one field incompatibly. An empty row list yields an
/// empty schema.
#[verifier::loop_isolation(false)]
pub fn infer_schema(values: &Vec<JsonValue>) -> (r: Result<Vec<Field>, EngineError>)
    ensures
        match spec_infer(values@) {
            Some(fs) => r matches Ok(out) && out@ == fs,
            None => r matches Err(e) && e is Plan,
        },
{
    let n = if values.len() > 10 {
        10
    } else {
        values.len()
    };
    let ghost sample = values@.take(n as int);
    let mut cur: Vec<Field> = Vec::new();
    let mut i: usize = 0;
    proof {
        assert(sample.skip(0) =~= sample);
        assert(spec_infer(values@) == spec_infer_from(Seq::empty(), sample));
    }
    while i < n
        invariant
            0 <= i <= n,
            n <= values@.len(),
            spec_infer_from(cur@, sample.skip(i as int)) == spec_infer_from(
                Seq::empty(),
                sample,
            ),
        decreases n - i,
    {
        let ghost suff = sample.skip(i as int);
        proof {
            assert(suff[0] == values@[i as int]);
            assert(suff.drop_first() =~= sample.skip(i as int + 1));
        }
        match &values[i] {
            JsonValue::Object(ps) => {
                cur = match merge_obj(cur, ps) {
                    Ok(f2) => f2,
                    Err(e) => {
                        return Err(e);
                    },
                };
            },
            _ => {
                return Err(
                    EngineError::Plan(
                        String::from_str(
                            "schema inference failed: a sample row is not a JSON record",
                        ),
                    ),
                );
            },
        }
        i = i + 1;
    }
    proof {
        assert(sample.skip(n as int).len() == 0);
    }
    Ok(cur)
}

// ---------------------------------------------------------------------------
// Row projection.
// ---------------------------------------------------------------------------
/// Takes the first pair with the given key out of a record, returning
/// its value and the record without it.
pub open spec fn spec_take(pairs: Seq<(String, JsonValue)>, name: Seq<char>) -> (
    Option<JsonValue>,
    Seq<(String, JsonValue)>,
)
    decreases pairs.len(),
{
    if pairs.len() == 0 {
        (None, pairs)
    } else if pairs[0].0@ == name {
        (Some(pairs[0].1), pairs.drop_first())
    } else {
        let rr = spec_take(pairs.drop_first(), name);
        (rr.0, seq![pairs[0]] + rr.1)
    }
}

/// The record's cells in schema order: the field's value, or null when
/// the record does not carry the field; each field consumes the first
/// matching pair.
pub open spec fn spec_project(fields: Seq<Field>, pairs: Seq<(String, JsonValue)>) -> Seq<
    JsonValue,
>
    decreases fields.len(),
{
    if fields.len() == 0 {
        Seq::empty()
    } else {
        let rr = spec_take(pairs, fields[0].name@);
        let cell = match rr.0 {
            Some(x) => x,
            None => JsonValue::Null,
        };
        seq![cell] + spec_project(fields.drop_first(), rr.1)
    }
}

/// Takes the first pair with the given key out of a record.
fn take_field(pairs: Vec<(String, JsonValue)>, name: &String) -> (r: (
    Option<JsonValue>,
    Vec<(String, JsonValue)>,
))
    ensures
        (r.0, r.1@) == spec_take(pairs@, name@),
    decreases pairs@.len(),
{
    let ghost pairs0 = pairs@;
    let mut pairs = pairs;
    if pairs.len() == 0 {
        (None, pairs)
    } else {
        let (k0, v0) = pairs.remove(0);
        if str_eq(k0.as_str(), name.as_str()) {
            (Some(v0), pairs)
        } else {
            let (c, mut rest) = take_field(pairs, name);
            rest.insert(0, (k0, v0));
            proof {
                assert(rest@ =~= seq![pairs0[0]] + spec_take(pairs0.drop_first(), name@).1);
            }
            (c, rest)
        }
    }
}

/// Projects one row onto the inferred schema: a record yields its
/// cells in schema order (null for a missing field); anything else
/// fails.
#[verifier::loop_isolation(false)]
pub fn project_row(fields: &Vec<Field>, row: JsonValue) -> (r: Result<Vec<JsonValue>, EngineError>)
    ensures
        (row matches JsonValue::Object(ps) ==> r matches Ok(cells) && cells@ == spec_project(
            fields@,
            ps@,
        )),
        !(row is Object) ==> (r matches Err(e) && e is Exec),
{
    let mut pairs = match row {
        JsonValue::Object(ps) => ps,
        _ => {
            return Err(
                EngineError::Exec(String::from_str("cannot decode a row that is not a record")),
            );
        },
    };
    let ghost pairs0 = pairs@;
    let mut cells: Vec<JsonValue> = Vec::new();
    let mut i: usize = 0;
    proof {
        assert(fields@.skip(0) =~= fields@);
        assert(cells@ + spec_project(fields@, pairs@) =~= spec_project(fields@, pairs0));
    }
    while i < fields.len()
        invariant
            0 <= i <= fields@.len(),
            cells@ + spec_project(fields@.skip(i as int), pairs@) == spec_project(
                fields@,
                pairs0,
            ),
        decreases fields@.len() - i,
    {
        let ghost fsuff = fields@.skip(i as int);
        proof {
            assert(fsuff[0] == fields@[i as int]);
            assert(fsuff.drop_first() =~= fields@.skip(i as int + 1));
        }
        let (c, rest) = take_field(pairs, &fields[i].name);
        pairs = rest;
        let cell = match c {
            Some(x) => x,
            None => JsonValue::Null,
        };
        cells.push(cell);
        i = i + 1;
    }
    proof {
        assert(spec_project(fields@.skip(fields@.len() as int), pairs@) =~= Seq::<
            JsonValue,
        >::empty());
        assert(cells@ =~= spec_project(fields@, pairs0));
    }
    Ok(cells)
}

} // verus!
