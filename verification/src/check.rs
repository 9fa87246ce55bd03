//! The rules an index must satisfy, and the check that finds the first rule it breaks.
use vstd::prelude::*;
use crate::json::{json_as_object, json_contains_key, json_get, json_object_view, json_view, Json};
use crate::model::{Field, Index, Metric, Op, Type};
use crate::text::{blank, is_blank};

verus! {

/// The first rule an index breaks.
#[derive(Clone, Debug, PartialEq, Eq)]
pub enum Error {
    EmptyTypeName,
    EmptyOpName,
    EmptyFieldName { ty: String },
    EmptyHttpPath { op: String },
    EmptyMetricAttr { ty: String, field: String, attr: &'static str },
    DuplicateType(String),
    DuplicateOp(String),
    DuplicateField { ty: String, field: String },
    MissingInput { op: String, ty: String },
    MissingOutput { op: String, ty: String },
    MissingSchemaProperties { ty: String },
    MissingSchemaField { ty: String, field: String },
}

/// Whether field `k` has the name of a field before it.
pub open spec fn field_name_repeats(fields: Seq<Field>, k: int) -> bool {
    exists|j: int| 0 <= j < k && (#[trigger] fields[j]).name@ == fields[k].name@
}

/// Whether type `i` has the name of a type before it.
pub open spec fn type_name_repeats(types: Seq<Type>, i: int) -> bool {
    exists|j: int| 0 <= j < i && (#[trigger] types[j]).name@ == types[i].name@
}

/// Whether operation `k` has the name of an operation before it.
pub open spec fn op_name_repeats(ops: Seq<Op>, k: int) -> bool {
    exists|j: int| 0 <= j < k && (#[trigger] ops[j]).name@ == ops[k].name@
}

/// Whether some type of the index is named `name`.
pub open spec fn has_type(types: Seq<Type>, name: Seq<char>) -> bool {
    exists|i: int| 0 <= i < types.len() && (#[trigger] types[i]).name@ == name
}

/// Whether some source of a metric is blank.
pub open spec fn some_source_blank(sources: Seq<String>) -> bool {
    exists|i: int| 0 <= i < sources.len() && blank((#[trigger] sources[i])@)
}

/// The error for a metric of field `field` of type `ty`: its calc, its grain, then its
/// sources must not be blank.
pub open spec fn metric_error(ty: Type, field: Field, m: Metric) -> Option<Error> {
    if blank(m.calc@) {
        Some(Error::EmptyMetricAttr { ty: ty.name, field: field.name, attr: "calc" })
    } else if m.grain matches Some(g) && blank(g@) {
        Some(Error::EmptyMetricAttr { ty: ty.name, field: field.name, attr: "grain" })
    } else if some_source_blank(m.sources@) {
        Some(Error::EmptyMetricAttr { ty: ty.name, field: field.name, attr: "source" })
    } else {
        None
    }
}

/// The error for field `k` of `ty`: a blank name, a repeated name, or a bad metric.
pub open spec fn field_error(ty: Type, k: int) -> Option<Error> {
    let f = ty.fields@[k];
    if blank(f.name@) {
        Some(Error::EmptyFieldName { ty: ty.name })
    } else if field_name_repeats(ty.fields@, k) {
        Some(Error::DuplicateField { ty: ty.name, field: f.name })
    } else {
        match f.metric {
            Some(m) => metric_error(ty, f, m),
            None => None,
        }
    }
}

/// The error of the first of the first `n` fields of `ty` that has one.
pub open spec fn first_field_error(ty: Type, n: int) -> Option<Error>
    decreases n,
{
    if n <= 0 {
        None
    } else {
        match first_field_error(ty, n - 1) {
            Some(e) => Some(e),
            None => field_error(ty, n - 1),
        }
    }
}

/// The `properties` object of a JSON schema, where the schema is an object that has one.
pub open spec fn schema_properties(schema: Json) -> Option<Map<Seq<char>, Json>> {
    match schema {
        Json::Object(m) => if m.contains_key("properties"@) {
            match m["properties"@] {
                Json::Object(p) => Some(p),
                _ => None,
            }
        } else {
            None
        },
        _ => None,
    }
}

/// The error for the first of the first `n` fields of `ty` that the schema properties lack.
pub open spec fn first_missing_field(ty: Type, props: Map<Seq<char>, Json>, n: int) -> Option<
    Error,
>
    decreases n,
{
    if n <= 0 {
        None
    } else {
        match first_missing_field(ty, props, n - 1) {
            Some(e) => Some(e),
            None => if props.contains_key(ty.fields@[n - 1].name@) {
                None
            } else {
                Some(Error::MissingSchemaField { ty: ty.name, field: ty.fields@[n - 1].name })
            },
        }
    }
}

/// What checking the fields of `ty` gives: the first bad field; else, when there are fields,
/// a schema without properties or the first field missing from them.
pub open spec fn fields_result(ty: Type) -> Result<(), Error> {
    match first_field_error(ty, ty.fields@.len() as int) {
        Some(e) => Err(e),
        None => if ty.fields@.len() == 0 {
            Ok(())
        } else {
            match schema_properties(json_view(ty.schema)) {
                None => Err(Error::MissingSchemaProperties { ty: ty.name }),
                Some(props) => match first_missing_field(ty, props, ty.fields@.len() as int) {
                    Some(e) => Err(e),
                    None => Ok(()),
                },
            }
        },
    }
}

/// The error for type `i`: a blank name, a repeated name, or bad fields.
pub open spec fn type_error(types: Seq<Type>, i: int) -> Option<Error> {
    if blank(types[i].name@) {
        Some(Error::EmptyTypeName)
    } else if type_name_repeats(types, i) {
        Some(Error::DuplicateType(types[i].name))
    } else {
        match fields_result(types[i]) {
            Err(e) => Some(e),
            Ok(_) => None,
        }
    }
}

/// The error of the first of the first `n` types that has one.
pub open spec fn first_type_error(types: Seq<Type>, n: int) -> Option<Error>
    decreases n,
{
    if n <= 0 {
        None
    } else {
        match first_type_error(types, n - 1) {
            Some(e) => Some(e),
            None => type_error(types, n - 1),
        }
    }
}

/// The error for operation `k`: a blank or repeated name, a blank HTTP path, or an input or
/// output that names no type.
pub open spec fn op_error(index: Index, k: int) -> Option<Error> {
    let op = index.ops@[k];
    if blank(op.name@) {
        Some(Error::EmptyOpName)
    } else if op_name_repeats(index.ops@, k) {
        Some(Error::DuplicateOp(op.name))
    } else if op.http matches Some(h) && blank(h.path@) {
        Some(Error::EmptyHttpPath { op: op.name })
    } else if !has_type(index.types@, op.input@) {
        Some(Error::MissingInput { op: op.name, ty: op.input })
    } else if !has_type(index.types@, op.output@) {
        Some(Error::MissingOutput { op: op.name, ty: op.output })
    } else {
        None
    }
}

/// The error of the first of the first `n` operations that has one.
pub open spec fn first_op_error(index: Index, n: int) -> Option<Error>
    decreases n,
{
    if n <= 0 {
        None
    } else {
        match first_op_error(index, n - 1) {
            Some(e) => Some(e),
            None => op_error(index, n - 1),
        }
    }
}

/// What checking an index gives: the error of the first bad type, in index order; else that
/// of the first bad operation; else `Ok`.
pub open spec fn check_spec(index: Index) -> Result<(), Error> {
    match first_type_error(index.types@, index.types@.len() as int) {
        Some(e) => Err(e),
        None => match first_op_error(index, index.ops@.len() as int) {
            Some(e) => Err(e),
            None => Ok(()),
        },
    }
}

/// Once one of the first `k` fields has an error, it stays the first one.
proof fn lemma_first_field_error_stays(ty: Type, k: int, n: int)
    requires
        0 <= k <= n,
        first_field_error(ty, k) is Some,
    ensures
        first_field_error(ty, n) == first_field_error(ty, k),
    decreases n - k,
{
    if n > k {
        lemma_first_field_error_stays(ty, k, n - 1);
    }
}

/// Once one of the first `k` fields is missing from the properties, it stays the first one.
proof fn lemma_first_missing_field_stays(ty: Type, props: Map<Seq<char>, Json>, k: int, n: int)
    requires
        0 <= k <= n,
        first_missing_field(ty, props, k) is Some,
    ensures
        first_missing_field(ty, props, n) == first_missing_field(ty, props, k),
    decreases n - k,
{
    if n > k {
        lemma_first_missing_field_stays(ty, props, k, n - 1);
    }
}

/// Once one of the first `k` types has an error, it stays the first one.
proof fn lemma_first_type_error_stays(types: Seq<Type>, k: int, n: int)
    requires
        0 <= k <= n,
        first_type_error(types, k) is Some,
    ensures
        first_type_error(types, n) == first_type_error(types, k),
    decreases n - k,
{
    if n > k {
        lemma_first_type_error_stays(types, k, n - 1);
    }
}

/// Once one of the first `k` operations has an error, it stays the first one.
proof fn lemma_first_op_error_stays(index: Index, k: int, n: int)
    requires
        0 <= k <= n,
        first_op_error(index, k) is Some,
    ensures
        first_op_error(index, n) == first_op_error(index, k),
    decreases n - k,
{
    if n > k {
        lemma_first_op_error_stays(index, k, n - 1);
    }
}

/// Whether a field before field `k` has its name.
fn field_name_seen(fields: &Vec<Field>, k: usize) -> (r: bool)
    requires
        k < fields@.len(),
    ensures
        r == field_name_repeats(fields@, k as int),
{
    let mut j: usize = 0;
    while j < k
        invariant
            k < fields@.len(),
            j <= k,
            forall|i: int| 0 <= i < j ==> (#[trigger] fields@[i]).name@ != fields@[k as int].name@,
        decreases k - j,
    {
        if fields[j].name == fields[k].name {
            return true;
        }
        j = j + 1;
    }
    false
}

/// Whether a type before type `i` has its name.
fn type_name_seen(types: &Vec<Type>, i: usize) -> (r: bool)
    requires
        i < types@.len(),
    ensures
        r == type_name_repeats(types@, i as int),
{
    let mut j: usize = 0;
    while j < i
        invariant
            i < types@.len(),
            j <= i,
            forall|k: int| 0 <= k < j ==> (#[trigger] types@[k]).name@ != types@[i as int].name@,
        decreases i - j,
    {
        if types[j].name == types[i].name {
            return true;
        }
        j = j + 1;
    }
    false
}

/// Whether an operation before operation `k` has its name.
fn op_name_seen(ops: &Vec<Op>, k: usize) -> (r: bool)
    requires
        k < ops@.len(),
    ensures
        r == op_name_repeats(ops@, k as int),
{
    let mut j: usize = 0;
    while j < k
        invariant
            k < ops@.len(),
            j <= k,
            forall|i: int| 0 <= i < j ==> (#[trigger] ops@[i]).name@ != ops@[k as int].name@,
        decreases k - j,
    {
        if ops[j].name == ops[k].name {
            return true;
        }
        j = j + 1;
    }
    false
}

/// Whether some type is named `name`.
fn type_named(types: &Vec<Type>, name: &String) -> (r: bool)
    ensures
        r == has_type(types@, name@),
{
    let mut j: usize = 0;
    while j < types.len()
        invariant
            j <= types@.len(),
            forall|k: int| 0 <= k < j ==> (#[trigger] types@[k]).name@ != name@,
        decreases types.len() - j,
    {
        if types[j].name == *name {
            return true;
        }
        j = j + 1;
    }
    false
}

/// A metric attribute must not be blank: `EmptyMetricAttr` naming the type, the field and
/// the attribute where it is.
fn check_metric_attr(ty: &Type, field: &Field, attr: &'static str, value: &str) -> (r: Result<
    (),
    Error,
>)
    ensures
        r is Err <==> blank(value@),
        r matches Err(e) ==> e == (Error::EmptyMetricAttr {
            ty: ty.name,
            field: field.name,
            attr: attr,
        }),
{
    if is_blank(value) {
        return Err(Error::EmptyMetricAttr { ty: ty.name.clone(), field: field.name.clone(), attr });
    }
    Ok(())
}

/// Checks the metric of field `field` of `ty`: calc, grain, then each source.
fn check_metric(ty: &Type, field: &Field, m: &Metric) -> (r: Result<(), Error>)
    ensures
        r matches Err(e) ==> metric_error(*ty, *field, *m) == Some(e),
        r is Ok ==> metric_error(*ty, *field, *m) is None,
{
    match check_metric_attr(ty, field, "calc", m.calc.as_str()) {
        Err(e) => return Err(e),
        Ok(()) => {},
    }
    match &m.grain {
        Some(grain) => match check_metric_attr(ty, field, "grain", grain.as_str()) {
            Err(e) => return Err(e),
            Ok(()) => {},
        },
        None => {},
    }
    let mut i: usize = 0;
    while i < m.sources.len()
        invariant
            i <= m.sources@.len(),
            forall|j: int| 0 <= j < i ==> !blank((#[trigger] m.sources@[j])@),
            !blank(m.calc@),
            !(m.grain matches Some(g) && blank(g@)),
        decreases m.sources.len() - i,
    {
        match check_metric_attr(ty, field, "source", m.sources[i].as_str()) {
            Err(e) => return Err(e),
            Ok(()) => {},
        }
        i = i + 1;
    }
    Ok(())
}

/// Checks the fields of `ty`: names present and distinct, metric attributes present, and,
/// where there are fields, each one among the properties of the type's JSON schema.
pub fn check_fields(ty: &Type) -> (r: Result<(), Error>)
    ensures
        r == fields_result(*ty),
{
    let mut k: usize = 0;
    while k < ty.fields.len()
        invariant
            k <= ty.fields@.len(),
            first_field_error(*ty, k as int) is None,
        decreases ty.fields.len() - k,
    {
        let field = &ty.fields[k];
        let ghost n = ty.fields@.len() as int;
        if is_blank(field.name.as_str()) {
            proof {
                lemma_first_field_error_stays(*ty, k + 1, n);
            }
            return Err(Error::EmptyFieldName { ty: ty.name.clone() });
        }
        if field_name_seen(&ty.fields, k) {
            proof {
                lemma_first_field_error_stays(*ty, k + 1, n);
            }
            return Err(Error::DuplicateField { ty: ty.name.clone(), field: field.name.clone() });
        }
        match &field.metric {
            Some(m) => match check_metric(ty, field, m) {
                Err(e) => {
                    proof {
                        lemma_first_field_error_stays(*ty, k + 1, n);
                    }
                    return Err(e);
                },
                Ok(()) => {},
            },
            None => {},
        }
        k = k + 1;
    }
    if ty.fields.len() == 0 {
        return Ok(());
    }
    proof {
        reveal_strlit("properties");
    }
    let properties = match json_get(&ty.schema, "properties") {
        Some(v) => match json_as_object(v) {
            Some(p) => p,
            None => {
                return Err(Error::MissingSchemaProperties { ty: ty.name.clone() });
            },
        },
        None => {
            return Err(Error::MissingSchemaProperties { ty: ty.name.clone() });
        },
    };
    let ghost props = json_object_view(*properties);
    let mut k: usize = 0;
    while k < ty.fields.len()
        invariant
            k <= ty.fields@.len(),
            schema_properties(json_view(ty.schema)) == Some(props),
            props == json_object_view(*properties),
            first_field_error(*ty, ty.fields@.len() as int) is None,
            first_missing_field(*ty, props, k as int) is None,
        decreases ty.fields.len() - k,
    {
        if !json_contains_key(properties, &ty.fields[k].name) {
            proof {
                lemma_first_missing_field_stays(*ty, props, k + 1, ty.fields@.len() as int);
            }
            return Err(Error::MissingSchemaField { ty: ty.name.clone(), field: ty.fields[k].name.clone() });
        }
        k = k + 1;
    }
    Ok(())
}

/// Checks an index: every type, in order, has a non-blank name that no type before it has
/// and well-formed fields; then every operation, in order, has a non-blank name that no
/// operation before it has, a non-blank HTTP path if it has a route, and an input and an
/// output that name types of the index. The error is that of the first rule broken.
pub fn check(index: &Index) -> (r: Result<(), Error>)
    ensures
        r == check_spec(*index),
{
    let mut i: usize = 0;
    while i < index.types.len()
        invariant
            i <= index.types@.len(),
            first_type_error(index.types@, i as int) is None,
        decreases index.types.len() - i,
    {
        let ty = &index.types[i];
        let ghost n = index.types@.len() as int;
        if is_blank(ty.name.as_str()) {
            proof {
                lemma_first_type_error_stays(index.types@, i + 1, n);
            }
            return Err(Error::EmptyTypeName);
        }
        if type_name_seen(&index.types, i) {
            proof {
                lemma_first_type_error_stays(index.types@, i + 1, n);
            }
            return Err(Error::DuplicateType(ty.name.clone()));
        }
        match check_fields(ty) {
            Err(e) => {
                proof {
                    lemma_first_type_error_stays(index.types@, i + 1, n);
                }
                return Err(e);
            },
            Ok(()) => {},
        }
        i = i + 1;
    }
    let mut k: usize = 0;
    while k < index.ops.len()
        invariant
            k <= index.ops@.len(),
            first_type_error(index.types@, index.types@.len() as int) is None,
            first_op_error(*index, k as int) is None,
        decreases index.ops.len() - k,
    {
        let op = &index.ops[k];
        let ghost n = index.ops@.len() as int;
        if is_blank(op.name.as_str()) {
            proof {
                lemma_first_op_error_stays(*index, k + 1, n);
            }
            return Err(Error::EmptyOpName);
        }
        if op_name_seen(&index.ops, k) {
            proof {
                lemma_first_op_error_stays(*index, k + 1, n);
            }
            return Err(Error::DuplicateOp(op.name.clone()));
        }
        match &op.http {
            Some(http) => {
                if is_blank(http.path.as_str()) {
                    proof {
                        lemma_first_op_error_stays(*index, k + 1, n);
                    }
                    return Err(Error::EmptyHttpPath { op: op.name.clone() });
                }
            },
            None => {},
        }
        if !type_named(&index.types, &op.input) {
            proof {
                lemma_first_op_error_stays(*index, k + 1, n);
            }
            return Err(Error::MissingInput { op: op.name.clone(), ty: op.input.clone() });
        }
        if !type_named(&index.types, &op.output) {
            proof {
                lemma_first_op_error_stays(*index, k + 1, n);
            }
            return Err(Error::MissingOutput { op: op.name.clone(), ty: op.output.clone() });
        }
        k = k + 1;
    }
    Ok(())
}

/// The message that describes an error.
pub open spec fn message_spec(e: Error) -> Seq<char> {
    match e {
        Error::EmptyTypeName => "empty type name"@,
        Error::EmptyOpName => "empty op name"@,
        Error::EmptyFieldName { ty } => "type "@ + ty@ + " has an empty field name"@,
        Error::EmptyHttpPath { op } => "op "@ + op@ + " has an empty HTTP path"@,
        Error::EmptyMetricAttr { ty, field, attr } => "type "@ + ty@ + " field "@ + field@
            + " has an empty metric "@ + attr@,
        Error::DuplicateType(name) => "duplicate type: "@ + name@,
        Error::DuplicateOp(name) => "duplicate op: "@ + name@,
        Error::DuplicateField { ty, field } => "type "@ + ty@ + " has duplicate field "@ + field@,
        Error::MissingInput { op, ty } => "op "@ + op@ + " references missing input type "@ + ty@,
        Error::MissingOutput { op, ty } => "op "@ + op@ + " references missing output type "@
            + ty@,
        Error::MissingSchemaProperties { ty } => "type "@ + ty@
            + " has fields but its JSON Schema has no properties"@,
        Error::MissingSchemaField { ty, field } => "type "@ + ty@ + " field "@ + field@
            + " is missing from JSON Schema properties"@,
    }
}

/// The string made of the given pieces, in order.
fn concat(pieces: &[&str]) -> (r: String)
    ensures
        r@ == pieces@.fold_left(Seq::<char>::empty(), |acc: Seq<char>, p: &str| acc + p@),
{
    let mut r = String::new();
    let mut i: usize = 0;
    while i < pieces.len()
        invariant
            i <= pieces@.len(),
            r@ == pieces@.take(i as int).fold_left(
                Seq::<char>::empty(),
                |acc: Seq<char>, p: &str| acc + p@,
            ),
        decreases pieces.len() - i,
    {
        assert(pieces@.take(i + 1).drop_last() =~= pieces@.take(i as int));
        r.append(pieces[i]);
        i = i + 1;
    }
    assert(pieces@.take(pieces@.len() as int) =~= pieces@);
    r
}

impl Error {
    /// The message that describes the error.
    pub fn message(&self) -> (r: String)
        ensures
            r@ == message_spec(*self),
    {
        let r = match self {
            Error::EmptyTypeName => concat(&["empty type name"]),
            Error::EmptyOpName => concat(&["empty op name"]),
            Error::EmptyFieldName { ty } => concat(&["type ", ty.as_str(), " has an empty field name"]),
            Error::EmptyHttpPath { op } => concat(&["op ", op.as_str(), " has an empty HTTP path"]),
            Error::EmptyMetricAttr { ty, field, attr } => concat(
                &["type ", ty.as_str(), " field ", field.as_str(), " has an empty metric ", attr],
            ),
            Error::DuplicateType(name) => concat(&["duplicate type: ", name.as_str()]),
            Error::DuplicateOp(name) => concat(&["duplicate op: ", name.as_str()]),
            Error::DuplicateField { ty, field } => concat(
                &["type ", ty.as_str(), " has duplicate field ", field.as_str()],
            ),
            Error::MissingInput { op, ty } => concat(
                &["op ", op.as_str(), " references missing input type ", ty.as_str()],
            ),
            Error::MissingOutput { op, ty } => concat(
                &["op ", op.as_str(), " references missing output type ", ty.as_str()],
            ),
            Error::MissingSchemaProperties { ty } => concat(
                &["type ", ty.as_str(), " has fields but its JSON Schema has no properties"],
            ),
            Error::MissingSchemaField { ty, field } => concat(
                &["type ", ty.as_str(), " field ", field.as_str(), " is missing from JSON Schema properties"],
            ),
        };
        proof {
            reveal_with_fuel(Seq::fold_left, 7);
        }
        r
    }
}

} // verus!
