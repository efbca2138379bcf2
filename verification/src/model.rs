//! Data model: scalar types, column values, rows, and the objects a decode
//! plan constructs.  Contracts speak of these through mathematical views
//! (`Seq`-based mirrors of the executable types).

use vstd::prelude::*;

verus! {

/// A scalar type a column can be decoded into.
#[derive(Clone, Copy, PartialEq, Eq, Structural, Debug)]
pub enum Ty {
    Bool,
    Int,
    Text,
}

/// A scalar column value.
#[derive(Clone, Debug, PartialEq, Eq)]
pub enum Value {
    Bool(bool),
    Int(i64),
    Text(Vec<u8>),
}

/// Mathematical view of a `Value`.
pub enum ValV {
    Bool(bool),
    Int(int),
    Text(Seq<u8>),
}

impl View for Value {
    type V = ValV;

    open spec fn view(&self) -> ValV {
        match self {
            Value::Bool(b) => ValV::Bool(*b),
            Value::Int(n) => ValV::Int(*n as int),
            Value::Text(t) => ValV::Text(t@),
        }
    }
}

/// The scalar type a value inhabits.
pub open spec fn kind_of(v: ValV) -> Ty {
    match v {
        ValV::Bool(_) => Ty::Bool,
        ValV::Int(_) => Ty::Int,
        ValV::Text(_) => Ty::Text,
    }
}

/// The default value of a scalar type, substituted for an absent column
/// when a field asks for default-on-missing.
pub open spec fn default_of(t: Ty) -> ValV {
    match t {
        Ty::Bool => ValV::Bool(false),
        Ty::Int => ValV::Int(0),
        Ty::Text => ValV::Text(Seq::empty()),
    }
}

/// One column of a row: a name and a scalar value.
#[derive(Clone, Debug, PartialEq, Eq)]
pub struct Column {
    pub name: Vec<u8>,
    pub value: Value,
}

/// Mathematical view of a `Column`.
pub struct ColV {
    pub name: Seq<u8>,
    pub value: ValV,
}

impl View for Column {
    type V = ColV;

    open spec fn view(&self) -> ColV {
        ColV { name: self.name@, value: self.value@ }
    }
}

/// A row: an ordered list of named columns.  Position-addressed schemas
/// index this list directly; name-addressed schemas look a name up and the
/// first column with that name wins.
#[derive(Clone, Debug, PartialEq, Eq)]
pub struct Row {
    pub columns: Vec<Column>,
}

impl View for Row {
    type V = Seq<ColV>;

    open spec fn view(&self) -> Seq<ColV> {
        self.columns@.map_values(|c: Column| c@)
    }
}

/// The value of the first column named `name`, if any.
pub open spec fn lookup_name(cols: Seq<ColV>, name: Seq<u8>) -> Option<ValV>
    decreases cols.len(),
{
    if cols.len() == 0 {
        Option::None
    } else if cols[0].name == name {
        Option::Some(cols[0].value)
    } else {
        lookup_name(cols.skip(1), name)
    }
}

/// The value at column position `i`, if the row is that wide.
pub open spec fn lookup_index(cols: Seq<ColV>, i: int) -> Option<ValV> {
    if 0 <= i < cols.len() {
        Option::Some(cols[i].value)
    } else {
        Option::None
    }
}

/// One field of a constructed object: a scalar, or a nested object
/// (itself a list of scalars, nesting being single-level).
#[derive(Clone, Debug, PartialEq, Eq)]
pub enum FieldValue {
    Scalar(Value),
    Nested(Vec<Value>),
}

/// Mathematical view of a `FieldValue`.
pub enum FieldValV {
    Scalar(ValV),
    Nested(Seq<ValV>),
}

impl View for FieldValue {
    type V = FieldValV;

    open spec fn view(&self) -> FieldValV {
        match self {
            FieldValue::Scalar(v) => FieldValV::Scalar(v@),
            FieldValue::Nested(vs) => FieldValV::Nested(vs@.map_values(|v: Value| v@)),
        }
    }
}

/// An object constructed by a decode plan: one value per field, in field
/// declaration order.
#[derive(Clone, Debug, PartialEq, Eq)]
pub struct Obj {
    pub values: Vec<FieldValue>,
}

impl View for Obj {
    type V = Seq<FieldValV>;

    open spec fn view(&self) -> Seq<FieldValV> {
        self.values@.map_values(|v: FieldValue| v@)
    }
}

/// The error kinds of plan building and plan execution.
#[derive(Clone, Debug, PartialEq, Eq)]
pub enum Error {
    /// A named or indexed column was absent from the row.
    ColumnNotFound(Vec<u8>),
    /// The column at the given position was absent from the row.
    IndexOutOfBounds(usize),
    /// A column value did not inhabit the requested scalar type.
    TypeMismatch,
    /// A fallible conversion from the intermediate type failed.
    ConversionFailure,
    /// Build-time: the schema cannot be mapped (empty, mixed addressing,
    /// or a contradictory attribute combination).
    UnsupportedSchema,
}

/// Mathematical view of an `Error`.
pub enum ErrV {
    ColumnNotFound(Seq<u8>),
    IndexOutOfBounds(int),
    TypeMismatch,
    ConversionFailure,
    UnsupportedSchema,
}

impl View for Error {
    type V = ErrV;

    open spec fn view(&self) -> ErrV {
        match self {
            Error::ColumnNotFound(n) => ErrV::ColumnNotFound(n@),
            Error::IndexOutOfBounds(i) => ErrV::IndexOutOfBounds(*i as int),
            Error::TypeMismatch => ErrV::TypeMismatch,
            Error::ConversionFailure => ErrV::ConversionFailure,
            Error::UnsupportedSchema => ErrV::UnsupportedSchema,
        }
    }
}

/// Whether an execution error reports an absent column, the one error kind
/// the default-on-missing fallback may substitute for.
pub open spec fn is_absence(e: ErrV) -> bool {
    e is ColumnNotFound || e is IndexOutOfBounds
}

/// The mathematical view of a `Result` whose sides both have views.
pub open spec fn res_view<T: View, E: View>(r: Result<T, E>) -> Result<T::V, E::V> {
    match r {
        Result::Ok(v) => Result::Ok(v@),
        Result::Err(e) => Result::Err(e@),
    }
}

/// Copy a scalar value.
pub fn clone_value(v: &Value) -> (out: Value)
    ensures
        out@ == v@,
{
    match v {
        Value::Bool(b) => Value::Bool(*b),
        Value::Int(n) => Value::Int(*n),
        Value::Text(t) => {
            let mut bytes: Vec<u8> = Vec::new();
            let mut i: usize = 0;
            while i < t.len()
                invariant
                    i <= t.len(),
                    bytes@ == t@.subrange(0, i as int),
                decreases t.len() - i,
            {
                bytes.push(t[i]);
                proof {
                    assert(bytes@ =~= t@.subrange(0, i + 1));
                }
                i = i + 1;
            }
            proof {
                assert(bytes@ =~= t@);
            }
            Value::Text(bytes)
        },
    }
}

/// Copy a byte string.
pub fn clone_bytes(b: &Vec<u8>) -> (out: Vec<u8>)
    ensures
        out@ == b@,
{
    let mut bytes: Vec<u8> = Vec::new();
    let mut i: usize = 0;
    while i < b.len()
        invariant
            i <= b.len(),
            bytes@ == b@.subrange(0, i as int),
        decreases b.len() - i,
    {
        bytes.push(b[i]);
        proof {
            assert(bytes@ =~= b@.subrange(0, i + 1));
        }
        i = i + 1;
    }
    proof {
        assert(bytes@ =~= b@);
    }
    bytes
}

/// Byte-string equality.
pub fn bytes_eq(a: &Vec<u8>, b: &Vec<u8>) -> (r: bool)
    ensures
        r == (a@ == b@),
{
    if a.len() != b.len() {
        proof {
            assert(a@ != b@);
        }
        return false;
    }
    let mut i: usize = 0;
    while i < a.len()
        invariant
            i <= a.len(),
            a@.len() == b@.len(),
            forall|j: int| 0 <= j < i ==> a@[j] == b@[j],
        decreases a.len() - i,
    {
        if a[i] != b[i] {
            proof {
                assert(a@ != b@);
            }
            return false;
        }
        i = i + 1;
    }
    proof {
        assert(a@ =~= b@);
    }
    true
}

} // verus!
