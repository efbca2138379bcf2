//! Schema and attribute model: the declarative description of a target
//! struct, with per-field and per-container decoding directives, and the
//! validity conditions a schema must meet for a plan to be built.

use vstd::prelude::*;
use crate::model::Ty;
use crate::naming::NamingConvention;

verus! {

/// A fallible conversion the plan may apply after decoding an intermediate
/// value.  `Identity` is the trivial conversion of a type to itself;
/// `IntToBool` fails on any integer but zero and one; `BoolToInt` is total.
#[derive(Clone, Copy, PartialEq, Eq, Structural, Debug)]
pub enum Conversion {
    Identity,
    IntToBool,
    BoolToInt,
}

/// The conversion that carries `from` into `to`, if the pair is fallibly
/// convertible at all (the convertibility capability for scalar pairs).
pub open spec fn conversion_for(from: Ty, to: Ty) -> Option<Conversion> {
    if from == to {
        Option::Some(Conversion::Identity)
    } else if from == Ty::Int && to == Ty::Bool {
        Option::Some(Conversion::IntToBool)
    } else if from == Ty::Bool && to == Ty::Int {
        Option::Some(Conversion::BoolToInt)
    } else {
        Option::None
    }
}

/// Attributes of a field whose type is scalar (every field of a nested
/// schema, nesting being single-level).
#[derive(Clone, Debug, PartialEq, Eq)]
pub struct ScalarAttrs {
    /// Explicit column name; overrides any container convention.
    pub rename: Option<Vec<u8>>,
    /// Decode this intermediate scalar type, then fallibly convert.
    pub try_from: Option<Ty>,
    /// Substitute the type's default when the column is absent.
    pub default_on_missing: bool,
}

/// One field of a nested (flattened) schema.
#[derive(Clone, Debug, PartialEq, Eq)]
pub struct SubField {
    /// The field identifier; absent for positional (tuple-style) fields.
    pub ident: Option<Vec<u8>>,
    pub ty: Ty,
    pub attrs: ScalarAttrs,
}

/// A nested schema: the target of a `flatten` field, decoded from the same
/// row by its own field list.
#[derive(Clone, Debug, PartialEq, Eq)]
pub struct SubSchema {
    pub rename_all: Option<NamingConvention>,
    pub fields: Vec<SubField>,
}

/// A field's declared type: a scalar, or a nested struct mapped from the
/// same row (single-level nesting).
#[derive(Clone, Debug, PartialEq, Eq)]
pub enum FieldTy {
    Scalar(Ty),
    Struct(SubSchema),
}

/// Per-field decoding directives of a top-level field.
#[derive(Clone, Debug, PartialEq, Eq)]
pub struct FieldAttrs {
    /// Explicit column name; overrides any container convention.  Only
    /// meaningful on a non-flattened field.
    pub rename: Option<Vec<u8>>,
    /// Decode the field as a whole sub-object from the same row.
    pub flatten: bool,
    /// Decode this intermediate type, then fallibly convert to the field
    /// type.
    pub try_from: Option<FieldTy>,
    /// Substitute the type's default when the column is absent.
    pub default_on_missing: bool,
}

impl FieldAttrs {
    /// Attributes carrying no directive at all.
    pub fn plain() -> (out: FieldAttrs)
        ensures
            out.rename is None,
            !out.flatten,
            out.try_from is None,
            !out.default_on_missing,
    {
        FieldAttrs { rename: Option::None, flatten: false, try_from: Option::None, default_on_missing: false }
    }
}

/// One field of a target struct schema.
#[derive(Clone, Debug, PartialEq, Eq)]
pub struct FieldSchema {
    /// The field identifier; absent for positional (tuple-style) fields.
    pub ident: Option<Vec<u8>>,
    pub ty: FieldTy,
    pub attrs: FieldAttrs,
}

/// A target struct schema: an ordered field list with container-level
/// attributes.  A schema is either entirely name-addressed or entirely
/// position-addressed, according to whether its fields carry identifiers.
#[derive(Clone, Debug, PartialEq, Eq)]
pub struct Schema {
    pub rename_all: Option<NamingConvention>,
    pub fields: Vec<FieldSchema>,
}

/// Whether the schema is name-addressed (its first field carries an
/// identifier).
pub open spec fn named_mode(s: Schema) -> bool {
    s.fields@.len() > 0 && s.fields@[0].ident is Some
}

/// Whether a nested schema is name-addressed.
pub open spec fn sub_named_mode(s: SubSchema) -> bool {
    s.fields@.len() > 0 && s.fields@[0].ident is Some
}

/// A scalar field is valid when its `try_from` directive, if present, names
/// a type fallibly convertible to the field type.  Only consulted in
/// name-addressed mode: positional decoding ignores attributes.
pub open spec fn scalar_attrs_valid(a: ScalarAttrs, ty: Ty) -> bool {
    match a.try_from {
        Option::Some(mid) => conversion_for(mid, ty) is Some,
        Option::None => true,
    }
}

/// A nested schema is valid when it is non-empty, its addressing mode is
/// unmixed, and (in name-addressed mode) each field's attributes are valid.
pub open spec fn sub_schema_valid(s: SubSchema) -> bool {
    &&& s.fields@.len() > 0
    &&& forall|i: int|
        0 <= i < s.fields@.len() ==> (s.fields@[i].ident is Some) == sub_named_mode(s)
    &&& sub_named_mode(s) ==> forall|i: int|
        0 <= i < s.fields@.len() ==> scalar_attrs_valid(s.fields@[i].attrs, s.fields@[i].ty)
}

/// Validity of one name-addressed field, following the strategy table over
/// `{flatten, try_from-present}`:
/// - neither: the field type must be a directly decodable scalar;
/// - `flatten` alone: the field type must be a nested schema, itself valid;
/// - `flatten` with `try_from = T`: `T` must be a valid nested schema of
///   exactly one field, whose type is the (scalar) field type — the
///   conversion unwraps the one-field object;
/// - `try_from = T` alone: `T` must be a scalar convertible to the (scalar)
///   field type.
///
/// `flatten` together with an explicit `rename` is a contradiction (a
/// flattened field occupies no single column) and is rejected.
pub open spec fn field_valid(f: FieldSchema) -> bool {
    &&& !(f.attrs.flatten && f.attrs.rename is Some)
    &&& if f.attrs.flatten {
        match f.attrs.try_from {
            Option::None => f.ty matches FieldTy::Struct(sub) && sub_schema_valid(sub),
            Option::Some(t) => {
                &&& t matches FieldTy::Struct(sub)
                &&& sub_schema_valid(sub)
                &&& sub.fields@.len() == 1
                &&& f.ty matches FieldTy::Scalar(target) && sub.fields@[0].ty == target
            },
        }
    } else {
        match f.attrs.try_from {
            Option::None => f.ty is Scalar,
            Option::Some(t) => {
                &&& t matches FieldTy::Scalar(mid)
                &&& f.ty matches FieldTy::Scalar(target) && conversion_for(mid, target) is Some
            },
        }
    }
}

/// Validity of a whole schema: non-empty, unmixed addressing, and — in
/// name-addressed mode — every field valid; in position-addressed mode every
/// field type must be a directly decodable scalar (attributes are ignored).
pub open spec fn schema_valid(s: Schema) -> bool {
    &&& s.fields@.len() > 0
    &&& forall|i: int| 0 <= i < s.fields@.len() ==> (s.fields@[i].ident is Some) == named_mode(s)
    &&& if named_mode(s) {
        forall|i: int| 0 <= i < s.fields@.len() ==> field_valid(s.fields@[i])
    } else {
        forall|i: int| 0 <= i < s.fields@.len() ==> s.fields@[i].ty is Scalar
    }
}

} // verus!
