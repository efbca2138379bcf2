//! Decode plan: the ordered per-field steps and the capability requirements
//! a schema compiles into, and the builder that produces them.
//!
//! Strategy selection per field follows a 2x2 decision over
//! `{flatten, try_from-present}`; column keys are resolved from an explicit
//! rename, else the container convention applied to the identifier with any
//! raw-escape prefix stripped, else the bare identifier.  Position-addressed
//! schemas ignore all attributes and use declaration order.

use vstd::prelude::*;
use crate::model::{Ty, Error, ErrV, clone_bytes};
use crate::naming::{NamingConvention, convert_spec, strip_raw_spec, rename_all, strip_raw};
use crate::schema::{
    Conversion, conversion_for, ScalarAttrs, SubField, SubSchema, FieldTy, FieldAttrs,
    FieldSchema, Schema, named_mode, sub_named_mode, scalar_attrs_valid, sub_schema_valid,
    field_valid, schema_valid,
};

verus! {

/// How a direct decode step addresses its column.
#[derive(Clone, Debug, PartialEq, Eq)]
pub enum ColumnKey {
    Name(Vec<u8>),
    Index(usize),
}

/// Mathematical view of a `ColumnKey`.
pub enum KeyV {
    Name(Seq<u8>),
    Index(int),
}

impl View for ColumnKey {
    type V = KeyV;

    open spec fn view(&self) -> KeyV {
        match self {
            ColumnKey::Name(n) => KeyV::Name(n@),
            ColumnKey::Index(i) => KeyV::Index(*i as int),
        }
    }
}

/// A direct decode of one column: look the key up, decode the intermediate
/// scalar type, then apply the conversion, if any.  When the column is
/// absent and `default_on_missing` is set, the step yields the default of
/// its final type instead.
#[derive(Clone, Debug, PartialEq, Eq)]
pub struct ScalarStep {
    pub key: ColumnKey,
    pub decode_ty: Ty,
    pub convert: Option<Conversion>,
    pub default_on_missing: bool,
}

/// The plan of a nested (flattened) decode: one scalar step per nested
/// field, over the same row.
#[derive(Clone, Debug, PartialEq, Eq)]
pub struct NestedPlan {
    pub steps: Vec<ScalarStep>,
}

/// One per-field decode step.
#[derive(Clone, Debug, PartialEq, Eq)]
pub enum DecodeStep {
    /// Decode one column directly (by name or by position).
    Direct(ScalarStep),
    /// Decode a whole sub-object from the row; with `unwrap_single`, the
    /// one-field sub-object is then converted into its single scalar.
    Flatten { sub: NestedPlan, unwrap_single: bool, default_on_missing: bool },
}

/// A capability the execution environment must provide for a plan to run.
/// One record per requirement, in step order, mirroring the constraints the
/// schema's strategies demand.
#[derive(Clone, Copy, PartialEq, Eq, Structural, Debug)]
pub enum Capability {
    /// Columns can be addressed by name.
    AddressByName,
    /// Columns can be addressed by position.
    AddressByIndex,
    /// The scalar type can be decoded from a raw column value.
    Decode(Ty),
    /// The scalar type is type-compatible with a column of the row.
    TypeCompat(Ty),
    /// A nested object can be mapped from the same row.
    NestedMap,
    /// The first scalar type is fallibly convertible to the second.
    TryFromScalar(Ty, Ty),
    /// A one-field nested object is fallibly convertible to the scalar.
    TryFromNested(Ty),
}

/// The full decode plan of a schema: its steps in field declaration order,
/// and every capability those steps require.
#[derive(Clone, Debug, PartialEq, Eq)]
pub struct DecodePlan {
    pub steps: Vec<DecodeStep>,
    pub requirements: Vec<Capability>,
}

/// A step that unwraps its sub-object must have built it from exactly one
/// nested field.
pub open spec fn step_wf(step: DecodeStep) -> bool {
    match step {
        DecodeStep::Flatten { sub, unwrap_single, .. } => unwrap_single ==> sub.steps@.len() == 1,
        DecodeStep::Direct(_) => true,
    }
}

/// Every step of the plan is well-formed; plans the builder returns are.
pub open spec fn plan_wf(plan: DecodePlan) -> bool {
    forall|i: int| 0 <= i < plan.steps@.len() ==> step_wf(plan.steps@[i])
}

/// The column name a non-flattened field resolves to: the explicit rename
/// if present; else the container convention applied to the identifier with
/// any raw-escape prefix stripped; else the stripped identifier itself.
pub open spec fn resolved_key_spec(
    rename: Option<Vec<u8>>,
    ident: Seq<u8>,
    ra: Option<NamingConvention>,
) -> Seq<u8> {
    match rename {
        Option::Some(r) => r@,
        Option::None => match ra {
            Option::Some(c) => convert_spec(c, strip_raw_spec(ident)),
            Option::None => strip_raw_spec(ident),
        },
    }
}

/// The scalar a field type carries (meaningful only for scalar field types).
pub open spec fn as_scalar(ty: FieldTy) -> Ty {
    match ty {
        FieldTy::Scalar(t) => t,
        FieldTy::Struct(_) => Ty::Bool,
    }
}

/// Whether a scalar step is the one the given directives compile to.
pub open spec fn scalar_step_shape(
    st: ScalarStep,
    ident: Option<Vec<u8>>,
    ty: Ty,
    rename: Option<Vec<u8>>,
    try_from: Option<Ty>,
    dflt: bool,
    ra: Option<NamingConvention>,
    named: bool,
    pos: int,
) -> bool {
    if named {
        &&& ident matches Option::Some(id) && (st.key matches ColumnKey::Name(n) && n@
            == resolved_key_spec(rename, id@, ra))
        &&& match try_from {
            Option::Some(mid) => st.decode_ty == mid && st.convert == conversion_for(mid, ty),
            Option::None => st.decode_ty == ty && st.convert is None,
        }
        &&& st.default_on_missing == dflt
    } else {
        &&& st.key matches ColumnKey::Index(i) && i == pos
        &&& st.decode_ty == ty
        &&& st.convert is None
        &&& !st.default_on_missing
    }
}

/// Whether a scalar step is the one a nested field compiles to.
pub open spec fn scalar_step_matches(
    st: ScalarStep,
    f: SubField,
    ra: Option<NamingConvention>,
    named: bool,
    pos: int,
) -> bool {
    if named {
        scalar_step_shape(
            st,
            f.ident,
            f.ty,
            f.attrs.rename,
            f.attrs.try_from,
            f.attrs.default_on_missing,
            ra,
            named,
            pos,
        )
    } else {
        scalar_step_shape(st, f.ident, f.ty, Option::None, Option::None, false, ra, named, pos)
    }
}

/// Whether a nested plan is the one a nested schema compiles to.
pub open spec fn sub_plan_matches(sub: NestedPlan, ss: SubSchema) -> bool {
    &&& sub.steps@.len() == ss.fields@.len()
    &&& forall|j: int|
        0 <= j < ss.fields@.len() ==> scalar_step_matches(
            sub.steps@[j],
            ss.fields@[j],
            ss.rename_all,
            sub_named_mode(ss),
            j,
        )
}

/// Whether a decode step is the one a top-level field compiles to, per the
/// strategy table.
pub open spec fn step_matches(
    step: DecodeStep,
    f: FieldSchema,
    ra: Option<NamingConvention>,
    named: bool,
    pos: int,
) -> bool {
    if named {
        if f.attrs.flatten {
            match f.attrs.try_from {
                Option::None => {
                    &&& step matches DecodeStep::Flatten { sub, unwrap_single, default_on_missing }
                    &&& f.ty matches FieldTy::Struct(ss)
                    &&& sub_plan_matches(sub, ss)
                    &&& !unwrap_single
                    &&& default_on_missing == f.attrs.default_on_missing
                },
                Option::Some(t) => {
                    &&& step matches DecodeStep::Flatten { sub, unwrap_single, default_on_missing }
                    &&& t matches FieldTy::Struct(ss)
                    &&& sub_plan_matches(sub, ss)
                    &&& unwrap_single
                    &&& default_on_missing == f.attrs.default_on_missing
                },
            }
        } else {
            &&& step matches DecodeStep::Direct(st)
            &&& f.ty matches FieldTy::Scalar(target)
            &&& scalar_step_shape(
                st,
                f.ident,
                target,
                f.attrs.rename,
                match f.attrs.try_from {
                    Option::Some(t) => Option::Some(as_scalar(t)),
                    Option::None => Option::None,
                },
                f.attrs.default_on_missing,
                ra,
                true,
                pos,
            )
        }
    } else {
        &&& step matches DecodeStep::Direct(st)
        &&& f.ty matches FieldTy::Scalar(target)
        &&& scalar_step_shape(
            st,
            f.ident,
            target,
            Option::None,
            Option::None,
            false,
            ra,
            false,
            pos,
        )
    }
}

/// The capabilities one directly decoded scalar demands.
pub open spec fn scalar_caps(ty: Ty, try_from: Option<Ty>) -> Seq<Capability> {
    match try_from {
        Option::None => seq![Capability::Decode(ty), Capability::TypeCompat(ty)],
        Option::Some(mid) => seq![
            Capability::Decode(mid),
            Capability::TypeCompat(mid),
            Capability::TryFromScalar(mid, ty),
        ],
    }
}

/// The capabilities one top-level field demands.
pub open spec fn field_caps(f: FieldSchema, named: bool) -> Seq<Capability> {
    if named {
        if f.attrs.flatten {
            match f.attrs.try_from {
                Option::None => seq![Capability::NestedMap],
                Option::Some(_) => seq![
                    Capability::NestedMap,
                    Capability::TryFromNested(as_scalar(f.ty)),
                ],
            }
        } else {
            match f.attrs.try_from {
                Option::None => scalar_caps(as_scalar(f.ty), Option::None),
                Option::Some(t) => scalar_caps(as_scalar(f.ty), Option::Some(as_scalar(t))),
            }
        }
    } else {
        scalar_caps(as_scalar(f.ty), Option::None)
    }
}

/// The capabilities of the first `n` fields, in order.
pub open spec fn caps_prefix(fields: Seq<FieldSchema>, named: bool, n: int) -> Seq<Capability>
    decreases n,
{
    if n <= 0 {
        Seq::empty()
    } else {
        caps_prefix(fields, named, n - 1) + field_caps(fields[n - 1], named)
    }
}

/// The full requirement list of a schema: its addressing capability, then
/// each field's capabilities in declaration order.
pub open spec fn reqs_spec(s: Schema) -> Seq<Capability> {
    (if named_mode(s) {
        seq![Capability::AddressByName]
    } else {
        seq![Capability::AddressByIndex]
    }) + caps_prefix(s.fields@, named_mode(s), s.fields@.len() as int)
}

/// Whether a plan is the compilation of a schema: one step per field, each
/// the strategy its field selects, the requirement list complete, and the
/// plan well-formed.
pub open spec fn plan_matches_schema(plan: DecodePlan, s: Schema) -> bool {
    &&& plan.steps@.len() == s.fields@.len()
    &&& forall|i: int|
        0 <= i < s.fields@.len() ==> step_matches(
            plan.steps@[i],
            s.fields@[i],
            s.rename_all,
            named_mode(s),
            i,
        )
    &&& plan.requirements@ == reqs_spec(s)
    &&& plan_wf(plan)
}

fn conversion_for_ex(from: Ty, to: Ty) -> (r: Option<Conversion>)
    ensures
        r == conversion_for(from, to),
{
    if from == to {
        Option::Some(Conversion::Identity)
    } else if from == Ty::Int && to == Ty::Bool {
        Option::Some(Conversion::IntToBool)
    } else if from == Ty::Bool && to == Ty::Int {
        Option::Some(Conversion::BoolToInt)
    } else {
        Option::None
    }
}

/// Resolve the column name of one non-flattened, name-addressed field.
fn resolve_key(
    ident: &Vec<u8>,
    rename: &Option<Vec<u8>>,
    ra: Option<NamingConvention>,
) -> (out: Vec<u8>)
    ensures
        out@ == resolved_key_spec(*rename, ident@, ra),
{
    match rename {
        Option::Some(r) => clone_bytes(r),
        Option::None => {
            let stripped = strip_raw(ident);
            match ra {
                Option::Some(c) => rename_all(&stripped, c),
                Option::None => stripped,
            }
        },
    }
}

/// Compile one scalar decode: a name-addressed decode honours the naming
/// and conversion directives (and rejects an impossible conversion pair); a
/// position-addressed decode ignores them and reads column `pos`.
fn build_scalar_step(
    ident: &Option<Vec<u8>>,
    ty: Ty,
    rename: &Option<Vec<u8>>,
    try_from: Option<Ty>,
    dflt: bool,
    ra: Option<NamingConvention>,
    named: bool,
    pos: usize,
) -> (r: Result<ScalarStep, Error>)
    requires
        named ==> ident is Some,
    ensures
        r is Ok <==> (!named || (match try_from {
            Option::Some(mid) => conversion_for(mid, ty) is Some,
            Option::None => true,
        })),
        r matches Ok(st) ==> scalar_step_shape(
            st,
            *ident,
            ty,
            if named {
                *rename
            } else {
                Option::None
            },
            if named {
                try_from
            } else {
                Option::None
            },
            if named {
                dflt
            } else {
                false
            },
            ra,
            named,
            pos as int,
        ),
        r matches Err(e) ==> e@ == ErrV::UnsupportedSchema,
{
    if !named {
        return Result::Ok(
            ScalarStep {
                key: ColumnKey::Index(pos),
                decode_ty: ty,
                convert: Option::None,
                default_on_missing: false,
            },
        );
    }
    let key = match ident {
        Option::Some(id) => ColumnKey::Name(resolve_key(id, rename, ra)),
        Option::None => vstd::pervasive::unreached(),
    };
    match try_from {
        Option::None => Result::Ok(
            ScalarStep { key, decode_ty: ty, convert: Option::None, default_on_missing: dflt },
        ),
        Option::Some(mid) => {
            match conversion_for_ex(mid, ty) {
                Option::Some(cv) => Result::Ok(
                    ScalarStep {
                        key,
                        decode_ty: mid,
                        convert: Option::Some(cv),
                        default_on_missing: dflt,
                    },
                ),
                Option::None => Result::Err(Error::UnsupportedSchema),
            }
        },
    }
}

/// Compile a nested schema into its plan, validating it: it must be
/// non-empty, unmixed in addressing, and each conversion directive must
/// name a convertible pair.
pub fn build_sub_plan(ss: &SubSchema) -> (r: Result<NestedPlan, Error>)
    ensures
        r is Ok <==> sub_schema_valid(*ss),
        r matches Ok(p) ==> sub_plan_matches(p, *ss),
        r matches Err(e) ==> e@ == ErrV::UnsupportedSchema,
{
    if ss.fields.len() == 0 {
        return Result::Err(Error::UnsupportedSchema);
    }
    let named = ss.fields[0].ident.is_some();
    let mut steps: Vec<ScalarStep> = Vec::new();
    let mut i: usize = 0;
    while i < ss.fields.len()
        invariant
            i <= ss.fields@.len(),
            ss.fields@.len() > 0,
            named == sub_named_mode(*ss),
            steps@.len() == i,
            forall|j: int|
                0 <= j < i ==> scalar_step_matches(
                    steps@[j],
                    ss.fields@[j],
                    ss.rename_all,
                    named,
                    j,
                ),
            forall|j: int| 0 <= j < i ==> (ss.fields@[j].ident is Some) == named,
            named ==> forall|j: int|
                0 <= j < i ==> scalar_attrs_valid(ss.fields@[j].attrs, ss.fields@[j].ty),
        decreases ss.fields@.len() - i,
    {
        let f = &ss.fields[i];
        if f.ident.is_some() != named {
            proof {
                assert(!sub_schema_valid(*ss));
            }
            return Result::Err(Error::UnsupportedSchema);
        }
        let step = match build_scalar_step(
            &f.ident,
            f.ty,
            &f.attrs.rename,
            f.attrs.try_from,
            f.attrs.default_on_missing,
            ss.rename_all,
            named,
            i,
        ) {
            Result::Ok(st) => st,
            Result::Err(e) => {
                proof {
                    assert(!scalar_attrs_valid(ss.fields@[i as int].attrs, ss.fields@[i as int].ty));
                    assert(!sub_schema_valid(*ss));
                }
                return Result::Err(e);
            },
        };
        steps.push(step);
        i = i + 1;
    }
    proof {
        assert(sub_schema_valid(*ss));
    }
    Result::Ok(NestedPlan { steps })
}

/// Compile a schema into its decode plan, or reject it with
/// `UnsupportedSchema`.  On success the plan has one step per field, each
/// the strategy its field's attributes select, and the requirement list
/// carries the addressing capability followed by every field's
/// capabilities, in declaration order.  The build succeeds exactly on valid
/// schemas.
pub fn build_plan(s: &Schema) -> (r: Result<DecodePlan, Error>)
    ensures
        r is Ok <==> schema_valid(*s),
        r matches Ok(plan) ==> plan_matches_schema(plan, *s),
        r matches Err(e) ==> e@ == ErrV::UnsupportedSchema,
{
    if s.fields.len() == 0 {
        return Result::Err(Error::UnsupportedSchema);
    }
    let named = s.fields[0].ident.is_some();
    let mut steps: Vec<DecodeStep> = Vec::new();
    let mut reqs: Vec<Capability> = Vec::new();
    if named {
        reqs.push(Capability::AddressByName);
    } else {
        reqs.push(Capability::AddressByIndex);
    }
    let mut i: usize = 0;
    while i < s.fields.len()
        invariant
            i <= s.fields@.len(),
            s.fields@.len() > 0,
            named == named_mode(*s),
            steps@.len() == i,
            forall|j: int|
                0 <= j < i ==> step_matches(steps@[j], s.fields@[j], s.rename_all, named, j),
            forall|j: int| 0 <= j < i ==> step_wf(steps@[j]),
            forall|j: int| 0 <= j < i ==> (s.fields@[j].ident is Some) == named,
            named ==> forall|j: int| 0 <= j < i ==> field_valid(s.fields@[j]),
            !named ==> forall|j: int| 0 <= j < i ==> s.fields@[j].ty is Scalar,
            reqs@ == (if named {
                seq![Capability::AddressByName]
            } else {
                seq![Capability::AddressByIndex]
            }) + caps_prefix(s.fields@, named, i as int),
        decreases s.fields@.len() - i,
    {
        let f = &s.fields[i];
        if f.ident.is_some() != named {
            proof {
                assert(!schema_valid(*s));
            }
            return Result::Err(Error::UnsupportedSchema);
        }
        if named {
            if f.attrs.flatten && f.attrs.rename.is_some() {
                proof {
                    assert(!field_valid(s.fields@[i as int]));
                    assert(!schema_valid(*s));
                }
                return Result::Err(Error::UnsupportedSchema);
            }
            if f.attrs.flatten {
                match &f.attrs.try_from {
                    Option::None => {
                        let sub = match &f.ty {
                            FieldTy::Struct(ss) => match build_sub_plan(ss) {
                                Result::Ok(p) => p,
                                Result::Err(e) => {
                                    proof {
                                        assert(!field_valid(s.fields@[i as int]));
                                        assert(!schema_valid(*s));
                                    }
                                    return Result::Err(e);
                                },
                            },
                            FieldTy::Scalar(_) => {
                                proof {
                                    assert(!field_valid(s.fields@[i as int]));
                                    assert(!schema_valid(*s));
                                }
                                return Result::Err(Error::UnsupportedSchema);
                            },
                        };
                        steps.push(
                            DecodeStep::Flatten {
                                sub,
                                unwrap_single: false,
                                default_on_missing: f.attrs.default_on_missing,
                            },
                        );
                        reqs.push(Capability::NestedMap);
                    },
                    Option::Some(t) => {
                        let (sub, sub_len, sub_first_ty) = match t {
                            FieldTy::Struct(ss) => match build_sub_plan(ss) {
                                Result::Ok(p) => {
                                    let n = ss.fields.len();
                                    let t0 = ss.fields[0].ty;
                                    (p, n, t0)
                                },
                                Result::Err(e) => {
                                    proof {
                                        assert(!field_valid(s.fields@[i as int]));
                                        assert(!schema_valid(*s));
                                    }
                                    return Result::Err(e);
                                },
                            },
                            FieldTy::Scalar(_) => {
                                proof {
                                    assert(!field_valid(s.fields@[i as int]));
                                    assert(!schema_valid(*s));
                                }
                                return Result::Err(Error::UnsupportedSchema);
                            },
                        };
                        let target = match &f.ty {
                            FieldTy::Scalar(target) => *target,
                            FieldTy::Struct(_) => {
                                proof {
                                    assert(!field_valid(s.fields@[i as int]));
                                    assert(!schema_valid(*s));
                                }
                                return Result::Err(Error::UnsupportedSchema);
                            },
                        };
                        if sub_len != 1 || sub_first_ty != target {
                            proof {
                                assert(!field_valid(s.fields@[i as int]));
                                assert(!schema_valid(*s));
                            }
                            return Result::Err(Error::UnsupportedSchema);
                        }
                        steps.push(
                            DecodeStep::Flatten {
                                sub,
                                unwrap_single: true,
                                default_on_missing: f.attrs.default_on_missing,
                            },
                        );
                        reqs.push(Capability::NestedMap);
                        reqs.push(Capability::TryFromNested(target));
                    },
                }
            } else {
                let target = match &f.ty {
                    FieldTy::Scalar(target) => *target,
                    FieldTy::Struct(_) => {
                        proof {
                            assert(!field_valid(s.fields@[i as int]));
                            assert(!schema_valid(*s));
                        }
                        return Result::Err(Error::UnsupportedSchema);
                    },
                };
                let mid: Option<Ty> = match &f.attrs.try_from {
                    Option::None => Option::None,
                    Option::Some(FieldTy::Scalar(m)) => Option::Some(*m),
                    Option::Some(FieldTy::Struct(_)) => {
                        proof {
                            assert(!field_valid(s.fields@[i as int]));
                            assert(!schema_valid(*s));
                        }
                        return Result::Err(Error::UnsupportedSchema);
                    },
                };
                let st = match build_scalar_step(
                    &f.ident,
                    target,
                    &f.attrs.rename,
                    mid,
                    f.attrs.default_on_missing,
                    s.rename_all,
                    true,
                    i,
                ) {
                    Result::Ok(st) => st,
                    Result::Err(e) => {
                        proof {
                            assert(!field_valid(s.fields@[i as int]));
                            assert(!schema_valid(*s));
                        }
                        return Result::Err(e);
                    },
                };
                steps.push(DecodeStep::Direct(st));
                match mid {
                    Option::None => {
                        reqs.push(Capability::Decode(target));
                        reqs.push(Capability::TypeCompat(target));
                    },
                    Option::Some(m) => {
                        reqs.push(Capability::Decode(m));
                        reqs.push(Capability::TypeCompat(m));
                        reqs.push(Capability::TryFromScalar(m, target));
                    },
                }
            }
            proof {
                assert(field_valid(s.fields@[i as int]));
            }
        } else {
            let target = match &f.ty {
                FieldTy::Scalar(target) => *target,
                FieldTy::Struct(_) => {
                    proof {
                        assert(!schema_valid(*s));
                    }
                    return Result::Err(Error::UnsupportedSchema);
                },
            };
            let st = match build_scalar_step(
                &f.ident,
                target,
                &f.attrs.rename,
                Option::None,
                false,
                s.rename_all,
                false,
                i,
            ) {
                Result::Ok(st) => st,
                Result::Err(_) => vstd::pervasive::unreached(),
            };
            steps.push(DecodeStep::Direct(st));
            reqs.push(Capability::Decode(target));
            reqs.push(Capability::TypeCompat(target));
        }
        proof {
            assert(reqs@ =~= (if named {
                seq![Capability::AddressByName]
            } else {
                seq![Capability::AddressByIndex]
            }) + caps_prefix(s.fields@, named, i + 1));
        }
        i = i + 1;
    }
    proof {
        assert(schema_valid(*s));
        assert(reqs@ =~= reqs_spec(*s));
    }
    Result::Ok(DecodePlan { steps, requirements: reqs })
}

} // verus!
