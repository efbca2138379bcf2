//! Schema-level semantics: what decoding a row under a schema yields,
//! stated without mentioning plans — and the theorem that any plan matching
//! the schema, executed by the plan semantics, yields exactly this.  It
//! gives `from_row` a deterministic contract: build and execute are one
//! function of schema and row.

use vstd::prelude::*;
use crate::model::{Ty, ColV, ValV, FieldValV, ErrV, default_of, is_absence};
use crate::naming::NamingConvention;
use crate::schema::{
    conversion_for, SubField, SubSchema, FieldTy, FieldSchema, Schema, named_mode,
    sub_named_mode, scalar_attrs_valid, sub_schema_valid, field_valid, schema_valid,
};
use crate::plan::{
    KeyV, ScalarStep, DecodeStep, DecodePlan, resolved_key_spec, as_scalar, scalar_step_shape,
    scalar_step_matches, sub_plan_matches, step_matches, plan_matches_schema,
};
use crate::run::{
    lookup, decode_spec, convert_value_spec, step_final_ty, run_scalar_step_spec, run_sub_steps,
    run_step_spec, run_steps_spec, run_plan_spec,
};

verus! {

/// The bytes of an optional identifier, empty when absent.
pub open spec fn opt_bytes(o: Option<Vec<u8>>) -> Seq<u8> {
    match o {
        Option::Some(b) => b@,
        Option::None => Seq::empty(),
    }
}

/// What one scalar decode yields, stated from the directives alone: the
/// resolved column (by name, or by position when unnamed), the decode of
/// the intermediate type, the conversion, and the default fallback on an
/// absent column.
pub open spec fn scalar_run(
    ident: Option<Vec<u8>>,
    ty: Ty,
    rename: Option<Vec<u8>>,
    try_from: Option<Ty>,
    dflt: bool,
    ra: Option<NamingConvention>,
    named: bool,
    pos: int,
    row: Seq<ColV>,
) -> Result<ValV, ErrV> {
    let key = if named {
        KeyV::Name(resolved_key_spec(rename, opt_bytes(ident), ra))
    } else {
        KeyV::Index(pos)
    };
    match lookup(row, key) {
        Result::Err(e) => if dflt {
            Result::Ok(default_of(ty))
        } else {
            Result::Err(e)
        },
        Result::Ok(raw) => {
            let mid = match try_from {
                Option::Some(m) => m,
                Option::None => ty,
            };
            match decode_spec(raw, mid) {
                Result::Err(e) => Result::Err(e),
                Result::Ok(v) => match try_from {
                    Option::None => Result::Ok(v),
                    Option::Some(m) => match conversion_for(m, ty) {
                        Option::Some(cv) => convert_value_spec(cv, v),
                        Option::None => Result::Err(ErrV::ConversionFailure),
                    },
                },
            }
        },
    }
}

/// What one nested field contributes, attributes honoured in name-addressed
/// mode and ignored in position-addressed mode.
pub open spec fn sub_field_run(
    f: SubField,
    ra: Option<NamingConvention>,
    named: bool,
    pos: int,
    row: Seq<ColV>,
) -> Result<ValV, ErrV> {
    if named {
        scalar_run(
            f.ident,
            f.ty,
            f.attrs.rename,
            f.attrs.try_from,
            f.attrs.default_on_missing,
            ra,
            true,
            pos,
            row,
        )
    } else {
        scalar_run(f.ident, f.ty, Option::None, Option::None, false, ra, false, pos, row)
    }
}

/// A nested build over the same row, field by field, first error aborting.
pub open spec fn sub_fields_run(
    fields: Seq<SubField>,
    ra: Option<NamingConvention>,
    named: bool,
    row: Seq<ColV>,
) -> Result<Seq<ValV>, ErrV>
    decreases fields.len(),
{
    if fields.len() == 0 {
        Result::Ok(Seq::empty())
    } else {
        match sub_fields_run(fields.drop_last(), ra, named, row) {
            Result::Err(e) => Result::Err(e),
            Result::Ok(pre) => match sub_field_run(
                fields.last(),
                ra,
                named,
                fields.len() - 1,
                row,
            ) {
                Result::Err(e) => Result::Err(e),
                Result::Ok(v) => Result::Ok(pre.push(v)),
            },
        }
    }
}

/// The default sub-object of a nested schema: each field type's default.
pub open spec fn sub_schema_default(ss: SubSchema) -> Seq<ValV> {
    ss.fields@.map_values(|sf: SubField| default_of(sf.ty))
}

/// What one top-level field contributes, per the strategy table.  Branches
/// a valid schema cannot reach are mapped to `UnsupportedSchema`.
pub open spec fn field_run(
    f: FieldSchema,
    ra: Option<NamingConvention>,
    named: bool,
    pos: int,
    row: Seq<ColV>,
) -> Result<FieldValV, ErrV> {
    if named {
        if f.attrs.flatten {
            match f.attrs.try_from {
                Option::None => match f.ty {
                    FieldTy::Struct(ss) => match sub_fields_run(
                        ss.fields@,
                        ss.rename_all,
                        sub_named_mode(ss),
                        row,
                    ) {
                        Result::Ok(vals) => Result::Ok(FieldValV::Nested(vals)),
                        Result::Err(e) => if f.attrs.default_on_missing && is_absence(e) {
                            Result::Ok(FieldValV::Nested(sub_schema_default(ss)))
                        } else {
                            Result::Err(e)
                        },
                    },
                    FieldTy::Scalar(_) => Result::Err(ErrV::UnsupportedSchema),
                },
                Option::Some(t) => match t {
                    FieldTy::Struct(ss) => match sub_fields_run(
                        ss.fields@,
                        ss.rename_all,
                        sub_named_mode(ss),
                        row,
                    ) {
                        Result::Ok(vals) => Result::Ok(FieldValV::Scalar(vals[0])),
                        Result::Err(e) => if f.attrs.default_on_missing && is_absence(e) {
                            Result::Ok(FieldValV::Scalar(default_of(as_scalar(f.ty))))
                        } else {
                            Result::Err(e)
                        },
                    },
                    FieldTy::Scalar(_) => Result::Err(ErrV::UnsupportedSchema),
                },
            }
        } else {
            let mid = match f.attrs.try_from {
                Option::Some(t) => Option::Some(as_scalar(t)),
                Option::None => Option::None,
            };
            match scalar_run(
                f.ident,
                as_scalar(f.ty),
                f.attrs.rename,
                mid,
                f.attrs.default_on_missing,
                ra,
                true,
                pos,
                row,
            ) {
                Result::Ok(v) => Result::Ok(FieldValV::Scalar(v)),
                Result::Err(e) => Result::Err(e),
            }
        }
    } else {
        match scalar_run(
            f.ident,
            as_scalar(f.ty),
            Option::None,
            Option::None,
            false,
            ra,
            false,
            pos,
            row,
        ) {
            Result::Ok(v) => Result::Ok(FieldValV::Scalar(v)),
            Result::Err(e) => Result::Err(e),
        }
    }
}

/// The whole decode under a field list, first error aborting.
pub open spec fn fields_run(
    fields: Seq<FieldSchema>,
    ra: Option<NamingConvention>,
    named: bool,
    row: Seq<ColV>,
) -> Result<Seq<FieldValV>, ErrV>
    decreases fields.len(),
{
    if fields.len() == 0 {
        Result::Ok(Seq::empty())
    } else {
        match fields_run(fields.drop_last(), ra, named, row) {
            Result::Err(e) => Result::Err(e),
            Result::Ok(pre) => match field_run(fields.last(), ra, named, fields.len() - 1, row) {
                Result::Err(e) => Result::Err(e),
                Result::Ok(v) => Result::Ok(pre.push(v)),
            },
        }
    }
}

/// What decoding a row under a schema yields: the schema-level meaning of
/// `from_row` on valid schemas.
pub open spec fn schema_run(s: Schema, row: Seq<ColV>) -> Result<Seq<FieldValV>, ErrV> {
    fields_run(s.fields@, s.rename_all, named_mode(s), row)
}

/// A step of the given shape finally produces the declared type: every
/// conversion the builder accepts lands on it.
proof fn lemma_step_final_ty_is_declared(
    st: ScalarStep,
    ident: Option<Vec<u8>>,
    ty: Ty,
    rename: Option<Vec<u8>>,
    try_from: Option<Ty>,
    dflt: bool,
    ra: Option<NamingConvention>,
    named: bool,
    pos: int,
)
    requires
        scalar_step_shape(st, ident, ty, rename, try_from, dflt, ra, named, pos),
        named ==> (match try_from {
            Option::Some(m) => conversion_for(m, ty) is Some,
            Option::None => true,
        }),
    ensures
        step_final_ty(st) == ty,
{
}

/// A scalar step of the given shape runs exactly as the directives say.
proof fn lemma_scalar_step_equiv(
    st: ScalarStep,
    ident: Option<Vec<u8>>,
    ty: Ty,
    rename: Option<Vec<u8>>,
    try_from: Option<Ty>,
    dflt: bool,
    ra: Option<NamingConvention>,
    named: bool,
    pos: int,
    row: Seq<ColV>,
)
    requires
        scalar_step_shape(st, ident, ty, rename, try_from, dflt, ra, named, pos),
        named ==> (match try_from {
            Option::Some(m) => conversion_for(m, ty) is Some,
            Option::None => true,
        }),
        !named ==> try_from is None && !dflt,
    ensures
        run_scalar_step_spec(st, row) == scalar_run(ident, ty, rename, try_from, dflt, ra, named, pos, row),
{
    lemma_step_final_ty_is_declared(st, ident, ty, rename, try_from, dflt, ra, named, pos);
    if named {
        assert(st.key@ == KeyV::Name(resolved_key_spec(rename, opt_bytes(ident), ra)));
        match try_from {
            Option::Some(m) => {
                assert(st.decode_ty == m);
                assert(st.convert == conversion_for(m, ty));
            },
            Option::None => {
                assert(st.decode_ty == ty);
                assert(st.convert is None);
            },
        }
    } else {
        assert(st.key@ == KeyV::Index(pos));
        assert(st.decode_ty == ty);
        assert(st.convert is None);
        assert(!st.default_on_missing);
    }
}

/// A nested plan matching a nested schema runs exactly as the schema says.
proof fn lemma_sub_equiv(
    steps: Seq<ScalarStep>,
    fields: Seq<SubField>,
    ra: Option<NamingConvention>,
    named: bool,
    row: Seq<ColV>,
)
    requires
        steps.len() == fields.len(),
        forall|j: int| 0 <= j < fields.len() ==> scalar_step_matches(steps[j], fields[j], ra, named, j),
        named ==> forall|j: int|
            0 <= j < fields.len() ==> scalar_attrs_valid(fields[j].attrs, fields[j].ty),
    ensures
        run_sub_steps(steps, row) == sub_fields_run(fields, ra, named, row),
    decreases fields.len(),
{
    if fields.len() > 0 {
        assert(forall|j: int| 0 <= j < fields.len() - 1 ==> steps.drop_last()[j] == steps[j]);
        assert(forall|j: int| 0 <= j < fields.len() - 1 ==> fields.drop_last()[j] == fields[j]);
        lemma_sub_equiv(steps.drop_last(), fields.drop_last(), ra, named, row);
        let n = fields.len() - 1;
        assert(scalar_step_matches(steps[n], fields[n], ra, named, n));
        let f = fields.last();
        if named {
            lemma_scalar_step_equiv(
                steps.last(),
                f.ident,
                f.ty,
                f.attrs.rename,
                f.attrs.try_from,
                f.attrs.default_on_missing,
                ra,
                true,
                n,
                row,
            );
        } else {
            lemma_scalar_step_equiv(
                steps.last(),
                f.ident,
                f.ty,
                Option::None,
                Option::None,
                false,
                ra,
                false,
                n,
                row,
            );
        }
    }
}

/// The nested default object of a matching plan is the nested schema's.
proof fn lemma_sub_default_equiv(sub: crate::plan::NestedPlan, ss: SubSchema)
    requires
        sub_plan_matches(sub, ss),
        sub_schema_valid(ss),
    ensures
        crate::run::sub_default(sub.steps@) == sub_schema_default(ss),
{
    assert forall|j: int| 0 <= j < ss.fields@.len() implies step_final_ty(sub.steps@[j])
        == ss.fields@[j].ty by {
        let f = ss.fields@[j];
        if sub_named_mode(ss) {
            lemma_step_final_ty_is_declared(
                sub.steps@[j],
                f.ident,
                f.ty,
                f.attrs.rename,
                f.attrs.try_from,
                f.attrs.default_on_missing,
                ss.rename_all,
                true,
                j,
            );
        } else {
            lemma_step_final_ty_is_declared(
                sub.steps@[j],
                f.ident,
                f.ty,
                Option::None,
                Option::None,
                false,
                ss.rename_all,
                false,
                j,
            );
        }
    }
    assert(crate::run::sub_default(sub.steps@) =~= sub_schema_default(ss));
}

/// A step matching a valid field runs exactly as the field says.
proof fn lemma_step_equiv(
    step: DecodeStep,
    f: FieldSchema,
    ra: Option<NamingConvention>,
    named: bool,
    pos: int,
    row: Seq<ColV>,
)
    requires
        step_matches(step, f, ra, named, pos),
        named ==> field_valid(f),
        !named ==> f.ty is Scalar,
    ensures
        run_step_spec(step, row) == field_run(f, ra, named, pos, row),
{
    if named {
        if f.attrs.flatten {
            match step {
                DecodeStep::Flatten { sub, unwrap_single, default_on_missing } => {
                    match f.attrs.try_from {
                        Option::None => {
                            let ss = f.ty->Struct_0;
                            lemma_sub_equiv(
                                sub.steps@,
                                ss.fields@,
                                ss.rename_all,
                                sub_named_mode(ss),
                                row,
                            );
                            lemma_sub_default_equiv(sub, ss);
                        },
                        Option::Some(t) => {
                            let ss = t->Struct_0;
                            lemma_sub_equiv(
                                sub.steps@,
                                ss.fields@,
                                ss.rename_all,
                                sub_named_mode(ss),
                                row,
                            );
                            let f0 = ss.fields@[0];
                            if sub_named_mode(ss) {
                                lemma_step_final_ty_is_declared(
                                    sub.steps@[0],
                                    f0.ident,
                                    f0.ty,
                                    f0.attrs.rename,
                                    f0.attrs.try_from,
                                    f0.attrs.default_on_missing,
                                    ss.rename_all,
                                    true,
                                    0,
                                );
                            } else {
                                lemma_step_final_ty_is_declared(
                                    sub.steps@[0],
                                    f0.ident,
                                    f0.ty,
                                    Option::None,
                                    Option::None,
                                    false,
                                    ss.rename_all,
                                    false,
                                    0,
                                );
                            }
                        },
                    }
                },
                DecodeStep::Direct(_) => {},
            }
        } else {
            match step {
                DecodeStep::Direct(st) => {
                    let mid = match f.attrs.try_from {
                        Option::Some(t) => Option::Some(as_scalar(t)),
                        Option::None => Option::None,
                    };
                    lemma_scalar_step_equiv(
                        st,
                        f.ident,
                        as_scalar(f.ty),
                        f.attrs.rename,
                        mid,
                        f.attrs.default_on_missing,
                        ra,
                        true,
                        pos,
                        row,
                    );
                },
                DecodeStep::Flatten { .. } => {},
            }
        }
    } else {
        match step {
            DecodeStep::Direct(st) => {
                lemma_scalar_step_equiv(
                    st,
                    f.ident,
                    as_scalar(f.ty),
                    Option::None,
                    Option::None,
                    false,
                    ra,
                    false,
                    pos,
                    row,
                );
            },
            DecodeStep::Flatten { .. } => {},
        }
    }
}

proof fn lemma_steps_equiv(
    steps: Seq<DecodeStep>,
    fields: Seq<FieldSchema>,
    ra: Option<NamingConvention>,
    named: bool,
    row: Seq<ColV>,
)
    requires
        steps.len() == fields.len(),
        forall|j: int| 0 <= j < fields.len() ==> step_matches(steps[j], fields[j], ra, named, j),
        named ==> forall|j: int| 0 <= j < fields.len() ==> field_valid(#[trigger] fields[j]),
        !named ==> forall|j: int| 0 <= j < fields.len() ==> (#[trigger] fields[j]).ty is Scalar,
    ensures
        run_steps_spec(steps, row) == fields_run(fields, ra, named, row),
    decreases fields.len(),
{
    if fields.len() > 0 {
        assert(forall|j: int| 0 <= j < fields.len() - 1 ==> steps.drop_last()[j] == steps[j]);
        assert(forall|j: int| 0 <= j < fields.len() - 1 ==> fields.drop_last()[j] == fields[j]);
        lemma_steps_equiv(steps.drop_last(), fields.drop_last(), ra, named, row);
        let n = fields.len() - 1;
        assert(step_matches(steps[n], fields[n], ra, named, n));
        lemma_step_equiv(steps.last(), fields.last(), ra, named, n, row);
    }
}

/// Any plan matching a valid schema, executed by the plan semantics,
/// yields exactly what the schema-level semantics say: build and execute
/// compose into one function of schema and row.
pub proof fn lemma_plan_run_is_schema_run(plan: DecodePlan, s: Schema, row: Seq<ColV>)
    requires
        schema_valid(s),
        plan_matches_schema(plan, s),
    ensures
        run_plan_spec(plan, row) == schema_run(s, row),
{
    lemma_steps_equiv(plan.steps@, s.fields@, s.rename_all, named_mode(s), row);
}

} // verus!
