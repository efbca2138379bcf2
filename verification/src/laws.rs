//! The library's stated laws: how plans built from schemas behave when
//! executed, proved once and for all over the builder's and executor's
//! contracts.

use vstd::prelude::*;
use crate::model::{ColV, ErrV, FieldValV, kind_of, default_of, lookup_name};
use crate::naming::{NamingConvention, strip_raw_spec};
use crate::schema::{FieldSchema, Schema, named_mode, schema_valid};
use crate::plan::{
    KeyV, ScalarStep, NestedPlan, DecodeStep, DecodePlan, step_matches, plan_matches_schema,
    as_scalar,
};
use crate::run::{
    lookup, run_scalar_step_spec, run_sub_steps, run_step_spec, run_steps_spec, run_plan_spec,
    step_final_ty, lemma_steps_err_extends,
};

verus! {

/// The identifier bytes of a field, empty when the field is positional.
pub open spec fn ident_bytes(f: FieldSchema) -> Seq<u8> {
    match f.ident {
        Option::Some(id) => id@,
        Option::None => Seq::empty(),
    }
}

/// The explicit rename bytes of a field, empty when there is none.
pub open spec fn rename_bytes(f: FieldSchema) -> Seq<u8> {
    match f.attrs.rename {
        Option::Some(r) => r@,
        Option::None => Seq::empty(),
    }
}

/// A field carrying no directive at all.
pub open spec fn unattributed(f: FieldSchema) -> bool {
    &&& f.attrs.rename is None
    &&& !f.attrs.flatten
    &&& f.attrs.try_from is None
    &&& !f.attrs.default_on_missing
}

/// When every step of a run succeeds, the run succeeds and yields each
/// step's value, in order.
pub proof fn lemma_run_all_ok(steps: Seq<DecodeStep>, row: Seq<ColV>)
    requires
        forall|j: int| 0 <= j < steps.len() ==> run_step_spec(steps[j], row) is Ok,
    ensures
        run_steps_spec(steps, row) matches Ok(vals) && vals.len() == steps.len() && (forall|j: int|
            0 <= j < steps.len() ==> Result::<FieldValV, ErrV>::Ok(vals[j]) == run_step_spec(
                steps[j],
                row,
            )),
    decreases steps.len(),
{
    if steps.len() > 0 {
        assert(forall|j: int| 0 <= j < steps.len() - 1 ==> steps.drop_last()[j] == steps[j]);
        lemma_run_all_ok(steps.drop_last(), row);
    }
}

/// The first failing step decides the whole run: whatever error it
/// reports, the run reports, and no object is produced.
pub proof fn lemma_run_first_error(steps: Seq<DecodeStep>, row: Seq<ColV>, i: int)
    requires
        0 <= i < steps.len(),
        forall|j: int| 0 <= j < i ==> run_step_spec(steps[j], row) is Ok,
        run_step_spec(steps[i], row) is Err,
    ensures
        run_steps_spec(steps, row) matches Err(e) && Result::<FieldValV, ErrV>::Err(e)
            == run_step_spec(steps[i], row),
{
    assert(forall|j: int| 0 <= j < i ==> steps.take(i)[j] == steps[j]);
    lemma_run_all_ok(steps.take(i), row);
    assert(steps.take(i + 1).drop_last() =~= steps.take(i));
    assert(steps.take(i + 1).last() == steps[i]);
    lemma_steps_err_extends(steps, row, i + 1, steps.len() as int);
    assert(steps.take(steps.len() as int) =~= steps);
}

/// A named-field schema without any attribute looks every column up by the
/// field's identifier, raw-escape prefix stripped; an absent column makes
/// the field's step fail with `ColumnNotFound` under that very name.
pub proof fn lemma_plain_named_fields_use_idents(
    s: Schema,
    plan: DecodePlan,
    row: Seq<ColV>,
    i: int,
)
    requires
        schema_valid(s),
        named_mode(s),
        plan_matches_schema(plan, s),
        s.rename_all is None,
        forall|j: int| 0 <= j < s.fields@.len() ==> unattributed(#[trigger] s.fields@[j]),
        0 <= i < s.fields@.len(),
    ensures
        plan.steps@[i] matches DecodeStep::Direct(st) && st.key@ == KeyV::Name(
            strip_raw_spec(ident_bytes(s.fields@[i])),
        ),
        lookup_name(row, strip_raw_spec(ident_bytes(s.fields@[i]))) is None ==> run_step_spec(
            plan.steps@[i],
            row,
        ) == Result::<FieldValV, ErrV>::Err(
            ErrV::ColumnNotFound(strip_raw_spec(ident_bytes(s.fields@[i]))),
        ),
{
    assert(step_matches(plan.steps@[i], s.fields@[i], s.rename_all, named_mode(s), i));
}

/// Under the same plain schema, the whole decode of a row lacking the
/// column of field `i` (all earlier fields decoding fine) fails with
/// `ColumnNotFound` of that field's stripped identifier: no partial object
/// appears.
pub proof fn lemma_plain_named_missing_column_fails(
    s: Schema,
    plan: DecodePlan,
    row: Seq<ColV>,
    i: int,
)
    requires
        schema_valid(s),
        named_mode(s),
        plan_matches_schema(plan, s),
        s.rename_all is None,
        forall|j: int| 0 <= j < s.fields@.len() ==> unattributed(#[trigger] s.fields@[j]),
        0 <= i < s.fields@.len(),
        forall|j: int| 0 <= j < i ==> run_step_spec(plan.steps@[j], row) is Ok,
        lookup_name(row, strip_raw_spec(ident_bytes(s.fields@[i]))) is None,
    ensures
        run_plan_spec(plan, row) == Result::<Seq<FieldValV>, ErrV>::Err(
            ErrV::ColumnNotFound(strip_raw_spec(ident_bytes(s.fields@[i]))),
        ),
{
    lemma_plain_named_fields_use_idents(s, plan, row, i);
    lemma_run_first_error(plan.steps@, row, i);
}

/// An explicit `rename` on a non-flattened field always decides the
/// column key, whatever container convention is in force.
pub proof fn lemma_rename_overrides_rename_all(
    step: DecodeStep,
    f: FieldSchema,
    ra: Option<NamingConvention>,
    pos: int,
)
    requires
        step_matches(step, f, ra, true, pos),
        !f.attrs.flatten,
        f.attrs.rename is Some,
    ensures
        step matches DecodeStep::Direct(st) && st.key@ == KeyV::Name(rename_bytes(f)),
{
}

/// A step with default-on-missing turns an absent column into the default
/// value of the step's final type.
pub proof fn lemma_default_fills_missing(st: ScalarStep, row: Seq<ColV>)
    requires
        st.default_on_missing,
        lookup(row, st.key@) is Err,
    ensures
        run_scalar_step_spec(st, row) == Result::<crate::model::ValV, ErrV>::Ok(
            default_of(step_final_ty(st)),
        ),
{
}

/// The default fallback is scoped strictly to absence: a column that is
/// present but of the wrong type still fails with a type mismatch, default
/// or no default.
pub proof fn lemma_default_not_masking_malformed(
    st: ScalarStep,
    row: Seq<ColV>,
    v: crate::model::ValV,
)
    requires
        lookup(row, st.key@) == Result::<crate::model::ValV, ErrV>::Ok(v),
        kind_of(v) != st.decode_ty,
    ensures
        run_scalar_step_spec(st, row) == Result::<crate::model::ValV, ErrV>::Err(
            ErrV::TypeMismatch,
        ),
{
}

/// A position-addressed schema decodes strictly by declaration order:
/// field `i` reads column `i`, so reordering the declared fields changes
/// which column feeds which field; a row too narrow fails at the first
/// position past its width.
pub proof fn lemma_positional_by_declaration_order(
    s: Schema,
    plan: DecodePlan,
    row: Seq<ColV>,
    i: int,
)
    requires
        schema_valid(s),
        !named_mode(s),
        plan_matches_schema(plan, s),
        0 <= i < s.fields@.len(),
    ensures
        plan.steps@[i] matches DecodeStep::Direct(st) && st.key@ == KeyV::Index(i),
        (i < row.len() && kind_of(row[i].value) == as_scalar(s.fields@[i].ty)) ==> run_step_spec(
            plan.steps@[i],
            row,
        ) == Result::<FieldValV, ErrV>::Ok(FieldValV::Scalar(row[i].value)),
        i >= row.len() ==> run_step_spec(plan.steps@[i], row) == Result::<FieldValV, ErrV>::Err(
            ErrV::IndexOutOfBounds(i),
        ),
{
    assert(step_matches(plan.steps@[i], s.fields@[i], s.rename_all, named_mode(s), i));
}

/// `flatten` with `try_from` first fully builds the intermediate object by
/// the nested plan over the same row, and applies the unwrapping conversion
/// only to a successful build: a nested-build failure surfaces as the
/// nested error itself, never as a conversion error.
pub proof fn lemma_flatten_try_from_nested_first(sub: NestedPlan, row: Seq<ColV>)
    ensures
        run_sub_steps(sub.steps@, row) matches Err(e) ==> run_step_spec(
            (DecodeStep::Flatten { sub, unwrap_single: true, default_on_missing: false }),
            row,
        ) == Result::<FieldValV, ErrV>::Err(e),
        run_sub_steps(sub.steps@, row) matches Ok(vals) ==> run_step_spec(
            (DecodeStep::Flatten { sub, unwrap_single: true, default_on_missing: false }),
            row,
        ) == Result::<FieldValV, ErrV>::Ok(FieldValV::Scalar(vals[0])),
{
}

} // verus!
