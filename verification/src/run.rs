//! Plan executor: run a decode plan against one row, producing either a
//! fully constructed object or the first propagated error.  Steps execute
//! in field-declaration order; the first failing step (after the
//! default-on-missing fallback, which is scoped strictly to absence)
//! aborts the whole build, and no partial object is returned.

use vstd::prelude::*;
use crate::model::{
    Ty, Value, ValV, ColV, Row, FieldValue, FieldValV, Obj, Error, ErrV, kind_of, default_of,
    lookup_name, lookup_index, is_absence, res_view, clone_value,
};
use crate::model::bytes_eq;
use crate::schema::Conversion;
use crate::plan::{
    ColumnKey, KeyV, ScalarStep, NestedPlan, DecodeStep, DecodePlan, plan_wf, step_wf, build_plan,
};
use crate::schema::{Schema, schema_valid};

verus! {

/// The value a column key addresses, or the absence error it reports.
pub open spec fn lookup(cols: Seq<ColV>, key: KeyV) -> Result<ValV, ErrV> {
    match key {
        KeyV::Name(n) => match lookup_name(cols, n) {
            Option::Some(v) => Result::Ok(v),
            Option::None => Result::Err(ErrV::ColumnNotFound(n)),
        },
        KeyV::Index(i) => match lookup_index(cols, i) {
            Option::Some(v) => Result::Ok(v),
            Option::None => Result::Err(ErrV::IndexOutOfBounds(i)),
        },
    }
}

/// Decoding a raw value at a scalar type: the identity on values of that
/// type, a type mismatch otherwise.
pub open spec fn decode_spec(v: ValV, ty: Ty) -> Result<ValV, ErrV> {
    if kind_of(v) == ty {
        Result::Ok(v)
    } else {
        Result::Err(ErrV::TypeMismatch)
    }
}

/// The fallible conversions: identity; integer to boolean, defined only on
/// zero and one; boolean to integer, total.
pub open spec fn convert_value_spec(cv: Conversion, v: ValV) -> Result<ValV, ErrV> {
    match cv {
        Conversion::Identity => Result::Ok(v),
        Conversion::IntToBool => match v {
            ValV::Int(n) => if n == 0 {
                Result::Ok(ValV::Bool(false))
            } else if n == 1 {
                Result::Ok(ValV::Bool(true))
            } else {
                Result::Err(ErrV::ConversionFailure)
            },
            _ => Result::Err(ErrV::ConversionFailure),
        },
        Conversion::BoolToInt => match v {
            ValV::Bool(b) => Result::Ok(ValV::Int(if b {
                1
            } else {
                0
            })),
            _ => Result::Err(ErrV::ConversionFailure),
        },
    }
}

/// The scalar type a step finally produces, after its conversion.
pub open spec fn step_final_ty(st: ScalarStep) -> Ty {
    match st.convert {
        Option::None => st.decode_ty,
        Option::Some(Conversion::Identity) => st.decode_ty,
        Option::Some(Conversion::IntToBool) => Ty::Bool,
        Option::Some(Conversion::BoolToInt) => Ty::Int,
    }
}

/// One direct decode: look the column up, decode, convert.  Only an absent
/// column is recovered by the default fallback; a decode or conversion
/// failure propagates unchanged.
pub open spec fn run_scalar_step_spec(st: ScalarStep, row: Seq<ColV>) -> Result<ValV, ErrV> {
    match lookup(row, st.key@) {
        Result::Err(e) => if st.default_on_missing {
            Result::Ok(default_of(step_final_ty(st)))
        } else {
            Result::Err(e)
        },
        Result::Ok(raw) => match decode_spec(raw, st.decode_ty) {
            Result::Err(e) => Result::Err(e),
            Result::Ok(v) => match st.convert {
                Option::None => Result::Ok(v),
                Option::Some(cv) => convert_value_spec(cv, v),
            },
        },
    }
}

/// A nested build over the same row: every scalar step in order, first
/// error aborting.
pub open spec fn run_sub_steps(steps: Seq<ScalarStep>, row: Seq<ColV>) -> Result<Seq<ValV>, ErrV>
    decreases steps.len(),
{
    if steps.len() == 0 {
        Result::Ok(Seq::empty())
    } else {
        match run_sub_steps(steps.drop_last(), row) {
            Result::Err(e) => Result::Err(e),
            Result::Ok(pre) => match run_scalar_step_spec(steps.last(), row) {
                Result::Err(e) => Result::Err(e),
                Result::Ok(v) => Result::Ok(pre.push(v)),
            },
        }
    }
}

/// The default sub-object of a nested plan: each step's final type's
/// default.
pub open spec fn sub_default(steps: Seq<ScalarStep>) -> Seq<ValV> {
    steps.map_values(|st: ScalarStep| default_of(step_final_ty(st)))
}

/// One per-field step.  A flattened field first fully builds the nested
/// object over the same row; with `unwrap_single` the conversion to the
/// single scalar is applied only after a successful nested build, so a
/// nested failure surfaces as the nested error.  The default fallback
/// recovers only absence errors, wherever in the nested build they arose.
pub open spec fn run_step_spec(step: DecodeStep, row: Seq<ColV>) -> Result<FieldValV, ErrV> {
    match step {
        DecodeStep::Direct(st) => match run_scalar_step_spec(st, row) {
            Result::Ok(v) => Result::Ok(FieldValV::Scalar(v)),
            Result::Err(e) => Result::Err(e),
        },
        DecodeStep::Flatten { sub, unwrap_single, default_on_missing } => match run_sub_steps(
            sub.steps@,
            row,
        ) {
            Result::Ok(vals) => if unwrap_single {
                Result::Ok(FieldValV::Scalar(vals[0]))
            } else {
                Result::Ok(FieldValV::Nested(vals))
            },
            Result::Err(e) => if default_on_missing && is_absence(e) {
                if unwrap_single {
                    Result::Ok(FieldValV::Scalar(default_of(step_final_ty(sub.steps@[0]))))
                } else {
                    Result::Ok(FieldValV::Nested(sub_default(sub.steps@)))
                }
            } else {
                Result::Err(e)
            },
        },
    }
}

/// All steps in order, first error aborting.
pub open spec fn run_steps_spec(steps: Seq<DecodeStep>, row: Seq<ColV>) -> Result<
    Seq<FieldValV>,
    ErrV,
>
    decreases steps.len(),
{
    if steps.len() == 0 {
        Result::Ok(Seq::empty())
    } else {
        match run_steps_spec(steps.drop_last(), row) {
            Result::Err(e) => Result::Err(e),
            Result::Ok(pre) => match run_step_spec(steps.last(), row) {
                Result::Err(e) => Result::Err(e),
                Result::Ok(v) => Result::Ok(pre.push(v)),
            },
        }
    }
}

/// What executing a whole plan against a row yields.
pub open spec fn run_plan_spec(plan: DecodePlan, row: Seq<ColV>) -> Result<Seq<FieldValV>, ErrV> {
    run_steps_spec(plan.steps@, row)
}

/// An error prefix of a nested build is the error of every extension.
pub proof fn lemma_sub_err_extends(steps: Seq<ScalarStep>, row: Seq<ColV>, i: int, j: int)
    requires
        0 <= i <= j <= steps.len(),
        run_sub_steps(steps.take(i), row) is Err,
    ensures
        run_sub_steps(steps.take(j), row) == run_sub_steps(steps.take(i), row),
    decreases j - i,
{
    if j > i {
        lemma_sub_err_extends(steps, row, i, j - 1);
        assert(steps.take(j).drop_last() =~= steps.take(j - 1));
    }
}

/// An error prefix of a plan run is the error of every extension.
pub proof fn lemma_steps_err_extends(steps: Seq<DecodeStep>, row: Seq<ColV>, i: int, j: int)
    requires
        0 <= i <= j <= steps.len(),
        run_steps_spec(steps.take(i), row) is Err,
    ensures
        run_steps_spec(steps.take(j), row) == run_steps_spec(steps.take(i), row),
    decreases j - i,
{
    if j > i {
        lemma_steps_err_extends(steps, row, i, j - 1);
        assert(steps.take(j).drop_last() =~= steps.take(j - 1));
    }
}

fn kind_of_ex(v: &Value) -> (t: Ty)
    ensures
        t == kind_of(v@),
{
    match v {
        Value::Bool(_) => Ty::Bool,
        Value::Int(_) => Ty::Int,
        Value::Text(_) => Ty::Text,
    }
}

/// The default value of a scalar type.
pub fn default_value(ty: Ty) -> (v: Value)
    ensures
        v@ == default_of(ty),
{
    match ty {
        Ty::Bool => Value::Bool(false),
        Ty::Int => Value::Int(0),
        Ty::Text => Value::Text(Vec::new()),
    }
}

fn step_final_ty_ex(st: &ScalarStep) -> (t: Ty)
    ensures
        t == step_final_ty(*st),
{
    match st.convert {
        Option::None => st.decode_ty,
        Option::Some(Conversion::Identity) => st.decode_ty,
        Option::Some(Conversion::IntToBool) => Ty::Bool,
        Option::Some(Conversion::BoolToInt) => Ty::Int,
    }
}

/// Look a column up by name; the first column with that name wins.
fn lookup_by_name(row: &Row, n: &Vec<u8>) -> (r: Result<Value, Error>)
    ensures
        res_view(r) == lookup(row@, KeyV::Name(n@)),
{
    let mut i: usize = 0;
    proof {
        assert(row@.skip(0) =~= row@);
    }
    while i < row.columns.len()
        invariant
            i <= row.columns@.len(),
            row@.len() == row.columns@.len(),
            forall|j: int| 0 <= j < row.columns@.len() ==> row@[j] == row.columns@[j]@,
            lookup_name(row@, n@) == lookup_name(row@.skip(i as int), n@),
        decreases row.columns@.len() - i,
    {
        if bytes_eq(&row.columns[i].name, n) {
            let v = clone_value(&row.columns[i].value);
            proof {
                assert(row@.skip(i as int)[0] == row@[i as int]);
                assert(lookup_name(row@.skip(i as int), n@) == Option::Some(row@[i as int].value));
            }
            return Result::Ok(v);
        }
        proof {
            assert(row@.skip(i as int)[0] == row@[i as int]);
            assert(row@.skip(i as int).skip(1) =~= row@.skip(i + 1));
        }
        i = i + 1;
    }
    proof {
        assert(row@.skip(i as int).len() == 0);
        assert(lookup_name(row@, n@) is None);
    }
    Result::Err(Error::ColumnNotFound(crate::model::clone_bytes(n)))
}

/// Look a column up in a row, by name (first match wins) or by position.
pub fn lookup_column(row: &Row, key: &ColumnKey) -> (r: Result<Value, Error>)
    ensures
        res_view(r) == lookup(row@, key@),
{
    match key {
        ColumnKey::Name(n) => lookup_by_name(row, n),
        ColumnKey::Index(idx) => {
            if *idx < row.columns.len() {
                proof {
                    assert(row@[*idx as int] == row.columns@[*idx as int]@);
                }
                Result::Ok(clone_value(&row.columns[*idx].value))
            } else {
                Result::Err(Error::IndexOutOfBounds(*idx))
            }
        },
    }
}

/// Decode a raw value at a scalar type.
pub fn decode_value(v: Value, ty: Ty) -> (r: Result<Value, Error>)
    ensures
        res_view(r) == decode_spec(v@, ty),
{
    let k = kind_of_ex(&v);
    if k == ty {
        Result::Ok(v)
    } else {
        Result::Err(Error::TypeMismatch)
    }
}

/// Apply a fallible conversion.
pub fn convert_value(cv: Conversion, v: Value) -> (r: Result<Value, Error>)
    ensures
        res_view(r) == convert_value_spec(cv, v@),
{
    match cv {
        Conversion::Identity => Result::Ok(v),
        Conversion::IntToBool => match v {
            Value::Int(n) => if n == 0 {
                Result::Ok(Value::Bool(false))
            } else if n == 1 {
                Result::Ok(Value::Bool(true))
            } else {
                Result::Err(Error::ConversionFailure)
            },
            _ => Result::Err(Error::ConversionFailure),
        },
        Conversion::BoolToInt => match v {
            Value::Bool(b) => Result::Ok(Value::Int(
                if b {
                    1
                } else {
                    0
                },
            )),
            _ => Result::Err(Error::ConversionFailure),
        },
    }
}

/// Execute one direct decode step.
pub fn run_scalar_step(st: &ScalarStep, row: &Row) -> (r: Result<Value, Error>)
    ensures
        res_view(r) == run_scalar_step_spec(*st, row@),
{
    match lookup_column(row, &st.key) {
        Result::Err(e) => {
            if st.default_on_missing {
                Result::Ok(default_value(step_final_ty_ex(st)))
            } else {
                Result::Err(e)
            }
        },
        Result::Ok(raw) => match decode_value(raw, st.decode_ty) {
            Result::Err(e) => Result::Err(e),
            Result::Ok(v) => match st.convert {
                Option::None => Result::Ok(v),
                Option::Some(cv) => convert_value(cv, v),
            },
        },
    }
}

/// Execute a nested build: every scalar step over the same row, first
/// error aborting.
pub fn run_sub_plan(sub: &NestedPlan, row: &Row) -> (r: Result<Vec<Value>, Error>)
    ensures
        r matches Ok(vs) ==> {
            &&& run_sub_steps(sub.steps@, row@) == Result::<Seq<ValV>, ErrV>::Ok(
                vs@.map_values(|v: Value| v@),
            )
            &&& vs@.len() == sub.steps@.len()
        },
        r matches Err(e) ==> run_sub_steps(sub.steps@, row@) == Result::<Seq<ValV>, ErrV>::Err(e@),
{
    let mut vals: Vec<Value> = Vec::new();
    let mut i: usize = 0;
    proof {
        assert(sub.steps@.take(0) =~= Seq::<ScalarStep>::empty());
        assert(vals@.map_values(|v: Value| v@) =~= Seq::<ValV>::empty());
    }
    while i < sub.steps.len()
        invariant
            i <= sub.steps@.len(),
            vals@.len() == i,
            run_sub_steps(sub.steps@.take(i as int), row@) == Result::<Seq<ValV>, ErrV>::Ok(
                vals@.map_values(|v: Value| v@),
            ),
        decreases sub.steps@.len() - i,
    {
        match run_scalar_step(&sub.steps[i], row) {
            Result::Ok(v) => {
                let ghost prev = vals@;
                vals.push(v);
                proof {
                    assert(sub.steps@.take(i + 1).drop_last() =~= sub.steps@.take(i as int));
                    assert(sub.steps@.take(i + 1).last() == sub.steps@[i as int]);
                    assert(vals@.map_values(|v: Value| v@) =~= prev.map_values(|v: Value| v@).push(
                        vals@.last()@,
                    ));
                }
            },
            Result::Err(e) => {
                proof {
                    assert(sub.steps@.take(i + 1).drop_last() =~= sub.steps@.take(i as int));
                    assert(sub.steps@.take(i + 1).last() == sub.steps@[i as int]);
                    assert(run_sub_steps(sub.steps@.take(i + 1), row@)
                        == Result::<Seq<ValV>, ErrV>::Err(e@));
                    lemma_sub_err_extends(sub.steps@, row@, i + 1, sub.steps@.len() as int);
                    assert(sub.steps@.take(sub.steps@.len() as int) =~= sub.steps@);
                }
                return Result::Err(e);
            },
        }
        i = i + 1;
    }
    proof {
        assert(sub.steps@.take(sub.steps@.len() as int) =~= sub.steps@);
    }
    Result::Ok(vals)
}

fn is_absence_ex(e: &Error) -> (r: bool)
    ensures
        r == is_absence(e@),
{
    match e {
        Error::ColumnNotFound(_) => true,
        Error::IndexOutOfBounds(_) => true,
        _ => false,
    }
}

/// Execute one per-field step.
pub fn run_step(step: &DecodeStep, row: &Row) -> (r: Result<FieldValue, Error>)
    requires
        step_wf(*step),
    ensures
        res_view(r) == run_step_spec(*step, row@),
{
    match step {
        DecodeStep::Direct(st) => match run_scalar_step(st, row) {
            Result::Ok(v) => Result::Ok(FieldValue::Scalar(v)),
            Result::Err(e) => Result::Err(e),
        },
        DecodeStep::Flatten { sub, unwrap_single, default_on_missing } => {
            match run_sub_plan(sub, row) {
                Result::Ok(vals) => {
                    if *unwrap_single {
                        let mut vals = vals;
                        let v = vals.remove(0);
                        Result::Ok(FieldValue::Scalar(v))
                    } else {
                        Result::Ok(FieldValue::Nested(vals))
                    }
                },
                Result::Err(e) => {
                    if *default_on_missing && is_absence_ex(&e) {
                        if *unwrap_single {
                            Result::Ok(
                                FieldValue::Scalar(default_value(step_final_ty_ex(&sub.steps[0]))),
                            )
                        } else {
                            let mut dfl: Vec<Value> = Vec::new();
                            let mut i: usize = 0;
                            while i < sub.steps.len()
                                invariant
                                    i <= sub.steps@.len(),
                                    dfl@.len() == i,
                                    forall|j: int|
                                        0 <= j < i ==> dfl@[j]@ == default_of(
                                            step_final_ty(sub.steps@[j]),
                                        ),
                                decreases sub.steps@.len() - i,
                            {
                                dfl.push(default_value(step_final_ty_ex(&sub.steps[i])));
                                i = i + 1;
                            }
                            proof {
                                assert(dfl@.map_values(|v: Value| v@) =~= sub_default(sub.steps@));
                            }
                            Result::Ok(FieldValue::Nested(dfl))
                        }
                    } else {
                        Result::Err(e)
                    }
                },
            }
        },
    }
}

/// Execute a whole plan against a row: either every field's value, in
/// declaration order, or the first propagated error.
pub fn execute(plan: &DecodePlan, row: &Row) -> (r: Result<Obj, Error>)
    requires
        plan_wf(*plan),
    ensures
        r matches Ok(o) ==> run_plan_spec(*plan, row@) == Result::<Seq<FieldValV>, ErrV>::Ok(o@),
        r matches Err(e) ==> run_plan_spec(*plan, row@) == Result::<Seq<FieldValV>, ErrV>::Err(e@),
{
    let mut values: Vec<FieldValue> = Vec::new();
    let mut i: usize = 0;
    proof {
        assert(plan.steps@.take(0) =~= Seq::<DecodeStep>::empty());
        assert(values@.map_values(|v: FieldValue| v@) =~= Seq::<FieldValV>::empty());
    }
    while i < plan.steps.len()
        invariant
            plan_wf(*plan),
            i <= plan.steps@.len(),
            values@.len() == i,
            run_steps_spec(plan.steps@.take(i as int), row@) == Result::<Seq<FieldValV>, ErrV>::Ok(
                values@.map_values(|v: FieldValue| v@),
            ),
        decreases plan.steps@.len() - i,
    {
        assert(step_wf(plan.steps@[i as int]));
        match run_step(&plan.steps[i], row) {
            Result::Ok(v) => {
                let ghost prev = values@;
                values.push(v);
                proof {
                    assert(plan.steps@.take(i + 1).drop_last() =~= plan.steps@.take(i as int));
                    assert(plan.steps@.take(i + 1).last() == plan.steps@[i as int]);
                    assert(values@.map_values(|v: FieldValue| v@) =~= prev.map_values(
                        |v: FieldValue| v@,
                    ).push(values@.last()@));
                }
            },
            Result::Err(e) => {
                proof {
                    assert(plan.steps@.take(i + 1).drop_last() =~= plan.steps@.take(i as int));
                    assert(plan.steps@.take(i + 1).last() == plan.steps@[i as int]);
                    assert(run_steps_spec(plan.steps@.take(i + 1), row@)
                        == Result::<Seq<FieldValV>, ErrV>::Err(e@));
                    lemma_steps_err_extends(plan.steps@, row@, i + 1, plan.steps@.len() as int);
                    assert(plan.steps@.take(plan.steps@.len() as int) =~= plan.steps@);
                }
                return Result::Err(e);
            },
        }
        i = i + 1;
    }
    proof {
        assert(plan.steps@.take(plan.steps@.len() as int) =~= plan.steps@);
    }
    Result::Ok(Obj { values })
}

/// Build the schema's plan and execute it against one row: the
/// constructor-like operation a schema exposes.  An invalid schema is
/// rejected; a valid one decodes to exactly what the schema-level
/// semantics say of this row.
pub fn from_row(s: &Schema, row: &Row) -> (r: Result<Obj, Error>)
    ensures
        !schema_valid(*s) ==> (r matches Err(e) && e@ == ErrV::UnsupportedSchema),
        schema_valid(*s) ==> res_view(r) == crate::semantics::schema_run(*s, row@),
{
    match build_plan(s) {
        Result::Ok(plan) => {
            let r = execute(&plan, row);
            proof {
                crate::semantics::lemma_plan_run_is_schema_run(plan, *s, row@);
            }
            r
        },
        Result::Err(e) => Result::Err(e),
    }
}

} // verus!
