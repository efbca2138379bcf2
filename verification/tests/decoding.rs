use from_row::model::{Column, Error, FieldValue, Obj, Row, Ty, Value};
use from_row::naming::NamingConvention;
use from_row::plan::{build_plan, Capability};
use from_row::run::{execute, from_row};
use from_row::schema::{
    FieldAttrs, FieldSchema, FieldTy, ScalarAttrs, Schema, SubField, SubSchema,
};

fn bs(s: &str) -> Vec<u8> {
    s.as_bytes().to_vec()
}

fn col(name: &str, v: Value) -> Column {
    Column { name: bs(name), value: v }
}

fn row(columns: Vec<Column>) -> Row {
    Row { columns }
}

fn plain(id: &str, ty: Ty) -> FieldSchema {
    FieldSchema { ident: Some(bs(id)), ty: FieldTy::Scalar(ty), attrs: FieldAttrs::plain() }
}

fn positional(ty: Ty) -> FieldSchema {
    FieldSchema { ident: None, ty: FieldTy::Scalar(ty), attrs: FieldAttrs::plain() }
}

fn named_schema(fields: Vec<FieldSchema>) -> Schema {
    Schema { rename_all: None, fields }
}

fn sub_field(id: &str, ty: Ty) -> SubField {
    SubField {
        ident: Some(bs(id)),
        ty,
        attrs: ScalarAttrs { rename: None, try_from: None, default_on_missing: false },
    }
}

fn decode(s: &Schema, r: &Row) -> Result<Obj, Error> {
    let plan = build_plan(s)?;
    execute(&plan, r)
}

#[test]
fn plain_named_schema_decodes_by_ident() {
    let s = named_schema(vec![plain("id", Ty::Int), plain("name", Ty::Text)]);
    let r = row(vec![col("id", Value::Int(1)), col("name", Value::Text(bs("Ann")))]);
    let o = decode(&s, &r).unwrap();
    assert_eq!(
        o,
        Obj {
            values: vec![
                FieldValue::Scalar(Value::Int(1)),
                FieldValue::Scalar(Value::Text(bs("Ann"))),
            ],
        }
    );
}

#[test]
fn plain_named_schema_missing_column_not_found() {
    let s = named_schema(vec![plain("id", Ty::Int), plain("name", Ty::Text)]);
    let r = row(vec![col("id", Value::Int(1))]);
    assert_eq!(decode(&s, &r), Err(Error::ColumnNotFound(bs("name"))));
}

#[test]
fn raw_identifier_prefix_stripped() {
    let s = named_schema(vec![plain("r#type", Ty::Int)]);
    let r = row(vec![col("type", Value::Int(3))]);
    let o = decode(&s, &r).unwrap();
    assert_eq!(o.values, vec![FieldValue::Scalar(Value::Int(3))]);
}

#[test]
fn rename_overrides_rename_all() {
    let mut f = plain("userName", Ty::Int);
    f.attrs.rename = Some(bs("u"));
    let s = Schema { rename_all: Some(NamingConvention::SnakeCase), fields: vec![f] };
    let hit = row(vec![col("u", Value::Int(1))]);
    assert!(decode(&s, &hit).is_ok());
    let miss = row(vec![col("user_name", Value::Int(1))]);
    assert_eq!(decode(&s, &miss), Err(Error::ColumnNotFound(bs("u"))));
}

#[test]
fn rename_all_applied_when_no_rename() {
    let s = Schema {
        rename_all: Some(NamingConvention::SnakeCase),
        fields: vec![plain("userName", Ty::Int)],
    };
    let r = row(vec![col("user_name", Value::Int(2))]);
    let o = decode(&s, &r).unwrap();
    assert_eq!(o.values, vec![FieldValue::Scalar(Value::Int(2))]);
}

#[test]
fn scenario_rename_beside_rename_all() {
    let mut name = plain("name", Ty::Text);
    name.attrs.rename = Some(bs("full_name"));
    let s = Schema {
        rename_all: Some(NamingConvention::SnakeCase),
        fields: vec![plain("id", Ty::Int), name],
    };
    let r = row(vec![col("id", Value::Int(1)), col("full_name", Value::Text(bs("Ann")))]);
    let o = decode(&s, &r).unwrap();
    assert_eq!(
        o.values,
        vec![FieldValue::Scalar(Value::Int(1)), FieldValue::Scalar(Value::Text(bs("Ann")))]
    );
    let narrow = row(vec![col("id", Value::Int(1))]);
    assert_eq!(decode(&s, &narrow), Err(Error::ColumnNotFound(bs("full_name"))));
}

#[test]
fn scenario_default_score() {
    let mut score = plain("score", Ty::Int);
    score.attrs.default_on_missing = true;
    let s = named_schema(vec![score]);
    let empty = row(vec![]);
    let o = decode(&s, &empty).unwrap();
    assert_eq!(o.values, vec![FieldValue::Scalar(Value::Int(0))]);
    let malformed = row(vec![col("score", Value::Text(bs("x")))]);
    assert_eq!(decode(&s, &malformed), Err(Error::TypeMismatch));
}

#[test]
fn tuple_schema_strict_order() {
    let s = named_schema(vec![positional(Ty::Int), positional(Ty::Text)]);
    let r = row(vec![col("a", Value::Int(7)), col("b", Value::Text(bs("x")))]);
    let o = decode(&s, &r).unwrap();
    assert_eq!(
        o.values,
        vec![FieldValue::Scalar(Value::Int(7)), FieldValue::Scalar(Value::Text(bs("x")))]
    );
}

#[test]
fn tuple_schema_reordered_fields_change_feeding() {
    let s = named_schema(vec![positional(Ty::Text), positional(Ty::Int)]);
    let r = row(vec![col("a", Value::Int(7)), col("b", Value::Text(bs("x")))]);
    assert_eq!(decode(&s, &r), Err(Error::TypeMismatch));
}

#[test]
fn tuple_schema_row_too_narrow() {
    let s = named_schema(vec![positional(Ty::Int), positional(Ty::Int)]);
    let r = row(vec![col("a", Value::Int(7))]);
    assert_eq!(decode(&s, &r), Err(Error::IndexOutOfBounds(1)));
}

#[test]
fn positional_ignores_attributes() {
    let mut f0 = positional(Ty::Int);
    f0.attrs.rename = Some(bs("ignored"));
    let mut f1 = positional(Ty::Int);
    f1.attrs.default_on_missing = true;
    let s = named_schema(vec![f0, f1]);
    let r = row(vec![col("a", Value::Int(7))]);
    assert_eq!(decode(&s, &r), Err(Error::IndexOutOfBounds(1)));
}

fn point_sub() -> SubSchema {
    SubSchema { rename_all: None, fields: vec![sub_field("x", Ty::Int), sub_field("y", Ty::Int)] }
}

#[test]
fn flatten_decodes_sub_object() {
    let p = FieldSchema {
        ident: Some(bs("p")),
        ty: FieldTy::Struct(point_sub()),
        attrs: FieldAttrs { rename: None, flatten: true, try_from: None, default_on_missing: false },
    };
    let s = named_schema(vec![plain("a", Ty::Int), p]);
    let r = row(vec![
        col("a", Value::Int(1)),
        col("x", Value::Int(2)),
        col("y", Value::Int(3)),
    ]);
    let o = decode(&s, &r).unwrap();
    assert_eq!(
        o.values,
        vec![
            FieldValue::Scalar(Value::Int(1)),
            FieldValue::Nested(vec![Value::Int(2), Value::Int(3)]),
        ]
    );
}

#[test]
fn flatten_missing_nested_column() {
    let p = FieldSchema {
        ident: Some(bs("p")),
        ty: FieldTy::Struct(point_sub()),
        attrs: FieldAttrs { rename: None, flatten: true, try_from: None, default_on_missing: false },
    };
    let s = named_schema(vec![plain("a", Ty::Int), p]);
    let r = row(vec![col("a", Value::Int(1)), col("x", Value::Int(2))]);
    assert_eq!(decode(&s, &r), Err(Error::ColumnNotFound(bs("y"))));
}

#[test]
fn flatten_default_fills_whole_sub_object() {
    let p = FieldSchema {
        ident: Some(bs("p")),
        ty: FieldTy::Struct(point_sub()),
        attrs: FieldAttrs { rename: None, flatten: true, try_from: None, default_on_missing: true },
    };
    let s = named_schema(vec![p]);
    let r = row(vec![]);
    let o = decode(&s, &r).unwrap();
    assert_eq!(o.values, vec![FieldValue::Nested(vec![Value::Int(0), Value::Int(0)])]);
}

fn wrapper_sub() -> SubSchema {
    SubSchema { rename_all: None, fields: vec![sub_field("inner", Ty::Int)] }
}

#[test]
fn flatten_try_from_builds_then_converts() {
    let v = FieldSchema {
        ident: Some(bs("v")),
        ty: FieldTy::Scalar(Ty::Int),
        attrs: FieldAttrs {
            rename: None,
            flatten: true,
            try_from: Some(FieldTy::Struct(wrapper_sub())),
            default_on_missing: false,
        },
    };
    let s = named_schema(vec![v]);
    let r = row(vec![col("inner", Value::Int(5))]);
    let o = decode(&s, &r).unwrap();
    assert_eq!(o.values, vec![FieldValue::Scalar(Value::Int(5))]);
}

#[test]
fn flatten_try_from_nested_error_not_conversion() {
    let v = FieldSchema {
        ident: Some(bs("v")),
        ty: FieldTy::Scalar(Ty::Int),
        attrs: FieldAttrs {
            rename: None,
            flatten: true,
            try_from: Some(FieldTy::Struct(wrapper_sub())),
            default_on_missing: false,
        },
    };
    let s = named_schema(vec![v]);
    let r = row(vec![]);
    let e = decode(&s, &r).unwrap_err();
    assert_ne!(e, Error::ConversionFailure);
    assert_eq!(e, Error::ColumnNotFound(bs("inner")));
}

fn bool_via_int(dflt: bool) -> Schema {
    let f = FieldSchema {
        ident: Some(bs("flag")),
        ty: FieldTy::Scalar(Ty::Bool),
        attrs: FieldAttrs {
            rename: None,
            flatten: false,
            try_from: Some(FieldTy::Scalar(Ty::Int)),
            default_on_missing: dflt,
        },
    };
    named_schema(vec![f])
}

#[test]
fn try_from_int_to_bool() {
    let s = bool_via_int(false);
    let one = row(vec![col("flag", Value::Int(1))]);
    assert_eq!(
        decode(&s, &one).unwrap().values,
        vec![FieldValue::Scalar(Value::Bool(true))]
    );
    let zero = row(vec![col("flag", Value::Int(0))]);
    assert_eq!(
        decode(&s, &zero).unwrap().values,
        vec![FieldValue::Scalar(Value::Bool(false))]
    );
}

#[test]
fn try_from_conversion_failure() {
    let s = bool_via_int(false);
    let r = row(vec![col("flag", Value::Int(5))]);
    assert_eq!(decode(&s, &r), Err(Error::ConversionFailure));
}

#[test]
fn try_from_default_uses_final_type() {
    let s = bool_via_int(true);
    let r = row(vec![]);
    assert_eq!(
        decode(&s, &r).unwrap().values,
        vec![FieldValue::Scalar(Value::Bool(false))]
    );
}

#[test]
fn default_does_not_mask_conversion_failure() {
    let s = bool_via_int(true);
    let r = row(vec![col("flag", Value::Int(5))]);
    assert_eq!(decode(&s, &r), Err(Error::ConversionFailure));
}

#[test]
fn unsupported_empty_schema() {
    let s = named_schema(vec![]);
    assert_eq!(build_plan(&s).unwrap_err(), Error::UnsupportedSchema);
}

#[test]
fn unsupported_flatten_with_rename() {
    let p = FieldSchema {
        ident: Some(bs("p")),
        ty: FieldTy::Struct(point_sub()),
        attrs: FieldAttrs {
            rename: Some(bs("q")),
            flatten: true,
            try_from: None,
            default_on_missing: false,
        },
    };
    let s = named_schema(vec![p]);
    assert_eq!(build_plan(&s).unwrap_err(), Error::UnsupportedSchema);
}

#[test]
fn unsupported_mixed_addressing() {
    let s = named_schema(vec![plain("a", Ty::Int), positional(Ty::Int)]);
    assert_eq!(build_plan(&s).unwrap_err(), Error::UnsupportedSchema);
}

#[test]
fn unsupported_flatten_of_scalar() {
    let mut f = plain("a", Ty::Int);
    f.attrs.flatten = true;
    let s = named_schema(vec![f]);
    assert_eq!(build_plan(&s).unwrap_err(), Error::UnsupportedSchema);
}

#[test]
fn unsupported_inconvertible_pair() {
    let f = FieldSchema {
        ident: Some(bs("a")),
        ty: FieldTy::Scalar(Ty::Bool),
        attrs: FieldAttrs {
            rename: None,
            flatten: false,
            try_from: Some(FieldTy::Scalar(Ty::Text)),
            default_on_missing: false,
        },
    };
    let s = named_schema(vec![f]);
    assert_eq!(build_plan(&s).unwrap_err(), Error::UnsupportedSchema);
}

#[test]
fn requirements_recorded_in_order() {
    let flag = FieldSchema {
        ident: Some(bs("flag")),
        ty: FieldTy::Scalar(Ty::Bool),
        attrs: FieldAttrs {
            rename: None,
            flatten: false,
            try_from: Some(FieldTy::Scalar(Ty::Int)),
            default_on_missing: false,
        },
    };
    let p = FieldSchema {
        ident: Some(bs("p")),
        ty: FieldTy::Struct(point_sub()),
        attrs: FieldAttrs { rename: None, flatten: true, try_from: None, default_on_missing: false },
    };
    let s = named_schema(vec![plain("id", Ty::Int), flag, p]);
    let plan = build_plan(&s).unwrap();
    assert_eq!(
        plan.requirements,
        vec![
            Capability::AddressByName,
            Capability::Decode(Ty::Int),
            Capability::TypeCompat(Ty::Int),
            Capability::Decode(Ty::Int),
            Capability::TypeCompat(Ty::Int),
            Capability::TryFromScalar(Ty::Int, Ty::Bool),
            Capability::NestedMap,
        ]
    );
}

#[test]
fn positional_requirements_recorded() {
    let s = named_schema(vec![positional(Ty::Int), positional(Ty::Text)]);
    let plan = build_plan(&s).unwrap();
    assert_eq!(
        plan.requirements,
        vec![
            Capability::AddressByIndex,
            Capability::Decode(Ty::Int),
            Capability::TypeCompat(Ty::Int),
            Capability::Decode(Ty::Text),
            Capability::TypeCompat(Ty::Text),
        ]
    );
}

#[test]
fn from_row_matches_build_then_execute() {
    let s = named_schema(vec![plain("id", Ty::Int)]);
    let r = row(vec![col("id", Value::Int(9))]);
    assert_eq!(from_row(&s, &r), decode(&s, &r));
    let bad = named_schema(vec![]);
    assert_eq!(from_row(&bad, &r), Err(Error::UnsupportedSchema));
}

#[test]
fn first_failing_field_decides_error() {
    let s = named_schema(vec![plain("a", Ty::Int), plain("b", Ty::Int)]);
    let r = row(vec![]);
    assert_eq!(decode(&s, &r), Err(Error::ColumnNotFound(bs("a"))));
}

#[test]
fn first_column_wins_on_duplicate_names() {
    let s = named_schema(vec![plain("x", Ty::Int)]);
    let r = row(vec![col("x", Value::Int(1)), col("x", Value::Int(2))]);
    assert_eq!(decode(&s, &r).unwrap().values, vec![FieldValue::Scalar(Value::Int(1))]);
}

#[test]
fn sub_schema_honours_its_own_attributes() {
    let renamed = SubField {
        ident: Some(bs("x")),
        ty: Ty::Int,
        attrs: ScalarAttrs { rename: Some(bs("col_x")), try_from: None, default_on_missing: false },
    };
    let defaulted = SubField {
        ident: Some(bs("y")),
        ty: Ty::Int,
        attrs: ScalarAttrs { rename: None, try_from: None, default_on_missing: true },
    };
    let sub = SubSchema { rename_all: None, fields: vec![renamed, defaulted] };
    let p = FieldSchema {
        ident: Some(bs("p")),
        ty: FieldTy::Struct(sub),
        attrs: FieldAttrs { rename: None, flatten: true, try_from: None, default_on_missing: false },
    };
    let s = named_schema(vec![p]);
    let r = row(vec![col("col_x", Value::Int(4))]);
    let o = decode(&s, &r).unwrap();
    assert_eq!(o.values, vec![FieldValue::Nested(vec![Value::Int(4), Value::Int(0)])]);
}
