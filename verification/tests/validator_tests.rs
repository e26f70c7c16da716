use dictval::errors::{ErrorKind, LineError, LocItem, ValError, ValResult};
use dictval::schema::BuildError;
use dictval::validators::{build_validator, Extra, Validator};
use dictval::value::Value;

fn s(x: &str) -> Value {
    Value::Str(x.to_string())
}

fn i(n: i64) -> Value {
    Value::Int(n)
}

fn d(pairs: Vec<(Value, Value)>) -> Value {
    Value::Dict(pairs)
}

fn schema(fields: Vec<(&str, Value)>) -> Value {
    Value::Dict(fields.into_iter().map(|(k, v)| (s(k), v)).collect())
}

fn extra() -> Extra {
    Extra { data: None, field: None }
}

fn build(sch: &Value) -> Validator {
    build_validator(sch, None).expect("schema should build")
}

fn validate(v: &Validator, input: &Value) -> ValResult {
    v.validate(&Vec::new(), input, &extra())
}

fn line_errors(r: ValResult) -> Vec<LineError> {
    match r {
        Err(ValError::LineErrors(errors)) => errors,
        other => panic!("expected line errors, got {:?}", other),
    }
}

#[test]
fn empty_mapping_below_min_items_is_too_short() {
    let v = build(&schema(vec![("type", s("dict")), ("min_items", i(1)), ("max_items", i(2))]));
    let errors = line_errors(validate(&v, &d(vec![])));
    assert_eq!(errors.len(), 1);
    assert_eq!(errors[0].kind, ErrorKind::DictTooShort);
    assert_eq!(errors[0].context, vec![("min_length".to_string(), 1)]);
    assert_eq!(errors[0].location, vec![]);
}

#[test]
fn three_entries_above_max_items_is_too_long() {
    let v = build(&schema(vec![("type", s("dict")), ("min_items", i(1)), ("max_items", i(2))]));
    let input = d(vec![(s("a"), i(1)), (s("b"), i(2)), (s("c"), i(3))]);
    let errors = line_errors(validate(&v, &input));
    assert_eq!(errors.len(), 1);
    assert_eq!(errors[0].kind, ErrorKind::DictTooLong);
    assert_eq!(errors[0].context, vec![("max_length".to_string(), 2)]);
    assert_eq!(errors[0].location, vec![]);
}

#[test]
fn one_entry_within_bounds_passes_through() {
    let v = build(&schema(vec![("type", s("dict")), ("min_items", i(1)), ("max_items", i(2))]));
    let out = validate(&v, &d(vec![(s("a"), i(1))])).expect("should validate");
    assert_eq!(out, d(vec![(s("a"), i(1))]));
}

#[test]
fn size_violation_short_circuits_entry_checks() {
    // The single error is the size error even though every value would also
    // fail the configured value validator.
    let v = build(&schema(vec![
        ("type", s("dict")),
        ("min_items", i(3)),
        ("values", schema(vec![("type", s("str"))])),
    ]));
    let errors = line_errors(validate(&v, &d(vec![(s("a"), i(1)), (s("b"), i(2))])));
    assert_eq!(errors.len(), 1);
    assert_eq!(errors[0].kind, ErrorKind::DictTooShort);
}

#[test]
fn no_child_validators_is_structural_identity() {
    let v = build(&schema(vec![("type", s("dict"))]));
    let input = d(vec![
        (s("a"), i(1)),
        (s("b"), Value::Bool(true)),
        (s("x"), Value::List(vec![i(1), i(2)])),
    ]);
    let out = validate(&v, &input).expect("should validate");
    assert_eq!(out, input);
}

#[test]
fn key_and_value_failures_are_both_aggregated() {
    let v = build(&schema(vec![
        ("type", s("dict")),
        ("keys", schema(vec![("type", s("str"))])),
        ("values", schema(vec![("type", s("str"))])),
    ]));
    let input = d(vec![
        (s("k1"), s("v1")),
        (i(7), s("v2")),
        (s("k3"), s("v3")),
        (s("k4"), i(9)),
    ]);
    let errors = line_errors(validate(&v, &input));
    assert_eq!(errors.len(), 2);
    assert_eq!(errors[0].kind, ErrorKind::StrType);
    assert_eq!(
        errors[0].location,
        vec![LocItem::Int(7), LocItem::Str("[key]".to_string())]
    );
    assert_eq!(errors[1].kind, ErrorKind::StrType);
    assert_eq!(errors[1].location, vec![LocItem::Str("k4".to_string())]);
}

#[test]
fn strict_mode_rejects_pair_sequence_that_lax_accepts() {
    let pairs = Value::List(vec![
        Value::List(vec![s("a"), i(1)]),
        Value::List(vec![s("b"), i(2)]),
    ]);
    let strict = build(&schema(vec![("type", s("dict")), ("strict", Value::Bool(true))]));
    let errors = line_errors(validate(&strict, &pairs));
    assert_eq!(errors.len(), 1);
    assert_eq!(errors[0].kind, ErrorKind::DictType);
    assert_eq!(errors[0].location, vec![]);

    let lax = build(&schema(vec![("type", s("dict"))]));
    let out = validate(&lax, &pairs).expect("lax should accept a pair sequence");
    assert_eq!(out, d(vec![(s("a"), i(1)), (s("b"), i(2))]));
}

#[test]
fn validate_strict_forces_strict_extraction() {
    let lax = build(&schema(vec![("type", s("dict"))]));
    let pairs = Value::List(vec![Value::List(vec![s("a"), i(1)])]);
    let errors = match lax.validate_strict(&Vec::new(), &pairs, &extra()) {
        Err(ValError::LineErrors(errors)) => errors,
        other => panic!("expected line errors, got {:?}", other),
    };
    assert_eq!(errors.len(), 1);
    assert_eq!(errors[0].kind, ErrorKind::DictType);
}

#[test]
fn lax_rejects_sequence_holding_a_non_pair() {
    let lax = build(&schema(vec![("type", s("dict"))]));
    let bad = Value::List(vec![Value::List(vec![s("a"), i(1)]), i(5)]);
    let errors = line_errors(validate(&lax, &bad));
    assert_eq!(errors.len(), 1);
    assert_eq!(errors[0].kind, ErrorKind::DictType);
}

#[test]
fn instance_needs_the_duck_typing_flag() {
    let inst = Value::Instance(vec![(s("a"), i(1))]);
    let plain = build(&schema(vec![("type", s("dict"))]));
    let errors = line_errors(validate(&plain, &inst));
    assert_eq!(errors[0].kind, ErrorKind::DictType);

    let ducky = build(&schema(vec![
        ("type", s("dict")),
        ("try_instance_as_dict", Value::Bool(true)),
    ]));
    let out = validate(&ducky, &inst).expect("duck typing should accept the instance");
    assert_eq!(out, d(vec![(s("a"), i(1))]));
}

#[test]
fn strict_mode_ignores_duck_typing() {
    let v = build(&schema(vec![
        ("type", s("dict")),
        ("strict", Value::Bool(true)),
        ("try_instance_as_dict", Value::Bool(true)),
    ]));
    let errors = line_errors(validate(&v, &Value::Instance(vec![(s("a"), i(1))])));
    assert_eq!(errors[0].kind, ErrorKind::DictType);
}

#[test]
fn nested_failure_carries_the_full_location_path() {
    let v = build(&schema(vec![
        ("type", s("dict")),
        ("values", schema(vec![
            ("type", s("dict")),
            ("values", schema(vec![("type", s("str"))])),
        ])),
    ]));
    let input = d(vec![(s("a"), d(vec![(s("b"), i(5))]))]);
    let errors = line_errors(validate(&v, &input));
    assert_eq!(errors.len(), 1);
    assert_eq!(errors[0].kind, ErrorKind::StrType);
    assert_eq!(
        errors[0].location,
        vec![LocItem::Str("a".to_string()), LocItem::Str("b".to_string())]
    );
}

#[test]
fn failing_entries_are_omitted_others_validate() {
    let v = build(&schema(vec![
        ("type", s("dict")),
        ("values", schema(vec![("type", s("int"))])),
    ]));
    let input = d(vec![(s("a"), i(1)), (s("b"), s("oops")), (s("c"), i(3))]);
    let errors = line_errors(validate(&v, &input));
    assert_eq!(errors.len(), 1);
    assert_eq!(errors[0].kind, ErrorKind::IntType);
    assert_eq!(errors[0].location, vec![LocItem::Str("b".to_string())]);
}

#[test]
fn set_ref_allows_a_self_referencing_schema() {
    let sch = schema(vec![
        ("type", s("dict")),
        ("values", schema(vec![("type", s("ref")), ("name", s("root"))])),
    ]);
    let mut v = build(&sch);
    v.set_ref("root", 0);
    let arena = vec![v.clone()];
    let input = d(vec![(s("a"), d(vec![(s("b"), d(vec![]))]))]);
    let out = v.validate(&arena, &input, &extra()).expect("recursive schema should validate");
    assert_eq!(out, input);
}

#[test]
fn self_referencing_schema_reports_nested_failures() {
    let sch = schema(vec![
        ("type", s("dict")),
        ("values", schema(vec![("type", s("ref")), ("name", s("root"))])),
    ]);
    let mut v = build(&sch);
    v.set_ref("root", 0);
    let arena = vec![v.clone()];
    let input = d(vec![(s("a"), i(5))]);
    let errors = match v.validate(&arena, &input, &extra()) {
        Err(ValError::LineErrors(errors)) => errors,
        other => panic!("expected line errors, got {:?}", other),
    };
    assert_eq!(errors.len(), 1);
    assert_eq!(errors[0].kind, ErrorKind::DictType);
    assert_eq!(errors[0].location, vec![LocItem::Str("a".to_string())]);
}

#[test]
fn unresolved_reference_is_an_internal_error() {
    let sch = schema(vec![
        ("type", s("dict")),
        ("values", schema(vec![("type", s("ref")), ("name", s("root"))])),
    ]);
    let v = build(&sch);
    let arena: Vec<Validator> = Vec::new();
    let input = d(vec![(s("a"), i(5))]);
    assert_eq!(v.validate(&arena, &input, &extra()), Err(ValError::InternalError));
}

#[test]
fn set_ref_leaves_other_names_unbound() {
    let sch = schema(vec![
        ("type", s("dict")),
        ("values", schema(vec![("type", s("ref")), ("name", s("other"))])),
    ]);
    let mut v = build(&sch);
    v.set_ref("root", 0);
    let arena = vec![v.clone()];
    let input = d(vec![(s("a"), i(5))]);
    assert_eq!(v.validate(&arena, &input, &extra()), Err(ValError::InternalError));
}

#[test]
fn build_refuses_a_non_mapping_schema() {
    assert!(matches!(build_validator(&i(3), None), Err(BuildError::NotADict)));
}

#[test]
fn build_refuses_a_schema_without_type() {
    assert!(matches!(build_validator(&schema(vec![]), None), Err(BuildError::MissingType)));
}

#[test]
fn build_refuses_an_unknown_type() {
    let r = build_validator(&schema(vec![("type", s("tuple"))]), None);
    assert!(matches!(r, Err(BuildError::UnknownType)));
}

#[test]
fn build_refuses_a_reference_without_name() {
    let r = build_validator(&schema(vec![("type", s("ref"))]), None);
    assert!(matches!(r, Err(BuildError::MissingName)));
}

#[test]
fn build_refuses_wrongly_typed_fields() {
    let r = build_validator(&schema(vec![("type", s("dict")), ("min_items", s("x"))]), None);
    assert!(matches!(r, Err(BuildError::WrongFieldType)));
    let r = build_validator(&schema(vec![("type", s("dict")), ("min_items", i(-1))]), None);
    assert!(matches!(r, Err(BuildError::WrongFieldType)));
    let r = build_validator(&schema(vec![("type", s("dict")), ("strict", i(1))]), None);
    assert!(matches!(r, Err(BuildError::WrongFieldType)));
}

#[test]
fn strictness_falls_back_to_the_configuration() {
    let sch = schema(vec![("type", s("dict"))]);
    let config = schema(vec![("strict", Value::Bool(true))]);
    let v = build_validator(&sch, Some(&config)).expect("schema should build");
    let pairs = Value::List(vec![Value::List(vec![s("a"), i(1)])]);
    let errors = line_errors(validate(&v, &pairs));
    assert_eq!(errors[0].kind, ErrorKind::DictType);

    // The schema's own flag wins over the configuration's.
    let sch = schema(vec![("type", s("dict")), ("strict", Value::Bool(false))]);
    let v = build_validator(&sch, Some(&config)).expect("schema should build");
    assert!(validate(&v, &pairs).is_ok());
}

#[test]
fn get_name_reports_the_variant() {
    assert_eq!(build(&schema(vec![("type", s("dict"))])).get_name(), "dict");
    assert_eq!(build(&schema(vec![("type", s("str"))])).get_name(), "str");
    assert_eq!(build(&schema(vec![("type", s("int"))])).get_name(), "int");
    assert_eq!(
        build(&schema(vec![("type", s("ref")), ("name", s("root"))])).get_name(),
        "ref"
    );
}

#[test]
fn clone_dyn_yields_an_equivalent_validator() {
    let v = build(&schema(vec![
        ("type", s("dict")),
        ("values", schema(vec![("type", s("int"))])),
        ("min_items", i(1)),
    ]));
    let copy = v.clone_dyn();
    let input = d(vec![(s("a"), i(1))]);
    assert_eq!(validate(&copy, &input), validate(&v, &input));
    let errors = line_errors(validate(&copy, &d(vec![])));
    assert_eq!(errors[0].kind, ErrorKind::DictTooShort);
}

#[test]
fn leaf_validators_check_the_value_shape() {
    let int_v = build(&schema(vec![("type", s("int"))]));
    assert_eq!(validate(&int_v, &i(5)), Ok(i(5)));
    let errors = line_errors(validate(&int_v, &s("x")));
    assert_eq!(errors[0].kind, ErrorKind::IntType);

    let str_v = build(&schema(vec![("type", s("str"))]));
    assert_eq!(validate(&str_v, &s("x")), Ok(s("x")));
    let errors = line_errors(validate(&str_v, &i(5)));
    assert_eq!(errors[0].kind, ErrorKind::StrType);
}

#[test]
fn non_string_keys_locate_by_shape() {
    let v = build(&schema(vec![
        ("type", s("dict")),
        ("keys", schema(vec![("type", s("str"))])),
    ]));
    let input = d(vec![(Value::Bool(true), i(1))]);
    let errors = line_errors(validate(&v, &input));
    assert_eq!(
        errors[0].location,
        vec![LocItem::Str("true".to_string()), LocItem::Str("[key]".to_string())]
    );
}
