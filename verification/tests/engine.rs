//! Tests of the aggregation multimap and the binder's edges.

use argser::ParseError;
use argser::args::RawArgs;
use argser::bind::bind;
use argser::parse_from_providers;
use argser::schema::DefaultPolicy;
use argser::schema::FieldKind;
use argser::schema::FieldSpec;
use argser::schema::Schema;
use argser::value::TypeTag;
use argser::value::Value;

fn field(name: &str, kind: FieldKind, policy: DefaultPolicy) -> FieldSpec {
    FieldSpec { binding_name: name.to_owned(), kind, default_policy: policy }
}

#[test]
fn raw_args_append_and_get() {
    let mut args = RawArgs::new();
    args.add_value("k".to_owned(), "1".to_owned());
    args.add_value("other".to_owned(), "x".to_owned());
    args.add_value("k".to_owned(), "2".to_owned());
    assert_eq!(
        Some(&vec!["1".to_owned(), "2".to_owned()]),
        args.get("k")
    );
    assert_eq!(Some(&vec!["x".to_owned()]), args.get("other"));
    assert_eq!(None, args.get("absent"));
}

#[test]
fn duplicate_keys_aggregate_in_order() {
    // Values of one key repeated across providers are appended, never
    // replaced; the sequence codec sees them all, in provider order.
    let schema = Schema {
        fields: vec![field(
            "a",
            FieldKind::Primitive(TypeTag::List(Box::new(TypeTag::U16))),
            DefaultPolicy::Required,
        )],
    };
    let first = vec![("a".to_owned(), "1".to_owned())];
    let second = vec![("a".to_owned(), "2".to_owned())];
    let expected = Value::Record(vec![Value::List(vec![Value::U16(1), Value::U16(2)])]);
    assert_eq!(Ok(expected), parse_from_providers(&schema, &vec![first, second]));
}

#[test]
fn bind_direct() {
    let mut schema = Schema::new();
    schema.push_field(field("flag", FieldKind::Primitive(TypeTag::Bool), DefaultPolicy::Required));
    let mut args = RawArgs::new();
    args.add_value("flag".to_owned(), "true".to_owned());
    assert_eq!(Ok(Value::Record(vec![Value::Bool(true)])), bind(&schema, &args));
}

#[test]
fn too_deep_nesting_fails_deterministically() {
    // A schema nested past the supported depth is malformed: the bind fails
    // with a custom error instead of overflowing.
    let mut schema = Schema {
        fields: vec![field("leaf", FieldKind::Primitive(TypeTag::U16), DefaultPolicy::Zero)],
    };
    let mut level: usize = 0;
    while level < 70 {
        schema = Schema {
            fields: vec![field("n", FieldKind::Nested(schema), DefaultPolicy::Required)],
        };
        level += 1;
    }
    let args = RawArgs::new();
    match bind(&schema, &args) {
        Err(ParseError::Custom(msg)) => {
            assert_eq!("schema nesting exceeds the supported depth", msg);
        },
        other => panic!("expected the depth error, got {:?}", other),
    }
}

#[test]
fn zero_policy_absorbs_all_failures() {
    let schema = Schema {
        fields: vec![
            field("a", FieldKind::Primitive(TypeTag::U16), DefaultPolicy::Zero),
            field("b", FieldKind::Primitive(TypeTag::Str), DefaultPolicy::Zero),
            field("c", FieldKind::Primitive(TypeTag::Bool), DefaultPolicy::Zero),
        ],
    };
    let mut args = RawArgs::new();
    args.add_value("a".to_owned(), "junk".to_owned());
    let expected = Value::Record(vec![
        Value::U16(0),
        Value::Str("".to_owned()),
        Value::Bool(false),
    ]);
    assert_eq!(Ok(expected), bind(&schema, &args));
}

#[test]
fn first_failing_field_wins() {
    // Fail-fast: the first field in schema order that fails provides the
    // bind's error.
    let schema = Schema {
        fields: vec![
            field("a", FieldKind::Primitive(TypeTag::U16), DefaultPolicy::Required),
            field("b", FieldKind::Primitive(TypeTag::U16), DefaultPolicy::Required),
        ],
    };
    let mut args = RawArgs::new();
    args.add_value("a".to_owned(), "junk".to_owned());
    // `a` fails with InvalidValue before `b` can fail with MissingValue.
    assert_eq!(Err(ParseError::InvalidValue), bind(&schema, &args));
}
