//! Binding a flat schema of primitive fields, with and without defaults.

use argser::ArgProvider;
use argser::ParseError;
use argser::introspect::ArgumentDetail;
use argser::introspect::list_arguments;
use argser::parse_from_providers;
use argser::provider::Fixed;
use argser::schema::DefaultPolicy;
use argser::schema::FieldKind;
use argser::schema::FieldSpec;
use argser::schema::Schema;
use argser::value::TypeTag;
use argser::value::Value;

fn field(name: &str, kind: FieldKind, policy: DefaultPolicy) -> FieldSpec {
    FieldSpec { binding_name: name.to_owned(), kind, default_policy: policy }
}

fn detail(name: &str, required: bool) -> ArgumentDetail {
    ArgumentDetail { name: name.to_owned(), required, description: "".to_owned() }
}

fn options_schema() -> Schema {
    Schema {
        fields: vec![
            field("name", FieldKind::Primitive(TypeTag::Str), DefaultPolicy::Required),
            field("port", FieldKind::Primitive(TypeTag::U16), DefaultPolicy::Required),
        ],
    }
}

#[test]
fn primitives() {
    let fixed_provider = {
        let mut tmp = Fixed::empty();

        tmp.add_arg("name".to_owned(), "test-name".to_owned());
        tmp.add_arg("port".to_owned(), "123".to_owned());

        tmp
    };

    let schema = options_schema();
    let expected = Value::Record(vec![Value::Str("test-name".to_owned()), Value::U16(123)]);
    assert_eq!(
        Ok(expected),
        parse_from_providers(&schema, &vec![fixed_provider.get_args()])
    );

    let expected_args = vec![detail("name", true), detail("port", true)];
    assert_eq!(expected_args, list_arguments(&schema));
}

#[test]
fn primitives_round_trip_errors() {
    // Omitting the required port is a missing value; a malformed port is an
    // invalid value.
    let schema = options_schema();

    let mut only_name = Fixed::empty();
    only_name.add_arg("name".to_owned(), "x".to_owned());
    assert_eq!(
        Err(ParseError::MissingValue),
        parse_from_providers(&schema, &vec![only_name.get_args()])
    );

    let mut bad_port = Fixed::empty();
    bad_port.add_arg("name".to_owned(), "x".to_owned());
    bad_port.add_arg("port".to_owned(), "notanumber".to_owned());
    assert_eq!(
        Err(ParseError::InvalidValue),
        parse_from_providers(&schema, &vec![bad_port.get_args()])
    );
}

#[test]
fn primitives_with_default_func() {
    let schema = Schema {
        fields: vec![
            field("name", FieldKind::Primitive(TypeTag::Str), DefaultPolicy::Required),
            field(
                "port",
                FieldKind::Primitive(TypeTag::U16),
                DefaultPolicy::Fallback(Value::U16(10)),
            ),
        ],
    };

    let fixed_provider = {
        let mut tmp = Fixed::empty();
        tmp.add_arg("name".to_owned(), "test-name".to_owned());
        tmp.add_arg("port".to_owned(), "123".to_owned());
        tmp
    };

    let expected = Value::Record(vec![Value::Str("test-name".to_owned()), Value::U16(123)]);
    assert_eq!(
        Ok(expected),
        parse_from_providers(&schema, &vec![fixed_provider.get_args()])
    );

    let fixed_provider = {
        let mut tmp = Fixed::empty();
        tmp.add_arg("name".to_owned(), "test-name".to_owned());
        tmp
    };

    let expected = Value::Record(vec![Value::Str("test-name".to_owned()), Value::U16(10)]);
    assert_eq!(
        Ok(expected),
        parse_from_providers(&schema, &vec![fixed_provider.get_args()])
    );

    let expected_args = vec![detail("name", true), detail("port", false)];
    assert_eq!(expected_args, list_arguments(&schema));
}

#[test]
fn primitives_with_default() {
    let schema = Schema {
        fields: vec![
            field("name", FieldKind::Primitive(TypeTag::Str), DefaultPolicy::Required),
            field(
                "port",
                FieldKind::Primitive(TypeTag::Opt(Box::new(TypeTag::U16))),
                DefaultPolicy::Zero,
            ),
        ],
    };

    let fixed_provider = {
        let mut tmp = Fixed::empty();
        tmp.add_arg("name".to_owned(), "test-name".to_owned());
        tmp.add_arg("port".to_owned(), "123".to_owned());
        tmp
    };

    let expected = Value::Record(vec![
        Value::Str("test-name".to_owned()),
        Value::Opt(Some(Box::new(Value::U16(123)))),
    ]);
    assert_eq!(
        Ok(expected),
        parse_from_providers(&schema, &vec![fixed_provider.get_args()])
    );

    let fixed_provider = {
        let mut tmp = Fixed::empty();
        tmp.add_arg("name".to_owned(), "test-name".to_owned());
        tmp
    };

    let expected = Value::Record(vec![Value::Str("test-name".to_owned()), Value::Opt(None)]);
    assert_eq!(
        Ok(expected),
        parse_from_providers(&schema, &vec![fixed_provider.get_args()])
    );

    let expected_args = vec![detail("name", true), detail("port", false)];
    assert_eq!(expected_args, list_arguments(&schema));
}

#[test]
fn listing_is_idempotent() {
    let schema = options_schema();
    let first = list_arguments(&schema);
    let second = list_arguments(&schema);
    assert_eq!(first, second);
}

#[test]
fn provider_order_gives_priority() {
    // Values aggregate across providers in caller order, and the primitive
    // codecs take the first value seen, so earlier providers win.
    let schema = options_schema();
    let mut first = Fixed::empty();
    first.add_arg("name".to_owned(), "from-first".to_owned());
    first.add_arg("port".to_owned(), "1".to_owned());
    let mut second = Fixed::empty();
    second.add_arg("name".to_owned(), "from-second".to_owned());
    second.add_arg("port".to_owned(), "2".to_owned());

    let expected = Value::Record(vec![Value::Str("from-first".to_owned()), Value::U16(1)]);
    assert_eq!(
        Ok(expected),
        parse_from_providers(&schema, &vec![first.get_args(), second.get_args()])
    );
}
